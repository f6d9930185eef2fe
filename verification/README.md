# fokcord

A terminal client for a chat service, written in Verus. The library under
`src/` holds the client's logic with its contracts and proofs; `app/` is the
program around it (raw terminal mode, reading keys, running requests through
the shell, printing the screen).

Modules of the library:

- `keys`: raw bytes from the terminal to key events.
- `text`, `number`, `wrap`: byte-level text helpers (UTF-8 boundaries,
  decimal numbers, splitting and wrapping lines).
- `model`: the client's state and its mathematical view.
- `editor`: the modal editor; a key event changes the state and names what
  the program must do next (send a message, run a command line).
- `screen`: the screen, drawn as one byte string for a terminal size.
- `sync`: merging the service's guild and channel lists into the state.
- `request`: the shell commands that talk to the service.
- `answers`: reading the service's JSON answers and the configuration.
