//! A terminal chat client's core: decoding raw key bytes into key events,
//! the modal editor that reacts to them, the layout of the screen, the
//! synchronisation of guild and channel lists, and the shell commands that
//! talk to the chat service.
pub mod keys;
pub mod text;
pub mod model;
pub mod editor;
pub mod wrap;
pub mod screen;
pub mod sync;
pub mod request;
pub mod number;
pub mod answers;
