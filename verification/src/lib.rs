//! A modal text editor for the terminal, as a library: the document, the
//! viewport centred on the cursor, the interpreter of typed commands, the
//! layout of each frame, and the session that holds them together.

pub mod cmd;
pub mod display;
pub mod file;
pub mod layout;
pub mod paint;
pub mod session;
pub mod text;
