//! Native desktop integration: file transfers over the clipboard and drag and
//! drop, jump lists, task dispatch, and the layout of styled text.
//!
//! Every decision that those features make is a function of plain values and
//! is proved against its contract here. The programs that talk to a display
//! server or to the shell call these functions and carry out what they say.

// Text, pathnames and URLs.
pub mod chars;
pub mod file_url;
pub mod paths;
pub mod utf16;

// File transfers and what the application knows of them.
pub mod app;
pub mod file_transfer;
pub mod paste;

// X11.
pub mod outbound_drag;
pub mod x11_clipboard;

// Windows.
pub mod bindings;
pub mod devices;
pub mod dispatcher;
pub mod jump_list;
pub mod shell_transfer;

// Text on the screen.
pub mod elements;
pub mod interactive_text;
pub mod pixels;
pub mod styled_text;
pub mod text_layout;
