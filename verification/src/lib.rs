//! felix: the verified core of a terminal file manager with vim-like key mapping.
pub mod digits;
pub mod functions;
pub mod jumplist;
pub mod errors;
pub mod config;
pub mod session;
pub mod layout;
pub mod bytes;
pub mod assoc;
pub mod magic_image;
pub mod magicbytes;
pub mod magic_packed;
pub mod keymap;
pub mod state;
pub mod op;
pub mod arrange;
pub mod cursor;
pub mod term;
pub mod manipulation;
pub mod preview;
pub mod command;
pub mod line_edit;
pub mod dispatch;
