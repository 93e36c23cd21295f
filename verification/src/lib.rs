//! A verified runtime core for a legacy bulletin-board door interpreter:
//! it executes a pre-compiled procedural program against host-provided
//! terminal and file-channel interfaces, and rewrites the legacy
//! escape-sequence dialect of the program's output into real terminal
//! control sequences.

pub mod errors;
pub mod text;
pub mod values;
pub mod ops;
pub mod namemap;
pub mod transcode;
pub mod ast;
pub mod constants;
pub mod frame;
pub mod io;
pub mod data;
pub mod pcb_parser;
pub mod interp;
pub mod path;
