//! The flag constants the legacy input and display built-ins combine.

use vstd::prelude::*;

verus! {

pub const AUTO: i32 = 0x2000;

pub const BELL: i32 = 0x0800;

pub const DEFS: i32 = 0x0000;

pub const ECHODOTS: i32 = 0x0001;

pub const ERASELINE: i32 = 0x0020;

pub const FIELDLEN: i32 = 0x0002;

pub const GUIDE: i32 = 0x0004;

pub const HIGHASCII: i32 = 0x1000;

pub const LFAFTER: i32 = 0x0100;

pub const LFBEFORE: i32 = 0x0080;

pub const LOGIT: i32 = 0x8000;

pub const LOGITLEFT: i32 = 0x10000;

pub const NEWLINE: i32 = 0x0040;

pub const NOCLEAR: i32 = 0x0400;

pub const STACKED: i32 = 0x0010;

pub const UPCASE: i32 = 0x0008;

pub const WORDWRAP: i32 = 0x0200;

pub const YESNO: i32 = 0x4000;

} // verus!
