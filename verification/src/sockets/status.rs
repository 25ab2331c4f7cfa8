//! The status codes that are told apart.

use vstd::prelude::*;

verus! {

pub const OK: u16 = 0x0000;

pub const NOT_FOUND: u16 = 0x0001;

pub const EXISTS: u16 = 0x0002;

pub const TOO_LARGE: u16 = 0x0003;

pub const INVALID: u16 = 0x0004;

pub const NOT_STORED: u16 = 0x0005;

pub const DELTA_BAD_VALUE: u16 = 0x0006;

pub const NOT_MY_VBUCKET: u16 = 0x0007;

pub const LOCKED: u16 = 0x0009;

pub const AUTH_ERROR: u16 = 0x0020;

pub const NOT_LOCKED: u16 = 0x0030;

pub const UNKNOWN_COLLECTION: u16 = 0x0088;

pub const UNKNOWN_COMMAND: u16 = 0x0081;

pub const NOT_SUPPORTED: u16 = 0x0083;

} // verus!
