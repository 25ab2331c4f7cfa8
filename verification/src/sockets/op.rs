//! The opcodes that are sent.

use vstd::prelude::*;

verus! {

pub const GET: u8 = 0x00;

pub const SET: u8 = 0x01;

pub const ADD: u8 = 0x02;

pub const REPLACE: u8 = 0x03;

pub const DELETE: u8 = 0x04;

pub const HELLO: u8 = 0x1f;

pub const SASL_LIST_MECHS: u8 = 0x20;

pub const SASL_AUTH: u8 = 0x21;

pub const TOUCH: u8 = 0x1c;

pub const GET_AND_TOUCH: u8 = 0x1d;

pub const GET_AND_LOCK: u8 = 0x94;

pub const UNLOCK: u8 = 0x95;

pub const SELECT_BUCKET: u8 = 0x89;

pub const GET_CLUSTER_CONFIG: u8 = 0xb5;

pub const GET_COLLECTION_ID: u8 = 0xbb;

pub const SUBDOC_MULTI_LOOKUP: u8 = 0xd0;

/// Metadata, with the expiry that a plain `GET` does not report.
pub const GET_META: u8 = 0xa0;

} // verus!
