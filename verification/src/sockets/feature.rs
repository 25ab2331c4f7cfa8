//! Protocol features worth negotiating in `HELLO`.

use vstd::prelude::*;

verus! {

/// Mutation tokens on every write, which `consistent-with` needs.
pub const MUTATION_SEQNO: u16 = 0x0004;

pub const XATTR: u16 = 0x0006;

pub const SELECT_BUCKET: u16 = 0x0008;

/// Datatype bit set on JSON values.
pub const JSON: u16 = 0x000b;

/// Changes the key encoding: the collection id comes before the document id.
pub const COLLECTIONS: u16 = 0x0012;

} // verus!
