//! Schema-driven CBOR encoding: record and union types are described by field and case
//! descriptors, and values are encoded in array or map layout from those descriptors, with
//! presence-dependent container sizes, null-filled gaps, case framing and transparent
//! wrappers. Also holds the keypath allow-list checks of the Ethereum app.

use vstd::prelude::*;

pub mod cbor;
pub mod descriptor;
pub mod keypath;
pub mod laws;
pub mod layout;
pub mod schema;
pub mod sink;

verus! {

} // verus!
