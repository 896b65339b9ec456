//! Decode-side code generation for a length-prefixed recursive binary
//! encoding: rewriting of generic parameter lists for implementation headers,
//! and the plans (with their reference semantics) of the emitted decoders.

use vstd::prelude::*;

pub mod de;
pub mod framing;
pub mod generics;

verus! {

} // verus!
