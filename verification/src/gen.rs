//! The emitter: from a schema tree to target-language source text.

use vstd::prelude::*;

pub mod message;
pub mod message_decode;
pub mod message_encode;
pub mod message_field;
pub mod message_struct;
pub mod naming;
pub mod typing;

verus! {

/// An error raised while generating code.
#[derive(Copy, Clone, PartialEq, Eq, Structural, Hash, Debug)]
pub enum GenError {
    /// The schema uses a feature the emitter does not support, such as a
    /// field without an explicit field number.
    Unsupported,
}

} // verus!
