//! The typing policy: from declared types to target types.

use vstd::prelude::*;
use vstd::string::*;

use crate::gen::GenError;
use crate::tree::message::Message;
use crate::tree::var::{PrimitiveType, TypeTag};

verus! {

/// Whether the declared type maps to a target value type with bitwise copy.
pub open spec fn spec_is_copy(tag: TypeTag) -> bool {
    match tag {
        TypeTag::Primitive(p) => match p {
            PrimitiveType::UnsignedInt8 => true,
            PrimitiveType::UnsignedInt16 => true,
            PrimitiveType::UnsignedInt32 => true,
            PrimitiveType::UnsignedInt64 => true,
        },
    }
}

/// Whether every field of the message maps to a copy type.
pub open spec fn spec_all_copy(m: Message) -> bool {
    forall|i: int| 0 <= i < m.fields@.len() ==> spec_is_copy((#[trigger] m.fields@[i]).var.tag)
}

/// The target spelling of the declared type. The target types carry the
/// canonical spellings of the schema types.
pub open spec fn spec_field_type(tag: TypeTag) -> Seq<char> {
    tag.spec_str()
}

/// Responsible for type conversions and utilities.
#[derive(Clone, PartialEq, Eq, Hash, Debug, Default)]
pub struct Typing {
    _nothing: bool,
}

impl Typing {
    /// Checks if the declared type converts to a target `Copy` type.
    pub fn is_copy(&self, declared_type: &TypeTag) -> (r: Result<bool, GenError>)
        ensures
            r == Ok::<bool, GenError>(spec_is_copy(*declared_type)),
    {
        let is_copy: bool = match declared_type {
            TypeTag::Primitive(primitive) => match primitive {
                PrimitiveType::UnsignedInt8 => true,
                PrimitiveType::UnsignedInt16 => true,
                PrimitiveType::UnsignedInt32 => true,
                PrimitiveType::UnsignedInt64 => true,
            },
        };
        Ok(is_copy)
    }

    /// Checks if all the fields in the message convert to target `Copy` types.
    pub fn all_copy(&self, message: &Message) -> (r: Result<bool, GenError>)
        ensures
            r == Ok::<bool, GenError>(spec_all_copy(*message)),
    {
        let mut i: usize = 0;
        while i < message.fields.len()
            invariant
                i <= message.fields@.len(),
                forall|k: int| 0 <= k < i ==> spec_is_copy((#[trigger] message.fields@[k]).var.tag),
            decreases message.fields@.len() - i,
        {
            let copy: bool = match self.is_copy(&message.fields[i].var.tag) {
                Ok(copy) => copy,
                Err(e) => {
                    return Err(e);
                },
            };
            if !copy {
                return Ok(false);
            }
            i = i + 1;
        }
        Ok(true)
    }

    /// Gets the target field type for the declared type.
    pub fn field_type(&self, declared_type: &TypeTag) -> (r: Result<String, GenError>)
        ensures
            r matches Ok(name) && name@ == spec_field_type(*declared_type),
    {
        match declared_type {
            TypeTag::Primitive(primitive) => self.primitive_field_type(*primitive),
        }
    }

    /// Gets the target field type for the declared primitive type.
    pub fn primitive_field_type(&self, primitive_type: PrimitiveType) -> (r: Result<
        String,
        GenError,
    >)
        ensures
            r matches Ok(name) && name@ == primitive_type.spec_str(),
    {
        Ok(primitive_type.display())
    }
}

} // verus!
