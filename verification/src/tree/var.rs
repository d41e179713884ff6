//! Variables: names paired with type tags.

use vstd::prelude::*;
use vstd::string::*;

use crate::text::{all_symbol_chars, is_symbol_char};

verus! {

/// A primitive type.
#[derive(Copy, Clone, Ord, PartialOrd, Eq, PartialEq, Hash, Debug, Structural)]
pub enum PrimitiveType {
    /// An unsigned 8-bit integer.
    UnsignedInt8,
    /// An unsigned 16-bit integer.
    UnsignedInt16,
    /// An unsigned 32-bit integer.
    UnsignedInt32,
    /// An unsigned 64-bit integer.
    UnsignedInt64,
}

impl PrimitiveType {
    /// The canonical spelling of the primitive type.
    pub open spec fn spec_str(self) -> Seq<char> {
        match self {
            PrimitiveType::UnsignedInt8 => "u8"@,
            PrimitiveType::UnsignedInt16 => "u16"@,
            PrimitiveType::UnsignedInt32 => "u32"@,
            PrimitiveType::UnsignedInt64 => "u64"@,
        }
    }

    /// Converts the primitive type to a type tag.
    pub fn to_type_tag(&self) -> (r: TypeTag)
        ensures
            r == TypeTag::Primitive(*self),
    {
        TypeTag::Primitive(*self)
    }

    /// The canonical spelling of the primitive type.
    pub fn to_static_str(&self) -> (r: &'static str)
        ensures
            r@ == self.spec_str(),
    {
        match self {
            PrimitiveType::UnsignedInt8 => "u8",
            PrimitiveType::UnsignedInt16 => "u16",
            PrimitiveType::UnsignedInt32 => "u32",
            PrimitiveType::UnsignedInt64 => "u64",
        }
    }

    /// Renders the canonical spelling as an owned string.
    pub fn display(&self) -> (r: String)
        ensures
            r@ == self.spec_str(),
    {
        String::from_str(self.to_static_str())
    }
}

/// The spelling of every primitive type is a non-empty symbol string.
pub proof fn lemma_primitive_spelling(p: PrimitiveType)
    ensures
        p.spec_str().len() >= 1,
        all_symbol_chars(p.spec_str()),
{
    reveal_strlit("u8");
    reveal_strlit("u16");
    reveal_strlit("u32");
    reveal_strlit("u64");
    match p {
        PrimitiveType::UnsignedInt8 => {
            assert forall|i: int| 0 <= i < p.spec_str().len() implies is_symbol_char(
                #[trigger] p.spec_str()[i],
            ) by {
                assert(p.spec_str()[0] == 'u');
                assert(p.spec_str()[1] == '8');
            }
        },
        PrimitiveType::UnsignedInt16 => {
            assert forall|i: int| 0 <= i < p.spec_str().len() implies is_symbol_char(
                #[trigger] p.spec_str()[i],
            ) by {
                assert(p.spec_str()[0] == 'u');
                assert(p.spec_str()[1] == '1');
                assert(p.spec_str()[2] == '6');
            }
        },
        PrimitiveType::UnsignedInt32 => {
            assert forall|i: int| 0 <= i < p.spec_str().len() implies is_symbol_char(
                #[trigger] p.spec_str()[i],
            ) by {
                assert(p.spec_str()[0] == 'u');
                assert(p.spec_str()[1] == '3');
                assert(p.spec_str()[2] == '2');
            }
        },
        PrimitiveType::UnsignedInt64 => {
            assert forall|i: int| 0 <= i < p.spec_str().len() implies is_symbol_char(
                #[trigger] p.spec_str()[i],
            ) by {
                assert(p.spec_str()[0] == 'u');
                assert(p.spec_str()[1] == '6');
                assert(p.spec_str()[2] == '4');
            }
        },
    }
}

/// A type tag.
#[derive(Copy, Clone, Ord, PartialOrd, Eq, PartialEq, Hash, Debug, Structural)]
pub enum TypeTag {
    /// A primitive type.
    Primitive(PrimitiveType),
}

impl TypeTag {
    /// The canonical spelling of the type.
    pub open spec fn spec_str(self) -> Seq<char> {
        match self {
            TypeTag::Primitive(p) => p.spec_str(),
        }
    }

    /// Renders the canonical spelling as an owned string.
    pub fn display(&self) -> (r: String)
        ensures
            r@ == self.spec_str(),
    {
        match self {
            TypeTag::Primitive(p) => p.display(),
        }
    }
}

impl core::convert::From<PrimitiveType> for TypeTag {
    fn from(primitive: PrimitiveType) -> (r: TypeTag) {
        TypeTag::Primitive(primitive)
    }
}

impl vstd::std_specs::convert::FromSpecImpl<PrimitiveType> for TypeTag {
    open spec fn obeys_from_spec() -> bool {
        true
    }

    open spec fn from_spec(primitive: PrimitiveType) -> TypeTag {
        TypeTag::Primitive(primitive)
    }
}

/// A name with an associated type tag.
#[derive(Clone, PartialEq, Eq, Hash, Debug)]
pub struct Var {
    /// The declared name.
    pub name: String,
    /// The declared type.
    pub tag: TypeTag,
}

impl Var {
    /// Well-formedness: the name is a non-empty symbol string.
    pub open spec fn wf(self) -> bool {
        self.name@.len() >= 1 && all_symbol_chars(self.name@)
    }

    /// The display text: `name: type`.
    pub open spec fn spec_display(self) -> Seq<char> {
        self.name@ + ": "@ + self.tag.spec_str()
    }

    /// Creates a variable from a name and a type tag.
    pub fn new(name: String, tag: TypeTag) -> (r: Var)
        ensures
            r.name == name,
            r.tag == tag,
    {
        Var { name, tag }
    }

    /// Gets the declared name.
    pub fn name(&self) -> (r: &str)
        ensures
            r@ == self.name@,
    {
        self.name.as_str()
    }

    /// Renders the variable as `name: type`.
    pub fn display(&self) -> (r: String)
        ensures
            r@ == self.spec_display(),
    {
        let mut out: String = self.name.clone();
        out.append(": ");
        let tag: String = self.tag.display();
        out.append(tag.as_str());
        out
    }
}

/// An element with a type tag.
pub trait WithTypeTag {
    /// The type tag, for specifications.
    spec fn spec_type_tag(&self) -> TypeTag;

    /// Gets the type tag.
    fn type_tag(&self) -> (r: &TypeTag)
        ensures
            *r == self.spec_type_tag(),
    ;
}

impl WithTypeTag for Var {
    open spec fn spec_type_tag(&self) -> TypeTag {
        self.tag
    }

    fn type_tag(&self) -> (r: &TypeTag) {
        &self.tag
    }
}

/// An element with a variable.
pub trait WithVar {
    /// The variable, for specifications.
    spec fn spec_var(&self) -> Var;

    /// Gets the variable.
    fn var(&self) -> (r: &Var)
        ensures
            *r == self.spec_var(),
    ;
}

} // verus!
