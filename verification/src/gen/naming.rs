//! The naming policy: from declared identifiers to target identifiers.

use vstd::prelude::*;
use vstd::string::*;

use crate::gen::GenError;

verus! {

/// Responsible for naming things. This policy is the identity: emitted
/// identifiers equal the declared ones character for character.
#[derive(Clone, PartialEq, Eq, Hash, Debug, Default)]
pub struct Naming {
    _nothing: bool,
}

impl Naming {
    /// Gets the field name for the declared field name.
    pub fn field_name(&self, declared_name: &str) -> (r: Result<String, GenError>)
        ensures
            r matches Ok(name) && name@ == declared_name@,
    {
        Ok(declared_name.to_owned())
    }

    /// Gets the type name for the declared type name.
    pub fn type_ident(&self, declared_name: &str) -> (r: Result<String, GenError>)
        ensures
            r matches Ok(name) && name@ == declared_name@,
    {
        Ok(declared_name.to_owned())
    }
}

} // verus!
