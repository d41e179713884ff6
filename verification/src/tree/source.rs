//! Source files and their top-level declarations.

use vstd::prelude::*;

use crate::tree::message::Message;

verus! {

/// A source file declaration.
#[derive(Clone, PartialEq, Eq, Hash, Debug)]
pub enum SourceDec {
    /// A message declaration.
    MessageDec(Message),
}

impl SourceDec {
    /// Well-formedness of the declared element.
    pub open spec fn wf(self) -> bool {
        match self {
            SourceDec::MessageDec(m) => m.wf(),
        }
    }
}

impl core::convert::From<Message> for SourceDec {
    fn from(message: Message) -> (r: SourceDec) {
        SourceDec::MessageDec(message)
    }
}

impl vstd::std_specs::convert::FromSpecImpl<Message> for SourceDec {
    open spec fn obeys_from_spec() -> bool {
        true
    }

    open spec fn from_spec(message: Message) -> SourceDec {
        SourceDec::MessageDec(message)
    }
}

/// A source file.
#[derive(Clone, PartialEq, Eq, Hash, Debug)]
pub struct SourceFile {
    /// The top-level declarations, in order.
    pub declarations: Vec<SourceDec>,
}

impl SourceFile {
    /// Well-formedness of every declaration.
    pub open spec fn wf(self) -> bool {
        forall|i: int| 0 <= i < self.declarations@.len() ==> (#[trigger] self.declarations@[i]).wf()
    }

    /// Gets the declarations.
    pub fn declarations(&self) -> (r: &Vec<SourceDec>)
        ensures
            r == &self.declarations,
    {
        &self.declarations
    }

    /// Adds a declaration.
    pub fn add_declaration(&mut self, declaration: SourceDec)
        ensures
            final(self).declarations@ == old(self).declarations@.push(declaration),
    {
        self.declarations.push(declaration);
    }

    /// Adds a declaration.
    pub fn with_declaration(self, declaration: SourceDec) -> (r: SourceFile)
        ensures
            r.declarations@ == self.declarations@.push(declaration),
    {
        let mut this = self;
        this.add_declaration(declaration);
        this
    }
}

impl core::default::Default for SourceFile {
    /// Creates a source file with no declarations.
    fn default() -> (r: SourceFile)
        ensures
            r.declarations@ == Seq::<SourceDec>::empty(),
    {
        SourceFile { declarations: Vec::new() }
    }
}

} // verus!
