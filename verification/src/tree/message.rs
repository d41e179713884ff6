//! Message declarations and their fields.

use vstd::prelude::*;
use vstd::string::*;

use crate::text::{all_symbol_chars, append_dec, dec_text};
use crate::tree::util::WithComments;
use crate::tree::var::{TypeTag, Var, WithTypeTag, WithVar};

verus! {

/// A message field.
#[derive(Clone, PartialEq, Eq, Hash, Debug)]
pub struct MessageField {
    /// The comment lines attached to the field.
    pub comments: Vec<String>,
    /// The declared name and type.
    pub var: Var,
    /// The declared field number, when present.
    pub field_number: Option<u32>,
}

impl MessageField {
    /// Well-formedness: the variable is well-formed and a declared field
    /// number is positive.
    pub open spec fn wf(self) -> bool {
        &&& self.var.wf()
        &&& match self.field_number {
            Some(n) => n >= 1,
            None => true,
        }
    }

    /// The display text: `name: type`, `= N` when a field number is
    /// declared, then `;`.
    pub open spec fn spec_display(self) -> Seq<char> {
        self.var.spec_display() + match self.field_number {
            Some(n) => " = "@ + dec_text(n as int),
            None => Seq::<char>::empty(),
        } + ";"@
    }

    /// Creates a field with no comments and no field number.
    pub fn new(var: Var) -> (r: MessageField)
        ensures
            r.comments@ == Seq::<String>::empty(),
            r.var == var,
            r.field_number.is_none(),
    {
        MessageField { comments: Vec::new(), var, field_number: None }
    }

    /// Gets the declared name.
    pub fn name(&self) -> (r: &str)
        ensures
            r@ == self.var.name@,
    {
        self.var.name.as_str()
    }

    /// Gets the field number.
    pub fn field_number(&self) -> (r: Option<u32>)
        ensures
            r == self.field_number,
    {
        self.field_number
    }

    /// Sets the field number.
    pub fn with_field_number(self, field_number: u32) -> (r: MessageField)
        ensures
            r == (MessageField { field_number: Some(field_number), ..self }),
    {
        let mut this = self;
        this.set_field_number(field_number);
        this
    }

    /// Sets the field number.
    pub fn set_field_number(&mut self, field_number: u32)
        ensures
            *final(self) == (MessageField { field_number: Some(field_number), ..*old(self) }),
    {
        self.field_number = Some(field_number);
    }

    /// Renders the field as it stands in a schema.
    pub fn display(&self) -> (r: String)
        ensures
            r@ == self.spec_display(),
    {
        let mut out: String = self.var.display();
        match self.field_number {
            Some(n) => {
                out.append(" = ");
                append_dec(&mut out, n);
            },
            None => {},
        }
        out.append(";");
        proof {
            assert(out@ =~= self.spec_display());
        }
        out
    }
}

impl WithComments for MessageField {
    open spec fn spec_comments(&self) -> Seq<Seq<char>> {
        self.comments.deep_view()
    }

    fn comments(&self) -> (r: &Vec<String>) {
        &self.comments
    }

    fn add_comment(&mut self, comment: String) {
        self.comments.push(comment);
        proof {
            assert(self.comments.deep_view() =~= old(self).comments.deep_view().push(comment@));
        }
    }

    fn with_comment(self, comment: String) -> (r: Self) {
        let mut this = self;
        this.comments.push(comment);
        proof {
            assert(this.comments.deep_view() =~= self.comments.deep_view().push(comment@));
        }
        this
    }
}

impl WithTypeTag for MessageField {
    open spec fn spec_type_tag(&self) -> TypeTag {
        self.var.tag
    }

    fn type_tag(&self) -> (r: &TypeTag) {
        &self.var.tag
    }
}

impl WithVar for MessageField {
    open spec fn spec_var(&self) -> Var {
        self.var
    }

    fn var(&self) -> (r: &Var) {
        &self.var
    }
}

/// The text of a run of comment lines, each rendered as `// line`.
pub open spec fn comments_text(cs: Seq<Seq<char>>) -> Seq<char>
    decreases cs.len(),
{
    if cs.len() == 0 {
        Seq::<char>::empty()
    } else {
        comments_text(cs.drop_last()) + "// "@ + cs.last() + "\n"@
    }
}

/// The text of a run of field lines, each indented and ended with a newline.
pub open spec fn fields_text(fs: Seq<MessageField>) -> Seq<char>
    decreases fs.len(),
{
    if fs.len() == 0 {
        Seq::<char>::empty()
    } else {
        fields_text(fs.drop_last()) + "    "@ + fs.last().spec_display() + "\n"@
    }
}

/// A message declaration.
#[derive(Clone, PartialEq, Eq, Hash, Debug)]
pub struct Message {
    /// The comment lines attached to the message.
    pub comments: Vec<String>,
    /// The declared name.
    pub name: String,
    /// The fields, in declaration order.
    pub fields: Vec<MessageField>,
}

impl Message {
    /// Well-formedness: the name is a non-empty symbol string and every
    /// field is well-formed.
    pub open spec fn wf(self) -> bool {
        &&& self.name@.len() >= 1
        &&& all_symbol_chars(self.name@)
        &&& forall|i: int| 0 <= i < self.fields@.len() ==> (#[trigger] self.fields@[i]).wf()
    }

    /// The display text: the comments, then `message name {`, then the
    /// field lines, then `}`.
    pub open spec fn spec_display(self) -> Seq<char> {
        comments_text(self.comments.deep_view()) + "message "@ + self.name@ + " {"@ + (if self.fields@.len()
            == 0 {
            "}"@
        } else {
            "\n"@ + fields_text(self.fields@) + "}"@
        }) + "\n"@
    }

    /// Creates a message with no comments and no fields.
    pub fn new(name: String) -> (r: Message)
        ensures
            r.comments@ == Seq::<String>::empty(),
            r.name == name,
            r.fields@ == Seq::<MessageField>::empty(),
    {
        Message { comments: Vec::new(), name, fields: Vec::new() }
    }

    /// Gets the declared name.
    pub fn name(&self) -> (r: &str)
        ensures
            r@ == self.name@,
    {
        self.name.as_str()
    }

    /// Gets the fields.
    pub fn fields(&self) -> (r: &Vec<MessageField>)
        ensures
            r == &self.fields,
    {
        &self.fields
    }

    /// Adds the field.
    pub fn with_field(self, field: MessageField) -> (r: Message)
        ensures
            r.comments == self.comments,
            r.name == self.name,
            r.fields@ == self.fields@.push(field),
    {
        let mut this = self;
        this.add_field(field);
        this
    }

    /// Adds the field.
    pub fn add_field(&mut self, field: MessageField)
        ensures
            final(self).comments == old(self).comments,
            final(self).name == old(self).name,
            final(self).fields@ == old(self).fields@.push(field),
    {
        self.fields.push(field);
    }

    /// Renders the message as it stands in a schema.
    pub fn display(&self) -> (r: String)
        ensures
            r@ == self.spec_display(),
    {
        let mut out: String = String::new();
        let mut i: usize = 0;
        while i < self.comments.len()
            invariant
                i <= self.comments@.len(),
                out@ == comments_text(self.comments.deep_view().take(i as int)),
            decreases self.comments@.len() - i,
        {
            out.append("// ");
            out.append(self.comments[i].as_str());
            out.append("\n");
            i = i + 1;
            proof {
                let taken = self.comments.deep_view().take(i as int);
                assert(taken.drop_last() =~= self.comments.deep_view().take(i as int - 1));
                assert(taken.last() == self.comments.deep_view()[i as int - 1]);
                assert(out@ =~= comments_text(taken));
            }
        }
        proof {
            assert(self.comments.deep_view().take(self.comments@.len() as int) =~= self.comments.deep_view());
        }
        out.append("message ");
        out.append(self.name.as_str());
        out.append(" {");
        if self.fields.len() == 0 {
            out.append("}");
        } else {
            out.append("\n");
            let ghost head = comments_text(self.comments.deep_view()) + "message "@ + self.name@
                + " {"@ + "\n"@;
            proof {
                assert(out@ =~= head + fields_text(self.fields@.take(0)));
            }
            let mut j: usize = 0;
            while j < self.fields.len()
                invariant
                    j <= self.fields@.len(),
                    out@ == head + fields_text(self.fields@.take(j as int)),
                decreases self.fields@.len() - j,
            {
                out.append("    ");
                let line: String = self.fields[j].display();
                out.append(line.as_str());
                out.append("\n");
                j = j + 1;
                proof {
                    let taken = self.fields@.take(j as int);
                    assert(taken.drop_last() =~= self.fields@.take(j as int - 1));
                    assert(taken.last() == self.fields@[j as int - 1]);
                    assert(out@ =~= head + fields_text(taken));
                }
            }
            proof {
                assert(self.fields@.take(self.fields@.len() as int) =~= self.fields@);
            }
            out.append("}");
        }
        out.append("\n");
        proof {
            assert(out@ =~= self.spec_display());
        }
        out
    }
}

impl WithComments for Message {
    open spec fn spec_comments(&self) -> Seq<Seq<char>> {
        self.comments.deep_view()
    }

    fn comments(&self) -> (r: &Vec<String>) {
        &self.comments
    }

    fn add_comment(&mut self, comment: String) {
        self.comments.push(comment);
        proof {
            assert(self.comments.deep_view() =~= old(self).comments.deep_view().push(comment@));
        }
    }

    fn with_comment(self, comment: String) -> (r: Self) {
        let mut this = self;
        this.comments.push(comment);
        proof {
            assert(this.comments.deep_view() =~= self.comments.deep_view().push(comment@));
        }
        this
    }
}

/// A semantic fault found while validating a parsed schema.
#[derive(Copy, Clone, PartialEq, Eq, Structural, Hash, Debug)]
pub enum SemanticError {
    /// Two fields of one message share a name.
    DuplicateFieldName,
    /// Two fields of one message declare the same field number.
    DuplicateFieldNumber,
}

/// Whether the field names of a message are pairwise distinct.
pub open spec fn unique_field_names(m: Message) -> bool {
    forall|i: int, j: int| 0 <= i < j < m.fields@.len() ==> (#[trigger] m.fields@[i]).var.name@
        != (#[trigger] m.fields@[j]).var.name@
}

/// Whether the declared field numbers of a message are pairwise distinct.
pub open spec fn unique_field_numbers(m: Message) -> bool {
    forall|i: int, j: int| 0 <= i < j < m.fields@.len() ==> !((#[trigger] m.fields@[i]).field_number
        is Some && (#[trigger] m.fields@[j]).field_number is Some
        && m.fields@[i].field_number == m.fields@[j].field_number)
}

impl Message {
    /// Checks the design invariants of a message: field names are pairwise
    /// distinct, and so are the declared field numbers.
    pub fn validate(&self) -> (r: Result<(), SemanticError>)
        ensures
            r is Ok <==> unique_field_names(*self) && unique_field_numbers(*self),
            r == Err::<(), SemanticError>(SemanticError::DuplicateFieldName)
                ==> !unique_field_names(*self),
            r == Err::<(), SemanticError>(SemanticError::DuplicateFieldNumber)
                ==> !unique_field_numbers(*self),
    {
        let n: usize = self.fields.len();
        let mut i: usize = 0;
        while i < n
            invariant
                n == self.fields@.len(),
                i <= n,
                forall|a: int, b: int| 0 <= a < b < n && a < i
                    ==> (#[trigger] self.fields@[a]).var.name@
                    != (#[trigger] self.fields@[b]).var.name@,
                forall|a: int, b: int| 0 <= a < b < n && a < i
                    ==> !((#[trigger] self.fields@[a]).field_number is Some
                    && (#[trigger] self.fields@[b]).field_number is Some
                    && self.fields@[a].field_number == self.fields@[b].field_number),
            decreases n - i,
        {
            let mut j: usize = i + 1;
            while j < n
                invariant
                    n == self.fields@.len(),
                    i < n,
                    i + 1 <= j <= n,
                    forall|b: int| i < b < j ==> (#[trigger] self.fields@[b]).var.name@
                        != self.fields@[i as int].var.name@,
                    forall|b: int| i < b < j ==> !((#[trigger] self.fields@[b]).field_number
                        is Some && self.fields@[i as int].field_number is Some
                        && self.fields@[b].field_number == self.fields@[i as int].field_number),
                decreases n - j,
            {
                if self.fields[i].var.name.eq(&self.fields[j].var.name) {
                    return Err(SemanticError::DuplicateFieldName);
                }
                match (self.fields[i].field_number, self.fields[j].field_number) {
                    (Some(x), Some(y)) => {
                        if x == y {
                            return Err(SemanticError::DuplicateFieldNumber);
                        }
                    },
                    _ => {},
                }
                j = j + 1;
            }
            i = i + 1;
        }
        Ok(())
    }
}

} // verus!
