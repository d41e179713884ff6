//! Generating accessor, mutator and builder operations for message fields.

use vstd::prelude::*;
use vstd::string::*;

use crate::gen::naming::Naming;
use crate::gen::typing::{spec_field_type, spec_is_copy, Typing};
use crate::gen::GenError;
use crate::tree::message::{Message, MessageField};

verus! {

/// The getter of one field: returns the stored value by copy.
pub open spec fn getter_text(f: MessageField) -> Seq<char> {
    "    /// Gets the field: `"@ + f.var.name@ + "`.\n"@ + "    pub fn "@ + f.var.name@
        + "(&self) -> Option<"@ + spec_field_type(f.var.tag) + "> {\n"@ + "        self."@
        + f.var.name@ + "\n"@ + "    }\n"@
}

/// The setter of one field: stores the value and returns the prior one.
pub open spec fn setter_text(f: MessageField) -> Seq<char> {
    "    /// Sets the field: `"@ + f.var.name@ + "`. Returns the previous value.\n"@
        + "    pub fn set_"@ + f.var.name@ + "(&mut self, "@ + f.var.name@ + ": Option<"@
        + spec_field_type(f.var.tag) + ">) -> Option<"@ + spec_field_type(f.var.tag) + "> {\n"@
        + "        let old_value: Option<"@ + spec_field_type(f.var.tag) + "> = self."@
        + f.var.name@ + ";\n"@ + "        self."@ + f.var.name@ + " = "@ + f.var.name@ + ";\n"@
        + "        old_value\n"@ + "    }\n"@
}

/// The builder of one field: replaces the field and returns the message.
pub open spec fn builder_text(f: MessageField) -> Seq<char> {
    "    /// Builds the field: `"@ + f.var.name@ + "`. Returns the struct itself.\n"@
        + "    pub fn with_"@ + f.var.name@ + "(mut self, "@ + f.var.name@ + ": Option<"@
        + spec_field_type(f.var.tag) + ">) -> Self {\n"@ + "        self."@ + f.var.name@ + " = "@
        + f.var.name@ + ";\n"@ + "        self\n"@ + "    }\n"@
}

/// The impl block of one field: the getter, the setter, then the builder.
pub open spec fn field_impl_text(name: Seq<char>, f: MessageField) -> Seq<char> {
    "// Field: "@ + f.spec_display() + "\n"@ + "impl "@ + name + " {\n"@ + getter_text(f) + "\n"@
        + setter_text(f) + "\n"@ + builder_text(f) + "}\n"@
}

/// Responsible for generating impl blocks for message fields.
#[derive(Copy, Clone, Debug)]
pub struct GenMessageField<'a> {
    /// The naming policy.
    pub naming: &'a Naming,
    /// The typing policy.
    pub typing: &'a Typing,
}

impl<'a> GenMessageField<'a> {
    /// Creates a new gen message field.
    pub fn new(naming: &'a Naming, typing: &'a Typing) -> (r: Self)
        ensures
            r.naming == naming,
            r.typing == typing,
    {
        Self { naming, typing }
    }

    /// Generates the impl block for the message field.
    pub fn gen_field(&self, message: &Message, field: &MessageField) -> (r: Result<
        String,
        GenError,
    >)
        ensures
            spec_is_copy(field.var.tag) ==> (r matches Ok(s) && s@ == field_impl_text(
                message.name@,
                *field,
            )),
            !spec_is_copy(field.var.tag) ==> r == Err::<String, GenError>(GenError::Unsupported),
    {
        let mut out: String = String::new();
        out.append("// Field: ");
        let line: String = field.display();
        out.append(line.as_str());
        out.append("\n");
        out.append("impl ");
        out.append(message.name.as_str());
        out.append(" {\n");
        match self.gen_getters(&mut out, field) {
            Ok(_) => {},
            Err(e) => {
                return Err(e);
            },
        }
        out.append("\n");
        match self.gen_setters(&mut out, field) {
            Ok(_) => {},
            Err(e) => {
                return Err(e);
            },
        }
        out.append("\n");
        match self.gen_builders(&mut out, field) {
            Ok(_) => {},
            Err(e) => {
                return Err(e);
            },
        }
        out.append("}\n");
        proof {
            assert(out@ =~= field_impl_text(message.name@, *field));
        }
        Ok(out)
    }

    /// Generates the getter for the field.
    fn gen_getters(&self, out: &mut String, field: &MessageField) -> (r: Result<(), GenError>)
        ensures
            spec_is_copy(field.var.tag) ==> (r == Ok::<(), GenError>(()) && final(out)@ == old(out)@
                + getter_text(*field)),
            !spec_is_copy(field.var.tag) ==> r == Err::<(), GenError>(GenError::Unsupported),
    {
        let copy: bool = match self.typing.is_copy(&field.var.tag) {
            Ok(copy) => copy,
            Err(_) => false,
        };
        if !copy {
            return Err(GenError::Unsupported);
        }
        let name: String = match self.naming.field_name(field.var.name.as_str()) {
            Ok(name) => name,
            Err(_) => field.var.name.clone(),
        };
        let tag: String = match self.typing.field_type(&field.var.tag) {
            Ok(tag) => tag,
            Err(_) => field.var.tag.display(),
        };
        out.append("    /// Gets the field: `");
        out.append(name.as_str());
        out.append("`.\n");
        out.append("    pub fn ");
        out.append(name.as_str());
        out.append("(&self) -> Option<");
        out.append(tag.as_str());
        out.append("> {\n");
        out.append("        self.");
        out.append(name.as_str());
        out.append("\n");
        out.append("    }\n");
        proof {
            assert(out@ =~= old(out)@ + getter_text(*field));
        }
        Ok(())
    }

    /// Generates the setter for the field.
    fn gen_setters(&self, out: &mut String, field: &MessageField) -> (r: Result<(), GenError>)
        ensures
            spec_is_copy(field.var.tag) ==> (r == Ok::<(), GenError>(()) && final(out)@ == old(out)@
                + setter_text(*field)),
            !spec_is_copy(field.var.tag) ==> r == Err::<(), GenError>(GenError::Unsupported),
    {
        let copy: bool = match self.typing.is_copy(&field.var.tag) {
            Ok(copy) => copy,
            Err(_) => false,
        };
        if !copy {
            return Err(GenError::Unsupported);
        }
        let name: String = match self.naming.field_name(field.var.name.as_str()) {
            Ok(name) => name,
            Err(_) => field.var.name.clone(),
        };
        let tag: String = match self.typing.field_type(&field.var.tag) {
            Ok(tag) => tag,
            Err(_) => field.var.tag.display(),
        };
        out.append("    /// Sets the field: `");
        out.append(name.as_str());
        out.append("`. Returns the previous value.\n");
        out.append("    pub fn set_");
        out.append(name.as_str());
        out.append("(&mut self, ");
        out.append(name.as_str());
        out.append(": Option<");
        out.append(tag.as_str());
        out.append(">) -> Option<");
        out.append(tag.as_str());
        out.append("> {\n");
        out.append("        let old_value: Option<");
        out.append(tag.as_str());
        out.append("> = self.");
        out.append(name.as_str());
        out.append(";\n");
        out.append("        self.");
        out.append(name.as_str());
        out.append(" = ");
        out.append(name.as_str());
        out.append(";\n");
        out.append("        old_value\n");
        out.append("    }\n");
        proof {
            assert(out@ =~= old(out)@ + setter_text(*field));
        }
        Ok(())
    }

    /// Generates the builder for the field.
    fn gen_builders(&self, out: &mut String, field: &MessageField) -> (r: Result<(), GenError>)
        ensures
            spec_is_copy(field.var.tag) ==> (r == Ok::<(), GenError>(()) && final(out)@ == old(out)@
                + builder_text(*field)),
            !spec_is_copy(field.var.tag) ==> r == Err::<(), GenError>(GenError::Unsupported),
    {
        let copy: bool = match self.typing.is_copy(&field.var.tag) {
            Ok(copy) => copy,
            Err(_) => false,
        };
        if !copy {
            return Err(GenError::Unsupported);
        }
        let name: String = match self.naming.field_name(field.var.name.as_str()) {
            Ok(name) => name,
            Err(_) => field.var.name.clone(),
        };
        let tag: String = match self.typing.field_type(&field.var.tag) {
            Ok(tag) => tag,
            Err(_) => field.var.tag.display(),
        };
        out.append("    /// Builds the field: `");
        out.append(name.as_str());
        out.append("`. Returns the struct itself.\n");
        out.append("    pub fn with_");
        out.append(name.as_str());
        out.append("(mut self, ");
        out.append(name.as_str());
        out.append(": Option<");
        out.append(tag.as_str());
        out.append(">) -> Self {\n");
        out.append("        self.");
        out.append(name.as_str());
        out.append(" = ");
        out.append(name.as_str());
        out.append(";\n");
        out.append("        self\n");
        out.append("    }\n");
        proof {
            assert(out@ =~= old(out)@ + builder_text(*field));
        }
        Ok(())
    }
}

} // verus!
