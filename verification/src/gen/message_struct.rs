//! Generating struct declarations for message types.

use vstd::prelude::*;
use vstd::string::*;

use crate::gen::naming::Naming;
use crate::gen::typing::{spec_all_copy, spec_field_type, Typing};
use crate::gen::GenError;
use crate::tree::message::{Message, MessageField};

verus! {

/// The text of a run of doc-comment lines, each rendered as `/// line`.
pub open spec fn doc_comments_text(cs: Seq<Seq<char>>) -> Seq<char>
    decreases cs.len(),
{
    if cs.len() == 0 {
        Seq::<char>::empty()
    } else {
        doc_comments_text(cs.drop_last()) + "/// "@ + cs.last() + "\n"@
    }
}

/// The text of a run of indented doc-comment lines inside the schema echo.
pub open spec fn field_doc_comments_text(cs: Seq<Seq<char>>) -> Seq<char>
    decreases cs.len(),
{
    if cs.len() == 0 {
        Seq::<char>::empty()
    } else {
        field_doc_comments_text(cs.drop_last()) + "///     // "@ + cs.last() + "\n"@
    }
}

/// The schema echo of one field: a separator line, the field's comments,
/// then the field itself.
pub open spec fn field_doc_text(f: MessageField) -> Seq<char> {
    "///\n"@ + field_doc_comments_text(f.comments.deep_view()) + "///     "@ + f.spec_display()
        + "\n"@
}

/// The schema echo of a run of fields.
pub open spec fn fields_doc_text(fs: Seq<MessageField>) -> Seq<char>
    decreases fs.len(),
{
    if fs.len() == 0 {
        Seq::<char>::empty()
    } else {
        fields_doc_text(fs.drop_last()) + field_doc_text(fs.last())
    }
}

/// The docblock of the emitted struct: the message's own comments followed
/// by a pretty-printed schema echo.
pub open spec fn spec_struct_doc(m: Message) -> Seq<char> {
    doc_comments_text(m.comments.deep_view()) + if m.fields@.len() == 0 {
        "/// message "@ + m.name@ + " {}\n"@
    } else {
        "/// message "@ + m.name@ + " {\n"@ + fields_doc_text(m.fields@) + "/// }\n"@
    }
}

/// The derives line of the emitted struct. The copy-byte derive stands
/// first exactly when every field type is a value type.
pub open spec fn spec_derives_line(m: Message) -> Seq<char> {
    "#[derive("@ + (if spec_all_copy(m) {
        "Copy, "@
    } else {
        Seq::<char>::empty()
    }) + "Clone, Ord, PartialOrd, Eq, PartialEq, Hash, Debug)]\n"@
}

/// The declaration line of one struct field: public, named as declared,
/// with the optional-wrapped target type.
pub open spec fn struct_field_line(f: MessageField) -> Seq<char> {
    "    pub "@ + f.var.name@ + ": Option<"@ + spec_field_type(f.var.tag) + ">,\n"@
}

/// The declaration lines of a run of struct fields.
pub open spec fn struct_field_lines(fs: Seq<MessageField>) -> Seq<char>
    decreases fs.len(),
{
    if fs.len() == 0 {
        Seq::<char>::empty()
    } else {
        struct_field_lines(fs.drop_last()) + struct_field_line(fs.last())
    }
}

/// The data-type declaration of the emitted struct.
pub open spec fn spec_struct_dec(m: Message) -> Seq<char> {
    "pub struct "@ + m.name@ + (if m.fields@.len() == 0 {
        " {}\n"@
    } else {
        " {\n"@ + struct_field_lines(m.fields@) + "}\n"@
    })
}

/// The full emitted struct: docblock, derives, then the declaration.
pub open spec fn spec_struct_text(m: Message) -> Seq<char> {
    spec_struct_doc(m) + spec_derives_line(m) + spec_struct_dec(m)
}

/// Derive inclusion: the copy-byte derive stands in the derives line
/// exactly when every field type is a value type.
pub proof fn lemma_derive_inclusion(m: Message)
    ensures
        spec_all_copy(m) <==> spec_derives_line(m) == "#[derive(Copy, Clone, Ord, PartialOrd, Eq, PartialEq, Hash, Debug)]\n"@,
        !spec_all_copy(m) <==> spec_derives_line(m) == "#[derive(Clone, Ord, PartialOrd, Eq, PartialEq, Hash, Debug)]\n"@,
{
    reveal_strlit("#[derive(");
    reveal_strlit("Copy, ");
    reveal_strlit("Clone, Ord, PartialOrd, Eq, PartialEq, Hash, Debug)]\n");
    reveal_strlit("#[derive(Copy, Clone, Ord, PartialOrd, Eq, PartialEq, Hash, Debug)]\n");
    reveal_strlit("#[derive(Clone, Ord, PartialOrd, Eq, PartialEq, Hash, Debug)]\n");
    if spec_all_copy(m) {
        assert(spec_derives_line(m)
            =~= "#[derive(Copy, Clone, Ord, PartialOrd, Eq, PartialEq, Hash, Debug)]\n"@);
    } else {
        assert(spec_derives_line(m)
            =~= "#[derive(Clone, Ord, PartialOrd, Eq, PartialEq, Hash, Debug)]\n"@);
    }
    assert("#[derive(Copy, Clone, Ord, PartialOrd, Eq, PartialEq, Hash, Debug)]\n"@.len()
        != "#[derive(Clone, Ord, PartialOrd, Eq, PartialEq, Hash, Debug)]\n"@.len());
}

/// The emitted struct fields split around any index: the text is the lines
/// of the earlier fields, then the rest.
pub proof fn lemma_struct_field_lines_split(fs: Seq<MessageField>, i: int)
    requires
        0 <= i <= fs.len(),
    ensures
        struct_field_lines(fs) == struct_field_lines(fs.take(i)) + struct_field_lines(fs.skip(i)),
    decreases fs.len(),
{
    if i == fs.len() {
        assert(fs.take(i) =~= fs);
        assert(fs.skip(i) =~= Seq::<MessageField>::empty());
        assert(struct_field_lines(fs) =~= struct_field_lines(fs.take(i)) + struct_field_lines(
            fs.skip(i),
        ));
    } else {
        let dl = fs.drop_last();
        lemma_struct_field_lines_split(dl, i);
        assert(dl.take(i) =~= fs.take(i));
        assert(dl.skip(i) =~= fs.skip(i).drop_last());
        assert(fs.skip(i).last() == fs.last());
        assert(struct_field_lines(fs.skip(i)) == struct_field_lines(fs.skip(i).drop_last())
            + struct_field_line(fs.last()));
        assert(struct_field_lines(fs) =~= struct_field_lines(fs.take(i)) + struct_field_lines(
            fs.skip(i),
        ));
    }
}

/// Field ordering: the emitted struct fields appear in declaration order.
/// The declaration of field `i` stands after the lines of all earlier
/// fields and before those of all later ones.
pub proof fn lemma_struct_field_ordering(fs: Seq<MessageField>, i: int)
    requires
        0 <= i < fs.len(),
    ensures
        struct_field_lines(fs) == struct_field_lines(fs.take(i)) + struct_field_line(fs[i])
            + struct_field_lines(fs.skip(i + 1)),
{
    lemma_struct_field_lines_split(fs, i);
    let tail = fs.skip(i);
    lemma_struct_field_lines_split(tail, 1);
    let head = tail.take(1);
    assert(head.drop_last() =~= Seq::<MessageField>::empty());
    assert(head.last() == fs[i]);
    assert(head.len() == 1);
    assert(struct_field_lines(head) == struct_field_lines(head.drop_last()) + struct_field_line(
        head.last(),
    ));
    assert(struct_field_lines(Seq::<MessageField>::empty()) == Seq::<char>::empty());
    assert(struct_field_lines(head) =~= struct_field_line(fs[i]));
    assert(tail.skip(1) =~= fs.skip(i + 1));
    assert(struct_field_lines(fs) =~= struct_field_lines(fs.take(i)) + struct_field_line(fs[i])
        + struct_field_lines(fs.skip(i + 1)));
}

/// Responsible for generating struct declarations for message types.
#[derive(Copy, Clone, Debug)]
pub struct GenMessageStruct<'a> {
    /// The naming policy.
    pub naming: &'a Naming,
    /// The typing policy.
    pub typing: &'a Typing,
}

impl<'a> GenMessageStruct<'a> {
    /// Creates a new gen message struct.
    pub fn new(naming: &'a Naming, typing: &'a Typing) -> (r: Self)
        ensures
            r.naming == naming,
            r.typing == typing,
    {
        Self { naming, typing }
    }

    /// Generates the struct declaration for the message.
    pub fn gen_struct(&self, message: &Message) -> (r: Result<String, GenError>)
        ensures
            r matches Ok(s) && s@ == spec_struct_text(*message),
    {
        let mut out: String = String::new();
        self.gen_comments(&mut out, message);
        self.gen_derives(&mut out, message);

        out.append("pub struct ");
        out.append(message.name.as_str());
        if message.fields.len() == 0 {
            out.append(" {}\n");
        } else {
            out.append(" {\n");
            let ghost head = spec_struct_doc(*message) + spec_derives_line(*message)
                + "pub struct "@ + message.name@ + " {\n"@;
            proof {
                assert(out@ =~= head + struct_field_lines(message.fields@.take(0)));
            }
            let mut i: usize = 0;
            while i < message.fields.len()
                invariant
                    i <= message.fields@.len(),
                    out@ == head + struct_field_lines(message.fields@.take(i as int)),
                decreases message.fields@.len() - i,
            {
                self.gen_field(&mut out, &message.fields[i]);
                i = i + 1;
                proof {
                    let taken = message.fields@.take(i as int);
                    assert(taken.drop_last() =~= message.fields@.take(i as int - 1));
                    assert(out@ =~= head + struct_field_lines(taken));
                }
            }
            proof {
                assert(message.fields@.take(message.fields@.len() as int) =~= message.fields@);
            }
            out.append("}\n");
        }
        proof {
            assert(out@ =~= spec_struct_text(*message));
        }
        Ok(out)
    }

    /// Generates the docblock for the struct.
    fn gen_comments(&self, out: &mut String, message: &Message)
        ensures
            final(out)@ == old(out)@ + spec_struct_doc(*message),
    {
        let mut i: usize = 0;
        while i < message.comments.len()
            invariant
                i <= message.comments@.len(),
                out@ == old(out)@ + doc_comments_text(message.comments.deep_view().take(i as int)),
            decreases message.comments@.len() - i,
        {
            out.append("/// ");
            out.append(message.comments[i].as_str());
            out.append("\n");
            i = i + 1;
            proof {
                let taken = message.comments.deep_view().take(i as int);
                assert(taken.drop_last() =~= message.comments.deep_view().take(i as int - 1));
                assert(taken.last() == message.comments.deep_view()[i as int - 1]);
                assert(out@ =~= old(out)@ + doc_comments_text(taken));
            }
        }
        proof {
            assert(message.comments.deep_view().take(message.comments@.len() as int)
                =~= message.comments.deep_view());
        }

        if message.fields.len() == 0 {
            out.append("/// message ");
            out.append(message.name.as_str());
            out.append(" {}\n");
            proof {
                assert(out@ =~= old(out)@ + spec_struct_doc(*message));
            }
        } else {
            out.append("/// message ");
            out.append(message.name.as_str());
            out.append(" {\n");
            let ghost head = old(out)@ + doc_comments_text(message.comments.deep_view())
                + "/// message "@ + message.name@ + " {\n"@;
            proof {
                assert(out@ =~= head + fields_doc_text(message.fields@.take(0)));
            }
            let mut j: usize = 0;
            while j < message.fields.len()
                invariant
                    j <= message.fields@.len(),
                    out@ == head + fields_doc_text(message.fields@.take(j as int)),
                decreases message.fields@.len() - j,
            {
                let field: &MessageField = &message.fields[j];
                out.append("///\n");
                let ghost mid = head + fields_doc_text(message.fields@.take(j as int)) + "///\n"@;
                proof {
                    assert(out@ =~= mid + field_doc_comments_text(
                        field.comments.deep_view().take(0),
                    ));
                }
                let mut k: usize = 0;
                while k < field.comments.len()
                    invariant
                        k <= field.comments@.len(),
                        out@ == mid + field_doc_comments_text(
                            field.comments.deep_view().take(k as int),
                        ),
                    decreases field.comments@.len() - k,
                {
                    out.append("///     // ");
                    out.append(field.comments[k].as_str());
                    out.append("\n");
                    k = k + 1;
                    proof {
                        let taken = field.comments.deep_view().take(k as int);
                        assert(taken.drop_last() =~= field.comments.deep_view().take(k as int - 1));
                        assert(taken.last() == field.comments.deep_view()[k as int - 1]);
                        assert(out@ =~= mid + field_doc_comments_text(taken));
                    }
                }
                proof {
                    assert(field.comments.deep_view().take(field.comments@.len() as int)
                        =~= field.comments.deep_view());
                }
                out.append("///     ");
                let line: String = field.display();
                out.append(line.as_str());
                out.append("\n");
                j = j + 1;
                proof {
                    let taken = message.fields@.take(j as int);
                    assert(taken.drop_last() =~= message.fields@.take(j as int - 1));
                    assert(taken.last() == message.fields@[j as int - 1]);
                    assert(out@ =~= head + fields_doc_text(taken));
                }
            }
            proof {
                assert(message.fields@.take(message.fields@.len() as int) =~= message.fields@);
            }
            out.append("/// }\n");
            proof {
                assert(out@ =~= old(out)@ + spec_struct_doc(*message));
            }
        }
    }

    /// Generates the derives line for the struct.
    fn gen_derives(&self, out: &mut String, message: &Message)
        ensures
            final(out)@ == old(out)@ + spec_derives_line(*message),
    {
        out.append("#[derive(");
        let all_copy: bool = match self.typing.all_copy(message) {
            Ok(all_copy) => all_copy,
            Err(_) => false,
        };
        if all_copy {
            out.append("Copy, ");
        }
        out.append("Clone, Ord, PartialOrd, Eq, PartialEq, Hash, Debug)]\n");
        proof {
            assert(out@ =~= old(out)@ + spec_derives_line(*message));
        }
    }

    /// Generates the declaration line for the field.
    fn gen_field(&self, out: &mut String, field: &MessageField)
        ensures
            final(out)@ == old(out)@ + struct_field_line(*field),
    {
        out.append("    pub ");
        let name: String = match self.naming.field_name(field.var.name.as_str()) {
            Ok(name) => name,
            Err(_) => field.var.name.clone(),
        };
        out.append(name.as_str());
        out.append(": Option<");
        let tag: String = match self.typing.field_type(&field.var.tag) {
            Ok(tag) => tag,
            Err(_) => field.var.tag.display(),
        };
        out.append(tag.as_str());
        out.append(">,\n");
        proof {
            assert(out@ =~= old(out)@ + struct_field_line(*field));
        }
    }
}

} // verus!
