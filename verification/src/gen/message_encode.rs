//! Generating the encode operations for message types.

use vstd::prelude::*;
use vstd::string::*;

use crate::gen::naming::Naming;
use crate::gen::typing::Typing;
use crate::gen::GenError;
use crate::text::{append_dec, dec_text};
use crate::tree::message::{Message, MessageField};
use crate::tree::var::{PrimitiveType, TypeTag};

verus! {

/// Whether every field of the message declares a field number.
pub open spec fn spec_has_numbers(m: Message) -> bool {
    forall|i: int| 0 <= i < m.fields@.len() ==> (#[trigger] m.fields@[i]).field_number.is_some()
}

/// The runtime field-wrapper constructor expression for an integer field.
pub open spec fn spec_field_exp_int(
    name: Seq<char>,
    signed: bool,
    bits: u32,
    fixed: Option<bool>,
    field_number: u32,
) -> Seq<char> {
    (if signed {
        "Signed"@
    } else {
        "Unsigned"@
    }) + "Int"@ + dec_text(bits as int) + "Field::new("@ + dec_text(field_number as int) + (match fixed {
        Some(b) => ", "@ + (if b {
            "true"@
        } else {
            "false"@
        }),
        None => Seq::<char>::empty(),
    }) + ", self."@ + name + ")"@
}

/// The runtime field-wrapper constructor expression for a declared field.
pub open spec fn spec_field_exp(name: Seq<char>, tag: TypeTag, field_number: u32) -> Seq<char> {
    match tag {
        TypeTag::Primitive(p) => match p {
            PrimitiveType::UnsignedInt8 => spec_field_exp_int(name, false, 8, None, field_number),
            PrimitiveType::UnsignedInt16 => spec_field_exp_int(
                name,
                false,
                16,
                Some(false),
                field_number,
            ),
            PrimitiveType::UnsignedInt32 => spec_field_exp_int(
                name,
                false,
                32,
                Some(false),
                field_number,
            ),
            PrimitiveType::UnsignedInt64 => spec_field_exp_int(
                name,
                false,
                64,
                Some(false),
                field_number,
            ),
        },
    }
}

/// The field-wrapper expression of a field, under its declared number.
pub open spec fn field_exp_of(f: MessageField) -> Seq<char> {
    spec_field_exp(f.var.name@, f.var.tag, f.field_number.unwrap())
}

/// One statement of `encoded_len`.
pub open spec fn encoded_len_stmt(f: MessageField) -> Seq<char> {
    "        encoded_len += "@ + field_exp_of(f) + ".encoded_len();\n"@
}

/// The statements of `encoded_len`, in declaration order.
pub open spec fn encoded_len_stmts(fs: Seq<MessageField>) -> Seq<char>
    decreases fs.len(),
{
    if fs.len() == 0 {
        Seq::<char>::empty()
    } else {
        encoded_len_stmts(fs.drop_last()) + encoded_len_stmt(fs.last())
    }
}

/// The emitted `EncodedLen` impl block.
pub open spec fn spec_encoded_len_text(m: Message) -> Seq<char> {
    "impl EncodedLen for "@ + m.name@ + " {\n"@ + "    fn encoded_len(&self) -> usize {\n"@
        + "        let mut encoded_len: usize = 0;\n"@ + encoded_len_stmts(m.fields@)
        + "        encoded_len\n"@ + "    }\n"@ + "}\n"@
}

/// One statement of `encode_to_slice_unchecked`.
pub open spec fn encode_to_slice_stmt(f: MessageField) -> Seq<char> {
    "        encoded_len += "@ + field_exp_of(f) + ".encode_to_slice(target);\n"@
}

/// The statements of `encode_to_slice_unchecked`, in declaration order.
pub open spec fn encode_to_slice_stmts(fs: Seq<MessageField>) -> Seq<char>
    decreases fs.len(),
{
    if fs.len() == 0 {
        Seq::<char>::empty()
    } else {
        encode_to_slice_stmts(fs.drop_last()) + encode_to_slice_stmt(fs.last())
    }
}

/// The emitted `EncodeToSlice` impl block.
pub open spec fn spec_encode_to_slice_text(m: Message) -> Seq<char> {
    "impl EncodeToSlice for "@ + m.name@ + " {\n"@
        + "    fn encode_to_slice_unchecked(&self, target: &mut [u8]) -> usize {\n"@
        + "        let mut encoded_len: usize = 0;\n"@ + encode_to_slice_stmts(m.fields@)
        + "        encoded_len\n"@ + "    }\n"@ + "}\n"@
}

/// One statement of `encode_to_write`.
pub open spec fn encode_to_write_stmt(f: MessageField) -> Seq<char> {
    "        encoded_len += "@ + field_exp_of(f) + ".encode_to_write(w)?;\n"@
}

/// The statements of `encode_to_write`, in declaration order.
pub open spec fn encode_to_write_stmts(fs: Seq<MessageField>) -> Seq<char>
    decreases fs.len(),
{
    if fs.len() == 0 {
        Seq::<char>::empty()
    } else {
        encode_to_write_stmts(fs.drop_last()) + encode_to_write_stmt(fs.last())
    }
}

/// The emitted `EncodeToWrite` impl block.
pub open spec fn spec_encode_to_write_text(m: Message) -> Seq<char> {
    "impl EncodeToWrite for "@ + m.name@ + " {\n"@
        + "    fn encode_to_write<W: io::Write>(&self, w: &mut W) -> Result<usize, io::Error> {\n"@
        + "        let mut encoded_len: usize = 0;\n"@ + encode_to_write_stmts(m.fields@)
        + "        Ok(encoded_len)\n"@ + "    }\n"@ + "}\n"@
}

/// The `encoded_len` statements split around any index: the text is the
/// statements of the earlier fields, then the rest.
pub proof fn lemma_encoded_len_stmts_split(fs: Seq<MessageField>, i: int)
    requires
        0 <= i <= fs.len(),
    ensures
        encoded_len_stmts(fs) == encoded_len_stmts(fs.take(i)) + encoded_len_stmts(fs.skip(i)),
    decreases fs.len(),
{
    if i == fs.len() {
        assert(fs.take(i) =~= fs);
        assert(fs.skip(i) =~= Seq::<MessageField>::empty());
        assert(encoded_len_stmts(fs) =~= encoded_len_stmts(fs.take(i)) + encoded_len_stmts(
            fs.skip(i),
        ));
    } else {
        let dl = fs.drop_last();
        lemma_encoded_len_stmts_split(dl, i);
        assert(dl.take(i) =~= fs.take(i));
        assert(dl.skip(i) =~= fs.skip(i).drop_last());
        assert(fs.skip(i).last() == fs.last());
        assert(encoded_len_stmts(fs.skip(i)) == encoded_len_stmts(fs.skip(i).drop_last())
            + encoded_len_stmt(fs.last()));
        assert(encoded_len_stmts(fs) =~= encoded_len_stmts(fs.take(i)) + encoded_len_stmts(
            fs.skip(i),
        ));
    }
}

/// Field ordering on the wire: the encode statements appear in declaration
/// order. The statement of field `i` stands after those of all earlier
/// fields and before those of all later ones.
pub proof fn lemma_encode_statement_ordering(fs: Seq<MessageField>, i: int)
    requires
        0 <= i < fs.len(),
    ensures
        encoded_len_stmts(fs) == encoded_len_stmts(fs.take(i)) + encoded_len_stmt(fs[i])
            + encoded_len_stmts(fs.skip(i + 1)),
{
    lemma_encoded_len_stmts_split(fs, i);
    let tail = fs.skip(i);
    lemma_encoded_len_stmts_split(tail, 1);
    let head = tail.take(1);
    assert(head.drop_last() =~= Seq::<MessageField>::empty());
    assert(head.last() == fs[i]);
    assert(head.len() == 1);
    assert(encoded_len_stmts(head) == encoded_len_stmts(head.drop_last()) + encoded_len_stmt(
        head.last(),
    ));
    assert(encoded_len_stmts(Seq::<MessageField>::empty()) == Seq::<char>::empty());
    assert(encoded_len_stmts(head) =~= encoded_len_stmt(fs[i]));
    assert(tail.skip(1) =~= fs.skip(i + 1));
    assert(encoded_len_stmts(fs) =~= encoded_len_stmts(fs.take(i)) + encoded_len_stmt(fs[i])
        + encoded_len_stmts(fs.skip(i + 1)));
}

/// Responsible for generating impl blocks for message encoding.
#[derive(Copy, Clone, Debug)]
pub struct GenMessageEncode<'a> {
    /// The naming policy.
    pub naming: &'a Naming,
    /// The typing policy.
    pub typing: &'a Typing,
}

impl<'a> GenMessageEncode<'a> {
    /// Creates a new gen message encode.
    pub fn new(naming: &'a Naming, typing: &'a Typing) -> (r: Self)
        ensures
            r.naming == naming,
            r.typing == typing,
    {
        Self { naming, typing }
    }

    /// Gets the field constructor expression for an integer field.
    pub fn field_exp_int(
        &self,
        declared_name: &str,
        signed: bool,
        bits: u32,
        fixed: Option<bool>,
        field_number: u32,
    ) -> (r: Result<String, GenError>)
        ensures
            r matches Ok(s) && s@ == spec_field_exp_int(
                declared_name@,
                signed,
                bits,
                fixed,
                field_number,
            ),
    {
        let mut out: String = String::new();
        if signed {
            out.append("Signed");
        } else {
            out.append("Unsigned");
        }
        out.append("Int");
        append_dec(&mut out, bits);
        out.append("Field::new(");
        append_dec(&mut out, field_number);
        match fixed {
            Some(b) => {
                out.append(", ");
                if b {
                    out.append("true");
                } else {
                    out.append("false");
                }
            },
            None => {},
        }
        out.append(", self.");
        let name: String = match self.naming.field_name(declared_name) {
            Ok(name) => name,
            Err(_) => declared_name.to_owned(),
        };
        out.append(name.as_str());
        out.append(")");
        proof {
            assert(out@ =~= spec_field_exp_int(declared_name@, signed, bits, fixed, field_number));
        }
        Ok(out)
    }

    /// Gets the field constructor expression for a declared field.
    pub fn gen_field_exp(
        &self,
        declared_name: &str,
        type_tag: &TypeTag,
        field_number: u32,
    ) -> (r: Result<String, GenError>)
        ensures
            r matches Ok(s) && s@ == spec_field_exp(declared_name@, *type_tag, field_number),
    {
        match type_tag {
            TypeTag::Primitive(primitive) => match primitive {
                PrimitiveType::UnsignedInt8 => self.field_exp_int(
                    declared_name,
                    false,
                    8,
                    None,
                    field_number,
                ),
                PrimitiveType::UnsignedInt16 => self.field_exp_int(
                    declared_name,
                    false,
                    16,
                    Some(false),
                    field_number,
                ),
                PrimitiveType::UnsignedInt32 => self.field_exp_int(
                    declared_name,
                    false,
                    32,
                    Some(false),
                    field_number,
                ),
                PrimitiveType::UnsignedInt64 => self.field_exp_int(
                    declared_name,
                    false,
                    64,
                    Some(false),
                    field_number,
                ),
            },
        }
    }

    /// Generates one statement of `encoded_len`.
    fn gen_encoded_len_statement(&self, out: &mut String, field: &MessageField) -> (r: Result<
        (),
        GenError,
    >)
        ensures
            field.field_number.is_some() ==> (r == Ok::<(), GenError>(()) && final(out)@ == old(
                out,
            )@ + encoded_len_stmt(*field)),
            field.field_number.is_none() ==> r == Err::<(), GenError>(GenError::Unsupported)
                && final(out)@ == old(out)@,
    {
        match field.field_number {
            Some(field_number) => {
                let exp: String = match self.gen_field_exp(
                    field.var.name.as_str(),
                    &field.var.tag,
                    field_number,
                ) {
                    Ok(exp) => exp,
                    Err(e) => {
                        return Err(e);
                    },
                };
                out.append("        encoded_len += ");
                out.append(exp.as_str());
                out.append(".encoded_len();\n");
                proof {
                    assert(out@ =~= old(out)@ + encoded_len_stmt(*field));
                }
                Ok(())
            },
            None => Err(GenError::Unsupported),
        }
    }

    /// Generates the impl block for implementing `EncodedLen`.
    pub fn gen_impl_encoded_len(&self, message: &Message) -> (r: Result<String, GenError>)
        ensures
            spec_has_numbers(*message) ==> (r matches Ok(s) && s@ == spec_encoded_len_text(
                *message,
            )),
            !spec_has_numbers(*message) ==> r == Err::<String, GenError>(GenError::Unsupported),
    {
        let mut out: String = String::new();
        out.append("impl EncodedLen for ");
        out.append(message.name.as_str());
        out.append(" {\n");
        out.append("    fn encoded_len(&self) -> usize {\n");
        out.append("        let mut encoded_len: usize = 0;\n");
        let ghost head = "impl EncodedLen for "@ + message.name@ + " {\n"@
            + "    fn encoded_len(&self) -> usize {\n"@ + "        let mut encoded_len: usize = 0;\n"@;
        proof {
            assert(out@ =~= head + encoded_len_stmts(message.fields@.take(0)));
        }
        let mut i: usize = 0;
        while i < message.fields.len()
            invariant
                i <= message.fields@.len(),
                out@ == head + encoded_len_stmts(message.fields@.take(i as int)),
                forall|k: int| 0 <= k < i ==> (#[trigger] message.fields@[k]).field_number.is_some(),
            decreases message.fields@.len() - i,
        {
            match self.gen_encoded_len_statement(&mut out, &message.fields[i]) {
                Ok(_) => {},
                Err(e) => {
                    return Err(e);
                },
            }
            i = i + 1;
            proof {
                let taken = message.fields@.take(i as int);
                assert(taken.drop_last() =~= message.fields@.take(i as int - 1));
                assert(out@ =~= head + encoded_len_stmts(taken));
            }
        }
        proof {
            assert(message.fields@.take(message.fields@.len() as int) =~= message.fields@);
        }
        out.append("        encoded_len\n");
        out.append("    }\n");
        out.append("}\n");
        proof {
            assert(out@ =~= spec_encoded_len_text(*message));
        }
        Ok(out)
    }

    /// Generates one statement of `encode_to_slice_unchecked`.
    fn gen_encode_to_slice_statement(&self, out: &mut String, field: &MessageField) -> (r: Result<
        (),
        GenError,
    >)
        ensures
            field.field_number.is_some() ==> (r == Ok::<(), GenError>(()) && final(out)@ == old(
                out,
            )@ + encode_to_slice_stmt(*field)),
            field.field_number.is_none() ==> r == Err::<(), GenError>(GenError::Unsupported)
                && final(out)@ == old(out)@,
    {
        match field.field_number {
            Some(field_number) => {
                let exp: String = match self.gen_field_exp(
                    field.var.name.as_str(),
                    &field.var.tag,
                    field_number,
                ) {
                    Ok(exp) => exp,
                    Err(e) => {
                        return Err(e);
                    },
                };
                out.append("        encoded_len += ");
                out.append(exp.as_str());
                out.append(".encode_to_slice(target);\n");
                proof {
                    assert(out@ =~= old(out)@ + encode_to_slice_stmt(*field));
                }
                Ok(())
            },
            None => Err(GenError::Unsupported),
        }
    }

    /// Generates the impl block for implementing `EncodeToSlice`.
    pub fn gen_impl_encode_to_slice(&self, message: &Message) -> (r: Result<String, GenError>)
        ensures
            spec_has_numbers(*message) ==> (r matches Ok(s) && s@ == spec_encode_to_slice_text(
                *message,
            )),
            !spec_has_numbers(*message) ==> r == Err::<String, GenError>(GenError::Unsupported),
    {
        let mut out: String = String::new();
        out.append("impl EncodeToSlice for ");
        out.append(message.name.as_str());
        out.append(" {\n");
        out.append("    fn encode_to_slice_unchecked(&self, target: &mut [u8]) -> usize {\n");
        out.append("        let mut encoded_len: usize = 0;\n");
        let ghost head = "impl EncodeToSlice for "@ + message.name@ + " {\n"@
            + "    fn encode_to_slice_unchecked(&self, target: &mut [u8]) -> usize {\n"@
            + "        let mut encoded_len: usize = 0;\n"@;
        proof {
            assert(out@ =~= head + encode_to_slice_stmts(message.fields@.take(0)));
        }
        let mut i: usize = 0;
        while i < message.fields.len()
            invariant
                i <= message.fields@.len(),
                out@ == head + encode_to_slice_stmts(message.fields@.take(i as int)),
                forall|k: int| 0 <= k < i ==> (#[trigger] message.fields@[k]).field_number.is_some(),
            decreases message.fields@.len() - i,
        {
            match self.gen_encode_to_slice_statement(&mut out, &message.fields[i]) {
                Ok(_) => {},
                Err(e) => {
                    return Err(e);
                },
            }
            i = i + 1;
            proof {
                let taken = message.fields@.take(i as int);
                assert(taken.drop_last() =~= message.fields@.take(i as int - 1));
                assert(out@ =~= head + encode_to_slice_stmts(taken));
            }
        }
        proof {
            assert(message.fields@.take(message.fields@.len() as int) =~= message.fields@);
        }
        out.append("        encoded_len\n");
        out.append("    }\n");
        out.append("}\n");
        proof {
            assert(out@ =~= spec_encode_to_slice_text(*message));
        }
        Ok(out)
    }

    /// Generates one statement of `encode_to_write`.
    fn gen_encode_to_write_statement(&self, out: &mut String, field: &MessageField) -> (r: Result<
        (),
        GenError,
    >)
        ensures
            field.field_number.is_some() ==> (r == Ok::<(), GenError>(()) && final(out)@ == old(
                out,
            )@ + encode_to_write_stmt(*field)),
            field.field_number.is_none() ==> r == Err::<(), GenError>(GenError::Unsupported)
                && final(out)@ == old(out)@,
    {
        match field.field_number {
            Some(field_number) => {
                let exp: String = match self.gen_field_exp(
                    field.var.name.as_str(),
                    &field.var.tag,
                    field_number,
                ) {
                    Ok(exp) => exp,
                    Err(e) => {
                        return Err(e);
                    },
                };
                out.append("        encoded_len += ");
                out.append(exp.as_str());
                out.append(".encode_to_write(w)?;\n");
                proof {
                    assert(out@ =~= old(out)@ + encode_to_write_stmt(*field));
                }
                Ok(())
            },
            None => Err(GenError::Unsupported),
        }
    }

    /// Generates the impl block for implementing `EncodeToWrite`.
    pub fn gen_impl_encode_to_write(&self, message: &Message) -> (r: Result<String, GenError>)
        ensures
            spec_has_numbers(*message) ==> (r matches Ok(s) && s@ == spec_encode_to_write_text(
                *message,
            )),
            !spec_has_numbers(*message) ==> r == Err::<String, GenError>(GenError::Unsupported),
    {
        let mut out: String = String::new();
        out.append("impl EncodeToWrite for ");
        out.append(message.name.as_str());
        out.append(" {\n");
        out.append("    fn encode_to_write<W: io::Write>(&self, w: &mut W) -> Result<usize, io::Error> {\n");
        out.append("        let mut encoded_len: usize = 0;\n");
        let ghost head = "impl EncodeToWrite for "@ + message.name@ + " {\n"@
            + "    fn encode_to_write<W: io::Write>(&self, w: &mut W) -> Result<usize, io::Error> {\n"@
            + "        let mut encoded_len: usize = 0;\n"@;
        proof {
            assert(out@ =~= head + encode_to_write_stmts(message.fields@.take(0)));
        }
        let mut i: usize = 0;
        while i < message.fields.len()
            invariant
                i <= message.fields@.len(),
                out@ == head + encode_to_write_stmts(message.fields@.take(i as int)),
                forall|k: int| 0 <= k < i ==> (#[trigger] message.fields@[k]).field_number.is_some(),
            decreases message.fields@.len() - i,
        {
            match self.gen_encode_to_write_statement(&mut out, &message.fields[i]) {
                Ok(_) => {},
                Err(e) => {
                    return Err(e);
                },
            }
            i = i + 1;
            proof {
                let taken = message.fields@.take(i as int);
                assert(taken.drop_last() =~= message.fields@.take(i as int - 1));
                assert(out@ =~= head + encode_to_write_stmts(taken));
            }
        }
        proof {
            assert(message.fields@.take(message.fields@.len() as int) =~= message.fields@);
        }
        out.append("        Ok(encoded_len)\n");
        out.append("    }\n");
        out.append("}\n");
        proof {
            assert(out@ =~= spec_encode_to_write_text(*message));
        }
        Ok(out)
    }
}

} // verus!
