//! Generating the decode operations for message types.

use vstd::prelude::*;
use vstd::string::*;

use crate::gen::message_encode::spec_has_numbers;
use crate::gen::naming::Naming;
use crate::gen::typing::Typing;
use crate::gen::GenError;
use crate::text::{append_dec, dec_text};
use crate::tree::message::{Message, MessageField};
use crate::tree::var::{PrimitiveType, TypeTag};

verus! {

/// The runtime read helper suffix for a primitive type. Eight-bit fields
/// are read fixed width; wider fields are read as varints.
pub open spec fn spec_read_fn_name(p: PrimitiveType) -> Seq<char> {
    match p {
        PrimitiveType::UnsignedInt8 => "u8"@,
        PrimitiveType::UnsignedInt16 => "u16_var"@,
        PrimitiveType::UnsignedInt32 => "u32_var"@,
        PrimitiveType::UnsignedInt64 => "u64_var"@,
    }
}

/// The decode match case of one field: dispatch on the absolute field
/// number, read the value, and store it through the setter.
pub open spec fn decode_case_text(f: MessageField) -> Seq<char> {
    let p = match f.var.tag {
        TypeTag::Primitive(p) => p,
    };
    "                "@ + dec_text(f.field_number.unwrap() as int) + " => {\n"@
        + "                    result.set_"@ + f.var.name@ + "(Some(read::read_"@
        + spec_read_fn_name(p) + "(&mut r)?));\n"@ + "                }\n"@
}

/// The decode match cases of a run of fields, in declaration order.
pub open spec fn decode_cases_text(fs: Seq<MessageField>) -> Seq<char>
    decreases fs.len(),
{
    if fs.len() == 0 {
        Seq::<char>::empty()
    } else {
        decode_cases_text(fs.drop_last()) + decode_case_text(fs.last())
    }
}

/// The wildcard decode match case: a controlled panic on unknown fields.
pub open spec fn decode_wildcard_text() -> Seq<char> {
    "                _ => {\n"@ + "                    panic!(\"unknown fields not yet supported\");\n"@
        + "                }\n"@
}

/// The emitted `DecodeFromReadLengthPrefixed` impl block: an empty adapter
/// for downstream dispatch only.
pub open spec fn spec_decode_length_prefixed_text(m: Message) -> Seq<char> {
    "impl DecodeFromReadLengthPrefixed for "@ + m.name@ + " {}\n"@
}

/// The emitted `DecodeFromRead` impl block: read the length prefix, limit
/// the reader, then fold headers over a running field number.
pub open spec fn spec_decode_from_read_text(m: Message) -> Seq<char> {
    "impl DecodeFromRead for "@ + m.name@ + " {\n"@
        + "    fn decode_from_read<R: io::Read>(r: &mut R) -> Result<Self, io::Error> {\n"@
        + "        let len: usize = VarIntSize::decode_from_read_prefix(r)?.value;\n"@
        + "        let mut r: ReadLimit<R> = ReadLimit { read: r, limit: len };\n"@ + "\n"@
        + "        let mut result: Self = Self::default();\n"@
        + "        let mut field_number: u32 = 0;\n"@
        + "        while let Some(header) = FieldHeader::decode_from_read_prefix_optional(&mut r)? {\n"@
        + "            field_number += header.field_number();\n"@
        + "            match field_number {\n"@ + decode_cases_text(m.fields@)
        + decode_wildcard_text() + "            }\n"@ + "        }\n"@ + "        Ok(result)\n"@
        + "    }\n"@ + "}\n"@
}

/// Responsible for generating impl blocks for message decoding.
#[derive(Copy, Clone, Debug)]
pub struct GenMessageDecode<'a> {
    /// The naming policy.
    pub naming: &'a Naming,
    /// The typing policy.
    pub typing: &'a Typing,
}

impl<'a> GenMessageDecode<'a> {
    /// Creates a new gen message decode.
    pub fn new(naming: &'a Naming, typing: &'a Typing) -> (r: Self)
        ensures
            r.naming == naming,
            r.typing == typing,
    {
        Self { naming, typing }
    }

    /// Generates the impl block for implementing `DecodeFromReadLengthPrefixed`.
    pub fn gen_impl_decode_from_read_length_prefixed(&self, message: &Message) -> (r: Result<
        String,
        GenError,
    >)
        ensures
            r matches Ok(s) && s@ == spec_decode_length_prefixed_text(*message),
    {
        let mut out: String = String::new();
        out.append("impl DecodeFromReadLengthPrefixed for ");
        out.append(message.name.as_str());
        out.append(" {}\n");
        proof {
            assert(out@ =~= spec_decode_length_prefixed_text(*message));
        }
        Ok(out)
    }

    /// Generates the impl block for implementing `DecodeFromRead`.
    pub fn gen_impl_decode_from_read(&self, message: &Message) -> (r: Result<String, GenError>)
        ensures
            spec_has_numbers(*message) ==> (r matches Ok(s) && s@ == spec_decode_from_read_text(
                *message,
            )),
            !spec_has_numbers(*message) ==> r == Err::<String, GenError>(GenError::Unsupported),
    {
        let mut out: String = String::new();
        out.append("impl DecodeFromRead for ");
        out.append(message.name.as_str());
        out.append(" {\n");
        match self.gen_fn(&mut out, message) {
            Ok(_) => {},
            Err(e) => {
                return Err(e);
            },
        }
        out.append("}\n");
        proof {
            assert(out@ =~= spec_decode_from_read_text(*message));
        }
        Ok(out)
    }

    /// Generates the `decode_from_read` function.
    fn gen_fn(&self, out: &mut String, message: &Message) -> (r: Result<(), GenError>)
        ensures
            spec_has_numbers(*message) ==> (r == Ok::<(), GenError>(()) && final(out)@ == old(out)@
                + "    fn decode_from_read<R: io::Read>(r: &mut R) -> Result<Self, io::Error> {\n"@
                + "        let len: usize = VarIntSize::decode_from_read_prefix(r)?.value;\n"@
                + "        let mut r: ReadLimit<R> = ReadLimit { read: r, limit: len };\n"@ + "\n"@
                + "        let mut result: Self = Self::default();\n"@
                + "        let mut field_number: u32 = 0;\n"@
                + "        while let Some(header) = FieldHeader::decode_from_read_prefix_optional(&mut r)? {\n"@
                + "            field_number += header.field_number();\n"@
                + "            match field_number {\n"@ + decode_cases_text(message.fields@)
                + decode_wildcard_text() + "            }\n"@ + "        }\n"@
                + "        Ok(result)\n"@ + "    }\n"@),
            !spec_has_numbers(*message) ==> r == Err::<(), GenError>(GenError::Unsupported),
    {
        out.append("    fn decode_from_read<R: io::Read>(r: &mut R) -> Result<Self, io::Error> {\n");
        match self.gen_decode_from_read_statements(out, message) {
            Ok(_) => {},
            Err(e) => {
                return Err(e);
            },
        }
        out.append("    }\n");
        Ok(())
    }

    /// Generates the statements in the `decode_from_read` function.
    fn gen_decode_from_read_statements(&self, out: &mut String, message: &Message) -> (r: Result<
        (),
        GenError,
    >)
        ensures
            spec_has_numbers(*message) ==> (r == Ok::<(), GenError>(()) && final(out)@ == old(out)@
                + "        let len: usize = VarIntSize::decode_from_read_prefix(r)?.value;\n"@
                + "        let mut r: ReadLimit<R> = ReadLimit { read: r, limit: len };\n"@ + "\n"@
                + "        let mut result: Self = Self::default();\n"@
                + "        let mut field_number: u32 = 0;\n"@
                + "        while let Some(header) = FieldHeader::decode_from_read_prefix_optional(&mut r)? {\n"@
                + "            field_number += header.field_number();\n"@
                + "            match field_number {\n"@ + decode_cases_text(message.fields@)
                + decode_wildcard_text() + "            }\n"@ + "        }\n"@
                + "        Ok(result)\n"@),
            !spec_has_numbers(*message) ==> r == Err::<(), GenError>(GenError::Unsupported),
    {
        out.append("        let len: usize = VarIntSize::decode_from_read_prefix(r)?.value;\n");
        out.append("        let mut r: ReadLimit<R> = ReadLimit { read: r, limit: len };\n");
        out.append("\n");
        out.append("        let mut result: Self = Self::default();\n");
        out.append("        let mut field_number: u32 = 0;\n");
        match self.gen_while_let_decode_statements(out, message) {
            Ok(_) => {},
            Err(e) => {
                return Err(e);
            },
        }
        out.append("        Ok(result)\n");
        Ok(())
    }

    /// Generates the while-let decoding loop.
    fn gen_while_let_decode_statements(&self, out: &mut String, message: &Message) -> (r: Result<
        (),
        GenError,
    >)
        ensures
            spec_has_numbers(*message) ==> (r == Ok::<(), GenError>(()) && final(out)@ == old(out)@
                + "        while let Some(header) = FieldHeader::decode_from_read_prefix_optional(&mut r)? {\n"@
                + "            field_number += header.field_number();\n"@
                + "            match field_number {\n"@ + decode_cases_text(message.fields@)
                + decode_wildcard_text() + "            }\n"@ + "        }\n"@),
            !spec_has_numbers(*message) ==> r == Err::<(), GenError>(GenError::Unsupported),
    {
        out.append(
            "        while let Some(header) = FieldHeader::decode_from_read_prefix_optional(&mut r)? {\n",
        );
        out.append("            field_number += header.field_number();\n");
        out.append("            match field_number {\n");
        match self.gen_decode_match_cases(out, message) {
            Ok(_) => {},
            Err(e) => {
                return Err(e);
            },
        }
        out.append("            }\n");
        out.append("        }\n");
        Ok(())
    }

    /// Generates the match cases for the decoding match statement.
    fn gen_decode_match_cases(&self, out: &mut String, message: &Message) -> (r: Result<
        (),
        GenError,
    >)
        ensures
            spec_has_numbers(*message) ==> (r == Ok::<(), GenError>(()) && final(out)@ == old(out)@
                + decode_cases_text(message.fields@) + decode_wildcard_text()),
            !spec_has_numbers(*message) ==> r == Err::<(), GenError>(GenError::Unsupported),
    {
        let mut i: usize = 0;
        while i < message.fields.len()
            invariant
                i <= message.fields@.len(),
                out@ == old(out)@ + decode_cases_text(message.fields@.take(i as int)),
                forall|k: int| 0 <= k < i ==> (#[trigger] message.fields@[k]).field_number.is_some(),
            decreases message.fields@.len() - i,
        {
            let field: &MessageField = &message.fields[i];
            let field_number: u32 = match field.field_number {
                Some(field_number) => field_number,
                None => {
                    return Err(GenError::Unsupported);
                },
            };
            out.append("                ");
            append_dec(out, field_number);
            out.append(" => {\n");
            out.append("                    result.set_");
            let name: String = match self.naming.field_name(field.var.name.as_str()) {
                Ok(name) => name,
                Err(_) => field.var.name.clone(),
            };
            out.append(name.as_str());
            out.append("(Some(read::read_");
            let read_fn_name: &'static str = match &field.var.tag {
                TypeTag::Primitive(primitive) => match primitive {
                    PrimitiveType::UnsignedInt8 => "u8",
                    PrimitiveType::UnsignedInt16 => "u16_var",
                    PrimitiveType::UnsignedInt32 => "u32_var",
                    PrimitiveType::UnsignedInt64 => "u64_var",
                },
            };
            out.append(read_fn_name);
            out.append("(&mut r)?));\n");
            out.append("                }\n");
            i = i + 1;
            proof {
                let taken = message.fields@.take(i as int);
                assert(taken.drop_last() =~= message.fields@.take(i as int - 1));
                assert(out@ =~= old(out)@ + decode_cases_text(taken));
            }
        }
        proof {
            assert(message.fields@.take(message.fields@.len() as int) =~= message.fields@);
        }
        out.append("                _ => {\n");
        out.append("                    panic!(\"unknown fields not yet supported\");\n");
        out.append("                }\n");
        proof {
            assert(out@ =~= old(out)@ + decode_cases_text(message.fields@)
                + decode_wildcard_text());
        }
        Ok(())
    }
}

} // verus!
