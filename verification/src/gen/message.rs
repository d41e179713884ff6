//! Composing the full emission unit for a message.

use vstd::prelude::*;
use vstd::string::*;

use crate::gen::message_decode::{
    spec_decode_from_read_text, spec_decode_length_prefixed_text, GenMessageDecode,
};
use crate::gen::message_encode::{
    spec_encode_to_slice_text, spec_encode_to_write_text, spec_encoded_len_text, spec_has_numbers,
    GenMessageEncode,
};
use crate::gen::message_field::{field_impl_text, GenMessageField};
use crate::gen::message_struct::{spec_struct_text, GenMessageStruct};
use crate::gen::naming::Naming;
use crate::gen::typing::{spec_is_copy, Typing};
use crate::gen::GenError;
use crate::tree::message::{Message, MessageField};

verus! {

/// The per-field impl blocks of a message, each followed by a blank line.
pub open spec fn field_impls_text(name: Seq<char>, fs: Seq<MessageField>) -> Seq<char>
    decreases fs.len(),
{
    if fs.len() == 0 {
        Seq::<char>::empty()
    } else {
        field_impls_text(name, fs.drop_last()) + field_impl_text(name, fs.last()) + "\n"@
    }
}

/// The full emission unit of a message, in canonical order: the struct
/// declaration, the per-field impl blocks, the three encode contracts,
/// then the two decode contracts, separated by blank lines.
pub open spec fn spec_gen_text(m: Message) -> Seq<char> {
    spec_struct_text(m) + "\n"@ + field_impls_text(m.name@, m.fields@) + spec_encoded_len_text(m)
        + "\n"@ + spec_encode_to_slice_text(m) + "\n"@ + spec_encode_to_write_text(m) + "\n"@
        + spec_decode_length_prefixed_text(m) + "\n"@ + spec_decode_from_read_text(m)
}

/// The per-field impl blocks split around any index: the text is the
/// blocks of the earlier fields, then the rest.
#[verifier::rlimit(100)]
pub proof fn lemma_field_impls_split(name: Seq<char>, fs: Seq<MessageField>, i: int)
    requires
        0 <= i <= fs.len(),
    ensures
        field_impls_text(name, fs) == field_impls_text(name, fs.take(i)) + field_impls_text(
            name,
            fs.skip(i),
        ),
    decreases fs.len(),
{
    if i == fs.len() {
        assert(fs.take(i) =~= fs);
        assert(fs.skip(i) =~= Seq::<MessageField>::empty());
        assert(field_impls_text(name, fs) =~= field_impls_text(name, fs.take(i))
            + field_impls_text(name, fs.skip(i)));
    } else {
        let dl = fs.drop_last();
        lemma_field_impls_split(name, dl, i);
        assert(dl.take(i) =~= fs.take(i));
        assert(dl.skip(i) =~= fs.skip(i).drop_last());
        assert(fs.skip(i).last() == fs.last());
        assert(field_impls_text(name, fs.skip(i)) == field_impls_text(
            name,
            fs.skip(i).drop_last(),
        ) + field_impl_text(name, fs.last()) + "\n"@);
        assert(field_impls_text(name, fs) =~= field_impls_text(name, fs.take(i))
            + field_impls_text(name, fs.skip(i)));
    }
}

/// Field ordering: the getter, setter and builder blocks appear in
/// declaration order. The block of field `i` stands after those of all
/// earlier fields and before those of all later ones.
#[verifier::rlimit(60)]
pub proof fn lemma_accessor_ordering(name: Seq<char>, fs: Seq<MessageField>, i: int)
    requires
        0 <= i < fs.len(),
    ensures
        field_impls_text(name, fs) == field_impls_text(name, fs.take(i)) + (field_impl_text(
            name,
            fs[i],
        ) + "\n"@) + field_impls_text(name, fs.skip(i + 1)),
{
    lemma_field_impls_split(name, fs, i);
    let tail = fs.skip(i);
    lemma_field_impls_split(name, tail, 1);
    let head = tail.take(1);
    assert(head.drop_last() =~= Seq::<MessageField>::empty());
    assert(head.last() == fs[i]);
    assert(head.len() == 1);
    assert(field_impls_text(name, head) == field_impls_text(name, head.drop_last())
        + field_impl_text(name, head.last()) + "\n"@);
    assert(field_impls_text(name, Seq::<MessageField>::empty()) == Seq::<char>::empty());
    assert(field_impls_text(name, head) =~= field_impl_text(name, fs[i]) + "\n"@);
    assert(tail.skip(1) =~= fs.skip(i + 1));
    assert(field_impls_text(name, fs) =~= field_impls_text(name, fs.take(i)) + (field_impl_text(
        name,
        fs[i],
    ) + "\n"@) + field_impls_text(name, fs.skip(i + 1)));
}

/// Emission determinism: the emitted source of a message is a function of
/// the schema tree alone, so any two emitted texts for one schema are
/// byte-identical.
pub proof fn lemma_emission_deterministic(m: Message, s1: Seq<char>, s2: Seq<char>)
    requires
        s1 == spec_gen_text(m),
        s2 == spec_gen_text(m),
    ensures
        s1 == s2,
{
}

/// Responsible for generating code for message types.
#[derive(Clone, Debug, Default)]
pub struct GenMessage {
    /// The naming policy.
    pub naming: Naming,
    /// The typing policy.
    pub typing: Typing,
}

impl GenMessage {
    /// Generates the source code for the message.
    #[verifier::rlimit(60)]
    pub fn gen(&self, message: &Message) -> (r: Result<String, GenError>)
        ensures
            spec_has_numbers(*message) ==> (r matches Ok(s) && s@ == spec_gen_text(*message)),
            !spec_has_numbers(*message) ==> r == Err::<String, GenError>(GenError::Unsupported),
    {
        let mut out: String = String::new();

        let gen_struct: GenMessageStruct = GenMessageStruct::new(&self.naming, &self.typing);
        match gen_struct.gen_struct(message) {
            Ok(s) => {
                out.append(s.as_str());
            },
            Err(e) => {
                return Err(e);
            },
        }
        out.append("\n");

        let gen_field: GenMessageField = GenMessageField::new(&self.naming, &self.typing);
        let ghost head = spec_struct_text(*message) + "\n"@;
        proof {
            assert(out@ =~= head + field_impls_text(message.name@, message.fields@.take(0)));
        }
        let mut i: usize = 0;
        while i < message.fields.len()
            invariant
                i <= message.fields@.len(),
                out@ == head + field_impls_text(message.name@, message.fields@.take(i as int)),
                gen_field.naming == &self.naming,
                gen_field.typing == &self.typing,
            decreases message.fields@.len() - i,
        {
            proof {
                assert(spec_is_copy(message.fields@[i as int].var.tag));
            }
            match gen_field.gen_field(message, &message.fields[i]) {
                Ok(s) => {
                    out.append(s.as_str());
                },
                Err(e) => {
                    return Err(e);
                },
            }
            out.append("\n");
            i = i + 1;
            proof {
                let taken = message.fields@.take(i as int);
                assert(taken.drop_last() =~= message.fields@.take(i as int - 1));
                assert(out@ =~= head + field_impls_text(message.name@, taken));
            }
        }
        proof {
            assert(message.fields@.take(message.fields@.len() as int) =~= message.fields@);
        }

        let gen_encode: GenMessageEncode = GenMessageEncode::new(&self.naming, &self.typing);
        match gen_encode.gen_impl_encoded_len(message) {
            Ok(s) => {
                out.append(s.as_str());
            },
            Err(e) => {
                return Err(e);
            },
        }
        out.append("\n");
        match gen_encode.gen_impl_encode_to_slice(message) {
            Ok(s) => {
                out.append(s.as_str());
            },
            Err(e) => {
                return Err(e);
            },
        }
        out.append("\n");
        match gen_encode.gen_impl_encode_to_write(message) {
            Ok(s) => {
                out.append(s.as_str());
            },
            Err(e) => {
                return Err(e);
            },
        }
        out.append("\n");

        let gen_decode: GenMessageDecode = GenMessageDecode::new(&self.naming, &self.typing);
        match gen_decode.gen_impl_decode_from_read_length_prefixed(message) {
            Ok(s) => {
                out.append(s.as_str());
            },
            Err(e) => {
                return Err(e);
            },
        }
        out.append("\n");
        match gen_decode.gen_impl_decode_from_read(message) {
            Ok(s) => {
                out.append(s.as_str());
            },
            Err(e) => {
                return Err(e);
            },
        }
        proof {
            assert(out@ =~= spec_gen_text(*message));
        }
        Ok(out)
    }
}

} // verus!
