use proto_gen::gen::message::GenMessage;
use proto_gen::gen::naming::Naming;
use proto_gen::gen::typing::Typing;
use proto_gen::gen::GenError;
use proto_gen::tree::message::{Message, MessageField};
use proto_gen::tree::util::WithComments;
use proto_gen::tree::var::PrimitiveType::{
    UnsignedInt16, UnsignedInt32, UnsignedInt64, UnsignedInt8,
};
use proto_gen::tree::var::{PrimitiveType, Var};

fn field(name: &str, primitive: PrimitiveType, number: u32) -> MessageField {
    MessageField::new(Var::new(name.to_string(), primitive.to_type_tag()))
        .with_field_number(number)
}

fn unsigned_ints_message() -> Message {
    let mut message: Message = Message::new("UnsignedInts".to_string());

    message.add_comment("A message with unsigned integer fields.".to_string());

    message.add_field(
        field("one", UnsignedInt8, 1).with_comment("The first field.".to_string()),
    );
    message.add_field(
        field("two", UnsignedInt16, 2).with_comment("The second field.".to_string()),
    );
    message.add_field(
        field("three", UnsignedInt32, 3).with_comment("The third field.".to_string()),
    );
    message.add_field(
        field("four", UnsignedInt64, 4).with_comment("The fourth field.".to_string()),
    );

    message
}

fn accessor_block(name: &str, field_echo: &str, field_name: &str, ty: &str) -> String {
    [
        format!("// Field: {}", field_echo),
        format!("impl {} {{", name),
        format!("    /// Gets the field: `{}`.", field_name),
        format!("    pub fn {}(&self) -> Option<{}> {{", field_name, ty),
        format!("        self.{}", field_name),
        "    }".to_string(),
        "".to_string(),
        format!("    /// Sets the field: `{}`. Returns the previous value.", field_name),
        format!(
            "    pub fn set_{}(&mut self, {}: Option<{}>) -> Option<{}> {{",
            field_name, field_name, ty, ty
        ),
        format!("        let old_value: Option<{}> = self.{};", ty, field_name),
        format!("        self.{} = {};", field_name, field_name),
        "        old_value".to_string(),
        "    }".to_string(),
        "".to_string(),
        format!("    /// Builds the field: `{}`. Returns the struct itself.", field_name),
        format!(
            "    pub fn with_{}(mut self, {}: Option<{}>) -> Self {{",
            field_name, field_name, ty
        ),
        format!("        self.{} = {};", field_name, field_name),
        "        self".to_string(),
        "    }".to_string(),
        "}".to_string(),
        "".to_string(),
    ]
    .join("\n")
}

#[test]
fn unsigned_ints() {
    let message: Message = unsigned_ints_message();
    let result: String = GenMessage::default().gen(&message).unwrap();

    let mut expected: String = [
        "/// A message with unsigned integer fields.",
        "/// message UnsignedInts {",
        "///",
        "///     // The first field.",
        "///     one: u8 = 1;",
        "///",
        "///     // The second field.",
        "///     two: u16 = 2;",
        "///",
        "///     // The third field.",
        "///     three: u32 = 3;",
        "///",
        "///     // The fourth field.",
        "///     four: u64 = 4;",
        "/// }",
        "#[derive(Copy, Clone, Ord, PartialOrd, Eq, PartialEq, Hash, Debug)]",
        "pub struct UnsignedInts {",
        "    pub one: Option<u8>,",
        "    pub two: Option<u16>,",
        "    pub three: Option<u32>,",
        "    pub four: Option<u64>,",
        "}",
        "",
        "",
    ]
    .join("\n");
    expected.push_str(&accessor_block("UnsignedInts", "one: u8 = 1;", "one", "u8"));
    expected.push('\n');
    expected.push_str(&accessor_block("UnsignedInts", "two: u16 = 2;", "two", "u16"));
    expected.push('\n');
    expected.push_str(&accessor_block(
        "UnsignedInts",
        "three: u32 = 3;",
        "three",
        "u32",
    ));
    expected.push('\n');
    expected.push_str(&accessor_block(
        "UnsignedInts",
        "four: u64 = 4;",
        "four",
        "u64",
    ));
    expected.push('\n');
    expected.push_str(
        &[
            "impl EncodedLen for UnsignedInts {",
            "    fn encoded_len(&self) -> usize {",
            "        let mut encoded_len: usize = 0;",
            "        encoded_len += UnsignedInt8Field::new(1, self.one).encoded_len();",
            "        encoded_len += UnsignedInt16Field::new(2, false, self.two).encoded_len();",
            "        encoded_len += UnsignedInt32Field::new(3, false, self.three).encoded_len();",
            "        encoded_len += UnsignedInt64Field::new(4, false, self.four).encoded_len();",
            "        encoded_len",
            "    }",
            "}",
            "",
            "impl EncodeToSlice for UnsignedInts {",
            "    fn encode_to_slice_unchecked(&self, target: &mut [u8]) -> usize {",
            "        let mut encoded_len: usize = 0;",
            "        encoded_len += UnsignedInt8Field::new(1, self.one).encode_to_slice(target);",
            "        encoded_len += UnsignedInt16Field::new(2, false, self.two).encode_to_slice(target);",
            "        encoded_len += UnsignedInt32Field::new(3, false, self.three).encode_to_slice(target);",
            "        encoded_len += UnsignedInt64Field::new(4, false, self.four).encode_to_slice(target);",
            "        encoded_len",
            "    }",
            "}",
            "",
            "impl EncodeToWrite for UnsignedInts {",
            "    fn encode_to_write<W: io::Write>(&self, w: &mut W) -> Result<usize, io::Error> {",
            "        let mut encoded_len: usize = 0;",
            "        encoded_len += UnsignedInt8Field::new(1, self.one).encode_to_write(w)?;",
            "        encoded_len += UnsignedInt16Field::new(2, false, self.two).encode_to_write(w)?;",
            "        encoded_len += UnsignedInt32Field::new(3, false, self.three).encode_to_write(w)?;",
            "        encoded_len += UnsignedInt64Field::new(4, false, self.four).encode_to_write(w)?;",
            "        Ok(encoded_len)",
            "    }",
            "}",
            "",
            "impl DecodeFromReadLengthPrefixed for UnsignedInts {}",
            "",
            "impl DecodeFromRead for UnsignedInts {",
            "    fn decode_from_read<R: io::Read>(r: &mut R) -> Result<Self, io::Error> {",
            "        let len: usize = VarIntSize::decode_from_read_prefix(r)?.value;",
            "        let mut r: ReadLimit<R> = ReadLimit { read: r, limit: len };",
            "",
            "        let mut result: Self = Self::default();",
            "        let mut field_number: u32 = 0;",
            "        while let Some(header) = FieldHeader::decode_from_read_prefix_optional(&mut r)? {",
            "            field_number += header.field_number();",
            "            match field_number {",
            "                1 => {",
            "                    result.set_one(Some(read::read_u8(&mut r)?));",
            "                }",
            "                2 => {",
            "                    result.set_two(Some(read::read_u16_var(&mut r)?));",
            "                }",
            "                3 => {",
            "                    result.set_three(Some(read::read_u32_var(&mut r)?));",
            "                }",
            "                4 => {",
            "                    result.set_four(Some(read::read_u64_var(&mut r)?));",
            "                }",
            "                _ => {",
            "                    panic!(\"unknown fields not yet supported\");",
            "                }",
            "            }",
            "        }",
            "        Ok(result)",
            "    }",
            "}",
            "",
        ]
        .join("\n"),
    );

    assert_eq!(result, expected);
}

#[test]
fn empty_message() {
    let message: Message = Message::new("Empty".to_string());
    let result: String = GenMessage::default().gen(&message).unwrap();

    let expected: String = [
        "/// message Empty {}",
        "#[derive(Copy, Clone, Ord, PartialOrd, Eq, PartialEq, Hash, Debug)]",
        "pub struct Empty {}",
        "",
        "impl EncodedLen for Empty {",
        "    fn encoded_len(&self) -> usize {",
        "        let mut encoded_len: usize = 0;",
        "        encoded_len",
        "    }",
        "}",
        "",
        "impl EncodeToSlice for Empty {",
        "    fn encode_to_slice_unchecked(&self, target: &mut [u8]) -> usize {",
        "        let mut encoded_len: usize = 0;",
        "        encoded_len",
        "    }",
        "}",
        "",
        "impl EncodeToWrite for Empty {",
        "    fn encode_to_write<W: io::Write>(&self, w: &mut W) -> Result<usize, io::Error> {",
        "        let mut encoded_len: usize = 0;",
        "        Ok(encoded_len)",
        "    }",
        "}",
        "",
        "impl DecodeFromReadLengthPrefixed for Empty {}",
        "",
        "impl DecodeFromRead for Empty {",
        "    fn decode_from_read<R: io::Read>(r: &mut R) -> Result<Self, io::Error> {",
        "        let len: usize = VarIntSize::decode_from_read_prefix(r)?.value;",
        "        let mut r: ReadLimit<R> = ReadLimit { read: r, limit: len };",
        "",
        "        let mut result: Self = Self::default();",
        "        let mut field_number: u32 = 0;",
        "        while let Some(header) = FieldHeader::decode_from_read_prefix_optional(&mut r)? {",
        "            field_number += header.field_number();",
        "            match field_number {",
        "                _ => {",
        "                    panic!(\"unknown fields not yet supported\");",
        "                }",
        "            }",
        "        }",
        "        Ok(result)",
        "    }",
        "}",
        "",
    ]
    .join("\n");

    assert_eq!(result, expected);
}

#[test]
fn emission_determinism() {
    let message: Message = unsigned_ints_message();
    let first: String = GenMessage::default().gen(&message).unwrap();
    let second: String = GenMessage::default().gen(&message).unwrap();
    assert_eq!(first, second);
}

#[test]
fn field_ordering() {
    let message: Message = unsigned_ints_message();
    let result: String = GenMessage::default().gen(&message).unwrap();
    let one = result.find("pub one: Option<u8>").unwrap();
    let two = result.find("pub two: Option<u16>").unwrap();
    let three = result.find("pub three: Option<u32>").unwrap();
    let four = result.find("pub four: Option<u64>").unwrap();
    assert!(one < two && two < three && three < four);
}

#[test]
fn field_number_delta_decode() {
    let message: Message = unsigned_ints_message();
    let result: String = GenMessage::default().gen(&message).unwrap();
    // headers carry deltas that advance a running field number, so a first
    // header with delta 3 dispatches to `three` without touching `one`
    assert!(result.contains("field_number += header.field_number();"));
    assert!(result.contains("                3 => {\n                    result.set_three(Some(read::read_u32_var(&mut r)?));"));
}

#[test]
fn naming_passthrough() {
    let naming: Naming = Naming::default();
    assert_eq!(naming.field_name("weird_Name_42").unwrap(), "weird_Name_42");
    assert_eq!(naming.type_ident("MyMessage").unwrap(), "MyMessage");

    let message: Message = Message::new("M".to_string())
        .with_field(field("weird_Name_42", UnsignedInt8, 1));
    let result: String = GenMessage::default().gen(&message).unwrap();
    assert!(result.contains("    pub weird_Name_42: Option<u8>,"));
}

#[test]
fn unsupported_field_without_number() {
    let message: Message = Message::new("M".to_string()).with_field(MessageField::new(
        Var::new("a".to_string(), UnsignedInt8.to_type_tag()),
    ));
    assert_eq!(GenMessage::default().gen(&message), Err(GenError::Unsupported));
}

#[test]
fn typing_policy() {
    let typing: Typing = Typing::default();
    assert_eq!(typing.is_copy(&UnsignedInt64.to_type_tag()).unwrap(), true);
    assert_eq!(typing.all_copy(&unsigned_ints_message()).unwrap(), true);
    assert_eq!(typing.field_type(&UnsignedInt16.to_type_tag()).unwrap(), "u16");
    assert_eq!(typing.primitive_field_type(UnsignedInt32).unwrap(), "u32");
}
