use proto_gen::tree::message::{Message, MessageField};
use proto_gen::tree::var::PrimitiveType::{
    UnsignedInt16, UnsignedInt32, UnsignedInt64, UnsignedInt8,
};
use proto_gen::tree::var::{TypeTag, Var};

#[test]
fn to_type_tag() {
    let result: TypeTag = UnsignedInt32.to_type_tag();
    let expected: TypeTag = TypeTag::Primitive(UnsignedInt32);
    assert_eq!(result, expected);
}

#[test]
fn primitive_type_display() {
    assert_eq!(UnsignedInt8.display(), "u8");
    assert_eq!(UnsignedInt16.display(), "u16");
    assert_eq!(UnsignedInt32.display(), "u32");
    assert_eq!(UnsignedInt64.display(), "u64");
}

#[test]
fn type_tag_display() {
    let tag: TypeTag = UnsignedInt8.into();
    assert_eq!(tag.display(), "u8");
}

#[test]
fn var_display() {
    let var: Var = Var::new("one".to_string(), UnsignedInt8.to_type_tag());
    assert_eq!(var.display(), "one: u8");
}

#[test]
fn message_field_display() {
    let field: MessageField = MessageField::new(Var::new(
        "one".to_string(),
        UnsignedInt8.to_type_tag(),
    ));
    assert_eq!(field.display(), "one: u8;");

    let field: MessageField = field.with_field_number(1);
    assert_eq!(field.display(), "one: u8 = 1;");
}

#[test]
fn message_display() {
    let message: Message = Message::new("MyMessage".to_string());
    let result: String = message.display();
    let expected: &str = "message MyMessage {}\n";
    assert_eq!(result, expected);

    let message: Message = message.with_field(MessageField::new(Var::new(
        "one".to_string(),
        UnsignedInt8.to_type_tag(),
    )));
    let result: String = message.display();
    let expected: &str = "message MyMessage {\n    one: u8;\n}\n";
    assert_eq!(result, expected);

    let message: Message = message.with_field(MessageField::new(Var::new(
        "two".to_string(),
        UnsignedInt16.to_type_tag(),
    )));
    let result: String = message.display();
    let expected: &str = "message MyMessage {\n    one: u8;\n    two: u16;\n}\n";
    assert_eq!(result, expected);
}
