use proto_gen::tree::message::{Message, MessageField, SemanticError};
use proto_gen::tree::var::PrimitiveType::{UnsignedInt16, UnsignedInt8};
use proto_gen::tree::var::{PrimitiveType, Var};

fn field(name: &str, primitive: PrimitiveType, number: u32) -> MessageField {
    MessageField::new(Var::new(name.to_string(), primitive.to_type_tag()))
        .with_field_number(number)
}

#[test]
fn validate_distinct_fields() {
    let message: Message = Message::new("M".to_string())
        .with_field(field("one", UnsignedInt8, 1))
        .with_field(field("two", UnsignedInt16, 2));
    assert_eq!(message.validate(), Ok(()));
}

#[test]
fn validate_empty_message() {
    let message: Message = Message::new("Empty".to_string());
    assert_eq!(message.validate(), Ok(()));
}

#[test]
fn validate_duplicate_name() {
    let message: Message = Message::new("M".to_string())
        .with_field(field("one", UnsignedInt8, 1))
        .with_field(field("one", UnsignedInt16, 2));
    assert_eq!(message.validate(), Err(SemanticError::DuplicateFieldName));
}

#[test]
fn validate_duplicate_number() {
    let message: Message = Message::new("M".to_string())
        .with_field(field("one", UnsignedInt8, 1))
        .with_field(field("two", UnsignedInt16, 1));
    assert_eq!(message.validate(), Err(SemanticError::DuplicateFieldNumber));
}

#[test]
fn validate_missing_numbers_allowed() {
    let message: Message = Message::new("M".to_string())
        .with_field(MessageField::new(Var::new(
            "one".to_string(),
            UnsignedInt8.to_type_tag(),
        )))
        .with_field(MessageField::new(Var::new(
            "two".to_string(),
            UnsignedInt16.to_type_tag(),
        )));
    assert_eq!(message.validate(), Ok(()));
}
