use proto_gen::tree::message::{Message, MessageField};
use proto_gen::tree::parse;
use proto_gen::tree::util::WithComments;
use proto_gen::tree::source::{SourceDec, SourceFile};
use proto_gen::tree::var::PrimitiveType::{
    UnsignedInt16, UnsignedInt32, UnsignedInt64, UnsignedInt8,
};
use proto_gen::tree::var::{PrimitiveType, Var};

fn field(name: &str, primitive: PrimitiveType, number: u32) -> MessageField {
    MessageField::new(Var::new(name.to_string(), primitive.to_type_tag()))
        .with_field_number(number)
}

#[test]
fn messages() {
    let s: &str = "// A message with unsigned integer fields.\n\
                   message UnsignedInts {\n\
                     one:   u8  = 1;\n\
                     two:   u16 = 2;\n\
                     three: u32 = 3;\n\
                     four:  u64 = 4;\n\
                   }\n";
    let result: SourceFile = parse::source_file(s).unwrap();

    let message: Message = Message::new("UnsignedInts".to_string())
        .with_field(field("one", UnsignedInt8, 1))
        .with_field(field("two", UnsignedInt16, 2))
        .with_field(field("three", UnsignedInt32, 3))
        .with_field(field("four", UnsignedInt64, 4));
    let expected: SourceFile =
        SourceFile::default().with_declaration(SourceDec::from(message));
    assert_eq!(result, expected);
}

#[test]
fn round_trip() {
    let source: SourceFile = parse::source_file("message M { a:u32 = 7; }").unwrap();
    assert_eq!(source.declarations().len(), 1);
    let SourceDec::MessageDec(message) = &source.declarations()[0];
    let text: String = message.display();
    assert_eq!(text, "message M {\n    a: u32 = 7;\n}\n");

    let reparsed: SourceFile = parse::source_file(text.as_str()).unwrap();
    assert_eq!(reparsed, source);
}

#[test]
fn parse_determinism() {
    let s: &str = "message A { x: u8 = 1; }\nmessage B {}\n";
    let first: SourceFile = parse::source_file(s).unwrap();
    let second: SourceFile = parse::source_file(s).unwrap();
    assert_eq!(first, second);
    assert_eq!(first.declarations().len(), 2);
}

#[test]
fn rejection_missing_semicolon() {
    assert!(parse::source_file("message M { a:u32 = 7 }").is_err());
}

#[test]
fn rejection_unknown_primitive() {
    assert!(parse::source_file("message M { a:u128 = 7; }").is_err());
}

#[test]
fn rejection_trailing_garbage() {
    assert!(parse::source_file("message M {} trailing").is_err());
}

#[test]
fn rejection_positions() {
    let err = parse::source_file("message M { a:u32 = 7 }").unwrap_err();
    assert_eq!(err.position, 22);
}

#[test]
fn field_number_bounds() {
    let source: SourceFile =
        parse::source_file("message M { a:u32 = 4294967295; }").unwrap();
    let SourceDec::MessageDec(message) = &source.declarations()[0];
    assert_eq!(message.fields()[0].field_number(), Some(4294967295));

    assert!(parse::source_file("message M { a:u32 = 4294967296; }").is_err());
}

#[test]
fn field_number_leading_zeros() {
    let source: SourceFile = parse::source_file("message M { a:u32 = 007; }").unwrap();
    let SourceDec::MessageDec(message) = &source.declarations()[0];
    assert_eq!(message.fields()[0].field_number(), Some(7));
}

#[test]
fn field_without_colon() {
    let source: SourceFile = parse::source_file("message M { a u32 = 7; }").unwrap();
    let SourceDec::MessageDec(message) = &source.declarations()[0];
    assert_eq!(message.fields()[0].name(), "a");
}

#[test]
fn comments_between_fields() {
    let s: &str = "// leading\nmessage M {\n  // before the field\n  a: u8 = 1;\n}\n";
    let source: SourceFile = parse::source_file(s).unwrap();
    let SourceDec::MessageDec(message) = &source.declarations()[0];
    assert_eq!(message.fields().len(), 1);
    assert!(message.comments().is_empty());
}

#[test]
fn empty_input() {
    let source: SourceFile = parse::source_file("   \n  // only a comment\n").unwrap();
    assert!(source.declarations().is_empty());
}
