use rcs_parser::parsers::chars::IdParser;
use rcs_parser::parsers::num::NumParser;
use rcs_parser::{ErrKind, Num, ParseError, TraceEntry};

fn entry(pos: usize, kind: ErrKind) -> TraceEntry {
    TraceEntry { pos, kind }
}

#[test]
fn parse_value() {
    let input = " num 1.2.3;";
    assert_eq!(
        Ok(("", Num { numbers: vec![1, 2, 3] })),
        rcs_parser::parse_value(input, "context", "num", &NumParser)
    );

    let input = "non num";
    assert_eq!(
        Err(ParseError {
            trace: vec![
                entry(0, ErrKind::Tag),
                entry(0, ErrKind::Context(String::from("context"))),
            ]
        }),
        rcs_parser::parse_value(input, "context", "num", &NumParser)
    );

    let input = "num numanumaje";
    assert_eq!(
        Err(ParseError {
            trace: vec![
                entry(4, ErrKind::Digit),
                entry(4, ErrKind::Context(String::from("Num"))),
                entry(0, ErrKind::Context(String::from("context"))),
            ]
        }),
        rcs_parser::parse_value(input, "context", "num", &NumParser)
    );
}

#[test]
fn parse_value_opt() {
    let input = " optional ;";
    assert_eq!(
        Ok(("", None)),
        rcs_parser::parse_value_opt(input, "context", "optional", &IdParser)
    );

    let input = " optional value;";
    assert_eq!(
        Ok(("", Some(String::from("value")))),
        rcs_parser::parse_value_opt(input, "context", "optional", &IdParser)
    );

    let input = "bad tag";
    assert_eq!(
        Err(ParseError {
            trace: vec![
                entry(0, ErrKind::Tag),
                entry(0, ErrKind::Context(String::from("context"))),
            ]
        }),
        rcs_parser::parse_value_opt(input, "context", "optional", &IdParser)
    );
}

#[test]
fn parse_value_all_opt() {
    let input = " optional ;";
    assert_eq!(
        (" optional ;", None),
        rcs_parser::parse_value_all_opt(input, "context", "optional", &IdParser)
    );

    let input = "optional value;";
    assert_eq!(
        ("", Some(String::from("value"))),
        rcs_parser::parse_value_all_opt(input, "context", "optional", &IdParser)
    );

    let input = "bad tag";
    assert_eq!(
        ("bad tag", None),
        rcs_parser::parse_value_all_opt(input, "context", "optional", &IdParser)
    );
}

#[test]
fn parse_value_many0() {
    let input = "many0;";
    assert_eq!(
        Ok(("", Vec::<String>::new())),
        rcs_parser::parse_value_many0(input, "context", "many0", &IdParser)
    );

    let input = "many0 abc;";
    assert_eq!(
        Ok(("", vec![String::from("abc")])),
        rcs_parser::parse_value_many0(input, "context", "many0", &IdParser)
    );

    let input = "many0 abc def;";
    assert_eq!(
        Ok(("", vec![String::from("abc"), String::from("def")])),
        rcs_parser::parse_value_many0(input, "context", "many0", &IdParser)
    );

    let input = "bad tag";
    assert_eq!(
        Err(ParseError {
            trace: vec![
                entry(0, ErrKind::Tag),
                entry(0, ErrKind::Context(String::from("context"))),
            ]
        }),
        rcs_parser::parse_value_many0(input, "context", "many0", &IdParser)
    );
}
