use rcs_parser::{ErrKind, ParseError, TraceEntry};

fn err2(p0: usize, k0: ErrKind, p1: usize, k1: ErrKind) -> ParseError {
    ParseError {
        trace: vec![TraceEntry { pos: p0, kind: k0 }, TraceEntry { pos: p1, kind: k1 }],
    }
}

#[test]
fn parse_string() {
    assert_eq!(Ok(("", String::from(""))), rcs_parser::parse_string("@@"));
    assert_eq!(
        Ok(("xyz", String::from("abc"))),
        rcs_parser::parse_string("@abc@xyz")
    );
    assert_eq!(
        Ok(("xyz", String::from("@"))),
        rcs_parser::parse_string("@@@@xyz")
    );
    assert_eq!(
        Ok(("xyz", String::from("abc@def"))),
        rcs_parser::parse_string("@abc@@def@xyz")
    );
    assert_eq!(
        Ok(("xyz", String::from("abc@def@@ghi"))),
        rcs_parser::parse_string("@abc@@def@@@@ghi@xyz")
    );
    assert_eq!(
        Err(err2(0, ErrKind::Tag, 0, ErrKind::Context(String::from("string")))),
        rcs_parser::parse_string("zzz")
    );
    assert_eq!(
        Err(err2(0, ErrKind::Tag, 0, ErrKind::Context(String::from("string")))),
        rcs_parser::parse_string("zzz@")
    );
    assert_eq!(
        Err(err2(4, ErrKind::Tag, 0, ErrKind::Context(String::from("string")))),
        rcs_parser::parse_string("@zzz")
    );
}

#[test]
fn parse_string_doubled_at_only() {
    assert_eq!(
        Ok(("Other input.", String::from("This is a test string."))),
        rcs_parser::parse_string("@This is a test string.@Other input.")
    );
    assert_eq!(
        Ok(("", String::from("String having an '@' inside."))),
        rcs_parser::parse_string("@String having an '@@' inside.@")
    );
}

#[test]
fn parse_intstring_raw() {
    assert_eq!(
        Ok(("xyz", String::from("abc"))),
        rcs_parser::parse_intstring("@abc@xyz")
    );
    // the raw variant does not resolve doubled `@`: it stops at the first
    assert_eq!(
        Ok(("@cd@", String::from("ab"))),
        rcs_parser::parse_intstring("@ab@@cd@")
    );
    assert_eq!(Ok(("", String::from(""))), rcs_parser::parse_intstring("@@"));
    assert!(rcs_parser::parse_intstring("@zzz").is_err());
    assert!(rcs_parser::parse_intstring("zzz").is_err());
}
