use rcs_parser::{ErrKind, ParseError, TraceEntry};

fn err2(p0: usize, k0: ErrKind, p1: usize, k1: ErrKind) -> ParseError {
    ParseError {
        trace: vec![TraceEntry { pos: p0, kind: k0 }, TraceEntry { pos: p1, kind: k1 }],
    }
}

#[test]
fn is_special_chars() {
    assert_eq!(true, rcs_parser::is_special_chars('$'));
    assert_eq!(true, rcs_parser::is_special_chars(','));
    assert_eq!(true, rcs_parser::is_special_chars('.'));
    assert_eq!(true, rcs_parser::is_special_chars(':'));
    assert_eq!(true, rcs_parser::is_special_chars(';'));
    assert_eq!(true, rcs_parser::is_special_chars('@'));

    assert_eq!(false, rcs_parser::is_special_chars('\r'));
    assert_eq!(false, rcs_parser::is_special_chars(' '));
    assert_eq!(false, rcs_parser::is_special_chars('G'));
    assert_eq!(false, rcs_parser::is_special_chars('8'));
    assert_eq!(false, rcs_parser::is_special_chars('á'));
}

#[test]
fn id_idchar() {
    assert_eq!(true, rcs_parser::is_idchar('f'));
    assert_eq!(true, rcs_parser::is_idchar('9'));
    assert_eq!(true, rcs_parser::is_idchar('F'));
    assert_eq!(true, rcs_parser::is_idchar('*'));
    assert_eq!(true, rcs_parser::is_idchar('~'));
    assert_eq!(true, rcs_parser::is_idchar('!'));
    assert_eq!(true, rcs_parser::is_idchar('á'));

    assert_eq!(false, rcs_parser::is_idchar('$'));
    assert_eq!(false, rcs_parser::is_idchar(' '));
    assert_eq!(false, rcs_parser::is_idchar('\u{007f}'));
    assert_eq!(false, rcs_parser::is_idchar(' '));
    assert_eq!(false, rcs_parser::is_idchar('\n'));
}

#[test]
fn is_visible_char() {
    assert_eq!(true, rcs_parser::is_visible_char('a'));
    assert_eq!(true, rcs_parser::is_visible_char('9'));
    assert_eq!(true, rcs_parser::is_visible_char('*'));
    assert_eq!(true, rcs_parser::is_visible_char('.'));
    assert_eq!(true, rcs_parser::is_visible_char('ö'));
    assert_eq!(false, rcs_parser::is_visible_char(' '));
    assert_eq!(false, rcs_parser::is_visible_char('\u{007f}'));
    assert_eq!(false, rcs_parser::is_visible_char('\u{2764}'));
}

#[test]
fn parse_sym() {
    assert_eq!(Ok(("$zzz", "abc123*")), rcs_parser::parse_sym("abc123*$zzz"));
    assert_eq!(Ok((" ~~~", "XZY-_")), rcs_parser::parse_sym("XZY-_ ~~~"));
    assert_eq!(Ok(("\t abc", "abc123!")), rcs_parser::parse_sym("abc123!\t abc"));
    assert_eq!(Ok(("", "abc123*é")), rcs_parser::parse_sym("abc123*é"));
    assert_eq!(
        Err(err2(
            0,
            ErrKind::TakeWhile1,
            0,
            ErrKind::Context(String::from("sym")),
        )),
        rcs_parser::parse_sym(" abc")
    );
}

#[test]
fn parse_id() {
    assert_eq!(Ok(("@xyz", "A.a.1.")), rcs_parser::parse_id("A.a.1.@xyz"));
    assert_eq!(Ok(("", ".")), rcs_parser::parse_id("."));
    assert_eq!(Ok(("", "A")), rcs_parser::parse_id("A"));
    assert_eq!(
        Err(err2(
            0,
            ErrKind::TakeWhile1,
            0,
            ErrKind::Context(String::from("id")),
        )),
        rcs_parser::parse_id(" .abc")
    );
}
