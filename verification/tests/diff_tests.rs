use rcs_parser::{DiffCommand, ErrKind, ParseError, TraceEntry};

fn entry(pos: usize, kind: ErrKind) -> TraceEntry {
    TraceEntry { pos, kind }
}

#[test]
fn parse_diff_line() {
    assert_eq!(
        Ok(("def", String::from("abc"))),
        rcs_parser::parse_diff_line("abc\ndef")
    );
    assert_eq!(
        Ok(("def", String::from("abc@abc"))),
        rcs_parser::parse_diff_line("abc@@abc\ndef")
    );
    assert_eq!(
        Ok(("def", String::from("abc@@abc"))),
        rcs_parser::parse_diff_line("abc@@@@abc\ndef")
    );
    assert_eq!(
        Ok(("def", String::from("abc"))),
        rcs_parser::parse_diff_line("abc\r\ndef")
    );
    assert_eq!(Ok(("", String::from("@"))), rcs_parser::parse_diff_line("@@\n"));
    assert_eq!(Ok(("", String::from(""))), rcs_parser::parse_diff_line("\n"));
    assert_eq!(
        Err(ParseError {
            trace: vec![
                entry(3, ErrKind::CrLf),
                entry(0, ErrKind::Context(String::from("Diff"))),
            ]
        }),
        rcs_parser::parse_diff_line("abc@abc\n")
    );
    assert_eq!(
        Err(ParseError {
            trace: vec![
                entry(3, ErrKind::CrLf),
                entry(0, ErrKind::Context(String::from("Diff"))),
            ]
        }),
        rcs_parser::parse_diff_line("abc")
    );
    assert_eq!(
        Err(ParseError {
            trace: vec![
                entry(0, ErrKind::CrLf),
                entry(0, ErrKind::Context(String::from("Diff"))),
            ]
        }),
        rcs_parser::parse_diff_line("")
    );
}

#[test]
fn parse_diff_command() {
    assert_eq!(
        Ok(("", DiffCommand::Delete(1, 2))),
        rcs_parser::parse_diff_command("d1 2\r\n")
    );
    assert_eq!(
        Ok(("", DiffCommand::Delete(1, 2))),
        rcs_parser::parse_diff_command("d  1 \n 2\n")
    );
    assert_eq!(
        Ok((
            "",
            DiffCommand::Add(1213, vec![String::from("aaa"), String::from("bbb")])
        )),
        rcs_parser::parse_diff_command("a1213 2\naaa\nbbb\n")
    );
    assert_eq!(
        Err(ParseError {
            trace: vec![
                entry(0, ErrKind::OneOf),
                entry(0, ErrKind::Context(String::from("Diff"))),
            ]
        }),
        rcs_parser::parse_diff_command("c2 3\n")
    );
    assert_eq!(
        Err(ParseError {
            trace: vec![
                entry(5, ErrKind::CrLf),
                entry(5, ErrKind::Context(String::from("Diff"))),
                entry(5, ErrKind::Count),
                entry(5, ErrKind::Context(String::from("Diff"))),
            ]
        }),
        rcs_parser::parse_diff_command("a2 3\n")
    );
}

#[test]
fn parse_diff_command_add_keeps_escapes_per_line() {
    assert_eq!(
        Ok((
            "",
            DiffCommand::Add(23, vec![
                String::from("First line added."),
                String::from("Second @ line."),
            ])
        )),
        rcs_parser::parse_diff_command("a23 2\nFirst line added.\nSecond @@ line.\n")
    );
}
