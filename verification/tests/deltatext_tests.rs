use rcs_parser::{DeltaText, DiffCommand, ErrKind, Num, ParseError, Text, TraceEntry};

fn entry(pos: usize, kind: ErrKind) -> TraceEntry {
    TraceEntry { pos, kind }
}

#[test]
fn parse_deltatext() {
    let delta_str = r#"1.1
log
@Initial revision
@
text
@a0 2
The Way that can be told of is not the eternal Way;
The name that can be named is not the eternal name.
d2 2
a3 1
The Named is the mother of all things.
d11 3
@"#;
    assert_eq!(
        Ok((
            "",
            DeltaText {
                num: Num { numbers: vec![1, 1] },
                log: String::from("Initial revision\n"),
                text: Text::Diff(vec![
                    DiffCommand::Add(
                        0,
                        vec![
                            String::from(
                                "The Way that can be told of is not the eternal Way;"
                            ),
                            String::from(
                                "The name that can be named is not the eternal name."
                            ),
                        ]
                    ),
                    DiffCommand::Delete(2, 2),
                    DiffCommand::Add(
                        3,
                        vec![String::from("The Named is the mother of all things.")]
                    ),
                    DiffCommand::Delete(11, 3),
                ])
            }
        )),
        rcs_parser::parse_deltatext(delta_str)
    );
}

#[test]
fn parse_deltatext2() {
    let delta_str = r#"
log
@Initial revision
@
text
@a0 2
The Way that can be told of is not the eternal Way;
The name that can be named is not the eternal name.
d2 2
a3 1
The Named is the mother of all things.
d11 3
@"#;
    assert_eq!(
        Err(ParseError {
            trace: vec![
                entry(0, ErrKind::Digit),
                entry(0, ErrKind::Context(String::from("Num"))),
                entry(0, ErrKind::Context(String::from("DeltaText"))),
            ]
        }),
        rcs_parser::parse_deltatext(delta_str)
    );
}

#[test]
fn parse_deltatext3() {
    let delta_str = r#"1.1
@Initial revision
@
text
@@"#;
    assert_eq!(
        Err(ParseError {
            trace: vec![
                entry(4, ErrKind::Tag),
                entry(0, ErrKind::Context(String::from("DeltaText"))),
            ]
        }),
        rcs_parser::parse_deltatext(delta_str)
    );

    let delta_str = r#"1.1
log
text
@@"#;
    assert_eq!(
        Err(ParseError {
            trace: vec![
                entry(8, ErrKind::Tag),
                entry(8, ErrKind::Context(String::from("string"))),
                entry(0, ErrKind::Context(String::from("DeltaText"))),
            ]
        }),
        rcs_parser::parse_deltatext(delta_str)
    );

    let delta_str = r#"1.1
log @@
@@"#;
    assert_eq!(
        Err(ParseError {
            trace: vec![
                entry(11, ErrKind::Tag),
                entry(0, ErrKind::Context(String::from("DeltaText"))),
            ]
        }),
        rcs_parser::parse_deltatext(delta_str)
    );

    let delta_str = r#"1.1
log @@
text "#;
    assert_eq!(
        Err(ParseError {
            trace: vec![
                entry(16, ErrKind::Tag),
                entry(0, ErrKind::Context(String::from("DeltaText"))),
            ]
        }),
        rcs_parser::parse_deltatext(delta_str)
    );
}

#[test]
fn parse_deltatext_head() {
    let delta_str = r#"2.1
log
@lao back
@
text
@The Way that can be told of is not the eternal Way;
The name that can be named is not the eternal name.
The Nameless is the origin of Heaven and Earth;
The Named is the mother of all things.
Therefore let there always be non-being,
  so we may see their subtlety,
And let there always be being,
  so we may see their outcome.
The two are the same,
But after they are produced,
  they have different names.
@"#;
    let text = String::from(
        r#"The Way that can be told of is not the eternal Way;
The name that can be named is not the eternal name.
The Nameless is the origin of Heaven and Earth;
The Named is the mother of all things.
Therefore let there always be non-being,
  so we may see their subtlety,
And let there always be being,
  so we may see their outcome.
The two are the same,
But after they are produced,
  they have different names.
"#,
    );
    assert_eq!(
        Ok((
            "",
            DeltaText {
                num: Num { numbers: vec![2, 1] },
                log: String::from("lao back\n"),
                text: Text::Head(text),
            }
        )),
        rcs_parser::parse_deltatext_head(delta_str)
    );
}

#[test]
fn parse_deltatext_empty_diff_stream() {
    let delta_str = "1.1\nlog\n@l@\ntext\n@@";
    assert_eq!(
        Ok((
            "",
            DeltaText {
                num: Num { numbers: vec![1, 1] },
                log: String::from("l"),
                text: Text::Diff(vec![]),
            }
        )),
        rcs_parser::parse_deltatext(delta_str)
    );
}
