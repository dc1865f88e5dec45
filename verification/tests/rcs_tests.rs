use rcs_parser::{Delta, DeltaText, DiffCommand, MergeError, Num, RcsError, Text};

fn mknum(v: Vec<u32>) -> Num {
    Num { numbers: v }
}

#[test]
fn parse_deltas() {
    let input = r#"


2.1
date	2021.04.10.09.38.42;	author dseres;	state Production;
branches;
next	1.2;

1.2
date	2021.03.25.10.16.43;	author dseres;	state beta;
branches
	1.2.1.1
	1.2.2.1;
next	1.1;"#;
    let (input, deltas) = rcs_parser::parse_deltas(input);
    assert_eq!("", input);
    assert_eq!(2, deltas.len());
}

#[test]
fn parse_desc() {
    let input = r#"

            desc
            @initial commit
            text from lao
            @"#;
    let result = String::from(
        r#"initial commit
            text from lao
            "#,
    );
    assert_eq!(Ok(("", result)), rcs_parser::parse_desc(input));
}

#[test]
fn parse_deltatexts() {
    let input = r#"


2.1
log
@lao back
@
text
@The Way that can be told of is not the eternal Way;
The name that can be named is not the eternal name.
The Nameless is the origin of Heaven and Earth;
The Named is the mother of all things.
Therefore let there always be non-being,
  so we may see their subtlety,
And let there always be being,
  so we may see their outcome.
The two are the same,
But after they are produced,
  they have different names.
@


1.2
log
@Tzu has given some new idea.

Maybe it is a @@useful@@ idea.
@
text
@d1 2
d4 1
a4 2
The named is the mother of all things.

a11 3
They both may be called deep and profound.
Deeper and more profound,
The door of all subtleties!
@"#;
    let (input, deltatexts) = rcs_parser::parse_deltatexts(input).unwrap();
    assert_eq!("", input);
    assert_eq!(2, deltatexts.len());
}

fn fixture(second_text_num: &str) -> String {
    let mut s = String::new();
    s.push_str("head 2.1;\naccess;\nsymbols;\nlocks; strict;\n");
    s.push_str("2.1\ndate 2021.4.10.9.38.42; author dseres; state Exp;\nbranches;\nnext 1.2;\n");
    s.push_str("1.2\ndate 2021.3.25.10.16.43; author dseres; state beta;\nbranches;\nnext ;\n");
    s.push_str("desc\n@initial commit\n@\n");
    s.push_str("2.1\nlog\n@lao back\n@\ntext\n@The Way\n@\n");
    s.push_str(second_text_num);
    s.push_str("\nlog\n@second @@ log\n@\ntext\n@d1 2\na3 1\nnew line\n@\n");
    s
}

#[test]
fn parse_rcs_fixture() {
    let input = fixture("1.2");
    let (rest, rcs) = rcs_parser::parse_rcs(&input).unwrap();
    assert_eq!("", rest);
    assert_eq!(mknum(vec![2, 1]), rcs.head);
    assert_eq!(String::from("initial commit\n"), rcs.desc);
    assert_eq!(2, rcs.deltas.len());

    // sorted by the revision-number order: 1.2 before 2.1
    assert_eq!(mknum(vec![1, 2]), rcs.deltas[0].num);
    assert_eq!(mknum(vec![2, 1]), rcs.deltas[1].num);

    assert_eq!(String::from("second @ log\n"), rcs.deltas[0].log);
    assert_eq!(
        Text::Diff(vec![
            DiffCommand::Delete(1, 2),
            DiffCommand::Add(3, vec![String::from("new line")]),
        ]),
        rcs.deltas[0].text
    );
    assert_eq!(Some(String::from("beta")), rcs.deltas[0].state);
    assert_eq!(None, rcs.deltas[0].next);

    assert_eq!(String::from("lao back\n"), rcs.deltas[1].log);
    assert_eq!(Text::Head(String::from("The Way\n")), rcs.deltas[1].text);
    assert_eq!(Some(mknum(vec![1, 2])), rcs.deltas[1].next);
    assert_eq!(Some(String::from("Exp")), rcs.deltas[1].state);
}

#[test]
fn parse_rcs_missing_header_is_merge_error() {
    // the second delta body names revision 3.1, which no header declares
    let input = fixture("3.1");
    assert_eq!(
        Err(RcsError::Merge(MergeError::MissingDelta(mknum(vec![3, 1])))),
        rcs_parser::parse_rcs(&input)
    );
}

#[test]
fn parse_rcs_truncated_input_is_parse_error() {
    let input = "head 2.1;\naccess;\nsymbols;\nlocks;\n";
    match rcs_parser::parse_rcs(input) {
        Err(RcsError::Parse(e)) => assert!(e.trace.len() > 0),
        other => panic!("expected a parse error, got {:?}", other),
    }
}

#[test]
fn build_deltas_pairs_and_sorts() {
    let d21 = Delta {
        num: mknum(vec![2, 1]),
        date: mknum(vec![2021, 4, 10, 9, 38, 42]),
        author: String::from("dseres"),
        state: None,
        branches: vec![],
        next: None,
        commitid: None,
        log: String::new(),
        text: Text::Diff(vec![]),
    };
    let d12 = Delta { num: mknum(vec![1, 2]), ..d21.clone() };
    let t21 = DeltaText {
        num: mknum(vec![2, 1]),
        log: String::from("first"),
        text: Text::Head(String::from("body\n")),
    };
    let t12 = DeltaText {
        num: mknum(vec![1, 2]),
        log: String::from("older"),
        text: Text::Diff(vec![DiffCommand::Delete(1, 1)]),
    };
    let res = rcs_parser::build_deltas(vec![d21.clone(), d12.clone()], vec![t21, t12]).unwrap();
    assert_eq!(2, res.len());
    assert_eq!(mknum(vec![1, 2]), res[0].num);
    assert_eq!(String::from("older"), res[0].log);
    assert_eq!(mknum(vec![2, 1]), res[1].num);
    assert_eq!(String::from("first"), res[1].log);
    assert_eq!(Text::Head(String::from("body\n")), res[1].text);
}

#[test]
fn build_deltas_duplicate_header() {
    let d21 = Delta {
        num: mknum(vec![2, 1]),
        date: mknum(vec![2021, 1, 1, 0, 0, 0]),
        author: String::from("a"),
        state: None,
        branches: vec![],
        next: None,
        commitid: None,
        log: String::new(),
        text: Text::Diff(vec![]),
    };
    let t21 = DeltaText {
        num: mknum(vec![2, 1]),
        log: String::from("l"),
        text: Text::Head(String::from("b")),
    };
    assert_eq!(
        Err(MergeError::DuplicateDelta(mknum(vec![2, 1]))),
        rcs_parser::build_deltas(vec![d21.clone(), d21.clone()], vec![t21])
    );
}

#[test]
fn build_deltas_header_without_body() {
    let d21 = Delta {
        num: mknum(vec![2, 1]),
        date: mknum(vec![2021, 1, 1, 0, 0, 0]),
        author: String::from("a"),
        state: None,
        branches: vec![],
        next: None,
        commitid: None,
        log: String::new(),
        text: Text::Diff(vec![]),
    };
    let d12 = Delta { num: mknum(vec![1, 2]), ..d21.clone() };
    let t21 = DeltaText {
        num: mknum(vec![2, 1]),
        log: String::from("l"),
        text: Text::Head(String::from("b")),
    };
    assert_eq!(
        Err(MergeError::MissingDeltaText(mknum(vec![1, 2]))),
        rcs_parser::build_deltas(vec![d21, d12], vec![t21])
    );
}

#[test]
fn build_deltas_last_body_wins() {
    let d21 = Delta {
        num: mknum(vec![2, 1]),
        date: mknum(vec![2021, 1, 1, 0, 0, 0]),
        author: String::from("a"),
        state: None,
        branches: vec![],
        next: None,
        commitid: None,
        log: String::new(),
        text: Text::Diff(vec![]),
    };
    let t_old = DeltaText {
        num: mknum(vec![2, 1]),
        log: String::from("old"),
        text: Text::Head(String::from("o")),
    };
    let t_new = DeltaText {
        num: mknum(vec![2, 1]),
        log: String::from("new"),
        text: Text::Head(String::from("n")),
    };
    let res = rcs_parser::build_deltas(vec![d21], vec![t_old, t_new]).unwrap();
    assert_eq!(1, res.len());
    assert_eq!(String::from("new"), res[0].log);
    assert_eq!(Text::Head(String::from("n")), res[0].text);
}
