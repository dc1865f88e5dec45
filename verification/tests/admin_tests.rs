use rcs_parser::{Num, RcsData};

fn mknum(v: Vec<u32>) -> Num {
    Num { numbers: v }
}

#[test]
fn parse_strict() {
    assert_eq!(("", true), rcs_parser::parse_strict("strict;"));
    assert_eq!(("", true), rcs_parser::parse_strict(" strict ;"));
    assert_eq!(("strict", false), rcs_parser::parse_strict("strict"));
    assert_eq!((";", false), rcs_parser::parse_strict(";"));
    assert_eq!(("no", false), rcs_parser::parse_strict("no"));
}

#[test]
fn parse_admin() {
    let input = r#"head    2.1;
            access;
            symbols
                    Fix2:1.2.2.3
                    Fix1:1.2.1.1
                    v2_1:2.1
                    v1_1:1.2;
            locks
                    dseres:2.1; strict;
            comment @# @;"#;
    let result = RcsData {
        head: mknum(vec![2, 1]),
        branch: None,
        access: vec![],
        symbols: vec![
            (String::from("Fix2"), mknum(vec![1, 2, 2, 3])),
            (String::from("Fix1"), mknum(vec![1, 2, 1, 1])),
            (String::from("v2_1"), mknum(vec![2, 1])),
            (String::from("v1_1"), mknum(vec![1, 2])),
        ],
        locks: vec![(String::from("dseres"), mknum(vec![2, 1]))],
        strict: true,
        integrity: None,
        comment: Some(String::from("# ")),
        expand: None,
        desc: String::new(),
        deltas: vec![],
    };
    assert_eq!(Ok(("", result)), rcs_parser::parse_admin(input));
}

#[test]
fn parse_admin_whitespace_layouts_agree() {
    let compact = "head 2.1;access;symbols a:1.1 b:1.2;locks c:2.1;strict;";
    let airy = "  head\n\t2.1 ;\n access ;\n symbols\n\ta:1.1\n\tb:1.2 ;\nlocks\n c:2.1 ;\n strict\n;";
    let (rest1, d1) = rcs_parser::parse_admin(compact).unwrap();
    let (rest2, d2) = rcs_parser::parse_admin(airy).unwrap();
    assert_eq!("", rest1);
    assert_eq!("", rest2);
    assert_eq!(d1.head, d2.head);
    assert_eq!(d1.symbols, d2.symbols);
    assert_eq!(d1.locks, d2.locks);
    assert_eq!(d1.strict, d2.strict);
    assert_eq!(d1, d2);
}

#[test]
fn parse_admin_optional_clauses() {
    let input = "head 1.1;branch 1.1.2;access;symbols;locks;integrity @ck@;comment @# @;expand @kv@;";
    let (rest, d) = rcs_parser::parse_admin(input).unwrap();
    assert_eq!("", rest);
    assert_eq!(Some(mknum(vec![1, 1, 2])), d.branch);
    assert_eq!(Some(String::from("ck")), d.integrity);
    assert_eq!(Some(String::from("# ")), d.comment);
    assert_eq!(Some(String::from("kv")), d.expand);
    assert_eq!(false, d.strict);
}

#[test]
fn parse_admin_clause_order_is_fixed() {
    // `access` before `head` is a structural error, reported under the
    // header rule's own context frame
    match rcs_parser::parse_admin("access;head 1.1;symbols;locks;") {
        Err(e) => {
            let last = e.trace.last().unwrap();
            assert_eq!(
                rcs_parser::ErrKind::Context(String::from("Admin")),
                last.kind
            );
        },
        other => panic!("expected a structural error, got {:?}", other),
    }
    // a missing required clause is a structural error
    assert!(rcs_parser::parse_admin("head 1.1;symbols;locks;").is_err());
}
