use rcs_parser::{ErrKind, Num, ParseError, TraceEntry};

fn mknum(v: Vec<u32>) -> Num {
    Num { numbers: v }
}

#[test]
fn num() {
    let mut v = Vec::new();
    v.push(100);
    assert_eq!(Num { numbers: vec![100] }, Num { numbers: v });
    let mut v = Vec::new();
    v.push(1);
    v.push(1);
    assert_eq!(Num { numbers: vec![1, 1] }, Num { numbers: v });
    let mut v = Vec::new();
    v.push(1);
    v.push(1);
    v.push(2);
    v.push(1);
    assert_eq!(Num { numbers: vec![1, 1, 2, 1] }, Num { numbers: v });
}

#[test]
fn parse_num() {
    assert_eq!(Ok(("", mknum(vec![1]))), rcs_parser::parse_num("1"));
    assert_eq!(Ok(("", mknum(vec![1, 1]))), rcs_parser::parse_num("1.1"));
    assert_eq!(Ok(("", mknum(vec![1, 1, 1]))), rcs_parser::parse_num("1.1.1"));
    assert_eq!(
        Ok(("w", mknum(vec![134, 1, 4, 2]))),
        rcs_parser::parse_num("134.1.4.2w")
    );
    assert_eq!(
        Ok(("a.1.4.2w", mknum(vec![134]))),
        rcs_parser::parse_num("134a.1.4.2w")
    );
    assert_eq!(
        Err(ParseError {
            trace: vec![
                TraceEntry { pos: 0, kind: ErrKind::Digit },
                TraceEntry { pos: 0, kind: ErrKind::Context(String::from("Num")) },
            ]
        }),
        rcs_parser::parse_num("  1")
    );
}

#[test]
fn parse_num_empty_input() {
    assert_eq!(
        Err(ParseError {
            trace: vec![
                TraceEntry { pos: 0, kind: ErrKind::Digit },
                TraceEntry { pos: 0, kind: ErrKind::Context(String::from("Num")) },
            ]
        }),
        rcs_parser::parse_num("")
    );
}

#[test]
fn parse_num_component_overflow() {
    assert_eq!(
        Err(ParseError {
            trace: vec![
                TraceEntry { pos: 0, kind: ErrKind::Digit },
                TraceEntry { pos: 0, kind: ErrKind::Context(String::from("Num")) },
            ]
        }),
        rcs_parser::parse_num("4294967296")
    );
    assert_eq!(
        Ok(("", mknum(vec![4294967295]))),
        rcs_parser::parse_num("4294967295")
    );
    // the error names the start of the overflowing group
    assert_eq!(
        Err(ParseError {
            trace: vec![
                TraceEntry { pos: 2, kind: ErrKind::Digit },
                TraceEntry { pos: 0, kind: ErrKind::Context(String::from("Num")) },
            ]
        }),
        rcs_parser::parse_num("1.99999999999")
    );
}

#[test]
fn is_branch_parity() {
    assert_eq!(true, mknum(vec![1]).is_branch());
    assert_eq!(true, mknum(vec![1, 1, 1]).is_branch());
    assert_eq!(true, mknum(vec![1, 2, 3, 4, 5]).is_branch());
    assert_eq!(false, mknum(vec![1, 1]).is_branch());
    assert_eq!(false, mknum(vec![1, 2, 3, 4]).is_branch());
    assert_eq!(false, mknum(vec![]).is_branch());
    assert_eq!(false, mknum(vec![1]).is_revision());
    assert_eq!(true, mknum(vec![1, 1]).is_revision());
}

#[test]
fn is_valid_revision() {
    assert_eq!(true, mknum(vec![1, 2]).is_valid_revision());
    assert_eq!(true, mknum(vec![1, 2, 3, 4]).is_valid_revision());
    assert_eq!(false, mknum(vec![1]).is_valid_revision());
    assert_eq!(false, mknum(vec![1, 2, 3]).is_valid_revision());
    assert_eq!(false, mknum(vec![]).is_valid_revision());
    assert_eq!(false, mknum(vec![0]).is_valid_revision());
    assert_eq!(false, mknum(vec![1, 0, 2]).is_valid_revision());
    assert_eq!(false, mknum(vec![1, 1, 0]).is_valid_revision());
}

#[test]
fn branching_point_lengths() {
    assert_eq!(mknum(vec![1, 2]), mknum(vec![1, 2, 3]).get_branching_point());
    assert_eq!(mknum(vec![1, 2]), mknum(vec![1, 2, 3, 4]).get_branching_point());
    assert_eq!(
        mknum(vec![1, 2, 3, 4]),
        mknum(vec![1, 2, 3, 4, 5]).get_branching_point()
    );
    assert_eq!(
        mknum(vec![1, 2, 3, 4]),
        mknum(vec![1, 2, 3, 4, 5, 6]).get_branching_point()
    );
}

#[test]
fn branching_points_chain() {
    assert_eq!(
        vec![mknum(vec![1, 2]), mknum(vec![1, 2, 3, 4]), mknum(vec![1, 2, 3, 4, 5, 6])],
        mknum(vec![1, 2, 3, 4, 5, 6, 7, 8]).get_branching_points()
    );
    assert_eq!(Vec::<Num>::new(), mknum(vec![1, 2]).get_branching_points());
    assert_eq!(Vec::<Num>::new(), mknum(vec![]).get_branching_points());
}
