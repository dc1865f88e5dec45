use rcs_parser::{Delta, Num, Text};

fn mknum(v: Vec<u32>) -> Num {
    Num { numbers: v }
}

#[test]
fn parse_delta() {
    let delta_str = r#"1.2
            date    2021.03.25.10.16.43;    author dseres;  state beta;
            branches
                    1.2.1.1
                    1.2.2.1;
            next    1.1;"#;
    let delta = Delta {
        num: mknum(vec![1, 2]),
        date: mknum(vec![2021, 3, 25, 10, 16, 43]),
        author: String::from("dseres"),
        state: Some(String::from("beta")),
        branches: vec![mknum(vec![1, 2, 1, 1]), mknum(vec![1, 2, 2, 1])],
        next: Some(mknum(vec![1, 1])),
        commitid: None,
        log: String::new(),
        text: Text::Diff(vec![]),
    };
    assert_eq!(Ok(("", delta)), rcs_parser::parse_delta(delta_str));
}

#[test]
fn parse_delta_empty_payloads() {
    let delta_str = "2.1\ndate 2021.04.10.09.38.42; author dseres; state; branches; next;";
    let (rest, d) = rcs_parser::parse_delta(delta_str).unwrap();
    assert_eq!("", rest);
    assert_eq!(mknum(vec![2, 1]), d.num);
    assert_eq!(None, d.state);
    assert_eq!(Vec::<Num>::new(), d.branches);
    assert_eq!(None, d.next);
    assert_eq!(None, d.commitid);
}

#[test]
fn parse_delta_commitid() {
    let delta_str = "1.1\ndate 2021.1.1.0.0.0; author a; state; branches; next; commitid abc123;";
    let (rest, d) = rcs_parser::parse_delta(delta_str).unwrap();
    assert_eq!("", rest);
    assert_eq!(Some(String::from("abc123")), d.commitid);
}

#[test]
fn parse_delta_requires_date() {
    assert!(rcs_parser::parse_delta("1.2\nauthor dseres;").is_err());
}
