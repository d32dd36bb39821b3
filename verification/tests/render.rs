use dogwood::error::render;
use dogwood::error::render_eval;
use dogwood::EvalFailure;
use dogwood::Failure;
use dogwood::Repair;
use dogwood::Severity;
use dogwood::Span;

fn sp(start: usize, end: usize) -> Span {
    Span { start, end }
}

fn del(start: usize, end: usize) -> Repair {
    Repair::Delete { span: sp(start, end) }
}

#[test]
fn lex_failure_renders_here() {
    let line = b"1 $ 2".to_vec();
    let failure = Failure::Lex { error_span: sp(2, 3) };
    let r = render(&line, &failure, "unexpected character".to_string());
    assert!(matches!(r.severity, Severity::Error));
    assert_eq!(r.message, "lexing error");
    assert_eq!(r.help, Some("unexpected character".to_string()));
    assert_eq!(r.labels.len(), 1);
    assert_eq!(r.labels[0].text, Some(b"here".to_vec()));
    assert_eq!(r.labels[0].span, sp(2, 3));
}

#[test]
fn adjacent_deletes_merge_into_one_label() {
    let line = b"1 2 + 3".to_vec();
    let failure =
        Failure::Parse { error_lexeme_span: sp(2, 3), repairs: vec![vec![del(2, 3), del(3, 4)]] };
    let r = render(&line, &failure, "help".to_string());
    assert_eq!(r.message, "parsing error");
    assert_eq!(r.labels.len(), 1);
    assert_eq!(r.labels[0].text, Some(b"delete 2 ".to_vec()));
    assert_eq!(r.labels[0].span, sp(2, 4));
}

#[test]
fn separated_deletes_stay_apart() {
    let line = b"1 2 + 3".to_vec();
    let failure =
        Failure::Parse { error_lexeme_span: sp(2, 3), repairs: vec![vec![del(2, 3), del(4, 5)]] };
    let r = render(&line, &failure, "help".to_string());
    assert_eq!(r.labels.len(), 2);
    assert_eq!(r.labels[0].text, Some(b"delete 2".to_vec()));
    assert_eq!(r.labels[0].span, sp(2, 3));
    assert_eq!(r.labels[1].text, Some(b"delete +".to_vec()));
    assert_eq!(r.labels[1].span, sp(4, 5));
}

#[test]
fn empty_repair_sequence_falls_back_to_here() {
    let line = b"1 +".to_vec();
    let failure = Failure::Parse { error_lexeme_span: sp(2, 3), repairs: vec![] };
    let r = render(&line, &failure, "help".to_string());
    assert_eq!(r.message, "parsing error");
    assert_eq!(r.labels.len(), 1);
    assert_eq!(r.labels[0].text, Some(b"here".to_vec()));
    assert_eq!(r.labels[0].span, sp(2, 3));
}

#[test]
fn empty_first_sequence_falls_back_to_here() {
    let line = b"1 +".to_vec();
    let failure = Failure::Parse { error_lexeme_span: sp(2, 3), repairs: vec![vec![]] };
    let r = render(&line, &failure, "help".to_string());
    assert_eq!(r.labels.len(), 1);
    assert_eq!(r.labels[0].text, Some(b"here".to_vec()));
}

#[test]
fn only_first_sequence_is_rendered() {
    let line = b"1 2".to_vec();
    let failure = Failure::Parse {
        error_lexeme_span: sp(2, 3),
        repairs: vec![vec![del(0, 1)], vec![del(2, 3)]],
    };
    let r = render(&line, &failure, "help".to_string());
    assert_eq!(r.labels.len(), 1);
    assert_eq!(r.labels[0].text, Some(b"delete 1".to_vec()));
    assert_eq!(r.labels[0].span, sp(0, 1));
}

#[test]
fn insert_points_at_error_lexeme() {
    let line = b"1 2".to_vec();
    let failure = Failure::Parse {
        error_lexeme_span: sp(2, 3),
        repairs: vec![vec![Repair::Insert { name: "+".to_string() }]],
    };
    let r = render(&line, &failure, "help".to_string());
    assert_eq!(r.labels.len(), 1);
    assert_eq!(r.labels[0].text, Some(b"insert +".to_vec()));
    assert_eq!(r.labels[0].span, sp(2, 3));
}

#[test]
fn shift_points_at_its_own_span() {
    let line = b"1 + + 2".to_vec();
    let failure = Failure::Parse {
        error_lexeme_span: sp(4, 5),
        repairs: vec![vec![del(2, 3), Repair::Shift { span: sp(4, 5) }]],
    };
    let r = render(&line, &failure, "help".to_string());
    assert_eq!(r.labels.len(), 2);
    assert_eq!(r.labels[0].text, Some(b"delete +".to_vec()));
    assert_eq!(r.labels[0].span, sp(2, 3));
    assert_eq!(r.labels[1].text, Some(b"shift +".to_vec()));
    assert_eq!(r.labels[1].span, sp(4, 5));
}

#[test]
fn delete_after_insert_starts_a_new_run() {
    let line = b"1 2 3".to_vec();
    let failure = Failure::Parse {
        error_lexeme_span: sp(4, 5),
        repairs: vec![vec![del(0, 1), Repair::Insert { name: "INT".to_string() }, del(2, 3)]],
    };
    let r = render(&line, &failure, "help".to_string());
    assert_eq!(r.labels.len(), 3);
    assert_eq!(r.labels[0].text, Some(b"delete 1".to_vec()));
    assert_eq!(r.labels[1].text, Some(b"insert INT".to_vec()));
    assert_eq!(r.labels[2].text, Some(b"delete 2".to_vec()));
}

#[test]
fn three_touching_deletes_merge_into_one() {
    let line = b"abcdef".to_vec();
    let failure = Failure::Parse {
        error_lexeme_span: sp(0, 1),
        repairs: vec![vec![del(1, 2), del(2, 4), del(4, 5)]],
    };
    let r = render(&line, &failure, "help".to_string());
    assert_eq!(r.labels.len(), 1);
    assert_eq!(r.labels[0].text, Some(b"delete bcde".to_vec()));
    assert_eq!(r.labels[0].span, sp(1, 5));
}

#[test]
fn newlines_are_escaped_in_deleted_text() {
    let line = b"a\nb".to_vec();
    let failure = Failure::Parse { error_lexeme_span: sp(0, 1), repairs: vec![vec![del(0, 3)]] };
    let r = render(&line, &failure, "help".to_string());
    assert_eq!(r.labels.len(), 1);
    assert_eq!(r.labels[0].text, Some(b"delete a\\nb".to_vec()));
}

#[test]
fn newlines_are_escaped_in_shifted_text() {
    let line = b"\n".to_vec();
    let failure = Failure::Parse {
        error_lexeme_span: sp(0, 1),
        repairs: vec![vec![Repair::Shift { span: sp(0, 1) }]],
    };
    let r = render(&line, &failure, "help".to_string());
    assert_eq!(r.labels[0].text, Some(b"shift \\n".to_vec()));
}

#[test]
fn overflow_renders_both_sides() {
    let failure = EvalFailure::Overflow { lhs_span: sp(0, 1), rhs_span: sp(4, 5) };
    let r = render_eval(&failure);
    assert!(matches!(r.severity, Severity::Error));
    assert_eq!(r.message, "evaluation overflowed");
    assert_eq!(r.help, None);
    assert_eq!(r.labels.len(), 2);
    assert_eq!(r.labels[0].text, Some(b"lhs".to_vec()));
    assert_eq!(r.labels[0].span, sp(0, 1));
    assert_eq!(r.labels[1].text, Some(b"rhs".to_vec()));
    assert_eq!(r.labels[1].span, sp(4, 5));
}

#[test]
fn literal_out_of_range_renders_this_number() {
    let failure = EvalFailure::LiteralOutOfRange { span: sp(0, 20) };
    let r = render_eval(&failure);
    assert_eq!(r.message, "cannot be represented as a u64");
    assert_eq!(r.help, None);
    assert_eq!(r.labels.len(), 1);
    assert_eq!(r.labels[0].text, Some(b"this number".to_vec()));
    assert_eq!(r.labels[0].span, sp(0, 20));
}
