//! The diagnostic renderer: turns parser-service failures and evaluation
//! failures into a uniform annotated report.
//!
//! A report carries a message, an error severity, an ordered list of labeled
//! source spans and an optional help text. The renderer is a pure function:
//! each call is independent and the labels appear in processing order.

use vstd::prelude::*;
use vstd::string::StrSliceExecFns;
use vstd::utf8::encode_utf8;

use crate::eval::EvalFailure;
use crate::expr::extract_bytes;
use crate::span::Span;

verus! {

pub const NEWLINE: u8 = 10;

pub const BACKSLASH: u8 = 92;

pub const LOWER_N: u8 = 110;

/// The only severity the calculator ever reports.
#[derive(Clone, Copy, Debug, PartialEq, Eq, Structural)]
pub enum Severity {
    Error,
}

/// One labeled source span of a report.
#[derive(Debug, PartialEq, Eq)]
pub struct Label {
    pub text: Option<Vec<u8>>,
    pub span: Span,
}

/// The mathematical value of a `Label`: its text as a byte sequence.
pub struct LabelModel {
    pub text: Option<Seq<u8>>,
    pub span: Span,
}

impl View for Label {
    type V = LabelModel;

    open spec fn view(&self) -> LabelModel {
        LabelModel {
            text: match self.text {
                Some(t) => Some(t@),
                None => None,
            },
            span: self.span,
        }
    }
}

pub open spec fn labels_model(ls: Seq<Label>) -> Seq<LabelModel> {
    ls.map_values(|l: Label| l@)
}

/// The renderer's output: the only artifact surfaced to the user-facing
/// boundary. Never mutated after construction.
#[derive(Debug)]
pub struct Report {
    pub severity: Severity,
    pub message: String,
    pub labels: Vec<Label>,
    pub help: Option<String>,
}

/// One suggested edit of a repair sequence proposed by the parser service.
/// An insertion carries the human-readable name of the token kind to insert.
#[derive(Debug, PartialEq, Eq)]
pub enum Repair {
    Delete { span: Span },
    Insert { name: String },
    Shift { span: Span },
}

impl Repair {
    pub open spec fn wf(self, n: nat) -> bool {
        match self {
            Repair::Delete { span } => span.wf(n),
            Repair::Insert { name } => true,
            Repair::Shift { span } => span.wf(n),
        }
    }
}

/// A failure reported by the parser service for the current line: either the
/// lexer stopped at a span, or the parser stopped at a lexeme and proposes
/// repair sequences that would let parsing continue.
#[derive(Debug)]
pub enum Failure {
    Lex { error_span: Span },
    Parse { error_lexeme_span: Span, repairs: Vec<Vec<Repair>> },
}

impl Failure {
    pub open spec fn wf(self, n: nat) -> bool {
        match self {
            Failure::Lex { error_span } => error_span.wf(n),
            Failure::Parse { error_lexeme_span, repairs } => error_lexeme_span.wf(n) && forall|i: int, j: int|
                0 <= i < repairs@.len() && 0 <= j < repairs@[i]@.len() ==> (
                #[trigger] repairs@[i]@[j]).wf(n),
        }
    }
}

/// `s` with every newline byte replaced by the two-byte escape `\n`.
pub open spec fn escape_nl(s: Seq<u8>) -> Seq<u8>
    decreases s.len(),
{
    if s.len() == 0 {
        Seq::empty()
    } else {
        escape_nl(s.drop_last()) + (if s.last() == NEWLINE {
            seq![BACKSLASH, LOWER_N]
        } else {
            seq![s.last()]
        })
    }
}

/// The fallback label: "here", at the span where the service stopped.
pub open spec fn here_label(span: Span) -> LabelModel {
    LabelModel { text: Some(encode_utf8("here"@)), span }
}

/// A merged deletion: "delete " and the deleted text, newline-escaped.
pub open spec fn delete_label(line: Seq<u8>, span: Span) -> LabelModel {
    LabelModel {
        text: Some(
            encode_utf8("delete "@) + escape_nl(line.subrange(span.start as int, span.end as int)),
        ),
        span,
    }
}

/// An insertion: "insert " and the token kind's name, at the error lexeme.
pub open spec fn insert_label(name: Seq<char>, error_span: Span) -> LabelModel {
    LabelModel { text: Some(encode_utf8("insert "@) + encode_utf8(name)), span: error_span }
}

/// A shift: "shift " and the shifted text, newline-escaped, at its own span.
pub open spec fn shift_label(line: Seq<u8>, span: Span) -> LabelModel {
    LabelModel {
        text: Some(
            encode_utf8("shift "@) + escape_nl(line.subrange(span.start as int, span.end as int)),
        ),
        span,
    }
}

/// The labels a pending (not yet emitted) run of merged deletes contributes.
pub open spec fn flush_pending(line: Seq<u8>, pending: Option<Span>) -> Seq<LabelModel> {
    match pending {
        None => Seq::empty(),
        Some(p) => seq![delete_label(line, p)],
    }
}

/// The labels synthesized from a repair sequence, walked left to right with
/// `pending` the span of the deletion run currently being merged. Consecutive
/// deletes merge exactly when the next delete starts where the previous one
/// ended; any other repair, or a gap of even one byte, ends the run.
pub open spec fn repair_labels(
    line: Seq<u8>,
    error_span: Span,
    rs: Seq<Repair>,
    pending: Option<Span>,
) -> Seq<LabelModel>
    decreases rs.len(),
{
    if rs.len() == 0 {
        flush_pending(line, pending)
    } else {
        match rs.first() {
            Repair::Delete { span: d } => match pending {
                Some(p) => if p.end == d.start {
                    repair_labels(
                        line,
                        error_span,
                        rs.drop_first(),
                        Some(Span { start: p.start, end: d.end }),
                    )
                } else {
                    flush_pending(line, Some(p)) + repair_labels(
                        line,
                        error_span,
                        rs.drop_first(),
                        Some(d),
                    )
                },
                None => repair_labels(line, error_span, rs.drop_first(), Some(d)),
            },
            Repair::Insert { name } => flush_pending(line, pending) + seq![
                insert_label(name@, error_span),
            ] + repair_labels(line, error_span, rs.drop_first(), None),
            Repair::Shift { span: s } => flush_pending(line, pending) + seq![
                shift_label(line, s),
            ] + repair_labels(line, error_span, rs.drop_first(), None),
        }
    }
}

/// The first repair sequence offered, or nothing: only that one is rendered,
/// matching the sequence the service actually applies to continue parsing.
pub open spec fn first_repair_seq(seqs: Seq<Vec<Repair>>) -> Seq<Repair> {
    if seqs.len() == 0 {
        Seq::empty()
    } else {
        seqs.first()@
    }
}

/// All labels of a parse-failure report: the synthesized repair labels, or
/// the single fallback label when the walk produces none.
pub open spec fn parse_labels(line: Seq<u8>, error_span: Span, rs: Seq<Repair>) -> Seq<LabelModel> {
    let ls = repair_labels(line, error_span, rs, None);
    if ls.len() == 0 {
        seq![here_label(error_span)]
    } else {
        ls
    }
}

/// Merge law: two `Delete` repairs whose spans touch exactly produce one
/// merged label covering their union.
pub proof fn lemma_adjacent_deletes_merge(line: Seq<u8>, error_span: Span, a: Span, b: Span)
    requires
        a.end == b.start,
    ensures
        parse_labels(
            line,
            error_span,
            seq![(Repair::Delete { span: a }), (Repair::Delete { span: b })],
        ) == seq![delete_label(line, (Span { start: a.start, end: b.end }))],
{
    reveal_with_fuel(repair_labels, 3);
    let rs = seq![(Repair::Delete { span: a }), (Repair::Delete { span: b })];
    let merged = Span { start: a.start, end: b.end };
    assert(rs.drop_first() =~= seq![(Repair::Delete { span: b })]);
    assert(rs.drop_first().drop_first() =~= Seq::<Repair>::empty());
    assert(repair_labels(line, error_span, rs.drop_first().drop_first(), Some(merged))
        == flush_pending(line, Some(merged)));
}

/// Merge law, negative side: two `Delete` repairs whose spans do not touch
/// (a gap of even one byte) produce two separate labels.
pub proof fn lemma_separated_deletes_stay_apart(line: Seq<u8>, error_span: Span, a: Span, b: Span)
    requires
        a.end != b.start,
    ensures
        parse_labels(
            line,
            error_span,
            seq![(Repair::Delete { span: a }), (Repair::Delete { span: b })],
        ) == seq![delete_label(line, a), delete_label(line, b)],
{
    reveal_with_fuel(repair_labels, 3);
    let rs = seq![(Repair::Delete { span: a }), (Repair::Delete { span: b })];
    assert(rs.drop_first() =~= seq![(Repair::Delete { span: b })]);
    assert(rs.drop_first().drop_first() =~= Seq::<Repair>::empty());
    assert(repair_labels(line, error_span, rs.drop_first().drop_first(), Some(b))
        == flush_pending(line, Some(b)));
    assert(repair_labels(line, error_span, rs, None) =~= seq![
        delete_label(line, a),
        delete_label(line, b),
    ]);
}

/// Fallback law: an empty repair sequence yields exactly one label, "here",
/// at the error lexeme's span.
pub proof fn lemma_empty_repair_sequence_falls_back(line: Seq<u8>, error_span: Span)
    ensures
        parse_labels(line, error_span, Seq::<Repair>::empty()) == seq![here_label(error_span)],
{
    assert(repair_labels(line, error_span, Seq::<Repair>::empty(), None) == flush_pending(
        line,
        None,
    ));
}

/// The labels of an evaluation-failure report.
pub open spec fn eval_labels(f: EvalFailure) -> Seq<LabelModel> {
    match f {
        EvalFailure::Overflow { lhs_span, rhs_span } => seq![
            LabelModel { text: Some(encode_utf8("lhs"@)), span: lhs_span },
            LabelModel { text: Some(encode_utf8("rhs"@)), span: rhs_span },
        ],
        EvalFailure::LiteralOutOfRange { span } => seq![
            LabelModel { text: Some(encode_utf8("this number"@)), span },
        ],
    }
}

/// Replace every newline byte of `s` with the escape `\n`.
fn escape_newlines(s: &Vec<u8>) -> (r: Vec<u8>)
    ensures
        r@ == escape_nl(s@),
{
    let mut r: Vec<u8> = Vec::new();
    let mut i: usize = 0;
    while i < s.len()
        invariant
            0 <= i <= s@.len(),
            r@ == escape_nl(s@.take(i as int)),
        decreases s@.len() - i,
    {
        proof {
            assert(s@.take(i + 1).drop_last() =~= s@.take(i as int));
            assert(s@.take(i + 1).last() == s@[i as int]);
        }
        if s[i] == NEWLINE {
            r.push(BACKSLASH);
            r.push(LOWER_N);
        } else {
            r.push(s[i]);
        }
        i += 1;
    }
    proof {
        assert(s@.take(s@.len() as int) =~= s@);
    }
    r
}

/// Build the label of a merged deletion run.
fn make_delete_label(line: &Vec<u8>, span: Span) -> (l: Label)
    requires
        span.wf(line@.len()),
    ensures
        l@ == delete_label(line@, span),
{
    let piece = extract_bytes(line, span);
    let mut text = "delete ".as_bytes_vec();
    let mut tail = escape_newlines(&piece);
    text.append(&mut tail);
    Label { text: Some(text), span }
}

fn make_shift_label(line: &Vec<u8>, span: Span) -> (l: Label)
    requires
        span.wf(line@.len()),
    ensures
        l@ == shift_label(line@, span),
{
    let piece = extract_bytes(line, span);
    let mut text = "shift ".as_bytes_vec();
    let mut tail = escape_newlines(&piece);
    text.append(&mut tail);
    Label { text: Some(text), span }
}

fn make_insert_label(name: &String, error_span: Span) -> (l: Label)
    ensures
        l@ == insert_label(name@, error_span),
{
    let mut text = "insert ".as_bytes_vec();
    let mut tail = name.as_str().as_bytes_vec();
    text.append(&mut tail);
    Label { text: Some(text), span: error_span }
}

fn make_here_label(span: Span) -> (l: Label)
    ensures
        l@ == here_label(span),
{
    Label { text: Some("here".as_bytes_vec()), span }
}

/// Render a lex or parse failure of the parser service. `help` is the
/// service's own pretty-printed explanation, passed through verbatim.
pub fn render(line: &Vec<u8>, failure: &Failure, help: String) -> (r: Report)
    requires
        failure.wf(line@.len()),
    ensures
        r.severity is Error,
        r.help matches Some(h) && h@ == help@,
        match *failure {
            Failure::Lex { error_span } => r.message@ == "lexing error"@ && labels_model(r.labels@)
                == seq![here_label(error_span)],
            Failure::Parse { error_lexeme_span, repairs } => r.message@ == "parsing error"@
                && labels_model(r.labels@) == parse_labels(
                line@,
                error_lexeme_span,
                first_repair_seq(repairs@),
            ),
        },
{
    match failure {
        Failure::Lex { error_span } => {
            let labels = vec![make_here_label(*error_span)];
            proof {
                assert(labels_model(labels@) =~= seq![here_label(*error_span)]);
            }
            Report {
                severity: Severity::Error,
                message: "lexing error".to_owned(),
                labels,
                help: Some(help),
            }
        },
        Failure::Parse { error_lexeme_span, repairs } => {
            let labels = parse_failure_labels(line, *error_lexeme_span, repairs);
            Report {
                severity: Severity::Error,
                message: "parsing error".to_owned(),
                labels,
                help: Some(help),
            }
        },
    }
}

/// Append one label, in processing order.
fn push_label(labels: &mut Vec<Label>, l: Label)
    ensures
        labels_model(final(labels)@) == labels_model(old(labels)@) + seq![l@],
{
    proof {
        assert(labels_model(old(labels)@.push(l)) =~= labels_model(old(labels)@) + seq![l@]);
    }
    labels.push(l);
}

/// Walk the first repair sequence left to right, merging adjacent deletes,
/// and fall back to a single "here" label when nothing was synthesized.
fn parse_failure_labels(line: &Vec<u8>, error_span: Span, repairs: &Vec<Vec<Repair>>) -> (ls: Vec<
    Label,
>)
    requires
        error_span.wf(line@.len()),
        forall|i: int, j: int|
            0 <= i < repairs@.len() && 0 <= j < repairs@[i]@.len() ==> (
            #[trigger] repairs@[i]@[j]).wf(line@.len()),
    ensures
        labels_model(ls@) == parse_labels(line@, error_span, first_repair_seq(repairs@)),
{
    let ghost rs_spec = first_repair_seq(repairs@);
    let mut labels: Vec<Label> = Vec::new();
    let mut pending: Option<Span> = None;
    if repairs.len() > 0 {
        let rs = &repairs[0];
        let mut i: usize = 0;
        proof {
            assert(rs@.skip(0) =~= rs@);
            assert(labels_model(labels@) =~= Seq::<LabelModel>::empty());
            assert(labels_model(labels@) + repair_labels(line@, error_span, rs@, None)
                =~= repair_labels(line@, error_span, rs@, None));
        }
        while i < rs.len()
            invariant
                rs_spec == rs@,
                0 <= i <= rs@.len(),
                error_span.wf(line@.len()),
                forall|j: int| 0 <= j < rs@.len() ==> (#[trigger] rs@[j]).wf(line@.len()),
                pending matches Some(p) ==> p.wf(line@.len()),
                labels_model(labels@) + repair_labels(
                    line@,
                    error_span,
                    rs@.skip(i as int),
                    pending,
                ) == repair_labels(line@, error_span, rs@, None),
            decreases rs@.len() - i,
        {
            proof {
                assert(rs@.skip(i as int).first() == rs@[i as int]);
                assert(rs@.skip(i as int).drop_first() =~= rs@.skip(i + 1));
            }
            match &rs[i] {
                Repair::Delete { span: d } => {
                    match pending {
                        Some(p) => {
                            if p.end == d.start {
                                pending = Some(Span { start: p.start, end: d.end });
                            } else {
                                push_label(&mut labels, make_delete_label(line, p));
                                pending = Some(*d);
                            }
                        },
                        None => {
                            pending = Some(*d);
                        },
                    }
                },
                Repair::Insert { name } => {
                    if let Some(p) = pending {
                        push_label(&mut labels, make_delete_label(line, p));
                        pending = None;
                    }
                    push_label(&mut labels, make_insert_label(name, error_span));
                },
                Repair::Shift { span: s } => {
                    if let Some(p) = pending {
                        push_label(&mut labels, make_delete_label(line, p));
                        pending = None;
                    }
                    push_label(&mut labels, make_shift_label(line, *s));
                },
            }
            proof {
                assert(labels_model(labels@) + repair_labels(
                    line@,
                    error_span,
                    rs@.skip(i + 1),
                    pending,
                ) =~= repair_labels(line@, error_span, rs@, None));
            }
            i += 1;
        }
        proof {
            assert(rs@.skip(rs@.len() as int) =~= Seq::<Repair>::empty());
            assert(labels_model(labels@) + flush_pending(line@, pending) == repair_labels(
                line@,
                error_span,
                rs_spec,
                None,
            ));
        }
    } else {
        proof {
            assert(rs_spec =~= Seq::<Repair>::empty());
            assert(labels_model(labels@) =~= Seq::<LabelModel>::empty());
            assert(labels_model(labels@) + flush_pending(line@, pending) =~= repair_labels(
                line@,
                error_span,
                rs_spec,
                None,
            ));
        }
    }
    if let Some(p) = pending {
        push_label(&mut labels, make_delete_label(line, p));
    }
    proof {
        assert(labels_model(labels@) =~= repair_labels(line@, error_span, rs_spec, None));
    }
    if labels.len() == 0 {
        push_label(&mut labels, make_here_label(error_span));
        proof {
            assert(labels_model(labels@) =~= seq![here_label(error_span)]);
        }
    }
    labels
}

/// Render an evaluation failure. The `Overflow` message covers every failed
/// checked rule, zero divisors and underflow included: a deliberately coarse
/// bucket kept for compatibility.
pub fn render_eval(failure: &EvalFailure) -> (r: Report)
    ensures
        r.severity is Error,
        r.help is None,
        labels_model(r.labels@) == eval_labels(*failure),
        match *failure {
            EvalFailure::Overflow { .. } => r.message@ == "evaluation overflowed"@,
            EvalFailure::LiteralOutOfRange { .. } => r.message@
                == "cannot be represented as a u64"@,
        },
{
    match failure {
        EvalFailure::Overflow { lhs_span, rhs_span } => {
            let labels = vec![
                Label { text: Some("lhs".as_bytes_vec()), span: *lhs_span },
                Label { text: Some("rhs".as_bytes_vec()), span: *rhs_span },
            ];
            proof {
                assert(labels_model(labels@) =~= eval_labels(*failure));
            }
            Report {
                severity: Severity::Error,
                message: "evaluation overflowed".to_owned(),
                labels,
                help: None,
            }
        },
        EvalFailure::LiteralOutOfRange { span } => {
            let labels = vec![Label { text: Some("this number".as_bytes_vec()), span: *span }];
            proof {
                assert(labels_model(labels@) =~= eval_labels(*failure));
            }
            Report {
                severity: Severity::Error,
                message: "cannot be represented as a u64".to_owned(),
                labels,
                help: None,
            }
        },
    }
}

} // verus!
