//! The expression model: operators, the expression tree handed over by the
//! parser service, and its postfix (reverse Polish) rendering.

use vstd::prelude::*;

use crate::span::Span;

verus! {

/// Byte values of the token characters the renderer emits.
pub const SPACE: u8 = 32;

pub const PLUS: u8 = 43;

pub const MINUS: u8 = 45;

pub const STAR: u8 = 42;

pub const SLASH: u8 = 47;

pub const PERCENT: u8 = 37;

/// The closed set of infix operators.
#[derive(Clone, Copy, Debug, PartialEq, Eq, Structural)]
pub enum Op {
    Add,
    Sub,
    Mul,
    Div,
    Mod,
    Pow,
}

/// An expression tree. A `Number` leaf carries only the span of its literal
/// text: the literal is interpreted lazily, when the node is evaluated.
#[derive(Debug)]
pub enum Expr {
    Number { span: Span },
    Infix { span: Span, lhs: Box<Expr>, op: Op, rhs: Box<Expr> },
}

/// The token text of an operator, as bytes.
pub open spec fn op_token_spec(op: Op) -> Seq<u8> {
    match op {
        Op::Add => seq![PLUS],
        Op::Sub => seq![MINUS],
        Op::Mul => seq![STAR],
        Op::Div => seq![SLASH],
        Op::Mod => seq![PERCENT],
        Op::Pow => seq![STAR, STAR],
    }
}

/// The postfix rendering of `e` over the line `line`: a post-order traversal
/// (left, right, operator-or-literal-text), joined with single spaces.
pub open spec fn rpn_spec(e: Expr, line: Seq<u8>) -> Seq<u8>
    decreases e,
{
    match e {
        Expr::Number { span } => line.subrange(span.start as int, span.end as int),
        Expr::Infix { span, lhs, op, rhs } => rpn_spec(*lhs, line) + seq![SPACE] + rpn_spec(
            *rhs,
            line,
        ) + seq![SPACE] + op_token_spec(op),
    }
}

/// Two trees have the same shape when they agree on everything the postfix
/// rendering can observe: leaf spans, operators and nesting. The spans of
/// interior nodes are allowed to differ.
pub open spec fn same_shape(e1: Expr, e2: Expr) -> bool
    decreases e1,
{
    match (e1, e2) {
        (Expr::Number { span: s1 }, Expr::Number { span: s2 }) => s1 == s2,
        (
            Expr::Infix { span: _, lhs: l1, op: o1, rhs: r1 },
            Expr::Infix { span: _, lhs: l2, op: o2, rhs: r2 },
        ) => o1 == o2 && same_shape(*l1, *l2) && same_shape(*r1, *r2),
        _ => false,
    }
}

/// Postfix rendering is a pure function of tree shape: trees that differ only
/// in the spans of interior nodes render identically, over any line.
pub proof fn lemma_rpn_depends_only_on_shape(e1: Expr, e2: Expr, line: Seq<u8>)
    requires
        same_shape(e1, e2),
    ensures
        rpn_spec(e1, line) == rpn_spec(e2, line),
    decreases e1,
{
    match (e1, e2) {
        (Expr::Number { span: s1 }, Expr::Number { span: s2 }) => {},
        (
            Expr::Infix { span: _, lhs: l1, op: o1, rhs: r1 },
            Expr::Infix { span: _, lhs: l2, op: o2, rhs: r2 },
        ) => {
            lemma_rpn_depends_only_on_shape(*l1, *l2, line);
            lemma_rpn_depends_only_on_shape(*r1, *r2, line);
        },
        _ => {},
    }
}

/// Copy the bytes a span denotes out of the line.
pub(crate) fn extract_bytes(line: &Vec<u8>, span: Span) -> (r: Vec<u8>)
    requires
        span.wf(line@.len()),
    ensures
        r@ == line@.subrange(span.start as int, span.end as int),
{
    let mut r: Vec<u8> = Vec::new();
    let mut i: usize = span.start;
    while i < span.end
        invariant
            span.wf(line@.len()),
            span.start <= i <= span.end,
            r@ == line@.subrange(span.start as int, i as int),
        decreases span.end - i,
    {
        r.push(line[i]);
        i += 1;
        proof {
            assert(r@ =~= line@.subrange(span.start as int, i as int));
        }
    }
    r
}

fn op_token(op: Op) -> (r: Vec<u8>)
    ensures
        r@ == op_token_spec(op),
{
    let mut r: Vec<u8> = Vec::new();
    match op {
        Op::Add => r.push(PLUS),
        Op::Sub => r.push(MINUS),
        Op::Mul => r.push(STAR),
        Op::Div => r.push(SLASH),
        Op::Mod => r.push(PERCENT),
        Op::Pow => {
            r.push(STAR);
            r.push(STAR);
        },
    }
    proof {
        assert(r@ =~= op_token_spec(op));
    }
    r
}

impl Expr {
    /// The source span this node covers.
    pub open spec fn spec_span(self) -> Span {
        match self {
            Expr::Number { span } => span,
            Expr::Infix { span, .. } => span,
        }
    }

    pub fn span(&self) -> (s: Span)
        ensures
            s == self.spec_span(),
    {
        match self {
            Expr::Number { span } => *span,
            Expr::Infix { span, .. } => *span,
        }
    }

    /// Every span in the tree lies inside a line of `n` bytes.
    pub open spec fn wf(self, n: nat) -> bool
        decreases self,
    {
        match self {
            Expr::Number { span } => span.wf(n),
            Expr::Infix { span, lhs, op, rhs } => span.wf(n) && lhs.wf(n) && rhs.wf(n),
        }
    }

    /// Render the tree in postfix notation, reading literal text through the
    /// stored spans. Rendering is total on well-formed trees and its result is
    /// a function of the tree and the line alone.
    pub fn as_rpn(&self, line: &Vec<u8>) -> (r: Vec<u8>)
        requires
            self.wf(line@.len()),
        ensures
            r@ == rpn_spec(*self, line@),
        decreases *self,
    {
        match self {
            Expr::Number { span } => extract_bytes(line, *span),
            Expr::Infix { span: _, lhs, op, rhs } => {
                let mut r = lhs.as_rpn(line);
                r.push(SPACE);
                let mut rhs_part = rhs.as_rpn(line);
                r.append(&mut rhs_part);
                r.push(SPACE);
                let mut op_part = op_token(*op);
                r.append(&mut op_part);
                r
            },
        }
    }
}

} // verus!
