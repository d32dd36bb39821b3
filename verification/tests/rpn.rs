use dogwood::Expr;
use dogwood::Op;
use dogwood::Span;

fn num(start: usize, end: usize) -> Expr {
    Expr::Number { span: Span { start, end } }
}

fn infix(start: usize, end: usize, lhs: Expr, op: Op, rhs: Expr) -> Expr {
    Expr::Infix { span: Span { start, end }, lhs: Box::new(lhs), op, rhs: Box::new(rhs) }
}

#[test]
fn renders_all_operator_tokens() {
    let line = b"8 9".to_vec();
    let cases = [
        (Op::Add, b"8 9 +".to_vec()),
        (Op::Sub, b"8 9 -".to_vec()),
        (Op::Mul, b"8 9 *".to_vec()),
        (Op::Div, b"8 9 /".to_vec()),
        (Op::Mod, b"8 9 %".to_vec()),
        (Op::Pow, b"8 9 **".to_vec()),
    ];
    for (op, expected) in cases {
        let e = infix(0, 3, num(0, 1), op, num(2, 3));
        assert_eq!(e.as_rpn(&line), expected);
    }
}

#[test]
fn post_order_traversal() {
    let line = b"3 + 5 ** 3 ** 3".to_vec();
    let e = infix(
        0,
        15,
        num(0, 1),
        Op::Add,
        infix(4, 15, num(4, 5), Op::Pow, infix(9, 15, num(9, 10), Op::Pow, num(14, 15))),
    );
    assert_eq!(e.as_rpn(&line), b"3 5 3 3 ** ** +".to_vec());
}

#[test]
fn re_rendering_is_deterministic() {
    let line = b"1 + 1".to_vec();
    let e = infix(0, 5, num(0, 1), Op::Add, num(4, 5));
    let first = e.as_rpn(&line);
    let second = e.as_rpn(&line);
    assert_eq!(first, second);
    assert_eq!(first, b"1 1 +".to_vec());
}

#[test]
fn rendering_ignores_interior_spans() {
    let line = b"1 + 1".to_vec();
    let a = infix(0, 5, num(0, 1), Op::Add, num(4, 5));
    let b = infix(1, 4, num(0, 1), Op::Add, num(4, 5));
    assert_eq!(a.as_rpn(&line), b.as_rpn(&line));
}
