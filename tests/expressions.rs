use ldscript_parser::expressions::{expression, value};
use ldscript_parser::{BinaryOperator, Expression, ParseError, UnaryOperator};

fn done(r: Result<(&str, Expression), ParseError>) -> Expression {
    match r {
        Ok((_, v)) => v,
        Err(e) => panic!("fail: {:?}", e),
    }
}

fn ident(n: &str) -> Box<Expression> {
    Box::new(Expression::Ident(n.into()))
}

fn num(v: u64) -> Box<Expression> {
    Box::new(Expression::Number(v))
}

fn bin(l: Box<Expression>, operator: BinaryOperator, r: Box<Expression>) -> Box<Expression> {
    Box::new(Expression::BinaryOp { left: l, operator, right: r })
}

#[test]
fn expressions_test_ws() {
    let x = "a ( b ( d , ( 0 ) ) , c )";
    done(expression(x));
    let y = "a(b(d,(0)),c)";
    assert_eq!(expression(x), expression(y));
}

#[test]
fn expressions_test_expression() {
    done(expression("a ( .b ) ? c ( d ) : e"));

    assert_eq!(done(expression("A-B")), Expression::Ident("A-B".into()));

    assert_eq!(
        done(expression("A - B")),
        Expression::BinaryOp {
            left: Box::new(Expression::Ident("A".into())),
            operator: BinaryOperator::Minus,
            right: Box::new(Expression::Ident("B".into())),
        }
    );
}

#[test]
fn logic_or_parses() {
    assert_eq!(
        expression("a||b"),
        Ok(("", *bin(ident("a"), BinaryOperator::LogicOr, ident("b"))))
    );
    assert_eq!(
        expression("a && b"),
        Ok(("", *bin(ident("a"), BinaryOperator::LogicAnd, ident("b"))))
    );
}

#[test]
fn call_tree_shape() {
    assert_eq!(
        done(expression("a(b(d,(0)),c)")),
        Expression::Call {
            function: "a".into(),
            arguments: vec![
                Expression::Call {
                    function: "b".into(),
                    arguments: vec![Expression::Ident("d".into()), Expression::Number(0)],
                },
                Expression::Ident("c".into()),
            ],
        }
    );
    assert_eq!(
        done(expression("f()")),
        Expression::Call { function: "f".into(), arguments: vec![] }
    );
    // A trailing comma is not part of an argument list: the call form does
    // not match and only the name is read.
    assert_eq!(expression("f(a,)"), Ok(("(a,)", Expression::Ident("f".into()))));
}

#[test]
fn ternary_branches() {
    match done(expression("a ( .b ) ? c ( d ) : e")) {
        Expression::TernaryOp { condition, left, right } => {
            assert_eq!(
                *condition,
                Expression::Call { function: "a".into(), arguments: vec![Expression::Ident(".b".into())] }
            );
            assert_eq!(
                *left,
                Expression::Call { function: "c".into(), arguments: vec![Expression::Ident("d".into())] }
            );
            assert_eq!(*right, Expression::Ident("e".into()));
        }
        other => panic!("not a ternary: {:?}", other),
    }
    // The false branch is a full expression, so ternaries nest to the right.
    assert_eq!(
        done(expression("a ? b : c ? d : e")),
        Expression::TernaryOp {
            condition: ident("a"),
            left: ident("b"),
            right: Box::new(Expression::TernaryOp { condition: ident("c"), left: ident("d"), right: ident("e") }),
        }
    );
}

#[test]
fn precedence_and_associativity() {
    // 1 + 2 * 3 - 4  ==  (1 + (2 * 3)) - 4
    assert_eq!(
        done(expression("1 + 2 * 3 - 4")),
        *bin(bin(num(1), BinaryOperator::Plus, bin(num(2), BinaryOperator::Multiply, num(3))), BinaryOperator::Minus, num(4))
    );
    // a << 1 < b == c & d | e && f || g
    assert_eq!(
        done(expression("a << 1 < b == c & d | e && f || g")),
        *bin(
            bin(
                bin(
                    bin(
                        bin(bin(bin(ident("a"), BinaryOperator::ShiftLeft, num(1)), BinaryOperator::Lesser, ident("b")), BinaryOperator::Equals, ident("c")),
                        BinaryOperator::BitwiseAnd,
                        ident("d")
                    ),
                    BinaryOperator::BitwiseOr,
                    ident("e")
                ),
                BinaryOperator::LogicAnd,
                ident("f")
            ),
            BinaryOperator::LogicOr,
            ident("g")
        )
    );
    assert_eq!(
        done(expression("8 / 4 % 3")),
        *bin(bin(num(8), BinaryOperator::Divide, num(4)), BinaryOperator::Remainder, num(3))
    );
    assert_eq!(
        done(expression("a >= b != c <= d > e >> 2")),
        *bin(
            bin(bin(bin(ident("a"), BinaryOperator::GreaterOrEquals, ident("b")), BinaryOperator::NotEquals, ident("c")), BinaryOperator::LesserOrEquals, ident("d")),
            BinaryOperator::Greater,
            bin(ident("e"), BinaryOperator::ShiftRight, num(2))
        )
    );
}

#[test]
fn unary_chains() {
    assert_eq!(
        done(expression("- ! ~ b")),
        Expression::UnaryOp {
            operator: UnaryOperator::Minus,
            right: Box::new(Expression::UnaryOp {
                operator: UnaryOperator::LogicNot,
                right: Box::new(Expression::UnaryOp { operator: UnaryOperator::BitwiseNot, right: ident("b") }),
            }),
        }
    );
}

#[test]
fn values() {
    assert_eq!(value("(1)"), Ok(("", Expression::Number(1))));
    assert_eq!(value("a123h"), Ok(("", Expression::Number(0xa123))));
    assert_eq!(value("0x123h"), Err(ParseError::Fatal));
    assert_eq!(value("+"), Err(ParseError::Mismatch));
    assert_eq!(value("name rest"), Ok((" rest", Expression::Ident("name".into()))));
}
