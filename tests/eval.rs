use ldscript_parser::eval::evaluate_expression;
use ldscript_parser::expressions::expression;
use ldscript_parser::{BinaryOperator, Expression};
use BinaryOperator::{Divide, Minus, Multiply, Plus, Remainder};

fn op(l: u64, operator: BinaryOperator, r: u64) -> Expression {
    Expression::BinaryOp {
        left: Box::new(Expression::Number(l)),
        operator,
        right: Box::new(Expression::Number(r)),
    }
}

#[test]
fn test_evaluate_expression() {
    assert_eq!(evaluate_expression(Expression::Number(42)), Ok(42));
    assert_eq!(evaluate_expression(op(42, Plus, 42)), Ok(84));
    assert_eq!(evaluate_expression(op(42, Minus, 42)), Ok(0));
    assert_eq!(evaluate_expression(op(42, Multiply, 42)), Ok(1764));
    assert_eq!(evaluate_expression(op(42, Divide, 42)), Ok(1));
}

fn expr_result(input: &str, expected: u64) {
    let (_, e) = expression(input).unwrap();
    assert_eq!(evaluate_expression(e), Ok(expected));
}

#[test]
fn test_parsed_expressions() {
    expr_result("42 - (20 + 21)", 1);
    expr_result("42 - (4 * 8)", 10);
    expr_result("42", 42);
    expr_result("42 + 42", 84);
    expr_result("42 - 42", 0);
    expr_result("42 * 42", 1764);
    expr_result("42 / 42", 1);
    expr_result("0x2000000 + (4k * 4)", 0x2000000 + (4 * 1024 * 4));
}

#[test]
fn wrapping_and_unsupported() {
    assert_eq!(evaluate_expression(op(0, Minus, 1)), Ok(u64::MAX));
    assert_eq!(evaluate_expression(op(u64::MAX, Plus, 2)), Ok(1));
    assert_eq!(evaluate_expression(op(1 << 63, Multiply, 2)), Ok(0));
    assert_eq!(evaluate_expression(op(7, Divide, 2)), Ok(3));
    assert!(evaluate_expression(op(7, Divide, 0)).is_err());
    assert!(evaluate_expression(op(7, Remainder, 2)).is_err());
    assert!(evaluate_expression(Expression::Ident("a".into())).is_err());
    let (_, e) = expression("-1").unwrap();
    assert!(evaluate_expression(e).is_err());
}
