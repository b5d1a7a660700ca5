//! Arithmetic over numeric literals, as used for memory-region bounds.
use vstd::prelude::*;
use vstd::string::StringExecFns;

use crate::expressions::{expr_view, BinaryOperator, Expression, SpecExpression};

verus! {

/// Value of an expression made of numeric literals and `+ - * /`: wrapping
/// (modulo 2^64) addition, subtraction and multiplication, truncating
/// division. Anything else, and a division by zero, has no value.
pub open spec fn spec_eval(e: SpecExpression) -> Option<u64>
    decreases e,
{
    match e {
        SpecExpression::Number(n) => Some(n),
        SpecExpression::BinaryOp { left, operator, right } => match (
            spec_eval(*left),
            spec_eval(*right),
        ) {
            (Some(l), Some(r)) => match operator {
                BinaryOperator::Plus => Some(l.wrapping_add(r)),
                BinaryOperator::Minus => Some(l.wrapping_sub(r)),
                BinaryOperator::Multiply => Some(l.wrapping_mul(r)),
                BinaryOperator::Divide => if r == 0 {
                    None
                } else {
                    Some(l / r)
                },
                _ => None,
            },
            _ => None,
        },
        _ => None,
    }
}

/// Evaluates an expression of numeric literals and `+ - * /`.
pub fn evaluate_expression(expr: Expression) -> (r: Result<u64, String>)
    ensures
        r is Ok <==> spec_eval(expr_view(expr)) is Some,
        r matches Ok(v) ==> spec_eval(expr_view(expr)) == Some(v),
    decreases expr,
{
    match expr {
        Expression::Number(n) => Ok(n),
        Expression::BinaryOp { left, operator, right } => {
            let l = match evaluate_expression(*left) {
                Ok(v) => v,
                Err(e) => {
                    return Err(e);
                },
            };
            let r = match evaluate_expression(*right) {
                Ok(v) => v,
                Err(e) => {
                    return Err(e);
                },
            };
            match operator {
                BinaryOperator::Plus => Ok(l.wrapping_add(r)),
                BinaryOperator::Minus => Ok(l.wrapping_sub(r)),
                BinaryOperator::Multiply => Ok(l.wrapping_mul(r)),
                BinaryOperator::Divide => if r == 0 {
                    Err(String::from_str("division by zero"))
                } else {
                    Ok(l / r)
                },
                _ => Err(String::from_str("binary operator not supported")),
            }
        },
        _ => Err(String::from_str("expression not supported")),
    }
}

} // verus!
