use ldscript_parser::statements::statement;
use ldscript_parser::{AssignOperator, BinaryOperator, Expression, ParseError, Statement};

fn done(r: Result<(&str, Statement), ParseError>) -> Statement {
    match r {
        Ok((_, v)) => v,
        Err(e) => panic!("fail: {:?}", e),
    }
}

#[test]
fn statements_test_statement() {
    assert_eq!(
        done(statement("A = 11 ;")),
        Statement::Assign {
            name: "A".into(),
            operator: AssignOperator::Equals,
            expression: Box::new(Expression::Number(11)),
        }
    );
    assert_eq!(
        done(statement("PROVIDE ( x = x ) ;")),
        Statement::Provide {
            name: "x".into(),
            expression: Box::new(Expression::Ident("x".into())),
        }
    );
    done(statement("PROBLEM += HELLO ( WORLD , 0 ) + 1 ;"));
}

#[test]
fn assignment_operators() {
    let cases = [
        ("a = 1;", AssignOperator::Equals),
        ("a += 1;", AssignOperator::Plus),
        ("a -= 1;", AssignOperator::Minus),
        ("a *= 1;", AssignOperator::Multiply),
        ("a /= 1;", AssignOperator::Divide),
        ("a <<= 1;", AssignOperator::ShiftLeft),
        ("a >>= 1;", AssignOperator::ShiftRight),
        ("a &= 1;", AssignOperator::And),
        ("a |= 1;", AssignOperator::Or),
    ];
    for (text, op) in cases {
        assert_eq!(
            statement(text),
            Ok(("", Statement::Assign { name: "a".into(), operator: op, expression: Box::new(Expression::Number(1)) }))
        );
    }
    // The `;` is required after an assignment.
    assert!(statement("a = 1").is_err());
}

#[test]
fn keyword_assignments() {
    assert_eq!(
        statement("PROVIDE_HIDDEN(x = 1);"),
        Ok(("", Statement::ProvideHidden { name: "x".into(), expression: Box::new(Expression::Number(1)) }))
    );
    assert_eq!(
        statement("HIDDEN ( y = . ) ;"),
        Ok(("", Statement::Hidden { name: "y".into(), expression: Box::new(Expression::Ident(".".into())) }))
    );
    assert_eq!(
        statement("ASSERT(SIZEOF(.upper)==0,\"Test\") rest"),
        Ok((
            "rest",
            Statement::Assert {
                expr: Box::new(Expression::BinaryOp {
                    left: Box::new(Expression::Call {
                        function: "SIZEOF".into(),
                        arguments: vec![Expression::Ident(".upper".into())],
                    }),
                    operator: BinaryOperator::Equals,
                    right: Box::new(Expression::Number(0)),
                }),
                text: "Test".into(),
            }
        ))
    );
    assert_eq!(statement("PROVIDE (x = 0x1h);"), Err(ParseError::Fatal));
}
