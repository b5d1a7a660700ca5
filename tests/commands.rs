use ldscript_parser::commands::command;
use ldscript_parser::{Command, Expression, InsertOrder, ParseError};

fn done(r: Result<(&str, Command), ParseError>) -> Command {
    match r {
        Ok((_, v)) => v,
        Err(e) => panic!("fail: {:?}", e),
    }
}

fn fails(r: Result<(&str, Command), ParseError>) {
    assert!(r.is_err(), "should fail: {:?}", r);
}

#[test]
fn commands_test_command() {
    done(command("OUTPUT_ARCH ( 0 ) ;"));
    done(command("OUTPUT_ARCH ( 0 )"));
    done(command("OUTPUT_ARCH ( 0 1 2 )"));
    done(command("OUTPUT_ARCH ( 0, 1 2 )"));
    done(command("OUTPUT_ARCH ( 0, 1, 2 )"));

    fails(command("OUTPUT_ARCH ( 0, 1, 2, )"));
    fails(command("OUTPUT_ARCH ( )"));

    done(command("INCLUDE abc.h ;"));
    done(command("INCLUDE\tabc.h"));

    done(command("INSERT BEFORE .text  ;"));
    done(command("INSERT  AFTER  .text"));
}

#[test]
fn command_values() {
    assert_eq!(
        command("OUTPUT_ARCH ( 0, 1 2 )"),
        Ok((
            "",
            Command::Call {
                name: "OUTPUT_ARCH".into(),
                arguments: vec![Expression::Number(0), Expression::Number(1), Expression::Number(2)],
            }
        ))
    );
    assert_eq!(command("INCLUDE abc.h ;"), Ok(("", Command::Include { file: "abc.h".into() })));
    assert_eq!(
        command("INSERT  AFTER  .text"),
        Ok(("", Command::Insert { order: InsertOrder::After, section: ".text".into() }))
    );
    assert_eq!(
        command("INSERT BEFORE .data;"),
        Ok(("", Command::Insert { order: InsertOrder::Before, section: ".data".into() }))
    );
    // INCLUDE needs blanks before the file name.
    fails(command("INCLUDEabc.h"));
    assert_eq!(command("ENTRY(0x1h)"), Err(ParseError::Fatal));
}
