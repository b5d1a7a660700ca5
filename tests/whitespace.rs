use ldscript_parser::whitespace::{comment, opt_space, space, space_or_comment};

fn is_good(c: char) -> bool {
    c.is_alphanumeric() || c == '/' || c == '*'
}

/// Splits off the longest prefix of good characters; none is a failure.
fn good_run(input: &str) -> Option<(&str, &str)> {
    let n = input.find(|c: char| !is_good(c)).unwrap_or(input.len());
    if n == 0 {
        None
    } else {
        Some((&input[n..], &input[..n]))
    }
}

#[test]
fn whitespace_test_wsc() {
    let mut input = "a /* b */ c / * d /**/ e ";
    let mut tokens = Vec::new();
    loop {
        let (rest, _) = opt_space(input).unwrap();
        match good_run(rest) {
            Some((rest, token)) => {
                tokens.push(token);
                let (rest, _) = opt_space(rest).unwrap();
                input = rest;
            }
            None => break,
        }
    }
    assert_eq!(tokens, vec!["a", "c", "/", "*", "d", "e"]);
}

#[test]
fn whitespace_test_opt_space() {
    for input in ["(  a  )", "(a)"] {
        let rest = input.strip_prefix('(').unwrap();
        let (rest, _) = opt_space(rest).unwrap();
        let (rest, token) = good_run(rest).unwrap();
        assert_eq!(token, "a");
        let (rest, _) = opt_space(rest).unwrap();
        assert_eq!(rest, ")");
    }
}

#[test]
fn comments_and_blanks() {
    assert_eq!(comment("/* x */y"), Ok(("y", " x ")));
    assert!(comment("/* open").is_err());
    assert_eq!(space_or_comment(" \t\r\n/**/"), Ok(("/**/", " \t\r\n")));
    assert_eq!(space_or_comment("/*a*/ b"), Ok((" b", "a")));
    assert_eq!(space(" /* a */ /**/\tb"), Ok(("b", " /* a */ /**/\t")));
    assert!(space("b").is_err());
    assert_eq!(opt_space("b"), Ok(("b", "")));
    assert_eq!(opt_space("  /* a"), Ok(("/* a", "  ")));
}
