use ldscript_parser::idents::{pattern, string, symbol};
use ldscript_parser::ParseError;

fn done<'a>(r: Result<(&'a str, &'a str), ParseError>) -> &'a str {
    match r {
        Ok((_, v)) => v,
        Err(e) => panic!("fail: {:?}", e),
    }
}

#[test]
fn idents_test_symbol() {
    assert_eq!(done(symbol(".0")), ".0");
    assert_eq!(done(symbol(".text")), ".text");
    assert_eq!(done(symbol("a-b")), "a-b");
    assert_eq!(
        done(symbol("\"spaces are ok, just quote the identifier\"")),
        "spaces are ok, just quote the identifier"
    );
}

#[test]
fn idents_test_pattern() {
    assert_eq!(done(pattern("0")), "0");
    assert_eq!(done(pattern(".text")), ".text");
    assert_eq!(done(pattern("hello*.o")), "hello*.o");
    assert_eq!(
        done(pattern("\"spaces are ok, just quote the identifier\"")),
        "spaces are ok, just quote the identifier"
    );
    assert_eq!(
        done(pattern("this+is-another*crazy[example]")),
        "this+is-another*crazy[example]"
    );
}

#[test]
fn test_symbol_name() {
    assert_eq!(symbol("."), Ok(("", ".")));
    assert_eq!(symbol("A6*"), Ok(("*", "A6")));
    assert_eq!(symbol(".a_b-c.0 "), Ok((" ", ".a_b-c.0")));
    assert!(symbol("-").is_err());
    assert!(symbol("5").is_err());
    assert_eq!(symbol("\"5\""), Ok(("", "5")));
    assert_eq!(pattern("*crtbegin*.o "), Ok((" ", "*crtbegin*.o")));
}

#[test]
fn strings_are_verbatim() {
    assert_eq!(string("\"a \\n b\" rest"), Ok((" rest", "a \\n b")));
    assert_eq!(string("\"unterminated"), Err(ParseError::Mismatch));
    assert_eq!(string("plain"), Err(ParseError::Mismatch));
}

#[test]
fn unicode_letters_in_names() {
    // Letters and digits are those of Unicode.
    assert_eq!(symbol("été+"), Ok(("+", "été")));
    assert_eq!(symbol("ß1"), Ok(("", "ß1")));
    assert!(symbol("1a").is_err());
    assert!(symbol("+a").is_err());
    assert_eq!(pattern("λ*.o)"), Ok((")", "λ*.o")));
    assert!(pattern("(x").is_err());
}
