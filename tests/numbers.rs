use ldscript_parser::numbers::number;
use ldscript_parser::ParseError;

fn done(r: Result<(&str, u64), ParseError>) -> u64 {
    match r {
        Ok((_, v)) => v,
        Err(e) => panic!("fail: {:?}", e),
    }
}

fn fails(r: Result<(&str, u64), ParseError>) {
    assert!(r.is_err(), "should fail: {:?}", r);
}

#[test]
fn test_number() {
    assert_eq!(number("1234567890"), Ok(("", 1234567890u64)));
    assert_eq!(number("0123"), Ok(("", 83u64)));
    assert_eq!(number("0xdead"), Ok(("", 57005u64)));

    assert_eq!(number("10K"), Ok(("", 0x2800u64)));
    assert_eq!(number("012K"), Ok(("", 10_240u64)));
    assert_eq!(number("0xaK"), Ok(("", 10_240u64)));

    assert_eq!(number("10M"), Ok(("", 0xA0_0000u64)));
    assert_eq!(number("012M"), Ok(("", 10_485_760u64)));
    assert_eq!(number("0xAM"), Ok(("", 10_485_760u64)));

    assert_eq!(number("0b"), Ok(("", 0u64)));
    assert_eq!(number("0O"), Ok(("", 0u64)));
    assert_eq!(number("0d"), Ok(("", 0u64)));
    assert_eq!(number("0H"), Ok(("", 0u64)));
    assert_eq!(number("0"), Ok(("", 0u64)));
    assert_eq!(number("ah"), Ok(("", 10u64)));
}

#[test]
fn test_binary() {
    assert_eq!(done(number("0b")), 0);
    assert_eq!(done(number("1101b")), 0b1101);
    assert_eq!(done(number("1101B")), 0b1101);

    assert_eq!(
        done(number("1111111111111111111111111111111111111111111111111111111111111111b")),
        0xffffffffffffffff
    );
    fails(number("10000000000000000000000000000000000000000000000000000000000000000b"));
    assert_eq!(done(number("11111111111111111111111111111111b")), 0xffffffff);
    assert_eq!(done(number("100000000000000000000000000000000b")), 0x100000000);

    fails(number("2b"));
    fails(number("ab"));

    fails(number("1101bk"));
    fails(number("1101bm"));
    fails(number("1101Bk"));
    fails(number("1101Bm"));
}

#[test]
fn test_octal() {
    assert_eq!(done(number("0o")), 0);
    assert_eq!(done(number("123o")), 0o123);
    assert_eq!(done(number("123O")), 0o123);

    assert_eq!(done(number("0123k")), 0o123 * 1024);
    assert_eq!(done(number("0123K")), 0o123 * 1024);
    assert_eq!(done(number("0123m")), 0o123 * 1024 * 1024);
    assert_eq!(done(number("0123M")), 0o123 * 1024 * 1024);

    assert_eq!(done(number("1777777777777777777777o")), 0xffffffffffffffff);
    fails(number("2000000000000000000000o"));
    assert_eq!(done(number("37777777777o")), 0xffffffff);
    assert_eq!(done(number("40000000000o")), 0x100000000);

    fails(number("8o"));
    fails(number("ao"));

    fails(number("123ok"));
    fails(number("123om"));
    fails(number("123Ok"));
    fails(number("123Om"));
}

#[test]
fn test_decimal() {
    assert_eq!(done(number("0")), 0);
    assert_eq!(done(number("0d")), 0);
    assert_eq!(done(number("123")), 123);
    assert_eq!(done(number("123d")), 123);
    assert_eq!(done(number("123D")), 123);

    assert_eq!(done(number("123k")), 123 * 1024);
    assert_eq!(done(number("123K")), 123 * 1024);
    assert_eq!(done(number("123m")), 123 * 1024 * 1024);
    assert_eq!(done(number("123M")), 123 * 1024 * 1024);

    assert_eq!(done(number("18446744073709551615")), 0xffffffffffffffff);
    fails(number("18446744073709551616"));
    assert_eq!(done(number("4294967295")), 0xffffffff);
    assert_eq!(done(number("4294967296")), 0x100000000);

    assert_eq!(done(number("18014398509481983k")), 0xfffffffffffffc00);
    assert_eq!(done(number("17592186044415m")), 0xfffffffffff00000);

    fails(number("ad"));
    fails(number("fd"));

    fails(number("123dk"));
    fails(number("123dm"));
}

#[test]
fn test_hexadecimal() {
    assert_eq!(done(number("0h")), 0);
    assert_eq!(done(number("0x0")), 0);
    assert_eq!(done(number("0xafd")), 0xafd);
    assert_eq!(done(number("0X0")), 0x0);
    assert_eq!(done(number("0XFD")), 0xFD);
    assert_eq!(done(number("123h")), 0x123);
    assert_eq!(done(number("123H")), 0x123);

    assert_eq!(done(number("a123h")), 0xa123);
    assert_eq!(done(number("A123H")), 0xA123);

    assert_eq!(done(number("0xafdk")), 0xafd * 1024);
    assert_eq!(done(number("0xafdK")), 0xafd * 1024);
    assert_eq!(done(number("0xafdm")), 0xafd * 1024 * 1024);
    assert_eq!(done(number("0xafdM")), 0xafd * 1024 * 1024);

    assert_eq!(done(number("0xffffffffffffffff")), 0xffffffffffffffff);
    fails(number("0x10000000000000000"));
    assert_eq!(done(number("0xffffffff")), 0xffffffff);
    assert_eq!(done(number("0x100000000")), 0x100000000);

    assert_eq!(done(number("0x3fffffffffffffk")), 0xfffffffffffffc00);
    assert_eq!(done(number("0xfffffffffffm")), 0xfffffffffff00000);

    fails(number("123hk"));
    fails(number("123hm"));
    fails(number("123HK"));
    fails(number("123HM"));
    fails(number("0x123h"));
}

#[test]
fn numeric_literal_table() {
    assert_eq!(number("0"), Ok(("", 0)));
    assert_eq!(number("0123"), Ok(("", 83)));
    assert_eq!(number("0xdead"), Ok(("", 57005)));
    assert_eq!(number("10K"), Ok(("", 10240)));
    assert_eq!(number("10M"), Ok(("", 10485760)));
    assert_eq!(number("1101b"), Ok(("", 13)));
    assert_eq!(number("123o"), Ok(("", 83)));
    assert_eq!(number("0h"), Ok(("", 0)));
    assert_eq!(number("18446744073709551615"), Ok(("", u64::MAX)));
    fails(number("18446744073709551616"));
    fails(number("2b"));
    fails(number("1101bk"));
}

#[test]
fn prefixed_hex_committed_failures() {
    // Once the hexadecimal digits are read, overflow and a trailing letter
    // or digit are committed failures; the suffixed form fails softly.
    assert_eq!(number("0x10000000000000000"), Err(ParseError::Fatal));
    assert_eq!(number("0x123h"), Err(ParseError::Fatal));
    assert_eq!(number("0x4000000000000000K"), Err(ParseError::Fatal));
    assert_eq!(number("2b"), Err(ParseError::Mismatch));
    assert_eq!(number("x"), Err(ParseError::Mismatch));
    assert_eq!(number("0x10K rest"), Ok((" rest", 0x4000)));
    assert_eq!(number("0xg"), Ok(("xg", 0)));
}

#[test]
fn scaled_overflow_fails() {
    fails(number("18014398509481984k"));
    fails(number("17592186044416m"));
}
