use ldscript_parser::memory::region;
use ldscript_parser::{ParseError, Region};

fn done(r: Result<(&str, Region), ParseError>) -> Region {
    match r {
        Ok((_, v)) => v,
        Err(e) => panic!("fail: {:?}", e),
    }
}

#[test]
fn test_region() {
    assert_eq!(
        done(region("rom (rx)  : ORIGIN = 0, LENGTH = 256K")),
        Region { name: "rom".into(), origin: 0, length: 256 * 1024 }
    );
    assert_eq!(
        done(region("ram (!rx) : org = 0x40000000, l = 4M")),
        Region { name: "ram".into(), origin: 0x40000000, length: 4 * 1024 * 1024 }
    );
}

#[test]
fn test_region_expr() {
    assert_eq!(
        done(region("FLASH : ORIGIN = 0x08000000, LENGTH = 8K")),
        Region { name: "FLASH".into(), origin: 0x08000000, length: 8 * 1024 }
    );
    assert_eq!(
        done(region("RAM : ORIGIN = 0x20000000 + 8K, LENGTH = 640K")),
        Region { name: "RAM".into(), origin: 0x20000000 + 8 * 1024, length: 640 * 1024 }
    );
    assert_eq!(
        done(region("RAM : ORIGIN = 0x20000000, LENGTH = 640K - 8K")),
        Region { name: "RAM".into(), origin: 0x20000000, length: 640 * 1024 - 8 * 1024 }
    );
    assert_eq!(
        done(region("RAM : ORIGIN = 0x20000000 + 8K - 4K, LENGTH = 640K - 8K + 4K")),
        Region { name: "RAM".into(), origin: 0x20000000 + 4 * 1024, length: 640 * 1024 - 4 * 1024 }
    );
    assert_eq!(
        done(region("RAM: ORIGIN = 0x20000000 + 8K - 4K, LENGTH = 640K - 8K + 4K")),
        Region { name: "RAM".into(), origin: 0x20000000 + 4 * 1024, length: 640 * 1024 - 4 * 1024 }
    );
}

#[test]
fn region_scenario() {
    assert_eq!(
        region("rom (rx) : ORIGIN = 0, LENGTH = 256K"),
        Ok(("", Region { name: "rom".into(), origin: 0, length: 262144 }))
    );
    assert_eq!(
        region("RAM : ORIGIN = 0x20000000 + 8K - 4K, LENGTH = 640K - 8K + 4K"),
        Ok(("", Region { name: "RAM".into(), origin: 0x20001000, length: 651264 }))
    );
}

#[test]
fn region_bounds_must_evaluate() {
    assert_eq!(region("r : ORIGIN = start, LENGTH = 1"), Err(ParseError::Mismatch));
    assert_eq!(region("r : ORIGIN = 0, LENGTH = 4 / 0"), Err(ParseError::Mismatch));
    assert_eq!(region("r : o = 0x1h, l = 1"), Err(ParseError::Fatal));
    assert_eq!(region("r : ORIGIN = 0 LENGTH = 1"), Err(ParseError::Mismatch));
}
