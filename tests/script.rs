use ldscript_parser::script;
use ldscript_parser::{parse, Command, Expression, Region, RootItem, SectionCommand, Statement};

const MEMORY_SCRIPT: &str = r"
        MEMORY
            {
                rom (rx)  : ORIGIN = 0, LENGTH = 256K
                ram (!rx) : org = 0x40000000, l = 4M
            }
        ";

#[test]
fn test_memory() {
    match script::parse(MEMORY_SCRIPT) {
        Ok(("", items)) => assert_eq!(items.len(), 1),
        r => panic!("fail: {:?}", r),
    }
}

#[test]
fn test_empty() {
    assert_eq!(script::parse("").unwrap().1.len(), 0);
    assert_eq!(script::parse("                               ").unwrap().1.len(), 0);
    assert_eq!(script::parse("      /* hello */              ").unwrap().1.len(), 0);
}

#[test]
fn memory_regions() {
    assert_eq!(
        parse(MEMORY_SCRIPT),
        Ok(vec![RootItem::Memory {
            regions: vec![
                Region { name: "rom".into(), origin: 0, length: 256 * 1024 },
                Region { name: "ram".into(), origin: 0x40000000, length: 4 * 1024 * 1024 },
            ]
        }])
    );
}

const FULL_SCRIPT: &str = r#"
/* Linker script for a small microcontroller */
OUTPUT_FORMAT("elf32-littlearm")
ENTRY(Reset_Handler)
INCLUDE common.ld

_estack = ORIGIN(RAM) + LENGTH(RAM);
_Min_Heap_Size = 0x200 ;
PROVIDE(_stack = _estack);

MEMORY
{
  FLASH (rx) : ORIGIN = 0x08000000, LENGTH = 64K
  RAM (xrw)  : ORIGIN = 0x20000000 + 8K - 4K, LENGTH = 640K - 8K + 4K
}

SECTIONS
{
  .isr_vector :
  {
    . = ALIGN(4);
    KEEP(*(.isr_vector))
    . = ALIGN(4);
  } >FLASH

  .text :
  {
    *(.text)
    *(.text*)
    KEEP (*(.init))
    *(EXCLUDE_FILE (*crtend.o *otherfile.o) .ctors)
    SORT(CONSTRUCTORS)
    LONG((__CTOR_END__ - __CTOR_LIST__) / 4 - 2)
    _etext = .;
  } >FLASH

  .data : AT(_etext)
  {
    _sdata = .;
    *(.data*)
    FILL(0xff);
    _edata = .;
  } >RAM AT> FLASH

  .bss (NOLOAD) :
  {
    *(.bss*)
    *(COMMON)
  } > RAM

  /DISCARD/ : { *(.note.GNU-stack) }
  ASSERT(SIZEOF(.bss) < 0x1000, "bss too large")
}
INSERT AFTER .text;
"#;

#[test]
fn full_script() {
    let items = parse(FULL_SCRIPT).unwrap();
    assert_eq!(items.len(), 9);
    assert_eq!(
        items[1],
        RootItem::Command(Command::Call {
            name: "ENTRY".into(),
            arguments: vec![Expression::Ident("Reset_Handler".into())],
        })
    );
    assert_eq!(items[2], RootItem::Command(Command::Include { file: "common.ld".into() }));
    match &items[5] {
        RootItem::Statement(Statement::Provide { name, .. }) => assert_eq!(name, "_stack"),
        other => panic!("not PROVIDE: {:?}", other),
    }
    match &items[6] {
        RootItem::Memory { regions } => {
            assert_eq!(regions[1], Region { name: "RAM".into(), origin: 0x20001000, length: 636 * 1024 });
        }
        other => panic!("not MEMORY: {:?}", other),
    }
    match &items[7] {
        RootItem::Sections { list } => {
            assert_eq!(list.len(), 6);
            match &list[2] {
                SectionCommand::OutputSection { name, lma_address, region, lma_region, content, .. } => {
                    assert_eq!(name, ".data");
                    assert_eq!(lma_address, &Some(Box::new(Expression::Ident("_etext".into()))));
                    assert_eq!(region, &Some("RAM".into()));
                    assert_eq!(lma_region, &Some("FLASH".into()));
                    assert_eq!(content.len(), 4);
                }
                other => panic!("not an output section: {:?}", other),
            }
        }
        other => panic!("not SECTIONS: {:?}", other),
    }
}

#[test]
fn whole_text_must_be_consumed() {
    assert!(parse("a = 1; )").is_err());
    assert!(parse("MEMORY { }").is_err());
    assert!(parse("a = 1; b = 2").is_err());
    assert_eq!(
        parse("a = 1; %%"),
        Err("Parsing failed, unparsed text: %%".to_string())
    );
    assert_eq!(script::parse("a = 1; %%").unwrap().0, "%%");
    assert_eq!(parse(""), Ok(vec![]));
    assert_eq!(parse("  /* only a comment */ "), Ok(vec![]));
    assert_eq!(parse(FULL_SCRIPT).map(|v| v.len()), Ok(9));
    let mut broken = FULL_SCRIPT.to_string();
    broken.push_str(" SECTIONS {");
    assert!(parse(&broken).is_err());
}

#[test]
fn blanks_and_comments_between_tokens() {
    let tight = parse("a=b+1;PROVIDE(c=d);SECTIONS{.t:{*(.t)}}").unwrap();
    let loose = parse(" a /*x*/ = b + 1 ;\n PROVIDE ( c = d ) ;\n SECTIONS { .t : { * ( .t ) } } /* end */ ").unwrap();
    assert_eq!(tight, loose);
}
