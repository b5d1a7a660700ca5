use ldscript_parser::sections::{
    input_osc, output_sc, output_section_command, section_command, section_pattern, statement_osc,
};
use ldscript_parser::{
    DataType, Expression, OutputSectionCommand, OutputSectionConstraint, OutputSectionType, ParseError,
    SectionCommand, SectionPattern, Statement,
};

fn ok<T: std::fmt::Debug>(r: Result<(&str, T), ParseError>) -> T {
    match r {
        Ok((_, v)) => v,
        Err(e) => panic!("fail: {:?}", e),
    }
}

fn fails<T: std::fmt::Debug>(r: Result<(&str, T), ParseError>) {
    assert!(r.is_err(), "should fail: {:?}", r);
}

fn simple(t: &str) -> SectionPattern {
    SectionPattern::Simple(t.into())
}

#[test]
fn sections_test_section_command() {
    fails(section_pattern("EXCLUDE_FILE (*a)"));
    fails(input_osc("EXCLUDE_FILE (*a)"));
    ok(section_pattern("EXCLUDE_FILE ( *a *b ) .c"));
    ok(input_osc("EXCLUDE_FILE ( *a *b ) *c"));

    fails(input_osc("EXCLUDE_FILE ( EXCLUDE_FILE ( *a *b ) *c ) .d"));
    ok(input_osc("EXCLUDE_FILE ( *a ) *b ( .c )"));
    ok(input_osc("EXCLUDE_FILE ( *a ) *b ( .c .d )"));
    ok(input_osc("EXCLUDE_FILE ( *a ) *b ( .c EXCLUDE_FILE ( *a ) .d )"));

    ok(output_section_command("[A-Z]*(.data)"));
    ok(output_section_command("LONG((__CTOR_END__ - __CTOR_LIST__) / 4 - 2)"));
    ok(output_section_command("EXCLUDE_FILE (*crtend.o *otherfile.o) *(.ctors)"));
    ok(output_section_command("*(EXCLUDE_FILE (*crtend.o *otherfile.o) .ctors)"));
    ok(output_section_command("*(EXCLUDE_FILE (*a) .text EXCLUDE_FILE (*b) .c)"));
    ok(output_section_command("KEEP(SORT_BY_NAME(*)(.ctors))"));
    ok(output_section_command("PROVIDE (__init_array_end = .);"));
    ok(output_section_command("LONG(0);"));
    ok(output_section_command("SORT(CONSTRUCTORS)"));
    ok(output_section_command("*"));

    ok(statement_osc("ASSERT(SIZEOF(.upper)==0,\"Test\");"));
    ok(output_section_command("ASSERT(SIZEOF(.upper)==0,\"Test\");"));
    ok(output_section_command("FILL(0xff);"));

    ok(output_sc("/DISCARD/ : { *(.note.GNU-stack) }"));
    ok(output_sc(".DATA : { [A-Z]*(.data) }"));
    ok(output_sc(".infoD     : {} > INFOD"));

    ok(output_sc(".a:{*(.b .c)*(.d .e)}"));
}

#[test]
fn section_pattern_nesting() {
    assert_eq!(
        input_osc("EXCLUDE_FILE ( *a ) *b ( .c EXCLUDE_FILE ( *a ) .d )"),
        Ok((
            "",
            OutputSectionCommand::InputSection {
                file: SectionPattern::ExcludeFile { files: vec!["*a".into()], pattern: Box::new(simple("*b")) },
                sections: vec![
                    simple(".c"),
                    SectionPattern::ExcludeFile { files: vec!["*a".into()], pattern: Box::new(simple(".d")) },
                ],
            }
        ))
    );
    assert_eq!(section_pattern("EXCLUDE_FILE (*a)"), Err(ParseError::Fatal));
    assert_eq!(
        section_pattern("EXCLUDE_FILE ( EXCLUDE_FILE ( *a *b ) *c ) .d"),
        Err(ParseError::Fatal)
    );
}

#[test]
fn sort_wrappers() {
    assert_eq!(section_pattern("SORT(.text*)"), Ok(("", SectionPattern::SortByName(".text*".into()))));
    assert_eq!(section_pattern("SORT_BY_NAME ( a )"), Ok(("", SectionPattern::SortByName("a".into()))));
    assert_eq!(section_pattern("SORT_BY_ALIGNMENT(a)"), Ok(("", SectionPattern::SortByAlignment("a".into()))));
    assert_eq!(
        section_pattern("SORT_BY_INIT_PRIORITY(a)"),
        Ok(("", SectionPattern::SortByInitPriority("a".into())))
    );
    assert_eq!(section_pattern("SORT_NONE(a)"), Ok(("", SectionPattern::SortNone("a".into()))));
    // A sort keyword commits to the wrapped form.
    assert_eq!(section_pattern("SORT"), Err(ParseError::Fatal));
    assert_eq!(section_pattern("SORT(a"), Err(ParseError::Fatal));
}

#[test]
fn keep_and_data() {
    assert_eq!(
        output_section_command("KEEP(SORT_BY_NAME(*)(.ctors))"),
        Ok((
            "",
            OutputSectionCommand::KeepInputSection {
                file: SectionPattern::SortByName("*".into()),
                sections: vec![simple(".ctors")],
            }
        ))
    );
    assert_eq!(
        output_section_command("QUAD(1)"),
        Ok(("", OutputSectionCommand::Data { d_type: DataType::Quad, value: Box::new(Expression::Number(1)) }))
    );
    assert_eq!(
        output_section_command("BYTE ( 2 ) ;"),
        Ok(("", OutputSectionCommand::Data { d_type: DataType::Byte, value: Box::new(Expression::Number(2)) }))
    );
    assert_eq!(
        output_section_command("FILL(0xff);"),
        Ok(("", OutputSectionCommand::Fill { expr: Box::new(Expression::Number(0xff)) }))
    );
    assert_eq!(
        output_section_command("*.o"),
        Ok(("", OutputSectionCommand::InputSection { file: simple("*.o"), sections: vec![] }))
    );
}

#[test]
fn output_section_header() {
    let got = ok(output_sc(
        ".data 0x100 (NOLOAD) : AT(0x200) ALIGN(4) ALIGN_WITH_INPUT SUBALIGN(8) ONLY_IF_RW { *(.data) } > RAM AT> ROM = 0xff,",
    ));
    assert_eq!(
        got,
        SectionCommand::OutputSection {
            name: ".data".into(),
            vma_address: Some(Box::new(Expression::Number(0x100))),
            s_type: Some(OutputSectionType::NoLoad),
            lma_address: Some(Box::new(Expression::Number(0x200))),
            section_align: Some(Box::new(Expression::Number(4))),
            align_with_input: true,
            subsection_align: Some(Box::new(Expression::Number(8))),
            constraint: Some(OutputSectionConstraint::OnlyIfRw),
            content: vec![OutputSectionCommand::InputSection { file: simple("*"), sections: vec![simple(".data")] }],
            region: Some("RAM".into()),
            lma_region: Some("ROM".into()),
            fillexp: Some(Box::new(Expression::Number(0xff))),
        }
    );
    // A type tag before the address takes precedence.
    match ok(output_sc(".bss (DSECT) 0 (COPY) : {}")) {
        SectionCommand::OutputSection { s_type, vma_address, .. } => {
            assert_eq!(s_type, Some(OutputSectionType::DSect));
            assert_eq!(vma_address, Some(Box::new(Expression::Number(0))));
        }
        other => panic!("not an output section: {:?}", other),
    }
    match ok(output_sc(".ro 0 (INFO) : { } >FLASH")) {
        SectionCommand::OutputSection { s_type, region, constraint, align_with_input, .. } => {
            assert_eq!(s_type, Some(OutputSectionType::Info));
            assert_eq!(region, Some("FLASH".into()));
            assert_eq!(constraint, None);
            assert!(!align_with_input);
        }
        other => panic!("not an output section: {:?}", other),
    }
    fails(output_sc(".text { }"));
    fails(output_sc(".text : { "));
}

#[test]
fn section_command_kinds() {
    assert_eq!(
        section_command(". = ALIGN(4);"),
        Ok((
            "",
            SectionCommand::Statement(Statement::Assign {
                name: ".".into(),
                operator: ldscript_parser::AssignOperator::Equals,
                expression: Box::new(Expression::Call {
                    function: "ALIGN".into(),
                    arguments: vec![Expression::Number(4)],
                }),
            })
        ))
    );
    match ok(section_command("ENTRY(start)")) {
        SectionCommand::Command(_) => {}
        other => panic!("not a command: {:?}", other),
    }
    match ok(section_command(".text : { *(.text*) }")) {
        SectionCommand::OutputSection { name, .. } => assert_eq!(name, ".text"),
        other => panic!("not an output section: {:?}", other),
    }
}
