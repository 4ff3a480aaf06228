use soft65c02::{
    BooleanExpression, CliCommand, CliCommandParser, ControllableFunction, LoadTarget, MemoryCommand, ParserContext,
    RegisterCommand, RegisterSource, RunAddress, Source, SymbolTable,
};

fn create_test_context<'a>() -> ParserContext<'a> {
    ParserContext::new(None)
}

#[test]
fn test_memory_load_target_parsing() {
    let command = CliCommandParser::from("memory load atari \"test.com\"").unwrap();
    assert!(matches!(command, CliCommand::Memory(MemoryCommand::LoadTarget { target: LoadTarget::Atari, filepath }) if filepath == "test.com"));

    let command = CliCommandParser::from("memory load apple \"test.as\"").unwrap();
    assert!(matches!(command, CliCommand::Memory(MemoryCommand::LoadTarget { target: LoadTarget::Apple, filepath }) if filepath == "test.as"));

    // invalid targets are rejected
    assert!(CliCommandParser::from("memory load invalid_target \"test.txt\"").is_err());
}

#[test]
fn test_target_name_validation() {
    assert!(CliCommandParser::from("memory load atari \"f\"").is_ok());
    assert!(CliCommandParser::from("memory load apple \"f\"").is_ok());
    assert!(CliCommandParser::from("memory load invalid_target \"f\"").is_err());
}

#[test]
fn test_memory_load_with_hyphenated_path() {
    let command = CliCommandParser::from("memory load atari \"path/with-hyphen/test.bin\"").unwrap();
    assert!(matches!(command, CliCommand::Memory(MemoryCommand::LoadTarget { target: LoadTarget::Atari, filepath }) if filepath == "path/with-hyphen/test.bin"));

    let command = CliCommandParser::from("memory load #0x1234 \"another-path/test.bin\"").unwrap();
    assert!(matches!(command, CliCommand::Memory(MemoryCommand::Load { address, filepath }) if address == 0x1234 && filepath == "another-path/test.bin"));

    let command = CliCommandParser::from("memory load #0x1234 \"${BUILD_DIR}/test-file.bin\"").unwrap();
    assert!(matches!(command, CliCommand::Memory(MemoryCommand::Load { address, filepath }) if address == 0x1234 && filepath == "${BUILD_DIR}/test-file.bin"));
}

#[test]
fn test_symbol_load_command_parsing() {
    let command = CliCommandParser::from("symbols load \"test.sym\"").unwrap();
    assert!(matches!(command, CliCommand::Memory(MemoryCommand::LoadSymbolsFile { filepath }) if filepath == "test.sym"));
}

#[test]
fn test_symbol_remove_parser() {
    let cli_command = CliCommandParser::from("symbols remove foo").unwrap();
    assert!(matches!(
        cli_command,
        CliCommand::Memory(MemoryCommand::RemoveSymbol { name })
        if name == "foo"
    ));
}

#[test]
fn test_assert_memory_sequence_invalid_source() {
    // A register cannot be compared with a sequence of bytes
    assert!(CliCommandParser::from("assert A ~ 0x(01,02) $$invalid - register with sequence$$").is_err());
    // memory addresses can
    assert!(CliCommandParser::from("assert #0x1234 ~ 0x(01,02) $$valid - memory with sequence$$").is_ok());
}

#[test]
fn test_empty_input() {
    let cli_command = CliCommandParser::from("").unwrap();
    assert!(matches!(cli_command, CliCommand::Nothing));

    let cli_command = CliCommandParser::from("      ").unwrap();
    assert!(matches!(cli_command, CliCommand::Nothing));
}

#[test]
fn test_run_cli_parser() {
    let cli_command = CliCommandParser::from("run #0x1aff until X = 0xff").unwrap();
    assert!(matches!(cli_command, CliCommand::Run(_)));
}

#[test]
fn test_assert_cli_parser() {
    let cli_command = CliCommandParser::from("assert #0x0000=0x00 $$description$$").unwrap();
    assert!(matches!(cli_command, CliCommand::Assert(_)));
}

#[test]
fn test_marker_cli_parser() {
    let cli_command = CliCommandParser::from("marker $$This is a marker.$$").unwrap();
    assert!(matches!(cli_command, CliCommand::Marker(comment) if comment == *"This is a marker."));
}

#[test]
fn test_registers_cli_parser() {
    let cli_command = CliCommandParser::from("registers flush").unwrap();
    assert!(matches!(cli_command, CliCommand::Registers(RegisterCommand::Flush)));
}

#[test]
fn test_memory_cli_flush_parser() {
    let cli_command = CliCommandParser::from("memory flush").unwrap();
    assert!(matches!(cli_command, CliCommand::Memory(MemoryCommand::Flush)));
}

#[test]
fn test_memory_write_parser() {
    let cli_command = CliCommandParser::from("memory write #0x1234 0x(12,23,34,45)").unwrap();
    assert!(matches!(
        cli_command,
        CliCommand::Memory(MemoryCommand::Write {
            address,
            bytes
        }) if address == 0x1234 && bytes == vec![0x12, 0x23, 0x34, 0x45]
    ));
}

#[test]
fn test_memory_load_parser() {
    let cli_command = CliCommandParser::from("memory load #0x1234 \"file.test\"").unwrap();
    assert!(matches!(
        cli_command,
        CliCommand::Memory(MemoryCommand::Load {
            address,
            filepath
        }) if address == 0x1234 && filepath == "file.test"
    ));
}

#[test]
fn test_code_comments() {
    let cli_command = CliCommandParser::from("// This is a comment").unwrap();
    assert!(matches!(cli_command, CliCommand::Nothing));

    let cli_command = CliCommandParser::from("; This is also a comment").unwrap();
    assert!(matches!(cli_command, CliCommand::Nothing));
}

#[test]
fn test_memory_load_parser_with_symbols() {
    let mut symbols = SymbolTable::new();
    symbols.add_symbol(0x1234, "test_var".to_string());

    let cli_command =
        CliCommandParser::from_with_context("memory write $test_var 0x(12)", ParserContext::new(Some(&symbols)))
            .unwrap();

    assert!(matches!(
        cli_command,
        CliCommand::Memory(MemoryCommand::Write {
            address,
            bytes
        }) if address == 0x1234 && bytes == vec![0x12]
    ));
}

#[test]
fn test_symbols_load_parser() {
    let cli_command = CliCommandParser::from("symbols load \"tests/symbols.txt\"").unwrap();
    assert!(matches!(cli_command, CliCommand::Memory(MemoryCommand::LoadSymbolsFile { filepath: _ })));
}

#[test]
fn test_symbols_add_parser() {
    let cli_command = CliCommandParser::from("symbols add foo=0x1234").unwrap();
    assert!(matches!(
        cli_command,
        CliCommand::Memory(MemoryCommand::AddSymbol { name, value })
        if name == "foo" && value == 0x1234
    ));
}

#[test]
fn test_disassemble_parser() {
    let cli_command = CliCommandParser::from("disassemble #0x1000 0x10").unwrap();
    assert!(matches!(cli_command, CliCommand::Disassemble { start, end } if start == 0x1000 && end == 0x100F));

    let mut symbols = SymbolTable::new();
    symbols.add_symbol(0x1234, "code_start".to_string());
    let cli_command =
        CliCommandParser::from_with_context("disassemble $code_start 0x100", ParserContext::new(Some(&symbols)))
            .unwrap();
    assert!(matches!(cli_command, CliCommand::Disassemble { start, end } if start == 0x1234 && end == 0x1333));

    let cli_command = CliCommandParser::from("disassemble #0x1000 0x1").unwrap();
    assert!(matches!(cli_command, CliCommand::Disassemble { start, end } if start == 0x1000 && end == 0x1000));

    let cli_command = CliCommandParser::from("disassemble #0x1000 0x0f").unwrap();
    assert!(matches!(cli_command, CliCommand::Disassemble { start, end } if start == 0x1000 && end == 0x100E));

    assert!(CliCommandParser::from("disassemble").is_err());
    assert!(CliCommandParser::from("disassemble #0x1000").is_err());
    assert!(CliCommandParser::from("disassemble #0xZZZZ 0x10").is_err());
    assert!(CliCommandParser::from("disassemble #0x1000 0xZZZZ").is_err());
}

#[test]
fn test_enable_disable_parser() {
    let cli_command = CliCommandParser::from("enable trace_logging").unwrap();
    assert!(matches!(cli_command, CliCommand::Enable(ControllableFunction::TraceLogging)));

    let cli_command = CliCommandParser::from("disable trace_logging").unwrap();
    assert!(matches!(cli_command, CliCommand::Disable(ControllableFunction::TraceLogging)));

    let cli_command = CliCommandParser::from("ENABLE trace_logging").unwrap();
    assert!(matches!(cli_command, CliCommand::Enable(ControllableFunction::TraceLogging)));

    let cli_command = CliCommandParser::from("DISABLE trace_logging").unwrap();
    assert!(matches!(cli_command, CliCommand::Disable(ControllableFunction::TraceLogging)));

    let cli_command = CliCommandParser::from("Enable trace_logging").unwrap();
    assert!(matches!(cli_command, CliCommand::Enable(ControllableFunction::TraceLogging)));

    assert!(CliCommandParser::from("enable").is_err());
    assert!(CliCommandParser::from("disable").is_err());
    assert!(CliCommandParser::from("enable unknown_function").is_err());
    assert!(CliCommandParser::from("disable unknown_function").is_err());
}

#[test]
fn test_parse_hex_ok() {
    let context = create_test_context();
    assert_eq!(0x02ff, context.parse_hex("02ff").unwrap());
    assert_eq!(0x0000, context.parse_hex("0000").unwrap());
    assert_eq!(0xea, context.parse_hex("ea").unwrap());
}

#[test]
fn test_parse_hex_bad() {
    let context = create_test_context();
    context.parse_hex("").expect_err("Empty string must yield an error.");
    context.parse_hex("   ").expect_err("Invisible string must yield an error.");
    context.parse_hex("xxx").expect_err("Non hexa must yield an error.");
}

#[test]
fn test_run_with_complex_conditions() {
    let test_cases = [
        ("run while (A < 0x80 AND X = 0x42)", "while with AND"),
        ("run until (A = 0x42 OR X = 0x10)", "until with OR"),
        ("run while (A = 0x42 AND X = 0x10) OR Y = 0x20", "while with AND and OR"),
        ("run until ((A = 0x42) AND (X = 0x10))", "until with nested brackets"),
    ];

    for (input, test_name) in test_cases {
        CliCommandParser::from(input)
            .unwrap_or_else(|e| panic!("Failed to parse '{}' ({}): {}", input, test_name, e.to_string()));
    }
}

#[test]
fn test_parse_hex_values() {
    let context = create_test_context();
    assert_eq!(0x0F, context.parse_hex("F").unwrap());
    assert_eq!(0xFF, context.parse_hex("FF").unwrap());
    assert_eq!(0x0FFF, context.parse_hex("FFF").unwrap());
    assert_eq!(0xFFFF, context.parse_hex("FFFF").unwrap());
}

#[test]
fn test_parse_byte_sequence() {
    let context = create_test_context();
    let result = context.parse_hex_sequence("F,FF,A").unwrap();
    assert_eq!(vec![0x0F, 0xFF, 0x0A], result);
}

#[test]
fn test_hex_byte_ordering() {
    let context = create_test_context();
    assert_eq!(0x8000, context.parse_hex("8000").unwrap(), "High byte should be preserved in first position");
    assert_eq!(0x0080, context.parse_hex("0080").unwrap(), "High byte should be preserved in second position");
    assert_eq!(0x1234, context.parse_hex("1234").unwrap(), "Bytes should be in correct order");
    assert_eq!(0x0012, context.parse_hex("0012").unwrap(), "Leading zeros should be preserved");
}

#[test]
fn conditions_follow_the_precedence_of_not_and_or() {
    let context = create_test_context();
    let e = context.parse_boolean_condition("A = 0x42 AND X < 0x10 OR Y > 0x20").unwrap();
    assert!(matches!(e, BooleanExpression::Or(ref l, _) if matches!(**l, BooleanExpression::And(_, _))));
    let e = context.parse_boolean_condition("NOT (A = 0x42)").unwrap();
    assert!(matches!(e, BooleanExpression::Not(_)));
    let e = context.parse_boolean_condition("A != 0xff").unwrap();
    assert!(matches!(
        e,
        BooleanExpression::Different(Source::Register(RegisterSource::Accumulator), Source::Value(0xff))
    ));
}

#[test]
fn memory_offsets_and_pointers() {
    let mut symbols = SymbolTable::new();
    symbols.add_symbol(0x1000, "array".to_string());
    symbols.add_symbol(0x0010, "ptr".to_string());
    symbols.add_symbol(0x2040, "cache".to_string());
    let command =
        CliCommandParser::from_with_context("memory fill $array + 2 ~ $array + 5 0xFF", ParserContext::new(Some(&symbols)))
            .unwrap();
    assert!(matches!(command, CliCommand::Memory(MemoryCommand::Fill { start, end, value }) if start == 0x1002 && end == 0x1005 && value == 0xFF));
    let command =
        CliCommandParser::from_with_context("assert $ptr -> $cache + 0x20 $$pointer$$", ParserContext::new(Some(&symbols)))
            .unwrap();
    match command {
        CliCommand::Assert(a) => assert!(matches!(a.condition, BooleanExpression::And(_, _))),
        _ => panic!("an assertion was expected"),
    }
}

#[test]
fn strings_with_escapes() {
    let command = CliCommandParser::from("memory write #0x1234 \"hi\\x41\\n\"").unwrap();
    assert!(matches!(command, CliCommand::Memory(MemoryCommand::Write { address, bytes }) if address == 0x1234 && bytes == vec![b'h', b'i', 0x41, 10]));
    assert!(CliCommandParser::from("memory write #0x1234 \"bad\\q\"").is_err());
}

#[test]
fn run_forms() {
    let command = CliCommandParser::from("run init").unwrap();
    assert!(matches!(command, CliCommand::Run(r) if r.start_address == Some(RunAddress::InitVector)));
    let command = CliCommandParser::from("run while X = 0x42").unwrap();
    assert!(matches!(command, CliCommand::Run(r) if matches!(r.stop_condition, BooleanExpression::Value(false))));
    let command = CliCommandParser::from("registers set A=256");
    assert!(command.is_err());
    let command = CliCommandParser::from("registers set cycle_count=256").unwrap();
    assert!(matches!(command, CliCommand::Registers(RegisterCommand::Assign { assignment }) if assignment.source == Source::Value(256)));
}

#[test]
fn zero_length_disassembly_is_refused_with_its_message() {
    let e = CliCommandParser::from("disassemble #0x1000 0x0").unwrap_err();
    assert_eq!("Length must be greater than 0", e.to_string());
    let e = CliCommandParser::from("  disassemble #0x0200 0x0000 // nothing").unwrap_err();
    assert_eq!("Length must be greater than 0", e.to_string());
}

#[test]
fn syntax_errors_quote_the_line() {
    assert_eq!(
        "cannot parse 'registers flush now': syntax error: expected the end of the line",
        CliCommandParser::from("registers flush now").unwrap_err().to_string()
    );
    assert_eq!(
        "cannot parse 'azerty': syntax error: expected a command",
        CliCommandParser::from("azerty").unwrap_err().to_string()
    );
}
