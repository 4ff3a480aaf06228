use soft65c02::lexer::chars_of_str;
use soft65c02::{
    AppResult, AssertCommand, BooleanExpression, CliCommand, CliCommandParser, MemoryCommand, ParserContext,
    RegisterCommand, RegisterSource, RunAddress, RunCommand, Source, SymbolTable,
};

fn setup_test_symbols() -> SymbolTable {
    let mut symbols = SymbolTable::new();
    symbols.add_symbol(0x34, "byte_var".to_string());
    symbols.add_symbol(0x1234, "word_var".to_string());
    symbols.add_symbol(0x2000, "counter".to_string());
    symbols
}

fn memory_command(input: &str, symbols: Option<&SymbolTable>) -> AppResult<MemoryCommand> {
    match CliCommandParser::from_with_context(input, ParserContext::new(symbols))? {
        CliCommand::Memory(command) => Ok(command),
        other => panic!("expected a memory command, got {other:?}"),
    }
}

fn register_command(input: &str, symbols: Option<&SymbolTable>) -> AppResult<RegisterCommand> {
    match CliCommandParser::from_with_context(input, ParserContext::new(symbols))? {
        CliCommand::Registers(command) => Ok(command),
        other => panic!("expected a register command, got {other:?}"),
    }
}

fn run_command(input: &str, symbols: Option<&SymbolTable>) -> AppResult<RunCommand> {
    match CliCommandParser::from_with_context(input, ParserContext::new(symbols))? {
        CliCommand::Run(command) => Ok(command),
        other => panic!("expected a run command, got {other:?}"),
    }
}

fn assert_command(input: &str, symbols: Option<&SymbolTable>) -> AppResult<AssertCommand> {
    match CliCommandParser::from_with_context(input, ParserContext::new(symbols))? {
        CliCommand::Assert(command) => Ok(command),
        other => panic!("expected an assert command, got {other:?}"),
    }
}

fn pointer_bytes(condition: BooleanExpression) -> (usize, usize, usize, usize) {
    if let BooleanExpression::And(low_check, high_check) = condition {
        match (*low_check, *high_check) {
            (
                BooleanExpression::Equal(Source::Memory(low_addr), Source::Value(low_val)),
                BooleanExpression::Equal(Source::Memory(high_addr), Source::Value(high_val)),
            ) => (low_addr, high_addr, low_val, high_val),
            _ => panic!("Unexpected boolean expression structure"),
        }
    } else {
        panic!("Expected And expression at top level");
    }
}

fn location(context: &ParserContext, input: &str) -> AppResult<usize> {
    let chars = chars_of_str(input);
    let (address, end) = context.parse_location(&chars, 0)?;
    assert_eq!(end, chars.len());
    Ok(address)
}

#[test]
fn test_memory_flush() {
    let command = memory_command("memory flush", None).unwrap();
    assert!(matches!(command, MemoryCommand::Flush));
}

#[test]
fn test_memory_write() {
    let command = memory_command("memory write #0x1234 0x(01,02,03)", None).unwrap();
    assert!(
        matches!(command, MemoryCommand::Write { address, bytes } if address == 0x1234 && bytes == vec![0x01, 0x02, 0x03])
    );
}

#[test]
fn test_memory_write_with_symbols() {
    let symbols = setup_test_symbols();
    let command = memory_command("memory write $word_var 0x(a9,c0)", Some(&symbols)).unwrap();
    assert!(matches!(command, MemoryCommand::Write { address, bytes } if address == 0x1234 && bytes == vec![0xa9, 0xc0]));
}

#[test]
fn test_memory_write_with_memory_location() {
    let mut symbols = setup_test_symbols();
    symbols.add_symbol(0x1000, "somewhere".to_string());
    symbols.add_symbol(0x1234, "address".to_string());
    let command = memory_command("memory write $somewhere $address", Some(&symbols)).unwrap();
    assert!(matches!(command, MemoryCommand::Write { address, bytes } if address == 0x1000 && bytes == vec![0x34, 0x12]));
}

#[test]
fn test_memory_write_with_string() {
    let command = memory_command("memory write #0x1234 \"hello\"", None).unwrap();
    assert!(matches!(command, MemoryCommand::Write { address, bytes } if address == 0x1234 && bytes == b"hello".to_vec()));
}

#[test]
fn test_memory_write_with_string_escapes() {
    let command = memory_command("memory write #0x1234 \"hello\\0\"", None).unwrap();
    assert!(matches!(command, MemoryCommand::Write { address, bytes } if address == 0x1234 && bytes == b"hello\0".to_vec()));

    let command = memory_command("memory write #0x1234 \"hello\\n\\r\\t\"", None).unwrap();
    assert!(
        matches!(command, MemoryCommand::Write { address, bytes } if address == 0x1234 && bytes == b"hello\n\r\t".to_vec())
    );

    let command = memory_command("memory write #0x1234 \"\\\"hello\\\\\"", None).unwrap();
    assert!(
        matches!(command, MemoryCommand::Write { address, bytes } if address == 0x1234 && bytes == b"\"hello\\".to_vec())
    );
}

#[test]
fn test_memory_write_with_hex_escape_sequences() {
    let command = memory_command("memory write #0x1234 \"\\xFF\\x00\\x42\"", None).unwrap();
    assert!(matches!(command, MemoryCommand::Write { address, bytes } if address == 0x1234 && bytes == vec![0xFF, 0x00, 0x42]));

    let command = memory_command("memory write #0x1234 \"hello\\x00world\\x0A\"", None).unwrap();
    let expected = b"hello\0world\x0A".to_vec();
    assert!(matches!(command, MemoryCommand::Write { address, bytes } if address == 0x1234 && bytes == expected));

    let command = memory_command("memory write #0x1234 \"\\xAB\\xcd\\x12\"", None).unwrap();
    assert!(matches!(command, MemoryCommand::Write { address, bytes } if address == 0x1234 && bytes == vec![0xAB, 0xCD, 0x12]));

    let command = memory_command("memory write #0x1234 \"data:\\x0A\\t\\xFF\\n\"", None).unwrap();
    let expected = b"data:\x0A\t\xFF\n".to_vec();
    assert!(matches!(command, MemoryCommand::Write { address, bytes } if address == 0x1234 && bytes == expected));
}

#[test]
fn test_memory_write_with_line_continuation() {
    let command = memory_command("memory write #0x1234 \"hello\\\nworld\"", None).unwrap();
    assert!(
        matches!(command, MemoryCommand::Write { address, bytes } if address == 0x1234 && bytes == b"helloworld".to_vec())
    );

    let command = memory_command("memory write #0x1000 \"+-------+\\\n| Hello |\\\n+-------+\"", None).unwrap();
    let expected = b"+-------+| Hello |+-------+".to_vec();
    assert!(matches!(command, MemoryCommand::Write { address, bytes } if address == 0x1000 && bytes == expected));

    let command = memory_command("memory write #0x2000 \"start \\\n  middle \\\n    end\"", None).unwrap();
    let expected = b"start   middle     end".to_vec();
    assert!(matches!(command, MemoryCommand::Write { address, bytes } if address == 0x2000 && bytes == expected));

    let command = memory_command("memory write #0x3000 \"line1\\\n\\ttab\\\n\\nend\"", None).unwrap();
    let expected = b"line1\ttab\nend".to_vec();
    assert!(matches!(command, MemoryCommand::Write { address, bytes } if address == 0x3000 && bytes == expected));
}

#[test]
fn test_memory_load() {
    let command = memory_command("memory load #0x1000 \"script.txt\"", None).unwrap();
    assert!(matches!(command, MemoryCommand::Load { address, filepath } if address == 0x1000 && filepath == "script.txt"));
}

#[test]
fn test_memory_load_with_symbols() {
    let symbols = setup_test_symbols();
    let command = memory_command("memory load $word_var \"script.txt\"", Some(&symbols)).unwrap();
    assert!(matches!(command, MemoryCommand::Load { address, filepath } if address == 0x1234 && filepath == "script.txt"));
}

#[test]
fn test_memory_fill() {
    let command = memory_command("memory fill #0x1000~#0x1FFF 0x42", None).unwrap();
    assert!(matches!(command, MemoryCommand::Fill { start, end, value } if start == 0x1000 && end == 0x1FFF && value == 0x42));

    let command = memory_command("memory fill #0x1000~#0x1FFF", None).unwrap();
    assert!(matches!(command, MemoryCommand::Fill { start, end, value } if start == 0x1000 && end == 0x1FFF && value == 0));

    let mut symbols = setup_test_symbols();
    symbols.add_symbol(0x1000, "array".to_string());
    let command = memory_command("memory fill $array + 2 ~ $array + 5 0xFF", Some(&symbols)).unwrap();
    assert!(matches!(command, MemoryCommand::Fill { start, end, value } if start == 0x1002 && end == 0x1005 && value == 0xFF));

    let command = memory_command("memory fill #0x1000~#0x1FFF 42", Some(&symbols)).unwrap();
    assert!(matches!(command, MemoryCommand::Fill { start, end, value } if start == 0x1000 && end == 0x1FFF && value == 42));
}

#[test]
fn test_memory_show() {
    let command = memory_command("memory show #0x1234 0x10", None).unwrap();
    assert!(matches!(command,
        MemoryCommand::Show { address, length, width, description }
        if address == 0x1234 && length == 0x10 && width.is_none() && description.is_none()));

    let mut symbols = setup_test_symbols();
    symbols.add_symbol(0x1000, "data".to_string());
    let command = memory_command("memory show $data 0x100", Some(&symbols)).unwrap();
    assert!(matches!(command,
        MemoryCommand::Show { address, length, width, description }
        if address == 0x1000 && length == 0x100 && width.is_none() && description.is_none()));

    let command = memory_command("memory show #0x1234 16", Some(&symbols)).unwrap();
    assert!(matches!(command,
        MemoryCommand::Show { address, length, width, description }
        if address == 0x1234 && length == 16 && width.is_none() && description.is_none()));

    let command = memory_command("memory show #0x1234 16 $$Stack contents$$", Some(&symbols)).unwrap();
    assert!(matches!(command,
        MemoryCommand::Show { address, length, width, description }
        if address == 0x1234 && length == 16 && width.is_none() && description.as_deref() == Some("Stack contents")));

    let command = memory_command("memory show #0x1234 16 8", Some(&symbols)).unwrap();
    assert!(matches!(command,
        MemoryCommand::Show { address, length, width, description }
        if address == 0x1234 && length == 16 && width == Some(8) && description.is_none()));

    let command = memory_command("memory show #0x1234 16 4 $$Data with custom width$$", Some(&symbols)).unwrap();
    assert!(matches!(command,
        MemoryCommand::Show { address, length, width, description }
        if address == 0x1234 && length == 16 && width == Some(4) && description.as_deref() == Some("Data with custom width")));
}

#[test]
fn test_symbol_add_with_value8() {
    let command = memory_command("symbols add foo=0x12", None).unwrap();
    assert!(matches!(command, MemoryCommand::AddSymbol { name, value } if name == "foo" && value == 0x12));
}

#[test]
fn test_symbol_add_with_value16() {
    let command = memory_command("symbols add bar=0x1234", None).unwrap();
    assert!(matches!(command, MemoryCommand::AddSymbol { name, value } if name == "bar" && value == 0x1234));
}

#[test]
fn test_symbol_add_with_reference() {
    let mut symbols = SymbolTable::new();
    symbols.add_symbol(0x12, "foo".to_string());
    let command = memory_command("symbols add baz=$foo", Some(&symbols)).unwrap();
    assert!(matches!(command, MemoryCommand::AddSymbol { name, value } if name == "baz" && value == 0x12));
}

#[test]
fn test_symbol_remove_with_existing_symbol() {
    let mut symbols = SymbolTable::new();
    symbols.add_symbol(0x1234, "foo".to_string());
    let command = memory_command("symbols remove foo", Some(&symbols)).unwrap();
    assert!(matches!(command, MemoryCommand::RemoveSymbol { name } if name == "foo"));
}

#[test]
fn test_registers_flush() {
    let command = register_command("registers flush", None).unwrap();
    assert!(matches!(command, RegisterCommand::Flush));
}

#[test]
fn test_registers_show() {
    let command = register_command("registers show", None).unwrap();
    assert!(matches!(command, RegisterCommand::Show { register: None }));
}

#[test]
fn test_registers_show_cycle_count() {
    let command = register_command("registers show cycle_count", None).unwrap();
    assert!(matches!(command, RegisterCommand::Show { register: Some(RegisterSource::CycleCount) }));
}

#[test]
fn test_registers_show_accumulator() {
    let command = register_command("registers show A", None).unwrap();
    assert!(matches!(command, RegisterCommand::Show { register: Some(RegisterSource::Accumulator) }));
}

#[test]
fn test_registers_set_value8() {
    let command = register_command("registers set A=0xc0", None).unwrap();
    assert!(matches!(command,
        RegisterCommand::Assign { assignment }
        if matches!(assignment.destination, RegisterSource::Accumulator)
        && matches!(assignment.source, Source::Value(d) if d == 0xc0)));
}

#[test]
fn test_registers_set_value8_with_symbol_value() {
    let mut symbols = SymbolTable::new();
    symbols.add_symbol(0x12, "test_var".to_string());
    let command = register_command("registers set A=$test_var", Some(&symbols)).unwrap();
    assert!(matches!(command,
        RegisterCommand::Assign { assignment }
        if matches!(assignment.destination, RegisterSource::Accumulator)
        && matches!(assignment.source, Source::Value(d) if d == 0x12)));
}

#[test]
fn test_registers_set_value8_with_symbol_value_too_large() {
    let mut symbols = SymbolTable::new();
    symbols.add_symbol(0x1234, "test_var".to_string());
    let result = register_command("registers set A=$test_var", Some(&symbols));
    assert!(result.is_err());
    assert!(result.unwrap_err().to_string().contains("too large for 8-bit register"));
}

#[test]
fn test_registers_set_value16() {
    let command = register_command("registers set CP=0xc0ff", None).unwrap();
    assert!(matches!(command,
        RegisterCommand::Assign { assignment }
        if matches!(assignment.destination, RegisterSource::CommandPointer)
        && matches!(assignment.source, Source::Value(d) if d == 0xc0ff)));
}

#[test]
fn test_registers_set_value16_with_symbol_value() {
    let mut symbols = SymbolTable::new();
    symbols.add_symbol(0x1234, "test_var".to_string());
    let command = register_command("registers set CP=$test_var", Some(&symbols)).unwrap();
    assert!(matches!(command,
        RegisterCommand::Assign { assignment }
        if matches!(assignment.destination, RegisterSource::CommandPointer)
        && matches!(assignment.source, Source::Value(0x1234))));
}

#[test]
fn test_registers_set_cycle_count() {
    let command = register_command("registers set cycle_count=0x1234", None).unwrap();
    assert!(matches!(command,
        RegisterCommand::Assign { assignment }
        if matches!(assignment.destination, RegisterSource::CycleCount)
        && matches!(assignment.source, Source::Value(0x1234))));
}

#[test]
fn test_registers_set_cycle_count_zero() {
    let command = register_command("registers set cycle_count=0x0000", None).unwrap();
    assert!(matches!(command,
        RegisterCommand::Assign { assignment }
        if matches!(assignment.destination, RegisterSource::CycleCount)
        && matches!(assignment.source, Source::Value(0))));
}

#[test]
fn test_registers_set_value8_decimal() {
    let command = register_command("registers set A=192", None).unwrap();
    assert!(matches!(command,
        RegisterCommand::Assign { assignment }
        if matches!(assignment.destination, RegisterSource::Accumulator)
        && matches!(assignment.source, Source::Value(d) if d == 0xc0)));
}

#[test]
fn test_registers_set_cycle_count_decimal() {
    let command = register_command("registers set cycle_count=256", None).unwrap();
    assert!(matches!(command,
        RegisterCommand::Assign { assignment }
        if matches!(assignment.destination, RegisterSource::CycleCount)
        && matches!(assignment.source, Source::Value(0x100))));
}

#[test]
fn test_run_with_cycle_count_decimal() {
    let command = run_command("run while cycle_count < 256", None).unwrap();
    assert!(matches!(command.stop_condition, BooleanExpression::Value(false)));
    assert!(matches!(command.continue_condition,
        BooleanExpression::StrictlyLesser(Source::Register(RegisterSource::CycleCount), Source::Value(256))));
}

#[test]
fn test_value8_decimal_too_large() {
    let result = register_command("registers set A=256", None);
    assert!(result.is_err());
    assert!(result.unwrap_err().to_string().contains("too large for 8-bit value"));
}

#[test]
fn test_registers_set_value8_single_digit_hex() {
    let command = register_command("registers set A=0xF", None).unwrap();
    assert!(matches!(command,
        RegisterCommand::Assign { assignment }
        if matches!(assignment.destination, RegisterSource::Accumulator)
        && matches!(assignment.source, Source::Value(d) if d == 0x0F)));
}

#[test]
fn test_memory_write_with_single_digit_hex() {
    let command = memory_command("memory write #0x1234 0x(F,A,C)", None).unwrap();
    assert!(matches!(command, MemoryCommand::Write { address, bytes } if address == 0x1234 && bytes == vec![0x0F, 0x0A, 0x0C]));
}

#[test]
fn test_assert_memory_sequence_single_digit_hex() {
    let command =
        assert_command("assert #0x8000 ~ 0x(1,A,F) $$check memory sequence with single digit hex$$", None).unwrap();
    assert_eq!(command.comment, "check memory sequence with single digit hex");
    match &command.condition {
        BooleanExpression::MemorySequence(source, bytes) => {
            match source {
                Source::Memory(addr) => assert_eq!(*addr, 0x8000),
                _ => panic!("Expected Source::Memory, got {:?}", source),
            }
            assert_eq!(bytes, &vec![0x01, 0x0A, 0x0F]);
        }
        _ => panic!("Expected MemorySequence, got {:?}", command.condition),
    }
}

#[test]
fn test_registers_set_value16_three_digits() {
    let command = register_command("registers set CP=0xFFF", None).unwrap();
    assert!(matches!(command,
        RegisterCommand::Assign { assignment }
        if matches!(assignment.destination, RegisterSource::CommandPointer)
        && matches!(assignment.source, Source::Value(d) if d == 0x0FFF)));
}

#[test]
fn pest_parser_simple_run() {
    let command = run_command("run", None).unwrap();
    assert!(matches!(command.stop_condition, BooleanExpression::Value(v) if v));
    assert!(command.start_address.is_none());
}

#[test]
fn run_with_start_address() {
    let command = run_command("run #0x1234", None).unwrap();
    assert!(matches!(command.stop_condition, BooleanExpression::Value(v) if v));
    assert!(matches!(command.start_address, Some(RunAddress::Memory(addr)) if addr == 0x1234));
}

#[test]
fn run_with_stop_condition() {
    let command = run_command("run until A > 0x12", None).unwrap();
    if let BooleanExpression::StrictlyGreater(lt, rt) = command.stop_condition {
        assert!(matches!(lt, Source::Register(RegisterSource::Accumulator)));
        assert!(matches!(rt, Source::Value(data) if data == 0x12));
    } else {
        panic!("Expected StrictlyGreater boolean expression, got '{:?}'.", command.stop_condition);
    }
    assert!(command.start_address.is_none());
}

#[test]
fn run_init() {
    let command = run_command("run init", None).unwrap();
    assert!(matches!(command.start_address, Some(RunAddress::InitVector)));
}

#[test]
fn test_run_from_symbol_address_until_memory_at_symbol_matches() {
    let symbols = setup_test_symbols();
    let command = run_command("run $word_var until $counter = 0xff", Some(&symbols)).unwrap();
    assert!(matches!(command.start_address, Some(RunAddress::Memory(addr)) if addr == 0x1234));
    assert!(matches!(command.stop_condition,
        BooleanExpression::Equal(Source::Memory(addr), Source::Value(0xff)) if addr == 0x2000));
}

#[test]
fn test_run_until_cycle_count() {
    let command = run_command("run until cycle_count > 0x0200", None).unwrap();
    if let BooleanExpression::StrictlyGreater(lt, rt) = command.stop_condition {
        assert!(matches!(lt, Source::Register(RegisterSource::CycleCount)));
        assert!(matches!(rt, Source::Value(data) if data == 0x0200));
    } else {
        panic!("Expected StrictlyGreater boolean expression, got '{:?}'.", command.stop_condition);
    }
    assert!(command.start_address.is_none());
}

#[test]
fn test_run_with_cycle_count_comparison() {
    let command = run_command("run #0x1234 until cycle_count = 0x0100", None).unwrap();
    assert!(matches!(command.start_address, Some(RunAddress::Memory(addr)) if addr == 0x1234));
    if let BooleanExpression::Equal(lt, rt) = command.stop_condition {
        assert!(matches!(lt, Source::Register(RegisterSource::CycleCount)));
        assert!(matches!(rt, Source::Value(data) if data == 0x0100));
    } else {
        panic!("Expected Equal boolean expression, got '{:?}'.", command.stop_condition);
    }
}

#[test]
fn test_run_with_while_condition() {
    let command = run_command("run while X = 0x42", None).unwrap();
    assert!(matches!(command.stop_condition, BooleanExpression::Value(false)));
    assert!(matches!(command.continue_condition,
        BooleanExpression::Equal(Source::Register(RegisterSource::RegisterX), Source::Value(0x42))));
}

#[test]
fn test_run_with_until_condition() {
    let command = run_command("run until X = 0x42", None).unwrap();
    assert!(matches!(command.continue_condition, BooleanExpression::Value(true)));
    assert!(matches!(command.stop_condition,
        BooleanExpression::Equal(Source::Register(RegisterSource::RegisterX), Source::Value(0x42))));
}

#[test]
fn test_run_with_while_then_until() {
    let while_command = run_command("run while X = 0x42", None).unwrap();
    assert!(matches!(while_command.stop_condition, BooleanExpression::Value(false)));
    assert!(matches!(while_command.continue_condition,
        BooleanExpression::Equal(Source::Register(RegisterSource::RegisterX), Source::Value(0x42))));

    let until_command = run_command("run until Y = 0x24", None).unwrap();
    assert!(matches!(until_command.continue_condition, BooleanExpression::Value(true)));
    assert!(matches!(until_command.stop_condition,
        BooleanExpression::Equal(Source::Register(RegisterSource::RegisterY), Source::Value(0x24))));
}

#[test]
fn test_run_with_complex_while_conditions() {
    let test_cases = [
        ("run while A < 0x80", Box::new(|cond: &BooleanExpression| matches!(cond,
            BooleanExpression::StrictlyLesser(Source::Register(RegisterSource::Accumulator), Source::Value(0x80))))
            as Box<dyn Fn(&BooleanExpression) -> bool>),
        ("run while X >= 0x10", Box::new(|cond: &BooleanExpression| matches!(cond,
            BooleanExpression::GreaterOrEqual(Source::Register(RegisterSource::RegisterX), Source::Value(0x10))))),
        ("run while cycle_count < 0x1000", Box::new(|cond: &BooleanExpression| matches!(cond,
            BooleanExpression::StrictlyLesser(Source::Register(RegisterSource::CycleCount), Source::Value(0x1000))))),
    ];
    for (input, matcher) in test_cases {
        let command = run_command(input, None).unwrap();
        assert!(matches!(command.stop_condition, BooleanExpression::Value(false)));
        assert!(matcher(&command.continue_condition));
        assert!(command.start_address.is_none());
    }
}

#[test]
fn test_run_with_while_and_start_address() {
    let command = run_command("run #0x1234 while A = 0x42", None).unwrap();
    assert!(matches!(command.start_address, Some(RunAddress::Memory(addr)) if addr == 0x1234));
    assert!(matches!(command.stop_condition, BooleanExpression::Value(false)));
    assert!(matches!(command.continue_condition,
        BooleanExpression::Equal(Source::Register(RegisterSource::Accumulator), Source::Value(0x42))));
}

#[test]
fn test_run_with_while_and_symbol() {
    let symbols = setup_test_symbols();
    let command = run_command("run while $byte_var = 0x42", Some(&symbols)).unwrap();
    assert!(matches!(command.stop_condition, BooleanExpression::Value(false)));
    assert!(matches!(command.continue_condition,
        BooleanExpression::Equal(Source::Memory(addr), Source::Value(0x42)) if addr == 0x34));
}

#[test]
fn test_assert_parser() {
    let command = assert_command("assert A = 0x00 $$something$$", None).unwrap();
    assert!(
        matches!(command, AssertCommand { comment, condition } if comment.as_str() == "something" && matches!(condition, BooleanExpression::Equal(_, _)))
    )
}

#[test]
fn test_assert_command_with_symbols() {
    let symbols = setup_test_symbols();
    let command = assert_command("assert $byte_var = 0xff $$test description$$", Some(&symbols)).unwrap();
    assert_eq!(command.comment, "test description");
    assert!(matches!(command.condition,
        BooleanExpression::Equal(Source::Memory(addr), Source::Value(0xff)) if addr == 0x34));
}

#[test]
fn test_assert_memory_sequence() {
    let command = assert_command("assert #0x8000 ~ 0x(01,a2,f3) $$check memory sequence$$", None).unwrap();
    assert_eq!(command.comment, "check memory sequence");
    assert!(matches!(command.condition,
        BooleanExpression::MemorySequence(Source::Memory(addr), bytes) if addr == 0x8000 && bytes == vec![0x01, 0xa2, 0xf3]));
}

#[test]
fn test_assert_memory_sequence_with_symbols() {
    let mut symbols = setup_test_symbols();
    symbols.add_symbol(0x8000, "code_start".to_string());
    let command =
        assert_command("assert $code_start ~ 0x(01,a2,f3) $$check memory sequence with symbol$$", Some(&symbols)).unwrap();
    assert_eq!(command.comment, "check memory sequence with symbol");
    assert!(matches!(command.condition,
        BooleanExpression::MemorySequence(Source::Memory(addr), bytes) if addr == 0x8000 && bytes == vec![0x01, 0xa2, 0xf3]));
}

#[test]
fn test_assert_memory_sequence_with_string() {
    let command = assert_command("assert #0x8000 ~ \"hello\" $$check memory sequence with string$$", None).unwrap();
    assert_eq!(command.comment, "check memory sequence with string");
    assert!(matches!(command.condition,
        BooleanExpression::MemorySequence(Source::Memory(addr), bytes) if addr == 0x8000 && bytes == b"hello".to_vec()));
}

#[test]
fn test_assert_memory_sequence_with_hex_escape_sequences() {
    let command =
        assert_command("assert #0x8000 ~ \"\\xFF\\x00\\x42\" $$check memory sequence with hex escapes$$", None).unwrap();
    assert_eq!(command.comment, "check memory sequence with hex escapes");
    assert!(matches!(command.condition,
        BooleanExpression::MemorySequence(Source::Memory(addr), bytes) if addr == 0x8000 && bytes == vec![0xFF, 0x00, 0x42]));

    let command =
        assert_command("assert #0x8000 ~ \"data:\\x0A\\xFF\\x00end\" $$check mixed string with hex escapes$$", None).unwrap();
    assert_eq!(command.comment, "check mixed string with hex escapes");
    let expected = b"data:\x0A\xFF\x00end".to_vec();
    assert!(matches!(command.condition,
        BooleanExpression::MemorySequence(Source::Memory(addr), bytes) if addr == 0x8000 && bytes == expected));

    let command = assert_command("assert #0x8000 ~ \"\\x41\\n\\t\\xFF\\0\" $$check mixed escape sequences$$", None).unwrap();
    assert_eq!(command.comment, "check mixed escape sequences");
    let expected = b"A\n\t\xFF\0".to_vec();
    assert!(matches!(command.condition,
        BooleanExpression::MemorySequence(Source::Memory(addr), bytes) if addr == 0x8000 && bytes == expected));
}

#[test]
fn test_assert_memory_sequence_with_line_continuation() {
    let command = assert_command(
        "assert #0x8000 ~ \"hello\\\nworld\" $$check memory sequence with line continuation$$",
        None,
    )
    .unwrap();
    assert_eq!(command.comment, "check memory sequence with line continuation");
    assert!(matches!(command.condition,
        BooleanExpression::MemorySequence(Source::Memory(addr), bytes) if addr == 0x8000 && bytes == b"helloworld".to_vec()));

    let command =
        assert_command("assert #0x8000 ~ \"+-------+\\\n| Hello |\\\n+-------+\" $$check screen layout$$", None).unwrap();
    assert_eq!(command.comment, "check screen layout");
    let expected = b"+-------+| Hello |+-------+".to_vec();
    assert!(matches!(command.condition,
        BooleanExpression::MemorySequence(Source::Memory(addr), bytes) if addr == 0x8000 && bytes == expected));

    let command = assert_command(
        "assert #0x8000 ~ \"start\\\n\\t\\xFF\\\nend\" $$check mixed line continuation and escapes$$",
        None,
    )
    .unwrap();
    assert_eq!(command.comment, "check mixed line continuation and escapes");
    let expected = b"start\t\xFFend".to_vec();
    assert!(matches!(command.condition,
        BooleanExpression::MemorySequence(Source::Memory(addr), bytes) if addr == 0x8000 && bytes == expected));
}

#[test]
fn test_pointer_assertion() {
    let mut symbols = setup_test_symbols();
    symbols.add_symbol(0x1000, "entry_loc".to_string());
    symbols.add_symbol(0x2000, "cache".to_string());

    let command = assert_command("assert $entry_loc -> $cache $$basic pointer test$$", Some(&symbols)).unwrap();
    assert_eq!(command.comment, "basic pointer test");
    assert_eq!(pointer_bytes(command.condition), (0x1000, 0x1001, 0x00, 0x20));

    let command = assert_command("assert $entry_loc -> $cache + 0x20 $$pointer with offset$$", Some(&symbols)).unwrap();
    assert_eq!(command.comment, "pointer with offset");
    assert_eq!(pointer_bytes(command.condition), (0x1000, 0x1001, 0x20, 0x20));

    let command =
        assert_command("assert $entry_loc -> $cache + 32 $$pointer with decimal offset$$", Some(&symbols)).unwrap();
    assert_eq!(command.comment, "pointer with decimal offset");
    assert_eq!(pointer_bytes(command.condition), (0x1000, 0x1001, 0x20, 0x20));
}

#[test]
fn test_pointer_assertion_with_symbols() {
    let mut symbols = setup_test_symbols();
    symbols.add_symbol(0x1000, "entry_loc".to_string());
    symbols.add_symbol(0x2000, "cache".to_string());
    let command =
        assert_command("assert $entry_loc -> $cache + 0x20 $$pointer test with symbols$$", Some(&symbols)).unwrap();
    assert_eq!(pointer_bytes(command.condition), (0x1000, 0x1001, 0x20, 0x20));
}

#[test]
fn test_pointer_assertion_wrapping() {
    let mut symbols = setup_test_symbols();
    symbols.add_symbol(0x1000, "ptr".to_string());
    symbols.add_symbol(0xFFE0, "near_end".to_string());
    let command = assert_command("assert $ptr -> $near_end + 0x30 $$pointer should wrap$$", Some(&symbols)).unwrap();
    assert_eq!(pointer_bytes(command.condition), (0x1000, 0x1001, 0x10, 0x00));
}

#[test]
fn test_pointer_assertion_with_negative_offset() {
    let mut symbols = setup_test_symbols();
    symbols.add_symbol(0x1000, "ptr".to_string());
    symbols.add_symbol(0x2000, "base".to_string());
    let command =
        assert_command("assert $ptr -> $base - 0x20 $$pointer with negative offset$$", Some(&symbols)).unwrap();
    assert_eq!(command.comment, "pointer with negative offset");
    assert_eq!(pointer_bytes(command.condition), (0x1000, 0x1001, 0xE0, 0x1F));
}

#[test]
fn test_pointer_assertion_wrapping_with_negative_offset() {
    let mut symbols = setup_test_symbols();
    symbols.add_symbol(0x1000, "ptr".to_string());
    symbols.add_symbol(0x0020, "near_start".to_string());
    let command = assert_command("assert $ptr -> $near_start - 0x30 $$pointer should wrap$$", Some(&symbols)).unwrap();
    assert_eq!(pointer_bytes(command.condition), (0x1000, 0x1001, 0xF0, 0xFF));
}

#[test]
fn test_pointer_assertion_with_decimal_negative_offset() {
    let mut symbols = setup_test_symbols();
    symbols.add_symbol(0x1000, "ptr".to_string());
    symbols.add_symbol(0x2000, "base".to_string());
    let command =
        assert_command("assert $ptr -> $base - 32 $$pointer with decimal negative offset$$", Some(&symbols)).unwrap();
    assert_eq!(pointer_bytes(command.condition), (0x1000, 0x1001, 0xE0, 0x1F));
}

#[test]
fn test_assert_with_memory_offset() {
    let mut symbols = setup_test_symbols();
    symbols.add_symbol(0x2000, "cache".to_string());
    let command = assert_command("assert $cache + 1 = 0x00 $$test memory offset$$", Some(&symbols)).unwrap();
    assert_eq!(command.comment, "test memory offset");
    assert!(matches!(command.condition,
        BooleanExpression::Equal(Source::Memory(addr), Source::Value(0x00)) if addr == 0x2001));

    let command = assert_command("assert $cache - 1 = 0x42 $$test negative memory offset$$", Some(&symbols)).unwrap();
    assert!(matches!(command.condition,
        BooleanExpression::Equal(Source::Memory(addr), Source::Value(0x42)) if addr == 0x1FFF));
}

#[test]
fn test_assert_memory_sequence_with_offset() {
    let mut symbols = setup_test_symbols();
    symbols.add_symbol(0x2000, "cache".to_string());
    let command = assert_command("assert $cache + 2 ~ 0x(00,40) $$test sequence with offset$$", Some(&symbols)).unwrap();
    assert_eq!(command.comment, "test sequence with offset");
    assert!(matches!(command.condition,
        BooleanExpression::MemorySequence(Source::Memory(addr), bytes) if addr == 0x2002 && bytes == vec![0x00, 0x40]));

    let command =
        assert_command("assert $cache + 128 ~ 0x(00,40) $$test sequence with decimal offset$$", Some(&symbols)).unwrap();
    assert!(matches!(command.condition,
        BooleanExpression::MemorySequence(Source::Memory(addr), bytes) if addr == 0x2080 && bytes == vec![0x00, 0x40]));
}

#[test]
fn test_memory_offset_wrapping() {
    let mut symbols = setup_test_symbols();
    symbols.add_symbol(0xFFFF, "end".to_string());
    symbols.add_symbol(0x0000, "start".to_string());
    let command = assert_command("assert $end + 2 = 0x42 $$test wrapping with positive offset$$", Some(&symbols)).unwrap();
    if let BooleanExpression::Equal(Source::Memory(addr), Source::Value(val)) = command.condition {
        assert_eq!(addr, 0x0001);
        assert_eq!(val, 0x42);
    } else {
        panic!("Expected Equal expression, got {:?}", command.condition);
    }

    let command =
        assert_command("assert $start - 2 = 0x42 $$test wrapping with negative offset$$", Some(&symbols)).unwrap();
    if let BooleanExpression::Equal(Source::Memory(addr), Source::Value(val)) = command.condition {
        assert_eq!(addr, 0xFFFE);
        assert_eq!(val, 0x42);
    } else {
        panic!("Expected Equal expression, got {:?}", command.condition);
    }
}

#[test]
fn test_assert_with_symbol_byte_references() {
    let mut symbols = setup_test_symbols();
    symbols.add_symbol(0x1234, "test_str1".to_string());
    let command = assert_command("assert A = <$test_str1 $$low byte test$$", Some(&symbols)).unwrap();
    if let BooleanExpression::Equal(lh, rh) = command.condition {
        assert_eq!(lh, Source::Register(RegisterSource::Accumulator));
        assert_eq!(rh, Source::Value(0x34));
    } else {
        panic!("Expected Equal assertion with low byte");
    }

    let command = assert_command("assert X = >$test_str1 $$high byte test$$", Some(&symbols)).unwrap();
    if let BooleanExpression::Equal(lh, rh) = command.condition {
        assert_eq!(lh, Source::Register(RegisterSource::RegisterX));
        assert_eq!(rh, Source::Value(0x12));
    } else {
        panic!("Expected Equal assertion with high byte");
    }
}

#[test]
fn test_assert_with_symbol_byte_references_memory_comparison() {
    let mut symbols = setup_test_symbols();
    symbols.add_symbol(0x1234, "test_str1".to_string());
    symbols.add_symbol(0x2000, "cps_strings_a".to_string());
    symbols.add_symbol(0x2001, "cps_strings_x".to_string());
    let command = assert_command(
        "assert $cps_strings_a = <$test_str1 $$t00: cputs called with correct pointer (low byte)$$",
        Some(&symbols),
    )
    .unwrap();
    if let BooleanExpression::Equal(lh, rh) = command.condition {
        assert_eq!(lh, Source::Memory(0x2000));
        assert_eq!(rh, Source::Value(0x34));
    } else {
        panic!("Expected Equal assertion with memory and low byte");
    }

    let command = assert_command(
        "assert $cps_strings_x = >$test_str1 $$t00: cputs called with correct pointer (high byte)$$",
        Some(&symbols),
    )
    .unwrap();
    if let BooleanExpression::Equal(lh, rh) = command.condition {
        assert_eq!(lh, Source::Memory(0x2001));
        assert_eq!(rh, Source::Value(0x12));
    } else {
        panic!("Expected Equal assertion with memory and high byte");
    }
}

#[test]
fn test_symbol_byte_references_with_missing_symbol() {
    let result = assert_command("assert A = <$missing_symbol $$error test$$", None);
    assert!(result.is_err());
    assert!(result.unwrap_err().to_string().contains("Symbol table not available"));

    let symbols = setup_test_symbols();
    let result = assert_command("assert A = >$nonexistent $$error test$$", Some(&symbols));
    assert!(result.is_err());
    assert!(result.unwrap_err().to_string().contains("Symbol 'nonexistent' not found"));
}

#[test]
fn test_parse_boolean_condition() {
    let output = ParserContext::new(None).parse_boolean_condition("A != 0xff").unwrap();
    assert!(matches!(output,
        BooleanExpression::Different(Source::Register(RegisterSource::Accumulator), Source::Value(0xff))));
}

#[test]
fn test_parse_boolean_condition_memory_sequence() {
    let output = ParserContext::new(None).parse_boolean_condition("#0x8000 ~ 0x(01,a2,f3)").unwrap();
    assert!(matches!(output,
        BooleanExpression::MemorySequence(Source::Memory(addr), bytes) if addr == 0x8000 && bytes == vec![0x01, 0xa2, 0xf3]));
}

#[test]
fn test_parse_boolean_condition_memory_sequence_with_symbol() {
    let mut symbols = setup_test_symbols();
    symbols.add_symbol(0x8000, "code_start".to_string());
    let output = ParserContext::new(Some(&symbols)).parse_boolean_condition("$code_start ~ 0x(01,a2,f3)").unwrap();
    assert!(matches!(output,
        BooleanExpression::MemorySequence(Source::Memory(addr), bytes) if addr == 0x8000 && bytes == vec![0x01, 0xa2, 0xf3]));
}

#[test]
fn test_parse_memory_with_hex_address() {
    let context = ParserContext::new(None);
    assert_eq!(0x1234, location(&context, "#0x1234").unwrap());
}

#[test]
fn test_parse_memory_with_symbol() {
    let mut symbols = SymbolTable::new();
    symbols.add_symbol(0x1234, "test_var".to_string());
    let context = ParserContext::new(Some(&symbols));
    assert_eq!(0x1234, location(&context, "$test_var").unwrap());
}

#[test]
fn test_parse_memory_with_missing_symbol() {
    let context = ParserContext::new(None);
    location(&context, "$nonexistent").expect_err("Should fail when symbols table is not available");
}

#[test]
fn test_boolean_expressions() {
    let test_cases = [
        ("A = 0x42", Box::new(|expr: &BooleanExpression| {
            matches!(expr, BooleanExpression::Equal(Source::Register(RegisterSource::Accumulator), Source::Value(0x42)))
        }) as Box<dyn Fn(&BooleanExpression) -> bool>),
        ("(A = 0x42)", Box::new(|expr: &BooleanExpression| {
            matches!(expr, BooleanExpression::Equal(Source::Register(RegisterSource::Accumulator), Source::Value(0x42)))
        })),
        ("((A = 0x42))", Box::new(|expr: &BooleanExpression| {
            matches!(expr, BooleanExpression::Equal(Source::Register(RegisterSource::Accumulator), Source::Value(0x42)))
        })),
        ("A >= 0x42", Box::new(|expr: &BooleanExpression| {
            matches!(expr, BooleanExpression::GreaterOrEqual(Source::Register(RegisterSource::Accumulator), Source::Value(0x42)))
        })),
        ("X < 0x10", Box::new(|expr: &BooleanExpression| {
            matches!(expr, BooleanExpression::StrictlyLesser(Source::Register(RegisterSource::RegisterX), Source::Value(0x10)))
        })),
        ("cycle_count != 0x100", Box::new(|expr: &BooleanExpression| {
            matches!(expr, BooleanExpression::Different(Source::Register(RegisterSource::CycleCount), Source::Value(0x100)))
        })),
        ("A = 0x42 AND X = 0x10", Box::new(|expr: &BooleanExpression| matches!(expr, BooleanExpression::And(_, _)))),
        ("A = 0x42 OR X = 0x10", Box::new(|expr: &BooleanExpression| matches!(expr, BooleanExpression::Or(_, _)))),
        ("A = 0x42 AND X = 0x10 AND Y = 0x20", Box::new(|expr: &BooleanExpression| {
            if let BooleanExpression::And(left, _) = expr {
                matches!(**left, BooleanExpression::And(_, _))
            } else {
                false
            }
        })),
        ("A = 0x42 OR X = 0x10 OR Y = 0x20", Box::new(|expr: &BooleanExpression| {
            if let BooleanExpression::Or(left, _) = expr {
                matches!(**left, BooleanExpression::Or(_, _))
            } else {
                false
            }
        })),
        ("A = 0x42 AND X < 0x10 OR Y > 0x20", Box::new(|expr: &BooleanExpression| {
            if let BooleanExpression::Or(left, right) = expr {
                matches!(**left, BooleanExpression::And(_, _))
                    && matches!(**right, BooleanExpression::StrictlyGreater(
                        Source::Register(RegisterSource::RegisterY), Source::Value(0x20)))
            } else {
                false
            }
        })),
        ("A = 0x42 AND (X < 0x10 OR Y > 0x20)", Box::new(|expr: &BooleanExpression| {
            if let BooleanExpression::And(left, right) = expr {
                matches!(**left, BooleanExpression::Equal(Source::Register(RegisterSource::Accumulator), Source::Value(0x42)))
                    && matches!(**right, BooleanExpression::Or(_, _))
            } else {
                false
            }
        })),
        ("(A = 0x42 AND X < 0x10) OR (Y > 0x20 AND cycle_count < 0x100)", Box::new(|expr: &BooleanExpression| {
            if let BooleanExpression::Or(left, right) = expr {
                matches!(**left, BooleanExpression::And(_, _)) && matches!(**right, BooleanExpression::And(_, _))
            } else {
                false
            }
        })),
        ("NOT A = 0x42", Box::new(|expr: &BooleanExpression| {
            matches!(expr, BooleanExpression::Not(inner) if matches!(**inner,
                BooleanExpression::Equal(Source::Register(RegisterSource::Accumulator), Source::Value(0x42))))
        })),
        ("NOT (A = 0x42)", Box::new(|expr: &BooleanExpression| {
            matches!(expr, BooleanExpression::Not(inner) if matches!(**inner,
                BooleanExpression::Equal(Source::Register(RegisterSource::Accumulator), Source::Value(0x42))))
        })),
        ("NOT (A = 0x42 AND X = 0x10)", Box::new(|expr: &BooleanExpression| {
            matches!(expr, BooleanExpression::Not(inner) if matches!(**inner, BooleanExpression::And(_, _)))
        })),
        ("NOT (A = 0x42 OR X = 0x10)", Box::new(|expr: &BooleanExpression| {
            matches!(expr, BooleanExpression::Not(inner) if matches!(**inner, BooleanExpression::Or(_, _)))
        })),
        ("NOT NOT A = 0x42", Box::new(|expr: &BooleanExpression| {
            matches!(expr, BooleanExpression::Not(outer) if matches!(**outer, BooleanExpression::Not(_)))
        })),
        ("NOT (A = 0x42 AND X < 0x10) OR Y > 0x20", Box::new(|expr: &BooleanExpression| {
            if let BooleanExpression::Or(left, right) = expr {
                let left_matches = if let BooleanExpression::Not(inner) = &**left {
                    if let BooleanExpression::And(left_and, right_and) = &**inner {
                        matches!(&**left_and, BooleanExpression::Equal(
                            Source::Register(RegisterSource::Accumulator), Source::Value(0x42)))
                            && matches!(&**right_and, BooleanExpression::StrictlyLesser(
                                Source::Register(RegisterSource::RegisterX), Source::Value(0x10)))
                    } else {
                        false
                    }
                } else {
                    false
                };
                let right_matches = matches!(&**right, BooleanExpression::StrictlyGreater(
                    Source::Register(RegisterSource::RegisterY), Source::Value(0x20)));
                left_matches && right_matches
            } else {
                false
            }
        })),
        ("NOT true", Box::new(|expr: &BooleanExpression| {
            matches!(expr, BooleanExpression::Not(inner) if matches!(**inner, BooleanExpression::Value(true)))
        })),
        ("NOT false", Box::new(|expr: &BooleanExpression| {
            matches!(expr, BooleanExpression::Not(inner) if matches!(**inner, BooleanExpression::Value(false)))
        })),
    ];

    let context = ParserContext::new(None);
    for (input, matcher) in test_cases {
        let output = context
            .parse_boolean_condition(input)
            .unwrap_or_else(|e| panic!("Failed to parse '{}': {:?}", input, e));
        assert!(matcher(&output), "Expression didn't match expected pattern for input: {}\nGot: {:?}", input, output);
    }
}

#[test]
fn test_parse_hex_to_bytes() {
    let context = ParserContext::new(None);
    assert_eq!(vec![0x0F], context.parse_hex_to_bytes("F").unwrap());
    assert_eq!(vec![0xFF], context.parse_hex_to_bytes("FF").unwrap());
    assert_eq!(vec![0x0F, 0xFF], context.parse_hex_to_bytes("FFF").unwrap());
    assert_eq!(vec![0xFF, 0xFF], context.parse_hex_to_bytes("FFFF").unwrap());
}

#[test]
fn hex_errors_carry_the_decoder_message() {
    let context = ParserContext::new(None);
    assert_eq!("Empty string is not a valid Hexadecimal.", context.parse_hex_to_bytes("").unwrap_err().to_string());
    assert_eq!(
        "Failed to parse hex value 'FG': Invalid character 'G' at position 1",
        context.parse_hex_to_bytes("FG").unwrap_err().to_string()
    );
    assert_eq!(
        "Failed to parse hex value 'x1': Invalid character 'x' at position 0",
        context.parse_hex_to_bytes("x1").unwrap_err().to_string()
    );
    assert_eq!(
        "Failed to parse hex value '0'': Invalid character '\\'' at position 1",
        context.parse_hex_to_bytes("'").unwrap_err().to_string()
    );
}

#[test]
fn long_hex_values_keep_their_low_bytes() {
    let context = ParserContext::new(None);
    assert_eq!(0x12_3456, context.parse_hex("123456").unwrap());
    assert_eq!(0x0102_0304_0506_0708, context.parse_hex("0102030405060708").unwrap());
    assert_eq!(0x0203_0405_0607_0809, context.parse_hex("010203040506070809").unwrap());
}

#[test]
fn test_parse_memory_with_hex_address_formats() {
    let context = ParserContext::new(None);
    assert_eq!(0x1234, location(&context, "#0x1234").unwrap());
    assert_eq!(0x0123, location(&context, "#0x123").unwrap());
    assert_eq!(0x0012, location(&context, "#0x12").unwrap());
    assert_eq!(0x0001, location(&context, "#0x1").unwrap());
}

#[test]
fn test_parse_memory_with_hex_address_in_commands() {
    let command = memory_command("memory write #0xF 0x(42,A)", None).unwrap();
    assert!(matches!(command, MemoryCommand::Write { address, bytes } if address == 0x000F && bytes == vec![0x42, 0x0A]));

    let command = assert_command("assert #0xF = 0xA  $$test short hex address and value$$", None).unwrap();
    assert!(matches!(command.condition,
        BooleanExpression::Equal(Source::Memory(addr), Source::Value(val)) if addr == 0x000F && val == 0x0A));
}

#[test]
fn test_show_parsed_command() {
    let mut symbols = setup_test_symbols();
    symbols.add_symbol(0x1000, "main".to_string());
    let context = ParserContext::new(Some(&symbols));
    let output = context
        .parse_boolean_condition("X >= 10 AND (CP >= $main AND CP <= 0x2100) AND cycle_count < 50")
        .unwrap();
    println!("\nParsed condition structure:\n{:?}", output);
}

#[test]
fn test_parse_memory_with_memory_location() {
    let mut symbols = setup_test_symbols();
    symbols.add_symbol(0x1000, "somewhere".to_string());
    let context = ParserContext::new(Some(&symbols));
    assert_eq!(location(&context, "$somewhere").unwrap(), 0x1000);
}
