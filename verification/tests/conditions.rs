use soft65c02::{
    AddressableIO, Assignment, BooleanExpression, CliCommandParser, Command, Memory, OutputToken, RegisterSource,
    Registers, Source, SymbolTable,
};

fn no_file(_: &str) -> Option<Vec<u8>> {
    None
}

#[test]
fn test_to_u8() {
    assert_eq!(0, Assignment::to_u8(0).expect("0 is a valid 8 bits number"));
    assert_eq!(255, Assignment::to_u8(255).expect("255 is a valid 8 bits number"));
    Assignment::to_u8(256).expect_err("9 bits usize can not fit in 8 bits");
}

#[test]
fn test_memory_sequence_comparison() {
    let mut memory = Memory::new_with_ram();
    let registers = Registers::new(0);

    memory.write(0x8000, &[0x01, 0xa2, 0xf3]).unwrap();

    let expr = BooleanExpression::MemorySequence(Source::Memory(0x8000), vec![0x01, 0xa2, 0xf3]);
    assert!(expr.solve(&registers, &memory).is_none());

    let expr = BooleanExpression::MemorySequence(Source::Memory(0x8000), vec![0x01, 0xa2, 0xf4]);
    assert!(expr.solve(&registers, &memory).is_some());

    let expr = BooleanExpression::MemorySequence(Source::Register(RegisterSource::Accumulator), vec![0x01, 0x02]);
    assert!(expr.solve(&registers, &memory).is_some());

    let expr = BooleanExpression::MemorySequence(Source::Memory(0xffff), vec![0x01, 0x02]);
    assert!(expr.solve(&registers, &memory).is_some());
}

#[test]
fn test_memory_sequence_display() {
    let expr = BooleanExpression::MemorySequence(Source::Memory(0x8000), vec![0x01, 0xa2, 0xf3]);
    assert_eq!(expr.to_string(), "#0x8000 ~ 0x(01,a2,f3)");
}

#[test]
fn test_assertion() {
    let mut registers = Registers::new(0x0000);
    let mut memory = Memory::new_with_ram();
    let mut symbols: Option<SymbolTable> = None;

    let output = CliCommandParser::from("assert #0x0000 = 0x00 $$The first byte is zero$$")
        .unwrap()
        .execute(&mut registers, &mut memory, &mut symbols, &no_file)
        .unwrap();

    assert!(matches!(output, OutputToken::Assertion { failure: None, description } if description == "The first byte is zero"));
}

#[test]
fn test_bad_assertion() {
    let mut registers = Registers::new(0x0000);
    let mut memory = Memory::new_with_ram();
    let mut symbols: Option<SymbolTable> = None;

    let output = CliCommandParser::from("assert #0x0000 = 0x01 $$The first byte is one, really?$$")
        .unwrap()
        .execute(&mut registers, &mut memory, &mut symbols, &no_file)
        .unwrap();

    assert!(matches!(output, OutputToken::Assertion { failure: Some(_), description } if description == "The first byte is one, really?"));
}

#[test]
fn test_register_flush() {
    let mut registers = Registers::new(0x1234);
    let mut memory = Memory::new_with_ram();
    let mut symbols: Option<SymbolTable> = None;

    let output = CliCommandParser::from("registers flush")
        .unwrap()
        .execute(&mut registers, &mut memory, &mut symbols, &no_file)
        .unwrap();

    assert!(matches!(output, OutputToken::Setup(lines) if lines.len() == 1));
    assert_eq!(0, registers.command_pointer);
}

#[test]
fn disassemble_command_lists_instructions() {
    let mut registers = Registers::new(0x0000);
    let mut memory = Memory::new_with_ram();
    let mut symbols: Option<SymbolTable> = None;
    memory.write(0x1000, &[0xe8, 0x60]).unwrap();
    let output = CliCommandParser::from("disassemble #0x1000 0x2")
        .unwrap()
        .execute(&mut registers, &mut memory, &mut symbols, &no_file)
        .unwrap();
    assert!(matches!(output, OutputToken::Setup(lines) if lines.len() == 4 && lines[1] == "#0x1000: (e8)        INX "));
}

#[test]
fn oversized_value_for_byte_register_is_refused() {
    assert_eq!("Value 256 cannot fit in 8 bits destination.", Assignment::to_u8(256).unwrap_err().to_string());
    let memory = Memory::new_with_ram();
    let mut registers = Registers::new(0x1000);
    let before = registers;
    let assignment = Assignment::new(Source::Value(0x1234), RegisterSource::RegisterX);
    let e = assignment.execute(&mut registers, &memory).unwrap_err();
    assert_eq!("Value 4660 cannot fit in 8 bits destination.", e.to_string());
    assert_eq!(before.register_x, registers.register_x);
    assert_eq!(before.command_pointer, registers.command_pointer);
}
