use soft65c02::{
    AddressableIO, Assignment, AssertCommand, BooleanExpression, Command, Memory, MemoryCommand, OutputToken,
    RegisterCommand, RegisterSource, Registers, RunAddress, RunCommand, Source, SymbolTable,
};

fn no_file(_: &str) -> Option<Vec<u8>> {
    None
}

#[test]
fn test_assert_command_ok() {
    let command = AssertCommand {
        condition: BooleanExpression::Value(true),
        comment: "nice comment".to_string(),
    };
    let mut registers = Registers::new(0x0000);
    let mut memory = Memory::new_with_ram();
    let mut symbols: Option<SymbolTable> = None;
    let token = command.execute(&mut registers, &mut memory, &mut symbols, &no_file).unwrap();

    assert!(
        matches!(token, OutputToken::Assertion { failure, description } if failure.is_none() && description == *"nice comment")
    );
}

#[test]
fn test_assert_command_fails() {
    let command = AssertCommand {
        condition: BooleanExpression::Value(false),
        comment: "failing assertion".to_string(),
    };
    let mut registers = Registers::new(0x0000);
    let mut memory = Memory::new_with_ram();
    let mut symbols: Option<SymbolTable> = None;

    let token = command.execute(&mut registers, &mut memory, &mut symbols, &no_file).unwrap();

    assert!(
        matches!(token, OutputToken::Assertion { failure, description } if failure.is_some() && description == *"failing assertion")
    );
}

#[test]
fn commands_simple_run() {
    let command = RunCommand {
        stop_condition: BooleanExpression::Value(true),
        continue_condition: BooleanExpression::Value(true),
        start_address: None,
    };
    let mut registers = Registers::new_initialized(0x1000);
    let mut memory = Memory::new_with_ram();
    let mut symbols: Option<SymbolTable> = None;
    memory.write(0x1000, &[0xa9, 0xc0]).unwrap(); // LDA #0xc0
    let token = command.execute(&mut registers, &mut memory, &mut symbols, &no_file).unwrap();

    assert!(matches!(token, OutputToken::Run { loglines, .. } if loglines.len() == 1));
}

#[test]
fn run_from_addr() {
    let command = RunCommand {
        stop_condition: BooleanExpression::Value(true),
        continue_condition: BooleanExpression::Value(true),
        start_address: Some(RunAddress::Memory(0x1234)),
    };
    let mut registers = Registers::new_initialized(0x0000);
    let mut memory = Memory::new_with_ram();
    let mut symbols: Option<SymbolTable> = None;
    memory.write(0x1234, &[0xa9, 0xc0]).unwrap(); // LDA #0xc0
    let token = command.execute(&mut registers, &mut memory, &mut symbols, &no_file).unwrap();

    assert!(matches!(token, OutputToken::Run { loglines, .. } if loglines.len() == 1));
}

#[test]
fn run_with_condition() {
    let command = RunCommand {
        stop_condition: BooleanExpression::StrictlyGreater(
            Source::Register(RegisterSource::RegisterX),
            Source::Value(0),
        ),
        continue_condition: BooleanExpression::Value(true),
        start_address: Some(RunAddress::Memory(0x1234)),
    };
    let mut registers = Registers::new_initialized(0x1000);
    let mut memory = Memory::new_with_ram();
    let mut symbols: Option<SymbolTable> = None;
    memory.write(0x1234, &[0xa9, 0xc0, 0xaa]).unwrap(); // LDA #0xc0; TXA
    let token = command.execute(&mut registers, &mut memory, &mut symbols, &no_file).unwrap();

    assert!(matches!(token, OutputToken::Run { loglines, .. } if loglines.len() == 2));
}

#[test]
fn run_stops_on_loop() {
    let command = RunCommand {
        stop_condition: BooleanExpression::Value(false),
        continue_condition: BooleanExpression::Value(true),
        start_address: None,
    };
    let mut registers = Registers::new_initialized(0x1000);
    let mut memory = Memory::new_with_ram();
    let mut symbols: Option<SymbolTable> = None;
    memory.write(0x1000, &[0xd0, 0b11111110]).unwrap(); // BNE -2, to itself
    let token = command.execute(&mut registers, &mut memory, &mut symbols, &no_file).unwrap();

    assert!(matches!(token, OutputToken::Run { loglines, .. } if loglines.len() == 1))
}

#[test]
fn test_flush() {
    let command = RegisterCommand::Flush;
    let mut registers = Registers::new_initialized(0xffff);
    let mut memory = Memory::new_with_ram();
    let mut symbols: Option<SymbolTable> = None;
    let token = command.execute(&mut registers, &mut memory, &mut symbols, &no_file).unwrap();

    assert!(matches!(token, OutputToken::Setup(s) if s[0] == *"registers flushed"));
    assert_eq!(0x0000, registers.command_pointer);
}

#[test]
fn test_set() {
    let command = RegisterCommand::Assign {
        assignment: Assignment::new(Source::Value(0xff), RegisterSource::RegisterX),
    };
    let mut registers = Registers::new_initialized(0xffff);
    let mut memory = Memory::new_with_ram();
    let mut symbols: Option<SymbolTable> = None;
    let token = command.execute(&mut registers, &mut memory, &mut symbols, &no_file).unwrap();

    assert!(matches!(token, OutputToken::Setup(s) if s[0] == *"register X set to 0xff"));
    assert_eq!(0xff, registers.register_x);
}

#[test]
fn test_flush_command() {
    let command = MemoryCommand::Flush;
    let mut registers = Registers::new_initialized(0x0000);
    let mut memory = Memory::new_with_ram();
    let mut symbols: Option<SymbolTable> = None;
    memory.write(0x0000, &[0x01, 0x02, 0x03]).unwrap();
    let token = command.execute(&mut registers, &mut memory, &mut symbols, &no_file).unwrap();

    assert_eq!(vec![0x00, 0x00, 0x00], memory.read(0x000, 3).unwrap());
    assert!(matches!(token, OutputToken::Setup(s) if s.is_empty()));
}

#[test]
fn test_write_command() {
    let command = MemoryCommand::Write {
        address: 0x1000,
        bytes: vec![0x01, 0x02, 0x03],
    };
    let mut registers = Registers::new_initialized(0x0000);
    let mut memory = Memory::new_with_ram();
    let mut symbols: Option<SymbolTable> = None;
    let token = command.execute(&mut registers, &mut memory, &mut symbols, &no_file).unwrap();

    assert!(matches!(token, OutputToken::Setup(v) if v[0] == *"3 bytes written"));
    assert_eq!(&[0x01, 0x02, 0x03], memory.read(0x1000, 3).unwrap().as_slice());
}

#[test]
fn test_write_no_byte() {
    let command = MemoryCommand::Write {
        address: 0x1000,
        bytes: Vec::new(),
    };
    let mut registers = Registers::new_initialized(0x0000);
    let mut memory = Memory::new_with_ram();
    let mut symbols: Option<SymbolTable> = None;
    let token = command.execute(&mut registers, &mut memory, &mut symbols, &no_file).unwrap();

    assert!(matches!(token, OutputToken::Setup(s) if s[0] == *"nothing was written"));
    assert_eq!(&[0x00, 0x00, 0x00], memory.read(0x1000, 3).unwrap().as_slice());
}

#[test]
fn test_write_one_byte() {
    let command = MemoryCommand::Write {
        address: 0x1000,
        bytes: vec![0x01],
    };
    let mut registers = Registers::new_initialized(0x0000);
    let mut memory = Memory::new_with_ram();
    let mut symbols: Option<SymbolTable> = None;
    let token = command.execute(&mut registers, &mut memory, &mut symbols, &no_file).unwrap();

    assert!(matches!(token, OutputToken::Setup(s) if s[0] == *"1 byte written"));
    assert_eq!(&[0x01, 0x00, 0x00], memory.read(0x1000, 3).unwrap().as_slice());
}

#[test]
fn test_load() {
    let filepath = "../Cargo.toml".to_string();
    let command = MemoryCommand::Load {
        address: 0x1000,
        filepath,
    };
    let mut registers = Registers::new_initialized(0x0000);
    let mut memory = Memory::new_with_ram();
    let mut symbols: Option<SymbolTable> = None;
    let load = |p: &str| if p == "../Cargo.toml" { Some(b"[package]\nname = \"x\"\n".to_vec()) } else { None };
    let token = command.execute(&mut registers, &mut memory, &mut symbols, &load).unwrap();

    let expected = "bytes loaded from '../Cargo.toml' at #0x1000.".to_owned();
    assert!(matches!(token, OutputToken::Setup(s) if s[0].contains(&expected)));
}

#[test]
fn load_of_a_missing_file_fails() {
    let command = MemoryCommand::Load { address: 0x1000, filepath: "nowhere".to_string() };
    let mut registers = Registers::new_initialized(0x0000);
    let mut memory = Memory::new_with_ram();
    let mut symbols: Option<SymbolTable> = None;
    assert!(command.execute(&mut registers, &mut memory, &mut symbols, &no_file).is_err());
}

#[test]
fn while_run_cut_short_by_a_loop() {
    let command = RunCommand {
        stop_condition: BooleanExpression::Value(false),
        continue_condition: BooleanExpression::StrictlyLesser(
            Source::Register(RegisterSource::CycleCount),
            Source::Value(100),
        ),
        start_address: Some(RunAddress::Memory(0x1000)),
    };
    let mut registers = Registers::new_initialized(0x0000);
    let mut memory = Memory::new_with_ram();
    let mut symbols: Option<SymbolTable> = None;
    memory.write(0x1000, &[0x4c, 0x00, 0x10]).unwrap(); // JMP $1000
    let token = command.execute(&mut registers, &mut memory, &mut symbols, &no_file).unwrap();
    assert!(matches!(token, OutputToken::TerminatedRun { loglines, .. } if loglines.len() == 1));
}

#[test]
fn while_run_ends_when_condition_fails() {
    let command = RunCommand {
        stop_condition: BooleanExpression::Value(false),
        continue_condition: BooleanExpression::Different(
            Source::Register(RegisterSource::RegisterX),
            Source::Value(3),
        ),
        start_address: Some(RunAddress::Memory(0x1000)),
    };
    let mut registers = Registers::new_initialized(0x0000);
    let mut memory = Memory::new_with_ram();
    let mut symbols: Option<SymbolTable> = None;
    // INX; INX; INX; INX
    memory.write(0x1000, &[0xe8, 0xe8, 0xe8, 0xe8]).unwrap();
    let token = command.execute(&mut registers, &mut memory, &mut symbols, &no_file).unwrap();
    assert!(matches!(token, OutputToken::Run { loglines, .. } if loglines.len() == 3));
    assert_eq!(3, registers.register_x);
}

#[test]
fn run_from_init_vector() {
    let command = RunCommand {
        stop_condition: BooleanExpression::Value(true),
        continue_condition: BooleanExpression::Value(true),
        start_address: Some(RunAddress::InitVector),
    };
    let mut registers = Registers::new_initialized(0x0000);
    let mut memory = Memory::new_with_ram();
    let mut symbols: Option<SymbolTable> = None;
    memory.write(0xfffc, &[0x00, 0x20]).unwrap();
    memory.write(0x2000, &[0xe8]).unwrap();
    command.execute(&mut registers, &mut memory, &mut symbols, &no_file).unwrap();
    assert_eq!(0x2001, registers.command_pointer);
}

#[test]
fn fill_and_show_memory() {
    let mut registers = Registers::new_initialized(0x0000);
    let mut memory = Memory::new_with_ram();
    let mut symbols: Option<SymbolTable> = None;
    let fill = MemoryCommand::Fill { start: 0x10, end: 0x13, value: 0xaa };
    let token = fill.execute(&mut registers, &mut memory, &mut symbols, &no_file).unwrap();
    assert!(matches!(token, OutputToken::Setup(s) if s[0] == *"memory filled from #0x0010 to #0x0013 with 0xaa"));
    let show = MemoryCommand::Show { address: 0x10, length: 5, width: Some(4), description: Some("data".to_string()) };
    let token = show.execute(&mut registers, &mut memory, &mut symbols, &no_file).unwrap();
    match token {
        OutputToken::Setup(lines) => {
            assert_eq!(vec!["data", "#0x0010: aa aa aa aa", "#0x0014: 00"], lines);
        },
        _ => panic!("a setup token was expected"),
    }
    let bad = MemoryCommand::Fill { start: 0x20, end: 0x10, value: 0 };
    assert!(bad.execute(&mut registers, &mut memory, &mut symbols, &no_file).is_err());
}

#[test]
fn symbols_are_added_and_removed() {
    let mut registers = Registers::new_initialized(0x0000);
    let mut memory = Memory::new_with_ram();
    let mut symbols: Option<SymbolTable> = None;
    let add = MemoryCommand::AddSymbol { name: "foo".to_string(), value: 0x1234 };
    add.execute(&mut registers, &mut memory, &mut symbols, &no_file).unwrap();
    assert_eq!(Some(0x1234), symbols.as_ref().unwrap().get_address("foo"));
    let remove = MemoryCommand::RemoveSymbol { name: "foo".to_string() };
    remove.execute(&mut registers, &mut memory, &mut symbols, &no_file).unwrap();
    assert_eq!(None, symbols.as_ref().unwrap().get_address("foo"));
}

#[test]
fn show_registers() {
    let mut registers = Registers::new_initialized(0x1234);
    registers.accumulator = 0x42;
    let mut memory = Memory::new_with_ram();
    let mut symbols: Option<SymbolTable> = None;
    let show = RegisterCommand::Show { register: Some(RegisterSource::Accumulator) };
    let token = show.execute(&mut registers, &mut memory, &mut symbols, &no_file).unwrap();
    assert!(matches!(token, OutputToken::Setup(s) if s == vec!["A = 0x42".to_string()]));
    let show = RegisterCommand::Show { register: None };
    let token = show.execute(&mut registers, &mut memory, &mut symbols, &no_file).unwrap();
    assert!(matches!(token, OutputToken::Setup(s) if s.len() == 7 && s[5] == "CP = #0x1234"));
}
