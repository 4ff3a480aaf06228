use soft65c02::{
    execute_step, read_step, resolve_opcode, AddressableIO, AddressingMode, AddressingModeResolution, CPUError,
    CPUInstruction, LogLine, Memory, Registers, RAM,
};

#[test]
fn processing_unit_test_dex() {
    let memory = Memory::new_with_ram();
    let instr: CPUInstruction = resolve_opcode(0x1000, 0xca, &memory).unwrap();
    assert_eq!("DEX".to_owned(), instr.mnemonic);
    assert_eq!(AddressingMode::Implied, instr.addressing_mode);
}

#[test]
fn test_execute_step_dex() {
    let mut memory = Memory::new_with_ram();
    memory.write(0x1000, &vec![0xca]).unwrap();
    let mut registers = Registers::new(0x1000);
    registers.register_x = 0x10;

    let _logline: LogLine = execute_step(&mut registers, &mut memory).unwrap();
    assert_eq!(0x0f, registers.register_x);
    assert_eq!(0x1001, registers.command_pointer);
}

#[test]
fn simulate_step_dex() {
    let mut memory = Memory::new_with_ram();
    memory.write(0x1000, &vec![0xca]).unwrap();
    let cpu_instruction: CPUInstruction = read_step(0x1000, &memory).unwrap();
    assert_eq!(0x1000, cpu_instruction.address);
    assert_eq!("DEX".to_owned(), cpu_instruction.mnemonic);
}

fn execute(memory: &mut Memory, registers: &mut Registers) -> Result<Vec<LogLine>, CPUError> {
    let mut cp: usize = 0;
    let mut output: Vec<LogLine> = vec![];

    while cp != registers.command_pointer {
        cp = registers.command_pointer;
        output.push(execute_step(registers, memory)?);
    }

    Ok(output)
}

#[test]
fn execute_program() {
    let init_vector: usize = 0x0800;
    let mut memory = Memory::new_with_ram();
    memory
        .write(init_vector, &[0xa9, 0xc0, 0xaa, 0xe8, 0x69, 0x14, 0x00, 0x3a, 0xd5, 0x20, 0xd0, 0xfe, 0xdb])
        .unwrap();
    memory.write(0xfffe, &[0x00, 0x80]).unwrap();
    memory.write(0x8000, &[0x95, 0x20, 0x40]).unwrap();
    let mut registers = Registers::new_initialized(init_vector);
    let loglines = execute(&mut memory, &mut registers).unwrap();
    let expected_output: Vec<&str> = vec![
        "#0x0800: (a9 c0)       LDA  #$c0     (#0x0801)  [A=0xc0][S=Nv-Bdizc][2]",
        "#0x0802: (aa)          TAX                      [X=0xc0][S=Nv-Bdizc][2]",
        "#0x0803: (e8)          INX                      [X=0xc1][S=Nv-Bdizc][2]",
        "#0x0804: (69 14)       ADC  #$14     (#0x0805)  (0x14)[A=0xd4][S=Nv-Bdizc][2]",
        "#0x0806: (00)          BRK                      [CP=0x8000][SP=0xfc][S=Nv-BdIzc][7]",
        "#0x8000: (95 20)       STA  $20,X    (#0x00E1)  (0xd4)[4]",
        "#0x8002: (40)          RTI                      [CP=0x0808][SP=0xff][S=Nv-Bdizc][6]",
        "#0x0808: (d5 20)       CMP  $20,X    (#0x00E1)  (0xd4)[A=0xd4][S=nv-BdiZC][4]",
        "#0x080A: (d0 fe)       BNE  $080A               [CP=0x080C][2]",
        "#0x080C: (db)          STP                      [S=nv-BdiZC][3]",
    ];
    loglines.iter().enumerate().for_each(|(i, line)| {
        assert_eq!(format!("{}", expected_output[i]), line.to_string().as_str().trim().to_owned())
    });
    assert_eq!(0xc1, registers.register_x);
    assert_eq!(0xd4, registers.accumulator);
}

#[test]
fn check_write_ram() {
    let mut memory = RAM::default();
    memory.write(1000, &[0x01, 0x02, 0x03]).unwrap();

    assert_eq!(vec![1, 2, 3, 0], memory.read(1000, 4).unwrap());
}

#[test]
fn check_read_ram() {
    let mut memory = RAM::default();
    memory.write(1000, &[0xff]).unwrap();

    assert_eq!(vec![0x00, 0xff, 0x00], memory.read(999, 3).unwrap());
}

fn solve(am: AddressingMode, memory: &Memory, registers: &Registers) -> AddressingModeResolution {
    am.solve(0x1000, memory, registers).unwrap()
}

#[test]
fn test_implied() {
    let mut memory = Memory::new_with_ram();
    memory.write(0x1000, &[0xe8, 0xff, 0xff]).unwrap();
    let registers = Registers::new(0x1000);
    let resolution = solve(AddressingMode::Implied, &memory, &registers);

    assert_eq!(0, resolution.operands.len());
    assert_eq!(None, resolution.target_address);
    assert_eq!("".to_owned(), resolution.to_string());
}

#[test]
fn test_immediate() {
    let mut memory = Memory::new_with_ram();
    memory.write(0x1000, &[0xe8, 0xff, 0xff]).unwrap();
    let registers = Registers::new(0x1000);
    let resolution = solve(AddressingMode::Immediate([0xff]), &memory, &registers);

    assert_eq!(vec![0xff], resolution.operands);
    assert_eq!(0x1001, resolution.target_address.unwrap());
    assert_eq!("#$ff".to_owned(), resolution.to_string());
}

#[test]
fn test_zero_page() {
    let mut memory = Memory::new_with_ram();
    memory.write(0x1000, &[0xa5, 0x21, 0x22]).unwrap();
    let registers = Registers::new(0x1000);
    let resolution = solve(AddressingMode::ZeroPage([0x21]), &memory, &registers);

    assert_eq!(vec![0x21], resolution.operands);
    assert_eq!(0x0021, resolution.target_address.unwrap());
    assert_eq!("$21".to_owned(), resolution.to_string());
}

#[test]
fn test_absolute() {
    let mut memory = Memory::new_with_ram();
    memory.write(0x1000, &[0xa5, 0x21, 0x22]).unwrap();
    let registers = Registers::new(0x1000);
    let resolution = solve(AddressingMode::Absolute([0x21, 0x22]), &memory, &registers);

    assert_eq!(vec![0x21, 0x22], resolution.operands);
    assert_eq!(0x2221, resolution.target_address.unwrap());
    assert_eq!("$2221".to_owned(), resolution.to_string());
}

#[test]
fn test_absolute_x_indexed() {
    let mut memory = Memory::new_with_ram();
    memory.write(0x1000, &[0xa5, 0x21, 0x22]).unwrap();
    let mut registers = Registers::new(0x1000);
    registers.register_x = 0x05;
    let resolution = solve(AddressingMode::AbsoluteXIndexed([0x21, 0x22]), &memory, &registers);

    assert_eq!(vec![0x21, 0x22], resolution.operands);
    assert_eq!(0x2226, resolution.target_address.unwrap());
    assert_eq!("$2221,X".to_owned(), resolution.to_string());
}

#[test]
fn test_absolute_y_indexed() {
    let mut memory = Memory::new_with_ram();
    memory.write(0x1000, &[0xa5, 0x21, 0x22]).unwrap();
    let mut registers = Registers::new(0x1000);
    registers.register_y = 0x16;
    let resolution = solve(AddressingMode::AbsoluteYIndexed([0x21, 0x22]), &memory, &registers);

    assert_eq!(vec![0x21, 0x22], resolution.operands);
    assert_eq!(0x2237, resolution.target_address.unwrap());
    assert_eq!("$2221,Y".to_owned(), resolution.to_string());
}

#[test]
fn test_indirect() {
    let mut memory = Memory::new_with_ram();
    memory.write(0x1000, &[0xa5, 0x21, 0x22]).unwrap();
    memory.write(0x2221, &[0x0a, 0x80]).unwrap();
    let registers = Registers::new(0x1000);
    let resolution = solve(AddressingMode::Indirect([0x21, 0x22]), &memory, &registers);

    assert_eq!(vec![0x21, 0x22], resolution.operands);
    assert_eq!(0x800a, resolution.target_address.unwrap());
    assert_eq!("($2221)".to_owned(), resolution.to_string());
}

#[test]
fn test_zero_page_x_indexed() {
    let mut memory = Memory::new_with_ram();
    memory.write(0x1000, &[0xa5, 0x21, 0x22]).unwrap();
    let mut registers = Registers::new(0x1000);
    registers.register_x = 0x05;
    let resolution = solve(AddressingMode::ZeroPageXIndexed([0x21]), &memory, &registers);

    assert_eq!(vec![0x21], resolution.operands);
    assert_eq!(0x0026, resolution.target_address.unwrap());
    assert_eq!("$21,X".to_owned(), resolution.to_string());
}

#[test]
fn test_zero_page_y_indexed() {
    let mut memory = Memory::new_with_ram();
    memory.write(0x1000, &[0xa5, 0x21, 0x22]).unwrap();
    let mut registers = Registers::new(0x1000);
    registers.register_y = 0x05;
    let resolution = solve(AddressingMode::ZeroPageYIndexed([0x21]), &memory, &registers);

    assert_eq!(vec![0x21], resolution.operands);
    assert_eq!(0x0026, resolution.target_address.unwrap());
    assert_eq!("$21,Y".to_owned(), resolution.to_string());
}

#[test]
fn test_zero_page_indirect_y_indexed() {
    let mut memory = Memory::new_with_ram();
    memory.write(0x1000, &[0xa5, 0x21, 0x22]).unwrap();
    memory.write(0x0021, &[0x05, 0x80]).unwrap();
    let mut registers = Registers::new(0x1000);
    registers.register_y = 0x05;
    let resolution = solve(AddressingMode::ZeroPageIndirectYIndexed([0x21]), &memory, &registers);

    assert_eq!(vec![0x21], resolution.operands);
    assert_eq!(0x800a, resolution.target_address.unwrap());
    assert_eq!("($21),Y".to_owned(), resolution.to_string());
}
