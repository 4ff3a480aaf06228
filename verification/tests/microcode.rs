use soft65c02::cpu_instruction::DEX;
use soft65c02::{AddressableIO, AddressingMode, CPUInstruction, Memory, Microcode, Registers, STACK_BASE_ADDR};

fn get_stuff(addr: usize, program: &[u8]) -> (Memory, Registers) {
    let mut memory = Memory::new_with_ram();
    memory.write(addr, program).unwrap();
    let registers = Registers::new(addr);
    (memory, registers)
}

#[test]
fn test_adc() {
    let cpu_instruction = CPUInstruction::new(0x1000, 0xca, "ADC", AddressingMode::Immediate([0x0a]), Microcode::Adc);
    let (mut memory, mut registers) = get_stuff(0x1000, &[0x4c, 0x0a, 0x02]);
    registers.accumulator = 0x28;
    let log_line = cpu_instruction.execute(&mut memory, &mut registers).unwrap();
    assert_eq!("ADC".to_owned(), log_line.mnemonic);
    assert_eq!(0x32, registers.accumulator);
    assert!(!registers.c_flag_is_set());
    assert!(!registers.z_flag_is_set());
    assert!(!registers.n_flag_is_set());
    assert_eq!(0x1002, registers.command_pointer);
}

#[test]
fn test_adc_with_carry() {
    let cpu_instruction = CPUInstruction::new(0x1000, 0xca, "ADC", AddressingMode::Immediate([0x0a]), Microcode::Adc);
    let (mut memory, mut registers) = get_stuff(0x1000, &[0x4c, 0x0a, 0x02]);
    registers.accumulator = 0x28;
    registers.set_c_flag(true);
    let _log_line = cpu_instruction.execute(&mut memory, &mut registers).unwrap();
    assert_eq!(0x33, registers.accumulator);
    assert!(!registers.c_flag_is_set());
    assert!(!registers.z_flag_is_set());
    assert!(!registers.n_flag_is_set());
}

#[test]
fn test_adc_set_carry() {
    let cpu_instruction = CPUInstruction::new(0x1000, 0xca, "ADC", AddressingMode::Immediate([0x0a]), Microcode::Adc);
    let (mut memory, mut registers) = get_stuff(0x1000, &[0x4c, 0x0a, 0x02]);
    registers.accumulator = 0xf8;
    registers.set_c_flag(false);
    let _log_line = cpu_instruction.execute(&mut memory, &mut registers).unwrap();
    assert_eq!(0x02, registers.accumulator);
    assert!(registers.c_flag_is_set());
    assert!(!registers.z_flag_is_set());
    assert!(!registers.n_flag_is_set());
}

#[test]
fn test_adc_set_zero() {
    let cpu_instruction = CPUInstruction::new(0x1000, 0xca, "ADC", AddressingMode::Immediate([0x0a]), Microcode::Adc);
    let (mut memory, mut registers) = get_stuff(0x1000, &[0x4c, 0x0a, 0x02]);
    registers.accumulator = 0xf6;
    registers.set_c_flag(false);
    let _log_line = cpu_instruction.execute(&mut memory, &mut registers).unwrap();
    assert_eq!(0x00, registers.accumulator);
    assert!(registers.c_flag_is_set());
    assert!(registers.z_flag_is_set());
    assert!(!registers.n_flag_is_set());
}

#[test]
fn test_adc_set_negative() {
    let cpu_instruction = CPUInstruction::new(0x1000, 0xca, "ADC", AddressingMode::Immediate([0x0a]), Microcode::Adc);
    let (mut memory, mut registers) = get_stuff(0x1000, &[0x4c, 0x0a, 0x02]);
    registers.accumulator = 0x7a;
    registers.set_c_flag(false);
    let _log_line = cpu_instruction.execute(&mut memory, &mut registers).unwrap();
    assert_eq!(0x84, registers.accumulator);
    assert!(!registers.c_flag_is_set());
    assert!(!registers.z_flag_is_set());
    assert!(registers.n_flag_is_set());
}

#[test]
fn test_bit() {
    let cpu_instruction = CPUInstruction::new(0x1000, 0xca, "BIT", AddressingMode::Immediate([0x0a]), Microcode::Bit);
    let (mut memory, mut registers) = get_stuff(0x1000, &[0xca, 0x0a, 0x02]);
    registers.accumulator = 0x03;
    let log_line = cpu_instruction.execute(&mut memory, &mut registers).unwrap();
    assert_eq!("BIT".to_owned(), log_line.mnemonic);
    assert!(!registers.z_flag_is_set());
    assert!(!registers.n_flag_is_set());
    assert!(!registers.v_flag_is_set());
    assert_eq!(0x1002, registers.command_pointer);
}

#[test]
fn test_bit_negative() {
    let cpu_instruction = CPUInstruction::new(0x1000, 0xca, "bit", AddressingMode::ZeroPage([0xa0]), Microcode::Bit);
    let (mut memory, mut registers) = get_stuff(0x1000, &[0xca, 0xa0, 0x02]);
    registers.accumulator = 0x03;
    memory.write(0xa0, &vec![0xba]).unwrap();
    let _log_line = cpu_instruction.execute(&mut memory, &mut registers).unwrap();
    assert!(!registers.z_flag_is_set());
    assert!(registers.n_flag_is_set());
    assert!(!registers.v_flag_is_set());
}

#[test]
fn test_bit_negative_immediate() {
    let cpu_instruction = CPUInstruction::new(0x1000, 0xca, "bit", AddressingMode::Immediate([0xba]), Microcode::Bit);
    let (mut memory, mut registers) = get_stuff(0x1000, &[0xca, 0xba, 0x02]);
    registers.accumulator = 0x03;
    let _log_line = cpu_instruction.execute(&mut memory, &mut registers).unwrap();
    assert!(!registers.z_flag_is_set());
    assert!(!registers.n_flag_is_set());
    assert!(!registers.v_flag_is_set());
}

#[test]
fn test_bit_zero() {
    let cpu_instruction = CPUInstruction::new(0x1000, 0xca, "bit", AddressingMode::Immediate([0x03]), Microcode::Bit);
    let (mut memory, mut registers) = get_stuff(0x1000, &[0xca, 0x03, 0x02]);
    registers.accumulator = 0x04;
    let _log_line = cpu_instruction.execute(&mut memory, &mut registers).unwrap();
    assert!(registers.z_flag_is_set());
    assert!(!registers.n_flag_is_set());
    assert!(!registers.v_flag_is_set());
}

#[test]
fn test_bit_overflow() {
    let cpu_instruction = CPUInstruction::new(0x1000, 0xca, "bit", AddressingMode::ZeroPage([0xa0]), Microcode::Bit);
    let (mut memory, mut registers) = get_stuff(0x1000, &[0xca, 0xa0, 0x02]);
    registers.accumulator = 0x03;
    memory.write(0xa0, &vec![0x4d]).unwrap();
    let _log_line = cpu_instruction.execute(&mut memory, &mut registers).unwrap();
    assert!(!registers.z_flag_is_set());
    assert!(!registers.n_flag_is_set());
    assert!(registers.v_flag_is_set());
}

#[test]
fn test_bit_overflow_immediate() {
    let cpu_instruction = CPUInstruction::new(0x1000, 0xca, "bit", AddressingMode::Immediate([0x4d]), Microcode::Bit);
    let (mut memory, mut registers) = get_stuff(0x1000, &[0xca, 0x4d, 0x02]);
    registers.accumulator = 0x03;
    let _log_line = cpu_instruction.execute(&mut memory, &mut registers).unwrap();
    assert!(!registers.z_flag_is_set());
    assert!(!registers.n_flag_is_set());
    assert!(!registers.v_flag_is_set());
}

#[test]
fn test_bne() {
    // A branch lands on the address following the instruction plus the offset.
    let cpu_instruction = CPUInstruction::new(0x1000, 0xca, "BNE", AddressingMode::Relative(0x1000, [0x0a]), Microcode::Bne);
    let (mut memory, mut registers) = get_stuff(0x1000, &[0xca, 0x0a, 0x02]);
    registers.status_register = 0b01011000;
    let log_line = cpu_instruction.execute(&mut memory, &mut registers).unwrap();
    assert_eq!("BNE".to_owned(), log_line.mnemonic);
    assert_eq!(0x100c, registers.command_pointer);
}

#[test]
fn test_brk() {
    let cpu_instruction = CPUInstruction::new(0x1000, 0xca, "BRK", AddressingMode::Implied, Microcode::Brk);
    let (mut memory, mut registers) = get_stuff(0x1000, &[0x00]);
    memory.write(0xfffe, &[0x00, 0xf0]).unwrap();
    registers.stack_pointer = 0xff;
    let log_line = cpu_instruction.execute(&mut memory, &mut registers).unwrap();
    assert_eq!("BRK".to_owned(), log_line.mnemonic);
    assert_eq!(0xf000, registers.command_pointer);
    assert_eq!(0xfc, registers.stack_pointer);
    assert_eq!(vec![0b00110000, 0x02, 0x10], memory.read(STACK_BASE_ADDR + 0xfd, 3).unwrap());
    assert!(registers.i_flag_is_set());
}

#[test]
fn test_cpx_be() {
    let cpu_instruction = CPUInstruction::new(0x1000, 0xca, "CPX", AddressingMode::Immediate([0x0a]), Microcode::Cpx);
    let (mut memory, mut registers) = get_stuff(0x1000, &[0x4c, 0x0a, 0x02]);
    registers.register_x = 0x28;
    let log_line = cpu_instruction.execute(&mut memory, &mut registers).unwrap();
    assert_eq!("CPX".to_owned(), log_line.mnemonic);
    assert_eq!(0x1002, registers.command_pointer);
    assert!(registers.c_flag_is_set());
    assert!(!registers.z_flag_is_set());
    assert!(!registers.n_flag_is_set());
}

#[test]
fn test_cpx_equ() {
    let cpu_instruction = CPUInstruction::new(0x1000, 0xca, "CPX", AddressingMode::Immediate([0x0a]), Microcode::Cpx);
    let (mut memory, mut registers) = get_stuff(0x1000, &[0x4c, 0x0a, 0x02]);
    registers.register_x = 0x0a;
    let _log_line = cpu_instruction.execute(&mut memory, &mut registers).unwrap();
    assert!(registers.c_flag_is_set());
    assert!(registers.z_flag_is_set());
    assert!(!registers.n_flag_is_set());
}

#[test]
fn test_cpx_lt() {
    let cpu_instruction = CPUInstruction::new(0x1000, 0xca, "CPX", AddressingMode::Immediate([0x0a]), Microcode::Cpx);
    let (mut memory, mut registers) = get_stuff(0x1000, &[0x4c, 0x0a, 0x02]);
    registers.register_x = 0x01;
    let _log_line = cpu_instruction.execute(&mut memory, &mut registers).unwrap();
    assert!(!registers.c_flag_is_set());
    assert!(!registers.z_flag_is_set());
    assert!(registers.n_flag_is_set());
}

#[test]
fn test_dec() {
    let cpu_instruction = CPUInstruction::new(0x1000, 0xca, "DEC", AddressingMode::Accumulator, Microcode::Dec);
    let (mut memory, mut registers) = get_stuff(0x1000, &[0xca, 0x0a]);
    registers.accumulator = 0x10;
    let log_line = cpu_instruction.execute(&mut memory, &mut registers).unwrap();
    assert_eq!("DEC".to_owned(), log_line.mnemonic);
    assert_eq!(0x0f, registers.accumulator);
    assert!(!registers.z_flag_is_set());
    assert!(!registers.n_flag_is_set());
    assert_eq!(0x1001, registers.command_pointer);
}

#[test]
fn test_dec_memory() {
    let cpu_instruction = CPUInstruction::new(0x1000, 0xca, "DEC", AddressingMode::ZeroPage([0xa0]), Microcode::Dec);
    let (mut memory, mut registers) = get_stuff(0x1000, &[0xca, 0x0a]);
    memory.write(0xa0, &[0x10]).unwrap();
    let _log_line = cpu_instruction.execute(&mut memory, &mut registers).unwrap();
    assert_eq!(0x0f, memory.read(0xa0, 1).unwrap()[0]);
    assert!(!registers.z_flag_is_set());
    assert!(!registers.n_flag_is_set());
    assert_eq!(0x1002, registers.command_pointer);
}

#[test]
fn test_dec_when_zero() {
    let cpu_instruction = CPUInstruction::new(0x1000, 0xca, "DEC", AddressingMode::Accumulator, Microcode::Dec);
    let (mut memory, mut registers) = get_stuff(0x1000, &[0xca, 0x0a]);
    registers.accumulator = 0x00;
    registers.set_c_flag(false);
    let _log_line = cpu_instruction.execute(&mut memory, &mut registers).unwrap();
    assert_eq!(0xff, registers.accumulator);
    assert!(!registers.z_flag_is_set());
    assert!(!registers.c_flag_is_set()); // C flag is NOT affected.
    assert!(registers.n_flag_is_set());
}

#[test]
fn test_dec_when_one() {
    let cpu_instruction = CPUInstruction::new(0x1000, 0xca, "DEC", AddressingMode::Implied, Microcode::Dec);
    let (mut memory, mut registers) = get_stuff(0x1000, &[0xca, 0x0a]);
    registers.accumulator = 0x01;
    let _log_line = cpu_instruction.execute(&mut memory, &mut registers).unwrap();
    assert_eq!(0x00, registers.accumulator);
    assert!(registers.z_flag_is_set());
    assert!(!registers.n_flag_is_set());
}

#[test]
fn dex_test_dex() {
    let cpu_instruction = CPUInstruction::new(0x1000, 0xca, "DEX", AddressingMode::Implied, Microcode::Dex);
    let (mut memory, mut registers) = get_stuff(0x1000, &[0xca, 0x0a]);
    registers.register_x = 0x10;
    let log_line = cpu_instruction.execute(&mut memory, &mut registers).unwrap();
    assert_eq!("DEX".to_owned(), log_line.mnemonic);
    assert_eq!(0x0f, registers.register_x);
    assert_eq!(0b00000000, registers.status_register & 0b10000010);
    assert_eq!(0x1001, registers.command_pointer);
}

#[test]
fn test_dex_zero() {
    let cpu_instruction = CPUInstruction::new(0x1000, 0xca, "DEX", AddressingMode::Implied, Microcode::Dex);
    let (mut memory, mut registers) = get_stuff(0x1000, &[0xca, 0x0a]);
    let log_line = cpu_instruction.execute(&mut memory, &mut registers).unwrap();
    assert_eq!("DEX".to_owned(), log_line.mnemonic);
    assert_eq!(0xff, registers.register_x);
    assert_eq!(0b10000000, registers.status_register & 0b10000010);
    assert_eq!(0x1001, registers.command_pointer);
}

#[test]
fn test_eor() {
    let cpu_instruction = CPUInstruction::new(0x1000, 0xca, "eor", AddressingMode::Immediate([0x0a]), Microcode::Eor);
    let (mut memory, mut registers) = get_stuff(0x1000, &[0x4c, 0x0a, 0x02]);
    registers.accumulator = 0x02;
    let log_line = cpu_instruction.execute(&mut memory, &mut registers).unwrap();
    assert_eq!("eor".to_owned(), log_line.mnemonic);
    assert_eq!(0x08, registers.accumulator);
    assert_eq!(0x1002, registers.command_pointer);
}

#[test]
fn test_ina() {
    let cpu_instruction = CPUInstruction::new(0x1000, 0xca, "INA", AddressingMode::Implied, Microcode::Ina);
    let (mut memory, mut registers) = get_stuff(0x1000, &[0xe8, 0x0a, 0x02]);
    registers.accumulator = 0x28;
    let log_line = cpu_instruction.execute(&mut memory, &mut registers).unwrap();
    assert_eq!("INA".to_owned(), log_line.mnemonic);
    assert_eq!(0x29, registers.accumulator);
    assert!(!registers.z_flag_is_set());
    assert!(!registers.n_flag_is_set());
    assert_eq!(0x1001, registers.command_pointer);
}

#[test]
fn test_ina_with_z_flag() {
    let cpu_instruction = CPUInstruction::new(0x1000, 0xca, "INA", AddressingMode::Implied, Microcode::Ina);
    let (mut memory, mut registers) = get_stuff(0x1000, &[0xe8, 0x0a, 0x02]);
    registers.accumulator = 0xff;
    let _log_line = cpu_instruction.execute(&mut memory, &mut registers).unwrap();
    assert_eq!(0x00, registers.accumulator);
    assert!(registers.z_flag_is_set());
    assert!(!registers.n_flag_is_set());
}

#[test]
fn test_ina_with_n_flag() {
    let cpu_instruction = CPUInstruction::new(0x1000, 0xca, "INA", AddressingMode::Implied, Microcode::Ina);
    let (mut memory, mut registers) = get_stuff(0x1000, &[0xe8, 0x0a, 0x02]);
    registers.accumulator = 0xf7;
    let _log_line = cpu_instruction.execute(&mut memory, &mut registers).unwrap();
    assert_eq!(0xf8, registers.accumulator);
    assert!(!registers.z_flag_is_set());
    assert!(registers.n_flag_is_set());
}

#[test]
fn test_inc() {
    let cpu_instruction = CPUInstruction::new(0x1000, 0xca, "INC", AddressingMode::ZeroPage([0x0a]), Microcode::Inc);
    let (mut memory, mut registers) = get_stuff(0x1000, &[0xe8, 0x0a, 0x02]);
    memory.write(0x0a, &[0x28]).unwrap();
    let log_line = cpu_instruction.execute(&mut memory, &mut registers).unwrap();
    assert_eq!("INC".to_owned(), log_line.mnemonic);
    assert_eq!(0x29, memory.read(0x0a, 1).unwrap()[0]);
    assert!(!registers.z_flag_is_set());
    assert!(!registers.n_flag_is_set());
    assert_eq!(0x1002, registers.command_pointer);
}

#[test]
fn test_inc_acc() {
    let cpu_instruction = CPUInstruction::new(0x1000, 0xca, "INC", AddressingMode::Accumulator, Microcode::Inc);
    let (mut memory, mut registers) = get_stuff(0x1000, &[0xe8, 0x0a, 0x02]);
    registers.accumulator = 0x28;
    let log_line = cpu_instruction.execute(&mut memory, &mut registers).unwrap();
    assert_eq!("INC".to_owned(), log_line.mnemonic);
    assert_eq!(0x29, registers.accumulator);
    assert!(!registers.z_flag_is_set());
    assert!(!registers.n_flag_is_set());
    assert_eq!(0x1001, registers.command_pointer);
}

#[test]
fn test_inc_with_z_flag() {
    let cpu_instruction = CPUInstruction::new(0x1000, 0xca, "INC", AddressingMode::Accumulator, Microcode::Inc);
    let (mut memory, mut registers) = get_stuff(0x1000, &[0xe8, 0x0a, 0x02]);
    registers.accumulator = 0xff;
    let _log_line = cpu_instruction.execute(&mut memory, &mut registers).unwrap();
    assert_eq!(0x00, registers.accumulator);
    assert!(registers.z_flag_is_set());
    assert!(!registers.n_flag_is_set());
}

#[test]
fn test_inc_with_n_flag() {
    let cpu_instruction = CPUInstruction::new(0x1000, 0xca, "INC", AddressingMode::Accumulator, Microcode::Inc);
    let (mut memory, mut registers) = get_stuff(0x1000, &[0xe8, 0x0a, 0x02]);
    registers.accumulator = 0xf7;
    let _log_line = cpu_instruction.execute(&mut memory, &mut registers).unwrap();
    assert_eq!(0xf8, registers.accumulator);
    assert!(!registers.z_flag_is_set());
    assert!(registers.n_flag_is_set());
}

#[test]
fn test_jmp() {
    let cpu_instruction = CPUInstruction::new(0x1000, 0xca, "JMP", AddressingMode::Absolute([0x0a, 0x02]), Microcode::Jmp);
    let (mut memory, mut registers) = get_stuff(0x1000, &[0x4c, 0x0a, 0x02]);
    let log_line = cpu_instruction.execute(&mut memory, &mut registers).unwrap();
    assert_eq!("JMP".to_owned(), log_line.mnemonic);
    assert_eq!(0x020a, registers.command_pointer);
}

#[test]
fn test_lda() {
    let cpu_instruction = CPUInstruction::new(0x1000, 0xca, "LDA", AddressingMode::ZeroPage([0x0a]), Microcode::Lda);
    let (mut memory, mut registers) = get_stuff(0x1000, &[0xa9, 0x0a]);
    registers.accumulator = 0x10;
    memory.write(0x000a, &[0xfa]).unwrap();
    let log_line = cpu_instruction.execute(&mut memory, &mut registers).unwrap();
    assert_eq!("LDA".to_owned(), log_line.mnemonic);
    assert_eq!(0xfa, registers.accumulator);
    assert_eq!(0x1002, registers.command_pointer);
}

#[test]
fn test_ldx() {
    let cpu_instruction = CPUInstruction::new(0x1000, 0xa0, "ldx", AddressingMode::Immediate([0x0a]), Microcode::Ldx);
    let (mut memory, mut registers) = get_stuff(0x1000, &[0xa0, 0x0a]);
    registers.register_x = 0x10;
    let log_line = cpu_instruction.execute(&mut memory, &mut registers).unwrap();
    assert_eq!("ldx".to_owned(), log_line.mnemonic);
    assert_eq!(0x0a, registers.register_x);
    assert!(!registers.z_flag_is_set());
    assert!(!registers.n_flag_is_set());
    assert_eq!(0x1002, registers.command_pointer);
}

#[test]
fn test_ldx_negative() {
    let cpu_instruction = CPUInstruction::new(0x1000, 0xca, "LDX", AddressingMode::Immediate([0x8a]), Microcode::Ldx);
    let (mut memory, mut registers) = get_stuff(0x1000, &[0xa9, 0x8a]);
    registers.register_x = 0x10;
    let log_line = cpu_instruction.execute(&mut memory, &mut registers).unwrap();
    assert_eq!("LDX".to_owned(), log_line.mnemonic);
    assert_eq!(0x8a, registers.register_x);
    assert!(!registers.z_flag_is_set());
    assert!(registers.n_flag_is_set());
}

#[test]
fn test_ldx_zero() {
    let cpu_instruction = CPUInstruction::new(0x1000, 0xca, "LDX", AddressingMode::Immediate([0x00]), Microcode::Ldx);
    let (mut memory, mut registers) = get_stuff(0x1000, &[0xa9, 0x00]);
    registers.register_x = 0x10;
    let _log_line = cpu_instruction.execute(&mut memory, &mut registers).unwrap();
    assert_eq!(0x00, registers.register_x);
    assert!(registers.z_flag_is_set());
    assert!(!registers.n_flag_is_set());
}

#[test]
fn test_pha() {
    let cpu_instruction = CPUInstruction::new(0x1000, 0xca, "PHA", AddressingMode::Implied, Microcode::Pha);
    let (mut memory, mut registers) = get_stuff(0x1000, &[0x48, 0x0a]);
    registers.accumulator = 0x10;
    let log_line = cpu_instruction.execute(&mut memory, &mut registers).unwrap();
    assert_eq!("PHA".to_owned(), log_line.mnemonic);
    assert_eq!(0x10, memory.read(STACK_BASE_ADDR + 0x00ff, 1).unwrap()[0]);
    assert_eq!(0xfe, registers.stack_pointer);
    assert_eq!(0x1001, registers.command_pointer);
}

#[test]
fn test_php() {
    let cpu_instruction = CPUInstruction::new(0x1000, 0xca, "PHP", AddressingMode::Implied, Microcode::Php);
    let (mut memory, mut registers) = get_stuff(0x1000, &[0x48, 0x0a]);
    registers.set_d_flag(true);
    let log_line = cpu_instruction.execute(&mut memory, &mut registers).unwrap();
    assert_eq!("[SP=0xfe]", format!("{}", log_line.outcome));
    assert_eq!("PHP".to_owned(), log_line.mnemonic);
    assert_eq!(0b00111000, memory.read(STACK_BASE_ADDR + 0x00ff, 1).unwrap()[0]);
    assert_eq!(0xfe, registers.stack_pointer);
    assert_eq!(0x1001, registers.command_pointer);
}

#[test]
fn test_pla() {
    let cpu_instruction = CPUInstruction::new(0x1000, 0x08, "PLA", AddressingMode::Implied, Microcode::Pla);
    let (mut memory, mut registers) = get_stuff(0x1000, &[0x08, 0x0a]);
    memory.write(0x01ff, &[0x10]).unwrap();
    registers.accumulator = 0x00;
    registers.stack_pointer = 0xfe;
    let log_line = cpu_instruction.execute(&mut memory, &mut registers).unwrap();
    assert_eq!("PLA".to_owned(), log_line.mnemonic);
    assert_eq!(0x10, registers.accumulator);
    assert_eq!(0xff, registers.stack_pointer);
    assert_eq!(0x1001, registers.command_pointer);
    assert!(!registers.n_flag_is_set());
    assert!(!registers.z_flag_is_set());
    // The trace ends with the cycle count of the opcode (0x08 takes 3 cycles).
    assert_eq!(format!("#0x1000: (08)          PLA                      [A=0x10][SP=0xff][S=nv-Bdizc][3]"), log_line.to_string());
}

#[test]
fn test_pla_zero() {
    let cpu_instruction = CPUInstruction::new(0x1000, 0xca, "PLA", AddressingMode::Implied, Microcode::Pla);
    let (mut memory, mut registers) = get_stuff(0x1000, &[0x48, 0x0a]);
    memory.write(0x01ff, &[0x00]).unwrap();
    registers.accumulator = 0x10;
    registers.stack_pointer = 0xfe;
    let _log_line = cpu_instruction.execute(&mut memory, &mut registers).unwrap();
    assert_eq!(0x00, registers.accumulator);
    assert_eq!(0xff, registers.stack_pointer);
    assert!(!registers.n_flag_is_set());
    assert!(registers.z_flag_is_set());
}

#[test]
fn test_pla_neg() {
    let cpu_instruction = CPUInstruction::new(0x1000, 0xca, "PLA", AddressingMode::Implied, Microcode::Pla);
    let (mut memory, mut registers) = get_stuff(0x1000, &[0x48, 0x0a]);
    memory.write(0x01ff, &[0x81]).unwrap();
    registers.accumulator = 0x10;
    registers.stack_pointer = 0xfe;
    let _log_line = cpu_instruction.execute(&mut memory, &mut registers).unwrap();
    assert_eq!(0x81, registers.accumulator);
    assert_eq!(0xff, registers.stack_pointer);
    assert!(registers.n_flag_is_set());
    assert!(!registers.z_flag_is_set());
}

#[test]
fn test_plp() {
    let cpu_instruction = CPUInstruction::new(0x1000, 0x08, "PLP", AddressingMode::Implied, Microcode::Plp);
    let (mut memory, mut registers) = get_stuff(0x1000, &[0x08, 0x0a]);
    registers.set_z_flag(true);
    registers.set_d_flag(true);
    registers.set_c_flag(false);
    registers.set_n_flag(false);
    memory.write(STACK_BASE_ADDR + 0xff, &[registers.get_status_register()]).unwrap();
    registers.stack_pointer = 0xfe;
    registers.set_z_flag(false);
    registers.set_d_flag(false);
    registers.set_c_flag(true);
    registers.set_n_flag(true);
    let log_line = cpu_instruction.execute(&mut memory, &mut registers).unwrap();
    assert_eq!("PLP".to_owned(), log_line.mnemonic);
    assert!(registers.d_flag_is_set());
    assert!(registers.z_flag_is_set());
    assert!(!registers.c_flag_is_set());
    assert!(!registers.n_flag_is_set());
    assert_eq!(0xff, registers.stack_pointer);
    assert_eq!(0x1001, registers.command_pointer);
    assert_eq!(format!("#0x1000: (08)          PLP                      [SP=0xff][S=nv-BDiZc][3]"), log_line.to_string());
}

#[test]
fn test_ply() {
    let cpu_instruction = CPUInstruction::new(0x1000, 0x08, "PLY", AddressingMode::Implied, Microcode::Ply);
    let (mut memory, mut registers) = get_stuff(0x1000, &[0x08, 0x0a]);
    memory.write(0x01ff, &vec![0x10]).unwrap();
    registers.register_y = 0x00;
    registers.stack_pointer = 0xfe;
    let log_line = cpu_instruction.execute(&mut memory, &mut registers).unwrap();
    assert_eq!("PLY".to_owned(), log_line.mnemonic);
    assert_eq!(0x10, registers.register_y);
    assert_eq!(0xff, registers.stack_pointer);
    assert_eq!(0x1001, registers.command_pointer);
    assert!(!registers.n_flag_is_set());
    assert!(!registers.z_flag_is_set());
    assert_eq!(
        format!("#0x1000: (08)          PLY                      [Y=0x10][SP=0xff][S=nv-Bdizc][3]"),
        log_line.to_string()
    );
}

#[test]
fn test_ply_zero() {
    let cpu_instruction = CPUInstruction::new(0x1000, 0xca, "PLY", AddressingMode::Implied, Microcode::Ply);
    let (mut memory, mut registers) = get_stuff(0x1000, &[0x48, 0x0a]);
    memory.write(0x01ff, &vec![0x00]).unwrap();
    registers.register_y = 0x10;
    registers.stack_pointer = 0xfe;
    let _log_line = cpu_instruction.execute(&mut memory, &mut registers).unwrap();
    assert_eq!(0x00, registers.register_y);
    assert_eq!(0xff, registers.stack_pointer);
    assert!(!registers.n_flag_is_set());
    assert!(registers.z_flag_is_set());
}

#[test]
fn test_ply_neg() {
    let cpu_instruction = CPUInstruction::new(0x1000, 0xca, "PLY", AddressingMode::Implied, Microcode::Ply);
    let (mut memory, mut registers) = get_stuff(0x1000, &[0x48, 0x0a]);
    memory.write(0x01ff, &vec![0x81]).unwrap();
    registers.register_y = 0x10;
    registers.stack_pointer = 0xfe;
    let _log_line = cpu_instruction.execute(&mut memory, &mut registers).unwrap();
    assert_eq!(0x81, registers.register_y);
    assert_eq!(0xff, registers.stack_pointer);
    assert!(registers.n_flag_is_set());
    assert!(!registers.z_flag_is_set());
}

#[test]
fn test_rti() {
    let cpu_instruction = CPUInstruction::new(0x8000, 0xca, "RTI", AddressingMode::Implied, Microcode::Rti);
    let (mut memory, mut registers) = get_stuff(0x8000, &[0x00]);
    memory.write(STACK_BASE_ADDR + 0xfd, &[0b00110000, 0x01, 0x10]).unwrap();
    registers.stack_pointer = 0xfc;
    registers.set_z_flag(true);
    let log_line = cpu_instruction.execute(&mut memory, &mut registers).unwrap();
    assert_eq!("RTI".to_owned(), log_line.mnemonic);
    assert_eq!(0x1001, registers.command_pointer);
    assert_eq!(0xff, registers.stack_pointer);
    assert!(!registers.z_flag_is_set());
}

#[test]
fn test_rts() {
    let cpu_instruction = CPUInstruction::new(0x8000, 0xca, "RTS", AddressingMode::Implied, Microcode::Rts);
    let (mut memory, mut registers) = get_stuff(0x8000, &[0x00]);
    memory.write(STACK_BASE_ADDR + 0xfe, &[0x09, 0x10]).unwrap();
    registers.stack_pointer = 0xfd;
    let log_line = cpu_instruction.execute(&mut memory, &mut registers).unwrap();
    assert_eq!("RTS".to_owned(), log_line.mnemonic);
    assert_eq!(0x100a, registers.command_pointer);
    assert_eq!(0xff, registers.stack_pointer);
}

#[test]
fn test_sbc() {
    let cpu_instruction = CPUInstruction::new(0x1000, 0xca, "SBC", AddressingMode::Immediate([0x0a]), Microcode::Sbc);
    let (mut memory, mut registers) = get_stuff(0x1000, &[0x4c, 0x0a, 0x02]);
    registers.accumulator = 0x28;
    registers.set_c_flag(true);
    let log_line = cpu_instruction.execute(&mut memory, &mut registers).unwrap();
    assert_eq!("SBC".to_owned(), log_line.mnemonic);
    assert_eq!(0x1e, registers.accumulator);
    assert_eq!(0x1002, registers.command_pointer);
    assert!(registers.c_flag_is_set());
    assert!(!registers.z_flag_is_set());
    assert!(!registers.v_flag_is_set());
    assert!(!registers.n_flag_is_set());
}

#[test]
fn test_sbc_with_zero() {
    let cpu_instruction = CPUInstruction::new(0x1000, 0xca, "SBC", AddressingMode::Immediate([0x00]), Microcode::Sbc);
    let (mut memory, mut registers) = get_stuff(0x1000, &[0x4c, 0x00, 0x02]);
    registers.accumulator = 0x28;
    registers.set_c_flag(true);
    let _log_line = cpu_instruction.execute(&mut memory, &mut registers).unwrap();
    assert_eq!(0x28, registers.accumulator);
    assert_eq!(0x1002, registers.command_pointer);
    assert!(registers.c_flag_is_set());
    assert!(!registers.z_flag_is_set());
    assert!(!registers.v_flag_is_set());
    assert!(!registers.n_flag_is_set());
}

#[test]
fn test_sbc_with_no_preceding_carry() {
    let cpu_instruction = CPUInstruction::new(0x1000, 0xca, "SBC", AddressingMode::Immediate([0x01]), Microcode::Sbc);
    let (mut memory, mut registers) = get_stuff(0x1000, &[0x4c, 0x01, 0x02]);
    registers.accumulator = 0x28;
    registers.set_c_flag(false);
    let _log_line = cpu_instruction.execute(&mut memory, &mut registers).unwrap();
    assert_eq!(0x26, registers.accumulator);
    assert_eq!(0x1002, registers.command_pointer);
    assert!(registers.c_flag_is_set());
    assert!(!registers.z_flag_is_set());
    assert!(!registers.v_flag_is_set());
    assert!(!registers.n_flag_is_set());
}

#[test]
fn test_sbc_zero() {
    let cpu_instruction = CPUInstruction::new(0x1000, 0xca, "SBC", AddressingMode::Immediate([0x01]), Microcode::Sbc);
    let (mut memory, mut registers) = get_stuff(0x1000, &[0x4c, 0x01, 0x02]);
    registers.accumulator = 0x01;
    registers.set_c_flag(true);
    let _log_line = cpu_instruction.execute(&mut memory, &mut registers).unwrap();
    assert_eq!(0x00, registers.accumulator);
    assert_eq!(0x1002, registers.command_pointer);
    assert!(registers.c_flag_is_set());
    assert!(registers.z_flag_is_set());
    assert!(!registers.v_flag_is_set());
    assert!(!registers.n_flag_is_set());
}

#[test]
fn test_sbc_negative() {
    let cpu_instruction = CPUInstruction::new(0x1000, 0xca, "SBC", AddressingMode::Immediate([0xff]), Microcode::Sbc);
    let (mut memory, mut registers) = get_stuff(0x1000, &[0x4c, 0xff, 0x02]);
    registers.accumulator = 0xfb;
    registers.set_c_flag(true);
    let _log_line = cpu_instruction.execute(&mut memory, &mut registers).unwrap();
    assert_eq!(0xfc, registers.accumulator);
    assert_eq!(0x1002, registers.command_pointer);
    assert!(!registers.c_flag_is_set());
    assert!(!registers.z_flag_is_set());
    assert!(!registers.v_flag_is_set());
    assert!(registers.n_flag_is_set());
}

#[test]
fn test_sbc_overflow() {
    let cpu_instruction = CPUInstruction::new(0x1000, 0xca, "SBC", AddressingMode::Immediate([0x02]), Microcode::Sbc);
    let (mut memory, mut registers) = get_stuff(0x1000, &[0x4c, 0x02, 0x02]);
    registers.accumulator = 0x81;
    registers.set_c_flag(true);
    let _log_line = cpu_instruction.execute(&mut memory, &mut registers).unwrap();
    assert_eq!(0x7f, registers.accumulator);
    assert_eq!(0x1002, registers.command_pointer);
    assert!(registers.c_flag_is_set());
    assert!(!registers.z_flag_is_set());
    assert!(registers.v_flag_is_set());
    assert!(!registers.n_flag_is_set());
}

#[test]
fn test_sbc_zero_without_carry() {
    let cpu_instruction = CPUInstruction::new(0x1000, 0xca, "SBC", AddressingMode::Immediate([0xff]), Microcode::Sbc);
    let (mut memory, mut registers) = get_stuff(0x1000, &[0x4c, 0xff, 0x02]);
    registers.accumulator = 0x00;
    let _log_line = cpu_instruction.execute(&mut memory, &mut registers).unwrap();
    assert_eq!(0x00, registers.accumulator);
    assert_eq!(0x1002, registers.command_pointer);
    assert!(!registers.c_flag_is_set());
    assert!(registers.z_flag_is_set());
    assert!(!registers.v_flag_is_set());
    assert!(!registers.n_flag_is_set());
}

#[test]
fn test_sbc_zero_with_carry() {
    let cpu_instruction = CPUInstruction::new(0x1000, 0xca, "SBC", AddressingMode::Immediate([0xff]), Microcode::Sbc);
    let (mut memory, mut registers) = get_stuff(0x1000, &[0x4c, 0xff, 0x02]);
    registers.accumulator = 0xff;
    registers.set_c_flag(true);
    let _log_line = cpu_instruction.execute(&mut memory, &mut registers).unwrap();
    assert_eq!(0x00, registers.accumulator);
    assert_eq!(0x1002, registers.command_pointer);
    assert!(registers.c_flag_is_set());
    assert!(registers.z_flag_is_set());
    assert!(!registers.v_flag_is_set());
    assert!(!registers.n_flag_is_set());
}

#[test]
fn test_sta() {
    let cpu_instruction = CPUInstruction::new(0x1000, 0xca, "STA", AddressingMode::ZeroPage([0x0a]), Microcode::Sta);
    let (mut memory, mut registers) = get_stuff(0x1000, &[0xa9, 0x0a]);
    registers.accumulator = 0x10;
    let log_line = cpu_instruction.execute(&mut memory, &mut registers).unwrap();
    assert_eq!("STA".to_owned(), log_line.mnemonic);
    assert_eq!(0x10, memory.read(0x0a, 1).unwrap()[0]);
    assert_eq!(0x1002, registers.command_pointer);
}

#[test]
fn test_stp() {
    let cpu_instruction = CPUInstruction::new(0x1000, 0xdb, "STP", AddressingMode::Implied, Microcode::Stp);
    let (mut memory, mut registers) = get_stuff(0x1000, &[0xdb]);
    let log_line = cpu_instruction.execute(&mut memory, &mut registers).unwrap();
    assert_eq!("STP".to_owned(), log_line.mnemonic);
    assert_eq!(0x1000, registers.command_pointer);
}

#[test]
fn test_stx() {
    let cpu_instruction = CPUInstruction::new(0x1000, 0xca, "stx", AddressingMode::ZeroPage([0x0a]), Microcode::Stx);
    let (mut memory, mut registers) = get_stuff(0x1000, &[0x4c, 0x0a, 0x02]);
    registers.register_x = 0x28;
    let log_line = cpu_instruction.execute(&mut memory, &mut registers).unwrap();
    assert_eq!("stx".to_owned(), log_line.mnemonic);
    assert_eq!(0x28, memory.read(0x0a, 1).unwrap()[0]);
    assert_eq!(0x1002, registers.command_pointer);
}

#[test]
fn test_sty() {
    let cpu_instruction = CPUInstruction::new(0x1000, 0xca, "STY", AddressingMode::ZeroPage([0x0a]), Microcode::Sty);
    let (mut memory, mut registers) = get_stuff(0x1000, &[0x4c, 0x0a, 0x02]);
    registers.register_y = 0x28;
    let log_line = cpu_instruction.execute(&mut memory, &mut registers).unwrap();
    assert_eq!("STY".to_owned(), log_line.mnemonic);
    assert_eq!(0x28, memory.read(0x0a, 1).unwrap()[0]);
    assert_eq!(0x1002, registers.command_pointer);
}

#[test]
fn test_stz() {
    let cpu_instruction = CPUInstruction::new(0x1000, 0xca, "STZ", AddressingMode::Absolute([0x00, 0x10]), Microcode::Stz);
    let (mut memory, mut registers) = get_stuff(0x1000, &[0x4c, 0x00, 0x10]);
    let log_line = cpu_instruction.execute(&mut memory, &mut registers).unwrap();
    assert_eq!("STZ".to_owned(), log_line.mnemonic);
    assert_eq!(0x00, memory.read(0x1000, 1).unwrap()[0]);
    assert_eq!(0x1003, registers.command_pointer);
}

#[test]
fn test_trb() {
    let cpu_instruction = CPUInstruction::new(0x1000, 0xca, "TRB", AddressingMode::ZeroPage([0x00]), Microcode::Trb);
    let (mut memory, mut registers) = get_stuff(0x1000, &[0x8a, 0x00, 0x02]);
    memory.write(0x00, &vec![0xa6]).unwrap();
    registers.accumulator = 0x33;
    let log_line = cpu_instruction.execute(&mut memory, &mut registers).unwrap();
    assert_eq!("TRB".to_owned(), log_line.mnemonic);
    assert_eq!(0x84, memory.read(0x00, 1).unwrap()[0]);
    assert!(!registers.z_flag_is_set());
    assert_eq!(0x33, registers.accumulator);
    assert_eq!(0x1002, registers.command_pointer);
}

#[test]
fn test_trb_with_z_flag() {
    let cpu_instruction = CPUInstruction::new(0x1000, 0xca, "TRB", AddressingMode::ZeroPage([0x00]), Microcode::Trb);
    let (mut memory, mut registers) = get_stuff(0x1000, &[0x8a, 0x00, 0x02]);
    memory.write(0x00, &vec![0xa6]).unwrap();
    registers.accumulator = 0x41;
    let _log_line = cpu_instruction.execute(&mut memory, &mut registers).unwrap();
    assert_eq!(0xa6, memory.read(0x00, 1).unwrap()[0]);
    assert!(registers.z_flag_is_set());
    assert_eq!(0x41, registers.accumulator);
    assert_eq!(0x1002, registers.command_pointer);
}

#[test]
fn test_txa() {
    let cpu_instruction = CPUInstruction::new(0x1000, 0x8A, "TXA", AddressingMode::Implied, Microcode::Txa);
    let (mut memory, mut registers) = get_stuff(0x1000, &[0x8A]);
    registers.register_x = 0x43;
    registers.accumulator = 0x0a;
    let log_line = cpu_instruction.execute(&mut memory, &mut registers).unwrap();
    assert_eq!("TXA".to_owned(), log_line.mnemonic);
    assert_eq!(0x43, registers.accumulator);
    assert!(!registers.z_flag_is_set());
    assert!(!registers.n_flag_is_set());
    assert_eq!(0x1001, registers.command_pointer);
    assert_eq!(2, log_line.cycles);
    assert_eq!("#0x1000: (8a)          TXA                      [A=0x43][S=nv-Bdizc][2]", log_line.to_string());
}

#[test]
fn test_txa_with_n_flag() {
    let cpu_instruction = CPUInstruction::new(0x1000, 0x8A, "TXA", AddressingMode::Implied, Microcode::Txa);
    let (mut memory, mut registers) = get_stuff(0x1000, &[0x8A]);
    registers.set_n_flag(false);
    registers.register_x = 0x80;
    let log_line = cpu_instruction.execute(&mut memory, &mut registers).unwrap();
    assert_eq!(0x80, registers.accumulator);
    assert!(!registers.z_flag_is_set());
    assert!(registers.n_flag_is_set());
    assert_eq!(0x1001, registers.command_pointer);
    assert_eq!(2, log_line.cycles);
    assert_eq!("#0x1000: (8a)          TXA                      [A=0x80][S=Nv-Bdizc][2]", log_line.to_string());
}

#[test]
fn test_txa_with_z_flag() {
    let cpu_instruction = CPUInstruction::new(0x1000, 0x8A, "TXA", AddressingMode::Implied, Microcode::Txa);
    let (mut memory, mut registers) = get_stuff(0x1000, &[0x8A]);
    registers.set_z_flag(false);
    registers.register_x = 0x00;
    registers.accumulator = 0x0a;
    let log_line = cpu_instruction.execute(&mut memory, &mut registers).unwrap();
    assert_eq!(0x00, registers.accumulator);
    assert!(registers.z_flag_is_set());
    assert!(!registers.n_flag_is_set());
    assert_eq!(0x1001, registers.command_pointer);
    assert_eq!(2, log_line.cycles);
    assert_eq!("#0x1000: (8a)          TXA                      [A=0x00][S=nv-BdiZc][2]", log_line.to_string());
}

#[test]
fn test_txs() {
    let cpu_instruction = CPUInstruction::new(0x1000, 0x9A, "TXS", AddressingMode::Implied, Microcode::Txs);
    let (mut memory, mut registers) = get_stuff(0x1000, &[0x9A]);
    registers.register_x = 0x83;
    let log_line = cpu_instruction.execute(&mut memory, &mut registers).unwrap();
    assert_eq!("TXS".to_owned(), log_line.mnemonic);
    assert_eq!(0x83, registers.stack_pointer);
    assert_eq!(0x1001, registers.command_pointer);
    assert_eq!(2, log_line.cycles);
    assert_eq!("#0x1000: (9a)          TXS                      [SP=0x83][S=nv-Bdizc][2]", log_line.to_string());
}

#[test]
fn test_txs_with_zero() {
    let cpu_instruction = CPUInstruction::new(0x1000, 0x9A, "TXS", AddressingMode::Implied, Microcode::Txs);
    let (mut memory, mut registers) = get_stuff(0x1000, &[0x9A]);
    registers.register_x = 0x00;
    let log_line = cpu_instruction.execute(&mut memory, &mut registers).unwrap();
    assert_eq!(0x00, registers.stack_pointer);
    assert_eq!(0x1001, registers.command_pointer);
    assert_eq!(2, log_line.cycles);
    assert_eq!("#0x1000: (9a)          TXS                      [SP=0x00][S=nv-Bdizc][2]", log_line.to_string());
}

#[test]
fn test_txs_with_negative() {
    let cpu_instruction = CPUInstruction::new(0x1000, 0x9A, "TXS", AddressingMode::Implied, Microcode::Txs);
    let (mut memory, mut registers) = get_stuff(0x1000, &[0x9A]);
    registers.register_x = 0xFF;
    let log_line = cpu_instruction.execute(&mut memory, &mut registers).unwrap();
    assert_eq!(0xFF, registers.stack_pointer);
    assert_eq!(0x1001, registers.command_pointer);
    assert_eq!(2, log_line.cycles);
    assert_eq!("#0x1000: (9a)          TXS                      [SP=0xff][S=nv-Bdizc][2]", log_line.to_string());
}

#[test]
fn cpu_instruction_test_dex() {
    let (mut memory, mut registers) = get_stuff(0x1000, &[0xca, 0x0a]);
    registers.register_x = 0x10;
    assert_eq!("Pika".to_owned(), DEX(&mut memory, &mut registers, &AddressingMode::Implied));
    assert_eq!(0x0f, registers.register_x);
    assert_eq!(0b00000000, registers.status_register & 0b10000010);
}

#[test]
fn legacy_dex_wraps_and_moves_past_operands() {
    let (mut memory, mut registers) = get_stuff(0x1000, &[0xca]);
    registers.register_x = 0x00;
    registers.status_register = 0b0000_0010;
    assert_eq!("Pika", DEX(&mut memory, &mut registers, &AddressingMode::Implied));
    assert_eq!(0xff, registers.register_x);
    assert_eq!(0b1000_0010, registers.status_register);
    assert_eq!(0x1001, registers.command_pointer);
    registers.register_x = 0x01;
    registers.status_register = 0b1000_0000;
    DEX(&mut memory, &mut registers, &AddressingMode::ZeroPage([0x10]));
    assert_eq!(0x00, registers.register_x);
    assert_eq!(0b1000_0010, registers.status_register);
    assert_eq!(0x1003, registers.command_pointer);
}

#[test]
fn sbc_in_decimal_mode_is_refused() {
    let cpu_instruction = CPUInstruction::new(0x1000, 0xe9, "SBC", AddressingMode::Immediate([0x0a]), Microcode::Sbc);
    let (mut memory, mut registers) = get_stuff(0x1000, &[0xe9, 0x0a]);
    registers.accumulator = 0x28;
    registers.set_d_flag(true);
    let before = registers;
    assert!(cpu_instruction.execute(&mut memory, &mut registers).is_err());
    assert_eq!(before, registers);
}
