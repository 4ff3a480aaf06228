use soft65c02::{AddressableIO, Disassembler, Memory, SymbolTable};

#[test]
fn test_disassemble_simple_program() {
    let mut memory = Memory::new_with_ram();
    let symbols = None;

    memory.write(0x1000, &[0xa9, 0x42, 0x8d, 0x34, 0x12, 0x60]).unwrap();

    let disassembler = Disassembler::new(&memory, &symbols);
    let output = disassembler.disassemble_range(0x1000, 0x1005).unwrap();

    let expected_output = "\
---- Start of disassembly ----
#0x1000: (a9 42)     LDA  #$42
#0x1002: (8d 34 12)  STA  $1234
#0x1005: (60)        RTS 
----- End of disassembly -----";

    let actual_output = output.join("\n");
    assert_eq!(actual_output, expected_output, "\nExpected:\n{}\n\nActual:\n{}\n", expected_output, actual_output);
}

#[test]
fn test_disassemble_with_symbols() {
    let mut memory = Memory::new_with_ram();
    let mut symbols = Some(SymbolTable::new());

    memory
        .write(
            0x1000,
            &[
                0xa9, 0x42, // LDA #$42
                0x8d, 0x34, 0x12, // STA $1234
                0xb1, 0x88, // LDA ($88),Y
                0x20, 0x00, 0x20, // JSR $2000
                0x60, // RTS
            ],
        )
        .unwrap();

    if let Some(symbols) = &mut symbols {
        symbols.add_symbol(0x1000, "start".to_string());
        symbols.add_symbol(0x1000, "main".to_string());
        symbols.add_symbol(0x1234, "COUNTER".to_string());
        symbols.add_symbol(0x0088, "TMP1".to_string());
        symbols.add_symbol(0x2000, "other_func".to_string());
        // this should not match the literal value as we explicitly don't want to mix values with symbols
        symbols.add_symbol(0x42, "VAL1".to_string());
    }

    let disassembler = Disassembler::new(&memory, &symbols);
    let output = disassembler.disassemble_range(0x1000, 0x100a).unwrap();

    let expected_output = "\
---- Start of disassembly ----
main, start:
#0x1000: (a9 42)     LDA  #$42
#0x1002: (8d 34 12)  STA  COUNTER
#0x1005: (b1 88)     LDA  (TMP1),Y
#0x1007: (20 00 20)  JSR  other_func
#0x100A: (60)        RTS 
----- End of disassembly -----";

    let actual_output = output.join("\n");
    assert_eq!(actual_output, expected_output, "\nExpected:\n{}\n\nActual:\n{}\n", expected_output, actual_output);
}

#[test]
fn test_disassemble_with_branch() {
    let mut memory = Memory::new_with_ram();
    let mut symbols = Some(SymbolTable::new());

    memory
        .write(
            0x1000,
            &[
                0x18, // CLC
                0xa9, 0x10, // LDA #$10
                0x6d, 0x00, 0x20, // ADC $2000
                0x8d, 0x00, 0x20, // STA $2000
                0x90, 0x0D, // BCC +0D (to branch_1)
                0xee, 0x01, 0x20, // INC $2001
                0xd0, 0x05, // BNE +5 (to branch_2)
                0xf0, 0xee, // BEQ -18 (back to start/main)
                0x4c, 0x1b, 0x10, // JMP end
                0xa9, 0x00, // LDA #$00
                0x60, // RTS
                0xa9, 0xff, // LDA #$ff
                0x60, // RTS
                0xa9, 0x42, // LDA #$42
                0x60, // RTS (end)
            ],
        )
        .unwrap();

    if let Some(symbols) = &mut symbols {
        symbols.add_symbol(0x1000, "start".to_string());
        symbols.add_symbol(0x1000, "main".to_string());
        symbols.add_symbol(0x2000, "mem_lo".to_string());
        symbols.add_symbol(0x2001, "mem_hi".to_string());
        symbols.add_symbol(0x101b, "end".to_string());
    }

    let disassembler = Disassembler::new(&memory, &symbols);
    let output = disassembler.disassemble_range(0x1000, 0x101d).unwrap();

    let expected_output = "\
---- Start of disassembly ----
main, start:
#0x1000: (18)        CLC 
#0x1001: (a9 10)     LDA  #$10
#0x1003: (6d 00 20)  ADC  mem_lo
#0x1006: (8d 00 20)  STA  mem_lo
#0x1009: (90 0d)     BCC  branch_1
#0x100B: (ee 01 20)  INC  mem_hi
#0x100E: (d0 05)     BNE  branch_2
#0x1010: (f0 ee)     BEQ  main
#0x1012: (4c 1b 10)  JMP  end
branch_2:
#0x1015: (a9 00)     LDA  #$00
#0x1017: (60)        RTS 
branch_1:
#0x1018: (a9 ff)     LDA  #$ff
#0x101A: (60)        RTS 
end:
#0x101B: (a9 42)     LDA  #$42
#0x101D: (60)        RTS 
----- End of disassembly -----";

    let actual_output = output.join("\n");
    assert_eq!(actual_output, expected_output, "\nExpected:\n{}\n\nActual:\n{}\n", expected_output, actual_output);
}

#[test]
fn test_disassemble_with_indirect_addressing() {
    let mut memory = Memory::new_with_ram();
    let mut symbols = Some(SymbolTable::new());

    memory
        .write(
            0x1000,
            &[
                0xb1, 0x88, // LDA ($88),Y
                0xa1, 0x90, // LDA ($90,X)
                0x81, 0x92, // STA ($92,X)
                0x91, 0x94, // STA ($94),Y
                0x60, // RTS
            ],
        )
        .unwrap();

    if let Some(symbols) = &mut symbols {
        symbols.add_symbol(0x0088, "PTR1".to_string());
        symbols.add_symbol(0x0090, "PTR2".to_string());
        symbols.add_symbol(0x0092, "PTR3".to_string());
        symbols.add_symbol(0x0094, "PTR4".to_string());
    }

    let disassembler = Disassembler::new(&memory, &symbols);
    let output = disassembler.disassemble_range(0x1000, 0x1008).unwrap();

    let expected_output = "\
---- Start of disassembly ----
#0x1000: (b1 88)     LDA  (PTR1),Y
#0x1002: (a1 90)     LDA  (PTR2,X)
#0x1004: (81 92)     STA  (PTR3,X)
#0x1006: (91 94)     STA  (PTR4),Y
#0x1008: (60)        RTS 
----- End of disassembly -----";

    let actual_output = output.join("\n");
    assert_eq!(actual_output, expected_output, "\nExpected:\n{}\n\nActual:\n{}\n", expected_output, actual_output);
}

#[test]
fn test_zero_page_symbol_substitution() {
    let mut memory = Memory::new_with_ram();
    let mut symbols = Some(SymbolTable::new());

    memory
        .write(
            0x1000,
            &[
                0xa9, 0x8a, // LDA #$8a - should NOT be substituted
                0x85, 0x8a, // STA $8a
                0x86, 0x92, // STX $92
            ],
        )
        .unwrap();

    if let Some(symbols) = &mut symbols {
        symbols.add_symbol(0x008a, "ptr1".to_string());
        symbols.add_symbol(0x0092, "ptr2".to_string());
    }

    let disassembler = Disassembler::new(&memory, &symbols);
    let output = disassembler.disassemble_range(0x1000, 0x1005).unwrap();

    let expected_output = "\
---- Start of disassembly ----
#0x1000: (a9 8a)     LDA  #$8a
#0x1002: (85 8a)     STA  ptr1
#0x1004: (86 92)     STX  ptr2
----- End of disassembly -----";

    let actual_output = output.join("\n");
    assert_eq!(actual_output, expected_output, "\nExpected:\n{}\n\nActual:\n{}\n", expected_output, actual_output);
}
