//! The 65C02 opcode table.
use crate::addressing_mode::AddressingMode;
use crate::cpu_instruction::Microcode;
use crate::text::{hex_digit, digit_char, push_char, push_str};
use vstd::prelude::*;

verus! {

/// The shape of an addressing mode, before its operand bytes are known.
#[derive(Debug, Clone, Copy, PartialEq, Eq)]
pub enum ModeKind {
    Implied,
    Accumulator,
    Immediate,
    ZeroPage,
    ZeroPageXIndexed,
    ZeroPageYIndexed,
    ZeroPageXIndexedIndirect,
    ZeroPageIndirectYIndexed,
    ZeroPageIndirect,
    Absolute,
    AbsoluteXIndexed,
    AbsoluteYIndexed,
    Indirect,
    AbsoluteXIndexedIndirect,
    Relative,
    ZeroPageRelative,
}

/// What an opcode decodes to: its operation, its addressing mode and its
/// base cycle count.
#[derive(Debug, Clone, Copy, PartialEq, Eq)]
pub struct OpcodeEntry {
    pub microcode: Microcode,
    pub kind: ModeKind,
    pub cycles: u8,
}

/// The opcode table of the 65C02; `None` for the one opcode (0xcb, WAI)
/// this processor does not implement.
#[verifier::opaque]
pub open spec fn opcode_entry(opcode: u8) -> Option<OpcodeEntry> {
    match opcode {
        0x00 => Some(OpcodeEntry { microcode: Microcode::Brk, kind: ModeKind::Implied, cycles: 7 }),
        0x01 => Some(OpcodeEntry { microcode: Microcode::Ora, kind: ModeKind::ZeroPageXIndexedIndirect, cycles: 6 }),
        0x02 | 0x22 | 0x42 | 0x62 | 0x82 | 0xc2 | 0xe2 => Some(OpcodeEntry { microcode: Microcode::Nop, kind: ModeKind::Immediate, cycles: 2 }),
        0x03 | 0x0b | 0x13 | 0x1b | 0x23 | 0x2b | 0x33 | 0x3b | 0x43 | 0x4b | 0x53 | 0x5b | 0x63 | 0x6b | 0x73 | 0x7b | 0x83 | 0x8b | 0x93 | 0x9b | 0xa3 | 0xab | 0xb3 | 0xbb | 0xc3 | 0xd3 | 0xe3 | 0xeb | 0xf3 | 0xfb => Some(OpcodeEntry { microcode: Microcode::Nop, kind: ModeKind::Implied, cycles: 1 }),
        0x04 => Some(OpcodeEntry { microcode: Microcode::Tsb, kind: ModeKind::ZeroPage, cycles: 5 }),
        0x05 => Some(OpcodeEntry { microcode: Microcode::Ora, kind: ModeKind::ZeroPage, cycles: 3 }),
        0x06 => Some(OpcodeEntry { microcode: Microcode::Asl, kind: ModeKind::ZeroPage, cycles: 5 }),
        0x07 | 0x17 | 0x27 | 0x37 | 0x47 | 0x57 | 0x67 | 0x77 => Some(OpcodeEntry { microcode: Microcode::Rmb, kind: ModeKind::ZeroPage, cycles: 5 }),
        0x08 => Some(OpcodeEntry { microcode: Microcode::Php, kind: ModeKind::Implied, cycles: 3 }),
        0x09 => Some(OpcodeEntry { microcode: Microcode::Ora, kind: ModeKind::Immediate, cycles: 2 }),
        0x0a => Some(OpcodeEntry { microcode: Microcode::Asl, kind: ModeKind::Accumulator, cycles: 2 }),
        0x0c => Some(OpcodeEntry { microcode: Microcode::Tsb, kind: ModeKind::Absolute, cycles: 6 }),
        0x0d => Some(OpcodeEntry { microcode: Microcode::Ora, kind: ModeKind::Absolute, cycles: 4 }),
        0x0e => Some(OpcodeEntry { microcode: Microcode::Asl, kind: ModeKind::Absolute, cycles: 6 }),
        0x0f | 0x1f | 0x2f | 0x3f | 0x4f | 0x5f | 0x6f | 0x7f => Some(OpcodeEntry { microcode: Microcode::Bbr, kind: ModeKind::ZeroPageRelative, cycles: 5 }),
        0x10 => Some(OpcodeEntry { microcode: Microcode::Bpl, kind: ModeKind::Relative, cycles: 2 }),
        0x11 => Some(OpcodeEntry { microcode: Microcode::Ora, kind: ModeKind::ZeroPageIndirectYIndexed, cycles: 5 }),
        0x12 => Some(OpcodeEntry { microcode: Microcode::Ora, kind: ModeKind::ZeroPageIndirect, cycles: 5 }),
        0x14 => Some(OpcodeEntry { microcode: Microcode::Trb, kind: ModeKind::ZeroPage, cycles: 5 }),
        0x15 => Some(OpcodeEntry { microcode: Microcode::Ora, kind: ModeKind::ZeroPageXIndexed, cycles: 4 }),
        0x16 => Some(OpcodeEntry { microcode: Microcode::Asl, kind: ModeKind::ZeroPageXIndexed, cycles: 6 }),
        0x18 => Some(OpcodeEntry { microcode: Microcode::Clc, kind: ModeKind::Implied, cycles: 2 }),
        0x19 => Some(OpcodeEntry { microcode: Microcode::Ora, kind: ModeKind::AbsoluteYIndexed, cycles: 4 }),
        0x1a => Some(OpcodeEntry { microcode: Microcode::Inc, kind: ModeKind::Accumulator, cycles: 2 }),
        0x1c => Some(OpcodeEntry { microcode: Microcode::Trb, kind: ModeKind::Absolute, cycles: 6 }),
        0x1d => Some(OpcodeEntry { microcode: Microcode::Ora, kind: ModeKind::AbsoluteXIndexed, cycles: 4 }),
        0x1e => Some(OpcodeEntry { microcode: Microcode::Asl, kind: ModeKind::AbsoluteXIndexed, cycles: 6 }),
        0x20 => Some(OpcodeEntry { microcode: Microcode::Jsr, kind: ModeKind::Absolute, cycles: 6 }),
        0x21 => Some(OpcodeEntry { microcode: Microcode::And, kind: ModeKind::ZeroPageXIndexedIndirect, cycles: 6 }),
        0x24 => Some(OpcodeEntry { microcode: Microcode::Bit, kind: ModeKind::ZeroPage, cycles: 3 }),
        0x25 => Some(OpcodeEntry { microcode: Microcode::And, kind: ModeKind::ZeroPage, cycles: 3 }),
        0x26 => Some(OpcodeEntry { microcode: Microcode::Rol, kind: ModeKind::ZeroPage, cycles: 5 }),
        0x28 => Some(OpcodeEntry { microcode: Microcode::Plp, kind: ModeKind::Implied, cycles: 4 }),
        0x29 => Some(OpcodeEntry { microcode: Microcode::And, kind: ModeKind::Immediate, cycles: 2 }),
        0x2a => Some(OpcodeEntry { microcode: Microcode::Rol, kind: ModeKind::Accumulator, cycles: 2 }),
        0x2c => Some(OpcodeEntry { microcode: Microcode::Bit, kind: ModeKind::Absolute, cycles: 4 }),
        0x2d => Some(OpcodeEntry { microcode: Microcode::And, kind: ModeKind::Absolute, cycles: 4 }),
        0x2e => Some(OpcodeEntry { microcode: Microcode::Rol, kind: ModeKind::Absolute, cycles: 6 }),
        0x30 => Some(OpcodeEntry { microcode: Microcode::Bmi, kind: ModeKind::Relative, cycles: 2 }),
        0x31 => Some(OpcodeEntry { microcode: Microcode::And, kind: ModeKind::ZeroPageIndirectYIndexed, cycles: 5 }),
        0x32 => Some(OpcodeEntry { microcode: Microcode::And, kind: ModeKind::ZeroPageIndirect, cycles: 5 }),
        0x34 => Some(OpcodeEntry { microcode: Microcode::Bit, kind: ModeKind::ZeroPageXIndexed, cycles: 4 }),
        0x35 => Some(OpcodeEntry { microcode: Microcode::And, kind: ModeKind::ZeroPageXIndexed, cycles: 4 }),
        0x36 => Some(OpcodeEntry { microcode: Microcode::Rol, kind: ModeKind::ZeroPageXIndexed, cycles: 6 }),
        0x38 => Some(OpcodeEntry { microcode: Microcode::Sec, kind: ModeKind::Implied, cycles: 2 }),
        0x39 => Some(OpcodeEntry { microcode: Microcode::And, kind: ModeKind::AbsoluteYIndexed, cycles: 4 }),
        0x3a => Some(OpcodeEntry { microcode: Microcode::Dec, kind: ModeKind::Accumulator, cycles: 2 }),
        0x3c => Some(OpcodeEntry { microcode: Microcode::Bit, kind: ModeKind::AbsoluteXIndexed, cycles: 4 }),
        0x3d => Some(OpcodeEntry { microcode: Microcode::And, kind: ModeKind::AbsoluteXIndexed, cycles: 4 }),
        0x3e => Some(OpcodeEntry { microcode: Microcode::Rol, kind: ModeKind::AbsoluteXIndexed, cycles: 6 }),
        0x40 => Some(OpcodeEntry { microcode: Microcode::Rti, kind: ModeKind::Implied, cycles: 6 }),
        0x41 => Some(OpcodeEntry { microcode: Microcode::Eor, kind: ModeKind::ZeroPageXIndexedIndirect, cycles: 6 }),
        0x44 => Some(OpcodeEntry { microcode: Microcode::Nop, kind: ModeKind::ZeroPageXIndexed, cycles: 3 }),
        0x45 => Some(OpcodeEntry { microcode: Microcode::Eor, kind: ModeKind::ZeroPage, cycles: 3 }),
        0x46 => Some(OpcodeEntry { microcode: Microcode::Lsr, kind: ModeKind::ZeroPage, cycles: 5 }),
        0x48 => Some(OpcodeEntry { microcode: Microcode::Pha, kind: ModeKind::Implied, cycles: 3 }),
        0x49 => Some(OpcodeEntry { microcode: Microcode::Eor, kind: ModeKind::Immediate, cycles: 2 }),
        0x4a => Some(OpcodeEntry { microcode: Microcode::Lsr, kind: ModeKind::Accumulator, cycles: 2 }),
        0x4c => Some(OpcodeEntry { microcode: Microcode::Jmp, kind: ModeKind::Absolute, cycles: 3 }),
        0x4d => Some(OpcodeEntry { microcode: Microcode::Eor, kind: ModeKind::Absolute, cycles: 4 }),
        0x4e => Some(OpcodeEntry { microcode: Microcode::Lsr, kind: ModeKind::Absolute, cycles: 6 }),
        0x50 => Some(OpcodeEntry { microcode: Microcode::Bvc, kind: ModeKind::Relative, cycles: 2 }),
        0x51 => Some(OpcodeEntry { microcode: Microcode::Eor, kind: ModeKind::ZeroPageIndirectYIndexed, cycles: 5 }),
        0x52 => Some(OpcodeEntry { microcode: Microcode::Eor, kind: ModeKind::ZeroPageIndirect, cycles: 5 }),
        0x54 | 0xd4 | 0xf4 => Some(OpcodeEntry { microcode: Microcode::Nop, kind: ModeKind::ZeroPageXIndexed, cycles: 4 }),
        0x55 => Some(OpcodeEntry { microcode: Microcode::Eor, kind: ModeKind::ZeroPageXIndexed, cycles: 4 }),
        0x56 => Some(OpcodeEntry { microcode: Microcode::Lsr, kind: ModeKind::ZeroPageXIndexed, cycles: 6 }),
        0x58 => Some(OpcodeEntry { microcode: Microcode::Cli, kind: ModeKind::Implied, cycles: 2 }),
        0x59 => Some(OpcodeEntry { microcode: Microcode::Eor, kind: ModeKind::AbsoluteYIndexed, cycles: 4 }),
        0x5a => Some(OpcodeEntry { microcode: Microcode::Phy, kind: ModeKind::Implied, cycles: 3 }),
        0x5c => Some(OpcodeEntry { microcode: Microcode::Nop, kind: ModeKind::Absolute, cycles: 8 }),
        0x5d => Some(OpcodeEntry { microcode: Microcode::Eor, kind: ModeKind::AbsoluteXIndexed, cycles: 4 }),
        0x5e => Some(OpcodeEntry { microcode: Microcode::Lsr, kind: ModeKind::AbsoluteXIndexed, cycles: 6 }),
        0x60 => Some(OpcodeEntry { microcode: Microcode::Rts, kind: ModeKind::Implied, cycles: 6 }),
        0x61 => Some(OpcodeEntry { microcode: Microcode::Adc, kind: ModeKind::ZeroPageXIndexedIndirect, cycles: 6 }),
        0x64 => Some(OpcodeEntry { microcode: Microcode::Stz, kind: ModeKind::ZeroPage, cycles: 3 }),
        0x65 => Some(OpcodeEntry { microcode: Microcode::Adc, kind: ModeKind::ZeroPage, cycles: 3 }),
        0x66 => Some(OpcodeEntry { microcode: Microcode::Ror, kind: ModeKind::ZeroPage, cycles: 5 }),
        0x68 => Some(OpcodeEntry { microcode: Microcode::Pla, kind: ModeKind::Implied, cycles: 4 }),
        0x69 => Some(OpcodeEntry { microcode: Microcode::Adc, kind: ModeKind::Immediate, cycles: 2 }),
        0x6a => Some(OpcodeEntry { microcode: Microcode::Ror, kind: ModeKind::Accumulator, cycles: 2 }),
        0x6c => Some(OpcodeEntry { microcode: Microcode::Jmp, kind: ModeKind::Indirect, cycles: 6 }),
        0x6d => Some(OpcodeEntry { microcode: Microcode::Adc, kind: ModeKind::Absolute, cycles: 4 }),
        0x6e => Some(OpcodeEntry { microcode: Microcode::Ror, kind: ModeKind::Absolute, cycles: 6 }),
        0x70 => Some(OpcodeEntry { microcode: Microcode::Bvs, kind: ModeKind::Relative, cycles: 2 }),
        0x71 => Some(OpcodeEntry { microcode: Microcode::Adc, kind: ModeKind::ZeroPageIndirectYIndexed, cycles: 5 }),
        0x72 => Some(OpcodeEntry { microcode: Microcode::Adc, kind: ModeKind::ZeroPageIndirect, cycles: 5 }),
        0x74 => Some(OpcodeEntry { microcode: Microcode::Stz, kind: ModeKind::ZeroPageXIndexed, cycles: 4 }),
        0x75 => Some(OpcodeEntry { microcode: Microcode::Adc, kind: ModeKind::ZeroPageXIndexed, cycles: 4 }),
        0x76 => Some(OpcodeEntry { microcode: Microcode::Ror, kind: ModeKind::ZeroPageXIndexed, cycles: 6 }),
        0x78 => Some(OpcodeEntry { microcode: Microcode::Sei, kind: ModeKind::Implied, cycles: 2 }),
        0x79 => Some(OpcodeEntry { microcode: Microcode::Adc, kind: ModeKind::AbsoluteYIndexed, cycles: 4 }),
        0x7a => Some(OpcodeEntry { microcode: Microcode::Ply, kind: ModeKind::Implied, cycles: 4 }),
        0x7c => Some(OpcodeEntry { microcode: Microcode::Jmp, kind: ModeKind::AbsoluteXIndexedIndirect, cycles: 6 }),
        0x7d => Some(OpcodeEntry { microcode: Microcode::Adc, kind: ModeKind::AbsoluteXIndexed, cycles: 4 }),
        0x7e => Some(OpcodeEntry { microcode: Microcode::Ror, kind: ModeKind::AbsoluteXIndexed, cycles: 6 }),
        0x80 => Some(OpcodeEntry { microcode: Microcode::Bra, kind: ModeKind::Relative, cycles: 3 }),
        0x81 => Some(OpcodeEntry { microcode: Microcode::Sta, kind: ModeKind::ZeroPageXIndexedIndirect, cycles: 6 }),
        0x84 => Some(OpcodeEntry { microcode: Microcode::Sty, kind: ModeKind::ZeroPage, cycles: 3 }),
        0x85 => Some(OpcodeEntry { microcode: Microcode::Sta, kind: ModeKind::ZeroPage, cycles: 3 }),
        0x86 => Some(OpcodeEntry { microcode: Microcode::Stx, kind: ModeKind::ZeroPage, cycles: 3 }),
        0x87 | 0x97 | 0xa7 | 0xb7 | 0xc7 | 0xd7 | 0xe7 | 0xf7 => Some(OpcodeEntry { microcode: Microcode::Smb, kind: ModeKind::ZeroPage, cycles: 5 }),
        0x88 => Some(OpcodeEntry { microcode: Microcode::Dey, kind: ModeKind::Implied, cycles: 2 }),
        0x89 => Some(OpcodeEntry { microcode: Microcode::Bit, kind: ModeKind::Immediate, cycles: 2 }),
        0x8a => Some(OpcodeEntry { microcode: Microcode::Txa, kind: ModeKind::Implied, cycles: 2 }),
        0x8c => Some(OpcodeEntry { microcode: Microcode::Sty, kind: ModeKind::Absolute, cycles: 4 }),
        0x8d => Some(OpcodeEntry { microcode: Microcode::Sta, kind: ModeKind::Absolute, cycles: 4 }),
        0x8e => Some(OpcodeEntry { microcode: Microcode::Stx, kind: ModeKind::Absolute, cycles: 4 }),
        0x8f | 0x9f | 0xaf | 0xbf | 0xcf | 0xdf | 0xef | 0xff => Some(OpcodeEntry { microcode: Microcode::Bbs, kind: ModeKind::ZeroPageRelative, cycles: 5 }),
        0x90 => Some(OpcodeEntry { microcode: Microcode::Bcc, kind: ModeKind::Relative, cycles: 2 }),
        0x91 => Some(OpcodeEntry { microcode: Microcode::Sta, kind: ModeKind::ZeroPageIndirectYIndexed, cycles: 6 }),
        0x92 => Some(OpcodeEntry { microcode: Microcode::Sta, kind: ModeKind::ZeroPageIndirect, cycles: 5 }),
        0x94 => Some(OpcodeEntry { microcode: Microcode::Sty, kind: ModeKind::ZeroPageXIndexed, cycles: 4 }),
        0x95 => Some(OpcodeEntry { microcode: Microcode::Sta, kind: ModeKind::ZeroPageXIndexed, cycles: 4 }),
        0x96 => Some(OpcodeEntry { microcode: Microcode::Stx, kind: ModeKind::ZeroPageYIndexed, cycles: 4 }),
        0x98 => Some(OpcodeEntry { microcode: Microcode::Tya, kind: ModeKind::Implied, cycles: 2 }),
        0x99 => Some(OpcodeEntry { microcode: Microcode::Sta, kind: ModeKind::AbsoluteYIndexed, cycles: 5 }),
        0x9a => Some(OpcodeEntry { microcode: Microcode::Txs, kind: ModeKind::Implied, cycles: 2 }),
        0x9c => Some(OpcodeEntry { microcode: Microcode::Stz, kind: ModeKind::Absolute, cycles: 4 }),
        0x9d => Some(OpcodeEntry { microcode: Microcode::Sta, kind: ModeKind::AbsoluteXIndexed, cycles: 5 }),
        0x9e => Some(OpcodeEntry { microcode: Microcode::Stz, kind: ModeKind::AbsoluteXIndexed, cycles: 5 }),
        0xa0 => Some(OpcodeEntry { microcode: Microcode::Ldy, kind: ModeKind::Immediate, cycles: 2 }),
        0xa1 => Some(OpcodeEntry { microcode: Microcode::Lda, kind: ModeKind::ZeroPageXIndexedIndirect, cycles: 6 }),
        0xa2 => Some(OpcodeEntry { microcode: Microcode::Ldx, kind: ModeKind::Immediate, cycles: 2 }),
        0xa4 => Some(OpcodeEntry { microcode: Microcode::Ldy, kind: ModeKind::ZeroPage, cycles: 3 }),
        0xa5 => Some(OpcodeEntry { microcode: Microcode::Lda, kind: ModeKind::ZeroPage, cycles: 3 }),
        0xa6 => Some(OpcodeEntry { microcode: Microcode::Ldx, kind: ModeKind::ZeroPage, cycles: 3 }),
        0xa8 => Some(OpcodeEntry { microcode: Microcode::Tay, kind: ModeKind::Implied, cycles: 2 }),
        0xa9 => Some(OpcodeEntry { microcode: Microcode::Lda, kind: ModeKind::Immediate, cycles: 2 }),
        0xaa => Some(OpcodeEntry { microcode: Microcode::Tax, kind: ModeKind::Implied, cycles: 2 }),
        0xac => Some(OpcodeEntry { microcode: Microcode::Ldy, kind: ModeKind::Absolute, cycles: 4 }),
        0xad => Some(OpcodeEntry { microcode: Microcode::Lda, kind: ModeKind::Absolute, cycles: 4 }),
        0xae => Some(OpcodeEntry { microcode: Microcode::Ldx, kind: ModeKind::Absolute, cycles: 4 }),
        0xb0 => Some(OpcodeEntry { microcode: Microcode::Bcs, kind: ModeKind::Relative, cycles: 2 }),
        0xb1 => Some(OpcodeEntry { microcode: Microcode::Lda, kind: ModeKind::ZeroPageIndirectYIndexed, cycles: 5 }),
        0xb2 => Some(OpcodeEntry { microcode: Microcode::Lda, kind: ModeKind::ZeroPageIndirect, cycles: 5 }),
        0xb4 => Some(OpcodeEntry { microcode: Microcode::Ldy, kind: ModeKind::ZeroPageXIndexed, cycles: 4 }),
        0xb5 => Some(OpcodeEntry { microcode: Microcode::Lda, kind: ModeKind::ZeroPageXIndexed, cycles: 4 }),
        0xb6 => Some(OpcodeEntry { microcode: Microcode::Ldx, kind: ModeKind::ZeroPageYIndexed, cycles: 4 }),
        0xb8 => Some(OpcodeEntry { microcode: Microcode::Clv, kind: ModeKind::Implied, cycles: 2 }),
        0xb9 => Some(OpcodeEntry { microcode: Microcode::Lda, kind: ModeKind::AbsoluteYIndexed, cycles: 4 }),
        0xba => Some(OpcodeEntry { microcode: Microcode::Tsx, kind: ModeKind::Implied, cycles: 2 }),
        0xbc => Some(OpcodeEntry { microcode: Microcode::Ldy, kind: ModeKind::AbsoluteXIndexed, cycles: 4 }),
        0xbd => Some(OpcodeEntry { microcode: Microcode::Lda, kind: ModeKind::AbsoluteXIndexed, cycles: 4 }),
        0xbe => Some(OpcodeEntry { microcode: Microcode::Ldx, kind: ModeKind::AbsoluteYIndexed, cycles: 4 }),
        0xc0 => Some(OpcodeEntry { microcode: Microcode::Cpy, kind: ModeKind::Immediate, cycles: 2 }),
        0xc1 => Some(OpcodeEntry { microcode: Microcode::Cmp, kind: ModeKind::ZeroPageXIndexedIndirect, cycles: 6 }),
        0xc4 => Some(OpcodeEntry { microcode: Microcode::Cpy, kind: ModeKind::ZeroPage, cycles: 3 }),
        0xc5 => Some(OpcodeEntry { microcode: Microcode::Cmp, kind: ModeKind::ZeroPage, cycles: 3 }),
        0xc6 => Some(OpcodeEntry { microcode: Microcode::Dec, kind: ModeKind::ZeroPage, cycles: 5 }),
        0xc8 => Some(OpcodeEntry { microcode: Microcode::Iny, kind: ModeKind::Implied, cycles: 2 }),
        0xc9 => Some(OpcodeEntry { microcode: Microcode::Cmp, kind: ModeKind::Immediate, cycles: 2 }),
        0xca => Some(OpcodeEntry { microcode: Microcode::Dex, kind: ModeKind::Implied, cycles: 2 }),
        0xcc => Some(OpcodeEntry { microcode: Microcode::Cpy, kind: ModeKind::Absolute, cycles: 4 }),
        0xcd => Some(OpcodeEntry { microcode: Microcode::Cmp, kind: ModeKind::Absolute, cycles: 4 }),
        0xce => Some(OpcodeEntry { microcode: Microcode::Dec, kind: ModeKind::Absolute, cycles: 6 }),
        0xd0 => Some(OpcodeEntry { microcode: Microcode::Bne, kind: ModeKind::Relative, cycles: 2 }),
        0xd1 => Some(OpcodeEntry { microcode: Microcode::Cmp, kind: ModeKind::ZeroPageIndirectYIndexed, cycles: 5 }),
        0xd2 => Some(OpcodeEntry { microcode: Microcode::Cmp, kind: ModeKind::ZeroPageIndirect, cycles: 5 }),
        0xd5 => Some(OpcodeEntry { microcode: Microcode::Cmp, kind: ModeKind::ZeroPageXIndexed, cycles: 4 }),
        0xd6 => Some(OpcodeEntry { microcode: Microcode::Dec, kind: ModeKind::ZeroPageXIndexed, cycles: 6 }),
        0xd8 => Some(OpcodeEntry { microcode: Microcode::Cld, kind: ModeKind::Implied, cycles: 2 }),
        0xd9 => Some(OpcodeEntry { microcode: Microcode::Cmp, kind: ModeKind::AbsoluteYIndexed, cycles: 4 }),
        0xda => Some(OpcodeEntry { microcode: Microcode::Phx, kind: ModeKind::Implied, cycles: 3 }),
        0xdb => Some(OpcodeEntry { microcode: Microcode::Stp, kind: ModeKind::Implied, cycles: 3 }),
        0xdc | 0xfc => Some(OpcodeEntry { microcode: Microcode::Nop, kind: ModeKind::Absolute, cycles: 4 }),
        0xdd => Some(OpcodeEntry { microcode: Microcode::Cmp, kind: ModeKind::AbsoluteXIndexed, cycles: 4 }),
        0xde => Some(OpcodeEntry { microcode: Microcode::Dec, kind: ModeKind::AbsoluteXIndexed, cycles: 7 }),
        0xe0 => Some(OpcodeEntry { microcode: Microcode::Cpx, kind: ModeKind::Immediate, cycles: 2 }),
        0xe1 => Some(OpcodeEntry { microcode: Microcode::Sbc, kind: ModeKind::ZeroPageXIndexedIndirect, cycles: 6 }),
        0xe4 => Some(OpcodeEntry { microcode: Microcode::Cpx, kind: ModeKind::ZeroPage, cycles: 3 }),
        0xe5 => Some(OpcodeEntry { microcode: Microcode::Sbc, kind: ModeKind::ZeroPage, cycles: 3 }),
        0xe6 => Some(OpcodeEntry { microcode: Microcode::Inc, kind: ModeKind::ZeroPage, cycles: 5 }),
        0xe8 => Some(OpcodeEntry { microcode: Microcode::Inx, kind: ModeKind::Implied, cycles: 2 }),
        0xe9 => Some(OpcodeEntry { microcode: Microcode::Sbc, kind: ModeKind::Immediate, cycles: 2 }),
        0xea => Some(OpcodeEntry { microcode: Microcode::Nop, kind: ModeKind::Implied, cycles: 2 }),
        0xec => Some(OpcodeEntry { microcode: Microcode::Cpx, kind: ModeKind::Absolute, cycles: 4 }),
        0xed => Some(OpcodeEntry { microcode: Microcode::Sbc, kind: ModeKind::Absolute, cycles: 4 }),
        0xee => Some(OpcodeEntry { microcode: Microcode::Inc, kind: ModeKind::Absolute, cycles: 6 }),
        0xf0 => Some(OpcodeEntry { microcode: Microcode::Beq, kind: ModeKind::Relative, cycles: 2 }),
        0xf1 => Some(OpcodeEntry { microcode: Microcode::Sbc, kind: ModeKind::ZeroPageIndirectYIndexed, cycles: 5 }),
        0xf2 => Some(OpcodeEntry { microcode: Microcode::Sbc, kind: ModeKind::ZeroPageIndirect, cycles: 5 }),
        0xf5 => Some(OpcodeEntry { microcode: Microcode::Sbc, kind: ModeKind::ZeroPageXIndexed, cycles: 4 }),
        0xf6 => Some(OpcodeEntry { microcode: Microcode::Inc, kind: ModeKind::ZeroPageXIndexed, cycles: 6 }),
        0xf8 => Some(OpcodeEntry { microcode: Microcode::Sed, kind: ModeKind::Implied, cycles: 2 }),
        0xf9 => Some(OpcodeEntry { microcode: Microcode::Sbc, kind: ModeKind::AbsoluteYIndexed, cycles: 4 }),
        0xfa => Some(OpcodeEntry { microcode: Microcode::Plx, kind: ModeKind::Implied, cycles: 4 }),
        0xfd => Some(OpcodeEntry { microcode: Microcode::Sbc, kind: ModeKind::AbsoluteXIndexed, cycles: 4 }),
        0xfe => Some(OpcodeEntry { microcode: Microcode::Inc, kind: ModeKind::AbsoluteXIndexed, cycles: 7 }),
        _ => None,
    }
}

/// Look an opcode up in the table.
pub fn lookup_opcode(opcode: u8) -> (e: Option<OpcodeEntry>)
    ensures
        e == opcode_entry(opcode),
        e matches Some(x) ==> x.cycles <= 8,
{
    proof {
        reveal(opcode_entry);
    }
    match opcode {
        0x00 => Some(OpcodeEntry { microcode: Microcode::Brk, kind: ModeKind::Implied, cycles: 7 }),
        0x01 => Some(OpcodeEntry { microcode: Microcode::Ora, kind: ModeKind::ZeroPageXIndexedIndirect, cycles: 6 }),
        0x02 | 0x22 | 0x42 | 0x62 | 0x82 | 0xc2 | 0xe2 => Some(OpcodeEntry { microcode: Microcode::Nop, kind: ModeKind::Immediate, cycles: 2 }),
        0x03 | 0x0b | 0x13 | 0x1b | 0x23 | 0x2b | 0x33 | 0x3b | 0x43 | 0x4b | 0x53 | 0x5b | 0x63 | 0x6b | 0x73 | 0x7b | 0x83 | 0x8b | 0x93 | 0x9b | 0xa3 | 0xab | 0xb3 | 0xbb | 0xc3 | 0xd3 | 0xe3 | 0xeb | 0xf3 | 0xfb => Some(OpcodeEntry { microcode: Microcode::Nop, kind: ModeKind::Implied, cycles: 1 }),
        0x04 => Some(OpcodeEntry { microcode: Microcode::Tsb, kind: ModeKind::ZeroPage, cycles: 5 }),
        0x05 => Some(OpcodeEntry { microcode: Microcode::Ora, kind: ModeKind::ZeroPage, cycles: 3 }),
        0x06 => Some(OpcodeEntry { microcode: Microcode::Asl, kind: ModeKind::ZeroPage, cycles: 5 }),
        0x07 | 0x17 | 0x27 | 0x37 | 0x47 | 0x57 | 0x67 | 0x77 => Some(OpcodeEntry { microcode: Microcode::Rmb, kind: ModeKind::ZeroPage, cycles: 5 }),
        0x08 => Some(OpcodeEntry { microcode: Microcode::Php, kind: ModeKind::Implied, cycles: 3 }),
        0x09 => Some(OpcodeEntry { microcode: Microcode::Ora, kind: ModeKind::Immediate, cycles: 2 }),
        0x0a => Some(OpcodeEntry { microcode: Microcode::Asl, kind: ModeKind::Accumulator, cycles: 2 }),
        0x0c => Some(OpcodeEntry { microcode: Microcode::Tsb, kind: ModeKind::Absolute, cycles: 6 }),
        0x0d => Some(OpcodeEntry { microcode: Microcode::Ora, kind: ModeKind::Absolute, cycles: 4 }),
        0x0e => Some(OpcodeEntry { microcode: Microcode::Asl, kind: ModeKind::Absolute, cycles: 6 }),
        0x0f | 0x1f | 0x2f | 0x3f | 0x4f | 0x5f | 0x6f | 0x7f => Some(OpcodeEntry { microcode: Microcode::Bbr, kind: ModeKind::ZeroPageRelative, cycles: 5 }),
        0x10 => Some(OpcodeEntry { microcode: Microcode::Bpl, kind: ModeKind::Relative, cycles: 2 }),
        0x11 => Some(OpcodeEntry { microcode: Microcode::Ora, kind: ModeKind::ZeroPageIndirectYIndexed, cycles: 5 }),
        0x12 => Some(OpcodeEntry { microcode: Microcode::Ora, kind: ModeKind::ZeroPageIndirect, cycles: 5 }),
        0x14 => Some(OpcodeEntry { microcode: Microcode::Trb, kind: ModeKind::ZeroPage, cycles: 5 }),
        0x15 => Some(OpcodeEntry { microcode: Microcode::Ora, kind: ModeKind::ZeroPageXIndexed, cycles: 4 }),
        0x16 => Some(OpcodeEntry { microcode: Microcode::Asl, kind: ModeKind::ZeroPageXIndexed, cycles: 6 }),
        0x18 => Some(OpcodeEntry { microcode: Microcode::Clc, kind: ModeKind::Implied, cycles: 2 }),
        0x19 => Some(OpcodeEntry { microcode: Microcode::Ora, kind: ModeKind::AbsoluteYIndexed, cycles: 4 }),
        0x1a => Some(OpcodeEntry { microcode: Microcode::Inc, kind: ModeKind::Accumulator, cycles: 2 }),
        0x1c => Some(OpcodeEntry { microcode: Microcode::Trb, kind: ModeKind::Absolute, cycles: 6 }),
        0x1d => Some(OpcodeEntry { microcode: Microcode::Ora, kind: ModeKind::AbsoluteXIndexed, cycles: 4 }),
        0x1e => Some(OpcodeEntry { microcode: Microcode::Asl, kind: ModeKind::AbsoluteXIndexed, cycles: 6 }),
        0x20 => Some(OpcodeEntry { microcode: Microcode::Jsr, kind: ModeKind::Absolute, cycles: 6 }),
        0x21 => Some(OpcodeEntry { microcode: Microcode::And, kind: ModeKind::ZeroPageXIndexedIndirect, cycles: 6 }),
        0x24 => Some(OpcodeEntry { microcode: Microcode::Bit, kind: ModeKind::ZeroPage, cycles: 3 }),
        0x25 => Some(OpcodeEntry { microcode: Microcode::And, kind: ModeKind::ZeroPage, cycles: 3 }),
        0x26 => Some(OpcodeEntry { microcode: Microcode::Rol, kind: ModeKind::ZeroPage, cycles: 5 }),
        0x28 => Some(OpcodeEntry { microcode: Microcode::Plp, kind: ModeKind::Implied, cycles: 4 }),
        0x29 => Some(OpcodeEntry { microcode: Microcode::And, kind: ModeKind::Immediate, cycles: 2 }),
        0x2a => Some(OpcodeEntry { microcode: Microcode::Rol, kind: ModeKind::Accumulator, cycles: 2 }),
        0x2c => Some(OpcodeEntry { microcode: Microcode::Bit, kind: ModeKind::Absolute, cycles: 4 }),
        0x2d => Some(OpcodeEntry { microcode: Microcode::And, kind: ModeKind::Absolute, cycles: 4 }),
        0x2e => Some(OpcodeEntry { microcode: Microcode::Rol, kind: ModeKind::Absolute, cycles: 6 }),
        0x30 => Some(OpcodeEntry { microcode: Microcode::Bmi, kind: ModeKind::Relative, cycles: 2 }),
        0x31 => Some(OpcodeEntry { microcode: Microcode::And, kind: ModeKind::ZeroPageIndirectYIndexed, cycles: 5 }),
        0x32 => Some(OpcodeEntry { microcode: Microcode::And, kind: ModeKind::ZeroPageIndirect, cycles: 5 }),
        0x34 => Some(OpcodeEntry { microcode: Microcode::Bit, kind: ModeKind::ZeroPageXIndexed, cycles: 4 }),
        0x35 => Some(OpcodeEntry { microcode: Microcode::And, kind: ModeKind::ZeroPageXIndexed, cycles: 4 }),
        0x36 => Some(OpcodeEntry { microcode: Microcode::Rol, kind: ModeKind::ZeroPageXIndexed, cycles: 6 }),
        0x38 => Some(OpcodeEntry { microcode: Microcode::Sec, kind: ModeKind::Implied, cycles: 2 }),
        0x39 => Some(OpcodeEntry { microcode: Microcode::And, kind: ModeKind::AbsoluteYIndexed, cycles: 4 }),
        0x3a => Some(OpcodeEntry { microcode: Microcode::Dec, kind: ModeKind::Accumulator, cycles: 2 }),
        0x3c => Some(OpcodeEntry { microcode: Microcode::Bit, kind: ModeKind::AbsoluteXIndexed, cycles: 4 }),
        0x3d => Some(OpcodeEntry { microcode: Microcode::And, kind: ModeKind::AbsoluteXIndexed, cycles: 4 }),
        0x3e => Some(OpcodeEntry { microcode: Microcode::Rol, kind: ModeKind::AbsoluteXIndexed, cycles: 6 }),
        0x40 => Some(OpcodeEntry { microcode: Microcode::Rti, kind: ModeKind::Implied, cycles: 6 }),
        0x41 => Some(OpcodeEntry { microcode: Microcode::Eor, kind: ModeKind::ZeroPageXIndexedIndirect, cycles: 6 }),
        0x44 => Some(OpcodeEntry { microcode: Microcode::Nop, kind: ModeKind::ZeroPageXIndexed, cycles: 3 }),
        0x45 => Some(OpcodeEntry { microcode: Microcode::Eor, kind: ModeKind::ZeroPage, cycles: 3 }),
        0x46 => Some(OpcodeEntry { microcode: Microcode::Lsr, kind: ModeKind::ZeroPage, cycles: 5 }),
        0x48 => Some(OpcodeEntry { microcode: Microcode::Pha, kind: ModeKind::Implied, cycles: 3 }),
        0x49 => Some(OpcodeEntry { microcode: Microcode::Eor, kind: ModeKind::Immediate, cycles: 2 }),
        0x4a => Some(OpcodeEntry { microcode: Microcode::Lsr, kind: ModeKind::Accumulator, cycles: 2 }),
        0x4c => Some(OpcodeEntry { microcode: Microcode::Jmp, kind: ModeKind::Absolute, cycles: 3 }),
        0x4d => Some(OpcodeEntry { microcode: Microcode::Eor, kind: ModeKind::Absolute, cycles: 4 }),
        0x4e => Some(OpcodeEntry { microcode: Microcode::Lsr, kind: ModeKind::Absolute, cycles: 6 }),
        0x50 => Some(OpcodeEntry { microcode: Microcode::Bvc, kind: ModeKind::Relative, cycles: 2 }),
        0x51 => Some(OpcodeEntry { microcode: Microcode::Eor, kind: ModeKind::ZeroPageIndirectYIndexed, cycles: 5 }),
        0x52 => Some(OpcodeEntry { microcode: Microcode::Eor, kind: ModeKind::ZeroPageIndirect, cycles: 5 }),
        0x54 | 0xd4 | 0xf4 => Some(OpcodeEntry { microcode: Microcode::Nop, kind: ModeKind::ZeroPageXIndexed, cycles: 4 }),
        0x55 => Some(OpcodeEntry { microcode: Microcode::Eor, kind: ModeKind::ZeroPageXIndexed, cycles: 4 }),
        0x56 => Some(OpcodeEntry { microcode: Microcode::Lsr, kind: ModeKind::ZeroPageXIndexed, cycles: 6 }),
        0x58 => Some(OpcodeEntry { microcode: Microcode::Cli, kind: ModeKind::Implied, cycles: 2 }),
        0x59 => Some(OpcodeEntry { microcode: Microcode::Eor, kind: ModeKind::AbsoluteYIndexed, cycles: 4 }),
        0x5a => Some(OpcodeEntry { microcode: Microcode::Phy, kind: ModeKind::Implied, cycles: 3 }),
        0x5c => Some(OpcodeEntry { microcode: Microcode::Nop, kind: ModeKind::Absolute, cycles: 8 }),
        0x5d => Some(OpcodeEntry { microcode: Microcode::Eor, kind: ModeKind::AbsoluteXIndexed, cycles: 4 }),
        0x5e => Some(OpcodeEntry { microcode: Microcode::Lsr, kind: ModeKind::AbsoluteXIndexed, cycles: 6 }),
        0x60 => Some(OpcodeEntry { microcode: Microcode::Rts, kind: ModeKind::Implied, cycles: 6 }),
        0x61 => Some(OpcodeEntry { microcode: Microcode::Adc, kind: ModeKind::ZeroPageXIndexedIndirect, cycles: 6 }),
        0x64 => Some(OpcodeEntry { microcode: Microcode::Stz, kind: ModeKind::ZeroPage, cycles: 3 }),
        0x65 => Some(OpcodeEntry { microcode: Microcode::Adc, kind: ModeKind::ZeroPage, cycles: 3 }),
        0x66 => Some(OpcodeEntry { microcode: Microcode::Ror, kind: ModeKind::ZeroPage, cycles: 5 }),
        0x68 => Some(OpcodeEntry { microcode: Microcode::Pla, kind: ModeKind::Implied, cycles: 4 }),
        0x69 => Some(OpcodeEntry { microcode: Microcode::Adc, kind: ModeKind::Immediate, cycles: 2 }),
        0x6a => Some(OpcodeEntry { microcode: Microcode::Ror, kind: ModeKind::Accumulator, cycles: 2 }),
        0x6c => Some(OpcodeEntry { microcode: Microcode::Jmp, kind: ModeKind::Indirect, cycles: 6 }),
        0x6d => Some(OpcodeEntry { microcode: Microcode::Adc, kind: ModeKind::Absolute, cycles: 4 }),
        0x6e => Some(OpcodeEntry { microcode: Microcode::Ror, kind: ModeKind::Absolute, cycles: 6 }),
        0x70 => Some(OpcodeEntry { microcode: Microcode::Bvs, kind: ModeKind::Relative, cycles: 2 }),
        0x71 => Some(OpcodeEntry { microcode: Microcode::Adc, kind: ModeKind::ZeroPageIndirectYIndexed, cycles: 5 }),
        0x72 => Some(OpcodeEntry { microcode: Microcode::Adc, kind: ModeKind::ZeroPageIndirect, cycles: 5 }),
        0x74 => Some(OpcodeEntry { microcode: Microcode::Stz, kind: ModeKind::ZeroPageXIndexed, cycles: 4 }),
        0x75 => Some(OpcodeEntry { microcode: Microcode::Adc, kind: ModeKind::ZeroPageXIndexed, cycles: 4 }),
        0x76 => Some(OpcodeEntry { microcode: Microcode::Ror, kind: ModeKind::ZeroPageXIndexed, cycles: 6 }),
        0x78 => Some(OpcodeEntry { microcode: Microcode::Sei, kind: ModeKind::Implied, cycles: 2 }),
        0x79 => Some(OpcodeEntry { microcode: Microcode::Adc, kind: ModeKind::AbsoluteYIndexed, cycles: 4 }),
        0x7a => Some(OpcodeEntry { microcode: Microcode::Ply, kind: ModeKind::Implied, cycles: 4 }),
        0x7c => Some(OpcodeEntry { microcode: Microcode::Jmp, kind: ModeKind::AbsoluteXIndexedIndirect, cycles: 6 }),
        0x7d => Some(OpcodeEntry { microcode: Microcode::Adc, kind: ModeKind::AbsoluteXIndexed, cycles: 4 }),
        0x7e => Some(OpcodeEntry { microcode: Microcode::Ror, kind: ModeKind::AbsoluteXIndexed, cycles: 6 }),
        0x80 => Some(OpcodeEntry { microcode: Microcode::Bra, kind: ModeKind::Relative, cycles: 3 }),
        0x81 => Some(OpcodeEntry { microcode: Microcode::Sta, kind: ModeKind::ZeroPageXIndexedIndirect, cycles: 6 }),
        0x84 => Some(OpcodeEntry { microcode: Microcode::Sty, kind: ModeKind::ZeroPage, cycles: 3 }),
        0x85 => Some(OpcodeEntry { microcode: Microcode::Sta, kind: ModeKind::ZeroPage, cycles: 3 }),
        0x86 => Some(OpcodeEntry { microcode: Microcode::Stx, kind: ModeKind::ZeroPage, cycles: 3 }),
        0x87 | 0x97 | 0xa7 | 0xb7 | 0xc7 | 0xd7 | 0xe7 | 0xf7 => Some(OpcodeEntry { microcode: Microcode::Smb, kind: ModeKind::ZeroPage, cycles: 5 }),
        0x88 => Some(OpcodeEntry { microcode: Microcode::Dey, kind: ModeKind::Implied, cycles: 2 }),
        0x89 => Some(OpcodeEntry { microcode: Microcode::Bit, kind: ModeKind::Immediate, cycles: 2 }),
        0x8a => Some(OpcodeEntry { microcode: Microcode::Txa, kind: ModeKind::Implied, cycles: 2 }),
        0x8c => Some(OpcodeEntry { microcode: Microcode::Sty, kind: ModeKind::Absolute, cycles: 4 }),
        0x8d => Some(OpcodeEntry { microcode: Microcode::Sta, kind: ModeKind::Absolute, cycles: 4 }),
        0x8e => Some(OpcodeEntry { microcode: Microcode::Stx, kind: ModeKind::Absolute, cycles: 4 }),
        0x8f | 0x9f | 0xaf | 0xbf | 0xcf | 0xdf | 0xef | 0xff => Some(OpcodeEntry { microcode: Microcode::Bbs, kind: ModeKind::ZeroPageRelative, cycles: 5 }),
        0x90 => Some(OpcodeEntry { microcode: Microcode::Bcc, kind: ModeKind::Relative, cycles: 2 }),
        0x91 => Some(OpcodeEntry { microcode: Microcode::Sta, kind: ModeKind::ZeroPageIndirectYIndexed, cycles: 6 }),
        0x92 => Some(OpcodeEntry { microcode: Microcode::Sta, kind: ModeKind::ZeroPageIndirect, cycles: 5 }),
        0x94 => Some(OpcodeEntry { microcode: Microcode::Sty, kind: ModeKind::ZeroPageXIndexed, cycles: 4 }),
        0x95 => Some(OpcodeEntry { microcode: Microcode::Sta, kind: ModeKind::ZeroPageXIndexed, cycles: 4 }),
        0x96 => Some(OpcodeEntry { microcode: Microcode::Stx, kind: ModeKind::ZeroPageYIndexed, cycles: 4 }),
        0x98 => Some(OpcodeEntry { microcode: Microcode::Tya, kind: ModeKind::Implied, cycles: 2 }),
        0x99 => Some(OpcodeEntry { microcode: Microcode::Sta, kind: ModeKind::AbsoluteYIndexed, cycles: 5 }),
        0x9a => Some(OpcodeEntry { microcode: Microcode::Txs, kind: ModeKind::Implied, cycles: 2 }),
        0x9c => Some(OpcodeEntry { microcode: Microcode::Stz, kind: ModeKind::Absolute, cycles: 4 }),
        0x9d => Some(OpcodeEntry { microcode: Microcode::Sta, kind: ModeKind::AbsoluteXIndexed, cycles: 5 }),
        0x9e => Some(OpcodeEntry { microcode: Microcode::Stz, kind: ModeKind::AbsoluteXIndexed, cycles: 5 }),
        0xa0 => Some(OpcodeEntry { microcode: Microcode::Ldy, kind: ModeKind::Immediate, cycles: 2 }),
        0xa1 => Some(OpcodeEntry { microcode: Microcode::Lda, kind: ModeKind::ZeroPageXIndexedIndirect, cycles: 6 }),
        0xa2 => Some(OpcodeEntry { microcode: Microcode::Ldx, kind: ModeKind::Immediate, cycles: 2 }),
        0xa4 => Some(OpcodeEntry { microcode: Microcode::Ldy, kind: ModeKind::ZeroPage, cycles: 3 }),
        0xa5 => Some(OpcodeEntry { microcode: Microcode::Lda, kind: ModeKind::ZeroPage, cycles: 3 }),
        0xa6 => Some(OpcodeEntry { microcode: Microcode::Ldx, kind: ModeKind::ZeroPage, cycles: 3 }),
        0xa8 => Some(OpcodeEntry { microcode: Microcode::Tay, kind: ModeKind::Implied, cycles: 2 }),
        0xa9 => Some(OpcodeEntry { microcode: Microcode::Lda, kind: ModeKind::Immediate, cycles: 2 }),
        0xaa => Some(OpcodeEntry { microcode: Microcode::Tax, kind: ModeKind::Implied, cycles: 2 }),
        0xac => Some(OpcodeEntry { microcode: Microcode::Ldy, kind: ModeKind::Absolute, cycles: 4 }),
        0xad => Some(OpcodeEntry { microcode: Microcode::Lda, kind: ModeKind::Absolute, cycles: 4 }),
        0xae => Some(OpcodeEntry { microcode: Microcode::Ldx, kind: ModeKind::Absolute, cycles: 4 }),
        0xb0 => Some(OpcodeEntry { microcode: Microcode::Bcs, kind: ModeKind::Relative, cycles: 2 }),
        0xb1 => Some(OpcodeEntry { microcode: Microcode::Lda, kind: ModeKind::ZeroPageIndirectYIndexed, cycles: 5 }),
        0xb2 => Some(OpcodeEntry { microcode: Microcode::Lda, kind: ModeKind::ZeroPageIndirect, cycles: 5 }),
        0xb4 => Some(OpcodeEntry { microcode: Microcode::Ldy, kind: ModeKind::ZeroPageXIndexed, cycles: 4 }),
        0xb5 => Some(OpcodeEntry { microcode: Microcode::Lda, kind: ModeKind::ZeroPageXIndexed, cycles: 4 }),
        0xb6 => Some(OpcodeEntry { microcode: Microcode::Ldx, kind: ModeKind::ZeroPageYIndexed, cycles: 4 }),
        0xb8 => Some(OpcodeEntry { microcode: Microcode::Clv, kind: ModeKind::Implied, cycles: 2 }),
        0xb9 => Some(OpcodeEntry { microcode: Microcode::Lda, kind: ModeKind::AbsoluteYIndexed, cycles: 4 }),
        0xba => Some(OpcodeEntry { microcode: Microcode::Tsx, kind: ModeKind::Implied, cycles: 2 }),
        0xbc => Some(OpcodeEntry { microcode: Microcode::Ldy, kind: ModeKind::AbsoluteXIndexed, cycles: 4 }),
        0xbd => Some(OpcodeEntry { microcode: Microcode::Lda, kind: ModeKind::AbsoluteXIndexed, cycles: 4 }),
        0xbe => Some(OpcodeEntry { microcode: Microcode::Ldx, kind: ModeKind::AbsoluteYIndexed, cycles: 4 }),
        0xc0 => Some(OpcodeEntry { microcode: Microcode::Cpy, kind: ModeKind::Immediate, cycles: 2 }),
        0xc1 => Some(OpcodeEntry { microcode: Microcode::Cmp, kind: ModeKind::ZeroPageXIndexedIndirect, cycles: 6 }),
        0xc4 => Some(OpcodeEntry { microcode: Microcode::Cpy, kind: ModeKind::ZeroPage, cycles: 3 }),
        0xc5 => Some(OpcodeEntry { microcode: Microcode::Cmp, kind: ModeKind::ZeroPage, cycles: 3 }),
        0xc6 => Some(OpcodeEntry { microcode: Microcode::Dec, kind: ModeKind::ZeroPage, cycles: 5 }),
        0xc8 => Some(OpcodeEntry { microcode: Microcode::Iny, kind: ModeKind::Implied, cycles: 2 }),
        0xc9 => Some(OpcodeEntry { microcode: Microcode::Cmp, kind: ModeKind::Immediate, cycles: 2 }),
        0xca => Some(OpcodeEntry { microcode: Microcode::Dex, kind: ModeKind::Implied, cycles: 2 }),
        0xcc => Some(OpcodeEntry { microcode: Microcode::Cpy, kind: ModeKind::Absolute, cycles: 4 }),
        0xcd => Some(OpcodeEntry { microcode: Microcode::Cmp, kind: ModeKind::Absolute, cycles: 4 }),
        0xce => Some(OpcodeEntry { microcode: Microcode::Dec, kind: ModeKind::Absolute, cycles: 6 }),
        0xd0 => Some(OpcodeEntry { microcode: Microcode::Bne, kind: ModeKind::Relative, cycles: 2 }),
        0xd1 => Some(OpcodeEntry { microcode: Microcode::Cmp, kind: ModeKind::ZeroPageIndirectYIndexed, cycles: 5 }),
        0xd2 => Some(OpcodeEntry { microcode: Microcode::Cmp, kind: ModeKind::ZeroPageIndirect, cycles: 5 }),
        0xd5 => Some(OpcodeEntry { microcode: Microcode::Cmp, kind: ModeKind::ZeroPageXIndexed, cycles: 4 }),
        0xd6 => Some(OpcodeEntry { microcode: Microcode::Dec, kind: ModeKind::ZeroPageXIndexed, cycles: 6 }),
        0xd8 => Some(OpcodeEntry { microcode: Microcode::Cld, kind: ModeKind::Implied, cycles: 2 }),
        0xd9 => Some(OpcodeEntry { microcode: Microcode::Cmp, kind: ModeKind::AbsoluteYIndexed, cycles: 4 }),
        0xda => Some(OpcodeEntry { microcode: Microcode::Phx, kind: ModeKind::Implied, cycles: 3 }),
        0xdb => Some(OpcodeEntry { microcode: Microcode::Stp, kind: ModeKind::Implied, cycles: 3 }),
        0xdc | 0xfc => Some(OpcodeEntry { microcode: Microcode::Nop, kind: ModeKind::Absolute, cycles: 4 }),
        0xdd => Some(OpcodeEntry { microcode: Microcode::Cmp, kind: ModeKind::AbsoluteXIndexed, cycles: 4 }),
        0xde => Some(OpcodeEntry { microcode: Microcode::Dec, kind: ModeKind::AbsoluteXIndexed, cycles: 7 }),
        0xe0 => Some(OpcodeEntry { microcode: Microcode::Cpx, kind: ModeKind::Immediate, cycles: 2 }),
        0xe1 => Some(OpcodeEntry { microcode: Microcode::Sbc, kind: ModeKind::ZeroPageXIndexedIndirect, cycles: 6 }),
        0xe4 => Some(OpcodeEntry { microcode: Microcode::Cpx, kind: ModeKind::ZeroPage, cycles: 3 }),
        0xe5 => Some(OpcodeEntry { microcode: Microcode::Sbc, kind: ModeKind::ZeroPage, cycles: 3 }),
        0xe6 => Some(OpcodeEntry { microcode: Microcode::Inc, kind: ModeKind::ZeroPage, cycles: 5 }),
        0xe8 => Some(OpcodeEntry { microcode: Microcode::Inx, kind: ModeKind::Implied, cycles: 2 }),
        0xe9 => Some(OpcodeEntry { microcode: Microcode::Sbc, kind: ModeKind::Immediate, cycles: 2 }),
        0xea => Some(OpcodeEntry { microcode: Microcode::Nop, kind: ModeKind::Implied, cycles: 2 }),
        0xec => Some(OpcodeEntry { microcode: Microcode::Cpx, kind: ModeKind::Absolute, cycles: 4 }),
        0xed => Some(OpcodeEntry { microcode: Microcode::Sbc, kind: ModeKind::Absolute, cycles: 4 }),
        0xee => Some(OpcodeEntry { microcode: Microcode::Inc, kind: ModeKind::Absolute, cycles: 6 }),
        0xf0 => Some(OpcodeEntry { microcode: Microcode::Beq, kind: ModeKind::Relative, cycles: 2 }),
        0xf1 => Some(OpcodeEntry { microcode: Microcode::Sbc, kind: ModeKind::ZeroPageIndirectYIndexed, cycles: 5 }),
        0xf2 => Some(OpcodeEntry { microcode: Microcode::Sbc, kind: ModeKind::ZeroPageIndirect, cycles: 5 }),
        0xf5 => Some(OpcodeEntry { microcode: Microcode::Sbc, kind: ModeKind::ZeroPageXIndexed, cycles: 4 }),
        0xf6 => Some(OpcodeEntry { microcode: Microcode::Inc, kind: ModeKind::ZeroPageXIndexed, cycles: 6 }),
        0xf8 => Some(OpcodeEntry { microcode: Microcode::Sed, kind: ModeKind::Implied, cycles: 2 }),
        0xf9 => Some(OpcodeEntry { microcode: Microcode::Sbc, kind: ModeKind::AbsoluteYIndexed, cycles: 4 }),
        0xfa => Some(OpcodeEntry { microcode: Microcode::Plx, kind: ModeKind::Implied, cycles: 4 }),
        0xfd => Some(OpcodeEntry { microcode: Microcode::Sbc, kind: ModeKind::AbsoluteXIndexed, cycles: 4 }),
        0xfe => Some(OpcodeEntry { microcode: Microcode::Inc, kind: ModeKind::AbsoluteXIndexed, cycles: 7 }),
        _ => None,
    }
}

/// The addressing mode of shape `kind` for the instruction at `address`
/// followed by the bytes `op1` and `op2`.
pub open spec fn mode_of(kind: ModeKind, address: usize, op1: u8, op2: u8) -> AddressingMode {
    match kind {
        ModeKind::Implied => AddressingMode::Implied,
        ModeKind::Accumulator => AddressingMode::Accumulator,
        ModeKind::Immediate => AddressingMode::Immediate([op1]),
        ModeKind::ZeroPage => AddressingMode::ZeroPage([op1]),
        ModeKind::ZeroPageXIndexed => AddressingMode::ZeroPageXIndexed([op1]),
        ModeKind::ZeroPageYIndexed => AddressingMode::ZeroPageYIndexed([op1]),
        ModeKind::ZeroPageXIndexedIndirect => AddressingMode::ZeroPageXIndexedIndirect([op1]),
        ModeKind::ZeroPageIndirectYIndexed => AddressingMode::ZeroPageIndirectYIndexed([op1]),
        ModeKind::ZeroPageIndirect => AddressingMode::ZeroPageIndirect([op1]),
        ModeKind::Absolute => AddressingMode::Absolute([op1, op2]),
        ModeKind::AbsoluteXIndexed => AddressingMode::AbsoluteXIndexed([op1, op2]),
        ModeKind::AbsoluteYIndexed => AddressingMode::AbsoluteYIndexed([op1, op2]),
        ModeKind::Indirect => AddressingMode::Indirect([op1, op2]),
        ModeKind::AbsoluteXIndexedIndirect => AddressingMode::AbsoluteXIndexedIndirect([op1, op2]),
        ModeKind::Relative => AddressingMode::Relative(address, [op1]),
        ModeKind::ZeroPageRelative => AddressingMode::ZeroPageRelative(address, [op1, op2]),
    }
}

/// Build the addressing mode of shape `kind` from the operand bytes.
pub fn build_mode(kind: ModeKind, address: usize, op1: u8, op2: u8) -> (m: AddressingMode)
    ensures
        m == mode_of(kind, address, op1, op2),
{
    match kind {
        ModeKind::Implied => AddressingMode::Implied,
        ModeKind::Accumulator => AddressingMode::Accumulator,
        ModeKind::Immediate => AddressingMode::Immediate([op1]),
        ModeKind::ZeroPage => AddressingMode::ZeroPage([op1]),
        ModeKind::ZeroPageXIndexed => AddressingMode::ZeroPageXIndexed([op1]),
        ModeKind::ZeroPageYIndexed => AddressingMode::ZeroPageYIndexed([op1]),
        ModeKind::ZeroPageXIndexedIndirect => AddressingMode::ZeroPageXIndexedIndirect([op1]),
        ModeKind::ZeroPageIndirectYIndexed => AddressingMode::ZeroPageIndirectYIndexed([op1]),
        ModeKind::ZeroPageIndirect => AddressingMode::ZeroPageIndirect([op1]),
        ModeKind::Absolute => AddressingMode::Absolute([op1, op2]),
        ModeKind::AbsoluteXIndexed => AddressingMode::AbsoluteXIndexed([op1, op2]),
        ModeKind::AbsoluteYIndexed => AddressingMode::AbsoluteYIndexed([op1, op2]),
        ModeKind::Indirect => AddressingMode::Indirect([op1, op2]),
        ModeKind::AbsoluteXIndexedIndirect => AddressingMode::AbsoluteXIndexedIndirect([op1, op2]),
        ModeKind::Relative => AddressingMode::Relative(address, [op1]),
        ModeKind::ZeroPageRelative => AddressingMode::ZeroPageRelative(address, [op1, op2]),
    }
}

/// Assembler name of an operation.
pub open spec fn microcode_name(mc: Microcode) -> Seq<char> {
    match mc {
        Microcode::Adc => "ADC"@,
        Microcode::And => "AND"@,
        Microcode::Asl => "ASL"@,
        Microcode::Bbr => "BBR"@,
        Microcode::Bbs => "BBS"@,
        Microcode::Bcc => "BCC"@,
        Microcode::Bcs => "BCS"@,
        Microcode::Beq => "BEQ"@,
        Microcode::Bit => "BIT"@,
        Microcode::Bmi => "BMI"@,
        Microcode::Bne => "BNE"@,
        Microcode::Bpl => "BPL"@,
        Microcode::Bra => "BRA"@,
        Microcode::Brk => "BRK"@,
        Microcode::Bvc => "BVC"@,
        Microcode::Bvs => "BVS"@,
        Microcode::Clc => "CLC"@,
        Microcode::Cld => "CLD"@,
        Microcode::Cli => "CLI"@,
        Microcode::Clv => "CLV"@,
        Microcode::Cmp => "CMP"@,
        Microcode::Cpx => "CPX"@,
        Microcode::Cpy => "CPY"@,
        Microcode::Dec => "DEC"@,
        Microcode::Dex => "DEX"@,
        Microcode::Dey => "DEY"@,
        Microcode::Eor => "EOR"@,
        Microcode::Ina => "INA"@,
        Microcode::Inc => "INC"@,
        Microcode::Inx => "INX"@,
        Microcode::Iny => "INY"@,
        Microcode::Jmp => "JMP"@,
        Microcode::Jsr => "JSR"@,
        Microcode::Lda => "LDA"@,
        Microcode::Ldx => "LDX"@,
        Microcode::Ldy => "LDY"@,
        Microcode::Lsr => "LSR"@,
        Microcode::Nop => "NOP"@,
        Microcode::Ora => "ORA"@,
        Microcode::Pha => "PHA"@,
        Microcode::Php => "PHP"@,
        Microcode::Phx => "PHX"@,
        Microcode::Phy => "PHY"@,
        Microcode::Pla => "PLA"@,
        Microcode::Plp => "PLP"@,
        Microcode::Plx => "PLX"@,
        Microcode::Ply => "PLY"@,
        Microcode::Rmb => "RMB"@,
        Microcode::Rol => "ROL"@,
        Microcode::Ror => "ROR"@,
        Microcode::Rti => "RTI"@,
        Microcode::Rts => "RTS"@,
        Microcode::Sbc => "SBC"@,
        Microcode::Sec => "SEC"@,
        Microcode::Sed => "SED"@,
        Microcode::Sei => "SEI"@,
        Microcode::Smb => "SMB"@,
        Microcode::Sta => "STA"@,
        Microcode::Stp => "STP"@,
        Microcode::Stx => "STX"@,
        Microcode::Sty => "STY"@,
        Microcode::Stz => "STZ"@,
        Microcode::Tax => "TAX"@,
        Microcode::Tay => "TAY"@,
        Microcode::Trb => "TRB"@,
        Microcode::Tsb => "TSB"@,
        Microcode::Tsx => "TSX"@,
        Microcode::Txa => "TXA"@,
        Microcode::Txs => "TXS"@,
        Microcode::Tya => "TYA"@,
    }
}

/// Whether the mnemonic of an operation ends with the bit number taken
/// from the opcode (RMBn, SMBn, BBRn, BBSn).
pub open spec fn has_bit_suffix(mc: Microcode) -> bool {
    mc == Microcode::Rmb || mc == Microcode::Smb || mc == Microcode::Bbr || mc == Microcode::Bbs
}

/// Mnemonic of the instruction with operation `mc` and opcode `opcode`.
pub open spec fn mnemonic_text(mc: Microcode, opcode: u8) -> Seq<char> {
    if has_bit_suffix(mc) {
        microcode_name(mc).push(hex_digit(((opcode >> 4u8) & 7u8) as nat, true))
    } else {
        microcode_name(mc)
    }
}

/// Assembler name of an operation.
pub fn microcode_name_str(mc: Microcode) -> (s: &'static str)
    ensures
        s@ == microcode_name(mc),
{
    match mc {
        Microcode::Adc => "ADC",
        Microcode::And => "AND",
        Microcode::Asl => "ASL",
        Microcode::Bbr => "BBR",
        Microcode::Bbs => "BBS",
        Microcode::Bcc => "BCC",
        Microcode::Bcs => "BCS",
        Microcode::Beq => "BEQ",
        Microcode::Bit => "BIT",
        Microcode::Bmi => "BMI",
        Microcode::Bne => "BNE",
        Microcode::Bpl => "BPL",
        Microcode::Bra => "BRA",
        Microcode::Brk => "BRK",
        Microcode::Bvc => "BVC",
        Microcode::Bvs => "BVS",
        Microcode::Clc => "CLC",
        Microcode::Cld => "CLD",
        Microcode::Cli => "CLI",
        Microcode::Clv => "CLV",
        Microcode::Cmp => "CMP",
        Microcode::Cpx => "CPX",
        Microcode::Cpy => "CPY",
        Microcode::Dec => "DEC",
        Microcode::Dex => "DEX",
        Microcode::Dey => "DEY",
        Microcode::Eor => "EOR",
        Microcode::Ina => "INA",
        Microcode::Inc => "INC",
        Microcode::Inx => "INX",
        Microcode::Iny => "INY",
        Microcode::Jmp => "JMP",
        Microcode::Jsr => "JSR",
        Microcode::Lda => "LDA",
        Microcode::Ldx => "LDX",
        Microcode::Ldy => "LDY",
        Microcode::Lsr => "LSR",
        Microcode::Nop => "NOP",
        Microcode::Ora => "ORA",
        Microcode::Pha => "PHA",
        Microcode::Php => "PHP",
        Microcode::Phx => "PHX",
        Microcode::Phy => "PHY",
        Microcode::Pla => "PLA",
        Microcode::Plp => "PLP",
        Microcode::Plx => "PLX",
        Microcode::Ply => "PLY",
        Microcode::Rmb => "RMB",
        Microcode::Rol => "ROL",
        Microcode::Ror => "ROR",
        Microcode::Rti => "RTI",
        Microcode::Rts => "RTS",
        Microcode::Sbc => "SBC",
        Microcode::Sec => "SEC",
        Microcode::Sed => "SED",
        Microcode::Sei => "SEI",
        Microcode::Smb => "SMB",
        Microcode::Sta => "STA",
        Microcode::Stp => "STP",
        Microcode::Stx => "STX",
        Microcode::Sty => "STY",
        Microcode::Stz => "STZ",
        Microcode::Tax => "TAX",
        Microcode::Tay => "TAY",
        Microcode::Trb => "TRB",
        Microcode::Tsb => "TSB",
        Microcode::Tsx => "TSX",
        Microcode::Txa => "TXA",
        Microcode::Txs => "TXS",
        Microcode::Tya => "TYA",
    }
}

/// Mnemonic of the instruction with operation `mc` and opcode `opcode`.
pub fn mnemonic_of(mc: Microcode, opcode: u8) -> (s: String)
    ensures
        s@ == mnemonic_text(mc, opcode),
{
    let mut s = String::new();
    push_str(&mut s, microcode_name_str(mc));
    match mc {
        Microcode::Rmb | Microcode::Smb | Microcode::Bbr | Microcode::Bbs => {
            let bit = (opcode >> 4u8) & 7u8;
            assert(bit < 16) by (bit_vector)
                requires
                    bit == (opcode >> 4u8) & 7u8,
            ;
            push_char(&mut s, digit_char(bit, true));
        },
        _ => {},
    }
    assert(s@ =~= mnemonic_text(mc, opcode));
    s
}

} // verus!
