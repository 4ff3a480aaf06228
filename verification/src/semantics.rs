//! The meaning of every 65C02 operation, as a function from the machine state
//! before an instruction to the machine state after it.
use crate::addressing_mode::{operands, word, zero_page_relative_target, AddressingMode};
use crate::cpu_instruction::{Microcode, MicrocodeError};
use crate::memory::MemoryError;
use crate::registers::{flag, sp_after_pull, sp_after_push, with_flag, Registers, FLAG_C, FLAG_D, FLAG_I, FLAG_N, FLAG_V, FLAG_Z, STACK_BASE_ADDR};
use vstd::prelude::*;

verus! {

/// State after an instruction, with the byte it read or wrote (shown in the
/// trace) and whether a branch was taken (one more cycle).
pub struct StepResult {
    pub registers: Registers,
    pub memory: Seq<u8>,
    pub byte: u8,
    pub taken: bool,
}

/// A register an operation reads or writes.
#[derive(Debug, Clone, Copy, PartialEq, Eq)]
pub enum Reg {
    A,
    X,
    Y,
    SP,
}

/// Value of a register.
pub open spec fn get_reg(r: Registers, which: Reg) -> u8 {
    match which {
        Reg::A => r.accumulator,
        Reg::X => r.register_x,
        Reg::Y => r.register_y,
        Reg::SP => r.stack_pointer,
    }
}

/// Registers with one register replaced.
pub open spec fn set_reg(r: Registers, which: Reg, v: u8) -> Registers {
    match which {
        Reg::A => Registers { accumulator: v, ..r },
        Reg::X => Registers { register_x: v, ..r },
        Reg::Y => Registers { register_y: v, ..r },
        Reg::SP => Registers { stack_pointer: v, ..r },
    }
}

/// Status with N and Z set from `v`.
pub open spec fn nz(status: u8, v: u8) -> u8 {
    with_flag(with_flag(status, FLAG_N, v & 0x80 != 0), FLAG_Z, v == 0)
}

/// Registers with status N and Z set from `v`.
pub open spec fn with_nz(r: Registers, v: u8) -> Registers {
    Registers { status_register: nz(r.status_register, v), ..r }
}

/// Registers with one flag set or cleared.
pub open spec fn with_status_flag(r: Registers, mask: u8, v: bool) -> Registers {
    Registers { status_register: with_flag(r.status_register, mask, v), ..r }
}

/// Address of the instruction following the one at the command pointer.
pub open spec fn next_cp(r: Registers, mode: AddressingMode) -> usize {
    (r.command_pointer + 1 + operands(mode).len()) as usize
}

/// Registers with the command pointer on the next instruction.
pub open spec fn advance(r: Registers, mode: AddressingMode) -> Registers {
    Registers { command_pointer: next_cp(r, mode), ..r }
}

/// Registers with the command pointer set to `cp`.
pub open spec fn jump(r: Registers, cp: usize) -> Registers {
    Registers { command_pointer: cp, ..r }
}

/// The address an operation needs: an error when the mode gives none.
pub open spec fn need_target(t: Option<usize>) -> Result<usize, MicrocodeError> {
    match t {
        Some(a) => Ok(a),
        None => Err(MicrocodeError::Runtime),
    }
}

/// The byte at address `a`.
pub open spec fn read_byte(mem: Seq<u8>, a: usize) -> Result<u8, MicrocodeError> {
    if a < mem.len() {
        Ok(mem[a as int])
    } else {
        Err(MicrocodeError::MemoryOverflow(MemoryError::ReadOverflow(1, a)))
    }
}

/// Memory with byte `v` written at address `a`.
pub open spec fn write_byte(mem: Seq<u8>, a: usize, v: u8) -> Result<Seq<u8>, MicrocodeError> {
    if a < mem.len() {
        Ok(mem.update(a as int, v))
    } else {
        Err(MicrocodeError::MemoryOverflow(MemoryError::WriteOverflow(1, a)))
    }
}

/// The byte at the operation's target address.
pub open spec fn operand_byte(mem: Seq<u8>, t: Option<usize>) -> Result<u8, MicrocodeError> {
    match need_target(t) {
        Ok(a) => read_byte(mem, a),
        Err(e) => Err(e),
    }
}

/// A successful step.
pub open spec fn done(r: Registers, mem: Seq<u8>, b: u8, taken: bool) -> Result<StepResult, MicrocodeError> {
    Ok(StepResult { registers: r, memory: mem, byte: b, taken })
}

/// How a load combines the register with the operand.
#[derive(Debug, Clone, Copy, PartialEq, Eq)]
pub enum LoadOp {
    Load,
    And,
    Or,
    Xor,
}

/// Result of a load-like operation.
pub open spec fn combine(op: LoadOp, r: u8, b: u8) -> u8 {
    match op {
        LoadOp::Load => b,
        LoadOp::And => r & b,
        LoadOp::Or => r | b,
        LoadOp::Xor => r ^ b,
    }
}

/// LDA, LDX, LDY, AND, ORA, EOR: the register takes the combined value; N and Z follow it.
pub open spec fn load_step(op: LoadOp, which: Reg, r: Registers, mem: Seq<u8>, mode: AddressingMode, t: Option<usize>) -> Result<StepResult, MicrocodeError> {
    match operand_byte(mem, t) {
        Ok(b) => {
            let v = combine(op, get_reg(r, which), b);
            done(advance(with_nz(set_reg(r, which, v), v), mode), mem, b, false)
        },
        Err(e) => Err(e),
    }
}

/// STA, STX, STY, STZ: the value is written at the target address.
pub open spec fn store_step(v: u8, r: Registers, mem: Seq<u8>, mode: AddressingMode, t: Option<usize>) -> Result<StepResult, MicrocodeError> {
    match need_target(t) {
        Ok(a) => match write_byte(mem, a, v) {
            Ok(m) => done(advance(r, mode), m, v, false),
            Err(e) => Err(e),
        },
        Err(e) => Err(e),
    }
}

/// TAX, TAY, TXA, TYA, TSX, TXS: copy a register; N and Z follow the value unless the destination is SP.
pub open spec fn transfer_step(from: Reg, to: Reg, r: Registers, mem: Seq<u8>, mode: AddressingMode) -> Result<StepResult, MicrocodeError> {
    let v = get_reg(r, from);
    let r1 = set_reg(r, to, v);
    let r2 = if to == Reg::SP { r1 } else { with_nz(r1, v) };
    done(advance(r2, mode), mem, 0, false)
}

/// INX, INY, INA, DEX, DEY: add one to or subtract one from a register (wrapping); N and Z follow.
pub open spec fn step_reg(which: Reg, up: bool, r: Registers, mem: Seq<u8>, mode: AddressingMode) -> Result<StepResult, MicrocodeError> {
    let v = if up { ((get_reg(r, which) + 1) % 256) as u8 } else { ((get_reg(r, which) + 255) % 256) as u8 };
    done(advance(with_nz(set_reg(r, which, v), v), mode), mem, 0, false)
}

/// Read-modify-write operations.
#[derive(Debug, Clone, Copy, PartialEq, Eq)]
pub enum RmwOp {
    Inc,
    Dec,
    Asl,
    Lsr,
    Rol,
    Ror,
}

/// Value produced by a read-modify-write operation from `b` and the carry.
pub open spec fn rmw_value(op: RmwOp, b: u8, carry: bool) -> u8 {
    match op {
        RmwOp::Inc => ((b + 1) % 256) as u8,
        RmwOp::Dec => ((b + 255) % 256) as u8,
        RmwOp::Asl => ((b * 2) % 256) as u8,
        RmwOp::Lsr => (b / 2) as u8,
        RmwOp::Rol => ((b * 2 + if carry { 1int } else { 0int }) % 256) as u8,
        RmwOp::Ror => (b / 2 + if carry { 128int } else { 0int }) as u8,
    }
}

/// Status after a read-modify-write: shifts and rotations set the carry
/// from the bit shifted out, then N and Z follow the result.
pub open spec fn rmw_status(op: RmwOp, s: u8, b: u8, v: u8) -> u8 {
    match op {
        RmwOp::Inc | RmwOp::Dec => nz(s, v),
        RmwOp::Asl | RmwOp::Rol => nz(with_flag(s, FLAG_C, b & 0x80 != 0), v),
        RmwOp::Lsr | RmwOp::Ror => nz(with_flag(s, FLAG_C, b & 1 != 0), v),
    }
}

/// INC, DEC, ASL, LSR, ROL, ROR: on the target byte, or on the accumulator when there is no target.
pub open spec fn rmw_step(op: RmwOp, r: Registers, mem: Seq<u8>, mode: AddressingMode, t: Option<usize>) -> Result<StepResult, MicrocodeError> {
    let carry = flag(r.status_register, FLAG_C);
    match t {
        None => {
            let b = r.accumulator;
            let v = rmw_value(op, b, carry);
            let r1 = Registers { accumulator: v, status_register: rmw_status(op, r.status_register, b, v), ..r };
            done(advance(r1, mode), mem, v, false)
        },
        Some(a) => match read_byte(mem, a) {
            Ok(b) => {
                let v = rmw_value(op, b, carry);
                let r1 = Registers { status_register: rmw_status(op, r.status_register, b, v), ..r };
                done(advance(r1, mode), mem.update(a as int, v), v, false)
            },
            Err(e) => Err(e),
        },
    }
}

/// Status after comparing register value `v` with `b`: C when `v >= b`,
/// Z when equal, N from bit 7 of `v - b`.
pub open spec fn compare_status(s: u8, v: u8, b: u8) -> u8 {
    with_flag(
        with_flag(with_flag(s, FLAG_C, v >= b), FLAG_Z, v == b),
        FLAG_N,
        ((v - b + 256) % 256) as u8 & 0x80 != 0,
    )
}

/// CMP, CPX, CPY.
pub open spec fn compare_step(which: Reg, r: Registers, mem: Seq<u8>, mode: AddressingMode, t: Option<usize>) -> Result<StepResult, MicrocodeError> {
    match operand_byte(mem, t) {
        Ok(b) => {
            let r1 = Registers { status_register: compare_status(r.status_register, get_reg(r, which), b), ..r };
            done(advance(r1, mode), mem, b, false)
        },
        Err(e) => Err(e),
    }
}

/// ADC (binary): `A + M + C`; C on unsigned overflow, V on signed overflow.
pub open spec fn adc_step(r: Registers, mem: Seq<u8>, mode: AddressingMode, t: Option<usize>) -> Result<StepResult, MicrocodeError> {
    match operand_byte(mem, t) {
        Ok(b) => {
            let a = r.accumulator;
            let sum = a + b + if flag(r.status_register, FLAG_C) { 1int } else { 0int };
            let v = (sum % 256) as u8;
            let s = with_flag(
                with_flag(with_flag(with_flag(r.status_register, FLAG_C, sum > 255), FLAG_Z, v == 0), FLAG_N, v & 0x80 != 0),
                FLAG_V,
                (a ^ v) & (b ^ v) & 0x80 != 0,
            );
            done(advance(Registers { accumulator: v, status_register: s, ..r }, mode), mem, b, false)
        },
        Err(e) => Err(e),
    }
}

/// SBC (binary): `A - M - (1 - C)`; C when no borrow, V on signed overflow.
/// Decimal mode is not supported: with D set, an SBC that has an operand
/// address stops with a runtime error before reading it.
pub open spec fn sbc_step(r: Registers, mem: Seq<u8>, mode: AddressingMode, t: Option<usize>) -> Result<StepResult, MicrocodeError> {
    if t is Some && flag(r.status_register, FLAG_D) {
        Err(MicrocodeError::Runtime)
    } else {
        match operand_byte(mem, t) {
            Ok(b) => {
                let a = r.accumulator;
                let diff = a - b - if flag(r.status_register, FLAG_C) { 0int } else { 1int };
                let v = ((diff + 512) % 256) as u8;
                let s = with_flag(
                    with_flag(with_flag(with_flag(r.status_register, FLAG_C, diff >= 0), FLAG_Z, v == 0), FLAG_N, v & 0x80 != 0),
                    FLAG_V,
                    (a ^ v) & !(b ^ v) & 0x80 != 0,
                );
                done(advance(Registers { accumulator: v, status_register: s, ..r }, mode), mem, b, false)
            },
            Err(e) => Err(e),
        }
    }
}

/// BIT: Z when `A & M` is zero; except in immediate mode, V and N are bits 6 and 7 of M.
pub open spec fn bit_step(r: Registers, mem: Seq<u8>, mode: AddressingMode, t: Option<usize>) -> Result<StepResult, MicrocodeError> {
    match operand_byte(mem, t) {
        Ok(b) => {
            let s1 = with_flag(r.status_register, FLAG_Z, r.accumulator & b == 0);
            let s2 = match mode {
                AddressingMode::Immediate(_) => s1,
                _ => with_flag(with_flag(s1, FLAG_V, b & 0x40 != 0), FLAG_N, b & 0x80 != 0),
            };
            done(advance(Registers { status_register: s2, ..r }, mode), mem, b, false)
        },
        Err(e) => Err(e),
    }
}

/// TRB: clear in M the bits set in A (M is only written when some bit is
/// cleared); Z when `A & M` is zero.
pub open spec fn trb_step(r: Registers, mem: Seq<u8>, mode: AddressingMode, t: Option<usize>) -> Result<StepResult, MicrocodeError> {
    match need_target(t) {
        Ok(a) => match read_byte(mem, a) {
            Ok(b) => if b & r.accumulator != 0 {
                let v = b & (r.accumulator ^ 0xff);
                done(advance(with_status_flag(r, FLAG_Z, false), mode), mem.update(a as int, v), v, false)
            } else {
                done(advance(with_status_flag(r, FLAG_Z, true), mode), mem, b, false)
            },
            Err(e) => Err(e),
        },
        Err(e) => Err(e),
    }
}

/// TSB: set in M the bits set in A; Z when `A & M` was zero.
pub open spec fn tsb_step(r: Registers, mem: Seq<u8>, mode: AddressingMode, t: Option<usize>) -> Result<StepResult, MicrocodeError> {
    match need_target(t) {
        Ok(a) => match read_byte(mem, a) {
            Ok(b) => {
                let v = b | r.accumulator;
                done(advance(with_status_flag(r, FLAG_Z, b & r.accumulator == 0), mode), mem.update(a as int, v), v, false)
            },
            Err(e) => Err(e),
        },
        Err(e) => Err(e),
    }
}

/// Bit number encoded in the opcode of RMBn, SMBn, BBRn and BBSn.
pub open spec fn opcode_bit(opcode: u8) -> u8 {
    (opcode >> 4u8) & 7u8
}

/// RMBn and SMBn: clear or set bit n of M.
pub open spec fn bit_set_step(set: bool, opcode: u8, r: Registers, mem: Seq<u8>, mode: AddressingMode, t: Option<usize>) -> Result<StepResult, MicrocodeError> {
    match need_target(t) {
        Ok(a) => match read_byte(mem, a) {
            Ok(b) => {
                let mask = 1u8 << opcode_bit(opcode);
                let v = if set { b | mask } else { b & !mask };
                done(advance(r, mode), mem.update(a as int, v), v, false)
            },
            Err(e) => Err(e),
        },
        Err(e) => Err(e),
    }
}

/// Conditional branches: go to the target when the condition holds,
/// otherwise to the next instruction.
pub open spec fn branch_step(cond: bool, r: Registers, mem: Seq<u8>, mode: AddressingMode, t: Option<usize>) -> Result<StepResult, MicrocodeError> {
    match need_target(t) {
        Ok(d) => if cond {
            done(jump(r, d), mem, 0, true)
        } else {
            done(advance(r, mode), mem, 0, false)
        },
        Err(e) => Err(e),
    }
}

/// BBRn and BBSn: branch when bit n of the zero page byte is clear (BBR) or set (BBS).
pub open spec fn bbx_step(set: bool, opcode: u8, r: Registers, mem: Seq<u8>, mode: AddressingMode, t: Option<usize>) -> Result<StepResult, MicrocodeError> {
    match mode {
        AddressingMode::ZeroPageRelative(addr, v) => match operand_byte(mem, t) {
            Ok(b) => {
                let is_set = (b >> opcode_bit(opcode)) & 1u8 == 1u8;
                if is_set == set {
                    match zero_page_relative_target(addr, v[1]) {
                        Some(d) => done(jump(r, d), mem, b, true),
                        None => Err(MicrocodeError::Runtime),
                    }
                } else {
                    done(advance(r, mode), mem, b, false)
                }
            },
            Err(e) => Err(e),
        },
        _ => Err(MicrocodeError::Runtime),
    }
}

/// Stack page address of the stack pointer `sp`.
pub open spec fn stack_addr(sp: u8) -> int {
    STACK_BASE_ADDR + sp
}

/// Push a byte: written at the stack pointer, which then decreases.
pub open spec fn push_spec(r: Registers, mem: Seq<u8>, v: u8) -> (Registers, Seq<u8>) {
    (Registers { stack_pointer: sp_after_push(r.stack_pointer), ..r }, mem.update(stack_addr(r.stack_pointer), v))
}

/// Pull a byte: the stack pointer increases, then the byte is read there.
pub open spec fn pull_spec(r: Registers, mem: Seq<u8>) -> (Registers, u8) {
    let sp = sp_after_pull(r.stack_pointer);
    (Registers { stack_pointer: sp, ..r }, mem[stack_addr(sp)])
}

/// PHA, PHX, PHY, PHP: push a register.
pub open spec fn push_step(v: u8, r: Registers, mem: Seq<u8>, mode: AddressingMode) -> Result<StepResult, MicrocodeError> {
    let (r1, m1) = push_spec(r, mem, v);
    done(advance(r1, mode), m1, v, false)
}

/// PLA, PLX, PLY: pull into a register; N and Z follow.
pub open spec fn pull_reg_step(which: Reg, r: Registers, mem: Seq<u8>, mode: AddressingMode) -> Result<StepResult, MicrocodeError> {
    let (r1, v) = pull_spec(r, mem);
    done(advance(with_nz(set_reg(r1, which, v), v), mode), mem, v, false)
}

/// PLP: pull the status register.
pub open spec fn plp_step(r: Registers, mem: Seq<u8>, mode: AddressingMode) -> Result<StepResult, MicrocodeError> {
    let (r1, v) = pull_spec(r, mem);
    done(advance(Registers { status_register: v, ..r1 }, mode), mem, v, false)
}

/// Low byte of a return address.
pub open spec fn lo(a: int) -> u8 {
    (a % 256) as u8
}

/// High byte of a 16 bit return address.
pub open spec fn hi(a: int) -> u8 {
    ((a / 256) % 256) as u8
}

/// JSR: push the address of the last byte of the instruction (high byte
/// first), then jump.
pub open spec fn jsr_step(r: Registers, mem: Seq<u8>, t: Option<usize>) -> Result<StepResult, MicrocodeError> {
    match need_target(t) {
        Ok(d) => {
            let ret = r.command_pointer + 2;
            let (r1, m1) = push_spec(r, mem, hi(ret));
            let (r2, m2) = push_spec(r1, m1, lo(ret));
            done(jump(r2, d), m2, 0, false)
        },
        Err(e) => Err(e),
    }
}

/// RTS: pull the return address (low byte first) and continue after it.
pub open spec fn rts_step(r: Registers, mem: Seq<u8>) -> Result<StepResult, MicrocodeError> {
    let (r1, l) = pull_spec(r, mem);
    let (r2, h) = pull_spec(r1, mem);
    done(jump(r2, (word(l, h) + 1) as usize), mem, 0, false)
}

/// RTI: pull the status register, then the return address.
pub open spec fn rti_step(r: Registers, mem: Seq<u8>) -> Result<StepResult, MicrocodeError> {
    let (r1, s) = pull_spec(r, mem);
    let (r2, l) = pull_spec(r1, mem);
    let (r3, h) = pull_spec(r2, mem);
    done(jump(Registers { status_register: s, ..r3 }, word(l, h) as usize), mem, 0, false)
}

/// BRK: push the return address (instruction address + 2, high byte first)
/// and the status register, jump through the interrupt vector, set I.
pub open spec fn brk_step(r: Registers, mem: Seq<u8>) -> Result<StepResult, MicrocodeError> {
    let ret = r.command_pointer + 2;
    let (r1, m1) = push_spec(r, mem, hi(ret));
    let (r2, m2) = push_spec(r1, m1, lo(ret));
    let (r3, m3) = push_spec(r2, m2, r.status_register);
    let d = word(m3[0xfffe], m3[0xffff]) as usize;
    done(with_status_flag(jump(r3, d), FLAG_I, true), m3, 0, false)
}

/// The state after the operation `mc` of the instruction with opcode
/// `opcode` and mode `mode`, `t` being the address the mode resolved to.
/// Registers and memory are those before the instruction (the memory being
/// the whole 64 KiB).
#[verifier::opaque]
pub open spec fn microcode_step(mc: Microcode, opcode: u8, mode: AddressingMode, r: Registers, mem: Seq<u8>, t: Option<usize>) -> Result<StepResult, MicrocodeError> {
    let s = r.status_register;
    match mc {
        Microcode::Lda => load_step(LoadOp::Load, Reg::A, r, mem, mode, t),
        Microcode::Ldx => load_step(LoadOp::Load, Reg::X, r, mem, mode, t),
        Microcode::Ldy => load_step(LoadOp::Load, Reg::Y, r, mem, mode, t),
        Microcode::And => load_step(LoadOp::And, Reg::A, r, mem, mode, t),
        Microcode::Ora => load_step(LoadOp::Or, Reg::A, r, mem, mode, t),
        Microcode::Eor => load_step(LoadOp::Xor, Reg::A, r, mem, mode, t),
        Microcode::Sta => store_step(r.accumulator, r, mem, mode, t),
        Microcode::Stx => store_step(r.register_x, r, mem, mode, t),
        Microcode::Sty => store_step(r.register_y, r, mem, mode, t),
        Microcode::Stz => store_step(0, r, mem, mode, t),
        Microcode::Tax => transfer_step(Reg::A, Reg::X, r, mem, mode),
        Microcode::Tay => transfer_step(Reg::A, Reg::Y, r, mem, mode),
        Microcode::Txa => transfer_step(Reg::X, Reg::A, r, mem, mode),
        Microcode::Tya => transfer_step(Reg::Y, Reg::A, r, mem, mode),
        Microcode::Tsx => transfer_step(Reg::SP, Reg::X, r, mem, mode),
        Microcode::Txs => transfer_step(Reg::X, Reg::SP, r, mem, mode),
        Microcode::Inx => step_reg(Reg::X, true, r, mem, mode),
        Microcode::Iny => step_reg(Reg::Y, true, r, mem, mode),
        Microcode::Ina => step_reg(Reg::A, true, r, mem, mode),
        Microcode::Dex => step_reg(Reg::X, false, r, mem, mode),
        Microcode::Dey => step_reg(Reg::Y, false, r, mem, mode),
        Microcode::Inc => rmw_step(RmwOp::Inc, r, mem, mode, t),
        Microcode::Dec => rmw_step(RmwOp::Dec, r, mem, mode, t),
        Microcode::Asl => rmw_step(RmwOp::Asl, r, mem, mode, t),
        Microcode::Lsr => rmw_step(RmwOp::Lsr, r, mem, mode, t),
        Microcode::Rol => rmw_step(RmwOp::Rol, r, mem, mode, t),
        Microcode::Ror => rmw_step(RmwOp::Ror, r, mem, mode, t),
        Microcode::Cmp => compare_step(Reg::A, r, mem, mode, t),
        Microcode::Cpx => compare_step(Reg::X, r, mem, mode, t),
        Microcode::Cpy => compare_step(Reg::Y, r, mem, mode, t),
        Microcode::Adc => adc_step(r, mem, mode, t),
        Microcode::Sbc => sbc_step(r, mem, mode, t),
        Microcode::Bit => bit_step(r, mem, mode, t),
        Microcode::Trb => trb_step(r, mem, mode, t),
        Microcode::Tsb => tsb_step(r, mem, mode, t),
        Microcode::Rmb => bit_set_step(false, opcode, r, mem, mode, t),
        Microcode::Smb => bit_set_step(true, opcode, r, mem, mode, t),
        Microcode::Bbr => bbx_step(false, opcode, r, mem, mode, t),
        Microcode::Bbs => bbx_step(true, opcode, r, mem, mode, t),
        Microcode::Bcc => branch_step(!flag(s, FLAG_C), r, mem, mode, t),
        Microcode::Bcs => branch_step(flag(s, FLAG_C), r, mem, mode, t),
        Microcode::Bne => branch_step(!flag(s, FLAG_Z), r, mem, mode, t),
        Microcode::Beq => branch_step(flag(s, FLAG_Z), r, mem, mode, t),
        Microcode::Bpl => branch_step(!flag(s, FLAG_N), r, mem, mode, t),
        Microcode::Bmi => branch_step(flag(s, FLAG_N), r, mem, mode, t),
        Microcode::Bvc => branch_step(!flag(s, FLAG_V), r, mem, mode, t),
        Microcode::Bvs => branch_step(flag(s, FLAG_V), r, mem, mode, t),
        Microcode::Bra => branch_step(true, r, mem, mode, t),
        Microcode::Clc => done(advance(with_status_flag(r, FLAG_C, false), mode), mem, 0, false),
        Microcode::Sec => done(advance(with_status_flag(r, FLAG_C, true), mode), mem, 0, false),
        Microcode::Cli => done(advance(with_status_flag(r, FLAG_I, false), mode), mem, 0, false),
        Microcode::Sei => done(advance(with_status_flag(r, FLAG_I, true), mode), mem, 0, false),
        Microcode::Cld => done(advance(with_status_flag(r, FLAG_D, false), mode), mem, 0, false),
        Microcode::Sed => done(advance(with_status_flag(r, FLAG_D, true), mode), mem, 0, false),
        Microcode::Clv => done(advance(with_status_flag(r, FLAG_V, false), mode), mem, 0, false),
        Microcode::Pha => push_step(r.accumulator, r, mem, mode),
        Microcode::Phx => push_step(r.register_x, r, mem, mode),
        Microcode::Phy => push_step(r.register_y, r, mem, mode),
        Microcode::Php => push_step(s, r, mem, mode),
        Microcode::Pla => pull_reg_step(Reg::A, r, mem, mode),
        Microcode::Plx => pull_reg_step(Reg::X, r, mem, mode),
        Microcode::Ply => pull_reg_step(Reg::Y, r, mem, mode),
        Microcode::Plp => plp_step(r, mem, mode),
        Microcode::Jmp => match need_target(t) {
            Ok(d) => done(jump(r, d), mem, 0, false),
            Err(e) => Err(e),
        },
        Microcode::Jsr => jsr_step(r, mem, t),
        Microcode::Rts => rts_step(r, mem),
        Microcode::Rti => rti_step(r, mem),
        Microcode::Brk => brk_step(r, mem),
        Microcode::Nop => done(advance(r, mode), mem, 0, false),
        Microcode::Stp => done(r, mem, 0, false),
    }
}

} // verus!
