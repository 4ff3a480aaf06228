//! Execution of the 65C02 operations.
use crate::addressing_mode::{operands, resolve_zero_page_relative, target_spec, AddressingMode};
use crate::cpu_instruction::{
    format_outcome, outcome_kind, outcome_text, CPUInstruction, LogLine, Microcode, MicrocodeError,
    OutcomeKind,
};
use crate::memory::{lemma_memory_size, splice, AddressableIO, MemoryStack};
use crate::opcodes::{lookup_opcode, opcode_entry};
use crate::registers::{Registers, FLAG_C, FLAG_D, FLAG_I, FLAG_V};
use crate::semantics::{
    advance, adc_step, bbx_step, bit_set_step, bit_step, branch_step, brk_step, compare_step,
    get_reg, jsr_step, load_step, microcode_step, operand_byte, plp_step, pull_reg_step, push_step,
    rmw_status, rmw_step, rmw_value, rti_step, rts_step, sbc_step, set_reg, step_reg, store_step,
    transfer_step, trb_step, tsb_step, with_nz, write_byte, LoadOp, Reg, RmwOp, StepResult,
};
use vstd::prelude::*;

verus! {

/// Whether an execution matches the specified step: on success the new
/// state is the specified one, on failure nothing changed.
pub open spec fn step_matches(
    spec: Result<StepResult, MicrocodeError>,
    r0: Registers,
    m0: Seq<u8>,
    r1: Registers,
    m1: Seq<u8>,
    res: Result<(u8, bool), MicrocodeError>,
) -> bool {
    match spec {
        Ok(sr) => res == Ok::<(u8, bool), MicrocodeError>((sr.byte, sr.taken)) && r1 == sr.registers
            && m1 == sr.memory,
        Err(e) => res == Err::<(u8, bool), MicrocodeError>(e) && r1 == r0 && m1 == m0,
    }
}

/// Resolve the addressing mode, then perform the operation.
pub open spec fn execution(
    mc: Microcode,
    opcode: u8,
    mode: AddressingMode,
    r: Registers,
    mem: Seq<u8>,
) -> Result<(Option<usize>, StepResult), MicrocodeError> {
    match target_spec(mode, r.command_pointer, mem, r) {
        Err(e) => Err(MicrocodeError::Resolution(e)),
        Ok(t) => match microcode_step(mc, opcode, mode, r, mem, t) {
            Ok(sr) => Ok((t, sr)),
            Err(e) => Err(e),
        },
    }
}

/// Base cycle count of an opcode (0 for an opcode outside the table).
pub open spec fn base_cycles(opcode: u8) -> u8 {
    match opcode_entry(opcode) {
        Some(e) => e.cycles,
        None => 0,
    }
}

/// Cycles an instruction takes: its base count, one more for a taken branch.
pub open spec fn instruction_cycles(opcode: u8, taken: bool) -> u8 {
    (base_cycles(opcode) + if taken { 1int } else { 0int }) as u8
}

/// Registers with `c` cycles added to the cycle counter (wrapping).
pub open spec fn with_cycles(r: Registers, c: u8) -> Registers {
    Registers { cycle_count: ((r.cycle_count + c) % 0x1_0000_0000_0000_0000) as u64, ..r }
}

/// The effect of executing operation `mc` as the instruction at `address`
/// with the given opcode, mnemonic and mode, on registers `r0` and memory
/// `m0`: registers `r1`, memory `m1` and the trace line or error `res`.
pub open spec fn executed_as(
    mc: Microcode,
    address: usize,
    opcode: u8,
    mnemonic: Seq<char>,
    mode: AddressingMode,
    r0: Registers,
    m0: Seq<u8>,
    r1: Registers,
    m1: Seq<u8>,
    res: Result<LogLine, MicrocodeError>,
) -> bool {
    match execution(mc, opcode, mode, r0, m0) {
        Ok((t, sr)) => {
            let c = instruction_cycles(opcode, sr.taken);
            &&& res is Ok
            &&& r1 == with_cycles(sr.registers, c)
            &&& m1 == sr.memory
            &&& res->Ok_0.address == address
            &&& res->Ok_0.opcode == opcode
            &&& res->Ok_0.mnemonic@ == mnemonic
            &&& res->Ok_0.resolution.addressing_mode == mode
            &&& res->Ok_0.resolution.operands@ == operands(mode)
            &&& res->Ok_0.resolution.target_address == t
            &&& res->Ok_0.outcome@ == outcome_text(outcome_kind(mc, t is None), sr.registers, sr.byte)
            &&& res->Ok_0.cycles == c
        },
        Err(e) => res == Err::<LogLine, MicrocodeError>(e) && r1 == r0 && m1 == m0,
    }
}

/// The effect of executing operation `mc` as instruction `instr`.
pub open spec fn executed(
    mc: Microcode,
    instr: CPUInstruction,
    r0: Registers,
    m0: Seq<u8>,
    r1: Registers,
    m1: Seq<u8>,
    res: Result<LogLine, MicrocodeError>,
) -> bool {
    executed_as(mc, instr.address, instr.opcode, instr.mnemonic@, instr.addressing_mode, r0, m0, r1, m1, res)
}

fn get_register(r: &Registers, which: Reg) -> (v: u8)
    ensures
        v == get_reg(*r, which),
{
    match which {
        Reg::A => r.accumulator,
        Reg::X => r.register_x,
        Reg::Y => r.register_y,
        Reg::SP => r.stack_pointer,
    }
}

fn set_register(r: &mut Registers, which: Reg, v: u8)
    ensures
        *final(r) == set_reg(*old(r), which, v),
{
    match which {
        Reg::A => r.accumulator = v,
        Reg::X => r.register_x = v,
        Reg::Y => r.register_y = v,
        Reg::SP => r.stack_pointer = v,
    }
}

fn set_nz(r: &mut Registers, v: u8)
    ensures
        *final(r) == with_nz(*old(r), v),
{
    r.set_n_flag(v & 0x80 != 0);
    r.set_z_flag(v == 0);
}

fn advance_cp(r: &mut Registers, mode: AddressingMode)
    requires
        old(r).command_pointer <= usize::MAX - 3,
    ensures
        *final(r) == advance(*old(r), mode),
{
    let n: usize = match mode {
        AddressingMode::Implied | AddressingMode::Accumulator => 0,
        AddressingMode::Absolute(_) | AddressingMode::AbsoluteXIndexed(_)
        | AddressingMode::AbsoluteYIndexed(_) | AddressingMode::Indirect(_)
        | AddressingMode::AbsoluteXIndexedIndirect(_) | AddressingMode::ZeroPageRelative(_, _) => 2,
        _ => 1,
    };
    assert(n == operands(mode).len());
    r.command_pointer = r.command_pointer + 1 + n;
}

fn need_target(t: Option<usize>) -> (r: Result<usize, MicrocodeError>)
    ensures
        r == crate::semantics::need_target(t),
{
    match t {
        Some(a) => Ok(a),
        None => Err(MicrocodeError::Runtime),
    }
}

fn read_byte(memory: &MemoryStack, a: usize) -> (r: Result<u8, MicrocodeError>)
    ensures
        r == crate::semantics::read_byte(memory.contents(), a),
{
    match memory.read(a, 1) {
        Ok(v) => Ok(v[0]),
        Err(e) => Err(MicrocodeError::MemoryOverflow(e)),
    }
}

fn read_at(memory: &MemoryStack, t: Option<usize>) -> (r: Result<u8, MicrocodeError>)
    ensures
        r == operand_byte(memory.contents(), t),
{
    let a = need_target(t)?;
    read_byte(memory, a)
}

fn write_at(memory: &mut MemoryStack, a: usize, v: u8) -> (r: Result<(), MicrocodeError>)
    ensures
        match write_byte(old(memory).contents(), a, v) {
            Ok(m) => r is Ok && final(memory).contents() == m,
            Err(e) => r == Err::<(), MicrocodeError>(e) && final(memory).contents() == old(
                memory,
            ).contents(),
        },
{
    proof {
        lemma_memory_size(memory);
    }
    let ghost before = memory.contents();
    let data = [v];
    match memory.write(a, data.as_slice()) {
        Ok(()) => {
            assert(splice(before, a as int, seq![v]) =~= before.update(a as int, v));
            Ok(())
        },
        Err(e) => Err(MicrocodeError::MemoryOverflow(e)),
    }
}

fn exec_load(
    op: LoadOp,
    which: Reg,
    registers: &mut Registers,
    memory: &MemoryStack,
    mode: AddressingMode,
    t: Option<usize>,
) -> (r: Result<(u8, bool), MicrocodeError>)
    requires
        old(registers).command_pointer <= usize::MAX - 3,
    ensures
        step_matches(
            load_step(op, which, *old(registers), memory.contents(), mode, t),
            *old(registers),
            memory.contents(),
            *final(registers),
            memory.contents(),
            r,
        ),
{
    let b = read_at(memory, t)?;
    let cur = get_register(registers, which);
    let v = match op {
        LoadOp::Load => b,
        LoadOp::And => cur & b,
        LoadOp::Or => cur | b,
        LoadOp::Xor => cur ^ b,
    };
    set_register(registers, which, v);
    set_nz(registers, v);
    advance_cp(registers, mode);
    Ok((b, false))
}

fn exec_store(
    v: u8,
    registers: &mut Registers,
    memory: &mut MemoryStack,
    mode: AddressingMode,
    t: Option<usize>,
) -> (r: Result<(u8, bool), MicrocodeError>)
    requires
        old(registers).command_pointer <= usize::MAX - 3,
    ensures
        step_matches(
            store_step(v, *old(registers), old(memory).contents(), mode, t),
            *old(registers),
            old(memory).contents(),
            *final(registers),
            final(memory).contents(),
            r,
        ),
{
    let a = need_target(t)?;
    write_at(memory, a, v)?;
    advance_cp(registers, mode);
    Ok((v, false))
}

fn exec_transfer(from: Reg, to: Reg, registers: &mut Registers, mem: Ghost<Seq<u8>>, mode: AddressingMode) -> (r: Result<
    (u8, bool),
    MicrocodeError,
>)
    requires
        old(registers).command_pointer <= usize::MAX - 3,
    ensures
        step_matches(
            transfer_step(from, to, *old(registers), mem@, mode),
            *old(registers),
            mem@,
            *final(registers),
            mem@,
            r,
        ),
{
    let v = get_register(registers, from);
    set_register(registers, to, v);
    match to {
        Reg::SP => {},
        _ => set_nz(registers, v),
    }
    advance_cp(registers, mode);
    Ok((0, false))
}

fn exec_step_reg(which: Reg, up: bool, registers: &mut Registers, mem: Ghost<Seq<u8>>, mode: AddressingMode) -> (r:
    Result<(u8, bool), MicrocodeError>)
    requires
        old(registers).command_pointer <= usize::MAX - 3,
    ensures
        step_matches(
            step_reg(which, up, *old(registers), mem@, mode),
            *old(registers),
            mem@,
            *final(registers),
            mem@,
            r,
        ),
{
    let cur = get_register(registers, which);
    let v = if up {
        if cur == 255 {
            0
        } else {
            cur + 1
        }
    } else {
        if cur == 0 {
            255
        } else {
            cur - 1
        }
    };
    set_register(registers, which, v);
    set_nz(registers, v);
    advance_cp(registers, mode);
    Ok((0, false))
}

fn rmw_compute(op: RmwOp, b: u8, carry: bool) -> (v: u8)
    ensures
        v == rmw_value(op, b, carry),
{
    match op {
        RmwOp::Inc => if b == 255 {
            0
        } else {
            b + 1
        },
        RmwOp::Dec => if b == 0 {
            255
        } else {
            b - 1
        },
        RmwOp::Asl => ((b as u16 * 2) % 256) as u8,
        RmwOp::Lsr => b / 2,
        RmwOp::Rol => ((b as u16 * 2 + if carry { 1 } else { 0 }) % 256) as u8,
        RmwOp::Ror => b / 2 + if carry { 128 } else { 0 },
    }
}

fn rmw_flags(registers: &mut Registers, op: RmwOp, b: u8, v: u8)
    ensures
        *final(registers) == (Registers {
            status_register: rmw_status(op, old(registers).status_register, b, v),
            ..*old(registers)
        }),
{
    match op {
        RmwOp::Inc | RmwOp::Dec => {},
        RmwOp::Asl | RmwOp::Rol => registers.set_c_flag(b & 0x80 != 0),
        RmwOp::Lsr | RmwOp::Ror => registers.set_c_flag(b & 1 != 0),
    }
    set_nz(registers, v);
}

fn exec_rmw(
    op: RmwOp,
    registers: &mut Registers,
    memory: &mut MemoryStack,
    mode: AddressingMode,
    t: Option<usize>,
) -> (r: Result<(u8, bool), MicrocodeError>)
    requires
        old(registers).command_pointer <= usize::MAX - 3,
    ensures
        step_matches(
            rmw_step(op, *old(registers), old(memory).contents(), mode, t),
            *old(registers),
            old(memory).contents(),
            *final(registers),
            final(memory).contents(),
            r,
        ),
{
    let carry = registers.c_flag_is_set();
    match t {
        None => {
            let b = registers.accumulator;
            let v = rmw_compute(op, b, carry);
            registers.accumulator = v;
            rmw_flags(registers, op, b, v);
            advance_cp(registers, mode);
            Ok((v, false))
        },
        Some(a) => {
            let b = read_byte(memory, a)?;
            let v = rmw_compute(op, b, carry);
            write_at(memory, a, v)?;
            rmw_flags(registers, op, b, v);
            advance_cp(registers, mode);
            Ok((v, false))
        },
    }
}

fn exec_compare(
    which: Reg,
    registers: &mut Registers,
    memory: &MemoryStack,
    mode: AddressingMode,
    t: Option<usize>,
) -> (r: Result<(u8, bool), MicrocodeError>)
    requires
        old(registers).command_pointer <= usize::MAX - 3,
    ensures
        step_matches(
            compare_step(which, *old(registers), memory.contents(), mode, t),
            *old(registers),
            memory.contents(),
            *final(registers),
            memory.contents(),
            r,
        ),
{
    let b = read_at(memory, t)?;
    let v = get_register(registers, which);
    registers.set_c_flag(v >= b);
    registers.set_z_flag(v == b);
    registers.set_n_flag(((v as u16 + 256 - b as u16) % 256) as u8 & 0x80 != 0);
    advance_cp(registers, mode);
    Ok((b, false))
}

fn exec_adc(registers: &mut Registers, memory: &MemoryStack, mode: AddressingMode, t: Option<usize>) -> (r:
    Result<(u8, bool), MicrocodeError>)
    requires
        old(registers).command_pointer <= usize::MAX - 3,
    ensures
        step_matches(
            adc_step(*old(registers), memory.contents(), mode, t),
            *old(registers),
            memory.contents(),
            *final(registers),
            memory.contents(),
            r,
        ),
{
    let b = read_at(memory, t)?;
    let a = registers.accumulator;
    let sum: u16 = a as u16 + b as u16 + if registers.c_flag_is_set() { 1 } else { 0 };
    let v = (sum % 256) as u8;
    registers.accumulator = v;
    registers.set_c_flag(sum > 255);
    registers.set_z_flag(v == 0);
    registers.set_n_flag(v & 0x80 != 0);
    registers.set_v_flag((a ^ v) & (b ^ v) & 0x80 != 0);
    advance_cp(registers, mode);
    Ok((b, false))
}

fn exec_sbc(registers: &mut Registers, memory: &MemoryStack, mode: AddressingMode, t: Option<usize>) -> (r:
    Result<(u8, bool), MicrocodeError>)
    requires
        old(registers).command_pointer <= usize::MAX - 3,
    ensures
        step_matches(
            sbc_step(*old(registers), memory.contents(), mode, t),
            *old(registers),
            memory.contents(),
            *final(registers),
            memory.contents(),
            r,
        ),
{
    if t.is_some() && registers.d_flag_is_set() {
        return Err(MicrocodeError::Runtime);
    }
    let b = read_at(memory, t)?;
    let a = registers.accumulator;
    let borrow: u16 = if registers.c_flag_is_set() { 0 } else { 1 };
    let shifted: u16 = a as u16 + 512 - b as u16 - borrow;
    let v = (shifted % 256) as u8;
    registers.accumulator = v;
    registers.set_c_flag(shifted >= 512);
    registers.set_z_flag(v == 0);
    registers.set_n_flag(v & 0x80 != 0);
    registers.set_v_flag((a ^ v) & !(b ^ v) & 0x80 != 0);
    advance_cp(registers, mode);
    Ok((b, false))
}

fn exec_bit(registers: &mut Registers, memory: &MemoryStack, mode: AddressingMode, t: Option<usize>) -> (r:
    Result<(u8, bool), MicrocodeError>)
    requires
        old(registers).command_pointer <= usize::MAX - 3,
    ensures
        step_matches(
            bit_step(*old(registers), memory.contents(), mode, t),
            *old(registers),
            memory.contents(),
            *final(registers),
            memory.contents(),
            r,
        ),
{
    let b = read_at(memory, t)?;
    registers.set_z_flag(registers.accumulator & b == 0);
    match mode {
        AddressingMode::Immediate(_) => {},
        _ => {
            registers.set_v_flag(b & 0x40 != 0);
            registers.set_n_flag(b & 0x80 != 0);
        },
    }
    advance_cp(registers, mode);
    Ok((b, false))
}

fn exec_trb(registers: &mut Registers, memory: &mut MemoryStack, mode: AddressingMode, t: Option<usize>) -> (r:
    Result<(u8, bool), MicrocodeError>)
    requires
        old(registers).command_pointer <= usize::MAX - 3,
    ensures
        step_matches(
            trb_step(*old(registers), old(memory).contents(), mode, t),
            *old(registers),
            old(memory).contents(),
            *final(registers),
            final(memory).contents(),
            r,
        ),
{
    let a = need_target(t)?;
    let b = read_byte(memory, a)?;
    if b & registers.accumulator != 0 {
        let v = b & (registers.accumulator ^ 0xff);
        write_at(memory, a, v)?;
        registers.set_z_flag(false);
        advance_cp(registers, mode);
        Ok((v, false))
    } else {
        registers.set_z_flag(true);
        advance_cp(registers, mode);
        Ok((b, false))
    }
}

fn exec_tsb(registers: &mut Registers, memory: &mut MemoryStack, mode: AddressingMode, t: Option<usize>) -> (r:
    Result<(u8, bool), MicrocodeError>)
    requires
        old(registers).command_pointer <= usize::MAX - 3,
    ensures
        step_matches(
            tsb_step(*old(registers), old(memory).contents(), mode, t),
            *old(registers),
            old(memory).contents(),
            *final(registers),
            final(memory).contents(),
            r,
        ),
{
    let a = need_target(t)?;
    let b = read_byte(memory, a)?;
    let v = b | registers.accumulator;
    write_at(memory, a, v)?;
    registers.set_z_flag(b & registers.accumulator == 0);
    advance_cp(registers, mode);
    Ok((v, false))
}

fn exec_bit_set(
    set: bool,
    opcode: u8,
    registers: &mut Registers,
    memory: &mut MemoryStack,
    mode: AddressingMode,
    t: Option<usize>,
) -> (r: Result<(u8, bool), MicrocodeError>)
    requires
        old(registers).command_pointer <= usize::MAX - 3,
    ensures
        step_matches(
            bit_set_step(set, opcode, *old(registers), old(memory).contents(), mode, t),
            *old(registers),
            old(memory).contents(),
            *final(registers),
            final(memory).contents(),
            r,
        ),
{
    let a = need_target(t)?;
    let b = read_byte(memory, a)?;
    let bit: u8 = (opcode >> 4u8) & 7u8;
    assert(bit < 8) by (bit_vector)
        requires
            bit == (opcode >> 4u8) & 7u8,
    ;
    let mask: u8 = 1u8 << bit;
    let v = if set {
        b | mask
    } else {
        b & !mask
    };
    write_at(memory, a, v)?;
    advance_cp(registers, mode);
    Ok((v, false))
}

fn exec_branch(cond: bool, registers: &mut Registers, mem: Ghost<Seq<u8>>, mode: AddressingMode, t: Option<usize>) -> (r:
    Result<(u8, bool), MicrocodeError>)
    requires
        old(registers).command_pointer <= usize::MAX - 3,
    ensures
        step_matches(
            branch_step(cond, *old(registers), mem@, mode, t),
            *old(registers),
            mem@,
            *final(registers),
            mem@,
            r,
        ),
{
    let d = need_target(t)?;
    if cond {
        registers.command_pointer = d;
        Ok((0, true))
    } else {
        advance_cp(registers, mode);
        Ok((0, false))
    }
}

fn exec_bbx(
    set: bool,
    opcode: u8,
    registers: &mut Registers,
    memory: &MemoryStack,
    mode: AddressingMode,
    t: Option<usize>,
) -> (r: Result<(u8, bool), MicrocodeError>)
    requires
        old(registers).command_pointer <= usize::MAX - 3,
    ensures
        step_matches(
            bbx_step(set, opcode, *old(registers), memory.contents(), mode, t),
            *old(registers),
            memory.contents(),
            *final(registers),
            memory.contents(),
            r,
        ),
{
    match mode {
        AddressingMode::ZeroPageRelative(addr, v) => {
            let b = read_at(memory, t)?;
            let bit: u8 = (opcode >> 4u8) & 7u8;
            assert(bit < 8) by (bit_vector)
                requires
                    bit == (opcode >> 4u8) & 7u8,
            ;
            let is_set = (b >> bit) & 1u8 == 1u8;
            if is_set == set {
                match resolve_zero_page_relative(addr, v[1]) {
                    Some(d) => {
                        registers.command_pointer = d;
                        Ok((b, true))
                    },
                    None => Err(MicrocodeError::Runtime),
                }
            } else {
                advance_cp(registers, mode);
                Ok((b, false))
            }
        },
        _ => Err(MicrocodeError::Runtime),
    }
}

fn exec_push(v: u8, registers: &mut Registers, memory: &mut MemoryStack, mode: AddressingMode) -> (r: Result<
    (u8, bool),
    MicrocodeError,
>)
    requires
        old(registers).command_pointer <= usize::MAX - 3,
    ensures
        step_matches(
            push_step(v, *old(registers), old(memory).contents(), mode),
            *old(registers),
            old(memory).contents(),
            *final(registers),
            final(memory).contents(),
            r,
        ),
{
    let _ = registers.stack_push(memory, v);
    advance_cp(registers, mode);
    Ok((v, false))
}

fn pull(registers: &mut Registers, memory: &MemoryStack) -> (v: u8)
    ensures
        (*final(registers), v) == crate::semantics::pull_spec(*old(registers), memory.contents()),
{
    match registers.stack_pull(memory) {
        Ok(v) => v,
        Err(_) => 0,
    }
}

fn exec_pull_reg(which: Reg, registers: &mut Registers, memory: &MemoryStack, mode: AddressingMode) -> (r: Result<
    (u8, bool),
    MicrocodeError,
>)
    requires
        old(registers).command_pointer <= usize::MAX - 3,
    ensures
        step_matches(
            pull_reg_step(which, *old(registers), memory.contents(), mode),
            *old(registers),
            memory.contents(),
            *final(registers),
            memory.contents(),
            r,
        ),
{
    let v = pull(registers, memory);
    set_register(registers, which, v);
    set_nz(registers, v);
    advance_cp(registers, mode);
    Ok((v, false))
}

fn exec_plp(registers: &mut Registers, memory: &MemoryStack, mode: AddressingMode) -> (r: Result<(u8, bool), MicrocodeError>)
    requires
        old(registers).command_pointer <= usize::MAX - 3,
    ensures
        step_matches(
            plp_step(*old(registers), memory.contents(), mode),
            *old(registers),
            memory.contents(),
            *final(registers),
            memory.contents(),
            r,
        ),
{
    let v = pull(registers, memory);
    registers.status_register = v;
    advance_cp(registers, mode);
    Ok((v, false))
}

fn exec_jsr(registers: &mut Registers, memory: &mut MemoryStack, t: Option<usize>) -> (r: Result<(u8, bool), MicrocodeError>)
    requires
        old(registers).command_pointer <= usize::MAX - 3,
    ensures
        step_matches(
            jsr_step(*old(registers), old(memory).contents(), t),
            *old(registers),
            old(memory).contents(),
            *final(registers),
            final(memory).contents(),
            r,
        ),
{
    let d = need_target(t)?;
    let ret = registers.command_pointer + 2;
    let _ = registers.stack_push(memory, ((ret / 256) % 256) as u8);
    let _ = registers.stack_push(memory, (ret % 256) as u8);
    registers.command_pointer = d;
    Ok((0, false))
}

fn exec_rts(registers: &mut Registers, memory: &MemoryStack) -> (r: Result<(u8, bool), MicrocodeError>)
    ensures
        step_matches(
            rts_step(*old(registers), memory.contents()),
            *old(registers),
            memory.contents(),
            *final(registers),
            memory.contents(),
            r,
        ),
{
    let l = pull(registers, memory);
    let h = pull(registers, memory);
    registers.command_pointer = l as usize + 256 * h as usize + 1;
    Ok((0, false))
}

fn exec_rti(registers: &mut Registers, memory: &MemoryStack) -> (r: Result<(u8, bool), MicrocodeError>)
    ensures
        step_matches(
            rti_step(*old(registers), memory.contents()),
            *old(registers),
            memory.contents(),
            *final(registers),
            memory.contents(),
            r,
        ),
{
    let s = pull(registers, memory);
    let l = pull(registers, memory);
    let h = pull(registers, memory);
    registers.status_register = s;
    registers.command_pointer = l as usize + 256 * h as usize;
    Ok((0, false))
}

fn exec_brk(registers: &mut Registers, memory: &mut MemoryStack) -> (r: Result<(u8, bool), MicrocodeError>)
    requires
        old(registers).command_pointer <= usize::MAX - 3,
    ensures
        step_matches(
            brk_step(*old(registers), old(memory).contents()),
            *old(registers),
            old(memory).contents(),
            *final(registers),
            final(memory).contents(),
            r,
        ),
{
    let ret = registers.command_pointer + 2;
    let status = registers.status_register;
    let _ = registers.stack_push(memory, ((ret / 256) % 256) as u8);
    let _ = registers.stack_push(memory, (ret % 256) as u8);
    let _ = registers.stack_push(memory, status);
    proof {
        lemma_memory_size(memory);
    }
    let lo = read_byte(memory, 0xfffe)?;
    let hi = read_byte(memory, 0xffff)?;
    registers.command_pointer = lo as usize + 256 * hi as usize;
    registers.set_i_flag(true);
    Ok((0, false))
}

fn exec_flag(mask: u8, v: bool, registers: &mut Registers, mode: AddressingMode) -> (r: Result<(u8, bool), MicrocodeError>)
    requires
        old(registers).command_pointer <= usize::MAX - 3,
    ensures
        r == Ok::<(u8, bool), MicrocodeError>((0, false)),
        *final(registers) == advance(crate::semantics::with_status_flag(*old(registers), mask, v), mode),
{
    registers.set_flag(mask, v);
    advance_cp(registers, mode);
    Ok((0, false))
}

/// Perform operation `mc` of the instruction with the given opcode and
/// mode, `t` being the address the mode resolved to.
pub fn microcode_exec(
    mc: Microcode,
    opcode: u8,
    mode: AddressingMode,
    registers: &mut Registers,
    memory: &mut MemoryStack,
    t: Option<usize>,
) -> (r: Result<(u8, bool), MicrocodeError>)
    requires
        old(registers).command_pointer <= usize::MAX - 3,
    ensures
        step_matches(
            microcode_step(mc, opcode, mode, *old(registers), old(memory).contents(), t),
            *old(registers),
            old(memory).contents(),
            *final(registers),
            final(memory).contents(),
            r,
        ),
{
    proof {
        reveal(microcode_step);
    }
    let ghost m = memory.contents();
    match mc {
        Microcode::Lda => exec_load(LoadOp::Load, Reg::A, registers, memory, mode, t),
        Microcode::Ldx => exec_load(LoadOp::Load, Reg::X, registers, memory, mode, t),
        Microcode::Ldy => exec_load(LoadOp::Load, Reg::Y, registers, memory, mode, t),
        Microcode::And => exec_load(LoadOp::And, Reg::A, registers, memory, mode, t),
        Microcode::Ora => exec_load(LoadOp::Or, Reg::A, registers, memory, mode, t),
        Microcode::Eor => exec_load(LoadOp::Xor, Reg::A, registers, memory, mode, t),
        Microcode::Sta => {
            let v = registers.accumulator;
            exec_store(v, registers, memory, mode, t)
        },
        Microcode::Stx => {
            let v = registers.register_x;
            exec_store(v, registers, memory, mode, t)
        },
        Microcode::Sty => {
            let v = registers.register_y;
            exec_store(v, registers, memory, mode, t)
        },
        Microcode::Stz => exec_store(0, registers, memory, mode, t),
        Microcode::Tax => exec_transfer(Reg::A, Reg::X, registers, Ghost(m), mode),
        Microcode::Tay => exec_transfer(Reg::A, Reg::Y, registers, Ghost(m), mode),
        Microcode::Txa => exec_transfer(Reg::X, Reg::A, registers, Ghost(m), mode),
        Microcode::Tya => exec_transfer(Reg::Y, Reg::A, registers, Ghost(m), mode),
        Microcode::Tsx => exec_transfer(Reg::SP, Reg::X, registers, Ghost(m), mode),
        Microcode::Txs => exec_transfer(Reg::X, Reg::SP, registers, Ghost(m), mode),
        Microcode::Inx => exec_step_reg(Reg::X, true, registers, Ghost(m), mode),
        Microcode::Iny => exec_step_reg(Reg::Y, true, registers, Ghost(m), mode),
        Microcode::Ina => exec_step_reg(Reg::A, true, registers, Ghost(m), mode),
        Microcode::Dex => exec_step_reg(Reg::X, false, registers, Ghost(m), mode),
        Microcode::Dey => exec_step_reg(Reg::Y, false, registers, Ghost(m), mode),
        Microcode::Inc => exec_rmw(RmwOp::Inc, registers, memory, mode, t),
        Microcode::Dec => exec_rmw(RmwOp::Dec, registers, memory, mode, t),
        Microcode::Asl => exec_rmw(RmwOp::Asl, registers, memory, mode, t),
        Microcode::Lsr => exec_rmw(RmwOp::Lsr, registers, memory, mode, t),
        Microcode::Rol => exec_rmw(RmwOp::Rol, registers, memory, mode, t),
        Microcode::Ror => exec_rmw(RmwOp::Ror, registers, memory, mode, t),
        Microcode::Cmp => exec_compare(Reg::A, registers, memory, mode, t),
        Microcode::Cpx => exec_compare(Reg::X, registers, memory, mode, t),
        Microcode::Cpy => exec_compare(Reg::Y, registers, memory, mode, t),
        Microcode::Adc => exec_adc(registers, memory, mode, t),
        Microcode::Sbc => exec_sbc(registers, memory, mode, t),
        Microcode::Bit => exec_bit(registers, memory, mode, t),
        Microcode::Trb => exec_trb(registers, memory, mode, t),
        Microcode::Tsb => exec_tsb(registers, memory, mode, t),
        Microcode::Rmb => exec_bit_set(false, opcode, registers, memory, mode, t),
        Microcode::Smb => exec_bit_set(true, opcode, registers, memory, mode, t),
        Microcode::Bbr => exec_bbx(false, opcode, registers, memory, mode, t),
        Microcode::Bbs => exec_bbx(true, opcode, registers, memory, mode, t),
        Microcode::Bcc => {
            let c = !registers.c_flag_is_set();
            exec_branch(c, registers, Ghost(m), mode, t)
        },
        Microcode::Bcs => {
            let c = registers.c_flag_is_set();
            exec_branch(c, registers, Ghost(m), mode, t)
        },
        Microcode::Bne => {
            let c = !registers.z_flag_is_set();
            exec_branch(c, registers, Ghost(m), mode, t)
        },
        Microcode::Beq => {
            let c = registers.z_flag_is_set();
            exec_branch(c, registers, Ghost(m), mode, t)
        },
        Microcode::Bpl => {
            let c = !registers.n_flag_is_set();
            exec_branch(c, registers, Ghost(m), mode, t)
        },
        Microcode::Bmi => {
            let c = registers.n_flag_is_set();
            exec_branch(c, registers, Ghost(m), mode, t)
        },
        Microcode::Bvc => {
            let c = !registers.v_flag_is_set();
            exec_branch(c, registers, Ghost(m), mode, t)
        },
        Microcode::Bvs => {
            let c = registers.v_flag_is_set();
            exec_branch(c, registers, Ghost(m), mode, t)
        },
        Microcode::Bra => exec_branch(true, registers, Ghost(m), mode, t),
        Microcode::Clc => exec_flag(FLAG_C, false, registers, mode),
        Microcode::Sec => exec_flag(FLAG_C, true, registers, mode),
        Microcode::Cli => exec_flag(FLAG_I, false, registers, mode),
        Microcode::Sei => exec_flag(FLAG_I, true, registers, mode),
        Microcode::Cld => exec_flag(FLAG_D, false, registers, mode),
        Microcode::Sed => exec_flag(FLAG_D, true, registers, mode),
        Microcode::Clv => exec_flag(FLAG_V, false, registers, mode),
        Microcode::Pha => {
            let v = registers.accumulator;
            exec_push(v, registers, memory, mode)
        },
        Microcode::Phx => {
            let v = registers.register_x;
            exec_push(v, registers, memory, mode)
        },
        Microcode::Phy => {
            let v = registers.register_y;
            exec_push(v, registers, memory, mode)
        },
        Microcode::Php => {
            let v = registers.status_register;
            exec_push(v, registers, memory, mode)
        },
        Microcode::Pla => exec_pull_reg(Reg::A, registers, memory, mode),
        Microcode::Plx => exec_pull_reg(Reg::X, registers, memory, mode),
        Microcode::Ply => exec_pull_reg(Reg::Y, registers, memory, mode),
        Microcode::Plp => exec_plp(registers, memory, mode),
        Microcode::Jmp => {
            let d = need_target(t)?;
            registers.command_pointer = d;
            Ok((0, false))
        },
        Microcode::Jsr => exec_jsr(registers, memory, t),
        Microcode::Rts => exec_rts(registers, memory),
        Microcode::Rti => exec_rti(registers, memory),
        Microcode::Brk => exec_brk(registers, memory),
        Microcode::Nop => {
            advance_cp(registers, mode);
            Ok((0, false))
        },
        Microcode::Stp => Ok((0, false)),
    }
}

fn outcome_kind_of(mc: Microcode, on_accumulator: bool) -> (k: OutcomeKind)
    ensures
        k == outcome_kind(mc, on_accumulator),
{
    match mc {
        Microcode::Lda | Microcode::Txa | Microcode::Tya | Microcode::Ina => OutcomeKind::Acc,
        Microcode::And | Microcode::Ora | Microcode::Eor | Microcode::Adc | Microcode::Sbc
        | Microcode::Cmp => OutcomeKind::ByteAcc,
        Microcode::Cpx => OutcomeKind::ByteX,
        Microcode::Cpy => OutcomeKind::ByteY,
        Microcode::Ldx | Microcode::Tax | Microcode::Inx | Microcode::Dex | Microcode::Tsx => OutcomeKind::RegX,
        Microcode::Ldy | Microcode::Tay | Microcode::Iny | Microcode::Dey => OutcomeKind::RegY,
        Microcode::Pla => OutcomeKind::AccSp,
        Microcode::Plx => OutcomeKind::RegXSp,
        Microcode::Ply => OutcomeKind::RegYSp,
        Microcode::Plp | Microcode::Txs => OutcomeKind::SpStatus,
        Microcode::Pha | Microcode::Php | Microcode::Phx | Microcode::Phy => OutcomeKind::Sp,
        Microcode::Sta | Microcode::Stx | Microcode::Sty | Microcode::Stz | Microcode::Rmb
        | Microcode::Smb => OutcomeKind::Byte,
        Microcode::Inc | Microcode::Dec | Microcode::Asl | Microcode::Lsr | Microcode::Rol
        | Microcode::Ror => if on_accumulator {
            OutcomeKind::Acc
        } else {
            OutcomeKind::ByteStatus
        },
        Microcode::Trb | Microcode::Tsb => OutcomeKind::ByteStatus,
        Microcode::Bit | Microcode::Clc | Microcode::Cld | Microcode::Cli | Microcode::Clv
        | Microcode::Sec | Microcode::Sed | Microcode::Sei | Microcode::Stp => OutcomeKind::Status,
        Microcode::Bcc | Microcode::Bcs | Microcode::Beq | Microcode::Bmi | Microcode::Bne
        | Microcode::Bpl | Microcode::Bra | Microcode::Bvc | Microcode::Bvs | Microcode::Bbr
        | Microcode::Bbs | Microcode::Jmp | Microcode::Rts => OutcomeKind::Cp,
        Microcode::Jsr => OutcomeKind::CpSp,
        Microcode::Brk | Microcode::Rti => OutcomeKind::CpSpStatus,
        Microcode::Nop => OutcomeKind::Nothing,
    }
}


/// Resolve the instruction's addressing mode, perform operation `mc`, count
/// its cycles and trace it.
pub fn run_microcode(
    mc: Microcode,
    memory: &mut MemoryStack,
    registers: &mut Registers,
    cpu_instruction: &CPUInstruction,
) -> (r: Result<LogLine, MicrocodeError>)
    requires
        old(registers).command_pointer <= usize::MAX - 3,
    ensures
        executed(mc, *cpu_instruction, *old(registers), old(memory).contents(), *final(registers), final(memory).contents(), r),
{
    let resolution = match cpu_instruction.addressing_mode.solve(registers.command_pointer, memory, registers) {
        Ok(res) => res,
        Err(e) => return Err(MicrocodeError::Resolution(e)),
    };
    let t = resolution.target_address;
    let (byte, taken) = microcode_exec(mc, cpu_instruction.opcode, cpu_instruction.addressing_mode, registers, memory, t)?;
    let base: u8 = match lookup_opcode(cpu_instruction.opcode) {
        Some(e) => e.cycles,
        None => 0,
    };
    let cycles: u8 = if taken { base + 1 } else { base };
    let kind = outcome_kind_of(mc, t.is_none());
    let outcome = format_outcome(kind, registers, byte);
    let c = cycles as u64;
    registers.cycle_count = if registers.cycle_count <= u64::MAX - c {
        registers.cycle_count + c
    } else {
        c - (u64::MAX - registers.cycle_count) - 1
    };
    Ok(LogLine {
        address: cpu_instruction.address,
        opcode: cpu_instruction.opcode,
        mnemonic: cpu_instruction.mnemonic.clone(),
        resolution,
        outcome,
        cycles,
    })
}

impl CPUInstruction {
    /// Execute the instruction on the given memory and registers.
    pub fn execute(&self, memory: &mut MemoryStack, registers: &mut Registers) -> (r: Result<LogLine, MicrocodeError>)
        requires
            old(registers).command_pointer <= usize::MAX - 3,
        ensures
            executed(self.microcode, *self, *old(registers), old(memory).contents(), *final(registers), final(memory).contents(), r),
    {
        run_microcode(self.microcode, memory, registers, self)
    }
}

/// ADC: add the operand and the carry to the accumulator, as instruction `cpu_instruction`.
pub fn adc(memory: &mut MemoryStack, registers: &mut Registers, cpu_instruction: &CPUInstruction) -> (r: Result<LogLine, MicrocodeError>)
    requires
        old(registers).command_pointer <= usize::MAX - 3,
    ensures
        executed(Microcode::Adc, *cpu_instruction, *old(registers), old(memory).contents(), *final(registers), final(memory).contents(), r),
{
    run_microcode(Microcode::Adc, memory, registers, cpu_instruction)
}

/// AND: bitwise and of the accumulator with the operand, as instruction `cpu_instruction`.
pub fn and(memory: &mut MemoryStack, registers: &mut Registers, cpu_instruction: &CPUInstruction) -> (r: Result<LogLine, MicrocodeError>)
    requires
        old(registers).command_pointer <= usize::MAX - 3,
    ensures
        executed(Microcode::And, *cpu_instruction, *old(registers), old(memory).contents(), *final(registers), final(memory).contents(), r),
{
    run_microcode(Microcode::And, memory, registers, cpu_instruction)
}

/// ASL: shift left (memory, or the accumulator), as instruction `cpu_instruction`.
pub fn asl(memory: &mut MemoryStack, registers: &mut Registers, cpu_instruction: &CPUInstruction) -> (r: Result<LogLine, MicrocodeError>)
    requires
        old(registers).command_pointer <= usize::MAX - 3,
    ensures
        executed(Microcode::Asl, *cpu_instruction, *old(registers), old(memory).contents(), *final(registers), final(memory).contents(), r),
{
    run_microcode(Microcode::Asl, memory, registers, cpu_instruction)
}

/// BBRn: branch when bit n of a zero page byte is clear, as instruction `cpu_instruction`.
pub fn bbr(memory: &mut MemoryStack, registers: &mut Registers, cpu_instruction: &CPUInstruction) -> (r: Result<LogLine, MicrocodeError>)
    requires
        old(registers).command_pointer <= usize::MAX - 3,
    ensures
        executed(Microcode::Bbr, *cpu_instruction, *old(registers), old(memory).contents(), *final(registers), final(memory).contents(), r),
{
    run_microcode(Microcode::Bbr, memory, registers, cpu_instruction)
}

/// BBSn: branch when bit n of a zero page byte is set, as instruction `cpu_instruction`.
pub fn bbs(memory: &mut MemoryStack, registers: &mut Registers, cpu_instruction: &CPUInstruction) -> (r: Result<LogLine, MicrocodeError>)
    requires
        old(registers).command_pointer <= usize::MAX - 3,
    ensures
        executed(Microcode::Bbs, *cpu_instruction, *old(registers), old(memory).contents(), *final(registers), final(memory).contents(), r),
{
    run_microcode(Microcode::Bbs, memory, registers, cpu_instruction)
}

/// BCC: branch when carry is clear, as instruction `cpu_instruction`.
pub fn bcc(memory: &mut MemoryStack, registers: &mut Registers, cpu_instruction: &CPUInstruction) -> (r: Result<LogLine, MicrocodeError>)
    requires
        old(registers).command_pointer <= usize::MAX - 3,
    ensures
        executed(Microcode::Bcc, *cpu_instruction, *old(registers), old(memory).contents(), *final(registers), final(memory).contents(), r),
{
    run_microcode(Microcode::Bcc, memory, registers, cpu_instruction)
}

/// BCS: branch when carry is set, as instruction `cpu_instruction`.
pub fn bcs(memory: &mut MemoryStack, registers: &mut Registers, cpu_instruction: &CPUInstruction) -> (r: Result<LogLine, MicrocodeError>)
    requires
        old(registers).command_pointer <= usize::MAX - 3,
    ensures
        executed(Microcode::Bcs, *cpu_instruction, *old(registers), old(memory).contents(), *final(registers), final(memory).contents(), r),
{
    run_microcode(Microcode::Bcs, memory, registers, cpu_instruction)
}

/// BEQ: branch when zero is set, as instruction `cpu_instruction`.
pub fn beq(memory: &mut MemoryStack, registers: &mut Registers, cpu_instruction: &CPUInstruction) -> (r: Result<LogLine, MicrocodeError>)
    requires
        old(registers).command_pointer <= usize::MAX - 3,
    ensures
        executed(Microcode::Beq, *cpu_instruction, *old(registers), old(memory).contents(), *final(registers), final(memory).contents(), r),
{
    run_microcode(Microcode::Beq, memory, registers, cpu_instruction)
}

/// BIT: test accumulator bits against the operand, as instruction `cpu_instruction`.
pub fn bit(memory: &mut MemoryStack, registers: &mut Registers, cpu_instruction: &CPUInstruction) -> (r: Result<LogLine, MicrocodeError>)
    requires
        old(registers).command_pointer <= usize::MAX - 3,
    ensures
        executed(Microcode::Bit, *cpu_instruction, *old(registers), old(memory).contents(), *final(registers), final(memory).contents(), r),
{
    run_microcode(Microcode::Bit, memory, registers, cpu_instruction)
}

/// BMI: branch when negative is set, as instruction `cpu_instruction`.
pub fn bmi(memory: &mut MemoryStack, registers: &mut Registers, cpu_instruction: &CPUInstruction) -> (r: Result<LogLine, MicrocodeError>)
    requires
        old(registers).command_pointer <= usize::MAX - 3,
    ensures
        executed(Microcode::Bmi, *cpu_instruction, *old(registers), old(memory).contents(), *final(registers), final(memory).contents(), r),
{
    run_microcode(Microcode::Bmi, memory, registers, cpu_instruction)
}

/// BNE: branch when zero is clear, as instruction `cpu_instruction`.
pub fn bne(memory: &mut MemoryStack, registers: &mut Registers, cpu_instruction: &CPUInstruction) -> (r: Result<LogLine, MicrocodeError>)
    requires
        old(registers).command_pointer <= usize::MAX - 3,
    ensures
        executed(Microcode::Bne, *cpu_instruction, *old(registers), old(memory).contents(), *final(registers), final(memory).contents(), r),
{
    run_microcode(Microcode::Bne, memory, registers, cpu_instruction)
}

/// BPL: branch when negative is clear, as instruction `cpu_instruction`.
pub fn bpl(memory: &mut MemoryStack, registers: &mut Registers, cpu_instruction: &CPUInstruction) -> (r: Result<LogLine, MicrocodeError>)
    requires
        old(registers).command_pointer <= usize::MAX - 3,
    ensures
        executed(Microcode::Bpl, *cpu_instruction, *old(registers), old(memory).contents(), *final(registers), final(memory).contents(), r),
{
    run_microcode(Microcode::Bpl, memory, registers, cpu_instruction)
}

/// BRA: branch always, as instruction `cpu_instruction`.
pub fn bra(memory: &mut MemoryStack, registers: &mut Registers, cpu_instruction: &CPUInstruction) -> (r: Result<LogLine, MicrocodeError>)
    requires
        old(registers).command_pointer <= usize::MAX - 3,
    ensures
        executed(Microcode::Bra, *cpu_instruction, *old(registers), old(memory).contents(), *final(registers), final(memory).contents(), r),
{
    run_microcode(Microcode::Bra, memory, registers, cpu_instruction)
}

/// BRK: software interrupt, as instruction `cpu_instruction`.
pub fn brk(memory: &mut MemoryStack, registers: &mut Registers, cpu_instruction: &CPUInstruction) -> (r: Result<LogLine, MicrocodeError>)
    requires
        old(registers).command_pointer <= usize::MAX - 3,
    ensures
        executed(Microcode::Brk, *cpu_instruction, *old(registers), old(memory).contents(), *final(registers), final(memory).contents(), r),
{
    run_microcode(Microcode::Brk, memory, registers, cpu_instruction)
}

/// BVC: branch when overflow is clear, as instruction `cpu_instruction`.
pub fn bvc(memory: &mut MemoryStack, registers: &mut Registers, cpu_instruction: &CPUInstruction) -> (r: Result<LogLine, MicrocodeError>)
    requires
        old(registers).command_pointer <= usize::MAX - 3,
    ensures
        executed(Microcode::Bvc, *cpu_instruction, *old(registers), old(memory).contents(), *final(registers), final(memory).contents(), r),
{
    run_microcode(Microcode::Bvc, memory, registers, cpu_instruction)
}

/// BVS: branch when overflow is set, as instruction `cpu_instruction`.
pub fn bvs(memory: &mut MemoryStack, registers: &mut Registers, cpu_instruction: &CPUInstruction) -> (r: Result<LogLine, MicrocodeError>)
    requires
        old(registers).command_pointer <= usize::MAX - 3,
    ensures
        executed(Microcode::Bvs, *cpu_instruction, *old(registers), old(memory).contents(), *final(registers), final(memory).contents(), r),
{
    run_microcode(Microcode::Bvs, memory, registers, cpu_instruction)
}

/// CLC: clear carry, as instruction `cpu_instruction`.
pub fn clc(memory: &mut MemoryStack, registers: &mut Registers, cpu_instruction: &CPUInstruction) -> (r: Result<LogLine, MicrocodeError>)
    requires
        old(registers).command_pointer <= usize::MAX - 3,
    ensures
        executed(Microcode::Clc, *cpu_instruction, *old(registers), old(memory).contents(), *final(registers), final(memory).contents(), r),
{
    run_microcode(Microcode::Clc, memory, registers, cpu_instruction)
}

/// CLD: clear decimal mode, as instruction `cpu_instruction`.
pub fn cld(memory: &mut MemoryStack, registers: &mut Registers, cpu_instruction: &CPUInstruction) -> (r: Result<LogLine, MicrocodeError>)
    requires
        old(registers).command_pointer <= usize::MAX - 3,
    ensures
        executed(Microcode::Cld, *cpu_instruction, *old(registers), old(memory).contents(), *final(registers), final(memory).contents(), r),
{
    run_microcode(Microcode::Cld, memory, registers, cpu_instruction)
}

/// CLI: clear interrupt disable, as instruction `cpu_instruction`.
pub fn cli(memory: &mut MemoryStack, registers: &mut Registers, cpu_instruction: &CPUInstruction) -> (r: Result<LogLine, MicrocodeError>)
    requires
        old(registers).command_pointer <= usize::MAX - 3,
    ensures
        executed(Microcode::Cli, *cpu_instruction, *old(registers), old(memory).contents(), *final(registers), final(memory).contents(), r),
{
    run_microcode(Microcode::Cli, memory, registers, cpu_instruction)
}

/// CLV: clear overflow, as instruction `cpu_instruction`.
pub fn clv(memory: &mut MemoryStack, registers: &mut Registers, cpu_instruction: &CPUInstruction) -> (r: Result<LogLine, MicrocodeError>)
    requires
        old(registers).command_pointer <= usize::MAX - 3,
    ensures
        executed(Microcode::Clv, *cpu_instruction, *old(registers), old(memory).contents(), *final(registers), final(memory).contents(), r),
{
    run_microcode(Microcode::Clv, memory, registers, cpu_instruction)
}

/// CMP: compare the accumulator with the operand, as instruction `cpu_instruction`.
pub fn cmp(memory: &mut MemoryStack, registers: &mut Registers, cpu_instruction: &CPUInstruction) -> (r: Result<LogLine, MicrocodeError>)
    requires
        old(registers).command_pointer <= usize::MAX - 3,
    ensures
        executed(Microcode::Cmp, *cpu_instruction, *old(registers), old(memory).contents(), *final(registers), final(memory).contents(), r),
{
    run_microcode(Microcode::Cmp, memory, registers, cpu_instruction)
}

/// CPX: compare X with the operand, as instruction `cpu_instruction`.
pub fn cpx(memory: &mut MemoryStack, registers: &mut Registers, cpu_instruction: &CPUInstruction) -> (r: Result<LogLine, MicrocodeError>)
    requires
        old(registers).command_pointer <= usize::MAX - 3,
    ensures
        executed(Microcode::Cpx, *cpu_instruction, *old(registers), old(memory).contents(), *final(registers), final(memory).contents(), r),
{
    run_microcode(Microcode::Cpx, memory, registers, cpu_instruction)
}

/// CPY: compare Y with the operand, as instruction `cpu_instruction`.
pub fn cpy(memory: &mut MemoryStack, registers: &mut Registers, cpu_instruction: &CPUInstruction) -> (r: Result<LogLine, MicrocodeError>)
    requires
        old(registers).command_pointer <= usize::MAX - 3,
    ensures
        executed(Microcode::Cpy, *cpu_instruction, *old(registers), old(memory).contents(), *final(registers), final(memory).contents(), r),
{
    run_microcode(Microcode::Cpy, memory, registers, cpu_instruction)
}

/// DEC: decrement (memory, or the accumulator), as instruction `cpu_instruction`.
pub fn dec(memory: &mut MemoryStack, registers: &mut Registers, cpu_instruction: &CPUInstruction) -> (r: Result<LogLine, MicrocodeError>)
    requires
        old(registers).command_pointer <= usize::MAX - 3,
    ensures
        executed(Microcode::Dec, *cpu_instruction, *old(registers), old(memory).contents(), *final(registers), final(memory).contents(), r),
{
    run_microcode(Microcode::Dec, memory, registers, cpu_instruction)
}

/// DEX: decrement X, as instruction `cpu_instruction`.
pub fn dex(memory: &mut MemoryStack, registers: &mut Registers, cpu_instruction: &CPUInstruction) -> (r: Result<LogLine, MicrocodeError>)
    requires
        old(registers).command_pointer <= usize::MAX - 3,
    ensures
        executed(Microcode::Dex, *cpu_instruction, *old(registers), old(memory).contents(), *final(registers), final(memory).contents(), r),
{
    run_microcode(Microcode::Dex, memory, registers, cpu_instruction)
}

/// DEY: decrement Y, as instruction `cpu_instruction`.
pub fn dey(memory: &mut MemoryStack, registers: &mut Registers, cpu_instruction: &CPUInstruction) -> (r: Result<LogLine, MicrocodeError>)
    requires
        old(registers).command_pointer <= usize::MAX - 3,
    ensures
        executed(Microcode::Dey, *cpu_instruction, *old(registers), old(memory).contents(), *final(registers), final(memory).contents(), r),
{
    run_microcode(Microcode::Dey, memory, registers, cpu_instruction)
}

/// EOR: exclusive or of the accumulator with the operand, as instruction `cpu_instruction`.
pub fn eor(memory: &mut MemoryStack, registers: &mut Registers, cpu_instruction: &CPUInstruction) -> (r: Result<LogLine, MicrocodeError>)
    requires
        old(registers).command_pointer <= usize::MAX - 3,
    ensures
        executed(Microcode::Eor, *cpu_instruction, *old(registers), old(memory).contents(), *final(registers), final(memory).contents(), r),
{
    run_microcode(Microcode::Eor, memory, registers, cpu_instruction)
}

/// INA: increment the accumulator, as instruction `cpu_instruction`.
pub fn ina(memory: &mut MemoryStack, registers: &mut Registers, cpu_instruction: &CPUInstruction) -> (r: Result<LogLine, MicrocodeError>)
    requires
        old(registers).command_pointer <= usize::MAX - 3,
    ensures
        executed(Microcode::Ina, *cpu_instruction, *old(registers), old(memory).contents(), *final(registers), final(memory).contents(), r),
{
    run_microcode(Microcode::Ina, memory, registers, cpu_instruction)
}

/// INC: increment (memory, or the accumulator), as instruction `cpu_instruction`.
pub fn inc(memory: &mut MemoryStack, registers: &mut Registers, cpu_instruction: &CPUInstruction) -> (r: Result<LogLine, MicrocodeError>)
    requires
        old(registers).command_pointer <= usize::MAX - 3,
    ensures
        executed(Microcode::Inc, *cpu_instruction, *old(registers), old(memory).contents(), *final(registers), final(memory).contents(), r),
{
    run_microcode(Microcode::Inc, memory, registers, cpu_instruction)
}

/// INX: increment X, as instruction `cpu_instruction`.
pub fn inx(memory: &mut MemoryStack, registers: &mut Registers, cpu_instruction: &CPUInstruction) -> (r: Result<LogLine, MicrocodeError>)
    requires
        old(registers).command_pointer <= usize::MAX - 3,
    ensures
        executed(Microcode::Inx, *cpu_instruction, *old(registers), old(memory).contents(), *final(registers), final(memory).contents(), r),
{
    run_microcode(Microcode::Inx, memory, registers, cpu_instruction)
}

/// INY: increment Y, as instruction `cpu_instruction`.
pub fn iny(memory: &mut MemoryStack, registers: &mut Registers, cpu_instruction: &CPUInstruction) -> (r: Result<LogLine, MicrocodeError>)
    requires
        old(registers).command_pointer <= usize::MAX - 3,
    ensures
        executed(Microcode::Iny, *cpu_instruction, *old(registers), old(memory).contents(), *final(registers), final(memory).contents(), r),
{
    run_microcode(Microcode::Iny, memory, registers, cpu_instruction)
}

/// JMP: jump, as instruction `cpu_instruction`.
pub fn jmp(memory: &mut MemoryStack, registers: &mut Registers, cpu_instruction: &CPUInstruction) -> (r: Result<LogLine, MicrocodeError>)
    requires
        old(registers).command_pointer <= usize::MAX - 3,
    ensures
        executed(Microcode::Jmp, *cpu_instruction, *old(registers), old(memory).contents(), *final(registers), final(memory).contents(), r),
{
    run_microcode(Microcode::Jmp, memory, registers, cpu_instruction)
}

/// JSR: jump to subroutine, as instruction `cpu_instruction`.
pub fn jsr(memory: &mut MemoryStack, registers: &mut Registers, cpu_instruction: &CPUInstruction) -> (r: Result<LogLine, MicrocodeError>)
    requires
        old(registers).command_pointer <= usize::MAX - 3,
    ensures
        executed(Microcode::Jsr, *cpu_instruction, *old(registers), old(memory).contents(), *final(registers), final(memory).contents(), r),
{
    run_microcode(Microcode::Jsr, memory, registers, cpu_instruction)
}

/// LDA: load the accumulator, as instruction `cpu_instruction`.
pub fn lda(memory: &mut MemoryStack, registers: &mut Registers, cpu_instruction: &CPUInstruction) -> (r: Result<LogLine, MicrocodeError>)
    requires
        old(registers).command_pointer <= usize::MAX - 3,
    ensures
        executed(Microcode::Lda, *cpu_instruction, *old(registers), old(memory).contents(), *final(registers), final(memory).contents(), r),
{
    run_microcode(Microcode::Lda, memory, registers, cpu_instruction)
}

/// LDX: load X, as instruction `cpu_instruction`.
pub fn ldx(memory: &mut MemoryStack, registers: &mut Registers, cpu_instruction: &CPUInstruction) -> (r: Result<LogLine, MicrocodeError>)
    requires
        old(registers).command_pointer <= usize::MAX - 3,
    ensures
        executed(Microcode::Ldx, *cpu_instruction, *old(registers), old(memory).contents(), *final(registers), final(memory).contents(), r),
{
    run_microcode(Microcode::Ldx, memory, registers, cpu_instruction)
}

/// LDY: load Y, as instruction `cpu_instruction`.
pub fn ldy(memory: &mut MemoryStack, registers: &mut Registers, cpu_instruction: &CPUInstruction) -> (r: Result<LogLine, MicrocodeError>)
    requires
        old(registers).command_pointer <= usize::MAX - 3,
    ensures
        executed(Microcode::Ldy, *cpu_instruction, *old(registers), old(memory).contents(), *final(registers), final(memory).contents(), r),
{
    run_microcode(Microcode::Ldy, memory, registers, cpu_instruction)
}

/// LSR: shift right (memory, or the accumulator), as instruction `cpu_instruction`.
pub fn lsr(memory: &mut MemoryStack, registers: &mut Registers, cpu_instruction: &CPUInstruction) -> (r: Result<LogLine, MicrocodeError>)
    requires
        old(registers).command_pointer <= usize::MAX - 3,
    ensures
        executed(Microcode::Lsr, *cpu_instruction, *old(registers), old(memory).contents(), *final(registers), final(memory).contents(), r),
{
    run_microcode(Microcode::Lsr, memory, registers, cpu_instruction)
}

/// NOP: no operation, as instruction `cpu_instruction`.
pub fn nop(memory: &mut MemoryStack, registers: &mut Registers, cpu_instruction: &CPUInstruction) -> (r: Result<LogLine, MicrocodeError>)
    requires
        old(registers).command_pointer <= usize::MAX - 3,
    ensures
        executed(Microcode::Nop, *cpu_instruction, *old(registers), old(memory).contents(), *final(registers), final(memory).contents(), r),
{
    run_microcode(Microcode::Nop, memory, registers, cpu_instruction)
}

/// ORA: bitwise or of the accumulator with the operand, as instruction `cpu_instruction`.
pub fn ora(memory: &mut MemoryStack, registers: &mut Registers, cpu_instruction: &CPUInstruction) -> (r: Result<LogLine, MicrocodeError>)
    requires
        old(registers).command_pointer <= usize::MAX - 3,
    ensures
        executed(Microcode::Ora, *cpu_instruction, *old(registers), old(memory).contents(), *final(registers), final(memory).contents(), r),
{
    run_microcode(Microcode::Ora, memory, registers, cpu_instruction)
}

/// PHA: push the accumulator, as instruction `cpu_instruction`.
pub fn pha(memory: &mut MemoryStack, registers: &mut Registers, cpu_instruction: &CPUInstruction) -> (r: Result<LogLine, MicrocodeError>)
    requires
        old(registers).command_pointer <= usize::MAX - 3,
    ensures
        executed(Microcode::Pha, *cpu_instruction, *old(registers), old(memory).contents(), *final(registers), final(memory).contents(), r),
{
    run_microcode(Microcode::Pha, memory, registers, cpu_instruction)
}

/// PHP: push the status register, as instruction `cpu_instruction`.
pub fn php(memory: &mut MemoryStack, registers: &mut Registers, cpu_instruction: &CPUInstruction) -> (r: Result<LogLine, MicrocodeError>)
    requires
        old(registers).command_pointer <= usize::MAX - 3,
    ensures
        executed(Microcode::Php, *cpu_instruction, *old(registers), old(memory).contents(), *final(registers), final(memory).contents(), r),
{
    run_microcode(Microcode::Php, memory, registers, cpu_instruction)
}

/// PHX: push X, as instruction `cpu_instruction`.
pub fn phx(memory: &mut MemoryStack, registers: &mut Registers, cpu_instruction: &CPUInstruction) -> (r: Result<LogLine, MicrocodeError>)
    requires
        old(registers).command_pointer <= usize::MAX - 3,
    ensures
        executed(Microcode::Phx, *cpu_instruction, *old(registers), old(memory).contents(), *final(registers), final(memory).contents(), r),
{
    run_microcode(Microcode::Phx, memory, registers, cpu_instruction)
}

/// PHY: push Y, as instruction `cpu_instruction`.
pub fn phy(memory: &mut MemoryStack, registers: &mut Registers, cpu_instruction: &CPUInstruction) -> (r: Result<LogLine, MicrocodeError>)
    requires
        old(registers).command_pointer <= usize::MAX - 3,
    ensures
        executed(Microcode::Phy, *cpu_instruction, *old(registers), old(memory).contents(), *final(registers), final(memory).contents(), r),
{
    run_microcode(Microcode::Phy, memory, registers, cpu_instruction)
}

/// PLA: pull the accumulator, as instruction `cpu_instruction`.
pub fn pla(memory: &mut MemoryStack, registers: &mut Registers, cpu_instruction: &CPUInstruction) -> (r: Result<LogLine, MicrocodeError>)
    requires
        old(registers).command_pointer <= usize::MAX - 3,
    ensures
        executed(Microcode::Pla, *cpu_instruction, *old(registers), old(memory).contents(), *final(registers), final(memory).contents(), r),
{
    run_microcode(Microcode::Pla, memory, registers, cpu_instruction)
}

/// PLP: pull the status register, as instruction `cpu_instruction`.
pub fn plp(memory: &mut MemoryStack, registers: &mut Registers, cpu_instruction: &CPUInstruction) -> (r: Result<LogLine, MicrocodeError>)
    requires
        old(registers).command_pointer <= usize::MAX - 3,
    ensures
        executed(Microcode::Plp, *cpu_instruction, *old(registers), old(memory).contents(), *final(registers), final(memory).contents(), r),
{
    run_microcode(Microcode::Plp, memory, registers, cpu_instruction)
}

/// PLX: pull X, as instruction `cpu_instruction`.
pub fn plx(memory: &mut MemoryStack, registers: &mut Registers, cpu_instruction: &CPUInstruction) -> (r: Result<LogLine, MicrocodeError>)
    requires
        old(registers).command_pointer <= usize::MAX - 3,
    ensures
        executed(Microcode::Plx, *cpu_instruction, *old(registers), old(memory).contents(), *final(registers), final(memory).contents(), r),
{
    run_microcode(Microcode::Plx, memory, registers, cpu_instruction)
}

/// PLY: pull Y, as instruction `cpu_instruction`.
pub fn ply(memory: &mut MemoryStack, registers: &mut Registers, cpu_instruction: &CPUInstruction) -> (r: Result<LogLine, MicrocodeError>)
    requires
        old(registers).command_pointer <= usize::MAX - 3,
    ensures
        executed(Microcode::Ply, *cpu_instruction, *old(registers), old(memory).contents(), *final(registers), final(memory).contents(), r),
{
    run_microcode(Microcode::Ply, memory, registers, cpu_instruction)
}

/// RMBn: clear bit n of a zero page byte, as instruction `cpu_instruction`.
pub fn rmb(memory: &mut MemoryStack, registers: &mut Registers, cpu_instruction: &CPUInstruction) -> (r: Result<LogLine, MicrocodeError>)
    requires
        old(registers).command_pointer <= usize::MAX - 3,
    ensures
        executed(Microcode::Rmb, *cpu_instruction, *old(registers), old(memory).contents(), *final(registers), final(memory).contents(), r),
{
    run_microcode(Microcode::Rmb, memory, registers, cpu_instruction)
}

/// ROL: rotate left through carry, as instruction `cpu_instruction`.
pub fn rol(memory: &mut MemoryStack, registers: &mut Registers, cpu_instruction: &CPUInstruction) -> (r: Result<LogLine, MicrocodeError>)
    requires
        old(registers).command_pointer <= usize::MAX - 3,
    ensures
        executed(Microcode::Rol, *cpu_instruction, *old(registers), old(memory).contents(), *final(registers), final(memory).contents(), r),
{
    run_microcode(Microcode::Rol, memory, registers, cpu_instruction)
}

/// ROR: rotate right through carry, as instruction `cpu_instruction`.
pub fn ror(memory: &mut MemoryStack, registers: &mut Registers, cpu_instruction: &CPUInstruction) -> (r: Result<LogLine, MicrocodeError>)
    requires
        old(registers).command_pointer <= usize::MAX - 3,
    ensures
        executed(Microcode::Ror, *cpu_instruction, *old(registers), old(memory).contents(), *final(registers), final(memory).contents(), r),
{
    run_microcode(Microcode::Ror, memory, registers, cpu_instruction)
}

/// RTI: return from interrupt, as instruction `cpu_instruction`.
pub fn rti(memory: &mut MemoryStack, registers: &mut Registers, cpu_instruction: &CPUInstruction) -> (r: Result<LogLine, MicrocodeError>)
    requires
        old(registers).command_pointer <= usize::MAX - 3,
    ensures
        executed(Microcode::Rti, *cpu_instruction, *old(registers), old(memory).contents(), *final(registers), final(memory).contents(), r),
{
    run_microcode(Microcode::Rti, memory, registers, cpu_instruction)
}

/// RTS: return from subroutine, as instruction `cpu_instruction`.
pub fn rts(memory: &mut MemoryStack, registers: &mut Registers, cpu_instruction: &CPUInstruction) -> (r: Result<LogLine, MicrocodeError>)
    requires
        old(registers).command_pointer <= usize::MAX - 3,
    ensures
        executed(Microcode::Rts, *cpu_instruction, *old(registers), old(memory).contents(), *final(registers), final(memory).contents(), r),
{
    run_microcode(Microcode::Rts, memory, registers, cpu_instruction)
}

/// SBC: subtract the operand and the borrow from the accumulator, as instruction `cpu_instruction`.
pub fn sbc(memory: &mut MemoryStack, registers: &mut Registers, cpu_instruction: &CPUInstruction) -> (r: Result<LogLine, MicrocodeError>)
    requires
        old(registers).command_pointer <= usize::MAX - 3,
    ensures
        executed(Microcode::Sbc, *cpu_instruction, *old(registers), old(memory).contents(), *final(registers), final(memory).contents(), r),
{
    run_microcode(Microcode::Sbc, memory, registers, cpu_instruction)
}

/// SEC: set carry, as instruction `cpu_instruction`.
pub fn sec(memory: &mut MemoryStack, registers: &mut Registers, cpu_instruction: &CPUInstruction) -> (r: Result<LogLine, MicrocodeError>)
    requires
        old(registers).command_pointer <= usize::MAX - 3,
    ensures
        executed(Microcode::Sec, *cpu_instruction, *old(registers), old(memory).contents(), *final(registers), final(memory).contents(), r),
{
    run_microcode(Microcode::Sec, memory, registers, cpu_instruction)
}

/// SED: set decimal mode, as instruction `cpu_instruction`.
pub fn sed(memory: &mut MemoryStack, registers: &mut Registers, cpu_instruction: &CPUInstruction) -> (r: Result<LogLine, MicrocodeError>)
    requires
        old(registers).command_pointer <= usize::MAX - 3,
    ensures
        executed(Microcode::Sed, *cpu_instruction, *old(registers), old(memory).contents(), *final(registers), final(memory).contents(), r),
{
    run_microcode(Microcode::Sed, memory, registers, cpu_instruction)
}

/// SEI: set interrupt disable, as instruction `cpu_instruction`.
pub fn sei(memory: &mut MemoryStack, registers: &mut Registers, cpu_instruction: &CPUInstruction) -> (r: Result<LogLine, MicrocodeError>)
    requires
        old(registers).command_pointer <= usize::MAX - 3,
    ensures
        executed(Microcode::Sei, *cpu_instruction, *old(registers), old(memory).contents(), *final(registers), final(memory).contents(), r),
{
    run_microcode(Microcode::Sei, memory, registers, cpu_instruction)
}

/// SMBn: set bit n of a zero page byte, as instruction `cpu_instruction`.
pub fn smb(memory: &mut MemoryStack, registers: &mut Registers, cpu_instruction: &CPUInstruction) -> (r: Result<LogLine, MicrocodeError>)
    requires
        old(registers).command_pointer <= usize::MAX - 3,
    ensures
        executed(Microcode::Smb, *cpu_instruction, *old(registers), old(memory).contents(), *final(registers), final(memory).contents(), r),
{
    run_microcode(Microcode::Smb, memory, registers, cpu_instruction)
}

/// STA: store the accumulator, as instruction `cpu_instruction`.
pub fn sta(memory: &mut MemoryStack, registers: &mut Registers, cpu_instruction: &CPUInstruction) -> (r: Result<LogLine, MicrocodeError>)
    requires
        old(registers).command_pointer <= usize::MAX - 3,
    ensures
        executed(Microcode::Sta, *cpu_instruction, *old(registers), old(memory).contents(), *final(registers), final(memory).contents(), r),
{
    run_microcode(Microcode::Sta, memory, registers, cpu_instruction)
}

/// STP: stop the processor (the command pointer stays), as instruction `cpu_instruction`.
pub fn stp(memory: &mut MemoryStack, registers: &mut Registers, cpu_instruction: &CPUInstruction) -> (r: Result<LogLine, MicrocodeError>)
    requires
        old(registers).command_pointer <= usize::MAX - 3,
    ensures
        executed(Microcode::Stp, *cpu_instruction, *old(registers), old(memory).contents(), *final(registers), final(memory).contents(), r),
{
    run_microcode(Microcode::Stp, memory, registers, cpu_instruction)
}

/// STX: store X, as instruction `cpu_instruction`.
pub fn stx(memory: &mut MemoryStack, registers: &mut Registers, cpu_instruction: &CPUInstruction) -> (r: Result<LogLine, MicrocodeError>)
    requires
        old(registers).command_pointer <= usize::MAX - 3,
    ensures
        executed(Microcode::Stx, *cpu_instruction, *old(registers), old(memory).contents(), *final(registers), final(memory).contents(), r),
{
    run_microcode(Microcode::Stx, memory, registers, cpu_instruction)
}

/// STY: store Y, as instruction `cpu_instruction`.
pub fn sty(memory: &mut MemoryStack, registers: &mut Registers, cpu_instruction: &CPUInstruction) -> (r: Result<LogLine, MicrocodeError>)
    requires
        old(registers).command_pointer <= usize::MAX - 3,
    ensures
        executed(Microcode::Sty, *cpu_instruction, *old(registers), old(memory).contents(), *final(registers), final(memory).contents(), r),
{
    run_microcode(Microcode::Sty, memory, registers, cpu_instruction)
}

/// STZ: store zero, as instruction `cpu_instruction`.
pub fn stz(memory: &mut MemoryStack, registers: &mut Registers, cpu_instruction: &CPUInstruction) -> (r: Result<LogLine, MicrocodeError>)
    requires
        old(registers).command_pointer <= usize::MAX - 3,
    ensures
        executed(Microcode::Stz, *cpu_instruction, *old(registers), old(memory).contents(), *final(registers), final(memory).contents(), r),
{
    run_microcode(Microcode::Stz, memory, registers, cpu_instruction)
}

/// TAX: copy the accumulator to X, as instruction `cpu_instruction`.
pub fn tax(memory: &mut MemoryStack, registers: &mut Registers, cpu_instruction: &CPUInstruction) -> (r: Result<LogLine, MicrocodeError>)
    requires
        old(registers).command_pointer <= usize::MAX - 3,
    ensures
        executed(Microcode::Tax, *cpu_instruction, *old(registers), old(memory).contents(), *final(registers), final(memory).contents(), r),
{
    run_microcode(Microcode::Tax, memory, registers, cpu_instruction)
}

/// TAY: copy the accumulator to Y, as instruction `cpu_instruction`.
pub fn tay(memory: &mut MemoryStack, registers: &mut Registers, cpu_instruction: &CPUInstruction) -> (r: Result<LogLine, MicrocodeError>)
    requires
        old(registers).command_pointer <= usize::MAX - 3,
    ensures
        executed(Microcode::Tay, *cpu_instruction, *old(registers), old(memory).contents(), *final(registers), final(memory).contents(), r),
{
    run_microcode(Microcode::Tay, memory, registers, cpu_instruction)
}

/// TRB: test and reset bits, as instruction `cpu_instruction`.
pub fn trb(memory: &mut MemoryStack, registers: &mut Registers, cpu_instruction: &CPUInstruction) -> (r: Result<LogLine, MicrocodeError>)
    requires
        old(registers).command_pointer <= usize::MAX - 3,
    ensures
        executed(Microcode::Trb, *cpu_instruction, *old(registers), old(memory).contents(), *final(registers), final(memory).contents(), r),
{
    run_microcode(Microcode::Trb, memory, registers, cpu_instruction)
}

/// TSB: test and set bits, as instruction `cpu_instruction`.
pub fn tsb(memory: &mut MemoryStack, registers: &mut Registers, cpu_instruction: &CPUInstruction) -> (r: Result<LogLine, MicrocodeError>)
    requires
        old(registers).command_pointer <= usize::MAX - 3,
    ensures
        executed(Microcode::Tsb, *cpu_instruction, *old(registers), old(memory).contents(), *final(registers), final(memory).contents(), r),
{
    run_microcode(Microcode::Tsb, memory, registers, cpu_instruction)
}

/// TSX: copy the stack pointer to X, as instruction `cpu_instruction`.
pub fn tsx(memory: &mut MemoryStack, registers: &mut Registers, cpu_instruction: &CPUInstruction) -> (r: Result<LogLine, MicrocodeError>)
    requires
        old(registers).command_pointer <= usize::MAX - 3,
    ensures
        executed(Microcode::Tsx, *cpu_instruction, *old(registers), old(memory).contents(), *final(registers), final(memory).contents(), r),
{
    run_microcode(Microcode::Tsx, memory, registers, cpu_instruction)
}

/// TXA: copy X to the accumulator, as instruction `cpu_instruction`.
pub fn txa(memory: &mut MemoryStack, registers: &mut Registers, cpu_instruction: &CPUInstruction) -> (r: Result<LogLine, MicrocodeError>)
    requires
        old(registers).command_pointer <= usize::MAX - 3,
    ensures
        executed(Microcode::Txa, *cpu_instruction, *old(registers), old(memory).contents(), *final(registers), final(memory).contents(), r),
{
    run_microcode(Microcode::Txa, memory, registers, cpu_instruction)
}

/// TXS: copy X to the stack pointer, as instruction `cpu_instruction`.
pub fn txs(memory: &mut MemoryStack, registers: &mut Registers, cpu_instruction: &CPUInstruction) -> (r: Result<LogLine, MicrocodeError>)
    requires
        old(registers).command_pointer <= usize::MAX - 3,
    ensures
        executed(Microcode::Txs, *cpu_instruction, *old(registers), old(memory).contents(), *final(registers), final(memory).contents(), r),
{
    run_microcode(Microcode::Txs, memory, registers, cpu_instruction)
}

/// TYA: copy Y to the accumulator, as instruction `cpu_instruction`.
pub fn tya(memory: &mut MemoryStack, registers: &mut Registers, cpu_instruction: &CPUInstruction) -> (r: Result<LogLine, MicrocodeError>)
    requires
        old(registers).command_pointer <= usize::MAX - 3,
    ensures
        executed(Microcode::Tya, *cpu_instruction, *old(registers), old(memory).contents(), *final(registers), final(memory).contents(), r),
{
    run_microcode(Microcode::Tya, memory, registers, cpu_instruction)
}

} // verus!
