use crate::addressing_mode::{mode_text, operands, AddressingMode, AddressingModeResolution, ResolutionError};
use crate::memory::{MemoryError, MemoryStack};
use crate::registers::{status_text, Registers};
use crate::text::{dec_repr, hex2, hex4, pad_right, push_dec, push_hex2, push_hex4, push_padded, push_str};
use vstd::prelude::*;

verus! {

/// Address of the reset vector.
pub const INIT_VECTOR_ADDR: usize = 0xfffc;

/// Address of the interrupt (IRQ/BRK) vector.
pub const INTERRUPT_VECTOR_ADDR: usize = 0xfffe;

/// The operation an instruction performs, independently of its addressing mode.
#[derive(Debug, Clone, Copy, PartialEq, Eq)]
pub enum Microcode {
    Adc,
    And,
    Asl,
    Bbr,
    Bbs,
    Bcc,
    Bcs,
    Beq,
    Bit,
    Bmi,
    Bne,
    Bpl,
    Bra,
    Brk,
    Bvc,
    Bvs,
    Clc,
    Cld,
    Cli,
    Clv,
    Cmp,
    Cpx,
    Cpy,
    Dec,
    Dex,
    Dey,
    Eor,
    Ina,
    Inc,
    Inx,
    Iny,
    Jmp,
    Jsr,
    Lda,
    Ldx,
    Ldy,
    Lsr,
    Nop,
    Ora,
    Pha,
    Php,
    Phx,
    Phy,
    Pla,
    Plp,
    Plx,
    Ply,
    Rmb,
    Rol,
    Ror,
    Rti,
    Rts,
    Sbc,
    Sec,
    Sed,
    Sei,
    Smb,
    Sta,
    Stp,
    Stx,
    Sty,
    Stz,
    Tax,
    Tay,
    Trb,
    Tsb,
    Tsx,
    Txa,
    Txs,
    Tya,
}

/// Failure while executing an instruction.
#[derive(Debug, Clone, Copy, PartialEq, Eq)]
pub enum MicrocodeError {
    /// A memory access went past the end of memory.
    MemoryOverflow(MemoryError),
    /// The addressing mode could not be resolved.
    Resolution(ResolutionError),
    /// The instruction has no address to work on (its addressing mode gives
    /// none, or a branch destination leaves the address range).
    Runtime,
}

/// A decoded instruction: where it is, its opcode, its mnemonic, its
/// addressing mode (with the operand bytes) and the operation it performs.
pub struct CPUInstruction {
    pub address: usize,
    pub opcode: u8,
    pub mnemonic: String,
    pub addressing_mode: AddressingMode,
    pub microcode: Microcode,
}

/// What the trace of an executed instruction shows after the operand.
#[derive(Debug, Clone, Copy, PartialEq, Eq)]
pub enum OutcomeKind {
    Nothing,
    Status,
    Acc,
    RegX,
    RegY,
    ByteAcc,
    ByteX,
    ByteY,
    Byte,
    ByteStatus,
    Sp,
    SpStatus,
    AccSp,
    RegXSp,
    RegYSp,
    Cp,
    CpSp,
    CpSpStatus,
}

/// The trace of one executed instruction.
#[derive(Debug)]
pub struct LogLine {
    pub address: usize,
    pub opcode: u8,
    pub mnemonic: String,
    pub resolution: AddressingModeResolution,
    pub outcome: String,
    pub cycles: u8,
}

/// `[S=NV-BDIZC]`
pub open spec fn status_part(r: Registers) -> Seq<char> {
    "[S="@ + status_text(r.status_register) + "]"@
}

/// `[SP=0x..]`
pub open spec fn sp_part(r: Registers) -> Seq<char> {
    "[SP=0x"@ + hex2(r.stack_pointer) + "]"@
}

/// `(0x..)`
pub open spec fn byte_part(b: u8) -> Seq<char> {
    "(0x"@ + hex2(b) + ")"@
}

/// `[A=0x..]`
pub open spec fn acc_part(r: Registers) -> Seq<char> {
    "[A=0x"@ + hex2(r.accumulator) + "]"@
}

/// `[X=0x..]`
pub open spec fn x_part(r: Registers) -> Seq<char> {
    "[X=0x"@ + hex2(r.register_x) + "]"@
}

/// `[Y=0x..]`
pub open spec fn y_part(r: Registers) -> Seq<char> {
    "[Y=0x"@ + hex2(r.register_y) + "]"@
}

/// `[CP=0x....]`
pub open spec fn cp_part(r: Registers) -> Seq<char> {
    "[CP=0x"@ + hex4(r.command_pointer as nat) + "]"@
}

/// The outcome shown in a trace line, from the registers after execution
/// and the byte the instruction read or wrote.
pub open spec fn outcome_text(kind: OutcomeKind, r: Registers, b: u8) -> Seq<char> {
    match kind {
        OutcomeKind::Nothing => seq![],
        OutcomeKind::Status => status_part(r),
        OutcomeKind::Acc => acc_part(r) + status_part(r),
        OutcomeKind::RegX => x_part(r) + status_part(r),
        OutcomeKind::RegY => y_part(r) + status_part(r),
        OutcomeKind::ByteAcc => byte_part(b) + acc_part(r) + status_part(r),
        OutcomeKind::ByteX => byte_part(b) + x_part(r) + status_part(r),
        OutcomeKind::ByteY => byte_part(b) + y_part(r) + status_part(r),
        OutcomeKind::Byte => byte_part(b),
        OutcomeKind::ByteStatus => byte_part(b) + status_part(r),
        OutcomeKind::Sp => sp_part(r),
        OutcomeKind::SpStatus => sp_part(r) + status_part(r),
        OutcomeKind::AccSp => acc_part(r) + sp_part(r) + status_part(r),
        OutcomeKind::RegXSp => x_part(r) + sp_part(r) + status_part(r),
        OutcomeKind::RegYSp => y_part(r) + sp_part(r) + status_part(r),
        OutcomeKind::Cp => cp_part(r),
        OutcomeKind::CpSp => cp_part(r) + sp_part(r),
        OutcomeKind::CpSpStatus => cp_part(r) + sp_part(r) + status_part(r),
    }
}

/// Which outcome the trace of a microcode shows (read-modify-write
/// operations show the accumulator when they work on it).
pub open spec fn outcome_kind(mc: Microcode, on_accumulator: bool) -> OutcomeKind {
    match mc {
        Microcode::Lda | Microcode::Txa | Microcode::Tya | Microcode::Ina => OutcomeKind::Acc,
        Microcode::And | Microcode::Ora | Microcode::Eor | Microcode::Adc | Microcode::Sbc
        | Microcode::Cmp => OutcomeKind::ByteAcc,
        Microcode::Cpx => OutcomeKind::ByteX,
        Microcode::Cpy => OutcomeKind::ByteY,
        Microcode::Ldx | Microcode::Tax | Microcode::Inx | Microcode::Dex | Microcode::Tsx => OutcomeKind::RegX,
        Microcode::Ldy | Microcode::Tay | Microcode::Iny | Microcode::Dey => OutcomeKind::RegY,
        Microcode::Pla => OutcomeKind::AccSp,
        Microcode::Plx => OutcomeKind::RegXSp,
        Microcode::Ply => OutcomeKind::RegYSp,
        Microcode::Plp | Microcode::Txs => OutcomeKind::SpStatus,
        Microcode::Pha | Microcode::Php | Microcode::Phx | Microcode::Phy => OutcomeKind::Sp,
        Microcode::Sta | Microcode::Stx | Microcode::Sty | Microcode::Stz | Microcode::Rmb
        | Microcode::Smb => OutcomeKind::Byte,
        Microcode::Inc | Microcode::Dec | Microcode::Asl | Microcode::Lsr | Microcode::Rol
        | Microcode::Ror => if on_accumulator {
            OutcomeKind::Acc
        } else {
            OutcomeKind::ByteStatus
        },
        Microcode::Trb | Microcode::Tsb => OutcomeKind::ByteStatus,
        Microcode::Bit | Microcode::Clc | Microcode::Cld | Microcode::Cli | Microcode::Clv
        | Microcode::Sec | Microcode::Sed | Microcode::Sei | Microcode::Stp => OutcomeKind::Status,
        Microcode::Bcc | Microcode::Bcs | Microcode::Beq | Microcode::Bmi | Microcode::Bne
        | Microcode::Bpl | Microcode::Bra | Microcode::Bvc | Microcode::Bvs | Microcode::Bbr
        | Microcode::Bbs | Microcode::Jmp | Microcode::Rts => OutcomeKind::Cp,
        Microcode::Jsr => OutcomeKind::CpSp,
        Microcode::Brk | Microcode::Rti => OutcomeKind::CpSpStatus,
        Microcode::Nop => OutcomeKind::Nothing,
    }
}

/// The opcode and operand bytes as shown in a trace: `(a9 c0)`.
pub open spec fn bytes_text(opcode: u8, ops: Seq<u8>) -> Seq<char>
    decreases ops.len(),
{
    if ops.len() == 0 {
        "("@ + hex2(opcode)
    } else {
        bytes_text(opcode, ops.drop_last()) + " "@ + hex2(ops.last())
    }
}

/// Whether a trace shows the resolved address after the operand.
pub open spec fn shows_target(mode: AddressingMode) -> bool {
    match mode {
        AddressingMode::Implied | AddressingMode::Accumulator | AddressingMode::Relative(_, _)
        | AddressingMode::ZeroPageRelative(_, _) => false,
        _ => true,
    }
}

/// The operand column of a trace: the operand, then the resolved address.
pub open spec fn resolution_text(mode: AddressingMode, target: Option<usize>) -> Seq<char> {
    match target {
        Some(t) => if shows_target(mode) {
            pad_right(mode_text(mode), 9) + "(#0x"@ + hex4(t as nat) + ")"@
        } else {
            mode_text(mode)
        },
        None => mode_text(mode),
    }
}

/// A full trace line:
/// `#0x0800: (a9 c0)       LDA  #$c0     (#0x0801)  [A=0xc0][S=Nv-Bdizc][2]`.
pub open spec fn log_line_text(
    address: usize,
    opcode: u8,
    ops: Seq<u8>,
    mnemonic: Seq<char>,
    mode: AddressingMode,
    target: Option<usize>,
    outcome: Seq<char>,
    cycles: u8,
) -> Seq<char> {
    "#0x"@ + hex4(address as nat) + ": "@ + pad_right(bytes_text(opcode, ops) + ")"@, 14)
        + pad_right(mnemonic, 4) + " "@ + pad_right(resolution_text(mode, target), 20) + outcome
        + "["@ + dec_repr(cycles as nat) + "]"@
}

/// Appends the opcode and operand bytes as shown in a trace.
pub fn push_bytes(s: &mut String, opcode: u8, ops: &Vec<u8>)
    ensures
        final(s)@ == old(s)@ + bytes_text(opcode, ops@) + ")"@,
{
    let ghost start = s@;
    push_str(s, "(");
    push_hex2(s, opcode);
    let mut i: usize = 0;
    while i < ops.len()
        invariant
            i <= ops@.len(),
            s@ == start + bytes_text(opcode, ops@.subrange(0, i as int)),
        decreases ops@.len() - i,
    {
        push_str(s, " ");
        push_hex2(s, ops[i]);
        i = i + 1;
        assert(ops@.subrange(0, i as int).drop_last() =~= ops@.subrange(0, i - 1));
    }
    assert(ops@.subrange(0, ops@.len() as int) =~= ops@);
    push_str(s, ")");
}

/// The operand column of a trace.
fn resolution_string(mode: AddressingMode, target: Option<usize>) -> (s: String)
    ensures
        s@ == resolution_text(mode, target),
{
    let text = mode.to_string();
    match target {
        Some(t) => {
            let shown = match mode {
                AddressingMode::Implied | AddressingMode::Accumulator | AddressingMode::Relative(
                    _,
                    _,
                ) | AddressingMode::ZeroPageRelative(_, _) => false,
                _ => true,
            };
            if shown {
                let mut s = String::new();
                push_padded(&mut s, &text, 9);
                push_str(&mut s, "(#0x");
                push_hex4(&mut s, t);
                push_str(&mut s, ")");
                assert(s@ =~= resolution_text(mode, target));
                s
            } else {
                text
            }
        },
        None => text,
    }
}

/// The outcome shown in a trace line.
#[verifier::rlimit(50)]
pub fn format_outcome(kind: OutcomeKind, r: &Registers, b: u8) -> (s: String)
    ensures
        s@ == outcome_text(kind, *r, b),
{
    let mut s = String::new();
    let ghost e = s@;
    let with_byte = match kind {
        OutcomeKind::ByteAcc | OutcomeKind::ByteX | OutcomeKind::ByteY | OutcomeKind::Byte
        | OutcomeKind::ByteStatus => true,
        _ => false,
    };
    if with_byte {
        push_str(&mut s, "(0x");
        push_hex2(&mut s, b);
        push_str(&mut s, ")");
    }
    let ghost after_byte = s@;
    match kind {
        OutcomeKind::Cp | OutcomeKind::CpSp | OutcomeKind::CpSpStatus => {
            push_str(&mut s, "[CP=0x");
            push_hex4(&mut s, r.command_pointer);
            push_str(&mut s, "]");
        },
        _ => {},
    }
    match kind {
        OutcomeKind::Acc | OutcomeKind::ByteAcc | OutcomeKind::AccSp => {
            push_str(&mut s, "[A=0x");
            push_hex2(&mut s, r.accumulator);
            push_str(&mut s, "]");
        },
        OutcomeKind::RegX | OutcomeKind::ByteX | OutcomeKind::RegXSp => {
            push_str(&mut s, "[X=0x");
            push_hex2(&mut s, r.register_x);
            push_str(&mut s, "]");
        },
        OutcomeKind::RegY | OutcomeKind::ByteY | OutcomeKind::RegYSp => {
            push_str(&mut s, "[Y=0x");
            push_hex2(&mut s, r.register_y);
            push_str(&mut s, "]");
        },
        _ => {},
    }
    match kind {
        OutcomeKind::Sp | OutcomeKind::SpStatus | OutcomeKind::AccSp | OutcomeKind::RegXSp
        | OutcomeKind::RegYSp | OutcomeKind::CpSp | OutcomeKind::CpSpStatus => {
            push_str(&mut s, "[SP=0x");
            push_hex2(&mut s, r.stack_pointer);
            push_str(&mut s, "]");
        },
        _ => {},
    }
    match kind {
        OutcomeKind::Nothing | OutcomeKind::Byte | OutcomeKind::Sp | OutcomeKind::Cp
        | OutcomeKind::CpSp => {},
        _ => {
            push_str(&mut s, "[S=");
            let st = r.format_status();
            push_str(&mut s, st.as_str());
            push_str(&mut s, "]");
        },
    }
    assert(s@ =~= outcome_text(kind, *r, b));
    s
}

impl CPUInstruction {
    /// An instruction at `address` with the given opcode, mnemonic,
    /// addressing mode and operation.
    pub fn new(
        address: usize,
        opcode: u8,
        mnemonic: &str,
        addressing_mode: AddressingMode,
        microcode: Microcode,
    ) -> (i: CPUInstruction)
        ensures
            i.address == address,
            i.opcode == opcode,
            i.mnemonic@ == mnemonic@,
            i.addressing_mode == addressing_mode,
            i.microcode == microcode,
    {
        CPUInstruction {
            address,
            opcode,
            mnemonic: mnemonic.to_owned(),
            addressing_mode,
            microcode,
        }
    }
}

impl LogLine {
    /// The trace line, as shown when a program runs.
    pub fn to_string(&self) -> (s: String)
        ensures
            s@ == log_line_text(
                self.address,
                self.opcode,
                self.resolution.operands@,
                self.mnemonic@,
                self.resolution.addressing_mode,
                self.resolution.target_address,
                self.outcome@,
                self.cycles,
            ),
    {
        let mut s = String::new();
        let ghost e = s@;
        push_str(&mut s, "#0x");
        push_hex4(&mut s, self.address);
        push_str(&mut s, ": ");
        let mut bytes = String::new();
        push_bytes(&mut bytes, self.opcode, &self.resolution.operands);
        push_padded(&mut s, &bytes, 14);
        push_padded(&mut s, &self.mnemonic, 4);
        push_str(&mut s, " ");
        let res = resolution_string(
            self.resolution.addressing_mode,
            self.resolution.target_address,
        );
        push_padded(&mut s, &res, 20);
        push_str(&mut s, self.outcome.as_str());
        push_str(&mut s, "[");
        push_dec(&mut s, self.cycles as u128);
        push_str(&mut s, "]");
        assert(bytes@ =~= bytes_text(self.opcode, self.resolution.operands@) + ")"@);
        assert(s@ =~= log_line_text(
            self.address,
            self.opcode,
            self.resolution.operands@,
            self.mnemonic@,
            self.resolution.addressing_mode,
            self.resolution.target_address,
            self.outcome@,
            self.cycles,
        ));
        s
    }
}

/// The registers after the early, stand-alone DEX routine: X goes down by
/// one, wrapping from 0 to 0xff; when it reaches 0, Z is set, when it wraps
/// N is set, otherwise N and Z are cleared; the command pointer moves past
/// the opcode and its operands.
pub open spec fn dex_registers(r: Registers, mode: AddressingMode) -> Registers {
    Registers {
        register_x: if r.register_x != 0 {
            (r.register_x - 1) as u8
        } else {
            0xff
        },
        status_register: if r.register_x == 1 {
            r.status_register | 0b0000_0010
        } else if r.register_x != 0 {
            r.status_register & 0b0111_1101
        } else {
            r.status_register | 0b1000_0000
        },
        command_pointer: (r.command_pointer + 1 + operands(mode).len()) as usize,
        ..r
    }
}

/// Decrement X as the first, stand-alone DEX routine did (see
/// `dex_registers`); it leaves memory alone and reports the text "Pika".
#[allow(non_snake_case)]
pub fn DEX(memory: &mut MemoryStack, registers: &mut Registers, addressing_mode: &AddressingMode) -> (r: String)
    requires
        old(registers).command_pointer + 1 + operands(*addressing_mode).len() <= usize::MAX,
    ensures
        *final(memory) == *old(memory),
        *final(registers) == dex_registers(*old(registers), *addressing_mode),
        r@ == "Pika"@,
{
    let operand_count = addressing_mode.get_operands().len();
    if registers.register_x != 0 {
        registers.register_x = registers.register_x - 1;
        if registers.register_x == 0 {
            registers.status_register = registers.status_register | 0b0000_0010;
        } else {
            registers.status_register = registers.status_register & 0b0111_1101;
        }
    } else {
        registers.register_x = 0xff;
        registers.status_register = registers.status_register | 0b1000_0000;
    }
    registers.command_pointer = registers.command_pointer + 1 + operand_count;
    let mut s = String::new();
    push_str(&mut s, "Pika");
    s
}

} // verus!
