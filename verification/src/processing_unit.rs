//! Decoding and running instructions from memory.
use crate::addressing_mode::{operands, AddressingMode};
use crate::cpu_instruction::{CPUInstruction, LogLine, Microcode, MicrocodeError};
use crate::memory::{lemma_memory_size, AddressableIO, MemoryError, MemoryStack};
use crate::microcode::executed_as;
use crate::opcodes::{build_mode, lookup_opcode, mnemonic_of, mnemonic_text, mode_of, opcode_entry};
use crate::registers::Registers;
use vstd::prelude::*;

verus! {

/// Failure while decoding or executing an instruction.
#[derive(Debug, Clone, Copy, PartialEq, Eq)]
pub enum CPUError {
    /// Reading the instruction bytes went past the end of memory.
    MemoryError(MemoryError),
    /// The instruction failed while executing.
    MicrocodeError(MicrocodeError),
    /// `UnsupportedOpcode(opcode, address)`: the opcode is not implemented.
    UnsupportedOpcode(u8, usize),
}

/// An instruction as decoded from memory: operation, addressing mode, opcode.
pub struct Decoded {
    pub microcode: Microcode,
    pub mode: AddressingMode,
    pub opcode: u8,
}

/// Decoding the instruction whose opcode is at `address`: the opcode byte,
/// then the two following bytes are read (whatever the instruction's size),
/// then the opcode is looked up.
pub open spec fn decode_spec(address: usize, mem: Seq<u8>) -> Result<Decoded, CPUError> {
    if address + 1 > mem.len() {
        Err(CPUError::MemoryError(MemoryError::ReadOverflow(1, address)))
    } else if address + 3 > mem.len() {
        Err(CPUError::MemoryError(MemoryError::ReadOverflow(2, (address + 1) as usize)))
    } else {
        let opcode = mem[address as int];
        match opcode_entry(opcode) {
            None => Err(CPUError::UnsupportedOpcode(opcode, address)),
            Some(e) => Ok(
                Decoded {
                    microcode: e.microcode,
                    mode: mode_of(e.kind, address, mem[address + 1], mem[address + 2]),
                    opcode,
                },
            ),
        }
    }
}

/// Whether `i` is the instruction `d` decoded at `address`.
pub open spec fn is_decoded(i: CPUInstruction, address: usize, d: Decoded) -> bool {
    &&& i.address == address
    &&& i.opcode == d.opcode
    &&& i.microcode == d.microcode
    &&& i.addressing_mode == d.mode
    &&& i.mnemonic@ == mnemonic_text(d.microcode, d.opcode)
}

/// Size in bytes of an instruction with mode `mode`.
pub open spec fn instruction_size(mode: AddressingMode) -> nat {
    1 + operands(mode).len()
}

/// The instructions decoded one after the other from `cp` while the
/// address is below `end`, each with its address.
pub open spec fn disassembly(cp: usize, end: usize, mem: Seq<u8>) -> Result<Seq<(usize, Decoded)>, CPUError>
    decreases if cp >= end {
        0
    } else {
        end - cp
    },
{
    if cp >= end {
        Ok(seq![])
    } else {
        match decode_spec(cp, mem) {
            Err(e) => Err(e),
            Ok(d) => {
                let next = cp + instruction_size(d.mode);
                if next > usize::MAX {
                    Ok(seq![(cp, d)])
                } else {
                    match disassembly(next as usize, end, mem) {
                        Ok(rest) => Ok(seq![(cp, d)] + rest),
                        Err(e) => Err(e),
                    }
                }
            },
        }
    }
}

/// The effect of one step of the processor: the instruction at the command
/// pointer is decoded, then executed.
pub open spec fn stepped(r0: Registers, m0: Seq<u8>, r1: Registers, m1: Seq<u8>, res: Result<LogLine, CPUError>) -> bool {
    match decode_spec(r0.command_pointer, m0) {
        Err(e) => res == Err::<LogLine, CPUError>(e) && r1 == r0 && m1 == m0,
        Ok(d) => {
            let as_microcode: Result<LogLine, MicrocodeError> = match res {
                Ok(l) => Ok(l),
                Err(CPUError::MicrocodeError(e)) => Err(e),
                Err(_) => Err(MicrocodeError::Runtime),
            };
            &&& !(res matches Err(e) && !(e is MicrocodeError))
            &&& executed_as(
                d.microcode,
                r0.command_pointer,
                d.opcode,
                mnemonic_text(d.microcode, d.opcode),
                d.mode,
                r0,
                m0,
                r1,
                m1,
                as_microcode,
            )
        },
    }
}

/// Decode the instruction with opcode `opcode` at `address`, its operand
/// bytes being read from memory.
pub fn resolve_opcode(address: usize, opcode: u8, memory: &MemoryStack) -> (r: Result<CPUInstruction, CPUError>)
    requires
        address < usize::MAX,
    ensures
        match r {
            Ok(i) => address + 3 <= memory.contents().len() && opcode_entry(opcode) is Some && is_decoded(
                i,
                address,
                Decoded {
                    microcode: opcode_entry(opcode)->Some_0.microcode,
                    mode: mode_of(
                        opcode_entry(opcode)->Some_0.kind,
                        address,
                        memory.contents()[address + 1],
                        memory.contents()[address + 2],
                    ),
                    opcode,
                },
            ),
            Err(e) => if address + 3 > memory.contents().len() {
                e == CPUError::MemoryError(MemoryError::ReadOverflow(2, (address + 1) as usize))
            } else {
                opcode_entry(opcode) is None && e == CPUError::UnsupportedOpcode(opcode, address)
            },
        },
{
    let bytes = match memory.read(address + 1, 2) {
        Ok(b) => b,
        Err(e) => return Err(CPUError::MemoryError(e)),
    };
    let op1 = bytes[0];
    let op2 = bytes[1];
    match lookup_opcode(opcode) {
        None => Err(CPUError::UnsupportedOpcode(opcode, address)),
        Some(entry) => {
            let mode = build_mode(entry.kind, address, op1, op2);
            let mnemonic = mnemonic_of(entry.microcode, opcode);
            Ok(
                CPUInstruction {
                    address,
                    opcode,
                    mnemonic,
                    addressing_mode: mode,
                    microcode: entry.microcode,
                },
            )
        },
    }
}

/// Decode the instruction at `address`.
pub fn read_step(address: usize, memory: &MemoryStack) -> (r: Result<CPUInstruction, CPUError>)
    ensures
        match decode_spec(address, memory.contents()) {
            Ok(d) => r matches Ok(i) && is_decoded(i, address, d),
            Err(e) => r == Err::<CPUInstruction, CPUError>(e),
        },
{
    proof {
        lemma_memory_size(memory);
    }
    let bytes = match memory.read(address, 1) {
        Ok(b) => b,
        Err(e) => return Err(CPUError::MemoryError(e)),
    };
    resolve_opcode(address, bytes[0], memory)
}

/// Execute the instruction at the command pointer.
pub fn execute_step(registers: &mut Registers, memory: &mut MemoryStack) -> (r: Result<LogLine, CPUError>)
    ensures
        stepped(*old(registers), old(memory).contents(), *final(registers), final(memory).contents(), r),
{
    proof {
        lemma_memory_size(memory);
    }
    let cpu_instruction = read_step(registers.command_pointer, memory)?;
    assert(decode_spec(registers.command_pointer, memory.contents()) is Ok);
    match cpu_instruction.execute(memory, registers) {
        Ok(l) => Ok(l),
        Err(e) => Err(CPUError::MicrocodeError(e)),
    }
}

/// Decode the instructions from `start` on while the address is below `end`.
pub fn disassemble(start: usize, end: usize, memory: &MemoryStack) -> (r: Result<Vec<CPUInstruction>, CPUError>)
    ensures
        match disassembly(start, end, memory.contents()) {
            Ok(ds) => r matches Ok(v) && v@.len() == ds.len() && forall|i: int|
                0 <= i < ds.len() ==> is_decoded(#[trigger] v@[i], ds[i].0, ds[i].1),
            Err(e) => r == Err::<Vec<CPUInstruction>, CPUError>(e),
        },
{
    proof {
        lemma_memory_size(memory);
    }
    let ghost mem = memory.contents();
    let mut cp = start;
    let mut output: Vec<CPUInstruction> = Vec::new();
    let ghost mut done: Seq<(usize, Decoded)> = seq![];
    while cp < end
        invariant
            mem == memory.contents(),
            mem.len() == 0x10000,
            output@.len() == done.len(),
            forall|i: int| 0 <= i < done.len() ==> is_decoded(#[trigger] output@[i], done[i].0, done[i].1),
            match disassembly(cp, end, mem) {
                Ok(rest) => disassembly(start, end, mem) == Ok::<Seq<(usize, Decoded)>, CPUError>(done + rest),
                Err(e) => disassembly(start, end, mem) == Err::<Seq<(usize, Decoded)>, CPUError>(e),
            },
        decreases if cp >= end {
            0
        } else {
            end - cp
        },
    {
        let cpu_instruction = read_step(cp, memory)?;
        let ghost d = decode_spec(cp, mem)->Ok_0;
        let ghost at = cp;
        let size: usize = match cpu_instruction.addressing_mode {
            AddressingMode::Implied | AddressingMode::Accumulator => 1,
            AddressingMode::Absolute(_) | AddressingMode::AbsoluteXIndexed(_)
            | AddressingMode::AbsoluteYIndexed(_) | AddressingMode::Indirect(_)
            | AddressingMode::AbsoluteXIndexedIndirect(_) | AddressingMode::ZeroPageRelative(_, _) => 3,
            _ => 2,
        };
        assert(size == instruction_size(d.mode));
        proof {
            let next = cp + instruction_size(d.mode);
            match disassembly(next as usize, end, mem) {
                Ok(rest) => {
                    assert(done + (seq![(cp, d)] + rest) =~= (done.push((cp, d))) + rest);
                },
                Err(e) => {},
            }
        }
        cp = cp + size;
        output.push(cpu_instruction);
        proof {
            done = done.push((at, d));
        }
    }
    assert(done + seq![] =~= done);
    Ok(output)
}

/// Walks memory instruction by instruction from a start address.
pub struct MemoryParserIterator<'a> {
    memory: &'a MemoryStack,
    cp: usize,
}

impl<'a> MemoryParserIterator<'a> {
    /// A walk over `memory` starting at `start_address`.
    pub fn new(start_address: usize, memory: &'a MemoryStack) -> (it: MemoryParserIterator<'a>)
        ensures
            it.position() == start_address,
            it.source() == memory,
    {
        MemoryParserIterator { cp: start_address, memory }
    }

    /// Address of the next instruction.
    pub closed spec fn position(&self) -> usize {
        self.cp
    }

    /// The memory walked over.
    pub closed spec fn source(&self) -> &'a MemoryStack {
        self.memory
    }

    /// The instruction at the current position, moving past it; `None` when
    /// it cannot be decoded.
    pub fn next(&mut self) -> (r: Option<CPUInstruction>)
        ensures
            final(self).source() == old(self).source(),
            match decode_spec(old(self).position(), old(self).source().contents()) {
                Ok(d) => r matches Some(i) && is_decoded(i, old(self).position(), d) && final(self).position()
                    == old(self).position() + instruction_size(d.mode),
                Err(_) => r is None && final(self).position() == old(self).position(),
            },
    {
        proof {
            lemma_memory_size(self.memory);
        }
        match read_step(self.cp, self.memory) {
            Ok(cpu_instruction) => {
                let size: usize = match cpu_instruction.addressing_mode {
                    AddressingMode::Implied | AddressingMode::Accumulator => 1,
                    AddressingMode::Absolute(_) | AddressingMode::AbsoluteXIndexed(_)
                    | AddressingMode::AbsoluteYIndexed(_) | AddressingMode::Indirect(_)
                    | AddressingMode::AbsoluteXIndexedIndirect(_) | AddressingMode::ZeroPageRelative(
                        _,
                        _,
                    ) => 3,
                    _ => 2,
                };
                self.cp = self.cp + size;
                Some(cpu_instruction)
            },
            Err(_) => None,
        }
    }
}

} // verus!
