use crate::memory::{lemma_memory_size, AddressableIO, MemoryError, MemoryStack};
use crate::registers::Registers;
use crate::text::{hex2, hex4, push_hex2, push_hex4, push_str};
use vstd::prelude::*;

verus! {

/// How an instruction finds its operand. Each mode carries the operand bytes
/// that follow the opcode; relative modes also carry the opcode's address.
#[derive(Debug, Clone, Copy, PartialEq, Eq)]
pub enum AddressingMode {
    Implied,
    Accumulator,
    Immediate([u8; 1]),
    ZeroPage([u8; 1]),
    ZeroPageXIndexed([u8; 1]),
    ZeroPageYIndexed([u8; 1]),
    ZeroPageXIndexedIndirect([u8; 1]),
    ZeroPageIndirectYIndexed([u8; 1]),
    ZeroPageIndirect([u8; 1]),
    Absolute([u8; 2]),
    AbsoluteXIndexed([u8; 2]),
    AbsoluteYIndexed([u8; 2]),
    Indirect([u8; 2]),
    AbsoluteXIndexedIndirect([u8; 2]),
    Relative(usize, [u8; 1]),
    ZeroPageRelative(usize, [u8; 2]),
}

/// Failure to compute the address an instruction works on.
#[derive(Debug, Clone, Copy, PartialEq, Eq)]
pub enum ResolutionError {
    /// Reading an indirect pointer went past the end of memory.
    Memory(MemoryError),
}

/// Outcome of resolving an addressing mode against the machine state.
#[derive(Debug)]
pub struct AddressingModeResolution {
    pub operands: Vec<u8>,
    pub addressing_mode: AddressingMode,
    pub target_address: Option<usize>,
}

/// The operand bytes carried by a mode.
pub open spec fn operands(mode: AddressingMode) -> Seq<u8> {
    match mode {
        AddressingMode::Implied | AddressingMode::Accumulator => seq![],
        AddressingMode::Immediate(v) | AddressingMode::ZeroPage(v) | AddressingMode::ZeroPageXIndexed(
            v,
        ) | AddressingMode::ZeroPageYIndexed(v) | AddressingMode::ZeroPageXIndexedIndirect(v)
        | AddressingMode::ZeroPageIndirectYIndexed(v) | AddressingMode::ZeroPageIndirect(v) => seq![
            v[0],
        ],
        AddressingMode::Relative(_, v) => seq![v[0]],
        AddressingMode::Absolute(v) | AddressingMode::AbsoluteXIndexed(v)
        | AddressingMode::AbsoluteYIndexed(v) | AddressingMode::Indirect(v)
        | AddressingMode::AbsoluteXIndexedIndirect(v) => seq![v[0], v[1]],
        AddressingMode::ZeroPageRelative(_, v) => seq![v[0], v[1]],
    }
}

/// Signed value of a branch offset byte.
pub open spec fn signed(b: u8) -> int {
    if b < 128 {
        b as int
    } else {
        b as int - 256
    }
}

/// Destination of a two byte branch at `addr` with offset `offset`:
/// the address following the instruction plus the signed offset.
pub open spec fn relative_target(addr: usize, offset: u8) -> Option<usize> {
    let t = addr + 2 + signed(offset);
    if 0 <= t <= usize::MAX {
        Some(t as usize)
    } else {
        None
    }
}

/// Destination of a three byte branch (BBR/BBS) at `addr` with offset `offset`.
pub open spec fn zero_page_relative_target(addr: usize, offset: u8) -> Option<usize> {
    let t = addr + 3 + signed(offset);
    if 0 <= t <= usize::MAX {
        Some(t as usize)
    } else {
        None
    }
}

/// Little-endian 16 bit word of two bytes.
pub open spec fn word(lo: u8, hi: u8) -> nat {
    lo as nat + 256 * (hi as nat)
}

/// The word stored at `a` (low byte first), when both bytes are in memory.
pub open spec fn word_at(mem: Seq<u8>, a: int) -> Result<usize, ResolutionError> {
    if 0 <= a && a + 2 <= mem.len() {
        Ok(word(mem[a], mem[a + 1]) as usize)
    } else {
        Err(ResolutionError::Memory(MemoryError::ReadOverflow(2, a as usize)))
    }
}

/// The address an addressing mode designates, given registers and memory.
pub open spec fn target_spec(mode: AddressingMode, opcode_address: usize, mem: Seq<u8>, regs: Registers) -> Result<
    Option<usize>,
    ResolutionError,
> {
    match mode {
        AddressingMode::Implied | AddressingMode::Accumulator => Ok(None),
        AddressingMode::Immediate(_) => Ok(Some((opcode_address + 1) as usize)),
        AddressingMode::ZeroPage(v) => Ok(Some(v[0] as usize)),
        AddressingMode::ZeroPageXIndexed(v) => Ok(Some(((v[0] + regs.register_x) % 256) as usize)),
        AddressingMode::ZeroPageYIndexed(v) => Ok(Some(((v[0] + regs.register_y) % 256) as usize)),
        AddressingMode::ZeroPageXIndexedIndirect(v) => match word_at(
            mem,
            (v[0] + regs.register_x) % 256,
        ) {
            Ok(w) => Ok(Some(w)),
            Err(e) => Err(e),
        },
        AddressingMode::ZeroPageIndirectYIndexed(v) => match word_at(mem, v[0] as int) {
            Ok(w) => Ok(Some((w + regs.register_y) as usize)),
            Err(e) => Err(e),
        },
        AddressingMode::ZeroPageIndirect(v) => match word_at(mem, v[0] as int) {
            Ok(w) => Ok(Some(w)),
            Err(e) => Err(e),
        },
        AddressingMode::Absolute(v) => Ok(Some(word(v[0], v[1]) as usize)),
        AddressingMode::AbsoluteXIndexed(v) => Ok(Some((word(v[0], v[1]) + regs.register_x) as usize)),
        AddressingMode::AbsoluteYIndexed(v) => Ok(Some((word(v[0], v[1]) + regs.register_y) as usize)),
        AddressingMode::Indirect(v) => match word_at(mem, word(v[0], v[1]) as int) {
            Ok(w) => Ok(Some(w)),
            Err(e) => Err(e),
        },
        AddressingMode::AbsoluteXIndexedIndirect(v) => match word_at(
            mem,
            word(v[0], v[1]) + regs.register_x,
        ) {
            Ok(w) => Ok(Some(w)),
            Err(e) => Err(e),
        },
        AddressingMode::Relative(addr, v) => Ok(relative_target(addr, v[0])),
        AddressingMode::ZeroPageRelative(_, v) => Ok(Some(v[0] as usize)),
    }
}

/// The operand as an assembler writes it (`#$12`, `$1234,X`, `($12),Y`...).
pub open spec fn mode_text(mode: AddressingMode) -> Seq<char> {
    match mode {
        AddressingMode::Implied => seq![],
        AddressingMode::Accumulator => "A"@,
        AddressingMode::Immediate(v) => "#$"@ + hex2(v[0]),
        AddressingMode::ZeroPage(v) => "$"@ + hex2(v[0]),
        AddressingMode::ZeroPageXIndexed(v) => "$"@ + hex2(v[0]) + ",X"@,
        AddressingMode::ZeroPageYIndexed(v) => "$"@ + hex2(v[0]) + ",Y"@,
        AddressingMode::ZeroPageXIndexedIndirect(v) => "($"@ + hex2(v[0]) + ",X)"@,
        AddressingMode::ZeroPageIndirectYIndexed(v) => "($"@ + hex2(v[0]) + "),Y"@,
        AddressingMode::ZeroPageIndirect(v) => "($"@ + hex2(v[0]) + ")"@,
        AddressingMode::Absolute(v) => "$"@ + hex4(word(v[0], v[1])),
        AddressingMode::AbsoluteXIndexed(v) => "$"@ + hex4(word(v[0], v[1])) + ",X"@,
        AddressingMode::AbsoluteYIndexed(v) => "$"@ + hex4(word(v[0], v[1])) + ",Y"@,
        AddressingMode::Indirect(v) => "($"@ + hex4(word(v[0], v[1])) + ")"@,
        AddressingMode::AbsoluteXIndexedIndirect(v) => "($"@ + hex4(word(v[0], v[1])) + ",X)"@,
        AddressingMode::Relative(addr, v) => match relative_target(addr, v[0]) {
            Some(t) => "$"@ + hex4(t as nat),
            None => "$"@ + hex2(v[0]),
        },
        AddressingMode::ZeroPageRelative(addr, v) => match zero_page_relative_target(addr, v[1]) {
            Some(t) => "$"@ + hex2(v[0]) + ",$"@ + hex4(t as nat),
            None => "$"@ + hex2(v[0]) + ",$"@ + hex2(v[1]),
        },
    }
}

/// Destination of a two byte branch at `addr`: the address following the
/// instruction plus the signed `offset`; `None` when it leaves the address range.
pub fn resolve_relative(addr: usize, offset: u8) -> (r: Option<usize>)
    ensures
        r == relative_target(addr, offset),
{
    if offset < 128 {
        if addr <= usize::MAX - 2 - offset as usize {
            Some(addr + 2 + offset as usize)
        } else {
            None
        }
    } else {
        let back = 256 - offset as usize;
        if addr >= back {
            let d = addr - back;
            if d <= usize::MAX - 2 {
                Some(d + 2)
            } else {
                None
            }
        } else if addr + 2 >= back {
            Some(addr + 2 - back)
        } else {
            None
        }
    }
}

/// Destination of a three byte branch (BBR/BBS) at `addr` with `offset`.
pub fn resolve_zero_page_relative(addr: usize, offset: u8) -> (r: Option<usize>)
    ensures
        r == zero_page_relative_target(addr, offset),
{
    if offset < 128 {
        if addr <= usize::MAX - 3 - offset as usize {
            Some(addr + 3 + offset as usize)
        } else {
            None
        }
    } else {
        let back = 256 - offset as usize;
        if addr >= back {
            let d = addr - back;
            if d <= usize::MAX - 3 {
                Some(d + 3)
            } else {
                None
            }
        } else if addr + 3 >= back {
            Some(addr + 3 - back)
        } else {
            None
        }
    }
}

/// Read the little-endian word at `a`.
fn read_word(memory: &MemoryStack, a: usize) -> (r: Result<usize, ResolutionError>)
    ensures
        r == word_at(memory.contents(), a as int),
{
    proof {
        lemma_memory_size(memory);
    }
    match memory.read(a, 2) {
        Ok(bytes) => Ok(bytes[0] as usize + 256 * bytes[1] as usize),
        Err(e) => Err(ResolutionError::Memory(e)),
    }
}

impl AddressingMode {
    /// The operand bytes that follow the opcode.
    pub fn get_operands(&self) -> (v: Vec<u8>)
        ensures
            v@ == operands(*self),
    {
        let mut v = Vec::new();
        match *self {
            AddressingMode::Implied | AddressingMode::Accumulator => {},
            AddressingMode::Immediate(o) | AddressingMode::ZeroPage(o)
            | AddressingMode::ZeroPageXIndexed(o) | AddressingMode::ZeroPageYIndexed(o)
            | AddressingMode::ZeroPageXIndexedIndirect(o) | AddressingMode::ZeroPageIndirectYIndexed(o)
            | AddressingMode::ZeroPageIndirect(o) | AddressingMode::Relative(_, o) => {
                v.push(o[0]);
            },
            AddressingMode::Absolute(o) | AddressingMode::AbsoluteXIndexed(o)
            | AddressingMode::AbsoluteYIndexed(o) | AddressingMode::Indirect(o)
            | AddressingMode::AbsoluteXIndexedIndirect(o) | AddressingMode::ZeroPageRelative(_, o) => {
                v.push(o[0]);
                v.push(o[1]);
            },
        }
        assert(v@ =~= operands(*self));
        v
    }

    /// Resolve the mode for the instruction at `opcode_address`: the operand
    /// bytes and the address the instruction works on.
    pub fn solve(&self, opcode_address: usize, memory: &MemoryStack, registers: &Registers) -> (r:
        Result<AddressingModeResolution, ResolutionError>)
        requires
            opcode_address < usize::MAX,
        ensures
            r matches Ok(res) ==> res.operands@ == operands(*self) && res.addressing_mode == *self
                && target_spec(*self, opcode_address, memory.contents(), *registers) == Ok::<
                Option<usize>,
                ResolutionError,
            >(res.target_address),
            r matches Err(e) ==> target_spec(*self, opcode_address, memory.contents(), *registers)
                == Err::<Option<usize>, ResolutionError>(e),
    {
        let target: Option<usize> = match *self {
            AddressingMode::Implied | AddressingMode::Accumulator => None,
            AddressingMode::Immediate(_) => Some(opcode_address + 1),
            AddressingMode::ZeroPage(v) => Some(v[0] as usize),
            AddressingMode::ZeroPageXIndexed(v) => Some(
                ((v[0] as usize + registers.register_x as usize) % 256),
            ),
            AddressingMode::ZeroPageYIndexed(v) => Some(
                ((v[0] as usize + registers.register_y as usize) % 256),
            ),
            AddressingMode::ZeroPageXIndexedIndirect(v) => {
                let w = read_word(memory, (v[0] as usize + registers.register_x as usize) % 256)?;
                Some(w)
            },
            AddressingMode::ZeroPageIndirectYIndexed(v) => {
                let w = read_word(memory, v[0] as usize)?;
                Some(w + registers.register_y as usize)
            },
            AddressingMode::ZeroPageIndirect(v) => {
                let w = read_word(memory, v[0] as usize)?;
                Some(w)
            },
            AddressingMode::Absolute(v) => Some(v[0] as usize + 256 * v[1] as usize),
            AddressingMode::AbsoluteXIndexed(v) => Some(
                v[0] as usize + 256 * v[1] as usize + registers.register_x as usize,
            ),
            AddressingMode::AbsoluteYIndexed(v) => Some(
                v[0] as usize + 256 * v[1] as usize + registers.register_y as usize,
            ),
            AddressingMode::Indirect(v) => {
                let w = read_word(memory, v[0] as usize + 256 * v[1] as usize)?;
                Some(w)
            },
            AddressingMode::AbsoluteXIndexedIndirect(v) => {
                let w = read_word(
                    memory,
                    v[0] as usize + 256 * v[1] as usize + registers.register_x as usize,
                )?;
                Some(w)
            },
            AddressingMode::Relative(addr, v) => resolve_relative(addr, v[0]),
            AddressingMode::ZeroPageRelative(_, v) => Some(v[0] as usize),
        };
        Ok(
            AddressingModeResolution {
                operands: self.get_operands(),
                addressing_mode: *self,
                target_address: target,
            },
        )
    }

    /// The operand as an assembler writes it (`#$12`, `$1234,X`, `($12),Y`...).
    pub fn to_string(&self) -> (s: String)
        ensures
            s@ == mode_text(*self),
    {
        let mut s = String::new();
        let ghost e = s@;
        match *self {
            AddressingMode::Implied => {},
            AddressingMode::Accumulator => push_str(&mut s, "A"),
            AddressingMode::Immediate(v) => {
                push_str(&mut s, "#$");
                push_hex2(&mut s, v[0]);
            },
            AddressingMode::ZeroPage(v) => {
                push_str(&mut s, "$");
                push_hex2(&mut s, v[0]);
            },
            AddressingMode::ZeroPageXIndexed(v) => {
                push_str(&mut s, "$");
                push_hex2(&mut s, v[0]);
                push_str(&mut s, ",X");
            },
            AddressingMode::ZeroPageYIndexed(v) => {
                push_str(&mut s, "$");
                push_hex2(&mut s, v[0]);
                push_str(&mut s, ",Y");
            },
            AddressingMode::ZeroPageXIndexedIndirect(v) => {
                push_str(&mut s, "($");
                push_hex2(&mut s, v[0]);
                push_str(&mut s, ",X)");
            },
            AddressingMode::ZeroPageIndirectYIndexed(v) => {
                push_str(&mut s, "($");
                push_hex2(&mut s, v[0]);
                push_str(&mut s, "),Y");
            },
            AddressingMode::ZeroPageIndirect(v) => {
                push_str(&mut s, "($");
                push_hex2(&mut s, v[0]);
                push_str(&mut s, ")");
            },
            AddressingMode::Absolute(v) => {
                push_str(&mut s, "$");
                push_hex4(&mut s, v[0] as usize + 256 * v[1] as usize);
            },
            AddressingMode::AbsoluteXIndexed(v) => {
                push_str(&mut s, "$");
                push_hex4(&mut s, v[0] as usize + 256 * v[1] as usize);
                push_str(&mut s, ",X");
            },
            AddressingMode::AbsoluteYIndexed(v) => {
                push_str(&mut s, "$");
                push_hex4(&mut s, v[0] as usize + 256 * v[1] as usize);
                push_str(&mut s, ",Y");
            },
            AddressingMode::Indirect(v) => {
                push_str(&mut s, "($");
                push_hex4(&mut s, v[0] as usize + 256 * v[1] as usize);
                push_str(&mut s, ")");
            },
            AddressingMode::AbsoluteXIndexedIndirect(v) => {
                push_str(&mut s, "($");
                push_hex4(&mut s, v[0] as usize + 256 * v[1] as usize);
                push_str(&mut s, ",X)");
            },
            AddressingMode::Relative(addr, v) => {
                push_str(&mut s, "$");
                match resolve_relative(addr, v[0]) {
                    Some(t) => push_hex4(&mut s, t),
                    None => push_hex2(&mut s, v[0]),
                }
            },
            AddressingMode::ZeroPageRelative(addr, v) => {
                push_str(&mut s, "$");
                push_hex2(&mut s, v[0]);
                push_str(&mut s, ",$");
                match resolve_zero_page_relative(addr, v[1]) {
                    Some(t) => push_hex4(&mut s, t),
                    None => push_hex2(&mut s, v[1]),
                }
            },
        }
        assert(s@ =~= mode_text(*self));
        s
    }
}

impl AddressingModeResolution {
    /// The resolved operand as an assembler writes it.
    pub fn to_string(&self) -> (s: String)
        ensures
            s@ == mode_text(self.addressing_mode),
    {
        self.addressing_mode.to_string()
    }
}

/// `(zp,X)` reads its pointer where `zp,X` points: the target is the
/// little-endian word stored at the zero-page address `zp + X` (wrapping
/// within page zero), with nothing added after the indirection. So it is
/// also `(zp)` with the operand moved by X.
pub proof fn law_indexed_indirect_reads_pointer_at_indexed_address(
    o: u8,
    opcode_address: usize,
    mem: Seq<u8>,
    regs: Registers,
)
    ensures
        ({
            let p = (o as nat + regs.register_x as nat) % 256;
            &&& target_spec(AddressingMode::ZeroPageXIndexed([o]), opcode_address, mem, regs) == Ok::<
                Option<usize>,
                ResolutionError,
            >(Some(p as usize))
            &&& p + 2 <= mem.len() ==> target_spec(
                AddressingMode::ZeroPageXIndexedIndirect([o]),
                opcode_address,
                mem,
                regs,
            ) == Ok::<Option<usize>, ResolutionError>(Some((mem[p as int] as nat + 256 * mem[p + 1int] as nat) as usize))
            &&& target_spec(AddressingMode::ZeroPageXIndexedIndirect([o]), opcode_address, mem, regs) == target_spec(
                AddressingMode::ZeroPageIndirect([p as u8]),
                opcode_address,
                mem,
                regs,
            )
        }),
{
}

/// `(zp),Y` reads its pointer at `zp` and adds Y to it afterwards.
pub proof fn law_indirect_indexed_adds_index_after_pointer(o: u8, opcode_address: usize, mem: Seq<u8>, regs: Registers)
    ensures
        o as nat + 2 <= mem.len() ==> target_spec(
            AddressingMode::ZeroPageIndirectYIndexed([o]),
            opcode_address,
            mem,
            regs,
        ) == Ok::<Option<usize>, ResolutionError>(
            Some((mem[o as int] as nat + 256 * mem[o + 1] as nat + regs.register_y as nat) as usize),
        ),
        regs.register_y == 0 ==> target_spec(AddressingMode::ZeroPageIndirectYIndexed([o]), opcode_address, mem, regs)
            == target_spec(AddressingMode::ZeroPageIndirect([o]), opcode_address, mem, regs),
{
}

/// `(abs,X)` reads its pointer at `abs + X`, with nothing added after the
/// indirection; with X at zero it is `(abs)`.
pub proof fn law_absolute_indexed_indirect_reads_pointer_at_indexed_address(
    lo: u8,
    hi: u8,
    opcode_address: usize,
    mem: Seq<u8>,
    regs: Registers,
)
    ensures
        ({
            let p = lo as nat + 256 * hi as nat + regs.register_x as nat;
            p + 2 <= mem.len() ==> target_spec(
                AddressingMode::AbsoluteXIndexedIndirect([lo, hi]),
                opcode_address,
                mem,
                regs,
            ) == Ok::<Option<usize>, ResolutionError>(Some((mem[p as int] as nat + 256 * mem[p + 1int] as nat) as usize))
        }),
        regs.register_x == 0 ==> target_spec(AddressingMode::AbsoluteXIndexedIndirect([lo, hi]), opcode_address, mem, regs)
            == target_spec(AddressingMode::Indirect([lo, hi]), opcode_address, mem, regs),
{
}

/// Indexed modes add the index register to the address of the plain mode:
/// `abs,X` and `abs,Y` to the absolute address, `zp,X` and `zp,Y` to the
/// zero-page address, wrapping within page zero. An immediate operand is
/// the byte after the opcode; an absolute address is its two operand bytes,
/// low byte first.
pub proof fn law_indexed_modes_add_the_index(lo: u8, hi: u8, opcode_address: usize, mem: Seq<u8>, regs: Registers)
    ensures
        target_spec(AddressingMode::Absolute([lo, hi]), opcode_address, mem, regs) == Ok::<Option<usize>, ResolutionError>(
            Some((lo as nat + 256 * hi as nat) as usize),
        ),
        target_spec(AddressingMode::AbsoluteXIndexed([lo, hi]), opcode_address, mem, regs) == Ok::<
            Option<usize>,
            ResolutionError,
        >(Some((lo as nat + 256 * hi as nat + regs.register_x as nat) as usize)),
        target_spec(AddressingMode::AbsoluteYIndexed([lo, hi]), opcode_address, mem, regs) == Ok::<
            Option<usize>,
            ResolutionError,
        >(Some((lo as nat + 256 * hi as nat + regs.register_y as nat) as usize)),
        target_spec(AddressingMode::ZeroPage([lo]), opcode_address, mem, regs) == Ok::<Option<usize>, ResolutionError>(
            Some(lo as usize),
        ),
        target_spec(AddressingMode::ZeroPageXIndexed([lo]), opcode_address, mem, regs) == Ok::<
            Option<usize>,
            ResolutionError,
        >(Some(((lo as nat + regs.register_x as nat) % 256) as usize)),
        target_spec(AddressingMode::ZeroPageYIndexed([lo]), opcode_address, mem, regs) == Ok::<
            Option<usize>,
            ResolutionError,
        >(Some(((lo as nat + regs.register_y as nat) % 256) as usize)),
        target_spec(AddressingMode::Immediate([lo]), opcode_address, mem, regs) == Ok::<Option<usize>, ResolutionError>(
            Some((opcode_address + 1) as usize),
        ),
{
}

} // verus!
