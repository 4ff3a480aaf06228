use crate::memory::{lemma_memory_size, AddressableIO, MemoryError, MemoryStack, splice};
use crate::text::push_char;
use vstd::prelude::*;

verus! {

/// Negative flag.
pub const FLAG_N: u8 = 0b1000_0000;
/// Overflow flag.
pub const FLAG_V: u8 = 0b0100_0000;
/// Unused bit, always shown as `-`.
pub const FLAG_UNUSED: u8 = 0b0010_0000;
/// Break flag.
pub const FLAG_B: u8 = 0b0001_0000;
/// Decimal mode flag.
pub const FLAG_D: u8 = 0b0000_1000;
/// Interrupt disable flag.
pub const FLAG_I: u8 = 0b0000_0100;
/// Zero flag.
pub const FLAG_Z: u8 = 0b0000_0010;
/// Carry flag.
pub const FLAG_C: u8 = 0b0000_0001;

/// Base address of the processor stack (page 1).
pub const STACK_BASE_ADDR: usize = 0x0100;

/// Status register value after a reset: unused bit and break flag set.
pub const STATUS_AT_RESET: u8 = 0b0011_0000;

/// Whether the bit(s) of `mask` are set in `status`.
pub open spec fn flag(status: u8, mask: u8) -> bool {
    status & mask != 0
}

/// `status` with the bit `mask` set when `v` holds, cleared otherwise.
pub open spec fn with_flag(status: u8, mask: u8, v: bool) -> u8 {
    if v {
        status | mask
    } else {
        status & !mask
    }
}

/// One of the eight single-bit masks of the status register.
pub open spec fn is_flag_mask(m: u8) -> bool {
    m == 1 || m == 2 || m == 4 || m == 8 || m == 16 || m == 32 || m == 64 || m == 128
}

/// Setting one flag sets that flag and leaves every other bit as it was.
pub broadcast proof fn law_set_flag_keeps_other_flags(status: u8, mask: u8, v: bool, other: u8)
    requires
        is_flag_mask(mask),
        is_flag_mask(other),
    ensures
        #[trigger] flag(with_flag(status, mask, v), other) == if other == mask {
            v
        } else {
            flag(status, other)
        },
{
    if v {
        assert((status | mask) & other != 0 <==> (other == mask || status & other != 0))
            by (bit_vector)
            requires
                mask == 1 || mask == 2 || mask == 4 || mask == 8 || mask == 16 || mask == 32
                    || mask == 64 || mask == 128,
                other == 1 || other == 2 || other == 4 || other == 8 || other == 16 || other == 32
                    || other == 64 || other == 128,
        ;
    } else {
        assert((status & !mask) & other != 0 <==> (other != mask && status & other != 0))
            by (bit_vector)
            requires
                mask == 1 || mask == 2 || mask == 4 || mask == 8 || mask == 16 || mask == 32
                    || mask == 64 || mask == 128,
                other == 1 || other == 2 || other == 4 || other == 8 || other == 16 || other == 32
                    || other == 64 || other == 128,
        ;
    }
}

/// A status byte is determined by its eight flags.
pub proof fn law_status_given_by_flags(a: u8, b: u8)
    requires
        flag(a, 1) == flag(b, 1),
        flag(a, 2) == flag(b, 2),
        flag(a, 4) == flag(b, 4),
        flag(a, 8) == flag(b, 8),
        flag(a, 16) == flag(b, 16),
        flag(a, 32) == flag(b, 32),
        flag(a, 64) == flag(b, 64),
        flag(a, 128) == flag(b, 128),
    ensures
        a == b,
{
    assert(a == b) by (bit_vector)
        requires
            (a & 1 != 0) == (b & 1 != 0),
            (a & 2 != 0) == (b & 2 != 0),
            (a & 4 != 0) == (b & 4 != 0),
            (a & 8 != 0) == (b & 8 != 0),
            (a & 16 != 0) == (b & 16 != 0),
            (a & 32 != 0) == (b & 32 != 0),
            (a & 64 != 0) == (b & 64 != 0),
            (a & 128 != 0) == (b & 128 != 0),
    ;
}

/// Letter shown for a flag: upper case when set.
pub open spec fn flag_char(status: u8, mask: u8, upper: char, lower: char) -> char {
    if flag(status, mask) {
        upper
    } else {
        lower
    }
}

/// The status register as `NV-BDIZC`, each letter upper case when its flag is set.
pub open spec fn status_text(s: u8) -> Seq<char> {
    seq![
        flag_char(s, FLAG_N, 'N', 'n'),
        flag_char(s, FLAG_V, 'V', 'v'),
        '-',
        flag_char(s, FLAG_B, 'B', 'b'),
        flag_char(s, FLAG_D, 'D', 'd'),
        flag_char(s, FLAG_I, 'I', 'i'),
        flag_char(s, FLAG_Z, 'Z', 'z'),
        flag_char(s, FLAG_C, 'C', 'c'),
    ]
}

/// Stack pointer after pushing one byte (wraps within page 1).
pub open spec fn sp_after_push(sp: u8) -> u8 {
    ((sp as int - 1) % 256) as u8
}

/// Stack pointer after pulling one byte (wraps within page 1).
pub open spec fn sp_after_pull(sp: u8) -> u8 {
    ((sp as int + 1) % 256) as u8
}

/// The registers of the 65C02 processor.
#[derive(Debug, Clone, Copy, PartialEq, Eq)]
pub struct Registers {
    pub accumulator: u8,
    pub register_x: u8,
    pub register_y: u8,
    pub status_register: u8,
    pub stack_pointer: u8,
    pub command_pointer: usize,
    pub cycle_count: u64,
}

/// The registers right after a reset with the command pointer at `cp`.
pub open spec fn reset_registers(cp: usize) -> Registers {
    Registers {
        accumulator: 0,
        register_x: 0,
        register_y: 0,
        status_register: STATUS_AT_RESET,
        stack_pointer: 0xff,
        command_pointer: cp,
        cycle_count: 0,
    }
}

impl Registers {
    /// Registers after a reset, the command pointer set to `command_pointer`.
    pub fn new(command_pointer: usize) -> (r: Registers)
        ensures
            r == reset_registers(command_pointer),
    {
        Registers {
            accumulator: 0,
            register_x: 0,
            register_y: 0,
            status_register: STATUS_AT_RESET,
            stack_pointer: 0xff,
            command_pointer,
            cycle_count: 0,
        }
    }

    /// Registers after a reset, the command pointer set to `command_pointer`.
    pub fn new_initialized(command_pointer: usize) -> (r: Registers)
        ensures
            r == reset_registers(command_pointer),
    {
        let mut r = Registers::new(0);
        r.initialize(command_pointer);
        r
    }

    /// Reset every register; the command pointer is set to `init_address`.
    pub fn initialize(&mut self, init_address: usize)
        ensures
            *final(self) == reset_registers(init_address),
    {
        self.accumulator = 0;
        self.register_x = 0;
        self.register_y = 0;
        self.status_register = STATUS_AT_RESET;
        self.stack_pointer = 0xff;
        self.command_pointer = init_address;
        self.cycle_count = 0;
    }

    /// The status register.
    pub fn get_status_register(&self) -> (s: u8)
        ensures
            s == self.status_register,
    {
        self.status_register
    }

    /// Overwrite the status register.
    pub fn set_status_register(&mut self, status: u8)
        ensures
            *final(self) == (Registers { status_register: status, ..*old(self) }),
    {
        self.status_register = status;
    }

    /// Set or clear the flag(s) of `mask`, other registers unchanged.
    pub fn set_flag(&mut self, mask: u8, v: bool)
        ensures
            *final(self) == (Registers {
                status_register: with_flag(old(self).status_register, mask, v),
                ..*old(self)
            }),
    {
        if v {
            self.status_register = self.status_register | mask;
        } else {
            self.status_register = self.status_register & !mask;
        }
    }

    /// Whether the flag(s) of `mask` are set.
    pub fn flag_is_set(&self, mask: u8) -> (b: bool)
        ensures
            b == flag(self.status_register, mask),
    {
        self.status_register & mask != 0
    }

    /// Set or clear the negative flag.
    pub fn set_n_flag(&mut self, v: bool)
        ensures
            *final(self) == (Registers {
                status_register: with_flag(old(self).status_register, FLAG_N, v),
                ..*old(self)
            }),
    {
        self.set_flag(FLAG_N, v)
    }

    /// Set or clear the overflow flag.
    pub fn set_v_flag(&mut self, v: bool)
        ensures
            *final(self) == (Registers {
                status_register: with_flag(old(self).status_register, FLAG_V, v),
                ..*old(self)
            }),
    {
        self.set_flag(FLAG_V, v)
    }

    /// Set or clear the break flag.
    pub fn set_b_flag(&mut self, v: bool)
        ensures
            *final(self) == (Registers {
                status_register: with_flag(old(self).status_register, FLAG_B, v),
                ..*old(self)
            }),
    {
        self.set_flag(FLAG_B, v)
    }

    /// Set or clear the decimal flag.
    pub fn set_d_flag(&mut self, v: bool)
        ensures
            *final(self) == (Registers {
                status_register: with_flag(old(self).status_register, FLAG_D, v),
                ..*old(self)
            }),
    {
        self.set_flag(FLAG_D, v)
    }

    /// Set or clear the interrupt disable flag.
    pub fn set_i_flag(&mut self, v: bool)
        ensures
            *final(self) == (Registers {
                status_register: with_flag(old(self).status_register, FLAG_I, v),
                ..*old(self)
            }),
    {
        self.set_flag(FLAG_I, v)
    }

    /// Set or clear the zero flag.
    pub fn set_z_flag(&mut self, v: bool)
        ensures
            *final(self) == (Registers {
                status_register: with_flag(old(self).status_register, FLAG_Z, v),
                ..*old(self)
            }),
    {
        self.set_flag(FLAG_Z, v)
    }

    /// Set or clear the carry flag.
    pub fn set_c_flag(&mut self, v: bool)
        ensures
            *final(self) == (Registers {
                status_register: with_flag(old(self).status_register, FLAG_C, v),
                ..*old(self)
            }),
    {
        self.set_flag(FLAG_C, v)
    }

    /// Whether the negative flag is set.
    pub fn n_flag_is_set(&self) -> (b: bool)
        ensures
            b == flag(self.status_register, FLAG_N),
    {
        self.flag_is_set(FLAG_N)
    }

    /// Whether the overflow flag is set.
    pub fn v_flag_is_set(&self) -> (b: bool)
        ensures
            b == flag(self.status_register, FLAG_V),
    {
        self.flag_is_set(FLAG_V)
    }

    /// Whether the break flag is set.
    pub fn b_flag_is_set(&self) -> (b: bool)
        ensures
            b == flag(self.status_register, FLAG_B),
    {
        self.flag_is_set(FLAG_B)
    }

    /// Whether the decimal flag is set.
    pub fn d_flag_is_set(&self) -> (b: bool)
        ensures
            b == flag(self.status_register, FLAG_D),
    {
        self.flag_is_set(FLAG_D)
    }

    /// Whether the interrupt disable flag is set.
    pub fn i_flag_is_set(&self) -> (b: bool)
        ensures
            b == flag(self.status_register, FLAG_I),
    {
        self.flag_is_set(FLAG_I)
    }

    /// Whether the zero flag is set.
    pub fn z_flag_is_set(&self) -> (b: bool)
        ensures
            b == flag(self.status_register, FLAG_Z),
    {
        self.flag_is_set(FLAG_Z)
    }

    /// Whether the carry flag is set.
    pub fn c_flag_is_set(&self) -> (b: bool)
        ensures
            b == flag(self.status_register, FLAG_C),
    {
        self.flag_is_set(FLAG_C)
    }

    /// The status register as `NV-BDIZC`, upper case letters for set flags.
    pub fn format_status(&self) -> (s: String)
        ensures
            s@ == status_text(self.status_register),
    {
        let st = self.status_register;
        let mut s = String::new();
        push_char(&mut s, if st & FLAG_N != 0 { 'N' } else { 'n' });
        push_char(&mut s, if st & FLAG_V != 0 { 'V' } else { 'v' });
        push_char(&mut s, '-');
        push_char(&mut s, if st & FLAG_B != 0 { 'B' } else { 'b' });
        push_char(&mut s, if st & FLAG_D != 0 { 'D' } else { 'd' });
        push_char(&mut s, if st & FLAG_I != 0 { 'I' } else { 'i' });
        push_char(&mut s, if st & FLAG_Z != 0 { 'Z' } else { 'z' });
        push_char(&mut s, if st & FLAG_C != 0 { 'C' } else { 'c' });
        assert(s@ =~= status_text(st));
        s
    }

    /// Push `byte` on the stack: it is written at `0x0100 + SP`, then SP
    /// decreases by one (wrapping).
    pub fn stack_push(&mut self, memory: &mut MemoryStack, byte: u8) -> (r: Result<(), MemoryError>)
        ensures
            r is Ok,
            *final(self) == (Registers { stack_pointer: sp_after_push(old(self).stack_pointer), ..*old(self) }),
            final(memory).contents() == old(memory).contents().update(
                STACK_BASE_ADDR + old(self).stack_pointer,
                byte,
            ),
    {
        proof {
            lemma_memory_size(memory);
        }
        let ghost before = memory.contents();
        let data = [byte];
        let r = memory.write(STACK_BASE_ADDR + self.stack_pointer as usize, data.as_slice());
        match r {
            Ok(()) => {},
            Err(e) => {
                return Err(e);
            },
        }
        assert(splice(before, STACK_BASE_ADDR + self.stack_pointer, seq![byte]) =~= before.update(
            STACK_BASE_ADDR + self.stack_pointer,
            byte,
        ));
        self.stack_pointer = if self.stack_pointer == 0 { 0xff } else { self.stack_pointer - 1 };
        Ok(())
    }

    /// Pull a byte from the stack: SP increases by one (wrapping), then the
    /// byte at `0x0100 + SP` is read.
    pub fn stack_pull(&mut self, memory: &MemoryStack) -> (r: Result<u8, MemoryError>)
        ensures
            *final(self) == (Registers { stack_pointer: sp_after_pull(old(self).stack_pointer), ..*old(self) }),
            r == Ok::<u8, MemoryError>(
                memory.contents()[STACK_BASE_ADDR + sp_after_pull(old(self).stack_pointer)],
            ),
    {
        proof {
            lemma_memory_size(memory);
        }
        self.stack_pointer = if self.stack_pointer == 0xff { 0 } else { self.stack_pointer + 1 };
        let bytes = memory.read(STACK_BASE_ADDR + self.stack_pointer as usize, 1)?;
        Ok(bytes[0])
    }
}

/// Pulling right after pushing gives back the pushed byte and the stack
/// pointer as it was.
pub proof fn law_pull_returns_pushed(sp: u8, memory: Seq<u8>, byte: u8)
    requires
        memory.len() == 0x10000,
    ensures
        sp_after_pull(sp_after_push(sp)) == sp,
        memory.update(STACK_BASE_ADDR + sp, byte)[STACK_BASE_ADDR + sp_after_pull(sp_after_push(sp))] == byte,
{
}

} // verus!
