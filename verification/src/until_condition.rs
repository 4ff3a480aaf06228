//! Conditions on registers and memory, and register assignments, as used
//! by test scripts.
use crate::error::{AppError, AppResult};
use crate::memory::{AddressableIO, MemoryStack};
use crate::registers::Registers;
use crate::text::{dec_repr, hex_padded, hex2, hex4, push_dec, push_hex, push_hex2, push_str};
use vstd::prelude::*;

verus! {

/// A register a condition or an assignment refers to.
#[derive(Debug, Clone, Copy, PartialEq, Eq)]
pub enum RegisterSource {
    Accumulator,
    RegisterX,
    RegisterY,
    Status,
    StackPointer,
    CommandPointer,
    CycleCount,
}

/// Where a value in a condition comes from.
#[derive(Debug, Clone, Copy, PartialEq, Eq)]
pub enum Source {
    Register(RegisterSource),
    Memory(usize),
    Value(usize),
}

/// A condition on the machine state.
#[derive(Debug)]
pub enum BooleanExpression {
    Equal(Source, Source),
    GreaterOrEqual(Source, Source),
    StrictlyGreater(Source, Source),
    LesserOrEqual(Source, Source),
    StrictlyLesser(Source, Source),
    Different(Source, Source),
    Value(bool),
    And(Box<BooleanExpression>, Box<BooleanExpression>),
    Or(Box<BooleanExpression>, Box<BooleanExpression>),
    Not(Box<BooleanExpression>),
    /// Memory starting at the (memory) source holds exactly these bytes.
    MemorySequence(Source, Vec<u8>),
}

/// Set a register from a source.
#[derive(Debug)]
pub struct Assignment {
    pub source: Source,
    pub destination: RegisterSource,
}

/// Value of a register, widened to `usize`.
pub open spec fn register_value(rs: RegisterSource, r: Registers) -> usize {
    match rs {
        RegisterSource::Accumulator => r.accumulator as usize,
        RegisterSource::RegisterX => r.register_x as usize,
        RegisterSource::RegisterY => r.register_y as usize,
        RegisterSource::Status => r.status_register as usize,
        RegisterSource::StackPointer => r.stack_pointer as usize,
        RegisterSource::CommandPointer => r.command_pointer,
        RegisterSource::CycleCount => r.cycle_count as usize,
    }
}

/// Whether reading a source stays inside memory.
pub open spec fn source_readable(s: Source, mem: Seq<u8>) -> bool {
    match s {
        Source::Memory(a) => a < mem.len(),
        _ => true,
    }
}

/// Value of a source.
pub open spec fn source_value(s: Source, r: Registers, mem: Seq<u8>) -> usize {
    match s {
        Source::Register(rs) => register_value(rs, r),
        Source::Memory(a) => mem[a as int] as usize,
        Source::Value(v) => v,
    }
}

/// Whether reading a source stays inside memory.
pub fn source_is_readable(s: &Source, memory: &MemoryStack) -> (b: bool)
    ensures
        b == source_readable(*s, memory.contents()),
{
    proof {
        crate::memory::lemma_memory_size(memory);
    }
    match s {
        Source::Memory(a) => *a < 0x10000,
        _ => true,
    }
}

/// Whether every comparison of a condition reads inside memory.
pub open spec fn expr_readable(e: BooleanExpression, mem: Seq<u8>) -> bool
    decreases e,
{
    match e {
        BooleanExpression::Equal(a, b) | BooleanExpression::GreaterOrEqual(a, b)
        | BooleanExpression::StrictlyGreater(a, b) | BooleanExpression::LesserOrEqual(a, b)
        | BooleanExpression::StrictlyLesser(a, b) | BooleanExpression::Different(a, b) => source_readable(a, mem)
            && source_readable(b, mem),
        BooleanExpression::Value(_) | BooleanExpression::MemorySequence(_, _) => true,
        BooleanExpression::And(x, y) | BooleanExpression::Or(x, y) => expr_readable(*x, mem)
            && expr_readable(*y, mem),
        BooleanExpression::Not(x) => expr_readable(*x, mem),
    }
}

/// Whether a condition holds.
pub open spec fn holds(e: BooleanExpression, r: Registers, mem: Seq<u8>) -> bool
    decreases e,
{
    match e {
        BooleanExpression::Equal(a, b) => source_value(a, r, mem) == source_value(b, r, mem),
        BooleanExpression::GreaterOrEqual(a, b) => source_value(a, r, mem) >= source_value(b, r, mem),
        BooleanExpression::StrictlyGreater(a, b) => source_value(a, r, mem) > source_value(b, r, mem),
        BooleanExpression::LesserOrEqual(a, b) => source_value(a, r, mem) <= source_value(b, r, mem),
        BooleanExpression::StrictlyLesser(a, b) => source_value(a, r, mem) < source_value(b, r, mem),
        BooleanExpression::Different(a, b) => source_value(a, r, mem) != source_value(b, r, mem),
        BooleanExpression::Value(v) => v,
        BooleanExpression::And(x, y) => holds(*x, r, mem) && holds(*y, r, mem),
        BooleanExpression::Or(x, y) => holds(*x, r, mem) || holds(*y, r, mem),
        BooleanExpression::Not(x) => !holds(*x, r, mem),
        BooleanExpression::MemorySequence(s, bytes) => match s {
            Source::Memory(a) => a + bytes@.len() <= mem.len() && mem.subrange(
                a as int,
                a + bytes@.len(),
            ) == bytes@,
            _ => false,
        },
    }
}

/// Name of a register as written in scripts.
pub open spec fn register_name(rs: RegisterSource) -> Seq<char> {
    match rs {
        RegisterSource::Accumulator => "A"@,
        RegisterSource::RegisterX => "X"@,
        RegisterSource::RegisterY => "Y"@,
        RegisterSource::Status => "S"@,
        RegisterSource::StackPointer => "SP"@,
        RegisterSource::CommandPointer => "CP"@,
        RegisterSource::CycleCount => "cycle_count"@,
    }
}

/// A source as written in scripts: `A`, `#0x1234`, `0x12`.
pub open spec fn source_text(s: Source) -> Seq<char> {
    match s {
        Source::Register(rs) => register_name(rs),
        Source::Memory(a) => "#0x"@ + hex4(a as nat),
        Source::Value(v) => "0x"@ + hex_padded(v as nat, 2, true),
    }
}

/// Bytes as `01,a2,f3`.
pub open spec fn bytes_csv(b: Seq<u8>) -> Seq<char>
    decreases b.len(),
{
    if b.len() == 0 {
        seq![]
    } else if b.len() == 1 {
        hex2(b[0])
    } else {
        bytes_csv(b.drop_last()) + ","@ + hex2(b.last())
    }
}

/// Bytes as Rust's `{:02x?}` shows a vector: `[01, a2, f3]`.
pub open spec fn bytes_debug(b: Seq<u8>) -> Seq<char>
    decreases b.len(),
{
    "["@ + bytes_list(b) + "]"@
}

/// Bytes separated by `, `.
pub open spec fn bytes_list(b: Seq<u8>) -> Seq<char>
    decreases b.len(),
{
    if b.len() == 0 {
        seq![]
    } else if b.len() == 1 {
        hex2(b[0])
    } else {
        bytes_list(b.drop_last()) + ", "@ + hex2(b.last())
    }
}

/// A condition as written in scripts.
pub open spec fn expr_text(e: BooleanExpression) -> Seq<char>
    decreases e,
{
    match e {
        BooleanExpression::Equal(a, b) => source_text(a) + " = "@ + source_text(b),
        BooleanExpression::GreaterOrEqual(a, b) => source_text(a) + " >= "@ + source_text(b),
        BooleanExpression::StrictlyGreater(a, b) => source_text(a) + " > "@ + source_text(b),
        BooleanExpression::LesserOrEqual(a, b) => source_text(a) + " <= "@ + source_text(b),
        BooleanExpression::StrictlyLesser(a, b) => source_text(a) + " < "@ + source_text(b),
        BooleanExpression::Different(a, b) => source_text(a) + " != "@ + source_text(b),
        BooleanExpression::Value(v) => if v {
            "true"@
        } else {
            "false"@
        },
        BooleanExpression::And(x, y) => expr_text(*x) + " AND "@ + expr_text(*y),
        BooleanExpression::Or(x, y) => "("@ + expr_text(*x) + " OR "@ + expr_text(*y) + ")"@,
        BooleanExpression::Not(x) => "NOT "@ + expr_text(*x),
        BooleanExpression::MemorySequence(s, bytes) => source_text(s) + " ~ 0x("@ + bytes_csv(bytes@)
            + ")"@,
    }
}

/// A value as `{:02x}` writes it, after `0x`.
pub open spec fn hx(v: usize) -> Seq<char> {
    "0x"@ + hex_padded(v as nat, 2, false)
}

/// Why a comparison failed: `(cond) 0x.. <what> 0x..`.
pub open spec fn comparison_failure(e: BooleanExpression, what: Seq<char>, l: usize, r: usize) -> Seq<char> {
    "("@ + expr_text(e) + ") "@ + hx(l) + what + hx(r)
}

/// The failure message of a condition that does not hold (`None` when it holds).
pub open spec fn failure_text(e: BooleanExpression, r: Registers, mem: Seq<u8>) -> Option<Seq<char>>
    decreases e,
{
    if holds(e, r, mem) {
        None
    } else {
        Some(
            match e {
                BooleanExpression::Equal(a, b) => "("@ + expr_text(e) + ")  "@ + hx(
                    source_value(a, r, mem),
                ) + " is not equal to "@ + hx(source_value(b, r, mem)),
                BooleanExpression::GreaterOrEqual(a, b) => comparison_failure(
                    e,
                    " is not greater than or equal to "@,
                    source_value(a, r, mem),
                    source_value(b, r, mem),
                ),
                BooleanExpression::StrictlyGreater(a, b) => comparison_failure(
                    e,
                    " is not strictly greater than "@,
                    source_value(a, r, mem),
                    source_value(b, r, mem),
                ),
                BooleanExpression::LesserOrEqual(a, b) => comparison_failure(
                    e,
                    " is not lesser than or equal to "@,
                    source_value(a, r, mem),
                    source_value(b, r, mem),
                ),
                BooleanExpression::StrictlyLesser(a, b) => comparison_failure(
                    e,
                    " is not strictly lesser than "@,
                    source_value(a, r, mem),
                    source_value(b, r, mem),
                ),
                BooleanExpression::Different(a, b) => comparison_failure(
                    e,
                    " is equal to "@,
                    source_value(a, r, mem),
                    source_value(b, r, mem),
                ),
                BooleanExpression::Value(_) => "("@ + expr_text(e) + ") is false"@,
                BooleanExpression::And(x, y) => if !holds(*x, r, mem) {
                    failure_text(*x, r, mem)->Some_0
                } else {
                    failure_text(*y, r, mem)->Some_0
                },
                BooleanExpression::Or(x, y) => "("@ + expr_text(e) + ") both conditions failed:\n  "@
                    + failure_text(*x, r, mem)->Some_0 + "\n  "@ + failure_text(*y, r, mem)->Some_0,
                BooleanExpression::Not(x) => "("@ + expr_text(e) + ") is false"@,
                BooleanExpression::MemorySequence(s, bytes) => match s {
                    Source::Memory(a) => if a + bytes@.len() <= mem.len() {
                        "("@ + expr_text(e) + ") Memory at #0x"@ + hex_padded(a as nat, 4, false)
                            + " contains "@ + bytes_debug(mem.subrange(a as int, a + bytes@.len()))
                            + " instead of expected "@ + bytes_debug(bytes@)
                    } else {
                        "("@ + expr_text(e) + ") Failed to read "@ + dec_repr(bytes@.len())
                            + " bytes from memory at #0x"@ + hex_padded(a as nat, 4, false)
                    },
                    _ => "("@ + expr_text(e) + ") Memory sequence comparison requires a memory address source, got "@
                        + source_text(s),
                },
            },
        )
    }
}

impl RegisterSource {
    /// Value of the register.
    pub fn get_value(&self, registers: &Registers) -> (v: usize)
        ensures
            v == register_value(*self, *registers),
    {
        match self {
            RegisterSource::Accumulator => registers.accumulator as usize,
            RegisterSource::RegisterX => registers.register_x as usize,
            RegisterSource::RegisterY => registers.register_y as usize,
            RegisterSource::Status => registers.get_status_register() as usize,
            RegisterSource::StackPointer => registers.stack_pointer as usize,
            RegisterSource::CommandPointer => registers.command_pointer,
            RegisterSource::CycleCount => registers.cycle_count as usize,
        }
    }

    /// Name of the register as written in scripts.
    pub fn to_string(&self) -> (s: String)
        ensures
            s@ == register_name(*self),
    {
        let mut s = String::new();
        let ghost e = s@;
        match self {
            RegisterSource::Accumulator => push_str(&mut s, "A"),
            RegisterSource::RegisterX => push_str(&mut s, "X"),
            RegisterSource::RegisterY => push_str(&mut s, "Y"),
            RegisterSource::Status => push_str(&mut s, "S"),
            RegisterSource::StackPointer => push_str(&mut s, "SP"),
            RegisterSource::CommandPointer => push_str(&mut s, "CP"),
            RegisterSource::CycleCount => push_str(&mut s, "cycle_count"),
        }
        assert(s@ =~= register_name(*self));
        s
    }
}

impl Source {
    /// Value of the source.
    pub fn get_value(&self, registers: &Registers, memory: &MemoryStack) -> (v: usize)
        requires
            source_readable(*self, memory.contents()),
        ensures
            v == source_value(*self, *registers, memory.contents()),
    {
        match self {
            Source::Register(register_source) => register_source.get_value(registers),
            Source::Memory(addr) => {
                match memory.read(*addr, 1) {
                    Ok(v) => v[0] as usize,
                    Err(_) => 0,
                }
            },
            Source::Value(data) => *data,
        }
    }

    /// The source as written in scripts.
    pub fn to_string(&self) -> (s: String)
        ensures
            s@ == source_text(*self),
    {
        match self {
            Source::Register(rs) => rs.to_string(),
            Source::Memory(a) => {
                let mut s = String::new();
                push_str(&mut s, "#0x");
                push_hex(&mut s, *a, 4, true);
                s
            },
            Source::Value(v) => {
                let mut s = String::new();
                push_str(&mut s, "0x");
                push_hex(&mut s, *v, 2, true);
                s
            },
        }
    }
}

fn push_bytes_csv(s: &mut String, b: &Vec<u8>)
    ensures
        final(s)@ == old(s)@ + bytes_csv(b@),
{
    let ghost start = s@;
    let mut i: usize = 0;
    while i < b.len()
        invariant
            i <= b@.len(),
            s@ == start + bytes_csv(b@.subrange(0, i as int)),
        decreases b@.len() - i,
    {
        if i > 0 {
            push_str(s, ",");
        }
        push_hex2(s, b[i]);
        i = i + 1;
        assert(b@.subrange(0, i as int).drop_last() =~= b@.subrange(0, i - 1));
    }
    assert(b@.subrange(0, b@.len() as int) =~= b@);
}

fn push_bytes_debug(s: &mut String, b: &Vec<u8>)
    ensures
        final(s)@ == old(s)@ + bytes_debug(b@),
{
    let ghost start = s@;
    push_str(s, "[");
    let mut i: usize = 0;
    while i < b.len()
        invariant
            i <= b@.len(),
            s@ == start + "["@ + bytes_list(b@.subrange(0, i as int)),
        decreases b@.len() - i,
    {
        if i > 0 {
            push_str(s, ", ");
        }
        push_hex2(s, b[i]);
        i = i + 1;
        assert(b@.subrange(0, i as int).drop_last() =~= b@.subrange(0, i - 1));
    }
    assert(b@.subrange(0, b@.len() as int) =~= b@);
    push_str(s, "]");
}

fn push_hx(s: &mut String, v: usize)
    ensures
        final(s)@ == old(s)@ + hx(v),
{
    push_str(s, "0x");
    push_hex(s, v, 2, false);
}

impl BooleanExpression {
    /// The condition as written in scripts.
    pub fn to_string(&self) -> (s: String)
        ensures
            s@ == expr_text(*self),
        decreases self,
    {
        let mut s = String::new();
        let ghost e = s@;
        match self {
            BooleanExpression::Equal(a, b) => {
                push_str(&mut s, a.to_string().as_str());
                push_str(&mut s, " = ");
                push_str(&mut s, b.to_string().as_str());
            },
            BooleanExpression::GreaterOrEqual(a, b) => {
                push_str(&mut s, a.to_string().as_str());
                push_str(&mut s, " >= ");
                push_str(&mut s, b.to_string().as_str());
            },
            BooleanExpression::StrictlyGreater(a, b) => {
                push_str(&mut s, a.to_string().as_str());
                push_str(&mut s, " > ");
                push_str(&mut s, b.to_string().as_str());
            },
            BooleanExpression::LesserOrEqual(a, b) => {
                push_str(&mut s, a.to_string().as_str());
                push_str(&mut s, " <= ");
                push_str(&mut s, b.to_string().as_str());
            },
            BooleanExpression::StrictlyLesser(a, b) => {
                push_str(&mut s, a.to_string().as_str());
                push_str(&mut s, " < ");
                push_str(&mut s, b.to_string().as_str());
            },
            BooleanExpression::Different(a, b) => {
                push_str(&mut s, a.to_string().as_str());
                push_str(&mut s, " != ");
                push_str(&mut s, b.to_string().as_str());
            },
            BooleanExpression::Value(v) => {
                if *v {
                    push_str(&mut s, "true");
                } else {
                    push_str(&mut s, "false");
                }
            },
            BooleanExpression::And(x, y) => {
                push_str(&mut s, x.to_string().as_str());
                push_str(&mut s, " AND ");
                push_str(&mut s, y.to_string().as_str());
            },
            BooleanExpression::Or(x, y) => {
                push_str(&mut s, "(");
                push_str(&mut s, x.to_string().as_str());
                push_str(&mut s, " OR ");
                push_str(&mut s, y.to_string().as_str());
                push_str(&mut s, ")");
            },
            BooleanExpression::Not(x) => {
                push_str(&mut s, "NOT ");
                push_str(&mut s, x.to_string().as_str());
            },
            BooleanExpression::MemorySequence(src, bytes) => {
                push_str(&mut s, src.to_string().as_str());
                push_str(&mut s, " ~ 0x(");
                push_bytes_csv(&mut s, bytes);
                push_str(&mut s, ")");
            },
        }
        assert(s@ =~= expr_text(*self));
        s
    }

    /// Whether the condition holds: `None` when it does, otherwise the
    /// message explaining why it does not.
    pub fn solve(&self, registers: &Registers, memory: &MemoryStack) -> (r: Option<String>)
        requires
            expr_readable(*self, memory.contents()),
        ensures
            r is None <==> holds(*self, *registers, memory.contents()),
            r matches Some(m) ==> failure_text(*self, *registers, memory.contents()) == Some(m@),
        decreases self,
    {
        let ghost mem = memory.contents();
        let ok: bool;
        match self {
            BooleanExpression::Equal(a, b) => {
                let l = a.get_value(registers, memory);
                let rv = b.get_value(registers, memory);
                if l != rv {
                    let mut s = String::new();
                    push_str(&mut s, "(");
                    push_str(&mut s, self.to_string().as_str());
                    push_str(&mut s, ")  ");
                    push_hx(&mut s, l);
                    push_str(&mut s, " is not equal to ");
                    push_hx(&mut s, rv);
                    return Some(s);
                }
                None
            },
            BooleanExpression::GreaterOrEqual(a, b) => {
                let l = a.get_value(registers, memory);
                let rv = b.get_value(registers, memory);
                if l < rv {
                    Some(self.comparison_message(" is not greater than or equal to ", l, rv))
                } else {
                    None
                }
            },
            BooleanExpression::StrictlyGreater(a, b) => {
                let l = a.get_value(registers, memory);
                let rv = b.get_value(registers, memory);
                if l <= rv {
                    Some(self.comparison_message(" is not strictly greater than ", l, rv))
                } else {
                    None
                }
            },
            BooleanExpression::LesserOrEqual(a, b) => {
                let l = a.get_value(registers, memory);
                let rv = b.get_value(registers, memory);
                if l > rv {
                    Some(self.comparison_message(" is not lesser than or equal to ", l, rv))
                } else {
                    None
                }
            },
            BooleanExpression::StrictlyLesser(a, b) => {
                let l = a.get_value(registers, memory);
                let rv = b.get_value(registers, memory);
                if l >= rv {
                    Some(self.comparison_message(" is not strictly lesser than ", l, rv))
                } else {
                    None
                }
            },
            BooleanExpression::Different(a, b) => {
                let l = a.get_value(registers, memory);
                let rv = b.get_value(registers, memory);
                if l == rv {
                    Some(self.comparison_message(" is equal to ", l, rv))
                } else {
                    None
                }
            },
            BooleanExpression::Value(v) => {
                if !*v {
                    let mut s = String::new();
                    push_str(&mut s, "(");
                    push_str(&mut s, self.to_string().as_str());
                    push_str(&mut s, ") is false");
                    Some(s)
                } else {
                    None
                }
            },
            BooleanExpression::And(x, y) => {
                match x.solve(registers, memory) {
                    Some(m) => Some(m),
                    None => y.solve(registers, memory),
                }
            },
            BooleanExpression::Or(x, y) => {
                match x.solve(registers, memory) {
                    Some(m1) => match y.solve(registers, memory) {
                        Some(m2) => {
                            let mut s = String::new();
                            push_str(&mut s, "(");
                            push_str(&mut s, self.to_string().as_str());
                            push_str(&mut s, ") both conditions failed:\n  ");
                            push_str(&mut s, m1.as_str());
                            push_str(&mut s, "\n  ");
                            push_str(&mut s, m2.as_str());
                            Some(s)
                        },
                        None => None,
                    },
                    None => None,
                }
            },
            BooleanExpression::Not(x) => {
                match x.solve(registers, memory) {
                    Some(_) => None,
                    None => {
                        let mut s = String::new();
                        push_str(&mut s, "(");
                        push_str(&mut s, self.to_string().as_str());
                        push_str(&mut s, ") is false");
                        Some(s)
                    },
                }
            },
            BooleanExpression::MemorySequence(src, expected) => {
                match src {
                    Source::Memory(addr) => {
                        match memory.read(*addr, expected.len()) {
                            Ok(actual) => {
                                if bytes_equal(&actual, expected) {
                                    None
                                } else {
                                    let mut s = String::new();
                                    push_str(&mut s, "(");
                                    push_str(&mut s, self.to_string().as_str());
                                    push_str(&mut s, ") Memory at #0x");
                                    push_hex(&mut s, *addr, 4, false);
                                    push_str(&mut s, " contains ");
                                    push_bytes_debug(&mut s, &actual);
                                    push_str(&mut s, " instead of expected ");
                                    push_bytes_debug(&mut s, expected);
                                    Some(s)
                                }
                            },
                            Err(_) => {
                                let mut s = String::new();
                                push_str(&mut s, "(");
                                push_str(&mut s, self.to_string().as_str());
                                push_str(&mut s, ") Failed to read ");
                                push_dec(&mut s, expected.len() as u128);
                                push_str(&mut s, " bytes from memory at #0x");
                                push_hex(&mut s, *addr, 4, false);
                                Some(s)
                            },
                        }
                    },
                    _ => {
                        let mut s = String::new();
                        push_str(&mut s, "(");
                        push_str(&mut s, self.to_string().as_str());
                        push_str(&mut s, ") Memory sequence comparison requires a memory address source, got ");
                        push_str(&mut s, src.to_string().as_str());
                        Some(s)
                    },
                }
            },
        }
    }

    fn comparison_message(&self, what: &str, l: usize, r: usize) -> (s: String)
        ensures
            s@ == comparison_failure(*self, what@, l, r),
    {
        let mut s = String::new();
        push_str(&mut s, "(");
        push_str(&mut s, self.to_string().as_str());
        push_str(&mut s, ") ");
        push_hx(&mut s, l);
        push_str(&mut s, what);
        push_hx(&mut s, r);
        s
    }
}

/// Whether two byte vectors are equal.
pub fn bytes_equal(a: &Vec<u8>, b: &Vec<u8>) -> (r: bool)
    ensures
        r == (a@ == b@),
{
    if a.len() != b.len() {
        return false;
    }
    let mut i: usize = 0;
    while i < a.len()
        invariant
            i <= a@.len(),
            a@.len() == b@.len(),
            forall|k: int| 0 <= k < i ==> a@[k] == b@[k],
        decreases a@.len() - i,
    {
        if a[i] != b[i] {
            return false;
        }
        i = i + 1;
    }
    assert(a@ =~= b@);
    true
}

/// Text of a completed assignment.
pub open spec fn assignment_text(destination: RegisterSource, v: usize) -> Seq<char> {
    match destination {
        RegisterSource::Accumulator => "register A set to "@ + hx(v),
        RegisterSource::RegisterX => "register X set to "@ + hx(v),
        RegisterSource::RegisterY => "register Y set to "@ + hx(v),
        RegisterSource::Status => "register S set to "@ + hx(v),
        RegisterSource::StackPointer => "register SP set to "@ + hx(v),
        RegisterSource::CommandPointer => "register CP set to #0x"@ + hex_padded(v as nat, 4, false),
        RegisterSource::CycleCount => "cycle_count set to "@ + dec_repr(v as nat),
    }
}

/// Whether the destination is an 8 bit register.
pub open spec fn is_byte_register(rs: RegisterSource) -> bool {
    match rs {
        RegisterSource::Accumulator | RegisterSource::RegisterX | RegisterSource::RegisterY
        | RegisterSource::Status | RegisterSource::StackPointer => true,
        _ => false,
    }
}

/// Registers with `destination` set to `v`.
pub open spec fn assigned(r: Registers, destination: RegisterSource, v: usize) -> Registers {
    match destination {
        RegisterSource::Accumulator => Registers { accumulator: v as u8, ..r },
        RegisterSource::RegisterX => Registers { register_x: v as u8, ..r },
        RegisterSource::RegisterY => Registers { register_y: v as u8, ..r },
        RegisterSource::Status => Registers { status_register: v as u8, ..r },
        RegisterSource::StackPointer => Registers { stack_pointer: v as u8, ..r },
        RegisterSource::CommandPointer => Registers { command_pointer: v, ..r },
        RegisterSource::CycleCount => Registers { cycle_count: v as u64, ..r },
    }
}

/// The message for a value that does not fit in an 8 bit register.
pub open spec fn too_wide_text(v: nat) -> Seq<char> {
    "Value "@ + dec_repr(v) + " cannot fit in 8 bits destination."@
}

impl Assignment {
    /// Assign `source` to `destination`.
    pub fn new(source: Source, destination: RegisterSource) -> (a: Assignment)
        ensures
            a.source == source,
            a.destination == destination,
    {
        Assignment { source, destination }
    }

    /// Set the destination register from the source. A value over 255 for an
    /// 8 bit register is an error and changes nothing.
    pub fn execute(&self, registers: &mut Registers, memory: &MemoryStack) -> (r: AppResult<Vec<String>>)
        requires
            source_readable(self.source, memory.contents()),
        ensures
            ({
                let v = source_value(self.source, *old(registers), memory.contents());
                if is_byte_register(self.destination) && v > 255 {
                    r matches Err(e) && e.message@ == too_wide_text(v as nat) && *final(registers) == *old(registers)
                } else {
                    r matches Ok(lines) && lines@.len() == 1 && lines@[0]@ == assignment_text(
                        self.destination,
                        v,
                    ) && *final(registers) == assigned(*old(registers), self.destination, v)
                }
            }),
    {
        let val = self.source.get_value(registers, memory);
        let mut s = String::new();
        match self.destination {
            RegisterSource::Accumulator => {
                let v = Self::to_u8(val)?;
                registers.accumulator = v;
                push_str(&mut s, "register A set to ");
                push_hx(&mut s, val);
            },
            RegisterSource::RegisterX => {
                let v = Self::to_u8(val)?;
                registers.register_x = v;
                push_str(&mut s, "register X set to ");
                push_hx(&mut s, val);
            },
            RegisterSource::RegisterY => {
                let v = Self::to_u8(val)?;
                registers.register_y = v;
                push_str(&mut s, "register Y set to ");
                push_hx(&mut s, val);
            },
            RegisterSource::Status => {
                let v = Self::to_u8(val)?;
                registers.set_status_register(v);
                push_str(&mut s, "register S set to ");
                push_hx(&mut s, val);
            },
            RegisterSource::StackPointer => {
                let v = Self::to_u8(val)?;
                registers.stack_pointer = v;
                push_str(&mut s, "register SP set to ");
                push_hx(&mut s, val);
            },
            RegisterSource::CommandPointer => {
                registers.command_pointer = val;
                push_str(&mut s, "register CP set to #0x");
                push_hex(&mut s, val, 4, false);
            },
            RegisterSource::CycleCount => {
                registers.cycle_count = val as u64;
                push_str(&mut s, "cycle_count set to ");
                push_dec(&mut s, val as u128);
            },
        }
        let mut lines = Vec::new();
        lines.push(s);
        Ok(lines)
    }

    /// The value as a byte; an error when it is over 255.
    pub fn to_u8(val: usize) -> (r: AppResult<u8>)
        ensures
            r matches Ok(b) ==> val <= 255 && b == val,
            r is Err <==> val > 255,
            r matches Err(e) ==> e.message@ == too_wide_text(val as nat),
    {
        if val > 255 {
            let mut s = String::new();
            push_str(&mut s, "Value ");
            push_dec(&mut s, val as u128);
            push_str(&mut s, " cannot fit in 8 bits destination.");
            Err(AppError::new(s))
        } else {
            Ok(val as u8)
        }
    }
}

impl BooleanExpression {
    /// Whether every comparison of the condition reads inside memory.
    pub fn is_readable(&self, memory: &MemoryStack) -> (b: bool)
        ensures
            b == expr_readable(*self, memory.contents()),
        decreases self,
    {
        match self {
            BooleanExpression::Equal(a, b) | BooleanExpression::GreaterOrEqual(a, b)
            | BooleanExpression::StrictlyGreater(a, b) | BooleanExpression::LesserOrEqual(a, b)
            | BooleanExpression::StrictlyLesser(a, b) | BooleanExpression::Different(a, b) => source_is_readable(a, memory)
                && source_is_readable(b, memory),
            BooleanExpression::Value(_) | BooleanExpression::MemorySequence(_, _) => true,
            BooleanExpression::And(x, y) | BooleanExpression::Or(x, y) => x.is_readable(memory)
                && y.is_readable(memory),
            BooleanExpression::Not(x) => x.is_readable(memory),
        }
    }
}

/// Comparing a source with itself: equal, at least and at most hold;
/// strictly greater, strictly lesser and different do not.
pub proof fn law_comparison_with_itself(a: Source, r: Registers, mem: Seq<u8>)
    ensures
        holds(BooleanExpression::Equal(a, a), r, mem),
        holds(BooleanExpression::GreaterOrEqual(a, a), r, mem),
        holds(BooleanExpression::LesserOrEqual(a, a), r, mem),
        !holds(BooleanExpression::StrictlyGreater(a, a), r, mem),
        !holds(BooleanExpression::StrictlyLesser(a, a), r, mem),
        !holds(BooleanExpression::Different(a, a), r, mem),
{
}

/// The comparisons agree with one another: "at least" is "strictly
/// greater or equal", "at most" is "strictly lesser or equal", swapping
/// the sides turns each into its mirror, each non-strict comparison fails
/// exactly when the opposite strict one holds, "different" is "not equal",
/// and exactly one of "strictly lesser", "equal" and "strictly greater"
/// holds.
pub proof fn law_comparisons_agree(a: Source, b: Source, r: Registers, mem: Seq<u8>)
    ensures
        holds(BooleanExpression::GreaterOrEqual(a, b), r, mem) == (holds(BooleanExpression::StrictlyGreater(a, b), r, mem)
            || holds(BooleanExpression::Equal(a, b), r, mem)),
        holds(BooleanExpression::LesserOrEqual(a, b), r, mem) == (holds(BooleanExpression::StrictlyLesser(a, b), r, mem)
            || holds(BooleanExpression::Equal(a, b), r, mem)),
        holds(BooleanExpression::GreaterOrEqual(a, b), r, mem) == holds(BooleanExpression::LesserOrEqual(b, a), r, mem),
        holds(BooleanExpression::StrictlyGreater(a, b), r, mem) == holds(BooleanExpression::StrictlyLesser(b, a), r, mem),
        holds(BooleanExpression::Equal(a, b), r, mem) == holds(BooleanExpression::Equal(b, a), r, mem),
        holds(BooleanExpression::GreaterOrEqual(a, b), r, mem) == !holds(BooleanExpression::StrictlyLesser(a, b), r, mem),
        holds(BooleanExpression::LesserOrEqual(a, b), r, mem) == !holds(BooleanExpression::StrictlyGreater(a, b), r, mem),
        holds(BooleanExpression::Different(a, b), r, mem) == !holds(BooleanExpression::Equal(a, b), r, mem),
        holds(BooleanExpression::StrictlyLesser(a, b), r, mem) || holds(BooleanExpression::Equal(a, b), r, mem)
            || holds(BooleanExpression::StrictlyGreater(a, b), r, mem),
        !(holds(BooleanExpression::StrictlyLesser(a, b), r, mem) && holds(BooleanExpression::Equal(a, b), r, mem)),
        !(holds(BooleanExpression::StrictlyGreater(a, b), r, mem) && holds(BooleanExpression::Equal(a, b), r, mem)),
        !(holds(BooleanExpression::StrictlyLesser(a, b), r, mem) && holds(BooleanExpression::StrictlyGreater(a, b), r, mem)),
{
}

/// Two plain numbers are compared as integers.
pub proof fn law_numbers_compare_as_integers(x: usize, y: usize, r: Registers, mem: Seq<u8>)
    ensures
        holds(BooleanExpression::Equal(Source::Value(x), Source::Value(y)), r, mem) == (x == y),
        holds(BooleanExpression::GreaterOrEqual(Source::Value(x), Source::Value(y)), r, mem) == (x >= y),
        holds(BooleanExpression::StrictlyGreater(Source::Value(x), Source::Value(y)), r, mem) == (x > y),
        holds(BooleanExpression::LesserOrEqual(Source::Value(x), Source::Value(y)), r, mem) == (x <= y),
        holds(BooleanExpression::StrictlyLesser(Source::Value(x), Source::Value(y)), r, mem) == (x < y),
        holds(BooleanExpression::Different(Source::Value(x), Source::Value(y)), r, mem) == (x != y),
{
}

/// A register compared with a plain number is compared by its value.
pub proof fn law_register_compares_by_value(rs: RegisterSource, v: usize, r: Registers, mem: Seq<u8>)
    ensures
        holds(BooleanExpression::GreaterOrEqual(Source::Register(rs), Source::Value(v)), r, mem) == (register_value(rs, r) >= v),
        holds(BooleanExpression::Equal(Source::Register(rs), Source::Value(v)), r, mem) == (register_value(rs, r) == v),
        holds(BooleanExpression::StrictlyGreater(Source::Register(rs), Source::Value(v)), r, mem) == (register_value(rs, r) > v),
{
}

/// The connectives behave as in logic: a negation holds exactly when its
/// operand does not, a conjunction when both hold, a disjunction when one
/// does; De Morgan's laws hold.
pub proof fn law_connectives(x: BooleanExpression, y: BooleanExpression, r: Registers, mem: Seq<u8>)
    ensures
        holds(BooleanExpression::Not(Box::new(x)), r, mem) != holds(x, r, mem),
        holds(BooleanExpression::And(Box::new(x), Box::new(y)), r, mem) ==> holds(x, r, mem) && holds(y, r, mem),
        holds(x, r, mem) && holds(y, r, mem) ==> holds(BooleanExpression::And(Box::new(x), Box::new(y)), r, mem),
        holds(BooleanExpression::Or(Box::new(x), Box::new(y)), r, mem) == (holds(x, r, mem) || holds(y, r, mem)),
        holds(BooleanExpression::Not(Box::new(BooleanExpression::And(Box::new(x), Box::new(y)))), r, mem) == holds(
            BooleanExpression::Or(
                Box::new(BooleanExpression::Not(Box::new(x))),
                Box::new(BooleanExpression::Not(Box::new(y))),
            ),
            r,
            mem,
        ),
        holds(BooleanExpression::Value(true), r, mem),
        !holds(BooleanExpression::Value(false), r, mem),
{
    let nx = BooleanExpression::Not(Box::new(x));
    let ny = BooleanExpression::Not(Box::new(y));
    let a = BooleanExpression::And(Box::new(x), Box::new(y));
    assert(holds(nx, r, mem) == !holds(x, r, mem));
    assert(holds(ny, r, mem) == !holds(y, r, mem));
    assert(holds(a, r, mem) == (holds(x, r, mem) && holds(y, r, mem)));
    assert(holds(BooleanExpression::Not(Box::new(a)), r, mem) == !holds(a, r, mem));
    assert(holds(BooleanExpression::Or(Box::new(nx), Box::new(ny)), r, mem) == (holds(nx, r, mem) || holds(ny, r, mem)));
}

} // verus!
