//! The commands of a test script and what running each of them does to the
//! registers, the memory and the symbol table.
use crate::apple_single::{apple_parse, data_segments, AppleSingle};
use crate::atari_binary::{atari_parse, segment_of, segment_view, AtariBinary};
use crate::cpu_instruction::{CPUInstruction, LogLine, INIT_VECTOR_ADDR};
use crate::disassembler::{decoded_range, line_texts as listing_texts, listing, table_view, Disassembler};

use crate::error::{AppError, AppResult};
use crate::memory::{lemma_memory_size, splice, AddressableIO, MemoryError, MemoryStack};
use crate::processing_unit::{disassembly, execute_step, stepped, CPUError};
use crate::registers::{reset_registers, Registers};
use crate::symbols::{lines_of, with_labels, with_symbol, without, SymbolEntry, SymbolTable};
use crate::text::{dec_repr, hex_padded, hex2, hex4, push_dec, push_hex, push_hex2, push_hex4, push_str, string_of};
use crate::until_condition::{
    assigned, assignment_text, expr_readable, holds, hx, is_byte_register, register_name, register_value,
    source_is_readable, source_readable, source_value, Assignment, BooleanExpression, RegisterSource, Source,
};
use vstd::prelude::*;

verus! {

/// What running a command reports.
#[derive(Debug)]
pub enum OutputToken {
    /// An assertion: `failure` is `None` when it holds, else why it does not.
    Assertion { failure: Option<String>, description: String },
    /// The start of a new test plan.
    Marker { description: String },
    /// Nothing to report.
    Nothing,
    /// A run of the processor that ended normally.
    Run { loglines: Vec<LogLine>, symbols: Option<SymbolTable> },
    /// A `while` run cut short: the program looped on one instruction
    /// while the condition still held.
    TerminatedRun { loglines: Vec<LogLine>, symbols: Option<SymbolTable> },
    /// Messages of a set-up command.
    Setup(Vec<String>),
}

/// A block of bytes to be put in memory at an address.
#[derive(Debug)]
pub struct MemorySegment {
    pub address: usize,
    pub data: Vec<u8>,
}

/// Where a run starts.
#[derive(Debug, Clone, Copy, PartialEq, Eq)]
pub enum RunAddress {
    /// At the address held by the reset vector.
    InitVector,
    /// At this address.
    Memory(usize),
}

/// Features of the tester that a script switches on and off.
#[derive(Debug, Clone, Copy, PartialEq, Eq)]
pub enum ControllableFunction {
    TraceLogging,
}

/// A command of a test script.
#[derive(Debug)]
pub enum CliCommand {
    Assert(AssertCommand),
    Marker(String),
    Memory(MemoryCommand),
    /// An empty line or a comment.
    Nothing,
    Registers(RegisterCommand),
    Run(RunCommand),
    /// Show the instructions from `start` to `end` (both included).
    Disassemble { start: usize, end: usize },
    Enable(ControllableFunction),
    Disable(ControllableFunction),
}

/// Check a condition on the machine state.
#[derive(Debug)]
pub struct AssertCommand {
    pub condition: BooleanExpression,
    pub comment: String,
}

/// Run the processor until `stop_condition` holds after an instruction,
/// or while `continue_condition` holds before one.
#[derive(Debug)]
pub struct RunCommand {
    pub stop_condition: BooleanExpression,
    pub continue_condition: BooleanExpression,
    pub start_address: Option<RunAddress>,
}

/// Commands on registers.
#[derive(Debug)]
pub enum RegisterCommand {
    /// Reset all registers, the command pointer to zero.
    Flush,
    /// Set one register.
    Assign { assignment: Assignment },
    /// Show one register, or all of them.
    Show { register: Option<RegisterSource> },
}

/// Where a program image comes from.
#[derive(Debug, Clone, Copy, PartialEq, Eq)]
pub enum LoadTarget {
    /// An Atari binary (XEX) file.
    Atari,
    /// An AppleSingle file.
    Apple,
}

/// Commands on memory and on symbols.
#[derive(Debug)]
pub enum MemoryCommand {
    /// Replace the memory with a zeroed one.
    Flush,
    /// Put the bytes of a file at `address`.
    Load { address: usize, filepath: String },
    /// A program image still to be read from a file and split into segments.
    LoadTarget { target: LoadTarget, filepath: String },
    /// Put each segment in memory.
    LoadSegments { segments: Vec<MemorySegment> },
    /// Put `bytes` at `address`.
    Write { address: usize, bytes: Vec<u8> },
    /// A symbol file still to be read.
    LoadSymbolsFile { filepath: String },
    /// Replace the symbol table.
    LoadSymbols { symbols: SymbolTable },
    /// Give `name` the address `value`.
    AddSymbol { name: String, value: u16 },
    /// Forget `name`.
    RemoveSymbol { name: String },
    /// Set every byte from `start` to `end` (both included) to `value`.
    Fill { start: usize, end: usize, value: u8 },
    /// Show `length` bytes from `address`, `width` per line.
    Show { address: usize, length: usize, width: Option<usize>, description: Option<String> },
}

/// Something that runs against the registers, the memory and the symbols.
pub trait Command {
    /// Run the command. `load` reads a file by its path.
    fn execute<F: Fn(&str) -> Option<Vec<u8>>>(
        &self,
        registers: &mut Registers,
        memory: &mut MemoryStack,
        symbols: &mut Option<SymbolTable>,
        load: &F,
    ) -> AppResult<OutputToken>
        requires
            forall|p: &str| #[trigger] load.requires((p,)),
    ;
}

/// The error raised for a condition that would read outside memory.
fn unreadable_condition() -> (e: AppError)
    ensures
        e.message@ == "the condition reads outside of memory"@,
{
    let mut s = String::new();
    push_str(&mut s, "the condition reads outside of memory");
    AppError::new(s)
}

/// The message of a failed step of the processor.
pub open spec fn cpu_failure_text(e: CPUError) -> Seq<char> {
    match e {
        CPUError::MemoryError(MemoryError::ReadOverflow(_, addr)) => "memory read overflow at #0x"@ + hex_padded(
            addr as nat,
            4,
            true,
        ),
        CPUError::MemoryError(MemoryError::WriteOverflow(_, addr)) => "memory write overflow at #0x"@ + hex_padded(
            addr as nat,
            4,
            true,
        ),
        CPUError::MemoryError(MemoryError::Other(addr, _)) => "memory error at #0x"@ + hex_padded(addr as nat, 4, true),
        CPUError::MicrocodeError(_) => "instruction failed to execute"@,
        CPUError::UnsupportedOpcode(op, addr) => "unsupported opcode 0x"@ + hex_padded(op as nat, 2, false)
            + " at #0x"@ + hex_padded(addr as nat, 4, true),
    }
}

/// The error raised for a failed step of the processor.
fn cpu_failure(e: CPUError) -> (r: AppError)
    ensures
        r.message@ == cpu_failure_text(e),
{
    let mut s = String::new();
    match e {
        CPUError::MemoryError(MemoryError::ReadOverflow(len, addr)) => {
            push_str(&mut s, "memory read overflow at #0x");
            push_hex(&mut s, addr, 4, true);
        },
        CPUError::MemoryError(MemoryError::WriteOverflow(len, addr)) => {
            push_str(&mut s, "memory write overflow at #0x");
            push_hex(&mut s, addr, 4, true);
        },
        CPUError::MemoryError(MemoryError::Other(addr, _)) => {
            push_str(&mut s, "memory error at #0x");
            push_hex(&mut s, addr, 4, true);
        },
        CPUError::MicrocodeError(_) => {
            push_str(&mut s, "instruction failed to execute");
        },
        CPUError::UnsupportedOpcode(op, addr) => {
            push_str(&mut s, "unsupported opcode 0x");
            push_hex(&mut s, op as usize, 2, false);
            push_str(&mut s, " at #0x");
            push_hex(&mut s, addr, 4, true);
        },
    }
    AppError::new(s)
}

/// A one-line message as a vector of lines.
fn one_line(s: String) -> (v: Vec<String>)
    ensures
        v@.len() == 1,
        v@[0]@ == s@,
{
    let mut v = Vec::new();
    v.push(s);
    v
}

/// What checking an assertion gives, in state `r0`, `m0`: an error when
/// the condition reads outside of memory, else whether it holds, with the
/// comment.
pub open spec fn assert_outcome(cmd: AssertCommand, r0: Registers, m0: Seq<u8>, r: AppResult<OutputToken>) -> bool {
    &&& expr_readable(cmd.condition, m0) <==> r is Ok
    &&& r matches Ok(t) ==> (t matches OutputToken::Assertion { failure, description } && description@
        == cmd.comment@ && (failure is None <==> holds(cmd.condition, r0, m0)))
}

impl Command for AssertCommand {
    /// Check the condition: the token says whether it holds and, if not,
    /// why. A condition that reads outside of memory is an error.
    fn execute<F: Fn(&str) -> Option<Vec<u8>>>(
        &self,
        registers: &mut Registers,
        memory: &mut MemoryStack,
        symbols: &mut Option<SymbolTable>,
        load: &F,
    ) -> (r: AppResult<OutputToken>)
        ensures
            *final(registers) == *old(registers),
            final(memory).contents() == old(memory).contents(),
            *final(symbols) == *old(symbols),
            assert_outcome(*self, *old(registers), old(memory).contents(), r),
    {
        if !self.condition.is_readable(memory) {
            return Err(unreadable_condition());
        }
        Ok(
            OutputToken::Assertion {
                failure: self.condition.solve(registers, memory),
                description: self.comment.clone(),
            },
        )
    }
}

/// The registers once the start address of a run is applied.
pub open spec fn run_start(start: Option<RunAddress>, r: Registers, mem: Seq<u8>) -> Registers {
    match start {
        None => r,
        Some(RunAddress::Memory(a)) => Registers { command_pointer: a, ..r },
        Some(RunAddress::InitVector) => Registers {
            command_pointer: (mem[INIT_VECTOR_ADDR as int] as nat + 256 * mem[INIT_VECTOR_ADDR + 1] as nat) as usize,
            ..r
        },
    }
}

/// A machine state: registers and memory contents.
pub type MachineState = (Registers, Seq<u8>);

/// Instruction `i` of a run: before it the `while` condition could be read
/// and held, and executing it led from state `i` to state `i + 1`.
pub open spec fn run_step(cont: BooleanExpression, states: Seq<MachineState>, logs: Seq<LogLine>, i: int) -> bool {
    &&& expr_readable(cont, states[i].1)
    &&& holds(cont, states[i].0, states[i].1)
    &&& stepped(states[i].0, states[i].1, states[i + 1].0, states[i + 1].1, Ok(logs[i]))
}

/// State `i` of a run was reached by moving the command pointer, and the
/// `until` condition could be read there and did not hold.
pub open spec fn run_goes_on(stop: BooleanExpression, states: Seq<MachineState>, i: int) -> bool {
    &&& states[i].0.command_pointer != states[i - 1].0.command_pointer
    &&& expr_readable(stop, states[i].1)
    &&& !holds(stop, states[i].0, states[i].1)
}

/// `states[0]`, `states[1]`, … are the successive states of a run and
/// `logs` the instructions executed between them: before each instruction
/// the `while` condition held, and each instruction but the last moved the
/// command pointer and did not make the `until` condition hold.
pub open spec fn run_trace(
    cont: BooleanExpression,
    stop: BooleanExpression,
    states: Seq<MachineState>,
    logs: Seq<LogLine>,
) -> bool {
    &&& states.len() == logs.len() + 1
    &&& forall|i: int| 0 <= i < logs.len() ==> #[trigger] run_step(cont, states, logs, i)
    &&& forall|i: int| 1 <= i < logs.len() ==> #[trigger] run_goes_on(stop, states, i)
}

/// How a run ended after the trace `states`/`logs`: `Some(true)` when cut
/// short, `Some(false)` when it ended normally.
pub open spec fn run_end(
    cont: BooleanExpression,
    stop: BooleanExpression,
    states: Seq<MachineState>,
    logs: Seq<LogLine>,
) -> Option<bool> {
    let n = logs.len() as int;
    let last = states[n];
    if n > 0 && last.0.command_pointer == states[n - 1].0.command_pointer {
        Some(!(cont matches BooleanExpression::Value(true)))
    } else if n > 0 && !expr_readable(stop, last.1) {
        None
    } else if n > 0 && holds(stop, last.0, last.1) {
        Some(false)
    } else if !expr_readable(cont, last.1) {
        None
    } else if !holds(cont, last.0, last.1) {
        Some(false)
    } else {
        None
    }
}

/// What a run does from registers `r0` and memory `m0` (symbols `s0`)
/// to `r1`, `m1`, with result `r`: there is a trace of its states and
/// instructions, from the start state to the final one, and the result
/// tells how it ended (an error when it could not go on).
pub open spec fn run_outcome(
    cmd: RunCommand,
    r0: Registers,
    m0: Seq<u8>,
    s0: Option<SymbolTable>,
    r1: Registers,
    m1: Seq<u8>,
    r: AppResult<OutputToken>,
) -> bool {
    exists|states: Seq<MachineState>, logs: Seq<LogLine>|
        {
            &&& states.len() > 0
            &&& #[trigger] run_trace(cmd.continue_condition, cmd.stop_condition, states, logs)
            &&& states[0] == (
                run_start(cmd.start_address, r0, m0),
                m0,
            )
            &&& r1 == states.last().0
            &&& m1 == states.last().1
            &&& match r {
                Ok(OutputToken::Run { loglines, symbols: s }) => run_end(
                    cmd.continue_condition,
                    cmd.stop_condition,
                    states,
                    logs,
                ) == Some(false) && loglines@ == logs && same_symbols(s, s0),
                Ok(OutputToken::TerminatedRun { loglines, symbols: s }) => run_end(
                    cmd.continue_condition,
                    cmd.stop_condition,
                    states,
                    logs,
                ) == Some(true) && loglines@ == logs && same_symbols(s, s0),
                Ok(_) => false,
                Err(_) => run_end(cmd.continue_condition, cmd.stop_condition, states, logs) is None,
            }
        }
}

impl Command for RunCommand {
    /// Run the processor from the start address: before each instruction
    /// the `while` condition must hold, else the run ends; after it, the run
    /// ends when the command pointer did not move (the program loops on
    /// itself; this cuts a `while` run short) or when the `until` condition
    /// holds. A condition reading outside of memory, or a failing
    /// instruction, is an error.
    fn execute<F: Fn(&str) -> Option<Vec<u8>>>(
        &self,
        registers: &mut Registers,
        memory: &mut MemoryStack,
        symbols: &mut Option<SymbolTable>,
        load: &F,
    ) -> (r: AppResult<OutputToken>)
        ensures
            *final(symbols) == *old(symbols),
            run_outcome(
                *self,
                *old(registers),
                old(memory).contents(),
                *old(symbols),
                *final(registers),
                final(memory).contents(),
                r,
            ),
    {
        proof {
            lemma_memory_size(memory);
        }
        match self.start_address {
            Some(RunAddress::Memory(a)) => {
                registers.command_pointer = a;
            },
            Some(RunAddress::InitVector) => {
                let bytes = match memory.read(INIT_VECTOR_ADDR, 2) {
                    Ok(b) => b,
                    Err(e) => return Err(cpu_failure(CPUError::MemoryError(e))),
                };
                registers.command_pointer = bytes[0] as usize + 256 * bytes[1] as usize;
            },
            None => {},
        }
        let ghost mut states: Seq<MachineState> = seq![(*registers, memory.contents())];
        let mut loglines: Vec<LogLine> = Vec::new();
        let mut budget: u64 = u64::MAX;
        let trivial = matches!(self.continue_condition, BooleanExpression::Value(true));
        loop
            invariant
                states.len() > 0,
                run_trace(self.continue_condition, self.stop_condition, states, loglines@),
                states[0] == (
                    run_start(self.start_address, *old(registers), old(memory).contents()),
                    old(memory).contents(),
                ),
                *registers == states.last().0,
                memory.contents() == states.last().1,
                memory.contents().len() == 0x10000,
                trivial == (self.continue_condition matches BooleanExpression::Value(true)),
                loglines@.len() > 0 ==> run_goes_on(self.stop_condition, states, loglines@.len() as int),
            decreases budget,
        {
            if !self.continue_condition.is_readable(memory) {
                return Err(unreadable_condition());
            }
            if self.continue_condition.solve(registers, memory).is_some() {
                assert(run_trace(self.continue_condition, self.stop_condition, states, loglines@));
                return Ok(OutputToken::Run { loglines, symbols: copy_symbols(symbols) });
            }
            if budget == 0 {
                let mut s = String::new();
                push_str(&mut s, "the run did not end");
                return Err(AppError::new(s));
            }
            budget = budget - 1;
            let cp = registers.command_pointer;
            let ghost before = states;
            let ghost r0 = *registers;
            let ghost m0 = memory.contents();
            assert(holds(self.continue_condition, r0, m0));
            let step = execute_step(registers, memory);
            assert(stepped(r0, m0, *registers, memory.contents(), step));
            let line = match step {
                Ok(l) => l,
                Err(e) => {
                    return Err(cpu_failure(e));
                },
            };
            proof {
                lemma_memory_size(memory);
            }
            let ghost gl = line;
            let ghost old_logs = loglines@;
            assert(step == Ok::<LogLine, CPUError>(gl));
            loglines.push(line);
            proof {
                states = states.push((*registers, memory.contents()));
                assert(loglines@.last() == gl);
                assert(before.last() == (r0, m0));
                assert(states.drop_last() == before);
                assert forall|i: int| 0 <= i < loglines@.len() implies #[trigger] run_step(
                    self.continue_condition,
                    states,
                    loglines@,
                    i,
                ) by {
                    if i < loglines@.len() - 1 {
                        assert(run_step(self.continue_condition, before, old_logs, i));
                        assert(states[i] == before[i]);
                        assert(states[i + 1] == before[i + 1]);
                        assert(loglines@[i] == old_logs[i]);
                    } else {
                        assert(states[i] == (r0, m0));
                        assert(states[i + 1] == (*registers, memory.contents()));
                    }
                }
                assert forall|i: int| 1 <= i < loglines@.len() implies #[trigger] run_goes_on(
                    self.stop_condition,
                    states,
                    i,
                ) by {
                    if i < loglines@.len() - 1 {
                        assert(run_goes_on(self.stop_condition, before, i));
                    }
                    assert(states[i] == before[i]);
                    assert(states[i - 1] == before[i - 1]);
                }
                assert(states.len() == loglines@.len() + 1);
                assert(run_trace(self.continue_condition, self.stop_condition, states, loglines@));
            }
            if registers.command_pointer == cp {
                if trivial {
                    return Ok(OutputToken::Run { loglines, symbols: copy_symbols(symbols) });
                } else {
                    return Ok(OutputToken::TerminatedRun { loglines, symbols: copy_symbols(symbols) });
                }
            }
            if !self.stop_condition.is_readable(memory) {
                return Err(unreadable_condition());
            }
            if self.stop_condition.solve(registers, memory).is_none() {
                return Ok(OutputToken::Run { loglines, symbols: copy_symbols(symbols) });
            }
        }
    }
}

/// Whether two optional symbol tables hold the same symbols.
pub open spec fn same_symbols(a: Option<SymbolTable>, b: Option<SymbolTable>) -> bool {
    match (a, b) {
        (Some(x), Some(y)) => x@ == y@,
        (None, None) => true,
        _ => false,
    }
}

/// A copy of the symbol table, if there is one.
pub fn copy_symbols(symbols: &Option<SymbolTable>) -> (r: Option<SymbolTable>)
    ensures
        same_symbols(r, *symbols),
{
    match symbols {
        Some(t) => Some(t.copy()),
        None => None,
    }
}

/// How a register is shown: its name, ` = `, and its value.
pub open spec fn register_report(rs: RegisterSource, r: Registers) -> Seq<char> {
    let v = register_value(rs, r);
    register_name(rs) + " = "@ + match rs {
        RegisterSource::CommandPointer => "#0x"@ + hex_padded(v as nat, 4, true),
        RegisterSource::CycleCount => dec_repr(v as nat),
        _ => hx(v),
    }
}

/// The registers shown for `Show { register: None }`, in order.
pub open spec fn all_registers() -> Seq<RegisterSource> {
    seq![
        RegisterSource::Accumulator,
        RegisterSource::RegisterX,
        RegisterSource::RegisterY,
        RegisterSource::Status,
        RegisterSource::StackPointer,
        RegisterSource::CommandPointer,
        RegisterSource::CycleCount,
    ]
}

/// The text of `lines`.
pub open spec fn line_views(lines: Seq<String>) -> Seq<Seq<char>> {
    lines.map_values(|l: String| l@)
}

/// Append the report of one register.
fn push_register(lines: &mut Vec<String>, rs: RegisterSource, r: &Registers)
    ensures
        line_views(final(lines)@) == line_views(old(lines)@).push(register_report(rs, *r)),
{
    let mut s = String::new();
    let ghost start = s@;
    match rs {
        RegisterSource::Accumulator => push_str(&mut s, "A"),
        RegisterSource::RegisterX => push_str(&mut s, "X"),
        RegisterSource::RegisterY => push_str(&mut s, "Y"),
        RegisterSource::Status => push_str(&mut s, "S"),
        RegisterSource::StackPointer => push_str(&mut s, "SP"),
        RegisterSource::CommandPointer => push_str(&mut s, "CP"),
        RegisterSource::CycleCount => push_str(&mut s, "cycle_count"),
    }
    push_str(&mut s, " = ");
    let v = Source::Register(rs).get_value(r, &MemoryStack::new_with_ram());
    match rs {
        RegisterSource::CommandPointer => {
            push_str(&mut s, "#0x");
            push_hex(&mut s, v, 4, true);
        },
        RegisterSource::CycleCount => {
            push_dec(&mut s, v as u128);
        },
        _ => {
            push_str(&mut s, "0x");
            push_hex(&mut s, v, 2, false);
        },
    }
    proof {
        reveal_strlit("A");
        reveal_strlit("X");
        reveal_strlit("Y");
        reveal_strlit("S");
        reveal_strlit("SP");
        reveal_strlit("CP");
        reveal_strlit("cycle_count");
        reveal_strlit(" = ");
        reveal_strlit("#0x");
        reveal_strlit("0x");
    }
    assert(s@ =~= register_report(rs, *r));
    let ghost before = line_views(lines@);
    lines.push(s);
    assert(line_views(lines@) =~= before.push(register_report(rs, *r)));
}

/// What a register command does from registers `r0` (memory `m0`) to
/// `r1`, with result `r`.
pub open spec fn register_outcome(cmd: RegisterCommand, r0: Registers, m0: Seq<u8>, r1: Registers, r: AppResult<OutputToken>) -> bool {
            match cmd {
        RegisterCommand::Flush => r1 == reset_registers(0) && (r matches Ok(
            OutputToken::Setup(lines),
        ) && line_views(lines@) == seq!["registers flushed"@]),
        RegisterCommand::Assign { assignment } => {
            let v = source_value(assignment.source, r0, m0);
            if !source_readable(assignment.source, m0) || (is_byte_register(
                assignment.destination,
            ) && v > 255) {
                r is Err && r1 == r0
            } else {
                r matches Ok(OutputToken::Setup(lines)) && line_views(lines@) == seq![
                    assignment_text(assignment.destination, v),
                ] && r1 == assigned(r0, assignment.destination, v)
            }
        },
        RegisterCommand::Show { register } => r1 == r0 && (r matches Ok(
            OutputToken::Setup(lines),
        ) && line_views(lines@) == match register {
            Some(rs) => seq![register_report(rs, r0)],
            None => all_registers().map_values(|rs: RegisterSource| register_report(rs, r0)),
        }),
    }
}

impl Command for RegisterCommand {
    /// `Flush` resets the registers with the command pointer at zero,
    /// `Assign` sets one register (a value read outside of memory, or too
    /// large for the register, is an error), `Show` reports registers.
    fn execute<F: Fn(&str) -> Option<Vec<u8>>>(
        &self,
        registers: &mut Registers,
        memory: &mut MemoryStack,
        symbols: &mut Option<SymbolTable>,
        load: &F,
    ) -> (r: AppResult<OutputToken>)
        ensures
            final(memory).contents() == old(memory).contents(),
            *final(symbols) == *old(symbols),
            register_outcome(*self, *old(registers), old(memory).contents(), *final(registers), r),
    {
        match self {
            RegisterCommand::Flush => {
                registers.initialize(0x0000);
                let mut s = String::new();
                push_str(&mut s, "registers flushed");
                proof {
                    reveal_strlit("registers flushed");
                }
                let lines = one_line(s);
                assert(line_views(lines@) =~= seq!["registers flushed"@]);
                Ok(OutputToken::Setup(lines))
            },
            RegisterCommand::Assign { assignment } => {
                if !source_is_readable(&assignment.source, memory) {
                    return Err(unreadable_condition());
                }
                let lines = assignment.execute(registers, memory)?;
                assert(line_views(lines@) =~= seq![lines@[0]@]);
                Ok(OutputToken::Setup(lines))
            },
            RegisterCommand::Show { register } => {
                let mut lines: Vec<String> = Vec::new();
                match register {
                    Some(rs) => {
                        push_register(&mut lines, *rs, registers);
                        assert(line_views(lines@) =~= seq![register_report(*rs, *registers)]);
                    },
                    None => {
                        push_register(&mut lines, RegisterSource::Accumulator, registers);
                        push_register(&mut lines, RegisterSource::RegisterX, registers);
                        push_register(&mut lines, RegisterSource::RegisterY, registers);
                        push_register(&mut lines, RegisterSource::Status, registers);
                        push_register(&mut lines, RegisterSource::StackPointer, registers);
                        push_register(&mut lines, RegisterSource::CommandPointer, registers);
                        push_register(&mut lines, RegisterSource::CycleCount, registers);
                        assert(line_views(lines@) =~= all_registers().map_values(
                            |rs: RegisterSource| register_report(rs, *registers),
                        ));
                    },
                }
                Ok(OutputToken::Setup(lines))
            },
        }
    }
}

/// Memory after the segments are written one after the other.
pub open spec fn apply_segments(mem: Seq<u8>, segs: Seq<(nat, Seq<u8>)>) -> Seq<u8>
    decreases segs.len(),
{
    if segs.len() == 0 {
        mem
    } else {
        let m = apply_segments(mem, segs.drop_last());
        splice(m, segs.last().0 as int, segs.last().1)
    }
}

/// Whether every segment fits below the end of memory.
pub open spec fn segments_fit(segs: Seq<(nat, Seq<u8>)>) -> bool {
    forall|k: int| 0 <= k < segs.len() ==> #[trigger] segs[k].0 + segs[k].1.len() <= 0x10000
}

/// The segments as plain values.
pub open spec fn segment_views(segs: Seq<MemorySegment>) -> Seq<(nat, Seq<u8>)> {
    segs.map_values(|s: MemorySegment| segment_view(s))
}

/// The characters of `b`, a byte per character, when all are ASCII.
pub open spec fn ascii_text(b: Seq<u8>) -> Option<Seq<char>> {
    if forall|k: int| 0 <= k < b.len() ==> b[k] < 128 {
        Some(b.map_values(|x: u8| x as char))
    } else {
        None
    }
}

/// Write the segments in order; the first one that does not fit stops.
fn write_segments(memory: &mut MemoryStack, segs: &Vec<MemorySegment>) -> (r: Result<(), MemoryError>)
    ensures
        r is Ok <==> segments_fit(segment_views(segs@)),
        r is Ok ==> final(memory).contents() == apply_segments(old(memory).contents(), segment_views(segs@)),
{
    proof {
        lemma_memory_size(memory);
    }
    let ghost views = segment_views(segs@);
    let mut i: usize = 0;
    while i < segs.len()
        invariant
            i <= segs@.len(),
            views == segment_views(segs@),
            memory.contents().len() == 0x10000,
            segments_fit(views.subrange(0, i as int)),
            memory.contents() == apply_segments(old(memory).contents(), views.subrange(0, i as int)),
        decreases segs@.len() - i,
    {
        let seg = &segs[i];
        let ghost m0 = memory.contents();
        match memory.write(seg.address, seg.data.as_slice()) {
            Ok(()) => {},
            Err(e) => {
                proof {
                    assert(!(views[i as int].0 + views[i as int].1.len() <= 0x10000));
                }
                return Err(e);
            },
        }
        proof {
            lemma_memory_size(memory);
            assert(views.subrange(0, i + 1).drop_last() =~= views.subrange(0, i as int));
            assert(views.subrange(0, i + 1).last() == views[i as int]);
            assert forall|k: int| 0 <= k < i + 1 implies #[trigger] views.subrange(0, i + 1)[k].0
                + views.subrange(0, i + 1)[k].1.len() <= 0x10000 by {
                if k < i {
                    assert(views.subrange(0, i + 1)[k] == views.subrange(0, i as int)[k]);
                }
            }
        }
        i = i + 1;
    }
    assert(views.subrange(0, segs@.len() as int) =~= views);
    Ok(())
}

/// The text of `b` when it is all ASCII.
fn ascii_string(b: &Vec<u8>) -> (r: Option<String>)
    ensures
        match ascii_text(b@) {
            Some(t) => r matches Some(s) && s@ == t,
            None => r is None,
        },
{
    let mut v: Vec<char> = Vec::new();
    let mut i: usize = 0;
    while i < b.len()
        invariant
            i <= b@.len(),
            forall|k: int| 0 <= k < i ==> b@[k] < 128,
            v@ == b@.subrange(0, i as int).map_values(|x: u8| x as char),
        decreases b@.len() - i,
    {
        if b[i] >= 128 {
            return None;
        }
        v.push(b[i] as char);
        i = i + 1;
        assert(v@ =~= b@.subrange(0, i as int).map_values(|x: u8| x as char));
    }
    assert(b@.subrange(0, b@.len() as int) =~= b@);
    Some(string_of(&v))
}

/// The message for a file that cannot be read.
pub open spec fn unreadable_file_text(path: Seq<char>) -> Seq<char> {
    "cannot read the file '"@ + path + "'"@
}

/// The error for a file that cannot be read.
fn unreadable_file(path: &String) -> (e: AppError)
    ensures
        e.message@ == unreadable_file_text(path@),
{
    let mut s = String::new();
    push_str(&mut s, "cannot read the file '");
    push_str(&mut s, path.as_str());
    push_str(&mut s, "'");
    AppError::new(s)
}

/// A message with a number: `prefix`, `n`, `suffix`.
fn counted(prefix: &str, n: usize, suffix: &str) -> (s: String)
    ensures
        s@ == prefix@ + dec_repr(n as nat) + suffix@,
{
    let mut s = String::new();
    push_str(&mut s, prefix);
    push_dec(&mut s, n as u128);
    push_str(&mut s, suffix);
    s
}

/// A message without a number.
fn text(t: &str) -> (s: String)
    ensures
        s@ == t@,
{
    let mut s = String::new();
    push_str(&mut s, t);
    assert(s@ =~= t@);
    s
}

/// Why reading a symbol file at `path` failed, given what loading it
/// gave: it could not be read, or it is not ASCII text.
pub open spec fn symbol_file_failure(path: Seq<char>, loaded: Option<Vec<u8>>, message: Seq<char>) -> bool {
    match loaded {
        None => message == unreadable_file_text(path),
        Some(b) => ascii_text(b@) is None && message == "the symbol file '"@ + path + "' is not ASCII text"@,
    }
}

/// Read the symbol file at `path`: its VICE labels, when loading it gives
/// ASCII text.
pub fn read_symbol_file<F: Fn(&str) -> Option<Vec<u8>>>(path: &String, load: &F) -> (r: AppResult<SymbolTable>)
    requires
        forall|p: &str| #[trigger] load.requires((p,)),
    ensures
        r matches Ok(t) ==> exists|p: &str, b: Vec<u8>|
            #![trigger load.ensures((p,), Some(b))]
            p@ == path@ && load.ensures((p,), Some(b)) && (ascii_text(b@) matches Some(txt)
                && t@ == with_labels(seq![], lines_of(txt))),
        r matches Err(e) ==> exists|p: &str, loaded: Option<Vec<u8>>|
            #![trigger load.ensures((p,), loaded)]
            p@ == path@ && load.ensures((p,), loaded) && symbol_file_failure(path@, loaded, e.message@),
{
    let bytes = match load(path.as_str()) {
        Some(b) => b,
        None => return Err(unreadable_file(path)),
    };
    let txt = match ascii_string(&bytes) {
        Some(t) => t,
        None => {
            let mut s = String::new();
            push_str(&mut s, "the symbol file '");
            push_str(&mut s, path.as_str());
            push_str(&mut s, "' is not ASCII text");
            return Err(AppError::new(s));
        },
    };
    let mut t = SymbolTable::new();
    t.load_vice_labels(txt.as_str());
    Ok(t)
}

/// The segments of a program image of the given kind, read from `bytes`.
pub open spec fn image_segments(target: LoadTarget, b: Seq<u8>) -> Option<Seq<(nat, Seq<u8>)>> {
    match target {
        LoadTarget::Atari => match atari_parse(b) {
            Ok(sections) => Some(sections.map_values(|x| segment_of(x))),
            Err(_) => None,
        },
        LoadTarget::Apple => match apple_parse(b) {
            Ok((entries, load)) => Some(data_segments(entries, load)),
            Err(_) => None,
        },
    }
}

/// The message of a program image that cannot be read: the parser's.
pub open spec fn image_error(target: LoadTarget, b: Seq<u8>) -> Option<Seq<char>> {
    match target {
        LoadTarget::Atari => match atari_parse(b) {
            Ok(_) => None,
            Err(m) => Some(m),
        },
        LoadTarget::Apple => match apple_parse(b) {
            Ok(_) => None,
            Err(m) => Some(m),
        },
    }
}

/// Why reading a program image at `path` failed, given what loading it
/// gave: it could not be read, or its content is no such image.
pub open spec fn image_failure(target: LoadTarget, path: Seq<char>, loaded: Option<Vec<u8>>, message: Seq<char>) -> bool {
    match loaded {
        None => message == unreadable_file_text(path),
        Some(b) => image_error(target, b@) == Some(message),
    }
}

/// Read the program image at `path` and split it into memory segments.
pub fn read_image<F: Fn(&str) -> Option<Vec<u8>>>(target: LoadTarget, path: &String, load: &F) -> (r: AppResult<
    Vec<MemorySegment>,
>)
    requires
        forall|p: &str| #[trigger] load.requires((p,)),
    ensures
        r matches Ok(segs) ==> exists|p: &str, b: Vec<u8>|
            #![trigger load.ensures((p,), Some(b))]
            p@ == path@ && load.ensures((p,), Some(b)) && image_segments(target, b@) == Some(
                segment_views(segs@),
            ),
        r matches Err(e) ==> exists|p: &str, loaded: Option<Vec<u8>>|
            #![trigger load.ensures((p,), loaded)]
            p@ == path@ && load.ensures((p,), loaded) && image_failure(target, path@, loaded, e.message@),
{
    let bytes = match load(path.as_str()) {
        Some(b) => b,
        None => return Err(unreadable_file(path)),
    };
    let ghost b = bytes@;
    match target {
        LoadTarget::Atari => match AtariBinary::new(bytes) {
            Ok(bin) => {
                let segs = bin.into_memory_segments();
                Ok(segs)
            },
            Err(m) => Err(AppError::new(m)),
        },
        LoadTarget::Apple => match AppleSingle::new(bytes) {
            Ok(file) => {
                let segs = file.into_memory_segments();
                Ok(segs)
            },
            Err(m) => Err(AppError::new(m)),
        },
    }
}

/// The bytes of `b`, each as a space and two hexadecimal digits.
pub open spec fn spaced_bytes(b: Seq<u8>) -> Seq<char>
    decreases b.len(),
{
    if b.len() == 0 {
        seq![]
    } else {
        spaced_bytes(b.drop_last()) + " "@ + hex2(b.last())
    }
}

/// The lines showing `remaining` bytes of `mem` from `addr`, `w` per line.
pub open spec fn dump_rows(mem: Seq<u8>, addr: nat, remaining: nat, w: nat) -> Seq<Seq<char>>
    decreases remaining,
{
    if remaining == 0 || w == 0 {
        seq![]
    } else {
        let n = if w < remaining {
            w
        } else {
            remaining
        };
        seq!["#0x"@ + hex4(addr) + ":"@ + spaced_bytes(mem.subrange(addr as int, addr + n as int))] + dump_rows(
            mem,
            addr + n,
            (remaining - n) as nat,
            w,
        )
    }
}

/// Bytes per line of a memory dump: the given width, sixteen by default.
pub open spec fn dump_width(width: Option<usize>) -> nat {
    match width {
        Some(w) => if w > 0 {
            w as nat
        } else {
            16
        },
        None => 16,
    }
}

/// A memory dump: the description, if any, then the rows.
pub open spec fn dump_lines(
    mem: Seq<u8>,
    address: usize,
    length: usize,
    width: Option<usize>,
    description: Option<Seq<char>>,
) -> Seq<Seq<char>> {
    let head: Seq<Seq<char>> = match description {
        Some(d) => seq![d],
        None => seq![],
    };
    head + dump_rows(mem, address as nat, length as nat, dump_width(width))
}

/// The symbol table once `name` is given `value`; a table is made when
/// there is none.
pub open spec fn symbols_with(t: Option<SymbolTable>, name: Seq<char>, value: u16) -> Seq<SymbolEntry> {
    match t {
        Some(x) => with_symbol(x@, name, value),
        None => with_symbol(seq![], name, value),
    }
}

/// What running a memory command does: `r0`, `m0`, `s0` before, `r1`,
/// `m1`, `s1` after, `r` the result; `load` reads files.
pub open spec fn memory_outcome<F: Fn(&str) -> Option<Vec<u8>>>(
    cmd: MemoryCommand,
    load: F,
    m0: Seq<u8>,
    s0: Option<SymbolTable>,
    m1: Seq<u8>,
    s1: Option<SymbolTable>,
    r: AppResult<OutputToken>,
) -> bool {
    match cmd {
        MemoryCommand::Flush => m1 == Seq::new(0x10000, |i: int| 0u8) && s1 == s0 && (r matches Ok(
            OutputToken::Setup(lines),
        ) && lines@.len() == 0),
        MemoryCommand::Load { address, filepath } => s1 == s0 && (r is Err ==> m1 == m0) && (r is Ok ==> exists|
            p: &str,
            b: Vec<u8>,
        |
            #![trigger load.ensures((p,), Some(b))]
            p@ == filepath@ && load.ensures((p,), Some(b)) && address + b@.len() <= 0x10000 && m1 == splice(
                m0,
                address as int,
                b@,
            ) && (r matches Ok(OutputToken::Setup(lines)) && line_views(lines@) == seq![
                dec_repr(b@.len()) + " bytes loaded from '"@ + filepath@ + "' at #0x"@ + hex4(address as nat)
                    + "."@,
            ])),
        MemoryCommand::LoadTarget { target, filepath } => s1 == s0 && (r is Ok ==> exists|p: &str, b: Vec<u8>|
            #![trigger load.ensures((p,), Some(b))]
            p@ == filepath@ && load.ensures((p,), Some(b)) && (image_segments(target, b@) matches Some(segs)
                && segments_fit(segs) && m1 == apply_segments(m0, segs) && (r matches Ok(OutputToken::Setup(lines))
                && line_views(lines@) == seq![dec_repr(segs.len()) + " segments loaded from '"@ + filepath@ + "'"@]))),
        MemoryCommand::LoadSegments { segments } => s1 == s0 && (r is Ok <==> segments_fit(segment_views(segments@)))
            && (r is Ok ==> m1 == apply_segments(m0, segment_views(segments@)) && (r matches Ok(
            OutputToken::Setup(lines),
        ) && line_views(lines@) == seq![dec_repr(segments@.len()) + " segments loaded"@])),
        MemoryCommand::Write { address, bytes } => s1 == s0 && (r is Ok <==> (bytes@.len() == 0 || address
            + bytes@.len() <= 0x10000)) && (r is Ok ==> m1 == splice(m0, address as int, bytes@) && (r matches Ok(
            OutputToken::Setup(lines),
        ) && line_views(lines@) == seq![
            if bytes@.len() == 0 {
                "nothing was written"@
            } else if bytes@.len() == 1 {
                "1 byte written"@
            } else {
                dec_repr(bytes@.len()) + " bytes written"@
            },
        ])) && (r is Err ==> m1 == m0),
        MemoryCommand::LoadSymbolsFile { filepath } => m1 == m0 && (r is Err ==> s1 == s0) && (r is Ok ==> exists|
            p: &str,
            b: Vec<u8>,
        |
            #![trigger load.ensures((p,), Some(b))]
            p@ == filepath@ && load.ensures((p,), Some(b)) && (ascii_text(b@) matches Some(txt) && (s1 matches Some(
                t,
            ) && t@ == with_labels(seq![], lines_of(txt)) && (r matches Ok(OutputToken::Setup(lines)) && line_views(
                lines@,
            ) == seq![dec_repr(t@.len()) + " symbols loaded from '"@ + filepath@ + "'"@])))),
        MemoryCommand::LoadSymbols { symbols } => m1 == m0 && (s1 matches Some(t) && t@ == symbols@) && (r matches Ok(
            OutputToken::Setup(lines),
        ) && line_views(lines@) == seq![dec_repr(symbols@.len()) + " symbols loaded"@]),
        MemoryCommand::AddSymbol { name, value } => m1 == m0 && (s1 matches Some(t) && t@ == symbols_with(
            s0,
            name@,
            value,
        )) && (r matches Ok(OutputToken::Setup(lines)) && line_views(lines@) == seq![
            "symbol "@ + name@ + " set to #0x"@ + hex4(value as nat),
        ]),
        MemoryCommand::RemoveSymbol { name } => m1 == m0 && match s0 {
            Some(t0) => s1 matches Some(t) && t@ == without(t0@, name@),
            None => s1 is None,
        } && (r matches Ok(OutputToken::Setup(lines)) && line_views(lines@) == seq!["symbol "@ + name@ + " removed"@]),
        MemoryCommand::Fill { start, end, value } => s1 == s0 && (r is Ok <==> start <= end <= 0xffff) && (r is Ok
            ==> m1 == splice(m0, start as int, Seq::new((end - start + 1) as nat, |i: int| value)) && (r matches Ok(
            OutputToken::Setup(lines),
        ) && line_views(lines@) == seq![
            "memory filled from #0x"@ + hex4(start as nat) + " to #0x"@ + hex4(end as nat) + " with 0x"@ + hex2(value),
        ])) && (r is Err ==> m1 == m0),
        MemoryCommand::Show { address, length, width, description } => m1 == m0 && s1 == s0 && (r is Ok <==> address
            + length <= 0x10000) && (r matches Ok(t) ==> (t matches OutputToken::Setup(lines) && line_views(lines@)
            == dump_lines(
            m0,
            address,
            length,
            width,
            match description {
                Some(d) => Some(d@),
                None => None,
            },
        ))),
    }
}

/// Appends the bytes of `b`, each as a space and two hexadecimal digits.
fn push_spaced_bytes(s: &mut String, b: &Vec<u8>)
    ensures
        final(s)@ == old(s)@ + spaced_bytes(b@),
{
    let ghost start = s@;
    let mut i: usize = 0;
    while i < b.len()
        invariant
            i <= b@.len(),
            s@ == start + spaced_bytes(b@.subrange(0, i as int)),
        decreases b@.len() - i,
    {
        push_str(s, " ");
        push_hex2(s, b[i]);
        i = i + 1;
        assert(b@.subrange(0, i as int).drop_last() =~= b@.subrange(0, i - 1));
    }
    assert(b@.subrange(0, b@.len() as int) =~= b@);
}

/// The rows of a memory dump.
fn dump(memory: &MemoryStack, address: usize, length: usize, width: Option<usize>) -> (v: Vec<String>)
    requires
        address + length <= 0x10000,
    ensures
        line_views(v@) == dump_rows(memory.contents(), address as nat, length as nat, dump_width(width)),
{
    proof {
        lemma_memory_size(memory);
    }
    let w: usize = match width {
        Some(x) => if x > 0 {
            x
        } else {
            16
        },
        None => 16,
    };
    let ghost mem = memory.contents();
    let mut out: Vec<String> = Vec::new();
    let mut addr = address;
    let mut remaining = length;
    while remaining > 0
        invariant
            mem == memory.contents(),
            mem.len() == 0x10000,
            address + length <= 0x10000,
            addr + remaining == address + length,
            w == dump_width(width),
            line_views(out@) + dump_rows(mem, addr as nat, remaining as nat, w as nat) == dump_rows(
                mem,
                address as nat,
                length as nat,
                w as nat,
            ),
        decreases remaining,
    {
        let n = if w < remaining {
            w
        } else {
            remaining
        };
        let bytes = match memory.read(addr, n) {
            Ok(b) => b,
            Err(_) => {
                return out;
            },
        };
        let mut s = String::new();
        push_str(&mut s, "#0x");
        push_hex4(&mut s, addr);
        push_str(&mut s, ":");
        push_spaced_bytes(&mut s, &bytes);
        let ghost before = line_views(out@);
        out.push(s);
        proof {
            assert(line_views(out@) =~= before.push(s@));
            assert(before + dump_rows(mem, addr as nat, remaining as nat, w as nat) =~= line_views(out@) + dump_rows(
                mem,
                (addr + n) as nat,
                (remaining - n) as nat,
                w as nat,
            ));
        }
        addr = addr + n;
        remaining = remaining - n;
    }
    assert(line_views(out@) + Seq::<Seq<char>>::empty() =~= line_views(out@));
    out
}

impl Command for MemoryCommand {
    /// Run a command on memory or on the symbols; see `memory_outcome`.
    fn execute<F: Fn(&str) -> Option<Vec<u8>>>(
        &self,
        registers: &mut Registers,
        memory: &mut MemoryStack,
        symbols: &mut Option<SymbolTable>,
        load: &F,
    ) -> (r: AppResult<OutputToken>)
        ensures
            *final(registers) == *old(registers),
            memory_outcome(
                *self,
                *load,
                old(memory).contents(),
                *old(symbols),
                final(memory).contents(),
                *final(symbols),
                r,
            ),
    {
        proof {
            lemma_memory_size(memory);
            reveal_strlit("");
        }
        match self {
            MemoryCommand::Flush => {
                *memory = MemoryStack::new_with_ram();
                Ok(OutputToken::Setup(Vec::new()))
            },
            MemoryCommand::Load { address, filepath } => {
                let bytes = match load(filepath.as_str()) {
                    Some(b) => b,
                    None => return Err(unreadable_file(filepath)),
                };
                let ghost b = bytes;
                if let Err(e) = memory.write(*address, bytes.as_slice()) {
                    return Err(cpu_failure(CPUError::MemoryError(e)));
                }
                let mut s = String::new();
                push_dec(&mut s, bytes.len() as u128);
                push_str(&mut s, " bytes loaded from '");
                push_str(&mut s, filepath.as_str());
                push_str(&mut s, "' at #0x");
                push_hex4(&mut s, *address);
                push_str(&mut s, ".");
                let lines = one_line(s);
                assert(line_views(lines@) =~= seq![s@]);
                Ok(OutputToken::Setup(lines))
            },
            MemoryCommand::LoadTarget { target, filepath } => {
                let segments = read_image(*target, filepath, load)?;
                if let Err(e) = write_segments(memory, &segments) {
                    return Err(cpu_failure(CPUError::MemoryError(e)));
                }
                let mut s = String::new();
                push_dec(&mut s, segments.len() as u128);
                push_str(&mut s, " segments loaded from '");
                push_str(&mut s, filepath.as_str());
                push_str(&mut s, "'");
                let lines = one_line(s);
                assert(line_views(lines@) =~= seq![s@]);
                Ok(OutputToken::Setup(lines))
            },
            MemoryCommand::LoadSegments { segments } => {
                if let Err(e) = write_segments(memory, segments) {
                    return Err(cpu_failure(CPUError::MemoryError(e)));
                }
                let s = counted("", segments.len(), " segments loaded");
                let lines = one_line(s);
                assert(line_views(lines@) =~= seq![s@]);
                Ok(OutputToken::Setup(lines))
            },
            MemoryCommand::Write { address, bytes } => {
                let s = if bytes.len() == 0 {
                    text("nothing was written")
                } else {
                    if let Err(e) = memory.write(*address, bytes.as_slice()) {
                        return Err(cpu_failure(CPUError::MemoryError(e)));
                    }
                    if bytes.len() == 1 {
                        text("1 byte written")
                    } else {
                        counted("", bytes.len(), " bytes written")
                    }
                };
                proof {
                    if bytes@.len() == 0 {
                        assert(splice(old(memory).contents(), *address as int, bytes@) =~= old(memory).contents());
                    }
                }
                let lines = one_line(s);
                assert(line_views(lines@) =~= seq![s@]);
                Ok(OutputToken::Setup(lines))
            },
            MemoryCommand::LoadSymbolsFile { filepath } => {
                let table = read_symbol_file(filepath, load)?;
                let mut s = String::new();
                push_dec(&mut s, table.len() as u128);
                push_str(&mut s, " symbols loaded from '");
                push_str(&mut s, filepath.as_str());
                push_str(&mut s, "'");
                let lines = one_line(s);
                assert(line_views(lines@) =~= seq![s@]);
                *symbols = Some(table);
                Ok(OutputToken::Setup(lines))
            },
            MemoryCommand::LoadSymbols { symbols: table } => {
                let s = counted("", table.len(), " symbols loaded");
                let lines = one_line(s);
                assert(line_views(lines@) =~= seq![s@]);
                *symbols = Some(table.copy());
                Ok(OutputToken::Setup(lines))
            },
            MemoryCommand::AddSymbol { name, value } => {
                let mut t = match symbols {
                    Some(t) => t.copy(),
                    None => SymbolTable::new(),
                };
                t.add_symbol(*value, name.clone());
                *symbols = Some(t);
                let mut s = String::new();
                push_str(&mut s, "symbol ");
                push_str(&mut s, name.as_str());
                push_str(&mut s, " set to #0x");
                push_hex4(&mut s, *value as usize);
                let lines = one_line(s);
                assert(line_views(lines@) =~= seq![s@]);
                Ok(OutputToken::Setup(lines))
            },
            MemoryCommand::RemoveSymbol { name } => {
                match symbols {
                    Some(t) => {
                        t.remove_symbol(name.as_str());
                    },
                    None => {},
                }
                let mut s = String::new();
                push_str(&mut s, "symbol ");
                push_str(&mut s, name.as_str());
                push_str(&mut s, " removed");
                let lines = one_line(s);
                assert(line_views(lines@) =~= seq![s@]);
                Ok(OutputToken::Setup(lines))
            },
            MemoryCommand::Fill { start, end, value } => {
                if *start > *end || *end > 0xffff {
                    let mut s = String::new();
                    push_str(&mut s, "the range to fill is not inside memory");
                    return Err(AppError::new(s));
                }
                let n = *end - *start + 1;
                let mut data: Vec<u8> = Vec::new();
                let mut k: usize = 0;
                while k < n
                    invariant
                        k <= n,
                        data@ == Seq::new(k as nat, |i: int| *value),
                    decreases n - k,
                {
                    data.push(*value);
                    k = k + 1;
                    assert(data@ =~= Seq::new(k as nat, |i: int| *value));
                }
                if let Err(e) = memory.write(*start, data.as_slice()) {
                    return Err(cpu_failure(CPUError::MemoryError(e)));
                }
                let mut s = String::new();
                push_str(&mut s, "memory filled from #0x");
                push_hex4(&mut s, *start);
                push_str(&mut s, " to #0x");
                push_hex4(&mut s, *end);
                push_str(&mut s, " with 0x");
                push_hex2(&mut s, *value);
                let lines = one_line(s);
                assert(line_views(lines@) =~= seq![s@]);
                Ok(OutputToken::Setup(lines))
            },
            MemoryCommand::Show { address, length, width, description } => {
                if *address > 0x10000 || *length > 0x10000 - *address {
                    let mut s = String::new();
                    push_str(&mut s, "the range to show is not inside memory");
                    return Err(AppError::new(s));
                }
                let mut lines: Vec<String> = Vec::new();
                match description {
                    Some(d) => lines.push(d.clone()),
                    None => {},
                }
                let ghost head = line_views(lines@);
                let rows = dump(memory, *address, *length, *width);
                let mut i: usize = 0;
                while i < rows.len()
                    invariant
                        i <= rows@.len(),
                        line_views(lines@) == head + line_views(rows@.subrange(0, i as int)),
                    decreases rows@.len() - i,
                {
                    let ghost before = lines@;
                    let row = rows[i].clone();
                    assert(row@ == rows@[i as int]@);
                    lines.push(row);
                    assert(lines@ == before.push(row));
                    assert(line_views(rows@.subrange(0, i + 1)) =~= line_views(rows@.subrange(0, i as int)).push(
                        rows@[i as int]@,
                    ));
                    assert(line_views(lines@) =~= line_views(before).push(row@));
                    i = i + 1;
                }
                assert(rows@.subrange(0, rows@.len() as int) =~= rows@);
                assert(line_views(lines@) =~= dump_lines(
                    memory.contents(),
                    *address,
                    *length,
                    *width,
                    match description {
                        Some(d) => Some(d@),
                        None => None,
                    },
                ));
                Ok(OutputToken::Setup(lines))
            },
        }
    }
}

/// What a command of a script does; see the outcome of each kind.
#[verifier::opaque]
pub open spec fn command_outcome<F: Fn(&str) -> Option<Vec<u8>>>(
    cmd: CliCommand,
    load: F,
    r0: Registers,
    m0: Seq<u8>,
    s0: Option<SymbolTable>,
    r1: Registers,
    m1: Seq<u8>,
    s1: Option<SymbolTable>,
    r: AppResult<OutputToken>,
) -> bool {
    match cmd {
        CliCommand::Assert(c) => r1 == r0 && m1 == m0 && s1 == s0 && assert_outcome(c, r0, m0, r),
        CliCommand::Marker(d) => r1 == r0 && m1 == m0 && s1 == s0 && (r matches Ok(OutputToken::Marker { description })
            && description@ == d@),
        CliCommand::Memory(c) => r1 == r0 && memory_outcome(c, load, m0, s0, m1, s1, r),
        CliCommand::Nothing => r1 == r0 && m1 == m0 && s1 == s0 && r matches Ok(OutputToken::Nothing),
        CliCommand::Registers(c) => m1 == m0 && s1 == s0 && register_outcome(c, r0, m0, r1, r),
        CliCommand::Run(c) => s1 == s0 && run_outcome(c, r0, m0, s0, r1, m1, r),
        CliCommand::Disassemble { start, end } => r1 == r0 && m1 == m0 && s1 == s0 && (r is Ok <==> (end < usize::MAX
            && disassembly(start, (end + 1) as usize, m0) is Ok)) && (r matches Ok(t) ==> (t matches OutputToken::Setup(
            lines,
        ) && exists|all: Seq<CPUInstruction>|
            decoded_range(start, (end + 1) as usize, m0, all) && #[trigger] listing_texts(lines@) == listing(
                all,
                table_view(s0),
            ))),
        CliCommand::Enable(f) => r1 == r0 && m1 == m0 && s1 == s0 && (r matches Ok(OutputToken::Setup(lines))
            && line_views(lines@) == seq!["trace_logging enabled"@]),
        CliCommand::Disable(f) => r1 == r0 && m1 == m0 && s1 == s0 && (r matches Ok(OutputToken::Setup(lines))
            && line_views(lines@) == seq!["trace_logging disabled"@]),
    }
}

impl Command for CliCommand {
    /// Run the command; see `command_outcome`.
    fn execute<F: Fn(&str) -> Option<Vec<u8>>>(
        &self,
        registers: &mut Registers,
        memory: &mut MemoryStack,
        symbols: &mut Option<SymbolTable>,
        load: &F,
    ) -> (r: AppResult<OutputToken>)
        ensures
            command_outcome(
                *self,
                *load,
                *old(registers),
                old(memory).contents(),
                *old(symbols),
                *final(registers),
                final(memory).contents(),
                *final(symbols),
                r,
            ),
    {
        reveal(command_outcome);
        match self {
            CliCommand::Assert(c) => c.execute(registers, memory, symbols, load),
            CliCommand::Marker(d) => Ok(OutputToken::Marker { description: d.clone() }),
            CliCommand::Memory(c) => c.execute(registers, memory, symbols, load),
            CliCommand::Nothing => Ok(OutputToken::Nothing),
            CliCommand::Registers(c) => c.execute(registers, memory, symbols, load),
            CliCommand::Run(c) => c.execute(registers, memory, symbols, load),
            CliCommand::Disassemble { start, end } => {
                if *end == usize::MAX {
                    return Err(AppError::new(text("the range to disassemble is too large")));
                }
                let d = Disassembler::new(memory, symbols);
                let lines = d.disassemble_range(*start, *end)?;
                Ok(OutputToken::Setup(lines))
            },
            CliCommand::Enable(f) => {
                let lines = one_line(text("trace_logging enabled"));
                assert(line_views(lines@) =~= seq!["trace_logging enabled"@]);
                Ok(OutputToken::Setup(lines))
            },
            CliCommand::Disable(f) => {
                let lines = one_line(text("trace_logging disabled"));
                assert(line_views(lines@) =~= seq!["trace_logging disabled"@]);
                Ok(OutputToken::Setup(lines))
            },
        }
    }
}

} // verus!
