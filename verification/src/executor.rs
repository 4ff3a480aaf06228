//! Running a whole test script: reading its commands, running them in
//! test plans separated by markers, and counting the failures.
use crate::commands::{ascii_text, command_outcome, read_symbol_file, CliCommand, Command, MemoryCommand, OutputToken};
use crate::grammar::{command_view, entries, entries_of, line_command, line_error, CommandView};
use crate::error::{AppError, AppResult};
use crate::memory::{AddressableIO, MemoryStack};
use crate::parser::{CliCommandParser, ParserContext};
use crate::memory::RAM_SIZE;
use crate::registers::{reset_registers, Registers};
use crate::symbols::{lines_of, with_labels, with_symbol, SymbolEntry, SymbolTable};
use crate::text::{dec_repr, is_space, push_dec, push_str, trim_string, trimmed};
use vstd::prelude::*;

verus! {

/// Whether a token tells of a failure: a failed assertion or a run cut
/// short.
pub open spec fn is_failure(t: OutputToken) -> bool {
    ||| t matches OutputToken::Assertion { failure, .. } && failure is Some
    ||| t is TerminatedRun
}

/// Whether a token stops the rest of its test plan: a run cut short always
/// does, a failed assertion when `stop` is set.
pub open spec fn is_blocking(t: OutputToken, stop: bool) -> bool {
    ||| t is TerminatedRun
    ||| (stop && (t matches OutputToken::Assertion { failure, .. } && failure is Some))
}

/// Whether the tokens `ts` end in a test plan stopped by a blocking token:
/// one came after the last marker.
pub open spec fn plan_stopped(ts: Seq<OutputToken>, stop: bool) -> bool {
    exists|i: int| 0 <= i < ts.len() && #[trigger] is_blocking(ts[i], stop) && no_marker_after(ts, i)
}

/// Whether no marker comes after position `i` of `ts`.
pub open spec fn no_marker_after(ts: Seq<OutputToken>, i: int) -> bool {
    forall|k: int| i < k < ts.len() ==> !(#[trigger] ts[k] is Marker)
}

/// How the executor behaves.
#[derive(Debug)]
pub struct ExecutorConfiguration {
    /// If true, a line that cannot be read is skipped; else it stops the run.
    pub ignore_parse_error: bool,
    /// If true, a failed assertion stops its test plan until the next marker.
    pub stop_on_failed_assertion: bool,
}

impl ExecutorConfiguration {
    /// Stop on parse errors and on failed assertions.
    pub fn default() -> (c: ExecutorConfiguration)
        ensures
            !c.ignore_parse_error,
            c.stop_on_failed_assertion,
    {
        ExecutorConfiguration { ignore_parse_error: false, stop_on_failed_assertion: true }
    }
}

/// The first position at or after `i` that is not white space.
pub open spec fn space_end(c: Seq<char>, i: int) -> int
    decreases c.len() - i,
{
    if 0 <= i < c.len() && is_space(c[i]) {
        space_end(c, i + 1)
    } else {
        i
    }
}

/// Whether a line read outside a string holds no command: it is blank, or
/// blank up to a `//` comment.
pub open spec fn skipped_line(line: Seq<char>) -> bool {
    let p = space_end(line, 0);
    p == line.len() || (line[p] == '/' && p + 1 < line.len() && line[p + 1] == '/')
}

/// Whether a string is open, and whether a backslash in it waits for its
/// character, after `line` is read in that state.
pub open spec fn scan_quotes(line: Seq<char>, inside: bool, escaped: bool) -> (bool, bool)
    decreases line.len(),
{
    if line.len() == 0 {
        (inside, escaped)
    } else {
        let rest = line.subrange(1, line.len() as int);
        if escaped {
            scan_quotes(rest, inside, false)
        } else if line[0] == '"' {
            scan_quotes(rest, !inside, false)
        } else if line[0] == '\\' && inside {
            scan_quotes(rest, inside, true)
        } else {
            scan_quotes(rest, inside, false)
        }
    }
}

/// The text of the next command from line `i` on, having read `text` so
/// far in the given string state, and the line after it: lines holding no
/// command are skipped outside strings, and the lines of a command are
/// joined by new lines until no string is left open (or the lines end).
pub open spec fn statement_from(
    lines: Seq<Seq<char>>,
    i: int,
    text: Seq<char>,
    inside: bool,
    escaped: bool,
    started: bool,
) -> (Option<Seq<char>>, int)
    decreases lines.len() - i,
{
    if i < 0 || i >= lines.len() {
        (
            if started {
                Some(text)
            } else {
                None
            },
            i,
        )
    } else if !inside && skipped_line(lines[i]) {
        statement_from(lines, i + 1, text, inside, escaped, started)
    } else {
        let joined = (if started {
            text.push('\n')
        } else {
            text
        }) + lines[i];
        let (open, waiting) = scan_quotes(lines[i], inside, escaped);
        if !open {
            (Some(joined), i + 1)
        } else {
            statement_from(lines, i + 1, joined, open, waiting, true)
        }
    }
}

/// The text of the next command from line `i` on, and the line after it.
pub open spec fn next_statement(lines: Seq<Seq<char>>, i: int) -> (Option<Seq<char>>, int) {
    statement_from(lines, i, seq![], false, false, false)
}

/// Whether `table` holds the labels of the symbol file at `path`, as
/// `load` read it.
pub open spec fn symbol_file_read<F: Fn(&str) -> Option<Vec<u8>>>(load: F, path: Seq<char>, table: Seq<SymbolEntry>) -> bool {
    exists|p: &str, b: Vec<u8>|
        #![trigger load.ensures((p,), Some(b))]
        p@ == path && load.ensures((p,), Some(b)) && (ascii_text(b@) matches Some(txt) && table == with_labels(
            seq![],
            lines_of(txt),
        ))
}

/// What reading the command `text` (without the white space at its ends)
/// with the symbols `table` gives, and the symbols known after it: a line
/// that cannot be read is an error, with the message of `line_error` where
/// that settles it; a symbol
/// file is read at once and its symbols replace the table; `symbols add`
/// adds its symbol to the table; other commands leave it as it is.
#[verifier::opaque]
pub open spec fn statement_read<F: Fn(&str) -> Option<Vec<u8>>>(
    load: F,
    table: Option<Seq<SymbolEntry>>,
    text: Seq<char>,
    r: AppResult<CliCommand>,
    after: Option<Seq<SymbolEntry>>,
) -> bool {
    match line_command(table, trimmed(text)) {
        None => r is Err && after == table && (line_error(table, trimmed(text)) matches Some(m) ==> r->Err_0.message@
            == m),
        Some(CommandView::SymbolsLoadFile(path)) => match r {
            Ok(cmd) => cmd matches CliCommand::Memory(MemoryCommand::LoadSymbols { symbols }) && symbol_file_read(
                load,
                path,
                symbols@,
            ) && after == Some(symbols@),
            Err(_) => after == table,
        },
        Some(CommandView::SymbolsAdd { name, value }) => r matches Ok(cmd) && command_view(cmd)
            == CommandView::SymbolsAdd { name, value } && after == match table {
            Some(t) => Some(with_symbol(t, name, value)),
            None => None,
        },
        Some(v) => r matches Ok(cmd) && command_view(cmd) == v && after == table,
    }
}

/// The commands of the lines of a test script, read one at a time: lines
/// holding nothing (blank, or a `//` comment) are skipped, a string literal
/// may go on over several lines. It keeps the symbols that the commands
/// read so far define.
pub struct CommandIterator {
    lines: Vec<String>,
    next_line: usize,
    symbols: Option<SymbolTable>,
}

impl CommandIterator {
    /// An iterator over the commands of `lines`, with an empty symbol table.
    pub fn new(lines: Vec<String>) -> (it: CommandIterator)
        ensures
            it.remaining() == lines@.len(),
            it.lines() == texts(lines@),
            it.position() == 0,
            it.table() == Some(Seq::<SymbolEntry>::empty()),
    {
        CommandIterator { lines, next_line: 0, symbols: Some(SymbolTable::new()) }
    }

    /// Number of lines not read yet.
    pub closed spec fn remaining(&self) -> nat {
        if self.next_line <= self.lines@.len() {
            (self.lines@.len() - self.next_line) as nat
        } else {
            0
        }
    }

    /// The lines of the script.
    pub closed spec fn lines(&self) -> Seq<Seq<char>> {
        self.lines@.map_values(|l: String| l@)
    }

    /// The first line not read yet.
    pub closed spec fn position(&self) -> int {
        self.next_line as int
    }

    /// The symbols known so far.
    pub closed spec fn table(&self) -> Option<Seq<SymbolEntry>> {
        entries_of(self.symbols)
    }

    /// The next command (see `next_statement` and `statement_read`), or
    /// `None` at the end of the lines. A symbol file is read as soon as its
    /// command is, with `load`; its symbols and those added by `symbols add`
    /// are known to the commands after it.
    pub fn next_command<F: Fn(&str) -> Option<Vec<u8>>>(&mut self, load: &F) -> (r: Option<AppResult<CliCommand>>)
        requires
            forall|p: &str| #[trigger] load.requires((p,)),
        ensures
            r is Some ==> final(self).remaining() < old(self).remaining(),
            r is None ==> final(self).remaining() == 0,
            final(self).lines() == old(self).lines(),
            final(self).position() == next_statement(old(self).lines(), old(self).position()).1,
            match next_statement(old(self).lines(), old(self).position()).0 {
                None => r is None && final(self).table() == old(self).table(),
                Some(text) => r matches Some(res) && statement_read(
                    *load,
                    old(self).table(),
                    text,
                    res,
                    final(self).table(),
                ),
            },
    {
        let ghost lines = self.lines();
        let ghost start = self.next_line as int;
        let mut text = String::new();
        let mut inside = false;
        let mut escaped = false;
        let mut started = false;
        while self.next_line < self.lines.len()
            invariant
                forall|p: &str| #[trigger] load.requires((p,)),
                self.lines@ == old(self).lines@,
                self.symbols == old(self).symbols,
                lines == self.lines(),
                start == old(self).next_line,
                self.next_line >= old(self).next_line,
                started ==> self.next_line > old(self).next_line && old(self).next_line < self.lines@.len(),
                started ==> self.next_line <= self.lines@.len(),
                next_statement(lines, start) == statement_from(
                    lines,
                    self.next_line as int,
                    text@,
                    inside,
                    escaped,
                    started,
                ),
            decreases self.lines@.len() - self.next_line,
        {
            let line = self.lines[self.next_line].clone();
            let ghost i = self.next_line as int;
            assert(lines[i] == line@);
            self.next_line = self.next_line + 1;
            let chars = crate::text::chars_of(line.as_str());
            if !inside && is_blank_or_comment_line(&chars) {
                continue;
            }
            let ghost before = text@;
            if started {
                crate::text::push_char(&mut text, '\n');
            }
            started = true;
            push_str(&mut text, line.as_str());
            let ghost inside0 = inside;
            let ghost escaped0 = escaped;
            let mut k: usize = 0;
            assert(chars@.subrange(0, chars@.len() as int) =~= chars@);
            while k < chars.len()
                invariant
                    k <= chars@.len(),
                    scan_quotes(chars@, inside0, escaped0) == scan_quotes(
                        chars@.subrange(k as int, chars@.len() as int),
                        inside,
                        escaped,
                    ),
                decreases chars@.len() - k,
            {
                assert(chars@.subrange(k as int, chars@.len() as int).subrange(1, chars@.len() - k) =~= chars@.subrange(
                    k + 1,
                    chars@.len() as int,
                ));
                if escaped {
                    escaped = false;
                } else if chars[k] == '"' {
                    inside = !inside;
                } else if chars[k] == '\\' && inside {
                    escaped = true;
                }
                k = k + 1;
            }
            assert(chars@.subrange(k as int, chars@.len() as int) =~= Seq::<char>::empty());
            if !inside {
                let cmd = self.parse_command(text.as_str(), load);
                return Some(cmd);
            }
        }
        if started {
            Some(self.parse_command(text.as_str(), load))
        } else {
            None
        }
    }

    /// Read one command with the symbols known so far, and keep the symbols
    /// it defines.
    fn parse_command<F: Fn(&str) -> Option<Vec<u8>>>(&mut self, text: &str, load: &F) -> (r: AppResult<CliCommand>)
        requires
            forall|p: &str| #[trigger] load.requires((p,)),
        ensures
            final(self).lines@ == old(self).lines@,
            final(self).next_line == old(self).next_line,
            statement_read(*load, old(self).table(), text@, r, final(self).table()),
    {
        reveal(statement_read);
        let command_text = trim_string(text);
        let known = self.symbols.as_ref();
        assert(entries(known) == self.table());
        let parsed = CliCommandParser::from_with_context(command_text.as_str(), ParserContext::new(known));
        let cmd = match parsed {
            Ok(c) => c,
            Err(e) => return Err(e),
        };
        match cmd {
            CliCommand::Memory(MemoryCommand::LoadSymbolsFile { filepath }) => {
                let table = read_symbol_file(&filepath, load)?;
                self.symbols = Some(table.copy());
                Ok(CliCommand::Memory(MemoryCommand::LoadSymbols { symbols: table }))
            },
            CliCommand::Memory(MemoryCommand::AddSymbol { name, value }) => {
                match &mut self.symbols {
                    Some(t) => t.add_symbol(value, name.clone()),
                    None => {},
                }
                Ok(CliCommand::Memory(MemoryCommand::AddSymbol { name, value }))
            },
            c => Ok(c),
        }
    }
}

/// Whether a line holds nothing, or only a `//` comment.
fn is_blank_or_comment_line(c: &Vec<char>) -> (b: bool)
    ensures
        b == skipped_line(c@),
{
    let mut p: usize = 0;
    while p < c.len() && crate::text::is_space_char(c[p])
        invariant
            p <= c@.len(),
            space_end(c@, 0) == space_end(c@, p as int),
        decreases c@.len() - p,
    {
        p = p + 1;
    }
    p == c.len() || (c[p] == '/' && p + 1 < c.len() && c[p + 1] == '/')
}

/// The text of each line.
pub open spec fn texts(lines: Seq<String>) -> Seq<Seq<char>> {
    lines.map_values(|l: String| l@)
}

/// What the executor keeps between two commands: the machine of the
/// current test plan, whether the plan has failed or a run was cut short
/// in it, and how many failures were seen.
pub struct ScriptState {
    pub registers: Registers,
    pub memory: Seq<u8>,
    pub symbols: Option<SymbolTable>,
    pub round_failed: bool,
    pub terminated: bool,
    pub failures: nat,
}

/// The state a script starts in, and each test plan on its marker: reset
/// registers, zeroed memory, no symbols.
pub open spec fn fresh_state(failures: nat) -> ScriptState {
    ScriptState {
        registers: reset_registers(0),
        memory: Seq::new(RAM_SIZE as nat, |i: int| 0u8),
        symbols: None,
        round_failed: false,
        terminated: false,
        failures,
    }
}

/// Whether the current test plan is stopped: a run was cut short in it,
/// or an assertion failed and `stop` is set.
pub open spec fn stopped(s: ScriptState, stop: bool) -> bool {
    s.terminated || (s.round_failed && stop)
}

/// One command of a script: the text read, what reading it gave, the
/// symbols and the line after it; the state it was read in, the state the
/// command ran on (fresh after a marker), what running it gave (none when
/// it was not run) and the state after it.
pub struct ScriptStep {
    pub text: Seq<char>,
    pub read: AppResult<CliCommand>,
    pub table_after: Option<Seq<SymbolEntry>>,
    pub next_position: int,
    pub start: ScriptState,
    pub run_on: ScriptState,
    pub outcome: Option<AppResult<OutputToken>>,
    pub end: ScriptState,
}

/// Whether a read command is run in state `s`: it is one (not an empty
/// line), and it starts a test plan or the plan is not stopped.
pub open spec fn runs(read: AppResult<CliCommand>, s: ScriptState, stop: bool) -> bool {
    read matches Ok(cmd) && !(cmd is Nothing) && (cmd is Marker || !stopped(s, stop))
}

/// Whether `step` is the executor's handling of the command at `position`
/// of `lines`, read with the symbols `table` in the state `step.start`.
#[verifier::opaque]
pub open spec fn step_taken<F: Fn(&str) -> Option<Vec<u8>>>(
    load: F,
    stop: bool,
    lines: Seq<Seq<char>>,
    position: int,
    table: Option<Seq<SymbolEntry>>,
    step: ScriptStep,
) -> bool {
    &&& next_statement(lines, position) == (Some(step.text), step.next_position)
    &&& statement_read(load, table, step.text, step.read, step.table_after)
    &&& if runs(step.read, step.start, stop) {
        &&& step.run_on == (if step.read->Ok_0 is Marker {
            fresh_state(step.start.failures)
        } else {
            step.start
        })
        &&& match step.outcome {
            Some(r) => command_outcome(
            step.read->Ok_0,
            load,
            step.run_on.registers,
            step.run_on.memory,
            step.run_on.symbols,
            step.end.registers,
            step.end.memory,
            step.end.symbols,
            r,
            ) && (r matches Ok(t) ==> step.end.round_failed == (step.run_on.round_failed || is_failure(t))
                && step.end.terminated == (step.run_on.terminated || t is TerminatedRun) && step.end.failures
                == step.run_on.failures + (if is_failure(t) {
                1nat
            } else {
                0nat
            })),
            None => false,
        }
    } else {
        step.outcome is None && step.end == step.start
    }
}

/// The error a step ends the script with: reading failed (unless such
/// lines are skipped) or running the command failed.
pub open spec fn step_error(step: ScriptStep, ignore: bool) -> Option<AppError> {
    match step.read {
        Err(e) => if ignore {
            None
        } else {
            Some(e)
        },
        Ok(_) => match step.outcome {
            Some(Err(e)) => Some(e),
            _ => None,
        },
    }
}

/// The tokens the steps gave, in order.
pub open spec fn emitted(steps: Seq<ScriptStep>) -> Seq<OutputToken>
    decreases steps.len(),
{
    if steps.len() == 0 {
        seq![]
    } else {
        emitted(steps.drop_last()) + match steps.last().outcome {
            Some(Ok(t)) => seq![t],
            _ => Seq::<OutputToken>::empty(),
        }
    }
}

/// The line from which step `i` reads.
pub open spec fn position_before(steps: Seq<ScriptStep>, i: int) -> int {
    if i == 0 {
        0
    } else {
        steps[i - 1].next_position
    }
}

/// The symbols known when step `i` reads.
pub open spec fn table_before(steps: Seq<ScriptStep>, i: int) -> Option<Seq<SymbolEntry>> {
    if i == 0 {
        Some(Seq::<SymbolEntry>::empty())
    } else {
        steps[i - 1].table_after
    }
}

/// The state in which step `i` reads.
pub open spec fn state_before(steps: Seq<ScriptStep>, i: int) -> ScriptState {
    if i == 0 {
        fresh_state(0)
    } else {
        steps[i - 1].end
    }
}

/// Whether `steps` are the first steps of running `lines`, none of them
/// ending the script.
#[verifier::opaque]
pub open spec fn steps_taken<F: Fn(&str) -> Option<Vec<u8>>>(
    load: F,
    stop: bool,
    ignore: bool,
    lines: Seq<Seq<char>>,
    steps: Seq<ScriptStep>,
) -> bool {
    forall|i: int|
        0 <= i < steps.len() ==> {
            &&& step_taken(load, stop, lines, position_before(steps, i), table_before(steps, i), #[trigger] steps[i])
            &&& steps[i].start == state_before(steps, i)
            &&& step_error(steps[i], ignore) is None
        }
}

/// The report of a script that ran to its end with `failures` failures:
/// success, or an error counting them (at most `usize::MAX`).
pub open spec fn final_report(failures: nat, r: AppResult<()>) -> bool {
    if failures == 0 {
        r is Ok
    } else {
        r matches Err(e) && e.message@ == dec_repr(
            if failures > usize::MAX {
                usize::MAX as nat
            } else {
                failures
            },
        ) + " assertions failed!"@
    }
}

/// Whether running the script `lines` gave the tokens `tokens` and the
/// report `r`: its commands, read one after the other, were handled as
/// `steps` say, and either the last of them ended the script with its
/// error, or the lines ran out and the failures were counted.
#[verifier::opaque]
pub open spec fn script_ran<F: Fn(&str) -> Option<Vec<u8>>>(
    load: F,
    stop: bool,
    ignore: bool,
    lines: Seq<Seq<char>>,
    steps: Seq<ScriptStep>,
    tokens: Seq<OutputToken>,
    r: AppResult<()>,
) -> bool {
    &&& tokens == emitted(steps)
    &&& {
        ||| (steps_taken(load, stop, ignore, lines, steps) && next_statement(
        lines,
        position_before(steps, steps.len() as int),
    ).0 is None && final_report(state_before(steps, steps.len() as int).failures, r))
        ||| (steps.len() > 0 && steps_taken(load, stop, ignore, lines, steps.drop_last()) && step_taken(
        load,
        stop,
        lines,
        position_before(steps, steps.len() - 1),
        table_before(steps, steps.len() - 1),
        steps.last(),
    ) && steps.last().start == state_before(steps, steps.len() - 1) && step_error(steps.last(), ignore) is Some
            && r == Err::<(), AppError>(step_error(steps.last(), ignore)->Some_0))
    }
}

/// The machine a test plan runs on.
struct ExecutionRound {
    registers: Registers,
    memory: MemoryStack,
    symbols: Option<SymbolTable>,
    failed: bool,
}

impl ExecutionRound {
    /// Fresh registers and memory, no symbols.
    fn new() -> (r: ExecutionRound)
        ensures
            !r.failed,
            r.registers == reset_registers(0),
            r.memory.contents() == Seq::new(RAM_SIZE as nat, |i: int| 0u8),
            r.symbols is None,
    {
        ExecutionRound {
            registers: Registers::new(0x0000),
            memory: MemoryStack::new_with_ram(),
            symbols: None,
            failed: false,
        }
    }
}

/// Runs test scripts.
pub struct Executor {
    configuration: ExecutorConfiguration,
}

impl Executor {
    /// An executor with the given configuration.
    pub fn new(configuration: ExecutorConfiguration) -> (e: Executor)
        ensures
            e.stops_on_failure() == configuration.stop_on_failed_assertion,
            e.ignores_parse_errors() == configuration.ignore_parse_error,
    {
        Executor { configuration }
    }

    /// Whether a failed assertion stops its test plan.
    pub closed spec fn stops_on_failure(&self) -> bool {
        self.configuration.stop_on_failed_assertion
    }

    /// Whether lines that cannot be read are skipped.
    pub closed spec fn ignores_parse_errors(&self) -> bool {
        self.configuration.ignore_parse_error
    }

    /// Run the script `lines`, appending what each command reports to
    /// `tokens`. Each marker starts a test plan on fresh registers and
    /// memory. In a plan, after a run cut short (or a failed assertion,
    /// when so configured) the commands are skipped up to the next marker.
    /// The run fails when a line cannot be read (unless so configured),
    /// when a command fails, or, at the end, when there were failures.
    pub fn run<F: Fn(&str) -> Option<Vec<u8>>>(self, lines: Vec<String>, load: &F, tokens: &mut Vec<OutputToken>) -> (r:
        AppResult<()>)
        requires
            forall|p: &str| #[trigger] load.requires((p,)),
        ensures
            final(tokens)@.len() >= old(tokens)@.len(),
            final(tokens)@.subrange(0, old(tokens)@.len() as int) == old(tokens)@,
            ({
                let new = final(tokens)@.subrange(old(tokens)@.len() as int, final(tokens)@.len() as int);
                &&& r is Ok ==> forall|k: int| 0 <= k < new.len() ==> !is_failure(#[trigger] new[k])
                &&& forall|j: int|
                    0 <= j < new.len() && plan_stopped(new.subrange(0, j), self.stops_on_failure())
                        ==> #[trigger] new[j] is Marker
                &&& exists|steps: Seq<ScriptStep>|
                    #[trigger] script_ran(
                        *load,
                        self.stops_on_failure(),
                        self.ignores_parse_errors(),
                        texts(lines@),
                        steps,
                        new,
                        r,
                    )
            }),
    {
        let ghost start = tokens@;
        let ghost stop = self.configuration.stop_on_failed_assertion;
        let ghost ignore = self.configuration.ignore_parse_error;
        let ghost script = texts(lines@);
        let stop_on_failure = self.configuration.stop_on_failed_assertion;
        let mut round = ExecutionRound::new();
        let mut failed: usize = 0;
        let mut had_terminated_run = false;
        let mut commands = CommandIterator::new(lines);
        let ghost mut steps: Seq<ScriptStep> = seq![];
        let ghost mut failures: nat = 0;
        let ghost mut new: Seq<OutputToken> = seq![];
        assert(start + new =~= start);
        assert(steps_taken(*load, stop, ignore, script, steps)) by {
            reveal(steps_taken);
        }
        loop
            invariant_except_break
                commands.position() == position_before(steps, steps.len() as int),
                commands.table() == table_before(steps, steps.len() as int),
            invariant
                forall|p: &str| #[trigger] load.requires((p,)),
                stop == stop_on_failure,
                stop == self.stops_on_failure(),
                ignore == self.ignores_parse_errors(),
                ignore == self.configuration.ignore_parse_error,
                start == old(tokens)@,
                tokens@ == start + new,
                reported(new, failed, stop),
                (had_terminated_run || (round.failed && stop)) == plan_stopped(new, stop),
                commands.lines() == script,
                script == texts(lines@),
                steps_taken(*load, stop, ignore, script, steps),
                new == emitted(steps),
                state_before(steps, steps.len() as int) == (ScriptState {
                    registers: round.registers,
                    memory: round.memory.contents(),
                    symbols: round.symbols,
                    round_failed: round.failed,
                    terminated: had_terminated_run,
                    failures,
                }),
                failed == (if failures > usize::MAX {
                    usize::MAX as nat
                } else {
                    failures
                }),
            ensures
                tokens@ == start + new,
                reported(new, failed, stop),
                steps_taken(*load, stop, ignore, script, steps),
                new == emitted(steps),
                next_statement(script, position_before(steps, steps.len() as int)).0 is None,
                state_before(steps, steps.len() as int).failures == failures,
                failed == (if failures > usize::MAX {
                    usize::MAX as nat
                } else {
                    failures
                }),
            decreases commands.remaining(),
        {
            let ghost cur = state_before(steps, steps.len() as int);
            let ghost position = commands.position();
            let ghost table = commands.table();
            let result = match commands.next_command(load) {
                Some(x) => x,
                None => break,
            };
            let ghost read = result;
            let ghost text = next_statement(script, position).0->Some_0;
            let ghost idle = ScriptStep {
                text,
                read,
                table_after: commands.table(),
                next_position: commands.position(),
                start: cur,
                run_on: cur,
                outcome: None,
                end: cur,
            };
            let command = match result {
                Err(e) => {
                    proof {
                        assert(step_taken(*load, stop, script, position, table, idle)) by {
                            reveal(step_taken);
                        }
                        lemma_step_appended(*load, stop, ignore, script, steps, idle);
                    }
                    if !self.configuration.ignore_parse_error {
                        proof {
                            lemma_run_ends_with(*load, stop, ignore, script, steps, idle, new);
                            assert(tokens@.subrange(start.len() as int, tokens@.len() as int) =~= new);
                            assert(tokens@.subrange(0, start.len() as int) =~= start);
                            assert(script_ran(*load, stop, ignore, script, steps.push(idle), new, Err::<(), AppError>(e)));
                        }
                        return Err(e);
                    }
                    proof {
                        steps = steps.push(idle);
                    }
                    continue;
                },
                Ok(c) => c,
            };
            let is_marker = matches!(command, CliCommand::Marker(_));
            if matches!(command, CliCommand::Nothing) {
                proof {
                    assert(step_taken(*load, stop, script, position, table, idle)) by {
                        reveal(step_taken);
                    }
                    lemma_step_appended(*load, stop, ignore, script, steps, idle);
                    steps = steps.push(idle);
                }
                continue;
            } else if is_marker {
                round = ExecutionRound::new();
                had_terminated_run = false;
            } else if had_terminated_run || (round.failed && stop_on_failure) {
                proof {
                    assert(step_taken(*load, stop, script, position, table, idle)) by {
                        reveal(step_taken);
                    }
                    lemma_step_appended(*load, stop, ignore, script, steps, idle);
                    steps = steps.push(idle);
                }
                continue;
            }
            let ghost run_on = ScriptState {
                registers: round.registers,
                memory: round.memory.contents(),
                symbols: round.symbols,
                round_failed: round.failed,
                terminated: had_terminated_run,
                failures,
            };
            assert(run_on == (if is_marker {
                fresh_state(cur.failures)
            } else {
                cur
            }));
            let ghost failed_before = failed;
            assert(is_marker || !plan_stopped(new, stop));
            let outcome = command.execute(&mut round.registers, &mut round.memory, &mut round.symbols, load);
            let ghost executed = outcome;
            let token = match outcome {
                Ok(t) => t,
                Err(e) => {
                    proof {
                        let last = ScriptStep {
                            text,
                            read,
                            table_after: commands.table(),
                            next_position: commands.position(),
                            start: cur,
                            run_on,
                            outcome: Some(executed),
                            end: ScriptState {
                                registers: round.registers,
                                memory: round.memory.contents(),
                                symbols: round.symbols,
                                ..run_on
                            },
                        };
                        assert(step_taken(*load, stop, script, position, table, last)) by {
                            reveal(step_taken);
                        }
                        lemma_step_appended(*load, stop, ignore, script, steps, last);
                        lemma_run_ends_with(*load, stop, ignore, script, steps, last, new);
                        assert(tokens@.subrange(start.len() as int, tokens@.len() as int) =~= new);
                        assert(tokens@.subrange(0, start.len() as int) =~= start);
                        assert(script_ran(*load, stop, ignore, script, steps.push(last), new, Err::<(), AppError>(e)));
                    }
                    return Err(e);
                },
            };
            assert(is_marker ==> token is Marker) by {
                reveal(command_outcome);
            }
            let failure = match &token {
                OutputToken::Assertion { failure, .. } => failure.is_some(),
                OutputToken::TerminatedRun { .. } => true,
                _ => false,
            };
            let terminated = matches!(token, OutputToken::TerminatedRun { .. });
            if failure {
                if failed < usize::MAX {
                    failed = failed + 1;
                }
                round.failed = true;
            }
            if terminated {
                had_terminated_run = true;
            }
            let ghost t = token;
            assert(failure == is_failure(t));
            assert(terminated == (t is TerminatedRun));
            proof {
                if failure {
                    failures = failures + 1;
                }
            }
            let ghost done = ScriptStep {
                text,
                read,
                table_after: commands.table(),
                next_position: commands.position(),
                start: cur,
                run_on,
                outcome: Some(executed),
                end: ScriptState {
                    registers: round.registers,
                    memory: round.memory.contents(),
                    symbols: round.symbols,
                    round_failed: round.failed,
                    terminated: had_terminated_run,
                    failures,
                },
            };
            tokens.push(token);
            proof {
                assert(step_taken(*load, stop, script, position, table, done)) by {
                    reveal(step_taken);
                }
                lemma_step_appended(*load, stop, ignore, script, steps, done);
                assert(emitted(steps.push(done)) =~= emitted(steps).push(t)) by {
                    assert(steps.push(done).drop_last() =~= steps);
                }
                lemma_token_reported(new, t, failed_before, failed, stop);
                lemma_plan_stopped_push(new, t, stop);
                assert(start + new.push(t) =~= (start + new).push(t));
                steps = steps.push(done);
                new = new.push(t);
            }
        }
        assert(tokens@.subrange(start.len() as int, tokens@.len() as int) =~= new);
        assert(tokens@.subrange(0, start.len() as int) =~= start);
        if failed > 0 {
            let mut s = String::new();
            push_dec(&mut s, failed as u128);
            push_str(&mut s, " assertions failed!");
            let e = AppError::new(s);
            assert(final_report(failures, Err::<(), AppError>(e)));
            assert(script_ran(*load, stop, ignore, script, steps, new, Err::<(), AppError>(e))) by {
                reveal(script_ran);
            }
            return Err(e);
        }
        assert(script_ran(*load, stop, ignore, script, steps, new, Ok::<(), AppError>(()))) by {
            reveal(script_ran);
        }
        Ok(())
    }
}

/// What the tokens `ts` show of a run so far: `failed` is 0 exactly when
/// none tells of a failure, and in a stopped test plan only a marker comes.
pub open spec fn reported(ts: Seq<OutputToken>, failed: usize, stop: bool) -> bool {
    &&& (failed == 0 <==> forall|k: int| 0 <= k < ts.len() ==> !is_failure(#[trigger] ts[k]))
    &&& forall|j: int| 0 <= j < ts.len() && plan_stopped(ts.subrange(0, j), stop) ==> #[trigger] ts[j] is Marker
}

/// Appending a token `t` that the plan allows (a marker, or any token
/// while the plan is not stopped), and counting it when it tells of a
/// failure, keeps what the tokens show.
proof fn lemma_token_reported(ts: Seq<OutputToken>, t: OutputToken, failed_before: usize, failed: usize, stop: bool)
    requires
        reported(ts, failed_before, stop),
        t is Marker || !plan_stopped(ts, stop),
        is_failure(t) ==> failed > 0,
        !is_failure(t) ==> failed == failed_before,
        failed_before > 0 ==> failed > 0,
    ensures
        reported(ts.push(t), failed, stop),
{
    let s = ts.push(t);
    assert(s.subrange(0, ts.len() as int) =~= ts);
    if failed == 0 {
        assert forall|k: int| 0 <= k < s.len() implies !is_failure(#[trigger] s[k]) by {
            if k < ts.len() {
                assert(s[k] == ts[k]);
            }
        }
    } else if failed_before == 0 {
        assert(is_failure(s[s.len() - 1]));
    } else {
        let k = choose|k: int| 0 <= k < ts.len() && is_failure(#[trigger] ts[k]);
        assert(s[k] == ts[k]);
    }
    assert forall|j: int| 0 <= j < s.len() && plan_stopped(s.subrange(0, j), stop) implies #[trigger] s[j] is Marker by {
        if j < ts.len() {
            assert(s.subrange(0, j) =~= ts.subrange(0, j));
            assert(s[j] == ts[j]);
        }
    }
}

/// Taking one more step keeps the steps taken, when it reads where the
/// last one stopped, in the state it left, and does not end the script.
proof fn lemma_step_appended<F: Fn(&str) -> Option<Vec<u8>>>(
    load: F,
    stop: bool,
    ignore: bool,
    lines: Seq<Seq<char>>,
    steps: Seq<ScriptStep>,
    step: ScriptStep,
)
    requires
        steps_taken(load, stop, ignore, lines, steps),
        step_taken(load, stop, lines, position_before(steps, steps.len() as int), table_before(steps, steps.len() as int), step),
        step.start == state_before(steps, steps.len() as int),
    ensures
        step_error(step, ignore) is None ==> steps_taken(load, stop, ignore, lines, steps.push(step)),
        position_before(steps.push(step), (steps.len() + 1) as int) == step.next_position,
        table_before(steps.push(step), (steps.len() + 1) as int) == step.table_after,
        state_before(steps.push(step), (steps.len() + 1) as int) == step.end,
        steps.push(step).drop_last() == steps,
        steps.push(step).last() == step,
        position_before(steps.push(step), steps.len() as int) == position_before(steps, steps.len() as int),
        table_before(steps.push(step), steps.len() as int) == table_before(steps, steps.len() as int),
        state_before(steps.push(step), steps.len() as int) == state_before(steps, steps.len() as int),
{
    reveal(steps_taken);
    let all = steps.push(step);
    assert(all.drop_last() =~= steps);
    if step_error(step, ignore) is None {
        assert forall|i: int| 0 <= i < all.len() implies {
            &&& step_taken(load, stop, lines, position_before(all, i), table_before(all, i), #[trigger] all[i])
            &&& all[i].start == state_before(all, i)
            &&& step_error(all[i], ignore) is None
        } by {
            if i < steps.len() {
                assert(all[i] == steps[i]);
                if i > 0 {
                    assert(all[i - 1] == steps[i - 1]);
                }
            }
        }
    }
}

/// A step that ends the script with an error makes the script's report
/// that error.
proof fn lemma_run_ends_with<F: Fn(&str) -> Option<Vec<u8>>>(
    load: F,
    stop: bool,
    ignore: bool,
    lines: Seq<Seq<char>>,
    steps: Seq<ScriptStep>,
    step: ScriptStep,
    tokens: Seq<OutputToken>,
)
    requires
        steps_taken(load, stop, ignore, lines, steps),
        step_taken(load, stop, lines, position_before(steps, steps.len() as int), table_before(steps, steps.len() as int), step),
        step.start == state_before(steps, steps.len() as int),
        step_error(step, ignore) is Some,
        !(step.outcome matches Some(Ok(_))),
        tokens == emitted(steps),
    ensures
        script_ran(load, stop, ignore, lines, steps.push(step), tokens, Err::<(), AppError>(step_error(step, ignore)->Some_0)),
{
    reveal(script_ran);
    let all = steps.push(step);
    assert(all.drop_last() =~= steps);
    assert(position_before(all, all.len() - 1) == position_before(steps, steps.len() as int));
    assert(table_before(all, all.len() - 1) == table_before(steps, steps.len() as int));
    assert(state_before(all, all.len() - 1) == state_before(steps, steps.len() as int));
    assert(emitted(all) =~= emitted(steps));
}

/// How pushing a token changes whether the plan is stopped.
proof fn lemma_plan_stopped_push(ts: Seq<OutputToken>, t: OutputToken, stop: bool)
    ensures
        plan_stopped(ts.push(t), stop) == if t is Marker {
            false
        } else {
            plan_stopped(ts, stop) || is_blocking(t, stop)
        },
{
    let s = ts.push(t);
    if t is Marker {
        if plan_stopped(s, stop) {
            let i = choose|i: int| 0 <= i < s.len() && #[trigger] is_blocking(s[i], stop) && no_marker_after(s, i);
            if i < ts.len() {
                assert(s[s.len() - 1] is Marker);
            }
        }
    } else {
        if plan_stopped(ts, stop) {
            let i = choose|i: int| 0 <= i < ts.len() && #[trigger] is_blocking(ts[i], stop) && no_marker_after(ts, i);
            assert(s[i] == ts[i]);
            assert forall|k: int| i < k < s.len() implies !(#[trigger] s[k] is Marker) by {
                if k < ts.len() {
                    assert(s[k] == ts[k]);
                }
            }
            assert(is_blocking(s[i], stop) && no_marker_after(s, i));
        }
        if is_blocking(t, stop) {
            assert(is_blocking(s[s.len() - 1], stop) && no_marker_after(s, s.len() - 1));
        }
        if plan_stopped(s, stop) {
            let i = choose|i: int| 0 <= i < s.len() && #[trigger] is_blocking(s[i], stop) && no_marker_after(s, i);
            if i < ts.len() {
                assert(s[i] == ts[i]);
                assert forall|k: int| i < k < ts.len() implies !(#[trigger] ts[k] is Marker) by {
                    assert(s[k] == ts[k]);
                }
                assert(is_blocking(ts[i], stop) && no_marker_after(ts, i));
            }
        }
    }
}

/// In a stopped test plan (a run was cut short, or an assertion failed and
/// failures stop the plan) every command but a marker is skipped: it
/// gives no output and changes nothing.
pub proof fn law_stopped_plan_skips_commands<F: Fn(&str) -> Option<Vec<u8>>>(
    load: F,
    stop: bool,
    ignore: bool,
    lines: Seq<Seq<char>>,
    steps: Seq<ScriptStep>,
    i: int,
)
    requires
        steps_taken(load, stop, ignore, lines, steps),
        0 <= i < steps.len(),
        stopped(steps[i].start, stop),
        !(steps[i].read matches Ok(CliCommand::Marker(_))),
    ensures
        steps[i].outcome is None,
        steps[i].end == steps[i].start,
{
    reveal(steps_taken);
    reveal(step_taken);
    assert(step_taken(load, stop, lines, position_before(steps, i), table_before(steps, i), steps[i]));
}

/// A run cut short stops its test plan: the state after it is stopped, so
/// the commands up to the next marker are skipped.
pub proof fn law_terminated_run_stops_plan<F: Fn(&str) -> Option<Vec<u8>>>(
    load: F,
    stop: bool,
    lines: Seq<Seq<char>>,
    position: int,
    table: Option<Seq<SymbolEntry>>,
    step: ScriptStep,
)
    requires
        step_taken(load, stop, lines, position, table, step),
        step.outcome matches Some(Ok(t)) && t is TerminatedRun,
    ensures
        stopped(step.end, stop),
{
    reveal(step_taken);
}

} // verus!
