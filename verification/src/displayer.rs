//! How the results of a test script are shown to the user, one token at a
//! time.
use crate::commands::OutputToken;
use crate::cpu_instruction::{log_line_text, LogLine};
use crate::text::{dec_chars, dec_repr, push_chars, push_repeat, push_str, zero_pad};
use vstd::prelude::*;

verus! {

/// The trace line of an executed instruction.
pub open spec fn log_text(l: LogLine) -> Seq<char> {
    log_line_text(
        l.address,
        l.opcode,
        l.resolution.operands@,
        l.mnemonic@,
        l.resolution.addressing_mode,
        l.resolution.target_address,
        l.outcome@,
        l.cycles,
    )
}

/// `✅` for a passed assertion, `❌ (why)` for a failed one.
pub open spec fn verdict_text(failure: Option<String>) -> Seq<char> {
    match failure {
        None => "✅"@,
        Some(m) => "❌ ("@ + m@ + ")"@,
    }
}

/// The line of the assertion numbered `number`: `⚡ 01 → description ✅`.
pub open spec fn assertion_line(number: nat, description: Seq<char>, failure: Option<String>) -> Seq<char> {
    "⚡ "@ + zero_pad(dec_repr(number), 2) + " → "@ + description + " "@ + verdict_text(failure) + "\n"@
}

/// The trace lines of a run, each after `🚀 `, separated by new lines.
pub open spec fn run_lines(logs: Seq<LogLine>) -> Seq<char>
    decreases logs.len(),
{
    if logs.len() == 0 {
        seq![]
    } else if logs.len() == 1 {
        "🚀 "@ + log_text(logs[0])
    } else {
        run_lines(logs.drop_last()) + "\n"@ + "🚀 "@ + log_text(logs.last())
    }
}

/// The cycles that the instructions of a run took, all together.
pub open spec fn total_cycles(logs: Seq<LogLine>) -> nat
    decreases logs.len(),
{
    if logs.len() == 0 {
        0
    } else {
        total_cycles(logs.drop_last()) + logs.last().cycles as nat
    }
}

/// What a run shows: its trace, then the total of cycles when it executed
/// more than one instruction.
pub open spec fn run_text(logs: Seq<LogLine>) -> Seq<char> {
    run_lines(logs) + "\n"@ + if logs.len() > 1 {
        "🕒 Total cycles: "@ + dec_repr(total_cycles(logs)) + "\n"@
    } else {
        seq![]
    }
}

/// What is shown of `token`; `number` is the number of an assertion.
/// Runs and set-up messages are shown in verbose mode only; a run cut
/// short and an empty report show nothing.
pub open spec fn token_text(verbose: bool, number: nat, token: OutputToken) -> Seq<char> {
    match token {
        OutputToken::Assertion { failure, description } => assertion_line(number, description@, failure),
        OutputToken::Marker { description } => "📄 "@ + description@ + "\n"@,
        OutputToken::Run { loglines, .. } => if verbose {
            run_text(loglines@)
        } else {
            seq![]
        },
        OutputToken::Setup(lines) => if verbose {
            "🔧 Setup: "@ + lines@[0]@ + "\n"@
        } else {
            seq![]
        },
        _ => seq![],
    }
}

/// Whether a token can be shown with its set-up messages: a set-up report
/// has at least one message.
pub open spec fn displayable(token: OutputToken) -> bool {
    match token {
        OutputToken::Setup(lines) => lines@.len() > 0,
        _ => true,
    }
}

/// Something that shows the tokens of a running test script.
pub trait Displayer {
    /// Whether set-up messages are shown.
    spec fn shows_setup(&self) -> bool;

    /// The text that shows `token`.
    fn display(&mut self, token: &OutputToken) -> (text: String)
        requires
            old(self).shows_setup() ==> displayable(*token),
    ;
}

/// Shows tokens as lines of text, numbering the assertions.
#[derive(Debug)]
pub struct CliDisplayer {
    /// Whether runs and set-up messages are shown too.
    pub verbose: bool,
    /// How many assertions were shown so far.
    pub assertions: u32,
}

impl CliDisplayer {
    /// A displayer that has shown nothing yet.
    pub fn new(verbose: bool) -> (d: CliDisplayer)
        ensures
            d.verbose == verbose,
            d.assertions == 0,
    {
        CliDisplayer { verbose, assertions: 0 }
    }
}

/// The next assertion number; the counter wraps around past `u32::MAX`.
pub open spec fn next_number(n: u32) -> u32 {
    if n == u32::MAX {
        0
    } else {
        (n + 1) as u32
    }
}

/// Appends the trace of a run and its total of cycles.
fn push_run(s: &mut String, loglines: &Vec<LogLine>)
    ensures
        final(s)@ == old(s)@ + run_text(loglines@),
{
    let ghost start = s@;
    let mut total: u128 = 0;
    let mut i: usize = 0;
    while i < loglines.len()
        invariant
            i <= loglines@.len(),
            s@ == start + run_lines(loglines@.subrange(0, i as int)),
            total == total_cycles(loglines@.subrange(0, i as int)),
            total <= 255 * i,
        decreases loglines@.len() - i,
    {
        let ghost before = loglines@.subrange(0, i as int);
        let ghost after = loglines@.subrange(0, i + 1);
        assert(after.drop_last() =~= before);
        if i > 0 {
            push_str(s, "\n");
        }
        push_str(s, "🚀 ");
        let line = loglines[i].to_string();
        push_str(s, line.as_str());
        total = total + loglines[i].cycles as u128;
        i = i + 1;
        assert(s@ =~= start + run_lines(after));
    }
    assert(loglines@.subrange(0, loglines@.len() as int) =~= loglines@);
    push_str(s, "\n");
    if loglines.len() > 1 {
        push_str(s, "🕒 Total cycles: ");
        let digits = dec_chars(total);
        push_chars(s, &digits);
        push_str(s, "\n");
    }
    assert(s@ =~= start + run_text(loglines@));
}

impl Displayer for CliDisplayer {
    open spec fn shows_setup(&self) -> bool {
        self.verbose
    }

    fn display(&mut self, token: &OutputToken) -> (text: String)
        ensures
            final(self).verbose == old(self).verbose,
            final(self).assertions == (if token is Assertion {
                next_number(old(self).assertions)
            } else {
                old(self).assertions
            }),
            text@ == token_text(old(self).verbose, final(self).assertions as nat, *token),
    {
        let mut s = String::new();
        let ghost e = s@;
        match token {
            OutputToken::Assertion { failure, description } => {
                self.assertions = if self.assertions == u32::MAX {
                    0
                } else {
                    self.assertions + 1
                };
                push_str(&mut s, "⚡ ");
                let digits = dec_chars(self.assertions as u128);
                if digits.len() < 2 {
                    push_repeat(&mut s, '0', 2 - digits.len());
                }
                push_chars(&mut s, &digits);
                push_str(&mut s, " → ");
                push_str(&mut s, description.as_str());
                push_str(&mut s, " ");
                match failure {
                    None => push_str(&mut s, "✅"),
                    Some(m) => {
                        push_str(&mut s, "❌ (");
                        push_str(&mut s, m.as_str());
                        push_str(&mut s, ")");
                    },
                }
                push_str(&mut s, "\n");
                assert(s@ =~= e + assertion_line(self.assertions as nat, description@, *failure));
            },
            OutputToken::Marker { description } => {
                push_str(&mut s, "📄 ");
                push_str(&mut s, description.as_str());
                push_str(&mut s, "\n");
            },
            OutputToken::Run { loglines, .. } => {
                if self.verbose {
                    push_run(&mut s, loglines);
                }
            },
            OutputToken::Setup(lines) => {
                if self.verbose {
                    push_str(&mut s, "🔧 Setup: ");
                    push_str(&mut s, lines[0].as_str());
                    push_str(&mut s, "\n");
                }
            },
            _ => {},
        }
        assert(s@ =~= token_text(self.verbose, self.assertions as nat, *token));
        s
    }
}

} // verus!
