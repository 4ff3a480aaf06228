//! Running an outside program, as the unit-test runner does to call the
//! tester: which program, whether to tell what is run, and what its exit
//! and its error output make of the run.
use crate::text::{chars_of, push_str, string_between, trimmed, trimmed_bounds};
use vstd::prelude::*;

verus! {

/// Something that runs a program with arguments and tells whether it
/// succeeded, with a message when it did not. The unit-test runner is
/// given one; tests give it a stand-in.
pub trait Executor {
    /// Run with the arguments `args`.
    fn execute(&self, args: &[String]) -> Result<(), String>;
}

/// A program to run by name, and whether to tell what is run.
pub struct CommandExecutor {
    pub executable: String,
    pub verbose: bool,
}

/// The prefix by which a program marks its error output as a message.
pub open spec fn error_marker() -> Seq<char> {
    "Error:"@
}

/// Whether the error output, trimmed, starts with the marker.
pub open spec fn is_error_report(stderr: Seq<char>) -> bool {
    let t = trimmed(stderr);
    t.len() >= 6 && t.subrange(0, 6) == error_marker()
}

/// What a finished run comes to: success when the program succeeded;
/// otherwise the message after the marker, trimmed, when the error output
/// has one, else the whole error output.
pub open spec fn run_outcome(success: bool, stderr: Seq<char>) -> Result<(), Seq<char>> {
    if success {
        Ok(())
    } else if is_error_report(stderr) {
        Err(trimmed(trimmed(stderr).subrange(6, trimmed(stderr).len() as int)))
    } else {
        Err(stderr)
    }
}

/// Whether the trimmed `c[x..y]` starts with the marker.
fn starts_with_marker(c: &Vec<char>, x: usize, y: usize) -> (b: bool)
    requires
        x <= y <= c@.len(),
    ensures
        b == (y - x >= 6 && c@.subrange(x as int, x + 6) == error_marker()),
{
    proof {
        reveal_strlit("Error:");
    }
    if y - x < 6 {
        return false;
    }
    let b = c[x] == 'E' && c[x + 1] == 'r' && c[x + 2] == 'r' && c[x + 3] == 'o' && c[x + 4] == 'r' && c[x + 5] == ':';
    proof {
        if b {
            assert(c@.subrange(x as int, x + 6) =~= error_marker());
        } else {
            if c@.subrange(x as int, x + 6) == error_marker() {
                assert(c@.subrange(x as int, x + 6)[0] == 'E');
                assert(c@.subrange(x as int, x + 6)[1] == 'r');
                assert(c@.subrange(x as int, x + 6)[2] == 'r');
                assert(c@.subrange(x as int, x + 6)[3] == 'o');
                assert(c@.subrange(x as int, x + 6)[4] == 'r');
                assert(c@.subrange(x as int, x + 6)[5] == ':');
            }
        }
    }
    b
}

impl CommandExecutor {
    /// Run `executable`, without telling what is run.
    pub fn new(executable: &str) -> (e: CommandExecutor)
        ensures
            e.executable@ == executable@,
            !e.verbose,
    {
        CommandExecutor::with_verbose(executable, false)
    }

    /// Run `executable`, telling what is run when `verbose`.
    pub fn with_verbose(executable: &str, verbose: bool) -> (e: CommandExecutor)
        ensures
            e.executable@ == executable@,
            e.verbose == verbose,
    {
        let mut s = String::new();
        push_str(&mut s, executable);
        CommandExecutor { executable: s, verbose }
    }

    /// Whether the error output of a run is a message by the program itself
    /// (it starts with the marker), which is then not shown as it stands.
    pub fn is_error_report(&self, stderr: &str) -> (b: bool)
        ensures
            b == is_error_report(stderr@),
    {
        let c = chars_of(stderr);
        let (x, y) = trimmed_bounds(&c, 0, c.len());
        proof {
            assert(c@.subrange(0, c@.len() as int) =~= c@);
        }
        let b = starts_with_marker(&c, x, y);
        proof {
            let t = c@.subrange(x as int, y as int);
            if y - x >= 6 {
                assert(t.subrange(0, 6) =~= c@.subrange(x as int, x + 6));
            }
        }
        b
    }

    /// What a run that exited with `success` and wrote `stderr` comes to;
    /// see `run_outcome`.
    pub fn outcome(&self, success: bool, stderr: &str) -> (r: Result<(), String>)
        ensures
            match (r, run_outcome(success, stderr@)) {
                (Ok(()), Ok(())) => true,
                (Err(m), Err(e)) => m@ == e,
                _ => false,
            },
    {
        if success {
            return Ok(());
        }
        let c = chars_of(stderr);
        let (x, y) = trimmed_bounds(&c, 0, c.len());
        proof {
            assert(c@.subrange(0, c@.len() as int) =~= c@);
        }
        if starts_with_marker(&c, x, y) {
            let (a, b) = trimmed_bounds(&c, x + 6, y);
            proof {
                let t = c@.subrange(x as int, y as int);
                assert(t.subrange(0, 6) =~= c@.subrange(x as int, x + 6));
                assert(t.subrange(6, t.len() as int) =~= c@.subrange(x + 6, y as int));
            }
            Err(string_between(&c, a, b))
        } else {
            proof {
                let t = c@.subrange(x as int, y as int);
                if y - x >= 6 {
                    assert(t.subrange(0, 6) =~= c@.subrange(x as int, x + 6));
                }
            }
            let mut s = String::new();
            push_str(&mut s, stderr);
            Err(s)
        }
    }
}

} // verus!
