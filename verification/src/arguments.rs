//! The options of the command line tester, and what they decide: where the
//! script is read from and where the report goes.
use crate::error::{AppError, AppResult};
use crate::text::{chars_of, escaped_char, push_escaped, push_str};
use vstd::prelude::*;

verus! {

/// The options the tester is started with. A path of `-` stands for the
/// standard input or output.
pub struct CommandLineArguments {
    /// Where the test script is read from.
    pub input_filepath: String,
    /// Where the report is written to.
    pub output_filepath: String,
    /// Go on with a test plan after a failed assertion.
    pub continue_on_failure: bool,
    /// Also report the output of the setup commands.
    pub verbose: bool,
    /// Only read the script, without running it.
    pub parse: bool,
}

/// Whether a path names the standard stream.
pub open spec fn is_standard_stream(path: Seq<char>) -> bool {
    path == seq!['-']
}

/// The characters of `s`, each escaped as inside double quotes.
pub open spec fn escaped(s: Seq<char>) -> Seq<char>
    decreases s.len(),
{
    if s.len() == 0 {
        seq![]
    } else {
        escaped(s.drop_last()) + escaped_char(s.last(), '"')
    }
}

/// The message for a script file that does not exist.
pub open spec fn missing_file_message(path: Seq<char>) -> Seq<char> {
    "File not found: '\""@ + escaped(path) + "\"'."@
}

/// Whether `s` is the single character `-`.
fn is_dash(s: &String) -> (b: bool)
    ensures
        b == is_standard_stream(s@),
{
    let v = chars_of(s.as_str());
    let b = v.len() == 1 && v[0] == '-';
    proof {
        if b {
            assert(v@ =~= seq!['-']);
        }
    }
    b
}

impl CommandLineArguments {
    /// Whether the script is read from the standard input.
    pub fn read_from_standard_input(&self) -> (b: bool)
        ensures
            b == is_standard_stream(self.input_filepath@),
    {
        is_dash(&self.input_filepath)
    }

    /// Whether the report is written to the standard output.
    pub fn write_to_standard_output(&self) -> (b: bool)
        ensures
            b == is_standard_stream(self.output_filepath@),
    {
        is_dash(&self.output_filepath)
    }

    /// The script file to open, given whether it exists: none when the
    /// script comes from the standard input, nor when the file is missing.
    pub fn get_input_file_path(&self, exists: bool) -> (r: AppResult<String>)
        ensures
            is_standard_stream(self.input_filepath@) ==> (r matches Err(e) && e.message@
                == "Reading from standard input."@),
            !is_standard_stream(self.input_filepath@) && exists ==> (r matches Ok(p) && p@
                == self.input_filepath@),
            !is_standard_stream(self.input_filepath@) && !exists ==> (r matches Err(e) && e.message@
                == missing_file_message(self.input_filepath@)),
    {
        if self.read_from_standard_input() {
            let mut s = String::new();
            push_str(&mut s, "Reading from standard input.");
            Err(AppError::new(s))
        } else if exists {
            Ok(self.input_filepath.clone())
        } else {
            let v = chars_of(self.input_filepath.as_str());
            let mut s = String::new();
            push_str(&mut s, "File not found: '\"");
            let mut i: usize = 0;
            while i < v.len()
                invariant
                    i <= v@.len(),
                    s@ == "File not found: '\""@ + escaped(v@.subrange(0, i as int)),
                decreases v@.len() - i,
            {
                push_escaped(&mut s, v[i], '"');
                assert(v@.subrange(0, i + 1).drop_last() =~= v@.subrange(0, i as int));
                i = i + 1;
            }
            assert(v@.subrange(0, v@.len() as int) =~= v@);
            push_str(&mut s, "\"'.");
            Err(AppError::new(s))
        }
    }
}

} // verus!
