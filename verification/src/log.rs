use vstd::prelude::*;
use vstd::string::StringExecFns;
use crate::text::{digits, push_digits};

verus! {

/// Writes the messages that the library reports to its user.
pub struct Log {}

/// The line that reports `message` with the weight `importance` for the
/// source line `line`.
pub open spec fn report_line(importance: Seq<char>, line: nat, message: Seq<char>) -> Seq<char> {
    "[ Line "@ + digits(line) + " ] "@ + importance + " : "@ + message
}

impl Log {
    /// The line that reports the error `message` for the source line
    /// `line`.
    pub fn error(line: usize, message: &str) -> (s: String)
        ensures
            s@ == report_line("error"@, line as nat, message@),
    {
        Log::report("error", line, message)
    }

    fn report(importance: &str, line: usize, message: &str) -> (s: String)
        ensures
            s@ == report_line(importance@, line as nat, message@),
    {
        let mut s = String::from_str("[ Line ");
        push_digits(&mut s, line as u128);
        s.append(" ] ");
        s.append(importance);
        s.append(" : ");
        s.append(message);
        s
    }
}

} // verus!
