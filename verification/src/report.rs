//! The wording of failure reports.

use vstd::prelude::*;

verus! {

/// The line that reports that `method_name` failed with `err`.
pub open spec fn failure_line(method_name: Seq<char>, err: Seq<char>) -> Seq<char> {
    method_name + "() failed: "@ + err
}

/// The line that reports one cause of a failure.
pub open spec fn cause_line(cause: Seq<char>) -> Seq<char> {
    "  Caused by: "@ + cause
}

/// The lines that report a failure of `method_name`, for the log: the error
/// itself first, then each of its causes in order, nearest first.
pub fn log_error(method_name: &str, err: &str, causes: &Vec<String>) -> (lines: Vec<String>)
    ensures
        lines@.len() == 1 + causes@.len(),
        lines@[0]@ == failure_line(method_name@, err@),
        forall|i: int| 0 <= i < causes@.len() ==> (#[trigger] lines@[i + 1])@ == cause_line(causes@[i]@),
{
    let mut lines: Vec<String> = Vec::new();
    lines.push(String::from_str(method_name).concat("() failed: ").concat(err));
    let n = causes.len();
    let mut i: usize = 0;
    while i < n
        invariant
            n == causes@.len(),
            i <= n,
            lines@.len() == 1 + i,
            lines@[0]@ == failure_line(method_name@, err@),
            forall|j: int| 0 <= j < i ==> (#[trigger] lines@[j + 1])@ == cause_line(causes@[j]@),
        decreases n - i,
    {
        let line = String::from_str("  Caused by: ").concat(causes[i].as_str());
        lines.push(line);
        i = i + 1;
    }
    lines
}

} // verus!
