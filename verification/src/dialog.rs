//! Operator dialog: formats the warning lines shown on the bench.  The
//! highlighted marker comes from the `colored` crate; whether it carries
//! ANSI styling depends on the process-global colour setting, so only its
//! composition into the line is proved.

use colored::Colorize;
use vstd::prelude::*;
use vstd::string::StringExecFns;

verus! {

/// Relies on colored's `Colorize::red`, `Colorize::bold` and
/// `ColoredString`'s `Display`: the rendered marker is the styled or plain
/// exclamation mark, never empty.
#[verifier::external_body]
fn warning_mark() -> (s: String)
    ensures
        s@.len() >= 1,
{
    "!".red().bold().to_string()
}

/// Joins a marker and a message into one operator-facing line: the marker, a
/// space, the message, a newline.
pub fn compose_inform(mark: &str, msg: &str) -> (line: String)
    ensures
        line@ == mark@ + " "@ + msg@ + "\n"@,
{
    mark.to_owned().concat(" ").concat(msg).concat("\n")
}

/// The warning line shown to the operator for `msg`: a highlighted,
/// non-empty marker, a space, the message, a newline.  The caller writes it
/// to its output stream.
pub fn inform(msg: &str) -> (line: String)
    ensures
        exists|mark: Seq<char>|
            mark.len() >= 1 && line@ == mark + " "@ + msg@ + "\n"@,
{
    let mark = warning_mark();
    let line = compose_inform(mark.as_str(), msg);
    proof {
        assert(mark@.len() >= 1 && line@ == mark@ + " "@ + msg@ + "\n"@);
    }
    line
}

} // verus!
