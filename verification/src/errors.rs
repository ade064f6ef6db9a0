use vstd::prelude::*;

use crate::selector::SelectionError;
use crate::text::{dec_str, usize_to_string};

verus! {

/// Everything that can go wrong in one extraction-to-execution cycle.
#[derive(Debug, Clone, Copy, PartialEq, Eq, Structural)]
pub enum RunError {
    /// The document file could not be read.
    Load,
    /// The document could not be parsed into its structural tree.
    Parse,
    /// The selector token picked no block.
    Selection(SelectionError),
    /// The external compiler reported failure.
    Compile,
    /// The scratch directory or a child process could not be set up.
    Execution,
}

/// The message each error carries to the user. An out-of-range ordinal names
/// the number of blocks the document holds, since that is the expected
/// failure mode of casual use.
pub open spec fn spec_message(e: RunError) -> Seq<char> {
    match e {
        RunError::Load => "could not read the document"@,
        RunError::Parse => "could not parse the document"@,
        RunError::Selection(SelectionError::Malformed) => "not a valid block selector"@,
        RunError::Selection(SelectionError::OutOfRange { count }) => "There are only "@ + dec_str(
            count as nat,
        ) + " blocks!"@,
        RunError::Selection(SelectionError::LineNotFound) => "no block contains that line"@,
        RunError::Compile => "Failed to compile the program!"@,
        RunError::Execution => "could not start the compiled program"@,
    }
}

impl RunError {
    /// The user-legible message for this error, as `spec_message` gives it.
    pub fn message(&self) -> (r: String)
        ensures
            r@ == spec_message(*self),
    {
        match *self {
            RunError::Load => String::from_str("could not read the document"),
            RunError::Parse => String::from_str("could not parse the document"),
            RunError::Selection(SelectionError::Malformed) => String::from_str(
                "not a valid block selector",
            ),
            RunError::Selection(SelectionError::OutOfRange { count }) => {
                let mut out = String::from_str("There are only ");
                let num = usize_to_string(count);
                out.append(num.as_str());
                out.append(" blocks!");
                proof {
                    assert(out@ =~= spec_message(*self));
                }
                out
            },
            RunError::Selection(SelectionError::LineNotFound) => String::from_str(
                "no block contains that line",
            ),
            RunError::Compile => String::from_str("Failed to compile the program!"),
            RunError::Execution => String::from_str("could not start the compiled program"),
        }
    }
}

} // verus!
