//! The arguments that the program was started with.

use crate::chars::{decimal, decimal_text};
use vstd::prelude::*;

verus! {

/// The command line: the program's name first, then its arguments.
pub struct Args {
    values: Vec<String>,
}

impl View for Args {
    type V = Seq<Seq<char>>;

    closed spec fn view(&self) -> Seq<Seq<char>> {
        self.values@.map_values(|s: String| s@)
    }
}

/// Why an argument could not be had.
pub enum ArgsError {
    /// The command line has no argument at this position; the second field
    /// says what was expected there.
    CannotGetArgument(usize, String),
}

/// The sentence that reports `e`.
pub open spec fn args_error_text(e: ArgsError) -> Seq<char> {
    match e {
        ArgsError::CannotGetArgument(n, x) => "We expect argument "@ + decimal_text(n as nat)
            + " to be "@ + x@
            + ", but we didn't get this argument from command line. "@,
    }
}

impl ArgsError {
    /// The sentence that reports this error.
    pub fn into(self) -> (out: String)
        ensures
            out@ == args_error_text(self),
    {
        match self {
            ArgsError::CannotGetArgument(n, x) => {
                let mut out = String::from_str("We expect argument ");
                out.append(decimal(n).as_str());
                out.append(" to be ");
                out.append(x.as_str());
                out.append(", but we didn't get this argument from command line. ");
                out
            },
        }
    }
}

impl Args {
    /// A command line without any argument.
    pub fn new() -> (args: Args)
        ensures
            args@.len() == 0,
    {
        Args { values: Vec::new() }
    }

    /// The command line that holds `values`, in their order.
    pub fn from_vec(values: Vec<String>) -> (args: Args)
        ensures
            args@ == values@.map_values(|s: String| s@),
    {
        Args { values }
    }

    /// The argument at position `n`. Where the command line is too short,
    /// the error names the position and `x`, the description of what was
    /// expected there.
    pub fn get(&self, n: usize, x: String) -> (r: Result<String, ArgsError>)
        ensures
            match r {
                Ok(value) => n < self@.len() && value@ == self@[n as int],
                Err(e) => n >= self@.len() && (e matches ArgsError::CannotGetArgument(m, y) && m
                    == n && y@ == x@),
            },
    {
        if n < self.values.len() {
            Ok(self.values[n].clone())
        } else {
            Err(ArgsError::CannotGetArgument(n, x))
        }
    }
}

} // verus!
