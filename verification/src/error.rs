use vstd::prelude::*;

verus! {

/// Errors that come out of evaluating a command line.
#[derive(Debug)]
pub enum EvaluatorError {
    CommandNotFound,
    SplitError,
    WrongNumberOfArguments(u8),
    FileOrDirNotFound(String),
}

/// The text a user sees for an error.
pub open spec fn error_message(e: EvaluatorError) -> Seq<char> {
    match e {
        EvaluatorError::CommandNotFound => "not found"@,
        EvaluatorError::SplitError => "input could not be parsed"@,
        EvaluatorError::WrongNumberOfArguments(_) => "wrong number of arguments"@,
        EvaluatorError::FileOrDirNotFound(_) => "no such file or directory"@,
    }
}

impl EvaluatorError {
    /// The message that describes this error.
    pub fn message(&self) -> (r: String)
        ensures
            r@ == error_message(*self),
    {
        match self {
            EvaluatorError::CommandNotFound => String::from_str("not found"),
            EvaluatorError::SplitError => String::from_str("input could not be parsed"),
            EvaluatorError::WrongNumberOfArguments(_) => String::from_str("wrong number of arguments"),
            EvaluatorError::FileOrDirNotFound(_) => String::from_str("no such file or directory"),
        }
    }
}

} // verus!
