use vstd::prelude::*;

verus! {

/// Why a solution text could not be read.
#[derive(Debug, Clone)]
pub enum Malformed {
    /// The solution text has no status line.
    MissingStatusLine,
    /// The data line at `index` (counting the status line as zero) does not
    /// hold exactly four fields.
    FieldCount { index: usize, line: String },
    /// A value field is not a number; the text says why.
    Value { message: String },
}

/// Why a solve attempt failed.
#[derive(Debug, Clone)]
pub enum SolveError {
    /// The engine could not be started.
    LaunchFailure { solver: String },
    /// The engine ran and reported failure; `status` describes its exit.
    SolverFailure { status: String },
    /// The solution text is not well formed.
    MalformedSolution(Malformed),
}

/// The text that describes an error to the caller.
pub open spec fn error_message(e: SolveError) -> Seq<char> {
    match e {
        SolveError::LaunchFailure { solver } => "Error running the "@ + solver@ + " solver"@,
        SolveError::SolverFailure { status } => status@,
        SolveError::MalformedSolution(Malformed::Value { message }) => message@,
        SolveError::MalformedSolution(Malformed::FieldCount { line, .. }) => "Incorrect solution format"@
            + ": "@ + line@,
        SolveError::MalformedSolution(Malformed::MissingStatusLine) => "Incorrect solution format"@,
    }
}

impl SolveError {
    /// The text that describes this error to the caller.
    pub fn message(&self) -> (r: String)
        ensures
            r@ == error_message(*self),
    {
        match self {
            SolveError::LaunchFailure { solver } => {
                let text = String::from_str("Error running the ");
                let text = text.concat(solver.as_str());
                text.concat(" solver")
            },
            SolveError::SolverFailure { status } => status.clone(),
            SolveError::MalformedSolution(Malformed::Value { message }) => message.clone(),
            SolveError::MalformedSolution(Malformed::FieldCount { line, .. }) => {
                let text = String::from_str("Incorrect solution format");
                let text = text.concat(": ");
                text.concat(line.as_str())
            },
            SolveError::MalformedSolution(Malformed::MissingStatusLine) => String::from_str(
                "Incorrect solution format",
            ),
        }
    }
}

} // verus!
