use vstd::prelude::*;

use crate::decimal::{decimal, decimal_string};
use crate::error::SolveError;

verus! {

/// What a solver configuration holds.
pub struct SolverSettings {
    /// The engine's display name, used in messages.
    pub name: Seq<char>,
    /// The program that is started.
    pub command: Seq<char>,
    /// Where the engine writes its solution.
    pub solution_file: Seq<char>,
    pub threads: Option<u32>,
    pub seconds: Option<u32>,
}

/// Configuration of the CBC engine: how it is started, where it writes its
/// solution, and the optional tuning values handed to it.
#[derive(Debug, Clone)]
pub struct CbcSolver {
    name: String,
    command_name: String,
    temp_solution_file: String,
    threads: Option<u32>,
    seconds: Option<u32>,
}

impl View for CbcSolver {
    type V = SolverSettings;

    closed spec fn view(&self) -> SolverSettings {
        SolverSettings {
            name: self.name@,
            command: self.command_name@,
            solution_file: self.temp_solution_file@,
            threads: self.threads,
            seconds: self.seconds,
        }
    }
}

/// The settings with the time limit set to `s`.
pub open spec fn settings_with_seconds(c: SolverSettings, s: u32) -> SolverSettings {
    SolverSettings { seconds: Some(s), ..c }
}

/// The settings with the thread count set to `t`.
pub open spec fn settings_with_threads(c: SolverSettings, t: u32) -> SolverSettings {
    SolverSettings { threads: Some(t), ..c }
}

/// Lower-case hexadecimal digits and hyphens, as in a hyphenated UUID.
pub open spec fn is_uuid_char(c: char) -> bool {
    ('0' <= c && c <= '9') || ('a' <= c && c <= 'f') || c == '-'
}

/// Relies on `uuid::Uuid::new_v4` for a random identifier, written out by its
/// `Display` impl in the hyphenated form of 36 lower-case characters.
#[verifier::external_body]
fn fresh_uuid_text() -> (r: String)
    ensures
        r@.len() == 36,
        forall|i: int| 0 <= i < r@.len() ==> is_uuid_char(#[trigger] r@[i]),
{
    uuid::Uuid::new_v4().to_string()
}

/// The engine's arguments for a problem file, in order: the problem file,
/// a flag and value for each tuning value that is set, then the fixed
/// directives that solve and write the solution.
pub open spec fn invocation_args(c: SolverSettings, problem: Seq<char>) -> Seq<Seq<char>> {
    let secs = match c.seconds {
        Some(s) => seq!["seconds"@, decimal(s as nat)],
        None => Seq::empty(),
    };
    let threads = match c.threads {
        Some(t) => seq!["threads"@, decimal(t as nat)],
        None => Seq::empty(),
    };
    seq![problem] + secs + threads + seq!["solve"@, "solution"@, c.solution_file]
}

/// What follows the engine's exit.
#[derive(Debug)]
pub enum ExitStep {
    /// The engine succeeded: read the solution file at `path`.
    ReadSolution { path: String },
    /// The engine failed: the attempt ends with this error.
    Fail(SolveError),
}

impl CbcSolver {
    /// A configuration with the engine's usual names, a fresh solution file
    /// name, and no tuning values.
    pub fn new() -> (r: CbcSolver)
        ensures
            r@.name == "Cbc"@,
            r@.command == "cbc"@,
            r@.solution_file.len() == 40,
            r@.solution_file.subrange(36, 40) == ".sol"@,
            forall|i: int| 0 <= i < 36 ==> is_uuid_char(#[trigger] r@.solution_file[i]),
            r@.threads is None,
            r@.seconds is None,
    {
        let id = fresh_uuid_text();
        let file = id.concat(".sol");
        proof {
            reveal_strlit(".sol");
            assert(file@.subrange(36, 40) =~= ".sol"@);
            assert forall|i: int| 0 <= i < 36 implies is_uuid_char(#[trigger] file@[i]) by {
                assert(file@[i] == id@[i]);
            }
        }
        CbcSolver {
            name: String::from_str("Cbc"),
            command_name: String::from_str("cbc"),
            temp_solution_file: file,
            threads: None,
            seconds: None,
        }
    }

    /// The same configuration, starting the program `command_name`.
    pub fn command_name(&self, command_name: String) -> (r: CbcSolver)
        ensures
            r@ == (SolverSettings { command: command_name@, ..self@ }),
    {
        CbcSolver {
            name: self.name.clone(),
            command_name,
            temp_solution_file: self.temp_solution_file.clone(),
            threads: self.threads,
            seconds: self.seconds,
        }
    }

    /// The same configuration, with the engine writing its solution to
    /// `temp_solution_file`.
    pub fn with_temp_solution_file(&self, temp_solution_file: String) -> (r: CbcSolver)
        ensures
            r@ == (SolverSettings { solution_file: temp_solution_file@, ..self@ }),
    {
        CbcSolver {
            name: self.name.clone(),
            command_name: self.command_name.clone(),
            temp_solution_file,
            threads: self.threads,
            seconds: self.seconds,
        }
    }

    /// The time limit in seconds, if one is set.
    pub fn max_seconds(&self) -> (r: Option<u32>)
        ensures
            r == self@.seconds,
    {
        self.seconds
    }

    /// The same configuration, with a time limit of `seconds`.
    pub fn with_max_seconds(&self, seconds: u32) -> (r: CbcSolver)
        ensures
            r@ == settings_with_seconds(self@, seconds),
    {
        CbcSolver {
            name: self.name.clone(),
            command_name: self.command_name.clone(),
            temp_solution_file: self.temp_solution_file.clone(),
            threads: self.threads,
            seconds: Some(seconds),
        }
    }

    /// The thread count, if one is set.
    pub fn nb_threads(&self) -> (r: Option<u32>)
        ensures
            r == self@.threads,
    {
        self.threads
    }

    /// The same configuration, with `threads` threads.
    pub fn with_nb_threads(&self, threads: u32) -> (r: CbcSolver)
        ensures
            r@ == settings_with_threads(self@, threads),
    {
        CbcSolver {
            name: self.name.clone(),
            command_name: self.command_name.clone(),
            temp_solution_file: self.temp_solution_file.clone(),
            threads: Some(threads),
            seconds: self.seconds,
        }
    }

    /// The engine's display name.
    pub fn name(&self) -> (r: &String)
        ensures
            r@ == self@.name,
    {
        &self.name
    }

    /// The program that is started.
    pub fn program(&self) -> (r: &String)
        ensures
            r@ == self@.command,
    {
        &self.command_name
    }

    /// Where the engine writes its solution.
    pub fn solution_file(&self) -> (r: &String)
        ensures
            r@ == self@.solution_file,
    {
        &self.temp_solution_file
    }

    /// The arguments that start the engine on the problem file `problem`.
    pub fn invocation(&self, problem: &str) -> (r: Vec<String>)
        ensures
            r@.len() == invocation_args(self@, problem@).len(),
            forall|i: int| 0 <= i < r@.len() ==> #[trigger] r@[i]@ == invocation_args(self@, problem@)[i],
    {
        proof {
            reveal_strlit("seconds");
            reveal_strlit("threads");
            reveal_strlit("solve");
            reveal_strlit("solution");
        }
        let mut args: Vec<String> = Vec::new();
        args.push(String::from_str(problem));
        let ghost base = seq![problem@];
        let ghost secs: Seq<Seq<char>> = Seq::empty();
        if let Some(s) = self.seconds {
            args.push(String::from_str("seconds"));
            args.push(decimal_string(s));
            proof { secs = seq!["seconds"@, decimal(s as nat)]; }
        }
        let ghost threads: Seq<Seq<char>> = Seq::empty();
        if let Some(t) = self.threads {
            args.push(String::from_str("threads"));
            args.push(decimal_string(t));
            proof { threads = seq!["threads"@, decimal(t as nat)]; }
        }
        args.push(String::from_str("solve"));
        args.push(String::from_str("solution"));
        args.push(self.temp_solution_file.clone());
        let ghost expect = invocation_args(self@, problem@);
        assert(expect =~= base + secs + threads + seq!["solve"@, "solution"@, self@.solution_file]);
        assert forall|i: int| 0 <= i < args@.len() implies #[trigger] args@[i]@ == expect[i] by {}
        args
    }

    /// The error for an engine that could not be started.
    pub fn launch_failure(&self) -> (r: SolveError)
        ensures
            r matches SolveError::LaunchFailure { solver } && solver@ == self@.name,
    {
        SolveError::LaunchFailure { solver: self.name.clone() }
    }

    /// What follows the engine's exit: on success the solution file is read,
    /// on failure the attempt ends with the exit status text and nothing is read.
    pub fn exit_step(&self, success: bool, status: String) -> (r: ExitStep)
        ensures
            success ==> (r matches ExitStep::ReadSolution { path } && path@ == self@.solution_file),
            !success ==> (r matches ExitStep::Fail(SolveError::SolverFailure { status: s })
                && s@ == status@),
    {
        if success {
            ExitStep::ReadSolution { path: self.temp_solution_file.clone() }
        } else {
            ExitStep::Fail(SolveError::SolverFailure { status })
        }
    }
}

impl Default for CbcSolver {
    fn default() -> (r: CbcSolver)
        ensures
            r@.name == "Cbc"@,
            r@.command == "cbc"@,
            r@.solution_file.len() == 40,
            r@.solution_file.subrange(36, 40) == ".sol"@,
            forall|i: int| 0 <= i < 36 ==> is_uuid_char(#[trigger] r@.solution_file[i]),
            r@.threads is None,
            r@.seconds is None,
    {
        CbcSolver::new()
    }
}

/// Each tuning wither keeps what the other set: setting the time limit and
/// then the thread count, in either order, gives a configuration with both,
/// and with everything else as before.
pub proof fn lemma_withers_compose(c: SolverSettings, s: u32, t: u32)
    ensures
        settings_with_threads(settings_with_seconds(c, s), t).seconds == Some(s),
        settings_with_threads(settings_with_seconds(c, s), t).threads == Some(t),
        settings_with_seconds(settings_with_threads(c, t), s) == settings_with_threads(
            settings_with_seconds(c, s),
            t,
        ),
        settings_with_threads(settings_with_seconds(c, s), t).name == c.name,
        settings_with_threads(settings_with_seconds(c, s), t).command == c.command,
        settings_with_threads(settings_with_seconds(c, s), t).solution_file == c.solution_file,
{
}

} // verus!
