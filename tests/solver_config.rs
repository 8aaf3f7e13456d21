use cbc_solver::decimal::decimal_string;
use cbc_solver::{CbcSolver, ExitStep, Malformed, SolveError};

#[test]
fn withers_compose() {
    let c = CbcSolver::default().with_max_seconds(30).with_nb_threads(4);
    assert_eq!(c.max_seconds(), Some(30));
    assert_eq!(c.nb_threads(), Some(4));
    let d = CbcSolver::default().with_nb_threads(4).with_max_seconds(30);
    assert_eq!(d.max_seconds(), Some(30));
    assert_eq!(d.nb_threads(), Some(4));
}

#[test]
fn new_has_no_tuning_values() {
    let c = CbcSolver::new();
    assert_eq!(c.max_seconds(), None);
    assert_eq!(c.nb_threads(), None);
    assert_eq!(c.name(), "Cbc");
    assert_eq!(c.program(), "cbc");
}

#[test]
fn solution_file_names_are_fresh() {
    let a = CbcSolver::new();
    let b = CbcSolver::new();
    let fa = a.solution_file().clone();
    assert_eq!(fa.chars().count(), 40);
    assert!(fa.ends_with(".sol"));
    assert!(fa[..36].chars().all(|c| c.is_ascii_hexdigit() || c == '-'));
    assert_eq!(fa[..36].matches('-').count(), 4);
    assert_ne!(fa, *b.solution_file());
}

#[test]
fn renaming_keeps_other_fields() {
    let c = CbcSolver::new().with_max_seconds(5).with_nb_threads(2);
    let d = c.command_name("/usr/bin/cbc".to_string());
    assert_eq!(d.program(), "/usr/bin/cbc");
    assert_eq!(d.max_seconds(), Some(5));
    assert_eq!(d.nb_threads(), Some(2));
    assert_eq!(d.solution_file(), c.solution_file());
    let e = d.with_temp_solution_file("out.sol".to_string());
    assert_eq!(e.solution_file(), "out.sol");
    assert_eq!(e.program(), "/usr/bin/cbc");
    assert_eq!(e.max_seconds(), Some(5));
    assert_eq!(e.nb_threads(), Some(2));
}

#[test]
fn invocation_without_tuning() {
    let c = CbcSolver::new().with_temp_solution_file("s.sol".to_string());
    assert_eq!(c.invocation("p.lp"), vec!["p.lp", "solve", "solution", "s.sol"]);
}

#[test]
fn invocation_with_tuning() {
    let c = CbcSolver::new()
        .with_temp_solution_file("s.sol".to_string())
        .with_nb_threads(4)
        .with_max_seconds(30);
    assert_eq!(
        c.invocation("p.lp"),
        vec!["p.lp", "seconds", "30", "threads", "4", "solve", "solution", "s.sol"]
    );
}

#[test]
fn invocation_with_threads_only() {
    let c = CbcSolver::new().with_temp_solution_file("s.sol".to_string()).with_nb_threads(0);
    assert_eq!(
        c.invocation("p.lp"),
        vec!["p.lp", "threads", "0", "solve", "solution", "s.sol"]
    );
}

#[test]
fn decimal_notation() {
    assert_eq!(decimal_string(0), "0");
    assert_eq!(decimal_string(7), "7");
    assert_eq!(decimal_string(10), "10");
    assert_eq!(decimal_string(1203), "1203");
    assert_eq!(decimal_string(u32::MAX), "4294967295");
}

#[test]
fn failed_exit_reports_status_text() {
    let c = CbcSolver::new();
    match c.exit_step(false, "exit status: 1".to_string()) {
        ExitStep::Fail(e) => {
            assert!(matches!(e, SolveError::SolverFailure { .. }));
            assert_eq!(e.message(), "exit status: 1");
        }
        other => panic!("unexpected {:?}", other),
    }
}

#[test]
fn successful_exit_reads_solution_file() {
    let c = CbcSolver::new().with_temp_solution_file("here.sol".to_string());
    match c.exit_step(true, "exit status: 0".to_string()) {
        ExitStep::ReadSolution { path } => assert_eq!(path, "here.sol"),
        other => panic!("unexpected {:?}", other),
    }
}

#[test]
fn default_matches_new() {
    let d = CbcSolver::default();
    assert_eq!(d.name(), "Cbc");
    assert_eq!(d.program(), "cbc");
    assert_eq!(d.max_seconds(), None);
    assert_eq!(d.nb_threads(), None);
    assert!(d.solution_file().ends_with(".sol"));
    assert_eq!(d.solution_file().chars().count(), 40);
}

#[test]
fn launch_failure_names_engine() {
    let e = CbcSolver::new().launch_failure();
    assert_eq!(e.message(), "Error running the Cbc solver");
}

#[test]
fn value_error_message_is_kept() {
    let e = SolveError::MalformedSolution(Malformed::Value {
        message: "invalid float literal".to_string(),
    });
    assert_eq!(e.message(), "invalid float literal");
    let f = SolveError::MalformedSolution(Malformed::FieldCount { index: 1, line: "1 2".to_string() });
    assert_eq!(f.message(), "Incorrect solution format: 1 2");
}
