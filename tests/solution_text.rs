use cbc_solver::{data_values, read_specific_solution, Malformed, Solution, SolveError, Status};

fn lines(text: &[&str]) -> Vec<String> {
    text.iter().map(|l| l.to_string()).collect()
}

fn names(text: &[&str]) -> Vec<String> {
    lines(text)
}

fn value_of(sol: &Solution, name: &str) -> Option<Option<String>> {
    let found: Vec<Option<String>> =
        sol.values.iter().filter(|a| a.name == name).map(|a| a.value.clone()).collect();
    assert!(found.len() <= 1, "name {} appears more than once", name);
    found.into_iter().next()
}

#[test]
fn optimal_without_data_keeps_every_variable_at_zero() {
    let sol = read_specific_solution(&lines(&["Optimal"]), &names(&["x", "y", "z"])).unwrap();
    assert_eq!(sol.status, Status::Optimal);
    assert_eq!(sol.values.len(), 3);
    for n in ["x", "y", "z"] {
        assert_eq!(value_of(&sol, n), Some(None));
    }
}

#[test]
fn data_line_overrides_default() {
    let sol = read_specific_solution(
        &lines(&["Optimal objective value 3.5", "0 x1 3.5 0"]),
        &names(&["x1", "x2"]),
    )
    .unwrap();
    assert_eq!(sol.status, Status::Optimal);
    assert_eq!(value_of(&sol, "x1"), Some(Some("3.5".to_string())));
    assert_eq!(value_of(&sol, "x2"), Some(None));
    let v: f32 = value_of(&sol, "x1").unwrap().unwrap().parse().unwrap();
    assert_eq!(v, 3.5);
}

#[test]
fn marker_token_is_dropped() {
    let sol = read_specific_solution(
        &lines(&["Optimal", "**   1 y2 -2.0 0.1"]),
        &names(&["y1", "y2"]),
    )
    .unwrap();
    assert_eq!(value_of(&sol, "y2"), Some(Some("-2.0".to_string())));
    assert_eq!(value_of(&sol, "y1"), Some(None));
    let v: f32 = value_of(&sol, "y2").unwrap().unwrap().parse().unwrap();
    assert_eq!(v, -2.0);
}

#[test]
fn three_fields_fail_after_good_lines() {
    let r = read_specific_solution(
        &lines(&["Optimal", "0 a 1 0", "1 b 2 0", "2 c 3"]),
        &names(&["a", "b", "c"]),
    );
    match r {
        Err(SolveError::MalformedSolution(Malformed::FieldCount { index, line })) => {
            assert_eq!(index, 3);
            assert_eq!(line, "2 c 3")
        }
        other => panic!("unexpected {:?}", other),
    }
}

#[test]
fn marker_with_three_fields_fails() {
    let r = read_specific_solution(&lines(&["Optimal", "** 1 y2 -2.0"]), &names(&[]));
    assert!(matches!(
        r,
        Err(SolveError::MalformedSolution(Malformed::FieldCount { .. }))
    ));
}

#[test]
fn five_fields_fail() {
    let r = read_specific_solution(&lines(&["Optimal", "0 x 1 0 9"]), &names(&["x"]));
    assert!(matches!(
        r,
        Err(SolveError::MalformedSolution(Malformed::FieldCount { .. }))
    ));
}

#[test]
fn blank_data_line_fails() {
    let r = read_specific_solution(&lines(&["Optimal", ""]), &names(&["x"]));
    match r {
        Err(SolveError::MalformedSolution(Malformed::FieldCount { index, line })) => {
            assert_eq!(index, 1);
            assert_eq!(line, "")
        }
        other => panic!("unexpected {:?}", other),
    }
}

#[test]
fn empty_text_has_no_status_line() {
    let r = read_specific_solution(&lines(&[]), &names(&["x"]));
    assert!(matches!(
        r,
        Err(SolveError::MalformedSolution(Malformed::MissingStatusLine))
    ));
    assert_eq!(r.unwrap_err().message(), "Incorrect solution format");
}

#[test]
fn blank_status_line_is_not_solved() {
    let sol = read_specific_solution(&lines(&["   "]), &names(&["x"])).unwrap();
    assert_eq!(sol.status, Status::NotSolved);
}

#[test]
fn status_words_map_exactly() {
    let cases = [
        ("Optimal - objective value 0", Status::Optimal),
        ("Infeasible - objective value 0", Status::Infeasible),
        ("Integer infeasible - objective value 0", Status::Infeasible),
        ("Unbounded - objective value 0", Status::Unbounded),
        ("Stopped on time - objective value 0", Status::SubOptimal),
        ("Stopped on iterations", Status::SubOptimal),
        ("Foo", Status::NotSolved),
        ("optimal", Status::NotSolved),
        ("Optimality", Status::NotSolved),
    ];
    for (line, status) in cases {
        let sol = read_specific_solution(&lines(&[line]), &names(&[])).unwrap();
        assert_eq!(sol.status, status, "line {:?}", line);
    }
}

#[test]
fn status_word_may_follow_spaces() {
    let sol = read_specific_solution(&lines(&["\t Stopped on ctrl-c"]), &names(&[])).unwrap();
    assert_eq!(sol.status, Status::SubOptimal);
}

#[test]
fn later_line_wins_for_repeated_name() {
    let sol = read_specific_solution(
        &lines(&["Optimal", "0 x 1.5 0", "1 x 2.5 0"]),
        &names(&["x"]),
    )
    .unwrap();
    assert_eq!(sol.values.len(), 1);
    assert_eq!(value_of(&sol, "x"), Some(Some("2.5".to_string())));
}

#[test]
fn without_variables_only_reported_names_appear() {
    let sol = read_specific_solution(&lines(&["Optimal", "0 q 7 0"]), &names(&[])).unwrap();
    assert_eq!(sol.values.len(), 1);
    assert_eq!(value_of(&sol, "q"), Some(Some("7".to_string())));
    assert_eq!(value_of(&sol, "x"), None);
}

#[test]
fn unknown_reported_name_is_added() {
    let sol = read_specific_solution(&lines(&["Optimal", "3 extra 4 0"]), &names(&["a"])).unwrap();
    assert_eq!(sol.values.len(), 2);
    assert_eq!(value_of(&sol, "a"), Some(None));
    assert_eq!(value_of(&sol, "extra"), Some(Some("4".to_string())));
}

#[test]
fn repeated_variable_appears_once() {
    let sol = read_specific_solution(&lines(&["Optimal"]), &names(&["a", "b", "a"])).unwrap();
    assert_eq!(sol.values.len(), 2);
}

#[test]
fn fields_split_on_any_whitespace() {
    let sol = read_specific_solution(
        &lines(&["Optimal", "\t0\u{3000}x\u{A0}1e3 \r0 "]),
        &names(&[]),
    )
    .unwrap();
    assert_eq!(value_of(&sol, "x"), Some(Some("1e3".to_string())));
}

#[test]
fn value_field_is_kept_as_text() {
    let sol = read_specific_solution(&lines(&["Optimal", "0 x abc 0"]), &names(&[])).unwrap();
    assert_eq!(value_of(&sol, "x"), Some(Some("abc".to_string())));
    assert!(value_of(&sol, "x").unwrap().unwrap().parse::<f32>().is_err());
}

#[test]
fn field_count_message_names_line() {
    let e = read_specific_solution(&lines(&["Optimal", "0 x"]), &names(&[])).unwrap_err();
    assert_eq!(e.message(), "Incorrect solution format: 0 x");
}

#[test]
fn data_values_in_order_including_overwritten() {
    let v = data_values(&lines(&["Optimal", "0 x abc 0", "** 1 x 2 0", "2 y 5 0"]));
    assert_eq!(v, vec!["abc", "2", "5"]);
}

#[test]
fn data_values_stop_at_first_bad_line() {
    let v = data_values(&lines(&["Optimal", "0 x 1 0", "1 y", "2 z 3 0"]));
    assert_eq!(v, vec!["1"]);
}

#[test]
fn data_values_of_empty_text() {
    assert!(data_values(&lines(&[])).is_empty());
    assert!(data_values(&lines(&["Optimal"])).is_empty());
}
