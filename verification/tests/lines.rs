use prefix_calc::session::{process_line, LineError};

#[test]
fn session_history_grows_line_by_line() {
    let mut history: Vec<i64> = Vec::new();

    let first = process_line("+ 3 2", &history).unwrap();
    history.push(first);
    assert_eq!(history, vec![5]);

    let second = process_line("* 2 5", &history).unwrap();
    history.push(second);
    assert_eq!(history, vec![5, 10]);

    let third = process_line("/ $1 $0", &history).unwrap();
    history.push(third);
    assert_eq!(history, vec![5, 10, 2]);
}

#[test]
fn trailing_input_is_rejected() {
    let history: Vec<i64> = Vec::new();
    let err = process_line("+ 1 2 3", &history).unwrap_err();
    assert_eq!(err.message(), "Expected end of line, instead found '3'.");
}

#[test]
fn parse_errors_pass_through() {
    let history: Vec<i64> = Vec::new();
    let err = process_line("", &history).unwrap_err();
    assert_eq!(err.message(), "Expected arguments at the end of input.");
    assert!(matches!(err, LineError::Parse(_)));
}

#[test]
fn history_reference_reads_earlier_result() {
    let history = vec![7];
    assert_eq!(process_line("$0", &history), Ok(7));
    let err = process_line("$1", &history).unwrap_err();
    assert_eq!(err.message(), "Invalid variable index '1'.");
}

#[test]
fn division_of_literals() {
    let history: Vec<i64> = Vec::new();
    assert_eq!(process_line("/ 100 7", &history), Ok(14));
    let err = process_line("/ 100 0", &history).unwrap_err();
    assert_eq!(err.message(), "Division by zero.");
}
