use command_rs::{help_text, log_board_text, run_session, DisplayRows};

fn rows_off() -> DisplayRows {
    DisplayRows { row1: false, row2: false, row3: false, row4: false, row5: false }
}

#[test]
fn session_help_output_framing() {
    let mut rows = rows_off();
    let tx = run_session(b"help;", &mut rows, "xyz");
    assert!(tx.wire_history().starts_with("\r\n=== command-rs ===\r\n"));
    assert!(tx.wire_history().ends_with("==================\r\n"));
    assert_eq!(rows, rows_off());
}

#[test]
fn session_bogus_input_is_silent() {
    let mut rows = rows_off();
    let tx = run_session(b"bogus;", &mut rows, "xyz");
    assert_eq!(tx.wire_history(), "");
    assert_eq!(rows, rows_off());
}

#[test]
fn session_version_output_is_one_exact_line() {
    let mut rows = rows_off();
    let tx = run_session(b"version;", &mut rows, "1.4.2-g0a1b2c3");
    assert_eq!(tx.wire_history(), "This command-rs build is based on '1.4.2-g0a1b2c3'.\r\n");
}

#[test]
fn session_toggle_twice_is_silent_and_restores_rows() {
    let mut rows = DisplayRows { row1: true, row2: false, row3: true, row4: true, row5: false };
    let original = rows;
    let tx = run_session(b"toggle;toggle;", &mut rows, "");
    assert_eq!(tx.wire_history(), "");
    assert_eq!(rows, original);
    let tx = run_session(b"toggle;", &mut rows, "");
    assert_eq!(tx.wire_history(), "");
    assert_ne!(rows, original);
}

#[test]
fn session_responses_concatenate_in_command_order() {
    let mut rows = rows_off();
    let tx = run_session(b"log_board;help;", &mut rows, "");
    let expected = format!("{}{}", log_board_text(), help_text());
    assert_eq!(tx.wire_history(), expected.as_str());
}

#[test]
fn session_commands_are_independent_of_prior_garbage() {
    // Each terminator-delimited command stands alone: noise, an overflowing
    // run, and an empty command around it change nothing.
    let mut rows = rows_off();
    let mut input = Vec::new();
    input.extend_from_slice(b"@@@;");
    input.extend_from_slice(&[b'x'; 40]);
    input.extend_from_slice(b";;help;");
    let tx = run_session(&input, &mut rows, "");
    assert_eq!(tx.wire_history(), help_text());
}
