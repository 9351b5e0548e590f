use base64::Engine;
use vrf_server::parse_logs::{parse_logs, ParseLogError};

const A: &str = "DEoxdV1CCWvbeGp8PpwkUifmm3pV5AgtFwFaS4P7qZeZ";
const B: &str = "TokenkegQfeZyiNwAJbNbGKPFXCWuBvf9Ss623VQ5DA";

#[test]
fn test_parse_log_line() {
    let logs = [
        "Program DEoxdV1CCWvbeGp8PpwkUifmm3pV5AgtFwFaS4P7qZeZ invoke [1]",
        "Program log: Instruction: Spin",
        "Program log: Transfering stake to pool",
        "Program TokenkegQfeZyiNwAJbNbGKPFXCWuBvf9Ss623VQ5DA invoke [2]",
        "Program log: Instruction: Transfer",
        "Program TokenkegQfeZyiNwAJbNbGKPFXCWuBvf9Ss623VQ5DA consumed 4645 of 182491 compute units",
        "Program TokenkegQfeZyiNwAJbNbGKPFXCWuBvf9Ss623VQ5DA success",
        "Program data: aGVsbG93b3JsZCE=",
        "Program log: Transfering token to user",
        "Program TokenkegQfeZyiNwAJbNbGKPFXCWuBvf9Ss623VQ5DA invoke [2]",
        "Program log: Instruction: Transfer",
        "Program data: bmVzdGVkIGRhdGE=",
        "Program TokenkegQfeZyiNwAJbNbGKPFXCWuBvf9Ss623VQ5DA consumed 4740 of 159826 compute units",
        "Program TokenkegQfeZyiNwAJbNbGKPFXCWuBvf9Ss623VQ5DA success",
        "Program log: Transfering tax to treasury",
        "Program TokenkegQfeZyiNwAJbNbGKPFXCWuBvf9Ss623VQ5DA invoke [2]",
        "Program log: Instruction: Transfer",
        "Program TokenkegQfeZyiNwAJbNbGKPFXCWuBvf9Ss623VQ5DA consumed 4740 of 152166 compute units",
        "Program TokenkegQfeZyiNwAJbNbGKPFXCWuBvf9Ss623VQ5DA success",
        "Program log: Burning part of the tax",
        "Program TokenkegQfeZyiNwAJbNbGKPFXCWuBvf9Ss623VQ5DA invoke [2]",
        "Program log: Instruction: Burn",
        "Program TokenkegQfeZyiNwAJbNbGKPFXCWuBvf9Ss623VQ5DA consumed 4844 of 144508 compute units",
        "Program TokenkegQfeZyiNwAJbNbGKPFXCWuBvf9Ss623VQ5DA success",
        "Program DEoxdV1CCWvbeGp8PpwkUifmm3pV5AgtFwFaS4P7qZeZ consumed 63281 of 200000 compute units",
        "Program DEoxdV1CCWvbeGp8PpwkUifmm3pV5AgtFwFaS4P7qZeZ success",
    ];

    let pubkey_a = A.to_string();
    let pubkey_b = B.to_string();

    let (events, errors) = parse_logs(&logs, &[pubkey_a.clone(), pubkey_b.clone()]);
    assert_eq!(events.len(), 2);
    assert_eq!(events[0].program_id, pubkey_a);
    assert_eq!(events[0].data, b"helloworld!");
    assert_eq!(events[1].program_id, pubkey_b);
    assert_eq!(events[1].data, b"nested data");

    assert!(errors.is_empty());
}

#[test]
fn untracked_program_yields_nothing() {
    let logs = ["Program P invoke [1]", "Program log: hi", "Program P success"];
    let (events, errors) = parse_logs(&logs, &[]);
    assert!(events.is_empty());
    assert!(errors.is_empty());
}

#[test]
fn tracked_program_data_becomes_event() {
    let logs = ["Program P invoke [1]", "Program data: aGVsbG8=", "Program P success"];
    let (events, errors) = parse_logs(&logs, &["P".to_string()]);
    assert_eq!(events.len(), 1);
    assert_eq!(events[0].program_id, "P");
    assert_eq!(events[0].data, b"hello");
    assert!(errors.is_empty());
}

#[test]
fn mismatched_return_reports_and_pops() {
    let logs = ["Program P invoke [1]", "Program Q success", "Program data: aGVsbG8="];
    let (events, errors) = parse_logs(&logs, &["P".to_string()]);
    assert!(events.is_empty());
    assert_eq!(errors.len(), 2);
    match &errors[0] {
        ParseLogError::ProgramIdMismatch { line, current, expect } => {
            assert_eq!(line, "Program Q success");
            assert_eq!(current.as_deref(), Some("P"));
            assert_eq!(expect, "Q");
        }
        _ => panic!("expected a program id mismatch"),
    }
    // The stack was popped: the data line finds no running program.
    assert!(matches!(&errors[1], ParseLogError::NoCurrentProgramId { line } if line == "Program data: aGVsbG8="));
}

#[test]
fn data_without_running_program_is_reported() {
    let (events, errors) = parse_logs(&["Program data: aGVsbG8="], &["P".to_string()]);
    assert!(events.is_empty());
    assert_eq!(errors.len(), 1);
    assert!(matches!(&errors[0], ParseLogError::NoCurrentProgramId { .. }));
}

#[test]
fn in_program_line_outside_any_program_is_reported() {
    let (events, errors) = parse_logs(&["Program P consumed 10 of 20 compute units"], &[]);
    assert!(events.is_empty());
    assert_eq!(errors.len(), 1);
    assert!(matches!(&errors[0], ParseLogError::NoCurrentProgramId { .. }));
}

#[test]
fn in_program_line_for_other_program_is_reported() {
    let logs = ["Program P invoke [1]", "Program Q consumed 10 of 20 compute units", "Program P success"];
    let (_, errors) = parse_logs(&logs, &[]);
    assert_eq!(errors.len(), 1);
    match &errors[0] {
        ParseLogError::ProgramIdMismatch { current, expect, .. } => {
            assert_eq!(current.as_deref(), Some("P"));
            assert_eq!(expect, "Q");
        }
        _ => panic!("expected a program id mismatch"),
    }
}

#[test]
fn undecodable_payload_of_tracked_program_is_reported() {
    let logs = ["Program P invoke [1]", "Program data: abc", "Program P success"];
    let (events, errors) = parse_logs(&logs, &["P".to_string()]);
    assert!(events.is_empty());
    assert_eq!(errors.len(), 1);
    assert!(matches!(&errors[0], ParseLogError::Base64Decode { line, .. } if line == "Program data: abc"));
}

#[test]
fn non_base64_output_is_trivia() {
    let logs = ["Program P invoke [1]", "Program data: not base64!", "Program P success"];
    let (events, errors) = parse_logs(&logs, &["P".to_string()]);
    assert!(events.is_empty());
    assert!(errors.is_empty());
}

#[test]
fn base64_round_trip_through_parser() {
    let payload: Vec<u8> = (0u8..=255).collect();
    let text = base64::engine::general_purpose::STANDARD.encode(&payload);
    let line = format!("Program data: {text}");
    let logs = ["Program P invoke [1]", line.as_str(), "Program P success"];
    let (events, errors) = parse_logs(&logs, &["P".to_string()]);
    assert!(errors.is_empty());
    assert_eq!(events.len(), 1);
    assert_eq!(events[0].data, payload);
    let again = base64::engine::general_purpose::STANDARD.encode(&events[0].data);
    assert_eq!(again, text);
}

#[test]
fn well_formed_nesting_leaves_no_diagnostics() {
    let logs = [
        "Program P invoke [1]",
        "Program Q invoke [2]",
        "Program Q consumed 1 of 2 compute units",
        "Program Q success",
        "Program P consumed 3 of 4 compute units",
        "Program P success",
    ];
    let (events, errors) = parse_logs(&logs, &["P".to_string(), "Q".to_string()]);
    assert!(events.is_empty());
    assert!(errors.is_empty());
}

#[test]
fn greedy_invoke_capture_takes_last_invoke() {
    let logs = ["Program A invoke B invoke [1]", "Program A invoke B success"];
    let (_, errors) = parse_logs(&logs, &[]);
    // The first line pushes "A invoke B"; the second is an invoke line too and pushes "A".
    assert!(errors.is_empty());
}

#[test]
fn return_pattern_accepts_repeated_s() {
    let logs = ["Program P invoke [1]", "Program P successss", "Program data: aGVsbG8="];
    let (_, errors) = parse_logs(&logs, &["P".to_string()]);
    assert_eq!(errors.len(), 1);
    assert!(matches!(&errors[0], ParseLogError::NoCurrentProgramId { .. }));
}
