use dairi::process_manager::ProcessManagerError;
use dairi::server::{RunCmdError, RunCmdRequest, RunCmdResponse, ServerError};

#[test]
fn run_cmd_response_equality_is_by_output() {
    let a = RunCmdResponse { output: "2\n".to_string() };
    let b = RunCmdResponse { output: "2\n".to_string() };
    let c = RunCmdResponse { output: "3\n".to_string() };
    assert!(a == b);
    assert!(a != c);
}

#[test]
fn run_cmd_error_wraps_core_errors() {
    let e = RunCmdError::ProcessManagerError(ProcessManagerError::Timeout);
    assert!(matches!(
        e,
        RunCmdError::ProcessManagerError(ProcessManagerError::Timeout)
    ));
    let u = RunCmdError::FromUtf8Error("invalid utf-8".to_string());
    assert!(matches!(u, RunCmdError::FromUtf8Error(_)));
    let s = ServerError::IoError("denied".to_string());
    assert!(matches!(s, ServerError::IoError(_)));
}

#[test]
fn run_cmd_request_carries_input_and_size() {
    let r = RunCmdRequest {
        input: "1+1".to_string(),
        output_size: Some(64),
    };
    assert_eq!(r.input, "1+1");
    assert_eq!(r.output_size, Some(64));
}
