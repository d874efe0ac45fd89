//! What the socket front-end exchanges with the core: the request and
//! response shapes, the errors a request can surface, and the default
//! socket path. The HTTP plumbing itself lives in the surrounding daemon.

use crate::process_manager::ProcessManagerError;
use vstd::prelude::*;

verus! {

/// Where the daemon listens when no other path is configured.
pub fn default_socket_path() -> (r: &'static str)
    ensures
        r@ == "/tmp/dairi/serve.sock"@,
{
    "/tmp/dairi/serve.sock"
}

/// A failure of the server itself, carrying the system error's text.
#[derive(Debug)]
pub enum ServerError {
    IoError(String),
}

/// The body of a run-command request: the snippet to feed the child and
/// an optional read-buffer size.
#[derive(Debug)]
pub struct RunCmdRequest {
    pub input: String,
    pub output_size: Option<usize>,
}

/// The body of a successful response: the child's output as text.
#[derive(Debug)]
pub struct RunCmdResponse {
    pub output: String,
}

impl PartialEq for RunCmdResponse {
    fn eq(&self, other: &Self) -> (r: bool) {
        self.output == other.output
    }
}

impl vstd::std_specs::cmp::PartialEqSpecImpl for RunCmdResponse {
    open spec fn obeys_eq_spec() -> bool {
        true
    }

    open spec fn eq_spec(&self, other: &Self) -> bool {
        self.output@ == other.output@
    }
}

/// Why a request failed: the core refused or failed it, or the child's
/// output was not valid text; the variant carries the decoding error's
/// text.
#[derive(Debug)]
pub enum RunCmdError {
    ProcessManagerError(ProcessManagerError),
    FromUtf8Error(String),
}

} // verus!
