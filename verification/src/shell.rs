use vstd::prelude::*;

verus! {

/// Outcome of one external shell command: the captured output streams and
/// the exit status. An exit code of zero means the probe succeeded; any
/// other value is a failure, and the specific non-zero value carries no
/// further meaning to the engine.
pub struct ShellResult {
    pub stdout: String,
    pub stderr: String,
    pub exit_code: i32,
}

impl ShellResult {
    /// A probe succeeded exactly when its exit code is zero.
    pub open spec fn succeeded(self) -> bool {
        self.exit_code == 0
    }
}

} // verus!
