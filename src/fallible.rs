use vstd::prelude::*;

verus! {

/// Classifies the outcome of one attempt: `true` when the operation should be tried again.
pub trait NeedsRetry {
    /// Whether this outcome asks for another attempt.
    spec fn needs_retry_spec(&self) -> bool;

    fn needs_retry(&self) -> (r: bool)
        ensures
            r == self.needs_retry_spec(),
    ;
}

/// A `Result` needs another attempt exactly when it is an `Err`.
impl<T, E> NeedsRetry for Result<T, E> {
    open spec fn needs_retry_spec(&self) -> bool {
        self is Err
    }

    fn needs_retry(&self) -> (r: bool) {
        self.is_err()
    }
}

/// An `Option` needs another attempt exactly when it is absent.
impl<T> NeedsRetry for Option<T> {
    open spec fn needs_retry_spec(&self) -> bool {
        self is None
    }

    fn needs_retry(&self) -> (r: bool) {
        self.is_none()
    }
}

/// How a child process ended: its exit code, or `None` where it was ended by a signal.
#[derive(Debug, Clone, Copy, PartialEq, Eq, Structural, Hash)]
pub struct ProcessStatus {
    pub code: Option<i32>,
}

impl ProcessStatus {
    /// A process succeeded when it exited with code zero.
    pub open spec fn spec_success(&self) -> bool {
        self.code == Some(0i32)
    }

    pub fn success(&self) -> (r: bool)
        ensures
            r == self.spec_success(),
    {
        match self.code {
            Some(c) => c == 0,
            None => false,
        }
    }
}

/// The status of a process that exited with code zero.
impl Default for ProcessStatus {
    fn default() -> (r: ProcessStatus)
        ensures
            r.code == Some(0i32),
    {
        ProcessStatus { code: Some(0) }
    }
}

/// A process status needs another attempt exactly when the process did not succeed.
impl NeedsRetry for ProcessStatus {
    open spec fn needs_retry_spec(&self) -> bool {
        !self.spec_success()
    }

    fn needs_retry(&self) -> (r: bool) {
        !self.success()
    }
}

} // verus!
