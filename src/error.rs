use vstd::prelude::*;

verus! {

#[verifier::external_type_specification]
#[verifier::external_body]
pub struct ExGlobError(globset::Error);

#[verifier::external_type_specification]
#[verifier::external_body]
pub struct ExIoError(std::io::Error);

/// One removal that did not succeed: the path and the reason given for it.
#[derive(Debug, Clone)]
pub struct FailedDeletion {
    pub path: String,
    pub error: String,
}

/// Errors of a cleaning job.
#[derive(Debug)]
pub enum CleanError {
    IoError(std::io::Error),
    GlobError(globset::Error),
    PathTraversal(String),
    PermissionDenied(String),
    ConfigError(String),
    /// Deletions that failed during the run; the successful ones still count.
    DeletionsFailed(Vec<FailedDeletion>),
}

impl From<std::io::Error> for CleanError {
    fn from(err: std::io::Error) -> (r: CleanError) {
        CleanError::IoError(err)
    }
}

impl vstd::std_specs::convert::FromSpecImpl<std::io::Error> for CleanError {
    open spec fn obeys_from_spec() -> bool {
        true
    }

    open spec fn from_spec(v: std::io::Error) -> CleanError {
        CleanError::IoError(v)
    }
}

impl From<globset::Error> for CleanError {
    fn from(err: globset::Error) -> (r: CleanError) {
        CleanError::GlobError(err)
    }
}

impl vstd::std_specs::convert::FromSpecImpl<globset::Error> for CleanError {
    open spec fn obeys_from_spec() -> bool {
        true
    }

    open spec fn from_spec(v: globset::Error) -> CleanError {
        CleanError::GlobError(v)
    }
}

} // verus!
