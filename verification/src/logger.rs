//! Run configuration for the log writer that the adapters install.

use std::path::PathBuf;

use vstd::prelude::*;

verus! {

/// Relies on std::path::PathBuf: declared opaque, only stored here and
/// handed back unchanged.
#[verifier::external_type_specification]
#[verifier::external_body]
pub struct ExPathBuf(PathBuf);

/// Where log files go and which level filter applies. The adapter that
/// actually opens the appender reads both back through the getters.
pub struct Logger {
    logs_dir_path: PathBuf,
    filter: String,
}

impl Logger {
    pub closed spec fn spec_logs_dir_path(self) -> PathBuf {
        self.logs_dir_path
    }

    pub closed spec fn spec_filter(self) -> String {
        self.filter
    }

    pub fn new(logs_dir_path: PathBuf, filter: String) -> (l: Logger)
        ensures
            l.spec_logs_dir_path() == logs_dir_path,
            l.spec_filter() == filter,
    {
        Logger { logs_dir_path, filter }
    }

    pub fn logs_dir_path(&self) -> (r: &PathBuf)
        ensures
            *r == self.spec_logs_dir_path(),
    {
        &self.logs_dir_path
    }

    pub fn filter(&self) -> (r: &String)
        ensures
            *r == self.spec_filter(),
    {
        &self.filter
    }
}

} // verus!
