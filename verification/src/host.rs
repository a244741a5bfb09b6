//! What the engine is told about the process it runs in.
//!
//! The engine reads no environment variable and no file system. Its caller
//! observes the working directory, the search path and which candidate paths
//! are regular files, and hands them over as a `Host`.

use vstd::prelude::*;
use crate::search::file_set;

verus! {

/// The surroundings of one dispatch, as values.
#[derive(Debug, Clone)]
pub struct Host {
    /// The working directory; `None` where it is unavailable.
    pub cwd: Option<String>,
    /// The user's home directory; `None` where none is known.
    pub home: Option<String>,
    /// The value of the search-path variable; `None` where it is not set.
    pub search_path: Option<String>,
    /// The paths that are regular files, among those the engine asks about.
    pub files: Vec<String>,
}

/// A `Host` as the contracts see it.
pub struct HostView {
    pub cwd: Option<Seq<char>>,
    pub home: Option<Seq<char>>,
    pub search_path: Option<Seq<char>>,
    pub files: Set<Seq<char>>,
}

impl View for Host {
    type V = HostView;

    open spec fn view(&self) -> HostView {
        HostView {
            cwd: self.cwd.deep_view(),
            home: self.home.deep_view(),
            search_path: self.search_path.deep_view(),
            files: file_set(self.files@),
        }
    }
}

/// Calls `dirs::home_dir`. Nothing is claimed of the result: it depends on the
/// environment of the process and on the user database. A home directory
/// that is not valid Unicode comes back as `None`.
#[verifier::external_body]
fn home_directory() -> (home: Option<String>) {
    match dirs::home_dir() {
        Some(path) => path.into_os_string().into_string().ok(),
        None => None,
    }
}

/// An optional string as an optional string slice.
pub fn as_text(value: &Option<String>) -> (r: Option<&str>)
    ensures
        r.deep_view() == value.deep_view(),
{
    match value {
        Some(s) => Some(s.as_str()),
        None => None,
    }
}

impl Host {
    /// The host with what the caller has observed, completed by the home
    /// directory of the user, which is looked up here.
    pub fn new(cwd: Option<String>, search_path: Option<String>, files: Vec<String>) -> (host: Host)
        ensures
            host.cwd == cwd,
            host.search_path == search_path,
            host.files == files,
    {
        Host { cwd, home: home_directory(), search_path, files }
    }
}

} // verus!
