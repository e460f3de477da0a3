//! The host-environment collaborators the pipeline consumes: the per-user
//! configuration directory, existence checks on disk, and the user's real
//! name. Their results depend on the machine the program runs on, so their
//! contracts promise nothing; every caller states what holds of each
//! possible outcome.
use vstd::prelude::*;

verus! {

/// Relies on dirs::config_dir: the host's per-user configuration directory,
/// or None when it cannot be determined (also None here when the path is
/// not valid UTF-8).
#[verifier::external_body]
pub(crate) fn config_dir_path() -> (r: Option<String>) {
    match dirs::config_dir() {
        Some(p) => match p.into_os_string().into_string() {
            Ok(s) => Some(s),
            Err(_) => None,
        },
        None => None,
    }
}

/// Relies on std::path::Path::exists: whether something exists on disk at
/// the given path.
#[verifier::external_body]
pub(crate) fn path_exists(p: &str) -> (r: bool) {
    std::path::Path::new(p).exists()
}

/// Relies on whoami::realname: the host user's display name, or None when
/// it cannot be determined.
#[verifier::external_body]
pub(crate) fn host_realname() -> (r: Option<String>) {
    match whoami::realname() {
        Ok(s) => Some(s),
        Err(_) => None,
    }
}

} // verus!
