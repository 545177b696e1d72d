use vstd::prelude::*;
use vstd::string::StringExecFns;

verus! {

/// Name of the current-state slot.
pub const CURRENT_NAME: &'static str = "status.cf";

/// Name under which the current state is written before it is renamed
/// over the current slot.
pub const STAGING_NAME: &'static str = "~status.cf";

/// Name of the history slot for a snapshot taken at `timestamp`.
pub open spec fn history_name_of(timestamp: Seq<char>) -> Seq<char> {
    "status_"@ + timestamp + ".cf"@
}

/// The history slot's name for `timestamp`: `status_<timestamp>.cf`.
pub fn history_name(timestamp: &str) -> (r: String)
    ensures
        r@ == history_name_of(timestamp@),
{
    let mut r = String::from_str("status_");
    r.append(timestamp);
    r.append(".cf");
    proof {
        reveal_strlit("status_");
        reveal_strlit(".cf");
    }
    r
}

/// An object key under a key prefix: the prefix followed by the name.
pub fn prefixed_key(prefix: &str, name: &str) -> (r: String)
    ensures
        r@ == prefix@ + name@,
{
    let mut r = String::from_str(prefix);
    r.append(name);
    r
}

/// Snapshot storage in a directory: the current state in `status.cf` and
/// timestamped copies under `history/`.
pub struct FilesystemBackend {
    dir: String,
}

impl FilesystemBackend {
    /// The storage directory.
    pub closed spec fn dir_path(&self) -> Seq<char> {
        self.dir@
    }

    pub fn new(dir: String) -> (r: Self)
        ensures
            r.dir_path() == dir@,
    {
        FilesystemBackend { dir }
    }

    /// The storage directory.
    pub fn dir(&self) -> (r: String)
        ensures
            r@ == self.dir_path(),
    {
        self.dir.clone()
    }
}

} // verus!
