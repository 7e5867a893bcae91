//! The user configuration: where logs go and how large a log file may grow.

use vstd::prelude::*;

use crate::text::{chars_of, push_str, string_of};

verus! {

/// The configuration read from `config.json`.
#[derive(Debug, Clone, PartialEq, Eq)]
pub struct Config {
    pub log_dir: String,
    pub max_file_size_mb: u32,
}

/// The size limit used when the configuration names none.
pub fn default_max_file_size_mb() -> (r: u32)
    ensures
        r == 10,
{
    10
}

/// The log directory with a leading `~` replaced by `home` (only the first
/// `~`, and only when the path starts with it).
pub open spec fn expand_tilde(log_dir: Seq<char>, home: Seq<char>) -> Seq<char> {
    if log_dir.len() > 0 && log_dir[0] == '~' {
        home + log_dir.drop_first()
    } else {
        log_dir
    }
}

impl Config {
    /// The log directory as an absolute path, given the home directory.
    pub fn log_dir_with_home(&self, home: &str) -> (r: String)
        ensures
            r@ == expand_tilde(self.log_dir@, home@),
    {
        let v = chars_of(self.log_dir.as_str());
        if v.len() > 0 && v[0] == '~' {
            let mut out = chars_of(home);
            let mut i: usize = 1;
            let ghost base = out@;
            while i < v.len()
                invariant
                    1 <= i <= v.len(),
                    out@ == base + v@.subrange(1, i as int),
                decreases v.len() - i,
            {
                out.push(v[i]);
                assert(v@.subrange(1, i + 1) =~= v@.subrange(1, i as int).push(v@[i as int]));
                i += 1;
            }
            assert(v@.subrange(1, v.len() as int) =~= v@.drop_first());
            string_of(&out)
        } else {
            self.log_dir.clone()
        }
    }
}

} // verus!
