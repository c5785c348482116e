//! The identity of a scratch directory: a uniquely-named path directly under
//! the platform's temporary-files root.

use crate::path::DirPath;
use crate::rng::is_ascii_alphanumeric_char;
use crate::rng::random_alphanumeric;
use vstd::prelude::*;
use vstd::string::StringExecFns;

verus! {

/// Number of random characters in a scratch directory's name suffix.
pub const SUFFIX_LEN: usize = 10;

/// True when `name` is a well-formed scratch-directory name for `prefix`:
/// the prefix itself, one separating `-`, and exactly `SUFFIX_LEN` ASCII
/// alphanumeric characters.
pub open spec fn is_scratch_name(name: Seq<char>, prefix: Seq<char>) -> bool {
    &&& name.len() == prefix.len() + 1 + SUFFIX_LEN as int
    &&& name.subrange(0, prefix.len() as int) == prefix
    &&& name[prefix.len() as int] == '-'
    &&& forall|i: int|
        prefix.len() + 1 <= i < name.len() ==> is_ascii_alphanumeric_char(#[trigger] name[i])
}

/// A scratch directory's identity: the absolute path it owns, one fresh
/// component below the temporary-files root. Picking the identity touches no
/// disk state; the shell around the crate creates the directory at exactly
/// this path, and removes it — explicitly on close, or best-effort when the
/// owning handle is discarded.
#[derive(Debug)]
pub struct TmpDir {
    path: DirPath,
}

impl View for TmpDir {
    type V = Seq<Seq<char>>;

    closed spec fn view(&self) -> Seq<Seq<char>> {
        self.path@
    }
}

impl TmpDir {
    /// Picks the path of a new scratch directory: `temp_root` extended by the
    /// single component `<prefix>-<suffix>`, where the suffix is a fresh
    /// random string of `SUFFIX_LEN` alphanumeric characters.
    pub fn new(temp_root: &DirPath, prefix: &str) -> (r: TmpDir)
        ensures
            r@.len() == temp_root@.len() + 1,
            r@.drop_last() == temp_root@,
            is_scratch_name(r@.last(), prefix@),
    {
        let suffix = random_alphanumeric(SUFFIX_LEN);
        let name = prefix.to_owned().concat("-").concat(suffix.as_str());
        proof {
            reveal_strlit("-");
            assert(name@.subrange(0, prefix@.len() as int) =~= prefix@);
            assert forall|i: int|
                prefix@.len() + 1 <= i < name@.len() implies is_ascii_alphanumeric_char(
                #[trigger] name@[i],
            ) by {
                assert(name@[i] == suffix@[i - prefix@.len() - 1]);
            }
        }
        let path = temp_root.join(name.as_str());
        proof {
            assert(path@.drop_last() =~= temp_root@);
        }
        TmpDir { path }
    }

    /// The owned path, as a fresh value for the caller's read-only use.
    pub fn to_path_buf(&self) -> (r: DirPath)
        ensures
            r@ == self@,
    {
        self.path.duplicate()
    }
}

} // verus!
