//! The tree-copy planner: a pull-based traversal worklist over the
//! directories still to be listed, and the planning of one copy step per
//! entry the traversal yields. The shell around the crate performs each
//! planned step and feeds every directory listing back into the worklist.

use crate::path::DirPath;
use vstd::prelude::*;

verus! {

/// One filesystem entry seen during traversal: its absolute path, and
/// whether the metadata read — which never follows symbolic links —
/// reported a directory.
#[derive(Debug)]
pub struct FsEntry {
    pub path: DirPath,
    pub is_dir: bool,
}

/// One step of copy work: create a directory (with any missing ancestors),
/// or copy one file's bytes over whatever the destination holds. No step
/// ever removes anything.
#[derive(Debug)]
pub enum CopyAction {
    CreateDir { dest: DirPath },
    CopyFile { src: DirPath, dest: DirPath },
}

impl CopyAction {
    /// The destination path that this step writes to.
    pub open spec fn dest_spec(self) -> Seq<Seq<char>> {
        match self {
            CopyAction::CreateDir { dest } => dest@,
            CopyAction::CopyFile { src: _, dest } => dest@,
        }
    }
}

/// Failure of copy planning: an entry's path turned out not to be rooted
/// under the traversal's source root, so no relative path exists for it.
#[derive(Debug, PartialEq, Eq)]
pub enum CopyError {
    InvalidInput,
}

/// The paths of the directories among `entries`, in order: exactly what one
/// directory listing contributes to the traversal worklist.
pub open spec fn dirs_of(entries: Seq<FsEntry>) -> Seq<Seq<Seq<char>>>
    decreases entries.len(),
{
    if entries.len() == 0 {
        Seq::empty()
    } else if entries.last().is_dir {
        dirs_of(entries.drop_last()).push(entries.last().path@)
    } else {
        dirs_of(entries.drop_last())
    }
}

/// The worklist of one tree traversal: every directory discovered but not
/// yet listed, each exactly once, the most recently discovered on top. The
/// traversal is complete exactly when the worklist is empty.
#[derive(Debug)]
pub struct Traversal {
    to_visit: Vec<DirPath>,
}

impl View for Traversal {
    type V = Seq<Seq<Seq<char>>>;

    closed spec fn view(&self) -> Seq<Seq<Seq<char>>> {
        self.to_visit@.map_values(|p: DirPath| p@)
    }
}

impl Traversal {
    /// A traversal about to start: the worklist holds `root` alone.
    pub fn begin(root: &DirPath) -> (t: Traversal)
        ensures
            t@ == seq![root@],
    {
        let mut to_visit: Vec<DirPath> = Vec::new();
        to_visit.push(root.duplicate());
        let t = Traversal { to_visit };
        proof {
            assert(t@ =~= seq![root@]);
        }
        t
    }

    /// Takes the most recently discovered directory still to be listed;
    /// `None` exactly when the traversal is complete.
    pub fn next_dir(&mut self) -> (r: Option<DirPath>)
        ensures
            match r {
                Some(p) => old(self)@.len() > 0 && p@ == old(self)@.last() && final(self)@ == old(
                    self,
                )@.drop_last(),
                None => old(self)@.len() == 0 && final(self)@ == old(self)@,
            },
    {
        let r = self.to_visit.pop();
        proof {
            if old(self)@.len() > 0 {
                assert(self@ =~= old(self)@.drop_last());
            }
        }
        r
    }

    /// Feeds one directory listing back into the traversal: the directories
    /// among `entries` join the worklist in listing order, on top of
    /// everything already pending; nothing already pending moves.
    pub fn record_listing(&mut self, entries: &Vec<FsEntry>)
        ensures
            final(self)@ == old(self)@ + dirs_of(entries@),
    {
        let mut i: usize = 0;
        proof {
            assert(self@ =~= old(self)@ + dirs_of(entries@.subrange(0, 0)));
        }
        while i < entries.len()
            invariant
                i <= entries.len(),
                self@ == old(self)@ + dirs_of(entries@.subrange(0, i as int)),
            decreases entries.len() - i,
        {
            proof {
                assert(entries@.subrange(0, i as int + 1).drop_last() =~= entries@.subrange(
                    0,
                    i as int,
                ));
                assert(entries@.subrange(0, i as int + 1).last() == entries@[i as int]);
            }
            if entries[i].is_dir {
                let ghost before = self@;
                self.to_visit.push(entries[i].path.duplicate());
                proof {
                    assert(self@ =~= before.push(entries@[i as int].path@));
                    assert(self@ =~= old(self)@ + dirs_of(entries@.subrange(0, i as int + 1)));
                }
            }
            i = i + 1;
        }
        proof {
            assert(entries@.subrange(0, entries@.len() as int) =~= entries@);
        }
    }
}

/// Relates one traversal entry to the copy step planned for it: the step
/// writes to `dest_root` extended by the entry's path taken relative to
/// `source_root`; an entry reported as a directory becomes a
/// create-directory step, anything else a copy of the file at the entry's
/// path.
pub open spec fn entry_action_ok(
    source_root: Seq<Seq<char>>,
    dest_root: Seq<Seq<char>>,
    entry: FsEntry,
    action: CopyAction,
) -> bool {
    let target = dest_root + entry.path@.skip(source_root.len() as int);
    match action {
        CopyAction::CreateDir { dest } => entry.is_dir && dest@ == target,
        CopyAction::CopyFile { src, dest } => !entry.is_dir && src@ == entry.path@ && dest@
            == target,
    }
}

/// Plans the copy step for one entry yielded by a traversal rooted at
/// `source_root`: the entry's path is re-rooted from `source_root` onto
/// `dest_root`. Fails exactly when the entry's path is not under
/// `source_root`.
pub fn plan_entry(source_root: &DirPath, dest_root: &DirPath, entry: &FsEntry) -> (r: Result<
    CopyAction,
    CopyError,
>)
    ensures
        match r {
            Ok(action) => source_root@.is_prefix_of(entry.path@) && entry_action_ok(
                source_root@,
                dest_root@,
                *entry,
                action,
            ),
            Err(e) => !source_root@.is_prefix_of(entry.path@) && e == CopyError::InvalidInput,
        },
{
    match entry.path.strip_prefix(source_root) {
        None => Err(CopyError::InvalidInput),
        Some(rel) => {
            let dest = dest_root.join_all(&rel);
            if entry.is_dir {
                Ok(CopyAction::CreateDir { dest })
            } else {
                Ok(CopyAction::CopyFile { src: entry.path.duplicate(), dest })
            }
        },
    }
}

/// Plans the copy steps for one whole directory listing, one step per entry
/// in listing order. Fails exactly when some entry of the listing is not
/// under `source_root`, and plans nothing then.
pub fn plan_listing(source_root: &DirPath, dest_root: &DirPath, entries: &Vec<FsEntry>) -> (r:
    Result<Vec<CopyAction>, CopyError>)
    ensures
        match r {
            Ok(actions) => {
                &&& actions@.len() == entries@.len()
                &&& forall|i: int|
                    0 <= i < entries@.len() ==> entry_action_ok(
                        source_root@,
                        dest_root@,
                        entries@[i],
                        #[trigger] actions@[i],
                    )
                &&& forall|i: int|
                    0 <= i < entries@.len() ==> source_root@.is_prefix_of(
                        #[trigger] entries@[i].path@,
                    )
            },
            Err(e) => {
                &&& e == CopyError::InvalidInput
                &&& exists|i: int|
                    0 <= i < entries@.len() && !source_root@.is_prefix_of(
                        #[trigger] entries@[i].path@,
                    )
            },
        },
{
    let mut actions: Vec<CopyAction> = Vec::new();
    let mut i: usize = 0;
    while i < entries.len()
        invariant
            i <= entries.len(),
            actions@.len() == i as int,
            forall|j: int|
                0 <= j < i ==> entry_action_ok(
                    source_root@,
                    dest_root@,
                    entries@[j],
                    #[trigger] actions@[j],
                ),
            forall|j: int|
                0 <= j < i ==> source_root@.is_prefix_of(#[trigger] entries@[j].path@),
        decreases entries.len() - i,
    {
        match plan_entry(source_root, dest_root, &entries[i]) {
            Ok(action) => {
                actions.push(action);
            },
            Err(e) => {
                return Err(e);
            },
        }
        i = i + 1;
    }
    Ok(actions)
}

/// Law: a directory listing contributes to the traversal worklist exactly
/// the entries reported as directories. So every directory seen is expanded
/// later, and an entry that is not a directory — a file, or a symbolic link,
/// whose metadata is read without following it — is never expanded.
pub proof fn lemma_worklist_gains_exactly_directories(entries: Seq<FsEntry>, q: Seq<Seq<char>>)
    ensures
        dirs_of(entries).contains(q) <==> exists|i: int|
            0 <= i < entries.len() && entries[i].is_dir && (#[trigger] entries[i].path)@ == q,
    decreases entries.len(),
{
    if entries.len() == 0 {
        assert(!dirs_of(entries).contains(q));
    } else {
        let dl = entries.drop_last();
        lemma_worklist_gains_exactly_directories(dl, q);
        let prev = dirs_of(dl);
        if entries.last().is_dir {
            assert(dirs_of(entries) == prev.push(entries.last().path@));
            if prev.contains(q) {
                let j = choose|j: int| 0 <= j < prev.len() && prev[j] == q;
                assert(prev.push(entries.last().path@)[j] == q);
            }
            if entries.last().path@ == q {
                assert(prev.push(entries.last().path@).last() == q);
                assert(entries[entries.len() - 1].is_dir && entries[entries.len() - 1].path@
                    == q);
            }
            if dirs_of(entries).contains(q) {
                let j = choose|j: int|
                    0 <= j < dirs_of(entries).len() && dirs_of(entries)[j] == q;
                if j < prev.len() {
                    assert(prev[j] == q);
                    let k = choose|k: int|
                        0 <= k < dl.len() && dl[k].is_dir && (#[trigger] dl[k].path)@ == q;
                    assert(entries[k].is_dir && entries[k].path@ == q);
                } else {
                    assert(entries.last().path@ == q);
                }
            }
            if exists|i: int|
                0 <= i < entries.len() && entries[i].is_dir && (#[trigger] entries[i].path)@
                    == q {
                let i = choose|i: int|
                    0 <= i < entries.len() && entries[i].is_dir && (#[trigger] entries[i].path)@
                        == q;
                if i < entries.len() - 1 {
                    assert(dl[i].is_dir && dl[i].path@ == q);
                    assert(prev.contains(q));
                    let j = choose|j: int| 0 <= j < prev.len() && prev[j] == q;
                    assert(dirs_of(entries)[j] == q);
                } else {
                    assert(dirs_of(entries).last() == q);
                }
            }
        } else {
            assert(dirs_of(entries) == prev);
            if dirs_of(entries).contains(q) {
                let k = choose|k: int|
                    0 <= k < dl.len() && dl[k].is_dir && (#[trigger] dl[k].path)@ == q;
                assert(entries[k].is_dir && entries[k].path@ == q);
            }
            if exists|i: int|
                0 <= i < entries.len() && entries[i].is_dir && (#[trigger] entries[i].path)@
                    == q {
                let i = choose|i: int|
                    0 <= i < entries.len() && entries[i].is_dir && (#[trigger] entries[i].path)@
                        == q;
                assert(i < entries.len() - 1);
                assert(dl[i].is_dir && dl[i].path@ == q);
            }
        }
    }
}

/// Law: copying is additive, never a mirror. Every planned step writes to
/// the image of its own entry's path under re-rooting from the source onto
/// the destination; a destination path that is the image of no entry — such
/// as a file present only in the destination — is the target of no step,
/// and no step of any kind removes anything.
pub proof fn lemma_copy_never_touches_foreign_paths(
    source_root: Seq<Seq<char>>,
    dest_root: Seq<Seq<char>>,
    entries: Seq<FsEntry>,
    actions: Seq<CopyAction>,
    q: Seq<Seq<char>>,
)
    requires
        actions.len() == entries.len(),
        forall|i: int|
            0 <= i < entries.len() ==> entry_action_ok(
                source_root,
                dest_root,
                entries[i],
                #[trigger] actions[i],
            ),
        forall|i: int|
            0 <= i < entries.len() ==> dest_root + (#[trigger] entries[i].path)@.skip(
                source_root.len() as int,
            ) != q,
    ensures
        forall|i: int| 0 <= i < actions.len() ==> (#[trigger] actions[i]).dest_spec() != q,
{
    assert forall|i: int| 0 <= i < actions.len() implies (#[trigger] actions[i]).dest_spec()
        != q by {
        assert(entry_action_ok(source_root, dest_root, entries[i], actions[i]));
        assert(dest_root + entries[i].path@.skip(source_root.len() as int) != q);
    }
}

} // verus!
