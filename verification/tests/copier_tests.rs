use std::collections::HashMap;
use std::collections::HashSet;

use tmpdir::copier::plan_entry;
use tmpdir::copier::plan_listing;
use tmpdir::CopyAction;
use tmpdir::CopyError;
use tmpdir::DirPath;
use tmpdir::FsEntry;
use tmpdir::Traversal;

fn dp(parts: &[&str]) -> DirPath {
    DirPath { parts: parts.iter().map(|s| s.to_string()).collect() }
}

fn parts(p: &[&str]) -> Vec<String> {
    p.iter().map(|s| s.to_string()).collect()
}

#[test]
fn test_plan_entry_file() {
    let src_root = dp(&["/", "tmp", "src"]);
    let dest_root = dp(&["/", "dest"]);
    let entry = FsEntry { path: dp(&["/", "tmp", "src", "dir1", "file1"]), is_dir: false };
    match plan_entry(&src_root, &dest_root, &entry).unwrap() {
        CopyAction::CopyFile { src, dest } => {
            assert_eq!(src.parts, parts(&["/", "tmp", "src", "dir1", "file1"]));
            assert_eq!(dest.parts, parts(&["/", "dest", "dir1", "file1"]));
        }
        other => panic!("expected a file copy, got {:?}", other),
    }
}

#[test]
fn test_plan_entry_dir() {
    let src_root = dp(&["/", "tmp", "src"]);
    let dest_root = dp(&["/", "dest"]);
    let entry = FsEntry { path: dp(&["/", "tmp", "src", "dir1"]), is_dir: true };
    match plan_entry(&src_root, &dest_root, &entry).unwrap() {
        CopyAction::CreateDir { dest } => {
            assert_eq!(dest.parts, parts(&["/", "dest", "dir1"]));
        }
        other => panic!("expected a directory creation, got {:?}", other),
    }
}

#[test]
fn test_plan_entry_outside_root() {
    let src_root = dp(&["/", "tmp", "src"]);
    let dest_root = dp(&["/", "dest"]);
    let entry = FsEntry { path: dp(&["/", "etc", "passwd"]), is_dir: false };
    let err = plan_entry(&src_root, &dest_root, &entry).unwrap_err();
    assert_eq!(err, CopyError::InvalidInput);
}

#[test]
fn test_plan_listing_fails_on_foreign_entry() {
    let src_root = dp(&["/", "tmp", "src"]);
    let dest_root = dp(&["/", "dest"]);
    let entries = vec![
        FsEntry { path: dp(&["/", "tmp", "src", "ok"]), is_dir: false },
        FsEntry { path: dp(&["/", "elsewhere"]), is_dir: false },
    ];
    let err = plan_listing(&src_root, &dest_root, &entries).unwrap_err();
    assert_eq!(err, CopyError::InvalidInput);
}

#[test]
fn test_traversal_is_a_stack() {
    let root = dp(&["/", "r"]);
    let mut tr = Traversal::begin(&root);
    let first = tr.next_dir().unwrap();
    assert_eq!(first.parts, parts(&["/", "r"]));
    let entries = vec![
        FsEntry { path: dp(&["/", "r", "a"]), is_dir: true },
        FsEntry { path: dp(&["/", "r", "b"]), is_dir: true },
        FsEntry { path: dp(&["/", "r", "f"]), is_dir: false },
    ];
    tr.record_listing(&entries);
    assert_eq!(tr.next_dir().unwrap().parts, parts(&["/", "r", "b"]));
    assert_eq!(tr.next_dir().unwrap().parts, parts(&["/", "r", "a"]));
    assert!(tr.next_dir().is_none());
    assert!(tr.next_dir().is_none());
}

/// A model filesystem: which children (path, is-this-a-directory) each
/// directory lists, and each file's contents.
struct ModelFs {
    listings: HashMap<Vec<String>, Vec<(Vec<String>, bool)>>,
    files: HashMap<Vec<String>, String>,
}

/// Drives a whole copy over the model filesystem, the way the shell drives
/// it over the real one: pop a directory, list it, feed the listing back to
/// the worklist, plan the listing's copy steps, apply each step to the model
/// destination. Returns every directory path that was listed.
fn drive_copy(
    fs: &ModelFs,
    source_root: &DirPath,
    dest_root: &DirPath,
    dest_dirs: &mut HashSet<Vec<String>>,
    dest_files: &mut HashMap<Vec<String>, String>,
) -> Vec<Vec<String>> {
    let mut tr = Traversal::begin(source_root);
    let mut listed = Vec::new();
    while let Some(dir) = tr.next_dir() {
        listed.push(dir.parts.clone());
        let children = fs.listings.get(&dir.parts).cloned().unwrap_or_default();
        let entries: Vec<FsEntry> = children
            .into_iter()
            .map(|(p, d)| FsEntry { path: DirPath { parts: p }, is_dir: d })
            .collect();
        tr.record_listing(&entries);
        let actions = plan_listing(source_root, dest_root, &entries).unwrap();
        for action in actions {
            match action {
                CopyAction::CreateDir { dest } => {
                    dest_dirs.insert(dest.parts);
                }
                CopyAction::CopyFile { src, dest } => {
                    let contents = fs.files.get(&src.parts).unwrap().clone();
                    dest_files.insert(dest.parts, contents);
                }
            }
        }
    }
    listed
}

fn sample_tree() -> ModelFs {
    let mut listings = HashMap::new();
    listings.insert(
        parts(&["/", "src"]),
        vec![
            (parts(&["/", "src", "dir1"]), true),
            (parts(&["/", "src", "file2"]), false),
        ],
    );
    listings.insert(
        parts(&["/", "src", "dir1"]),
        vec![(parts(&["/", "src", "dir1", "file1"]), false)],
    );
    let mut files = HashMap::new();
    files.insert(parts(&["/", "src", "dir1", "file1"]), "foo".to_string());
    files.insert(parts(&["/", "src", "file2"]), "foo".to_string());
    ModelFs { listings, files }
}

#[test]
fn test_copy_completeness() {
    let fs = sample_tree();
    let mut dest_dirs = HashSet::new();
    let mut dest_files = HashMap::new();
    drive_copy(&fs, &dp(&["/", "src"]), &dp(&["/", "dest"]), &mut dest_dirs, &mut dest_files);
    assert!(dest_dirs.contains(&parts(&["/", "dest", "dir1"])));
    assert_eq!(dest_files.get(&parts(&["/", "dest", "dir1", "file1"])).unwrap(), "foo");
    assert_eq!(dest_files.get(&parts(&["/", "dest", "file2"])).unwrap(), "foo");
    assert_eq!(dest_files.len(), 2);
}

#[test]
fn test_copy_is_additive_not_mirror() {
    let fs = sample_tree();
    let mut dest_dirs = HashSet::new();
    let mut dest_files = HashMap::new();
    dest_files.insert(parts(&["/", "dest", "extra"]), "keep me".to_string());
    drive_copy(&fs, &dp(&["/", "src"]), &dp(&["/", "dest"]), &mut dest_dirs, &mut dest_files);
    assert_eq!(dest_files.get(&parts(&["/", "dest", "extra"])).unwrap(), "keep me");
    assert_eq!(dest_files.get(&parts(&["/", "dest", "file2"])).unwrap(), "foo");
}

#[test]
fn test_copy_overwrites_colliding_file() {
    let fs = sample_tree();
    let mut dest_dirs = HashSet::new();
    let mut dest_files = HashMap::new();
    dest_files.insert(parts(&["/", "dest", "file2"]), "old".to_string());
    drive_copy(&fs, &dp(&["/", "src"]), &dp(&["/", "dest"]), &mut dest_dirs, &mut dest_files);
    assert_eq!(dest_files.get(&parts(&["/", "dest", "file2"])).unwrap(), "foo");
}

#[test]
fn test_traversal_never_enters_symlink() {
    // A symlink to a directory outside the tree: metadata read without
    // following reports it as not-a-directory, so it must be copied as a
    // single entry and never listed.
    let mut fs = sample_tree();
    fs.listings
        .get_mut(&parts(&["/", "src"]))
        .unwrap()
        .push((parts(&["/", "src", "link"]), false));
    fs.files.insert(parts(&["/", "src", "link"]), "<link to /outside>".to_string());
    let mut dest_dirs = HashSet::new();
    let mut dest_files = HashMap::new();
    let listed = drive_copy(
        &fs,
        &dp(&["/", "src"]),
        &dp(&["/", "dest"]),
        &mut dest_dirs,
        &mut dest_files,
    );
    assert!(!listed.contains(&parts(&["/", "src", "link"])));
    assert!(!listed.contains(&parts(&["/", "outside"])));
    assert!(dest_files.contains_key(&parts(&["/", "dest", "link"])));
    assert!(!dest_dirs.contains(&parts(&["/", "dest", "link"])));
}
