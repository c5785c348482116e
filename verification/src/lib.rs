//! Ephemeral scratch directories.
//!
//! The crate decides everything about a scratch directory that does not touch
//! the disk: it builds the uniquely-named path `<temp-root>/<prefix>-<suffix>`
//! from a caller-supplied temporary root and a random alphanumeric suffix, and
//! it plans a recursive, symlink-free copy of a directory tree as a worklist
//! of directories still to be listed together with one create-directory or
//! copy-file step per entry seen. A thin asynchronous shell performs the
//! filesystem calls that the plans call for and feeds their outcomes back in.

pub mod copier;
pub mod path;
pub mod rng;
pub mod scratch;

pub use copier::CopyAction;
pub use copier::CopyError;
pub use copier::FsEntry;
pub use copier::Traversal;
pub use path::DirPath;
pub use scratch::TmpDir;
