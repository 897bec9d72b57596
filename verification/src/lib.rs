//! A content-addressed, URL-keyed disk cache.
//!
//! A locator (scheme, optional authority, path) is mapped by a pure,
//! deterministic codec to a filesystem-relative path; a store rooted at an
//! absolute directory reads and writes byte entries under such paths, with
//! write-to-temporary-then-rename atomicity.  The store's behaviour is
//! verified against an explicit model of the filesystem; binding the model
//! to a real disk is left to unverified callers.

pub mod changes;
pub mod codec;
pub mod disk_cache;
pub mod fs_model;
pub mod host;
pub mod locator;
pub mod paths;
pub mod strnum;

pub use disk_cache::DiskCache;
pub use fs_model::FileSys;
pub use locator::Locator;
pub use locator::Scheme;
pub use paths::AbsPath;
pub use paths::RelPath;
