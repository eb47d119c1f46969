//! Filesystem-entry snapshots.
//!
//! The crate turns a path identity into an immutable, self-consistent
//! description of what exists there (file, directory, or symlink) and
//! assembles such snapshots into deterministically ordered, key-unique
//! collections. The filesystem lookups themselves are performed by the
//! caller, which hands their outcomes to the verified resolver; a broken
//! or unreadable symlink degrades the snapshot instead of failing it.

pub mod file;
pub mod help;
pub mod listing;
pub mod url;

pub use file::File;
pub use file::IoError;
pub use file::Metadata;
pub use help::Ctx;
pub use help::Help;
pub use help::Layout;
pub use listing::FileMap;
pub use url::Url;
