//! A remote-filesystem access engine: authenticated sessions multiplexing an
//! SFTP subsystem channel, a registry of live connections keyed by host, a
//! registry of in-flight transfers with cooperative cancellation, directory
//! listing normalization and ordering, and chunked transfer accounting.
//!
//! The streaming I/O itself suspends in the caller's asynchronous driver;
//! every rule the engine enforces — what a listing holds and in what order,
//! when a connect authenticates, how progress is counted, what a cancelled
//! transfer leaves behind, in which order a recursive delete proceeds — is
//! stated and checked here.

pub mod auth;
pub mod bookmarks;
pub mod connections;
pub mod error;
pub mod listing;
pub mod order;
pub mod paths;
pub mod remove;
pub mod text;
pub mod transfer;
pub mod transfers;

pub use bookmarks::{Bookmark, BookmarkList};
pub use connections::ConnectionRegistry;
pub use error::SftpError;
pub use listing::{DirectoryListing, FileEntry, RawEntry};
pub use paths::get_parent_path;
pub use transfer::{TransferEvent, TransferState};
pub use transfers::{TransferDirection, TransferJob, TransferRegistry};
