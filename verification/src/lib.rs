//! Verified rules of the FileHop transfer backend: message text and paging, sessions and
//! login throttling, file-transfer admission and life cycle, download headers and startup
//! configuration.
use vstd::prelude::*;

pub mod chars;
pub mod config;
pub mod download;
pub mod files;
pub mod ids;
pub mod messages;
pub mod problems;
pub mod session;
pub mod throttle;

pub use chars::whitespace;
pub use files::TransferConfig;

verus! {

} // verus!
