pub mod cache;
pub mod downloader;
pub mod http;
pub mod key;
pub mod lockfile;
pub mod pipeline;
pub mod source_resolver;
mod text;

pub use cache::{CargoCacheCrate, CrateDownloadTarget};
pub use lockfile::{CargoLockfile, Crate, CrateOwned, CrateView, ParseError};
