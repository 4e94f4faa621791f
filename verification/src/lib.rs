//! Pack acquisition engine: manifest-driven file fetching with integrity
//! checks, a fail-fast download dispatcher, and an overrides-archive
//! extractor that defends against path traversal.

pub mod dispatch;
pub mod errors;
pub mod extract;
pub mod hashing;
pub mod laws;
pub mod manifest;
pub mod pack;
pub mod paths;
pub mod permissions;
pub mod server;
pub mod versions;

pub use dispatch::Dispatcher;
pub use dispatch::FetchOutcome;
pub use errors::PackError;
pub use extract::EntryAction;
pub use extract::OverridesExtractor;
pub use manifest::FileDescriptor;
pub use manifest::FileWrite;
pub use manifest::Manifest;
pub use pack::PackType;
pub use pack::Platform;
