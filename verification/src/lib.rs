//! Routing for a statically exported single-page application: which file
//! answers a request path.
//!
//! The routes come from the build manifest of the export. `manifest` finds
//! them in its text and builds the `route_table`; `resolver` takes a request
//! through route lookup, the optional search of the file system and the
//! fallback to the index file; `spa` and `spa_service` hold the configuration
//! and the finished service. The library reads no file itself: it says what
//! to search for and what to open, and is told what came of it.

pub mod error;
pub mod manifest;
pub mod pattern;
pub mod resolver;
pub mod route_table;
pub mod spa;
pub mod spa_service;
pub mod text;

pub use error::SpaError;
pub use spa::{spa, Spa};
pub use spa_service::SpaService;
