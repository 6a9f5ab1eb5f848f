//! The service as it stands once its configuration is finished.

use crate::route_table::RouteTable;
use std::sync::Arc;
use vstd::prelude::*;

verus! {

/// A finished service: what every request is resolved against. Nothing in it
/// changes after it is made, so requests may share it.
#[derive(Debug)]
pub struct SpaService {
    /// The file that answers a request that nothing else answers.
    pub index_file: Arc<String>,
    /// The directory that holds the static resources.
    pub static_resources_location: Arc<String>,
    /// The prefix of the request paths under which the static resources are
    /// served as they are.
    pub static_resources_mount: String,
    /// The routes of the build manifest.
    pub path_tree: Arc<RouteTable>,
    /// Whether a request may be resolved by a search of the file system.
    pub wildcards: bool,
}

} // verus!
