//! The configuration of the service and the way from it to the service.

use crate::error::SpaError;
use crate::manifest::{
    build_manifest_pattern, find_and_parse_build_manifest, is_loaded, loaded_routes,
    manifest_glob,
};
use crate::resolver::{request_is_answered, served, Answer, Disk};
use crate::route_table::RouteTable;
use crate::spa_service::SpaService;
use std::sync::Arc;
use vstd::prelude::*;
use vstd::string::*;

verus! {

/// The configuration of a single-page-application service, set up step by
/// step and turned into the service by `finish`.
#[derive(Debug, Clone)]
pub struct Spa {
    index_file: String,
    static_resources_mount: String,
    static_resources_location: String,
    wildcards: bool,
}

/// A configuration with its texts as character sequences.
pub struct SpaView {
    pub index_file: Seq<char>,
    pub static_resources_mount: Seq<char>,
    pub static_resources_location: Seq<char>,
    pub wildcards: bool,
}

impl View for Spa {
    type V = SpaView;

    closed spec fn view(&self) -> SpaView {
        SpaView {
            index_file: self.index_file@,
            static_resources_mount: self.static_resources_mount@,
            static_resources_location: self.static_resources_location@,
            wildcards: self.wildcards,
        }
    }
}

/// The configuration that a service starts from: the index file
/// `./index.html`, the static resources in `./` and served under `/`, and no
/// search of the file system.
pub open spec fn default_spa() -> SpaView {
    SpaView {
        index_file: "./index.html"@,
        static_resources_mount: "/"@,
        static_resources_location: "./"@,
        wildcards: false,
    }
}

/// Where the build manifest was not found or not read, every request is
/// answered with the index file, and none with an error, as long as the index
/// file opens and no other file does. `path_tree` is what `load_routes` gave
/// for `loaded`, and `service` what `finish` made of it.
pub proof fn missing_manifest_serves_index(
    spa: Spa,
    loaded: Result<Option<Result<String, String>>, SpaError>,
    path_tree: Result<RouteTable, SpaError>,
    service: SpaService,
    request_path: Seq<char>,
    disk: Disk,
)
    requires
        loaded_routes(loaded, spa@.static_resources_location) is Err,
        call_ensures(Spa::load_routes, (&spa, loaded), path_tree),
        call_ensures(Spa::finish, (spa, path_tree), service),
        (disk.refusal)(spa@.index_file) is None,
        forall|path: Seq<char>|
            path != spa@.index_file ==> (#[trigger] (disk.refusal)(path)) is Some,
    ensures
        served(
            service.path_tree.lookup(request_path),
            request_path,
            service.index_file@,
            service.static_resources_location@,
            service.wildcards,
            disk,
        ) == Some(Answer::File(service.index_file@)),
{
    let lookup = service.path_tree.lookup(request_path);
    assert(lookup is None);
    request_is_answered(
        lookup,
        request_path,
        service.index_file@,
        service.static_resources_location@,
        service.wildcards,
        disk,
    );
}

impl Spa {
    /// The configuration that a service starts from.
    pub fn new() -> (spa: Spa)
        ensures
            spa@ == default_spa(),
    {
        Spa {
            index_file: "./index.html".to_owned(),
            static_resources_mount: "/".to_owned(),
            static_resources_location: "./".to_owned(),
            wildcards: false,
        }
    }

    /// Sets the file that answers a request that nothing else answers.
    pub fn index_file(self, index_file: &str) -> (spa: Spa)
        ensures
            spa@ == (SpaView { index_file: index_file@, ..self@ }),
    {
        Spa { index_file: index_file.to_owned(), ..self }
    }

    /// Sets the prefix of the request paths under which the static resources
    /// are served as they are.
    pub fn static_resources_mount(self, static_resources_mount: &str) -> (spa: Spa)
        ensures
            spa@ == (SpaView { static_resources_mount: static_resources_mount@, ..self@ }),
    {
        Spa { static_resources_mount: static_resources_mount.to_owned(), ..self }
    }

    /// Sets the directory that holds the static resources.
    pub fn static_resources_location(self, static_resources_location: &str) -> (spa: Spa)
        ensures
            spa@ == (SpaView { static_resources_location: static_resources_location@, ..self@ }),
    {
        Spa { static_resources_location: static_resources_location.to_owned(), ..self }
    }

    /// Sets whether a request may be resolved by a search of the file
    /// system.
    pub fn wildcards(self, wildcards: bool) -> (spa: Spa)
        ensures
            spa@ == (SpaView { wildcards, ..self@ }),
    {
        Spa { wildcards, ..self }
    }

    /// The glob pattern that finds the build manifest of this configuration.
    pub fn manifest_pattern(&self) -> (pattern: String)
        ensures
            pattern@ == manifest_glob(self@.static_resources_location),
    {
        build_manifest_pattern(self.static_resources_location.as_str())
    }

    /// Builds the route table from what the search for the manifest and the
    /// reading of it gave, as `find_and_parse_build_manifest` does for the
    /// static resources of this configuration.
    pub fn load_routes(&self, loaded: Result<Option<Result<String, String>>, SpaError>) -> (table:
        Result<RouteTable, SpaError>)
        ensures
            is_loaded(table, loaded_routes(loaded, self@.static_resources_location)),
    {
        find_and_parse_build_manifest(self.static_resources_location.as_str(), loaded)
    }

    /// Makes the service, with `path_tree` for its routes. A manifest that
    /// could not be loaded is no failure: the service then has no routes, and
    /// answers with the index file.
    pub fn finish(self, path_tree: Result<RouteTable, SpaError>) -> (service: SpaService)
        ensures
            service.index_file@ == self@.index_file,
            service.static_resources_location@ == self@.static_resources_location,
            service.static_resources_mount@ == self@.static_resources_mount,
            service.wildcards == self@.wildcards,
            match path_tree {
                Ok(table) => *service.path_tree == table,
                Err(_) => service.path_tree@ == Seq::<Seq<char>>::empty(),
            },
    {
        let path_tree = match path_tree {
            Ok(table) => table,
            Err(_) => RouteTable::new(),
        };
        SpaService {
            index_file: Arc::new(self.index_file),
            static_resources_location: Arc::new(self.static_resources_location),
            static_resources_mount: self.static_resources_mount,
            path_tree: Arc::new(path_tree),
            wildcards: self.wildcards,
        }
    }
}

impl Default for Spa {
    fn default() -> (spa: Spa)
        ensures
            spa@ == default_spa(),
    {
        Spa::new()
    }
}

/// The configuration that a service starts from.
pub fn spa() -> (spa: Spa)
    ensures
        spa@ == default_spa(),
{
    Spa::new()
}

} // verus!
