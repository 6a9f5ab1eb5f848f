//! Finding the build manifest, reading the routes out of it, and building the
//! route table from them.

use crate::error::SpaError;
use crate::error::SpaErrorView;
use crate::pattern::{capture_group, regex_captures, regex_pieces, split_pieces};
use crate::route_table::{built_by, inserted, RouteTable};
use crate::text::{chars_of, push_range, push_str, remove_all, string_of, without};
use vstd::prelude::*;
use vstd::string::*;

verus! {

/// The regular expression that finds a route in the text of a manifest: a
/// quoted key without a comma in it, a colon, and a list of one quoted entry.
/// Group 1 is the key.
pub const MANIFEST_ENTRY: &'static str = "\"([^,]+)\":\\s*\\[\"[^,]+\"]";

/// The regular expression that finds a dynamic segment in a route: an opening
/// bracket, one or more characters other than a closing bracket, and a
/// closing bracket. Group 1 is the whole segment, brackets included.
pub const DYNAMIC_SEGMENT: &'static str = "(?<param>\\[[^]]+])";

/// The glob pattern that finds the build manifest under `root`.
pub open spec fn manifest_glob(root: Seq<char>) -> Seq<char> {
    root + "/_next/**/_buildManifest.js"@
}

/// The first entry of a listing that could be read, if there is one.
pub open spec fn first_found(entries: Seq<Option<Seq<char>>>) -> Option<Seq<char>>
    decreases entries.len(),
{
    if entries.len() == 0 {
        None
    } else if entries[0] is Some {
        entries[0]
    } else {
        first_found(entries.drop_first())
    }
}

/// What stands for a dynamic segment in a pattern: a colon and the segment's
/// text without any bracket. Nothing for a segment that was not captured.
pub open spec fn parameter(segment: Option<Seq<char>>) -> Seq<char> {
    match segment {
        Some(text) => seq![':'] + remove_all(remove_all(text, seq!['[']), seq![']']),
        None => Seq::empty(),
    }
}

/// The pieces of a route put together again, each followed by the parameter
/// that stands for the dynamic segment after it, where there is one.
pub open spec fn splice(pieces: Seq<Seq<char>>, segments: Seq<Option<Seq<char>>>) -> Seq<char>
    decreases pieces.len(),
{
    if pieces.len() == 0 {
        Seq::empty()
    } else {
        let last = pieces.len() - 1;
        splice(pieces.drop_last(), segments) + pieces[last] + if last < segments.len() {
            parameter(segments[last])
        } else {
            Seq::empty()
        }
    }
}

/// `path` with each dynamic segment `[name]` turned into `:name`. The
/// segments are those that `DYNAMIC_SEGMENT` matches; were that expression
/// not to compile, the path would stay as it is.
pub open spec fn dynamic_path(path: Seq<char>) -> Seq<char> {
    match (regex_pieces(DYNAMIC_SEGMENT@, path), regex_captures(DYNAMIC_SEGMENT@, path, 1)) {
        (Some(pieces), Some(segments)) => splice(pieces, segments),
        _ => path,
    }
}

/// The pattern under which `route` enters the table.
pub open spec fn route_pattern(route: Seq<char>) -> Seq<char> {
    remove_all(dynamic_path(route), ".html"@)
}

/// The name of the page of `route`, relative to the static resources: `index`
/// for the root, else the route without one leading `/`.
pub open spec fn page_name(route: Seq<char>) -> Seq<char> {
    if route == seq!['/'] {
        "index"@
    } else if route.len() > 0 && route[0] == '/' {
        route.drop_first()
    } else {
        route
    }
}

/// `name` under the directory `root`, with one `/` between the two unless
/// `root` is empty or brings its own.
pub open spec fn under_root(root: Seq<char>, name: Seq<char>) -> Seq<char> {
    if root.len() == 0 || root.last() == '/' {
        root + name
    } else {
        root + seq!['/'] + name
    }
}

/// The file that serves `route`.
pub open spec fn route_file(route: Seq<char>, root: Seq<char>) -> Seq<char> {
    under_root(root, page_name(route) + ".html"@)
}

/// The insertions that build the table for the routes `keys`, in their
/// order: each route's pattern with its file. A key that was not captured
/// gives none.
pub open spec fn manifest_routes(keys: Seq<Option<Seq<char>>>, root: Seq<char>) -> Seq<
    (Seq<char>, Seq<char>),
>
    decreases keys.len(),
{
    if keys.len() == 0 {
        Seq::empty()
    } else {
        let earlier = manifest_routes(keys.drop_last(), root);
        match keys.last() {
            Some(route) => earlier.push((route_pattern(route), route_file(route, root))),
            None => earlier,
        }
    }
}

/// The insertions that build the table for the manifest `text`: those of the
/// keys that `MANIFEST_ENTRY` captures in it; none, were that expression not
/// to compile.
pub open spec fn parsed_routes(text: Seq<char>, root: Seq<char>) -> Seq<(Seq<char>, Seq<char>)> {
    match regex_captures(MANIFEST_ENTRY@, text, 1) {
        Some(keys) => manifest_routes(keys, root),
        None => Seq::empty(),
    }
}

/// What loading the manifest gives, from what the search for it and the
/// reading of it gave: the search's own error, `BuildManifestNotFound` where
/// it found nothing, `FileSystemError` where the file was not read, else the
/// insertions that build the table.
pub open spec fn loaded_routes(
    loaded: Result<Option<Result<String, String>>, SpaError>,
    root: Seq<char>,
) -> Result<Seq<(Seq<char>, Seq<char>)>, SpaErrorView> {
    match loaded {
        Err(error) => Err(error@),
        Ok(None) => Err(SpaErrorView::BuildManifestNotFound),
        Ok(Some(Err(reason))) => Err(SpaErrorView::FileSystemError(reason@)),
        Ok(Some(Ok(text))) => Ok(parsed_routes(text@, root)),
    }
}

/// Whether `table` is what loading gives where `expected` is what it
/// should give: the table built by the insertions, or the error.
pub open spec fn is_loaded(
    table: Result<RouteTable, SpaError>,
    expected: Result<Seq<(Seq<char>, Seq<char>)>, SpaErrorView>,
) -> bool {
    match expected {
        Ok(routes) => table matches Ok(built) && built_by(built, routes),
        Err(error) => table matches Err(given) && given@ == error,
    }
}

/// The file of every route ends in `.html`.
pub proof fn lemma_route_file_is_html(route: Seq<char>, root: Seq<char>)
    ensures
        ".html"@.is_suffix_of(route_file(route, root)),
{
    let file = route_file(route, root);
    let name = page_name(route);
    let stem = if root.len() == 0 || root.last() == '/' {
        root + name
    } else {
        root + seq!['/'] + name
    };
    assert(file =~= stem + ".html"@);
    assert(file.subrange(file.len() - ".html"@.len(), file.len() as int) =~= ".html"@);
}

/// Every insertion that a manifest gives names a file that ends in `.html`.
pub proof fn lemma_manifest_files_are_html(keys: Seq<Option<Seq<char>>>, root: Seq<char>)
    ensures
        forall|i: int|
            0 <= i < manifest_routes(keys, root).len() ==> ".html"@.is_suffix_of(
                #[trigger] manifest_routes(keys, root)[i].1,
            ),
    decreases keys.len(),
{
    if keys.len() > 0 {
        let routes = manifest_routes(keys, root);
        let earlier = manifest_routes(keys.drop_last(), root);
        lemma_manifest_files_are_html(keys.drop_last(), root);
        if let Some(route) = keys.last() {
            lemma_route_file_is_html(route, root);
        }
        assert forall|i: int| 0 <= i < routes.len() implies ".html"@.is_suffix_of(
            #[trigger] routes[i].1,
        ) by {
            if i < earlier.len() {
                assert(routes[i] == earlier[i]);
            }
        }
    }
}

/// Every route that was captured is inserted: its pattern with its file is
/// among the insertions that build the table. Whether the file is still held
/// at the end depends on whether a later route took its place.
pub proof fn every_route_is_entered(keys: Seq<Option<Seq<char>>>, root: Seq<char>, i: int)
    requires
        0 <= i < keys.len(),
        keys[i] is Some,
    ensures
        manifest_routes(keys, root).contains(
            (route_pattern(keys[i]->0), route_file(keys[i]->0, root)),
        ),
    decreases keys.len(),
{
    let routes = manifest_routes(keys, root);
    let earlier = manifest_routes(keys.drop_last(), root);
    if i == keys.len() - 1 {
        assert(routes[routes.len() - 1] == (route_pattern(keys[i]->0), route_file(keys[i]->0, root)));
    } else {
        every_route_is_entered(keys.drop_last(), root, i);
        let entry = (route_pattern(keys[i]->0), route_file(keys[i]->0, root));
        let at = choose|at: int| 0 <= at < earlier.len() && earlier[at] == entry;
        assert(routes[at] == entry);
    }
}

/// The glob pattern that finds the build manifest under the static
/// resources.
pub fn build_manifest_pattern(static_resources_location: &str) -> (pattern: String)
    ensures
        pattern@ == manifest_glob(static_resources_location@),
{
    let mut pattern = static_resources_location.to_owned();
    pattern.append("/_next/**/_buildManifest.js");
    pattern
}

/// The first entry of a listing that could be read.
pub fn first_match(entries: &Vec<Option<String>>) -> (first: Option<String>)
    ensures
        first.deep_view() == first_found(entries.deep_view()),
{
    let mut i: usize = 0;
    assert(entries.deep_view().skip(0) =~= entries.deep_view());
    while i < entries.len()
        invariant
            i <= entries.len(),
            first_found(entries.deep_view().skip(i as int)) == first_found(entries.deep_view()),
        decreases entries.len() - i,
    {
        let ghost rest = entries.deep_view().skip(i as int);
        assert(rest[0] == entries@[i as int].deep_view());
        match &entries[i] {
            Some(path) => {
                return Some(path.clone());
            },
            None => {},
        }
        assert(rest.drop_first() =~= entries.deep_view().skip(i + 1));
        i += 1;
    }
    None
}

/// Picks the build manifest from what the search for `manifest_glob` gave:
/// the entries it listed, `None` for one that could not be read, or the
/// reason for which the pattern was refused. The manifest is the first entry
/// that could be read.
pub fn find_build_manifest(found: Result<Vec<Option<String>>, String>) -> (manifest: Result<
    Option<String>,
    SpaError,
>)
    ensures
        match found {
            Ok(entries) => manifest matches Ok(path) && path.deep_view() == first_found(
                entries.deep_view(),
            ),
            Err(reason) => manifest matches Err(error) && error@
                == SpaErrorView::GlobPatternError(reason@),
        },
{
    match found {
        Ok(entries) => Ok(first_match(&entries)),
        Err(reason) => Err(SpaError::GlobPatternError(reason)),
    }
}

/// Puts the pieces of a route together again, each followed by the parameter
/// for the dynamic segment that was matched after it.
pub fn splice_parameters(pieces: &Vec<String>, segments: &Vec<Option<String>>) -> (path: String)
    ensures
        path@ == splice(pieces.deep_view(), segments.deep_view()),
{
    let mut out: Vec<char> = Vec::new();
    let mut opening: Vec<char> = Vec::new();
    opening.push('[');
    let mut closing: Vec<char> = Vec::new();
    closing.push(']');
    assert(opening@ =~= seq!['[']);
    assert(closing@ =~= seq![']']);
    let mut i: usize = 0;
    assert(pieces.deep_view().take(0) =~= Seq::<Seq<char>>::empty());
    while i < pieces.len()
        invariant
            i <= pieces.len(),
            opening@ == seq!['['],
            closing@ == seq![']'],
            out@ == splice(pieces.deep_view().take(i as int), segments.deep_view()),
        decreases pieces.len() - i,
    {
        let ghost before = out@;
        let ghost done = pieces.deep_view().take(i + 1);
        assert(done.drop_last() =~= pieces.deep_view().take(i as int));
        assert(done[i as int] == pieces@[i as int]@);
        push_str(&mut out, pieces[i].as_str());
        if i < segments.len() {
            assert(segments.deep_view()[i as int] == segments@[i as int].deep_view());
            match &segments[i] {
                Some(text) => {
                    let name = without(&without(&chars_of(text.as_str()), &opening), &closing);
                    out.push(':');
                    push_range(&mut out, &name, 0, name.len());
                    assert(name@.subrange(0, name.len() as int) =~= name@);
                    assert(out@ =~= before + pieces@[i as int]@ + parameter(
                        segments.deep_view()[i as int],
                    ));
                },
                None => {
                    assert(out@ =~= before + pieces@[i as int]@ + parameter(
                        segments.deep_view()[i as int],
                    ));
                },
            }
        } else {
            assert(out@ =~= before + pieces@[i as int]@ + Seq::<char>::empty());
        }
        i += 1;
    }
    assert(pieces.deep_view().take(pieces.len() as int) =~= pieces.deep_view());
    string_of(&out)
}

/// Turns each dynamic segment `[name]` of `path` into `:name`.
pub fn convert_dynamic_path(path: &str) -> (converted: String)
    ensures
        converted@ == dynamic_path(path@),
{
    match (split_pieces(DYNAMIC_SEGMENT, path), capture_group(DYNAMIC_SEGMENT, path, 1)) {
        (Some(pieces), Some(segments)) => splice_parameters(&pieces, &segments),
        _ => path.to_owned(),
    }
}

/// The file that serves `route`, under the static resources.
pub fn route_file_path(route: &str, static_resources_location: &str) -> (file: String)
    ensures
        file@ == route_file(route@, static_resources_location@),
{
    let chars = chars_of(route);
    let mut out = chars_of(static_resources_location);
    let root_len: usize = out.len();
    if root_len > 0 && out[root_len - 1] != '/' {
        out.push('/');
    }
    let ghost stem = out@;
    if chars.len() == 1 && chars[0] == '/' {
        assert(chars@ =~= seq!['/']);
        push_str(&mut out, "index");
    } else if chars.len() > 0 && chars[0] == '/' {
        push_range(&mut out, &chars, 1, chars.len());
    } else {
        push_range(&mut out, &chars, 0, chars.len());
        assert(chars@.subrange(0, chars.len() as int) =~= chars@);
    }
    assert(out@ =~= stem + page_name(route@));
    push_str(&mut out, ".html");
    assert(out@ =~= under_root(static_resources_location@, page_name(route@) + ".html"@));
    string_of(&out)
}

/// Builds the table for the routes `keys`, in their order: each is inserted
/// under its pattern, with its file under the static resources. Of two routes
/// that reach the same place in the table, the later one stays.
pub fn build_route_table(keys: &Vec<Option<String>>, static_resources_location: &str) -> (table:
    RouteTable)
    ensures
        built_by(table, manifest_routes(keys.deep_view(), static_resources_location@)),
{
    let mut table = RouteTable::new();
    let suffix = chars_of(".html");
    let mut i: usize = 0;
    assert(keys.deep_view().take(0) =~= Seq::<Option<Seq<char>>>::empty());
    while i < keys.len()
        invariant
            i <= keys.len(),
            suffix@ == ".html"@,
            built_by(
                table,
                manifest_routes(keys.deep_view().take(i as int), static_resources_location@),
            ),
        decreases keys.len() - i,
    {
        let ghost done = keys.deep_view().take(i + 1);
        assert(done.drop_last() =~= keys.deep_view().take(i as int));
        assert(done.last() == keys@[i as int].deep_view());
        match &keys[i] {
            Some(route) => {
                let file = route_file_path(route.as_str(), static_resources_location);
                let converted = convert_dynamic_path(route.as_str());
                let pattern = string_of(&without(&chars_of(converted.as_str()), &suffix));
                let ghost before = table;
                let ghost earlier = manifest_routes(
                    keys.deep_view().take(i as int),
                    static_resources_location@,
                );
                let ghost entry = (pattern@, file@);
                table.insert(pattern.as_str(), file);
                assert(built_by(table, earlier.push(entry))) by {
                    let entries = earlier.push(entry);
                    assert(entries.drop_last() =~= earlier);
                    assert(entries.last() == entry);
                    assert(built_by(before, entries.drop_last()) && inserted(
                        before,
                        table,
                        entries.last().0,
                        entries.last().1,
                    ));
                }
            },
            None => {},
        }
        i += 1;
    }
    assert(keys.deep_view().take(keys.len() as int) =~= keys.deep_view());
    table
}

/// Reads the routes out of the text of a build manifest and builds the table
/// from them. Text in which nothing has the shape of an entry gives a table
/// without routes.
pub fn parse_build_manifest(build_manifest: String, static_resources_location: &str) -> (table:
    RouteTable)
    ensures
        built_by(table, parsed_routes(build_manifest@, static_resources_location@)),
{
    match capture_group(MANIFEST_ENTRY, build_manifest.as_str(), 1) {
        Some(keys) => build_route_table(&keys, static_resources_location),
        None => RouteTable::new(),
    }
}

/// Builds the route table from what the search for the manifest and the
/// reading of it gave. `loaded` is the outcome of `find_build_manifest`, with
/// the path it picked replaced by what reading that file gave: its text, or
/// the reason for which it could not be read.
pub fn find_and_parse_build_manifest(
    static_resources_location: &str,
    loaded: Result<Option<Result<String, String>>, SpaError>,
) -> (table: Result<RouteTable, SpaError>)
    ensures
        is_loaded(table, loaded_routes(loaded, static_resources_location@)),
{
    match loaded {
        Ok(Some(Ok(text))) => Ok(parse_build_manifest(text, static_resources_location)),
        Ok(Some(Err(reason))) => Err(SpaError::FileSystemError(reason)),
        Ok(None) => Err(SpaError::BuildManifestNotFound),
        Err(error) => Err(error),
    }
}

} // verus!
