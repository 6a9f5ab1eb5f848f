//! Resolving a request path to the file that answers it.
//!
//! The library decides and the caller acts: `serve_index` and `serve_next`
//! say what to search for or which file to open, the caller does so on the
//! file system and reports what came of it, until the request is answered
//! with the file that was opened or with an error.

use crate::error::SpaError;
use crate::error::SpaErrorView;
use crate::manifest::{first_found, first_match, lemma_manifest_files_are_html, manifest_routes};
use crate::route_table::{built_by, holds_file, lemma_built_files, RouteTable};
use crate::text::{
    chars_of, has_char, has_suffix, is_numeric, is_numeric_segment, joined, leading_run,
    lemma_joined_segments, lemma_segment_len, lemma_segments_have_no_slash,
    lemma_segments_of_joined, push_range, push_str, segment_end, segment_len,
    segments, string_of, trailing_run, trim_end, trim_start,
};
use std::sync::Arc;
use vstd::prelude::*;
use vstd::string::*;

verus! {

/// What `ServeAction::Fail` says where an event does not answer the action
/// that was asked for.
pub const OUT_OF_TURN: &'static str = "event does not answer the action that was asked for";

/// The file for `file_path` under the directory `root`. A path that holds a
/// `*` or ends in `.html` is a file already and stays as it is; any other
/// loses the `/` at both ends and gets `.html`, under `root` without the `/`
/// at its end.
pub open spec fn constructed_path(file_path: Seq<char>, root: Seq<char>) -> Seq<char> {
    if !file_path.contains('*') && !".html"@.is_suffix_of(file_path) {
        trim_end(root, '/') + seq!['/'] + trim_end(trim_start(file_path, '/'), '/') + ".html"@
    } else {
        file_path
    }
}

/// A segment of a path as a search takes it: `*` in place of a segment that
/// is one or more ASCII digits, any other segment as it is.
pub open spec fn wildcard_segment(segment: Seq<char>) -> Seq<char> {
    if is_numeric(segment) {
        seq!['*']
    } else {
        segment
    }
}

/// `path` with each of its segments between `/` that is one or more ASCII
/// digits replaced by `*`.
pub open spec fn wildcard_path(path: Seq<char>) -> Seq<char>
    decreases path.len(),
{
    let n = segment_len(path) as int;
    if n >= path.len() {
        wildcard_segment(path)
    } else {
        wildcard_segment(path.take(n)) + seq!['/'] + wildcard_path(path.skip(n + 1))
    }
}

/// The glob pattern of the search that may replace `resolution`.
pub open spec fn wildcard_glob(resolution: Seq<char>, root: Seq<char>) -> Seq<char> {
    root + seq!['/'] + wildcard_path(resolution) + ".html"@
}

/// Where the serving of a request stands.
#[derive(Debug)]
pub enum ServeState {
    /// A search was asked for; `resolution` is what the request resolved to
    /// before it.
    Searching { resolution: String },
    /// The resolved file is being opened.
    OpeningFile,
    /// The index file is being opened.
    OpeningIndex,
    /// The request was answered.
    Done,
}

/// A state with its text as a character sequence.
pub enum ServeStateView {
    Searching { resolution: Seq<char> },
    OpeningFile,
    OpeningIndex,
    Done,
}

impl View for ServeState {
    type V = ServeStateView;

    open spec fn view(&self) -> ServeStateView {
        match self {
            ServeState::Searching { resolution } => ServeStateView::Searching {
                resolution: resolution@,
            },
            ServeState::OpeningFile => ServeStateView::OpeningFile,
            ServeState::OpeningIndex => ServeStateView::OpeningIndex,
            ServeState::Done => ServeStateView::Done,
        }
    }
}

/// What the caller is asked to do next.
#[derive(Debug)]
pub enum ServeAction {
    /// Search the file system for the glob `pattern` and report `Searched`.
    Search { pattern: String },
    /// Open the file `path` for reading and report `Opened` or `OpenFailed`.
    Open { path: String },
    /// Answer the request with the file that was opened last.
    Respond,
    /// Answer the request with `error`.
    Fail { error: SpaError },
}

/// An action with its texts as character sequences.
pub enum ServeActionView {
    Search { pattern: Seq<char> },
    Open { path: Seq<char> },
    Respond,
    Fail { error: SpaErrorView },
}

impl View for ServeAction {
    type V = ServeActionView;

    open spec fn view(&self) -> ServeActionView {
        match self {
            ServeAction::Search { pattern } => ServeActionView::Search { pattern: pattern@ },
            ServeAction::Open { path } => ServeActionView::Open { path: path@ },
            ServeAction::Respond => ServeActionView::Respond,
            ServeAction::Fail { error } => ServeActionView::Fail { error: error@ },
        }
    }
}

/// What came of the action that was asked for.
#[derive(Debug)]
pub enum ServeEvent {
    /// The search gave `found`: the entries it listed, in its order, `None`
    /// for one that could not be read; or the reason for which the pattern
    /// was refused.
    Searched { found: Result<Vec<Option<String>>, String> },
    /// The file was opened.
    Opened,
    /// The file could not be opened, for `reason`.
    OpenFailed { reason: String },
}

/// An event with its texts as character sequences.
pub enum ServeEventView {
    Searched { found: Result<Seq<Option<Seq<char>>>, Seq<char>> },
    Opened,
    OpenFailed { reason: Seq<char> },
}

impl View for ServeEvent {
    type V = ServeEventView;

    open spec fn view(&self) -> ServeEventView {
        match self {
            ServeEvent::Searched { found: Ok(entries) } => ServeEventView::Searched {
                found: Ok(entries.deep_view()),
            },
            ServeEvent::Searched { found: Err(reason) } => ServeEventView::Searched {
                found: Err(reason@),
            },
            ServeEvent::Opened => ServeEventView::Opened,
            ServeEvent::OpenFailed { reason } => ServeEventView::OpenFailed { reason: reason@ },
        }
    }
}

/// What a search replaces the resolution with: the first entry that could be
/// read. A search that was refused replaces nothing.
pub open spec fn search_hit(found: Result<Seq<Option<Seq<char>>>, Seq<char>>) -> Option<
    Seq<char>,
> {
    match found {
        Ok(entries) => first_found(entries),
        Err(_) => None,
    }
}

/// The first step for a request: `lookup` is what the route table gives for
/// `request_path`. The request resolves to the file of the route, or to its
/// own path where no route matches. With `wildcards`, a resolution that holds
/// a `/` is searched for first; else its file is opened.
pub open spec fn serve_start(
    lookup: Option<Seq<char>>,
    request_path: Seq<char>,
    root: Seq<char>,
    wildcards: bool,
) -> (ServeStateView, ServeActionView) {
    let resolution = match lookup {
        Some(file) => file,
        None => request_path,
    };
    if wildcards && resolution.contains('/') {
        (
            ServeStateView::Searching { resolution },
            ServeActionView::Search { pattern: wildcard_glob(resolution, root) },
        )
    } else {
        (
            ServeStateView::OpeningFile,
            ServeActionView::Open { path: constructed_path(resolution, root) },
        )
    }
}

/// The step that follows `event` in `state`. After a search the file of its
/// hit is opened, or that of the resolution where it has none. A file that
/// opens answers the request; where the resolved file does not open, the
/// index file is opened in its place; where that does not open either, the
/// request fails with `FileSystemError`. An event that answers nothing that
/// was asked for fails the request with `ServeFileError`.
pub open spec fn serve_step(
    state: ServeStateView,
    event: ServeEventView,
    index_file: Seq<char>,
    root: Seq<char>,
) -> (ServeStateView, ServeActionView) {
    match (state, event) {
        (ServeStateView::Searching { resolution }, ServeEventView::Searched { found }) => (
            ServeStateView::OpeningFile,
            ServeActionView::Open {
                path: constructed_path(
                    match search_hit(found) {
                        Some(hit) => hit,
                        None => resolution,
                    },
                    root,
                ),
            },
        ),
        (ServeStateView::OpeningFile, ServeEventView::Opened) => (
            ServeStateView::Done,
            ServeActionView::Respond,
        ),
        (ServeStateView::OpeningFile, ServeEventView::OpenFailed { reason }) => (
            ServeStateView::OpeningIndex,
            ServeActionView::Open { path: index_file },
        ),
        (ServeStateView::OpeningIndex, ServeEventView::Opened) => (
            ServeStateView::Done,
            ServeActionView::Respond,
        ),
        (ServeStateView::OpeningIndex, ServeEventView::OpenFailed { reason }) => (
            ServeStateView::Done,
            ServeActionView::Fail { error: SpaErrorView::FileSystemError(reason) },
        ),
        _ => (
            ServeStateView::Done,
            ServeActionView::Fail { error: SpaErrorView::ServeFileError(OUT_OF_TURN@) },
        ),
    }
}

/// Segments as a search takes them, each by `wildcard_segment`.
pub open spec fn wildcard_segments(parts: Seq<Seq<char>>) -> Seq<Seq<char>> {
    parts.map_values(|segment: Seq<char>| wildcard_segment(segment))
}

/// The wildcard path is the segments of the path, each taken as a search
/// takes it, joined again.
pub proof fn wildcard_path_is_segmentwise(path: Seq<char>)
    ensures
        wildcard_path(path) == joined(wildcard_segments(segments(path))),
    decreases path.len(),
{
    let n = segment_len(path) as int;
    lemma_segment_len(path);
    if n >= path.len() {
        assert(wildcard_segments(segments(path)) =~= seq![wildcard_segment(path)]);
    } else {
        let rest = segments(path.skip(n + 1));
        wildcard_path_is_segmentwise(path.skip(n + 1));
        lemma_joined_segments(path.skip(n + 1));
        let all = wildcard_segments(segments(path));
        assert(all =~= seq![wildcard_segment(path.take(n))] + wildcard_segments(rest));
        assert(all.drop_first() =~= wildcard_segments(rest));
    }
}

/// The wildcard path has as many segments as the path, and each of them is
/// `*` where that of the path is one or more ASCII digits, and that of the
/// path where it is not: an empty segment stays too.
pub proof fn wildcard_path_keeps_the_segments(path: Seq<char>)
    ensures
        segments(wildcard_path(path)) == wildcard_segments(segments(path)),
        segments(wildcard_path(path)).len() == segments(path).len(),
        forall|i: int|
            0 <= i < segments(path).len() ==> segments(wildcard_path(path))[i] == if is_numeric(
                #[trigger] segments(path)[i],
            ) {
                seq!['*']
            } else {
                segments(path)[i]
            },
{
    let parts = wildcard_segments(segments(path));
    wildcard_path_is_segmentwise(path);
    lemma_joined_segments(path);
    lemma_segments_have_no_slash(path);
    assert forall|i: int| 0 <= i < parts.len() implies !(#[trigger] parts[i]).contains('/') by {
        let segment = segments(path)[i];
        assert(!segment.contains('/'));
        if is_numeric(segment) {
            assert(parts[i] == seq!['*']);
            if parts[i].contains('/') {
                let k = choose|k: int| 0 <= k < parts[i].len() && parts[i][k] == '/';
                assert(parts[i][k] == '*');
            }
        }
    }
    lemma_segments_of_joined(parts);
}

/// A constructed path is a file: constructing from it once more changes
/// nothing.
pub proof fn constructed_path_is_a_file(file_path: Seq<char>, root: Seq<char>)
    ensures
        constructed_path(constructed_path(file_path, root), root) == constructed_path(
            file_path,
            root,
        ),
{
    let path = constructed_path(file_path, root);
    if !file_path.contains('*') && !".html"@.is_suffix_of(file_path) {
        let stem = trim_end(root, '/') + seq!['/'] + trim_end(trim_start(file_path, '/'), '/');
        assert(path =~= stem + ".html"@);
        assert(path.subrange(path.len() - ".html"@.len(), path.len() as int) =~= ".html"@);
    }
}

/// A file system as a request meets it.
pub struct Disk {
    /// What the search for a glob pattern gives.
    pub search: spec_fn(Seq<char>) -> Result<Seq<Option<Seq<char>>>, Seq<char>>,
    /// Why a file does not open; `None` for a file that opens.
    pub refusal: spec_fn(Seq<char>) -> Option<Seq<char>>,
}

/// How a request was answered: with a file, or with an error.
pub enum Answer {
    File(Seq<char>),
    Error(SpaErrorView),
}

/// The answer to a request that stands at `action` in `state`, when each
/// action is carried out on `disk` and its outcome handed to `serve_step`.
/// `opened` is the file that was opened last; `None` if the request is not
/// answered within `steps` actions.
pub open spec fn served_from(
    state: ServeStateView,
    action: ServeActionView,
    opened: Seq<char>,
    index_file: Seq<char>,
    root: Seq<char>,
    disk: Disk,
    steps: nat,
) -> Option<Answer>
    decreases steps,
{
    match action {
        ServeActionView::Respond => Some(Answer::File(opened)),
        ServeActionView::Fail { error } => Some(Answer::Error(error)),
        ServeActionView::Search { pattern } => if steps == 0 {
            None
        } else {
            let event = ServeEventView::Searched { found: (disk.search)(pattern) };
            let next = serve_step(state, event, index_file, root);
            served_from(next.0, next.1, opened, index_file, root, disk, (steps - 1) as nat)
        },
        ServeActionView::Open { path } => if steps == 0 {
            None
        } else {
            let event = match (disk.refusal)(path) {
                None => ServeEventView::Opened,
                Some(reason) => ServeEventView::OpenFailed { reason },
            };
            let next = serve_step(state, event, index_file, root);
            served_from(next.0, next.1, path, index_file, root, disk, (steps - 1) as nat)
        },
    }
}

/// The answer to a request for `request_path` on `disk`, where `lookup` is
/// what the route table gives for the path: `serve_start`, then `serve_step`
/// for up to three actions.
pub open spec fn served(
    lookup: Option<Seq<char>>,
    request_path: Seq<char>,
    index_file: Seq<char>,
    root: Seq<char>,
    wildcards: bool,
    disk: Disk,
) -> Option<Answer> {
    let first = serve_start(lookup, request_path, root, wildcards);
    served_from(first.0, first.1, Seq::empty(), index_file, root, disk, 3)
}

/// The file that a request resolves to: that of the route that matches it,
/// or of its own path where none does; with `wildcards`, that of the hit of
/// the search in its place, where the search has one.
pub open spec fn resolved_file(
    lookup: Option<Seq<char>>,
    request_path: Seq<char>,
    root: Seq<char>,
    wildcards: bool,
    disk: Disk,
) -> Seq<char> {
    let resolution = match lookup {
        Some(file) => file,
        None => request_path,
    };
    if wildcards && resolution.contains('/') {
        match search_hit((disk.search)(wildcard_glob(resolution, root))) {
            Some(hit) => constructed_path(hit, root),
            None => constructed_path(resolution, root),
        }
    } else {
        constructed_path(resolution, root)
    }
}

/// Every request is answered, and in one of three ways: with the file it
/// resolves to, where that opens; else with the index file, where that opens;
/// else with the error that the index file gave.
pub proof fn request_is_answered(
    lookup: Option<Seq<char>>,
    request_path: Seq<char>,
    index_file: Seq<char>,
    root: Seq<char>,
    wildcards: bool,
    disk: Disk,
)
    ensures
        served(lookup, request_path, index_file, root, wildcards, disk) == Some(
            {
                let file = resolved_file(lookup, request_path, root, wildcards, disk);
                if (disk.refusal)(file) is None {
                    Answer::File(file)
                } else {
                    match (disk.refusal)(index_file) {
                        None => Answer::File(index_file),
                        Some(reason) => Answer::Error(SpaErrorView::FileSystemError(reason)),
                    }
                }
            },
        ),
{
    reveal_with_fuel(served_from, 4);
}

/// A request that a route of the manifest matches is answered with the file
/// of that route, if the file opens and no search puts another in its place.
pub proof fn matched_route_is_served(
    table: RouteTable,
    keys: Seq<Option<Seq<char>>>,
    request_path: Seq<char>,
    index_file: Seq<char>,
    root: Seq<char>,
    wildcards: bool,
    disk: Disk,
)
    requires
        built_by(table, manifest_routes(keys, root)),
        table.lookup(request_path) matches Some(file) && (disk.refusal)(file) is None && (
        wildcards && file.contains('/') ==> search_hit((disk.search)(wildcard_glob(file, root)))
            is None),
    ensures
        served(table.lookup(request_path), request_path, index_file, root, wildcards, disk)
            == Some(Answer::File(table.lookup(request_path)->0)),
{
    let routes = manifest_routes(keys, root);
    let lookup = table.lookup(request_path);
    let file = lookup->0;
    assert(".html"@.is_suffix_of(file)) by {
        lemma_built_files(table, routes);
        lemma_manifest_files_are_html(keys, root);
        let at = table.route(request_path)->0 as int;
        assert(holds_file(routes, table@[at]));
        let i = choose|i: int| 0 <= i < routes.len() && (#[trigger] routes[i]).1 == file;
        assert(routes[i].1 == file);
    }
    request_is_answered(lookup, request_path, index_file, root, wildcards, disk);
}

/// With `wildcards`, a request that no route matches is answered with the
/// first file that the search for its wildcard pattern lists, and not with
/// the index file, if that file is a page and opens.
pub proof fn search_hit_is_served(
    hit: Seq<char>,
    request_path: Seq<char>,
    index_file: Seq<char>,
    root: Seq<char>,
    disk: Disk,
)
    requires
        request_path.contains('/'),
        search_hit((disk.search)(wildcard_glob(request_path, root))) == Some(hit),
        ".html"@.is_suffix_of(hit) || hit.contains('*'),
        (disk.refusal)(hit) is None,
    ensures
        served(None, request_path, index_file, root, true, disk) == Some(Answer::File(hit)),
{
    request_is_answered(None, request_path, index_file, root, true, disk);
}

/// A request that no route matches and whose file does not open is answered
/// with the index file, and with no error, as long as the index file opens.
pub proof fn unmatched_request_gets_index(
    request_path: Seq<char>,
    index_file: Seq<char>,
    root: Seq<char>,
    wildcards: bool,
    disk: Disk,
)
    requires
        (disk.refusal)(resolved_file(None, request_path, root, wildcards, disk)) is Some,
        (disk.refusal)(index_file) is None,
    ensures
        served(None, request_path, index_file, root, wildcards, disk) == Some(
            Answer::File(index_file),
        ),
{
    request_is_answered(None, request_path, index_file, root, wildcards, disk);
}

/// Taking up the same request twice, against the same table, gives the same
/// state and asks for the same action.
pub proof fn taking_up_is_repeatable(
    request_path: &str,
    static_resources_location: &Arc<String>,
    path_tree: &Arc<RouteTable>,
    wildcards: bool,
    first: (ServeState, ServeAction),
    second: (ServeState, ServeAction),
)
    requires
        call_ensures(
            serve_index,
            (request_path, static_resources_location, path_tree, wildcards),
            first,
        ),
        call_ensures(
            serve_index,
            (request_path, static_resources_location, path_tree, wildcards),
            second,
        ),
    ensures
        first.0@ == second.0@,
        first.1@ == second.1@,
{
}

/// The same event in the same state gives the same state and asks for the
/// same action, each time. With `taking_up_is_repeatable`: a request that
/// meets the same table and the same file system twice is answered the same
/// way twice.
pub proof fn step_is_repeatable(
    state: ServeState,
    event: ServeEvent,
    index_file: &Arc<String>,
    static_resources_location: &Arc<String>,
    first: (ServeState, ServeAction),
    second: (ServeState, ServeAction),
)
    requires
        call_ensures(serve_next, (state, event, index_file, static_resources_location), first),
        call_ensures(serve_next, (state, event, index_file, static_resources_location), second),
    ensures
        first.0@ == second.0@,
        first.1@ == second.1@,
{
}

/// The file that answers a request for `file_path`, under the static
/// resources.
pub fn construct_file_path(file_path: &str, static_resources_location: &Arc<String>) -> (path:
    String)
    ensures
        path@ == constructed_path(file_path@, static_resources_location@),
{
    let chars = chars_of(file_path);
    let suffix = chars_of(".html");
    if !has_char(&chars, '*') && !has_suffix(&chars, &suffix) {
        let root = chars_of(static_resources_location.as_str());
        let root_end: usize = trailing_run(&root, 0, '/');
        let start: usize = leading_run(&chars, '/');
        let end: usize = trailing_run(&chars, start, '/');
        assert(root@.skip(0) =~= root@);
        let mut out: Vec<char> = Vec::new();
        push_range(&mut out, &root, 0, root_end);
        out.push('/');
        push_range(&mut out, &chars, start, end);
        push_range(&mut out, &suffix, 0, suffix.len());
        assert(suffix@.subrange(0, suffix.len() as int) =~= suffix@);
        assert(out@ =~= trim_end(root@, '/') + seq!['/'] + trim_end(trim_start(chars@, '/'), '/')
            + ".html"@);
        string_of(&out)
    } else {
        file_path.to_owned()
    }
}

/// Replaces each segment of `file_path` that is one or more ASCII digits by
/// `*`; every other segment, an empty one too, stays as it is.
pub fn convert_to_wildcard_path(file_path: &str) -> (converted: Result<String, SpaError>)
    ensures
        converted matches Ok(path) && path@ == wildcard_path(file_path@) && segments(path@)
            == wildcard_segments(segments(file_path@)),
{
    let chars = chars_of(file_path);
    let mut out: Vec<char> = Vec::new();
    let mut start: usize = 0;
    assert(chars@.skip(0) =~= chars@);
    loop
        invariant_except_break
            start <= chars.len(),
            out@ + wildcard_path(chars@.skip(start as int)) == wildcard_path(chars@),
        ensures
            out@ == wildcard_path(chars@),
        decreases chars.len() - start,
    {
        let ghost rest = chars@.skip(start as int);
        let ghost before = out@;
        let end: usize = segment_end(&chars, start);
        proof {
            lemma_segment_len(rest);
            assert(rest.take(end - start) =~= chars@.subrange(start as int, end as int));
        }
        if is_numeric_segment(&chars, start, end) {
            out.push('*');
        } else {
            push_range(&mut out, &chars, start, end);
        }
        assert(out@ =~= before + wildcard_segment(chars@.subrange(start as int, end as int)));
        if end == chars.len() {
            assert(rest =~= chars@.subrange(start as int, end as int));
            break ;
        }
        out.push('/');
        assert(rest.skip(end - start + 1) =~= chars@.skip(end + 1));
        assert(out@ + wildcard_path(chars@.skip(end + 1)) =~= before + (wildcard_segment(
            rest.take(end - start),
        ) + seq!['/'] + wildcard_path(rest.skip(end - start + 1))));
        start = end + 1;
    }
    proof {
        wildcard_path_keeps_the_segments(chars@);
    }
    Ok(string_of(&out))
}

/// Takes up a request for `request_path`: looks it up in the route table and
/// says what to do first.
pub fn serve_index(
    request_path: &str,
    static_resources_location: &Arc<String>,
    path_tree: &Arc<RouteTable>,
    wildcards: bool,
) -> (next: (ServeState, ServeAction))
    ensures
        (next.0@, next.1@) == serve_start(
            path_tree.lookup(request_path@),
            request_path@,
            static_resources_location@,
            wildcards,
        ),
{
    let file_path = match path_tree.find(request_path) {
        Some(file) => file,
        None => request_path.to_owned(),
    };
    if wildcards && has_char(&chars_of(file_path.as_str()), '/') {
        match convert_to_wildcard_path(file_path.as_str()) {
            Ok(wildcard) => {
                let mut pattern = chars_of(static_resources_location.as_str());
                pattern.push('/');
                push_str(&mut pattern, wildcard.as_str());
                push_str(&mut pattern, ".html");
                assert(pattern@ =~= wildcard_glob(file_path@, static_resources_location@));
                (
                    ServeState::Searching { resolution: file_path },
                    ServeAction::Search { pattern: string_of(&pattern) },
                )
            },
            Err(error) => (ServeState::Done, ServeAction::Fail { error }),
        }
    } else {
        let path = construct_file_path(file_path.as_str(), static_resources_location);
        (ServeState::OpeningFile, ServeAction::Open { path })
    }
}

/// Takes what came of the last action and says what to do next.
pub fn serve_next(
    state: ServeState,
    event: ServeEvent,
    index_file: &Arc<String>,
    static_resources_location: &Arc<String>,
) -> (next: (ServeState, ServeAction))
    ensures
        (next.0@, next.1@) == serve_step(state@, event@, index_file@, static_resources_location@),
{
    match (state, event) {
        (ServeState::Searching { resolution }, ServeEvent::Searched { found }) => {
            let hit = match found {
                Ok(entries) => first_match(&entries),
                Err(_) => None,
            };
            let file_path = match hit {
                Some(path) => path,
                None => resolution,
            };
            let path = construct_file_path(file_path.as_str(), static_resources_location);
            (ServeState::OpeningFile, ServeAction::Open { path })
        },
        (ServeState::OpeningFile, ServeEvent::Opened) => (ServeState::Done, ServeAction::Respond),
        (ServeState::OpeningFile, ServeEvent::OpenFailed { reason }) => (
            ServeState::OpeningIndex,
            ServeAction::Open { path: index_file.as_str().to_owned() },
        ),
        (ServeState::OpeningIndex, ServeEvent::Opened) => (ServeState::Done, ServeAction::Respond),
        (ServeState::OpeningIndex, ServeEvent::OpenFailed { reason }) => (
            ServeState::Done,
            ServeAction::Fail { error: SpaError::FileSystemError(reason) },
        ),
        _ => (
            ServeState::Done,
            ServeAction::Fail { error: SpaError::ServeFileError(OUT_OF_TURN.to_owned()) },
        ),
    }
}

} // verus!
