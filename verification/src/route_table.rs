//! The route table: path patterns, each with the file that serves it, kept in
//! a `path_tree::PathTree` and matched by it.
//!
//! The tree keeps one file for each of its routes. A pattern that reaches a
//! route that is there already replaces the file of that route; any other
//! adds a route. Which patterns reach the same route is the tree's to say.

use path_tree::PathTree;
use vstd::prelude::*;

verus! {

#[verifier::external_type_specification]
#[verifier::external_body]
#[verifier::reject_recursive_types(T)]
pub struct ExPathTree<T>(PathTree<T>);

/// The values that `tree` holds, one for each of its routes, in the order in
/// which the routes were added.
pub uninterp spec fn tree_files(tree: PathTree<String>) -> Seq<Seq<char>>;

/// The place that `tree` has for `pattern`: the index of the route that the
/// pattern reaches in it, or the number of its routes where it reaches none.
pub uninterp spec fn tree_slot(tree: PathTree<String>, pattern: Seq<char>) -> nat;

/// The index of the route that the matching of `tree` picks for `path`, or
/// `None` where it picks none.
pub uninterp spec fn tree_route(tree: PathTree<String>, path: Seq<char>) -> Option<nat>;

/// `files` after `file` was written at `slot`: in place of the file there, or
/// at the end where `slot` is past the last.
pub open spec fn written(files: Seq<Seq<char>>, slot: int, file: Seq<char>) -> Seq<Seq<char>> {
    if 0 <= slot < files.len() {
        files.update(slot, file)
    } else {
        files.push(file)
    }
}

/// The file at `route` among `files`, if there is one.
pub open spec fn picked(files: Seq<Seq<char>>, route: Option<nat>) -> Option<Seq<char>> {
    match route {
        Some(index) => if index < files.len() {
            Some(files[index as int])
        } else {
            None
        },
        None => None,
    }
}

/// `PathTree::new`. Trusted: the new tree holds no value.
#[verifier::external_body]
fn tree_new() -> (tree: PathTree<String>)
    ensures
        tree_files(tree) == Seq::<Seq<char>>::empty(),
{
    PathTree::new()
}

/// `PathTree::insert`, which returns the index of the route it wrote.
/// Trusted: that index is the place the tree had for the pattern, and is not
/// past the end; the value is written there, in place of the one that was
/// there or as a new last one, and no other value changes; and the tree then
/// has that place for the pattern, unless the pattern holds a backslash: the
/// tree walks the pieces of such a pattern in a way that may end elsewhere
/// the second time.
#[verifier::external_body]
fn tree_insert(tree: &mut PathTree<String>, pattern: &str, file: String) -> (slot: usize)
    ensures
        slot == tree_slot(*old(tree), pattern@),
        slot <= tree_files(*old(tree)).len(),
        tree_files(*final(tree)) == written(tree_files(*old(tree)), slot as int, file@),
        !pattern@.contains('\\') ==> tree_slot(*final(tree), pattern@) == slot,
{
    tree.insert(pattern, file)
}

/// `PathTree::find`, keeping the value and dropping the captured parameters.
/// Trusted: the value is the one that the tree holds for the route that its
/// matching picks.
#[verifier::external_body]
fn tree_find(tree: &PathTree<String>, path: &str) -> (found: Option<String>)
    ensures
        found.deep_view() == picked(tree_files(*tree), tree_route(*tree, path@)),
{
    tree.find(path).map(|(file, _)| file.clone())
}

/// Path patterns with the file that each one serves.
#[derive(Debug)]
pub struct RouteTable {
    tree: PathTree<String>,
}

impl View for RouteTable {
    type V = Seq<Seq<char>>;

    /// The files that the table holds, one for each of its routes, in the
    /// order in which the routes were added.
    closed spec fn view(&self) -> Seq<Seq<char>> {
        tree_files(self.tree)
    }
}

/// Whether `after` is `before` with `file` inserted under `pattern`: the file
/// stands at the place that `before` had for the pattern, every other file is
/// as it was, and `after` has that place for the pattern, if the pattern
/// holds no backslash.
pub open spec fn inserted(
    before: RouteTable,
    after: RouteTable,
    pattern: Seq<char>,
    file: Seq<char>,
) -> bool {
    &&& before.slot(pattern) <= before@.len()
    &&& after@ == written(before@, before.slot(pattern) as int, file)
    &&& !pattern.contains('\\') ==> after.slot(pattern) == before.slot(pattern)
}

/// Whether `table` is what inserting `entries`, each a pattern and its file,
/// first to last into a table without routes gives.
pub open spec fn built_by(table: RouteTable, entries: Seq<(Seq<char>, Seq<char>)>) -> bool
    decreases entries.len(),
{
    if entries.len() == 0 {
        table@.len() == 0
    } else {
        exists|before: RouteTable|
            built_by(before, entries.drop_last()) && #[trigger] inserted(
                before,
                table,
                entries.last().0,
                entries.last().1,
            )
    }
}

/// Whether one of `entries` has the file `file`.
pub open spec fn holds_file(entries: Seq<(Seq<char>, Seq<char>)>, file: Seq<char>) -> bool {
    exists|i: int| 0 <= i < entries.len() && (#[trigger] entries[i]).1 == file
}

/// Last write wins: a second file under the same pattern, one without a
/// backslash, takes the place of the first, and the table has no more routes
/// than before.
pub proof fn last_write_wins(
    first: RouteTable,
    second: RouteTable,
    third: RouteTable,
    pattern: Seq<char>,
    earlier: Seq<char>,
    later: Seq<char>,
)
    requires
        !pattern.contains('\\'),
        inserted(first, second, pattern, earlier),
        inserted(second, third, pattern, later),
    ensures
        third@.len() == second@.len(),
        second@[second.slot(pattern) as int] == earlier,
        third@ == second@.update(second.slot(pattern) as int, later),
{
}

/// A table holds no file that was not inserted and no more files than were
/// inserted, and it holds the file that was inserted last.
pub proof fn lemma_built_files(table: RouteTable, entries: Seq<(Seq<char>, Seq<char>)>)
    requires
        built_by(table, entries),
    ensures
        table@.len() <= entries.len(),
        forall|i: int| 0 <= i < table@.len() ==> holds_file(entries, #[trigger] table@[i]),
        entries.len() > 0 ==> table@.contains(entries.last().1),
    decreases entries.len(),
{
    if entries.len() > 0 {
        let earlier = entries.drop_last();
        let last = entries.len() - 1;
        let before = choose|before: RouteTable|
            built_by(before, earlier) && #[trigger] inserted(
                before,
                table,
                entries.last().0,
                entries.last().1,
            );
        lemma_built_files(before, earlier);
        let slot = before.slot(entries.last().0) as int;
        let at = if slot < before@.len() {
            slot
        } else {
            before@.len() as int
        };
        assert(table@[at] == entries.last().1);
        assert forall|i: int| 0 <= i < table@.len() implies holds_file(
            entries,
            #[trigger] table@[i],
        ) by {
            if i == at {
                assert(entries[last].1 == table@[i]);
            } else {
                assert(table@[i] == before@[i]);
                let j = choose|j: int| 0 <= j < earlier.len() && (#[trigger] earlier[j]).1 == before@[i];
                assert(entries[j].1 == table@[i]);
            }
        }
    }
}

impl RouteTable {
    /// The place that the table has for `pattern`: the index of the route
    /// that the pattern reaches, or the number of routes where it reaches
    /// none.
    pub closed spec fn slot(&self, pattern: Seq<char>) -> nat {
        tree_slot(self.tree, pattern)
    }

    /// The index of the route that matches `path`, if one does.
    pub closed spec fn route(&self, path: Seq<char>) -> Option<nat> {
        tree_route(self.tree, path)
    }

    /// The file of the route that matches `path`, if one does.
    pub open spec fn lookup(&self, path: Seq<char>) -> Option<Seq<char>> {
        picked(self@, self.route(path))
    }

    /// A table without routes.
    pub fn new() -> (table: RouteTable)
        ensures
            table@ == Seq::<Seq<char>>::empty(),
    {
        RouteTable { tree: tree_new() }
    }

    /// Puts `file` under `pattern` and returns the index of the route that
    /// holds it: that of the route that the pattern reached, whose file it
    /// replaces, or that of a new last route.
    pub fn insert(&mut self, pattern: &str, file: String) -> (slot: usize)
        ensures
            slot == old(self).slot(pattern@),
            inserted(*old(self), *final(self), pattern@, file@),
    {
        tree_insert(&mut self.tree, pattern, file)
    }

    /// The file of the route that matches `path`, if one does.
    pub fn find(&self, path: &str) -> (found: Option<String>)
        ensures
            found.deep_view() == self.lookup(path@),
    {
        tree_find(&self.tree, path)
    }
}

} // verus!
