//! The rows of the file tree.
use vstd::prelude::*;
use vstd::string::*;

use crate::app::{BlackholesApp, DirectoryListing, FileEntry};
use crate::explorer::ExplorerModel;
use crate::labels::FileEntryKind;
use crate::paths::{components, path_components};

verus! {

#[derive(Clone, Copy, Debug, PartialEq, Eq, Structural)]
pub enum FileTreeRowKind {
    Entry(FileEntryKind),
    Loading,
    Error,
}

#[derive(Debug)]
pub struct FileTreeRow {
    pub path: String,
    pub label: String,
    pub depth: usize,
    pub hidden: bool,
    pub expanded: bool,
    pub kind: FileTreeRowKind,
}

/// A row by its texts.
pub struct TreeRow {
    pub path: Seq<char>,
    pub label: Seq<char>,
    pub depth: int,
    pub hidden: bool,
    pub expanded: bool,
    pub kind: FileTreeRowKind,
}

impl View for FileTreeRow {
    type V = TreeRow;

    open spec fn view(&self) -> TreeRow {
        TreeRow {
            path: self.path@,
            label: self.label@,
            depth: self.depth as int,
            hidden: self.hidden,
            expanded: self.expanded,
            kind: self.kind,
        }
    }
}

/// The rows by their texts.
pub open spec fn tree_rows(rows: Seq<FileTreeRow>) -> Seq<TreeRow> {
    rows.map_values(|row: FileTreeRow| row@)
}

/// What a directory is known to hold.
pub open spec fn listed(explorer: ExplorerModel, directory: Seq<char>) -> Seq<FileEntry> {
    match explorer.listing_at(directory) {
        Some(DirectoryListing::Loaded(entries)) => entries@,
        _ => seq![],
    }
}

/// How much deeper paths under the directory can get.
pub open spec fn room(directory: Seq<char>) -> nat {
    if components(directory).len() < usize::MAX {
        (usize::MAX - components(directory).len()) as nat
    } else {
        0
    }
}

/// The rows of a directory: its entries, each followed by the rows of what it
/// holds where it is an expanded directory; or the one row that says that the
/// listing is not there.
pub open spec fn directory_rows(app: BlackholesApp, directory: Seq<char>, depth: int) -> Seq<TreeRow>
    decreases room(directory), listed(app.file_explorer@, directory).len() + 1,
{
    match app.file_explorer@.listing_at(directory) {
        Some(DirectoryListing::Loaded(entries)) => entry_rows(
            app,
            directory,
            entries@.len() as int,
            depth,
        ),
        Some(DirectoryListing::Error(error)) => seq![
            TreeRow {
                path: directory,
                label: error@,
                depth,
                hidden: false,
                expanded: false,
                kind: FileTreeRowKind::Error,
            },
        ],
        _ => seq![loading_row(app, directory, depth)],
    }
}

pub open spec fn loading_row(app: BlackholesApp, directory: Seq<char>, depth: int) -> TreeRow {
    TreeRow {
        path: directory,
        label: app.text("Loading…"@, "Cargando…"@),
        depth,
        hidden: false,
        expanded: false,
        kind: FileTreeRowKind::Loading,
    }
}

/// The rows of the first `count` entries of a directory.
pub open spec fn entry_rows(app: BlackholesApp, directory: Seq<char>, count: int, depth: int) -> Seq<
    TreeRow,
>
    decreases room(directory), count,
{
    if count <= 0 {
        seq![]
    } else {
        let entry = listed(app.file_explorer@, directory)[count - 1];
        let expanded = app.file_explorer@.expanded.contains(components(entry.path@));
        let row = TreeRow {
            path: entry.path@,
            label: entry.name@,
            depth,
            hidden: entry.hidden,
            expanded,
            kind: FileTreeRowKind::Entry(entry.kind),
        };
        entry_rows(app, directory, count - 1, depth).push(row) + if entry.kind
            == FileEntryKind::Directory && expanded && components(directory).len() < components(entry.path@).len()
            && components(directory).len() < usize::MAX {
            directory_rows(app, entry.path@, depth + 1)
        } else {
            seq![]
        }
    }
}

/// The rows of the tree.
pub open spec fn shown_rows(app: BlackholesApp) -> Seq<TreeRow> {
    match app.file_explorer@.root {
        Some(root) => directory_rows(app, root, 0),
        None => seq![],
    }
}

/// Every listed entry lies deeper than the directory it is listed in, so
/// that no directory holds itself.
pub open spec fn is_nested(explorer: ExplorerModel) -> bool {
    forall|place: Seq<Seq<char>>|
        explorer.listings.dom().contains(place) && #[trigger] explorer.listings[place] is Loaded
            ==> nests_at(place, explorer.listings[place]->Loaded_0@)
}

pub open spec fn nests(directory: Seq<char>, entries: Seq<FileEntry>) -> bool {
    nests_at(components(directory), entries)
}

pub open spec fn nests_at(place: Seq<Seq<char>>, entries: Seq<FileEntry>) -> bool {
    &&& place.len() < usize::MAX
    &&& forall|i: int|
        0 <= i < entries.len() ==> place.len() < components((#[trigger] entries[i]).path@).len()
}

/// Listings stay nested through every request and every nested answer.
pub proof fn law_listings_stay_nested(
    explorer: ExplorerModel,
    path: Seq<char>,
    listing: DirectoryListing,
)
    requires
        is_nested(explorer),
        listing matches DirectoryListing::Loaded(entries) ==> nests(path, entries@),
    ensures
        is_nested(ExplorerModel::closed()),
        is_nested(explorer.listing_requested(path)),
        is_nested(explorer.listing_received(path, listing)),
{
}

impl BlackholesApp {
    /// Whether every listed entry lies deeper than its directory.
    pub fn listings_are_nested(&self) -> (result: bool)
        ensures
            result == is_nested(self.file_explorer@),
    {
        let listings = &self.file_explorer.directories;
        let ghost model = self.file_explorer@;
        let mut index: usize = 0;
        while index < listings.entries.len()
            invariant
                index <= listings.entries@.len(),
                listings == &self.file_explorer.directories,
                model == self.file_explorer@,
                forall|i: int|
                    0 <= i < index ==> {
                        let place = components((#[trigger] listings.entries@[i]).path@);
                        model.listings[place] is Loaded ==> nests_at(
                            place,
                            model.listings[place]->Loaded_0@,
                        )
                    },
            decreases listings.entries@.len() - index,
        {
            let path = listings.entries[index].path.as_str();
            proof {
                crate::search::lemma_first_where(
                    listings.entries@,
                    crate::collections::entry_for::<DirectoryListing>(components(path@)),
                    0,
                );
                assert(model.listings.dom().contains(components(path@)));
            }
            if let Some(DirectoryListing::Loaded(entries)) = listings.get(path) {
                let length: usize = path_components(path).len();
                if length == usize::MAX || !all_deeper(entries, length) {
                    assert(!nests(path@, model.listings[components(path@)]->Loaded_0@));
                    return false;
                }
            }
            index += 1;
        }
        assert forall|place: Seq<Seq<char>>|
            model.listings.dom().contains(place) && #[trigger] model.listings[place] is Loaded implies nests_at(
        place, model.listings[place]->Loaded_0@) by {
            let wanted = crate::collections::entry_for::<DirectoryListing>(place);
            crate::search::lemma_first_where(listings.entries@, wanted, 0);
            let at = crate::search::first_where(listings.entries@, wanted, 0)->0;
            assert(components(listings.entries@[at].path@) == place);
        }
        true
    }

    /// The rows of the tree.
    pub fn file_tree_rows(&self) -> (result: Vec<FileTreeRow>)
        requires
            is_nested(self.file_explorer@),
        ensures
            tree_rows(result@) == shown_rows(*self),
    {
        let mut rows: Vec<FileTreeRow> = Vec::new();
        assert(tree_rows(rows@) =~= Seq::<TreeRow>::empty());
        if let Some(root) = &self.file_explorer.root {
            self.append_directory_rows(root, 0, &mut rows);
            assert(tree_rows(rows@) =~= shown_rows(*self));
        }
        rows
    }

    fn append_loading_row(&self, directory: &String, depth: usize, rows: &mut Vec<FileTreeRow>)
        ensures
            tree_rows(final(rows)@) == tree_rows(old(rows)@) + seq![
                loading_row(*self, directory@, depth as int),
            ],
    {
        rows.push(
            FileTreeRow {
                path: directory.clone(),
                label: self.tr("Loading…", "Cargando…").to_string(),
                depth,
                hidden: false,
                expanded: false,
                kind: FileTreeRowKind::Loading,
            },
        );
        assert(tree_rows(rows@) =~= tree_rows(old(rows)@) + seq![
            loading_row(*self, directory@, depth as int),
        ]);
    }

    fn append_directory_rows(&self, directory: &String, depth: usize, rows: &mut Vec<FileTreeRow>)
        requires
            is_nested(self.file_explorer@),
            depth + room(directory@) <= usize::MAX,
        ensures
            tree_rows(final(rows)@) == tree_rows(old(rows)@) + directory_rows(
                *self,
                directory@,
                depth as int,
            ),
        decreases room(directory@),
    {
        let ghost before = tree_rows(rows@);
        match self.file_explorer.directories.get(directory.as_str()) {
            Some(DirectoryListing::Loaded(entries)) => {
                assert(listed(self.file_explorer@, directory@) == entries@);
                assert(nests(directory@, entries@));
                let mut index: usize = 0;
                assert(before + entry_rows(*self, directory@, 0, depth as int) =~= before);
                while index < entries.len()
                    invariant
                        index <= entries@.len(),
                        is_nested(self.file_explorer@),
                        depth + room(directory@) <= usize::MAX,
                        listed(self.file_explorer@, directory@) == entries@,
                        nests(directory@, entries@),
                        tree_rows(rows@) == before + entry_rows(
                            *self,
                            directory@,
                            index as int,
                            depth as int,
                        ),
                    decreases entries@.len() - index,
                {
                    let entry = &entries[index];
                    let expanded: bool = self.file_explorer.expanded.contains(entry.path.as_str());
                    let ghost shown = tree_rows(rows@);
                    let row = FileTreeRow {
                        path: entry.path.clone(),
                        label: entry.name.clone(),
                        depth,
                        hidden: entry.hidden,
                        expanded,
                        kind: FileTreeRowKind::Entry(entry.kind),
                    };
                    let ghost view = row@;
                    rows.push(row);
                    assert(tree_rows(rows@) =~= shown.push(view));
                    if entry.kind == FileEntryKind::Directory && expanded {
                        self.append_directory_rows(&entry.path, depth + 1, rows);
                    }
                    index += 1;
                    assert(tree_rows(rows@) =~= before + entry_rows(
                        *self,
                        directory@,
                        index as int,
                        depth as int,
                    ));
                }
            },
            Some(DirectoryListing::Error(error)) => {
                rows.push(
                    FileTreeRow {
                        path: directory.clone(),
                        label: error.clone(),
                        depth,
                        hidden: false,
                        expanded: false,
                        kind: FileTreeRowKind::Error,
                    },
                );
                assert(tree_rows(rows@) =~= before + directory_rows(
                    *self,
                    directory@,
                    depth as int,
                ));
            },
            Some(DirectoryListing::Loading) => self.append_loading_row(directory, depth, rows),
            None => self.append_loading_row(directory, depth, rows),
        }
    }
}

/// Whether every path has more components than given.
fn all_deeper(entries: &Vec<FileEntry>, length: usize) -> (result: bool)
    ensures
        result == forall|i: int|
            0 <= i < entries@.len() ==> length < components((#[trigger] entries@[i]).path@).len(),
{
    let mut index: usize = 0;
    while index < entries.len()
        invariant
            index <= entries@.len(),
            forall|i: int| 0 <= i < index ==> length < components((#[trigger] entries@[i]).path@).len(),
        decreases entries@.len() - index,
    {
        if path_components(entries[index].path.as_str()).len() <= length {
            assert(!(length < components(entries@[index as int].path@).len()));
            return false;
        }
        index += 1;
    }
    true
}

// ---------------------------------------------------------------------------
// What the rows show
// ---------------------------------------------------------------------------
/// The row is that of the entry, at the depth.
pub open spec fn shows_entry(app: BlackholesApp, row: TreeRow, entry: FileEntry, depth: int) -> bool {
    &&& row.path == entry.path@
    &&& row.label == entry.name@
    &&& row.depth == depth
    &&& row.hidden == entry.hidden
    &&& row.kind == FileTreeRowKind::Entry(entry.kind)
    &&& row.expanded == app.file_explorer@.expanded.contains(components(entry.path@))
}

/// The row is that of a directory that is expanded.
pub open spec fn is_open_directory(row: TreeRow) -> bool {
    row.kind == FileTreeRowKind::Entry(FileEntryKind::Directory) && row.expanded
}

/// The rows from `from` to `to` are those of the entries, in their order: the row of
/// the `i`-th stands at `starts[i]`, what follows it up to the next lies deeper, and
/// nothing follows it unless it is a directory that is expanded.
pub open spec fn shows_entries(
    app: BlackholesApp,
    rows: Seq<TreeRow>,
    entries: Seq<FileEntry>,
    depth: int,
    starts: Seq<int>,
    from: int,
    to: int,
) -> bool {
    &&& starts.len() == entries.len() + 1
    &&& starts[0] == from
    &&& starts[entries.len() as int] == to
    &&& forall|i: int|
        #![trigger starts[i]]
        0 <= i < entries.len() ==> {
            &&& starts[i] < starts[i + 1]
            &&& shows_entry(app, rows[starts[i]], entries[i], depth)
            &&& !is_open_directory(rows[starts[i]]) ==> starts[i + 1] == starts[i] + 1
            &&& forall|j: int| starts[i] < j < starts[i + 1] ==> (#[trigger] rows[j]).depth > depth
        }
}

/// The rows from `from` to `to` show a directory at the depth: its entries where it
/// was listed, and else one row that says that it is not, or why.
pub open spec fn shows_directory(
    app: BlackholesApp,
    rows: Seq<TreeRow>,
    directory: Seq<char>,
    depth: int,
    from: int,
    to: int,
) -> bool {
    &&& 0 <= from <= to <= rows.len()
    &&& match app.file_explorer@.listing_at(directory) {
        Some(DirectoryListing::Loaded(entries)) => exists|starts: Seq<int>| #[trigger]
            shows_entries(app, rows, entries@, depth, starts, from, to),
        Some(DirectoryListing::Error(error)) => to == from + 1 && rows[from].kind
            == FileTreeRowKind::Error && rows[from].path == directory && rows[from].label == error@
            && rows[from].depth == depth,
        _ => to == from + 1 && rows[from].kind == FileTreeRowKind::Loading && rows[from].path
            == directory && rows[from].depth == depth,
    }
}

/// Every directory that is expanded is followed by the rows of what it holds, one
/// level deeper; they end where a row lies as high again.
pub open spec fn opens_all(app: BlackholesApp, rows: Seq<TreeRow>) -> bool {
    forall|at: int|
        #![trigger rows[at]]
        0 <= at < rows.len() && is_open_directory(rows[at]) ==> exists|to: int|
            #[trigger] shows_directory(app, rows, rows[at].path, rows[at].depth + 1, at + 1, to) && (
            to == rows.len() || rows[to].depth <= rows[at].depth)
}

/// The tree shows the root, and every directory that is expanded in it, at any
/// depth: each entry of a listed directory has its row, in order and one level below
/// the directory, and what is in it follows it where it is expanded; a directory
/// that was not listed has one row that says so.
pub proof fn law_tree_shows_expanded(app: BlackholesApp)
    requires
        is_nested(app.file_explorer@),
    ensures
        app.file_explorer.root matches Some(root) ==> shows_directory(
            app,
            shown_rows(app),
            root@,
            0,
            0,
            shown_rows(app).len() as int,
        ),
        app.file_explorer.root is None ==> shown_rows(app).len() == 0,
        opens_all(app, shown_rows(app)),
{
    if let Some(root) = app.file_explorer.root {
        lemma_directory_shown(app, root@, 0);
    }
}

/// The same rows in a longer list.
proof fn lemma_shown_elsewhere(
    app: BlackholesApp,
    rows: Seq<TreeRow>,
    all: Seq<TreeRow>,
    offset: int,
    directory: Seq<char>,
    depth: int,
    from: int,
    to: int,
)
    requires
        shows_directory(app, rows, directory, depth, from, to),
        0 <= offset,
        offset + rows.len() <= all.len(),
        forall|i: int| 0 <= i < rows.len() ==> all[offset + i] == #[trigger] rows[i],
    ensures
        shows_directory(app, all, directory, depth, offset + from, offset + to),
{
    match app.file_explorer@.listing_at(directory) {
        Some(DirectoryListing::Loaded(entries)) => {
            let starts = choose|starts: Seq<int>| #[trigger]
                shows_entries(app, rows, entries@, depth, starts, from, to);
            let moved = Seq::new(starts.len(), |i: int| offset + starts[i]);
            lemma_starts_in_order(app, rows, entries@, depth, starts, from, to);
            assert forall|i: int| #![trigger moved[i]] 0 <= i < entries@.len() implies {
                &&& moved[i] < moved[i + 1]
                &&& shows_entry(app, all[moved[i]], entries@[i], depth)
                &&& !is_open_directory(all[moved[i]]) ==> moved[i + 1] == moved[i] + 1
                &&& forall|j: int| moved[i] < j < moved[i + 1] ==> (#[trigger] all[j]).depth > depth
            } by {
                assert(starts[i] < starts[i + 1]);
                assert(all[offset + starts[i]] == rows[starts[i]]);
                assert forall|j: int| moved[i] < j < moved[i + 1] implies (#[trigger] all[j]).depth
                    > depth by {
                    assert(all[offset + (j - offset)] == rows[j - offset]);
                }
            }
            assert(shows_entries(app, all, entries@, depth, moved, offset + from, offset + to));
        },
        _ => {
            assert(all[offset + from] == rows[from]);
        },
    }
}

proof fn lemma_starts_in_order(
    app: BlackholesApp,
    rows: Seq<TreeRow>,
    entries: Seq<FileEntry>,
    depth: int,
    starts: Seq<int>,
    from: int,
    to: int,
)
    requires
        shows_entries(app, rows, entries, depth, starts, from, to),
    ensures
        forall|i: int| 0 <= i <= entries.len() ==> from <= #[trigger] starts[i] <= to,
{
    assert forall|i: int| 0 <= i <= entries.len() implies from <= #[trigger] starts[i] <= to by {
        lemma_starts_rise(app, rows, entries, depth, starts, from, to, 0, i);
        lemma_starts_rise(app, rows, entries, depth, starts, from, to, i, entries.len() as int);
    }
}

proof fn lemma_starts_rise(
    app: BlackholesApp,
    rows: Seq<TreeRow>,
    entries: Seq<FileEntry>,
    depth: int,
    starts: Seq<int>,
    from: int,
    to: int,
    low: int,
    high: int,
)
    requires
        shows_entries(app, rows, entries, depth, starts, from, to),
        0 <= low <= high <= entries.len(),
    ensures
        starts[low] <= starts[high],
    decreases high - low,
{
    if low < high {
        lemma_starts_rise(app, rows, entries, depth, starts, from, to, low, high - 1);
        assert(starts[high - 1] < starts[high - 1 + 1]);
    }
}

/// Rows of which none lies above a depth, and in which every expanded directory is
/// followed by what it holds, stay so in a longer list where a row as high as they
/// lie, or higher, follows.
proof fn lemma_open_elsewhere(app: BlackholesApp, rows: Seq<TreeRow>, all: Seq<TreeRow>, offset: int, at: int)
    requires
        opens_all(app, rows),
        0 <= offset,
        offset + rows.len() <= all.len(),
        forall|i: int| 0 <= i < rows.len() ==> all[offset + i] == #[trigger] rows[i],
        0 <= at < rows.len(),
        is_open_directory(rows[at]),
        offset + rows.len() == all.len() || all[offset + rows.len()].depth <= rows[at].depth,
    ensures
        exists|to: int|
            #[trigger] shows_directory(
                app,
                all,
                rows[at].path,
                rows[at].depth + 1,
                offset + at + 1,
                to,
            ) && (to == all.len() || all[to].depth <= rows[at].depth),
{
    let to = choose|to: int|
        #[trigger] shows_directory(app, rows, rows[at].path, rows[at].depth + 1, at + 1, to) && (to
            == rows.len() || rows[to].depth <= rows[at].depth);
    lemma_shown_elsewhere(app, rows, all, offset, rows[at].path, rows[at].depth + 1, at + 1, to);
    if to < rows.len() {
        assert(all[offset + to] == rows[to]);
    }
    assert(shows_directory(app, all, rows[at].path, rows[at].depth + 1, offset + at + 1, offset + to));
}

proof fn lemma_directory_shown(app: BlackholesApp, directory: Seq<char>, depth: int)
    requires
        is_nested(app.file_explorer@),
    ensures
        shows_directory(
            app,
            directory_rows(app, directory, depth),
            directory,
            depth,
            0,
            directory_rows(app, directory, depth).len() as int,
        ),
        opens_all(app, directory_rows(app, directory, depth)),
        forall|i: int|
            0 <= i < directory_rows(app, directory, depth).len() ==> (
            #[trigger] directory_rows(app, directory, depth)[i]).depth >= depth,
    decreases room(directory), listed(app.file_explorer@, directory).len() + 1,
{
    match app.file_explorer@.listing_at(directory) {
        Some(DirectoryListing::Loaded(entries)) => {
            let starts = lemma_entries_shown(app, directory, entries@.len() as int, depth);
            assert(entries@.take(entries@.len() as int) =~= entries@);
            assert(shows_entries(
                app,
                directory_rows(app, directory, depth),
                entries@,
                depth,
                starts,
                0,
                directory_rows(app, directory, depth).len() as int,
            ));
        },
        _ => {},
    }
}

/// One entry more, with what is in it.
proof fn lemma_one_more_shown(
    app: BlackholesApp,
    before: Seq<TreeRow>,
    row: TreeRow,
    inner: Seq<TreeRow>,
    entries: Seq<FileEntry>,
    entry: FileEntry,
    depth: int,
    earlier: Seq<int>,
)
    requires
        shows_entries(app, before, entries, depth, earlier, 0, before.len() as int),
        shows_entry(app, row, entry, depth),
        !is_open_directory(row) ==> inner.len() == 0,
        forall|i: int| 0 <= i < inner.len() ==> (#[trigger] inner[i]).depth > depth,
    ensures
        shows_entries(
            app,
            before.push(row) + inner,
            entries.push(entry),
            depth,
            earlier.push((before.push(row) + inner).len() as int),
            0,
            (before.push(row) + inner).len() as int,
        ),
{
    let all = before.push(row) + inner;
    let own = before.len() as int;
    let starts = earlier.push(all.len() as int);
    let more = entries.push(entry);
    lemma_starts_in_order(app, before, entries, depth, earlier, 0, own);
    assert forall|i: int| #![trigger starts[i]] 0 <= i < more.len() implies {
        &&& starts[i] < starts[i + 1]
        &&& shows_entry(app, all[starts[i]], more[i], depth)
        &&& !is_open_directory(all[starts[i]]) ==> starts[i + 1] == starts[i] + 1
        &&& forall|j: int| starts[i] < j < starts[i + 1] ==> (#[trigger] all[j]).depth > depth
    } by {
        if i < entries.len() {
            assert(earlier[i] < earlier[i + 1]);
            assert(0 <= earlier[i]);
            assert(earlier[i + 1] <= own);
            assert(all[starts[i]] == before[starts[i]]);
            assert forall|j: int| starts[i] < j < starts[i + 1] implies (#[trigger] all[j]).depth
                > depth by {
                assert(all[j] == before[j]);
            }
        } else {
            assert(starts[i] == own);
            assert(all[own] == row);
            assert forall|j: int| starts[i] < j < starts[i + 1] implies (#[trigger] all[j]).depth
                > depth by {
                assert(all[j] == inner[j - own - 1]);
            }
        }
    }
}

proof fn lemma_one_more_open(
    app: BlackholesApp,
    before: Seq<TreeRow>,
    row: TreeRow,
    inner: Seq<TreeRow>,
    depth: int,
)
    requires
        opens_all(app, before),
        opens_all(app, inner),
        row.depth == depth,
        forall|i: int| 0 <= i < before.len() ==> (#[trigger] before[i]).depth >= depth,
        is_open_directory(row) ==> shows_directory(
            app,
            inner,
            row.path,
            depth + 1,
            0,
            inner.len() as int,
        ),
    ensures
        opens_all(app, before.push(row) + inner),
{
    let all = before.push(row) + inner;
    let own = before.len() as int;
    assert forall|i: int| 0 <= i < inner.len() implies all[own + 1 + i] == #[trigger] inner[i] by {}
    assert forall|i: int| 0 <= i < before.len() implies all[0 + i] == #[trigger] before[i] by {}
    assert(all[own] == row);
    assert forall|at: int|
        #![trigger all[at]]
        0 <= at < all.len() && is_open_directory(all[at]) implies exists|to: int|
        #[trigger] shows_directory(app, all, all[at].path, all[at].depth + 1, at + 1, to) && (to
            == all.len() || all[to].depth <= all[at].depth) by {
        if at < own {
            assert(before[at] == all[at]);
            assert(all[own].depth <= before[at].depth);
            lemma_open_elsewhere(app, before, all, 0, at);
        } else if at == own {
            lemma_shown_elsewhere(
                app,
                inner,
                all,
                own + 1,
                row.path,
                depth + 1,
                0,
                inner.len() as int,
            );
            assert(shows_directory(app, all, row.path, depth + 1, own + 1, all.len() as int));
        } else {
            let within = at - own - 1;
            assert(inner[within] == all[at]);
            lemma_open_elsewhere(app, inner, all, own + 1, within);
        }
    }
}

proof fn lemma_entries_shown(app: BlackholesApp, directory: Seq<char>, count: int, depth: int) -> (starts:
    Seq<int>)
    requires
        is_nested(app.file_explorer@),
        app.file_explorer@.listing_at(directory) matches Some(DirectoryListing::Loaded(entries))
            && 0 <= count <= entries@.len(),
    ensures
        shows_entries(
            app,
            entry_rows(app, directory, count, depth),
            listed(app.file_explorer@, directory).take(count),
            depth,
            starts,
            0,
            entry_rows(app, directory, count, depth).len() as int,
        ),
        opens_all(app, entry_rows(app, directory, count, depth)),
        forall|i: int|
            0 <= i < entry_rows(app, directory, count, depth).len() ==> (
            #[trigger] entry_rows(app, directory, count, depth)[i]).depth >= depth,
    decreases room(directory), count,
{
    let entries = listed(app.file_explorer@, directory);
    assert(nests_at(components(directory), entries));
    if count <= 0 {
        seq![0int]
    } else {
        let earlier = lemma_entries_shown(app, directory, count - 1, depth);
        let before = entry_rows(app, directory, count - 1, depth);
        let all = entry_rows(app, directory, count, depth);
        let entry = entries[count - 1];
        assert(components(directory).len() < components(entry.path@).len());
        let row = all[before.len() as int];
        let inner = if is_open_directory(row) {
            directory_rows(app, entry.path@, depth + 1)
        } else {
            Seq::empty()
        };
        assert(shows_entry(app, row, entry, depth));
        assert(all =~= before.push(row) + inner);
        if is_open_directory(row) {
            lemma_directory_shown(app, entry.path@, depth + 1);
        }
        lemma_one_more_shown(
            app,
            before,
            row,
            inner,
            entries.take(count - 1),
            entry,
            depth,
            earlier,
        );
        lemma_one_more_open(app, before, row, inner, depth);
        assert(entries.take(count) =~= entries.take(count - 1).push(entry));
        assert forall|i: int| 0 <= i < all.len() implies (#[trigger] all[i]).depth >= depth by {
            if i < before.len() {
                assert(all[i] == before[i]);
            } else if i > before.len() {
                assert(all[i] == inner[i - before.len() - 1]);
            }
        }
        earlier.push(all.len() as int)
    }
}

} // verus!
