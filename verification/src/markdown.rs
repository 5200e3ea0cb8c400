//! The file tree walker. A collaborator enumerates a configured directory
//! and hands over the raw listing; the walker here selects, in listing
//! order, the regular files whose extension is `md` that lie under the root,
//! capped to the root's immediate children when recursion is off, and
//! reports one event per accepted file and per unreadable entry.
use crate::events::{ScanEvent, ScanEventV};
use crate::frontmatter::{find_char, lemma_find_from};
use vstd::prelude::*;

verus! {

/// One entry of a directory listing: a regular file together with its
/// contents (`None` when the file could not be read), a directory, or an
/// entry the walk itself could not read.
pub enum FsItem {
    File { path: String, content: Option<String> },
    Dir { path: String },
    Unreadable { path: String },
}

/// Model of a listing entry.
pub enum FsItemV {
    File { path: Seq<char>, content: Option<Seq<char>> },
    Dir { path: Seq<char> },
    Unreadable { path: Seq<char> },
}

impl View for FsItem {
    type V = FsItemV;

    open spec fn view(&self) -> FsItemV {
        match self {
            FsItem::File { path, content } => FsItemV::File {
                path: path@,
                content: content.deep_view(),
            },
            FsItem::Dir { path } => FsItemV::Dir { path: path@ },
            FsItem::Unreadable { path } => FsItemV::Unreadable { path: path@ },
        }
    }
}

impl DeepView for FsItem {
    type V = FsItemV;

    open spec fn deep_view(&self) -> FsItemV {
        self.view()
    }
}

/// A note file the walker accepted: its path and its contents, if readable.
pub struct NoteFile {
    pub path: String,
    pub content: Option<String>,
}

/// Model of an accepted note file.
pub struct NoteFileV {
    pub path: Seq<char>,
    pub content: Option<Seq<char>>,
}

impl View for NoteFile {
    type V = NoteFileV;

    open spec fn view(&self) -> NoteFileV {
        NoteFileV { path: self.path@, content: self.content.deep_view() }
    }
}

impl DeepView for NoteFile {
    type V = NoteFileV;

    open spec fn deep_view(&self) -> NoteFileV {
        self.view()
    }
}

// ---------------------------------------------------------------------------
// Paths.
// ---------------------------------------------------------------------------
/// The index of the last occurrence of `c` in `s` before `j`, or `-1` if
/// there is none.
pub open spec fn rfind_before(s: Seq<char>, j: int, c: char) -> int
    decreases j,
    when 0 <= j <= s.len()
{
    if j <= 0 {
        -1
    } else if s[j - 1] == c {
        j - 1
    } else {
        rfind_before(s, j - 1, c)
    }
}

fn rfind_char(s: &str, j: usize, c: char) -> (r: Option<usize>)
    requires
        j <= s@.len(),
    ensures
        match r {
            Option::None => rfind_before(s@, j as int, c) == -1,
            Option::Some(k) => rfind_before(s@, j as int, c) == k as int && k < j,
        },
    decreases j,
{
    if j == 0 {
        None
    } else if s.get_char(j - 1) == c {
        Some(j - 1)
    } else {
        rfind_char(s, j - 1, c)
    }
}

/// The final path component: everything after the last separator.
pub open spec fn file_name(path: Seq<char>) -> Seq<char> {
    path.subrange(rfind_before(path, path.len() as int, '/') + 1, path.len() as int)
}

/// The base filename without its extension: the file name up to its last
/// dot, the whole file name when there is no dot or only a leading one, and
/// nothing when the path has no final component at all.
pub open spec fn stem_of(path: Seq<char>) -> Option<Seq<char>> {
    let f = file_name(path);
    if f.len() == 0 {
        None
    } else {
        let j = rfind_before(f, f.len() as int, '.');
        if j <= 0 {
            Some(f)
        } else {
            Some(f.subrange(0, j))
        }
    }
}

/// Whether the path's final component has the extension `md`.
pub open spec fn has_md_ext(path: Seq<char>) -> bool {
    let f = file_name(path);
    let j = rfind_before(f, f.len() as int, '.');
    j > 0 && j + 3 == f.len() && f[j + 1] == 'm' && f[j + 2] == 'd'
}

fn file_name_exec<'a>(path: &'a str) -> (r: &'a str)
    ensures
        r@ == file_name(path@),
{
    let n = path.unicode_len();
    match rfind_char(path, n, '/') {
        Option::None => {
            let r = path.substring_char(0, n);
            r
        },
        Option::Some(k) => path.substring_char(k + 1, n),
    }
}

/// The base filename of `path` without its extension, or `None` when the
/// path has no final component.
pub fn stem_exec(path: &str) -> (r: Option<String>)
    ensures
        r.deep_view() == stem_of(path@),
{
    let f = file_name_exec(path);
    let m = f.unicode_len();
    if m == 0 {
        return None;
    }
    match rfind_char(f, m, '.') {
        Option::None => Some(f.to_owned()),
        Option::Some(k) => {
            if k == 0 {
                Some(f.to_owned())
            } else {
                Some(f.substring_char(0, k).to_owned())
            }
        },
    }
}

fn has_md_ext_exec(path: &str) -> (r: bool)
    ensures
        r == has_md_ext(path@),
{
    let f = file_name_exec(path);
    let m = f.unicode_len();
    match rfind_char(f, m, '.') {
        Option::None => false,
        Option::Some(k) => k > 0 && m - k == 3 && f.get_char(k + 1) == 'm' && f.get_char(k + 2)
            == 'd',
    }
}

/// Whether `path` lies strictly under the directory `root`: the root, then a
/// separator, then a non-empty remainder.
pub open spec fn is_under(path: Seq<char>, root: Seq<char>) -> bool {
    &&& path.len() >= root.len() + 2
    &&& (forall|k: int| 0 <= k < root.len() ==> path[k] == #[trigger] root[k])
    &&& path[root.len() as int] == '/'
}

/// Whether `path` goes no deeper than one level below `root`: no separator
/// after the one that follows the root.
pub open spec fn depth_one(path: Seq<char>, root: Seq<char>) -> bool {
    forall|k: int| root.len() + 1 <= k < path.len() ==> #[trigger] path[k] != '/'
}

fn prefix_eq(path: &str, root: &str, k: usize) -> (r: bool)
    requires
        root@.len() <= path@.len(),
        k <= root@.len(),
    ensures
        r == (forall|t: int| k <= t < root@.len() ==> path@[t] == #[trigger] root@[t]),
    decreases root@.len() - k,
{
    if k == root.unicode_len() {
        true
    } else if path.get_char(k) != root.get_char(k) {
        assert(path@[k as int] != root@[k as int]);
        false
    } else {
        let r = prefix_eq(path, root, k + 1);
        proof {
            if r {
                assert forall|t: int| k <= t < root@.len() implies path@[t] == #[trigger] root@[t]
                by {
                    if t > k {
                        assert(path@[t] == root@[t]);
                    }
                }
            } else {
                let w = choose|t: int|
                    k + 1 <= t < root@.len() && path@[t] != #[trigger] root@[t];
                assert(path@[w] != root@[w]);
            }
        }
        r
    }
}

/// The index just past the last character of `s` before `j` that is not a
/// separator.
pub open spec fn rskip_seps(s: Seq<char>, j: int) -> int
    decreases j,
    when 0 <= j <= s.len()
{
    if j > 0 && s[j - 1] == '/' {
        rskip_seps(s, j - 1)
    } else {
        j
    }
}

/// A configured directory without its trailing separators, so that `root/`
/// names the same directory as `root`.
pub open spec fn strip_seps(root: Seq<char>) -> Seq<char> {
    root.subrange(0, rskip_seps(root, root.len() as int))
}

fn rskip_seps_exec(s: &str, j: usize) -> (r: usize)
    requires
        j <= s@.len(),
    ensures
        r == rskip_seps(s@, j as int),
        r <= j,
    decreases j,
{
    if j > 0 && s.get_char(j - 1) == '/' {
        rskip_seps_exec(s, j - 1)
    } else {
        j
    }
}

/// Whether the walker accepts this listing entry: a regular file with the
/// note extension, strictly under the root, and — when recursion is off — an
/// immediate child of the root.
pub open spec fn accepted(item: FsItemV, root: Seq<char>, recursive: bool) -> bool {
    match item {
        FsItemV::File { path, .. } => accepted_path(path, root, recursive),
        _ => false,
    }
}

/// Whether a file at `path` is accepted under `root`. Trailing separators of
/// the configured root are ignored.
pub open spec fn accepted_path(path: Seq<char>, root: Seq<char>, recursive: bool) -> bool {
    let r = strip_seps(root);
    is_under(path, r) && has_md_ext(path) && (recursive || depth_one(path, r))
}

fn accepted_path_exec(path: &str, root: &str, recursive: bool) -> (r: bool)
    ensures
        r == accepted_path(path@, root@, recursive),
{
    let b = rskip_seps_exec(root, root.unicode_len());
    let base = root.substring_char(0, b);
    assert(base@ == strip_seps(root@));
    let n = path.unicode_len();
    let rl = base.unicode_len();
    if n < rl || n - rl < 2 {
        return false;
    }
    if !prefix_eq(path, base, 0) {
        return false;
    }
    if path.get_char(rl) != '/' {
        return false;
    }
    if !has_md_ext_exec(path) {
        return false;
    }
    if recursive {
        return true;
    }
    let j = find_char(path, rl + 1, '/');
    proof {
        lemma_find_from(path@, rl + 1, '/');
        if j == n {
            assert(depth_one(path@, base@));
        } else {
            assert(path@[j as int] == '/');
            assert(!depth_one(path@, base@));
        }
    }
    j == n
}

// ---------------------------------------------------------------------------
// The walk itself.
// ---------------------------------------------------------------------------
/// The note files a walk of `items` yields from index `i` on: the accepted
/// files, in listing order.
pub open spec fn walk_from(items: Seq<FsItemV>, root: Seq<char>, recursive: bool, i: int) -> Seq<
    NoteFileV,
>
    decreases items.len() - i,
    when 0 <= i <= items.len()
{
    if i >= items.len() {
        Seq::empty()
    } else {
        let rest = walk_from(items, root, recursive, i + 1);
        match items[i] {
            FsItemV::File { path, content } => if accepted_path(path, root, recursive) {
                seq![NoteFileV { path, content }] + rest
            } else {
                rest
            },
            _ => rest,
        }
    }
}

/// The note files a walk of the whole listing yields.
pub open spec fn walk(items: Seq<FsItemV>, root: Seq<char>, recursive: bool) -> Seq<NoteFileV> {
    walk_from(items, root, recursive, 0)
}

/// The events a walk reports from index `i` on: one acceptance per yielded
/// file and one traversal error per unreadable entry.
pub open spec fn walk_events_from(
    items: Seq<FsItemV>,
    root: Seq<char>,
    recursive: bool,
    i: int,
) -> Seq<ScanEventV>
    decreases items.len() - i,
    when 0 <= i <= items.len()
{
    if i >= items.len() {
        Seq::empty()
    } else {
        let rest = walk_events_from(items, root, recursive, i + 1);
        match items[i] {
            FsItemV::File { path, .. } => if accepted_path(path, root, recursive) {
                seq![ScanEventV::Accepted { path }] + rest
            } else {
                rest
            },
            FsItemV::Unreadable { path } => seq![ScanEventV::TraversalError { path }] + rest,
            FsItemV::Dir { .. } => rest,
        }
    }
}

/// The events a walk of the whole listing reports.
pub open spec fn walk_events(items: Seq<FsItemV>, root: Seq<char>, recursive: bool) -> Seq<
    ScanEventV,
> {
    walk_events_from(items, root, recursive, 0)
}

/// Every note a walk yields was accepted: a regular file with the note
/// extension lying strictly under the root, and an immediate child of the
/// root when recursion is off.
pub proof fn lemma_walk_accepted(items: Seq<FsItemV>, root: Seq<char>, recursive: bool, i: int)
    requires
        0 <= i <= items.len(),
    ensures
        forall|k: int| 0 <= k < walk_from(items, root, recursive, i).len() ==> accepted_path(
            #[trigger] walk_from(items, root, recursive, i)[k].path,
            root,
            recursive,
        ),
    decreases items.len() - i,
{
    if i < items.len() {
        lemma_walk_accepted(items, root, recursive, i + 1);
        let rest = walk_from(items, root, recursive, i + 1);
        let cur = walk_from(items, root, recursive, i);
        match items[i] {
            FsItemV::File { path, content } => {
                if accepted_path(path, root, recursive) {
                    assert forall|k: int| 0 <= k < cur.len() implies accepted_path(
                        cur[k].path,
                        root,
                        recursive,
                    ) by {
                        if k == 0 {
                            assert(cur[0].path == path);
                        } else {
                            assert(cur[k] == rest[k - 1]);
                        }
                    }
                }
            },
            _ => {},
        }
    }
}

/// Walks one directory listing: yields the accepted note files in listing
/// order, reports an acceptance event for each and a traversal-error event
/// for every unreadable entry, and touches nothing else.
pub fn walker(
    items: &Vec<FsItem>,
    root: &String,
    recursive: bool,
    events: &mut Vec<ScanEvent>,
) -> (notes: Vec<NoteFile>)
    ensures
        notes.deep_view() == walk(items.deep_view(), root@, recursive),
        final(events).deep_view() == old(events).deep_view() + walk_events(
            items.deep_view(),
            root@,
            recursive,
        ),
{
    let ghost itemsv = items.deep_view();
    let ghost base = old(events).deep_view();
    let mut notes: Vec<NoteFile> = Vec::new();
    let mut i: usize = 0;
    while i < items.len()
        invariant
            i <= items.len(),
            itemsv == items.deep_view(),
            itemsv.len() == items@.len(),
            walk(itemsv, root@, recursive) =~= notes.deep_view() + walk_from(
                itemsv,
                root@,
                recursive,
                i as int,
            ),
            base + walk_events(itemsv, root@, recursive) =~= events.deep_view()
                + walk_events_from(itemsv, root@, recursive, i as int),
        decreases items.len() - i,
    {
        assert(items@[i as int].deep_view() == itemsv[i as int]);
        match &items[i] {
            FsItem::File { path, content } => {
                if accepted_path_exec(path.as_str(), root.as_str(), recursive) {
                    events.push(ScanEvent::Accepted { path: path.clone() });
                    notes.push(NoteFile { path: path.clone(), content: content.clone() });
                }
            },
            FsItem::Dir { .. } => {},
            FsItem::Unreadable { path } => {
                events.push(ScanEvent::TraversalError { path: path.clone() });
            },
        }
        proof {
            let ii = i as int;
            assert(walk_from(itemsv, root@, recursive, ii) == (match itemsv[ii] {
                FsItemV::File { path, content } => if accepted_path(path, root@, recursive) {
                    seq![NoteFileV { path, content }] + walk_from(itemsv, root@, recursive, ii + 1)
                } else {
                    walk_from(itemsv, root@, recursive, ii + 1)
                },
                _ => walk_from(itemsv, root@, recursive, ii + 1),
            }));
        }
        i = i + 1;
    }
    proof {
        assert(notes.deep_view() =~= walk(itemsv, root@, recursive));
        assert(events.deep_view() =~= base + walk_events(itemsv, root@, recursive));
    }
    notes
}

} // verus!
