//! The library browser: a tree of folders and supported audio files under a
//! root, with folders opened and closed by the user, one selected row, and
//! the whole library's audio files as a playlist.
//!
//! The browser never touches the disk itself. Whenever it needs to look at
//! the disk it is handed a `DiskSnapshot`: a listing of each folder it asks
//! for (`expanded_directories`) and every file below the root.
use crate::audio_engine::texts;
use crate::paths::{display_name, display_name_spec, extension, parent, path_extension, path_parent};
use crate::text::{ascii_lower, ascii_lowercase, chars_of, same_text, to_lowercase, unicode_lower};
use vstd::prelude::*;

verus! {

#[derive(Debug, Clone, Copy, PartialEq, Eq, Structural)]
pub enum EntryKind {
    Directory,
    File,
}

/// One visible row of the tree.
#[derive(Debug, PartialEq, Eq)]
pub struct BrowserEntry {
    pub path: String,
    pub name: String,
    pub depth: usize,
    pub kind: EntryKind,
    pub expanded: bool,
}

pub struct EntryView {
    pub path: Seq<char>,
    pub name: Seq<char>,
    pub depth: usize,
    pub kind: EntryKind,
    pub expanded: bool,
}

impl View for BrowserEntry {
    type V = EntryView;

    open spec fn view(&self) -> EntryView {
        EntryView {
            path: self.path@,
            name: self.name@,
            depth: self.depth,
            kind: self.kind,
            expanded: self.expanded,
        }
    }
}

impl Clone for BrowserEntry {
    fn clone(&self) -> (r: Self)
        ensures
            r@ == self@,
    {
        BrowserEntry {
            path: self.path.clone(),
            name: self.name.clone(),
            depth: self.depth,
            kind: self.kind,
            expanded: self.expanded,
        }
    }
}

pub open spec fn entries_view(v: Seq<BrowserEntry>) -> Seq<EntryView> {
    v.map_values(|e: BrowserEntry| e@)
}

/// One item found on disk: its path and whether it is a folder or a file
/// (each as `Path::is_dir` / `Path::is_file` answered when it was read).
#[derive(Debug)]
pub struct DiskEntry {
    pub path: String,
    pub is_dir: bool,
    pub is_file: bool,
}

pub struct DiskEntryView {
    pub path: Seq<char>,
    pub is_dir: bool,
    pub is_file: bool,
}

impl View for DiskEntry {
    type V = DiskEntryView;

    open spec fn view(&self) -> DiskEntryView {
        DiskEntryView { path: self.path@, is_dir: self.is_dir, is_file: self.is_file }
    }
}

impl Clone for DiskEntry {
    fn clone(&self) -> (r: Self)
        ensures
            r@ == self@,
    {
        DiskEntry { path: self.path.clone(), is_dir: self.is_dir, is_file: self.is_file }
    }
}

pub open spec fn disk_view(v: Seq<DiskEntry>) -> Seq<DiskEntryView> {
    v.map_values(|e: DiskEntry| e@)
}

/// The items read from one folder, or the message of the error that
/// reading it gave.
#[derive(Debug)]
pub struct DirListing {
    pub dir: String,
    pub children: Result<Vec<DiskEntry>, String>,
}

pub struct ListingView {
    pub dir: Seq<char>,
    pub children: Result<Seq<DiskEntryView>, Seq<char>>,
}

impl View for DirListing {
    type V = ListingView;

    open spec fn view(&self) -> ListingView {
        ListingView {
            dir: self.dir@,
            children: match self.children {
                Ok(v) => Ok(disk_view(v@)),
                Err(m) => Err(m@),
            },
        }
    }
}

/// What was on disk: the listings of the folders asked for, and every item
/// found by walking the tree below the root (links not followed).
#[derive(Debug)]
pub struct DiskSnapshot {
    pub listings: Vec<DirListing>,
    pub tree: Vec<DiskEntry>,
}

pub struct SnapshotView {
    pub listings: Seq<ListingView>,
    pub tree: Seq<DiskEntryView>,
}

impl View for DiskSnapshot {
    type V = SnapshotView;

    open spec fn view(&self) -> SnapshotView {
        SnapshotView {
            listings: self.listings@.map_values(|l: DirListing| l@),
            tree: disk_view(self.tree@),
        }
    }
}

/// The root folder could not be read.
#[derive(Debug, Clone)]
pub enum BrowserError {
    Unreadable { path: String, message: String },
}

pub struct BrowserErrorView {
    pub path: Seq<char>,
    pub message: Seq<char>,
}

impl View for BrowserError {
    type V = BrowserErrorView;

    open spec fn view(&self) -> BrowserErrorView {
        match self {
            BrowserError::Unreadable { path, message } => BrowserErrorView {
                path: path@,
                message: message@,
            },
        }
    }
}

impl BrowserError {
    /// The text the error is shown with: what reading the folder answered.
    pub fn message(&self) -> (r: String)
        ensures
            r@ == self@.message,
    {
        match self {
            BrowserError::Unreadable { message, .. } => message.clone(),
        }
    }
}

/// What a listing that was not in the snapshot reads as.
pub open spec fn missing_listing() -> Seq<char> {
    "no listing of this folder was taken"@
}

// ---------------------------------------------------------------------------
// Audio files

pub open spec fn is_audio_extension(e: Seq<char>) -> bool {
    let l = ascii_lower(e);
    l == "mp3"@ || l == "flac"@ || l == "wav"@ || l == "ogg"@
}

/// A path names a supported audio file when its extension is mp3, flac,
/// wav or ogg, in any ASCII case.
pub open spec fn is_audio_spec(path: Seq<char>) -> bool {
    match path_extension(path) {
        Some(e) => is_audio_extension(e),
        None => false,
    }
}

pub fn is_audio_file(path: &str) -> (r: bool)
    ensures
        r == is_audio_spec(path@),
{
    match extension(path) {
        Some(e) => {
            let l = ascii_lowercase(e.as_str());
            same_text(l.as_str(), "mp3") || same_text(l.as_str(), "flac") || same_text(
                l.as_str(),
                "wav",
            ) || same_text(l.as_str(), "ogg")
        },
        None => false,
    }
}

// ---------------------------------------------------------------------------
// Ordering: folders first, then by lower-cased name

/// Text order by character code, as `str`'s `Ord` compares.
pub open spec fn text_lt_from(a: Seq<char>, b: Seq<char>, i: nat) -> bool
    decreases a.len() - i,
{
    if i >= a.len() {
        i < b.len()
    } else if i >= b.len() {
        false
    } else if a[i as int] != b[i as int] {
        (a[i as int] as u32) < (b[i as int] as u32)
    } else {
        text_lt_from(a, b, i + 1)
    }
}

pub open spec fn text_lt(a: Seq<char>, b: Seq<char>) -> bool {
    text_lt_from(a, b, 0)
}

pub struct SortKey {
    pub is_dir: bool,
    pub name: Seq<char>,
}

pub open spec fn key_of(e: DiskEntryView) -> SortKey {
    SortKey { is_dir: e.is_dir, name: unicode_lower(display_name_spec(e.path)) }
}

/// Folders before files; within each, lower-cased names in text order.
pub open spec fn key_lt(a: SortKey, b: SortKey) -> bool {
    if a.is_dir != b.is_dir {
        a.is_dir
    } else {
        text_lt(a.name, b.name)
    }
}

pub open spec fn entry_lt(a: DiskEntryView, b: DiskEntryView) -> bool {
    key_lt(key_of(a), key_of(b))
}

/// Where `x` goes in `t`: after every item it does not sort strictly before,
/// counting from the back, so equal items keep their order.
pub open spec fn insert_pos(x: DiskEntryView, t: Seq<DiskEntryView>) -> nat
    decreases t.len(),
{
    if t.len() == 0 {
        0
    } else if entry_lt(x, t.last()) {
        insert_pos(x, t.drop_last())
    } else {
        t.len()
    }
}

pub open spec fn sorted_insert(x: DiskEntryView, t: Seq<DiskEntryView>) -> Seq<DiskEntryView> {
    t.insert(insert_pos(x, t) as int, x)
}

/// Stable insertion sort by `entry_lt`.
pub open spec fn sort_entries(s: Seq<DiskEntryView>) -> Seq<DiskEntryView>
    decreases s.len(),
{
    if s.len() == 0 {
        s
    } else {
        sorted_insert(s.last(), sort_entries(s.drop_last()))
    }
}

pub struct ExecKey {
    pub is_dir: bool,
    pub name: Vec<char>,
}

pub open spec fn exec_key_view(k: ExecKey) -> SortKey {
    SortKey { is_dir: k.is_dir, name: k.name@ }
}

fn key_for(e: &DiskEntry) -> (k: ExecKey)
    ensures
        exec_key_view(k) == key_of(e@),
{
    let name = display_name(e.path.as_str());
    let lower = to_lowercase(name.as_str());
    ExecKey { is_dir: e.is_dir, name: chars_of(lower.as_str()) }
}

fn text_less(a: &Vec<char>, b: &Vec<char>) -> (r: bool)
    ensures
        r == text_lt(a@, b@),
{
    let mut i: usize = 0;
    while i < a.len() && i < b.len()
        invariant
            i <= a@.len(),
            i <= b@.len(),
            text_lt(a@, b@) == text_lt_from(a@, b@, i as nat),
        decreases a@.len() - i,
    {
        if a[i] != b[i] {
            return (a[i] as u32) < (b[i] as u32);
        }
        i = i + 1;
    }
    i < b.len()
}

fn key_less(a: &ExecKey, b: &ExecKey) -> (r: bool)
    ensures
        r == key_lt(exec_key_view(*a), exec_key_view(*b)),
{
    if a.is_dir != b.is_dir {
        a.is_dir
    } else {
        text_less(&a.name, &b.name)
    }
}

/// The items sorted folders first, then by lower-cased shown name, equal
/// items keeping their order.
pub fn sort_paths(items: &Vec<DiskEntry>) -> (out: Vec<DiskEntry>)
    ensures
        disk_view(out@) == sort_entries(disk_view(items@)),
{
    let mut out: Vec<DiskEntry> = Vec::new();
    let mut keys: Vec<ExecKey> = Vec::new();
    let mut i: usize = 0;
    while i < items.len()
        invariant
            i <= items@.len(),
            disk_view(out@) == sort_entries(disk_view(items@).take(i as int)),
            keys@.len() == out@.len(),
            forall|q: int| 0 <= q < keys@.len() ==> exec_key_view(#[trigger] keys@[q]) == key_of(out@[q]@),
        decreases items@.len() - i,
    {
        let x = items[i].clone();
        let k = key_for(&x);
        let ghost t = disk_view(out@);
        let mut j = out.len();
        assert(t.take(j as int) =~= t);
        while j > 0 && key_less(&k, &keys[j - 1])
            invariant
                j <= out@.len(),
                t == disk_view(out@),
                keys@.len() == out@.len(),
                forall|q: int| 0 <= q < keys@.len() ==> exec_key_view(#[trigger] keys@[q]) == key_of(out@[q]@),
                exec_key_view(k) == key_of(x@),
                insert_pos(x@, t) == insert_pos(x@, t.take(j as int)),
            decreases j,
        {
            assert(t.take(j as int).drop_last() =~= t.take(j - 1));
            assert(t.take(j as int).last() == t[j - 1]);
            j = j - 1;
        }
        proof {
            if j > 0 {
                assert(t.take(j as int).last() == t[j - 1]);
            }
            assert(insert_pos(x@, t.take(j as int)) == j);
        }
        let ghost keys0 = keys@;
        let ghost out0 = out@;
        out.insert(j, x);
        keys.insert(j, k);
        proof {
            let s = disk_view(items@);
            assert(s.take(i + 1).drop_last() =~= s.take(i as int));
            assert(s.take(i + 1).last() == x@);
            assert(disk_view(out@) =~= t.insert(j as int, x@));
            assert forall|q: int| 0 <= q < keys@.len() implies exec_key_view(#[trigger] keys@[q])
                == key_of(out@[q]@) by {
                if q < j {
                    assert(keys@[q] == keys0[q] && out@[q] == out0[q]);
                } else if q == j {
                } else {
                    assert(keys@[q] == keys0[q - 1] && out@[q] == out0[q - 1]);
                }
            }
        }
        i = i + 1;
    }
    assert(disk_view(items@).take(items@.len() as int) =~= disk_view(items@));
    out
}

// ---------------------------------------------------------------------------
// What a folder shows, and the playlist

/// A folder row keeps folders and supported audio files only.
pub open spec fn shown(e: DiskEntryView) -> bool {
    e.is_dir || is_audio_spec(e.path)
}

pub open spec fn keep_shown(s: Seq<DiskEntryView>) -> Seq<DiskEntryView>
    decreases s.len(),
{
    if s.len() == 0 {
        s
    } else if shown(s.last()) {
        keep_shown(s.drop_last()).push(s.last())
    } else {
        keep_shown(s.drop_last())
    }
}

/// The playlist keeps the files with a supported extension.
pub open spec fn playable(e: DiskEntryView) -> bool {
    e.is_file && is_audio_spec(e.path)
}

pub open spec fn keep_playable(s: Seq<DiskEntryView>) -> Seq<DiskEntryView>
    decreases s.len(),
{
    if s.len() == 0 {
        s
    } else if playable(s.last()) {
        keep_playable(s.drop_last()).push(s.last())
    } else {
        keep_playable(s.drop_last())
    }
}

pub open spec fn paths_of(s: Seq<DiskEntryView>) -> Seq<Seq<char>> {
    s.map_values(|e: DiskEntryView| e.path)
}

/// Every supported audio file below the root, in browser order.
pub open spec fn playlist_spec(tree: Seq<DiskEntryView>) -> Seq<Seq<char>> {
    paths_of(sort_entries(keep_playable(tree)))
}

fn keep_shown_exec(items: &Vec<DiskEntry>) -> (out: Vec<DiskEntry>)
    ensures
        disk_view(out@) == keep_shown(disk_view(items@)),
{
    let mut out: Vec<DiskEntry> = Vec::new();
    let mut i: usize = 0;
    while i < items.len()
        invariant
            i <= items@.len(),
            disk_view(out@) == keep_shown(disk_view(items@).take(i as int)),
        decreases items@.len() - i,
    {
        let x = &items[i];
        let ghost before = disk_view(out@);
        if x.is_dir || is_audio_file(x.path.as_str()) {
            out.push(x.clone());
            assert(disk_view(out@) =~= before.push(x@));
        }
        proof {
            let s = disk_view(items@);
            assert(s.take(i + 1).drop_last() =~= s.take(i as int));
            assert(s.take(i + 1).last() == x@);
        }
        i = i + 1;
    }
    assert(disk_view(items@).take(items@.len() as int) =~= disk_view(items@));
    out
}

fn build_audio_playlist(tree: &Vec<DiskEntry>) -> (out: Vec<String>)
    ensures
        texts(out@) == playlist_spec(disk_view(tree@)),
{
    let mut kept: Vec<DiskEntry> = Vec::new();
    let mut i: usize = 0;
    while i < tree.len()
        invariant
            i <= tree@.len(),
            disk_view(kept@) == keep_playable(disk_view(tree@).take(i as int)),
        decreases tree@.len() - i,
    {
        let x = &tree[i];
        let ghost before = disk_view(kept@);
        if x.is_file && is_audio_file(x.path.as_str()) {
            kept.push(x.clone());
            assert(disk_view(kept@) =~= before.push(x@));
        }
        proof {
            let s = disk_view(tree@);
            assert(s.take(i + 1).drop_last() =~= s.take(i as int));
            assert(s.take(i + 1).last() == x@);
        }
        i = i + 1;
    }
    assert(disk_view(tree@).take(tree@.len() as int) =~= disk_view(tree@));
    let sorted = sort_paths(&kept);
    let mut out: Vec<String> = Vec::new();
    let mut k: usize = 0;
    while k < sorted.len()
        invariant
            k <= sorted@.len(),
            texts(out@) == paths_of(disk_view(sorted@)).take(k as int),
        decreases sorted@.len() - k,
    {
        let ghost before = texts(out@);
        out.push(sorted[k].path.clone());
        assert(texts(out@) =~= before.push(sorted@[k as int].path@));
        assert(paths_of(disk_view(sorted@)).take(k + 1) =~= paths_of(disk_view(sorted@)).take(
            k as int,
        ).push(sorted@[k as int].path@));
        k = k + 1;
    }
    assert(paths_of(disk_view(sorted@)).take(sorted@.len() as int) =~= paths_of(
        disk_view(sorted@),
    ));
    out
}

/// The first listing taken of `dir`, from position `i` on.
pub open spec fn find_listing(ls: Seq<ListingView>, dir: Seq<char>, i: nat) -> Option<nat>
    decreases ls.len() - i,
{
    if i >= ls.len() {
        None
    } else if ls[i as int].dir == dir {
        Some(i)
    } else {
        find_listing(ls, dir, i + 1)
    }
}

pub proof fn lemma_find_listing(ls: Seq<ListingView>, dir: Seq<char>, i: nat)
    ensures
        match find_listing(ls, dir, i) {
            Some(j) => i <= j < ls.len() && ls[j as int].dir == dir,
            None => true,
        },
    decreases ls.len() - i,
{
    if i < ls.len() && ls[i as int].dir != dir {
        lemma_find_listing(ls, dir, i + 1);
    }
}

/// Once the rows for a prefix of the items fail, the rows for every longer
/// prefix fail the same way.
pub proof fn lemma_collect_list_error(
    snap: SnapshotView,
    expanded: Seq<Seq<char>>,
    root: Seq<char>,
    kids: Seq<DiskEntryView>,
    n: nat,
    m: nat,
    depth: nat,
    fuel: nat,
)
    requires
        0 < n <= m <= kids.len(),
        collect_list(snap, expanded, root, kids, n, depth, fuel) is Err,
    ensures
        collect_list(snap, expanded, root, kids, m, depth, fuel) == collect_list(
            snap,
            expanded,
            root,
            kids,
            n,
            depth,
            fuel,
        ),
    decreases m - n,
{
    if m > n {
        lemma_collect_list_error(snap, expanded, root, kids, n, (m - 1) as nat, depth, fuel);
    }
}

fn listing_index(disk: &DiskSnapshot, dir: &str) -> (r: Option<usize>)
    ensures
        match r {
            Some(x) => find_listing(disk@.listings, dir@, 0) == Some(x as nat),
            None => find_listing(disk@.listings, dir@, 0) is None,
        },
{
    let mut i: usize = 0;
    while i < disk.listings.len()
        invariant
            i <= disk@.listings.len(),
            find_listing(disk@.listings, dir@, 0) == find_listing(disk@.listings, dir@, i as nat),
        decreases disk@.listings.len() - i,
    {
        if same_text(disk.listings[i].dir.as_str(), dir) {
            return Some(i);
        }
        i = i + 1;
    }
    None
}

/// Whether `x` is one of the texts in `v`.
pub fn contains_text(v: &Vec<String>, x: &str) -> (r: bool)
    ensures
        r == texts(v@).contains(x@),
{
    let mut i: usize = 0;
    while i < v.len()
        invariant
            i <= v@.len(),
            forall|j: int| 0 <= j < i ==> v@[j]@ != x@,
        decreases v@.len() - i,
    {
        if same_text(v[i].as_str(), x) {
            assert(texts(v@)[i as int] == x@);
            return true;
        }
        i = i + 1;
    }
    proof {
        if texts(v@).contains(x@) {
            let j = choose|j: int| 0 <= j < texts(v@).len() && texts(v@)[j] == x@;
            assert(v@[j]@ == x@);
        }
    }
    false
}

/// Where `x` first occurs in `s`.
pub open spec fn first_index(s: Seq<Seq<char>>, x: Seq<char>, i: nat) -> Option<nat>
    decreases s.len() - i,
{
    if i >= s.len() {
        None
    } else if s[i as int] == x {
        Some(i)
    } else {
        first_index(s, x, i + 1)
    }
}

/// The position of the first text in `v` equal to `x`.
pub fn position_of(v: &Vec<String>, x: &str) -> (r: Option<usize>)
    ensures
        match r {
            Some(i) => first_index(texts(v@), x@, 0) == Some(i as nat),
            None => first_index(texts(v@), x@, 0) is None,
        },
{
    let mut i: usize = 0;
    while i < v.len()
        invariant
            i <= v@.len(),
            first_index(texts(v@), x@, 0) == first_index(texts(v@), x@, i as nat),
        decreases v@.len() - i,
    {
        if same_text(v[i].as_str(), x) {
            return Some(i);
        }
        i = i + 1;
    }
    None
}

pub open spec fn entry_paths(s: Seq<EntryView>) -> Seq<Seq<char>> {
    s.map_values(|e: EntryView| e.path)
}

fn entry_position(v: &Vec<BrowserEntry>, x: &str) -> (r: Option<usize>)
    ensures
        match r {
            Some(i) => first_index(entry_paths(entries_view(v@)), x@, 0) == Some(i as nat),
            None => first_index(entry_paths(entries_view(v@)), x@, 0) is None,
        },
{
    let ghost ps = entry_paths(entries_view(v@));
    let mut i: usize = 0;
    while i < v.len()
        invariant
            i <= v@.len(),
            ps == entry_paths(entries_view(v@)),
            first_index(ps, x@, 0) == first_index(ps, x@, i as nat),
        decreases v@.len() - i,
    {
        if same_text(v[i].path.as_str(), x) {
            return Some(i);
        }
        i = i + 1;
    }
    None
}

pub open spec fn dir_row(c: DiskEntryView, depth: nat, open: bool) -> EntryView {
    EntryView {
        path: c.path,
        name: display_name_spec(c.path),
        depth: depth as usize,
        kind: EntryKind::Directory,
        expanded: open,
    }
}

pub open spec fn file_row(c: DiskEntryView, depth: nat) -> EntryView {
    EntryView {
        path: c.path,
        name: display_name_spec(c.path),
        depth: depth as usize,
        kind: EntryKind::File,
        expanded: false,
    }
}

/// The rows shown for folder `dir` at `depth`: its shown items in order,
/// each open folder followed by its own rows. `fuel` bounds how many open
/// folders deep this goes; it starts at the number of open folders, each of
/// which can appear at most once on a chain of nested folders. Only the
/// root failing to be read is an error; other unreadable folders show as
/// empty.
pub open spec fn collect(
    snap: SnapshotView,
    expanded: Seq<Seq<char>>,
    root: Seq<char>,
    dir: Seq<char>,
    depth: nat,
    fuel: nat,
) -> Result<Seq<EntryView>, BrowserErrorView>
    decreases fuel, 1nat, 0nat,
{
    match find_listing(snap.listings, dir, 0) {
        Some(i) => match snap.listings[i as int].children {
            Ok(ch) => {
                let kids = sort_entries(keep_shown(ch));
                collect_list(snap, expanded, root, kids, kids.len(), depth, fuel)
            },
            Err(m) => if dir == root {
                Err(BrowserErrorView { path: dir, message: m })
            } else {
                Ok(Seq::empty())
            },
        },
        None => if dir == root {
            Err(BrowserErrorView { path: dir, message: missing_listing() })
        } else {
            Ok(Seq::empty())
        },
    }
}

/// The rows for the first `n` of `kids`.
pub open spec fn collect_list(
    snap: SnapshotView,
    expanded: Seq<Seq<char>>,
    root: Seq<char>,
    kids: Seq<DiskEntryView>,
    n: nat,
    depth: nat,
    fuel: nat,
) -> Result<Seq<EntryView>, BrowserErrorView>
    decreases fuel, 0nat, n,
{
    if n == 0 || n > kids.len() {
        Ok(Seq::empty())
    } else {
        match collect_list(snap, expanded, root, kids, (n - 1) as nat, depth, fuel) {
            Err(e) => Err(e),
            Ok(pre) => {
                let c = kids[n - 1];
                if c.is_dir {
                    let open = expanded.contains(c.path);
                    let head = pre.push(dir_row(c, depth, open));
                    if open && fuel > 0 {
                        match collect(snap, expanded, root, c.path, depth + 1, (fuel - 1) as nat) {
                            Err(e) => Err(e),
                            Ok(sub) => Ok(head + sub),
                        }
                    } else {
                        Ok(head)
                    }
                } else {
                    Ok(pre.push(file_row(c, depth)))
                }
            },
        }
    }
}

// ---------------------------------------------------------------------------
// The browser

#[derive(Debug, Clone)]
pub struct FileBrowser {
    root: String,
    expanded: Vec<String>,
    visible_entries: Vec<BrowserEntry>,
    audio_playlist_cache: Vec<String>,
    selected: usize,
    pending_select: Option<String>,
}

pub struct BrowserModel {
    pub root: Seq<char>,
    pub expanded: Seq<Seq<char>>,
    pub entries: Seq<EntryView>,
    pub playlist: Seq<Seq<char>>,
    pub selected: usize,
    pub pending_select: Option<Seq<char>>,
}

impl View for FileBrowser {
    type V = BrowserModel;

    closed spec fn view(&self) -> BrowserModel {
        BrowserModel {
            root: self.root@,
            expanded: texts(self.expanded@),
            entries: entries_view(self.visible_entries@),
            playlist: texts(self.audio_playlist_cache@),
            selected: self.selected,
            pending_select: crate::paths::opt_view(self.pending_select),
        }
    }
}

/// The selection is a row when there are rows and 0 otherwise, and no open
/// folder is listed twice.
pub open spec fn selection_ok(m: BrowserModel) -> bool {
    &&& (m.entries.len() == 0 ==> m.selected == 0)
    &&& (m.entries.len() > 0 ==> m.selected < m.entries.len())
}

pub open spec fn browser_wf(m: BrowserModel) -> bool {
    &&& selection_ok(m)
    &&& m.expanded.no_duplicates()
}

/// The row chosen after a refresh: the old one pulled back into range, or the
/// row of the folder asked for, when it is shown.
pub open spec fn reselect(entries: Seq<EntryView>, selected: usize, pending: Option<Seq<char>>) -> usize {
    let kept = if entries.len() == 0 {
        0
    } else if selected < entries.len() {
        selected
    } else {
        (entries.len() - 1) as usize
    };
    match pending {
        Some(p) => match first_index(entry_paths(entries), p, 0) {
            Some(i) => i as usize,
            None => kept,
        },
        None => kept,
    }
}

/// Re-reading the tree from a snapshot: on success the rows, the playlist
/// and the selection are recomputed; on failure only the pending selection
/// is dropped.
pub open spec fn refreshed(m: BrowserModel, snap: SnapshotView) -> (BrowserModel, Result<(), BrowserErrorView>) {
    let cleared = BrowserModel { pending_select: None, ..m };
    match collect(snap, m.expanded, m.root, m.root, 0, m.expanded.len()) {
        Err(e) => (cleared, Err(e)),
        Ok(rows) => (
            BrowserModel {
                entries: rows,
                playlist: playlist_spec(snap.tree),
                selected: reselect(rows, m.selected, m.pending_select),
                ..cleared
            },
            Ok(()),
        ),
    }
}

pub open spec fn error_view<T>(r: Result<T, BrowserError>) -> Result<(), BrowserErrorView> {
    match r {
        Ok(_) => Ok(()),
        Err(e) => Err(e@),
    }
}

/// The browser for `root` before anything was read: only the root open.
pub open spec fn fresh_model(root: Seq<char>) -> BrowserModel {
    BrowserModel {
        root,
        expanded: seq![root],
        entries: Seq::empty(),
        playlist: Seq::empty(),
        selected: 0,
        pending_select: None,
    }
}

/// The selected row, if any.
pub open spec fn selected_row(m: BrowserModel) -> Option<EntryView> {
    if m.selected < m.entries.len() {
        Some(m.entries[m.selected as int])
    } else {
        None
    }
}

/// `x` taken out of `s` when present, else added at the end.
pub open spec fn toggled(s: Seq<Seq<char>>, x: Seq<char>) -> Seq<Seq<char>> {
    match first_index(s, x, 0) {
        Some(i) => s.remove(i as int),
        None => s.push(x),
    }
}

/// `x` taken out of `s` when present.
pub open spec fn removed(s: Seq<Seq<char>>, x: Seq<char>) -> Seq<Seq<char>> {
    match first_index(s, x, 0) {
        Some(i) => s.remove(i as int),
        None => s,
    }
}

pub proof fn lemma_first_index(s: Seq<Seq<char>>, x: Seq<char>, i: nat)
    ensures
        match first_index(s, x, i) {
            Some(j) => i <= j < s.len() && s[j as int] == x && forall|k: int|
                i <= k < j ==> s[k] != x,
            None => forall|k: int| i <= k < s.len() ==> s[k] != x,
        },
    decreases s.len() - i,
{
    if i < s.len() && s[i as int] != x {
        lemma_first_index(s, x, i + 1);
    }
}

pub proof fn lemma_first_index_contains(s: Seq<Seq<char>>, x: Seq<char>)
    ensures
        first_index(s, x, 0) is Some <==> s.contains(x),
{
    lemma_first_index(s, x, 0);
}

pub proof fn lemma_toggled_no_duplicates(s: Seq<Seq<char>>, x: Seq<char>)
    requires
        s.no_duplicates(),
    ensures
        toggled(s, x).no_duplicates(),
        removed(s, x).no_duplicates(),
        !removed(s, x).contains(x),
        toggled(s, x).contains(x) <==> !s.contains(x),
{
    lemma_first_index(s, x, 0);
    match first_index(s, x, 0) {
        Some(i) => {
            let t = s.remove(i as int);
            assert forall|a: int, b: int| 0 <= a < b < t.len() implies t[a] != t[b] by {
                let a2 = if a < i { a } else { a + 1 };
                let b2 = if b < i { b } else { b + 1 };
                assert(t[a] == s[a2] && t[b] == s[b2]);
            }
            assert forall|k: int| 0 <= k < t.len() implies t[k] != x by {
                let k2 = if k < i { k } else { k + 1 };
                assert(t[k] == s[k2]);
            }
        },
        None => {
            let t = s.push(x);
            assert(t[s.len() as int] == x);
            assert forall|a: int, b: int| 0 <= a < b < t.len() implies t[a] != t[b] by {
                if b == s.len() {
                    assert(t[a] == s[a]);
                }
            }
        },
    }
}

/// Moving the selection one row down, stopping at the last row.
pub open spec fn moved_down(m: BrowserModel) -> BrowserModel {
    BrowserModel {
        selected: if m.entries.len() == 0 {
            m.selected
        } else if m.selected + 1 < m.entries.len() {
            (m.selected + 1) as usize
        } else {
            (m.entries.len() - 1) as usize
        },
        ..m
    }
}

/// Moving the selection one row up, stopping at the first row.
pub open spec fn moved_up(m: BrowserModel) -> BrowserModel {
    BrowserModel {
        selected: if m.entries.len() > 0 && m.selected > 0 {
            (m.selected - 1) as usize
        } else {
            m.selected
        },
        ..m
    }
}

/// Opening or closing the selected folder; true when the rows must be re-read.
pub open spec fn toggle_model(m: BrowserModel) -> (BrowserModel, bool) {
    match selected_row(m) {
        Some(e) => if e.kind == EntryKind::Directory {
            (BrowserModel { expanded: toggled(m.expanded, e.path), ..m }, true)
        } else {
            (m, false)
        },
        None => (m, false),
    }
}

/// Opening the selected folder when it is closed.
pub open spec fn expand_model(m: BrowserModel) -> (BrowserModel, bool) {
    match selected_row(m) {
        Some(e) => if e.kind == EntryKind::Directory && !m.expanded.contains(e.path) {
            (BrowserModel { expanded: m.expanded.push(e.path), ..m }, true)
        } else {
            (m, false)
        },
        None => (m, false),
    }
}

/// Closing the selected folder when it is open; otherwise closing the
/// folder that holds the selected row (never the root) and asking for that
/// folder's row to be selected once the rows are re-read.
pub open spec fn collapse_model(m: BrowserModel) -> (BrowserModel, bool) {
    match selected_row(m) {
        Some(e) => if e.kind == EntryKind::Directory && m.expanded.contains(e.path) {
            (BrowserModel { expanded: removed(m.expanded, e.path), ..m }, true)
        } else {
            match path_parent(e.path) {
                Some(p) => if p != m.root && m.expanded.contains(p) {
                    (BrowserModel { expanded: removed(m.expanded, p), pending_select: Some(p), ..m }, true)
                } else {
                    (m, false)
                },
                None => (m, false),
            }
        },
        None => (m, false),
    }
}

/// The selected file, the playlist, and the file's place in it.
pub open spec fn audio_selection(m: BrowserModel) -> Option<(Seq<char>, Seq<Seq<char>>, usize)> {
    match selected_row(m) {
        Some(e) => if e.kind == EntryKind::File {
            match first_index(m.playlist, e.path, 0) {
                Some(i) => Some((e.path, m.playlist, i as usize)),
                None => None,
            }
        } else {
            None
        },
        None => None,
    }
}

impl FileBrowser {
    /// The selection is on a row (0 when there are none) and no folder is
    /// open twice.
    pub open spec fn wf(&self) -> bool {
        browser_wf(self@)
    }

    /// Opens the browser at `root` (a canonical path) and reads it from `disk`.
    pub fn new(root: String, disk: &DiskSnapshot) -> (r: Result<FileBrowser, BrowserError>)
        ensures
            ({
                let (m, out) = refreshed(fresh_model(root@), disk@);
                match r {
                    Ok(b) => out is Ok && b@ == m && b.wf(),
                    Err(e) => out == Err::<(), BrowserErrorView>(e@),
                }
            }),
    {
        let mut expanded: Vec<String> = Vec::new();
        expanded.push(root.clone());
        let mut browser = FileBrowser {
            root,
            expanded,
            visible_entries: Vec::new(),
            audio_playlist_cache: Vec::new(),
            selected: 0,
            pending_select: None,
        };
        assert(browser@.expanded =~= seq![browser@.root]);
        assert(browser@.entries =~= Seq::<EntryView>::empty());
        assert(browser@.playlist =~= Seq::<Seq<char>>::empty());
        assert(browser@ == fresh_model(browser@.root));
        match browser.refresh(disk) {
            Ok(()) => Ok(browser),
            Err(e) => Err(e),
        }
    }

    pub fn root(&self) -> (r: &str)
        ensures
            r@ == self@.root,
    {
        self.root.as_str()
    }

    pub fn entries(&self) -> (r: &[BrowserEntry])
        ensures
            entries_view(r@) == self@.entries,
    {
        self.visible_entries.as_slice()
    }

    pub fn selected_index(&self) -> (r: usize)
        ensures
            r == self@.selected,
    {
        self.selected
    }

    pub fn selected_entry(&self) -> (r: Option<&BrowserEntry>)
        ensures
            match selected_row(self@) {
                Some(e) => r is Some && r->0@ == e,
                None => r is None,
            },
    {
        if self.selected < self.visible_entries.len() {
            Some(&self.visible_entries[self.selected])
        } else {
            None
        }
    }

    /// The open folders, the root among them; a snapshot handed to `refresh`
    /// should list each of them.
    pub fn expanded_directories(&self) -> (r: Vec<String>)
        ensures
            texts(r@) == self@.expanded,
    {
        crate::audio_engine::clone_texts(&self.expanded)
    }

    pub fn move_down(&mut self)
        requires
            old(self).wf(),
        ensures
            final(self).wf(),
            final(self)@ == moved_down(old(self)@),
    {
        let len = self.visible_entries.len();
        if len > 0 {
            self.selected = if self.selected + 1 < len {
                self.selected + 1
            } else {
                len - 1
            };
        }
    }

    pub fn move_up(&mut self)
        requires
            old(self).wf(),
        ensures
            final(self).wf(),
            final(self)@ == moved_up(old(self)@),
    {
        if self.visible_entries.len() > 0 && self.selected > 0 {
            self.selected = self.selected - 1;
        }
    }

    fn collect_children(
        &self,
        disk: &DiskSnapshot,
        directory: &str,
        depth: usize,
        fuel: usize,
        entries: &mut Vec<BrowserEntry>,
    ) -> (r: Result<(), BrowserError>)
        requires
            depth + fuel <= usize::MAX,
        ensures
            match collect(disk@, self@.expanded, self@.root, directory@, depth as nat, fuel as nat) {
                Ok(rows) => r is Ok && entries_view(final(entries)@) == entries_view(old(entries)@)
                    + rows,
                Err(e) => error_view(r) == Err::<(), BrowserErrorView>(e),
            },
        decreases fuel,
    {
        let is_root = same_text(directory, self.root.as_str());
        let idx = listing_index(disk, directory);
        proof {
            lemma_find_listing(disk@.listings, directory@, 0);
            if let Some(j) = idx {
                assert(disk@.listings[j as int] == disk.listings@[j as int]@);
            }
        }
        match idx {
            None => {
                if is_root {
                    let message = crate::text::owned("no listing of this folder was taken");
                    return Err(
                        BrowserError::Unreadable { path: crate::text::owned(directory), message },
                    );
                } else {
                    assert(entries_view(entries@) =~= entries_view(old(entries)@) + Seq::<
                        EntryView,
                    >::empty());
                    return Ok(());
                }
            },
            Some(i) => {
                match &disk.listings[i].children {
                    Err(m) => {
                        if is_root {
                            return Err(
                                BrowserError::Unreadable {
                                    path: crate::text::owned(directory),
                                    message: m.clone(),
                                },
                            );
                        } else {
                            assert(entries_view(entries@) =~= entries_view(old(entries)@) + Seq::<
                                EntryView,
                            >::empty());
                            return Ok(());
                        }
                    },
                    Ok(children) => {
                        let kept = keep_shown_exec(children);
                        let kids = sort_paths(&kept);
                        let ghost kv = disk_view(kids@);
                        let ghost start = entries_view(entries@);
                        let ghost exp = self@.expanded;
                        let ghost root = self@.root;
                        assert(entries_view(entries@) =~= start + Seq::<EntryView>::empty());
                        assert(collect(disk@, exp, root, directory@, depth as nat, fuel as nat)
                            == collect_list(disk@, exp, root, kv, kv.len(), depth as nat, fuel as nat));
                        let mut k: usize = 0;
                        while k < kids.len()
                            invariant
                                k <= kids@.len(),
                                kv == disk_view(kids@),
                                exp == self@.expanded,
                                root == self@.root,
                                depth + fuel <= usize::MAX,
                                collect(disk@, exp, root, directory@, depth as nat, fuel as nat)
                                    == collect_list(disk@, exp, root, kv, kv.len(), depth as nat, fuel as nat),
                                collect_list(disk@, exp, root, kv, k as nat, depth as nat, fuel as nat) is Ok,
                                entries_view(entries@) == start + collect_list(
                                    disk@,
                                    exp,
                                    root,
                                    kv,
                                    k as nat,
                                    depth as nat,
                                    fuel as nat,
                                )->Ok_0,
                            decreases kids@.len() - k,
                        {
                            let c = &kids[k];
                            let ghost pre = entries_view(entries@);
                            if c.is_dir {
                                let open = contains_text(&self.expanded, c.path.as_str());
                                entries.push(
                                    BrowserEntry {
                                        name: display_name(c.path.as_str()),
                                        path: c.path.clone(),
                                        depth,
                                        kind: EntryKind::Directory,
                                        expanded: open,
                                    },
                                );
                                assert(entries_view(entries@) =~= pre.push(dir_row(c@, depth as nat, open)));
                                if open && fuel > 0 {
                                    let ghost mid = entries_view(entries@);
                                    match self.collect_children(disk, c.path.as_str(), depth + 1, fuel - 1, entries) {
                                        Err(e) => {
                                            proof {
                                                lemma_collect_list_error(
                                                    disk@,
                                                    exp,
                                                    root,
                                                    kv,
                                                    (k + 1) as nat,
                                                    kv.len(),
                                                    depth as nat,
                                                    fuel as nat,
                                                );
                                            }
                                            return Err(e);
                                        },
                                        Ok(()) => {
                                            assert(entries_view(entries@) =~= start + collect_list(
                                                disk@,
                                                exp,
                                                root,
                                                kv,
                                                (k + 1) as nat,
                                                depth as nat,
                                                fuel as nat,
                                            )->Ok_0);
                                        },
                                    }
                                } else {
                                    assert(entries_view(entries@) =~= start + collect_list(
                                        disk@,
                                        exp,
                                        root,
                                        kv,
                                        (k + 1) as nat,
                                        depth as nat,
                                        fuel as nat,
                                    )->Ok_0);
                                }
                            } else {
                                entries.push(
                                    BrowserEntry {
                                        name: display_name(c.path.as_str()),
                                        path: c.path.clone(),
                                        depth,
                                        kind: EntryKind::File,
                                        expanded: false,
                                    },
                                );
                                assert(entries_view(entries@) =~= pre.push(file_row(c@, depth as nat)));
                                assert(entries_view(entries@) =~= start + collect_list(
                                    disk@,
                                    exp,
                                    root,
                                    kv,
                                    (k + 1) as nat,
                                    depth as nat,
                                    fuel as nat,
                                )->Ok_0);
                            }
                            k = k + 1;
                        }
                        Ok(())
                    },
                }
            },
        }
    }

    /// Re-reads the rows and the playlist from `disk`, keeps the selection in
    /// range, and moves it to a folder that a collapse asked for.
    pub fn refresh(&mut self, disk: &DiskSnapshot) -> (r: Result<(), BrowserError>)
        requires
            old(self).wf(),
        ensures
            ({
                let (m, out) = refreshed(old(self)@, disk@);
                &&& final(self)@ == m
                &&& error_view(r) == out
                &&& final(self).wf()
            }),
    {
        let pending = match &self.pending_select {
            Some(p) => Some(p.clone()),
            None => None,
        };
        self.pending_select = None;
        let mut visible: Vec<BrowserEntry> = Vec::new();
        let fuel = self.expanded.len();
        assert(entries_view(visible@) =~= Seq::<EntryView>::empty());
        match self.collect_children(disk, self.root.as_str(), 0, fuel, &mut visible) {
            Err(e) => {
                return Err(e);
            },
            Ok(()) => {},
        }
        assert(entries_view(visible@) =~= Seq::<EntryView>::empty() + entries_view(visible@));
        let len = visible.len();
        let kept = if len == 0 {
            0
        } else if self.selected < len {
            self.selected
        } else {
            len - 1
        };
        let chosen = match pending {
            Some(p) => match entry_position(&visible, p.as_str()) {
                Some(i) => i,
                None => kept,
            },
            None => kept,
        };
        proof {
            match opt_text_view(pending) {
                Some(p) => lemma_first_index(entry_paths(entries_view(visible@)), p, 0),
                None => {},
            }
        }
        self.visible_entries = visible;
        self.audio_playlist_cache = build_audio_playlist(&disk.tree);
        self.selected = chosen;
        Ok(())
    }

    pub fn toggle_selected_directory(&mut self) -> (refresh_due: bool)
        requires
            old(self).wf(),
        ensures
            final(self).wf(),
            (final(self)@, refresh_due) == toggle_model(old(self)@),
    {
        proof {
            if self.selected < self.visible_entries@.len() {
                assert(self@.entries[self.selected as int] == self.visible_entries@[self.selected as int]@);
            }
        }
        if self.selected >= self.visible_entries.len() {
            return false;
        }
        if self.visible_entries[self.selected].kind != EntryKind::Directory {
            return false;
        }
        let path = self.visible_entries[self.selected].path.clone();
        proof {
            lemma_first_index(texts(self.expanded@), path@, 0);
            lemma_toggled_no_duplicates(texts(self.expanded@), path@);
        }
        match position_of(&self.expanded, path.as_str()) {
            Some(i) => {
                let ghost before = self.expanded@;
                assert(first_index(texts(before), path@, 0) == Some(i as nat));
                let _ = self.expanded.remove(i);
                assert(texts(self.expanded@) =~= texts(before).remove(i as int));
                assert(texts(self.expanded@) == toggled(texts(before), path@));
            },
            None => {
                let ghost before = self.expanded@;
                self.expanded.push(path);
                assert(texts(self.expanded@) =~= texts(before).push(path@));
                assert(texts(self.expanded@) == toggled(texts(before), path@));
            },
        }
        true
    }

    pub fn expand_selected_directory(&mut self) -> (refresh_due: bool)
        requires
            old(self).wf(),
        ensures
            final(self).wf(),
            (final(self)@, refresh_due) == expand_model(old(self)@),
    {
        proof {
            if self.selected < self.visible_entries@.len() {
                assert(self@.entries[self.selected as int] == self.visible_entries@[self.selected as int]@);
            }
        }
        if self.selected >= self.visible_entries.len() {
            return false;
        }
        if self.visible_entries[self.selected].kind != EntryKind::Directory {
            return false;
        }
        let path = self.visible_entries[self.selected].path.clone();
        if contains_text(&self.expanded, path.as_str()) {
            return false;
        }
        proof {
            lemma_first_index(texts(self.expanded@), path@, 0);
            lemma_first_index_contains(texts(self.expanded@), path@);
            lemma_toggled_no_duplicates(texts(self.expanded@), path@);
        }
        let ghost before = self.expanded@;
        self.expanded.push(path);
        assert(texts(self.expanded@) =~= texts(before).push(path@));
        true
    }

    pub fn collapse_selected_directory_or_parent(&mut self) -> (refresh_due: bool)
        requires
            old(self).wf(),
        ensures
            final(self).wf(),
            (final(self)@, refresh_due) == collapse_model(old(self)@),
    {
        proof {
            if self.selected < self.visible_entries@.len() {
                assert(self@.entries[self.selected as int] == self.visible_entries@[self.selected as int]@);
            }
        }
        if self.selected >= self.visible_entries.len() {
            return false;
        }
        let path = self.visible_entries[self.selected].path.clone();
        let is_dir = self.visible_entries[self.selected].kind == EntryKind::Directory;
        if is_dir {
            if let Some(i) = position_of(&self.expanded, path.as_str()) {
                proof {
                    lemma_first_index(texts(self.expanded@), path@, 0);
                    lemma_first_index_contains(texts(self.expanded@), path@);
                    lemma_toggled_no_duplicates(texts(self.expanded@), path@);
                }
                let ghost before = self.expanded@;
                let _ = self.expanded.remove(i);
                assert(texts(self.expanded@) =~= texts(before).remove(i as int));
                return true;
            }
            proof {
                lemma_first_index_contains(texts(self.expanded@), path@);
            }
        }
        let up = match parent(path.as_str()) {
            Some(p) => p,
            None => {
                return false;
            },
        };
        if same_text(up.as_str(), self.root.as_str()) {
            return false;
        }
        match position_of(&self.expanded, up.as_str()) {
            Some(i) => {
                proof {
                    lemma_first_index(texts(self.expanded@), up@, 0);
                    lemma_first_index_contains(texts(self.expanded@), up@);
                    lemma_toggled_no_duplicates(texts(self.expanded@), up@);
                }
                let ghost before = self.expanded@;
                let _ = self.expanded.remove(i);
                assert(texts(self.expanded@) =~= texts(before).remove(i as int));
                self.pending_select = Some(up);
                true
            },
            None => {
                proof {
                    lemma_first_index_contains(texts(self.expanded@), up@);
                }
                false
            },
        }
    }

    /// The selected file with the playlist and its place in it, when the
    /// selected row is a file that the playlist holds.
    pub fn selected_audio_selection(&self) -> (r: Option<(String, Vec<String>, usize)>)
        ensures
            match audio_selection(self@) {
                Some((p, l, i)) => r matches Some((path, list, index)) && path@ == p && texts(list@)
                    == l && index == i,
                None => r is None,
            },
    {
        proof {
            if self.selected < self.visible_entries@.len() {
                assert(self@.entries[self.selected as int] == self.visible_entries@[self.selected as int]@);
            }
        }
        if self.selected >= self.visible_entries.len() {
            return None;
        }
        let entry = &self.visible_entries[self.selected];
        if entry.kind != EntryKind::File {
            return None;
        }
        match position_of(&self.audio_playlist_cache, entry.path.as_str()) {
            Some(index) => Some(
                (entry.path.clone(), crate::audio_engine::clone_texts(&self.audio_playlist_cache), index),
            ),
            None => None,
        }
    }

    /// Every supported audio file below the root, in browser order.
    pub fn audio_playlist(&self) -> (r: Vec<String>)
        ensures
            texts(r@) == self@.playlist,
    {
        crate::audio_engine::clone_texts(&self.audio_playlist_cache)
    }

    pub fn playlist_len(&self) -> (r: usize)
        ensures
            r == self@.playlist.len(),
    {
        self.audio_playlist_cache.len()
    }
}

pub open spec fn opt_text_view(o: Option<String>) -> Option<Seq<char>> {
    crate::paths::opt_view(o)
}

// ---------------------------------------------------------------------------
// Laws

/// The rows depend on which folders are open, not on the order they were
/// opened in.
pub proof fn lemma_collect_open_set(
    snap: SnapshotView,
    e1: Seq<Seq<char>>,
    e2: Seq<Seq<char>>,
    root: Seq<char>,
    dir: Seq<char>,
    depth: nat,
    fuel: nat,
)
    requires
        forall|y: Seq<char>| e1.contains(y) == e2.contains(y),
    ensures
        collect(snap, e1, root, dir, depth, fuel) == collect(snap, e2, root, dir, depth, fuel),
    decreases fuel, 1nat, 0nat,
{
    match find_listing(snap.listings, dir, 0) {
        Some(i) => match snap.listings[i as int].children {
            Ok(ch) => {
                let kids = sort_entries(keep_shown(ch));
                lemma_collect_list_open_set(snap, e1, e2, root, kids, kids.len(), depth, fuel);
            },
            Err(_) => {},
        },
        None => {},
    }
}

pub proof fn lemma_collect_list_open_set(
    snap: SnapshotView,
    e1: Seq<Seq<char>>,
    e2: Seq<Seq<char>>,
    root: Seq<char>,
    kids: Seq<DiskEntryView>,
    n: nat,
    depth: nat,
    fuel: nat,
)
    requires
        forall|y: Seq<char>| e1.contains(y) == e2.contains(y),
    ensures
        collect_list(snap, e1, root, kids, n, depth, fuel) == collect_list(snap, e2, root, kids, n, depth, fuel),
    decreases fuel, 0nat, n,
{
    if n == 0 || n > kids.len() {
    } else {
        lemma_collect_list_open_set(snap, e1, e2, root, kids, (n - 1) as nat, depth, fuel);
        let c = kids[n - 1];
        assert(e1.contains(c.path) == e2.contains(c.path));
        if c.is_dir && e1.contains(c.path) && fuel > 0 {
            lemma_collect_open_set(snap, e1, e2, root, c.path, depth + 1, (fuel - 1) as nat);
        }
    }
}

/// Opening and then closing the same folder (or the other way round), with
/// the rows read again from the same disk, shows the same rows.
pub proof fn law_toggle_twice_restores_rows(m: BrowserModel, snap: SnapshotView, x: Seq<char>)
    requires
        browser_wf(m),
    ensures
        ({
            let twice = BrowserModel { expanded: toggled(toggled(m.expanded, x), x), ..m };
            &&& refreshed(twice, snap).0.entries == refreshed(m, snap).0.entries
            &&& refreshed(twice, snap).1 == refreshed(m, snap).1
        }),
{
    let s = m.expanded;
    let u = toggled(toggled(s, x), x);
    assert forall|y: Seq<char>| u.contains(y) == s.contains(y) by {
        law_toggle_twice_restores_open_folders(s, x, y);
    }
    lemma_first_index(s, x, 0);
    lemma_toggled_no_duplicates(s, x);
    let t = toggled(s, x);
    lemma_first_index(t, x, 0);
    match first_index(s, x, 0) {
        Some(i) => {
            assert(first_index(t, x, 0) is None);
            assert(u.len() == s.len());
        },
        None => {
            assert(t[s.len() as int] == x);
            assert(first_index(t, x, 0) == Some(s.len()));
            assert(u.len() == s.len());
        },
    }
    lemma_collect_open_set(snap, u, s, m.root, m.root, 0, s.len());
}

/// A row as the tree shows it: named after its path's final component; a
/// folder row marked open exactly when that folder is open; a file row
/// never marked open.
pub open spec fn row_ok(e: EntryView, expanded: Seq<Seq<char>>) -> bool {
    &&& e.name == display_name_spec(e.path)
    &&& (e.kind == EntryKind::Directory ==> e.expanded == expanded.contains(e.path))
    &&& (e.kind == EntryKind::File ==> !e.expanded)
}

pub open spec fn rows_ok(rows: Seq<EntryView>, expanded: Seq<Seq<char>>) -> bool {
    forall|i: int| 0 <= i < rows.len() ==> #[trigger] row_ok(rows[i], expanded)
}

pub proof fn lemma_collect_rows(
    snap: SnapshotView,
    expanded: Seq<Seq<char>>,
    root: Seq<char>,
    dir: Seq<char>,
    depth: nat,
    fuel: nat,
)
    ensures
        collect(snap, expanded, root, dir, depth, fuel) matches Ok(rows) ==> rows_ok(rows, expanded),
    decreases fuel, 1nat, 0nat,
{
    match find_listing(snap.listings, dir, 0) {
        Some(i) => match snap.listings[i as int].children {
            Ok(ch) => {
                let kids = sort_entries(keep_shown(ch));
                lemma_collect_list_rows(snap, expanded, root, kids, kids.len(), depth, fuel);
            },
            Err(_) => {},
        },
        None => {},
    }
}

pub proof fn lemma_collect_list_rows(
    snap: SnapshotView,
    expanded: Seq<Seq<char>>,
    root: Seq<char>,
    kids: Seq<DiskEntryView>,
    n: nat,
    depth: nat,
    fuel: nat,
)
    ensures
        collect_list(snap, expanded, root, kids, n, depth, fuel) matches Ok(rows) ==> rows_ok(rows, expanded),
    decreases fuel, 0nat, n,
{
    if n == 0 || n > kids.len() {
    } else {
        lemma_collect_list_rows(snap, expanded, root, kids, (n - 1) as nat, depth, fuel);
        match collect_list(snap, expanded, root, kids, (n - 1) as nat, depth, fuel) {
            Err(_) => {},
            Ok(pre) => {
                let c = kids[n - 1];
                if c.is_dir {
                    let open = expanded.contains(c.path);
                    let head = pre.push(dir_row(c, depth, open));
                    assert(rows_ok(head, expanded)) by {
                        assert forall|i: int| 0 <= i < head.len() implies #[trigger] row_ok(head[i], expanded) by {
                            if i < pre.len() {
                                assert(head[i] == pre[i]);
                            }
                        }
                    }
                    if open && fuel > 0 {
                        lemma_collect_rows(snap, expanded, root, c.path, depth + 1, (fuel - 1) as nat);
                        match collect(snap, expanded, root, c.path, depth + 1, (fuel - 1) as nat) {
                            Err(_) => {},
                            Ok(sub) => {
                                let all = head + sub;
                                assert forall|i: int| 0 <= i < all.len() implies #[trigger] row_ok(all[i], expanded) by {
                                    if i < head.len() {
                                        assert(all[i] == head[i]);
                                    } else {
                                        assert(all[i] == sub[i - head.len()]);
                                    }
                                }
                            },
                        }
                    }
                } else {
                    let all = pre.push(file_row(c, depth));
                    assert forall|i: int| 0 <= i < all.len() implies #[trigger] row_ok(all[i], expanded) by {
                        if i < pre.len() {
                            assert(all[i] == pre[i]);
                        }
                    }
                }
            },
        }
    }
}

/// Every row the browser shows after a successful read is named after its
/// path, and a folder row is marked open exactly when that folder is open.
/// The selection stays on a row (or at 0 with no rows) and no folder is
/// open twice.
pub proof fn law_rows_and_selection(m: BrowserModel, snap: SnapshotView)
    requires
        browser_wf(m),
    ensures
        refreshed(m, snap).1 is Ok ==> rows_ok(refreshed(m, snap).0.entries, m.expanded),
        selection_ok(refreshed(m, snap).0),
{
    lemma_collect_rows(snap, m.expanded, m.root, m.root, 0, m.expanded.len());
    if let Ok(rows) = collect(snap, m.expanded, m.root, m.root, 0, m.expanded.len()) {
        if let Some(p) = m.pending_select {
            lemma_first_index(entry_paths(rows), p, 0);
        }
    }
}

/// Where `insert_pos` puts `x`: every item from there on sorts strictly after
/// `x`, and the item just before does not.
pub proof fn lemma_insert_pos(x: DiskEntryView, t: Seq<DiskEntryView>)
    ensures
        insert_pos(x, t) <= t.len(),
        forall|q: int| insert_pos(x, t) <= q < t.len() ==> entry_lt(x, #[trigger] t[q]),
        insert_pos(x, t) > 0 ==> !entry_lt(x, t[insert_pos(x, t) - 1]),
    decreases t.len(),
{
    if t.len() > 0 && entry_lt(x, t.last()) {
        lemma_insert_pos(x, t.drop_last());
        assert forall|q: int| insert_pos(x, t) <= q < t.len() implies entry_lt(x, #[trigger] t[q]) by {
            if q < t.len() - 1 {
                assert(t[q] == t.drop_last()[q]);
            }
        }
    }
}

pub proof fn lemma_text_lt_asymmetric(a: Seq<char>, b: Seq<char>, i: nat)
    ensures
        text_lt_from(a, b, i) ==> !text_lt_from(b, a, i),
    decreases a.len() - i,
{
    if i < a.len() && i < b.len() && a[i as int] == b[i as int] {
        lemma_text_lt_asymmetric(a, b, i + 1);
    }
}

pub proof fn lemma_entry_lt_asymmetric(a: DiskEntryView, b: DiskEntryView)
    ensures
        entry_lt(a, b) ==> !entry_lt(b, a),
{
    lemma_text_lt_asymmetric(key_of(a).name, key_of(b).name, 0);
}

pub open spec fn folders_first(s: Seq<DiskEntryView>) -> bool {
    forall|i: int, j: int| 0 <= i < j < s.len() && (#[trigger] s[j]).is_dir ==> (#[trigger] s[i]).is_dir
}

pub open spec fn in_order(s: Seq<DiskEntryView>) -> bool {
    forall|i: int| 0 <= i < s.len() - 1 ==> !entry_lt(#[trigger] s[i + 1], s[i])
}

/// Sorting puts every folder before every file, orders neighbours, and
/// keeps exactly the items it was given.
pub proof fn law_sort_orders_and_keeps_items(s: Seq<DiskEntryView>)
    ensures
        folders_first(sort_entries(s)),
        in_order(sort_entries(s)),
        sort_entries(s).to_multiset() == s.to_multiset(),
    decreases s.len(),
{
    broadcast use vstd::seq_lib::group_to_multiset_ensures;

    if s.len() > 0 {
        let x = s.last();
        let t = sort_entries(s.drop_last());
        law_sort_orders_and_keeps_items(s.drop_last());
        lemma_insert_pos(x, t);
        let p = insert_pos(x, t) as int;
        let n = t.insert(p, x);
        assert(n == sort_entries(s));
        assert forall|i: int, j: int| 0 <= i < j < n.len() && (#[trigger] n[j]).is_dir implies (
        #[trigger] n[i]).is_dir by {
            if j < p {
                assert(n[i] == t[i] && n[j] == t[j]);
            } else if j == p {
                assert(n[j] == x);
                if p > 0 {
                    assert(!entry_lt(x, t[p - 1]));
                    assert(t[p - 1].is_dir);
                    if i < p - 1 {
                        assert(n[i] == t[i]);
                    } else {
                        assert(n[i] == t[p - 1]);
                    }
                }
            } else {
                assert(n[j] == t[j - 1]);
                if i < p {
                    assert(n[i] == t[i]);
                } else if i == p {
                    assert(entry_lt(x, t[j - 1]));
                } else {
                    assert(n[i] == t[i - 1]);
                }
            }
        }
        assert(in_order(t));
        assert forall|i: int| 0 <= i < n.len() - 1 implies !entry_lt(#[trigger] n[i + 1], n[i]) by {
            if i + 1 < p {
                assert(n[i] == t[i] && n[i + 1] == t[i + 1]);
                assert(!entry_lt(t[i + 1], t[i]));
            } else if i + 1 == p {
                assert(n[i] == t[i] && n[i + 1] == x);
                assert(!entry_lt(x, t[p - 1]));
            } else if i == p {
                assert(n[i] == x && n[i + 1] == t[i]);
                assert(entry_lt(x, t[i]));
                lemma_entry_lt_asymmetric(x, t[i]);
            } else {
                assert(n[i] == t[i - 1] && n[i + 1] == t[i]);
                assert(!entry_lt(t[(i - 1) + 1], t[i - 1]));
            }
        }
        assert(s.drop_last().push(x) =~= s);
        assert(s.to_multiset() == s.drop_last().to_multiset().insert(x));
    }
}

/// Opening and then closing the same folder (or the other way round)
/// leaves the same folders open.
pub proof fn law_toggle_twice_restores_open_folders(s: Seq<Seq<char>>, x: Seq<char>, y: Seq<char>)
    requires
        s.no_duplicates(),
    ensures
        toggled(toggled(s, x), x).contains(y) == s.contains(y),
        toggled(toggled(s, x), x).no_duplicates(),
{
    lemma_toggled_no_duplicates(s, x);
    lemma_toggled_no_duplicates(toggled(s, x), x);
    lemma_first_index(s, x, 0);
    let t = toggled(s, x);
    lemma_first_index(t, x, 0);
    let u = toggled(t, x);
    match first_index(s, x, 0) {
        Some(i) => {
            assert(t == s.remove(i as int));
            assert(!t.contains(x));
            assert(first_index(t, x, 0) is None);
            assert(u == t.push(x));
            if s.contains(y) {
                let k = choose|k: int| 0 <= k < s.len() && s[k] == y;
                if k == i {
                    assert(u[t.len() as int] == y);
                } else {
                    let k2 = if k < i { k } else { k - 1 };
                    assert(t[k2] == y);
                    assert(u[k2] == y);
                }
            }
            if u.contains(y) {
                let k = choose|k: int| 0 <= k < u.len() && u[k] == y;
                if k == t.len() {
                    assert(s[i as int] == y);
                } else {
                    let k2 = if k < i { k } else { k + 1 };
                    assert(s[k2] == y);
                }
            }
        },
        None => {
            assert(t == s.push(x));
            assert(t[s.len() as int] == x);
            assert(first_index(t, x, 0) == Some(s.len()));
            assert(u =~= s);
        },
    }
}

/// The playlist is read from the whole tree: which folders are open plays
/// no part in it, and every supported audio file in the tree is on it.
pub proof fn law_playlist_covers_tree(m: BrowserModel, snap: SnapshotView, e: DiskEntryView)
    ensures
        refreshed(m, snap).1 is Ok ==> refreshed(m, snap).0.playlist == playlist_spec(snap.tree),
        snap.tree.contains(e) && playable(e) ==> playlist_spec(snap.tree).contains(e.path),
{
    if snap.tree.contains(e) && playable(e) {
        lemma_keep_playable_contains(snap.tree, e);
        let kept = keep_playable(snap.tree);
        law_sort_orders_and_keeps_items(kept);
        broadcast use vstd::seq_lib::group_to_multiset_ensures;

        let sorted = sort_entries(kept);
        assert(kept.to_multiset().count(e) > 0);
        assert(sorted.contains(e));
        let k = choose|k: int| 0 <= k < sorted.len() && sorted[k] == e;
        assert(paths_of(sorted)[k] == e.path);
    }
}

pub proof fn lemma_keep_playable_contains(s: Seq<DiskEntryView>, e: DiskEntryView)
    requires
        s.contains(e),
        playable(e),
    ensures
        keep_playable(s).contains(e),
    decreases s.len(),
{
    if s.last() == e {
        assert(keep_playable(s).last() == e);
    } else {
        let k = choose|k: int| 0 <= k < s.len() && s[k] == e;
        assert(s.drop_last()[k] == e);
        lemma_keep_playable_contains(s.drop_last(), e);
        let r = keep_playable(s.drop_last());
        let j = choose|j: int| 0 <= j < r.len() && r[j] == e;
        if playable(s.last()) {
            assert(keep_playable(s)[j] == e);
        }
    }
}

/// Keeping the playable items keeps only items of the tree, and keeps their
/// paths distinct when the tree's are.
pub proof fn lemma_keep_playable_distinct(s: Seq<DiskEntryView>)
    ensures
        forall|x: DiskEntryView| keep_playable(s).contains(x) ==> s.contains(x),
        paths_of(s).no_duplicates() ==> paths_of(keep_playable(s)).no_duplicates(),
    decreases s.len(),
{
    if s.len() > 0 {
        let t = s.drop_last();
        lemma_keep_playable_distinct(t);
        let k = keep_playable(t);
        assert forall|x: DiskEntryView| keep_playable(s).contains(x) implies s.contains(x) by {
            let j = choose|j: int| 0 <= j < keep_playable(s).len() && keep_playable(s)[j] == x;
            if playable(s.last()) {
                assert(keep_playable(s) == k.push(s.last()));
            } else {
                assert(keep_playable(s) == k);
            }
            if j < k.len() {
                assert(k[j] == x);
                assert(k.contains(x));
                assert(t.contains(x));
                let i = choose|i: int| 0 <= i < t.len() && t[i] == x;
                assert(s[i] == x);
            } else {
                assert(x == s.last());
                assert(s[s.len() - 1] == x);
            }
        }
        if paths_of(s).no_duplicates() {
            assert(paths_of(t).no_duplicates()) by {
                assert forall|a: int, b: int| 0 <= a < b < paths_of(t).len() implies paths_of(t)[a]
                    != paths_of(t)[b] by {
                    assert(paths_of(t)[a] == paths_of(s)[a]);
                    assert(paths_of(t)[b] == paths_of(s)[b]);
                }
            }
            if playable(s.last()) {
                let r = keep_playable(s);
                assert(r == k.push(s.last()));
                assert forall|a: int, b: int| 0 <= a < b < paths_of(r).len() implies paths_of(r)[a]
                    != paths_of(r)[b] by {
                    if b == k.len() {
                        let x = k[a];
                        assert(k.contains(x));
                        assert(t.contains(x));
                        let i = choose|i: int| 0 <= i < t.len() && t[i] == x;
                        assert(paths_of(s)[i] == x.path);
                        assert(paths_of(s)[s.len() - 1] == s.last().path);
                        assert(paths_of(r)[a] == x.path);
                        assert(paths_of(r)[b] == s.last().path);
                    } else {
                        assert(paths_of(r)[a] == paths_of(k)[a]);
                        assert(paths_of(r)[b] == paths_of(k)[b]);
                    }
                }
            }
        }
    }
}

/// Each file is on the playlist once when the walk of the tree met each
/// path once.
pub proof fn law_playlist_lists_each_file_once(tree: Seq<DiskEntryView>)
    requires
        paths_of(tree).no_duplicates(),
    ensures
        playlist_spec(tree).no_duplicates(),
{
    broadcast use vstd::seq_lib::group_to_multiset_ensures;

    lemma_keep_playable_distinct(tree);
    let kept = keep_playable(tree);
    law_sort_orders_and_keeps_items(kept);
    let sorted = sort_entries(kept);
    assert(kept.no_duplicates()) by {
        assert forall|a: int, b: int| 0 <= a < b < kept.len() implies kept[a] != kept[b] by {
            assert(paths_of(kept)[a] == kept[a].path);
            assert(paths_of(kept)[b] == kept[b].path);
        }
    }
    kept.lemma_multiset_has_no_duplicates();
    assert forall|x: DiskEntryView| sorted.to_multiset().contains(x) implies sorted.to_multiset().count(x)
        == 1 by {
        assert(kept.to_multiset().contains(x));
    }
    sorted.lemma_multiset_has_no_duplicates_conv();
    assert forall|a: int, b: int| 0 <= a < b < paths_of(sorted).len() implies paths_of(sorted)[a]
        != paths_of(sorted)[b] by {
        let x = sorted[a];
        let y = sorted[b];
        assert(sorted.contains(x));
        assert(sorted.contains(y));
        assert(sorted.to_multiset().count(x) > 0);
        assert(sorted.to_multiset().count(y) > 0);
        assert(kept.contains(x));
        assert(kept.contains(y));
        let i = choose|i: int| 0 <= i < kept.len() && kept[i] == x;
        let j = choose|j: int| 0 <= j < kept.len() && kept[j] == y;
        assert(x != y);
        assert(i != j);
        assert(paths_of(kept)[i] == x.path);
        assert(paths_of(kept)[j] == y.path);
    }
}

// ---------------------------------------------------------------------------
// Open folders show what they hold

/// Every item a listing gives lies below the listed folder: its path is
/// longer than the folder's (as with paths read from disk, which are the
/// folder's path joined with a name).
pub open spec fn listings_nest(snap: SnapshotView) -> bool {
    forall|i: int, j: int|
        0 <= i < snap.listings.len() && snap.listings[i].children is Ok && 0 <= j
            < snap.listings[i].children->Ok_0.len() ==> (#[trigger] snap.listings[i].children->Ok_0[j]).path.len()
            > snap.listings[i].dir.len()
}

/// Some row shows `path` at `depth`.
pub open spec fn row_at(rows: Seq<EntryView>, path: Seq<char>, depth: int) -> bool {
    exists|j: int| 0 <= j < rows.len() && rows[j].path == path && rows[j].depth == depth
}

/// When `dir` was read, each folder and audio file it holds is shown as a
/// row at `depth`.
pub open spec fn lists_children(snap: SnapshotView, dir: Seq<char>, depth: int, rows: Seq<EntryView>) -> bool {
    match find_listing(snap.listings, dir, 0) {
        Some(i) => match snap.listings[i as int].children {
            Ok(ch) => forall|c: DiskEntryView|
                ch.contains(c) && shown(c) ==> #[trigger] row_at(rows, c.path, depth),
            Err(_) => true,
        },
        None => true,
    }
}

/// Each folder row marked open shows, one level deeper, what that folder
/// holds.
pub open spec fn open_rows_complete(snap: SnapshotView, rows: Seq<EntryView>) -> bool {
    forall|i: int|
        0 <= i < rows.len() && (#[trigger] rows[i]).kind == EntryKind::Directory && rows[i].expanded
            ==> lists_children(snap, rows[i].path, rows[i].depth + 1, rows)
}

/// How many of the open folders have a path longer than `l`.
pub open spec fn longer_than(e: Seq<Seq<char>>, l: nat) -> nat
    decreases e.len(),
{
    if e.len() == 0 {
        0
    } else {
        longer_than(e.drop_last(), l) + if e.last().len() > l {
            1nat
        } else {
            0nat
        }
    }
}

proof fn lemma_longer_than_bound(e: Seq<Seq<char>>, l: nat)
    ensures
        longer_than(e, l) <= e.len(),
    decreases e.len(),
{
    if e.len() > 0 {
        lemma_longer_than_bound(e.drop_last(), l);
    }
}

proof fn lemma_longer_than_monotone(e: Seq<Seq<char>>, l1: nat, l2: nat)
    requires
        l1 <= l2,
    ensures
        longer_than(e, l2) <= longer_than(e, l1),
    decreases e.len(),
{
    if e.len() > 0 {
        lemma_longer_than_monotone(e.drop_last(), l1, l2);
    }
}

/// An open folder longer than `l` counts towards `l` but not towards its
/// own length.
proof fn lemma_longer_than_step(e: Seq<Seq<char>>, c: Seq<char>, l: nat)
    requires
        e.contains(c),
        c.len() > l,
    ensures
        longer_than(e, c.len()) + 1 <= longer_than(e, l),
    decreases e.len(),
{
    let t = e.drop_last();
    if e.last() == c {
        lemma_longer_than_monotone(t, l, c.len());
    } else {
        let k = choose|k: int| 0 <= k < e.len() && e[k] == c;
        assert(t[k] == c);
        lemma_longer_than_step(t, c, l);
    }
}

/// Rows laid out inside longer rows at `k` are still found there.
proof fn lemma_rows_embed(s: Seq<EntryView>, t: Seq<EntryView>, k: int)
    requires
        0 <= k,
        k + s.len() <= t.len(),
        forall|i: int| 0 <= i < s.len() ==> t[k + i] == s[i],
    ensures
        forall|p: Seq<char>, d: int| #[trigger] row_at(s, p, d) ==> row_at(t, p, d),
{
    assert forall|p: Seq<char>, d: int| #[trigger] row_at(s, p, d) implies row_at(t, p, d) by {
        let j = choose|j: int| 0 <= j < s.len() && s[j].path == p && s[j].depth == d;
        assert(t[k + j] == s[j]);
    }
}

proof fn lemma_lists_children_embed(
    snap: SnapshotView,
    dir: Seq<char>,
    depth: int,
    s: Seq<EntryView>,
    t: Seq<EntryView>,
    k: int,
)
    requires
        0 <= k,
        k + s.len() <= t.len(),
        forall|i: int| 0 <= i < s.len() ==> t[k + i] == s[i],
        lists_children(snap, dir, depth, s),
    ensures
        lists_children(snap, dir, depth, t),
{
    lemma_rows_embed(s, t, k);
    if let Some(i) = find_listing(snap.listings, dir, 0) {
        if let Ok(ch) = snap.listings[i as int].children {
            assert forall|c: DiskEntryView| ch.contains(c) && shown(c) implies #[trigger] row_at(t, c.path, depth) by {
                assert(row_at(s, c.path, depth));
            }
        }
    }
}

proof fn lemma_keep_shown_items(s: Seq<DiskEntryView>, c: DiskEntryView)
    ensures
        keep_shown(s).contains(c) <==> s.contains(c) && shown(c),
    decreases s.len(),
{
    if s.len() > 0 {
        let t = s.drop_last();
        lemma_keep_shown_items(t, c);
        let r = keep_shown(t);
        if keep_shown(s).contains(c) {
            let j = choose|j: int| 0 <= j < keep_shown(s).len() && keep_shown(s)[j] == c;
            if shown(s.last()) && j == r.len() {
                assert(s[s.len() - 1] == c);
            } else {
                assert(r[j] == c);
                let q = choose|q: int| 0 <= q < t.len() && t[q] == c;
                assert(s[q] == c);
            }
        }
        if s.contains(c) && shown(c) {
            let q = choose|q: int| 0 <= q < s.len() && s[q] == c;
            if q == s.len() - 1 {
                assert(keep_shown(s)[r.len() as int] == c);
            } else {
                assert(t[q] == c);
                let j = choose|j: int| 0 <= j < r.len() && r[j] == c;
                if shown(s.last()) {
                    assert(keep_shown(s)[j] == c);
                }
            }
        }
    }
}

proof fn lemma_collect_complete(
    snap: SnapshotView,
    expanded: Seq<Seq<char>>,
    root: Seq<char>,
    dir: Seq<char>,
    depth: nat,
    fuel: nat,
)
    requires
        listings_nest(snap),
        fuel >= longer_than(expanded, dir.len()),
        depth + fuel <= usize::MAX,
    ensures
        collect(snap, expanded, root, dir, depth, fuel) matches Ok(rows) ==> {
            &&& open_rows_complete(snap, rows)
            &&& lists_children(snap, dir, depth as int, rows)
        },
    decreases fuel, 1nat, 0nat,
{
    lemma_find_listing(snap.listings, dir, 0);
    match find_listing(snap.listings, dir, 0) {
        Some(i) => match snap.listings[i as int].children {
            Ok(ch) => {
                broadcast use vstd::seq_lib::group_to_multiset_ensures;

                let kept = keep_shown(ch);
                let kids = sort_entries(kept);
                law_sort_orders_and_keeps_items(kept);
                assert forall|q: int| 0 <= q < kids.len() implies (#[trigger] kids[q]).path.len() > dir.len() by {
                    assert(kids.to_multiset().count(kids[q]) > 0);
                    lemma_keep_shown_items(ch, kids[q]);
                    let j = choose|j: int| 0 <= j < ch.len() && ch[j] == kids[q];
                    assert(snap.listings[i as int].children->Ok_0[j] == kids[q]);
                }
                lemma_collect_list_complete(snap, expanded, root, kids, kids.len(), depth, fuel, dir.len());
                if let Ok(rows) = collect(snap, expanded, root, dir, depth, fuel) {
                    assert forall|c: DiskEntryView| ch.contains(c) && shown(c) implies #[trigger] row_at(
                        rows,
                        c.path,
                        depth as int,
                    ) by {
                        lemma_keep_shown_items(ch, c);
                        assert(kids.to_multiset().count(c) > 0);
                        let q = choose|q: int| 0 <= q < kids.len() && kids[q] == c;
                        assert(row_at(rows, kids[q].path, depth as int));
                    }
                }
            },
            Err(_) => {},
        },
        None => {},
    }
}

proof fn lemma_collect_list_complete(
    snap: SnapshotView,
    expanded: Seq<Seq<char>>,
    root: Seq<char>,
    kids: Seq<DiskEntryView>,
    n: nat,
    depth: nat,
    fuel: nat,
    l: nat,
)
    requires
        listings_nest(snap),
        n <= kids.len(),
        forall|q: int| 0 <= q < kids.len() ==> (#[trigger] kids[q]).path.len() > l,
        fuel >= longer_than(expanded, l),
        depth + fuel <= usize::MAX,
    ensures
        collect_list(snap, expanded, root, kids, n, depth, fuel) matches Ok(rows) ==> {
            &&& open_rows_complete(snap, rows)
            &&& forall|q: int| 0 <= q < n ==> row_at(rows, (#[trigger] kids[q]).path, depth as int)
        },
    decreases fuel, 0nat, n,
{
    if n == 0 || n > kids.len() {
    } else {
        lemma_collect_list_complete(snap, expanded, root, kids, (n - 1) as nat, depth, fuel, l);
        match collect_list(snap, expanded, root, kids, (n - 1) as nat, depth, fuel) {
            Err(_) => {},
            Ok(pre) => {
                let c = kids[n - 1];
                let row = if c.is_dir {
                    dir_row(c, depth, expanded.contains(c.path))
                } else {
                    file_row(c, depth)
                };
                let head = pre.push(row);
                lemma_rows_embed(pre, head, 0);
                assert(row_at(head, c.path, depth as int)) by {
                    assert(head[pre.len() as int] == row);
                }
                assert forall|i: int|
                    0 <= i < head.len() && (#[trigger] head[i]).kind == EntryKind::Directory && head[i].expanded
                    && i < pre.len() implies lists_children(snap, head[i].path, head[i].depth + 1, head) by {
                    assert(head[i] == pre[i]);
                    lemma_lists_children_embed(snap, pre[i].path, pre[i].depth + 1, pre, head, 0);
                }
                let open = c.is_dir && expanded.contains(c.path);
                if open {
                    lemma_longer_than_step(expanded, c.path, l);
                    lemma_collect_complete(snap, expanded, root, c.path, depth + 1, (fuel - 1) as nat);
                    match collect(snap, expanded, root, c.path, depth + 1, (fuel - 1) as nat) {
                        Err(_) => {},
                        Ok(sub) => {
                            let all = head + sub;
                            assert(collect_list(snap, expanded, root, kids, n, depth, fuel) == Ok::<
                                Seq<EntryView>,
                                BrowserErrorView,
                            >(all));
                            lemma_rows_embed(head, all, 0);
                            lemma_rows_embed(sub, all, head.len() as int);
                            assert forall|i: int|
                                0 <= i < all.len() && (#[trigger] all[i]).kind == EntryKind::Directory
                                    && all[i].expanded implies lists_children(
                                snap,
                                all[i].path,
                                all[i].depth + 1,
                                all,
                            ) by {
                                if i < pre.len() {
                                    assert(all[i] == head[i]);
                                    assert(lists_children(snap, head[i].path, head[i].depth + 1, head));
                                    lemma_lists_children_embed(snap, head[i].path, head[i].depth + 1, head, all, 0);
                                } else if i == pre.len() {
                                    assert(all[i] == row);
                                    lemma_lists_children_embed(
                                        snap,
                                        c.path,
                                        depth + 1 as int,
                                        sub,
                                        all,
                                        head.len() as int,
                                    );
                                } else {
                                    assert(all[i] == sub[i - head.len()]);
                                    lemma_lists_children_embed(
                                        snap,
                                        all[i].path,
                                        all[i].depth + 1,
                                        sub,
                                        all,
                                        head.len() as int,
                                    );
                                }
                            }
                            assert forall|q: int| 0 <= q < n implies row_at(
                                all,
                                (#[trigger] kids[q]).path,
                                depth as int,
                            ) by {
                                if q < n - 1 {
                                    assert(row_at(pre, kids[q].path, depth as int));
                                    assert(row_at(head, kids[q].path, depth as int));
                                } else {
                                    assert(row_at(head, c.path, depth as int));
                                }
                            }
                        },
                    }
                } else {
                    assert(collect_list(snap, expanded, root, kids, n, depth, fuel) == Ok::<
                        Seq<EntryView>,
                        BrowserErrorView,
                    >(head));
                    assert forall|i: int|
                        0 <= i < head.len() && (#[trigger] head[i]).kind == EntryKind::Directory
                            && head[i].expanded implies lists_children(snap, head[i].path, head[i].depth + 1, head) by {
                        if i == pre.len() {
                            assert(head[i] == row);
                        }
                    }
                    assert forall|q: int| 0 <= q < n implies row_at(
                        head,
                        (#[trigger] kids[q]).path,
                        depth as int,
                    ) by {
                        if q < n - 1 {
                            assert(row_at(pre, kids[q].path, depth as int));
                        }
                    }

                }
            },
        }
    }
}

/// After the rows are read again successfully, the root's folders and audio
/// files are rows at depth 0, and every folder row marked open is followed
/// somewhere by rows one level deeper for each folder and audio file it
/// holds, however deep it lies, whenever every listed item lies below its
/// folder.
pub proof fn law_open_folders_show_their_contents(m: BrowserModel, snap: SnapshotView)
    requires
        listings_nest(snap),
        m.expanded.len() <= usize::MAX,
    ensures
        refreshed(m, snap).1 is Ok ==> {
            let rows = refreshed(m, snap).0.entries;
            &&& open_rows_complete(snap, rows)
            &&& lists_children(snap, m.root, 0, rows)
        },
{
    lemma_longer_than_bound(m.expanded, m.root.len());
    lemma_collect_complete(snap, m.expanded, m.root, m.root, 0, m.expanded.len());
}

/// `dir` was read and `path` is one of the folders and audio files it holds.
pub open spec fn holds_item(snap: SnapshotView, dir: Seq<char>, path: Seq<char>) -> bool {
    match find_listing(snap.listings, dir, 0) {
        Some(i) => match snap.listings[i as int].children {
            Ok(ch) => exists|c: DiskEntryView| ch.contains(c) && shown(c) && c.path == path,
            Err(_) => false,
        },
        None => false,
    }
}

/// Row `i` sits under an earlier folder row marked open, one level deeper,
/// and that folder holds it.
pub open spec fn under_open_row(snap: SnapshotView, rows: Seq<EntryView>, i: int) -> bool {
    exists|p: int|
        0 <= p < i && rows[p].kind == EntryKind::Directory && rows[p].expanded && rows[p].depth + 1
            == rows[i].depth && #[trigger] holds_item(snap, rows[p].path, rows[i].path)
}

/// Every row is an item of `dir` at `depth`, or sits under an open folder row.
pub open spec fn rows_placed(snap: SnapshotView, dir: Seq<char>, depth: int, rows: Seq<EntryView>) -> bool {
    forall|i: int|
        0 <= i < rows.len() ==> (rows[i].depth == depth && holds_item(snap, dir, rows[i].path))
            || #[trigger] under_open_row(snap, rows, i)
}

proof fn lemma_under_open_row_embed(snap: SnapshotView, s: Seq<EntryView>, t: Seq<EntryView>, k: int)
    requires
        0 <= k,
        k + s.len() <= t.len(),
        forall|i: int| 0 <= i < s.len() ==> t[k + i] == s[i],
    ensures
        forall|i: int| 0 <= i < s.len() && #[trigger] under_open_row(snap, s, i) ==> under_open_row(snap, t, k + i),
{
    assert forall|i: int| 0 <= i < s.len() && #[trigger] under_open_row(snap, s, i) implies under_open_row(
        snap,
        t,
        k + i,
    ) by {
        let p = choose|p: int|
            0 <= p < i && s[p].kind == EntryKind::Directory && s[p].expanded && s[p].depth + 1 == s[i].depth
                && #[trigger] holds_item(snap, s[p].path, s[i].path);
        assert(t[k + p] == s[p] && t[k + i] == s[i]);
    }
}

proof fn lemma_collect_placed(
    snap: SnapshotView,
    expanded: Seq<Seq<char>>,
    root: Seq<char>,
    dir: Seq<char>,
    depth: nat,
    fuel: nat,
)
    requires
        depth + fuel <= usize::MAX,
    ensures
        collect(snap, expanded, root, dir, depth, fuel) matches Ok(rows) ==> rows_placed(snap, dir, depth as int, rows),
    decreases fuel, 1nat, 0nat,
{
    match find_listing(snap.listings, dir, 0) {
        Some(i) => match snap.listings[i as int].children {
            Ok(ch) => {
                broadcast use vstd::seq_lib::group_to_multiset_ensures;

                let kept = keep_shown(ch);
                let kids = sort_entries(kept);
                law_sort_orders_and_keeps_items(kept);
                lemma_collect_list_placed(snap, expanded, root, kids, kids.len(), depth, fuel);
                if let Ok(rows) = collect(snap, expanded, root, dir, depth, fuel) {
                    assert forall|j: int| 0 <= j < rows.len() implies (rows[j].depth == depth && holds_item(
                        snap,
                        dir,
                        rows[j].path,
                    )) || #[trigger] under_open_row(snap, rows, j) by {
                        if !under_open_row(snap, rows, j) {
                            let q = choose|q: int| 0 <= q < kids.len() && kids[q].path == rows[j].path;
                            assert(kids.to_multiset().count(kids[q]) > 0);
                            lemma_keep_shown_items(ch, kids[q]);
                        }
                    }
                }
            },
            Err(_) => {},
        },
        None => {},
    }
}

proof fn lemma_collect_list_placed(
    snap: SnapshotView,
    expanded: Seq<Seq<char>>,
    root: Seq<char>,
    kids: Seq<DiskEntryView>,
    n: nat,
    depth: nat,
    fuel: nat,
)
    requires
        depth + fuel <= usize::MAX,
    ensures
        collect_list(snap, expanded, root, kids, n, depth, fuel) matches Ok(rows) ==> forall|j: int|
            0 <= j < rows.len() ==> (rows[j].depth == depth && exists|q: int|
                0 <= q < kids.len() && kids[q].path == rows[j].path) || #[trigger] under_open_row(snap, rows, j),
    decreases fuel, 0nat, n,
{
    if n == 0 || n > kids.len() {
    } else {
        lemma_collect_list_placed(snap, expanded, root, kids, (n - 1) as nat, depth, fuel);
        match collect_list(snap, expanded, root, kids, (n - 1) as nat, depth, fuel) {
            Err(_) => {},
            Ok(pre) => {
                let c = kids[n - 1];
                let row = if c.is_dir {
                    dir_row(c, depth, expanded.contains(c.path))
                } else {
                    file_row(c, depth)
                };
                let head = pre.push(row);
                lemma_under_open_row_embed(snap, pre, head, 0);
                assert forall|j: int| 0 <= j < head.len() implies (head[j].depth == depth && exists|q: int|
                    0 <= q < kids.len() && kids[q].path == head[j].path) || #[trigger] under_open_row(
                    snap,
                    head,
                    j,
                ) by {
                    if j < pre.len() {
                        assert(head[j] == pre[j]);
                        assert(0 + j == j);
                        if under_open_row(snap, pre, j) {
                            assert(under_open_row(snap, head, 0 + j));
                        } else {
                            let q = choose|q: int| 0 <= q < kids.len() && kids[q].path == pre[j].path;
                            assert(kids[q].path == head[j].path);
                        }
                    } else {
                        assert(head[j] == row);
                        assert(kids[n - 1].path == head[j].path);
                    }
                }
                if c.is_dir && expanded.contains(c.path) && fuel > 0 {
                    lemma_collect_placed(snap, expanded, root, c.path, depth + 1, (fuel - 1) as nat);
                    match collect(snap, expanded, root, c.path, depth + 1, (fuel - 1) as nat) {
                        Err(_) => {},
                        Ok(sub) => {
                            let all = head + sub;
                            lemma_under_open_row_embed(snap, head, all, 0);
                            lemma_under_open_row_embed(snap, sub, all, head.len() as int);
                            assert forall|j: int| 0 <= j < all.len() implies (all[j].depth == depth && exists|q: int|
                                0 <= q < kids.len() && kids[q].path == all[j].path) || #[trigger] under_open_row(
                                snap,
                                all,
                                j,
                            ) by {
                                if j < head.len() {
                                    assert(all[j] == head[j]);
                                    assert(0 + j == j);
                                    if !under_open_row(snap, head, j) {
                                        let q = choose|q: int| 0 <= q < kids.len() && kids[q].path == head[j].path;
                                        assert(kids[q].path == all[j].path);
                                    }
                                } else {
                                    let x = j - head.len();
                                    assert(all[j] == sub[x]);
                                    assert(head.len() + x == j);
                                    if !under_open_row(snap, sub, x) {
                                        let p = pre.len() as int;
                                        assert(all[p] == row);
                                        assert(holds_item(snap, all[p].path, all[j].path));
                                    }
                                }
                            }
                        },
                    }
                }
            },
        }
    }
}

/// After the rows are read again successfully, every row is a folder or
/// audio file of the root at depth 0, or one of an open folder shown on an
/// earlier row, one level deeper than that row.
pub proof fn law_rows_come_from_open_folders(m: BrowserModel, snap: SnapshotView)
    requires
        m.expanded.len() <= usize::MAX,
    ensures
        refreshed(m, snap).1 is Ok ==> rows_placed(snap, m.root, 0, refreshed(m, snap).0.entries),
{
    lemma_collect_placed(snap, m.expanded, m.root, m.root, 0, m.expanded.len());
}

} // verus!
