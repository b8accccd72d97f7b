//! The scanner: which items of a tree walk become entries of a baseline.
//!
//! A walk is the list of what a pre-order traversal met, each item with its
//! depth below the root. The scanner leaves out every subtree under an
//! excluded directory, everything that is not a regular file, and every file
//! that could not be read; a failure of the traversal itself ends the scan.
//! Where two files come to the same relative path, the later one is recorded.

use vstd::prelude::*;
use vstd::string::*;
use crate::differ::{
    keep_last_per_path, last_per_path, last_per_path_is_distinct, last_per_path_sources, counts_at,
};
use crate::digest::{
    encode_digest, hex_of_digest_is_digest_text, hex_text, is_digest_text, DIGEST_LEN,
};
use crate::model::{
    entry_views, Baseline, EntryView, ErrorView, FileIntegrityEntry, IntegrityError, MODE_MASK,
};

verus! {

/// What kind of filesystem object an item is.
#[derive(Debug, Clone, Copy, PartialEq, Eq)]
pub enum FileKind {
    Directory,
    /// A regular file: the only kind that is recorded.
    Regular,
    /// A symbolic link, whatever it leads to. Links are not followed and not
    /// recorded.
    Symlink,
    BlockDevice,
    CharDevice,
    Fifo,
    Socket,
}

impl FileKind {
    /// Whether objects of this kind are recorded: regular files alone.
    pub open spec fn is_recorded(self) -> bool {
        self == FileKind::Regular
    }

    /// Whether objects of this kind are recorded, so that their metadata and
    /// content are worth reading.
    pub fn needs_reading(&self) -> (r: bool)
        ensures
            r == self.is_recorded(),
    {
        match self {
            FileKind::Regular => true,
            _ => false,
        }
    }
}

/// The metadata that is read of a file: its raw mode, owner and group.
#[derive(Debug, Clone, Copy, PartialEq, Eq)]
pub struct FileStat {
    pub mode: u32,
    pub uid: u32,
    pub gid: u32,
}

/// One step of a pre-order walk of a tree.
#[derive(Debug, PartialEq, Eq)]
pub enum WalkItem {
    /// The traversal could not go on here.
    Failure { depth: usize, message: String },
    /// A filesystem object. `stat` is its metadata and `digest` the raw
    /// SHA-512 digest of its content; either is absent where reading it
    /// failed, or where it was not read at all.
    Entry { path: String, depth: usize, kind: FileKind, stat: Option<FileStat>, digest: Option<Vec<u8>> },
}

/// One step of a walk as mathematical values.
pub enum WalkItemView {
    Failure { depth: nat, message: Seq<char> },
    Entry { path: Seq<char>, depth: nat, kind: FileKind, stat: Option<FileStat>, digest: Option<Seq<u8>> },
}

impl View for WalkItem {
    type V = WalkItemView;

    open spec fn view(&self) -> WalkItemView {
        match self {
            WalkItem::Failure { depth, message } => WalkItemView::Failure {
                depth: *depth as nat,
                message: message@,
            },
            WalkItem::Entry { path, depth, kind, stat, digest } => WalkItemView::Entry {
                path: path@,
                depth: *depth as nat,
                kind: *kind,
                stat: *stat,
                digest: match digest {
                    Some(d) => Some(d@),
                    None => None,
                },
            },
        }
    }
}

impl WalkItemView {
    /// The item's depth below the root of the walk.
    pub open spec fn depth_of(self) -> nat {
        match self {
            WalkItemView::Failure { depth, .. } => depth,
            WalkItemView::Entry { depth, .. } => depth,
        }
    }
}

/// The views of the items of a walk, in the same order.
pub open spec fn walk_views(walk: Seq<WalkItem>) -> Seq<WalkItemView> {
    Seq::new(walk.len(), |i: int| walk[i]@)
}

/// The views of a list of texts, in the same order.
pub open spec fn text_views(texts: Seq<String>) -> Seq<Seq<char>> {
    Seq::new(texts.len(), |i: int| texts[i]@)
}

/// What `std::path::Path::strip_prefix` gives for a path and a base, both
/// written as text: the rest of the path, or nothing where the base does not
/// lead to it.
pub uninterp spec fn path_without_prefix(path: Seq<char>, base: Seq<char>) -> Option<Seq<char>>;

/// Whether `path` begins with one of the prefixes.
pub open spec fn matches_exclusion(path: Seq<char>, exclusions: Seq<Seq<char>>) -> bool {
    exists|k: int| 0 <= k < exclusions.len() && (#[trigger] exclusions[k]).is_prefix_of(path)
}

/// Whether an object of this kind at this path is left out of a walk: a
/// directory under an excluded prefix, and whatever is neither a directory
/// nor a regular file.
pub open spec fn excluded(path: Seq<char>, kind: FileKind, exclusions: Seq<Seq<char>>) -> bool {
    match kind {
        FileKind::Directory => matches_exclusion(path, exclusions),
        FileKind::Regular => false,
        FileKind::Symlink | FileKind::BlockDevice | FileKind::CharDevice | FileKind::Fifo | FileKind::Socket => true,
    }
}

/// Whether an item is an excluded directory, whose whole subtree is left out.
pub open spec fn heads_excluded_subtree(item: WalkItemView, exclusions: Seq<Seq<char>>) -> bool {
    match item {
        WalkItemView::Entry { path, kind, .. } => kind == FileKind::Directory && matches_exclusion(
            path,
            exclusions,
        ),
        WalkItemView::Failure { .. } => false,
    }
}

/// Whether item `j` is an excluded directory and every item after it and
/// before `i` lies deeper than it, that is, inside it.
pub open spec fn reaches(walk: Seq<WalkItemView>, exclusions: Seq<Seq<char>>, j: int, i: int) -> bool {
    &&& 0 <= j < i <= walk.len()
    &&& heads_excluded_subtree(walk[j], exclusions)
    &&& forall|k: int| j < k < i ==> (#[trigger] walk[k]).depth_of() > walk[j].depth_of()
}

/// Whether item `i` lies in the subtree of an excluded directory.
pub open spec fn pruned(walk: Seq<WalkItemView>, exclusions: Seq<Seq<char>>, i: int) -> bool {
    exists|j: int| j < i && #[trigger] reaches(walk, exclusions, j, i + 1)
}

/// The path of a file as a baseline records it: relative to the root where the
/// root leads to it, unchanged where it does not.
pub open spec fn relative_to(path: Seq<char>, root: Seq<char>) -> Seq<char> {
    match path_without_prefix(path, root) {
        Some(rest) => rest,
        None => path,
    }
}

/// Whether item `i` gives an entry: a regular file outside every excluded
/// subtree, with a path below the root, whose metadata was read and whose
/// digest was read in full.
pub open spec fn emits(walk: Seq<WalkItemView>, root: Seq<char>, exclusions: Seq<Seq<char>>, i: int) -> bool {
    &&& 0 <= i < walk.len()
    &&& !pruned(walk, exclusions, i)
    &&& match walk[i] {
        WalkItemView::Entry { path, kind, stat, digest, .. } => {
            &&& kind.is_recorded()
            &&& relative_to(path, root).len() > 0
            &&& stat is Some
            &&& digest matches Some(raw)
            &&& raw.len() == DIGEST_LEN
        },
        WalkItemView::Failure { .. } => false,
    }
}

/// The entry that an item becomes.
pub open spec fn entry_of(item: WalkItemView, root: Seq<char>) -> EntryView {
    match item {
        WalkItemView::Entry { path, stat: Some(stat), digest: Some(digest), .. } => EntryView {
            path: relative_to(path, root),
            sha512: hex_text(digest),
            mode: stat.mode & MODE_MASK,
            uid: stat.uid,
            gid: stat.gid,
        },
        _ => arbitrary(),
    }
}

/// The entries of the first `n` items of a walk, in the order of the walk.
pub open spec fn scanned(walk: Seq<WalkItemView>, root: Seq<char>, exclusions: Seq<Seq<char>>, n: int) -> Seq<
    EntryView,
>
    decreases n,
{
    if n <= 0 {
        Seq::empty()
    } else if emits(walk, root, exclusions, n - 1) {
        scanned(walk, root, exclusions, n - 1).push(entry_of(walk[n - 1], root))
    } else {
        scanned(walk, root, exclusions, n - 1)
    }
}

/// What a scan of the whole walk records: of the entries that the items
/// give, the last one for each path, in the order of the walk.
pub open spec fn recorded(walk: Seq<WalkItemView>, root: Seq<char>, exclusions: Seq<Seq<char>>) -> Seq<
    EntryView,
> {
    let all = scanned(walk, root, exclusions, walk.len() as int);
    last_per_path(all, all.len() as int)
}

/// Whether item `i` is a failure of the traversal that the scan meets.
pub open spec fn fatal_at(walk: Seq<WalkItemView>, exclusions: Seq<Seq<char>>, i: int) -> bool {
    &&& 0 <= i < walk.len()
    &&& walk[i] is Failure
    &&& !pruned(walk, exclusions, i)
}

/// The prefixes that are excluded where nothing else is configured.
pub fn default_exclusions() -> (r: Vec<String>)
    ensures
        r@.len() == 7,
        r[0]@ == "/proc"@,
        r[1]@ == "/sys"@,
        r[2]@ == "/dev"@,
        r[3]@ == "/run"@,
        r[4]@ == "/tmp"@,
        r[5]@ == "/var/tmp"@,
        r[6]@ == "/var/log"@,
{
    let mut r: Vec<String> = Vec::new();
    r.push(String::from_str("/proc"));
    r.push(String::from_str("/sys"));
    r.push(String::from_str("/dev"));
    r.push(String::from_str("/run"));
    r.push(String::from_str("/tmp"));
    r.push(String::from_str("/var/tmp"));
    r.push(String::from_str("/var/log"));
    r
}

/// Calls `str::starts_with` with a string as the pattern. Trusted: the result
/// says whether `prefix` is a prefix of `text`.
#[verifier::external_body]
fn starts_with(text: &str, prefix: &str) -> (r: bool)
    ensures
        r == prefix@.is_prefix_of(text@),
{
    text.starts_with(prefix)
}

/// Calls `std::path::Path::strip_prefix` on paths given as text, and writes
/// the rest as text again. Trusted: the result is a function of the two texts.
#[verifier::external_body]
fn strip_path_prefix(path: &str, base: &str) -> (r: Option<String>)
    ensures
        match r {
            Some(rest) => path_without_prefix(path@, base@) == Some(rest@),
            None => path_without_prefix(path@, base@) is None,
        },
{
    match std::path::Path::new(path).strip_prefix(base) {
        Ok(rest) => Some(rest.to_string_lossy().into_owned()),
        Err(_) => None,
    }
}

/// The path of a file relative to the root of its scan.
pub fn relative_path(path: &str, root: &str) -> (r: String)
    ensures
        r@ == relative_to(path@, root@),
{
    match strip_path_prefix(path, root) {
        Some(rest) => rest,
        None => String::from_str(path),
    }
}

/// Whether `path` begins with one of the excluded prefixes.
pub fn under_exclusion(path: &str, exclusions: &Vec<String>) -> (r: bool)
    ensures
        r == matches_exclusion(path@, text_views(exclusions@)),
{
    let ghost prefixes = text_views(exclusions@);
    let mut k: usize = 0;
    while k < exclusions.len()
        invariant
            k <= exclusions.len(),
            prefixes == text_views(exclusions@),
            forall|j: int| 0 <= j < k ==> !(#[trigger] prefixes[j]).is_prefix_of(path@),
        decreases exclusions.len() - k,
    {
        assert(prefixes[k as int] == exclusions[k as int]@);
        if starts_with(path, exclusions[k].as_str()) {
            return true;
        }
        k += 1;
    }
    false
}

/// Whether the walk leaves an object out: an excluded directory, with all
/// below it, or anything that is neither a directory nor a regular file.
pub fn should_exclude(path: &str, kind: FileKind, exclusions: &Vec<String>) -> (r: bool)
    ensures
        r == excluded(path@, kind, text_views(exclusions@)),
{
    match kind {
        FileKind::Directory => under_exclusion(path, exclusions),
        FileKind::Regular => false,
        FileKind::Symlink | FileKind::BlockDevice | FileKind::CharDevice | FileKind::Fifo | FileKind::Socket => true,
    }
}

/// Turns a walk into the entries of a baseline.
///
/// The result is `recorded`: the entry of every item that `emits` admits, in
/// the order of the walk, with every path once. Where the walk holds a
/// failure outside the excluded subtrees, the scan fails with the message of
/// the first such failure.
pub fn scan_filesystem(root: &str, walk: &Vec<WalkItem>, exclusions: &Vec<String>) -> (r: Result<
    Vec<FileIntegrityEntry>,
    IntegrityError,
>)
    ensures
        match r {
            Ok(entries) => {
                &&& forall|i: int| !fatal_at(walk_views(walk@), text_views(exclusions@), i)
                &&& entry_views(entries@) == recorded(
                    walk_views(walk@),
                    root@,
                    text_views(exclusions@),
                )
                &&& forall|k1: int, k2: int|
                    0 <= k1 < k2 < entries@.len() ==> entries[k1].path@ != entries[k2].path@
            },
            Err(e) => exists|i: int|
                {
                    &&& #[trigger] fatal_at(walk_views(walk@), text_views(exclusions@), i)
                    &&& forall|j: int|
                        0 <= j < i ==> !fatal_at(walk_views(walk@), text_views(exclusions@), j)
                    &&& walk_views(walk@)[i] matches WalkItemView::Failure { message, .. }
                    &&& e@ == ErrorView::Walkdir(message)
                },
        },
{
    let ghost w = walk_views(walk@);
    let ghost prefixes = text_views(exclusions@);
    let mut entries: Vec<FileIntegrityEntry> = Vec::new();
    let mut skip: Option<usize> = None;
    let ghost mut head: int = 0;
    let mut i: usize = 0;
    while i < walk.len()
        invariant
            i <= walk.len(),
            w == walk_views(walk@),
            prefixes == text_views(exclusions@),
            forall|j: int| 0 <= j < i ==> !fatal_at(w, prefixes, j),
            entry_views(entries@) == scanned(w, root@, prefixes, i as int),
            match skip {
                Some(d) => {
                    &&& reaches(w, prefixes, head, i as int)
                    &&& w[head].depth_of() == d
                    &&& !pruned(w, prefixes, head)
                },
                None => forall|j: int| !reaches(w, prefixes, j, i as int),
            },
        decreases walk.len() - i,
    {
        assert(w[i as int] == walk[i as int]@);
        let depth = match &walk[i] {
            WalkItem::Failure { depth, .. } => *depth,
            WalkItem::Entry { depth, .. } => *depth,
        };
        let inside = match skip {
            Some(d) => depth > d,
            None => false,
        };
        let ghost before = entry_views(entries@);
        let ghost next: int = i + 1;
        if inside {
            assert(reaches(w, prefixes, head, next));
            assert(pruned(w, prefixes, i as int));
        } else {
            assert forall|j: int| j < i implies !reaches(w, prefixes, j, next) by {
                if reaches(w, prefixes, j, next) {
                    assert(reaches(w, prefixes, j, i as int));
                    if skip is Some {
                        if j < head {
                            assert(reaches(w, prefixes, j, head + 1));
                        } else if j > head {
                            assert(w[j].depth_of() > w[head].depth_of());
                            assert(w[i as int].depth_of() > w[j].depth_of());
                        }
                    }
                }
            }
            assert(!pruned(w, prefixes, i as int));
            skip = None;
            match &walk[i] {
                WalkItem::Failure { message, .. } => {
                    assert(fatal_at(w, prefixes, i as int));
                    return Err(IntegrityError::Walkdir(message.clone()));
                },
                WalkItem::Entry { path, kind, stat, digest, .. } => {
                    match kind {
                        FileKind::Directory => {
                            if under_exclusion(path.as_str(), exclusions) {
                                skip = Some(depth);
                                proof {
                                    head = i as int;
                                }
                                assert(reaches(w, prefixes, head, next));
                            }
                        },
                        FileKind::Regular => {
                            let rel = relative_path(path.as_str(), root);
                            if !rel.as_str().is_empty() {
                                match (stat, digest) {
                                    (Some(st), Some(raw)) => {
                                        if raw.len() == DIGEST_LEN {
                                            entries.push(
                                                FileIntegrityEntry {
                                                    path: rel,
                                                    sha512: encode_digest(raw.as_slice()),
                                                    mode: st.mode & MODE_MASK,
                                                    uid: st.uid,
                                                    gid: st.gid,
                                                },
                                            );
                                            assert(emits(w, root@, prefixes, i as int));
                                            assert(entry_views(entries@) =~= before.push(
                                                entry_of(w[i as int], root@),
                                            ));
                                        }
                                    },
                                    _ => {},
                                }
                            }
                        },
                        _ => {},
                    }
                },
            }
        }
        i += 1;
    }
    let kept = keep_last_per_path(&entries);
    proof {
        let all = entry_views(entries@);
        assert forall|k1: int, k2: int| 0 <= k1 < k2 < kept@.len() implies kept[k1].path@
            != kept[k2].path@ by {
            last_per_path_is_distinct(all, all.len() as int, k1, k2);
            assert(entry_views(kept@)[k1] == kept[k1]@);
            assert(entry_views(kept@)[k2] == kept[k2]@);
        }
    }
    Ok(kept)
}

/// Calls `chrono::Utc::now` and `DateTime::to_rfc3339`: the time of the call
/// as text. Nothing is claimed of the result, which differs from call to call.
#[verifier::external_body]
fn current_timestamp() -> (r: String) {
    chrono::Utc::now().to_rfc3339()
}

/// Puts the entries of a scan under the name of their image and the time of
/// the scan.
pub fn make_baseline(image_id: &str, timestamp: String, entries: Vec<FileIntegrityEntry>) -> (r: Baseline)
    ensures
        r.image_id@ == image_id@,
        r.timestamp == timestamp,
        r.entries == entries,
{
    Baseline { image_id: String::from_str(image_id), timestamp, entries }
}

/// Scans a walk into a new baseline of the image, stamped with the time of
/// the call. It fails as `scan_filesystem` does, and holds what that returns.
pub fn scan_baseline(root: &str, image_id: &str, walk: &Vec<WalkItem>, exclusions: &Vec<String>) -> (r: Result<
    Baseline,
    IntegrityError,
>)
    ensures
        match r {
            Ok(b) => {
                &&& forall|i: int| !fatal_at(walk_views(walk@), text_views(exclusions@), i)
                &&& b.image_id@ == image_id@
                &&& b@.entries == recorded(walk_views(walk@), root@, text_views(exclusions@))
            },
            Err(e) => exists|i: int|
                {
                    &&& #[trigger] fatal_at(walk_views(walk@), text_views(exclusions@), i)
                    &&& forall|j: int|
                        0 <= j < i ==> !fatal_at(walk_views(walk@), text_views(exclusions@), j)
                    &&& walk_views(walk@)[i] matches WalkItemView::Failure { message, .. }
                    &&& e@ == ErrorView::Walkdir(message)
                },
        },
{
    match scan_filesystem(root, walk, exclusions) {
        Ok(entries) => Ok(make_baseline(image_id, current_timestamp(), entries)),
        Err(e) => Err(e),
    }
}

/// Every entry that the items of a walk give comes from a regular file in
/// no subtree of an excluded directory, has a path and a mode of twelve
/// bits, and a digest of 128 lowercase hex digits.
pub proof fn scanned_entries_are_eligible(
    walk: Seq<WalkItemView>,
    root: Seq<char>,
    exclusions: Seq<Seq<char>>,
    n: int,
    k: int,
)
    requires
        0 <= n <= walk.len(),
        0 <= k < scanned(walk, root, exclusions, n).len(),
    ensures
        exists|i: int|
            {
                &&& 0 <= i < n
                &&& #[trigger] emits(walk, root, exclusions, i)
                &&& scanned(walk, root, exclusions, n)[k] == entry_of(walk[i], root)
                &&& !pruned(walk, exclusions, i)
                &&& walk[i] matches WalkItemView::Entry { kind, .. }
                &&& kind == FileKind::Regular
            },
        scanned(walk, root, exclusions, n)[k].path.len() > 0,
        scanned(walk, root, exclusions, n)[k].mode <= MODE_MASK,
        is_digest_text(scanned(walk, root, exclusions, n)[k].sha512),
    decreases n,
{
    if n > 0 {
        assert forall|m: u32| m & 0o7777 <= 0o7777 by {
            assert(m & 0o7777 <= 0o7777) by (bit_vector);
        }
        let rest = scanned(walk, root, exclusions, n - 1);
        if k < rest.len() {
            scanned_entries_are_eligible(walk, root, exclusions, n - 1, k);
            let i = choose|i: int|
                {
                    &&& 0 <= i < n - 1
                    &&& #[trigger] emits(walk, root, exclusions, i)
                    &&& rest[k] == entry_of(walk[i], root)
                };
            assert(emits(walk, root, exclusions, i));
        } else {
            assert(emits(walk, root, exclusions, n - 1));
            match walk[n - 1] {
                WalkItemView::Entry { digest: Some(raw), .. } => {
                    hex_of_digest_is_digest_text(raw);
                },
                _ => {},
            }
        }
    }
}

/// Every entry of a scan comes from an item of the walk that is a regular
/// file and lies in no subtree of an excluded directory. So nothing below an
/// excluded prefix, and no directory, link, device, pipe or socket, is ever
/// recorded. Every entry has a path, a mode of twelve bits, and a digest of
/// 128 lowercase hex digits.
pub proof fn recorded_entries_are_eligible(
    walk: Seq<WalkItemView>,
    root: Seq<char>,
    exclusions: Seq<Seq<char>>,
    k: int,
)
    requires
        0 <= k < recorded(walk, root, exclusions).len(),
    ensures
        exists|i: int|
            {
                &&& #[trigger] emits(walk, root, exclusions, i)
                &&& recorded(walk, root, exclusions)[k] == entry_of(walk[i], root)
                &&& !pruned(walk, exclusions, i)
                &&& walk[i] matches WalkItemView::Entry { kind, .. }
                &&& kind == FileKind::Regular
            },
        recorded(walk, root, exclusions)[k].path.len() > 0,
        recorded(walk, root, exclusions)[k].mode <= MODE_MASK,
        is_digest_text(recorded(walk, root, exclusions)[k].sha512),
{
    let all = scanned(walk, root, exclusions, walk.len() as int);
    last_per_path_sources(all, all.len() as int, k);
    let m = choose|m: int|
        m < all.len() && #[trigger] counts_at(all, m) && recorded(walk, root, exclusions)[k]
            == all[m];
    scanned_entries_are_eligible(walk, root, exclusions, walk.len() as int, m);
    let i = choose|i: int|
        {
            &&& 0 <= i < walk.len()
            &&& #[trigger] emits(walk, root, exclusions, i)
            &&& all[m] == entry_of(walk[i], root)
        };
    assert(emits(walk, root, exclusions, i));
}

/// No path stands twice in what a scan records.
pub proof fn recorded_paths_are_distinct(
    walk: Seq<WalkItemView>,
    root: Seq<char>,
    exclusions: Seq<Seq<char>>,
    k1: int,
    k2: int,
)
    requires
        0 <= k1 < k2 < recorded(walk, root, exclusions).len(),
    ensures
        recorded(walk, root, exclusions)[k1].path != recorded(walk, root, exclusions)[k2].path,
{
    let all = scanned(walk, root, exclusions, walk.len() as int);
    last_per_path_is_distinct(all, all.len() as int, k1, k2);
}

/// What a scan returns depends on the walk, the root and the exclusions
/// alone: two scans of the same walk give the same entries.
pub proof fn scan_is_repeatable(
    first: Seq<WalkItemView>,
    second: Seq<WalkItemView>,
    root: Seq<char>,
    exclusions: Seq<Seq<char>>,
)
    requires
        first == second,
    ensures
        recorded(first, root, exclusions) == recorded(second, root, exclusions),
{
}

} // verus!
