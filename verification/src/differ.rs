//! The differ: every deviation of a scanned tree from a baseline.
//!
//! Both sides are lists of entries that are read as maps from path to entry;
//! where a path stands twice, the later entry counts.

use vstd::prelude::*;
use crate::anomaly::{
    anomaly_views, number_anomaly, plain_anomaly, text_anomaly, AnomalyKind, AnomalyRecord,
    AnomalyView,
};
use crate::model::{entry_views, Baseline, EntryView, FileIntegrityEntry};

verus! {

/// The index of the entry that counts for `path`: the last one with that path.
pub open spec fn index_of(entries: Seq<EntryView>, path: Seq<char>) -> Option<int>
    decreases entries.len(),
{
    if entries.len() == 0 {
        None
    } else if entries.last().path == path {
        Some(entries.len() - 1)
    } else {
        index_of(entries.drop_last(), path)
    }
}

/// The entry that counts for `path`, if there is one.
pub open spec fn lookup(entries: Seq<EntryView>, path: Seq<char>) -> Option<EntryView> {
    match index_of(entries, path) {
        Some(i) => Some(entries[i]),
        None => None,
    }
}

/// `index_of` gives the last index with the path, and nothing only where no
/// entry has the path.
pub proof fn index_of_is_last(entries: Seq<EntryView>, path: Seq<char>)
    ensures
        match index_of(entries, path) {
            Some(i) => {
                &&& 0 <= i < entries.len()
                &&& entries[i].path == path
                &&& forall|j: int| i < j < entries.len() ==> (#[trigger] entries[j]).path != path
            },
            None => forall|j: int| 0 <= j < entries.len() ==> (#[trigger] entries[j]).path != path,
        },
    decreases entries.len(),
{
    if entries.len() > 0 && entries.last().path != path {
        let rest = entries.drop_last();
        index_of_is_last(rest, path);
        assert forall|j: int| 0 <= j < rest.len() implies rest[j] == entries[j] by {}
        match index_of(rest, path) {
            Some(i) => {
                assert forall|j: int| i < j < entries.len() implies (#[trigger] entries[j]).path
                    != path by {
                    if j < rest.len() {
                        assert(rest[j].path != path);
                    }
                }
            },
            None => {
                assert forall|j: int| 0 <= j < entries.len() implies (#[trigger] entries[j]).path
                    != path by {
                    if j < rest.len() {
                        assert(rest[j].path != path);
                    }
                }
            },
        }
    }
}

/// The last index with a path is what `index_of` gives.
pub proof fn last_is_index_of(entries: Seq<EntryView>, path: Seq<char>, i: int)
    requires
        0 <= i < entries.len(),
        entries[i].path == path,
        forall|j: int| i < j < entries.len() ==> (#[trigger] entries[j]).path != path,
    ensures
        index_of(entries, path) == Some(i),
{
    index_of_is_last(entries, path);
}

/// Whether entry `i` is the one that counts for its path.
pub open spec fn counts_at(entries: Seq<EntryView>, i: int) -> bool {
    0 <= i < entries.len() && index_of(entries, entries[i].path) == Some(i)
}

/// Those of the first `n` entries that count for their path, in order: the
/// list read as a map, with every path once.
pub open spec fn last_per_path(entries: Seq<EntryView>, n: int) -> Seq<EntryView>
    decreases n,
{
    if n <= 0 {
        Seq::empty()
    } else if counts_at(entries, n - 1) {
        last_per_path(entries, n - 1).push(entries[n - 1])
    } else {
        last_per_path(entries, n - 1)
    }
}

/// Every entry that is kept is one that counts for its path.
pub proof fn last_per_path_sources(entries: Seq<EntryView>, n: int, k: int)
    requires
        0 <= n <= entries.len(),
        0 <= k < last_per_path(entries, n).len(),
    ensures
        exists|i: int| i < n && #[trigger] counts_at(entries, i) && last_per_path(entries, n)[k] == entries[i],
    decreases n,
{
    if n > 0 {
        let rest = last_per_path(entries, n - 1);
        if k < rest.len() {
            last_per_path_sources(entries, n - 1, k);
            let i = choose|i: int| i < n - 1 && #[trigger] counts_at(entries, i) && rest[k] == entries[i];
            assert(counts_at(entries, i));
        } else {
            assert(counts_at(entries, n - 1));
        }
    }
}

/// No path stands twice among the entries that are kept.
pub proof fn last_per_path_is_distinct(entries: Seq<EntryView>, n: int, k1: int, k2: int)
    requires
        0 <= n <= entries.len(),
        0 <= k1 < k2 < last_per_path(entries, n).len(),
    ensures
        last_per_path(entries, n)[k1].path != last_per_path(entries, n)[k2].path,
    decreases n,
{
    if n > 0 {
        let rest = last_per_path(entries, n - 1);
        if k2 < rest.len() {
            last_per_path_is_distinct(entries, n - 1, k1, k2);
        } else {
            last_per_path_sources(entries, n - 1, k1);
            let i = choose|i: int| i < n - 1 && #[trigger] counts_at(entries, i) && rest[k1] == entries[i];
            assert(counts_at(entries, n - 1));
        }
    }
}

/// Keeping the last entry of each path changes nothing for a reader that
/// looks entries up by path: among the first `n`, every path still leads to
/// the entry that counts for it.
pub proof fn last_per_path_keeps_lookup(entries: Seq<EntryView>, n: int, path: Seq<char>)
    requires
        0 <= n <= entries.len(),
    ensures
        lookup(last_per_path(entries, n), path) == (match index_of(entries, path) {
            Some(i) => if i < n {
                Some(entries[i])
            } else {
                None
            },
            None => None,
        }),
    decreases n,
{
    index_of_is_last(entries, path);
    if n > 0 {
        let rest = last_per_path(entries, n - 1);
        last_per_path_keeps_lookup(entries, n - 1, path);
        if counts_at(entries, n - 1) {
            let kept = rest.push(entries[n - 1]);
            assert(kept.drop_last() =~= rest);
            assert(kept.last() == entries[n - 1]);
            if entries[n - 1].path != path {
                index_of_is_last(rest, path);
                match index_of(rest, path) {
                    Some(k) => {
                        assert(kept[k] == rest[k]);
                    },
                    None => {},
                }
            }
        }
    }
}

/// Read as a map from path to entry, a list and its last entries per path
/// are the same.
pub proof fn last_per_path_is_same_map(entries: Seq<EntryView>, path: Seq<char>)
    ensures
        lookup(last_per_path(entries, entries.len() as int), path) == lookup(entries, path),
{
    index_of_is_last(entries, path);
    last_per_path_keeps_lookup(entries, entries.len() as int, path);
}

/// Whether `a` is a deviation of `current` from `baseline`.
///
/// A path on both sides gives one anomaly for each attribute that differs; a
/// path only in the baseline gives `Deleted`, one only in the current state
/// `Added`.
pub open spec fn is_anomaly(baseline: Seq<EntryView>, current: Seq<EntryView>, a: AnomalyView) -> bool {
    let recorded = lookup(baseline, a.path);
    let found = lookup(current, a.path);
    match a.kind {
        AnomalyKind::Modified => recorded is Some && found is Some && recorded->0.sha512
            != found->0.sha512 && a == text_anomaly(
            a.kind,
            a.path,
            recorded->0.sha512,
            found->0.sha512,
        ),
        AnomalyKind::PermissionChanged => recorded is Some && found is Some && recorded->0.mode
            != found->0.mode && a == number_anomaly(
            a.kind,
            a.path,
            recorded->0.mode,
            found->0.mode,
        ),
        AnomalyKind::UidChanged => recorded is Some && found is Some && recorded->0.uid
            != found->0.uid && a == number_anomaly(a.kind, a.path, recorded->0.uid, found->0.uid),
        AnomalyKind::GidChanged => recorded is Some && found is Some && recorded->0.gid
            != found->0.gid && a == number_anomaly(a.kind, a.path, recorded->0.gid, found->0.gid),
        AnomalyKind::Deleted => recorded is Some && found is None && a == plain_anomaly(
            a.kind,
            a.path,
        ),
        AnomalyKind::Added => recorded is None && found is Some && a == plain_anomaly(
            a.kind,
            a.path,
        ),
        AnomalyKind::HashError => false,
    }
}

/// Finds the entry that counts for `path`.
pub fn find_entry(entries: &Vec<FileIntegrityEntry>, path: &String) -> (r: Option<usize>)
    ensures
        match r {
            Some(i) => index_of(entry_views(entries@), path@) == Some(i as int) && i
                < entries@.len(),
            None => index_of(entry_views(entries@), path@) is None,
        },
{
    let ghost views = entry_views(entries@);
    let mut found: Option<usize> = None;
    let mut i: usize = 0;
    while i < entries.len()
        invariant
            i <= entries.len(),
            views == entry_views(entries@),
            match found {
                Some(k) => {
                    &&& k < i
                    &&& views[k as int].path == path@
                    &&& forall|j: int| k < j < i ==> (#[trigger] views[j]).path != path@
                },
                None => forall|j: int| 0 <= j < i ==> (#[trigger] views[j]).path != path@,
            },
        decreases entries.len() - i,
    {
        assert(views[i as int] == entries[i as int]@);
        if entries[i].path == *path {
            found = Some(i);
        }
        i += 1;
    }
    proof {
        index_of_is_last(views, path@);
        match found {
            Some(k) => {
                last_is_index_of(views, path@, k as int);
            },
            None => {},
        }
    }
    found
}

/// Keeps of each path the entry that counts for it, in the order of the list.
pub fn keep_last_per_path(entries: &Vec<FileIntegrityEntry>) -> (r: Vec<FileIntegrityEntry>)
    ensures
        entry_views(r@) == last_per_path(entry_views(entries@), entries@.len() as int),
{
    let ghost views = entry_views(entries@);
    let mut out: Vec<FileIntegrityEntry> = Vec::new();
    let mut i: usize = 0;
    while i < entries.len()
        invariant
            i <= entries.len(),
            views == entry_views(entries@),
            entry_views(out@) == last_per_path(views, i as int),
        decreases entries.len() - i,
    {
        let ghost before = entry_views(out@);
        assert(views[i as int] == entries[i as int]@);
        let counts = match find_entry(entries, &entries[i].path) {
            Some(k) => k == i,
            None => false,
        };
        if counts {
            out.push(entries[i].clone());
            assert(entry_views(out@) =~= before.push(views[i as int]));
        }
        i += 1;
    }
    out
}

/// Adds a record that the list does not hold yet.
fn push_anomaly(out: &mut Vec<AnomalyRecord>, record: AnomalyRecord)
    requires
        anomaly_views(old(out)@).no_duplicates(),
        !anomaly_views(old(out)@).contains(record@),
    ensures
        anomaly_views(final(out)@) == anomaly_views(old(out)@).push(record@),
        anomaly_views(final(out)@).no_duplicates(),
        forall|a: AnomalyView| #[trigger]
            anomaly_views(final(out)@).contains(a) <==> (anomaly_views(old(out)@).contains(a) || a
                == record@),
{
    let ghost before = anomaly_views(out@);
    let ghost added = record@;
    out.push(record);
    let ghost after = anomaly_views(out@);
    assert(after =~= before.push(added));
    assert forall|a: AnomalyView| #[trigger] after.contains(a) <==> (before.contains(a) || a == added) by {
        if after.contains(a) {
            let k = choose|k: int| 0 <= k < after.len() && after[k] == a;
            if k < before.len() {
                assert(before[k] == a);
            }
        }
        if before.contains(a) {
            let k = choose|k: int| 0 <= k < before.len() && before[k] == a;
            assert(after[k] == a);
        }
        if a == added {
            assert(after[before.len() as int] == a);
        }
    }
    assert forall|k1: int, k2: int| 0 <= k1 < after.len() && 0 <= k2 < after.len() && k1 != k2 implies after[k1] != after[k2] by {
        if k1 < before.len() && k2 < before.len() {
            assert(before[k1] != before[k2]);
        } else if k1 < before.len() {
            assert(before[k1] == after[k1]);
        } else if k2 < before.len() {
            assert(before[k2] == after[k2]);
        }
    }
}

/// Whether `a` is about a path of the baseline whose entry stands before `i`.
pub open spec fn recorded_before(baseline: Seq<EntryView>, a: AnomalyView, i: int) -> bool {
    a.kind != AnomalyKind::Added && index_of(baseline, a.path) is Some && index_of(
        baseline,
        a.path,
    )->0 < i
}

/// Whether `a` is not about an added file, or about one whose entry stands
/// before `i` in the current state.
pub open spec fn found_before(current: Seq<EntryView>, a: AnomalyView, i: int) -> bool {
    a.kind != AnomalyKind::Added || (index_of(current, a.path) is Some && index_of(
        current,
        a.path,
    )->0 < i)
}

/// Compares a scanned tree with a baseline.
///
/// The result holds each deviation once and nothing else; its order carries
/// no meaning.
pub fn compare_filesystems(baseline: &Baseline, current: &Vec<FileIntegrityEntry>) -> (r: Vec<
    AnomalyRecord,
>)
    ensures
        anomaly_views(r@).no_duplicates(),
        forall|a: AnomalyView|
            #![trigger anomaly_views(r@).contains(a)]
            #![trigger is_anomaly(baseline@.entries, entry_views(current@), a)]
            anomaly_views(r@).contains(a) <==> is_anomaly(
                baseline@.entries,
                entry_views(current@),
                a,
            ),
{
    let ghost b = entry_views(baseline.entries@);
    let ghost c = entry_views(current@);
    let mut out: Vec<AnomalyRecord> = Vec::new();
    assert forall|a: AnomalyView| !recorded_before(b, a, 0) by {
        index_of_is_last(b, a.path);
    }
    let mut i: usize = 0;
    while i < baseline.entries.len()
        invariant
            i <= baseline.entries.len(),
            b == entry_views(baseline.entries@),
            c == entry_views(current@),
            anomaly_views(out@).no_duplicates(),
            forall|a: AnomalyView|
                #![trigger anomaly_views(out@).contains(a)]
                #![trigger is_anomaly(b, c, a)]
                anomaly_views(out@).contains(a) <==> (is_anomaly(b, c, a) && recorded_before(
                    b,
                    a,
                    i as int,
                )),
        decreases baseline.entries.len() - i,
    {
        let entry = &baseline.entries[i];
        let ghost p = entry.path@;
        let ghost next: int = i + 1;
        let ghost start = anomaly_views(out@);
        assert(b[i as int] == entry@);
        let counts = match find_entry(&baseline.entries, &entry.path) {
            Some(k) => k == i,
            None => false,
        };
        if counts {
            assert(lookup(b, p) == Some(b[i as int]));
            match find_entry(current, &entry.path) {
                Some(k) => {
                    let live = &current[k];
                    assert(c[k as int] == live@);
                    assert(lookup(c, p) == Some(c[k as int]));
                    if !(live.sha512 == entry.sha512) {
                        let rec = AnomalyRecord::of_text(
                            AnomalyKind::Modified,
                            &entry.path,
                            &entry.sha512,
                            &live.sha512,
                        );
                        push_anomaly(&mut out, rec);
                    }
                    if live.mode != entry.mode {
                        let rec = AnomalyRecord::of_number(
                            AnomalyKind::PermissionChanged,
                            &entry.path,
                            entry.mode,
                            live.mode,
                        );
                        push_anomaly(&mut out, rec);
                    }
                    if live.uid != entry.uid {
                        let rec = AnomalyRecord::of_number(
                            AnomalyKind::UidChanged,
                            &entry.path,
                            entry.uid,
                            live.uid,
                        );
                        push_anomaly(&mut out, rec);
                    }
                    if live.gid != entry.gid {
                        let rec = AnomalyRecord::of_number(
                            AnomalyKind::GidChanged,
                            &entry.path,
                            entry.gid,
                            live.gid,
                        );
                        push_anomaly(&mut out, rec);
                    }
                },
                None => {
                    assert(lookup(c, p) is None);
                    let rec = AnomalyRecord::plain(AnomalyKind::Deleted, &entry.path);
                    push_anomaly(&mut out, rec);
                },
            }
        }
        assert forall|a: AnomalyView|
            #![trigger anomaly_views(out@).contains(a)]
            #![trigger is_anomaly(b, c, a)]
            anomaly_views(out@).contains(a) <==> (is_anomaly(b, c, a) && recorded_before(
                b,
                a,
                next,
            )) by {
            index_of_is_last(b, a.path);
            assert(start.contains(a) <==> (is_anomaly(b, c, a) && recorded_before(b, a, i as int)));
        }
        i += 1;
    }
    assert forall|a: AnomalyView|
        #![trigger anomaly_views(out@).contains(a)]
        #![trigger is_anomaly(b, c, a)]
        anomaly_views(out@).contains(a) <==> (is_anomaly(b, c, a) && found_before(c, a, 0)) by {
        index_of_is_last(b, a.path);
        index_of_is_last(c, a.path);
    }
    let mut i: usize = 0;
    while i < current.len()
        invariant
            i <= current.len(),
            b == entry_views(baseline.entries@),
            c == entry_views(current@),
            anomaly_views(out@).no_duplicates(),
            forall|a: AnomalyView|
                #![trigger anomaly_views(out@).contains(a)]
                #![trigger is_anomaly(b, c, a)]
                anomaly_views(out@).contains(a) <==> (is_anomaly(b, c, a) && found_before(
                    c,
                    a,
                    i as int,
                )),
        decreases current.len() - i,
    {
        let entry = &current[i];
        let ghost p = entry.path@;
        let ghost next: int = i + 1;
        let ghost start = anomaly_views(out@);
        assert(c[i as int] == entry@);
        let counts = match find_entry(current, &entry.path) {
            Some(k) => k == i,
            None => false,
        };
        if counts {
            match find_entry(&baseline.entries, &entry.path) {
                Some(_) => {},
                None => {
                    let rec = AnomalyRecord::plain(AnomalyKind::Added, &entry.path);
                    push_anomaly(&mut out, rec);
                },
            }
        }
        assert forall|a: AnomalyView|
            #![trigger anomaly_views(out@).contains(a)]
            #![trigger is_anomaly(b, c, a)]
            anomaly_views(out@).contains(a) <==> (is_anomaly(b, c, a) && found_before(
                c,
                a,
                next,
            )) by {
            index_of_is_last(c, a.path);
            assert(start.contains(a) <==> (is_anomaly(b, c, a) && found_before(c, a, i as int)));
        }
        i += 1;
    }
    assert forall|a: AnomalyView|
        #![trigger anomaly_views(out@).contains(a)]
        #![trigger is_anomaly(b, c, a)]
        anomaly_views(out@).contains(a) <==> is_anomaly(b, c, a) by {
        index_of_is_last(c, a.path);
    }
    out
}

/// Which entry counts for a path depends on the paths alone, not on what the
/// entries record.
pub proof fn index_of_follows_paths(first: Seq<EntryView>, second: Seq<EntryView>, path: Seq<char>)
    requires
        first.len() == second.len(),
        forall|j: int| 0 <= j < first.len() ==> (#[trigger] first[j]).path == second[j].path,
    ensures
        index_of(first, path) == index_of(second, path),
{
    index_of_is_last(first, path);
    index_of_is_last(second, path);
    match index_of(first, path) {
        Some(i) => {
            assert forall|j: int| i < j < second.len() implies (#[trigger] second[j]).path
                != path by {
                assert(first[j].path != path);
            }
            last_is_index_of(second, path, i);
        },
        None => {
            if index_of(second, path) is Some {
                let k = index_of(second, path)->0;
                assert(first[k].path != path);
            }
        },
    }
}

/// A current state that holds exactly the entries of the baseline shows no
/// anomaly.
pub proof fn matching_state_has_no_anomaly(baseline: Seq<EntryView>, a: AnomalyView)
    ensures
        !is_anomaly(baseline, baseline, a),
{
}

/// Where the content of one file changed and nothing else, the one anomaly
/// is `Modified` for its path. The file is one whose entry counts for its
/// path, that is, no later entry of the baseline has the same path.
pub proof fn content_change_is_one_modified(baseline: Seq<EntryView>, i: int, digest: Seq<char>, a: AnomalyView)
    requires
        0 <= i < baseline.len(),
        index_of(baseline, baseline[i].path) == Some(i),
        digest != baseline[i].sha512,
    ensures
        is_anomaly(
            baseline,
            baseline.update(i, EntryView { sha512: digest, ..baseline[i] }),
            a,
        ) <==> a == text_anomaly(
            AnomalyKind::Modified,
            baseline[i].path,
            baseline[i].sha512,
            digest,
        ),
{
    let current = baseline.update(i, EntryView { sha512: digest, ..baseline[i] });
    index_of_follows_paths(baseline, current, a.path);
    index_of_is_last(baseline, a.path);
}

/// Where one file is gone from the current state and nothing else changed,
/// the one anomaly is `Deleted` for its path. The file is one whose path
/// stands once in the baseline.
pub proof fn removal_is_one_deleted(baseline: Seq<EntryView>, i: int, a: AnomalyView)
    requires
        0 <= i < baseline.len(),
        forall|j: int| 0 <= j < baseline.len() && j != i ==> (#[trigger] baseline[j]).path != baseline[i].path,
    ensures
        is_anomaly(baseline, baseline.remove(i), a) <==> a == plain_anomaly(
            AnomalyKind::Deleted,
            baseline[i].path,
        ),
{
    let current = baseline.remove(i);
    index_of_is_last(baseline, a.path);
    index_of_is_last(current, a.path);
    assert forall|j: int| 0 <= j < current.len() implies #[trigger] current[j] == (if j < i {
        baseline[j]
    } else {
        baseline[j + 1]
    }) by {}
    if a.path == baseline[i].path {
        last_is_index_of(baseline, a.path, i);
        if index_of(current, a.path) is Some {
            let k = index_of(current, a.path)->0;
            assert(current[k].path == a.path);
            if k < i {
                assert(baseline[k].path != baseline[i].path);
            } else {
                assert(baseline[k + 1].path != baseline[i].path);
            }
        }
    } else {
        match index_of(baseline, a.path) {
            Some(k) => {
                let m = if k < i {
                    k
                } else {
                    k - 1
                };
                assert(current[m] == baseline[k]);
                assert forall|j: int| m < j < current.len() implies (#[trigger] current[j]).path
                    != a.path by {
                    if j < i {
                        assert(baseline[j].path != a.path);
                    } else {
                        assert(baseline[j + 1].path != a.path);
                    }
                }
                last_is_index_of(current, a.path, m);
            },
            None => {
                if index_of(current, a.path) is Some {
                    let k = index_of(current, a.path)->0;
                    if k < i {
                        assert(baseline[k].path != a.path);
                    } else {
                        assert(baseline[k + 1].path != a.path);
                    }
                }
            },
        }
    }
}

/// Where one file that the baseline does not know is added to the current
/// state and nothing else changed, the one anomaly is `Added` for its path.
pub proof fn addition_is_one_added(baseline: Seq<EntryView>, entry: EntryView, a: AnomalyView)
    requires
        index_of(baseline, entry.path) is None,
    ensures
        is_anomaly(baseline, baseline.push(entry), a) <==> a == plain_anomaly(
            AnomalyKind::Added,
            entry.path,
        ),
{
    let current = baseline.push(entry);
    assert(current.drop_last() =~= baseline);
    assert(current.last() == entry);
    index_of_is_last(baseline, a.path);
    if a.path != entry.path {
        match index_of(baseline, a.path) {
            Some(k) => {
                assert(current[k] == baseline[k]);
            },
            None => {},
        }
    }
}

} // verus!
