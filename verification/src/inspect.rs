//! The single-file check of a file against its baseline entry.
//!
//! Unlike the differ it reports at most one anomaly, the first in a fixed
//! order: presence in the baseline, presence on disk, mode, owner, group, and
//! the content last.

use vstd::prelude::*;
use vstd::string::*;
use crate::anomaly::{
    number_anomaly, plain_anomaly, reason_anomaly, text_anomaly, AnomalyKind, AnomalyRecord,
    AnomalyView,
};
use crate::differ::{find_entry, index_of, is_anomaly, lookup};
use crate::model::{entry_views, EntryView, FileIntegrityEntry, MODE_MASK};
use crate::scanner::{relative_path, relative_to, FileStat};

verus! {

/// What was found of a file when it was looked at.
#[derive(Debug, PartialEq, Eq)]
pub enum LiveFile {
    /// Its metadata could not be read; the reason is kept.
    Missing { reason: String },
    /// Its metadata was read. `digest` is the digest of its content, or the
    /// reason why the content could not be hashed.
    Present { stat: FileStat, digest: Result<String, String> },
}

/// What was found of a file, as mathematical values.
pub enum LiveFileView {
    Missing { reason: Seq<char> },
    Present { stat: FileStat, digest: Result<Seq<char>, Seq<char>> },
}

/// The view of a digest, or of the reason why there is none.
pub open spec fn digest_view(digest: Result<String, String>) -> Result<Seq<char>, Seq<char>> {
    match digest {
        Ok(d) => Ok(d@),
        Err(reason) => Err(reason@),
    }
}

impl View for LiveFile {
    type V = LiveFileView;

    open spec fn view(&self) -> LiveFileView {
        match self {
            LiveFile::Missing { reason } => LiveFileView::Missing { reason: reason@ },
            LiveFile::Present { stat, digest } => LiveFileView::Present {
                stat: *stat,
                digest: digest_view(*digest),
            },
        }
    }
}

/// What is still to be done for a file whose metadata was compared.
#[derive(Debug, PartialEq, Eq)]
pub enum AttributeCheck {
    /// The check is over: this is its anomaly.
    Anomaly(AnomalyRecord),
    /// Mode, owner and group agree with the entry at this index of the
    /// baseline; the content is to be hashed and compared.
    NeedsDigest(usize),
}

/// The first attribute, in the order mode, owner, group, in which the file
/// deviates from its entry.
pub open spec fn attribute_anomaly(entry: EntryView, path: Seq<char>, stat: FileStat) -> Option<AnomalyView> {
    if stat.mode & MODE_MASK != entry.mode {
        Some(number_anomaly(AnomalyKind::PermissionChanged, path, entry.mode, stat.mode & MODE_MASK))
    } else if stat.uid != entry.uid {
        Some(number_anomaly(AnomalyKind::UidChanged, path, entry.uid, stat.uid))
    } else if stat.gid != entry.gid {
        Some(number_anomaly(AnomalyKind::GidChanged, path, entry.gid, stat.gid))
    } else {
        None
    }
}

/// The anomaly that the content gives, once the attributes agree.
pub open spec fn digest_anomaly(
    entry: EntryView,
    path: Seq<char>,
    digest: Result<Seq<char>, Seq<char>>,
) -> Option<AnomalyView> {
    match digest {
        Err(reason) => Some(reason_anomaly(AnomalyKind::HashError, path, reason)),
        Ok(d) => if d != entry.sha512 {
            Some(text_anomaly(AnomalyKind::Modified, path, entry.sha512, d))
        } else {
            None
        },
    }
}

/// The anomaly of the file at `path`, a path as the baseline keys it.
pub open spec fn verdict(baseline: Seq<EntryView>, path: Seq<char>, live: LiveFileView) -> Option<AnomalyView> {
    match lookup(baseline, path) {
        None => Some(plain_anomaly(AnomalyKind::Added, path)),
        Some(entry) => match live {
            LiveFileView::Missing { reason } => Some(
                reason_anomaly(AnomalyKind::Deleted, path, reason),
            ),
            LiveFileView::Present { stat, digest } => match attribute_anomaly(entry, path, stat) {
                Some(a) => Some(a),
                None => digest_anomaly(entry, path, digest),
            },
        },
    }
}

/// The view of an anomaly that may be absent.
pub open spec fn verdict_view(r: Option<AnomalyRecord>) -> Option<AnomalyView> {
    match r {
        Some(a) => Some(a@),
        None => None,
    }
}

/// Compares what does not need the content: whether the baseline knows the
/// path, whether the file is there, and its mode, owner and group.
pub fn check_attributes(path: &String, baseline: &Vec<FileIntegrityEntry>, stat: &Result<FileStat, String>) -> (r: AttributeCheck)
    ensures
        match r {
            AttributeCheck::Anomaly(a) => match lookup(entry_views(baseline@), path@) {
                None => a@ == plain_anomaly(AnomalyKind::Added, path@),
                Some(entry) => match stat {
                    Err(reason) => a@ == reason_anomaly(AnomalyKind::Deleted, path@, reason@),
                    Ok(st) => attribute_anomaly(entry, path@, *st) == Some(a@),
                },
            },
            AttributeCheck::NeedsDigest(i) => {
                &&& index_of(entry_views(baseline@), path@) == Some(i as int)
                &&& i < baseline@.len()
                &&& stat matches Ok(st)
                &&& attribute_anomaly(baseline[i as int]@, path@, *st) is None
            },
        },
{
    match find_entry(baseline, path) {
        None => AttributeCheck::Anomaly(AnomalyRecord::plain(AnomalyKind::Added, path)),
        Some(i) => {
            let entry = &baseline[i];
            assert(entry_views(baseline@)[i as int] == entry@);
            match stat {
                Err(reason) => AttributeCheck::Anomaly(
                    AnomalyRecord::with_reason(AnomalyKind::Deleted, path, reason),
                ),
                Ok(st) => {
                    let mode = st.mode & MODE_MASK;
                    if mode != entry.mode {
                        AttributeCheck::Anomaly(
                            AnomalyRecord::of_number(
                                AnomalyKind::PermissionChanged,
                                path,
                                entry.mode,
                                mode,
                            ),
                        )
                    } else if st.uid != entry.uid {
                        AttributeCheck::Anomaly(
                            AnomalyRecord::of_number(AnomalyKind::UidChanged, path, entry.uid, st.uid),
                        )
                    } else if st.gid != entry.gid {
                        AttributeCheck::Anomaly(
                            AnomalyRecord::of_number(AnomalyKind::GidChanged, path, entry.gid, st.gid),
                        )
                    } else {
                        AttributeCheck::NeedsDigest(i)
                    }
                },
            }
        },
    }
}

/// Compares the content of a file whose attributes agree with its entry.
pub fn check_digest(entry: &FileIntegrityEntry, path: &String, digest: &Result<String, String>) -> (r: Option<AnomalyRecord>)
    ensures
        verdict_view(r) == digest_anomaly(entry@, path@, digest_view(*digest)),
{
    match digest {
        Err(reason) => Some(AnomalyRecord::with_reason(AnomalyKind::HashError, path, reason)),
        Ok(d) => {
            if !(*d == entry.sha512) {
                Some(AnomalyRecord::of_text(AnomalyKind::Modified, path, &entry.sha512, d))
            } else {
                None
            }
        },
    }
}

/// What reading the metadata of a file gave: the metadata, or the reason why
/// there is none.
pub fn stat_of(live: &LiveFile) -> (r: Result<FileStat, String>)
    ensures
        match live {
            LiveFile::Missing { reason } => r is Err && r->Err_0@ == reason@,
            LiveFile::Present { stat, .. } => r == Ok::<FileStat, String>(*stat),
        },
{
    match live {
        LiveFile::Missing { reason } => Err(reason.clone()),
        LiveFile::Present { stat, .. } => Ok(*stat),
    }
}

/// Checks one file, given by the path that keys it in the baseline.
///
/// Returns the first anomaly in the fixed order, and nothing where the file
/// agrees with its entry in mode, owner, group and content. It is the check
/// of the attributes, followed by that of the content where they agree.
pub fn verify_entry(path: &String, baseline: &Vec<FileIntegrityEntry>, live: &LiveFile) -> (r: Option<AnomalyRecord>)
    ensures
        verdict_view(r) == verdict(entry_views(baseline@), path@, live@),
{
    match check_attributes(path, baseline, &stat_of(live)) {
        AttributeCheck::Anomaly(a) => Some(a),
        AttributeCheck::NeedsDigest(i) => {
            assert(entry_views(baseline@)[i as int] == baseline[i as int]@);
            match live {
                LiveFile::Present { digest, .. } => check_digest(&baseline[i], path, digest),
                LiveFile::Missing { reason } => Some(
                    AnomalyRecord::with_reason(AnomalyKind::Deleted, path, reason),
                ),
            }
        },
    }
}

/// The text of the filesystem root, against which watched paths are keyed.
pub open spec fn root_text() -> Seq<char> {
    seq!['/']
}

/// Checks the file that an event names by its absolute path.
pub fn verify_file(path: &str, baseline: &Vec<FileIntegrityEntry>, live: &LiveFile) -> (r: Option<AnomalyRecord>)
    ensures
        verdict_view(r) == verdict(entry_views(baseline@), relative_to(path@, root_text()), live@),
{
    proof {
        reveal_strlit("/");
        assert("/"@ =~= root_text());
    }
    let key = relative_path(path, "/");
    verify_entry(&key, baseline, live)
}

/// A file whose permission bits and content both deviate gives one anomaly
/// in the single-file check, `PermissionChanged`, where the differ gives two
/// for the same path, `PermissionChanged` and `Modified`.
pub proof fn single_check_reports_first_mismatch_only(
    baseline: Seq<EntryView>,
    current: Seq<EntryView>,
    path: Seq<char>,
    stat: FileStat,
    digest: Seq<char>,
    a: AnomalyView,
)
    requires
        lookup(baseline, path) is Some,
        lookup(current, path) is Some,
        lookup(current, path)->0.mode == stat.mode & MODE_MASK,
        lookup(current, path)->0.uid == stat.uid,
        lookup(current, path)->0.gid == stat.gid,
        lookup(current, path)->0.sha512 == digest,
        stat.mode & MODE_MASK != lookup(baseline, path)->0.mode,
        stat.uid == lookup(baseline, path)->0.uid,
        stat.gid == lookup(baseline, path)->0.gid,
        digest != lookup(baseline, path)->0.sha512,
        a.path == path,
    ensures
        verdict(baseline, path, LiveFileView::Present { stat, digest: Ok(digest) }) == Some(
            number_anomaly(
                AnomalyKind::PermissionChanged,
                path,
                lookup(baseline, path)->0.mode,
                stat.mode & MODE_MASK,
            ),
        ),
        is_anomaly(baseline, current, a) <==> (a == number_anomaly(
            AnomalyKind::PermissionChanged,
            path,
            lookup(baseline, path)->0.mode,
            stat.mode & MODE_MASK,
        ) || a == text_anomaly(
            AnomalyKind::Modified,
            path,
            lookup(baseline, path)->0.sha512,
            digest,
        )),
{
}

/// A deviation in mode, owner or group hides whatever the content would
/// give: the single-file check returns the attribute's anomaly alone.
pub proof fn attribute_mismatch_hides_content(
    baseline: Seq<EntryView>,
    entry: EntryView,
    path: Seq<char>,
    stat: FileStat,
    digest: Result<Seq<char>, Seq<char>>,
)
    requires
        lookup(baseline, path) == Some(entry),
        attribute_anomaly(entry, path, stat) is Some,
    ensures
        verdict(baseline, path, LiveFileView::Present { stat, digest }) == attribute_anomaly(
            entry,
            path,
            stat,
        ),
{
}

} // verus!
