//! The recorded fingerprint of one file, the baseline of an image, and the
//! errors a run can end with.

use vstd::prelude::*;
use vstd::string::*;
use crate::text::{decimal_digits, decimal_text, octal_digits, octal_text};

verus! {

/// The permission bits that are kept of a file's mode: the low twelve.
pub const MODE_MASK: u32 = 0o7777;

/// The security-relevant fingerprint of one regular file.
#[derive(Debug, PartialEq, Eq)]
pub struct FileIntegrityEntry {
    /// Path relative to the scan root; the key of the entry within a baseline.
    pub path: String,
    /// Lowercase hex of the SHA-512 digest of the file's content.
    pub sha512: String,
    /// Permission bits.
    pub mode: u32,
    /// Owner.
    pub uid: u32,
    /// Group.
    pub gid: u32,
}

/// What an entry says, as mathematical values.
pub struct EntryView {
    pub path: Seq<char>,
    pub sha512: Seq<char>,
    pub mode: u32,
    pub uid: u32,
    pub gid: u32,
}

impl View for FileIntegrityEntry {
    type V = EntryView;

    open spec fn view(&self) -> EntryView {
        EntryView {
            path: self.path@,
            sha512: self.sha512@,
            mode: self.mode,
            uid: self.uid,
            gid: self.gid,
        }
    }
}

/// The views of a sequence of entries, in the same order.
pub open spec fn entry_views(entries: Seq<FileIntegrityEntry>) -> Seq<EntryView> {
    Seq::new(entries.len(), |i: int| entries[i]@)
}

/// The one-line rendering of an entry.
pub open spec fn entry_text(e: EntryView) -> Seq<char> {
    "FileIntegrityEntry { path: "@ + e.path + ", sha512: "@ + e.sha512 + ", mode: "@
        + octal_digits(e.mode as nat) + ", uid: "@ + decimal_digits(e.uid as nat) + ", gid: "@
        + decimal_digits(e.gid as nat) + " }"@
}

impl Clone for FileIntegrityEntry {
    fn clone(&self) -> (r: Self)
        ensures
            r@ == self@,
    {
        FileIntegrityEntry {
            path: self.path.clone(),
            sha512: self.sha512.clone(),
            mode: self.mode,
            uid: self.uid,
            gid: self.gid,
        }
    }
}

impl FileIntegrityEntry {
    /// Renders the entry on one line, the mode in octal.
    pub fn to_string(&self) -> (r: String)
        ensures
            r@ == entry_text(self@),
    {
        let mut r = String::from_str("FileIntegrityEntry { path: ");
        r.append(self.path.as_str());
        r.append(", sha512: ");
        r.append(self.sha512.as_str());
        r.append(", mode: ");
        r.append(octal_text(self.mode as u64).as_str());
        r.append(", uid: ");
        r.append(decimal_text(self.uid as u64).as_str());
        r.append(", gid: ");
        r.append(decimal_text(self.gid as u64).as_str());
        r.append(" }");
        r
    }
}

/// The recorded state of one golden image.
#[derive(Debug, PartialEq, Eq)]
pub struct Baseline {
    /// Identifier of the image.
    pub image_id: String,
    /// Creation time, ISO 8601.
    pub timestamp: String,
    /// One entry per file, in the order the scan met them.
    pub entries: Vec<FileIntegrityEntry>,
}

/// What a baseline says, as mathematical values.
pub struct BaselineView {
    pub image_id: Seq<char>,
    pub timestamp: Seq<char>,
    pub entries: Seq<EntryView>,
}

impl View for Baseline {
    type V = BaselineView;

    open spec fn view(&self) -> BaselineView {
        BaselineView {
            image_id: self.image_id@,
            timestamp: self.timestamp@,
            entries: entry_views(self.entries@),
        }
    }
}

/// The one-line rendering of a baseline: its identity and the number of entries.
pub open spec fn baseline_text(b: BaselineView) -> Seq<char> {
    "Baseline { image_id: "@ + b.image_id + ", timestamp: "@ + b.timestamp + ", entries: "@
        + decimal_digits(b.entries.len()) + " files }"@
}

/// Copies a list of entries.
pub fn clone_entries(entries: &Vec<FileIntegrityEntry>) -> (r: Vec<FileIntegrityEntry>)
    ensures
        entry_views(r@) == entry_views(entries@),
{
    let mut r: Vec<FileIntegrityEntry> = Vec::new();
    let mut i: usize = 0;
    while i < entries.len()
        invariant
            i <= entries.len(),
            r.len() == i,
            forall|k: int| 0 <= k < i ==> r[k]@ == entries[k]@,
        decreases entries.len() - i,
    {
        r.push(entries[i].clone());
        i += 1;
    }
    assert(entry_views(r@) =~= entry_views(entries@));
    r
}

impl Clone for Baseline {
    fn clone(&self) -> (r: Self)
        ensures
            r@ == self@,
    {
        Baseline {
            image_id: self.image_id.clone(),
            timestamp: self.timestamp.clone(),
            entries: clone_entries(&self.entries),
        }
    }
}

impl Baseline {
    /// Renders the baseline on one line.
    pub fn to_string(&self) -> (r: String)
        ensures
            r@ == baseline_text(self@),
    {
        let mut r = String::from_str("Baseline { image_id: ");
        r.append(self.image_id.as_str());
        r.append(", timestamp: ");
        r.append(self.timestamp.as_str());
        r.append(", entries: ");
        r.append(decimal_text(self.entries.len() as u64).as_str());
        r.append(" files }");
        r
    }
}

/// How a run of the integrity system fails.
#[derive(Debug, PartialEq, Eq)]
pub enum IntegrityError {
    /// A filesystem access failed.
    Io(String),
    /// A baseline payload was malformed.
    Serde(String),
    /// The traversal of the tree failed.
    Walkdir(String),
    /// The store holds no baseline of that image.
    BaselineNotFound(String),
    /// The store could not be reached or answered with a failure.
    Storage(String),
}

/// What an error says, as mathematical values.
pub enum ErrorView {
    Io(Seq<char>),
    Serde(Seq<char>),
    Walkdir(Seq<char>),
    BaselineNotFound(Seq<char>),
    Storage(Seq<char>),
}

impl View for IntegrityError {
    type V = ErrorView;

    open spec fn view(&self) -> ErrorView {
        match self {
            IntegrityError::Io(m) => ErrorView::Io(m@),
            IntegrityError::Serde(m) => ErrorView::Serde(m@),
            IntegrityError::Walkdir(m) => ErrorView::Walkdir(m@),
            IntegrityError::BaselineNotFound(m) => ErrorView::BaselineNotFound(m@),
            IntegrityError::Storage(m) => ErrorView::Storage(m@),
        }
    }
}

/// The message of an error: what kind it is, then its cause.
pub open spec fn error_text(e: ErrorView) -> Seq<char> {
    match e {
        ErrorView::Io(m) => "IO error: "@ + m,
        ErrorView::Serde(m) => "Serialization error: "@ + m,
        ErrorView::Walkdir(m) => "Walkdir error: "@ + m,
        ErrorView::BaselineNotFound(m) => "Baseline not found: "@ + m,
        ErrorView::Storage(m) => "Storage error: "@ + m,
    }
}

impl IntegrityError {
    /// The message of the error.
    pub fn to_string(&self) -> (r: String)
        ensures
            r@ == error_text(self@),
    {
        match self {
            IntegrityError::Io(m) => String::from_str("IO error: ").concat(m.as_str()),
            IntegrityError::Serde(m) => String::from_str("Serialization error: ").concat(
                m.as_str(),
            ),
            IntegrityError::Walkdir(m) => String::from_str("Walkdir error: ").concat(m.as_str()),
            IntegrityError::BaselineNotFound(m) => String::from_str("Baseline not found: ").concat(
                m.as_str(),
            ),
            IntegrityError::Storage(m) => String::from_str("Storage error: ").concat(m.as_str()),
        }
    }
}

} // verus!
