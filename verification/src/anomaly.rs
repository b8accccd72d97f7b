//! Anomalies: the deviations of a live tree from its baseline, by attribute.

use vstd::prelude::*;
use vstd::string::*;
use crate::text::{decimal_digits, decimal_text, octal_digits, octal_text};

verus! {

/// What deviates.
#[derive(Debug, Clone, Copy, PartialEq, Eq)]
pub enum AnomalyKind {
    /// The content digest differs.
    Modified,
    /// The permission bits differ.
    PermissionChanged,
    /// The owner differs.
    UidChanged,
    /// The group differs.
    GidChanged,
    /// The file is recorded and no longer there.
    Deleted,
    /// The file is there and not recorded.
    Added,
    /// The content could not be read for hashing.
    HashError,
}

/// A value shown with an anomaly: a digest or a reason, or a number.
#[derive(Debug, PartialEq, Eq)]
pub enum AnomalyValue {
    Text(String),
    Number(u32),
}

/// An anomaly value as mathematical values.
pub enum ValueView {
    Text(Seq<char>),
    Number(u32),
}

impl View for AnomalyValue {
    type V = ValueView;

    open spec fn view(&self) -> ValueView {
        match self {
            AnomalyValue::Text(t) => ValueView::Text(t@),
            AnomalyValue::Number(n) => ValueView::Number(*n),
        }
    }
}

/// The view of a value that may be absent.
pub open spec fn value_view(v: Option<AnomalyValue>) -> Option<ValueView> {
    match v {
        Some(v) => Some(v@),
        None => None,
    }
}

/// One detected deviation.
#[derive(Debug, PartialEq, Eq)]
pub struct AnomalyRecord {
    pub kind: AnomalyKind,
    /// The path of the file, as the baseline keys it.
    pub path: String,
    /// What the baseline records, where the anomaly is about a value.
    pub expected: Option<AnomalyValue>,
    /// What was found, or why nothing was.
    pub actual: Option<AnomalyValue>,
}

/// An anomaly as mathematical values.
pub struct AnomalyView {
    pub kind: AnomalyKind,
    pub path: Seq<char>,
    pub expected: Option<ValueView>,
    pub actual: Option<ValueView>,
}

impl View for AnomalyRecord {
    type V = AnomalyView;

    open spec fn view(&self) -> AnomalyView {
        AnomalyView {
            kind: self.kind,
            path: self.path@,
            expected: value_view(self.expected),
            actual: value_view(self.actual),
        }
    }
}

/// The views of a sequence of anomalies, in the same order.
pub open spec fn anomaly_views(records: Seq<AnomalyRecord>) -> Seq<AnomalyView> {
    Seq::new(records.len(), |i: int| records[i]@)
}

/// An anomaly about a text value: what was recorded and what was found.
pub open spec fn text_anomaly(kind: AnomalyKind, path: Seq<char>, expected: Seq<char>, actual: Seq<char>) -> AnomalyView {
    AnomalyView {
        kind,
        path,
        expected: Some(ValueView::Text(expected)),
        actual: Some(ValueView::Text(actual)),
    }
}

/// An anomaly about a number: what was recorded and what was found.
pub open spec fn number_anomaly(kind: AnomalyKind, path: Seq<char>, expected: u32, actual: u32) -> AnomalyView {
    AnomalyView {
        kind,
        path,
        expected: Some(ValueView::Number(expected)),
        actual: Some(ValueView::Number(actual)),
    }
}

/// An anomaly about a file as a whole.
pub open spec fn plain_anomaly(kind: AnomalyKind, path: Seq<char>) -> AnomalyView {
    AnomalyView { kind, path, expected: None, actual: None }
}

/// An anomaly that carries only the reason why nothing could be found.
pub open spec fn reason_anomaly(kind: AnomalyKind, path: Seq<char>, reason: Seq<char>) -> AnomalyView {
    AnomalyView { kind, path, expected: None, actual: Some(ValueView::Text(reason)) }
}

impl AnomalyRecord {
    /// An anomaly about a text value.
    pub fn of_text(kind: AnomalyKind, path: &String, expected: &String, actual: &String) -> (r: Self)
        ensures
            r@ == text_anomaly(kind, path@, expected@, actual@),
    {
        AnomalyRecord {
            kind,
            path: path.clone(),
            expected: Some(AnomalyValue::Text(expected.clone())),
            actual: Some(AnomalyValue::Text(actual.clone())),
        }
    }

    /// An anomaly about a number.
    pub fn of_number(kind: AnomalyKind, path: &String, expected: u32, actual: u32) -> (r: Self)
        ensures
            r@ == number_anomaly(kind, path@, expected, actual),
    {
        AnomalyRecord {
            kind,
            path: path.clone(),
            expected: Some(AnomalyValue::Number(expected)),
            actual: Some(AnomalyValue::Number(actual)),
        }
    }

    /// An anomaly about a file as a whole.
    pub fn plain(kind: AnomalyKind, path: &String) -> (r: Self)
        ensures
            r@ == plain_anomaly(kind, path@),
    {
        AnomalyRecord { kind, path: path.clone(), expected: None, actual: None }
    }

    /// An anomaly with the reason why nothing could be found.
    pub fn with_reason(kind: AnomalyKind, path: &String, reason: &String) -> (r: Self)
        ensures
            r@ == reason_anomaly(kind, path@, reason@),
    {
        AnomalyRecord {
            kind,
            path: path.clone(),
            expected: None,
            actual: Some(AnomalyValue::Text(reason.clone())),
        }
    }
}

/// The word that a report opens with.
pub open spec fn kind_label(kind: AnomalyKind) -> Seq<char> {
    match kind {
        AnomalyKind::Modified => "MODIFIED"@,
        AnomalyKind::PermissionChanged => "PERMISSION_CHANGED"@,
        AnomalyKind::UidChanged => "UID_CHANGED"@,
        AnomalyKind::GidChanged => "GID_CHANGED"@,
        AnomalyKind::Deleted => "DELETED"@,
        AnomalyKind::Added => "ADDED"@,
        AnomalyKind::HashError => "ERROR_HASHING"@,
    }
}

/// A value as a report shows it: permission bits in octal, other numbers in
/// decimal, text as it is.
pub open spec fn value_text(kind: AnomalyKind, value: ValueView) -> Seq<char> {
    match value {
        ValueView::Text(t) => t,
        ValueView::Number(n) => if kind == AnomalyKind::PermissionChanged {
            octal_digits(n as nat)
        } else {
            decimal_digits(n as nat)
        },
    }
}

/// What a report says after the path: both values where both are known, the
/// reason alone where only it is, and nothing otherwise.
pub open spec fn detail_text(a: AnomalyView) -> Seq<char> {
    match (a.expected, a.actual) {
        (Some(e), Some(f)) => (if a.kind == AnomalyKind::Modified {
            " (hash mismatch: "@
        } else {
            " ("@
        }) + value_text(a.kind, e) + " != "@ + value_text(a.kind, f) + ")"@,
        (None, Some(f)) => " ("@ + value_text(a.kind, f) + ")"@,
        (_, None) => Seq::empty(),
    }
}

/// The one-line report of an anomaly.
pub open spec fn anomaly_text(a: AnomalyView) -> Seq<char> {
    kind_label(a.kind) + ": "@ + a.path + detail_text(a)
}

impl AnomalyKind {
    /// The word that a report opens with.
    pub fn label(&self) -> (r: &'static str)
        ensures
            r@ == kind_label(*self),
    {
        match self {
            AnomalyKind::Modified => "MODIFIED",
            AnomalyKind::PermissionChanged => "PERMISSION_CHANGED",
            AnomalyKind::UidChanged => "UID_CHANGED",
            AnomalyKind::GidChanged => "GID_CHANGED",
            AnomalyKind::Deleted => "DELETED",
            AnomalyKind::Added => "ADDED",
            AnomalyKind::HashError => "ERROR_HASHING",
        }
    }
}

impl AnomalyRecord {
    /// A value as a report of this anomaly shows it.
    fn show(&self, value: &AnomalyValue) -> (r: String)
        ensures
            r@ == value_text(self.kind, value@),
    {
        match value {
            AnomalyValue::Text(t) => t.clone(),
            AnomalyValue::Number(n) => match self.kind {
                AnomalyKind::PermissionChanged => octal_text(*n as u64),
                _ => decimal_text(*n as u64),
            },
        }
    }

    /// What the report says after the path.
    fn detail(&self) -> (r: String)
        ensures
            r@ == detail_text(self@),
    {
        match (&self.expected, &self.actual) {
            (Some(e), Some(f)) => {
                let mut r = match self.kind {
                    AnomalyKind::Modified => String::from_str(" (hash mismatch: "),
                    _ => String::from_str(" ("),
                };
                r.append(self.show(e).as_str());
                r.append(" != ");
                r.append(self.show(f).as_str());
                r.append(")");
                r
            },
            (None, Some(f)) => {
                let mut r = String::from_str(" (");
                r.append(self.show(f).as_str());
                r.append(")");
                r
            },
            (_, None) => String::new(),
        }
    }

    /// The one-line report of the anomaly.
    pub fn to_string(&self) -> (r: String)
        ensures
            r@ == anomaly_text(self@),
    {
        let mut r = String::from_str(self.kind.label());
        r.append(": ");
        r.append(self.path.as_str());
        r.append(self.detail().as_str());
        r
    }
}

} // verus!
