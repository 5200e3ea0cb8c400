//! Scan events and scan-fatal errors. Every per-file outcome is reported as
//! an event appended to a caller-supplied list; the collaborator responsible
//! for display decides how to render them. A `ScanError` is the one fatal
//! outcome: it aborts the whole scan.
use vstd::prelude::*;

verus! {

/// The two classes of record the engine extracts.
#[derive(Clone, Copy, PartialEq, Eq, Structural, Debug)]
pub enum RecordKind {
    Member,
    Group,
}

/// One per-entry or per-note outcome of a scan, in the order it occurred.
#[derive(Debug)]
pub enum ScanEvent {
    /// The walker accepted this note file.
    Accepted { path: String },
    /// The walk could not read this entry; the entry was skipped.
    TraversalError { path: String },
    /// The note file could not be read; the note was skipped.
    ReadError { path: String },
    /// The note has no parseable header; the note was skipped.
    HeaderError { path: String },
    /// The configured id key did not resolve to a string; this one record
    /// was discarded.
    MissingField { path: String, kind: RecordKind },
    /// The note has no `tags` key; it takes part in no tag classification.
    NoTags { path: String },
    /// The note's `tags` value is not an array; treated as no tags.
    TagsNotArray { path: String },
    /// One element of the `tags` array is not a string; that element was
    /// dropped.
    TagNotString { path: String },
}

/// Model of a scan event.
pub enum ScanEventV {
    Accepted { path: Seq<char> },
    TraversalError { path: Seq<char> },
    ReadError { path: Seq<char> },
    HeaderError { path: Seq<char> },
    MissingField { path: Seq<char>, kind: RecordKind },
    NoTags { path: Seq<char> },
    TagsNotArray { path: Seq<char> },
    TagNotString { path: Seq<char> },
}

impl View for ScanEvent {
    type V = ScanEventV;

    open spec fn view(&self) -> ScanEventV {
        match self {
            ScanEvent::Accepted { path } => ScanEventV::Accepted { path: path@ },
            ScanEvent::TraversalError { path } => ScanEventV::TraversalError { path: path@ },
            ScanEvent::ReadError { path } => ScanEventV::ReadError { path: path@ },
            ScanEvent::HeaderError { path } => ScanEventV::HeaderError { path: path@ },
            ScanEvent::MissingField { path, kind } => ScanEventV::MissingField {
                path: path@,
                kind: *kind,
            },
            ScanEvent::NoTags { path } => ScanEventV::NoTags { path: path@ },
            ScanEvent::TagsNotArray { path } => ScanEventV::TagsNotArray { path: path@ },
            ScanEvent::TagNotString { path } => ScanEventV::TagNotString { path: path@ },
        }
    }
}

impl DeepView for ScanEvent {
    type V = ScanEventV;

    open spec fn deep_view(&self) -> ScanEventV {
        self.view()
    }
}

/// A whole scan failed. Per-file failures are events, never this.
#[derive(Debug)]
pub enum ScanError {
    /// A configured root, member, or group directory was unusable at the
    /// strategy's top level.
    RootUnavailable { dir: String },
    /// The configured strategy selector names no known strategy.
    UnknownScanType { scan_type: String },
}

} // verus!
