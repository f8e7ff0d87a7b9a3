//! The reports the definition builder prints after a command: their titles, labelled
//! fields, status and exit code, made from what the command produced.
use vstd::prelude::*;

use crate::builder::{PackageSummary, SyncEmbeddedOutcome, SyncEmbeddedStatus};
use crate::container::{CompressionKind, IntegrityKind, PackagePurpose};
use crate::text::{push_decimal, spec_decimal, string_from_chars};

verus! {

/// Whether a command completed cleanly or with something to look at.
#[derive(Debug, Clone, Copy, PartialEq, Eq, Structural)]
pub enum ReportStatus {
    Success,
    Warning,
}

/// One labelled line of a report.
#[derive(Debug, Clone, PartialEq, Eq)]
pub struct ReportField {
    pub label: String,
    pub value: String,
}

/// What a command reports: a title, its fields in order, a status and the process exit code.
#[derive(Debug, Clone, PartialEq, Eq)]
pub struct CommandReport {
    pub title: String,
    pub status: ReportStatus,
    pub fields: Vec<ReportField>,
    pub exit_code: i32,
}

/// A field as a pair of texts.
pub open spec fn field_view(f: ReportField) -> (Seq<char>, Seq<char>) {
    (f.label@, f.value@)
}

/// The fields of a report as pairs of texts.
pub open spec fn fields_view(fs: Seq<ReportField>) -> Seq<(Seq<char>, Seq<char>)> {
    fs.map_values(|f: ReportField| field_view(f))
}

fn field(label: &str, value: String) -> (f: ReportField)
    ensures
        f.label@ == label@,
        f.value@ == value@,
{
    ReportField { label: label.to_owned(), value }
}

fn text(s: &str) -> (r: String)
    ensures
        r@ == s@,
{
    s.to_owned()
}

fn decimal(v: u64) -> (r: String)
    ensures
        r@ == spec_decimal(v as nat),
{
    let mut out: Vec<char> = Vec::new();
    push_decimal(&mut out, v);
    assert(out@ =~= seq![] + spec_decimal(v as nat));
    string_from_chars(out.as_slice())
}

/// The name a package purpose is printed with.
pub open spec fn purpose_name(p: PackagePurpose) -> Seq<char> {
    match p {
        PackagePurpose::Standard => "Standard"@,
        PackagePurpose::FastPayload => "FastPayload"@,
        PackagePurpose::Embedded => "Embedded"@,
    }
}

/// The name a compression is printed with.
pub open spec fn compression_name(c: CompressionKind) -> Seq<char> {
    match c {
        CompressionKind::Uncompressed => "None"@,
        CompressionKind::Lz4Frame => "Lz4Frame"@,
    }
}

/// The name an integrity kind is printed with.
pub open spec fn integrity_name(i: IntegrityKind) -> Seq<char> {
    match i {
        IntegrityKind::NoIntegrity => "None"@,
        IntegrityKind::Sha256 => "Sha256"@,
    }
}

fn purpose_text(p: PackagePurpose) -> (r: String)
    ensures
        r@ == purpose_name(p),
{
    match p {
        PackagePurpose::Standard => text("Standard"),
        PackagePurpose::FastPayload => text("FastPayload"),
        PackagePurpose::Embedded => text("Embedded"),
    }
}

fn compression_text(c: CompressionKind) -> (r: String)
    ensures
        r@ == compression_name(c),
{
    match c {
        CompressionKind::Uncompressed => text("None"),
        CompressionKind::Lz4Frame => text("Lz4Frame"),
    }
}

fn integrity_text(i: IntegrityKind) -> (r: String)
    ensures
        r@ == integrity_name(i),
{
    match i {
        IntegrityKind::NoIntegrity => text("None"),
        IntegrityKind::Sha256 => text("Sha256"),
    }
}

/// The fields of a package summary report, ending with the log file.
pub open spec fn summary_fields(s: PackageSummary, log_path: Seq<char>) -> Seq<(Seq<char>, Seq<char>)> {
    seq![
        ("Package Id"@, s.package_id@),
        ("Purpose"@, purpose_name(s.purpose)),
        ("Compression"@, compression_name(s.compression)),
        ("Integrity"@, integrity_name(s.integrity)),
        ("Package Version"@, s.package_version@),
        ("Source Version"@, s.source_version@),
        ("Package Revision"@, spec_decimal(s.package_revision as nat)),
        ("Checksum"@, if s.checksum_verified { "verified"@ } else { "skipped"@ }),
        ("Tags"@, spec_decimal(s.tags as nat)),
        ("Definitions"@, spec_decimal(s.definition_count as nat)),
        ("Log"@, log_path),
    ]
}

/// The report of `inspect`: the summary's fields, successful.
pub fn inspect_report(summary: PackageSummary, log_path: &str) -> (r: CommandReport)
    ensures
        r.title@ == "Package Summary"@,
        r.status == ReportStatus::Success,
        r.exit_code == 0,
        fields_view(r.fields@) == summary_fields(summary, log_path@),
{
    let ghost s = summary;
    let checksum = if summary.checksum_verified {
        text("verified")
    } else {
        text("skipped")
    };
    let fields = vec![
        field("Package Id", summary.package_id),
        field("Purpose", purpose_text(summary.purpose)),
        field("Compression", compression_text(summary.compression)),
        field("Integrity", integrity_text(summary.integrity)),
        field("Package Version", summary.package_version),
        field("Source Version", summary.source_version),
        field("Package Revision", decimal(summary.package_revision as u64)),
        field("Checksum", checksum),
        field("Tags", decimal(summary.tags as u64)),
        field("Definitions", decimal(summary.definition_count as u64)),
        field("Log", text(log_path)),
    ];
    let r = CommandReport { title: text("Package Summary"), status: ReportStatus::Success, fields, exit_code: 0 };
    assert(fields_view(r.fields@) =~= summary_fields(s, log_path@));
    r
}

/// The report of `verify`: a match succeeds with exit code 0, a difference is a warning
/// with exit code 1.
pub fn verify_report(left: &str, right: &str, matches: bool, log_path: &str) -> (r: CommandReport)
    ensures
        r.title@ == "Verification"@,
        r.status == (if matches { ReportStatus::Success } else { ReportStatus::Warning }),
        r.exit_code == (if matches { 0i32 } else { 1i32 }),
        fields_view(r.fields@) == seq![
            ("Left"@, left@),
            ("Right"@, right@),
            ("Result"@, if matches { "match"@ } else { "different"@ }),
            ("Log"@, log_path@),
        ],
{
    let result = if matches {
        text("match")
    } else {
        text("different")
    };
    let fields = vec![
        field("Left", text(left)),
        field("Right", text(right)),
        field("Result", result),
        field("Log", text(log_path)),
    ];
    let r = CommandReport {
        title: text("Verification"),
        status: if matches { ReportStatus::Success } else { ReportStatus::Warning },
        fields,
        exit_code: if matches { 0 } else { 1 },
    };
    assert(fields_view(r.fields@) =~= seq![
        ("Left"@, left@),
        ("Right"@, right@),
        ("Result"@, if matches { "match"@ } else { "different"@ }),
        ("Log"@, log_path@),
    ]);
    r
}

/// The report of a command that wrote a file (`pack`, `normalize`): its input when it
/// had one, the written output and the log file, successful.
pub fn written_report(title: &str, input: Option<&str>, output: &str, log_path: &str) -> (r: CommandReport)
    ensures
        r.title@ == title@,
        r.status == ReportStatus::Success,
        r.exit_code == 0,
        fields_view(r.fields@) == match input {
            Some(i) => seq![("Input"@, i@), ("Output"@, output@), ("Log"@, log_path@)],
            None => seq![("Output"@, output@), ("Log"@, log_path@)],
        },
{
    let mut fields: Vec<ReportField> = Vec::new();
    match input {
        Some(i) => fields.push(field("Input", text(i))),
        None => {},
    }
    fields.push(field("Output", text(output)));
    fields.push(field("Log", text(log_path)));
    let r = CommandReport { title: text(title), status: ReportStatus::Success, fields, exit_code: 0 };
    assert(fields_view(r.fields@) =~= match input {
        Some(i) => seq![("Input"@, i@), ("Output"@, output@), ("Log"@, log_path@)],
        None => seq![("Output"@, output@), ("Log"@, log_path@)],
    });
    r
}

/// The result word of an embedded package refresh.
pub open spec fn sync_result_name(s: SyncEmbeddedStatus) -> Seq<char> {
    match s {
        SyncEmbeddedStatus::Skipped => "skipped"@,
        SyncEmbeddedStatus::UpToDate => "up-to-date"@,
        SyncEmbeddedStatus::Updated => "updated"@,
        SyncEmbeddedStatus::NeedsUpdate => "update required"@,
    }
}

/// The fields of an embedded refresh report after its input and output.
pub open spec fn sync_tail(
    status: SyncEmbeddedStatus,
    version: Option<String>,
    detail: Seq<char>,
    log_path: Seq<char>,
) -> Seq<(Seq<char>, Seq<char>)> {
    seq![("Result"@, sync_result_name(status))] + match version {
        Some(v) => seq![("Package Version"@, v@)],
        None => seq![],
    } + seq![("Detail"@, detail), ("Log"@, log_path)]
}

/// The report of an embedded package refresh: a needed but unperformed update is a warning
/// with exit code 1, anything else succeeds. `input` and `output` are the outcome's paths
/// as text.
pub fn sync_report(outcome: SyncEmbeddedOutcome, input: &str, output: &str, log_path: &str) -> (r:
    CommandReport)
    ensures
        r.title@ == "Embedded Package Sync"@,
        r.status == (if outcome.status == SyncEmbeddedStatus::NeedsUpdate {
            ReportStatus::Warning
        } else {
            ReportStatus::Success
        }),
        r.exit_code == (if outcome.status == SyncEmbeddedStatus::NeedsUpdate { 1i32 } else { 0i32 }),
        fields_view(r.fields@) == seq![("Input"@, input@), ("Output"@, output@)] + sync_tail(
            outcome.status,
            outcome.package_version,
            outcome.detail@,
            log_path@,
        ),
{
    let ghost o = outcome;
    let (status, exit_code, result) = match outcome.status {
        SyncEmbeddedStatus::Skipped => (ReportStatus::Success, 0i32, text("skipped")),
        SyncEmbeddedStatus::UpToDate => (ReportStatus::Success, 0i32, text("up-to-date")),
        SyncEmbeddedStatus::Updated => (ReportStatus::Success, 0i32, text("updated")),
        SyncEmbeddedStatus::NeedsUpdate => (ReportStatus::Warning, 1i32, text("update required")),
    };
    let mut fields: Vec<ReportField> = Vec::new();
    fields.push(field("Input", text(input)));
    fields.push(field("Output", text(output)));
    fields.push(field("Result", result));
    let ghost mid = fields@;
    match outcome.package_version {
        Some(v) => fields.push(field("Package Version", v)),
        None => {},
    }
    let ghost before_detail = fields@;
    fields.push(field("Detail", outcome.detail));
    fields.push(field("Log", text(log_path)));
    let r = CommandReport { title: text("Embedded Package Sync"), status, fields, exit_code };
    assert(fields_view(r.fields@) =~= seq![("Input"@, input@), ("Output"@, output@)] + sync_tail(
        o.status,
        o.package_version,
        o.detail@,
        log_path@,
    ));
    r
}

} // verus!
