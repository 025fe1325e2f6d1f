//! Importing data from the previous version of the application. Reading the
//! old database and copying files are the caller's; here stand the report,
//! the values carried over, and which old submissions are taken.
use vstd::prelude::*;
use crate::text::{append, cat, is_blank, is_blank_spec, owned};

verus! {

/// What an import from the previous version did.
#[derive(Clone, Debug)]
pub struct LegacyImportReport {
    pub source_root: String,
    pub journals_imported: usize,
    pub journals_updated: usize,
    pub submissions_imported: usize,
    pub templates_copied: usize,
    pub attachments_copied: usize,
    pub backup_dir: Option<String>,
    pub report_file: Option<String>,
    pub warnings: Vec<String>,
}

/// The preview of an import: nothing done yet, and a note that a backup is
/// made first.
pub fn planned_report(source_root: &str) -> (r: LegacyImportReport)
    ensures
        r.source_root@ == source_root@,
        r.journals_imported == 0,
        r.journals_updated == 0,
        r.submissions_imported == 0,
        r.templates_copied == 0,
        r.attachments_copied == 0,
        r.backup_dir is None,
        r.report_file is None,
        r.warnings@.len() == 1,
        r.warnings@[0]@ == "这是迁移预览，正式迁移前会自动备份新版 data 目录。"@,
{
    LegacyImportReport {
        source_root: owned(source_root),
        journals_imported: 0,
        journals_updated: 0,
        submissions_imported: 0,
        templates_copied: 0,
        attachments_copied: 0,
        backup_dir: None,
        report_file: None,
        warnings: vec![owned("这是迁移预览，正式迁移前会自动备份新版 data 目录。")],
    }
}

/// The report an import starts from, with the backup it made.
pub fn started_report(source_root: &str, backup_dir: &str) -> (r: LegacyImportReport)
    ensures
        r.source_root@ == source_root@,
        r.journals_imported == 0,
        r.journals_updated == 0,
        r.submissions_imported == 0,
        r.templates_copied == 0,
        r.attachments_copied == 0,
        r.backup_dir matches Some(b) && b@ == backup_dir@,
        r.report_file is None,
        r.warnings@.len() == 0,
{
    LegacyImportReport {
        source_root: owned(source_root),
        journals_imported: 0,
        journals_updated: 0,
        submissions_imported: 0,
        templates_copied: 0,
        attachments_copied: 0,
        backup_dir: Some(owned(backup_dir)),
        report_file: None,
        warnings: Vec::new(),
    }
}

/// A text column of the old database: empty when it is NULL.
pub fn text(value: Option<String>) -> (r: String)
    ensures
        r@ == (match value { Some(v) => v@, None => seq![] }),
{
    match value {
        Some(v) => v,
        None => String::new(),
    }
}

/// The experience note an old journal is imported with: its old status and
/// personal note.
pub fn legacy_experience(status: &str, note: &str) -> (r: String)
    ensures
        r@ == "旧版状态："@ + status@ + "；旧版个人备注："@ + note@,
{
    let mut s = cat("旧版状态：", status);
    append(&mut s, "；旧版个人备注：");
    append(&mut s, note);
    s
}

/// Counts an imported journal: as updated when it matched an existing one,
/// else as new.
pub fn count_journal(report: &mut LegacyImportReport, updated: bool)
    requires
        old(report).journals_updated < usize::MAX,
        old(report).journals_imported < usize::MAX,
    ensures
        final(report).journals_updated == old(report).journals_updated + (if updated { 1int } else { 0int }),
        final(report).journals_imported == old(report).journals_imported + (if updated { 0int } else { 1int }),
        final(report).submissions_imported == old(report).submissions_imported,
        final(report).warnings@ == old(report).warnings@,
{
    if updated {
        report.journals_updated = report.journals_updated + 1;
    } else {
        report.journals_imported = report.journals_imported + 1;
    }
}

/// Whether an old submission is imported: it needs a title that is not
/// blank and must not be stored already.
pub fn takes_submission(title: &str, already_stored: bool) -> (r: bool)
    ensures
        r == (!is_blank_spec(title@) && !already_stored),
{
    !is_blank(title) && !already_stored
}

/// The status an old submission is imported with: "准备中" when it had none.
pub fn legacy_status(status: &str) -> (r: String)
    ensures
        r@ == (if status@.len() == 0 { "准备中"@ } else { status@ }),
{
    if status.is_empty() { owned("准备中") } else { owned(status) }
}

/// The creation time an old submission is imported with: its own, or the
/// time of the import when it had none.
pub fn legacy_created_at(created_at: &str, now: &str) -> (r: String)
    ensures
        r@ == (if created_at@.len() == 0 { now@ } else { created_at@ }),
{
    if created_at.is_empty() { owned(now) } else { owned(created_at) }
}

/// The warning for an old installation without a database.
pub open spec fn missing_database_warning() -> Seq<char> {
    "未找到旧版 journal_library.db。"@
}

/// Notes in the report that a source could not be used.
pub fn warn(report: &mut LegacyImportReport, warning: &str)
    ensures
        final(report).warnings@.len() == old(report).warnings@.len() + 1,
        final(report).warnings@.drop_last() == old(report).warnings@,
        final(report).warnings@.last()@ == warning@,
        final(report).journals_imported == old(report).journals_imported,
        final(report).journals_updated == old(report).journals_updated,
        final(report).submissions_imported == old(report).submissions_imported,
{
    let ghost before = report.warnings@;
    report.warnings.push(owned(warning));
    assert(report.warnings@.drop_last() =~= before);
}

/// Why a legacy source could not be used.
#[derive(PartialEq, Eq, Structural, Clone, Copy, Debug)]
pub enum LegacyGap {
    /// No old database was found.
    NoDatabase,
    /// The old database has no journal table.
    NoJournalTable,
    /// The old database has no submission table.
    NoSubmissionTable,
}

/// The warning a gap in the legacy source is reported with.
pub fn gap_warning(gap: LegacyGap) -> (r: &'static str)
    ensures
        r@ == (match gap {
            LegacyGap::NoDatabase => missing_database_warning(),
            LegacyGap::NoJournalTable => "旧版数据库没有 journals 表，已跳过期刊迁移。"@,
            LegacyGap::NoSubmissionTable => "旧版数据库没有 submissions 表，已跳过投稿记录迁移。"@,
        }),
{
    match gap {
        LegacyGap::NoDatabase => "未找到旧版 journal_library.db。",
        LegacyGap::NoJournalTable => "旧版数据库没有 journals 表，已跳过期刊迁移。",
        LegacyGap::NoSubmissionTable => "旧版数据库没有 submissions 表，已跳过投稿记录迁移。",
    }
}

/// The refusal when the old installation's directory does not exist.
pub fn missing_source_error(source_root: &str) -> (r: String)
    ensures
        r@ == "旧版目录不存在："@ + source_root@,
{
    cat("旧版目录不存在：", source_root)
}

/// Where an old installation keeps its database, relative to its root, in
/// the order they are tried.
pub fn legacy_database_candidates() -> (r: Vec<Vec<&'static str>>)
    ensures
        r@.len() == 2,
        r@[0]@.len() == 1 && r@[0]@[0]@ == "journal_library.db"@,
        r@[1]@.len() == 2 && r@[1]@[0]@ == "data"@ && r@[1]@[1]@ == "journal_library.db"@,
{
    vec![vec!["journal_library.db"], vec!["data", "journal_library.db"]]
}

/// The directories of an old installation that hold templates.
pub fn template_directories() -> (r: Vec<&'static str>)
    ensures
        crate::text::strs(r@) == seq!["模板库"@, "templates"@, "投稿模板"@, "通用模板"@],
{
    let r = vec!["模板库", "templates", "投稿模板", "通用模板"];
    assert(crate::text::strs(r@) =~= seq!["模板库"@, "templates"@, "投稿模板"@, "通用模板"@]);
    r
}

/// The directories of an old installation that hold paper attachments.
pub fn attachment_directories() -> (r: Vec<&'static str>)
    ensures
        crate::text::strs(r@) == seq!["论文附件"@, "attachments"@, "附件"@, "papers"@],
{
    let r = vec!["论文附件", "attachments", "附件", "papers"];
    assert(crate::text::strs(r@) =~= seq!["论文附件"@, "attachments"@, "附件"@, "papers"@]);
    r
}

/// The warning for a file that was not copied because it exists.
pub fn skipped_file_warning(path: &str) -> (r: String)
    ensures
        r@ == "已跳过已存在文件："@ + path@,
{
    cat("已跳过已存在文件：", path)
}

/// The name of the report file an import writes.
pub fn report_file_name(stamp: &str) -> (r: String)
    ensures
        r@ == "legacy_import_"@ + stamp@ + ".json"@,
{
    let mut name = cat("legacy_import_", stamp);
    append(&mut name, ".json");
    name
}

/// The recommendation preference every imported journal starts with.
pub const IMPORTED_PREFERENCE: &'static str = "正常推荐";

} // verus!
