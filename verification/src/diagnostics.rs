//! The diagnostics page: a summary of where the data lives, and the quick
//! health check. The checks themselves (directories, database, settings,
//! backups) are made by the caller; here stands what is reported.
use vstd::prelude::*;
use crate::paths::AppPaths;
use crate::rag_index::IndexHealth;
use crate::settings::AiSettingsRecord;
use crate::text::{append, cat, decimal, decimal_int, is_blank, is_blank_spec, owned};

verus! {

/// Where the application's data lives and in what state.
#[derive(Clone, Debug)]
pub struct DiagnosticSummary {
    pub app_name: String,
    pub root: String,
    pub database: String,
    pub schema_version: i64,
    pub index_status: String,
    pub notes: Vec<String>,
}

/// One line of the health check.
#[derive(Clone, Debug)]
pub struct HealthCheckItem {
    pub name: String,
    pub status: String,
    pub detail: String,
    pub level: String,
}

/// The health check's lines, with when they were taken.
#[derive(Clone, Debug)]
pub struct QuickHealthReport {
    pub checked_at: String,
    pub items: Vec<HealthCheckItem>,
}

/// The summary of the diagnostics page: the schema version read from the
/// database (0 when it could not be read) and the index status (that of an
/// unbuilt index when it could not be read).
pub fn collect(paths: &AppPaths, database_file: &str, schema_version: Option<i64>, index_status: Option<&str>) -> (r: DiagnosticSummary)
    ensures
        r.app_name@ == "投刊机器人"@,
        r.root@ == paths.root@,
        r.database@ == database_file@,
        r.schema_version == (match schema_version { Some(v) => v, None => 0 }),
        r.index_status@ == (match index_status { Some(s) => s@, None => "需要更新"@ }),
        r.notes@.len() == 2,
        r.notes@[0]@ == "旧版功能审计已生成在 docs/legacy_audit.md。"@,
        r.notes@[1]@ == "当前为新版骨架阶段，旧版项目未被修改。"@,
{
    let status = match index_status {
        Some(s) => owned(s),
        None => crate::rag_index::initial_index_health().status,
    };
    DiagnosticSummary {
        app_name: owned("投刊机器人"),
        root: owned(paths.root.as_str()),
        database: owned(database_file),
        schema_version: match schema_version { Some(v) => v, None => 0 },
        index_status: status,
        notes: vec![
            owned("旧版功能审计已生成在 docs/legacy_audit.md。"),
            owned("当前为新版骨架阶段，旧版项目未被修改。"),
        ],
    }
}

/// The plain values of a health line.
pub open spec fn item_view(i: HealthCheckItem) -> (Seq<char>, Seq<char>, Seq<char>, Seq<char>) {
    (i.name@, i.status@, i.detail@, i.level@)
}

fn item(name: &str, status: &str, detail: &str, level: &str) -> (r: HealthCheckItem)
    ensures
        item_view(r) == (name@, status@, detail@, level@),
{
    HealthCheckItem { name: owned(name), status: owned(status), detail: owned(detail), level: owned(level) }
}

/// The line for a directory that should exist.
pub open spec fn directory_item(name: Seq<char>, path: Seq<char>, is_dir: bool) -> (Seq<char>, Seq<char>, Seq<char>, Seq<char>) {
    if is_dir { (name, "正常"@, path, "Normal"@) } else { (name, "异常"@, path, "Danger"@) }
}

/// The line for the database: its schema version and file when it opened,
/// the error when it did not.
pub open spec fn database_item(opened: Result<i64, Seq<char>>, database_file: Seq<char>) -> (Seq<char>, Seq<char>, Seq<char>, Seq<char>) {
    match opened {
        Ok(v) => ("数据库"@, "正常"@, "schema_version="@ + decimal_int(v as int) + "; "@ + database_file, "Normal"@),
        Err(e) => ("数据库"@, "异常"@, e, "Danger"@),
    }
}

/// The line for the index: its status and detail, what awaits updating and
/// its size, important while anything awaits; the error when it could not
/// be read.
pub open spec fn index_item(index: Result<(Seq<char>, Seq<char>, usize, u64), Seq<char>>) -> (Seq<char>, Seq<char>, Seq<char>, Seq<char>) {
    match index {
        Ok((status, detail, dirty, bytes)) => (
            "RAG 索引"@,
            status,
            detail + "；待更新 "@ + decimal(dirty as nat) + "；占用 "@ + decimal(bytes as nat) + " 字节"@,
            if dirty > 0 { "Important"@ } else { "Normal"@ },
        ),
        Err(e) => ("RAG 索引"@, "异常"@, e, "Danger"@),
    }
}

/// The line for the API keys: whether any service has one saved.
pub open spec fn api_key_item(ready: bool) -> (Seq<char>, Seq<char>, Seq<char>, Seq<char>) {
    if ready {
        ("API Key"@, "已保存"@, "至少一个 AI 接口已保存 API Key。"@, "Normal"@)
    } else {
        ("API Key"@, "未保存"@, "没有保存 API Key；本地 RAG/规则推荐仍可使用。"@, "Important"@)
    }
}

/// The line for backups: how many backup directories there are.
pub open spec fn backup_item(count: usize, backups_dir: Seq<char>) -> (Seq<char>, Seq<char>, Seq<char>, Seq<char>) {
    (
        "备份"@,
        if count > 0 { "正常"@ } else { "建议备份"@ },
        "已有 "@ + decimal(count as nat) + " 个备份目录；"@ + backups_dir,
        if count > 0 { "Normal"@ } else { "Important"@ },
    )
}

/// Whether any of the services' records holds an API key that is not
/// blank.
pub open spec fn any_api_key(records: Seq<AiSettingsRecord>) -> bool {
    exists|k: int| 0 <= k < records.len() && !is_blank_spec(#[trigger] records[k].api_key@)
}

/// Whether any loaded service record has an API key.
pub fn api_key_ready(records: &Vec<AiSettingsRecord>) -> (r: bool)
    ensures
        r == any_api_key(records@),
{
    let mut i: usize = 0;
    while i < records.len()
        invariant
            i <= records@.len(),
            forall|k: int| 0 <= k < i ==> is_blank_spec(#[trigger] records@[k].api_key@),
        decreases records@.len() - i,
    {
        if !is_blank(records[i].api_key.as_str()) {
            return true;
        }
        i = i + 1;
    }
    false
}

/// What the health check found, as the caller checked it.
#[derive(Debug)]
pub struct HealthFindings {
    pub data_dir: String,
    pub data_is_dir: bool,
    /// The schema version, or why the database did not open.
    pub database: Result<i64, String>,
    pub database_file: String,
    /// The index's health, or why it could not be read.
    pub index: Result<IndexHealth, String>,
    pub api_key_ready: bool,
    pub backup_count: usize,
    pub backups_dir: String,
    pub logs_dir: String,
    pub logs_is_dir: bool,
    pub checked_at: String,
}

/// The plain values of an optional error.
pub open spec fn result_view<T>(r: Result<T, String>) -> Result<T, Seq<char>> {
    match r {
        Ok(v) => Ok(v),
        Err(e) => Err(e@),
    }
}

/// The index health's plain values, or the error.
pub open spec fn index_view(r: Result<IndexHealth, String>) -> Result<(Seq<char>, Seq<char>, usize, u64), Seq<char>> {
    match r {
        Ok(h) => Ok((h.status@, h.detail@, h.dirty_chunks, h.index_bytes)),
        Err(e) => Err(e@),
    }
}

/// The health check's lines, in order: data directory, database, index,
/// API keys, backups, log directory.
pub open spec fn health_items(f: HealthFindings) -> Seq<(Seq<char>, Seq<char>, Seq<char>, Seq<char>)> {
    seq![
        directory_item("数据目录"@, f.data_dir@, f.data_is_dir),
        database_item(result_view(f.database), f.database_file@),
        index_item(index_view(f.index)),
        api_key_item(f.api_key_ready),
        backup_item(f.backup_count, f.backups_dir@),
        directory_item("日志目录"@, f.logs_dir@, f.logs_is_dir),
    ]
}

fn directory_line(name: &str, path: &str, is_dir: bool) -> (r: HealthCheckItem)
    ensures
        item_view(r) == directory_item(name@, path@, is_dir),
{
    if is_dir { item(name, "正常", path, "Normal") } else { item(name, "异常", path, "Danger") }
}

/// The quick health report.
pub fn quick_health_check(f: &HealthFindings) -> (r: QuickHealthReport)
    ensures
        r.checked_at@ == f.checked_at@,
        r.items@.map_values(|i: HealthCheckItem| item_view(i)) == health_items(*f),
{
    let data = directory_line("数据目录", f.data_dir.as_str(), f.data_is_dir);
    let database = match &f.database {
        Ok(v) => {
            let mut d = cat("schema_version=", crate::text::decimal_i64(*v).as_str());
            append(&mut d, "; ");
            append(&mut d, f.database_file.as_str());
            item("数据库", "正常", d.as_str(), "Normal")
        },
        Err(e) => item("数据库", "异常", e.as_str(), "Danger"),
    };
    let index = match &f.index {
        Ok(h) => {
            let mut d = cat(h.detail.as_str(), "；待更新 ");
            append(&mut d, crate::text::decimal_usize(h.dirty_chunks).as_str());
            append(&mut d, "；占用 ");
            append(&mut d, crate::text::decimal_u64(h.index_bytes).as_str());
            append(&mut d, " 字节");
            item("RAG 索引", h.status.as_str(), d.as_str(), if h.dirty_chunks > 0 { "Important" } else { "Normal" })
        },
        Err(e) => item("RAG 索引", "异常", e.as_str(), "Danger"),
    };
    let api = if f.api_key_ready {
        item("API Key", "已保存", "至少一个 AI 接口已保存 API Key。", "Normal")
    } else {
        item("API Key", "未保存", "没有保存 API Key；本地 RAG/规则推荐仍可使用。", "Important")
    };
    let mut bd = cat("已有 ", crate::text::decimal_usize(f.backup_count).as_str());
    append(&mut bd, " 个备份目录；");
    append(&mut bd, f.backups_dir.as_str());
    let backup = if f.backup_count > 0 {
        item("备份", "正常", bd.as_str(), "Normal")
    } else {
        item("备份", "建议备份", bd.as_str(), "Important")
    };
    let logs = directory_line("日志目录", f.logs_dir.as_str(), f.logs_is_dir);
    let items = vec![data, database, index, api, backup, logs];
    assert(items@.map_values(|i: HealthCheckItem| item_view(i)) =~= health_items(*f));
    QuickHealthReport { checked_at: owned(f.checked_at.as_str()), items }
}

} // verus!
