use toukan_robot_core::backup_restore::{backup_dir_name, restore_from_backup, restore_report, sanitize};
use toukan_robot_core::diagnostics::{api_key_ready, collect, quick_health_check, HealthFindings};
use toukan_robot_core::legacy_import::{legacy_experience, legacy_status, planned_report, takes_submission, text};
use toukan_robot_core::paper_parser::{
    check_attachment_size, check_suffix, compact_text, decode_xml_entities, docx_attachment, docx_xml_to_text,
    pdf_attachment, plain_text_attachment, safe_filename, supported_suffixes,
};
use toukan_robot_core::paths::AppPaths;
use toukan_robot_core::rag_index::initial_index_health;
use toukan_robot_core::resource_import::{check_resource_size, linked_note, safe_resource_name};
use toukan_robot_core::settings::{
    default_hints, load_ai_settings, normalize_service_key, save_ai_settings, AiSettingsRecord, HintLevel,
    PrivacySettings, StoredAiSettings,
};
use toukan_robot_core::sync::sync_is_available;
use toukan_robot_core::template_manager::{
    check_template_upload, list_journal_templates, safe_folder_name, template_upload_report, TemplateEntry,
};

fn record(key: &str, api_key: &str) -> AiSettingsRecord {
    AiSettingsRecord {
        service_key: key.to_string(),
        base_url: " https://api.example/v1 ".to_string(),
        model: "m1".to_string(),
        api_key: api_key.to_string(),
        api_key_hint: String::new(),
    }
}

#[test]
fn layout_lives_under_the_root() {
    let p = AppPaths::from_root("/tmp/toukan");
    assert_eq!(p.root, "/tmp/toukan");
    assert!(p.data.starts_with("/tmp/toukan") && p.data.ends_with("data"));
    assert!(p.db.starts_with(&p.data) && p.db.ends_with("db"));
    assert_ne!(p.db, p.data);
    let f = p.database_file();
    assert!(f.starts_with(&p.db) && f.ends_with("toukan_robot.sqlite3"));
}

#[test]
fn privacy_defaults_and_hints() {
    let d = PrivacySettings::default();
    assert!(!d.local_only_recommendation && !d.disable_web_search && !d.do_not_send_full_text && !d.ai_title_abstract_only);
    let hints = default_hints();
    assert_eq!(hints.len(), 3);
    assert_eq!(hints[2].level, HintLevel::Danger);
    assert!(!sync_is_available());
}

#[test]
fn service_keys_and_saved_settings() {
    assert_eq!(normalize_service_key("  OpenRouter "), "openrouter");
    assert_eq!(normalize_service_key("   "), "openrouter");
    let (service, writes) = save_ai_settings(&record("XFastAPI", "  "), "secret");
    assert_eq!(service, "xfastapi");
    assert_eq!(writes.len(), 2);
    assert_eq!(writes[0].key, "ai.xfastapi.base_url");
    assert_eq!(writes[0].value, "https://api.example/v1");
    let (_, writes) = save_ai_settings(&record("x", "sk-1"), "protected");
    assert_eq!(writes.len(), 3);
    assert_eq!(writes[2].key, "ai.x.api_key.dpapi");
    assert!(writes[2].is_secret);
    let stored = StoredAiSettings { base_url: None, model: Some("m2".to_string()), api_key: None };
    let r = load_ai_settings("X", &stored, "https://default", "m0", "");
    assert_eq!(r.base_url, "https://default");
    assert_eq!(r.model, "m2");
    assert_eq!(r.api_key, "");
}

#[test]
fn diagnostics_summary_and_health() {
    let p = AppPaths::from_root("/data/root");
    let s = collect(&p, "/data/root/data/db/toukan_robot.sqlite3", None, None);
    assert_eq!(s.schema_version, 0);
    assert_eq!(s.index_status, "需要更新");
    assert_eq!(s.notes.len(), 2);
    assert!(api_key_ready(&vec![record("a", ""), record("b", "key")]));
    assert!(!api_key_ready(&vec![record("a", " ")]));
    let findings = HealthFindings {
        data_dir: "/d".to_string(),
        data_is_dir: true,
        database: Ok(3),
        database_file: "/d/db.sqlite3".to_string(),
        index: Ok(initial_index_health()),
        api_key_ready: false,
        backup_count: 0,
        backups_dir: "/d/backups".to_string(),
        logs_dir: "/d/logs".to_string(),
        logs_is_dir: false,
        checked_at: "now".to_string(),
    };
    let report = quick_health_check(&findings);
    assert_eq!(report.items.len(), 6);
    assert_eq!(report.items[1].detail, "schema_version=3; /d/db.sqlite3");
    assert_eq!(report.items[2].detail, "新版骨架已创建，等待导入期刊库并构建 RAG/FTS/向量索引。；待更新 0；占用 0 字节");
    assert_eq!(report.items[3].status, "未保存");
    assert_eq!(report.items[4].status, "建议备份");
    assert_eq!(report.items[4].detail, "已有 0 个备份目录；/d/backups");
    assert_eq!(report.items[5].level, "Danger");
}

#[test]
fn resource_names_and_notes() {
    assert_eq!(safe_resource_name("a/b:c?.xlsx"), "a_b_c_.xlsx");
    assert_eq!(safe_resource_name("  "), "未命名资源");
    assert_eq!(linked_note("", " n "), "n");
    assert_eq!(linked_note(" Nature ", "n"), "关联期刊：Nature；n");
    assert!(check_resource_size(52_428_800).is_ok());
    assert!(check_resource_size(52_428_801).is_err());
}

#[test]
fn attachment_checks_and_text() {
    assert_eq!(safe_filename("<draft>.docx"), "_draft_.docx");
    assert_eq!(supported_suffixes(), ["docx", "pdf", "txt", "md"]);
    assert!(check_suffix("pdf").is_ok());
    assert_eq!(check_suffix("exe"), Err("暂不支持该附件格式：exe".to_string()));
    assert!(check_attachment_size(41_943_041).is_err());
    assert_eq!(compact_text(" a \n\n  \n b"), "a\nb");
    assert_eq!(decode_xml_entities("&lt;x&gt; &amp;amp;"), "<x> &amp;");
    assert_eq!(docx_xml_to_text("<w:p><w:t>Hi</w:t></w:p><w:p><w:t>there</w:t></w:p>"), "  Hi \n  there \n");
    assert_eq!(plain_text_attachment("  ").1, Some("附件已保存，但没有提取到文本内容。".to_string()));
    assert_eq!(plain_text_attachment("x"), ("x".to_string(), None));
    assert_eq!(pdf_attachment(Ok(" line \n\n")), ("line".to_string(), None));
    let (t, w) = pdf_attachment(Err("bad"));
    assert_eq!(t, "");
    assert_eq!(w.unwrap(), "PDF 已保存，但正文解析失败：bad。扫描版或加密 PDF 需要人工核验。");
    assert_eq!(docx_attachment(Ok("<w:p></w:p>")).0, "");
}

#[test]
fn backups_and_restores() {
    assert_eq!(sanitize("  pre restore!! "), "pre_restore");
    assert_eq!(sanitize("__"), "");
    assert_eq!(backup_dir_name("20240101_000000", "!!"), "backup_20240101_000000_manual");
    assert_eq!(backup_dir_name("s", "legacy_import"), "backup_s_legacy_import");
    let p = AppPaths::from_root("/r");
    assert_eq!(restore_from_backup(&p, "/x", false, true), Err("备份目录不存在：/x".to_string()));
    assert!(restore_from_backup(&p, "/x", true, false).unwrap_err().starts_with("只能从"));
    let plan = restore_from_backup(&p, "/x", true, true).unwrap();
    assert_eq!(plan.len(), 8);
    assert_eq!(plan[0], ("db".to_string(), p.db.clone()));
    assert_eq!(restore_report("/a", "/b", 4).files_restored, 4);
}

#[test]
fn legacy_preview_and_values() {
    let r = planned_report("D:/old");
    assert_eq!(r.source_root, "D:/old");
    assert_eq!(r.journals_imported, 0);
    assert_eq!(r.warnings.len(), 1);
    assert_eq!(text(None), "");
    assert_eq!(legacy_experience("投稿中", "快"), "旧版状态：投稿中；旧版个人备注：快");
    assert_eq!(legacy_status(""), "准备中");
    assert!(!takes_submission("  ", false));
    assert!(!takes_submission("t", true));
}

fn entry(j: &str, f: &str) -> TemplateEntry {
    TemplateEntry { journal_name: j.to_string(), file_name: f.to_string(), path: format!("{}/{}", j, f) }
}

#[test]
fn template_listing_is_sorted_and_paged() {
    let entries = vec![entry("B", "z.docx"), entry("A", "y.docx"), entry("B", "a.docx"), entry("A", "x.tex")];
    let page = list_journal_templates(entries.clone(), "", 1, 2);
    assert_eq!(page.total, 4);
    let names: Vec<_> = page.items.iter().map(|e| e.path.as_str()).collect();
    assert_eq!(names, vec!["A/y.docx", "B/a.docx"]);
    let docx = list_journal_templates(entries.clone(), " DOCX ", 0, 0);
    assert_eq!(docx.total, 3);
    assert_eq!(docx.items.len(), 1);
    assert_eq!(docx.items[0].path, "A/y.docx");
    assert_eq!(list_journal_templates(entries, "", 10, 5).items.len(), 0);
}

#[test]
fn template_names_and_uploads() {
    assert_eq!(safe_folder_name(" * "), "_");
    assert_eq!(safe_folder_name(""), "未命名期刊");
    assert_eq!(check_template_upload(" ", 3), Err("请先填写关联期刊名称。".to_string()));
    assert_eq!(check_template_upload("J", 0), Err("模板文件为空。".to_string()));
    assert!(check_template_upload("J", 1).is_ok());
    assert!(template_upload_report("p", true).skipped);
}
