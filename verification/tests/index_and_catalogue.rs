use toukan_robot_core::journal_store::{
    append_contains_filter, append_in_filter, checked_journal_name, checked_submission_title, csv_line,
    journal_count_query, journal_list_query, normalize_journal_name, preference_setting, stored_difficulty,
    stored_submission_status, submission_list_query, JournalListFilter, JournalRecord, SubmissionListFilter,
};
use toukan_robot_core::rag_index::{
    batch_index_health, build_experience_text, build_fts_query, build_guidelines_text, build_scope_text,
    clear_index_cache, current_index_health, generate_chunks, initial_index_health, journal_profile_for_index,
    rebuild_rag_index, snippet, split_search_terms, IndexCounts, JournalProfileForChunks, ProfileNotes,
};

pub fn journal(id: i64, name: &str, issn: &str, jif: &str) -> JournalRecord {
    JournalRecord {
        id,
        name: name.to_string(),
        issn: issn.to_string(),
        eissn: String::new(),
        source_db: String::new(),
        jif_quartile: jif.to_string(),
        cas_quartile: String::new(),
        cas_zone: String::new(),
        subjects: String::new(),
        publisher: String::new(),
        ccf: String::new(),
        ei: String::new(),
        cssci: String::new(),
        cscd: String::new(),
        pku_core: String::new(),
        ami_level: String::new(),
        top_flag: String::new(),
        oa_flag: String::new(),
        oa_detail: String::new(),
        website: String::new(),
        scope_text: String::new(),
        jcr_rank_detail: String::new(),
        difficulty: String::new(),
        recommendation_preference: String::new(),
        apc: String::new(),
        review_cycle: String::new(),
        tags: String::new(),
        summary: String::new(),
        experience: String::new(),
        rejection_reason: String::new(),
        suitable_topics: String::new(),
        avoid_reason: String::new(),
        article_topics: String::new(),
        submission_guidelines: String::new(),
        grade: String::new(),
    }
}

fn profile(scope: &str) -> JournalProfileForChunks {
    JournalProfileForChunks {
        journal_id: 9,
        name: "Journal".to_string(),
        subjects: String::new(),
        source_db: String::new(),
        metrics: String::new(),
        scope_text: scope.to_string(),
        user_experience: "   ".to_string(),
        article_topics: String::new(),
        guidelines: String::new(),
    }
}

#[test]
fn profile_chunk_is_always_first() {
    let chunks = generate_chunks(&profile(""));
    assert_eq!(chunks.len(), 1);
    assert_eq!(chunks[0].chunk_type, "profile");
    assert_eq!(chunks[0].content, "期刊：Journal\n来源：\n学科：\n指标：");
}

#[test]
fn chunk_text_is_trimmed_and_hashed() {
    let chunks = generate_chunks(&profile("  Scope text \n"));
    assert_eq!(chunks.len(), 2);
    assert_eq!(chunks[1].content, "Scope text");
    assert_eq!(chunks[1].content_hash.len(), 64);
    assert_ne!(chunks[1].content_hash, chunks[1].content);
    let again = generate_chunks(&profile("Scope text"));
    assert_eq!(again[1].content_hash, chunks[1].content_hash);
    assert_ne!(chunks[0].content_hash, chunks[1].content_hash);
}

#[test]
fn index_health_statuses() {
    let mut c = IndexCounts { dirty_journals: 0, total_chunks: 0, has_fts: true, content_chunks: 0, profile_chunks: 0, index_bytes: 5 };
    assert_eq!(current_index_health(&c).status, "需要更新");
    c.total_chunks = 10;
    c.content_chunks = 6;
    c.profile_chunks = 4;
    c.dirty_journals = 2;
    let h = current_index_health(&c);
    assert_eq!(h.status, "构建中");
    assert_eq!(h.detail, "chunk 总数 10，内容证据 chunk 6，基础档案 chunk 4，待更新 2，FTS 已启用。");
    assert_eq!(h.dirty_chunks, 2);
    c.dirty_journals = 0;
    assert_eq!(current_index_health(&c).status, "正常");
    c.has_fts = false;
    assert_eq!(current_index_health(&c).status, "失败");
}

#[test]
fn cleared_and_initial_health() {
    let h = clear_index_cache(42);
    assert_eq!(h.status, "需要更新");
    assert_eq!(h.index_bytes, 42);
    assert_eq!(initial_index_health().dirty_chunks, 0);
    let b = batch_index_health("已增量更新", 12, 3, 7);
    assert_eq!(b.status, "构建中");
    assert_eq!(b.detail, "已增量更新：本批更新 12 个 chunk，剩余 3 本期刊待处理。");
    let r = rebuild_rag_index(5, 0, 1);
    assert_eq!(r.status, "正常");
    assert!(r.detail.starts_with("已开始使用本地多语言 Embedding 分批构建索引："));
}

#[test]
fn fts_query_quotes_terms() {
    assert_eq!(split_search_terms("Graph-Neural x 交通预测"), vec!["graph", "neural", "交通预测"]);
    assert_eq!(build_fts_query("Graph-Neural x 交通预测"), Some("\"graph\" OR \"neural\" OR \"交通预测\"".to_string()));
    assert_eq!(build_fts_query("a b"), None);
    let many = "aa bb cc dd ee ff gg hh ii jj";
    assert_eq!(build_fts_query(many).unwrap().matches(" OR ").count(), 7);
}

#[test]
fn snippet_marks_cut_text() {
    assert_eq!(snippet("abcdef", 3), "abc...");
    assert_eq!(snippet("abc", 3), "abc");
}

#[test]
fn index_texts_of_a_journal() {
    let mut j = journal(1, "J", "", "Q1");
    j.scope_text = "  scope ".to_string();
    j.oa_flag = "OA".to_string();
    j.jcr_rank_detail = "Top 5%".to_string();
    assert_eq!(build_scope_text(&j), "scope；开放获取：OA；JCR排名：Top 5%");
    j.website = "https://j.org".to_string();
    j.ccf = "A".to_string();
    assert_eq!(build_guidelines_text(Some("use template"), &j), "投稿指南摘要：use template；官网：https://j.org；CCF：A");
    let notes = ProfileNotes {
        difficulty: "未评估".to_string(),
        preference: "优先推荐".to_string(),
        apc: "1000".to_string(),
        review_cycle: String::new(),
        tags: String::new(),
        summary: String::new(),
        experience: String::new(),
        rejection_reason: "scope".to_string(),
        suitable_topics: String::new(),
        avoid_reason: String::new(),
    };
    assert_eq!(build_experience_text(Some(&notes)), "推荐偏好：优先推荐；版面费：1000；rejection reason: scope");
    assert_eq!(build_experience_text(None), "");
    let p = journal_profile_for_index(&j, None, Some(&notes), "topics", None);
    assert_eq!(p.metrics, "JIF=Q1; CAS=; IF=unknown; grade=");
    assert_eq!(p.article_topics, "topics");
}

#[test]
fn journal_names_are_normalised() {
    assert_eq!(normalize_journal_name("  Journal of\tAI \u{3000}"), "JOURNALOFAI");
}

#[test]
fn filters_add_conditions_for_non_blank_items() {
    let mut sql = String::from("SELECT");
    let mut values = Vec::new();
    append_in_filter(&mut sql, &mut values, "j.ccf", &vec!["A".to_string(), " ".to_string(), "B".to_string()]);
    assert_eq!(sql, "SELECT AND j.ccf IN (?,?)");
    assert_eq!(values, vec!["A".to_string(), "B".to_string()]);
    append_contains_filter(&mut sql, &mut values, "j.source_db", &vec!["SCIE".to_string()]);
    assert_eq!(sql, "SELECT AND j.ccf IN (?,?) AND (COALESCE(j.source_db, '') LIKE ?)");
    assert_eq!(values[2], "%SCIE%");
    append_in_filter(&mut sql, &mut values, "x", &vec![]);
    assert_eq!(values.len(), 3);
}

#[test]
fn listing_queries_clamp_their_pages() {
    let mut f = JournalListFilter::default();
    assert_eq!(f.limit, 100);
    f.limit = 0;
    f.offset = 9_000_000;
    f.keyword = " nature ".to_string();
    f.ei_only = true;
    let (q, limit, offset) = journal_list_query(&f);
    assert_eq!(limit, 1);
    assert_eq!(offset, 5_000_000);
    assert_eq!(q.values, vec!["%NATURE%".to_string(); 3]);
    assert!(q.sql.ends_with("AND COALESCE(j.ei,'') <> '否' ORDER BY j.name COLLATE NOCASE LIMIT ? OFFSET ?"));
    let count = journal_count_query(&f);
    assert!(count.sql.ends_with("<> 'No'"));
    let mut s = SubmissionListFilter::default();
    s.limit = 5000;
    s.keyword = " draft ".to_string();
    let (sq, slimit) = submission_list_query(&s);
    assert_eq!(slimit, 1000);
    assert_eq!(sq.values, vec!["%draft%".to_string(); 4]);
}

#[test]
fn stored_values_and_checks() {
    assert_eq!(stored_difficulty(""), "未评估");
    assert_eq!(stored_difficulty("难"), "难");
    assert_eq!(preference_setting("  "), "正常推荐");
    assert_eq!(preference_setting(" 少推荐 "), "少推荐");
    assert_eq!(stored_submission_status(""), "准备中");
    assert_eq!(checked_journal_name("  "), Err("期刊名称不能为空".to_string()));
    assert_eq!(checked_journal_name(" Nature "), Ok("Nature".to_string()));
    assert_eq!(checked_submission_title(""), Err("论文题目不能为空".to_string()));
}

#[test]
fn csv_fields_are_quoted() {
    assert_eq!(csv_line(&vec!["a", "b\"c", ""]), "\"a\",\"b\"\"c\",\"\"\n");
}
