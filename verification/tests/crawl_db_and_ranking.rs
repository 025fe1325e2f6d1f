use toukan_robot_core::rag_index::{complete_rebuild_health, index_metrics, indexed_profile, sequential_rebuild_health, MetricsStyle};
use toukan_robot_core::journal_enrichment::title_matches;
use toukan_robot_core::journal_store::{export_file_name, ExportKind};
use toukan_robot_core::legacy_import::{
    attachment_directories, gap_warning, legacy_database_candidates, missing_source_error, report_file_name,
    skipped_file_warning, template_directories, LegacyGap, IMPORTED_PREFERENCE,
};
use toukan_robot_core::paper_parser::{missing_attachment_error, stored_attachment_name};
use toukan_robot_core::resource_import::{
    missing_resource_error, resource_backup_reason, resource_save_report, stored_resource_name, ResourceOrigin,
};
use toukan_robot_core::web_search::{crossref_error, wants_more_sources, QUERIES_PER_ROUND};
use toukan_robot_core::recommendation::{LOCAL_RISK_NOTE, RECOMMENDATIONS_KEPT};
use toukan_robot_core::web_search::{crossref_sources, CrossrefWork};
use toukan_robot_core::web_search::parse_bing_results;
use toukan_robot_core::backup_restore::{backup_sources, export_dir_name, export_sources};
use toukan_robot_core::paths::{discover_root, AppPaths};
use toukan_robot_core::journal_enrichment::{selected_journals_sql, source_record};
use toukan_robot_core::rag_index::{batch_index_health, check_embedding_count, keep_indexing, refresh_step, RefreshStep, INDEX_BATCH_SIZE};
use toukan_robot_core::external_links::checked_external_url;
use toukan_robot_core::db::table_info_sql;
use toukan_robot_core::backup_restore::{list_backups, BackupEntry};
use toukan_robot_core::db::{
    add_column_sql, column_missing, empty_database_backup_name, later_columns, schema_version_from,
    should_seed, sqlite_family_paths, CURRENT_SCHEMA_VERSION,
};
use toukan_robot_core::journal_store::JournalRecord;
use toukan_robot_core::page_text::{extract_jcr_rank_detail, jcr_candidate_lines};
use toukan_robot_core::recommendation::{
    ai_outcome, assess_input_quality, build_ai_prompt, candidate_pool, catalogue_points, classify_candidate,
    local_fallback_texts, minimum_topic_hits, plan_ai_recommendation, prefilter_journals, reason_prefix,
    recommendation_evidence, recommendation_query, recommendation_source, recommendation_website, tokenize_query,
    topical_match_count, AiRecommendStep, CandidateTier, RecommendationRequest, SubjectGuard,
};
use toukan_robot_core::site_crawl::{
    extract_candidate_links,
    candidate_links, check_page_response, crawl_outcome, is_followable_link, same_site_page, site_fallback_urls,
    CrawlFrontier,
};

fn journal() -> JournalRecord {
    JournalRecord {
        id: 7,
        name: "Transportation Research".to_string(),
        issn: String::new(),
        eissn: String::new(),
        source_db: "SSCI".to_string(),
        jif_quartile: "Q1".to_string(),
        cas_quartile: "1区".to_string(),
        cas_zone: String::new(),
        subjects: "transportation".to_string(),
        publisher: String::new(),
        ccf: String::new(),
        ei: String::new(),
        cssci: String::new(),
        cscd: String::new(),
        pku_core: String::new(),
        ami_level: String::new(),
        top_flag: String::new(),
        oa_flag: String::new(),
        oa_detail: String::new(),
        website: "  ".to_string(),
        scope_text: String::new(),
        jcr_rank_detail: String::new(),
        difficulty: String::new(),
        recommendation_preference: String::new(),
        apc: String::new(),
        review_cycle: String::new(),
        tags: String::new(),
        summary: String::new(),
        experience: String::new(),
        rejection_reason: String::new(),
        suitable_topics: String::new(),
        avoid_reason: String::new(),
        article_topics: String::new(),
        submission_guidelines: String::new(),
        grade: String::new(),
    }
}

fn request() -> RecommendationRequest {
    RecommendationRequest {
        title: "Traffic Flow".to_string(),
        abstract_text: "Graph model".to_string(),
        keywords: "traffic, graph".to_string(),
        full_text: "Body".to_string(),
        preferences: vec!["英文期刊".to_string(), "EI".to_string()],
        journal_type: "SCI".to_string(),
        target_zone: "系统推荐".to_string(),
        target_jif_quartiles: Vec::new(),
        strategy: "稳妥".to_string(),
        privacy_mode: false,
        disable_web_search: false,
        do_not_send_full_text: true,
        ai_title_abstract_only: false,
        exclude_journal_ids: Vec::new(),
        exclude_journal_names: Vec::new(),
        refresh_round: 0,
    }
}

fn backup(name: &str) -> BackupEntry {
    BackupEntry { name: name.to_string(), path: format!("/b/{}", name), modified_at: String::new() }
}

#[test]
fn database_files_and_seeding() {
    assert_eq!(CURRENT_SCHEMA_VERSION, 8);
    assert_eq!(sqlite_family_paths("/d/app.sqlite3"), vec!["/d/app.sqlite3", "/d/app.sqlite3-wal", "/d/app.sqlite3-shm"]);
    assert!(should_seed(true, false, false));
    assert!(should_seed(true, true, false));
    assert!(!should_seed(true, true, true));
    assert!(!should_seed(false, false, false));
    assert_eq!(empty_database_backup_name(1700000000), "empty_db_before_seed_1700000000");
}

#[test]
fn missing_columns_are_added_by_statement() {
    let cols = vec!["id".to_string(), "grade".to_string()];
    assert!(!column_missing(&cols, "grade"));
    assert!(column_missing(&cols, "oa_detail"));
    assert_eq!(add_column_sql("journals", "oa_detail", "TEXT"), "ALTER TABLE journals ADD COLUMN oa_detail TEXT");
    let later = later_columns();
    assert_eq!(later.len(), 9);
    assert_eq!(later[0], ("journals", "grade", "TEXT"));
    assert_eq!(later[8], ("journal_user_profiles", "submission_guidelines", "TEXT"));
}

#[test]
fn schema_version_text_is_read_as_a_number_or_zero() {
    assert_eq!(schema_version_from("8"), 8);
    assert_eq!(schema_version_from("+12"), 12);
    assert_eq!(schema_version_from("-3"), -3);
    assert_eq!(schema_version_from(""), 0);
    assert_eq!(schema_version_from("7a"), 0);
    assert_eq!(schema_version_from("-"), 0);
    assert_eq!(schema_version_from("9223372036854775807"), i64::MAX);
    assert_eq!(schema_version_from("-9223372036854775808"), i64::MIN);
    assert_eq!(schema_version_from("9223372036854775808"), 0);
}

#[test]
fn publisher_pages_are_tried_first() {
    assert_eq!(
        site_fallback_urls("www.Nature.com", "/nclimate/"),
        vec![
            "https://www.nature.com/nclimate/journal-information",
            "https://www.nature.com/nclimate/how-to-submit",
            "https://www.nature.com/nclimate/open-access-fees-and-funding",
        ]
    );
    assert!(site_fallback_urls("www.nature.com", "/how-to-submit").is_empty());
    assert!(site_fallback_urls("www.nature.com", "/").is_empty());
    assert_eq!(site_fallback_urls("journals.plos.org", "/plosone/").len(), 2);
    assert!(site_fallback_urls("journals.plos.org", "/plosbiology/").is_empty());
    assert_eq!(site_fallback_urls("ieeeaccess.ieee.org", "").len(), 3);
    assert_eq!(site_fallback_urls("www.frontiersin.org", "/journals/x").len(), 3);
    assert!(site_fallback_urls("example.org", "/x").is_empty());
}

#[test]
fn links_are_filtered_and_ranked() {
    assert!(is_followable_link(" /about "));
    assert!(!is_followable_link("JavaScript:void(0)"));
    assert!(!is_followable_link("mailto:a@b.c"));
    assert!(!is_followable_link("#top"));
    assert!(!is_followable_link("   "));
    assert!(same_site_page("a.org", "a.org", "/about"));
    assert!(!same_site_page("a.org", "b.org", "/about"));
    assert!(!same_site_page("a.org", "a.org", "/Guide.PDF"));
    let ranked = candidate_links(&vec![
        "https://a.org/news".to_string(),
        "https://a.org/about".to_string(),
        "https://a.org/guide-for-authors".to_string(),
    ]);
    assert!(!ranked.contains(&"https://a.org/news".to_string()));
    assert_eq!(ranked.first().map(String::as_str), Some("https://a.org/guide-for-authors"));
}

#[test]
fn responses_that_are_not_small_html_are_refused() {
    assert_eq!(check_page_response("text/html; charset=utf-8", 100), Ok(()));
    assert_eq!(check_page_response("", 100), Ok(()));
    assert_eq!(check_page_response("application/pdf", 100), Err("页面不是 HTML".to_string()));
    assert_eq!(check_page_response("TEXT/HTML", 3 * 1024 * 1024), Err("页面超过 2MB，已跳过".to_string()));
    assert_eq!(crawl_outcome(0), Err("官网页面抓取失败".to_string()));
    assert_eq!(crawl_outcome(2), Ok(()));
}

#[test]
fn the_frontier_reads_each_page_once_and_at_most_six() {
    let start = "https://a.org/";
    let mut f = CrawlFrontier::new(start, &vec!["https://a.org/x".to_string(), start.to_string()]);
    assert_eq!(f.queue, vec!["https://a.org/", "https://a.org/x"]);
    assert_eq!(f.next_page().as_deref(), Some("https://a.org/"));
    f.page_read(&vec!["https://a.org/x".to_string(), "https://a.org/y".to_string()]);
    assert_eq!(f.queue, vec!["https://a.org/", "https://a.org/x", "https://a.org/y"]);
    let mut read = vec![start.to_string()];
    while let Some(p) = f.next_page() {
        let links: Vec<String> = (0..20).map(|i| format!("https://a.org/p{}", i)).collect();
        f.page_read(&links);
        read.push(p);
    }
    assert_eq!(read.len(), 6);
    let mut unique = read.clone();
    unique.sort();
    unique.dedup();
    assert_eq!(unique.len(), 6);
    assert!(f.queue.len() <= 12);
}

#[test]
fn backups_are_listed_latest_name_first() {
    let listed = list_backups(vec![backup("20240101_manual"), backup("20240301_manual"), backup("20240201_auto")]);
    let names: Vec<&str> = listed.iter().map(|b| b.name.as_str()).collect();
    assert_eq!(names, vec!["20240301_manual", "20240201_auto", "20240101_manual"]);
    assert!(list_backups(Vec::new()).is_empty());
}

#[test]
fn jcr_rank_lines_and_detail() {
    let text = "Journal info\n  JCR Rank 12/180 in Transportation  \nQ1 top 10%\nplain line";
    let lines = jcr_candidate_lines(text);
    assert_eq!(lines, vec!["JCR Rank 12/180 in Transportation", "Q1 top 10%"]);
    let detail = extract_jcr_rank_detail(&lines, &vec![None, Some("Q1".to_string())], None);
    assert_eq!(detail, "JCR Rank 12/180 in Transportation");
    let parsed_first = extract_jcr_rank_detail(&lines, &vec![Some("12/180".to_string()), None], None);
    assert_eq!(parsed_first, "12/180");
    let long = "rank ".repeat(60);
    let whole = extract_jcr_rank_detail(&vec![long], &vec![None], Some("from text".to_string()));
    assert_eq!(whole, "from text");
    assert_eq!(extract_jcr_rank_detail(&Vec::new(), &Vec::new(), None), "");
}

#[test]
fn the_ai_round_refuses_reports_stays_local_or_asks() {
    let req = request();
    let weak = assess_input_quality("", "", "", "");
    match plan_ai_recommendation(&weak, &req, true, &Vec::new(), "[]") {
        AiRecommendStep::Refused(m) => assert_eq!(m, weak.message),
        _ => panic!("expected a refusal"),
    }
    let ok = assess_input_quality("t", "a", "k", "");
    match plan_ai_recommendation(&ok, &req, false, &Vec::new(), "[]") {
        AiRecommendStep::NoCandidates(w) => assert!(w.starts_with("本地期刊库中没有找到")),
        _ => panic!("expected no candidates"),
    }
    let mut private = request();
    private.privacy_mode = true;
    match plan_ai_recommendation(&ok, &private, true, &vec!["前提".to_string()], "[]") {
        AiRecommendStep::LocalOnly(w) => {
            assert_eq!(w, "前提；隐私模式已开启：本次仅使用本地 RAG/规则推荐，没有调用 AI 接口。")
        }
        _ => panic!("expected local only"),
    }
    match plan_ai_recommendation(&ok, &req, true, &Vec::new(), "[{}]") {
        AiRecommendStep::AskAi(system, user) => {
            assert!(system.starts_with("你是严谨的科研投稿顾问"));
            assert!(user.starts_with("论文题目：Traffic Flow\n关键词：traffic, graph\n摘要：Graph model\n正文节选：\n"));
            assert!(user.contains("投稿偏好：英文期刊、EI\n"));
            assert!(user.contains("候选期刊 JSON：[{}]\n\n请从候选中推荐 5 个"));
        }
        _ => panic!("expected an AI call"),
    }
}

#[test]
fn the_prompt_keeps_six_thousand_characters_of_full_text() {
    let mut req = request();
    req.full_text = "字".repeat(7000);
    let prompt = build_ai_prompt(&req, "[]");
    let excerpt = format!("正文节选：{}\n投稿偏好", "字".repeat(6000));
    assert!(prompt.contains(&excerpt));
}

#[test]
fn the_ai_outcome_keeps_text_or_explains_the_failure() {
    let (w, raw) = ai_outcome(Vec::new(), Ok("answer".to_string()));
    assert_eq!(w, None);
    assert_eq!(raw.as_deref(), Some("answer"));
    let (w, raw) = ai_outcome(vec!["a".to_string(), "b".to_string()], Ok("x".to_string()));
    assert_eq!(w.as_deref(), Some("a；b"));
    assert_eq!(raw.as_deref(), Some("x"));
    let (w, raw) = ai_outcome(Vec::new(), Err("timeout".to_string()));
    assert_eq!(w.as_deref(), Some("AI 推荐暂不可用，已使用本地规则兜底：timeout"));
    assert_eq!(raw, None);
}

#[test]
fn placeholder_recommendations_name_the_topic() {
    let items = local_fallback_texts("  Graph Traffic  ");
    assert_eq!(items.len(), 5);
    let levels: Vec<&str> = items.iter().map(|i| i.fit_level.as_str()).collect();
    assert_eq!(levels, vec!["冲刺", "稳妥", "稳妥", "保底", "保底"]);
    assert_eq!(items[0].journal_name, "待从本地库匹配的候选期刊 1");
    assert_eq!(items[4].journal_name, "待从本地库匹配的候选期刊 5");
    assert_eq!(items[2].reason, "AI/RAG 尚未完成或不可用时，先按旧版规则为《Graph Traffic》保留本地兜底推荐链路。");
    assert_eq!(items[1].source, "本地规则兜底");
    let blank = local_fallback_texts("   ");
    assert!(blank[0].reason.contains("《当前论文主题》"));
}

#[test]
fn ranking_pieces_of_the_local_recommendation() {
    assert_eq!(recommendation_query(&request()), "traffic flow graph model traffic, graph body");
    let j = journal();
    assert_eq!(catalogue_points(&j, true), 22);
    assert_eq!(catalogue_points(&j, false), 18);
    let tiers = vec![CandidateTier::Reference, CandidateTier::Strong, CandidateTier::Dropped, CandidateTier::Strong];
    assert_eq!(candidate_pool(&tiers), (vec![1, 3], false));
    let weak = vec![CandidateTier::Dropped, CandidateTier::Reference, CandidateTier::Reference];
    assert_eq!(candidate_pool(&weak), (vec![1, 2], true));
    assert_eq!(candidate_pool(&Vec::new()), (Vec::new(), true));
    assert_eq!(recommendation_source(true), "本地 SQLite + RAG/FTS + 规则");
    assert_eq!(recommendation_source(false), "本地 SQLite + 规则");
    assert_eq!(recommendation_website(&j), None);
    let mut with_site = journal();
    with_site.website = "https://tr.org".to_string();
    assert_eq!(recommendation_website(&with_site).as_deref(), Some("https://tr.org"));
    assert_eq!(
        recommendation_evidence("交通运输", &j, None, "；RAG命中：scope"),
        "投稿方向：交通运输；来源：SSCI；学科：transportation；JIF：Q1；中科院：1区；影响因子：未记录；RAG命中：scope"
    );
    assert!(recommendation_evidence("x", &j, Some("5.2"), "").ends_with("影响因子：5.2"));
    assert_eq!(reason_prefix(false), "");
    assert_eq!(reason_prefix(true), "本地库没有高匹配期刊，以下是低匹配参考候选；");
}

fn catalogue_journal(id: i64, name: &str, subjects: &str, source_db: &str) -> JournalRecord {
    let mut j = journal();
    j.id = id;
    j.name = name.to_string();
    j.subjects = subjects.to_string();
    j.source_db = source_db.to_string();
    j.jif_quartile = "Q2".to_string();
    j.cas_quartile = String::new();
    j.ei = if source_db.contains("EI") { "EI".to_string() } else { String::new() };
    j
}

fn ranked_names(journals: &Vec<JournalRecord>, request: &RecommendationRequest) -> (Vec<String>, bool, String) {
    let query = recommendation_query(request);
    let guard = SubjectGuard::from_request(request, &query);
    let kept = prefilter_journals(journals, request, &guard);
    let tokens = tokenize_query(&query);
    let minimum = minimum_topic_hits(tokens.len());
    let tiers: Vec<CandidateTier> = kept
        .iter()
        .map(|j| {
            let hits = topical_match_count(&tokens, j);
            classify_candidate(guard.is_empty(), guard.alignment_score(j), hits, minimum, false, false)
        })
        .collect();
    let (pool, reference_only) = candidate_pool(&tiers);
    (pool.iter().map(|&k| kept[k].name.clone()).collect(), reference_only, guard.label())
}

#[test]
fn computer_traffic_manuscripts_get_no_history_or_literature_journals() {
    let journals = vec![
        catalogue_journal(
            1,
            "Journal of Intelligent Transportation and Graph Learning",
            "computer science artificial intelligence graph neural networks traffic forecasting intelligent transportation",
            "SCIE EI",
        ),
        catalogue_journal(2, "Modern History Review", "history humanities transportation history literature", "A&HCI"),
        catalogue_journal(3, "Comparative Literature Quarterly", "literature poetry language humanities", "A&HCI"),
    ];
    let mut req = request();
    req.title = "基于图神经网络与多源交通数据融合的城市道路短时流量预测研究".to_string();
    req.abstract_text = String::new();
    req.keywords = String::new();
    req.full_text = String::new();
    req.preferences = vec!["投稿方向:计算机科学|智能交通/交通工程".to_string()];
    let (names, reference_only, label) = ranked_names(&journals, &req);
    assert!(!names.is_empty());
    assert!(!reference_only);
    assert!(names.iter().any(|n| n.contains("Intelligent Transportation")));
    assert!(names.iter().all(|n| !n.contains("History") && !n.contains("Literature")));
    assert!(label.contains("计算机科学"));
}

#[test]
fn weak_topic_matches_are_only_for_reference() {
    let mut weak = catalogue_journal(4, "Journal of Flow Visualization and Image Processing", "traffic visualization image processing", "SCIE");
    weak.jif_quartile = "Q4".to_string();
    let mut req = request();
    req.title = "Graph neural network traffic forecasting".to_string();
    req.abstract_text = String::new();
    req.keywords = "traffic forecasting; graph neural network".to_string();
    req.full_text = String::new();
    req.preferences = Vec::new();
    req.target_jif_quartiles = vec!["Q4".to_string()];
    let (names, reference_only, _) = ranked_names(&vec![weak], &req);
    assert_eq!(names, vec!["Journal of Flow Visualization and Image Processing"]);
    assert!(reference_only);
    assert_eq!(toukan_robot_core::recommendation::fit_level(reference_only, 0), "参考");
    assert!(reason_prefix(reference_only).contains("低匹配参考"));
}

#[test]
fn excluded_journals_make_room_for_the_next_round() {
    let journals = vec![
        catalogue_journal(10, "Journal of Graph Traffic Forecasting A", "graph neural networks traffic forecasting intelligent transportation", "SCIE EI"),
        catalogue_journal(11, "Journal of Graph Traffic Forecasting B", "graph neural networks traffic forecasting intelligent transportation", "SCIE EI"),
    ];
    let mut req = request();
    req.title = "Graph neural network traffic forecasting".to_string();
    req.abstract_text = String::new();
    req.keywords = String::new();
    req.full_text = String::new();
    req.preferences = Vec::new();
    let (first, _, _) = ranked_names(&journals, &req);
    assert_eq!(first.len(), 2);
    req.exclude_journal_ids = vec![10];
    req.exclude_journal_names = vec!["journal of graph traffic forecasting a".to_string()];
    let (second, _, _) = ranked_names(&journals, &req);
    assert_eq!(second, vec!["Journal of Graph Traffic Forecasting B"]);
}

#[test]
fn crossref_works_that_name_journals_become_sources() {
    let work = |t: Option<&str>, journal: &str, title: &str| CrossrefWork {
        work_type: t.map(|s| s.to_string()),
        container_title: journal.to_string(),
        title: title.to_string(),
        issns: vec!["1111-2222".to_string(), "3333-4444".to_string()],
        url: "https://doi.org/x".to_string(),
    };
    let works = vec![
        work(Some("book-chapter"), "Book", "a"),
        work(Some("journal-article"), "  ", "b"),
        work(None, "Journal X", "c"),
        work(Some("journal-article"), "Traffic Journal", "traffic"),
    ];
    let sources = crossref_sources("traffic", &works);
    assert_eq!(sources.len(), 1);
    assert_eq!(sources[0].provider, "Crossref");
    assert_eq!(sources[0].title, "Traffic Journal");
    assert_eq!(sources[0].snippet, "相关论文：traffic；ISSN：1111-2222, 3333-4444");
    let many: Vec<CrossrefWork> = (0..12).map(|i| work(Some("journal-article"), &format!("J{}", i), "t")).collect();
    let capped = crossref_sources("q", &many);
    assert_eq!(capped.len(), 8);
    assert_eq!(capped[7].title, "J7");
}

#[test]
fn bing_result_pages_yield_sources() {
    let html = [
        "<ol><li class=\"b_algo\"><h2><a href=\"https://tj.org/a?x=1&amp;y=2\">Traffic <b>Journal</b></a></h2>",
        "<div><p>Scope: <b>traffic</b> &amp; transport</p></div></li>",
        "<li class=\"b_algo\"><h2><a href=\"https://www.bing.com/search?q=x\">Again</a></h2></li>",
        "<li class=\"b_algo other\"><h2> <a href=\"https://b.org\">B</a></h2></li></ol>",
    ]
    .join("");
    let sources = parse_bing_results(&html, "traffic");
    assert_eq!(sources.len(), 2);
    assert_eq!(sources[0].provider, "Bing");
    assert_eq!(sources[0].url, "https://tj.org/a?x=1&y=2");
    assert_eq!(sources[0].title, "Traffic Journal");
    assert_eq!(sources[0].snippet, "Scope: traffic & transport");
    assert_eq!(sources[1].url, "https://b.org");
    assert_eq!(sources[1].snippet, "");
    assert!(parse_bing_results("<p>nothing</p>", "q").is_empty());
}

#[test]
fn backup_and_export_sources_and_names() {
    let paths = AppPaths::from_root("/r");
    let b = backup_sources(&paths);
    assert_eq!(b.len(), 8);
    assert_eq!(b[0], paths.db);
    assert_eq!(b[6], paths.exports);
    let e = export_sources(&paths);
    assert_eq!(e.len(), 7);
    assert!(!e.contains(&paths.exports));
    assert_eq!(export_dir_name("20240101_120000"), "full_data_export_20240101_120000");
}

#[test]
fn root_discovery_and_layout_directories() {
    assert_eq!(discover_root(Some("/home/x"), true, Some("/l")), "/home/x");
    assert_eq!(discover_root(None, true, Some("/l")), "D:\\投刊机器人");
    let local = discover_root(None, false, Some("/l"));
    assert!(local == "/l/投刊机器人" || local == "/l\\投刊机器人");
    assert_eq!(discover_root(None, false, None), "投刊机器人");
    let paths = AppPaths::from_root("/r");
    let dirs = paths.all_directories();
    assert_eq!(dirs.len(), 16);
    assert_eq!(dirs[0], "/r");
    assert_eq!(dirs[15], paths.logs);
}

#[test]
fn enrichment_loads_selected_journals_and_records_sources() {
    assert_eq!(selected_journals_sql(0), None);
    let sql = selected_journals_sql(3).unwrap();
    assert!(sql.ends_with("j.id IN (?,?,?)"));
    assert!(sql.starts_with("SELECT id, name, COALESCE(issn,'')"));
    assert!(source_record(1, "scope_text", "official_website", "https://x", "updated", "note", true).is_none());
    let rec = source_record(1, "scope_text", "official_website", "https://x", "updated", "abc", false).unwrap();
    assert_eq!(rec.content_hash, "ba7816bf8f01cfea414140de5dae2223b00361a396177a9cb410ff61f20015ad");
    assert_eq!(rec.note, "abc");
}

#[test]
fn index_refresh_steps_and_checks() {
    assert_eq!(INDEX_BATCH_SIZE, 128);
    assert_eq!(refresh_step(0, 5), RefreshStep::Rebuild);
    assert_eq!(refresh_step(10, 0), RefreshStep::Report);
    assert_eq!(refresh_step(10, 3), RefreshStep::Batch);
    assert_eq!(check_embedding_count(3, 3), Ok(()));
    assert_eq!(check_embedding_count(3, 2), Err("本地 Embedding 模型返回的向量数量不完整".to_string()));
    assert!(keep_indexing(&batch_index_health("a", 1, 2, 0)));
    assert!(!keep_indexing(&batch_index_health("a", 1, 0, 0)));
}

#[test]
fn only_web_links_are_opened() {
    assert_eq!(checked_external_url("  https://a.org  "), Ok("https://a.org".to_string()));
    assert_eq!(checked_external_url("http://a.org"), Ok("http://a.org".to_string()));
    assert_eq!(checked_external_url("file:///c"), Err("只能打开 http 或 https 链接".to_string()));
}

#[test]
fn table_columns_are_listed_by_pragma() {
    assert_eq!(table_info_sql("journals"), "PRAGMA table_info(journals)");
}

#[test]
fn export_files_are_named_and_reported() {
    assert_eq!(export_file_name(ExportKind::Journals, "20240101_120000"), "我的收藏_20240101_120000.csv");
    assert_eq!(export_file_name(ExportKind::Submissions, "s"), "投稿记录_s.csv");
    let report = toukan_robot_core::journal_store::export_report(ExportKind::Journals, "/e/x.csv", 3);
    assert_eq!(report.rows_exported, 3);
    assert_eq!(report.message, "收藏期刊 CSV 已导出。");
    assert_eq!(toukan_robot_core::journal_store::export_report(ExportKind::Submissions, "/e/y.csv", 0).message, "投稿记录 CSV 已导出。");
}

#[test]
fn legacy_sources_and_warnings() {
    assert_eq!(gap_warning(LegacyGap::NoDatabase), "未找到旧版 journal_library.db。");
    assert_eq!(gap_warning(LegacyGap::NoJournalTable), "旧版数据库没有 journals 表，已跳过期刊迁移。");
    assert_eq!(gap_warning(LegacyGap::NoSubmissionTable), "旧版数据库没有 submissions 表，已跳过投稿记录迁移。");
    assert_eq!(missing_source_error("D:\\old"), "旧版目录不存在：D:\\old");
    assert_eq!(legacy_database_candidates(), vec![vec!["journal_library.db"], vec!["data", "journal_library.db"]]);
    assert_eq!(template_directories(), vec!["模板库", "templates", "投稿模板", "通用模板"]);
    assert_eq!(attachment_directories(), vec!["论文附件", "attachments", "附件", "papers"]);
    assert_eq!(skipped_file_warning("/t/a.docx"), "已跳过已存在文件：/t/a.docx");
    assert_eq!(report_file_name("20240101_000000"), "legacy_import_20240101_000000.json");
    assert_eq!(IMPORTED_PREFERENCE, "正常推荐");
}

#[test]
fn stored_file_names_and_resource_reports() {
    assert_eq!(stored_attachment_name("20240101_000000", "a:b?.pdf"), "20240101_000000_a_b_.pdf");
    assert_eq!(stored_attachment_name("s", "  "), "s_未命名文件");
    assert_eq!(missing_attachment_error("/x.pdf"), "论文附件不存在：/x.pdf");
    assert_eq!(stored_resource_name("s", "list*.xlsx"), "s_list_.xlsx");
    assert_eq!(stored_resource_name("s", ""), "s_未命名资源");
    assert_eq!(missing_resource_error("/r.xlsx"), "资源文件不存在：/r.xlsx");
    assert_eq!(resource_backup_reason(ResourceOrigin::File), "resource_import");
    assert_eq!(resource_backup_reason(ResourceOrigin::Upload), "resource_upload");
    let file = resource_save_report(ResourceOrigin::File, "/r/s_a.xlsx", "/b/backup_x");
    assert_eq!(file.backup_dir.as_deref(), Some("/b/backup_x"));
    assert_eq!(file.message, "资源文件已保存，数据库已自动备份，导入记录已写入。");
    let upload = resource_save_report(ResourceOrigin::Upload, "/r/s_b.xlsx", "/b/backup_y");
    assert_eq!(upload.message, "资源已保存并登记；关联期刊会在下次推荐前增量更新索引。");
}

#[test]
fn search_rounds_stop_at_five_sources() {
    assert_eq!(QUERIES_PER_ROUND, 3);
    assert!(wants_more_sources(4));
    assert!(!wants_more_sources(5));
    assert_eq!(crossref_error("graph", "timeout"), "Crossref / graph：timeout");
    assert_eq!(RECOMMENDATIONS_KEPT, 5);
    assert!(LOCAL_RISK_NOTE.contains("人工核验"));
}

#[test]
fn title_matching_is_symmetric_on_examples() {
    assert_eq!(title_matches("Journal of AI", "journal of ai research"), title_matches("journal of ai research", "Journal of AI"));
    assert!(title_matches("Journal of AI", "Journal of AI"));
    assert!(!title_matches("!!", "!!"));
}

#[test]
fn page_links_are_resolved_on_the_same_site() {
    let html = [
        "<a href=\"/about/journal-information\">Info</a>",
        "<a href='https://other.org/author-guidelines'>Other</a>",
        "<a href=\"mailto:editor@a.org\">Mail</a>",
        "<a HREF = \"guide-for-authors\">Guide</a>",
        "<a href=\"/files/scope.pdf\">PDF</a>",
        "<a href=\"/news#top\">News</a>",
    ]
    .join("\n");
    let links = extract_candidate_links(&html, "https://a.org/journal/home");
    assert_eq!(links, vec!["https://a.org/about/journal-information", "https://a.org/journal/guide-for-authors"]);
    assert!(extract_candidate_links(&html, "not a url").is_empty());
}

#[test]
fn metrics_lines_and_rebuild_reports() {
    let mut j = journal();
    j.grade = "A".to_string();
    j.oa_flag = "OA".to_string();
    j.jcr_rank_detail = "Top 5%".to_string();
    assert_eq!(index_metrics(MetricsStyle::Batch, &j, None), "JIF=Q1; CAS=1区; IF=unknown; grade=A");
    assert_eq!(index_metrics(MetricsStyle::Batch, &j, Some("3.5")), "JIF=Q1; CAS=1区; IF=3.5; grade=A");
    assert_eq!(index_metrics(MetricsStyle::Complete, &j, None), "JIF=Q1; CAS=1区; IF=; OA=OA; JCR=Top 5%; grade=A");
    assert_eq!(index_metrics(MetricsStyle::Localized, &j, None), "JIF=Q1；中科院=1区；影响因子=未记录；等级=A");
    let p = indexed_profile(MetricsStyle::Localized, &j, Some("2"), None, "topics", None);
    assert_eq!(p.metrics, "JIF=Q1；中科院=1区；影响因子=2；等级=A");
    assert_eq!(p.article_topics, "topics");
    let h = complete_rebuild_health(12, 7);
    assert_eq!((h.status.as_str(), h.detail.as_str(), h.dirty_chunks, h.index_bytes), ("正常", "已用本地多语言 Embedding 重建 12 个 RAG chunk。", 0, 7));
    let empty = sequential_rebuild_health(0, 0);
    assert_eq!(empty.status, "需要更新");
    assert_eq!(empty.detail, "RAG 索引已重建，生成 0 个 chunk。");
    assert_eq!(sequential_rebuild_health(3, 0).status, "正常");
}
