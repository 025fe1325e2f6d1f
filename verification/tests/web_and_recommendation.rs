use toukan_robot_core::journal_store::JournalRecord;
use toukan_robot_core::recommendation::{assess_input_quality, fit_level, personal_preference_adjustment};
use toukan_robot_core::web_search::{
    build_web_queries, crossref_offset, extract_issns, filter_sources_by_jif_quartiles, html_unescape, initial_seen,
    journal_identity_key, match_local_journal, normalize_issn, normalize_title, percent_decode, push_unique,
    round_queries, strip_html, unwrap_duckduckgo_url, web_search_report, WebSearchReport, WebSearchRequest,
    WebSearchSource,
};

fn journal(id: i64, name: &str, issn: &str, jif: &str) -> JournalRecord {
    JournalRecord {
        id,
        name: name.to_string(),
        issn: issn.to_string(),
        eissn: String::new(),
        source_db: "SCIE".to_string(),
        jif_quartile: jif.to_string(),
        cas_quartile: String::new(),
        cas_zone: String::new(),
        subjects: "traffic forecasting".to_string(),
        publisher: String::new(),
        ccf: String::new(),
        ei: String::new(),
        cssci: String::new(),
        cscd: String::new(),
        pku_core: String::new(),
        ami_level: String::new(),
        top_flag: String::new(),
        oa_flag: String::new(),
        oa_detail: String::new(),
        website: String::new(),
        scope_text: String::new(),
        jcr_rank_detail: String::new(),
        difficulty: String::new(),
        recommendation_preference: String::new(),
        apc: String::new(),
        review_cycle: String::new(),
        tags: String::new(),
        summary: String::new(),
        experience: String::new(),
        rejection_reason: String::new(),
        suitable_topics: String::new(),
        avoid_reason: String::new(),
        article_topics: String::new(),
        submission_guidelines: String::new(),
        grade: String::new(),
    }
}

fn source(title: &str, snippet: &str) -> WebSearchSource {
    WebSearchSource {
        provider: "Crossref".to_string(),
        query: "traffic".to_string(),
        title: title.to_string(),
        url: String::new(),
        snippet: snippet.to_string(),
        jif_quartile: String::new(),
    }
}

#[test]
fn queries_are_sorted_and_start_from_the_first_filled_field() {
    let q = build_web_queries("  ", "abstract", " graph learning ", false);
    assert_eq!(
        q,
        vec![
            "graph learning SCI journal",
            "graph learning SCIE SSCI journal",
            "graph learning author guidelines journal",
            "graph learning journal",
            "graph learning submission scope journal",
        ]
    );
    let mut sorted = q.clone();
    sorted.sort();
    sorted.dedup();
    assert_eq!(sorted, q);
    let zh = build_web_queries("", "", "", true);
    let mut zh_sorted = zh.clone();
    zh_sorted.sort();
    assert_eq!(zh_sorted, zh);
    assert_eq!(zh[2], "journal journal");
}

#[test]
fn refresh_rounds_rotate_the_queries() {
    let request = WebSearchRequest {
        title: "t".to_string(),
        abstract_text: String::new(),
        keywords: String::new(),
        prefer_chinese: false,
        exclude_titles: vec![],
        refresh_round: 7,
        target_jif_quartiles: vec![],
    };
    let q = round_queries(&request);
    let base = build_web_queries("t", "", "", false);
    assert_eq!(q[0], base[2]);
    assert_eq!(q[4], base[1]);
    assert_eq!(crossref_offset(3), 24);
    assert_eq!(crossref_offset(50), 80);
}

#[test]
fn found_journals_are_told_apart() {
    assert_eq!(journal_identity_key(&source("J", "ISSN：1234-567x")), "issn:1234-567X");
    assert_eq!(journal_identity_key(&source("Journal of AI", "")), "journal:journalofai");
    let mut s = source("!!", "");
    s.url = "HTTPS://X.ORG".to_string();
    assert_eq!(journal_identity_key(&s), "https://x.org");
    assert_eq!(normalize_title("Ünïcode Jöurnal"), "ünïcodejöurnal");
    assert_eq!(normalize_issn("1234-567x"), "1234567X");
    let mut keys = extract_issns("ISSN 1111-2222, 1111-2222 and 3333-444X");
    keys.sort();
    assert_eq!(keys, vec!["11112222".to_string(), "3333444X".to_string()]);
}

#[test]
fn push_unique_skips_seen_and_stops_at_eight() {
    let mut seen = initial_seen(&vec!["Journal A".to_string(), "  ".to_string()]);
    assert_eq!(seen, vec!["journal:journala".to_string()]);
    let mut out = Vec::new();
    let items: Vec<_> = ["Journal A", "Journal B", "Journal B", "C", "D", "E", "F", "G", "H", "I", "J"]
        .iter()
        .map(|t| source(t, ""))
        .collect();
    push_unique(&mut out, &mut seen, items);
    let titles: Vec<_> = out.iter().map(|s| s.title.as_str()).collect();
    assert_eq!(titles, vec!["Journal B", "C", "D", "E", "F", "G", "H", "I"]);
}

#[test]
fn sources_are_matched_by_issn_then_title() {
    let catalogue = vec![journal(1, "Other", "9999-0000", "Q1"), journal(2, "Verified Q3 Traffic Journal", "1111-2222", "Q3")];
    assert_eq!(match_local_journal(&catalogue, &source("whatever", "ISSN：1111-2222")), Some(1));
    assert_eq!(match_local_journal(&catalogue, &source("Traffic Journal", "")), Some(1));
    assert_eq!(match_local_journal(&catalogue, &source("Nothing", "")), None);
}

#[test]
fn web_sources_are_filtered_by_catalogue_quartile() {
    let catalogue = vec![journal(1, "Verified Q3 Traffic Journal", "1111-2222", "Q3")];
    let report = WebSearchReport {
        sources: vec![source("Verified Q3 Traffic Journal", "相关论文：traffic；ISSN：1111-2222")],
        warning: None,
    };
    let q3 = filter_sources_by_jif_quartiles(&catalogue, report.clone(), &vec!["Q3".to_string()]);
    assert_eq!(q3.sources.len(), 1);
    assert_eq!(q3.sources[0].jif_quartile, "Q3");
    assert!(q3.sources[0].snippet.ends_with("；本地库核验 JIF 分区：Q3"));
    let q4 = filter_sources_by_jif_quartiles(&catalogue, report.clone(), &vec!["q4".to_string()]);
    assert!(q4.sources.is_empty());
    assert!(q4.warning.unwrap().contains("无法核验为 Q4"));
    let none = filter_sources_by_jif_quartiles(&catalogue, report, &vec![" ".to_string()]);
    assert!(none.warning.is_none());
    assert_eq!(none.sources.len(), 1);
}

#[test]
fn round_reports_explain_empty_results() {
    let r = web_search_report(vec![], &vec!["e1".to_string(), "e2".to_string(), "e3".to_string()]);
    assert_eq!(r.warning.unwrap(), "联网搜索暂时不可用：e1；e2");
    let r = web_search_report(vec![], &vec![]);
    assert_eq!(r.warning.unwrap(), "联网搜索没有找到可用结果。");
    let many: Vec<_> = (0..7).map(|i| source(&format!("S{}", i), "")).collect();
    assert_eq!(web_search_report(many, &vec![]).sources.len(), 5);
}

#[test]
fn search_page_text_is_cleaned() {
    assert_eq!(html_unescape("&amp;lt;"), "<");
    assert_eq!(strip_html("<b>Nature</b>   <i>Physics</i> &amp; more"), "Nature Physics & more");
    assert_eq!(percent_decode("a%2Fb%zzc%4"), "a/b%c%");
    assert_eq!(percent_decode("%+5"), "\u{5}");
    assert_eq!(
        unwrap_duckduckgo_url("//duckduckgo.com/l/?uddg=https%3A%2F%2Fjournal.org%2Fa&amp;rut=1"),
        "https://journal.org/a"
    );
    assert_eq!(unwrap_duckduckgo_url("//example.org/x"), "https://example.org/x");
    assert_eq!(unwrap_duckduckgo_url("https://example.org"), "https://example.org");
}

#[test]
fn quality_levels_and_preferences() {
    let q = assess_input_quality("T", "A", "K", "");
    assert_eq!(q.filled_fields, 3);
    assert!(!q.low_info);
    assert_eq!(fit_level(true, 0), "参考");
    assert_eq!(fit_level(false, 0), "冲刺");
    assert_eq!(fit_level(false, 4), "保底");
    assert!(personal_preference_adjustment("不推荐") < 0);
}
