use toukan_robot_core::journal_enrichment::{
    article_topics_text, choose_website_url, combined_page_text, crossref_accepted, lookup_issn, new_enrichment_report,
    normalize_issn, normalize_title, plan_crossref_updates, plan_journal_enrichment, plan_website_updates, record_journal,
    website_metadata_from_pages, CrossrefMetadata, SelectedJournal, SitePage, WebsiteMetadata, WebsiteOutcome,
    WriteTable,
};
use toukan_robot_core::page_text::{
    extract_fee_text, extract_open_access_text, extract_review_cycle_text, extract_section, html_entities, html_to_text,
    infer_oa_flag, score_candidate_url,
};

fn blank_journal() -> SelectedJournal {
    SelectedJournal {
        id: 3,
        name: "Journal of Testing".to_string(),
        issn: String::new(),
        eissn: String::new(),
        publisher: String::new(),
        oa_flag: String::new(),
        oa_detail: String::new(),
        website: String::new(),
        scope_text: String::new(),
        jcr_rank_detail: String::new(),
        submission_guidelines: String::new(),
        article_topics: String::new(),
        apc: String::new(),
        review_cycle: String::new(),
    }
}

fn crossref() -> CrossrefMetadata {
    CrossrefMetadata {
        issn: "1234-5678".to_string(),
        article_topics: "Paper A\nPaper B".to_string(),
        publisher: "Test Press".to_string(),
        website_url: "https://example.org/journal".to_string(),
        source_url: "https://api.crossref.org/journals/1234-5678".to_string(),
    }
}

fn website() -> WebsiteMetadata {
    WebsiteMetadata {
        scope_text: "Traffic research.".to_string(),
        scope_source_url: "https://example.org/aims".to_string(),
        submission_guidelines: String::new(),
        submission_source_url: String::new(),
        oa_flag: "Fully OA".to_string(),
        oa_source_url: "https://example.org/oa".to_string(),
        oa_detail: "Open access journal.".to_string(),
        oa_detail_source_url: "https://example.org/oa".to_string(),
        apc_text: String::new(),
        apc_source_url: String::new(),
        review_cycle: String::new(),
        review_source_url: String::new(),
        jcr_rank_detail: String::new(),
        jcr_source_url: String::new(),
        source_url: "https://example.org".to_string(),
    }
}

#[test]
fn section_runs_to_the_next_boundary() {
    let text = "Home. Aims and Scope: We publish graph learning. Author Guidelines: use LaTeX.";
    let s = extract_section(text, &vec!["aims and scope"]);
    assert_eq!(s, ": We publish graph learning.");
}

#[test]
fn section_is_empty_without_heading() {
    assert_eq!(extract_section("nothing here", &vec!["scope"]), "");
}

#[test]
fn section_is_cut_to_twelve_hundred_characters() {
    let body = "x".repeat(3000);
    let text = format!("scope {}", body);
    let s = extract_section(&text, &vec!["scope"]);
    assert_eq!(s.chars().count(), 1199);
}

#[test]
fn open_access_and_fee_sections() {
    let text = "Open Access Policy all articles are free. Contact us.";
    assert_eq!(extract_open_access_text(text), "all articles are free.");
    let fees = "Article Processing Charges USD 1500 per article References";
    assert_eq!(extract_fee_text(fees), "USD 1500 per article");
}

#[test]
fn review_cycle_picks_first_matching_line() {
    let text = "About us\n  Time to first decision: 30 days  \nPeer review is double blind\n";
    assert_eq!(extract_review_cycle_text(text), "Time to first decision: 30 days");
    assert_eq!(extract_review_cycle_text("no such line\n"), "");
}

#[test]
fn long_review_line_is_cut_to_280_characters() {
    let line = format!("peer review {}", "y".repeat(400));
    assert_eq!(extract_review_cycle_text(&line).chars().count(), 280);
}

#[test]
fn open_access_type_is_inferred() {
    assert_eq!(infer_oa_flag("This is a diamond open access journal", ""), "Diamond OA");
    assert_eq!(infer_oa_flag("Hybrid OA options", ""), "Hybrid OA");
    assert_eq!(infer_oa_flag("We are a gold open access publisher", ""), "Fully OA");
    assert_eq!(infer_oa_flag("", "Open Access fees apply"), "OA");
    assert_eq!(infer_oa_flag("", "No APC is charged"), "OA / No APC");
    assert_eq!(infer_oa_flag("subscription", "page fee"), "");
}

#[test]
fn entities_and_tags_are_removed() {
    assert_eq!(html_entities("a&nbsp;&amp;&lt;b&gt;&quot;&#39;"), "a &<b>\"'");
    assert_eq!(html_to_text("<p>One</p><p>Two &amp; three</p>"), "One Two & three");
}

#[test]
fn candidate_urls_are_scored_by_fragments() {
    assert_eq!(score_candidate_url("https://x.org/journal-information"), 140);
    assert_eq!(score_candidate_url("https://x.org/AUTHOR-Guidelines"), 180);
    assert_eq!(score_candidate_url("https://x.org/"), 0);
}

#[test]
fn issn_is_normalised_only_with_eight_characters() {
    assert_eq!(normalize_issn("1234567x"), Some("1234-567X".to_string()));
    assert_eq!(normalize_issn("ISSN 0028-0836"), Some("0028-0836".to_string()));
    assert_eq!(normalize_issn("123"), None);
}

#[test]
fn title_key_keeps_ascii_letters_and_digits() {
    assert_eq!(normalize_title("Journal of A.I. (2nd)"), "JOURNALOFAI2ND");
}

#[test]
fn website_prefers_the_journals_own_address() {
    let mut j = blank_journal();
    assert_eq!(choose_website_url(&j, Some(&crossref())), Some("https://example.org/journal".to_string()));
    j.website = "  http://own.example  ".to_string();
    assert_eq!(choose_website_url(&j, Some(&crossref())), Some("http://own.example".to_string()));
    j.website = "own.example".to_string();
    assert_eq!(choose_website_url(&j, None), None);
}

#[test]
fn crossref_answers_by_name_need_matching_titles() {
    assert!(crossref_accepted("Journal of AI", false, "JOURNAL OF AI"));
    assert!(!crossref_accepted("Journal of AI", false, "Biology Letters"));
    assert!(crossref_accepted("Journal of AI", true, "Biology Letters"));
    assert!(!crossref_accepted("Journal of AI", true, "  "));
}

#[test]
fn lookup_issn_falls_back_to_eissn() {
    let mut j = blank_journal();
    j.eissn = "2345-6789".to_string();
    assert_eq!(lookup_issn(&j), Some("2345-6789".to_string()));
}

#[test]
fn article_topics_drop_blank_titles() {
    let titles = vec![" First ".to_string(), "  ".to_string(), "Second".to_string()];
    assert_eq!(article_topics_text(&titles), "First\nSecond");
}

#[test]
fn crossref_fills_only_blank_fields() {
    let mut j = blank_journal();
    j.publisher = "Kept Press".to_string();
    let plan = plan_crossref_updates(&j, &crossref());
    let fields: Vec<_> = plan.iter().map(|a| a.report.field_name.as_str()).collect();
    assert_eq!(fields, vec!["issn", "website", "article_topics"]);
    assert!(plan.iter().all(|a| a.report.status == "updated" && a.write.is_some()));
    assert_eq!(plan[2].write.as_ref().unwrap().table, WriteTable::Profiles);
}

#[test]
fn crossref_with_nothing_to_fill_says_so() {
    let mut j = blank_journal();
    j.issn = "x".to_string();
    j.publisher = "x".to_string();
    j.website = "x".to_string();
    j.article_topics = "x".to_string();
    let plan = plan_crossref_updates(&j, &crossref());
    assert_eq!(plan.len(), 1);
    assert_eq!(plan[0].report.status, "skipped");
    assert!(plan[0].write.is_none());
}

#[test]
fn website_never_overwrites_existing_scope() {
    let mut j = blank_journal();
    j.scope_text = "Existing scope".to_string();
    let plan = plan_website_updates(&j, &website());
    let scope = plan.iter().find(|a| a.report.field_name == "scope_text").unwrap();
    assert_eq!(scope.report.status, "skipped");
    assert!(scope.write.is_none());
    let oa = plan.iter().find(|a| a.report.field_name == "oa_flag").unwrap();
    assert_eq!(oa.report.status, "updated");
    let jcr: Vec<_> = plan.iter().filter(|a| a.report.field_name == "jcr_rank_detail").collect();
    assert_eq!(jcr.len(), 1);
    assert_eq!(jcr[0].report.message, "页面未识别到 JCR 排名或百分位");
}

#[test]
fn journal_plan_and_report_counts() {
    let j = blank_journal();
    let failed = WebsiteOutcome::Failed { url: "https://x.org".to_string(), reason: "timeout".to_string() };
    let plan = plan_journal_enrichment(&j, None, &failed);
    assert_eq!(plan.len(), 2);
    assert_eq!(plan[0].report.message, "官网页面无法可靠解析，未写入：timeout");
    assert_eq!(plan[1].report.field_name, "issn/eissn/article_topics");
    let mut report = new_enrichment_report(true);
    record_journal(&mut report, &j, &plan);
    assert_eq!(report.processed, 1);
    assert_eq!(report.updated_fields, 0);
    assert_eq!(report.skipped_fields, 2);
    assert_eq!(report.journals[0].fields.len(), 2);
    let read = WebsiteOutcome::Read(website());
    let plan2 = plan_journal_enrichment(&j, Some(&crossref()), &read);
    record_journal(&mut report, &j, &plan2);
    assert_eq!(report.processed, 2);
    assert!(report.updated_fields >= 4);
}

#[test]
fn site_values_come_from_first_page_then_whole_site() {
    let pages = vec![
        SitePage { url: "https://x.org/a".to_string(), text: "Welcome".to_string(), jcr_rank_detail: String::new() },
        SitePage {
            url: "https://x.org/b".to_string(),
            text: "Aims and Scope: graph learning for traffic.".to_string(),
            jcr_rank_detail: "Top 10%".to_string(),
        },
    ];
    assert_eq!(combined_page_text(&pages), "Welcome\n\nAims and Scope: graph learning for traffic.");
    let m = website_metadata_from_pages(&pages, "https://x.org", "").unwrap();
    assert_eq!(m.scope_text, ": graph learning for traffic.");
    assert_eq!(m.scope_source_url, "https://x.org/b");
    assert_eq!(m.jcr_rank_detail, "Top 10%");
    assert_eq!(m.oa_source_url, "https://x.org");
    assert_eq!(m.source_url, "https://x.org");
}

#[test]
fn site_without_information_is_refused() {
    let pages = vec![SitePage { url: "u".to_string(), text: "nothing useful".to_string(), jcr_rank_detail: String::new() }];
    let e = website_metadata_from_pages(&pages, "u", "").unwrap_err();
    assert_eq!(e, "未识别到明确的 scope、投稿指南或补充信息");
}
