use toukan_robot_core::journal_enrichment::title_matches;
use toukan_robot_core::page_text::{extract_section, html_to_text};
use toukan_robot_core::rag_index::{generate_chunks, JournalProfileForChunks};
use toukan_robot_core::recommendation::assess_input_quality;
use toukan_robot_core::resource_import::detect_columns;

#[test]
fn title_only_can_recommend_with_low_info_warning() {
    let quality = assess_input_quality("A Study on AI", "", "", "");
    assert!(quality.can_recommend);
    assert!(quality.low_info);
    assert_eq!(quality.filled_fields, 1);
    assert!(quality.message.contains("信息较少"));
}

#[test]
fn empty_input_cannot_recommend() {
    let quality = assess_input_quality("", "", "", "");
    assert!(!quality.can_recommend);
    assert!(!quality.low_info);
    assert!(quality.message.contains("至少填写"));
}

#[test]
fn rag_chunks_are_generated_by_information_type() {
    let profile = JournalProfileForChunks {
        journal_id: 7,
        name: "IEEE Access".to_string(),
        subjects: "Computer Science".to_string(),
        source_db: "SCIE".to_string(),
        metrics: "JIF Q2; CAS 4区".to_string(),
        scope_text: "Publishes multidisciplinary engineering research.".to_string(),
        user_experience: "用户记录：审稿较快，版面费较高。".to_string(),
        article_topics: "graph neural networks; traffic forecasting".to_string(),
        guidelines: "Follow IEEE template.".to_string(),
    };
    let chunks = generate_chunks(&profile);
    let types: Vec<_> = chunks.iter().map(|c| c.chunk_type.as_str()).collect();
    assert!(types.contains(&"profile"));
    assert!(types.contains(&"scope"));
    assert!(types.contains(&"experience"));
    assert!(types.contains(&"articles"));
    assert!(types.contains(&"guidelines"));
}

#[test]
fn resource_columns_are_detected_by_aliases() {
    let cols = vec![
        "Journal Name".to_string(),
        "Impact Factor".to_string(),
        "Publisher".to_string(),
    ];
    let detected = detect_columns(&cols);
    assert_eq!(detected.get("期刊名称"), Some(&"Journal Name".to_string()));
    assert_eq!(detected.get("影响因子"), Some(&"Impact Factor".to_string()));
    assert_eq!(detected.get("出版社"), Some(&"Publisher".to_string()));
}

#[test]
fn html_parser_keeps_reliable_text_and_handles_unicode() {
    let html = r#"
        <html><script>ignore()</script><style>.x{}</style>
        <h1>Aims &amp; Scope</h1>
        <p>研究人工智能与交通系统。</p>
        <h2>Author Guidelines</h2>
    "#;
    let text = html_to_text(html);
    assert!(!text.contains("ignore"));
    assert!(!text.contains(".x"));
    assert!(extract_section(&text, &vec!["aims & scope"]).contains("研究人工智能"));
}

#[test]
fn title_matching_is_conservative() {
    assert!(title_matches("Journal of AI", "Journal of AI"));
    assert!(!title_matches("Journal of AI", "Journal of Biology"));
}
