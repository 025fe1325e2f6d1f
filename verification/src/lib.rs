//! Core logic of the journal submission assistant: input checks, keyword
//! extraction, subject guards, index bookkeeping, enrichment planning and the
//! small text routines they share.

pub mod text;
pub mod journal_store;
pub mod recommendation;
pub mod journal_enrichment;
pub mod page_text;
pub mod patterns;
pub mod rag_index;
pub mod paths;
pub mod sync;
pub mod settings;
pub mod diagnostics;
pub mod external_links;
pub mod resource_import;
pub mod paper_parser;
pub mod backup_restore;
pub mod legacy_import;
pub mod template_manager;
pub mod web_search;
pub mod db;
pub mod site_crawl;
