//! Controlled enrichment of journal records from Crossref and official
//! websites. The network and database work is the caller's; here stand the
//! decisions: which fields to fill, from where, and what to report. Fields
//! that already hold something are never overwritten.
use vstd::prelude::*;
use crate::patterns::opt_view;
use crate::page_text::{
    extract_fee_text, extract_open_access_text, extract_review_cycle_text, extract_section, extract_section_spec,
    fee_headings, infer_oa_flag, infer_oa_flag_spec, open_access_headings, review_cycle_spec,
};
use crate::text::{
    append, cat, chars_of, contains, contains_spec, drop_empty, is_ascii_alnum, is_blank, is_blank_spec, join, join_spec,
    owned, push_char, starts_with, strs, starts_with_spec, str_eq, string_of_range, trim, trim_spec, views,
};

verus! {

/// Which journals to enrich, and whether to write anything.
#[derive(Clone, Debug)]
pub struct EnrichmentRequest {
    pub journal_ids: Vec<i64>,
    pub dry_run: bool,
}

/// What happened to one field.
#[derive(Clone, Debug)]
pub struct EnrichmentFieldReport {
    pub field_name: String,
    pub status: String,
    pub source_kind: String,
    pub source_url: String,
    pub message: String,
}

/// What happened to one journal.
#[derive(Clone, Debug)]
pub struct EnrichmentJournalReport {
    pub journal_id: i64,
    pub journal_name: String,
    pub fields: Vec<EnrichmentFieldReport>,
}

/// What an enrichment run did.
#[derive(Clone, Debug)]
pub struct EnrichmentReport {
    pub dry_run: bool,
    pub processed: usize,
    pub updated_fields: usize,
    pub skipped_fields: usize,
    pub warnings: Vec<String>,
    pub journals: Vec<EnrichmentJournalReport>,
}

/// The fields of a selected journal that enrichment may fill.
#[derive(Clone, Debug)]
pub struct SelectedJournal {
    pub id: i64,
    pub name: String,
    pub issn: String,
    pub eissn: String,
    pub publisher: String,
    pub oa_flag: String,
    pub oa_detail: String,
    pub website: String,
    pub scope_text: String,
    pub jcr_rank_detail: String,
    pub submission_guidelines: String,
    pub article_topics: String,
    pub apc: String,
    pub review_cycle: String,
}

/// The query that loads the selected journals, with one placeholder per
/// id; none for an empty selection, which loads nothing.
pub open spec fn selected_journals_sql_spec(count: nat) -> Option<Seq<char>> {
    if count == 0 {
        None
    } else {
        Some("SELECT id, name, COALESCE(issn,''), COALESCE(eissn,''), COALESCE(publisher,''), COALESCE(oa_flag,''), COALESCE(oa_detail,''), COALESCE(website,''), COALESCE(scope_text,''), COALESCE(jcr_rank_detail,''), COALESCE(p.submission_guidelines,''), COALESCE(p.article_topics,''), COALESCE(p.apc,''), COALESCE(p.review_cycle,'')\n         FROM journals j\n         LEFT JOIN journal_user_profiles p ON p.journal_id=j.id\n         WHERE j.deleted_at IS NULL AND j.id IN ("@
            + join_spec(crate::journal_store::copies("?"@, count), ","@) + ")"@)
    }
}

/// The query that loads `count` selected journals.
pub fn selected_journals_sql(count: usize) -> (r: Option<String>)
    ensures
        opt_view(r) == selected_journals_sql_spec(count as nat),
{
    if count == 0 {
        return None;
    }
    let marks = crate::journal_store::repeated("?", count);
    let mut sql = owned(
        "SELECT id, name, COALESCE(issn,''), COALESCE(eissn,''), COALESCE(publisher,''), COALESCE(oa_flag,''), COALESCE(oa_detail,''), COALESCE(website,''), COALESCE(scope_text,''), COALESCE(jcr_rank_detail,''), COALESCE(p.submission_guidelines,''), COALESCE(p.article_topics,''), COALESCE(p.apc,''), COALESCE(p.review_cycle,'')\n         FROM journals j\n         LEFT JOIN journal_user_profiles p ON p.journal_id=j.id\n         WHERE j.deleted_at IS NULL AND j.id IN (",
    );
    let list = join(&marks, ",");
    append(&mut sql, list.as_str());
    append(&mut sql, ")");
    Some(sql)
}

/// The provenance row written for an enrichment decision; its time stamp is
/// added when it is written.
#[derive(Clone, Debug)]
pub struct SourceRecord {
    pub journal_id: i64,
    pub field_name: String,
    pub source_kind: String,
    pub source_url: String,
    pub status: String,
    pub note: String,
    pub content_hash: String,
}

/// The provenance row of a decision: none in a dry run, else the decision
/// with the SHA-256 digest of its note.
pub fn source_record(
    journal_id: i64,
    field_name: &str,
    source_kind: &str,
    source_url: &str,
    status: &str,
    note: &str,
    dry_run: bool,
) -> (r: Option<SourceRecord>)
    ensures
        dry_run <==> r is None,
        r matches Some(rec) ==> {
            &&& rec.journal_id == journal_id
            &&& rec.field_name@ == field_name@
            &&& rec.source_kind@ == source_kind@
            &&& rec.source_url@ == source_url@
            &&& rec.status@ == status@
            &&& rec.note@ == note@
            &&& rec.content_hash@ == crate::rag_index::sha256_hex(note@)
        },
{
    if dry_run {
        return None;
    }
    Some(SourceRecord {
        journal_id,
        field_name: owned(field_name),
        source_kind: owned(source_kind),
        source_url: owned(source_url),
        status: owned(status),
        note: owned(note),
        content_hash: crate::rag_index::content_hash(note),
    })
}

/// What Crossref returned for a journal.
#[derive(Clone, Debug)]
pub struct CrossrefMetadata {
    pub issn: String,
    pub article_topics: String,
    pub publisher: String,
    pub website_url: String,
    pub source_url: String,
}

/// What the official website yielded for a journal, each value with the page
/// it came from.
#[derive(Clone, Debug)]
pub struct WebsiteMetadata {
    pub scope_text: String,
    pub scope_source_url: String,
    pub submission_guidelines: String,
    pub submission_source_url: String,
    pub oa_flag: String,
    pub oa_source_url: String,
    pub oa_detail: String,
    pub oa_detail_source_url: String,
    pub apc_text: String,
    pub apc_source_url: String,
    pub review_cycle: String,
    pub review_source_url: String,
    pub jcr_rank_detail: String,
    pub jcr_source_url: String,
    pub source_url: String,
}

/// A field report with status "updated".
pub fn updated_field(field_name: &str, source_kind: &str, source_url: &str, message: &str) -> (r: EnrichmentFieldReport)
    ensures
        r.field_name@ == field_name@,
        r.status@ == "updated"@,
        r.source_kind@ == source_kind@,
        r.source_url@ == source_url@,
        r.message@ == message@,
{
    EnrichmentFieldReport {
        field_name: owned(field_name),
        status: owned("updated"),
        source_kind: owned(source_kind),
        source_url: owned(source_url),
        message: owned(message),
    }
}

/// A field report with status "skipped".
pub fn skipped_field(field_name: &str, source_kind: &str, source_url: &str, message: &str) -> (r: EnrichmentFieldReport)
    ensures
        r.field_name@ == field_name@,
        r.status@ == "skipped"@,
        r.source_kind@ == source_kind@,
        r.source_url@ == source_url@,
        r.message@ == message@,
{
    EnrichmentFieldReport {
        field_name: owned(field_name),
        status: owned("skipped"),
        source_kind: owned(source_kind),
        source_url: owned(source_url),
        message: owned(message),
    }
}

/// The table a planned write goes to.
#[derive(PartialEq, Eq, Structural, Clone, Copy, Debug)]
pub enum WriteTable {
    /// The catalogue row of the journal.
    Journals,
    /// The user's profile row of the journal.
    Profiles,
}

/// A value to write into one column, with the provenance note to record.
#[derive(Clone, Debug)]
pub struct PlannedWrite {
    pub table: WriteTable,
    pub column: String,
    pub value: String,
    pub marks_index_dirty: bool,
    pub note: String,
}

/// One step of an enrichment plan: the report line, and the write it
/// stands for when the field is filled.
#[derive(Clone, Debug)]
pub struct FieldAction {
    pub report: EnrichmentFieldReport,
    pub write: Option<PlannedWrite>,
}

/// The plain values of a field action.
pub struct ActionView {
    pub field: Seq<char>,
    pub status: Seq<char>,
    pub kind: Seq<char>,
    pub url: Seq<char>,
    pub message: Seq<char>,
    pub write: Option<(WriteTable, Seq<char>, Seq<char>, bool, Seq<char>)>,
}

impl View for FieldAction {
    type V = ActionView;

    open spec fn view(&self) -> ActionView {
        ActionView {
            field: self.report.field_name@,
            status: self.report.status@,
            kind: self.report.source_kind@,
            url: self.report.source_url@,
            message: self.report.message@,
            write: match self.write {
                Some(w) => Some((w.table, w.column@, w.value@, w.marks_index_dirty, w.note@)),
                None => None,
            },
        }
    }
}

/// The views of a list of field actions.
pub open spec fn action_views(v: Seq<FieldAction>) -> Seq<ActionView> {
    v.map_values(|a: FieldAction| a@)
}

/// The page a value came from, or the start page when none is recorded.
pub open spec fn url_or(primary: Seq<char>, fallback: Seq<char>) -> Seq<char> {
    if primary.len() == 0 { fallback } else { primary }
}

/// The plan for one field: fill it when the journal's value is blank and
/// the fetched value counts as present; otherwise report it skipped when a
/// value was fetched at all.
pub open spec fn field_plan(
    journal_blank: bool,
    present: bool,
    fetched_nonempty: bool,
    field: Seq<char>,
    kind: Seq<char>,
    url: Seq<char>,
    table: WriteTable,
    value: Seq<char>,
    dirty: bool,
    note: Seq<char>,
    updated_msg: Seq<char>,
    skipped_msg: Seq<char>,
) -> Seq<ActionView> {
    if journal_blank && present {
        seq![ActionView { field, status: "updated"@, kind, url, message: updated_msg,
            write: Some((table, field, value, dirty, note)) }]
    } else if fetched_nonempty {
        seq![ActionView { field, status: "skipped"@, kind, url, message: skipped_msg, write: None }]
    } else {
        seq![]
    }
}

fn plan_field(
    out: &mut Vec<FieldAction>,
    journal_blank: bool,
    present: bool,
    fetched_nonempty: bool,
    field: &str,
    kind: &str,
    url: &str,
    table: WriteTable,
    value: &str,
    dirty: bool,
    note: &str,
    updated_msg: &str,
    skipped_msg: &str,
)
    ensures
        action_views(final(out)@) == action_views(old(out)@) + field_plan(journal_blank, present, fetched_nonempty,
            field@, kind@, url@, table, value@, dirty, note@, updated_msg@, skipped_msg@),
{
    let ghost before = action_views(out@);
    if journal_blank && present {
        let a = FieldAction {
            report: updated_field(field, kind, url, updated_msg),
            write: Some(PlannedWrite { table, column: owned(field), value: owned(value), marks_index_dirty: dirty, note: owned(note) }),
        };
        out.push(a);
        assert(action_views(out@) =~= before + seq![a@]);
    } else if fetched_nonempty {
        let a = FieldAction { report: skipped_field(field, kind, url, skipped_msg), write: None };
        out.push(a);
        assert(action_views(out@) =~= before + seq![a@]);
    } else {
        assert(action_views(out@) =~= before + seq![]);
    }
}

/// The plan for the website fields of a journal: scope, open-access type,
/// open-access statement, JCR rank, submission guidelines, publication fee
/// and review cycle, in that order; and a skipped JCR line when neither the
/// journal nor the site has a rank.
pub open spec fn website_plan(j: SelectedJournal, m: WebsiteMetadata) -> Seq<ActionView> {
    website_catalogue_part(j, m) + website_profile_part(j, m)
}

/// The website plan's lines for catalogue columns (scope, open access, JCR).
pub open spec fn website_catalogue_part(j: SelectedJournal, m: WebsiteMetadata) -> Seq<ActionView> {
    let kind = "official_website"@;
    field_plan(is_blank_spec(j.scope_text@), m.scope_text@.len() > 0, m.scope_text@.len() > 0,
        "scope_text"@, kind, url_or(m.scope_source_url@, m.source_url@), WriteTable::Journals,
        m.scope_text@, true, "官网明确 scope 段落"@, "已补充官网 scope"@, "已有 scope，未覆盖"@)
    + field_plan(is_blank_spec(j.oa_flag@), !is_blank_spec(m.oa_flag@), m.oa_flag@.len() > 0,
        "oa_flag"@, kind, url_or(m.oa_source_url@, m.source_url@), WriteTable::Journals,
        m.oa_flag@, false, "官网明确开放获取类型"@, "已补充开放获取类型"@, "已有开放获取类型，未覆盖"@)
    + field_plan(is_blank_spec(j.oa_detail@), !is_blank_spec(m.oa_detail@), m.oa_detail@.len() > 0,
        "oa_detail"@, kind, url_or(m.oa_detail_source_url@, m.source_url@), WriteTable::Journals,
        m.oa_detail@, false, "官网开放获取说明页"@, "已补充开放获取说明"@, "已有开放获取说明，未覆盖"@)
    + field_plan(is_blank_spec(j.jcr_rank_detail@), !is_blank_spec(m.jcr_rank_detail@), m.jcr_rank_detail@.len() > 0,
        "jcr_rank_detail"@, kind, url_or(m.jcr_source_url@, m.source_url@), WriteTable::Journals,
        m.jcr_rank_detail@, false, "官网 metrics / bibliometrics 页"@, "已补充 JCR 排名 / 百分位"@, "已有 JCR 排名信息，未覆盖"@)
    + (if is_blank_spec(j.jcr_rank_detail@) && is_blank_spec(m.jcr_rank_detail@) {
        seq![ActionView { field: "jcr_rank_detail"@, status: "skipped"@, kind, url: m.source_url@,
            message: "页面未识别到 JCR 排名或百分位"@, write: None }]
    } else {
        seq![]
    })
}

/// The website plan's lines for profile columns (guidelines, fee, review
/// cycle).
pub open spec fn website_profile_part(j: SelectedJournal, m: WebsiteMetadata) -> Seq<ActionView> {
    let kind = "official_website"@;
    field_plan(is_blank_spec(j.submission_guidelines@), m.submission_guidelines@.len() > 0, m.submission_guidelines@.len() > 0,
        "submission_guidelines"@, kind, url_or(m.submission_source_url@, m.source_url@), WriteTable::Profiles,
        m.submission_guidelines@, true, "官网明确投稿指南段落"@, "已补充官网投稿指南"@, "已有投稿指南，未覆盖"@)
    + field_plan(is_blank_spec(j.apc@), !is_blank_spec(m.apc_text@), m.apc_text@.len() > 0,
        "apc"@, kind, url_or(m.apc_source_url@, m.source_url@), WriteTable::Profiles,
        m.apc_text@, true, "官网费用或 APC 页面"@, "已补充版面费 / APC"@, "已有版面费信息，未覆盖"@)
    + field_plan(is_blank_spec(j.review_cycle@), !is_blank_spec(m.review_cycle@), m.review_cycle@.len() > 0,
        "review_cycle"@, kind, url_or(m.review_source_url@, m.source_url@), WriteTable::Profiles,
        m.review_cycle@, true, "官网审稿时长 / 首次决定时间"@, "已补充审稿周期"@, "已有审稿周期，未覆盖"@)
}

fn pick_url<'a>(primary: &'a str, fallback: &'a str) -> (r: &'a str)
    ensures
        r@ == url_or(primary@, fallback@),
{
    if primary.is_empty() { fallback } else { primary }
}

#[verifier::rlimit(50)]
fn plan_website_catalogue(out: &mut Vec<FieldAction>, journal: &SelectedJournal, m: &WebsiteMetadata)
    ensures
        action_views(final(out)@) == action_views(old(out)@) + website_catalogue_part(*journal, *m),
{
    let ghost start = action_views(out@);
    let src = m.source_url.as_str();
    let kind = "official_website";
    plan_field(out, is_blank(journal.scope_text.as_str()), !m.scope_text.as_str().is_empty(), !m.scope_text.as_str().is_empty(),
        "scope_text", kind, pick_url(m.scope_source_url.as_str(), src), WriteTable::Journals,
        m.scope_text.as_str(), true, "官网明确 scope 段落", "已补充官网 scope", "已有 scope，未覆盖");
    plan_field(out, is_blank(journal.oa_flag.as_str()), !is_blank(m.oa_flag.as_str()), !m.oa_flag.as_str().is_empty(),
        "oa_flag", kind, pick_url(m.oa_source_url.as_str(), src), WriteTable::Journals,
        m.oa_flag.as_str(), false, "官网明确开放获取类型", "已补充开放获取类型", "已有开放获取类型，未覆盖");
    plan_field(out, is_blank(journal.oa_detail.as_str()), !is_blank(m.oa_detail.as_str()), !m.oa_detail.as_str().is_empty(),
        "oa_detail", kind, pick_url(m.oa_detail_source_url.as_str(), src), WriteTable::Journals,
        m.oa_detail.as_str(), false, "官网开放获取说明页", "已补充开放获取说明", "已有开放获取说明，未覆盖");
    let journal_jcr_blank = is_blank(journal.jcr_rank_detail.as_str());
    let site_jcr_blank = is_blank(m.jcr_rank_detail.as_str());
    plan_field(out, journal_jcr_blank, !site_jcr_blank, !m.jcr_rank_detail.as_str().is_empty(),
        "jcr_rank_detail", kind, pick_url(m.jcr_source_url.as_str(), src), WriteTable::Journals,
        m.jcr_rank_detail.as_str(), false, "官网 metrics / bibliometrics 页", "已补充 JCR 排名 / 百分位", "已有 JCR 排名信息，未覆盖");
    let ghost before = action_views(out@);
    if journal_jcr_blank && site_jcr_blank {
        let a = FieldAction {
            report: skipped_field("jcr_rank_detail", kind, src, "页面未识别到 JCR 排名或百分位"),
            write: None,
        };
        out.push(a);
        assert(action_views(out@) =~= before + seq![a@]);
    } else {
        assert(action_views(out@) =~= before + seq![]);
    }
    assert(action_views(out@) =~= start + website_catalogue_part(*journal, *m));
}

fn plan_website_profile(out: &mut Vec<FieldAction>, journal: &SelectedJournal, m: &WebsiteMetadata)
    ensures
        action_views(final(out)@) == action_views(old(out)@) + website_profile_part(*journal, *m),
{
    let ghost start = action_views(out@);
    let src = m.source_url.as_str();
    let kind = "official_website";
    plan_field(out, is_blank(journal.submission_guidelines.as_str()), !m.submission_guidelines.as_str().is_empty(), !m.submission_guidelines.as_str().is_empty(),
        "submission_guidelines", kind, pick_url(m.submission_source_url.as_str(), src), WriteTable::Profiles,
        m.submission_guidelines.as_str(), true, "官网明确投稿指南段落", "已补充官网投稿指南", "已有投稿指南，未覆盖");
    plan_field(out, is_blank(journal.apc.as_str()), !is_blank(m.apc_text.as_str()), !m.apc_text.as_str().is_empty(),
        "apc", kind, pick_url(m.apc_source_url.as_str(), src), WriteTable::Profiles,
        m.apc_text.as_str(), true, "官网费用或 APC 页面", "已补充版面费 / APC", "已有版面费信息，未覆盖");
    plan_field(out, is_blank(journal.review_cycle.as_str()), !is_blank(m.review_cycle.as_str()), !m.review_cycle.as_str().is_empty(),
        "review_cycle", kind, pick_url(m.review_source_url.as_str(), src), WriteTable::Profiles,
        m.review_cycle.as_str(), true, "官网审稿时长 / 首次决定时间", "已补充审稿周期", "已有审稿周期，未覆盖");
    assert(action_views(out@) =~= start + website_profile_part(*journal, *m));
}

/// Plans what the official website's values do to a journal.
pub fn plan_website_updates(journal: &SelectedJournal, metadata: &WebsiteMetadata) -> (r: Vec<FieldAction>)
    ensures
        action_views(r@) == website_plan(*journal, *metadata),
{
    let mut out: Vec<FieldAction> = Vec::new();
    assert(action_views(out@) =~= seq![]);
    plan_website_catalogue(&mut out, journal, metadata);
    plan_website_profile(&mut out, journal, metadata);
    assert(action_views(out@) =~= website_plan(*journal, *metadata));
    out
}

/// The plan for the Crossref fields of a journal: ISSN, publisher, website
/// and recent article titles, each filled only when blank; when none is
/// filled, one skipped line says existing data was kept.
pub open spec fn crossref_plan(j: SelectedJournal, m: CrossrefMetadata) -> Seq<ActionView> {
    let kind = "crossref"@;
    let url = m.source_url@;
    let fills = field_plan(is_blank_spec(j.issn@), !is_blank_spec(m.issn@), false,
            "issn"@, kind, url, WriteTable::Journals, m.issn@, false, "Crossref 返回 ISSN"@, "已补充 ISSN"@, seq![])
        + field_plan(is_blank_spec(j.publisher@), !is_blank_spec(m.publisher@), false,
            "publisher"@, kind, url, WriteTable::Journals, m.publisher@, false, "Crossref 返回出版社"@, "已补充出版社"@, seq![])
        + field_plan(is_blank_spec(j.website@), !is_blank_spec(m.website_url@), false,
            "website"@, kind, url, WriteTable::Journals, m.website_url@, false, "Crossref 返回官网入口"@, "已补充官网入口"@, seq![])
        + field_plan(is_blank_spec(j.article_topics@), !is_blank_spec(m.article_topics@), false,
            "article_topics"@, kind, url, WriteTable::Profiles, m.article_topics@, true, "Crossref 近期文章标题"@, "已补充近期文章标题"@, seq![]);
    if fills.len() == 0 {
        seq![ActionView { field: "issn/eissn/article_topics"@, status: "skipped"@, kind, url,
            message: "字段已有内容，未覆盖手动或已有数据。"@, write: None }]
    } else {
        fills
    }
}

/// Plans what Crossref's values do to a journal.
pub fn plan_crossref_updates(journal: &SelectedJournal, metadata: &CrossrefMetadata) -> (r: Vec<FieldAction>)
    ensures
        action_views(r@) == crossref_plan(*journal, *metadata),
{
    let url = metadata.source_url.as_str();
    let kind = "crossref";
    let mut out: Vec<FieldAction> = Vec::new();
    assert(action_views(out@) =~= seq![]);
    plan_field(&mut out, is_blank(journal.issn.as_str()), !is_blank(metadata.issn.as_str()), false,
        "issn", kind, url, WriteTable::Journals, metadata.issn.as_str(), false, "Crossref 返回 ISSN", "已补充 ISSN", "");
    plan_field(&mut out, is_blank(journal.publisher.as_str()), !is_blank(metadata.publisher.as_str()), false,
        "publisher", kind, url, WriteTable::Journals, metadata.publisher.as_str(), false, "Crossref 返回出版社", "已补充出版社", "");
    plan_field(&mut out, is_blank(journal.website.as_str()), !is_blank(metadata.website_url.as_str()), false,
        "website", kind, url, WriteTable::Journals, metadata.website_url.as_str(), false, "Crossref 返回官网入口", "已补充官网入口", "");
    plan_field(&mut out, is_blank(journal.article_topics.as_str()), !is_blank(metadata.article_topics.as_str()), false,
        "article_topics", kind, url, WriteTable::Profiles, metadata.article_topics.as_str(), true, "Crossref 近期文章标题", "已补充近期文章标题", "");
    proof {
        reveal_strlit("");
    }
    if out.len() == 0 {
        let a = FieldAction {
            report: skipped_field("issn/eissn/article_topics", kind, url, "字段已有内容，未覆盖手动或已有数据。"),
            write: None,
        };
        out.push(a);
        assert(action_views(out@) =~= seq![a@]);
    }
    out
}

/// The current value of the journal field a planned write targets.
pub open spec fn current_value(j: SelectedJournal, column: Seq<char>) -> Seq<char> {
    if column == "scope_text"@ { j.scope_text@ }
    else if column == "oa_flag"@ { j.oa_flag@ }
    else if column == "oa_detail"@ { j.oa_detail@ }
    else if column == "jcr_rank_detail"@ { j.jcr_rank_detail@ }
    else if column == "submission_guidelines"@ { j.submission_guidelines@ }
    else if column == "apc"@ { j.apc@ }
    else if column == "review_cycle"@ { j.review_cycle@ }
    else if column == "issn"@ { j.issn@ }
    else if column == "publisher"@ { j.publisher@ }
    else if column == "website"@ { j.website@ }
    else { j.article_topics@ }
}

/// Whether every write of a plan targets a field that is blank in the
/// journal, and exactly the "updated" lines carry a write.
pub open spec fn never_overwrites(j: SelectedJournal, plan: Seq<ActionView>) -> bool {
    forall|k: int| 0 <= k < plan.len() ==> {
        &&& (#[trigger] plan[k]).write is Some ==> is_blank_spec(current_value(j, (plan[k].write->0).1))
        &&& (plan[k].write is Some <==> plan[k].status == "updated"@)
    }
}

proof fn lemma_field_plan_safe(
    j: SelectedJournal, journal_blank: bool, present: bool, fetched_nonempty: bool, field: Seq<char>, kind: Seq<char>,
    url: Seq<char>, table: WriteTable, value: Seq<char>, dirty: bool, note: Seq<char>, um: Seq<char>, sm: Seq<char>,
)
    requires
        journal_blank ==> is_blank_spec(current_value(j, field)),
    ensures
        never_overwrites(j, field_plan(journal_blank, present, fetched_nonempty, field, kind, url, table, value, dirty, note, um, sm)),
{
    reveal_strlit("updated");
    reveal_strlit("skipped");
    assert("skipped"@[0] != "updated"@[0]);
}

proof fn lemma_status_distinct()
    ensures
        "skipped"@ != "updated"@,
{
    reveal_strlit("updated");
    reveal_strlit("skipped");
    assert("skipped"@[0] != "updated"@[0]);
}

proof fn lemma_current_values(j: SelectedJournal)
    ensures
        current_value(j, "scope_text"@) == j.scope_text@,
        current_value(j, "oa_flag"@) == j.oa_flag@,
        current_value(j, "oa_detail"@) == j.oa_detail@,
        current_value(j, "jcr_rank_detail"@) == j.jcr_rank_detail@,
        current_value(j, "submission_guidelines"@) == j.submission_guidelines@,
        current_value(j, "apc"@) == j.apc@,
        current_value(j, "review_cycle"@) == j.review_cycle@,
        current_value(j, "issn"@) == j.issn@,
        current_value(j, "publisher"@) == j.publisher@,
        current_value(j, "website"@) == j.website@,
        current_value(j, "article_topics"@) == j.article_topics@,
{
    reveal_strlit("scope_text");
    reveal_strlit("oa_flag");
    reveal_strlit("oa_detail");
    reveal_strlit("jcr_rank_detail");
    reveal_strlit("submission_guidelines");
    reveal_strlit("apc");
    reveal_strlit("review_cycle");
    reveal_strlit("issn");
    reveal_strlit("publisher");
    reveal_strlit("website");
    reveal_strlit("article_topics");
    assert("oa_flag"@[0] != "scope_text"@[0]);
    assert("oa_detail"@[0] != "scope_text"@[0]);
    assert("oa_detail"@[3] != "oa_flag"@[3]);
    assert("jcr_rank_detail"@[0] != "scope_text"@[0]);
    assert("jcr_rank_detail"@[0] != "oa_flag"@[0]);
    assert("jcr_rank_detail"@[0] != "oa_detail"@[0]);
    assert("submission_guidelines"@[1] != "scope_text"@[1]);
    assert("submission_guidelines"@[0] != "oa_flag"@[0]);
    assert("submission_guidelines"@[0] != "oa_detail"@[0]);
    assert("submission_guidelines"@[0] != "jcr_rank_detail"@[0]);
    assert("apc"@[0] != "scope_text"@[0]);
    assert("apc"@[0] != "oa_flag"@[0]);
    assert("apc"@[0] != "oa_detail"@[0]);
    assert("apc"@[0] != "jcr_rank_detail"@[0]);
    assert("apc"@[0] != "submission_guidelines"@[0]);
    assert("review_cycle"@[0] != "scope_text"@[0]);
    assert("review_cycle"@[0] != "oa_flag"@[0]);
    assert("review_cycle"@[0] != "oa_detail"@[0]);
    assert("review_cycle"@[0] != "jcr_rank_detail"@[0]);
    assert("review_cycle"@[0] != "submission_guidelines"@[0]);
    assert("review_cycle"@[0] != "apc"@[0]);
    assert("issn"@[0] != "scope_text"@[0]);
    assert("issn"@[0] != "oa_flag"@[0]);
    assert("issn"@[0] != "oa_detail"@[0]);
    assert("issn"@[0] != "jcr_rank_detail"@[0]);
    assert("issn"@[0] != "submission_guidelines"@[0]);
    assert("issn"@[0] != "apc"@[0]);
    assert("issn"@[0] != "review_cycle"@[0]);
    assert("publisher"@[0] != "scope_text"@[0]);
    assert("publisher"@[0] != "oa_flag"@[0]);
    assert("publisher"@[0] != "oa_detail"@[0]);
    assert("publisher"@[0] != "jcr_rank_detail"@[0]);
    assert("publisher"@[0] != "submission_guidelines"@[0]);
    assert("publisher"@[0] != "apc"@[0]);
    assert("publisher"@[0] != "review_cycle"@[0]);
    assert("publisher"@[0] != "issn"@[0]);
    assert("website"@[0] != "scope_text"@[0]);
    assert("website"@[0] != "oa_flag"@[0]);
    assert("website"@[0] != "oa_detail"@[0]);
    assert("website"@[0] != "jcr_rank_detail"@[0]);
    assert("website"@[0] != "submission_guidelines"@[0]);
    assert("website"@[0] != "apc"@[0]);
    assert("website"@[0] != "review_cycle"@[0]);
    assert("website"@[0] != "issn"@[0]);
    assert("website"@[0] != "publisher"@[0]);
    assert("article_topics"@[0] != "scope_text"@[0]);
    assert("article_topics"@[0] != "oa_flag"@[0]);
    assert("article_topics"@[0] != "oa_detail"@[0]);
    assert("article_topics"@[0] != "jcr_rank_detail"@[0]);
    assert("article_topics"@[0] != "submission_guidelines"@[0]);
    assert("article_topics"@[1] != "apc"@[1]);
    assert("article_topics"@[0] != "review_cycle"@[0]);
    assert("article_topics"@[0] != "issn"@[0]);
    assert("article_topics"@[0] != "publisher"@[0]);
    assert("article_topics"@[0] != "website"@[0]);
}

proof fn lemma_concat_safe(j: SelectedJournal, a: Seq<ActionView>, b: Seq<ActionView>)
    requires
        never_overwrites(j, a),
        never_overwrites(j, b),
    ensures
        never_overwrites(j, a + b),
{
    assert forall|k: int| 0 <= k < (a + b).len() implies {
        &&& (#[trigger] (a + b)[k]).write is Some ==> is_blank_spec(current_value(j, ((a + b)[k].write->0).1))
        &&& ((a + b)[k].write is Some <==> (a + b)[k].status == "updated"@)
    } by {
        if k < a.len() {
            assert((a + b)[k] == a[k]);
        } else {
            assert((a + b)[k] == b[k - a.len()]);
        }
    }
}

#[verifier::rlimit(30)]
proof fn website_catalogue_part_safe(j: SelectedJournal, m: WebsiteMetadata)
    ensures
        never_overwrites(j, website_catalogue_part(j, m)),
{
    lemma_current_values(j);
    lemma_status_distinct();
    let kind = "official_website"@;
    let p1 = field_plan(is_blank_spec(j.scope_text@), m.scope_text@.len() > 0, m.scope_text@.len() > 0,
        "scope_text"@, kind, url_or(m.scope_source_url@, m.source_url@), WriteTable::Journals,
        m.scope_text@, true, "官网明确 scope 段落"@, "已补充官网 scope"@, "已有 scope，未覆盖"@);
    lemma_field_plan_safe(j, is_blank_spec(j.scope_text@), m.scope_text@.len() > 0, m.scope_text@.len() > 0,
        "scope_text"@, kind, url_or(m.scope_source_url@, m.source_url@), WriteTable::Journals,
        m.scope_text@, true, "官网明确 scope 段落"@, "已补充官网 scope"@, "已有 scope，未覆盖"@);
    let p2 = field_plan(is_blank_spec(j.oa_flag@), !is_blank_spec(m.oa_flag@), m.oa_flag@.len() > 0,
        "oa_flag"@, kind, url_or(m.oa_source_url@, m.source_url@), WriteTable::Journals,
        m.oa_flag@, false, "官网明确开放获取类型"@, "已补充开放获取类型"@, "已有开放获取类型，未覆盖"@);
    lemma_field_plan_safe(j, is_blank_spec(j.oa_flag@), !is_blank_spec(m.oa_flag@), m.oa_flag@.len() > 0,
        "oa_flag"@, kind, url_or(m.oa_source_url@, m.source_url@), WriteTable::Journals,
        m.oa_flag@, false, "官网明确开放获取类型"@, "已补充开放获取类型"@, "已有开放获取类型，未覆盖"@);
    let p3 = field_plan(is_blank_spec(j.oa_detail@), !is_blank_spec(m.oa_detail@), m.oa_detail@.len() > 0,
        "oa_detail"@, kind, url_or(m.oa_detail_source_url@, m.source_url@), WriteTable::Journals,
        m.oa_detail@, false, "官网开放获取说明页"@, "已补充开放获取说明"@, "已有开放获取说明，未覆盖"@);
    lemma_field_plan_safe(j, is_blank_spec(j.oa_detail@), !is_blank_spec(m.oa_detail@), m.oa_detail@.len() > 0,
        "oa_detail"@, kind, url_or(m.oa_detail_source_url@, m.source_url@), WriteTable::Journals,
        m.oa_detail@, false, "官网开放获取说明页"@, "已补充开放获取说明"@, "已有开放获取说明，未覆盖"@);
    let p4 = field_plan(is_blank_spec(j.jcr_rank_detail@), !is_blank_spec(m.jcr_rank_detail@), m.jcr_rank_detail@.len() > 0,
        "jcr_rank_detail"@, kind, url_or(m.jcr_source_url@, m.source_url@), WriteTable::Journals,
        m.jcr_rank_detail@, false, "官网 metrics / bibliometrics 页"@, "已补充 JCR 排名 / 百分位"@, "已有 JCR 排名信息，未覆盖"@);
    lemma_field_plan_safe(j, is_blank_spec(j.jcr_rank_detail@), !is_blank_spec(m.jcr_rank_detail@), m.jcr_rank_detail@.len() > 0,
        "jcr_rank_detail"@, kind, url_or(m.jcr_source_url@, m.source_url@), WriteTable::Journals,
        m.jcr_rank_detail@, false, "官网 metrics / bibliometrics 页"@, "已补充 JCR 排名 / 百分位"@, "已有 JCR 排名信息，未覆盖"@);
    let p5: Seq<ActionView> = if is_blank_spec(j.jcr_rank_detail@) && is_blank_spec(m.jcr_rank_detail@) {
        seq![ActionView { field: "jcr_rank_detail"@, status: "skipped"@, kind, url: m.source_url@,
            message: "页面未识别到 JCR 排名或百分位"@, write: None }]
    } else {
        seq![]
    };
    assert(never_overwrites(j, p5));
    lemma_concat_safe(j, p1, p2);
    lemma_concat_safe(j, p1 + p2, p3);
    lemma_concat_safe(j, p1 + p2 + p3, p4);
    lemma_concat_safe(j, p1 + p2 + p3 + p4, p5);
}

#[verifier::rlimit(30)]
proof fn website_profile_part_safe(j: SelectedJournal, m: WebsiteMetadata)
    ensures
        never_overwrites(j, website_profile_part(j, m)),
{
    lemma_current_values(j);
    lemma_status_distinct();
    let kind = "official_website"@;
    let p6 = field_plan(is_blank_spec(j.submission_guidelines@), m.submission_guidelines@.len() > 0, m.submission_guidelines@.len() > 0,
        "submission_guidelines"@, kind, url_or(m.submission_source_url@, m.source_url@), WriteTable::Profiles,
        m.submission_guidelines@, true, "官网明确投稿指南段落"@, "已补充官网投稿指南"@, "已有投稿指南，未覆盖"@);
    lemma_field_plan_safe(j, is_blank_spec(j.submission_guidelines@), m.submission_guidelines@.len() > 0, m.submission_guidelines@.len() > 0,
        "submission_guidelines"@, kind, url_or(m.submission_source_url@, m.source_url@), WriteTable::Profiles,
        m.submission_guidelines@, true, "官网明确投稿指南段落"@, "已补充官网投稿指南"@, "已有投稿指南，未覆盖"@);
    let p7 = field_plan(is_blank_spec(j.apc@), !is_blank_spec(m.apc_text@), m.apc_text@.len() > 0,
        "apc"@, kind, url_or(m.apc_source_url@, m.source_url@), WriteTable::Profiles,
        m.apc_text@, true, "官网费用或 APC 页面"@, "已补充版面费 / APC"@, "已有版面费信息，未覆盖"@);
    lemma_field_plan_safe(j, is_blank_spec(j.apc@), !is_blank_spec(m.apc_text@), m.apc_text@.len() > 0,
        "apc"@, kind, url_or(m.apc_source_url@, m.source_url@), WriteTable::Profiles,
        m.apc_text@, true, "官网费用或 APC 页面"@, "已补充版面费 / APC"@, "已有版面费信息，未覆盖"@);
    let p8 = field_plan(is_blank_spec(j.review_cycle@), !is_blank_spec(m.review_cycle@), m.review_cycle@.len() > 0,
        "review_cycle"@, kind, url_or(m.review_source_url@, m.source_url@), WriteTable::Profiles,
        m.review_cycle@, true, "官网审稿时长 / 首次决定时间"@, "已补充审稿周期"@, "已有审稿周期，未覆盖"@);
    lemma_field_plan_safe(j, is_blank_spec(j.review_cycle@), !is_blank_spec(m.review_cycle@), m.review_cycle@.len() > 0,
        "review_cycle"@, kind, url_or(m.review_source_url@, m.source_url@), WriteTable::Profiles,
        m.review_cycle@, true, "官网审稿时长 / 首次决定时间"@, "已补充审稿周期"@, "已有审稿周期，未覆盖"@);
    lemma_concat_safe(j, p6, p7);
    lemma_concat_safe(j, p6 + p7, p8);
}

/// Enrichment never overwrites: every write the website plan holds fills a
/// field that is blank in the journal, and only "updated" lines write.
pub proof fn website_plan_never_overwrites(j: SelectedJournal, m: WebsiteMetadata)
    ensures
        never_overwrites(j, website_plan(j, m)),
{
    website_catalogue_part_safe(j, m);
    website_profile_part_safe(j, m);
    lemma_concat_safe(j, website_catalogue_part(j, m), website_profile_part(j, m));
}

/// Enrichment never overwrites: every write the Crossref plan holds fills a
/// field that is blank in the journal, and only "updated" lines write.
pub proof fn crossref_plan_never_overwrites(j: SelectedJournal, m: CrossrefMetadata)
    ensures
        never_overwrites(j, crossref_plan(j, m)),
{
    lemma_current_values(j);
    lemma_status_distinct();
    let kind = "crossref"@;
    let url = m.source_url@;
    let p1 = field_plan(is_blank_spec(j.issn@), !is_blank_spec(m.issn@), false,
        "issn"@, kind, url, WriteTable::Journals, m.issn@, false, "Crossref 返回 ISSN"@, "已补充 ISSN"@, seq![]);
    lemma_field_plan_safe(j, is_blank_spec(j.issn@), !is_blank_spec(m.issn@), false,
        "issn"@, kind, url, WriteTable::Journals, m.issn@, false, "Crossref 返回 ISSN"@, "已补充 ISSN"@, seq![]);
    let p2 = field_plan(is_blank_spec(j.publisher@), !is_blank_spec(m.publisher@), false,
        "publisher"@, kind, url, WriteTable::Journals, m.publisher@, false, "Crossref 返回出版社"@, "已补充出版社"@, seq![]);
    lemma_field_plan_safe(j, is_blank_spec(j.publisher@), !is_blank_spec(m.publisher@), false,
        "publisher"@, kind, url, WriteTable::Journals, m.publisher@, false, "Crossref 返回出版社"@, "已补充出版社"@, seq![]);
    let p3 = field_plan(is_blank_spec(j.website@), !is_blank_spec(m.website_url@), false,
        "website"@, kind, url, WriteTable::Journals, m.website_url@, false, "Crossref 返回官网入口"@, "已补充官网入口"@, seq![]);
    lemma_field_plan_safe(j, is_blank_spec(j.website@), !is_blank_spec(m.website_url@), false,
        "website"@, kind, url, WriteTable::Journals, m.website_url@, false, "Crossref 返回官网入口"@, "已补充官网入口"@, seq![]);
    let p4 = field_plan(is_blank_spec(j.article_topics@), !is_blank_spec(m.article_topics@), false,
        "article_topics"@, kind, url, WriteTable::Profiles, m.article_topics@, true, "Crossref 近期文章标题"@, "已补充近期文章标题"@, seq![]);
    lemma_field_plan_safe(j, is_blank_spec(j.article_topics@), !is_blank_spec(m.article_topics@), false,
        "article_topics"@, kind, url, WriteTable::Profiles, m.article_topics@, true, "Crossref 近期文章标题"@, "已补充近期文章标题"@, seq![]);
    lemma_concat_safe(j, p1, p2);
    lemma_concat_safe(j, p1 + p2, p3);
    lemma_concat_safe(j, p1 + p2 + p3, p4);
    let skip = seq![ActionView { field: "issn/eissn/article_topics"@, status: "skipped"@, kind, url,
        message: "字段已有内容，未覆盖手动或已有数据。"@, write: None }];
    assert(never_overwrites(j, skip));
}


/// Whether line `k` of a plan is an "updated" line for `field` that writes
/// `value` into that column of `table`.
pub open spec fn fills_at(plan: Seq<ActionView>, k: int, field: Seq<char>, table: WriteTable, value: Seq<char>) -> bool {
    &&& 0 <= k < plan.len()
    &&& plan[k].field == field
    &&& plan[k].status == "updated"@
    &&& plan[k].write matches Some(w) && w.0 == table && w.1 == field && w.2 == value
}

/// Whether a plan holds an "updated" line for `field` that writes `value`
/// into that column of `table`.
pub open spec fn fills(plan: Seq<ActionView>, field: Seq<char>, table: WriteTable, value: Seq<char>) -> bool {
    exists|k: int| #[trigger] fills_at(plan, k, field, table, value)
}

proof fn lemma_fills_concat(a: Seq<ActionView>, b: Seq<ActionView>, field: Seq<char>, table: WriteTable, value: Seq<char>)
    ensures
        fills(a, field, table, value) ==> fills(a + b, field, table, value),
        fills(b, field, table, value) ==> fills(a + b, field, table, value),
{
    if fills(a, field, table, value) {
        let k = choose|k: int| #[trigger] fills_at(a, k, field, table, value);
        assert((a + b)[k] == a[k]);
        assert(fills_at(a + b, k, field, table, value));
    }
    if fills(b, field, table, value) {
        let k = choose|k: int| #[trigger] fills_at(b, k, field, table, value);
        assert((a + b)[a.len() + k] == b[k]);
        assert(fills_at(a + b, a.len() + k, field, table, value));
    }
}

proof fn lemma_field_plan_fills(
    journal_blank: bool, present: bool, fetched_nonempty: bool, field: Seq<char>, kind: Seq<char>,
    url: Seq<char>, table: WriteTable, value: Seq<char>, dirty: bool, note: Seq<char>, um: Seq<char>, sm: Seq<char>,
)
    ensures
        journal_blank && present ==> fills(
            field_plan(journal_blank, present, fetched_nonempty, field, kind, url, table, value, dirty, note, um, sm),
            field, table, value),
{
    if journal_blank && present {
        assert(fills_at(field_plan(journal_blank, present, fetched_nonempty, field, kind, url, table, value, dirty, note, um, sm),
            0, field, table, value));
    }
}

proof fn lemma_fills_four(
    p1: Seq<ActionView>, p2: Seq<ActionView>, p3: Seq<ActionView>, p4: Seq<ActionView>,
    field: Seq<char>, table: WriteTable, value: Seq<char>,
)
    ensures
        fills(p1, field, table, value) || fills(p2, field, table, value) || fills(p3, field, table, value)
            || fills(p4, field, table, value) ==> fills(p1 + p2 + p3 + p4, field, table, value)
            && (p1 + p2 + p3 + p4).len() > 0,
{
    lemma_fills_concat(p1, p2, field, table, value);
    lemma_fills_concat(p1 + p2, p3, field, table, value);
    lemma_fills_concat(p1 + p2 + p3, p4, field, table, value);
    if fills(p1 + p2 + p3 + p4, field, table, value) {
        let k = choose|k: int| #[trigger] fills_at(p1 + p2 + p3 + p4, k, field, table, value);
    }
}

/// Crossref fills every gap it can: for each of ISSN, publisher, website
/// and recent article titles that is blank in the journal and present in
/// Crossref's answer, the plan holds an "updated" line that writes
/// Crossref's value into that column.
pub proof fn crossref_plan_fills_every_gap(j: SelectedJournal, m: CrossrefMetadata)
    ensures
        is_blank_spec(j.issn@) && !is_blank_spec(m.issn@)
            ==> fills(crossref_plan(j, m), "issn"@, WriteTable::Journals, m.issn@),
        is_blank_spec(j.publisher@) && !is_blank_spec(m.publisher@)
            ==> fills(crossref_plan(j, m), "publisher"@, WriteTable::Journals, m.publisher@),
        is_blank_spec(j.website@) && !is_blank_spec(m.website_url@)
            ==> fills(crossref_plan(j, m), "website"@, WriteTable::Journals, m.website_url@),
        is_blank_spec(j.article_topics@) && !is_blank_spec(m.article_topics@)
            ==> fills(crossref_plan(j, m), "article_topics"@, WriteTable::Profiles, m.article_topics@),
{
    let kind = "crossref"@;
    let url = m.source_url@;
    let p1 = field_plan(is_blank_spec(j.issn@), !is_blank_spec(m.issn@), false,
        "issn"@, kind, url, WriteTable::Journals, m.issn@, false, "Crossref 返回 ISSN"@, "已补充 ISSN"@, seq![]);
    let p2 = field_plan(is_blank_spec(j.publisher@), !is_blank_spec(m.publisher@), false,
        "publisher"@, kind, url, WriteTable::Journals, m.publisher@, false, "Crossref 返回出版社"@, "已补充出版社"@, seq![]);
    let p3 = field_plan(is_blank_spec(j.website@), !is_blank_spec(m.website_url@), false,
        "website"@, kind, url, WriteTable::Journals, m.website_url@, false, "Crossref 返回官网入口"@, "已补充官网入口"@, seq![]);
    let p4 = field_plan(is_blank_spec(j.article_topics@), !is_blank_spec(m.article_topics@), false,
        "article_topics"@, kind, url, WriteTable::Profiles, m.article_topics@, true, "Crossref 近期文章标题"@, "已补充近期文章标题"@, seq![]);
    lemma_field_plan_fills(is_blank_spec(j.issn@), !is_blank_spec(m.issn@), false,
        "issn"@, kind, url, WriteTable::Journals, m.issn@, false, "Crossref 返回 ISSN"@, "已补充 ISSN"@, seq![]);
    lemma_field_plan_fills(is_blank_spec(j.publisher@), !is_blank_spec(m.publisher@), false,
        "publisher"@, kind, url, WriteTable::Journals, m.publisher@, false, "Crossref 返回出版社"@, "已补充出版社"@, seq![]);
    lemma_field_plan_fills(is_blank_spec(j.website@), !is_blank_spec(m.website_url@), false,
        "website"@, kind, url, WriteTable::Journals, m.website_url@, false, "Crossref 返回官网入口"@, "已补充官网入口"@, seq![]);
    lemma_field_plan_fills(is_blank_spec(j.article_topics@), !is_blank_spec(m.article_topics@), false,
        "article_topics"@, kind, url, WriteTable::Profiles, m.article_topics@, true, "Crossref 近期文章标题"@, "已补充近期文章标题"@, seq![]);
    lemma_fills_four(p1, p2, p3, p4, "issn"@, WriteTable::Journals, m.issn@);
    lemma_fills_four(p1, p2, p3, p4, "publisher"@, WriteTable::Journals, m.publisher@);
    lemma_fills_four(p1, p2, p3, p4, "website"@, WriteTable::Journals, m.website_url@);
    lemma_fills_four(p1, p2, p3, p4, "article_topics"@, WriteTable::Profiles, m.article_topics@);
    assert(crossref_plan(j, m) == (if (p1 + p2 + p3 + p4).len() == 0 {
        seq![ActionView { field: "issn/eissn/article_topics"@, status: "skipped"@, kind, url,
            message: "字段已有内容，未覆盖手动或已有数据。"@, write: None }]
    } else {
        p1 + p2 + p3 + p4
    }));
}

/// The official website fills every gap it can: for each of scope, open
/// access type, open access statement, JCR rank, submission guidelines,
/// publication fee and review cycle that is blank in the journal and found
/// on the site, the plan holds an "updated" line that writes the site's
/// value into that column.
#[verifier::rlimit(30)]
pub proof fn website_plan_fills_every_gap(j: SelectedJournal, m: WebsiteMetadata)
    ensures
        is_blank_spec(j.scope_text@) && m.scope_text@.len() > 0
            ==> fills(website_plan(j, m), "scope_text"@, WriteTable::Journals, m.scope_text@),
        is_blank_spec(j.oa_flag@) && !is_blank_spec(m.oa_flag@)
            ==> fills(website_plan(j, m), "oa_flag"@, WriteTable::Journals, m.oa_flag@),
        is_blank_spec(j.oa_detail@) && !is_blank_spec(m.oa_detail@)
            ==> fills(website_plan(j, m), "oa_detail"@, WriteTable::Journals, m.oa_detail@),
        is_blank_spec(j.jcr_rank_detail@) && !is_blank_spec(m.jcr_rank_detail@)
            ==> fills(website_plan(j, m), "jcr_rank_detail"@, WriteTable::Journals, m.jcr_rank_detail@),
        is_blank_spec(j.submission_guidelines@) && m.submission_guidelines@.len() > 0
            ==> fills(website_plan(j, m), "submission_guidelines"@, WriteTable::Profiles, m.submission_guidelines@),
        is_blank_spec(j.apc@) && !is_blank_spec(m.apc_text@)
            ==> fills(website_plan(j, m), "apc"@, WriteTable::Profiles, m.apc_text@),
        is_blank_spec(j.review_cycle@) && !is_blank_spec(m.review_cycle@)
            ==> fills(website_plan(j, m), "review_cycle"@, WriteTable::Profiles, m.review_cycle@),
{
    let kind = "official_website"@;
    let p1 = field_plan(is_blank_spec(j.scope_text@), m.scope_text@.len() > 0, m.scope_text@.len() > 0,
        "scope_text"@, kind, url_or(m.scope_source_url@, m.source_url@), WriteTable::Journals,
        m.scope_text@, true, "官网明确 scope 段落"@, "已补充官网 scope"@, "已有 scope，未覆盖"@);
    lemma_field_plan_fills(is_blank_spec(j.scope_text@), m.scope_text@.len() > 0, m.scope_text@.len() > 0,
        "scope_text"@, kind, url_or(m.scope_source_url@, m.source_url@), WriteTable::Journals,
        m.scope_text@, true, "官网明确 scope 段落"@, "已补充官网 scope"@, "已有 scope，未覆盖"@);
    let p2 = field_plan(is_blank_spec(j.oa_flag@), !is_blank_spec(m.oa_flag@), m.oa_flag@.len() > 0,
        "oa_flag"@, kind, url_or(m.oa_source_url@, m.source_url@), WriteTable::Journals,
        m.oa_flag@, false, "官网明确开放获取类型"@, "已补充开放获取类型"@, "已有开放获取类型，未覆盖"@);
    lemma_field_plan_fills(is_blank_spec(j.oa_flag@), !is_blank_spec(m.oa_flag@), m.oa_flag@.len() > 0,
        "oa_flag"@, kind, url_or(m.oa_source_url@, m.source_url@), WriteTable::Journals,
        m.oa_flag@, false, "官网明确开放获取类型"@, "已补充开放获取类型"@, "已有开放获取类型，未覆盖"@);
    let p3 = field_plan(is_blank_spec(j.oa_detail@), !is_blank_spec(m.oa_detail@), m.oa_detail@.len() > 0,
        "oa_detail"@, kind, url_or(m.oa_detail_source_url@, m.source_url@), WriteTable::Journals,
        m.oa_detail@, false, "官网开放获取说明页"@, "已补充开放获取说明"@, "已有开放获取说明，未覆盖"@);
    lemma_field_plan_fills(is_blank_spec(j.oa_detail@), !is_blank_spec(m.oa_detail@), m.oa_detail@.len() > 0,
        "oa_detail"@, kind, url_or(m.oa_detail_source_url@, m.source_url@), WriteTable::Journals,
        m.oa_detail@, false, "官网开放获取说明页"@, "已补充开放获取说明"@, "已有开放获取说明，未覆盖"@);
    let p4 = field_plan(is_blank_spec(j.jcr_rank_detail@), !is_blank_spec(m.jcr_rank_detail@), m.jcr_rank_detail@.len() > 0,
        "jcr_rank_detail"@, kind, url_or(m.jcr_source_url@, m.source_url@), WriteTable::Journals,
        m.jcr_rank_detail@, false, "官网 metrics / bibliometrics 页"@, "已补充 JCR 排名 / 百分位"@, "已有 JCR 排名信息，未覆盖"@);
    lemma_field_plan_fills(is_blank_spec(j.jcr_rank_detail@), !is_blank_spec(m.jcr_rank_detail@), m.jcr_rank_detail@.len() > 0,
        "jcr_rank_detail"@, kind, url_or(m.jcr_source_url@, m.source_url@), WriteTable::Journals,
        m.jcr_rank_detail@, false, "官网 metrics / bibliometrics 页"@, "已补充 JCR 排名 / 百分位"@, "已有 JCR 排名信息，未覆盖"@);
    let p5: Seq<ActionView> = if is_blank_spec(j.jcr_rank_detail@) && is_blank_spec(m.jcr_rank_detail@) {
        seq![ActionView { field: "jcr_rank_detail"@, status: "skipped"@, kind, url: m.source_url@,
            message: "页面未识别到 JCR 排名或百分位"@, write: None }]
    } else {
        seq![]
    };
    let p6 = field_plan(is_blank_spec(j.submission_guidelines@), m.submission_guidelines@.len() > 0, m.submission_guidelines@.len() > 0,
        "submission_guidelines"@, kind, url_or(m.submission_source_url@, m.source_url@), WriteTable::Profiles,
        m.submission_guidelines@, true, "官网明确投稿指南段落"@, "已补充官网投稿指南"@, "已有投稿指南，未覆盖"@);
    lemma_field_plan_fills(is_blank_spec(j.submission_guidelines@), m.submission_guidelines@.len() > 0, m.submission_guidelines@.len() > 0,
        "submission_guidelines"@, kind, url_or(m.submission_source_url@, m.source_url@), WriteTable::Profiles,
        m.submission_guidelines@, true, "官网明确投稿指南段落"@, "已补充官网投稿指南"@, "已有投稿指南，未覆盖"@);
    let p7 = field_plan(is_blank_spec(j.apc@), !is_blank_spec(m.apc_text@), m.apc_text@.len() > 0,
        "apc"@, kind, url_or(m.apc_source_url@, m.source_url@), WriteTable::Profiles,
        m.apc_text@, true, "官网费用或 APC 页面"@, "已补充版面费 / APC"@, "已有版面费信息，未覆盖"@);
    lemma_field_plan_fills(is_blank_spec(j.apc@), !is_blank_spec(m.apc_text@), m.apc_text@.len() > 0,
        "apc"@, kind, url_or(m.apc_source_url@, m.source_url@), WriteTable::Profiles,
        m.apc_text@, true, "官网费用或 APC 页面"@, "已补充版面费 / APC"@, "已有版面费信息，未覆盖"@);
    let p8 = field_plan(is_blank_spec(j.review_cycle@), !is_blank_spec(m.review_cycle@), m.review_cycle@.len() > 0,
        "review_cycle"@, kind, url_or(m.review_source_url@, m.source_url@), WriteTable::Profiles,
        m.review_cycle@, true, "官网审稿时长 / 首次决定时间"@, "已补充审稿周期"@, "已有审稿周期，未覆盖"@);
    lemma_field_plan_fills(is_blank_spec(j.review_cycle@), !is_blank_spec(m.review_cycle@), m.review_cycle@.len() > 0,
        "review_cycle"@, kind, url_or(m.review_source_url@, m.source_url@), WriteTable::Profiles,
        m.review_cycle@, true, "官网审稿时长 / 首次决定时间"@, "已补充审稿周期"@, "已有审稿周期，未覆盖"@);
    let cat = p1 + p2 + p3 + p4 + p5;
    let prof = p6 + p7 + p8;
    assert(website_catalogue_part(j, m) == cat);
    assert(website_profile_part(j, m) == prof);
    lemma_fills_four(p1, p2, p3, p4, "scope_text"@, WriteTable::Journals, m.scope_text@);
    lemma_fills_four(p1, p2, p3, p4, "oa_flag"@, WriteTable::Journals, m.oa_flag@);
    lemma_fills_four(p1, p2, p3, p4, "oa_detail"@, WriteTable::Journals, m.oa_detail@);
    lemma_fills_four(p1, p2, p3, p4, "jcr_rank_detail"@, WriteTable::Journals, m.jcr_rank_detail@);
    lemma_fills_concat(p1 + p2 + p3 + p4, p5, "scope_text"@, WriteTable::Journals, m.scope_text@);
    lemma_fills_concat(p1 + p2 + p3 + p4, p5, "oa_flag"@, WriteTable::Journals, m.oa_flag@);
    lemma_fills_concat(p1 + p2 + p3 + p4, p5, "oa_detail"@, WriteTable::Journals, m.oa_detail@);
    lemma_fills_concat(p1 + p2 + p3 + p4, p5, "jcr_rank_detail"@, WriteTable::Journals, m.jcr_rank_detail@);
    lemma_fills_concat(cat, prof, "scope_text"@, WriteTable::Journals, m.scope_text@);
    lemma_fills_concat(cat, prof, "oa_flag"@, WriteTable::Journals, m.oa_flag@);
    lemma_fills_concat(cat, prof, "oa_detail"@, WriteTable::Journals, m.oa_detail@);
    lemma_fills_concat(cat, prof, "jcr_rank_detail"@, WriteTable::Journals, m.jcr_rank_detail@);
    lemma_fills_four(seq![], p6, p7, p8, "submission_guidelines"@, WriteTable::Profiles, m.submission_guidelines@);
    lemma_fills_four(seq![], p6, p7, p8, "apc"@, WriteTable::Profiles, m.apc_text@);
    lemma_fills_four(seq![], p6, p7, p8, "review_cycle"@, WriteTable::Profiles, m.review_cycle@);
    assert(Seq::<ActionView>::empty() + p6 + p7 + p8 == prof);
    lemma_fills_concat(cat, prof, "submission_guidelines"@, WriteTable::Profiles, m.submission_guidelines@);
    lemma_fills_concat(cat, prof, "apc"@, WriteTable::Profiles, m.apc_text@);
    lemma_fills_concat(cat, prof, "review_cycle"@, WriteTable::Profiles, m.review_cycle@);
}

// ---------------------------------------------------------------------------
// Identifiers and titles
// ---------------------------------------------------------------------------

/// Characters kept from an ISSN: digits and the check letter X.
pub open spec fn is_issn_char(c: char) -> bool {
    ('0' <= c && c <= '9') || c == 'X' || c == 'x'
}

/// The ISSN characters of a text, in order, with `x` upper-cased.
pub open spec fn issn_chars(s: Seq<char>) -> Seq<char>
    decreases s.len(),
{
    if s.len() == 0 {
        seq![]
    } else if is_issn_char(s.last()) {
        issn_chars(s.drop_last()).push(if s.last() == 'x' { 'X' } else { s.last() })
    } else {
        issn_chars(s.drop_last())
    }
}

/// The ISSN written `NNNN-NNNC` when the text holds exactly eight ISSN
/// characters.
pub open spec fn normalize_issn_spec(s: Seq<char>) -> Option<Seq<char>> {
    let d = issn_chars(s);
    if d.len() == 8 {
        Some(d.take(4) + seq!['-'] + d.skip(4))
    } else {
        None
    }
}

/// Normalises an ISSN to `NNNN-NNNC`; `None` unless exactly eight ISSN
/// characters are present.
pub fn normalize_issn(value: &str) -> (r: Option<String>)
    ensures
        opt_view(r) == normalize_issn_spec(value@),
{
    let cs = chars_of(value);
    let mut d: Vec<char> = Vec::new();
    let mut i: usize = 0;
    while i < cs.len()
        invariant
            i <= cs@.len(),
            cs@ == value@,
            d@ == issn_chars(cs@.take(i as int)),
        decreases cs@.len() - i,
    {
        let c = cs[i];
        proof {
            assert(cs@.take(i + 1).drop_last() =~= cs@.take(i as int));
            assert(cs@.take(i + 1).last() == c);
        }
        if ('0' <= c && c <= '9') || c == 'X' || c == 'x' {
            d.push(if c == 'x' { 'X' } else { c });
        }
        i = i + 1;
    }
    assert(cs@.take(i as int) =~= cs@);
    if d.len() == 8 {
        let mut out = string_of_range(&d, 0, 4);
        push_char(&mut out, '-');
        let rest = string_of_range(&d, 4, 8);
        append(&mut out, rest.as_str());
        assert(out@ =~= d@.take(4) + seq!['-'] + d@.skip(4));
        Some(out)
    } else {
        None
    }
}

/// An ASCII letter in upper case; other characters unchanged.
pub open spec fn ascii_upper(c: char) -> char {
    if 'a' <= c && c <= 'z' { ((c as u32) - 32) as char } else { c }
}

/// The ASCII letters and digits of a title, upper-cased.
pub open spec fn title_key(s: Seq<char>) -> Seq<char>
    decreases s.len(),
{
    if s.len() == 0 {
        seq![]
    } else if is_ascii_alnum(s.last()) {
        title_key(s.drop_last()).push(ascii_upper(s.last()))
    } else {
        title_key(s.drop_last())
    }
}

fn upper_ascii(c: char) -> (r: char)
    ensures
        r == ascii_upper(c),
{
    if 'a' <= c && c <= 'z' {
        let b: u8 = (c as u8) - 32;
        b as char
    } else {
        c
    }
}

/// The comparison key of a journal title: its ASCII letters and digits,
/// upper-cased.
pub fn normalize_title(value: &str) -> (r: String)
    ensures
        r@ == title_key(value@),
{
    let cs = chars_of(value);
    let mut out = String::new();
    let mut i: usize = 0;
    while i < cs.len()
        invariant
            i <= cs@.len(),
            cs@ == value@,
            out@ == title_key(cs@.take(i as int)),
        decreases cs@.len() - i,
    {
        let c = cs[i];
        proof {
            assert(cs@.take(i + 1).drop_last() =~= cs@.take(i as int));
            assert(cs@.take(i + 1).last() == c);
        }
        if ('0' <= c && c <= '9') || ('a' <= c && c <= 'z') || ('A' <= c && c <= 'Z') {
            push_char(&mut out, upper_ascii(c));
        }
        i = i + 1;
    }
    assert(cs@.take(i as int) =~= cs@);
    out
}

/// Two titles match when both keys are non-empty and one holds the other.
pub open spec fn title_matches_spec(local: Seq<char>, remote: Seq<char>) -> bool {
    let l = title_key(local);
    let r = title_key(remote);
    l.len() > 0 && r.len() > 0 && (l == r || contains_spec(l, r) || contains_spec(r, l))
}

/// Title matching is symmetric, and a title with letters or digits
/// matches itself.
pub proof fn title_matching_is_symmetric_and_reflexive(a: Seq<char>, b: Seq<char>)
    ensures
        title_matches_spec(a, b) == title_matches_spec(b, a),
        title_key(a).len() > 0 ==> title_matches_spec(a, a),
{
}

/// Whether a Crossref title can be taken for the local journal.
pub fn title_matches(local: &str, remote: &str) -> (r: bool)
    ensures
        r == title_matches_spec(local@, remote@),
{
    let l = normalize_title(local);
    let r = normalize_title(remote);
    if l.as_str().is_empty() || r.as_str().is_empty() {
        return false;
    }
    str_eq(l.as_str(), r.as_str()) || contains(l.as_str(), r.as_str()) || contains(r.as_str(), l.as_str())
}

/// Whether a trimmed address is an http(s) URL.
pub open spec fn is_web_url(v: Seq<char>) -> bool {
    starts_with_spec(v, "https://"@) || starts_with_spec(v, "http://"@)
}

/// The site to read: the journal's own website when it is an http(s) URL,
/// else the one Crossref gave when that is; trimmed.
pub open spec fn website_url_spec(j: SelectedJournal, crossref: Option<CrossrefMetadata>) -> Option<Seq<char>> {
    let own = trim_spec(j.website@);
    if is_web_url(own) {
        Some(own)
    } else {
        match crossref {
            Some(c) => if is_web_url(trim_spec(c.website_url@)) { Some(trim_spec(c.website_url@)) } else { None },
            None => None,
        }
    }
}

fn web_url(v: &str) -> (r: bool)
    ensures
        r == is_web_url(v@),
{
    starts_with(v, "https://") || starts_with(v, "http://")
}

/// Picks the official website to read.
pub fn choose_website_url(journal: &SelectedJournal, crossref: Option<&CrossrefMetadata>) -> (r: Option<String>)
    ensures
        opt_view(r) == website_url_spec(*journal, match crossref { Some(c) => Some(*c), None => None }),
{
    let value = trim(journal.website.as_str());
    if web_url(value.as_str()) {
        return Some(value);
    }
    match crossref {
        Some(c) => {
            let candidate = trim(c.website_url.as_str());
            if web_url(candidate.as_str()) {
                Some(candidate)
            } else {
                None
            }
        },
        None => None,
    }
}

/// Whether a Crossref answer is taken: its journal title must not be blank,
/// and when the lookup went by name rather than ISSN the titles must match.
pub open spec fn crossref_accepted_spec(local_name: Seq<char>, looked_up_by_issn: bool, remote_name: Seq<char>) -> bool {
    !is_blank_spec(remote_name) && (looked_up_by_issn || title_matches_spec(local_name, remote_name))
}

/// Decides whether a Crossref answer belongs to the journal.
pub fn crossref_accepted(local_name: &str, looked_up_by_issn: bool, remote_name: &str) -> (r: bool)
    ensures
        r == crossref_accepted_spec(local_name@, looked_up_by_issn, remote_name@),
{
    !is_blank(remote_name) && (looked_up_by_issn || title_matches(local_name, remote_name))
}

/// The ISSN to look a journal up by: its print ISSN, else its electronic
/// ISSN, normalised.
pub open spec fn lookup_issn_spec(j: SelectedJournal) -> Option<Seq<char>> {
    match normalize_issn_spec(j.issn@) {
        Some(v) => Some(v),
        None => normalize_issn_spec(j.eissn@),
    }
}

/// The ISSN to look a journal up by at Crossref.
pub fn lookup_issn(journal: &SelectedJournal) -> (r: Option<String>)
    ensures
        opt_view(r) == lookup_issn_spec(*journal),
{
    match normalize_issn(journal.issn.as_str()) {
        Some(v) => Some(v),
        None => normalize_issn(journal.eissn.as_str()),
    }
}

/// Recent article titles as Crossref lists them: trimmed, blank ones
/// dropped, one per line.
pub open spec fn article_topics_spec(titles: Seq<Seq<char>>) -> Seq<char> {
    join_spec(drop_empty(titles.map_values(|t: Seq<char>| trim_spec(t))), "\n"@)
}

/// Joins recent article titles into the article-topics text.
pub fn article_topics_text(titles: &Vec<String>) -> (r: String)
    ensures
        r@ == article_topics_spec(views(titles@)),
{
    let ghost all = views(titles@).map_values(|t: Seq<char>| trim_spec(t));
    let mut kept: Vec<String> = Vec::new();
    let mut i: usize = 0;
    while i < titles.len()
        invariant
            i <= titles@.len(),
            all == views(titles@).map_values(|t: Seq<char>| trim_spec(t)),
            views(kept@) == drop_empty(all.take(i as int)),
        decreases titles@.len() - i,
    {
        let t = trim(titles[i].as_str());
        proof {
            assert(all.take(i + 1).drop_last() =~= all.take(i as int));
            assert(all.take(i + 1).last() == t@);
        }
        if !t.as_str().is_empty() {
            let ghost before = views(kept@);
            kept.push(t);
            assert(views(kept@) =~= before.push(t@));
        }
        i = i + 1;
    }
    assert(all.take(i as int) =~= all);
    join(&kept, "\n")
}


// ---------------------------------------------------------------------------
// Reading an official site
// ---------------------------------------------------------------------------

/// One page of a journal's official site as read: its address, its
/// readable text, and the JCR rank line found on it.
#[derive(Clone, Debug)]
pub struct SitePage {
    pub url: String,
    pub text: String,
    pub jcr_rank_detail: String,
}

/// The plain values of a page: address, text, JCR rank line.
pub open spec fn page_view(p: SitePage) -> (Seq<char>, Seq<char>, Seq<char>) {
    (p.url@, p.text@, p.jcr_rank_detail@)
}

/// The plain values of a list of pages.
pub open spec fn page_views(pages: Seq<SitePage>) -> Seq<(Seq<char>, Seq<char>, Seq<char>)> {
    pages.map_values(|p: SitePage| page_view(p))
}

/// A field that the official site may yield.
#[derive(PartialEq, Eq, Structural, Clone, Copy, Debug)]
pub enum SiteField {
    Scope,
    Guidelines,
    OpenAccess,
    Fee,
    ReviewCycle,
    JcrRank,
}

/// Headings of an aims-and-scope section.
pub open spec fn scope_headings() -> Seq<Seq<char>> {
    seq!["aims and scope"@, "aims & scope"@, "scope"@, "收稿范围"@]
}

/// Headings of a guidelines-for-authors section.
pub open spec fn guideline_headings() -> Seq<Seq<char>> {
    seq!["author guidelines"@, "instructions for authors"@, "submission guidelines"@, "投稿指南"@, "投稿须知"@]
}

/// What a page yields for a field.
pub open spec fn field_value(f: SiteField, text: Seq<char>, jcr: Seq<char>) -> Seq<char> {
    match f {
        SiteField::Scope => extract_section_spec(text, scope_headings()),
        SiteField::Guidelines => extract_section_spec(text, guideline_headings()),
        SiteField::OpenAccess => extract_section_spec(text, open_access_headings()),
        SiteField::Fee => extract_section_spec(text, fee_headings()),
        SiteField::ReviewCycle => review_cycle_spec(text),
        SiteField::JcrRank => jcr,
    }
}

fn read_field(f: SiteField, text: &str, jcr: &str) -> (r: String)
    ensures
        r@ == field_value(f, text@, jcr@),
{
    match f {
        SiteField::Scope => {
            let h = vec!["aims and scope", "aims & scope", "scope", "收稿范围"];
            assert(strs(h@) =~= scope_headings());
            extract_section(text, &h)
        },
        SiteField::Guidelines => {
            let h = vec!["author guidelines", "instructions for authors", "submission guidelines", "投稿指南", "投稿须知"];
            assert(strs(h@) =~= guideline_headings());
            extract_section(text, &h)
        },
        SiteField::OpenAccess => extract_open_access_text(text),
        SiteField::Fee => extract_fee_text(text),
        SiteField::ReviewCycle => extract_review_cycle_text(text),
        SiteField::JcrRank => owned(jcr),
    }
}

/// The first page, in order, that yields a value for the field: the value
/// and the page's address.
pub open spec fn first_value(pages: Seq<(Seq<char>, Seq<char>, Seq<char>)>, f: SiteField) -> Option<(Seq<char>, Seq<char>)>
    decreases pages.len(),
{
    if pages.len() == 0 {
        None
    } else {
        match first_value(pages.drop_last(), f) {
            Some(x) => Some(x),
            None => {
                let v = field_value(f, pages.last().1, pages.last().2);
                if v.len() > 0 { Some((v, pages.last().0)) } else { None }
            },
        }
    }
}

/// The value of a field and where it came from: the first page that yields
/// it, else the whole site's text credited to the start address; empty
/// when nothing yields it.
pub open spec fn site_value(
    pages: Seq<(Seq<char>, Seq<char>, Seq<char>)>,
    start_url: Seq<char>,
    combined: Seq<char>,
    combined_jcr: Seq<char>,
    f: SiteField,
) -> (Seq<char>, Seq<char>) {
    match first_value(pages.push((start_url, combined, combined_jcr)), f) {
        Some(x) => x,
        None => (seq![], seq![]),
    }
}

fn find_site_value(pages: &Vec<SitePage>, start_url: &str, combined: &str, combined_jcr: &str, f: SiteField) -> (r: (String, String))
    ensures
        (r.0@, r.1@) == site_value(page_views(pages@), start_url@, combined@, combined_jcr@, f),
{
    let ghost all = page_views(pages@).push((start_url@, combined@, combined_jcr@));
    let mut i: usize = 0;
    while i < pages.len()
        invariant
            i <= pages@.len(),
            all == page_views(pages@).push((start_url@, combined@, combined_jcr@)),
            first_value(all.take(i as int), f) is None,
        decreases pages@.len() - i,
    {
        let v = read_field(f, pages[i].text.as_str(), pages[i].jcr_rank_detail.as_str());
        proof {
            assert(all.take(i + 1).drop_last() =~= all.take(i as int));
            assert(all.take(i + 1).last() == page_view(pages@[i as int]));
        }
        if !v.as_str().is_empty() {
            proof {
                lemma_first_value_prefix(all, f, i as int + 1);
            }
            return (v, pages[i].url.clone());
        }
        i = i + 1;
    }
    let v = read_field(f, combined, combined_jcr);
    proof {
        assert(all.take(i as int + 1) =~= all);
        assert(all.take(i as int + 1).drop_last() =~= all.take(i as int));
    }
    if !v.as_str().is_empty() {
        (v, owned(start_url))
    } else {
        (String::new(), String::new())
    }
}

proof fn lemma_first_value_prefix(all: Seq<(Seq<char>, Seq<char>, Seq<char>)>, f: SiteField, k: int)
    requires
        0 <= k <= all.len(),
        first_value(all.take(k), f) is Some,
    ensures
        first_value(all, f) == first_value(all.take(k), f),
    decreases all.len() - k,
{
    if k < all.len() {
        assert(all.take(k + 1).drop_last() =~= all.take(k));
        lemma_first_value_prefix(all, f, k + 1);
    } else {
        assert(all.take(k) =~= all);
    }
}

/// The texts of the pages that are not blank, in order.
pub open spec fn page_texts(pages: Seq<(Seq<char>, Seq<char>, Seq<char>)>) -> Seq<Seq<char>>
    decreases pages.len(),
{
    if pages.len() == 0 {
        seq![]
    } else if !is_blank_spec(pages.last().1) {
        page_texts(pages.drop_last()).push(pages.last().1)
    } else {
        page_texts(pages.drop_last())
    }
}

/// The whole site's text: the non-blank page texts separated by blank
/// lines.
pub open spec fn combined_text_spec(pages: Seq<(Seq<char>, Seq<char>, Seq<char>)>) -> Seq<char> {
    join_spec(page_texts(pages), "\n\n"@)
}

/// Joins the non-blank page texts of a site.
pub fn combined_page_text(pages: &Vec<SitePage>) -> (r: String)
    ensures
        r@ == combined_text_spec(page_views(pages@)),
{
    let mut kept: Vec<String> = Vec::new();
    let mut i: usize = 0;
    while i < pages.len()
        invariant
            i <= pages@.len(),
            views(kept@) == page_texts(page_views(pages@).take(i as int)),
        decreases pages@.len() - i,
    {
        proof {
            assert(page_views(pages@).take(i + 1).drop_last() =~= page_views(pages@).take(i as int));
            assert(page_views(pages@).take(i + 1).last() == page_view(pages@[i as int]));
        }
        if !is_blank(pages[i].text.as_str()) {
            let ghost before = views(kept@);
            let t = pages[i].text.clone();
            kept.push(t);
            assert(views(kept@) =~= before.push(pages@[i as int].text@));
        }
        i = i + 1;
    }
    assert(page_views(pages@).take(i as int) =~= page_views(pages@));
    join(&kept, "\n\n")
}

/// Whether the site yielded none of scope, guidelines, open-access
/// statement, fee, review cycle and JCR rank.
pub open spec fn site_yields_nothing(pages: Seq<(Seq<char>, Seq<char>, Seq<char>)>, start_url: Seq<char>, combined_jcr: Seq<char>) -> bool {
    let c = combined_text_spec(pages);
    &&& site_value(pages, start_url, c, combined_jcr, SiteField::Scope).0.len() == 0
    &&& site_value(pages, start_url, c, combined_jcr, SiteField::Guidelines).0.len() == 0
    &&& site_value(pages, start_url, c, combined_jcr, SiteField::OpenAccess).0.len() == 0
    &&& site_value(pages, start_url, c, combined_jcr, SiteField::Fee).0.len() == 0
    &&& site_value(pages, start_url, c, combined_jcr, SiteField::ReviewCycle).0.len() == 0
    &&& site_value(pages, start_url, c, combined_jcr, SiteField::JcrRank).0.len() == 0
}

/// Whether `m` holds what the site yields: each field with its page, the
/// open-access type guessed from the open-access and fee statements, and
/// the type credited to the open-access page, else the fee page, else the
/// start address.
pub open spec fn metadata_from_site(
    m: WebsiteMetadata,
    pages: Seq<(Seq<char>, Seq<char>, Seq<char>)>,
    start_url: Seq<char>,
    combined_jcr: Seq<char>,
) -> bool {
    let c = combined_text_spec(pages);
    let scope = site_value(pages, start_url, c, combined_jcr, SiteField::Scope);
    let guide = site_value(pages, start_url, c, combined_jcr, SiteField::Guidelines);
    let oa = site_value(pages, start_url, c, combined_jcr, SiteField::OpenAccess);
    let fee = site_value(pages, start_url, c, combined_jcr, SiteField::Fee);
    let cycle = site_value(pages, start_url, c, combined_jcr, SiteField::ReviewCycle);
    let jcr = site_value(pages, start_url, c, combined_jcr, SiteField::JcrRank);
    &&& m.scope_text@ == scope.0 && m.scope_source_url@ == scope.1
    &&& m.submission_guidelines@ == guide.0 && m.submission_source_url@ == guide.1
    &&& m.oa_detail@ == oa.0 && m.oa_detail_source_url@ == oa.1
    &&& m.apc_text@ == fee.0 && m.apc_source_url@ == fee.1
    &&& m.review_cycle@ == cycle.0 && m.review_source_url@ == cycle.1
    &&& m.jcr_rank_detail@ == jcr.0 && m.jcr_source_url@ == jcr.1
    &&& m.oa_flag@ == infer_oa_flag_spec(oa.0, fee.0)
    &&& m.oa_source_url@ == (if oa.1.len() > 0 { oa.1 } else if fee.1.len() > 0 { fee.1 } else { start_url })
    &&& m.source_url@ == start_url
}

/// What the official site yields, from the pages read in crawl order. The
/// JCR rank line of each page and of the whole site's text is found by the
/// caller. Fails, with the message the report shows, when the site yields
/// nothing.
pub fn website_metadata_from_pages(pages: &Vec<SitePage>, start_url: &str, combined_jcr: &str) -> (r: Result<WebsiteMetadata, String>)
    ensures
        match r {
            Ok(m) => metadata_from_site(m, page_views(pages@), start_url@, combined_jcr@)
                && !site_yields_nothing(page_views(pages@), start_url@, combined_jcr@),
            Err(e) => site_yields_nothing(page_views(pages@), start_url@, combined_jcr@)
                && e@ == "未识别到明确的 scope、投稿指南或补充信息"@,
        },
{
    let combined = combined_page_text(pages);
    let c = combined.as_str();
    let (scope_text, scope_source_url) = find_site_value(pages, start_url, c, combined_jcr, SiteField::Scope);
    let (submission_guidelines, submission_source_url) = find_site_value(pages, start_url, c, combined_jcr, SiteField::Guidelines);
    let (oa_detail, oa_detail_source_url) = find_site_value(pages, start_url, c, combined_jcr, SiteField::OpenAccess);
    let (apc_text, apc_source_url) = find_site_value(pages, start_url, c, combined_jcr, SiteField::Fee);
    let (review_cycle, review_source_url) = find_site_value(pages, start_url, c, combined_jcr, SiteField::ReviewCycle);
    let (jcr_rank_detail, jcr_source_url) = find_site_value(pages, start_url, c, combined_jcr, SiteField::JcrRank);
    if scope_text.as_str().is_empty() && submission_guidelines.as_str().is_empty() && oa_detail.as_str().is_empty()
        && apc_text.as_str().is_empty() && review_cycle.as_str().is_empty() && jcr_rank_detail.as_str().is_empty() {
        return Err(owned("未识别到明确的 scope、投稿指南或补充信息"));
    }
    let oa_flag = infer_oa_flag(oa_detail.as_str(), apc_text.as_str());
    let oa_source_url = if !oa_detail_source_url.as_str().is_empty() {
        oa_detail_source_url.clone()
    } else if !apc_source_url.as_str().is_empty() {
        apc_source_url.clone()
    } else {
        owned(start_url)
    };
    Ok(WebsiteMetadata {
        scope_text,
        scope_source_url,
        submission_guidelines,
        submission_source_url,
        oa_flag,
        oa_source_url,
        oa_detail,
        oa_detail_source_url,
        apc_text,
        apc_source_url,
        review_cycle,
        review_source_url,
        jcr_rank_detail,
        jcr_source_url,
        source_url: owned(start_url),
    })
}


// ---------------------------------------------------------------------------
// One journal, and the run's report
// ---------------------------------------------------------------------------

/// What reading a journal's official site came to.
#[derive(Clone, Debug)]
pub enum WebsiteOutcome {
    /// No http(s) website was known.
    NotAvailable,
    /// The site at `url` could not be read reliably, for `reason`.
    Failed { url: String, reason: String },
    /// The site was read.
    Read(WebsiteMetadata),
}

/// The report line for a site that could not be read.
pub open spec fn site_failure_line(url: Seq<char>, reason: Seq<char>) -> ActionView {
    ActionView {
        field: "scope_text/submission_guidelines"@,
        status: "skipped"@,
        kind: "official_website"@,
        url,
        message: "官网页面无法可靠解析，未写入："@ + reason,
        write: None,
    }
}

/// The report line when Crossref returned nothing usable.
pub open spec fn crossref_missing_line() -> ActionView {
    ActionView {
        field: "issn/eissn/article_topics"@,
        status: "skipped"@,
        kind: "crossref"@,
        url: seq![],
        message: "Crossref 没有返回可核验记录，未写入猜测数据。"@,
        write: None,
    }
}

/// The whole plan for one journal: a line for a site that failed, then the
/// Crossref lines (or one saying Crossref gave nothing), then the website
/// lines.
pub open spec fn journal_plan(j: SelectedJournal, crossref: Option<CrossrefMetadata>, website: WebsiteOutcome) -> Seq<ActionView> {
    let failed = match website {
        WebsiteOutcome::Failed { url, reason } => seq![site_failure_line(url@, reason@)],
        _ => seq![],
    };
    let from_crossref = match crossref {
        Some(m) => crossref_plan(j, m),
        None => seq![crossref_missing_line()],
    };
    let from_site = match website {
        WebsiteOutcome::Read(m) => website_plan(j, m),
        _ => seq![],
    };
    failed + from_crossref + from_site
}

/// Plans everything enrichment does to one journal.
pub fn plan_journal_enrichment(journal: &SelectedJournal, crossref: Option<&CrossrefMetadata>, website: &WebsiteOutcome) -> (r: Vec<FieldAction>)
    ensures
        action_views(r@) == journal_plan(*journal, match crossref { Some(c) => Some(*c), None => None }, *website),
{
    let mut out: Vec<FieldAction> = Vec::new();
    match website {
        WebsiteOutcome::Failed { url, reason } => {
            let message = cat("官网页面无法可靠解析，未写入：", reason.as_str());
            let a = FieldAction {
                report: skipped_field("scope_text/submission_guidelines", "official_website", url.as_str(), message.as_str()),
                write: None,
            };
            out.push(a);
        },
        _ => {},
    }
    let ghost first = action_views(out@);
    let mut middle = match crossref {
        Some(m) => plan_crossref_updates(journal, m),
        None => {
            let mut v: Vec<FieldAction> = Vec::new();
            let a = FieldAction {
                report: skipped_field("issn/eissn/article_topics", "crossref", "", "Crossref 没有返回可核验记录，未写入猜测数据。"),
                write: None,
            };
            proof {
                reveal_strlit("");
                assert(""@ =~= Seq::<char>::empty());
                assert(a@ == crossref_missing_line());
            }
            v.push(a);
            assert(action_views(v@) =~= seq![crossref_missing_line()]);
            v
        },
    };
    let ghost second = action_views(middle@);
    out.append(&mut middle);
    assert(action_views(out@) =~= first + second);
    let ghost upto = action_views(out@);
    match website {
        WebsiteOutcome::Read(m) => {
            let mut last = plan_website_updates(journal, m);
            let ghost third = action_views(last@);
            out.append(&mut last);
            assert(action_views(out@) =~= upto + third);
        },
        _ => {
            assert(action_views(out@) =~= upto + seq![]);
        },
    }
    proof {
        match website {
            WebsiteOutcome::Failed { url, reason } => {
                assert(first =~= seq![site_failure_line(url@, reason@)]);
            },
            _ => {
                assert(first =~= seq![]);
            },
        }
    }
    out
}

/// Enrichment never overwrites: nothing that enrichment plans for a journal
/// writes into a field that already holds something, and only "updated"
/// lines write.
pub proof fn journal_plan_never_overwrites(j: SelectedJournal, crossref: Option<CrossrefMetadata>, website: WebsiteOutcome)
    ensures
        never_overwrites(j, journal_plan(j, crossref, website)),
{
    lemma_status_distinct();
    let failed: Seq<ActionView> = match website {
        WebsiteOutcome::Failed { url, reason } => seq![site_failure_line(url@, reason@)],
        _ => seq![],
    };
    assert(never_overwrites(j, failed));
    let from_crossref = match crossref {
        Some(m) => crossref_plan(j, m),
        None => seq![crossref_missing_line()],
    };
    match crossref {
        Some(m) => crossref_plan_never_overwrites(j, m),
        None => assert(never_overwrites(j, seq![crossref_missing_line()])),
    }
    let from_site = match website {
        WebsiteOutcome::Read(m) => website_plan(j, m),
        _ => seq![],
    };
    match website {
        WebsiteOutcome::Read(m) => website_plan_never_overwrites(j, m),
        _ => assert(never_overwrites(j, Seq::<ActionView>::empty())),
    }
    lemma_concat_safe(j, failed, from_crossref);
    lemma_concat_safe(j, failed + from_crossref, from_site);
}

/// How many lines of a plan have the given status.
pub open spec fn count_status(plan: Seq<ActionView>, status: Seq<char>) -> nat
    decreases plan.len(),
{
    if plan.len() == 0 {
        0
    } else {
        count_status(plan.drop_last(), status) + if plan.last().status == status { 1nat } else { 0nat }
    }
}

proof fn lemma_count_status_le(plan: Seq<ActionView>, status: Seq<char>)
    ensures
        count_status(plan, status) <= plan.len(),
    decreases plan.len(),
{
    if plan.len() > 0 {
        lemma_count_status_le(plan.drop_last(), status);
    }
}

/// An empty report for a run.
pub fn new_enrichment_report(dry_run: bool) -> (r: EnrichmentReport)
    ensures
        r.dry_run == dry_run,
        r.processed == 0,
        r.updated_fields == 0,
        r.skipped_fields == 0,
        r.warnings@.len() == 0,
        r.journals@.len() == 0,
{
    EnrichmentReport { dry_run, processed: 0, updated_fields: 0, skipped_fields: 0, warnings: Vec::new(), journals: Vec::new() }
}

fn count_lines(actions: &Vec<FieldAction>, status: &str) -> (r: usize)
    ensures
        r == count_status(action_views(actions@), status@),
{
    let mut n: usize = 0;
    let mut i: usize = 0;
    while i < actions.len()
        invariant
            i <= actions@.len(),
            n == count_status(action_views(actions@).take(i as int), status@),
            n <= i,
        decreases actions@.len() - i,
    {
        proof {
            assert(action_views(actions@).take(i + 1).drop_last() =~= action_views(actions@).take(i as int));
            assert(action_views(actions@).take(i + 1).last() == actions@[i as int]@);
        }
        if str_eq(actions[i].report.status.as_str(), status) {
            n = n + 1;
        }
        i = i + 1;
    }
    assert(action_views(actions@).take(i as int) =~= action_views(actions@));
    n
}

/// Whether the report lines are those of the actions, one for one.
pub open spec fn lines_of(fields: Seq<EnrichmentFieldReport>, actions: Seq<FieldAction>) -> bool {
    &&& fields.len() == actions.len()
    &&& forall|k: int| 0 <= k < actions.len() ==> {
        &&& #[trigger] fields[k].status@ == actions[k].report.status@
        &&& fields[k].field_name@ == actions[k].report.field_name@
        &&& fields[k].message@ == actions[k].report.message@
        &&& fields[k].source_url@ == actions[k].report.source_url@
        &&& fields[k].source_kind@ == actions[k].report.source_kind@
    }
}

/// Adds one processed journal to the run's report: its lines, and the
/// updated and skipped counts.
pub fn record_journal(report: &mut EnrichmentReport, journal: &SelectedJournal, actions: &Vec<FieldAction>)
    requires
        old(report).processed < usize::MAX,
        old(report).updated_fields + actions@.len() <= usize::MAX,
        old(report).skipped_fields + actions@.len() <= usize::MAX,
    ensures
        final(report).dry_run == old(report).dry_run,
        final(report).processed == old(report).processed + 1,
        final(report).updated_fields == old(report).updated_fields + count_status(action_views(actions@), "updated"@),
        final(report).skipped_fields == old(report).skipped_fields + count_status(action_views(actions@), "skipped"@),
        final(report).warnings@ == old(report).warnings@,
        final(report).journals@.len() == old(report).journals@.len() + 1,
        final(report).journals@.drop_last() == old(report).journals@,
        final(report).journals@.last().journal_id == journal.id,
        final(report).journals@.last().journal_name@ == journal.name@,
        lines_of(final(report).journals@.last().fields@, actions@),
{
    let updated = count_lines(actions, "updated");
    let skipped = count_lines(actions, "skipped");
    proof {
        lemma_count_status_le(action_views(actions@), "updated"@);
        lemma_count_status_le(action_views(actions@), "skipped"@);
    }
    let mut fields: Vec<EnrichmentFieldReport> = Vec::new();
    let mut i: usize = 0;
    while i < actions.len()
        invariant
            i <= actions@.len(),
            fields@.len() == i,
            forall|k: int| 0 <= k < i ==>
                #[trigger] fields@[k].status@ == actions@[k].report.status@
                && fields@[k].field_name@ == actions@[k].report.field_name@
                && fields@[k].message@ == actions@[k].report.message@
                && fields@[k].source_url@ == actions@[k].report.source_url@
                && fields@[k].source_kind@ == actions@[k].report.source_kind@,
        decreases actions@.len() - i,
    {
        let r = &actions[i].report;
        fields.push(EnrichmentFieldReport {
            field_name: owned(r.field_name.as_str()),
            status: owned(r.status.as_str()),
            source_kind: owned(r.source_kind.as_str()),
            source_url: owned(r.source_url.as_str()),
            message: owned(r.message.as_str()),
        });
        i = i + 1;
    }
    report.processed = report.processed + 1;
    report.updated_fields = report.updated_fields + updated;
    report.skipped_fields = report.skipped_fields + skipped;
    let ghost before = report.journals@;
    let ghost fv = fields@;
    report.journals.push(EnrichmentJournalReport { journal_id: journal.id, journal_name: owned(journal.name.as_str()), fields });
    assert(report.journals@.drop_last() =~= before);
    assert(report.journals@.last().fields@ == fv);
    assert(lines_of(report.journals@.last().fields@, actions@));
}

} // verus!
