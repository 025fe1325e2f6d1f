//! The journal catalogue's records, name normalisation, the SQL filter
//! clauses used to list journals and submissions, and CSV rows for export.
use vstd::prelude::*;
use crate::text::{
    append, cat, chars_of, contains_spec, is_blank, occurs_at, is_blank_spec, join, join_spec, owned, replace, replace_spec, string_of, strs,
    to_uppercase, trim, trim_spec, uppercase, views,
};

verus! {

/// One catalogue journal with the user's profile fields. Numeric metrics
/// that the catalogue stores as floating-point values (impact factor, Web of
/// Science article count) are carried beside this record by the caller.
#[derive(Clone, Debug)]
pub struct JournalRecord {
    pub id: i64,
    pub name: String,
    pub issn: String,
    pub eissn: String,
    pub source_db: String,
    pub jif_quartile: String,
    pub cas_quartile: String,
    pub cas_zone: String,
    pub subjects: String,
    pub publisher: String,
    pub ccf: String,
    pub ei: String,
    pub cssci: String,
    pub cscd: String,
    pub pku_core: String,
    pub ami_level: String,
    pub top_flag: String,
    pub oa_flag: String,
    pub oa_detail: String,
    pub website: String,
    pub scope_text: String,
    pub jcr_rank_detail: String,
    pub difficulty: String,
    pub recommendation_preference: String,
    pub apc: String,
    pub review_cycle: String,
    pub tags: String,
    pub summary: String,
    pub experience: String,
    pub rejection_reason: String,
    pub suitable_topics: String,
    pub avoid_reason: String,
    pub article_topics: String,
    pub submission_guidelines: String,
    pub grade: String,
}


impl JournalRecord {
    /// A field-by-field copy.
    pub fn copy(&self) -> (r: JournalRecord)
        ensures
            r == *self,
    {
        JournalRecord {
            id: self.id,
            name: self.name.clone(),
            issn: self.issn.clone(),
            eissn: self.eissn.clone(),
            source_db: self.source_db.clone(),
            jif_quartile: self.jif_quartile.clone(),
            cas_quartile: self.cas_quartile.clone(),
            cas_zone: self.cas_zone.clone(),
            subjects: self.subjects.clone(),
            publisher: self.publisher.clone(),
            ccf: self.ccf.clone(),
            ei: self.ei.clone(),
            cssci: self.cssci.clone(),
            cscd: self.cscd.clone(),
            pku_core: self.pku_core.clone(),
            ami_level: self.ami_level.clone(),
            top_flag: self.top_flag.clone(),
            oa_flag: self.oa_flag.clone(),
            oa_detail: self.oa_detail.clone(),
            website: self.website.clone(),
            scope_text: self.scope_text.clone(),
            jcr_rank_detail: self.jcr_rank_detail.clone(),
            difficulty: self.difficulty.clone(),
            recommendation_preference: self.recommendation_preference.clone(),
            apc: self.apc.clone(),
            review_cycle: self.review_cycle.clone(),
            tags: self.tags.clone(),
            summary: self.summary.clone(),
            experience: self.experience.clone(),
            rejection_reason: self.rejection_reason.clone(),
            suitable_topics: self.suitable_topics.clone(),
            avoid_reason: self.avoid_reason.clone(),
            article_topics: self.article_topics.clone(),
            submission_guidelines: self.submission_guidelines.clone(),
            grade: self.grade.clone(),
        }
    }
}

/// The characters that journal-name normalisation drops: line feed,
/// carriage return, tab, space and the ideographic space.
pub open spec fn is_name_filler(c: char) -> bool {
    c == '\n' || c == '\r' || c == '\t' || c == ' ' || c == '\u{3000}'
}

/// `s` without the filler characters.
pub open spec fn drop_fillers(s: Seq<char>) -> Seq<char> {
    s.filter(|c: char| !is_name_filler(c))
}

/// The normalised journal name: trimmed, filler characters removed,
/// upper-cased.
pub open spec fn normalized_name_spec(name: Seq<char>) -> Seq<char> {
    uppercase(drop_fillers(trim_spec(name)))
}

/// Normalises a journal name for duplicate detection.
pub fn normalize_journal_name(name: &str) -> (r: String)
    ensures
        r@ == normalized_name_spec(name@),
{
    let trimmed = trim(name);
    let cs = chars_of(trimmed.as_str());
    let mut kept: Vec<char> = Vec::new();
    let mut i: usize = 0;
    while i < cs.len()
        invariant
            i <= cs.len(),
            cs@ == trimmed@,
            kept@ == drop_fillers(cs@.take(i as int)),
        decreases cs.len() - i,
    {
        proof {
            reveal_with_fuel(Seq::filter, 1);
            assert(cs@.take(i + 1).drop_last() =~= cs@.take(i as int));
        }
        let c = cs[i];
        if !(c == '\n' || c == '\r' || c == '\t' || c == ' ' || c == '\u{3000}') {
            kept.push(c);
        }
        i = i + 1;
    }
    assert(cs@.take(cs.len() as int) =~= cs@);
    let joined = string_of(&kept);
    to_uppercase(joined.as_str())
}


// ---------------------------------------------------------------------------
// Filters and the queries they make
// ---------------------------------------------------------------------------

/// How to list catalogue journals.
#[derive(Clone, Debug)]
pub struct JournalListFilter {
    pub keyword: String,
    pub source_db: Vec<String>,
    pub jif_quartile: Vec<String>,
    pub cas_zone: Vec<String>,
    pub ccf: Vec<String>,
    pub ei_only: bool,
    pub limit: usize,
    pub offset: usize,
}

impl Default for JournalListFilter {
    /// No conditions, the first 100 journals.
    fn default() -> (r: Self)
        ensures
            r.keyword@.len() == 0,
            r.source_db@.len() == 0,
            r.jif_quartile@.len() == 0,
            r.cas_zone@.len() == 0,
            r.ccf@.len() == 0,
            !r.ei_only,
            r.limit == 100,
            r.offset == 0,
    {
        JournalListFilter {
            keyword: String::new(),
            source_db: Vec::new(),
            jif_quartile: Vec::new(),
            cas_zone: Vec::new(),
            ccf: Vec::new(),
            ei_only: false,
            limit: 100,
            offset: 0,
        }
    }
}

/// The user's edits to a journal's profile.
#[derive(Clone, Debug)]
pub struct JournalProfileUpdate {
    pub journal_id: i64,
    pub difficulty: String,
    pub recommendation_preference: String,
    pub apc: String,
    pub review_cycle: String,
    pub tags: String,
    pub website: String,
    pub scope_text: String,
    pub summary: String,
    pub experience: String,
    pub rejection_reason: String,
    pub suitable_topics: String,
    pub avoid_reason: String,
    pub article_topics: String,
    pub submission_guidelines: String,
}

/// How to list submissions.
#[derive(Clone, Debug)]
pub struct SubmissionListFilter {
    pub keyword: String,
    pub status: Vec<String>,
    pub limit: usize,
}

impl Default for SubmissionListFilter {
    /// No conditions, the latest 100 submissions.
    fn default() -> (r: Self)
        ensures
            r.keyword@.len() == 0,
            r.status@.len() == 0,
            r.limit == 100,
    {
        SubmissionListFilter { keyword: String::new(), status: Vec::new(), limit: 100 }
    }
}

/// A stored submission.
#[derive(Clone, Debug)]
pub struct SubmissionRecord {
    pub id: i64,
    pub title: String,
    pub authors: String,
    pub corresponding: String,
    pub journal_name: String,
    pub submit_date: String,
    pub status: String,
    pub result_date: String,
    pub apc_paid: String,
    pub website: String,
    pub notes: String,
    pub created_at: String,
}

/// A submission to create (without id) or update.
#[derive(Clone, Debug)]
pub struct SubmissionUpsert {
    pub id: Option<i64>,
    pub title: String,
    pub authors: String,
    pub corresponding: String,
    pub journal_name: String,
    pub submit_date: String,
    pub status: String,
    pub result_date: String,
    pub apc_paid: String,
    pub website: String,
    pub notes: String,
}

/// Where an export was written and how many rows it holds.
#[derive(Clone, Debug)]
pub struct ExportReport {
    pub file_path: String,
    pub rows_exported: usize,
    pub message: String,
}

/// The items that are not blank, in order.
pub open spec fn nonblank_items(items: Seq<Seq<char>>) -> Seq<Seq<char>>
    decreases items.len(),
{
    if items.len() == 0 {
        seq![]
    } else if !is_blank_spec(items.last()) {
        nonblank_items(items.drop_last()).push(items.last())
    } else {
        nonblank_items(items.drop_last())
    }
}

/// `n` copies of a text.
pub open spec fn copies(t: Seq<char>, n: nat) -> Seq<Seq<char>> {
    Seq::new(n, |i: int| t)
}

fn nonblank_strings(items: &Vec<String>) -> (r: Vec<String>)
    ensures
        views(r@) == nonblank_items(views(items@)),
{
    let mut out: Vec<String> = Vec::new();
    let mut i: usize = 0;
    while i < items.len()
        invariant
            i <= items@.len(),
            views(out@) == nonblank_items(views(items@).take(i as int)),
        decreases items@.len() - i,
    {
        proof {
            assert(views(items@).take(i + 1).drop_last() =~= views(items@).take(i as int));
            assert(views(items@).take(i + 1).last() == items@[i as int]@);
        }
        if !is_blank(items[i].as_str()) {
            let ghost before = views(out@);
            let t = items[i].clone();
            out.push(t);
            assert(views(out@) =~= before.push(items@[i as int]@));
        }
        i = i + 1;
    }
    assert(views(items@).take(i as int) =~= views(items@));
    out
}

pub(crate) fn repeated(t: &str, n: usize) -> (r: Vec<String>)
    ensures
        views(r@) == copies(t@, n as nat),
{
    let mut out: Vec<String> = Vec::new();
    let mut i: usize = 0;
    while i < n
        invariant
            i <= n,
            views(out@) == copies(t@, i as nat),
        decreases n - i,
    {
        let ghost before = views(out@);
        let c = owned(t);
        out.push(c);
        assert(views(out@) =~= before.push(c@));
        assert(views(out@) =~= copies(t@, (i + 1) as nat));
        i = i + 1;
    }
    out
}

/// An `IN` condition on a column over the non-blank items: the SQL text it
/// adds (nothing when there are none) and the values it binds.
pub open spec fn in_filter_sql(column: Seq<char>, items: Seq<Seq<char>>) -> Seq<char> {
    let kept = nonblank_items(items);
    if kept.len() == 0 {
        seq![]
    } else {
        " AND "@ + column + " IN ("@ + join_spec(copies("?"@, kept.len()), ","@) + ")"@
    }
}

/// Adds an `IN` condition for the non-blank items to a query.
pub fn append_in_filter(sql: &mut String, values: &mut Vec<String>, column: &str, items: &Vec<String>)
    ensures
        final(sql)@ == old(sql)@ + in_filter_sql(column@, views(items@)),
        views(final(values)@) == views(old(values)@) + nonblank_items(views(items@)),
{
    let kept = nonblank_strings(items);
    if kept.len() == 0 {
        assert(views(values@) =~= views(values@) + nonblank_items(views(items@)));
        assert(sql@ =~= sql@ + in_filter_sql(column@, views(items@)));
        return;
    }
    let marks = repeated("?", kept.len());
    let placeholders = join(&marks, ",");
    append(sql, " AND ");
    append(sql, column);
    append(sql, " IN (");
    append(sql, placeholders.as_str());
    append(sql, ")");
    let ghost before = views(values@);
    let mut i: usize = 0;
    while i < kept.len()
        invariant
            i <= kept@.len(),
            views(values@) == before + views(kept@).take(i as int),
        decreases kept@.len() - i,
    {
        let ghost prev = views(values@);
        let v = owned(kept[i].as_str());
        values.push(v);
        assert(views(values@) =~= prev.push(v@));
        assert(views(kept@).take(i + 1) =~= views(kept@).take(i as int).push(kept@[i as int]@));
        assert(views(values@) =~= before + views(kept@).take(i + 1));
        i = i + 1;
    }
    assert(views(kept@).take(i as int) =~= views(kept@));
}

/// The `LIKE` patterns of the items: each wrapped in `%`.
pub open spec fn like_patterns(items: Seq<Seq<char>>) -> Seq<Seq<char>> {
    items.map_values(|t: Seq<char>| "%"@ + t + "%"@)
}

/// A "contains" condition on a column: any of the non-blank items occurs
/// in it.
pub open spec fn contains_filter_sql(column: Seq<char>, items: Seq<Seq<char>>) -> Seq<char> {
    let kept = nonblank_items(items);
    if kept.len() == 0 {
        seq![]
    } else {
        " AND ("@ + join_spec(copies("COALESCE("@ + column + ", '') LIKE ?"@, kept.len()), " OR "@) + ")"@
    }
}

/// Adds a "contains" condition for the non-blank items to a query.
pub fn append_contains_filter(sql: &mut String, values: &mut Vec<String>, column: &str, items: &Vec<String>)
    ensures
        final(sql)@ == old(sql)@ + contains_filter_sql(column@, views(items@)),
        views(final(values)@) == views(old(values)@) + like_patterns(nonblank_items(views(items@))),
{
    let kept = nonblank_strings(items);
    if kept.len() == 0 {
        assert(views(values@) =~= views(values@) + like_patterns(nonblank_items(views(items@))));
        assert(sql@ =~= sql@ + contains_filter_sql(column@, views(items@)));
        return;
    }
    let mut predicate = cat("COALESCE(", column);
    append(&mut predicate, ", '') LIKE ?");
    let predicates = repeated(predicate.as_str(), kept.len());
    let joined = join(&predicates, " OR ");
    append(sql, " AND (");
    append(sql, joined.as_str());
    append(sql, ")");
    let ghost before = views(values@);
    let ghost pats = like_patterns(views(kept@));
    let mut i: usize = 0;
    while i < kept.len()
        invariant
            i <= kept@.len(),
            pats == like_patterns(views(kept@)),
            views(values@) == before + pats.take(i as int),
        decreases kept@.len() - i,
    {
        let mut v = cat("%", kept[i].as_str());
        append(&mut v, "%");
        let ghost prev = views(values@);
        values.push(v);
        assert(views(values@) =~= prev.push(v@));
        assert(pats.take(i + 1) =~= pats.take(i as int).push(pats[i as int]));
        assert(views(values@) =~= before + pats.take(i + 1));
        i = i + 1;
    }
    assert(pats.take(i as int) =~= pats);
}

/// The columns a journal listing reads.
pub const JOURNAL_SELECT: &'static str = "SELECT j.id, j.name, COALESCE(j.issn,''), COALESCE(j.eissn,''), COALESCE(j.source_db,''), COALESCE(j.jif_quartile,''), COALESCE(j.cas_quartile,''), COALESCE(j.cas_zone,''), j.impact_factor, j.wos_articles, COALESCE(j.subjects,''), COALESCE(j.publisher,''), COALESCE(j.ccf,''), COALESCE(j.ei,''), COALESCE(j.cssci,''), COALESCE(j.cscd,''), COALESCE(j.pku_core,''), COALESCE(j.ami_level,''), COALESCE(j.top_flag,''), COALESCE(j.oa_flag,''), COALESCE(j.oa_detail,''), COALESCE(j.website,''), COALESCE(j.scope_text,''), COALESCE(j.jcr_rank_detail,''), COALESCE(p.difficulty,'未评估'), COALESCE(p.recommendation_preference,'正常推荐'), COALESCE(p.apc,''), COALESCE(p.review_cycle,''), COALESCE(p.tags,''), COALESCE(p.summary,''), COALESCE(p.experience,''), COALESCE(p.rejection_reason,''), COALESCE(p.suitable_topics,''), COALESCE(p.avoid_reason,''), COALESCE(p.article_topics,''), COALESCE(p.submission_guidelines,''), COALESCE(j.grade,'') FROM journals j LEFT JOIN journal_user_profiles p ON p.journal_id=j.id WHERE j.deleted_at IS NULL";

/// The keyword condition of a journal query.
pub const KEYWORD_CONDITION: &'static str = " AND (j.normalized_name LIKE ? OR UPPER(COALESCE(j.subjects,'')) LIKE ? OR UPPER(COALESCE(j.publisher,'')) LIKE ?)";

/// A query with its bound values.
#[derive(Clone, Debug)]
pub struct SqlQuery {
    pub sql: String,
    pub values: Vec<String>,
}

/// The conditions of a journal filter after `base`: the keyword (its
/// normalised form, against name, subjects and publisher), source
/// databases, JIF quartiles, CAS zones, CCF ranks, and, for EI-only
/// listings, an EI entry other than `ei_no`.
pub open spec fn journal_conditions(f: JournalListFilter, ei_no: Seq<char>) -> Seq<char> {
    (if is_blank_spec(f.keyword@) { seq![] } else { KEYWORD_CONDITION@ })
        + contains_filter_sql("j.source_db"@, views(f.source_db@))
        + in_filter_sql("j.jif_quartile"@, views(f.jif_quartile@))
        + in_filter_sql("j.cas_zone"@, views(f.cas_zone@))
        + in_filter_sql("j.ccf"@, views(f.ccf@))
        + (if f.ei_only { " AND COALESCE(j.ei,'') <> '' AND COALESCE(j.ei,'') <> '"@ + ei_no + "'"@ } else { seq![] })
}

/// The values a journal filter binds, in order.
pub open spec fn journal_values(f: JournalListFilter) -> Seq<Seq<char>> {
    (if is_blank_spec(f.keyword@) {
        seq![]
    } else {
        let v = "%"@ + normalized_name_spec(f.keyword@) + "%"@;
        seq![v, v, v]
    })
        + like_patterns(nonblank_items(views(f.source_db@)))
        + nonblank_items(views(f.jif_quartile@))
        + nonblank_items(views(f.cas_zone@))
        + nonblank_items(views(f.ccf@))
}

fn journal_filter_query(base: &str, filter: &JournalListFilter, ei_no: &str) -> (r: SqlQuery)
    ensures
        r.sql@ == base@ + journal_conditions(*filter, ei_no@),
        views(r.values@) == journal_values(*filter),
{
    let mut sql = owned(base);
    let mut values: Vec<String> = Vec::new();
    assert(views(values@) =~= seq![]);
    if !is_blank(filter.keyword.as_str()) {
        append(&mut sql, KEYWORD_CONDITION);
        let mut v = cat("%", normalize_journal_name(filter.keyword.as_str()).as_str());
        append(&mut v, "%");
        values.push(v.clone());
        values.push(v.clone());
        values.push(v);
    }
    let ghost s0 = sql@;
    let ghost v0 = views(values@);
    append_contains_filter(&mut sql, &mut values, "j.source_db", &filter.source_db);
    append_in_filter(&mut sql, &mut values, "j.jif_quartile", &filter.jif_quartile);
    append_in_filter(&mut sql, &mut values, "j.cas_zone", &filter.cas_zone);
    append_in_filter(&mut sql, &mut values, "j.ccf", &filter.ccf);
    let ghost s1 = sql@;
    if filter.ei_only {
        append(&mut sql, " AND COALESCE(j.ei,'') <> '' AND COALESCE(j.ei,'') <> '");
        append(&mut sql, ei_no);
        append(&mut sql, "'");
    }
    proof {
        assert(sql@ =~= base@ + journal_conditions(*filter, ei_no@));
        assert(views(values@) =~= journal_values(*filter));
    }
    SqlQuery { sql, values }
}

/// The listing query of a journal filter, with its page: at least 1 and at
/// most 50,000 rows, starting at most 5,000,000 rows in.
pub fn journal_list_query(filter: &JournalListFilter) -> (r: (SqlQuery, i64, i64))
    ensures
        r.0.sql@ == JOURNAL_SELECT@ + journal_conditions(*filter, "否"@) + " ORDER BY j.name COLLATE NOCASE LIMIT ? OFFSET ?"@,
        views(r.0.values@) == journal_values(*filter),
        r.1 == (if filter.limit < 1 { 1 } else if filter.limit > 50000 { 50000 } else { filter.limit as int }),
        r.2 == (if filter.offset > 5000000 { 5000000 } else { filter.offset as int }),
{
    let mut q = journal_filter_query(JOURNAL_SELECT, filter, "否");
    append(&mut q.sql, " ORDER BY j.name COLLATE NOCASE LIMIT ? OFFSET ?");
    let limit: i64 = if filter.limit < 1 { 1 } else if filter.limit > 50000 { 50000 } else { filter.limit as i64 };
    let offset: i64 = if filter.offset > 5000000 { 5000000 } else { filter.offset as i64 };
    (q, limit, offset)
}

/// The counting query of a journal filter.
pub fn journal_count_query(filter: &JournalListFilter) -> (r: SqlQuery)
    ensures
        r.sql@ == "SELECT COUNT(*) FROM journals j WHERE j.deleted_at IS NULL"@ + journal_conditions(*filter, "No"@),
        views(r.values@) == journal_values(*filter),
{
    journal_filter_query("SELECT COUNT(*) FROM journals j WHERE j.deleted_at IS NULL", filter, "No")
}

proof fn lemma_nonblank_items_keeps(items: Seq<Seq<char>>, k: int)
    requires
        0 <= k < items.len(),
        !is_blank_spec(items[k]),
    ensures
        nonblank_items(items).contains(items[k]),
    decreases items.len(),
{
    let rest = nonblank_items(items.drop_last());
    if k == items.len() - 1 {
        assert(rest.push(items[k])[rest.len() as int] == items[k]);
    } else {
        assert(items.drop_last()[k] == items[k]);
        lemma_nonblank_items_keeps(items.drop_last(), k);
        if !is_blank_spec(items.last()) {
            let w = choose|w: int| 0 <= w < rest.len() && rest[w] == items[k];
            assert(rest.push(items.last())[w] == items[k]);
        }
    }
}

proof fn lemma_join_starts(pieces: Seq<Seq<char>>, sep: Seq<char>)
    requires
        pieces.len() >= 1,
    ensures
        join_spec(pieces, sep).len() >= pieces[0].len(),
        join_spec(pieces, sep).take(pieces[0].len() as int) == pieces[0],
    decreases pieces.len(),
{
    if pieces.len() > 1 {
        lemma_join_starts(pieces.drop_last(), sep);
        let j = join_spec(pieces.drop_last(), sep);
        assert((j + sep + pieces.last()).take(pieces[0].len() as int) =~= j.take(pieces[0].len() as int));
    }
}

proof fn lemma_contains_inside(a: Seq<char>, b: Seq<char>, c: Seq<char>, t: Seq<char>)
    requires
        contains_spec(b, t),
    ensures
        contains_spec(a + b + c, t),
{
    let i = choose|i: int| #[trigger] occurs_at(b, t, i);
    assert((a + b + c).subrange(a.len() + i, a.len() + i + t.len()) =~= b.subrange(i, i + t.len()));
    assert(occurs_at(a + b + c, t, a.len() + i));
}

proof fn lemma_starts_sql(head: Seq<char>, rest: Seq<char>)
    ensures
        contains_spec(head + rest, head),
{
    assert((head + rest).subrange(0, head.len() as int) =~= head);
    assert(occurs_at(head + rest, head, 0));
}

/// What a requested list filter puts in a journal query: when some item of
/// `items` is not blank, the conditions hold `head`, and every non-blank
/// item is bound: as a `LIKE` pattern when `like` holds, else as given.
pub open spec fn filter_honoured(
    conditions: Seq<char>,
    values: Seq<Seq<char>>,
    items: Seq<Seq<char>>,
    head: Seq<char>,
    like: bool,
) -> bool {
    &&& (exists|k: int| 0 <= k < items.len() && !is_blank_spec(#[trigger] items[k])) ==> contains_spec(conditions, head)
    &&& forall|k: int| 0 <= k < items.len() && !is_blank_spec(#[trigger] items[k])
        ==> values.contains(if like { as_like(items[k]) } else { items[k] })
}

/// The `LIKE` binding: an item is bound wrapped in `%`.
pub open spec fn as_like(t: Seq<char>) -> Seq<char> {
    "%"@ + t + "%"@
}

/// A journal query honours every filter it is given: each non-blank JIF
/// quartile, CAS zone and CCF rank asked for is bound as a value of an
/// `IN` condition on its column, each non-blank source database as a
/// `LIKE` pattern of a condition on `j.source_db`, and a non-blank keyword
/// as the pattern of the keyword condition; so a journal that the query
/// admits meets every filter that was set.
#[verifier::rlimit(40)]
pub proof fn journal_query_honours_every_filter(f: JournalListFilter, ei_no: Seq<char>)
    ensures
        filter_honoured(journal_conditions(f, ei_no), journal_values(f), views(f.jif_quartile@),
            " AND j.jif_quartile IN ("@, false),
        filter_honoured(journal_conditions(f, ei_no), journal_values(f), views(f.cas_zone@),
            " AND j.cas_zone IN ("@, false),
        filter_honoured(journal_conditions(f, ei_no), journal_values(f), views(f.ccf@),
            " AND j.ccf IN ("@, false),
        filter_honoured(journal_conditions(f, ei_no), journal_values(f), views(f.source_db@),
            " AND (COALESCE(j.source_db, '') LIKE ?"@, true),
        !is_blank_spec(f.keyword@) ==> contains_spec(journal_conditions(f, ei_no), KEYWORD_CONDITION@)
            && journal_values(f).contains(as_like(normalized_name_spec(f.keyword@))),
{
    let kw_sql: Seq<char> = if is_blank_spec(f.keyword@) { seq![] } else { KEYWORD_CONDITION@ };
    let src_sql = contains_filter_sql("j.source_db"@, views(f.source_db@));
    let jif_sql = in_filter_sql("j.jif_quartile"@, views(f.jif_quartile@));
    let cas_sql = in_filter_sql("j.cas_zone"@, views(f.cas_zone@));
    let ccf_sql = in_filter_sql("j.ccf"@, views(f.ccf@));
    let ei_sql: Seq<char> = if f.ei_only { " AND COALESCE(j.ei,'') <> '' AND COALESCE(j.ei,'') <> '"@ + ei_no + "'"@ } else { seq![] };
    let conditions = journal_conditions(f, ei_no);
    assert(conditions == kw_sql + src_sql + jif_sql + cas_sql + ccf_sql + ei_sql);

    let kw_vals: Seq<Seq<char>> = if is_blank_spec(f.keyword@) {
        seq![]
    } else {
        let v = "%"@ + normalized_name_spec(f.keyword@) + "%"@;
        seq![v, v, v]
    };
    let src_vals = like_patterns(nonblank_items(views(f.source_db@)));
    let jif_vals = nonblank_items(views(f.jif_quartile@));
    let cas_vals = nonblank_items(views(f.cas_zone@));
    let ccf_vals = nonblank_items(views(f.ccf@));
    let values = journal_values(f);
    assert(values == kw_vals + src_vals + jif_vals + cas_vals + ccf_vals);

    lemma_condition_heads();
    lemma_keyword_honoured(f, kw_sql, src_sql + jif_sql + cas_sql + ccf_sql + ei_sql, kw_vals, src_vals + jif_vals + cas_vals + ccf_vals);
    assert(kw_sql + (src_sql + jif_sql + cas_sql + ccf_sql + ei_sql) =~= conditions);
    assert(kw_vals + (src_vals + jif_vals + cas_vals + ccf_vals) =~= values);
    lemma_contains_filter_honoured(kw_sql, src_sql, jif_sql + cas_sql + ccf_sql + ei_sql, kw_vals, jif_vals + cas_vals + ccf_vals,
        "j.source_db"@, views(f.source_db@));
    assert(kw_sql + src_sql + (jif_sql + cas_sql + ccf_sql + ei_sql) =~= conditions);
    assert(kw_vals + src_vals + (jif_vals + cas_vals + ccf_vals) =~= values);
    lemma_in_filter_honoured(kw_sql + src_sql, jif_sql, cas_sql + ccf_sql + ei_sql, kw_vals + src_vals, cas_vals + ccf_vals,
        "j.jif_quartile"@, views(f.jif_quartile@));
    assert(kw_sql + src_sql + jif_sql + (cas_sql + ccf_sql + ei_sql) =~= conditions);
    assert(kw_vals + src_vals + jif_vals + (cas_vals + ccf_vals) =~= values);
    lemma_in_filter_honoured(kw_sql + src_sql + jif_sql, cas_sql, ccf_sql + ei_sql, kw_vals + src_vals + jif_vals, ccf_vals,
        "j.cas_zone"@, views(f.cas_zone@));
    assert(kw_sql + src_sql + jif_sql + cas_sql + (ccf_sql + ei_sql) =~= conditions);
    lemma_in_filter_honoured(kw_sql + src_sql + jif_sql + cas_sql, ccf_sql, ei_sql, kw_vals + src_vals + jif_vals + cas_vals, seq![],
        "j.ccf"@, views(f.ccf@));
    assert(kw_vals + src_vals + jif_vals + cas_vals + ccf_vals + Seq::<Seq<char>>::empty() =~= values);
}

proof fn lemma_condition_heads()
    ensures
        " AND "@ + "j.jif_quartile"@ + " IN ("@ == " AND j.jif_quartile IN ("@,
        " AND "@ + "j.cas_zone"@ + " IN ("@ == " AND j.cas_zone IN ("@,
        " AND "@ + "j.ccf"@ + " IN ("@ == " AND j.ccf IN ("@,
        " AND ("@ + ("COALESCE("@ + "j.source_db"@ + ", '') LIKE ?"@) == " AND (COALESCE(j.source_db, '') LIKE ?"@,
{
    reveal_strlit(" AND ");
    reveal_strlit(" IN (");
    reveal_strlit(" AND j.jif_quartile IN (");
    reveal_strlit(" AND j.cas_zone IN (");
    reveal_strlit(" AND j.ccf IN (");
    reveal_strlit("j.jif_quartile");
    reveal_strlit("j.cas_zone");
    reveal_strlit("j.ccf");
    reveal_strlit(" AND (");
    reveal_strlit("COALESCE(");
    reveal_strlit("j.source_db");
    reveal_strlit(", '') LIKE ?");
    reveal_strlit(" AND (COALESCE(j.source_db, '') LIKE ?");
    assert(" AND "@ + "j.jif_quartile"@ + " IN ("@ =~= " AND j.jif_quartile IN ("@);
    assert(" AND "@ + "j.cas_zone"@ + " IN ("@ =~= " AND j.cas_zone IN ("@);
    assert(" AND "@ + "j.ccf"@ + " IN ("@ =~= " AND j.ccf IN ("@);
    assert(" AND ("@ + ("COALESCE("@ + "j.source_db"@ + ", '') LIKE ?"@) =~= " AND (COALESCE(j.source_db, '') LIKE ?"@);
}

proof fn lemma_keyword_honoured(f: JournalListFilter, kw_sql: Seq<char>, after_sql: Seq<char>, kw_vals: Seq<Seq<char>>, after_vals: Seq<Seq<char>>)
    requires
        kw_sql == (if is_blank_spec(f.keyword@) { seq![] } else { KEYWORD_CONDITION@ }),
        kw_vals == (if is_blank_spec(f.keyword@) {
            seq![]
        } else {
            let v = "%"@ + normalized_name_spec(f.keyword@) + "%"@;
            seq![v, v, v]
        }),
    ensures
        !is_blank_spec(f.keyword@) ==> contains_spec(kw_sql + after_sql, KEYWORD_CONDITION@)
            && (kw_vals + after_vals).contains(as_like(normalized_name_spec(f.keyword@))),
{
    if !is_blank_spec(f.keyword@) {
        lemma_starts_sql(KEYWORD_CONDITION@, after_sql);
        assert((kw_vals + after_vals)[0] == as_like(normalized_name_spec(f.keyword@)));
    }
}

proof fn lemma_contains_filter_honoured(
    before_sql: Seq<char>, sql: Seq<char>, after_sql: Seq<char>,
    before_vals: Seq<Seq<char>>, after_vals: Seq<Seq<char>>,
    column: Seq<char>, items: Seq<Seq<char>>,
)
    requires
        sql == contains_filter_sql(column, items),
    ensures
        filter_honoured(before_sql + sql + after_sql, before_vals + like_patterns(nonblank_items(items)) + after_vals, items,
            " AND ("@ + ("COALESCE("@ + column + ", '') LIKE ?"@), true),
{
    let first = "COALESCE("@ + column + ", '') LIKE ?"@;
    let head = " AND ("@ + first;
    let pats = like_patterns(nonblank_items(items));
    let values = before_vals + pats + after_vals;
    if exists|k: int| 0 <= k < items.len() && !is_blank_spec(#[trigger] items[k]) {
        let k = choose|k: int| 0 <= k < items.len() && !is_blank_spec(#[trigger] items[k]);
        lemma_nonblank_items_keeps(items, k);
        let kept = nonblank_items(items);
        let pieces = copies(first, kept.len());
        lemma_join_starts(pieces, " OR "@);
        let joined = join_spec(pieces, " OR "@);
        assert(pieces[0] == first);
        assert(sql == " AND ("@ + joined + ")"@);
        assert(sql.subrange(0, head.len() as int) =~= head) by {
            assert forall|i: int| 0 <= i < head.len() implies sql.subrange(0, head.len() as int)[i] == head[i] by {
                if i >= " AND ("@.len() {
                    assert(joined.take(first.len() as int)[i - " AND ("@.len()] == joined[i - " AND ("@.len()]);
                }
            }
        }
        assert(occurs_at(sql, head, 0));
        lemma_contains_inside(before_sql, sql, after_sql, head);
    }
    assert forall|k: int| 0 <= k < items.len() && !is_blank_spec(#[trigger] items[k])
        implies values.contains(as_like(items[k])) by {
        lemma_nonblank_items_keeps(items, k);
        let kept = nonblank_items(items);
        let w = choose|w: int| 0 <= w < kept.len() && kept[w] == items[k];
        assert(pats[w] == as_like(items[k]));
        assert(values[before_vals.len() + w] == pats[w]);
    }
}

proof fn lemma_in_filter_honoured(
    before_sql: Seq<char>, sql: Seq<char>, after_sql: Seq<char>,
    before_vals: Seq<Seq<char>>, after_vals: Seq<Seq<char>>,
    column: Seq<char>, items: Seq<Seq<char>>,
)
    requires
        sql == in_filter_sql(column, items),
    ensures
        filter_honoured(before_sql + sql + after_sql, before_vals + nonblank_items(items) + after_vals, items,
            " AND "@ + column + " IN ("@, false),
{
    let head = " AND "@ + column + " IN ("@;
    let values = before_vals + nonblank_items(items) + after_vals;
    if exists|k: int| 0 <= k < items.len() && !is_blank_spec(#[trigger] items[k]) {
        let k = choose|k: int| 0 <= k < items.len() && !is_blank_spec(#[trigger] items[k]);
        lemma_nonblank_items_keeps(items, k);
        let kept = nonblank_items(items);
        lemma_starts_sql(head, join_spec(copies("?"@, kept.len()), ","@) + ")"@);
        assert(sql =~= head + (join_spec(copies("?"@, kept.len()), ","@) + ")"@));
        lemma_contains_inside(before_sql, sql, after_sql, head);
    }
    assert forall|k: int| 0 <= k < items.len() && !is_blank_spec(#[trigger] items[k])
        implies values.contains(items[k]) by {
        lemma_nonblank_items_keeps(items, k);
        let kept = nonblank_items(items);
        let w = choose|w: int| 0 <= w < kept.len() && kept[w] == items[k];
        assert(values[before_vals.len() + w] == kept[w]);
    }
}

/// The columns a submission listing reads.
pub const SUBMISSION_SELECT: &'static str = "SELECT id, title, COALESCE(authors,''), COALESCE(corresponding,''), COALESCE(journal_name,''), COALESCE(submit_date,''), COALESCE(status,''), COALESCE(result_date,''), COALESCE(apc_paid,''), COALESCE(website,''), COALESCE(notes,''), COALESCE(created_at,'') FROM submissions WHERE deleted_at IS NULL";

/// The listing query of a submission filter, newest first, with its limit:
/// at least 1 and at most 1,000 rows. The keyword, trimmed, is looked for in
/// title, journal, authors and notes.
pub fn submission_list_query(filter: &SubmissionListFilter) -> (r: (SqlQuery, i64))
    ensures
        r.0.sql@ == SUBMISSION_SELECT@
            + (if is_blank_spec(filter.keyword@) { seq![] } else {
                " AND (title LIKE ? OR COALESCE(journal_name,'') LIKE ? OR COALESCE(authors,'') LIKE ? OR COALESCE(notes,'') LIKE ?)"@
            })
            + in_filter_sql("status"@, views(filter.status@)) + " ORDER BY id DESC LIMIT ?"@,
        views(r.0.values@) == (if is_blank_spec(filter.keyword@) { seq![] } else {
                let v = "%"@ + trim_spec(filter.keyword@) + "%"@;
                seq![v, v, v, v]
            }) + nonblank_items(views(filter.status@)),
        r.1 == (if filter.limit < 1 { 1 } else if filter.limit > 1000 { 1000 } else { filter.limit as int }),
{
    let mut sql = owned(SUBMISSION_SELECT);
    let mut values: Vec<String> = Vec::new();
    assert(views(values@) =~= seq![]);
    if !is_blank(filter.keyword.as_str()) {
        append(&mut sql, " AND (title LIKE ? OR COALESCE(journal_name,'') LIKE ? OR COALESCE(authors,'') LIKE ? OR COALESCE(notes,'') LIKE ?)");
        let mut v = cat("%", trim(filter.keyword.as_str()).as_str());
        append(&mut v, "%");
        values.push(v.clone());
        values.push(v.clone());
        values.push(v.clone());
        values.push(v);
    }
    append_in_filter(&mut sql, &mut values, "status", &filter.status);
    append(&mut sql, " ORDER BY id DESC LIMIT ?");
    proof {
        assert(views(values@) =~= (if is_blank_spec(filter.keyword@) { seq![] } else {
                let v = "%"@ + trim_spec(filter.keyword@) + "%"@;
                seq![v, v, v, v]
            }) + nonblank_items(views(filter.status@)));
    }
    let limit: i64 = if filter.limit < 1 { 1 } else if filter.limit > 1000 { 1000 } else { filter.limit as i64 };
    (SqlQuery { sql, values }, limit)
}

// ---------------------------------------------------------------------------
// Values written with a profile or a submission
// ---------------------------------------------------------------------------

/// A text, or `fallback` when it is empty.
pub open spec fn or_default(v: Seq<char>, fallback: Seq<char>) -> Seq<char> {
    if v.len() == 0 { fallback } else { v }
}

/// The difficulty to store: "未评估" when none was given.
pub fn stored_difficulty(v: &str) -> (r: String)
    ensures
        r@ == or_default(v@, "未评估"@),
{
    if v.is_empty() { owned("未评估") } else { owned(v) }
}

/// The recommendation preference to store: "正常推荐" when none was given.
pub fn stored_preference(v: &str) -> (r: String)
    ensures
        r@ == or_default(v@, "正常推荐"@),
{
    if v.is_empty() { owned("正常推荐") } else { owned(v) }
}

/// The preference that setting it from the list writes: trimmed, and
/// "正常推荐" when blank.
pub fn preference_setting(v: &str) -> (r: String)
    ensures
        r@ == (if is_blank_spec(v@) { "正常推荐"@ } else { trim_spec(v@) }),
{
    if is_blank(v) { owned("正常推荐") } else { trim(v) }
}

/// The submission status to store: "准备中" when none was given.
pub fn stored_submission_status(v: &str) -> (r: String)
    ensures
        r@ == or_default(v@, "准备中"@),
{
    if v.is_empty() { owned("准备中") } else { owned(v) }
}

/// The name under which a journal is stored: trimmed; refused when blank.
pub fn checked_journal_name(name: &str) -> (r: Result<String, String>)
    ensures
        match r {
            Ok(n) => !is_blank_spec(name@) && n@ == trim_spec(name@),
            Err(e) => is_blank_spec(name@) && e@ == "期刊名称不能为空"@,
        },
{
    let t = trim(name);
    if t.as_str().is_empty() { Err(owned("期刊名称不能为空")) } else { Ok(t) }
}

/// The title under which a submission is stored: trimmed; refused when
/// blank.
pub fn checked_submission_title(title: &str) -> (r: Result<String, String>)
    ensures
        match r {
            Ok(n) => !is_blank_spec(title@) && n@ == trim_spec(title@),
            Err(e) => is_blank_spec(title@) && e@ == "论文题目不能为空"@,
        },
{
    let t = trim(title);
    if t.as_str().is_empty() { Err(owned("论文题目不能为空")) } else { Ok(t) }
}

// ---------------------------------------------------------------------------
// CSV export
// ---------------------------------------------------------------------------

/// A CSV field: quoted, inner quotes doubled.
pub open spec fn csv_field(v: Seq<char>) -> Seq<char> {
    seq!['"'] + replace_spec(v, seq!['"'], seq!['"', '"']) + seq!['"']
}

/// A CSV line: the quoted fields joined with commas, then a line break.
pub open spec fn csv_line_spec(values: Seq<Seq<char>>) -> Seq<char> {
    join_spec(values.map_values(|v: Seq<char>| csv_field(v)), ","@) + "\n"@
}

/// Writes one CSV line.
pub fn csv_line(values: &Vec<&str>) -> (r: String)
    ensures
        r@ == csv_line_spec(strs(values@)),
{
    proof {
        reveal_strlit("\"");
        reveal_strlit("\"\"");
        assert("\""@ =~= seq!['"']);
        assert("\"\""@ =~= seq!['"', '"']);
    }
    let ghost fields = strs(values@).map_values(|v: Seq<char>| csv_field(v));
    let mut quoted: Vec<String> = Vec::new();
    let mut i: usize = 0;
    while i < values.len()
        invariant
            i <= values@.len(),
            "\""@ == seq!['"'],
            "\"\""@ == seq!['"', '"'],
            fields == strs(values@).map_values(|v: Seq<char>| csv_field(v)),
            views(quoted@) == fields.take(i as int),
        decreases values@.len() - i,
    {
        let inner = replace(values[i], "\"", "\"\"");
        let mut q = owned("\"");
        append(&mut q, inner.as_str());
        append(&mut q, "\"");
        let ghost before = views(quoted@);
        quoted.push(q);
        assert(views(quoted@) =~= before.push(q@));
        assert(q@ =~= csv_field(values@[i as int]@));
        assert(fields.take(i + 1) =~= fields.take(i as int).push(fields[i as int]));
        assert(views(quoted@) =~= fields.take(i + 1));
        i = i + 1;
    }
    assert(fields.take(i as int) =~= fields);
    let mut line = join(&quoted, ",");
    append(&mut line, "\n");
    line
}

/// The header line of the journal export.
pub const JOURNAL_CSV_HEADER: &'static str = "\u{feff}期刊,来源,等级,JIF分区,JCR排名,中科院分区,影响因子,学科,开放获取,开放获取说明,期刊研究范围,近期文章主题,投稿指南摘要,难度,推荐偏好,版面费,审稿周期,标签,官网,备注,经验\n";

/// The header line of the submission export.
pub const SUBMISSION_CSV_HEADER: &'static str = "\u{feff}论文题目,作者,通信作者,期刊,投稿日期,状态,结果日期,版面费,网址,备注,创建日期\n";

/// The exported fields of a journal, in header order; the impact factor is
/// rendered by the caller.
pub open spec fn journal_csv_fields(j: JournalRecord, impact_factor: Seq<char>) -> Seq<Seq<char>> {
    seq![
        j.name@, j.source_db@, j.grade@, j.jif_quartile@, j.jcr_rank_detail@, j.cas_quartile@, impact_factor,
        j.subjects@, j.oa_flag@, j.oa_detail@, j.scope_text@, j.article_topics@, j.submission_guidelines@,
        j.difficulty@, j.recommendation_preference@, j.apc@, j.review_cycle@, j.tags@, j.website@, j.summary@,
        j.experience@,
    ]
}

/// The export line of a journal.
pub fn journal_csv_line(j: &JournalRecord, impact_factor: &str) -> (r: String)
    ensures
        r@ == csv_line_spec(journal_csv_fields(*j, impact_factor@)),
{
    let values: Vec<&str> = vec![
        j.name.as_str(), j.source_db.as_str(), j.grade.as_str(), j.jif_quartile.as_str(), j.jcr_rank_detail.as_str(),
        j.cas_quartile.as_str(), impact_factor, j.subjects.as_str(), j.oa_flag.as_str(), j.oa_detail.as_str(),
        j.scope_text.as_str(), j.article_topics.as_str(), j.submission_guidelines.as_str(), j.difficulty.as_str(),
        j.recommendation_preference.as_str(), j.apc.as_str(), j.review_cycle.as_str(), j.tags.as_str(),
        j.website.as_str(), j.summary.as_str(), j.experience.as_str(),
    ];
    assert(strs(values@) =~= journal_csv_fields(*j, impact_factor@));
    csv_line(&values)
}

/// The exported fields of a submission, in header order.
pub open spec fn submission_csv_fields(s: SubmissionRecord) -> Seq<Seq<char>> {
    seq![
        s.title@, s.authors@, s.corresponding@, s.journal_name@, s.submit_date@, s.status@, s.result_date@,
        s.apc_paid@, s.website@, s.notes@, s.created_at@,
    ]
}

/// The export line of a submission.
pub fn submission_csv_line(s: &SubmissionRecord) -> (r: String)
    ensures
        r@ == csv_line_spec(submission_csv_fields(*s)),
{
    let values: Vec<&str> = vec![
        s.title.as_str(), s.authors.as_str(), s.corresponding.as_str(), s.journal_name.as_str(),
        s.submit_date.as_str(), s.status.as_str(), s.result_date.as_str(), s.apc_paid.as_str(),
        s.website.as_str(), s.notes.as_str(), s.created_at.as_str(),
    ];
    assert(strs(values@) =~= submission_csv_fields(*s));
    csv_line(&values)
}

/// Which list a CSV export writes.
#[derive(PartialEq, Eq, Structural, Clone, Copy, Debug)]
pub enum ExportKind {
    /// The saved journals.
    Journals,
    /// The submission records.
    Submissions,
}

/// The file name of an export made at `stamp`.
pub fn export_file_name(kind: ExportKind, stamp: &str) -> (r: String)
    ensures
        r@ == (match kind {
            ExportKind::Journals => "我的收藏_"@,
            ExportKind::Submissions => "投稿记录_"@,
        }) + stamp@ + ".csv"@,
{
    let mut name = match kind {
        ExportKind::Journals => owned("我的收藏_"),
        ExportKind::Submissions => owned("投稿记录_"),
    };
    append(&mut name, stamp);
    append(&mut name, ".csv");
    name
}

/// The report of a written export.
pub fn export_report(kind: ExportKind, file_path: &str, rows_exported: usize) -> (r: ExportReport)
    ensures
        r.file_path@ == file_path@,
        r.rows_exported == rows_exported,
        r.message@ == (match kind {
            ExportKind::Journals => "收藏期刊 CSV 已导出。"@,
            ExportKind::Submissions => "投稿记录 CSV 已导出。"@,
        }),
{
    let message = match kind {
        ExportKind::Journals => owned("收藏期刊 CSV 已导出。"),
        ExportKind::Submissions => owned("投稿记录 CSV 已导出。"),
    };
    ExportReport { file_path: owned(file_path), rows_exported, message }
}

} // verus!
