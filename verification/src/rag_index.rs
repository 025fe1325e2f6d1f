//! The retrieval index: the chunks a journal is indexed by, the texts that
//! go into them, the full-text query a search runs, and the health report of
//! the index. Storage, embeddings and scoring are the caller's.
use vstd::prelude::*;
use sha2::Digest;
use crate::journal_store::JournalRecord;
use crate::text::{
    append, cat, decimal, is_blank, is_blank_spec, is_whitespace_char, join, join_spec, labelled_part,
    lemma_blank_iff_all_whitespace, lemma_trim_idempotent, owned, push_labelled, str_eq, take_chars, take_chars_spec, trim, trim_spec,
    views,
};

verus! {

// ---------------------------------------------------------------------------
// Chunks
// ---------------------------------------------------------------------------

/// The texts a journal is indexed by.
#[derive(Clone, Debug)]
pub struct JournalProfileForChunks {
    pub journal_id: i64,
    pub name: String,
    pub subjects: String,
    pub source_db: String,
    pub metrics: String,
    pub scope_text: String,
    pub user_experience: String,
    pub article_topics: String,
    pub guidelines: String,
}

/// One chunk to index: its journal, its kind, its text and the text's hash.
#[derive(Clone, Debug)]
pub struct RagChunkDraft {
    pub journal_id: i64,
    pub chunk_type: String,
    pub content: String,
    pub content_hash: String,
}

/// The plain values of a chunk.
pub open spec fn chunk_view(c: RagChunkDraft) -> (i64, Seq<char>, Seq<char>, Seq<char>) {
    (c.journal_id, c.chunk_type@, c.content@, c.content_hash@)
}

/// The plain values of a list of chunks.
pub open spec fn chunk_views(v: Seq<RagChunkDraft>) -> Seq<(i64, Seq<char>, Seq<char>, Seq<char>)> {
    v.map_values(|c: RagChunkDraft| chunk_view(c))
}

/// The lower-case hexadecimal SHA-256 digest of the UTF-8 encoding of a
/// text, as `format!("{:x}", ..)` writes it.
pub uninterp spec fn sha256_hex(text: Seq<char>) -> Seq<char>;

/// Hashes a text with `sha2::Sha256` and formats the digest in lower-case
/// hexadecimal. Claims only that the result is the named digest of the text.
#[verifier::external_body]
pub(crate) fn content_hash(text: &str) -> (r: String)
    ensures
        r@ == sha256_hex(text@),
{
    let mut hasher = sha2::Sha256::new();
    hasher.update(text.as_bytes());
    format!("{:x}", hasher.finalize())
}

/// The chunk a text makes: none when it is blank, else its trimmed text and
/// that text's digest.
pub open spec fn chunk_for(journal_id: i64, chunk_type: Seq<char>, content: Seq<char>) -> Seq<(i64, Seq<char>, Seq<char>, Seq<char>)> {
    let c = trim_spec(content);
    if c.len() == 0 {
        seq![]
    } else {
        seq![(journal_id, chunk_type, c, sha256_hex(c))]
    }
}

/// The text of the basic profile chunk.
pub open spec fn profile_text(p: JournalProfileForChunks) -> Seq<char> {
    "期刊："@ + p.name@ + "\n来源："@ + p.source_db@ + "\n学科："@ + p.subjects@ + "\n指标："@ + p.metrics@
}

/// The chunks of a journal, by kind of information: the basic profile,
/// then scope, the user's experience, recent articles and guidelines, each
/// when not blank.
pub open spec fn chunks_spec(p: JournalProfileForChunks) -> Seq<(i64, Seq<char>, Seq<char>, Seq<char>)> {
    chunk_for(p.journal_id, "profile"@, profile_text(p))
        + chunk_for(p.journal_id, "scope"@, p.scope_text@)
        + chunk_for(p.journal_id, "experience"@, p.user_experience@)
        + chunk_for(p.journal_id, "articles"@, p.article_topics@)
        + chunk_for(p.journal_id, "guidelines"@, p.guidelines@)
}

fn push_chunk(chunks: &mut Vec<RagChunkDraft>, journal_id: i64, chunk_type: &str, content: &str)
    ensures
        chunk_views(final(chunks)@) == chunk_views(old(chunks)@) + chunk_for(journal_id, chunk_type@, content@),
{
    let cleaned = trim(content);
    let ghost before = chunk_views(chunks@);
    if cleaned.as_str().is_empty() {
        assert(chunk_views(chunks@) =~= before + seq![]);
        return;
    }
    let content_hash = content_hash(cleaned.as_str());
    let c = RagChunkDraft { journal_id, chunk_type: owned(chunk_type), content: cleaned, content_hash };
    chunks.push(c);
    assert(chunk_views(chunks@) =~= before + seq![chunk_view(c)]);
}

/// The chunks a journal is indexed by.
pub fn generate_chunks(profile: &JournalProfileForChunks) -> (r: Vec<RagChunkDraft>)
    ensures
        chunk_views(r@) == chunks_spec(*profile),
{
    let mut chunks: Vec<RagChunkDraft> = Vec::new();
    assert(chunk_views(chunks@) =~= seq![]);
    let mut text = cat("期刊：", profile.name.as_str());
    append(&mut text, "\n来源：");
    append(&mut text, profile.source_db.as_str());
    append(&mut text, "\n学科：");
    append(&mut text, profile.subjects.as_str());
    append(&mut text, "\n指标：");
    append(&mut text, profile.metrics.as_str());
    push_chunk(&mut chunks, profile.journal_id, "profile", text.as_str());
    push_chunk(&mut chunks, profile.journal_id, "scope", profile.scope_text.as_str());
    push_chunk(&mut chunks, profile.journal_id, "experience", profile.user_experience.as_str());
    push_chunk(&mut chunks, profile.journal_id, "articles", profile.article_topics.as_str());
    push_chunk(&mut chunks, profile.journal_id, "guidelines", profile.guidelines.as_str());
    assert(chunk_views(chunks@) =~= chunks_spec(*profile));
    chunks
}

/// The chunk a filled kind of information yields.
pub open spec fn filled_chunk(journal_id: i64, chunk_type: Seq<char>, text: Seq<char>) -> (i64, Seq<char>, Seq<char>, Seq<char>) {
    (journal_id, chunk_type, trim_spec(text), sha256_hex(trim_spec(text)))
}

/// Whatever the user or enrichment filled in enters the index: a scope,
/// experience, recent-articles or guidelines text that is not blank gives a
/// chunk of its kind holding the trimmed text.
pub proof fn filled_information_enters_the_index(p: JournalProfileForChunks)
    ensures
        !is_blank_spec(p.scope_text@) ==> chunks_spec(p).contains(filled_chunk(p.journal_id, "scope"@, p.scope_text@)),
        !is_blank_spec(p.user_experience@) ==> chunks_spec(p).contains(
            filled_chunk(p.journal_id, "experience"@, p.user_experience@),
        ),
        !is_blank_spec(p.article_topics@) ==> chunks_spec(p).contains(
            filled_chunk(p.journal_id, "articles"@, p.article_topics@),
        ),
        !is_blank_spec(p.guidelines@) ==> chunks_spec(p).contains(filled_chunk(p.journal_id, "guidelines"@, p.guidelines@)),
{
    let a = chunk_for(p.journal_id, "profile"@, profile_text(p));
    let b = chunk_for(p.journal_id, "scope"@, p.scope_text@);
    let c = chunk_for(p.journal_id, "experience"@, p.user_experience@);
    let d = chunk_for(p.journal_id, "articles"@, p.article_topics@);
    let e = chunk_for(p.journal_id, "guidelines"@, p.guidelines@);
    let all = chunks_spec(p);
    assert(all == a + b + c + d + e);
    if !is_blank_spec(p.scope_text@) {
        assert(all[a.len() as int] == b[0]);
    }
    if !is_blank_spec(p.user_experience@) {
        assert(all[(a.len() + b.len()) as int] == c[0]);
    }
    if !is_blank_spec(p.article_topics@) {
        assert(all[(a.len() + b.len() + c.len()) as int] == d[0]);
    }
    if !is_blank_spec(p.guidelines@) {
        assert(all[(a.len() + b.len() + c.len() + d.len()) as int] == e[0]);
    }
}

/// Every journal has its basic profile chunk, and it comes first; every
/// chunk's text is trimmed and not empty, and its hash is the digest of
/// that text.
pub proof fn chunks_are_well_formed(p: JournalProfileForChunks)
    ensures
        chunks_spec(p).len() >= 1,
        chunks_spec(p)[0].0 == p.journal_id,
        chunks_spec(p)[0].1 == "profile"@,
        forall|k: int| 0 <= k < chunks_spec(p).len() ==> {
            &&& (#[trigger] chunks_spec(p)[k]).0 == p.journal_id
            &&& chunks_spec(p)[k].2.len() > 0
            &&& chunks_spec(p)[k].2 == trim_spec(chunks_spec(p)[k].2)
            &&& chunks_spec(p)[k].3 == sha256_hex(chunks_spec(p)[k].2)
        },
{
    let t = profile_text(p);
    reveal_strlit("期刊：");
    assert(t[0] == '期');
    assert(!is_whitespace_char(t[0]));
    lemma_blank_iff_all_whitespace(t);
    assert(trim_spec(t).len() > 0);
    let parts = seq![
        chunk_for(p.journal_id, "profile"@, t),
        chunk_for(p.journal_id, "scope"@, p.scope_text@),
        chunk_for(p.journal_id, "experience"@, p.user_experience@),
        chunk_for(p.journal_id, "articles"@, p.article_topics@),
        chunk_for(p.journal_id, "guidelines"@, p.guidelines@),
    ];
    assert forall|m: int| 0 <= m < 5 implies forall|k: int| 0 <= k < (#[trigger] parts[m]).len() ==> {
        &&& parts[m][k].2.len() > 0
        &&& parts[m][k].2 == trim_spec(parts[m][k].2)
    } by {
        let content = if m == 0 { t } else if m == 1 { p.scope_text@ } else if m == 2 { p.user_experience@ }
            else if m == 3 { p.article_topics@ } else { p.guidelines@ };
        lemma_trim_idempotent(content);
    }
    let all = chunks_spec(p);
    assert forall|k: int| 0 <= k < all.len() implies {
        &&& (#[trigger] all[k]).0 == p.journal_id
        &&& all[k].2.len() > 0
        &&& all[k].2 == trim_spec(all[k].2)
        &&& all[k].3 == sha256_hex(all[k].2)
    } by {
        lemma_chunk_index(p, k);
    }
}

proof fn lemma_chunk_index(p: JournalProfileForChunks, k: int)
    requires
        0 <= k < chunks_spec(p).len(),
    ensures
        chunks_spec(p)[k].0 == p.journal_id,
        chunks_spec(p)[k].2.len() > 0,
        chunks_spec(p)[k].2 == trim_spec(chunks_spec(p)[k].2),
        chunks_spec(p)[k].3 == sha256_hex(chunks_spec(p)[k].2),
{
    let a = chunk_for(p.journal_id, "profile"@, profile_text(p));
    let b = chunk_for(p.journal_id, "scope"@, p.scope_text@);
    let c = chunk_for(p.journal_id, "experience"@, p.user_experience@);
    let d = chunk_for(p.journal_id, "articles"@, p.article_topics@);
    let e = chunk_for(p.journal_id, "guidelines"@, p.guidelines@);
    lemma_trim_idempotent(profile_text(p));
    lemma_trim_idempotent(p.scope_text@);
    lemma_trim_idempotent(p.user_experience@);
    lemma_trim_idempotent(p.article_topics@);
    lemma_trim_idempotent(p.guidelines@);
    let all = a + b + c + d + e;
    assert(all == chunks_spec(p));
    if k < a.len() {
        assert(all[k] == a[k]);
    } else if k < a.len() + b.len() {
        assert(all[k] == b[k - a.len()]);
    } else if k < a.len() + b.len() + c.len() {
        assert(all[k] == c[k - a.len() - b.len()]);
    } else if k < a.len() + b.len() + c.len() + d.len() {
        assert(all[k] == d[k - a.len() - b.len() - c.len()]);
    } else {
        assert(all[k] == e[k - a.len() - b.len() - c.len() - d.len()]);
    }
}


// ---------------------------------------------------------------------------
// Index health
// ---------------------------------------------------------------------------

/// The state of the index as the settings page shows it.
#[derive(Clone, Debug)]
pub struct IndexHealth {
    pub status: String,
    pub detail: String,
    pub dirty_chunks: usize,
    pub index_bytes: u64,
}

/// The health of an index that has not been built yet.
pub fn initial_index_health() -> (r: IndexHealth)
    ensures
        r.status@ == "需要更新"@,
        r.detail@ == "新版骨架已创建，等待导入期刊库并构建 RAG/FTS/向量索引。"@,
        r.dirty_chunks == 0,
        r.index_bytes == 0,
{
    IndexHealth {
        status: owned("需要更新"),
        detail: owned("新版骨架已创建，等待导入期刊库并构建 RAG/FTS/向量索引。"),
        dirty_chunks: 0,
        index_bytes: 0,
    }
}

/// What the index tables hold, counted.
#[derive(Clone, Copy, Debug)]
pub struct IndexCounts {
    /// Journals whose profile awaits re-indexing.
    pub dirty_journals: usize,
    pub total_chunks: u64,
    /// Whether the full-text table exists.
    pub has_fts: bool,
    /// Clean chunks of kind scope, articles, experience or guidelines.
    pub content_chunks: u64,
    /// Clean chunks of kind profile.
    pub profile_chunks: u64,
    /// Bytes on disk of the index and embedding directories.
    pub index_bytes: u64,
}

/// The status word of the index: needs building when empty, building while
/// journals await re-indexing, normal when the full-text table exists, and
/// failed otherwise.
pub open spec fn index_status(c: IndexCounts) -> Seq<char> {
    if c.total_chunks == 0 {
        "需要更新"@
    } else if c.dirty_journals > 0 {
        "构建中"@
    } else if c.has_fts {
        "正常"@
    } else {
        "失败"@
    }
}

/// The detail line of the index's health.
pub open spec fn index_detail(c: IndexCounts) -> Seq<char> {
    "chunk 总数 "@ + decimal(c.total_chunks as nat) + "，内容证据 chunk "@ + decimal(c.content_chunks as nat)
        + "，基础档案 chunk "@ + decimal(c.profile_chunks as nat) + "，待更新 "@ + decimal(c.dirty_journals as nat)
        + "，FTS "@ + (if c.has_fts { "已启用"@ } else { "未启用"@ }) + "。"@
}

/// The health of the index from what its tables hold.
pub fn current_index_health(counts: &IndexCounts) -> (r: IndexHealth)
    ensures
        r.status@ == index_status(*counts),
        r.detail@ == index_detail(*counts),
        r.dirty_chunks == counts.dirty_journals,
        r.index_bytes == counts.index_bytes,
{
    let status = if counts.total_chunks == 0 {
        owned("需要更新")
    } else if counts.dirty_journals > 0 {
        owned("构建中")
    } else if counts.has_fts {
        owned("正常")
    } else {
        owned("失败")
    };
    let mut detail = owned("chunk 总数 ");
    append(&mut detail, crate::text::decimal_u64(counts.total_chunks).as_str());
    append(&mut detail, "，内容证据 chunk ");
    append(&mut detail, crate::text::decimal_u64(counts.content_chunks).as_str());
    append(&mut detail, "，基础档案 chunk ");
    append(&mut detail, crate::text::decimal_u64(counts.profile_chunks).as_str());
    append(&mut detail, "，待更新 ");
    append(&mut detail, crate::text::decimal_usize(counts.dirty_journals).as_str());
    append(&mut detail, "，FTS ");
    append(&mut detail, if counts.has_fts { "已启用" } else { "未启用" });
    append(&mut detail, "。");
    IndexHealth { status, detail, dirty_chunks: counts.dirty_journals, index_bytes: counts.index_bytes }
}

/// The health reported after the index cache was cleared: every journal is
/// marked for re-indexing, which the next search or a rebuild carries out.
pub fn clear_index_cache(index_bytes: u64) -> (r: IndexHealth)
    ensures
        r.status@ == "需要更新"@,
        r.detail@ == "索引缓存已清理，下次推荐前会自动增量刷新，也可以手动重建索引。"@,
        r.dirty_chunks == 0,
        r.index_bytes == index_bytes,
{
    IndexHealth {
        status: owned("需要更新"),
        detail: owned("索引缓存已清理，下次推荐前会自动增量刷新，也可以手动重建索引。"),
        dirty_chunks: 0,
        index_bytes,
    }
}

/// The health after one batch of re-indexing: normal when no journal is
/// left, else still building; the detail names the action, the chunks
/// written and the journals left.
pub open spec fn batch_health_detail(action: Seq<char>, refreshed: nat, remaining: nat) -> Seq<char> {
    action + "：本批更新 "@ + decimal(refreshed) + " 个 chunk，剩余 "@ + decimal(remaining) + " 本期刊待处理。"@
}

/// The health after one batch of re-indexing.
pub fn batch_index_health(action: &str, refreshed: usize, remaining: usize, index_bytes: u64) -> (r: IndexHealth)
    ensures
        r.status@ == (if remaining == 0 { "正常"@ } else { "构建中"@ }),
        r.detail@ == batch_health_detail(action@, refreshed as nat, remaining as nat),
        r.dirty_chunks == remaining,
        r.index_bytes == index_bytes,
{
    let status = if remaining == 0 { owned("正常") } else { owned("构建中") };
    let mut detail = cat(action, "：本批更新 ");
    append(&mut detail, crate::text::decimal_usize(refreshed).as_str());
    append(&mut detail, " 个 chunk，剩余 ");
    append(&mut detail, crate::text::decimal_usize(remaining).as_str());
    append(&mut detail, " 本期刊待处理。");
    IndexHealth { status, detail, dirty_chunks: remaining, index_bytes }
}

/// The action a full rebuild reports: it clears the index, marks every
/// journal for re-indexing and indexes the first batch.
pub open spec fn rebuild_action() -> Seq<char> {
    "已开始使用本地多语言 Embedding 分批构建索引"@
}

/// The health a full rebuild reports after its first batch.
pub fn rebuild_rag_index(refreshed: usize, remaining: usize, index_bytes: u64) -> (r: IndexHealth)
    ensures
        r.status@ == (if remaining == 0 { "正常"@ } else { "构建中"@ }),
        r.detail@ == batch_health_detail(rebuild_action(), refreshed as nat, remaining as nat),
        r.dirty_chunks == remaining,
        r.index_bytes == index_bytes,
{
    batch_index_health("已开始使用本地多语言 Embedding 分批构建索引", refreshed, remaining, index_bytes)
}

/// The health an incremental refresh reports after a batch.
pub fn refresh_dirty_rag_index(refreshed: usize, remaining: usize, index_bytes: u64) -> (r: IndexHealth)
    ensures
        r.status@ == (if remaining == 0 { "正常"@ } else { "构建中"@ }),
        r.detail@ == batch_health_detail("已增量更新本地多语言 Embedding 索引"@, refreshed as nat, remaining as nat),
        r.dirty_chunks == remaining,
        r.index_bytes == index_bytes,
{
    batch_index_health("已增量更新本地多语言 Embedding 索引", refreshed, remaining, index_bytes)
}

/// How many journals one re-indexing batch takes.
pub const INDEX_BATCH_SIZE: usize = 128;

/// What an incremental refresh does.
#[derive(PartialEq, Eq, Structural, Clone, Copy, Debug)]
pub enum RefreshStep {
    /// The index is empty: rebuild it from scratch.
    Rebuild,
    /// No journal is marked: report the current health.
    Report,
    /// Re-index the next batch of marked journals.
    Batch,
}

/// Decides an incremental refresh from the number of chunks in the index
/// and of journals marked for re-indexing.
pub fn refresh_step(total_chunks: u64, dirty_journals: usize) -> (r: RefreshStep)
    ensures
        r == (if total_chunks == 0 {
            RefreshStep::Rebuild
        } else if dirty_journals == 0 {
            RefreshStep::Report
        } else {
            RefreshStep::Batch
        }),
{
    if total_chunks == 0 {
        RefreshStep::Rebuild
    } else if dirty_journals == 0 {
        RefreshStep::Report
    } else {
        RefreshStep::Batch
    }
}

/// The embedding model must return one vector per text.
pub fn check_embedding_count(texts: usize, vectors: usize) -> (r: Result<(), String>)
    ensures
        r is Ok <==> texts == vectors,
        r matches Err(e) ==> e@ == "本地 Embedding 模型返回的向量数量不完整"@,
{
    if texts != vectors { Err(owned("本地 Embedding 模型返回的向量数量不完整")) } else { Ok(()) }
}

/// Whether background indexing goes on after a batch: while journals are
/// still marked.
pub fn keep_indexing(health: &IndexHealth) -> (r: bool)
    ensures
        r == (health.dirty_chunks > 0),
{
    health.dirty_chunks > 0
}

// ---------------------------------------------------------------------------
// Full-text queries
// ---------------------------------------------------------------------------

/// The search terms of a query: its word pieces (split at characters that
/// are neither alphanumeric nor CJK), trimmed, those of at least two
/// characters, in lower case.
pub open spec fn search_terms(query: Seq<char>) -> Seq<Seq<char>> {
    search_terms_of(crate::text::word_pieces(query))
}

/// The search terms among a list of pieces.
pub open spec fn search_terms_of(pieces: Seq<Seq<char>>) -> Seq<Seq<char>>
    decreases pieces.len(),
{
    if pieces.len() == 0 {
        seq![]
    } else if trim_spec(pieces.last()).len() >= 2 {
        search_terms_of(pieces.drop_last()).push(crate::text::lowercase(trim_spec(pieces.last())))
    } else {
        search_terms_of(pieces.drop_last())
    }
}

/// Splits a query into search terms.
pub fn split_search_terms(query: &str) -> (r: Vec<String>)
    ensures
        views(r@) == search_terms(query@),
{
    let pieces = crate::text::split_words(query);
    let mut out: Vec<String> = Vec::new();
    let mut i: usize = 0;
    while i < pieces.len()
        invariant
            i <= pieces@.len(),
            views(pieces@) == crate::text::word_pieces(query@),
            views(out@) == search_terms_of(views(pieces@).take(i as int)),
        decreases pieces@.len() - i,
    {
        let t = trim(pieces[i].as_str());
        proof {
            assert(views(pieces@).take(i + 1).drop_last() =~= views(pieces@).take(i as int));
            assert(views(pieces@).take(i + 1).last() == pieces@[i as int]@);
        }
        let long_enough = {
            let cs = crate::text::chars_of(t.as_str());
            cs.len() >= 2
        };
        if long_enough {
            let lower = crate::text::to_lowercase(t.as_str());
            let ghost before = views(out@);
            out.push(lower);
            assert(views(out@) =~= before.push(lower@));
        }
        i = i + 1;
    }
    assert(views(pieces@).take(i as int) =~= views(pieces@));
    out
}

/// A term quoted for the full-text engine: inner quotes doubled.
pub open spec fn quoted_term(t: Seq<char>) -> Seq<char> {
    seq!['"'] + crate::text::replace_spec(t, seq!['"'], seq!['"', '"']) + seq!['"']
}

/// The full-text query of a search: its first eight terms, quoted and
/// joined with `OR`; none when it has no terms.
pub open spec fn fts_query_spec(query: Seq<char>) -> Option<Seq<char>> {
    let terms = search_terms(query);
    let first = if terms.len() <= 8 { terms } else { terms.take(8) };
    if first.len() == 0 {
        None
    } else {
        Some(join_spec(first.map_values(|t: Seq<char>| quoted_term(t)), " OR "@))
    }
}

/// Builds the full-text query of a search.
pub fn build_fts_query(query: &str) -> (r: Option<String>)
    ensures
        crate::patterns::opt_view(r) == fts_query_spec(query@),
{
    let terms = split_search_terms(query);
    let n = if terms.len() <= 8 { terms.len() } else { 8 };
    let ghost first = if views(terms@).len() <= 8 { views(terms@) } else { views(terms@).take(8) };
    assert(first =~= views(terms@).take(n as int));
    let mut quoted: Vec<String> = Vec::new();
    let mut i: usize = 0;
    while i < n
        invariant
            i <= n <= terms@.len(),
            first == views(terms@).take(n as int),
            views(quoted@) == first.take(i as int).map_values(|t: Seq<char>| quoted_term(t)),
        decreases n - i,
    {
        proof {
            reveal_strlit("\"");
            reveal_strlit("\"\"");
            assert("\""@ =~= seq!['"']);
            assert("\"\""@ =~= seq!['"', '"']);
        }
        let inner = crate::text::replace(terms[i].as_str(), "\"", "\"\"");
        let mut q = owned("\"");
        append(&mut q, inner.as_str());
        append(&mut q, "\"");
        let ghost before = views(quoted@);
        quoted.push(q);
        proof {
            assert(q@ =~= quoted_term(terms@[i as int]@));
            assert(views(quoted@) =~= before.push(q@));
            assert(first.take(i + 1).map_values(|t: Seq<char>| quoted_term(t))
                =~= first.take(i as int).map_values(|t: Seq<char>| quoted_term(t)).push(quoted_term(first[i as int])));
        }
        i = i + 1;
    }
    assert(first.take(n as int) =~= first);
    if n == 0 {
        None
    } else {
        Some(join(&quoted, " OR "))
    }
}

/// At most `max_chars` characters of a text, with `...` after it when it
/// was cut.
pub open spec fn snippet_spec(value: Seq<char>, max_chars: nat) -> Seq<char> {
    if value.len() > max_chars { take_chars_spec(value, max_chars) + "..."@ } else { value }
}

/// A short excerpt of a chunk for display.
pub fn snippet(value: &str, max_chars: usize) -> (r: String)
    ensures
        r@ == snippet_spec(value@, max_chars as nat),
{
    let mut out = take_chars(value, max_chars);
    let count = crate::text::chars_of(value).len();
    if count > max_chars {
        append(&mut out, "...");
    }
    out
}


// ---------------------------------------------------------------------------
// The texts of the index
// ---------------------------------------------------------------------------

/// The scope text indexed for a journal: its scope, open-access type,
/// open-access statement and JCR rank, each trimmed and when present,
/// joined with "；".
pub open spec fn scope_text_spec(j: JournalRecord) -> Seq<char> {
    join_spec(
        labelled_part(seq![], trim_spec(j.scope_text@))
            + labelled_part("开放获取："@, trim_spec(j.oa_flag@))
            + labelled_part("开放获取说明："@, trim_spec(j.oa_detail@))
            + labelled_part("JCR排名："@, trim_spec(j.jcr_rank_detail@)),
        "；"@,
    )
}

/// The scope text indexed for a journal.
pub fn build_scope_text(journal: &JournalRecord) -> (r: String)
    ensures
        r@ == scope_text_spec(*journal),
{
    let mut parts: Vec<String> = Vec::new();
    assert(views(parts@) =~= seq![]);
    let scope = trim(journal.scope_text.as_str());
    push_labelled(&mut parts, "", scope.as_str());
    proof {
        reveal_strlit("");
        assert(""@ =~= Seq::<char>::empty());
    }
    let oa = trim(journal.oa_flag.as_str());
    push_labelled(&mut parts, "开放获取：", oa.as_str());
    let oa_detail = trim(journal.oa_detail.as_str());
    push_labelled(&mut parts, "开放获取说明：", oa_detail.as_str());
    let jcr = trim(journal.jcr_rank_detail.as_str());
    push_labelled(&mut parts, "JCR排名：", jcr.as_str());
    join(&parts, "；")
}

/// What the user recorded about a journal, as the index reads it.
#[derive(Clone, Debug)]
pub struct ProfileNotes {
    pub difficulty: String,
    pub preference: String,
    pub apc: String,
    pub review_cycle: String,
    pub tags: String,
    pub summary: String,
    pub experience: String,
    pub rejection_reason: String,
    pub suitable_topics: String,
    pub avoid_reason: String,
}

/// The parts of the experience text: difficulty unless "未评估", the
/// recommendation preference unless "正常推荐", then fee, review cycle,
/// tags, summary, experience, rejection reason, suitable topics and
/// reason to avoid, each when not blank.
pub open spec fn experience_parts_spec(n: ProfileNotes) -> Seq<Seq<char>> {
    (if !is_blank_spec(n.difficulty@) && n.difficulty@ != "未评估"@ { seq!["难度："@ + n.difficulty@] } else { seq![] })
        + (if !is_blank_spec(n.preference@) && n.preference@ != "正常推荐"@ { seq!["推荐偏好："@ + n.preference@] } else { seq![] })
        + labelled_part("版面费："@, n.apc@)
        + labelled_part("审稿周期："@, n.review_cycle@)
        + labelled_part("标签："@, n.tags@)
        + labelled_part("总结："@, n.summary@)
        + labelled_part("经验："@, n.experience@)
        + labelled_part("rejection reason: "@, n.rejection_reason@)
        + labelled_part("suitable topics: "@, n.suitable_topics@)
        + labelled_part("avoid recommendation reason: "@, n.avoid_reason@)
}

/// The experience text indexed for a journal; empty when the user has no
/// profile row for it.
pub open spec fn experience_text_spec(notes: Option<ProfileNotes>) -> Seq<char> {
    match notes {
        Some(n) => join_spec(experience_parts_spec(n), "；"@),
        None => seq![],
    }
}

/// The experience text indexed for a journal.
pub fn build_experience_text(notes: Option<&ProfileNotes>) -> (r: String)
    ensures
        r@ == experience_text_spec(match notes { Some(n) => Some(*n), None => None }),
{
    let n = match notes {
        Some(n) => n,
        None => return String::new(),
    };
    let mut parts: Vec<String> = Vec::new();
    assert(views(parts@) =~= seq![]);
    if !is_blank(n.difficulty.as_str()) && !str_eq(n.difficulty.as_str(), "未评估") {
        let ghost before = views(parts@);
        let p = cat("难度：", n.difficulty.as_str());
        parts.push(p);
        assert(views(parts@) =~= before + seq!["难度："@ + n.difficulty@]);
    } else {
        assert(views(parts@) =~= views(parts@) + seq![]);
    }
    let ghost first = views(parts@);
    if !is_blank(n.preference.as_str()) && !str_eq(n.preference.as_str(), "正常推荐") {
        let p = cat("推荐偏好：", n.preference.as_str());
        parts.push(p);
        assert(views(parts@) =~= first + seq!["推荐偏好："@ + n.preference@]);
    } else {
        assert(views(parts@) =~= first + seq![]);
    }
    push_labelled(&mut parts, "版面费：", n.apc.as_str());
    push_labelled(&mut parts, "审稿周期：", n.review_cycle.as_str());
    push_labelled(&mut parts, "标签：", n.tags.as_str());
    push_labelled(&mut parts, "总结：", n.summary.as_str());
    push_labelled(&mut parts, "经验：", n.experience.as_str());
    push_labelled(&mut parts, "rejection reason: ", n.rejection_reason.as_str());
    push_labelled(&mut parts, "suitable topics: ", n.suitable_topics.as_str());
    push_labelled(&mut parts, "avoid recommendation reason: ", n.avoid_reason.as_str());
    assert(views(parts@) =~= experience_parts_spec(*n));
    join(&parts, "；")
}

/// The guidelines text indexed for a journal: the stored guidelines
/// summary, website, open-access statement, EI and CCF, each when present,
/// joined with "；".
pub open spec fn guidelines_text_spec(guidelines: Option<Seq<char>>, j: JournalRecord) -> Seq<char> {
    let g = match guidelines {
        Some(v) => labelled_part("投稿指南摘要："@, v),
        None => seq![],
    };
    join_spec(
        g + labelled_part("官网："@, j.website@) + labelled_part("开放获取说明："@, j.oa_detail@)
            + labelled_part("EI："@, j.ei@) + labelled_part("CCF："@, j.ccf@),
        "；"@,
    )
}

/// The guidelines text indexed for a journal.
pub fn build_guidelines_text(guidelines: Option<&str>, journal: &JournalRecord) -> (r: String)
    ensures
        r@ == guidelines_text_spec(match guidelines { Some(g) => Some(g@), None => None }, *journal),
{
    let mut parts: Vec<String> = Vec::new();
    assert(views(parts@) =~= seq![]);
    match guidelines {
        Some(g) => push_labelled(&mut parts, "投稿指南摘要：", g),
        None => {},
    }
    push_labelled(&mut parts, "官网：", journal.website.as_str());
    push_labelled(&mut parts, "开放获取说明：", journal.oa_detail.as_str());
    push_labelled(&mut parts, "EI：", journal.ei.as_str());
    push_labelled(&mut parts, "CCF：", journal.ccf.as_str());
    join(&parts, "；")
}

/// The metrics line of a journal's profile chunk; the impact factor is
/// rendered by the caller, "unknown" when the catalogue has none.
pub open spec fn metrics_spec(j: JournalRecord, impact_factor: Option<Seq<char>>) -> Seq<char> {
    "JIF="@ + j.jif_quartile@ + "; CAS="@ + j.cas_quartile@ + "; IF="@
        + (match impact_factor { Some(v) => v, None => "unknown"@ }) + "; grade="@ + j.grade@
}

/// How the metrics line of a profile chunk is written: as by incremental
/// batches, as by a complete rebuild in one pass (with open-access type and
/// JCR rank), or as by a journal-by-journal rebuild (in Chinese).
#[derive(PartialEq, Eq, Structural, Clone, Copy, Debug)]
pub enum MetricsStyle {
    Batch,
    Complete,
    Localized,
}

/// The metrics line of a journal's profile chunk in a style; the impact
/// factor is rendered by the caller.
pub open spec fn metrics_line(style: MetricsStyle, j: JournalRecord, impact_factor: Option<Seq<char>>) -> Seq<char> {
    match style {
        MetricsStyle::Batch => metrics_spec(j, impact_factor),
        MetricsStyle::Complete => "JIF="@ + j.jif_quartile@ + "; CAS="@ + j.cas_quartile@ + "; IF="@
            + (match impact_factor { Some(v) => v, None => seq![] }) + "; OA="@ + j.oa_flag@ + "; JCR="@
            + j.jcr_rank_detail@ + "; grade="@ + j.grade@,
        MetricsStyle::Localized => "JIF="@ + j.jif_quartile@ + "；中科院="@ + j.cas_quartile@ + "；影响因子="@
            + (match impact_factor { Some(v) => v, None => "未记录"@ }) + "；等级="@ + j.grade@,
    }
}

/// The metrics line of a journal's profile chunk.
pub fn index_metrics(style: MetricsStyle, journal: &JournalRecord, impact_factor: Option<&str>) -> (r: String)
    ensures
        r@ == metrics_line(style, *journal, match impact_factor { Some(v) => Some(v@), None => None }),
{
    let mut m = cat("JIF=", journal.jif_quartile.as_str());
    match style {
        MetricsStyle::Batch => {
            append(&mut m, "; CAS=");
            append(&mut m, journal.cas_quartile.as_str());
            append(&mut m, "; IF=");
            match impact_factor {
                Some(v) => append(&mut m, v),
                None => append(&mut m, "unknown"),
            }
            append(&mut m, "; grade=");
        },
        MetricsStyle::Complete => {
            append(&mut m, "; CAS=");
            append(&mut m, journal.cas_quartile.as_str());
            append(&mut m, "; IF=");
            match impact_factor {
                Some(v) => append(&mut m, v),
                None => {},
            }
            append(&mut m, "; OA=");
            append(&mut m, journal.oa_flag.as_str());
            append(&mut m, "; JCR=");
            append(&mut m, journal.jcr_rank_detail.as_str());
            append(&mut m, "; grade=");
        },
        MetricsStyle::Localized => {
            append(&mut m, "；中科院=");
            append(&mut m, journal.cas_quartile.as_str());
            append(&mut m, "；影响因子=");
            match impact_factor {
                Some(v) => append(&mut m, v),
                None => append(&mut m, "未记录"),
            }
            append(&mut m, "；等级=");
        },
    }
    append(&mut m, journal.grade.as_str());
    proof {
        if impact_factor is None && style == MetricsStyle::Complete {
            assert(m@ =~= metrics_line(style, *journal, None));
        }
    }
    m
}

/// The texts a journal is indexed by, from its record and the user's
/// notes, with the metrics line in a style.
pub fn indexed_profile(
    style: MetricsStyle,
    journal: &JournalRecord,
    impact_factor: Option<&str>,
    notes: Option<&ProfileNotes>,
    article_topics: &str,
    guidelines: Option<&str>,
) -> (r: JournalProfileForChunks)
    ensures
        r.journal_id == journal.id,
        r.name@ == journal.name@,
        r.subjects@ == journal.subjects@,
        r.source_db@ == journal.source_db@,
        r.metrics@ == metrics_line(style, *journal, match impact_factor { Some(v) => Some(v@), None => None }),
        r.scope_text@ == scope_text_spec(*journal),
        r.user_experience@ == experience_text_spec(match notes { Some(n) => Some(*n), None => None }),
        r.article_topics@ == article_topics@,
        r.guidelines@ == guidelines_text_spec(match guidelines { Some(g) => Some(g@), None => None }, *journal),
{
    JournalProfileForChunks {
        journal_id: journal.id,
        name: owned(journal.name.as_str()),
        subjects: owned(journal.subjects.as_str()),
        source_db: owned(journal.source_db.as_str()),
        metrics: index_metrics(style, journal, impact_factor),
        scope_text: build_scope_text(journal),
        user_experience: build_experience_text(notes),
        article_topics: owned(article_topics),
        guidelines: build_guidelines_text(guidelines, journal),
    }
}

/// The texts a journal is indexed by in incremental batches.
pub fn journal_profile_for_index(
    journal: &JournalRecord,
    impact_factor: Option<&str>,
    notes: Option<&ProfileNotes>,
    article_topics: &str,
    guidelines: Option<&str>,
) -> (r: JournalProfileForChunks)
    ensures
        r.journal_id == journal.id,
        r.name@ == journal.name@,
        r.subjects@ == journal.subjects@,
        r.source_db@ == journal.source_db@,
        r.metrics@ == metrics_spec(*journal, match impact_factor { Some(v) => Some(v@), None => None }),
        r.scope_text@ == scope_text_spec(*journal),
        r.user_experience@ == experience_text_spec(match notes { Some(n) => Some(*n), None => None }),
        r.article_topics@ == article_topics@,
        r.guidelines@ == guidelines_text_spec(match guidelines { Some(g) => Some(g@), None => None }, *journal),
{
    indexed_profile(MetricsStyle::Batch, journal, impact_factor, notes, article_topics, guidelines)
}

/// The health after a complete rebuild in one pass.
pub fn complete_rebuild_health(total: usize, index_bytes: u64) -> (r: IndexHealth)
    ensures
        r.status@ == "正常"@,
        r.detail@ == "已用本地多语言 Embedding 重建 "@ + decimal(total as nat) + " 个 RAG chunk。"@,
        r.dirty_chunks == 0,
        r.index_bytes == index_bytes,
{
    let mut detail = owned("已用本地多语言 Embedding 重建 ");
    append(&mut detail, crate::text::decimal_usize(total).as_str());
    append(&mut detail, " 个 RAG chunk。");
    IndexHealth { status: owned("正常"), detail, dirty_chunks: 0, index_bytes }
}

/// The health after a journal-by-journal rebuild: normal when it wrote
/// chunks, else still to be updated.
pub fn sequential_rebuild_health(total: usize, index_bytes: u64) -> (r: IndexHealth)
    ensures
        r.status@ == (if total > 0 { "正常"@ } else { "需要更新"@ }),
        r.detail@ == "RAG 索引已重建，生成 "@ + decimal(total as nat) + " 个 chunk。"@,
        r.dirty_chunks == 0,
        r.index_bytes == index_bytes,
{
    let mut detail = owned("RAG 索引已重建，生成 ");
    append(&mut detail, crate::text::decimal_usize(total).as_str());
    append(&mut detail, " 个 chunk。");
    let status = if total > 0 { owned("正常") } else { owned("需要更新") };
    IndexHealth { status, detail, dirty_chunks: 0, index_bytes }
}

} // verus!
