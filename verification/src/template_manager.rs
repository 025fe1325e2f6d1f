//! Submission templates kept per journal: folder names, the listing page
//! and the reports of copying and uploading. Walking and copying
//! directories is the caller's.
use vstd::prelude::*;
use crate::patterns::{safe_name, safe_name_spec};
use crate::text::{
    append, cat, contains, contains_spec, is_blank, is_blank_spec, lemma_seq_lt_irreflexive, lemma_seq_lt_transitive,
    lowercase, owned, seq_lt, str_eq, str_lt,
    to_lowercase, trim, trim_spec,
};

verus! {

/// The folder name for a journal's templates: forbidden characters
/// replaced, trimmed, "未命名期刊" when nothing is left.
pub fn safe_folder_name(name: &str) -> (r: String)
    ensures
        r@ == safe_name_spec(name@, "未命名期刊"@),
{
    safe_name(name, "未命名期刊")
}

/// What copying the generic templates to a journal did.
#[derive(Clone, Debug)]
pub struct TemplateCopyReport {
    pub target_dir: String,
    pub copied: usize,
    pub skipped: usize,
    pub message: String,
}

/// The report of copying the generic templates; files already present are
/// never overwritten.
pub fn template_copy_report(target_dir: &str, copied: usize, skipped: usize) -> (r: TemplateCopyReport)
    ensures
        r.target_dir@ == target_dir@,
        r.copied == copied,
        r.skipped == skipped,
        r.message@ == "模板复制完成；已存在文件已跳过，不会覆盖。"@,
{
    TemplateCopyReport {
        target_dir: owned(target_dir),
        copied,
        skipped,
        message: owned("模板复制完成；已存在文件已跳过，不会覆盖。"),
    }
}

/// A template file of a journal.
#[derive(Clone, Debug)]
pub struct TemplateEntry {
    pub journal_name: String,
    pub file_name: String,
    pub path: String,
}

/// One page of the template listing, with how many matched in all.
#[derive(Clone, Debug)]
pub struct TemplateListPage {
    pub items: Vec<TemplateEntry>,
    pub total: usize,
}

/// What uploading a template did.
#[derive(Clone, Debug)]
pub struct TemplateUploadReport {
    pub stored_path: String,
    pub skipped: bool,
    pub message: String,
}

/// Checks an upload: a journal must be named and the file must not be
/// empty.
pub fn check_template_upload(journal_name: &str, byte_count: usize) -> (r: Result<(), String>)
    ensures
        match r {
            Ok(()) => !is_blank_spec(journal_name@) && byte_count > 0,
            Err(e) => (is_blank_spec(journal_name@) && e@ == "请先填写关联期刊名称。"@)
                || (!is_blank_spec(journal_name@) && byte_count == 0 && e@ == "模板文件为空。"@),
        },
{
    if is_blank(journal_name) {
        return Err(owned("请先填写关联期刊名称。"));
    }
    if byte_count == 0 {
        return Err(owned("模板文件为空。"));
    }
    Ok(())
}

/// The report of an upload: skipped, never overwriting, when a template of
/// that name exists; else saved.
pub fn template_upload_report(stored_path: &str, already_exists: bool) -> (r: TemplateUploadReport)
    ensures
        r.stored_path@ == stored_path@,
        r.skipped == already_exists,
        r.message@ == (if already_exists { "同名模板已存在，已跳过，未覆盖原文件。"@ } else { "期刊模板已保存。"@ }),
{
    if already_exists {
        TemplateUploadReport { stored_path: owned(stored_path), skipped: true, message: owned("同名模板已存在，已跳过，未覆盖原文件。") }
    } else {
        TemplateUploadReport { stored_path: owned(stored_path), skipped: false, message: owned("期刊模板已保存。") }
    }
}

// ---------------------------------------------------------------------------
// The listing
// ---------------------------------------------------------------------------

/// Whether template `a` sorts before `b`: by journal, then by file name.
pub open spec fn entry_lt(a: TemplateEntry, b: TemplateEntry) -> bool {
    seq_lt(a.journal_name@, b.journal_name@)
        || (a.journal_name@ == b.journal_name@ && seq_lt(a.file_name@, b.file_name@))
}

/// Where a stable sort puts `x` among the sorted `s`: before the first
/// entry it sorts before.
pub open spec fn insert_at(s: Seq<TemplateEntry>, x: TemplateEntry) -> int
    decreases s.len(),
{
    if s.len() == 0 {
        0
    } else {
        let p = insert_at(s.drop_last(), x);
        if p < s.len() - 1 { p } else if entry_lt(x, s.last()) { s.len() - 1 } else { s.len() as int }
    }
}

/// The entries in the order of a stable sort by journal, then file name.
pub open spec fn sorted_entries(s: Seq<TemplateEntry>) -> Seq<TemplateEntry>
    decreases s.len(),
{
    if s.len() == 0 {
        seq![]
    } else {
        let r = sorted_entries(s.drop_last());
        r.insert(insert_at(r, s.last()), s.last())
    }
}

proof fn lemma_insert_at_range(s: Seq<TemplateEntry>, x: TemplateEntry)
    ensures
        0 <= insert_at(s, x) <= s.len(),
    decreases s.len(),
{
    if s.len() > 0 {
        lemma_insert_at_range(s.drop_last(), x);
    }
}

proof fn lemma_insert_at_prefix(s: Seq<TemplateEntry>, x: TemplateEntry, k: int)
    requires
        0 <= k <= s.len(),
        insert_at(s.take(k), x) < k,
    ensures
        insert_at(s, x) == insert_at(s.take(k), x),
    decreases s.len() - k,
{
    if k < s.len() {
        assert(s.take(k + 1).drop_last() =~= s.take(k));
        lemma_insert_at_prefix(s, x, k + 1);
    } else {
        assert(s.take(k) =~= s);
    }
}

proof fn lemma_sorted_len(s: Seq<TemplateEntry>)
    ensures
        sorted_entries(s).len() == s.len(),
    decreases s.len(),
{
    if s.len() > 0 {
        lemma_sorted_len(s.drop_last());
        lemma_insert_at_range(sorted_entries(s.drop_last()), s.last());
    }
}

fn template_lt(a: &TemplateEntry, b: &TemplateEntry) -> (r: bool)
    ensures
        r == entry_lt(*a, *b),
{
    str_lt(a.journal_name.as_str(), b.journal_name.as_str())
        || (str_eq(a.journal_name.as_str(), b.journal_name.as_str()) && str_lt(a.file_name.as_str(), b.file_name.as_str()))
}

fn insert_sorted(out: &mut Vec<TemplateEntry>, x: TemplateEntry)
    ensures
        final(out)@ == old(out)@.insert(insert_at(old(out)@, x), x),
{
    let mut j: usize = 0;
    while j < out.len() && !template_lt(&x, &out[j])
        invariant
            j <= out@.len(),
            out@ == old(out)@,
            insert_at(out@.take(j as int), x) == j,
        decreases out@.len() - j,
    {
        proof {
            assert(out@.take(j + 1).drop_last() =~= out@.take(j as int));
            assert(out@.take(j + 1).last() == out@[j as int]);
        }
        j = j + 1;
    }
    proof {
        if j == out@.len() {
            assert(out@.take(j as int) =~= out@);
        } else {
            assert(out@.take(j + 1).drop_last() =~= out@.take(j as int));
            assert(out@.take(j + 1).last() == out@[j as int]);
            lemma_insert_at_prefix(out@, x, j as int + 1);
        }
        lemma_insert_at_range(out@, x);
    }
    out.insert(j, x);
}

/// Sorts template entries by journal, then file name, keeping the order of
/// equal ones.
pub fn sort_templates(entries: Vec<TemplateEntry>) -> (r: Vec<TemplateEntry>)
    ensures
        r@ == sorted_entries(entries@),
{
    let mut out: Vec<TemplateEntry> = Vec::new();
    let mut rest = entries;
    let ghost all = rest@;
    let n = rest.len();
    let mut i: usize = 0;
    assert(all.skip(0) =~= all);
    while i < n
        invariant
            n == all.len(),
            i <= n,
            rest@ == all.skip(i as int),
            out@ == sorted_entries(all.take(i as int)),
        decreases n - i,
    {
        let x = rest.remove(0);
        proof {
            assert(x == all[i as int]);
            assert(rest@ =~= all.skip(i + 1));
            assert(all.take(i + 1).drop_last() =~= all.take(i as int));
            assert(all.take(i + 1).last() == x);
        }
        insert_sorted(&mut out, x);
        i = i + 1;
    }
    assert(all.take(n as int) =~= all);
    out
}

/// Whether a template matches a search: the search is blank, or its
/// trimmed, lower-cased text occurs in the lower-cased "journal file".
pub open spec fn template_matches(e: TemplateEntry, needle: Seq<char>) -> bool {
    needle.len() == 0 || contains_spec(lowercase(e.journal_name@ + seq![' '] + e.file_name@), needle)
}

/// The templates that match a search, in the order found.
pub open spec fn matching_templates(s: Seq<TemplateEntry>, needle: Seq<char>) -> Seq<TemplateEntry>
    decreases s.len(),
{
    if s.len() == 0 {
        seq![]
    } else if template_matches(s.last(), needle) {
        matching_templates(s.drop_last(), needle).push(s.last())
    } else {
        matching_templates(s.drop_last(), needle)
    }
}

/// The page size asked for, kept between 1 and 100.
pub open spec fn page_size(limit: usize) -> int {
    if limit < 1 { 1 } else if limit > 100 { 100 } else { limit as int }
}

/// The entries of a page: `limit` (kept between 1 and 100) entries from
/// `offset` on.
pub open spec fn page_of(s: Seq<TemplateEntry>, offset: usize, limit: usize) -> Seq<TemplateEntry> {
    let start = if offset as int > s.len() { s.len() as int } else { offset as int };
    let end = if start + page_size(limit) > s.len() { s.len() as int } else { start + page_size(limit) };
    s.subrange(start, end)
}

/// One page of the templates that match a search, sorted by journal and
/// file name, with how many matched in all.
pub fn list_journal_templates(entries: Vec<TemplateEntry>, query: &str, offset: usize, limit: usize) -> (r: TemplateListPage)
    ensures
        r.total == matching_templates(entries@, lowercase(trim_spec(query@))).len(),
        r.items@ == page_of(sorted_entries(matching_templates(entries@, lowercase(trim_spec(query@)))), offset, limit),
{
    let needle = to_lowercase(trim(query).as_str());
    let ghost all = entries@;
    let mut kept: Vec<TemplateEntry> = Vec::new();
    let mut rest = entries;
    let n = rest.len();
    let mut i: usize = 0;
    assert(all.skip(0) =~= all);
    while i < n
        invariant
            n == all.len(),
            i <= n,
            rest@ == all.skip(i as int),
            kept@ == matching_templates(all.take(i as int), needle@),
        decreases n - i,
    {
        let x = rest.remove(0);
        proof {
            assert(x == all[i as int]);
            assert(rest@ =~= all.skip(i + 1));
            assert(all.take(i + 1).drop_last() =~= all.take(i as int));
            assert(all.take(i + 1).last() == x);
        }
        let mut text = cat(x.journal_name.as_str(), " ");
        append(&mut text, x.file_name.as_str());
        let lowered = to_lowercase(text.as_str());
        proof {
            reveal_strlit(" ");
            assert(text@ =~= x.journal_name@ + seq![' '] + x.file_name@);
        }
        if needle.as_str().is_empty() || contains(lowered.as_str(), needle.as_str()) {
            kept.push(x);
        }
        i = i + 1;
    }
    assert(all.take(n as int) =~= all);
    let total = kept.len();
    let sorted = sort_templates(kept);
    let ghost sv = sorted@;
    proof {
        lemma_sorted_len(matching_templates(all, needle@));
    }
    let size: usize = if limit < 1 { 1 } else if limit > 100 { 100 } else { limit };
    let start: usize = if offset > sorted.len() { sorted.len() } else { offset };
    let end: usize = if size > sorted.len() - start { sorted.len() } else { start + size };
    let mut page = sorted;
    page.truncate(end);
    let items = page.split_off(start);
    assert(items@ =~= sorted_entries(matching_templates(all, needle@)).subrange(start as int, end as int));
    TemplateListPage { items, total }
}


// ---------------------------------------------------------------------------
// Laws of the listing order
// ---------------------------------------------------------------------------

proof fn lemma_entry_lt_irreflexive(a: TemplateEntry)
    ensures
        !entry_lt(a, a),
{
    lemma_seq_lt_irreflexive(a.journal_name@);
    lemma_seq_lt_irreflexive(a.file_name@);
}

proof fn lemma_entry_lt_transitive(a: TemplateEntry, b: TemplateEntry, c: TemplateEntry)
    requires
        entry_lt(a, b),
        entry_lt(b, c),
    ensures
        entry_lt(a, c),
{
    if seq_lt(a.journal_name@, b.journal_name@) && seq_lt(b.journal_name@, c.journal_name@) {
        lemma_seq_lt_transitive(a.journal_name@, b.journal_name@, c.journal_name@);
    } else if seq_lt(a.journal_name@, b.journal_name@) {
    } else if seq_lt(b.journal_name@, c.journal_name@) {
    } else {
        lemma_seq_lt_transitive(a.file_name@, b.file_name@, c.file_name@);
    }
}

proof fn lemma_insert_at_shape(s: Seq<TemplateEntry>, x: TemplateEntry)
    ensures
        forall|k: int| 0 <= k < insert_at(s, x) ==> !entry_lt(x, #[trigger] s[k]),
        insert_at(s, x) < s.len() ==> entry_lt(x, s[insert_at(s, x)]),
    decreases s.len(),
{
    if s.len() > 0 {
        lemma_insert_at_shape(s.drop_last(), x);
        lemma_insert_at_range(s.drop_last(), x);
        let p = insert_at(s.drop_last(), x);
        assert forall|k: int| 0 <= k < insert_at(s, x) implies !entry_lt(x, #[trigger] s[k]) by {
            if k < s.len() - 1 {
                assert(s.drop_last()[k] == s[k]);
            }
        }
        if p < s.len() - 1 {
            assert(s.drop_last()[p] == s[p]);
        }
    }
}

/// Whether no entry sorts before an earlier one.
pub open spec fn in_listing_order(s: Seq<TemplateEntry>) -> bool {
    forall|i: int, j: int| 0 <= i < j < s.len() ==> !entry_lt(#[trigger] s[j], #[trigger] s[i])
}

/// The template listing is sorted: no entry sorts before an earlier one;
/// and it holds exactly the entries it was given.
pub proof fn sorted_entries_is_sorted_permutation(s: Seq<TemplateEntry>)
    ensures
        in_listing_order(sorted_entries(s)),
        sorted_entries(s).to_multiset() == s.to_multiset(),
    decreases s.len(),
{
    broadcast use vstd::seq_lib::to_multiset_insert, vstd::seq_lib::to_multiset_build;
    if s.len() == 0 {
        assert(s =~= Seq::<TemplateEntry>::empty());
    } else {
        let r = sorted_entries(s.drop_last());
        let x = s.last();
        sorted_entries_is_sorted_permutation(s.drop_last());
        lemma_insert_at_range(r, x);
        lemma_insert_at_shape(r, x);
        let p = insert_at(r, x);
        let t = r.insert(p, x);
        assert(t == sorted_entries(s));
        assert forall|i: int, j: int| 0 <= i < j < t.len() implies !entry_lt(#[trigger] t[j], #[trigger] t[i]) by {
            if j < p {
                assert(t[i] == r[i] && t[j] == r[j]);
            } else if j == p {
                assert(t[j] == x && t[i] == r[i]);
            } else if i == p {
                assert(t[i] == x && t[j] == r[j - 1]);
                if entry_lt(r[j - 1], x) {
                    if j - 1 == p {
                        lemma_entry_lt_transitive(x, r[p], x);
                        lemma_entry_lt_irreflexive(x);
                    } else {
                        lemma_entry_lt_transitive(r[j - 1], x, r[p]);
                    }
                }
            } else if i < p {
                assert(t[i] == r[i] && t[j] == r[j - 1]);
            } else {
                assert(t[i] == r[i - 1] && t[j] == r[j - 1]);
            }
        }
        assert(s =~= s.drop_last().push(x));
        assert(t.to_multiset() == r.to_multiset().insert(x));
        assert(s.drop_last().push(x).to_multiset() == s.drop_last().to_multiset().insert(x));
    }
}

} // verus!
