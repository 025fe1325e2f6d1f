//! Searching the web for journals: the queries a manuscript makes, telling
//! results apart, keeping only results the local catalogue can vouch for,
//! and cleaning what search pages return. The requests themselves are the
//! caller's.
use vstd::prelude::*;
use crate::journal_store::JournalRecord;
use crate::patterns::{
    captures_all, find_all_matches, groups_view, or_keep, regex_captures_all, regex_find_all, regex_replace_all,
    replace_pattern,
};
use crate::text::{
    append, cat, char_is_alphanumeric, char_lowercase, char_to_lowercase, chars_of, contains, contains_spec,
    insert_unique, is_alphanumeric_char, is_ascii_alnum, is_blank, is_blank_spec, join, join_spec, owned, push_char,
    replace, replace_spec, seq_find, find_str, seq_lt, split_whitespace, starts_with, starts_with_spec, str_eq,
    string_of, take_chars, take_chars_spec, to_lowercase, to_uppercase, trim, trim_spec, uppercase, lowercase,
    views, ws_words,
};

verus! {

/// A journal found on the web.
#[derive(Clone, Debug)]
pub struct WebSearchSource {
    pub provider: String,
    pub query: String,
    pub title: String,
    pub url: String,
    pub snippet: String,
    pub jif_quartile: String,
}

/// What to search the web for.
#[derive(Clone, Debug)]
pub struct WebSearchRequest {
    pub title: String,
    pub abstract_text: String,
    pub keywords: String,
    pub prefer_chinese: bool,
    pub exclude_titles: Vec<String>,
    pub refresh_round: u32,
    pub target_jif_quartiles: Vec<String>,
}

/// What a web search found, and what to tell the user about it.
#[derive(Clone, Debug)]
pub struct WebSearchReport {
    pub sources: Vec<WebSearchSource>,
    pub warning: Option<String>,
}

// ---------------------------------------------------------------------------
// Queries
// ---------------------------------------------------------------------------

/// What a search starts from: the first of title, keywords and abstract
/// that is not blank, trimmed, cut to 80 characters; "journal" when all are
/// blank.
pub open spec fn query_seed(title: Seq<char>, abstract_text: Seq<char>, keywords: Seq<char>) -> Seq<char> {
    let source = if !is_blank_spec(title) {
        trim_spec(title)
    } else if !is_blank_spec(keywords) {
        trim_spec(keywords)
    } else if !is_blank_spec(abstract_text) {
        trim_spec(abstract_text)
    } else {
        "journal"@
    };
    let seed = take_chars_spec(source, 80);
    if seed.len() == 0 { "journal"@ } else { seed }
}

/// The endings of the queries, in sorted order, for Chinese and for
/// international journals.
pub open spec fn query_endings(prefer_chinese: bool) -> Seq<Seq<char>> {
    if prefer_chinese {
        seq![
            " CSSCI CSCD 北大核心 中文期刊"@,
            " author guidelines journal"@,
            " journal"@,
            " submission scope journal"@,
            " 中文期刊 投稿"@,
        ]
    } else {
        seq![
            " SCI journal"@,
            " SCIE SSCI journal"@,
            " author guidelines journal"@,
            " journal"@,
            " submission scope journal"@,
        ]
    }
}

/// The web queries of a manuscript: the seed followed by each ending, in
/// sorted order without repeats (at most five).
pub open spec fn web_queries_spec(title: Seq<char>, abstract_text: Seq<char>, keywords: Seq<char>, prefer_chinese: bool) -> Seq<Seq<char>> {
    let seed = query_seed(title, abstract_text, keywords);
    query_endings(prefer_chinese).map_values(|e: Seq<char>| seed + e)
}

/// The web queries of a manuscript.
pub fn build_web_queries(title: &str, abstract_text: &str, keywords: &str, prefer_chinese: bool) -> (r: Vec<String>)
    ensures
        views(r@) == web_queries_spec(title@, abstract_text@, keywords@, prefer_chinese),
{
    let source = if !is_blank(title) {
        trim(title)
    } else if !is_blank(keywords) {
        trim(keywords)
    } else if !is_blank(abstract_text) {
        trim(abstract_text)
    } else {
        owned("journal")
    };
    let mut seed = take_chars(source.as_str(), 80);
    if seed.as_str().is_empty() {
        seed = owned("journal");
    }
    let endings: Vec<&str> = if prefer_chinese {
        vec![" CSSCI CSCD 北大核心 中文期刊", " author guidelines journal", " journal", " submission scope journal", " 中文期刊 投稿"]
    } else {
        vec![" SCI journal", " SCIE SSCI journal", " author guidelines journal", " journal", " submission scope journal"]
    };
    let ghost ends = crate::text::strs(endings@);
    assert(ends =~= query_endings(prefer_chinese));
    let mut out: Vec<String> = Vec::new();
    let mut i: usize = 0;
    while i < endings.len()
        invariant
            i <= endings@.len(),
            ends == crate::text::strs(endings@),
            views(out@) == ends.take(i as int).map_values(|e: Seq<char>| seed@ + e),
        decreases endings@.len() - i,
    {
        let q = cat(seed.as_str(), endings[i]);
        let ghost before = views(out@);
        out.push(q);
        proof {
            assert(views(out@) =~= before.push(q@));
            assert(ends.take(i + 1).map_values(|e: Seq<char>| seed@ + e)
                =~= ends.take(i as int).map_values(|e: Seq<char>| seed@ + e).push(seed@ + ends[i as int]));
        }
        i = i + 1;
    }
    assert(ends.take(i as int) =~= ends);
    out
}

proof fn lemma_lt_at(a: Seq<char>, b: Seq<char>, k: int)
    requires
        0 <= k < a.len(),
        k < b.len(),
        a.take(k) == b.take(k),
        a[k] < b[k],
    ensures
        seq_lt(a, b),
    decreases k,
{
    if k > 0 {
        assert(a[0] == a.take(k)[0]);
        assert(b[0] == b.take(k)[0]);
        assert(a.drop_first().take(k - 1) =~= a.take(k).drop_first());
        assert(b.drop_first().take(k - 1) =~= b.take(k).drop_first());
        lemma_lt_at(a.drop_first(), b.drop_first(), k - 1);
    }
}

proof fn lemma_prefix_lt(p: Seq<char>, a: Seq<char>, b: Seq<char>)
    requires
        seq_lt(a, b),
    ensures
        seq_lt(p + a, p + b),
    decreases p.len(),
{
    if p.len() > 0 {
        assert((p + a).drop_first() =~= p.drop_first() + a);
        assert((p + b).drop_first() =~= p.drop_first() + b);
        lemma_prefix_lt(p.drop_first(), a, b);
    } else {
        assert(p + a =~= a);
        assert(p + b =~= b);
    }
}

proof fn lemma_endings_ascending(prefer_chinese: bool)
    ensures
        forall|i: int| 0 <= i < 4 ==> seq_lt(#[trigger] query_endings(prefer_chinese)[i], query_endings(prefer_chinese)[i + 1]),
{
    let e = query_endings(prefer_chinese);
    if prefer_chinese {
        reveal_strlit(" CSSCI CSCD 北大核心 中文期刊");
        reveal_strlit(" author guidelines journal");
        reveal_strlit(" journal");
        reveal_strlit(" submission scope journal");
        reveal_strlit(" 中文期刊 投稿");
        assert(e[0].take(1) =~= e[1].take(1));
        lemma_lt_at(e[0], e[1], 1);
        assert(e[1].take(1) =~= e[2].take(1));
        lemma_lt_at(e[1], e[2], 1);
        assert(e[2].take(1) =~= e[3].take(1));
        lemma_lt_at(e[2], e[3], 1);
        assert(e[3].take(1) =~= e[4].take(1));
        lemma_lt_at(e[3], e[4], 1);
    } else {
        reveal_strlit(" SCI journal");
        reveal_strlit(" SCIE SSCI journal");
        reveal_strlit(" author guidelines journal");
        reveal_strlit(" journal");
        reveal_strlit(" submission scope journal");
        assert(e[0].take(4) =~= e[1].take(4));
        lemma_lt_at(e[0], e[1], 4);
        assert(e[1].take(1) =~= e[2].take(1));
        lemma_lt_at(e[1], e[2], 1);
        assert(e[2].take(1) =~= e[3].take(1));
        lemma_lt_at(e[2], e[3], 1);
        assert(e[3].take(1) =~= e[4].take(1));
        lemma_lt_at(e[3], e[4], 1);
    }
}

/// The web queries come in strictly ascending order, as sorting and
/// removing repeats leaves them: every query sorts before every later one.
pub proof fn web_queries_are_sorted(title: Seq<char>, abstract_text: Seq<char>, keywords: Seq<char>, prefer_chinese: bool)
    ensures
        web_queries_spec(title, abstract_text, keywords, prefer_chinese).len() == 5,
        forall|i: int, j: int| 0 <= i < j < 5 ==> seq_lt(
            #[trigger] web_queries_spec(title, abstract_text, keywords, prefer_chinese)[i],
            #[trigger] web_queries_spec(title, abstract_text, keywords, prefer_chinese)[j],
        ),
{
    let q = web_queries_spec(title, abstract_text, keywords, prefer_chinese);
    let e = query_endings(prefer_chinese);
    let seed = query_seed(title, abstract_text, keywords);
    lemma_endings_ascending(prefer_chinese);
    assert forall|i: int| 0 <= i < 4 implies seq_lt(#[trigger] q[i], q[i + 1]) by {
        assert(seq_lt(e[i], e[i + 1]));
        lemma_prefix_lt(seed, e[i], e[i + 1]);
    }
    assert forall|i: int, j: int| 0 <= i < j < 5 implies seq_lt(#[trigger] q[i], #[trigger] q[j]) by {
        lemma_chain(q, i, j);
    }
}

proof fn lemma_chain(q: Seq<Seq<char>>, i: int, j: int)
    requires
        0 <= i < j < q.len(),
        forall|k: int| 0 <= k < q.len() - 1 ==> seq_lt(#[trigger] q[k], q[k + 1]),
    ensures
        seq_lt(q[i], q[j]),
    decreases j - i,
{
    if j > i + 1 {
        lemma_chain(q, i, j - 1);
        assert(seq_lt(q[j - 1], q[j]));
        crate::text::lemma_seq_lt_transitive(q[i], q[j - 1], q[j]);
    }
}

/// The queries a search round runs, turned left by the round number so
/// that each refresh starts elsewhere.
pub open spec fn rotated(q: Seq<Seq<char>>, round: u32) -> Seq<Seq<char>> {
    let s = (round as int) % (q.len() as int);
    q.skip(s) + q.take(s)
}

/// The queries of a search round.
pub fn round_queries(request: &WebSearchRequest) -> (r: Vec<String>)
    ensures
        views(r@) == rotated(
            web_queries_spec(request.title@, request.abstract_text@, request.keywords@, request.prefer_chinese),
            request.refresh_round,
        ),
{
    let queries = build_web_queries(request.title.as_str(), request.abstract_text.as_str(), request.keywords.as_str(), request.prefer_chinese);
    proof {
        web_queries_are_sorted(request.title@, request.abstract_text@, request.keywords@, request.prefer_chinese);
    }
    let n = queries.len();
    let shift: usize = (request.refresh_round % 5) as usize;
    let mut out: Vec<String> = Vec::new();
    let mut k: usize = 0;
    let ghost q = views(queries@);
    while k < n
        invariant
            n == 5,
            q == views(queries@),
            q.len() == 5,
            shift < 5,
            k <= n,
            views(out@) == (q.skip(shift as int) + q.take(shift as int)).take(k as int),
        decreases n - k,
    {
        let idx = if shift + k < n { shift + k } else { shift + k - n };
        let item = owned(queries[idx].as_str());
        let ghost before = views(out@);
        out.push(item);
        proof {
            assert(views(out@) =~= before.push(item@));
            let full = q.skip(shift as int) + q.take(shift as int);
            assert(full[k as int] == q[idx as int]);
            assert(full.take(k + 1) =~= full.take(k as int).push(full[k as int]));
        }
        k = k + 1;
    }
    proof {
        let full = q.skip(shift as int) + q.take(shift as int);
        assert(full.take(5) =~= full);
    }
    out
}

/// Where Crossref results start in a search round: eight further per
/// round, at most 80.
pub fn crossref_offset(refresh_round: u32) -> (r: usize)
    ensures
        r == (if refresh_round as int * 8 < 80 { refresh_round as int * 8 } else { 80 }),
{
    if refresh_round < 10 { (refresh_round as usize) * 8 } else { 80 }
}

// ---------------------------------------------------------------------------
// Telling journals apart
// ---------------------------------------------------------------------------

/// The comparison key of a title: its alphanumeric characters, each
/// lower-cased.
pub open spec fn web_title_key(s: Seq<char>) -> Seq<char>
    decreases s.len(),
{
    if s.len() == 0 {
        seq![]
    } else if is_alphanumeric_char(s.last()) {
        web_title_key(s.drop_last()) + char_lowercase(s.last())
    } else {
        web_title_key(s.drop_last())
    }
}

/// The comparison key of a journal title found on the web.
pub fn normalize_title(value: &str) -> (r: String)
    ensures
        r@ == web_title_key(value@),
{
    let cs = chars_of(value);
    let mut out = String::new();
    let mut i: usize = 0;
    while i < cs.len()
        invariant
            i <= cs@.len(),
            cs@ == value@,
            out@ == web_title_key(cs@.take(i as int)),
        decreases cs@.len() - i,
    {
        let c = cs[i];
        proof {
            assert(cs@.take(i + 1).drop_last() =~= cs@.take(i as int));
            assert(cs@.take(i + 1).last() == c);
        }
        if char_is_alphanumeric(c) {
            let lower = char_to_lowercase(c);
            let piece = string_of(&lower);
            append(&mut out, piece.as_str());
        }
        i = i + 1;
    }
    assert(cs@.take(i as int) =~= cs@);
    out
}

/// An ASCII letter in upper case; other characters unchanged.
pub open spec fn ascii_upper(c: char) -> char {
    if 'a' <= c && c <= 'z' { ((c as u32) - 32) as char } else { c }
}

/// The comparison key of an ISSN: its ASCII letters and digits, upper-cased.
pub open spec fn issn_key(s: Seq<char>) -> Seq<char>
    decreases s.len(),
{
    if s.len() == 0 {
        seq![]
    } else if is_ascii_alnum(s.last()) {
        issn_key(s.drop_last()).push(ascii_upper(s.last()))
    } else {
        issn_key(s.drop_last())
    }
}

/// The comparison key of an ISSN.
pub fn normalize_issn(value: &str) -> (r: String)
    ensures
        r@ == issn_key(value@),
{
    let cs = chars_of(value);
    let mut out = String::new();
    let mut i: usize = 0;
    while i < cs.len()
        invariant
            i <= cs@.len(),
            cs@ == value@,
            out@ == issn_key(cs@.take(i as int)),
        decreases cs@.len() - i,
    {
        let c = cs[i];
        proof {
            assert(cs@.take(i + 1).drop_last() =~= cs@.take(i as int));
            assert(cs@.take(i + 1).last() == c);
        }
        if ('0' <= c && c <= '9') || ('a' <= c && c <= 'z') || ('A' <= c && c <= 'Z') {
            let u = if 'a' <= c && c <= 'z' { ((c as u8) - 32) as char } else { c };
            push_char(&mut out, u);
        }
        i = i + 1;
    }
    assert(cs@.take(i as int) =~= cs@);
    out
}

/// The ISSN pattern: four digits, a hyphen, three digits and a check digit
/// or X, as a whole word, in any case.
pub const ISSN_PATTERN: &'static str = "(?i)\\b\\d{4}-\\d{3}[\\dX]\\b";

/// The ISSN keys that occur in a text.
pub open spec fn issn_keys_in(matches: Seq<Seq<char>>) -> Set<Seq<char>> {
    Set::new(|k: Seq<char>| k.len() > 0 && exists|i: int| 0 <= i < matches.len() && issn_key(#[trigger] matches[i]) == k)
}

/// The ISSN keys found in a text: none when the pattern does not compile.
pub open spec fn extract_issns_spec(value: Seq<char>) -> Set<Seq<char>> {
    match regex_find_all(ISSN_PATTERN@, value) {
        Some(m) => issn_keys_in(m),
        None => Set::empty(),
    }
}

/// The ISSN keys found in a text, each once.
pub fn extract_issns(value: &str) -> (r: Vec<String>)
    ensures
        views(r@).no_duplicates(),
        views(r@).to_set() == extract_issns_spec(value@),
{
    let found = find_all_matches(ISSN_PATTERN, value);
    let mut out: Vec<String> = Vec::new();
    assert(views(out@) =~= Seq::<Seq<char>>::empty());
    assert(views(out@).to_set() =~= Set::<Seq<char>>::empty());
    match found {
        None => out,
        Some(m) => {
            let ghost mv = m@.map_values(|s: String| s@);
            let mut i: usize = 0;
            while i < m.len()
                invariant
                    i <= m@.len(),
                    mv == m@.map_values(|s: String| s@),
                    views(out@).no_duplicates(),
                    views(out@).to_set() == issn_keys_in(mv.take(i as int)),
                decreases m@.len() - i,
            {
                let k = normalize_issn(m[i].as_str());
                proof {
                    assert(mv[i as int] == m@[i as int]@);
                }
                let ghost prev = views(out@).to_set();
                if !k.as_str().is_empty() {
                    insert_unique(&mut out, k);
                }
                proof {
                    let now = issn_keys_in(mv.take(i + 1));
                    let was = issn_keys_in(mv.take(i as int));
                    assert forall|x: Seq<char>| now.contains(x) <==> views(out@).to_set().contains(x) by {
                        if now.contains(x) {
                            let w = choose|w: int| 0 <= w < mv.take(i + 1).len() && issn_key(#[trigger] mv.take(i + 1)[w]) == x;
                            if w < i {
                                assert(mv.take(i as int)[w] == mv.take(i + 1)[w]);
                                assert(was.contains(x));
                            }
                        }
                        if was.contains(x) {
                            let w = choose|w: int| 0 <= w < mv.take(i as int).len() && issn_key(#[trigger] mv.take(i as int)[w]) == x;
                            assert(mv.take(i + 1)[w] == mv.take(i as int)[w]);
                        }
                        if x == issn_key(mv[i as int]) && x.len() > 0 {
                            assert(mv.take(i + 1)[i as int] == mv[i as int]);
                        }
                    }
                    assert(views(out@).to_set() =~= now);
                }
                i = i + 1;
            }
            assert(mv.take(i as int) =~= mv);
            out
        },
    }
}


/// What tells one found journal from another: its ISSN when the snippet
/// shows one (the first, upper-cased), else its title key, else its
/// address in lower case.
pub open spec fn identity_key_spec(item: WebSearchSource) -> Seq<char> {
    let found = match regex_find_all(ISSN_PATTERN@, item.snippet@) {
        Some(m) => if m.len() > 0 { Some(m[0]) } else { None },
        None => None,
    };
    match found {
        Some(issn) => "issn:"@ + uppercase(issn),
        None => {
            let t = web_title_key(item.title@);
            if t.len() == 0 { lowercase(item.url@) } else { "journal:"@ + t }
        },
    }
}

/// The key that tells a found journal from others.
pub fn journal_identity_key(item: &WebSearchSource) -> (r: String)
    ensures
        r@ == identity_key_spec(*item),
{
    let found = find_all_matches(ISSN_PATTERN, item.snippet.as_str());
    match found {
        Some(m) => {
            if m.len() > 0 {
                let upper = to_uppercase(m[0].as_str());
                return cat("issn:", upper.as_str());
            }
        },
        None => {},
    }
    let t = normalize_title(item.title.as_str());
    if t.as_str().is_empty() {
        to_lowercase(item.url.as_str())
    } else {
        cat("journal:", t.as_str())
    }
}

/// The keys of titles the user has already seen, which later rounds skip.
pub open spec fn seen_titles(titles: Seq<Seq<char>>) -> Set<Seq<char>> {
    Set::new(|k: Seq<char>| exists|i: int| 0 <= i < titles.len()
        && web_title_key(#[trigger] titles[i]).len() > 0 && k == "journal:"@ + web_title_key(titles[i]))
}

/// The keys to skip from the start: those of the titles already shown.
pub fn initial_seen(exclude_titles: &Vec<String>) -> (r: Vec<String>)
    ensures
        views(r@).no_duplicates(),
        views(r@).to_set() == seen_titles(views(exclude_titles@)),
{
    let mut out: Vec<String> = Vec::new();
    assert(views(out@) =~= Seq::<Seq<char>>::empty());
    let ghost tv = views(exclude_titles@);
    let mut i: usize = 0;
    assert(views(out@).to_set() =~= seen_titles(tv.take(0)));
    while i < exclude_titles.len()
        invariant
            i <= exclude_titles@.len(),
            tv == views(exclude_titles@),
            views(out@).no_duplicates(),
            views(out@).to_set() == seen_titles(tv.take(i as int)),
        decreases exclude_titles@.len() - i,
    {
        let t = normalize_title(exclude_titles[i].as_str());
        proof {
            assert(tv[i as int] == exclude_titles@[i as int]@);
        }
        if !t.as_str().is_empty() {
            let key = cat("journal:", t.as_str());
            insert_unique(&mut out, key);
        }
        proof {
            let now = seen_titles(tv.take(i + 1));
            let was = seen_titles(tv.take(i as int));
            assert forall|x: Seq<char>| now.contains(x) <==> views(out@).to_set().contains(x) by {
                if now.contains(x) {
                    let w = choose|w: int| 0 <= w < tv.take(i + 1).len()
                        && web_title_key(#[trigger] tv.take(i + 1)[w]).len() > 0 && x == "journal:"@ + web_title_key(tv.take(i + 1)[w]);
                    if w < i {
                        assert(tv.take(i as int)[w] == tv.take(i + 1)[w]);
                        assert(was.contains(x));
                    }
                }
                if was.contains(x) {
                    let w = choose|w: int| 0 <= w < tv.take(i as int).len()
                        && web_title_key(#[trigger] tv.take(i as int)[w]).len() > 0 && x == "journal:"@ + web_title_key(tv.take(i as int)[w]);
                    assert(tv.take(i + 1)[w] == tv.take(i as int)[w]);
                }
                if web_title_key(tv[i as int]).len() > 0 && x == "journal:"@ + web_title_key(tv[i as int]) {
                    assert(tv.take(i + 1)[i as int] == tv[i as int]);
                }
            }
            assert(views(out@).to_set() =~= now);
        }
        i = i + 1;
    }
    assert(tv.take(i as int) =~= tv);
    out
}

/// One pass over found journals: each whose key is not seen yet is added
/// and its key marked, until eight journals are gathered.
pub open spec fn unique_pass(out: Seq<WebSearchSource>, seen: Set<Seq<char>>, items: Seq<WebSearchSource>) -> (Seq<WebSearchSource>, Set<Seq<char>>)
    decreases items.len(),
{
    if items.len() == 0 {
        (out, seen)
    } else {
        let k = identity_key_spec(items[0]);
        let out2 = if seen.contains(k) { out } else { out.push(items[0]) };
        let seen2 = seen.insert(k);
        if out2.len() >= 8 { (out2, seen2) } else { unique_pass(out2, seen2, items.drop_first()) }
    }
}

/// Whether the sources name distinct journals, each already marked seen.
pub open spec fn apart_and_seen(out: Seq<WebSearchSource>, seen: Set<Seq<char>>) -> bool {
    &&& forall|i: int, j: int| 0 <= i < j < out.len() ==> identity_key_spec(#[trigger] out[i]) != identity_key_spec(#[trigger] out[j])
    &&& forall|i: int| 0 <= i < out.len() ==> seen.contains(identity_key_spec(#[trigger] out[i]))
}

/// A search never lists one journal twice: when the sources so far name
/// distinct journals, all marked seen, a pass over new results keeps them
/// first and in order, adds only journals not seen before, and leaves the
/// list naming distinct journals, all marked seen.
pub proof fn unique_pass_keeps_journals_apart(out: Seq<WebSearchSource>, seen: Set<Seq<char>>, items: Seq<WebSearchSource>)
    requires
        apart_and_seen(out, seen),
    ensures
        apart_and_seen(unique_pass(out, seen, items).0, unique_pass(out, seen, items).1),
        unique_pass(out, seen, items).0.len() >= out.len(),
        unique_pass(out, seen, items).0.take(out.len() as int) == out,
    decreases items.len(),
{
    if items.len() > 0 {
        let k = identity_key_spec(items[0]);
        let out2 = if seen.contains(k) { out } else { out.push(items[0]) };
        let seen2 = seen.insert(k);
        assert(apart_and_seen(out2, seen2)) by {
            assert forall|i: int| 0 <= i < out2.len() implies seen2.contains(identity_key_spec(#[trigger] out2[i])) by {
                if i < out.len() {
                    assert(out2[i] == out[i]);
                }
            }
            assert forall|i: int, j: int| 0 <= i < j < out2.len() implies identity_key_spec(#[trigger] out2[i])
                != identity_key_spec(#[trigger] out2[j]) by {
                if j < out.len() {
                    assert(out2[i] == out[i] && out2[j] == out[j]);
                } else {
                    assert(out2[i] == out[i]);
                    assert(seen.contains(identity_key_spec(out[i])));
                }
            }
        }
        assert(out2.take(out.len() as int) =~= out);
        if out2.len() < 8 {
            unique_pass_keeps_journals_apart(out2, seen2, items.drop_first());
            let r = unique_pass(out2, seen2, items.drop_first()).0;
            assert(r.take(out.len() as int) =~= r.take(out2.len() as int).take(out.len() as int));
        }
    } else {
        assert(out.take(out.len() as int) =~= out);
    }
}

/// Adds the found journals not seen before, in order, until eight are
/// gathered; each one's key is marked as seen.
pub fn push_unique(out: &mut Vec<WebSearchSource>, seen: &mut Vec<String>, items: Vec<WebSearchSource>)
    requires
        views(old(seen)@).no_duplicates(),
    ensures
        views(final(seen)@).no_duplicates(),
        (final(out)@, views(final(seen)@).to_set()) == unique_pass(old(out)@, views(old(seen)@).to_set(), items@),
{
    let ghost result = unique_pass(out@, views(seen@).to_set(), items@);
    let ghost all = items@;
    let mut rest = items;
    let n = rest.len();
    let mut i: usize = 0;
    assert(all.skip(0) =~= all);
    while i < n
        invariant_except_break
            result == unique_pass(out@, views(seen@).to_set(), all.skip(i as int)),
        invariant
            n == all.len(),
            i <= n,
            rest@ == all.skip(i as int),
            views(seen@).no_duplicates(),
        ensures
            result == (out@, views(seen@).to_set()),
        decreases n - i,
    {
        let item = rest.remove(0);
        proof {
            assert(item == all[i as int]);
            assert(all.skip(i as int)[0] == all[i as int]);
            assert(all.skip(i as int).drop_first() =~= all.skip(i + 1));
            assert(rest@ =~= all.skip(i + 1));
        }
        let key = journal_identity_key(&item);
        let seen_already = crate::text::string_in(seen, key.as_str());
        proof {
            assert(views(seen@).contains(key@) <==> views(seen@).to_set().contains(key@));
        }
        insert_unique(seen, key);
        if !seen_already {
            out.push(item);
        }
        i = i + 1;
        if out.len() >= 8 {
            break;
        }
    }
    proof {
        if i == n {
            assert(all.skip(n as int).len() == 0);
        }
    }
}

/// The report of a search round: at most five journals; a note that web
/// results are only a reference, or, when none was found, why.
pub open spec fn round_warning(found_any: bool, errors: Seq<Seq<char>>) -> Seq<char> {
    if found_any {
        "联网补充结果仅作参考；分区、影响因子、收录情况和投稿要求必须以官网和数据库为准。"@
    } else if errors.len() == 0 {
        "联网搜索没有找到可用结果。"@
    } else {
        "联网搜索暂时不可用："@ + join_spec(if errors.len() <= 2 { errors } else { errors.take(2) }, "；"@)
    }
}

/// The report of a search round.
pub fn web_search_report(sources: Vec<WebSearchSource>, errors: &Vec<String>) -> (r: WebSearchReport)
    ensures
        r.sources@ == (if sources@.len() <= 5 { sources@ } else { sources@.take(5) }),
        r.warning matches Some(w) && w@ == round_warning(sources@.len() > 0, views(errors@)),
{
    let mut kept = sources;
    kept.truncate(5);
    let warning = if kept.len() > 0 {
        owned("联网补充结果仅作参考；分区、影响因子、收录情况和投稿要求必须以官网和数据库为准。")
    } else if errors.len() == 0 {
        owned("联网搜索没有找到可用结果。")
    } else {
        let mut first: Vec<String> = Vec::new();
        first.push(owned(errors[0].as_str()));
        if errors.len() > 1 {
            first.push(owned(errors[1].as_str()));
        }
        proof {
            let ev = views(errors@);
            assert(views(first@) =~= (if ev.len() <= 2 { ev } else { ev.take(2) }));
        }
        let joined = join(&first, "；");
        cat("联网搜索暂时不可用：", joined.as_str())
    };
    WebSearchReport { sources: kept, warning: Some(warning) }
}

/// The report when no query could be made.
pub fn no_query_report() -> (r: WebSearchReport)
    ensures
        r.sources@.len() == 0,
        r.warning matches Some(w) && w@ == "没有生成可用的联网搜索关键词。"@,
{
    WebSearchReport { sources: Vec::new(), warning: Some(owned("没有生成可用的联网搜索关键词。")) }
}


// ---------------------------------------------------------------------------
// Checking against the local catalogue
// ---------------------------------------------------------------------------

/// Whether a catalogue journal has one of the ISSN keys.
pub open spec fn issn_hit(j: JournalRecord, keys: Set<Seq<char>>) -> bool {
    keys.contains(issn_key(j.issn@)) || keys.contains(issn_key(j.eissn@))
}

/// The first catalogue journal, in order, that satisfies `hit`.
pub open spec fn first_hit(js: Seq<JournalRecord>, hit: spec_fn(JournalRecord) -> bool) -> Option<int>
    decreases js.len(),
{
    if js.len() == 0 {
        None
    } else {
        match first_hit(js.drop_last(), hit) {
            Some(k) => Some(k),
            None => if hit(js.last()) { Some(js.len() - 1) } else { None },
        }
    }
}

/// Whether a catalogue title matches a found title: both keys non-empty
/// and one holds the other.
pub open spec fn title_hit(j: JournalRecord, source_key: Seq<char>) -> bool {
    let local = web_title_key(j.name@);
    local.len() > 0 && (local == source_key || contains_spec(local, source_key) || contains_spec(source_key, local))
}

/// The catalogue journal a found journal is: the first sharing an ISSN
/// with its snippet, else the first whose title matches its title.
pub open spec fn local_match(js: Seq<JournalRecord>, source: WebSearchSource) -> Option<int> {
    let keys = extract_issns_spec(source.snippet@);
    let by_issn = if keys.len() > 0 { first_hit(js, |j: JournalRecord| issn_hit(j, keys)) } else { None };
    match by_issn {
        Some(k) => Some(k),
        None => {
            let st = web_title_key(source.title@);
            if st.len() == 0 { None } else { first_hit(js, |j: JournalRecord| title_hit(j, st)) }
        },
    }
}

proof fn lemma_first_hit_is_first(js: Seq<JournalRecord>, hit: spec_fn(JournalRecord) -> bool)
    ensures
        first_hit(js, hit) matches Some(k) ==> 0 <= k < js.len() && hit(js[k]) && forall|i: int| 0 <= i < k ==> !hit(#[trigger] js[i]),
        first_hit(js, hit) is None ==> forall|i: int| 0 <= i < js.len() ==> !hit(#[trigger] js[i]),
    decreases js.len(),
{
    if js.len() > 0 {
        lemma_first_hit_is_first(js.drop_last(), hit);
        assert forall|i: int| 0 <= i < js.len() - 1 implies js.drop_last()[i] == js[i] by {}
    }
}

proof fn lemma_issn_keys_finite(value: Seq<char>)
    ensures
        extract_issns_spec(value).finite(),
{
    match regex_find_all(ISSN_PATTERN@, value) {
        Some(m) => {
            let all = m.map_values(|s: Seq<char>| issn_key(s)).to_set();
            vstd::seq_lib::seq_to_set_is_finite(m.map_values(|s: Seq<char>| issn_key(s)));
            assert forall|k: Seq<char>| issn_keys_in(m).contains(k) implies all.contains(k) by {
                let w = choose|w: int| 0 <= w < m.len() && issn_key(#[trigger] m[w]) == k;
                assert(m.map_values(|s: Seq<char>| issn_key(s))[w] == k);
            }
            vstd::set_lib::lemma_len_subset(issn_keys_in(m), all);
        },
        None => {},
    }
}

/// A found journal is matched to the first catalogue journal that shares
/// an ISSN with its snippet; when none does (whether or not the snippet
/// names an ISSN) it is matched to the first catalogue journal whose title
/// matches its own, and to none only when no title matches.
pub proof fn local_match_prefers_issn_then_title(js: Seq<JournalRecord>, source: WebSearchSource)
    ensures
        ({
            let keys = extract_issns_spec(source.snippet@);
            let st = web_title_key(source.title@);
            &&& (exists|i: int| 0 <= i < js.len() && issn_hit(#[trigger] js[i], keys)) ==> (local_match(js, source) matches Some(k)
                && 0 <= k < js.len() && issn_hit(js[k], keys)
                && forall|i: int| 0 <= i < k ==> !issn_hit(#[trigger] js[i], keys))
            &&& (forall|i: int| 0 <= i < js.len() ==> !issn_hit(#[trigger] js[i], keys)) ==> (match local_match(js, source) {
                Some(k) => 0 <= k < js.len() && st.len() > 0 && title_hit(js[k], st)
                    && forall|i: int| 0 <= i < k ==> !title_hit(#[trigger] js[i], st),
                None => st.len() == 0 || forall|i: int| 0 <= i < js.len() ==> !title_hit(#[trigger] js[i], st),
            })
        }),
{
    let keys = extract_issns_spec(source.snippet@);
    let st = web_title_key(source.title@);
    let ih = |j: JournalRecord| issn_hit(j, keys);
    let th = |j: JournalRecord| title_hit(j, st);
    lemma_first_hit_is_first(js, ih);
    lemma_first_hit_is_first(js, th);
    lemma_issn_keys_finite(source.snippet@);
    if exists|i: int| 0 <= i < js.len() && issn_hit(#[trigger] js[i], keys) {
        let i = choose|i: int| 0 <= i < js.len() && issn_hit(#[trigger] js[i], keys);
        if keys.contains(issn_key(js[i].issn@)) {
            vstd::set::axiom_set_contains_len(keys, issn_key(js[i].issn@));
        } else {
            vstd::set::axiom_set_contains_len(keys, issn_key(js[i].eissn@));
        }
    }
}

proof fn lemma_first_hit_prefix(js: Seq<JournalRecord>, hit: spec_fn(JournalRecord) -> bool, k: int)
    requires
        0 <= k <= js.len(),
        first_hit(js.take(k), hit) is Some,
    ensures
        first_hit(js, hit) == first_hit(js.take(k), hit),
    decreases js.len() - k,
{
    if k < js.len() {
        assert(js.take(k + 1).drop_last() =~= js.take(k));
        lemma_first_hit_prefix(js, hit, k + 1);
    } else {
        assert(js.take(k) =~= js);
    }
}

proof fn lemma_first_hit_range(js: Seq<JournalRecord>, hit: spec_fn(JournalRecord) -> bool)
    ensures
        first_hit(js, hit) matches Some(k) ==> 0 <= k < js.len(),
    decreases js.len(),
{
    if js.len() > 0 {
        lemma_first_hit_range(js.drop_last(), hit);
    }
}

fn find_by_issn(catalogue: &Vec<JournalRecord>, keys: &Vec<String>) -> (r: Option<usize>)
    ensures
        match r {
            Some(k) => first_hit(catalogue@, |j: JournalRecord| issn_hit(j, views(keys@).to_set())) == Some(k as int),
            None => first_hit(catalogue@, |j: JournalRecord| issn_hit(j, views(keys@).to_set())) is None,
        },
{
    let ghost hit = |j: JournalRecord| issn_hit(j, views(keys@).to_set());
    let mut i: usize = 0;
    while i < catalogue.len()
        invariant
            i <= catalogue@.len(),
            hit == (|j: JournalRecord| issn_hit(j, views(keys@).to_set())),
            first_hit(catalogue@.take(i as int), hit) is None,
        decreases catalogue@.len() - i,
    {
        proof {
            assert(catalogue@.take(i + 1).drop_last() =~= catalogue@.take(i as int));
            assert(catalogue@.take(i + 1).last() == catalogue@[i as int]);
        }
        let a = normalize_issn(catalogue[i].issn.as_str());
        let b = normalize_issn(catalogue[i].eissn.as_str());
        let found = crate::text::string_in(keys, a.as_str()) || crate::text::string_in(keys, b.as_str());
        proof {
            assert(views(keys@).contains(a@) <==> views(keys@).to_set().contains(a@));
            assert(views(keys@).contains(b@) <==> views(keys@).to_set().contains(b@));
        }
        if found {
            proof {
                lemma_first_hit_prefix(catalogue@, hit, i as int + 1);
            }
            return Some(i);
        }
        i = i + 1;
    }
    assert(catalogue@.take(i as int) =~= catalogue@);
    None
}

fn find_by_title(catalogue: &Vec<JournalRecord>, source_key: &str) -> (r: Option<usize>)
    ensures
        match r {
            Some(k) => first_hit(catalogue@, |j: JournalRecord| title_hit(j, source_key@)) == Some(k as int),
            None => first_hit(catalogue@, |j: JournalRecord| title_hit(j, source_key@)) is None,
        },
{
    let ghost hit = |j: JournalRecord| title_hit(j, source_key@);
    let mut i: usize = 0;
    while i < catalogue.len()
        invariant
            i <= catalogue@.len(),
            hit == (|j: JournalRecord| title_hit(j, source_key@)),
            first_hit(catalogue@.take(i as int), hit) is None,
        decreases catalogue@.len() - i,
    {
        proof {
            assert(catalogue@.take(i + 1).drop_last() =~= catalogue@.take(i as int));
            assert(catalogue@.take(i + 1).last() == catalogue@[i as int]);
        }
        let local = normalize_title(catalogue[i].name.as_str());
        let found = !local.as_str().is_empty()
            && (str_eq(local.as_str(), source_key) || contains(local.as_str(), source_key) || contains(source_key, local.as_str()));
        if found {
            proof {
                lemma_first_hit_prefix(catalogue@, hit, i as int + 1);
            }
            return Some(i);
        }
        i = i + 1;
    }
    assert(catalogue@.take(i as int) =~= catalogue@);
    None
}

/// The catalogue journal that a found journal is, by position.
pub fn match_local_journal(catalogue: &Vec<JournalRecord>, source: &WebSearchSource) -> (r: Option<usize>)
    ensures
        match r {
            Some(k) => local_match(catalogue@, *source) == Some(k as int) && k < catalogue@.len(),
            None => local_match(catalogue@, *source) is None,
        },
{
    let keys = extract_issns(source.snippet.as_str());
    proof {
        views(keys@).unique_seq_to_set();
        lemma_first_hit_range(catalogue@, |j: JournalRecord| issn_hit(j, views(keys@).to_set()));
        lemma_first_hit_range(catalogue@, |j: JournalRecord| title_hit(j, web_title_key(source.title@)));
    }
    if keys.len() > 0 {
        match find_by_issn(catalogue, &keys) {
            Some(k) => return Some(k),
            None => {},
        }
    }
    let st = normalize_title(source.title.as_str());
    if st.as_str().is_empty() {
        return None;
    }
    find_by_title(catalogue, st.as_str())
}

/// The quartiles asked for: trimmed and upper-cased, blanks dropped, each
/// once, in the order given.
pub open spec fn wanted_quartiles(targets: Seq<Seq<char>>) -> Seq<Seq<char>>
    decreases targets.len(),
{
    if targets.len() == 0 {
        seq![]
    } else {
        let earlier = wanted_quartiles(targets.drop_last());
        let t = uppercase(trim_spec(targets.last()));
        if is_blank_spec(targets.last()) || earlier.contains(t) { earlier } else { earlier.push(t) }
    }
}

/// Whether a catalogue quartile satisfies one of the wanted ones: its
/// trimmed, upper-cased text holds one.
pub open spec fn quartile_ok(jif: Seq<char>, wanted: Seq<Seq<char>>) -> bool {
    exists|k: int| 0 <= k < wanted.len() && contains_spec(uppercase(trim_spec(jif)), #[trigger] wanted[k])
}

/// The plain values of a found journal.
pub open spec fn source_view(s: WebSearchSource) -> (Seq<char>, Seq<char>, Seq<char>, Seq<char>, Seq<char>, Seq<char>) {
    (s.provider@, s.query@, s.title@, s.url@, s.snippet@, s.jif_quartile@)
}

/// The found journals that the catalogue vouches for, each with the
/// catalogue's quartile and a note of it in the snippet.
pub open spec fn vouched(js: Seq<JournalRecord>, wanted: Seq<Seq<char>>, sources: Seq<WebSearchSource>)
    -> Seq<(Seq<char>, Seq<char>, Seq<char>, Seq<char>, Seq<char>, Seq<char>)>
    decreases sources.len(),
{
    if sources.len() == 0 {
        seq![]
    } else {
        let earlier = vouched(js, wanted, sources.drop_last());
        let s = sources.last();
        match local_match(js, s) {
            Some(k) => if quartile_ok(js[k].jif_quartile@, wanted) {
                earlier.push((s.provider@, s.query@, s.title@, s.url@,
                    s.snippet@ + "；本地库核验 JIF 分区："@ + js[k].jif_quartile@, js[k].jif_quartile@))
            } else {
                earlier
            },
            None => earlier,
        }
    }
}

/// The warning shown after filtering by quartile.
pub open spec fn quartile_warning(any_left: bool, wanted: Seq<Seq<char>>) -> Seq<char> {
    let t = join_spec(wanted, " / "@);
    if any_left {
        "联网补充结果仅作参考；Crossref 不提供 JIF 分区，本次已按本地 SQLite 核验为 "@ + t + " 后再展示，影响因子、收录情况和投稿要求仍需人工核验。"@
    } else {
        "联网补充找到了 Crossref 记录，但本地库无法核验为 "@ + t + " 分区，所以没有展示。可切换分区、取消分区筛选，或先导入/补全该期刊分区数据。"@
    }
}

fn wanted_list(targets: &Vec<String>) -> (r: Vec<String>)
    ensures
        views(r@) == wanted_quartiles(views(targets@)),
{
    let mut out: Vec<String> = Vec::new();
    let mut i: usize = 0;
    while i < targets.len()
        invariant
            i <= targets@.len(),
            views(out@) == wanted_quartiles(views(targets@).take(i as int)),
        decreases targets@.len() - i,
    {
        proof {
            assert(views(targets@).take(i + 1).drop_last() =~= views(targets@).take(i as int));
            assert(views(targets@).take(i + 1).last() == targets@[i as int]@);
        }
        if !is_blank(targets[i].as_str()) {
            let t = to_uppercase(trim(targets[i].as_str()).as_str());
            if !crate::text::string_in(&out, t.as_str()) {
                let ghost before = views(out@);
                out.push(t);
                assert(views(out@) =~= before.push(t@));
            }
        }
        i = i + 1;
    }
    assert(views(targets@).take(i as int) =~= views(targets@));
    out
}

fn quartile_fits(jif: &str, wanted: &Vec<String>) -> (r: bool)
    ensures
        r == quartile_ok(jif@, views(wanted@)),
{
    let upper = to_uppercase(trim(jif).as_str());
    let mut k: usize = 0;
    while k < wanted.len()
        invariant
            k <= wanted@.len(),
            upper@ == uppercase(trim_spec(jif@)),
            forall|m: int| 0 <= m < k ==> !contains_spec(upper@, #[trigger] views(wanted@)[m]),
        decreases wanted@.len() - k,
    {
        if contains(upper.as_str(), wanted[k].as_str()) {
            assert(views(wanted@)[k as int] == wanted@[k as int]@);
            return true;
        }
        assert(views(wanted@)[k as int] == wanted@[k as int]@);
        k = k + 1;
    }
    false
}

/// Keeps the found journals whose quartile the local catalogue confirms
/// as one asked for. With nothing asked for, or nothing found, the report
/// is returned unchanged. The quartiles named in the warning come in the
/// order asked.
pub fn filter_sources_by_jif_quartiles(catalogue: &Vec<JournalRecord>, report: WebSearchReport, target_jif_quartiles: &Vec<String>) -> (r: WebSearchReport)
    ensures
        wanted_quartiles(views(target_jif_quartiles@)).len() == 0 || report.sources@.len() == 0 ==> r == report,
        wanted_quartiles(views(target_jif_quartiles@)).len() > 0 && report.sources@.len() > 0 ==> {
            &&& r.sources@.map_values(|s: WebSearchSource| source_view(s))
                == vouched(catalogue@, wanted_quartiles(views(target_jif_quartiles@)), report.sources@)
            &&& r.warning matches Some(w) && w@ == quartile_warning(r.sources@.len() > 0, wanted_quartiles(views(target_jif_quartiles@)))
        },
{
    let wanted = wanted_list(target_jif_quartiles);
    if wanted.len() == 0 || report.sources.len() == 0 {
        return report;
    }
    let ghost all = report.sources@;
    let ghost wv = views(wanted@);
    let mut rest = report.sources;
    let n = rest.len();
    let mut kept: Vec<WebSearchSource> = Vec::new();
    let mut i: usize = 0;
    assert(all.skip(0) =~= all);
    while i < n
        invariant
            n == all.len(),
            i <= n,
            rest@ == all.skip(i as int),
            wv == views(wanted@),
            kept@.map_values(|s: WebSearchSource| source_view(s)) == vouched(catalogue@, wv, all.take(i as int)),
        decreases n - i,
    {
        let source = rest.remove(0);
        proof {
            assert(source == all[i as int]);
            assert(rest@ =~= all.skip(i + 1));
            assert(all.take(i + 1).drop_last() =~= all.take(i as int));
            assert(all.take(i + 1).last() == source);
        }
        match match_local_journal(catalogue, &source) {
            Some(k) => {
                let j = &catalogue[k];
                if quartile_fits(j.jif_quartile.as_str(), &wanted) {
                    let mut snippet = cat(source.snippet.as_str(), "；本地库核验 JIF 分区：");
                    append(&mut snippet, j.jif_quartile.as_str());
                    let s2 = WebSearchSource {
                        provider: source.provider,
                        query: source.query,
                        title: source.title,
                        url: source.url,
                        snippet,
                        jif_quartile: owned(j.jif_quartile.as_str()),
                    };
                    let ghost before = kept@.map_values(|s: WebSearchSource| source_view(s));
                    kept.push(s2);
                    assert(kept@.map_values(|s: WebSearchSource| source_view(s)) =~= before.push(source_view(s2)));
                }
            },
            None => {},
        }
        i = i + 1;
    }
    assert(all.take(i as int) =~= all);
    let target_text = join(&wanted, " / ");
    let warning = if kept.len() == 0 {
        let mut w = cat("联网补充找到了 Crossref 记录，但本地库无法核验为 ", target_text.as_str());
        append(&mut w, " 分区，所以没有展示。可切换分区、取消分区筛选，或先导入/补全该期刊分区数据。");
        w
    } else {
        let mut w = cat("联网补充结果仅作参考；Crossref 不提供 JIF 分区，本次已按本地 SQLite 核验为 ", target_text.as_str());
        append(&mut w, " 后再展示，影响因子、收录情况和投稿要求仍需人工核验。");
        w
    };
    WebSearchReport { sources: kept, warning: Some(warning) }
}

// ---------------------------------------------------------------------------
// Cleaning what search pages return
// ---------------------------------------------------------------------------

/// The HTML entities search pages use, decoded one after the other.
pub open spec fn unescape_spec(v: Seq<char>) -> Seq<char> {
    replace_spec(
        replace_spec(replace_spec(replace_spec(replace_spec(v, "&amp;"@, "&"@), "&quot;"@, "\""@), "&#39;"@, "'"@), "&lt;"@, "<"@),
        "&gt;"@,
        ">"@,
    )
}

/// Decodes `&amp;`, `&quot;`, `&#39;`, `&lt;` and `&gt;`.
pub fn html_unescape(value: &str) -> (r: String)
    ensures
        r@ == unescape_spec(value@),
{
    proof {
        reveal_strlit("&amp;");
        reveal_strlit("&quot;");
        reveal_strlit("&#39;");
        reveal_strlit("&lt;");
        reveal_strlit("&gt;");
    }
    let a = replace(value, "&amp;", "&");
    let b = replace(a.as_str(), "&quot;", "\"");
    let c = replace(b.as_str(), "&#39;", "'");
    let d = replace(c.as_str(), "&lt;", "<");
    replace(d.as_str(), "&gt;", ">")
}

/// Any tag of a search page.
pub const SEARCH_TAG_PATTERN: &'static str = "(?is)<[^>]+>";

/// The text of a piece of a search page: tags become spaces, entities are
/// decoded, words are joined by single spaces.
pub open spec fn strip_html_spec(v: Seq<char>) -> Seq<char> {
    let without_tags = or_keep(regex_replace_all(SEARCH_TAG_PATTERN@, v, " "@), v);
    join_spec(ws_words(unescape_spec(without_tags)), " "@)
}

/// The text of a piece of a search page.
pub fn strip_html(value: &str) -> (r: String)
    ensures
        r@ == strip_html_spec(value@),
{
    let without_tags = replace_pattern(SEARCH_TAG_PATTERN, value, " ");
    let decoded = html_unescape(without_tags.as_str());
    let words = split_whitespace(decoded.as_str());
    join(&words, " ")
}

/// The value of a hexadecimal digit.
pub open spec fn hex_digit(b: u8) -> Option<u8> {
    if 48 <= b <= 57 {
        Some((b - 48) as u8)
    } else if 97 <= b <= 102 {
        Some((b - 87) as u8)
    } else if 65 <= b <= 70 {
        Some((b - 55) as u8)
    } else {
        None
    }
}

/// What `u8::from_str_radix` with radix 16 makes of the two characters
/// after a `%`: two hexadecimal digits, or a `+` sign and one digit.
pub open spec fn escaped_byte(hi: u8, lo: u8) -> Option<u8> {
    match (hex_digit(hi), hex_digit(lo)) {
        (Some(h), Some(l)) => Some((h * 16 + l) as u8),
        (None, Some(l)) => if hi == 43 { Some(l) } else { None },
        _ => None,
    }
}

/// Percent-decoding as search links need it: `%` and two characters that
/// parse as a hexadecimal byte stand for that byte; a `%` whose two
/// following bytes do not is kept and they are dropped; every other byte is
/// kept; each byte becomes the character with that number.
pub open spec fn percent_decode_spec(b: Seq<u8>) -> Seq<char>
    decreases b.len(),
{
    if b.len() == 0 {
        seq![]
    } else if b[0] == 37 {
        if b.len() < 3 {
            seq!['%']
        } else {
            match escaped_byte(b[1], b[2]) {
                Some(v) => seq![(v as u32) as char] + percent_decode_spec(b.skip(3)),
                None => seq!['%'] + percent_decode_spec(b.skip(3)),
            }
        }
    } else {
        seq![(b[0] as u32) as char] + percent_decode_spec(b.skip(1))
    }
}

fn hex_value(b: u8) -> (r: Option<u8>)
    ensures
        r == hex_digit(b),
{
    if 48 <= b && b <= 57 {
        Some(b - 48)
    } else if 97 <= b && b <= 102 {
        Some(b - 87)
    } else if 65 <= b && b <= 70 {
        Some(b - 55)
    } else {
        None
    }
}

fn parse_escape(hi: u8, lo: u8) -> (r: Option<u8>)
    ensures
        r == escaped_byte(hi, lo),
{
    match (hex_value(hi), hex_value(lo)) {
        (Some(h), Some(l)) => Some(h * 16 + l),
        (None, Some(l)) => if hi == 43 { Some(l) } else { None },
        _ => None,
    }
}

/// Percent-decodes the bytes of a text.
pub fn percent_decode(value: &str) -> (r: String)
    ensures
        r@ == percent_decode_spec(vstd::utf8::encode_utf8(value@)),
{
    let bytes = value.as_bytes();
    let ghost b = bytes@;
    let n = bytes.len();
    let mut out = String::new();
    let mut i: usize = 0;
    assert(b.skip(0) =~= b);
    while i < n
        invariant
            n == b.len(),
            b == bytes@,
            i <= n,
            out@ + percent_decode_spec(b.skip(i as int)) == percent_decode_spec(b),
        decreases n - i,
    {
        let byte = bytes[i];
        let ghost rest = b.skip(i as int);
        assert(rest[0] == byte);
        if byte == 37 {
            if n - i < 3 {
                proof {
                    assert(out@.push('%') + percent_decode_spec(b.skip(n as int)) =~= out@ + percent_decode_spec(rest));
                }
                push_char(&mut out, '%');
                i = n;
            } else {
                let hi = bytes[i + 1];
                let lo = bytes[i + 2];
                proof {
                    assert(rest[1] == hi && rest[2] == lo);
                    assert(rest.skip(3) =~= b.skip(i + 3));
                }
                match parse_escape(hi, lo) {
                    Some(v) => {
                        proof {
                            assert(out@.push((v as u32) as char) + percent_decode_spec(b.skip(i + 3))
                                =~= out@ + percent_decode_spec(rest));
                        }
                        push_char(&mut out, v as char);
                    },
                    None => {
                        proof {
                            assert(out@.push('%') + percent_decode_spec(b.skip(i + 3)) =~= out@ + percent_decode_spec(rest));
                        }
                        push_char(&mut out, '%');
                    },
                }
                i = i + 3;
            }
        } else {
            proof {
                assert(rest.skip(1) =~= b.skip(i + 1));
                assert(out@.push((byte as u32) as char) + percent_decode_spec(b.skip(i + 1))
                    =~= out@ + percent_decode_spec(rest));
            }
            push_char(&mut out, byte as char);
            i = i + 1;
        }
    }
    assert(b.skip(n as int).len() == 0);
    assert(out@ + percent_decode_spec(b.skip(n as int)) =~= out@);
    out
}

/// The characters before the first `&` (the first piece of
/// `split('&')`).
pub open spec fn before_amp(s: Seq<char>) -> Seq<char> {
    match seq_find(s, seq!['&']) {
        Some(k) => s.take(k),
        None => s,
    }
}

/// The target of a DuckDuckGo result link: entities decoded; the decoded
/// `uddg=` parameter when there is one; else the link, given `https:` when
/// it starts with `//`.
pub open spec fn duckduckgo_target(value: Seq<char>) -> Seq<char> {
    let href = unescape_spec(value);
    match seq_find(href, "uddg="@) {
        Some(k) => percent_decode_spec(vstd::utf8::encode_utf8(before_amp(href.skip(k + 5)))),
        None => if starts_with_spec(href, "//"@) { "https:"@ + href } else { href },
    }
}

/// The target of a DuckDuckGo result link.
#[verifier::spinoff_prover]
pub fn unwrap_duckduckgo_url(value: &str) -> (r: String)
    ensures
        r@ == duckduckgo_target(value@),
{
    let href = html_unescape(value);
    match find_str(href.as_str(), "uddg=") {
        Some(k) => {
            proof {
                reveal_strlit("uddg=");
                crate::text::lemma_seq_find_from_found(href@, "uddg="@, 0);
                assert("uddg="@ =~= seq!['u', 'd', 'd', 'g', '=']);
            }
            let cs = chars_of(href.as_str());
            assert(k + 5 <= cs@.len());
            assert(cs@.len() == cs.len());
            let start = k + 5;
            let tail = crate::text::string_of_range(&cs, start, cs.len());
            assert(tail@ =~= href@.skip(start as int));
            let encoded = match find_str(tail.as_str(), "&") {
                Some(a) => {
                    proof {
                        crate::text::lemma_seq_find_from_found(tail@, "&"@, 0);
                    }
                    let ts = chars_of(tail.as_str());
                    crate::text::string_of_range(&ts, 0, a)
                },
                None => owned(tail.as_str()),
            };
            proof {
                reveal_strlit("&");
                assert("&"@ =~= seq!['&']);
            }
            assert(encoded@ =~= before_amp(href@.skip(start as int)));
            percent_decode(encoded.as_str())
        },
        None => {
            if starts_with(href.as_str(), "//") {
                cat("https:", href.as_str())
            } else {
                href
            }
        },
    }
}

/// How many generated queries one search round sends at most.
pub const QUERIES_PER_ROUND: usize = 3;

/// Whether a search round sends its next query: while fewer than five
/// sources were found.
pub fn wants_more_sources(found: usize) -> (r: bool)
    ensures
        r == (found < 5),
{
    found < 5
}

/// The error noted when a Crossref query fails.
pub fn crossref_error(query: &str, error: &str) -> (r: String)
    ensures
        r@ == "Crossref / "@ + query@ + "："@ + error@,
{
    let mut e = cat("Crossref / ", query);
    append(&mut e, "：");
    append(&mut e, error);
    e
}

// ---------------------------------------------------------------------------
// Crossref works
// ---------------------------------------------------------------------------

/// What a Crossref work record says that the search reads: its type, the
/// first container title, the first article title, its ISSNs and its URL
/// (absent values read as empty).
#[derive(Clone, Debug)]
pub struct CrossrefWork {
    pub work_type: Option<String>,
    pub container_title: String,
    pub title: String,
    pub issns: Vec<String>,
    pub url: String,
}

/// Whether a work names a journal: it is a journal article with a
/// container title.
pub open spec fn names_journal(w: CrossrefWork) -> bool {
    (match w.work_type {
        Some(t) => t@ == "journal-article"@,
        None => false,
    }) && !is_blank_spec(w.container_title@)
}

/// The source a work yields for `query`.
pub open spec fn work_source_ok(s: WebSearchSource, w: CrossrefWork, query: Seq<char>) -> bool {
    &&& s.provider@ == "Crossref"@
    &&& s.query@ == query
    &&& s.title@ == w.container_title@
    &&& s.url@ == w.url@
    &&& s.snippet@ == "相关论文："@ + w.title@ + "；ISSN："@ + join_spec(views(w.issns@), ", "@)
    &&& s.jif_quartile@.len() == 0
}

/// The works among `works` that name a journal.
pub open spec fn journal_works(works: Seq<CrossrefWork>) -> Seq<CrossrefWork> {
    works.filter(|w: CrossrefWork| names_journal(w))
}

/// Filtering a prefix gives a prefix of the filtered whole.
proof fn lemma_filter_prefix<A>(s: Seq<A>, p: spec_fn(A) -> bool, k: int)
    requires
        0 <= k <= s.len(),
    ensures
        s.take(k).filter(p).len() <= s.filter(p).len(),
        forall|j: int| 0 <= j < s.take(k).filter(p).len() ==> s.filter(p)[j] == #[trigger] s.take(k).filter(p)[j],
    decreases s.len() - k,
{
    if k == s.len() {
        assert(s.take(k) =~= s);
    } else {
        lemma_filter_prefix(s, p, k + 1);
        let a = s.take(k);
        let b = s.take(k + 1);
        assert(b.drop_last() =~= a);
        assert(b.last() == s[k]);
        assert(b.filter(p) == (if p(s[k]) { a.filter(p).push(s[k]) } else { a.filter(p) })) by {
            reveal(Seq::filter);
        }
        assert forall|j: int| 0 <= j < a.filter(p).len() implies s.filter(p)[j] == #[trigger] a.filter(p)[j] by {
            assert(b.filter(p)[j] == a.filter(p)[j]);
        }
    }
}

/// The sources of a Crossref search for `query`: one for each of the first
/// eight works that name a journal, in order.
pub fn crossref_sources(query: &str, works: &Vec<CrossrefWork>) -> (r: Vec<WebSearchSource>)
    ensures
        r@.len() == (if journal_works(works@).len() <= 8 { journal_works(works@).len() } else { 8 }),
        forall|k: int| 0 <= k < r@.len() ==> work_source_ok(#[trigger] r@[k], journal_works(works@)[k], query@),
{
    let ghost pred = |w: CrossrefWork| names_journal(w);
    let mut out: Vec<WebSearchSource> = Vec::new();
    let mut i: usize = 0;
    assert(works@.take(0).filter(pred) =~= Seq::<CrossrefWork>::empty()) by {
        reveal(Seq::filter);
    }
    while i < works.len() && out.len() < 8
        invariant
            i <= works@.len(),
            pred == (|w: CrossrefWork| names_journal(w)),
            out@.len() <= 8,
            out@.len() == works@.take(i as int).filter(pred).len(),
            forall|k: int| 0 <= k < out@.len() ==> work_source_ok(#[trigger] out@[k], works@.take(i as int).filter(pred)[k], query@),
        decreases works@.len() - i,
    {
        let w = &works[i];
        proof {
            assert(works@.take(i as int + 1).drop_last() =~= works@.take(i as int));
            assert(works@.take(i as int + 1).last() == works@[i as int]);
            reveal(Seq::filter);
        }
        let is_article = match &w.work_type {
            Some(t) => crate::text::str_eq(t.as_str(), "journal-article"),
            None => false,
        };
        if is_article && !is_blank(w.container_title.as_str()) {
            let mut snippet = cat("相关论文：", w.title.as_str());
            append(&mut snippet, "；ISSN：");
            let issns = join(&w.issns, ", ");
            append(&mut snippet, issns.as_str());
            out.push(WebSearchSource {
                provider: owned("Crossref"),
                query: owned(query),
                title: owned(w.container_title.as_str()),
                url: owned(w.url.as_str()),
                snippet,
                jif_quartile: String::new(),
            });
        }
        i = i + 1;
    }
    proof {
        lemma_filter_prefix(works@, pred, i as int);
        if out@.len() < 8 {
            assert(works@.take(i as int) =~= works@);
        } else {
            works@.take(i as int).lemma_filter_len(pred);
        }
    }
    out
}

// ---------------------------------------------------------------------------
// Bing result pages
// ---------------------------------------------------------------------------

/// A Bing result item: its link, its title and, when present, its snippet.
pub const BING_RESULT_PATTERN: &'static str = "(?is)<li\\b[^>]*class=\"[^\"]*\\bb_algo\\b[^\"]*\"[^>]*>.*?<h2[^>]*>\\s*<a\\b[^>]*href=\"([^\"]+)\"[^>]*>(.*?)</a>(?:.*?<p[^>]*>(.*?)</p>)?.*?</li>";

/// The text of group `i` of a match, empty when the group took no part.
pub open spec fn group_text(c: Seq<Option<Seq<char>>>, i: int) -> Seq<char> {
    if 0 <= i < c.len() {
        match c[i] {
            Some(t) => t,
            None => seq![],
        }
    } else {
        seq![]
    }
}

/// The link of a Bing result.
pub open spec fn bing_url(c: Seq<Option<Seq<char>>>) -> Seq<char> {
    unescape_spec(group_text(c, 1))
}

/// The title of a Bing result.
pub open spec fn bing_title(c: Seq<Option<Seq<char>>>) -> Seq<char> {
    strip_html_spec(group_text(c, 2))
}

/// Whether a Bing result is kept: it has a link and a title, and the link
/// is not another Bing search.
pub open spec fn bing_kept(c: Seq<Option<Seq<char>>>) -> bool {
    bing_url(c).len() > 0 && bing_title(c).len() > 0 && !contains_spec(bing_url(c), "bing.com/search"@)
}

/// The source a kept Bing result yields for `query`.
pub open spec fn bing_source_ok(s: WebSearchSource, c: Seq<Option<Seq<char>>>, query: Seq<char>) -> bool {
    &&& s.provider@ == "Bing"@
    &&& s.query@ == query
    &&& s.title@ == bing_title(c)
    &&& s.url@ == bing_url(c)
    &&& s.snippet@ == strip_html_spec(group_text(c, 3))
    &&& s.jif_quartile@.len() == 0
}

/// The kept results among the matches of a Bing page.
pub open spec fn bing_results(page: Seq<Seq<Option<Seq<char>>>>) -> Seq<Seq<Option<Seq<char>>>> {
    page.filter(|c: Seq<Option<Seq<char>>>| bing_kept(c))
}

fn group_or_empty(c: &Vec<Option<String>>, i: usize) -> (r: String)
    ensures
        r@ == group_text(groups_view(*c), i as int),
{
    if i < c.len() {
        match &c[i] {
            Some(t) => owned(t.as_str()),
            None => String::new(),
        }
    } else {
        String::new()
    }
}

/// The sources on a Bing result page for `query`: one for each of the
/// first eight kept results, in page order; none when the result pattern
/// yields nothing.
pub fn parse_bing_results(html: &str, query: &str) -> (r: Vec<WebSearchSource>)
    ensures
        regex_captures_all(BING_RESULT_PATTERN@, html@) is None ==> r@.len() == 0,
        regex_captures_all(BING_RESULT_PATTERN@, html@) matches Some(page) ==> {
            &&& r@.len() == (if bing_results(page).len() <= 8 { bing_results(page).len() } else { 8 })
            &&& forall|k: int| 0 <= k < r@.len() ==> bing_source_ok(#[trigger] r@[k], bing_results(page)[k], query@)
        },
{
    let mut out: Vec<WebSearchSource> = Vec::new();
    let page = match captures_all(BING_RESULT_PATTERN, html) {
        Some(p) => p,
        None => return out,
    };
    let ghost pv = page@.map_values(|g: Vec<Option<String>>| groups_view(g));
    let ghost pred = |c: Seq<Option<Seq<char>>>| bing_kept(c);
    let mut i: usize = 0;
    assert(pv.take(0).filter(pred) =~= Seq::<Seq<Option<Seq<char>>>>::empty()) by {
        reveal(Seq::filter);
    }
    while i < page.len() && out.len() < 8
        invariant
            i <= page@.len(),
            pv == page@.map_values(|g: Vec<Option<String>>| groups_view(g)),
            pred == (|c: Seq<Option<Seq<char>>>| bing_kept(c)),
            out@.len() <= 8,
            out@.len() == pv.take(i as int).filter(pred).len(),
            forall|k: int| 0 <= k < out@.len() ==> bing_source_ok(#[trigger] out@[k], pv.take(i as int).filter(pred)[k], query@),
        decreases page@.len() - i,
    {
        let c = &page[i];
        proof {
            assert(pv.take(i as int + 1).drop_last() =~= pv.take(i as int));
            assert(pv.take(i as int + 1).last() == groups_view(*c));
            reveal(Seq::filter);
        }
        let url = html_unescape(group_or_empty(c, 1).as_str());
        let title = strip_html(group_or_empty(c, 2).as_str());
        if !url.as_str().is_empty() && !title.as_str().is_empty() && !contains(url.as_str(), "bing.com/search") {
            let snippet = strip_html(group_or_empty(c, 3).as_str());
            out.push(WebSearchSource {
                provider: owned("Bing"),
                query: owned(query),
                title,
                url,
                snippet,
                jif_quartile: String::new(),
            });
        }
        i = i + 1;
    }
    proof {
        lemma_filter_prefix(pv, pred, i as int);
        if out@.len() < 8 {
            assert(pv.take(i as int) =~= pv);
        } else {
            pv.take(i as int).lemma_filter_len(pred);
        }
    }
    out
}

} // verus!
