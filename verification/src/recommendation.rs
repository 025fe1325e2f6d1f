//! Recommendation rules: how much the user has told us, which search terms a
//! manuscript yields, which subject areas it belongs to, which catalogue
//! journals stay in play and how the rule-based part of their score is made.
use vstd::prelude::*;
use crate::journal_store::JournalRecord;
use crate::text::{
    append, cat, chars_of, labelled_part, push_labelled, contains, contains_spec, insert_unique, is_blank, is_blank_spec,
    is_cjk, lowercase, owned, split_words, string_of_range, str_in, strs, to_lowercase, trim, utf8_len_at_least,
    trim_spec, utf8_len, views, word_pieces,
};

verus! {

// ---------------------------------------------------------------------------
// Input quality
// ---------------------------------------------------------------------------

/// Whether the input is enough to recommend, and what to tell the user.
#[derive(Clone, Debug)]
pub struct InputQuality {
    pub can_recommend: bool,
    pub low_info: bool,
    pub filled_fields: usize,
    pub message: String,
}

/// 1 when the field holds something other than whitespace.
pub open spec fn filled(s: Seq<char>) -> nat {
    if is_blank_spec(s) { 0 } else { 1 }
}

/// How many of the four manuscript fields are filled in.
pub open spec fn filled_count(t: Seq<char>, a: Seq<char>, k: Seq<char>, f: Seq<char>) -> nat {
    filled(t) + filled(a) + filled(k) + filled(f)
}

/// Every one of the four manuscript fields counts alike: the count is zero
/// exactly when all four are blank, and filling in any one blank field (the
/// full text included) raises it by one; it is never more than four.
pub proof fn every_filled_field_counts(t: Seq<char>, a: Seq<char>, k: Seq<char>, f: Seq<char>, x: Seq<char>)
    requires
        !is_blank_spec(x),
    ensures
        (filled_count(t, a, k, f) == 0) <==> (is_blank_spec(t) && is_blank_spec(a) && is_blank_spec(k) && is_blank_spec(f)),
        filled_count(t, a, k, f) <= 4,
        is_blank_spec(t) ==> filled_count(x, a, k, f) == filled_count(t, a, k, f) + 1,
        is_blank_spec(a) ==> filled_count(t, x, k, f) == filled_count(t, a, k, f) + 1,
        is_blank_spec(k) ==> filled_count(t, a, x, f) == filled_count(t, a, k, f) + 1,
        is_blank_spec(f) ==> filled_count(t, a, k, x) == filled_count(t, a, k, f) + 1,
{
}

/// The message shown for a given number of filled fields.
pub open spec fn quality_message(n: nat) -> Seq<char> {
    if n == 0 {
        "请至少填写题目、摘要、关键词，或上传全文附件后再推荐。"@
    } else if n == 1 {
        "当前信息较少，推荐可能不够准确。建议补充摘要、关键词或上传全文后再推荐。"@
    } else if n == 2 {
        "当前信息可以推荐；补充更多内容会更准。"@
    } else {
        "当前信息较完整，可以开始推荐。"@
    }
}

/// Judges whether title, abstract, keywords and full text are enough to
/// recommend: nothing filled refuses, a single field recommends with a
/// low-information warning.
pub fn assess_input_quality(title: &str, abstract_text: &str, keywords: &str, full_text: &str) -> (r: InputQuality)
    ensures
        r.filled_fields == filled_count(title@, abstract_text@, keywords@, full_text@),
        r.can_recommend == (r.filled_fields > 0),
        r.low_info == (r.filled_fields == 1),
        r.message@ == quality_message(r.filled_fields as nat),
{
    let mut n: usize = 0;
    if !is_blank(title) {
        n = n + 1;
    }
    if !is_blank(abstract_text) {
        n = n + 1;
    }
    if !is_blank(keywords) {
        n = n + 1;
    }
    if !is_blank(full_text) {
        n = n + 1;
    }
    if n == 0 {
        InputQuality {
            can_recommend: false,
            low_info: false,
            filled_fields: n,
            message: owned("请至少填写题目、摘要、关键词，或上传全文附件后再推荐。"),
        }
    } else if n == 1 {
        InputQuality {
            can_recommend: true,
            low_info: true,
            filled_fields: n,
            message: owned("当前信息较少，推荐可能不够准确。建议补充摘要、关键词或上传全文后再推荐。"),
        }
    } else if n == 2 {
        InputQuality {
            can_recommend: true,
            low_info: false,
            filled_fields: n,
            message: owned("当前信息可以推荐；补充更多内容会更准。"),
        }
    } else {
        InputQuality {
            can_recommend: true,
            low_info: false,
            filled_fields: n,
            message: owned("当前信息较完整，可以开始推荐。"),
        }
    }
}

// ---------------------------------------------------------------------------
// The request
// ---------------------------------------------------------------------------

/// What the user asks a recommendation for.
#[derive(Clone, Debug)]
pub struct RecommendationRequest {
    pub title: String,
    pub abstract_text: String,
    pub keywords: String,
    pub full_text: String,
    pub preferences: Vec<String>,
    pub journal_type: String,
    pub target_zone: String,
    pub target_jif_quartiles: Vec<String>,
    pub strategy: String,
    pub privacy_mode: bool,
    pub disable_web_search: bool,
    pub do_not_send_full_text: bool,
    pub ai_title_abstract_only: bool,
    pub exclude_journal_ids: Vec<i64>,
    pub exclude_journal_names: Vec<String>,
    pub refresh_round: u32,
}

// ---------------------------------------------------------------------------
// Search terms of a manuscript
// ---------------------------------------------------------------------------

/// Two- and three-character Chinese fragments too common to be useful.
pub open spec fn ignored_fragments() -> Seq<&'static str> {
    seq![
        "研究", "方法", "基于", "数据", "模型", "系统", "分析", "融合", "预测", "智能", "论文",
        "算法", "应用", "设计", "问题", "机制", "技术", "实现", "网络", "神经", "多源", "短时",
        "城市", "道路", "相关", "提出", "一种",
    ]
}

/// English words too common to be useful.
pub open spec fn stop_words() -> Seq<&'static str> {
    seq!["the", "and", "for", "with", "from"]
}

fn ignored_fragment_list() -> (r: Vec<&'static str>)
    ensures
        r@ == ignored_fragments(),
{
    vec![
        "研究", "方法", "基于", "数据", "模型", "系统", "分析", "融合", "预测", "智能", "论文",
        "算法", "应用", "设计", "问题", "机制", "技术", "实现", "网络", "神经", "多源", "短时",
        "城市", "道路", "相关", "提出", "一种",
    ]
}

/// Every run of `k` consecutive characters of `t` starting before `n`.
pub open spec fn windows_upto(t: Seq<char>, k: nat, n: int) -> Set<Seq<char>> {
    Set::new(|w: Seq<char>| exists|i: int| 0 <= i < n && i + k <= t.len() && #[trigger] t.subrange(i, i + k) == w)
}

/// Every run of `k` consecutive characters of `t`.
pub open spec fn windows(t: Seq<char>, k: nat) -> Set<Seq<char>> {
    windows_upto(t, k, t.len() as int)
}

/// Whether every character is a CJK ideograph.
pub open spec fn all_cjk(t: Seq<char>) -> bool {
    forall|i: int| 0 <= i < t.len() ==> #[trigger] is_cjk(t[i])
}

/// The search terms one word piece yields. A piece of Chinese characters
/// yields its two- and three-character fragments, except the common ones;
/// any other piece yields itself in lower case when that is at least three
/// bytes long and not a stop word. Pieces under two bytes yield nothing.
pub open spec fn piece_terms(p: Seq<char>) -> Set<Seq<char>> {
    let t = trim_spec(p);
    if utf8_len(t) < 2 {
        Set::empty()
    } else if all_cjk(t) {
        windows(t, 2).union(windows(t, 3)).filter(|w: Seq<char>| !strs(ignored_fragments()).contains(w))
    } else {
        let l = lowercase(t);
        if utf8_len(l) >= 3 && !strs(stop_words()).contains(l) {
            Set::empty().insert(l)
        } else {
            Set::empty()
        }
    }
}

/// The search terms of a list of word pieces.
pub open spec fn pieces_terms(ps: Seq<Seq<char>>) -> Set<Seq<char>>
    decreases ps.len(),
{
    if ps.len() == 0 {
        Set::empty()
    } else {
        pieces_terms(ps.drop_last()).union(piece_terms(ps.last()))
    }
}

/// The trigger words of a cross-language expansion rule.
pub open spec fn rule_triggers(k: int) -> Seq<&'static str> {
    if k == 0 {
        seq!["交通", "道路", "车流", "流量", "traffic", "transport"]
    } else if k == 1 {
        seq!["图神经", "gnn", "graph neural"]
    } else if k == 2 {
        seq!["时空", "短时", "预测", "forecast"]
    } else if k == 3 {
        seq!["深度学习", "机器学习", "deep learning", "machine learning"]
    } else {
        seq!["智慧交通", "智能交通", "its"]
    }
}

/// The English terms a cross-language expansion rule adds.
pub open spec fn rule_expansions(k: int) -> Seq<&'static str> {
    if k == 0 {
        seq!["traffic", "transport", "transportation", "intelligent transportation", "mobility", "vehicle", "road", "urban transport"]
    } else if k == 1 {
        seq!["graph neural", "gnn", "graph learning", "spatio-temporal", "spatiotemporal"]
    } else if k == 2 {
        seq!["forecast", "forecasting", "prediction", "spatio-temporal", "time series"]
    } else if k == 3 {
        seq!["deep learning", "machine learning", "neural network", "artificial intelligence"]
    } else {
        seq!["intelligent transportation", "intelligent transport", "smart mobility"]
    }
}

/// The number of expansion rules.
pub open spec fn rule_count() -> nat {
    5
}

fn rule_table(k: usize) -> (r: (Vec<&'static str>, Vec<&'static str>))
    requires
        k < 5,
    ensures
        r.0@ == rule_triggers(k as int),
        r.1@ == rule_expansions(k as int),
{
    if k == 0 {
        (
            vec!["交通", "道路", "车流", "流量", "traffic", "transport"],
            vec!["traffic", "transport", "transportation", "intelligent transportation", "mobility", "vehicle", "road", "urban transport"],
        )
    } else if k == 1 {
        (
            vec!["图神经", "gnn", "graph neural"],
            vec!["graph neural", "gnn", "graph learning", "spatio-temporal", "spatiotemporal"],
        )
    } else if k == 2 {
        (
            vec!["时空", "短时", "预测", "forecast"],
            vec!["forecast", "forecasting", "prediction", "spatio-temporal", "time series"],
        )
    } else if k == 3 {
        (
            vec!["深度学习", "机器学习", "deep learning", "machine learning"],
            vec!["deep learning", "machine learning", "neural network", "artificial intelligence"],
        )
    } else {
        (
            vec!["智慧交通", "智能交通", "its"],
            vec!["intelligent transportation", "intelligent transport", "smart mobility"],
        )
    }
}

/// A rule fires when one of its triggers occurs in the query as written
/// or in its lower-case form.
pub open spec fn rule_fires(q: Seq<char>, k: int) -> bool {
    exists|i: int|
        0 <= i < rule_triggers(k).len() && (contains_spec(q, #[trigger] rule_triggers(k)[i]@)
            || contains_spec(lowercase(q), rule_triggers(k)[i]@))
}

/// The expansion terms of the first `n` rules that fire for the query.
pub open spec fn expansions_upto(q: Seq<char>, n: int) -> Set<Seq<char>>
    decreases n,
{
    if n <= 0 {
        Set::empty()
    } else if rule_fires(q, n - 1) {
        expansions_upto(q, n - 1).union(strs(rule_expansions(n - 1)).to_set())
    } else {
        expansions_upto(q, n - 1)
    }
}

/// The search terms of a query: the terms of its word pieces and the
/// expansions of every rule that fires.
pub open spec fn query_tokens(q: Seq<char>) -> Set<Seq<char>> {
    pieces_terms(word_pieces(q)).union(expansions_upto(q, rule_count() as int))
}

fn add_windows(tokens: &mut Vec<String>, cs: &Vec<char>, k: usize, ignored: &Vec<&'static str>)
    requires
        views(old(tokens)@).no_duplicates(),
        ignored@ == ignored_fragments(),
        k >= 1,
    ensures
        views(final(tokens)@).no_duplicates(),
        views(final(tokens)@).to_set() == views(old(tokens)@).to_set().union(
            windows(cs@, k as nat).filter(|w: Seq<char>| !strs(ignored_fragments()).contains(w)),
        ),
{
    let ghost pred = |w: Seq<char>| !strs(ignored_fragments()).contains(w);
    let ghost base = views(tokens@).to_set();
    if cs.len() < k {
        proof {
            assert(windows(cs@, k as nat).filter(pred) =~= Set::empty());
            assert(base.union(Set::empty()) =~= base);
        }
        return;
    }
    let last = cs.len() - k;
    let mut i: usize = 0;
    proof {
        assert(windows_upto(cs@, k as nat, 0).filter(pred) =~= Set::empty());
        assert(base.union(Set::empty()) =~= base);
    }
    while i <= last
        invariant
            last == cs.len() - k,
            k >= 1,
            i <= last + 1,
            ignored@ == ignored_fragments(),
            views(tokens@).no_duplicates(),
            views(tokens@).to_set() == base.union(windows_upto(cs@, k as nat, i as int).filter(pred)),
            pred == (|w: Seq<char>| !strs(ignored_fragments()).contains(w)),
        decreases last + 1 - i,
    {
        let term = string_of_range(cs, i, i + k);
        let ghost w = term@;
        proof {
            assert(windows_upto(cs@, k as nat, i + 1) =~= windows_upto(cs@, k as nat, i as int).insert(w)) by {
                assert forall|x: Seq<char>| windows_upto(cs@, k as nat, i + 1).contains(x) implies
                    windows_upto(cs@, k as nat, i as int).insert(w).contains(x) by {
                    let j = choose|j: int| 0 <= j < i + 1 && j + k <= cs@.len() && #[trigger] cs@.subrange(j, j + k) == x;
                    if j < i {
                        assert(windows_upto(cs@, k as nat, i as int).contains(x));
                    }
                }
                assert forall|x: Seq<char>| windows_upto(cs@, k as nat, i as int).insert(w).contains(x) implies
                    windows_upto(cs@, k as nat, i + 1).contains(x) by {
                    if x == w {
                        assert(cs@.subrange(i as int, i + k) == x);
                    } else {
                        let j = choose|j: int| 0 <= j < i && j + k <= cs@.len() && #[trigger] cs@.subrange(j, j + k) == x;
                        assert(cs@.subrange(j, j + k) == x);
                    }
                }
            }
        }
        if !str_in(ignored, term.as_str()) {
            insert_unique(tokens, term);
            proof {
                assert(views(tokens@).to_set() =~= base.union(windows_upto(cs@, k as nat, i + 1).filter(pred)));
            }
        } else {
            proof {
                assert(views(tokens@).to_set() =~= base.union(windows_upto(cs@, k as nat, i + 1).filter(pred)));
            }
        }
        i = i + 1;
    }
    assert(windows_upto(cs@, k as nat, i as int) =~= windows(cs@, k as nat)) by {
        assert forall|x: Seq<char>| windows(cs@, k as nat).contains(x) implies windows_upto(cs@, k as nat, i as int).contains(x) by {
            let j = choose|j: int| 0 <= j < cs@.len() && j + k <= cs@.len() && #[trigger] cs@.subrange(j, j + k) == x;
            assert(cs@.subrange(j, j + k) == x);
        }
        assert forall|x: Seq<char>| windows_upto(cs@, k as nat, i as int).contains(x) implies windows(cs@, k as nat).contains(x) by {
            let j = choose|j: int| 0 <= j < i && j + k <= cs@.len() && #[trigger] cs@.subrange(j, j + k) == x;
            assert(cs@.subrange(j, j + k) == x);
        }
    }
}

fn all_cjk_chars(cs: &Vec<char>) -> (r: bool)
    ensures
        r == all_cjk(cs@),
{
    let mut i: usize = 0;
    while i < cs.len()
        invariant
            i <= cs.len(),
            forall|j: int| 0 <= j < i ==> #[trigger] is_cjk(cs@[j]),
        decreases cs.len() - i,
    {
        if !('\u{4e00}' <= cs[i] && cs[i] <= '\u{9fff}') {
            assert(!is_cjk(cs@[i as int]));
            return false;
        }
        i = i + 1;
    }
    true
}

fn add_piece_terms(tokens: &mut Vec<String>, piece: &str, ignored: &Vec<&'static str>, stop: &Vec<&'static str>)
    requires
        views(old(tokens)@).no_duplicates(),
        ignored@ == ignored_fragments(),
        stop@ == stop_words(),
    ensures
        views(final(tokens)@).no_duplicates(),
        views(final(tokens)@).to_set() == views(old(tokens)@).to_set().union(piece_terms(piece@)),
{
    let ghost base = views(tokens@).to_set();
    let t = trim(piece);
    if !utf8_len_at_least(t.as_str(), 2) {
        assert(base.union(Set::empty()) =~= base);
        return;
    }
    let cs = chars_of(t.as_str());
    if all_cjk_chars(&cs) {
        let ghost pred = |w: Seq<char>| !strs(ignored_fragments()).contains(w);
        add_windows(tokens, &cs, 2, ignored);
        let ghost mid = views(tokens@).to_set();
        if cs.len() >= 3 {
            add_windows(tokens, &cs, 3, ignored);
        } else {
            assert(windows(cs@, 3).filter(pred) =~= Set::empty()) by {
                assert forall|x: Seq<char>| !windows(cs@, 3).contains(x) by {
                    if windows(cs@, 3).contains(x) {
                        let j = choose|j: int| 0 <= j < cs@.len() && j + 3 <= cs@.len() && #[trigger] cs@.subrange(j, j + 3) == x;
                    }
                }
            }
            assert(mid.union(Set::empty()) =~= mid);
        }
        assert(views(tokens@).to_set() =~= base.union(
            windows(cs@, 2).union(windows(cs@, 3)).filter(pred),
        ));
    } else {
        let l = to_lowercase(t.as_str());
        if utf8_len_at_least(l.as_str(), 3) && !str_in(stop, l.as_str()) {
            insert_unique(tokens, l);
            assert(base.insert(l@) =~= base.union(Set::empty().insert(l@)));
        } else {
            assert(base.union(Set::empty()) =~= base);
        }
    }
}

fn expand_cross_language_terms(query: &str, tokens: &mut Vec<String>)
    requires
        views(old(tokens)@).no_duplicates(),
    ensures
        views(final(tokens)@).no_duplicates(),
        views(final(tokens)@).to_set() == views(old(tokens)@).to_set().union(expansions_upto(query@, rule_count() as int)),
{
    let lower = to_lowercase(query);
    let ghost base = views(tokens@).to_set();
    let mut k: usize = 0;
    assert(base.union(Set::empty()) =~= base);
    while k < 5
        invariant
            k <= 5,
            lower@ == lowercase(query@),
            views(tokens@).no_duplicates(),
            views(tokens@).to_set() == base.union(expansions_upto(query@, k as int)),
        decreases 5 - k,
    {
        let (triggers, expansions) = rule_table(k);
        let mut fires = false;
        let mut t: usize = 0;
        while t < triggers.len() && !fires
            invariant
                t <= triggers.len(),
                triggers@ == rule_triggers(k as int),
                lower@ == lowercase(query@),
                fires ==> rule_fires(query@, k as int),
                !fires ==> forall|i: int| 0 <= i < t ==> !(contains_spec(query@, #[trigger] rule_triggers(k as int)[i]@)
                    || contains_spec(lowercase(query@), rule_triggers(k as int)[i]@)),
            decreases triggers.len() - t + (if fires { 0int } else { 1int }),
        {
            if contains(query, triggers[t]) || contains(lower.as_str(), triggers[t]) {
                fires = true;
            } else {
                t = t + 1;
            }
        }
        if fires {
            let ghost before = views(tokens@).to_set();
            let mut e: usize = 0;
            while e < expansions.len()
                invariant
                    e <= expansions.len(),
                    expansions@ == rule_expansions(k as int),
                    views(tokens@).no_duplicates(),
                    views(tokens@).to_set() == before.union(strs(expansions@).take(e as int).to_set()),
                decreases expansions.len() - e,
            {
                let term = owned(expansions[e]);
                proof {
                    assert(strs(expansions@).take(e + 1) =~= strs(expansions@).take(e as int).push(term@));
                    strs(expansions@).take(e as int).lemma_push_to_set_commute(term@);
                }
                insert_unique(tokens, term);
                proof {
                    assert(views(tokens@).to_set() =~= before.union(strs(expansions@).take(e + 1).to_set()));
                }
                e = e + 1;
            }
            assert(strs(expansions@).take(e as int) =~= strs(rule_expansions(k as int)));
            assert(views(tokens@).to_set() =~= base.union(expansions_upto(query@, k + 1)));
        } else {
            assert(!rule_fires(query@, k as int));
            assert(expansions_upto(query@, k + 1) == expansions_upto(query@, k as int));
        }
        k = k + 1;
    }
}

/// The distinct search terms of a query (title, abstract, keywords and
/// full text joined and lower-cased by the caller).
pub fn tokenize_query(query: &str) -> (r: Vec<String>)
    ensures
        views(r@).no_duplicates(),
        views(r@).to_set() == query_tokens(query@),
{
    let ignored = ignored_fragment_list();
    let stop: Vec<&'static str> = vec!["the", "and", "for", "with", "from"];
    let pieces = split_words(query);
    let mut tokens: Vec<String> = Vec::new();
    let mut i: usize = 0;
    assert(views(tokens@).to_set() =~= pieces_terms(views(pieces@).take(0)));
    while i < pieces.len()
        invariant
            i <= pieces.len(),
            ignored@ == ignored_fragments(),
            stop@ == stop_words(),
            views(tokens@).no_duplicates(),
            views(tokens@).to_set() == pieces_terms(views(pieces@).take(i as int)),
        decreases pieces.len() - i,
    {
        proof {
            assert(views(pieces@).take(i + 1).drop_last() =~= views(pieces@).take(i as int));
            assert(views(pieces@).take(i + 1).last() == pieces@[i as int]@);
        }
        add_piece_terms(&mut tokens, pieces[i].as_str(), &ignored, &stop);
        i = i + 1;
    }
    assert(views(pieces@).take(i as int) =~= word_pieces(query@));
    expand_cross_language_terms(query, &mut tokens);
    tokens
}

// ---------------------------------------------------------------------------
// Subject areas
// ---------------------------------------------------------------------------

/// The key of subject area `i`; the areas are listed in key order.
pub open spec fn profile_key(i: int) -> &'static str {
    if i == 0 { "computer" } else if i == 1 { "education" } else if i == 2 { "history" }
    else if i == 3 { "literature" } else if i == 4 { "management" } else if i == 5 { "marxism" }
    else if i == 6 { "medicine" } else { "transportation" }
}

/// The display label of subject area `i`.
pub open spec fn profile_label(i: int) -> &'static str {
    if i == 0 { "计算机科学" } else if i == 1 { "教育学" } else if i == 2 { "历史学" }
    else if i == 3 { "文学" } else if i == 4 { "管理科学" } else if i == 5 { "马克思主义" }
    else if i == 6 { "医学" } else { "智能交通/交通工程" }
}

/// Words in a manuscript that put it in subject area `i`.
pub open spec fn profile_triggers(i: int) -> Seq<&'static str> {
    if i == 0 {
        seq!["计算机", "人工智能", "图神经", "神经网络", "深度学习", "机器学习", "算法", "数据挖掘", "graph neural", "gnn", "deep learning", "machine learning", "computer", "artificial intelligence"]
    } else if i == 1 {
        seq!["教育", "教学", "课程", "education", "teaching"]
    } else if i == 2 {
        seq!["历史", "史学", "history"]
    } else if i == 3 {
        seq!["文学", "诗歌", "小说", "literature", "poetry", "novel"]
    } else if i == 4 {
        seq!["管理", "决策", "供应链", "management", "decision", "supply chain"]
    } else if i == 5 {
        seq!["马克思", "思想政治", "党建", "marxism"]
    } else if i == 6 {
        seq!["医学", "临床", "患者", "medical", "clinical", "patient"]
    } else {
        seq!["交通", "道路", "车流", "流量预测", "智能交通", "智慧交通", "traffic", "transport", "transportation", "mobility"]
    }
}

/// Words in a journal's text that show it publishes in subject area `i`.
pub open spec fn profile_positive(i: int) -> Seq<&'static str> {
    if i == 0 {
        seq!["计算机", "人工智能", "软件", "算法", "数据挖掘", "模式识别", "图神经", "机器学习", "深度学习", "computer", "computing", "informatics", "information", "artificial intelligence", "machine learning", "deep learning", "neural network", "graph neural", "data mining", "pattern recognition"]
    } else if i == 1 {
        seq!["教育", "教学", "课程", "education", "teaching", "pedagogy"]
    } else if i == 2 {
        seq!["历史", "史学", "history", "historical"]
    } else if i == 3 {
        seq!["文学", "诗歌", "小说", "literature", "poetry", "novel", "philology"]
    } else if i == 4 {
        seq!["管理", "决策", "供应链", "management", "decision", "operations research", "supply chain"]
    } else if i == 5 {
        seq!["马克思", "思想政治", "党建", "marxism", "political education"]
    } else if i == 6 {
        seq!["医学", "临床", "患者", "medical", "clinical", "medicine", "health"]
    } else {
        seq!["交通", "道路", "运输", "智能交通", "智慧交通", "交通工程", "traffic", "transport", "transportation", "mobility", "vehicle", "road", "urban transport", "intelligent transportation"]
    }
}

/// One subject area: key, label, manuscript triggers, journal terms.
pub struct SubjectProfile {
    pub key: &'static str,
    pub label: &'static str,
    pub triggers: Vec<&'static str>,
    pub positive: Vec<&'static str>,
}

/// Subject area `i` of the table.
pub fn subject_profile(i: usize) -> (r: SubjectProfile)
    requires
        i < 8,
    ensures
        r.key == profile_key(i as int),
        r.label == profile_label(i as int),
        r.triggers@ == profile_triggers(i as int),
        r.positive@ == profile_positive(i as int),
{
    if i == 0 {
        SubjectProfile { key: "computer", label: "计算机科学",
            triggers: vec!["计算机", "人工智能", "图神经", "神经网络", "深度学习", "机器学习", "算法", "数据挖掘", "graph neural", "gnn", "deep learning", "machine learning", "computer", "artificial intelligence"],
            positive: vec!["计算机", "人工智能", "软件", "算法", "数据挖掘", "模式识别", "图神经", "机器学习", "深度学习", "computer", "computing", "informatics", "information", "artificial intelligence", "machine learning", "deep learning", "neural network", "graph neural", "data mining", "pattern recognition"] }
    } else if i == 1 {
        SubjectProfile { key: "education", label: "教育学",
            triggers: vec!["教育", "教学", "课程", "education", "teaching"],
            positive: vec!["教育", "教学", "课程", "education", "teaching", "pedagogy"] }
    } else if i == 2 {
        SubjectProfile { key: "history", label: "历史学",
            triggers: vec!["历史", "史学", "history"],
            positive: vec!["历史", "史学", "history", "historical"] }
    } else if i == 3 {
        SubjectProfile { key: "literature", label: "文学",
            triggers: vec!["文学", "诗歌", "小说", "literature", "poetry", "novel"],
            positive: vec!["文学", "诗歌", "小说", "literature", "poetry", "novel", "philology"] }
    } else if i == 4 {
        SubjectProfile { key: "management", label: "管理科学",
            triggers: vec!["管理", "决策", "供应链", "management", "decision", "supply chain"],
            positive: vec!["管理", "决策", "供应链", "management", "decision", "operations research", "supply chain"] }
    } else if i == 5 {
        SubjectProfile { key: "marxism", label: "马克思主义",
            triggers: vec!["马克思", "思想政治", "党建", "marxism"],
            positive: vec!["马克思", "思想政治", "党建", "marxism", "political education"] }
    } else if i == 6 {
        SubjectProfile { key: "medicine", label: "医学",
            triggers: vec!["医学", "临床", "患者", "medical", "clinical", "patient"],
            positive: vec!["医学", "临床", "患者", "medical", "clinical", "medicine", "health"] }
    } else {
        SubjectProfile { key: "transportation", label: "智能交通/交通工程",
            triggers: vec!["交通", "道路", "车流", "流量预测", "智能交通", "智慧交通", "traffic", "transport", "transportation", "mobility"],
            positive: vec!["交通", "道路", "运输", "智能交通", "智慧交通", "交通工程", "traffic", "transport", "transportation", "mobility", "vehicle", "road", "urban transport", "intelligent transportation"] }
    }
}

/// Case-insensitive containment: both sides lower-cased first.
pub open spec fn contains_ci_spec(value: Seq<char>, term: Seq<char>) -> bool {
    contains_spec(lowercase(value), lowercase(term))
}

/// Whether `term` occurs in `value`, ignoring case.
pub fn contains_case_insensitive(value: &str, term: &str) -> (r: bool)
    ensures
        r == contains_ci_spec(value@, term@),
{
    let v = to_lowercase(value);
    let t = to_lowercase(term);
    contains(v.as_str(), t.as_str())
}

/// How many of the terms occur in `text`, ignoring case.
pub open spec fn count_ci(text: Seq<char>, terms: Seq<&'static str>) -> nat
    decreases terms.len(),
{
    if terms.len() == 0 {
        0
    } else {
        count_ci(text, terms.drop_last()) + if contains_ci_spec(text, terms.last()@) { 1nat } else { 0nat }
    }
}

/// Whether one of the terms occurs in `text`, ignoring case.
pub open spec fn any_ci(text: Seq<char>, terms: Seq<&'static str>) -> bool {
    exists|i: int| 0 <= i < terms.len() && contains_ci_spec(text, #[trigger] terms[i]@)
}

fn count_case_insensitive(text: &str, terms: &Vec<&'static str>) -> (r: u64)
    requires
        terms.len() < 1000,
    ensures
        r as nat == count_ci(text@, terms@),
        r as nat <= terms.len(),
        (r > 0) == any_ci(text@, terms@),
{
    let mut n: u64 = 0;
    let mut i: usize = 0;
    while i < terms.len()
        invariant
            i <= terms.len() < 1000,
            n as nat == count_ci(text@, terms@.take(i as int)),
            n <= i,
            (n > 0) == any_ci(text@, terms@.take(i as int)),
        decreases terms.len() - i,
    {
        proof {
            assert(terms@.take(i + 1).drop_last() =~= terms@.take(i as int));
            assert(terms@.take(i + 1).last() == terms@[i as int]);
        }
        let hit = contains_case_insensitive(text, terms[i]);
        if hit {
            n = n + 1;
        }
        proof {
            let t1 = terms@.take(i + 1);
            if hit {
                assert(t1[i as int] == terms@[i as int]);
                assert(any_ci(text@, t1));
            } else {
                if any_ci(text@, t1) {
                    let j = choose|j: int| 0 <= j < t1.len() && contains_ci_spec(text@, #[trigger] t1[j]@);
                    if j < i {
                        assert(terms@.take(i as int)[j] == t1[j]);
                        assert(any_ci(text@, terms@.take(i as int)));
                    }
                }
                if any_ci(text@, terms@.take(i as int)) {
                    let j = choose|j: int| 0 <= j < i && contains_ci_spec(text@, #[trigger] terms@.take(i as int)[j]@);
                    assert(t1[j] == terms@.take(i as int)[j]);
                }
            }
        }
        i = i + 1;
    }
    assert(terms@.take(i as int) =~= terms@);
    n
}

/// Whether one of the terms occurs in `text`, ignoring case.
pub fn any_case_insensitive(text: &str, terms: &Vec<&'static str>) -> (r: bool)
    requires
        terms.len() < 1000,
    ensures
        r == any_ci(text@, terms@),
{
    count_case_insensitive(text, terms) > 0
}

/// Humanities words that a technical manuscript should not be sent to.
pub open spec fn humanities_terms() -> Seq<&'static str> {
    seq![
        "历史", "史学", "文学", "诗歌", "小说", "语言学", "艺术", "哲学", "history", "historical",
        "literature", "poetry", "novel", "language", "linguistics", "arts", "philosophy", "humanities",
    ]
}

/// Whether a journal's text names a humanities field.
pub fn has_unrelated_humanities_terms(text: &str) -> (r: bool)
    ensures
        r == any_ci(text@, humanities_terms()),
{
    let terms: Vec<&'static str> = vec![
        "历史", "史学", "文学", "诗歌", "小说", "语言学", "艺术", "哲学", "history", "historical",
        "literature", "poetry", "novel", "language", "linguistics", "arts", "philosophy", "humanities",
    ];
    any_case_insensitive(text, &terms)
}

/// The text of a journal that topics are matched against, lower-cased:
/// name, subjects, scope, recent article topics, guidelines, indexing
/// databases, tags, summary, experience and suitable topics.
pub open spec fn searchable_raw(j: JournalRecord) -> Seq<char> {
    j.name@ + " "@ + j.subjects@ + " "@ + j.scope_text@ + " "@ + j.article_topics@ + " "@
        + j.submission_guidelines@ + " "@ + j.source_db@ + " "@ + j.tags@ + " "@ + j.summary@
        + " "@ + j.experience@ + " "@ + j.suitable_topics@
}

/// The lower-cased searchable text of a journal.
pub open spec fn searchable_spec(j: JournalRecord) -> Seq<char> {
    lowercase(searchable_raw(j))
}

/// The searchable text of a journal.
pub fn journal_searchable_text(j: &JournalRecord) -> (r: String)
    ensures
        r@ == searchable_spec(*j),
{
    let mut s = owned(j.name.as_str());
    append(&mut s, " ");
    append(&mut s, j.subjects.as_str());
    append(&mut s, " ");
    append(&mut s, j.scope_text.as_str());
    append(&mut s, " ");
    append(&mut s, j.article_topics.as_str());
    append(&mut s, " ");
    append(&mut s, j.submission_guidelines.as_str());
    append(&mut s, " ");
    append(&mut s, j.source_db.as_str());
    append(&mut s, " ");
    append(&mut s, j.tags.as_str());
    append(&mut s, " ");
    append(&mut s, j.summary.as_str());
    append(&mut s, " ");
    append(&mut s, j.experience.as_str());
    append(&mut s, " ");
    append(&mut s, j.suitable_topics.as_str());
    to_lowercase(s.as_str())
}

/// The prefix of a preference that names submission subjects.
pub open spec fn subject_prefix() -> Seq<char> {
    "投稿方向:"@
}

/// The subject names chosen in one preference entry: after the prefix,
/// split at `|`, trimmed, without empty names and without "自动识别".
pub open spec fn pref_items(p: Seq<char>) -> Seq<Seq<char>> {
    if crate::text::starts_with_spec(p, subject_prefix()) {
        crate::text::split_spec(p.skip(subject_prefix().len() as int), |c: char| c == '|')
            .map_values(|x: Seq<char>| trim_spec(x))
            .filter(|x: Seq<char>| x.len() > 0 && x != "自动识别"@)
    } else {
        seq![]
    }
}

/// The subject names chosen across all preference entries.
pub open spec fn selected_subjects(prefs: Seq<Seq<char>>) -> Seq<Seq<char>>
    decreases prefs.len(),
{
    if prefs.len() == 0 {
        seq![]
    } else {
        selected_subjects(prefs.drop_last()) + pref_items(prefs.last())
    }
}

/// Whether subject area `i` is in force: named by the user, or, when the
/// user named none, triggered by the manuscript text.
pub open spec fn profile_in_force(prefs: Seq<Seq<char>>, q: Seq<char>, i: int) -> bool {
    let sel = selected_subjects(prefs);
    if sel.len() == 0 {
        any_ci(q, profile_triggers(i))
    } else {
        exists|k: int| 0 <= k < sel.len() && (#[trigger] sel[k] == profile_label(i)@ || sel[k] == profile_key(i)@)
    }
}

/// The subject areas in force, in key order, each once.
pub open spec fn guard_profiles(prefs: Seq<Seq<char>>, q: Seq<char>) -> Seq<usize> {
    Seq::new(8, |i: int| i as usize).filter(|i: usize| profile_in_force(prefs, q, i as int))
}

/// The subject areas a manuscript belongs to.
pub struct SubjectGuard {
    pub profiles: Vec<usize>,
}

impl SubjectGuard {
    /// Every entry names one of the eight areas, in increasing order.
    pub open spec fn wf(&self) -> bool {
        &&& self.profiles@.len() <= 8
        &&& forall|k: int| 0 <= k < self.profiles@.len() ==> #[trigger] self.profiles@[k] < 8
        &&& forall|a: int, b: int| 0 <= a < b < self.profiles@.len() ==> self.profiles@[a] < self.profiles@[b]
    }

    /// Whether area `i` is in force.
    pub open spec fn has(&self, i: int) -> bool {
        self.profiles@.contains(i as usize)
    }
}

fn selected_subject_names(prefs: &Vec<String>) -> (r: Vec<String>)
    ensures
        views(r@) == selected_subjects(views(prefs@)),
{
    let prefix = "投稿方向:";
    let mut out: Vec<String> = Vec::new();
    let mut i: usize = 0;
    while i < prefs.len()
        invariant
            i <= prefs.len(),
            prefix@ == subject_prefix(),
            views(out@) == selected_subjects(views(prefs@).take(i as int)),
        decreases prefs.len() - i,
    {
        proof {
            assert(views(prefs@).take(i + 1).drop_last() =~= views(prefs@).take(i as int));
            assert(views(prefs@).take(i + 1).last() == prefs@[i as int]@);
        }
        let p = prefs[i].as_str();
        if crate::text::starts_with(p, prefix) {
            let cs = chars_of(p);
            assert(subject_prefix().len() == 5) by { reveal_strlit("投稿方向:"); }
            let rest = string_of_range(&cs, 5, cs.len());
            let ghost skipped = p@.skip(subject_prefix().len() as int);
            proof {
                assert(subject_prefix().len() == 5) by { reveal_strlit("投稿方向:"); }
                assert(rest@ =~= skipped);
            }
            let parts = crate::text::split_char(rest.as_str(), '|');
            let ghost items = views(parts@).map_values(|x: Seq<char>| trim_spec(x));
            let ghost keep = |x: Seq<char>| x.len() > 0 && x != "自动识别"@;
            let ghost start = views(out@);
            let mut k: usize = 0;
            while k < parts.len()
                invariant
                    k <= parts.len(),
                    items == views(parts@).map_values(|x: Seq<char>| trim_spec(x)),
                    keep == (|x: Seq<char>| x.len() > 0 && x != "自动识别"@),
                    views(out@) == start + items.take(k as int).filter(keep),
                decreases parts.len() - k,
            {
                proof {
                    reveal_with_fuel(Seq::filter, 1);
                    assert(items.take(k + 1).drop_last() =~= items.take(k as int));
                    assert(items.take(k + 1).last() == trim_spec(parts@[k as int]@));
                }
                let t = trim(parts[k].as_str());
                if !t.as_str().is_empty() && !crate::text::str_eq(t.as_str(), "自动识别") {
                    let ghost before = views(out@);
                    out.push(t);
                    proof {
                        assert(views(out@) =~= before.push(trim_spec(parts@[k as int]@)));
                        assert(start + items.take(k + 1).filter(keep) =~= (start + items.take(k as int).filter(keep)).push(trim_spec(parts@[k as int]@)));
                    }
                } else {
                    proof {
                        assert(items.take(k + 1).filter(keep) == items.take(k as int).filter(keep));
                    }
                }
                k = k + 1;
            }
            proof {
                assert(items.take(k as int) =~= items);
                assert(pref_items(p@) == items.filter(keep));
            }
        } else {
            proof {
                assert(pref_items(p@) =~= seq![]);
                assert(views(out@) + seq![] =~= views(out@));
            }
        }
        i = i + 1;
    }
    assert(views(prefs@).take(i as int) =~= views(prefs@));
    out
}

impl SubjectGuard {
    /// The subject areas of a request: those the user selected under
    /// "投稿方向:", or, when none was selected, those whose trigger words
    /// occur in the query text. Each area appears once, in key order.
    pub fn from_request(request: &RecommendationRequest, query: &str) -> (r: SubjectGuard)
        ensures
            r.wf(),
            r.profiles@ == guard_profiles(views(request.preferences@), query@),
    {
        let selected = selected_subject_names(&request.preferences);
        let ghost sel = views(selected@);
        let ghost pred = |i: usize| profile_in_force(views(request.preferences@), query@, i as int);
        let ghost all = Seq::new(8, |i: int| i as usize);
        let mut profiles: Vec<usize> = Vec::new();
        let mut i: usize = 0;
        while i < 8
            invariant
                i <= 8,
                sel == views(selected@),
                sel == selected_subjects(views(request.preferences@)),
                pred == (|i: usize| profile_in_force(views(request.preferences@), query@, i as int)),
                all == Seq::new(8, |i: int| i as usize),
                profiles@ == all.take(i as int).filter(pred),
                profiles@.len() <= i,
                forall|k: int| 0 <= k < profiles@.len() ==> #[trigger] profiles@[k] < i,
                forall|a: int, b: int| 0 <= a < b < profiles@.len() ==> profiles@[a] < profiles@[b],
            decreases 8 - i,
        {
            let profile = subject_profile(i);
            let in_force = if selected.len() == 0 {
                any_case_insensitive(query, &profile.triggers)
            } else {
                let mut found = false;
                let mut k: usize = 0;
                while k < selected.len() && !found
                    invariant
                        k <= selected.len(),
                        sel == views(selected@),
                        profile.key == profile_key(i as int),
                        profile.label == profile_label(i as int),
                        found ==> exists|m: int| 0 <= m < sel.len() && (#[trigger] sel[m] == profile_label(i as int)@ || sel[m] == profile_key(i as int)@),
                        !found ==> forall|m: int| 0 <= m < k ==> !(#[trigger] sel[m] == profile_label(i as int)@ || sel[m] == profile_key(i as int)@),
                    decreases selected.len() - k + (if found { 0int } else { 1int }),
                {
                    assert(sel[k as int] == selected@[k as int]@);
                    if crate::text::str_eq(selected[k].as_str(), profile.label) || crate::text::str_eq(selected[k].as_str(), profile.key) {
                        found = true;
                    } else {
                        k = k + 1;
                    }
                }
                found
            };
            proof {
                reveal_with_fuel(Seq::filter, 1);
                assert(all.take(i + 1).drop_last() =~= all.take(i as int));
                assert(all.take(i + 1).last() == i as usize);
                assert(in_force == pred(i as usize));
            }
            if in_force {
                profiles.push(i);
            }
            i = i + 1;
        }
        assert(all.take(8) =~= all);
        SubjectGuard { profiles }
    }

    /// Whether no subject area is in force.
    pub fn is_empty(&self) -> (r: bool)
        ensures
            r == (self.profiles@.len() == 0),
    {
        self.profiles.len() == 0
    }

    /// Whether the area with the given index is in force.
    pub fn has_profile(&self, i: usize) -> (r: bool)
        ensures
            r == self.has(i as int),
    {
        let mut k: usize = 0;
        while k < self.profiles.len()
            invariant
                k <= self.profiles.len(),
                forall|m: int| 0 <= m < k ==> self.profiles@[m] != i,
            decreases self.profiles.len() - k,
        {
            if self.profiles[k] == i {
                return true;
            }
            k = k + 1;
        }
        false
    }
}

// ---------------------------------------------------------------------------
// Judging catalogue journals against the subject areas
// ---------------------------------------------------------------------------

/// The labels of the areas in force, joined with " / ", or "自动识别未限定"
/// when none is.
pub open spec fn guard_label(profiles: Seq<usize>) -> Seq<char> {
    if profiles.len() == 0 {
        "自动识别未限定"@
    } else {
        crate::text::join_spec(profiles.map_values(|i: usize| profile_label(i as int)@), " / "@)
    }
}

/// How many positive terms of the areas in force occur in `text`.
pub open spec fn guard_hits(profiles: Seq<usize>, text: Seq<char>) -> nat
    decreases profiles.len(),
{
    if profiles.len() == 0 {
        0
    } else {
        guard_hits(profiles.drop_last(), text) + count_ci(text, profile_positive(profiles.last() as int))
    }
}

/// The subject alignment of a journal in half points: one and a half
/// points per positive term found, at most six points.
pub open spec fn alignment_half(profiles: Seq<usize>, j: JournalRecord) -> int {
    let h = 3 * guard_hits(profiles, searchable_spec(j));
    if h > 12 { 12 } else { h as int }
}

/// Whether a journal is excluded outright for a manuscript: it names a
/// humanities field while the manuscript is about computing and the journal
/// shows no computing term, or it names a humanities field and aligns with
/// none of the areas in force.
pub open spec fn hard_excluded(profiles: Seq<usize>, j: JournalRecord) -> bool {
    if profiles.len() == 0 {
        false
    } else {
        let text = searchable_spec(j);
        let hum = any_ci(text, humanities_terms());
        if hum && profiles.contains(0usize) && !any_ci(text, profile_positive(0)) {
            true
        } else if alignment_half(profiles, j) > 0 {
            false
        } else {
            hum
        }
    }
}

proof fn lemma_profile_positive_small(i: int)
    ensures
        profile_positive(i).len() <= 20,
{
}

proof fn lemma_guard_hits_bound(profiles: Seq<usize>, text: Seq<char>)
    ensures
        guard_hits(profiles, text) <= 20 * profiles.len(),
    decreases profiles.len(),
{
    if profiles.len() > 0 {
        lemma_guard_hits_bound(profiles.drop_last(), text);
        lemma_count_ci_bound(text, profile_positive(profiles.last() as int));
        lemma_profile_positive_small(profiles.last() as int);
    }
}

proof fn lemma_count_ci_bound(text: Seq<char>, terms: Seq<&'static str>)
    ensures
        count_ci(text, terms) <= terms.len(),
    decreases terms.len(),
{
    if terms.len() > 0 {
        lemma_count_ci_bound(text, terms.drop_last());
    }
}

impl SubjectGuard {
    /// The labels of the areas in force, for the evidence line.
    pub fn label(&self) -> (r: String)
        requires
            self.wf(),
        ensures
            r@ == guard_label(self.profiles@),
    {
        if self.profiles.len() == 0 {
            return owned("自动识别未限定");
        }
        let mut labels: Vec<String> = Vec::new();
        let mut k: usize = 0;
        while k < self.profiles.len()
            invariant
                k <= self.profiles.len(),
                self.wf(),
                views(labels@) == self.profiles@.take(k as int).map_values(|i: usize| profile_label(i as int)@),
            decreases self.profiles.len() - k,
        {
            let p = subject_profile(self.profiles[k]);
            let ghost before = views(labels@);
            let l = owned(p.label);
            labels.push(l);
            proof {
                assert(views(labels@) =~= before.push(l@));
                assert(self.profiles@.take(k + 1).map_values(|i: usize| profile_label(i as int)@)
                    =~= self.profiles@.take(k as int).map_values(|i: usize| profile_label(i as int)@).push(profile_label(self.profiles@[k as int] as int)@));
            }
            k = k + 1;
        }
        assert(self.profiles@.take(k as int) =~= self.profiles@);
        crate::text::join(&labels, " / ")
    }

    /// The subject alignment of a journal, in half points (the score is
    /// one and a half points per positive term found, capped at six).
    pub fn alignment_score(&self, journal: &JournalRecord) -> (r: u64)
        requires
            self.wf(),
        ensures
            r as int == alignment_half(self.profiles@, *journal),
    {
        if self.profiles.len() == 0 {
            return 0;
        }
        let text = journal_searchable_text(journal);
        let mut hits: u64 = 0;
        let mut k: usize = 0;
        while k < self.profiles.len()
            invariant
                k <= self.profiles.len(),
                self.wf(),
                text@ == searchable_spec(*journal),
                hits as nat == guard_hits(self.profiles@.take(k as int), text@),
                hits <= 20 * k,
            decreases self.profiles.len() - k,
        {
            proof {
                assert(self.profiles@.take(k + 1).drop_last() =~= self.profiles@.take(k as int));
                assert(self.profiles@.take(k + 1).last() == self.profiles@[k as int]);
            }
            let p = subject_profile(self.profiles[k]);
            proof {
                lemma_profile_positive_small(self.profiles@[k as int] as int);
            }
            let c = count_case_insensitive(text.as_str(), &p.positive);
            hits = hits + c;
            k = k + 1;
        }
        assert(self.profiles@.take(k as int) =~= self.profiles@);
        let h = 3 * hits;
        if h > 12 { 12 } else { h }
    }

    /// Whether a journal shows a positive term of area `i`.
    pub fn has_profile_alignment(&self, journal: &JournalRecord, i: usize) -> (r: bool)
        requires
            i < 8,
        ensures
            r == (self.has(i as int) && any_ci(searchable_spec(*journal), profile_positive(i as int))),
    {
        if !self.has_profile(i) {
            return false;
        }
        let text = journal_searchable_text(journal);
        let p = subject_profile(i);
        proof {
            lemma_profile_positive_small(i as int);
        }
        any_case_insensitive(text.as_str(), &p.positive)
    }

    /// Whether a journal is excluded outright for this manuscript.
    pub fn is_hard_excluded(&self, journal: &JournalRecord) -> (r: bool)
        requires
            self.wf(),
        ensures
            r == hard_excluded(self.profiles@, *journal),
    {
        if self.profiles.len() == 0 {
            return false;
        }
        let text = journal_searchable_text(journal);
        let humanities_hit = has_unrelated_humanities_terms(text.as_str());
        if humanities_hit && self.has_profile(0) && !self.has_profile_alignment(journal, 0) {
            return true;
        }
        let has_alignment = self.alignment_score(journal) > 0;
        if has_alignment {
            return false;
        }
        humanities_hit
    }
}

// ---------------------------------------------------------------------------
// Narrowing the catalogue
// ---------------------------------------------------------------------------

/// `normalize_for_exclusion`: the alphanumeric characters, lower-cased.
pub open spec fn exclusion_key(s: Seq<char>) -> Seq<char>
    decreases s.len(),
{
    if s.len() == 0 {
        seq![]
    } else {
        exclusion_key(s.drop_last()) + if crate::text::is_alphanumeric_char(s.last()) {
            crate::text::char_lowercase(s.last())
        } else {
            seq![]
        }
    }
}

/// Reduces a journal name to its lower-cased letters and digits, so that
/// names compare regardless of punctuation and case.
pub fn normalize_for_exclusion(value: &str) -> (r: String)
    ensures
        r@ == exclusion_key(value@),
{
    let cs = chars_of(value);
    let mut out = String::new();
    let mut i: usize = 0;
    while i < cs.len()
        invariant
            i <= cs.len(),
            cs@ == value@,
            out@ == exclusion_key(cs@.take(i as int)),
        decreases cs.len() - i,
    {
        proof {
            assert(cs@.take(i + 1).drop_last() =~= cs@.take(i as int));
            assert(cs@.take(i + 1).last() == cs@[i as int]);
        }
        if crate::text::char_is_alphanumeric(cs[i]) {
            let low = crate::text::char_to_lowercase(cs[i]);
            let ls = crate::text::string_of(&low);
            append(&mut out, ls.as_str());
        } else {
            assert(out@ + seq![] =~= out@);
        }
        i = i + 1;
    }
    assert(cs@.take(i as int) =~= cs@);
    out
}

/// Whether the journal's JIF quartile matches one of the requested ones
/// (any journal matches when none is requested).
pub open spec fn jif_target_ok(targets: Seq<Seq<char>>, j: JournalRecord) -> bool {
    targets.len() == 0 || exists|k: int| 0 <= k < targets.len() && contains_spec(j.jif_quartile@, #[trigger] targets[k])
}

/// Whether the user excluded the journal, by id or by (normalised) name.
pub open spec fn user_excluded(ids: Seq<i64>, names: Seq<Seq<char>>, j: JournalRecord) -> bool {
    ids.contains(j.id) || exists|k: int| 0 <= k < names.len() && exclusion_key(#[trigger] names[k]).len() > 0
        && exclusion_key(names[k]) == exclusion_key(j.name@)
}

/// Whether a journal stays a candidate before topic matching.
pub open spec fn stays_candidate(req: RecommendationRequest, profiles: Seq<usize>, j: JournalRecord) -> bool {
    jif_target_ok(views(req.target_jif_quartiles@), j)
        && !user_excluded(req.exclude_journal_ids@, views(req.exclude_journal_names@), j)
        && !hard_excluded(profiles, j)
}

/// The journals that stay candidates before topic matching, in order.
pub open spec fn candidates_of(journals: Seq<JournalRecord>, req: RecommendationRequest, profiles: Seq<usize>) -> Seq<JournalRecord> {
    journals.filter(|j: JournalRecord| stays_candidate(req, profiles, j))
}

/// The pre-filter keeps exactly the journals that stay candidates: none the
/// user excluded (so a later round never brings back an excluded journal),
/// none the subject areas rule out, none outside the requested JIF
/// quartiles; and every journal that meets all three is kept.
pub proof fn prefilter_keeps_exactly_the_candidates(
    journals: Seq<JournalRecord>,
    req: RecommendationRequest,
    profiles: Seq<usize>,
)
    ensures
        forall|k: int| 0 <= k < candidates_of(journals, req, profiles).len() ==> {
            &&& !user_excluded(req.exclude_journal_ids@, views(req.exclude_journal_names@), #[trigger] candidates_of(journals, req, profiles)[k])
            &&& !hard_excluded(profiles, candidates_of(journals, req, profiles)[k])
            &&& jif_target_ok(views(req.target_jif_quartiles@), candidates_of(journals, req, profiles)[k])
            &&& journals.contains(candidates_of(journals, req, profiles)[k])
        },
        forall|i: int| 0 <= i < journals.len() && stays_candidate(req, profiles, #[trigger] journals[i]) ==>
            candidates_of(journals, req, profiles).contains(journals[i]),
{
    let pred = |j: JournalRecord| stays_candidate(req, profiles, j);
    let f = candidates_of(journals, req, profiles);
    assert(f == journals.filter(pred));
    #[allow(deprecated)]
    journals.filter_lemma(pred);
    assert forall|k: int| 0 <= k < f.len() implies {
        &&& !user_excluded(req.exclude_journal_ids@, views(req.exclude_journal_names@), #[trigger] f[k])
        &&& !hard_excluded(profiles, f[k])
        &&& jif_target_ok(views(req.target_jif_quartiles@), f[k])
        &&& journals.contains(f[k])
    } by {
        assert(pred(f[k]));
        assert(f.contains(f[k]));
        journals.lemma_filter_contains_rev(pred, f[k]);
    }
    assert forall|i: int| 0 <= i < journals.len() && stays_candidate(req, profiles, #[trigger] journals[i]) implies
        f.contains(journals[i]) by {
        assert(pred(journals[i]));
    }
}

fn jif_matches(targets: &Vec<String>, j: &JournalRecord) -> (r: bool)
    ensures
        r == jif_target_ok(views(targets@), *j),
{
    if targets.len() == 0 {
        return true;
    }
    let mut k: usize = 0;
    while k < targets.len()
        invariant
            k <= targets.len(),
            forall|m: int| 0 <= m < k ==> !contains_spec(j.jif_quartile@, #[trigger] views(targets@)[m]),
        decreases targets.len() - k,
    {
        if contains(j.jif_quartile.as_str(), targets[k].as_str()) {
            assert(views(targets@)[k as int] == targets@[k as int]@);
            return true;
        }
        assert(views(targets@)[k as int] == targets@[k as int]@);
        k = k + 1;
    }
    false
}

fn excluded_by_user(ids: &Vec<i64>, name_keys: &Vec<String>, names: &Vec<String>, j: &JournalRecord) -> (r: bool)
    requires
        name_keys.len() == names.len(),
        forall|k: int| 0 <= k < names.len() ==> #[trigger] name_keys@[k]@ == exclusion_key(names@[k]@),
    ensures
        r == user_excluded(ids@, views(names@), *j),
{
    let mut k: usize = 0;
    while k < ids.len()
        invariant
            k <= ids.len(),
            forall|m: int| 0 <= m < k ==> ids@[m] != j.id,
        decreases ids.len() - k,
    {
        if ids[k] == j.id {
            return true;
        }
        k = k + 1;
    }
    let key = normalize_for_exclusion(j.name.as_str());
    let mut m: usize = 0;
    while m < names.len()
        invariant
            m <= names.len() == name_keys.len(),
            key@ == exclusion_key(j.name@),
            !ids@.contains(j.id),
            forall|k: int| 0 <= k < names.len() ==> #[trigger] name_keys@[k]@ == exclusion_key(names@[k]@),
            forall|x: int| 0 <= x < m ==> !(exclusion_key(#[trigger] views(names@)[x]).len() > 0
                && exclusion_key(views(names@)[x]) == exclusion_key(j.name@)),
        decreases names.len() - m,
    {
        assert(views(names@)[m as int] == names@[m as int]@);
        if !name_keys[m].as_str().is_empty() && crate::text::str_eq(name_keys[m].as_str(), key.as_str()) {
            return true;
        }
        m = m + 1;
    }
    false
}

/// The catalogue journals that stay candidates, in catalogue order: those
/// in a requested JIF quartile, not excluded by the user, and not excluded
/// outright by the subject guard.
pub fn prefilter_journals(journals: &Vec<JournalRecord>, request: &RecommendationRequest, guard: &SubjectGuard) -> (r: Vec<JournalRecord>)
    requires
        guard.wf(),
    ensures
        r@ == candidates_of(journals@, *request, guard.profiles@),
{
    let ghost pred = |j: JournalRecord| stays_candidate(*request, guard.profiles@, j);
    let mut name_keys: Vec<String> = Vec::new();
    let mut n: usize = 0;
    while n < request.exclude_journal_names.len()
        invariant
            n <= request.exclude_journal_names.len(),
            name_keys.len() == n,
            forall|k: int| 0 <= k < n ==> #[trigger] name_keys@[k]@ == exclusion_key(request.exclude_journal_names@[k]@),
        decreases request.exclude_journal_names.len() - n,
    {
        name_keys.push(normalize_for_exclusion(request.exclude_journal_names[n].as_str()));
        n = n + 1;
    }
    let mut out: Vec<JournalRecord> = Vec::new();
    let mut i: usize = 0;
    while i < journals.len()
        invariant
            i <= journals.len(),
            guard.wf(),
            name_keys.len() == request.exclude_journal_names.len(),
            forall|k: int| 0 <= k < name_keys.len() ==> #[trigger] name_keys@[k]@ == exclusion_key(request.exclude_journal_names@[k]@),
            pred == (|j: JournalRecord| stays_candidate(*request, guard.profiles@, j)),
            out@ == journals@.take(i as int).filter(pred),
        decreases journals.len() - i,
    {
        proof {
            reveal_with_fuel(Seq::filter, 1);
            assert(journals@.take(i + 1).drop_last() =~= journals@.take(i as int));
            assert(journals@.take(i + 1).last() == journals@[i as int]);
        }
        let j = &journals[i];
        let keep = jif_matches(&request.target_jif_quartiles, j)
            && !excluded_by_user(&request.exclude_journal_ids, &name_keys, &request.exclude_journal_names, j)
            && !guard.is_hard_excluded(j);
        if keep {
            out.push(j.copy());
        }
        i = i + 1;
    }
    assert(journals@.take(i as int) =~= journals@);
    out
}

/// How many search terms occur in `text`.
pub open spec fn count_contained(text: Seq<char>, tokens: Seq<Seq<char>>) -> nat
    decreases tokens.len(),
{
    if tokens.len() == 0 {
        0
    } else {
        count_contained(text, tokens.drop_last()) + if contains_spec(text, tokens.last()) { 1nat } else { 0nat }
    }
}

/// How many of the search terms occur in a journal's searchable text.
pub fn topical_match_count(tokens: &Vec<String>, journal: &JournalRecord) -> (r: usize)
    ensures
        r as nat == count_contained(searchable_spec(*journal), views(tokens@)),
{
    let text = journal_searchable_text(journal);
    let mut n: usize = 0;
    let mut i: usize = 0;
    while i < tokens.len()
        invariant
            i <= tokens.len(),
            n <= i,
            text@ == searchable_spec(*journal),
            n as nat == count_contained(text@, views(tokens@).take(i as int)),
        decreases tokens.len() - i,
    {
        proof {
            assert(views(tokens@).take(i + 1).drop_last() =~= views(tokens@).take(i as int));
            assert(views(tokens@).take(i + 1).last() == tokens@[i as int]@);
        }
        if contains(text.as_str(), tokens[i].as_str()) {
            n = n + 1;
        }
        i = i + 1;
    }
    assert(views(tokens@).take(i as int) =~= views(tokens@));
    n
}

/// How many topic hits make a strong candidate: two when the query has at
/// least four search terms, otherwise one.
pub fn minimum_topic_hits(token_count: usize) -> (r: usize)
    ensures
        r == (if token_count >= 4 { 2usize } else { 1usize }),
{
    if token_count >= 4 { 2 } else { 1 }
}

/// Where a candidate journal ends up.
#[derive(PartialEq, Eq, Structural, Clone, Copy, Debug)]
pub enum CandidateTier {
    /// A good match, recommended normally.
    Strong,
    /// A weak match, shown only for reference when nothing matches well.
    Reference,
    /// No match.
    Dropped,
}

/// Sorts a journal by its matches. It must fit the subject areas (any
/// journal does when none is in force, otherwise its alignment must be
/// positive). Then enough topic hits or a strong semantic hit make a strong
/// candidate; one topic hit or a weak semantic hit a reference candidate.
/// `semantic_strong` and `semantic_weak` tell whether the journal's index
/// similarity reached the strong and the weak threshold.
pub fn classify_candidate(
    guard_empty: bool,
    alignment_half_points: u64,
    topical_hits: usize,
    minimum_hits: usize,
    semantic_strong: bool,
    semantic_weak: bool,
) -> (r: CandidateTier)
    ensures
        r == (if (guard_empty || alignment_half_points > 0) && (topical_hits >= minimum_hits || semantic_strong) {
            CandidateTier::Strong
        } else if (guard_empty || alignment_half_points > 0) && (topical_hits >= 1 || semantic_weak) {
            CandidateTier::Reference
        } else {
            CandidateTier::Dropped
        }),
{
    let domain_ok = guard_empty || alignment_half_points > 0;
    if domain_ok && (topical_hits >= minimum_hits || semantic_strong) {
        CandidateTier::Strong
    } else if domain_ok && (topical_hits >= 1 || semantic_weak) {
        CandidateTier::Reference
    } else {
        CandidateTier::Dropped
    }
}

// ---------------------------------------------------------------------------
// The rule-based part of a candidate's score
// ---------------------------------------------------------------------------

/// Databases that mark a Chinese core journal.
pub open spec fn chinese_core_dbs() -> Seq<&'static str> {
    seq!["CSSCI", "CSCD", "北大", "AMI"]
}

/// Databases that mark an international journal.
pub open spec fn international_dbs() -> Seq<&'static str> {
    seq!["SCIE", "SSCI"]
}

/// `matches_any`: one of the candidates occurs in the value.
pub open spec fn matches_any_spec(value: Seq<char>, candidates: Seq<&'static str>) -> bool {
    crate::text::contains_any_spec(value, strs(candidates))
}

/// Whether one of the candidate strings occurs in `value`.
pub fn matches_any(value: &str, candidates: &Vec<&'static str>) -> (r: bool)
    ensures
        r == matches_any_spec(value@, candidates@),
{
    crate::text::contains_any(value, candidates)
}

/// `a` when the condition holds, otherwise nothing.
pub open spec fn when(c: bool, a: int) -> int {
    if c { a } else { 0 }
}

/// The difficulty adjustment in half points: a safe or graduation strategy
/// loses two points on (very) hard journals and gains two on easy ones.
pub open spec fn difficulty_half(difficulty: Seq<char>, strategy: Seq<char>) -> int {
    let cautious = contains_spec(strategy, "稳妥"@) || contains_spec(strategy, "毕业"@);
    if (difficulty == "极难"@ || difficulty == "难"@) && cautious {
        -4
    } else if difficulty == "易"@ && cautious {
        4
    } else {
        0
    }
}

/// The rule score of a candidate journal, in half points. Preferences for
/// Chinese or English journals, EI and CCF, a Chinese journal type, the
/// target zone, the subject alignment (or a four-point penalty when areas
/// are in force and none aligns) and the difficulty adjustment add up.
pub open spec fn rule_half_points(req: RecommendationRequest, profiles: Seq<usize>, j: JournalRecord) -> int {
    let prefs = crate::text::join_spec(views(req.preferences@), " "@);
    let cn = matches_any_spec(j.source_db@, chinese_core_dbs());
    let tz = req.target_zone@;
    let align = alignment_half(profiles, j);
    when(contains_spec(prefs, "中文"@) && cn, 6)
        + when(contains_spec(prefs, "英文"@) && matches_any_spec(j.source_db@, international_dbs()), 6)
        + when(contains_spec(prefs, "EI"@) && !is_blank_spec(j.ei@), 4)
        + when(contains_spec(prefs, "CCF"@) && !is_blank_spec(j.ccf@), 4)
        + when(contains_spec(req.journal_type@, "中文"@) && cn, 4)
        + when(tz != "系统推荐"@ && (contains_spec(j.cas_zone@, tz) || contains_spec(j.cas_quartile@, tz)
            || contains_spec(j.jif_quartile@, tz)), 4)
        + (if align > 0 { align } else if profiles.len() > 0 { -8 } else { 0 })
        + difficulty_half(j.difficulty@, req.strategy@)
}

/// A safe or graduation strategy penalises hard journals and favours easy
/// ones: against the same journal with any other difficulty recorded, a
/// journal of difficulty "难" or "极难" scores strictly lower and one of
/// difficulty "易" strictly higher; every other part of the score is
/// unaffected by the difficulty.
pub proof fn cautious_strategy_ranks_by_difficulty(
    req: RecommendationRequest,
    profiles: Seq<usize>,
    j: JournalRecord,
    other: JournalRecord,
)
    requires
        other == (JournalRecord { difficulty: other.difficulty, ..j }),
        j.difficulty@ != "难"@,
        j.difficulty@ != "极难"@,
        j.difficulty@ != "易"@,
    ensures
        contains_spec(req.strategy@, "稳妥"@) || contains_spec(req.strategy@, "毕业"@) ==> {
            &&& (other.difficulty@ == "难"@ || other.difficulty@ == "极难"@) ==> rule_half_points(req, profiles, other)
                < rule_half_points(req, profiles, j)
            &&& other.difficulty@ == "易"@ ==> rule_half_points(req, profiles, other) > rule_half_points(req, profiles, j)
        },
        !(contains_spec(req.strategy@, "稳妥"@) || contains_spec(req.strategy@, "毕业"@)) ==> rule_half_points(
            req,
            profiles,
            other,
        ) == rule_half_points(req, profiles, j),
{
    reveal_strlit("难");
    reveal_strlit("极难");
    reveal_strlit("易");
    assert("难"@[0] != "易"@[0]);
    assert("极难"@.len() != "易"@.len());
    assert(searchable_raw(other) == searchable_raw(j));
    assert(alignment_half(profiles, other) == alignment_half(profiles, j));
}

fn flag_points(c: bool, a: i64) -> (r: i64)
    ensures
        r as int == when(c, a as int),
{
    if c { a } else { 0 }
}

fn difficulty_points(difficulty: &str, strategy: &str) -> (r: i64)
    ensures
        r as int == difficulty_half(difficulty@, strategy@),
{
    let cautious = contains(strategy, "稳妥") || contains(strategy, "毕业");
    if (crate::text::str_eq(difficulty, "极难") || crate::text::str_eq(difficulty, "难")) && cautious {
        -4
    } else if crate::text::str_eq(difficulty, "易") && cautious {
        4
    } else {
        0
    }
}

fn zone_matches(journal: &JournalRecord, tz: &str) -> (r: bool)
    ensures
        r == (tz@ != "系统推荐"@ && (contains_spec(journal.cas_zone@, tz@) || contains_spec(journal.cas_quartile@, tz@)
            || contains_spec(journal.jif_quartile@, tz@))),
{
    !crate::text::str_eq(tz, "系统推荐") && (contains(journal.cas_zone.as_str(), tz)
        || contains(journal.cas_quartile.as_str(), tz) || contains(journal.jif_quartile.as_str(), tz))
}

/// The rule score of a candidate journal for a request, in half points.
pub fn rule_score_half_points(request: &RecommendationRequest, guard: &SubjectGuard, journal: &JournalRecord) -> (r: i64)
    requires
        guard.wf(),
    ensures
        r as int == rule_half_points(*request, guard.profiles@, *journal),
{
    let prefs = crate::text::join(&request.preferences, " ");
    let cn_dbs: Vec<&'static str> = vec!["CSSCI", "CSCD", "北大", "AMI"];
    let en_dbs: Vec<&'static str> = vec!["SCIE", "SSCI"];
    let cn = matches_any(journal.source_db.as_str(), &cn_dbs);
    let p1 = flag_points(contains(prefs.as_str(), "中文") && cn, 6);
    let p2 = flag_points(contains(prefs.as_str(), "英文") && matches_any(journal.source_db.as_str(), &en_dbs), 6);
    let p3 = flag_points(contains(prefs.as_str(), "EI") && !is_blank(journal.ei.as_str()), 4);
    let p4 = flag_points(contains(prefs.as_str(), "CCF") && !is_blank(journal.ccf.as_str()), 4);
    let p5 = flag_points(contains(request.journal_type.as_str(), "中文") && cn, 4);
    let p6 = flag_points(zone_matches(journal, request.target_zone.as_str()), 4);
    let align = guard.alignment_score(journal);
    let p7: i64 = if align > 0 {
        align as i64
    } else if !guard.is_empty() {
        -8
    } else {
        0
    };
    let p8 = difficulty_points(journal.difficulty.as_str(), request.strategy.as_str());
    p1 + p2 + p3 + p4 + p5 + p6 + p7 + p8
}

/// The points a personal recommendation preference adds: "不推荐" −8,
/// "少推荐" −3, "保底" +2, "冲刺" +1, checked in that order.
pub open spec fn preference_points(p: Seq<char>) -> int {
    if contains_spec(p, "不推荐"@) {
        -8
    } else if contains_spec(p, "少推荐"@) {
        -3
    } else if contains_spec(p, "保底"@) {
        2
    } else if contains_spec(p, "冲刺"@) {
        1
    } else {
        0
    }
}

/// The adjustment a personal recommendation preference makes.
pub fn personal_preference_adjustment(preference: &str) -> (r: i64)
    ensures
        r as int == preference_points(preference@),
{
    if contains(preference, "不推荐") {
        -8
    } else if contains(preference, "少推荐") {
        -3
    } else if contains(preference, "保底") {
        2
    } else if contains(preference, "冲刺") {
        1
    } else {
        0
    }
}

/// The parts of the personal-experience line: difficulty, preference,
/// publication fee and review cycle, each when recorded.
pub open spec fn experience_parts(j: JournalRecord) -> Seq<Seq<char>> {
    labelled_part("难度："@, j.difficulty@) + labelled_part("推荐偏好："@, j.recommendation_preference@)
        + labelled_part("版面费："@, j.apc@) + labelled_part("审稿周期："@, j.review_cycle@)
}

/// The personal-experience line of a recommendation.
pub open spec fn experience_effect_spec(j: JournalRecord) -> Seq<char> {
    if experience_parts(j).len() == 0 {
        "个人经验：暂未记录"@
    } else {
        "个人经验："@ + crate::text::join_spec(experience_parts(j), "；"@)
    }
}


/// Summarises what the user recorded about a journal.
pub fn personal_experience_effect(journal: &JournalRecord) -> (r: String)
    ensures
        r@ == experience_effect_spec(*journal),
{
    let mut parts: Vec<String> = Vec::new();
    assert(views(parts@) =~= seq![]);
    push_labelled(&mut parts, "难度：", journal.difficulty.as_str());
    push_labelled(&mut parts, "推荐偏好：", journal.recommendation_preference.as_str());
    push_labelled(&mut parts, "版面费：", journal.apc.as_str());
    push_labelled(&mut parts, "审稿周期：", journal.review_cycle.as_str());
    assert(views(parts@) =~= experience_parts(*journal));
    if parts.len() == 0 {
        owned("个人经验：暂未记录")
    } else {
        let joined = crate::text::join(&parts, "；");
        cat("个人经验：", joined.as_str())
    }
}

/// Index chunk types that carry content evidence (not the basic profile).
pub open spec fn is_content_chunk(chunk_type: Seq<char>) -> bool {
    chunk_type == "scope"@ || chunk_type == "articles"@ || chunk_type == "experience"@ || chunk_type == "guidelines"@
}

/// Whether a search hit came from a content chunk.
pub fn is_content_rag_hit(chunk_type: &str) -> (r: bool)
    ensures
        r == is_content_chunk(chunk_type@),
{
    crate::text::str_eq(chunk_type, "scope") || crate::text::str_eq(chunk_type, "articles")
        || crate::text::str_eq(chunk_type, "experience") || crate::text::str_eq(chunk_type, "guidelines")
}

/// The evidence suffix for an index hit: the chunk type, a weak-reference
/// note for profile hits, and the snippet when there is one.
pub open spec fn rag_hit_note(chunk_type: Seq<char>, snippet: Seq<char>) -> Seq<char> {
    let note = if is_content_chunk(chunk_type) { seq![] } else { "（基础档案命中，仅作弱参考）"@ };
    if is_blank_spec(snippet) {
        "；RAG命中："@ + chunk_type + " chunk"@ + note
    } else {
        "；RAG命中："@ + chunk_type + " chunk"@ + note + "，"@ + snippet
    }
}

/// Explains an index hit in the evidence line.
pub fn explain_rag_hit(chunk_type: &str, snippet: &str) -> (r: String)
    ensures
        r@ == rag_hit_note(chunk_type@, snippet@),
{
    let mut s = cat("；RAG命中：", chunk_type);
    append(&mut s, " chunk");
    if !is_content_rag_hit(chunk_type) {
        append(&mut s, "（基础档案命中，仅作弱参考）");
    } else {
        assert(s@ + seq![] =~= s@);
    }
    if !is_blank(snippet) {
        append(&mut s, "，");
        append(&mut s, snippet);
    }
    s
}

// ---------------------------------------------------------------------------
// Warnings and the AI request
// ---------------------------------------------------------------------------

/// The warnings shown with recommendations.
pub open spec fn warnings_spec(low_info: bool, any_reference_only: bool, index: Option<(Seq<char>, Seq<char>)>) -> Seq<Seq<char>> {
    (if low_info { seq!["当前信息较少，推荐可能不够准确；AI 解释仅供初筛。"@] } else { seq![] })
        + (if any_reference_only { seq!["本地库没有高匹配期刊，以下是低匹配参考候选；请人工核验学科范围。"@] } else { seq![] })
        + match index {
            Some((status, detail)) => if status == "构建中"@ || status == "需要更新"@ {
                seq!["RAG/Embedding 索引"@ + status + "："@ + detail + "；索引完成后语义相似度会更稳定。"@]
            } else {
                seq![]
            },
            None => seq![],
        }
}

/// The warnings for a set of recommendations: little information, only
/// reference candidates, and an index still building or out of date
/// (`index` is the status and detail of the index, when they could be read).
pub fn recommendation_warnings(low_info: bool, any_reference_only: bool, index: Option<(String, String)>) -> (r: Vec<String>)
    ensures
        views(r@) == warnings_spec(low_info, any_reference_only, match index {
            Some((s, d)) => Some((s@, d@)),
            None => None,
        }),
{
    let mut w: Vec<String> = Vec::new();
    let ghost v0 = views(w@);
    if low_info {
        w.push(owned("当前信息较少，推荐可能不够准确；AI 解释仅供初筛。"));
    }
    let ghost v1 = views(w@);
    if any_reference_only {
        w.push(owned("本地库没有高匹配期刊，以下是低匹配参考候选；请人工核验学科范围。"));
    }
    let ghost v2 = views(w@);
    match index {
        Some((status, detail)) => {
            if crate::text::str_eq(status.as_str(), "构建中") || crate::text::str_eq(status.as_str(), "需要更新") {
                let mut m = cat("RAG/Embedding 索引", status.as_str());
                append(&mut m, "：");
                append(&mut m, detail.as_str());
                append(&mut m, "；索引完成后语义相似度会更稳定。");
                w.push(m);
            }
        }
        None => {}
    }
    assert(views(w@) =~= warnings_spec(low_info, any_reference_only, match index {
        Some((s, d)) => Some((s@, d@)),
        None => None,
    }));
    w
}

/// No warning when the list is empty, otherwise the warnings joined with
/// "；".
pub fn warning_parts_to_option(warnings: Vec<String>) -> (r: Option<String>)
    ensures
        r == (if warnings@.len() == 0 { None::<String> } else { r }),
        warnings@.len() > 0 ==> r is Some && r->0@ == crate::text::join_spec(views(warnings@), "；"@),
{
    if warnings.len() == 0 {
        None
    } else {
        Some(crate::text::join(&warnings, "；"))
    }
}

/// The warning when the AI call failed: the earlier warnings and the error,
/// leaving out blank parts, joined with "；".
pub open spec fn ai_failure_warning_spec(parts: Seq<Seq<char>>, error: Seq<char>) -> Seq<char> {
    crate::text::join_spec(
        seq![crate::text::join_spec(parts, "；"@), "AI 推荐暂不可用，已使用本地规则兜底："@ + error]
            .filter(|x: Seq<char>| !is_blank_spec(x)),
        "；"@,
    )
}

/// The warning when the AI call failed and the local ranking stands.
pub fn ai_failure_warning(parts: &Vec<String>, error: &str) -> (r: String)
    ensures
        r@ == ai_failure_warning_spec(views(parts@), error@),
{
    let first = crate::text::join(parts, "；");
    let second = cat("AI 推荐暂不可用，已使用本地规则兜底：", error);
    let ghost all = seq![first@, second@];
    let ghost pred = |x: Seq<char>| !is_blank_spec(x);
    let mut kept: Vec<String> = Vec::new();
    proof {
        reveal_with_fuel(Seq::filter, 3);
        assert(all.take(1).drop_last() =~= seq![]);
        assert(all.drop_last() =~= seq![first@]);
        assert(seq![first@].drop_last() =~= Seq::<Seq<char>>::empty());
    }
    let first_blank = is_blank(first.as_str());
    let second_blank = is_blank(second.as_str());
    if !first_blank {
        kept.push(first);
    }
    if !second_blank {
        kept.push(second);
    }
    assert(views(kept@) =~= all.filter(pred));
    crate::text::join(&kept, "；")
}

/// The request as sent to the AI service: keywords and full text are left
/// out when only title and abstract may be sent, the full text alone when
/// it may not be sent.
pub fn prompt_request(request: &RecommendationRequest) -> (r: RecommendationRequest)
    ensures
        r.title == request.title,
        r.abstract_text == request.abstract_text,
        r.keywords@ == (if request.ai_title_abstract_only { Seq::<char>::empty() } else { request.keywords@ }),
        r.full_text@ == (if request.ai_title_abstract_only || request.do_not_send_full_text {
            Seq::<char>::empty()
        } else {
            request.full_text@
        }),
        r.preferences@ == request.preferences@,
        r.journal_type == request.journal_type,
        r.target_zone == request.target_zone,
        r.target_jif_quartiles@ == request.target_jif_quartiles@,
        r.strategy == request.strategy,
        r.privacy_mode == request.privacy_mode,
        r.disable_web_search == request.disable_web_search,
        r.do_not_send_full_text == request.do_not_send_full_text,
        r.ai_title_abstract_only == request.ai_title_abstract_only,
        r.exclude_journal_ids@ == request.exclude_journal_ids@,
        r.exclude_journal_names@ == request.exclude_journal_names@,
        r.refresh_round == request.refresh_round,
{
    let keywords = if request.ai_title_abstract_only { String::new() } else { request.keywords.clone() };
    let full_text = if request.ai_title_abstract_only || request.do_not_send_full_text {
        String::new()
    } else {
        request.full_text.clone()
    };
    RecommendationRequest {
        title: request.title.clone(),
        abstract_text: request.abstract_text.clone(),
        keywords,
        full_text,
        preferences: crate::text::clone_strings(&request.preferences),
        journal_type: request.journal_type.clone(),
        target_zone: request.target_zone.clone(),
        target_jif_quartiles: crate::text::clone_strings(&request.target_jif_quartiles),
        strategy: request.strategy.clone(),
        privacy_mode: request.privacy_mode,
        disable_web_search: request.disable_web_search,
        do_not_send_full_text: request.do_not_send_full_text,
        ai_title_abstract_only: request.ai_title_abstract_only,
        exclude_journal_ids: request.exclude_journal_ids.clone(),
        exclude_journal_names: crate::text::clone_strings(&request.exclude_journal_names),
        refresh_round: request.refresh_round,
    }
}

/// The fit level of the `index`-th recommendation: all "参考" when only
/// reference candidates remain, otherwise one "冲刺", two "稳妥", two "保底".
pub open spec fn fit_level_spec(reference_only: bool, index: int) -> Seq<char> {
    if reference_only {
        "参考"@
    } else if index == 0 {
        "冲刺"@
    } else if index <= 2 {
        "稳妥"@
    } else {
        "保底"@
    }
}

/// The fit level of a recommendation by its rank.
pub fn fit_level(reference_only: bool, index: usize) -> (r: String)
    requires
        index < 5,
    ensures
        r@ == fit_level_spec(reference_only, index as int),
{
    if reference_only {
        owned("参考")
    } else if index == 0 {
        owned("冲刺")
    } else if index <= 2 {
        owned("稳妥")
    } else {
        owned("保底")
    }
}


// ---------------------------------------------------------------------------
// Assembling the local ranking
// ---------------------------------------------------------------------------

/// The search text of a request: title, abstract, keywords and full text
/// joined with spaces, lower-cased.
pub open spec fn query_spec(request: RecommendationRequest) -> Seq<char> {
    lowercase(request.title@ + " "@ + request.abstract_text@ + " "@ + request.keywords@ + " "@ + request.full_text@)
}

/// The search text of a request (see `query_spec`).
pub fn recommendation_query(request: &RecommendationRequest) -> (r: String)
    ensures
        r@ == query_spec(*request),
{
    let mut q = cat(request.title.as_str(), " ");
    append(&mut q, request.abstract_text.as_str());
    append(&mut q, " ");
    append(&mut q, request.keywords.as_str());
    append(&mut q, " ");
    append(&mut q, request.full_text.as_str());
    to_lowercase(q.as_str())
}

/// The catalogue part of a journal's score: 10 for recorded subjects, 8 for
/// a recorded source database, 4 for a recorded impact factor.
pub open spec fn catalogue_points_spec(j: JournalRecord, has_impact_factor: bool) -> nat {
    (if is_blank_spec(j.subjects@) { 0nat } else { 10nat })
        + (if is_blank_spec(j.source_db@) { 0nat } else { 8nat })
        + (if has_impact_factor { 4nat } else { 0nat })
}

/// The catalogue part of a journal's score.
pub fn catalogue_points(journal: &JournalRecord, has_impact_factor: bool) -> (r: u64)
    ensures
        r as nat == catalogue_points_spec(*journal, has_impact_factor),
{
    let a: u64 = if is_blank(journal.subjects.as_str()) { 0 } else { 10 };
    let b: u64 = if is_blank(journal.source_db.as_str()) { 0 } else { 8 };
    let c: u64 = if has_impact_factor { 4 } else { 0 };
    a + b + c
}

/// The positions in `tiers` of the given tier, in order.
pub open spec fn positions_of(tiers: Seq<CandidateTier>, tier: CandidateTier) -> Seq<int>
    decreases tiers.len(),
{
    if tiers.len() == 0 {
        seq![]
    } else if tiers.last() == tier {
        positions_of(tiers.drop_last(), tier).push(tiers.len() - 1)
    } else {
        positions_of(tiers.drop_last(), tier)
    }
}

/// The candidates that are ranked, by position: the strong ones when there
/// are any; otherwise the reference ones, and then only for reference (the
/// `bool`).
pub fn candidate_pool(tiers: &Vec<CandidateTier>) -> (r: (Vec<usize>, bool))
    ensures
        r.1 == (positions_of(tiers@, CandidateTier::Strong).len() == 0),
        r.0@.map_values(|k: usize| k as int) == (if r.1 {
            positions_of(tiers@, CandidateTier::Reference)
        } else {
            positions_of(tiers@, CandidateTier::Strong)
        }),
{
    let mut strong: Vec<usize> = Vec::new();
    let mut reference: Vec<usize> = Vec::new();
    let mut i: usize = 0;
    while i < tiers.len()
        invariant
            i <= tiers.len(),
            strong@.map_values(|k: usize| k as int) == positions_of(tiers@.take(i as int), CandidateTier::Strong),
            reference@.map_values(|k: usize| k as int) == positions_of(tiers@.take(i as int), CandidateTier::Reference),
        decreases tiers.len() - i,
    {
        proof {
            assert(tiers@.take(i as int + 1).drop_last() =~= tiers@.take(i as int));
        }
        let t = tiers[i];
        if t == CandidateTier::Strong {
            strong.push(i);
        } else if t == CandidateTier::Reference {
            reference.push(i);
        }
        assert(strong@.map_values(|k: usize| k as int) =~= positions_of(tiers@.take(i as int + 1), CandidateTier::Strong));
        assert(reference@.map_values(|k: usize| k as int) =~= positions_of(tiers@.take(i as int + 1), CandidateTier::Reference));
        i = i + 1;
    }
    assert(tiers@.take(tiers@.len() as int) =~= tiers@);
    let reference_only = strong.len() == 0;
    if reference_only {
        (reference, true)
    } else {
        (strong, false)
    }
}

/// Where a recommendation came from: the index as well when it had a hit for
/// the journal.
pub fn recommendation_source(has_rag_hit: bool) -> (r: String)
    ensures
        r@ == (if has_rag_hit { "本地 SQLite + RAG/FTS + 规则"@ } else { "本地 SQLite + 规则"@ }),
{
    if has_rag_hit { owned("本地 SQLite + RAG/FTS + 规则") } else { owned("本地 SQLite + 规则") }
}

/// The journal's website, when one is recorded.
pub fn recommendation_website(journal: &JournalRecord) -> (r: Option<String>)
    ensures
        is_blank_spec(journal.website@) ==> r is None,
        !is_blank_spec(journal.website@) ==> r == Some(journal.website),
{
    if is_blank(journal.website.as_str()) { None } else { Some(journal.website.clone()) }
}

/// The evidence line of a recommendation: the subject areas, the catalogue
/// fields, the impact factor (or "未记录") and what the index found.
pub open spec fn evidence_spec(
    label: Seq<char>,
    j: JournalRecord,
    impact_factor: Option<Seq<char>>,
    rag_explanation: Seq<char>,
) -> Seq<char> {
    "投稿方向："@ + label + "；来源："@ + j.source_db@ + "；学科："@ + j.subjects@ + "；JIF："@ + j.jif_quartile@
        + "；中科院："@ + j.cas_quartile@ + "；影响因子："@ + (match impact_factor {
        Some(f) => f,
        None => "未记录"@,
    }) + rag_explanation
}

/// The evidence line of a recommendation (see `evidence_spec`);
/// `impact_factor` is the recorded impact factor as text.
pub fn recommendation_evidence(
    label: &str,
    journal: &JournalRecord,
    impact_factor: Option<&str>,
    rag_explanation: &str,
) -> (r: String)
    ensures
        r@ == evidence_spec(label@, *journal, match impact_factor {
            Some(f) => Some(f@),
            None => None,
        }, rag_explanation@),
{
    let mut e = cat("投稿方向：", label);
    append(&mut e, "；来源：");
    append(&mut e, journal.source_db.as_str());
    append(&mut e, "；学科：");
    append(&mut e, journal.subjects.as_str());
    append(&mut e, "；JIF：");
    append(&mut e, journal.jif_quartile.as_str());
    append(&mut e, "；中科院：");
    append(&mut e, journal.cas_quartile.as_str());
    append(&mut e, "；影响因子：");
    match impact_factor {
        Some(f) => append(&mut e, f),
        None => append(&mut e, "未记录"),
    }
    append(&mut e, rag_explanation);
    e
}

/// The risk note of every local recommendation.
pub const LOCAL_RISK_NOTE: &'static str = "推荐依据来自本地库和本地索引；分区、影响因子、收录情况和官网投稿要求仍需人工核验。";

/// How many recommendations a ranking keeps.
pub const RECOMMENDATIONS_KEPT: usize = 5;

/// The opening of a recommendation's reason: a note when only reference
/// candidates are left.
pub fn reason_prefix(reference_only: bool) -> (r: String)
    ensures
        r@ == (if reference_only { "本地库没有高匹配期刊，以下是低匹配参考候选；"@ } else { Seq::<char>::empty() }),
{
    if reference_only { owned("本地库没有高匹配期刊，以下是低匹配参考候选；") } else { String::new() }
}

// ---------------------------------------------------------------------------
// The AI round
// ---------------------------------------------------------------------------

/// The instruction that makes the AI service a submission adviser bound to
/// the candidates it is given.
pub open spec fn ai_system_prompt_spec() -> Seq<char> {
    "你是严谨的科研投稿顾问。只能从用户提供的候选期刊中选择和解释，不允许编造候选外期刊。优先返回简短中文说明。"@
}

/// The user message sent to the AI service: the manuscript, at most 6000
/// characters of its full text, the preferences joined with "、", the
/// targets, the candidates as JSON and the task.
pub open spec fn ai_prompt_spec(request: RecommendationRequest, candidates_json: Seq<char>) -> Seq<char> {
    "论文题目："@ + request.title@
        + "\n关键词："@ + request.keywords@
        + "\n摘要："@ + request.abstract_text@
        + "\n正文节选："@ + crate::text::take_chars_spec(request.full_text@, 6000)
        + "\n投稿偏好："@ + crate::text::join_spec(views(request.preferences@), "、"@)
        + "\n目标期刊类型："@ + request.journal_type@
        + "\n目标分区："@ + request.target_zone@
        + "\n推荐策略："@ + request.strategy@
        + "\n候选期刊 JSON："@ + candidates_json
        + "\n\n请从候选中推荐 5 个，并说明每个期刊的定位、匹配依据、个人经验影响和风险提醒。联网信息、影响因子、分区和收录情况必须提示人工核验。"@
}

/// The user message for the AI service (see `ai_prompt_spec`).
pub fn build_ai_prompt(request: &RecommendationRequest, candidates_json: &str) -> (r: String)
    ensures
        r@ == ai_prompt_spec(*request, candidates_json@),
{
    let mut m = cat("论文题目：", request.title.as_str());
    append(&mut m, "\n关键词：");
    append(&mut m, request.keywords.as_str());
    append(&mut m, "\n摘要：");
    append(&mut m, request.abstract_text.as_str());
    append(&mut m, "\n正文节选：");
    let excerpt = crate::text::take_chars(request.full_text.as_str(), 6000);
    append(&mut m, excerpt.as_str());
    append(&mut m, "\n投稿偏好：");
    let prefs = crate::text::join(&request.preferences, "、");
    append(&mut m, prefs.as_str());
    append(&mut m, "\n目标期刊类型：");
    append(&mut m, request.journal_type.as_str());
    append(&mut m, "\n目标分区：");
    append(&mut m, request.target_zone.as_str());
    append(&mut m, "\n推荐策略：");
    append(&mut m, request.strategy.as_str());
    append(&mut m, "\n候选期刊 JSON：");
    append(&mut m, candidates_json);
    append(
        &mut m,
        "\n\n请从候选中推荐 5 个，并说明每个期刊的定位、匹配依据、个人经验影响和风险提醒。联网信息、影响因子、分区和收录情况必须提示人工核验。",
    );
    m
}

/// What the AI round does next, once the local ranking is known.
pub enum AiRecommendStep {
    /// The input is not enough to recommend: the request fails with this message.
    Refused(String),
    /// No local candidate matched: no items, and this warning.
    NoCandidates(String),
    /// Privacy mode: the local items stand with this warning, and no AI call is made.
    LocalOnly(String),
    /// Ask the AI service with this system message and this user message.
    AskAi(String, String),
}

/// The warning when nothing in the local catalogue matched.
pub open spec fn no_candidates_warning_spec() -> Seq<char> {
    "本地期刊库中没有找到与当前论文主题匹配的候选期刊，不是软件故障。可补充英文关键词、放宽分区筛选，或使用联网补充继续查找。"@
}

/// The note added to the warnings in privacy mode.
pub open spec fn privacy_note_spec() -> Seq<char> {
    "隐私模式已开启：本次仅使用本地 RAG/规则推荐，没有调用 AI 接口。"@
}

/// Decides the AI round: refuse input that cannot be recommended on, report
/// an empty local ranking, stay local in privacy mode, and otherwise ask the
/// AI service about the request as it may be sent (`prompt_request`), with
/// the local candidates given as JSON.
pub fn plan_ai_recommendation(
    quality: &InputQuality,
    request: &RecommendationRequest,
    has_local_items: bool,
    warning_parts: &Vec<String>,
    candidates_json: &str,
) -> (r: AiRecommendStep)
    ensures
        !quality.can_recommend ==> r == AiRecommendStep::Refused(quality.message),
        quality.can_recommend && !has_local_items ==> (r matches AiRecommendStep::NoCandidates(w)
            && w@ == no_candidates_warning_spec()),
        quality.can_recommend && has_local_items && request.privacy_mode ==> (r matches AiRecommendStep::LocalOnly(w)
            && w@ == crate::text::join_spec(views(warning_parts@).push(privacy_note_spec()), "；"@)),
        quality.can_recommend && has_local_items && !request.privacy_mode ==> (r matches AiRecommendStep::AskAi(sys, user)
            && sys@ == ai_system_prompt_spec()
            && exists|sent: RecommendationRequest| {
                &&& sent.title == request.title
                &&& sent.abstract_text == request.abstract_text
                &&& sent.keywords@ == (if request.ai_title_abstract_only { Seq::<char>::empty() } else { request.keywords@ })
                &&& sent.full_text@ == (if request.ai_title_abstract_only || request.do_not_send_full_text {
                    Seq::<char>::empty()
                } else {
                    request.full_text@
                })
                &&& sent.preferences@ == request.preferences@
                &&& sent.journal_type == request.journal_type
                &&& sent.target_zone == request.target_zone
                &&& sent.strategy == request.strategy
                &&& user@ == ai_prompt_spec(sent, candidates_json@)
            }),
{
    if !quality.can_recommend {
        return AiRecommendStep::Refused(quality.message.clone());
    }
    if !has_local_items {
        return AiRecommendStep::NoCandidates(owned(
            "本地期刊库中没有找到与当前论文主题匹配的候选期刊，不是软件故障。可补充英文关键词、放宽分区筛选，或使用联网补充继续查找。",
        ));
    }
    if request.privacy_mode {
        let mut parts = crate::text::clone_strings(warning_parts);
        parts.push(owned("隐私模式已开启：本次仅使用本地 RAG/规则推荐，没有调用 AI 接口。"));
        assert(views(parts@) =~= views(warning_parts@).push(privacy_note_spec()));
        return AiRecommendStep::LocalOnly(crate::text::join(&parts, "；"));
    }
    let sent = prompt_request(request);
    let user = build_ai_prompt(&sent, candidates_json);
    AiRecommendStep::AskAi(
        owned("你是严谨的科研投稿顾问。只能从用户提供的候选期刊中选择和解释，不允许编造候选外期刊。优先返回简短中文说明。"),
        user,
    )
}

/// The warning and the AI text of the answer, once the AI service has
/// replied (`Ok` with its text) or failed (`Err` with the error): on a reply
/// the earlier warnings and the text, on a failure the failure warning and
/// no text. The local items stand either way.
pub fn ai_outcome(warning_parts: Vec<String>, outcome: Result<String, String>) -> (r: (Option<String>, Option<String>))
    ensures
        outcome is Ok ==> (r.1 == Some(outcome->Ok_0) && (warning_parts@.len() == 0 ==> r.0 is None) && (
        warning_parts@.len() > 0 ==> r.0 is Some && (r.0)->0@ == crate::text::join_spec(views(warning_parts@), "；"@))),
        outcome is Err ==> (r.1 is None && r.0 is Some && (r.0)->0@ == ai_failure_warning_spec(views(warning_parts@), (outcome->Err_0)@)),
{
    match outcome {
        Ok(text) => (warning_parts_to_option(warning_parts), Some(text)),
        Err(error) => (Some(ai_failure_warning(&warning_parts, error.as_str())), None),
    }
}

// ---------------------------------------------------------------------------
// Placeholder recommendations
// ---------------------------------------------------------------------------

/// The texts of one placeholder recommendation (its scores are all zero and
/// it is a reference candidate without journal id or website).
pub struct FallbackText {
    pub journal_name: String,
    pub fit_level: String,
    pub source: String,
    pub personal_experience_effect: String,
    pub reason: String,
    pub evidence: String,
    pub risk: String,
}

/// The manuscript topic named in the placeholder reasons.
pub open spec fn fallback_topic(title: Seq<char>) -> Seq<char> {
    if is_blank_spec(title) { "当前论文主题"@ } else { trim_spec(title) }
}

/// The fit level of the `i`-th placeholder: one "冲刺", two "稳妥", two "保底".
pub open spec fn fallback_level(i: int) -> Seq<char> {
    fit_level_spec(false, i)
}

/// Whether `t` is the `i`-th placeholder recommendation for a manuscript
/// titled `title`.
pub open spec fn is_fallback_text(t: FallbackText, i: int, title: Seq<char>) -> bool {
    &&& t.journal_name@ == "待从本地库匹配的候选期刊 "@ + crate::text::decimal((i + 1) as nat)
    &&& t.fit_level@ == fallback_level(i)
    &&& t.source@ == "本地规则兜底"@
    &&& t.personal_experience_effect@ == "暂无个人经验修正。"@
    &&& t.reason@ == "AI/RAG 尚未完成或不可用时，先按旧版规则为《"@ + fallback_topic(title) + "》保留本地兜底推荐链路。"@
    &&& t.evidence@ == "后续将接入 SQLite 硬筛选、FTS5/BM25 和向量召回。"@
    &&& t.risk@ == "这是骨架阶段占位结果，正式推荐必须来自本地候选库。"@
}

/// The five placeholder recommendations used while neither AI nor the index
/// can answer.
pub fn local_fallback_texts(title: &str) -> (r: Vec<FallbackText>)
    ensures
        r@.len() == 5,
        forall|i: int| 0 <= i < 5 ==> is_fallback_text(#[trigger] r@[i], i, title@),
{
    let blank = is_blank(title);
    let topic = if blank { owned("当前论文主题") } else { trim(title) };
    let mut out: Vec<FallbackText> = Vec::new();
    let mut i: usize = 0;
    while i < 5
        invariant
            i <= 5,
            out@.len() == i,
            topic@ == fallback_topic(title@),
            forall|k: int| 0 <= k < i ==> is_fallback_text(#[trigger] out@[k], k, title@),
        decreases 5 - i,
    {
        let n = crate::text::decimal_usize(i + 1);
        let name = cat("待从本地库匹配的候选期刊 ", n.as_str());
        let mut reason = cat("AI/RAG 尚未完成或不可用时，先按旧版规则为《", topic.as_str());
        append(&mut reason, "》保留本地兜底推荐链路。");
        let t = FallbackText {
            journal_name: name,
            fit_level: fit_level(false, i),
            source: owned("本地规则兜底"),
            personal_experience_effect: owned("暂无个人经验修正。"),
            reason,
            evidence: owned("后续将接入 SQLite 硬筛选、FTS5/BM25 和向量召回。"),
            risk: owned("这是骨架阶段占位结果，正式推荐必须来自本地候选库。"),
        };
        out.push(t);
        i = i + 1;
    }
    out
}

} // verus!
