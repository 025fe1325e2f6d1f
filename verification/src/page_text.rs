//! Reading the plain text of a journal's official pages: cutting out the
//! section under a heading, the open-access and fee statements, the review
//! cycle line, and guessing the open-access type from what was found.
//!
//! Positions follow `str::find` and `str::get`: they are byte offsets into
//! the UTF-8 encoding, and an offset that does not fall on a character
//! boundary yields nothing, exactly as the slicing methods do.
use vstd::prelude::*;
use vstd::utf8::{decode_utf8, encode_utf8, is_char_boundary};
use vstd::string::StringSliceAdditionalSpecFns;
use crate::patterns::{or_keep, regex_replace_all, replace_pattern};
use crate::text::{
    join, join_spec, replace, replace_spec, split_whitespace, ws_words,
    chars_of, contains, contains_any, contains_any_spec, contains_spec, lowercase, split_char, split_spec,
    owned, strs, take_chars, take_chars_spec, to_lowercase, trim, trim_spec, utf8_len, utf8_len_at_least, views,
};

verus! {

// ---------------------------------------------------------------------------
// Byte search
// ---------------------------------------------------------------------------

/// `t` occurs in `s` at byte offset `i`.
pub open spec fn bytes_at(s: Seq<u8>, t: Seq<u8>, i: int) -> bool {
    0 <= i && i + t.len() <= s.len() && s.subrange(i, i + t.len()) == t
}

/// The first offset at or after `k` where `t` occurs in `s`.
pub open spec fn find_from(s: Seq<u8>, t: Seq<u8>, k: int) -> Option<int>
    decreases s.len() + 1 - k,
{
    if k < 0 || k + t.len() > s.len() {
        None
    } else if bytes_at(s, t, k) {
        Some(k)
    } else {
        find_from(s, t, k + 1)
    }
}

/// What `str::find` returns for a string pattern, on the encodings.
pub open spec fn byte_find(s: Seq<u8>, t: Seq<u8>) -> Option<int> {
    find_from(s, t, 0)
}

fn bytes_match_at(s: &[u8], t: &[u8], i: usize) -> (r: bool)
    requires
        i + t@.len() <= s@.len(),
    ensures
        r == bytes_at(s@, t@, i as int),
{
    let n = s.len();
    let mut k: usize = 0;
    while k < t.len()
        invariant
            n == s@.len(),
            i + t@.len() <= s@.len(),
            k <= t@.len(),
            forall|m: int| 0 <= m < k ==> s@[i + m] == t@[m],
        decreases t@.len() - k,
    {
        if s[i + k] != t[k] {
            assert(s@.subrange(i as int, i + t@.len())[k as int] != t@[k as int]);
            return false;
        }
        k = k + 1;
    }
    assert(s@.subrange(i as int, i + t@.len()) =~= t@);
    true
}

/// The first byte offset at which `t` occurs in `s`.
pub fn find_bytes(s: &[u8], t: &[u8]) -> (r: Option<usize>)
    ensures
        match r {
            Some(i) => byte_find(s@, t@) == Some(i as int),
            None => byte_find(s@, t@) is None,
        },
{
    if t.len() > s.len() {
        return None;
    }
    let last = s.len() - t.len();
    let mut i: usize = 0;
    while i < last
        invariant
            last + t@.len() == s@.len(),
            i <= last,
            find_from(s@, t@, 0) == find_from(s@, t@, i as int),
        decreases last - i,
    {
        if bytes_match_at(s, t, i) {
            return Some(i);
        }
        i = i + 1;
    }
    if bytes_match_at(s, t, last) {
        Some(last)
    } else {
        assert(find_from(s@, t@, last + 1) is None);
        None
    }
}

/// The earlier of two optional offsets.
pub open spec fn opt_min(a: Option<int>, b: Option<int>) -> Option<int> {
    match (a, b) {
        (Some(x), Some(y)) => Some(if x <= y { x } else { y }),
        (Some(x), None) => Some(x),
        (None, y) => y,
    }
}

/// Where, in the lower-cased text `lower`, the first of the headings that
/// occurs (taken in list order) ends: its offset plus the heading's own
/// byte length.
pub open spec fn heading_end(lower: Seq<u8>, headings: Seq<Seq<char>>) -> Option<int>
    decreases headings.len(),
{
    if headings.len() == 0 {
        None
    } else {
        match heading_end(lower, headings.drop_last()) {
            Some(e) => Some(e),
            None => match byte_find(lower, encode_utf8(lowercase(headings.last()))) {
                Some(i) => Some(i + utf8_len(headings.last())),
                None => None,
            },
        }
    }
}

/// The earliest offset at which any of the markers occurs in `lower`.
pub open spec fn earliest_marker(lower: Seq<u8>, markers: Seq<Seq<char>>) -> Option<int>
    decreases markers.len(),
{
    if markers.len() == 0 {
        None
    } else {
        opt_min(earliest_marker(lower, markers.drop_last()), byte_find(lower, encode_utf8(lowercase(markers.last()))))
    }
}

fn lowered_bytes_find(lower: &[u8], pattern: &str) -> (r: Option<usize>)
    ensures
        match r {
            Some(i) => byte_find(lower@, encode_utf8(lowercase(pattern@))) == Some(i as int),
            None => byte_find(lower@, encode_utf8(lowercase(pattern@))) is None,
        },
{
    let p = to_lowercase(pattern);
    find_bytes(lower, p.as_str().as_bytes())
}

fn find_heading_end(lower: &[u8], headings: &Vec<&str>) -> (r: Option<usize>)
    ensures
        match r {
            Some(e) => heading_end(lower@, strs(headings@)) == Some(e as int),
            None => heading_end(lower@, strs(headings@)) is None
                || heading_end(lower@, strs(headings@)).unwrap() > usize::MAX,
        },
{
    let mut k: usize = 0;
    while k < headings.len()
        invariant
            k <= headings@.len(),
            heading_end(lower@, strs(headings@).take(k as int)) is None,
        decreases headings@.len() - k,
    {
        let h = headings[k];
        proof {
            assert(strs(headings@).take(k + 1).drop_last() =~= strs(headings@).take(k as int));
            assert(strs(headings@).take(k + 1).last() == h@);
        }
        match lowered_bytes_find(lower, h) {
            Some(i) => {
                proof {
                    lemma_heading_end_prefix(lower@, strs(headings@), k as int + 1);
                }
                return i.checked_add(h.as_bytes().len());
            },
            None => {},
        }
        k = k + 1;
    }
    assert(strs(headings@).take(k as int) =~= strs(headings@));
    None
}

proof fn lemma_heading_end_prefix(lower: Seq<u8>, hs: Seq<Seq<char>>, k: int)
    requires
        0 <= k <= hs.len(),
        heading_end(lower, hs.take(k)) is Some,
    ensures
        heading_end(lower, hs) == heading_end(lower, hs.take(k)),
    decreases hs.len() - k,
{
    if k < hs.len() {
        assert(hs.take(k + 1).drop_last() =~= hs.take(k));
        lemma_heading_end_prefix(lower, hs, k + 1);
    } else {
        assert(hs.take(k) =~= hs);
    }
}

fn find_earliest_marker(lower: &[u8], markers: &Vec<&str>) -> (r: Option<usize>)
    ensures
        match r {
            Some(e) => earliest_marker(lower@, strs(markers@)) == Some(e as int),
            None => earliest_marker(lower@, strs(markers@)) is None,
        },
{
    let mut best: Option<usize> = None;
    let mut k: usize = 0;
    while k < markers.len()
        invariant
            k <= markers@.len(),
            match best {
                Some(e) => earliest_marker(lower@, strs(markers@).take(k as int)) == Some(e as int),
                None => earliest_marker(lower@, strs(markers@).take(k as int)) is None,
            },
        decreases markers@.len() - k,
    {
        let m = markers[k];
        proof {
            assert(strs(markers@).take(k + 1).drop_last() =~= strs(markers@).take(k as int));
            assert(strs(markers@).take(k + 1).last() == m@);
        }
        match lowered_bytes_find(lower, m) {
            Some(i) => {
                best = match best {
                    Some(b) => Some(if b <= i { b } else { i }),
                    None => Some(i),
                };
            },
            None => {},
        }
        k = k + 1;
    }
    assert(strs(markers@).take(k as int) =~= strs(markers@));
    best
}

// ---------------------------------------------------------------------------
// Sections
// ---------------------------------------------------------------------------

/// Headings at which a section ends.
pub open spec fn section_boundaries() -> Seq<Seq<char>> {
    seq![
        "author guidelines"@,
        "instructions for authors"@,
        "submission guidelines"@,
        "references"@,
        "contact"@,
        "投稿指南"@,
        "投稿须知"@,
    ]
}

fn boundary_list() -> (r: Vec<&'static str>)
    ensures
        strs(r@) == section_boundaries(),
{
    let r = vec![
        "author guidelines",
        "instructions for authors",
        "submission guidelines",
        "references",
        "contact",
        "投稿指南",
        "投稿须知",
    ];
    assert(strs(r@) =~= section_boundaries());
    r
}

/// The text under the first of `headings` (searched case-insensitively,
/// in list order) that occurs in `text`: from the end of the heading up to
/// the earliest section boundary, or 1200 bytes when none follows, trimmed
/// and cut to 1200 characters. Empty when no heading occurs or when an
/// offset falls inside a character.
pub open spec fn extract_section_spec(text: Seq<char>, headings: Seq<Seq<char>>) -> Seq<char> {
    let tb = encode_utf8(text);
    match heading_end(encode_utf8(lowercase(text)), headings) {
        None => seq![],
        Some(start) => if !is_char_boundary(tb, start) {
            seq![]
        } else {
            let tail_bytes = tb.subrange(start, tb.len() as int);
            let tail = decode_utf8(tail_bytes);
            let end = match earliest_marker(encode_utf8(lowercase(tail)), section_boundaries()) {
                Some(e) => e,
                None => 1200,
            };
            let e = if end < tail_bytes.len() { end } else { tail_bytes.len() as int };
            let body = if is_char_boundary(tail_bytes, e) { decode_utf8(tail_bytes.subrange(0, e)) } else { tail };
            take_chars_spec(trim_spec(body), 1200)
        },
    }
}

/// The section of `text` under the first heading that occurs.
pub fn extract_section(text: &str, headings: &Vec<&str>) -> (r: String)
    ensures
        r@ == extract_section_spec(text@, strs(headings@)),
{
    broadcast use vstd::utf8::encode_utf8_valid_utf8, vstd::utf8::encode_utf8_decode_utf8,
        vstd::utf8::valid_utf8_split, vstd::utf8::decode_utf8_split;
    let lower = to_lowercase(text);
    let start = match find_heading_end(lower.as_str().as_bytes(), headings) {
        Some(s) => s,
        None => {
            let n = text.as_bytes().len();
            proof {
                assert(n as int == encode_utf8(text@).len());
                let tb = encode_utf8(text@);
                match heading_end(encode_utf8(lowercase(text@)), strs(headings@)) {
                    Some(st) => {
                        assert(st > tb.len());
                        assert(!is_char_boundary(tb, st));
                    },
                    None => {},
                }
            }
            return String::new();
        },
    };
    if !text.is_char_boundary(start) {
        return String::new();
    }
    let ghost tb = encode_utf8(text@);
    let (_, tail) = text.split_at(start);
    proof {
        assert(tail.spec_bytes() == tb.subrange(start as int, tb.len() as int));
        assert(tail@ == decode_utf8(encode_utf8(tail@)));
    }
    let lower_tail = to_lowercase(tail);
    let markers = boundary_list();
    let end = match find_earliest_marker(lower_tail.as_str().as_bytes(), &markers) {
        Some(e) => e,
        None => 1200,
    };
    let tail_len = tail.as_bytes().len();
    let ghost tail_bytes = tb.subrange(start as int, tb.len() as int);
    assert(tail@ == decode_utf8(tail_bytes));
    assert(lower_tail@ == lowercase(decode_utf8(tail_bytes)));
    let e = if end < tail_len { end } else { tail_len };
    let body: &str = if tail.is_char_boundary(e) {
        let (head, _) = tail.split_at(e);
        proof {
            assert(head@ == decode_utf8(encode_utf8(head@)));
        }
        head
    } else {
        tail
    };
    proof {
        let end_spec = match earliest_marker(encode_utf8(lowercase(decode_utf8(tail_bytes))), section_boundaries()) {
            Some(x) => x,
            None => 1200,
        };
        assert(end as int == end_spec);
        assert(tail_len as int == tail_bytes.len());
        assert(body@ == (if is_char_boundary(tail_bytes, e as int) { decode_utf8(tail_bytes.subrange(0, e as int)) } else { decode_utf8(tail_bytes) }));
    }
    let trimmed = trim(body);
    take_chars(trimmed.as_str(), 1200)
}


/// Headings under which a site states its open-access policy.
pub open spec fn open_access_headings() -> Seq<Seq<char>> {
    seq!["open access policy"@, "open access"@, "open-access"@, "开放获取"@, "开放 access"@]
}

/// The open-access statement of a page.
pub fn extract_open_access_text(text: &str) -> (r: String)
    ensures
        r@ == extract_section_spec(text@, open_access_headings()),
{
    let headings = vec!["open access policy", "open access", "open-access", "开放获取", "开放 access"];
    assert(strs(headings@) =~= open_access_headings());
    extract_section(text, &headings)
}

/// Headings under which a site states its publication fees.
pub open spec fn fee_headings() -> Seq<Seq<char>> {
    seq![
        "article processing charges"@,
        "apc"@,
        "publication fees"@,
        "publishing fees"@,
        "publication fee"@,
        "page charges"@,
        "fee policy"@,
        "费用"@,
        "版面费"@,
    ]
}

/// The publication-fee statement of a page.
pub fn extract_fee_text(text: &str) -> (r: String)
    ensures
        r@ == extract_section_spec(text@, fee_headings()),
{
    let headings = vec![
        "article processing charges",
        "apc",
        "publication fees",
        "publishing fees",
        "publication fee",
        "page charges",
        "fee policy",
        "费用",
        "版面费",
    ];
    assert(strs(headings@) =~= fee_headings());
    extract_section(text, &headings)
}

// ---------------------------------------------------------------------------
// Review cycle
// ---------------------------------------------------------------------------

/// The non-empty lines of a text, each trimmed.
pub open spec fn trimmed_lines(text: Seq<char>) -> Seq<Seq<char>> {
    crate::text::drop_empty(split_spec(text, |c: char| c == '\n').map_values(|l: Seq<char>| trim_spec(l)))
}

/// Phrases that mark a line about review or publication time.
pub open spec fn cycle_phrases() -> Seq<Seq<char>> {
    seq![
        "first decision"@,
        "editorial decision"@,
        "peer review"@,
        "review time"@,
        "submission to publication"@,
        "time to publication"@,
        "publication time"@,
        "审稿"@,
        "决定"@,
        "出版时间"@,
        "评审"@,
    ]
}

/// Whether a line speaks of review or publication time.
pub open spec fn is_cycle_line(line: Seq<char>) -> bool {
    contains_any_spec(lowercase(line), cycle_phrases())
}

/// The first line, in order, that speaks of review or publication time.
pub open spec fn first_cycle_line(lines: Seq<Seq<char>>) -> Option<Seq<char>>
    decreases lines.len(),
{
    if lines.len() == 0 {
        None
    } else {
        match first_cycle_line(lines.drop_last()) {
            Some(l) => Some(l),
            None => if is_cycle_line(lines.last()) { Some(lines.last()) } else { None },
        }
    }
}

/// The review-cycle line of a text: the first trimmed, non-empty line that
/// speaks of review or publication time, cut to 280 characters when it is
/// longer than 280 bytes; empty when there is none.
pub open spec fn review_cycle_spec(text: Seq<char>) -> Seq<char> {
    match first_cycle_line(trimmed_lines(text)) {
        Some(l) => if utf8_len(l) > 280 { take_chars_spec(l, 280) } else { l },
        None => seq![],
    }
}

/// The review-cycle line of a page.
pub fn extract_review_cycle_text(text: &str) -> (r: String)
    ensures
        r@ == review_cycle_spec(text@),
{
    let phrases = vec![
        "first decision",
        "editorial decision",
        "peer review",
        "review time",
        "submission to publication",
        "time to publication",
        "publication time",
        "审稿",
        "决定",
        "出版时间",
        "评审",
    ];
    assert(strs(phrases@) =~= cycle_phrases());
    let pieces = split_char(text, '\n');
    let ghost all = views(pieces@).map_values(|l: Seq<char>| trim_spec(l));
    let mut i: usize = 0;
    while i < pieces.len()
        invariant
            i <= pieces@.len(),
            strs(phrases@) == cycle_phrases(),
            views(pieces@) == split_spec(text@, |c: char| c == '\n'),
            all == views(pieces@).map_values(|l: Seq<char>| trim_spec(l)),
            first_cycle_line(crate::text::drop_empty(all.take(i as int))) is None,
        decreases pieces@.len() - i,
    {
        let line = trim(pieces[i].as_str());
        let ghost prev = crate::text::drop_empty(all.take(i as int));
        proof {
            assert(all.take(i + 1).drop_last() =~= all.take(i as int));
            assert(all.take(i + 1).last() == line@);
        }
        if !line.as_str().is_empty() {
            let lower = to_lowercase(line.as_str());
            proof {
                assert(crate::text::drop_empty(all.take(i + 1)) == prev.push(line@));
                assert(prev.push(line@).drop_last() =~= prev);
            }
            if contains_any(lower.as_str(), &phrases) {
                proof {
                    lemma_first_cycle_prefix(crate::text::drop_empty(all), all, i as int + 1);
                }
                if utf8_len_at_least(line.as_str(), 281) {
                    return take_chars(line.as_str(), 280);
                }
                return line;
            }
        }
        i = i + 1;
    }
    proof {
        assert(all.take(i as int) =~= all);
    }
    String::new()
}

proof fn lemma_drop_empty_prefix(all: Seq<Seq<char>>, k: int)
    requires
        0 <= k <= all.len(),
    ensures
        crate::text::drop_empty(all.take(k)).len() <= crate::text::drop_empty(all).len(),
        crate::text::drop_empty(all.take(k)) == crate::text::drop_empty(all).take(crate::text::drop_empty(all.take(k)).len() as int),
    decreases all.len() - k,
{
    if k < all.len() {
        lemma_drop_empty_prefix(all, k + 1);
        assert(all.take(k + 1).drop_last() =~= all.take(k));
        let a = crate::text::drop_empty(all.take(k));
        let b = crate::text::drop_empty(all.take(k + 1));
        let z = crate::text::drop_empty(all);
        if all[k].len() > 0 {
            assert(b == a.push(all[k]));
            assert(a =~= b.take(a.len() as int));
            assert(z.take(b.len() as int).take(a.len() as int) =~= z.take(a.len() as int));
        } else {
            assert(b == a);
        }
    } else {
        assert(all.take(k) =~= all);
        let z = crate::text::drop_empty(all);
        assert(z.take(z.len() as int) =~= z);
    }
}

proof fn lemma_first_cycle_of_prefix(lines: Seq<Seq<char>>, k: int)
    requires
        0 <= k <= lines.len(),
        first_cycle_line(lines.take(k)) is Some,
    ensures
        first_cycle_line(lines) == first_cycle_line(lines.take(k)),
    decreases lines.len() - k,
{
    if k < lines.len() {
        assert(lines.take(k + 1).drop_last() =~= lines.take(k));
        lemma_first_cycle_of_prefix(lines, k + 1);
    } else {
        assert(lines.take(k) =~= lines);
    }
}

proof fn lemma_first_cycle_prefix(lines: Seq<Seq<char>>, all: Seq<Seq<char>>, k: int)
    requires
        0 <= k <= all.len(),
        lines == crate::text::drop_empty(all),
        first_cycle_line(crate::text::drop_empty(all.take(k))) is Some,
    ensures
        first_cycle_line(lines) == first_cycle_line(crate::text::drop_empty(all.take(k))),
{
    lemma_drop_empty_prefix(all, k);
    let p = crate::text::drop_empty(all.take(k));
    assert(p == lines.take(p.len() as int));
    lemma_first_cycle_of_prefix(lines, p.len() as int);
}

// ---------------------------------------------------------------------------
// Open-access type
// ---------------------------------------------------------------------------

/// The open-access type that the open-access statement and the fee
/// statement of a site imply, judged on both together in lower case; empty
/// when they imply none.
pub open spec fn infer_oa_flag_spec(oa_detail: Seq<char>, apc_text: Seq<char>) -> Seq<char> {
    let c = lowercase(oa_detail + seq![' '] + apc_text);
    if contains_any_spec(c, seq!["diamond open access"@, "diamond oa"@]) {
        "Diamond OA"@
    } else if contains_any_spec(c, seq!["hybrid open access"@, "hybrid oa"@]) {
        "Hybrid OA"@
    } else if contains_any_spec(c, seq!["fully open access"@, "gold open access"@, "open access journal"@, "open access only"@]) {
        "Fully OA"@
    } else if contains_spec(c, "open access"@) {
        "OA"@
    } else if contains_any_spec(c, seq!["no article processing charge"@, "no apc"@, "no publication fee"@, "no page charge"@]) {
        "OA / No APC"@
    } else {
        seq![]
    }
}

/// Guesses the open-access type from the open-access and fee statements.
pub fn infer_oa_flag(oa_detail: &str, apc_text: &str) -> (r: String)
    ensures
        r@ == infer_oa_flag_spec(oa_detail@, apc_text@),
{
    let mut joined = crate::text::cat(oa_detail, " ");
    crate::text::append(&mut joined, apc_text);
    let c = to_lowercase(joined.as_str());
    proof {
        reveal_strlit(" ");
        assert(joined@ =~= oa_detail@ + seq![' '] + apc_text@);
    }
    let diamond = vec!["diamond open access", "diamond oa"];
    assert(strs(diamond@) =~= seq!["diamond open access"@, "diamond oa"@]);
    if contains_any(c.as_str(), &diamond) {
        return crate::text::owned("Diamond OA");
    }
    let hybrid = vec!["hybrid open access", "hybrid oa"];
    assert(strs(hybrid@) =~= seq!["hybrid open access"@, "hybrid oa"@]);
    if contains_any(c.as_str(), &hybrid) {
        return crate::text::owned("Hybrid OA");
    }
    let fully = vec!["fully open access", "gold open access", "open access journal", "open access only"];
    assert(strs(fully@) =~= seq!["fully open access"@, "gold open access"@, "open access journal"@, "open access only"@]);
    if contains_any(c.as_str(), &fully) {
        return crate::text::owned("Fully OA");
    }
    if contains(c.as_str(), "open access") {
        return crate::text::owned("OA");
    }
    let no_fee = vec!["no article processing charge", "no apc", "no publication fee", "no page charge"];
    assert(strs(no_fee@) =~= seq!["no article processing charge"@, "no apc"@, "no publication fee"@, "no page charge"@]);
    if contains_any(c.as_str(), &no_fee) {
        return crate::text::owned("OA / No APC");
    }
    String::new()
}


// ---------------------------------------------------------------------------
// From HTML to text
// ---------------------------------------------------------------------------

/// The common HTML entities decoded, one after the other.
pub open spec fn html_entities_spec(v: Seq<char>) -> Seq<char> {
    replace_spec(
        replace_spec(
            replace_spec(
                replace_spec(replace_spec(replace_spec(v, "&nbsp;"@, " "@), "&amp;"@, "&"@), "&lt;"@, "<"@),
                "&gt;"@,
                ">"@,
            ),
            "&quot;"@,
            "\""@,
        ),
        "&#39;"@,
        "'"@,
    )
}

/// Decodes `&nbsp;`, `&amp;`, `&lt;`, `&gt;`, `&quot;` and `&#39;`.
pub fn html_entities(value: &str) -> (r: String)
    ensures
        r@ == html_entities_spec(value@),
{
    proof {
        reveal_strlit("&nbsp;");
        reveal_strlit("&amp;");
        reveal_strlit("&lt;");
        reveal_strlit("&gt;");
        reveal_strlit("&quot;");
        reveal_strlit("&#39;");
    }
    let a = replace(value, "&nbsp;", " ");
    let b = replace(a.as_str(), "&amp;", "&");
    let c = replace(b.as_str(), "&lt;", "<");
    let d = replace(c.as_str(), "&gt;", ">");
    let e = replace(d.as_str(), "&quot;", "\"");
    replace(e.as_str(), "&#39;", "'")
}

/// Line breaks and the ends of block elements.
pub const BLOCK_END_PATTERN: &'static str = "(?is)(<br\\s*/?>|</\\s*(p|div|li|section|article|h[1-6]|tr|td|th)\\s*>)";
/// Script elements with their content.
pub const SCRIPT_PATTERN: &'static str = "(?is)<script[^>]*>.*?</script>";
/// Style elements with their content.
pub const STYLE_PATTERN: &'static str = "(?is)<style[^>]*>.*?</style>";
/// Noscript elements with their content.
pub const NOSCRIPT_PATTERN: &'static str = "(?is)<noscript[^>]*>.*?</noscript>";
/// Any remaining tag.
pub const TAG_PATTERN: &'static str = "(?is)<[^>]+>";

/// The readable text of an HTML page: block ends become line breaks;
/// scripts, styles, noscript blocks and then all tags become spaces;
/// entities are decoded; and the words are joined by single spaces.
pub open spec fn html_to_text_spec(html: Seq<char>) -> Seq<char> {
    let a = or_keep(regex_replace_all(BLOCK_END_PATTERN@, html, "\n"@), html);
    let b = or_keep(regex_replace_all(SCRIPT_PATTERN@, a, " "@), a);
    let c = or_keep(regex_replace_all(STYLE_PATTERN@, b, " "@), b);
    let d = or_keep(regex_replace_all(NOSCRIPT_PATTERN@, c, " "@), c);
    let e = or_keep(regex_replace_all(TAG_PATTERN@, d, " "@), d);
    join_spec(ws_words(html_entities_spec(e)), " "@)
}

/// The readable text of an HTML page.
pub fn html_to_text(html: &str) -> (r: String)
    ensures
        r@ == html_to_text_spec(html@),
{
    let a = replace_pattern(BLOCK_END_PATTERN, html, "\n");
    let b = replace_pattern(SCRIPT_PATTERN, a.as_str(), " ");
    let c = replace_pattern(STYLE_PATTERN, b.as_str(), " ");
    let d = replace_pattern(NOSCRIPT_PATTERN, c.as_str(), " ");
    let e = replace_pattern(TAG_PATTERN, d.as_str(), " ");
    let decoded = html_entities(e.as_str());
    let words = split_whitespace(decoded.as_str());
    join(&words, " ")
}

// ---------------------------------------------------------------------------
// Ranking links
// ---------------------------------------------------------------------------

/// URL fragments that point at journal information, with their weights.
pub open spec fn url_weights() -> Seq<(Seq<char>, int)> {
    seq![
        ("journal-information"@, 100int),
        ("aims"@, 95int),
        ("scope"@, 95int),
        ("author"@, 90int),
        ("guideline"@, 90int),
        ("submission"@, 90int),
        ("open-access"@, 85int),
        ("openaccess"@, 85int),
        ("apc"@, 80int),
        ("fee"@, 80int),
        ("charge"@, 80int),
        ("price"@, 80int),
        ("bibliometr"@, 75int),
        ("metric"@, 75int),
        ("ranking"@, 70int),
        ("rank"@, 70int),
        ("journal"@, 40int),
        ("about"@, 35int),
    ]
}

/// The sum of the weights of the fragments that occur in `lower`.
pub open spec fn weight_sum(lower: Seq<char>, ws: Seq<(Seq<char>, int)>) -> int
    decreases ws.len(),
{
    if ws.len() == 0 {
        0
    } else {
        weight_sum(lower, ws.drop_last()) + if contains_spec(lower, ws.last().0) { ws.last().1 } else { 0 }
    }
}

proof fn lemma_weight_sum_bounds(lower: Seq<char>, ws: Seq<(Seq<char>, int)>)
    requires
        forall|k: int| 0 <= k < ws.len() ==> 0 <= #[trigger] ws[k].1 <= 100,
    ensures
        0 <= weight_sum(lower, ws) <= 100 * ws.len(),
    decreases ws.len(),
{
    if ws.len() > 0 {
        lemma_weight_sum_bounds(lower, ws.drop_last());
    }
}

/// How strongly a link looks like a page about the journal: the weights of
/// the fragments found in the lower-cased URL, added up.
pub fn score_candidate_url(url: &str) -> (r: i32)
    ensures
        r as int == weight_sum(lowercase(url@), url_weights()),
{
    let lower = to_lowercase(url);
    let weights: Vec<(&str, i32)> = vec![
        ("journal-information", 100),
        ("aims", 95),
        ("scope", 95),
        ("author", 90),
        ("guideline", 90),
        ("submission", 90),
        ("open-access", 85),
        ("openaccess", 85),
        ("apc", 80),
        ("fee", 80),
        ("charge", 80),
        ("price", 80),
        ("bibliometr", 75),
        ("metric", 75),
        ("ranking", 70),
        ("rank", 70),
        ("journal", 40),
        ("about", 35),
    ];
    let ghost spec_w = weights@.map_values(|p: (&str, i32)| (p.0@, p.1 as int));
    assert(spec_w =~= url_weights());
    let mut score: i32 = 0;
    let mut k: usize = 0;
    while k < weights.len()
        invariant
            k <= weights@.len(),
            weights@.len() == 18,
            spec_w == weights@.map_values(|p: (&str, i32)| (p.0@, p.1 as int)),
            spec_w == url_weights(),
            score as int == weight_sum(lower@, spec_w.take(k as int)),
        decreases weights@.len() - k,
    {
        let (needle, weight) = weights[k];
        proof {
            assert(spec_w.take(k + 1).drop_last() =~= spec_w.take(k as int));
            assert(spec_w.take(k + 1).last() == (needle@, weight as int));
            assert forall|m: int| 0 <= m < spec_w.take(k as int).len() implies 0 <= #[trigger] spec_w.take(k as int)[m].1 <= 100 by {
                assert(spec_w.take(k as int)[m] == url_weights()[m]);
            }
            lemma_weight_sum_bounds(lower@, spec_w.take(k as int));
            assert(0 <= weight <= 100) by {
                assert(spec_w[k as int] == url_weights()[k as int]);
            }
        }
        if contains(lower.as_str(), needle) {
            score = score + weight;
        }
        k = k + 1;
    }
    assert(spec_w.take(18) =~= spec_w);
    score
}


// ---------------------------------------------------------------------------
// JCR rank lines
// ---------------------------------------------------------------------------

/// Whether a lower-cased, trimmed line speaks of a rank: a percentile, a
/// "top", a rank or ranking, or a quartile or Q1 with a percentage.
pub open spec fn rank_line(clean: Seq<char>) -> bool {
    ||| contains_spec(clean, "percentile"@)
    ||| contains_spec(clean, "top "@)
    ||| contains_spec(clean, "rank"@)
    ||| contains_spec(clean, "ranking"@)
    ||| (contains_spec(clean, "quartile"@) && contains_spec(clean, "%"@))
    ||| (contains_spec(clean, "q1"@) && contains_spec(clean, "%"@))
}

/// The lines of a text that speak of a rank, trimmed, in order: each line
/// is judged in lower case, and blank lines are passed over.
pub open spec fn rank_lines_of(original: Seq<Seq<char>>, lowered: Seq<Seq<char>>) -> Seq<Seq<char>>
    decreases original.len(),
{
    if original.len() == 0 || lowered.len() == 0 {
        seq![]
    } else {
        let n = if original.len() < lowered.len() { original.len() } else { lowered.len() };
        let earlier = rank_lines_of(original.take(n - 1), lowered.take(n - 1));
        let clean = trim_spec(lowered[n - 1]);
        if clean.len() > 0 && rank_line(clean) { earlier.push(trim_spec(original[n - 1])) } else { earlier }
    }
}

/// The lines of a page that speak of a rank.
pub open spec fn rank_lines_spec(text: Seq<char>) -> Seq<Seq<char>> {
    rank_lines_of(split_spec(text, |c: char| c == '\n'), split_spec(lowercase(text), |c: char| c == '\n'))
}

fn is_rank_line(clean: &str) -> (r: bool)
    ensures
        r == rank_line(clean@),
{
    contains(clean, "percentile") || contains(clean, "top ") || contains(clean, "rank") || contains(clean, "ranking")
        || (contains(clean, "quartile") && contains(clean, "%")) || (contains(clean, "q1") && contains(clean, "%"))
}

proof fn lemma_rank_lines_step(original: Seq<Seq<char>>, lowered: Seq<Seq<char>>, k: int)
    requires
        0 <= k < original.len(),
        k < lowered.len(),
    ensures
        rank_lines_of(original.take(k + 1), lowered.take(k + 1)) == ({
            let earlier = rank_lines_of(original.take(k), lowered.take(k));
            let clean = trim_spec(lowered[k]);
            if clean.len() > 0 && rank_line(clean) { earlier.push(trim_spec(original[k])) } else { earlier }
        }),
{
    assert(original.take(k + 1).take(k) =~= original.take(k));
    assert(lowered.take(k + 1).take(k) =~= lowered.take(k));
}

proof fn lemma_rank_lines_full(original: Seq<Seq<char>>, lowered: Seq<Seq<char>>)
    ensures
        rank_lines_of(original, lowered) == ({
            let n = if original.len() < lowered.len() { original.len() } else { lowered.len() };
            rank_lines_of(original.take(n as int), lowered.take(n as int))
        }),
    decreases original.len(),
{
    let n = if original.len() < lowered.len() { original.len() } else { lowered.len() };
    if n > 0 {
        assert(original.take(n as int).take(n - 1) =~= original.take(n - 1));
        assert(lowered.take(n as int).take(n - 1) =~= lowered.take(n - 1));
        assert(original.take(n as int)[n - 1] == original[n - 1]);
        assert(lowered.take(n as int)[n - 1] == lowered[n - 1]);
    } else {
        assert(original.take(0) =~= Seq::<Seq<char>>::empty());
    }
}

/// The lines of a page that speak of a rank, trimmed, in order.
pub fn jcr_candidate_lines(text: &str) -> (r: Vec<String>)
    ensures
        views(r@) == rank_lines_spec(text@),
{
    let lower = to_lowercase(text);
    let original = split_char(text, '\n');
    let lowered = split_char(lower.as_str(), '\n');
    let n = if original.len() < lowered.len() { original.len() } else { lowered.len() };
    let mut out: Vec<String> = Vec::new();
    let mut k: usize = 0;
    assert(views(original@).take(0) =~= Seq::<Seq<char>>::empty());
    while k < n
        invariant
            k <= n,
            n == (if original@.len() < lowered@.len() { original@.len() } else { lowered@.len() }),
            views(out@) == rank_lines_of(views(original@).take(k as int), views(lowered@).take(k as int)),
        decreases n - k,
    {
        let clean = trim(lowered[k].as_str());
        proof {
            lemma_rank_lines_step(views(original@), views(lowered@), k as int);
        }
        if !clean.as_str().is_empty() && is_rank_line(clean.as_str()) {
            let line = trim(original[k].as_str());
            let ghost before = views(out@);
            out.push(line);
            assert(views(out@) =~= before.push(line@));
        }
        k = k + 1;
    }
    proof {
        lemma_rank_lines_full(views(original@), views(lowered@));
    }
    out
}

/// The JCR rank detail of a page, given what the rank parser made of each
/// rank line and of the whole text: the first rank line the parser reads,
/// else the first rank line up to 220 bytes as it stands, else what the
/// parser reads in the whole text, else nothing.
pub open spec fn pick_rank_spec(lines: Seq<Seq<char>>, parsed: Seq<Option<Seq<char>>>, whole: Option<Seq<char>>) -> Seq<char>
    decreases lines.len(),
{
    if lines.len() == 0 || parsed.len() == 0 {
        match whole {
            Some(v) => v,
            None => seq![],
        }
    } else {
        match parsed[0] {
            Some(v) => v,
            None => if utf8_len(lines[0]) <= 220 { lines[0] } else { pick_rank_spec(lines.drop_first(), parsed.drop_first(), whole) },
        }
    }
}

/// Picks the JCR rank detail of a page from its rank lines and what the
/// rank parser made of them.
pub fn extract_jcr_rank_detail(lines: &Vec<String>, parsed: &Vec<Option<String>>, whole: Option<String>) -> (r: String)
    ensures
        r@ == pick_rank_spec(views(lines@), parsed@.map_values(|p: Option<String>| crate::patterns::opt_view(p)),
            crate::patterns::opt_view(whole)),
{
    let ghost lv = views(lines@);
    let ghost pv = parsed@.map_values(|p: Option<String>| crate::patterns::opt_view(p));
    let ghost wv = crate::patterns::opt_view(whole);
    let mut i: usize = 0;
    assert(lv.skip(0) =~= lv);
    assert(pv.skip(0) =~= pv);
    while i < lines.len() && i < parsed.len()
        invariant
            i <= lines@.len(),
            i <= parsed@.len(),
            lv == views(lines@),
            pv == parsed@.map_values(|p: Option<String>| crate::patterns::opt_view(p)),
            wv == crate::patterns::opt_view(whole),
            pick_rank_spec(lv, pv, wv) == pick_rank_spec(lv.skip(i as int), pv.skip(i as int), wv),
        decreases lines@.len() - i,
    {
        proof {
            assert(lv.skip(i as int)[0] == lines@[i as int]@);
            assert(pv.skip(i as int)[0] == crate::patterns::opt_view(parsed@[i as int]));
            assert(lv.skip(i as int).drop_first() =~= lv.skip(i + 1));
            assert(pv.skip(i as int).drop_first() =~= pv.skip(i + 1));
            assert(lv.skip(i as int).len() > 0 && pv.skip(i as int).len() > 0);
        }
        match &parsed[i] {
            Some(v) => return owned(v.as_str()),
            None => {},
        }
        if !utf8_len_at_least(lines[i].as_str(), 221) {
            return owned(lines[i].as_str());
        }
        i = i + 1;
    }
    match whole {
        Some(v) => v,
        None => String::new(),
    }
}

} // verus!
