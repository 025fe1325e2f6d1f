//! Character and string routines shared by the rest of the library.
//!
//! Strings are reasoned about through their view, a `Seq<char>`. Unicode
//! classification and case mapping come from std and are named below; the
//! rest (trimming, searching, replacing, joining, decimal rendering) is
//! written and proved here against short specifications.
use vstd::prelude::*;
use vstd::string::StringExecFns;

verus! {

// ---------------------------------------------------------------------------
// Names for std's Unicode tables
// ---------------------------------------------------------------------------

/// Whether `char::is_alphanumeric` holds of `c`.
pub uninterp spec fn is_alphanumeric_char(c: char) -> bool;

/// Whether `char::is_whitespace` holds of `c`: the characters with the
/// Unicode `White_Space` property.
pub open spec fn is_whitespace_char(c: char) -> bool {
    ('\u{9}' <= c && c <= '\u{d}') || c == ' ' || c == '\u{85}' || c == '\u{a0}' || c == '\u{1680}'
        || ('\u{2000}' <= c && c <= '\u{200a}') || c == '\u{2028}' || c == '\u{2029}' || c == '\u{202f}'
        || c == '\u{205f}' || c == '\u{3000}'
}

/// The characters that `char::to_lowercase` yields for `c`.
pub uninterp spec fn char_lowercase(c: char) -> Seq<char>;

/// What `str::to_lowercase` returns for a string with these characters.
pub uninterp spec fn lowercase(s: Seq<char>) -> Seq<char>;

/// What `str::to_uppercase` returns for a string with these characters.
pub uninterp spec fn uppercase(s: Seq<char>) -> Seq<char>;

/// ASCII letters and digits.
pub open spec fn is_ascii_alnum(c: char) -> bool {
    ('0' <= c && c <= '9') || ('a' <= c && c <= 'z') || ('A' <= c && c <= 'Z')
}

/// Calls `char::is_alphanumeric`. Claims the result is the named table
/// entry, and that on ASCII characters it holds exactly of letters and
/// digits, as the std documentation states.
#[verifier::external_body]
pub(crate) fn char_is_alphanumeric(c: char) -> (r: bool)
    ensures
        r == is_alphanumeric_char(c),
        (c as u32) < 128 ==> (r <==> is_ascii_alnum(c)),
{
    c.is_alphanumeric()
}

/// Calls `char::is_whitespace`, which the std documentation defines as the
/// Unicode `White_Space` property; claims the result is membership in that
/// set of characters as listed above.
#[verifier::external_body]
pub(crate) fn char_is_whitespace(c: char) -> (r: bool)
    ensures
        r == is_whitespace_char(c),
{
    c.is_whitespace()
}

/// Calls `char::to_lowercase` and collects what it yields. Claims only that
/// the result is the named mapping of `c`.
#[verifier::external_body]
pub(crate) fn char_to_lowercase(c: char) -> (r: Vec<char>)
    ensures
        r@ == char_lowercase(c),
{
    c.to_lowercase().collect()
}

/// Calls `str::to_lowercase`. Claims only that the result is the named
/// mapping of the argument's characters.
#[verifier::external_body]
pub(crate) fn to_lowercase(s: &str) -> (r: String)
    ensures
        r@ == lowercase(s@),
{
    s.to_lowercase()
}

/// Calls `str::to_uppercase`. Claims only that the result is the named
/// mapping of the argument's characters.
#[verifier::external_body]
pub(crate) fn to_uppercase(s: &str) -> (r: String)
    ensures
        r@ == uppercase(s@),
{
    s.to_uppercase()
}

/// Calls `String::push`: the character is appended.
#[verifier::external_body]
pub(crate) fn push_char(s: &mut String, c: char)
    ensures
        final(s)@ == old(s)@.push(c),
{
    s.push(c);
}

// ---------------------------------------------------------------------------
// Building strings
// ---------------------------------------------------------------------------

/// The characters of a string slice, in order.
pub fn chars_of(s: &str) -> (r: Vec<char>)
    ensures
        r@ == s@,
{
    let mut out: Vec<char> = Vec::new();
    for c in it: s.chars()
        invariant
            it.seq() == s@,
            out@ == s@.take(it.index() as int),
    {
        out.push(c);
        proof {
            assert(s@.take(it.index() as int + 1) =~= s@.take(it.index() as int).push(c));
        }
    }
    assert(out@ =~= s@);
    out
}

/// A string holding the given characters from index `from` up to `to`.
pub fn string_of_range(cs: &Vec<char>, from: usize, to: usize) -> (r: String)
    requires
        from <= to <= cs.len(),
    ensures
        r@ == cs@.subrange(from as int, to as int),
{
    let mut out = String::new();
    let mut i = from;
    while i < to
        invariant
            from <= i <= to <= cs.len(),
            out@ == cs@.subrange(from as int, i as int),
        decreases to - i,
    {
        push_char(&mut out, cs[i]);
        i = i + 1;
        proof {
            assert(out@ =~= cs@.subrange(from as int, i as int));
        }
    }
    out
}

/// A string holding exactly the given characters.
pub fn string_of(cs: &Vec<char>) -> (r: String)
    ensures
        r@ == cs@,
{
    let r = string_of_range(cs, 0, cs.len());
    assert(cs@.subrange(0, cs@.len() as int) =~= cs@);
    r
}

/// An owned copy of a string slice.
pub fn owned(s: &str) -> (r: String)
    ensures
        r@ == s@,
{
    String::from_str(s)
}

/// `a` followed by `b`.
pub fn cat(a: &str, b: &str) -> (r: String)
    ensures
        r@ == a@ + b@,
{
    String::from_str(a).concat(b)
}

/// Appends `b` to `a`.
pub fn append(a: &mut String, b: &str)
    ensures
        final(a)@ == old(a)@ + b@,
{
    a.append(b);
}

// ---------------------------------------------------------------------------
// Trimming
// ---------------------------------------------------------------------------

/// The string with leading whitespace removed.
pub open spec fn trim_start_spec(s: Seq<char>) -> Seq<char>
    decreases s.len(),
{
    if s.len() > 0 && is_whitespace_char(s[0]) {
        trim_start_spec(s.drop_first())
    } else {
        s
    }
}

/// The string with trailing whitespace removed.
pub open spec fn trim_end_spec(s: Seq<char>) -> Seq<char>
    decreases s.len(),
{
    if s.len() > 0 && is_whitespace_char(s.last()) {
        trim_end_spec(s.drop_last())
    } else {
        s
    }
}

/// What `str::trim` returns: leading and trailing whitespace removed.
pub open spec fn trim_spec(s: Seq<char>) -> Seq<char> {
    trim_end_spec(trim_start_spec(s))
}

/// Whether `s.trim().is_empty()`: the string holds only whitespace.
pub open spec fn is_blank_spec(s: Seq<char>) -> bool {
    trim_spec(s).len() == 0
}

proof fn lemma_trim_end_len(s: Seq<char>)
    ensures
        trim_end_spec(s).len() <= s.len(),
        trim_end_spec(s).len() == 0 <==> (forall|i: int| 0 <= i < s.len() ==> #[trigger] is_whitespace_char(s[i])),
    decreases s.len(),
{
    if s.len() > 0 && is_whitespace_char(s.last()) {
        lemma_trim_end_len(s.drop_last());
        if trim_end_spec(s).len() == 0 {
            assert forall|i: int| 0 <= i < s.len() implies #[trigger] is_whitespace_char(s[i]) by {
                if i < s.len() - 1 {
                    assert(s.drop_last()[i] == s[i]);
                }
            }
        }
        if forall|i: int| 0 <= i < s.len() ==> #[trigger] is_whitespace_char(s[i]) {
            assert forall|i: int| 0 <= i < s.drop_last().len() implies #[trigger] is_whitespace_char(s.drop_last()[i]) by {
                assert(s.drop_last()[i] == s[i]);
            }
        }
    } else if s.len() > 0 {
        assert(!is_whitespace_char(s[s.len() - 1]));
    }
}

proof fn lemma_trim_start_blank(s: Seq<char>)
    ensures
        trim_start_spec(s).len() <= s.len(),
        (forall|i: int| 0 <= i < trim_start_spec(s).len() ==> #[trigger] is_whitespace_char(trim_start_spec(s)[i]))
            <==> (forall|i: int| 0 <= i < s.len() ==> #[trigger] is_whitespace_char(s[i])),
    decreases s.len(),
{
    if s.len() > 0 && is_whitespace_char(s[0]) {
        lemma_trim_start_blank(s.drop_first());
        if forall|i: int| 0 <= i < s.drop_first().len() ==> #[trigger] is_whitespace_char(s.drop_first()[i]) {
            assert forall|i: int| 0 <= i < s.len() implies #[trigger] is_whitespace_char(s[i]) by {
                if i > 0 {
                    assert(s.drop_first()[i - 1] == s[i]);
                }
            }
        }
        if forall|i: int| 0 <= i < s.len() ==> #[trigger] is_whitespace_char(s[i]) {
            assert forall|i: int| 0 <= i < s.drop_first().len() implies #[trigger] is_whitespace_char(s.drop_first()[i]) by {
                assert(s.drop_first()[i] == s[i + 1]);
            }
        }
    }
}

proof fn lemma_trim_start_shape(s: Seq<char>)
    ensures
        trim_start_spec(s).len() > 0 ==> !is_whitespace_char(trim_start_spec(s)[0]),
    decreases s.len(),
{
    if s.len() > 0 && is_whitespace_char(s[0]) {
        lemma_trim_start_shape(s.drop_first());
    }
}

proof fn lemma_trim_end_shape(s: Seq<char>)
    ensures
        trim_end_spec(s).len() <= s.len(),
        trim_end_spec(s) == s.take(trim_end_spec(s).len() as int),
        trim_end_spec(s).len() > 0 ==> !is_whitespace_char(trim_end_spec(s).last()),
        (s.len() > 0 && !is_whitespace_char(s[0])) ==> trim_end_spec(s).len() > 0,
    decreases s.len(),
{
    if s.len() > 0 && is_whitespace_char(s.last()) {
        lemma_trim_end_shape(s.drop_last());
        let n = trim_end_spec(s).len() as int;
        assert(s.drop_last().take(n) =~= s.take(n));
        if s.len() > 1 {
            assert(s.drop_last()[0] == s[0]);
        }
    } else {
        assert(s.take(s.len() as int) =~= s);
    }
}

/// Trimming twice is trimming once.
pub proof fn lemma_trim_idempotent(s: Seq<char>)
    ensures
        trim_spec(trim_spec(s)) == trim_spec(s),
{
    lemma_trim_start_shape(s);
    let a = trim_start_spec(s);
    lemma_trim_end_shape(a);
    let t = trim_end_spec(a);
    if t.len() > 0 {
        assert(t[0] == a[0]);
        assert(trim_start_spec(t) == t);
        assert(trim_end_spec(t) == t);
    }
}

/// A string is blank exactly when every character is whitespace.
pub proof fn lemma_blank_iff_all_whitespace(s: Seq<char>)
    ensures
        is_blank_spec(s) <==> (forall|i: int| 0 <= i < s.len() ==> #[trigger] is_whitespace_char(s[i])),
{
    lemma_trim_start_blank(s);
    lemma_trim_end_len(trim_start_spec(s));
}

/// `str::trim`, as an owned string.
pub fn trim(s: &str) -> (r: String)
    ensures
        r@ == trim_spec(s@),
{
    let cs = chars_of(s);
    let n = cs.len();
    let mut i: usize = 0;
    assert(cs@.skip(0) =~= cs@);
    while i < n && char_is_whitespace(cs[i])
        invariant
            i <= n == cs@.len(),
            cs@ == s@,
            trim_start_spec(s@) == trim_start_spec(cs@.skip(i as int)),
        decreases n - i,
    {
        proof {
            assert(cs@.skip(i as int).drop_first() =~= cs@.skip(i as int + 1));
        }
        i = i + 1;
    }
    assert(trim_start_spec(cs@.skip(i as int)) == cs@.skip(i as int));
    let mut j: usize = n;
    while j > i && char_is_whitespace(cs[j - 1])
        invariant
            i <= j <= n == cs@.len(),
            cs@ == s@,
            trim_start_spec(s@) == cs@.skip(i as int),
            trim_spec(s@) == trim_end_spec(cs@.subrange(i as int, j as int)),
        decreases j,
    {
        proof {
            assert(cs@.subrange(i as int, j as int).drop_last() =~= cs@.subrange(i as int, j - 1));
        }
        j = j - 1;
    }
    proof {
        if i == n {
            assert(cs@.skip(i as int).len() == 0);
        }
        assert(cs@.skip(i as int) =~= cs@.subrange(i as int, n as int));
    }
    string_of_range(&cs, i, j)
}

/// Whether the string holds only whitespace (`s.trim().is_empty()`).
pub fn is_blank(s: &str) -> (r: bool)
    ensures
        r == is_blank_spec(s@),
{
    let t = trim(s);
    t.as_str().is_empty()
}

// ---------------------------------------------------------------------------
// Searching
// ---------------------------------------------------------------------------

/// `t` occurs in `s` starting at index `i`.
pub open spec fn occurs_at(s: Seq<char>, t: Seq<char>, i: int) -> bool {
    0 <= i && i + t.len() <= s.len() && s.subrange(i, i + t.len()) == t
}

/// What `str::contains` returns for a string pattern.
pub open spec fn contains_spec(s: Seq<char>, t: Seq<char>) -> bool {
    exists|i: int| #[trigger] occurs_at(s, t, i)
}

/// Whether `s` begins with `t`.
pub open spec fn starts_with_spec(s: Seq<char>, t: Seq<char>) -> bool {
    t.len() <= s.len() && s.take(t.len() as int) == t
}

/// Whether `cs` holds `t` at index `i`.
pub fn chars_match_at(cs: &Vec<char>, t: &Vec<char>, i: usize) -> (r: bool)
    requires
        i <= cs.len(),
    ensures
        r == occurs_at(cs@, t@, i as int),
{
    if t.len() > cs.len() - i {
        return false;
    }
    let mut k: usize = 0;
    while k < t.len()
        invariant
            i + t.len() <= cs.len(),
            k <= t.len(),
            forall|m: int| 0 <= m < k ==> cs@[i + m] == t@[m],
        decreases t.len() - k,
    {
        if cs[i + k] != t[k] {
            proof {
                assert(cs@.subrange(i as int, i + t.len())[k as int] != t@[k as int]);
            }
            return false;
        }
        k = k + 1;
    }
    assert(cs@.subrange(i as int, i + t.len()) =~= t@);
    true
}

/// The first index at which `t` occurs in `cs`, if any.
pub fn find_chars(cs: &Vec<char>, t: &Vec<char>) -> (r: Option<usize>)
    ensures
        match r {
            Some(i) => occurs_at(cs@, t@, i as int) && forall|j: int| 0 <= j < i ==> !#[trigger] occurs_at(cs@, t@, j),
            None => !contains_spec(cs@, t@),
        },
{
    let mut i: usize = 0;
    while i < cs.len()
        invariant
            i <= cs.len(),
            forall|j: int| 0 <= j < i ==> !#[trigger] occurs_at(cs@, t@, j),
        decreases cs.len() - i,
    {
        if chars_match_at(cs, t, i) {
            return Some(i);
        }
        i = i + 1;
    }
    if chars_match_at(cs, t, i) {
        return Some(i);
    }
    assert forall|j: int| !#[trigger] occurs_at(cs@, t@, j) by {
        if 0 <= j && j < i {
        }
    }
    None
}

/// `str::contains` on character vectors.
pub fn contains_chars(cs: &Vec<char>, t: &Vec<char>) -> (r: bool)
    ensures
        r == contains_spec(cs@, t@),
{
    find_chars(cs, t).is_some()
}

/// `str::contains` with a string pattern.
pub fn contains(s: &str, t: &str) -> (r: bool)
    ensures
        r == contains_spec(s@, t@),
{
    let cs = chars_of(s);
    let ts = chars_of(t);
    contains_chars(&cs, &ts)
}

/// `str::starts_with` with a string pattern.
pub fn starts_with(s: &str, t: &str) -> (r: bool)
    ensures
        r == starts_with_spec(s@, t@),
{
    let cs = chars_of(s);
    let ts = chars_of(t);
    let r = chars_match_at(&cs, &ts, 0);
    proof {
        if t@.len() <= s@.len() {
            assert(cs@.subrange(0, t@.len() as int) =~= cs@.take(t@.len() as int));
        }
    }
    r
}

/// Whether any of the patterns occurs in `s`.
pub open spec fn contains_any_spec(s: Seq<char>, pats: Seq<Seq<char>>) -> bool {
    exists|k: int| 0 <= k < pats.len() && #[trigger] contains_spec(s, pats[k])
}

/// Whether any of the patterns occurs in `s`.
pub fn contains_any(s: &str, pats: &Vec<&str>) -> (r: bool)
    ensures
        r == contains_any_spec(s@, pats@.map_values(|p: &str| p@)),
{
    let cs = chars_of(s);
    let ghost pv = pats@.map_values(|p: &str| p@);
    let mut k: usize = 0;
    while k < pats.len()
        invariant
            k <= pats.len(),
            cs@ == s@,
            pv == pats@.map_values(|p: &str| p@),
            forall|m: int| 0 <= m < k ==> !#[trigger] contains_spec(s@, pv[m]),
        decreases pats.len() - k,
    {
        let ts = chars_of(pats[k]);
        if contains_chars(&cs, &ts) {
            assert(pv[k as int] == pats@[k as int]@);
            return true;
        }
        assert(pv[k as int] == pats@[k as int]@);
        k = k + 1;
    }
    false
}

// ---------------------------------------------------------------------------
// Replacing and joining
// ---------------------------------------------------------------------------

/// What `str::replace(p, r)` returns for a non-empty pattern: occurrences
/// replaced from left to right, without overlap.
pub open spec fn replace_spec(s: Seq<char>, p: Seq<char>, r: Seq<char>) -> Seq<char>
    recommends
        p.len() > 0,
    decreases s.len(),
{
    if p.len() == 0 || s.len() < p.len() {
        s
    } else if s.take(p.len() as int) == p {
        r + replace_spec(s.skip(p.len() as int), p, r)
    } else {
        seq![s[0]] + replace_spec(s.drop_first(), p, r)
    }
}

/// `str::replace` for a non-empty pattern.
pub fn replace(s: &str, p: &str, r: &str) -> (out: String)
    requires
        p@.len() > 0,
    ensures
        out@ == replace_spec(s@, p@, r@),
{
    let cs = chars_of(s);
    let ps = chars_of(p);
    let mut out = String::new();
    let mut i: usize = 0;
    assert(cs@.skip(0) =~= cs@);
    assert(out@ + replace_spec(cs@.skip(0), ps@, r@) =~= replace_spec(s@, p@, r@));
    while i < cs.len()
        invariant
            i <= cs.len(),
            cs@ == s@,
            ps@ == p@,
            ps@.len() > 0,
            out@ + replace_spec(cs@.skip(i as int), ps@, r@) == replace_spec(s@, p@, r@),
        decreases cs.len() - i,
    {
        let ghost rest = cs@.skip(i as int);
        if chars_match_at(&cs, &ps, i) {
            proof {
                assert(rest.take(ps@.len() as int) =~= cs@.subrange(i as int, i + ps@.len()));
                assert(rest.skip(ps@.len() as int) =~= cs@.skip(i + ps@.len()));
                assert(out@ + r@ + replace_spec(cs@.skip(i + ps@.len()), ps@, r@)
                    =~= out@ + (r@ + replace_spec(cs@.skip(i + ps@.len()), ps@, r@)));
            }
            append(&mut out, r);
            i = i + ps.len();
        } else {
            proof {
                if rest.len() >= ps@.len() {
                    assert(rest.take(ps@.len() as int) =~= cs@.subrange(i as int, i + ps@.len()));
                }
                assert(rest.drop_first() =~= cs@.skip(i + 1));
                assert(rest[0] == cs@[i as int]);
                assert(out@.push(cs@[i as int]) + replace_spec(cs@.skip(i + 1), ps@, r@)
                    =~= out@ + (seq![rest[0]] + replace_spec(rest.drop_first(), ps@, r@)));
            }
            push_char(&mut out, cs[i]);
            i = i + 1;
        }
    }
    assert(cs@.skip(i as int).len() == 0);
    assert(out@ + replace_spec(cs@.skip(i as int), ps@, r@) =~= out@);
    out
}

/// The pieces joined with `sep` between consecutive ones.
pub open spec fn join_spec(pieces: Seq<Seq<char>>, sep: Seq<char>) -> Seq<char>
    decreases pieces.len(),
{
    if pieces.len() == 0 {
        seq![]
    } else if pieces.len() == 1 {
        pieces[0]
    } else {
        join_spec(pieces.drop_last(), sep) + sep + pieces.last()
    }
}

/// The views of a list of strings.
pub open spec fn views(v: Seq<String>) -> Seq<Seq<char>> {
    v.map_values(|s: String| s@)
}

/// `[String]::join(sep)`.
pub fn join(pieces: &Vec<String>, sep: &str) -> (r: String)
    ensures
        r@ == join_spec(views(pieces@), sep@),
{
    let mut out = String::new();
    let mut i: usize = 0;
    while i < pieces.len()
        invariant
            i <= pieces.len(),
            out@ == join_spec(views(pieces@).take(i as int), sep@),
        decreases pieces.len() - i,
    {
        proof {
            assert(views(pieces@).take(i + 1).drop_last() =~= views(pieces@).take(i as int));
            assert(views(pieces@).take(i + 1).last() == pieces@[i as int]@);
        }
        if i > 0 {
            append(&mut out, sep);
        } else {
            assert(views(pieces@).take(1) =~= seq![pieces@[0]@]);
        }
        append(&mut out, pieces[i].as_str());
        i = i + 1;
    }
    assert(views(pieces@).take(i as int) =~= views(pieces@));
    out
}


// ---------------------------------------------------------------------------
// Equality and membership
// ---------------------------------------------------------------------------

/// The views of a list of string slices.
pub open spec fn strs(v: Seq<&str>) -> Seq<Seq<char>> {
    v.map_values(|s: &str| s@)
}

/// Whether two string slices hold the same characters.
pub fn str_eq(a: &str, b: &str) -> (r: bool)
    ensures
        r == (a@ == b@),
{
    let x = chars_of(a);
    let y = chars_of(b);
    if x.len() != y.len() {
        assert(x@.len() != y@.len());
        return false;
    }
    let mut i: usize = 0;
    while i < x.len()
        invariant
            i <= x.len() == y.len(),
            x@ == a@,
            y@ == b@,
            forall|k: int| 0 <= k < i ==> x@[k] == y@[k],
        decreases x.len() - i,
    {
        if x[i] != y[i] {
            assert(x@[i as int] != y@[i as int]);
            return false;
        }
        i = i + 1;
    }
    assert(x@ =~= y@);
    true
}

/// Whether a list of string slices holds `s`.
pub fn str_in(list: &Vec<&str>, s: &str) -> (r: bool)
    ensures
        r == strs(list@).contains(s@),
{
    let mut i: usize = 0;
    while i < list.len()
        invariant
            i <= list.len(),
            forall|k: int| 0 <= k < i ==> list@[k]@ != s@,
        decreases list.len() - i,
    {
        if str_eq(list[i], s) {
            assert(strs(list@)[i as int] == s@);
            return true;
        }
        i = i + 1;
    }
    assert forall|k: int| 0 <= k < strs(list@).len() implies strs(list@)[k] != s@ by {
        assert(strs(list@)[k] == list@[k]@);
    }
    false
}

/// Whether a list of strings holds `s`.
pub fn string_in(list: &Vec<String>, s: &str) -> (r: bool)
    ensures
        r == views(list@).contains(s@),
{
    let mut i: usize = 0;
    while i < list.len()
        invariant
            i <= list.len(),
            forall|k: int| 0 <= k < i ==> list@[k]@ != s@,
        decreases list.len() - i,
    {
        if str_eq(list[i].as_str(), s) {
            assert(views(list@)[i as int] == s@);
            return true;
        }
        i = i + 1;
    }
    assert forall|k: int| 0 <= k < views(list@).len() implies views(list@)[k] != s@ by {
        assert(views(list@)[k] == list@[k]@);
    }
    false
}

/// Adds `s` to a duplicate-free list that stands for a set of strings.
pub fn insert_unique(list: &mut Vec<String>, s: String)
    requires
        views(old(list)@).no_duplicates(),
    ensures
        views(final(list)@).no_duplicates(),
        views(final(list)@).to_set() == views(old(list)@).to_set().insert(s@),
{
    if !string_in(list, s.as_str()) {
        let ghost before = views(list@);
        let ghost v = s@;
        list.push(s);
        proof {
            assert(views(list@) =~= before.push(v));
            before.lemma_push_to_set_commute(v);
        }
    } else {
        proof {
            assert(views(list@).to_set() =~= views(list@).to_set().insert(s@));
        }
    }
}


/// A copy of a list of strings.
pub fn clone_strings(v: &Vec<String>) -> (r: Vec<String>)
    ensures
        r@ == v@,
{
    let mut out: Vec<String> = Vec::new();
    let mut i: usize = 0;
    while i < v.len()
        invariant
            i <= v.len(),
            out@ == v@.take(i as int),
        decreases v.len() - i,
    {
        out.push(v[i].clone());
        proof {
            assert(out@ =~= v@.take(i + 1));
        }
        i = i + 1;
    }
    assert(v@.take(i as int) =~= v@);
    out
}

// ---------------------------------------------------------------------------
// Word pieces
// ---------------------------------------------------------------------------

/// CJK unified ideographs in the basic block.
pub open spec fn is_cjk(c: char) -> bool {
    '\u{4e00}' <= c && c <= '\u{9fff}'
}

/// Characters that belong to a search word: alphanumeric or CJK.
pub open spec fn is_word_char(c: char) -> bool {
    is_alphanumeric_char(c) || is_cjk(c)
}

/// The length in bytes of the UTF-8 encoding (`str::len`).
pub open spec fn utf8_len(s: Seq<char>) -> nat {
    vstd::utf8::encode_utf8(s).len()
}

/// What `str::split(sep)` yields for a character predicate: the text
/// between separators, empty pieces included.
pub open spec fn split_spec(s: Seq<char>, sep: spec_fn(char) -> bool) -> Seq<Seq<char>>
    decreases s.len(),
{
    if s.len() == 0 {
        seq![seq![]]
    } else {
        let p = split_spec(s.drop_last(), sep);
        if sep(s.last()) {
            p.push(seq![])
        } else {
            p.update(p.len() - 1, p.last().push(s.last()))
        }
    }
}

/// What `str::split(|c| !is_word_char(c))` yields.
pub open spec fn word_pieces(s: Seq<char>) -> Seq<Seq<char>> {
    split_spec(s, |c: char| !is_word_char(c))
}

pub proof fn lemma_split_nonempty(s: Seq<char>, sep: spec_fn(char) -> bool)
    ensures
        split_spec(s, sep).len() >= 1,
    decreases s.len(),
{
    if s.len() > 0 {
        lemma_split_nonempty(s.drop_last(), sep);
    }
}


/// The pieces that are not empty, in order.
pub open spec fn drop_empty(p: Seq<Seq<char>>) -> Seq<Seq<char>>
    decreases p.len(),
{
    if p.len() == 0 {
        seq![]
    } else if p.last().len() > 0 {
        drop_empty(p.drop_last()).push(p.last())
    } else {
        drop_empty(p.drop_last())
    }
}

/// What `str::split_whitespace` yields: the runs of non-whitespace
/// characters, in order.
pub open spec fn ws_words(s: Seq<char>) -> Seq<Seq<char>> {
    drop_empty(split_spec(s, |c: char| is_whitespace_char(c)))
}

/// `str::split_whitespace`, collected.
pub fn split_whitespace(s: &str) -> (r: Vec<String>)
    ensures
        views(r@) == ws_words(s@),
{
    let cs = chars_of(s);
    let mut out: Vec<String> = Vec::new();
    let mut cur: Vec<char> = Vec::new();
    let mut i: usize = 0;
    let ghost sep = |c: char| is_whitespace_char(c);
    assert(cs@.take(0) =~= Seq::<char>::empty());
    assert(split_spec(cs@.take(0), sep) =~= seq![seq![]]);
    assert(views(out@) =~= drop_empty(split_spec(cs@.take(0), sep).drop_last()));
    while i < cs.len()
        invariant
            i <= cs.len(),
            cs@ == s@,
            sep == (|c: char| is_whitespace_char(c)),
            split_spec(cs@.take(i as int), sep).len() >= 1,
            views(out@) == drop_empty(split_spec(cs@.take(i as int), sep).drop_last()),
            cur@ == split_spec(cs@.take(i as int), sep).last(),
        decreases cs.len() - i,
    {
        let c = cs[i];
        let ghost p = split_spec(cs@.take(i as int), sep);
        proof {
            assert(cs@.take(i + 1).drop_last() =~= cs@.take(i as int));
            assert(cs@.take(i + 1).last() == c);
        }
        if char_is_whitespace(c) {
            let ghost before = views(out@);
            if cur.len() > 0 {
                let piece = string_of(&cur);
                out.push(piece);
                assert(views(out@) =~= before.push(piece@));
            }
            cur = Vec::new();
            proof {
                let q = split_spec(cs@.take(i + 1), sep);
                assert(q == p.push(seq![]));
                assert(q.drop_last() =~= p);
                assert(p.drop_last() + seq![p.last()] =~= p);
                assert(p =~= p.drop_last().push(p.last()));
                assert(drop_empty(p) == (if p.last().len() > 0 { drop_empty(p.drop_last()).push(p.last()) } else { drop_empty(p.drop_last()) }));
                assert(cur@ =~= q.last());
            }
        } else {
            let ghost prev = cur@;
            cur.push(c);
            proof {
                let q = split_spec(cs@.take(i + 1), sep);
                assert(q == p.update(p.len() - 1, p.last().push(c)));
                assert(q.drop_last() =~= p.drop_last());
                assert(cur@ =~= q.last());
            }
        }
        i = i + 1;
    }
    assert(cs@.take(cs.len() as int) =~= cs@);
    let ghost p = split_spec(cs@, sep);
    let ghost before = views(out@);
    if cur.len() > 0 {
        let last = string_of(&cur);
        out.push(last);
        assert(views(out@) =~= before.push(last@));
    }
    proof {
        assert(p =~= p.drop_last().push(p.last()));
        assert(drop_empty(p) == (if p.last().len() > 0 { drop_empty(p.drop_last()).push(p.last()) } else { drop_empty(p.drop_last()) }));
    }
    out
}

/// At most the first `n` characters (`chars().take(n)`).
pub open spec fn take_chars_spec(s: Seq<char>, n: nat) -> Seq<char> {
    if s.len() <= n { s } else { s.take(n as int) }
}

/// `s.chars().take(n).collect()`.
pub fn take_chars(s: &str, n: usize) -> (r: String)
    ensures
        r@ == take_chars_spec(s@, n as nat),
{
    let cs = chars_of(s);
    let m = if cs.len() <= n { cs.len() } else { n };
    let r = string_of_range(&cs, 0, m);
    assert(cs@.subrange(0, m as int) =~= take_chars_spec(s@, n as nat));
    r
}

/// Whether `c` belongs to a search word.
pub fn word_char(c: char) -> (r: bool)
    ensures
        r == is_word_char(c),
{
    char_is_alphanumeric(c) || ('\u{4e00}' <= c && c <= '\u{9fff}')
}


/// The number of bytes in the UTF-8 encoding of `c`.
fn char_width(c: char) -> (w: usize)
    ensures
        w as nat == vstd::utf8::encode_scalar(c as u32).len(),
        1 <= w <= 4,
{
    proof {
        vstd::utf8::char_is_scalar(c);
    }
    let v = c as u32;
    if v <= 0x7F {
        1
    } else if v <= 0x7FF {
        2
    } else if v <= 0xFFFF {
        3
    } else {
        4
    }
}

/// Whether the UTF-8 encoding of `s` is at least `n` bytes long
/// (`s.len() >= n`).
pub fn utf8_len_at_least(s: &str, n: usize) -> (r: bool)
    requires
        n <= 1024,
    ensures
        r == (utf8_len(s@) >= n),
{
    let cs = chars_of(s);
    let mut acc: usize = 0;
    let mut i: usize = 0;
    assert(cs@.skip(0) =~= cs@);
    while i < cs.len() && acc < n
        invariant
            i <= cs.len(),
            cs@ == s@,
            n <= 1024,
            acc < n + 4,
            acc + utf8_len(cs@.skip(i as int)) == utf8_len(s@),
        decreases cs.len() - i,
    {
        let w = char_width(cs[i]);
        proof {
            let rest = cs@.skip(i as int);
            assert(rest[0] == cs@[i as int]);
            assert(rest.drop_first() =~= cs@.skip(i + 1));
            assert(vstd::utf8::encode_utf8(rest) == vstd::utf8::encode_scalar(rest[0] as u32) + vstd::utf8::encode_utf8(rest.drop_first()));
        }
        acc = acc + w;
        i = i + 1;
    }
    if acc >= n {
        true
    } else {
        assert(cs@.skip(i as int).len() == 0);
        assert(vstd::utf8::encode_utf8(cs@.skip(i as int)).len() == 0);
        false
    }
}

/// Splits a text at every character that is neither alphanumeric nor CJK.
pub fn split_words(s: &str) -> (r: Vec<String>)
    ensures
        views(r@) == word_pieces(s@),
{
    let cs = chars_of(s);
    let mut out: Vec<String> = Vec::new();
    let mut cur: Vec<char> = Vec::new();
    let mut i: usize = 0;
    let ghost sep = |c: char| !is_word_char(c);
    assert(cs@.take(0) =~= Seq::<char>::empty());
    assert(views(out@).push(cur@) =~= split_spec(cs@.take(0), sep));
    while i < cs.len()
        invariant
            i <= cs.len(),
            cs@ == s@,
            sep == (|c: char| !is_word_char(c)),
            views(out@).push(cur@) == split_spec(cs@.take(i as int), sep),
        decreases cs.len() - i,
    {
        let c = cs[i];
        proof {
            assert(cs@.take(i + 1).drop_last() =~= cs@.take(i as int));
            assert(cs@.take(i + 1).last() == c);
            lemma_split_nonempty(cs@.take(i as int), sep);
        }
        if !word_char(c) {
            let piece = string_of(&cur);
            let ghost before = views(out@);
            out.push(piece);
            cur = Vec::new();
            proof {
                assert(views(out@) =~= before.push(piece@));
                assert(views(out@).push(cur@) =~= (before.push(piece@)).push(seq![]));
            }
        } else {
            let ghost prev = cur@;
            cur.push(c);
            proof {
                assert(views(out@).push(cur@) =~= views(out@).push(prev).update(views(out@).len() as int, prev.push(c)));
            }
        }
        i = i + 1;
    }
    assert(cs@.take(cs.len() as int) =~= cs@);
    let last = string_of(&cur);
    let ghost before = views(out@);
    out.push(last);
    assert(views(out@) =~= before.push(last@));
    out
}

/// Splits a text at every occurrence of the character `d`.
pub fn split_char(s: &str, d: char) -> (r: Vec<String>)
    ensures
        views(r@) == split_spec(s@, |c: char| c == d),
{
    let cs = chars_of(s);
    let mut out: Vec<String> = Vec::new();
    let mut cur: Vec<char> = Vec::new();
    let mut i: usize = 0;
    let ghost sep = |c: char| c == d;
    assert(cs@.take(0) =~= Seq::<char>::empty());
    assert(views(out@).push(cur@) =~= split_spec(cs@.take(0), sep));
    while i < cs.len()
        invariant
            i <= cs.len(),
            cs@ == s@,
            sep == (|c: char| c == d),
            views(out@).push(cur@) == split_spec(cs@.take(i as int), sep),
        decreases cs.len() - i,
    {
        let c = cs[i];
        proof {
            assert(cs@.take(i + 1).drop_last() =~= cs@.take(i as int));
            assert(cs@.take(i + 1).last() == c);
            lemma_split_nonempty(cs@.take(i as int), sep);
        }
        if c == d {
            let piece = string_of(&cur);
            let ghost before = views(out@);
            out.push(piece);
            cur = Vec::new();
            proof {
                assert(views(out@) =~= before.push(piece@));
                assert(views(out@).push(cur@) =~= (before.push(piece@)).push(seq![]));
            }
        } else {
            let ghost prev = cur@;
            cur.push(c);
            proof {
                assert(views(out@).push(cur@) =~= views(out@).push(prev).update(views(out@).len() as int, prev.push(c)));
            }
        }
        i = i + 1;
    }
    assert(cs@.take(cs.len() as int) =~= cs@);
    let last = string_of(&cur);
    let ghost before = views(out@);
    out.push(last);
    assert(views(out@) =~= before.push(last@));
    out
}

// ---------------------------------------------------------------------------
// Decimal rendering
// ---------------------------------------------------------------------------

/// The decimal digit for `d < 10`.
pub open spec fn digit_char(d: nat) -> char {
    if d == 0 { '0' } else if d == 1 { '1' } else if d == 2 { '2' } else if d == 3 { '3' }
    else if d == 4 { '4' } else if d == 5 { '5' } else if d == 6 { '6' } else if d == 7 { '7' }
    else if d == 8 { '8' } else { '9' }
}

/// The decimal rendering of a natural number, as `Display` writes it.
pub open spec fn decimal(n: nat) -> Seq<char>
    decreases n,
{
    if n < 10 {
        seq![digit_char(n)]
    } else {
        decimal(n / 10).push(digit_char(n % 10))
    }
}

/// The decimal rendering of a signed number, as `Display` writes it.
pub open spec fn decimal_int(n: int) -> Seq<char> {
    if n < 0 {
        seq!['-'] + decimal((-n) as nat)
    } else {
        decimal(n as nat)
    }
}

fn digit(d: u64) -> (c: char)
    requires
        d < 10,
    ensures
        c == digit_char(d as nat),
{
    if d == 0 { '0' } else if d == 1 { '1' } else if d == 2 { '2' } else if d == 3 { '3' }
    else if d == 4 { '4' } else if d == 5 { '5' } else if d == 6 { '6' } else if d == 7 { '7' }
    else if d == 8 { '8' } else { '9' }
}

/// The decimal rendering of an unsigned number.
pub fn decimal_u64(n: u64) -> (r: String)
    ensures
        r@ == decimal(n as nat),
    decreases n,
{
    if n < 10 {
        let mut s = String::new();
        push_char(&mut s, digit(n));
        assert(s@ =~= seq![digit_char(n as nat)]);
        s
    } else {
        let mut s = decimal_u64(n / 10);
        push_char(&mut s, digit(n % 10));
        s
    }
}

/// The decimal rendering of a `usize`.
pub fn decimal_usize(n: usize) -> (r: String)
    ensures
        r@ == decimal(n as nat),
{
    decimal_u64(n as u64)
}

/// The decimal rendering of an `i64`.
pub fn decimal_i64(n: i64) -> (r: String)
    ensures
        r@ == decimal_int(n as int),
{
    if n < 0 {
        let m: u64 = if n == i64::MIN { 9223372036854775808u64 } else { (-n) as u64 };
        let mut s = String::new();
        push_char(&mut s, '-');
        let d = decimal_u64(m);
        append(&mut s, d.as_str());
        assert(s@ =~= seq!['-'] + decimal((-(n as int)) as nat));
        s
    } else {
        decimal_u64(n as u64)
    }
}


// ---------------------------------------------------------------------------
// Labelled parts
// ---------------------------------------------------------------------------

/// A labelled part when the value is not blank.
pub open spec fn labelled_part(label: Seq<char>, value: Seq<char>) -> Seq<Seq<char>> {
    if is_blank_spec(value) { seq![] } else { seq![label + value] }
}

/// Adds `label` followed by `value` to `parts` when `value` is not blank.
pub fn push_labelled(parts: &mut Vec<String>, label: &str, value: &str)
    ensures
        views(final(parts)@) == views(old(parts)@) + labelled_part(label@, value@),
{
    if !is_blank(value) {
        let ghost before = views(parts@);
        let s = cat(label, value);
        parts.push(s);
        assert(views(parts@) =~= before + seq![label@ + value@]);
    } else {
        assert(views(parts@) + seq![] =~= views(parts@));
    }
}


// ---------------------------------------------------------------------------
// Ordering
// ---------------------------------------------------------------------------

/// Whether `a` comes before `b` in the order of `str`'s comparison: by
/// code point, a proper prefix first.
pub open spec fn seq_lt(a: Seq<char>, b: Seq<char>) -> bool
    decreases a.len(),
{
    if a.len() == 0 {
        b.len() > 0
    } else if b.len() == 0 {
        false
    } else if a[0] != b[0] {
        a[0] < b[0]
    } else {
        seq_lt(a.drop_first(), b.drop_first())
    }
}

/// Whether `a` comes before `b` in `str`'s order.
pub fn str_lt(a: &str, b: &str) -> (r: bool)
    ensures
        r == seq_lt(a@, b@),
{
    let x = chars_of(a);
    let y = chars_of(b);
    let mut i: usize = 0;
    assert(x@.skip(0) =~= x@);
    assert(y@.skip(0) =~= y@);
    while i < x.len() && i < y.len() && x[i] == y[i]
        invariant
            i <= x@.len(),
            i <= y@.len(),
            x@ == a@,
            y@ == b@,
            seq_lt(a@, b@) == seq_lt(x@.skip(i as int), y@.skip(i as int)),
        decreases x@.len() - i,
    {
        proof {
            assert(x@.skip(i as int).drop_first() =~= x@.skip(i as int + 1));
            assert(y@.skip(i as int).drop_first() =~= y@.skip(i as int + 1));
        }
        i = i + 1;
    }
    proof {
        if i < x@.len() && i < y@.len() {
            assert(x@.skip(i as int)[0] == x@[i as int]);
            assert(y@.skip(i as int)[0] == y@[i as int]);
        }
    }
    if i == x.len() {
        i < y.len()
    } else if i == y.len() {
        false
    } else {
        x[i] < y[i]
    }
}


/// No text comes before itself.
pub proof fn lemma_seq_lt_irreflexive(a: Seq<char>)
    ensures
        !seq_lt(a, a),
    decreases a.len(),
{
    if a.len() > 0 {
        lemma_seq_lt_irreflexive(a.drop_first());
    }
}

/// The order of texts is transitive.
pub proof fn lemma_seq_lt_transitive(a: Seq<char>, b: Seq<char>, c: Seq<char>)
    requires
        seq_lt(a, b),
        seq_lt(b, c),
    ensures
        seq_lt(a, c),
    decreases a.len(),
{
    if a.len() > 0 && b.len() > 0 && c.len() > 0 && a[0] == b[0] && b[0] == c[0] {
        lemma_seq_lt_transitive(a.drop_first(), b.drop_first(), c.drop_first());
    }
}


/// The first index at or after `k` at which `t` occurs in `s`.
pub open spec fn seq_find_from<A>(s: Seq<A>, t: Seq<A>, k: int) -> Option<int>
    decreases s.len() + 1 - k,
{
    if k < 0 || k + t.len() > s.len() {
        None
    } else if s.subrange(k, k + t.len()) == t {
        Some(k)
    } else {
        seq_find_from(s, t, k + 1)
    }
}

/// The first index at which `t` occurs in `s` (`str::find`, counted in
/// characters).
pub open spec fn seq_find<A>(s: Seq<A>, t: Seq<A>) -> Option<int> {
    seq_find_from(s, t, 0)
}

/// Where `t` first occurs in `s`, counted in characters.
pub fn find_str(s: &str, t: &str) -> (r: Option<usize>)
    ensures
        match r {
            Some(i) => seq_find(s@, t@) == Some(i as int),
            None => seq_find(s@, t@) is None,
        },
{
    let cs = chars_of(s);
    let ts = chars_of(t);
    if ts.len() > cs.len() {
        return None;
    }
    let last = cs.len() - ts.len();
    let mut i: usize = 0;
    while i < last
        invariant
            last + ts@.len() == cs@.len(),
            cs@ == s@,
            ts@ == t@,
            i <= last,
            seq_find_from(s@, t@, 0) == seq_find_from(s@, t@, i as int),
        decreases last - i,
    {
        if chars_match_at(&cs, &ts, i) {
            return Some(i);
        }
        i = i + 1;
    }
    if chars_match_at(&cs, &ts, last) {
        Some(last)
    } else {
        assert(seq_find_from(s@, t@, last + 1) is None);
        None
    }
}


/// Where `seq_find_from` finds `t`, `t` occurs.
pub proof fn lemma_seq_find_from_found<A>(s: Seq<A>, t: Seq<A>, k: int)
    ensures
        seq_find_from(s, t, k) matches Some(i) ==> k <= i && i + t.len() <= s.len() && s.subrange(i, i + t.len()) == t,
    decreases s.len() + 1 - k,
{
    if !(k < 0 || k + t.len() > s.len()) && s.subrange(k, k + t.len()) != t {
        lemma_seq_find_from_found(s, t, k + 1);
    }
}

} // verus!
