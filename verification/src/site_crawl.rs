//! Walking a journal's official site: the pages tried first, which links
//! are followed and in what order, and the bounded frontier of pages to
//! read. Fetching pages and resolving links are the caller's.
use vstd::prelude::*;
use crate::page_text::{score_candidate_url, url_weights, weight_sum};
use crate::text::{
    append, cat, contains, contains_spec, lowercase, owned, starts_with, starts_with_spec, str_eq, string_in,
    to_lowercase, trim, trim_spec, views,
};

verus! {

// ---------------------------------------------------------------------------
// Pages tried first
// ---------------------------------------------------------------------------

/// The path without leading and trailing `/`.
pub open spec fn strip_slashes(p: Seq<char>) -> Seq<char>
    decreases p.len(),
{
    if p.len() > 0 && p[0] == '/' {
        strip_slashes(p.drop_first())
    } else if p.len() > 0 && p.last() == '/' {
        strip_slashes(p.drop_last())
    } else {
        p
    }
}

/// The first segment of a path: what comes before the first `/`.
pub open spec fn first_segment(p: Seq<char>) -> Seq<char> {
    match crate::text::seq_find(p, seq!['/']) {
        Some(k) => p.take(k),
        None => p,
    }
}

/// Pages of well-known publishers that say where a journal's information
/// is, for a start page on `host` with `path`.
pub open spec fn fallback_pages(host: Seq<char>, path: Seq<char>) -> Seq<Seq<char>> {
    let h = lowercase(host);
    let p = strip_slashes(path);
    if contains_spec(h, "nature.com"@) {
        let first = first_segment(p);
        if p.len() > 0 && first != "journal-information"@ && first != "how-to-submit"@ && first != "open-access-fees-and-funding"@ {
            seq![
                "https://www.nature.com/"@ + first + "/journal-information"@,
                "https://www.nature.com/"@ + first + "/how-to-submit"@,
                "https://www.nature.com/"@ + first + "/open-access-fees-and-funding"@,
            ]
        } else {
            seq![]
        }
    } else if contains_spec(h, "ieeeaccess.ieee.org"@) {
        seq![
            "https://ieeeaccess.ieee.org/about/bibliometrics/"@,
            "https://ieeeaccess.ieee.org/about/article-processing-charges/"@,
            "https://ieeeaccess.ieee.org/authors/submission-guidelines/"@,
        ]
    } else if contains_spec(h, "journals.plos.org"@) {
        if p.len() == 0 || contains_spec(p, "plosone"@) {
            seq!["https://journals.plos.org/plosone/s/journal-information"@, "https://plos.org/publish/fees/"@]
        } else {
            seq![]
        }
    } else if contains_spec(h, "frontiersin.org"@) {
        seq![
            "https://www.frontiersin.org/about/open-access"@,
            "https://www.frontiersin.org/about/fee-policy"@,
            "https://www.frontiersin.org/for-authors/where-to-publish/what-are-publishing-fees"@,
        ]
    } else {
        seq![]
    }
}

fn strip_path_slashes(path: &str) -> (r: String)
    ensures
        r@ == strip_slashes(path@),
{
    let cs = crate::text::chars_of(path);
    let mut lo: usize = 0;
    let mut hi: usize = cs.len();
    assert(cs@.subrange(0, cs@.len() as int) =~= cs@);
    while lo < hi && (cs[lo] == '/' || cs[hi - 1] == '/')
        invariant
            lo <= hi <= cs@.len(),
            cs@ == path@,
            strip_slashes(path@) == strip_slashes(cs@.subrange(lo as int, hi as int)),
        decreases hi - lo,
    {
        let ghost cur = cs@.subrange(lo as int, hi as int);
        if cs[lo] == '/' {
            assert(cur.drop_first() =~= cs@.subrange(lo + 1, hi as int));
            lo = lo + 1;
        } else {
            assert(cur.drop_last() =~= cs@.subrange(lo as int, hi - 1));
            hi = hi - 1;
        }
    }
    proof {
        let cur = cs@.subrange(lo as int, hi as int);
        if lo == hi {
            assert(cur.len() == 0);
        }
    }
    crate::text::string_of_range(&cs, lo, hi)
}

/// The pages tried first for a start page on `host` with `path`.
pub fn site_fallback_urls(host: &str, path: &str) -> (r: Vec<String>)
    ensures
        views(r@) == fallback_pages(host@, path@),
{
    let h = to_lowercase(host);
    let p = strip_path_slashes(path);
    let mut urls: Vec<String> = Vec::new();
    if contains(h.as_str(), "nature.com") {
        let first = match crate::text::find_str(p.as_str(), "/") {
            Some(k) => {
                proof {
                    crate::text::lemma_seq_find_from_found(p@, "/"@, 0);
                }
                let cs = crate::text::chars_of(p.as_str());
                crate::text::string_of_range(&cs, 0, k)
            },
            None => owned(p.as_str()),
        };
        proof {
            reveal_strlit("/");
            assert("/"@ =~= seq!['/']);
            assert(first@ =~= first_segment(p@));
        }
        if !p.as_str().is_empty() && !str_eq(first.as_str(), "journal-information") && !str_eq(first.as_str(), "how-to-submit")
            && !str_eq(first.as_str(), "open-access-fees-and-funding") {
            let mut a = cat("https://www.nature.com/", first.as_str());
            append(&mut a, "/journal-information");
            let mut b = cat("https://www.nature.com/", first.as_str());
            append(&mut b, "/how-to-submit");
            let mut c = cat("https://www.nature.com/", first.as_str());
            append(&mut c, "/open-access-fees-and-funding");
            urls.push(a);
            urls.push(b);
            urls.push(c);
        }
    } else if contains(h.as_str(), "ieeeaccess.ieee.org") {
        urls.push(owned("https://ieeeaccess.ieee.org/about/bibliometrics/"));
        urls.push(owned("https://ieeeaccess.ieee.org/about/article-processing-charges/"));
        urls.push(owned("https://ieeeaccess.ieee.org/authors/submission-guidelines/"));
    } else if contains(h.as_str(), "journals.plos.org") {
        if p.as_str().is_empty() || contains(p.as_str(), "plosone") {
            urls.push(owned("https://journals.plos.org/plosone/s/journal-information"));
            urls.push(owned("https://plos.org/publish/fees/"));
        }
    } else if contains(h.as_str(), "frontiersin.org") {
        urls.push(owned("https://www.frontiersin.org/about/open-access"));
        urls.push(owned("https://www.frontiersin.org/about/fee-policy"));
        urls.push(owned("https://www.frontiersin.org/for-authors/where-to-publish/what-are-publishing-fees"));
    }
    assert(views(urls@) =~= fallback_pages(host@, path@));
    urls
}

// ---------------------------------------------------------------------------
// Which links are followed
// ---------------------------------------------------------------------------

/// Whether a raw link may lead to a page: not blank, not a script, mail or
/// in-page link.
pub open spec fn followable_spec(raw: Seq<char>) -> bool {
    let l = lowercase(trim_spec(raw));
    !(starts_with_spec(l, "javascript:"@) || starts_with_spec(l, "mailto:"@) || starts_with_spec(l, "#"@) || l.len() == 0)
}

/// Whether a raw link may lead to a page.
pub fn is_followable_link(raw: &str) -> (r: bool)
    ensures
        r == followable_spec(raw@),
{
    let l = to_lowercase(trim(raw).as_str());
    !(starts_with(l.as_str(), "javascript:") || starts_with(l.as_str(), "mailto:") || starts_with(l.as_str(), "#")
        || l.as_str().is_empty())
}

/// Whether a resolved link stays on the site and is not a document
/// download.
pub open spec fn same_site_page_spec(base_host: Seq<char>, host: Seq<char>, path: Seq<char>) -> bool {
    let p = lowercase(path);
    host == base_host && !(ends_with_spec(p, ".pdf"@) || ends_with_spec(p, ".zip"@) || ends_with_spec(p, ".doc"@)
        || ends_with_spec(p, ".docx"@))
}

/// Whether `s` ends with `t`.
pub open spec fn ends_with_spec(s: Seq<char>, t: Seq<char>) -> bool {
    t.len() <= s.len() && s.skip(s.len() - t.len()) == t
}

fn ends_with(s: &str, t: &str) -> (r: bool)
    ensures
        r == ends_with_spec(s@, t@),
{
    let cs = crate::text::chars_of(s);
    let ts = crate::text::chars_of(t);
    if ts.len() > cs.len() {
        return false;
    }
    let r = crate::text::chars_match_at(&cs, &ts, cs.len() - ts.len());
    assert(cs@.subrange(cs.len() - ts.len(), cs.len() as int) =~= cs@.skip(cs.len() - ts.len()));
    r
}

/// Whether a resolved link stays on the site and is not a document.
pub fn same_site_page(base_host: &str, host: &str, path: &str) -> (r: bool)
    ensures
        r == same_site_page_spec(base_host@, host@, path@),
{
    let p = to_lowercase(path);
    str_eq(host, base_host) && !(ends_with(p.as_str(), ".pdf") || ends_with(p.as_str(), ".zip") || ends_with(p.as_str(), ".doc")
        || ends_with(p.as_str(), ".docx"))
}

/// The largest page read, in bytes.
pub const MAX_HTML_BYTES: usize = 2097152;

/// Refuses a response that is not HTML (when it says what it is) or that
/// is over 2 MB.
pub fn check_page_response(content_type: &str, byte_count: usize) -> (r: Result<(), String>)
    ensures
        match r {
            Ok(()) => (contains_spec(lowercase(content_type@), "text/html"@) || lowercase(content_type@).len() == 0)
                && byte_count <= MAX_HTML_BYTES,
            Err(e) => (!(contains_spec(lowercase(content_type@), "text/html"@) || lowercase(content_type@).len() == 0)
                && e@ == "页面不是 HTML"@)
                || ((contains_spec(lowercase(content_type@), "text/html"@) || lowercase(content_type@).len() == 0)
                && byte_count > MAX_HTML_BYTES && e@ == "页面超过 2MB，已跳过"@),
        },
{
    let ct = to_lowercase(content_type);
    if !contains(ct.as_str(), "text/html") && !ct.as_str().is_empty() {
        return Err(owned("页面不是 HTML"));
    }
    if byte_count > MAX_HTML_BYTES {
        return Err(owned("页面超过 2MB，已跳过"));
    }
    Ok(())
}

// ---------------------------------------------------------------------------
// Resolving links
// ---------------------------------------------------------------------------

/// What `reqwest::Url::parse` makes of an address: its serialisation, its
/// host (if any) and its path; `None` when it does not parse.
pub uninterp spec fn url_parts(url: Seq<char>) -> Option<(Seq<char>, Option<Seq<char>>, Seq<char>)>;

/// What joining `raw` onto the parsed `base` with `Url::join` gives: the
/// serialisation, host (if any) and path of the result; `None` when the
/// base does not parse or the join fails.
pub uninterp spec fn link_target(base: Seq<char>, raw: Seq<char>) -> Option<(Seq<char>, Option<Seq<char>>, Seq<char>)>;

/// The plain values of an address's parts.
pub open spec fn parts_view(r: Option<(String, Option<String>, String)>) -> Option<(Seq<char>, Option<Seq<char>>, Seq<char>)> {
    match r {
        Some((u, h, p)) => Some((u@, crate::patterns::opt_view(h), p@)),
        None => None,
    }
}

/// Calls `reqwest::Url::parse` and reads the serialisation, host and path
/// of the result. Claims only that the result is the named value of the
/// address: nothing is stated about how URLs parse.
#[verifier::external_body]
fn parse_url_parts(url: &str) -> (r: Option<(String, Option<String>, String)>)
    ensures
        parts_view(r) == url_parts(url@),
{
    let u = reqwest::Url::parse(url).ok()?;
    Some((u.as_str().to_string(), u.host_str().map(|h| h.to_string()), u.path().to_string()))
}

/// Calls `reqwest::Url::parse` on the base and `Url::join` with the raw
/// link, and reads the serialisation, host and path of the result. Claims
/// only that the result is the named value of the two arguments.
#[verifier::external_body]
fn join_link(base: &str, raw: &str) -> (r: Option<(String, Option<String>, String)>)
    ensures
        parts_view(r) == link_target(base@, raw@),
{
    let u = reqwest::Url::parse(base).ok()?.join(raw).ok()?;
    Some((u.as_str().to_string(), u.host_str().map(|h| h.to_string()), u.path().to_string()))
}

/// A link on a page: the value of an `href` attribute without a fragment.
pub const HREF_PATTERN: &'static str = "(?i)href\\s*=\\s*[\"']([^\"'#>]+)[\"']";

/// The raw link of an `href` match, trimmed.
pub open spec fn raw_link(c: Seq<Option<Seq<char>>>) -> Option<Seq<char>> {
    if c.len() > 1 {
        match c[1] {
            Some(t) => Some(trim_spec(t)),
            None => None,
        }
    } else {
        None
    }
}

/// The address an `href` match leads to, when it is followed: a link that
/// may lead to a page, resolved against the page, staying on its site and
/// not a document.
pub open spec fn resolved_link(base: Seq<char>, base_host: Seq<char>, c: Seq<Option<Seq<char>>>) -> Option<Seq<char>> {
    match raw_link(c) {
        Some(raw) => if followable_spec(raw) {
            match link_target(base, raw) {
                Some((u, Some(h), p)) => if same_site_page_spec(base_host, h, p) { Some(u) } else { None },
                _ => None,
            }
        } else {
            None
        },
        None => None,
    }
}

/// The addresses the `href` matches of a page lead to, in page order.
pub open spec fn resolved_links(base: Seq<char>, base_host: Seq<char>, caps: Seq<Seq<Option<Seq<char>>>>) -> Seq<Seq<char>>
    decreases caps.len(),
{
    if caps.len() == 0 {
        seq![]
    } else {
        let r = resolved_links(base, base_host, caps.drop_last());
        match resolved_link(base, base_host, caps.last()) {
            Some(u) => r.push(u),
            None => r,
        }
    }
}

/// The links worth following from the page at `base` with this HTML: none
/// when the page's address has no host.
pub open spec fn page_links_spec(html: Seq<char>, base: Seq<char>) -> Seq<Seq<char>> {
    match url_parts(base) {
        Some((_, Some(h), _)) => match crate::patterns::regex_captures_all(HREF_PATTERN@, html) {
            Some(caps) => links_to_follow(resolved_links(base, h, caps)),
            None => seq![],
        },
        _ => seq![],
    }
}

// ---------------------------------------------------------------------------
// Ranking links
// ---------------------------------------------------------------------------

/// A link's score.
pub open spec fn link_score(url: Seq<char>) -> int {
    weight_sum(lowercase(url), url_weights())
}

/// Where a stable sort by descending score puts `x` among the sorted `s`:
/// before the first link that scores lower.
pub open spec fn insert_by_score(s: Seq<Seq<char>>, x: Seq<char>) -> int
    decreases s.len(),
{
    if s.len() == 0 {
        0
    } else {
        let p = insert_by_score(s.drop_last(), x);
        if p < s.len() - 1 { p } else if link_score(x) > link_score(s.last()) { s.len() - 1 } else { s.len() as int }
    }
}

/// The links with a positive score, in the order of a stable sort by
/// descending score.
pub open spec fn ranked_links(s: Seq<Seq<char>>) -> Seq<Seq<char>>
    decreases s.len(),
{
    if s.len() == 0 {
        seq![]
    } else {
        let r = ranked_links(s.drop_last());
        if link_score(s.last()) > 0 { r.insert(insert_by_score(r, s.last()), s.last()) } else { r }
    }
}

/// The links worth following from a page: the five best-scoring ones with
/// a positive score, best first, equal scores in page order.
pub open spec fn links_to_follow(s: Seq<Seq<char>>) -> Seq<Seq<char>> {
    let r = ranked_links(s);
    if r.len() <= 5 { r } else { r.take(5) }
}

proof fn lemma_insert_by_score_range(s: Seq<Seq<char>>, x: Seq<char>)
    ensures
        0 <= insert_by_score(s, x) <= s.len(),
    decreases s.len(),
{
    if s.len() > 0 {
        lemma_insert_by_score_range(s.drop_last(), x);
    }
}

proof fn lemma_insert_by_score_prefix(s: Seq<Seq<char>>, x: Seq<char>, k: int)
    requires
        0 <= k <= s.len(),
        insert_by_score(s.take(k), x) < k,
    ensures
        insert_by_score(s, x) == insert_by_score(s.take(k), x),
    decreases s.len() - k,
{
    if k < s.len() {
        assert(s.take(k + 1).drop_last() =~= s.take(k));
        lemma_insert_by_score_prefix(s, x, k + 1);
    } else {
        assert(s.take(k) =~= s);
    }
}

/// Picks the links to follow from the resolved links of a page.
pub fn candidate_links(urls: &Vec<String>) -> (r: Vec<String>)
    ensures
        views(r@) == links_to_follow(views(urls@)),
{
    let mut ranked: Vec<String> = Vec::new();
    let mut scores: Vec<i32> = Vec::new();
    let mut i: usize = 0;
    while i < urls.len()
        invariant
            i <= urls@.len(),
            views(ranked@) == ranked_links(views(urls@).take(i as int)),
            scores@.len() == ranked@.len(),
            forall|k: int| 0 <= k < scores@.len() ==> scores@[k] as int == #[trigger] link_score(ranked@[k]@),
        decreases urls@.len() - i,
    {
        proof {
            assert(views(urls@).take(i + 1).drop_last() =~= views(urls@).take(i as int));
            assert(views(urls@).take(i + 1).last() == urls@[i as int]@);
        }
        let score = score_candidate_url(urls[i].as_str());
        if score > 0 {
            let ghost r = views(ranked@);
            let x = owned(urls[i].as_str());
            let mut j: usize = 0;
            while j < ranked.len() && !(score > scores[j])
                invariant
                    j <= ranked@.len(),
                    r == views(ranked@),
                    scores@.len() == ranked@.len(),
                    forall|k: int| 0 <= k < scores@.len() ==> scores@[k] as int == #[trigger] link_score(ranked@[k]@),
                    score as int == link_score(x@),
                    insert_by_score(r.take(j as int), x@) == j,
                decreases ranked@.len() - j,
            {
                proof {
                    assert(r.take(j + 1).drop_last() =~= r.take(j as int));
                    assert(r.take(j + 1).last() == ranked@[j as int]@);
                    assert(scores@[j as int] as int == link_score(ranked@[j as int]@));
                }
                j = j + 1;
            }
            proof {
                if j == ranked@.len() {
                    assert(r.take(j as int) =~= r);
                } else {
                    assert(r.take(j + 1).drop_last() =~= r.take(j as int));
                    assert(r.take(j + 1).last() == ranked@[j as int]@);
                    assert(scores@[j as int] as int == link_score(ranked@[j as int]@));
                    lemma_insert_by_score_prefix(r, x@, j as int + 1);
                }
                lemma_insert_by_score_range(r, x@);
            }
            let ghost old_r = ranked@;
            let ghost old_s = scores@;
            ranked.insert(j, x);
            scores.insert(j, score);
            proof {
                assert(views(ranked@) =~= r.insert(j as int, x@));
                assert forall|k: int| 0 <= k < scores@.len() implies scores@[k] as int == #[trigger] link_score(ranked@[k]@) by {
                    if k < j {
                        assert(ranked@[k] == old_r[k] && scores@[k] == old_s[k]);
                    } else if k == j {
                    } else {
                        assert(ranked@[k] == old_r[k - 1] && scores@[k] == old_s[k - 1]);
                    }
                }
            }
        }
        i = i + 1;
    }
    assert(views(urls@).take(i as int) =~= views(urls@));
    ranked.truncate(5);
    proof {
        let full = ranked_links(views(urls@));
        assert(views(ranked@) =~= (if full.len() <= 5 { full } else { full.take(5) }));
    }
    ranked
}


// ---------------------------------------------------------------------------
// The frontier of a crawl
// ---------------------------------------------------------------------------

/// The pages of a site to read: the queue in order (each address once),
/// the addresses already taken, how far the queue has been taken, and how
/// many pages were read.
#[derive(Clone, Debug)]
pub struct CrawlFrontier {
    pub queue: Vec<String>,
    pub seen: Vec<String>,
    pub next: usize,
    pub pages_read: usize,
}

/// At most this many pages are read from a site.
pub const MAX_PAGES: usize = 6;

/// Links stop being queued once read and queued pages reach this number.
pub const MAX_QUEUED: usize = 12;

impl CrawlFrontier {
    /// The well-formed frontiers: no address queued twice, the position
    /// within the queue.
    pub open spec fn wf(&self) -> bool {
        &&& views(self.queue@).no_duplicates()
        &&& views(self.seen@).no_duplicates()
        &&& self.next <= self.queue@.len()
        &&& self.queue@.len() <= 64
    }
}

/// The queue after adding addresses not queued yet, in order.
pub open spec fn enqueue_new(queue: Seq<Seq<char>>, links: Seq<Seq<char>>) -> Seq<Seq<char>>
    decreases links.len(),
{
    if links.len() == 0 {
        queue
    } else {
        enqueue_new(if queue.contains(links[0]) { queue } else { queue.push(links[0]) }, links.drop_first())
    }
}

/// The queue after the links of a read page: each new link is queued, in
/// order, while read and queued pages stay under the bound.
pub open spec fn enqueue_links(queue: Seq<Seq<char>>, pages_read: nat, links: Seq<Seq<char>>) -> Seq<Seq<char>>
    decreases links.len(),
{
    if links.len() == 0 || pages_read + queue.len() >= 12 {
        queue
    } else {
        enqueue_links(if queue.contains(links[0]) { queue } else { queue.push(links[0]) }, pages_read, links.drop_first())
    }
}

/// The next page to read: the first address from the position on that was
/// not taken yet, while fewer than six pages were read; the new position and
/// the addresses taken.
pub open spec fn next_page_spec(queue: Seq<Seq<char>>, seen: Set<Seq<char>>, next: int, pages_read: int)
    -> (Option<Seq<char>>, int, Set<Seq<char>>)
    decreases queue.len() - next,
{
    if 0 <= next < queue.len() && pages_read < 6 {
        if seen.contains(queue[next]) {
            next_page_spec(queue, seen, next + 1, pages_read)
        } else {
            (Some(queue[next]), next + 1, seen.insert(queue[next]))
        }
    } else {
        (None, next, seen)
    }
}

fn push_new(queue: &mut Vec<String>, link: &str)
    requires
        views(old(queue)@).no_duplicates(),
        old(queue)@.len() < usize::MAX,
    ensures
        views(final(queue)@).no_duplicates(),
        views(final(queue)@) == (if views(old(queue)@).contains(link@) { views(old(queue)@) } else { views(old(queue)@).push(link@) }),
{
    if !string_in(queue, link) {
        let ghost before = views(queue@);
        queue.push(owned(link));
        assert(views(queue@) =~= before.push(link@));
    }
}

impl CrawlFrontier {
    /// The frontier of a crawl from `start`, with the publisher's pages
    /// queued after it.
    pub fn new(start: &str, fallbacks: &Vec<String>) -> (r: CrawlFrontier)
        requires
            fallbacks@.len() < 16,
        ensures
            r.wf(),
            views(r.queue@) == enqueue_new(seq![start@], views(fallbacks@)),
            r.seen@.len() == 0,
            r.next == 0,
            r.pages_read == 0,
    {
        let mut queue: Vec<String> = Vec::new();
        queue.push(owned(start));
        assert(views(queue@) =~= seq![start@]);
        let mut i: usize = 0;
        let ghost fv = views(fallbacks@);
        assert(fv.skip(0) =~= fv);
        while i < fallbacks.len()
            invariant
                i <= fallbacks@.len() < 16,
                fv == views(fallbacks@),
                views(queue@).no_duplicates(),
                queue@.len() <= i + 1,
                enqueue_new(seq![start@], fv) == enqueue_new(views(queue@), fv.skip(i as int)),
            decreases fallbacks@.len() - i,
        {
            proof {
                assert(fv.skip(i as int)[0] == fallbacks@[i as int]@);
                assert(fv.skip(i as int).drop_first() =~= fv.skip(i + 1));
            }
            let ghost before = queue@.len();
            push_new(&mut queue, fallbacks[i].as_str());
            assert(views(queue@).len() == queue@.len());
            assert(queue@.len() <= before + 1);
            i = i + 1;
        }
        assert(fv.skip(i as int).len() == 0);
        let r = CrawlFrontier { queue, seen: Vec::new(), next: 0, pages_read: 0 };
        assert(views(r.seen@) =~= Seq::<Seq<char>>::empty());
        r
    }

    /// Takes the next page to read, if any.
    pub fn next_page(&mut self) -> (r: Option<String>)
        requires
            old(self).wf(),
        ensures
            final(self).wf(),
            final(self).queue@ == old(self).queue@,
            final(self).pages_read == old(self).pages_read,
            crate::patterns::opt_view(r) == next_page_spec(views(old(self).queue@), views(old(self).seen@).to_set(),
                old(self).next as int, old(self).pages_read as int).0,
            final(self).next as int == next_page_spec(views(old(self).queue@), views(old(self).seen@).to_set(),
                old(self).next as int, old(self).pages_read as int).1,
            views(final(self).seen@).to_set() == next_page_spec(views(old(self).queue@), views(old(self).seen@).to_set(),
                old(self).next as int, old(self).pages_read as int).2,
    {
        let ghost q = views(self.queue@);
        let ghost result = next_page_spec(q, views(self.seen@).to_set(), self.next as int, self.pages_read as int);
        while self.next < self.queue.len() && self.pages_read < 6
            invariant
                self.wf(),
                self.queue@ == old(self).queue@,
                self.pages_read == old(self).pages_read,
                q == views(self.queue@),
                result == next_page_spec(q, views(self.seen@).to_set(), self.next as int, self.pages_read as int),
                result == next_page_spec(views(old(self).queue@), views(old(self).seen@).to_set(),
                    old(self).next as int, old(self).pages_read as int),
            decreases self.queue@.len() - self.next,
        {
            let current = owned(self.queue[self.next].as_str());
            proof {
                assert(q[self.next as int] == current@);
                assert(views(self.seen@).contains(current@) <==> views(self.seen@).to_set().contains(current@));
            }
            self.next = self.next + 1;
            if !string_in(&self.seen, current.as_str()) {
                let key = owned(current.as_str());
                let ghost seen_before = views(self.seen@).to_set();
                crate::text::insert_unique(&mut self.seen, key);
                proof {
                    assert(views(self.seen@).to_set() == seen_before.insert(current@));
                    assert(result == (Some(current@), self.next as int, views(self.seen@).to_set()));
                }
                return Some(current);
            }
        }
        None
    }

    /// Records a page read, with the links found on it.
    pub fn page_read(&mut self, links: &Vec<String>)
        requires
            old(self).wf(),
            old(self).pages_read < 1000,
        ensures
            final(self).wf(),
            views(final(self).queue@) == enqueue_links(views(old(self).queue@), old(self).pages_read as nat, views(links@)),
            final(self).seen@ == old(self).seen@,
            final(self).next == old(self).next,
            final(self).pages_read == old(self).pages_read + 1,
    {
        let ghost result = enqueue_links(views(self.queue@), self.pages_read as nat, views(links@));
        let ghost lv = views(links@);
        let mut i: usize = 0;
        assert(lv.skip(0) =~= lv);
        while i < links.len()
            invariant_except_break
                result == enqueue_links(views(self.queue@), self.pages_read as nat, lv.skip(i as int)),
            invariant
                self.wf(),
                lv == views(links@),
                i <= links@.len(),
                self.next == old(self).next,
                self.seen@ == old(self).seen@,
                self.pages_read == old(self).pages_read,
                self.pages_read < 1000,
            ensures
                result == views(self.queue@),
            decreases links@.len() - i,
        {
            proof {
                assert(lv.skip(i as int)[0] == links@[i as int]@);
                assert(lv.skip(i as int).drop_first() =~= lv.skip(i + 1));
            }
            if self.pages_read + self.queue.len() >= 12 {
                break;
            }
            let ghost before = self.queue@.len();
            push_new(&mut self.queue, links[i].as_str());
            assert(views(self.queue@).len() == self.queue@.len());
            assert(self.queue@.len() <= before + 1);
            i = i + 1;
        }
        self.pages_read = self.pages_read + 1;
    }
}

/// A crawl that read no page fails.
pub fn crawl_outcome(pages_read: usize) -> (r: Result<(), String>)
    ensures
        r is Ok <==> pages_read > 0,
        r matches Err(e) ==> e@ == "官网页面抓取失败"@,
{
    if pages_read == 0 { Err(owned("官网页面抓取失败")) } else { Ok(()) }
}

/// A crawl takes no address twice and reads at most six pages: a next page,
/// when there is one, comes from the queue, was not taken before, is taken
/// now, and fewer than six pages were read; without one nothing is taken.
pub proof fn next_page_is_new_and_bounded(queue: Seq<Seq<char>>, seen: Set<Seq<char>>, next: int, pages_read: int)
    ensures
        next_page_spec(queue, seen, next, pages_read).0 matches Some(p) ==> {
            &&& queue.contains(p)
            &&& !seen.contains(p)
            &&& pages_read < 6
            &&& next_page_spec(queue, seen, next, pages_read).2 == seen.insert(p)
        },
        next_page_spec(queue, seen, next, pages_read).0 is None ==> next_page_spec(queue, seen, next, pages_read).2 == seen,
    decreases queue.len() - next,
{
    if 0 <= next < queue.len() && pages_read < 6 {
        if seen.contains(queue[next]) {
            next_page_is_new_and_bounded(queue, seen, next + 1, pages_read);
        } else {
            assert(queue.contains(queue[next]));
        }
    }
}

/// Links stop being queued at twelve: after a page's links, read and queued
/// pages together are no more than twelve, or than before when they had
/// already reached it; no queued address is dropped.
pub proof fn enqueue_links_is_bounded(queue: Seq<Seq<char>>, pages_read: nat, links: Seq<Seq<char>>)
    ensures
        pages_read + enqueue_links(queue, pages_read, links).len() <= (if pages_read + queue.len() >= 12 {
            pages_read + queue.len()
        } else {
            12
        }),
        queue.len() <= enqueue_links(queue, pages_read, links).len(),
        enqueue_links(queue, pages_read, links).take(queue.len() as int) == queue,
    decreases links.len(),
{
    if links.len() == 0 || pages_read + queue.len() >= 12 {
        assert(queue.take(queue.len() as int) =~= queue);
    } else {
        let q2 = if queue.contains(links[0]) { queue } else { queue.push(links[0]) };
        enqueue_links_is_bounded(q2, pages_read, links.drop_first());
        let r = enqueue_links(q2, pages_read, links.drop_first());
        assert(r.take(queue.len() as int) =~= r.take(q2.len() as int).take(queue.len() as int));
        assert(q2.take(queue.len() as int) =~= queue);
    }
}

/// The links worth following from a page: its `href` links that stay on
/// the site, ranked (see `candidate_links`).
pub fn extract_candidate_links(html: &str, base: &str) -> (r: Vec<String>)
    ensures
        views(r@) == page_links_spec(html@, base@),
{
    let base_host = match parse_url_parts(base) {
        Some((_, Some(h), _)) => h,
        _ => return Vec::new(),
    };
    let caps = match crate::patterns::captures_all(HREF_PATTERN, html) {
        Some(c) => c,
        None => return Vec::new(),
    };
    let ghost cv = caps@.map_values(|g: Vec<Option<String>>| crate::patterns::groups_view(g));
    let mut resolved: Vec<String> = Vec::new();
    let mut i: usize = 0;
    while i < caps.len()
        invariant
            i <= caps@.len(),
            cv == caps@.map_values(|g: Vec<Option<String>>| crate::patterns::groups_view(g)),
            views(resolved@) == resolved_links(base@, base_host@, cv.take(i as int)),
        decreases caps@.len() - i,
    {
        let c = &caps[i];
        proof {
            assert(cv.take(i as int + 1).drop_last() =~= cv.take(i as int));
            assert(cv.take(i as int + 1).last() == crate::patterns::groups_view(*c));
        }
        let raw = if c.len() > 1 {
            match &c[1] {
                Some(t) => Some(trim(t.as_str())),
                None => None,
            }
        } else {
            None
        };
        let ghost before = views(resolved@);
        match raw {
            Some(raw) => {
                if is_followable_link(raw.as_str()) {
                    match join_link(base, raw.as_str()) {
                        Some((u, Some(h), p)) => {
                            if same_site_page(base_host.as_str(), h.as_str(), p.as_str()) {
                                resolved.push(u);
                                assert(views(resolved@) =~= before.push(u@));
                            }
                        },
                        _ => {},
                    }
                }
            },
            None => {},
        }
        i = i + 1;
    }
    assert(cv.take(cv.len() as int) =~= cv);
    candidate_links(&resolved)
}

} // verus!
