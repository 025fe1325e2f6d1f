//! Links the desktop shell hands to the system browser.
use vstd::prelude::*;
use crate::text::{owned, starts_with, starts_with_spec, trim, trim_spec};

verus! {

/// Only web links are opened: the trimmed link must start with `https://`
/// or `http://`.
pub open spec fn opens_link(url: Seq<char>) -> bool {
    starts_with_spec(trim_spec(url), "https://"@) || starts_with_spec(trim_spec(url), "http://"@)
}

/// Checks a link before it is opened: the trimmed link, or the refusal.
pub fn checked_external_url(url: &str) -> (r: Result<String, String>)
    ensures
        opens_link(url@) <==> r is Ok,
        r matches Ok(u) ==> u@ == trim_spec(url@),
        r matches Err(e) ==> e@ == "只能打开 http 或 https 链接"@,
{
    let u = trim(url);
    if starts_with(u.as_str(), "https://") || starts_with(u.as_str(), "http://") {
        Ok(u)
    } else {
        Err(owned("只能打开 http 或 https 链接"))
    }
}

} // verus!
