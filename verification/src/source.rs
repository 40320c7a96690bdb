//! Normalising the source argument of an installation.

use vstd::prelude::*;
use vstd::string::*;
use crate::text::{starts_with, contains_char, joined};

verus! {

/// The source already names a scheme that is fetched as it stands.
pub open spec fn is_web_url(s: Seq<char>) -> bool {
    "http://"@.is_prefix_of(s) || "https://"@.is_prefix_of(s)
}

/// `owner/repo` shorthand: a slash and no colon.
pub open spec fn is_shorthand(s: Seq<char>) -> bool {
    !is_web_url(s) && s.contains('/') && !s.contains(':')
}

/// The address that a source argument stands for.
pub open spec fn normalized_source(s: Seq<char>) -> Seq<char> {
    if is_shorthand(s) {
        "https://github.com/"@ + s
    } else {
        s
    }
}

/// Expands the `owner/repo` shorthand to its address on the code host and
/// leaves every other source as it is.
pub fn normalize_source(source: &str) -> (r: String)
    ensures
        r@ == normalized_source(source@),
{
    if starts_with(source, "http://") || starts_with(source, "https://") {
        String::from_str(source)
    } else if contains_char(source, '/') && !contains_char(source, ':') {
        joined("https://github.com/", source)
    } else {
        String::from_str(source)
    }
}

} // verus!
