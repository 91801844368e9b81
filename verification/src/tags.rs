//! The fixed whitelist of tags the target browser can render. The set is a
//! process-wide constant: it is consulted case-insensitively and never
//! changes while the proxy runs.

use vstd::prelude::*;

use crate::text::spec_lower;
use crate::text::str_eq;
use crate::text::ascii_lower;

verus! {

/// Whether an already-lowercased tag name is on the whitelist.
pub open spec fn spec_lower_tag_allowed(s: Seq<char>) -> bool {
    ||| s == "html"@
    ||| s == "head"@
    ||| s == "title"@
    ||| s == "meta"@
    ||| s == "body"@
    ||| s == "h1"@
    ||| s == "h2"@
    ||| s == "h3"@
    ||| s == "h4"@
    ||| s == "h5"@
    ||| s == "h6"@
    ||| s == "p"@
    ||| s == "br"@
    ||| s == "hr"@
    ||| s == "a"@
    ||| s == "img"@
    ||| s == "ul"@
    ||| s == "ol"@
    ||| s == "li"@
    ||| s == "dl"@
    ||| s == "dt"@
    ||| s == "dd"@
    ||| s == "b"@
    ||| s == "i"@
    ||| s == "u"@
    ||| s == "em"@
    ||| s == "strong"@
    ||| s == "tt"@
    ||| s == "big"@
    ||| s == "small"@
    ||| s == "sub"@
    ||| s == "sup"@
    ||| s == "strike"@
    ||| s == "center"@
    ||| s == "font"@
    ||| s == "blockquote"@
    ||| s == "pre"@
    ||| s == "code"@
    ||| s == "table"@
    ||| s == "tr"@
    ||| s == "td"@
    ||| s == "th"@
    ||| s == "form"@
    ||| s == "input"@
    ||| s == "select"@
    ||| s == "option"@
    ||| s == "textarea"@
    ||| s == "div"@
    ||| s == "span"@
}

/// Whether a tag name, compared case-insensitively, is on the whitelist.
pub open spec fn spec_tag_allowed(s: Seq<char>) -> bool {
    spec_lower_tag_allowed(spec_lower(s))
}

fn lower_tag_allowed(name: &str) -> (r: bool)
    ensures
        r == spec_lower_tag_allowed(name@),
{
    str_eq(name, "html") || str_eq(name, "head") || str_eq(name, "title") || str_eq(name, "meta")
        || str_eq(name, "body") || str_eq(name, "h1") || str_eq(name, "h2") || str_eq(name, "h3")
        || str_eq(name, "h4") || str_eq(name, "h5") || str_eq(name, "h6") || str_eq(name, "p")
        || str_eq(name, "br") || str_eq(name, "hr") || str_eq(name, "a") || str_eq(name, "img")
        || str_eq(name, "ul") || str_eq(name, "ol") || str_eq(name, "li") || str_eq(name, "dl")
        || str_eq(name, "dt") || str_eq(name, "dd") || str_eq(name, "b") || str_eq(name, "i")
        || str_eq(name, "u") || str_eq(name, "em") || str_eq(name, "strong") || str_eq(name, "tt")
        || str_eq(name, "big") || str_eq(name, "small") || str_eq(name, "sub") || str_eq(
        name,
        "sup",
    ) || str_eq(name, "strike") || str_eq(name, "center") || str_eq(name, "font") || str_eq(
        name,
        "blockquote",
    ) || str_eq(name, "pre") || str_eq(name, "code") || str_eq(name, "table") || str_eq(name, "tr")
        || str_eq(name, "td") || str_eq(name, "th") || str_eq(name, "form") || str_eq(
        name,
        "input",
    ) || str_eq(name, "select") || str_eq(name, "option") || str_eq(name, "textarea") || str_eq(
        name,
        "div",
    ) || str_eq(name, "span")
}

/// Whitelist lookup: lowercases the tag name, then tests membership.
pub fn tag_allowed(name: &str) -> (r: bool)
    ensures
        r == spec_tag_allowed(name@),
{
    let lower = ascii_lower(name);
    lower_tag_allowed(lower.as_str())
}

} // verus!
