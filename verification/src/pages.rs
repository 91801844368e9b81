//! The response bodies the proxy can serve: the transcoded page, the two
//! error pages, the device diagnostic page, and the fixed page for requests
//! whose path has the wrong shape. Every failure ends in a well-formed HTML
//! page: the legacy browser is never shown a raw protocol error.

use vstd::prelude::*;
use vstd::string::StringExecFns;

use crate::capability::DeviceInfo;
use crate::capability::spec_mode_label;
use crate::editor::parse_of;
use crate::editor::trim_of;
use crate::editor::html_of;
use crate::editor::parse_dom;
use crate::editor::trim_dom;
use crate::editor::render_dom;
use crate::escape::spec_escape;
use crate::escape::escape_error_data;
use crate::filter::filter_seq;
use crate::filter::filter_nodes;
use crate::guard::spec_parser_input_ok;
use crate::guard::parser_input_ok;
use crate::text::spec_u32_dec;
use crate::text::u32_dec;
use crate::text::str_eq;

verus! {

/// The whitespace padding the target browser's content parser insists on
/// seeing in front of every proxied body.
pub open spec fn spec_padding() -> Seq<char> {
    "            "@
}

/// The page served when the fetched markup cannot be parsed.
pub open spec fn spec_parse_error_page(err: Seq<char>) -> Seq<char> {
    "            <!DOCTYPE HTML><html><head><title>HTML Parse Error</title></head><body><h1>The following error was encountered while parsing HTML:</h1><code>"@
        + spec_escape(err) + "</code></body></html>"@
}

/// The page served when the outbound fetch itself fails.
pub open spec fn spec_proxy_error_page(err: Seq<char>) -> Seq<char> {
    "<!DOCTYPE HTML><html><body><h1>Proxy failure!</h1><p>Something went wrong while making a proxy request.</p><code>"@
        + spec_escape(err) + "</code></body></html>"@
}

/// What serving a fetched document yields: markup the admission scan
/// refuses (shapes on which the parser could abort, see `guard`) is served
/// as a parse failure with a fixed message; on parse success, the filtered
/// and trimmed tree is serialized behind the fixed padding; on parse
/// failure, the parse-error page carries the parser's message.
pub open spec fn spec_parse_html(s: Seq<char>) -> Seq<char> {
    if !spec_parser_input_ok(s) {
        spec_parse_error_page("unsupported markup in fetched page"@)
    } else {
        match parse_of(s) {
            Ok(nodes) => spec_padding() + html_of(trim_of(filter_seq(nodes))),
            Err(e) => spec_parse_error_page(e),
        }
    }
}

/// Renders the page for a fetched document: parse, prune to the whitelist,
/// trim, serialize, pad — or the parse-error page when parsing fails.
pub fn parse_html(html: &str) -> (r: String)
    ensures
        r@ == spec_parse_html(html@),
{
    if !parser_input_ok(html) {
        return parse_error_page(String::from_str("unsupported markup in fetched page"));
    }
    match parse_dom(html) {
        Ok(nodes) => {
            let filtered = filter_nodes(nodes);
            let trimmed = trim_dom(filtered);
            let body = render_dom(trimmed);
            let mut out = String::from_str("            ");
            out.append(body.as_str());
            out
        },
        Err(e) => parse_error_page(e),
    }
}

/// Renders the parse-failure page around an escaped diagnostic message.
pub fn parse_error_page(error: String) -> (r: String)
    ensures
        r@ == spec_parse_error_page(error@),
{
    let mut out = String::from_str(
        "            <!DOCTYPE HTML><html><head><title>HTML Parse Error</title></head><body><h1>The following error was encountered while parsing HTML:</h1><code>",
    );
    let esc = escape_error_data(error);
    out.append(esc.as_str());
    out.append("</code></body></html>");
    out
}

/// Renders the fetch-failure page around an escaped diagnostic message.
pub fn proxy_error_page(error: String) -> (r: String)
    ensures
        r@ == spec_proxy_error_page(error@),
{
    let mut out = String::from_str(
        "<!DOCTYPE HTML><html><body><h1>Proxy failure!</h1><p>Something went wrong while making a proxy request.</p><code>",
    );
    let esc = escape_error_data(error);
    out.append(esc.as_str());
    out.append("</code></body></html>");
    out
}

/// The proxy path once the fetch outcome is known: the transcoded page on
/// success, the proxy-failure page on failure. The raw fetched content is
/// never served as-is.
pub fn proxy_response(fetch: Result<String, String>) -> (r: String)
    ensures
        match fetch {
            Ok(body) => r@ == spec_parse_html(body@),
            Err(e) => r@ == spec_proxy_error_page(e@),
        },
{
    match fetch {
        Ok(body) => parse_html(body.as_str()),
        Err(e) => proxy_error_page(e),
    }
}

/// True exactly for the diagnostic pseudo-host, which is answered locally
/// instead of being fetched.
pub fn is_device_info_host(host: &str) -> (r: bool)
    ensures
        r == (host@ == "deviceinfo"@),
{
    str_eq(host, "deviceinfo")
}

/// The diagnostic page listing the decoded capabilities and the requested
/// URL.
pub open spec fn spec_device_info_page(info: DeviceInfo, url: Seq<char>) -> Seq<char> {
    "<html><body><ul><li>Device width: "@ + spec_u32_dec(info.screen_width as int) + "px</li><li>Colour mode: "@
        + spec_mode_label(info.screen_mode) + "</li><li>Colour depth: "@ + spec_u32_dec(
        info.screen_depth as int,
    ) + "</li><li>Text encoding: "@ + info.text_encoding@ + "</li><li>Requested URL: "@ + url
        + "</li></ul></body></html>"@
}

pub fn device_info_page(info: &DeviceInfo, url: &str) -> (r: String)
    ensures
        r@ == spec_device_info_page(*info, url@),
{
    let mut out = String::from_str("<html><body><ul><li>Device width: ");
    let width = u32_dec(info.screen_width);
    out.append(width.as_str());
    out.append("px</li><li>Colour mode: ");
    out.append(info.mode_label());
    out.append("</li><li>Colour depth: ");
    let depth = u32_dec(info.screen_depth);
    out.append(depth.as_str());
    out.append("</li><li>Text encoding: ");
    out.append(info.text_encoding.as_str());
    out.append("</li><li>Requested URL: ");
    out.append(url);
    out.append("</li></ul></body></html>");
    proof {
        assert(out@ =~= spec_device_info_page(*info, url@));
    }
    out
}

/// The fixed page for a request whose path does not have the expected
/// four-segment shape. It signals a client mismatch, not a proxy failure,
/// and is always served as a success.
pub fn strange_request_page() -> (r: String)
    ensures
        r@ == "<html><h1>Strange request!</h1><p>Your version of Xiino is making requests in a way OpenXiino can't handle.</p><p>Make sure you're using the latest version of Xiino, then try again.</p></html>"@,
{
    String::from_str(
        "<html><h1>Strange request!</h1><p>Your version of Xiino is making requests in a way OpenXiino can't handle.</p><p>Make sure you're using the latest version of Xiino, then try again.</p></html>",
    )
}

/// One sequence standing somewhere inside another.
pub open spec fn seq_contains(hay: Seq<char>, needle: Seq<char>) -> bool {
    exists|i: int|
        0 <= i && i + needle.len() <= hay.len() && #[trigger] hay.subrange(i, i + needle.len())
            == needle
}

/// The error page always renders: for every message, the fetch-failure page
/// embeds the escaped message and carries the fixed failure heading.
pub proof fn lemma_proxy_error_page_renders(err: Seq<char>)
    ensures
        seq_contains(spec_proxy_error_page(err), spec_escape(err)),
        seq_contains(spec_proxy_error_page(err), "Proxy failure!"@),
{
    let pre =
        "<!DOCTYPE HTML><html><body><h1>Proxy failure!</h1><p>Something went wrong while making a proxy request.</p><code>"@;
    let page = spec_proxy_error_page(err);
    let esc = spec_escape(err);
    assert(page.subrange(pre.len() as int, pre.len() as int + esc.len() as int) =~= esc);
    reveal_strlit("<!DOCTYPE HTML><html><body><h1>Proxy failure!</h1><p>Something went wrong while making a proxy request.</p><code>");
    reveal_strlit("Proxy failure!");
    let heading = "Proxy failure!"@;
    assert(heading.len() == 14);
    assert(page.subrange(31, 31 + heading.len() as int) =~= heading);
}

/// The parse-error page always renders too: for every message, it embeds
/// the escaped message and carries the fixed title.
pub proof fn lemma_parse_error_page_renders(err: Seq<char>)
    ensures
        seq_contains(spec_parse_error_page(err), spec_escape(err)),
        seq_contains(spec_parse_error_page(err), "HTML Parse Error"@),
{
    let pre =
        "            <!DOCTYPE HTML><html><head><title>HTML Parse Error</title></head><body><h1>The following error was encountered while parsing HTML:</h1><code>"@;
    let page = spec_parse_error_page(err);
    let esc = spec_escape(err);
    assert(page.subrange(pre.len() as int, pre.len() as int + esc.len() as int) =~= esc);
    reveal_strlit("            <!DOCTYPE HTML><html><head><title>HTML Parse Error</title></head><body><h1>The following error was encountered while parsing HTML:</h1><code>");
    reveal_strlit("HTML Parse Error");
    let title = "HTML Parse Error"@;
    assert(title.len() == 16);
    assert(page.subrange(46, 46 + title.len() as int) =~= title);
}

} // verus!
