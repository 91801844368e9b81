use openxiino::capability::DeviceInfo;
use openxiino::capability::ScreenType;
use openxiino::dom::HtmlElement;
use openxiino::dom::HtmlNode;
use openxiino::escape::escape_error_data;
use openxiino::filter::filter_nodes;
use openxiino::guard::parser_input_ok;
use openxiino::pages::device_info_page;
use openxiino::pages::is_device_info_host;
use openxiino::pages::parse_html;
use openxiino::pages::proxy_error_page;
use openxiino::pages::proxy_response;
use openxiino::pages::strange_request_page;
use openxiino::tags::tag_allowed;
use openxiino::text::parse_u32;
use openxiino::text::u32_dec;

#[test]
fn invalid_html() {
    let invalid_html = r#"
        <!DOCTYPE html>
        <html lang="en">
        <head>
        <meta charset="UTF-8" />
        <title>Invalid HTML Example</title>
        </head>
        <body>
        <h1>Invalid HTML Example</h1>
        <p>On this page, we will do some things wrong, so we can see the validator catch them.</p>

        <p>On the web, we can create links to pages like, the <a href="http://www.w3.org/"><abbr title="World Wide Web Consortium">W3C</a>, the group that defines web technologies like HTML.</p>

        <p>An <a href="http://validator.w3.org/>HTML Validator</a> is a tool that helps us find errors. Oops, that was another mistake.</p>


        </body>
        </html>
        "#;
    let result = parse_html(invalid_html);
    println!("{}", &result);
    assert!(result.contains("HTML Parse Error"));
}

#[test]
fn recursive_tag_stripper_testpilot() {
    let html = r#"
            <!DOCTYPE HTML>
            <html>
                <head>
                    <title>Example</title>
                </head>
                <body>
                    <p>This tag should be kept.</p>
                    <foobar>This tag should not be kept.</foobar>
                </body>
            </html>
        "#;
    println!("{}", parse_html(html));
}

#[test]
fn colour_depth_fallback() {
    let info = DeviceInfo::new("cX".to_string(), "w320".to_string(), "eUTF-8".to_string());
    assert_eq!(info.screen_mode, ScreenType::Colour);
    assert_eq!(info.screen_depth, 16);
}

#[test]
fn grayscale_depth_fallback() {
    let info = DeviceInfo::new("gX".to_string(), "w320".to_string(), "eUTF-8".to_string());
    assert_eq!(info.screen_mode, ScreenType::Grayscale);
    assert_eq!(info.screen_depth, 4);
}

#[test]
fn unknown_mode_falls_back_to_grayscale() {
    let info = DeviceInfo::new("zX".to_string(), "w320".to_string(), "eUTF-8".to_string());
    assert_eq!(info.screen_mode, ScreenType::Grayscale);
    assert_eq!(info.screen_depth, 4);
}

#[test]
fn parsable_depth_is_taken_verbatim() {
    let info = DeviceInfo::new("c8".to_string(), "w160".to_string(), "eUTF-8".to_string());
    assert_eq!(info.screen_mode, ScreenType::Colour);
    assert_eq!(info.screen_depth, 8);
    assert_eq!(info.screen_width, 160);
}

#[test]
fn width_fallback() {
    let info = DeviceInfo::new("c16".to_string(), "wabc".to_string(), "eUTF-8".to_string());
    assert_eq!(info.screen_width, 153);
}

#[test]
fn empty_tokens_degrade_to_fallbacks() {
    let info = DeviceInfo::new(String::new(), String::new(), String::new());
    assert_eq!(info.screen_mode, ScreenType::Grayscale);
    assert_eq!(info.screen_depth, 4);
    assert_eq!(info.screen_width, 153);
    assert_eq!(info.text_encoding, "");
}

#[test]
fn single_character_tokens_degrade_to_fallbacks() {
    let info = DeviceInfo::new("c".to_string(), "w".to_string(), "e".to_string());
    assert_eq!(info.screen_mode, ScreenType::Colour);
    assert_eq!(info.screen_depth, 16);
    assert_eq!(info.screen_width, 153);
    assert_eq!(info.text_encoding, "");
}

#[test]
fn escape_example() {
    assert_eq!(escape_error_data("<a & b>".to_string()), "&lt;a &amp; b&gt;");
}

#[test]
fn escape_empty_message() {
    assert_eq!(escape_error_data(String::new()), "");
}

#[test]
fn error_page_always_renders() {
    let page = proxy_error_page("boom & bust".to_string());
    assert!(page.contains("Proxy failure!"));
    assert!(page.contains("boom &amp; bust"));
}

#[test]
fn device_info_scenario() {
    let info = DeviceInfo::new("c16".to_string(), "w320".to_string(), "eUTF-8".to_string());
    assert_eq!(info.screen_width, 320);
    assert_eq!(info.screen_mode, ScreenType::Colour);
    assert_eq!(info.screen_depth, 16);
    assert_eq!(info.text_encoding, "UTF-8");
    assert!(is_device_info_host("deviceinfo"));
    assert!(!is_device_info_host("example.com"));
    let page = device_info_page(&info, "http://deviceinfo/");
    assert!(page.contains("Device width: 320px"));
    assert!(page.contains("Colour mode: Colour"));
    assert!(page.contains("Colour depth: 16"));
    assert!(page.contains("Text encoding: UTF-8"));
    assert!(page.contains("Requested URL: http://deviceinfo/"));
}

#[test]
fn proxy_scenario_strips_script() {
    let fetched = "<html><body><p>ok</p><script>evil()</script></body></html>";
    let body = proxy_response(Ok(fetched.to_string()));
    assert_eq!(body, "            <html><body><p>ok</p></body></html>");
    assert!(!body.contains("script"));
    assert!(!body.contains("evil()"));
}

#[test]
fn proxy_scenario_fetch_failure() {
    let body = proxy_response(Err("connection reset by peer".to_string()));
    assert!(body.contains("Proxy failure!"));
    assert!(body.contains("connection reset by peer"));
    assert!(!body.contains("<p>ok</p>"));
}

#[test]
fn strange_request_page_is_fixed() {
    let page = strange_request_page();
    assert!(page.contains("Strange request!"));
    assert!(page.contains("Xiino"));
}

#[test]
fn tag_lookup_is_case_insensitive() {
    assert!(tag_allowed("p"));
    assert!(tag_allowed("P"));
    assert!(tag_allowed("Body"));
    assert!(tag_allowed("HTML"));
    assert!(!tag_allowed("script"));
    assert!(!tag_allowed("SCRIPT"));
    assert!(!tag_allowed("marquee"));
}

fn element(name: &str, children: Vec<HtmlNode>) -> HtmlNode {
    HtmlNode::Element(HtmlElement {
        name: name.to_string(),
        attrs: Vec::new(),
        children,
    })
}

#[test]
fn filter_drops_whole_subtree() {
    // A whitelisted <p> inside a dropped <script> is not rescued.
    let tree = vec![element(
        "body",
        vec![element(
            "script",
            vec![element("p", vec![HtmlNode::Text("inner".to_string())])],
        )],
    )];
    let filtered = filter_nodes(tree);
    assert_eq!(
        filtered,
        vec![element("body", Vec::new())]
    );
}

#[test]
fn filter_keeps_order_and_text() {
    let tree = vec![element(
        "body",
        vec![
            HtmlNode::Text("one".to_string()),
            element("script", vec![]),
            element("p", vec![HtmlNode::Text("two".to_string())]),
            HtmlNode::Comment("note".to_string()),
            element("blink", vec![]),
            element("b", vec![]),
        ],
    )];
    let filtered = filter_nodes(tree);
    assert_eq!(
        filtered,
        vec![element(
            "body",
            vec![
                HtmlNode::Text("one".to_string()),
                element("p", vec![HtmlNode::Text("two".to_string())]),
                HtmlNode::Comment("note".to_string()),
                element("b", vec![]),
            ],
        )]
    );
}

#[test]
fn filter_is_idempotent_on_a_sample() {
    let tree = vec![element(
        "html",
        vec![element(
            "body",
            vec![
                element("script", vec![HtmlNode::Text("evil()".to_string())]),
                element("p", vec![HtmlNode::Text("ok".to_string())]),
            ],
        )],
    )];
    let same_tree = vec![element(
        "html",
        vec![element(
            "body",
            vec![
                element("script", vec![HtmlNode::Text("evil()".to_string())]),
                element("p", vec![HtmlNode::Text("ok".to_string())]),
            ],
        )],
    )];
    let once = filter_nodes(tree);
    let twice = filter_nodes(filter_nodes(same_tree));
    assert_eq!(once, twice);
}

#[test]
fn decimal_reading_and_writing() {
    assert_eq!(parse_u32("0"), Some(0));
    assert_eq!(parse_u32("320"), Some(320));
    assert_eq!(parse_u32("4294967295"), Some(u32::MAX));
    assert_eq!(parse_u32("4294967296"), None);
    assert_eq!(parse_u32("99999999999999999999"), None);
    assert_eq!(parse_u32(""), None);
    assert_eq!(parse_u32("12a"), None);
    assert_eq!(parse_u32("-5"), None);
    assert_eq!(u32_dec(0), "0");
    assert_eq!(u32_dec(153), "153");
    assert_eq!(u32_dec(u32::MAX), "4294967295");
}

#[test]
fn admission_scan_examples() {
    assert!(parser_input_ok("<html><p>ok</p></html>"));
    assert!(parser_input_ok("<!-- a comment --><p>x</p>"));
    assert!(parser_input_ok("caf\u{e9} outside tags <p>ok</p>"));
    assert!(parser_input_ok("<img src=\"a.png\" alt=pic disabled />"));
    assert!(!parser_input_ok("<!-->"));
    assert!(!parser_input_ok("<!--->"));
    assert!(!parser_input_ok("<a b=>"));
    assert!(!parser_input_ok("<?xml version=\"1.0\"?>"));
    assert!(!parser_input_ok("<?php echo 1 ?>"));
    assert!(!parser_input_ok("<script>></script>"));
    assert!(!parser_input_ok("<a \u{e9}=\"1\">"));
}

#[test]
fn guard_refuses_short_comment() {
    let body = parse_html("<!-->");
    assert!(body.contains("HTML Parse Error"));
    assert!(body.contains("unsupported markup in fetched page"));
}

#[test]
fn guard_refuses_dangling_attribute_equals() {
    let body = parse_html("<html><a b=>x</a></html>");
    assert!(body.contains("HTML Parse Error"));
    assert!(body.contains("unsupported markup in fetched page"));
}

#[test]
fn guard_refuses_gt_at_script_start() {
    let body = parse_html("<html><script>></script></html>");
    assert!(body.contains("unsupported markup in fetched page"));
}

#[test]
fn stray_gt_still_reaches_the_parser() {
    let body = parse_html("a > b");
    assert!(body.contains("HTML Parse Error"));
    assert!(!body.contains("unsupported markup"));
}

#[test]
fn quoted_attributes_are_admitted() {
    let body = parse_html("<html><body><a href=\"x\">t</a></body></html>");
    assert_eq!(body, "            <html><body><a href=\"x\">t</a></body></html>");
}

#[test]
fn parse_html_pads_and_filters() {
    let body = parse_html("<html><body><p>ok</p><blink>no</blink></body></html>");
    assert_eq!(body, "            <html><body><p>ok</p></body></html>");
}

#[test]
fn parse_html_of_empty_input_is_just_the_padding() {
    assert_eq!(parse_html(""), "            ");
}

#[test]
fn parse_html_trims_whitespace_and_comments() {
    let body = parse_html("<html> <!--note--> <p>ok</p> </html>");
    assert_eq!(body, "            <html><p>ok</p></html>");
}
