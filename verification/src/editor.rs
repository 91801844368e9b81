//! The boundary to the external HTML machinery: parsing markup into a node
//! tree, trimming incidental whitespace, and serializing a tree back to
//! markup. Each outcome is a function of the input text or tree alone, so
//! the contracts name the results rather than restate the algorithms.

use vstd::prelude::*;

use crate::dom::HtmlElement;
use crate::dom::HtmlNode;
use crate::dom::NodeView;
use crate::dom::view_nodes;

verus! {

#[verifier::external_type_specification]
#[verifier::external_body]
pub struct ExNode(html_editor::Node);

/// The tree (or parse-error message) that the external parser derives from
/// a piece of markup.
pub uninterp spec fn parse_of(s: Seq<char>) -> Result<Seq<NodeView>, Seq<char>>;

/// The tree left after the external trim pass over a tree.
pub uninterp spec fn trim_of(s: Seq<NodeView>) -> Seq<NodeView>;

/// The markup the external serializer writes for a tree.
pub uninterp spec fn html_of(s: Seq<NodeView>) -> Seq<char>;

/// Relies on html_editor::Node: moves each of its variants, one for one,
/// into the library's own tree type.
#[verifier::external_body]
fn node_from_ext(n: html_editor::Node) -> HtmlNode {
    match n {
        html_editor::Node::Element(e) => HtmlNode::Element(
            HtmlElement {
                name: e.name,
                attrs: e.attrs,
                children: e.children.into_iter().map(node_from_ext).collect(),
            },
        ),
        html_editor::Node::Text(t) => HtmlNode::Text(t),
        html_editor::Node::Comment(c) => HtmlNode::Comment(c),
        html_editor::Node::Doctype(html_editor::Doctype::Html) => HtmlNode::DoctypeHtml,
        html_editor::Node::Doctype(html_editor::Doctype::Xml { version, encoding }) =>
            HtmlNode::DoctypeXml(version, encoding),
    }
}

/// Relies on html_editor::Node: moves each variant of the library's tree
/// type, one for one, back into the editor's.
#[verifier::external_body]
fn node_to_ext(n: HtmlNode) -> html_editor::Node {
    match n {
        HtmlNode::Element(e) => html_editor::Node::Element(
            html_editor::Element {
                name: e.name,
                attrs: e.attrs,
                children: e.children.into_iter().map(node_to_ext).collect(),
            },
        ),
        HtmlNode::Text(t) => html_editor::Node::Text(t),
        HtmlNode::Comment(c) => html_editor::Node::Comment(c),
        HtmlNode::DoctypeHtml => html_editor::Node::Doctype(html_editor::Doctype::Html),
        HtmlNode::DoctypeXml(version, encoding) => html_editor::Node::Doctype(
            html_editor::Doctype::Xml { version, encoding },
        ),
    }
}

/// Relies on html_editor::parse: turns markup into a node tree, or reports a
/// parse-error message; which of the two, and the value, depend on the input
/// text alone. The parser is not total — on some malformed inputs it aborts
/// instead of returning — so a normal return is only claimed for inputs the
/// admission scan (`spec_parser_input_ok`) has cleared of every such shape.
#[verifier::external_body]
pub(crate) fn parse_dom(html: &str) -> (r: Result<Vec<HtmlNode>, String>)
    requires
        crate::guard::spec_parser_input_ok(html@),
    ensures
        match r {
            Ok(nodes) => parse_of(html@) == Ok::<Seq<NodeView>, Seq<char>>(view_nodes(nodes@)),
            Err(e) => parse_of(html@) == Err::<Seq<NodeView>, Seq<char>>(e@),
        },
{
    match html_editor::parse(html) {
        Ok(tree) => Ok(tree.into_iter().map(node_from_ext).collect()),
        Err(e) => Err(e),
    }
}

/// Relies on html_editor's `Editable::trim` for `Vec<Node>`: removes
/// comments and whitespace-only text nodes, recursively; deterministic in
/// its input tree.
#[verifier::external_body]
pub(crate) fn trim_dom(nodes: Vec<HtmlNode>) -> (r: Vec<HtmlNode>)
    ensures
        view_nodes(r@) == trim_of(view_nodes(nodes@)),
{
    let mut t: Vec<html_editor::Node> = nodes.into_iter().map(node_to_ext).collect();
    html_editor::operation::Editable::trim(&mut t);
    t.into_iter().map(node_from_ext).collect()
}

/// Relies on html_editor's `Htmlifiable::html` for `Vec<Node>`: serializes a
/// node tree back to markup; deterministic in its input tree.
#[verifier::external_body]
pub(crate) fn render_dom(nodes: Vec<HtmlNode>) -> (r: String)
    ensures
        r@ == html_of(view_nodes(nodes@)),
{
    let t: Vec<html_editor::Node> = nodes.into_iter().map(node_to_ext).collect();
    html_editor::operation::Htmlifiable::html(&t)
}

} // verus!
