//! Whitelist filtering of a document tree: depth-first, pre-order, in
//! sibling order. A non-element node always survives; an element survives
//! exactly when its tag is whitelisted, and then its children are filtered
//! in place. A dropped element takes its whole subtree with it.

use vstd::prelude::*;

use crate::dom::HtmlElement;
use crate::dom::HtmlNode;
use crate::dom::NodeView;
use crate::dom::view_nodes;
use crate::dom::view_attrs;
use crate::tags::spec_tag_allowed;
use crate::tags::tag_allowed;

verus! {

/// What the filter leaves of one node: nothing for a non-whitelisted
/// element, the node itself (children filtered) otherwise.
pub open spec fn filter_one(n: NodeView) -> Seq<NodeView>
    decreases n,
{
    match n {
        NodeView::Element { name, attrs, children } => if spec_tag_allowed(name) {
            seq![NodeView::Element { name, attrs, children: filter_seq(children) }]
        } else {
            Seq::empty()
        },
        _ => seq![n],
    }
}

/// What the filter leaves of a sibling sequence, in the original order.
pub open spec fn filter_seq(s: Seq<NodeView>) -> Seq<NodeView>
    decreases s,
{
    if s.len() == 0 {
        Seq::empty()
    } else {
        filter_seq(s.drop_last()) + filter_one(s.last())
    }
}

/// A node an element filter may drop: an element whose tag is not on the
/// whitelist.
pub open spec fn is_dropped_element(n: NodeView) -> bool {
    match n {
        NodeView::Element { name, .. } => !spec_tag_allowed(name),
        _ => false,
    }
}

/// A tree in which every element, at every depth, carries a whitelisted tag.
pub open spec fn node_ok(n: NodeView) -> bool
    decreases n,
{
    match n {
        NodeView::Element { name, children, .. } => spec_tag_allowed(name) && nodes_ok(children),
        _ => true,
    }
}

pub open spec fn nodes_ok(s: Seq<NodeView>) -> bool
    decreases s,
{
    forall|i: int| 0 <= i < s.len() ==> node_ok(#[trigger] s[i])
}

proof fn lemma_nodes_ok_concat(a: Seq<NodeView>, b: Seq<NodeView>)
    requires
        nodes_ok(a),
        nodes_ok(b),
    ensures
        nodes_ok(a + b),
{
    assert forall|i: int| 0 <= i < (a + b).len() implies node_ok(#[trigger] (a + b)[i]) by {
        if i < a.len() {
            assert((a + b)[i] == a[i]);
        } else {
            assert((a + b)[i] == b[i - a.len()]);
        }
    }
}

/// Whitelist closure: every element remaining after the filter, at any
/// depth, carries a whitelisted tag.
pub proof fn lemma_filter_whitelisted(s: Seq<NodeView>)
    ensures
        nodes_ok(filter_seq(s)),
    decreases s,
{
    if s.len() > 0 {
        lemma_filter_whitelisted(s.drop_last());
        lemma_filter_one_whitelisted(s.last());
        lemma_nodes_ok_concat(filter_seq(s.drop_last()), filter_one(s.last()));
    }
}

proof fn lemma_filter_one_whitelisted(n: NodeView)
    ensures
        nodes_ok(filter_one(n)),
    decreases n,
{
    match n {
        NodeView::Element { name, attrs, children } => {
            if spec_tag_allowed(name) {
                lemma_filter_whitelisted(children);
            }
        },
        _ => {},
    }
}

/// Order preservation: filtering a sibling sequence works piecewise, so the
/// survivors of the left part stand, in their original order, before the
/// survivors of the right part.
pub proof fn lemma_filter_concat(a: Seq<NodeView>, b: Seq<NodeView>)
    ensures
        filter_seq(a + b) == filter_seq(a) + filter_seq(b),
    decreases b,
{
    if b.len() == 0 {
        assert(a + b =~= a);
        assert(filter_seq(a) + filter_seq(b) =~= filter_seq(a));
    } else {
        lemma_filter_concat(a, b.drop_last());
        assert((a + b).drop_last() =~= a + b.drop_last());
        assert((a + b).last() == b.last());
        assert(filter_seq(a) + filter_seq(b) =~= (filter_seq(a) + filter_seq(b.drop_last()))
            + filter_one(b.last()));
    }
}

/// Subtree removal: a non-whitelisted element disappears with its entire
/// subtree — whitelisted nodes inside it are not rescued — and the nodes
/// around it are filtered as if it had not been there.
pub proof fn lemma_filter_drops_subtree(a: Seq<NodeView>, n: NodeView, b: Seq<NodeView>)
    requires
        is_dropped_element(n),
    ensures
        filter_seq(a + seq![n] + b) == filter_seq(a) + filter_seq(b),
{
    lemma_filter_concat(a + seq![n], b);
    lemma_filter_concat(a, seq![n]);
    assert(filter_seq(seq![n]) =~= filter_one(n)) by {
        assert(seq![n].drop_last() =~= Seq::<NodeView>::empty());
        assert(filter_seq(seq![n].drop_last()) + filter_one(n) =~= filter_one(n));
    }
    assert(filter_one(n) =~= Seq::<NodeView>::empty());
    assert(filter_seq(a) + filter_seq(seq![n]) =~= filter_seq(a));
}

/// A tree that is already clean is left exactly as it is.
pub proof fn lemma_filter_ok_identity(s: Seq<NodeView>)
    requires
        nodes_ok(s),
    ensures
        filter_seq(s) == s,
    decreases s,
{
    if s.len() > 0 {
        assert(nodes_ok(s.drop_last()));
        lemma_filter_ok_identity(s.drop_last());
        assert(node_ok(s.last()));
        lemma_filter_one_ok_identity(s.last());
        assert(s.drop_last() + seq![s.last()] =~= s);
    }
}

proof fn lemma_filter_one_ok_identity(n: NodeView)
    requires
        node_ok(n),
    ensures
        filter_one(n) == seq![n],
    decreases n,
{
    match n {
        NodeView::Element { name, attrs, children } => {
            lemma_filter_ok_identity(children);
            assert(filter_one(n) =~~= seq![n]);
        },
        _ => {},
    }
}

/// Idempotence: filtering an already-filtered tree changes nothing.
pub proof fn lemma_filter_idempotent(s: Seq<NodeView>)
    ensures
        filter_seq(filter_seq(s)) == filter_seq(s),
{
    lemma_filter_whitelisted(s);
    lemma_filter_ok_identity(filter_seq(s));
}

/// Prunes a sibling sequence to the whitelist, recursively.
pub fn filter_nodes(nodes: Vec<HtmlNode>) -> (r: Vec<HtmlNode>)
    ensures
        view_nodes(r@) == filter_seq(view_nodes(nodes@)),
    decreases nodes@,
{
    let ghost origv = nodes@;
    let mut rest = nodes;
    match rest.pop() {
        None => {
            let r = Vec::new();
            proof {
                assert(view_nodes(r@) =~= filter_seq(view_nodes(origv)));
            }
            r
        },
        Some(last) => {
            let ghost lastg = last;
            proof {
                assert(origv[origv.len() - 1] == lastg);
                assert(decreases_to!(origv => origv[origv.len() - 1]));
                assert(rest@ =~= origv.drop_last());
            }
            let mut r = filter_nodes(rest);
            proof {
                assert(view_nodes(origv).drop_last() =~= view_nodes(origv.drop_last()));
                assert(filter_seq(view_nodes(origv)) == filter_seq(view_nodes(origv.drop_last()))
                    + filter_one(lastg.view()));
            }
            match last {
                HtmlNode::Element(e) => {
                    let ghost eg = e;
                    proof {
                        assert(decreases_to!(lastg => eg));
                        assert(decreases_to!(eg => eg.children));
                        assert(decreases_to!(eg.children => eg.children@));
                    }
                    if tag_allowed(e.name.as_str()) {
                        let HtmlElement { name, attrs, children } = e;
                        let fc = filter_nodes(children);
                        let kept = HtmlNode::Element(
                            HtmlElement { name, attrs, children: fc },
                        );
                        proof {
                            assert(kept.view() =~~= NodeView::Element {
                                name: eg.name@,
                                attrs: view_attrs(eg.attrs@),
                                children: filter_seq(view_nodes(eg.children@)),
                            });
                            assert(filter_one(lastg.view()) =~~= seq![kept.view()]);
                        }
                        let ghost rv = r@;
                        r.push(kept);
                        proof {
                            assert(r@.drop_last() =~= rv);
                            assert(view_nodes(r@) == view_nodes(rv).push(kept.view()));
                            assert(view_nodes(r@) =~~= filter_seq(view_nodes(origv)));
                        }
                    } else {
                        proof {
                            assert(filter_one(lastg.view()) =~= Seq::<NodeView>::empty());
                            assert(view_nodes(r@) =~~= filter_seq(view_nodes(origv)));
                        }
                    }
                },
                other => {
                    proof {
                        assert(filter_one(lastg.view()) =~= seq![lastg.view()]);
                    }
                    let ghost rv = r@;
                    r.push(other);
                    proof {
                        assert(r@.drop_last() =~= rv);
                        assert(view_nodes(r@) == view_nodes(rv).push(lastg.view()));
                        assert(view_nodes(r@) =~~= filter_seq(view_nodes(origv)));
                    }
                },
            }
            r
        },
    }
}

} // verus!
