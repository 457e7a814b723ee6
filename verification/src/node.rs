//! The document tree: text leaves and tag nodes with attributes and children.

use vstd::prelude::*;

verus! {

/// One node of a parsed document.
///
/// A document is a tree built once, bottom-up, by the parser; there is no
/// mutation API. `Text` holds raw character content (escape sequences already
/// rewritten); `Tag` holds its name, its attributes in source order (duplicate
/// names are kept as repeats) and its children in source order. A tag with no
/// children is a complete, valid tag.
#[derive(Debug)]
pub enum Node {
    Text(String),
    Tag { name: String, attributes: Vec<(String, String)>, inner: Vec<Node> },
}

/// The mathematical shape of a [`Node`]: the same tree over character
/// sequences. Contracts throughout the crate speak of this type.
pub enum NodeView {
    Text(Seq<char>),
    Tag { name: Seq<char>, attributes: Seq<(Seq<char>, Seq<char>)>, inner: Seq<NodeView> },
}

/// The [`NodeView`] of one node.
pub open spec fn view_of(n: Node) -> NodeView
    decreases n, 1int,
{
    match n {
        Node::Text(s) => NodeView::Text(s@),
        Node::Tag { name, attributes, inner } => NodeView::Tag {
            name: name@,
            attributes: attributes.deep_view(),
            inner: views_of(inner@),
        },
    }
}

/// The [`NodeView`]s of a sequence of nodes, in order.
pub open spec fn views_of(ns: Seq<Node>) -> Seq<NodeView>
    decreases ns, 0int,
{
    if ns.len() == 0 {
        Seq::empty()
    } else {
        seq![view_of(ns.first())] + views_of(ns.drop_first())
    }
}

impl DeepView for Node {
    type V = NodeView;

    open spec fn deep_view(&self) -> NodeView {
        view_of(*self)
    }
}

/// `views_of` maps `view_of` over the sequence element by element.
pub proof fn lemma_views_of(ns: Seq<Node>)
    ensures
        views_of(ns).len() == ns.len(),
        forall|i: int| 0 <= i < ns.len() ==> views_of(ns)[i] == view_of(ns[i]),
    decreases ns.len(),
{
    if ns.len() > 0 {
        lemma_views_of(ns.drop_first());
    }
}

} // verus!

verus! {

/// Appending a node to a sequence appends its view to the views.
pub proof fn lemma_views_of_push(ns: Seq<Node>, n: Node)
    ensures
        views_of(ns.push(n)) == views_of(ns).push(view_of(n)),
{
    lemma_views_of(ns);
    lemma_views_of(ns.push(n));
    assert(views_of(ns.push(n)) =~= views_of(ns).push(view_of(n)));
}

} // verus!
