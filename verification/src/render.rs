//! The two serializers: compact (one line, no added whitespace) and pretty
//! (tab-indented, one child per line), each stated as a specification
//! function and computed by a proved executable function.

use vstd::prelude::*;
use crate::node::{view_of, views_of, Node, NodeView};

verus! {

/// One attribute as text: a space, the name, `="`, the value, `"`.
pub open spec fn attr_text(a: (Seq<char>, Seq<char>)) -> Seq<char> {
    seq![' '] + a.0 + seq!['=', '"'] + a.1 + seq!['"']
}

/// The attribute block: empty for no attributes; otherwise the attributes'
/// texts joined by one further space. Each text already begins with a space,
/// so a lone attribute gets one leading space and neighbours are parted by
/// two. The double space is part of the output format and is reproduced
/// deliberately.
pub open spec fn attrs_text(attrs: Seq<(Seq<char>, Seq<char>)>) -> Seq<char>
    decreases attrs.len(),
{
    if attrs.len() == 0 {
        Seq::empty()
    } else if attrs.len() == 1 {
        attr_text(attrs[0])
    } else {
        attr_text(attrs[0]) + seq![' '] + attrs_text(attrs.drop_first())
    }
}

/// The compact rendering: text content verbatim (no HTML escaping); a tag as
/// `<` name attribute-block `>`, the children's renderings run together with
/// no separator, `</` name `>`.
pub open spec fn compact_text(m: NodeView) -> Seq<char>
    decreases m, 1int,
{
    match m {
        NodeView::Text(t) => t,
        NodeView::Tag { name, attributes, inner } => seq!['<'] + name + attrs_text(attributes)
            + seq!['>'] + compact_children(inner) + seq!['<', '/'] + name + seq!['>'],
    }
}

/// The children's compact renderings, concatenated in order.
pub open spec fn compact_children(kids: Seq<NodeView>) -> Seq<char>
    decreases kids, 0int,
{
    if kids.len() == 0 {
        Seq::empty()
    } else {
        compact_text(kids.first()) + compact_children(kids.drop_first())
    }
}

/// `depth` tab characters.
pub open spec fn tabs(depth: nat) -> Seq<char>
    decreases depth,
{
    if depth == 0 {
        Seq::empty()
    } else {
        tabs((depth - 1) as nat) + seq!['\t']
    }
}

/// The pretty rendering at an indentation depth: text on one indented line;
/// a tag's opening and closing parts each on their own indented line with
/// the children between them, one level deeper, joined by newlines — unless
/// the tag has no children, in which case it stays on a single line.
pub open spec fn pretty_text(m: NodeView, depth: nat) -> Seq<char>
    decreases m, 1int,
{
    match m {
        NodeView::Text(t) => tabs(depth) + t,
        NodeView::Tag { name, attributes, inner } => tabs(depth) + seq!['<'] + name + attrs_text(
            attributes,
        ) + seq!['>'] + (if inner.len() > 0 {
            seq!['\n']
        } else {
            Seq::empty()
        }) + pretty_children(inner, depth + 1) + (if inner.len() > 0 {
            seq!['\n']
        } else {
            Seq::empty()
        }) + tabs(depth) + seq!['<', '/'] + name + seq!['>'],
    }
}

/// The children's pretty renderings, joined by newlines.
pub open spec fn pretty_children(kids: Seq<NodeView>, depth: nat) -> Seq<char>
    decreases kids, 0int,
{
    if kids.len() == 0 {
        Seq::empty()
    } else if kids.len() == 1 {
        pretty_text(kids.first(), depth)
    } else {
        pretty_text(kids.first(), depth) + seq!['\n'] + pretty_children(kids.drop_first(), depth)
    }
}

/// A tree's height: how many tag levels stand above the deepest leaf.
pub open spec fn height(m: NodeView) -> nat
    decreases m, 1int,
{
    match m {
        NodeView::Text(_) => 0,
        NodeView::Tag { inner, .. } => 1 + children_height(inner),
    }
}

/// The greatest height among the children (zero with none).
pub open spec fn children_height(kids: Seq<NodeView>) -> nat
    decreases kids, 0int,
{
    if kids.len() == 0 {
        0
    } else {
        let h0 = height(kids.first());
        let hr = children_height(kids.drop_first());
        if h0 > hr {
            h0
        } else {
            hr
        }
    }
}

/// No child stands taller than the children's height.
pub proof fn lemma_children_height(kids: Seq<NodeView>, i: int)
    requires
        0 <= i < kids.len(),
    ensures
        height(kids[i]) <= children_height(kids),
    decreases kids.len(),
{
    if i > 0 {
        lemma_children_height(kids.drop_first(), i - 1);
    }
}

/// Appending an attribute appends its text, behind one joining space when it
/// is not the first.
pub proof fn lemma_attrs_text_push(p: Seq<(Seq<char>, Seq<char>)>, a: (Seq<char>, Seq<char>))
    ensures
        attrs_text(p.push(a)) == if p.len() == 0 {
            attr_text(a)
        } else {
            attrs_text(p) + seq![' '] + attr_text(a)
        },
    decreases p.len(),
{
    if p.len() == 0 {
        assert(p.push(a)[0] == a);
        assert(attrs_text(p.push(a)) =~= attr_text(a));
    } else {
        lemma_attrs_text_push(p.drop_first(), a);
        assert(p.push(a).drop_first() =~= p.drop_first().push(a));
        assert(p.push(a)[0] == p[0]);
        assert(attrs_text(p.push(a)) =~= attrs_text(p) + seq![' '] + attr_text(a));
    }
}

/// Appending a child appends its compact rendering.
pub proof fn lemma_compact_children_push(p: Seq<NodeView>, m: NodeView)
    ensures
        compact_children(p.push(m)) == compact_children(p) + compact_text(m),
    decreases p.len(),
{
    if p.len() == 0 {
        assert(p.push(m).len() == 1);
        assert(p.push(m)[0] == m);
        assert(p.push(m).drop_first() =~= Seq::<NodeView>::empty());
        assert(compact_children(p.push(m).drop_first()) == Seq::<char>::empty());
        assert(compact_children(p.push(m)) == compact_text(p.push(m).first()) + compact_children(
            p.push(m).drop_first(),
        ));
        assert(compact_children(p.push(m)) =~= compact_children(p) + compact_text(m));
    } else {
        lemma_compact_children_push(p.drop_first(), m);
        assert(p.push(m).drop_first() =~= p.drop_first().push(m));
        assert(p.push(m)[0] == p[0]);
        assert(compact_children(p.push(m)) =~= compact_children(p) + compact_text(m));
    }
}

/// Appending a child appends its pretty rendering, behind a newline when it
/// is not the first.
pub proof fn lemma_pretty_children_push(p: Seq<NodeView>, m: NodeView, depth: nat)
    ensures
        pretty_children(p.push(m), depth) == if p.len() == 0 {
            pretty_text(m, depth)
        } else {
            pretty_children(p, depth) + seq!['\n'] + pretty_text(m, depth)
        },
    decreases p.len(),
{
    if p.len() == 0 {
        assert(p.push(m)[0] == m);
        assert(pretty_children(p.push(m), depth) =~= pretty_text(m, depth));
    } else {
        lemma_pretty_children_push(p.drop_first(), m, depth);
        assert(p.push(m).drop_first() =~= p.drop_first().push(m));
        assert(p.push(m)[0] == p[0]);
        assert(pretty_children(p.push(m), depth) =~= pretty_children(p, depth) + seq!['\n']
            + pretty_text(m, depth));
    }
}

} // verus!

verus! {

/// The attribute block as a string, exactly [`attrs_text`] of the list.
pub fn fmt_attrs(attrs: &Vec<(String, String)>) -> (out: String)
    ensures
        out@ == attrs_text(attrs.deep_view()),
{
    let ghost dv = attrs.deep_view();
    let mut out = String::new();
    let mut i: usize = 0;
    proof {
        assert(dv.take(0) =~= Seq::<(Seq<char>, Seq<char>)>::empty());
    }
    while i < attrs.len()
        invariant
            i <= attrs@.len(),
            dv == attrs.deep_view(),
            dv.len() == attrs@.len(),
            out@ == attrs_text(dv.take(i as int)),
        decreases attrs@.len() - i,
    {
        if i > 0 {
            out.append(" ");
        }
        out.append(" ");
        out.append(attrs[i].0.as_str());
        out.append("=\"");
        out.append(attrs[i].1.as_str());
        out.append("\"");
        proof {
            reveal_strlit(" ");
            reveal_strlit("=\"");
            reveal_strlit("\"");
            lemma_attrs_text_push(dv.take(i as int), dv[i as int]);
            assert(dv.take(i as int).push(dv[i as int]) =~= dv.take(i as int + 1));
            assert(out@ =~= attrs_text(dv.take(i as int + 1)));
        }
        i += 1;
    }
    proof {
        assert(dv.take(dv.len() as int) =~= dv);
    }
    out
}

/// The children's compact renderings, concatenated in order.
fn render_children(kids: &Vec<Node>) -> (out: String)
    ensures
        out@ == compact_children(views_of(kids@)),
    decreases kids@, 0int,
{
    let ghost vs = views_of(kids@);
    proof {
        crate::node::lemma_views_of(kids@);
    }
    let mut out = String::new();
    let mut i: usize = 0;
    proof {
        assert(vs.take(0) =~= Seq::<NodeView>::empty());
    }
    while i < kids.len()
        invariant
            i <= kids@.len(),
            vs == views_of(kids@),
            vs.len() == kids@.len(),
            forall|j: int| 0 <= j < kids@.len() ==> vs[j] == view_of(kids@[j]),
            out@ == compact_children(vs.take(i as int)),
        decreases kids@.len() - i,
    {
        let c = kids[i].render_compact();
        out.append(c.as_str());
        proof {
            lemma_compact_children_push(vs.take(i as int), vs[i as int]);
            assert(vs.take(i as int).push(vs[i as int]) =~= vs.take(i as int + 1));
            assert(out@ =~= compact_children(vs.take(i as int + 1)));
        }
        i += 1;
    }
    proof {
        assert(vs.take(vs.len() as int) =~= vs);
    }
    out
}

/// `depth` tab characters, as a string.
fn render_tabs(depth: usize) -> (out: String)
    ensures
        out@ == tabs(depth as nat),
{
    let mut out = String::new();
    let mut i: usize = 0;
    while i < depth
        invariant
            i <= depth,
            out@ == tabs(i as nat),
        decreases depth - i,
    {
        out.push('\t');
        proof {
            assert(out@ =~= tabs((i + 1) as nat));
        }
        i += 1;
    }
    out
}

/// The children's pretty renderings, joined by newlines.
fn pretty_inner(kids: &Vec<Node>, depth: usize) -> (out: String)
    requires
        depth + children_height(views_of(kids@)) <= usize::MAX,
    ensures
        out@ == pretty_children(views_of(kids@), depth as nat),
    decreases kids@, 0int,
{
    let ghost vs = views_of(kids@);
    proof {
        crate::node::lemma_views_of(kids@);
    }
    let mut out = String::new();
    let mut i: usize = 0;
    proof {
        assert(vs.take(0) =~= Seq::<NodeView>::empty());
    }
    while i < kids.len()
        invariant
            i <= kids@.len(),
            vs == views_of(kids@),
            vs.len() == kids@.len(),
            forall|j: int| 0 <= j < kids@.len() ==> vs[j] == view_of(kids@[j]),
            depth + children_height(vs) <= usize::MAX,
            out@ == pretty_children(vs.take(i as int), depth as nat),
        decreases kids@.len() - i,
    {
        if i > 0 {
            out.append("\n");
        }
        proof {
            lemma_children_height(vs, i as int);
        }
        let c = kids[i].pretty_print(depth);
        out.append(c.as_str());
        proof {
            reveal_strlit("\n");
            lemma_pretty_children_push(vs.take(i as int), vs[i as int], depth as nat);
            assert(vs.take(i as int).push(vs[i as int]) =~= vs.take(i as int + 1));
            assert(out@ =~= pretty_children(vs.take(i as int + 1), depth as nat));
        }
        i += 1;
    }
    proof {
        assert(vs.take(vs.len() as int) =~= vs);
    }
    out
}

impl Node {
    /// The compact rendering: exactly [`compact_text`] of this tree. Total —
    /// every tree renders; no escaping is applied to text content.
    pub fn render_compact(&self) -> (out: String)
        ensures
            out@ == compact_text(view_of(*self)),
        decreases *self, 1int,
    {
        match self {
            Node::Text(t) => t.clone(),
            Node::Tag { name, attributes, inner } => {
                let mut out = String::new();
                out.append("<");
                out.append(name.as_str());
                let ab = fmt_attrs(attributes);
                out.append(ab.as_str());
                out.append(">");
                let ks = render_children(inner);
                out.append(ks.as_str());
                out.append("</");
                out.append(name.as_str());
                out.append(">");
                proof {
                    reveal_strlit("<");
                    reveal_strlit(">");
                    reveal_strlit("</");
                    assert(out@ =~= compact_text(view_of(*self)));
                }
                out
            },
        }
    }

    /// The pretty rendering: exactly [`pretty_text`] of this tree at the
    /// given indentation depth. The bound on `depth` plus the tree's height
    /// only keeps the per-level counter within the machine's integer range.
    pub fn pretty_print(&self, depth: usize) -> (out: String)
        requires
            depth + height(view_of(*self)) <= usize::MAX,
        ensures
            out@ == pretty_text(view_of(*self), depth as nat),
        decreases *self, 1int,
    {
        match self {
            Node::Text(t) => {
                let mut out = render_tabs(depth);
                out.append(t.as_str());
                proof {
                    assert(out@ =~= pretty_text(view_of(*self), depth as nat));
                }
                out
            },
            Node::Tag { name, attributes, inner } => {
                let mut out = render_tabs(depth);
                out.append("<");
                out.append(name.as_str());
                let ab = fmt_attrs(attributes);
                out.append(ab.as_str());
                out.append(">");
                if inner.len() > 0 {
                    out.append("\n");
                    let ks = pretty_inner(inner, depth + 1);
                    out.append(ks.as_str());
                    out.append("\n");
                    let tb = render_tabs(depth);
                    out.append(tb.as_str());
                    out.append("</");
                    out.append(name.as_str());
                    out.append(">");
                    proof {
                        reveal_strlit("<");
                        reveal_strlit(">");
                        reveal_strlit("</");
                        reveal_strlit("\n");
                        assert(out@ =~= pretty_text(view_of(*self), depth as nat));
                    }
                    out
                } else {
                    let tb = render_tabs(depth);
                    out.append(tb.as_str());
                    out.append("</");
                    out.append(name.as_str());
                    out.append(">");
                    proof {
                        reveal_strlit("<");
                        reveal_strlit(">");
                        reveal_strlit("</");
                        assert(views_of(inner@) =~= Seq::<NodeView>::empty());
                        assert(out@ =~= pretty_text(view_of(*self), depth as nat));
                    }
                    out
                }
            },
        }
    }
}

} // verus!
