//! Laws that hold across the parser and the serializers.

use vstd::prelude::*;
use crate::grammar::{
    ident_end, is_name_char, lemma_ident_end, parse_at, parse_attrs_at, parse_children_at,
    parse_string_at, parse_tag_at, skip_ws, spec_parse, ParseError,
};
use crate::node::NodeView;
use crate::render::compact_text;

verus! {

/// Parsing and compact rendering are deterministic: each is a function of
/// the input characters alone, so the parse-then-render pipeline gives equal
/// results — byte for byte — whenever it runs on equal inputs. The
/// contracts of [`crate::parser::Parser::parse`] and
/// [`crate::node::Node::render_compact`] pin the executable results to the
/// two functions named here.
pub proof fn lemma_compact_deterministic(s1: Seq<char>, s2: Seq<char>)
    requires
        s1 == s2,
    ensures
        spec_parse(s1) == spec_parse(s2),
        spec_parse(s1) matches Ok(r) ==> compact_text(r.0) == compact_text(
            spec_parse(s2)->Ok_0.0,
        ),
{
}

/// Compact rendering is not the parser's inverse: a rendered tag begins
/// with `<`, which no document may begin with, so parsing any tag's compact
/// output fails — and with `UnexpectedCharacter`, not by accident. (Only a
/// document that is a single string literal escapes this: it renders as its
/// raw text content, which may happen to parse.)
pub proof fn lemma_compact_not_reparsable(m: NodeView)
    requires
        m is Tag,
    ensures
        spec_parse(compact_text(m)) == Err::<(NodeView, int), ParseError>(
            ParseError::UnexpectedCharacter,
        ),
{
    let out = compact_text(m);
    assert(out[0] == '<');
    assert(out.len() > 0);
    assert(parse_at(out, 0) == Err::<(NodeView, int), ParseError>(ParseError::UnexpectedCharacter));
}

} // verus!

verus! {

/// A name the grammar can produce: non-empty, ASCII letters and digits only.
pub open spec fn wf_name(name: Seq<char>) -> bool {
    name.len() > 0 && forall|i: int| 0 <= i < name.len() ==> is_name_char(#[trigger] name[i])
}

/// Every attribute's name is a well-formed name.
pub open spec fn wf_attrs(attrs: Seq<(Seq<char>, Seq<char>)>) -> bool {
    forall|i: int| 0 <= i < attrs.len() ==> wf_name((#[trigger] attrs[i]).0)
}

/// A well-formed tree: every tag name and attribute name in it is a
/// well-formed name. Text content is unconstrained.
pub open spec fn wf_view(m: NodeView) -> bool
    decreases m, 1int,
{
    match m {
        NodeView::Text(_) => true,
        NodeView::Tag { name, attributes, inner } => wf_name(name) && wf_attrs(attributes)
            && wf_views(inner),
    }
}

/// All of a sequence of trees are well formed.
pub open spec fn wf_views(kids: Seq<NodeView>) -> bool
    decreases kids, 0int,
{
    if kids.len() == 0 {
        true
    } else {
        wf_view(kids.first()) && wf_views(kids.drop_first())
    }
}

/// Every character of a scanned name run is a name character.
proof fn lemma_ident_chars(s: Seq<char>, pos: int)
    ensures
        forall|j: int| pos <= j < ident_end(s, pos) ==> is_name_char(#[trigger] s[j]),
    decreases s.len() - pos,
{
    if 0 <= pos < s.len() && is_name_char(s[pos]) {
        lemma_ident_chars(s, pos + 1);
    }
}

/// Appending a tree to a sequence keeps it well formed exactly when both are.
proof fn lemma_wf_views_push(kids: Seq<NodeView>, m: NodeView)
    ensures
        wf_views(kids.push(m)) == (wf_views(kids) && wf_view(m)),
    decreases kids.len(),
{
    if kids.len() == 0 {
        assert(kids.push(m)[0] == m);
        assert(kids.push(m).drop_first() =~= Seq::<NodeView>::empty());
        assert(kids.push(m).len() == 1);
        assert(wf_views(kids.push(m)) == (wf_view(m) && wf_views(kids.push(m).drop_first())));
        assert(wf_views(kids));
        assert(wf_views(kids.push(m)) == (wf_views(kids) && wf_view(m)));
    } else {
        lemma_wf_views_push(kids.drop_first(), m);
        assert(kids.push(m).drop_first() =~= kids.drop_first().push(m));
        assert(kids.push(m)[0] == kids[0]);
        assert(wf_views(kids.push(m)) == (wf_view(kids[0]) && wf_views(kids.drop_first().push(m))));
        assert(wf_views(kids) == (wf_view(kids[0]) && wf_views(kids.drop_first())));
        assert(wf_views(kids.push(m)) == (wf_views(kids) && wf_view(m)));
    }
}

/// A node the grammar accepts is well formed.
proof fn lemma_parse_at_wf(s: Seq<char>, pos: int)
    ensures
        parse_at(s, pos) matches Ok(r) ==> wf_view(r.0),
    decreases s.len() - pos, 3int,
{
    if 0 <= pos < s.len() && s[pos] == '(' {
        lemma_parse_tag_wf(s, pos);
    }
}

/// A tag the grammar accepts is well formed.
proof fn lemma_parse_tag_wf(s: Seq<char>, pos: int)
    ensures
        parse_tag_at(s, pos) matches Ok(r) ==> wf_view(r.0),
    decreases s.len() - pos, 2int,
{
    let id_end = ident_end(s, pos + 1);
    if id_end != pos + 1 {
        assert(0 <= pos + 1 < s.len());
        lemma_ident_end(s, pos + 1);
        lemma_ident_chars(s, pos + 1);
        let name = s.subrange(pos + 1, id_end);
        assert(wf_name(name));
        let p1 = skip_ws(s, id_end);
        if p1 < s.len() && pos < p1 {
            lemma_parse_attrs_wf(s, p1, Seq::empty());
            match parse_attrs_at(s, p1, Seq::empty()) {
                Ok(ra) => {
                    if pos < ra.1 <= s.len() {
                        lemma_parse_children_wf(s, ra.1, Seq::empty());
                    }
                },
                Err(_) => {},
            }
        }
    }
}

/// An attribute list the grammar accepts holds only well-formed names,
/// provided the names already accumulated are well formed.
proof fn lemma_parse_attrs_wf(s: Seq<char>, pos: int, acc: Seq<(Seq<char>, Seq<char>)>)
    requires
        wf_attrs(acc),
    ensures
        parse_attrs_at(s, pos, acc) matches Ok(r) ==> wf_attrs(r.0),
    decreases s.len() - pos, 1int,
{
    if 0 <= pos < s.len() && s[pos] == ':' {
        let id_end = ident_end(s, pos + 1);
        if id_end != pos + 1 {
            assert(0 <= pos + 1 < s.len());
            lemma_ident_end(s, pos + 1);
            lemma_ident_chars(s, pos + 1);
            let aname = s.subrange(pos + 1, id_end);
            assert(wf_name(aname));
            let p1 = skip_ws(s, id_end);
            if p1 < s.len() {
                if s[p1] == ':' {
                    if pos < p1 {
                        let acc2 = acc.push((aname, Seq::<char>::empty()));
                        assert(wf_attrs(acc2)) by {
                            assert(forall|i: int|
                                0 <= i < acc.len() ==> acc2[i] == #[trigger] acc[i]);
                            assert(acc2[acc.len() as int].0 == aname);
                        }
                        lemma_parse_attrs_wf(s, p1, acc2);
                    }
                } else if s[p1] == '"' {
                    match parse_string_at(s, p1) {
                        Ok(rs) => {
                            let p3 = skip_ws(s, rs.1);
                            if p3 < s.len() && pos < p3 {
                                let acc2 = acc.push((aname, rs.0));
                                assert(wf_attrs(acc2)) by {
                                    assert(forall|i: int|
                                        0 <= i < acc.len() ==> acc2[i] == #[trigger] acc[i]);
                                    assert(acc2[acc.len() as int].0 == aname);
                                }
                                lemma_parse_attrs_wf(s, p3, acc2);
                            }
                        },
                        Err(_) => {},
                    }
                }
            }
        }
    }
}

/// A child list the grammar accepts holds only well-formed trees, provided
/// the children already accumulated are well formed.
proof fn lemma_parse_children_wf(s: Seq<char>, pos: int, acc: Seq<NodeView>)
    requires
        wf_views(acc),
    ensures
        parse_children_at(s, pos, acc) matches Ok(r) ==> wf_views(r.0),
    decreases s.len() - pos, 4int,
{
    if 0 <= pos < s.len() && (s[pos] == '(' || s[pos] == '"') {
        lemma_parse_at_wf(s, pos);
        match parse_at(s, pos) {
            Ok(rc) => {
                let p3 = skip_ws(s, rc.1);
                if pos < p3 <= s.len() {
                    lemma_wf_views_push(acc, rc.0);
                    lemma_parse_children_wf(s, p3, acc.push(rc.0));
                }
            },
            Err(_) => {},
        }
    }
}

/// Every tree the parser yields is well formed: each tag name and each
/// attribute name in it is non-empty and consists of ASCII letters and
/// digits alone — the grammar never produces any other character in a name.
pub proof fn lemma_parse_yields_wf(s: Seq<char>)
    ensures
        spec_parse(s) matches Ok(r) ==> wf_view(r.0),
{
    lemma_parse_at_wf(s, 0);
}

} // verus!
