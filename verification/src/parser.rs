//! The executable parser: a one-character-lookahead cursor over the input,
//! proved to return exactly what the grammar in [`crate::grammar`] says.

use vstd::prelude::*;
use vstd::string::StrSliceExecFns;
use crate::grammar::{
    ident_end, is_name, is_space, lemma_ident_end, parse_at, parse_attrs_at, parse_children_at,
    parse_string_at, parse_tag_at, skip_ws, string_body_end, unescape, ParseError,
};
use crate::node::{lemma_views_of_push, view_of, views_of, Node, NodeView};

verus! {

/// A parse in progress: the input characters and the cursor's position.
/// Construct one with [`Parser::new`], then call [`Parser::parse`] once;
/// whatever follows the first node is left unread.
pub struct Parser {
    chars: Vec<char>,
    pos: usize,
}

impl Parser {
    /// The input as a character sequence.
    pub closed spec fn input(&self) -> Seq<char> {
        self.chars@
    }

    /// The cursor: how many characters have been consumed.
    pub closed spec fn position(&self) -> int {
        self.pos as int
    }

    /// The cursor stands inside the input or just past its end.
    pub closed spec fn wf(&self) -> bool {
        self.pos <= self.chars@.len()
    }

    /// A fresh parser over `input`, with nothing consumed yet.
    pub fn new(input: &str) -> (p: Parser)
        ensures
            p.wf(),
            p.input() == input@,
            p.position() == 0,
    {
        let n = input.unicode_len();
        let mut chars: Vec<char> = Vec::new();
        let mut i: usize = 0;
        while i < n
            invariant
                n == input@.len(),
                i <= n,
                chars@ == input@.subrange(0, i as int),
            decreases n - i,
        {
            chars.push(input.get_char(i));
            i += 1;
            proof {
                assert(chars@ =~= input@.subrange(0, i as int));
            }
        }
        proof {
            assert(chars@ =~= input@);
        }
        Parser { chars, pos: 0 }
    }

    /// Move the cursor past any run of whitespace. This by itself never
    /// fails; it stops at the first non-whitespace character or at the end
    /// of the input.
    fn skip_whitespace(&mut self)
        requires
            old(self).wf(),
        ensures
            final(self).wf(),
            final(self).input() == old(self).input(),
            final(self).position() == skip_ws(old(self).input(), old(self).position()),
            old(self).position() <= final(self).position(),
    {
        while self.pos < self.chars.len() && is_space(self.chars[self.pos])
            invariant
                self.wf(),
                self.input() == old(self).input(),
                old(self).position() <= self.position(),
                skip_ws(old(self).input(), old(self).position()) == skip_ws(
                    self.input(),
                    self.position(),
                ),
            decreases self.chars@.len() - self.pos,
        {
            self.pos += 1;
        }
    }

    /// One or more name characters, read greedily. With none there, the
    /// error is `ExpectedIdentifier` and the cursor does not move.
    fn parse_ident(&mut self) -> (r: Result<String, ParseError>)
        requires
            old(self).wf(),
        ensures
            final(self).wf(),
            final(self).input() == old(self).input(),
            ({
                let e = ident_end(old(self).input(), old(self).position());
                &&& e == old(self).position() ==> r == Result::<String, ParseError>::Err(
                    ParseError::ExpectedIdentifier,
                ) && final(self).position() == old(self).position()
                &&& e > old(self).position() ==> {
                    &&& r is Ok
                    &&& r->Ok_0@ == old(self).input().subrange(old(self).position(), e)
                    &&& final(self).position() == e
                }
            }),
    {
        let ghost s = self.chars@;
        let ghost p0 = self.pos as int;
        if self.pos >= self.chars.len() || !is_name(self.chars[self.pos]) {
            return Err(ParseError::ExpectedIdentifier);
        }
        proof {
            lemma_ident_end(s, p0 + 1);
        }
        let mut name = String::new();
        while self.pos < self.chars.len() && is_name(self.chars[self.pos])
            invariant
                self.wf(),
                self.input() == s,
                0 <= p0 <= self.pos as int,
                name@ == s.subrange(p0, self.pos as int),
                ident_end(s, p0) == ident_end(s, self.pos as int),
            decreases self.chars@.len() - self.pos,
        {
            name.push(self.chars[self.pos]);
            self.pos += 1;
            proof {
                assert(name@ =~= s.subrange(p0, self.pos as int));
            }
        }
        Ok(name)
    }

    /// A string literal: the character under the cursor is consumed as the
    /// opening quote, the body runs to the first quote not preceded by a
    /// backslash, and the body's `\"` pairs are rewritten to `"`.
    fn parse_string(&mut self) -> (r: Result<String, ParseError>)
        requires
            old(self).wf(),
            old(self).position() < old(self).input().len(),
        ensures
            final(self).wf(),
            final(self).input() == old(self).input(),
            match parse_string_at(old(self).input(), old(self).position()) {
                Ok(res) => {
                    &&& r is Ok
                    &&& r->Ok_0@ == res.0
                    &&& final(self).position() == res.1
                    &&& old(self).position() < res.1
                },
                Err(e) => r == Result::<String, ParseError>::Err(e),
            },
    {
        let ghost s = self.chars@;
        let ghost q = self.pos as int;
        let _bound = self.chars.len();
        proof {
            assert(self.pos < _bound);
        }
        self.pos += 1;
        let mut prev: char = '"';
        let mut raw: Vec<char> = Vec::new();
        while self.pos < self.chars.len() && !(self.chars[self.pos] == '"' && prev != '\\')
            invariant
                self.wf(),
                self.input() == s,
                0 <= q,
                q + 1 <= self.pos as int <= s.len(),
                raw@ == s.subrange(q + 1, self.pos as int),
                string_body_end(s, q + 1, '"') == string_body_end(s, self.pos as int, prev),
            decreases self.chars@.len() - self.pos,
        {
            raw.push(self.chars[self.pos]);
            prev = self.chars[self.pos];
            self.pos += 1;
            proof {
                assert(raw@ =~= s.subrange(q + 1, self.pos as int));
            }
        }
        if self.pos >= self.chars.len() {
            return Err(ParseError::UnterminatedString);
        }
        self.pos += 1;
        Ok(unescape_chars(&raw))
    }

    /// Parse one node from the cursor on: what [`parse_at`] says the input
    /// means there, as a [`Node`], with the cursor left just past it. On
    /// failure the error is exactly the grammar's; the cursor is then
    /// somewhere inside the failed production.
    pub fn parse(&mut self) -> (r: Result<Node, ParseError>)
        requires
            old(self).wf(),
        ensures
            final(self).wf(),
            final(self).input() == old(self).input(),
            match parse_at(old(self).input(), old(self).position()) {
                Ok(res) => {
                    &&& r is Ok
                    &&& view_of(r->Ok_0) == res.0
                    &&& final(self).position() == res.1
                    &&& old(self).position() < res.1
                },
                Err(e) => r == Result::<Node, ParseError>::Err(e),
            },
        decreases old(self).input().len() - old(self).position(), 3int,
    {
        if self.pos >= self.chars.len() {
            return Err(ParseError::UnexpectedCharacter);
        }
        let c = self.chars[self.pos];
        if c == '(' {
            self.parse_tag()
        } else if c == '"' {
            match self.parse_string() {
                Ok(t) => Ok(Node::Text(t)),
                Err(e) => Err(e),
            }
        } else {
            Err(ParseError::UnexpectedCharacter)
        }
    }

    /// A tag: `(`, a name, attributes while a `:` leads, children while a
    /// `(` or `"` leads, then the closing `)`.
    fn parse_tag(&mut self) -> (r: Result<Node, ParseError>)
        requires
            old(self).wf(),
            old(self).position() < old(self).input().len(),
        ensures
            final(self).wf(),
            final(self).input() == old(self).input(),
            match parse_tag_at(old(self).input(), old(self).position()) {
                Ok(res) => {
                    &&& r is Ok
                    &&& view_of(r->Ok_0) == res.0
                    &&& final(self).position() == res.1
                    &&& old(self).position() < res.1
                },
                Err(e) => r == Result::<Node, ParseError>::Err(e),
            },
        decreases old(self).input().len() - old(self).position(), 2int,
    {
        let ghost s = self.chars@;
        let ghost p0 = self.pos as int;
        let _bound = self.chars.len();
        proof {
            assert(self.pos < _bound);
        }
        self.pos += 1;
        let name = match self.parse_ident() {
            Ok(nm) => nm,
            Err(e) => {
                proof {
                    lemma_ident_end(s, p0 + 1);
                }
                return Err(e);
            },
        };
        proof {
            lemma_ident_end(s, p0 + 1);
        }
        self.skip_whitespace();
        if self.pos >= self.chars.len() {
            return Err(ParseError::UnexpectedEndOfInput);
        }
        let ghost pa = self.pos as int;
        let mut attributes: Vec<(String, String)> = Vec::new();
        proof {
            assert(attributes.deep_view() =~= Seq::<(Seq<char>, Seq<char>)>::empty());
        }
        while self.pos < self.chars.len() && self.chars[self.pos] == ':'
            invariant
                self.wf(),
                self.input() == s,
                s == old(self).input(),
                p0 == old(self).position(),
                0 <= p0,
                p0 + 1 < ident_end(s, p0 + 1),
                pa == skip_ws(s, ident_end(s, p0 + 1)),
                p0 < pa <= self.pos as int,
                (self.pos as int) < s.len(),
                parse_attrs_at(s, pa, Seq::empty()) == parse_attrs_at(
                    s,
                    self.pos as int,
                    attributes.deep_view(),
                ),
            decreases s.len() - self.pos,
        {
            let ghost pit = self.pos as int;
            let ghost acc0 = attributes.deep_view();
            self.pos += 1;
            let aname = match self.parse_ident() {
                Ok(a) => a,
                Err(e) => {
                    proof {
                        lemma_ident_end(s, pit + 1);
                    }
                    return Err(e);
                },
            };
            proof {
                lemma_ident_end(s, pit + 1);
            }
            self.skip_whitespace();
            if self.pos >= self.chars.len() {
                return Err(ParseError::UnexpectedEndOfInput);
            }
            let value: String;
            if self.chars[self.pos] == ':' {
                value = String::new();
            } else if self.chars[self.pos] == '"' {
                value = match self.parse_string() {
                    Ok(v) => v,
                    Err(e) => {
                        return Err(e);
                    },
                };
                self.skip_whitespace();
                if self.pos >= self.chars.len() {
                    return Err(ParseError::UnexpectedEndOfInput);
                }
            } else {
                return Err(ParseError::ExpectedAttributeValue);
            }
            attributes.push((aname, value));
            proof {
                assert(attributes.deep_view() =~= acc0.push((aname@, value@)));
            }
        }
        let ghost pc = self.pos as int;
        let ghost attrs_dv = attributes.deep_view();
        let mut inner: Vec<Node> = Vec::new();
        proof {
            assert(views_of(inner@) =~= Seq::<NodeView>::empty());
        }
        while self.pos < self.chars.len() && (self.chars[self.pos] == '(' || self.chars[self.pos]
            == '"')
            invariant
                self.wf(),
                self.input() == s,
                s == old(self).input(),
                p0 == old(self).position(),
                0 <= p0,
                p0 + 1 < ident_end(s, p0 + 1),
                pa == skip_ws(s, ident_end(s, p0 + 1)),
                p0 < pa < s.len(),
                parse_attrs_at(s, pa, Seq::empty()) == Ok::<_, ParseError>((attrs_dv, pc)),
                attributes.deep_view() == attrs_dv,
                p0 < pc <= self.pos as int <= s.len(),
                parse_children_at(s, pc, Seq::empty()) == parse_children_at(
                    s,
                    self.pos as int,
                    views_of(inner@),
                ),
            decreases s.len() - self.pos,
        {
            let child = match self.parse() {
                Ok(nd) => nd,
                Err(e) => {
                    return Err(e);
                },
            };
            proof {
                lemma_views_of_push(inner@, child);
            }
            inner.push(child);
            self.skip_whitespace();
        }
        if self.pos >= self.chars.len() {
            return Err(ParseError::UnexpectedEndOfInput);
        }
        if self.chars[self.pos] != ')' {
            return Err(ParseError::ExpectedClosingParen);
        }
        self.pos += 1;
        Ok(Node::Tag { name, attributes, inner })
    }
}

/// The unescaping pass over a literal's raw body, proved to compute
/// [`unescape`].
fn unescape_chars(raw: &Vec<char>) -> (out: String)
    ensures
        out@ == unescape(raw@),
{
    let mut out = String::new();
    let mut i: usize = 0;
    proof {
        assert(raw@.skip(0) =~= raw@);
        assert(Seq::<char>::empty() + unescape(raw@) =~= unescape(raw@));
    }
    while i < raw.len()
        invariant
            i <= raw@.len(),
            unescape(raw@) == out@ + unescape(raw@.skip(i as int)),
        decreases raw@.len() - i,
    {
        let ghost i0 = i as int;
        let ghost out0 = out@;
        if raw[i] == '\\' && i + 1 < raw.len() && raw[i + 1] == '"' {
            out.push('"');
            i += 2;
            proof {
                assert(raw@.skip(i0).skip(2) =~= raw@.skip(i0 + 2));
                assert(out@ + unescape(raw@.skip(i as int)) =~= out0 + unescape(raw@.skip(i0)));
            }
        } else {
            out.push(raw[i]);
            i += 1;
            proof {
                assert(raw@.skip(i0).skip(1) =~= raw@.skip(i0 + 1));
                assert(out@ + unescape(raw@.skip(i as int)) =~= out0 + unescape(raw@.skip(i0)));
            }
        }
    }
    proof {
        assert(raw@.skip(raw@.len() as int) =~= Seq::<char>::empty());
        assert(out@ + unescape(raw@.skip(raw@.len() as int)) =~= out@);
    }
    out
}

} // verus!
