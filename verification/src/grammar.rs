//! The grammar, stated mathematically.
//!
//! These specification functions define, character by character, which inputs
//! the parser accepts, which tree an accepted input denotes, and which error
//! a rejected input earns. The executable parser in [`crate::parser`] is
//! proved to return exactly what these functions say.
//!
//! A document is one node: a string literal (`"` ... `"`) or a tag
//! (`(name :attr "value" ... children... )`). Positions are indices into the
//! input character sequence. Where a definition tests that a position moved
//! forward, the test only keeps the recursion well-founded: parsing always
//! advances, so the failing branch is never the value of any reachable
//! input.

use vstd::prelude::*;
use crate::node::NodeView;

verus! {

/// Why a parse failed.
#[derive(Debug, Clone, Copy, PartialEq, Eq)]
pub enum ParseError {
    /// A tag or attribute name was required, but no ASCII alphanumeric
    /// character is there.
    ExpectedIdentifier,
    /// After an attribute name and optional whitespace, the next character is
    /// neither `:` nor `"`.
    ExpectedAttributeValue,
    /// The input ended inside a string literal, before its closing quote.
    UnterminatedString,
    /// The input ended where further tokens were still required (after an
    /// attribute, or before a tag's closing delimiter).
    UnexpectedEndOfInput,
    /// The top level could not tell a tag from a string literal: the first
    /// character is neither `(` nor `"` (or the input is empty).
    UnexpectedCharacter,
    /// The character closing a tag is not `)`.
    ExpectedClosingParen,
}

/// Whitespace, by the Unicode `White_Space` classification that
/// `char::is_whitespace` documents.
pub open spec fn is_space_char(c: char) -> bool {
    let u = c as u32;
    u == 0x09 || u == 0x0a || u == 0x0b || u == 0x0c || u == 0x0d || u == 0x20 || u == 0x85
        || u == 0xa0 || u == 0x1680 || (0x2000 <= u && u <= 0x200a) || u == 0x2028 || u == 0x2029
        || u == 0x202f || u == 0x205f || u == 0x3000
}

/// A character that may stand in a tag or attribute name: an ASCII letter or
/// digit.
pub open spec fn is_name_char(c: char) -> bool {
    let u = c as u32;
    (0x30 <= u && u <= 0x39) || (0x41 <= u && u <= 0x5a) || (0x61 <= u && u <= 0x7a)
}

/// The first position at or after `pos` that does not hold whitespace (the
/// input's length if whitespace runs to the end).
pub open spec fn skip_ws(s: Seq<char>, pos: int) -> int
    decreases s.len() - pos,
{
    if 0 <= pos < s.len() && is_space_char(s[pos]) {
        skip_ws(s, pos + 1)
    } else {
        pos
    }
}

/// The end of the run of name characters that starts at `pos`: the name is
/// `s.subrange(pos, ident_end(s, pos))`, empty when no name is there.
pub open spec fn ident_end(s: Seq<char>, pos: int) -> int
    decreases s.len() - pos,
{
    if 0 <= pos < s.len() && is_name_char(s[pos]) {
        ident_end(s, pos + 1)
    } else {
        pos
    }
}

/// The position of the quote that closes a string literal's body, scanning
/// from `pos` with `prev` the character just before it. A quote terminates
/// the literal only when the character before it is not a backslash. `None`
/// when the input ends first.
pub open spec fn string_body_end(s: Seq<char>, pos: int, prev: char) -> Option<int>
    decreases s.len() - pos,
{
    if pos < 0 || pos >= s.len() {
        None
    } else if s[pos] == '"' && prev != '\\' {
        Some(pos)
    } else {
        string_body_end(s, pos + 1, s[pos])
    }
}

/// The single unescaping pass over a literal's raw body: each `\"` pair
/// becomes `"`, left to right; every other character (a lone backslash
/// included) passes through unchanged.
pub open spec fn unescape(raw: Seq<char>) -> Seq<char>
    decreases raw.len(),
{
    if raw.len() == 0 {
        Seq::empty()
    } else if raw.len() >= 2 && raw[0] == '\\' && raw[1] == '"' {
        seq!['"'] + unescape(raw.skip(2))
    } else {
        seq![raw[0]] + unescape(raw.skip(1))
    }
}

/// A string literal at `pos` (which must hold the opening quote): its
/// unescaped content and the position after the closing quote.
pub open spec fn parse_string_at(s: Seq<char>, pos: int) -> Result<(Seq<char>, int), ParseError> {
    match string_body_end(s, pos + 1, '"') {
        None => Err(ParseError::UnterminatedString),
        Some(end) => Ok((unescape(s.subrange(pos + 1, end)), end + 1)),
    }
}

/// A node at `pos`: a tag after `(`, a text node after `"`, and a failure on
/// any other character or at the end of the input.
pub open spec fn parse_at(s: Seq<char>, pos: int) -> Result<(NodeView, int), ParseError>
    decreases s.len() - pos, 3int,
{
    if pos < 0 || pos >= s.len() {
        Err(ParseError::UnexpectedCharacter)
    } else if s[pos] == '(' {
        parse_tag_at(s, pos)
    } else if s[pos] == '"' {
        match parse_string_at(s, pos) {
            Ok((t, p)) => Ok((NodeView::Text(t), p)),
            Err(e) => Err(e),
        }
    } else {
        Err(ParseError::UnexpectedCharacter)
    }
}

/// A tag at `pos` (which must hold `(`): a name, then attributes, then
/// children, then `)`. The input may not end between the name and the
/// closing delimiter.
pub open spec fn parse_tag_at(s: Seq<char>, pos: int) -> Result<(NodeView, int), ParseError>
    decreases s.len() - pos, 2int,
{
    let id_end = ident_end(s, pos + 1);
    if id_end == pos + 1 {
        Err(ParseError::ExpectedIdentifier)
    } else {
        let name = s.subrange(pos + 1, id_end);
        let p1 = skip_ws(s, id_end);
        if p1 >= s.len() {
            Err(ParseError::UnexpectedEndOfInput)
        } else if !(pos < p1 <= s.len()) {
            Err(ParseError::UnexpectedEndOfInput)
        } else {
            match parse_attrs_at(s, p1, Seq::empty()) {
                Err(e) => Err(e),
                Ok((attrs, p2)) => {
                    if !(pos < p2 <= s.len()) {
                        Err(ParseError::UnexpectedEndOfInput)
                    } else {
                        match parse_children_at(s, p2, Seq::empty()) {
                            Err(e) => Err(e),
                            Ok((kids, p3)) => {
                                if p3 >= s.len() {
                                    Err(ParseError::UnexpectedEndOfInput)
                                } else if s[p3] != ')' {
                                    Err(ParseError::ExpectedClosingParen)
                                } else {
                                    Ok(
                                        (
                                            NodeView::Tag { name, attributes: attrs, inner: kids },
                                            p3 + 1,
                                        ),
                                    )
                                }
                            },
                        }
                    }
                },
            }
        }
    }
}

/// The attribute list from `pos` on, `acc` holding the attributes already
/// read. Each attribute is `:`, a name, optional whitespace, and a value:
/// another `:` right there means the value is the empty string (and nothing
/// is consumed); otherwise a string literal must follow. After a recorded
/// attribute, whitespace is skipped and the input may not end.
pub open spec fn parse_attrs_at(
    s: Seq<char>,
    pos: int,
    acc: Seq<(Seq<char>, Seq<char>)>,
) -> Result<(Seq<(Seq<char>, Seq<char>)>, int), ParseError>
    decreases s.len() - pos, 1int,
{
    if pos < 0 || pos >= s.len() {
        Err(ParseError::UnexpectedEndOfInput)
    } else if s[pos] != ':' {
        Ok((acc, pos))
    } else {
        let id_end = ident_end(s, pos + 1);
        if id_end == pos + 1 {
            Err(ParseError::ExpectedIdentifier)
        } else {
            let aname = s.subrange(pos + 1, id_end);
            let p1 = skip_ws(s, id_end);
            if p1 >= s.len() {
                Err(ParseError::UnexpectedEndOfInput)
            } else if s[p1] == ':' {
                // Empty value; the next attribute starts at `p1` itself.
                if pos < p1 <= s.len() {
                    parse_attrs_at(s, p1, acc.push((aname, Seq::empty())))
                } else {
                    Err(ParseError::UnexpectedEndOfInput)
                }
            } else if s[p1] == '"' {
                match parse_string_at(s, p1) {
                    Err(e) => Err(e),
                    Ok((val, p2)) => {
                        let p3 = skip_ws(s, p2);
                        if p3 >= s.len() {
                            Err(ParseError::UnexpectedEndOfInput)
                        } else if pos < p3 <= s.len() {
                            parse_attrs_at(s, p3, acc.push((aname, val)))
                        } else {
                            Err(ParseError::UnexpectedEndOfInput)
                        }
                    },
                }
            } else {
                Err(ParseError::ExpectedAttributeValue)
            }
        }
    }
}

/// The child list from `pos` on, `acc` holding the children already read:
/// nodes as long as the next character opens one, with whitespace skipped
/// after each. The end of the input is tolerated here; the closing-delimiter
/// check in [`parse_tag_at`] reports it.
pub open spec fn parse_children_at(
    s: Seq<char>,
    pos: int,
    acc: Seq<NodeView>,
) -> Result<(Seq<NodeView>, int), ParseError>
    decreases s.len() - pos, 4int,
{
    if pos < 0 || pos >= s.len() {
        Ok((acc, pos))
    } else if s[pos] == '(' || s[pos] == '"' {
        match parse_at(s, pos) {
            Err(e) => Err(e),
            Ok((m, p2)) => {
                let p3 = skip_ws(s, p2);
                if pos < p3 <= s.len() {
                    parse_children_at(s, p3, acc.push(m))
                } else {
                    Err(ParseError::UnexpectedEndOfInput)
                }
            },
        }
    } else {
        Ok((acc, pos))
    }
}

/// What parsing a whole input returns: the document's root node and the
/// position after it (trailing input is left unread), or the error.
pub open spec fn spec_parse(s: Seq<char>) -> Result<(NodeView, int), ParseError> {
    parse_at(s, 0)
}

} // verus!

// Verus sees the module above as closed; reopen it for the executable
// classifiers and the bounds lemmas that the parser's proofs use.
verus! {

/// Whitespace test, proved to decide exactly [`is_space_char`].
pub fn is_space(c: char) -> (r: bool)
    ensures
        r == is_space_char(c),
{
    let u = c as u32;
    u == 0x09 || u == 0x0a || u == 0x0b || u == 0x0c || u == 0x0d || u == 0x20 || u == 0x85
        || u == 0xa0 || u == 0x1680 || (0x2000 <= u && u <= 0x200a) || u == 0x2028 || u == 0x2029
        || u == 0x202f || u == 0x205f || u == 0x3000
}

/// Name-character test, proved to decide exactly [`is_name_char`].
pub fn is_name(c: char) -> (r: bool)
    ensures
        r == is_name_char(c),
{
    let u = c as u32;
    (0x30 <= u && u <= 0x39) || (0x41 <= u && u <= 0x5a) || (0x61 <= u && u <= 0x7a)
}

/// A name's end never lies before its start and never leaves the input.
pub proof fn lemma_ident_end(s: Seq<char>, pos: int)
    requires
        0 <= pos <= s.len(),
    ensures
        pos <= ident_end(s, pos) <= s.len(),
    decreases s.len() - pos,
{
    if pos < s.len() && is_name_char(s[pos]) {
        lemma_ident_end(s, pos + 1);
    }
}

/// When a literal's body ends, the closing quote stands inside the input, at
/// or after the scan's start.
pub proof fn lemma_string_body_end(s: Seq<char>, pos: int, prev: char)
    requires
        0 <= pos,
    ensures
        match string_body_end(s, pos, prev) {
            Some(e) => pos <= e < s.len() && s[e] == '"',
            None => true,
        },
    decreases s.len() - pos,
{
    if 0 <= pos < s.len() && !(s[pos] == '"' && prev != '\\') {
        lemma_string_body_end(s, pos + 1, s[pos]);
    }
}

} // verus!
