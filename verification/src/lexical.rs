//! What may be shown to the parser.
//!
//! The parser sorts every literal that it meets by its first characters and
//! panics on a kind that it does not know. The lexer under it knows more
//! kinds: literals that start with `c`, and a marker for an error that it
//! hands out as a literal in parentheses. So a text is looked through before
//! the parser sees it, level by level, and shown only if every literal in it
//! is of a known kind.
//!
//! The inside of an attribute is passed over: the parser takes what stands
//! in the brackets behind a `#` as tokens and reads no literal there.
//!
//! The functions here that take a text ask the lexer, and with that switch
//! `proc-macro2` to its own lexer for the whole process and leave it so.

use vstd::prelude::*;
use crate::syntax::{lex, lexed, TokenShape, TokenShapeView};

verus! {

/// The literal is of a kind that the parser knows: a string, a raw string,
/// a character, a number, or a byte string, raw byte string or byte.
pub open spec fn known_literal(text: Seq<char>) -> bool {
    &&& text.len() > 0
    &&& {
        ||| text[0] == '"'
        ||| text[0] == '\''
        ||| text[0] == 'r'
        ||| '0' <= text[0] <= '9'
        ||| text[0] == 'b' && text.len() > 1 && (text[1] == '"' || text[1] == 'r' || text[1]
            == '\'')
    }
}

/// The token at `at` is the bracket group of an attribute: a `#` stands in
/// front of it.
pub open spec fn attribute_at(tokens: Seq<TokenShapeView>, at: int) -> bool {
    &&& 0 < at < tokens.len()
    &&& tokens[at] is Bracket
    &&& tokens[at - 1] == TokenShapeView::Punct('#')
}

/// What stands inside a group; nothing for a token that is no group.
pub open spec fn inside(token: TokenShapeView) -> Seq<char> {
    match token {
        TokenShapeView::Bracket(inner) => inner,
        TokenShapeView::Brace(inner) => inner,
        TokenShapeView::Parenthesis(inner) => inner,
        TokenShapeView::Unmarked(inner) => inner,
        _ => Seq::empty(),
    }
}

/// The token at `at` is a group that has to be looked into: any group but
/// the brackets of an attribute.
pub open spec fn entered(tokens: Seq<TokenShapeView>, at: int) -> bool {
    match tokens[at] {
        TokenShapeView::Literal(_) => false,
        TokenShapeView::Punct(_) => false,
        TokenShapeView::Ident => false,
        _ => !attribute_at(tokens, at),
    }
}

/// The token is no literal of an unknown kind.
pub open spec fn token_known(token: TokenShapeView) -> bool {
    token matches TokenShapeView::Literal(text) ==> known_literal(text)
}

/// Every literal in `text` is of a known kind, the inside of attributes
/// passed over, and no group that is looked into stands deeper than `depth`
/// groups down. False where `text` does not lex.
pub open spec fn readable(text: Seq<char>, depth: nat) -> bool
    decreases depth,
{
    match lexed(text) {
        None => false,
        Some(tokens) => forall|at: int|
            0 <= at < tokens.len() ==> token_known(#[trigger] tokens[at]) && (entered(tokens, at)
                ==> depth > 0 && readable(inside(tokens[at]), (depth - 1) as nat)),
    }
}

/// The token at `at` stands in no way of the text being [`readable`].
pub open spec fn token_readable(tokens: Seq<TokenShapeView>, at: int, depth: nat) -> bool {
    token_known(tokens[at]) && (entered(tokens, at) ==> depth > 0 && readable(
        inside(tokens[at]),
        (depth - 1) as nat,
    ))
}

/// The text may be shown to the parser. The depth to which it is looked
/// through is its length: every group takes up some of the text, so no text
/// holds more groups than it has characters.
pub open spec fn safe(text: Seq<char>) -> bool {
    readable(text, text.len())
}

/// Whether a literal is of a kind that the parser knows.
pub fn literal_is_known(literal: &str) -> (known: bool)
    ensures
        known == known_literal(literal@),
{
    let length = literal.unicode_len();
    if length == 0 {
        return false;
    }
    let first = literal.get_char(0);
    if first == '"' || first == '\'' || first == 'r' || ('0' <= first && first <= '9') {
        return true;
    }
    if first == 'b' && length > 1 {
        let second = literal.get_char(1);
        return second == '"' || second == 'r' || second == '\'';
    }
    false
}

/// Whether the inside of a group may be shown to the parser, `depth` being
/// what is left for the group's own level.
fn group_is_readable(inner: &str, depth: usize) -> (ok: bool)
    ensures
        ok == (depth > 0 && readable(inner@, (depth - 1) as nat)),
    decreases depth, 0nat,
{
    if depth == 0 {
        false
    } else {
        is_readable(inner, depth - 1)
    }
}

/// Whether every literal in `text` is of a known kind, down to `depth`
/// groups one inside the other.
///
/// Leaves `proc-macro2` switched to its own lexer.
pub fn is_readable(text: &str, depth: usize) -> (ok: bool)
    ensures
        ok == readable(text@, depth as nat),
    decreases depth, 1nat,
{
    let tokens = match lex(text) {
        Some(tokens) => tokens,
        None => { return false; },
    };
    let ghost views = lexed(text@)->0;
    let mut after_pound = false;
    let mut at: usize = 0;
    while at < tokens.len()
        invariant
            at <= tokens.len(),
            lexed(text@) == Some(views),
            views.len() == tokens.len(),
            forall|j: int| 0 <= j < tokens.len() ==> views[j] == (#[trigger] tokens[j])@,
            after_pound == (at > 0 && views[at - 1] == TokenShapeView::Punct('#')),
            forall|j: int| 0 <= j < at ==> #[trigger] token_readable(views, j, depth as nat),
        decreases tokens.len() - at,
    {
        let ok = match &tokens[at] {
            TokenShape::Literal(literal) => literal_is_known(literal.as_str()),
            TokenShape::Punct(_) => true,
            TokenShape::Ident => true,
            TokenShape::Bracket(inner) => after_pound || group_is_readable(inner.as_str(), depth),
            TokenShape::Brace(inner) => group_is_readable(inner.as_str(), depth),
            TokenShape::Parenthesis(inner) => group_is_readable(inner.as_str(), depth),
            TokenShape::Unmarked(inner) => group_is_readable(inner.as_str(), depth),
        };
        assert(ok == token_readable(views, at as int, depth as nat));
        if !ok {
            assert(!token_readable(lexed(text@)->Some_0, at as int, depth as nat));
            return false;
        }
        after_pound = match &tokens[at] {
            TokenShape::Punct(mark) => *mark == '#',
            _ => false,
        };
        at += 1;
    }
    assert forall|j: int| 0 <= j < views.len() implies token_known(#[trigger] views[j]) && (entered(
        views,
        j,
    ) ==> depth > 0 && readable(inside(views[j]), (depth - 1) as nat)) by {
        assert(token_readable(views, j, depth as nat));
    }
    true
}

/// Whether `text` may be shown to the parser.
///
/// Leaves `proc-macro2` switched to its own lexer.
pub fn is_safe(text: &str) -> (ok: bool)
    ensures
        ok == safe(text@),
{
    is_readable(text, text.unicode_len())
}

/// Whether `text` is one literal and nothing else.
pub open spec fn sole_literal(text: Seq<char>) -> bool {
    lexed(text) matches Some(tokens) && tokens.len() == 1 && tokens[0] is Literal
}

/// Whether `text` is one literal and nothing else, of whatever kind.
///
/// Leaves `proc-macro2` switched to its own lexer.
pub fn is_sole_literal(text: &str) -> (sole: bool)
    ensures
        sole == sole_literal(text@),
{
    match lex(text) {
        Some(tokens) => {
            if tokens.len() == 1 {
                assert(lexed(text@)->0[0] == tokens[0]@);
                match &tokens[0] {
                    TokenShape::Literal(_) => true,
                    _ => false,
                }
            } else {
                false
            }
        },
        None => false,
    }
}

} // verus!
