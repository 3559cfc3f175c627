//! The tokens of the wire form: braces, colon, comma, `null`, numbers and
//! strings, with blanks between them.

use crate::number::{
    is_digit, lemma_decimal, lemma_scan_number_text, number_text, read_number, scan_number, Number,
};
use crate::text::{lemma_scan_string_text, read_string, scan_string, string_text};
use vstd::prelude::*;

verus! {

/// One token of the wire form.
#[derive(Clone, Debug, PartialEq, Eq)]
pub enum Token {
    BeginObject,
    EndObject,
    Colon,
    Comma,
    Null,
    Number(Number),
    Text(String),
}

/// The mathematical value of a [`Token`].
pub enum TokenView {
    BeginObject,
    EndObject,
    Colon,
    Comma,
    Null,
    Number(Number),
    Text(Seq<char>),
}

impl View for Token {
    type V = TokenView;

    open spec fn view(&self) -> TokenView {
        match self {
            Token::BeginObject => TokenView::BeginObject,
            Token::EndObject => TokenView::EndObject,
            Token::Colon => TokenView::Colon,
            Token::Comma => TokenView::Comma,
            Token::Null => TokenView::Null,
            Token::Number(n) => TokenView::Number(*n),
            Token::Text(s) => TokenView::Text(s@),
        }
    }
}

/// The values of a run of tokens.
pub open spec fn token_views(tokens: Seq<Token>) -> Seq<TokenView> {
    Seq::new(tokens.len(), |i: int| tokens[i]@)
}

/// Whether `b` is a blank: space, line feed, tab or carriage return.
pub open spec fn is_blank(b: u8) -> bool {
    b == 0x20 || b == 0x0A || b == 0x09 || b == 0x0D
}

/// The bytes `null`.
pub open spec fn null_text() -> Seq<u8> {
    seq![0x6Eu8, 0x75u8, 0x6Cu8, 0x6Cu8]
}

/// The wire form of one token.
pub open spec fn token_text(t: TokenView) -> Seq<u8> {
    match t {
        TokenView::BeginObject => seq![0x7Bu8],
        TokenView::EndObject => seq![0x7Du8],
        TokenView::Colon => seq![0x3Au8],
        TokenView::Comma => seq![0x2Cu8],
        TokenView::Null => null_text(),
        TokenView::Number(n) => number_text(n),
        TokenView::Text(s) => string_text(s),
    }
}

/// The wire form of a run of tokens: one after the other, with nothing
/// between them.
pub open spec fn tokens_text(ts: Seq<TokenView>) -> Seq<u8>
    decreases ts.len(),
{
    if ts.len() == 0 {
        Seq::empty()
    } else {
        token_text(ts[0]) + tokens_text(ts.skip(1))
    }
}

/// Reads one token from the front of `s`. Gives the token and the count of
/// bytes taken.
pub open spec fn scan_token(s: Seq<u8>) -> Option<(TokenView, nat)> {
    if s.len() == 0 {
        None
    } else if s[0] == 0x7B {
        Some((TokenView::BeginObject, 1nat))
    } else if s[0] == 0x7D {
        Some((TokenView::EndObject, 1nat))
    } else if s[0] == 0x3A {
        Some((TokenView::Colon, 1nat))
    } else if s[0] == 0x2C {
        Some((TokenView::Comma, 1nat))
    } else if s[0] == 0x6E {
        if s.len() >= 4 && s[1] == 0x75 && s[2] == 0x6C && s[3] == 0x6C {
            Some((TokenView::Null, 4nat))
        } else {
            None
        }
    } else if s[0] == 0x22 {
        match scan_string(s) {
            Some((text, n)) => Some((TokenView::Text(text), n)),
            None => None,
        }
    } else if s[0] == 0x2D || is_digit(s[0]) {
        match scan_number(s) {
            Some((number, n)) => Some((TokenView::Number(number), n)),
            None => None,
        }
    } else {
        None
    }
}

/// The tokens that `s` holds, blanks between them skipped, or `None` where a
/// byte starts no token.
pub open spec fn lex(s: Seq<u8>) -> Option<Seq<TokenView>>
    decreases s.len(),
{
    if s.len() == 0 {
        Some(Seq::empty())
    } else if is_blank(s[0]) {
        lex(s.skip(1))
    } else {
        match scan_token(s) {
            Some((t, n)) => if 0 < n <= s.len() {
                match lex(s.skip(n as int)) {
                    Some(rest) => Some(seq![t] + rest),
                    None => None,
                }
            } else {
                None
            },
            None => None,
        }
    }
}

/// Whether no number is directly followed by another one. In the wire form
/// of such a run, every number ends where its token ends.
pub open spec fn separable(ts: Seq<TokenView>) -> bool {
    forall|i: int|
        0 <= i < ts.len() - 1 && (#[trigger] ts[i]) is Number ==> !(ts[i + 1] is Number)
}

/// Reads one token at `pos`, where no blank stands. Gives the token and the
/// position behind it.
fn read_token(bytes: &[u8], pos: usize) -> (r: Option<(Token, usize)>)
    requires
        pos < bytes@.len(),
    ensures
        match scan_token(bytes@.skip(pos as int)) {
            Some((t, n)) => r matches Some((token, next)) && token@ == t && next == pos + n && 0
                < n && next <= bytes@.len(),
            None => r is None,
        },
{
    let ghost s = bytes@.skip(pos as int);
    let len = bytes.len();
    let b = bytes[pos];
    assert(s[0] == b);
    if b == 0x7B {
        Some((Token::BeginObject, pos + 1))
    } else if b == 0x7D {
        Some((Token::EndObject, pos + 1))
    } else if b == 0x3A {
        Some((Token::Colon, pos + 1))
    } else if b == 0x2C {
        Some((Token::Comma, pos + 1))
    } else if b == 0x6E {
        if len - pos >= 4 {
            assert(s[1] == bytes[pos + 1] && s[2] == bytes[pos + 2] && s[3] == bytes[pos + 3]);
            if bytes[pos + 1] == 0x75 && bytes[pos + 2] == 0x6C && bytes[pos + 3] == 0x6C {
                return Some((Token::Null, pos + 4));
            }
        }
        None
    } else if b == 0x22 {
        match read_string(bytes, pos) {
            Some((text, next)) => Some((Token::Text(text), next)),
            None => None,
        }
    } else if b == 0x2D || (0x30 <= b && b <= 0x39) {
        match read_number(bytes, pos) {
            Some((number, next)) => Some((Token::Number(number), next)),
            None => None,
        }
    } else {
        None
    }
}

/// Splits `bytes` into tokens.
pub fn tokenize(bytes: &[u8]) -> (r: Option<Vec<Token>>)
    ensures
        match lex(bytes@) {
            Some(ts) => r matches Some(tokens) && token_views(tokens@) == ts,
            None => r is None,
        },
{
    let len = bytes.len();
    let mut out: Vec<Token> = Vec::new();
    let mut i: usize = 0;
    assert(bytes@.skip(0) =~= bytes@);
    assert(token_views(out@) =~= Seq::<TokenView>::empty());
    while i < len
        invariant
            i <= len,
            len == bytes@.len(),
            lex(bytes@) == match lex(bytes@.skip(i as int)) {
                Some(rest) => Some(token_views(out@) + rest),
                None => None,
            },
        decreases len - i,
    {
        let ghost rest = bytes@.skip(i as int);
        let ghost before = token_views(out@);
        let b = bytes[i];
        assert(rest[0] == b);
        if b == 0x20 || b == 0x0A || b == 0x09 || b == 0x0D {
            assert(rest.skip(1) =~= bytes@.skip(i + 1));
            i += 1;
        } else {
            match read_token(bytes, i) {
                Some((token, next)) => {
                    assert(rest.skip(next - i) =~= bytes@.skip(next as int));
                    out.push(token);
                    proof {
                        assert(token_views(out@) =~= before + seq![token@]);
                        assert forall|r: Seq<TokenView>|
                            before + (seq![token@] + r) == token_views(out@) + r by {
                            assert(before + (seq![token@] + r) =~= token_views(out@) + r);
                        }
                    }
                    i = next;
                },
                None => {
                    return None;
                },
            }
        }
    }
    proof {
        assert(bytes@.skip(i as int).len() == 0);
        assert(token_views(out@) + Seq::<TokenView>::empty() =~= token_views(out@));
    }
    Some(out)
}

/// The wire form of two runs of tokens, one after the other.
pub proof fn lemma_tokens_text_concat(a: Seq<TokenView>, b: Seq<TokenView>)
    ensures
        tokens_text(a + b) == tokens_text(a) + tokens_text(b),
    decreases a.len(),
{
    if a.len() == 0 {
        assert(a + b =~= b);
        assert(tokens_text(a) + tokens_text(b) =~= tokens_text(b));
    } else {
        assert((a + b).skip(1) =~= a.skip(1) + b);
        assert((a + b)[0] == a[0]);
        lemma_tokens_text_concat(a.skip(1), b);
        assert(tokens_text(a + b) =~= tokens_text(a) + tokens_text(b));
    }
}

/// The wire form of a run of one token.
pub proof fn lemma_tokens_text_one(t: TokenView)
    ensures
        tokens_text(seq![t]) == token_text(t),
{
    assert(seq![t].skip(1) =~= Seq::<TokenView>::empty());
    assert(tokens_text(Seq::<TokenView>::empty()) =~= Seq::<u8>::empty());
    assert(seq![t][0] == t);
    assert(tokens_text(seq![t]) =~= token_text(t) + tokens_text(seq![t].skip(1)));
    assert(tokens_text(seq![t]) =~= token_text(t));
}

/// A token's wire form is not empty and starts with no blank; only a number
/// starts with a digit.
proof fn lemma_token_text_front(t: TokenView)
    ensures
        token_text(t).len() > 0,
        !is_blank(token_text(t)[0]),
        !(t is Number) ==> !is_digit(token_text(t)[0]),
{
    match t {
        TokenView::Number(n) => {
            lemma_decimal(n.magnitude as nat);
        },
        _ => {},
    }
}

/// A token's wire form reads back as the token, whatever follows it, as long
/// as no digit follows a number.
proof fn lemma_scan_token_text(t: TokenView, rest: Seq<u8>)
    requires
        t is Number ==> rest.len() == 0 || !is_digit(rest[0]),
    ensures
        scan_token(token_text(t) + rest) == Some((t, token_text(t).len())),
{
    let s = token_text(t) + rest;
    lemma_token_text_front(t);
    assert(s[0] == token_text(t)[0]);
    match t {
        TokenView::Number(n) => {
            lemma_decimal(n.magnitude as nat);
            lemma_scan_number_text(n, rest);
        },
        TokenView::Text(text) => {
            lemma_scan_string_text(text, rest);
        },
        TokenView::Null => {
            assert(s[1] == null_text()[1] && s[2] == null_text()[2] && s[3] == null_text()[3]);
        },
        _ => {},
    }
}

/// The wire form of a separable run of tokens splits back into the run.
pub proof fn lemma_lex_tokens_text(ts: Seq<TokenView>)
    requires
        separable(ts),
    ensures
        lex(tokens_text(ts)) == Some(ts),
    decreases ts.len(),
{
    if ts.len() == 0 {
    } else {
        let t = ts[0];
        let rest = tokens_text(ts.skip(1));
        let s = tokens_text(ts);
        lemma_token_text_front(t);
        if ts.len() > 1 {
            lemma_token_text_front(ts[1]);
            assert(ts.skip(1)[0] == ts[1]);
            assert(rest[0] == token_text(ts[1])[0]);
        }
        assert(s[0] == token_text(t)[0]);
        lemma_scan_token_text(t, rest);
        assert(s.skip(token_text(t).len() as int) =~= rest);
        assert(separable(ts.skip(1))) by {
            assert forall|i: int|
                0 <= i < ts.skip(1).len() - 1 && (#[trigger] ts.skip(1)[i]) is Number implies !(
            ts.skip(1)[i + 1] is Number) by {
                assert(ts.skip(1)[i] == ts[i + 1]);
            }
        }
        lemma_lex_tokens_text(ts.skip(1));
        assert(seq![t] + ts.skip(1) =~= ts);
    }
}

} // verus!
