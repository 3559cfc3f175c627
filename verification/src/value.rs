//! Values on the wire: `null`, numbers, strings, and objects whose members
//! are named values.

use crate::number::{push_number, Number};
use crate::text::push_string;
use crate::token::{
    lemma_lex_tokens_text, lemma_tokens_text_concat, lemma_tokens_text_one, lex, separable,
    token_text, token_views, tokenize, tokens_text, Token, TokenView,
};
use vstd::prelude::*;

verus! {

/// The members of an object, as mathematical values.
pub type Members = Seq<(Seq<char>, JsonValue)>;

/// A value of the wire form, as a mathematical value.
pub enum JsonValue {
    Null,
    Number(Number),
    Text(Seq<char>),
    Object(Seq<(Seq<char>, JsonValue)>),
}

/// A value of the wire form.
#[derive(Debug, PartialEq)]
pub enum Json {
    Null,
    Number(Number),
    Text(String),
    Object(Vec<(String, Json)>),
}

/// How deep objects may stand in objects.
pub const MAX_DEPTH: usize = 127;

impl Json {
    /// The mathematical value.
    pub open spec fn value(&self) -> JsonValue
        decreases self,
    {
        match self {
            Json::Null => JsonValue::Null,
            Json::Number(n) => JsonValue::Number(*n),
            Json::Text(s) => JsonValue::Text(s@),
            Json::Object(m) => JsonValue::Object(
                Seq::new(
                    m@.len(),
                    |i: int|
                        if 0 <= i < m@.len() {
                            (m@[i].0@, m@[i].1.value())
                        } else {
                            (Seq::empty(), JsonValue::Null)
                        },
                ),
            ),
        }
    }
}

impl View for Json {
    type V = JsonValue;

    open spec fn view(&self) -> JsonValue {
        self.value()
    }
}

/// The mathematical values of a run of members.
pub open spec fn members_view(m: Seq<(String, Json)>) -> Members {
    Seq::new(m.len(), |i: int| (m[i].0@, m[i].1.value()))
}

/// Whether objects stand in `v` at most `depth` deep.
pub open spec fn fits(v: JsonValue, depth: nat) -> bool
    decreases v,
{
    match v {
        JsonValue::Object(m) => depth > 0 && forall|i: int|
            0 <= i < m.len() ==> fits((#[trigger] m[i]).1, (depth - 1) as nat),
        _ => true,
    }
}

/// The tokens of a value.
pub open spec fn value_tokens(v: JsonValue) -> Seq<TokenView>
    decreases v, 0nat,
{
    match v {
        JsonValue::Null => seq![TokenView::Null],
        JsonValue::Number(n) => seq![TokenView::Number(n)],
        JsonValue::Text(s) => seq![TokenView::Text(s)],
        JsonValue::Object(m) => seq![TokenView::BeginObject] + rest_tokens(m, 0),
    }
}

/// The comma that stands before every member but the first.
pub open spec fn separator(j: int) -> Seq<TokenView> {
    if j > 0 {
        seq![TokenView::Comma]
    } else {
        Seq::empty()
    }
}

/// The tokens of the members from `j` on, each but the first of the object
/// behind a comma, and the closing brace.
pub open spec fn rest_tokens(m: Members, j: int) -> Seq<TokenView>
    decreases m, m.len() - j,
{
    if j < 0 || j >= m.len() {
        seq![TokenView::EndObject]
    } else {
        separator(j) + seq![TokenView::Text(m[j].0), TokenView::Colon] + value_tokens(m[j].1)
            + rest_tokens(m, j + 1)
    }
}

/// The wire form of a value: its tokens with nothing between them.
pub open spec fn value_text(v: JsonValue) -> Seq<u8> {
    tokens_text(value_tokens(v))
}

/// Adds `k` to the count of tokens taken.
pub open spec fn advance_members(r: Option<(Members, nat)>, k: nat) -> Option<(Members, nat)> {
    match r {
        Some((m, n)) => Some((m, n + k)),
        None => None,
    }
}

/// Reads a value from the front of `ts`, with objects at most `depth` deep.
/// Gives the value and the count of tokens taken.
pub open spec fn parse_value(ts: Seq<TokenView>, depth: nat) -> Option<(JsonValue, nat)>
    decreases ts.len(), 1nat,
{
    if ts.len() == 0 {
        None
    } else {
        match ts[0] {
            TokenView::Null => Some((JsonValue::Null, 1nat)),
            TokenView::Number(n) => Some((JsonValue::Number(n), 1nat)),
            TokenView::Text(s) => Some((JsonValue::Text(s), 1nat)),
            TokenView::BeginObject => if depth == 0 {
                None
            } else {
                match parse_members(ts.skip(1), (depth - 1) as nat, Seq::empty()) {
                    Some((m, n)) => Some((JsonValue::Object(m), n + 1)),
                    None => None,
                }
            },
            _ => None,
        }
    }
}

/// Reads the members of an object that follow those in `acc`, and the
/// closing brace. Every member but the first stands behind a comma. Gives
/// all the members and the count of tokens taken.
pub open spec fn parse_members(ts: Seq<TokenView>, depth: nat, acc: Members) -> Option<
    (Members, nat),
>
    decreases ts.len(), 0nat,
{
    let start: int = if acc.len() > 0 { 1 } else { 0 };
    if ts.len() == 0 {
        None
    } else if ts[0] is EndObject {
        Some((acc, 1nat))
    } else if acc.len() > 0 && !(ts[0] is Comma) {
        None
    } else if ts.len() < start + 2 {
        None
    } else if !(ts[start] is Text) || !(ts[start + 1] is Colon) {
        None
    } else {
        match parse_value(ts.skip(start + 2), depth) {
            Some((v, n)) => {
                let k = (start + 2 + n) as nat;
                if k <= ts.len() {
                    advance_members(
                        parse_members(
                            ts.skip(k as int),
                            depth,
                            acc.push((ts[start]->Text_0, v)),
                        ),
                        k,
                    )
                } else {
                    None
                }
            },
            None => None,
        }
    }
}

/// The value that the tokens `ts` make up, all of them, or `None` where
/// they make up no value.
pub open spec fn parse_tokens(ts: Seq<TokenView>) -> Option<JsonValue> {
    match parse_value(ts, MAX_DEPTH as nat) {
        Some((v, n)) => if n == ts.len() {
            Some(v)
        } else {
            None
        },
        None => None,
    }
}

/// The value that the bytes `s` hold, or `None` where they hold none.
pub open spec fn parse_text(s: Seq<u8>) -> Option<JsonValue> {
    match lex(s) {
        Some(ts) => parse_tokens(ts),
        None => None,
    }
}

/// Reads a value at `pos`. Gives the value and the position behind it.
fn parse_value_at(tokens: &Vec<Token>, pos: usize, depth: usize) -> (r: Option<(Json, usize)>)
    requires
        pos <= tokens@.len(),
    ensures
        match parse_value(token_views(tokens@).skip(pos as int), depth as nat) {
            Some((v, n)) => r matches Some((j, next)) && j.value() == v && next == pos + n && next
                <= tokens@.len(),
            None => r is None,
        },
    decreases tokens@.len() - pos, 1nat,
{
    let ghost tv = token_views(tokens@);
    let ghost ts = tv.skip(pos as int);
    let len = tokens.len();
    if pos >= len {
        return None;
    }
    assert(ts[0] == tokens@[pos as int]@);
    match &tokens[pos] {
        Token::Null => Some((Json::Null, pos + 1)),
        Token::Number(n) => Some((Json::Number(*n), pos + 1)),
        Token::Text(s) => Some((Json::Text(s.clone()), pos + 1)),
        Token::BeginObject => {
            if depth == 0 {
                return None;
            }
            assert(ts.skip(1) =~= tv.skip(pos + 1));
            match parse_members_at(tokens, pos + 1, depth - 1) {
                Some((members, next)) => {
                    let j = Json::Object(members);
                    assert(j.value()->Object_0 =~= members_view(members@));
                    Some((j, next))
                },
                None => None,
            }
        },
        _ => None,
    }
}

/// Reads the members of an object and its closing brace from `pos` on.
/// Gives the members and the position behind the brace.
fn parse_members_at(tokens: &Vec<Token>, pos: usize, depth: usize) -> (r: Option<
    (Vec<(String, Json)>, usize),
>)
    requires
        pos <= tokens@.len(),
    ensures
        match parse_members(
            token_views(tokens@).skip(pos as int),
            depth as nat,
            Seq::empty(),
        ) {
            Some((m, n)) => r matches Some((members, next)) && members_view(members@) == m && next
                == pos + n && next <= tokens@.len(),
            None => r is None,
        },
    decreases tokens@.len() - pos, 0nat,
{
    let ghost tv = token_views(tokens@);
    let ghost whole = parse_members(tv.skip(pos as int), depth as nat, Seq::empty());
    let len = tokens.len();
    let mut out: Vec<(String, Json)> = Vec::new();
    let mut i: usize = pos;
    assert(members_view(out@) =~= Seq::empty());
    loop
        invariant
            pos <= i <= len,
            len == tokens@.len(),
            tv == token_views(tokens@),
            whole == parse_members(tv.skip(pos as int), depth as nat, Seq::empty()),
            whole == advance_members(
                parse_members(tv.skip(i as int), depth as nat, members_view(out@)),
                (i - pos) as nat,
            ),
        decreases len - i,
    {
        let ghost ts = tv.skip(i as int);
        let ghost acc = members_view(out@);
        if i >= len {
            return None;
        }
        assert(ts[0] == tokens@[i as int]@);
        if let Token::EndObject = &tokens[i] {
            return Some((out, i + 1));
        }
        let start: usize = if out.len() > 0 { 1 } else { 0 };
        if out.len() > 0 {
            match &tokens[i] {
                Token::Comma => {},
                _ => {
                    return None;
                },
            }
        }
        if len - i < start + 2 {
            return None;
        }
        assert(ts[start as int] == tokens@[i + start]@);
        assert(ts[start + 1] == tokens@[i + start + 1]@);
        let key: String = match &tokens[i + start] {
            Token::Text(s) => s.clone(),
            _ => {
                return None;
            },
        };
        match &tokens[i + start + 1] {
            Token::Colon => {},
            _ => {
                return None;
            },
        }
        assert(ts.skip(start + 2) =~= tv.skip(i + start + 2));
        match parse_value_at(tokens, i + start + 2, depth) {
            Some((value, next)) => {
                assert(ts.skip(next - i) =~= tv.skip(next as int));
                out.push((key, value));
                assert(members_view(out@) =~= acc.push((key@, value.value())));
                i = next;
            },
            None => {
                return None;
            },
        }
    }
}

/// Reads the value that `bytes` hold.
pub fn parse(bytes: &[u8]) -> (r: Option<Json>)
    ensures
        match parse_text(bytes@) {
            Some(v) => r matches Some(j) && j.value() == v,
            None => r is None,
        },
{
    let tokens = match tokenize(bytes) {
        Some(tokens) => tokens,
        None => {
            return None;
        },
    };
    assert(token_views(tokens@).skip(0) =~= token_views(tokens@));
    match parse_value_at(&tokens, 0, MAX_DEPTH) {
        Some((j, next)) => if next == tokens.len() {
            Some(j)
        } else {
            None
        },
        None => None,
    }
}

/// The wire form of the members from `j` on, taken apart at the front.
proof fn lemma_rest_text(m: Members, j: int)
    requires
        0 <= j < m.len(),
    ensures
        tokens_text(rest_tokens(m, j)) == tokens_text(separator(j)) + token_text(
            TokenView::Text(m[j].0),
        ) + token_text(TokenView::Colon) + value_text(m[j].1) + tokens_text(
            rest_tokens(m, j + 1),
        ),
{
    let key = seq![TokenView::Text(m[j].0)];
    let colon = seq![TokenView::Colon];
    let value = value_tokens(m[j].1);
    let rest = rest_tokens(m, j + 1);
    assert(rest_tokens(m, j) =~= separator(j) + (key + (colon + (value + rest))));
    lemma_tokens_text_concat(separator(j), key + (colon + (value + rest)));
    lemma_tokens_text_concat(key, colon + (value + rest));
    lemma_tokens_text_concat(colon, value + rest);
    lemma_tokens_text_concat(value, rest);
    lemma_tokens_text_one(TokenView::Text(m[j].0));
    lemma_tokens_text_one(TokenView::Colon);
    assert(tokens_text(rest_tokens(m, j)) =~= tokens_text(separator(j)) + token_text(
        TokenView::Text(m[j].0),
    ) + token_text(TokenView::Colon) + value_text(m[j].1) + tokens_text(rest_tokens(m, j + 1)));
}

/// Appends the wire form of `j` to `out`.
pub fn write_value(out: &mut Vec<u8>, j: &Json)
    ensures
        final(out)@ == old(out)@ + value_text(j.value()),
    decreases j,
{
    let ghost before = out@;
    match j {
        Json::Null => {
            out.push(0x6E);
            out.push(0x75);
            out.push(0x6C);
            out.push(0x6C);
            proof {
                lemma_tokens_text_one(TokenView::Null);
                assert(out@ =~= before + value_text(j.value()));
            }
        },
        Json::Number(n) => {
            push_number(out, *n);
            proof {
                lemma_tokens_text_one(TokenView::Number(*n));
            }
        },
        Json::Text(s) => {
            push_string(out, s.as_str());
            proof {
                lemma_tokens_text_one(TokenView::Text(s@));
            }
        },
        Json::Object(members) => {
            let ghost m = j.value()->Object_0;
            assert(m =~= members_view(members@));
            out.push(0x7B);
            proof {
                lemma_tokens_text_concat(seq![TokenView::BeginObject], rest_tokens(m, 0));
                lemma_tokens_text_one(TokenView::BeginObject);
            }
            let mut i: usize = 0;
            while i < members.len()
                invariant
                    i <= members@.len(),
                    *j == Json::Object(*members),
                    m == members_view(members@),
                    before + value_text(j.value()) == out@ + tokens_text(rest_tokens(m, i as int)),
                decreases members.len() - i,
            {
                let ghost at_top = out@;
                let member = &members[i];
                proof {
                    lemma_rest_text(m, i as int);
                    lemma_tokens_text_one(TokenView::Comma);
                    assert(tokens_text(Seq::<TokenView>::empty()) =~= Seq::<u8>::empty());
                    assert(members@[i as int] == *member);
                    assert(decreases_to!(*j => j->Object_0));
                    assert(decreases_to!(*members => members@));
                    assert(decreases_to!(members@ => members@[i as int]));
                    assert(decreases_to!(members@[i as int] => members@[i as int].1));
                }
                if i > 0 {
                    out.push(0x2C);
                }
                push_string(out, member.0.as_str());
                out.push(0x3A);
                write_value(out, &member.1);
                proof {
                    assert(out@ =~= at_top + tokens_text(separator(i as int)) + token_text(
                        TokenView::Text(m[i as int].0),
                    ) + token_text(TokenView::Colon) + value_text(m[i as int].1));
                    assert(at_top + tokens_text(rest_tokens(m, i as int)) =~= out@ + tokens_text(
                        rest_tokens(m, i + 1),
                    ));
                }
                i += 1;
            }
            out.push(0x7D);
            proof {
                lemma_tokens_text_one(TokenView::EndObject);
                assert(out@ =~= before + value_text(j.value()));
            }
        },
    }
}

/// The wire form of `j`.
pub fn to_text(j: &Json) -> (bytes: Vec<u8>)
    ensures
        bytes@ == value_text(j.value()),
{
    let mut out: Vec<u8> = Vec::new();
    write_value(&mut out, j);
    assert(out@ =~= value_text(j.value()));
    out
}

/// Two separable runs make a separable run where no number ends the first
/// and starts the second.
proof fn lemma_separable_concat(a: Seq<TokenView>, b: Seq<TokenView>)
    requires
        separable(a),
        separable(b),
        a.len() == 0 || b.len() == 0 || !(a.last() is Number) || !(b[0] is Number),
    ensures
        separable(a + b),
{
    let c = a + b;
    assert forall|i: int| 0 <= i < c.len() - 1 && (#[trigger] c[i]) is Number implies !(c[i
        + 1] is Number) by {
        if i < a.len() - 1 {
            assert(c[i] == a[i] && c[i + 1] == a[i + 1]);
        } else if i == a.len() - 1 {
            assert(c[i] == a.last() && c[i + 1] == b[0]);
        } else {
            assert(c[i] == b[i - a.len()] && c[i + 1] == b[i - a.len() + 1]);
        }
    }
}

/// The tokens of a value are separable; those of an object end with its
/// closing brace.
proof fn lemma_value_tokens_shape(v: JsonValue)
    ensures
        separable(value_tokens(v)),
        value_tokens(v).len() > 0,
        v is Object ==> value_tokens(v).last() is EndObject,
    decreases v, 0nat,
{
    match v {
        JsonValue::Object(m) => {
            lemma_rest_tokens_shape(m, 0);
            lemma_separable_concat(seq![TokenView::BeginObject], rest_tokens(m, 0));
        },
        _ => {},
    }
}

/// The tokens of the members from `j` on are separable, start with no
/// number and end with the closing brace.
proof fn lemma_rest_tokens_shape(m: Members, j: int)
    requires
        0 <= j <= m.len(),
    ensures
        separable(rest_tokens(m, j)),
        rest_tokens(m, j).len() > 0,
        !(rest_tokens(m, j)[0] is Number),
        rest_tokens(m, j).last() is EndObject,
    decreases m, m.len() - j,
{
    if j < m.len() {
        let head = separator(j) + seq![TokenView::Text(m[j].0), TokenView::Colon];
        let value = value_tokens(m[j].1);
        let rest = rest_tokens(m, j + 1);
        lemma_value_tokens_shape(m[j].1);
        lemma_rest_tokens_shape(m, j + 1);
        assert(forall|i: int| 0 <= i < head.len() ==> !(#[trigger] head[i] is Number));
        assert(separable(head));
        assert(head.len() > 0 && !(head.last() is Number));
        lemma_separable_concat(head, value);
        let front = head + value;
        assert(front.last() == value.last());
        assert(m[j].1 is Object || value.len() == 1);
        assert(!(rest[0] is Number));
        lemma_separable_concat(front, rest);
        assert(rest_tokens(m, j) =~= front + rest);
        assert((front + rest)[0] == head[0]);
        assert((front + rest).last() == rest.last());
    }
}

/// The tokens of a value read back as the value, whatever follows them.
proof fn lemma_parse_value_tokens(v: JsonValue, rest: Seq<TokenView>, depth: nat)
    requires
        fits(v, depth),
    ensures
        parse_value(value_tokens(v) + rest, depth) == Some((v, value_tokens(v).len())),
    decreases v, 0nat,
{
    let ts = value_tokens(v) + rest;
    assert(ts[0] == value_tokens(v)[0]);
    match v {
        JsonValue::Object(m) => {
            assert(ts.skip(1) =~= rest_tokens(m, 0) + rest);
            assert(m.take(0) =~= Seq::empty());
            lemma_parse_rest_tokens(m, 0, rest, (depth - 1) as nat);
        },
        _ => {},
    }
}

/// The tokens of the members from `j` on read back as those members, after
/// the ones before them.
proof fn lemma_parse_rest_tokens(m: Members, j: int, rest: Seq<TokenView>, depth: nat)
    requires
        0 <= j <= m.len(),
        forall|i: int| 0 <= i < m.len() ==> fits((#[trigger] m[i]).1, depth),
    ensures
        parse_members(rest_tokens(m, j) + rest, depth, m.take(j)) == Some(
            (m, rest_tokens(m, j).len()),
        ),
    decreases m, m.len() - j,
{
    let ts = rest_tokens(m, j) + rest;
    lemma_rest_tokens_shape(m, j);
    assert(ts[0] == rest_tokens(m, j)[0]);
    if j >= m.len() {
        assert(m.take(j) =~= m);
    } else {
        let start: int = if j > 0 { 1 } else { 0 };
        let value = value_tokens(m[j].1);
        let tail = rest_tokens(m, j + 1) + rest;
        let head = separator(j) + seq![TokenView::Text(m[j].0), TokenView::Colon];
        assert(m[j] == (m[j].0, m[j].1));
        assert(ts =~= head + (value + tail));
        assert(head.len() == start + 2);
        assert(forall|i: int| 0 <= i < head.len() ==> ts[i] == head[i]);
        assert(ts.skip(start + 2) =~= value + tail);
        lemma_parse_value_tokens(m[j].1, tail, depth);
        let k = start + 2 + value.len();
        assert(ts.skip(k as int) =~= tail);
        assert(m.take(j).push((m[j].0, m[j].1)) =~= m.take(j + 1));
        lemma_parse_rest_tokens(m, j + 1, rest, depth);
        assert(rest_tokens(m, j).len() == k + rest_tokens(m, j + 1).len());
    }
}

/// The wire form of a value reads back as the value, where its objects are
/// not too deep.
pub proof fn lemma_parse_value_text(v: JsonValue)
    requires
        fits(v, MAX_DEPTH as nat),
    ensures
        parse_text(value_text(v)) == Some(v),
{
    lemma_value_tokens_shape(v);
    lemma_lex_tokens_text(value_tokens(v));
    lemma_parse_value_tokens(v, Seq::empty(), MAX_DEPTH as nat);
    assert(value_tokens(v) + Seq::<TokenView>::empty() =~= value_tokens(v));
}

} // verus!
