//! Strings on the wire: UTF-8 between double quotes, with backslash escapes.

use vstd::prelude::*;
use vstd::utf8::*;

verus! {

/// The upper-case hexadecimal digit of `n`, for `n` below 16.
pub open spec fn hex_digit(n: u8) -> u8 {
    if n <= 9 {
        (0x30 + n) as u8
    } else {
        (0x41 + (n - 10)) as u8
    }
}

/// The value of a hexadecimal digit of either case.
pub open spec fn hex_value(b: u8) -> Option<u32> {
    if 0x30 <= b && b <= 0x39 {
        Some((b - 0x30) as u32)
    } else if 0x41 <= b && b <= 0x46 {
        Some((b - 0x41 + 10) as u32)
    } else if 0x61 <= b && b <= 0x66 {
        Some((b - 0x61 + 10) as u32)
    } else {
        None
    }
}

/// The value of the four hexadecimal digits at the front of `s`.
pub open spec fn hex4(s: Seq<u8>) -> Option<u32> {
    if s.len() >= 4 && hex_value(s[0]) is Some && hex_value(s[1]) is Some && hex_value(
        s[2],
    ) is Some && hex_value(s[3]) is Some {
        Some(
            (((hex_value(s[0])->0 * 16 + hex_value(s[1])->0) * 16 + hex_value(s[2])->0) * 16
                + hex_value(s[3])->0) as u32,
        )
    } else {
        None
    }
}

/// How one byte of a string's UTF-8 form stands between the quotes.
pub open spec fn escape_byte(b: u8) -> Seq<u8> {
    if b == 0x22 {
        seq![0x5Cu8, 0x22u8]
    } else if b == 0x5C {
        seq![0x5Cu8, 0x5Cu8]
    } else if b == 0x08 {
        seq![0x5Cu8, 0x62u8]
    } else if b == 0x09 {
        seq![0x5Cu8, 0x74u8]
    } else if b == 0x0A {
        seq![0x5Cu8, 0x6Eu8]
    } else if b == 0x0C {
        seq![0x5Cu8, 0x66u8]
    } else if b == 0x0D {
        seq![0x5Cu8, 0x72u8]
    } else if b < 0x20 {
        seq![0x5Cu8, 0x75u8, 0x30u8, 0x30u8, hex_digit(b / 16), hex_digit(b % 16)]
    } else {
        seq![b]
    }
}

/// The escaped form of a run of bytes.
pub open spec fn escape(bytes: Seq<u8>) -> Seq<u8>
    decreases bytes.len(),
{
    if bytes.len() == 0 {
        Seq::empty()
    } else {
        escape(bytes.drop_last()) + escape_byte(bytes.last())
    }
}

/// The wire form of a string: its UTF-8 form, escaped, between double
/// quotes.
pub open spec fn string_text(s: Seq<char>) -> Seq<u8> {
    seq![0x22u8] + escape(encode_utf8(s)) + seq![0x22u8]
}

/// The byte that a one-letter escape stands for.
pub open spec fn simple_escape(b: u8) -> Option<u8> {
    if b == 0x22 || b == 0x2F || b == 0x5C {
        Some(b)
    } else if b == 0x62 {
        Some(0x08u8)
    } else if b == 0x66 {
        Some(0x0Cu8)
    } else if b == 0x6E {
        Some(0x0Au8)
    } else if b == 0x72 {
        Some(0x0Du8)
    } else if b == 0x74 {
        Some(0x09u8)
    } else {
        None
    }
}

/// Reads a `\u` escape at the front of `s`, which starts with the backslash.
/// A high surrogate must be followed at once by the escape of a low one, and
/// the two give one scalar; a low surrogate alone is refused. Gives the
/// scalar and the count of bytes taken.
pub open spec fn scan_unicode_escape(s: Seq<u8>) -> Option<(u32, nat)> {
    match hex4(s.skip(2)) {
        None => None,
        Some(first) => {
            if 0xD800 <= first && first <= 0xDBFF {
                if s.len() >= 8 && s[6] == 0x5C && s[7] == 0x75 {
                    match hex4(s.skip(8)) {
                        Some(second) => {
                            if 0xDC00 <= second && second <= 0xDFFF {
                                Some(
                                    (
                                        (0x10000 + (first - 0xD800) * 0x400 + (second
                                            - 0xDC00)) as u32,
                                        12nat,
                                    ),
                                )
                            } else {
                                None
                            }
                        },
                        None => None,
                    }
                } else {
                    None
                }
            } else if 0xDC00 <= first && first <= 0xDFFF {
                None
            } else {
                Some((first, 6nat))
            }
        },
    }
}

/// Adds `k` to the count of bytes taken.
pub open spec fn advance(r: Option<(Seq<u8>, nat)>, k: nat) -> Option<(Seq<u8>, nat)> {
    match r {
        Some((bytes, n)) => Some((bytes, n + k)),
        None => None,
    }
}

/// Reads one piece of content at the front of `s`: a plain byte or an
/// escape. A control byte and an unknown escape are refused. Gives the bytes
/// that the piece stands for and the count of bytes taken.
pub open spec fn scan_piece(s: Seq<u8>) -> Option<(Seq<u8>, nat)> {
    if s.len() == 0 || s[0] < 0x20 {
        None
    } else if s[0] != 0x5C {
        Some((seq![s[0]], 1nat))
    } else if s.len() < 2 {
        None
    } else if simple_escape(s[1]) is Some {
        Some((seq![simple_escape(s[1])->0], 2nat))
    } else if s[1] == 0x75 {
        match scan_unicode_escape(s) {
            Some((scalar, n)) => Some((encode_scalar(scalar), n)),
            None => None,
        }
    } else {
        None
    }
}

/// Reads what follows an opening quote, up to the closing quote, onto `acc`.
/// A missing closing quote is refused. Gives the unescaped bytes and the
/// count of bytes taken, the closing quote included.
pub open spec fn scan_string_body(s: Seq<u8>, acc: Seq<u8>) -> Option<(Seq<u8>, nat)>
    decreases s.len(),
{
    if s.len() == 0 {
        None
    } else if s[0] == 0x22 {
        Some((acc, 1))
    } else {
        match scan_piece(s) {
            Some((piece, n)) => if 0 < n <= s.len() {
                advance(scan_string_body(s.skip(n as int), acc + piece), n)
            } else {
                None
            },
            None => None,
        }
    }
}

/// Reads a string from the front of `s`: a double quote, the content, a
/// double quote. The unescaped content must be UTF-8. Gives the string and
/// the count of bytes taken.
pub open spec fn scan_string(s: Seq<u8>) -> Option<(Seq<char>, nat)> {
    if s.len() > 0 && s[0] == 0x22 {
        match scan_string_body(s.skip(1), Seq::empty()) {
            Some((bytes, n)) => if valid_utf8(bytes) {
                Some((decode_utf8(bytes), n + 1))
            } else {
                None
            },
            None => None,
        }
    } else {
        None
    }
}

/// `String::from_utf8` of std: the string that `bytes` encode, if they are
/// UTF-8, and `None` if they are not.
#[verifier::external_body]
fn string_from_utf8(bytes: Vec<u8>) -> (r: Option<String>)
    ensures
        r is Some <==> valid_utf8(bytes@),
        r matches Some(s) ==> s@ == decode_utf8(bytes@),
{
    String::from_utf8(bytes).ok()
}

fn hex_digit_of(n: u8) -> (d: u8)
    requires
        n < 16,
    ensures
        d == hex_digit(n),
{
    if n <= 9 {
        0x30 + n
    } else {
        0x41 + (n - 10)
    }
}

fn hex_value_of(b: u8) -> (v: Option<u32>)
    ensures
        v == hex_value(b),
        v matches Some(x) ==> x < 16,
{
    if 0x30 <= b && b <= 0x39 {
        Some((b - 0x30) as u32)
    } else if 0x41 <= b && b <= 0x46 {
        Some((b - 0x41 + 10) as u32)
    } else if 0x61 <= b && b <= 0x66 {
        Some((b - 0x61 + 10) as u32)
    } else {
        None
    }
}

fn read_hex4(bytes: &[u8], pos: usize) -> (v: Option<u32>)
    requires
        pos <= bytes@.len(),
    ensures
        v == hex4(bytes@.skip(pos as int)),
        v matches Some(x) ==> x <= 0xFFFF && pos + 4 <= bytes@.len(),
{
    let ghost s = bytes@.skip(pos as int);
    if bytes.len() - pos < 4 {
        return None;
    }
    assert(s[0] == bytes[pos as int] && s[1] == bytes[pos + 1] && s[2] == bytes[pos + 2] && s[3]
        == bytes[pos + 3]);
    match (
        hex_value_of(bytes[pos]),
        hex_value_of(bytes[pos + 1]),
        hex_value_of(bytes[pos + 2]),
        hex_value_of(bytes[pos + 3]),
    ) {
        (Some(a), Some(b), Some(c), Some(d)) => Some(((a * 16 + b) * 16 + c) * 16 + d),
        _ => None,
    }
}

fn read_unicode_escape(bytes: &[u8], pos: usize) -> (r: Option<(u32, usize)>)
    requires
        pos + 2 <= bytes@.len(),
    ensures
        match scan_unicode_escape(bytes@.skip(pos as int)) {
            Some((scalar, n)) => r == Some((scalar, (pos + n) as usize)) && pos + n
                <= bytes@.len() && is_scalar(scalar),
            None => r is None,
        },
{
    let ghost s = bytes@.skip(pos as int);
    let len = bytes.len();
    assert(s.skip(2) =~= bytes@.skip(pos + 2));
    let first = match read_hex4(bytes, pos + 2) {
        Some(v) => v,
        None => { return None; },
    };
    if 0xD800 <= first && first <= 0xDBFF {
        if len - pos < 8 {
            return None;
        }
        assert(s[6] == bytes[pos + 6] && s[7] == bytes[pos + 7]);
        if bytes[pos + 6] != 0x5C || bytes[pos + 7] != 0x75 {
            return None;
        }
        assert(s.skip(8) =~= bytes@.skip(pos + 8));
        let second = match read_hex4(bytes, pos + 8) {
            Some(v) => v,
            None => { return None; },
        };
        if 0xDC00 <= second && second <= 0xDFFF {
            Some((0x10000 + (first - 0xD800) * 0x400 + (second - 0xDC00), pos + 12))
        } else {
            None
        }
    } else if 0xDC00 <= first && first <= 0xDFFF {
        None
    } else {
        Some((first, pos + 6))
    }
}

/// Appends the UTF-8 form of one scalar to `out`.
fn push_scalar(out: &mut Vec<u8>, scalar: u32)
    requires
        is_scalar(scalar),
    ensures
        final(out)@ == old(out)@ + encode_scalar(scalar),
{
    if scalar <= 0x7F {
        out.push((scalar & 0x7F) as u8);
        assert(final(out)@ =~= old(out)@ + encode_scalar(scalar));
    } else if scalar <= 0x7FF {
        out.push(0xC0 | ((scalar >> 6) & 0x1F) as u8);
        out.push(0x80 | (scalar & 0x3F) as u8);
        assert(final(out)@ =~= old(out)@ + encode_scalar(scalar));
    } else if scalar <= 0xFFFF {
        out.push(0xE0 | ((scalar >> 12) & 0x0F) as u8);
        out.push(0x80 | ((scalar >> 6) & 0x3F) as u8);
        out.push(0x80 | (scalar & 0x3F) as u8);
        assert(final(out)@ =~= old(out)@ + encode_scalar(scalar));
    } else {
        out.push(0xF0 | ((scalar >> 18) & 0x7) as u8);
        out.push(0x80 | ((scalar >> 12) & 0x3F) as u8);
        out.push(0x80 | ((scalar >> 6) & 0x3F) as u8);
        out.push(0x80 | (scalar & 0x3F) as u8);
        assert(final(out)@ =~= old(out)@ + encode_scalar(scalar));
    }
}

/// Appends the escaped form of one byte to `out`.
fn push_escaped(out: &mut Vec<u8>, b: u8)
    ensures
        final(out)@ == old(out)@ + escape_byte(b),
{
    if b == 0x22 {
        out.push(0x5C);
        out.push(0x22);
    } else if b == 0x5C {
        out.push(0x5C);
        out.push(0x5C);
    } else if b == 0x08 {
        out.push(0x5C);
        out.push(0x62);
    } else if b == 0x09 {
        out.push(0x5C);
        out.push(0x74);
    } else if b == 0x0A {
        out.push(0x5C);
        out.push(0x6E);
    } else if b == 0x0C {
        out.push(0x5C);
        out.push(0x66);
    } else if b == 0x0D {
        out.push(0x5C);
        out.push(0x72);
    } else if b < 0x20 {
        out.push(0x5C);
        out.push(0x75);
        out.push(0x30);
        out.push(0x30);
        out.push(hex_digit_of(b / 16));
        out.push(hex_digit_of(b % 16));
    } else {
        out.push(b);
    }
    assert(final(out)@ =~= old(out)@ + escape_byte(b));
}

/// Appends the wire form of `s` to `out`.
pub fn push_string(out: &mut Vec<u8>, s: &str)
    ensures
        final(out)@ == old(out)@ + string_text(s@),
{
    let bytes = s.as_bytes();
    out.push(0x22);
    let mut i: usize = 0;
    while i < bytes.len()
        invariant
            i <= bytes@.len(),
            bytes@ == encode_utf8(s@),
            out@ == old(out)@ + seq![0x22u8] + escape(bytes@.take(i as int)),
        decreases bytes.len() - i,
    {
        push_escaped(out, bytes[i]);
        proof {
            let next = bytes@.take(i + 1);
            assert(next.drop_last() =~= bytes@.take(i as int));
            assert(next.last() == bytes[i as int]);
        }
        i += 1;
    }
    out.push(0x22);
    proof {
        assert(bytes@.take(i as int) =~= bytes@);
        assert(final(out)@ =~= old(out)@ + string_text(s@));
    }
}

/// Reads one piece of content at `pos` and appends what it stands for to
/// `out`. Gives the position behind the piece.
fn read_piece(bytes: &[u8], pos: usize, out: &mut Vec<u8>) -> (r: Option<usize>)
    requires
        pos < bytes@.len(),
    ensures
        match scan_piece(bytes@.skip(pos as int)) {
            Some((piece, n)) => r == Some((pos + n) as usize) && 0 < n && pos + n
                <= bytes@.len() && final(out)@ == old(out)@ + piece,
            None => r is None,
        },
{
    let ghost rest = bytes@.skip(pos as int);
    let len = bytes.len();
    let b = bytes[pos];
    assert(rest[0] == b);
    if b < 0x20 {
        return None;
    }
    if b != 0x5C {
        out.push(b);
        assert(final(out)@ =~= old(out)@ + seq![b]);
        return Some(pos + 1);
    }
    if len - pos < 2 {
        return None;
    }
    let e = bytes[pos + 1];
    assert(rest[1] == e);
    let simple: Option<u8> = if e == 0x22 || e == 0x2F || e == 0x5C {
        Some(e)
    } else if e == 0x62 {
        Some(0x08)
    } else if e == 0x66 {
        Some(0x0C)
    } else if e == 0x6E {
        Some(0x0A)
    } else if e == 0x72 {
        Some(0x0D)
    } else if e == 0x74 {
        Some(0x09)
    } else {
        None
    };
    assert(simple == simple_escape(e));
    match simple {
        Some(byte) => {
            out.push(byte);
            assert(final(out)@ =~= old(out)@ + seq![byte]);
            Some(pos + 2)
        },
        None => {
            if e != 0x75 {
                return None;
            }
            match read_unicode_escape(bytes, pos) {
                Some((scalar, next)) => {
                    push_scalar(out, scalar);
                    Some(next)
                },
                None => None,
            }
        },
    }
}

/// Reads a string at `pos`. Gives the string and the position behind it.
pub(crate) fn read_string(bytes: &[u8], pos: usize) -> (r: Option<(String, usize)>)
    requires
        pos <= bytes@.len(),
    ensures
        match scan_string(bytes@.skip(pos as int)) {
            Some((s, taken)) => r matches Some((text, next)) && text@ == s && next == pos + taken
                && next <= bytes@.len(),
            None => r is None,
        },
{
    let ghost s = bytes@.skip(pos as int);
    let len = bytes.len();
    if pos >= len || bytes[pos] != 0x22 {
        return None;
    }
    let start: usize = pos + 1;
    let ghost whole = scan_string_body(bytes@.skip(start as int), Seq::empty());
    assert(s.skip(1) =~= bytes@.skip(start as int));
    let mut out: Vec<u8> = Vec::new();
    let mut i: usize = start;
    while i < len && bytes[i] != 0x22
        invariant
            start == pos + 1,
            start <= i <= len,
            len == bytes@.len(),
            whole == advance(scan_string_body(bytes@.skip(i as int), out@), (i - start) as nat),
            scan_string(bytes@.skip(pos as int)) == match whole {
                Some((unescaped, n)) => if valid_utf8(unescaped) {
                    Some((decode_utf8(unescaped), n + 1))
                } else {
                    None
                },
                None => None,
            },
        decreases len - i,
    {
        let ghost rest = bytes@.skip(i as int);
        assert(rest[0] == bytes[i as int]);
        match read_piece(bytes, i, &mut out) {
            Some(next) => {
                assert(rest.skip(next - i) =~= bytes@.skip(next as int));
                i = next;
            },
            None => {
                return None;
            },
        }
    }
    if i >= len {
        assert(bytes@.skip(i as int).len() == 0);
        return None;
    }
    assert(bytes@.skip(i as int)[0] == bytes[i as int]);
    assert(whole == Some((out@, (i - start + 1) as nat)));
    match string_from_utf8(out) {
        Some(text) => Some((text, i + 1)),
        None => None,
    }
}

/// The escaped form, taken apart at the front.
proof fn lemma_escape_front(bytes: Seq<u8>)
    requires
        bytes.len() > 0,
    ensures
        escape(bytes) == escape_byte(bytes[0]) + escape(bytes.skip(1)),
    decreases bytes.len(),
{
    if bytes.len() == 1 {
        assert(bytes.drop_last() =~= Seq::<u8>::empty());
        assert(bytes.skip(1) =~= Seq::<u8>::empty());
        assert(escape(bytes) =~= escape_byte(bytes[0]) + escape(bytes.skip(1)));
    } else {
        lemma_escape_front(bytes.drop_last());
        assert(bytes.drop_last().skip(1) =~= bytes.skip(1).drop_last());
        assert(bytes.drop_last()[0] == bytes[0]);
        assert(bytes.skip(1).last() == bytes.last());
        assert(escape(bytes) =~= escape_byte(bytes[0]) + escape(bytes.skip(1)));
    }
}

proof fn lemma_control_scalar(b: u8)
    requires
        b < 0x20,
    ensures
        encode_scalar(b as u32) == seq![b],
        hex4(seq![0x30u8, 0x30u8, hex_digit(b / 16), hex_digit(b % 16)]) == Some(b as u32),
{
    let v = b as u32;
    assert((v & 0x7F) as u8 == b) by (bit_vector)
        requires
            v == b as u32,
            b < 0x20,
    ;
}

/// Whether `b` is written with a one-letter escape.
pub open spec fn has_simple_escape(b: u8) -> bool {
    b == 0x22 || b == 0x5C || b == 0x08 || b == 0x09 || b == 0x0A || b == 0x0C || b == 0x0D
}

/// A byte that is written as it is reads back as that byte.
proof fn lemma_scan_piece_plain(b: u8, tail: Seq<u8>)
    requires
        b >= 0x20,
        b != 0x22,
        b != 0x5C,
    ensures
        escape_byte(b) == seq![b],
        scan_piece(escape_byte(b) + tail) == Some((seq![b], 1nat)),
{
    let s = escape_byte(b) + tail;
    assert(s.len() > 0);
    assert(s[0] == b);
}

/// A byte that is written with a one-letter escape reads back as that byte.
proof fn lemma_scan_piece_simple(b: u8, tail: Seq<u8>)
    requires
        has_simple_escape(b),
    ensures
        escape_byte(b).len() == 2,
        scan_piece(escape_byte(b) + tail) == Some((seq![b], 2nat)),
{
    let e = escape_byte(b);
    let s = e + tail;
    assert(e.len() == 2);
    assert(s.len() >= 2);
    assert(s[0] == e[0] && s[1] == e[1]);
    assert(s[0] == 0x5C);
    assert(simple_escape(s[1]) == Some(b));
}

/// A control byte that is written with four hexadecimal digits reads back
/// as that byte.
proof fn lemma_scan_piece_control(b: u8, tail: Seq<u8>)
    requires
        b < 0x20,
        !has_simple_escape(b),
    ensures
        escape_byte(b).len() == 6,
        scan_piece(escape_byte(b) + tail) == Some((seq![b], 6nat)),
{
    let e = escape_byte(b);
    let s = e + tail;
    let four = seq![0x30u8, 0x30u8, hex_digit(b / 16), hex_digit(b % 16)];
    lemma_control_scalar(b);
    assert(e.len() == 6);
    assert(s.len() >= 6);
    assert(s[0] == e[0] && s[1] == e[1]);
    assert(s[0] == 0x5C && s[1] == 0x75);
    assert(simple_escape(s[1]) is None);
    let digits = s.skip(2);
    assert(digits.len() >= 4);
    assert(digits[0] == e[2] && digits[1] == e[3] && digits[2] == e[4] && digits[3] == e[5]);
    assert(four[0] == e[2] && four[1] == e[3] && four[2] == e[4] && four[3] == e[5]);
    assert(hex4(digits) == hex4(four));
    assert(hex4(digits) == Some(b as u32));
    assert(scan_unicode_escape(s) == Some((b as u32, 6nat)));
    assert(encode_scalar(b as u32) == seq![b]);
}

/// The escaped form of a byte reads back as the byte, whatever follows it.
proof fn lemma_scan_piece_escaped(b: u8, tail: Seq<u8>)
    ensures
        scan_piece(escape_byte(b) + tail) == Some((seq![b], escape_byte(b).len())),
        escape_byte(b).len() > 0,
        (escape_byte(b) + tail)[0] != 0x22,
{
    let e = escape_byte(b);
    if has_simple_escape(b) {
        lemma_scan_piece_simple(b, tail);
        assert((e + tail)[0] == e[0]);
    } else if b < 0x20 {
        lemma_scan_piece_control(b, tail);
        assert((e + tail)[0] == e[0]);
    } else {
        lemma_scan_piece_plain(b, tail);
        assert((e + tail)[0] == e[0]);
    }
}

/// Where a piece stands at the front of a string's content, the content is
/// read by reading the piece and then what follows it.
proof fn lemma_scan_body_step(s: Seq<u8>, acc: Seq<u8>, piece: Seq<u8>, n: nat)
    requires
        s.len() > 0,
        s[0] != 0x22,
        scan_piece(s) == Some((piece, n)),
        0 < n <= s.len(),
    ensures
        scan_string_body(s, acc) == advance(
            scan_string_body(s.skip(n as int), acc + piece),
            n,
        ),
{
}

/// Escaped bytes followed by a closing quote read back as the bytes.
proof fn lemma_scan_escaped(bytes: Seq<u8>, rest: Seq<u8>, acc: Seq<u8>)
    ensures
        scan_string_body(escape(bytes) + seq![0x22u8] + rest, acc) == Some(
            (acc + bytes, escape(bytes).len() + 1),
        ),
    decreases bytes.len(),
{
    let s = escape(bytes) + seq![0x22u8] + rest;
    if bytes.len() == 0 {
        assert(escape(bytes).len() == 0);
        assert(s[0] == 0x22);
        assert(acc + bytes =~= acc);
    } else {
        let b = bytes[0];
        let e = escape_byte(b);
        let n = e.len();
        let later = bytes.skip(1);
        let tail = escape(later) + seq![0x22u8] + rest;
        lemma_escape_front(bytes);
        assert(escape(bytes) == e + escape(later));
        assert(s =~= e + tail);
        lemma_scan_piece_escaped(b, tail);
        assert(s.skip(n as int) =~= tail);
        lemma_scan_body_step(s, acc, seq![b], n);
        lemma_scan_escaped(later, rest, acc + seq![b]);
        assert(acc + seq![b] + later =~= acc + bytes);
        assert(escape(bytes).len() == n + escape(later).len());
    }
}

/// A string's wire form reads back as the string, whatever follows it.
pub proof fn lemma_scan_string_text(text: Seq<char>, rest: Seq<u8>)
    ensures
        scan_string(string_text(text) + rest) == Some((text, string_text(text).len())),
{
    let bytes = encode_utf8(text);
    let s = string_text(text) + rest;
    assert(s.skip(1) =~= escape(bytes) + seq![0x22u8] + rest);
    lemma_scan_escaped(bytes, rest, Seq::empty());
    assert(Seq::<u8>::empty() + bytes =~= bytes);
    encode_utf8_valid_utf8(text);
    encode_utf8_decode_utf8(text);
}

} // verus!
