//! Integers on the wire: decimal digits, with an optional minus sign.

use vstd::prelude::*;

verus! {

/// An integer as it stands on the wire. The sign is kept beside the
/// magnitude, so that `-0` stays apart from `0`.
#[derive(Clone, Copy, Debug, PartialEq, Eq)]
pub struct Number {
    pub negative: bool,
    pub magnitude: u64,
}

/// Whether `b` is an ASCII decimal digit.
pub open spec fn is_digit(b: u8) -> bool {
    0x30 <= b && b <= 0x39
}

/// The decimal digits of `n`, without leading zeros.
pub open spec fn decimal(n: nat) -> Seq<u8>
    decreases n,
{
    if n < 10 {
        seq![(0x30 + n) as u8]
    } else {
        decimal(n / 10).push((0x30 + n % 10) as u8)
    }
}

/// The wire form of a number: a minus sign if it is negative, then the
/// decimal digits of its magnitude.
pub open spec fn number_text(n: Number) -> Seq<u8> {
    if n.negative {
        seq![0x2Du8] + decimal(n.magnitude as nat)
    } else {
        decimal(n.magnitude as nat)
    }
}

/// Reads digits from the front of `s` onto `acc`. Gives the value read and
/// the count of digits taken, or `None` when the value leaves `u64`.
pub open spec fn scan_digits(s: Seq<u8>, acc: nat) -> Option<(nat, nat)>
    decreases s.len(),
{
    if s.len() > 0 && is_digit(s[0]) {
        let v = acc * 10 + (s[0] - 0x30) as nat;
        if v > u64::MAX {
            None
        } else {
            match scan_digits(s.skip(1), v) {
                Some((r, n)) => Some((r, n + 1)),
                None => None,
            }
        }
    } else {
        Some((acc, 0))
    }
}

/// Reads a number from the front of `s`: an optional minus sign, then either
/// a single `0` or a digit from 1 to 9 with all the digits that follow it.
/// Gives the number and the count of bytes taken.
pub open spec fn scan_number(s: Seq<u8>) -> Option<(Number, nat)> {
    let negative = s.len() > 0 && s[0] == 0x2D;
    let body = if negative { s.skip(1) } else { s };
    let sign: nat = if negative { 1 } else { 0 };
    if body.len() == 0 {
        None
    } else if body[0] == 0x30 {
        Some((Number { negative, magnitude: 0 }, sign + 1))
    } else if is_digit(body[0]) {
        match scan_digits(body, 0) {
            Some((v, n)) => Some((Number { negative, magnitude: v as u64 }, sign + n)),
            None => None,
        }
    } else {
        None
    }
}

/// Appends the decimal digits of `n` to `out`.
pub fn push_decimal(out: &mut Vec<u8>, n: u64)
    ensures
        final(out)@ == old(out)@ + decimal(n as nat),
    decreases n,
{
    if n >= 10 {
        push_decimal(out, n / 10);
    }
    let d: u8 = (n % 10) as u8;
    out.push(0x30 + d);
    proof {
        if n >= 10 {
            assert(final(out)@ =~= old(out)@ + decimal((n / 10) as nat).push(
                (0x30 + n % 10) as u8,
            ));
        } else {
            assert(final(out)@ =~= old(out)@ + seq![(0x30 + n) as u8]);
        }
    }
}

/// Appends the wire form of `n` to `out`.
pub fn push_number(out: &mut Vec<u8>, n: Number)
    ensures
        final(out)@ == old(out)@ + number_text(n),
{
    if n.negative {
        out.push(0x2D);
    }
    push_decimal(out, n.magnitude);
    proof {
        if n.negative {
            assert(final(out)@ =~= old(out)@ + (seq![0x2Du8] + decimal(n.magnitude as nat)));
        }
    }
}

/// Reads a number at `pos`. Gives the number and the position behind it.
pub(crate) fn read_number(bytes: &[u8], pos: usize) -> (r: Option<(Number, usize)>)
    requires
        pos <= bytes@.len(),
    ensures
        match scan_number(bytes@.skip(pos as int)) {
            Some((n, taken)) => r == Some((n, (pos + taken) as usize)) && pos + taken
                <= bytes@.len(),
            None => r is None,
        },
{
    let ghost s = bytes@.skip(pos as int);
    let len = bytes.len();
    let negative = pos < len && bytes[pos] == 0x2D;
    let start: usize = if negative { pos + 1 } else { pos };
    let ghost body = if negative { s.skip(1) } else { s };
    assert(body =~= bytes@.skip(start as int));
    if start >= len {
        return None;
    }
    let first = bytes[start];
    assert(body[0] == first);
    if first == 0x30 {
        return Some((Number { negative, magnitude: 0 }, start + 1));
    }
    if !(0x31 <= first && first <= 0x39) {
        return None;
    }
    let mut value: u64 = 0;
    let mut i: usize = start;
    while i < len && 0x30 <= bytes[i] && bytes[i] <= 0x39
        invariant
            pos <= start <= i <= len,
            scan_number(bytes@.skip(pos as int)) == match scan_digits(body, 0) {
                Some((v, n)) => Some(
                    (Number { negative, magnitude: v as u64 }, (n + (start - pos)) as nat),
                ),
                None => None,
            },
            len == bytes@.len(),
            body == bytes@.skip(start as int),
            match scan_digits(bytes@.skip(i as int), value as nat) {
                Some((v, n)) => scan_digits(body, 0) == Some((v, (n + (i - start)) as nat)),
                None => scan_digits(body, 0) is None,
            },
        decreases len - i,
    {
        let ghost rest = bytes@.skip(i as int);
        assert(rest[0] == bytes[i as int]);
        assert(rest.skip(1) =~= bytes@.skip(i + 1));
        let d: u64 = (bytes[i] - 0x30) as u64;
        if value > (u64::MAX - d) / 10 {
            assert(value * 10 + d > u64::MAX) by (nonlinear_arith)
                requires
                    value > (u64::MAX - d) / 10,
                    d <= 9,
            ;
            assert(is_digit(rest[0]) && (rest[0] - 0x30) as nat == d);
            assert(scan_digits(rest, value as nat) is None);
            return None;
        }
        assert(value * 10 + d <= u64::MAX) by (nonlinear_arith)
            requires
                value <= (u64::MAX - d) / 10,
                d <= 9,
        ;
        value = value * 10 + d;
        i += 1;
    }
    proof {
        let rest = bytes@.skip(i as int);
        assert(i < len ==> rest[0] == bytes[i as int]);
        assert(scan_digits(rest, value as nat) == Some((value as nat, 0nat)));
    }
    Some((Number { negative, magnitude: value }, i))
}

/// Reading digits onto `acc` from the left gives this value, whatever the
/// bound.
pub open spec fn digits_onto(a: Seq<u8>, acc: nat) -> nat
    decreases a.len(),
{
    if a.len() == 0 {
        acc
    } else {
        digits_onto(a.skip(1), acc * 10 + (a[0] - 0x30) as nat)
    }
}

proof fn lemma_digits_onto_grows(a: Seq<u8>, acc: nat)
    requires
        forall|i: int| 0 <= i < a.len() ==> is_digit(#[trigger] a[i]),
    ensures
        acc <= digits_onto(a, acc),
    decreases a.len(),
{
    if a.len() > 0 {
        lemma_digits_onto_grows(a.skip(1), acc * 10 + (a[0] - 0x30) as nat);
    }
}

proof fn lemma_digits_onto_push(a: Seq<u8>, d: u8, acc: nat)
    ensures
        digits_onto(a.push(d), acc) == digits_onto(a, acc) * 10 + (d - 0x30) as nat,
    decreases a.len(),
{
    if a.len() == 0 {
        assert(a.push(d).skip(1) =~= Seq::<u8>::empty());
        assert(digits_onto(a.push(d).skip(1), acc * 10 + (d - 0x30) as nat) == acc * 10 + (d
            - 0x30) as nat);
    } else {
        assert(a.push(d).skip(1) =~= a.skip(1).push(d));
        lemma_digits_onto_push(a.skip(1), d, acc * 10 + (a[0] - 0x30) as nat);
    }
}

/// The decimal digits of `n` are digits, the first is not `0` unless `n` is
/// zero, and read back they give `n`.
pub proof fn lemma_decimal(n: nat)
    ensures
        decimal(n).len() > 0,
        forall|i: int| 0 <= i < decimal(n).len() ==> is_digit(#[trigger] decimal(n)[i]),
        n > 0 ==> decimal(n)[0] != 0x30,
        n == 0 ==> decimal(n) == seq![0x30u8],
        digits_onto(decimal(n), 0) == n,
    decreases n,
{
    if n < 10 {
        let a = decimal(n);
        assert(a.skip(1) =~= Seq::<u8>::empty());
        assert(digits_onto(a.skip(1), (a[0] - 0x30) as nat) == n);
    } else {
        lemma_decimal(n / 10);
        lemma_digits_onto_push(decimal(n / 10), (0x30 + n % 10) as u8, 0);
    }
}

proof fn lemma_scan_digits_run(a: Seq<u8>, rest: Seq<u8>, acc: nat)
    requires
        forall|i: int| 0 <= i < a.len() ==> is_digit(#[trigger] a[i]),
        rest.len() == 0 || !is_digit(rest[0]),
        digits_onto(a, acc) <= u64::MAX,
    ensures
        scan_digits(a + rest, acc) == Some((digits_onto(a, acc), a.len())),
    decreases a.len(),
{
    if a.len() == 0 {
        assert(a + rest =~= rest);
    } else {
        let v = acc * 10 + (a[0] - 0x30) as nat;
        assert((a + rest)[0] == a[0]);
        assert((a + rest).skip(1) =~= a.skip(1) + rest);
        lemma_digits_onto_grows(a.skip(1), v);
        lemma_scan_digits_run(a.skip(1), rest, v);
    }
}

/// A number's wire form reads back as the number, whatever follows it, as
/// long as no digit follows it.
pub proof fn lemma_scan_number_text(n: Number, rest: Seq<u8>)
    requires
        rest.len() == 0 || !is_digit(rest[0]),
    ensures
        scan_number(number_text(n) + rest) == Some((n, number_text(n).len())),
{
    let m = n.magnitude as nat;
    lemma_decimal(m);
    let s = number_text(n) + rest;
    let body = if n.negative { s.skip(1) } else { s };
    assert(body =~= decimal(m) + rest);
    assert(s[0] == number_text(n)[0]);
    assert(body[0] == decimal(m)[0]);
    if m == 0 {
    } else {
        lemma_scan_digits_run(decimal(m), rest, 0);
    }
}

} // verus!
