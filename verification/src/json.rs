//! The pieces of compact JSON text that an event's canonical form is made of:
//! escaped strings, decimal numbers and arrays.

use vstd::prelude::*;
use crate::hex::digit_of;

verus! {

/// The double quote, `"`.
pub const QUOTE: u8 = 0x22;

/// The backslash.
pub const BACKSLASH: u8 = 0x5c;

/// The comma.
pub const COMMA: u8 = 0x2c;

/// The opening square bracket.
pub const OPEN: u8 = 0x5b;

/// The closing square bracket.
pub const CLOSE: u8 = 0x5d;

/// The digit `0`.
pub const ZERO: u8 = 0x30;

/// How one byte of a string is written. The quote and the backslash get a
/// backslash before them. Backspace, tab, line feed, form feed and carriage
/// return are a backslash and a letter; the other control characters are
/// `\u00` and two lowercase digits. Every other byte stands for itself: the
/// slash, the delete character and all bytes of multi-byte characters, the
/// line and paragraph separators among them.
pub open spec fn escaped_byte(b: u8) -> Seq<u8> {
    if b == QUOTE {
        seq![BACKSLASH, QUOTE]
    } else if b == BACKSLASH {
        seq![BACKSLASH, BACKSLASH]
    } else if b == 0x08 {
        seq![BACKSLASH, 0x62u8]
    } else if b == 0x09 {
        seq![BACKSLASH, 0x74u8]
    } else if b == 0x0a {
        seq![BACKSLASH, 0x6eu8]
    } else if b == 0x0c {
        seq![BACKSLASH, 0x66u8]
    } else if b == 0x0d {
        seq![BACKSLASH, 0x72u8]
    } else if b < 0x20 {
        seq![BACKSLASH, 0x75u8, ZERO, ZERO, digit_of(b as int / 16), digit_of(b as int % 16)]
    } else {
        seq![b]
    }
}

/// The bytes of a string with each one written as `escaped_byte` says.
pub open spec fn escaped(s: Seq<u8>) -> Seq<u8>
    decreases s.len(),
{
    if s.len() == 0 {
        Seq::empty()
    } else {
        escaped_byte(s[0]) + escaped(s.drop_first())
    }
}

/// A JSON string: the escaped bytes between two quotes.
pub open spec fn quoted(s: Seq<u8>) -> Seq<u8> {
    seq![QUOTE] + escaped(s) + seq![QUOTE]
}

/// A number in decimal digits, without sign or leading zeros.
pub open spec fn decimal(n: nat) -> Seq<u8>
    decreases n,
{
    if n < 10 {
        seq![(ZERO + n) as u8]
    } else {
        decimal(n / 10).push((ZERO + n % 10) as u8)
    }
}

/// What follows the first element of an array: each further element behind
/// a comma, then the closing bracket.
pub open spec fn array_rest(parts: Seq<Seq<u8>>) -> Seq<u8>
    decreases parts.len(),
{
    if parts.len() == 0 {
        seq![CLOSE]
    } else {
        seq![COMMA] + parts[0] + array_rest(parts.drop_first())
    }
}

/// A JSON array of elements that are already written out.
pub open spec fn array(parts: Seq<Seq<u8>>) -> Seq<u8> {
    if parts.len() == 0 {
        seq![OPEN, CLOSE]
    } else {
        seq![OPEN] + parts[0] + array_rest(parts.drop_first())
    }
}

/// A JSON array of strings.
pub open spec fn string_array(items: Seq<Seq<u8>>) -> Seq<u8> {
    array(items.map_values(|s: Seq<u8>| quoted(s)))
}

/// A JSON array of arrays of strings.
pub open spec fn nested_array(rows: Seq<Seq<Seq<u8>>>) -> Seq<u8> {
    array(rows.map_values(|r: Seq<Seq<u8>>| string_array(r)))
}

fn write_escaped_byte(out: &mut Vec<u8>, b: u8)
    ensures
        final(out)@ == old(out)@ + escaped_byte(b),
{
    let ghost before = out@;
    if b == QUOTE || b == BACKSLASH {
        out.push(BACKSLASH);
        out.push(b);
    } else if b == 0x08 {
        out.push(BACKSLASH);
        out.push(0x62);
    } else if b == 0x09 {
        out.push(BACKSLASH);
        out.push(0x74);
    } else if b == 0x0a {
        out.push(BACKSLASH);
        out.push(0x6e);
    } else if b == 0x0c {
        out.push(BACKSLASH);
        out.push(0x66);
    } else if b == 0x0d {
        out.push(BACKSLASH);
        out.push(0x72);
    } else if b < 0x20 {
        out.push(BACKSLASH);
        out.push(0x75);
        out.push(ZERO);
        out.push(ZERO);
        out.push(ZERO + b / 16);
        let low: u8 = b % 16;
        out.push(if low < 10 { ZERO + low } else { 87 + low });
    } else {
        out.push(b);
    }
    assert(out@ =~= before + escaped_byte(b));
}

/// Appends the JSON string for `s` to `out`.
pub fn write_quoted(out: &mut Vec<u8>, s: &[u8])
    ensures
        final(out)@ == old(out)@ + quoted(s@),
{
    let ghost before = out@;
    out.push(QUOTE);
    let mut i: usize = 0;
    assert(s@.skip(0) =~= s@);
    while i < s.len()
        invariant
            i <= s.len(),
            before + seq![QUOTE] + escaped(s@) == out@ + escaped(s@.skip(i as int)),
        decreases s.len() - i,
    {
        let ghost written = out@;
        write_escaped_byte(out, s[i]);
        proof {
            let rest = s@.skip(i as int);
            assert(rest.drop_first() =~= s@.skip(i + 1));
            assert(written + escaped(rest) =~= out@ + escaped(s@.skip(i + 1)));
        }
        i += 1;
    }
    out.push(QUOTE);
    assert(out@ =~= before + quoted(s@));
}

/// Appends `n` in decimal digits to `out`.
pub fn write_decimal(out: &mut Vec<u8>, n: u64)
    ensures
        final(out)@ == old(out)@ + decimal(n as nat),
{
    let ghost before = out@;
    let mut low: Vec<u8> = Vec::new();
    let mut m: u64 = n;
    while m >= 10
        invariant
            decimal(n as nat) == decimal(m as nat) + low@.reverse(),
        decreases m,
    {
        let d: u8 = (m % 10) as u8;
        proof {
            let next = seq![(ZERO + d) as u8] + low@.reverse();
            assert(low@.push((ZERO + d) as u8).reverse() =~= next);
            assert(decimal(m as nat) + low@.reverse() =~= decimal(m as nat / 10) + next);
        }
        low.push(ZERO + d);
        m = m / 10;
    }
    out.push(ZERO + (m as u8));
    let mut k: usize = low.len();
    while k > 0
        invariant
            k <= low.len(),
            before + decimal(n as nat) == out@ + low@.take(k as int).reverse(),
        decreases k,
    {
        k -= 1;
        proof {
            let head = low@.take(k + 1);
            assert(head.reverse() =~= seq![low@[k as int]] + low@.take(k as int).reverse());
            assert(out@ + head.reverse() =~= out@.push(low@[k as int]) + low@.take(
                k as int,
            ).reverse());
        }
        out.push(low[k]);
    }
    assert(out@ =~= before + decimal(n as nat)) by {
        assert(low@.take(0).reverse() =~= Seq::<u8>::empty());
    }
}

} // verus!
