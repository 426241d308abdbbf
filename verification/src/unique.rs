//! Why no two values are written alike: each piece of JSON text can be read
//! back from the front, whatever follows it.

use vstd::prelude::*;
use crate::hex::digit_of;
use crate::json::{
    array_rest, decimal, escaped, escaped_byte, nested_array, quoted, string_array, CLOSE, COMMA,
    OPEN, QUOTE, ZERO,
};

verus! {

/// Two texts that agree, and begin with pieces of one length, agree piece by
/// piece.
pub proof fn lemma_equal_split(a: Seq<u8>, x: Seq<u8>, b: Seq<u8>, y: Seq<u8>)
    requires
        a + x == b + y,
        a.len() == b.len(),
    ensures
        a == b,
        x == y,
{
    assert(a =~= (a + x).subrange(0, a.len() as int));
    assert(b =~= (b + y).subrange(0, b.len() as int));
    assert(x =~= (a + x).subrange(a.len() as int, (a + x).len() as int));
    assert(y =~= (b + y).subrange(b.len() as int, (b + y).len() as int));
}

/// The way a byte is written tells which byte it was, whatever follows.
pub proof fn lemma_escaped_byte_unique(p: u8, x: Seq<u8>, q: u8, y: Seq<u8>)
    requires
        escaped_byte(p) + x == escaped_byte(q) + y,
    ensures
        p == q,
        x == y,
{
    let l = escaped_byte(p) + x;
    let r = escaped_byte(q) + y;
    assert(l[0] == r[0]);
    assert(l[1] == r[1]);
    if p < 0x20 && q < 0x20 && escaped_byte(p).len() == 6 && escaped_byte(q).len() == 6 {
        assert(l[4] == r[4]);
        assert(l[5] == r[5]);
        assert(digit_of(p as int / 16) == digit_of(q as int / 16));
        assert(digit_of(p as int % 16) == digit_of(q as int % 16));
    }
    assert(p == q);
    lemma_equal_split(escaped_byte(p), x, escaped_byte(q), y);
}

/// An escaped string can be read back up to the quote that ends it.
pub proof fn lemma_escaped_unique(a: Seq<u8>, x: Seq<u8>, b: Seq<u8>, y: Seq<u8>)
    requires
        escaped(a) + seq![QUOTE] + x == escaped(b) + seq![QUOTE] + y,
    ensures
        a == b,
        x == y,
    decreases a.len(),
{
    let l = escaped(a) + seq![QUOTE] + x;
    let r = escaped(b) + seq![QUOTE] + y;
    if a.len() == 0 {
        assert(l[0] == QUOTE);
        if b.len() > 0 {
            assert(r[0] == escaped_byte(b[0])[0]);
            assert(false);
        }
        assert(a =~= b);
        lemma_equal_split(escaped(a) + seq![QUOTE], x, escaped(b) + seq![QUOTE], y);
    } else {
        if b.len() == 0 {
            assert(r[0] == QUOTE);
            assert(l[0] == escaped_byte(a[0])[0]);
            assert(false);
        }
        let ta = escaped(a.drop_first()) + seq![QUOTE] + x;
        let tb = escaped(b.drop_first()) + seq![QUOTE] + y;
        assert(l =~= escaped_byte(a[0]) + ta);
        assert(r =~= escaped_byte(b[0]) + tb);
        lemma_escaped_byte_unique(a[0], ta, b[0], tb);
        lemma_escaped_unique(a.drop_first(), x, b.drop_first(), y);
        assert(a =~= seq![a[0]] + a.drop_first());
        assert(b =~= seq![b[0]] + b.drop_first());
    }
}

/// A JSON string can be read back, whatever follows it.
pub proof fn lemma_quoted_unique(a: Seq<u8>, x: Seq<u8>, b: Seq<u8>, y: Seq<u8>)
    requires
        quoted(a) + x == quoted(b) + y,
    ensures
        a == b,
        x == y,
{
    let ta = escaped(a) + seq![QUOTE] + x;
    let tb = escaped(b) + seq![QUOTE] + y;
    assert(quoted(a) + x =~= seq![QUOTE] + ta);
    assert(quoted(b) + y =~= seq![QUOTE] + tb);
    lemma_equal_split(seq![QUOTE], ta, seq![QUOTE], tb);
    lemma_escaped_unique(a, x, b, y);
}

/// Whether a byte is one of `0`..`9`.
pub open spec fn is_decimal_digit(c: u8) -> bool {
    ZERO <= c && c <= ZERO + 9
}

/// The number that a text of decimal digits stands for.
pub open spec fn decimal_value(text: Seq<u8>) -> nat
    decreases text.len(),
{
    if text.len() == 0 {
        0
    } else {
        (decimal_value(text.drop_last()) * 10 + (text.last() - ZERO)) as nat
    }
}

/// A number's text is made of digits, has at least one, and stands for the
/// number.
pub proof fn lemma_decimal_digits(n: nat)
    ensures
        decimal(n).len() > 0,
        forall|i: int| 0 <= i < decimal(n).len() ==> is_decimal_digit(#[trigger] decimal(n)[i]),
        decimal_value(decimal(n)) == n,
    decreases n,
{
    if n < 10 {
        let text = decimal(n);
        assert(text.drop_last() =~= Seq::<u8>::empty());
        assert(decimal_value(text.drop_last()) == 0);
    } else {
        lemma_decimal_digits(n / 10);
        let text = decimal(n);
        assert(text.drop_last() =~= decimal(n / 10));
    }
}

/// A number can be read back from its text where something that is no digit
/// follows.
pub proof fn lemma_decimal_unique(a: nat, x: Seq<u8>, b: nat, y: Seq<u8>)
    requires
        decimal(a) + x == decimal(b) + y,
        x.len() > 0 && !is_decimal_digit(x[0]),
        y.len() > 0 && !is_decimal_digit(y[0]),
    ensures
        a == b,
        x == y,
{
    lemma_decimal_digits(a);
    lemma_decimal_digits(b);
    let l = decimal(a) + x;
    let r = decimal(b) + y;
    let la = decimal(a).len() as int;
    let lb = decimal(b).len() as int;
    if la < lb {
        assert(l[la] == x[0]);
        assert(r[la] == decimal(b)[la]);
        assert(false);
    }
    if lb < la {
        assert(r[lb] == y[0]);
        assert(l[lb] == decimal(a)[lb]);
        assert(false);
    }
    lemma_equal_split(decimal(a), x, decimal(b), y);
}

/// The elements of an array of strings behind the first can be read back,
/// whatever follows the closing bracket.
pub proof fn lemma_string_rest_unique(
    a: Seq<Seq<u8>>,
    x: Seq<u8>,
    b: Seq<Seq<u8>>,
    y: Seq<u8>,
)
    requires
        array_rest(a.map_values(|s: Seq<u8>| quoted(s))) + x == array_rest(
            b.map_values(|s: Seq<u8>| quoted(s)),
        ) + y,
    ensures
        a == b,
        x == y,
    decreases a.len(),
{
    let pa = a.map_values(|s: Seq<u8>| quoted(s));
    let pb = b.map_values(|s: Seq<u8>| quoted(s));
    let l = array_rest(pa) + x;
    let r = array_rest(pb) + y;
    if a.len() == 0 {
        assert(l[0] == CLOSE);
        if b.len() > 0 {
            assert(r[0] == COMMA);
            assert(false);
        }
        assert(a =~= b);
        lemma_equal_split(array_rest(pa), x, array_rest(pb), y);
    } else {
        if b.len() == 0 {
            assert(r[0] == CLOSE);
            assert(l[0] == COMMA);
            assert(false);
        }
        let qa = a.drop_first().map_values(|s: Seq<u8>| quoted(s));
        let qb = b.drop_first().map_values(|s: Seq<u8>| quoted(s));
        assert(pa.drop_first() =~= qa);
        assert(pb.drop_first() =~= qb);
        let ta = array_rest(qa) + x;
        let tb = array_rest(qb) + y;
        assert(l =~= seq![COMMA] + (quoted(a[0]) + ta));
        assert(r =~= seq![COMMA] + (quoted(b[0]) + tb));
        lemma_equal_split(seq![COMMA], quoted(a[0]) + ta, seq![COMMA], quoted(b[0]) + tb);
        lemma_quoted_unique(a[0], ta, b[0], tb);
        lemma_string_rest_unique(a.drop_first(), x, b.drop_first(), y);
        assert(a =~= seq![a[0]] + a.drop_first());
        assert(b =~= seq![b[0]] + b.drop_first());
    }
}

/// An array of strings can be read back, whatever follows it.
pub proof fn lemma_string_array_unique(
    a: Seq<Seq<u8>>,
    x: Seq<u8>,
    b: Seq<Seq<u8>>,
    y: Seq<u8>,
)
    requires
        string_array(a) + x == string_array(b) + y,
    ensures
        a == b,
        x == y,
{
    let pa = a.map_values(|s: Seq<u8>| quoted(s));
    let pb = b.map_values(|s: Seq<u8>| quoted(s));
    let l = string_array(a) + x;
    let r = string_array(b) + y;
    if a.len() == 0 {
        assert(l[1] == CLOSE);
        if b.len() > 0 {
            assert(quoted(b[0])[0] == QUOTE);
            assert(r[1] == quoted(b[0])[0]);
            assert(false);
        }
        assert(a =~= b);
        lemma_equal_split(string_array(a), x, string_array(b), y);
    } else {
        if b.len() == 0 {
            assert(r[1] == CLOSE);
            assert(quoted(a[0])[0] == QUOTE);
            assert(l[1] == quoted(a[0])[0]);
            assert(false);
        }
        let qa = a.drop_first().map_values(|s: Seq<u8>| quoted(s));
        let qb = b.drop_first().map_values(|s: Seq<u8>| quoted(s));
        assert(pa.drop_first() =~= qa);
        assert(pb.drop_first() =~= qb);
        let ta = array_rest(qa) + x;
        let tb = array_rest(qb) + y;
        assert(l =~= seq![OPEN] + (quoted(a[0]) + ta));
        assert(r =~= seq![OPEN] + (quoted(b[0]) + tb));
        lemma_equal_split(seq![OPEN], quoted(a[0]) + ta, seq![OPEN], quoted(b[0]) + tb);
        lemma_quoted_unique(a[0], ta, b[0], tb);
        lemma_string_rest_unique(a.drop_first(), x, b.drop_first(), y);
        assert(a =~= seq![a[0]] + a.drop_first());
        assert(b =~= seq![b[0]] + b.drop_first());
    }
}

/// The rows of an array of arrays behind the first can be read back, whatever
/// follows the closing bracket.
pub proof fn lemma_nested_rest_unique(
    a: Seq<Seq<Seq<u8>>>,
    x: Seq<u8>,
    b: Seq<Seq<Seq<u8>>>,
    y: Seq<u8>,
)
    requires
        array_rest(a.map_values(|r: Seq<Seq<u8>>| string_array(r))) + x == array_rest(
            b.map_values(|r: Seq<Seq<u8>>| string_array(r)),
        ) + y,
    ensures
        a == b,
        x == y,
    decreases a.len(),
{
    let pa = a.map_values(|r: Seq<Seq<u8>>| string_array(r));
    let pb = b.map_values(|r: Seq<Seq<u8>>| string_array(r));
    let l = array_rest(pa) + x;
    let r = array_rest(pb) + y;
    if a.len() == 0 {
        assert(l[0] == CLOSE);
        if b.len() > 0 {
            assert(r[0] == COMMA);
            assert(false);
        }
        assert(a =~= b);
        lemma_equal_split(array_rest(pa), x, array_rest(pb), y);
    } else {
        if b.len() == 0 {
            assert(r[0] == CLOSE);
            assert(l[0] == COMMA);
            assert(false);
        }
        let qa = a.drop_first().map_values(|r: Seq<Seq<u8>>| string_array(r));
        let qb = b.drop_first().map_values(|r: Seq<Seq<u8>>| string_array(r));
        assert(pa.drop_first() =~= qa);
        assert(pb.drop_first() =~= qb);
        let ta = array_rest(qa) + x;
        let tb = array_rest(qb) + y;
        assert(l =~= seq![COMMA] + (string_array(a[0]) + ta));
        assert(r =~= seq![COMMA] + (string_array(b[0]) + tb));
        lemma_equal_split(
            seq![COMMA],
            string_array(a[0]) + ta,
            seq![COMMA],
            string_array(b[0]) + tb,
        );
        lemma_string_array_unique(a[0], ta, b[0], tb);
        lemma_nested_rest_unique(a.drop_first(), x, b.drop_first(), y);
        assert(a =~= seq![a[0]] + a.drop_first());
        assert(b =~= seq![b[0]] + b.drop_first());
    }
}

/// An array of arrays of strings can be read back, whatever follows it.
pub proof fn lemma_nested_array_unique(
    a: Seq<Seq<Seq<u8>>>,
    x: Seq<u8>,
    b: Seq<Seq<Seq<u8>>>,
    y: Seq<u8>,
)
    requires
        nested_array(a) + x == nested_array(b) + y,
    ensures
        a == b,
        x == y,
{
    let pa = a.map_values(|r: Seq<Seq<u8>>| string_array(r));
    let pb = b.map_values(|r: Seq<Seq<u8>>| string_array(r));
    let l = nested_array(a) + x;
    let r = nested_array(b) + y;
    if a.len() == 0 {
        assert(l[1] == CLOSE);
        if b.len() > 0 {
            assert(string_array(b[0])[0] == OPEN);
            assert(r[1] == string_array(b[0])[0]);
            assert(false);
        }
        assert(a =~= b);
        lemma_equal_split(nested_array(a), x, nested_array(b), y);
    } else {
        if b.len() == 0 {
            assert(r[1] == CLOSE);
            assert(string_array(a[0])[0] == OPEN);
            assert(l[1] == string_array(a[0])[0]);
            assert(false);
        }
        let qa = a.drop_first().map_values(|r: Seq<Seq<u8>>| string_array(r));
        let qb = b.drop_first().map_values(|r: Seq<Seq<u8>>| string_array(r));
        assert(pa.drop_first() =~= qa);
        assert(pb.drop_first() =~= qb);
        let ta = array_rest(qa) + x;
        let tb = array_rest(qb) + y;
        assert(l =~= seq![OPEN] + (string_array(a[0]) + ta));
        assert(r =~= seq![OPEN] + (string_array(b[0]) + tb));
        lemma_equal_split(
            seq![OPEN],
            string_array(a[0]) + ta,
            seq![OPEN],
            string_array(b[0]) + tb,
        );
        lemma_string_array_unique(a[0], ta, b[0], tb);
        lemma_nested_rest_unique(a.drop_first(), x, b.drop_first(), y);
        assert(a =~= seq![a[0]] + a.drop_first());
        assert(b =~= seq![b[0]] + b.drop_first());
    }
}

} // verus!
