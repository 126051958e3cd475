//! Rendering numbers as ASCII: fixed-width uppercase hex and plain decimal.
use vstd::prelude::*;

verus! {

pub open spec fn hex_char(d: nat) -> u8 {
    if d < 10 {
        ('0' as u8 + d) as u8
    } else {
        ('A' as u8 + d - 10) as u8
    }
}

pub open spec fn digit_char(d: nat) -> u8 {
    ('0' as u8 + d) as u8
}

/// The low `n` hex digits of `v`, most significant first, in upper case.
pub open spec fn hex_fixed(v: nat, n: nat) -> Seq<u8>
    decreases n,
{
    if n == 0 {
        Seq::empty()
    } else {
        hex_fixed(v / 16, (n - 1) as nat).push(hex_char(v % 16))
    }
}

/// `v` in decimal, without leading zeros.
pub open spec fn decimal_text(v: nat) -> Seq<u8>
    decreases v,
{
    if v < 10 {
        seq![digit_char(v)]
    } else {
        decimal_text(v / 10).push(digit_char(v % 10))
    }
}

/// `v` in decimal, with a minus sign when negative.
pub open spec fn signed_text(v: int) -> Seq<u8> {
    if v < 0 {
        seq!['-' as u8] + decimal_text((-v) as nat)
    } else {
        decimal_text(v as nat)
    }
}

/// Each byte as two uppercase hex digits, with no separator.
pub open spec fn hex_bytes(d: Seq<u8>) -> Seq<u8>
    decreases d.len(),
{
    if d.len() == 0 {
        Seq::empty()
    } else {
        hex_bytes(d.drop_last()) + hex_fixed(d.last() as nat, 2)
    }
}

pub open spec fn pow10(n: nat) -> nat
    decreases n,
{
    if n == 0 {
        1
    } else {
        10 * pow10((n - 1) as nat)
    }
}

pub proof fn lemma_hex_fixed_len(v: nat, n: nat)
    ensures
        hex_fixed(v, n).len() == n,
    decreases n,
{
    if n > 0 {
        lemma_hex_fixed_len(v / 16, (n - 1) as nat);
    }
}

pub proof fn lemma_hex_bytes_len(d: Seq<u8>)
    ensures
        hex_bytes(d).len() == 2 * d.len(),
    decreases d.len(),
{
    if d.len() > 0 {
        lemma_hex_bytes_len(d.drop_last());
        lemma_hex_fixed_len(d.last() as nat, 2);
    }
}

proof fn lemma_decimal_text_len_pow(v: nat, k: nat)
    requires
        v < pow10(k),
        k >= 1,
    ensures
        decimal_text(v).len() <= k,
    decreases v,
{
    if v >= 10 {
        let p = pow10((k - 1) as nat);
        if k == 1 {
            assert(pow10(1) == 10 * pow10(0));
        }
        assert(v / 10 < p) by (nonlinear_arith)
            requires
                v < 10 * p,
        ;
        lemma_decimal_text_len_pow(v / 10, (k - 1) as nat);
    }
}

pub proof fn lemma_decimal_text_len(v: nat)
    requires
        v <= u64::MAX,
    ensures
        1 <= decimal_text(v).len() <= 20,
{
    reveal_with_fuel(pow10, 21);
    assert(pow10(20) == 100000000000000000000);
    lemma_decimal_text_len_pow(v, 20);
}

pub proof fn lemma_signed_text_len(v: int)
    requires
        i64::MIN <= v <= i64::MAX,
    ensures
        1 <= signed_text(v).len() <= 21,
{
    if v < 0 {
        lemma_decimal_text_len((-v) as nat);
    } else {
        lemma_decimal_text_len(v as nat);
    }
}

/// Appends `lit`.
pub(crate) fn push_all(out: &mut Vec<u8>, lit: &[u8])
    ensures
        final(out)@ == old(out)@ + lit@,
{
    let mut k: usize = 0;
    while k < lit.len()
        invariant
            k <= lit@.len(),
            out@ == old(out)@ + lit@.subrange(0, k as int),
        decreases lit@.len() - k,
    {
        out.push(lit[k]);
        k += 1;
        assert(lit@.subrange(0, k as int) =~= lit@.subrange(0, k - 1).push(lit@[k - 1]));
    }
    assert(lit@.subrange(0, k as int) =~= lit@);
}

/// Appends the low `n` hex digits of `v`.
pub(crate) fn push_hex(out: &mut Vec<u8>, v: u32, n: u32)
    ensures
        final(out)@ == old(out)@ + hex_fixed(v as nat, n as nat),
    decreases n,
{
    if n > 0 {
        push_hex(out, v / 16, n - 1);
        let d = (v % 16) as u8;
        let c = if d < 10 {
            '0' as u8 + d
        } else {
            'A' as u8 + d - 10
        };
        out.push(c);
    }
}

/// Appends `v` in decimal.
pub(crate) fn push_decimal(out: &mut Vec<u8>, v: u64)
    ensures
        final(out)@ == old(out)@ + decimal_text(v as nat),
    decreases v,
{
    if v >= 10 {
        push_decimal(out, v / 10);
    }
    out.push('0' as u8 + (v % 10) as u8);
}

/// Appends `v` in decimal, signed.
pub(crate) fn push_signed(out: &mut Vec<u8>, v: i64)
    ensures
        final(out)@ == old(out)@ + signed_text(v as int),
{
    if v < 0 {
        out.push('-' as u8);
        push_decimal(out, (0i128 - v as i128) as u64);
    } else {
        push_decimal(out, v as u64);
    }
}

} // verus!
