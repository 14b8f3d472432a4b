//! What the bits of a field are, as numbers, and the laws of reading and writing them.
use vstd::arithmetic::div_mod::{
    lemma_div_denominator,
    lemma_fundamental_div_mod,
    lemma_fundamental_div_mod_converse,
    lemma_mod_multiples_vanish,
    lemma_multiply_divide_lt,
    lemma_small_mod,
    lemma_truncate_middle,
};
use vstd::arithmetic::power2::{lemma_pow2_adds, lemma_pow2_pos, lemma_pow2_unfold, pow2};
use vstd::prelude::*;

verus! {

/// The `n` bits of `raw` from bit `lsb` up, read as an unsigned number.
pub open spec fn field_bits(raw: nat, lsb: nat, n: nat) -> nat {
    (raw / pow2(lsb)) % pow2(n)
}

/// `raw`, a register of `width` bits, with its `n` bits from bit `lsb` up replaced by the
/// bits of `v`. The bits of `v` that would land at or above bit `width` are lost.
pub open spec fn with_field_bits(raw: nat, width: nat, lsb: nat, n: nat, v: nat) -> nat {
    (raw - field_bits(raw, lsb, n) * pow2(lsb) + (v * pow2(lsb)) % pow2(width)) as nat
}

/// The value that `n` bits `u` stand for in two's complement.
pub open spec fn from_twos_complement(u: nat, n: nat) -> int {
    if u >= pow2((n - 1) as nat) {
        u - pow2(n)
    } else {
        u as int
    }
}

/// The `n` bits that stand for `v` in two's complement.
pub open spec fn to_twos_complement(v: int, n: nat) -> nat {
    (v % (pow2(n) as int)) as nat
}

/// A number splits into the bits above a field, the field and the bits below it.
proof fn lemma_split(raw: nat, lsb: nat, n: nat)
    ensures
        pow2(lsb) > 0,
        pow2(n) > 0,
        pow2(lsb + n) == pow2(lsb) * pow2(n),
        raw % pow2(lsb) < pow2(lsb),
        field_bits(raw, lsb, n) < pow2(n),
        raw / pow2(lsb + n) == (raw / pow2(lsb)) / pow2(n),
        raw == pow2(lsb) * pow2(n) * (raw / pow2(lsb + n)) + pow2(lsb) * field_bits(raw, lsb, n)
            + raw % pow2(lsb),
{
    let p = pow2(lsb) as int;
    let q = pow2(n) as int;
    lemma_pow2_pos(lsb);
    lemma_pow2_pos(n);
    lemma_pow2_adds(lsb, n);
    lemma_fundamental_div_mod(raw as int, p);
    lemma_fundamental_div_mod(raw as int / p, q);
    lemma_div_denominator(raw as int, p, q);
    let t = (raw as int / p) / q;
    let c = (raw as int / p) % q;
    assert(p * (q * t + c) == p * q * t + p * c) by (nonlinear_arith);
}

/// A number built from the bits above a field, the field and the bits below it gives them back.
proof fn lemma_join(x: nat, lsb: nat, n: nat, t: nat, v: nat, r: nat)
    requires
        v < pow2(n),
        r < pow2(lsb),
        x == pow2(lsb) * pow2(n) * t + pow2(lsb) * v + r,
    ensures
        field_bits(x, lsb, n) == v,
        x % pow2(lsb) == r,
        x / pow2(lsb + n) == t,
{
    let p = pow2(lsb) as int;
    let q = pow2(n) as int;
    lemma_pow2_pos(lsb);
    lemma_pow2_pos(n);
    lemma_pow2_adds(lsb, n);
    assert(x == (q * t + v) * p + r) by (nonlinear_arith)
        requires
            x == p * q * t + p * v + r,
    ;
    lemma_fundamental_div_mod_converse(x as int, p, q * t + v, r as int);
    assert(q * t + v == t * q + v) by (nonlinear_arith);
    lemma_fundamental_div_mod_converse(q * t + v, q, t as int, v as int);
    lemma_div_denominator(x as int, p, q);
}

/// Writing a field: the bits taken out of the register are part of it, the bits put in
/// are what is kept of the new value, and the result is again a number of `width` bits.
/// When the field lies inside the register, the result holds the new value in the field and
/// the old bits below and above it.
pub proof fn lemma_with_field_bits(raw: nat, width: nat, lsb: nat, n: nat, v: nat)
    requires
        raw < pow2(width),
        lsb < width || lsb + n <= width,
        v < pow2(n),
    ensures
        field_bits(raw, lsb, n) * pow2(lsb) <= raw,
        lsb + n <= width ==> v * pow2(lsb) < pow2(width) && (v * pow2(lsb)) % pow2(width) == v
            * pow2(lsb),
        lsb + n > width ==> (v * pow2(lsb)) % pow2(width) == (v % pow2((width - lsb) as nat))
            * pow2(lsb) && (v % pow2((width - lsb) as nat)) * pow2(lsb) < pow2(width),
        with_field_bits(raw, width, lsb, n, v) < pow2(width),
        lsb + n <= width ==> field_bits(with_field_bits(raw, width, lsb, n, v), lsb, n) == v,
        lsb + n <= width ==> with_field_bits(raw, width, lsb, n, v) % pow2(lsb) == raw % pow2(
            lsb,
        ),
        lsb + n <= width ==> with_field_bits(raw, width, lsb, n, v) / pow2(lsb + n) == raw
            / pow2(lsb + n),
{
    let p = pow2(lsb) as int;
    let q = pow2(n) as int;
    let c = field_bits(raw, lsb, n) as int;
    let r = (raw % pow2(lsb)) as int;
    lemma_split(raw, lsb, n);
    let t = (raw / pow2(lsb + n)) as int;
    assert(c * p <= raw) by (nonlinear_arith)
        requires
            raw == p * q * t + p * c + r,
            p > 0,
            q > 0,
            t >= 0,
            r >= 0,
    ;
    if lsb + n <= width {
        let rest = (width - lsb - n) as nat;
        lemma_pow2_adds(lsb + n, rest);
        lemma_pow2_pos(rest);
        let big = pow2(rest) as int;
        assert(pow2(width) == p * q * big);
        assert(p * q > 0) by (nonlinear_arith)
            requires
                p > 0,
                q > 0,
        ;
        lemma_multiply_divide_lt(raw as int, p * q, big);
        assert(t < big);
        assert(v * p < pow2(width) && v * p + r < p * q && p * q * t + v * p + r < pow2(width))
            by (nonlinear_arith)
            requires
                v < q,
                0 <= r < p,
                0 <= t < big,
                pow2(width) == p * q * big,
        ;
        lemma_small_mod((v * p) as nat, pow2(width));
        let x = with_field_bits(raw, width, lsb, n, v);
        assert(x == p * q * t + p * v + r) by (nonlinear_arith)
            requires
                x == raw - c * p + v * p,
                raw == p * q * t + p * c + r,
        ;
        lemma_join(x, lsb, n, t as nat, v, r as nat);
    } else {
        let rest = (width - lsb) as nat;
        lemma_pow2_adds(lsb, rest);
        lemma_pow2_pos(rest);
        let cap = pow2(rest) as int;
        assert(pow2(width) == p * cap);
        lemma_multiply_divide_lt(raw as int, p, cap);
        assert(rest < n);
        vstd::arithmetic::power2::lemma_pow2_strictly_increases(rest, n);
        lemma_small_mod(raw / pow2(lsb), pow2(n));
        assert(c == raw / pow2(lsb));
        lemma_fundamental_div_mod(raw as int, p);
        assert(raw - c * p == r) by (nonlinear_arith)
            requires
                raw == p * (raw as int / p) + r,
                c == raw as int / p,
        ;
        lemma_truncate_middle(v as int, p, cap);
        assert(p * v == v * p && p * (v as int % cap) == (v as int % cap) * p) by (nonlinear_arith);
        assert((v as int % cap) * p + r < pow2(width)) by (nonlinear_arith)
            requires
                0 <= v as int % cap < cap,
                0 <= r < p,
                pow2(width) == p * cap,
        ;
    }
}

/// Reading a field after writing a value that fits in it gives that value back.
pub proof fn lemma_get_after_set(raw: nat, width: nat, lsb: nat, n: nat, v: nat)
    requires
        raw < pow2(width),
        lsb + n <= width,
        v < pow2(n),
    ensures
        field_bits(with_field_bits(raw, width, lsb, n, v), lsb, n) == v,
{
    lemma_with_field_bits(raw, width, lsb, n, v);
}

/// Writing the value that a field already holds leaves the register as it was.
pub proof fn lemma_set_current_value(raw: nat, width: nat, lsb: nat, n: nat)
    requires
        raw < pow2(width),
    ensures
        with_field_bits(raw, width, lsb, n, field_bits(raw, lsb, n)) == raw,
{
    let p = pow2(lsb) as int;
    let q = pow2(n) as int;
    let c = field_bits(raw, lsb, n) as int;
    let r = (raw % pow2(lsb)) as int;
    lemma_split(raw, lsb, n);
    let t = (raw / pow2(lsb + n)) as int;
    assert(c * p <= raw) by (nonlinear_arith)
        requires
            raw == p * q * t + p * c + r,
            p > 0,
            q > 0,
            t >= 0,
            r >= 0,
    ;
    lemma_small_mod((c * p) as nat, pow2(width));
}

/// Of two writes to the same field, the second is the one that counts.
pub proof fn lemma_set_twice(raw: nat, width: nat, lsb: nat, n: nat, v1: nat, v2: nat)
    requires
        raw < pow2(width),
        lsb + n <= width,
        v1 < pow2(n),
        v2 < pow2(n),
    ensures
        with_field_bits(with_field_bits(raw, width, lsb, n, v1), width, lsb, n, v2)
            == with_field_bits(raw, width, lsb, n, v2),
{
    lemma_pow2_pos(n);
    lemma_with_field_bits(raw, width, lsb, n, v1);
    lemma_with_field_bits(raw, width, lsb, n, v2);
    let mid = with_field_bits(raw, width, lsb, n, v1);
    lemma_with_field_bits(mid, width, lsb, n, v2);
}

/// A field that lies below bit `k` depends only on the bits below `k`.
proof fn lemma_field_bits_of_low(x: nat, k: nat, a: nat, m: nat)
    requires
        a + m <= k,
    ensures
        field_bits(x, a, m) == field_bits(x % pow2(k), a, m),
{
    let big = pow2(k) as int;
    let pa = pow2(a) as int;
    let pm = pow2(m) as int;
    let d = pow2((k - a) as nat) as int;
    let e = pow2((k - a - m) as nat) as int;
    lemma_pow2_pos(k);
    lemma_pow2_pos(a);
    lemma_pow2_pos(m);
    lemma_pow2_pos((k - a - m) as nat);
    lemma_pow2_adds(a, (k - a) as nat);
    lemma_pow2_adds(m, (k - a - m) as nat);
    let hi = x as int / big;
    let s = x as int % big;
    lemma_fundamental_div_mod(x as int, big);
    lemma_fundamental_div_mod(s, pa);
    assert(x == (d * hi + s / pa) * pa + s % pa) by (nonlinear_arith)
        requires
            x == big * hi + s,
            s == pa * (s / pa) + s % pa,
            big == pa * d,
    ;
    assert(0 <= s / pa) by {
        vstd::arithmetic::div_mod::lemma_div_pos_is_pos(s, pa);
    }
    lemma_fundamental_div_mod_converse(x as int, pa, d * hi + s / pa, s % pa);
    assert(d * hi + s / pa == pm * (e * hi) + s / pa) by (nonlinear_arith)
        requires
            d == pm * e,
    ;
    lemma_mod_multiples_vanish(e * hi, s / pa, pm);
}

/// A field that lies at or above bit `k` depends only on the bits from `k` up.
proof fn lemma_field_bits_of_high(x: nat, k: nat, a: nat, m: nat)
    requires
        k <= a,
    ensures
        field_bits(x, a, m) == ((x / pow2(k)) / pow2((a - k) as nat)) % pow2(m),
{
    lemma_pow2_pos(k);
    lemma_pow2_pos((a - k) as nat);
    lemma_pow2_adds(k, (a - k) as nat);
    lemma_div_denominator(x as int, pow2(k) as int, pow2((a - k) as nat) as int);
}

/// Writing a field that lies inside the register leaves every field that does not overlap
/// it as it was.
pub proof fn lemma_set_keeps_other_fields(
    raw: nat,
    width: nat,
    lsb: nat,
    n: nat,
    v: nat,
    other_lsb: nat,
    other_n: nat,
)
    requires
        raw < pow2(width),
        lsb + n <= width,
        v < pow2(n),
        other_lsb + other_n <= lsb || lsb + n <= other_lsb,
    ensures
        field_bits(with_field_bits(raw, width, lsb, n, v), other_lsb, other_n) == field_bits(
            raw,
            other_lsb,
            other_n,
        ),
{
    let x = with_field_bits(raw, width, lsb, n, v);
    lemma_with_field_bits(raw, width, lsb, n, v);
    if other_lsb + other_n <= lsb {
        lemma_field_bits_of_low(x, lsb, other_lsb, other_n);
        lemma_field_bits_of_low(raw, lsb, other_lsb, other_n);
    } else {
        lemma_field_bits_of_high(x, lsb + n, other_lsb, other_n);
        lemma_field_bits_of_high(raw, lsb + n, other_lsb, other_n);
    }
}

/// A field's bits read as an unsigned number fit in the field.
pub proof fn lemma_field_bits_bound(raw: nat, lsb: nat, n: nat)
    ensures
        field_bits(raw, lsb, n) < pow2(n),
{
    lemma_pow2_pos(n);
}

/// Every field of the zero register reads zero.
pub proof fn lemma_field_bits_of_zero(lsb: nat, n: nat)
    ensures
        field_bits(0, lsb, n) == 0,
{
    lemma_pow2_pos(lsb);
    lemma_pow2_pos(n);
    lemma_small_mod(0, pow2(n));
}

/// A value in the range of an `n`-bit two's complement number is written as `n` bits and
/// read back unchanged.
pub proof fn lemma_twos_complement_roundtrip(v: int, n: nat)
    requires
        n >= 1,
        -pow2((n - 1) as nat) <= v < pow2((n - 1) as nat),
    ensures
        to_twos_complement(v, n) < pow2(n),
        from_twos_complement(to_twos_complement(v, n), n) == v,
{
    let h = pow2((n - 1) as nat) as int;
    lemma_pow2_unfold(n);
    lemma_pow2_pos(n);
    if v >= 0 {
        lemma_fundamental_div_mod_converse(v, 2 * h, 0, v);
    } else {
        lemma_fundamental_div_mod_converse(v, 2 * h, -1, v + 2 * h);
    }
}

/// Every `n` bits read as a two's complement number give a value in the range of such
/// numbers, which is written back as the same bits.
pub proof fn lemma_twos_complement_range(u: nat, n: nat)
    requires
        n >= 1,
        u < pow2(n),
    ensures
        -pow2((n - 1) as nat) <= from_twos_complement(u, n) < pow2((n - 1) as nat),
        to_twos_complement(from_twos_complement(u, n), n) == u,
{
    let h = pow2((n - 1) as nat) as int;
    lemma_pow2_unfold(n);
    if u >= h {
        lemma_fundamental_div_mod_converse(u - 2 * h, 2 * h, -1, u as int);
    } else {
        lemma_fundamental_div_mod_converse(u as int, 2 * h, 0, u as int);
    }
}

/// Reading a signed field after writing a value in its range gives that value back.
pub proof fn lemma_signed_get_after_set(raw: nat, width: nat, lsb: nat, n: nat, v: int)
    requires
        raw < pow2(width),
        lsb + n <= width,
        n >= 1,
        -pow2((n - 1) as nat) <= v < pow2((n - 1) as nat),
    ensures
        from_twos_complement(
            field_bits(with_field_bits(raw, width, lsb, n, to_twos_complement(v, n)), lsb, n),
            n,
        ) == v,
{
    lemma_twos_complement_roundtrip(v, n);
    lemma_get_after_set(raw, width, lsb, n, to_twos_complement(v, n));
}

/// Writes to two fields that lie inside the register and do not overlap commute: either
/// order gives the same register, and in it both fields read back what was written.
pub proof fn lemma_disjoint_writes_commute(
    raw: nat,
    width: nat,
    lsb1: nat,
    n1: nat,
    v1: nat,
    lsb2: nat,
    n2: nat,
    v2: nat,
)
    requires
        raw < pow2(width),
        lsb1 + n1 <= width,
        lsb2 + n2 <= width,
        v1 < pow2(n1),
        v2 < pow2(n2),
        lsb1 + n1 <= lsb2 || lsb2 + n2 <= lsb1,
    ensures
        with_field_bits(with_field_bits(raw, width, lsb1, n1, v1), width, lsb2, n2, v2)
            == with_field_bits(with_field_bits(raw, width, lsb2, n2, v2), width, lsb1, n1, v1),
        field_bits(
            with_field_bits(with_field_bits(raw, width, lsb1, n1, v1), width, lsb2, n2, v2),
            lsb1,
            n1,
        ) == v1,
        field_bits(
            with_field_bits(with_field_bits(raw, width, lsb1, n1, v1), width, lsb2, n2, v2),
            lsb2,
            n2,
        ) == v2,
{
    let x1 = with_field_bits(raw, width, lsb1, n1, v1);
    let x2 = with_field_bits(raw, width, lsb2, n2, v2);
    lemma_with_field_bits(raw, width, lsb1, n1, v1);
    lemma_with_field_bits(raw, width, lsb2, n2, v2);
    lemma_with_field_bits(x1, width, lsb2, n2, v2);
    lemma_with_field_bits(x2, width, lsb1, n1, v1);
    lemma_set_keeps_other_fields(raw, width, lsb1, n1, v1, lsb2, n2);
    lemma_set_keeps_other_fields(raw, width, lsb2, n2, v2, lsb1, n1);
    lemma_set_keeps_other_fields(x1, width, lsb2, n2, v2, lsb1, n1);
}

/// Reading `n` bits as a two's complement number gives the one value that is congruent to
/// those bits modulo `2^n` and lies in `[-2^(n-1), 2^(n-1))`: bits below `2^(n-1)` read as
/// themselves, the others as themselves less `2^n`.
pub proof fn lemma_from_twos_complement_is_congruent(u: nat, n: nat)
    requires
        n >= 1,
        u < pow2(n),
    ensures
        -pow2((n - 1) as nat) <= from_twos_complement(u, n) < pow2((n - 1) as nat),
        from_twos_complement(u, n) % (pow2(n) as int) == u as int,
        pow2(n) == 2 * pow2((n - 1) as nat),
{
    let h = pow2((n - 1) as nat) as int;
    lemma_pow2_unfold(n);
    lemma_pow2_pos((n - 1) as nat);
    if u >= h {
        lemma_fundamental_div_mod_converse(u - 2 * h, 2 * h, -1, u as int);
    } else {
        lemma_fundamental_div_mod_converse(u as int, 2 * h, 0, u as int);
    }
}

/// Writing a value as `n` bits of two's complement gives the bits congruent to it modulo
/// `2^n`: a value from 0 up is written as itself, a negative one as itself plus `2^n`.
pub proof fn lemma_to_twos_complement_is_congruent(v: int, n: nat)
    requires
        n >= 1,
        -pow2((n - 1) as nat) <= v < pow2((n - 1) as nat),
    ensures
        to_twos_complement(v, n) < pow2(n),
        to_twos_complement(v, n) as int % (pow2(n) as int) == v % (pow2(n) as int),
        v >= 0 ==> to_twos_complement(v, n) == v,
        v < 0 ==> to_twos_complement(v, n) == v + pow2(n),
{
    let h = pow2((n - 1) as nat) as int;
    lemma_pow2_unfold(n);
    lemma_pow2_pos((n - 1) as nat);
    if v >= 0 {
        lemma_fundamental_div_mod_converse(v, 2 * h, 0, v);
    } else {
        lemma_fundamental_div_mod_converse(v, 2 * h, -1, v + 2 * h);
    }
    let t = to_twos_complement(v, n) as int;
    lemma_fundamental_div_mod_converse(t, 2 * h, 0, t);
}

} // verus!
