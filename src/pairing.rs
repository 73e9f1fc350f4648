use vstd::prelude::*;

verus! {

/// Zig-zag code of a signed integer: 0, -1, 1, -2, 2, ... go to 0, 1, 2, 3, 4, ...
pub open spec fn zigzag(v: int) -> int {
    if v >= 0 {
        2 * v
    } else {
        -2 * v - 1
    }
}

/// The pairing polynomial on non-negative `x` and `y`: `x^2 + x + y` when `x >= y`,
/// else `x + y^2`.
pub open spec fn pair_poly(x: int, y: int) -> int {
    if x >= y {
        x * x + x + y
    } else {
        x + y * y
    }
}

/// Half the pairing polynomial of the zig-zag codes of `a` and `b`, rounded down.
pub open spec fn cantor_index(a: i32, b: i32) -> int {
    pair_poly(zigzag(a as int), zigzag(b as int)) / 2
}

/// Whether `a` and `b` are both negative or both non-negative.
pub open spec fn same_sign(a: i32, b: i32) -> bool {
    (a < 0) == (b < 0)
}

/// The hash of `(a, b)`: the index itself when the two have the same sign, else
/// `-index - 1` read as an unsigned 64-bit integer.
pub open spec fn cantor_value(a: i32, b: i32) -> int {
    if same_sign(a, b) {
        cantor_index(a, b)
    } else {
        0xFFFF_FFFF_FFFF_FFFFint - cantor_index(a, b)
    }
}

/// Maps a pair of signed 32-bit integers to one unsigned 64-bit integer, distinct pairs
/// to distinct values.
pub fn cantor_hash(a: i32, b: i32) -> (r: u64)
    ensures
        r == cantor_value(a, b),
{
    let x: u64 = if a >= 0 {
        2 * (a as u64)
    } else {
        (-(a as i64) * 2 - 1) as u64
    };
    let y: u64 = if b >= 0 {
        2 * (b as u64)
    } else {
        (-(b as i64) * 2 - 1) as u64
    };
    assert(x * x <= 0xFFFF_FFFE_0000_0001) by (nonlinear_arith)
        requires
            x <= 0xFFFF_FFFF,
    ;
    assert(y * y <= 0xFFFF_FFFE_0000_0001) by (nonlinear_arith)
        requires
            y <= 0xFFFF_FFFF,
    ;
    let z: u64 = if x >= y {
        (x * x + x + y) / 2
    } else {
        (x + y * y) / 2
    };
    if (a < 0 && b < 0) || (a >= 0 && b >= 0) {
        z
    } else {
        // `-z - 1` in two's complement; `z` is below 2^63.
        u64::MAX - z
    }
}

/// A square has the parity of its root.
proof fn lemma_square_parity(x: int)
    requires
        x >= 0,
    ensures
        (x * x) % 2 == x % 2,
{
    let q = x / 2;
    let r = x % 2;
    assert(x * x == 2 * (2 * q * q + 2 * q * r) + r * r) by (nonlinear_arith)
        requires
            x == 2 * q + r,
    ;
    assert(r * r == r) by (nonlinear_arith)
        requires
            r == 0 || r == 1,
    ;
}

/// The pairing polynomial lies between `m^2` and `m^2 + 2m`, where `m` is the larger argument.
proof fn lemma_pair_poly_bounds(x: int, y: int)
    requires
        x >= 0,
        y >= 0,
    ensures
        x >= y ==> x * x + x <= pair_poly(x, y) <= x * x + 2 * x,
        x < y ==> y * y <= pair_poly(x, y) < y * y + y,
{
}

/// When `m1 < m2`, the square of `m2` exceeds `m1^2 + 2 * m1`.
proof fn lemma_square_gap(m1: int, m2: int)
    requires
        0 <= m1 < m2,
    ensures
        m1 * m1 + 2 * m1 < m2 * m2,
{
    assert((m1 + 1) * (m1 + 1) <= m2 * m2) by (nonlinear_arith)
        requires
            0 <= m1 + 1 <= m2,
    ;
    assert((m1 + 1) * (m1 + 1) == m1 * m1 + 2 * m1 + 1) by (nonlinear_arith);
}

/// The pairing polynomial is injective on pairs of non-negative integers.
proof fn lemma_pair_poly_injective(x1: int, y1: int, x2: int, y2: int)
    requires
        x1 >= 0,
        y1 >= 0,
        x2 >= 0,
        y2 >= 0,
        pair_poly(x1, y1) == pair_poly(x2, y2),
    ensures
        x1 == x2,
        y1 == y2,
{
    let m1 = if x1 >= y1 { x1 } else { y1 };
    let m2 = if x2 >= y2 { x2 } else { y2 };
    lemma_pair_poly_bounds(x1, y1);
    lemma_pair_poly_bounds(x2, y2);
    if m1 < m2 {
        lemma_square_gap(m1, m2);
    } else if m2 < m1 {
        lemma_square_gap(m2, m1);
    }
}

/// The parity of the pairing polynomial: that of `y` when `x >= y`, else that of `x + y`.
proof fn lemma_pair_poly_parity(x: int, y: int)
    requires
        x >= 0,
        y >= 0,
    ensures
        x >= y ==> pair_poly(x, y) % 2 == y % 2,
        x < y ==> pair_poly(x, y) % 2 == (x + y) % 2,
{
    lemma_square_parity(x);
    lemma_square_parity(y);
}

/// Two pairs whose sums have the same parity never give pairing polynomials `p` and
/// `p + 1` with `p` even.
proof fn lemma_no_adjacent_in_class(x1: int, y1: int, x2: int, y2: int)
    requires
        x1 >= 0,
        y1 >= 0,
        x2 >= 0,
        y2 >= 0,
        (x1 + y1) % 2 == (x2 + y2) % 2,
        pair_poly(x1, y1) % 2 == 0,
    ensures
        pair_poly(x2, y2) != pair_poly(x1, y1) + 1,
{
    lemma_pair_poly_parity(x1, y1);
    lemma_pair_poly_parity(x2, y2);
    if pair_poly(x2, y2) != pair_poly(x1, y1) + 1 {
    } else if (x1 + y1) % 2 == 0 {
        // The odd one comes from x2 >= y2 with y2 odd; one less is (x2, y2 - 1).
        assert(pair_poly(x2, y2 - 1) == pair_poly(x2, y2) - 1);
        lemma_pair_poly_injective(x1, y1, x2, y2 - 1);
    } else {
        // The even one comes from x1 > y1 with y1 even; one more is (x1, y1 + 1).
        assert(pair_poly(x1, y1 + 1) == pair_poly(x1, y1) + 1);
        lemma_pair_poly_injective(x1, y1 + 1, x2, y2);
    }
}

/// Half the pairing polynomial, rounded down, is injective on pairs whose sums have the
/// same parity.
proof fn lemma_half_pair_poly_injective(x1: int, y1: int, x2: int, y2: int)
    requires
        x1 >= 0,
        y1 >= 0,
        x2 >= 0,
        y2 >= 0,
        (x1 + y1) % 2 == (x2 + y2) % 2,
        pair_poly(x1, y1) / 2 == pair_poly(x2, y2) / 2,
    ensures
        x1 == x2,
        y1 == y2,
{
    let p1 = pair_poly(x1, y1);
    let p2 = pair_poly(x2, y2);
    if p1 < p2 {
        lemma_no_adjacent_in_class(x1, y1, x2, y2);
    } else if p2 < p1 {
        lemma_no_adjacent_in_class(x2, y2, x1, y1);
    }
    lemma_pair_poly_injective(x1, y1, x2, y2);
}

/// Facts on the zig-zag code of a 32-bit integer: its range, and that its parity gives the
/// sign.
proof fn lemma_zigzag(v: i32)
    ensures
        0 <= zigzag(v as int) <= 0xFFFF_FFFF,
        (zigzag(v as int) % 2 == 0) == (v >= 0),
{
}

/// The index of a pair is below 2^63.
proof fn lemma_cantor_index_bound(a: i32, b: i32)
    ensures
        0 <= cantor_index(a, b) < 0x8000_0000_0000_0000,
{
    let x = zigzag(a as int);
    let y = zigzag(b as int);
    lemma_zigzag(a);
    lemma_zigzag(b);
    lemma_pair_poly_bounds(x, y);
    let m = if x >= y { x } else { y };
    assert(m * m + 2 * m <= 0xFFFF_FFFF_FFFF_FFFF) by (nonlinear_arith)
        requires
            0 <= m <= 0xFFFF_FFFF,
    ;
}

/// The hash is a function of its inputs alone: two results that each meet the contract of
/// `cantor_hash` on the same `a` and `b` are equal.
pub proof fn lemma_cantor_hash_deterministic(a: i32, b: i32, r1: u64, r2: u64)
    requires
        r1 == cantor_value(a, b),
        r2 == cantor_value(a, b),
    ensures
        r1 == r2,
{
}

/// Distinct pairs of 32-bit integers have distinct hashes.
pub proof fn lemma_cantor_hash_injective(a1: i32, b1: i32, a2: i32, b2: i32)
    requires
        cantor_value(a1, b1) == cantor_value(a2, b2),
    ensures
        a1 == a2,
        b1 == b2,
{
    let x1 = zigzag(a1 as int);
    let y1 = zigzag(b1 as int);
    let x2 = zigzag(a2 as int);
    let y2 = zigzag(b2 as int);
    lemma_zigzag(a1);
    lemma_zigzag(b1);
    lemma_zigzag(a2);
    lemma_zigzag(b2);
    lemma_cantor_index_bound(a1, b1);
    lemma_cantor_index_bound(a2, b2);
    assert(same_sign(a1, b1) == same_sign(a2, b2));
    assert(cantor_index(a1, b1) == cantor_index(a2, b2));
    lemma_half_pair_poly_injective(x1, y1, x2, y2);
}

} // verus!
