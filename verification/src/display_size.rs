//! Display dimensions of a stream whose pixels are not square.

use vstd::prelude::*;

verus! {

/// `w` is the square root of `num / den` rounded to the nearest integer, a
/// half rounding up, and held at `cap` where the root lies beyond it.
///
/// The root rounds to `w` when `w - 1/2 <= root < w + 1/2`; both bounds are
/// squared and scaled by `4 * den` so that only integers are compared.
pub open spec fn is_rounded_root(num: nat, den: nat, cap: nat, w: nat) -> bool {
    &&& w <= cap
    &&& (w == 0 || (2 * w - 1) * (2 * w - 1) * den <= 4 * num)
    &&& (w == cap || 4 * num < (2 * w + 1) * (2 * w + 1) * den)
}

/// Magnitude of an aspect-ratio term.
pub open spec fn magnitude(v: int) -> nat {
    if v < 0 {
        (-v) as nat
    } else {
        v as nat
    }
}

/// The two terms of an aspect ratio point the same way.
pub open spec fn same_sign(a: int, b: int) -> bool {
    (a < 0) == (b < 0)
}

/// What `calculate_display_video_size` returns, as a relation: the decoded
/// size when there is no aspect ratio, nothing for a negative ratio, and
/// otherwise the size of equal area whose sides stand in the given ratio,
/// each side rounded on its own.
pub open spec fn is_display_size(dar_x: int, dar_y: int, x: nat, y: nat, size: (u32, u32)) -> bool {
    if dar_x == 0 || dar_y == 0 {
        size.0 == x && size.1 == y
    } else if !same_sign(dar_x, dar_y) {
        size.0 == 0 && size.1 == 0
    } else {
        &&& is_rounded_root(
            x * y * magnitude(dar_x),
            magnitude(dar_y),
            u32::MAX as nat,
            size.0 as nat,
        )
        &&& is_rounded_root(
            x * y * magnitude(dar_y),
            magnitude(dar_x),
            u32::MAX as nat,
            size.1 as nat,
        )
    }
}

/// At most one number is the rounded root of a given ratio.
pub proof fn lemma_rounded_root_unique(num: nat, den: nat, cap: nat, a: nat, b: nat)
    requires
        den > 0,
        is_rounded_root(num, den, cap, a),
        is_rounded_root(num, den, cap, b),
    ensures
        a == b,
{
    if a < b {
        lemma_odd_square_grows(a, b, den);
    } else if b < a {
        lemma_odd_square_grows(b, a, den);
    }
}

proof fn lemma_odd_square_grows(a: nat, b: nat, den: nat)
    requires
        a < b,
    ensures
        (2 * a + 1) * (2 * a + 1) * den <= (2 * b - 1) * (2 * b - 1) * den,
{
    let p: int = (2 * a + 1) as int;
    let q: int = 2 * b - 1;
    assert(p * p <= q * q) by (nonlinear_arith)
        requires
            0 <= p <= q,
    ;
    assert(p * p * den <= q * q * den) by (nonlinear_arith)
        requires
            p * p <= q * q,
            0 <= den,
    ;
}

/// The size a stream is displayed at is a function of its decoded size and
/// aspect ratio.
pub proof fn lemma_display_size_unique(
    dar_x: int,
    dar_y: int,
    x: nat,
    y: nat,
    first: (u32, u32),
    second: (u32, u32),
)
    requires
        is_display_size(dar_x, dar_y, x, y, first),
        is_display_size(dar_x, dar_y, x, y, second),
    ensures
        first == second,
{
    if dar_x != 0 && dar_y != 0 && same_sign(dar_x, dar_y) {
        lemma_rounded_root_unique(
            x * y * magnitude(dar_x),
            magnitude(dar_y),
            u32::MAX as nat,
            first.0 as nat,
            second.0 as nat,
        );
        lemma_rounded_root_unique(
            x * y * magnitude(dar_y),
            magnitude(dar_x),
            u32::MAX as nat,
            first.1 as nat,
            second.1 as nat,
        );
    }
}

/// `(2w + 1)^2 * den <= 4 * num`: the root of `num / den` rounds to more
/// than `w`.
spec fn rounds_above(num: nat, den: nat, w: nat) -> bool {
    (2 * w + 1) * (2 * w + 1) * den <= 4 * num
}

fn exceeds(num: u128, den: u128, w: u64) -> (above: bool)
    requires
        den <= 0x8000_0000,
        num <= 0x8000_0000_0000_0000_0000_0000,
        w <= u32::MAX,
    ensures
        above == rounds_above(num as nat, den as nat, w as nat),
{
    let side: u128 = 2 * (w as u128) + 1;
    assert(side * side <= 0x2_0000_0000 * 0x2_0000_0000) by (nonlinear_arith)
        requires
            0 <= side <= 0x2_0000_0000,
    ;
    let square: u128 = side * side;
    assert(square * den <= 0x4_0000_0000_0000_0000 * 0x8000_0000) by (nonlinear_arith)
        requires
            0 <= square <= 0x4_0000_0000_0000_0000,
            0 <= den <= 0x8000_0000,
    ;
    square * den <= 4 * num
}

/// Root of `num / den`, rounded and held at `u32::MAX`, by bisection.
fn rounded_root(num: u128, den: u128) -> (w: u32)
    requires
        0 < den <= 0x8000_0000,
        num <= 0x8000_0000_0000_0000_0000_0000,
    ensures
        is_rounded_root(num as nat, den as nat, u32::MAX as nat, w as nat),
{
    let mut low: u64 = 0;
    let mut high: u64 = 0xFFFF_FFFF;
    while low < high
        invariant
            low <= high <= u32::MAX,
            den <= 0x8000_0000,
            num <= 0x8000_0000_0000_0000_0000_0000,
            low == 0 || rounds_above(num as nat, den as nat, (low - 1) as nat),
            high == u32::MAX || !rounds_above(num as nat, den as nat, high as nat),
        decreases high - low,
    {
        let mid: u64 = low + (high - low) / 2;
        if exceeds(num, den, mid) {
            low = mid + 1;
        } else {
            high = mid;
        }
    }
    let w: u32 = low as u32;
    assert(w == 0 || 2 * (w as nat) - 1 == 2 * ((w - 1) as nat) + 1);
    w
}

fn magnitude_of(v: i32) -> (m: u128)
    ensures
        m == magnitude(v as int),
        m <= 0x8000_0000,
{
    if v < 0 {
        (-(v as i64)) as u128
    } else {
        v as u128
    }
}

/// Size at which a stream decoded at `x` by `y` pixels is displayed under
/// the aspect ratio `dar_x : dar_y`.
///
/// A ratio with a zero term means that the container gave none, and the
/// decoded size stands. Otherwise the result covers the decoded area with
/// sides in the given ratio: the width is the root of `x * y * dar_x / dar_y`
/// and the height the root of `x * y * dar_y / dar_x`, each rounded to the
/// nearest integer and held at `u32::MAX`. A negative ratio has no such size
/// and gives `(0, 0)`.
pub fn calculate_display_video_size(dar_x: i32, dar_y: i32, x: u32, y: u32) -> (size: (u32, u32))
    ensures
        is_display_size(dar_x as int, dar_y as int, x as nat, y as nat, size),
{
    if dar_x == 0 || dar_y == 0 {
        return (x, y);
    }
    if (dar_x < 0) != (dar_y < 0) {
        return (0, 0);
    }
    assert(x * y <= 0xFFFF_FFFF * 0xFFFF_FFFF) by (nonlinear_arith)
        requires
            0 <= x <= 0xFFFF_FFFF,
            0 <= y <= 0xFFFF_FFFF,
    ;
    let area: u128 = (x as u128) * (y as u128);
    let across: u128 = magnitude_of(dar_x);
    let down: u128 = magnitude_of(dar_y);
    assert(area * across <= 0xFFFF_FFFE_0000_0001 * 0x8000_0000) by (nonlinear_arith)
        requires
            0 <= area <= 0xFFFF_FFFE_0000_0001,
            0 <= across <= 0x8000_0000,
    ;
    assert(area * down <= 0xFFFF_FFFE_0000_0001 * 0x8000_0000) by (nonlinear_arith)
        requires
            0 <= area <= 0xFFFF_FFFE_0000_0001,
            0 <= down <= 0x8000_0000,
    ;
    let width: u32 = rounded_root(area * across, down);
    let height: u32 = rounded_root(area * down, across);
    (width, height)
}

} // verus!
