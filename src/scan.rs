//! The order in which pixels are produced: rows from the top of the image
//! (`j = height - 1`) to the bottom (`j = 0`), each row from left to right.
use vstd::arithmetic::div_mod::{lemma_fundamental_div_mod, lemma_fundamental_div_mod_converse};
use vstd::prelude::*;

verus! {

/// Column and row of the `k`-th pixel of the stream.
pub open spec fn scan_position(width: nat, height: nat, k: nat) -> (nat, nat) {
    ((k % width) as nat, (height - 1 - k / width) as nat)
}

/// Place in the stream of the pixel at column `i` and row `j`.
pub open spec fn scan_index(width: nat, height: nat, i: nat, j: nat) -> nat {
    ((height - 1 - j) * width + i) as nat
}

/// Column and row of the `k`-th pixel written for an image of the given size.
pub fn pixel_at(width: u32, height: u32, k: u64) -> (pos: (u32, u32))
    requires
        width > 0,
        k < width * height,
    ensures
        (pos.0 as nat, pos.1 as nat) == scan_position(width as nat, height as nat, k as nat),
{
    proof {
        let (kk, w, h) = (k as int, width as int, height as int);
        lemma_fundamental_div_mod(kk, w);
        assert(kk / w < h) by (nonlinear_arith)
            requires
                kk == w * (kk / w) + kk % w,
                0 <= kk % w,
                kk < w * h,
                w > 0,
        ;
    }
    let i = (k % width as u64) as u32;
    let j = height - 1 - (k / width as u64) as u32;
    (i, j)
}

/// Every pixel of the image has a place in the stream, and that place leads
/// back to it.
pub proof fn lemma_scan_reaches_every_pixel(width: nat, height: nat, i: nat, j: nat)
    requires
        i < width,
        j < height,
    ensures
        scan_index(width, height, i, j) < width * height,
        scan_position(width, height, scan_index(width, height, i, j)) == (i, j),
{
    let q = height - 1 - j;
    let k = q * width + i;
    assert(k < width * height) by (nonlinear_arith)
        requires
            k == q * width + i,
            0 <= q < height,
            i < width,
    ;
    lemma_fundamental_div_mod_converse(k, width as int, q, i as int);
}

/// No pixel is written twice: distinct places in the stream hold distinct pixels.
pub proof fn lemma_scan_visits_once(width: nat, height: nat, k1: nat, k2: nat)
    requires
        width > 0,
        k1 < width * height,
        k2 < width * height,
        scan_position(width, height, k1) == scan_position(width, height, k2),
    ensures
        k1 == k2,
{
    lemma_fundamental_div_mod(k1 as int, width as int);
    lemma_fundamental_div_mod(k2 as int, width as int);
    assert(k1 / width < height) by (nonlinear_arith)
        requires
            k1 == width * (k1 / width) + k1 % width,
            0 <= k1 % width,
            k1 < width * height,
            width > 0,
    ;
    assert(k2 / width < height) by (nonlinear_arith)
        requires
            k2 == width * (k2 / width) + k2 % width,
            0 <= k2 % width,
            k2 < width * height,
            width > 0,
    ;
}

} // verus!
