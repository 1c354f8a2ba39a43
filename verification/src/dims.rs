//! Image dimension planning.
//!
//! Given a byte count, pick a width and height such that the pixel grid
//! holds one pixel per byte: the width is the ceiling of the square root
//! of the count (the smallest square-ish width), the height is however
//! many rows of that width the bytes then need. Counts beyond what two
//! 32-bit dimensions can hold are rejected.

use vstd::prelude::*;
use crate::PicbinError;

verus! {

/// The largest byte count that a pair of 32-bit dimensions can hold.
pub const MAX_AREA: u64 = 0xFFFF_FFFF * 0xFFFF_FFFF;

/// What the dimension planner promises for a byte count `n`: `w` is the
/// ceiling of the square root of `n`, `h` is the ceiling of `n / w`
/// (both characterized by bracketing products), so the grid holds all
/// `n` bytes. A zero byte count gets a degenerate 1-by-1 grid.
pub open spec fn valid_dims(n: int, w: int, h: int) -> bool {
    if n == 0 {
        w == 1 && h == 1
    } else {
        &&& 1 <= w <= u32::MAX
        &&& 1 <= h <= u32::MAX
        &&& (w - 1) * (w - 1) < n <= w * w
        &&& (h - 1) * w < n <= h * w
    }
}

/// A planned grid always has room for every byte it was planned for.
pub proof fn lemma_dims_capacity(n: int, w: int, h: int)
    requires
        valid_dims(n, w, h),
    ensures
        w * h >= n,
{
    if n != 0 {
        assert(w * h == h * w) by (nonlinear_arith);
    }
}

/// The smallest 32-bit value whose square reaches `n`, by binary search.
fn ceil_sqrt(n: u64) -> (w: u64)
    requires
        n <= MAX_AREA,
    ensures
        w <= 0xFFFF_FFFF,
        n <= w * w,
        w > 0 ==> (w - 1) * (w - 1) < n,
{
    let mut lo: u64 = 0;
    let mut hi: u64 = 0xFFFF_FFFF;
    while lo < hi
        invariant
            lo <= hi <= 0xFFFF_FFFF,
            n <= hi * hi,
            lo > 0 ==> (lo - 1) * (lo - 1) < n,
        decreases hi - lo,
    {
        let mid: u64 = lo + (hi - lo) / 2;
        assert(mid * mid <= 0xFFFF_FFFFu64 * 0xFFFF_FFFF) by (nonlinear_arith)
            requires
                mid <= 0xFFFF_FFFF,
        ;
        let sq: u64 = mid * mid;
        if sq >= n {
            hi = mid;
        } else {
            lo = mid + 1;
        }
    }
    lo
}

/// Calculate appropriate dimensions for an image that must hold
/// `filesize` bytes, one pixel per byte. Succeeds exactly when the count
/// fits a 32-bit-by-32-bit grid; an empty input gets a 1-by-1 grid whose
/// single cell is padding.
pub fn dimensions(filesize: u64) -> (r: Result<(u32, u32), PicbinError>)
    ensures
        filesize <= MAX_AREA ==> (r matches Ok(d) && valid_dims(
            filesize as int,
            d.0 as int,
            d.1 as int,
        )),
        filesize > MAX_AREA ==> r == Err::<(u32, u32), PicbinError>(
            PicbinError::FileSizeTooLarge,
        ),
{
    if filesize > MAX_AREA {
        return Err(PicbinError::FileSizeTooLarge);
    }
    if filesize == 0 {
        return Ok((1, 1));
    }
    let w: u64 = ceil_sqrt(filesize);
    let h: u64 = (filesize + w - 1) / w;
    proof {
        let n = filesize as int;
        let wi = w as int;
        let hi = h as int;
        vstd::arithmetic::div_mod::lemma_fundamental_div_mod(n + wi - 1, wi);
        let rem = (n + wi - 1) % wi;
        assert(n + wi - 1 == wi * hi + rem);
        assert((hi - 1) * wi == wi * hi - wi) by (nonlinear_arith);
        assert(hi * wi == wi * hi) by (nonlinear_arith);
        assert((hi - 1) * wi < n);
        assert(n <= hi * wi);
        assert(hi >= 1) by {
            if hi <= 0 {
                assert(wi * hi <= 0) by (nonlinear_arith)
                    requires
                        wi >= 1 && hi <= 0,
                ;
            }
        }
        assert(hi <= wi) by {
            if hi > wi {
                assert(wi * hi >= wi * (wi + 1)) by (nonlinear_arith)
                    requires
                        hi >= wi + 1 && wi >= 1,
                ;
                assert(wi * (wi + 1) == wi * wi + wi) by (nonlinear_arith);
            }
        }
    }
    Ok((w as u32, h as u32))
}

} // verus!
