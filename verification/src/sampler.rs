//! Sampler: reduces a raster pixel buffer (four channel bytes per pixel, scan
//! order) to a single-channel byte vector by fixed-stride channel selection:
//! one byte out of every four, starting at the first.

use crate::surface::{SurfaceModel, Surface};
use vstd::prelude::*;

verus! {

/// The channel-sampled form of a raw buffer: every fourth byte, starting at
/// index zero, in order. For a buffer of `4 * n` bytes the result has `n`
/// elements; a trailing fragment shorter than four bytes contributes nothing.
pub open spec fn channel_sample_rep(data: Seq<u8>) -> Seq<u8> {
    Seq::new(data.len() / 4, |i: int| data[4 * i])
}

/// The sample of a surface: the channel-sampled form of its pixel buffer,
/// one byte per pixel in scan order. The stroke state plays no part.
pub open spec fn sample_rep(s: SurfaceModel) -> Seq<u8> {
    channel_sample_rep(s.pixels)
}

/// Selects every fourth byte of `data` (indices 0, 4, 8, ...), preserving
/// order. A pure read: `data` is untouched.
pub fn channel_sample(data: &Vec<u8>) -> (r: Vec<u8>)
    ensures
        r@ == channel_sample_rep(data@),
{
    let n: usize = data.len() / 4;
    let mut r: Vec<u8> = Vec::new();
    while r.len() < n
        invariant
            r@.len() <= n,
            n == data@.len() / 4,
            data@.len() <= usize::MAX,
            forall|i: int| 0 <= i < r@.len() ==> r@[i] == data@[4 * i],
        decreases n - r@.len(),
    {
        let i = r.len();
        assert(4 * i + 3 < data@.len()) by {
            vstd::arithmetic::div_mod::lemma_fundamental_div_mod(data@.len() as int, 4);
            vstd::arithmetic::div_mod::lemma_mod_division_less_than_divisor(data@.len() as int, 4);
        };
        r.push(data[4 * i]);
    }
    proof {
        assert(r@ =~= channel_sample_rep(data@));
    }
    r
}

impl Surface {
    /// Reads the sample of this surface: one byte per pixel, in scan order,
    /// taken from the first channel of each pixel. A pure read: the raster
    /// and the stroke state are untouched (the receiver is shared), and two
    /// samples without intervening drawing are equal, since the result is a
    /// function of the surface alone.
    pub fn sample(&self) -> (r: Vec<u8>)
        ensures
            r@ == sample_rep(self@),
    {
        channel_sample(self.raw_pixels())
    }
}

} // verus!
