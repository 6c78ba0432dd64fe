//! Detection adapter, integer part: the centered-square crop geometry
//! computed once from the first frame's dimensions, and the byte-triplet
//! channel swap that packs a blue-green-red frame into the model's
//! red-green-blue input tensor. The tensor invocation itself and the
//! floating-point decoding of its outputs live with the capture loop.

use vstd::prelude::*;

verus! {

/// The channel-swapped image: every aligned byte triplet reversed.
pub open spec fn bgr_to_rgb(s: Seq<u8>) -> Seq<u8>
    decreases s.len(),
{
    if s.len() < 3 {
        Seq::empty()
    } else {
        seq![s[2], s[1], s[0]] + bgr_to_rgb(s.skip(3))
    }
}

/// The swap keeps the length of a whole number of triplets.
pub proof fn lemma_bgr_to_rgb_len(s: Seq<u8>)
    requires
        s.len() % 3 == 0,
    ensures
        bgr_to_rgb(s).len() == s.len(),
    decreases s.len(),
{
    if s.len() >= 3 {
        assert(s.skip(3).len() % 3 == 0);
        lemma_bgr_to_rgb_len(s.skip(3));
    }
}

/// Packs a blue-green-red pixel buffer into red-green-blue order by swapping
/// each aligned byte triplet.
pub fn pack_rgb_from_bgr(src: &Vec<u8>) -> (dst: Vec<u8>)
    requires
        src@.len() % 3 == 0,
    ensures
        dst@ == bgr_to_rgb(src@),
        dst@.len() == src@.len(),
{
    let mut dst: Vec<u8> = Vec::new();
    let n: usize = src.len();
    let mut i: usize = 0;
    proof {
        assert(src@.skip(0) =~= src@);
    }
    while i < n
        invariant
            n == src@.len(),
            n % 3 == 0,
            i % 3 == 0,
            i <= n,
            bgr_to_rgb(src@) == dst@ + bgr_to_rgb(src@.skip(i as int)),
            dst@.len() == i,
        decreases n - i,
    {
        proof {
            assert((n - i) % 3 == 0);
            assert(i + 3 <= n);
        }
        let ghost done = dst@;
        dst.push(src[i + 2]);
        dst.push(src[i + 1]);
        dst.push(src[i]);
        proof {
            let rest = src@.skip(i as int);
            assert(rest[0] == src@[i as int]);
            assert(rest[1] == src@[i as int + 1]);
            assert(rest[2] == src@[i as int + 2]);
            assert(rest.skip(3) =~= src@.skip(i as int + 3));
            assert(bgr_to_rgb(rest) == seq![rest[2], rest[1], rest[0]] + bgr_to_rgb(
                rest.skip(3),
            ));
            assert(dst@ + bgr_to_rgb(src@.skip(i as int + 3)) =~= done + bgr_to_rgb(rest));
        }
        i = i + 3;
    }
    proof {
        assert(src@.skip(n as int) =~= Seq::<u8>::empty());
        assert(dst@ + bgr_to_rgb(Seq::<u8>::empty()) =~= dst@);
        lemma_bgr_to_rgb_len(src@);
    }
    dst
}

/// The centered-square crop for a stream of `width` by `height` pixels: the
/// crop spans the full shorter axis, so its side is `min(width, height)`,
/// centered horizontally. Returns the crop's first and one-past-last column.
pub fn crop_geometry(width: i32, height: i32) -> (r: (i32, i32))
    requires
        0 < width,
        0 < height,
    ensures
        ({
            let m = if height < width {
                height as int
            } else {
                width as int
            };
            &&& r.0 == (width - m) / 2
            &&& r.1 == r.0 + m
            &&& 0 <= r.0
            &&& r.1 <= width
        }),
{
    let m: i32 = if height < width {
        height
    } else {
        width
    };
    let fx: i32 = (((width - m) as u32) / 2) as i32;
    (fx, fx + m)
}

} // verus!
