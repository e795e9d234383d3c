//! The tray icon: near-black pixels are made transparent so that the icon
//! blends with dark menu bars. Decoding is the `image` crate's.
use vstd::prelude::*;

verus! {

/// The RGBA8 pixels, width and height that `image::load_from_memory` decodes
/// from `bytes`, or `None` when it fails.
pub uninterp spec fn decoded_rgba(bytes: Seq<u8>) -> Option<(Seq<u8>, u32, u32)>;

/// Decodes an image with `image::load_from_memory` and converts it to RGBA8
/// (`DynamicImage::into_rgba8`). Trusted: the contract claims that the outcome
/// is `decoded_rgba(bytes)`, `None` exactly when decoding fails.
#[verifier::external_body]
fn decode_rgba(bytes: &[u8]) -> (res: Option<(Vec<u8>, u32, u32)>)
    ensures
        res matches Some((px, w, h)) ==> decoded_rgba(bytes@) == Some((px@, w, h)),
        res is None ==> decoded_rgba(bytes@) is None,
{
    match image::load_from_memory(bytes) {
        Ok(img) => {
            let rgba = img.into_rgba8();
            let (w, h) = (rgba.width(), rgba.height());
            Some((rgba.into_raw(), w, h))
        },
        Err(_) => None,
    }
}

/// A pixel dark enough to be made transparent.
pub open spec fn is_dark(r: u8, g: u8, b: u8) -> bool {
    r < 15 && g < 15 && b < 15
}

/// RGBA pixels with the alpha of every near-black pixel set to 0.
pub open spec fn clear_dark(px: Seq<u8>) -> Seq<u8> {
    Seq::new(
        px.len(),
        |i: int|
            if i % 4 == 3 && is_dark(px[i - 3], px[i - 2], px[i - 1]) {
                0u8
            } else {
                px[i]
            },
    )
}

/// Makes the near-black pixels of an RGBA8 buffer fully transparent.
pub fn clear_dark_pixels(px: &mut Vec<u8>)
    ensures
        final(px)@ == clear_dark(old(px)@),
{
    let ghost orig = px@;
    let len = px.len();
    let mut k: usize = 0;
    while k < len / 4
        invariant
            len == px@.len(),
            len == orig.len(),
            k <= len / 4,
            forall|i: int| 0 <= i < len ==> #[trigger] px@[i] == if i < 4 * k {
                clear_dark(orig)[i]
            } else {
                orig[i]
            },
        decreases len / 4 - k,
    {
        let base = 4 * k;
        let r = px[base];
        let g = px[base + 1];
        let b = px[base + 2];
        if r < 15 && g < 15 && b < 15 {
            px.set(base + 3, 0);
        }
        proof {
            assert forall|i: int| 0 <= i < len implies #[trigger] px@[i] == if i < 4 * (k + 1) {
                clear_dark(orig)[i]
            } else {
                orig[i]
            } by {
                if 4 * k <= i < 4 * k + 4 {
                    assert(i % 4 == i - 4 * k);
                }
            }
        }
        k += 1;
    }
    proof {
        assert forall|i: int| 0 <= i < len implies #[trigger] px@[i] == clear_dark(orig)[i] by {
            if i >= 4 * k {
                assert(i % 4 != 3) by {
                    assert(len < 4 * k + 4);
                }
            }
        }
        assert(px@ =~= clear_dark(orig));
    }
}

/// The tray icon image: the decoded RGBA8 pixels with near-black pixels made
/// transparent, and the image's width and height; `None` when the bytes do not decode.
pub fn load_icon(bytes: &[u8]) -> (res: Option<(Vec<u8>, u32, u32)>)
    ensures
        match decoded_rgba(bytes@) {
            Some((px, w, h)) => res matches Some((p, rw, rh)) && p@ == clear_dark(px) && rw == w && rh == h,
            None => res is None,
        },
{
    match decode_rgba(bytes) {
        Some((mut px, w, h)) => {
            clear_dark_pixels(&mut px);
            Some((px, w, h))
        },
        None => None,
    }
}

} // verus!
