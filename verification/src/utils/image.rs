use vstd::prelude::*;
use vstd::string::*;
use crate::app::appearance::{argb_tuples, Argb};
use crate::utils::text::{concat, decimal_i32, decimal_i32_spec};
use material_colors::quantize::Quantizer;

verus! {

/// The colours material-colors ranks as theme sources for the pixels
/// `pixels`: `Score::score` of the colour counts that
/// `QuantizerCelebi::quantize(pixels, max_colors)` finds, keeping at
/// most `desired` colours, best first.
pub uninterp spec fn ranked_seed_colors(pixels: Seq<(u8, u8, u8, u8)>, max_colors: nat, desired: int) -> Seq<
    (u8, u8, u8, u8),
>;

/// Quantizes the pixels with `QuantizerCelebi::quantize` and ranks the
/// resulting colour counts with `Score::score(counts, Some(desired),
/// None, None)` of material-colors. The score documentation promises at
/// least one colour (a fallback when none is suitable) and at most
/// `desired`. The two calls share one item because the colour-count map
/// that passes between them is a type material-colors does not export.
/// The quantizer indexes its first colour box, so it needs room for at
/// least one colour.
#[verifier::external_body]
fn rank_seed_colors(pixels: &Vec<Argb>, max_colors: usize, desired: i32) -> (r: Vec<Argb>)
    requires
        max_colors >= 1,
        desired >= 1,
    ensures
        argb_tuples(r@) == ranked_seed_colors(argb_tuples(pixels@), max_colors as nat, desired as int),
        1 <= r@.len() <= desired,
{
    let px: Vec<material_colors::color::Argb> = pixels.iter().map(|c| material_colors::color::Argb { alpha: c.alpha, red: c.red, green: c.green, blue: c.blue }).collect();
    let counts = <material_colors::quantize::QuantizerCelebi as Quantizer>::quantize(&px, max_colors).color_to_count;
    let ranked = material_colors::score::Score::score(&counts, Some(desired), None, None);
    ranked.into_iter().map(|c| Argb { alpha: c.alpha, red: c.red, green: c.green, blue: c.blue }).collect()
}

/// The pixels of an RGBA byte buffer (`r, g, b, a` per pixel) as colours;
/// trailing bytes that do not make a whole pixel are ignored.
pub open spec fn rgba_pixels(bytes: Seq<u8>) -> Seq<(u8, u8, u8, u8)> {
    Seq::new(
        bytes.len() / 4,
        |i: int| (bytes[4 * i + 3], bytes[4 * i], bytes[4 * i + 1], bytes[4 * i + 2]),
    )
}

/// The colour used when no colour could be ranked: `0xFF445E91`.
pub open spec fn fallback_seed() -> (u8, u8, u8, u8) {
    (0xff, 0x44, 0x5e, 0x91)
}

/// The seed colour (`[r, g, b, a]`) of an image whose pixels are the RGBA
/// bytes `rgba`: the best of the colours material-colors ranks for them
/// (quantized to 128 colours), or `0xFF445E91` when none is ranked.
pub open spec fn seed_of_rgba(rgba: Seq<u8>) -> Seq<u8> {
    let ranked = ranked_seed_colors(rgba_pixels(rgba), 128, 1);
    let best = if ranked.len() > 0 {
        ranked[0]
    } else {
        fallback_seed()
    };
    seq![best.1, best.2, best.3, best.0]
}

/// The seed colour of an image, from its pixels as RGBA bytes.
pub fn extract_seed_color(rgba: &Vec<u8>) -> (r: [u8; 4])
    ensures
        r@ == seed_of_rgba(rgba@),
{
    let n = rgba.len() / 4;
    let mut pixels: Vec<Argb> = Vec::new();
    let mut i: usize = 0;
    while i < n
        invariant
            n == rgba@.len() / 4,
            0 <= i <= n,
            pixels@.len() == i,
            forall|k: int| 0 <= k < i ==> (#[trigger] pixels@[k]).tuple() == rgba_pixels(rgba@)[k],
        decreases n - i,
    {
        proof {
            let len = rgba@.len() as int;
            assert(4 * i + 3 < len) by (nonlinear_arith)
                requires
                    i < n,
                    n == len / 4,
                    len >= 0,
            ;
        }
        assert(rgba@.len() == rgba.len());
        assert(4 * i + 3 < rgba.len());
        let b = 4 * i;
        pixels.push(Argb { alpha: rgba[b + 3], red: rgba[b], green: rgba[b + 1], blue: rgba[b + 2] });
        i += 1;
    }
    proof {
        assert(argb_tuples(pixels@) =~= rgba_pixels(rgba@));
    }
    let ranked = rank_seed_colors(&pixels, 128, 1);
    let best = if ranked.len() > 0 {
        ranked[0]
    } else {
        Argb { alpha: 0xff, red: 0x44, green: 0x5e, blue: 0x91 }
    };
    proof {
        if ranked@.len() > 0 {
            assert(argb_tuples(ranked@)[0] == ranked@[0].tuple());
        }
    }
    let r = [best.red, best.green, best.blue, best.alpha];
    assert(r@ =~= seq![best.red, best.green, best.blue, best.alpha]);
    r
}

/// The RGBA bytes of the image encoded in `bytes` (its format guessed
/// from its first bytes), resized to 128 by 128 pixels with the Lanczos3
/// filter of the image crate; `None` when the bytes are not an image the
/// crate can decode.
pub uninterp spec fn resized_rgba_128(bytes: Seq<u8>) -> Option<Seq<u8>>;

/// `image::load_from_memory`, then `DynamicImage::resize_exact(128, 128,
/// Lanczos3)`, `to_rgba8` and `into_raw`: the pixels of the decoded image,
/// resized, as RGBA bytes; `None` when decoding fails.
#[verifier::external_body]
fn decode_resized_rgba_128(bytes: &Vec<u8>) -> (r: Option<Vec<u8>>)
    ensures
        match r {
            Some(v) => resized_rgba_128(bytes@) == Some(v@),
            None => resized_rgba_128(bytes@) is None,
        },
{
    image::load_from_memory(bytes).ok().map(
        |i| i.resize_exact(128, 128, image::imageops::FilterType::Lanczos3).to_rgba8().into_raw(),
    )
}

/// The seed colour (`[r, g, b, a]`) of the image file whose contents are
/// `bytes`, for dynamic theming: the image is decoded and resized to 128
/// by 128 pixels, and its colours are ranked; `None` when the bytes are
/// not an image that can be decoded.
pub fn seed_color_of_image(bytes: &Vec<u8>) -> (r: Option<[u8; 4]>)
    ensures
        match resized_rgba_128(bytes@) {
            Some(px) => r matches Some(c) && c@ == seed_of_rgba(px),
            None => r is None,
        },
{
    match decode_resized_rgba_128(bytes) {
        Some(px) => Some(extract_seed_color(&px)),
        None => None,
    }
}

/// The name of the blurred copy of the image `file_name` for a blur
/// sigma of `blur_tenths` tenths: `{file_name}_blur_{blur_tenths}.png`.
pub fn blurred_file_name(file_name: &str, blur_tenths: i32) -> (r: String)
    ensures
        r@ == file_name@ + "_blur_"@ + decimal_i32_spec(blur_tenths) + ".png"@,
{
    let mut r = concat(file_name, "_blur_");
    let n = decimal_i32(blur_tenths);
    r.append(n.as_str());
    r.append(".png");
    r
}

/// Whether the blurred copy has to be made: it does not exist yet, or
/// the original was modified after it (times in nanoseconds since the
/// epoch).
pub fn needs_update(cache_exists: bool, original_modified: i128, cache_modified: i128) -> (r: bool)
    ensures
        r == (!cache_exists || original_modified > cache_modified),
{
    !cache_exists || original_modified > cache_modified
}

} // verus!
