//! The 256-colour palette and the translation of palette indices into RGBA
//! colour and fullbright data.

use vstd::prelude::*;

use super::{DiffuseData, Extent2d, FullbrightData};

verus! {

/// Number of bytes of palette data: 256 colours of three components.
pub const PALETTE_BYTES: usize = 768;

/// Palette index that marks a transparent pixel in textures.
pub const TRANSPARENT_INDEX: u8 = 0xFF;

/// Palette indices above this one are drawn fullbright.
pub const LAST_LIT_INDEX: u8 = 223;

/// A palette of 256 RGB colours.
pub struct Palette {
    rgb: Vec<u8>,
}

/// The RGB components of colour `index` in palette data.
pub open spec fn color_of(rgb: Seq<u8>, index: u8) -> Seq<u8> {
    seq![rgb[3 * index], rgb[3 * index + 1], rgb[3 * index + 2]]
}

/// The RGBA bytes a texture pixel with palette index `index` becomes.
pub open spec fn pixel_rgba(rgb: Seq<u8>, index: u8) -> Seq<u8> {
    if index == TRANSPARENT_INDEX {
        seq![0u8, 0u8, 0u8, 0u8]
    } else {
        color_of(rgb, index).push(0xFFu8)
    }
}

/// The fullbright byte a texture pixel with palette index `index` becomes:
/// 0xFF for a lit index above 223, and 0 otherwise, the transparent index
/// among them.
pub open spec fn pixel_fullbright(index: u8) -> Seq<u8> {
    if index == TRANSPARENT_INDEX {
        seq![0u8]
    } else if index > LAST_LIT_INDEX {
        seq![0xFFu8]
    } else {
        seq![0u8]
    }
}

/// The RGBA bytes of a whole texture, pixel by pixel.
pub open spec fn texture_rgba(rgb: Seq<u8>, indices: Seq<u8>) -> Seq<u8>
    decreases indices.len(),
{
    if indices.len() == 0 {
        Seq::empty()
    } else {
        texture_rgba(rgb, indices.drop_last()) + pixel_rgba(rgb, indices.last())
    }
}

/// The fullbright bytes of a whole texture, pixel by pixel.
pub open spec fn texture_fullbright(indices: Seq<u8>) -> Seq<u8>
    decreases indices.len(),
{
    if indices.len() == 0 {
        Seq::empty()
    } else {
        texture_fullbright(indices.drop_last()) + pixel_fullbright(indices.last())
    }
}

/// The RGBA bytes an image pixel becomes when `transparent` is its
/// transparent index: four zero bytes for it, the opaque colour otherwise.
pub open spec fn image_pixel(rgb: Seq<u8>, index: u8, transparent: u8) -> Seq<u8> {
    if index == transparent {
        seq![0u8, 0u8, 0u8, 0u8]
    } else {
        color_of(rgb, index).push(0xFFu8)
    }
}

/// The RGBA bytes of a whole paletted image, pixel by pixel.
pub open spec fn image_rgba(rgb: Seq<u8>, indices: Seq<u8>, transparent: u8) -> Seq<u8>
    decreases indices.len(),
{
    if indices.len() == 0 {
        Seq::empty()
    } else {
        image_rgba(rgb, indices.drop_last(), transparent) + image_pixel(
            rgb,
            indices.last(),
            transparent,
        )
    }
}

/// Colour data has four bytes, red, green, blue and alpha, for every pixel,
/// and fullbright data one byte.
pub proof fn rgba_has_four_bytes_per_pixel(rgb: Seq<u8>, indices: Seq<u8>, transparent: u8)
    ensures
        texture_rgba(rgb, indices).len() == 4 * indices.len(),
        texture_fullbright(indices).len() == indices.len(),
        image_rgba(rgb, indices, transparent).len() == 4 * indices.len(),
    decreases indices.len(),
{
    if indices.len() > 0 {
        rgba_has_four_bytes_per_pixel(rgb, indices.drop_last(), transparent);
    }
}

impl Palette {
    /// The palette's bytes: red, green and blue of colour 0, then of colour 1, and so on.
    pub closed spec fn spec_rgb(&self) -> Seq<u8> {
        self.rgb@
    }

    /// A palette always holds 256 colours.
    pub closed spec fn wf(&self) -> bool {
        self.rgb@.len() == PALETTE_BYTES
    }

    /// A palette from 768 bytes of RGB data.
    pub fn new(data: &[u8]) -> (r: Palette)
        requires
            data@.len() == PALETTE_BYTES,
        ensures
            r.wf(),
            r.spec_rgb() == data@,
    {
        let mut rgb: Vec<u8> = Vec::new();
        let mut i: usize = 0;
        while i < PALETTE_BYTES
            invariant
                i <= PALETTE_BYTES,
                data@.len() == PALETTE_BYTES,
                rgb@ == data@.take(i as int),
            decreases PALETTE_BYTES - i,
        {
            rgb.push(data[i]);
            assert(rgb@ =~= data@.take(i + 1));
            i = i + 1;
        }
        assert(data@.take(i as int) =~= data@);
        Palette { rgb }
    }

    /// The RGB components of colour `index`.
    pub fn color(&self, index: u8) -> (r: [u8; 3])
        requires
            self.wf(),
        ensures
            r@ == color_of(self.spec_rgb(), index),
    {
        let base = 3 * (index as usize);
        let r = [self.rgb[base], self.rgb[base + 1], self.rgb[base + 2]];
        assert(r@ =~= color_of(self.spec_rgb(), index));
        r
    }

    /// Translates palette indices into RGBA colour data and fullbright data.
    ///
    /// Index 0xFF is transparent; indices above 223 are fullbright.
    pub fn translate(&self, indices: &[u8]) -> (r: (DiffuseData, FullbrightData))
        requires
            self.wf(),
            indices@.len() * 4 <= usize::MAX,
        ensures
            r.0.rgba@ == texture_rgba(self.spec_rgb(), indices@),
            r.1.fullbright@ == texture_fullbright(indices@),
    {
        let mut rgba: Vec<u8> = Vec::new();
        let mut fullbright: Vec<u8> = Vec::new();
        let mut i: usize = 0;
        while i < indices.len()
            invariant
                self.wf(),
                i <= indices@.len(),
                rgba@ == texture_rgba(self.spec_rgb(), indices@.take(i as int)),
                fullbright@ == texture_fullbright(indices@.take(i as int)),
            decreases indices@.len() - i,
        {
            let index = indices[i];
            assert(indices@.take(i + 1).drop_last() =~= indices@.take(i as int));
            if index == TRANSPARENT_INDEX {
                let ghost before = rgba@;
                let ghost fb_before = fullbright@;
                rgba.push(0);
                rgba.push(0);
                rgba.push(0);
                rgba.push(0);
                fullbright.push(0);
                assert(rgba@ =~= before + pixel_rgba(self.spec_rgb(), index));
                assert(fullbright@ =~= fb_before + pixel_fullbright(index));
            } else {
                let c = self.color(index);
                let ghost before = rgba@;
                rgba.push(c[0]);
                rgba.push(c[1]);
                rgba.push(c[2]);
                rgba.push(0xFF);
                assert(rgba@ =~= before + pixel_rgba(self.spec_rgb(), index));
                let ghost fb_before = fullbright@;
                fullbright.push(if index > LAST_LIT_INDEX { 0xFF } else { 0 });
                assert(fullbright@ =~= fb_before + pixel_fullbright(index));
            }
            i = i + 1;
        }
        assert(indices@.take(i as int) =~= indices@);
        (DiffuseData { rgba }, FullbrightData { fullbright })
    }

    /// Expands a paletted image into RGBA data: pixels with index
    /// `transparent` become fully transparent, the others opaque colours.
    pub fn image_rgba(&self, indices: &[u8], transparent: u8) -> (r: Vec<u8>)
        requires
            self.wf(),
        ensures
            r@ == image_rgba(self.spec_rgb(), indices@, transparent),
    {
        let mut out: Vec<u8> = Vec::new();
        let mut i: usize = 0;
        while i < indices.len()
            invariant
                self.wf(),
                i <= indices@.len(),
                out@ == image_rgba(self.spec_rgb(), indices@.take(i as int), transparent),
            decreases indices@.len() - i,
        {
            let index = indices[i];
            assert(indices@.take(i + 1).drop_last() =~= indices@.take(i as int));
            let ghost before = out@;
            if index == transparent {
                out.push(0);
                out.push(0);
                out.push(0);
                out.push(0);
            } else {
                let c = self.color(index);
                out.push(c[0]);
                out.push(c[1]);
                out.push(c[2]);
                out.push(0xFF);
            }
            assert(out@ =~= before + image_pixel(self.spec_rgb(), index, transparent));
            i = i + 1;
        }
        assert(indices@.take(i as int) =~= indices@);
        out
    }
}

/// The palette indices of the console character sheet as drawn: index 0,
/// its background, becomes the transparent index.
pub fn conchars_indices(indices: &[u8]) -> (r: Vec<u8>)
    ensures
        r@ == indices@.map_values(|i: u8| if i == 0 { TRANSPARENT_INDEX } else { i }),
{
    let mut out: Vec<u8> = Vec::new();
    let mut k: usize = 0;
    while k < indices.len()
        invariant
            k <= indices@.len(),
            out@ == indices@.take(k as int).map_values(|i: u8| if i == 0 { TRANSPARENT_INDEX } else { i }),
        decreases indices@.len() - k,
    {
        let i = indices[k];
        out.push(if i == 0 { TRANSPARENT_INDEX } else { i });
        assert(out@ =~= indices@.take(k + 1).map_values(|i: u8| if i == 0 { TRANSPARENT_INDEX } else { i }));
        k = k + 1;
    }
    assert(indices@.take(k as int) =~= indices@);
    out
}

/// How a paletted image is read: which index is transparent, and its size.
#[derive(Clone, Copy, Debug, PartialEq, Eq, Structural)]
pub struct PalettedImageLoaderSettings {
    pub transparent: u8,
    pub dimensions: Extent2d,
}

impl Default for PalettedImageLoaderSettings {
    fn default() -> (r: PalettedImageLoaderSettings)
        ensures
            r == (PalettedImageLoaderSettings {
                transparent: 0xFF,
                dimensions: Extent2d { width: 256, height: 256 },
            }),
    {
        PalettedImageLoaderSettings {
            transparent: 0xFF,
            dimensions: Extent2d { width: 256, height: 256 },
        }
    }
}

} // verus!
