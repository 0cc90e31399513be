use vstd::prelude::*;
use crate::buffer::PixelBuffer;
use rgb::FromSlice;

verus! {

/// One palette entry: an RGBA color. The palette keeps per-entry alpha, so
/// transparency survives quantization.
#[derive(Clone, Copy, Debug, PartialEq, Eq, Structural)]
pub struct PaletteColor {
    pub r: u8,
    pub g: u8,
    pub b: u8,
    pub a: u8,
}

/// The outcome of palette quantization: an ordered palette of at most 256
/// colors, shared by all pixels and never mutated after construction, plus
/// one palette index per pixel.
pub struct QuantizationResult {
    pub palette: Vec<PaletteColor>,
    pub indices: Vec<u8>,
}

impl QuantizationResult {
    /// The quantization invariant: a bounded palette, one index per pixel,
    /// and every index a valid offset into the palette.
    pub open spec fn wf(&self, pixels: nat) -> bool {
        &&& self.palette@.len() <= 256
        &&& self.indices@.len() == pixels
        &&& forall|k: int| 0 <= k < self.indices@.len()
            ==> (#[trigger] self.indices@[k]) < self.palette@.len()
    }
}

impl PaletteColor {
    pub fn new(r: u8, g: u8, b: u8, a: u8) -> (c: PaletteColor)
        ensures
            c == (PaletteColor { r, g, b, a }),
    {
        PaletteColor { r, g, b, a }
    }
}

/// Relies on imagequant's `Attributes` pipeline — `set_speed`, `set_quality`,
/// `new_image_borrowed`, `quantize`, `set_dithering_level` and `remapped`:
/// reduces the RGBA buffer to an error-minimizing palette of at most 256
/// colors plus one 8-bit index per pixel, with full dithering. `remapped`
/// returns one index into the returned palette for each of the
/// width x height pixels; `rgb::FromSlice::as_rgba` regroups the sample
/// bytes four by four.
#[verifier::external_body]
pub(crate) fn quantize_rgba(buf: &PixelBuffer) -> (r: Result<QuantizationResult, ()>)
    requires
        buf.wf(),
    ensures
        r matches Ok(q) ==> q.wf(buf.pixel_count()),
{
    let mut liq = imagequant::new();
    liq.set_speed(5).ok();
    liq.set_quality(65, 85).ok();
    let mut img = liq.new_image_borrowed(buf.data.as_rgba(), buf.width, buf.height, 0u8.into())
        .map_err(|_| ())?;
    let mut res = liq.quantize(&mut img).map_err(|_| ())?;
    res.set_dithering_level(1u8.into()).ok();
    let (pal, idx) = res.remapped(&mut img).map_err(|_| ())?;
    Ok(QuantizationResult {
        palette: pal.iter().map(|c| PaletteColor::new(c.r, c.g, c.b, c.a)).collect(),
        indices: idx,
    })
}

/// The RGBA stream a palette and an index-per-pixel bitmap stand for.
pub open spec fn depalettized(palette: Seq<PaletteColor>, indices: Seq<u8>) -> Seq<u8> {
    Seq::new(
        indices.len() * 4,
        |k: int| {
            let color = palette[indices[k / 4] as int];
            if k % 4 == 0 {
                color.r
            } else if k % 4 == 1 {
                color.g
            } else if k % 4 == 2 {
                color.b
            } else {
                color.a
            }
        },
    )
}

/// Rebuilds a full four-channel pixel buffer from the shared palette and the
/// per-pixel indices, ready for lossless re-encoding.
pub fn rebuild_pixels(q: &QuantizationResult, width: usize, height: usize) -> (r: PixelBuffer)
    requires
        q.wf((width * height) as nat),
        width <= u32::MAX,
        height <= u32::MAX,
        width * height * 4 <= usize::MAX,
    ensures
        r.wf(),
        r.width == width,
        r.height == height,
        r.data@ == depalettized(q.palette@, q.indices@),
{
    let count = q.indices.len();
    let mut out: Vec<u8> = Vec::new();
    let mut p: usize = 0;
    while p < count
        invariant
            q.wf((width * height) as nat),
            count == q.indices@.len(),
            count == width * height,
            width * height * 4 <= usize::MAX,
            p <= count,
            out@.len() == 4 * p,
            forall|k: int| 0 <= k < out@.len()
                ==> out@[k] == depalettized(q.palette@, q.indices@)[k],
        decreases count - p,
    {
        let idx = q.indices[p] as usize;
        let color = q.palette[idx];
        out.push(color.r);
        out.push(color.g);
        out.push(color.b);
        out.push(color.a);
        p = p + 1;
    }
    proof {
        assert(out@ =~= depalettized(q.palette@, q.indices@));
    }
    PixelBuffer { width, height, data: out }
}

} // verus!
