use vstd::prelude::*;

verus! {

/// A decoded raster image: a dense, row-major sequence of 8-bit
/// red/green/blue/alpha samples, four per pixel.
pub struct PixelBuffer {
    pub width: usize,
    pub height: usize,
    pub data: Vec<u8>,
}

impl PixelBuffer {
    /// The buffer invariant: exactly four samples per pixel, and dimensions
    /// small enough for the codecs' 32-bit sizes.
    pub open spec fn wf(&self) -> bool {
        &&& self.data@.len() == self.width * self.height * 4
        &&& self.width <= u32::MAX
        &&& self.height <= u32::MAX
    }

    pub open spec fn pixel_count(&self) -> nat {
        (self.width * self.height) as nat
    }
}

/// A pixel buffer with the transparency channel dropped: three samples per
/// pixel, as the lossy codec requires.
pub struct RgbBuffer {
    pub width: usize,
    pub height: usize,
    pub data: Vec<u8>,
}

impl RgbBuffer {
    pub open spec fn wf(&self) -> bool {
        &&& self.data@.len() == self.width * self.height * 3
        &&& self.width <= u32::MAX
        &&& self.height <= u32::MAX
    }

    pub open spec fn pixel_count(&self) -> nat {
        (self.width * self.height) as nat
    }
}

/// The three-samples-per-pixel stream obtained by dropping every pixel's
/// alpha sample from a four-samples-per-pixel stream.
pub open spec fn alpha_dropped(data: Seq<u8>, pixels: nat) -> Seq<u8> {
    Seq::new(pixels * 3, |k: int| data[(k / 3) * 4 + (k % 3)])
}

/// The four-samples-per-pixel stream obtained by giving every pixel of a
/// three-samples-per-pixel stream a fully opaque alpha sample.
pub open spec fn opaque_expanded(data: Seq<u8>, pixels: nat) -> Seq<u8> {
    Seq::new(
        pixels * 4,
        |k: int| if k % 4 == 3 {
            255u8
        } else {
            data[(k / 4) * 3 + (k % 4)]
        },
    )
}

/// Whether any pixel of a four-samples-per-pixel stream is not fully opaque.
pub open spec fn has_translucent_pixel(data: Seq<u8>, pixels: nat) -> bool {
    exists|p: int| 0 <= p < pixels && #[trigger] data[4 * p + 3] != 255
}

/// Drops the transparency channel for the lossy destination codec. This
/// normalization never fails; the flag reports whether any non-opaque alpha
/// was actually discarded (informational, not an error).
pub fn drop_alpha(buf: &PixelBuffer) -> (r: (RgbBuffer, bool))
    requires
        buf.wf(),
    ensures
        r.0.wf(),
        r.0.width == buf.width,
        r.0.height == buf.height,
        r.0.data@ == alpha_dropped(buf.data@, buf.pixel_count()),
        r.1 == has_translucent_pixel(buf.data@, buf.pixel_count()),
{
    let total = buf.data.len();
    let pixels = buf.width * buf.height;
    let mut out: Vec<u8> = Vec::new();
    let mut translucent = false;
    let mut p: usize = 0;
    let mut src: usize = 0;
    while p < pixels
        invariant
            buf.wf(),
            total == buf.data@.len(),
            pixels == buf.width * buf.height,
            p <= pixels,
            src == 4 * p,
            out@.len() == 3 * p,
            forall|k: int| 0 <= k < out@.len() ==> out@[k] == buf.data@[(k / 3) * 4 + (k % 3)],
            translucent == exists|q: int| 0 <= q < p && #[trigger] buf.data@[4 * q + 3] != 255,
        decreases pixels - p,
    {
        out.push(buf.data[src]);
        out.push(buf.data[src + 1]);
        out.push(buf.data[src + 2]);
        if buf.data[src + 3] != 255 {
            translucent = true;
        }
        p = p + 1;
        src = src + 4;
    }
    proof {
        assert(out@ =~= alpha_dropped(buf.data@, buf.pixel_count()));
    }
    (RgbBuffer { width: buf.width, height: buf.height, data: out }, translucent)
}

/// Rebuilds a four-channel buffer from a three-channel one, making every
/// pixel fully opaque.
pub fn expand_opaque(buf: &RgbBuffer) -> (r: PixelBuffer)
    requires
        buf.wf(),
    ensures
        r.wf(),
        r.width == buf.width,
        r.height == buf.height,
        r.data@ == opaque_expanded(buf.data@, buf.pixel_count()),
{
    let total = buf.data.len();
    let pixels = buf.width * buf.height;
    let mut out: Vec<u8> = Vec::new();
    let mut p: usize = 0;
    let mut src: usize = 0;
    while p < pixels
        invariant
            buf.wf(),
            total == buf.data@.len(),
            pixels == buf.width * buf.height,
            p <= pixels,
            src == 3 * p,
            out@.len() == 4 * p,
            forall|k: int| 0 <= k < out@.len() ==> out@[k] == (if k % 4 == 3 {
                255u8
            } else {
                buf.data@[(k / 4) * 3 + (k % 4)]
            }),
        decreases pixels - p,
    {
        out.push(buf.data[src]);
        out.push(buf.data[src + 1]);
        out.push(buf.data[src + 2]);
        out.push(255u8);
        p = p + 1;
        src = src + 3;
    }
    proof {
        assert(out@ =~= opaque_expanded(buf.data@, buf.pixel_count()));
    }
    PixelBuffer { width: buf.width, height: buf.height, data: out }
}

/// Normalizing an alpha-carrying buffer for the lossy codec and re-expanding
/// it yields a buffer that is fully opaque at every pixel and agrees with the
/// original on every color sample: the conversion can never fail and loses
/// nothing but transparency.
pub proof fn lemma_lossy_normalization_opaque(data: Seq<u8>, pixels: nat)
    requires
        data.len() == pixels * 4,
    ensures
        opaque_expanded(alpha_dropped(data, pixels), pixels).len() == pixels * 4,
        forall|p: int| 0 <= p < pixels
            ==> #[trigger] opaque_expanded(alpha_dropped(data, pixels), pixels)[4 * p + 3]
                == 255u8,
        forall|p: int, c: int| 0 <= p < pixels && 0 <= c < 3
            ==> #[trigger] opaque_expanded(alpha_dropped(data, pixels), pixels)[4 * p + c]
                == data[4 * p + c],
{
    let dropped = alpha_dropped(data, pixels);
    let rt = opaque_expanded(dropped, pixels);
    assert forall|p: int, c: int| 0 <= p < pixels && 0 <= c < 3
        implies #[trigger] rt[4 * p + c] == data[4 * p + c] by {
        let k = 4 * p + c;
        assert(k / 4 == p && k % 4 == c);
        assert(rt[k] == dropped[3 * p + c]);
        assert((3 * p + c) / 3 == p && (3 * p + c) % 3 == c);
    }
}

} // verus!
