use vstd::prelude::*;
use vstd::std_specs::vec::axiom_spec_len;
use crate::buffer::{PixelBuffer, alpha_dropped, has_translucent_pixel, drop_alpha};
use crate::codec::{decode_rgba, encode_png, rgba_decoding, png_encoding};
use crate::error::ResizeError;
use crate::format::{ImageFormat, FormatPreference, detected_format, detect_format, chosen_format};
use crate::padding::{pad_to_target, padded};
use crate::quantize::{quantize_rgba, rebuild_pixels, depalettized, PaletteColor};
use crate::search::{quality_search, search_stop, attempt, scheduled_quality};
use crate::search::lemma_search_stop_is_first;

verus! {

/// One encode request: a positive byte budget and the caller's format wish.
/// Immutable for the request lifetime.
pub struct EncodeRequest {
    pub target_bytes: usize,
    pub preference: FormatPreference,
}

/// A successful response: the final (padded) stream, the codec it is in, the
/// quality the lossy search settled on, and the non-fatal warnings.
#[derive(Debug)]
pub struct ResizeOutput {
    pub bytes: Vec<u8>,
    pub format: ImageFormat,
    pub quality: Option<u8>,
    /// The quality floor was reached without meeting the target; the closest
    /// over-budget result is returned.
    pub budget_unreachable: bool,
    /// Quantization failed internally; the lossless baseline was used.
    pub quantization_degraded: bool,
    /// The transparency channel carried non-opaque alpha and was discarded
    /// for the lossy codec.
    pub alpha_discarded: bool,
}

/// What the lossy (JPEG) path answers for a decoded RGBA image: the search
/// runs over the alpha-stripped samples, stops at its deterministic stop
/// index, and the selected stream is padded up to the target.
pub open spec fn lossy_path_spec(
    px: Seq<u8>,
    w: nat,
    h: nat,
    target: nat,
    r: Result<ResizeOutput, ResizeError>,
) -> bool {
    let rgb = alpha_dropped(px, w * h);
    let k = search_stop(rgb, w, h, target);
    &&& (r is Err <==> attempt(rgb, w, h, 0) is None)
    &&& (r matches Err(e) ==> e == ResizeError::EncodeFailure)
    &&& (r matches Ok(out) ==> {
        &&& out.format == ImageFormat::Jpeg
        &&& out.quantization_degraded == false
        &&& out.alpha_discarded == has_translucent_pixel(px, w * h)
        &&& (attempt(rgb, w, h, k) matches Some(b) ==> out.bytes@ == padded(b, target)
            && out.quality == Some(scheduled_quality(k))
            && out.budget_unreachable == (b.len() > target))
        &&& (attempt(rgb, w, h, k) is None ==> k > 0
            && (attempt(rgb, w, h, (k - 1) as nat) matches Some(b)
                && out.bytes@ == padded(b, target)
                && out.quality == Some(scheduled_quality((k - 1) as nat)))
            && out.budget_unreachable)
    })
}

/// A well-formed quantization outcome for a given pixel count: a bounded
/// palette and one valid palette index per pixel.
pub open spec fn valid_quantization(pal: Seq<PaletteColor>, idx: Seq<u8>, pixels: nat) -> bool {
    &&& pal.len() <= 256
    &&& idx.len() == pixels
    &&& forall|k: int| 0 <= k < idx.len() ==> (#[trigger] idx[k]) < pal.len()
}

/// What the lossless (PNG) path answers for a decoded RGBA image: the
/// baseline is always computed first and returned directly when it fits the
/// budget; otherwise the output is either the baseline or the re-encoding of
/// some valid quantization of the image, and only when that re-encoding is
/// strictly smaller than the baseline.
pub open spec fn lossless_path_spec(
    px: Seq<u8>,
    w: nat,
    h: nat,
    target: nat,
    r: Result<ResizeOutput, ResizeError>,
) -> bool {
    &&& (r is Err <==> png_encoding(px, w, h) is None)
    &&& (r matches Err(e) ==> e == ResizeError::EncodeFailure)
    &&& (r matches Ok(out) ==> (png_encoding(px, w, h) matches Some(base) ==> {
        &&& out.format == ImageFormat::Png
        &&& out.quality is None
        &&& out.alpha_discarded == false
        &&& (base.len() <= target ==> out.bytes@ == padded(base, target)
            && !out.quantization_degraded && !out.budget_unreachable)
        &&& (out.bytes@ == padded(base, target) || exists|pal: Seq<PaletteColor>, idx: Seq<u8>|
            {
                &&& #[trigger] valid_quantization(pal, idx, w * h)
                &&& png_encoding(depalettized(pal, idx), w, h) matches Some(qb)
                    && qb.len() < base.len() && out.bytes@ == padded(qb, target)
            })
        &&& (out.quantization_degraded ==> out.bytes@ == padded(base, target))
    }))
}

/// The lossy path: strip alpha, search the quality schedule, pad.
fn run_lossy(buf: &PixelBuffer, target: usize) -> (r: Result<ResizeOutput, ResizeError>)
    requires
        buf.wf(),
        target >= 1,
    ensures
        lossy_path_spec(buf.data@, buf.width as nat, buf.height as nat, target as nat, r),
        r matches Ok(out) ==> out.bytes@.len() >= target
            && out.budget_unreachable == (out.bytes@.len() > target),
{
    let ghost w = buf.width as nat;
    let ghost h = buf.height as nat;
    let (rgb, translucent) = drop_alpha(buf);
    let outcome = match quality_search(&rgb, target) {
        Ok(o) => o,
        Err(e) => {
            return Err(e);
        },
    };
    proof {
        lemma_search_stop_is_first(rgb.data@, w, h, target as nat);
        let k = search_stop(rgb.data@, w, h, target as nat);
        if attempt(rgb.data@, w, h, k) is None {
            assert(crate::search::search_continues(rgb.data@, w, h, target as nat,
                (k - 1) as nat));
        }
    }
    let mut bytes = outcome.bytes;
    pad_to_target(&mut bytes, target);
    Ok(ResizeOutput {
        bytes,
        format: ImageFormat::Jpeg,
        quality: Some(outcome.quality),
        budget_unreachable: outcome.budget_unreachable,
        quantization_degraded: false,
        alpha_discarded: translucent,
    })
}

/// The lossless path: baseline first, quantize only when the baseline is
/// over budget, keep the quantized stream only when it is strictly smaller,
/// pad.
fn run_lossless(buf: &PixelBuffer, target: usize) -> (r: Result<ResizeOutput, ResizeError>)
    requires
        buf.wf(),
        target >= 1,
    ensures
        lossless_path_spec(buf.data@, buf.width as nat, buf.height as nat, target as nat, r),
        r matches Ok(out) ==> out.bytes@.len() >= target
            && out.budget_unreachable == (out.bytes@.len() > target),
{
    let ghost w = buf.width as nat;
    let ghost h = buf.height as nat;
    let baseline = match encode_png(buf) {
        Ok(v) => v,
        Err(_) => {
            return Err(ResizeError::EncodeFailure);
        },
    };
    let mut degraded = false;
    let mut candidate = baseline;
    if candidate.len() > target {
        match quantize_rgba(buf) {
            Ok(q) => {
                proof {
                    axiom_spec_len(&buf.data);
                }
                let rebuilt = rebuild_pixels(&q, buf.width, buf.height);
                match encode_png(&rebuilt) {
                    Ok(qbytes) => {
                        if qbytes.len() < candidate.len() {
                            proof {
                                assert(valid_quantization(q.palette@, q.indices@, w * h));
                            }
                            candidate = qbytes;
                        }
                    },
                    Err(_) => {
                        degraded = true;
                    },
                }
            },
            Err(_) => {
                degraded = true;
            },
        }
    }
    let unreachable = candidate.len() > target;
    let mut bytes = candidate;
    pad_to_target(&mut bytes, target);
    Ok(ResizeOutput {
        bytes,
        format: ImageFormat::Png,
        quality: None,
        budget_unreachable: unreachable,
        quantization_degraded: degraded,
        alpha_discarded: false,
    })
}

/// The lossy path is deterministic: the schedule is a pure function of the
/// iteration index and the encoder outcomes are pure functions of their
/// inputs, so any two answers that meet the path's contract for the same
/// decoded image and target agree — same input, same output bytes.
pub proof fn lemma_lossy_path_deterministic(
    px: Seq<u8>,
    w: nat,
    h: nat,
    target: nat,
    r1: Result<ResizeOutput, ResizeError>,
    r2: Result<ResizeOutput, ResizeError>,
)
    requires
        lossy_path_spec(px, w, h, target, r1),
        lossy_path_spec(px, w, h, target, r2),
    ensures
        r1 is Err <==> r2 is Err,
        r1 matches Ok(o1) ==> (r2 matches Ok(o2) ==> o1.bytes@ == o2.bytes@
            && o1.quality == o2.quality && o1.budget_unreachable == o2.budget_unreachable),
{
}

/// Runs one complete encode request on an in-memory payload: detect the
/// container, decode, pick the destination codec from the caller's wish,
/// meet the byte budget on that codec's path, and pad the winner up to the
/// exact target. Successful responses are never shorter than the target.
pub fn resize_image(data: &Vec<u8>, request: &EncodeRequest) -> (r: Result<
    ResizeOutput,
    ResizeError,
>)
    requires
        request.target_bytes >= 1,
    ensures
        detected_format(data@) is None ==> (r matches Err(e) && e
            == ResizeError::UnsupportedFormat),
        detected_format(data@) is Some && rgba_decoding(data@) is None ==> (r matches Err(e)
            && e == ResizeError::DecodeFailure),
        (detected_format(data@) matches Some(f) ==> (rgba_decoding(data@) matches Some(d) ==> {
            let fmt = chosen_format(f, request.preference);
            &&& (fmt == ImageFormat::Jpeg ==> lossy_path_spec(
                d.0, d.1, d.2, request.target_bytes as nat, r))
            &&& (fmt == ImageFormat::Png ==> lossless_path_spec(
                d.0, d.1, d.2, request.target_bytes as nat, r))
        })),
        r matches Ok(out) ==> out.bytes@.len() >= request.target_bytes
            && out.budget_unreachable == (out.bytes@.len() > request.target_bytes),
{
    let input_format = match detect_format(data) {
        Some(f) => f,
        None => {
            return Err(ResizeError::UnsupportedFormat);
        },
    };
    let buf = match decode_rgba(data) {
        Ok(b) => b,
        Err(_) => {
            return Err(ResizeError::DecodeFailure);
        },
    };
    let output_format = input_format.resolve(request.preference);
    match output_format {
        ImageFormat::Jpeg => run_lossy(&buf, request.target_bytes),
        ImageFormat::Png => run_lossless(&buf, request.target_bytes),
    }
}

} // verus!
