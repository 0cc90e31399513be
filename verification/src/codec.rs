use vstd::prelude::*;
use crate::buffer::{PixelBuffer, RgbBuffer};
use image::ImageEncoder;

verus! {

/// What decoding a payload yields: `None` when the bytes do not decode,
/// otherwise the dense RGBA samples with the image's width and height.
/// Decoding is a pure function of the payload bytes alone.
pub uninterp spec fn rgba_decoding(bytes: Seq<u8>) -> Option<(Seq<u8>, nat, nat)>;

/// What encoding RGB samples as JPEG at a given quality yields: `None` when
/// the encoder reports an error, otherwise the encoded stream. The encoder
/// is a pure function of the samples, the dimensions and the quality.
pub uninterp spec fn jpeg_encoding(
    pixels: Seq<u8>,
    width: nat,
    height: nat,
    quality: u8,
) -> Option<Seq<u8>>;

/// What encoding RGBA samples as PNG at the best lossless compression level
/// with adaptive filtering yields: `None` when the encoder reports an error,
/// otherwise the encoded stream. The encoder is a pure function of the
/// samples and the dimensions.
pub uninterp spec fn png_encoding(pixels: Seq<u8>, width: nat, height: nat) -> Option<Seq<u8>>;

/// Relies on `image::load_from_memory` and `DynamicImage::to_rgba8`: sniffs
/// and decodes the payload, then converts it to dense 8-bit RGBA samples
/// whose buffer holds exactly width x height x 4 bytes.
#[verifier::external_body]
pub(crate) fn decode_rgba(data: &Vec<u8>) -> (r: Result<PixelBuffer, ()>)
    ensures
        r matches Ok(b) ==> b.wf() && rgba_decoding(data@) == Some(
            (b.data@, b.width as nat, b.height as nat),
        ),
        r is Err ==> rgba_decoding(data@) is None,
{
    let img = image::load_from_memory(data).map_err(|_| ())?;
    let rgba = img.to_rgba8();
    let width = rgba.width() as usize;
    let height = rgba.height() as usize;
    Ok(PixelBuffer { width, height, data: rgba.into_raw() })
}

/// Relies on `image::codecs::jpeg::JpegEncoder::new_with_quality` and
/// `JpegEncoder::encode`: encodes dense 8-bit RGB samples as a JPEG stream
/// at the given quality (the encoder documents the range 1 to 100).
#[verifier::external_body]
pub(crate) fn encode_jpeg(buf: &RgbBuffer, quality: u8) -> (r: Result<Vec<u8>, ()>)
    requires
        buf.wf(),
        1 <= quality <= 100,
    ensures
        r matches Ok(v) ==> jpeg_encoding(buf.data@, buf.width as nat, buf.height as nat, quality)
            == Some(v@),
        r is Err ==> jpeg_encoding(buf.data@, buf.width as nat, buf.height as nat, quality)
            is None,
{
    let mut out: Vec<u8> = Vec::new();
    let mut encoder = image::codecs::jpeg::JpegEncoder::new_with_quality(&mut out, quality);
    match encoder.encode(
        &buf.data,
        buf.width as u32,
        buf.height as u32,
        image::ExtendedColorType::Rgb8,
    ) {
        Ok(()) => Ok(out),
        Err(_) => Err(()),
    }
}

/// Relies on `image::codecs::png::PngEncoder::new_with_quality` (best
/// compression, adaptive filtering) and `ImageEncoder::write_image`: encodes
/// dense 8-bit RGBA samples as a lossless PNG stream.
#[verifier::external_body]
pub(crate) fn encode_png(buf: &PixelBuffer) -> (r: Result<Vec<u8>, ()>)
    requires
        buf.wf(),
    ensures
        r matches Ok(v) ==> png_encoding(buf.data@, buf.width as nat, buf.height as nat)
            == Some(v@),
        r is Err ==> png_encoding(buf.data@, buf.width as nat, buf.height as nat) is None,
{
    let mut out: Vec<u8> = Vec::new();
    let encoder = image::codecs::png::PngEncoder::new_with_quality(
        &mut out,
        image::codecs::png::CompressionType::Best,
        image::codecs::png::FilterType::Adaptive,
    );
    match encoder.write_image(
        &buf.data,
        buf.width as u32,
        buf.height as u32,
        image::ExtendedColorType::Rgba8,
    ) {
        Ok(()) => Ok(out),
        Err(_) => Err(()),
    }
}

} // verus!
