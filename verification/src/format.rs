use vstd::prelude::*;

verus! {

/// The two container formats this pipeline supports: one lossy-capable codec
/// (JPEG) and one lossless codec (PNG).
#[derive(Clone, Copy, Debug, PartialEq, Eq, Structural)]
pub enum ImageFormat {
    Jpeg,
    Png,
}

/// The caller's output-format wish: keep the input's lossy/lossless class,
/// or force one of the two codecs.
#[derive(Clone, Copy, Debug, PartialEq, Eq, Structural)]
pub enum FormatPreference {
    Auto,
    ForceLossy,
    ForceLossless,
}

/// The eight-byte PNG file signature.
pub open spec fn png_signature() -> Seq<u8> {
    seq![0x89u8, 0x50u8, 0x4eu8, 0x47u8, 0x0du8, 0x0au8, 0x1au8, 0x0au8]
}

/// A payload is taken for PNG exactly when it opens with the PNG signature.
pub open spec fn is_png_payload(bytes: Seq<u8>) -> bool {
    bytes.len() >= 8 && bytes.subrange(0, 8) == png_signature()
}

/// A payload is taken for JPEG exactly when it opens with an SOI marker
/// followed by another marker prefix: `FF D8 FF`.
pub open spec fn is_jpeg_payload(bytes: Seq<u8>) -> bool {
    bytes.len() >= 3 && bytes[0] == 0xffu8 && bytes[1] == 0xd8u8 && bytes[2] == 0xffu8
}

/// The detected format of a payload, by content sniffing alone.
pub open spec fn detected_format(bytes: Seq<u8>) -> Option<ImageFormat> {
    if is_png_payload(bytes) {
        Some(ImageFormat::Png)
    } else if is_jpeg_payload(bytes) {
        Some(ImageFormat::Jpeg)
    } else {
        None
    }
}

/// Sniffs the container format from the payload's leading magic bytes.
/// Returns `None` for anything outside the two supported codecs.
pub fn detect_format(data: &Vec<u8>) -> (r: Option<ImageFormat>)
    ensures
        r == detected_format(data@),
{
    if data.len() >= 8 && data[0] == 0x89u8 && data[1] == 0x50u8 && data[2] == 0x4eu8
        && data[3] == 0x47u8 && data[4] == 0x0du8 && data[5] == 0x0au8 && data[6] == 0x1au8
        && data[7] == 0x0au8 {
        proof {
            assert(data@.subrange(0, 8) =~= png_signature());
        }
        Some(ImageFormat::Png)
    } else if data.len() >= 3 && data[0] == 0xffu8 && data[1] == 0xd8u8 && data[2] == 0xffu8 {
        proof {
            assert(!is_png_payload(data@)) by {
                if is_png_payload(data@) {
                    assert(data@.subrange(0, 8)[0] == data@[0]);
                }
            }
        }
        Some(ImageFormat::Jpeg)
    } else {
        proof {
            if is_png_payload(data@) {
                assert(data@.subrange(0, 8)[0] == data@[0]);
                assert(data@.subrange(0, 8)[1] == data@[1]);
                assert(data@.subrange(0, 8)[2] == data@[2]);
                assert(data@.subrange(0, 8)[3] == data@[3]);
                assert(data@.subrange(0, 8)[4] == data@[4]);
                assert(data@.subrange(0, 8)[5] == data@[5]);
                assert(data@.subrange(0, 8)[6] == data@[6]);
                assert(data@.subrange(0, 8)[7] == data@[7]);
            }
        }
        None
    }
}

/// The lossy/lossless class actually encoded to, once the caller's wish is
/// reconciled with the detected input format.
pub open spec fn chosen_format(input: ImageFormat, pref: FormatPreference) -> ImageFormat {
    match pref {
        FormatPreference::Auto => input,
        FormatPreference::ForceLossy => ImageFormat::Jpeg,
        FormatPreference::ForceLossless => ImageFormat::Png,
    }
}

impl ImageFormat {
    /// The MIME type a response carrying this format is served under.
    pub fn mime_type(&self) -> (r: &'static str)
        ensures
            *self is Jpeg ==> r@ == "image/jpeg"@,
            *self is Png ==> r@ == "image/png"@,
    {
        match self {
            ImageFormat::Jpeg => "image/jpeg",
            ImageFormat::Png => "image/png",
        }
    }

    /// Resolves the caller's format wish against this detected input format.
    pub fn resolve(&self, pref: FormatPreference) -> (r: ImageFormat)
        ensures
            r == chosen_format(*self, pref),
    {
        match pref {
            FormatPreference::Auto => *self,
            FormatPreference::ForceLossy => ImageFormat::Jpeg,
            FormatPreference::ForceLossless => ImageFormat::Png,
        }
    }
}

} // verus!
