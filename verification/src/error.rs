use vstd::prelude::*;

verus! {

/// Fatal failure kinds for one encode request. Fatal kinds abort the request
/// with no output; non-fatal conditions (an unreachable budget, a degraded
/// quantization) travel as flags on a successful [`crate::pipeline::ResizeOutput`].
#[derive(Clone, Copy, Debug, PartialEq, Eq, Structural)]
pub enum ResizeError {
    /// The request carried no image payload at all.
    NoImageSupplied,
    /// The payload bytes could not be read or buffered.
    UnreadablePayload,
    /// The detected container format is outside the two supported codecs.
    UnsupportedFormat,
    /// The payload was recognized but failed to decode into a pixel buffer.
    DecodeFailure,
    /// The first baseline encode failed; no fallback exists before a baseline.
    EncodeFailure,
    /// Post-padding length differed from the target. The padder's contract
    /// rules this out, so verified callers never produce it; the variant is
    /// kept for unverified callers that re-check defensively.
    PaddingInconsistency,
}

impl ResizeError {
    /// A short stable label for logs and HTTP error bodies.
    pub fn label(&self) -> (r: &'static str)
        ensures
            *self is NoImageSupplied ==> r@ == "no image supplied"@,
            *self is UnreadablePayload ==> r@ == "unreadable payload"@,
            *self is UnsupportedFormat ==> r@ == "unsupported format"@,
            *self is DecodeFailure ==> r@ == "decode failure"@,
            *self is EncodeFailure ==> r@ == "encode failure"@,
            *self is PaddingInconsistency ==> r@ == "padding inconsistency"@,
    {
        match self {
            ResizeError::NoImageSupplied => "no image supplied",
            ResizeError::UnreadablePayload => "unreadable payload",
            ResizeError::UnsupportedFormat => "unsupported format",
            ResizeError::DecodeFailure => "decode failure",
            ResizeError::EncodeFailure => "encode failure",
            ResizeError::PaddingInconsistency => "padding inconsistency",
        }
    }
}

} // verus!
