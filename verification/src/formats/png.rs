use vstd::prelude::*;
use crate::data::{ActiveRecorders, Alignment, CaptureFrame, PostCaptureAction, TargetHandle,
    value_of};
use crate::formats::{resolve_output_name, spec_decimal, CaptureError};
use crate::image_utils::{spec_to_rgba, to_rgba};

verus! {

/// How a still frame should be captured.
#[derive(Clone, Copy, Debug, PartialEq, Eq, Structural, Default)]
pub enum SavePng {
    /// Save the frame as it is.
    #[default]
    Basic,
    /// Composite a watermark over the frame before saving.  Watermark
    /// compositing is not yet specified; the request only carries the
    /// caller's parameters.
    Watermarked { watermark: TargetHandle, alignment: Alignment },
}

/// A request to capture the most recent stored frame as a PNG.
pub type SavePngFile = CaptureFrame<SavePng>;

/// One accepted still capture, ready for a background job: the resolved
/// output name and the encoded PNG stream.
#[derive(Clone, Debug)]
pub struct PngJob {
    pub file_name: String,
    pub width: u32,
    pub height: u32,
    pub bytes: Vec<u8>,
}

/// The PNG stream that encoding a canonical-order image produces.  The
/// encoder is deterministic: the stream is a function of the dimensions and
/// pixel bytes alone.
pub uninterp spec fn png_bytes_of(width: int, height: int, rgba: Seq<u8>) -> Seq<u8>;

/// Relies on image's `PngEncoder::write_image` (with `PngEncoder::new`
/// writing into a plain byte vector): the encoder asserts that the buffer
/// holds exactly `width * height * 4` bytes for four-channel eight-bit
/// input; on this path it rejects only a zero width or height (writing
/// into a byte vector cannot fail), and on success the stream it wrote
/// depends on the dimensions and pixel bytes alone.
#[verifier::external_body]
fn encode_png(width: u32, height: u32, rgba: &Vec<u8>) -> (r: Option<Vec<u8>>)
    requires
        rgba@.len() == width * height * 4,
    ensures
        r is Some ==> r->0@ == png_bytes_of(width as int, height as int, rgba@),
        width > 0 && height > 0 ==> r is Some,
{
    let mut out: Vec<u8> = Vec::new();
    let encoder = image::codecs::png::PngEncoder::new(&mut out);
    let res = image::ImageEncoder::write_image(
        encoder,
        rgba.as_slice(),
        width,
        height,
        image::ExtendedColorType::Rgba8,
    );
    match res {
        Ok(()) => Some(out),
        Err(_) => None,
    }
}

/// The still-image dispatcher: look the recorder up, take its most recently
/// stored frame without removing it, validate the buffer shape, convert the
/// channel order and encode the frame as a PNG under the resolved output
/// name.  The frame stays in the ring buffer, so repeated still captures
/// reuse it.  Errors name exactly what went wrong; the ring buffer is never
/// changed.
pub fn save_single_frame(
    recorders: &ActiveRecorders,
    event: &SavePngFile,
    now_seconds: u64,
) -> (r: Result<PngJob, CaptureError>)
    requires
        recorders.wf(),
    ensures
        r is Err ==> r->Err_0 == spec_still_error(*recorders, *event),
        spec_still_error(*recorders, *event) != CaptureError::EncodeFailed ==> r is Err,
        spec_still_error(*recorders, *event) == CaptureError::EncodeFailed && value_of(
            recorders.0.entries@,
            event.tracking_id,
        ).width > 0 && value_of(recorders.0.entries@, event.tracking_id).height > 0 ==> r is Ok,
        r matches Ok(job) ==> {
            let rec = value_of(recorders.0.entries@, event.tracking_id);
            let frame = rec.frames@.last();
            &&& job.width == rec.width
            &&& job.height == rec.height
            &&& job.bytes@ == png_bytes_of(
                rec.width as int,
                rec.height as int,
                spec_to_rgba(frame.texture@, rec.format),
            )
            &&& job.file_name@ == match event.path {
                Some(p) => p@,
                None => spec_decimal(now_seconds as int) + ".png"@,
            }
        },
{
    let rec = match recorders.0.get(event.tracking_id) {
        Some(rec) => rec,
        None => {
            return Err(CaptureError::UnknownRecorder);
        },
    };
    match event.and_then {
        PostCaptureAction::Stop => {
            return Err(CaptureError::StopUnsupported);
        },
        PostCaptureAction::Continue => {},
    }
    let count = rec.frames.len();
    if count == 0 {
        return Err(CaptureError::NoFrames);
    }
    let frame = &rec.frames[count - 1];
    proof {
        assert(rec.width * rec.height * 4 <= u128::MAX) by (nonlinear_arith)
            requires rec.width <= u32::MAX, rec.height <= u32::MAX;
    }
    let expected: u128 = rec.width as u128 * rec.height as u128 * 4;
    if frame.texture.len() as u128 != expected {
        return Err(CaptureError::WrongSize);
    }
    proof {
        assert(frame.texture@.len() % 4 == 0) by (nonlinear_arith)
            requires frame.texture@.len() == rec.width * rec.height * 4;
    }
    let data = frame.texture.clone();
    proof {
        assert forall|i: int| 0 <= i < data@.len() implies data@[i] == frame.texture@[i] by {
            assert(cloned::<u8>(frame.texture@[i], data@[i]));
        }
        assert(data@ =~= frame.texture@);
    }
    let rgba = to_rgba(data, rec.format);
    match encode_png(rec.width, rec.height, &rgba) {
        Some(bytes) => Ok(
            PngJob {
                file_name: resolve_output_name(&event.path, now_seconds, ".png"),
                width: rec.width,
                height: rec.height,
                bytes,
            },
        ),
        None => Err(CaptureError::EncodeFailed),
    }
}

/// Which error a still capture request runs into, checked in dispatch
/// order; `EncodeFailed` stands for "nothing wrong with the request", and
/// the encoder then declines only a zero-sized render target, so every
/// well-shaped request for a non-empty target yields a job.
pub open spec fn spec_still_error(recorders: ActiveRecorders, event: SavePngFile) -> CaptureError {
    if !crate::data::has_key(recorders.0.entries@, event.tracking_id) {
        CaptureError::UnknownRecorder
    } else if event.and_then is Stop {
        CaptureError::StopUnsupported
    } else {
        let rec = value_of(recorders.0.entries@, event.tracking_id);
        if rec.frames@.len() == 0 {
            CaptureError::NoFrames
        } else if rec.frames@.last().texture@.len() != rec.width * rec.height * 4 {
            CaptureError::WrongSize
        } else {
            CaptureError::EncodeFailed
        }
    }
}

} // verus!
