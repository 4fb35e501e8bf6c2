use vstd::prelude::*;
use std::collections::VecDeque;
use crate::data::{ActiveRecorders, CaptureRecording, PostCaptureAction, TextureFrame, value_of};
use crate::formats::{resolve_output_name, spec_decimal, CaptureError};
use crate::image_utils::{spec_to_rgba, TextureFormat, to_rgba};

verus! {

/// The marker for "capture the retained window as a looping animation".
#[derive(Clone, Copy, Debug, PartialEq, Eq, Structural, Default)]
pub struct RecordGif;

/// A request to encode a recorder's stored frames into an animation.
pub type CaptureGifRecording = CaptureRecording<RecordGif>;

/// One palette-quantized animation frame: a local palette of up to 256
/// colors, three bytes each, one palette index per pixel, and the frame's
/// delay in the format's native unit of ten milliseconds.
#[derive(Clone, Debug)]
pub struct GifFrame {
    pub delay: u16,
    pub palette: Vec<u8>,
    pub indices: Vec<u8>,
}

/// One accepted animation capture, ready for a background job: the resolved
/// output name, the canvas size, and the quantized frames in chronological
/// order.
#[derive(Debug)]
pub struct GifJob {
    pub file_name: String,
    pub width: u16,
    pub height: u16,
    pub frames: Vec<GifFrame>,
}

#[verifier::external_type_specification]
#[verifier::external_body]
pub struct ExNeuQuant(color_quant::NeuQuant);

/// The number of palette colors this quantizer was trained for.
pub uninterp spec fn nq_colors(q: color_quant::NeuQuant) -> int;

/// The sampling factor this quantizer was trained with.
pub uninterp spec fn nq_samplefac(q: color_quant::NeuQuant) -> int;

/// The pixel bytes this quantizer was trained on.
pub uninterp spec fn nq_training(q: color_quant::NeuQuant) -> Seq<u8>;

/// The palette `color_map_rgb` hands out, three bytes for each color.  The
/// training is deterministic, so the palette is a function of the
/// construction arguments alone.
pub uninterp spec fn nq_palette_of(samplefac: int, colors: int, pixels: Seq<u8>) -> Seq<u8>;

/// The palette index `index_of` returns for one four-byte pixel.  The
/// lookup reads only the trained network, so the index is a function of the
/// construction arguments and the pixel alone.
pub uninterp spec fn nq_index_of_pixel(
    samplefac: int,
    colors: int,
    pixels: Seq<u8>,
    pixel: Seq<u8>,
) -> int;

/// Relies on color_quant's `NeuQuant::new`: trains a quantizer on RGBA
/// sample pixels, deterministically.  The sampling factor must lie in 1 to
/// 30 and at least one color must be asked for (the training loop divides
/// by the factor, and palette construction needs a last entry).
#[verifier::external_body]
fn nq_new(samplefac: i32, colors: usize, pixels: &Vec<u8>) -> (q: color_quant::NeuQuant)
    requires
        1 <= samplefac <= 30,
        1 <= colors <= 256,
    ensures
        nq_colors(q) == colors,
        nq_samplefac(q) == samplefac,
        nq_training(q) == pixels@,
{
    color_quant::NeuQuant::new(samplefac, colors, pixels.as_slice())
}

/// Relies on color_quant's `NeuQuant::index_of`: finds the best-matching
/// palette entry for one RGBA pixel.  The index it returns always lies
/// within the trained palette.
#[verifier::external_body]
fn nq_index_of(q: &color_quant::NeuQuant, r: u8, g: u8, b: u8, a: u8) -> (i: usize)
    ensures
        i < nq_colors(*q),
        i as int == nq_index_of_pixel(
            nq_samplefac(*q),
            nq_colors(*q),
            nq_training(*q),
            seq![r, g, b, a],
        ),
{
    q.index_of(&[r, g, b, a])
}

/// Relies on color_quant's `NeuQuant::color_map_rgb`: hands out the trained
/// palette, three bytes per color.
#[verifier::external_body]
fn nq_color_map_rgb(q: &color_quant::NeuQuant) -> (v: Vec<u8>)
    ensures
        v@ == nq_palette_of(nq_samplefac(*q), nq_colors(*q), nq_training(*q)),
        v@.len() == 3 * nq_colors(*q),
{
    q.color_map_rgb()
}

/// The sampling factor the quantizer is trained with: a speed/quality
/// compromise.
pub const QUANTIZE_SAMPLE_FACTOR: i32 = 20;

/// The animation's delay unit for one frame: the frame's represented
/// duration in units of ten milliseconds, capped at the largest value the
/// format can carry.
pub open spec fn spec_gif_delay(frame_time: u64) -> u16 {
    if frame_time / 10 > u16::MAX {
        u16::MAX
    } else {
        (frame_time / 10) as u16
    }
}

/// How one quantized frame relates to the stored frame it was made from:
/// the delay is the frame's duration in the format's unit, the palette is
/// what the quantizer trains on the frame's canonical-order pixels, and
/// every pixel is mapped to its palette index.
pub open spec fn quantized_frame(g: GifFrame, f: TextureFrame, format: TextureFormat) -> bool {
    let rgba = spec_to_rgba(f.texture@, format);
    &&& g.delay == spec_gif_delay(f.frame_time)
    &&& g.palette@ == nq_palette_of(QUANTIZE_SAMPLE_FACTOR as int, 256, rgba)
    &&& g.palette@.len() == 768
    &&& g.indices@.len() == f.texture@.len() / 4
    &&& forall|k: int|
        0 <= k < g.indices@.len() ==> (#[trigger] g.indices@[k]) as int == nq_index_of_pixel(
            QUANTIZE_SAMPLE_FACTOR as int,
            256,
            rgba,
            rgba.subrange(4 * k, 4 * k + 4),
        )
}

/// Palette-quantize one frame: convert it to canonical channel order, train
/// a palette on its pixels, map every pixel to its palette index, and
/// convert its duration to the animation's delay unit.
#[verifier::loop_isolation(false)]
pub fn process_frame(format: TextureFormat, frame: TextureFrame) -> (r: GifFrame)
    requires
        frame.texture@.len() % 4 == 0,
    ensures
        quantized_frame(r, frame, format),
{
    let delay_raw: u64 = frame.frame_time / 10;
    let delay: u16 = if delay_raw > 65535 {
        65535
    } else {
        delay_raw as u16
    };
    let formatted = to_rgba(frame.texture, format);
    let quant = nq_new(QUANTIZE_SAMPLE_FACTOR, 256, &formatted);
    let n = formatted.len();
    let mut indices: Vec<u8> = Vec::new();
    let mut i: usize = 0;
    while i < n
        invariant
            i % 4 == 0,
            i <= n,
            indices@.len() == i / 4,
            forall|k: int|
                0 <= k < indices@.len() ==> (#[trigger] indices@[k]) as int == nq_index_of_pixel(
                    QUANTIZE_SAMPLE_FACTOR as int,
                    256,
                    formatted@,
                    formatted@.subrange(4 * k, 4 * k + 4),
                ),
        decreases n - i,
    {
        assert(i + 4 <= n);
        let idx = nq_index_of(
            &quant,
            formatted[i],
            formatted[i + 1],
            formatted[i + 2],
            formatted[i + 3],
        );
        indices.push(idx as u8);
        proof {
            assert((i + 1) % 4 == 1 && (i + 2) % 4 == 2 && (i + 3) % 4 == 3);
            assert(seq![
                formatted@[i as int],
                formatted@[i + 1],
                formatted@[i + 2],
                formatted@[i + 3],
            ] =~= formatted@.subrange(i as int, i + 4));
            assert(indices@.last() as int == nq_index_of_pixel(
                QUANTIZE_SAMPLE_FACTOR as int,
                256,
                formatted@,
                formatted@.subrange(i as int, i + 4),
            ));
        }
        i = i + 4;
    }
    let palette = nq_color_map_rgb(&quant);
    GifFrame { delay, palette, indices }
}

/// Palette-quantize a whole frame queue, oldest first, keeping order.
pub fn quantize_frames(mut frames: VecDeque<TextureFrame>, format: TextureFormat) -> (r: Vec<
    GifFrame,
>)
    requires
        forall|i: int| 0 <= i < frames@.len() ==> (#[trigger] frames@[i]).texture@.len() % 4 == 0,
    ensures
        r@.len() == frames@.len(),
        forall|i: int|
            0 <= i < r@.len() ==> quantized_frame(#[trigger] r@[i], frames@[i], format),
{
    let ghost orig = frames@;
    let mut out: Vec<GifFrame> = Vec::new();
    loop
        invariant
            frames@ == orig.skip(out@.len() as int),
            out@.len() <= orig.len(),
            forall|i: int|
                0 <= i < orig.len() ==> (#[trigger] orig[i]).texture@.len() % 4 == 0,
            forall|i: int|
                0 <= i < out@.len() ==> quantized_frame(#[trigger] out@[i], orig[i], format),
        ensures
            out@.len() == orig.len(),
        decreases frames@.len(),
    {
        let next = frames.pop_front();
        match next {
            Some(frame) => {
                proof {
                    assert(orig.skip(out@.len() as int)[0] == orig[out@.len() as int]);
                    assert(orig.skip(out@.len() as int).subrange(
                        1,
                        orig.skip(out@.len() as int).len() as int,
                    ) =~= orig.skip(out@.len() as int + 1));
                }
                let g = process_frame(format, frame);
                out.push(g);
            },
            None => {
                proof {
                    assert(orig.skip(out@.len() as int) =~= Seq::<TextureFrame>::empty());
                    assert(out@.len() == orig.len());
                }
                break;
            },
        }
    }
    out
}

/// The animation dispatcher: look the recorder up, take ownership of its
/// entire frame queue (the recorder starts accumulating again from zero at
/// once), validate every frame's buffer shape, quantize the frames and
/// resolve the output name.  An unknown recorder or a stop-after-capture
/// disposition leaves everything untouched; a frame of the wrong shape is
/// detected after the queue was already drained, as draining must not wait
/// for validation.
#[verifier::loop_isolation(false)]
pub fn capture_gif_recording(
    recorders: &mut ActiveRecorders,
    event: &CaptureGifRecording,
    now_seconds: u64,
) -> (r: Result<GifJob, CaptureError>)
    requires
        old(recorders).wf(),
    ensures
        final(recorders).wf(),
        spec_recording_error(*old(recorders), *event) != CaptureError::EncodeFailed ==> r is Err
            && r->Err_0 == spec_recording_error(*old(recorders), *event),
        spec_recording_error(*old(recorders), *event) == CaptureError::EncodeFailed ==> r is Ok,
        (r is Err && r->Err_0 == CaptureError::UnknownRecorder || r is Err && r->Err_0
            == CaptureError::StopUnsupported) ==> final(recorders).0.entries@ == old(
            recorders,
        ).0.entries@,
        (spec_recording_error(*old(recorders), *event) == CaptureError::EncodeFailed
            || spec_recording_error(*old(recorders), *event) == CaptureError::WrongSize) ==> {
            let pre = old(recorders).0.entries@;
            let post = final(recorders).0.entries@;
            let at = crate::data::key_at(pre, event.tracking_id);
            &&& post.len() == pre.len()
            &&& forall|p: int|
                0 <= p < pre.len() && p != at ==> #[trigger] post[p] == pre[p]
            &&& post[at].0 == pre[at].0
            &&& post[at].1.tracker == pre[at].1.tracker
            &&& post[at].1.target_handle == pre[at].1.target_handle
            &&& post[at].1.width == pre[at].1.width
            &&& post[at].1.height == pre[at].1.height
            &&& post[at].1.format == pre[at].1.format
            &&& post[at].1.target_duration == pre[at].1.target_duration
            &&& post[at].1.has_ingested == pre[at].1.has_ingested
            &&& post[at].1.frames@.len() == 0
        },
        r matches Ok(job) ==> {
            let rec = value_of(old(recorders).0.entries@, event.tracking_id);
            &&& job.width == rec.width as u16
            &&& job.height == rec.height as u16
            &&& job.frames@.len() == rec.frames@.len()
            &&& forall|i: int|
                0 <= i < job.frames@.len() ==> quantized_frame(
                    #[trigger] job.frames@[i],
                    rec.frames@[i],
                    rec.format,
                )
            &&& job.file_name@ == match event.path {
                Some(p) => p@,
                None => spec_decimal(now_seconds as int) + ".gif"@,
            }
        },
{
    let idx = match recorders.0.find_index(event.tracking_id) {
        Some(i) => i,
        None => {
            return Err(CaptureError::UnknownRecorder);
        },
    };
    proof {
        crate::data::lemma_key_at_is_index(recorders.0.entries@, event.tracking_id, idx as int);
    }
    match event.and_then {
        PostCaptureAction::Stop => {
            return Err(CaptureError::StopUnsupported);
        },
        PostCaptureAction::Continue => {},
    }
    let ghost pre_entries = recorders.0.entries@;
    let e = &mut recorders.0.entries[idx];
    let mut frames: VecDeque<TextureFrame> = VecDeque::new();
    std::mem::swap(&mut e.1.frames, &mut frames);
    let width = e.1.width;
    let height = e.1.height;
    let format = e.1.format;
    proof {
        assert(frames@ == value_of(old(recorders).0.entries@, event.tracking_id).frames@);
        assert(recorders.0.entries@.len() == pre_entries.len());
        assert(recorders.0.entries@[idx as int].1.frames@ =~= Seq::<TextureFrame>::empty());
        assert(crate::data::total_duration(recorders.0.entries@[idx as int].1.frames@) == 0);
        assert forall|p: int|
            0 <= p < recorders.0.entries@.len() implies (
        #[trigger] recorders.0.entries@[p]).1.wf() by {
            if p != idx {
                assert(recorders.0.entries@[p] == pre_entries[p]);
            }
        }
        assert forall|p: int, q: int|
            0 <= p < q < recorders.0.entries@.len() implies (
        #[trigger] recorders.0.entries@[p]).0 != (#[trigger] recorders.0.entries@[q]).0 by {
            assert(recorders.0.entries@[p].0 == pre_entries[p].0);
            assert(recorders.0.entries@[q].0 == pre_entries[q].0);
        }
    }

    // Every frame the readback produced holds exactly one tightly packed
    // image; anything else is a shape error.
    proof {
        assert(width * height * 4 <= u128::MAX) by (nonlinear_arith)
            requires width <= u32::MAX, height <= u32::MAX;
    }
    let expected: u128 = width as u128 * height as u128 * 4;
    let count = frames.len();
    let mut i: usize = 0;
    while i < count
        invariant
            count == frames@.len(),
            i <= count,
            expected == width * height * 4,
            forall|p: int|
                0 <= p < i ==> (#[trigger] frames@[p]).texture@.len() == width * height * 4,
        decreases count - i,
    {
        if frames[i].texture.len() as u128 != expected {
            proof {
                let rec = value_of(old(recorders).0.entries@, event.tracking_id);
                assert(rec.frames@[i as int].texture@.len() != rec.width * rec.height * 4);
                assert(spec_recording_error(*old(recorders), *event)
                    == CaptureError::WrongSize);
            }
            return Err(CaptureError::WrongSize);
        }
        i = i + 1;
    }
    proof {
        let rec = value_of(old(recorders).0.entries@, event.tracking_id);
        assert(rec == pre_entries[idx as int].1);
        if spec_recording_error(*old(recorders), *event) == CaptureError::WrongSize {
            let p = choose|p: int|
                0 <= p < rec.frames@.len() && (#[trigger] rec.frames@[p]).texture@.len()
                    != rec.width * rec.height * 4;
            assert(frames@[p].texture@.len() == width * height * 4);
            assert(false);
        }
        assert(spec_recording_error(*old(recorders), *event) == CaptureError::EncodeFailed);
    }
    proof {
        assert forall|p: int|
            0 <= p < frames@.len() implies (#[trigger] frames@[p]).texture@.len() % 4 == 0 by {
            assert(frames@[p].texture@.len() % 4 == 0) by (nonlinear_arith)
                requires frames@[p].texture@.len() == width * height * 4;
        }
    }

    let w16: u16 = (width % 0x10000) as u16;
    let h16: u16 = (height % 0x10000) as u16;
    proof {
        assert(w16 == width as u16) by (bit_vector)
            requires w16 == (width % 0x10000u32) as u16;
        assert(h16 == height as u16) by (bit_vector)
            requires h16 == (height % 0x10000u32) as u16;
    }
    let quantized = quantize_frames(frames, format);
    Ok(
        GifJob {
            file_name: resolve_output_name(&event.path, now_seconds, ".gif"),
            width: w16,
            height: h16,
            frames: quantized,
        },
    )
}

/// Which error an animation capture request runs into, checked in dispatch
/// order; `EncodeFailed` stands for "nothing wrong with the request", and
/// since quantization itself cannot fail, such a request is always
/// accepted.
pub open spec fn spec_recording_error(
    recorders: ActiveRecorders,
    event: CaptureGifRecording,
) -> CaptureError {
    if !crate::data::has_key(recorders.0.entries@, event.tracking_id) {
        CaptureError::UnknownRecorder
    } else if event.and_then is Stop {
        CaptureError::StopUnsupported
    } else {
        let rec = value_of(recorders.0.entries@, event.tracking_id);
        if exists|p: int|
            0 <= p < rec.frames@.len() && (#[trigger] rec.frames@[p]).texture@.len() != rec.width
                * rec.height * 4 {
            CaptureError::WrongSize
        } else {
            CaptureError::EncodeFailed
        }
    }
}

} // verus!
