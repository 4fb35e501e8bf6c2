use std::collections::VecDeque;

use capture_media::data::{
    ActiveRecorder, ActiveRecorders, CaptureFrame, IdMap, PostCaptureAction, TextureFrame,
};
use capture_media::formats::png::{save_single_frame, SavePng, SavePngFile};
use capture_media::formats::{resolve_output_name, u64_to_decimal, CaptureError};
use capture_media::image_utils::TextureFormat;

fn recorder_2x2(format: TextureFormat, frames: Vec<TextureFrame>) -> ActiveRecorder {
    ActiveRecorder {
        tracker: 1,
        target_handle: 10,
        width: 2,
        height: 2,
        format,
        target_duration: 1000,
        has_ingested: true,
        frames: VecDeque::from(frames),
    }
}

fn request(id: usize, path: Option<String>) -> SavePngFile {
    CaptureFrame {
        tracking_id: id,
        path,
        and_then: PostCaptureAction::Continue,
        capture_type: SavePng::Basic,
    }
}

#[test]
fn still_capture_round_trips_through_png() {
    let pixels: Vec<u8> = vec![
        255, 0, 0, 255, 0, 255, 0, 255, 0, 0, 255, 255, 10, 20, 30, 40,
    ];
    let mut recorders = ActiveRecorders(IdMap::new());
    recorders
        .0
        .try_insert(
            1,
            recorder_2x2(
                TextureFormat::Rgba8UnormSrgb,
                vec![TextureFrame::zeroed(pixels.clone())],
            ),
        )
        .unwrap();
    let job = save_single_frame(&recorders, &request(1, Some("shot.png".to_string())), 0)
        .unwrap();
    assert_eq!(job.file_name, "shot.png");
    assert_eq!((job.width, job.height), (2, 2));
    // The job holds a real PNG stream of the same pixels, not the raw
    // input handed back.
    assert_ne!(job.bytes, pixels);
    assert_eq!(&job.bytes[1..4], b"PNG");
    let decoded = image::load_from_memory(&job.bytes).unwrap().into_rgba8();
    assert_eq!((decoded.width(), decoded.height()), (2, 2));
    assert_eq!(decoded.into_raw(), pixels);
}

#[test]
fn still_capture_converts_channel_order() {
    let bgra: Vec<u8> = vec![1, 2, 3, 4, 5, 6, 7, 8, 9, 10, 11, 12, 13, 14, 15, 16];
    let mut recorders = ActiveRecorders(IdMap::new());
    recorders
        .0
        .try_insert(
            1,
            recorder_2x2(
                TextureFormat::Bgra8Unorm,
                vec![TextureFrame::zeroed(bgra)],
            ),
        )
        .unwrap();
    let job = save_single_frame(&recorders, &request(1, Some("b.png".to_string())), 0).unwrap();
    let decoded = image::load_from_memory(&job.bytes).unwrap().into_rgba8();
    assert_eq!(
        decoded.into_raw(),
        vec![3, 2, 1, 4, 7, 6, 5, 8, 11, 10, 9, 12, 15, 14, 13, 16]
    );
}

#[test]
fn still_capture_reuses_latest_frame() {
    let old_frame = TextureFrame::zeroed(vec![9u8; 16]);
    let new_frame = TextureFrame::zeroed(vec![1u8; 16]);
    let mut recorders = ActiveRecorders(IdMap::new());
    recorders
        .0
        .try_insert(
            1,
            recorder_2x2(TextureFormat::Rgba8Unorm, vec![old_frame, new_frame]),
        )
        .unwrap();
    let job1 = save_single_frame(&recorders, &request(1, Some("a.png".to_string())), 0).unwrap();
    let decoded = image::load_from_memory(&job1.bytes).unwrap().into_rgba8();
    assert_eq!(decoded.into_raw(), vec![1u8; 16]);
    // The frame is not removed: a repeated capture sees the same frame.
    let job2 = save_single_frame(&recorders, &request(1, Some("a.png".to_string())), 0).unwrap();
    assert_eq!(job1.bytes, job2.bytes);
    assert_eq!(recorders.0.get(1).unwrap().frames.len(), 2);
}

#[test]
fn unknown_recorder_is_dropped() {
    let recorders = ActiveRecorders(IdMap::new());
    let r = save_single_frame(&recorders, &request(5, None), 0);
    assert_eq!(r.unwrap_err(), CaptureError::UnknownRecorder);
}

#[test]
fn stop_disposition_fails_closed() {
    let mut recorders = ActiveRecorders(IdMap::new());
    recorders
        .0
        .try_insert(
            1,
            recorder_2x2(
                TextureFormat::Rgba8Unorm,
                vec![TextureFrame::zeroed(vec![0u8; 16])],
            ),
        )
        .unwrap();
    let mut req = request(1, None);
    req.and_then = PostCaptureAction::Stop;
    let r = save_single_frame(&recorders, &req, 0);
    assert_eq!(r.unwrap_err(), CaptureError::StopUnsupported);
}

#[test]
fn empty_queue_yields_no_frames_error() {
    let mut recorders = ActiveRecorders(IdMap::new());
    recorders
        .0
        .try_insert(1, recorder_2x2(TextureFormat::Rgba8Unorm, vec![]))
        .unwrap();
    let r = save_single_frame(&recorders, &request(1, None), 0);
    assert_eq!(r.unwrap_err(), CaptureError::NoFrames);
}

#[test]
fn wrong_buffer_shape_is_rejected() {
    let mut recorders = ActiveRecorders(IdMap::new());
    recorders
        .0
        .try_insert(
            1,
            recorder_2x2(
                TextureFormat::Rgba8Unorm,
                // 2 x 2 needs 16 bytes; hand over 12.
                vec![TextureFrame::zeroed(vec![0u8; 12])],
            ),
        )
        .unwrap();
    let r = save_single_frame(&recorders, &request(1, None), 0);
    assert_eq!(r.unwrap_err(), CaptureError::WrongSize);
}

#[test]
fn zero_sized_target_cannot_encode() {
    // The only thing the encoder itself declines is a zero-sized target.
    let mut recorders = ActiveRecorders(IdMap::new());
    let mut rec = recorder_2x2(TextureFormat::Rgba8Unorm, vec![TextureFrame::zeroed(vec![])]);
    rec.width = 0;
    rec.height = 0;
    recorders.0.try_insert(1, rec).unwrap();
    let r = save_single_frame(&recorders, &request(1, None), 0);
    assert_eq!(r.unwrap_err(), CaptureError::EncodeFailed);
}

#[test]
fn generated_name_uses_seconds_and_extension() {
    let name = resolve_output_name(&None, 1700000000, ".png");
    assert_eq!(name, "1700000000.png");
    let kept = resolve_output_name(&Some("shots/best.png".to_string()), 1700000000, ".png");
    assert_eq!(kept, "shots/best.png");
    let job_name = resolve_output_name(&None, 0, ".gif");
    assert_eq!(job_name, "0.gif");
}

#[test]
fn decimal_rendering_is_exact() {
    assert_eq!(u64_to_decimal(0), "0");
    assert_eq!(u64_to_decimal(7), "7");
    assert_eq!(u64_to_decimal(10), "10");
    assert_eq!(u64_to_decimal(507), "507");
    assert_eq!(u64_to_decimal(u64::MAX), "18446744073709551615");
}
