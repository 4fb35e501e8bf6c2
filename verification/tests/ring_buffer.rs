use std::collections::VecDeque;

use capture_media::data::{
    ActiveRecorder, ActiveRecorders, DataSmuggler, IdMap, RenderData, StopTrackingCamera,
    TextureFrame,
};
use capture_media::image_utils::TextureFormat;
use capture_media::management::{ingest_frame, move_camera_buffers, stop_tracking};
use capture_media::BevyCapturePlugin;

fn recorder_with(target_duration: u64) -> ActiveRecorder {
    ActiveRecorder {
        tracker: 1,
        target_handle: 10,
        width: 2,
        height: 2,
        format: TextureFormat::Rgba8UnormSrgb,
        target_duration,
        has_ingested: false,
        frames: VecDeque::new(),
    }
}

/// A recorder that has already captured before, so ingested frames carry
/// the tick delta rather than the first frame's zero.
fn warmed_recorder(target_duration: u64) -> ActiveRecorder {
    let mut rec = recorder_with(target_duration);
    rec.has_ingested = true;
    rec
}

fn total(rec: &ActiveRecorder) -> u64 {
    rec.frames.iter().map(|f| f.frame_time).sum()
}

#[test]
fn first_frame_has_duration_zero() {
    // The first captured frame has no previous frame to measure from: it
    // is stamped zero, whatever the tick delta; later frames carry the
    // delta.
    let mut rec = recorder_with(1000);
    let overrun = ingest_frame(&mut rec, vec![1, 2, 3], 250);
    assert!(!overrun);
    assert_eq!(rec.frames.len(), 1);
    assert_eq!(rec.frames[0].texture, vec![1, 2, 3]);
    assert_eq!(rec.frames[0].frame_time, 0);
    ingest_frame(&mut rec, vec![4], 250);
    assert_eq!(rec.frames[1].frame_time, 250);
}

#[test]
fn uniform_window_fills_then_evicts_one() {
    // A budget of n * d holds exactly n frames of duration d; the next
    // ingest evicts exactly the single oldest frame.
    let n: u64 = 4;
    let d: u64 = 250;
    let mut rec = warmed_recorder(n * d);
    for i in 0..n {
        ingest_frame(&mut rec, vec![i as u8], d);
        assert_eq!(rec.frames.len(), (i + 1) as usize);
    }
    ingest_frame(&mut rec, vec![99], d);
    assert_eq!(rec.frames.len(), n as usize);
    // The oldest frame (payload [0]) is gone; order is chronological.
    assert_eq!(rec.frames[0].texture, vec![1]);
    assert_eq!(rec.frames[1].texture, vec![2]);
    assert_eq!(rec.frames[2].texture, vec![3]);
    assert_eq!(rec.frames[3].texture, vec![99]);
}

#[test]
fn total_minus_newest_never_exceeds_budget() {
    let mut rec = warmed_recorder(700);
    let deltas = [100u64, 300, 50, 500, 20, 700, 40, 900, 10];
    for (i, &dt) in deltas.iter().enumerate() {
        ingest_frame(&mut rec, vec![i as u8], dt);
        let newest = rec.frames.back().unwrap().frame_time;
        assert!(total(&rec) - newest <= 700);
    }
}

#[test]
fn eviction_removes_from_the_front_only() {
    let mut rec = warmed_recorder(600);
    ingest_frame(&mut rec, vec![0], 200);
    ingest_frame(&mut rec, vec![1], 200);
    ingest_frame(&mut rec, vec![2], 200);
    // 600 of 600 used; the next 400 must evict the two oldest frames.
    ingest_frame(&mut rec, vec![3], 400);
    let payloads: Vec<u8> = rec.frames.iter().map(|f| f.texture[0]).collect();
    assert_eq!(payloads, vec![2, 3]);
}

#[test]
fn single_overrun_frame_is_accepted() {
    let mut rec = warmed_recorder(100);
    ingest_frame(&mut rec, vec![0], 50);
    ingest_frame(&mut rec, vec![1], 60);
    // A frame whose duration alone exceeds the budget empties the queue
    // and is kept anyway.
    let overrun = ingest_frame(&mut rec, vec![2], 5000);
    assert!(overrun);
    assert_eq!(rec.frames.len(), 1);
    assert_eq!(rec.frames[0].texture, vec![2]);
    assert_eq!(rec.frames[0].frame_time, 5000);
}

#[test]
fn move_camera_buffers_ingests_and_clears_slots() {
    let plugin = BevyCapturePlugin;
    let mut state = plugin.build(true).unwrap();
    state.recorders.0.try_insert(3, recorder_with(1000)).unwrap();
    state
        .smuggler
        .0
        .try_insert(3, RenderData { target_handle: 10, last_frame: Some(vec![7, 7]) })
        .unwrap();
    // A slot whose recorder is gone keeps its frame.
    state
        .smuggler
        .0
        .try_insert(9, RenderData { target_handle: 11, last_frame: Some(vec![8]) })
        .unwrap();

    let warned = move_camera_buffers(&mut state.recorders, &mut state.smuggler, 16);
    assert!(warned.is_empty());

    let rec = state.recorders.0.get(3).unwrap();
    assert_eq!(rec.frames.len(), 1);
    assert_eq!(rec.frames[0].texture, vec![7, 7]);
    // The recorder's first frame represents no elapsed time.
    assert_eq!(rec.frames[0].frame_time, 0);
    assert!(state.smuggler.0.get(3).unwrap().last_frame.is_none());
    assert_eq!(state.smuggler.0.get(9).unwrap().last_frame, Some(vec![8]));

    // A second tick's frame carries the tick delta.
    let slot = state.smuggler.0.find_index(3).unwrap();
    state.smuggler.0.entries[slot].1.last_frame = Some(vec![5, 5]);
    move_camera_buffers(&mut state.recorders, &mut state.smuggler, 16);
    let rec = state.recorders.0.get(3).unwrap();
    assert_eq!(rec.frames.len(), 2);
    assert_eq!(rec.frames[1].frame_time, 16);
}

#[test]
fn move_camera_buffers_skips_empty_slots() {
    let mut recorders = ActiveRecorders(IdMap::new());
    let mut smuggler = DataSmuggler(IdMap::new());
    recorders.0.try_insert(1, recorder_with(1000)).unwrap();
    smuggler
        .0
        .try_insert(1, RenderData { target_handle: 10, last_frame: None })
        .unwrap();
    move_camera_buffers(&mut recorders, &mut smuggler, 16);
    assert_eq!(recorders.0.get(1).unwrap().frames.len(), 0);
}

#[test]
fn overrun_recorders_are_reported() {
    let mut recorders = ActiveRecorders(IdMap::new());
    let mut smuggler = DataSmuggler(IdMap::new());
    // A 100 ms budget against a 5000 ms tick: the frame overruns.  (A
    // first-ever frame would be stamped zero and never overrun.)
    recorders.0.try_insert(4, warmed_recorder(100)).unwrap();
    smuggler
        .0
        .try_insert(4, RenderData { target_handle: 10, last_frame: Some(vec![1]) })
        .unwrap();
    let warned = move_camera_buffers(&mut recorders, &mut smuggler, 5000);
    assert_eq!(warned, vec![4]);
    // The overrun frame is accepted anyway.
    assert_eq!(recorders.0.get(4).unwrap().frames.len(), 1);
}

#[test]
fn stop_tracking_removes_recorder_everywhere() {
    let mut recorders = ActiveRecorders(IdMap::new());
    let mut smuggler = DataSmuggler(IdMap::new());
    recorders.0.try_insert(5, recorder_with(1000)).unwrap();
    recorders.0.try_insert(6, recorder_with(1000)).unwrap();
    smuggler
        .0
        .try_insert(5, RenderData { target_handle: 10, last_frame: Some(vec![1]) })
        .unwrap();
    smuggler
        .0
        .try_insert(6, RenderData { target_handle: 11, last_frame: None })
        .unwrap();

    let despawn = stop_tracking(
        &mut recorders,
        &mut smuggler,
        &StopTrackingCamera { tracking_id: 5 },
    );
    assert_eq!(despawn, Some(1));
    assert!(recorders.0.get(5).is_none());
    assert!(smuggler.0.get(5).is_none());
    // The other recorder is untouched.
    assert!(recorders.0.get(6).is_some());
    assert!(smuggler.0.get(6).is_some());

    // Stopping an unknown identifier is a no-op.
    let despawn2 = stop_tracking(
        &mut recorders,
        &mut smuggler,
        &StopTrackingCamera { tracking_id: 5 },
    );
    assert_eq!(despawn2, None);
}

#[test]
fn duplicate_insert_is_rejected() {
    let mut recorders = ActiveRecorders(IdMap::new());
    recorders.0.try_insert(1, recorder_with(100)).unwrap();
    assert!(recorders.0.try_insert(1, recorder_with(200)).is_err());
    // The prior registration is untouched.
    assert_eq!(recorders.0.get(1).unwrap().target_duration, 100);
}

#[test]
fn build_fails_closed_without_render_phase() {
    let plugin = BevyCapturePlugin;
    assert!(plugin.build(false).is_err());
    let state = plugin.build(true).unwrap();
    assert_eq!(state.recorders.0.entries.len(), 0);
    assert_eq!(state.smuggler.0.entries.len(), 0);
}

#[test]
fn texture_frame_constructors() {
    let z = TextureFrame::zeroed(vec![1, 2]);
    assert_eq!(z.frame_time, 0);
    assert_eq!(z.texture, vec![1, 2]);
    let d = TextureFrame::with_duration(vec![3], 42);
    assert_eq!(d.frame_time, 42);
    assert_eq!(d.texture, vec![3]);
}
