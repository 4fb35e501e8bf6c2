use vstd::prelude::*;
use std::collections::VecDeque;
use crate::image_utils::TextureFormat;

verus! {

/// A caller-assigned identifier for one tracking session.
pub type RecorderID = usize;

/// A plain reference to an entity of the host's scene graph.  The core never
/// dereferences one; it only stores and compares them.
pub type EntityRef = u64;

/// A plain handle to a render-target image owned by the host.  The core never
/// reads through one; it only stores it and hands it back on teardown.
pub type TargetHandle = u64;

/// Stores the user defined ID given to this recorder when it was created.
#[derive(Clone, Copy, Debug, PartialEq, Eq, Structural, Default)]
pub struct Recorder(pub RecorderID);

/// Stores a reference to an entity.  Indicates that the entity this value
/// belongs to should track the referenced entity.
#[derive(Clone, Copy, Debug, PartialEq, Eq, Structural)]
pub struct Track(pub EntityRef);

/// Align one item (the target) based on a relative position to some point on
/// another item (the background), such as a watermark over an image.
///
/// Watermark compositing itself is not yet specified; this type only carries
/// the caller's request.
#[derive(Clone, Copy, Debug, PartialEq, Eq, Structural)]
pub enum Alignment {
    /// An offset between the top left corner of the target and the top left
    /// corner of the background.
    TopLeft { top: u32, left: u32 },
    /// Offset the top edge of the target from the top edge of the background,
    /// horizontally centred.
    TopCentre { top: u32 },
    /// An offset between the top right corner of the target and the top right
    /// corner of the background.
    TopRight { top: u32, right: u32 },
    /// Offset the left edge of the target from the left edge of the
    /// background, vertically centred.
    CentreLeft { left: u32 },
    /// Align the vertical and horizontal centres of the target and the
    /// background.
    CentreCentre,
    /// Offset the right edge of the target from the right edge of the
    /// background, vertically centred.
    CentreRight { right: u32 },
    /// An offset between the bottom left corner of the target and the bottom
    /// left corner of the background.
    BottomLeft { bottom: u32, left: u32 },
    /// Offset the bottom edge of the target from the bottom edge of the
    /// background, horizontally centred.
    BottomCentre { bottom: u32 },
    /// An offset between the bottom right corner of the target and the bottom
    /// right corner of the background.
    BottomRight { bottom: u32, right: u32 },
}

/// Holds a single frame buffer's worth of pixel data and the amount of time,
/// in milliseconds of wall-clock time, that this frame represents.
#[derive(Clone, Debug)]
pub struct TextureFrame {
    /// All of the bytes for one frame.
    pub texture: Vec<u8>,
    /// The amount of time the frame represents, in milliseconds.
    pub frame_time: u64,
}

impl TextureFrame {
    /// Create a new frame with a duration of 0.
    pub fn zeroed(frame: Vec<u8>) -> (r: Self)
        ensures
            r.texture@ == frame@,
            r.frame_time == 0,
    {
        Self { texture: frame, frame_time: 0 }
    }

    /// Create a new frame with a specified duration in milliseconds.
    pub fn with_duration(frame: Vec<u8>, delta: u64) -> (r: Self)
        ensures
            r.texture@ == frame@,
            r.frame_time == delta,
    {
        Self { texture: frame, frame_time: delta }
    }
}

/// What action should a recorder take when it has completed a given command.
#[derive(Clone, Copy, Debug, PartialEq, Eq, Structural, Default)]
pub enum PostCaptureAction {
    /// Continue to capture frames into the frame buffer.
    #[default]
    Continue,
    /// Tear the recorder down once the capture completes.  The capture
    /// pipelines do not implement this disposition; a request carrying it
    /// fails closed (it is rejected, and no file is produced).
    Stop,
}

// -- EVENTS --

/// Request that the camera behind `cam_entity` is mirrored into an offscreen
/// recorder holding the most recent `length` milliseconds of frames.
#[derive(Clone, Copy, Debug, PartialEq, Eq, Structural)]
pub struct StartTrackingCamera {
    pub cam_entity: EntityRef,
    pub tracking_id: RecorderID,
    /// The duration of time that the tracker should hold frames for, in
    /// milliseconds.
    pub length: u64,
}

/// Request that tracking for `tracking_id` stops and its state is discarded.
#[derive(Clone, Copy, Debug, PartialEq, Eq, Structural)]
pub struct StopTrackingCamera {
    pub tracking_id: RecorderID,
}

/// Request that a single frame is captured, with the given type information.
/// This will be the most recent frame already stored when the request is
/// processed, rather than the next frame to be stored afterwards.
#[derive(Clone, Debug, PartialEq, Eq, Default)]
pub struct CaptureFrame<CaptureType> {
    /// The identifier for the camera tracker that should capture a frame.
    pub tracking_id: RecorderID,
    /// The file path that the frame should be saved to, including file name
    /// and extension.  The extension does not affect the format captured.
    /// When no path is given, a timestamped file name is generated and the
    /// file is saved to the current directory.
    pub path: Option<String>,
    /// Determines what the camera tracker should do after recording this
    /// frame.
    pub and_then: PostCaptureAction,
    /// The type of capture to use (e.g. PNG).  Some capture types may provide
    /// more information or alter the capture behaviour.
    pub capture_type: CaptureType,
}

/// Request that the current frame buffer is converted into the specified
/// `CaptureType` and saved.  Encoding the frame buffer usually takes some
/// amount of time, which happens off the critical path.
#[derive(Clone, Debug, PartialEq, Eq, Default)]
pub struct CaptureRecording<CaptureType> {
    /// The identifier for the camera tracker that should capture a recording.
    pub tracking_id: RecorderID,
    /// The file path that the recording should be saved to, including file
    /// name and extension.  The extension does not affect the format
    /// captured.  When no path is given, a timestamped file name is generated
    /// and the file is saved to the current directory.
    pub path: Option<String>,
    /// Determines what the camera tracker should do after recording.
    pub and_then: PostCaptureAction,
    /// The type of capture to use (e.g. an animation format).
    pub capture_type: CaptureType,
}

// -- TRAITS --

/// A pollable handle to an in-flight background job.  Implementors answer, in
/// one non-blocking call, whether the job has finished.
pub trait HasTaskStatus {
    fn is_done(&mut self) -> bool;
}

/// The orthographic extent of a tracked camera, in whole world units: what
/// the core reads of the host's projection to size an offscreen target.
#[derive(Clone, Copy, Debug, PartialEq, Eq, Structural)]
pub struct OrthoExtent {
    pub left: i64,
    pub right: i64,
    pub bottom: i64,
    pub top: i64,
}

/// A span clamped to the dimensions a render target can have: negative
/// extents become zero, never a negative dimension.
pub open spec fn clamp_dimension(v: int) -> int {
    if v < 0 {
        0
    } else if v > u32::MAX {
        u32::MAX as int
    } else {
        v
    }
}

impl OrthoExtent {
    pub open spec fn spec_width(&self) -> int {
        clamp_dimension(self.right - self.left)
    }

    pub open spec fn spec_height(&self) -> int {
        clamp_dimension(self.top - self.bottom)
    }

    /// The size of the offscreen target that mirrors this projection:
    /// right minus left by top minus bottom, clamped to zero or more.
    pub fn target_size(&self) -> (r: (u32, u32))
        ensures
            r.0 as int == self.spec_width(),
            r.1 as int == self.spec_height(),
    {
        let w128: i128 = self.right as i128 - self.left as i128;
        let h128: i128 = self.top as i128 - self.bottom as i128;
        let w: u32 = if w128 < 0 {
            0
        } else if w128 > u32::MAX as i128 {
            u32::MAX
        } else {
            w128 as u32
        };
        let h: u32 = if h128 < 0 {
            0
        } else if h128 > u32::MAX as i128 {
            u32::MAX
        } else {
            h128 as u32
        };
        (w, h)
    }
}

// -- HANDLERS --

/// Collects media-capture requests.  Methods only enqueue typed request
/// records; the host drains each queue into its own dispatch mechanism, so
/// nothing here blocks.
#[derive(Debug, Default)]
pub struct MediaCapture {
    pub capture_gif: Vec<crate::formats::gif::CaptureGifRecording>,
    pub capture_png: Vec<crate::formats::png::SavePngFile>,
    pub start_tracking: Vec<StartTrackingCamera>,
    pub stop_tracking: Vec<StopTrackingCamera>,
}

impl MediaCapture {
    pub fn new() -> (r: Self)
        ensures
            r.capture_gif@.len() == 0,
            r.capture_png@.len() == 0,
            r.start_tracking@.len() == 0,
            r.stop_tracking@.len() == 0,
    {
        MediaCapture {
            capture_gif: Vec::new(),
            capture_png: Vec::new(),
            start_tracking: Vec::new(),
            stop_tracking: Vec::new(),
        }
    }

    /// Request that frames are captured for the given camera, holding the
    /// most recent `length` milliseconds worth of frames.
    pub fn start_tracking_camera(&mut self, tracking_id: RecorderID, target: EntityRef, length: u64)
        ensures
            final(self).start_tracking@ == old(self).start_tracking@.push(
                (StartTrackingCamera { tracking_id, cam_entity: target, length }),
            ),
            final(self).stop_tracking@ == old(self).stop_tracking@,
            final(self).capture_gif@ == old(self).capture_gif@,
            final(self).capture_png@ == old(self).capture_png@,
    {
        self.start_tracking.push(StartTrackingCamera { tracking_id, cam_entity: target, length });
    }

    /// Request that tracking for the given recorder stops: its stored
    /// frames are discarded and capture requests that have not started
    /// processing are ignored.  Capture jobs already running own their
    /// frames and are unaffected.
    pub fn stop_tracking_camera(&mut self, tracking_id: RecorderID)
        ensures
            final(self).stop_tracking@ == old(self).stop_tracking@.push(
                (StopTrackingCamera { tracking_id }),
            ),
            final(self).start_tracking@ == old(self).start_tracking@,
            final(self).capture_gif@ == old(self).capture_gif@,
            final(self).capture_png@ == old(self).capture_png@,
    {
        self.stop_tracking.push(StopTrackingCamera { tracking_id });
    }

    /// Request that the recorder's stored frames are encoded into an
    /// animation saved under a generated name.
    pub fn capture_gif(&mut self, tracking_id: RecorderID)
        ensures
            final(self).capture_gif@ == old(self).capture_gif@.push(
                (CaptureRecording {
                    tracking_id,
                    path: None,
                    and_then: PostCaptureAction::Continue,
                    capture_type: crate::formats::gif::RecordGif,
                }),
            ),
            final(self).start_tracking@ == old(self).start_tracking@,
            final(self).stop_tracking@ == old(self).stop_tracking@,
            final(self).capture_png@ == old(self).capture_png@,
    {
        self.capture_gif.push(
            CaptureRecording {
                tracking_id,
                path: None,
                and_then: PostCaptureAction::Continue,
                capture_type: crate::formats::gif::RecordGif,
            },
        );
    }

    /// Request that the recorder's stored frames are encoded into an
    /// animation saved under the given path.
    pub fn capture_gif_with_path(&mut self, tracking_id: RecorderID, path: String)
        ensures
            final(self).capture_gif@ == old(self).capture_gif@.push(
                (CaptureRecording {
                    tracking_id,
                    path: Some(path),
                    and_then: PostCaptureAction::Continue,
                    capture_type: crate::formats::gif::RecordGif,
                }),
            ),
            final(self).start_tracking@ == old(self).start_tracking@,
            final(self).stop_tracking@ == old(self).stop_tracking@,
            final(self).capture_png@ == old(self).capture_png@,
    {
        self.capture_gif.push(
            CaptureRecording {
                tracking_id,
                path: Some(path),
                and_then: PostCaptureAction::Continue,
                capture_type: crate::formats::gif::RecordGif,
            },
        );
    }

    /// Request that the recorder's most recently stored frame is encoded as
    /// a still image saved under a generated name.
    pub fn capture_png(&mut self, tracking_id: RecorderID)
        ensures
            final(self).capture_png@ == old(self).capture_png@.push(
                (CaptureFrame {
                    tracking_id,
                    path: None,
                    and_then: PostCaptureAction::Continue,
                    capture_type: crate::formats::png::SavePng::Basic,
                }),
            ),
            final(self).start_tracking@ == old(self).start_tracking@,
            final(self).stop_tracking@ == old(self).stop_tracking@,
            final(self).capture_gif@ == old(self).capture_gif@,
    {
        self.capture_png.push(
            CaptureFrame {
                tracking_id,
                path: None,
                and_then: PostCaptureAction::Continue,
                capture_type: crate::formats::png::SavePng::Basic,
            },
        );
    }

    /// Request that the recorder's most recently stored frame is encoded as
    /// a still image saved under the given path.
    pub fn capture_png_with_path(&mut self, tracking_id: RecorderID, path: String)
        ensures
            final(self).capture_png@ == old(self).capture_png@.push(
                (CaptureFrame {
                    tracking_id,
                    path: Some(path),
                    and_then: PostCaptureAction::Continue,
                    capture_type: crate::formats::png::SavePng::Basic,
                }),
            ),
            final(self).start_tracking@ == old(self).start_tracking@,
            final(self).stop_tracking@ == old(self).stop_tracking@,
            final(self).capture_gif@ == old(self).capture_gif@,
    {
        self.capture_png.push(
            CaptureFrame {
                tracking_id,
                path: Some(path),
                and_then: PostCaptureAction::Continue,
                capture_type: crate::formats::png::SavePng::Basic,
            },
        );
    }
}

// -- REGISTRIES --

/// The sum, in milliseconds, of the durations of a sequence of frames.
pub open spec fn total_duration(s: Seq<TextureFrame>) -> int
    decreases s.len(),
{
    if s.len() == 0 {
        0
    } else {
        s[0].frame_time + total_duration(s.drop_first())
    }
}

pub proof fn lemma_total_duration_nonneg(s: Seq<TextureFrame>)
    ensures
        0 <= total_duration(s),
    decreases s.len(),
{
    if s.len() > 0 {
        lemma_total_duration_nonneg(s.drop_first());
    }
}

pub proof fn lemma_total_duration_push(s: Seq<TextureFrame>, f: TextureFrame)
    ensures
        total_duration(s.push(f)) == total_duration(s) + f.frame_time,
    decreases s.len(),
{
    assert(s.push(f).len() == s.len() + 1);
    assert(total_duration(s.push(f)) == s.push(f)[0].frame_time + total_duration(
        s.push(f).drop_first(),
    ));
    if s.len() == 0 {
        assert(s.push(f)[0] == f);
        assert(s.push(f).drop_first() =~= Seq::<TextureFrame>::empty());
        assert(total_duration(Seq::<TextureFrame>::empty()) == 0);
    } else {
        assert(s.push(f)[0] == s[0]);
        assert(s.push(f).drop_first() =~= s.drop_first().push(f));
        lemma_total_duration_push(s.drop_first(), f);
    }
}

/// Dropping the frame at the front of a suffix removes exactly its duration.
pub proof fn lemma_total_duration_skip_step(s: Seq<TextureFrame>, k: int)
    requires
        0 <= k < s.len(),
    ensures
        total_duration(s.skip(k)) == s[k].frame_time + total_duration(s.skip(k + 1)),
{
    assert(s.skip(k).drop_first() =~= s.skip(k + 1));
    assert(s.skip(k)[0] == s[k]);
}

/// The duration of a whole queue splits into any prefix and the matching
/// suffix.
pub proof fn lemma_total_duration_split(s: Seq<TextureFrame>, k: int)
    requires
        0 <= k <= s.len(),
    ensures
        total_duration(s) == total_duration(s.take(k)) + total_duration(s.skip(k)),
    decreases k,
{
    if k == 0 {
        assert(s.take(0) =~= Seq::<TextureFrame>::empty());
        assert(s.skip(0) =~= s);
    } else {
        lemma_total_duration_split(s, k - 1);
        lemma_total_duration_skip_step(s, k - 1);
        assert(s.take(k) =~= s.take(k - 1).push(s[k - 1]));
        lemma_total_duration_push(s.take(k - 1), s[k - 1]);
    }
}

/// One extracted frame waiting to cross from the render phase to the
/// simulation phase, together with the render-target handle it came from.
/// At most one frame is pending per recorder: a second readback before the
/// first is consumed silently overwrites it (most-recent-wins).
#[derive(Clone, Debug)]
pub struct RenderData {
    pub target_handle: TargetHandle,
    pub last_frame: Option<Vec<u8>>,
}

/// Per-recorder state: the offscreen target and its dimensions, the duration
/// budget, and the time-windowed queue of recent frames, oldest first.
#[derive(Debug)]
pub struct ActiveRecorder {
    /// The entity that owns the mirroring recorder camera.
    pub tracker: EntityRef,
    /// The offscreen render target frames are read back from.
    pub target_handle: TargetHandle,
    /// Width of the render target in pixels.
    pub width: u32,
    /// Height of the render target in pixels.
    pub height: u32,
    /// The device pixel format of the render target.
    pub format: TextureFormat,
    /// The duration budget, in milliseconds, that the frame queue is trimmed
    /// to.
    pub target_duration: u64,
    /// Whether this recorder has ever ingested a frame.  The first captured
    /// frame has no previous frame to measure from, so it represents no
    /// elapsed time and its duration is stamped zero.
    pub has_ingested: bool,
    /// The retained frames, oldest first.
    pub frames: VecDeque<TextureFrame>,
}

impl ActiveRecorder {
    /// The queue total stays representable: it only ever exceeds the budget
    /// by the single-frame-overrun allowance.
    pub open spec fn wf(&self) -> bool {
        total_duration(self.frames@) <= u64::MAX
    }
}

/// Whether no identifier appears twice in an association list.
pub open spec fn keys_unique<V>(s: Seq<(RecorderID, V)>) -> bool {
    forall|i: int, j: int| 0 <= i < j < s.len() ==> s[i].0 != s[j].0
}

/// Whether some entry of an association list carries the identifier.
pub open spec fn has_key<V>(s: Seq<(RecorderID, V)>, id: RecorderID) -> bool {
    exists|i: int| 0 <= i < s.len() && s[i].0 == id
}

/// The index of the entry carrying the identifier; meaningful when the
/// identifier is present and the keys are unique.
pub open spec fn key_at<V>(s: Seq<(RecorderID, V)>, id: RecorderID) -> int {
    choose|i: int| 0 <= i < s.len() && s[i].0 == id
}

/// The value stored under the identifier.
pub open spec fn value_of<V>(s: Seq<(RecorderID, V)>, id: RecorderID) -> V {
    s[key_at(s, id)].1
}

/// An associative container from recorder identifier to a value, with each
/// identifier present at most once.  Entries keep their insertion order.
#[derive(Debug)]
pub struct IdMap<V> {
    pub entries: Vec<(RecorderID, V)>,
}

impl<V> IdMap<V> {
    pub open spec fn wf(&self) -> bool {
        keys_unique(self.entries@)
    }

    pub open spec fn spec_has(&self, id: RecorderID) -> bool {
        has_key(self.entries@, id)
    }

    pub open spec fn spec_get(&self, id: RecorderID) -> V {
        value_of(self.entries@, id)
    }

    pub fn new() -> (r: Self)
        ensures
            r.entries@.len() == 0,
            r.wf(),
    {
        IdMap { entries: Vec::new() }
    }

    /// The index of the entry carrying `id`, if it is present.
    pub fn find_index(&self, id: RecorderID) -> (r: Option<usize>)
        ensures
            match r {
                Some(i) => i < self.entries@.len() && self.entries@[i as int].0 == id,
                None => !self.spec_has(id),
            },
    {
        let n = self.entries.len();
        let mut i: usize = 0;
        while i < n
            invariant
                n == self.entries@.len(),
                i <= n,
                forall|j: int| 0 <= j < i ==> self.entries@[j].0 != id,
            decreases n - i,
        {
            if self.entries[i].0 == id {
                return Some(i);
            }
            i = i + 1;
        }
        None
    }

    /// A borrow of the value stored under `id`, if it is present.
    pub fn get(&self, id: RecorderID) -> (r: Option<&V>)
        requires
            self.wf(),
        ensures
            match r {
                Some(v) => self.spec_has(id) && *v == self.spec_get(id),
                None => !self.spec_has(id),
            },
    {
        match self.find_index(id) {
            Some(i) => {
                proof {
                    lemma_key_at_is_index(self.entries@, id, i as int);
                }
                Some(&self.entries[i].1)
            },
            None => None,
        }
    }

    /// Adds an entry under a fresh identifier; an identifier already present
    /// is rejected, leaving the container unchanged.
    pub fn try_insert(&mut self, id: RecorderID, value: V) -> (r: Result<(), ()>)
        requires
            old(self).wf(),
        ensures
            final(self).wf(),
            match r {
                Ok(()) => !old(self).spec_has(id) && final(self).entries@ == old(
                    self,
                ).entries@.push((id, value)),
                Err(()) => old(self).spec_has(id) && final(self).entries@ == old(self).entries@,
            },
    {
        match self.find_index(id) {
            Some(_) => Err(()),
            None => {
                self.entries.push((id, value));
                Ok(())
            },
        }
    }

    /// Removes the entry under `id`, if present; every other entry keeps its
    /// place and order.
    pub fn remove(&mut self, id: RecorderID) -> (r: Option<V>)
        requires
            old(self).wf(),
        ensures
            final(self).wf(),
            !final(self).spec_has(id),
            match r {
                Some(v) => {
                    &&& old(self).spec_has(id)
                    &&& v == old(self).spec_get(id)
                    &&& final(self).entries@ == old(self).entries@.remove(
                        key_at(old(self).entries@, id),
                    )
                },
                None => !old(self).spec_has(id) && final(self).entries@ == old(self).entries@,
            },
    {
        match self.find_index(id) {
            Some(i) => {
                proof {
                    lemma_key_at_is_index(self.entries@, id, i as int);
                }
                let v = self.entries.remove(i);
                proof {
                    lemma_keys_unique_remove(old(self).entries@, i as int);
                    assert forall|j: int|
                        0 <= j < self.entries@.len() implies self.entries@[j].0 != id by {
                        if j < i {
                        } else {
                            assert(self.entries@[j] == old(self).entries@[j + 1]);
                        }
                    }
                }
                Some(v.1)
            },
            None => None,
        }
    }
}

/// With unique keys, any index whose entry carries `id` is the chosen one.
pub proof fn lemma_key_at_is_index<V>(s: Seq<(RecorderID, V)>, id: RecorderID, i: int)
    requires
        keys_unique(s),
        0 <= i < s.len(),
        s[i].0 == id,
    ensures
        has_key(s, id),
        key_at(s, id) == i,
{
    assert(has_key(s, id));
    let j = key_at(s, id);
    assert(0 <= j < s.len() && s[j].0 == id);
    if i < j {
        assert(s[i].0 != s[j].0);
    } else if j < i {
        assert(s[j].0 != s[i].0);
    }
}

/// Identifier `id`'s presence, and its value where present, are the same in
/// both association lists.
pub open spec fn entry_preserved<V>(
    pre: Seq<(RecorderID, V)>,
    post: Seq<(RecorderID, V)>,
    id: RecorderID,
) -> bool {
    &&& has_key(post, id) == has_key(pre, id)
    &&& (has_key(pre, id) ==> value_of(post, id) == value_of(pre, id))
}

/// Removing one entry leaves every other identifier's presence and value as
/// they were.
pub proof fn lemma_remove_preserves<V>(s: Seq<(RecorderID, V)>, i: int, id2: RecorderID)
    requires
        keys_unique(s),
        0 <= i < s.len(),
        s[i].0 != id2,
    ensures
        has_key(s.remove(i), id2) == has_key(s, id2),
        has_key(s, id2) ==> value_of(s.remove(i), id2) == value_of(s, id2),
{
    let t = s.remove(i);
    lemma_keys_unique_remove(s, i);
    if has_key(s, id2) {
        let j = key_at(s, id2);
        assert(0 <= j < s.len() && s[j].0 == id2);
        let j2 = if j < i {
            j
        } else {
            j - 1
        };
        assert(t[j2] == s[j]);
        lemma_key_at_is_index(t, id2, j2);
        lemma_key_at_is_index(s, id2, j);
    } else {
        if has_key(t, id2) {
            let j2 = key_at(t, id2);
            assert(0 <= j2 < t.len() && t[j2].0 == id2);
            let j = if j2 < i {
                j2
            } else {
                j2 + 1
            };
            assert(t[j2] == s[j]);
            assert(has_key(s, id2));
        }
    }
}

pub proof fn lemma_keys_unique_remove<V>(s: Seq<(RecorderID, V)>, i: int)
    requires
        keys_unique(s),
        0 <= i < s.len(),
    ensures
        keys_unique(s.remove(i)),
{
    let t = s.remove(i);
    assert forall|p: int, q: int| 0 <= p < q < t.len() implies t[p].0 != t[q].0 by {
        let p0 = if p < i {
            p
        } else {
            p + 1
        };
        let q0 = if q < i {
            q
        } else {
            q + 1
        };
        assert(t[p] == s[p0] && t[q] == s[q0]);
        assert(s[p0].0 != s[q0].0);
    }
}

/// The per-recorder ring buffers of the registry, keyed by recorder
/// identifier.
#[derive(Debug)]
pub struct ActiveRecorders(pub IdMap<ActiveRecorder>);

impl ActiveRecorders {
    pub open spec fn wf(&self) -> bool {
        &&& self.0.wf()
        &&& forall|i: int| 0 <= i < self.0.entries@.len() ==> (#[trigger] self.0.entries@[i].1).wf()
    }
}

/// The handoff store: the single state shared between the render phase and
/// the simulation phase, holding at most one pending frame per recorder.
/// The host guards the whole store with one mutual-exclusion lock; the
/// operations here are the short critical sections performed under it.
#[derive(Debug)]
pub struct DataSmuggler(pub IdMap<RenderData>);

impl DataSmuggler {
    pub open spec fn wf(&self) -> bool {
        self.0.wf()
    }

    /// The frame pending for `id`, if the store has a slot for `id` holding
    /// one.
    pub open spec fn spec_pending(&self, id: RecorderID) -> Option<Seq<u8>> {
        if self.spec_has_slot(id) {
            match value_of(self.0.entries@, id).last_frame {
                Some(v) => Some(v@),
                None => None,
            }
        } else {
            None
        }
    }

    pub open spec fn spec_has_slot(&self, id: RecorderID) -> bool {
        has_key(self.0.entries@, id)
    }
}

} // verus!
