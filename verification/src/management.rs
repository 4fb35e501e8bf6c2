use vstd::prelude::*;
use crate::data::{
    ActiveRecorder, ActiveRecorders, DataSmuggler, EntityRef, RecorderID, RenderData,
    StartTrackingCamera, StopTrackingCamera, TargetHandle, TextureFrame, OrthoExtent,
    entry_preserved, has_key, key_at, lemma_key_at_is_index, lemma_remove_preserves,
    lemma_total_duration_nonneg, lemma_total_duration_push, lemma_total_duration_skip_step,
    lemma_total_duration_split, total_duration, value_of, HasTaskStatus,
};
use crate::image_utils::TextureFormat;
use std::collections::VecDeque;

verus! {

/// How many frames eviction drops from the front of `frames` before a new
/// frame of duration `dt` fits a budget of `target` milliseconds: the queue
/// is popped, oldest first, until the total with the new frame is within
/// budget, or until it is empty (the single-frame-overrun allowance).
pub open spec fn evict_count(frames: Seq<TextureFrame>, dt: int, target: int) -> nat
    decreases frames.len(),
{
    if total_duration(frames) + dt <= target {
        0
    } else if frames.len() == 0 {
        0
    } else {
        1 + evict_count(frames.drop_first(), dt, target)
    }
}

/// The duration stamped on an ingested frame: the elapsed time since the
/// previous captured frame, which is the tick's delta - except that the
/// first frame a recorder ever ingests has no previous frame, so it
/// represents no elapsed time and is stamped zero.
pub open spec fn stamped_delta(pre: ActiveRecorder, dt: u64) -> u64 {
    if pre.has_ingested {
        dt
    } else {
        0
    }
}

/// How one recorder changes when it ingests one handed-off frame: eviction
/// drops `evict_count` frames from the front, the new frame is pushed to the
/// back carrying the stamped delta (zero for the recorder's first frame),
/// and everything else stands.  Queue order after eviction and push is
/// strictly chronological: what is kept is a suffix of the old queue, in
/// order, followed by the newest frame.
pub open spec fn ingested(
    pre: ActiveRecorder,
    post: ActiveRecorder,
    bytes: Seq<u8>,
    dt: u64,
) -> bool {
    let e = stamped_delta(pre, dt);
    let k = evict_count(pre.frames@, e as int, pre.target_duration as int) as int;
    &&& post.tracker == pre.tracker
    &&& post.target_handle == pre.target_handle
    &&& post.width == pre.width
    &&& post.height == pre.height
    &&& post.format == pre.format
    &&& post.target_duration == pre.target_duration
    &&& post.has_ingested == true
    &&& post.frames@.len() == pre.frames@.len() - k + 1
    &&& post.frames@.drop_last() == pre.frames@.skip(k)
    &&& post.frames@.last().texture@ == bytes
    &&& post.frames@.last().frame_time == e
}

/// Eviction never drops more frames than the queue holds.
pub proof fn lemma_evict_count_le_len(frames: Seq<TextureFrame>, dt: int, target: int)
    ensures
        evict_count(frames, dt, target) <= frames.len(),
    decreases frames.len(),
{
    if total_duration(frames) + dt <= target {
    } else if frames.len() == 0 {
    } else {
        lemma_evict_count_le_len(frames.drop_first(), dt, target);
    }
}

/// What remains after eviction always fits the budget on its own: eviction
/// only ever overruns by the newest frame's duration, and only in the
/// single-frame-overrun case.
pub proof fn lemma_evicted_suffix_within_budget(frames: Seq<TextureFrame>, dt: u64, target: u64)
    ensures
        total_duration(frames.skip(evict_count(frames, dt as int, target as int) as int))
            <= target,
    decreases frames.len(),
{
    let k = evict_count(frames, dt as int, target as int) as int;
    if total_duration(frames) + dt <= target {
        assert(frames.skip(0) =~= frames);
        lemma_total_duration_nonneg(frames);
    } else if frames.len() == 0 {
        assert(frames.skip(0) =~= frames);
    } else {
        lemma_evicted_suffix_within_budget(frames.drop_first(), dt, target);
        let k2 = evict_count(frames.drop_first(), dt as int, target as int) as int;
        assert(k == 1 + k2);
        lemma_evict_count_le_len(frames.drop_first(), dt as int, target as int);
        assert(frames.skip(k) =~= frames.drop_first().skip(k2));
    }
}

/// After ingestion, the queue's total duration minus the newest frame's
/// stamped duration never exceeds the target duration, for every sequence
/// of ingested frames.
pub proof fn lemma_ingested_within_budget(
    pre: ActiveRecorder,
    post: ActiveRecorder,
    bytes: Seq<u8>,
    dt: u64,
)
    requires
        ingested(pre, post, bytes, dt),
    ensures
        total_duration(post.frames@) - stamped_delta(pre, dt) <= pre.target_duration,
        total_duration(post.frames@) == total_duration(
            pre.frames@.skip(
                evict_count(
                    pre.frames@,
                    stamped_delta(pre, dt) as int,
                    pre.target_duration as int,
                ) as int,
            ),
        ) + stamped_delta(pre, dt),
{
    let e = stamped_delta(pre, dt);
    let k = evict_count(pre.frames@, e as int, pre.target_duration as int) as int;
    lemma_evict_count_le_len(pre.frames@, e as int, pre.target_duration as int);
    assert(post.frames@.len() >= 1);
    assert(post.frames@ =~= post.frames@.drop_last().push(post.frames@.last()));
    lemma_total_duration_push(post.frames@.drop_last(), post.frames@.last());
    lemma_evicted_suffix_within_budget(pre.frames@, e, pre.target_duration);
}

/// The total duration of a queue of uniform frames.
pub proof fn lemma_uniform_total(frames: Seq<TextureFrame>, d: u64)
    requires
        forall|i: int| 0 <= i < frames.len() ==> (#[trigger] frames[i]).frame_time == d,
    ensures
        total_duration(frames) == frames.len() * d,
    decreases frames.len(),
{
    if frames.len() == 0 {
    } else {
        lemma_uniform_total(frames.drop_first(), d);
        assert(frames.len() * d == (frames.len() - 1) * d + d) by (nonlinear_arith);
    }
}

/// While the window is still filling, nothing is evicted: a new frame whose
/// duration still fits the budget next to the queue's total leaves every
/// stored frame in place.
pub proof fn lemma_under_budget_no_eviction(frames: Seq<TextureFrame>, dt: u64, target: u64)
    requires
        total_duration(frames) + dt <= target,
    ensures
        evict_count(frames, dt as int, target as int) == 0,
{
}

/// A full uniform window evicts exactly one frame: with the queue holding
/// `n` frames of duration `d` against a budget of exactly `n * d`, ingesting
/// one more frame of duration `d` drops the single oldest frame.  While the
/// window is still filling, `lemma_under_budget_no_eviction` says nothing is
/// dropped.
pub proof fn lemma_uniform_window_evicts_one(frames: Seq<TextureFrame>, d: u64, target: u64)
    requires
        1 <= d,
        1 <= frames.len(),
        forall|i: int| 0 <= i < frames.len() ==> (#[trigger] frames[i]).frame_time == d,
        target == frames.len() * d,
    ensures
        evict_count(frames, d as int, target as int) == 1,
{
    lemma_uniform_total(frames, d);
    assert(total_duration(frames) + d > target) by {
        assert(frames.len() * d + d > frames.len() * d);
    }
    lemma_uniform_total(frames.drop_first(), d);
    assert(total_duration(frames.drop_first()) + d == frames.len() * d) by {
        assert(frames.drop_first().len() == frames.len() - 1);
        assert((frames.len() - 1) * d + d == frames.len() * d) by (nonlinear_arith);
    }
    assert(evict_count(frames, d as int, target as int) == 1 + evict_count(
        frames.drop_first(),
        d as int,
        target as int,
    ));
    assert(evict_count(frames.drop_first(), d as int, target as int) == 0);
}

/// Ingest one handed-off frame into a recorder's ring buffer: stamp it with
/// the elapsed time since the previous captured frame (zero for the
/// recorder's first frame), drop frames from the front, oldest first, while
/// the total represented duration with the new frame would exceed the
/// budget, then push the new frame to the back.  A single frame whose
/// duration alone exceeds the budget is accepted anyway once the queue is
/// empty, accepting a temporary overrun.
#[verifier::loop_isolation(false)]
pub fn ingest_frame(rec: &mut ActiveRecorder, bytes: Vec<u8>, dt: u64) -> (overrun: bool)
    requires
        old(rec).wf(),
    ensures
        final(rec).wf(),
        ingested(*old(rec), *final(rec), bytes@, dt),
        overrun == (total_duration(final(rec).frames@) > final(rec).target_duration),
{
    let eff: u64 = if rec.has_ingested {
        dt
    } else {
        0
    };
    let ghost pre = *rec;
    let ghost dti = eff as int;
    let ghost tgt = rec.target_duration as int;

    // Current total represented duration of the queue.
    let n = rec.frames.len();
    let mut total: u128 = 0;
    let mut i: usize = 0;
    while i < n
        invariant
            n == rec.frames@.len(),
            *rec == pre,
            i <= n,
            total == total_duration(pre.frames@.take(i as int)),
            total <= u64::MAX,
        decreases n - i,
    {
        proof {
            assert(pre.frames@.take(i + 1) =~= pre.frames@.take(i as int).push(pre.frames@[i as int]));
            lemma_total_duration_push(pre.frames@.take(i as int), pre.frames@[i as int]);
            lemma_total_duration_split(pre.frames@, i + 1);
            lemma_total_duration_nonneg(pre.frames@.skip(i + 1));
        }
        total = total + rec.frames[i].frame_time as u128;
        i = i + 1;
    }
    proof {
        assert(pre.frames@.take(n as int) =~= pre.frames@);
    }

    // Evict from the front until the new frame fits the budget, or the
    // queue is empty.
    let mut next: u128 = total + eff as u128;
    let ghost mut k: int = 0;
    while next > rec.target_duration as u128 && rec.frames.len() > 0
        invariant
            0 <= k <= pre.frames@.len(),
            rec.frames@ == pre.frames@.skip(k),
            rec.tracker == pre.tracker && rec.target_handle == pre.target_handle,
            rec.width == pre.width && rec.height == pre.height && rec.format == pre.format,
            rec.target_duration == pre.target_duration,
            rec.has_ingested == pre.has_ingested,
            next == total_duration(rec.frames@) + dti,
            next <= u64::MAX as u128 + u64::MAX as u128,
            evict_count(pre.frames@, dti, tgt) == k + evict_count(rec.frames@, dti, tgt),
        decreases rec.frames@.len(),
    {
        proof {
            assert(evict_count(rec.frames@, dti, tgt) == 1 + evict_count(
                rec.frames@.drop_first(),
                dti,
                tgt,
            ));
            lemma_total_duration_nonneg(rec.frames@.drop_first());
        }
        let popped = rec.frames.pop_front();
        match popped {
            Some(f) => {
                next = next - f.frame_time as u128;
                proof {
                    assert(pre.frames@.skip(k).subrange(1, pre.frames@.skip(k).len() as int)
                        =~= pre.frames@.skip(k + 1));
                    k = k + 1;
                }
            },
            None => {
                proof {
                    assert(false);
                }
            },
        }
    }
    proof {
        if next <= tgt {
            assert(evict_count(rec.frames@, dti, tgt) == 0);
        } else {
            assert(rec.frames@.len() == 0);
            assert(evict_count(rec.frames@, dti, tgt) == 0);
        }
        assert(k == evict_count(pre.frames@, dti, tgt));
        assert(total_duration(rec.frames@) + dti <= u64::MAX) by {
            if next <= tgt {
            } else {
                assert(total_duration(rec.frames@) == 0);
            }
        }
    }

    let ghost before_push = rec.frames@;
    rec.frames.push_back(TextureFrame::with_duration(bytes, eff));
    rec.has_ingested = true;
    let over = next > rec.target_duration as u128;
    proof {
        lemma_total_duration_push(before_push, rec.frames@.last());
        assert(rec.frames@.drop_last() =~= before_push);
    }
    over
}

/// Whether one of the first `n` entries carries `id`.
pub open spec fn id_in_prefix(
    s: Seq<(RecorderID, ActiveRecorder)>,
    id: RecorderID,
    n: int,
) -> bool {
    exists|p: int| 0 <= p < n && s[p].0 == id
}

/// Whether ingesting the pending frame leaves this recorder over budget:
/// only a single incoming frame whose stamped duration already exceeds the
/// budget can, and it is accepted anyway.
pub open spec fn overruns(rec: ActiveRecorder, pending: Option<Seq<u8>>, dt: u64) -> bool {
    match pending {
        Some(_) => {
            let e = stamped_delta(rec, dt);
            total_duration(
                rec.frames@.skip(
                    evict_count(rec.frames@, e as int, rec.target_duration as int) as int,
                ),
            ) + e > rec.target_duration
        },
        None => false,
    }
}

/// The recorders among the first `n` registry entries whose ingestion this
/// tick accepts a frame over budget, in registry order.
pub open spec fn overrun_ids(
    entries: Seq<(RecorderID, ActiveRecorder)>,
    smug: DataSmuggler,
    dt: u64,
    n: int,
) -> Seq<RecorderID>
    decreases n,
{
    if n <= 0 {
        Seq::empty()
    } else {
        overrun_ids(entries, smug, dt, n - 1) + (if overruns(
            entries[n - 1].1,
            smug.spec_pending(entries[n - 1].0),
            dt,
        ) {
            seq![entries[n - 1].0]
        } else {
            Seq::<RecorderID>::empty()
        })
    }
}

/// Once per simulation tick, move every pending handed-off frame from the
/// handoff store into its recorder's ring buffer, wrapped with this tick's
/// elapsed time `dt` (milliseconds) and trimmed to the recorder's duration
/// budget.  A consumed slot is left empty; a slot whose recorder is gone
/// keeps its frame; a recorder with nothing pending is untouched.  The
/// recorders that accepted a frame over budget come back for the host to
/// warn about.
#[verifier::loop_isolation(false)]
pub fn move_camera_buffers(
    recorders: &mut ActiveRecorders,
    smuggler: &mut DataSmuggler,
    dt: u64,
) -> (warned: Vec<RecorderID>)
    requires
        old(recorders).wf(),
        old(smuggler).wf(),
    ensures
        final(recorders).wf(),
        final(smuggler).wf(),
        final(recorders).0.entries@.len() == old(recorders).0.entries@.len(),
        forall|p: int|
            0 <= p < old(recorders).0.entries@.len() ==> {
                let pre = #[trigger] old(recorders).0.entries@[p];
                let post = final(recorders).0.entries@[p];
                &&& post.0 == pre.0
                &&& match old(smuggler).spec_pending(pre.0) {
                    Some(bytes) => ingested(pre.1, post.1, bytes, dt),
                    None => post.1 == pre.1,
                }
            },
        final(smuggler).0.entries@.len() == old(smuggler).0.entries@.len(),
        forall|q: int|
            0 <= q < old(smuggler).0.entries@.len() ==> {
                let spre = #[trigger] old(smuggler).0.entries@[q];
                let spost = final(smuggler).0.entries@[q];
                &&& spost.0 == spre.0
                &&& spost.1.target_handle == spre.1.target_handle
                &&& spost.1.last_frame == (if has_key(old(recorders).0.entries@, spre.0) {
                    None::<Vec<u8>>
                } else {
                    spre.1.last_frame
                })
            },
        warned@ == overrun_ids(
            old(recorders).0.entries@,
            *old(smuggler),
            dt,
            old(recorders).0.entries@.len() as int,
        ),
{
    let mut warned: Vec<RecorderID> = Vec::new();
    let n = recorders.0.entries.len();
    let mut i: usize = 0;
    while i < n
        invariant
            i <= n,
            recorders.0.entries@.len() == n,
            smuggler.0.entries@.len() == old(smuggler).0.entries@.len(),
            forall|p: int|
                0 <= p < n ==> (#[trigger] recorders.0.entries@[p]).0 == old(
                    recorders,
                ).0.entries@[p].0,
            forall|p: int|
                0 <= p < n ==> (#[trigger] recorders.0.entries@[p]).1.wf(),
            forall|p: int|
                i <= p < n ==> #[trigger] recorders.0.entries@[p] == old(recorders).0.entries@[p],
            forall|p: int|
                0 <= p < i ==> {
                    let pre = #[trigger] old(recorders).0.entries@[p];
                    let post = recorders.0.entries@[p];
                    match old(smuggler).spec_pending(pre.0) {
                        Some(bytes) => ingested(pre.1, post.1, bytes, dt),
                        None => post.1 == pre.1,
                    }
                },
            forall|q: int|
                0 <= q < old(smuggler).0.entries@.len() ==> {
                    let spre = #[trigger] old(smuggler).0.entries@[q];
                    let scur = smuggler.0.entries@[q];
                    &&& scur.0 == spre.0
                    &&& scur.1.target_handle == spre.1.target_handle
                    &&& scur.1.last_frame == (if id_in_prefix(
                        old(recorders).0.entries@,
                        spre.0,
                        i as int,
                    ) {
                        None::<Vec<u8>>
                    } else {
                        spre.1.last_frame
                    })
                },
            warned@ == overrun_ids(old(recorders).0.entries@, *old(smuggler), dt, i as int),
        decreases n - i,
    {
        let id = recorders.0.entries[i].0;
        proof {
            // `id` has not appeared among the already processed entries.
            assert(!id_in_prefix(old(recorders).0.entries@, id, i as int));
        }
        let mut over = false;
        match smuggler.0.find_index(id) {
            Some(j) => {
                proof {
                    lemma_key_at_is_index(old(smuggler).0.entries@, id, j as int);
                }
                let e = &mut smuggler.0.entries[j];
                let taken = e.1.last_frame.take();
                match taken {
                    Some(bytes) => {
                        let ghost pre_rec = recorders.0.entries@[i as int].1;
                        over = ingest_frame(&mut recorders.0.entries[i].1, bytes, dt);
                        proof {
                            lemma_ingested_within_budget(
                                pre_rec,
                                recorders.0.entries@[i as int].1,
                                bytes@,
                                dt,
                            );
                        }
                    },
                    None => {},
                }
            },
            None => {
                proof {
                    assert(!old(smuggler).spec_has_slot(id));
                }
            },
        }
        if over {
            warned.push(id);
        }
        proof {
            assert(overrun_ids(old(recorders).0.entries@, *old(smuggler), dt, i + 1)
                == overrun_ids(old(recorders).0.entries@, *old(smuggler), dt, i as int) + (
            if overruns(
                old(recorders).0.entries@[i as int].1,
                old(smuggler).spec_pending(id),
                dt,
            ) {
                seq![id]
            } else {
                Seq::<RecorderID>::empty()
            }));
            assert(warned@ =~= overrun_ids(old(recorders).0.entries@, *old(smuggler), dt, i + 1));
        }
        i = i + 1;
    }
    proof {
        assert forall|q: int|
            0 <= q < old(smuggler).0.entries@.len() implies id_in_prefix(
            old(recorders).0.entries@,
            (#[trigger] old(smuggler).0.entries@[q]).0,
            n as int,
        ) == has_key(old(recorders).0.entries@, old(smuggler).0.entries@[q].0) by {
        }
        assert forall|p: int, q: int|
            0 <= p < q < smuggler.0.entries@.len() implies (#[trigger] smuggler.0.entries@[p]).0
            != (#[trigger] smuggler.0.entries@[q]).0 by {
            assert(old(smuggler).0.entries@[p].0 != old(smuggler).0.entries@[q].0);
        }
    }
    warned
}

/// Stop tracking: remove the recorder's ring-buffer entry and handoff-store
/// slot immediately and unconditionally, and hand back the recorder camera
/// entity so the host can despawn it.  Jobs that already took ownership of
/// frames are unaffected.  Stopping an identifier that is not tracked is a
/// no-op.
pub fn stop_tracking(
    recorders: &mut ActiveRecorders,
    smuggler: &mut DataSmuggler,
    event: &StopTrackingCamera,
) -> (despawn: Option<EntityRef>)
    requires
        old(recorders).wf(),
        old(smuggler).wf(),
    ensures
        final(recorders).wf(),
        final(smuggler).wf(),
        !has_key(final(recorders).0.entries@, event.tracking_id),
        !has_key(final(smuggler).0.entries@, event.tracking_id),
        match despawn {
            Some(e) => has_key(old(recorders).0.entries@, event.tracking_id) && e == value_of(
                old(recorders).0.entries@,
                event.tracking_id,
            ).tracker,
            None => !has_key(old(recorders).0.entries@, event.tracking_id),
        },
        forall|id2: RecorderID|
            id2 != event.tracking_id ==> #[trigger] entry_preserved(
                old(recorders).0.entries@,
                final(recorders).0.entries@,
                id2,
            ),
        forall|id2: RecorderID|
            id2 != event.tracking_id ==> #[trigger] entry_preserved(
                old(smuggler).0.entries@,
                final(smuggler).0.entries@,
                id2,
            ),
{
    let id = event.tracking_id;
    let removed = recorders.0.remove(id);
    let _ = smuggler.0.remove(id);
    proof {
        if has_key(old(recorders).0.entries@, id) {
            let i = key_at(old(recorders).0.entries@, id);
            assert forall|p: int|
                0 <= p < recorders.0.entries@.len() implies (
            #[trigger] recorders.0.entries@[p]).1.wf() by {
                if p < i {
                    assert(recorders.0.entries@[p] == old(recorders).0.entries@[p]);
                } else {
                    assert(recorders.0.entries@[p] == old(recorders).0.entries@[p + 1]);
                }
            }
        }
        assert forall|id2: RecorderID| id2 != id implies #[trigger] entry_preserved(
            old(recorders).0.entries@,
            recorders.0.entries@,
            id2,
        ) by {
            if has_key(old(recorders).0.entries@, id) {
                let i = key_at(old(recorders).0.entries@, id);
                lemma_remove_preserves(old(recorders).0.entries@, i, id2);
            }
        }
        assert forall|id2: RecorderID| id2 != id implies #[trigger] entry_preserved(
            old(smuggler).0.entries@,
            smuggler.0.entries@,
            id2,
        ) by {
            if has_key(old(smuggler).0.entries@, id) {
                let i = key_at(old(smuggler).0.entries@, id);
                lemma_remove_preserves(old(smuggler).0.entries@, i, id2);
            }
        }
    }
    match removed {
        Some(rec) => Some(rec.tracker),
        None => None,
    }
}

/// What the host must know of one tracker entity during teardown: the entity
/// carrying the recorder camera, the recorder it belongs to, and whether the
/// tracked target camera still exists.
#[derive(Clone, Copy, Debug, PartialEq, Eq, Structural)]
pub struct TrackerInfo {
    pub entity: EntityRef,
    pub recorder_id: RecorderID,
    pub target_alive: bool,
}

/// Whether some tracker in the list names `id` and has lost its target.
pub open spec fn dead_in(trackers: Seq<TrackerInfo>, id: RecorderID) -> bool {
    exists|t: int|
        0 <= t < trackers.len() && trackers[t].recorder_id == id && !trackers[t].target_alive
}

/// Both registries are untouched for every identifier that the first `n`
/// trackers do not name as dead.
pub open spec fn preserved_except_dead(
    trackers: Seq<TrackerInfo>,
    n: int,
    rec_pre: Seq<(RecorderID, ActiveRecorder)>,
    rec_post: Seq<(RecorderID, ActiveRecorder)>,
    smug_pre: Seq<(RecorderID, RenderData)>,
    smug_post: Seq<(RecorderID, RenderData)>,
) -> bool {
    forall|id2: RecorderID|
        !dead_in(trackers.take(n), id2) ==> #[trigger] entry_preserved(rec_pre, rec_post, id2)
            && entry_preserved(smug_pre, smug_post, id2)
}

/// The entities of the trackers whose targets are gone, in list order.
pub open spec fn despawn_list(trackers: Seq<TrackerInfo>) -> Seq<EntityRef>
    decreases trackers.len(),
{
    if trackers.len() == 0 {
        Seq::empty()
    } else {
        despawn_list(trackers.drop_last()) + (if !trackers.last().target_alive {
            seq![trackers.last().entity]
        } else {
            Seq::<EntityRef>::empty()
        })
    }
}

/// Teardown: for every recorder whose tracked target camera no longer
/// exists, remove its ring-buffer entry and its handoff-store slot, and list
/// its tracker entity for the host to despawn.  This is unconditional and
/// immediate; recorders whose targets are alive are untouched.
#[verifier::loop_isolation(false)]
pub fn clean_cameras(
    recorders: &mut ActiveRecorders,
    smuggler: &mut DataSmuggler,
    trackers: &Vec<TrackerInfo>,
) -> (despawn: Vec<EntityRef>)
    requires
        old(recorders).wf(),
        old(smuggler).wf(),
    ensures
        final(recorders).wf(),
        final(smuggler).wf(),
        despawn@ == despawn_list(trackers@),
        forall|t: int|
            0 <= t < trackers@.len() && !(#[trigger] trackers@[t]).target_alive ==> !has_key(
                final(recorders).0.entries@,
                trackers@[t].recorder_id,
            ) && !has_key(final(smuggler).0.entries@, trackers@[t].recorder_id),
        preserved_except_dead(
            trackers@,
            trackers@.len() as int,
            old(recorders).0.entries@,
            final(recorders).0.entries@,
            old(smuggler).0.entries@,
            final(smuggler).0.entries@,
        ),
{
    let n = trackers.len();
    let mut despawn: Vec<EntityRef> = Vec::new();
    let mut i: usize = 0;
    while i < n
        invariant
            i <= n,
            recorders.wf(),
            smuggler.wf(),
            despawn@ == despawn_list(trackers@.take(i as int)),
            forall|t: int|
                0 <= t < i && !(#[trigger] trackers@[t]).target_alive ==> !has_key(
                    recorders.0.entries@,
                    trackers@[t].recorder_id,
                ) && !has_key(smuggler.0.entries@, trackers@[t].recorder_id),
            preserved_except_dead(
                trackers@,
                i as int,
                old(recorders).0.entries@,
                recorders.0.entries@,
                old(smuggler).0.entries@,
                smuggler.0.entries@,
            ),
        decreases n - i,
    {
        let ghost rec_pre = recorders.0.entries@;
        let ghost smug_pre = smuggler.0.entries@;
        let info = trackers[i];
        if !info.target_alive {
            let id = info.recorder_id;
            let removed = stop_tracking(
                recorders,
                smuggler,
                &StopTrackingCamera { tracking_id: id },
            );
            let _ = removed;
            despawn.push(info.entity);
        }
        proof {
            assert(trackers@.take(i + 1).drop_last() =~= trackers@.take(i as int));
            assert(trackers@.take(i + 1).last() == trackers@[i as int]);
            // Identifiers removed earlier stay removed, and identifiers not
            // yet named dead are still preserved.
            assert forall|t: int|
                0 <= t < i + 1 && !(#[trigger] trackers@[t]).target_alive implies !has_key(
                recorders.0.entries@,
                trackers@[t].recorder_id,
            ) && !has_key(smuggler.0.entries@, trackers@[t].recorder_id) by {
                let tid = trackers@[t].recorder_id;
                if t < i {
                    if !info.target_alive && tid != info.recorder_id {
                        assert(entry_preserved(rec_pre, recorders.0.entries@, tid));
                        assert(entry_preserved(smug_pre, smuggler.0.entries@, tid));
                    }
                }
            }
            assert(preserved_except_dead(
                trackers@,
                i + 1,
                old(recorders).0.entries@,
                recorders.0.entries@,
                old(smuggler).0.entries@,
                smuggler.0.entries@,
            )) by {
                assert forall|id2: RecorderID|
                    !dead_in(trackers@.take(i + 1), id2) implies #[trigger] entry_preserved(
                    old(recorders).0.entries@,
                    recorders.0.entries@,
                    id2,
                ) && entry_preserved(old(smuggler).0.entries@, smuggler.0.entries@, id2) by {
                    assert forall|t: int|
                        0 <= t < i implies (trackers@.take(i + 1)[t] == trackers@[t]
                        && trackers@.take(i as int)[t] == trackers@[t]) by {}
                    assert(!dead_in(trackers@.take(i as int), id2));
                    assert(entry_preserved(old(recorders).0.entries@, rec_pre, id2));
                    assert(entry_preserved(old(smuggler).0.entries@, smug_pre, id2));
                    if !info.target_alive {
                        assert(trackers@.take(i + 1)[i as int] == trackers@[i as int]);
                        assert(id2 != info.recorder_id);
                        assert(entry_preserved(rec_pre, recorders.0.entries@, id2));
                        assert(entry_preserved(smug_pre, smuggler.0.entries@, id2));
                    } else {
                        assert(recorders.0.entries@ == rec_pre);
                        assert(smuggler.0.entries@ == smug_pre);
                    }
                }
            }
        }
        i = i + 1;
    }
    proof {
        assert(trackers@.take(n as int) =~= trackers@);
    }
    despawn
}

/// Why a start-tracking request was rejected.
#[derive(Clone, Copy, Debug, PartialEq, Eq, Structural)]
pub enum StartTrackingError {
    /// The request reuses the identifier of a live recorder.  A second start
    /// request never overwrites a live registration; the caller must stop
    /// the first recorder before reusing its identifier.
    DuplicateRecorder,
}

/// Accept one start-tracking request: size the offscreen target to the
/// tracked camera's orthographic extent (clamped to zero or more in each
/// dimension) and register an empty ring-buffer entry and an empty
/// handoff-store slot under the request's identifier.  The host supplies the
/// spawned recorder camera entity and the allocated render-target handle.
pub fn start_tracking_orthographic_camera(
    recorders: &mut ActiveRecorders,
    smuggler: &mut DataSmuggler,
    event: &StartTrackingCamera,
    extent: &OrthoExtent,
    format: TextureFormat,
    tracker_entity: EntityRef,
    target_handle: TargetHandle,
) -> (r: Result<(), StartTrackingError>)
    requires
        old(recorders).wf(),
        old(smuggler).wf(),
    ensures
        final(recorders).wf(),
        final(smuggler).wf(),
        r is Err <==> has_key(old(recorders).0.entries@, event.tracking_id),
        r is Err ==> final(recorders).0.entries@ == old(recorders).0.entries@
            && final(smuggler).0.entries@ == old(smuggler).0.entries@,
        r is Ok ==> {
            let post = final(recorders).0.entries@;
            &&& post.len() == old(recorders).0.entries@.len() + 1
            &&& post.drop_last() == old(recorders).0.entries@
            &&& post.last().0 == event.tracking_id
            &&& post.last().1.tracker == tracker_entity
            &&& post.last().1.target_handle == target_handle
            &&& post.last().1.width as int == extent.spec_width()
            &&& post.last().1.height as int == extent.spec_height()
            &&& post.last().1.format == format
            &&& post.last().1.target_duration == event.length
            &&& post.last().1.has_ingested == false
            &&& post.last().1.frames@.len() == 0
        },
        r is Ok ==> {
            &&& has_key(final(smuggler).0.entries@, event.tracking_id)
            &&& value_of(final(smuggler).0.entries@, event.tracking_id).last_frame is None
            &&& value_of(final(smuggler).0.entries@, event.tracking_id).target_handle
                == target_handle
            &&& forall|id2: RecorderID|
                id2 != event.tracking_id ==> #[trigger] entry_preserved(
                    old(smuggler).0.entries@,
                    final(smuggler).0.entries@,
                    id2,
                )
        },
{
    let id = event.tracking_id;
    match recorders.0.find_index(id) {
        Some(i) => {
            proof {
                lemma_key_at_is_index(recorders.0.entries@, id, i as int);
            }
            Err(StartTrackingError::DuplicateRecorder)
        },
        None => {
            let (width, height) = extent.target_size();
            let rec = ActiveRecorder {
                tracker: tracker_entity,
                target_handle,
                width,
                height,
                format,
                target_duration: event.length,
                has_ingested: false,
                frames: VecDeque::new(),
            };
            let inserted = recorders.0.try_insert(id, rec);
            proof {
                assert(inserted is Ok);
            }
            let ghost smug_pre = smuggler.0.entries@;
            let _ = smuggler.0.remove(id);
            let ghost mid = smuggler.0.entries@;
            let slot = RenderData { target_handle, last_frame: None };
            let slotted = smuggler.0.try_insert(id, slot);
            proof {
                assert(slotted is Ok);
                assert forall|p: int|
                    0 <= p < recorders.0.entries@.len() implies (
                #[trigger] recorders.0.entries@[p]).1.wf() by {
                    if p < old(recorders).0.entries@.len() {
                        assert(recorders.0.entries@[p] == old(recorders).0.entries@[p]);
                    }
                }
                assert(recorders.0.entries@.drop_last() =~= old(recorders).0.entries@);
                lemma_key_at_is_index(
                    smuggler.0.entries@,
                    id,
                    smuggler.0.entries@.len() - 1,
                );
                assert forall|id2: RecorderID| id2 != id implies #[trigger] entry_preserved(
                    smug_pre,
                    smuggler.0.entries@,
                    id2,
                ) by {
                    // The stale slot's removal keeps every other entry...
                    if has_key(smug_pre, id) {
                        let ri = key_at(smug_pre, id);
                        lemma_key_at_is_index(smug_pre, id, ri);
                        lemma_remove_preserves(smug_pre, ri, id2);
                        assert(mid == smug_pre.remove(ri));
                    } else {
                        assert(mid == smug_pre);
                    }
                    assert(entry_preserved(smug_pre, mid, id2));
                    // ... and the push touches only the new identifier.
                    assert(smuggler.0.entries@.drop_last() =~= mid);
                    if has_key(mid, id2) {
                        let j = key_at(mid, id2);
                        lemma_key_at_is_index(mid, id2, j);
                        assert(smuggler.0.entries@[j] == mid[j]);
                        lemma_key_at_is_index(smuggler.0.entries@, id2, j);
                    } else {
                        if has_key(smuggler.0.entries@, id2) {
                            let j = key_at(smuggler.0.entries@, id2);
                            assert(0 <= j < smuggler.0.entries@.len() && smuggler.0.entries@[j].0
                                == id2);
                            assert(j < smuggler.0.entries@.len() - 1);
                            assert(mid[j] == smuggler.0.entries@[j]);
                            assert(has_key(mid, id2));
                        }
                    }
                }
            }
            Ok(())
        },
    }
}

/// The identifiers among `ids` whose matching flag equals `pick`, in order.
pub open spec fn select_ids(ids: Seq<EntityRef>, flags: Seq<bool>, pick: bool) -> Seq<EntityRef>
    decreases ids.len(),
{
    if ids.len() == 0 {
        Seq::empty()
    } else {
        select_ids(ids.drop_last(), flags.drop_last(), pick) + (if flags.last() == pick {
            seq![ids.last()]
        } else {
            Seq::<EntityRef>::empty()
        })
    }
}

/// The entity of every task in the list, in order.
pub open spec fn task_ids<T>(s: Seq<(EntityRef, T)>) -> Seq<EntityRef> {
    s.map_values(|e: (EntityRef, T)| e.0)
}

/// The task reaper: poll every outstanding job once, without blocking, and
/// release the tracking handles of those that report completion.  Which jobs
/// report completion is up to the jobs; whatever they answer, the finished
/// ones are removed (their entities are returned for the host to despawn)
/// and the rest are kept in order.
#[verifier::loop_isolation(false)]
pub fn clean_unmonitored_tasks<T: HasTaskStatus>(tasks: &mut Vec<(EntityRef, T)>) -> (despawned:
    Vec<EntityRef>)
    ensures
        exists|done: Seq<bool>|
            {
                &&& done.len() == old(tasks)@.len()
                &&& task_ids(final(tasks)@) == select_ids(task_ids(old(tasks)@), done, false)
                &&& despawned@ == select_ids(task_ids(old(tasks)@), done, true)
            },
{
    let ghost orig_ids = task_ids(old(tasks)@);
    let ghost mut done: Seq<bool> = Seq::empty();
    let ghost mut j: int = 0;
    let mut gone: Vec<EntityRef> = Vec::new();
    let mut i: usize = 0;
    while i < tasks.len()
        invariant
            0 <= i as int <= tasks@.len(),
            0 <= j <= orig_ids.len(),
            done.len() == j,
            tasks@.len() == i + (orig_ids.len() - j),
            task_ids(tasks@).take(i as int) == select_ids(orig_ids.take(j), done, false),
            i as int == select_ids(orig_ids.take(j), done, false).len(),
            gone@ == select_ids(orig_ids.take(j), done, true),
            task_ids(tasks@).skip(i as int) == orig_ids.skip(j),
        decreases tasks@.len() - i,
    {
        let ghost pre_tasks = tasks@;
        let e = &mut tasks[i];
        let d = e.1.is_done();
        proof {
            assert(task_ids(tasks@) =~= task_ids(pre_tasks));
            assert(orig_ids.take(j + 1).drop_last() =~= orig_ids.take(j));
            assert(orig_ids.take(j + 1).last() == orig_ids[j]);
            assert(task_ids(pre_tasks).skip(i as int)[0] == task_ids(pre_tasks)[i as int]);
            assert(orig_ids.skip(j)[0] == orig_ids[j]);
            assert(task_ids(tasks@)[i as int] == orig_ids[j]);
        }
        if d {
            let ghost poll_tasks = tasks@;
            let entry = tasks.remove(i);
            gone.push(entry.0);
            proof {
                let done_pre = done;
                done = done.push(true);
                j = j + 1;
                assert(done.drop_last() =~= done_pre);
                assert(done.drop_last() =~= done.take(j - 1));
                assert(orig_ids.take(j).drop_last() =~= orig_ids.take(j - 1));
                assert(orig_ids.take(j).last() == orig_ids[j - 1]);
                assert(done.last() == true);
                assert(entry == poll_tasks[i as int]);
                assert(entry.0 == task_ids(poll_tasks)[i as int]);
                assert(entry.0 == orig_ids[j - 1]);
                assert(task_ids(tasks@) =~= task_ids(poll_tasks).remove(i as int));
                assert(task_ids(tasks@).take(i as int) =~= task_ids(poll_tasks).take(i as int));
                assert(select_ids(orig_ids.take(j), done, false) =~= select_ids(
                    orig_ids.take(j - 1),
                    done.drop_last(),
                    false,
                ));
                assert(gone@ =~= select_ids(orig_ids.take(j - 1), done.drop_last(), true).push(
                    orig_ids[j - 1],
                ));
                assert(gone@ =~= select_ids(orig_ids.take(j), done, true));
                assert forall|p: int|
                    0 <= p < task_ids(tasks@).len() - i implies #[trigger] task_ids(tasks@).skip(
                    i as int,
                )[p] == orig_ids.skip(j)[p] by {
                    assert(task_ids(tasks@).skip(i as int)[p] == task_ids(tasks@)[i + p]);
                    assert(task_ids(tasks@)[i + p] == task_ids(poll_tasks)[i + 1 + p]);
                    assert(task_ids(poll_tasks).skip(i as int)[1 + p] == task_ids(
                        poll_tasks,
                    )[i + 1 + p]);
                    assert(orig_ids.skip(j - 1)[1 + p] == orig_ids[j + p]);
                    assert(orig_ids.skip(j)[p] == orig_ids[j + p]);
                }
                assert(task_ids(tasks@).skip(i as int) =~= orig_ids.skip(j));
            }
        } else {
            proof {
                let done_pre = done;
                done = done.push(false);
                j = j + 1;
                assert(done.drop_last() =~= done_pre);
                assert(done.drop_last() =~= done.take(j - 1));
                assert(orig_ids.take(j).drop_last() =~= orig_ids.take(j - 1));
                assert(orig_ids.take(j).last() == orig_ids[j - 1]);
                assert(done.last() == false);
                assert(select_ids(orig_ids.take(j), done, true) =~= select_ids(
                    orig_ids.take(j - 1),
                    done.drop_last(),
                    true,
                ));
                assert(task_ids(tasks@)[i as int] == orig_ids[j - 1]);
                assert(task_ids(tasks@).take(i + 1) =~= task_ids(tasks@).take(i as int).push(
                    task_ids(tasks@)[i as int],
                ));
                assert(task_ids(tasks@).take(i as int) =~= task_ids(pre_tasks).take(i as int));
                assert(task_ids(tasks@).take(i + 1) =~= select_ids(
                    orig_ids.take(j - 1),
                    done.drop_last(),
                    false,
                ).push(orig_ids[j - 1]));
                assert(task_ids(tasks@).take(i + 1) =~= select_ids(orig_ids.take(j), done, false));
                assert forall|p: int|
                    0 <= p < task_ids(tasks@).len() - (i + 1) implies #[trigger] task_ids(
                    tasks@,
                ).skip(i + 1)[p] == orig_ids.skip(j)[p] by {
                    assert(task_ids(tasks@).skip(i + 1)[p] == task_ids(tasks@)[i + 1 + p]);
                    assert(task_ids(pre_tasks).skip(i as int)[1 + p] == task_ids(
                        pre_tasks,
                    )[i + 1 + p]);
                    assert(orig_ids.skip(j - 1)[1 + p] == orig_ids[j + p]);
                    assert(orig_ids.skip(j)[p] == orig_ids[j + p]);
                }
                assert(task_ids(tasks@).skip(i + 1) =~= orig_ids.skip(j));
            }
            i = i + 1;
        }
    }
    proof {
        assert(orig_ids.take(j) =~= orig_ids);
        assert(task_ids(tasks@).take(i as int) =~= task_ids(tasks@));
    }
    gone
}

} // verus!
