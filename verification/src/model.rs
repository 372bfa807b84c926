//! The mathematical model of the rendering layer: an abstract view of its
//! state and the transition each command or event performs on it.

use vstd::prelude::*;

use crate::events::{
    FenceOp, MonitorSurfaceState, RejectReason, RenderEvt, SurfaceKey, ack_event, consumed_event,
    index_of_slot, slot_of_index,
};
use crate::keys::{
    BufferIndex, BufferSlot, DeferredRelease, Monitor, MonitorId, SessionId, SlotKey, SlotOwner,
    TaskId, TextureId,
};

verus! {

/// Abstract state of the rendering layer.
pub ghost struct LayerView {
    /// Monitors the control plane has been told about, in discovery order.
    pub known: Seq<Monitor>,
    /// Double-buffer positions per (monitor, session).
    pub surfaces: Map<SurfaceKey, MonitorSurfaceState>,
    /// Imported textures by slot key.
    pub slots: Map<SlotKey, TextureId>,
    /// Which side owns each slot's buffer.
    pub owners: Map<SlotKey, SlotOwner>,
    /// Live acquire-fence waits by slot key.
    pub tasks: Map<SlotKey, TaskId>,
    /// Buffers whose release notification awaits the next page flip.
    pub releases: Seq<DeferredRelease>,
    /// The session currently presented.
    pub session: Option<SessionId>,
    /// Source of fresh fence-task identifiers.
    pub next_task: u64,
    /// All events the state machine has emitted so far, oldest first.
    pub history: Seq<RenderEvt>,
}

/// The identifiers of the known monitors.
pub open spec fn known_ids(v: LayerView) -> Set<MonitorId> {
    Set::new(|m: MonitorId| exists|i: int| 0 <= i < v.known.len() && v.known[i].id == m)
}

/// The identifiers of the monitors in a descriptor sequence.
pub open spec fn ids_of(monitors: Seq<Monitor>) -> Set<MonitorId> {
    Set::new(|m: MonitorId| exists|i: int| 0 <= i < monitors.len() && monitors[i].id == m)
}

/// The slot a deferred release names.
pub open spec fn release_key(item: DeferredRelease) -> SlotKey {
    SlotKey { monitor_id: item.monitor_id, session_id: item.session_id, buffer: item.buffer }
}

/// True when `e` acknowledges the swap request for slot `k`.
pub open spec fn is_ack_for(e: RenderEvt, k: SlotKey) -> bool {
    e == ack_event(k)
}

/// True when `e` hands slot `k`'s buffer back to the client.
pub open spec fn is_consumed_for(e: RenderEvt, k: SlotKey) -> bool {
    match e {
        RenderEvt::BufferConsumed { session_id, monitor_id, buffer, .. } => {
            monitor_id == k.monitor_id && session_id == k.session_id && slot_of_index(buffer)
                == k.buffer
        },
        _ => false,
    }
}

/// The history contains an acknowledgement for slot `k`.
pub open spec fn acked(h: Seq<RenderEvt>, k: SlotKey) -> bool {
    exists|i: int| 0 <= i < h.len() && is_ack_for(#[trigger] h[i], k)
}

/// Every release notification in the history comes strictly after the
/// acknowledgement of the swap it answers.
pub open spec fn history_ordered(h: Seq<RenderEvt>) -> bool {
    forall|j: int, k: SlotKey|
        0 <= j < h.len() && #[trigger] is_consumed_for(h[j], k) ==> exists|i: int|
            0 <= i < j && is_ack_for(#[trigger] h[i], k)
}

/// The double-buffer positions of a (monitor, session) pair; empty when the
/// pair has never been seen.
pub open spec fn surface_at(v: LayerView, sk: SurfaceKey) -> MonitorSurfaceState {
    if v.surfaces.dom().contains(sk) {
        v.surfaces[sk]
    } else {
        MonitorSurfaceState { current_buffer: None, pending_buffer: None }
    }
}

/// Deferred releases form a set: queueing an already-queued buffer is a
/// no-op, which is what makes a release single-shot per flip cycle.
pub open spec fn queue_release_seq(
    rs: Seq<DeferredRelease>,
    item: DeferredRelease,
) -> Seq<DeferredRelease> {
    if rs.contains(item) {
        rs
    } else {
        rs.push(item)
    }
}

/// A swap request is rejected when the monitor is unknown or the slot was
/// never linked.
pub open spec fn swap_rejected(
    v: LayerView,
    monitor_id: MonitorId,
    session_id: SessionId,
    buffer: BufferIndex,
) -> bool {
    let key = SlotKey { monitor_id, session_id, buffer: slot_of_index(buffer) };
    !known_ids(v).contains(monitor_id) || !v.slots.dom().contains(key)
}

/// The reason reported for a rejected swap; an unknown monitor takes
/// precedence over an unlinked buffer.
pub open spec fn swap_reject_reason(v: LayerView, monitor_id: MonitorId) -> RejectReason {
    if !known_ids(v).contains(monitor_id) {
        RejectReason::UnknownMonitor
    } else {
        RejectReason::UnlinkedBuffer
    }
}

/// Result of modelling one transition: the state after it, the event it
/// emits (if any), and the fence-scheduler operations it requires.
pub ghost struct StepModel {
    pub post: LayerView,
    pub events: Seq<RenderEvt>,
    pub ops: Seq<FenceOp>,
}

/// Cancelling the fence wait of a slot: the task entry leaves the table and
/// the scheduler is told to suppress its callback.
pub open spec fn cancel_fence_model(
    tasks: Map<SlotKey, TaskId>,
    ops: Seq<FenceOp>,
    key: SlotKey,
) -> (Map<SlotKey, TaskId>, Seq<FenceOp>) {
    if tasks.dom().contains(key) {
        (tasks.remove(key), ops.push(FenceOp::Cancel { task: tasks[key] }))
    } else {
        (tasks, ops)
    }
}

/// An accepted swap: the displaced pending buffer (if any) loses its fence
/// wait and is queued for release; with an acquire fence the slot becomes
/// pending under a fresh wait, without one it is promoted immediately and
/// the displaced current buffer is queued for release; the slot's buffer now
/// belongs to the compositor and the request is acknowledged.
pub open spec fn swap_accepted_model(
    v: LayerView,
    monitor_id: MonitorId,
    session_id: SessionId,
    buffer: BufferIndex,
    acquire_fence: Option<i32>,
) -> StepModel {
    let slot = slot_of_index(buffer);
    let key = SlotKey { monitor_id, session_id, buffer: slot };
    let sk = SurfaceKey { monitor_id, session_id };
    let st0 = surface_at(v, sk);
    let displaced = match st0.pending_buffer {
        Some(p) => if p != slot {
            Some(p)
        } else {
            None
        },
        None => None,
    };
    let (tasks1, ops1) = match displaced {
        Some(p) => cancel_fence_model(
            v.tasks,
            Seq::empty(),
            SlotKey { monitor_id, session_id, buffer: p },
        ),
        None => (v.tasks, Seq::<FenceOp>::empty()),
    };
    let releases1 = match displaced {
        Some(p) => queue_release_seq(v.releases, DeferredRelease { monitor_id, session_id, buffer: p }),
        None => v.releases,
    };
    let (tasks2, ops2, next2) = match acquire_fence {
        Some(fd) => {
            let fresh = TaskId(v.next_task);
            let replaces = if tasks1.dom().contains(key) {
                Some(tasks1[key])
            } else {
                None
            };
            (
                tasks1.insert(key, fresh),
                ops1.push(FenceOp::Wait { task: fresh, fence_fd: fd, replaces }),
                (v.next_task + 1) as u64,
            )
        },
        None => {
            let (t, o) = cancel_fence_model(tasks1, ops1, key);
            (t, o, v.next_task)
        },
    };
    let st_final = match acquire_fence {
        Some(_) => MonitorSurfaceState {
            current_buffer: st0.current_buffer,
            pending_buffer: Some(slot),
        },
        None => MonitorSurfaceState { current_buffer: Some(slot), pending_buffer: None },
    };
    let releases2 = match acquire_fence {
        Some(_) => releases1,
        None => match st0.current_buffer {
            Some(prev) => if prev != slot {
                queue_release_seq(releases1, DeferredRelease { monitor_id, session_id, buffer: prev })
            } else {
                releases1
            },
            None => releases1,
        },
    };
    let event = ack_event(key);
    StepModel {
        post: LayerView {
            known: v.known,
            surfaces: v.surfaces.insert(sk, st_final),
            slots: v.slots,
            owners: v.owners.insert(key, SlotOwner::Shift),
            tasks: tasks2,
            releases: releases2,
            session: v.session,
            next_task: next2,
            history: v.history.push(event),
        },
        events: seq![event],
        ops: ops2,
    }
}

/// A rejected swap: the state is unchanged and the request is answered with
/// the reason.
pub open spec fn swap_rejected_model(
    v: LayerView,
    monitor_id: MonitorId,
    session_id: SessionId,
    buffer: BufferIndex,
) -> StepModel {
    let event = RenderEvt::BufferRequestRejected {
        session_id,
        monitor_id,
        buffer,
        reason: swap_reject_reason(v, monitor_id),
    };
    StepModel {
        post: LayerView { history: v.history.push(event), ..v },
        events: seq![event],
        ops: Seq::empty(),
    }
}

/// The transition of a swap request.
pub open spec fn swap_model(
    v: LayerView,
    monitor_id: MonitorId,
    session_id: SessionId,
    buffer: BufferIndex,
    acquire_fence: Option<i32>,
) -> StepModel {
    if swap_rejected(v, monitor_id, session_id, buffer) {
        swap_rejected_model(v, monitor_id, session_id, buffer)
    } else {
        swap_accepted_model(v, monitor_id, session_id, buffer, acquire_fence)
    }
}

/// An acquire fence signalled for `key`: its wait entry is dropped; if the
/// slot is still the pending buffer of its (monitor, session) pair it is
/// promoted to current and the displaced buffer is queued for release.
/// A pair whose state was purged (session removed, monitor unplugged)
/// undergoes no transition.
pub open spec fn fence_signaled_model(v: LayerView, key: SlotKey) -> LayerView {
    let tasks1 = if v.tasks.dom().contains(key) {
        v.tasks.remove(key)
    } else {
        v.tasks
    };
    let sk = SurfaceKey { monitor_id: key.monitor_id, session_id: key.session_id };
    if v.surfaces.dom().contains(sk) && v.surfaces[sk].pending_buffer == Some(key.buffer) {
        let st0 = v.surfaces[sk];
        let st1 = MonitorSurfaceState { current_buffer: Some(key.buffer), pending_buffer: None };
        let releases1 = match st0.current_buffer {
            Some(prev) => if prev != key.buffer {
                queue_release_seq(
                    v.releases,
                    DeferredRelease {
                        monitor_id: key.monitor_id,
                        session_id: key.session_id,
                        buffer: prev,
                    },
                )
            } else {
                v.releases
            },
            None => v.releases,
        };
        LayerView { tasks: tasks1, surfaces: v.surfaces.insert(sk, st1), releases: releases1, ..v }
    } else {
        LayerView { tasks: tasks1, ..v }
    }
}

/// Removing a session purges every table entry that names it and clears the
/// current session if it matched.
pub open spec fn session_removed_model(v: LayerView, session_id: SessionId) -> LayerView {
    LayerView {
        known: v.known,
        surfaces: v.surfaces.restrict(
            v.surfaces.dom().filter(|sk: SurfaceKey| sk.session_id != session_id),
        ),
        slots: v.slots.restrict(v.slots.dom().filter(|k: SlotKey| k.session_id != session_id)),
        owners: v.owners.restrict(v.owners.dom().filter(|k: SlotKey| k.session_id != session_id)),
        tasks: v.tasks.restrict(v.tasks.dom().filter(|k: SlotKey| k.session_id != session_id)),
        releases: v.releases.filter(|d: DeferredRelease| d.session_id != session_id),
        session: if v.session == Some(session_id) {
            None
        } else {
            v.session
        },
        next_task: v.next_task,
        history: v.history,
    }
}

/// Unplugging a monitor purges the slot table, ownership, deferred releases
/// and fence waits that name it (its surface states are purged by the
/// hot-plug reconciliation that detected the removal).
pub open spec fn monitor_purged_model(v: LayerView, monitor_id: MonitorId) -> LayerView {
    LayerView {
        slots: v.slots.restrict(v.slots.dom().filter(|k: SlotKey| k.monitor_id != monitor_id)),
        owners: v.owners.restrict(v.owners.dom().filter(|k: SlotKey| k.monitor_id != monitor_id)),
        tasks: v.tasks.restrict(v.tasks.dom().filter(|k: SlotKey| k.monitor_id != monitor_id)),
        releases: v.releases.filter(|d: DeferredRelease| d.monitor_id != monitor_id),
        ..v
    }
}

/// The buffer-release events of one flip cycle: the `i`-th deferred release
/// is delivered with the `i`-th duplicated render-completion fence.
pub open spec fn consumed_events(
    items: Seq<DeferredRelease>,
    fences: Seq<Option<i32>>,
) -> Seq<RenderEvt> {
    Seq::new(items.len(), |i: int| consumed_event(items[i], fences[i]))
}

/// Ownership after a flip cycle: every released slot belongs to the client
/// again.
pub open spec fn owners_after_releases(
    owners: Map<SlotKey, SlotOwner>,
    items: Seq<DeferredRelease>,
) -> Map<SlotKey, SlotOwner>
    decreases items.len(),
{
    if items.len() == 0 {
        owners
    } else {
        owners_after_releases(owners, items.drop_last()).insert(
            release_key(items.last()),
            SlotOwner::Client,
        )
    }
}

/// Processing the deferred releases of one flip cycle: ownership returns to
/// the client and one release notification is emitted per queued buffer.
pub open spec fn process_releases_model(
    v: LayerView,
    fences: Seq<Option<i32>>,
) -> StepModel {
    let events = consumed_events(v.releases, fences);
    StepModel {
        post: LayerView {
            owners: owners_after_releases(v.owners, v.releases),
            releases: Seq::empty(),
            history: v.history + events,
            ..v
        },
        events,
        ops: Seq::empty(),
    }
}

/// Pairwise-distinct elements.
pub open spec fn seq_distinct<A>(s: Seq<A>) -> bool {
    forall|i: int, j: int| 0 <= i < j < s.len() ==> s[i] != s[j]
}

/// Every queued release answers an acknowledged swap.
pub open spec fn releases_acked_seq(rs: Seq<DeferredRelease>, h: Seq<RenderEvt>) -> bool {
    forall|i: int| 0 <= i < rs.len() ==> acked(h, release_key(#[trigger] rs[i]))
}

/// See [`releases_acked_seq`].
pub open spec fn releases_acked(v: LayerView) -> bool {
    releases_acked_seq(v.releases, v.history)
}

/// No buffer is queued for release twice within one flip cycle.
pub open spec fn releases_distinct(v: LayerView) -> bool {
    seq_distinct(v.releases)
}

/// Every buffer recorded as current or pending got there through an
/// acknowledged swap.
pub open spec fn surfaces_acked_map(
    m: Map<SurfaceKey, MonitorSurfaceState>,
    h: Seq<RenderEvt>,
) -> bool {
    forall|sk: SurfaceKey|
        #[trigger] m.dom().contains(sk) ==> ({
            &&& (match m[sk].current_buffer {
                Some(b) => acked(
                    h,
                    SlotKey { monitor_id: sk.monitor_id, session_id: sk.session_id, buffer: b },
                ),
                None => true,
            })
            &&& (match m[sk].pending_buffer {
                Some(b) => acked(
                    h,
                    SlotKey { monitor_id: sk.monitor_id, session_id: sk.session_id, buffer: b },
                ),
                None => true,
            })
        })
}

/// See [`surfaces_acked_map`].
pub open spec fn surfaces_acked(v: LayerView) -> bool {
    surfaces_acked_map(v.surfaces, v.history)
}

/// Every slot in the slot table has an owner.
pub open spec fn slots_owned(v: LayerView) -> bool {
    forall|k: SlotKey| #[trigger] v.slots.dom().contains(k) ==> v.owners.dom().contains(k)
}

/// The abstract invariant of the rendering layer.
pub open spec fn view_wf(v: LayerView) -> bool {
    &&& history_ordered(v.history)
    &&& releases_acked(v)
    &&& releases_distinct(v)
    &&& surfaces_acked(v)
    &&& slots_owned(v)
}

/// An acknowledgement stays in the history however it grows.
pub proof fn lemma_acked_extend(h: Seq<RenderEvt>, tail: Seq<RenderEvt>, k: SlotKey)
    requires
        acked(h, k),
    ensures
        acked(h + tail, k),
{
    let i = choose|i: int| 0 <= i < h.len() && is_ack_for(#[trigger] h[i], k);
    assert((h + tail)[i] == h[i]);
}

/// Appending events whose release notifications all answer acknowledgements
/// already in the history preserves the ack-before-consume ordering.
pub proof fn lemma_ordered_extend(h: Seq<RenderEvt>, tail: Seq<RenderEvt>)
    requires
        history_ordered(h),
        forall|t: int, k: SlotKey|
            0 <= t < tail.len() && #[trigger] is_consumed_for(tail[t], k) ==> acked(h, k),
    ensures
        history_ordered(h + tail),
{
    let h2 = h + tail;
    assert forall|j: int, k: SlotKey|
        0 <= j < h2.len() && #[trigger] is_consumed_for(h2[j], k) implies exists|i: int|
        0 <= i < j && is_ack_for(#[trigger] h2[i], k) by {
        if j < h.len() {
            assert(h2[j] == h[j]);
            let i = choose|i: int| 0 <= i < j && is_ack_for(#[trigger] h[i], k);
            assert(h2[i] == h[i]);
        } else {
            assert(h2[j] == tail[j - h.len()]);
            assert(acked(h, k));
            let i = choose|i: int| 0 <= i < h.len() && is_ack_for(#[trigger] h[i], k);
            assert(h2[i] == h[i]);
        }
    }
}

/// Queued releases stay acknowledged however the history grows.
pub proof fn lemma_releases_acked_extend(
    rs: Seq<DeferredRelease>,
    h: Seq<RenderEvt>,
    tail: Seq<RenderEvt>,
)
    requires
        releases_acked_seq(rs, h),
    ensures
        releases_acked_seq(rs, h + tail),
{
    assert forall|i: int| 0 <= i < rs.len() implies acked(h + tail, release_key(#[trigger] rs[i])) by {
        lemma_acked_extend(h, tail, release_key(rs[i]));
    }
}

/// Surface states stay acknowledged however the history grows.
pub proof fn lemma_surfaces_acked_extend(
    m: Map<SurfaceKey, MonitorSurfaceState>,
    h: Seq<RenderEvt>,
    tail: Seq<RenderEvt>,
)
    requires
        surfaces_acked_map(m, h),
    ensures
        surfaces_acked_map(m, h + tail),
{
    assert forall|sk: SurfaceKey| #[trigger] m.dom().contains(sk) implies ({
        &&& (match m[sk].current_buffer {
            Some(b) => acked(
                h + tail,
                SlotKey { monitor_id: sk.monitor_id, session_id: sk.session_id, buffer: b },
            ),
            None => true,
        })
        &&& (match m[sk].pending_buffer {
            Some(b) => acked(
                h + tail,
                SlotKey { monitor_id: sk.monitor_id, session_id: sk.session_id, buffer: b },
            ),
            None => true,
        })
    }) by {
        match m[sk].current_buffer {
            Some(b) => lemma_acked_extend(
                h,
                tail,
                SlotKey { monitor_id: sk.monitor_id, session_id: sk.session_id, buffer: b },
            ),
            None => {},
        }
        match m[sk].pending_buffer {
            Some(b) => lemma_acked_extend(
                h,
                tail,
                SlotKey { monitor_id: sk.monitor_id, session_id: sk.session_id, buffer: b },
            ),
            None => {},
        }
    }
}

/// A filtered release queue stays acknowledged.
pub proof fn lemma_releases_acked_filter(
    rs: Seq<DeferredRelease>,
    h: Seq<RenderEvt>,
    pred: spec_fn(DeferredRelease) -> bool,
)
    requires
        releases_acked_seq(rs, h),
    ensures
        releases_acked_seq(rs.filter(pred), h),
{
    crate::assoc::lemma_filter_members(rs, pred);
    assert forall|i: int| 0 <= i < rs.filter(pred).len() implies acked(
        h,
        release_key(#[trigger] rs.filter(pred)[i]),
    ) by {
        assert(rs.contains(rs.filter(pred)[i]));
        let w = choose|w: int| 0 <= w < rs.len() && rs[w] == rs.filter(pred)[i];
        assert(acked(h, release_key(rs[w])));
    }
}

/// A filtered release queue stays duplicate-free.
pub proof fn lemma_seq_distinct_filter<A>(s: Seq<A>, pred: spec_fn(A) -> bool)
    requires
        seq_distinct(s),
    ensures
        seq_distinct(s.filter(pred)),
    decreases s.len(),
{
    reveal(Seq::filter);
    if s.len() > 0 {
        let prefix = s.drop_last();
        assert(forall|i: int| 0 <= i < prefix.len() ==> prefix[i] == s[i]);
        lemma_seq_distinct_filter(prefix, pred);
        if pred(s.last()) {
            let t = prefix.filter(pred).push(s.last());
            crate::assoc::lemma_filter_members(prefix, pred);
            assert forall|i: int, j: int| 0 <= i < j < t.len() implies t[i] != t[j] by {
                if j == t.len() - 1 {
                    assert(t[i] == prefix.filter(pred)[i]);
                    assert(prefix.contains(prefix.filter(pred)[i]));
                    let w = choose|w: int| 0 <= w < prefix.len() && prefix[w] == t[i];
                    assert(s[w] == t[i]);
                    assert(s[w] != s.last());
                } else {
                    assert(t[i] == prefix.filter(pred)[i]);
                    assert(t[j] == prefix.filter(pred)[j]);
                }
            }
        }
    }
}

/// A restricted surface map stays acknowledged.
pub proof fn lemma_surfaces_acked_restrict(
    m: Map<SurfaceKey, MonitorSurfaceState>,
    h: Seq<RenderEvt>,
    keys: Set<SurfaceKey>,
)
    requires
        surfaces_acked_map(m, h),
    ensures
        surfaces_acked_map(m.restrict(keys), h),
{
}

/// Queueing a release of an acknowledged slot keeps the queue acknowledged
/// and duplicate-free.
pub proof fn lemma_queue_release(rs: Seq<DeferredRelease>, h: Seq<RenderEvt>, item: DeferredRelease)
    requires
        releases_acked_seq(rs, h),
        seq_distinct(rs),
        acked(h, release_key(item)),
    ensures
        releases_acked_seq(queue_release_seq(rs, item), h),
        seq_distinct(queue_release_seq(rs, item)),
{
    if !rs.contains(item) {
        let t = rs.push(item);
        assert(forall|i: int| 0 <= i < rs.len() ==> t[i] == rs[i]);
        assert forall|i: int, j: int| 0 <= i < j < t.len() implies t[i] != t[j] by {
            if j == t.len() - 1 {
                assert(t[i] == rs[i]);
                assert(!rs.contains(item));
            }
        }
    }
}

/// The slot keys a session purge removes.
pub open spec fn key_in_session(session_id: SessionId) -> spec_fn(SlotKey) -> bool {
    |k: SlotKey| k.session_id == session_id
}

/// The slot keys a monitor purge removes.
pub open spec fn key_on_monitor(monitor_id: MonitorId) -> spec_fn(SlotKey) -> bool {
    |k: SlotKey| k.monitor_id == monitor_id
}

/// The cancel operation for one fence-wait table entry.
pub open spec fn cancel_op() -> spec_fn((SlotKey, TaskId)) -> FenceOp {
    |e: (SlotKey, TaskId)| FenceOp::Cancel { task: e.1 }
}

/// Some operation in `ops` cancels task `t`.
pub open spec fn task_cancelled(ops: Seq<FenceOp>, t: TaskId) -> bool {
    exists|i: int| 0 <= i < ops.len() && #[trigger] ops[i] == (FenceOp::Cancel { task: t })
}

/// `op` cancels the fence wait of some slot `gone` selects.
pub open spec fn cancels_some_gone(
    op: FenceOp,
    tasks: Map<SlotKey, TaskId>,
    gone: spec_fn(SlotKey) -> bool,
) -> bool {
    exists|k: SlotKey|
        #[trigger] tasks.dom().contains(k) && gone(k) && op == (FenceOp::Cancel { task: tasks[k] })
}

/// `ops` cancels exactly the fence waits of the slots `gone` selects: every
/// operation is a cancellation of such a wait, and every such wait is
/// cancelled.
pub open spec fn cancels_tasks(
    ops: Seq<FenceOp>,
    tasks: Map<SlotKey, TaskId>,
    gone: spec_fn(SlotKey) -> bool,
) -> bool {
    &&& forall|t: int| 0 <= t < ops.len() ==> cancels_some_gone(#[trigger] ops[t], tasks, gone)
    &&& forall|k: SlotKey|
        tasks.dom().contains(k) && #[trigger] gone(k) ==> task_cancelled(ops, tasks[k])
}

/// Installing a linked pair of buffers: each imported slot enters the slot
/// table owned by the client.
pub open spec fn install_slots_model(
    v: LayerView,
    monitor_id: MonitorId,
    session_id: SessionId,
    imported: Seq<(BufferSlot, TextureId)>,
) -> LayerView
    decreases imported.len(),
{
    if imported.len() == 0 {
        v
    } else {
        let prev = install_slots_model(v, monitor_id, session_id, imported.drop_last());
        let key = SlotKey { monitor_id, session_id, buffer: imported.last().0 };
        LayerView {
            slots: prev.slots.insert(key, imported.last().1),
            owners: prev.owners.insert(key, SlotOwner::Client),
            ..prev
        }
    }
}

/// Surface entries seeded at the top of a frame: every listed monitor gets
/// an (empty) entry for the session if it has none yet.
pub open spec fn seed_surfaces(
    m: Map<SurfaceKey, MonitorSurfaceState>,
    session_id: SessionId,
    ids: Seq<MonitorId>,
) -> Map<SurfaceKey, MonitorSurfaceState>
    decreases ids.len(),
{
    if ids.len() == 0 {
        m
    } else {
        let m1 = seed_surfaces(m, session_id, ids.drop_last());
        let sk = SurfaceKey { monitor_id: ids.last(), session_id };
        if m1.dom().contains(sk) {
            m1
        } else {
            m1.insert(sk, MonitorSurfaceState { current_buffer: None, pending_buffer: None })
        }
    }
}

/// Seeded surface maps keep every acknowledged entry acknowledged: the new
/// entries are empty.
pub proof fn lemma_seed_surfaces_acked(
    m: Map<SurfaceKey, MonitorSurfaceState>,
    h: Seq<RenderEvt>,
    session_id: SessionId,
    ids: Seq<MonitorId>,
)
    requires
        surfaces_acked_map(m, h),
    ensures
        surfaces_acked_map(seed_surfaces(m, session_id, ids), h),
    decreases ids.len(),
{
    if ids.len() > 0 {
        lemma_seed_surfaces_acked(m, h, session_id, ids.drop_last());
    }
}

/// Release notifications of one flip cycle only name slots whose swap was
/// acknowledged.
pub proof fn lemma_consumed_events_ordered(
    items: Seq<DeferredRelease>,
    fences: Seq<Option<i32>>,
    h: Seq<RenderEvt>,
)
    requires
        releases_acked_seq(items, h),
        fences.len() == items.len(),
    ensures
        forall|t: int, k: SlotKey|
            0 <= t < consumed_events(items, fences).len() && #[trigger] is_consumed_for(
                consumed_events(items, fences)[t],
                k,
            ) ==> acked(h, k),
{
    let events = consumed_events(items, fences);
    assert forall|t: int, k: SlotKey|
        0 <= t < events.len() && #[trigger] is_consumed_for(events[t], k) implies acked(h, k) by {
        assert(events[t] == consumed_event(items[t], fences[t]));
        let b = items[t].buffer;
        assert(slot_of_index(index_of_slot(b)) == b) by {
            match b {
                BufferSlot::Zero => {},
                BufferSlot::One => {},
            }
        }
        assert(k == release_key(items[t]));
    }
}

/// Returning released slots to their clients only grows the ownership table.
pub proof fn lemma_owners_after_releases_dom(
    owners: Map<SlotKey, SlotOwner>,
    items: Seq<DeferredRelease>,
)
    ensures
        forall|k: SlotKey|
            owners.dom().contains(k) ==> #[trigger] owners_after_releases(
                owners,
                items,
            ).dom().contains(k),
    decreases items.len(),
{
    if items.len() > 0 {
        lemma_owners_after_releases_dom(owners, items.drop_last());
        assert forall|k: SlotKey| owners.dom().contains(k) implies #[trigger] owners_after_releases(
            owners,
            items,
        ).dom().contains(k) by {
            assert(owners_after_releases(owners, items.drop_last()).dom().contains(k));
        }
    }
}

/// Monitors in a descriptor sequence that are absent from another.
pub open spec fn absent_from(others: Seq<Monitor>) -> spec_fn(Monitor) -> bool {
    |m: Monitor| !ids_of(others).contains(m.id)
}

/// The hot-plug event announcing a monitor.
pub open spec fn online_event() -> spec_fn(Monitor) -> RenderEvt {
    |m: Monitor| RenderEvt::MonitorOnline { monitor: m }
}

/// The hot-unplug event announcing a monitor's removal.
pub open spec fn offline_event() -> spec_fn(Monitor) -> RenderEvt {
    |m: Monitor| RenderEvt::MonitorOffline { monitor_id: m.id }
}

/// The identifier of a monitor descriptor.
pub open spec fn monitor_id_of() -> spec_fn(Monitor) -> MonitorId {
    |m: Monitor| m.id
}

/// Hot-plug announcements: one per monitor newly present, in discovery
/// order.
pub open spec fn online_events(known: Seq<Monitor>, current: Seq<Monitor>) -> Seq<RenderEvt> {
    current.filter(absent_from(known)).map_values(online_event())
}

/// The monitors that disappeared, in the order they were known.
pub open spec fn removed_monitors(known: Seq<Monitor>, current: Seq<Monitor>) -> Seq<Monitor> {
    known.filter(absent_from(current))
}

/// Unplugging a set of monitors purges every table entry that names one of
/// them, surface states included.
pub open spec fn monitors_offline_model(v: LayerView, gone_ids: Seq<MonitorId>) -> LayerView {
    LayerView {
        surfaces: v.surfaces.restrict(
            v.surfaces.dom().filter(|sk: SurfaceKey| !gone_ids.contains(sk.monitor_id)),
        ),
        slots: v.slots.restrict(
            v.slots.dom().filter(|k: SlotKey| !gone_ids.contains(k.monitor_id)),
        ),
        owners: v.owners.restrict(
            v.owners.dom().filter(|k: SlotKey| !gone_ids.contains(k.monitor_id)),
        ),
        tasks: v.tasks.restrict(
            v.tasks.dom().filter(|k: SlotKey| !gone_ids.contains(k.monitor_id)),
        ),
        releases: v.releases.filter(|d: DeferredRelease| !gone_ids.contains(d.monitor_id)),
        ..v
    }
}

/// Hot-plug reconciliation: newly present monitors are announced, vanished
/// monitors are announced and purged, and the monitor set is replaced.
pub open spec fn sync_model(v: LayerView, current: Seq<Monitor>) -> StepModel {
    let onlines = online_events(v.known, current);
    let removed = removed_monitors(v.known, current);
    let offlines = removed.map_values(offline_event());
    let events = onlines + offlines;
    let purged = monitors_offline_model(v, removed.map_values(monitor_id_of()));
    StepModel {
        post: LayerView { known: current, history: v.history + events, ..purged },
        events,
        ops: Seq::empty(),
    }
}

/// The texture a monitor presents: the current buffer of the active session,
/// provided the compositor owns it.
pub open spec fn present_choice(v: LayerView, monitor_id: MonitorId) -> Option<
    crate::events::PresentChoice,
> {
    match v.session {
        None => None,
        Some(session_id) => {
            let sk = SurfaceKey { monitor_id, session_id };
            match surface_at(v, sk).current_buffer {
                None => None,
                Some(buffer) => {
                    let key = SlotKey { monitor_id, session_id, buffer };
                    if v.owners.dom().contains(key) && v.owners[key] == SlotOwner::Shift
                        && v.slots.dom().contains(key) {
                        Some(crate::events::PresentChoice { key, texture: v.slots[key] })
                    } else {
                        None
                    }
                },
            }
        },
    }
}

/// The texture registered for a monitor's active session and current buffer,
/// regardless of ownership.
pub open spec fn texture_lookup(v: LayerView, monitor_id: MonitorId) -> Option<TextureId> {
    match v.session {
        None => None,
        Some(session_id) => {
            let sk = SurfaceKey { monitor_id, session_id };
            match surface_at(v, sk).current_buffer {
                None => None,
                Some(buffer) => {
                    let key = SlotKey { monitor_id, session_id, buffer };
                    if v.slots.dom().contains(key) {
                        Some(v.slots[key])
                    } else {
                        None
                    }
                },
            }
        },
    }
}

} // verus!
