//! The rendering layer's state machine.
//!
//! It owns the monitor set, the slot table, slot ownership, per-pair
//! double-buffer positions, the fence-wait table and the deferred-release
//! queue. Every command handler is a pure transition: the caller performs
//! the GPU, DRM and scheduler work the returned events and operations ask
//! for.

use vstd::prelude::*;

use crate::assoc::{
    assoc_map, lemma_assoc_map_dom, lemma_assoc_map_filter, lemma_assoc_map_index,
    lemma_assoc_map_push, lemma_assoc_map_remove, lemma_assoc_map_update, lemma_filter_congruence,
    unique_keys,
};
use crate::events::{
    CommandOutcome, FenceOp, ImportRequest, MonitorSurfaceState, PresentChoice, RejectReason,
    RenderCmd, RenderEvt, SurfaceKey, SwapOutcome, index_of_slot, slot_of_index,
};
use crate::keys::{
    BufferIndex, BufferSlot, DeferredRelease, Monitor, MonitorId, SessionId, SlotKey, SlotOwner,
    TaskId, TextureId,
};
use crate::model::{LayerView, is_ack_for, known_ids, view_wf};

verus! {

/// Finds the entry holding a key.
fn slot_table_find<V>(entries: &Vec<(SlotKey, V)>, key: SlotKey) -> (r: Option<usize>)
    ensures
        match r {
            Some(i) => 0 <= i < entries@.len() && entries@[i as int].0 == key,
            None => forall|j: int| 0 <= j < entries@.len() ==> (#[trigger] entries@[j]).0 != key,
        },
{
    let mut i: usize = 0;
    while i < entries.len()
        invariant
            i <= entries@.len(),
            forall|j: int| 0 <= j < i ==> (#[trigger] entries@[j]).0 != key,
        decreases entries@.len() - i,
    {
        if entries[i].0 == key {
            return Some(i);
        }
        i = i + 1;
    }
    None
}

/// The value stored under a key, if any.
fn slot_table_get<V: Copy>(entries: &Vec<(SlotKey, V)>, key: SlotKey) -> (r: Option<V>)
    requires
        unique_keys(entries@),
    ensures
        r == (if assoc_map(entries@).dom().contains(key) {
            Some(assoc_map(entries@)[key])
        } else {
            None::<V>
        }),
{
    proof {
        lemma_assoc_map_dom(entries@, key);
    }
    match slot_table_find(entries, key) {
        Some(i) => {
            proof {
                lemma_assoc_map_index(entries@, i as int);
            }
            Some(entries[i].1)
        },
        None => None,
    }
}

/// Stores a value under a key, replacing any earlier entry.
fn slot_table_insert<V>(entries: &mut Vec<(SlotKey, V)>, key: SlotKey, value: V)
    requires
        unique_keys(old(entries)@),
    ensures
        unique_keys(final(entries)@),
        assoc_map(final(entries)@) == assoc_map(old(entries)@).insert(key, value),
{
    match slot_table_find(entries, key) {
        Some(i) => {
            proof {
                lemma_assoc_map_update(entries@, i as int, value);
            }
            entries.set(i, (key, value));
        },
        None => {
            proof {
                lemma_assoc_map_push(entries@, key, value);
            }
            entries.push((key, value));
        },
    }
}

/// Removes the entry holding a key, returning its value.
fn slot_table_remove<V: Copy>(entries: &mut Vec<(SlotKey, V)>, key: SlotKey) -> (r: Option<V>)
    requires
        unique_keys(old(entries)@),
    ensures
        unique_keys(final(entries)@),
        r == (if assoc_map(old(entries)@).dom().contains(key) {
            Some(assoc_map(old(entries)@)[key])
        } else {
            None::<V>
        }),
        assoc_map(final(entries)@) == (if assoc_map(old(entries)@).dom().contains(key) {
            assoc_map(old(entries)@).remove(key)
        } else {
            assoc_map(old(entries)@)
        }),
{
    proof {
        lemma_assoc_map_dom(entries@, key);
    }
    match slot_table_find(entries, key) {
        Some(i) => {
            proof {
                lemma_assoc_map_index(entries@, i as int);
                lemma_assoc_map_remove(entries@, i as int);
            }
            let value = entries[i].1;
            entries.remove(i);
            Some(value)
        },
        None => None,
    }
}

/// Keep predicate on slot-table entries: survive a purge of a session or
/// of a monitor.
pub open spec fn slot_entry_keep<V>(
    by_session: bool,
    session_id: SessionId,
    monitor_id: MonitorId,
) -> spec_fn((SlotKey, V)) -> bool {
    |e: (SlotKey, V)|
        if by_session {
            e.0.session_id != session_id
        } else {
            e.0.monitor_id != monitor_id
        }
}

/// Complement of [`slot_entry_keep`]: the entries a purge removes.
pub open spec fn slot_entry_drop<V>(
    by_session: bool,
    session_id: SessionId,
    monitor_id: MonitorId,
) -> spec_fn((SlotKey, V)) -> bool {
    |e: (SlotKey, V)|
        !(if by_session {
            e.0.session_id != session_id
        } else {
            e.0.monitor_id != monitor_id
        })
}

/// Keep predicate on slot keys matching [`slot_entry_keep`].
pub open spec fn slot_key_keep(
    by_session: bool,
    session_id: SessionId,
    monitor_id: MonitorId,
) -> spec_fn(SlotKey) -> bool {
    |k: SlotKey|
        if by_session {
            k.session_id != session_id
        } else {
            k.monitor_id != monitor_id
        }
}

/// Removes every entry whose key's session matches, or whose key's monitor
/// matches, according to `by_session`; returns what was removed, in table
/// order.
fn slot_table_purge<V: Copy>(
    entries: &mut Vec<(SlotKey, V)>,
    by_session: bool,
    session_id: SessionId,
    monitor_id: MonitorId,
) -> (removed: Vec<(SlotKey, V)>)
    requires
        unique_keys(old(entries)@),
    ensures
        unique_keys(final(entries)@),
        final(entries)@ == old(entries)@.filter(
            slot_entry_keep::<V>(by_session, session_id, monitor_id),
        ),
        removed@ == old(entries)@.filter(slot_entry_drop::<V>(by_session, session_id, monitor_id)),
        assoc_map(final(entries)@) == assoc_map(old(entries)@).restrict(
            assoc_map(old(entries)@).dom().filter(slot_key_keep(by_session, session_id, monitor_id)),
        ),
{
    let ghost keep_entry = slot_entry_keep::<V>(by_session, session_id, monitor_id);
    let ghost drop_entry = slot_entry_drop::<V>(by_session, session_id, monitor_id);
    let ghost keep_key = slot_key_keep(by_session, session_id, monitor_id);
    let mut kept: Vec<(SlotKey, V)> = Vec::new();
    let mut dropped: Vec<(SlotKey, V)> = Vec::new();
    let mut i: usize = 0;
    proof {
        reveal(Seq::filter);
        assert(entries@.subrange(0, 0) =~= Seq::<(SlotKey, V)>::empty());
    }
    while i < entries.len()
        invariant
            i <= entries@.len(),
            keep_entry == slot_entry_keep::<V>(by_session, session_id, monitor_id),
            drop_entry == slot_entry_drop::<V>(by_session, session_id, monitor_id),
            kept@ == entries@.subrange(0, i as int).filter(keep_entry),
            dropped@ == entries@.subrange(0, i as int).filter(drop_entry),
        decreases entries@.len() - i,
    {
        let e = entries[i];
        let keep = if by_session {
            !(e.0.session_id == session_id)
        } else {
            !(e.0.monitor_id == monitor_id)
        };
        proof {
            assert(entries@.subrange(0, i + 1) =~= entries@.subrange(0, i as int).push(e));
            lemma_filter_push(entries@.subrange(0, i as int), keep_entry, e);
            lemma_filter_push(entries@.subrange(0, i as int), drop_entry, e);
            assert(keep == keep_entry(e));
            assert(!keep == drop_entry(e));
        }
        if keep {
            kept.push(e);
        } else {
            dropped.push(e);
        }
        i = i + 1;
    }
    proof {
        assert(entries@.subrange(0, entries@.len() as int) =~= entries@);
        lemma_assoc_map_filter(entries@, keep_key);
        lemma_filter_congruence(
            entries@,
            |e: (SlotKey, V)| keep_key(e.0),
            keep_entry,
        );
    }
    *entries = kept;
    dropped
}

/// Filtering a sequence extended by one element filters the element too.
proof fn lemma_filter_push<A>(s: Seq<A>, pred: spec_fn(A) -> bool, x: A)
    ensures
        s.push(x).filter(pred) == (if pred(x) {
            s.filter(pred).push(x)
        } else {
            s.filter(pred)
        }),
{
    reveal(Seq::filter);
    assert(s.push(x).drop_last() =~= s);
    assert(s.push(x).last() == x);
}


/// Keep predicate on surface-state entries: survive a purge of a session or
/// of a monitor.
pub open spec fn surface_entry_keep(
    by_session: bool,
    session_id: SessionId,
    monitor_id: MonitorId,
) -> spec_fn((SurfaceKey, MonitorSurfaceState)) -> bool {
    |e: (SurfaceKey, MonitorSurfaceState)|
        if by_session {
            e.0.session_id != session_id
        } else {
            e.0.monitor_id != monitor_id
        }
}

/// Keep predicate on surface keys matching [`surface_entry_keep`].
pub open spec fn surface_key_keep(
    by_session: bool,
    session_id: SessionId,
    monitor_id: MonitorId,
) -> spec_fn(SurfaceKey) -> bool {
    |k: SurfaceKey|
        if by_session {
            k.session_id != session_id
        } else {
            k.monitor_id != monitor_id
        }
}

/// Finds the surface entry holding a key.
fn surface_table_find(
    entries: &Vec<(SurfaceKey, MonitorSurfaceState)>,
    key: SurfaceKey,
) -> (r: Option<usize>)
    ensures
        match r {
            Some(i) => 0 <= i < entries@.len() && entries@[i as int].0 == key,
            None => forall|j: int| 0 <= j < entries@.len() ==> (#[trigger] entries@[j]).0 != key,
        },
{
    let mut i: usize = 0;
    while i < entries.len()
        invariant
            i <= entries@.len(),
            forall|j: int| 0 <= j < i ==> (#[trigger] entries@[j]).0 != key,
        decreases entries@.len() - i,
    {
        if entries[i].0 == key {
            return Some(i);
        }
        i = i + 1;
    }
    None
}

/// The surface state stored under a key, if any.
fn surface_table_get(
    entries: &Vec<(SurfaceKey, MonitorSurfaceState)>,
    key: SurfaceKey,
) -> (r: Option<MonitorSurfaceState>)
    requires
        unique_keys(entries@),
    ensures
        r == (if assoc_map(entries@).dom().contains(key) {
            Some(assoc_map(entries@)[key])
        } else {
            None::<MonitorSurfaceState>
        }),
{
    proof {
        lemma_assoc_map_dom(entries@, key);
    }
    match surface_table_find(entries, key) {
        Some(i) => {
            proof {
                lemma_assoc_map_index(entries@, i as int);
            }
            Some(entries[i].1)
        },
        None => None,
    }
}

/// Stores a surface state under a key, replacing any earlier entry.
fn surface_table_insert(
    entries: &mut Vec<(SurfaceKey, MonitorSurfaceState)>,
    key: SurfaceKey,
    value: MonitorSurfaceState,
)
    requires
        unique_keys(old(entries)@),
    ensures
        unique_keys(final(entries)@),
        assoc_map(final(entries)@) == assoc_map(old(entries)@).insert(key, value),
{
    match surface_table_find(entries, key) {
        Some(i) => {
            proof {
                lemma_assoc_map_update(entries@, i as int, value);
            }
            entries.set(i, (key, value));
        },
        None => {
            proof {
                lemma_assoc_map_push(entries@, key, value);
            }
            entries.push((key, value));
        },
    }
}

/// Removes every surface entry of a session or of a monitor.
fn surface_table_purge(
    entries: &mut Vec<(SurfaceKey, MonitorSurfaceState)>,
    by_session: bool,
    session_id: SessionId,
    monitor_id: MonitorId,
)
    requires
        unique_keys(old(entries)@),
    ensures
        unique_keys(final(entries)@),
        assoc_map(final(entries)@) == assoc_map(old(entries)@).restrict(
            assoc_map(old(entries)@).dom().filter(
                surface_key_keep(by_session, session_id, monitor_id),
            ),
        ),
{
    let ghost keep_entry = surface_entry_keep(by_session, session_id, monitor_id);
    let ghost keep_key = surface_key_keep(by_session, session_id, monitor_id);
    let mut kept: Vec<(SurfaceKey, MonitorSurfaceState)> = Vec::new();
    let mut i: usize = 0;
    proof {
        reveal(Seq::filter);
        assert(entries@.subrange(0, 0) =~= Seq::<(SurfaceKey, MonitorSurfaceState)>::empty());
    }
    while i < entries.len()
        invariant
            i <= entries@.len(),
            keep_entry == surface_entry_keep(by_session, session_id, monitor_id),
            kept@ == entries@.subrange(0, i as int).filter(keep_entry),
        decreases entries@.len() - i,
    {
        let e = entries[i];
        let keep = if by_session {
            !(e.0.session_id == session_id)
        } else {
            !(e.0.monitor_id == monitor_id)
        };
        proof {
            assert(entries@.subrange(0, i + 1) =~= entries@.subrange(0, i as int).push(e));
            lemma_filter_push(entries@.subrange(0, i as int), keep_entry, e);
            assert(keep == keep_entry(e));
        }
        if keep {
            kept.push(e);
        }
        i = i + 1;
    }
    proof {
        assert(entries@.subrange(0, entries@.len() as int) =~= entries@);
        lemma_assoc_map_filter(entries@, keep_key);
        lemma_filter_congruence(
            entries@,
            |e: (SurfaceKey, MonitorSurfaceState)| keep_key(e.0),
            keep_entry,
        );
    }
    *entries = kept;
}

/// Keep predicate on deferred releases: survive a purge of a session or of
/// a monitor.
pub open spec fn release_keep(
    by_session: bool,
    session_id: SessionId,
    monitor_id: MonitorId,
) -> spec_fn(DeferredRelease) -> bool {
    |d: DeferredRelease|
        if by_session {
            d.session_id != session_id
        } else {
            d.monitor_id != monitor_id
        }
}

/// Whether a release is already queued.
fn releases_contain(rs: &Vec<DeferredRelease>, item: DeferredRelease) -> (r: bool)
    ensures
        r == rs@.contains(item),
{
    let mut i: usize = 0;
    while i < rs.len()
        invariant
            i <= rs@.len(),
            forall|j: int| 0 <= j < i ==> rs@[j] != item,
        decreases rs@.len() - i,
    {
        if rs[i] == item {
            return true;
        }
        i = i + 1;
    }
    false
}

/// Queues a buffer release unless the same release is already queued.
fn queue_release_vec(rs: &mut Vec<DeferredRelease>, item: DeferredRelease)
    ensures
        final(rs)@ == crate::model::queue_release_seq(old(rs)@, item),
{
    if !releases_contain(rs, item) {
        rs.push(item);
    }
}

/// Removes every queued release of a session or of a monitor.
fn releases_purge(
    rs: &mut Vec<DeferredRelease>,
    by_session: bool,
    session_id: SessionId,
    monitor_id: MonitorId,
)
    ensures
        final(rs)@ == old(rs)@.filter(release_keep(by_session, session_id, monitor_id)),
{
    let ghost keep = release_keep(by_session, session_id, monitor_id);
    let mut kept: Vec<DeferredRelease> = Vec::new();
    let mut i: usize = 0;
    proof {
        reveal(Seq::filter);
        assert(rs@.subrange(0, 0) =~= Seq::<DeferredRelease>::empty());
    }
    while i < rs.len()
        invariant
            i <= rs@.len(),
            keep == release_keep(by_session, session_id, monitor_id),
            kept@ == rs@.subrange(0, i as int).filter(keep),
        decreases rs@.len() - i,
    {
        let d = rs[i];
        let k = if by_session {
            !(d.session_id == session_id)
        } else {
            !(d.monitor_id == monitor_id)
        };
        proof {
            assert(rs@.subrange(0, i + 1) =~= rs@.subrange(0, i as int).push(d));
            lemma_filter_push(rs@.subrange(0, i as int), keep, d);
            assert(k == keep(d));
        }
        if k {
            kept.push(d);
        }
        i = i + 1;
    }
    proof {
        assert(rs@.subrange(0, rs@.len() as int) =~= rs@);
    }
    *rs = kept;
}

/// Whether a monitor id occurs in a descriptor list.
fn monitors_contain_id(ms: &Vec<Monitor>, id: MonitorId) -> (r: bool)
    ensures
        r == crate::model::ids_of(ms@).contains(id),
{
    let mut i: usize = 0;
    while i < ms.len()
        invariant
            i <= ms@.len(),
            forall|j: int| 0 <= j < i ==> (#[trigger] ms@[j]).id != id,
        decreases ms@.len() - i,
    {
        if ms[i].id == id {
            proof {
                assert(crate::model::ids_of(ms@).contains(id));
            }
            return true;
        }
        i = i + 1;
    }
    proof {
        assert(!crate::model::ids_of(ms@).contains(id));
    }
    false
}


/// The rendering layer's state. All mutation goes through the command and
/// event handlers below; `View` gives the mathematical abstraction that
/// their contracts are stated over.
pub struct RenderingLayer {
    known_monitors: Vec<Monitor>,
    monitor_state: Vec<(SurfaceKey, MonitorSurfaceState)>,
    slots: Vec<(SlotKey, TextureId)>,
    slot_ownership: Vec<(SlotKey, SlotOwner)>,
    fence_tasks: Vec<(SlotKey, TaskId)>,
    deferred_releases: Vec<DeferredRelease>,
    current_session: Option<SessionId>,
    next_task: u64,
    history: Ghost<Seq<RenderEvt>>,
}

impl View for RenderingLayer {
    type V = LayerView;

    closed spec fn view(&self) -> LayerView {
        LayerView {
            known: self.known_monitors@,
            surfaces: assoc_map(self.monitor_state@),
            slots: assoc_map(self.slots@),
            owners: assoc_map(self.slot_ownership@),
            tasks: assoc_map(self.fence_tasks@),
            releases: self.deferred_releases@,
            session: self.current_session,
            next_task: self.next_task,
            history: self.history@,
        }
    }
}

impl RenderingLayer {
    /// The representation keeps each table's keys distinct and the abstract
    /// state well-formed.
    pub closed spec fn wf(&self) -> bool {
        &&& unique_keys(self.monitor_state@)
        &&& unique_keys(self.slots@)
        &&& unique_keys(self.slot_ownership@)
        &&& unique_keys(self.fence_tasks@)
        &&& view_wf(self@)
    }

    /// A well-formed layer satisfies the abstract invariant.
    pub proof fn lemma_wf_view(&self)
        requires
            self.wf(),
        ensures
            view_wf(self@),
    {
    }

    /// A fresh layer: no monitors, no slots, no session, empty history.
    pub fn new() -> (r: Self)
        ensures
            r.wf(),
            r@.known == Seq::<Monitor>::empty(),
            r@.surfaces == Map::<SurfaceKey, MonitorSurfaceState>::empty(),
            r@.slots == Map::<SlotKey, TextureId>::empty(),
            r@.owners == Map::<SlotKey, SlotOwner>::empty(),
            r@.tasks == Map::<SlotKey, TaskId>::empty(),
            r@.releases == Seq::<DeferredRelease>::empty(),
            r@.session is None,
            r@.history == Seq::<RenderEvt>::empty(),
    {
        let r = RenderingLayer {
            known_monitors: Vec::new(),
            monitor_state: Vec::new(),
            slots: Vec::new(),
            slot_ownership: Vec::new(),
            fence_tasks: Vec::new(),
            deferred_releases: Vec::new(),
            current_session: None,
            next_task: 0,
            history: Ghost(Seq::empty()),
        };
        proof {
            assert(assoc_map(r.monitor_state@) =~= Map::<SurfaceKey, MonitorSurfaceState>::empty());
            assert(assoc_map(r.slots@) =~= Map::<SlotKey, TextureId>::empty());
            assert(assoc_map(r.slot_ownership@) =~= Map::<SlotKey, SlotOwner>::empty());
            assert(assoc_map(r.fence_tasks@) =~= Map::<SlotKey, TaskId>::empty());
        }
        r
    }

    /// Records the monitors present at initialisation and reports them to
    /// the control plane.
    pub fn start(&mut self, monitors: Vec<Monitor>) -> (r: RenderEvt)
        requires
            old(self).wf(),
        ensures
            final(self).wf(),
            final(self)@ == (LayerView {
                known: monitors@,
                history: old(self)@.history.push(r),
                ..old(self)@
            }),
            (r matches RenderEvt::Started { monitors: ms } && ms@ == monitors@),
    {
        let ghost pre = self@;
        let mut listed: Vec<Monitor> = Vec::new();
        let mut i: usize = 0;
        while i < monitors.len()
            invariant
                i <= monitors@.len(),
                listed@ == monitors@.subrange(0, i as int),
            decreases monitors@.len() - i,
        {
            listed.push(monitors[i]);
            proof {
                assert(monitors@.subrange(0, i + 1) =~= monitors@.subrange(0, i as int).push(
                    monitors@[i as int],
                ));
            }
            i = i + 1;
        }
        proof {
            assert(listed@ =~= monitors@);
        }
        self.known_monitors = monitors;
        let event = RenderEvt::Started { monitors: listed };
        let ghost ev = event;
        self.history = Ghost(self.history@.push(ev));
        proof {
            assert(pre.history.push(ev) =~= pre.history + seq![ev]);
            crate::model::lemma_ordered_extend(pre.history, seq![ev]);
            crate::model::lemma_releases_acked_extend(pre.releases, pre.history, seq![ev]);
            crate::model::lemma_surfaces_acked_extend(pre.surfaces, pre.history, seq![ev]);
        }
        event
    }

    /// Records which session is presented from now on.
    pub fn set_active_session(&mut self, session_id: Option<SessionId>)
        requires
            old(self).wf(),
        ensures
            final(self).wf(),
            final(self)@ == (LayerView { session: session_id, ..old(self)@ }),
    {
        self.current_session = session_id;
    }

    /// Whether a monitor is currently known.
    pub fn monitor_known(&self, monitor_id: MonitorId) -> (r: bool)
        ensures
            r == known_ids(self@).contains(monitor_id),
    {
        let r = monitors_contain_id(&self.known_monitors, monitor_id);
        proof {
            assert(crate::model::ids_of(self.known_monitors@) =~= known_ids(self@));
        }
        r
    }

    /// The session currently presented.
    pub fn current_session(&self) -> (r: Option<SessionId>)
        ensures
            r == self@.session,
    {
        self.current_session
    }

    /// The number of queued buffer releases awaiting the next page flip.
    pub fn pending_release_count(&self) -> (r: usize)
        ensures
            r == self@.releases.len(),
    {
        self.deferred_releases.len()
    }

    /// The texture imported for a slot, if any.
    pub fn slot_texture(&self, key: SlotKey) -> (r: Option<TextureId>)
        requires
            self.wf(),
        ensures
            r == (if self@.slots.dom().contains(key) {
                Some(self@.slots[key])
            } else {
                None::<TextureId>
            }),
    {
        slot_table_get(&self.slots, key)
    }

    /// The owner recorded for a slot, if any.
    pub fn slot_owner(&self, key: SlotKey) -> (r: Option<SlotOwner>)
        requires
            self.wf(),
        ensures
            r == (if self@.owners.dom().contains(key) {
                Some(self@.owners[key])
            } else {
                None::<SlotOwner>
            }),
    {
        slot_table_get(&self.slot_ownership, key)
    }

    /// The live fence-wait task for a slot, if any.
    pub fn fence_task(&self, key: SlotKey) -> (r: Option<TaskId>)
        requires
            self.wf(),
        ensures
            r == (if self@.tasks.dom().contains(key) {
                Some(self@.tasks[key])
            } else {
                None::<TaskId>
            }),
    {
        slot_table_get(&self.fence_tasks, key)
    }

    /// The double-buffer positions recorded for a (monitor, session) pair.
    pub fn surface_state(&self, monitor_id: MonitorId, session_id: SessionId) -> (r: Option<
        MonitorSurfaceState,
    >)
        requires
            self.wf(),
        ensures
            r == (if self@.surfaces.dom().contains(SurfaceKey { monitor_id, session_id }) {
                Some(self@.surfaces[SurfaceKey { monitor_id, session_id }])
            } else {
                None::<MonitorSurfaceState>
            }),
    {
        surface_table_get(&self.monitor_state, SurfaceKey { monitor_id, session_id })
    }
}


impl RenderingLayer {
    /// Handles a `SwapBuffers` request (command handling, swap semantics).
    ///
    /// The request is validated against the monitor set and the slot table;
    /// a rejection leaves the state unchanged and reports the reason.
    /// An accepted swap displaces a differing pending buffer (its fence wait
    /// is cancelled and it is queued for release), then either registers a
    /// fence wait for the slot (acquire fence supplied) or promotes it to
    /// current immediately (none), queueing the displaced current buffer for
    /// release; the slot's buffer passes to the compositor and the request
    /// is acknowledged.
    pub fn handle_swap_buffers(
        &mut self,
        monitor_id: MonitorId,
        session_id: SessionId,
        buffer: BufferIndex,
        acquire_fence: Option<i32>,
    ) -> (r: SwapOutcome)
        requires
            old(self).wf(),
            old(self)@.next_task < u64::MAX,
        ensures
            final(self).wf(),
            ({
                let m = crate::model::swap_model(
                    old(self)@,
                    monitor_id,
                    session_id,
                    buffer,
                    acquire_fence,
                );
                &&& final(self)@ == m.post
                &&& m.events == seq![r.event]
                &&& r.fence_ops@ == m.ops
            }),
    {
        let ghost pre = self@;
        let slot = match buffer {
            BufferIndex::Zero => BufferSlot::Zero,
            BufferIndex::One => BufferSlot::One,
        };
        let key = SlotKey { monitor_id, session_id, buffer: slot };
        proof {
            assert(slot == slot_of_index(buffer));
            assert(index_of_slot(slot_of_index(buffer)) == buffer);
        }
        let monitor_is_known = self.monitor_known(monitor_id);
        let slot_known = slot_table_get(&self.slots, key).is_some();
        if !monitor_is_known || !slot_known {
            let reason = if !monitor_is_known {
                RejectReason::UnknownMonitor
            } else {
                RejectReason::UnlinkedBuffer
            };
            let event = RenderEvt::BufferRequestRejected { session_id, monitor_id, buffer, reason };
            let ghost ev = event;
            self.history = Ghost(self.history@.push(ev));
            proof {
                assert(crate::model::swap_rejected(pre, monitor_id, session_id, buffer));
                assert(pre.history.push(ev) =~= pre.history + seq![ev]);
                crate::model::lemma_ordered_extend(pre.history, seq![ev]);
                crate::model::lemma_releases_acked_extend(pre.releases, pre.history, seq![ev]);
                crate::model::lemma_surfaces_acked_extend(pre.surfaces, pre.history, seq![ev]);
                assert(self@ == crate::model::swap_rejected_model(
                    pre,
                    monitor_id,
                    session_id,
                    buffer,
                ).post);
            }
            return SwapOutcome { event, fence_ops: Vec::new() };
        }
        let mut fence_ops: Vec<FenceOp> = Vec::new();
        let sk = SurfaceKey { monitor_id, session_id };
        let st0 = match surface_table_get(&self.monitor_state, sk) {
            Some(st) => st,
            None => MonitorSurfaceState { current_buffer: None, pending_buffer: None },
        };
        proof {
            assert(st0 == crate::model::surface_at(pre, sk));
        }
        let displaced: Option<BufferSlot> = match st0.pending_buffer {
            Some(p) => if p != slot {
                Some(p)
            } else {
                None
            },
            None => None,
        };
        if let Some(p) = displaced {
            let pending_key = SlotKey { monitor_id, session_id, buffer: p };
            match slot_table_remove(&mut self.fence_tasks, pending_key) {
                Some(task) => fence_ops.push(FenceOp::Cancel { task }),
                None => {},
            }
            queue_release_vec(
                &mut self.deferred_releases,
                DeferredRelease { monitor_id, session_id, buffer: p },
            );
            proof {
                assert(pre.surfaces.dom().contains(sk));
                assert(crate::model::acked(
                    pre.history,
                    crate::model::release_key(DeferredRelease { monitor_id, session_id, buffer: p }),
                ));
                crate::model::lemma_queue_release(
                    pre.releases,
                    pre.history,
                    DeferredRelease { monitor_id, session_id, buffer: p },
                );
            }
        }
        let ghost tasks1 = self@.tasks;
        let ghost ops1 = fence_ops@;
        let ghost releases1 = self@.releases;
        match acquire_fence {
            Some(fd) => {
                let fresh = TaskId(self.next_task);
                let replaces = slot_table_get(&self.fence_tasks, key);
                slot_table_insert(&mut self.fence_tasks, key, fresh);
                self.next_task = self.next_task + 1;
                fence_ops.push(FenceOp::Wait { task: fresh, fence_fd: fd, replaces });
            },
            None => {
                match slot_table_remove(&mut self.fence_tasks, key) {
                    Some(task) => fence_ops.push(FenceOp::Cancel { task }),
                    None => {},
                }
            },
        }
        let st_final = match acquire_fence {
            Some(_) => MonitorSurfaceState {
                current_buffer: st0.current_buffer,
                pending_buffer: Some(slot),
            },
            None => MonitorSurfaceState { current_buffer: Some(slot), pending_buffer: None },
        };
        surface_table_insert(&mut self.monitor_state, sk, st_final);
        slot_table_insert(&mut self.slot_ownership, key, SlotOwner::Shift);
        if acquire_fence.is_none() {
            if let Some(prev) = st0.current_buffer {
                if prev != slot {
                    queue_release_vec(
                        &mut self.deferred_releases,
                        DeferredRelease { monitor_id, session_id, buffer: prev },
                    );
                    proof {
                        assert(pre.surfaces.dom().contains(sk));
                        crate::model::lemma_queue_release(
                            releases1,
                            pre.history,
                            DeferredRelease { monitor_id, session_id, buffer: prev },
                        );
                    }
                }
            }
        }
        let event = RenderEvt::BufferRequestAck { session_id, monitor_id, buffer };
        let ghost ev = event;
        self.history = Ghost(self.history@.push(ev));
        proof {
            let m = crate::model::swap_accepted_model(
                pre,
                monitor_id,
                session_id,
                buffer,
                acquire_fence,
            );
            assert(ev == crate::events::ack_event(key));
            assert(self@.surfaces == m.post.surfaces);
            assert(self@.owners == m.post.owners);
            assert(self@.tasks == m.post.tasks);
            assert(self@.releases == m.post.releases);
            assert(self@.history == m.post.history);
            assert(self@ == m.post);
            assert(fence_ops@ == m.ops);
            assert(m.events =~= seq![ev]);
            // the invariant survives: the new history entry is the
            // acknowledgement the updated tables rely on
            assert(pre.history.push(ev) =~= pre.history + seq![ev]);
            crate::model::lemma_ordered_extend(pre.history, seq![ev]);
            crate::model::lemma_releases_acked_extend(m.post.releases, pre.history, seq![ev]);
            crate::model::lemma_surfaces_acked_extend(pre.surfaces, pre.history, seq![ev]);
            assert(crate::model::acked(self@.history, key)) by {
                assert(is_ack_for(self@.history[pre.history.len() as int], key));
            }
            assert(crate::model::surfaces_acked_map(self@.surfaces, self@.history)) by {
                assert forall|sk2: SurfaceKey| #[trigger] self@.surfaces.dom().contains(sk2) implies ({
                    &&& (match self@.surfaces[sk2].current_buffer {
                        Some(b) => crate::model::acked(
                            self@.history,
                            SlotKey {
                                monitor_id: sk2.monitor_id,
                                session_id: sk2.session_id,
                                buffer: b,
                            },
                        ),
                        None => true,
                    })
                    &&& (match self@.surfaces[sk2].pending_buffer {
                        Some(b) => crate::model::acked(
                            self@.history,
                            SlotKey {
                                monitor_id: sk2.monitor_id,
                                session_id: sk2.session_id,
                                buffer: b,
                            },
                        ),
                        None => true,
                    })
                }) by {
                    if sk2 == sk {
                        match st0.current_buffer {
                            Some(b) => {
                                if pre.surfaces.dom().contains(sk) {
                                    crate::model::lemma_acked_extend(
                                        pre.history,
                                        seq![ev],
                                        SlotKey { monitor_id, session_id, buffer: b },
                                    );
                                }
                            },
                            None => {},
                        }
                    }
                }
            }
        }
        SwapOutcome { event, fence_ops }
    }
}


/// Purging a fence-wait table cancels exactly the waits of the purged keys.
proof fn lemma_cancels_from_purge(
    entries: Seq<(SlotKey, TaskId)>,
    removed: Seq<(SlotKey, TaskId)>,
    ops: Seq<FenceOp>,
    by_session: bool,
    session_id: SessionId,
    monitor_id: MonitorId,
    gone: spec_fn(SlotKey) -> bool,
)
    requires
        unique_keys(entries),
        removed == entries.filter(slot_entry_drop::<TaskId>(by_session, session_id, monitor_id)),
        ops == removed.map_values(crate::model::cancel_op()),
        forall|k: SlotKey|
            #[trigger] gone(k) == !(if by_session {
                k.session_id != session_id
            } else {
                k.monitor_id != monitor_id
            }),
    ensures
        crate::model::cancels_tasks(ops, assoc_map(entries), gone),
{
    let tasks = assoc_map(entries);
    let drop_pred = slot_entry_drop::<TaskId>(by_session, session_id, monitor_id);
    crate::assoc::lemma_filter_members(entries, drop_pred);
    entries.filter_lemma(drop_pred);
    assert forall|t: int| 0 <= t < ops.len() implies crate::model::cancels_some_gone(
        #[trigger] ops[t],
        tasks,
        gone,
    ) by {
        assert(ops[t] == crate::model::cancel_op()(removed[t]));
        assert(entries.contains(removed[t]));
        let w = choose|w: int| 0 <= w < entries.len() && entries[w] == removed[t];
        lemma_assoc_map_index(entries, w);
        assert(drop_pred(removed[t]));
        assert(tasks.dom().contains(entries[w].0) && gone(entries[w].0) && ops[t]
            == (FenceOp::Cancel { task: tasks[entries[w].0] }));
    }
    assert forall|k: SlotKey| tasks.dom().contains(k) && #[trigger] gone(k)
        implies crate::model::task_cancelled(ops, tasks[k]) by {
        lemma_assoc_map_dom(entries, k);
        let i = choose|i: int| 0 <= i < entries.len() && #[trigger] entries[i].0 == k;
        lemma_assoc_map_index(entries, i);
        assert(drop_pred(entries[i]));
        assert(removed.contains(entries[i]));
        let t = choose|t: int| 0 <= t < removed.len() && removed[t] == entries[i];
        assert(ops[t] == crate::model::cancel_op()(removed[t]));
        assert(ops[t] == (FenceOp::Cancel { task: tasks[k] }));
    }
}

impl RenderingLayer {
    /// Handles the signal of an acquire fence for a slot (fence completion).
    ///
    /// The wait entry is dropped; if the slot is still the pending buffer of
    /// its (monitor, session) pair it is promoted to current and a displaced
    /// current buffer is queued for release. If the pair's state was purged
    /// in the meantime (session removed, monitor unplugged) nothing changes:
    /// a late fence never resurrects state.
    pub fn handle_fence_signaled(&mut self, key: SlotKey)
        requires
            old(self).wf(),
        ensures
            final(self).wf(),
            final(self)@ == crate::model::fence_signaled_model(old(self)@, key),
    {
        let ghost pre = self@;
        let _ = slot_table_remove(&mut self.fence_tasks, key);
        let sk = SurfaceKey { monitor_id: key.monitor_id, session_id: key.session_id };
        let promote = match surface_table_get(&self.monitor_state, sk) {
            Some(st) => match st.pending_buffer {
                Some(p) => if p == key.buffer {
                    Some(st)
                } else {
                    None
                },
                None => None,
            },
            None => None,
        };
        if let Some(st) = promote {
            let st1 = MonitorSurfaceState { current_buffer: Some(key.buffer), pending_buffer: None };
            surface_table_insert(&mut self.monitor_state, sk, st1);
            if let Some(prev) = st.current_buffer {
                if prev != key.buffer {
                    let item = DeferredRelease {
                        monitor_id: key.monitor_id,
                        session_id: key.session_id,
                        buffer: prev,
                    };
                    queue_release_vec(&mut self.deferred_releases, item);
                    proof {
                        assert(pre.surfaces.dom().contains(sk));
                        crate::model::lemma_queue_release(pre.releases, pre.history, item);
                    }
                }
            }
            proof {
                assert(pre.surfaces.dom().contains(sk));
                assert(crate::model::acked(
                    pre.history,
                    SlotKey {
                        monitor_id: key.monitor_id,
                        session_id: key.session_id,
                        buffer: key.buffer,
                    },
                ));
                assert(self@ == crate::model::fence_signaled_model(pre, key));
            }
        } else {
            proof {
                assert(self@ == crate::model::fence_signaled_model(pre, key));
            }
        }
    }

    /// Handles `SessionRemoved`: purges every slot, ownership, surface,
    /// deferred-release and fence-wait entry of the session, clears the
    /// current session if it matched, and returns the cancellations the
    /// fence scheduler must perform (their callbacks are suppressed).
    pub fn handle_session_removed(&mut self, session_id: SessionId) -> (r: Vec<FenceOp>)
        requires
            old(self).wf(),
        ensures
            final(self).wf(),
            final(self)@ == crate::model::session_removed_model(old(self)@, session_id),
            crate::model::cancels_tasks(
                r@,
                old(self)@.tasks,
                crate::model::key_in_session(session_id),
            ),
    {
        let ghost pre = self@;
        let unused_monitor = MonitorId(0);
        let _ = slot_table_purge(&mut self.slots, true, session_id, unused_monitor);
        let _ = slot_table_purge(&mut self.slot_ownership, true, session_id, unused_monitor);
        let removed_tasks = slot_table_purge(&mut self.fence_tasks, true, session_id, unused_monitor);
        surface_table_purge(&mut self.monitor_state, true, session_id, unused_monitor);
        releases_purge(&mut self.deferred_releases, true, session_id, unused_monitor);
        let clear = match self.current_session {
            Some(s) => s == session_id,
            None => false,
        };
        if clear {
            self.current_session = None;
        }
        let mut ops: Vec<FenceOp> = Vec::new();
        let mut i: usize = 0;
        while i < removed_tasks.len()
            invariant
                i <= removed_tasks@.len(),
                ops@ == removed_tasks@.subrange(0, i as int).map_values(crate::model::cancel_op()),
            decreases removed_tasks@.len() - i,
        {
            ops.push(FenceOp::Cancel { task: removed_tasks[i].1 });
            proof {
                assert(removed_tasks@.subrange(0, i + 1).map_values(crate::model::cancel_op())
                    =~= removed_tasks@.subrange(0, i as int).map_values(
                    crate::model::cancel_op(),
                ).push(crate::model::cancel_op()(removed_tasks@[i as int])));
            }
            i = i + 1;
        }
        proof {
            assert(removed_tasks@.subrange(0, removed_tasks@.len() as int) =~= removed_tasks@);
            lemma_cancels_from_purge(
                old(self).fence_tasks@,
                removed_tasks@,
                ops@,
                true,
                session_id,
                unused_monitor,
                crate::model::key_in_session(session_id),
            );
            let m = crate::model::session_removed_model(pre, session_id);
            assert(pre.slots.dom().filter(slot_key_keep(true, session_id, unused_monitor))
                =~= pre.slots.dom().filter(|k: SlotKey| k.session_id != session_id));
            assert(pre.owners.dom().filter(slot_key_keep(true, session_id, unused_monitor))
                =~= pre.owners.dom().filter(|k: SlotKey| k.session_id != session_id));
            assert(pre.tasks.dom().filter(slot_key_keep(true, session_id, unused_monitor))
                =~= pre.tasks.dom().filter(|k: SlotKey| k.session_id != session_id));
            assert(pre.surfaces.dom().filter(surface_key_keep(true, session_id, unused_monitor))
                =~= pre.surfaces.dom().filter(|sk: SurfaceKey| sk.session_id != session_id));
            lemma_filter_congruence(
                pre.releases,
                release_keep(true, session_id, unused_monitor),
                |d: DeferredRelease| d.session_id != session_id,
            );
            assert(self@.slots == m.slots);
            assert(self@.owners == m.owners);
            assert(self@.tasks == m.tasks);
            assert(self@.surfaces == m.surfaces);
            assert(self@.releases == m.releases);
            assert(self@ == m);
            crate::model::lemma_releases_acked_filter(
                pre.releases,
                pre.history,
                release_keep(true, session_id, unused_monitor),
            );
            crate::model::lemma_seq_distinct_filter(
                pre.releases,
                release_keep(true, session_id, unused_monitor),
            );
            crate::model::lemma_surfaces_acked_restrict(
                pre.surfaces,
                pre.history,
                pre.surfaces.dom().filter(surface_key_keep(true, session_id, unused_monitor)),
            );
        }
        ops
    }
}


impl RenderingLayer {
    /// Delivers the deferred buffer releases of one flip cycle (frame
    /// iteration). The `i`-th queued release is handed the `i`-th duplicated
    /// render-completion fence; ownership of each released slot returns to
    /// the client, and one `BufferConsumed` event per queued buffer is
    /// returned, in queueing order.
    pub fn process_deferred_releases(&mut self, release_fences: Vec<Option<i32>>) -> (events: Vec<
        RenderEvt,
    >)
        requires
            old(self).wf(),
            release_fences@.len() == old(self)@.releases.len(),
        ensures
            final(self).wf(),
            ({
                let m = crate::model::process_releases_model(old(self)@, release_fences@);
                &&& final(self)@ == m.post
                &&& events@ == m.events
            }),
    {
        let ghost pre = self@;
        let items = self.deferred_releases.split_off(0);
        proof {
            assert(items@ =~= pre.releases);
            assert(self.deferred_releases@ =~= Seq::<DeferredRelease>::empty());
        }
        let mut events: Vec<RenderEvt> = Vec::new();
        let mut i: usize = 0;
        while i < items.len()
            invariant
                i <= items@.len(),
                items@ == pre.releases,
                release_fences@.len() == items@.len(),
                unique_keys(self.slot_ownership@),
                assoc_map(self.slot_ownership@) == crate::model::owners_after_releases(
                    pre.owners,
                    items@.subrange(0, i as int),
                ),
                events@ == crate::model::consumed_events(
                    items@.subrange(0, i as int),
                    release_fences@.subrange(0, i as int),
                ),
                self.known_monitors@ == pre.known,
                assoc_map(self.monitor_state@) == pre.surfaces,
                assoc_map(self.slots@) == pre.slots,
                assoc_map(self.fence_tasks@) == pre.tasks,
                self.deferred_releases@ == Seq::<DeferredRelease>::empty(),
                self.current_session == pre.session,
                self.next_task == pre.next_task,
                self.history@ == pre.history,
                unique_keys(self.monitor_state@),
                unique_keys(self.slots@),
                unique_keys(self.fence_tasks@),
            decreases items@.len() - i,
        {
            let item = items[i];
            let key = SlotKey {
                monitor_id: item.monitor_id,
                session_id: item.session_id,
                buffer: item.buffer,
            };
            slot_table_insert(&mut self.slot_ownership, key, SlotOwner::Client);
            events.push(RenderEvt::BufferConsumed {
                session_id: item.session_id,
                monitor_id: item.monitor_id,
                buffer: match item.buffer {
                    BufferSlot::Zero => BufferIndex::Zero,
                    BufferSlot::One => BufferIndex::One,
                },
                release_fence: release_fences[i],
            });
            proof {
                let upto = items@.subrange(0, i + 1);
                assert(upto.drop_last() =~= items@.subrange(0, i as int));
                assert(upto.last() == item);
                assert(key == crate::model::release_key(item));
                assert(events@ =~= crate::model::consumed_events(
                    upto,
                    release_fences@.subrange(0, i + 1),
                ));
            }
            i = i + 1;
        }
        proof {
            let m = crate::model::process_releases_model(pre, release_fences@);
            assert(items@.subrange(0, items@.len() as int) =~= items@);
            assert(release_fences@.subrange(0, release_fences@.len() as int) =~= release_fences@);
            assert(events@ == m.events);
        }
        let ghost evs = events@;
        self.history = Ghost(self.history@ + evs);
        proof {
            let m = crate::model::process_releases_model(pre, release_fences@);
            crate::model::lemma_consumed_events_ordered(pre.releases, release_fences@, pre.history);
            crate::model::lemma_ordered_extend(pre.history, evs);
            crate::model::lemma_surfaces_acked_extend(pre.surfaces, pre.history, evs);
            crate::model::lemma_owners_after_releases_dom(pre.owners, pre.releases);
            assert(self@.owners == m.post.owners);
            assert(self@.history == m.post.history);
            assert(self@ == m.post);
        }
        events
    }

    /// Ensures a surface-state entry exists for every listed monitor under
    /// the active session (frame iteration); without an active session
    /// nothing changes.
    pub fn begin_frame(&mut self, monitor_ids: &Vec<MonitorId>)
        requires
            old(self).wf(),
        ensures
            final(self).wf(),
            final(self)@ == (match old(self)@.session {
                Some(session_id) => (LayerView {
                    surfaces: crate::model::seed_surfaces(
                        old(self)@.surfaces,
                        session_id,
                        monitor_ids@,
                    ),
                    ..old(self)@
                }),
                None => old(self)@,
            }),
    {
        let ghost pre = self@;
        let session_id = match self.current_session {
            Some(s) => s,
            None => {
                return ;
            },
        };
        let mut i: usize = 0;
        while i < monitor_ids.len()
            invariant
                i <= monitor_ids@.len(),
                unique_keys(self.monitor_state@),
                assoc_map(self.monitor_state@) == crate::model::seed_surfaces(
                    pre.surfaces,
                    session_id,
                    monitor_ids@.subrange(0, i as int),
                ),
                self.known_monitors@ == pre.known,
                assoc_map(self.slots@) == pre.slots,
                assoc_map(self.slot_ownership@) == pre.owners,
                assoc_map(self.fence_tasks@) == pre.tasks,
                self.deferred_releases@ == pre.releases,
                self.current_session == pre.session,
                pre.session == Some(session_id),
                self.next_task == pre.next_task,
                self.history@ == pre.history,
                unique_keys(self.slots@),
                unique_keys(self.slot_ownership@),
                unique_keys(self.fence_tasks@),
            decreases monitor_ids@.len() - i,
        {
            let sk = SurfaceKey { monitor_id: monitor_ids[i], session_id };
            let present = match surface_table_find(&self.monitor_state, sk) {
                Some(_) => true,
                None => false,
            };
            proof {
                lemma_assoc_map_dom(self.monitor_state@, sk);
            }
            if !present {
                surface_table_insert(
                    &mut self.monitor_state,
                    sk,
                    MonitorSurfaceState { current_buffer: None, pending_buffer: None },
                );
            }
            proof {
                let upto = monitor_ids@.subrange(0, i + 1);
                assert(upto.drop_last() =~= monitor_ids@.subrange(0, i as int));
                assert(upto.last() == monitor_ids@[i as int]);
            }
            i = i + 1;
        }
        proof {
            assert(monitor_ids@.subrange(0, monitor_ids@.len() as int) =~= monitor_ids@);
            crate::model::lemma_seed_surfaces_acked(
                pre.surfaces,
                pre.history,
                session_id,
                monitor_ids@,
            );
        }
    }

    /// The texture registered for a monitor's active session and current
    /// buffer, regardless of ownership.
    pub fn texture_for_monitor(&self, monitor_id: MonitorId) -> (r: Option<TextureId>)
        requires
            self.wf(),
        ensures
            r == crate::model::texture_lookup(self@, monitor_id),
    {
        let session_id = match self.current_session {
            Some(s) => s,
            None => {
                return None;
            },
        };
        let sk = SurfaceKey { monitor_id, session_id };
        let st = match surface_table_get(&self.monitor_state, sk) {
            Some(st) => st,
            None => MonitorSurfaceState { current_buffer: None, pending_buffer: None },
        };
        let buffer = match st.current_buffer {
            Some(b) => b,
            None => {
                return None;
            },
        };
        slot_table_get(&self.slots, SlotKey { monitor_id, session_id, buffer })
    }

    /// The texture a monitor should present this frame: the current buffer
    /// of the active session, provided the compositor owns it (frame
    /// iteration).
    pub fn texture_to_present(&self, monitor_id: MonitorId) -> (r: Option<PresentChoice>)
        requires
            self.wf(),
        ensures
            r == crate::model::present_choice(self@, monitor_id),
    {
        let session_id = match self.current_session {
            Some(s) => s,
            None => {
                return None;
            },
        };
        let sk = SurfaceKey { monitor_id, session_id };
        let st = match surface_table_get(&self.monitor_state, sk) {
            Some(st) => st,
            None => MonitorSurfaceState { current_buffer: None, pending_buffer: None },
        };
        let buffer = match st.current_buffer {
            Some(b) => b,
            None => {
                return None;
            },
        };
        let key = SlotKey { monitor_id, session_id, buffer };
        let owned = match slot_table_get(&self.slot_ownership, key) {
            Some(SlotOwner::Shift) => true,
            _ => false,
        };
        if !owned {
            return None;
        }
        match slot_table_get(&self.slots, key) {
            Some(texture) => Some(PresentChoice { key, texture }),
            None => None,
        }
    }

    /// Installs the textures imported for a client's framebuffer link
    /// (command handling): each slot enters the slot table owned by the
    /// client. A link naming an unknown monitor is dropped.
    pub fn install_linked_buffers(
        &mut self,
        monitor_id: MonitorId,
        session_id: SessionId,
        imported: &Vec<(BufferSlot, TextureId)>,
    ) -> (installed: bool)
        requires
            old(self).wf(),
        ensures
            final(self).wf(),
            installed == known_ids(old(self)@).contains(monitor_id),
            final(self)@ == (if known_ids(old(self)@).contains(monitor_id) {
                crate::model::install_slots_model(old(self)@, monitor_id, session_id, imported@)
            } else {
                old(self)@
            }),
    {
        let ghost pre = self@;
        if !self.monitor_known(monitor_id) {
            return false;
        }
        let mut i: usize = 0;
        while i < imported.len()
            invariant
                i <= imported@.len(),
                unique_keys(self.monitor_state@),
                unique_keys(self.slots@),
                unique_keys(self.slot_ownership@),
                unique_keys(self.fence_tasks@),
                self@ == crate::model::install_slots_model(
                    pre,
                    monitor_id,
                    session_id,
                    imported@.subrange(0, i as int),
                ),
                crate::model::view_wf(self@),
            decreases imported@.len() - i,
        {
            let (slot, texture) = imported[i];
            let key = SlotKey { monitor_id, session_id, buffer: slot };
            slot_table_insert(&mut self.slots, key, texture);
            slot_table_insert(&mut self.slot_ownership, key, SlotOwner::Client);
            proof {
                let upto = imported@.subrange(0, i + 1);
                assert(upto.drop_last() =~= imported@.subrange(0, i as int));
                assert(upto.last() == imported@[i as int]);
            }
            i = i + 1;
        }
        proof {
            assert(imported@.subrange(0, imported@.len() as int) =~= imported@);
        }
        true
    }

    /// Purges the slot table, ownership, deferred releases and fence waits
    /// of an unplugged monitor (hot-unplug), returning the cancellations the
    /// fence scheduler must perform. Its surface states are purged by the
    /// hot-plug reconciliation that detects the removal.
    pub fn cleanup_monitor_slots(&mut self, monitor_id: MonitorId) -> (r: Vec<FenceOp>)
        requires
            old(self).wf(),
        ensures
            final(self).wf(),
            final(self)@ == crate::model::monitor_purged_model(old(self)@, monitor_id),
            crate::model::cancels_tasks(
                r@,
                old(self)@.tasks,
                crate::model::key_on_monitor(monitor_id),
            ),
    {
        let ghost pre = self@;
        let unused_session = SessionId(0);
        let _ = slot_table_purge(&mut self.slots, false, unused_session, monitor_id);
        let _ = slot_table_purge(&mut self.slot_ownership, false, unused_session, monitor_id);
        let removed_tasks = slot_table_purge(&mut self.fence_tasks, false, unused_session, monitor_id);
        releases_purge(&mut self.deferred_releases, false, unused_session, monitor_id);
        let mut ops: Vec<FenceOp> = Vec::new();
        let mut i: usize = 0;
        while i < removed_tasks.len()
            invariant
                i <= removed_tasks@.len(),
                ops@ == removed_tasks@.subrange(0, i as int).map_values(crate::model::cancel_op()),
            decreases removed_tasks@.len() - i,
        {
            ops.push(FenceOp::Cancel { task: removed_tasks[i].1 });
            proof {
                assert(removed_tasks@.subrange(0, i + 1).map_values(crate::model::cancel_op())
                    =~= removed_tasks@.subrange(0, i as int).map_values(
                    crate::model::cancel_op(),
                ).push(crate::model::cancel_op()(removed_tasks@[i as int])));
            }
            i = i + 1;
        }
        proof {
            assert(removed_tasks@.subrange(0, removed_tasks@.len() as int) =~= removed_tasks@);
            lemma_cancels_from_purge(
                old(self).fence_tasks@,
                removed_tasks@,
                ops@,
                false,
                unused_session,
                monitor_id,
                crate::model::key_on_monitor(monitor_id),
            );
            let m = crate::model::monitor_purged_model(pre, monitor_id);
            assert(pre.slots.dom().filter(slot_key_keep(false, unused_session, monitor_id))
                =~= pre.slots.dom().filter(|k: SlotKey| k.monitor_id != monitor_id));
            assert(pre.owners.dom().filter(slot_key_keep(false, unused_session, monitor_id))
                =~= pre.owners.dom().filter(|k: SlotKey| k.monitor_id != monitor_id));
            assert(pre.tasks.dom().filter(slot_key_keep(false, unused_session, monitor_id))
                =~= pre.tasks.dom().filter(|k: SlotKey| k.monitor_id != monitor_id));
            lemma_filter_congruence(
                pre.releases,
                release_keep(false, unused_session, monitor_id),
                |d: DeferredRelease| d.monitor_id != monitor_id,
            );
            assert(self@.slots == m.slots);
            assert(self@.owners == m.owners);
            assert(self@.tasks == m.tasks);
            assert(self@.releases == m.releases);
            assert(self@ == m);
            crate::model::lemma_releases_acked_filter(
                pre.releases,
                pre.history,
                release_keep(false, unused_session, monitor_id),
            );
            crate::model::lemma_seq_distinct_filter(
                pre.releases,
                release_keep(false, unused_session, monitor_id),
            );
        }
        ops
    }
}


/// Keep predicate on slot-table entries: survive the purge of a set of
/// monitors.
pub open spec fn slot_entry_keep_monitors<V>(ids: Seq<MonitorId>) -> spec_fn((SlotKey, V)) -> bool {
    |e: (SlotKey, V)| !ids.contains(e.0.monitor_id)
}

/// Complement of [`slot_entry_keep_monitors`].
pub open spec fn slot_entry_drop_monitors<V>(ids: Seq<MonitorId>) -> spec_fn((SlotKey, V)) -> bool {
    |e: (SlotKey, V)| ids.contains(e.0.monitor_id)
}

/// Keep predicate on slot keys matching [`slot_entry_keep_monitors`].
pub open spec fn slot_key_keep_monitors(ids: Seq<MonitorId>) -> spec_fn(SlotKey) -> bool {
    |k: SlotKey| !ids.contains(k.monitor_id)
}

/// The slot keys a purge of a set of monitors removes.
pub open spec fn key_on_monitors(ids: Seq<MonitorId>) -> spec_fn(SlotKey) -> bool {
    |k: SlotKey| ids.contains(k.monitor_id)
}

/// Keep predicate on surface entries: survive the purge of a set of
/// monitors.
pub open spec fn surface_entry_keep_monitors(
    ids: Seq<MonitorId>,
) -> spec_fn((SurfaceKey, MonitorSurfaceState)) -> bool {
    |e: (SurfaceKey, MonitorSurfaceState)| !ids.contains(e.0.monitor_id)
}

/// Keep predicate on surface keys matching [`surface_entry_keep_monitors`].
pub open spec fn surface_key_keep_monitors(ids: Seq<MonitorId>) -> spec_fn(SurfaceKey) -> bool {
    |k: SurfaceKey| !ids.contains(k.monitor_id)
}

/// Keep predicate on deferred releases: survive the purge of a set of
/// monitors.
pub open spec fn release_keep_monitors(ids: Seq<MonitorId>) -> spec_fn(DeferredRelease) -> bool {
    |d: DeferredRelease| !ids.contains(d.monitor_id)
}

/// Whether an id occurs in an id list.
fn ids_contain(ids: &Vec<MonitorId>, id: MonitorId) -> (r: bool)
    ensures
        r == ids@.contains(id),
{
    let mut i: usize = 0;
    while i < ids.len()
        invariant
            i <= ids@.len(),
            forall|j: int| 0 <= j < i ==> ids@[j] != id,
        decreases ids@.len() - i,
    {
        if ids[i] == id {
            return true;
        }
        i = i + 1;
    }
    false
}

/// Removes every entry whose key names one of the given monitors; returns
/// what was removed, in table order.
fn slot_table_purge_monitors<V: Copy>(
    entries: &mut Vec<(SlotKey, V)>,
    ids: &Vec<MonitorId>,
) -> (removed: Vec<(SlotKey, V)>)
    requires
        unique_keys(old(entries)@),
    ensures
        unique_keys(final(entries)@),
        final(entries)@ == old(entries)@.filter(slot_entry_keep_monitors::<V>(ids@)),
        removed@ == old(entries)@.filter(slot_entry_drop_monitors::<V>(ids@)),
        assoc_map(final(entries)@) == assoc_map(old(entries)@).restrict(
            assoc_map(old(entries)@).dom().filter(slot_key_keep_monitors(ids@)),
        ),
{
    let ghost keep_entry = slot_entry_keep_monitors::<V>(ids@);
    let ghost drop_entry = slot_entry_drop_monitors::<V>(ids@);
    let ghost keep_key = slot_key_keep_monitors(ids@);
    let mut kept: Vec<(SlotKey, V)> = Vec::new();
    let mut dropped: Vec<(SlotKey, V)> = Vec::new();
    let mut i: usize = 0;
    proof {
        reveal(Seq::filter);
        assert(entries@.subrange(0, 0) =~= Seq::<(SlotKey, V)>::empty());
    }
    while i < entries.len()
        invariant
            i <= entries@.len(),
            keep_entry == slot_entry_keep_monitors::<V>(ids@),
            drop_entry == slot_entry_drop_monitors::<V>(ids@),
            kept@ == entries@.subrange(0, i as int).filter(keep_entry),
            dropped@ == entries@.subrange(0, i as int).filter(drop_entry),
        decreases entries@.len() - i,
    {
        let e = entries[i];
        let keep = !ids_contain(ids, e.0.monitor_id);
        proof {
            assert(entries@.subrange(0, i + 1) =~= entries@.subrange(0, i as int).push(e));
            lemma_filter_push(entries@.subrange(0, i as int), keep_entry, e);
            lemma_filter_push(entries@.subrange(0, i as int), drop_entry, e);
            assert(keep == keep_entry(e));
        }
        if keep {
            kept.push(e);
        } else {
            dropped.push(e);
        }
        i = i + 1;
    }
    proof {
        assert(entries@.subrange(0, entries@.len() as int) =~= entries@);
        lemma_assoc_map_filter(entries@, keep_key);
        lemma_filter_congruence(entries@, |e: (SlotKey, V)| keep_key(e.0), keep_entry);
    }
    *entries = kept;
    dropped
}

/// Removes every surface entry that names one of the given monitors.
fn surface_table_purge_monitors(
    entries: &mut Vec<(SurfaceKey, MonitorSurfaceState)>,
    ids: &Vec<MonitorId>,
)
    requires
        unique_keys(old(entries)@),
    ensures
        unique_keys(final(entries)@),
        assoc_map(final(entries)@) == assoc_map(old(entries)@).restrict(
            assoc_map(old(entries)@).dom().filter(surface_key_keep_monitors(ids@)),
        ),
{
    let ghost keep_entry = surface_entry_keep_monitors(ids@);
    let ghost keep_key = surface_key_keep_monitors(ids@);
    let mut kept: Vec<(SurfaceKey, MonitorSurfaceState)> = Vec::new();
    let mut i: usize = 0;
    proof {
        reveal(Seq::filter);
        assert(entries@.subrange(0, 0) =~= Seq::<(SurfaceKey, MonitorSurfaceState)>::empty());
    }
    while i < entries.len()
        invariant
            i <= entries@.len(),
            keep_entry == surface_entry_keep_monitors(ids@),
            kept@ == entries@.subrange(0, i as int).filter(keep_entry),
        decreases entries@.len() - i,
    {
        let e = entries[i];
        let keep = !ids_contain(ids, e.0.monitor_id);
        proof {
            assert(entries@.subrange(0, i + 1) =~= entries@.subrange(0, i as int).push(e));
            lemma_filter_push(entries@.subrange(0, i as int), keep_entry, e);
            assert(keep == keep_entry(e));
        }
        if keep {
            kept.push(e);
        }
        i = i + 1;
    }
    proof {
        assert(entries@.subrange(0, entries@.len() as int) =~= entries@);
        lemma_assoc_map_filter(entries@, keep_key);
        lemma_filter_congruence(
            entries@,
            |e: (SurfaceKey, MonitorSurfaceState)| keep_key(e.0),
            keep_entry,
        );
    }
    *entries = kept;
}

/// Removes every queued release that names one of the given monitors.
fn releases_purge_monitors(rs: &mut Vec<DeferredRelease>, ids: &Vec<MonitorId>)
    ensures
        final(rs)@ == old(rs)@.filter(release_keep_monitors(ids@)),
{
    let ghost keep = release_keep_monitors(ids@);
    let mut kept: Vec<DeferredRelease> = Vec::new();
    let mut i: usize = 0;
    proof {
        reveal(Seq::filter);
        assert(rs@.subrange(0, 0) =~= Seq::<DeferredRelease>::empty());
    }
    while i < rs.len()
        invariant
            i <= rs@.len(),
            keep == release_keep_monitors(ids@),
            kept@ == rs@.subrange(0, i as int).filter(keep),
        decreases rs@.len() - i,
    {
        let d = rs[i];
        let k = !ids_contain(ids, d.monitor_id);
        proof {
            assert(rs@.subrange(0, i + 1) =~= rs@.subrange(0, i as int).push(d));
            lemma_filter_push(rs@.subrange(0, i as int), keep, d);
            assert(k == keep(d));
        }
        if k {
            kept.push(d);
        }
        i = i + 1;
    }
    proof {
        assert(rs@.subrange(0, rs@.len() as int) =~= rs@);
    }
    *rs = kept;
}

/// Purging the fence-wait table by a monitor set cancels exactly the waits
/// of the purged keys.
proof fn lemma_cancels_from_purge_monitors(
    entries: Seq<(SlotKey, TaskId)>,
    removed: Seq<(SlotKey, TaskId)>,
    ops: Seq<FenceOp>,
    ids: Seq<MonitorId>,
)
    requires
        unique_keys(entries),
        removed == entries.filter(slot_entry_drop_monitors::<TaskId>(ids)),
        ops == removed.map_values(crate::model::cancel_op()),
    ensures
        crate::model::cancels_tasks(ops, assoc_map(entries), key_on_monitors(ids)),
{
    let tasks = assoc_map(entries);
    let gone = key_on_monitors(ids);
    let drop_pred = slot_entry_drop_monitors::<TaskId>(ids);
    crate::assoc::lemma_filter_members(entries, drop_pred);
    entries.filter_lemma(drop_pred);
    assert forall|t: int| 0 <= t < ops.len() implies crate::model::cancels_some_gone(
        #[trigger] ops[t],
        tasks,
        gone,
    ) by {
        assert(ops[t] == crate::model::cancel_op()(removed[t]));
        assert(entries.contains(removed[t]));
        let w = choose|w: int| 0 <= w < entries.len() && entries[w] == removed[t];
        lemma_assoc_map_index(entries, w);
        assert(drop_pred(removed[t]));
        assert(tasks.dom().contains(entries[w].0) && gone(entries[w].0) && ops[t]
            == (FenceOp::Cancel { task: tasks[entries[w].0] }));
    }
    assert forall|k: SlotKey| tasks.dom().contains(k) && #[trigger] gone(k)
        implies crate::model::task_cancelled(ops, tasks[k]) by {
        lemma_assoc_map_dom(entries, k);
        let i = choose|i: int| 0 <= i < entries.len() && #[trigger] entries[i].0 == k;
        lemma_assoc_map_index(entries, i);
        assert(drop_pred(entries[i]));
        assert(removed.contains(entries[i]));
        let t = choose|t: int| 0 <= t < removed.len() && removed[t] == entries[i];
        assert(ops[t] == crate::model::cancel_op()(removed[t]));
        assert(ops[t] == (FenceOp::Cancel { task: tasks[k] }));
    }
}

/// What one hot-plug reconciliation produced.
pub struct SyncOutcome {
    /// `MonitorOnline` then `MonitorOffline` announcements, in order.
    pub events: Vec<RenderEvt>,
    /// Cancellations of the fence waits of unplugged monitors.
    pub fence_ops: Vec<FenceOp>,
}

impl RenderingLayer {
    /// Reconciles the monitor set with the one just discovered (hot-plug).
    /// Newly present monitors are announced online; vanished monitors are
    /// announced offline and every slot, ownership, surface, release and
    /// fence-wait entry naming them is purged, their fence waits cancelled.
    pub fn sync_monitors(&mut self, current: Vec<Monitor>) -> (r: SyncOutcome)
        requires
            old(self).wf(),
        ensures
            final(self).wf(),
            ({
                let m = crate::model::sync_model(old(self)@, current@);
                &&& final(self)@ == m.post
                &&& r.events@ == m.events
            }),
            crate::model::cancels_tasks(
                r.fence_ops@,
                old(self)@.tasks,
                key_on_monitors(
                    crate::model::removed_monitors(old(self)@.known, current@).map_values(
                        crate::model::monitor_id_of(),
                    ),
                ),
            ),
    {
        let ghost pre = self@;
        let ghost absent_known = crate::model::absent_from(pre.known);
        let mut events: Vec<RenderEvt> = Vec::new();
        let mut i: usize = 0;
        proof {
            reveal(Seq::filter);
            assert(current@.subrange(0, 0) =~= Seq::<Monitor>::empty());
        }
        while i < current.len()
            invariant
                i <= current@.len(),
                absent_known == crate::model::absent_from(pre.known),
                self.known_monitors@ == pre.known,
                events@ == current@.subrange(0, i as int).filter(absent_known).map_values(
                    crate::model::online_event(),
                ),
            decreases current@.len() - i,
        {
            let m = current[i];
            let fresh = !monitors_contain_id(&self.known_monitors, m.id);
            proof {
                assert(crate::model::ids_of(self.known_monitors@) =~= crate::model::ids_of(
                    pre.known,
                ));
                assert(fresh == absent_known(m));
                let prefix = current@.subrange(0, i as int);
                assert(current@.subrange(0, i + 1) =~= prefix.push(m));
                lemma_filter_push(prefix, absent_known, m);
                if fresh {
                    assert(prefix.push(m).filter(absent_known).map_values(
                        crate::model::online_event(),
                    ) =~= prefix.filter(absent_known).map_values(
                        crate::model::online_event(),
                    ).push(crate::model::online_event()(m)));
                }
            }
            if fresh {
                events.push(RenderEvt::MonitorOnline { monitor: m });
            }
            i = i + 1;
        }
        proof {
            assert(current@.subrange(0, current@.len() as int) =~= current@);
        }
        let ghost onlines = events@;
        let ghost absent_current = crate::model::absent_from(current@);
        let mut removed: Vec<Monitor> = Vec::new();
        let mut j: usize = 0;
        proof {
            assert(self.known_monitors@.subrange(0, 0) =~= Seq::<Monitor>::empty());
        }
        while j < self.known_monitors.len()
            invariant
                j <= self.known_monitors@.len(),
                absent_current == crate::model::absent_from(current@),
                self.known_monitors@ == pre.known,
                removed@ == pre.known.subrange(0, j as int).filter(absent_current),
            decreases self.known_monitors@.len() - j,
        {
            let m = self.known_monitors[j];
            let gone = !monitors_contain_id(&current, m.id);
            proof {
                assert(gone == absent_current(m));
                let prefix = pre.known.subrange(0, j as int);
                assert(pre.known.subrange(0, j + 1) =~= prefix.push(m));
                lemma_filter_push(prefix, absent_current, m);
            }
            if gone {
                removed.push(m);
            }
            j = j + 1;
        }
        proof {
            assert(pre.known.subrange(0, pre.known.len() as int) =~= pre.known);
            assert(removed@ == crate::model::removed_monitors(pre.known, current@));
        }
        let mut gone_ids: Vec<MonitorId> = Vec::new();
        let mut t: usize = 0;
        while t < removed.len()
            invariant
                t <= removed@.len(),
                events@ == onlines + removed@.subrange(0, t as int).map_values(
                    crate::model::offline_event(),
                ),
                gone_ids@ == removed@.subrange(0, t as int).map_values(
                    crate::model::monitor_id_of(),
                ),
            decreases removed@.len() - t,
        {
            let m = removed[t];
            events.push(RenderEvt::MonitorOffline { monitor_id: m.id });
            gone_ids.push(m.id);
            proof {
                let prefix = removed@.subrange(0, t as int);
                assert(removed@.subrange(0, t + 1) =~= prefix.push(m));
                assert(prefix.push(m).map_values(crate::model::offline_event()) =~= prefix.map_values(
                    crate::model::offline_event(),
                ).push(crate::model::offline_event()(m)));
                assert(prefix.push(m).map_values(crate::model::monitor_id_of()) =~= prefix.map_values(
                    crate::model::monitor_id_of(),
                ).push(crate::model::monitor_id_of()(m)));
                assert(onlines + prefix.push(m).map_values(crate::model::offline_event())
                    =~= (onlines + prefix.map_values(crate::model::offline_event())).push(
                    crate::model::offline_event()(m),
                ));
            }
            t = t + 1;
        }
        proof {
            assert(removed@.subrange(0, removed@.len() as int) =~= removed@);
        }
        let _ = slot_table_purge_monitors(&mut self.slots, &gone_ids);
        let _ = slot_table_purge_monitors(&mut self.slot_ownership, &gone_ids);
        let removed_tasks = slot_table_purge_monitors(&mut self.fence_tasks, &gone_ids);
        surface_table_purge_monitors(&mut self.monitor_state, &gone_ids);
        releases_purge_monitors(&mut self.deferred_releases, &gone_ids);
        let mut ops: Vec<FenceOp> = Vec::new();
        let mut u: usize = 0;
        while u < removed_tasks.len()
            invariant
                u <= removed_tasks@.len(),
                ops@ == removed_tasks@.subrange(0, u as int).map_values(crate::model::cancel_op()),
            decreases removed_tasks@.len() - u,
        {
            ops.push(FenceOp::Cancel { task: removed_tasks[u].1 });
            proof {
                assert(removed_tasks@.subrange(0, u + 1).map_values(crate::model::cancel_op())
                    =~= removed_tasks@.subrange(0, u as int).map_values(
                    crate::model::cancel_op(),
                ).push(crate::model::cancel_op()(removed_tasks@[u as int])));
            }
            u = u + 1;
        }
        self.known_monitors = current;
        let ghost evs = events@;
        self.history = Ghost(self.history@ + evs);
        proof {
            assert(removed_tasks@.subrange(0, removed_tasks@.len() as int) =~= removed_tasks@);
            lemma_cancels_from_purge_monitors(
                old(self).fence_tasks@,
                removed_tasks@,
                ops@,
                gone_ids@,
            );
            let m = crate::model::sync_model(pre, current@);
            assert(pre.slots.dom().filter(slot_key_keep_monitors(gone_ids@)) =~= pre.slots.dom().filter(
                |k: SlotKey| !gone_ids@.contains(k.monitor_id),
            ));
            assert(pre.owners.dom().filter(slot_key_keep_monitors(gone_ids@))
                =~= pre.owners.dom().filter(|k: SlotKey| !gone_ids@.contains(k.monitor_id)));
            assert(pre.tasks.dom().filter(slot_key_keep_monitors(gone_ids@))
                =~= pre.tasks.dom().filter(|k: SlotKey| !gone_ids@.contains(k.monitor_id)));
            assert(pre.surfaces.dom().filter(surface_key_keep_monitors(gone_ids@))
                =~= pre.surfaces.dom().filter(|sk: SurfaceKey| !gone_ids@.contains(sk.monitor_id)));
            lemma_filter_congruence(
                pre.releases,
                release_keep_monitors(gone_ids@),
                |d: DeferredRelease| !gone_ids@.contains(d.monitor_id),
            );
            assert(self@.slots == m.post.slots);
            assert(self@.owners == m.post.owners);
            assert(self@.tasks == m.post.tasks);
            assert(self@.surfaces == m.post.surfaces);
            assert(self@.releases == m.post.releases);
            assert(self@.history == m.post.history);
            assert(self@ == m.post);
            crate::model::lemma_releases_acked_filter(
                pre.releases,
                pre.history,
                release_keep_monitors(gone_ids@),
            );
            crate::model::lemma_seq_distinct_filter(
                pre.releases,
                release_keep_monitors(gone_ids@),
            );
            crate::model::lemma_surfaces_acked_restrict(
                pre.surfaces,
                pre.history,
                pre.surfaces.dom().filter(surface_key_keep_monitors(gone_ids@)),
            );
            crate::model::lemma_ordered_extend(pre.history, evs);
            crate::model::lemma_releases_acked_extend(
                pre.releases.filter(release_keep_monitors(gone_ids@)),
                pre.history,
                evs,
            );
            crate::model::lemma_surfaces_acked_extend(
                pre.surfaces.restrict(
                    pre.surfaces.dom().filter(surface_key_keep_monitors(gone_ids@)),
                ),
                pre.history,
                evs,
            );
            assert forall|t2: int, k: SlotKey|
                0 <= t2 < evs.len() && #[trigger] crate::model::is_consumed_for(evs[t2], k)
                implies crate::model::acked(pre.history, k) by {
                if t2 < onlines.len() {
                    assert(evs[t2] == onlines[t2]);
                    let pm = current@.filter(absent_known);
                    assert(onlines[t2] == crate::model::online_event()(pm[t2]));
                } else {
                    let off = removed@.map_values(crate::model::offline_event());
                    assert(evs[t2] == off[t2 - onlines.len()]);
                }
            }
        }
        SyncOutcome { events, fence_ops: ops }
    }
}


impl RenderingLayer {
    /// Dispatches one control-plane command (command handling).
    ///
    /// `Shutdown` asks the loop to stop; `FramebufferLink` is validated and
    /// handed back as an import request (the DMA-BUF import happens at the
    /// GPU boundary, after which the caller installs the textures through
    /// [`RenderingLayer::install_linked_buffers`]); the other commands are
    /// the transitions of this state machine.
    pub fn handle_command(&mut self, cmd: RenderCmd) -> (r: CommandOutcome)
        requires
            old(self).wf(),
            old(self)@.next_task < u64::MAX,
        ensures
            final(self).wf(),
            ({
                match cmd {
                    RenderCmd::Shutdown => {
                        &&& !r.continue_running
                        &&& final(self)@ == old(self)@
                        &&& r.event is None
                        &&& r.fence_ops@ == Seq::<FenceOp>::empty()
                        &&& r.import is None
                    },
                    RenderCmd::SetActiveSession { session_id } => {
                        &&& r.continue_running
                        &&& final(self)@ == (LayerView { session: session_id, ..old(self)@ })
                        &&& r.event is None
                        &&& r.fence_ops@ == Seq::<FenceOp>::empty()
                        &&& r.import is None
                    },
                    RenderCmd::SessionRemoved { session_id } => {
                        &&& r.continue_running
                        &&& final(self)@ == crate::model::session_removed_model(
                            old(self)@,
                            session_id,
                        )
                        &&& crate::model::cancels_tasks(
                            r.fence_ops@,
                            old(self)@.tasks,
                            crate::model::key_in_session(session_id),
                        )
                        &&& r.event is None
                        &&& r.import is None
                    },
                    RenderCmd::SwapBuffers { monitor_id, session_id, buffer, acquire_fence } => ({
                        let m = crate::model::swap_model(
                            old(self)@,
                            monitor_id,
                            session_id,
                            buffer,
                            acquire_fence,
                        );
                        &&& r.continue_running
                        &&& final(self)@ == m.post
                        &&& (match r.event {
                            Some(e) => m.events == seq![e],
                            None => false,
                        })
                        &&& r.fence_ops@ == m.ops
                        &&& r.import is None
                    }),
                    RenderCmd::FramebufferLink { payload, dma_bufs, session_id } => {
                        &&& r.continue_running
                        &&& final(self)@ == old(self)@
                        &&& r.event is None
                        &&& r.fence_ops@ == Seq::<FenceOp>::empty()
                        &&& (match r.import {
                            Some(req) => known_ids(old(self)@).contains(payload.monitor_id)
                                && req.payload == payload && req.session_id == session_id
                                && req.dma_bufs@ == dma_bufs@,
                            None => !known_ids(old(self)@).contains(payload.monitor_id),
                        })
                    },
                }
            }),
    {
        match cmd {
            RenderCmd::Shutdown => CommandOutcome {
                continue_running: false,
                event: None,
                fence_ops: Vec::new(),
                import: None,
            },
            RenderCmd::SetActiveSession { session_id } => {
                self.set_active_session(session_id);
                CommandOutcome {
                    continue_running: true,
                    event: None,
                    fence_ops: Vec::new(),
                    import: None,
                }
            },
            RenderCmd::SessionRemoved { session_id } => {
                let ops = self.handle_session_removed(session_id);
                CommandOutcome {
                    continue_running: true,
                    event: None,
                    fence_ops: ops,
                    import: None,
                }
            },
            RenderCmd::SwapBuffers { monitor_id, session_id, buffer, acquire_fence } => {
                let outcome = self.handle_swap_buffers(monitor_id, session_id, buffer, acquire_fence);
                CommandOutcome {
                    continue_running: true,
                    event: Some(outcome.event),
                    fence_ops: outcome.fence_ops,
                    import: None,
                }
            },
            RenderCmd::FramebufferLink { payload, dma_bufs, session_id } => {
                let import = if self.monitor_known(payload.monitor_id) {
                    Some(ImportRequest { payload, dma_bufs, session_id })
                } else {
                    None
                };
                CommandOutcome { continue_running: true, event: None, fence_ops: Vec::new(), import }
            },
        }
    }
}

// What the state machine guarantees, stated once and proved for every
// reachable state.
impl RenderingLayer {
    /// Ownership exclusivity: every slot present in the slot table has an
    /// owner, and that owner is exactly one of client or compositor.
    pub proof fn lemma_ownership_exclusive(&self)
        requires
            self.wf(),
        ensures
            forall|k: SlotKey|
                #[trigger] self@.slots.dom().contains(k) ==> self@.owners.dom().contains(k) && (
                self@.owners[k] == SlotOwner::Client <==> self@.owners[k] != SlotOwner::Shift),
    {
        assert forall|k: SlotKey| #[trigger] self@.slots.dom().contains(k)
            implies self@.owners.dom().contains(k) && (self@.owners[k] == SlotOwner::Client
            <==> self@.owners[k] != SlotOwner::Shift) by {
            match self@.owners[k] {
                SlotOwner::Client => {},
                SlotOwner::Shift => {},
            }
        }
    }

    /// No double-release: the deferred-release queue never holds the same
    /// buffer twice, so one flip cycle delivers at most one `BufferConsumed`
    /// per displaced buffer.
    pub proof fn lemma_no_double_release(&self)
        requires
            self.wf(),
        ensures
            forall|i: int, j: int|
                0 <= i < j < self@.releases.len() ==> crate::model::release_key(
                    self@.releases[i],
                ) != crate::model::release_key(self@.releases[j]),
    {
        assert forall|i: int, j: int| 0 <= i < j < self@.releases.len()
            implies crate::model::release_key(self@.releases[i]) != crate::model::release_key(
            self@.releases[j],
        ) by {
            assert(self@.releases[i] != self@.releases[j]);
        }
    }

    /// No double-release, seen at the events: the release notifications of
    /// one flip cycle name pairwise-distinct slots, so a displaced buffer is
    /// handed back at most once per cycle.
    pub proof fn lemma_releases_once(&self, fences: Seq<Option<i32>>)
        requires
            self.wf(),
            fences.len() == self@.releases.len(),
        ensures
            ({
                let events = crate::model::process_releases_model(self@, fences).events;
                forall|i: int, j: int|
                    0 <= i < j < events.len() ==> !(exists|k: SlotKey|
                        crate::model::is_consumed_for(#[trigger] events[i], k)
                            && crate::model::is_consumed_for(#[trigger] events[j], k))
            }),
    {
        let events = crate::model::process_releases_model(self@, fences).events;
        assert forall|i: int, j: int| 0 <= i < j < events.len() implies !(exists|k: SlotKey|
            crate::model::is_consumed_for(#[trigger] events[i], k) && crate::model::is_consumed_for(
                #[trigger] events[j],
                k,
            )) by {
            assert(events[i] == crate::events::consumed_event(self@.releases[i], fences[i]));
            assert(events[j] == crate::events::consumed_event(self@.releases[j], fences[j]));
            assert(self@.releases[i] != self@.releases[j]);
            if exists|k: SlotKey|
                crate::model::is_consumed_for(events[i], k) && crate::model::is_consumed_for(
                    events[j],
                    k,
                ) {
                let k = choose|k: SlotKey|
                    crate::model::is_consumed_for(events[i], k) && crate::model::is_consumed_for(
                        events[j],
                        k,
                    );
                assert(crate::model::release_key(self@.releases[i]) == k) by {
                    match self@.releases[i].buffer {
                        BufferSlot::Zero => {},
                        BufferSlot::One => {},
                    }
                }
                assert(crate::model::release_key(self@.releases[j]) == k) by {
                    match self@.releases[j].buffer {
                        BufferSlot::Zero => {},
                        BufferSlot::One => {},
                    }
                }
            }
        }
    }

    /// Ack before consume: every `BufferConsumed` in the emitted history
    /// comes strictly after the `BufferRequestAck` of a swap for its slot.
    pub proof fn lemma_ack_before_consume(&self, j: int, k: SlotKey)
        requires
            self.wf(),
            0 <= j < self@.history.len(),
            crate::model::is_consumed_for(self@.history[j], k),
        ensures
            exists|i: int| 0 <= i < j && is_ack_for(#[trigger] self@.history[i], k),
    {
    }
}

/// Fence suppression: once a session is removed, the later signal of an
/// acquire fence it was waiting on changes nothing at all.
pub proof fn lemma_fence_suppression(v: LayerView, session_id: SessionId, k: SlotKey)
    requires
        k.session_id == session_id,
    ensures
        ({
            let mid = crate::model::session_removed_model(v, session_id);
            crate::model::fence_signaled_model(mid, k) == mid
        }),
{
    let mid = crate::model::session_removed_model(v, session_id);
    let sk = SurfaceKey { monitor_id: k.monitor_id, session_id: k.session_id };
    assert(!mid.tasks.dom().contains(k));
    assert(!mid.surfaces.dom().contains(sk));
}

/// Hot-unplug purity for swap requests: while a monitor is unknown, a swap
/// naming it is rejected with `unknown_monitor` and transitions nothing; the
/// rejection notice itself is the only event that still mentions it.
pub proof fn lemma_hot_unplug_rejects(
    v: LayerView,
    monitor_id: MonitorId,
    session_id: SessionId,
    buffer: BufferIndex,
    acquire_fence: Option<i32>,
)
    requires
        !known_ids(v).contains(monitor_id),
    ensures
        ({
            let m = crate::model::swap_model(v, monitor_id, session_id, buffer, acquire_fence);
            &&& m.events == seq![
                RenderEvt::BufferRequestRejected {
                    session_id,
                    monitor_id,
                    buffer,
                    reason: RejectReason::UnknownMonitor,
                },
            ]
            &&& m.post == (LayerView { history: v.history.push(m.events[0]), ..v })
            &&& m.ops == Seq::<FenceOp>::empty()
        }),
{
}

/// Hot-unplug purity for releases: once a monitor's queued releases are
/// purged, no flip cycle emits a `BufferConsumed` naming it.
pub proof fn lemma_hot_unplug_no_consumed(
    v: LayerView,
    monitor_id: MonitorId,
    fences: Seq<Option<i32>>,
)
    requires
        forall|i: int| 0 <= i < v.releases.len() ==> (#[trigger] v.releases[i]).monitor_id != monitor_id,
    ensures
        ({
            let m = crate::model::process_releases_model(v, fences);
            forall|t: int|
                0 <= t < m.events.len() ==> (match #[trigger] m.events[t] {
                    RenderEvt::BufferConsumed { monitor_id: em, .. } => em != monitor_id,
                    _ => true,
                })
        }),
{
    let m = crate::model::process_releases_model(v, fences);
    assert forall|t: int| 0 <= t < m.events.len() implies (match #[trigger] m.events[t] {
        RenderEvt::BufferConsumed { monitor_id: em, .. } => em != monitor_id,
        _ => true,
    }) by {
        assert(m.events[t] == crate::events::consumed_event(v.releases[t], fences[t]));
    }
}

} // verus!
