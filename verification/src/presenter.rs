//! Per-frame presentation: transition resolution and lifecycle, and the
//! selection of what each monitor draws.
//!
//! Progress and easing values are carried in millionths (one million is a
//! full 1.0), since the state machine itself is exact; the GPU boundary
//! converts to floating point when it draws.

use vstd::prelude::*;

use vstd::string::StringSliceAdditionalSpecFns;

use crate::keys::{MonitorId, SessionId, TextureId};

verus! {

/// A full 1.0 of progress, in millionths.
pub const PROGRESS_ONE: u32 = 1000000;

/// The named, parameter-free transition kinds. Unknown names fall back to
/// the cross-fade.
#[derive(Clone, Copy, Debug, PartialEq, Eq, Structural)]
pub enum TransitionKind {
    CrossFade,
    SlideLeft,
    SlideRight,
    SlideUp,
    SlideDown,
    Blur,
}

/// The lower-case form of an ASCII letter; other bytes are unchanged.
pub open spec fn to_lower(b: u8) -> u8 {
    if 0x41 <= b && b <= 0x5a {
        (b + 0x20) as u8
    } else {
        b
    }
}

/// The keyword selecting the leftward slide.
pub open spec fn kw_slideleft() -> Seq<u8> {
    seq![0x73u8, 0x6cu8, 0x69u8, 0x64u8, 0x65u8, 0x6cu8, 0x65u8, 0x66u8, 0x74u8]
}

/// The keyword selecting the rightward slide.
pub open spec fn kw_slideright() -> Seq<u8> {
    seq![0x73u8, 0x6cu8, 0x69u8, 0x64u8, 0x65u8, 0x72u8, 0x69u8, 0x67u8, 0x68u8, 0x74u8]
}

/// The keyword selecting the upward slide.
pub open spec fn kw_slideup() -> Seq<u8> {
    seq![0x73u8, 0x6cu8, 0x69u8, 0x64u8, 0x65u8, 0x75u8, 0x70u8]
}

/// The keyword selecting the downward slide.
pub open spec fn kw_slidedown() -> Seq<u8> {
    seq![0x73u8, 0x6cu8, 0x69u8, 0x64u8, 0x65u8, 0x64u8, 0x6fu8, 0x77u8, 0x6eu8]
}

/// The keyword selecting the blur fade.
pub open spec fn kw_blur() -> Seq<u8> {
    seq![0x62u8, 0x6cu8, 0x75u8, 0x72u8]
}

/// Whether a name matches a keyword up to ASCII case.
pub open spec fn matches_kw(name: Seq<u8>, kw: Seq<u8>) -> bool {
    name.len() == kw.len() && forall|i: int| 0 <= i < name.len() ==> to_lower(name[i]) == kw[i]
}

/// The transition a name resolves to, case-insensitively; anything else is
/// the cross-fade.
pub open spec fn spec_resolve_transition(name: Seq<u8>) -> TransitionKind {
    if matches_kw(name, kw_slideleft()) {
        TransitionKind::SlideLeft
    } else if matches_kw(name, kw_slideright()) {
        TransitionKind::SlideRight
    } else if matches_kw(name, kw_slideup()) {
        TransitionKind::SlideUp
    } else if matches_kw(name, kw_slidedown()) {
        TransitionKind::SlideDown
    } else if matches_kw(name, kw_blur()) {
        TransitionKind::Blur
    } else {
        TransitionKind::CrossFade
    }
}

/// Whether `name` matches `kw` up to ASCII case.
fn lower_eq(name: &[u8], kw: &Vec<u8>) -> (r: bool)
    ensures
        r == matches_kw(name@, kw@),
{
    if name.len() != kw.len() {
        return false;
    }
    let mut i: usize = 0;
    while i < name.len()
        invariant
            i <= name@.len(),
            name@.len() == kw@.len(),
            forall|j: int| 0 <= j < i ==> to_lower(name@[j]) == kw@[j],
        decreases name@.len() - i,
    {
        let b = name[i];
        let low = if 0x41 <= b && b <= 0x5a {
            b + 0x20
        } else {
            b
        };
        if low != kw[i] {
            return false;
        }
        i = i + 1;
    }
    true
}

/// Resolves an animation name to its transition, case-insensitively;
/// unknown names fall back to the cross-fade.
pub fn resolve_transition(name: &str) -> (r: TransitionKind)
    ensures
        r == spec_resolve_transition(name.spec_bytes()),
{
    let bs = name.as_bytes();
    let slideleft: Vec<u8> = vec![0x73u8, 0x6cu8, 0x69u8, 0x64u8, 0x65u8, 0x6cu8, 0x65u8, 0x66u8, 0x74u8];
    let slideright: Vec<u8> = vec![0x73u8, 0x6cu8, 0x69u8, 0x64u8, 0x65u8, 0x72u8, 0x69u8, 0x67u8, 0x68u8, 0x74u8];
    let slideup: Vec<u8> = vec![0x73u8, 0x6cu8, 0x69u8, 0x64u8, 0x65u8, 0x75u8, 0x70u8];
    let slidedown: Vec<u8> = vec![0x73u8, 0x6cu8, 0x69u8, 0x64u8, 0x65u8, 0x64u8, 0x6fu8, 0x77u8, 0x6eu8];
    let blur: Vec<u8> = vec![0x62u8, 0x6cu8, 0x75u8, 0x72u8];
    proof {
        assert(slideleft@ =~= kw_slideleft());
        assert(slideright@ =~= kw_slideright());
        assert(slideup@ =~= kw_slideup());
        assert(slidedown@ =~= kw_slidedown());
        assert(blur@ =~= kw_blur());
    }
    if lower_eq(bs, &slideleft) {
        TransitionKind::SlideLeft
    } else if lower_eq(bs, &slideright) {
        TransitionKind::SlideRight
    } else if lower_eq(bs, &slideup) {
        TransitionKind::SlideUp
    } else if lower_eq(bs, &slidedown) {
        TransitionKind::SlideDown
    } else if lower_eq(bs, &blur) {
        TransitionKind::Blur
    } else {
        TransitionKind::CrossFade
    }
}

/// Progress clamped to at most 1.0 (values below zero cannot arise here).
pub open spec fn spec_clamp(x: int) -> int {
    if x > 1000000 {
        1000000
    } else {
        x
    }
}

/// The cubic ease-in-out curve in millionths: `4p^3` on the first half,
/// `1 - (-2p + 2)^3 / 2` on the second.
pub open spec fn spec_ease_in_out_cubic(x: int) -> int {
    if x < 500000 {
        4 * (x * x * x) / 1000000000000
    } else {
        1000000 - (2000000 - 2 * x) * (2000000 - 2 * x) * (2000000 - 2 * x) / 2000000000000
    }
}

/// The cubic ease-in-out curve applied to a progress in millionths.
pub fn ease_in_out_cubic(progress: u32) -> (r: u32)
    requires
        progress <= 1000000,
    ensures
        r == spec_ease_in_out_cubic(progress as int),
        r <= 1000000,
{
    let x: u64 = progress as u64;
    if progress < 500000 {
        proof {
            assert(x * x <= 500000u64 * 500000u64 && x * x * x <= 500000u64 * 500000u64
                * 500000u64) by (nonlinear_arith)
                requires
                    x <= 500000u64,
            ;
        }
        let cube: u64 = x * x * x;
        let r64: u64 = 4 * cube / 1000000000000;
        proof {
            assert(4 * cube / 1000000000000 <= 1000000) by (nonlinear_arith)
                requires
                    cube <= 500000u64 * 500000u64 * 500000u64,
            ;
        }
        r64 as u32
    } else {
        let y: u64 = 2000000 - 2 * x;
        proof {
            assert(y * y <= 1000000u64 * 1000000u64 && y * y * y <= 1000000u64 * 1000000u64
                * 1000000u64) by (nonlinear_arith)
                requires
                    y <= 1000000u64,
            ;
            assert(y * y * y / 2000000000000 <= 1000000) by (nonlinear_arith)
                requires
                    y * y * y <= 1000000u64 * 1000000u64 * 1000000u64,
            ;
        }
        let cube: u64 = y * y * y;
        let r64: u64 = 1000000 - cube / 2000000000000;
        r64 as u32
    }
}

/// A two-dimensional translation in millionths of clip-space units.
#[derive(Clone, Copy, Debug, PartialEq, Eq, Structural)]
pub struct Transform2D {
    pub translate_x: i64,
    pub translate_y: i64,
}

impl Transform2D {
    /// No translation.
    pub fn identity() -> (r: Self)
        ensures
            r.translate_x == 0,
            r.translate_y == 0,
    {
        Transform2D { translate_x: 0, translate_y: 0 }
    }
}

/// The direction a slide transition moves the outgoing session.
#[derive(Clone, Copy, Debug, PartialEq, Eq, Structural)]
pub enum SlideDirection {
    Left,
    Right,
    Up,
    Down,
}

/// The transforms of a slide at a given progress (millionths): the primary
/// texture moves off-screen by a full screen's worth of distance in the
/// named direction, the secondary moves in from the opposite side.
pub fn slide_transforms(direction: SlideDirection, progress: u32) -> (r: (Transform2D, Transform2D))
    requires
        progress <= 1000000,
    ensures
        ({
            let out: i64 = (2 * (progress as int)) as i64;
            let inn: i64 = (2 * (1000000 - (progress as int))) as i64;
            let nout: i64 = (-2 * (progress as int)) as i64;
            let ninn: i64 = (-2 * (1000000 - (progress as int))) as i64;
            match direction {
                SlideDirection::Left => r.0 == (Transform2D { translate_x: nout, translate_y: 0 })
                    && r.1 == (Transform2D { translate_x: inn, translate_y: 0 }),
                SlideDirection::Right => r.0 == (Transform2D { translate_x: out, translate_y: 0 })
                    && r.1 == (Transform2D { translate_x: ninn, translate_y: 0 }),
                SlideDirection::Up => r.0 == (Transform2D { translate_x: 0, translate_y: out })
                    && r.1 == (Transform2D { translate_x: 0, translate_y: ninn }),
                SlideDirection::Down => r.0 == (Transform2D { translate_x: 0, translate_y: nout })
                    && r.1 == (Transform2D { translate_x: 0, translate_y: inn }),
            }
        }),
{
    let out: i64 = 2 * (progress as i64);
    let inn: i64 = 2 * (1000000 - (progress as i64));
    match direction {
        SlideDirection::Left => (
            Transform2D { translate_x: -out, translate_y: 0 },
            Transform2D { translate_x: inn, translate_y: 0 },
        ),
        SlideDirection::Right => (
            Transform2D { translate_x: out, translate_y: 0 },
            Transform2D { translate_x: -inn, translate_y: 0 },
        ),
        SlideDirection::Up => (
            Transform2D { translate_x: 0, translate_y: out },
            Transform2D { translate_x: 0, translate_y: -inn },
        ),
        SlideDirection::Down => (
            Transform2D { translate_x: 0, translate_y: -out },
            Transform2D { translate_x: 0, translate_y: inn },
        ),
    }
}

/// The cross-fade transition; its GPU work lives at the drawing boundary.
#[derive(Clone, Copy, Debug, PartialEq, Eq, Structural)]
pub struct CrossFade;

impl CrossFade {
    /// The kind this transition registers under.
    pub fn kind(&self) -> (r: TransitionKind)
        ensures
            r == TransitionKind::CrossFade,
    {
        TransitionKind::CrossFade
    }
}

/// A directional slide transition.
#[derive(Clone, Copy, Debug, PartialEq, Eq, Structural)]
pub struct SlideTransition {
    pub direction: SlideDirection,
}

impl SlideTransition {
    /// A slide in the given direction.
    pub fn new(direction: SlideDirection) -> (r: Self)
        ensures
            r == (SlideTransition { direction }),
    {
        SlideTransition { direction }
    }

    /// The kind this transition registers under.
    pub fn kind(&self) -> (r: TransitionKind)
        ensures
            r == (match self.direction {
                SlideDirection::Left => TransitionKind::SlideLeft,
                SlideDirection::Right => TransitionKind::SlideRight,
                SlideDirection::Up => TransitionKind::SlideUp,
                SlideDirection::Down => TransitionKind::SlideDown,
            }),
    {
        match self.direction {
            SlideDirection::Left => TransitionKind::SlideLeft,
            SlideDirection::Right => TransitionKind::SlideRight,
            SlideDirection::Up => TransitionKind::SlideUp,
            SlideDirection::Down => TransitionKind::SlideDown,
        }
    }
}


/// The transition the control plane reports for this frame: an animation
/// name, a progress in millionths, and the outgoing session.
#[derive(Clone, Debug)]
pub struct RenderTransition {
    pub animation: String,
    pub progress: u32,
    pub previous_session_id: Option<SessionId>,
}

/// What one monitor has available to present this frame.
#[derive(Clone, Copy, Debug, PartialEq, Eq, Structural)]
pub struct MonitorRenderSnapshot {
    pub monitor_id: MonitorId,
    pub active_texture: Option<TextureId>,
    pub previous_texture: Option<TextureId>,
}

/// What the whole frame has available to present.
#[derive(Clone, Debug)]
pub struct RenderSnapshot {
    pub monitors: Vec<MonitorRenderSnapshot>,
    pub transition: Option<RenderTransition>,
    pub active_session_id: Option<SessionId>,
}

/// A transition in flight: its kind and the progress it was last advanced
/// to. Two frames continue the same timeline exactly when their kinds match.
#[derive(Clone, Copy, Debug, PartialEq, Eq, Structural)]
pub struct ActiveTransition {
    pub kind: TransitionKind,
    pub last_progress: u32,
}

impl ActiveTransition {
    /// A transition that has just started.
    pub fn new(kind: TransitionKind) -> (r: Self)
        ensures
            r == (ActiveTransition { kind, last_progress: 0 }),
    {
        ActiveTransition { kind, last_progress: 0 }
    }

    /// Whether `kind` continues this transition's timeline.
    pub fn is_same_transition(&self, kind: TransitionKind) -> (r: bool)
        ensures
            r == (self.kind == kind),
    {
        self.kind == kind
    }

    /// Advances the timeline to `progress` and returns this frame's slice of
    /// it.
    pub fn frame(&mut self, progress: u32) -> (r: TransitionFrame)
        ensures
            *final(self) == (ActiveTransition { kind: old(self).kind, last_progress: progress }),
            r == (TransitionFrame { progress }),
    {
        self.last_progress = progress;
        TransitionFrame { progress }
    }
}

/// One frame's slice of a transition timeline.
#[derive(Clone, Copy, Debug, PartialEq, Eq, Structural)]
pub struct TransitionFrame {
    pub progress: u32,
}

impl TransitionFrame {
    /// A frame at the given progress (millionths).
    pub fn new(progress: u32) -> (r: Self)
        ensures
            r == (TransitionFrame { progress }),
    {
        TransitionFrame { progress }
    }

    /// The raw progress of this frame.
    pub fn progress(&self) -> (r: u32)
        ensures
            r == self.progress,
    {
        self.progress
    }

    /// The timeline's eased value at this frame: the single one-second
    /// cubic ease-in-out animation, with progress clamped into [0, 1].
    pub fn value(&self) -> (r: u32)
        ensures
            r == spec_ease_in_out_cubic(spec_clamp(self.progress as int)),
            r <= 1000000,
    {
        let clamped = if self.progress > 1000000 {
            1000000
        } else {
            self.progress
        };
        ease_in_out_cubic(clamped)
    }
}

/// What a monitor draws this frame.
#[derive(Clone, Copy, Debug, PartialEq, Eq, Structural)]
pub enum DrawPlan {
    /// Blend the outgoing and incoming textures at the eased mix.
    Blend { kind: TransitionKind, previous: TextureId, active: TextureId, eased: u32 },
    /// Draw one texture full-screen.
    Single { texture: TextureId },
    /// Clear to opaque black.
    Clear,
}

/// The transition context the presenter derives for a frame: the resolved
/// transition state after the snapshot is applied, and the kind and progress
/// handed to each monitor's draw.
pub open spec fn spec_transition_context(transition: Option<RenderTransition>) -> (
    Option<ActiveTransition>,
    Option<(TransitionKind, u32)>,
) {
    match transition {
        None => (None::<ActiveTransition>, None::<(TransitionKind, u32)>),
        Some(t) => {
            if t.progress >= 1000000 {
                (None::<ActiveTransition>, None::<(TransitionKind, u32)>)
            } else {
                let kind = spec_resolve_transition(vstd::utf8::encode_utf8(t.animation@));
                (
                    Some(ActiveTransition { kind, last_progress: t.progress }),
                    Some((kind, t.progress)),
                )
            }
        },
    }
}

/// The snapshot entry a monitor presents from; with duplicate entries the
/// later one wins.
pub open spec fn spec_find_snap(mons: Seq<MonitorRenderSnapshot>, id: MonitorId) -> Option<
    MonitorRenderSnapshot,
>
    decreases mons.len(),
{
    if mons.len() == 0 {
        None
    } else if mons.last().monitor_id == id {
        Some(mons.last())
    } else {
        spec_find_snap(mons.drop_last(), id)
    }
}

/// What one monitor draws and which sessions that presents: a transition in
/// flight with both textures and both sessions blends them; otherwise the
/// active texture is drawn, or the tail of a just-ended transition, or the
/// monitor is cleared.
pub open spec fn spec_plan_one(
    snap: MonitorRenderSnapshot,
    ctx: Option<(TransitionKind, u32)>,
    previous_session: Option<SessionId>,
    active_session: Option<SessionId>,
) -> (DrawPlan, Seq<SessionId>) {
    match (ctx, snap.previous_texture, snap.active_texture, previous_session, active_session) {
        (Some((kind, progress)), Some(pt), Some(at), Some(pid), Some(aid)) => (
            DrawPlan::Blend {
                kind,
                previous: pt,
                active: at,
                eased: spec_ease_in_out_cubic(spec_clamp(progress as int)) as u32,
            },
            if pid == aid {
                seq![pid]
            } else {
                seq![pid, aid]
            },
        ),
        _ => {
            match (snap.active_texture, active_session) {
                (Some(t), Some(aid)) => (DrawPlan::Single { texture: t }, seq![aid]),
                _ => {
                    match (snap.previous_texture, previous_session) {
                        (Some(t), Some(pid)) => (DrawPlan::Single { texture: t }, seq![pid]),
                        _ => (DrawPlan::Clear, Seq::<SessionId>::empty()),
                    }
                },
            }
        },
    }
}

/// The draw plans and presented (monitor, session) pairs of one frame, in
/// monitor order; monitors without a snapshot entry are skipped.
pub open spec fn spec_render_plans(
    mons: Seq<MonitorRenderSnapshot>,
    connected: Seq<MonitorId>,
    ctx: Option<(TransitionKind, u32)>,
    previous_session: Option<SessionId>,
    active_session: Option<SessionId>,
) -> (Seq<(MonitorId, DrawPlan)>, Seq<(MonitorId, SessionId)>)
    decreases connected.len(),
{
    if connected.len() == 0 {
        (Seq::<(MonitorId, DrawPlan)>::empty(), Seq::<(MonitorId, SessionId)>::empty())
    } else {
        let (plans, presented) = spec_render_plans(
            mons,
            connected.drop_last(),
            ctx,
            previous_session,
            active_session,
        );
        let id = connected.last();
        match spec_find_snap(mons, id) {
            None => (plans, presented),
            Some(snap) => {
                let (plan, sids) = spec_plan_one(snap, ctx, previous_session, active_session);
                (
                    plans.push((id, plan)),
                    presented + sids.map_values(|s: SessionId| (id, s)),
                )
            },
        }
    }
}

/// Appends a session to the presented list unless it is already there.
pub fn push_presented(list: &mut Vec<SessionId>, id: Option<SessionId>)
    ensures
        id is None ==> final(list)@ == old(list)@,
        id matches Some(s) ==> final(list)@ == (if old(list)@.contains(s) {
            old(list)@
        } else {
            old(list)@.push(s)
        }),
{
    let s = match id {
        Some(s) => s,
        None => {
            return ;
        },
    };
    let mut found = false;
    let mut i: usize = 0;
    while i < list.len() && !found
        invariant
            i <= list@.len(),
            list@ == old(list)@,
            found ==> list@.contains(s),
            !found ==> forall|j: int| 0 <= j < i ==> list@[j] != s,
        decreases list@.len() - i + (if found {
            0int
        } else {
            1int
        }),
    {
        if list[i] == s {
            found = true;
            proof {
                assert(list@[i as int] == s);
                assert(list@.contains(s));
            }
        } else {
            i = i + 1;
        }
    }
    if !found {
        proof {
            assert(!old(list)@.contains(s));
        }
        list.push(s);
    }
}

/// The snapshot entry a monitor presents from, if any.
fn find_snap(mons: &Vec<MonitorRenderSnapshot>, id: MonitorId) -> (r: Option<MonitorRenderSnapshot>)
    ensures
        r == spec_find_snap(mons@, id),
{
    let mut i: usize = mons.len();
    proof {
        assert(mons@.subrange(0, i as int) =~= mons@);
    }
    while i > 0
        invariant
            i <= mons@.len(),
            spec_find_snap(mons@, id) == spec_find_snap(mons@.subrange(0, i as int), id),
        decreases i,
    {
        proof {
            assert(mons@.subrange(0, i as int).last() == mons@[i - 1]);
            assert(mons@.subrange(0, i as int).drop_last() =~= mons@.subrange(0, i - 1));
        }
        if mons[i - 1].monitor_id == id {
            return Some(mons[i - 1]);
        }
        i = i - 1;
    }
    proof {
        assert(mons@.subrange(0, 0) =~= Seq::<MonitorRenderSnapshot>::empty());
    }
    None
}

/// What one monitor draws and which sessions that presents.
fn plan_one(
    snap: MonitorRenderSnapshot,
    ctx: Option<(TransitionKind, u32)>,
    previous_session: Option<SessionId>,
    active_session: Option<SessionId>,
) -> (r: (DrawPlan, Vec<SessionId>))
    ensures
        r.0 == spec_plan_one(snap, ctx, previous_session, active_session).0,
        r.1@ == spec_plan_one(snap, ctx, previous_session, active_session).1,
{
    match (ctx, snap.previous_texture, snap.active_texture, previous_session, active_session) {
        (Some((kind, progress)), Some(pt), Some(at), Some(pid), Some(aid)) => {
            let clamped = if progress > 1000000 {
                1000000
            } else {
                progress
            };
            let eased = ease_in_out_cubic(clamped);
            let mut presented: Vec<SessionId> = Vec::new();
            presented.push(pid);
            if aid != pid {
                presented.push(aid);
            }
            proof {
                if pid == aid {
                    assert(presented@ =~= seq![pid]);
                } else {
                    assert(presented@ =~= seq![pid, aid]);
                }
            }
            (DrawPlan::Blend { kind, previous: pt, active: at, eased }, presented)
        },
        _ => {
            match (snap.active_texture, active_session) {
                (Some(t), Some(aid)) => {
                    let mut presented: Vec<SessionId> = Vec::new();
                    presented.push(aid);
                    proof {
                        assert(presented@ =~= seq![aid]);
                    }
                    (DrawPlan::Single { texture: t }, presented)
                },
                _ => {
                    match (snap.previous_texture, previous_session) {
                        (Some(t), Some(pid)) => {
                            let mut presented: Vec<SessionId> = Vec::new();
                            presented.push(pid);
                            proof {
                                assert(presented@ =~= seq![pid]);
                            }
                            (DrawPlan::Single { texture: t }, presented)
                        },
                        _ => (DrawPlan::Clear, Vec::new()),
                    }
                },
            }
        },
    }
}

/// Per-frame orchestration: resolves the transition lifecycle and selects
/// what each monitor draws.
pub struct FramePresenter {
    active_transition: Option<ActiveTransition>,
}

impl FramePresenter {
    /// A presenter with no transition in flight.
    pub fn new() -> (r: Self)
        ensures
            r.spec_active_transition() is None,
    {
        FramePresenter { active_transition: None }
    }

    /// The transition in flight, if any.
    pub closed spec fn spec_active_transition(&self) -> Option<ActiveTransition> {
        self.active_transition
    }

    /// The transition in flight, if any.
    pub fn active_transition(&self) -> (r: Option<ActiveTransition>)
        ensures
            r == self.spec_active_transition(),
    {
        self.active_transition
    }

    /// Resolves or resets the transition in flight from what the snapshot
    /// carries: a transition with progress below 1.0 keeps or (re)starts the
    /// timeline of its kind and is handed to the monitors; anything else
    /// clears it.
    pub fn transition_context(&mut self, transition: &Option<RenderTransition>) -> (r: Option<
        (TransitionKind, u32),
    >)
        ensures
            final(self).spec_active_transition() == spec_transition_context(
                *transition,
            ).0,
            r == spec_transition_context(*transition).1,
    {
        let t = match transition {
            Some(t) => t,
            None => {
                self.active_transition = None;
                return None;
            },
        };
        if t.progress >= 1000000 {
            self.active_transition = None;
            return None;
        }
        let kind = resolve_transition(t.animation.as_str());
        let needs_reset = match &self.active_transition {
            Some(existing) => !existing.is_same_transition(kind),
            None => true,
        };
        if needs_reset {
            self.active_transition = Some(ActiveTransition::new(kind));
        }
        let active = match &mut self.active_transition {
            Some(a) => a,
            None => {
                return None;
            },
        };
        let frame = active.frame(t.progress);
        Some((kind, frame.progress))
    }

    /// Selects what every connected monitor draws this frame and which
    /// (monitor, session) pairs were presented, applying the transition
    /// lifecycle first.
    pub fn render(&mut self, snapshot: &RenderSnapshot, connected: &Vec<MonitorId>) -> (r: (
        Vec<(MonitorId, DrawPlan)>,
        Vec<(MonitorId, SessionId)>,
    ))
        ensures
            final(self).spec_active_transition() == spec_transition_context(
                snapshot.transition,
            ).0,
            ({
                let ctx = spec_transition_context(snapshot.transition).1;
                let prev_sid = spec_previous_session(snapshot.transition);
                let m = spec_render_plans(
                    snapshot.monitors@,
                    connected@,
                    ctx,
                    prev_sid,
                    snapshot.active_session_id,
                );
                r.0@ == m.0 && r.1@ == m.1
            }),
    {
        let ctx = self.transition_context(&snapshot.transition);
        let previous_session = match &snapshot.transition {
            Some(t) => t.previous_session_id,
            None => None,
        };
        let ghost prev_sid = spec_previous_session(snapshot.transition);
        let mut plans: Vec<(MonitorId, DrawPlan)> = Vec::new();
        let mut presented: Vec<(MonitorId, SessionId)> = Vec::new();
        let mut i: usize = 0;
        while i < connected.len()
            invariant
                i <= connected@.len(),
                ({
                    let m = spec_render_plans(
                        snapshot.monitors@,
                        connected@.subrange(0, i as int),
                        ctx,
                        prev_sid,
                        snapshot.active_session_id,
                    );
                    plans@ == m.0 && presented@ == m.1
                }),
                ctx == spec_transition_context(snapshot.transition).1,
                previous_session == prev_sid,
            decreases connected@.len() - i,
        {
            let id = connected[i];
            proof {
                assert(connected@.subrange(0, i + 1).drop_last() =~= connected@.subrange(
                    0,
                    i as int,
                ));
                assert(connected@.subrange(0, i + 1).last() == id);
            }
            match find_snap(&snapshot.monitors, id) {
                None => {},
                Some(snap) => {
                    let (plan, sids) = plan_one(snap, ctx, previous_session, snapshot.active_session_id);
                    plans.push((id, plan));
                    let mut j: usize = 0;
                    let ghost presented0 = presented@;
                    while j < sids.len()
                        invariant
                            j <= sids@.len(),
                            presented@ == presented0 + sids@.subrange(0, j as int).map_values(
                                |s: SessionId| (id, s),
                            ),
                        decreases sids@.len() - j,
                    {
                        presented.push((id, sids[j]));
                        proof {
                            assert(sids@.subrange(0, j + 1) =~= sids@.subrange(0, j as int).push(
                                sids@[j as int],
                            ));
                            assert(presented0 + sids@.subrange(0, j + 1).map_values(
                                |s: SessionId| (id, s),
                            ) =~= (presented0 + sids@.subrange(0, j as int).map_values(
                                |s: SessionId| (id, s),
                            )).push((id, sids@[j as int])));
                        }
                        j = j + 1;
                    }
                    proof {
                        assert(sids@.subrange(0, sids@.len() as int) =~= sids@);
                        let m1 = spec_plan_one(snap, ctx, prev_sid, snapshot.active_session_id);
                        assert(sids@.map_values(|s: SessionId| (id, s)) == m1.1.map_values(
                            |s: SessionId| (id, s),
                        ));
                    }
                },
            }
            i = i + 1;
        }
        proof {
            assert(connected@.subrange(0, connected@.len() as int) =~= connected@);
        }
        (plans, presented)
    }
}

/// The outgoing session named by a snapshot's transition, if any.
pub open spec fn spec_previous_session(t: Option<RenderTransition>) -> Option<SessionId> {
    match t {
        Some(t) => t.previous_session_id,
        None => None,
    }
}

} // verus!
