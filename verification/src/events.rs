//! Commands entering the rendering layer and events it emits, plus the
//! actions it asks its caller to perform on the fence scheduler.

use vstd::prelude::*;

use crate::keys::{
    BufferIndex, BufferSlot, DeferredRelease, Monitor, MonitorId, SessionId, SlotKey, TaskId,
    TextureId,
};

verus! {

/// The buffer slot named by a wire-level buffer index.
pub open spec fn slot_of_index(b: BufferIndex) -> BufferSlot {
    match b {
        BufferIndex::Zero => BufferSlot::Zero,
        BufferIndex::One => BufferSlot::One,
    }
}

/// The wire-level buffer index of a buffer slot.
pub open spec fn index_of_slot(s: BufferSlot) -> BufferIndex {
    match s {
        BufferSlot::Zero => BufferIndex::Zero,
        BufferSlot::One => BufferIndex::One,
    }
}

/// Why a swap request was turned down.
#[derive(Clone, Copy, Debug, PartialEq, Eq, Structural)]
pub enum RejectReason {
    UnknownMonitor,
    UnlinkedBuffer,
}

impl RejectReason {
    /// The reason string carried on the wire.
    pub fn label(&self) -> (r: &'static str)
        ensures
            *self == RejectReason::UnknownMonitor ==> r@ == "unknown_monitor"@,
            *self == RejectReason::UnlinkedBuffer ==> r@ == "unlinked_buffer"@,
    {
        match self {
            RejectReason::UnknownMonitor => "unknown_monitor",
            RejectReason::UnlinkedBuffer => "unlinked_buffer",
        }
    }
}

/// Per-(monitor, session) double-buffer positions: what is being scanned out
/// and what awaits its acquire fence.
#[derive(Clone, Copy, Debug, PartialEq, Eq, Structural)]
pub struct MonitorSurfaceState {
    pub current_buffer: Option<BufferSlot>,
    pub pending_buffer: Option<BufferSlot>,
}

impl Default for MonitorSurfaceState {
    fn default() -> (r: Self)
        ensures
            r.current_buffer is None,
            r.pending_buffer is None,
    {
        MonitorSurfaceState { current_buffer: None, pending_buffer: None }
    }
}

/// Key of a `MonitorSurfaceState` entry.
#[derive(Clone, Copy, Debug, PartialEq, Eq, Structural)]
pub struct SurfaceKey {
    pub monitor_id: MonitorId,
    pub session_id: SessionId,
}

/// Geometry and format of a pair of buffers a client links for a monitor.
#[derive(Clone, Copy, Debug, PartialEq, Eq, Structural)]
pub struct FramebufferLinkPayload {
    pub monitor_id: MonitorId,
    pub width: u32,
    pub height: u32,
    pub stride: u32,
    pub offset: u32,
    pub fourcc: u32,
}

/// Commands arriving from the control plane.
#[derive(Debug)]
pub enum RenderCmd {
    Shutdown,
    FramebufferLink { payload: FramebufferLinkPayload, dma_bufs: [i32; 2], session_id: SessionId },
    SetActiveSession { session_id: Option<SessionId> },
    SessionRemoved { session_id: SessionId },
    SwapBuffers {
        monitor_id: MonitorId,
        session_id: SessionId,
        buffer: BufferIndex,
        acquire_fence: Option<i32>,
    },
}

/// Events emitted back to the control plane.
#[derive(Clone, Debug)]
pub enum RenderEvt {
    Started { monitors: Vec<Monitor> },
    MonitorOnline { monitor: Monitor },
    MonitorOffline { monitor_id: MonitorId },
    FatalError { reason: String },
    PageFlip { monitors: Vec<MonitorId> },
    BufferRequestAck { session_id: SessionId, monitor_id: MonitorId, buffer: BufferIndex },
    BufferRequestRejected {
        session_id: SessionId,
        monitor_id: MonitorId,
        buffer: BufferIndex,
        reason: RejectReason,
    },
    BufferConsumed {
        session_id: SessionId,
        monitor_id: MonitorId,
        buffer: BufferIndex,
        release_fence: Option<i32>,
    },
}

/// An operation the caller must perform on its fence scheduler. Task ids are
/// chosen by the rendering layer; the caller maps them to scheduler handles.
#[derive(Clone, Copy, Debug, PartialEq, Eq, Structural)]
pub enum FenceOp {
    /// Cancel the wait registered under `task`; its callback is suppressed.
    Cancel { task: TaskId },
    /// Wait for `fence_fd`; on signal report the slot back. When `replaces`
    /// names an earlier task, reschedule it (or cancel it and start anew).
    Wait { task: TaskId, fence_fd: i32, replaces: Option<TaskId> },
}

/// What a swap request produced.
pub struct SwapOutcome {
    pub event: RenderEvt,
    pub fence_ops: Vec<FenceOp>,
}

/// A request to import a client's pair of DMA-BUF fds for one monitor; the
/// import itself happens at the GPU boundary outside this crate.
#[derive(Clone, Copy, Debug)]
pub struct ImportRequest {
    pub payload: FramebufferLinkPayload,
    pub dma_bufs: [i32; 2],
    pub session_id: SessionId,
}

/// What handling one command produced.
pub struct CommandOutcome {
    /// False exactly when the command asks the loop to shut down.
    pub continue_running: bool,
    pub event: Option<RenderEvt>,
    pub fence_ops: Vec<FenceOp>,
    pub import: Option<ImportRequest>,
}

/// The event acknowledging an accepted swap request for a slot.
pub open spec fn ack_event(k: SlotKey) -> RenderEvt {
    RenderEvt::BufferRequestAck {
        session_id: k.session_id,
        monitor_id: k.monitor_id,
        buffer: index_of_slot(k.buffer),
    }
}

/// The event emitted when a deferred release is delivered; pairs the slot
/// with the duplicated render-completion fence handed to the consumer.
pub open spec fn consumed_event(item: DeferredRelease, release_fence: Option<i32>) -> RenderEvt {
    RenderEvt::BufferConsumed {
        session_id: item.session_id,
        monitor_id: item.monitor_id,
        buffer: index_of_slot(item.buffer),
        release_fence,
    }
}

/// The texture a monitor should present, if any.
#[derive(Clone, Copy, Debug, PartialEq, Eq, Structural)]
pub struct PresentChoice {
    pub key: SlotKey,
    pub texture: TextureId,
}

} // verus!
