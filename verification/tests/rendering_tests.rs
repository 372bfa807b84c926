//! End-to-end scenarios on the rendering state machine.

use shift::events::{FenceOp, MonitorSurfaceState, RejectReason, RenderCmd, RenderEvt};
use shift::keys::{BufferIndex, BufferSlot, Monitor, MonitorId, SessionId, SlotKey, SlotOwner, TextureId};
use shift::rendering_layer::RenderingLayer;

fn monitor(id: u64) -> Monitor {
    Monitor {
        id: MonitorId(id),
        width: 1920,
        height: 1080,
        refresh_rate: 60,
        connector: id as u32,
    }
}

fn link(layer: &mut RenderingLayer, m: u64, s: u64) {
    let imported = vec![
        (BufferSlot::Zero, TextureId(100 + m * 10 + s)),
        (BufferSlot::One, TextureId(200 + m * 10 + s)),
    ];
    assert!(layer.install_linked_buffers(MonitorId(m), SessionId(s), &imported));
}

#[test]
fn link_and_swap_without_fence() {
    let mut layer = RenderingLayer::new();
    let started = layer.start(vec![monitor(1)]);
    assert!(matches!(started, RenderEvt::Started { .. }));
    link(&mut layer, 1, 5);
    layer.set_active_session(Some(SessionId(5)));
    let outcome =
        layer.handle_swap_buffers(MonitorId(1), SessionId(5), BufferIndex::Zero, None);
    assert!(matches!(
        outcome.event,
        RenderEvt::BufferRequestAck {
            session_id: SessionId(5),
            monitor_id: MonitorId(1),
            buffer: BufferIndex::Zero,
        }
    ));
    let state = layer.surface_state(MonitorId(1), SessionId(5)).unwrap();
    assert_eq!(state.current_buffer, Some(BufferSlot::Zero));
    assert_eq!(state.pending_buffer, None);
    let key = SlotKey::new(MonitorId(1), SessionId(5), BufferSlot::Zero);
    assert_eq!(layer.slot_owner(key), Some(SlotOwner::Shift));
    // no prior slot was displaced, so the next flip cycle has nothing to
    // release
    assert_eq!(layer.pending_release_count(), 0);
    let events = layer.process_deferred_releases(vec![]);
    assert!(events.is_empty());
    // the compositor now presents the swapped-in texture
    let choice = layer.texture_to_present(MonitorId(1)).unwrap();
    assert_eq!(choice.texture, TextureId(115));
}

#[test]
fn swap_with_fence_signalling_late() {
    let mut layer = RenderingLayer::new();
    layer.start(vec![monitor(1)]);
    link(&mut layer, 1, 5);
    layer.set_active_session(Some(SessionId(5)));
    // first swap brings Zero in without a fence, so it becomes current
    layer.handle_swap_buffers(MonitorId(1), SessionId(5), BufferIndex::Zero, None);
    layer.process_deferred_releases(vec![]);
    // a fenced swap of Zero again, then of One before the first fence fires
    let first =
        layer.handle_swap_buffers(MonitorId(1), SessionId(5), BufferIndex::Zero, Some(31));
    assert_eq!(first.fence_ops.len(), 1);
    let first_task = match first.fence_ops[0] {
        FenceOp::Wait { task, fence_fd, replaces } => {
            assert_eq!(fence_fd, 31);
            assert_eq!(replaces, None);
            task
        }
        _ => panic!("expected a fence wait"),
    };
    let second =
        layer.handle_swap_buffers(MonitorId(1), SessionId(5), BufferIndex::One, Some(32));
    // the pending Zero is displaced: its wait is cancelled and it is queued
    // for release; One waits on the new fence
    assert_eq!(second.fence_ops.len(), 2);
    assert!(matches!(second.fence_ops[0], FenceOp::Cancel { task } if task == first_task));
    assert!(matches!(
        second.fence_ops[1],
        FenceOp::Wait { fence_fd: 32, replaces: None, .. }
    ));
    let state = layer.surface_state(MonitorId(1), SessionId(5)).unwrap();
    assert_eq!(state.pending_buffer, Some(BufferSlot::One));
    assert_eq!(state.current_buffer, Some(BufferSlot::Zero));
    // the second fence signals: One is promoted, Zero queued for release
    let key_one = SlotKey::new(MonitorId(1), SessionId(5), BufferSlot::One);
    layer.handle_fence_signaled(key_one);
    let state = layer.surface_state(MonitorId(1), SessionId(5)).unwrap();
    assert_eq!(state.current_buffer, Some(BufferSlot::One));
    assert_eq!(state.pending_buffer, None);
    assert_eq!(layer.pending_release_count(), 1);
    let events = layer.process_deferred_releases(vec![Some(77)]);
    assert_eq!(events.len(), 1);
    assert!(matches!(
        events[0],
        RenderEvt::BufferConsumed {
            session_id: SessionId(5),
            monitor_id: MonitorId(1),
            buffer: BufferIndex::Zero,
            release_fence: Some(77),
        }
    ));
    // ownership of the released buffer returned to the client
    let key_zero = SlotKey::new(MonitorId(1), SessionId(5), BufferSlot::Zero);
    assert_eq!(layer.slot_owner(key_zero), Some(SlotOwner::Client));
}

#[test]
fn swap_for_unknown_monitor_is_rejected() {
    let mut layer = RenderingLayer::new();
    layer.start(vec![monitor(1)]);
    link(&mut layer, 1, 5);
    let outcome =
        layer.handle_swap_buffers(MonitorId(9), SessionId(5), BufferIndex::Zero, None);
    assert!(matches!(
        outcome.event,
        RenderEvt::BufferRequestRejected {
            reason: RejectReason::UnknownMonitor,
            ..
        }
    ));
    assert!(outcome.fence_ops.is_empty());
    // the slot table is untouched
    let key = SlotKey::new(MonitorId(1), SessionId(5), BufferSlot::Zero);
    assert!(layer.slot_texture(key).is_some());
    assert_eq!(layer.surface_state(MonitorId(9), SessionId(5)), None);
}

#[test]
fn swap_for_unlinked_buffer_is_rejected() {
    let mut layer = RenderingLayer::new();
    layer.start(vec![monitor(1)]);
    let outcome =
        layer.handle_swap_buffers(MonitorId(1), SessionId(5), BufferIndex::Zero, None);
    assert!(matches!(
        outcome.event,
        RenderEvt::BufferRequestRejected {
            reason: RejectReason::UnlinkedBuffer,
            ..
        }
    ));
}

#[test]
fn session_removed_mid_flight_suppresses_the_fence() {
    let mut layer = RenderingLayer::new();
    layer.start(vec![monitor(1)]);
    link(&mut layer, 1, 5);
    layer.set_active_session(Some(SessionId(5)));
    let outcome =
        layer.handle_swap_buffers(MonitorId(1), SessionId(5), BufferIndex::Zero, Some(40));
    assert_eq!(outcome.fence_ops.len(), 1);
    let ops = layer.handle_session_removed(SessionId(5));
    // the pending wait is cancelled
    assert_eq!(ops.len(), 1);
    assert!(matches!(ops[0], FenceOp::Cancel { .. }));
    assert_eq!(layer.current_session(), None);
    // the fence signals late: nothing changes and nothing is consumed
    let key = SlotKey::new(MonitorId(1), SessionId(5), BufferSlot::Zero);
    layer.handle_fence_signaled(key);
    assert_eq!(layer.surface_state(MonitorId(1), SessionId(5)), None);
    assert_eq!(layer.pending_release_count(), 0);
    let events = layer.process_deferred_releases(vec![]);
    assert!(events.is_empty());
    assert_eq!(layer.slot_texture(key), None);
}

#[test]
fn hot_unplug_purges_the_monitor() {
    let mut layer = RenderingLayer::new();
    layer.start(vec![monitor(1), monitor(2)]);
    link(&mut layer, 1, 5);
    link(&mut layer, 2, 5);
    layer.set_active_session(Some(SessionId(5)));
    layer.handle_swap_buffers(MonitorId(1), SessionId(5), BufferIndex::Zero, None);
    layer.handle_swap_buffers(MonitorId(2), SessionId(5), BufferIndex::Zero, None);
    layer.process_deferred_releases(vec![]);
    // the second monitor disappears
    let sync = layer.sync_monitors(vec![monitor(1)]);
    assert_eq!(sync.events.len(), 1);
    assert!(matches!(
        sync.events[0],
        RenderEvt::MonitorOffline {
            monitor_id: MonitorId(2)
        }
    ));
    // only entries of the surviving monitor remain
    let kept = SlotKey::new(MonitorId(1), SessionId(5), BufferSlot::Zero);
    let gone = SlotKey::new(MonitorId(2), SessionId(5), BufferSlot::Zero);
    assert!(layer.slot_texture(kept).is_some());
    assert_eq!(layer.slot_texture(gone), None);
    assert_eq!(layer.surface_state(MonitorId(2), SessionId(5)), None);
    assert!(layer.surface_state(MonitorId(1), SessionId(5)).is_some());
    assert!(!layer.monitor_known(MonitorId(2)));
    // a later swap naming the unplugged monitor only draws a rejection
    let outcome =
        layer.handle_swap_buffers(MonitorId(2), SessionId(5), BufferIndex::Zero, None);
    assert!(matches!(
        outcome.event,
        RenderEvt::BufferRequestRejected {
            reason: RejectReason::UnknownMonitor,
            ..
        }
    ));
}

#[test]
fn hot_plug_announces_new_monitors() {
    let mut layer = RenderingLayer::new();
    layer.start(vec![monitor(1)]);
    let sync = layer.sync_monitors(vec![monitor(1), monitor(3)]);
    assert_eq!(sync.events.len(), 1);
    assert!(matches!(
        &sync.events[0],
        RenderEvt::MonitorOnline { monitor } if monitor.id == MonitorId(3)
    ));
    assert!(layer.monitor_known(MonitorId(3)));
}

#[test]
fn handle_command_dispatches_shutdown_and_link() {
    let mut layer = RenderingLayer::new();
    layer.start(vec![monitor(1)]);
    let outcome = layer.handle_command(RenderCmd::Shutdown);
    assert!(!outcome.continue_running);
    let payload = shift::events::FramebufferLinkPayload {
        monitor_id: MonitorId(1),
        width: 1920,
        height: 1080,
        stride: 7680,
        offset: 0,
        fourcc: 0x34325258,
    };
    let outcome = layer.handle_command(RenderCmd::FramebufferLink {
        payload,
        dma_bufs: [10, 11],
        session_id: SessionId(5),
    });
    assert!(outcome.continue_running);
    let req = outcome.import.unwrap();
    assert_eq!(req.payload.width, 1920);
    assert_eq!(req.dma_bufs, [10, 11]);
    // a link naming an unknown monitor is dropped silently
    let unknown = shift::events::FramebufferLinkPayload {
        monitor_id: MonitorId(9),
        ..payload
    };
    let outcome = layer.handle_command(RenderCmd::FramebufferLink {
        payload: unknown,
        dma_bufs: [12, 13],
        session_id: SessionId(5),
    });
    assert!(outcome.import.is_none());
}

#[test]
fn begin_frame_seeds_surface_entries() {
    let mut layer = RenderingLayer::new();
    layer.start(vec![monitor(1)]);
    layer.set_active_session(Some(SessionId(5)));
    assert_eq!(layer.surface_state(MonitorId(1), SessionId(5)), None);
    layer.begin_frame(&vec![MonitorId(1)]);
    assert_eq!(
        layer.surface_state(MonitorId(1), SessionId(5)),
        Some(MonitorSurfaceState {
            current_buffer: None,
            pending_buffer: None
        })
    );
}

#[test]
fn displaced_buffer_released_once_per_cycle() {
    let mut layer = RenderingLayer::new();
    layer.start(vec![monitor(1)]);
    link(&mut layer, 1, 5);
    layer.set_active_session(Some(SessionId(5)));
    layer.handle_swap_buffers(MonitorId(1), SessionId(5), BufferIndex::Zero, None);
    // swapping One twice displaces Zero only once
    layer.handle_swap_buffers(MonitorId(1), SessionId(5), BufferIndex::One, None);
    layer.handle_swap_buffers(MonitorId(1), SessionId(5), BufferIndex::One, None);
    assert_eq!(layer.pending_release_count(), 1);
    let events = layer.process_deferred_releases(vec![None]);
    assert_eq!(events.len(), 1);
    assert!(matches!(
        events[0],
        RenderEvt::BufferConsumed {
            buffer: BufferIndex::Zero,
            release_fence: None,
            ..
        }
    ));
}
