//! Supporting pieces: configuration decisions, device identity, derived
//! names, cursor synchronisation, frame counting and ABI codes.

use shift::client_abi::{
    AxisSource, ButtonState, SwitchType, TabEventType, TabInputEventKind, TabSessionLifecycle,
    TabSessionRole, TabletTool, TabletToolCapability, TabletToolType, tab_axis_source,
    tab_button_state, tab_session_lifecycle, tab_session_role, tab_switch_type, tab_tablet_tool,
    tablet_tool_type,
};
use shift::cursor_sync::{CursorInfo, CursorSync};
use shift::decimal::u64_to_dec;
use shift::input_config::{TapButtonMap, device_id, env_bool, tap_button_map_from};
use shift::keys::{MonitorId, SessionId, monitor_name};
use shift::output::{FpsCounter, OutputContext};
use shift::session_registry::{SessionLifecycle, SessionRole};

#[test]
fn boolean_settings_parse_like_the_environment() {
    assert_eq!(env_bool(None, true), true);
    assert_eq!(env_bool(None, false), false);
    assert_eq!(env_bool(Some("0"), true), false);
    assert_eq!(env_bool(Some("false"), true), false);
    assert_eq!(env_bool(Some("OFF"), true), false);
    assert_eq!(env_bool(Some(" no \t"), true), false);
    assert_eq!(env_bool(Some("1"), false), true);
    assert_eq!(env_bool(Some("yes"), false), true);
    assert_eq!(env_bool(Some(""), false), true);
}

#[test]
fn tap_button_map_parses() {
    assert_eq!(tap_button_map_from(None), TapButtonMap::LeftRightMiddle);
    assert_eq!(tap_button_map_from(Some("lmr")), TapButtonMap::LeftMiddleRight);
    assert_eq!(tap_button_map_from(Some("LMR ")), TapButtonMap::LeftMiddleRight);
    assert_eq!(tap_button_map_from(Some("lrm")), TapButtonMap::LeftRightMiddle);
    assert_eq!(tap_button_map_from(Some("what")), TapButtonMap::LeftRightMiddle);
}

#[test]
fn device_identity_is_a_nonzero_hash() {
    assert_eq!(device_id("event0"), 3587736445);
    assert_eq!(device_id(""), 2166136261);
    assert_ne!(device_id("event0"), device_id("event1"));
}

#[test]
fn derived_monitor_names_and_decimals() {
    assert_eq!(monitor_name(42), "Monitor 42");
    assert_eq!(monitor_name(0), "Monitor 0");
    assert_eq!(u64_to_dec(0), "0");
    assert_eq!(u64_to_dec(907), "907");
    assert_eq!(u64_to_dec(18446744073709551615), "18446744073709551615");
}

#[test]
fn cursor_sync_skips_redundant_uploads() {
    let mut sync = CursorSync::new();
    let cursor = CursorInfo { image_hash: 11, x: 5, y: 6, width: 32, height: 32 };
    // first sight: upload and position
    let plan = sync.sync_one(MonitorId(1), SessionId(2), true, Some(cursor));
    assert!(plan.upload && plan.set_position && !plan.remove);
    // same image, new position: position only
    let moved = CursorInfo { x: 9, ..cursor };
    let plan = sync.sync_one(MonitorId(1), SessionId(2), true, Some(moved));
    assert!(!plan.upload && plan.set_position && !plan.remove);
    // nothing changed: nothing to do
    let plan = sync.sync_one(MonitorId(1), SessionId(2), true, Some(moved));
    assert!(!plan.upload && !plan.set_position && !plan.remove);
    // new image at the same spot: upload only
    let repainted = CursorInfo { image_hash: 12, ..moved };
    let plan = sync.sync_one(MonitorId(1), SessionId(2), true, Some(repainted));
    assert!(plan.upload && !plan.set_position && !plan.remove);
    // the cursor goes away: remove once, then nothing
    let plan = sync.sync_one(MonitorId(1), SessionId(2), true, None);
    assert!(!plan.upload && !plan.set_position && plan.remove);
    let plan = sync.sync_one(MonitorId(1), SessionId(2), true, None);
    assert!(!plan.remove);
}

#[test]
fn fps_counter_reports_each_full_second() {
    let mut fps = FpsCounter::new(1000);
    assert_eq!(fps.tick(1300), None);
    assert_eq!(fps.tick(1700), None);
    assert_eq!(fps.tick(2100), Some((3, 1100)));
    assert_eq!(fps.tick(2500), None);
    assert_eq!(fps.tick(3200), Some((2, 1100)));
}

#[test]
fn output_context_tracks_identity_and_frames() {
    let mut ctx = OutputContext::new(0);
    assert_eq!(ctx.monitor_id(), None);
    ctx.set_monitor_id("mon_7".to_string());
    assert_eq!(ctx.monitor_id(), Some("mon_7"));
    assert_eq!(ctx.record_frame(250), None);
    assert_eq!(ctx.record_frame(1000), Some((2, 1000)));
}

#[test]
fn abi_codes_match_the_protocol() {
    assert_eq!(TabEventType::BufferReleased.code(), 0);
    assert_eq!(TabEventType::SessionActive.code(), 8);
    assert_eq!(TabInputEventKind::PointerAxis.code(), 3);
    assert_eq!(TabInputEventKind::Key.code(), 6);
    assert_eq!(TabInputEventKind::GestureHoldEnd.code(), 27);
    assert_eq!(tab_button_state(ButtonState::Pressed), 0);
    assert_eq!(tab_button_state(ButtonState::Released), 1);
    assert_eq!(tab_axis_source(AxisSource::WheelTilt), 3);
    assert_eq!(tab_switch_type(SwitchType::TabletMode), 1);
    assert_eq!(
        tab_session_role(SessionRole::Admin),
        TabSessionRole::Admin
    );
    assert_eq!(
        tab_session_lifecycle(SessionLifecycle::Occupied),
        TabSessionLifecycle::Occupied
    );
    assert_eq!(tablet_tool_type(TabletToolType::Lens), 7);
    let tool = TabletTool {
        serial: 99,
        tool_type: TabletToolType::Eraser,
        capability: TabletToolCapability {
            pressure: true,
            distance: false,
            tilt: true,
            rotation: false,
            slider: false,
            wheel: false,
        },
    };
    let abi = tab_tablet_tool(&tool);
    assert_eq!(abi.serial, 99);
    assert_eq!(abi.tool_type, 1);
}
