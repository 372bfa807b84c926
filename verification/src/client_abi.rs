//! Client-facing ABI values: the protocol's input enumerations, their
//! stable numeric codes, and the fixed-layout event records that cross the
//! language boundary.
//!
//! The numeric codes are part of the ABI; they are produced by the mapping
//! functions here rather than by declared discriminants, so each value is
//! pinned by a contract.

use vstd::prelude::*;

use crate::session_registry::{SessionLifecycle, SessionRole};

verus! {

/// State of a pointer or pad button.
#[derive(Clone, Copy, Debug, PartialEq, Eq, Structural)]
pub enum ButtonState {
    Pressed,
    Released,
}

/// State of a keyboard key.
#[derive(Clone, Copy, Debug, PartialEq, Eq, Structural)]
pub enum KeyState {
    Pressed,
    Released,
}

/// State of a tablet tool tip.
#[derive(Clone, Copy, Debug, PartialEq, Eq, Structural)]
pub enum TipState {
    Down,
    Up,
}

/// Scroll axis orientation.
#[derive(Clone, Copy, Debug, PartialEq, Eq, Structural)]
pub enum AxisOrientation {
    Vertical,
    Horizontal,
}

/// What produced a scroll motion.
#[derive(Clone, Copy, Debug, PartialEq, Eq, Structural)]
pub enum AxisSource {
    Wheel,
    Finger,
    Continuous,
    WheelTilt,
}

/// Kind of a hardware switch.
#[derive(Clone, Copy, Debug, PartialEq, Eq, Structural)]
pub enum SwitchType {
    Lid,
    TabletMode,
}

/// Position of a hardware switch.
#[derive(Clone, Copy, Debug, PartialEq, Eq, Structural)]
pub enum SwitchState {
    On,
    Off,
}

/// Kind of a tablet tool.
#[derive(Clone, Copy, Debug, PartialEq, Eq, Structural)]
pub enum TabletToolType {
    Pen,
    Eraser,
    Brush,
    Pencil,
    Airbrush,
    Finger,
    Mouse,
    Lens,
}

/// What a tablet tool can report.
#[derive(Clone, Copy, Debug, PartialEq, Eq, Structural)]
pub struct TabletToolCapability {
    pub pressure: bool,
    pub distance: bool,
    pub tilt: bool,
    pub rotation: bool,
    pub slider: bool,
    pub wheel: bool,
}

/// A tablet tool as the protocol describes it.
#[derive(Clone, Copy, Debug, PartialEq, Eq, Structural)]
pub struct TabletTool {
    pub serial: u64,
    pub tool_type: TabletToolType,
    pub capability: TabletToolCapability,
}

/// Result of acquiring a frame on the client side.
#[derive(Clone, Copy, Debug, PartialEq, Eq, Structural)]
pub enum TabAcquireResult {
    Success,
    NoBuffers,
    Error,
}

impl TabAcquireResult {
    /// The ABI code of this result.
    pub fn code(&self) -> (r: u32)
        ensures
            r == (match *self {
                TabAcquireResult::Success => 0u32,
                TabAcquireResult::NoBuffers => 1u32,
                TabAcquireResult::Error => 2u32,
            }),
    {
        match self {
            TabAcquireResult::Success => 0,
            TabAcquireResult::NoBuffers => 1,
            TabAcquireResult::Error => 2,
        }
    }
}

/// The kinds of event a client can receive.
#[derive(Clone, Copy, Debug, PartialEq, Eq, Structural)]
pub enum TabEventType {
    BufferReleased,
    MonitorAdded,
    MonitorRemoved,
    SessionState,
    Input,
    SessionCreated,
    SessionAwake,
    SessionSleep,
    SessionActive,
}

impl TabEventType {
    /// The ABI code of this event kind.
    pub fn code(&self) -> (r: u32)
        ensures
            r == (match *self {
                TabEventType::BufferReleased => 0u32,
                TabEventType::MonitorAdded => 1u32,
                TabEventType::MonitorRemoved => 2u32,
                TabEventType::SessionState => 3u32,
                TabEventType::Input => 4u32,
                TabEventType::SessionCreated => 5u32,
                TabEventType::SessionAwake => 6u32,
                TabEventType::SessionSleep => 7u32,
                TabEventType::SessionActive => 8u32,
            }),
    {
        match self {
            TabEventType::BufferReleased => 0,
            TabEventType::MonitorAdded => 1,
            TabEventType::MonitorRemoved => 2,
            TabEventType::SessionState => 3,
            TabEventType::Input => 4,
            TabEventType::SessionCreated => 5,
            TabEventType::SessionAwake => 6,
            TabEventType::SessionSleep => 7,
            TabEventType::SessionActive => 8,
        }
    }
}

/// A session's role.
#[derive(Clone, Copy, Debug, PartialEq, Eq, Structural)]
pub enum TabSessionRole {
    Admin,
    Session,
}

impl TabSessionRole {
    /// The ABI code of this role.
    pub fn code(&self) -> (r: u32)
        ensures
            r == (match *self {
                TabSessionRole::Admin => 0u32,
                TabSessionRole::Session => 1u32,
            }),
    {
        match self {
            TabSessionRole::Admin => 0,
            TabSessionRole::Session => 1,
        }
    }
}

/// A session's lifecycle stage.
#[derive(Clone, Copy, Debug, PartialEq, Eq, Structural)]
pub enum TabSessionLifecycle {
    Pending,
    Loading,
    Occupied,
    Consumed,
}

impl TabSessionLifecycle {
    /// The ABI code of this stage.
    pub fn code(&self) -> (r: u32)
        ensures
            r == (match *self {
                TabSessionLifecycle::Pending => 0u32,
                TabSessionLifecycle::Loading => 1u32,
                TabSessionLifecycle::Occupied => 2u32,
                TabSessionLifecycle::Consumed => 3u32,
            }),
    {
        match self {
            TabSessionLifecycle::Pending => 0,
            TabSessionLifecycle::Loading => 1,
            TabSessionLifecycle::Occupied => 2,
            TabSessionLifecycle::Consumed => 3,
        }
    }
}

/// The kinds of input event in the ABI. Their codes are not contiguous: the
/// numbering reserves gaps the protocol never assigned.
#[derive(Clone, Copy, Debug, PartialEq, Eq, Structural)]
pub enum TabInputEventKind {
    PointerMotion,
    PointerMotionAbsolute,
    PointerButton,
    PointerAxis,
    Key,
    TouchDown,
    TouchUp,
    TouchMotion,
    TouchFrame,
    TouchCancel,
    TabletToolProximity,
    TabletToolAxis,
    TabletToolTip,
    TabletToolButton,
    TabletPadButton,
    TabletPadRing,
    TabletPadStrip,
    SwitchToggle,
    GestureSwipeBegin,
    GestureSwipeUpdate,
    GestureSwipeEnd,
    GesturePinchBegin,
    GesturePinchUpdate,
    GesturePinchEnd,
    GestureHoldBegin,
    GestureHoldEnd,
}

impl TabInputEventKind {
    /// The ABI code of this input kind.
    pub fn code(&self) -> (r: u32)
        ensures
            r == (match *self {
                TabInputEventKind::PointerMotion => 0u32,
                TabInputEventKind::PointerMotionAbsolute => 1u32,
                TabInputEventKind::PointerButton => 2u32,
                TabInputEventKind::PointerAxis => 3u32,
                TabInputEventKind::Key => 6u32,
                TabInputEventKind::TouchDown => 7u32,
                TabInputEventKind::TouchUp => 8u32,
                TabInputEventKind::TouchMotion => 9u32,
                TabInputEventKind::TouchFrame => 10u32,
                TabInputEventKind::TouchCancel => 11u32,
                TabInputEventKind::TabletToolProximity => 12u32,
                TabInputEventKind::TabletToolAxis => 13u32,
                TabInputEventKind::TabletToolTip => 14u32,
                TabInputEventKind::TabletToolButton => 15u32,
                TabInputEventKind::TabletPadButton => 16u32,
                TabInputEventKind::TabletPadRing => 17u32,
                TabInputEventKind::TabletPadStrip => 18u32,
                TabInputEventKind::SwitchToggle => 19u32,
                TabInputEventKind::GestureSwipeBegin => 20u32,
                TabInputEventKind::GestureSwipeUpdate => 21u32,
                TabInputEventKind::GestureSwipeEnd => 22u32,
                TabInputEventKind::GesturePinchBegin => 23u32,
                TabInputEventKind::GesturePinchUpdate => 24u32,
                TabInputEventKind::GesturePinchEnd => 25u32,
                TabInputEventKind::GestureHoldBegin => 26u32,
                TabInputEventKind::GestureHoldEnd => 27u32,
            }),
    {
        match self {
            TabInputEventKind::PointerMotion => 0,
            TabInputEventKind::PointerMotionAbsolute => 1,
            TabInputEventKind::PointerButton => 2,
            TabInputEventKind::PointerAxis => 3,
            TabInputEventKind::Key => 6,
            TabInputEventKind::TouchDown => 7,
            TabInputEventKind::TouchUp => 8,
            TabInputEventKind::TouchMotion => 9,
            TabInputEventKind::TouchFrame => 10,
            TabInputEventKind::TouchCancel => 11,
            TabInputEventKind::TabletToolProximity => 12,
            TabInputEventKind::TabletToolAxis => 13,
            TabInputEventKind::TabletToolTip => 14,
            TabInputEventKind::TabletToolButton => 15,
            TabInputEventKind::TabletPadButton => 16,
            TabInputEventKind::TabletPadRing => 17,
            TabInputEventKind::TabletPadStrip => 18,
            TabInputEventKind::SwitchToggle => 19,
            TabInputEventKind::GestureSwipeBegin => 20,
            TabInputEventKind::GestureSwipeUpdate => 21,
            TabInputEventKind::GestureSwipeEnd => 22,
            TabInputEventKind::GesturePinchBegin => 23,
            TabInputEventKind::GesturePinchUpdate => 24,
            TabInputEventKind::GesturePinchEnd => 25,
            TabInputEventKind::GestureHoldBegin => 26,
            TabInputEventKind::GestureHoldEnd => 27,
        }
    }
}

/// The ABI form of a protocol session role.
pub fn tab_session_role(role: SessionRole) -> (r: TabSessionRole)
    ensures
        r == (match role {
            SessionRole::Admin => TabSessionRole::Admin,
            SessionRole::Session => TabSessionRole::Session,
        }),
{
    match role {
        SessionRole::Admin => TabSessionRole::Admin,
        SessionRole::Session => TabSessionRole::Session,
    }
}

/// The ABI form of a protocol session lifecycle stage.
pub fn tab_session_lifecycle(lifecycle: SessionLifecycle) -> (r: TabSessionLifecycle)
    ensures
        r == (match lifecycle {
            SessionLifecycle::Pending => TabSessionLifecycle::Pending,
            SessionLifecycle::Loading => TabSessionLifecycle::Loading,
            SessionLifecycle::Occupied => TabSessionLifecycle::Occupied,
            SessionLifecycle::Consumed => TabSessionLifecycle::Consumed,
        }),
{
    match lifecycle {
        SessionLifecycle::Pending => TabSessionLifecycle::Pending,
        SessionLifecycle::Loading => TabSessionLifecycle::Loading,
        SessionLifecycle::Occupied => TabSessionLifecycle::Occupied,
        SessionLifecycle::Consumed => TabSessionLifecycle::Consumed,
    }
}

/// The ABI code of a button state.
pub fn tab_button_state(state: ButtonState) -> (r: u32)
    ensures
        r == (match state {
            ButtonState::Pressed => 0u32,
            ButtonState::Released => 1u32,
        }),
{
    match state {
        ButtonState::Pressed => 0,
        ButtonState::Released => 1,
    }
}

/// The ABI code of a key state.
pub fn tab_key_state(state: KeyState) -> (r: u32)
    ensures
        r == (match state {
            KeyState::Pressed => 0u32,
            KeyState::Released => 1u32,
        }),
{
    match state {
        KeyState::Pressed => 0,
        KeyState::Released => 1,
    }
}

/// The ABI code of a tip state.
pub fn tab_tip_state(state: TipState) -> (r: u32)
    ensures
        r == (match state {
            TipState::Down => 0u32,
            TipState::Up => 1u32,
        }),
{
    match state {
        TipState::Down => 0,
        TipState::Up => 1,
    }
}

/// The ABI code of an axis orientation.
pub fn tab_axis_orientation(orientation: AxisOrientation) -> (r: u32)
    ensures
        r == (match orientation {
            AxisOrientation::Vertical => 0u32,
            AxisOrientation::Horizontal => 1u32,
        }),
{
    match orientation {
        AxisOrientation::Vertical => 0,
        AxisOrientation::Horizontal => 1,
    }
}

/// The ABI code of an axis source.
pub fn tab_axis_source(source: AxisSource) -> (r: u32)
    ensures
        r == (match source {
            AxisSource::Wheel => 0u32,
            AxisSource::Finger => 1u32,
            AxisSource::Continuous => 2u32,
            AxisSource::WheelTilt => 3u32,
        }),
{
    match source {
        AxisSource::Wheel => 0,
        AxisSource::Finger => 1,
        AxisSource::Continuous => 2,
        AxisSource::WheelTilt => 3,
    }
}

/// The ABI code of a switch type.
pub fn tab_switch_type(switch: SwitchType) -> (r: u32)
    ensures
        r == (match switch {
            SwitchType::Lid => 0u32,
            SwitchType::TabletMode => 1u32,
        }),
{
    match switch {
        SwitchType::Lid => 0,
        SwitchType::TabletMode => 1,
    }
}

/// The ABI code of a switch state.
pub fn tab_switch_state(state: SwitchState) -> (r: u32)
    ensures
        r == (match state {
            SwitchState::On => 0u32,
            SwitchState::Off => 1u32,
        }),
{
    match state {
        SwitchState::On => 0,
        SwitchState::Off => 1,
    }
}

/// The ABI code of a tablet tool type.
pub fn tablet_tool_type(tool_type: TabletToolType) -> (r: u8)
    ensures
        r == (match tool_type {
            TabletToolType::Pen => 0u8,
            TabletToolType::Eraser => 1u8,
            TabletToolType::Brush => 2u8,
            TabletToolType::Pencil => 3u8,
            TabletToolType::Airbrush => 4u8,
            TabletToolType::Finger => 5u8,
            TabletToolType::Mouse => 6u8,
            TabletToolType::Lens => 7u8,
        }),
{
    match tool_type {
        TabletToolType::Pen => 0,
        TabletToolType::Eraser => 1,
        TabletToolType::Brush => 2,
        TabletToolType::Pencil => 3,
        TabletToolType::Airbrush => 4,
        TabletToolType::Finger => 5,
        TabletToolType::Mouse => 6,
        TabletToolType::Lens => 7,
    }
}

/// A tablet tool in ABI form: serial and tool-type code.
#[derive(Clone, Copy, Debug, PartialEq, Eq, Structural)]
pub struct TabTabletTool {
    pub serial: u64,
    pub tool_type: u8,
}

/// Converts a protocol tablet tool to its ABI form.
pub fn tab_tablet_tool(tool: &TabletTool) -> (r: TabTabletTool)
    ensures
        r.serial == tool.serial,
        r.tool_type == (match tool.tool_type {
            TabletToolType::Pen => 0u8,
            TabletToolType::Eraser => 1u8,
            TabletToolType::Brush => 2u8,
            TabletToolType::Pencil => 3u8,
            TabletToolType::Airbrush => 4u8,
            TabletToolType::Finger => 5u8,
            TabletToolType::Mouse => 6u8,
            TabletToolType::Lens => 7u8,
        }),
{
    TabTabletTool { serial: tool.serial, tool_type: tablet_tool_type(tool.tool_type) }
}

/// A pointer button event record.
#[derive(Clone, Copy, Debug, PartialEq, Eq, Structural)]
pub struct TabInputPointerButton {
    pub device: u32,
    pub time_usec: u64,
    pub button: u32,
    pub state: u32,
}

/// A key event record.
#[derive(Clone, Copy, Debug, PartialEq, Eq, Structural)]
pub struct TabInputKey {
    pub device: u32,
    pub time_usec: u64,
    pub key: u32,
    pub state: u32,
}

/// A touch-up event record.
#[derive(Clone, Copy, Debug, PartialEq, Eq, Structural)]
pub struct TabInputTouchUp {
    pub device: u32,
    pub time_usec: u64,
    pub contact_id: i32,
}

/// A touch-frame event record.
#[derive(Clone, Copy, Debug, PartialEq, Eq, Structural)]
pub struct TabInputTouchFrame {
    pub time_usec: u64,
}

/// A touch-cancel event record.
#[derive(Clone, Copy, Debug, PartialEq, Eq, Structural)]
pub struct TabInputTouchCancel {
    pub time_usec: u64,
}

/// A tablet tool proximity event record.
#[derive(Clone, Copy, Debug, PartialEq, Eq, Structural)]
pub struct TabInputTabletToolProximity {
    pub device: u32,
    pub time_usec: u64,
    pub in_proximity: bool,
    pub tool: TabTabletTool,
}

/// A tablet tool tip event record.
#[derive(Clone, Copy, Debug, PartialEq, Eq, Structural)]
pub struct TabInputTabletToolTip {
    pub device: u32,
    pub time_usec: u64,
    pub tool: TabTabletTool,
    pub state: u32,
}

/// A tablet tool button event record.
#[derive(Clone, Copy, Debug, PartialEq, Eq, Structural)]
pub struct TabInputTabletToolButton {
    pub device: u32,
    pub time_usec: u64,
    pub tool: TabTabletTool,
    pub button: u32,
    pub state: u32,
}

/// A tablet pad button event record.
#[derive(Clone, Copy, Debug, PartialEq, Eq, Structural)]
pub struct TabInputTabletPadButton {
    pub device: u32,
    pub time_usec: u64,
    pub button: u32,
    pub state: u32,
}

/// A switch toggle event record.
#[derive(Clone, Copy, Debug, PartialEq, Eq, Structural)]
pub struct TabInputSwitchToggle {
    pub device: u32,
    pub time_usec: u64,
    pub switch_type: u32,
    pub state: u32,
}

/// A swipe-begin gesture record.
#[derive(Clone, Copy, Debug, PartialEq, Eq, Structural)]
pub struct TabInputGestureSwipeBegin {
    pub device: u32,
    pub time_usec: u64,
    pub fingers: u32,
}

/// A swipe-end gesture record.
#[derive(Clone, Copy, Debug, PartialEq, Eq, Structural)]
pub struct TabInputGestureSwipeEnd {
    pub device: u32,
    pub time_usec: u64,
    pub cancelled: bool,
}

/// A pinch-begin gesture record.
#[derive(Clone, Copy, Debug, PartialEq, Eq, Structural)]
pub struct TabInputGesturePinchBegin {
    pub device: u32,
    pub time_usec: u64,
    pub fingers: u32,
}

/// A pinch-end gesture record.
#[derive(Clone, Copy, Debug, PartialEq, Eq, Structural)]
pub struct TabInputGesturePinchEnd {
    pub device: u32,
    pub time_usec: u64,
    pub cancelled: bool,
}

/// A hold-begin gesture record.
#[derive(Clone, Copy, Debug, PartialEq, Eq, Structural)]
pub struct TabInputGestureHoldBegin {
    pub device: u32,
    pub time_usec: u64,
    pub fingers: u32,
}

/// A hold-end gesture record.
#[derive(Clone, Copy, Debug, PartialEq, Eq, Structural)]
pub struct TabInputGestureHoldEnd {
    pub device: u32,
    pub time_usec: u64,
    pub cancelled: bool,
}

} // verus!
