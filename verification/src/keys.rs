//! Identifiers and small value types shared by the rendering state machine.

use vstd::prelude::*;

use vstd::string::StringExecFns;

use crate::decimal::{dec_chars, u64_to_dec};

verus! {

/// Stable identifier of a physical monitor connector.
#[derive(Clone, Copy, Debug, PartialEq, Eq, Hash, Structural)]
pub struct MonitorId(pub u64);

/// Stable identifier of an authenticated client session.
#[derive(Clone, Copy, Debug, PartialEq, Eq, Hash, Structural)]
pub struct SessionId(pub u64);

/// A client exposes exactly two buffers per monitor (double-buffering).
#[derive(Clone, Copy, Debug, PartialEq, Eq, Hash, Structural)]
pub enum BufferSlot {
    Zero,
    One,
}

/// Buffer index as it travels on the wire.
#[derive(Clone, Copy, Debug, PartialEq, Eq, Hash, Structural)]
pub enum BufferIndex {
    Zero,
    One,
}

/// Primary key for every imported texture.
#[derive(Clone, Copy, Debug, PartialEq, Eq, Hash, Structural)]
pub struct SlotKey {
    pub monitor_id: MonitorId,
    pub session_id: SessionId,
    pub buffer: BufferSlot,
}

impl SlotKey {
    pub fn new(monitor_id: MonitorId, session_id: SessionId, buffer: BufferSlot) -> (r: Self)
        ensures
            r == (SlotKey { monitor_id, session_id, buffer }),
    {
        SlotKey { monitor_id, session_id, buffer }
    }
}

/// Which side may read or write a slot's buffer.
#[derive(Clone, Copy, Debug, PartialEq, Eq, Structural)]
pub enum SlotOwner {
    Client,
    Shift,
}

/// A buffer whose release notification is deferred to the next page flip.
#[derive(Clone, Copy, Debug, PartialEq, Eq, Hash, Structural)]
pub struct DeferredRelease {
    pub monitor_id: MonitorId,
    pub session_id: SessionId,
    pub buffer: BufferSlot,
}

/// Opaque handle to an imported client texture, owned by the caller's
/// rendering backend.
#[derive(Clone, Copy, Debug, PartialEq, Eq, Hash, Structural)]
pub struct TextureId(pub u64);

/// Opaque handle to a fence-wait task in the fence scheduler.
#[derive(Clone, Copy, Debug, PartialEq, Eq, Hash, Structural)]
pub struct TaskId(pub u64);

/// Descriptor of a physical monitor as reported to the control plane. Its
/// display name is derived from the connector: see [`monitor_name`].
#[derive(Clone, Copy, Debug, PartialEq, Eq, Structural)]
pub struct Monitor {
    pub id: MonitorId,
    pub width: i32,
    pub height: i32,
    pub refresh_rate: u32,
    pub connector: u32,
}

impl BufferSlot {
    /// The slot at a raw buffer index; buffer indices outside {0, 1} are
    /// rejected (a `BufferSlot` is a closed two-value domain).
    pub fn from_index(idx: usize) -> (r: Option<Self>)
        ensures
            r == (if idx == 0 {
                Some(BufferSlot::Zero)
            } else if idx == 1 {
                Some(BufferSlot::One)
            } else {
                None::<BufferSlot>
            }),
    {
        match idx {
            0 => Some(BufferSlot::Zero),
            1 => Some(BufferSlot::One),
            _ => None,
        }
    }
}

impl From<BufferIndex> for BufferSlot {
    fn from(value: BufferIndex) -> (r: Self) {
        match value {
            BufferIndex::Zero => BufferSlot::Zero,
            BufferIndex::One => BufferSlot::One,
        }
    }
}

impl vstd::std_specs::convert::FromSpecImpl<BufferIndex> for BufferSlot {
    open spec fn obeys_from_spec() -> bool {
        true
    }

    open spec fn from_spec(value: BufferIndex) -> BufferSlot {
        match value {
            BufferIndex::Zero => BufferSlot::Zero,
            BufferIndex::One => BufferSlot::One,
        }
    }
}

impl From<BufferSlot> for BufferIndex {
    fn from(value: BufferSlot) -> (r: Self) {
        match value {
            BufferSlot::Zero => BufferIndex::Zero,
            BufferSlot::One => BufferIndex::One,
        }
    }
}

impl vstd::std_specs::convert::FromSpecImpl<BufferSlot> for BufferIndex {
    open spec fn obeys_from_spec() -> bool {
        true
    }

    open spec fn from_spec(value: BufferSlot) -> BufferIndex {
        match value {
            BufferSlot::Zero => BufferIndex::Zero,
            BufferSlot::One => BufferIndex::One,
        }
    }
}


/// The display name of a monitor on a connector.
pub open spec fn monitor_name_chars(connector: nat) -> Seq<char> {
    seq!['M', 'o', 'n', 'i', 't', 'o', 'r', ' '] + dec_chars(connector)
}

/// The display name of the monitor on a connector: the word `Monitor`
/// followed by the connector number.
pub fn monitor_name(connector: u32) -> (r: String)
    ensures
        r@ == monitor_name_chars(connector as nat),
{
    let mut out = String::new();
    proof {
        reveal_strlit("Monitor ");
    }
    out.append("Monitor ");
    proof {
        assert(out@ =~= seq!['M', 'o', 'n', 'i', 't', 'o', 'r', ' ']);
    }
    let digits = u64_to_dec(connector as u64);
    out.append(digits.as_str());
    out
}

} // verus!
