//! Per-output bookkeeping that is independent of the GPU: the monitor
//! identity assigned by the server layer and the frame-rate counter.
//!
//! Time enters as an explicit millisecond clock value, handed in by the
//! caller that owns the real clock.

use vstd::prelude::*;

verus! {

/// Counts frames and reports the count once at least a second has passed.
pub struct FpsCounter {
    last_ms: u64,
    frames: u32,
}

impl FpsCounter {
    /// The clock value of the start of the current counting window.
    pub closed spec fn spec_last_ms(&self) -> u64 {
        self.last_ms
    }

    /// Frames counted in the current window.
    pub closed spec fn spec_frames(&self) -> u32 {
        self.frames
    }

    /// A counter whose window starts now.
    pub fn new(now_ms: u64) -> (r: Self)
        ensures
            r.spec_last_ms() == now_ms,
            r.spec_frames() == 0,
    {
        FpsCounter { last_ms: now_ms, frames: 0 }
    }

    /// Counts one frame. Once a full second has elapsed the window's frame
    /// count and its length in milliseconds are reported and the window
    /// restarts; the caller derives the rate from the pair.
    pub fn tick(&mut self, now_ms: u64) -> (r: Option<(u32, u64)>)
        requires
            old(self).spec_frames() < u32::MAX,
            now_ms >= old(self).spec_last_ms(),
        ensures
            ({
                let counted = (old(self).spec_frames() + 1) as u32;
                let elapsed = (now_ms - old(self).spec_last_ms()) as u64;
                if elapsed >= 1000 {
                    &&& r == Some((counted, elapsed))
                    &&& final(self).spec_last_ms() == now_ms
                    &&& final(self).spec_frames() == 0
                } else {
                    &&& r is None
                    &&& final(self).spec_last_ms() == old(self).spec_last_ms()
                    &&& final(self).spec_frames() == counted
                }
            }),
    {
        self.frames = self.frames + 1;
        let elapsed = now_ms - self.last_ms;
        if elapsed >= 1000 {
            let counted = self.frames;
            self.frames = 0;
            self.last_ms = now_ms;
            Some((counted, elapsed))
        } else {
            None
        }
    }
}

/// Per-output context: the monitor identity the server layer assigned, and
/// the output's frame-rate counter.
pub struct OutputContext {
    monitor_id: Option<String>,
    fps: FpsCounter,
}

impl OutputContext {
    /// The assigned monitor identity, if any.
    pub closed spec fn spec_monitor_id(&self) -> Option<Seq<char>> {
        match self.monitor_id {
            Some(s) => Some(s@),
            None => None,
        }
    }

    /// The output's frame counter.
    pub closed spec fn spec_fps(&self) -> FpsCounter {
        self.fps
    }

    /// A fresh context with no identity and a frame window starting now.
    pub fn new(now_ms: u64) -> (r: Self)
        ensures
            r.spec_monitor_id() is None,
            r.spec_fps().spec_last_ms() == now_ms,
            r.spec_fps().spec_frames() == 0,
    {
        OutputContext { monitor_id: None, fps: FpsCounter::new(now_ms) }
    }

    /// The assigned monitor identity, if any.
    pub fn monitor_id(&self) -> (r: Option<&str>)
        ensures
            match r {
                Some(s) => self.spec_monitor_id() == Some(s@),
                None => self.spec_monitor_id() is None,
            },
    {
        match &self.monitor_id {
            Some(s) => Some(s.as_str()),
            None => None,
        }
    }

    /// Assigns the monitor identity.
    pub fn set_monitor_id(&mut self, id: String)
        ensures
            final(self).spec_monitor_id() == Some(id@),
            final(self).spec_fps() == old(self).spec_fps(),
    {
        self.monitor_id = Some(id);
    }

    /// Counts a presented frame; see [`FpsCounter::tick`].
    pub fn record_frame(&mut self, now_ms: u64) -> (r: Option<(u32, u64)>)
        requires
            old(self).spec_fps().spec_frames() < u32::MAX,
            now_ms >= old(self).spec_fps().spec_last_ms(),
        ensures
            final(self).spec_monitor_id() == old(self).spec_monitor_id(),
            ({
                let counted = (old(self).spec_fps().spec_frames() + 1) as u32;
                let elapsed = (now_ms - old(self).spec_fps().spec_last_ms()) as u64;
                if elapsed >= 1000 {
                    &&& r == Some((counted, elapsed))
                    &&& final(self).spec_fps().spec_last_ms() == now_ms
                    &&& final(self).spec_fps().spec_frames() == 0
                } else {
                    &&& r is None
                    &&& final(self).spec_fps().spec_last_ms() == old(self).spec_fps().spec_last_ms()
                    &&& final(self).spec_fps().spec_frames() == counted
                }
            }),
    {
        self.fps.tick(now_ms)
    }
}

} // verus!
