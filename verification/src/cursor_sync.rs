//! Hardware cursor synchronisation: per-(monitor, session) tracking of the
//! cursor image hash and position, used to skip redundant buffer uploads.
//!
//! The decisions live here; performing the uploads, moves and removals is
//! display-hardware work at the caller's boundary.

use vstd::prelude::*;

use crate::assoc::{
    assoc_map, lemma_assoc_map_dom, lemma_assoc_map_index, lemma_assoc_map_push,
    lemma_assoc_map_remove, lemma_assoc_map_update, unique_keys,
};
use crate::events::SurfaceKey;
use crate::keys::{MonitorId, SessionId};

verus! {

/// The cursor state last pushed to the hardware for one (monitor, session).
#[derive(Clone, Copy, Debug, PartialEq, Eq, Structural)]
pub struct CursorTrack {
    pub image_hash: u64,
    pub x: i32,
    pub y: i32,
}

/// The cursor a session currently wants shown on a monitor.
#[derive(Clone, Copy, Debug, PartialEq, Eq, Structural)]
pub struct CursorInfo {
    pub image_hash: u64,
    pub x: i32,
    pub y: i32,
    pub width: u32,
    pub height: u32,
}

/// What the hardware must be asked to do for one cursor.
#[derive(Clone, Copy, Debug, PartialEq, Eq, Structural)]
pub struct CursorPlan {
    /// Re-upload the cursor buffer (the image changed or is new).
    pub upload: bool,
    /// Update the cursor position.
    pub set_position: bool,
    /// Remove the hardware cursor.
    pub remove: bool,
}

/// Finds the tracking entry of a (monitor, session) pair.
fn track_find(entries: &Vec<(SurfaceKey, CursorTrack)>, key: SurfaceKey) -> (r: Option<usize>)
    ensures
        match r {
            Some(i) => 0 <= i < entries@.len() && entries@[i as int].0 == key,
            None => forall|j: int| 0 <= j < entries@.len() ==> (#[trigger] entries@[j]).0 != key,
        },
{
    let mut i: usize = 0;
    while i < entries.len()
        invariant
            i <= entries@.len(),
            forall|j: int| 0 <= j < i ==> (#[trigger] entries@[j]).0 != key,
        decreases entries@.len() - i,
    {
        if entries[i].0 == key {
            return Some(i);
        }
        i = i + 1;
    }
    None
}

/// Tracks previous cursor image hashes and positions per (monitor, session)
/// to detect when the image itself changed as opposed to just the position.
pub struct CursorSync {
    state: Vec<(SurfaceKey, CursorTrack)>,
}

impl CursorSync {
    /// The tracked state as a map.
    pub closed spec fn tracks(&self) -> Map<SurfaceKey, CursorTrack> {
        assoc_map(self.state@)
    }

    /// Each pair is tracked at most once.
    pub closed spec fn wf(&self) -> bool {
        unique_keys(self.state@)
    }

    /// A cursor sync manager with nothing tracked.
    pub fn new() -> (r: Self)
        ensures
            r.wf(),
            r.tracks() == Map::<SurfaceKey, CursorTrack>::empty(),
    {
        let r = CursorSync { state: Vec::new() };
        proof {
            assert(assoc_map(r.state@) =~= Map::<SurfaceKey, CursorTrack>::empty());
        }
        r
    }

    /// Synchronises one (monitor, session) pair of the active session.
    ///
    /// With a cursor present: the buffer is re-uploaded when the image hash
    /// is new or changed, the position is updated when it is new or moved,
    /// and the tracked state is advanced — but only when the monitor was
    /// found on the hardware; an absent monitor merely seeds an empty track.
    /// Without a cursor: the track is dropped, and the hardware cursor is
    /// removed when something was tracked and the monitor is present.
    pub fn sync_one(
        &mut self,
        monitor_id: MonitorId,
        session_id: SessionId,
        monitor_present: bool,
        cursor: Option<CursorInfo>,
    ) -> (r: CursorPlan)
        requires
            old(self).wf(),
        ensures
            final(self).wf(),
            ({
                let key = SurfaceKey { monitor_id, session_id };
                let prev = if old(self).tracks().dom().contains(key) {
                    Some(old(self).tracks()[key])
                } else {
                    None::<CursorTrack>
                };
                match cursor {
                    Some(c) => {
                        let upload = match prev {
                            Some(p) => p.image_hash != c.image_hash,
                            None => true,
                        };
                        let moved = match prev {
                            Some(p) => p.x != c.x || p.y != c.y,
                            None => true,
                        };
                        if monitor_present {
                            &&& r == (CursorPlan { upload, set_position: moved, remove: false })
                            &&& final(self).tracks() == old(self).tracks().insert(
                                key,
                                CursorTrack { image_hash: c.image_hash, x: c.x, y: c.y },
                            )
                        } else {
                            &&& r == (CursorPlan { upload: false, set_position: false, remove: false })
                            &&& final(self).tracks() == (match prev {
                                Some(_) => old(self).tracks(),
                                None => old(self).tracks().insert(
                                    key,
                                    CursorTrack { image_hash: 0, x: i32::MIN, y: i32::MIN },
                                ),
                            })
                        }
                    },
                    None => {
                        &&& r == (CursorPlan {
                            upload: false,
                            set_position: false,
                            remove: prev is Some && monitor_present,
                        })
                        &&& final(self).tracks() == (match prev {
                            Some(_) => old(self).tracks().remove(key),
                            None => old(self).tracks(),
                        })
                    },
                }
            }),
    {
        let key = SurfaceKey { monitor_id, session_id };
        proof {
            lemma_assoc_map_dom(self.state@, key);
        }
        let found = track_find(&self.state, key);
        let prev: Option<CursorTrack> = match found {
            Some(i) => {
                proof {
                    lemma_assoc_map_index(self.state@, i as int);
                }
                Some(self.state[i].1)
            },
            None => None,
        };
        match cursor {
            Some(c) => {
                let upload = match prev {
                    Some(p) => p.image_hash != c.image_hash,
                    None => true,
                };
                let moved = match prev {
                    Some(p) => p.x != c.x || p.y != c.y,
                    None => true,
                };
                if monitor_present {
                    let track = CursorTrack { image_hash: c.image_hash, x: c.x, y: c.y };
                    match found {
                        Some(i) => {
                            proof {
                                lemma_assoc_map_update(self.state@, i as int, track);
                            }
                            self.state.set(i, (key, track));
                        },
                        None => {
                            proof {
                                lemma_assoc_map_push(self.state@, key, track);
                            }
                            self.state.push((key, track));
                        },
                    }
                    CursorPlan { upload, set_position: moved, remove: false }
                } else {
                    if found.is_none() {
                        let seed = CursorTrack { image_hash: 0, x: i32::MIN, y: i32::MIN };
                        proof {
                            lemma_assoc_map_push(self.state@, key, seed);
                        }
                        self.state.push((key, seed));
                    }
                    CursorPlan { upload: false, set_position: false, remove: false }
                }
            },
            None => {
                let existed = match found {
                    Some(i) => {
                        proof {
                            lemma_assoc_map_remove(self.state@, i as int);
                        }
                        self.state.remove(i);
                        true
                    },
                    None => false,
                };
                CursorPlan { upload: false, set_position: false, remove: existed && monitor_present }
            },
        }
    }
}

} // verus!
