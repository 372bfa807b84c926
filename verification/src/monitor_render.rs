//! Per-monitor render state: the cache of drawing surfaces keyed by
//! framebuffer id, the current render target and size.
//!
//! Surfaces are opaque handles here; creating one and drawing through it is
//! GPU work that happens at the caller's boundary.

use vstd::prelude::*;

use crate::assoc::{
    assoc_map, lemma_assoc_map_dom, lemma_assoc_map_index, lemma_assoc_map_push,
    lemma_assoc_map_update, unique_keys,
};
use crate::keys::MonitorId;

verus! {

/// Opaque handle to a drawing surface owned by the caller's GPU backend.
#[derive(Clone, Copy, Debug, PartialEq, Eq, Hash, Structural)]
pub struct SurfaceId(pub u64);

/// Finds the cache entry of a framebuffer id.
fn fbo_table_find(entries: &Vec<(i32, SurfaceId)>, fbo: i32) -> (r: Option<usize>)
    ensures
        match r {
            Some(i) => 0 <= i < entries@.len() && entries@[i as int].0 == fbo,
            None => forall|j: int| 0 <= j < entries@.len() ==> (#[trigger] entries@[j]).0 != fbo,
        },
{
    let mut i: usize = 0;
    while i < entries.len()
        invariant
            i <= entries@.len(),
            forall|j: int| 0 <= j < i ==> (#[trigger] entries@[j]).0 != fbo,
        decreases entries@.len() - i,
    {
        if entries[i].0 == fbo {
            return Some(i);
        }
        i = i + 1;
    }
    None
}

/// Per-physical-output GPU resources: cached drawing surfaces by framebuffer
/// id, the current target, and the monitor's size and identity.
pub struct MonitorRenderState {
    surfaces_by_fbo: Vec<(i32, SurfaceId)>,
    width: usize,
    height: usize,
    target_fbo: i32,
    id: MonitorId,
}

impl MonitorRenderState {
    /// The surface cache as a map from framebuffer id to surface.
    pub closed spec fn surfaces(&self) -> Map<i32, SurfaceId> {
        assoc_map(self.surfaces_by_fbo@)
    }

    /// The monitor's recorded width.
    pub closed spec fn spec_width(&self) -> usize {
        self.width
    }

    /// The monitor's recorded height.
    pub closed spec fn spec_height(&self) -> usize {
        self.height
    }

    /// The framebuffer currently targeted.
    pub closed spec fn spec_target_fbo(&self) -> i32 {
        self.target_fbo
    }

    /// The monitor's identity.
    pub closed spec fn spec_id(&self) -> MonitorId {
        self.id
    }

    /// The monitor's recorded width.
    pub fn width(&self) -> (r: usize)
        ensures
            r == self.spec_width(),
    {
        self.width
    }

    /// The monitor's recorded height.
    pub fn height(&self) -> (r: usize)
        ensures
            r == self.spec_height(),
    {
        self.height
    }

    /// The framebuffer currently targeted.
    pub fn target_fbo(&self) -> (r: i32)
        ensures
            r == self.spec_target_fbo(),
    {
        self.target_fbo
    }

    /// The monitor's identity.
    pub fn id(&self) -> (r: MonitorId)
        ensures
            r == self.spec_id(),
    {
        self.id
    }

    /// The cache holds each framebuffer id at most once.
    pub closed spec fn wf(&self) -> bool {
        unique_keys(self.surfaces_by_fbo@)
    }

    /// A fresh per-monitor state with an empty surface cache; the target is
    /// whatever framebuffer the driver has bound.
    pub fn new(width: usize, height: usize, target_fbo: i32, id: MonitorId) -> (r: Self)
        ensures
            r.wf(),
            r.spec_width() == width,
            r.spec_height() == height,
            r.spec_target_fbo() == target_fbo,
            r.spec_id() == id,
            r.surfaces() == Map::<i32, SurfaceId>::empty(),
    {
        let r = MonitorRenderState { surfaces_by_fbo: Vec::new(), width, height, target_fbo, id };
        proof {
            assert(assoc_map(r.surfaces_by_fbo@) =~= Map::<i32, SurfaceId>::empty());
        }
        r
    }

    /// Ensures a drawing surface exists for `fbo` and makes it the target
    /// (surface cache coherency). A size change evicts every cached surface
    /// first, so the cache then holds exactly the surfaces created since the
    /// resize — here, just the fresh one. Returns whether `fresh` was
    /// installed (the caller creates the surface only in that case).
    pub fn ensure_surface_target(
        &mut self,
        width: usize,
        height: usize,
        fbo: i32,
        fresh: SurfaceId,
    ) -> (created: bool)
        requires
            old(self).wf(),
        ensures
            final(self).wf(),
            final(self).spec_width() == width,
            final(self).spec_height() == height,
            final(self).spec_target_fbo() == fbo,
            final(self).spec_id() == old(self).spec_id(),
            ({
                let resized = old(self).spec_width() != width || old(self).spec_height()
                    != height;
                if resized {
                    final(self).surfaces() == Map::<i32, SurfaceId>::empty().insert(fbo, fresh)
                        && created
                } else if old(self).surfaces().dom().contains(fbo) {
                    final(self).surfaces() == old(self).surfaces() && !created
                } else {
                    final(self).surfaces() == old(self).surfaces().insert(fbo, fresh) && created
                }
            }),
    {
        let size_changed = self.width != width || self.height != height;
        if size_changed {
            self.surfaces_by_fbo = Vec::new();
            self.width = width;
            self.height = height;
            proof {
                assert(assoc_map(self.surfaces_by_fbo@) =~= Map::<i32, SurfaceId>::empty());
            }
        }
        self.target_fbo = fbo;
        proof {
            lemma_assoc_map_dom(self.surfaces_by_fbo@, fbo);
        }
        match fbo_table_find(&self.surfaces_by_fbo, fbo) {
            Some(_) => false,
            None => {
                proof {
                    lemma_assoc_map_push(self.surfaces_by_fbo@, fbo, fresh);
                }
                self.surfaces_by_fbo.push((fbo, fresh));
                true
            },
        }
    }

    /// The surface cached for a framebuffer id, if any.
    pub fn surface_for(&self, fbo: i32) -> (r: Option<SurfaceId>)
        requires
            self.wf(),
        ensures
            r == (if self.surfaces().dom().contains(fbo) {
                Some(self.surfaces()[fbo])
            } else {
                None::<SurfaceId>
            }),
    {
        proof {
            lemma_assoc_map_dom(self.surfaces_by_fbo@, fbo);
        }
        match fbo_table_find(&self.surfaces_by_fbo, fbo) {
            Some(i) => {
                proof {
                    lemma_assoc_map_index(self.surfaces_by_fbo@, i as int);
                }
                Some(self.surfaces_by_fbo[i].1)
            },
            None => None,
        }
    }

    /// The surface of the current render target, if one is cached.
    pub fn canvas(&self) -> (r: Option<SurfaceId>)
        requires
            self.wf(),
        ensures
            r == (if self.surfaces().dom().contains(self.spec_target_fbo()) {
                Some(self.surfaces()[self.spec_target_fbo()])
            } else {
                None::<SurfaceId>
            }),
    {
        self.surface_for(self.target_fbo)
    }

    /// The number of cached surfaces.
    pub fn surface_count(&self) -> (r: usize)
        requires
            self.wf(),
        ensures
            r == self.surfaces().dom().len(),
    {
        proof {
            crate::assoc::lemma_assoc_map_dom_len(self.surfaces_by_fbo@);
        }
        self.surfaces_by_fbo.len()
    }
}

} // verus!
