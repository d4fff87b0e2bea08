//! Scene resources loaded and unloaded on demand from the options panel.
use vstd::prelude::*;

verus! {

/// Position of the small sphere among the static scene objects.
pub const SPHERE_OBJECT: usize = 0;

/// Position of the large sphere among the static scene objects.
pub const BIG_SPHERE_OBJECT: usize = 4;

/// What to do with an optional resource (the car model, the normal maps) this frame.
#[derive(Clone, Copy, Debug, PartialEq, Eq, Structural)]
pub enum ResourceAction {
    Load,
    Unload,
    Keep,
}

/// Whether the panel asks for a resource (`show`) and whether it is loaded.
#[derive(Clone, Copy, Debug, PartialEq, Eq, Structural)]
pub struct ResourceToggle {
    pub show: bool,
    pub loaded: bool,
}

/// The action and the new state: load what is asked for and missing, unload what is
/// loaded and no longer asked for.
pub open spec fn sync_of(t: ResourceToggle) -> (ResourceToggle, ResourceAction) {
    if t.show && !t.loaded {
        (ResourceToggle { show: t.show, loaded: true }, ResourceAction::Load)
    } else if !t.show && t.loaded {
        (ResourceToggle { show: t.show, loaded: false }, ResourceAction::Unload)
    } else {
        (t, ResourceAction::Keep)
    }
}

impl ResourceToggle {
    /// Not asked for, not loaded.
    pub fn new() -> (t: Self)
        ensures
            !t.show,
            !t.loaded,
    {
        ResourceToggle { show: false, loaded: false }
    }

    /// Bring the resource in line with the panel; the caller performs the returned action.
    pub fn sync(&mut self) -> (action: ResourceAction)
        ensures
            (*final(self), action) == sync_of(*old(self)),
            final(self).show == old(self).show,
            final(self).loaded == old(self).show,
            action == ResourceAction::Load <==> (old(self).show && !old(self).loaded),
            action == ResourceAction::Unload <==> (!old(self).show && old(self).loaded),
            action == ResourceAction::Keep <==> (old(self).show == old(self).loaded),
    {
        if self.show && !self.loaded {
            self.loaded = true;
            ResourceAction::Load
        } else if !self.show && self.loaded {
            self.loaded = false;
            ResourceAction::Unload
        } else {
            ResourceAction::Keep
        }
    }
}

/// After a sync the resource is loaded exactly when it is asked for, and a second sync
/// does nothing.
pub proof fn lemma_sync_settles(t: ResourceToggle)
    ensures
        sync_of(t).0.loaded == t.show,
        sync_of(t).0.show == t.show,
        sync_of(sync_of(t).0) == (sync_of(t).0, ResourceAction::Keep),
{
}

/// The static objects that receive normal maps: the small sphere and the large sphere,
/// each only when the scene has that many objects.
pub fn normal_map_targets(object_count: usize) -> (targets: Vec<usize>)
    ensures
        targets@ == (if SPHERE_OBJECT < object_count {
            seq![SPHERE_OBJECT]
        } else {
            seq![]
        }) + (if BIG_SPHERE_OBJECT < object_count {
            seq![BIG_SPHERE_OBJECT]
        } else {
            seq![]
        }),
{
    let mut targets: Vec<usize> = Vec::new();
    if SPHERE_OBJECT < object_count {
        targets.push(SPHERE_OBJECT);
    }
    if BIG_SPHERE_OBJECT < object_count {
        targets.push(BIG_SPHERE_OBJECT);
    }
    assert(targets@ =~= (if SPHERE_OBJECT < object_count {
        seq![SPHERE_OBJECT]
    } else {
        seq![]
    }) + (if BIG_SPHERE_OBJECT < object_count {
        seq![BIG_SPHERE_OBJECT]
    } else {
        seq![]
    }));
    targets
}

} // verus!
