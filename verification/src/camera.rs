//! Which camera renders a frame, and from which camera the free camera takes over.
use vstd::prelude::*;

verus! {

/// The five cameras of the viewer.
#[derive(Clone, Copy, Debug, PartialEq, Eq, Structural)]
pub enum CameraMode {
    /// Fixed position and orientation.
    Static,
    /// Fixed position, always looking at the moving object.
    Tracking,
    /// Behind and above the moving object.
    ThirdPerson,
    /// At the moving object, looking forward.
    FirstPerson,
    /// Keyboard and mouse controlled.
    Free,
}

/// The camera a camera index selects; an index outside `0..5` falls back to the static camera.
pub open spec fn camera_of(index: usize) -> CameraMode {
    if index == 1 {
        CameraMode::Tracking
    } else if index == 2 {
        CameraMode::ThirdPerson
    } else if index == 3 {
        CameraMode::FirstPerson
    } else if index == 4 {
        CameraMode::Free
    } else {
        CameraMode::Static
    }
}

/// The camera whose position and view direction the free camera takes over when the
/// previous camera was `index`; for an index outside `0..4` it keeps its own.
pub open spec fn handover_source(index: usize) -> CameraMode {
    if index == 0 {
        CameraMode::Static
    } else if index == 1 {
        CameraMode::Tracking
    } else if index == 2 {
        CameraMode::ThirdPerson
    } else if index == 3 {
        CameraMode::FirstPerson
    } else {
        CameraMode::Free
    }
}

/// The handover a frame performs: only on the frame where the free camera (index 4)
/// becomes active after another camera.
pub open spec fn handover_of(active: usize, previous: usize) -> Option<CameraMode> {
    if active == 4 && previous != 4 {
        Some(handover_source(previous))
    } else {
        None
    }
}

/// The camera that renders with camera index `active`.
pub fn view_camera(active: usize) -> (mode: CameraMode)
    ensures
        mode == camera_of(active),
        active == 0 ==> mode == CameraMode::Static,
        active == 1 ==> mode == CameraMode::Tracking,
        active == 2 ==> mode == CameraMode::ThirdPerson,
        active == 3 ==> mode == CameraMode::FirstPerson,
        active == 4 ==> mode == CameraMode::Free,
        active >= 5 ==> mode == CameraMode::Static,
{
    if active == 1 {
        CameraMode::Tracking
    } else if active == 2 {
        CameraMode::ThirdPerson
    } else if active == 3 {
        CameraMode::FirstPerson
    } else if active == 4 {
        CameraMode::Free
    } else {
        CameraMode::Static
    }
}

/// When the free camera has just been selected, the camera it starts from.
pub fn free_camera_handover(active: usize, previous: usize) -> (source: Option<CameraMode>)
    ensures
        source == handover_of(active, previous),
        source is Some <==> (active == 4 && previous != 4),
        source is Some && previous == 0 ==> source == Some(CameraMode::Static),
        source is Some && previous == 1 ==> source == Some(CameraMode::Tracking),
        source is Some && previous == 2 ==> source == Some(CameraMode::ThirdPerson),
        source is Some && previous == 3 ==> source == Some(CameraMode::FirstPerson),
        source is Some && previous >= 5 ==> source == Some(CameraMode::Free),
{
    if active == 4 && previous != 4 {
        let from = if previous == 0 {
            CameraMode::Static
        } else if previous == 1 {
            CameraMode::Tracking
        } else if previous == 2 {
            CameraMode::ThirdPerson
        } else if previous == 3 {
            CameraMode::FirstPerson
        } else {
            CameraMode::Free
        };
        Some(from)
    } else {
        None
    }
}

/// The handover happens once: on the next frame the previous index equals the active one,
/// and nothing is taken over again. Switching from one of the four other cameras takes
/// over that camera, which is never the free camera itself.
pub proof fn lemma_handover_once(active: usize, previous: usize)
    ensures
        handover_of(active, active) is None,
        handover_of(active, previous) is Some ==> camera_of(active) == CameraMode::Free,
        active == 4 && previous < 4 ==> handover_of(active, previous) == Some(camera_of(previous)),
{
}

} // verus!
