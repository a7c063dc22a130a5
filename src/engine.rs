use vstd::prelude::*;

verus! {

/// Whether the engine is running the game or editing a level.
#[derive(Clone, Copy, Debug, PartialEq, Eq, Structural)]
pub enum EEngineMode {
    Play,
    Editor,
}

/// The kinds of entity a scene can hold.
#[derive(Clone, Copy, Debug, PartialEq, Eq, Structural)]
pub enum EEntityType {
    Boxer,
    Tiles,
    AudioPlayer,
}

/// How a camera projects the scene.
#[derive(Clone, Copy, Debug, PartialEq, Eq, Structural)]
pub enum EProjectionType {
    Perspective,
    Orthographic,
}

/// Whether a sound is placed in the world or heard flat.
#[derive(Clone, Copy, Debug, PartialEq, Eq, Structural)]
pub enum EAudioSpace {
    Is3D,
    Is2D,
}

/// The track a sound plays on.
#[derive(Clone, Copy, Debug, PartialEq, Eq, Structural)]
pub enum ETargetTrack {
    Effect,
    Music,
}

/// Meta information of the application, loaded at start and tied to no
/// particular save. It holds nothing yet.
#[derive(Clone, Copy, Debug, PartialEq, Eq, Structural)]
pub struct MetaInfo {}

impl MetaInfo {
    pub fn Create() -> (r: Self)
        ensures
            r == (MetaInfo {  }),
    {
        MetaInfo {  }
    }
}

/// The play-mode driver of the engine; the frame loop it runs belongs to the
/// host.
#[derive(Clone, Copy, Debug, PartialEq, Eq, Structural)]
pub struct CozyPlayer {}

/// The scene builder of the game; it carries no state.
#[derive(Clone, Copy, Debug, PartialEq, Eq, Structural)]
pub struct GCSBSceneBuilder {}

impl GCSBSceneBuilder {
    pub fn create() -> (r: Self)
        ensures
            r == (GCSBSceneBuilder {  }),
    {
        GCSBSceneBuilder {  }
    }
}

} // verus!
