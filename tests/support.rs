use cozy_engine::engine::{EEngineMode, GCSBSceneBuilder, MetaInfo};
use cozy_engine::geometry::Vec3;
use cozy_engine::input::KeyStates;
use cozy_engine::shader::{ShaderModule, DEFAULT_FRAGMENT, DEFAULT_VERTEX};

#[test]
fn vector_arithmetic() {
    let a = Vec3::new(1, -2, 3);
    let b = Vec3::new(4, 5, -6);
    assert_eq!(Vec3::add(a, b), Vec3::new(5, 3, -3));
    assert_eq!(Vec3::sub(a, b), Vec3::new(-3, -7, 9));
    assert_eq!(Vec3::scale_vector(a, b), Vec3::new(4, -10, -18));
    assert_eq!(Vec3::zero(), Vec3::new(0, 0, 0));
    assert_eq!(Vec3::one(), Vec3::new(1, 1, 1));
}

#[test]
fn shaders_are_found_by_name() {
    let mut shaders = ShaderModule::Create();
    shaders.AddShader(DEFAULT_VERTEX.to_string(), "vertex v1".to_string());
    shaders.AddShader(DEFAULT_FRAGMENT.to_string(), "fragment".to_string());
    assert_eq!(shaders.GetShader(DEFAULT_VERTEX), "vertex v1");
    assert_eq!(shaders.GetShader(DEFAULT_FRAGMENT), "fragment");
    shaders.AddShader(DEFAULT_VERTEX.to_string(), "vertex v2".to_string());
    assert_eq!(shaders.GetShader(DEFAULT_VERTEX), "vertex v2");
    assert_eq!(shaders.GetShader(DEFAULT_FRAGMENT), "fragment");
}

#[test]
fn stateless_parts_construct() {
    assert_eq!(MetaInfo::Create(), MetaInfo {});
    assert_eq!(GCSBSceneBuilder::create(), GCSBSceneBuilder {});
    assert_ne!(EEngineMode::Play, EEngineMode::Editor);
}

#[test]
fn key_states_follow_presses_and_releases() {
    let mut k = KeyStates::New();
    assert!(!k.IsDown(7));
    k.Press(7);
    k.Press(7);
    assert!(k.IsDown(7) && k.IsPressed(7) && !k.IsReleased(7));
    k.ResetPressedAndReleased();
    assert!(k.IsDown(7) && !k.IsPressed(7) && !k.IsReleased(7));
    k.Release(7);
    assert!(!k.IsDown(7) && !k.IsPressed(7) && k.IsReleased(7));
    k.Press(8);
    assert!(k.IsDown(8) && !k.IsDown(7) && k.IsReleased(7));
    k.ResetPressedAndReleased();
    assert!(!k.IsReleased(7) && k.IsDown(8));
}
