use cozy_engine::collider::{ColliderData, ECollisionTag, ECollisionType, HalfPoint};
use cozy_engine::collision::CollisionModule;
use cozy_engine::geometry::Vec3;
use cozy_engine::identity::EntityId;

fn solid(x: i32, y: i32, w: i32, h: i32) -> ColliderData {
    ColliderData::Create(
        Vec3::new(x, y, 0),
        Vec3::new(w, h, 1),
        ECollisionType::Solid,
        ECollisionTag::NoTag,
    )
}

fn trigger(x: i32, y: i32, w: i32, h: i32) -> ColliderData {
    ColliderData::Create(
        Vec3::new(x, y, 0),
        Vec3::new(w, h, 1),
        ECollisionType::Trigger,
        ECollisionTag::NoTag,
    )
}

fn id(v: u128) -> EntityId {
    EntityId { value: v }
}

#[test]
fn corner_inside_other_box_collides() {
    let a = solid(0, 0, 32, 32);
    let b = solid(16, 0, 32, 32);
    assert!(ColliderData::DoBoundsCollide(&a, &b));
}

#[test]
fn distant_boxes_do_not_collide() {
    let a = solid(0, 0, 10, 10);
    let b = solid(100, 100, 10, 10);
    assert!(!ColliderData::DoBoundsCollide(&a, &b));
}

#[test]
fn swallowed_box_is_missed_by_corner_test() {
    let big = solid(0, 0, 100, 100);
    let small = solid(0, 0, 10, 10);
    assert!(!ColliderData::DoBoundsCollide(&big, &small));
    assert!(ColliderData::DoBoundsCollide(&small, &big));
}

#[test]
fn corners_are_in_half_units() {
    let a = solid(0, 0, 32, 32);
    let (tl, tr, br, bl) = a.GetCorners();
    assert_eq!(tl, HalfPoint { x: -32, y: 32, z: 1 });
    assert_eq!(tr, HalfPoint { x: 32, y: 32, z: 1 });
    assert_eq!(br, HalfPoint { x: 32, y: -32, z: 1 });
    assert_eq!(bl, HalfPoint { x: -32, y: -32, z: 1 });
}

#[test]
fn odd_size_bounds_stay_exact() {
    let a = solid(3, -2, 5, 7);
    assert_eq!(a.GetMinMaxBounds(), (1, 11, -11, 3));
    let e = a.Extents();
    assert_eq!((e.x, e.y, e.z), (5, 7, 1));
}

#[test]
fn point_on_edge_is_inside() {
    let b = solid(0, 0, 10, 10);
    assert!(ColliderData::DoesPointIntersectBounds(HalfPoint { x: 10, y: -10, z: 99 }, &b));
    assert!(!ColliderData::DoesPointIntersectBounds(HalfPoint { x: 11, y: 0, z: 0 }, &b));
}

#[test]
fn update_size_sets_extents_to_half() {
    let mut a = solid(0, 0, 2, 2);
    a.UpdateSize(Vec3::new(9, 4, 2));
    assert_eq!(a.Size(), Vec3::new(9, 4, 2));
    let e = a.Extents();
    assert_eq!((e.x, e.y, e.z), (9, 4, 2));
    assert_eq!(a.Origin(), Vec3::new(0, 0, 0));
}

#[test]
fn update_origin_moves_bounds() {
    let mut a = solid(0, 0, 6, 4);
    a.UpdateOrigin(Vec3::new(10, 20, 0));
    assert_eq!(a.GetMinMaxBounds(), (14, 26, 36, 44));
}

#[test]
fn world_registers_and_removes() {
    let mut w = CollisionModule::Create();
    assert_eq!(w.Len(), 0);
    w.Add(id(1), solid(0, 0, 4, 4));
    w.Add(id(2), solid(50, 0, 4, 4));
    assert!(w.Contains(&id(1)));
    assert!(w.Contains(&id(2)));
    assert!(!w.Contains(&id(3)));
    w.Remove(id(1));
    assert!(!w.Contains(&id(1)));
    assert!(w.Contains(&id(2)));
    assert_eq!(w.Len(), 1);
}

#[test]
fn query_excludes_own_record() {
    let mut w = CollisionModule::Create();
    w.Add(id(1), solid(0, 0, 10, 10));
    assert!(!w.IsThereAnyCollisionAt(&id(1), Vec3::new(0, 0, 0)));
    assert!(!w.IsThereSolidCollisionAt(&id(1), Vec3::new(1, 1, 0)));
}

#[test]
fn query_reports_overlap_at_hypothetical_position() {
    let mut w = CollisionModule::Create();
    w.Add(id(1), solid(0, 0, 10, 10));
    w.Add(id(2), solid(100, 0, 10, 10));
    assert!(!w.IsThereSolidCollisionAt(&id(1), Vec3::new(0, 0, 0)));
    assert!(w.IsThereSolidCollisionAt(&id(1), Vec3::new(95, 0, 0)));
    // The stored record did not move.
    assert!(!w.IsThereSolidCollisionAt(&id(2), Vec3::new(100, 0, 0)));
}

#[test]
fn triggers_are_skipped_when_excluded() {
    let mut w = CollisionModule::Create();
    w.Add(id(1), solid(0, 0, 10, 10));
    w.Add(id(2), trigger(5, 0, 10, 10));
    assert!(!w.IsThereSolidCollisionAt(&id(1), Vec3::new(0, 0, 0)));
    assert!(w.IsThereAnyCollisionAt(&id(1), Vec3::new(0, 0, 0)));
    assert!(!w.IsThereCollisionAt(&id(1), Vec3::new(0, 0, 0), true));
    assert!(w.IsThereCollisionAt(&id(1), Vec3::new(0, 0, 0), false));
}

#[test]
fn unregistered_query_answers_no_collision() {
    let mut w = CollisionModule::Create();
    w.Add(id(2), solid(0, 0, 10, 10));
    assert!(!w.IsThereAnyCollisionAt(&id(9), Vec3::new(0, 0, 0)));
}

#[test]
fn world_update_origin_and_size() {
    let mut w = CollisionModule::Create();
    w.Add(id(1), solid(0, 0, 2, 2));
    w.Add(id(2), solid(40, 0, 2, 2));
    assert!(!w.IsThereSolidCollisionAt(&id(1), Vec3::new(0, 0, 0)));
    w.UpdateOrigin(id(2), Vec3::new(1, 0, 0));
    assert!(w.IsThereSolidCollisionAt(&id(1), Vec3::new(0, 0, 0)));
    w.UpdateOrigin(id(2), Vec3::new(40, 0, 0));
    assert!(!w.IsThereSolidCollisionAt(&id(1), Vec3::new(0, 0, 0)));
    // A box wide enough that its corner reaches the other one.
    w.UpdateSize(id(1), Vec3::new(80, 2, 1));
    assert!(w.IsThereSolidCollisionAt(&id(1), Vec3::new(0, 0, 0)));
}
