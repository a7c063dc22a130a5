use std::cell::RefCell;
use std::rc::Rc;

use cozy_engine::collider::{ColliderData, ECollisionTag, ECollisionType};
use cozy_engine::collision::CollisionModule;
use cozy_engine::components::{Collider, ComponentTemplate, TNewLevelClone};
use cozy_engine::entities::Entities;
use cozy_engine::entity::{Component, Entity, EntityHeader, Transform};
use cozy_engine::frame::GameFrame;
use cozy_engine::game_api::{ColliderOp, Command, EngineFault, GameAPI};
use cozy_engine::geometry::Vec3;
use cozy_engine::identity::EntityId;
use cozy_engine::input::InputState;

type Log = Rc<RefCell<Vec<String>>>;

/// A behavior that writes each hook call into a shared log and can ask for
/// commands when it updates.
struct Probe {
    name: String,
    log: Log,
    on_update: Vec<Command>,
    step: i32,
}

impl Probe {
    fn new(name: &str, log: &Log) -> Probe {
        Probe { name: name.to_string(), log: log.clone(), on_update: Vec::new(), step: 0 }
    }
}

impl Component for Probe {
    fn ComponentTypeName(&self) -> String {
        self.name.clone()
    }

    fn start(&mut self, _id: EntityId, _t: &mut Transform, _w: &CollisionModule, _c: &mut Vec<Command>) {
        self.log.borrow_mut().push(format!("start {}", self.name));
    }

    fn update(
        &mut self,
        _id: EntityId,
        t: &mut Transform,
        _f: &GameFrame,
        _w: &CollisionModule,
        c: &mut Vec<Command>,
    ) {
        self.log.borrow_mut().push(format!("update {}", self.name));
        t.WorldPosition.x += self.step;
        c.extend(self.on_update.iter().copied());
    }

    fn OnDestroy(&mut self, _id: EntityId, _t: &mut Transform, _w: &CollisionModule, _c: &mut Vec<Command>) {
        self.log.borrow_mut().push(format!("destroy {}", self.name));
    }
}

/// Behaviors of the tests: a probe or a collider.
enum Part {
    Probe(Probe),
    Collider(Collider),
}

impl Component for Part {
    fn ComponentTypeName(&self) -> String {
        match self {
            Part::Probe(p) => p.ComponentTypeName(),
            Part::Collider(c) => c.ComponentTypeName(),
        }
    }

    fn start(&mut self, id: EntityId, t: &mut Transform, w: &CollisionModule, c: &mut Vec<Command>) {
        match self {
            Part::Probe(p) => p.start(id, t, w, c),
            Part::Collider(x) => x.start(id, t, w, c),
        }
    }

    fn update(&mut self, id: EntityId, t: &mut Transform, f: &GameFrame, w: &CollisionModule, c: &mut Vec<Command>) {
        match self {
            Part::Probe(p) => p.update(id, t, f, w, c),
            Part::Collider(x) => x.update(id, t, f, w, c),
        }
    }

    fn OnDestroy(&mut self, id: EntityId, t: &mut Transform, w: &CollisionModule, c: &mut Vec<Command>) {
        match self {
            Part::Probe(p) => p.OnDestroy(id, t, w, c),
            Part::Collider(x) => x.OnDestroy(id, t, w, c),
        }
    }
}

fn entity(name: &str, x: i32) -> Entity<Part> {
    Entity::new(EntityHeader::Create(name, Vec3::new(x, 0, 0)))
}

fn boxed(size: i32) -> Part {
    Part::Collider(Collider::Create(
        Vec3::zero(),
        Vec3::new(size, size, 1),
        ECollisionType::Solid,
        ECollisionTag::NoTag,
    ))
}

fn frame() -> GameFrame {
    GameFrame::new(InputState::New(), 16, 16)
}

#[test]
fn header_starts_fresh() {
    let h = EntityHeader::Create("hero", Vec3::new(1, 2, 3));
    assert_eq!(h.Name, "hero");
    assert_eq!(h.Transform.WorldPosition, Vec3::new(1, 2, 3));
    assert_eq!(h.Transform.scale, Vec3::one());
    assert!(!h.HasStartBeenCalled());
}

#[test]
fn identity_is_stable_and_fresh() {
    let log: Log = Rc::new(RefCell::new(Vec::new()));
    let mut e = entity("a", 0);
    let first = e.ID();
    assert_eq!(e.ID(), first);
    e.add_component(Part::Probe(Probe::new("P", &log)));
    let mut api = GameAPI::Create();
    e.Start(&mut api).unwrap();
    e.Update(&frame(), &mut api).unwrap();
    assert_eq!(e.ID(), first);
    assert_eq!(e.Header().ID(), first);
    let other = entity("b", 0);
    assert_ne!(other.ID(), first);
}

#[test]
fn random_identity_is_version_four() {
    let a = EntityId::new_random();
    let b = EntityId::new_random();
    assert_eq!((a.value >> 76) & 0xf, 4);
    assert_eq!((b.value >> 76) & 0xf, 4);
    assert_eq!((a.value >> 62) & 0x3, 2);
    assert_eq!((b.value >> 62) & 0x3, 2);
    let h = EntityHeader::Create("x", Vec3::zero());
    assert_eq!((h.ID().value >> 76) & 0xf, 4);
    assert_ne!(a, b);
}

#[test]
fn start_runs_every_hook_once_in_order() {
    let log: Log = Rc::new(RefCell::new(Vec::new()));
    let mut e = entity("a", 0);
    e.add_component(Part::Probe(Probe::new("A", &log)));
    e.add_component(Part::Probe(Probe::new("B", &log)));
    e.add_component(Part::Probe(Probe::new("C", &log)));
    let mut api = GameAPI::Create();
    assert!(!e.HasStartBeenCalled());
    assert_eq!(e.Start(&mut api), Ok(()));
    assert!(e.HasStartBeenCalled());
    assert_eq!(*log.borrow(), vec!["start A", "start B", "start C"]);
}

#[test]
fn update_runs_hooks_in_order_and_moves_entity() {
    let log: Log = Rc::new(RefCell::new(Vec::new()));
    let mut e = entity("a", 0);
    let mut p = Probe::new("A", &log);
    p.step = 3;
    e.add_component(Part::Probe(p));
    e.add_component(Part::Probe(Probe::new("B", &log)));
    let mut api = GameAPI::Create();
    e.Start(&mut api).unwrap();
    e.Update(&frame(), &mut api).unwrap();
    assert_eq!(e.GetTransform().WorldPosition.x, 3);
    assert_eq!(*log.borrow(), vec!["start A", "start B", "update A", "update B"]);
}

#[test]
fn lookup_finds_first_and_skips_excluded_kind() {
    let log: Log = Rc::new(RefCell::new(Vec::new()));
    let mut e = entity("a", 0);
    e.add_component(Part::Probe(Probe::new("Renderer", &log)));
    e.add_component(Part::Probe(Probe::new("Mover", &log)));
    e.add_component(Part::Probe(Probe::new("Renderer", &log)));
    assert_eq!(e.ComponentCount(), 3);
    assert_eq!(e.get_component("Renderer", None), Some(0));
    assert_eq!(e.get_component("Mover", None), Some(1));
    assert_eq!(e.get_component("Missing", None), None);
    assert_eq!(e.get_component("Mover", Some("Renderer")), Some(1));
    // The caller's own kind is never returned.
    assert_eq!(e.get_component("Renderer", Some("Renderer")), None);
    assert_eq!(e.GetComponentAt(1).ComponentTypeName(), "Mover");
}

#[test]
fn template_component_names_itself() {
    let t = ComponentTemplate::Create();
    assert_eq!(t.ComponentTypeName(), "ComponentTemplate");
}

#[test]
fn mark_dead_is_idempotent() {
    let mut api = GameAPI::Create();
    let a = EntityId { value: 7 };
    api.MarkEntityDead(&a);
    api.MarkEntityDead(&a);
    assert!(api.IsMarkedDead(&a));
    assert_eq!(api.TakeDeadEntities(), vec![a]);
    assert!(!api.IsMarkedDead(&a));
}

#[test]
fn commands_report_bookkeeping_faults() {
    let mut api = GameAPI::Create();
    let a = EntityId { value: 1 };
    let c = ColliderData::Create(Vec3::zero(), Vec3::one(), ECollisionType::Solid, ECollisionTag::NoTag);
    assert_eq!(
        api.ApplyCommand(Command::Deregister(a)),
        Err(EngineFault::MissingRegistration(a, ColliderOp::Remove))
    );
    assert_eq!(
        api.ApplyCommand(Command::MoveCollider(a, Vec3::one())),
        Err(EngineFault::MissingRegistration(a, ColliderOp::UpdateOrigin))
    );
    assert_eq!(
        api.ApplyCommand(Command::ResizeCollider(a, Vec3::one())),
        Err(EngineFault::MissingRegistration(a, ColliderOp::UpdateSize))
    );
    assert_eq!(api.ApplyCommand(Command::Register(a, c)), Ok(()));
    assert!(api.World().Contains(&a));
    assert_eq!(api.ApplyCommand(Command::Register(a, c)), Err(EngineFault::DuplicateRegistration(a)));
    assert_eq!(api.ApplyCommand(Command::ResizeCollider(a, Vec3::new(4, 4, 1))), Ok(()));
    assert_eq!(api.ApplyCommand(Command::Deregister(a)), Ok(()));
    assert!(!api.World().Contains(&a));
}

#[test]
fn command_batch_stops_at_first_fault() {
    let mut api = GameAPI::Create();
    let a = EntityId { value: 1 };
    let b = EntityId { value: 2 };
    let cmds = vec![Command::MarkDead(a), Command::Deregister(b), Command::MarkDead(b)];
    assert_eq!(
        api.ApplyCommands(&cmds),
        Err(EngineFault::MissingRegistration(b, ColliderOp::Remove))
    );
    assert!(api.IsMarkedDead(&a));
    assert!(!api.IsMarkedDead(&b));
}

#[test]
fn collider_registers_follows_and_leaves() {
    let mut api = GameAPI::Create();
    let mut e = entity("wall", 10);
    e.add_component(boxed(4));
    let id = e.ID();
    e.Start(&mut api).unwrap();
    assert!(api.World().Contains(&id));
    let mut t = e.GetTransform();
    t.WorldPosition = Vec3::new(30, 0, 0);
    e.SetTransform(t);
    e.Update(&frame(), &mut api).unwrap();
    e.OnDestroy(&mut api).unwrap();
    assert!(e.IsDestroyed());
    assert!(!api.World().Contains(&id));
}

#[test]
fn collider_level_clone_keeps_box() {
    let c = Collider::Create(Vec3::new(1, 2, 0), Vec3::new(3, 4, 1), ECollisionType::Trigger, ECollisionTag::NoTag);
    let d = c.LevelClone().Data();
    assert_eq!(d.Origin(), Vec3::new(1, 2, 0));
    assert_eq!(d.Size(), Vec3::new(3, 4, 1));
    assert_eq!(d.Type(), ECollisionType::Trigger);
    assert_eq!(d.Tag(), ECollisionTag::NoTag);
}

#[test]
fn frame_syncs_colliders_before_updates() {
    let mut api = GameAPI::Create();
    let mut scene: Entities<Part> = Entities::Create();
    let mut wall = entity("wall", 0);
    wall.add_component(boxed(10));
    let wall_id = wall.ID();
    let mut mover = entity("mover", 100);
    mover.add_component(boxed(10));
    let mover_id = mover.ID();
    scene.AddEntity(wall);
    scene.AddEntity(mover);
    assert!(scene.ContainsEntity(&wall_id));
    scene.RunFrame(&frame(), &mut api).unwrap();
    assert!(scene.Get(0).HasStartBeenCalled());
    assert!(scene.Get(1).HasStartBeenCalled());
    assert!(!api.World().IsThereSolidCollisionAt(&mover_id, Vec3::new(100, 0, 0)));
    assert!(api.World().IsThereSolidCollisionAt(&mover_id, Vec3::new(5, 0, 0)));
    // Moving the wall between frames is seen once colliders sync.
    let mut t = scene.Get(0).GetTransform();
    t.WorldPosition = Vec3::new(100, 0, 0);
    scene.SetEntityTransform(0, t);
    assert!(!api.World().IsThereSolidCollisionAt(&mover_id, Vec3::new(100, 0, 0)));
    scene.SyncColliders(&mut api);
    assert!(api.World().IsThereSolidCollisionAt(&mover_id, Vec3::new(100, 0, 0)));
    assert!(!api.World().IsThereSolidCollisionAt(&wall_id, Vec3::new(0, 0, 0)));
}

#[test]
fn prune_removes_exactly_the_marked_entities() {
    let log: Log = Rc::new(RefCell::new(Vec::new()));
    let mut api = GameAPI::Create();
    let mut scene: Entities<Part> = Entities::Create();
    let mut a = entity("a", 0);
    a.add_component(Part::Probe(Probe::new("A", &log)));
    a.add_component(boxed(4));
    let mut b = entity("b", 50);
    b.add_component(Part::Probe(Probe::new("B", &log)));
    let mut c = entity("c", 90);
    c.add_component(Part::Probe(Probe::new("C", &log)));
    let (ida, idb, idc) = (a.ID(), b.ID(), c.ID());
    scene.AddEntity(a);
    scene.AddEntity(b);
    scene.AddEntity(c);
    scene.RunFrame(&frame(), &mut api).unwrap();
    assert!(api.World().Contains(&ida));
    api.MarkEntityDead(&ida);
    api.MarkEntityDead(&idc);
    api.MarkEntityDead(&ida);
    log.borrow_mut().clear();
    let removed = scene.PruneDeadEntities(&mut api).unwrap();
    assert_eq!(removed.len(), 2);
    assert_eq!(removed[0].ID(), ida);
    assert_eq!(removed[1].ID(), idc);
    assert!(removed.iter().all(|e| e.IsDestroyed()));
    assert_eq!(*log.borrow(), vec!["destroy A", "destroy C"]);
    assert_eq!(scene.Len(), 1);
    assert_eq!(scene.Get(0).ID(), idb);
    assert!(!api.World().Contains(&ida));
    assert!(!api.IsMarkedDead(&ida));
    assert!(!api.IsMarkedDead(&idc));
}

#[test]
fn update_can_mark_other_entities_dead() {
    let log: Log = Rc::new(RefCell::new(Vec::new()));
    let mut api = GameAPI::Create();
    let mut scene: Entities<Part> = Entities::Create();
    let victim = entity("victim", 0);
    let victim_id = victim.ID();
    let mut killer = entity("killer", 0);
    let mut p = Probe::new("K", &log);
    p.on_update = vec![Command::MarkDead(victim_id)];
    killer.add_component(Part::Probe(p));
    scene.AddEntity(victim);
    scene.AddEntity(killer);
    scene.RunFrame(&frame(), &mut api).unwrap();
    assert_eq!(scene.Len(), 2);
    assert!(api.IsMarkedDead(&victim_id));
    let removed = scene.PruneDeadEntities(&mut api).unwrap();
    assert_eq!(removed.len(), 1);
    assert_eq!(scene.Len(), 1);
    assert!(!scene.ContainsEntity(&victim_id));
}

#[test]
fn entities_without_behaviors_always_succeed() {
    let mut api = GameAPI::Create();
    let mut scene: Entities<Part> = Entities::Create();
    scene.AddEntity(entity("a", 0));
    scene.AddEntity(entity("b", 5));
    assert_eq!(scene.RunFrame(&frame(), &mut api), Ok(()));
    assert!(scene.Get(0).HasStartBeenCalled());
    let removed = scene.PruneDeadEntities(&mut api).unwrap();
    assert!(removed.is_empty());
    assert_eq!(scene.Len(), 2);
}

#[test]
fn prune_without_marks_leaves_dead_set_empty() {
    let mut api = GameAPI::Create();
    let mut scene: Entities<Part> = Entities::Create();
    let a = entity("a", 0);
    let ida = a.ID();
    scene.AddEntity(a);
    let stranger = EntityId { value: 42 };
    api.MarkEntityDead(&stranger);
    let removed = scene.PruneDeadEntities(&mut api).unwrap();
    assert!(removed.is_empty());
    assert!(!api.IsMarkedDead(&stranger));
    assert!(scene.ContainsEntity(&ida));
}

#[test]
fn collider_builds_its_commands() {
    let c = Collider::Create(Vec3::new(1, 1, 0), Vec3::new(2, 2, 1), ECollisionType::Solid, ECollisionTag::NoTag);
    let id = EntityId { value: 5 };
    match c.RegisterCommand(id, Vec3::new(9, 8, 0)) {
        Command::Register(rid, d) => {
            assert_eq!(rid, id);
            assert_eq!(d.Origin(), Vec3::new(9, 8, 0));
            assert_eq!(d.Size(), Vec3::new(2, 2, 1));
        }
        _ => panic!("expected a registration"),
    }
    assert!(matches!(c.MoveCommand(id, Vec3::new(3, 4, 0)), Command::MoveCollider(i, p) if i == id && p == Vec3::new(3, 4, 0)));
    assert!(matches!(c.DeregisterCommand(id), Command::Deregister(i) if i == id));
}

#[test]
fn frame_carries_input() {
    let mut input = InputState::New();
    input.Keys.Press(32);
    input.MouseX = 10;
    let f = GameFrame::new(input, 100, 16);
    assert!(f.Input.Keys.IsDown(32));
    assert_eq!(f.Input.MouseX, 10);
    assert_eq!(f.TimeSinceGameStart, 100);
    assert_eq!(f.DeltaTime, 16);
}
