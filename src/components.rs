use vstd::prelude::*;
use crate::collider::{ColliderData, ECollisionTag, ECollisionType};
use crate::collision::CollisionModule;
use crate::entity::{Component, Transform};
use crate::frame::GameFrame;
use crate::game_api::Command;
use crate::geometry::Vec3;
use crate::identity::EntityId;

verus! {

/// Makes the copy of a level object that a new play session starts from:
/// nothing of a previous session (such as having started) carries over.
pub trait TNewLevelClone: Sized {
    fn LevelClone(&self) -> Self;
}

/// Keeps the collision world informed of its entity's box. Its start hook
/// queues exactly `RegisterCommand(id, position)`, its update hook exactly
/// `MoveCommand(id, position)`, and its on-destroy hook exactly
/// `DeregisterCommand(id)`.
pub struct Collider {
    _data: ColliderData,
}

impl Collider {
    /// The box this behavior registers, at the position it was created with.
    pub closed spec fn data(&self) -> ColliderData {
        self._data
    }

    pub fn Create(
        worldPosition: Vec3,
        size: Vec3,
        collisionType: ECollisionType,
        tag: ECollisionTag,
    ) -> (r: Self)
        ensures
            r.data().spec_origin() == worldPosition,
            r.data().spec_size() == size,
            r.data().spec_type() == collisionType,
            r.data().spec_tag() == tag,
    {
        Collider { _data: ColliderData::Create(worldPosition, size, collisionType, tag) }
    }

    pub fn Data(&self) -> (r: ColliderData)
        ensures
            r == self.data(),
    {
        self._data
    }

    /// The command that registers the box under `id` at `position`.
    pub fn RegisterCommand(&self, id: EntityId, position: Vec3) -> (r: Command)
        ensures
            r matches Command::Register(rid, c) && rid == id && self.data().moved_to(position, c),
    {
        let mut data = self._data;
        data.UpdateOrigin(position);
        Command::Register(id, data)
    }

    /// The command that moves the box of `id` to `position`.
    pub fn MoveCommand(&self, id: EntityId, position: Vec3) -> (r: Command)
        ensures
            r == Command::MoveCollider(id, position),
    {
        Command::MoveCollider(id, position)
    }

    /// The command that deregisters the box of `id`.
    pub fn DeregisterCommand(&self, id: EntityId) -> (r: Command)
        ensures
            r == Command::Deregister(id),
    {
        Command::Deregister(id)
    }
}

impl Component for Collider {
    fn ComponentTypeName(&self) -> String {
        "Collider".to_owned()
    }

    fn start(
        &mut self,
        id: EntityId,
        transform: &mut Transform,
        world: &CollisionModule,
        commands: &mut Vec<Command>,
    ) {
        commands.push(self.RegisterCommand(id, transform.WorldPosition));
    }

    fn update(
        &mut self,
        id: EntityId,
        transform: &mut Transform,
        frame: &GameFrame,
        world: &CollisionModule,
        commands: &mut Vec<Command>,
    ) {
        commands.push(self.MoveCommand(id, transform.WorldPosition));
    }

    fn OnDestroy(
        &mut self,
        id: EntityId,
        transform: &mut Transform,
        world: &CollisionModule,
        commands: &mut Vec<Command>,
    ) {
        commands.push(self.DeregisterCommand(id));
    }
}

impl TNewLevelClone for Collider {
    fn LevelClone(&self) -> Self {
        Collider::Create(self._data.Origin(), self._data.Size(), self._data.Type(), self._data.Tag())
    }
}

/// A starting point for new behaviors: it does nothing.
pub struct ComponentTemplate {}

impl ComponentTemplate {
    pub fn Create() -> (r: Self) {
        ComponentTemplate {  }
    }
}

impl Component for ComponentTemplate {
    fn ComponentTypeName(&self) -> String {
        "ComponentTemplate".to_owned()
    }

    fn start(
        &mut self,
        id: EntityId,
        transform: &mut Transform,
        world: &CollisionModule,
        commands: &mut Vec<Command>,
    ) {
    }

    fn update(
        &mut self,
        id: EntityId,
        transform: &mut Transform,
        frame: &GameFrame,
        world: &CollisionModule,
        commands: &mut Vec<Command>,
    ) {
    }

    fn OnDestroy(
        &mut self,
        id: EntityId,
        transform: &mut Transform,
        world: &CollisionModule,
        commands: &mut Vec<Command>,
    ) {
    }
}

} // verus!
