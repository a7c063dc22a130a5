use vstd::prelude::*;
use crate::collider::ColliderData;
use crate::collision::CollisionModule;
use crate::geometry::Vec3;
use crate::identity::EntityId;

verus! {

/// A structural change that a behavior asks for. Behaviors never change the
/// collision world or the dead-entity set themselves: they queue commands,
/// which the runtime applies as soon as the behavior's hook returns.
#[derive(Clone, Copy, Debug)]
pub enum Command {
    /// Register a collider for an entity.
    Register(EntityId, ColliderData),
    /// Deregister the collider of an entity.
    Deregister(EntityId),
    /// Move the collider of an entity.
    MoveCollider(EntityId, Vec3),
    /// Resize the collider of an entity.
    ResizeCollider(EntityId, Vec3),
    /// Mark an entity for removal at the end of the frame.
    MarkDead(EntityId),
}

/// A collision-world operation that needs a registered identity.
#[derive(Clone, Copy, Debug, PartialEq, Eq, Structural)]
pub enum ColliderOp {
    Remove,
    UpdateOrigin,
    UpdateSize,
}

/// An inconsistency in entity bookkeeping: the host must stop with a message
/// that names the entity and the operation.
#[derive(Clone, Copy, Debug, PartialEq, Eq, Structural)]
pub enum EngineFault {
    /// A collider was registered twice for the same entity.
    DuplicateRegistration(EntityId),
    /// The entity has no collider for the operation.
    MissingRegistration(EntityId, ColliderOp),
}

/// The dead-entity sequence after marking `id`: unchanged when `id` is
/// already there, else `id` appended.
pub open spec fn marked(dead: Seq<EntityId>, id: EntityId) -> Seq<EntityId> {
    if dead.contains(id) {
        dead
    } else {
        dead.push(id)
    }
}

/// State shared with behaviors: the collision world and the set of entities
/// marked for removal this frame.
pub struct GameAPI {
    _collision: CollisionModule,
    _deadEntities: Vec<EntityId>,
    _log: Ghost<Seq<Command>>,
}

impl GameAPI {
    /// Whether applying every command of `cmds` in turn to `old`, each with
    /// success, gives `new`.
    pub open spec fn applied_all(old: GameAPI, new: GameAPI, cmds: Seq<Command>) -> bool
        decreases cmds.len(),
    {
        if cmds.len() == 0 {
            new == old
        } else {
            exists|mid: GameAPI|
                Self::applied_all(old, mid, cmds.drop_last()) && #[trigger] Self::applied(
                    mid,
                    new,
                    cmds.last(),
                    Ok(()),
                )
        }
    }

    /// Identities marked dead this frame, in order of marking.
    pub closed spec fn dead(&self) -> Seq<EntityId> {
        self._deadEntities@
    }

    /// Every command applied with success so far, in order.
    pub closed spec fn log(&self) -> Seq<Command> {
        self._log@
    }

    /// The collision world.
    pub closed spec fn world(&self) -> CollisionModule {
        self._collision
    }

    pub open spec fn wf(&self) -> bool {
        &&& self.world().wf()
        &&& self.dead().no_duplicates()
    }

    /// What applying `cmd` to `old` does: `new` is the resulting state and
    /// `r` the outcome. A command applied with success joins the log.
    pub open spec fn applied(
        old: GameAPI,
        new: GameAPI,
        cmd: Command,
        r: Result<(), EngineFault>,
    ) -> bool {
        &&& Self::effect(old, new, cmd, r)
        &&& r is Ok ==> new.log() == old.log().push(cmd)
    }

    /// Whether `new` differs from `old` only by commands applied after it:
    /// the log of `old` is kept and extended, and every identity marked dead
    /// in `new` was marked in `old` or by a command added to the log since.
    pub open spec fn grows(old: GameAPI, new: GameAPI) -> bool {
        &&& old.log().len() <= new.log().len()
        &&& new.log().take(old.log().len() as int) == old.log()
        &&& forall|x: EntityId|
            #[trigger] new.dead().contains(x) ==> old.dead().contains(x) || exists|i: int|
                old.log().len() <= i < new.log().len() && new.log()[i] == Command::MarkDead(x)
    }

    /// Whether `r` is the fault that some command meets in state `api`.
    pub open spec fn fault_of(api: GameAPI, r: Result<(), EngineFault>) -> bool {
        &&& r is Err
        &&& exists|cmd: Command| #[trigger] Self::applied(api, api, cmd, r)
    }

    /// The effect of `cmd` on the collision world and the dead-entity set.
    pub open spec fn effect(
        old: GameAPI,
        new: GameAPI,
        cmd: Command,
        r: Result<(), EngineFault>,
    ) -> bool {
        match cmd {
            Command::Register(id, c) => if old.world().has(id) {
                &&& r == Err::<(), EngineFault>(EngineFault::DuplicateRegistration(id))
                &&& new == old
            } else {
                &&& r is Ok
                &&& new.world().entries() == old.world().entries().push((id, c))
                &&& new.dead() == old.dead()
            },
            Command::Deregister(id) => if !old.world().has(id) {
                &&& r == Err::<(), EngineFault>(
                    EngineFault::MissingRegistration(id, ColliderOp::Remove),
                )
                &&& new == old
            } else {
                &&& r is Ok
                &&& exists|i: int|
                    old.world().is_slot(i, id) && new.world().entries()
                        == old.world().entries().remove(i)
                &&& new.dead() == old.dead()
            },
            Command::MoveCollider(id, p) => if !old.world().has(id) {
                &&& r == Err::<(), EngineFault>(
                    EngineFault::MissingRegistration(id, ColliderOp::UpdateOrigin),
                )
                &&& new == old
            } else {
                &&& r is Ok
                &&& CollisionModule::origin_updated(old.world(), new.world(), id, p)
                &&& new.dead() == old.dead()
            },
            Command::ResizeCollider(id, s) => if !old.world().has(id) {
                &&& r == Err::<(), EngineFault>(
                    EngineFault::MissingRegistration(id, ColliderOp::UpdateSize),
                )
                &&& new == old
            } else {
                &&& r is Ok
                &&& CollisionModule::size_updated(old.world(), new.world(), id, s)
                &&& new.dead() == old.dead()
            },
            Command::MarkDead(id) => {
                &&& r is Ok
                &&& new.world() == old.world()
                &&& new.dead() == marked(old.dead(), id)
            },
        }
    }

    pub fn Create() -> (r: Self)
        ensures
            r.wf(),
            r.world().entries().len() == 0,
            r.dead().len() == 0,
            r.log().len() == 0,
    {
        GameAPI {
            _collision: CollisionModule::Create(),
            _deadEntities: Vec::new(),
            _log: Ghost(Seq::empty()),
        }
    }

    /// The collision world, for queries.
    pub fn World(&self) -> (r: &CollisionModule)
        ensures
            *r == self.world(),
    {
        &self._collision
    }

    /// Whether `id` is marked dead.
    pub fn IsMarkedDead(&self, id: &EntityId) -> (r: bool)
        ensures
            r == self.dead().contains(*id),
    {
        let mut i: usize = 0;
        while i < self._deadEntities.len()
            invariant
                i <= self._deadEntities@.len(),
                forall|k: int| 0 <= k < i ==> self._deadEntities@[k] != *id,
            decreases self._deadEntities@.len() - i,
        {
            if self._deadEntities[i] == *id {
                return true;
            }
            i = i + 1;
        }
        false
    }

    /// Marks `id` for removal at the end of the frame. Marking an entity
    /// that is already marked changes nothing.
    pub fn MarkEntityDead(&mut self, id: &EntityId)
        requires
            old(self).wf(),
        ensures
            final(self).wf(),
            final(self).world() == old(self).world(),
            final(self).dead() == marked(old(self).dead(), *id),
            final(self).log() == old(self).log(),
    {
        if self.IsMarkedDead(id) {
            return;
        }
        self._deadEntities.push(*id);
    }

    /// Empties the dead-entity set and returns what it held.
    pub fn TakeDeadEntities(&mut self) -> (r: Vec<EntityId>)
        requires
            old(self).wf(),
        ensures
            final(self).wf(),
            final(self).world() == old(self).world(),
            final(self).dead().len() == 0,
            final(self).log() == old(self).log(),
            r@ == old(self).dead(),
    {
        let mut taken: Vec<EntityId> = Vec::new();
        std::mem::swap(&mut taken, &mut self._deadEntities);
        taken
    }

    /// Applies one command.
    pub fn ApplyCommand(&mut self, cmd: Command) -> (r: Result<(), EngineFault>)
        requires
            old(self).wf(),
        ensures
            final(self).wf(),
            Self::applied(*old(self), *final(self), cmd, r),
    {
        match cmd {
            Command::Register(id, c) => {
                if self._collision.Contains(&id) {
                    return Err(EngineFault::DuplicateRegistration(id));
                }
                self._collision.Add(id, c);
            },
            Command::Deregister(id) => {
                if !self._collision.Contains(&id) {
                    return Err(EngineFault::MissingRegistration(id, ColliderOp::Remove));
                }
                self._collision.Remove(id);
            },
            Command::MoveCollider(id, p) => {
                if !self._collision.Contains(&id) {
                    return Err(EngineFault::MissingRegistration(id, ColliderOp::UpdateOrigin));
                }
                self._collision.UpdateOrigin(id, p);
            },
            Command::ResizeCollider(id, s) => {
                if !self._collision.Contains(&id) {
                    return Err(EngineFault::MissingRegistration(id, ColliderOp::UpdateSize));
                }
                self._collision.UpdateSize(id, s);
            },
            Command::MarkDead(id) => {
                self.MarkEntityDead(&id);
            },
        }
        self._log = Ghost(self._log@.push(cmd));
        Ok(())
    }

    /// Applies `cmds` in order, stopping at the first that fails.
    pub fn ApplyCommands(&mut self, cmds: &Vec<Command>) -> (r: Result<(), EngineFault>)
        requires
            old(self).wf(),
        ensures
            final(self).wf(),
            Self::grows(*old(self), *final(self)),
            cmds@.len() == 0 ==> r is Ok && *final(self) == *old(self),
            r is Err ==> Self::fault_of(*final(self), r),
            r is Ok ==> Self::applied_all(*old(self), *final(self), cmds@),
            r is Err ==> exists|k: int, mid: GameAPI|
                0 <= k < cmds@.len() && #[trigger] Self::applied_all(
                    *old(self),
                    mid,
                    cmds@.take(k),
                ) && Self::applied(mid, *final(self), cmds@[k], r),
    {
        let ghost start = *self;
        let mut i: usize = 0;
        proof {
            assert(cmds@.take(0).len() == 0);
        }
        while i < cmds.len()
            invariant
                i <= cmds@.len(),
                self.wf(),
                start == *old(self),
                Self::applied_all(start, *self, cmds@.take(i as int)),
            decreases cmds@.len() - i,
        {
            let ghost before = *self;
            let outcome = self.ApplyCommand(cmds[i]);
            if outcome.is_err() {
                proof {
                    assert(0 <= i < cmds@.len() && Self::applied_all(start, before, cmds@.take(i as int))
                        && Self::applied(before, *self, cmds@[i as int], outcome));
                    lemma_applied_all_grows(start, before, cmds@.take(i as int));
                    lemma_applied_grows(before, *self, cmds@[i as int], outcome);
                    lemma_grows_trans(start, before, *self);
                    assert(*self == before);
                    assert(Self::applied(*self, *self, cmds@[i as int], outcome));
                }
                return outcome;
            }
            proof {
                let next = cmds@.take(i + 1);
                assert(next.drop_last() =~= cmds@.take(i as int));
                assert(next.last() == cmds@[i as int]);
                assert(Self::applied(before, *self, next.last(), Ok(())));
            }
            i = i + 1;
        }
        proof {
            assert(cmds@.take(i as int) =~= cmds@);
            lemma_applied_all_grows(start, *self, cmds@);
        }
        Ok(())
    }
}

/// Marking an entity dead twice has the effect of marking it once.
pub proof fn lemma_mark_idempotent(dead: Seq<EntityId>, id: EntityId)
    ensures
        marked(marked(dead, id), id) == marked(dead, id),
{
    assert(marked(dead, id).contains(id)) by {
        if !dead.contains(id) {
            assert(dead.push(id)[dead.len() as int] == id);
        }
    }
}

/// A state grows from itself.
pub proof fn lemma_grows_refl(a: GameAPI)
    ensures
        GameAPI::grows(a, a),
{
    assert(a.log().take(a.log().len() as int) =~= a.log());
}

/// Growing is transitive.
pub proof fn lemma_grows_trans(a: GameAPI, b: GameAPI, c: GameAPI)
    requires
        GameAPI::grows(a, b),
        GameAPI::grows(b, c),
    ensures
        GameAPI::grows(a, c),
{
    assert(c.log().take(a.log().len() as int) =~= b.log().take(a.log().len() as int));
    assert forall|x: EntityId| #[trigger] c.dead().contains(x) implies a.dead().contains(x) || exists|
        i: int,
    | a.log().len() <= i < c.log().len() && c.log()[i] == Command::MarkDead(x) by {
        if b.dead().contains(x) {
            if !a.dead().contains(x) {
                let i = choose|i: int|
                    a.log().len() <= i < b.log().len() && b.log()[i] == Command::MarkDead(x);
                assert(c.log().take(b.log().len() as int)[i] == c.log()[i]);
            }
        }
    }
}

/// Applying one command grows the state.
pub proof fn lemma_applied_grows(a: GameAPI, b: GameAPI, cmd: Command, r: Result<(), EngineFault>)
    requires
        GameAPI::applied(a, b, cmd, r),
    ensures
        GameAPI::grows(a, b),
{
    if r is Ok {
        assert(b.log().take(a.log().len() as int) =~= a.log());
        if let Command::MarkDead(id) = cmd {
            assert forall|x: EntityId| #[trigger] b.dead().contains(x) implies a.dead().contains(x)
                || exists|i: int|
                a.log().len() <= i < b.log().len() && b.log()[i] == Command::MarkDead(x) by {
                if !a.dead().contains(x) {
                    if !a.dead().contains(id) {
                        let j = choose|j: int| 0 <= j < b.dead().len() && b.dead()[j] == x;
                        if j < a.dead().len() {
                            assert(a.dead()[j] == x);
                        }
                    }
                    assert(b.log()[a.log().len() as int] == Command::MarkDead(x));
                }
            }
        }
    } else {
        lemma_grows_refl(a);
    }
}

/// Applying a run of commands grows the state.
pub proof fn lemma_applied_all_grows(a: GameAPI, b: GameAPI, cmds: Seq<Command>)
    requires
        GameAPI::applied_all(a, b, cmds),
    ensures
        GameAPI::grows(a, b),
    decreases cmds.len(),
{
    if cmds.len() == 0 {
        lemma_grows_refl(a);
    } else {
        let mid = choose|mid: GameAPI|
            GameAPI::applied_all(a, mid, cmds.drop_last()) && #[trigger] GameAPI::applied(
                mid,
                b,
                cmds.last(),
                Ok(()),
            );
        lemma_applied_all_grows(a, mid, cmds.drop_last());
        lemma_applied_grows(mid, b, cmds.last(), Ok(()));
        lemma_grows_trans(a, mid, b);
    }
}

} // verus!
