use vstd::prelude::*;
use crate::collider::ColliderData;
use crate::entity::{Component, Entity, Hook, Transform, pass};
use crate::frame::GameFrame;
use crate::game_api::{
    Command, EngineFault, GameAPI, lemma_applied_grows, lemma_grows_refl, lemma_grows_trans,
};
use crate::identity::EntityId;

verus! {

/// The identities of `s`, in order.
pub open spec fn ids_of<C: Component>(s: Seq<Entity<C>>) -> Seq<EntityId> {
    s.map_values(|e: Entity<C>| e.spec_id())
}

/// The identities of `ids` that are (`want`) or are not (`!want`) in `dead`,
/// in order.
pub open spec fn select(ids: Seq<EntityId>, dead: Seq<EntityId>, want: bool) -> Seq<EntityId>
    decreases ids.len(),
{
    if ids.len() == 0 {
        ids
    } else {
        let rest = select(ids.drop_last(), dead, want);
        if dead.contains(ids.last()) == want {
            rest.push(ids.last())
        } else {
            rest
        }
    }
}

/// The entities of `s` whose identity is not in `dead`, in order.
pub open spec fn survivors<C: Component>(s: Seq<Entity<C>>, dead: Seq<EntityId>) -> Seq<Entity<C>>
    decreases s.len(),
{
    if s.len() == 0 {
        s
    } else {
        let rest = survivors(s.drop_last(), dead);
        if dead.contains(s.last().spec_id()) {
            rest
        } else {
            rest.push(s.last())
        }
    }
}

/// Whether `new` holds the same entities as `old`, position by position, up
/// to what hooks may change (transforms, behavior state, lifecycle flags).
pub open spec fn same_frames<C: Component>(old: Seq<Entity<C>>, new: Seq<Entity<C>>) -> bool {
    &&& old.len() == new.len()
    &&& forall|k: int| 0 <= k < old.len() ==> (#[trigger] old[k]).same_frame(&new[k])
}

/// Whether collider entries `new` are `old` with the record of each of the
/// first `upto` entities of `ents` moved to that entity's position, and all
/// other records untouched.
pub open spec fn synced<C: Component>(
    old: Seq<(EntityId, ColliderData)>,
    new: Seq<(EntityId, ColliderData)>,
    ents: Seq<Entity<C>>,
    upto: int,
) -> bool {
    &&& old.len() == new.len()
    &&& forall|j: int| 0 <= j < old.len() ==> (#[trigger] new[j]).0 == old[j].0
    &&& forall|k: int, j: int|
        0 <= k < upto && 0 <= j < old.len() && old[j].0 == (#[trigger] ents[k]).spec_id()
            ==> old[j].1.moved_to(ents[k].spec_transform().WorldPosition, #[trigger] new[j].1)
    &&& forall|j: int|
        0 <= j < old.len() && (forall|k: int| 0 <= k < upto ==> old[j].0 != (#[trigger] ents[k]).spec_id())
            ==> #[trigger] new[j] == old[j]
}

/// Every survivor of `s` is an entity of `s`.
proof fn lemma_survivors_from<C: Component>(s: Seq<Entity<C>>, dead: Seq<EntityId>)
    ensures
        forall|i: int|
            0 <= i < survivors(s, dead).len() ==> exists|m: int|
                0 <= m < s.len() && s[m] == #[trigger] survivors(s, dead)[i],
    decreases s.len(),
{
    if s.len() > 0 {
        let prev = s.drop_last();
        lemma_survivors_from(prev, dead);
        assert forall|i: int| 0 <= i < survivors(s, dead).len() implies exists|m: int|
            0 <= m < s.len() && s[m] == #[trigger] survivors(s, dead)[i] by {
            if i < survivors(prev, dead).len() {
                let m = choose|m: int| 0 <= m < prev.len() && prev[m] == survivors(prev, dead)[i];
                assert(s[m] == survivors(s, dead)[i]);
            } else {
                assert(s[s.len() - 1] == survivors(s, dead)[i]);
            }
        }
    }
}

/// The hook calls that the start phase adds to `e`: one start pass when it
/// has not started yet, none otherwise.
pub open spec fn start_gain<C: Component>(e: Entity<C>) -> Seq<(Hook, int)> {
    if e.spec_started() {
        Seq::empty()
    } else {
        pass(Hook::Start, e.components().len() as int)
    }
}

/// Where no identity of `s` is in `dead`, every entity survives.
proof fn lemma_survivors_all<C: Component>(s: Seq<Entity<C>>, dead: Seq<EntityId>)
    requires
        forall|m: int| 0 <= m < s.len() ==> !dead.contains(#[trigger] s[m].spec_id()),
    ensures
        survivors(s, dead) == s,
    decreases s.len(),
{
    if s.len() > 0 {
        let prev = s.drop_last();
        assert forall|m: int| 0 <= m < prev.len() implies !dead.contains(#[trigger] prev[m].spec_id()) by {
            assert(prev[m] == s[m]);
        }
        lemma_survivors_all(prev, dead);
        assert(!dead.contains(s[s.len() - 1].spec_id()));
        assert(prev.push(s.last()) =~= s);
    }
}

/// Whether `id` occurs in `ids`.
fn id_in(ids: &Vec<EntityId>, id: &EntityId) -> (r: bool)
    ensures
        r == ids@.contains(*id),
{
    let mut i: usize = 0;
    while i < ids.len()
        invariant
            i <= ids@.len(),
            forall|k: int| 0 <= k < i ==> ids@[k] != *id,
        decreases ids@.len() - i,
    {
        if ids[i] == *id {
            return true;
        }
        i = i + 1;
    }
    false
}

/// The live entities of a scene, driven frame by frame.
pub struct Entities<C> {
    _entities: Vec<Entity<C>>,
}

impl<C: Component> Entities<C> {
    /// The live entities, in order of addition.
    pub closed spec fn list(&self) -> Seq<Entity<C>> {
        self._entities@
    }

    pub open spec fn ids(&self) -> Seq<EntityId> {
        ids_of(self.list())
    }

    /// Every entity is well formed and not destroyed, and no identity occurs
    /// twice.
    pub open spec fn wf(&self) -> bool {
        &&& forall|k: int|
            0 <= k < self.list().len() ==> (#[trigger] self.list()[k]).wf()
                && !self.list()[k].spec_destroyed()
        &&& forall|a: int, b: int|
            0 <= a < b < self.list().len() ==> self.list()[a].spec_id()
                != self.list()[b].spec_id()
    }

    pub fn Create() -> (r: Self)
        ensures
            r.wf(),
            r.list().len() == 0,
    {
        Entities { _entities: Vec::new() }
    }

    /// Number of live entities.
    pub fn Len(&self) -> (r: usize)
        ensures
            r == self.list().len(),
    {
        self._entities.len()
    }

    /// The entity at position `i`.
    pub fn Get(&self, i: usize) -> (r: &Entity<C>)
        requires
            i < self.list().len(),
        ensures
            *r == self.list()[i as int],
    {
        &self._entities[i]
    }

    /// Sets the transform of the entity at position `i`.
    pub fn SetEntityTransform(&mut self, i: usize, transform: Transform)
        requires
            old(self).wf(),
            i < old(self).list().len(),
        ensures
            final(self).wf(),
            same_frames(old(self).list(), final(self).list()),
            final(self).list()[i as int].spec_transform() == transform,
            forall|k: int|
                0 <= k < old(self).list().len() && k != i ==> #[trigger] final(self).list()[k]
                    == old(self).list()[k],
    {
        self._entities[i].SetTransform(transform);
    }

    /// Whether an entity with identity `id` is live.
    pub fn ContainsEntity(&self, id: &EntityId) -> (r: bool)
        ensures
            r == self.ids().contains(*id),
    {
        let mut i: usize = 0;
        while i < self._entities.len()
            invariant
                i <= self.list().len(),
                forall|k: int| 0 <= k < i ==> self.list()[k].spec_id() != *id,
            decreases self.list().len() - i,
        {
            if self._entities[i].ID() == *id {
                assert(self.ids()[i as int] == *id);
                return true;
            }
            i = i + 1;
        }
        assert(!self.ids().contains(*id)) by {
            if self.ids().contains(*id) {
                let k = choose|k: int| 0 <= k < self.ids().len() && self.ids()[k] == *id;
                assert(self.list()[k].spec_id() == *id);
            }
        }
        false
    }

    /// Adds an entity to the scene; its identity must be new to the scene.
    pub fn AddEntity(&mut self, entity: Entity<C>)
        requires
            old(self).wf(),
            entity.wf(),
            !entity.spec_destroyed(),
            !old(self).ids().contains(entity.spec_id()),
        ensures
            final(self).wf(),
            final(self).list() == old(self).list().push(entity),
    {
        self._entities.push(entity);
        proof {
            assert forall|a: int, b: int|
                0 <= a < b < self.list().len() implies self.list()[a].spec_id()
                != self.list()[b].spec_id() by {
                if b == self.list().len() - 1 {
                    assert(old(self).ids()[a] == self.list()[a].spec_id());
                }
            }
        }
    }

    /// Moves the collider of every live entity that has one to the entity's
    /// current position. This runs before any behavior updates in a frame, so
    /// that collision queries see this frame's positions.
    pub fn SyncColliders(&self, api: &mut GameAPI)
        requires
            self.wf(),
            old(api).wf(),
        ensures
            final(api).wf(),
            final(api).dead() == old(api).dead(),
            GameAPI::grows(*old(api), *final(api)),
            synced(
                old(api).world().entries(),
                final(api).world().entries(),
                self.list(),
                self.list().len() as int,
            ),
    {
        let ghost start = api.world().entries();
        let mut i: usize = 0;
        proof {
            lemma_grows_refl(*api);
        }
        while i < self._entities.len()
            invariant
                i <= self.list().len(),
                self.wf(),
                api.wf(),
                api.dead() == old(api).dead(),
                start == old(api).world().entries(),
                GameAPI::grows(*old(api), *api),
                synced(start, api.world().entries(), self.list(), i as int),
            decreases self.list().len() - i,
        {
            let e = &self._entities[i];
            let id = e.ID();
            let ghost before = api.world().entries();
            let ghost before_api = *api;
            if api.World().Contains(&id) {
                let cmd = Command::MoveCollider(id, e.GetTransform().WorldPosition);
                let outcome = api.ApplyCommand(cmd);
                proof {
                    lemma_applied_grows(before_api, *api, cmd, outcome);
                    lemma_grows_trans(*old(api), before_api, *api);
                    let after = api.world().entries();
                    assert forall|k: int, j: int|
                        0 <= k < i + 1 && 0 <= j < start.len() && start[j].0 == (
                        #[trigger] self.list()[k]).spec_id() implies start[j].1.moved_to(
                        self.list()[k].spec_transform().WorldPosition,
                        #[trigger] after[j].1,
                    ) by {
                        if k < i {
                            assert(self.list()[k].spec_id() != self.list()[i as int].spec_id());
                            assert(after[j] == before[j]);
                        } else {
                            assert forall|m: int| 0 <= m < i implies start[j].0 != (
                            #[trigger] self.list()[m]).spec_id() by {
                                assert(self.list()[m].spec_id() != self.list()[i as int].spec_id());
                            }
                            assert(before[j] == start[j]);
                        }
                    }
                    assert forall|j: int|
                        0 <= j < start.len() && (forall|k: int|
                            0 <= k < i + 1 ==> start[j].0 != (#[trigger] self.list()[k]).spec_id())
                        implies #[trigger] after[j] == start[j] by {
                        assert(start[j].0 != self.list()[i as int].spec_id());
                        assert forall|k: int| 0 <= k < i implies start[j].0 != (
                        #[trigger] self.list()[k]).spec_id() by {
                            assert(start[j].0 != self.list()[k].spec_id());
                        }
                    }
                }
            } else {
                proof {
                    assert forall|j: int| 0 <= j < start.len() implies start[j].0
                        != self.list()[i as int].spec_id() by {
                        assert(!api.world().is_slot(j, id));
                    }
                }
            }
            i = i + 1;
        }
    }

    /// Starts every live entity that has not started yet, in order: each
    /// such entity gains one start pass over its behaviors, and entities
    /// already started are left as they are. Nothing can fail where no
    /// start hook runs.
    pub fn Start(&mut self, api: &mut GameAPI) -> (r: Result<(), EngineFault>)
        requires
            old(self).wf(),
            old(api).wf(),
        ensures
            final(self).wf(),
            final(api).wf(),
            same_frames(old(self).list(), final(self).list()),
            GameAPI::grows(*old(api), *final(api)),
            r is Err ==> GameAPI::fault_of(*final(api), r),
            (forall|k: int|
                0 <= k < old(self).list().len() ==> (#[trigger] old(self).list()[k]).spec_started()
                    || old(self).list()[k].components().len() == 0) ==> r is Ok,
            r is Ok ==> forall|k: int|
                0 <= k < final(self).list().len() ==> (#[trigger] final(self).list()[k]).spec_started(),
            r is Ok ==> forall|k: int|
                0 <= k < old(self).list().len() ==> #[trigger] final(self).list()[k].trace()
                    == old(self).list()[k].trace() + start_gain(old(self).list()[k]),
            forall|k: int|
                0 <= k < old(self).list().len() && (#[trigger] old(self).list()[k]).spec_started()
                    ==> final(self).list()[k] == old(self).list()[k],
    {
        let mut i: usize = 0;
        proof {
            lemma_grows_refl(*api);
        }
        while i < self._entities.len()
            invariant
                i <= self.list().len(),
                self.wf(),
                api.wf(),
                same_frames(old(self).list(), self.list()),
                GameAPI::grows(*old(api), *api),
                forall|k: int| 0 <= k < i ==> (#[trigger] self.list()[k]).spec_started(),
                forall|k: int|
                    0 <= k < i ==> #[trigger] self.list()[k].trace() == old(self).list()[k].trace()
                        + start_gain(old(self).list()[k]),
                forall|k: int|
                    i <= k < self.list().len() ==> #[trigger] self.list()[k] == old(self).list()[k],
                forall|k: int|
                    0 <= k < self.list().len() && (#[trigger] old(self).list()[k]).spec_started()
                        ==> self.list()[k] == old(self).list()[k],
            decreases self.list().len() - i,
        {
            if !self._entities[i].HasStartBeenCalled() {
                let ghost before = *api;
                let outcome = self._entities[i].Start(api);
                proof {
                    lemma_grows_trans(*old(api), before, *api);
                }
                if outcome.is_err() {
                    return outcome;
                }
            } else {
                proof {
                    assert(old(self).list()[i as int].trace() + start_gain(old(self).list()[i as int])
                        =~= old(self).list()[i as int].trace());
                }
            }
            i = i + 1;
        }
        Ok(())
    }

    /// Updates every live entity, in order, with this frame's snapshot: each
    /// gains one update pass over its behaviors. Nothing can fail where no
    /// update hook runs.
    pub fn Update(&mut self, frame: &GameFrame, api: &mut GameAPI) -> (r: Result<(), EngineFault>)
        requires
            old(self).wf(),
            old(api).wf(),
            forall|k: int|
                0 <= k < old(self).list().len() ==> (#[trigger] old(self).list()[k]).spec_started(),
        ensures
            final(self).wf(),
            final(api).wf(),
            same_frames(old(self).list(), final(self).list()),
            GameAPI::grows(*old(api), *final(api)),
            r is Err ==> GameAPI::fault_of(*final(api), r),
            (forall|k: int|
                0 <= k < old(self).list().len() ==> (#[trigger] old(self).list()[k]).components().len()
                    == 0) ==> r is Ok,
            forall|k: int|
                0 <= k < final(self).list().len() ==> (#[trigger] final(self).list()[k]).spec_started(),
            r is Ok ==> forall|k: int|
                0 <= k < old(self).list().len() ==> #[trigger] final(self).list()[k].trace()
                    == old(self).list()[k].trace() + pass(
                    Hook::Update,
                    old(self).list()[k].components().len() as int,
                ),
    {
        let mut i: usize = 0;
        proof {
            lemma_grows_refl(*api);
        }
        while i < self._entities.len()
            invariant
                i <= self.list().len(),
                self.wf(),
                api.wf(),
                same_frames(old(self).list(), self.list()),
                GameAPI::grows(*old(api), *api),
                forall|k: int| 0 <= k < self.list().len() ==> (#[trigger] self.list()[k]).spec_started(),
                forall|k: int|
                    0 <= k < i ==> #[trigger] self.list()[k].trace() == old(self).list()[k].trace()
                        + pass(Hook::Update, old(self).list()[k].components().len() as int),
                forall|k: int|
                    i <= k < self.list().len() ==> #[trigger] self.list()[k] == old(self).list()[k],
            decreases self.list().len() - i,
        {
            let ghost before = *api;
            let outcome = self._entities[i].Update(frame, api);
            proof {
                lemma_grows_trans(*old(api), before, *api);
            }
            if outcome.is_err() {
                return outcome;
            }
            i = i + 1;
        }
        Ok(())
    }

    /// One frame of simulation before rendering: first synchronize every
    /// collider with its entity's position, then start the entities not yet
    /// started, then update every entity. `mid` in the contract is the state
    /// reached after synchronizing, before any hook runs.
    pub fn RunFrame(&mut self, frame: &GameFrame, api: &mut GameAPI) -> (r: Result<(), EngineFault>)
        requires
            old(self).wf(),
            old(api).wf(),
        ensures
            final(self).wf(),
            final(api).wf(),
            same_frames(old(self).list(), final(self).list()),
            GameAPI::grows(*old(api), *final(api)),
            r is Err ==> GameAPI::fault_of(*final(api), r),
            old(self).list().len() == 0 ==> r is Ok,
            exists|mid: GameAPI|
                {
                    &&& synced(
                        old(api).world().entries(),
                        #[trigger] mid.world().entries(),
                        old(self).list(),
                        old(self).list().len() as int,
                    )
                    &&& mid.dead() == old(api).dead()
                    &&& GameAPI::grows(*old(api), mid)
                    &&& GameAPI::grows(mid, *final(api))
                },
            r is Ok ==> forall|k: int|
                0 <= k < final(self).list().len() ==> (#[trigger] final(self).list()[k]).spec_started(),
            r is Ok ==> forall|k: int|
                0 <= k < old(self).list().len() ==> #[trigger] final(self).list()[k].trace()
                    == old(self).list()[k].trace() + start_gain(old(self).list()[k]) + pass(
                    Hook::Update,
                    old(self).list()[k].components().len() as int,
                ),
    {
        self.SyncColliders(api);
        let ghost mid = *api;
        let ghost before_start = self.list();
        let started = self.Start(api);
        if started.is_err() {
            proof {
                lemma_grows_trans(*old(api), mid, *api);
            }
            return started;
        }
        let ghost after_start = self.list();
        let ghost api_started = *api;
        let updated = self.Update(frame, api);
        proof {
            lemma_grows_trans(mid, api_started, *api);
            lemma_grows_trans(*old(api), mid, *api);
            if updated is Ok {
                assert forall|k: int| 0 <= k < old(self).list().len() implies #[trigger] self.list()[k].trace()
                    == old(self).list()[k].trace() + start_gain(old(self).list()[k]) + pass(
                    Hook::Update,
                    old(self).list()[k].components().len() as int,
                ) by {
                    assert(after_start[k].trace() == old(self).list()[k].trace() + start_gain(old(self).list()[k]));
                    assert(after_start[k].components().len() == old(self).list()[k].components().len());
                }
            }
        }
        updated
    }

    /// Removes every entity marked dead this frame: each one's on-destroy
    /// hooks run once, before it leaves the scene, and the dead-entity set is
    /// emptied: afterwards it holds only marks queued by those on-destroy
    /// hooks. Returns the removed entities, in scene order. Nothing can fail
    /// where no entity is marked. Runs after updates and rendering, never
    /// during them.
    pub fn PruneDeadEntities(&mut self, api: &mut GameAPI) -> (r: Result<Vec<Entity<C>>, EngineFault>)
        requires
            old(self).wf(),
            old(api).wf(),
        ensures
            final(self).wf(),
            final(api).wf(),
            r matches Ok(removed) ==> {
                &&& final(self).list() == survivors(old(self).list(), old(api).dead())
                &&& ids_of(removed@) == select(old(self).ids(), old(api).dead(), true)
                &&& forall|k: int| 0 <= k < removed@.len() ==> (#[trigger] removed@[k]).destroyed_once()
            },
            r matches Err(f) ==> GameAPI::fault_of(*final(api), Err::<(), EngineFault>(f)),
            old(api).log().len() <= final(api).log().len(),
            final(api).log().take(old(api).log().len() as int) == old(api).log(),
            forall|x: EntityId|
                #[trigger] final(api).dead().contains(x) ==> exists|i: int|
                    old(api).log().len() <= i < final(api).log().len() && final(api).log()[i]
                        == Command::MarkDead(x),
            (forall|k: int|
                0 <= k < old(self).list().len() ==> !old(api).dead().contains(
                    #[trigger] old(self).list()[k].spec_id(),
                )) ==> {
                &&& r is Ok
                &&& final(api).dead().len() == 0
                &&& final(self).list() == old(self).list()
            },
    {
        let ghost orig = self.list();
        let dead = api.TakeDeadEntities();
        let ghost taken = *api;
        proof {
            lemma_grows_refl(taken);
        }
        let mut pending: Vec<Entity<C>> = Vec::new();
        std::mem::swap(&mut pending, &mut self._entities);
        let mut removed: Vec<Entity<C>> = Vec::new();
        let ghost mut k: int = 0;
        proof {
            assert(orig.take(0) =~= Seq::<Entity<C>>::empty());
            assert(ids_of(orig.take(0)) =~= Seq::<EntityId>::empty());
            assert(ids_of(removed@) =~= Seq::<EntityId>::empty());
            assert(pending@ =~= orig.subrange(0, orig.len() as int));
        }
        while pending.len() > 0
            invariant
                orig == old(self).list(),
                dead@ == old(api).dead(),
                0 <= k <= orig.len(),
                pending@ == orig.subrange(k, orig.len() as int),
                self.list() == survivors(orig.take(k), dead@),
                ids_of(removed@) == select(ids_of(orig.take(k)), dead@, true),
                forall|m: int| 0 <= m < removed@.len() ==> (#[trigger] removed@[m]).destroyed_once(),
                self.wf(),
                api.wf(),
                old(self).wf(),
                taken.log() == old(api).log(),
                taken.dead().len() == 0,
                GameAPI::grows(taken, *api),
                removed@.len() == 0 ==> *api == taken,
                (forall|m: int|
                    0 <= m < orig.len() ==> !dead@.contains(#[trigger] orig[m].spec_id()))
                    ==> removed@.len() == 0,
            decreases pending@.len(),
        {
            let mut e = pending.remove(0);
            let ghost next = orig.take(k + 1);
            proof {
                assert(e == orig[k]);
                assert(next.drop_last() =~= orig.take(k));
                assert(next.last() == e);
                assert(ids_of(next).drop_last() =~= ids_of(orig.take(k)));
                assert(ids_of(next).last() == e.spec_id());
            }
            if id_in(&dead, &e.ID()) {
                let ghost before_api = *api;
                let outcome = e.OnDestroy(api);
                proof {
                    lemma_grows_trans(taken, before_api, *api);
                }
                if outcome.is_err() {
                    return Err(outcome.unwrap_err());
                }
                let ghost before = removed@;
                removed.push(e);
                proof {
                    assert(ids_of(removed@) =~= ids_of(before).push(e.spec_id()));
                }
            } else {
                proof {
                    lemma_survivors_from(orig.take(k), dead@);
                    assert forall|a: int| 0 <= a < self.list().len() implies self.list()[a].spec_id()
                        != e.spec_id() by {
                        let x = self.list()[a];
                        let m = choose|m: int|
                            0 <= m < orig.take(k).len() && orig.take(k)[m] == survivors(
                                orig.take(k),
                                dead@,
                            )[a];
                        assert(orig[m] == x);
                    }
                }
                self._entities.push(e);
            }
            proof {
                k = k + 1;
            }
        }
        proof {
            assert(orig.take(k) =~= orig);
            if forall|m: int| 0 <= m < orig.len() ==> !dead@.contains(#[trigger] orig[m].spec_id()) {
                lemma_survivors_all(orig, dead@);
            }
        }
        Ok(removed)
    }
}

/// Pruning removes exactly the marked entities: the survivors are the
/// entities whose identity is not marked, the removed identities are all
/// marked, and the surviving identities are all unmarked.
pub proof fn lemma_prune_exact<C: Component>(s: Seq<Entity<C>>, dead: Seq<EntityId>)
    ensures
        ids_of(survivors(s, dead)) == select(ids_of(s), dead, false),
        forall|i: int|
            0 <= i < select(ids_of(s), dead, true).len() ==> dead.contains(
                #[trigger] select(ids_of(s), dead, true)[i],
            ),
        forall|i: int|
            0 <= i < select(ids_of(s), dead, false).len() ==> !dead.contains(
                #[trigger] select(ids_of(s), dead, false)[i],
            ),
    decreases s.len(),
{
    if s.len() > 0 {
        let prev = s.drop_last();
        lemma_prune_exact(prev, dead);
        assert(ids_of(s).drop_last() =~= ids_of(prev));
        assert(ids_of(s).last() == s.last().spec_id());
        let t = select(ids_of(s), dead, true);
        let f = select(ids_of(s), dead, false);
        if dead.contains(s.last().spec_id()) {
            assert forall|i: int| 0 <= i < t.len() implies dead.contains(#[trigger] t[i]) by {
                if i < t.len() - 1 {
                    assert(t[i] == select(ids_of(prev), dead, true)[i]);
                }
            }
            assert(f == select(ids_of(prev), dead, false));
        } else {
            assert forall|i: int| 0 <= i < f.len() implies !dead.contains(#[trigger] f[i]) by {
                if i < f.len() - 1 {
                    assert(f[i] == select(ids_of(prev), dead, false)[i]);
                }
            }
            assert(t == select(ids_of(prev), dead, true));
            assert(ids_of(survivors(s, dead)) =~= ids_of(survivors(prev, dead)).push(
                s.last().spec_id(),
            ));
        }
    } else {
        assert(ids_of(survivors(s, dead)) =~= select(ids_of(s), dead, false));
    }
}

/// Every scene operation that keeps entities frame by frame (start, update,
/// a whole frame, collider sync) keeps the identities of the scene, in order:
/// no entity is added, removed or re-identified.
pub proof fn lemma_scene_ids_stable<C: Component>(before: Seq<Entity<C>>, after: Seq<Entity<C>>)
    requires
        same_frames(before, after),
    ensures
        ids_of(after) == ids_of(before),
{
    assert(ids_of(after) =~= ids_of(before));
}

} // verus!
