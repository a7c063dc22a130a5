use vstd::prelude::*;
use crate::collision::CollisionModule;
use crate::frame::GameFrame;
use crate::game_api::{Command, EngineFault, GameAPI, lemma_grows_refl, lemma_grows_trans};
use crate::geometry::Vec3;
use crate::identity::{EntityId, uuid_variant, uuid_version};

verus! {

/// Where an entity stands and how it is scaled.
#[derive(Clone, Copy, Debug, PartialEq, Eq, Structural)]
pub struct Transform {
    pub WorldPosition: Vec3,
    pub scale: Vec3,
}

/// Behavior attached to an entity.
///
/// Hooks get the entity's identity, its transform to change, the collision
/// world to query, and a queue for the structural changes they ask for.
pub trait Component {
    /// Name of the behavior's concrete kind, used for lookup.
    fn ComponentTypeName(&self) -> String;

    /// Called once, when the entity first becomes live.
    fn start(
        &mut self,
        id: EntityId,
        transform: &mut Transform,
        world: &CollisionModule,
        commands: &mut Vec<Command>,
    );

    /// Called every frame while the entity is live.
    fn update(
        &mut self,
        id: EntityId,
        transform: &mut Transform,
        frame: &GameFrame,
        world: &CollisionModule,
        commands: &mut Vec<Command>,
    );

    /// Called once, when the entity is removed after being marked dead.
    fn OnDestroy(
        &mut self,
        id: EntityId,
        transform: &mut Transform,
        world: &CollisionModule,
        commands: &mut Vec<Command>,
    );
}

/// Identity, transform, name and lifecycle flag of an entity.
pub struct EntityHeader {
    pub Transform: Transform,
    pub Name: String,
    _hasStartBeenCalled: bool,
    _id: EntityId,
}

impl EntityHeader {
    pub closed spec fn spec_id(&self) -> EntityId {
        self._id
    }

    pub closed spec fn spec_started(&self) -> bool {
        self._hasStartBeenCalled
    }

    pub closed spec fn spec_transform(&self) -> Transform {
        self.Transform
    }

    pub closed spec fn spec_name(&self) -> Seq<char> {
        self.Name@
    }

    /// A header with a fresh identity, unit scale, not yet started.
    pub fn Create(name: &str, position: Vec3) -> (r: Self)
        ensures
            r.spec_name() == name@,
            r.spec_transform().WorldPosition == position,
            r.spec_transform().scale == Vec3::spec_one(),
            uuid_version(r.spec_id().value) == 4,
            uuid_variant(r.spec_id().value) == 2,
            !r.spec_started(),
    {
        EntityHeader {
            Transform: Transform { WorldPosition: position, scale: Vec3::one() },
            Name: name.to_owned(),
            _hasStartBeenCalled: false,
            _id: EntityId::new_random(),
        }
    }

    pub fn HasStartBeenCalled(&self) -> (r: bool)
        ensures
            r == self.spec_started(),
    {
        self._hasStartBeenCalled
    }

    /// The entity's identity.
    pub fn ID(&self) -> (r: EntityId)
        ensures
            r == self.spec_id(),
    {
        self._id
    }
}

/// A lifecycle hook of a behavior.
#[derive(Clone, Copy, Debug, PartialEq, Eq, Structural)]
pub enum Hook {
    Start,
    Update,
    Destroy,
}

/// One pass of `hook` over `n` behaviors: behavior 0, then 1, up to `n - 1`.
pub open spec fn pass(hook: Hook, n: int) -> Seq<(Hook, int)> {
    Seq::new(n as nat, |i: int| (hook, i))
}

/// Whether no call in `trace` is a call of `hook`.
pub open spec fn lacks(trace: Seq<(Hook, int)>, hook: Hook) -> bool {
    forall|i: int| 0 <= i < trace.len() ==> (#[trigger] trace[i]).0 != hook
}

/// Whether a behavior named `name` answers a lookup for `kind` that skips
/// the kind `excluding`.
pub open spec fn name_matches(name: Seq<char>, kind: Seq<char>, excluding: Option<Seq<char>>) -> bool {
    name == kind && excluding != Some(name)
}

/// The view of an optional name.
pub open spec fn opt_view(o: Option<&str>) -> Option<Seq<char>> {
    match o {
        Some(s) => Some(s@),
        None => None,
    }
}

/// An entity: a header and its behaviors, in order of attachment.
///
/// Its lifecycle runs Created, Started, then (after it was marked dead)
/// Destroyed; the identity never changes.
pub struct Entity<C> {
    _header: EntityHeader,
    _components: Vec<C>,
    _componentNames: Vec<String>,
    _destroyed: bool,
    _trace: Ghost<Seq<(Hook, int)>>,
}

impl<C: Component> Entity<C> {
    pub closed spec fn spec_id(&self) -> EntityId {
        self._header._id
    }

    pub closed spec fn spec_started(&self) -> bool {
        self._header._hasStartBeenCalled
    }

    pub closed spec fn spec_destroyed(&self) -> bool {
        self._destroyed
    }

    pub closed spec fn spec_transform(&self) -> Transform {
        self._header.Transform
    }

    /// The behaviors, in order of attachment.
    pub closed spec fn components(&self) -> Seq<C> {
        self._components@
    }

    /// The kind names of the behaviors, recorded when each was attached.
    pub closed spec fn names(&self) -> Seq<Seq<char>> {
        self._componentNames@.map_values(|s: String| s@)
    }

    /// Every hook call made on the entity so far, in order: which hook and
    /// the position of the behavior it was called on.
    pub closed spec fn trace(&self) -> Seq<(Hook, int)> {
        self._trace@
    }

    pub open spec fn wf(&self) -> bool {
        &&& self.names().len() == self.components().len()
        &&& !self.spec_destroyed() ==> lacks(self.trace(), Hook::Destroy)
    }

    /// Whether the entity is destroyed and its on-destroy hooks ran exactly
    /// once: one pass over its behaviors, after every other call.
    pub open spec fn destroyed_once(&self) -> bool {
        let n = self.components().len() as int;
        let t = self.trace();
        &&& self.spec_destroyed()
        &&& t.len() >= n
        &&& lacks(t.take(t.len() - n), Hook::Destroy)
        &&& t.skip(t.len() - n) == pass(Hook::Destroy, n)
    }

    /// What `Start` asks of an entity.
    pub open spec fn can_start(&self) -> bool {
        &&& self.wf()
        &&& !self.spec_started()
        &&& !self.spec_destroyed()
    }

    /// The parts of an entity that its hooks cannot change.
    pub open spec fn same_frame(&self, other: &Self) -> bool {
        &&& other.spec_id() == self.spec_id()
        &&& other.names() == self.names()
        &&& other.components().len() == self.components().len()
    }

    /// An entity with no behaviors around `header`, which must not have
    /// started.
    pub fn new(header: EntityHeader) -> (r: Self)
        requires
            !header.spec_started(),
        ensures
            r.wf(),
            r.spec_id() == header.spec_id(),
            r.spec_transform() == header.spec_transform(),
            !r.spec_started(),
            !r.spec_destroyed(),
            r.components().len() == 0,
            r.trace().len() == 0,
    {
        let r = Entity {
            _header: header,
            _components: Vec::new(),
            _componentNames: Vec::new(),
            _destroyed: false,
            _trace: Ghost(Seq::empty()),
        };
        proof {
            assert(r.names() =~= Seq::<Seq<char>>::empty());
        }
        r
    }

    /// The entity's identity.
    pub fn ID(&self) -> (r: EntityId)
        ensures
            r == self.spec_id(),
    {
        self._header._id
    }

    pub fn Header(&self) -> (r: &EntityHeader)
        ensures
            r.spec_id() == self.spec_id(),
            r.spec_started() == self.spec_started(),
            r.spec_transform() == self.spec_transform(),
    {
        &self._header
    }

    pub fn HasStartBeenCalled(&self) -> (r: bool)
        ensures
            r == self.spec_started(),
    {
        self._header._hasStartBeenCalled
    }

    pub fn IsDestroyed(&self) -> (r: bool)
        ensures
            r == self.spec_destroyed(),
    {
        self._destroyed
    }

    pub fn GetTransform(&self) -> (r: Transform)
        ensures
            r == self.spec_transform(),
    {
        self._header.Transform
    }

    pub fn SetTransform(&mut self, transform: Transform)
        ensures
            final(self).spec_transform() == transform,
            final(self).trace() == old(self).trace(),
            old(self).same_frame(&*final(self)),
            final(self).components() == old(self).components(),
            final(self).spec_started() == old(self).spec_started(),
            final(self).spec_destroyed() == old(self).spec_destroyed(),
    {
        self._header.Transform = transform;
    }

    /// Number of attached behaviors.
    pub fn ComponentCount(&self) -> (r: usize)
        ensures
            r == self.components().len(),
    {
        self._components.len()
    }

    /// The behavior at position `i`.
    pub fn GetComponentAt(&self, i: usize) -> (r: &C)
        requires
            i < self.components().len(),
        ensures
            *r == self.components()[i as int],
    {
        &self._components[i]
    }

    /// Appends a behavior; it runs after those attached before it.
    pub fn add_component(&mut self, component: C)
        requires
            old(self).wf(),
        ensures
            final(self).wf(),
            final(self).spec_id() == old(self).spec_id(),
            final(self).spec_started() == old(self).spec_started(),
            final(self).spec_destroyed() == old(self).spec_destroyed(),
            final(self).spec_transform() == old(self).spec_transform(),
            final(self).trace() == old(self).trace(),
            final(self).components() == old(self).components().push(component),
            final(self).names().drop_last() == old(self).names(),
            final(self).names().len() == old(self).names().len() + 1,
    {
        let name = component.ComponentTypeName();
        self._components.push(component);
        self._componentNames.push(name);
        proof {
            assert(self.names().drop_last() =~= old(self).names());
        }
    }

    /// Position of the first behavior named `kind`, skipping any named
    /// `excluding` (the kind of the caller, so that it never finds itself).
    /// Absence is an ordinary answer.
    pub fn get_component(&self, kind: &str, excluding: Option<&str>) -> (r: Option<usize>)
        requires
            self.wf(),
        ensures
            match r {
                Some(i) => {
                    &&& i < self.components().len()
                    &&& name_matches(self.names()[i as int], kind@, opt_view(excluding))
                    &&& forall|j: int|
                        0 <= j < i ==> !name_matches(
                            #[trigger] self.names()[j],
                            kind@,
                            opt_view(excluding),
                        )
                },
                None => forall|j: int|
                    0 <= j < self.names().len() ==> !name_matches(
                        #[trigger] self.names()[j],
                        kind@,
                        opt_view(excluding),
                    ),
            },
    {
        let target = kind.to_owned();
        let skip: Option<String> = match excluding {
            Some(e) => Some(e.to_owned()),
            None => None,
        };
        let mut i: usize = 0;
        while i < self._componentNames.len()
            invariant
                self.wf(),
                i <= self.names().len(),
                target@ == kind@,
                opt_view(excluding) == match skip {
                    Some(s) => Some(s@),
                    None => None::<Seq<char>>,
                },
                forall|j: int|
                    0 <= j < i ==> !name_matches(
                        #[trigger] self.names()[j],
                        kind@,
                        opt_view(excluding),
                    ),
            decreases self.names().len() - i,
        {
            let name = &self._componentNames[i];
            let skipped = match &skip {
                Some(e) => *name == *e,
                None => false,
            };
            if !skipped && *name == target {
                return Some(i);
            }
            i = i + 1;
        }
        None
    }

    /// Runs the start hook of every behavior, in order of attachment; the
    /// commands each hook queues are applied as soon as it returns. The
    /// entity counts as started only once every hook has run. Starting an
    /// entity twice is a bookkeeping error, which `requires` rules out.
    pub fn Start(&mut self, api: &mut GameAPI) -> (r: Result<(), EngineFault>)
        requires
            old(self).can_start(),
            old(api).wf(),
        ensures
            final(self).wf(),
            final(api).wf(),
            old(self).same_frame(&*final(self)),
            !final(self).spec_destroyed(),
            final(self).spec_started() == (r is Ok),
            r is Ok ==> final(self).trace() == old(self).trace() + pass(
                Hook::Start,
                old(self).components().len() as int,
            ),
            GameAPI::grows(*old(api), *final(api)),
            r is Err ==> GameAPI::fault_of(*final(api), r),
            old(self).components().len() == 0 ==> r is Ok && *final(api) == *old(api),
    {
        let n = self._components.len();
        let id = self._header._id;
        let mut i: usize = 0;
        proof {
            lemma_grows_refl(*api);
        }
        while i < n
            invariant
                n == self._components@.len(),
                i <= n,
                self.wf(),
                old(self).same_frame(&*self),
                id == self.spec_id(),
                !self.spec_started(),
                !self.spec_destroyed(),
                api.wf(),
                self.trace() == old(self).trace() + pass(Hook::Start, i as int),
                GameAPI::grows(*old(api), *api),
                i == 0 ==> *api == *old(api),
            decreases n - i,
        {
            let mut commands: Vec<Command> = Vec::new();
            proof {
                assert(pass(Hook::Start, i + 1) =~= pass(Hook::Start, i as int).push(
                    (Hook::Start, i as int),
                ));
                assert(old(self).trace() + pass(Hook::Start, i + 1) =~= (old(self).trace() + pass(
                    Hook::Start,
                    i as int,
                )).push((Hook::Start, i as int)));
            }
            self._trace = Ghost(self._trace@.push((Hook::Start, i as int)));
            self._components[i].start(id, &mut self._header.Transform, api.World(), &mut commands);
            let ghost before = *api;
            let outcome = api.ApplyCommands(&commands);
            proof {
                lemma_grows_trans(*old(api), before, *api);
            }
            if outcome.is_err() {
                return outcome;
            }
            i = i + 1;
        }
        self._header._hasStartBeenCalled = true;
        Ok(())
    }

    /// Runs the update hook of every behavior, in order of attachment, with
    /// this frame's snapshot; each hook's commands are applied when it returns.
    pub fn Update(&mut self, frame: &GameFrame, api: &mut GameAPI) -> (r: Result<(), EngineFault>)
        requires
            old(self).wf(),
            old(self).spec_started(),
            !old(self).spec_destroyed(),
            old(api).wf(),
        ensures
            final(self).wf(),
            final(api).wf(),
            old(self).same_frame(&*final(self)),
            final(self).spec_started(),
            !final(self).spec_destroyed(),
            r is Ok ==> final(self).trace() == old(self).trace() + pass(
                Hook::Update,
                old(self).components().len() as int,
            ),
            GameAPI::grows(*old(api), *final(api)),
            r is Err ==> GameAPI::fault_of(*final(api), r),
            old(self).components().len() == 0 ==> r is Ok && *final(api) == *old(api),
    {
        let n = self._components.len();
        let id = self._header._id;
        let mut i: usize = 0;
        proof {
            lemma_grows_refl(*api);
        }
        while i < n
            invariant
                n == self._components@.len(),
                i <= n,
                self.wf(),
                old(self).same_frame(&*self),
                id == self.spec_id(),
                self.spec_started(),
                !self.spec_destroyed(),
                api.wf(),
                self.trace() == old(self).trace() + pass(Hook::Update, i as int),
                GameAPI::grows(*old(api), *api),
                i == 0 ==> *api == *old(api),
            decreases n - i,
        {
            let mut commands: Vec<Command> = Vec::new();
            proof {
                assert(pass(Hook::Update, i + 1) =~= pass(Hook::Update, i as int).push(
                    (Hook::Update, i as int),
                ));
                assert(old(self).trace() + pass(Hook::Update, i + 1) =~= (old(self).trace() + pass(
                    Hook::Update,
                    i as int,
                )).push((Hook::Update, i as int)));
            }
            self._trace = Ghost(self._trace@.push((Hook::Update, i as int)));
            self._components[i].update(
                id,
                &mut self._header.Transform,
                frame,
                api.World(),
                &mut commands,
            );
            let ghost before = *api;
            let outcome = api.ApplyCommands(&commands);
            proof {
                lemma_grows_trans(*old(api), before, *api);
            }
            if outcome.is_err() {
                return outcome;
            }
            i = i + 1;
        }
        Ok(())
    }

    /// Moves the entity to Destroyed, then runs the on-destroy hook of every
    /// behavior, in order of attachment, so that they release what they
    /// registered. An entity is destroyed at most once.
    pub fn OnDestroy(&mut self, api: &mut GameAPI) -> (r: Result<(), EngineFault>)
        requires
            old(self).wf(),
            !old(self).spec_destroyed(),
            old(api).wf(),
        ensures
            final(self).wf(),
            final(api).wf(),
            old(self).same_frame(&*final(self)),
            final(self).spec_started() == old(self).spec_started(),
            final(self).spec_destroyed(),
            r is Ok ==> final(self).trace() == old(self).trace() + pass(
                Hook::Destroy,
                old(self).components().len() as int,
            ),
            r is Ok ==> final(self).destroyed_once(),
            GameAPI::grows(*old(api), *final(api)),
            r is Err ==> GameAPI::fault_of(*final(api), r),
            old(self).components().len() == 0 ==> r is Ok && *final(api) == *old(api),
    {
        self._destroyed = true;
        let n = self._components.len();
        let id = self._header._id;
        let mut i: usize = 0;
        proof {
            lemma_grows_refl(*api);
        }
        while i < n
            invariant
                n == self._components@.len(),
                i <= n,
                self.wf(),
                old(self).same_frame(&*self),
                id == self.spec_id(),
                self.spec_started() == old(self).spec_started(),
                self.spec_destroyed(),
                api.wf(),
                self.trace() == old(self).trace() + pass(Hook::Destroy, i as int),
                GameAPI::grows(*old(api), *api),
                i == 0 ==> *api == *old(api),
            decreases n - i,
        {
            let mut commands: Vec<Command> = Vec::new();
            proof {
                assert(pass(Hook::Destroy, i + 1) =~= pass(Hook::Destroy, i as int).push(
                    (Hook::Destroy, i as int),
                ));
                assert(old(self).trace() + pass(Hook::Destroy, i + 1) =~= (old(self).trace()
                    + pass(Hook::Destroy, i as int)).push((Hook::Destroy, i as int)));
            }
            self._trace = Ghost(self._trace@.push((Hook::Destroy, i as int)));
            self._components[i].OnDestroy(id, &mut self._header.Transform, api.World(), &mut commands);
            let ghost before = *api;
            let outcome = api.ApplyCommands(&commands);
            proof {
                lemma_grows_trans(*old(api), before, *api);
            }
            if outcome.is_err() {
                return outcome;
            }
            i = i + 1;
        }
        proof {
            let t = self.trace();
            let k = old(self).trace().len();
            assert(t.take(k as int) =~= old(self).trace());
            assert(t.skip(k as int) =~= pass(Hook::Destroy, n as int));
        }
        Ok(())
    }
}

/// An entity keeps its identity for its whole lifetime: along any run of
/// states in which each step keeps the entity's frame (as every operation on
/// an entity does), every state has the identity of the first.
pub proof fn lemma_identity_stable<C: Component>(states: Seq<Entity<C>>)
    requires
        forall|i: int| 0 <= i < states.len() - 1 ==> (#[trigger] states[i]).same_frame(&states[i + 1]),
    ensures
        forall|i: int| 0 <= i < states.len() ==> (#[trigger] states[i]).spec_id() == states[0].spec_id(),
    decreases states.len(),
{
    if states.len() > 1 {
        let prev = states.drop_last();
        assert forall|i: int| 0 <= i < prev.len() - 1 implies (#[trigger] prev[i]).same_frame(
            &prev[i + 1],
        ) by {
            assert(prev[i] == states[i] && prev[i + 1] == states[i + 1]);
        }
        lemma_identity_stable(prev);
        assert forall|i: int| 0 <= i < states.len() implies (#[trigger] states[i]).spec_id()
            == states[0].spec_id() by {
            if i < states.len() - 1 {
                assert(prev[i] == states[i]);
            } else {
                assert(prev[i - 1] == states[i - 1]);
                assert(states[i - 1].same_frame(&states[i]));
            }
        }
    }
}

/// Start runs once: after a successful first `Start` of an entity never
/// started before, a second `Start` is refused, and each behavior's start hook
/// has been called exactly once, in order of attachment: the only start calls
/// in the trace are the new ones, one per behavior, in order.
pub proof fn lemma_start_once<C: Component>(before: Entity<C>, after: Entity<C>)
    requires
        before.can_start(),
        lacks(before.trace(), Hook::Start),
        before.same_frame(&after),
        after.spec_started(),
        after.trace() == before.trace() + pass(Hook::Start, before.components().len() as int),
    ensures
        !after.can_start(),
        after.trace().len() == before.trace().len() + after.components().len(),
        forall|p: int| 0 <= p < before.trace().len() ==> (#[trigger] after.trace()[p]).0 != Hook::Start,
        forall|i: int|
            0 <= i < after.components().len() ==> #[trigger] after.trace()[before.trace().len() + i]
                == (Hook::Start, i),
{
    assert forall|p: int| 0 <= p < before.trace().len() implies (#[trigger] after.trace()[p]).0
        != Hook::Start by {
        assert(after.trace()[p] == before.trace()[p]);
    }
}

/// A lookup that excludes the caller's kind never returns the caller: no
/// behavior it can answer has the caller's name.
pub proof fn lemma_lookup_excludes_caller<C: Component>(e: Entity<C>, kind: Seq<char>, caller: int)
    requires
        e.wf(),
        0 <= caller < e.components().len(),
    ensures
        forall|i: int|
            0 <= i < e.components().len() && name_matches(
                #[trigger] e.names()[i],
                kind,
                Some(e.names()[caller]),
            ) ==> i != caller,
{
}

} // verus!
