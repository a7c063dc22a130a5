use vstd::prelude::*;
use crate::collider::{ColliderData, ECollisionType, corner_hits};
use crate::geometry::Vec3;
use crate::identity::EntityId;

verus! {

/// Whether no identity occurs twice among the entries.
pub open spec fn ids_unique(s: Seq<(EntityId, ColliderData)>) -> bool {
    forall|i: int, j: int| 0 <= i < j < s.len() ==> s[i].0 != s[j].0
}

/// Whether the entry at `j` counts against a box of this origin and size
/// queried on behalf of `id`: it belongs to another identity, is solid when
/// triggers are excluded, and holds a corner of the box.
pub open spec fn blocks(
    s: Seq<(EntityId, ColliderData)>,
    j: int,
    id: EntityId,
    origin: Vec3,
    size: Vec3,
    excludeTriggers: bool,
) -> bool {
    &&& s[j].0 != id
    &&& (excludeTriggers ==> s[j].1.spec_type() == ECollisionType::Solid)
    &&& corner_hits(origin, size, s[j].1)
}

/// All registered colliders, each under the identity of the entity that owns it.
pub struct CollisionModule {
    _entries: Vec<(EntityId, ColliderData)>,
}

impl CollisionModule {
    /// The registered (identity, record) pairs, in order of registration.
    pub closed spec fn entries(&self) -> Seq<(EntityId, ColliderData)> {
        self._entries@
    }

    pub open spec fn wf(&self) -> bool {
        ids_unique(self.entries())
    }

    /// Whether `id` is registered.
    pub open spec fn has(&self, id: EntityId) -> bool {
        exists|i: int| self.is_slot(i, id)
    }

    /// Whether `i` is the position of `id`.
    pub open spec fn is_slot(&self, i: int, id: EntityId) -> bool {
        0 <= i < self.entries().len() && self.entries()[i].0 == id
    }

    /// The record registered under `id` (meaningful when `id` is registered).
    pub open spec fn record_of(&self, id: EntityId) -> ColliderData {
        let i = choose|i: int| self.is_slot(i, id);
        self.entries()[i].1
    }

    /// What a collision query answers: `id` is registered, and some other
    /// entry blocks its box moved to `position`.
    pub open spec fn collides_at(
        &self,
        id: EntityId,
        position: Vec3,
        excludeTriggers: bool,
    ) -> bool {
        &&& self.has(id)
        &&& exists|j: int|
            0 <= j < self.entries().len() && blocks(
                self.entries(),
                j,
                id,
                position,
                self.record_of(id).spec_size(),
                excludeTriggers,
            )
    }

    pub fn Create() -> (r: Self)
        ensures
            r.wf(),
            r.entries() == Seq::<(EntityId, ColliderData)>::empty(),
    {
        CollisionModule { _entries: Vec::new() }
    }

    /// Number of registered colliders.
    pub fn Len(&self) -> (r: usize)
        ensures
            r == self.entries().len(),
    {
        self._entries.len()
    }

    fn FindIndex(&self, id: &EntityId) -> (r: Option<usize>)
        ensures
            match r {
                Some(i) => self.is_slot(i as int, *id),
                None => !self.has(*id),
            },
    {
        let mut i: usize = 0;
        while i < self._entries.len()
            invariant
                i <= self._entries@.len(),
                forall|k: int| 0 <= k < i ==> self._entries@[k].0 != *id,
            decreases self._entries@.len() - i,
        {
            if self._entries[i].0 == *id {
                return Some(i);
            }
            i = i + 1;
        }
        None
    }

    /// Whether `id` is registered.
    pub fn Contains(&self, id: &EntityId) -> (r: bool)
        ensures
            r == self.has(*id),
    {
        self.FindIndex(id).is_some()
    }

    /// Registers the collider of entity `id`, which must not be registered yet.
    pub fn Add(&mut self, id: EntityId, collider: ColliderData)
        requires
            old(self).wf(),
            !old(self).has(id),
        ensures
            final(self).wf(),
            final(self).entries() == old(self).entries().push((id, collider)),
    {
        self._entries.push((id, collider));
        proof {
            let s = self.entries();
            assert forall|i: int, j: int| 0 <= i < j < s.len() implies s[i].0 != s[j].0 by {
                if j == s.len() - 1 {
                    assert(!old(self).is_slot(i, id));
                }
            }
        }
    }

    /// Whether `new` is `old` with the record of `id` moved to `position`.
    pub open spec fn origin_updated(
        old: CollisionModule,
        new: CollisionModule,
        id: EntityId,
        position: Vec3,
    ) -> bool {
        &&& new.entries().len() == old.entries().len()
        &&& forall|i: int|
            0 <= i < old.entries().len() ==> {
                &&& (#[trigger] new.entries()[i]).0 == old.entries()[i].0
                &&& old.entries()[i].0 == id ==> old.entries()[i].1.moved_to(
                    position,
                    new.entries()[i].1,
                )
                &&& old.entries()[i].0 != id ==> new.entries()[i] == old.entries()[i]
            }
    }

    /// Whether `new` is `old` with the record of `id` resized to `size`.
    pub open spec fn size_updated(
        old: CollisionModule,
        new: CollisionModule,
        id: EntityId,
        size: Vec3,
    ) -> bool {
        &&& new.entries().len() == old.entries().len()
        &&& forall|i: int|
            0 <= i < old.entries().len() ==> {
                &&& (#[trigger] new.entries()[i]).0 == old.entries()[i].0
                &&& old.entries()[i].0 == id ==> {
                    &&& new.entries()[i].1.spec_size() == size
                    &&& new.entries()[i].1.spec_origin() == old.entries()[i].1.spec_origin()
                    &&& new.entries()[i].1.spec_type() == old.entries()[i].1.spec_type()
                    &&& new.entries()[i].1.spec_tag() == old.entries()[i].1.spec_tag()
                }
                &&& old.entries()[i].0 != id ==> new.entries()[i] == old.entries()[i]
            }
    }

    /// Moves the collider of `id`, which must be registered.
    pub fn UpdateOrigin(&mut self, id: EntityId, position: Vec3)
        requires
            old(self).wf(),
            old(self).has(id),
        ensures
            final(self).wf(),
            Self::origin_updated(*old(self), *final(self), id, position),
    {
        let index = self.FindIndex(&id).unwrap();
        let mut entry = self._entries[index];
        entry.1.UpdateOrigin(position);
        self._entries.set(index, entry);
    }

    /// Resizes the collider of `id`, which must be registered; its
    /// half-extents follow the new size.
    pub fn UpdateSize(&mut self, id: EntityId, size: Vec3)
        requires
            old(self).wf(),
            old(self).has(id),
        ensures
            final(self).wf(),
            Self::size_updated(*old(self), *final(self), id, size),
    {
        let index = self.FindIndex(&id).unwrap();
        let mut entry = self._entries[index];
        entry.1.UpdateSize(size);
        self._entries.set(index, entry);
    }

    /// Under unique identities, the record of a registered `id` is the one at
    /// its position.
    pub proof fn lemma_record_at_slot(&self, i: int, id: EntityId)
        requires
            self.wf(),
            self.is_slot(i, id),
        ensures
            self.record_of(id) == self.entries()[i].1,
    {
        let k = choose|k: int| self.is_slot(k, id);
        assert(self.is_slot(k, id));
        if k < i {
            assert(self.entries()[k].0 != self.entries()[i].0);
        } else if i < k {
            assert(self.entries()[i].0 != self.entries()[k].0);
        }
    }

    /// Would entity `id`, moved to `position`, hold a corner of another
    /// registered box (of a solid one only, when `excludeTriggers` is set)?
    ///
    /// The stored record of `id` is not moved: the query tests a copy. An
    /// unregistered `id` answers `false`, since such queries are made
    /// speculatively before an entity has registered.
    pub fn IsThereCollisionAt(&self, id: &EntityId, position: Vec3, excludeTriggers: bool) -> (r:
        bool)
        requires
            self.wf(),
        ensures
            r == self.collides_at(*id, position, excludeTriggers),
    {
        let index = match self.FindIndex(id) {
            Some(index) => index,
            None => {
                return false;
            },
        };
        proof {
            self.lemma_record_at_slot(index as int, *id);
        }
        let mut collider = self._entries[index].1;
        collider.UpdateOrigin(position);
        let ghost size = self.record_of(*id).spec_size();
        let mut i: usize = 0;
        while i < self._entries.len()
            invariant
                i <= self._entries@.len(),
                self.wf(),
                self.has(*id),
                collider.spec_origin() == position,
                collider.spec_size() == size,
                size == self.record_of(*id).spec_size(),
                forall|k: int|
                    0 <= k < i ==> !blocks(self.entries(), k, *id, position, size, excludeTriggers),
            decreases self._entries@.len() - i,
        {
            let other = &self._entries[i];
            if other.0 != *id {
                if !excludeTriggers || other.1.Type() == ECollisionType::Solid {
                    if ColliderData::DoBoundsCollide(&collider, &other.1) {
                        assert(blocks(self.entries(), i as int, *id, position, size, excludeTriggers));
                        return true;
                    }
                }
            }
            i = i + 1;
        }
        false
    }

    /// `IsThereCollisionAt` against solid colliders only.
    pub fn IsThereSolidCollisionAt(&self, id: &EntityId, position: Vec3) -> (r: bool)
        requires
            self.wf(),
        ensures
            r == self.collides_at(*id, position, true),
    {
        self.IsThereCollisionAt(id, position, true)
    }

    /// `IsThereCollisionAt` against triggers as well as solid colliders.
    pub fn IsThereAnyCollisionAt(&self, id: &EntityId, position: Vec3) -> (r: bool)
        requires
            self.wf(),
        ensures
            r == self.collides_at(*id, position, false),
    {
        self.IsThereCollisionAt(id, position, false)
    }

    /// Deregisters the collider of `id`, which must be registered.
    pub fn Remove(&mut self, id: EntityId)
        requires
            old(self).wf(),
            old(self).has(id),
        ensures
            final(self).wf(),
            exists|i: int|
                old(self).is_slot(i, id) && final(self).entries() == old(self).entries().remove(
                    i,
                ),
    {
        let index = self.FindIndex(&id).unwrap();
        self._entries.remove(index);
    }
}

/// A world whose identities are those of a well-formed world, position by
/// position, is well formed.
proof fn lemma_same_ids_wf(m1: CollisionModule, m2: CollisionModule)
    requires
        m1.wf(),
        m2.entries().len() == m1.entries().len(),
        forall|j: int| 0 <= j < m1.entries().len() ==> (#[trigger] m2.entries()[j]).0 == m1.entries()[j].0,
    ensures
        m2.wf(),
{
    assert forall|a: int, b: int| 0 <= a < b < m2.entries().len() implies m2.entries()[a].0
        != m2.entries()[b].0 by {
        assert(m2.entries()[a].0 == m1.entries()[a].0);
        assert(m2.entries()[b].0 == m1.entries()[b].0);
    }
}

/// A box never collides with its own record: where `id` is the only
/// registered identity, no position of it reports a collision.
pub proof fn lemma_alone_never_collides(
    m: CollisionModule,
    id: EntityId,
    position: Vec3,
    excludeTriggers: bool,
)
    requires
        m.wf(),
        forall|j: int| 0 <= j < m.entries().len() ==> (#[trigger] m.entries()[j]).0 == id,
    ensures
        !m.collides_at(id, position, excludeTriggers),
{
}

/// A query does not depend on where the caller's own record stands: moving
/// it leaves every answer for the caller unchanged.
pub proof fn lemma_query_ignores_own_origin(
    m1: CollisionModule,
    m2: CollisionModule,
    id: EntityId,
    stored: Vec3,
    position: Vec3,
    excludeTriggers: bool,
)
    requires
        m1.wf(),
        m1.has(id),
        CollisionModule::origin_updated(m1, m2, id, stored),
    ensures
        m1.collides_at(id, position, excludeTriggers) == m2.collides_at(
            id,
            position,
            excludeTriggers,
        ),
{
    let i = choose|i: int| m1.is_slot(i, id);
    assert(m2.is_slot(i, id));
    lemma_same_ids_wf(m1, m2);
    m1.lemma_record_at_slot(i, id);
    m2.lemma_record_at_slot(i, id);
    let size = m1.record_of(id).spec_size();
    assert(m2.record_of(id).spec_size() == size);
    if m1.collides_at(id, position, excludeTriggers) {
        let j = choose|j: int|
            0 <= j < m1.entries().len() && blocks(
                m1.entries(),
                j,
                id,
                position,
                size,
                excludeTriggers,
            );
        assert(m2.entries()[j] == m1.entries()[j]);
        assert(blocks(m2.entries(), j, id, position, size, excludeTriggers));
    }
    if m2.collides_at(id, position, excludeTriggers) {
        let j = choose|j: int|
            0 <= j < m2.entries().len() && blocks(
                m2.entries(),
                j,
                id,
                position,
                size,
                excludeTriggers,
            );
        assert(m2.entries()[j].0 == m1.entries()[j].0);
        assert(m2.entries()[j] == m1.entries()[j]);
        assert(blocks(m1.entries(), j, id, position, size, excludeTriggers));
    }
}

/// With triggers excluded, trigger records never cause a collision: where
/// every other record is a trigger, no position reports one.
pub proof fn lemma_triggers_excluded(m: CollisionModule, id: EntityId, position: Vec3)
    requires
        m.wf(),
        forall|j: int|
            0 <= j < m.entries().len() && (#[trigger] m.entries()[j]).0 != id
                ==> m.entries()[j].1.spec_type() == ECollisionType::Trigger,
    ensures
        !m.collides_at(id, position, true),
{
}

/// After a resize to `size`, the half-extents of the record are exactly half
/// of `size`: in half units they equal it.
pub proof fn lemma_size_sets_extents(
    m1: CollisionModule,
    m2: CollisionModule,
    id: EntityId,
    size: Vec3,
)
    requires
        m1.wf(),
        m1.has(id),
        CollisionModule::size_updated(m1, m2, id, size),
    ensures
        m2.wf(),
        m2.has(id),
        m2.record_of(id).max_x2() - m2.record_of(id).min_x2() == 2 * size.x,
        m2.record_of(id).max_y2() - m2.record_of(id).min_y2() == 2 * size.y,
        m2.record_of(id).spec_size() == size,
{
    let i = choose|i: int| m1.is_slot(i, id);
    assert(m2.is_slot(i, id));
    lemma_same_ids_wf(m1, m2);
    m2.lemma_record_at_slot(i, id);
}

/// After a move to `position`, the record's bounds are `position` plus and
/// minus its half-extents (all in half units).
pub proof fn lemma_origin_sets_bounds(
    m1: CollisionModule,
    m2: CollisionModule,
    id: EntityId,
    position: Vec3,
)
    requires
        m1.wf(),
        m1.has(id),
        CollisionModule::origin_updated(m1, m2, id, position),
    ensures
        m2.wf(),
        m2.has(id),
        m2.record_of(id).min_x2() == 2 * position.x - m1.record_of(id).spec_size().x,
        m2.record_of(id).max_x2() == 2 * position.x + m1.record_of(id).spec_size().x,
        m2.record_of(id).min_y2() == 2 * position.y - m1.record_of(id).spec_size().y,
        m2.record_of(id).max_y2() == 2 * position.y + m1.record_of(id).spec_size().y,
{
    let i = choose|i: int| m1.is_slot(i, id);
    assert(m2.is_slot(i, id));
    lemma_same_ids_wf(m1, m2);
    m1.lemma_record_at_slot(i, id);
    m2.lemma_record_at_slot(i, id);
}

} // verus!
