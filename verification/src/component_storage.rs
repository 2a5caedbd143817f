//! Storage of the world's components: every component together with its
//! typed identifier and the object it belongs to, the set of component
//! types seen so far, and the queues of components added and removed since
//! they were last handled; and the object and world operations that go
//! through it.

use crate::components::{NewComponent, TypedComponentId};
use crate::ids::{ComponentId, GameObjectId};
use crate::scene::{in_subtree, outside_subtree, slot_ffi, GameObject, World};
use vstd::prelude::*;

verus! {

/// Calls `==` on two `std::any::TypeId`s. `TypeId` compares equal exactly
/// when both identify the same type, so the result is the equality of the
/// two values.
#[verifier::external_body]
fn same_type(a: &std::any::TypeId, b: &std::any::TypeId) -> (r: bool)
    ensures
        r == (*a == *b),
{
    *a == *b
}

/// A stored component: its identifier, the object it belongs to, and its value.
pub type Entry<C> = (TypedComponentId, GameObjectId, C);

/// A stored slot as the entry it holds, if any.
pub open spec fn slot_entry<C>(e: Option<Entry<C>>) -> Option<Entry<C>> {
    e
}

/// The entries held by a sequence of slots, in slot order.
pub open spec fn entries_of<C>(s: Seq<Option<Entry<C>>>) -> Seq<Entry<C>> {
    s.filter_map(|e: Option<Entry<C>>| slot_entry(e))
}

/// The value stored under `id` among `s`: the last entry with that identifier.
pub open spec fn lookup<C>(s: Seq<Entry<C>>, id: TypedComponentId) -> Option<C>
    decreases s.len(),
{
    if s.len() == 0 {
        None
    } else if s.last().0 == id {
        Some(s.last().2)
    } else {
        lookup(s.drop_last(), id)
    }
}

/// The values of the entries of type `t`, in order.
pub open spec fn values_typed<C>(s: Seq<Entry<C>>, t: std::any::TypeId) -> Seq<C>
    decreases s.len(),
{
    if s.len() == 0 {
        Seq::empty()
    } else if s.last().0.0 == t {
        values_typed(s.drop_last(), t).push(s.last().2)
    } else {
        values_typed(s.drop_last(), t)
    }
}

/// The identifiers of the components of type `t` belonging to `owner`, in
/// the order they were added.
pub open spec fn owned_of_type<C>(s: Seq<Entry<C>>, owner: GameObjectId, t: std::any::TypeId) -> Seq<TypedComponentId>
    decreases s.len(),
{
    if s.len() == 0 {
        Seq::empty()
    } else if s.last().1 == owner && s.last().0.0 == t {
        owned_of_type(s.drop_last(), owner, t).push(s.last().0)
    } else {
        owned_of_type(s.drop_last(), owner, t)
    }
}

/// The first of a sequence, if any.
pub open spec fn first_of<A>(s: Seq<A>) -> Option<A> {
    if s.len() > 0 {
        Some(s[0])
    } else {
        None
    }
}

/// The first component of type `t` on the first of the objects `ids` that
/// has one.
pub open spec fn first_on_any<C>(s: Seq<Entry<C>>, ids: Seq<GameObjectId>, t: std::any::TypeId) -> Option<TypedComponentId>
    decreases ids.len(),
{
    if ids.len() == 0 {
        None
    } else {
        match first_of(owned_of_type(s, ids[0], t)) {
            Some(c) => Some(c),
            None => first_on_any(s, ids.drop_first(), t),
        }
    }
}

/// The components of type `t` in the subtree of object `id`, children's
/// subtrees first, in child order, then the object's own; looking at most
/// `fuel` levels deep.
pub open spec fn collect_typed<C>(w: World, s: Seq<Entry<C>>, t: std::any::TypeId, id: GameObjectId, fuel: nat) -> Seq<TypedComponentId>
    decreases fuel, 0nat,
{
    if fuel == 0 {
        Seq::empty()
    } else {
        collect_typed_in(w, s, t, w.children_of(id), (fuel - 1) as nat) + owned_of_type(s, id, t)
    }
}

/// `collect_typed` over the objects `ids`, in order.
pub open spec fn collect_typed_in<C>(w: World, s: Seq<Entry<C>>, t: std::any::TypeId, ids: Seq<GameObjectId>, fuel: nat) -> Seq<TypedComponentId>
    decreases fuel, ids.len(),
{
    if ids.len() == 0 {
        Seq::empty()
    } else {
        collect_typed(w, s, t, ids[0], fuel) + collect_typed_in(w, s, t, ids.drop_first(), fuel)
    }
}

/// All components of the world.
///
/// Components are kept in the order they were added. A component is named
/// by its type and a key unique within the storage; the storage also knows
/// every component type that was ever added, counts its components, and
/// queues the identifiers of components added (`fresh`) and removed
/// (`removed`) until their owner takes them.
pub struct ComponentStorage<C> {
    types: Vec<std::any::TypeId>,
    slots: Vec<Option<Entry<C>>>,
    len: usize,
    pub(crate) fresh: Vec<TypedComponentId>,
    pub(crate) removed: Vec<TypedComponentId>,
}

impl<C> ComponentStorage<C> {
    /// The stored components, in the order they were added.
    pub closed spec fn entries(self) -> Seq<Entry<C>> {
        entries_of(self.slots@)
    }

    /// Whether components of type `t` were ever added.
    pub closed spec fn has_type(self, t: std::any::TypeId) -> bool {
        self.types@.contains(t)
    }

    /// The component counter.
    pub closed spec fn count(self) -> nat {
        self.len as nat
    }

    /// Components added and not yet initialised, oldest first.
    pub closed spec fn fresh_ids(self) -> Seq<TypedComponentId> {
        self.fresh@
    }

    /// Components removed and not yet cleaned up, oldest first.
    pub closed spec fn removed_ids(self) -> Seq<TypedComponentId> {
        self.removed@
    }

    /// Number of keys handed out so far.
    pub closed spec fn keys_used(self) -> nat {
        self.slots@.len()
    }

    /// Slot `i` holds the component whose key encodes `i`.
    closed spec fn slots_encoded(s: Seq<Option<Entry<C>>>) -> bool {
        forall|i: int| 0 <= i < s.len() && (#[trigger] s[i]) is Some ==> s[i]->Some_0.0.1@ == slot_ffi(i)
    }

    /// The storage is consistent: every key is unique, every stored
    /// component's type is known and no type is listed twice.
    pub closed spec fn wf(self) -> bool {
        &&& Self::slots_encoded(self.slots@)
        &&& forall|i: int| 0 <= i < self.slots@.len() && (#[trigger] self.slots@[i]) is Some
            ==> self.types@.contains(self.slots@[i]->Some_0.0.0)
        &&& self.types@.no_duplicates()
    }

    /// The counter equals the number of stored components.
    pub open spec fn counts_all(self) -> bool {
        self.count() == self.entries().len()
    }

    /// An empty storage.
    pub fn new() -> (r: Self)
        ensures
            r.entries() == Seq::<Entry<C>>::empty(),
            forall|t: std::any::TypeId| !r.has_type(t),
            r.count() == 0,
            r.keys_used() == 0,
            r.counts_all(),
            r.fresh_ids() == Seq::<TypedComponentId>::empty(),
            r.removed_ids() == Seq::<TypedComponentId>::empty(),
            r.wf(),
    {
        let r = ComponentStorage { types: Vec::new(), slots: Vec::new(), len: 0, fresh: Vec::new(), removed: Vec::new() };
        assert(r.entries() =~= Seq::<Entry<C>>::empty());
        r
    }

    /// The number of components.
    pub fn len(&self) -> (r: usize)
        ensures
            r == self.count(),
    {
        self.len
    }

    /// Whether there are no components.
    pub fn is_empty(&self) -> (r: bool)
        ensures
            r == (self.count() == 0),
    {
        self.len == 0
    }

    /// The components added and not yet initialised, oldest first.
    pub fn fresh(&self) -> (r: &[TypedComponentId])
        ensures
            r@ == self.fresh_ids(),
    {
        self.fresh.as_slice()
    }

    /// The components removed and not yet cleaned up, oldest first.
    pub fn removed(&self) -> (r: &[TypedComponentId])
        ensures
            r@ == self.removed_ids(),
    {
        self.removed.as_slice()
    }

    /// Appends the components of type `t` belonging to `owner` to `out`.
    fn push_owned(&self, owner: GameObjectId, t: &std::any::TypeId, out: &mut Vec<TypedComponentId>)
        ensures
            final(out)@ == old(out)@ + owned_of_type(self.entries(), owner, *t),
    {
        let ghost start = out@;
        let mut i: usize = 0;
        while i < self.slots.len()
            invariant
                i <= self.slots@.len(),
                out@ == start + owned_of_type(entries_of(self.slots@.take(i as int)), owner, *t),
            decreases self.slots@.len() - i,
        {
            let ghost pre = self.slots@.take(i as int);
            assert(self.slots@.take(i as int + 1) =~= pre.push(self.slots@[i as int]));
            proof {
                lemma_entries_push(pre, self.slots@[i as int]);
            }
            let ghost ep = entries_of(pre);
            match &self.slots[i] {
                Some(e) => {
                    assert(ep.push(*e).drop_last() =~= ep);
                    if e.1 == owner && same_type(&e.0.0, t) {
                        out.push(e.0);
                        assert(out@ =~= start + owned_of_type(ep.push(*e), owner, *t));
                    }
                },
                None => {},
            }
            i += 1;
        }
        assert(self.slots@.take(self.slots@.len() as int) =~= self.slots@);
    }

    /// The components of type `t` belonging to `owner`, in the order they were added.
    pub fn components_of(&self, owner: GameObjectId, t: std::any::TypeId) -> (r: Vec<TypedComponentId>)
        ensures
            r@ == owned_of_type(self.entries(), owner, t),
    {
        let mut out: Vec<TypedComponentId> = Vec::new();
        self.push_owned(owner, &t, &mut out);
        assert(out@ =~= owned_of_type(self.entries(), owner, t));
        out
    }

    /// Every stored component's identifier and owner, in the order they were added.
    fn ids_and_owners(&self) -> (r: Vec<(TypedComponentId, GameObjectId)>)
        ensures
            r@.len() == self.entries().len(),
            forall|j: int| 0 <= j < r@.len() ==> (#[trigger] r@[j]).0 == self.entries()[j].0
                && r@[j].1 == self.entries()[j].1,
    {
        let mut out: Vec<(TypedComponentId, GameObjectId)> = Vec::new();
        let mut i: usize = 0;
        while i < self.slots.len()
            invariant
                i <= self.slots@.len(),
                out@.len() == entries_of(self.slots@.take(i as int)).len(),
                forall|j: int| 0 <= j < out@.len() ==> (#[trigger] out@[j]).0 == entries_of(self.slots@.take(i as int))[j].0
                    && out@[j].1 == entries_of(self.slots@.take(i as int))[j].1,
            decreases self.slots@.len() - i,
        {
            let ghost pre = self.slots@.take(i as int);
            assert(self.slots@.take(i as int + 1) =~= pre.push(self.slots@[i as int]));
            proof {
                lemma_entries_push(pre, self.slots@[i as int]);
            }
            match &self.slots[i] {
                Some(e) => {
                    out.push((e.0, e.1));
                },
                None => {},
            }
            i += 1;
        }
        assert(self.slots@.take(self.slots@.len() as int) =~= self.slots@);
        out
    }

    /// In a consistent storage the stored components' keys increase in the
    /// order they were added, and every stored component's type is known.
    proof fn lemma_entries_ordered(self)
        requires
            self.wf(),
        ensures
            forall|j: int, k: int| 0 <= j < k < self.entries().len()
                ==> (#[trigger] self.entries()[j]).0.1@ < (#[trigger] self.entries()[k]).0.1@,
            forall|j: int| 0 <= j < self.entries().len() ==> self.has_type(#[trigger] self.entries()[j].0.0),
    {
        lemma_slots_ordered(self.slots@, self.types@);
    }

    /// The position of `t` among the known types.
    fn find_type(&self, t: &std::any::TypeId) -> (r: Option<usize>)
        ensures
            r is Some <==> self.has_type(*t),
            r is Some ==> r->Some_0 < self.types@.len() && self.types@[r->Some_0 as int] == *t,
    {
        let mut i: usize = 0;
        while i < self.types.len()
            invariant
                i <= self.types@.len(),
                forall|j: int| 0 <= j < i ==> self.types@[j] != *t,
            decreases self.types@.len() - i,
        {
            if same_type(&self.types[i], t) {
                return Some(i);
            }
            i += 1;
        }
        None
    }

    /// Adds `component` of type `type_id`, belonging to object `owner`, and
    /// returns its identifier, which names no component held before. The
    /// identifier is queued as fresh.
    pub fn add(&mut self, type_id: std::any::TypeId, component: C, owner: GameObjectId) -> (id: TypedComponentId)
        requires
            old(self).wf(),
            old(self).keys_used() < 0xffff_ffff,
            old(self).count() < usize::MAX,
        ensures
            id.0 == type_id,
            lookup(old(self).entries(), id) is None,
            final(self).entries() == old(self).entries().push((id, owner, component)),
            final(self).has_type(type_id),
            forall|t: std::any::TypeId| old(self).has_type(t) ==> final(self).has_type(t),
            forall|t: std::any::TypeId| t != type_id ==> (final(self).has_type(t) == old(self).has_type(t)),
            final(self).count() == old(self).count() + 1,
            final(self).keys_used() == old(self).keys_used() + 1,
            final(self).fresh_ids() == old(self).fresh_ids().push(id),
            final(self).removed_ids() == old(self).removed_ids(),
            final(self).wf(),
            old(self).counts_all() ==> final(self).counts_all(),
    {
        let ghost old_types = self.types@;
        if self.find_type(&type_id).is_none() {
            self.types.push(type_id);
            proof {
                assert(self.types@[old_types.len() as int] == type_id);
                assert forall|t: std::any::TypeId| old_types.contains(t) implies self.types@.contains(t) by {
                    let j = choose|j: int| 0 <= j < old_types.len() && old_types[j] == t;
                    assert(self.types@[j] == t);
                }
                assert forall|t: std::any::TypeId| self.types@.contains(t) && t != type_id implies old_types.contains(t) by {
                    let j = choose|j: int| 0 <= j < self.types@.len() && self.types@[j] == t;
                    assert(old_types[j] == t);
                }
            }
        }
        assert(self.types@.contains(type_id));
        let n = self.slots.len();
        let key = ComponentId::from_ffi(n as u64);
        let nn = n as u64;
        assert(nn | 0x1_0000_0000u64 == nn + 0x1_0000_0000u64) by (bit_vector)
            requires nn < 0xffff_ffffu64;
        assert(key@ == slot_ffi(n as int));
        let id = TypedComponentId(type_id, key);
        proof {
            lemma_lookup_encoded(self.slots@, id);
        }
        let ghost old_slots = self.slots@;
        self.slots.push(Some((id, owner, component)));
        proof {
            lemma_entries_push(old_slots, Some((id, owner, component)));
        }
        self.len = self.len + 1;
        self.fresh.push(id);
        id
    }

    /// Whether two typed identifiers are the same.
    fn same_id(a: &TypedComponentId, b: &TypedComponentId) -> (r: bool)
        ensures
            r == (*a == *b),
    {
        same_type(&a.0, &b.0) && a.1.ffi == b.1.ffi
    }

    /// The slot holding component `id`, if it is stored.
    fn live_slot(&self, id: &TypedComponentId) -> (r: Option<usize>)
        requires
            self.wf(),
        ensures
            r is Some <==> lookup(self.entries(), *id) is Some,
            r is Some ==> {
                &&& r->Some_0 < self.slots@.len()
                &&& self.slots@[r->Some_0 as int] is Some
                &&& self.slots@[r->Some_0 as int]->Some_0.0 == *id
                &&& r->Some_0 == id.1@ - 0x1_0000_0000int
                &&& lookup(self.entries(), *id) == Some(self.slots@[r->Some_0 as int]->Some_0.2)
            },
    {
        proof {
            lemma_lookup_encoded(self.slots@, *id);
        }
        let v = id.1.as_ffi();
        if v >= 0x1_0000_0000u64 {
            let i = v - 0x1_0000_0000u64;
            if i < self.slots.len() as u64 {
                let iu = i as usize;
                match &self.slots[iu] {
                    Some(e) => {
                        if Self::same_id(&e.0, id) {
                            return Some(iu);
                        }
                    },
                    None => {},
                }
            }
        }
        None
    }

    /// The component named `id`, if it is stored.
    pub fn get_dyn(&self, id: TypedComponentId) -> (r: Option<&C>)
        requires
            self.wf(),
        ensures
            r is Some <==> lookup(self.entries(), id) is Some,
            r is Some ==> *r->Some_0 == lookup(self.entries(), id)->Some_0,
    {
        match self.live_slot(&id) {
            Some(i) => match &self.slots[i] {
                Some(e) => Some(&e.2),
                None => None,
            },
            None => None,
        }
    }

    /// Mutable access to the component named `id`, if it is stored. What is
    /// written through the reference becomes that component's value; nothing
    /// else changes.
    pub fn get_dyn_mut(&mut self, id: TypedComponentId) -> (r: Option<&mut C>)
        requires
            old(self).wf(),
        ensures
            r is Some <==> lookup(old(self).entries(), id) is Some,
            match r {
                Some(e) => {
                    &&& *e == lookup(old(self).entries(), id)->Some_0
                    &&& final(self).entries() == replace_value(old(self).entries(), id, *final(e))
                    &&& final(self).wf()
                    &&& forall|t: std::any::TypeId| final(self).has_type(t) == old(self).has_type(t)
                    &&& final(self).count() == old(self).count()
                    &&& final(self).keys_used() == old(self).keys_used()
                    &&& final(self).fresh_ids() == old(self).fresh_ids()
                    &&& final(self).removed_ids() == old(self).removed_ids()
                },
                None => *final(self) == *old(self),
            },
    {
        match self.live_slot(&id) {
            Some(i) => {
                proof {
                    lemma_entries_set(self.slots@, i as int, id);
                }
                match self.slots[i].as_mut() {
                    Some(e) => Some(&mut e.2),
                    None => None,
                }
            },
            None => None,
        }
    }

    /// Removes component `ctid`. Where no component of its type was ever
    /// added nothing changes. Otherwise the component, if stored, leaves
    /// the storage, its identifier is queued as removed and the counter
    /// goes down by one (staying at zero).
    pub fn remove(&mut self, ctid: TypedComponentId)
        requires
            old(self).wf(),
        ensures
            final(self).wf(),
            !old(self).has_type(ctid.0) ==> *final(self) == *old(self),
            old(self).has_type(ctid.0) ==> {
                &&& final(self).entries() == old(self).entries().filter(other_than::<C>(ctid))
                &&& final(self).removed_ids() == old(self).removed_ids().push(ctid)
                &&& final(self).count() == (if old(self).count() > 0 { old(self).count() - 1 } else { 0 })
            },
            forall|t: std::any::TypeId| final(self).has_type(t) == old(self).has_type(t),
            final(self).fresh_ids() == old(self).fresh_ids(),
            final(self).keys_used() == old(self).keys_used(),
            old(self).counts_all() && (lookup(old(self).entries(), ctid) is Some || !old(self).has_type(ctid.0))
                ==> final(self).counts_all(),
    {
        if self.find_type(&ctid.0).is_none() {
            return;
        }
        let ghost old_slots = self.slots@;
        proof {
            lemma_entries_without(old_slots, ctid);
        }
        match self.live_slot(&ctid) {
            Some(i) => {
                self.slots.set(i, None);
                proof {
                    lemma_entries_clear_len(old_slots, i as int);
                    assert forall|k: int| 0 <= k < old_slots.len() implies
                        #[trigger] self.slots@[k] == clear_id(old_slots[k], ctid) by {
                        if k != i && old_slots[k] is Some && old_slots[k]->Some_0.0 == ctid {
                            assert(old_slots[k]->Some_0.0.1@ == slot_ffi(k));
                        }
                    }
                    assert(self.slots@ =~= cleared(old_slots, ctid));
                }
            },
            None => {
                proof {
                    lemma_lookup_encoded(old_slots, ctid);
                    assert forall|k: int| 0 <= k < old_slots.len() implies
                        #[trigger] old_slots[k] == clear_id(old_slots[k], ctid) by {
                        if old_slots[k] is Some && old_slots[k]->Some_0.0 == ctid {
                            assert(old_slots[k]->Some_0.0.1@ == slot_ffi(k));
                        }
                    }
                    assert(old_slots =~= cleared(old_slots, ctid));
                }
            },
        }
        self.removed.push(ctid);
        self.len = if self.len > 0 { self.len - 1 } else { 0 };
    }

    /// The components of type `t`, in the order they were added; `None`
    /// where no component of that type was ever added.
    pub fn values_of_type(&self, t: std::any::TypeId) -> (r: Option<Vec<&C>>)
        requires
            self.wf(),
        ensures
            r is Some <==> self.has_type(t),
            r is Some ==> r->Some_0@.len() == values_typed(self.entries(), t).len(),
            r is Some ==> forall|j: int| 0 <= j < r->Some_0@.len()
                ==> *r->Some_0@[j] == values_typed(self.entries(), t)[j],
    {
        if self.find_type(&t).is_none() {
            return None;
        }
        let mut out: Vec<&C> = Vec::new();
        let mut i: usize = 0;
        while i < self.slots.len()
            invariant
                i <= self.slots@.len(),
                out@.len() == values_typed(entries_of(self.slots@.take(i as int)), t).len(),
                forall|j: int| 0 <= j < out@.len()
                    ==> *out@[j] == values_typed(entries_of(self.slots@.take(i as int)), t)[j],
            decreases self.slots@.len() - i,
        {
            let ghost pre = self.slots@.take(i as int);
            assert(self.slots@.take(i as int + 1) =~= pre.push(self.slots@[i as int]));
            proof {
                lemma_entries_push(pre, self.slots@[i as int]);
            }
            let ghost ep = entries_of(pre);
            match &self.slots[i] {
                Some(e) => {
                    assert(ep.push(*e).drop_last() =~= ep);
                    if same_type(&e.0.0, &t) {
                        out.push(&e.2);
                    }
                },
                None => {},
            }
            i += 1;
        }
        assert(self.slots@.take(self.slots@.len() as int) =~= self.slots@);
        Some(out)
    }

    /// Every stored component with its identifier and owner, in the order
    /// they were added.
    pub fn iter(&self) -> (r: Vec<(TypedComponentId, GameObjectId, &C)>)
        ensures
            r@.len() == self.entries().len(),
            forall|j: int| 0 <= j < r@.len() ==> (#[trigger] r@[j]).0 == self.entries()[j].0
                && r@[j].1 == self.entries()[j].1 && *r@[j].2 == self.entries()[j].2,
    {
        let mut out: Vec<(TypedComponentId, GameObjectId, &C)> = Vec::new();
        let mut i: usize = 0;
        while i < self.slots.len()
            invariant
                i <= self.slots@.len(),
                out@.len() == entries_of(self.slots@.take(i as int)).len(),
                forall|j: int| 0 <= j < out@.len() ==> (#[trigger] out@[j]).0 == entries_of(self.slots@.take(i as int))[j].0
                    && out@[j].1 == entries_of(self.slots@.take(i as int))[j].1
                    && *out@[j].2 == entries_of(self.slots@.take(i as int))[j].2,
            decreases self.slots@.len() - i,
        {
            let ghost pre = self.slots@.take(i as int);
            assert(self.slots@.take(i as int + 1) =~= pre.push(self.slots@[i as int]));
            proof {
                lemma_entries_push(pre, self.slots@[i as int]);
            }
            match &self.slots[i] {
                Some(e) => {
                    out.push((e.0, e.1, &e.2));
                },
                None => {},
            }
            i += 1;
        }
        assert(self.slots@.take(self.slots@.len() as int) =~= self.slots@);
        out
    }
}

impl GameObject {
    /// Attaches `component` of type `type_id` to this object and returns its
    /// identifier, which names no component held before; it is queued as
    /// fresh.
    pub fn add_component<C>(&self, storage: &mut ComponentStorage<C>, type_id: std::any::TypeId, component: C) -> (id: TypedComponentId)
        requires
            old(storage).wf(),
            old(storage).keys_used() < 0xffff_ffff,
            old(storage).count() < usize::MAX,
        ensures
            id.0 == type_id,
            lookup(old(storage).entries(), id) is None,
            final(storage).entries() == old(storage).entries().push((id, self.object_id(), component)),
            final(storage).has_type(type_id),
            forall|t: std::any::TypeId| t != type_id ==> (final(storage).has_type(t) == old(storage).has_type(t)),
            final(storage).count() == old(storage).count() + 1,
            final(storage).fresh_ids() == old(storage).fresh_ids().push(id),
            final(storage).removed_ids() == old(storage).removed_ids(),
            final(storage).wf(),
            old(storage).counts_all() ==> final(storage).counts_all(),
    {
        storage.add(type_id, component, self.id())
    }

    /// Attaches a new component of type `type_id`, made for each child by
    /// `N::new`, to every child of this object, in child order.
    pub fn add_child_components<N: NewComponent>(&self, storage: &mut ComponentStorage<N>, type_id: std::any::TypeId)
        requires
            old(storage).wf(),
            old(storage).keys_used() + self.child_links().len() < 0xffff_ffff,
            old(storage).count() + self.child_links().len() <= usize::MAX,
        ensures
            final(storage).wf(),
            final(storage).entries().len() == old(storage).entries().len() + self.child_links().len(),
            final(storage).entries().take(old(storage).entries().len() as int) == old(storage).entries(),
            forall|j: int| 0 <= j < self.child_links().len() ==> {
                let e = #[trigger] final(storage).entries()[old(storage).entries().len() + j];
                &&& e.0.0 == type_id
                &&& e.1 == self.child_links()[j]
                &&& lookup(old(storage).entries(), e.0) is None
            },
            final(storage).count() == old(storage).count() + self.child_links().len(),
            final(storage).keys_used() == old(storage).keys_used() + self.child_links().len(),
            final(storage).fresh_ids().len() == old(storage).fresh_ids().len() + self.child_links().len(),
            final(storage).removed_ids() == old(storage).removed_ids(),
            old(storage).counts_all() ==> final(storage).counts_all(),
    {
        let kids = self.children();
        let ghost s0 = *storage;
        let ghost n0 = s0.entries().len();
        let mut k: usize = 0;
        while k < kids.len()
            invariant
                kids@ == self.child_links(),
                k <= kids@.len(),
                s0.keys_used() + kids@.len() < 0xffff_ffff,
                s0.count() + kids@.len() <= usize::MAX,
                storage.wf(),
                storage.entries().len() == n0 + k,
                n0 == s0.entries().len(),
                storage.entries().take(n0 as int) == s0.entries(),
                forall|j: int| 0 <= j < k ==> {
                    let e = #[trigger] storage.entries()[n0 + j];
                    &&& e.0.0 == type_id
                    &&& e.1 == kids@[j]
                    &&& lookup(s0.entries(), e.0) is None
                },
                storage.count() == s0.count() + k,
                storage.keys_used() == s0.keys_used() + k,
                storage.fresh_ids().len() == s0.fresh_ids().len() + k,
                storage.removed_ids() == s0.removed_ids(),
                s0.counts_all() ==> storage.counts_all(),
            decreases kids@.len() - k,
        {
            let ghost before = storage.entries();
            let comp = N::new(kids[k]);
            let id = storage.add(type_id, comp, kids[k]);
            proof {
                assert(storage.entries().take(n0 as int) =~= before.take(n0 as int));
                assert(before.take(n0 as int) == s0.entries());
                assert(lookup(s0.entries(), id) is None) by {
                    lemma_lookup_prefix(before, n0 as int, id);
                }
                assert forall|j: int| 0 <= j < k + 1 implies {
                    let e = #[trigger] storage.entries()[n0 + j];
                    &&& e.0.0 == type_id
                    &&& e.1 == kids@[j]
                    &&& lookup(s0.entries(), e.0) is None
                } by {
                    if j < k {
                        assert(storage.entries()[n0 + j] == before[n0 + j]);
                    }
                }
            }
            k += 1;
        }
    }

    /// Removes component `comp` from the storage, as `ComponentStorage::remove` does.
    pub fn remove_component<C>(&self, storage: &mut ComponentStorage<C>, comp: TypedComponentId)
        requires
            old(storage).wf(),
        ensures
            final(storage).wf(),
            !old(storage).has_type(comp.0) ==> *final(storage) == *old(storage),
            old(storage).has_type(comp.0) ==> {
                &&& final(storage).entries() == old(storage).entries().filter(other_than::<C>(comp))
                &&& final(storage).removed_ids() == old(storage).removed_ids().push(comp)
                &&& final(storage).count() == (if old(storage).count() > 0 { old(storage).count() - 1 } else { 0 })
            },
            forall|t: std::any::TypeId| final(storage).has_type(t) == old(storage).has_type(t),
            final(storage).fresh_ids() == old(storage).fresh_ids(),
    {
        storage.remove(comp);
    }

    /// The first component of type `t` attached to this object.
    pub fn get_component<C>(&self, storage: &ComponentStorage<C>, t: std::any::TypeId) -> (r: Option<TypedComponentId>)
        ensures
            r == first_of(owned_of_type(storage.entries(), self.object_id(), t)),
    {
        let all = storage.components_of(self.id(), t);
        if all.len() > 0 {
            Some(all[0])
        } else {
            None
        }
    }

    /// All components of type `t` attached to this object, in the order they
    /// were added.
    pub fn get_components<C>(&self, storage: &ComponentStorage<C>, t: std::any::TypeId) -> (r: Vec<TypedComponentId>)
        ensures
            r@ == owned_of_type(storage.entries(), self.object_id(), t),
    {
        storage.components_of(self.id(), t)
    }

    /// The first component of type `t` attached to a child of this object,
    /// looking at the children in order.
    pub fn get_child_component<C>(&self, storage: &ComponentStorage<C>, t: std::any::TypeId) -> (r: Option<TypedComponentId>)
        ensures
            r == first_on_any(storage.entries(), self.child_links(), t),
            r is None <==> forall|i: int| 0 <= i < self.child_links().len()
                ==> #[trigger] owned_of_type(storage.entries(), self.child_links()[i], t).len() == 0,
    {
        proof {
            law_first_on_any(storage.entries(), self.child_links(), t);
        }
        let kids = self.children();
        let mut k: usize = 0;
        assert(kids@.skip(0) =~= kids@);
        while k < kids.len()
            invariant
                kids@ == self.child_links(),
                k <= kids@.len(),
                first_on_any(storage.entries(), kids@, t) == first_on_any(storage.entries(), kids@.skip(k as int), t),
            decreases kids@.len() - k,
        {
            assert(kids@.skip(k as int).drop_first() =~= kids@.skip(k as int + 1));
            assert(kids@.skip(k as int)[0] == kids@[k as int]);
            let found = storage.components_of(kids[k], t);
            if found.len() > 0 {
                return Some(found[0]);
            }
            k += 1;
        }
        assert(kids@.skip(k as int) =~= Seq::<GameObjectId>::empty());
        None
    }
}

impl World {
    /// All components of type `t` in the world: for each root-level object
    /// in order, the components in its children's subtrees, children in
    /// order, and then its own. Each level of the walk spends one unit of
    /// fuel; the world's object count is enough to reach every object of an
    /// acyclic scene.
    pub fn get_all_components_of_type<C>(&self, storage: &ComponentStorage<C>, t: std::any::TypeId) -> (r: Vec<TypedComponentId>)
        requires
            self.refs_valid(),
        ensures
            r@ == collect_typed_in(*self, storage.entries(), t, self.roots(), self.slot_count()),
    {
        let mut out: Vec<TypedComponentId> = Vec::new();
        proof {
            self.lemma_roots_live();
        }
        Self::get_components_of_children(self, storage, &t, self.children(), self.slots_used(), &mut out);
        assert(out@ =~= collect_typed_in(*self, storage.entries(), t, self.roots(), self.slot_count()));
        out
    }

    /// Appends the components of type `t` in the subtrees of `ids` to `out`.
    fn get_components_of_children<C>(
        &self,
        storage: &ComponentStorage<C>,
        t: &std::any::TypeId,
        ids: &[GameObjectId],
        fuel: usize,
        out: &mut Vec<TypedComponentId>,
    )
        requires
            self.refs_valid(),
            forall|j: int| 0 <= j < ids@.len() ==> self.has(#[trigger] ids@[j]),
        ensures
            final(out)@ == old(out)@ + collect_typed_in(*self, storage.entries(), *t, ids@, fuel as nat),
        decreases fuel, 1nat,
    {
        let ghost start = out@;
        let mut k: usize = 0;
        assert(ids@.skip(0) =~= ids@);
        assert(start =~= start + Seq::<TypedComponentId>::empty());
        while k < ids.len()
            invariant
                self.refs_valid(),
                forall|j: int| 0 <= j < ids@.len() ==> self.has(#[trigger] ids@[j]),
                k <= ids@.len(),
                start + collect_typed_in(*self, storage.entries(), *t, ids@, fuel as nat)
                    == out@ + collect_typed_in(*self, storage.entries(), *t, ids@.skip(k as int), fuel as nat),
            decreases ids@.len() - k,
        {
            assert(ids@.skip(k as int).drop_first() =~= ids@.skip(k as int + 1));
            assert(ids@.skip(k as int)[0] == ids@[k as int]);
            let ghost before = out@;
            self.get_components_of_object(storage, t, ids[k], fuel, out);
            assert(out@ + collect_typed_in(*self, storage.entries(), *t, ids@.skip(k as int + 1), fuel as nat)
                =~= before + collect_typed_in(*self, storage.entries(), *t, ids@.skip(k as int), fuel as nat));
            k += 1;
        }
        assert(ids@.skip(k as int) =~= Seq::<GameObjectId>::empty());
        assert(out@ + collect_typed_in(*self, storage.entries(), *t, ids@.skip(k as int), fuel as nat) =~= out@);
    }

    /// Appends the components of type `t` in the subtree of `id` to `out`.
    fn get_components_of_object<C>(
        &self,
        storage: &ComponentStorage<C>,
        t: &std::any::TypeId,
        id: GameObjectId,
        fuel: usize,
        out: &mut Vec<TypedComponentId>,
    )
        requires
            self.refs_valid(),
            self.has(id),
        ensures
            final(out)@ == old(out)@ + collect_typed(*self, storage.entries(), *t, id, fuel as nat),
        decreases fuel, 0nat,
    {
        if fuel == 0 {
            assert(out@ =~= out@ + Seq::<TypedComponentId>::empty());
            return;
        }
        let ghost start = out@;
        let obj = self.get_object(&id).unwrap();
        let kids = obj.children();
        assert(kids@ == self.children_of(id));
        proof {
            self.lemma_children_live(id);
        }
        self.get_components_of_children(storage, t, kids, fuel - 1, out);
        storage.push_owned(id, t, out);
        assert(out@ =~= start + collect_typed(*self, storage.entries(), *t, id, fuel as nat));
    }
}

impl GameObject {
    /// Destroys the object `id` and all its descendants: they leave the
    /// world with every link to them, and every component that belonged to
    /// one of them leaves `storage`, queued as removed in the order the
    /// components were added.
    pub fn delete<C>(world: &mut World, storage: &mut ComponentStorage<C>, id: GameObjectId)
        requires
            old(world).refs_valid(),
            old(world).consistent(),
            old(world).has(id),
            old(storage).wf(),
        ensures
            final(world).slot_count() == old(world).slot_count(),
            final(world).camera() == old(world).camera(),
            final(world).shutdown_requested() == old(world).shutdown_requested(),
            forall|x: GameObjectId| #[trigger] final(world).has(x) <==> (old(world).has(x)
                && !in_subtree(*old(world), id, x)),
            forall|x: GameObjectId| #[trigger] final(world).has(x) ==> final(world).name_of(x)
                == old(world).name_of(x) && final(world).parent_of(x) == old(world).parent_of(x)
                && final(world).children_of(x) == old(world).children_of(x).filter(
                outside_subtree(*old(world), id)),
            final(world).roots() == old(world).roots().filter(outside_subtree(*old(world), id)),
            final(world).refs_valid(),
            final(world).consistent(),
            final(storage).wf(),
            final(storage).entries() == old(storage).entries().filter(owner_survives::<C>(*old(world), id)),
            final(storage).removed_ids() == old(storage).removed_ids()
                + old(storage).entries().filter(owner_deleted::<C>(*old(world), id)).map_values(|e: Entry<C>| e.0),
            final(storage).count() == less_saturating(old(storage).count(),
                old(storage).entries().filter(owner_deleted::<C>(*old(world), id)).len()),
            old(storage).counts_all() ==> final(storage).counts_all(),
            final(storage).fresh_ids() == old(storage).fresh_ids(),
            final(storage).keys_used() == old(storage).keys_used(),
            forall|t: std::any::TypeId| final(storage).has_type(t) == old(storage).has_type(t),
    {
        let ghost w0 = *world;
        let ghost s0 = *storage;
        let ghost e0 = storage.entries();
        let ghost surv = owner_survives::<C>(w0, id);
        let ghost gone = owner_deleted::<C>(w0, id);
        let snap = storage.ids_and_owners();
        let mut alive: Vec<bool> = Vec::new();
        let mut j: usize = 0;
        while j < snap.len()
            invariant
                j <= snap@.len(),
                alive@.len() == j,
                *world == w0,
                forall|q: int| 0 <= q < j ==> alive@[q] == world.has(#[trigger] snap@[q].1),
            decreases snap@.len() - j,
        {
            alive.push(world.get_object(&snap[j].1).is_some());
            j += 1;
        }
        assert forall|q: int| 0 <= q < e0.len() implies alive@[q] == w0.has(#[trigger] e0[q].1) by {
            assert(snap@[q].1 == e0[q].1);
            assert(alive@[q] == world.has(snap@[q].1));
        }
        GameObject::delete_tree(world, id);
        proof {
            s0.lemma_entries_ordered();
        }
        let mut k: usize = 0;
        assert(e0.take(0).filter(surv) =~= Seq::<Entry<C>>::empty()) by {
            reveal(Seq::filter);
        }
        assert(e0.take(0).filter(gone) =~= Seq::<Entry<C>>::empty()) by {
            reveal(Seq::filter);
        }
        assert(storage.entries() =~= e0.take(0).filter(surv) + e0.skip(0));
        assert(storage.removed_ids() =~= s0.removed_ids() + e0.take(0).filter(gone).map_values(|e: Entry<C>| e.0));
        while k < snap.len()
            invariant
                k <= snap@.len(),
                snap@.len() == e0.len(),
                alive@.len() == e0.len(),
                forall|q: int| 0 <= q < e0.len() ==> (#[trigger] snap@[q]).0 == e0[q].0 && snap@[q].1 == e0[q].1,
                forall|q: int| 0 <= q < e0.len() ==> alive@[q] == w0.has(#[trigger] e0[q].1),
                forall|x: GameObjectId| #[trigger] world.has(x) <==> (w0.has(x) && !in_subtree(w0, id, x)),
                forall|a: int, b: int| 0 <= a < b < e0.len() ==> (#[trigger] e0[a]).0.1@ < (#[trigger] e0[b]).0.1@,
                forall|q: int| 0 <= q < e0.len() ==> s0.has_type(#[trigger] e0[q].0.0),
                e0 == s0.entries(),
                surv == owner_survives::<C>(w0, id),
                gone == owner_deleted::<C>(w0, id),
                storage.wf(),
                storage.entries() == e0.take(k as int).filter(surv) + e0.skip(k as int),
                storage.removed_ids() == s0.removed_ids() + e0.take(k as int).filter(gone).map_values(|e: Entry<C>| e.0),
                storage.count() == less_saturating(s0.count(), e0.take(k as int).filter(gone).len()),
                storage.fresh_ids() == s0.fresh_ids(),
                storage.keys_used() == s0.keys_used(),
                forall|t: std::any::TypeId| storage.has_type(t) == s0.has_type(t),
            decreases snap@.len() - k,
        {
            let ghost before = storage.entries();
            let ghost x = e0[k as int];
            let ghost a = e0.take(k as int).filter(surv);
            assert(e0.take(k as int + 1) =~= e0.take(k as int).push(x));
            assert(e0.skip(k as int) =~= seq![x] + e0.skip(k as int + 1));
            proof {
                reveal(Seq::filter);
                assert(e0.take(k as int).push(x).drop_last() =~= e0.take(k as int));
            }
            let doomed = alive[k] && world.get_object(&snap[k].1).is_none();
            assert(doomed == gone(x));
            if doomed {
                storage.remove(snap[k].0);
                proof {
                    assert(e0.take(k as int + 1).filter(surv) == a);
                    assert(e0.take(k as int + 1).filter(gone) == e0.take(k as int).filter(gone).push(x));
                    assert forall|q: int| 0 <= q < a.len() implies (#[trigger] a[q]).0 != x.0 by {
                        e0.take(k as int).lemma_filter_contains_rev(surv, a[q]);
                        assert(a.contains(a[q]));
                        let w = choose|w: int| 0 <= w < e0.take(k as int).len() && e0.take(k as int)[w] == a[q];
                        assert(e0[w] == a[q]);
                    }
                    lemma_filter_absent(a, x.0);
                    assert forall|q: int| 0 <= q < e0.skip(k as int + 1).len()
                        implies (#[trigger] e0.skip(k as int + 1)[q]).0 != x.0 by {
                        assert(e0.skip(k as int + 1)[q] == e0[k + 1 + q]);
                    }
                    lemma_filter_absent(e0.skip(k as int + 1), x.0);
                    Seq::filter_distributes_over_add(a, e0.skip(k as int), other_than::<C>(x.0));
                    Seq::filter_distributes_over_add(seq![x], e0.skip(k as int + 1), other_than::<C>(x.0));
                    assert(seq![x].filter(other_than::<C>(x.0)) =~= Seq::<Entry<C>>::empty()) by {
                        reveal_with_fuel(Seq::filter, 2);
                        assert(seq![x].drop_last() =~= Seq::<Entry<C>>::empty());
                    }
                    assert(storage.entries() =~= e0.take(k as int + 1).filter(surv) + e0.skip(k as int + 1));
                    assert(storage.removed_ids() =~= s0.removed_ids()
                        + e0.take(k as int + 1).filter(gone).map_values(|e: Entry<C>| e.0));
                }
            } else {
                proof {
                    assert(e0.take(k as int + 1).filter(surv) == a.push(x));
                    assert(e0.take(k as int + 1).filter(gone) == e0.take(k as int).filter(gone));
                    assert(storage.entries() =~= e0.take(k as int + 1).filter(surv) + e0.skip(k as int + 1));
                }
            }
            k += 1;
        }
        proof {
            assert(e0.take(e0.len() as int) =~= e0);
            assert(e0.skip(e0.len() as int) =~= Seq::<Entry<C>>::empty());
            assert(storage.entries() =~= e0.filter(surv));
            lemma_filter_split_len(e0, surv, gone);
        }
    }
}

impl World {
    /// Destroys an object tree and the components of its objects; see
    /// [`GameObject::delete`].
    pub fn delete_object<C>(&mut self, storage: &mut ComponentStorage<C>, object: GameObjectId)
        requires
            old(self).refs_valid(),
            old(self).consistent(),
            old(self).has(object),
            old(storage).wf(),
        ensures
            final(self).slot_count() == old(self).slot_count(),
            forall|x: GameObjectId| #[trigger] final(self).has(x) <==> (old(self).has(x)
                && !in_subtree(*old(self), object, x)),
            forall|x: GameObjectId| #[trigger] final(self).has(x) ==> final(self).name_of(x)
                == old(self).name_of(x) && final(self).parent_of(x) == old(self).parent_of(x)
                && final(self).children_of(x) == old(self).children_of(x).filter(
                outside_subtree(*old(self), object)),
            final(self).roots() == old(self).roots().filter(outside_subtree(*old(self), object)),
            final(self).refs_valid(),
            final(self).consistent(),
            final(storage).wf(),
            final(storage).entries() == old(storage).entries().filter(owner_survives::<C>(*old(self), object)),
            final(storage).removed_ids() == old(storage).removed_ids()
                + old(storage).entries().filter(owner_deleted::<C>(*old(self), object)).map_values(|e: Entry<C>| e.0),
            old(storage).counts_all() ==> final(storage).counts_all(),
            final(storage).fresh_ids() == old(storage).fresh_ids(),
    {
        GameObject::delete(self, storage, object);
    }
}

/// Appending a slot appends its entry, if it holds one.
proof fn lemma_entries_push<C>(s: Seq<Option<Entry<C>>>, e: Option<Entry<C>>)
    ensures
        entries_of(s.push(e)) == (match e {
            Some(x) => entries_of(s).push(x),
            None => entries_of(s),
        }),
{
    assert(s.push(e).drop_last() =~= s);
    reveal_with_fuel(Seq::filter_map, 2);
}

/// In slots where each key encodes its slot, the value found under `id` is
/// the one in the slot its key encodes.
proof fn lemma_lookup_encoded<C>(s: Seq<Option<Entry<C>>>, id: TypedComponentId)
    requires
        ComponentStorage::<C>::slots_encoded(s),
    ensures
        lookup(entries_of(s), id) == ({
            let i = id.1@ - 0x1_0000_0000int;
            if 0 <= i < s.len() && s[i] is Some && s[i]->Some_0.0 == id {
                Some(s[i]->Some_0.2)
            } else {
                None::<C>
            }
        }),
    decreases s.len(),
{
    if s.len() > 0 {
        let p = s.drop_last();
        assert(p.push(s.last()) =~= s);
        lemma_entries_push(p, s.last());
        assert(ComponentStorage::<C>::slots_encoded(p)) by {
            assert forall|i: int| 0 <= i < p.len() && (#[trigger] p[i]) is Some implies p[i]->Some_0.0.1@ == slot_ffi(i) by {
                assert(p[i] == s[i]);
            }
        }
        lemma_lookup_encoded(p, id);
        let n = s.len() - 1;
        match s.last() {
            Some(x) => {
                assert(s[n] is Some);
                let ep = entries_of(p);
                assert(entries_of(s) == ep.push(x));
                assert(ep.push(x).drop_last() =~= ep);
            },
            None => {},
        }
    }
}

/// The entries of encoded slots have increasing keys below the slot count,
/// and their types are among those of the slots.
proof fn lemma_slots_ordered<C>(s: Seq<Option<Entry<C>>>, types: Seq<std::any::TypeId>)
    requires
        ComponentStorage::<C>::slots_encoded(s),
        forall|i: int| 0 <= i < s.len() && (#[trigger] s[i]) is Some ==> types.contains(s[i]->Some_0.0.0),
    ensures
        forall|j: int| 0 <= j < entries_of(s).len() ==> 0x1_0000_0000int <= (#[trigger] entries_of(s)[j]).0.1@
            < slot_ffi(s.len() as int),
        forall|j: int, k: int| 0 <= j < k < entries_of(s).len()
            ==> (#[trigger] entries_of(s)[j]).0.1@ < (#[trigger] entries_of(s)[k]).0.1@,
        forall|j: int| 0 <= j < entries_of(s).len() ==> types.contains(#[trigger] entries_of(s)[j].0.0),
    decreases s.len(),
{
    if s.len() > 0 {
        let p = s.drop_last();
        assert(p.push(s.last()) =~= s);
        assert(ComponentStorage::<C>::slots_encoded(p)) by {
            assert forall|i: int| 0 <= i < p.len() && (#[trigger] p[i]) is Some implies p[i]->Some_0.0.1@ == slot_ffi(i) by {
                assert(p[i] == s[i]);
            }
        }
        assert forall|i: int| 0 <= i < p.len() && (#[trigger] p[i]) is Some implies types.contains(p[i]->Some_0.0.0) by {
            assert(p[i] == s[i]);
        }
        lemma_slots_ordered(p, types);
        lemma_entries_push(p, s.last());
        let ep = entries_of(p);
        match s.last() {
            Some(x) => {
                assert(s[s.len() - 1] is Some);
                assert(entries_of(s) == ep.push(x));
                assert forall|j: int| 0 <= j < entries_of(s).len() implies 0x1_0000_0000int <= (#[trigger] entries_of(s)[j]).0.1@
                    < slot_ffi(s.len() as int) by {
                    if j < ep.len() {
                        assert(entries_of(s)[j] == ep[j]);
                    }
                }
                assert forall|j: int, k: int| 0 <= j < k < entries_of(s).len()
                    implies (#[trigger] entries_of(s)[j]).0.1@ < (#[trigger] entries_of(s)[k]).0.1@ by {
                    assert(entries_of(s)[j] == ep[j]);
                    if k < ep.len() {
                        assert(entries_of(s)[k] == ep[k]);
                    }
                }
                assert forall|j: int| 0 <= j < entries_of(s).len() implies types.contains(#[trigger] entries_of(s)[j].0.0) by {
                    if j < ep.len() {
                        assert(entries_of(s)[j] == ep[j]);
                    }
                }
            },
            None => {},
        }
    }
}

/// Holds of the entries whose object is in the tree of `root` in `w`.
pub open spec fn owner_deleted<C>(w: World, root: GameObjectId) -> spec_fn(Entry<C>) -> bool {
    |e: Entry<C>| w.has(e.1) && in_subtree(w, root, e.1)
}

/// Holds of the entries whose object is not in the tree of `root` in `w`.
pub open spec fn owner_survives<C>(w: World, root: GameObjectId) -> spec_fn(Entry<C>) -> bool {
    |e: Entry<C>| !(w.has(e.1) && in_subtree(w, root, e.1))
}

/// `a` less `b`, and zero where `b` is larger.
pub open spec fn less_saturating(a: nat, b: nat) -> nat {
    if a >= b {
        (a - b) as nat
    } else {
        0
    }
}

/// Filtering an entry out by an identifier no entry has changes nothing.
proof fn lemma_filter_absent<C>(s: Seq<Entry<C>>, id: TypedComponentId)
    requires
        forall|j: int| 0 <= j < s.len() ==> (#[trigger] s[j]).0 != id,
    ensures
        s.filter(other_than::<C>(id)) == s,
    decreases s.len(),
{
    reveal(Seq::filter);
    if s.len() > 0 {
        let p = s.drop_last();
        assert forall|j: int| 0 <= j < p.len() implies (#[trigger] p[j]).0 != id by {
            assert(p[j] == s[j]);
        }
        lemma_filter_absent(p, id);
        assert(p.push(s.last()) =~= s);
        assert(s.last() == s[s.len() - 1]);
    }
}

/// A predicate and its negation split a sequence's length.
proof fn lemma_filter_split_len<C>(s: Seq<Entry<C>>, keep: spec_fn(Entry<C>) -> bool, drop: spec_fn(Entry<C>) -> bool)
    requires
        forall|e: Entry<C>| #[trigger] keep(e) == !drop(e),
    ensures
        s.filter(keep).len() + s.filter(drop).len() == s.len(),
    decreases s.len(),
{
    reveal(Seq::filter);
    if s.len() > 0 {
        lemma_filter_split_len(s.drop_last(), keep, drop);
    }
}

/// An identifier not found in a sequence is not found in any prefix of it.
proof fn lemma_lookup_prefix<C>(s: Seq<Entry<C>>, n: int, id: TypedComponentId)
    requires
        0 <= n <= s.len(),
        lookup(s, id) is None,
    ensures
        lookup(s.take(n), id) is None,
    decreases s.len(),
{
    if n < s.len() {
        assert(s.drop_last().take(n) =~= s.take(n));
        lemma_lookup_prefix(s.drop_last(), n, id);
    } else {
        assert(s.take(n) =~= s);
    }
}

/// Entry `e` with the value of component `id` set to `v`.
pub open spec fn with_value<C>(e: Entry<C>, id: TypedComponentId, v: C) -> Entry<C> {
    if e.0 == id {
        (id, e.1, v)
    } else {
        e
    }
}

/// The entries `s` with the value of component `id` set to `v`.
pub open spec fn replace_value<C>(s: Seq<Entry<C>>, id: TypedComponentId, v: C) -> Seq<Entry<C>> {
    Seq::new(s.len(), |k: int| with_value(s[k], id, v))
}

/// A slot with the value of component `id` set to `v`.
pub open spec fn slot_with_value<C>(e: Option<Entry<C>>, id: TypedComponentId, v: C) -> Option<Entry<C>> {
    match e {
        Some(x) => Some(with_value(x, id, v)),
        None => None,
    }
}

/// Setting the value of component `id` in every slot sets it in the entries.
proof fn lemma_entries_with_value<C>(s: Seq<Option<Entry<C>>>, id: TypedComponentId, v: C)
    ensures
        entries_of(Seq::new(s.len(), |k: int| slot_with_value(s[k], id, v))) == replace_value(entries_of(s), id, v),
    decreases s.len(),
{
    let f = |k: int| slot_with_value(s[k], id, v);
    if s.len() == 0 {
        assert(entries_of(Seq::new(s.len(), f)) =~= replace_value(entries_of(s), id, v));
    } else {
        let p = s.drop_last();
        lemma_entries_with_value(p, id, v);
        assert(p.push(s.last()) =~= s);
        let fp = |k: int| slot_with_value(p[k], id, v);
        assert(Seq::new(p.len(), fp).push(slot_with_value(s.last(), id, v)) =~= Seq::new(s.len(), f));
        lemma_entries_push(p, s.last());
        lemma_entries_push(Seq::new(p.len(), fp), slot_with_value(s.last(), id, v));
        match s.last() {
            Some(x) => {
                assert(replace_value(entries_of(p).push(x), id, v) =~= replace_value(entries_of(p), id, v).push(with_value(x, id, v)));
            },
            None => {},
        }
    }
}

/// Setting the value in the slot of component `id` sets it in the entries.
proof fn lemma_entries_set<C>(s: Seq<Option<Entry<C>>>, i: int, id: TypedComponentId)
    requires
        ComponentStorage::<C>::slots_encoded(s),
        0 <= i < s.len(),
        s[i] is Some,
        s[i]->Some_0.0 == id,
    ensures
        forall|v: C| #[trigger] entries_of(s.update(i, Some((id, s[i]->Some_0.1, v)))) == replace_value(entries_of(s), id, v),
{
    assert forall|v: C| #[trigger] entries_of(s.update(i, Some((id, s[i]->Some_0.1, v)))) == replace_value(entries_of(s), id, v) by {
        lemma_entries_with_value(s, id, v);
        assert forall|k: int| 0 <= k < s.len() implies #[trigger] s.update(i, Some((id, s[i]->Some_0.1, v)))[k] == slot_with_value(s[k], id, v) by {
            if k != i && s[k] is Some && s[k]->Some_0.0 == id {
                assert(s[k]->Some_0.0.1@ == slot_ffi(k));
                assert(s[i]->Some_0.0.1@ == slot_ffi(i));
            }
        }
        assert(s.update(i, Some((id, s[i]->Some_0.1, v))) =~= Seq::new(s.len(), |k: int| slot_with_value(s[k], id, v)));
    }
}

/// Holds of the entries not named `id`.
pub open spec fn other_than<C>(id: TypedComponentId) -> spec_fn(Entry<C>) -> bool {
    |e: Entry<C>| e.0 != id
}

/// A slot with the component `id` taken out.
pub open spec fn clear_id<C>(e: Option<Entry<C>>, id: TypedComponentId) -> Option<Entry<C>> {
    match e {
        Some(x) => if x.0 == id { None } else { e },
        None => e,
    }
}

/// Slots with the component `id` taken out.
pub open spec fn cleared<C>(s: Seq<Option<Entry<C>>>, id: TypedComponentId) -> Seq<Option<Entry<C>>> {
    Seq::new(s.len(), |k: int| clear_id(s[k], id))
}

/// Taking component `id` out of the slots takes it out of the entries.
proof fn lemma_entries_without<C>(s: Seq<Option<Entry<C>>>, id: TypedComponentId)
    ensures
        entries_of(cleared(s, id)) == entries_of(s).filter(other_than::<C>(id)),
    decreases s.len(),
{
    let pred = other_than::<C>(id);
    reveal(Seq::filter);
    if s.len() == 0 {
        assert(cleared(s, id) =~= s);
        assert(entries_of(s) =~= Seq::<Entry<C>>::empty());
        assert(entries_of(s).filter(pred) =~= Seq::<Entry<C>>::empty());
    } else {
        let p = s.drop_last();
        lemma_entries_without(p, id);
        assert(p.push(s.last()) =~= s);
        assert(cleared(p, id).push(clear_id(s.last(), id)) =~= cleared(s, id));
        lemma_entries_push(p, s.last());
        lemma_entries_push(cleared(p, id), clear_id(s.last(), id));
        let ep = entries_of(p);
        match s.last() {
            Some(x) => {
                assert(ep.push(x).drop_last() =~= ep);
                assert(ep.push(x).last() == x);
            },
            None => {},
        }
    }
}

/// Emptying a full slot takes exactly one entry out.
proof fn lemma_entries_clear_len<C>(s: Seq<Option<Entry<C>>>, i: int)
    requires
        0 <= i < s.len(),
        s[i] is Some,
    ensures
        entries_of(s.update(i, None)).len() + 1 == entries_of(s).len(),
    decreases s.len(),
{
    let p = s.drop_last();
    assert(p.push(s.last()) =~= s);
    lemma_entries_push(p, s.last());
    if i == s.len() - 1 {
        assert(s.update(i, None) =~= p.push(None));
        lemma_entries_push(p, None::<Entry<C>>);
    } else {
        lemma_entries_clear_len(p, i);
        assert(s.update(i, None) =~= p.update(i, None).push(s.last()));
        lemma_entries_push(p.update(i, None), s.last());
    }
}

/// A component added to the storage is found under its identifier.
pub proof fn law_get_after_add<C>(s: Seq<Entry<C>>, id: TypedComponentId, owner: GameObjectId, c: C)
    ensures
        lookup(s.push((id, owner, c)), id) == Some(c),
{
    assert(s.push((id, owner, c)).last() == (id, owner, c));
}

/// Removing a component right after adding it leaves the entries as they
/// were before the addition.
pub proof fn law_remove_undoes_add<C>(s: Seq<Entry<C>>, id: TypedComponentId, owner: GameObjectId, c: C)
    requires
        lookup(s, id) is None,
    ensures
        s.push((id, owner, c)).filter(other_than::<C>(id)) == s,
{
    reveal(Seq::filter);
    lemma_lookup_none_filter(s, id);
    assert(s.push((id, owner, c)).drop_last() =~= s);
}

/// Filtering out an identifier that does not occur changes nothing.
proof fn lemma_lookup_none_filter<C>(s: Seq<Entry<C>>, id: TypedComponentId)
    requires
        lookup(s, id) is None,
    ensures
        s.filter(other_than::<C>(id)) == s,
    decreases s.len(),
{
    let pred = other_than::<C>(id);
    reveal(Seq::filter);
    if s.len() == 0 {
        assert(s.filter(pred) =~= s);
    } else {
        lemma_lookup_none_filter(s.drop_last(), id);
        assert(s.drop_last().push(s.last()) =~= s);
    }
}

/// The search of a child component: it finds nothing exactly when none of
/// the objects `ids` owns a component of type `t`; otherwise it finds the
/// first component of type `t` of the first object, in order, that owns one.
pub proof fn law_first_on_any<C>(s: Seq<Entry<C>>, ids: Seq<GameObjectId>, t: std::any::TypeId)
    ensures
        first_on_any(s, ids, t) is None <==> forall|i: int| 0 <= i < ids.len() ==> #[trigger] owned_of_type(s, ids[i], t).len() == 0,
        first_on_any(s, ids, t) matches Some(c) ==> exists|i: int| {
            &&& 0 <= i < ids.len()
            &&& (forall|j: int| 0 <= j < i ==> #[trigger] owned_of_type(s, ids[j], t).len() == 0)
            &&& #[trigger] owned_of_type(s, ids[i], t).len() > 0
            &&& c == owned_of_type(s, ids[i], t)[0]
        },
    decreases ids.len(),
{
    if ids.len() > 0 {
        let rest = ids.drop_first();
        law_first_on_any(s, rest, t);
        assert forall|i: int| 0 < i < ids.len() implies ids[i] == rest[i - 1] by {}
        if owned_of_type(s, ids[0], t).len() == 0 {
            if first_on_any(s, ids, t) is None {
                assert forall|i: int| 0 <= i < ids.len() implies #[trigger] owned_of_type(s, ids[i], t).len() == 0 by {
                    if i > 0 {
                        assert(owned_of_type(s, rest[i - 1], t).len() == 0);
                    }
                }
            } else {
                let c = first_on_any(s, ids, t)->Some_0;
                let k = choose|k: int| {
                    &&& 0 <= k < rest.len()
                    &&& (forall|j: int| 0 <= j < k ==> #[trigger] owned_of_type(s, rest[j], t).len() == 0)
                    &&& #[trigger] owned_of_type(s, rest[k], t).len() > 0
                    &&& c == owned_of_type(s, rest[k], t)[0]
                };
                assert(ids[k + 1] == rest[k]);
                assert forall|j: int| 0 <= j < k + 1 implies #[trigger] owned_of_type(s, ids[j], t).len() == 0 by {
                    if j > 0 {
                        assert(ids[j] == rest[j - 1]);
                        assert(owned_of_type(s, rest[j - 1], t).len() == 0);
                    }
                }
                assert(owned_of_type(s, ids[k + 1], t).len() > 0);
            }
        } else {
            assert(owned_of_type(s, ids[0], t).len() > 0);
        }
    }
}

} // verus!
