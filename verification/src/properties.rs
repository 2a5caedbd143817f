//! Custom properties of game objects: JSON values kept under string keys.

use crate::ids::GameObjectId;
use crate::scene::{GameObject, World};
use vstd::prelude::*;

verus! {

/// A JSON value, carried as it is.
#[verifier::external_type_specification]
#[verifier::external_body]
pub struct ExJsonValue(serde_json::Value);

/// A key and the value kept under it.
pub type Property = (String, serde_json::Value);

/// Calls `<serde_json::Value as Clone>::clone`. The impl is derived, so the
/// copy is the same JSON value.
#[verifier::external_body]
fn clone_json(v: &serde_json::Value) -> (r: serde_json::Value)
    ensures
        r == *v,
{
    v.clone()
}

/// A copy of the pairs `list`.
pub fn clone_properties(list: &Vec<Property>) -> (r: Vec<Property>)
    ensures
        r@ == list@,
{
    let mut out: Vec<Property> = Vec::new();
    let mut i: usize = 0;
    while i < list.len()
        invariant
            i <= list@.len(),
            out@ == list@.take(i as int),
        decreases list@.len() - i,
    {
        let p = (list[i].0.clone(), clone_json(&list[i].1));
        assert(list@.take(i as int + 1) =~= list@.take(i as int).push(list@[i as int]));
        out.push(p);
        i += 1;
    }
    assert(list@.take(i as int) =~= list@);
    out
}

/// The value kept under `key`: that of the last pair with this key.
pub open spec fn prop_lookup(list: Seq<Property>, key: Seq<char>) -> Option<serde_json::Value>
    decreases list.len(),
{
    if list.len() == 0 {
        None
    } else if list.last().0@ == key {
        Some(list.last().1)
    } else {
        prop_lookup(list.drop_last(), key)
    }
}

/// Holds of the pairs whose key is not `key`.
pub open spec fn key_other_than(key: Seq<char>) -> spec_fn(Property) -> bool {
    |e: Property| e.0@ != key
}

/// The properties after `key` is set to `value`: any pair with that key
/// leaves, and the new pair comes last.
pub open spec fn with_property(list: Seq<Property>, key: String, value: serde_json::Value) -> Seq<Property> {
    list.filter(key_other_than(key@)).push((key, value))
}

/// The properties after each pair of `adds` is set, in order.
pub open spec fn with_properties(list: Seq<Property>, adds: Seq<Property>) -> Seq<Property>
    decreases adds.len(),
{
    if adds.len() == 0 {
        list
    } else {
        with_properties(with_property(list, adds[0].0, adds[0].1), adds.drop_first())
    }
}

/// `w1` is `w0` with at most the properties of object `id` changed.
pub open spec fn only_props_changed(w0: World, w1: World, id: GameObjectId) -> bool {
    &&& w1.slot_count() == w0.slot_count()
    &&& forall|x: GameObjectId| #[trigger] w1.has(x) == w0.has(x)
    &&& forall|x: GameObjectId| #[trigger] w0.has(x) ==> {
        &&& w1.name_of(x) == w0.name_of(x)
        &&& w1.parent_of(x) == w0.parent_of(x)
        &&& w1.children_of(x) == w0.children_of(x)
        &&& (x != id ==> w1.props_of(x) == w0.props_of(x))
    }
    &&& w1.roots() == w0.roots()
    &&& w1.camera() == w0.camera()
    &&& w1.shutdown_requested() == w0.shutdown_requested()
}

/// Changing only the properties of `id` twice changes only them.
proof fn lemma_only_props_trans(w0: World, w1: World, w2: World, id: GameObjectId)
    requires
        only_props_changed(w0, w1, id),
        only_props_changed(w1, w2, id),
    ensures
        only_props_changed(w0, w2, id),
{
    assert forall|x: GameObjectId| #[trigger] w2.has(x) == w0.has(x) by {
        assert(w1.has(x) == w0.has(x));
    }
    assert forall|x: GameObjectId| #[trigger] w0.has(x) implies {
        &&& w2.name_of(x) == w0.name_of(x)
        &&& w2.parent_of(x) == w0.parent_of(x)
        &&& w2.children_of(x) == w0.children_of(x)
        &&& (x != id ==> w2.props_of(x) == w0.props_of(x))
    } by {
        assert(w1.has(x));
    }
}

/// Filtering out a key removes exactly the values kept under it.
proof fn lemma_lookup_without(list: Seq<Property>, key: Seq<char>, k: Seq<char>)
    ensures
        prop_lookup(list.filter(key_other_than(key)), k) == if k == key { None } else { prop_lookup(list, k) },
    decreases list.len(),
{
    reveal(Seq::filter);
    if list.len() > 0 {
        let p = list.drop_last();
        lemma_lookup_without(p, key, k);
        let fp = p.filter(key_other_than(key));
        assert(fp.push(list.last()).drop_last() =~= fp);
    }
}

/// The pairs of `list` without `key`, and the value `list` keeps under it.
fn without_key(list: Vec<Property>, key: &String) -> (r: (Vec<Property>, Option<serde_json::Value>))
    ensures
        r.0@ == list@.filter(key_other_than(key@)),
        r.1 == prop_lookup(list@, key@),
{
    let ghost orig = list@;
    let mut rest = list;
    let mut out: Vec<Property> = Vec::new();
    let mut found: Option<serde_json::Value> = None;
    let ghost mut i: int = 0;
    assert(orig.take(0).filter(key_other_than(key@)) =~= Seq::<Property>::empty()) by {
        reveal(Seq::filter);
    }
    assert(orig.skip(0) =~= orig);
    while rest.len() > 0
        invariant
            0 <= i <= orig.len(),
            rest@ == orig.skip(i),
            out@ == orig.take(i).filter(key_other_than(key@)),
            found == prop_lookup(orig.take(i), key@),
        decreases rest@.len(),
    {
        let e = rest.remove(0);
        proof {
            assert(orig.skip(i)[0] == orig[i]);
            assert(orig.skip(i).remove(0) =~= orig.skip(i + 1));
            assert(orig.take(i + 1) =~= orig.take(i).push(orig[i]));
            assert(orig.take(i).push(orig[i]).drop_last() =~= orig.take(i));
            reveal(Seq::filter);
        }
        if e.0 == *key {
            found = Some(e.1);
        } else {
            out.push(e);
        }
        proof {
            i = i + 1;
        }
    }
    assert(orig.take(i) =~= orig);
    (out, found)
}

impl GameObject {
    /// The value kept under `key`, if any.
    pub fn property(&self, key: &str) -> (r: Option<&serde_json::Value>)
        ensures
            r is Some <==> prop_lookup(self.property_list(), key@) is Some,
            r is Some ==> *r->Some_0 == prop_lookup(self.property_list(), key@)->Some_0,
    {
        let list = self.properties();
        let k = key.to_owned();
        let mut found: Option<usize> = None;
        let mut i: usize = 0;
        while i < list.len()
            invariant
                list@ == self.property_list(),
                k@ == key@,
                i <= list@.len(),
                found is None <==> prop_lookup(list@.take(i as int), key@) is None,
                found matches Some(j) ==> j < i && prop_lookup(list@.take(i as int), key@) == Some(list@[j as int].1),
            decreases list@.len() - i,
        {
            assert(list@.take(i as int + 1).drop_last() =~= list@.take(i as int));
            if list[i].0 == k {
                found = Some(i);
            }
            i += 1;
        }
        assert(list@.take(i as int) =~= list@);
        match found {
            Some(j) => Some(&list[j].1),
            None => None,
        }
    }

    /// Whether a value is kept under `key`.
    pub fn has_property(&self, key: &str) -> (r: bool)
        ensures
            r == prop_lookup(self.property_list(), key@) is Some,
    {
        self.property(key).is_some()
    }

    /// Keeps `value` under `key` on object `id`, replacing any value kept
    /// under it.
    pub fn add_property(world: &mut World, id: GameObjectId, key: String, value: serde_json::Value)
        requires
            old(world).has(id),
        ensures
            final(world).props_of(id) == with_property(old(world).props_of(id), key, value),
            only_props_changed(*old(world), *final(world), id),
            old(world).refs_valid() ==> final(world).refs_valid(),
            old(world).refs_valid() && old(world).consistent() ==> final(world).consistent(),
    {
        let ghost w0 = *world;
        let list = world.replace_properties(id, Vec::new());
        let ghost w1 = *world;
        let (mut kept, _) = without_key(list, &key);
        kept.push((key, value));
        world.replace_properties(id, kept);
        proof {
            lemma_only_props_trans(w0, w1, *world, id);
        }
    }

    /// Keeps each pair of `properties` on object `id`, in order; a later
    /// pair with the same key replaces an earlier one.
    pub fn add_properties(world: &mut World, id: GameObjectId, properties: Vec<Property>)
        requires
            old(world).has(id),
        ensures
            final(world).props_of(id) == with_properties(old(world).props_of(id), properties@),
            only_props_changed(*old(world), *final(world), id),
            old(world).refs_valid() ==> final(world).refs_valid(),
            old(world).refs_valid() && old(world).consistent() ==> final(world).consistent(),
    {
        let ghost w0 = *world;
        let ghost adds = properties@;
        let mut rest = properties;
        let ghost mut i: int = 0;
        assert(adds.skip(0) =~= adds);
        while rest.len() > 0
            invariant
                0 <= i <= adds.len(),
                rest@ == adds.skip(i),
                world.has(id),
                with_properties(w0.props_of(id), adds) == with_properties(world.props_of(id), adds.skip(i)),
                only_props_changed(w0, *world, id),
                w0.refs_valid() ==> world.refs_valid(),
                w0.refs_valid() && w0.consistent() ==> world.consistent(),
            decreases rest@.len(),
        {
            let (k, v) = rest.remove(0);
            proof {
                assert(adds.skip(i)[0] == adds[i]);
                assert(adds.skip(i).drop_first() =~= adds.skip(i + 1));
                assert(adds.skip(i).remove(0) =~= adds.skip(i + 1));
            }
            let ghost wb = *world;
            Self::add_property(world, id, k, v);
            proof {
                lemma_only_props_trans(w0, wb, *world, id);
                i = i + 1;
            }
        }
        assert(adds.skip(i) =~= Seq::<Property>::empty());
    }

    /// Takes the value kept under `key` off object `id` and returns it.
    pub fn remove_property(world: &mut World, id: GameObjectId, key: &str) -> (r: Option<serde_json::Value>)
        requires
            old(world).has(id),
        ensures
            r == prop_lookup(old(world).props_of(id), key@),
            final(world).props_of(id) == old(world).props_of(id).filter(key_other_than(key@)),
            only_props_changed(*old(world), *final(world), id),
            old(world).refs_valid() ==> final(world).refs_valid(),
            old(world).refs_valid() && old(world).consistent() ==> final(world).consistent(),
    {
        let ghost w0 = *world;
        let list = world.replace_properties(id, Vec::new());
        let ghost w1 = *world;
        let k = key.to_owned();
        let (kept, found) = without_key(list, &k);
        world.replace_properties(id, kept);
        proof {
            lemma_only_props_trans(w0, w1, *world, id);
        }
        found
    }

    /// Takes every custom property off object `id`.
    pub fn clear_properties(world: &mut World, id: GameObjectId)
        requires
            old(world).has(id),
        ensures
            final(world).props_of(id) == Seq::<Property>::empty(),
            only_props_changed(*old(world), *final(world), id),
            old(world).refs_valid() ==> final(world).refs_valid(),
            old(world).refs_valid() && old(world).consistent() ==> final(world).consistent(),
    {
        world.replace_properties(id, Vec::new());
    }
}

/// A value kept under a key is read back under that key, and keeping it
/// changes what is read under no other key.
pub proof fn law_property_read_after_add(list: Seq<Property>, key: String, value: serde_json::Value, other: Seq<char>)
    ensures
        prop_lookup(with_property(list, key, value), key@) == Some(value),
        other != key@ ==> prop_lookup(with_property(list, key, value), other) == prop_lookup(list, other),
{
    let f = list.filter(key_other_than(key@));
    assert(f.push((key, value)).drop_last() =~= f);
    lemma_lookup_without(list, key@, other);
}

/// After a key is removed nothing is read under it, and what is read under
/// any other key is unchanged.
pub proof fn law_property_remove(list: Seq<Property>, key: Seq<char>, other: Seq<char>)
    ensures
        prop_lookup(list.filter(key_other_than(key)), key) is None,
        other != key ==> prop_lookup(list.filter(key_other_than(key)), other) == prop_lookup(list, other),
{
    lemma_lookup_without(list, key, key);
    lemma_lookup_without(list, key, other);
}

/// A value kept under a key and then removed is what the removal returns;
/// afterwards nothing is read under that key (so a second removal returns
/// nothing), and every other key reads as it did before the value was kept.
/// Stated over the lists that [`GameObject::add_property`] leaves
/// (`with_property`) and [`GameObject::remove_property`] reads and leaves
/// (`prop_lookup`, and the list without the key).
pub proof fn law_property_add_then_remove(list: Seq<Property>, key: String, value: serde_json::Value, other: Seq<char>)
    ensures
        prop_lookup(with_property(list, key, value), key@) == Some(value),
        prop_lookup(with_property(list, key, value).filter(key_other_than(key@)), key@) is None,
        other != key@ ==> prop_lookup(with_property(list, key, value).filter(key_other_than(key@)), other)
            == prop_lookup(list, other),
{
    let l1 = with_property(list, key, value);
    law_property_read_after_add(list, key, value, other);
    law_property_remove(l1, key@, other);
}

} // verus!
