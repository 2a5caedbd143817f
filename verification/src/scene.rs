//! The scene graph: game objects, their parent/child links and the world
//! that owns them.

use crate::ids::GameObjectId;
use vstd::prelude::*;

verus! {

/// The encoding of the identifier given to the object in slot `i`.
pub open spec fn slot_ffi(i: int) -> int {
    0x1_0000_0000int + i
}

/// `s` without its first occurrence of `x` (unchanged if `x` does not occur).
pub open spec fn remove_first<A>(s: Seq<A>, x: A) -> Seq<A> {
    if s.contains(x) {
        s.remove(first_index(s, x))
    } else {
        s
    }
}

/// The position of the first occurrence of `x` in `s`.
pub open spec fn first_index<A>(s: Seq<A>, x: A) -> int {
    choose|i: int| 0 <= i < s.len() && s[i] == x && forall|j: int| 0 <= j < i ==> s[j] != x
}

/// The first occurrence of an element that occurs is well defined.
pub proof fn lemma_first_index<A>(s: Seq<A>, x: A, i: int)
    requires
        0 <= i < s.len(),
        s[i] == x,
        forall|j: int| 0 <= j < i ==> s[j] != x,
    ensures
        first_index(s, x) == i,
{
    let k = first_index(s, x);
    assert(0 <= k < s.len() && s[k] == x && forall|j: int| 0 <= j < k ==> s[j] != x);
    if k < i {
        assert(s[k] != x);
    } else if k > i {
        assert(s[i] != x);
    }
}

/// Removing the first occurrence from a sequence without duplicates leaves
/// no occurrence, and keeps every other element.
pub proof fn lemma_remove_first_no_dup<A>(s: Seq<A>, x: A)
    requires
        s.no_duplicates(),
    ensures
        !remove_first(s, x).contains(x),
        remove_first(s, x).no_duplicates(),
        forall|y: A| y != x ==> (remove_first(s, x).contains(y) <==> s.contains(y)),
{
    if s.contains(x) {
        let i = choose|i: int| 0 <= i < s.len() && s[i] == x;
        let k = first_index(s, x);
        assert(0 <= k < s.len() && s[k] == x) by {
            lemma_first_occurrence_exists(s, x, i);
        }
        let r = s.remove(k);
        assert forall|y: A| y != x implies (r.contains(y) <==> s.contains(y)) by {
            if s.contains(y) {
                let j = choose|j: int| 0 <= j < s.len() && s[j] == y;
                if j < k {
                    assert(r[j] == y);
                } else {
                    assert(j != k);
                    assert(r[j - 1] == y);
                }
            }
        }
        if r.contains(x) {
            let j = choose|j: int| 0 <= j < r.len() && r[j] == x;
            if j < k {
                assert(s[j] == x);
            } else {
                assert(s[j + 1] == x);
            }
        }
    }
}

/// Removing an occurrence keeps only elements that were there.
pub proof fn lemma_remove_first_subset<A>(s: Seq<A>, x: A, y: A)
    requires
        remove_first(s, x).contains(y),
    ensures
        s.contains(y),
{
    if s.contains(x) {
        let i = choose|i: int| 0 <= i < s.len() && s[i] == x;
        lemma_first_occurrence_exists(s, x, i);
        let k = first_index(s, x);
        let r = s.remove(k);
        let m = choose|m: int| 0 <= m < r.len() && r[m] == y;
        if m < k {
            assert(s[m] == y);
        } else {
            assert(s[m + 1] == y);
        }
    }
}

/// Some first occurrence exists for an element that occurs.
pub proof fn lemma_first_occurrence_exists<A>(s: Seq<A>, x: A, i: int)
    requires
        0 <= i < s.len(),
        s[i] == x,
    ensures
        exists|k: int| 0 <= k < s.len() && s[k] == x && forall|j: int| 0 <= j < k ==> s[j] != x,
    decreases i,
{
    if exists|j: int| 0 <= j < i && s[j] == x {
        let j = choose|j: int| 0 <= j < i && s[j] == x;
        lemma_first_occurrence_exists(s, x, j);
    } else {
        assert(forall|j: int| 0 <= j < i ==> s[j] != x);
    }
}

/// Removes the first occurrence of `x` from `v`.
fn vec_remove_first(v: &mut Vec<GameObjectId>, x: GameObjectId)
    ensures
        final(v)@ == remove_first(old(v)@, x),
{
    let mut i: usize = 0;
    while i < v.len()
        invariant
            0 <= i <= v.len(),
            v@ == old(v)@,
            forall|j: int| 0 <= j < i ==> v@[j] != x,
        decreases v.len() - i,
    {
        if v[i] == x {
            proof {
                lemma_first_index(old(v)@, x, i as int);
            }
            v.remove(i);
            return;
        }
        i += 1;
    }
    assert(!old(v)@.contains(x));
}

/// The roots after unlinking `id`: an object without a parent leaves the
/// root list.
pub open spec fn unlink_roots(w: World, id: GameObjectId) -> Seq<GameObjectId> {
    if w.parent_of(id) is Some {
        w.roots()
    } else {
        remove_first(w.roots(), id)
    }
}

/// The children of `x` after unlinking `id`: `id` leaves its parent's list.
pub open spec fn unlink_children(w: World, id: GameObjectId, x: GameObjectId) -> Seq<GameObjectId> {
    if w.parent_of(id) == Some(x) {
        remove_first(w.children_of(x), id)
    } else {
        w.children_of(x)
    }
}

/// A node of the scene graph.
///
/// A game object has a unique identifier and a non-unique name. It keeps
/// track of its parent and its children. If a game object has no parent it
/// is a root-level object of the world (once added to it).
pub struct GameObject {
    /// A unique identifier for this object within the world.
    pub id: GameObjectId,
    /// The name of the object (not required to be unique).
    pub name: String,
    pub(crate) children: Vec<GameObjectId>,
    pub(crate) parent: Option<GameObjectId>,
    pub(crate) properties: Vec<(String, serde_json::Value)>,
}

impl GameObject {
    /// The parent link of this object.
    pub closed spec fn parent_link(self) -> Option<GameObjectId> {
        self.parent
    }

    /// The identifier of this object.
    pub closed spec fn object_id(self) -> GameObjectId {
        self.id
    }

    /// The custom properties of this object, as key and value pairs.
    pub closed spec fn property_list(self) -> Seq<(String, serde_json::Value)> {
        self.properties@
    }

    /// The name of this object.
    pub closed spec fn name_view(self) -> Seq<char> {
        self.name@
    }

    /// The child links of this object, in order.
    pub closed spec fn child_links(self) -> Seq<GameObjectId> {
        self.children@
    }

    /// The custom properties of this object, as key and value pairs.
    pub fn properties(&self) -> (r: &[(String, serde_json::Value)])
        ensures
            r@ == self.property_list(),
    {
        self.properties.as_slice()
    }

    /// Returns this game object's identifier.
    pub fn id(&self) -> (r: GameObjectId)
        ensures
            r == self.object_id(),
    {
        self.id
    }

    /// Returns this game object's parent ID.
    pub fn parent(&self) -> (r: &Option<GameObjectId>)
        ensures
            *r == self.parent_link(),
    {
        &self.parent
    }

    /// Returns this game object's child IDs.
    pub fn children(&self) -> (r: &[GameObjectId])
        ensures
            r@ == self.child_links(),
    {
        self.children.as_slice()
    }
}

/// The scene: owns all game objects and the list of root-level objects.
pub struct World {
    pub(crate) objects: Vec<Option<GameObject>>,
    pub(crate) children: Vec<GameObjectId>,
    pub(crate) active_camera: Option<GameObjectId>,
    requested_shutdown: bool,
}

impl World {
    /// Number of identifiers handed out so far.
    pub closed spec fn slot_count(self) -> nat {
        self.objects@.len()
    }

    /// The slot that `id` would occupy.
    pub closed spec fn slot_of(id: GameObjectId) -> int {
        id@ - 0x1_0000_0000int
    }

    /// `id` names an object that lives in this world.
    pub closed spec fn has(self, id: GameObjectId) -> bool {
        let i = Self::slot_of(id);
        &&& 0 <= i < self.objects@.len()
        &&& self.objects@[i] is Some
    }

    /// The object named by `id` (meaningful when `self.has(id)`).
    pub closed spec fn object(self, id: GameObjectId) -> GameObject {
        self.objects@[Self::slot_of(id)]->Some_0
    }

    /// The parent link of the object named by `id`.
    pub open spec fn parent_of(self, id: GameObjectId) -> Option<GameObjectId> {
        self.object(id).parent_link()
    }

    /// The child links of the object named by `id`.
    pub open spec fn children_of(self, id: GameObjectId) -> Seq<GameObjectId> {
        self.object(id).child_links()
    }

    /// The name of the object named by `id`.
    pub open spec fn name_of(self, id: GameObjectId) -> Seq<char> {
        self.object(id).name_view()
    }

    /// The custom properties of the object named by `id`.
    pub open spec fn props_of(self, id: GameObjectId) -> Seq<(String, serde_json::Value)> {
        self.object(id).property_list()
    }

    /// The root-level objects, in order.
    pub closed spec fn roots(self) -> Seq<GameObjectId> {
        self.children@
    }

    /// The object whose camera renders the scene, if any.
    pub closed spec fn camera(self) -> Option<GameObjectId> {
        self.active_camera
    }

    /// Whether a shutdown was requested.
    pub closed spec fn shutdown_requested(self) -> bool {
        self.requested_shutdown
    }

    /// Every link points at a living object and every object sits in the
    /// slot its identifier names.
    pub closed spec fn refs_valid(self) -> bool {
        &&& forall|i: int|
            0 <= i < self.objects@.len() && (#[trigger] self.objects@[i]) is Some
                ==> self.objects@[i]->Some_0.id@ == slot_ffi(i)
        &&& forall|c: GameObjectId| #[trigger] self.roots().contains(c) ==> self.has(c)
        &&& forall|x: GameObjectId, c: GameObjectId|
            self.has(x) && #[trigger] self.children_of(x).contains(c) ==> self.has(c)
        &&& forall|x: GameObjectId|
            #[trigger] self.has(x) && self.parent_of(x) is Some ==> self.has(self.parent_of(x)->Some_0)
    }

    /// `self` holds the same objects as `other` (same identifiers and names),
    /// the same camera and the same shutdown flag; only links may differ.
    pub closed spec fn same_nodes(self, other: World) -> bool {
        &&& self.objects@.len() == other.objects@.len()
        &&& forall|i: int|
            0 <= i < self.objects@.len() ==> ((#[trigger] self.objects@[i]) is Some
                <==> other.objects@[i] is Some)
        &&& forall|i: int|
            0 <= i < self.objects@.len() && (#[trigger] self.objects@[i]) is Some
                ==> self.objects@[i]->Some_0.id == other.objects@[i]->Some_0.id
                && self.objects@[i]->Some_0.name@ == other.objects@[i]->Some_0.name@
                && self.objects@[i]->Some_0.properties@ == other.objects@[i]->Some_0.properties@
        &&& self.active_camera == other.active_camera
        &&& self.requested_shutdown == other.requested_shutdown
    }

    /// Every root-level object of a world with valid links lives in it.
    pub proof fn lemma_roots_live(self)
        requires
            self.refs_valid(),
        ensures
            forall|c: GameObjectId| #[trigger] self.roots().contains(c) ==> self.has(c),
            forall|j: int| 0 <= j < self.roots().len() ==> self.has(#[trigger] self.roots()[j]),
    {
        assert forall|j: int| 0 <= j < self.roots().len() implies self.has(#[trigger] self.roots()[j]) by {
            assert(self.roots().contains(self.roots()[j]));
        }
    }

    /// Every child of a living object of a world with valid links lives in it.
    pub proof fn lemma_children_live(self, id: GameObjectId)
        requires
            self.refs_valid(),
            self.has(id),
        ensures
            forall|j: int| 0 <= j < self.children_of(id).len() ==> self.has(#[trigger] self.children_of(id)[j]),
    {
        assert forall|j: int| 0 <= j < self.children_of(id).len() implies self.has(#[trigger] self.children_of(id)[j]) by {
            assert(self.children_of(id).contains(self.children_of(id)[j]));
        }
    }

    /// What `same_nodes` says of the objects named by identifiers.
    pub proof fn lemma_same_nodes_ids(self, other: World)
        requires
            self.same_nodes(other),
        ensures
            self.slot_count() == other.slot_count(),
            self.camera() == other.camera(),
            self.shutdown_requested() == other.shutdown_requested(),
            forall|x: GameObjectId| #[trigger] self.has(x) <==> other.has(x),
            forall|x: GameObjectId| #[trigger] self.has(x) ==> self.name_of(x) == other.name_of(x),
            forall|x: GameObjectId| #[trigger] self.has(x) ==> self.props_of(x) == other.props_of(x),
    {
        self.lemma_same_nodes(other);
    }

    /// Two identifiers that name the same slot are the same identifier.
    proof fn lemma_slot_injective(x: GameObjectId, y: GameObjectId)
        requires
            Self::slot_of(x) == Self::slot_of(y),
        ensures
            x == y,
    {
        crate::ids::lemma_id_view_injective(x, y);
    }

    /// What `same_nodes` says in terms of identifiers.
    proof fn lemma_same_nodes(self, other: World)
        requires
            self.same_nodes(other),
        ensures
            self.slot_count() == other.slot_count(),
            self.camera() == other.camera(),
            self.shutdown_requested() == other.shutdown_requested(),
            forall|x: GameObjectId| #[trigger] self.has(x) <==> other.has(x),
            forall|x: GameObjectId| #[trigger] self.has(x) ==> self.name_of(x) == other.name_of(x),
            forall|x: GameObjectId| #[trigger] self.has(x) ==> self.props_of(x) == other.props_of(x),
            other.refs_valid() ==> (forall|i: int|
                0 <= i < self.objects@.len() && (#[trigger] self.objects@[i]) is Some
                    ==> self.objects@[i]->Some_0.id@ == slot_ffi(i)),
    {
        assert forall|x: GameObjectId| #[trigger] self.has(x) <==> other.has(x) by {
            let i = Self::slot_of(x);
            if 0 <= i < self.objects@.len() {
                assert(self.objects@[i] is Some <==> other.objects@[i] is Some);
            }
        }
        assert forall|x: GameObjectId| #[trigger] self.has(x) implies self.name_of(x) == other.name_of(x)
            && self.props_of(x) == other.props_of(x) by {
            let i = Self::slot_of(x);
            assert(self.objects@[i] is Some);
        }
        if other.refs_valid() {
            assert forall|i: int|
                0 <= i < self.objects@.len() && (#[trigger] self.objects@[i]) is Some
                    implies self.objects@[i]->Some_0.id@ == slot_ffi(i) by {
                assert(other.objects@[i] is Some);
            }
        }
    }

    /// Parent and child links agree, roots have no parent, and no list
    /// names an object twice.
    pub open spec fn consistent(self) -> bool {
        &&& forall|p: GameObjectId, c: GameObjectId|
            self.has(p) && #[trigger] self.children_of(p).contains(c) ==> self.parent_of(c) == Some(p)
        &&& forall|c: GameObjectId|
            self.has(c) && (#[trigger] self.parent_of(c)) is Some
                ==> self.children_of(self.parent_of(c)->Some_0).contains(c)
        &&& forall|c: GameObjectId| #[trigger] self.roots().contains(c) ==> self.parent_of(c) is None
        &&& self.roots().no_duplicates()
        &&& forall|p: GameObjectId| #[trigger] self.has(p) ==> self.children_of(p).no_duplicates()
    }

    /// Creates an empty world.
    pub fn new() -> (w: World)
        ensures
            w.slot_count() == 0,
            w.roots() == Seq::<GameObjectId>::empty(),
            w.camera() is None,
            !w.shutdown_requested(),
            w.refs_valid(),
            w.consistent(),
            forall|id: GameObjectId| !w.has(id),
    {
        World { objects: Vec::new(), children: Vec::new(), active_camera: None, requested_shutdown: false }
    }

    /// The slot of `id`, if it names a living object.
    fn slot(&self, id: GameObjectId) -> (r: Option<usize>)
        ensures
            r is Some <==> self.has(id),
            r is Some ==> r->Some_0 == Self::slot_of(id),
    {
        let v = id.as_ffi();
        if v >= 0x1_0000_0000u64 {
            let i = v - 0x1_0000_0000u64;
            if i < self.objects.len() as u64 {
                let iu = i as usize;
                if self.objects[iu].is_some() {
                    return Some(iu);
                }
            }
        }
        None
    }

    /// Number of identifiers handed out so far.
    pub fn slots_used(&self) -> (r: usize)
        ensures
            r == self.slot_count(),
    {
        self.objects.len()
    }

    /// Puts `props` in place of the custom properties of object `id` and
    /// returns the properties it had. Nothing else changes.
    pub(crate) fn replace_properties(&mut self, id: GameObjectId, props: Vec<(String, serde_json::Value)>) -> (r: Vec<(String, serde_json::Value)>)
        requires
            old(self).has(id),
        ensures
            r@ == old(self).props_of(id),
            final(self).props_of(id) == props@,
            final(self).slot_count() == old(self).slot_count(),
            forall|x: GameObjectId| #[trigger] final(self).has(x) == old(self).has(x),
            forall|x: GameObjectId| #[trigger] old(self).has(x) ==> {
                &&& final(self).name_of(x) == old(self).name_of(x)
                &&& final(self).parent_of(x) == old(self).parent_of(x)
                &&& final(self).children_of(x) == old(self).children_of(x)
                &&& (x != id ==> final(self).props_of(x) == old(self).props_of(x))
            },
            final(self).roots() == old(self).roots(),
            final(self).camera() == old(self).camera(),
            final(self).shutdown_requested() == old(self).shutdown_requested(),
            old(self).refs_valid() ==> final(self).refs_valid(),
            old(self).refs_valid() && old(self).consistent() ==> final(self).consistent(),
    {
        let ghost w0 = *self;
        let i = self.slot(id).unwrap();
        let mut slot: Option<GameObject> = None;
        std::mem::swap(&mut self.objects[i], &mut slot);
        let mut o = slot.unwrap();
        let mut props = props;
        std::mem::swap(&mut o.properties, &mut props);
        self.objects.set(i, Some(o));
        proof {
            assert forall|x: GameObjectId| #[trigger] self.has(x) == w0.has(x) by {
                let j = Self::slot_of(x);
                if 0 <= j < self.objects@.len() && j != i {
                    assert(self.objects@[j] == w0.objects@[j]);
                }
            }
            assert forall|x: GameObjectId| #[trigger] w0.has(x) implies {
                &&& self.name_of(x) == w0.name_of(x)
                &&& self.parent_of(x) == w0.parent_of(x)
                &&& self.children_of(x) == w0.children_of(x)
                &&& (x != id ==> self.props_of(x) == w0.props_of(x))
            } by {
                let j = Self::slot_of(x);
                if j != i {
                    assert(self.objects@[j] == w0.objects@[j]);
                } else {
                    Self::lemma_slot_injective(x, id);
                }
            }
            if w0.refs_valid() {
                assert forall|j: int|
                    0 <= j < self.objects@.len() && (#[trigger] self.objects@[j]) is Some
                        implies self.objects@[j]->Some_0.id@ == slot_ffi(j) by {
                    if j != i {
                        assert(self.objects@[j] == w0.objects@[j]);
                    }
                }
                assert forall|x: GameObjectId| #[trigger] self.has(x) && self.parent_of(x) is Some
                    implies self.has(self.parent_of(x)->Some_0) by {
                    assert(w0.has(x));
                }
                assert forall|x: GameObjectId, c: GameObjectId|
                    self.has(x) && #[trigger] self.children_of(x).contains(c) implies self.has(c) by {
                    assert(w0.has(x));
                }
            }
            if w0.refs_valid() && w0.consistent() {
                assert forall|p: GameObjectId, c: GameObjectId|
                    self.has(p) && #[trigger] self.children_of(p).contains(c) implies self.parent_of(c) == Some(p) by {
                    assert(w0.has(p));
                    assert(w0.children_of(p).contains(c));
                    assert(w0.has(c));
                }
                assert forall|c: GameObjectId| self.has(c) && (#[trigger] self.parent_of(c)) is Some
                    implies self.children_of(self.parent_of(c)->Some_0).contains(c) by {
                    assert(w0.has(c));
                    assert(w0.has(w0.parent_of(c)->Some_0));
                }
                assert forall|p: GameObjectId| #[trigger] self.has(p) implies self.children_of(p).no_duplicates() by {
                    assert(w0.has(p));
                }
            }
        }
        props
    }

    /// Looks up a game object.
    pub fn get_object(&self, obj: &GameObjectId) -> (r: Option<&GameObject>)
        ensures
            r is Some <==> self.has(*obj),
            r is Some ==> *r->Some_0 == self.object(*obj),
    {
        match self.slot(*obj) {
            Some(i) => self.objects[i].as_ref(),
            None => None,
        }
    }

    /// Creates a new object with the given name. It has no parent and no
    /// children, and is not yet a root of the world.
    pub fn new_object(&mut self, name: String) -> (id: GameObjectId)
        requires
            old(self).slot_count() < 0xffff_ffff,
        ensures
            !old(self).has(id),
            final(self).has(id),
            final(self).name_of(id) == name@,
            final(self).props_of(id) == Seq::<(String, serde_json::Value)>::empty(),
            final(self).parent_of(id) is None,
            final(self).children_of(id) == Seq::<GameObjectId>::empty(),
            !id.spec_is_null(),
            final(self).slot_count() == old(self).slot_count() + 1,
            final(self).roots() == old(self).roots(),
            final(self).camera() == old(self).camera(),
            final(self).shutdown_requested() == old(self).shutdown_requested(),
            forall|x: GameObjectId| x != id ==> (final(self).has(x) <==> old(self).has(x)),
            forall|x: GameObjectId| #[trigger] old(self).has(x) ==> final(self).object(x) == old(self).object(x),
            old(self).refs_valid() ==> final(self).refs_valid(),
            old(self).refs_valid() && old(self).consistent() ==> final(self).consistent(),
    {
        let n = self.objects.len();
        let id = GameObjectId::from_ffi(n as u64);
        let nn = n as u64;
        assert(nn | 0x1_0000_0000u64 == nn + 0x1_0000_0000u64) by (bit_vector)
            requires nn < 0xffff_ffffu64;
        assert((nn | 0x1_0000_0000u64) & 0xffff_ffffu64 == nn) by (bit_vector)
            requires nn < 0xffff_ffffu64;
        assert(id@ == slot_ffi(n as int));
        let ghost old_w = *self;
        self.objects.push(Some(GameObject { id, name, children: Vec::new(), parent: None, properties: Vec::new() }));
        assert(Self::slot_of(id) == n);
        assert forall|x: GameObjectId| x != id implies (self.has(x) <==> old_w.has(x)) by {
            if self.has(x) && Self::slot_of(x) == n {
                crate::ids::lemma_id_view_injective(x, id);
            }
        }
        assert forall|x: GameObjectId| #[trigger] old_w.has(x) implies self.object(x) == old_w.object(x) by {
            assert(self.objects@[Self::slot_of(x)] == old_w.objects@[Self::slot_of(x)]);
        }
        proof {
            if old_w.refs_valid() {
                assert forall|i: int|
                    0 <= i < self.objects@.len() && (#[trigger] self.objects@[i]) is Some
                        implies self.objects@[i]->Some_0.id@ == slot_ffi(i) by {
                    if i < n {
                        assert(old_w.objects@[i] == self.objects@[i]);
                    }
                }
                assert forall|x: GameObjectId, c: GameObjectId|
                    self.has(x) && #[trigger] self.children_of(x).contains(c) implies self.has(c) by {
                    if x != id {
                        assert(old_w.has(x));
                        assert(self.object(x) == old_w.object(x));
                        assert(old_w.children_of(x).contains(c));
                    }
                }
                assert forall|x: GameObjectId|
                    #[trigger] self.has(x) && self.parent_of(x) is Some implies self.has(self.parent_of(x)->Some_0) by {
                    if x != id {
                        assert(old_w.has(x));
                    }
                }
                assert forall|c: GameObjectId| #[trigger] self.roots().contains(c) implies self.has(c) by {
                    assert(old_w.roots().contains(c));
                }
            }
            if old_w.refs_valid() && old_w.consistent() {
                assert forall|p: GameObjectId, c: GameObjectId|
                    self.has(p) && #[trigger] self.children_of(p).contains(c) implies self.parent_of(c) == Some(p) by {
                    if p != id {
                        assert(old_w.has(p));
                        assert(old_w.has(c));
                    }
                }
                assert forall|c: GameObjectId|
                    self.has(c) && (#[trigger] self.parent_of(c)) is Some
                        implies self.children_of(self.parent_of(c)->Some_0).contains(c) by {
                    if c != id {
                        assert(old_w.has(c));
                        assert(old_w.has(old_w.parent_of(c)->Some_0));
                    }
                }
                assert forall|c: GameObjectId| #[trigger] self.roots().contains(c) implies self.parent_of(c) is None by {
                    assert(old_w.roots().contains(c));
                    assert(old_w.has(c));
                }
                assert forall|p: GameObjectId| #[trigger] self.has(p) implies self.children_of(p).no_duplicates() by {
                    if p != id {
                        assert(old_w.has(p));
                    }
                }
            }
        }
        id
    }

    /// Replaces the parent link of the object in slot `i`.
    fn set_parent_at(&mut self, i: usize, p: Option<GameObjectId>)
        requires
            i < old(self).objects@.len(),
            old(self).objects@[i as int] is Some,
        ensures
            final(self).objects@ == old(self).objects@.update(
                i as int,
                Some(GameObject { parent: p, ..old(self).objects@[i as int]->Some_0 }),
            ),
            final(self).children == old(self).children,
            final(self).active_camera == old(self).active_camera,
            final(self).requested_shutdown == old(self).requested_shutdown,
    {
        let mut slot: Option<GameObject> = None;
        std::mem::swap(&mut self.objects[i], &mut slot);
        let mut o = slot.unwrap();
        o.parent = p;
        self.objects.set(i, Some(o));
    }

    /// Removes the first occurrence of `c` from the child links of slot `i`.
    fn remove_child_at(&mut self, i: usize, c: GameObjectId)
        requires
            i < old(self).objects@.len(),
            old(self).objects@[i as int] is Some,
        ensures
            final(self).objects@ == old(self).objects@.update(
                i as int,
                Some(GameObject {
                    children: final(self).objects@[i as int]->Some_0.children,
                    ..old(self).objects@[i as int]->Some_0
                }),
            ),
            final(self).objects@[i as int]->Some_0.children@ == remove_first(
                old(self).objects@[i as int]->Some_0.children@,
                c,
            ),
            final(self).children == old(self).children,
            final(self).active_camera == old(self).active_camera,
            final(self).requested_shutdown == old(self).requested_shutdown,
    {
        let mut slot: Option<GameObject> = None;
        std::mem::swap(&mut self.objects[i], &mut slot);
        let mut o = slot.unwrap();
        vec_remove_first(&mut o.children, c);
        self.objects.set(i, Some(o));
    }

    /// Appends `c` to the child links of slot `i`.
    fn push_child_at(&mut self, i: usize, c: GameObjectId)
        requires
            i < old(self).objects@.len(),
            old(self).objects@[i as int] is Some,
        ensures
            final(self).objects@ == old(self).objects@.update(
                i as int,
                Some(GameObject {
                    children: final(self).objects@[i as int]->Some_0.children,
                    ..old(self).objects@[i as int]->Some_0
                }),
            ),
            final(self).objects@[i as int]->Some_0.children@
                == old(self).objects@[i as int]->Some_0.children@.push(c),
            final(self).children == old(self).children,
            final(self).active_camera == old(self).active_camera,
            final(self).requested_shutdown == old(self).requested_shutdown,
    {
        let mut slot: Option<GameObject> = None;
        std::mem::swap(&mut self.objects[i], &mut slot);
        let mut o = slot.unwrap();
        o.children.push(c);
        self.objects.set(i, Some(o));
    }
}

impl GameObject {
    /// Unlinks the object `id` from its parent, or from the root level of the
    /// world when it has no parent.
    pub fn unlink(world: &mut World, id: GameObjectId)
        requires
            old(world).refs_valid(),
            old(world).has(id),
        ensures
            final(world).same_nodes(*old(world)),
            forall|x: GameObjectId| #[trigger] old(world).has(x) ==> final(world).parent_of(x) == (
                if x == id { None } else { old(world).parent_of(x) }),
            forall|x: GameObjectId| #[trigger] old(world).has(x) ==> final(world).children_of(x)
                == unlink_children(*old(world), id, x),
            final(world).roots() == unlink_roots(*old(world), id),
            final(world).refs_valid(),
            old(world).consistent() ==> final(world).consistent(),
            old(world).consistent() ==> !final(world).roots().contains(id),
            old(world).consistent() ==> forall|q: GameObjectId| #[trigger] final(world).has(q)
                ==> !final(world).children_of(q).contains(id),
    {
        let ghost w0 = *world;
        let i = world.slot(id).unwrap();
        let parent = world.objects[i].as_ref().unwrap().parent;
        match parent {
            Some(p) => {
                world.set_parent_at(i, None);
                let ghost w1 = *world;
                assert(w1.same_nodes(w0));
                proof { w1.lemma_same_nodes(w0); }
                assert(w0.has(p));
                let j = world.slot(p).unwrap();
                world.remove_child_at(j, id);
                assert(world.same_nodes(w0));
                proof { world.lemma_same_nodes(w0); }
                assert forall|x: GameObjectId| #[trigger] w0.has(x) implies world.parent_of(x) == (
                    if x == id { None } else { w0.parent_of(x) }) by {
                    if World::slot_of(x) == i {
                        World::lemma_slot_injective(x, id);
                    }
                }
                assert forall|x: GameObjectId| #[trigger] w0.has(x) implies world.children_of(x)
                    == unlink_children(w0, id, x) by {
                    if World::slot_of(x) == j {
                        World::lemma_slot_injective(x, p);
                    } else if w0.parent_of(id) == Some(x) {
                        World::lemma_slot_injective(x, p);
                    }
                }
            },
            None => {
                vec_remove_first(&mut world.children, id);
                assert(world.objects@ == w0.objects@);
            },
        }
        proof {
            world.lemma_same_nodes(w0);
            assert forall|c: GameObjectId| #[trigger] world.roots().contains(c) implies world.has(c) by {
                if w0.parent_of(id) is None {
                    lemma_remove_first_subset(w0.roots(), id, c);
                }
                assert(w0.roots().contains(c));
            }
            assert forall|x: GameObjectId, c: GameObjectId|
                world.has(x) && #[trigger] world.children_of(x).contains(c) implies world.has(c) by {
                assert(w0.has(x));
                if w0.parent_of(id) == Some(x) {
                    lemma_remove_first_subset(w0.children_of(x), id, c);
                }
                assert(w0.children_of(x).contains(c));
            }
            assert forall|x: GameObjectId|
                #[trigger] world.has(x) && world.parent_of(x) is Some implies world.has(world.parent_of(x)->Some_0) by {
                assert(w0.has(x));
            }
            if w0.consistent() {
                lemma_remove_first_no_dup(w0.roots(), id);
                assert forall|q: GameObjectId, c: GameObjectId|
                    world.has(q) && #[trigger] world.children_of(q).contains(c) implies world.parent_of(c) == Some(q) by {
                    assert(w0.has(q));
                    if w0.parent_of(id) == Some(q) {
                        lemma_remove_first_subset(w0.children_of(q), id, c);
                    }
                    assert(w0.children_of(q).contains(c));
                    assert(w0.has(c));
                    if c == id {
                        assert(w0.parent_of(id) == Some(q));
                        lemma_remove_first_no_dup(w0.children_of(q), id);
                    }
                }
                assert forall|c: GameObjectId|
                    world.has(c) && (#[trigger] world.parent_of(c)) is Some
                        implies world.children_of(world.parent_of(c)->Some_0).contains(c) by {
                    let q = world.parent_of(c)->Some_0;
                    assert(w0.has(c));
                    assert(w0.has(q));
                    assert(w0.children_of(q).contains(c));
                    lemma_remove_first_no_dup(w0.children_of(q), id);
                }
                assert forall|c: GameObjectId| #[trigger] world.roots().contains(c) implies world.parent_of(c) is None by {
                    if w0.parent_of(id) is None {
                        lemma_remove_first_subset(w0.roots(), id, c);
                    }
                    assert(w0.roots().contains(c));
                    assert(w0.has(c));
                }
                assert forall|q: GameObjectId| #[trigger] world.has(q) implies world.children_of(q).no_duplicates() by {
                    assert(w0.has(q));
                    lemma_remove_first_no_dup(w0.children_of(q), id);
                }
                assert(world.parent_of(id) is None);
                assert forall|q: GameObjectId| #[trigger] world.has(q) implies !world.children_of(q).contains(id) by {
                    if world.children_of(q).contains(id) {
                        assert(world.parent_of(id) == Some(q));
                    }
                }
                if world.roots().contains(id) {
                    if w0.parent_of(id) is None {
                        lemma_remove_first_no_dup(w0.roots(), id);
                    } else {
                        assert(w0.roots().contains(id));
                    }
                }
            }
        }
    }

    /// Makes `child` a child of `parent`, replacing the child's previous
    /// parent relationship (or its place among the roots of the world).
    pub fn add_child(world: &mut World, parent: GameObjectId, child: GameObjectId)
        requires
            old(world).refs_valid(),
            old(world).has(parent),
            old(world).has(child),
        ensures
            final(world).same_nodes(*old(world)),
            forall|x: GameObjectId| #[trigger] old(world).has(x) ==> final(world).parent_of(x) == (
                if x == child { Some(parent) } else { old(world).parent_of(x) }),
            forall|x: GameObjectId| #[trigger] old(world).has(x) ==> final(world).children_of(x) == (
                if x == parent {
                    unlink_children(*old(world), child, x).push(child)
                } else {
                    unlink_children(*old(world), child, x)
                }),
            final(world).roots() == unlink_roots(*old(world), child),
            final(world).refs_valid(),
            old(world).consistent() ==> final(world).consistent(),
            old(world).consistent() ==> !final(world).roots().contains(child),
            old(world).consistent() ==> forall|q: GameObjectId| #[trigger] final(world).has(q)
                && final(world).children_of(q).contains(child) ==> q == parent,
    {
        let ghost w0 = *world;
        GameObject::unlink(world, child);
        let ghost w1 = *world;
        proof { w1.lemma_same_nodes(w0); }
        let i = world.slot(parent).unwrap();
        world.push_child_at(i, child);
        let ghost w2 = *world;
        assert(w2.same_nodes(w0));
        proof { w2.lemma_same_nodes(w0); }
        let k = world.slot(child).unwrap();
        world.set_parent_at(k, Some(parent));
        assert(world.same_nodes(w0));
        proof {
            world.lemma_same_nodes(w0);
            assert forall|x: GameObjectId| #[trigger] w0.has(x) implies world.parent_of(x) == (
                if x == child { Some(parent) } else { w0.parent_of(x) }) by {
                assert(w1.has(x));
                if World::slot_of(x) == k {
                    World::lemma_slot_injective(x, child);
                }
                if World::slot_of(x) == i {
                    World::lemma_slot_injective(x, parent);
                }
            }
            assert forall|x: GameObjectId| #[trigger] w0.has(x) implies world.children_of(x) == (
                if x == parent {
                    unlink_children(w0, child, x).push(child)
                } else {
                    unlink_children(w0, child, x)
                }) by {
                assert(w1.has(x));
                if World::slot_of(x) == k {
                    World::lemma_slot_injective(x, child);
                }
                if World::slot_of(x) == i {
                    World::lemma_slot_injective(x, parent);
                }
            }
            assert forall|c: GameObjectId| #[trigger] world.roots().contains(c) implies world.has(c) by {
                assert(w1.roots().contains(c));
            }
            assert forall|x: GameObjectId, c: GameObjectId|
                world.has(x) && #[trigger] world.children_of(x).contains(c) implies world.has(c) by {
                assert(w1.has(x));
                if x != parent {
                    assert(w1.children_of(x).contains(c));
                } else if c != child {
                    assert(w1.children_of(x).contains(c)) by {
                        let m = choose|m: int| 0 <= m < world.children_of(x).len() && world.children_of(x)[m] == c;
                        assert(w1.children_of(x)[m] == c);
                    }
                }
            }
            assert forall|x: GameObjectId|
                #[trigger] world.has(x) && world.parent_of(x) is Some implies world.has(world.parent_of(x)->Some_0) by {
                assert(w1.has(x));
            }
            if w0.consistent() {
                assert(w1.consistent());
                assert(w1.parent_of(child) is None);
                assert forall|q: GameObjectId| w1.has(q) implies !(#[trigger] w1.children_of(q).contains(child)) by {
                    if w1.children_of(q).contains(child) {
                        assert(w1.parent_of(child) == Some(q));
                    }
                }
                assert(!w1.roots().contains(child)) by {
                    if w0.parent_of(child) is None {
                        lemma_remove_first_no_dup(w0.roots(), child);
                    } else {
                        if w0.roots().contains(child) {
                            assert(w0.parent_of(child) is None);
                        }
                    }
                }
                assert forall|q: GameObjectId, c: GameObjectId|
                    world.has(q) && #[trigger] world.children_of(q).contains(c) implies world.parent_of(c) == Some(q) by {
                    assert(w1.has(q));
                    if q == parent && c == child {
                    } else {
                        if q == parent {
                            let m = choose|m: int| 0 <= m < world.children_of(q).len() && world.children_of(q)[m] == c;
                            assert(w1.children_of(q)[m] == c);
                        }
                        assert(w1.children_of(q).contains(c));
                        assert(w1.parent_of(c) == Some(q));
                    }
                }
                assert forall|c: GameObjectId|
                    world.has(c) && (#[trigger] world.parent_of(c)) is Some
                        implies world.children_of(world.parent_of(c)->Some_0).contains(c) by {
                    assert(w1.has(c));
                    if c == child {
                        assert(world.children_of(parent).last() == child);
                    } else {
                        let q = w1.parent_of(c)->Some_0;
                        assert(w1.children_of(q).contains(c));
                        assert(w1.has(q));
                        if q == parent {
                            let m = choose|m: int| 0 <= m < w1.children_of(q).len() && w1.children_of(q)[m] == c;
                            assert(world.children_of(q)[m] == c);
                        }
                    }
                }
                assert forall|c: GameObjectId| #[trigger] world.roots().contains(c) implies world.parent_of(c) is None by {
                    assert(w1.roots().contains(c));
                    assert(w1.has(c));
                }
                assert forall|q: GameObjectId| #[trigger] world.has(q) implies world.children_of(q).no_duplicates() by {
                    assert(w1.has(q));
                    if q == parent {
                        assert(!w1.children_of(q).contains(child));
                        let s1 = w1.children_of(q);
                        let s2 = world.children_of(q);
                        assert forall|a: int, b: int| 0 <= a < s2.len() && 0 <= b < s2.len() && a != b implies s2[a] != s2[b] by {
                            if a < s1.len() && b < s1.len() {
                            } else if a == s1.len() {
                                assert(s1[b] == s2[b]);
                            } else {
                                assert(s1[a] == s2[a]);
                            }
                        }
                    }
                }
                assert forall|q: GameObjectId| #[trigger] world.has(q)
                    && world.children_of(q).contains(child) implies q == parent by {
                    assert(world.parent_of(child) == Some(q));
                }
                if world.roots().contains(child) {
                    assert(world.parent_of(child) is None);
                }
            }
        }
    }
}
impl World {
    /// Adds `obj` to the root level of the world. Its parent link is cleared;
    /// the previous parent's child list is left as it is.
    pub fn add_child(&mut self, obj: GameObjectId)
        requires
            old(self).refs_valid(),
            old(self).has(obj),
        ensures
            final(self).same_nodes(*old(self)),
            final(self).roots() == old(self).roots().push(obj),
            forall|x: GameObjectId| #[trigger] old(self).has(x) ==> final(self).parent_of(x) == (
                if x == obj { None } else { old(self).parent_of(x) }),
            forall|x: GameObjectId| #[trigger] old(self).has(x) ==> final(self).children_of(x)
                == old(self).children_of(x),
            final(self).refs_valid(),
            old(self).consistent() && old(self).parent_of(obj) is None && !old(self).roots().contains(obj)
                ==> final(self).consistent(),
    {
        let ghost w0 = *self;
        self.children.push(obj);
        let i = self.slot(obj).unwrap();
        self.set_parent_at(i, None);
        assert(self.same_nodes(w0));
        proof {
            self.lemma_same_nodes(w0);
            assert forall|x: GameObjectId| #[trigger] w0.has(x) implies self.parent_of(x) == (
                if x == obj { None } else { w0.parent_of(x) }) && self.children_of(x) == w0.children_of(x) by {
                if World::slot_of(x) == i {
                    World::lemma_slot_injective(x, obj);
                }
            }
            assert forall|c: GameObjectId| #[trigger] self.roots().contains(c) implies self.has(c) by {
                if c != obj {
                    let m = choose|m: int| 0 <= m < self.roots().len() && self.roots()[m] == c;
                    assert(w0.roots()[m] == c);
                    assert(w0.roots().contains(c));
                    assert(w0.has(c));
                } else {
                    assert(w0.has(obj));
                }
            }
            assert forall|x: GameObjectId, c: GameObjectId|
                self.has(x) && #[trigger] self.children_of(x).contains(c) implies self.has(c) by {
                assert(w0.has(x));
                assert(w0.children_of(x).contains(c));
            }
            assert forall|x: GameObjectId|
                #[trigger] self.has(x) && self.parent_of(x) is Some implies self.has(self.parent_of(x)->Some_0) by {
                assert(w0.has(x));
            }
            if w0.consistent() && w0.parent_of(obj) is None && !w0.roots().contains(obj) {
                assert forall|q: GameObjectId, c: GameObjectId|
                    self.has(q) && #[trigger] self.children_of(q).contains(c) implies self.parent_of(c) == Some(q) by {
                    assert(w0.has(q));
                    assert(w0.children_of(q).contains(c));
                    assert(w0.has(c));
                }
                assert forall|c: GameObjectId|
                    self.has(c) && (#[trigger] self.parent_of(c)) is Some
                        implies self.children_of(self.parent_of(c)->Some_0).contains(c) by {
                    assert(w0.has(c));
                    assert(w0.has(w0.parent_of(c)->Some_0));
                }
                assert forall|c: GameObjectId| #[trigger] self.roots().contains(c) implies self.parent_of(c) is None by {
                    if c != obj {
                        let m = choose|m: int| 0 <= m < self.roots().len() && self.roots()[m] == c;
                        assert(w0.roots()[m] == c);
                        assert(w0.roots().contains(c));
                        assert(w0.has(c));
                    }
                }
                assert(self.roots().no_duplicates()) by {
                    let s1 = w0.roots();
                    let s2 = self.roots();
                    assert forall|a: int, b: int| 0 <= a < s2.len() && 0 <= b < s2.len() && a != b implies s2[a] != s2[b] by {
                        if a < s1.len() && b < s1.len() {
                        } else if a == s1.len() {
                            assert(s1[b] == s2[b]);
                        } else {
                            assert(s1[a] == s2[a]);
                        }
                    }
                }
                assert forall|q: GameObjectId| #[trigger] self.has(q) implies self.children_of(q).no_duplicates() by {
                    assert(w0.has(q));
                }
            }
        }
    }
}
/// `p` is a downward path of living objects, each a child of the one before.
pub open spec fn is_path(w: World, p: Seq<GameObjectId>) -> bool {
    &&& p.len() >= 1
    &&& forall|k: int| 0 <= k < p.len() ==> w.has(#[trigger] p[k])
    &&& forall|k: int| 0 <= k < p.len() - 1 ==> (#[trigger] w.children_of(p[k])).contains(p[k + 1])
}

/// `x` is `root` or one of its descendants.
pub open spec fn in_subtree(w: World, root: GameObjectId, x: GameObjectId) -> bool {
    exists|p: Seq<GameObjectId>| #[trigger] is_path(w, p) && p[0] == root && p.last() == x
}

/// Every element of a path lies in any set that holds its first element and
/// is closed under taking children.
proof fn lemma_path_closed(w: World, p: Seq<GameObjectId>, marked: spec_fn(GameObjectId) -> bool, k: int)
    requires
        is_path(w, p),
        marked(p[0]),
        forall|x: GameObjectId, c: GameObjectId|
            w.has(x) && marked(x) && #[trigger] w.children_of(x).contains(c) ==> marked(c),
        0 <= k < p.len(),
    ensures
        marked(p[k]),
    decreases k,
{
    if k > 0 {
        lemma_path_closed(w, p, marked, k - 1);
        assert(w.has(p[k - 1]));
        assert(w.children_of(p[k - 1]).contains(p[(k - 1) + 1]));
    }
}

/// A set that holds `root` and is closed under taking children holds the
/// whole subtree of `root`.
pub proof fn lemma_subtree_closed(w: World, root: GameObjectId, marked: spec_fn(GameObjectId) -> bool)
    requires
        marked(root),
        forall|x: GameObjectId, c: GameObjectId|
            w.has(x) && marked(x) && #[trigger] w.children_of(x).contains(c) ==> marked(c),
    ensures
        forall|x: GameObjectId| in_subtree(w, root, x) ==> marked(x),
{
    assert forall|x: GameObjectId| in_subtree(w, root, x) implies marked(x) by {
        let p = choose|p: Seq<GameObjectId>| #[trigger] is_path(w, p) && p[0] == root && p.last() == x;
        lemma_path_closed(w, p, marked, p.len() - 1);
    }
}

/// Extending a path by a child of its last element gives a path.
proof fn lemma_path_extend(w: World, root: GameObjectId, x: GameObjectId, c: GameObjectId)
    requires
        in_subtree(w, root, x),
        w.has(x),
        w.has(c),
        w.children_of(x).contains(c),
    ensures
        in_subtree(w, root, c),
{
    let p = choose|p: Seq<GameObjectId>| #[trigger] is_path(w, p) && p[0] == root && p.last() == x;
    let q = p.push(c);
    assert forall|k: int| 0 <= k < q.len() - 1 implies (#[trigger] w.children_of(q[k])).contains(q[k + 1]) by {
        if k < p.len() - 1 {
            assert(q[k] == p[k] && q[k + 1] == p[k + 1]);
            assert(w.children_of(p[k]).contains(p[k + 1]));
        }
    }
    assert forall|k: int| 0 <= k < q.len() implies w.has(#[trigger] q[k]) by {
        if k < p.len() {
            assert(q[k] == p[k]);
        }
    }
    assert(is_path(w, q));
}

/// A root is in its own subtree.
proof fn lemma_subtree_self(w: World, root: GameObjectId)
    requires
        w.has(root),
    ensures
        in_subtree(w, root, root),
{
    let p = seq![root];
    assert(is_path(w, p));
}

impl World {
    /// Marks, by slot, the object `id` and all its descendants.
    fn subtree_marks(&self, id: GameObjectId) -> (marks: Vec<bool>)
        requires
            self.refs_valid(),
            self.has(id),
        ensures
            marks@.len() == self.objects@.len(),
            forall|i: int| 0 <= i < marks@.len() && #[trigger] marks@[i] ==> self.objects@[i] is Some,
            forall|x: GameObjectId| #[trigger] self.has(x) ==> (marks@[Self::slot_of(x)] <==> in_subtree(*self, id, x)),
    {
        let n = self.objects.len();
        let mut marks: Vec<bool> = Vec::new();
        while marks.len() < n
            invariant
                marks@.len() <= n,
                n == self.objects@.len(),
                forall|i: int| 0 <= i < marks@.len() ==> !marks@[i],
            decreases n - marks@.len(),
        {
            marks.push(false);
        }
        let root_slot = self.slot(id).unwrap();
        marks.set(root_slot, true);
        let ghost mut m: Set<int> = set![root_slot as int];
        let mut stack: Vec<GameObjectId> = Vec::new();
        stack.push(id);
        proof {
            lemma_subtree_self(*self, id);
            vstd::set_lib::lemma_int_range(0, n as int);
            let rs = root_slot as int;
            assert(self.objects@[rs]->Some_0.id == id) by {
                assert(self.objects@[rs]->Some_0.id@ == slot_ffi(rs));
                crate::ids::lemma_id_view_injective(self.objects@[rs]->Some_0.id, id);
            }
            assert forall|x: GameObjectId, c: GameObjectId|
                self.has(x) && m.contains(Self::slot_of(x)) && !stack@.contains(x)
                    && #[trigger] self.children_of(x).contains(c) implies m.contains(Self::slot_of(c)) by {
                World::lemma_slot_injective(x, id);
                assert(stack@[0] == id);
            }
        }
        while stack.len() > 0
            invariant
                n == self.objects@.len(),
                marks@.len() == n,
                self.refs_valid(),
                self.has(id),
                m.finite(),
                forall|i: int| 0 <= i < n ==> (#[trigger] marks@[i] <==> m.contains(i)),
                forall|i: int| #[trigger] m.contains(i) ==> 0 <= i < n,
                forall|i: int| #[trigger] m.contains(i) ==> self.objects@[i] is Some
                    && in_subtree(*self, id, self.objects@[i]->Some_0.id),
                forall|k: int| 0 <= k < stack@.len() ==> self.has(#[trigger] stack@[k])
                    && m.contains(Self::slot_of(stack@[k])),
                stack@.no_duplicates(),
                forall|x: GameObjectId, c: GameObjectId|
                    self.has(x) && m.contains(Self::slot_of(x)) && !stack@.contains(x)
                        && #[trigger] self.children_of(x).contains(c) ==> m.contains(Self::slot_of(c)),
                m.contains(Self::slot_of(id)),
            decreases 2 * (n - m.len()) + stack@.len(),
        {
            proof {
                vstd::set_lib::lemma_int_range(0, n as int);
                assert(m.subset_of(vstd::set_lib::set_int_range(0, n as int)));
                vstd::set_lib::lemma_len_subset(m, vstd::set_lib::set_int_range(0, n as int));
            }
            let ghost measure0 = 2 * (n - m.len()) + stack@.len();
            let ghost stack0 = stack@;
            let x = stack.pop().unwrap();
            assert(stack0.last() == x);
            assert(stack@ == stack0.drop_last());
            assert(!stack@.contains(x)) by {
                if stack@.contains(x) {
                    let k = choose|k: int| 0 <= k < stack@.len() && stack@[k] == x;
                    assert(stack0[k] == stack0[stack0.len() - 1]);
                }
            }
            assert(self.has(x));
            let xi = self.slot(x).unwrap();
            let children = &self.objects[xi].as_ref().unwrap().children;
            assert(children@ == self.children_of(x));
            assert(self.objects@[xi as int]->Some_0.id == x) by {
                assert(self.objects@[xi as int]->Some_0.id@ == slot_ffi(xi as int));
                crate::ids::lemma_id_view_injective(self.objects@[xi as int]->Some_0.id, x);
            }
            assert forall|y: GameObjectId, c: GameObjectId|
                y != x && self.has(y) && m.contains(Self::slot_of(y)) && !stack@.contains(y)
                    && #[trigger] self.children_of(y).contains(c) implies m.contains(Self::slot_of(c)) by {
                assert(!stack0.contains(y)) by {
                    if stack0.contains(y) {
                        let k = choose|k: int| 0 <= k < stack0.len() && stack0[k] == y;
                        if k < stack0.len() - 1 {
                            assert(stack@[k] == y);
                        }
                    }
                }
            }
            assert(in_subtree(*self, id, x)) by {
                assert(self.objects@[xi as int]->Some_0.id == x);
            }
            let mut ci: usize = 0;
            while ci < children.len()
                invariant
                    n == self.objects@.len(),
                    marks@.len() == n,
                    self.refs_valid(),
                    self.has(id),
                    self.has(x),
                    children@ == self.children_of(x),
                    0 <= ci <= children@.len(),
                    m.finite(),
                    forall|i: int| 0 <= i < n ==> (#[trigger] marks@[i] <==> m.contains(i)),
                    forall|i: int| #[trigger] m.contains(i) ==> 0 <= i < n,
                    forall|i: int| #[trigger] m.contains(i) ==> self.objects@[i] is Some
                        && in_subtree(*self, id, self.objects@[i]->Some_0.id),
                    forall|k: int| 0 <= k < stack@.len() ==> self.has(#[trigger] stack@[k])
                        && m.contains(Self::slot_of(stack@[k])),
                    stack@.no_duplicates(),
                    !stack@.contains(x),
                    m.contains(Self::slot_of(x)),
                    in_subtree(*self, id, x),
                    forall|y: GameObjectId, c: GameObjectId|
                        y != x && self.has(y) && m.contains(Self::slot_of(y)) && !stack@.contains(y)
                            && #[trigger] self.children_of(y).contains(c) ==> m.contains(Self::slot_of(c)),
                    forall|k: int| 0 <= k < ci ==> m.contains(Self::slot_of(#[trigger] children@[k])),
                    m.contains(Self::slot_of(id)),
                    2 * (n - m.len()) + stack@.len() < measure0,
                decreases children@.len() - ci,
            {
                let c = children[ci];
                assert(self.children_of(x).contains(c));
                assert(self.has(c));
                let cj = self.slot(c).unwrap();
                if !marks[cj] {
                    proof {
                        lemma_path_extend(*self, id, x, c);
                        assert(self.objects@[cj as int]->Some_0.id == c) by {
                            assert(self.objects@[cj as int]->Some_0.id@ == slot_ffi(cj as int));
                            crate::ids::lemma_id_view_injective(self.objects@[cj as int]->Some_0.id, c);
                        }
                        vstd::set_lib::lemma_int_range(0, n as int);
                assert(m.subset_of(vstd::set_lib::set_int_range(0, n as int)));
                        vstd::set_lib::lemma_len_subset(m, vstd::set_lib::set_int_range(0, n as int));
                    }
                    let ghost stack1 = stack@;
                    marks.set(cj, true);
                    stack.push(c);
                    proof {
                        m = m.insert(cj as int);
                        assert forall|k: int| 0 <= k < stack@.len() implies self.has(#[trigger] stack@[k])
                            && m.contains(Self::slot_of(stack@[k])) by {
                            if k < stack1.len() {
                                assert(stack@[k] == stack1[k]);
                            }
                        }
                        assert(stack@.no_duplicates()) by {
                            assert(!stack1.contains(c)) by {
                                if stack1.contains(c) {
                                    let k = choose|k: int| 0 <= k < stack1.len() && stack1[k] == c;
                                    assert(m.contains(Self::slot_of(stack1[k])));
                                }
                            }
                            assert forall|a: int, b: int| 0 <= a < stack@.len() && 0 <= b < stack@.len() && a != b
                                implies stack@[a] != stack@[b] by {
                                if a < stack1.len() && b < stack1.len() {
                                } else if a == stack1.len() {
                                    assert(stack1[b] == stack@[b]);
                                } else {
                                    assert(stack1[a] == stack@[a]);
                                }
                            }
                        }
                        assert(!stack@.contains(x)) by {
                            if stack@.contains(x) {
                                let k = choose|k: int| 0 <= k < stack@.len() && stack@[k] == x;
                                if k < stack1.len() {
                                    assert(stack1[k] == x);
                                } else {
                                    assert(c == x);
                                }
                            }
                        }
                        assert forall|y: GameObjectId, cc: GameObjectId|
                            y != x && self.has(y) && m.contains(Self::slot_of(y)) && !stack@.contains(y)
                                && #[trigger] self.children_of(y).contains(cc) implies m.contains(Self::slot_of(cc)) by {
                            if y != c {
                                assert(!stack1.contains(y)) by {
                                    if stack1.contains(y) {
                                        let k = choose|k: int| 0 <= k < stack1.len() && stack1[k] == y;
                                        assert(stack@[k] == y);
                                    }
                                }
                                if Self::slot_of(y) == cj as int {
                                    World::lemma_slot_injective(y, c);
                                }
                            } else {
                                assert(stack@[stack@.len() - 1] == c);
                            }
                        }
                    }
                }
                ci += 1;
            }
            proof {
                vstd::set_lib::lemma_int_range(0, n as int);
                assert(m.subset_of(vstd::set_lib::set_int_range(0, n as int)));
                vstd::set_lib::lemma_len_subset(m, vstd::set_lib::set_int_range(0, n as int));
                assert forall|y: GameObjectId, c: GameObjectId|
                    self.has(y) && m.contains(Self::slot_of(y)) && !stack@.contains(y)
                        && #[trigger] self.children_of(y).contains(c) implies m.contains(Self::slot_of(c)) by {
                    if y == x {
                        let k = choose|k: int| 0 <= k < children@.len() && children@[k] == c;
                    }
                }
            }
        }
        proof {
            let marked = |x: GameObjectId| m.contains(Self::slot_of(x));
            lemma_subtree_closed(*self, id, marked);
            assert forall|x: GameObjectId| #[trigger] self.has(x) implies (marks@[Self::slot_of(x)] <==> in_subtree(*self, id, x)) by {
                if m.contains(Self::slot_of(x)) {
                    let i = Self::slot_of(x);
                    assert(self.objects@[i]->Some_0.id == x) by {
                        assert(self.objects@[i]->Some_0.id@ == slot_ffi(i));
                        crate::ids::lemma_id_view_injective(self.objects@[i]->Some_0.id, x);
                    }
                }
                if in_subtree(*self, id, x) {
                    assert(marked(x));
                }
            }
        }
        marks
    }
}
/// The predicate "not in the subtree of `root`".
pub open spec fn outside_subtree(w: World, root: GameObjectId) -> spec_fn(GameObjectId) -> bool {
    |c: GameObjectId| !in_subtree(w, root, c)
}

/// Filtering keeps a sequence free of duplicates.
pub proof fn lemma_filter_no_dup<A>(s: Seq<A>, p: spec_fn(A) -> bool)
    requires
        s.no_duplicates(),
    ensures
        s.filter(p).no_duplicates(),
    decreases s.len(),
{
    reveal(Seq::filter);
    if s.len() > 0 {
        let rest = s.drop_last();
        assert(rest.no_duplicates()) by {
            assert forall|a: int, b: int| 0 <= a < rest.len() && 0 <= b < rest.len() && a != b
                implies rest[a] != rest[b] by {
                assert(rest[a] == s[a] && rest[b] == s[b]);
            }
        }
        lemma_filter_no_dup(rest, p);
        if p(s.last()) {
            let f = rest.filter(p);
            if f.contains(s.last()) {
                rest.lemma_filter_contains_rev(p, s.last());
                let k = choose|k: int| 0 <= k < rest.len() && rest[k] == s.last();
                assert(s[k] == s[s.len() - 1]);
            }
            let g = f.push(s.last());
            assert forall|a: int, b: int| 0 <= a < g.len() && 0 <= b < g.len() && a != b
                implies g[a] != g[b] by {
                if a < f.len() && b < f.len() {
                    assert(g[a] == f[a] && g[b] == f[b]);
                } else if a == f.len() {
                    assert(g[b] == f[b]);
                    assert(f.contains(f[b]));
                } else {
                    assert(g[a] == f[a]);
                    assert(f.contains(f[a]));
                }
            }
        }
    }
}

/// An element is kept by a filter exactly when it occurs and satisfies the
/// predicate.
pub proof fn lemma_filter_contains_iff<A>(s: Seq<A>, p: spec_fn(A) -> bool, x: A)
    ensures
        s.filter(p).contains(x) <==> (s.contains(x) && p(x)),
{
    broadcast use vstd::seq_lib::group_filter_ensures;

    if s.filter(p).contains(x) {
        s.lemma_filter_contains_rev(p, x);
        let k = choose|k: int| 0 <= k < s.filter(p).len() && s.filter(p)[k] == x;
        s.lemma_filter_pred(p, k);
    }
    if s.contains(x) && p(x) {
        let k = choose|k: int| 0 <= k < s.len() && s[k] == x;
        s.lemma_filter_contains(p, k);
    }
}

/// The slot of an identifier known to lie below `n`.
fn slot_below(id: GameObjectId, Ghost(n): Ghost<nat>) -> (r: usize)
    requires
        0 <= World::slot_of(id) < n,
        n <= usize::MAX,
    ensures
        r == World::slot_of(id),
{
    let v = id.as_ffi();
    proof {
        assert(World::slot_of(id) == id@ - 0x1_0000_0000int) by {
            reveal(World::slot_of);
        }
    }
    (v - 0x1_0000_0000u64) as usize
}

/// The elements of `v` whose slot is not marked.
fn retain_unmarked(
    v: &Vec<GameObjectId>,
    marks: &Vec<bool>,
    Ghost(pred): Ghost<spec_fn(GameObjectId) -> bool>,
) -> (r: Vec<GameObjectId>)
    requires
        forall|k: int| 0 <= k < v@.len() ==> 0 <= World::slot_of(#[trigger] v@[k]) < marks@.len()
            && (pred(v@[k]) <==> !marks@[World::slot_of(v@[k])]),
    ensures
        r@ == v@.filter(pred),
{
    let mut out: Vec<GameObjectId> = Vec::new();
    let mut k: usize = 0;
    while k < v.len()
        invariant
            0 <= k <= v@.len(),
            out@ == v@.take(k as int).filter(pred),
            forall|k: int| 0 <= k < v@.len() ==> 0 <= World::slot_of(#[trigger] v@[k]) < marks@.len()
                && (pred(v@[k]) <==> !marks@[World::slot_of(v@[k])]),
        decreases v@.len() - k,
    {
        let c = v[k];
        let ml = marks.len();
        let s = slot_below(c, Ghost(ml as nat));
        proof {
            reveal(Seq::filter);
            assert(v@.take(k + 1).drop_last() == v@.take(k as int));
            assert(v@.take(k + 1).last() == c);
        }
        if !marks[s] {
            out.push(c);
        }
        k += 1;
    }
    assert(v@.take(v@.len() as int) == v@);
    out
}

impl GameObject {
    /// Destroys the object `id` and all its descendants, and removes every
    /// link to them from the remaining objects and the root list.
    pub(crate) fn delete_tree(world: &mut World, id: GameObjectId)
        requires
            old(world).refs_valid(),
            old(world).consistent(),
            old(world).has(id),
        ensures
            final(world).slot_count() == old(world).slot_count(),
            final(world).camera() == old(world).camera(),
            final(world).shutdown_requested() == old(world).shutdown_requested(),
            forall|x: GameObjectId| #[trigger] final(world).has(x) <==> (old(world).has(x)
                && !in_subtree(*old(world), id, x)),
            forall|x: GameObjectId| #[trigger] final(world).has(x) ==> final(world).name_of(x)
                == old(world).name_of(x) && final(world).props_of(x) == old(world).props_of(x)
                && final(world).parent_of(x) == old(world).parent_of(x)
                && final(world).children_of(x) == old(world).children_of(x).filter(
                outside_subtree(*old(world), id)),
            final(world).roots() == old(world).roots().filter(outside_subtree(*old(world), id)),
            final(world).refs_valid(),
            final(world).consistent(),
    {
        let ghost w0 = *world;
        let ghost pred = outside_subtree(w0, id);
        let marks = world.subtree_marks(id);
        let n = world.objects.len();
        let mut i: usize = 0;
        while i < n
            invariant
                0 <= i <= n,
                n == world.objects@.len(),
                n == w0.objects@.len(),
                marks@.len() == n,
                world.children == w0.children,
                world.active_camera == w0.active_camera,
                world.requested_shutdown == w0.requested_shutdown,
                forall|j: int| 0 <= j < n ==> #[trigger] world.objects@[j] == (
                    if j < i && marks@[j] { None } else { w0.objects@[j] }),
            decreases n - i,
        {
            if marks[i] {
                world.objects.set(i, None);
            }
            i += 1;
        }
        let ghost w2 = *world;
        assert forall|x: GameObjectId| #[trigger] w2.has(x) <==> (w0.has(x) && !in_subtree(w0, id, x)) by {
            if w0.has(x) {
                assert(marks@[World::slot_of(x)] <==> in_subtree(w0, id, x));
            }
        }
        assert forall|k: int| 0 <= k < world.children@.len() implies 0 <= World::slot_of(#[trigger] world.children@[k]) < marks@.len()
            && (pred(world.children@[k]) <==> !marks@[World::slot_of(world.children@[k])]) by {
            assert(w0.roots().contains(world.children@[k]));
            assert(w0.has(world.children@[k]));
        }
        let roots = retain_unmarked(&world.children, &marks, Ghost(pred));
        world.children = roots;
        let mut i: usize = 0;
        while i < n
            invariant
                0 <= i <= n,
                n == world.objects@.len(),
                n == w0.objects@.len(),
                marks@.len() == n,
                w0.refs_valid(),
                world.children@ == w0.children@.filter(pred),
                world.active_camera == w0.active_camera,
                world.requested_shutdown == w0.requested_shutdown,
                forall|x: GameObjectId| #[trigger] w0.has(x) ==> (marks@[World::slot_of(x)] <==> in_subtree(w0, id, x)),
                pred == outside_subtree(w0, id),
                forall|j: int| 0 <= j < n ==> (#[trigger] world.objects@[j] is Some <==> w2.objects@[j] is Some),
                forall|j: int| 0 <= j < n && #[trigger] world.objects@[j] is Some ==> {
                    let o = world.objects@[j]->Some_0;
                    let o0 = w0.objects@[j]->Some_0;
                    &&& o.id == o0.id
                    &&& o.name@ == o0.name@
                    &&& o.properties@ == o0.properties@
                    &&& o.parent == o0.parent
                    &&& o.children@ == if j < i { o0.children@.filter(pred) } else { o0.children@ }
                },
                forall|j: int| 0 <= j < n ==> (#[trigger] w2.objects@[j] is Some <==> (w0.objects@[j] is Some && !marks@[j])),
                forall|j: int| 0 <= j < n && #[trigger] w2.objects@[j] is Some ==> w2.objects@[j] == w0.objects@[j],
            decreases n - i,
        {
            if world.objects[i].is_some() {
                let mut slot: Option<GameObject> = None;
                std::mem::swap(&mut world.objects[i], &mut slot);
                let mut o = slot.unwrap();
                proof {
                    let j = i as int;
                    assert(w0.objects@[j] is Some);
                    let x = w0.objects@[j]->Some_0.id;
                    assert(x@ == slot_ffi(j));
                    assert(World::slot_of(x) == j);
                    assert(w0.has(x));
                    assert(w0.object(x) == w0.objects@[j]->Some_0);
                    assert forall|k: int| 0 <= k < o.children@.len() implies 0 <= World::slot_of(#[trigger] o.children@[k]) < marks@.len()
                        && (pred(o.children@[k]) <==> !marks@[World::slot_of(o.children@[k])]) by {
                        assert(w0.children_of(x).contains(o.children@[k]));
                        assert(w0.has(o.children@[k]));
                    }
                }
                let kept = retain_unmarked(&o.children, &marks, Ghost(pred));
                o.children = kept;
                world.objects.set(i, Some(o));
            }
            i += 1;
        }
        proof {
            assert forall|x: GameObjectId| #[trigger] world.has(x) <==> (w0.has(x) && !in_subtree(w0, id, x)) by {
                assert(world.has(x) <==> w2.has(x));
            }
            assert forall|x: GameObjectId| #[trigger] world.has(x) implies world.name_of(x)
                == w0.name_of(x) && world.props_of(x) == w0.props_of(x) && world.parent_of(x) == w0.parent_of(x)
                && world.children_of(x) == w0.children_of(x).filter(pred) by {
                assert(w2.has(x));
            }
            assert forall|c: GameObjectId| #[trigger] world.roots().contains(c) implies world.has(c) by {
                lemma_filter_contains_iff(w0.roots(), pred, c);
                assert(w0.has(c));
            }
            assert forall|x: GameObjectId, c: GameObjectId|
                world.has(x) && #[trigger] world.children_of(x).contains(c) implies world.has(c) by {
                assert(w2.has(x));
                lemma_filter_contains_iff(w0.children_of(x), pred, c);
                assert(w0.has(c));
            }
            assert forall|x: GameObjectId|
                #[trigger] world.has(x) && world.parent_of(x) is Some implies world.has(world.parent_of(x)->Some_0) by {
                assert(w2.has(x));
                let p = w0.parent_of(x)->Some_0;
                assert(w0.has(p));
                assert(w0.children_of(p).contains(x));
                if in_subtree(w0, id, p) {
                    lemma_path_extend(w0, id, p, x);
                }
            }
            assert forall|i: int|
                0 <= i < world.objects@.len() && (#[trigger] world.objects@[i]) is Some
                    implies world.objects@[i]->Some_0.id@ == slot_ffi(i) by {
                assert(w2.objects@[i] is Some);
            }
            assert forall|q: GameObjectId, c: GameObjectId|
                world.has(q) && #[trigger] world.children_of(q).contains(c) implies world.parent_of(c) == Some(q) by {
                assert(w2.has(q));
                lemma_filter_contains_iff(w0.children_of(q), pred, c);
                assert(w0.has(c));
                assert(w2.has(c));
            }
            assert forall|c: GameObjectId|
                world.has(c) && (#[trigger] world.parent_of(c)) is Some
                    implies world.children_of(world.parent_of(c)->Some_0).contains(c) by {
                assert(w2.has(c));
                let q = w0.parent_of(c)->Some_0;
                assert(w0.has(q));
                assert(w0.children_of(q).contains(c));
                if in_subtree(w0, id, q) {
                    lemma_path_extend(w0, id, q, c);
                }
                assert(w2.has(q));
                lemma_filter_contains_iff(w0.children_of(q), pred, c);
            }
            assert forall|c: GameObjectId| #[trigger] world.roots().contains(c) implies world.parent_of(c) is None by {
                lemma_filter_contains_iff(w0.roots(), pred, c);
                assert(w0.has(c));
                assert(w2.has(c));
            }
            lemma_filter_no_dup(w0.roots(), pred);
            assert forall|q: GameObjectId| #[trigger] world.has(q) implies world.children_of(q).no_duplicates() by {
                assert(w2.has(q));
                assert(w0.has(q));
                lemma_filter_no_dup(w0.children_of(q), pred);
            }
        }
    }
}
impl World {
    /// Finds an object by name: the first match in creation order.
    pub fn find_object_by_name(&self, name: &str) -> (r: Option<GameObjectId>)
        requires
            self.refs_valid(),
        ensures
            r is None <==> !exists|x: GameObjectId| #[trigger] self.has(x) && self.name_of(x) == name@,
            r is Some ==> self.has(r->Some_0) && self.name_of(r->Some_0) == name@,
            r is Some ==> forall|x: GameObjectId| #[trigger] self.has(x) && self.name_of(x) == name@
                ==> Self::slot_of(r->Some_0) <= Self::slot_of(x),
    {
        let target = name.to_owned();
        let mut i: usize = 0;
        while i < self.objects.len()
            invariant
                0 <= i <= self.objects@.len(),
                target@ == name@,
                self.refs_valid(),
                forall|x: GameObjectId| #[trigger] self.has(x) && Self::slot_of(x) < i ==> self.name_of(x) != name@,
            decreases self.objects@.len() - i,
        {
            if let Some(o) = &self.objects[i] {
                if o.name == target {
                    let id = o.id;
                    proof {
                        assert(id@ == slot_ffi(i as int));
                        assert(Self::slot_of(id) == i);
                        assert(self.object(id) == *o);
                        assert(self.has(id) && self.name_of(id) == name@);
                    }
                    return Some(id);
                }
                proof {
                    assert forall|x: GameObjectId| #[trigger] self.has(x) && Self::slot_of(x) < i + 1 implies self.name_of(x) != name@ by {
                        if Self::slot_of(x) == i {
                            assert(self.object(x) == *o);
                        }
                    }
                }
            }
            i += 1;
        }
        None
    }

    /// Requests that the application shuts down.
    pub fn shutdown(&mut self)
        ensures
            final(self).shutdown_requested(),
            final(self).same_links(*old(self)),
    {
        self.requested_shutdown = true;
    }

    /// Whether a shutdown was requested.
    pub fn is_shutting_down(&self) -> (r: bool)
        ensures
            r == self.shutdown_requested(),
    {
        self.requested_shutdown
    }

    /// The object whose camera renders the scene, if any.
    pub fn active_camera(&self) -> (r: Option<GameObjectId>)
        ensures
            r == self.camera(),
    {
        self.active_camera
    }

    /// Chooses the object whose camera renders the scene.
    pub fn set_active_camera(&mut self, camera: Option<GameObjectId>)
        ensures
            final(self).camera() == camera,
            final(self).shutdown_requested() == old(self).shutdown_requested(),
            final(self).same_objects_and_links(*old(self)),
    {
        self.active_camera = camera;
    }

    /// The root-level objects, in order.
    pub fn children(&self) -> (r: &[GameObjectId])
        ensures
            r@ == self.roots(),
    {
        self.children.as_slice()
    }

    /// The objects and all links are those of `other`.
    pub closed spec fn same_objects_and_links(self, other: World) -> bool {
        &&& self.objects == other.objects
        &&& self.children == other.children
    }

    /// The objects, links and camera are those of `other`.
    pub closed spec fn same_links(self, other: World) -> bool {
        &&& self.same_objects_and_links(other)
        &&& self.active_camera == other.active_camera
    }
}

impl GameObjectId {
    /// Returns `true` if `self` is non-null and names an object of `world`.
    pub fn exists_in(&self, world: &World) -> (r: bool)
        ensures
            r == (!self.spec_is_null() && world.has(*self)),
    {
        !self.is_null() && world.slot(*self).is_some()
    }
}
impl World {
    /// Makes a freshly built camera object the active camera when the world
    /// has none, adding it to the root level; otherwise leaves the world as
    /// it is. Returns the camera.
    pub fn adopt_camera(&mut self, camera: GameObjectId) -> (r: GameObjectId)
        requires
            old(self).refs_valid(),
            old(self).has(camera),
        ensures
            r == camera,
            final(self).refs_valid(),
            old(self).camera() is Some ==> *final(self) == *old(self),
            old(self).camera() is None ==> {
                &&& final(self).camera() == Some(camera)
                &&& final(self).shutdown_requested() == old(self).shutdown_requested()
                &&& final(self).slot_count() == old(self).slot_count()
                &&& forall|x: GameObjectId| #[trigger] final(self).has(x) == old(self).has(x)
                &&& forall|x: GameObjectId| #[trigger] old(self).has(x) ==> final(self).name_of(x) == old(self).name_of(x)
                &&& forall|x: GameObjectId| #[trigger] old(self).has(x) ==> final(self).props_of(x) == old(self).props_of(x)
                &&& final(self).roots() == old(self).roots().push(camera)
                &&& forall|x: GameObjectId| #[trigger] old(self).has(x) ==> final(self).parent_of(x) == (
                    if x == camera { None } else { old(self).parent_of(x) })
                &&& forall|x: GameObjectId| #[trigger] old(self).has(x) ==> final(self).children_of(x)
                    == old(self).children_of(x)
            },
    {
        if self.active_camera.is_none() {
            self.add_child(camera);
            let ghost w1 = *self;
            self.active_camera = Some(camera);
            proof {
                lemma_camera_irrelevant(w1, *self);
                old(self).lemma_same_nodes_ids(w1);
            }
        }
        camera
    }
}

/// Worlds with the same objects and links agree on everything but the
/// camera and the shutdown request.
proof fn lemma_camera_irrelevant(a: World, b: World)
    requires
        a.objects == b.objects,
        a.children == b.children,
    ensures
        a.refs_valid() ==> b.refs_valid(),
        a.roots() == b.roots(),
        a.slot_count() == b.slot_count(),
        forall|x: GameObjectId| a.has(x) == b.has(x),
        forall|x: GameObjectId| #[trigger] a.name_of(x) == b.name_of(x),
        forall|x: GameObjectId| #[trigger] a.props_of(x) == b.props_of(x),
        forall|x: GameObjectId| #[trigger] a.parent_of(x) == b.parent_of(x),
        forall|x: GameObjectId| #[trigger] a.children_of(x) == b.children_of(x),
{
    assert(a.objects@ == b.objects@);
    assert(a.children@ == b.children@);
    assert forall|x: GameObjectId| a.has(x) == b.has(x) by {}
    assert forall|x: GameObjectId| #[trigger] a.name_of(x) == b.name_of(x) by {}
    assert forall|x: GameObjectId| #[trigger] a.props_of(x) == b.props_of(x) by {}
    assert forall|x: GameObjectId| #[trigger] a.children_of(x) == b.children_of(x) by {}
    assert forall|x: GameObjectId| #[trigger] a.parent_of(x) == b.parent_of(x) by {}
    if a.refs_valid() {
        assert forall|i: int| 0 <= i < b.objects@.len() && (#[trigger] b.objects@[i]) is Some implies b.objects@[i]->Some_0.id@
            == slot_ffi(i) by {
            assert(a.objects@[i] == b.objects@[i]);
        }
        assert forall|c: GameObjectId| #[trigger] b.roots().contains(c) implies b.has(c) by {
            assert(a.roots().contains(c));
        }
        assert forall|x: GameObjectId, c: GameObjectId| b.has(x) && #[trigger] b.children_of(x).contains(c) implies b.has(
            c,
        ) by {
            assert(a.has(x) && a.children_of(x).contains(c));
        }
        assert forall|x: GameObjectId| #[trigger] b.has(x) && b.parent_of(x) is Some implies b.has(
            b.parent_of(x)->Some_0,
        ) by {
            assert(a.has(x) && a.parent_of(x) is Some);
        }
    }
}

} // verus!
