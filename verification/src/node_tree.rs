//! The node hierarchy of a glTF scene as plain values, and the searches
//! and constructions that follow it.

use crate::ids::GameObjectId;
use crate::properties::{clone_properties, only_props_changed, with_properties, Property};
use crate::scene::{GameObject, World};
use crate::scene_loader::SceneLoader;
use vstd::prelude::*;

verus! {

/// The nodes of a glTF scene: for each node its name, if it has one, its
/// children in order, and the custom properties its extra data holds; and
/// the root nodes of the scene in order.
pub struct NodeTree {
    pub names: Vec<Option<String>>,
    pub children: Vec<Vec<usize>>,
    pub properties: Vec<Vec<Property>>,
    pub roots: Vec<usize>,
}

/// The children of node `n`; none for a node that is not listed.
pub open spec fn kids(children: Seq<Vec<usize>>, n: int) -> Seq<usize> {
    if 0 <= n < children.len() {
        children[n]@
    } else {
        Seq::empty()
    }
}

/// The first node, in depth-first pre-order from `n`, from which a mesh
/// loads (`loads[i]`), looking at most `fuel` levels deep.
pub open spec fn first_loadable(children: Seq<Vec<usize>>, loads: Seq<bool>, n: usize, fuel: nat) -> Option<usize>
    decreases fuel, 0nat,
{
    if fuel == 0 {
        None
    } else if n < loads.len() && loads[n as int] {
        Some(n)
    } else {
        first_loadable_in(children, loads, kids(children, n as int), (fuel - 1) as nat)
    }
}

/// The first node, in depth-first pre-order from the nodes `ns` taken in
/// order, from which a mesh loads, looking at most `fuel` levels deep.
pub open spec fn first_loadable_in(children: Seq<Vec<usize>>, loads: Seq<bool>, ns: Seq<usize>, fuel: nat) -> Option<usize>
    decreases fuel, ns.len(),
{
    if ns.len() == 0 {
        None
    } else {
        match first_loadable(children, loads, ns[0], fuel) {
            Some(r) => Some(r),
            None => first_loadable_in(children, loads, ns.drop_first(), fuel),
        }
    }
}

impl NodeTree {
    /// The first node, in depth-first pre-order over the roots, from which a
    /// mesh loads. Each level of the search spends one unit of fuel; a
    /// forest of `n` nodes is never deeper than `n` levels, so with the
    /// node count as fuel the search reaches every node.
    pub fn first_mesh_node(&self, loads: &Vec<bool>) -> (r: Option<usize>)
        ensures
            r == first_loadable_in(self.children@, loads@, self.roots@, self.children@.len()),
            r matches Some(i) ==> i < loads@.len() && loads@[i as int],
    {
        let r = Self::first_among(&self.children, loads, &self.roots, self.children.len());
        proof {
            lemma_first_loadable_in_loads(self.children@, loads@, self.roots@, self.children@.len() as nat);
        }
        r
    }

    /// Depth-first search from node `n`.
    fn first_from(children: &Vec<Vec<usize>>, loads: &Vec<bool>, n: usize, fuel: usize) -> (r: Option<usize>)
        ensures
            r == first_loadable(children@, loads@, n, fuel as nat),
        decreases fuel, 0nat,
    {
        if fuel == 0 {
            return None;
        }
        if n < loads.len() && loads[n] {
            return Some(n);
        }
        if n >= children.len() {
            assert(kids(children@, n as int) =~= Seq::<usize>::empty());
            return None;
        }
        Self::first_among(children, loads, &children[n], fuel - 1)
    }

    /// Depth-first search from the nodes `ns`, taken in order.
    fn first_among(children: &Vec<Vec<usize>>, loads: &Vec<bool>, ns: &Vec<usize>, fuel: usize) -> (r: Option<usize>)
        ensures
            r == first_loadable_in(children@, loads@, ns@, fuel as nat),
        decreases fuel, 1nat,
    {
        let mut k: usize = 0;
        assert(ns@.skip(0) =~= ns@);
        while k < ns.len()
            invariant
                k <= ns@.len(),
                first_loadable_in(children@, loads@, ns@, fuel as nat)
                    == first_loadable_in(children@, loads@, ns@.skip(k as int), fuel as nat),
            decreases ns@.len() - k,
        {
            assert(ns@.skip(k as int).drop_first() =~= ns@.skip(k as int + 1));
            assert(ns@.skip(k as int)[0] == ns@[k as int]);
            match Self::first_from(children, loads, ns[k], fuel) {
                Some(r) => {
                    return Some(r);
                },
                None => {},
            }
            k += 1;
        }
        assert(ns@.skip(k as int) =~= Seq::<usize>::empty());
        None
    }
}

/// The name of the object made from node `n`: the node's name, or "Unnamed".
pub open spec fn node_label(names: Seq<Option<String>>, n: int) -> Seq<char> {
    if 0 <= n < names.len() {
        match names[n] {
            Some(s) => s@,
            None => "Unnamed"@,
        }
    } else {
        "Unnamed"@
    }
}

/// The custom properties of the object made from node `n`.
pub open spec fn node_props(tree: NodeTree, n: int) -> Seq<Property> {
    if 0 <= n < tree.properties@.len() {
        with_properties(Seq::empty(), tree.properties@[n]@)
    } else {
        Seq::empty()
    }
}

/// How many objects building node `n` makes: one for the node and, while
/// fuel lasts, those of its children.
pub open spec fn spawn_count(children: Seq<Vec<usize>>, n: usize, fuel: nat) -> nat
    decreases fuel, 0nat,
{
    if fuel == 0 {
        1
    } else {
        1 + spawn_count_in(children, kids(children, n as int), (fuel - 1) as nat)
    }
}

/// How many objects building the nodes `ns` makes.
pub open spec fn spawn_count_in(children: Seq<Vec<usize>>, ns: Seq<usize>, fuel: nat) -> nat
    decreases fuel, ns.len(),
{
    if ns.len() == 0 {
        0
    } else {
        spawn_count(children, ns[0], fuel) + spawn_count_in(children, ns.drop_first(), fuel)
    }
}

/// Object `id` of world `w` was made from node `n`: it is new since `base`,
/// carries the node's name and properties and, while fuel lasts, has one
/// child per child of the node, in order, each made from that child.
/// Without fuel it has no children.
pub open spec fn mirrors(
    w: World,
    base: World,
    tree: NodeTree,
    id: GameObjectId,
    n: usize,
    fuel: nat,
) -> bool
    decreases fuel, 0nat,
{
    &&& w.has(id)
    &&& !base.has(id)
    &&& w.name_of(id) == node_label(tree.names@, n as int)
    &&& w.props_of(id) == node_props(tree, n as int)
    &&& if fuel == 0 {
        w.children_of(id).len() == 0
    } else {
        mirrors_all(w, base, tree, w.children_of(id), kids(tree.children@, n as int), (fuel - 1) as nat)
    }
}

/// The objects `ids` were made from the nodes `ns`, one for one and in order.
pub open spec fn mirrors_all(
    w: World,
    base: World,
    tree: NodeTree,
    ids: Seq<GameObjectId>,
    ns: Seq<usize>,
    fuel: nat,
) -> bool
    decreases fuel, ns.len(),
{
    if ns.len() == 0 {
        ids.len() == 0
    } else {
        &&& ids.len() == ns.len()
        &&& mirrors(w, base, tree, ids[0], ns[0], fuel)
        &&& mirrors_all(w, base, tree, ids.drop_first(), ns.drop_first(), fuel)
    }
}

/// `mirrors_all` holds exactly when each object was made from its node.
proof fn lemma_mirrors_all_index(
    w: World,
    base: World,
    tree: NodeTree,
    ids: Seq<GameObjectId>,
    ns: Seq<usize>,
    fuel: nat,
)
    ensures
        mirrors_all(w, base, tree, ids, ns, fuel) <==> (ids.len() == ns.len() && forall|k: int|
            0 <= k < ns.len() ==> #[trigger] mirrors(w, base, tree, ids[k], ns[k], fuel)),
    decreases ns.len(),
{
    if ns.len() > 0 {
        let ids2 = ids.drop_first();
        let ns2 = ns.drop_first();
        lemma_mirrors_all_index(w, base, tree, ids2, ns2, fuel);
        if ids.len() == ns.len() {
            if mirrors_all(w, base, tree, ids, ns, fuel) {
                assert forall|k: int| 0 <= k < ns.len() implies
                    #[trigger] mirrors(w, base, tree, ids[k], ns[k], fuel) by {
                    if k > 0 {
                        assert(ids2[k - 1] == ids[k]);
                        assert(ns2[k - 1] == ns[k]);
                        assert(mirrors(w, base, tree, ids2[k - 1], ns2[k - 1], fuel));
                    }
                }
            }
            if forall|k: int| 0 <= k < ns.len() ==> #[trigger] mirrors(w, base, tree, ids[k], ns[k], fuel) {
                assert(mirrors(w, base, tree, ids[0], ns[0], fuel));
                assert forall|k: int| 0 <= k < ns2.len() implies
                    #[trigger] mirrors(w, base, tree, ids2[k], ns2[k], fuel) by {
                    assert(mirrors(w, base, tree, ids[k + 1], ns[k + 1], fuel));
                }
            }
        }
    }
}

/// A built subtree stays as it is in a later world that keeps every object
/// with its name and properties, and the children of every object made
/// since `base`.
proof fn lemma_mirrors_frame(
    w1: World,
    w2: World,
    base: World,
    tree: NodeTree,
    id: GameObjectId,
    n: usize,
    fuel: nat,
)
    requires
        mirrors(w1, base, tree, id, n, fuel),
        forall|x: GameObjectId| #[trigger] w1.has(x) ==> w2.has(x) && w2.name_of(x) == w1.name_of(x)
            && w2.props_of(x) == w1.props_of(x),
        forall|x: GameObjectId| w1.has(x) && !base.has(x) ==> #[trigger] w2.children_of(x) == w1.children_of(x),
    ensures
        mirrors(w2, base, tree, id, n, fuel),
    decreases fuel, 0nat,
{
    if fuel > 0 {
        assert(w2.children_of(id) == w1.children_of(id));
        lemma_mirrors_all_frame(w1, w2, base, tree, w1.children_of(id), kids(tree.children@, n as int), (fuel - 1) as nat);
    }
}

/// Built subtrees stay as they are in a later world that keeps every object
/// with its name and properties, and the children of every object made
/// since `base`.
proof fn lemma_mirrors_all_frame(
    w1: World,
    w2: World,
    base: World,
    tree: NodeTree,
    ids: Seq<GameObjectId>,
    ns: Seq<usize>,
    fuel: nat,
)
    requires
        mirrors_all(w1, base, tree, ids, ns, fuel),
        forall|x: GameObjectId| #[trigger] w1.has(x) ==> w2.has(x) && w2.name_of(x) == w1.name_of(x)
            && w2.props_of(x) == w1.props_of(x),
        forall|x: GameObjectId| w1.has(x) && !base.has(x) ==> #[trigger] w2.children_of(x) == w1.children_of(x),
    ensures
        mirrors_all(w2, base, tree, ids, ns, fuel),
    decreases fuel, ns.len(),
{
    if ns.len() > 0 {
        lemma_mirrors_frame(w1, w2, base, tree, ids[0], ns[0], fuel);
        lemma_mirrors_all_frame(w1, w2, base, tree, ids.drop_first(), ns.drop_first(), fuel);
    }
}

/// A subtree new since `b1` is new since any earlier world `b2`.
proof fn lemma_mirrors_base(
    w: World,
    b1: World,
    b2: World,
    tree: NodeTree,
    id: GameObjectId,
    n: usize,
    fuel: nat,
)
    requires
        mirrors(w, b1, tree, id, n, fuel),
        forall|x: GameObjectId| #[trigger] b2.has(x) ==> b1.has(x),
    ensures
        mirrors(w, b2, tree, id, n, fuel),
    decreases fuel, 0nat,
{
    if fuel > 0 {
        lemma_mirrors_all_base(w, b1, b2, tree, w.children_of(id), kids(tree.children@, n as int), (fuel - 1) as nat);
    }
}

/// Subtrees new since `b1` are new since any earlier world `b2`.
proof fn lemma_mirrors_all_base(
    w: World,
    b1: World,
    b2: World,
    tree: NodeTree,
    ids: Seq<GameObjectId>,
    ns: Seq<usize>,
    fuel: nat,
)
    requires
        mirrors_all(w, b1, tree, ids, ns, fuel),
        forall|x: GameObjectId| #[trigger] b2.has(x) ==> b1.has(x),
    ensures
        mirrors_all(w, b2, tree, ids, ns, fuel),
    decreases fuel, ns.len(),
{
    if ns.len() > 0 {
        lemma_mirrors_base(w, b1, b2, tree, ids[0], ns[0], fuel);
        lemma_mirrors_all_base(w, b1, b2, tree, ids.drop_first(), ns.drop_first(), fuel);
    }
}

impl NodeTree {
    /// The number of objects building node `n` makes, if it is at most `budget`.
    fn count_from(children: &Vec<Vec<usize>>, n: usize, fuel: usize, budget: u64) -> (r: Option<u64>)
        ensures
            r matches Some(c) ==> c == spawn_count(children@, n, fuel as nat) && c <= budget,
            r is None ==> spawn_count(children@, n, fuel as nat) > budget,
        decreases fuel, 0nat,
    {
        if budget == 0 {
            return None;
        }
        if fuel == 0 {
            return Some(1);
        }
        if n >= children.len() {
            assert(kids(children@, n as int) =~= Seq::<usize>::empty());
            return Some(1);
        }
        match Self::count_among(children, &children[n], fuel - 1, budget - 1) {
            Some(c) => Some(c + 1),
            None => None,
        }
    }

    /// The number of objects building the nodes `ns` makes, if it is at most `budget`.
    fn count_among(children: &Vec<Vec<usize>>, ns: &Vec<usize>, fuel: usize, budget: u64) -> (r: Option<u64>)
        ensures
            r matches Some(c) ==> c == spawn_count_in(children@, ns@, fuel as nat) && c <= budget,
            r is None ==> spawn_count_in(children@, ns@, fuel as nat) > budget,
        decreases fuel, 1nat,
    {
        let mut total: u64 = 0;
        let mut k: usize = 0;
        assert(ns@.skip(0) =~= ns@);
        while k < ns.len()
            invariant
                k <= ns@.len(),
                total <= budget,
                spawn_count_in(children@, ns@, fuel as nat)
                    == total + spawn_count_in(children@, ns@.skip(k as int), fuel as nat),
            decreases ns@.len() - k,
        {
            assert(ns@.skip(k as int).drop_first() =~= ns@.skip(k as int + 1));
            assert(ns@.skip(k as int)[0] == ns@[k as int]);
            match Self::count_from(children, ns[k], fuel, budget - total) {
                Some(c) => {
                    total = total + c;
                },
                None => {
                    return None;
                },
            }
            k += 1;
        }
        assert(ns@.skip(k as int) =~= Seq::<usize>::empty());
        Some(total)
    }

    /// The number of objects loading this scene into a world makes (one for
    /// the scene and those of its root nodes), if it is at most `budget`.
    pub fn object_count(&self, budget: u64) -> (r: Option<u64>)
        ensures
            r matches Some(c) ==> c == 1 + spawn_count_in(self.children@, self.roots@, self.children@.len() as nat)
                && c <= budget,
            r is None ==> 1 + spawn_count_in(self.children@, self.roots@, self.children@.len() as nat) > budget,
    {
        if budget == 0 {
            return None;
        }
        match Self::count_among(&self.children, &self.roots, self.children.len(), budget - 1) {
            Some(c) => Some(c + 1),
            None => None,
        }
    }
}

/// `w1` keeps everything of `w0` that building objects under `keep` may
/// not change: every object with its name, properties and parent link, the
/// children of every object but `keep`, the root level, the camera and the
/// shutdown flag.
pub open spec fn keeps_old(w0: World, w1: World, keep: Option<GameObjectId>) -> bool {
    &&& forall|x: GameObjectId| #[trigger] w0.has(x) ==> {
        &&& w1.has(x)
        &&& w1.name_of(x) == w0.name_of(x)
        &&& w1.props_of(x) == w0.props_of(x)
        &&& w1.parent_of(x) == w0.parent_of(x)
        &&& (Some(x) != keep ==> w1.children_of(x) == w0.children_of(x))
    }
    &&& w1.roots() == w0.roots()
    &&& w1.camera() == w0.camera()
    &&& w1.shutdown_requested() == w0.shutdown_requested()
}

/// Loading `tree` into `w` needs more object identifiers than the world
/// can hand out.
pub open spec fn over_budget(w: World, tree: NodeTree) -> bool {
    w.slot_count() + 1 + spawn_count_in(tree.children@, tree.roots@, tree.children@.len() as nat) >= 0xffff_ffff
}

/// `w1` is `w0` with `tree` loaded under the new object `root`: named
/// "glTF Scene", without properties or parent, its children the objects
/// built from the tree's roots in order; nothing of `w0` changed.
pub open spec fn scene_loaded(w0: World, w1: World, tree: NodeTree, root: GameObjectId) -> bool {
    &&& w1.has(root)
    &&& !w0.has(root)
    &&& w1.name_of(root) == "glTF Scene"@
    &&& w1.props_of(root) == Seq::<Property>::empty()
    &&& w1.parent_of(root) is None
    &&& mirrors_all(w1, w0, tree, w1.children_of(root), tree.roots@, tree.children@.len() as nat)
    &&& keeps_old(w0, w1, None)
    &&& w1.slot_count() == w0.slot_count() + 1 + spawn_count_in(tree.children@, tree.roots@, tree.children@.len() as nat)
}

impl SceneLoader {
    /// Builds the object of node `n` and, while fuel lasts, the objects of
    /// its descendants, each linked under the object made from its parent
    /// node. The new object has no parent and is not placed at the root
    /// level; nothing that existed before changes.
    pub fn spawn_node(world: &mut World, tree: &NodeTree, n: usize, fuel: usize) -> (id: GameObjectId)
        requires
            old(world).refs_valid(),
            old(world).consistent(),
            old(world).slot_count() + spawn_count(tree.children@, n, fuel as nat) < 0xffff_ffff,
        ensures
            mirrors(*final(world), *old(world), *tree, id, n, fuel as nat),
            final(world).parent_of(id) is None,
            keeps_old(*old(world), *final(world), None),
            final(world).slot_count() == old(world).slot_count() + spawn_count(tree.children@, n, fuel as nat),
            final(world).refs_valid(),
            final(world).consistent(),
        decreases fuel, 0nat,
    {
        let name: String = if n < tree.names.len() {
            match &tree.names[n] {
                Some(s) => Self::node_name(Some(s.as_str())),
                None => Self::node_name(None),
            }
        } else {
            Self::node_name(None)
        };
        let ghost w0 = *world;
        let obj = world.new_object(name);
        let ghost wn = *world;
        if n < tree.properties.len() {
            let props = clone_properties(&tree.properties[n]);
            GameObject::add_properties(world, obj, props);
        }
        let ghost w1 = *world;
        proof {
            assert(only_props_changed(wn, w1, obj));
            assert(wn.has(obj));
            assert forall|x: GameObjectId| #[trigger] w0.has(x) implies {
                &&& w1.has(x)
                &&& w1.name_of(x) == w0.name_of(x)
                &&& w1.props_of(x) == w0.props_of(x)
                &&& w1.parent_of(x) == w0.parent_of(x)
                &&& w1.children_of(x) == w0.children_of(x)
            } by {
                assert(wn.has(x));
            }
            assert forall|x: GameObjectId| #[trigger] w1.has(x) == wn.has(x) by {}
            assert(w1.has(obj));
            assert(w1.name_of(obj) == wn.name_of(obj));
            assert(w1.parent_of(obj) is None);
            assert(w1.children_of(obj).len() == 0);
            assert(!w0.has(obj));
        }
        assert(w1.props_of(obj) == node_props(*tree, n as int));
        if fuel > 0 && n < tree.children.len() {
            Self::spawn_children(world, tree, obj, &tree.children[n], fuel - 1);
            proof {
                assert(world.children_of(obj).skip(0) =~= world.children_of(obj));
                lemma_mirrors_all_base(*world, w1, w0, *tree, world.children_of(obj),
                    kids(tree.children@, n as int), (fuel - 1) as nat);
            }
        } else {
            proof {
                if fuel > 0 {
                    assert(kids(tree.children@, n as int) =~= Seq::<usize>::empty());
                }
            }
        }
        obj
    }

    /// Builds the objects of the nodes `ns`, in order, and appends each to
    /// the children of `obj`.
    fn spawn_children(world: &mut World, tree: &NodeTree, obj: GameObjectId, ns: &Vec<usize>, fuel: usize)
        requires
            old(world).refs_valid(),
            old(world).consistent(),
            old(world).has(obj),
            old(world).slot_count() + spawn_count_in(tree.children@, ns@, fuel as nat) < 0xffff_ffff,
        ensures
            final(world).children_of(obj).len() == old(world).children_of(obj).len() + ns@.len(),
            final(world).children_of(obj).take(old(world).children_of(obj).len() as int) == old(world).children_of(obj),
            mirrors_all(*final(world), *old(world), *tree,
                final(world).children_of(obj).skip(old(world).children_of(obj).len() as int), ns@, fuel as nat),
            keeps_old(*old(world), *final(world), Some(obj)),
            final(world).slot_count() == old(world).slot_count() + spawn_count_in(tree.children@, ns@, fuel as nat),
            final(world).refs_valid(),
            final(world).consistent(),
        decreases fuel, 1nat,
    {
        let ghost w0 = *world;
        let ghost l0 = w0.children_of(obj).len();
        let ghost total = w0.slot_count() + spawn_count_in(tree.children@, ns@, fuel as nat);
        let mut k: usize = 0;
        assert(ns@.skip(0) =~= ns@);
        assert(world.children_of(obj).take(l0 as int) =~= w0.children_of(obj));
        while k < ns.len()
            invariant
                k <= ns@.len(),
                w0.refs_valid(),
                w0.has(obj),
                world.refs_valid(),
                world.consistent(),
                keeps_old(w0, *world, Some(obj)),
                l0 == w0.children_of(obj).len(),
                world.children_of(obj).len() == l0 + k,
                world.children_of(obj).take(l0 as int) == w0.children_of(obj),
                forall|j: int| 0 <= j < k ==> #[trigger] mirrors(*world, w0, *tree,
                    world.children_of(obj)[l0 + j], ns@[j], fuel as nat),
                total == w0.slot_count() + spawn_count_in(tree.children@, ns@, fuel as nat),
                total < 0xffff_ffff,
                world.slot_count() + spawn_count_in(tree.children@, ns@.skip(k as int), fuel as nat) == total,
            decreases ns@.len() - k,
        {
            let ghost wk = *world;
            assert(ns@.skip(k as int).drop_first() =~= ns@.skip(k as int + 1));
            assert(ns@.skip(k as int)[0] == ns@[k as int]);
            let cid = Self::spawn_node(world, tree, ns[k], fuel);
            let ghost wk2 = *world;
            proof {
                assert forall|j: int| 0 <= j < k implies #[trigger] mirrors(wk2, w0, *tree,
                    wk2.children_of(obj)[l0 + j], ns@[j], fuel as nat) by {
                    assert(mirrors(wk, w0, *tree, wk.children_of(obj)[l0 + j], ns@[j], fuel as nat));
                    lemma_mirrors_frame(wk, wk2, w0, *tree, wk.children_of(obj)[l0 + j], ns@[j], fuel as nat);
                }
                lemma_mirrors_base(wk2, wk, w0, *tree, cid, ns@[k as int], fuel as nat);
                wk.lemma_roots_live();
                assert(!wk2.roots().contains(cid));
            }
            GameObject::add_child(world, obj, cid);
            proof {
                world.lemma_same_nodes_ids(wk2);
                assert(world.children_of(obj) == wk2.children_of(obj).push(cid));
                assert(world.roots() =~= wk2.roots());
                assert forall|x: GameObjectId| wk2.has(x) && !w0.has(x) implies #[trigger] world.children_of(x) == wk2.children_of(x) by {
                    assert(x != obj);
                }
                assert forall|j: int| 0 <= j <= k implies #[trigger] mirrors(*world, w0, *tree,
                    world.children_of(obj)[l0 + j], ns@[j], fuel as nat) by {
                    if j < k {
                        assert(wk2.children_of(obj)[l0 + j] == world.children_of(obj)[l0 + j]);
                        assert(mirrors(wk2, w0, *tree, wk2.children_of(obj)[l0 + j], ns@[j], fuel as nat));
                        lemma_mirrors_frame(wk2, *world, w0, *tree, wk2.children_of(obj)[l0 + j], ns@[j], fuel as nat);
                    } else {
                        lemma_mirrors_frame(wk2, *world, w0, *tree, cid, ns@[k as int], fuel as nat);
                    }
                }
                assert(world.children_of(obj).take(l0 as int) =~= wk2.children_of(obj).take(l0 as int));
            }
            k += 1;
        }
        proof {
            let ids = world.children_of(obj).skip(l0 as int);
            assert forall|j: int| 0 <= j < ns@.len() implies #[trigger] mirrors(*world, w0, *tree,
                ids[j], ns@[j], fuel as nat) by {
                assert(ids[j] == world.children_of(obj)[l0 + j]);
            }
            lemma_mirrors_all_index(*world, w0, *tree, ids, ns@, fuel as nat);
            assert(ns@.skip(k as int) =~= Seq::<usize>::empty());
        }
    }

    /// Loads a scene into `world`: a new object named "glTF Scene" whose
    /// children are the objects built from the scene's root nodes, in order.
    /// The scene object is not placed at the root level. Where the world
    /// cannot hand out identifiers for all the objects, nothing is built and
    /// the result is `None`.
    pub fn load_into_world(world: &mut World, tree: &NodeTree) -> (r: Option<GameObjectId>)
        requires
            old(world).refs_valid(),
            old(world).consistent(),
        ensures
            r is None <==> over_budget(*old(world), *tree),
            r is None ==> *final(world) == *old(world),
            r matches Some(root) ==> scene_loaded(*old(world), *final(world), *tree, root),
            final(world).refs_valid(),
            final(world).consistent(),
    {
        let used = world.slots_used() as u64;
        if used >= 0xffff_fffeu64 {
            return None;
        }
        match tree.object_count(0xffff_fffeu64 - used) {
            None => None,
            Some(_) => {
                let ghost w0 = *world;
                let root = world.new_object("glTF Scene".to_owned());
                let ghost w1 = *world;
                Self::spawn_children(world, tree, root, &tree.roots, tree.children.len());
                proof {
                    assert(world.children_of(root).skip(0) =~= world.children_of(root));
                    lemma_mirrors_all_base(*world, w1, w0, *tree, world.children_of(root),
                        tree.roots@, tree.children@.len() as nat);
                }
                Some(root)
            },
        }
    }
}

/// What the search finds is a node from which a mesh loads.
proof fn lemma_first_loadable_loads(children: Seq<Vec<usize>>, loads: Seq<bool>, n: usize, fuel: nat)
    ensures
        first_loadable(children, loads, n, fuel) matches Some(i) ==> i < loads.len() && loads[i as int],
    decreases fuel, 0nat,
{
    if fuel > 0 && !(n < loads.len() && loads[n as int]) {
        lemma_first_loadable_in_loads(children, loads, kids(children, n as int), (fuel - 1) as nat);
    }
}

/// What the search among several nodes finds is a node from which a mesh loads.
proof fn lemma_first_loadable_in_loads(children: Seq<Vec<usize>>, loads: Seq<bool>, ns: Seq<usize>, fuel: nat)
    ensures
        first_loadable_in(children, loads, ns, fuel) matches Some(i) ==> i < loads.len() && loads[i as int],
    decreases fuel, ns.len(),
{
    if ns.len() > 0 {
        lemma_first_loadable_loads(children, loads, ns[0], fuel);
        lemma_first_loadable_in_loads(children, loads, ns.drop_first(), fuel);
    }
}

} // verus!
