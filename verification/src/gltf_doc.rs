//! Reading the node hierarchy of a glTF scene from the bytes of a glTF or
//! GLB file, and loading it into the world.

use crate::ids::GameObjectId;
use crate::node_tree::{over_budget, scene_loaded, NodeTree};
use crate::properties::Property;
use crate::scene::World;
use crate::scene_loader::SceneLoader;
use vstd::prelude::*;

verus! {

/// Why a glTF file could not be loaded into the world.
#[derive(Clone, Copy, PartialEq, Eq, Structural, Debug)]
pub enum SceneLoadError {
    /// The bytes are no glTF document whose buffers load and whose images
    /// lie within its buffers.
    Import,
    /// The document has no scene.
    NoScene,
    /// The world cannot hand out identifiers for all the objects.
    TooManyObjects,
}

/// What a JSON text is: an object with its members (in key order), another
/// JSON value, or no JSON at all.
pub enum JsonObject {
    Members(Vec<Property>),
    NotObject,
    Invalid,
}

/// Whether `gltf::Gltf::from_slice` reads and validates `bytes`.
pub uninterp spec fn gltf_parses_of(bytes: Seq<u8>) -> bool;

/// The names of the document's nodes, in node order (`Node::name`).
pub uninterp spec fn gltf_node_names_of(bytes: Seq<u8>) -> Seq<Option<String>>;

/// The child indices of each node, in node order (`Node::children`).
pub uninterp spec fn gltf_node_children_of(bytes: Seq<u8>) -> Seq<Vec<usize>>;

/// The raw JSON text of each node's extra data (`Node::extras`).
pub uninterp spec fn gltf_node_extras_of(bytes: Seq<u8>) -> Seq<Option<String>>;

/// The root node indices of each scene, in scene order (`Scene::nodes`).
pub uninterp spec fn gltf_scene_roots_of(bytes: Seq<u8>) -> Seq<Vec<usize>>;

/// The index of the document's default scene (`Document::default_scene`).
pub uninterp spec fn gltf_default_scene_of(bytes: Seq<u8>) -> Option<usize>;

/// The URI of each buffer, `None` for the GLB binary chunk (`Buffer::source`).
pub uninterp spec fn gltf_buffer_uris_of(bytes: Seq<u8>) -> Seq<Option<String>>;

/// For each image held in a buffer view: the buffer, the offset and the
/// length of the view; `None` for an image given by a URI (`Image::source`).
pub uninterp spec fn gltf_image_views_of(bytes: Seq<u8>) -> Seq<Option<(usize, usize, usize)>>;

/// The lengths of the buffers `gltf::import_buffers` loads without a base
/// path, or `None` when loading fails.
pub uninterp spec fn gltf_buffer_lengths_of(bytes: Seq<u8>) -> Option<Seq<usize>>;

/// What `serde_json::from_str::<serde_json::Value>` makes of `text`, told
/// apart by whether it is an object.
pub uninterp spec fn json_object_of(text: Seq<char>) -> JsonObject;

/// Calls `gltf::Gltf::from_slice`, which parses and validates the
/// document; it reads the bytes alone.
#[verifier::external_body]
fn gltf_parses(bytes: &[u8]) -> (r: bool)
    ensures
        r == gltf_parses_of(bytes@),
{
    gltf::Gltf::from_slice(bytes).is_ok()
}

/// Reads the document and lists `Node::name` of each node.
#[verifier::external_body]
fn gltf_node_names(bytes: &[u8]) -> (r: Vec<Option<String>>)
    requires
        gltf_parses_of(bytes@),
    ensures
        r@ == gltf_node_names_of(bytes@),
{
    gltf::Gltf::from_slice(bytes).unwrap().nodes().map(|n| n.name().map(|s| s.to_string())).collect()
}

/// Reads the document and lists, for each node, `Node::children` by index.
#[verifier::external_body]
fn gltf_node_children(bytes: &[u8]) -> (r: Vec<Vec<usize>>)
    requires
        gltf_parses_of(bytes@),
    ensures
        r@ == gltf_node_children_of(bytes@),
{
    gltf::Gltf::from_slice(bytes).unwrap().nodes().map(|n| n.children().map(|c| c.index()).collect()).collect()
}

/// Reads the document and lists the raw JSON text of `Node::extras`.
#[verifier::external_body]
fn gltf_node_extras(bytes: &[u8]) -> (r: Vec<Option<String>>)
    requires
        gltf_parses_of(bytes@),
    ensures
        r@ == gltf_node_extras_of(bytes@),
{
    gltf::Gltf::from_slice(bytes).unwrap().nodes().map(|n| n.extras().as_ref().map(|e| e.get().to_string())).collect()
}

/// Reads the document and lists, for each scene, `Scene::nodes` by index.
#[verifier::external_body]
fn gltf_scene_roots(bytes: &[u8]) -> (r: Vec<Vec<usize>>)
    requires
        gltf_parses_of(bytes@),
    ensures
        r@ == gltf_scene_roots_of(bytes@),
{
    gltf::Gltf::from_slice(bytes).unwrap().scenes().map(|s| s.nodes().map(|n| n.index()).collect()).collect()
}

/// Reads the document and gives the index of `Document::default_scene`.
#[verifier::external_body]
fn gltf_default_scene(bytes: &[u8]) -> (r: Option<usize>)
    requires
        gltf_parses_of(bytes@),
    ensures
        r == gltf_default_scene_of(bytes@),
{
    gltf::Gltf::from_slice(bytes).unwrap().default_scene().map(|s| s.index())
}

/// Reads the document and lists `Buffer::source` of each buffer.
#[verifier::external_body]
fn gltf_buffer_uris(bytes: &[u8]) -> (r: Vec<Option<String>>)
    requires
        gltf_parses_of(bytes@),
    ensures
        r@ == gltf_buffer_uris_of(bytes@),
{
    gltf::Gltf::from_slice(bytes).unwrap().buffers().map(|b| match b.source() {
        gltf::buffer::Source::Uri(u) => Some(u.to_string()),
        gltf::buffer::Source::Bin => None,
    }).collect()
}

/// Reads the document and lists `Image::source` of each image as the
/// buffer view it lies in.
#[verifier::external_body]
fn gltf_image_views(bytes: &[u8]) -> (r: Vec<Option<(usize, usize, usize)>>)
    requires
        gltf_parses_of(bytes@),
    ensures
        r@ == gltf_image_views_of(bytes@),
{
    gltf::Gltf::from_slice(bytes).unwrap().images().map(|i| match i.source() {
        gltf::image::Source::View { view, .. } => Some((view.buffer().index(), view.offset(), view.length())),
        gltf::image::Source::Uri { .. } => None,
    }).collect()
}

/// Calls `gltf::import_buffers` without a base path on the document and
/// gives the lengths of the loaded buffers. Without a base path a buffer
/// URI without a scheme goes through `urlencoding::decode(..).unwrap()`,
/// which panics on escapes that decode to no UTF-8; the `requires` leaves
/// such URIs out.
#[verifier::external_body]
fn gltf_buffer_lengths(bytes: &[u8]) -> (r: Option<Vec<usize>>)
    requires
        gltf_parses_of(bytes@),
        forall|i: int| 0 <= i < gltf_buffer_uris_of(bytes@).len() ==> !is_relative_uri(gltf_buffer_uris_of(bytes@)[i]),
    ensures
        match r {
            Some(v) => gltf_buffer_lengths_of(bytes@) == Some(v@),
            None => gltf_buffer_lengths_of(bytes@) is None,
        },
{
    let g = gltf::Gltf::from_slice(bytes).unwrap();
    gltf::import_buffers(&g.document, None, g.blob).ok().map(|d| d.into_iter().map(|b| b.0.len()).collect())
}

/// Calls `serde_json::from_str::<serde_json::Value>` on `text` and tells an
/// object (its members, in the map's key order) from another value and
/// from a parse error.
#[verifier::external_body]
fn json_object(text: &str) -> (r: JsonObject)
    ensures
        r == json_object_of(text@),
{
    match serde_json::from_str::<serde_json::Value>(text) {
        Ok(serde_json::Value::Object(map)) => JsonObject::Members(map.into_iter().collect()),
        Ok(_) => JsonObject::NotObject,
        Err(_) => JsonObject::Invalid,
    }
}

/// A URI without a scheme, which names a file next to the glTF file.
pub open spec fn is_relative_uri(u: Option<String>) -> bool {
    u matches Some(s) && !s@.contains(':')
}

/// The image view `v` lies within the loaded buffers of lengths `lens`.
pub open spec fn view_fits(v: Option<(usize, usize, usize)>, lens: Seq<usize>) -> bool {
    match v {
        None => true,
        Some((b, off, len)) => b < lens.len() && off + len <= lens[b as int],
    }
}

/// The glTF file `bytes` imports from memory as far as its document and
/// buffers go: the document reads and validates; no buffer names a file
/// (without a base path that fails, and where the name does not decode,
/// importing panics); the buffers load; every image lies in a buffer view
/// (an image given by a URI cannot be read without a base path) within its
/// loaded buffer (past it, importing panics). The decoding of the images
/// themselves is left to the texture path and is not part of this.
pub open spec fn gltf_import_ok(bytes: Seq<u8>) -> bool {
    let uris = gltf_buffer_uris_of(bytes);
    let views = gltf_image_views_of(bytes);
    &&& gltf_parses_of(bytes)
    &&& forall|i: int| 0 <= i < uris.len() ==> !is_relative_uri(uris[i])
    &&& gltf_buffer_lengths_of(bytes) matches Some(lens)
    &&& forall|i: int| 0 <= i < views.len() ==> views[i] is Some && view_fits(views[i], lens)
}

/// The custom properties a node's extra data holds: the members of a JSON
/// object; none for other extra data or none at all.
pub open spec fn props_from_extras(e: Option<String>) -> Seq<Property> {
    match e {
        Some(t) => match json_object_of(t@) {
            JsonObject::Members(m) => m@,
            _ => Seq::empty(),
        },
        None => Seq::empty(),
    }
}

/// The roots of the scene a loader reads: those of the default scene, or
/// else of the first scene; `None` where there is no such scene.
pub open spec fn chosen_roots(scene_roots: Seq<Vec<usize>>, default_scene: Option<usize>) -> Option<Seq<usize>> {
    match default_scene {
        Some(s) => if s < scene_roots.len() {
            Some(scene_roots[s as int]@)
        } else {
            None
        },
        None => if scene_roots.len() > 0 {
            Some(scene_roots[0]@)
        } else {
            None
        },
    }
}

/// `t` is the node tree of the chosen scene of a document with these parts.
pub open spec fn tree_from_parts(
    names: Seq<Option<String>>,
    children: Seq<Vec<usize>>,
    extras: Seq<Option<String>>,
    scene_roots: Seq<Vec<usize>>,
    default_scene: Option<usize>,
    t: NodeTree,
) -> bool {
    &&& t.names@ == names
    &&& t.children@ == children
    &&& chosen_roots(scene_roots, default_scene) == Some(t.roots@)
    &&& t.properties@.len() == extras.len()
    &&& forall|i: int| 0 <= i < extras.len() ==> #[trigger] t.properties@[i]@ == props_from_extras(extras[i])
}

/// `t` is the node tree of the chosen scene of the glTF file `bytes`.
pub open spec fn tree_of_bytes(bytes: Seq<u8>, t: NodeTree) -> bool {
    tree_from_parts(
        gltf_node_names_of(bytes),
        gltf_node_children_of(bytes),
        gltf_node_extras_of(bytes),
        gltf_scene_roots_of(bytes),
        gltf_default_scene_of(bytes),
        t,
    )
}

/// The custom properties of each node from its extra data.
fn properties_from_extras(extras: &Vec<Option<String>>) -> (r: Vec<Vec<Property>>)
    ensures
        r@.len() == extras@.len(),
        forall|i: int| 0 <= i < extras@.len() ==> #[trigger] r@[i]@ == props_from_extras(extras@[i]),
{
    let mut out: Vec<Vec<Property>> = Vec::new();
    let mut i: usize = 0;
    while i < extras.len()
        invariant
            i <= extras@.len(),
            out@.len() == i,
            forall|j: int| 0 <= j < i ==> #[trigger] out@[j]@ == props_from_extras(extras@[j]),
        decreases extras@.len() - i,
    {
        let props: Vec<Property> = match &extras[i] {
            Some(t) => match json_object(t.as_str()) {
                JsonObject::Members(m) => m,
                _ => Vec::new(),
            },
            None => Vec::new(),
        };
        out.push(props);
        i += 1;
    }
    out
}

impl SceneLoader {
    /// The node tree of the scene a loader reads from a document with these
    /// parts: the default scene, else the first one; `None` where the
    /// document has no such scene. A node's properties are the members of
    /// its extra data where that is a JSON object, else none.
    pub fn scene_tree(
        names: Vec<Option<String>>,
        children: Vec<Vec<usize>>,
        extras: &Vec<Option<String>>,
        scene_roots: Vec<Vec<usize>>,
        default_scene: Option<usize>,
    ) -> (r: Option<NodeTree>)
        ensures
            match r {
                Some(t) => tree_from_parts(names@, children@, extras@, scene_roots@, default_scene, t),
                None => chosen_roots(scene_roots@, default_scene) is None,
            },
    {
        let mut scene_roots = scene_roots;
        let idx: usize = match default_scene {
            Some(s) => {
                if s >= scene_roots.len() {
                    return None;
                }
                s
            },
            None => {
                if scene_roots.len() == 0 {
                    return None;
                }
                0
            },
        };
        let roots = scene_roots.remove(idx);
        let properties = properties_from_extras(extras);
        Some(NodeTree { names, children, properties, roots })
    }

    /// Whether the glTF (or GLB) file `model` imports from memory as far as
    /// its document and buffers go (see [`gltf_import_ok`]); the images in
    /// it are decoded when their textures are loaded.
    pub fn gltf_import_succeeds(model: &[u8]) -> (r: bool)
        ensures
            r == gltf_import_ok(model@),
    {
        if !gltf_parses(model) {
            return false;
        }
        let uris = gltf_buffer_uris(model);
        let mut i: usize = 0;
        while i < uris.len()
            invariant
                uris@ == gltf_buffer_uris_of(model@),
                i <= uris@.len(),
                forall|j: int| 0 <= j < i ==> !is_relative_uri(#[trigger] uris@[j]),
            decreases uris@.len() - i,
        {
            if let Some(u) = &uris[i] {
                if !has_colon(u.as_str()) {
                    return false;
                }
            }
            i += 1;
        }
        let lens = match gltf_buffer_lengths(model) {
            Some(l) => l,
            None => {
                return false;
            },
        };
        let views = gltf_image_views(model);
        let mut k: usize = 0;
        while k < views.len()
            invariant
                views@ == gltf_image_views_of(model@),
                gltf_buffer_lengths_of(model@) == Some(lens@),
                k <= views@.len(),
                forall|j: int| 0 <= j < k ==> #[trigger] views@[j] is Some && view_fits(views@[j], lens@),
            decreases views@.len() - k,
        {
            match views[k] {
                Some((b, off, len)) => {
                    if b >= lens.len() || off > lens[b] || len > lens[b] - off {
                        return false;
                    }
                },
                None => {
                    return false;
                },
            }
            k += 1;
        }
        true
    }

    /// Reads the glTF (or GLB) file `model` from memory and gives the node
    /// tree of its default scene, else its first scene.
    pub fn load_scene_from_buffer(model: &[u8]) -> (r: Result<NodeTree, SceneLoadError>)
        ensures
            match r {
                Ok(t) => gltf_import_ok(model@) && tree_of_bytes(model@, t),
                Err(SceneLoadError::Import) => !gltf_import_ok(model@),
                Err(SceneLoadError::NoScene) => gltf_import_ok(model@) && chosen_roots(
                    gltf_scene_roots_of(model@),
                    gltf_default_scene_of(model@),
                ) is None,
                Err(SceneLoadError::TooManyObjects) => false,
            },
    {
        if !Self::gltf_import_succeeds(model) {
            return Err(SceneLoadError::Import);
        }
        let extras = gltf_node_extras(model);
        match Self::scene_tree(
            gltf_node_names(model),
            gltf_node_children(model),
            &extras,
            gltf_scene_roots(model),
            gltf_default_scene(model),
        ) {
            Some(t) => Ok(t),
            None => Err(SceneLoadError::NoScene),
        }
    }

    /// Loads the glTF (or GLB) file `model` from memory into `world`: the
    /// tree of its default scene, else its first scene, under a new
    /// "glTF Scene" object (see [`SceneLoader::load_into_world`]). On an
    /// error the world is left as it was.
    pub fn load_buffer(world: &mut World, model: &[u8]) -> (r: Result<GameObjectId, SceneLoadError>)
        requires
            old(world).refs_valid(),
            old(world).consistent(),
        ensures
            match r {
                Err(SceneLoadError::Import) => !gltf_import_ok(model@),
                Err(SceneLoadError::NoScene) => gltf_import_ok(model@) && chosen_roots(
                    gltf_scene_roots_of(model@),
                    gltf_default_scene_of(model@),
                ) is None,
                Err(SceneLoadError::TooManyObjects) => gltf_import_ok(model@) && exists|t: NodeTree|
                    #[trigger] tree_of_bytes(model@, t) && over_budget(*old(world), t),
                Ok(root) => gltf_import_ok(model@) && exists|t: NodeTree|
                    #[trigger] tree_of_bytes(model@, t) && !over_budget(*old(world), t)
                        && scene_loaded(*old(world), *final(world), t, root),
            },
            r is Err ==> *final(world) == *old(world),
            final(world).refs_valid(),
            final(world).consistent(),
    {
        let tree = match Self::load_scene_from_buffer(model) {
            Ok(t) => t,
            Err(e) => {
                return Err(e);
            },
        };
        let ghost w0 = *world;
        match Self::load_into_world(world, &tree) {
            Some(root) => {
                assert(tree_of_bytes(model@, tree) && !over_budget(w0, tree));
                Ok(root)
            },
            None => {
                assert(tree_of_bytes(model@, tree) && over_budget(w0, tree));
                Err(SceneLoadError::TooManyObjects)
            },
        }
    }
}

/// Whether `s` holds a colon.
fn has_colon(s: &str) -> (r: bool)
    ensures
        r == s@.contains(':'),
{
    let chars = crate::text::chars_of(s);
    let mut i: usize = 0;
    while i < chars.len()
        invariant
            chars@ == s@,
            i <= chars@.len(),
            forall|j: int| 0 <= j < i ==> chars@[j] != ':',
        decreases chars@.len() - i,
    {
        if chars[i] == ':' {
            assert(s@[i as int] == ':');
            return true;
        }
        i += 1;
    }
    false
}

} // verus!
