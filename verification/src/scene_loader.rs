//! The integer side of loading glTF scenes: which primitive corners become
//! mesh vertices, material ranges, joint indices, the bone hierarchy,
//! image formats and light kinds. Reading the glTF document and all float
//! data is done by the caller with these plans.

use crate::components::LightType;
use crate::text::{chars_of, decimal, decimal_chars_u64, string_from_chars};
use crate::texture::{has_translucent_alpha, is_pixel_texture, Texture, TextureFormat};
use std::ops::Range;
use vstd::prelude::*;

verus! {

/// Loads glTF scenes; the functions here decide the structure of what is
/// loaded.
pub struct SceneLoader;

/// What a mesh primitive offers: whether it has positions, how many
/// vertices it has, its index list, whether it draws triangles, and its
/// material.
pub struct PrimitiveInfo {
    pub has_positions: bool,
    pub vertex_count: usize,
    pub indices: Option<Vec<u32>>,
    pub triangles: bool,
    pub material: Option<usize>,
}

/// The vertices of a loaded mesh, each a (primitive, vertex) pair, the
/// vertex range of each triangle primitive, and each one's material.
pub struct MeshPlan {
    pub corners: Vec<(usize, u32)>,
    pub ranges: Vec<Range<u32>>,
    pub materials: Vec<u32>,
}

/// The vertex numbers a primitive's triangles are drawn from: its index
/// list, or its vertices in order, cut to whole triangles.
pub open spec fn primitive_corners(p: PrimitiveInfo) -> Seq<u32> {
    let idx = match p.indices {
        Some(i) => i@,
        None => Seq::new((p.vertex_count as u32) as nat, |k: int| k as u32),
    };
    idx.take((idx.len() / 3 * 3) as int)
}

/// The plan built from the primitives `ps`, the `i`-th onwards, added to
/// `acc`: triangle primitives contribute their corners, a range and a
/// material (0 when they have none); others are skipped. `None` when a
/// primitive has no positions.
pub open spec fn plan_from(
    ps: Seq<PrimitiveInfo>,
    i: int,
    acc: (Seq<(usize, u32)>, Seq<(u32, u32)>, Seq<u32>),
) -> Option<(Seq<(usize, u32)>, Seq<(u32, u32)>, Seq<u32>)>
    decreases ps.len() - i,
{
    if i >= ps.len() || i < 0 {
        Some(acc)
    } else if !ps[i].has_positions {
        None
    } else if !ps[i].triangles {
        plan_from(ps, i + 1, acc)
    } else {
        let cs = primitive_corners(ps[i]);
        let corners = acc.0 + Seq::new(cs.len(), |k: int| (i as usize, cs[k]));
        let begin = if acc.1.len() == 0 { 0u32 } else { acc.1.last().1 };
        let end = corners.len() as u32;
        plan_from(
            ps,
            i + 1,
            (corners, acc.1.push((begin, end)), acc.2.push(
                match ps[i].material {
                    Some(m) => m as u32,
                    None => 0u32,
                },
            )),
        )
    }
}


/// The plan of a mesh made of the primitives `ps`: `None` when a primitive
/// has no positions or no triangle corner is left.
pub open spec fn mesh_plan_spec(ps: Seq<PrimitiveInfo>) -> Option<(Seq<(usize, u32)>, Seq<(u32, u32)>, Seq<u32>)> {
    match plan_from(ps, 0, (Seq::empty(), Seq::empty(), Seq::empty())) {
        Some(a) => if a.0.len() > 0 {
            Some(a)
        } else {
            None
        },
        None => None,
    }
}

/// The range list as pairs of bounds.
pub open spec fn range_bounds(rs: Seq<Range<u32>>) -> Seq<(u32, u32)> {
    Seq::new(rs.len(), |i: int| (rs[i].start, rs[i].end))
}

fn primitive_corner_list(p: &PrimitiveInfo) -> (r: Vec<u32>)
    ensures
        r@ == primitive_corners(*p),
{
    let mut idx: Vec<u32> = Vec::new();
    let ghost full = match &p.indices {
        Some(i) => i@,
        None => Seq::new((p.vertex_count as u32) as nat, |k: int| k as u32),
    };
    match &p.indices {
        Some(i) => {
            let mut k: usize = 0;
            while k < i.len()
                invariant
                    0 <= k <= i@.len(),
                    idx@ =~= i@.take(k as int),
                decreases i@.len() - k,
            {
                idx.push(i[k]);
                k += 1;
            }
            assert(i@.take(i@.len() as int) =~= i@);
        },
        None => {
            let n: u32 = p.vertex_count as u32;
            let mut k: u32 = 0;
            while k < n
                invariant
                    0 <= k <= n,
                    n == (p.vertex_count as u32),
                    idx@ =~= Seq::new(n as nat, |j: int| j as u32).take(k as int),
                decreases n - k,
            {
                idx.push(k);
                k += 1;
            }
        },
    }
    assert(idx@ =~= full);
    let whole: usize = idx.len() / 3 * 3;
    let mut out: Vec<u32> = Vec::new();
    let mut k: usize = 0;
    while k < whole
        invariant
            whole == idx@.len() / 3 * 3,
            whole <= idx@.len(),
            0 <= k <= whole,
            out@ =~= idx@.take(k as int),
        decreases whole - k,
    {
        out.push(idx[k]);
        k += 1;
    }
    out
}

impl SceneLoader {
    /// The vertex plan of a glTF mesh from its primitives, in order: each
    /// triangle primitive adds its corners, a vertex range continuing the
    /// previous one, and its material index (0 when it has none);
    /// primitives drawing other shapes are skipped. There is no mesh when
    /// a primitive has no positions or no corner is found.
    pub fn mesh_plan(ps: &Vec<PrimitiveInfo>) -> (r: Option<MeshPlan>)
        ensures
            match mesh_plan_spec(ps@) {
                Some(a) => r matches Some(plan) && plan.corners@ == a.0 && range_bounds(plan.ranges@) == a.1
                    && plan.materials@ == a.2,
                None => r is None,
            },
    {
        let mut corners: Vec<(usize, u32)> = Vec::new();
        let mut ranges: Vec<Range<u32>> = Vec::new();
        let mut materials: Vec<u32> = Vec::new();
        let mut start_vertex: u32 = 0;
        let mut i: usize = 0;
        assert(range_bounds(ranges@) =~= Seq::<(u32, u32)>::empty());
        while i < ps.len()
            invariant
                0 <= i <= ps@.len(),
                start_vertex == if ranges@.len() == 0 { 0u32 } else { ranges@.last().end },
                plan_from(ps@, 0, (Seq::empty(), Seq::empty(), Seq::empty())) == plan_from(
                    ps@,
                    i as int,
                    (corners@, range_bounds(ranges@), materials@),
                ),
            decreases ps@.len() - i,
        {
            let p = &ps[i];
            if !p.has_positions {
                return None;
            }
            if p.triangles {
                let cs = primitive_corner_list(p);
                let ghost before = corners@;
                let mut k: usize = 0;
                while k < cs.len()
                    invariant
                        0 <= k <= cs@.len(),
                        corners@ =~= before + Seq::new(k as nat, |j: int| (i, cs@[j])),
                    decreases cs@.len() - k,
                {
                    corners.push((i, cs[k]));
                    k += 1;
                }
                let end: u32 = corners.len() as u32;
                let ghost rb = range_bounds(ranges@);
                ranges.push(Range { start: start_vertex, end });
                assert(range_bounds(ranges@) =~= rb.push((start_vertex, end)));
                let m: u32 = match p.material {
                    Some(m) => m as u32,
                    None => 0,
                };
                materials.push(m);
                start_vertex = end;
                proof {
                    assert(corners@ =~= before + Seq::new(cs@.len(), |j: int| (i, cs@[j])));
                    if rb.len() > 0 {
                        assert(rb.last().1 == ranges@[rb.len() - 1].end);
                    }
                }
            }
            i += 1;
        }
        if corners.len() == 0 {
            return None;
        }
        Some(MeshPlan { corners, ranges, materials })
    }
}

/// The first position of `x` in `s`, if any.
pub open spec fn first_position(s: Seq<usize>, x: usize) -> Option<int> {
    if exists|k: int| 0 <= k < s.len() && s[k] == x {
        Some(choose|k: int| 0 <= k < s.len() && s[k] == x && forall|j: int| 0 <= j < k ==> s[j] != x)
    } else {
        None
    }
}

/// The bone parent of joint `i`: the joint whose node is the parent of
/// joint `i`'s node, found by its first position among the joints, when
/// that position is not after `i`.
pub open spec fn bone_parent_spec(joints: Seq<usize>, node_parent: Seq<Option<usize>>, i: int) -> Option<usize> {
    let n = joints[i];
    if n < node_parent.len() {
        match node_parent[n as int] {
            Some(pn) => match first_position(joints, pn) {
                Some(local) => if local <= i {
                    Some(local as usize)
                } else {
                    None
                },
                None => None,
            },
            None => None,
        }
    } else {
        None
    }
}

proof fn lemma_first_position(s: Seq<usize>, x: usize, k: int)
    requires
        0 <= k <= s.len(),
        forall|j: int| 0 <= j < k ==> s[j] != x,
        k < s.len() ==> s[k] == x,
    ensures
        k < s.len() ==> first_position(s, x) == Some(k),
        k == s.len() ==> first_position(s, x) is None,
{
    if k < s.len() {
        assert(s[k] == x);
        let c = choose|c: int| 0 <= c < s.len() && s[c] == x && forall|j: int| 0 <= j < c ==> s[j] != x;
        assert(0 <= c < s.len() && s[c] == x && forall|j: int| 0 <= j < c ==> s[j] != x);
        if c < k {
            assert(s[c] != x);
        }
        if c > k {
            assert(s[k] != x);
        }
    }
}

fn position_of(s: &Vec<usize>, x: usize) -> (r: Option<usize>)
    ensures
        match r {
            Some(k) => first_position(s@, x) == Some(k as int),
            None => first_position(s@, x) is None,
        },
{
    let mut k: usize = 0;
    while k < s.len()
        invariant
            0 <= k <= s@.len(),
            forall|j: int| 0 <= j < k ==> s@[j] != x,
        decreases s@.len() - k,
    {
        if s[k] == x {
            proof {
                lemma_first_position(s@, x, k as int);
            }
            return Some(k);
        }
        k += 1;
    }
    proof {
        lemma_first_position(s@, x, k as int);
    }
    None
}

impl SceneLoader {
    /// The bone index a vertex's joint `j` refers to: `j` itself for one of
    /// the skin's `joint_count` joints, else bone 0.
    pub fn remap_joint(j: u16, joint_count: usize) -> (r: u32)
        ensures
            r == if (j as int) < joint_count { j as u32 } else { 0u32 },
    {
        if (j as usize) < joint_count {
            j as u32
        } else {
            0
        }
    }

    /// The bone parents of a skin's joints, given the glTF node of each joint
    /// and the parent node of each node.
    pub fn bone_parents(joints: &Vec<usize>, node_parent: &Vec<Option<usize>>) -> (r: Vec<Option<usize>>)
        ensures
            r@.len() == joints@.len(),
            forall|i: int| 0 <= i < joints@.len() ==> #[trigger] r@[i] == bone_parent_spec(joints@, node_parent@, i),
    {
        let mut out: Vec<Option<usize>> = Vec::new();
        let mut i: usize = 0;
        while i < joints.len()
            invariant
                0 <= i <= joints@.len(),
                out@.len() == i,
                forall|k: int| 0 <= k < i ==> #[trigger] out@[k] == bone_parent_spec(joints@, node_parent@, k),
            decreases joints@.len() - i,
        {
            let n = joints[i];
            let parent: Option<usize> = if n < node_parent.len() {
                match node_parent[n] {
                    Some(pn) => match position_of(joints, pn) {
                        Some(local) => if local <= i {
                            Some(local)
                        } else {
                            None
                        },
                        None => None,
                    },
                    None => None,
                }
            } else {
                None
            };
            out.push(parent);
            i += 1;
        }
        out
    }

    /// The children of each bone, in bone order, and the bones without a
    /// parent, in order.
    pub fn bone_children(parents: &Vec<Option<usize>>) -> (r: (Vec<Vec<usize>>, Vec<usize>))
        requires
            forall|i: int| 0 <= i < parents@.len() ==> (#[trigger] parents@[i] matches Some(p) ==> p < parents@.len()),
        ensures
            r.0@.len() == parents@.len(),
            forall|p: int| 0 <= p < parents@.len() ==> #[trigger] r.0@[p]@ == Seq::new(parents@.len(), |i: int| i as usize).filter(
                |i: usize| parents@[i as int] == Some(p as usize),
            ),
            r.1@ == Seq::new(parents@.len(), |i: int| i as usize).filter(|i: usize| parents@[i as int] is None),
    {
        let n = parents.len();
        let mut children: Vec<Vec<usize>> = Vec::new();
        let mut k: usize = 0;
        while k < n
            invariant
                n == parents@.len(),
                0 <= k <= n,
                children@.len() == k,
                forall|p: int| 0 <= p < k ==> (#[trigger] children@[p])@ == Seq::<usize>::empty(),
            decreases n - k,
        {
            children.push(Vec::new());
            k += 1;
        }
        let mut roots: Vec<usize> = Vec::new();
        let ghost idx = Seq::new(parents@.len(), |i: int| i as usize);
        let mut i: usize = 0;
        while i < n
            invariant
                n == parents@.len(),
                idx == Seq::new(parents@.len(), |j: int| j as usize),
                forall|j: int| 0 <= j < parents@.len() ==> (#[trigger] parents@[j] matches Some(p) ==> p < parents@.len()),
                0 <= i <= n,
                children@.len() == n,
                forall|p: int| 0 <= p < n ==> #[trigger] children@[p]@ == idx.take(i as int).filter(
                    |j: usize| parents@[j as int] == Some(p as usize),
                ),
                roots@ == idx.take(i as int).filter(|j: usize| parents@[j as int] is None),
            decreases n - i,
        {
            proof {
                assert(idx.take(i + 1) =~= idx.take(i as int).push(i as usize));
                idx.take(i as int).lemma_filter_push(i as usize, |j: usize| parents@[j as int] is None);
            }
            match parents[i] {
                None => {
                    roots.push(i);
                },
                Some(p) => {
                    let mut list: Vec<usize> = Vec::new();
                    std::mem::swap(&mut list, &mut children[p]);
                    list.push(i);
                    std::mem::swap(&mut list, &mut children[p]);
                },
            }
            proof {
                assert forall|q: int| 0 <= q < n implies #[trigger] children@[q]@ == idx.take(i + 1).filter(
                    |j: usize| parents@[j as int] == Some(q as usize),
                ) by {
                    idx.take(i as int).lemma_filter_push(i as usize, |j: usize| parents@[j as int] == Some(q as usize));
                }
            }
            i += 1;
        }
        assert(idx.take(n as int) =~= idx);
        (children, roots)
    }
}

/// The pixel layouts of glTF images.
#[derive(Clone, Copy, PartialEq, Eq, Structural, Debug)]
pub enum GltfImageFormat {
    R8,
    R8G8,
    R8G8B8,
    R8G8B8A8,
    R16,
    R16G16,
    R16G16B16,
    R16G16B16A16,
    R32G32B32FLOAT,
    R32G32B32A32FLOAT,
}

/// The texture format a glTF image layout is read as; three-channel 16-bit
/// and float layouts have none.
pub open spec fn gltf_texture_format(f: GltfImageFormat) -> Option<TextureFormat> {
    match f {
        GltfImageFormat::R8 => Some(TextureFormat::R8Unorm),
        GltfImageFormat::R8G8 => Some(TextureFormat::Rg8Unorm),
        GltfImageFormat::R8G8B8 => Some(TextureFormat::Rgba8UnormSrgb),
        GltfImageFormat::R8G8B8A8 => Some(TextureFormat::Rgba8UnormSrgb),
        GltfImageFormat::R16 => Some(TextureFormat::R16Unorm),
        GltfImageFormat::R16G16 => Some(TextureFormat::Rg16Snorm),
        GltfImageFormat::R16G16B16 => None,
        GltfImageFormat::R16G16B16A16 => Some(TextureFormat::Rgba16Unorm),
        GltfImageFormat::R32G32B32FLOAT => None,
        GltfImageFormat::R32G32B32A32FLOAT => Some(TextureFormat::Rgba32Float),
    }
}

/// `px` read in groups of three bytes (the last group may be shorter),
/// each group followed by an opaque alpha byte.
pub open spec fn rgb_to_rgba(px: Seq<u8>) -> Seq<u8>
    decreases px.len(),
{
    if px.len() == 0 {
        Seq::empty()
    } else {
        let n = if px.len() < 3 { px.len() as int } else { 3 };
        px.take(n).push(255u8) + rgb_to_rgba(px.skip(n))
    }
}

/// The pixel bytes of a glTF image as its texture holds them.
pub open spec fn gltf_texture_bytes(f: GltfImageFormat, px: Seq<u8>) -> Seq<u8> {
    if f == GltfImageFormat::R8G8B8 {
        rgb_to_rgba(px)
    } else {
        px
    }
}

fn expand_rgb(px: &Vec<u8>) -> (r: Vec<u8>)
    ensures
        r@ == rgb_to_rgba(px@),
{
    let mut out: Vec<u8> = Vec::new();
    let mut i: usize = 0;
    assert(px@.skip(0) =~= px@);
    while i < px.len()
        invariant
            0 <= i <= px@.len(),
            rgb_to_rgba(px@) == out@ + rgb_to_rgba(px@.skip(i as int)),
        decreases px@.len() - i,
    {
        let ghost rest = px@.skip(i as int);
        let n: usize = if px.len() - i < 3 { px.len() - i } else { 3 };
        let ghost before = out@;
        let mut k: usize = 0;
        while k < n
            invariant
                0 <= k <= n,
                n <= 3,
                i + n <= px@.len(),
                px@.len() == px.len(),
                out@ =~= before + px@.subrange(i as int, i + k),
            decreases n - k,
        {
            out.push(px[i + k]);
            k += 1;
        }
        out.push(255u8);
        proof {
            assert(rest.take(n as int) =~= px@.subrange(i as int, i + n));
            assert(rest.skip(n as int) =~= px@.skip(i + n));
            assert(out@ =~= before + rest.take(n as int).push(255u8));
        }
        i += n;
    }
    assert(px@.skip(px@.len() as int) =~= Seq::<u8>::empty());
    out
}

/// How glTF lights are classified.
#[derive(Clone, Copy, PartialEq, Eq, Structural, Debug)]
pub enum GltfLightKind {
    Directional,
    Point,
    Spot,
}

impl SceneLoader {
    /// The texture for a glTF image: none for three-channel 16-bit and float
    /// layouts; otherwise its pixels, three-channel 8-bit images widened
    /// with opaque alpha, loaded as sRGB RGBA.
    pub fn load_texture(format: GltfImageFormat, width: u32, height: u32, pixels: Vec<u8>) -> (r: Option<Texture>)
        ensures
            gltf_texture_format(format) is None ==> r is None,
            gltf_texture_format(format) is Some ==> (r matches Some(t) && is_pixel_texture(
                t,
                gltf_texture_bytes(format, pixels@),
                width,
                height,
                TextureFormat::Rgba8UnormSrgb,
                has_translucent_alpha(TextureFormat::Rgba8UnormSrgb, gltf_texture_bytes(format, pixels@)),
            )),
    {
        match format {
            GltfImageFormat::R16G16B16 | GltfImageFormat::R32G32B32FLOAT => {
                return None;
            },
            _ => {},
        }
        let data = if format == GltfImageFormat::R8G8B8 {
            expand_rgb(&pixels)
        } else {
            pixels
        };
        Some(Texture::load_pixels(data, width, height, TextureFormat::Rgba8UnormSrgb))
    }

    /// The light a glTF light kind becomes.
    pub fn light_type(kind: GltfLightKind) -> (r: LightType)
        ensures
            r == match kind {
                GltfLightKind::Directional => LightType::Sun,
                GltfLightKind::Point => LightType::Point,
                GltfLightKind::Spot => LightType::Spot,
            },
    {
        match kind {
            GltfLightKind::Directional => LightType::Sun,
            GltfLightKind::Point => LightType::Point,
            GltfLightKind::Spot => LightType::Spot,
        }
    }

    /// The name an object made from a glTF node gets: the node's name, or
    /// "Unnamed".
    pub fn node_name(name: Option<&str>) -> (r: String)
        ensures
            r@ == match name {
                Some(n) => n@,
                None => "Unnamed"@,
            },
    {
        match name {
            Some(n) => n.to_owned(),
            None => "Unnamed".to_owned(),
        }
    }

    /// The name of a skin joint: its node's name, or "<unnamed>".
    pub fn joint_name(name: Option<&str>) -> (r: String)
        ensures
            r@ == match name {
                Some(n) => n@,
                None => "<unnamed>"@,
            },
    {
        match name {
            Some(n) => n.to_owned(),
            None => "<unnamed>".to_owned(),
        }
    }

    /// The material a primitive is drawn with: the scene's material for its
    /// index if loaded, else the fallback material.
    pub fn resolve_material(scene_materials: &Vec<(u32, u32)>, id: u32, fallback: u32) -> (r: u32)
        ensures
            (exists|k: int| 0 <= k < scene_materials@.len() && (#[trigger] scene_materials@[k]).0 == id) ==> exists|
                k: int,
            |
                0 <= k < scene_materials@.len() && (#[trigger] scene_materials@[k]).0 == id && r
                    == scene_materials@[k].1 && forall|j: int| 0 <= j < k ==> scene_materials@[j].0 != id,
            !(exists|k: int| 0 <= k < scene_materials@.len() && (#[trigger] scene_materials@[k]).0 == id) ==> r
                == fallback,
    {
        let mut k: usize = 0;
        while k < scene_materials.len()
            invariant
                0 <= k <= scene_materials@.len(),
                forall|j: int| 0 <= j < k ==> scene_materials@[j].0 != id,
            decreases scene_materials@.len() - k,
        {
            if scene_materials[k].0 == id {
                return scene_materials[k].1;
            }
            k += 1;
        }
        fallback
    }
}

impl SceneLoader {
    /// The name of a loaded animation clip: the animation's name, or
    /// "Animation".
    pub fn animation_name(name: Option<&str>) -> (r: String)
        ensures
            r@ == match name {
                Some(n) => n@,
                None => "Animation"@,
            },
    {
        match name {
            Some(n) => n.to_owned(),
            None => "Animation".to_owned(),
        }
    }

    /// The object an animation channel drives: its node's name, or "node"
    /// followed by the node's index.
    pub fn channel_target(name: Option<&str>, node_index: usize) -> (r: String)
        ensures
            r@ == match name {
                Some(n) => n@,
                None => "node"@ + decimal(node_index as nat),
            },
    {
        match name {
            Some(n) => n.to_owned(),
            None => {
                let mut out = chars_of("node");
                let mut digits = decimal_chars_u64(node_index as u64);
                out.append(&mut digits);
                string_from_chars(out.as_slice())
            },
        }
    }
}

} // verus!
