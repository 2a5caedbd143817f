//! Mesh data: vertices with optional indices, material ranges, the mesh
//! builder, triangle lists, and loading triangulated Wavefront OBJ data.

use crate::store::{HandleName, StoreType, H};
use std::ops::Range;
use vstd::prelude::*;

verus! {

/// `input` padded, or cut, to four elements, filling with `default`.
pub fn pad_to_four<T: Copy>(input: &[T], default: T) -> (r: [T; 4])
    ensures
        forall|i: int| 0 <= i < 4 ==> #[trigger] r@[i] == if i < input@.len() { input@[i] } else { default },
{
    let mut arr = [default; 4];
    let count: usize = if input.len() < 4 { input.len() } else { 4 };
    let mut i: usize = 0;
    while i < count
        invariant
            count <= 4,
            count == if input@.len() < 4 { input@.len() } else { 4 },
            0 <= i <= count,
            forall|k: int| 0 <= k < 4 ==> #[trigger] arr@[k] == if k < i { input@[k] } else { default },
        decreases count - i,
    {
        arr[i] = input[i];
        i += 1;
    }
    arr
}

/// The vertices of a mesh and, for indexed meshes, its index list.
#[derive(Clone, Debug)]
pub struct MeshVertexData<T> {
    pub vertices: Vec<T>,
    pub indices: Option<Vec<u32>>,
}

/// The triples of `s`, three consecutive elements each; a partial triple at
/// the end is dropped.
pub open spec fn triples(s: Seq<u32>) -> Seq<Seq<u32>> {
    Seq::new(s.len() / 3, |t: int| seq![s[3 * t], s[3 * t + 1], s[3 * t + 2]])
}

/// The vertex numbers of an unindexed mesh of `n` vertices, as `u32`.
pub open spec fn vertex_numbers(n: nat) -> Seq<u32> {
    Seq::new((n as u32) as nat, |i: int| i as u32)
}

impl<T> MeshVertexData<T> {
    /// Vertex data from vertices and optional indices.
    pub fn new(vertices: Vec<T>, indices: Option<Vec<u32>>) -> (r: MeshVertexData<T>)
        ensures
            r.vertices@ == vertices@,
            r.indices == indices,
    {
        MeshVertexData { vertices, indices }
    }

    /// The triangles of the mesh: consecutive index triples, or for an
    /// unindexed mesh consecutive vertex number triples.
    pub fn make_triangle_indices(&self) -> (r: Vec<[u32; 3]>)
        ensures
            r@.len() == triples(self.index_list()).len(),
            forall|t: int| 0 <= t < r@.len() ==> #[trigger] r@[t]@ == triples(self.index_list())[t],
    {
        match &self.indices {
            Some(indices) => triangle_triples(indices.as_slice()),
            None => {
                let n: u32 = self.vertices.len() as u32;
                let mut numbers: Vec<u32> = Vec::new();
                let mut i: u32 = 0;
                while i < n
                    invariant
                        0 <= i <= n,
                        n == (self.vertices@.len() as u32),
                        numbers@ =~= vertex_numbers(self.vertices@.len()).take(i as int),
                    decreases n - i,
                {
                    numbers.push(i);
                    i += 1;
                }
                assert(numbers@ =~= vertex_numbers(self.vertices@.len()));
                triangle_triples(numbers.as_slice())
            },
        }
    }

    /// The indices the triangles are read from: the index list, or the
    /// vertex numbers of an unindexed mesh.
    pub open spec fn index_list(&self) -> Seq<u32> {
        match self.indices {
            Some(i) => i@,
            None => vertex_numbers(self.vertices@.len()),
        }
    }
}

fn triangle_triples(s: &[u32]) -> (r: Vec<[u32; 3]>)
    ensures
        r@.len() == triples(s@).len(),
        forall|t: int| 0 <= t < r@.len() ==> #[trigger] r@[t]@ == triples(s@)[t],
{
    let mut out: Vec<[u32; 3]> = Vec::new();
    let mut k: usize = 0;
    while k < s.len() / 3
        invariant
            0 <= k <= s@.len() / 3,
            out@.len() == k,
            forall|t: int| 0 <= t < k ==> #[trigger] out@[t]@ == triples(s@)[t],
        decreases s@.len() / 3 - k,
    {
        let tri = [s[3 * k], s[3 * k + 1], s[3 * k + 2]];
        assert(tri@ =~= triples(s@)[k as int]);
        out.push(tri);
        k += 1;
    }
    out
}

/// The bone hierarchy of a skinned mesh: each bone's name and parent, the
/// children of each bone in bone order, and the bones without a parent in
/// order. (The bind matrices that go with it are floating point and are
/// kept by the renderer.)
#[derive(Clone, Debug)]
pub struct Bones {
    pub names: Vec<String>,
    pub parents: Vec<Option<usize>>,
    pub children: Vec<Vec<usize>>,
    pub roots: Vec<usize>,
}

/// The index of the last bone named `name`, the one a name lookup finds.
pub open spec fn last_named(names: Seq<String>, name: Seq<char>) -> Option<usize>
    decreases names.len(),
{
    if names.len() == 0 {
        None
    } else if names.last()@ == name {
        Some((names.len() - 1) as usize)
    } else {
        last_named(names.drop_last(), name)
    }
}

/// Every parent index of `parents` names one of its bones.
pub open spec fn parents_in_range(parents: Seq<Option<usize>>) -> bool {
    forall|i: int| 0 <= i < parents.len() ==> (#[trigger] parents[i] matches Some(p) ==> p < parents.len())
}

impl Bones {
    /// No bones at all.
    pub open spec fn is_none_spec(&self) -> bool {
        &&& self.names@.len() == 0
        &&& self.parents@.len() == 0
        &&& self.children@.len() == 0
        &&& self.roots@.len() == 0
    }

    /// A mesh without a skeleton.
    pub fn none() -> (r: Bones)
        ensures
            r.is_none_spec(),
    {
        Bones { names: Vec::new(), parents: Vec::new(), children: Vec::new(), roots: Vec::new() }
    }

    /// The bones of a skin, given each joint's name and parent bone: the
    /// children and roots follow from the parents.
    pub fn from_skin(names: Vec<String>, parents: Vec<Option<usize>>) -> (r: Bones)
        requires
            names@.len() == parents@.len(),
            parents_in_range(parents@),
        ensures
            r.names@ == names@,
            r.parents@ == parents@,
            r.children@.len() == parents@.len(),
            forall|p: int| 0 <= p < parents@.len() ==> #[trigger] r.children@[p]@ == Seq::new(parents@.len(), |i: int| i as usize).filter(
                |i: usize| parents@[i as int] == Some(p as usize),
            ),
            r.roots@ == Seq::new(parents@.len(), |i: int| i as usize).filter(|i: usize| parents@[i as int] is None),
    {
        let (children, roots) = crate::scene_loader::SceneLoader::bone_children(&parents);
        Bones { names, parents, children, roots }
    }

    /// The index of the bone named `name`; the last one where several share it.
    pub fn index_of(&self, name: &str) -> (r: Option<usize>)
        ensures
            r == last_named(self.names@, name@),
    {
        let k = name.to_owned();
        let mut found: Option<usize> = None;
        let mut i: usize = 0;
        while i < self.names.len()
            invariant
                k@ == name@,
                i <= self.names@.len(),
                found == last_named(self.names@.take(i as int), name@),
            decreases self.names@.len() - i,
        {
            assert(self.names@.take(i as int + 1).drop_last() =~= self.names@.take(i as int));
            if self.names[i] == k {
                found = Some(i);
            }
            i += 1;
        }
        assert(self.names@.take(i as int) =~= self.names@);
        found
    }
}

impl Default for Bones {
    fn default() -> (r: Bones)
        ensures
            r.is_none_spec(),
    {
        Bones::none()
    }
}

/// A mesh: vertex data, the vertex range drawn with each material, and the
/// bones it is skinned to (none for a rigid mesh).
#[derive(Clone, Debug)]
pub struct Mesh<V> {
    pub data: MeshVertexData<V>,
    pub material_ranges: Vec<Range<u32>>,
    pub bones: Bones,
}

/// Builds a [`Mesh`] from vertices and optional indices, material ranges
/// and bones.
pub struct MeshBuilder<V> {
    vertices: Vec<V>,
    indices: Option<Vec<u32>>,
    material_ranges: Option<Vec<Range<u32>>>,
    bones: Option<Bones>,
}

impl<V> MeshBuilder<V> {
    /// The vertices given so far.
    pub closed spec fn vertices_spec(&self) -> Seq<V> {
        self.vertices@
    }

    /// The indices given so far.
    pub closed spec fn indices_spec(&self) -> Option<Vec<u32>> {
        self.indices
    }

    /// The material ranges given so far.
    pub closed spec fn ranges_spec(&self) -> Option<Vec<Range<u32>>> {
        self.material_ranges
    }

    /// The bones given so far.
    pub closed spec fn bones_spec(&self) -> Option<Bones> {
        self.bones
    }

    /// A builder for a mesh of `vertices`, unindexed, without ranges or bones.
    pub fn new(vertices: Vec<V>) -> (r: MeshBuilder<V>)
        ensures
            r.vertices_spec() == vertices@,
            r.indices_spec() is None,
            r.ranges_spec() is None,
            r.bones_spec() is None,
    {
        MeshBuilder { vertices, indices: None, material_ranges: None, bones: None }
    }

    /// Sets the material ranges.
    pub fn with_many_textures(self, materials: Vec<Range<u32>>) -> (r: MeshBuilder<V>)
        ensures
            r.vertices_spec() == self.vertices_spec(),
            r.indices_spec() == self.indices_spec(),
            r.ranges_spec() == Some(materials),
            r.bones_spec() == self.bones_spec(),
    {
        MeshBuilder { vertices: self.vertices, indices: self.indices, material_ranges: Some(materials), bones: self.bones }
    }

    /// Sets the index list.
    pub fn with_indices(self, indices: Vec<u32>) -> (r: MeshBuilder<V>)
        ensures
            r.vertices_spec() == self.vertices_spec(),
            r.indices_spec() == Some(indices),
            r.ranges_spec() == self.ranges_spec(),
            r.bones_spec() == self.bones_spec(),
    {
        MeshBuilder { vertices: self.vertices, indices: Some(indices), material_ranges: self.material_ranges, bones: self.bones }
    }

    /// Sets the bones the mesh is skinned to.
    pub fn with_bones(self, bones: Bones) -> (r: MeshBuilder<V>)
        ensures
            r.vertices_spec() == self.vertices_spec(),
            r.indices_spec() == self.indices_spec(),
            r.ranges_spec() == self.ranges_spec(),
            r.bones_spec() == Some(bones),
    {
        MeshBuilder { vertices: self.vertices, indices: self.indices, material_ranges: self.material_ranges, bones: Some(bones) }
    }

    /// The mesh. Without material ranges, or with an empty list of them, the
    /// whole mesh is one range: all indices, or all vertices when unindexed.
    /// Without bones the mesh has none.
    pub fn build(self) -> (r: Mesh<V>)
        ensures
            r.data.vertices@ == self.vertices_spec(),
            r.data.indices == self.indices_spec(),
            match self.ranges_spec() {
                Some(m) if m@.len() > 0 => r.material_ranges@ == m@,
                _ => {
                    &&& r.material_ranges@.len() == 1
                    &&& r.material_ranges@[0].start == 0
                    &&& r.material_ranges@[0].end == match self.indices_spec() {
                        Some(i) => i@.len() as u32,
                        None => self.vertices_spec().len() as u32,
                    }
                },
            },
            match self.bones_spec() {
                Some(b) => r.bones == b,
                None => r.bones.is_none_spec(),
            },
    {
        let mut material_ranges = match self.material_ranges {
            Some(m) => m,
            None => Vec::new(),
        };
        if material_ranges.len() == 0 {
            let vert_count: usize = match &self.indices {
                Some(indices) => indices.len(),
                None => self.vertices.len(),
            };
            material_ranges.push(Range { start: 0u32, end: vert_count as u32 });
        }
        let bones = match self.bones {
            Some(b) => b,
            None => Bones::none(),
        };
        Mesh { data: MeshVertexData::new(self.vertices, self.indices), material_ranges, bones }
    }
}

impl<V> Mesh<V> {
    /// A builder for a mesh of `vertices`.
    pub fn builder(vertices: Vec<V>) -> (r: MeshBuilder<V>)
        ensures
            r.vertices_spec() == vertices@,
            r.indices_spec() is None,
            r.ranges_spec() is None,
    {
        MeshBuilder::new(vertices)
    }

    /// The number of vertices.
    pub fn vertex_count(&self) -> (r: usize)
        ensures
            r == self.data.vertices@.len(),
    {
        self.data.vertices.len()
    }

    /// The number of indices, zero for an unindexed mesh.
    pub fn indices_count(&self) -> (r: usize)
        ensures
            r == match self.data.indices {
                Some(i) => i@.len(),
                None => 0,
            },
    {
        match &self.data.indices {
            Some(i) => i.len(),
            None => 0,
        }
    }

    /// The vertices.
    pub fn vertices(&self) -> (r: &[V])
        ensures
            r@ == self.data.vertices@,
    {
        self.data.vertices.as_slice()
    }

    /// The indices of an indexed mesh.
    pub fn indices(&self) -> (r: Option<&[u32]>)
        ensures
            match self.data.indices {
                Some(i) => r is Some && r->Some_0@ == i@,
                None => r is None,
            },
    {
        match &self.data.indices {
            Some(i) => Some(i.as_slice()),
            None => None,
        }
    }

    /// Whether the mesh is indexed.
    pub fn has_indices(&self) -> (r: bool)
        ensures
            r == self.data.indices is Some,
    {
        self.data.indices.is_some()
    }
}

impl<V> H<Mesh<V>> {
    /// The unit square.
    pub fn unit_square() -> (r: H<Mesh<V>>)
        ensures
            r@ == 0,
    {
        H::new(0)
    }

    /// The unit cube.
    pub fn unit_cube() -> (r: H<Mesh<V>>)
        ensures
            r@ == 1,
    {
        H::new(1)
    }

    /// The arrow drawn for debugging.
    pub fn debug_arrow() -> (r: H<Mesh<V>>)
        ensures
            r@ == 2,
    {
        H::new(2)
    }

    /// The small sphere.
    pub fn sphere() -> (r: H<Mesh<V>>)
        ensures
            r@ == 3,
    {
        H::new(3)
    }
}

impl<V> StoreType for Mesh<V> {
    open spec fn builtin_spec(id: u32) -> bool {
        id <= 3
    }

    open spec fn ident_spec(id: u32) -> Option<Seq<char>> {
        if id == 0 {
            Some("Unit Square"@)
        } else if id == 1 {
            Some("Unit Cube"@)
        } else if id == 2 {
            Some("Debug Arrow"@)
        } else if id == 3 {
            Some("Sphere"@)
        } else {
            None
        }
    }

    open spec fn type_name_spec() -> Seq<char> {
        "Mesh"@
    }

    fn name() -> (r: &'static str) {
        "Mesh"
    }

    fn ident_fmt(handle: H<Self>) -> (r: HandleName<Self>) {
        let id = handle.id();
        if id == 0 {
            HandleName::Static("Unit Square")
        } else if id == 1 {
            HandleName::Static("Unit Cube")
        } else if id == 2 {
            HandleName::Static("Debug Arrow")
        } else if id == 3 {
            HandleName::Static("Sphere")
        } else {
            HandleName::Id(handle)
        }
    }

    fn is_builtin(handle: H<Self>) -> (r: bool) {
        handle.id() <= 3
    }
}

/// A vertex read from OBJ data: position, texture coordinate and normal,
/// each component given by the bits of its 32-bit float.
#[derive(Clone, Copy, Debug)]
pub struct ObjVertex {
    pub position: [u32; 3],
    pub uv: [u32; 2],
    pub normal: [u32; 3],
}

/// One corner of an OBJ face: 0-based position index and, when given,
/// texture coordinate and normal indices, in that order.
pub type ObjIndex = (usize, Option<usize>, Option<usize>);

/// Parsed OBJ data: the attribute tables (float components as bits) and,
/// per object, per group, the faces as lists of corners.
pub struct ObjModel {
    pub positions: Vec<[u32; 3]>,
    pub textures: Vec<[u32; 2]>,
    pub normals: Vec<[u32; 3]>,
    pub objects: Vec<Vec<Vec<Vec<ObjIndex>>>>,
}

/// The contents of parsed OBJ data as plain values.
pub type ObjModelView = (Seq<[u32; 3]>, Seq<[u32; 2]>, Seq<[u32; 3]>, Seq<Seq<Seq<Seq<ObjIndex>>>>);

/// The attribute tables and faces of parsed OBJ data.
pub type ObjTables = (Vec<[u32; 3]>, Vec<[u32; 2]>, Vec<[u32; 3]>, Vec<Vec<Vec<Vec<ObjIndex>>>>);

/// The contents of parsed OBJ tables as plain values.
pub open spec fn tables_view(t: &ObjTables) -> ObjModelView {
    (t.0@, t.1@, t.2@, Seq::new(t.3@.len(), |o: int| groups_view(t.3@[o]@)))
}

impl ObjModel {
    /// The contents as plain values.
    pub open spec fn model_view(&self) -> ObjModelView {
        (
            self.positions@,
            self.textures@,
            self.normals@,
            Seq::new(
                self.objects@.len(),
                |o: int| groups_view(self.objects@[o]@),
            ),
        )
    }
}

/// Why OBJ data could not be turned into a mesh.
#[derive(Debug)]
pub enum MeshError {
    /// A face corner has no normal.
    NormalsMissing,
    /// A face corner has no texture coordinate.
    UVMissing,
    /// A face is not a triangle.
    NonTriangulated,
    /// A face corner refers past the end of an attribute table.
    IndexOutOfRange,
    /// The bytes are not OBJ data.
    Obj { source: obj::ObjError },
}

/// The parser's error type.
#[verifier::external_type_specification]
#[verifier::external_body]
pub struct ExObjError(obj::ObjError);

/// The length of the whitespace character, as `char::is_whitespace`
/// classifies it, that starts at byte `i` of UTF-8 text `b`; 0 where none
/// does.
pub open spec fn ws_len(b: Seq<u8>, i: int) -> int {
    if 0 <= i < b.len() {
        let x = b[i];
        if x == 0x09 || x == 0x0a || x == 0x0b || x == 0x0c || x == 0x0d || x == 0x20 {
            1
        } else if x == 0xc2 && i + 1 < b.len() && (b[i + 1] == 0x85 || b[i + 1] == 0xa0) {
            2
        } else if i + 2 < b.len() && ((x == 0xe1 && b[i + 1] == 0x9a && b[i + 2] == 0x80)
            || (x == 0xe2 && b[i + 1] == 0x80 && ((0x80 <= b[i + 2] <= 0x8a) || b[i + 2] == 0xa8
                || b[i + 2] == 0xa9 || b[i + 2] == 0xaf))
            || (x == 0xe2 && b[i + 1] == 0x81 && b[i + 2] == 0x9f)
            || (x == 0xe3 && b[i + 1] == 0x80 && b[i + 2] == 0x80)) {
            3
        } else {
            0
        }
    } else {
        0
    }
}

/// The first byte at or after `i` that does not start a whitespace
/// character, staying on the line (a line feed ends the skip).
pub open spec fn skip_ws_spec(b: Seq<u8>, i: int) -> int
    decreases b.len() - i,
{
    if 0 <= i < b.len() && b[i] != 0x0a && ws_len(b, i) > 0 {
        skip_ws_spec(b, i + ws_len(b, i))
    } else {
        i
    }
}

/// The first word of the line starting at byte `s` is the single letter `c`.
pub open spec fn first_word_is(b: Seq<u8>, s: int, c: u8) -> bool {
    let k = skip_ws_spec(b, s);
    &&& 0 <= k < b.len()
    &&& b[k] == c
    &&& (k + 1 == b.len() || b[k + 1] == 0x0a || ws_len(b, k + 1) > 0)
}

/// A UTF-8 continuation byte: not the first byte of a character.
pub open spec fn continuation_byte(x: u8) -> bool {
    0x80 <= x <= 0xbf
}

/// The length of the UTF-8 encoded character starting at byte `i` of `b`,
/// as `std::str::from_utf8` accepts it; 0 where no valid character starts.
pub open spec fn utf8_char_len(b: Seq<u8>, i: int) -> int {
    if 0 <= i < b.len() {
        let x = b[i];
        if x < 0x80 {
            1
        } else if 0xc2 <= x <= 0xdf && i + 1 < b.len() && continuation_byte(b[i + 1]) {
            2
        } else if i + 2 < b.len() && continuation_byte(b[i + 2]) && ((x == 0xe0 && 0xa0 <= b[i + 1] <= 0xbf)
            || (((0xe1 <= x <= 0xec) || (0xee <= x <= 0xef)) && continuation_byte(b[i + 1]))
            || (x == 0xed && 0x80 <= b[i + 1] <= 0x9f)) {
            3
        } else if i + 3 < b.len() && continuation_byte(b[i + 2]) && continuation_byte(b[i + 3]) && ((x == 0xf0
            && 0x90 <= b[i + 1] <= 0xbf) || ((0xf1 <= x <= 0xf3) && continuation_byte(b[i + 1])) || (x == 0xf4
            && 0x80 <= b[i + 1] <= 0x8f)) {
            4
        } else {
            0
        }
    } else {
        0
    }
}

/// The bytes of `b` from `i` up to `j` are valid UTF-8.
pub open spec fn valid_utf8_between(b: Seq<u8>, i: int, j: int) -> bool
    decreases j - i,
{
    if i >= j {
        i == j
    } else {
        let l = utf8_char_len(b, i);
        l > 0 && i + l <= j && valid_utf8_between(b, i + l, j)
    }
}

/// The index of the line break ending the line at byte `s`, or the length
/// of `b` where the last line has none.
pub open spec fn line_end(b: Seq<u8>, s: int) -> int
    decreases b.len() - s,
{
    if s < 0 || s >= b.len() || b[s] == 0x0a {
        if s < 0 { 0 } else if s >= b.len() { b.len() as int } else { s }
    } else {
        line_end(b, s + 1)
    }
}

/// The length of the line at byte `s` as a reader of lines gives it: without
/// its line break, and without a carriage return before that break.
pub open spec fn line_content_len(b: Seq<u8>, s: int) -> int {
    let e = line_end(b, s);
    if e < b.len() && e > s && b[e - 1] == 0x0d {
        e - 1 - s
    } else {
        e - s
    }
}

/// The line starting at byte `s` is an object (`o`) or group (`g`) line
/// that `obj::ObjData::load_buf` reads as text (it and all bytes before it
/// are valid UTF-8), longer than two bytes, whose name it takes from byte 1
/// (objects) or byte 2 (groups) of the line, and that byte lies inside a
/// character.
pub open spec fn name_split_at(b: Seq<u8>, s: int) -> bool {
    &&& 0 <= s
    &&& s + 2 < b.len()
    &&& (s == 0 || b[s - 1] == 0x0a)
    &&& line_content_len(b, s) > 2
    &&& valid_utf8_between(b, 0, line_end(b, s))
    &&& ((first_word_is(b, s, 0x6f) && continuation_byte(b[s + 1])) || (first_word_is(b, s, 0x67)
        && continuation_byte(b[s + 2])))
}

/// Some object or group line of `b` is cut inside a character where
/// `obj::ObjData::load_buf` takes its name, which makes that call panic.
pub open spec fn obj_name_split_in_char(b: Seq<u8>) -> bool {
    exists|s: int| #[trigger] name_split_at(b, s)
}

/// The length of the whitespace character starting at byte `i`, or 0.
fn ws_len_at(b: &[u8], i: usize) -> (r: usize)
    ensures
        r == ws_len(b@, i as int),
        r > 0 ==> i + r <= b@.len(),
{
    let n = b.len();
    if i >= n {
        return 0;
    }
    let x = b[i];
    if x == 0x09 || x == 0x0a || x == 0x0b || x == 0x0c || x == 0x0d || x == 0x20 {
        return 1;
    }
    if x == 0xc2 && i < n - 1 && (b[i + 1] == 0x85 || b[i + 1] == 0xa0) {
        return 2;
    }
    if n >= 2 && i < n - 2 {
        let y = b[i + 1];
        let z = b[i + 2];
        if (x == 0xe1 && y == 0x9a && z == 0x80) || (x == 0xe2 && y == 0x80 && ((0x80 <= z && z <= 0x8a) || z
            == 0xa8 || z == 0xa9 || z == 0xaf)) || (x == 0xe2 && y == 0x81 && z == 0x9f) || (x == 0xe3 && y
            == 0x80 && z == 0x80) {
            return 3;
        }
    }
    0
}

/// The first byte at or after `i` not starting a whitespace character on the line.
fn skip_ws(b: &[u8], i: usize) -> (r: usize)
    requires
        i <= b@.len(),
    ensures
        r == skip_ws_spec(b@, i as int),
{
    let mut j = i;
    while j < b.len()
        invariant
            i <= j <= b@.len(),
            skip_ws_spec(b@, i as int) == skip_ws_spec(b@, j as int),
        decreases b@.len() - j,
    {
        if b[j] == 0x0a {
            return j;
        }
        let w = ws_len_at(b, j);
        if w == 0 {
            return j;
        }
        j = j + w;
    }
    j
}

/// Whether the line starting at byte `s` has the single-letter first word `c`.
fn first_word_at(b: &[u8], s: usize, c: u8) -> (r: bool)
    requires
        s <= b@.len(),
    ensures
        r == first_word_is(b@, s as int, c),
{
    let k = skip_ws(b, s);
    if k < b.len() && b[k] == c {
        k + 1 == b.len() || b[k + 1] == 0x0a || ws_len_at(b, k + 1) > 0
    } else {
        false
    }
}

/// The length of the UTF-8 character starting at byte `i`, or 0.
fn utf8_len_at(b: &[u8], i: usize) -> (r: usize)
    ensures
        r == utf8_char_len(b@, i as int),
{
    let n = b.len();
    if i >= n {
        return 0;
    }
    let x = b[i];
    if x < 0x80 {
        return 1;
    }
    if 0xc2 <= x && x <= 0xdf && i + 1 < n && 0x80 <= b[i + 1] && b[i + 1] <= 0xbf {
        return 2;
    }
    if n - i > 2 && 0x80 <= b[i + 2] && b[i + 2] <= 0xbf {
        let y = b[i + 1];
        let cy = 0x80 <= y && y <= 0xbf;
        if (x == 0xe0 && 0xa0 <= y && y <= 0xbf) || (((0xe1 <= x && x <= 0xec) || (0xee <= x && x <= 0xef)) && cy)
            || (x == 0xed && 0x80 <= y && y <= 0x9f) {
            return 3;
        }
    }
    if n - i > 3 && 0x80 <= b[i + 2] && b[i + 2] <= 0xbf && 0x80 <= b[i + 3] && b[i + 3] <= 0xbf {
        let y = b[i + 1];
        let cy = 0x80 <= y && y <= 0xbf;
        if (x == 0xf0 && 0x90 <= y && y <= 0xbf) || ((0xf1 <= x && x <= 0xf3) && cy) || (x == 0xf4 && 0x80 <= y
            && y <= 0x8f) {
            return 4;
        }
    }
    0
}

/// Whether the bytes of `b` before `e` are valid UTF-8.
fn valid_utf8_upto(b: &[u8], e: usize) -> (r: bool)
    requires
        e <= b@.len(),
    ensures
        r == valid_utf8_between(b@, 0, e as int),
{
    let mut i: usize = 0;
    while i < e
        invariant
            i <= e <= b@.len(),
            valid_utf8_between(b@, 0, e as int) == valid_utf8_between(b@, i as int, e as int),
        decreases e - i,
    {
        let l = utf8_len_at(b, i);
        if l == 0 || l > e - i {
            return false;
        }
        i = i + l;
    }
    true
}

/// The index of the line break ending the line at byte `s`, or the length.
fn line_end_at(b: &[u8], s: usize) -> (r: usize)
    requires
        s <= b@.len(),
    ensures
        r == line_end(b@, s as int),
        s <= r <= b@.len(),
{
    let mut j = s;
    while j < b.len() && b[j] != 0x0a
        invariant
            s <= j <= b@.len(),
            line_end(b@, s as int) == line_end(b@, j as int),
        decreases b@.len() - j,
    {
        j += 1;
    }
    j
}

/// Whether some object or group line of `data` is cut inside a character
/// where `obj::ObjData::load_buf` takes its name; such data makes that
/// call panic, and [`Mesh::load_from_obj_slice`] does not take it.
pub fn obj_name_splits_in_char(data: &[u8]) -> (r: bool)
    ensures
        r == obj_name_split_in_char(data@),
{
    let n = data.len();
    let mut s: usize = 0;
    while s < n
        invariant
            n == data@.len(),
            s <= n,
            forall|t: int| 0 <= t < s ==> !#[trigger] name_split_at(data@, t),
        decreases n - s,
    {
        if n >= 2 && s < n - 2 && (s == 0 || data[s - 1] == 0x0a) {
            let o_cut = 0x80 <= data[s + 1] && data[s + 1] <= 0xbf && first_word_at(data, s, 0x6f);
            let g_cut = 0x80 <= data[s + 2] && data[s + 2] <= 0xbf && first_word_at(data, s, 0x67);
            if o_cut || g_cut {
                let e = line_end_at(data, s);
                let len: usize = if e < n && e > s && data[e - 1] == 0x0d { e - 1 - s } else { e - s };
                if len > 2 && valid_utf8_upto(data, e) {
                    assert(name_split_at(data@, s as int));
                    return true;
                }
            }
        }
        s += 1;
    }
    assert forall|t: int| !#[trigger] name_split_at(data@, t) by {
        if 0 <= t < n {
        }
    }
    false
}

/// What `obj::ObjData::load_buf` parses from `bytes`, as plain values, or
/// `None` when it reports an error.
pub uninterp spec fn parsed_obj(bytes: Seq<u8>) -> Option<ObjModelView>;

/// Calls `obj::ObjData::load_buf` and copies the result into plain values:
/// float components as their bits, corners as [`ObjIndex`]. The parse
/// depends on the bytes alone and is named by `parsed_obj`. `load_buf`
/// splits lines at Unicode whitespace but takes object and group names by
/// byte position, and panics where that position lies inside a character;
/// such bytes are not taken.
#[verifier::external_body]
fn parse_obj(bytes: &[u8]) -> (r: Result<ObjTables, obj::ObjError>)
    requires
        !obj_name_split_in_char(bytes@),
    ensures
        match r {
            Ok(t) => parsed_obj(bytes@) == Some(tables_view(&t)),
            Err(_) => parsed_obj(bytes@) is None,
        },
{
    let d = obj::ObjData::load_buf(bytes)?;
    Ok((
        d.position.iter().map(|p| p.map(|x| x.to_bits())).collect(),
        d.texture.iter().map(|t| t.map(|x| x.to_bits())).collect(),
        d.normal.iter().map(|n| n.map(|x| x.to_bits())).collect(),
        d.objects.into_iter().map(|o| o.groups.into_iter().map(|g| g.polys.into_iter().map(|p| p.0.into_iter().map(|t| (t.0, t.1, t.2)).collect()).collect()).collect()).collect(),
    ))
}

/// The vertex for a corner with all three indices.
pub open spec fn corner_vertex(m: ObjModelView, c: ObjIndex) -> ObjVertex {
    ObjVertex { position: m.0[c.0 as int], uv: m.1[c.1->0 as int], normal: m.2[c.2->0 as int] }
}

/// The vertices of the corners `cs` appended to `acc`, or the error of the
/// first corner without a texture coordinate or normal, or with an index
/// past the end of its attribute table.
pub open spec fn scan_corners(m: ObjModelView, cs: Seq<ObjIndex>, acc: Seq<ObjVertex>) -> Result<Seq<ObjVertex>, MeshError>
    decreases cs.len(),
{
    if cs.len() == 0 {
        Ok(acc)
    } else if cs[0].1 is None {
        Err(MeshError::UVMissing)
    } else if cs[0].2 is None {
        Err(MeshError::NormalsMissing)
    } else if !corner_ok(m, cs[0]) {
        Err(MeshError::IndexOutOfRange)
    } else {
        scan_corners(m, cs.drop_first(), acc.push(corner_vertex(m, cs[0])))
    }
}

/// The vertices of the faces `fs` appended to `acc`; every face must be a
/// triangle.
pub open spec fn scan_faces(m: ObjModelView, fs: Seq<Seq<ObjIndex>>, acc: Seq<ObjVertex>) -> Result<Seq<ObjVertex>, MeshError>
    decreases fs.len(),
{
    if fs.len() == 0 {
        Ok(acc)
    } else if fs[0].len() != 3 {
        Err(MeshError::NonTriangulated)
    } else {
        match scan_corners(m, fs[0], acc) {
            Ok(a) => scan_faces(m, fs.drop_first(), a),
            Err(e) => Err(e),
        }
    }
}

/// The vertices and material ranges of the groups `gs` added to `acc`. A
/// group's range starts at the vertex count before it and ends at that
/// start plus the vertex count after it, as a `u32`.
pub open spec fn scan_groups(
    m: ObjModelView,
    gs: Seq<Seq<Seq<ObjIndex>>>,
    acc: (Seq<ObjVertex>, Seq<(u32, u32)>),
) -> Result<(Seq<ObjVertex>, Seq<(u32, u32)>), MeshError>
    decreases gs.len(),
{
    if gs.len() == 0 {
        Ok(acc)
    } else {
        let start = acc.0.len() as u32;
        match scan_faces(m, gs[0], acc.0) {
            Ok(vs) => scan_groups(m, gs.drop_first(), (vs, acc.1.push((start, (start + vs.len()) as u32)))),
            Err(e) => Err(e),
        }
    }
}

/// The vertices and material ranges of the objects `os` added to `acc`.
pub open spec fn scan_objects(
    m: ObjModelView,
    os: Seq<Seq<Seq<Seq<ObjIndex>>>>,
    acc: (Seq<ObjVertex>, Seq<(u32, u32)>),
) -> Result<(Seq<ObjVertex>, Seq<(u32, u32)>), MeshError>
    decreases os.len(),
{
    if os.len() == 0 {
        Ok(acc)
    } else {
        match scan_groups(m, os[0], acc) {
            Ok(a) => scan_objects(m, os.drop_first(), a),
            Err(e) => Err(e),
        }
    }
}

/// The number of faces in the groups `gs`.
pub open spec fn faces_in_groups(gs: Seq<Seq<Seq<ObjIndex>>>) -> nat
    decreases gs.len(),
{
    if gs.len() == 0 {
        0
    } else {
        gs[0].len() + faces_in_groups(gs.drop_first())
    }
}

/// The number of faces over all groups of the objects `os`.
pub open spec fn faces_in_objects(os: Seq<Seq<Seq<Seq<ObjIndex>>>>) -> nat
    decreases os.len(),
{
    if os.len() == 0 {
        0
    } else {
        faces_in_groups(os[0]) + faces_in_objects(os.drop_first())
    }
}

/// The number of groups over all the objects `os`.
pub open spec fn groups_in_objects(os: Seq<Seq<Seq<Seq<ObjIndex>>>>) -> nat
    decreases os.len(),
{
    if os.len() == 0 {
        0
    } else {
        os[0].len() + groups_in_objects(os.drop_first())
    }
}

proof fn lemma_scan_corners_len(m: ObjModelView, cs: Seq<ObjIndex>, acc: Seq<ObjVertex>)
    ensures
        scan_corners(m, cs, acc) matches Ok(a) ==> a.len() == acc.len() + cs.len() && a.take(acc.len() as int) == acc,
    decreases cs.len(),
{
    if cs.len() > 0 && cs[0].1 is Some && cs[0].2 is Some && corner_ok(m, cs[0]) {
        let acc2 = acc.push(corner_vertex(m, cs[0]));
        lemma_scan_corners_len(m, cs.drop_first(), acc2);
        if let Ok(a) = scan_corners(m, cs, acc) {
            assert(a.take(acc.len() as int) =~= a.take(acc2.len() as int).take(acc.len() as int));
            assert(acc2.take(acc.len() as int) =~= acc);
        }
    } else if cs.len() == 0 {
        assert(acc.take(acc.len() as int) =~= acc);
    }
}

proof fn lemma_scan_faces_len(m: ObjModelView, fs: Seq<Seq<ObjIndex>>, acc: Seq<ObjVertex>)
    ensures
        scan_faces(m, fs, acc) matches Ok(a) ==> a.len() == acc.len() + 3 * fs.len(),
    decreases fs.len(),
{
    if fs.len() > 0 && fs[0].len() == 3 {
        lemma_scan_corners_len(m, fs[0], acc);
        if let Ok(a1) = scan_corners(m, fs[0], acc) {
            lemma_scan_faces_len(m, fs.drop_first(), a1);
        }
    }
}

proof fn lemma_scan_groups_len(m: ObjModelView, gs: Seq<Seq<Seq<ObjIndex>>>, acc: (Seq<ObjVertex>, Seq<(u32, u32)>))
    ensures
        scan_groups(m, gs, acc) matches Ok(a) ==> {
            &&& a.0.len() == acc.0.len() + 3 * faces_in_groups(gs)
            &&& a.1.len() == acc.1.len() + gs.len()
        },
    decreases gs.len(),
{
    if gs.len() > 0 {
        let start = acc.0.len() as u32;
        lemma_scan_faces_len(m, gs[0], acc.0);
        if let Ok(vs) = scan_faces(m, gs[0], acc.0) {
            lemma_scan_groups_len(m, gs.drop_first(), (vs, acc.1.push((start, (start + vs.len()) as u32))));
        }
    }
}

/// Loading OBJ objects keeps every face of every group of every object:
/// when it succeeds, it adds three vertices per face over all objects and
/// groups, and one material range per group of every object.
pub proof fn law_scan_objects_counts(m: ObjModelView, os: Seq<Seq<Seq<Seq<ObjIndex>>>>, acc: (Seq<ObjVertex>, Seq<(u32, u32)>))
    ensures
        scan_objects(m, os, acc) matches Ok(a) ==> {
            &&& a.0.len() == acc.0.len() + 3 * faces_in_objects(os)
            &&& a.1.len() == acc.1.len() + groups_in_objects(os)
        },
    decreases os.len(),
{
    if os.len() > 0 {
        lemma_scan_groups_len(m, os[0], acc);
        if let Ok(a1) = scan_groups(m, os[0], acc) {
            law_scan_objects_counts(m, os.drop_first(), a1);
        }
    }
}

/// The indices a corner gives lie inside their attribute tables.
pub open spec fn corner_ok(m: ObjModelView, x: ObjIndex) -> bool {
    &&& x.0 < m.0.len()
    &&& (x.1 matches Some(t) ==> t < m.1.len())
    &&& (x.2 matches Some(n) ==> n < m.2.len())
}

/// The faces of a group as plain values.
pub open spec fn faces_view(fs: Seq<Vec<ObjIndex>>) -> Seq<Seq<ObjIndex>> {
    Seq::new(fs.len(), |p: int| fs[p]@)
}

/// The groups of an object as plain values.
pub open spec fn groups_view(gs: Seq<Vec<Vec<ObjIndex>>>) -> Seq<Seq<Seq<ObjIndex>>> {
    Seq::new(gs.len(), |g: int| faces_view(gs[g]@))
}

/// The range list as pairs of bounds.
pub open spec fn range_pairs(rs: Seq<Range<u32>>) -> Seq<(u32, u32)> {
    Seq::new(rs.len(), |i: int| (rs[i].start, rs[i].end))
}

fn push_corners(m: &ObjModel, cs: &Vec<ObjIndex>, verts: &mut Vec<ObjVertex>) -> (r: Result<(), MeshError>)
    ensures
        match scan_corners(m.model_view(), cs@, old(verts)@) {
            Ok(a) => r is Ok && final(verts)@ == a,
            Err(e) => r == Err::<(), MeshError>(e),
        },
{
    let ghost mv = m.model_view();
    let mut k: usize = 0;
    assert(cs@.skip(0) =~= cs@);
    while k < cs.len()
        invariant
            mv == m.model_view(),
            0 <= k <= cs@.len(),
            scan_corners(mv, cs@, old(verts)@) == scan_corners(mv, cs@.skip(k as int), verts@),
        decreases cs@.len() - k,
    {
        let c = cs[k];
        assert(cs@.skip(k as int)[0] == c);
        assert(cs@.skip(k as int).drop_first() =~= cs@.skip(k + 1));
        let t = match c.1 {
            Some(t) => t,
            None => {
                return Err(MeshError::UVMissing);
            },
        };
        let n = match c.2 {
            Some(n) => n,
            None => {
                return Err(MeshError::NormalsMissing);
            },
        };
        if !(c.0 < m.positions.len() && t < m.textures.len() && n < m.normals.len()) {
            return Err(MeshError::IndexOutOfRange);
        }
        let v = ObjVertex { position: m.positions[c.0], uv: m.textures[t], normal: m.normals[n] };
        assert(v == corner_vertex(mv, c));
        verts.push(v);
        k += 1;
    }
    assert(cs@.skip(cs@.len() as int) =~= Seq::<ObjIndex>::empty());
    Ok(())
}

fn push_faces(m: &ObjModel, fs: &Vec<Vec<ObjIndex>>, verts: &mut Vec<ObjVertex>) -> (r: Result<(), MeshError>)
    ensures
        match scan_faces(m.model_view(), faces_view(fs@), old(verts)@) {
            Ok(a) => r is Ok && final(verts)@ == a,
            Err(e) => r == Err::<(), MeshError>(e),
        },
{
    let ghost mv = m.model_view();
    let ghost all = faces_view(fs@);
    let mut k: usize = 0;
    assert(all.skip(0) =~= all);
    while k < fs.len()
        invariant
            mv == m.model_view(),
            all == faces_view(fs@),
            0 <= k <= fs@.len(),
            scan_faces(mv, all, old(verts)@) == scan_faces(mv, all.skip(k as int), verts@),
        decreases fs@.len() - k,
    {
        assert(all.skip(k as int)[0] == fs@[k as int]@);
        assert(all.skip(k as int).drop_first() =~= all.skip(k + 1));
        if fs[k].len() != 3 {
            return Err(MeshError::NonTriangulated);
        }
        let res = push_corners(m, &fs[k], verts);
        match res {
            Ok(()) => {},
            Err(e) => {
                return Err(e);
            },
        }
        k += 1;
    }
    assert(all.skip(all.len() as int) =~= Seq::<Seq<ObjIndex>>::empty());
    Ok(())
}

fn push_groups(
    m: &ObjModel,
    gs: &Vec<Vec<Vec<ObjIndex>>>,
    verts: &mut Vec<ObjVertex>,
    ranges: &mut Vec<Range<u32>>,
) -> (r: Result<(), MeshError>)
    ensures
        match scan_groups(m.model_view(), groups_view(gs@), (old(verts)@, range_pairs(old(ranges)@))) {
            Ok(a) => r is Ok && final(verts)@ == a.0 && range_pairs(final(ranges)@) == a.1,
            Err(e) => r == Err::<(), MeshError>(e),
        },
{
    let ghost mv = m.model_view();
    let ghost all = groups_view(gs@);
    let mut k: usize = 0;
    assert(all.skip(0) =~= all);
    while k < gs.len()
        invariant
            mv == m.model_view(),
            all == groups_view(gs@),
            0 <= k <= gs@.len(),
            scan_groups(mv, all, (old(verts)@, range_pairs(old(ranges)@))) == scan_groups(
                mv,
                all.skip(k as int),
                (verts@, range_pairs(ranges@)),
            ),
        decreases gs@.len() - k,
    {
        assert(all.skip(k as int)[0] == faces_view(gs@[k as int]@));
        assert(all.skip(k as int).drop_first() =~= all.skip(k + 1));
        let mat_start: u32 = verts.len() as u32;
        let res = push_faces(m, &gs[k], verts);
        match res {
            Ok(()) => {},
            Err(e) => {
                return Err(e);
            },
        }
        let mat_end: u32 = ((mat_start as u128) + (verts.len() as u128)) as u32;
        let ghost before = range_pairs(ranges@);
        ranges.push(Range { start: mat_start, end: mat_end });
        assert(range_pairs(ranges@) =~= before.push((mat_start, mat_end)));
        k += 1;
    }
    assert(all.skip(all.len() as int) =~= Seq::<Seq<Seq<ObjIndex>>>::empty());
    Ok(())
}

impl Mesh<ObjVertex> {
    /// The mesh of parsed OBJ data: the corners of all triangles in order,
    /// and one material range per group. Faces that are not triangles, and
    /// corners without texture coordinate or normal or with an index past
    /// its table, are errors; the first one found, in file order, is
    /// reported.
    pub fn from_obj_model(m: &ObjModel) -> (r: Result<Mesh<ObjVertex>, MeshError>)
        ensures
            match scan_objects(m.model_view(), m.model_view().3, (Seq::empty(), Seq::empty())) {
                Ok(a) => r matches Ok(mesh) && mesh.data.vertices@ == a.0 && mesh.data.indices is None
                    && range_pairs(mesh.material_ranges@) == a.1,
                Err(e) => r matches Err(x) && x == e,
            },
            r matches Ok(mesh) ==> {
                &&& mesh.data.vertices@.len() == 3 * faces_in_objects(m.model_view().3)
                &&& mesh.material_ranges@.len() == groups_in_objects(m.model_view().3)
            },
    {
        proof {
            law_scan_objects_counts(m.model_view(), m.model_view().3, (Seq::empty(), Seq::empty()));
        }
        let ghost mv = m.model_view();
        let ghost all = mv.3;
        let mut verts: Vec<ObjVertex> = Vec::new();
        let mut ranges: Vec<Range<u32>> = Vec::new();
        let mut k: usize = 0;
        assert(all.skip(0) =~= all);
        assert(range_pairs(ranges@) =~= Seq::<(u32, u32)>::empty());
        while k < m.objects.len()
            invariant
                mv == m.model_view(),
                all == mv.3,
                0 <= k <= m.objects@.len(),
                scan_objects(mv, all, (Seq::empty(), Seq::empty())) == scan_objects(
                    mv,
                    all.skip(k as int),
                    (verts@, range_pairs(ranges@)),
                ),
            decreases m.objects@.len() - k,
        {
            assert(all.skip(k as int)[0] == groups_view(m.objects@[k as int]@));
            assert(all.skip(k as int).drop_first() =~= all.skip(k + 1));
            let res = push_groups(m, &m.objects[k], &mut verts, &mut ranges);
            match res {
                Ok(()) => {},
                Err(e) => {
                    return Err(e);
                },
            }
            k += 1;
        }
        assert(all.skip(all.len() as int) =~= Seq::<Seq<Seq<Seq<ObjIndex>>>>::empty());
        Ok(Mesh { data: MeshVertexData::new(verts, None), material_ranges: ranges, bones: Bones::none() })
    }
}

impl Mesh<ObjVertex> {
    /// The mesh of OBJ data given as bytes: a parse error, an index past
    /// the end of an attribute table, or the result of [`Mesh::from_obj_model`].
    pub fn load_from_obj_slice(data: &[u8]) -> (r: Result<Mesh<ObjVertex>, MeshError>)
        requires
            !obj_name_split_in_char(data@),
        ensures
            parsed_obj(data@) is None ==> r matches Err(MeshError::Obj { .. }),
            parsed_obj(data@) matches Some(mv) ==> match scan_objects(mv, mv.3, (Seq::empty(), Seq::empty())) {
                Ok(a) => r matches Ok(mesh) && mesh.data.vertices@ == a.0 && mesh.data.indices is None
                    && range_pairs(mesh.material_ranges@) == a.1,
                Err(e) => r matches Err(x) && x == e,
            },
            r matches Ok(mesh) ==> parsed_obj(data@) matches Some(mv) && mesh.data.vertices@.len() == 3
                * faces_in_objects(mv.3) && mesh.material_ranges@.len() == groups_in_objects(mv.3),
    {
        match parse_obj(data) {
            Ok(t) => {
                let model = ObjModel { positions: t.0, textures: t.1, normals: t.2, objects: t.3 };
                Self::from_obj_model(&model)
            },
            Err(e) => Err(MeshError::Obj { source: e }),
        }
    }
}

} // verus!
