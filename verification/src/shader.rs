//! Shader assets: their kinds and settings, the built-in shaders, which
//! bind groups a shader uses, pipeline layout slots and the generation of
//! full WGSL sources from shader code and shared snippets.

use crate::store::{HandleName, Store, StoreType, StoreTypeFallback, StoreTypeName, H};
use crate::text::{
    chars_eq, chars_of, decimal, decimal_chars, find, find_in, lines, push_str_chars,
    replace_all, replace_chars, split_lines, string_from_chars, trim, trim_slice,
    lemma_replace_all_absent, lemma_replace_all_same, occurs_in,
};
use vstd::prelude::*;

verus! {

/// The code of a shader: a complete module, or a fragment stage that is
/// completed with the default vertex stage.
#[derive(Clone, Debug)]
pub enum ShaderCode {
    Full(String),
    Fragment(String),
}

impl ShaderCode {
    /// The WGSL text of the code.
    pub open spec fn source(&self) -> Seq<char> {
        match self {
            ShaderCode::Full(c) => c@,
            ShaderCode::Fragment(c) => c@,
        }
    }

    /// Whether the code holds only a fragment stage.
    pub fn is_only_fragment_shader(&self) -> (r: bool)
        ensures
            r == (self is Fragment),
    {
        match self {
            ShaderCode::Full(_) => false,
            ShaderCode::Fragment(_) => true,
        }
    }

    /// The WGSL text of the code.
    pub fn code(&self) -> (r: &str)
        ensures
            r@ == self.source(),
    {
        match self {
            ShaderCode::Full(code) => code.as_str(),
            ShaderCode::Fragment(code) => code.as_str(),
        }
    }
}

/// The render pass a shader belongs to.
#[derive(Clone, Copy, PartialEq, Eq, Structural, Debug)]
pub enum PipelineStage {
    Default,
    PostProcess,
}

/// How polygons are rasterized.
#[derive(Clone, Copy, PartialEq, Eq, Structural, Debug)]
pub enum PolygonMode {
    Fill,
    Line,
    Point,
}

/// How vertices are assembled into primitives.
#[derive(Clone, Copy, PartialEq, Eq, Structural, Debug)]
pub enum PrimitiveTopology {
    PointList,
    LineList,
    LineStrip,
    TriangleList,
    TriangleStrip,
}

/// The vertex buffer layouts a custom shader is drawn with.
#[derive(Clone, Copy, PartialEq, Eq, Structural, Debug)]
pub enum VertexLayout {
    /// The mesh vertex layout, stepped per vertex.
    Mesh,
    /// The mesh vertex layout, stepped per instance.
    MeshPerInstance,
    /// Glyph position and atlas coordinate, stepped per vertex.
    Text,
    /// Glyph position only, stepped per vertex.
    TextGeometry,
    /// Start and end points and colors of a line, stepped per instance.
    DebugLine,
    /// No vertex buffers.
    Empty,
}

/// The push constant ranges a custom shader declares.
#[derive(Clone, Copy, PartialEq, Eq, Structural, Debug)]
pub enum PushConstants {
    /// No push constants.
    Nothing,
    /// The text push constants, for the vertex and fragment stages.
    Text,
    /// One vector-aligned color, for the fragment stage.
    FragmentColor,
    /// Four bytes, for the vertex stage.
    VertexIndex,
}

/// A bind group layout a pipeline can use.
#[derive(Clone, Copy, PartialEq, Eq, Structural, Debug)]
pub enum BindGroup {
    Render,
    Model,
    Material,
    Light,
    Shadow,
    PostProcess,
    Empty,
}

/// A shader asset.
#[derive(Clone, Debug)]
pub enum Shader {
    Default { name: String, code: ShaderCode, polygon_mode: PolygonMode },
    PostProcess { name: String, code: ShaderCode },
    Custom {
        name: String,
        code: ShaderCode,
        polygon_mode: PolygonMode,
        topology: PrimitiveTopology,
        vertex_buffers: VertexLayout,
        push_constant_ranges: PushConstants,
        shadow_transparency: bool,
    },
}

impl Shader {
    /// The name of the shader.
    pub open spec fn name_view(&self) -> Seq<char> {
        match self {
            Shader::Default { name, .. } => name@,
            Shader::PostProcess { name, .. } => name@,
            Shader::Custom { name, .. } => name@,
        }
    }

    /// The code of the shader.
    pub open spec fn code_view(&self) -> ShaderCode {
        match self {
            Shader::Default { code, .. } => *code,
            Shader::PostProcess { code, .. } => *code,
            Shader::Custom { code, .. } => *code,
        }
    }

    /// The polygon mode of the shader.
    pub open spec fn polygon_mode_spec(&self) -> PolygonMode {
        match self {
            Shader::Default { polygon_mode, .. } => *polygon_mode,
            Shader::Custom { polygon_mode, .. } => *polygon_mode,
            Shader::PostProcess { .. } => PolygonMode::Fill,
        }
    }

    /// The primitive topology of the shader.
    pub open spec fn topology_spec(&self) -> PrimitiveTopology {
        match self {
            Shader::Custom { topology, .. } => *topology,
            _ => PrimitiveTopology::TriangleList,
        }
    }

    /// A default-stage shader named `name` with `code` filled polygons.
    pub open spec fn is_default_with(self, name: Seq<char>, code: Seq<char>, fragment: bool) -> bool {
        &&& self matches Shader::Default { name: n, code: c, polygon_mode: p }
        &&& n@ == name
        &&& c.source() == code
        &&& (c is Fragment) == fragment
        &&& p == PolygonMode::Fill
    }

    /// A post-processing shader named `name` with the complete module `code`.
    pub open spec fn is_post_process_with(self, name: Seq<char>, code: Seq<char>) -> bool {
        &&& self matches Shader::PostProcess { name: n, code: c }
        &&& n@ == name
        &&& c is Full
        &&& c.source() == code
    }

    /// A custom shader with the given settings and the complete module `code`.
    pub open spec fn is_custom_with(
        self,
        name: Seq<char>,
        code: Seq<char>,
        polygon_mode: PolygonMode,
        topology: PrimitiveTopology,
        vertex_buffers: VertexLayout,
        push_constant_ranges: PushConstants,
        shadow_transparency: bool,
    ) -> bool {
        &&& self matches Shader::Custom {
            name: n,
            code: c,
            polygon_mode: p,
            topology: t,
            vertex_buffers: v,
            push_constant_ranges: pc,
            shadow_transparency: st,
        }
        &&& n@ == name
        &&& c is Full
        &&& c.source() == code
        &&& p == polygon_mode
        &&& t == topology
        &&& v == vertex_buffers
        &&& pc == push_constant_ranges
        &&& st == shadow_transparency
    }

    /// `a` and `b` are the same shader but for their code.
    pub open spec fn same_but_code(a: Shader, b: Shader) -> bool {
        match (a, b) {
            (Shader::Default { name: n1, polygon_mode: p1, .. }, Shader::Default { name: n2, polygon_mode: p2, .. }) =>
                n1@ == n2@ && p1 == p2,
            (Shader::PostProcess { name: n1, .. }, Shader::PostProcess { name: n2, .. }) => n1@ == n2@,
            (
                Shader::Custom {
                    name: n1,
                    polygon_mode: p1,
                    topology: t1,
                    vertex_buffers: v1,
                    push_constant_ranges: c1,
                    shadow_transparency: s1,
                    ..
                },
                Shader::Custom {
                    name: n2,
                    polygon_mode: p2,
                    topology: t2,
                    vertex_buffers: v2,
                    push_constant_ranges: c2,
                    shadow_transparency: s2,
                    ..
                },
            ) => n1@ == n2@ && p1 == p2 && t1 == t2 && v1 == v2 && c1 == c2 && s1 == s2,
            _ => false,
        }
    }

    /// A post-processing shader with a complete module.
    pub fn new_post_process(name: &str, code: &str) -> (r: Shader)
        ensures
            r.is_post_process_with(name@, code@),
    {
        Shader::PostProcess { name: name.to_owned(), code: ShaderCode::Full(code.to_owned()) }
    }

    /// A default-stage shader with only a fragment stage.
    pub fn new_fragment(name: &str, code: &str) -> (r: Shader)
        ensures
            r.is_default_with(name@, code@, true),
    {
        Shader::Default {
            name: name.to_owned(),
            code: ShaderCode::Fragment(code.to_owned()),
            polygon_mode: PolygonMode::Fill,
        }
    }

    /// A default-stage shader with a complete module.
    pub fn new_default(name: &str, code: &str) -> (r: Shader)
        ensures
            r.is_default_with(name@, code@, false),
    {
        Shader::Default {
            name: name.to_owned(),
            code: ShaderCode::Full(code.to_owned()),
            polygon_mode: PolygonMode::Fill,
        }
    }

    /// The name of the shader.
    pub fn name(&self) -> (r: &str)
        ensures
            r@ == self.name_view(),
    {
        match self {
            Shader::Default { name, .. } => name.as_str(),
            Shader::PostProcess { name, .. } => name.as_str(),
            Shader::Custom { name, .. } => name.as_str(),
        }
    }

    /// The polygon mode; post-processing shaders fill.
    pub fn polygon_mode(&self) -> (r: PolygonMode)
        ensures
            r == self.polygon_mode_spec(),
    {
        match self {
            Shader::Default { polygon_mode, .. } => *polygon_mode,
            Shader::Custom { polygon_mode, .. } => *polygon_mode,
            Shader::PostProcess { .. } => PolygonMode::Fill,
        }
    }

    /// The primitive topology; only custom shaders choose theirs.
    pub fn topology(&self) -> (r: PrimitiveTopology)
        ensures
            r == self.topology_spec(),
    {
        match self {
            Shader::Default { .. } => PrimitiveTopology::TriangleList,
            Shader::PostProcess { .. } => PrimitiveTopology::TriangleList,
            Shader::Custom { topology, .. } => *topology,
        }
    }

    /// Replaces the code with the complete module `source`.
    pub fn set_code(&mut self, source: String)
        ensures
            Shader::same_but_code(*old(self), *final(self)),
            final(self).code_view() is Full,
            final(self).code_view().source() == source@,
    {
        match self {
            Shader::Default { code, .. } => {
                *code = ShaderCode::Full(source);
            },
            Shader::PostProcess { code, .. } => {
                *code = ShaderCode::Full(source);
            },
            Shader::Custom { code, .. } => {
                *code = ShaderCode::Full(source);
            },
        }
    }

    /// Replaces the code with the fragment stage `source`.
    pub fn set_fragment_code(&mut self, source: String)
        ensures
            Shader::same_but_code(*old(self), *final(self)),
            final(self).code_view() is Fragment,
            final(self).code_view().source() == source@,
    {
        match self {
            Shader::Default { code, .. } => {
                *code = ShaderCode::Fragment(source);
            },
            Shader::PostProcess { code, .. } => {
                *code = ShaderCode::Fragment(source);
            },
            Shader::Custom { code, .. } => {
                *code = ShaderCode::Fragment(source);
            },
        }
    }

    /// The code of the shader.
    pub fn code(&self) -> (r: &ShaderCode)
        ensures
            *r == self.code_view(),
    {
        match self {
            Shader::Default { code, .. } => code,
            Shader::PostProcess { code, .. } => code,
            Shader::Custom { code, .. } => code,
        }
    }

    /// The render pass of the shader.
    pub fn stage(&self) -> (r: PipelineStage)
        ensures
            r == (if self is PostProcess { PipelineStage::PostProcess } else { PipelineStage::Default }),
    {
        match self {
            Shader::Default { .. } => PipelineStage::Default,
            Shader::PostProcess { .. } => PipelineStage::PostProcess,
            Shader::Custom { .. } => PipelineStage::Default,
        }
    }

    /// The push constant ranges; only custom shaders declare any.
    pub fn push_constant_ranges(&self) -> (r: PushConstants)
        ensures
            r == match self {
                Shader::Custom { push_constant_ranges, .. } => *push_constant_ranges,
                _ => PushConstants::Nothing,
            },
    {
        match self {
            Shader::Default { .. } => PushConstants::Nothing,
            Shader::PostProcess { .. } => PushConstants::Nothing,
            Shader::Custom { push_constant_ranges, .. } => *push_constant_ranges,
        }
    }

    /// The vertex buffer layouts; non-custom shaders use the mesh layout.
    pub fn vertex_buffers(&self) -> (r: VertexLayout)
        ensures
            r == match self {
                Shader::Custom { vertex_buffers, .. } => *vertex_buffers,
                _ => VertexLayout::Mesh,
            },
    {
        match self {
            Shader::Custom { vertex_buffers, .. } => *vertex_buffers,
            _ => VertexLayout::Mesh,
        }
    }

    /// Whether this is a custom shader.
    pub fn is_custom(&self) -> (r: bool)
        ensures
            r == (self is Custom),
    {
        match self {
            Shader::Custom { .. } => true,
            _ => false,
        }
    }

    /// Whether this is a post-processing shader.
    pub fn is_post_process(&self) -> (r: bool)
        ensures
            r == (self is PostProcess),
    {
        match self {
            Shader::PostProcess { .. } => true,
            _ => false,
        }
    }

    /// Whether this custom shader casts shadows through transparent parts.
    pub fn has_shadow_transparency(&self) -> (r: bool)
        ensures
            r == (*self matches Shader::Custom { shadow_transparency, .. } && shadow_transparency),
    {
        match self {
            Shader::Custom { shadow_transparency, .. } => *shadow_transparency,
            _ => false,
        }
    }
}

/// The group a line of a custom shader imports: the trimmed text after the
/// first `#use ` of the line, if it has one.
pub open spec fn use_target(line: Seq<char>) -> Option<Seq<char>> {
    match find(line, "#use "@) {
        Some(k) => Some(trim(line.skip(k + 5))),
        None => None,
    }
}

/// Some line of `code` imports `group`.
pub open spec fn declares_use(code: Seq<char>, group: Seq<char>) -> bool {
    exists|i: int| 0 <= i < lines(code).len() && use_target(#[trigger] lines(code)[i]) == Some(group)
}

/// The name a custom shader imports a bind group by, for the groups it can
/// import.
pub open spec fn use_name(bgl: BindGroup) -> Option<Seq<char>> {
    match bgl {
        BindGroup::Model => Some("model"@),
        BindGroup::Material => Some("material"@),
        BindGroup::Light => Some("light"@),
        BindGroup::Shadow => Some("shadow"@),
        _ => None,
    }
}

/// The group imported by `line`, if any.
fn use_target_of(line: &[char]) -> (r: Option<Vec<char>>)
    ensures
        match r {
            Some(g) => use_target(line@) == Some(g@),
            None => use_target(line@) is None,
        },
{
    let pat = chars_of("#use ");
    proof {
        reveal_strlit("#use ");
    }
    let n: usize = line.len();
    match find_in(line, pat.as_slice()) {
        Some(k) => {
            proof {
                crate::text::lemma_find_from(line@, pat@, 0);
                assert(pat@.len() == 5);
                assert(k + 5 <= line@.len());
            }
            let g = trim_slice(line, k + 5, n);
            assert(line@.skip(k + 5) =~= line@.subrange(k + 5, line@.len() as int));
            Some(g)
        },
        None => None,
    }
}

impl Shader {
    /// Whether a pipeline for this shader binds `bgl`: every group for
    /// built-in kinds; for custom shaders the render group, and the groups
    /// their code imports with a `#use` line.
    pub open spec fn needs_bgl_spec(self, bgl: BindGroup) -> bool {
        ||| !(self is Custom)
        ||| bgl == BindGroup::Render
        ||| (use_name(bgl) matches Some(n) && declares_use(self.code_view().source(), n))
    }

    /// Whether a pipeline for this shader binds `bgl`.
    pub fn needs_bgl(&self, bgl: BindGroup) -> (r: bool)
        ensures
            r == self.needs_bgl_spec(bgl),
    {
        if !self.is_custom() {
            return true;
        }
        let use_name_str: &str = match bgl {
            BindGroup::Model => "model",
            BindGroup::Material => "material",
            BindGroup::Light => "light",
            BindGroup::Shadow => "shadow",
            BindGroup::Render => {
                return true;
            },
            _ => {
                return false;
            },
        };
        let name = chars_of(use_name_str);
        let source = chars_of(self.code().code());
        let ls = split_lines(source.as_slice());
        let ghost code = self.code_view().source();
        let mut i: usize = 0;
        while i < ls.len()
            invariant
                0 <= i <= ls@.len(),
                ls@.len() == lines(code).len(),
                forall|j: int| 0 <= j < ls@.len() ==> #[trigger] ls@[j]@ == lines(code)[j],
                use_name(bgl) == Some(name@),
                code == self.code_view().source(),
                forall|j: int| 0 <= j < i ==> use_target(#[trigger] lines(code)[j]) != Some(name@),
            decreases ls@.len() - i,
        {
            match use_target_of(ls[i].as_slice()) {
                Some(g) => {
                    if chars_eq(g.as_slice(), name.as_slice()) {
                        assert(ls@[i as int]@ == lines(code)[i as int]);
                        assert(use_target(lines(code)[i as int]) == Some(name@));
                        assert(declares_use(code, name@));
                        return true;
                    }
                },
                None => {},
            }
            assert(ls@[i as int]@ == lines(code)[i as int]);
            i += 1;
        }
        false
    }
}

/// The slot of the last bind group that is set, or 0 when none is.
pub open spec fn last_filled(slots: Seq<Option<BindGroup>>) -> int
    decreases slots.len(),
{
    if slots.len() == 0 {
        0
    } else if slots.last() is Some {
        slots.len() - 1
    } else {
        last_filled(slots.drop_last())
    }
}

/// The bind group layouts of a pipeline from its slots: every slot up to
/// the last one set, unset slots filled with the empty group.
pub open spec fn layout_of(slots: Seq<Option<BindGroup>>) -> Seq<BindGroup> {
    Seq::new(
        (last_filled(slots) + 1) as nat,
        |i: int|
            match slots[i] {
                Some(g) => g,
                None => BindGroup::Empty,
            },
    )
}

/// `g` in its slot when `used`, else nothing.
pub open spec fn slot_if(used: bool, g: BindGroup) -> Option<BindGroup> {
    if used {
        Some(g)
    } else {
        None
    }
}

proof fn lemma_last_filled(slots: Seq<Option<BindGroup>>, i: int)
    requires
        0 <= i <= slots.len(),
        forall|k: int| i <= k < slots.len() ==> slots[k] is None,
    ensures
        last_filled(slots) == last_filled(slots.take(i)),
        0 <= last_filled(slots) < if slots.len() == 0 { 1 } else { slots.len() },
    decreases slots.len(),
{
    if slots.len() > 0 {
        if slots.last() is None {
            if i < slots.len() {
                assert(slots.drop_last().take(i) =~= slots.take(i));
                lemma_last_filled(slots.drop_last(), i);
            } else {
                assert(slots.take(i) =~= slots);
                lemma_last_filled(slots.drop_last(), i - 1);
            }
        } else {
            assert(slots.take(i) =~= slots);
        }
    }
}

fn layout_from_slots(slots: &Vec<Option<BindGroup>>) -> (r: Vec<BindGroup>)
    requires
        slots@.len() > 0,
    ensures
        r@ == layout_of(slots@),
{
    let mut i: usize = slots.len();
    while i > 0 && slots[i - 1].is_none()
        invariant
            0 <= i <= slots@.len(),
            forall|k: int| i <= k < slots@.len() ==> slots@[k] is None,
        decreases i,
    {
        i -= 1;
    }
    proof {
        lemma_last_filled(slots@, i as int);
        if i > 0 {
            assert(slots@.take(i as int).last() == slots@[i - 1]);
        }
    }
    let last: usize = if i == 0 { 0 } else { i - 1 };
    let n: usize = slots.len();
    let mut out: Vec<BindGroup> = Vec::new();
    let mut k: usize = 0;
    while k <= last
        invariant
            n == slots@.len(),
            last == last_filled(slots@),
            last < slots@.len(),
            0 <= k <= last + 1,
            out@.len() == k,
            forall|j: int| 0 <= j < k ==> out@[j] == layout_of(slots@)[j],
        decreases last + 1 - k,
    {
        let g = match slots[k] {
            Some(g) => g,
            None => BindGroup::Empty,
        };
        out.push(g);
        k += 1;
    }
    assert(out@ =~= layout_of(slots@));
    out
}

impl Shader {
    /// The bind group slots of the shader's main pipeline: render first;
    /// then post-processing for post-processing shaders, else model,
    /// material, light and shadow where the shader uses them.
    pub open spec fn solid_slots(self) -> Seq<Option<BindGroup>> {
        if self is PostProcess {
            seq![Some(BindGroup::Render), Some(BindGroup::PostProcess), None, None, None, None]
        } else {
            seq![
                Some(BindGroup::Render),
                slot_if(self.needs_bgl_spec(BindGroup::Model), BindGroup::Model),
                slot_if(self.needs_bgl_spec(BindGroup::Material), BindGroup::Material),
                slot_if(self.needs_bgl_spec(BindGroup::Light), BindGroup::Light),
                slot_if(self.needs_bgl_spec(BindGroup::Shadow), BindGroup::Shadow),
                None,
            ]
        }
    }

    /// The bind group slots of the shader's shadow pipeline: render, then
    /// model, material and light where the shader uses them.
    pub open spec fn shadow_slots(self) -> Seq<Option<BindGroup>> {
        seq![
            Some(BindGroup::Render),
            slot_if(self.needs_bgl_spec(BindGroup::Model), BindGroup::Model),
            slot_if(self.needs_bgl_spec(BindGroup::Material), BindGroup::Material),
            slot_if(self.needs_bgl_spec(BindGroup::Light), BindGroup::Light),
            None,
            None,
        ]
    }

    fn slot(&self, g: BindGroup) -> (r: Option<BindGroup>)
        ensures
            r == slot_if(self.needs_bgl_spec(g), g),
    {
        if self.needs_bgl(g) {
            Some(g)
        } else {
            None
        }
    }

    /// The bind group layouts of the shader's main pipeline, in order.
    pub fn solid_layout(&self) -> (r: Vec<BindGroup>)
        ensures
            r@ == layout_of(self.solid_slots()),
    {
        let mut slots: Vec<Option<BindGroup>> = Vec::new();
        slots.push(Some(BindGroup::Render));
        if self.is_post_process() {
            slots.push(Some(BindGroup::PostProcess));
            slots.push(None);
            slots.push(None);
            slots.push(None);
        } else {
            slots.push(self.slot(BindGroup::Model));
            slots.push(self.slot(BindGroup::Material));
            slots.push(self.slot(BindGroup::Light));
            slots.push(self.slot(BindGroup::Shadow));
        }
        slots.push(None);
        assert(slots@ =~= self.solid_slots());
        layout_from_slots(&slots)
    }

    /// The bind group layouts of the shader's shadow pipeline, in order;
    /// post-processing shaders have none.
    pub fn shadow_layout(&self) -> (r: Option<Vec<BindGroup>>)
        ensures
            match r {
                Some(v) => !(self is PostProcess) && v@ == layout_of(self.shadow_slots()),
                None => self is PostProcess,
            },
    {
        if self.is_post_process() {
            return None;
        }
        let mut slots: Vec<Option<BindGroup>> = Vec::new();
        slots.push(Some(BindGroup::Render));
        slots.push(self.slot(BindGroup::Model));
        slots.push(self.slot(BindGroup::Material));
        slots.push(self.slot(BindGroup::Light));
        slots.push(None);
        slots.push(None);
        assert(slots@ =~= self.shadow_slots());
        Some(layout_from_slots(&slots))
    }
}

/// The WGSL sources of the built-in shaders.
pub struct BuiltinShaderSources {
    pub fallback_3d: String,
    pub dim2: String,
    pub dim3: String,
    pub text_2d: String,
    pub text_3d: String,
    pub fullscreen_copy: String,
    pub skybox_cubemap: String,
    pub debug_edges: String,
    pub debug_vertex_normals: String,
    pub debug_lines: String,
    pub debug_text_2d_geometry: String,
    pub debug_text_3d_geometry: String,
    pub debug_light: String,
}

impl H<Shader> {
    /// The shader used when a pipeline fails.
    pub fn fallback_shader() -> (r: H<Shader>)
        ensures
            r@ == 0,
    {
        H::new(0)
    }

    /// The default 2D shader.
    pub fn dim2() -> (r: H<Shader>)
        ensures
            r@ == 1,
    {
        H::new(1)
    }

    /// The default 3D shader.
    pub fn dim3() -> (r: H<Shader>)
        ensures
            r@ == 2,
    {
        H::new(2)
    }

    /// The default post-processing shader.
    pub fn post_process() -> (r: H<Shader>)
        ensures
            r@ == 3,
    {
        H::new(3)
    }

    /// The 2D text shader.
    pub fn text_2d() -> (r: H<Shader>)
        ensures
            r@ == 4,
    {
        H::new(4)
    }

    /// The 3D text shader.
    pub fn text_3d() -> (r: H<Shader>)
        ensures
            r@ == 5,
    {
        H::new(5)
    }

    /// The skybox cubemap shader.
    pub fn skybox_cubemap() -> (r: H<Shader>)
        ensures
            r@ == 6,
    {
        H::new(6)
    }

    /// The shader drawing mesh edges for debugging.
    pub fn debug_edges() -> (r: H<Shader>)
        ensures
            r@ == 7,
    {
        H::new(7)
    }

    /// The shader drawing vertex normals for debugging.
    pub fn debug_vertex_normals() -> (r: H<Shader>)
        ensures
            r@ == 8,
    {
        H::new(8)
    }

    /// The shader drawing debug lines.
    pub fn debug_lines() -> (r: H<Shader>)
        ensures
            r@ == 9,
    {
        H::new(9)
    }

    /// The shader drawing 2D text geometry for debugging.
    pub fn debug_text_2d_geometry() -> (r: H<Shader>)
        ensures
            r@ == 10,
    {
        H::new(10)
    }

    /// The shader drawing 3D text geometry for debugging.
    pub fn debug_text_3d_geometry() -> (r: H<Shader>)
        ensures
            r@ == 11,
    {
        H::new(11)
    }

    /// The shader drawing lights for debugging.
    pub fn debug_light() -> (r: H<Shader>)
        ensures
            r@ == 12,
    {
        H::new(12)
    }
}

/// The highest identifier of a built-in shader. The built-in set includes
/// the debug shaders.
pub const MAX_BUILTIN_SHADER_ID: u32 = 12;

impl StoreType for Shader {
    open spec fn builtin_spec(id: u32) -> bool {
        id <= MAX_BUILTIN_SHADER_ID
    }

    open spec fn ident_spec(id: u32) -> Option<Seq<char>> {
        if id == 0 {
            Some("Diffuse Fallback"@)
        } else if id == 1 {
            Some("2 Dimensional Shader"@)
        } else if id == 2 {
            Some("3 Dimensional Shader"@)
        } else if id == 4 {
            Some("2D Text Shader"@)
        } else if id == 5 {
            Some("3D Text Shader"@)
        } else if id == 3 {
            Some("Post Process Shader"@)
        } else if id == 7 {
            Some("Debug Edges Shader"@)
        } else if id == 8 {
            Some("Debug Vertex Normals Shader"@)
        } else if id == 9 {
            Some("Debug Rays Shader"@)
        } else if id == 10 {
            Some("Debug Text 2D Geometry Shader"@)
        } else if id == 11 {
            Some("Debug Text 3D Geometry Shader"@)
        } else if id == 12 {
            Some("Debug Lights Shader"@)
        } else if id == 6 {
            Some("Skybox Cubemap Shader"@)
        } else {
            None
        }
    }

    open spec fn type_name_spec() -> Seq<char> {
        "Shader"@
    }

    fn name() -> (r: &'static str) {
        "Shader"
    }

    fn ident_fmt(handle: H<Self>) -> (r: HandleName<Self>) {
        let id = handle.id();
        let name = if id == 0 {
            "Diffuse Fallback"
        } else if id == 1 {
            "2 Dimensional Shader"
        } else if id == 2 {
            "3 Dimensional Shader"
        } else if id == 4 {
            "2D Text Shader"
        } else if id == 5 {
            "3D Text Shader"
        } else if id == 3 {
            "Post Process Shader"
        } else if id == 7 {
            "Debug Edges Shader"
        } else if id == 8 {
            "Debug Vertex Normals Shader"
        } else if id == 9 {
            "Debug Rays Shader"
        } else if id == 10 {
            "Debug Text 2D Geometry Shader"
        } else if id == 11 {
            "Debug Text 3D Geometry Shader"
        } else if id == 12 {
            "Debug Lights Shader"
        } else if id == 6 {
            "Skybox Cubemap Shader"
        } else {
            return HandleName::Id(handle);
        };
        HandleName::Static(name)
    }

    fn is_builtin(handle: H<Self>) -> (r: bool) {
        handle.id() <= MAX_BUILTIN_SHADER_ID
    }
}

impl StoreTypeFallback for Shader {
    open spec fn fallback_spec() -> u32 {
        0
    }

    fn fallback() -> (r: H<Self>) {
        H::fallback_shader()
    }
}

impl StoreTypeName for Shader {
    open spec fn name_spec(&self) -> Seq<char> {
        self.name_view()
    }

    fn name(&self) -> (r: &str) {
        Shader::name(self)
    }
}

impl Shader {
    /// Adds the built-in shaders to an empty store, each at its fixed
    /// identifier, with the given sources.
    pub fn populate(store: &mut Store<Shader>, src: &BuiltinShaderSources)
        requires
            old(store).wf(),
            old(store).next_id() == 0,
        ensures
            final(store).wf(),
            final(store).next_id() == MAX_BUILTIN_SHADER_ID + 1,
            final(store).dirty_ids() == old(store).dirty_ids(),
            forall|id: u32| id <= MAX_BUILTIN_SHADER_ID ==> final(store).contains(id),
            final(store).value(0).is_default_with("Fallback"@, src.fallback_3d@, false),
            final(store).value(1).is_default_with("2D Default Pipeline"@, src.dim2@, false),
            final(store).value(2).is_default_with("3D Default Pipeline"@, src.dim3@, true),
            final(store).value(3).is_post_process_with("Post Process"@, src.fullscreen_copy@),
            final(store).value(4).is_custom_with(
                "Text 2D Shader"@,
                src.text_2d@,
                PolygonMode::Fill,
                PrimitiveTopology::TriangleList,
                VertexLayout::Text,
                PushConstants::Text,
                false,
            ),
            final(store).value(5).is_custom_with(
                "Text 3D Shader"@,
                src.text_3d@,
                PolygonMode::Fill,
                PrimitiveTopology::TriangleList,
                VertexLayout::Text,
                PushConstants::Text,
                true,
            ),
            final(store).value(6).is_default_with("Skybox Cubemap"@, src.skybox_cubemap@, false),
            final(store).value(7).is_custom_with(
                "Mesh Debug Edges Shader"@,
                src.debug_edges@,
                PolygonMode::Line,
                PrimitiveTopology::TriangleList,
                VertexLayout::Mesh,
                PushConstants::FragmentColor,
                false,
            ),
            final(store).value(8).is_custom_with(
                "Mesh Debug Vertices Shader"@,
                src.debug_vertex_normals@,
                PolygonMode::Line,
                PrimitiveTopology::LineList,
                VertexLayout::MeshPerInstance,
                PushConstants::Nothing,
                false,
            ),
            final(store).value(9).is_custom_with(
                "Line Debug"@,
                src.debug_lines@,
                PolygonMode::Line,
                PrimitiveTopology::LineList,
                VertexLayout::DebugLine,
                PushConstants::Nothing,
                false,
            ),
            final(store).value(10).is_custom_with(
                "Debug 2D Text Geometry Shader"@,
                src.debug_text_2d_geometry@,
                PolygonMode::Line,
                PrimitiveTopology::TriangleList,
                VertexLayout::TextGeometry,
                PushConstants::Text,
                false,
            ),
            final(store).value(11).is_custom_with(
                "Debug 3D Text Geometry Shader"@,
                src.debug_text_3d_geometry@,
                PolygonMode::Line,
                PrimitiveTopology::TriangleList,
                VertexLayout::TextGeometry,
                PushConstants::Text,
                false,
            ),
            final(store).value(12).is_custom_with(
                "Light Debug"@,
                src.debug_light@,
                PolygonMode::Line,
                PrimitiveTopology::LineList,
                VertexLayout::Empty,
                PushConstants::VertexIndex,
                false,
            ),
    {
        store.add(Shader::new_default("Fallback", src.fallback_3d.as_str()));
        store.add(Shader::new_default("2D Default Pipeline", src.dim2.as_str()));
        store.add(Shader::new_fragment("3D Default Pipeline", src.dim3.as_str()));
        store.add(Shader::new_post_process("Post Process", src.fullscreen_copy.as_str()));
        store.add(Shader::custom("Text 2D Shader", src.text_2d.as_str(), PolygonMode::Fill,
            PrimitiveTopology::TriangleList, VertexLayout::Text, PushConstants::Text, false));
        store.add(Shader::custom("Text 3D Shader", src.text_3d.as_str(), PolygonMode::Fill,
            PrimitiveTopology::TriangleList, VertexLayout::Text, PushConstants::Text, true));
        store.add(Shader::new_default("Skybox Cubemap", src.skybox_cubemap.as_str()));
        store.add(Shader::custom("Mesh Debug Edges Shader", src.debug_edges.as_str(),
            PolygonMode::Line, PrimitiveTopology::TriangleList, VertexLayout::Mesh,
            PushConstants::FragmentColor, false));
        store.add(Shader::custom("Mesh Debug Vertices Shader", src.debug_vertex_normals.as_str(),
            PolygonMode::Line, PrimitiveTopology::LineList, VertexLayout::MeshPerInstance,
            PushConstants::Nothing, false));
        store.add(Shader::custom("Line Debug", src.debug_lines.as_str(), PolygonMode::Line,
            PrimitiveTopology::LineList, VertexLayout::DebugLine, PushConstants::Nothing, false));
        store.add(Shader::custom("Debug 2D Text Geometry Shader", src.debug_text_2d_geometry.as_str(),
            PolygonMode::Line, PrimitiveTopology::TriangleList, VertexLayout::TextGeometry,
            PushConstants::Text, false));
        store.add(Shader::custom("Debug 3D Text Geometry Shader", src.debug_text_3d_geometry.as_str(),
            PolygonMode::Line, PrimitiveTopology::TriangleList, VertexLayout::TextGeometry,
            PushConstants::Text, false));
        store.add(Shader::custom("Light Debug", src.debug_light.as_str(), PolygonMode::Line,
            PrimitiveTopology::LineList, VertexLayout::Empty, PushConstants::VertexIndex, false));
    }

    /// A custom shader with a complete module.
    pub fn custom(
        name: &str,
        code: &str,
        polygon_mode: PolygonMode,
        topology: PrimitiveTopology,
        vertex_buffers: VertexLayout,
        push_constant_ranges: PushConstants,
        shadow_transparency: bool,
    ) -> (r: Shader)
        ensures
            r.is_custom_with(
                name@,
                code@,
                polygon_mode,
                topology,
                vertex_buffers,
                push_constant_ranges,
                shadow_transparency,
            ),
    {
        Shader::Custom {
            name: name.to_owned(),
            code: ShaderCode::Full(code.to_owned()),
            polygon_mode,
            topology,
            vertex_buffers,
            push_constant_ranges,
            shadow_transparency,
        }
    }
}

/// The WGSL snippets shared by generated shaders.
pub struct ShaderSnippets {
    pub post_process_header: String,
    pub default_header: String,
    pub light_group: String,
    pub base_group: String,
    pub model_group: String,
    pub material_group: String,
    pub default_vertex_3d: String,
    pub post_process_vertex: String,
}

/// Where each bind group of a pipeline is bound; the groups a pipeline
/// does not use have no index.
#[derive(Clone, Copy, PartialEq, Eq, Structural, Debug)]
pub struct BindGroupMap {
    pub render: u32,
    pub model: Option<u32>,
    pub material: Option<u32>,
    pub light: Option<u32>,
    pub shadow: Option<u32>,
    pub post_process: Option<u32>,
}

/// A line break.
pub open spec fn nl() -> Seq<char> {
    seq!['\n']
}

/// The attribute that binds a WGSL resource to group `k`.
pub open spec fn group_tag(k: nat) -> Seq<char> {
    "@group("@ + decimal(k) + ")"@
}

/// `s` with the group attribute of `from` rewritten to `to`.
pub open spec fn replace_group(s: Seq<char>, from: nat, to: nat) -> Seq<char> {
    replace_all(s, group_tag(from), group_tag(to))
}

/// `s` with group `from` rewritten to the mapped index, if there is one.
pub open spec fn replace_group_opt(s: Seq<char>, from: nat, to: Option<u32>) -> Seq<char> {
    match to {
        Some(i) => replace_group(s, from, i as nat),
        None => s,
    }
}

/// The groups of `src`, written for the fixed layout (render 0, model 1,
/// material 2, light 3, shadow 4, post-processing 1), moved to the indices
/// of `map`, one group after the other.
pub open spec fn rewrite_spec(src: Seq<char>, map: BindGroupMap) -> Seq<char> {
    let s0 = replace_group(src, 0, map.render as nat);
    let s1 = replace_group_opt(s0, 1, map.model);
    let s2 = replace_group_opt(s1, 2, map.material);
    let s3 = replace_group_opt(s2, 3, map.light);
    let s4 = replace_group_opt(s3, 4, map.shadow);
    replace_group_opt(s4, 1, map.post_process)
}

fn group_tag_chars(k: u32) -> (r: Vec<char>)
    ensures
        r@ == group_tag(k as nat),
        r@.len() > 0,
{
    let mut out = chars_of("@group(");
    let mut digits = decimal_chars(k);
    out.append(&mut digits);
    push_str_chars(&mut out, ")");
    proof {
        reveal_strlit("@group(");
    }
    out
}

fn replace_group_chars(s: Vec<char>, from: u32, to: u32) -> (r: Vec<char>)
    ensures
        r@ == replace_group(s@, from as nat, to as nat),
{
    let pat = group_tag_chars(from);
    let rep = group_tag_chars(to);
    replace_chars(s.as_slice(), pat.as_slice(), rep.as_slice())
}

fn replace_group_opt_chars(s: Vec<char>, from: u32, to: Option<u32>) -> (r: Vec<char>)
    ensures
        r@ == replace_group_opt(s@, from as nat, to),
{
    match to {
        Some(i) => replace_group_chars(s, from, i),
        None => s,
    }
}

fn rewrite_chars(src: Vec<char>, map: &BindGroupMap) -> (r: Vec<char>)
    ensures
        r@ == rewrite_spec(src@, *map),
{
    let out = replace_group_chars(src, 0, map.render);
    let out = replace_group_opt_chars(out, 1, map.model);
    let out = replace_group_opt_chars(out, 2, map.material);
    let out = replace_group_opt_chars(out, 3, map.light);
    let out = replace_group_opt_chars(out, 4, map.shadow);
    replace_group_opt_chars(out, 1, map.post_process)
}

/// Whether `map` binds every group where the source already has it (render
/// 0, model 1, material 2, light 3, shadow 4, post-processing 1), or leaves
/// it unbound.
pub open spec fn is_identity_map(map: BindGroupMap) -> bool {
    &&& map.render == 0
    &&& (map.model is None || map.model == Some(1u32))
    &&& (map.material is None || map.material == Some(2u32))
    &&& (map.light is None || map.light == Some(3u32))
    &&& (map.shadow is None || map.shadow == Some(4u32))
    &&& (map.post_process is None || map.post_process == Some(1u32))
}

/// Rewriting with a map that binds each group where it already is leaves the
/// source unchanged.
pub proof fn law_rewrite_identity(src: Seq<char>, map: BindGroupMap)
    requires
        is_identity_map(map),
    ensures
        rewrite_spec(src, map) == src,
{
    lemma_replace_all_same(src, group_tag(0));
    lemma_replace_all_same(src, group_tag(1));
    lemma_replace_all_same(src, group_tag(2));
    lemma_replace_all_same(src, group_tag(3));
    lemma_replace_all_same(src, group_tag(4));
}

/// A source without any `@group(` attribute is left unchanged, whatever the map.
pub proof fn law_rewrite_without_groups(src: Seq<char>, map: BindGroupMap)
    requires
        !occurs_in(src, "@group("@),
    ensures
        rewrite_spec(src, map) == src,
{
    reveal_strlit("@group(");
    let q = "@group("@;
    assert forall|from: nat, to: nat| replace_group(src, from, to) == src by {
        let pat = group_tag(from);
        assert(pat.take(q.len() as int) =~= q);
        lemma_replace_all_absent(src, pat, group_tag(to), q);
    }
}

/// Moves the bind groups of `source` to the indices of `map`.
pub fn rewrite_bind_groups(source: String, map: &BindGroupMap) -> (r: String)
    ensures
        r@ == rewrite_spec(source@, *map),
{
    let chars = chars_of(source.as_str());
    let out = rewrite_chars(chars, map);
    string_from_chars(out.as_slice())
}

/// What a `#use` line of a custom shader pulls in.
pub open spec fn custom_import(group: Seq<char>, sn: ShaderSnippets) -> Seq<char> {
    if group == "model"@ {
        sn.model_group@
    } else if group == "material"@ {
        sn.material_group@
    } else if group == "light"@ {
        sn.light_group@
    } else if group == "default_vertex"@ {
        sn.default_header@
    } else {
        Seq::empty()
    }
}

/// A `#use <g>` line of a custom shader becomes the snippet of the group
/// named `g`, followed by a line break: `model` the model group, `material`
/// the material group, `light` the light group and `default_vertex` the
/// default vertex header.
pub proof fn law_use_line_imports_named_group(line: Seq<char>, sn: ShaderSnippets)
    ensures
        use_target(line) == Some("model"@) ==> expand_line(line, sn) == sn.model_group@ + nl(),
        use_target(line) == Some("material"@) ==> expand_line(line, sn) == sn.material_group@ + nl(),
        use_target(line) == Some("light"@) ==> expand_line(line, sn) == sn.light_group@ + nl(),
        use_target(line) == Some("default_vertex"@) ==> expand_line(line, sn) == sn.default_header@ + nl(),
{
    reveal_strlit("model");
    reveal_strlit("material");
    reveal_strlit("light");
    reveal_strlit("default_vertex");
    assert("material"@.len() != "model"@.len());
    assert("light"@[0] != "model"@[0]);
    assert("light"@.len() != "material"@.len());
    assert("default_vertex"@.len() != "model"@.len());
    assert("default_vertex"@.len() != "material"@.len());
    assert("default_vertex"@.len() != "light"@.len());
}

/// A line of a custom shader as it appears in the generated source: a
/// `#use` line becomes the snippet it names, other lines stay.
pub open spec fn expand_line(line: Seq<char>, sn: ShaderSnippets) -> Seq<char> {
    match use_target(line) {
        Some(g) => custom_import(g, sn) + nl(),
        None => line + nl(),
    }
}

/// The lines `ls` of a custom shader as they appear in the generated source.
pub open spec fn expand_lines(ls: Seq<Seq<char>>, sn: ShaderSnippets) -> Seq<char>
    decreases ls.len(),
{
    if ls.len() == 0 {
        Seq::empty()
    } else {
        expand_lines(ls.drop_last(), sn) + expand_line(ls.last(), sn)
    }
}

/// The default vertex stage, where `code` holds only a fragment stage.
pub open spec fn vertex_part(code: ShaderCode, vertex: Seq<char>) -> Seq<char> {
    if code is Fragment {
        vertex + nl()
    } else {
        Seq::empty()
    }
}

/// The source of a default-stage shader before its groups are moved: the
/// render group, then for built-in kinds the default header, model,
/// material and (with depth) light groups and the code; for custom shaders
/// the code with its imports expanded. Fragment-only code gets the default
/// vertex stage.
pub open spec fn default_source(code: ShaderCode, custom: bool, has_depth: bool, sn: ShaderSnippets) -> Seq<char> {
    let head = sn.base_group@ + nl();
    if !custom {
        head + sn.default_header@ + nl() + sn.model_group@ + nl() + sn.material_group@ + nl() + (if has_depth {
            sn.light_group@ + nl()
        } else {
            Seq::empty()
        }) + vertex_part(code, sn.default_vertex_3d@) + code.source()
    } else {
        head + expand_lines(lines(code.source()), sn) + vertex_part(code, sn.default_vertex_3d@)
    }
}

/// The source of a post-processing shader before its groups are moved.
pub open spec fn post_process_source(code: ShaderCode, sn: ShaderSnippets) -> Seq<char> {
    sn.base_group@ + nl() + sn.post_process_header@ + nl() + vertex_part(code, sn.post_process_vertex@)
        + code.source()
}

fn import_for(group: &[char], sn: &ShaderSnippets) -> (r: Vec<char>)
    ensures
        r@ == custom_import(group@, *sn),
{
    if chars_eq(group, chars_of("model").as_slice()) {
        chars_of(sn.model_group.as_str())
    } else if chars_eq(group, chars_of("material").as_slice()) {
        chars_of(sn.material_group.as_str())
    } else if chars_eq(group, chars_of("light").as_slice()) {
        chars_of(sn.light_group.as_str())
    } else if chars_eq(group, chars_of("default_vertex").as_slice()) {
        chars_of(sn.default_header.as_str())
    } else {
        Vec::new()
    }
}

/// Generates the full source of a default-stage shader.
pub fn generate_default(
    code: &ShaderCode,
    custom: bool,
    has_depth: bool,
    map: &BindGroupMap,
    sn: &ShaderSnippets,
) -> (r: String)
    ensures
        r@ == rewrite_spec(default_source(*code, custom, has_depth, *sn), *map),
{
    let mut generated = chars_of(sn.base_group.as_str());
    generated.push('\n');
    let fragment_only = code.is_only_fragment_shader();
    if !custom {
        push_str_chars(&mut generated, sn.default_header.as_str());
        generated.push('\n');
        push_str_chars(&mut generated, sn.model_group.as_str());
        generated.push('\n');
        push_str_chars(&mut generated, sn.material_group.as_str());
        generated.push('\n');
        if has_depth {
            push_str_chars(&mut generated, sn.light_group.as_str());
            generated.push('\n');
        }
        if fragment_only {
            push_str_chars(&mut generated, sn.default_vertex_3d.as_str());
            generated.push('\n');
        }
        push_str_chars(&mut generated, code.code());
        assert(generated@ =~= default_source(*code, custom, has_depth, *sn));
        let out = rewrite_chars(generated, map);
        return string_from_chars(out.as_slice());
    }
    let source = chars_of(code.code());
    let ls = split_lines(source.as_slice());
    let ghost head = sn.base_group@ + nl();
    let ghost all = lines(code.source());
    let mut i: usize = 0;
    while i < ls.len()
        invariant
            0 <= i <= ls@.len(),
            ls@.len() == all.len(),
            forall|j: int| 0 <= j < ls@.len() ==> #[trigger] ls@[j]@ == all[j],
            generated@ == head + expand_lines(all.take(i as int), *sn),
        decreases ls@.len() - i,
    {
        let line = &ls[i];
        match use_target_of(line.as_slice()) {
            Some(g) => {
                let mut part = import_for(g.as_slice(), sn);
                generated.append(&mut part);
            },
            None => {
                let mut part = copy_all(line.as_slice());
                generated.append(&mut part);
            },
        }
        generated.push('\n');
        proof {
            assert(all.take(i + 1).drop_last() =~= all.take(i as int));
            assert(all.take(i + 1).last() == all[i as int]);
            assert(ls@[i as int]@ == all[i as int]);
        }
        i += 1;
    }
    if fragment_only {
        push_str_chars(&mut generated, sn.default_vertex_3d.as_str());
        generated.push('\n');
    }
    proof {
        assert(all.take(all.len() as int) =~= all);
    }
    assert(generated@ =~= default_source(*code, custom, has_depth, *sn));
    let out = rewrite_chars(generated, map);
    string_from_chars(out.as_slice())
}

fn copy_all(s: &[char]) -> (r: Vec<char>)
    ensures
        r@ == s@,
{
    let mut out: Vec<char> = Vec::new();
    let mut k: usize = 0;
    while k < s.len()
        invariant
            0 <= k <= s@.len(),
            out@ =~= s@.take(k as int),
        decreases s@.len() - k,
    {
        out.push(s[k]);
        k += 1;
    }
    assert(s@.take(s@.len() as int) =~= s@);
    out
}

/// Generates the full source of a post-processing shader.
pub fn generate_post_process(code: &ShaderCode, map: &BindGroupMap, sn: &ShaderSnippets) -> (r: String)
    ensures
        r@ == rewrite_spec(post_process_source(*code, *sn), *map),
{
    let mut generated = chars_of(sn.base_group.as_str());
    generated.push('\n');
    push_str_chars(&mut generated, sn.post_process_header.as_str());
    generated.push('\n');
    if code.is_only_fragment_shader() {
        push_str_chars(&mut generated, sn.post_process_vertex.as_str());
        generated.push('\n');
    }
    push_str_chars(&mut generated, code.code());
    assert(generated@ =~= post_process_source(*code, *sn));
    let out = rewrite_chars(generated, map);
    string_from_chars(out.as_slice())
}

/// The full source generated for `shader`: a post-processing source for
/// post-processing shaders, a default-stage source for the others.
pub open spec fn generated_source(shader: Shader, map: BindGroupMap, sn: ShaderSnippets, has_depth: bool) -> Seq<char> {
    if shader is PostProcess {
        rewrite_spec(post_process_source(shader.code_view(), sn), map)
    } else {
        rewrite_spec(default_source(shader.code_view(), shader is Custom, has_depth, sn), map)
    }
}

/// Generates the full WGSL source of a shader for a pipeline layout.
pub struct ShaderGen<'a> {
    pub shader: &'a Shader,
    pub map: &'a BindGroupMap,
}

impl<'a> ShaderGen<'a> {
    /// A generator for `shader` with the bind group indices of `map`.
    pub fn new(shader: &'a Shader, map: &'a BindGroupMap) -> (r: Self)
        ensures
            *r.shader == *shader,
            *r.map == *map,
    {
        ShaderGen { shader, map }
    }

    /// The full source, with the shared snippets `sn`; `has_depth` adds the
    /// light group to built-in default-stage shaders.
    pub fn generate(self, sn: &ShaderSnippets, has_depth: bool) -> (r: String)
        ensures
            r@ == generated_source(*self.shader, *self.map, *sn, has_depth),
    {
        let shader = self.shader;
        let code = shader.code();
        match shader.stage() {
            PipelineStage::Default => generate_default(code, shader.is_custom(), has_depth, self.map, sn),
            PipelineStage::PostProcess => generate_post_process(code, self.map, sn),
        }
    }
}

impl Shader {
    /// The full source of this shader for the bind group indices of `map`.
    pub fn gen_code(&self, map: &BindGroupMap, sn: &ShaderSnippets, has_depth: bool) -> (r: String)
        ensures
            r@ == generated_source(*self, *map, *sn, has_depth),
    {
        ShaderGen::new(self, map).generate(sn, has_depth)
    }
}

proof fn lemma_last_filled_bounds(slots: Seq<Option<BindGroup>>)
    requires
        slots.len() > 0,
    ensures
        0 <= last_filled(slots) < slots.len(),
        slots[0] is Some ==> slots[last_filled(slots)] is Some,
    decreases slots.len(),
{
    if slots.last() is None {
        if slots.len() > 1 {
            lemma_last_filled_bounds(slots.drop_last());
            assert(slots.drop_last()[0] == slots[0]);
        } else {
            assert(last_filled(slots.drop_last()) == 0);
        }
    }
}

/// Every pipeline layout of a shader starts with the render group and ends
/// with a group the shader uses, never with a filler.
pub proof fn law_layout_starts_with_render(s: Shader)
    ensures
        layout_of(s.solid_slots()).len() >= 1,
        layout_of(s.solid_slots())[0] == BindGroup::Render,
        layout_of(s.solid_slots()).last() != BindGroup::Empty,
        layout_of(s.shadow_slots()).len() >= 1,
        layout_of(s.shadow_slots())[0] == BindGroup::Render,
        layout_of(s.shadow_slots()).last() != BindGroup::Empty,
{
    lemma_last_filled_bounds(s.solid_slots());
    lemma_last_filled_bounds(s.shadow_slots());
}

} // verus!
