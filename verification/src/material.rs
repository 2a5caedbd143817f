//! Material assets: a name, a base color, optional textures, shininess,
//! opacity and the shader that draws them. Float properties are held as
//! the bits of their 32-bit values.

use crate::shader::Shader;
use crate::store::{HandleName, Store, StoreDefaults, StoreType, StoreTypeFallback, H};
use crate::texture::Texture;
use vstd::prelude::*;

verus! {

/// The bits of the float 1.0.
pub const ONE_BITS: u32 = 0x3f80_0000;

/// The bits of the float 0.7.
pub const POINT_SEVEN_BITS: u32 = 0x3f33_3333;

/// The bits of the float 0.3.
pub const POINT_THREE_BITS: u32 = 0x3e99_999a;

/// A material. `color`, `shininess` and `opacity` hold the bits of their
/// float values.
pub struct Material {
    pub name: String,
    pub color: [u32; 3],
    pub diffuse_texture: Option<H<Texture>>,
    pub normal_texture: Option<H<Texture>>,
    pub shininess_texture: Option<H<Texture>>,
    pub shininess: u32,
    pub opacity: u32,
    pub shader: H<Shader>,
}

/// Builds a [`Material`]; unset properties take their defaults: color 0.7
/// gray, no textures, shininess 0, opacity 1 and the default 3D shader.
pub struct MaterialBuilder {
    name: String,
    color: [u32; 3],
    diffuse_texture: Option<H<Texture>>,
    normal_texture: Option<H<Texture>>,
    shininess_texture: Option<H<Texture>>,
    shininess: u32,
    opacity: u32,
    shader: H<Shader>,
}

impl MaterialBuilder {
    /// The material the builder makes.
    pub closed spec fn material_spec(&self) -> (Seq<char>, Seq<u32>, Option<u32>, Option<u32>, Option<u32>, u32, u32, u32) {
        (
            self.name@,
            self.color@,
            match self.diffuse_texture { Some(h) => Some(h@), None => None },
            match self.normal_texture { Some(h) => Some(h@), None => None },
            match self.shininess_texture { Some(h) => Some(h@), None => None },
            self.shininess,
            self.opacity,
            self.shader@,
        )
    }

    /// Sets the base color.
    pub fn color(self, color: [u32; 3]) -> (r: MaterialBuilder)
        ensures
            r.material_spec() == (self.material_spec().0, color@, self.material_spec().2, self.material_spec().3,
                self.material_spec().4, self.material_spec().5, self.material_spec().6, self.material_spec().7),
    {
        MaterialBuilder { color, ..self }
    }

    /// Sets the diffuse texture.
    pub fn diffuse_texture(self, h: H<Texture>) -> (r: MaterialBuilder)
        ensures
            r.material_spec() == (self.material_spec().0, self.material_spec().1, Some(h@), self.material_spec().3,
                self.material_spec().4, self.material_spec().5, self.material_spec().6, self.material_spec().7),
    {
        MaterialBuilder { diffuse_texture: Some(h), ..self }
    }

    /// Sets the normal texture.
    pub fn normal_texture(self, h: H<Texture>) -> (r: MaterialBuilder)
        ensures
            r.material_spec() == (self.material_spec().0, self.material_spec().1, self.material_spec().2, Some(h@),
                self.material_spec().4, self.material_spec().5, self.material_spec().6, self.material_spec().7),
    {
        MaterialBuilder { normal_texture: Some(h), ..self }
    }

    /// Sets the shininess texture.
    pub fn shininess_texture(self, h: H<Texture>) -> (r: MaterialBuilder)
        ensures
            r.material_spec() == (self.material_spec().0, self.material_spec().1, self.material_spec().2,
                self.material_spec().3, Some(h@), self.material_spec().5, self.material_spec().6, self.material_spec().7),
    {
        MaterialBuilder { shininess_texture: Some(h), ..self }
    }

    /// Sets the shininess.
    pub fn shininess(self, shininess: u32) -> (r: MaterialBuilder)
        ensures
            r.material_spec() == (self.material_spec().0, self.material_spec().1, self.material_spec().2,
                self.material_spec().3, self.material_spec().4, shininess, self.material_spec().6, self.material_spec().7),
    {
        MaterialBuilder { shininess, ..self }
    }

    /// Sets the opacity.
    pub fn opacity(self, opacity: u32) -> (r: MaterialBuilder)
        ensures
            r.material_spec() == (self.material_spec().0, self.material_spec().1, self.material_spec().2,
                self.material_spec().3, self.material_spec().4, self.material_spec().5, opacity, self.material_spec().7),
    {
        MaterialBuilder { opacity, ..self }
    }

    /// Sets the shader.
    pub fn shader(self, shader: H<Shader>) -> (r: MaterialBuilder)
        ensures
            r.material_spec() == (self.material_spec().0, self.material_spec().1, self.material_spec().2,
                self.material_spec().3, self.material_spec().4, self.material_spec().5, self.material_spec().6, shader@),
    {
        MaterialBuilder { shader, ..self }
    }

    /// The material.
    pub fn build(self) -> (r: Material)
        ensures
            (r.name@, r.color@, match r.diffuse_texture { Some(h) => Some(h@), None => None },
                match r.normal_texture { Some(h) => Some(h@), None => None },
                match r.shininess_texture { Some(h) => Some(h@), None => None },
                r.shininess, r.opacity, r.shader@) == self.material_spec(),
    {
        Material {
            name: self.name,
            color: self.color,
            diffuse_texture: self.diffuse_texture,
            normal_texture: self.normal_texture,
            shininess_texture: self.shininess_texture,
            shininess: self.shininess,
            opacity: self.opacity,
            shader: self.shader,
        }
    }
}

impl Material {
    /// A builder for a material named `name`, with the default properties.
    pub fn builder(name: String) -> (r: MaterialBuilder)
        ensures
            r.material_spec() == (name@, seq![POINT_SEVEN_BITS, POINT_SEVEN_BITS, POINT_SEVEN_BITS], None::<u32>,
                None::<u32>, None::<u32>, 0u32, ONE_BITS, 2u32),
    {
        let r = MaterialBuilder {
            name,
            color: [POINT_SEVEN_BITS, POINT_SEVEN_BITS, POINT_SEVEN_BITS],
            diffuse_texture: None,
            normal_texture: None,
            shininess_texture: None,
            shininess: 0,
            opacity: ONE_BITS,
            shader: H::dim3(),
        };
        assert(r.color@ =~= seq![POINT_SEVEN_BITS, POINT_SEVEN_BITS, POINT_SEVEN_BITS]);
        r
    }
}

impl H<Material> {
    /// The material used where none is found.
    pub fn fallback_material() -> (r: H<Material>)
        ensures
            r@ == 0,
    {
        H::new(0)
    }

    /// The default material.
    pub fn default_material() -> (r: H<Material>)
        ensures
            r@ == 1,
    {
        H::new(1)
    }
}

impl StoreType for Material {
    open spec fn builtin_spec(id: u32) -> bool {
        id <= 1
    }

    open spec fn ident_spec(id: u32) -> Option<Seq<char>> {
        if id == 0 {
            Some("Fallback Material"@)
        } else if id == 1 {
            Some("Default Material"@)
        } else {
            None
        }
    }

    open spec fn type_name_spec() -> Seq<char> {
        "Material"@
    }

    fn name() -> (r: &'static str) {
        "Material"
    }

    fn ident_fmt(handle: H<Self>) -> (r: HandleName<Self>) {
        let id = handle.id();
        if id == 0 {
            HandleName::Static("Fallback Material")
        } else if id == 1 {
            HandleName::Static("Default Material")
        } else {
            HandleName::Id(handle)
        }
    }

    fn is_builtin(handle: H<Self>) -> (r: bool) {
        handle.id() <= 1
    }
}

impl StoreTypeFallback for Material {
    open spec fn fallback_spec() -> u32 {
        0
    }

    fn fallback() -> (r: H<Self>) {
        H::fallback_material()
    }
}

impl StoreDefaults for Material {
    open spec fn default_count() -> nat {
        2
    }

    /// The white fallback material drawn by the fallback shader (0), and the
    /// gray default material drawn by the 3D shader (1).
    open spec fn is_builtin_asset(id: u32, v: Self) -> bool {
        if id == 0 {
            &&& v.name@ == "Fallback Material"@
            &&& v.color@ == seq![ONE_BITS, ONE_BITS, ONE_BITS]
            &&& v.shininess == 0
            &&& v.opacity == ONE_BITS
            &&& v.shader@ == 0
            &&& v.diffuse_texture is None
        } else {
            &&& v.name@ == "Default Material"@
            &&& v.color@ == seq![POINT_SEVEN_BITS, POINT_SEVEN_BITS, POINT_SEVEN_BITS]
            &&& v.shininess == POINT_THREE_BITS
            &&& v.opacity == ONE_BITS
            &&& v.shader@ == 2
            &&& v.diffuse_texture is None
        }
    }

    /// Adds the white fallback material, drawn by the fallback shader, and
    /// the gray default material, drawn by the 3D shader.
    fn populate(store: &mut Store<Self>)
        ensures
            final(store).value(0).name@ == "Fallback Material"@,
            final(store).value(0).color@ == seq![ONE_BITS, ONE_BITS, ONE_BITS],
            final(store).value(0).shininess == 0,
            final(store).value(0).opacity == ONE_BITS,
            final(store).value(0).shader@ == 0,
            final(store).value(0).diffuse_texture is None,
            final(store).value(1).name@ == "Default Material"@,
            final(store).value(1).color@ == seq![POINT_SEVEN_BITS, POINT_SEVEN_BITS, POINT_SEVEN_BITS],
            final(store).value(1).shininess == POINT_THREE_BITS,
            final(store).value(1).opacity == ONE_BITS,
            final(store).value(1).shader@ == 2,
            final(store).value(1).diffuse_texture is None,
    {
        let fallback = Material {
            name: "Fallback Material".to_owned(),
            color: [ONE_BITS, ONE_BITS, ONE_BITS],
            diffuse_texture: None,
            normal_texture: None,
            shininess_texture: None,
            shininess: 0,
            opacity: ONE_BITS,
            shader: H::fallback_shader(),
        };
        assert(fallback.color@ =~= seq![ONE_BITS, ONE_BITS, ONE_BITS]);
        store.add(fallback);
        let default = Material {
            name: "Default Material".to_owned(),
            color: [POINT_SEVEN_BITS, POINT_SEVEN_BITS, POINT_SEVEN_BITS],
            diffuse_texture: None,
            normal_texture: None,
            shininess_texture: None,
            shininess: POINT_THREE_BITS,
            opacity: ONE_BITS,
            shader: H::dim3(),
        };
        assert(default.color@ =~= seq![POINT_SEVEN_BITS, POINT_SEVEN_BITS, POINT_SEVEN_BITS]);
        store.add(default);
    }
}

} // verus!
