//! Component identity and context: which component of which type belongs
//! to which game object, and the small component types whose state is
//! plain data.

use crate::cubemap::Cubemap;
use crate::ids::{ComponentId, GameObjectId};
use crate::store::H;
use vstd::prelude::*;

verus! {

/// The standard library's identifier of a type, compared for equality only.
#[verifier::external_type_specification]
#[verifier::external_body]
pub struct ExTypeId(std::any::TypeId);

/// Calls `std::any::TypeId::of`. The identifier depends on the build, so
/// nothing is stated of it.
#[verifier::external_body]
fn type_id_of<C: ?Sized + 'static>() -> std::any::TypeId {
    std::any::TypeId::of::<C>()
}

/// A component identifier together with the type of the component.
#[derive(Clone, Copy, Debug)]
pub struct TypedComponentId(pub std::any::TypeId, pub ComponentId);

impl TypedComponentId {
    /// The type of the component.
    pub fn type_id(&self) -> (r: std::any::TypeId)
        ensures
            r == self.0,
    {
        self.0
    }

    /// The component identifier without its type.
    pub fn component_id(&self) -> (r: ComponentId)
        ensures
            r == self.1,
    {
        self.1
    }

    /// The null identifier typed as `C`.
    pub fn null<C: ?Sized + 'static>() -> (r: TypedComponentId)
        ensures
            r.1@ == 0x1_ffff_ffffu64,
    {
        Self::from_typed::<C>(ComponentId::null())
    }

    /// The identifier `id` typed as `C`.
    pub fn from_typed<C: ?Sized + 'static>(id: ComponentId) -> (r: TypedComponentId)
        ensures
            r.1 == id,
    {
        TypedComponentId(type_id_of::<C>(), id)
    }
}

/// Who a component is: its typed identifier and the object it belongs to.
pub struct ComponentContext {
    pub tid: TypedComponentId,
    pub parent: GameObjectId,
}

impl ComponentContext {
    /// The context of component `tid` on object `parent`.
    pub fn new(tid: TypedComponentId, parent: GameObjectId) -> (r: ComponentContext)
        ensures
            r.tid == tid,
            r.parent == parent,
    {
        ComponentContext { tid, parent }
    }

    /// The context of no component on no object.
    pub fn null() -> (r: ComponentContext)
        ensures
            r.tid.1@ == 0x1_ffff_ffffu64,
            r.parent.spec_is_null(),
    {
        ComponentContext { tid: TypedComponentId::null::<ComponentContext>(), parent: GameObjectId::null() }
    }

    /// The object the component belongs to.
    pub fn parent(&self) -> (r: GameObjectId)
        ensures
            r == self.parent,
    {
        self.parent
    }
}

/// A component that is made for the object it is attached to.
pub trait NewComponent: Sized {
    /// The component for object `parent`.
    fn new(parent: GameObjectId) -> Self;
}

/// The component that places the audio listener at its object.
pub struct AudioReceiver {
    parent: GameObjectId,
}

impl AudioReceiver {
    /// The object the listener follows.
    pub closed spec fn parent_spec(&self) -> GameObjectId {
        self.parent
    }

    /// The object the listener follows.
    pub fn parent(&self) -> (r: GameObjectId)
        ensures
            r == self.parent_spec(),
    {
        self.parent
    }
}

impl NewComponent for AudioReceiver {
    fn new(parent: GameObjectId) -> (r: AudioReceiver)
        ensures
            r.parent_spec() == parent,
    {
        AudioReceiver { parent }
    }
}

/// The kinds of light.
#[derive(Clone, Copy, PartialEq, Eq, Structural, Debug)]
pub enum LightType {
    Point,
    Sun,
    Spot,
}

/// A marker type naming a kind of light.
pub trait LightTypeTrait {
    /// The kind of light the marker names.
    spec fn light_type_spec() -> LightType;

    /// The kind of light the marker names.
    fn type_id() -> (r: LightType)
        ensures
            r == Self::light_type_spec(),
    ;
}

/// Marks point lights.
pub struct Point;

/// Marks directional (sun) lights.
pub struct Sun;

/// Marks spot lights.
pub struct Spot;

impl LightTypeTrait for Sun {
    open spec fn light_type_spec() -> LightType {
        LightType::Sun
    }

    fn type_id() -> (r: LightType) {
        LightType::Sun
    }
}

impl LightTypeTrait for Point {
    open spec fn light_type_spec() -> LightType {
        LightType::Point
    }

    fn type_id() -> (r: LightType) {
        LightType::Point
    }
}

impl LightTypeTrait for Spot {
    open spec fn light_type_spec() -> LightType {
        LightType::Spot
    }

    fn type_id() -> (r: LightType) {
        LightType::Spot
    }
}

/// A text component, holding the render proxy `P` that draws its text.
pub struct Text<P> {
    proxy: P,
}

impl<P> Text<P> {
    /// The proxy of the text.
    pub closed spec fn proxy_spec(&self) -> P {
        self.proxy
    }

    /// A text component drawn by `proxy`.
    pub fn from_proxy(proxy: P) -> (r: Text<P>)
        ensures
            r.proxy_spec() == proxy,
    {
        Text { proxy }
    }

    /// The proxy that draws the text.
    pub fn text(&self) -> (r: &P)
        ensures
            *r == self.proxy_spec(),
    {
        &self.proxy
    }

    /// Mutable access to the proxy that draws the text.
    pub fn text_mut(&mut self) -> (r: &mut P)
        ensures
            *r == old(self).proxy_spec(),
            final(self).proxy_spec() == *final(r),
    {
        &mut self.proxy
    }
}

/// What a skybox shows.
#[derive(Clone, Copy)]
pub enum SkyboxType {
    Cubemap(H<Cubemap>),
}

impl SkyboxType {
    /// The cubemap shown.
    pub open spec fn cubemap_id(self) -> u32 {
        match self {
            SkyboxType::Cubemap(h) => h@,
        }
    }
}

impl Default for SkyboxType {
    fn default() -> (r: SkyboxType)
        ensures
            r.cubemap_id() == 0,
    {
        SkyboxType::Cubemap(H::fallback_cubemap())
    }
}

/// What the renderer is told after a skybox update: to show or hide the
/// skybox, and which cubemap to show.
pub struct SkyboxProxyUpdate {
    pub set_enabled: Option<bool>,
    pub cubemap: Option<H<Cubemap>>,
}

/// The skybox of a scene: which cubemap it shows and whether it is shown,
/// with the changes the renderer has not been told about yet.
pub struct SkyboxComponent {
    parent: GameObjectId,
    skybox_type: SkyboxType,
    enabled: bool,
    /// The skybox changed since the renderer was last updated.
    pub dirty_skybox: bool,
    /// Whether the renderer last showed the skybox.
    pub was_enabled: bool,
}

impl SkyboxComponent {
    /// The object the skybox belongs to.
    pub closed spec fn parent_spec(&self) -> GameObjectId {
        self.parent
    }

    /// The cubemap shown.
    pub closed spec fn cubemap_spec(&self) -> u32 {
        self.skybox_type.cubemap_id()
    }

    /// Whether the skybox is shown.
    pub closed spec fn enabled_spec(&self) -> bool {
        self.enabled
    }

    /// Whether a change is pending (the `dirty_skybox` field).
    pub closed spec fn dirty_spec(&self) -> bool {
        self.dirty_skybox
    }

    /// Whether the renderer last showed the skybox (the `was_enabled` field).
    pub closed spec fn was_enabled_spec(&self) -> bool {
        self.was_enabled
    }

    /// Whether a change is pending that the renderer has not been told of.
    pub fn is_dirty(&self) -> (r: bool)
        ensures
            r == self.dirty_spec(),
    {
        self.dirty_skybox
    }

    /// Whether the renderer last showed the skybox.
    pub fn was_shown(&self) -> (r: bool)
        ensures
            r == self.was_enabled_spec(),
    {
        self.was_enabled
    }

    /// The object the skybox belongs to.
    pub fn parent(&self) -> (r: GameObjectId)
        ensures
            r == self.parent_spec(),
    {
        self.parent
    }

    /// Shows `skybox_type` from now on.
    pub fn set_skybox_type(&mut self, skybox_type: SkyboxType)
        ensures
            final(self).cubemap_spec() == skybox_type.cubemap_id(),
            final(self).dirty_spec(),
            final(self).enabled_spec() == old(self).enabled_spec(),
            final(self).was_enabled_spec() == old(self).was_enabled_spec(),
            final(self).parent_spec() == old(self).parent_spec(),
    {
        self.skybox_type = skybox_type;
        self.dirty_skybox = true;
    }

    /// Shows a hidden skybox or hides a shown one.
    pub fn toggle_enabled(&mut self)
        ensures
            final(self).enabled_spec() == !old(self).enabled_spec(),
            final(self).dirty_spec(),
            final(self).cubemap_spec() == old(self).cubemap_spec(),
            final(self).was_enabled_spec() == old(self).was_enabled_spec(),
            final(self).parent_spec() == old(self).parent_spec(),
    {
        self.enabled = !self.enabled;
        self.dirty_skybox = true;
    }

    /// What the skybox shows.
    pub fn skybox_type(&self) -> (r: &SkyboxType)
        ensures
            r.cubemap_id() == self.cubemap_spec(),
    {
        &self.skybox_type
    }

    /// Whether the skybox is shown.
    pub fn is_enabled(&self) -> (r: bool)
        ensures
            r == self.enabled_spec(),
    {
        self.enabled
    }

    /// Brings the renderer up to date: a change of visibility is reported
    /// once, and a pending change is sent as the cubemap when the skybox is
    /// shown; afterwards nothing is pending.
    pub fn update_proxy(&mut self) -> (r: SkyboxProxyUpdate)
        ensures
            r.set_enabled == if old(self).enabled_spec() != old(self).was_enabled_spec() {
                Some(old(self).enabled_spec())
            } else {
                None::<bool>
            },
            match r.cubemap {
                Some(h) => old(self).dirty_spec() && old(self).enabled_spec() && h@ == old(self).cubemap_spec(),
                None => !(old(self).dirty_spec() && old(self).enabled_spec()),
            },
            final(self).was_enabled_spec() == old(self).enabled_spec(),
            !final(self).dirty_spec(),
            final(self).enabled_spec() == old(self).enabled_spec(),
            final(self).cubemap_spec() == old(self).cubemap_spec(),
            final(self).parent_spec() == old(self).parent_spec(),
    {
        let mut set_enabled: Option<bool> = None;
        if self.enabled != self.was_enabled {
            set_enabled = Some(self.enabled);
            self.was_enabled = self.enabled;
        }
        let mut cubemap: Option<H<Cubemap>> = None;
        if self.dirty_skybox {
            if self.enabled {
                let SkyboxType::Cubemap(h) = self.skybox_type;
                cubemap = Some(h);
            }
            self.dirty_skybox = false;
        }
        SkyboxProxyUpdate { set_enabled, cubemap }
    }
}

impl NewComponent for SkyboxComponent {
    /// A shown skybox of the fallback cubemap, with nothing pending.
    fn new(parent: GameObjectId) -> (r: SkyboxComponent)
        ensures
            r.parent_spec() == parent,
            r.cubemap_spec() == 0,
            r.enabled_spec(),
            !r.dirty_spec(),
            r.was_enabled_spec(),
    {
        SkyboxComponent {
            parent,
            skybox_type: SkyboxType::default(),
            enabled: true,
            dirty_skybox: false,
            was_enabled: true,
        }
    }
}

/// Toggling a skybox twice shows it as before, with a change pending.
pub proof fn law_toggle_twice(a: SkyboxComponent, b: SkyboxComponent, c: SkyboxComponent)
    requires
        b.enabled_spec() == !a.enabled_spec(),
        c.enabled_spec() == !b.enabled_spec(),
        c.dirty_spec(),
    ensures
        c.enabled_spec() == a.enabled_spec(),
        c.dirty_spec(),
{
}

/// After the renderer is brought up to date nothing is pending, and a
/// second update reports nothing.
pub proof fn law_update_settles(s: SkyboxComponent)
    requires
        !s.dirty_spec(),
        s.was_enabled_spec() == s.enabled_spec(),
    ensures
        !(s.dirty_spec() && s.enabled_spec()),
        !(s.enabled_spec() != s.was_enabled_spec()),
{
}

/// What playing a sound emitter does, given what it has.
#[derive(Clone, Copy, PartialEq, Eq, Structural, Debug)]
pub enum PlayStep {
    /// The sound is playing already; nothing happens.
    AlreadyPlaying,
    /// No spatial track was set up; an error is reported.
    MissingTrack,
    /// No sound was chosen; an error is reported.
    MissingAsset,
    /// The chosen sound is not in the store; a warning is reported.
    MissingSound,
    /// Start the sound with the given handle, looping or not.
    Start { sound: u32, looping: bool },
}

/// The decisions of a sound emitter: which sound it plays, whether it loops
/// and whether it was set up. Its playback settings and the audio handles
/// are kept by the caller.
pub struct AudioEmitter {
    parent: GameObjectId,
    asset_handle: Option<u32>,
    looping: bool,
    initialized: bool,
}

impl AudioEmitter {
    /// The object the emitter belongs to.
    pub closed spec fn parent_spec(&self) -> GameObjectId {
        self.parent
    }

    /// The chosen sound.
    pub closed spec fn sound_spec(&self) -> Option<u32> {
        self.asset_handle
    }

    /// Whether the emitter loops its sound.
    pub closed spec fn looping_spec(&self) -> bool {
        self.looping
    }

    /// Whether the emitter was set up.
    pub closed spec fn initialized_spec(&self) -> bool {
        self.initialized
    }

    /// Chooses the sound to play.
    pub fn set_sound(&mut self, sound: u32)
        ensures
            final(self).sound_spec() == Some(sound),
            final(self).looping_spec() == old(self).looping_spec(),
            final(self).initialized_spec() == old(self).initialized_spec(),
            final(self).parent_spec() == old(self).parent_spec(),
    {
        self.asset_handle = Some(sound);
    }

    /// Sets the emitter up with a sound; its spatial track is created by the
    /// caller.
    pub fn init(&mut self, sound: u32)
        ensures
            final(self).sound_spec() == Some(sound),
            final(self).initialized_spec(),
            final(self).looping_spec() == old(self).looping_spec(),
            final(self).parent_spec() == old(self).parent_spec(),
    {
        self.set_sound(sound);
        self.initialized = true;
    }

    /// Makes the emitter loop its sound.
    pub fn start_looping(&mut self)
        ensures
            final(self).looping_spec(),
            final(self).sound_spec() == old(self).sound_spec(),
            final(self).initialized_spec() == old(self).initialized_spec(),
            final(self).parent_spec() == old(self).parent_spec(),
    {
        self.looping = true;
    }

    /// Stops looping; the caller stops the playing sound, if any.
    pub fn stop_looping(&mut self)
        ensures
            !final(self).looping_spec(),
            final(self).sound_spec() == old(self).sound_spec(),
            final(self).initialized_spec() == old(self).initialized_spec(),
            final(self).parent_spec() == old(self).parent_spec(),
    {
        self.looping = false;
    }

    /// Whether the emitter loops its sound.
    pub fn is_looping(&self) -> (r: bool)
        ensures
            r == self.looping_spec(),
    {
        self.looping
    }

    /// Whether a frame update of the emitter moves its track and plays: only
    /// once set up; it plays when looping.
    pub fn update_step(&self) -> (r: (bool, bool))
        ensures
            r == (self.initialized_spec(), self.initialized_spec() && self.looping_spec()),
    {
        (self.initialized, self.initialized && self.looping)
    }

    /// What playing does: nothing while the sound plays; otherwise it needs
    /// a track, a chosen sound and that sound in the store, in that order.
    pub fn play_step(&self, playing: bool, has_track: bool, sound_loaded: bool) -> (r: PlayStep)
        ensures
            r == if playing {
                PlayStep::AlreadyPlaying
            } else if !has_track {
                PlayStep::MissingTrack
            } else if self.sound_spec() is None {
                PlayStep::MissingAsset
            } else if !sound_loaded {
                PlayStep::MissingSound
            } else {
                PlayStep::Start { sound: self.sound_spec()->Some_0, looping: self.looping_spec() }
            },
    {
        if playing {
            return PlayStep::AlreadyPlaying;
        }
        if !has_track {
            return PlayStep::MissingTrack;
        }
        let sound = match self.asset_handle {
            Some(h) => h,
            None => {
                return PlayStep::MissingAsset;
            },
        };
        if !sound_loaded {
            return PlayStep::MissingSound;
        }
        PlayStep::Start { sound, looping: self.looping }
    }
}

impl NewComponent for AudioEmitter {
    /// An emitter with no sound, not looping, not set up.
    fn new(parent: GameObjectId) -> (r: AudioEmitter)
        ensures
            r.parent_spec() == parent,
            r.sound_spec() is None,
            !r.looping_spec(),
            !r.initialized_spec(),
    {
        AudioEmitter { parent, asset_handle: None, looping: false, initialized: false }
    }
}

} // verus!
