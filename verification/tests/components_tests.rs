use syrillian::components::{
    AudioEmitter, AudioReceiver, PlayStep, ComponentContext, LightType, LightTypeTrait, NewComponent, Point, SkyboxComponent, SkyboxType, Spot,
    Sun, Text, TypedComponentId,
};
use syrillian::cubemap::Cubemap;
use syrillian::ids::{ComponentId, GameObjectId};
use syrillian::store::H;

#[test]
fn test_dirty_flag_set_on_skybox_type_change() {
    let parent_id = GameObjectId::from_ffi(1);
    let mut component = SkyboxComponent::new(parent_id);
    let cubemap = H::<Cubemap>::fallback_cubemap();
    component.set_skybox_type(SkyboxType::Cubemap(cubemap));

    assert!(component.dirty_skybox);
}

#[test]
fn test_enable_disable_functionality() {
    let parent_id = GameObjectId::from_ffi(1);
    let mut component = SkyboxComponent::new(parent_id);
    let cubemap = H::<Cubemap>::fallback_cubemap();
    component.set_skybox_type(SkyboxType::Cubemap(cubemap));
    component.toggle_enabled();
    component.toggle_enabled();

    assert!(component.is_enabled());
    assert!(component.dirty_skybox);
}

#[test]
fn test_dirty_flags_with_setters() {
    let parent_id = GameObjectId::from_ffi(1);
    let mut component = SkyboxComponent::new(parent_id);

    assert!(!component.dirty_skybox);

    let cubemap = H::<Cubemap>::fallback_cubemap();
    component.set_skybox_type(SkyboxType::Cubemap(cubemap));

    assert!(component.dirty_skybox);

    component.dirty_skybox = false;
    component.toggle_enabled();

    assert!(component.dirty_skybox);
}

#[test]
fn new_skybox_shows_the_fallback_cubemap() {
    let parent_id = GameObjectId::from_ffi(1);
    let component = SkyboxComponent::new(parent_id);
    assert_eq!(component.parent(), parent_id);
    assert!(component.is_enabled());
    assert!(!component.dirty_skybox);
    assert!(component.was_enabled);
    let SkyboxType::Cubemap(handle) = component.skybox_type();
    assert_eq!(handle.id(), 0);
}

#[test]
fn skybox_proxy_updates() {
    let mut sky = SkyboxComponent::new(GameObjectId::from_ffi(1));
    let u = sky.update_proxy();
    assert_eq!(u.set_enabled, None);
    assert!(u.cubemap.is_none());
    sky.set_skybox_type(SkyboxType::Cubemap(H::new(4)));
    let u = sky.update_proxy();
    assert_eq!(u.set_enabled, None);
    assert_eq!(u.cubemap.map(|h| h.id()), Some(4));
    assert!(!sky.dirty_skybox);
    sky.toggle_enabled();
    let u = sky.update_proxy();
    assert_eq!(u.set_enabled, Some(false));
    assert!(u.cubemap.is_none());
    assert!(!sky.was_enabled);
    let u = sky.update_proxy();
    assert_eq!(u.set_enabled, None);
}

#[test]
fn component_context_and_ids() {
    let null = ComponentContext::null();
    assert!(null.parent().is_null());
    assert!(null.tid.component_id().is_null());
    let tid = TypedComponentId::from_typed::<AudioReceiver>(ComponentId::from_ffi(7));
    assert_eq!(tid.component_id().as_ffi(), 7 | (1 << 32));
    assert_eq!(tid.type_id(), std::any::TypeId::of::<AudioReceiver>());
    let parent = GameObjectId::from_ffi(3);
    let ctx = ComponentContext::new(tid, parent);
    assert_eq!(ctx.parent(), parent);
    let r = AudioReceiver::new(parent);
    assert_eq!(r.parent(), parent);
}

#[test]
fn light_markers() {
    assert_eq!(Point::type_id(), LightType::Point);
    assert_eq!(Sun::type_id(), LightType::Sun);
    assert_eq!(Spot::type_id(), LightType::Spot);
}

#[test]
fn text_gives_access_to_its_proxy() {
    let mut t = Text::from_proxy(5u32);
    assert_eq!(*t.text(), 5);
    *t.text_mut() = 9;
    assert_eq!(*t.text(), 9);
}

#[test]
fn audio_emitter_decisions() {
    let mut e = AudioEmitter::new(GameObjectId::from_ffi(2));
    assert_eq!(e.update_step(), (false, false));
    assert_eq!(e.play_step(false, true, true), PlayStep::MissingAsset);
    assert_eq!(e.play_step(false, false, true), PlayStep::MissingTrack);
    e.init(4);
    e.start_looping();
    assert!(e.is_looping());
    assert_eq!(e.update_step(), (true, true));
    assert_eq!(e.play_step(false, true, true), PlayStep::Start { sound: 4, looping: true });
    assert_eq!(e.play_step(true, true, true), PlayStep::AlreadyPlaying);
    assert_eq!(e.play_step(false, true, false), PlayStep::MissingSound);
    e.stop_looping();
    assert_eq!(e.update_step(), (true, false));
}

#[test]
fn test_skybox_component_new_should_succeed() {
    let parent_id = GameObjectId::from_ffi(1);
    let component = SkyboxComponent::new(parent_id);

    assert_eq!(component.parent(), parent_id);
    assert!(component.is_enabled());
    assert!(!component.dirty_skybox);
    assert!(component.was_enabled);

    let SkyboxType::Cubemap(handle) = component.skybox_type();
    assert_eq!(handle.id(), H::<Cubemap>::fallback_cubemap().id());
}

#[test]
fn test_skybox_methods_work() {
    let parent_id = GameObjectId::from_ffi(1);
    let mut component = SkyboxComponent::new(parent_id);

    assert!(component.is_enabled());
    component.toggle_enabled();
    assert!(!component.is_enabled());
    component.toggle_enabled();
    assert!(component.is_enabled());

    let cubemap = H::<Cubemap>::fallback_cubemap();
    let new_type = SkyboxType::Cubemap(cubemap);
    component.set_skybox_type(new_type);
    let SkyboxType::Cubemap(handle) = component.skybox_type();
    assert_eq!(handle.id(), cubemap.id());
}

#[test]
fn skybox_flags_are_readable_through_getters() {
    let mut component = SkyboxComponent::new(GameObjectId::from_ffi(1));
    assert!(!component.is_dirty());
    assert!(component.was_shown());
    component.set_skybox_type(SkyboxType::Cubemap(H::<Cubemap>::fallback_cubemap()));
    assert!(component.is_dirty());
    assert_eq!(component.is_dirty(), component.dirty_skybox);
}
