//! Core data model of the Syrillian engine: scene graph, asset stores,
//! input state, shader source generation and asset data helpers.

pub mod app_loop;
pub mod atlas;
pub mod cache;
pub mod component_storage;
pub mod components;
pub mod cubemap;
pub mod font;
pub mod glyphs;
pub mod gltf_doc;
pub mod ids;
pub mod input;
pub mod material;
pub mod mesh;
pub mod node_tree;
pub mod properties;
pub mod render;
pub mod scene;
pub mod scene_loader;
pub mod shader;
pub mod store;
pub mod text;
pub mod texture;
