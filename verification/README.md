# syrillian

The data model and decision logic of the Syrillian game engine, written in
Verus with machine-checked contracts.

`src/` is the verified library:

- `ids`, `scene`: game object identifiers and the scene graph (parents,
  children, root objects, subtree deletion, the active camera).
- `component_storage`: the world's components by typed identifier and
  owning object, with the queues of added and removed components, the
  per-object component queries and object deletion with its components.
- `properties`: custom JSON properties of game objects.
- `store`, `cache`: typed asset handles, the asset store with built-in
  assets, fallbacks and change tracking, and the cache of uploaded assets.
- `texture`, `cubemap`, `material`, `mesh`, `font`, `shader`: the asset types,
  their built-in values, image and OBJ decoding, WGSL source generation.
- `scene_loader`, `node_tree`: the integer side of glTF loading (vertex
  plans, bones, image formats) and the glTF node hierarchy: the search for
  the first mesh and the object tree built from a scene.
- `input`, `components`, `render`, `app_loop`, `atlas`: keyboard and mouse
  state, component state machines, renderer and event-loop decisions, and
  glyph atlas pixel copies.
- `text`: character-level string helpers specified over `Seq<char>`.

`app/` holds the glue that cannot be verified: window events, system fonts,
file reading, glTF documents, and floating point vertex and image work.
