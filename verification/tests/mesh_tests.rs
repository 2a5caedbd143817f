use syrillian::mesh::{Bones, MeshBuilder, obj_name_splits_in_char, pad_to_four, Mesh, MeshError, MeshVertexData};
use syrillian::store::{HandleName, StoreType, H};

#[test]
fn pad_to_four_fills_and_cuts() {
    assert_eq!(pad_to_four(&[1u32, 2], 0), [1, 2, 0, 0]);
    assert_eq!(pad_to_four(&[1u32, 2, 3, 4, 5], 0), [1, 2, 3, 4]);
    assert_eq!(pad_to_four::<u8>(&[], 9), [9, 9, 9, 9]);
}

#[test]
fn triangle_indices() {
    let unindexed = MeshVertexData::new(vec!['a'; 7], None);
    assert_eq!(unindexed.make_triangle_indices(), vec![[0, 1, 2], [3, 4, 5]]);
    let indexed = MeshVertexData::new(vec!['a'; 3], Some(vec![2, 1, 0, 0, 1]));
    assert_eq!(indexed.make_triangle_indices(), vec![[2, 1, 0]]);
}

#[test]
fn builder_defaults_to_one_range() {
    let m = Mesh::builder(vec![1u8, 2, 3, 4]).build();
    assert_eq!(m.material_ranges, vec![0..4]);
    assert!(!m.has_indices());
    assert_eq!(m.indices_count(), 0);
    let m = Mesh::builder(vec![1u8, 2, 3]).with_indices(vec![0, 1, 2, 2, 1, 0]).build();
    assert_eq!(m.material_ranges, vec![0..6]);
    assert_eq!(m.indices(), Some(&[0u32, 1, 2, 2, 1, 0][..]));
    let m = Mesh::builder(vec![1u8]).with_many_textures(vec![0..1, 1..1]).build();
    assert_eq!(m.material_ranges, vec![0..1, 1..1]);
    let m = Mesh::builder(vec![1u8, 2]).with_many_textures(vec![]).build();
    assert_eq!(m.material_ranges, vec![0..2]);
    assert_eq!(m.vertex_count(), 2);
    assert_eq!(m.vertices(), &[1u8, 2]);
}

const TRI_OBJ: &str = "v 0 0 0\nv 1 0 0\nv 0 1 0\nvt 0 0\nvt 1 0\nvn 0 0 1\nf 1/1/1 2/2/1 3/1/1\n";

#[test]
fn obj_triangle_loads() {
    let m = Mesh::load_from_obj_slice(TRI_OBJ.as_bytes()).ok().unwrap();
    assert_eq!(m.vertex_count(), 3);
    assert_eq!(m.material_ranges, vec![0..3]);
    let v = m.vertices()[1];
    assert_eq!(v.position, [1.0f32.to_bits(), 0.0f32.to_bits(), 0.0f32.to_bits()]);
    assert_eq!(v.uv, [1.0f32.to_bits(), 0.0f32.to_bits()]);
    assert_eq!(v.normal, [0.0f32.to_bits(), 0.0f32.to_bits(), 1.0f32.to_bits()]);
}

#[test]
fn obj_group_ranges_add_the_running_count() {
    let text = format!("{TRI_OBJ}g second\nf 1/1/1 2/2/1 3/1/1\n");
    let m = Mesh::load_from_obj_slice(text.as_bytes()).ok().unwrap();
    assert_eq!(m.vertex_count(), 6);
    // the second group's range ends at its start plus the total count
    assert_eq!(m.material_ranges, vec![0..3, 3..9]);
}

#[test]
fn obj_errors() {
    let quad = "v 0 0 0\nvt 0 0\nvn 0 0 1\nf 1/1/1 1/1/1 1/1/1 1/1/1\n";
    assert!(matches!(Mesh::load_from_obj_slice(quad.as_bytes()), Err(MeshError::NonTriangulated)));
    let no_uv = "v 0 0 0\nvn 0 0 1\nf 1//1 1//1 1//1\n";
    assert!(matches!(Mesh::load_from_obj_slice(no_uv.as_bytes()), Err(MeshError::UVMissing)));
    let no_normal = "v 0 0 0\nvt 0 0\nf 1/1 1/1 1/1\n";
    assert!(matches!(Mesh::load_from_obj_slice(no_normal.as_bytes()), Err(MeshError::NormalsMissing)));
    let bad_index = "v 0 0 0\nvt 0 0\nvn 0 0 1\nf 1/1/1 2/1/1 1/1/1\n";
    assert!(matches!(Mesh::load_from_obj_slice(bad_index.as_bytes()), Err(MeshError::IndexOutOfRange)));
    let quad_then_bad_index = "v 0 0 0\nvt 0 0\nvn 0 0 1\nf 1/1/1 1/1/1 1/1/1 1/1/1\nf 1/1/1 9/1/1 1/1/1\n";
    assert!(matches!(Mesh::load_from_obj_slice(quad_then_bad_index.as_bytes()), Err(MeshError::NonTriangulated)));
    let bad_index_then_quad = "v 0 0 0\nvt 0 0\nvn 0 0 1\nf 1/1/1 9/1/1 1/1/1\nf 1/1/1 1/1/1 1/1/1 1/1/1\n";
    assert!(matches!(Mesh::load_from_obj_slice(bad_index_then_quad.as_bytes()), Err(MeshError::IndexOutOfRange)));
    let no_uv_then_bad_index = "v 0 0 0\nvn 0 0 1\nf 1//1 9//1 1//1\n";
    assert!(matches!(Mesh::load_from_obj_slice(no_uv_then_bad_index.as_bytes()), Err(MeshError::UVMissing)));
    let garbage = "f 0/0/0\n";
    assert!(matches!(Mesh::load_from_obj_slice(garbage.as_bytes()), Err(MeshError::Obj { .. })));
}

#[test]
fn mesh_store_names() {
    assert_eq!(<Mesh<u8> as StoreType>::name(), "Mesh");
    assert!(Mesh::<u8>::is_builtin(H::sphere()));
    assert!(!Mesh::<u8>::is_builtin(H::new(4)));
    match Mesh::<u8>::ident_fmt(H::unit_cube()) {
        HandleName::Static(s) => assert_eq!(s, "Unit Cube"),
        HandleName::Id(_) => panic!("expected a static name"),
    }
}

#[test]
fn obj_names_cut_inside_a_character_are_detected() {
    assert!(obj_name_splits_in_char("g\u{a0}x\n".as_bytes()));
    assert!(obj_name_splits_in_char("v 0 0 0\n\u{3000}o x\n".as_bytes()));
    assert!(obj_name_splits_in_char(" \u{3000}g x".as_bytes()));
    assert!(!obj_name_splits_in_char("o x\ng y\n".as_bytes()));
    assert!(!obj_name_splits_in_char("o W\u{fc}rfel\ng \u{e9}t\u{e9}\n".as_bytes()));
    assert!(!obj_name_splits_in_char("#\u{e9}t\u{e9}\n".as_bytes()));
    assert!(!obj_name_splits_in_char("\u{3000}v 0 0 0\n".as_bytes()));
    let safe = "o W\u{fc}rfel\nv 0 0 0\nvt 0 0\nvn 0 0 1\nf 1/1/1 1/1/1 1/1/1\n";
    assert!(Mesh::load_from_obj_slice(safe.as_bytes()).is_ok());
}

#[test]
fn invalid_text_before_a_cut_name_is_a_parse_error() {
    let mut data: Vec<u8> = vec![b'#', 0xff, b'\n'];
    data.extend_from_slice("g\u{a0}x\n".as_bytes());
    assert!(!obj_name_splits_in_char(&data));
    assert!(matches!(Mesh::load_from_obj_slice(&data), Err(MeshError::Obj { .. })));
    let mut cut_line_invalid: Vec<u8> = "g\u{a0}x".as_bytes().to_vec();
    cut_line_invalid.extend_from_slice(&[0xc3, b'\n']);
    assert!(!obj_name_splits_in_char(&cut_line_invalid));
    assert!(matches!(Mesh::load_from_obj_slice(&cut_line_invalid), Err(MeshError::Obj { .. })));
    assert!(obj_name_splits_in_char("\u{a0}o x\r\n".as_bytes()));
}

#[test]
fn builder_keeps_bones_and_defaults_to_none() {
    let plain = MeshBuilder::new(vec![1u32, 2, 3]).build();
    assert!(plain.bones.names.is_empty() && plain.bones.roots.is_empty());
    let bones = Bones::from_skin(
        vec!["hip".to_string(), "leg".to_string(), "hip".to_string()],
        vec![None, Some(0), Some(1)],
    );
    assert_eq!(bones.children, vec![vec![1], vec![2], vec![]]);
    assert_eq!(bones.roots, vec![0]);
    assert_eq!(bones.index_of("hip"), Some(2));
    assert_eq!(bones.index_of("arm"), None);
    let m = MeshBuilder::new(vec![1u32, 2, 3]).with_indices(vec![0, 1, 2]).with_bones(bones).build();
    assert_eq!(m.bones.names.len(), 3);
    assert_eq!(m.bones.parents, vec![None, Some(0), Some(1)]);
    assert_eq!(m.material_ranges, vec![0..3]);
}
