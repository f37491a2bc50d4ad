use ice_spar::material::{
    default_color, find_color_property, find_float_property, select_textures, ColorLookup, ColorProperty, FloatLookup,
    DefaultColor, FloatProperty, PropertyShape, TextureKind,
};
use ice_spar::mesh::{fill_attribute, flatten_faces, mesh_index_data, row_major_to_columns};
use ice_spar::scene::{mesh_materials_exist, is_tree_wf, mesh_material_pairs, mesh_visits, SceneNode};

fn node(meshes: Vec<u32>, children: Vec<usize>) -> SceneNode {
    SceneNode { meshes, children }
}

#[test]
fn faces_flatten_in_order() {
    let faces = vec![vec![0, 1, 2], vec![2, 3, 0], vec![]];
    assert_eq!(flatten_faces(&faces), vec![0, 1, 2, 2, 3, 0]);
    let d = mesh_index_data(&faces, 4);
    assert_eq!(d.indices, vec![0, 1, 2, 2, 3, 0]);
    assert_eq!(d.vertex_count, 4);
    assert_eq!(d.index_count, 6);
    assert!(flatten_faces(&Vec::new()).is_empty());
}

#[test]
fn counts_wrap_like_u32() {
    let d = mesh_index_data(&vec![], (1usize << 32) + 3);
    assert_eq!(d.vertex_count, 3);
}

#[test]
fn missing_attributes_get_default() {
    let uv = vec![[1u8, 2], [3, 4]];
    assert_eq!(fill_attribute(&uv, 4, [0, 0]), vec![[1, 2], [3, 4], [0, 0], [0, 0]]);
    assert_eq!(fill_attribute(&uv, 1, [0, 0]), vec![[1, 2]]);
    let none: Vec<u32> = Vec::new();
    assert_eq!(fill_attribute(&none, 3, 7), vec![7, 7, 7]);
}

#[test]
fn matrix_reorder() {
    let m: [u32; 16] = [0, 1, 2, 3, 4, 5, 6, 7, 8, 9, 10, 11, 12, 13, 14, 15];
    let t = row_major_to_columns(&m);
    assert_eq!(t, [0, 4, 8, 12, 1, 5, 9, 13, 2, 6, 10, 14, 3, 7, 11, 15]);
    assert_eq!(row_major_to_columns(&t), m);
}

#[test]
fn depth_first_mesh_order() {
    // root(0) draws mesh 5 and has children 1 and 3; node 1 has child 2.
    let nodes = vec![
        node(vec![5], vec![1, 3]),
        node(vec![0, 1], vec![2]),
        node(vec![2], vec![]),
        node(vec![3], vec![]),
    ];
    assert!(is_tree_wf(&nodes));
    let v = mesh_visits(&nodes);
    let got: Vec<(u32, Vec<usize>)> = v.iter().map(|x| (x.mesh_index, x.path.clone())).collect();
    assert_eq!(
        got,
        vec![
            (5, vec![0]),
            (0, vec![0, 1]),
            (1, vec![0, 1]),
            (2, vec![0, 1, 2]),
            (3, vec![0, 3]),
        ]
    );
}

#[test]
fn malformed_trees_rejected() {
    assert!(!is_tree_wf(&Vec::new()));
    assert!(!is_tree_wf(&vec![node(vec![], vec![0])]));
    assert!(!is_tree_wf(&vec![node(vec![], vec![1])]));
    assert!(!is_tree_wf(&vec![node(vec![], vec![2]), node(vec![], vec![]), node(vec![], vec![1])]));
    assert!(is_tree_wf(&vec![node(vec![], vec![])]));
}

#[test]
fn trees_need_one_parent_per_node() {
    // Node 2 listed under two parents.
    assert!(!is_tree_wf(&vec![node(vec![], vec![1, 2]), node(vec![], vec![2]), node(vec![], vec![])]));
    // Node 1 listed twice under the root.
    assert!(!is_tree_wf(&vec![node(vec![], vec![1, 1]), node(vec![], vec![])]));
    // Node 1 under no parent.
    assert!(!is_tree_wf(&vec![node(vec![], vec![]), node(vec![], vec![])]));
    assert!(is_tree_wf(&vec![node(vec![], vec![1, 2]), node(vec![], vec![]), node(vec![], vec![])]));
}

#[test]
fn one_visit_per_mesh_reference() {
    let nodes = vec![
        node(vec![7, 7], vec![2, 1]),
        node(vec![], vec![3]),
        node(vec![1, 2, 3], vec![]),
        node(vec![4], vec![]),
    ];
    assert!(is_tree_wf(&nodes));
    let v = mesh_visits(&nodes);
    assert_eq!(v.len(), 6);
    for (x, expected) in [(0usize, 2usize), (1, 0), (2, 3), (3, 1)] {
        assert_eq!(v.iter().filter(|e| *e.path.last().unwrap() == x).count(), expected);
    }
}

#[test]
fn meshes_paired_with_materials() {
    let nodes = vec![node(vec![1, 0], vec![])];
    let v = mesh_visits(&nodes);
    let mesh_material = vec![2, 0];
    assert!(mesh_materials_exist(&v, &mesh_material, 3));
    assert!(!mesh_materials_exist(&v, &mesh_material, 2));
    assert!(!mesh_materials_exist(&v, &vec![0], 3));
    assert_eq!(mesh_material_pairs(&v, &mesh_material, 3), vec![(1, 0), (0, 2)]);
}

#[test]
fn texture_roles_with_fallbacks() {
    let s = select_textures(&vec![TextureKind::Diffuse, TextureKind::Normals, TextureKind::Roughness]);
    assert_eq!(s.base_color, Some(TextureKind::Diffuse));
    assert_eq!(s.normal, Some(TextureKind::Normals));
    assert_eq!(s.roughness, Some(TextureKind::Roughness));
    assert_eq!(s.emissive, None);
    assert_eq!(s.metalness, None);
    let s = select_textures(&vec![
        TextureKind::Diffuse,
        TextureKind::BaseColor,
        TextureKind::Emissive,
        TextureKind::EmissionColor,
        TextureKind::NormalCamera,
        TextureKind::Sheen,
    ]);
    assert_eq!(s.base_color, Some(TextureKind::BaseColor));
    assert_eq!(s.emissive, Some(TextureKind::EmissionColor));
    assert_eq!(s.normal, Some(TextureKind::NormalCamera));
    assert_eq!(s.sheen, Some(TextureKind::Sheen));
    assert_eq!(s.transmission, None);
}

fn prop(key: &str, n: Option<usize>) -> PropertyShape {
    PropertyShape { key: key.to_string(), float_count: n }
}

#[test]
fn color_lookup_takes_first_usable() {
    let props = vec![
        prop("$clr.diffuse", Some(2)),
        prop("$clr.specular", Some(4)),
        prop("$clr.diffuse", None),
        prop("$clr.diffuse", Some(3)),
        prop("$clr.diffuse", Some(4)),
    ];
    assert_eq!(find_color_property(&props, ColorProperty::Diffuse), Some(ColorLookup { index: 3, has_alpha: false }));
    assert_eq!(find_color_property(&props, ColorProperty::Specular), Some(ColorLookup { index: 1, has_alpha: true }));
    assert_eq!(find_color_property(&props, ColorProperty::Ambient), None);
}

#[test]
fn float_lookup_and_defaults() {
    let props = vec![prop("$mat.opacity", None), prop("$mat.opacity", Some(0)), prop("$mat.shininess", Some(1))];
    assert_eq!(find_float_property(&props, FloatProperty::Opacity), FloatLookup::EmptyArray(1));
    assert_eq!(find_float_property(&props, FloatProperty::Shininess), FloatLookup::Found(2));
    assert_eq!(find_float_property(&props, FloatProperty::Reflectivity), FloatLookup::Absent);
    // The first float array with the key decides, even when it is empty.
    let props = vec![prop("$mat.shininess", Some(0)), prop("$mat.shininess", Some(2))];
    assert_eq!(find_float_property(&props, FloatProperty::Shininess), FloatLookup::EmptyArray(0));
    assert_eq!(default_color(ColorProperty::Diffuse), DefaultColor::OpaqueWhite);
    assert_eq!(default_color(ColorProperty::Specular), DefaultColor::OpaqueWhite);
    assert_eq!(default_color(ColorProperty::Ambient), DefaultColor::OpaqueBlack);
    assert_eq!(default_color(ColorProperty::Emissive), DefaultColor::OpaqueBlack);
}
