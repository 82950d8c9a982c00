use fixedgl::fixed::SCALE;
use fixedgl::loader::{
    CPUMaterial, GltfMaterial, GltfMesh, GltfModel, GltfNode, GltfPrimitive, GltfTextureInfo,
    IOError, Indices, Loaded, TextureSource,
};
use fixedgl::material::{ColorSource, PhongMaterial, DEFAULT_DIFFUSE, DEFAULT_POWER,
    DEFAULT_SPECULAR};
use fixedgl::context::new_gl;

/// A one-by-one red RGB PNG.
fn tiny_png() -> Vec<u8> {
    vec![
        137, 80, 78, 71, 13, 10, 26, 10, 0, 0, 0, 13, 73, 72, 68, 82, 0, 0, 0, 1, 0, 0, 0, 1, 8,
        2, 0, 0, 0, 144, 119, 83, 222, 0, 0, 0, 12, 73, 68, 65, 84, 120, 156, 99, 248, 207, 192,
        0, 0, 3, 1, 1, 0, 201, 254, 146, 239, 0, 0, 0, 0, 73, 69, 78, 68, 174, 66, 96, 130,
    ]
}

fn plain_material(name: Option<&str>, index: Option<usize>) -> GltfMaterial {
    GltfMaterial {
        name: name.map(|n| n.to_string()),
        index,
        base_color: (SCALE, SCALE, 0, SCALE),
        base_color_texture: None,
        metallic: 32768,
        roughness: 16384,
        metallic_roughness_texture: None,
    }
}

fn primitive_with(material: GltfMaterial) -> GltfPrimitive {
    GltfPrimitive {
        positions: Some(vec![(SCALE, 2 * SCALE, 3 * SCALE), (4 * SCALE, 5 * SCALE, 6 * SCALE)]),
        normals: Some(vec![(0, SCALE, 0), (0, 0, SCALE)]),
        indices: Some(Indices::U16(vec![0, 1, 0])),
        colors: Some(vec![(255, 0, 0), (0, 255, 0)]),
        uvs: Some(vec![(0, 0), (SCALE, SCALE)]),
        material,
    }
}

fn single_node_model(primitives: Vec<GltfPrimitive>) -> GltfModel {
    GltfModel {
        nodes: vec![GltfNode {
            mesh: Some(GltfMesh { name: Some("quad".to_string()), index: 0, primitives }),
            children: vec![],
        }],
        scenes: vec![vec![0]],
        buffers: vec![],
    }
}

fn store_with(model: GltfModel) -> Loaded {
    let mut loaded = Loaded::new();
    loaded.gltf_models.push(("scene.gltf".to_string(), model));
    loaded
}

#[test]
fn extraction_flattens_attributes() {
    let model = single_node_model(vec![primitive_with(plain_material(Some("mat"), None))]);
    let loaded = store_with(model);
    let (meshes, materials) = loaded.gltf("scene.gltf").unwrap();
    assert_eq!(meshes.len(), 1);
    assert_eq!(materials.len(), 1);
    let mesh = &meshes[0];
    assert_eq!(mesh.name, "quad");
    assert_eq!(mesh.positions, vec![
        SCALE,
        2 * SCALE,
        3 * SCALE,
        4 * SCALE,
        5 * SCALE,
        6 * SCALE,
    ]);
    assert_eq!(mesh.normals.as_ref().unwrap(), &vec![0, SCALE, 0, 0, 0, SCALE]);
    assert_eq!(mesh.colors.as_ref().unwrap(), &vec![255, 0, 0, 0, 255, 0]);
    assert_eq!(mesh.uvs.as_ref().unwrap(), &vec![0, 0, SCALE, SCALE]);
    match mesh.indices.as_ref().unwrap() {
        Indices::U16(v) => assert_eq!(v, &vec![0u16, 1, 0]),
        _ => panic!("expected sixteen-bit indices"),
    }
    assert_eq!(mesh.material_name.as_ref().unwrap(), "mat");
    assert_eq!(materials[0].name, "mat");
    assert_eq!(materials[0].color, Some((SCALE, SCALE, 0, SCALE)));
    assert_eq!(materials[0].metallic_factor, Some(32768));
    assert_eq!(materials[0].roughness_factor, Some(16384));
    assert_eq!(materials[0].diffuse_intensity, Some(SCALE));
    assert_eq!(materials[0].specular_intensity, Some(32768));
    assert_eq!(materials[0].specular_power, Some(16384));
}

#[test]
fn two_primitives_same_material_dedup() {
    let model = single_node_model(vec![
        primitive_with(plain_material(Some("shared"), None)),
        primitive_with(plain_material(Some("shared"), None)),
    ]);
    let loaded = store_with(model);
    let (meshes, materials) = loaded.gltf("scene.gltf").unwrap();
    assert_eq!(meshes.len(), 2);
    assert_eq!(materials.len(), 1);
    assert_eq!(materials[0].name, "shared");
}

#[test]
fn material_names_default_by_index() {
    let model = single_node_model(vec![
        primitive_with(plain_material(None, Some(7))),
        primitive_with(plain_material(None, None)),
    ]);
    let loaded = store_with(model);
    let (_, materials) = loaded.gltf("scene.gltf").unwrap();
    assert_eq!(materials.len(), 2);
    assert_eq!(materials[0].name, "index 7");
    assert_eq!(materials[1].name, "default");
}

#[test]
fn mesh_name_defaults_by_index() {
    let model = GltfModel {
        nodes: vec![GltfNode {
            mesh: Some(GltfMesh {
                name: None,
                index: 12,
                primitives: vec![primitive_with(plain_material(Some("m"), None))],
            }),
            children: vec![],
        }],
        scenes: vec![vec![0]],
        buffers: vec![],
    };
    let loaded = store_with(model);
    let (meshes, _) = loaded.gltf("scene.gltf").unwrap();
    assert_eq!(meshes[0].name, "index 12");
}

#[test]
fn primitive_without_positions_is_skipped() {
    let mut prim = primitive_with(plain_material(Some("mat"), None));
    prim.positions = None;
    let model = single_node_model(vec![prim]);
    let loaded = store_with(model);
    let (meshes, materials) = loaded.gltf("scene.gltf").unwrap();
    assert_eq!(meshes.len(), 0);
    assert_eq!(materials.len(), 0);
}

#[test]
fn children_are_walked_depth_first() {
    let leaf_mesh = GltfMesh {
        name: Some("leaf".to_string()),
        index: 1,
        primitives: vec![primitive_with(plain_material(Some("m"), None))],
    };
    let model = GltfModel {
        nodes: vec![
            GltfNode { mesh: None, children: vec![1] },
            GltfNode { mesh: Some(leaf_mesh), children: vec![] },
        ],
        scenes: vec![vec![0]],
        buffers: vec![],
    };
    let loaded = store_with(model);
    let (meshes, _) = loaded.gltf("scene.gltf").unwrap();
    assert_eq!(meshes.len(), 1);
    assert_eq!(meshes[0].name, "leaf");
}

#[test]
fn missing_document_not_found() {
    let loaded = Loaded::new();
    assert_eq!(loaded.gltf("absent.gltf").unwrap_err(), IOError::ResourceNotFound);
}

#[test]
fn cyclic_nodes_hit_depth_bound() {
    let model = GltfModel {
        nodes: vec![GltfNode { mesh: None, children: vec![0] }],
        scenes: vec![vec![0]],
        buffers: vec![],
    };
    let loaded = store_with(model);
    assert_eq!(loaded.gltf("scene.gltf").unwrap_err(), IOError::TreeTooDeep);
}

#[test]
fn bad_child_index_is_rejected() {
    let model = GltfModel {
        nodes: vec![GltfNode { mesh: None, children: vec![9] }],
        scenes: vec![vec![0]],
        buffers: vec![],
    };
    let loaded = store_with(model);
    assert_eq!(loaded.gltf("scene.gltf").unwrap_err(), IOError::InvalidNodeIndex);
}

fn textured_material(source: TextureSource) -> GltfMaterial {
    GltfMaterial {
        name: Some("textured".to_string()),
        index: None,
        base_color: (SCALE, SCALE, SCALE, SCALE),
        base_color_texture: Some(GltfTextureInfo { source }),
        metallic: 0,
        roughness: SCALE,
        metallic_roughness_texture: None,
    }
}

#[test]
fn uri_texture_is_decoded() {
    let model = single_node_model(vec![primitive_with(textured_material(TextureSource::Uri(
        "tex.png".to_string(),
    )))]);
    let mut loaded = store_with(model);
    loaded.resources.push(("tex.png".to_string(), tiny_png()));
    let (_, materials) = loaded.gltf("scene.gltf").unwrap();
    let tex = materials[0].color_texture.as_ref().unwrap();
    assert_eq!(tex.width, 1);
    assert_eq!(tex.height, 1);
    // Decoded to RGBA: the red pixel, fully opaque.
    assert_eq!(tex.data, vec![255, 0, 0, 255]);
}

#[test]
fn missing_texture_file_fails() {
    let model = single_node_model(vec![primitive_with(textured_material(TextureSource::Uri(
        "absent.png".to_string(),
    )))]);
    let loaded = store_with(model);
    assert_eq!(loaded.gltf("scene.gltf").unwrap_err(), IOError::ResourceNotFound);
}

#[test]
fn undecodable_texture_fails() {
    let model = single_node_model(vec![primitive_with(textured_material(TextureSource::Uri(
        "junk.bin".to_string(),
    )))]);
    let mut loaded = store_with(model);
    loaded.resources.push(("junk.bin".to_string(), vec![1, 2, 3, 4]));
    assert_eq!(loaded.gltf("scene.gltf").unwrap_err(), IOError::ImageDecode);
}

#[test]
fn embedded_texture_with_stride_fails() {
    let png = tiny_png();
    let len = png.len();
    let mut model = single_node_model(vec![primitive_with(textured_material(
        TextureSource::View { buffer_index: 0, offset: 0, length: len, stride: Some(4) },
    ))]);
    model.buffers = vec![png];
    let loaded = store_with(model);
    assert_eq!(loaded.gltf("scene.gltf").unwrap_err(), IOError::UnsupportedByteStride);
}

#[test]
fn embedded_texture_without_stride_decodes() {
    let png = tiny_png();
    let len = png.len();
    let mut model = single_node_model(vec![primitive_with(textured_material(
        TextureSource::View { buffer_index: 0, offset: 0, length: len, stride: None },
    ))]);
    model.buffers = vec![png];
    let loaded = store_with(model);
    let (_, materials) = loaded.gltf("scene.gltf").unwrap();
    let tex = materials[0].color_texture.as_ref().unwrap();
    assert_eq!((tex.width, tex.height), (1, 1));
}

#[test]
fn embedded_texture_out_of_bounds_fails() {
    let mut model = single_node_model(vec![primitive_with(textured_material(
        TextureSource::View { buffer_index: 0, offset: 60, length: 20, stride: None },
    ))]);
    model.buffers = vec![tiny_png()];
    let loaded = store_with(model);
    assert_eq!(loaded.gltf("scene.gltf").unwrap_err(), IOError::InvalidBufferView);
}

#[test]
fn phong_material_from_plain_color() {
    let gl = new_gl();
    let cpu = CPUMaterial {
        name: "mat".to_string(),
        color: Some((SCALE, 0, 0, SCALE)),
        color_texture: None,
        metallic_factor: Some(0),
        roughness_factor: Some(SCALE),
        metallic_roughness_texture: None,
        diffuse_intensity: Some(SCALE),
        specular_intensity: None,
        specular_power: None,
    };
    let material = PhongMaterial::new(&gl, &cpu).unwrap();
    assert_eq!(material.name, "mat");
    assert_eq!(material.color_source, ColorSource::Color(SCALE, 0, 0, SCALE));
    assert_eq!(material.diffuse_intensity, SCALE);
    assert_eq!(material.specular_intensity, DEFAULT_SPECULAR);
    assert_eq!(material.specular_power, DEFAULT_POWER);
    assert_eq!(material.color_source.label(), "Color");
}

#[test]
fn phong_material_defaults_to_white() {
    let gl = new_gl();
    let cpu = CPUMaterial {
        name: "bare".to_string(),
        color: None,
        color_texture: None,
        metallic_factor: None,
        roughness_factor: None,
        metallic_roughness_texture: None,
        diffuse_intensity: None,
        specular_intensity: None,
        specular_power: None,
    };
    let material = PhongMaterial::new(&gl, &cpu).unwrap();
    assert_eq!(material.color_source, ColorSource::Color(SCALE, SCALE, SCALE, SCALE));
    assert_eq!(material.diffuse_intensity, DEFAULT_DIFFUSE);
}

#[test]
fn phong_material_default_impl() {
    let material = PhongMaterial::default();
    assert_eq!(material.name, "default");
    assert_eq!(material.color_source, ColorSource::Color(SCALE, SCALE, SCALE, SCALE));
    assert_eq!(material.color_source.label(), "Color");
}

#[test]
fn phong_material_from_texture() {
    let gl = new_gl();
    let cpu = CPUMaterial {
        name: "tex".to_string(),
        color: None,
        color_texture: Some(fixedgl::texture::CPUTexture {
            data: vec![255, 0, 0, 255],
            width: 1,
            height: 1,
        }),
        metallic_factor: None,
        roughness_factor: None,
        metallic_roughness_texture: None,
        diffuse_intensity: None,
        specular_intensity: None,
        specular_power: None,
    };
    let material = PhongMaterial::new(&gl, &cpu).unwrap();
    match material.color_source {
        ColorSource::Texture(t) => assert_eq!((t.width, t.height), (1, 1)),
        _ => panic!("expected a texture color source"),
    }
    assert_eq!(material.color_source.label(), "Texture");
}

#[test]
fn phong_material_bind_records_writes() {
    let gl = new_gl();
    let mut program = fixedgl::program::Program::new(&gl);
    let material = PhongMaterial::default();
    material.bind(&mut program).unwrap();
    let uniforms = program.uniforms();
    assert_eq!(uniforms.len(), 4);
    assert_eq!(uniforms[0].0, "diffuse_intensity");
    assert_eq!(uniforms[0].1, vec![DEFAULT_DIFFUSE]);
    assert_eq!(uniforms[1].0, "specular_intensity");
    assert_eq!(uniforms[1].1, vec![DEFAULT_SPECULAR]);
    assert_eq!(uniforms[2].0, "specular_power");
    assert_eq!(uniforms[2].1, vec![DEFAULT_POWER]);
    assert_eq!(uniforms[3].0, "surfaceColor");
    assert_eq!(uniforms[3].1, vec![SCALE, SCALE, SCALE, SCALE]);
    assert!(program.textures().is_empty());
}

#[test]
fn phong_material_bind_texture_source() {
    let gl = new_gl();
    let mut program = fixedgl::program::Program::new(&gl);
    let material = PhongMaterial {
        name: "tex".to_string(),
        color_source: ColorSource::Texture(fixedgl::texture::Texture2D { width: 2, height: 3 }),
        diffuse_intensity: SCALE,
        specular_intensity: SCALE,
        specular_power: SCALE,
    };
    material.bind(&mut program).unwrap();
    assert_eq!(program.uniforms().len(), 3);
    let textures = program.textures();
    assert_eq!(textures.len(), 1);
    assert_eq!(textures[0].0, "tex");
    assert_eq!((textures[0].1.width, textures[0].1.height), (2, 3));
}
