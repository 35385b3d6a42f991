use tiny_soft_renderer::color::Color;
use tiny_soft_renderer::model::{MeshError, Model, Vertex};
use tiny_soft_renderer::texture::Texture;

fn tiny_texture() -> Texture {
    Texture { pixels: vec![Color::white()], width: 1, height: 1 }
}

fn bits(v: f32) -> u32 {
    v.to_bits()
}

#[test]
fn test_mesh_dedup_counts() {
    // Three distinct vertices referenced twice each: six indices in, three
    // unique vertices out, every output index below the vertex count.
    let positions = vec![
        bits(0.0),
        bits(0.0),
        bits(0.0),
        bits(1.0),
        bits(0.0),
        bits(0.0),
        bits(0.0),
        bits(1.0),
        bits(0.0),
    ];
    let texcoords = vec![bits(0.0), bits(0.0), bits(1.0), bits(0.0), bits(0.0), bits(1.0)];
    let indices = vec![0, 1, 2, 0, 1, 2];
    let model = Model::from_mesh(&positions, &texcoords, &indices, tiny_texture()).unwrap();
    assert_eq!(model.indices.len(), 6);
    assert_eq!(model.vertices.len(), 3);
    assert_eq!(model.indices, vec![0, 1, 2, 0, 1, 2]);
    for i in &model.indices {
        assert!((*i as usize) < model.vertices.len());
    }
}

#[test]
fn test_mesh_dedup_bit_exact() {
    // Two slots share position data but differ in one UV bit pattern: they
    // stay distinct vertices. Two slots identical in every bit merge.
    let positions = vec![bits(0.5), bits(0.25), bits(-1.0), bits(0.5), bits(0.25), bits(-1.0)];
    let texcoords = vec![bits(0.125), bits(0.625), bits(0.125), bits(0.6250001)];
    let indices = vec![0, 1, 0];
    let model = Model::from_mesh(&positions, &texcoords, &indices, tiny_texture()).unwrap();
    assert_eq!(model.vertices.len(), 2);
    assert_eq!(model.indices, vec![0, 1, 0]);
    assert_eq!(model.vertices[0].position.x, bits(0.5));
    assert_eq!(model.vertices[1].uv.y, bits(0.6250001));
}

#[test]
fn test_mesh_vertex_layout() {
    let positions = vec![10, 20, 30];
    let texcoords = vec![40, 50];
    let indices = vec![0];
    let model = Model::from_mesh(&positions, &texcoords, &indices, tiny_texture()).unwrap();
    let v: Vertex = model.vertices[0];
    assert_eq!(v.position.x, 10);
    assert_eq!(v.position.y, 20);
    assert_eq!(v.position.z, 30);
    assert_eq!(v.uv.x, 40);
    assert_eq!(v.uv.y, 50);
}

#[test]
fn test_mesh_missing_position() {
    // Index 1 needs positions[3..6], but only one triple is present.
    let positions = vec![0, 0, 0];
    let texcoords = vec![0, 0, 0, 0];
    let indices = vec![0, 1];
    let r = Model::from_mesh(&positions, &texcoords, &indices, tiny_texture());
    assert_eq!(r.err(), Some(MeshError::MissingPosition));
}

#[test]
fn test_mesh_missing_uv() {
    // Index 1 has a position triple but no second UV pair.
    let positions = vec![0, 0, 0, 0, 0, 0];
    let texcoords = vec![0, 0];
    let indices = vec![0, 1];
    let r = Model::from_mesh(&positions, &texcoords, &indices, tiny_texture());
    assert_eq!(r.err(), Some(MeshError::MissingUv));
}

#[test]
fn test_mesh_empty() {
    let positions: Vec<u32> = vec![];
    let texcoords: Vec<u32> = vec![];
    let indices: Vec<u32> = vec![];
    let model = Model::from_mesh(&positions, &texcoords, &indices, tiny_texture()).unwrap();
    assert_eq!(model.vertices.len(), 0);
    assert_eq!(model.indices.len(), 0);
}
