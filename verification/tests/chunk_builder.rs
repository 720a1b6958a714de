use world_gen::chunk::chunk::Chunk;
use world_gen::chunk::chunk_builder::{lod_resolution, triangulate, ChunkBuilder};
use world_gen::chunk::chunk_error::ChunkError;
use world_gen::graphics::mesh::{Mesh, MeshError, VAO};
use world_gen::height_map::HeightMap;
use world_gen::noise::noise::Noise;

struct Slope;

impl Noise<f32> for Slope {
    fn get_noise(&self, point: [i64; 2]) -> f32 {
        (point[0] + point[1]) as f32
    }

    fn get_range(&self) -> [f32; 2] {
        [-1.0e6, 1.0e6]
    }
}

fn lower(map: HeightMap<f32>) -> HeightMap<f32> {
    let mut out = map;
    let size = out.get_size();
    for y in 0..size {
        for x in 0..size {
            let height = out.get(&[x, y]);
            out.set(&[x, y], height - 1.0);
        }
    }
    out
}

fn upload(_map: &HeightMap<f32>, triangles: &Vec<[u32; 3]>) -> Result<Mesh, MeshError> {
    Ok(Mesh::from_vao(VAO::new(9, 3 * triangles.len() as u32)))
}

fn broken(_map: &HeightMap<f32>, _triangles: &Vec<[u32; 3]>) -> Result<Mesh, MeshError> {
    Err(MeshError::Opengl("gl::BufferData".to_string()))
}

#[test]
fn resolution_of_each_level() {
    assert_eq!(lod_resolution(0), 1);
    assert_eq!(lod_resolution(1), 2);
    assert_eq!(lod_resolution(2), 4);
    assert_eq!(lod_resolution(3), 8);
    assert_eq!(lod_resolution(4), 16);
    assert_eq!(lod_resolution(5), 32);
    assert_eq!(lod_resolution(6), 64);
    assert_eq!(lod_resolution(7), 64);
    assert_eq!(lod_resolution(u32::MAX), 64);
}

#[test]
fn triangles_of_a_small_grid() {
    assert!(triangulate(1).is_empty());
    assert_eq!(triangulate(2), vec![[0, 1, 2], [1, 3, 2]]);
    assert_eq!(
        triangulate(3),
        vec![
            [0, 1, 3],
            [1, 4, 3],
            [1, 2, 4],
            [2, 5, 4],
            [3, 4, 6],
            [4, 7, 6],
            [4, 5, 7],
            [5, 8, 7]
        ]
    );
}

#[test]
fn triangles_of_a_chunk() {
    let triangles = triangulate(64);
    assert_eq!(triangles.len(), 2 * 63 * 63);
    assert!(triangles.iter().all(|t| t.iter().all(|i| *i < 64 * 64)));
    assert_eq!(triangles[triangles.len() - 1], [4031, 4095, 4094]);
}

#[test]
fn finish_with_geometry_gives_the_chunk() {
    let map = HeightMap::filled(2, 1, 0.5f32);
    let built: Result<Chunk<f32>, ChunkError> =
        ChunkBuilder::<Slope>::finish([1, 2], 3, map, Ok(Mesh::from_vao(VAO::new(5, 6))));
    let chunk = built.ok().unwrap();
    assert_eq!(chunk.get_position(), [1, 2]);
    assert_eq!(chunk.get_lod(), 3);
    assert_eq!(chunk.get_mesh().get_vertex_count(), 6);
    assert_eq!(chunk.get_height_map().get(&[1, 1]), 0.5);
}

#[test]
fn finish_without_geometry_gives_no_buffer_built() {
    let map = HeightMap::filled(2, 1, 0.5f32);
    match ChunkBuilder::<Slope>::finish([1, -2], 0, map, Ok(Mesh::default())) {
        Err(ChunkError::NoBufferBuilt(pos)) => assert_eq!(pos, [1, -2]),
        _ => panic!("an empty mesh gives NoBufferBuilt"),
    }
    let map = HeightMap::filled(2, 1, 0.5f32);
    match ChunkBuilder::<Slope>::finish([4, 4], 0, map, Ok(Mesh::from_vao(VAO::new(5, 0)))) {
        Err(ChunkError::NoBufferBuilt(pos)) => assert_eq!(pos, [4, 4]),
        _ => panic!("a vertex array without indices gives NoBufferBuilt"),
    }
}

#[test]
fn finish_passes_a_mesh_error_on() {
    let map = HeightMap::filled(2, 1, 0.5f32);
    match ChunkBuilder::<Slope>::finish([1, 2], 0, map, Err(MeshError::Io("gone".to_string()))) {
        Err(ChunkError::Mesh(MeshError::Io(detail))) => assert_eq!(detail, "gone"),
        _ => panic!("a mesh error gives ChunkError::Mesh"),
    }
}

#[test]
fn build_runs_the_steps_in_order() {
    let builder = ChunkBuilder::new(Slope);
    let chunk = builder.build([1, 0], 4, &lower, &upload).ok().unwrap();
    assert_eq!(chunk.get_position(), [1, 0]);
    assert_eq!(chunk.get_lod(), 4);
    let map = chunk.get_height_map();
    assert_eq!(map.get_size(), 4);
    assert_eq!(map.get_resolution(), 16);
    assert_eq!(map.get(&[0, 0]), 64.0 - 1.0);
    assert_eq!(map.get(&[3, 2]), 64.0 + 48.0 + 32.0 - 1.0);
    assert_eq!(chunk.get_mesh().get_vertex_count(), 3 * 2 * 3 * 3);
}

#[test]
fn build_of_a_single_cell_has_no_geometry() {
    let builder = ChunkBuilder::new(Slope);
    match builder.build([7, 7], 6, &lower, &upload) {
        Err(ChunkError::NoBufferBuilt(pos)) => assert_eq!(pos, [7, 7]),
        _ => panic!("a chunk of one cell has no triangle"),
    }
}

#[test]
fn build_passes_a_mesh_error_on() {
    let builder = ChunkBuilder::new(Slope);
    match builder.build([0, 0], 5, &lower, &broken) {
        Err(ChunkError::Mesh(MeshError::Opengl(detail))) => assert_eq!(detail, "gl::BufferData"),
        _ => panic!("a failed upload gives ChunkError::Mesh"),
    }
}
