use world_gen::graphics::mesh::{DrawCall, Mesh, VAO};

#[test]
fn empty_mesh_draws_nothing() {
    let mesh = Mesh::default();
    assert_eq!(mesh.get_vertex_count(), 0);
    assert_eq!(mesh.render(), None);
}

#[test]
fn mesh_draws_its_vertex_array() {
    let mesh = Mesh::from_vao(VAO::new(7, 36));
    assert_eq!(mesh.get_vertex_count(), 36);
    assert_eq!(mesh.render(), Some(DrawCall { vao: 7, index_count: 36 }));
}

#[test]
fn vertex_array_without_indices() {
    let vao = VAO::new(3, 0);
    assert_eq!(vao.get_index_count(), 0);
    assert_eq!(vao.render(), DrawCall { vao: 3, index_count: 0 });
    let mesh = Mesh::from_vao(vao);
    assert_eq!(mesh.get_vertex_count(), 0);
    assert_eq!(mesh.render(), Some(DrawCall { vao: 3, index_count: 0 }));
}
