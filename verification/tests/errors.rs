use world_gen::chunk::chunk_error::ChunkError;
use world_gen::graphics::mesh::MeshError;
use world_gen::text::decimal;

#[test]
fn decimal_text_of_whole_numbers() {
    assert_eq!(decimal(0), "0");
    assert_eq!(decimal(7), "7");
    assert_eq!(decimal(10), "10");
    assert_eq!(decimal(-57), "-57");
    assert_eq!(decimal(1203), "1203");
    assert_eq!(decimal(i32::MAX), "2147483647");
    assert_eq!(decimal(i32::MIN), "-2147483648");
    for value in [-1000, -999, -10, -9, -1, 1, 9, 99, 100, 65536] {
        assert_eq!(decimal(value), format!("{}", value));
    }
}

#[test]
fn mesh_error_text() {
    let err = MeshError::Opengl("gl::GenBuffers".to_string());
    assert_eq!(err.description(), "opengl");
    assert_eq!(err.detail(), "gl::GenBuffers");
    assert_eq!(err.to_string(), "opengl: gl::GenBuffers");
    let err = MeshError::Io("cube.obj".to_string());
    assert_eq!(err.description(), "io");
    assert_eq!(err.to_string(), "io: cube.obj");
}

#[test]
fn chunk_error_description() {
    assert_eq!(ChunkError::NoBufferBuilt([1, 2]).description(), "no buffer built");
    assert_eq!(ChunkError::Mesh(MeshError::Io("x".to_string())).description(), "mesh");
}

#[test]
fn chunk_error_text() {
    assert_eq!(
        ChunkError::NoBufferBuilt([3, -14]).to_string(),
        "no buffer built: chunk pos = 3/-14"
    );
    assert_eq!(
        ChunkError::NoBufferBuilt([0, 0]).to_string(),
        "no buffer built: chunk pos = 0/0"
    );
    assert_eq!(
        ChunkError::Mesh(MeshError::Opengl("gl::BufferData".to_string())).to_string(),
        "mesh/opengl: gl::BufferData"
    );
}

#[test]
fn chunk_error_cause() {
    assert!(ChunkError::NoBufferBuilt([1, 2]).cause().is_none());
    let err = ChunkError::Mesh(MeshError::Io("cube.obj".to_string()));
    match err.cause() {
        Some(MeshError::Io(detail)) => assert_eq!(detail, "cube.obj"),
        _ => panic!("the cause of a mesh error is the mesh error"),
    }
}

#[test]
fn chunk_error_from_mesh_error() {
    match ChunkError::from(MeshError::Opengl("gl::GenBuffers".to_string())) {
        ChunkError::Mesh(MeshError::Opengl(detail)) => assert_eq!(detail, "gl::GenBuffers"),
        _ => panic!("a mesh error becomes ChunkError::Mesh"),
    }
}
