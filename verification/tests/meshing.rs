use opentale::ivec::IVec3;
use opentale::block_type::BlockType;
use opentale::chunk_lod::ChunkLod;
use opentale::mesh_generation::generate_mesh;
use opentale::voxel_data::VoxelData;

#[test]
fn empty_chunk_has_no_meshes() {
    let grid = VoxelData::new_air();
    let result = generate_mesh(&grid, 0, ChunkLod::Full);
    assert!(result.opaque_mesh.is_none());
    assert!(result.transparent_mesh.is_none());
}

#[test]
fn single_voxel_emits_six_quads() {
    let mut grid = VoxelData::new_air();
    grid.set_block(IVec3::new(10, 10, 10), BlockType::Stone);
    let result = generate_mesh(&grid, 0, ChunkLod::Full);
    let mesh = result.opaque_mesh.expect("one solid voxel must mesh");
    assert_eq!(mesh.vertices.len(), 24);
    assert_eq!(mesh.indices.len(), 36);
    assert!(result.transparent_mesh.is_none());
}

#[test]
fn leaf_cube_in_stone_shell_has_no_transparent_faces() {
    let mut grid = VoxelData::new_air();
    for x in 10..15 {
        for y in 10..15 {
            for z in 10..15 {
                let inner = x >= 11 && x < 14 && y >= 11 && y < 14 && z >= 11 && z < 14;
                let block = if inner { BlockType::Leaf } else { BlockType::Stone };
                grid.set_block(IVec3::new(x, y, z), block);
            }
        }
    }
    let result = generate_mesh(&grid, 0, ChunkLod::Full);
    assert!(result.opaque_mesh.is_some());
    assert!(result.transparent_mesh.is_none());
}

#[test]
fn two_by_two_solid_with_leaf_corner() {
    let mut grid = VoxelData::new_air();
    for x in 20..22 {
        for y in 20..22 {
            for z in 20..22 {
                grid.set_block(IVec3::new(x, y, z), BlockType::Stone);
            }
        }
    }
    grid.set_block(IVec3::new(21, 21, 21), BlockType::Leaf);
    let result = generate_mesh(&grid, 0, ChunkLod::Full);
    let transparent = result.transparent_mesh.expect("leaf corner must mesh");
    // the leaf's three outward faces, one quad of four vertices each
    assert_eq!(transparent.vertices.len(), 12);
    assert_eq!(transparent.indices.len(), 18);
}
