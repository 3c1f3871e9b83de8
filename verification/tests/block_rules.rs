use opentale::block_type::{BlockFace, BlockType};
use opentale::chunk_lod::ChunkLod;

#[test]
fn texture_ids_match_the_table() {
    assert_eq!(BlockType::Grass.get_texture_id(BlockFace::Top), 0);
    assert_eq!(BlockType::Grass.get_texture_id(BlockFace::Bottom), 7);
    assert_eq!(BlockType::Grass.get_texture_id(BlockFace::Left), 6);
    assert_eq!(BlockType::Stone.get_texture_id(BlockFace::Front), 1);
    assert_eq!(BlockType::Snow.get_texture_id(BlockFace::Top), 2);
    assert_eq!(BlockType::Log.get_texture_id(BlockFace::Top), 4);
    assert_eq!(BlockType::Log.get_texture_id(BlockFace::Back), 3);
    assert_eq!(BlockType::Leaf.get_texture_id(BlockFace::Right), 5);
    assert_eq!(BlockType::Dirt.get_texture_id(BlockFace::Top), 7);
}

#[test]
fn covering_rules() {
    assert!(BlockType::Stone.is_covering_for(&BlockType::Stone));
    assert!(BlockType::Leaf.is_covering_for(&BlockType::Leaf));
    assert!(BlockType::Air.is_covering_for(&BlockType::Air));
    assert!(!BlockType::Air.is_covering_for(&BlockType::Stone));
    assert!(!BlockType::Leaf.is_covering_for(&BlockType::Stone));
    assert!(BlockType::Stone.is_covering_for(&BlockType::Leaf));
    assert!(BlockType::Grass.is_covering_for(&BlockType::Stone));
}

#[test]
fn lod_values() {
    assert_eq!(ChunkLod::Full.u8(), 1);
    assert_eq!(ChunkLod::OneTwentyEight.u8(), 8);
    assert_eq!(ChunkLod::Full.multiplier_i32(), 1);
    assert_eq!(ChunkLod::Half.multiplier_i32(), 2);
    assert_eq!(ChunkLod::OneTwentyEight.multiplier_i32(), 128);
    assert_eq!(ChunkLod::OneTwentyEight.inverse_multiplier_i32(), 1);
    assert_eq!(ChunkLod::Full.inverse_multiplier_i32(), 128);
    assert_eq!(ChunkLod::Half.previous(), ChunkLod::Full);
    assert_eq!(ChunkLod::from_u8(3), Some(ChunkLod::Quarter));
    assert_eq!(ChunkLod::from_u8(0), None);
    assert_eq!(ChunkLod::from_u8(10), None);
    assert_eq!(ChunkLod::max_lod(), ChunkLod::OneTwentyEight);
}
