use voxelstream::chunk::{
    block_side_textures, block_type_from_u8, chunk_index_from_offset, make_side_quad_data,
    three_of, BlockSideTexture, BlockType, Chunk, Side,
};
use voxelstream::position::BLOCKS_PER_CHUNK;

#[test]
fn test_block_type_from_u8() {
    assert_eq!(block_type_from_u8(0), BlockType::Empty);
    assert_eq!(block_type_from_u8(1), BlockType::Grass);
    assert_eq!(block_type_from_u8(2), BlockType::Dirt);
    assert_eq!(block_type_from_u8(3), BlockType::Stone);
    assert_eq!(block_type_from_u8(4), BlockType::Sand);
    assert_eq!(block_type_from_u8(5), BlockType::Lava);
    assert_eq!(block_type_from_u8(6), BlockType::Diamond);
    assert_eq!(block_type_from_u8(7), BlockType::Coal);
    assert_eq!(block_type_from_u8(8), BlockType::Gold);
    assert_eq!(block_type_from_u8(9), BlockType::Empty);
    assert_eq!(block_type_from_u8(255), BlockType::Empty);
}

#[test]
fn test_chunk_construction_and_blocks() {
    let empty = Chunk::empty();
    assert!(empty.is_empty());
    assert_eq!(empty.blocks.len(), BLOCKS_PER_CHUNK);

    let plain = Chunk::plain(BlockType::Sand);
    assert!(!plain.is_empty());
    assert_eq!(plain.get_block(3, 7, 11), BlockType::Sand);

    let plain_empty = Chunk::plain(BlockType::Empty);
    assert!(plain_empty.is_empty());

    let mut chunk = Chunk::new(false);
    chunk.set(1, 2, 3, BlockType::Lava);
    assert_eq!(chunk.get_block(1, 2, 3), BlockType::Lava);
    assert_eq!(chunk.get_block(3, 2, 1), BlockType::Empty);
    // setting a block deliberately leaves the construction-time flag alone
    assert!(!chunk.is_empty());
}

#[test]
fn test_chunk_index_layout() {
    assert_eq!(chunk_index_from_offset(0, 0, 0), 0);
    assert_eq!(chunk_index_from_offset(1, 0, 0), 1);
    assert_eq!(chunk_index_from_offset(0, 1, 0), 16);
    assert_eq!(chunk_index_from_offset(0, 0, 1), 256);
    assert_eq!(chunk_index_from_offset(15, 15, 15), BLOCKS_PER_CHUNK - 1);
}

#[test]
fn test_random_chunk_is_solid() {
    let mut rng = fastrand::Rng::with_seed(42);
    let chunk = Chunk::random(&mut rng);
    assert!(!chunk.is_empty());
    assert_eq!(chunk.blocks.len(), BLOCKS_PER_CHUNK);
}

#[test]
fn test_block_side_textures() {
    assert_eq!(
        block_side_textures(BlockType::Grass),
        (
            BlockSideTexture::GrassTop,
            BlockSideTexture::GrassSide,
            BlockSideTexture::Dirt
        )
    );
    assert_eq!(
        block_side_textures(BlockType::Stone),
        three_of(BlockSideTexture::Cobblestone)
    );
    assert_eq!(
        block_side_textures(BlockType::Empty),
        three_of(BlockSideTexture::Unknown)
    );
}

#[test]
fn test_make_side_quad_data_layout() {
    // 6 bits X, 6 bits Y, 6 bits Z, 3 bits normal, 6 bits texture
    assert_eq!(make_side_quad_data(Side::Top, BlockSideTexture::Unknown, 0, 0, 0), 0);
    assert_eq!(make_side_quad_data(Side::Top, BlockSideTexture::Unknown, 1, 0, 0), 1);
    assert_eq!(
        make_side_quad_data(Side::Top, BlockSideTexture::Unknown, 0, 1, 0),
        1 << 6
    );
    assert_eq!(
        make_side_quad_data(Side::Top, BlockSideTexture::Unknown, 0, 0, 1),
        1 << 12
    );
    assert_eq!(
        make_side_quad_data(Side::Bottom, BlockSideTexture::Unknown, 0, 0, 0),
        1 << 18
    );
    assert_eq!(
        make_side_quad_data(Side::Top, BlockSideTexture::GrassSide, 0, 0, 0),
        1 << 21
    );
    assert_eq!(
        make_side_quad_data(Side::Left, BlockSideTexture::GrassTop, 1, 2, 3),
        1 + (2 << 6) + (3 << 12) + (5 << 18) + (9 << 21)
    );
}

#[test]
fn test_vertex_data_single_block() {
    let mut chunk = Chunk::new(false);
    chunk.set(0, 0, 0, BlockType::Stone);
    // all six faces of the lone block are exposed, in the fixed order
    // top, bottom, right, left, front, back; stone shows cobblestone on
    // every face
    let tex = 2 << 21;
    assert_eq!(
        chunk.to_vertex_data(),
        vec![
            tex,
            (1 << 18) | tex,
            (4 << 18) | tex,
            (5 << 18) | tex,
            (2 << 18) | tex,
            (3 << 18) | tex,
        ]
    );
}

#[test]
fn test_vertex_data_counts() {
    // a chunk flagged empty yields nothing at all
    assert_eq!(Chunk::empty().to_vertex_data().len(), 0);
    // a non-empty flag with all-air blocks still yields no faces
    assert_eq!(Chunk::new(false).to_vertex_data().len(), 0);
    // in a solid chunk only the boundary faces are exposed: six sides of
    // 16 by 16 blocks each
    assert_eq!(Chunk::plain(BlockType::Sand).to_vertex_data().len(), 6 * 256);
}
