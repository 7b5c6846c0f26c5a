use std::collections::HashMap;

use voxelstream::position::{
    proper_modulo_i32, BlockPos, proper_rescale_i32, ChunkPos, CoordError, PageChunkOffset, PageIndex,
    PagePos, CHUNK_PAGE_SIZE_X, CHUNK_PAGE_SIZE_Y, CHUNK_PAGE_SIZE_Z, MAX_CHUNK_Y, MIN_CHUNK_Y,
    NUM_CHUNKS_PER_PAGE,
};

#[test]
fn test_proper_modulo() {
    assert_eq!(4, proper_modulo_i32(-6, 5));
    assert_eq!(0, proper_modulo_i32(-5, 5));
    assert_eq!(1, proper_modulo_i32(-4, 5));
    assert_eq!(2, proper_modulo_i32(-3, 5));
    assert_eq!(3, proper_modulo_i32(-2, 5));
    assert_eq!(4, proper_modulo_i32(-1, 5));
    assert_eq!(0, proper_modulo_i32(0, 5));
    assert_eq!(1, proper_modulo_i32(1, 5));
    assert_eq!(2, proper_modulo_i32(2, 5));
    assert_eq!(3, proper_modulo_i32(3, 5));
    assert_eq!(4, proper_modulo_i32(4, 5));
    assert_eq!(0, proper_modulo_i32(5, 5));
    assert_eq!(1, proper_modulo_i32(6, 5));
}

#[test]
fn test_proper_rescale_floor_semantics() {
    assert_eq!(-2, proper_rescale_i32(-6, 5));
    assert_eq!(-1, proper_rescale_i32(-5, 5));
    assert_eq!(-1, proper_rescale_i32(-1, 5));
    assert_eq!(0, proper_rescale_i32(0, 5));
    assert_eq!(0, proper_rescale_i32(4, 5));
    assert_eq!(1, proper_rescale_i32(5, 5));
    assert_eq!(1, proper_rescale_i32(6, 5));
    assert_eq!(-1, proper_rescale_i32(-16, 16));
    assert_eq!(-2, proper_rescale_i32(-17, 16));
}

#[test]
fn test_page_volume_is_product_of_axes() {
    let x = CHUNK_PAGE_SIZE_X as usize;
    let y = CHUNK_PAGE_SIZE_Y as usize;
    let z = CHUNK_PAGE_SIZE_Z as usize;
    assert_eq!(NUM_CHUNKS_PER_PAGE, x * y * z);
}

#[test]
fn test_page_index_to_page_chunk_offset() {
    let convert = |i: usize| PageChunkOffset::from_page_index(PageIndex::new(i).unwrap());
    let invert = |o: PageChunkOffset| o.as_page_index();

    let mut map = HashMap::<PageChunkOffset, usize>::new();

    // check that each offset is unique
    for i in 0..NUM_CHUNKS_PER_PAGE {
        let offset = convert(i);
        assert!(
            !map.contains_key(&offset),
            "{i} -> {:?}, already as {:?}",
            offset,
            map[&offset]
        );
        map.insert(offset, i);
        assert_eq!(invert(offset), PageIndex::new(i).unwrap());
    }
}

#[test]
#[should_panic]
fn test_page_index_out_of_bounds() {
    let _ = PageIndex::new(NUM_CHUNKS_PER_PAGE).unwrap();
}

#[test]
#[should_panic]
fn test_low_chunk_pos() {
    let _ = ChunkPos::new(0, MIN_CHUNK_Y - 1, 0).unwrap();
}

#[test]
#[should_panic]
fn test_high_chunk_pos() {
    let _ = ChunkPos::new(0, MAX_CHUNK_Y, 0).unwrap();
}

#[test]
fn test_chunk_pos_bounds_checking() {
    assert!(ChunkPos::new(0, MIN_CHUNK_Y, 0).is_ok());
    assert!(ChunkPos::new(0, MAX_CHUNK_Y - 1, 0).is_ok());
    assert_eq!(
        ChunkPos::new(5, MAX_CHUNK_Y, -7),
        Err(CoordError::ChunkYOutOfBounds)
    );
    assert_eq!(
        ChunkPos::new(5, MIN_CHUNK_Y - 1, -7),
        Err(CoordError::ChunkYOutOfBounds)
    );
    assert_eq!(
        PageIndex::new(NUM_CHUNKS_PER_PAGE + 3),
        Err(CoordError::PageIndexOutOfBounds)
    );
    assert_eq!(
        PageChunkOffset::new(CHUNK_PAGE_SIZE_X / 2, 0, 0),
        Err(CoordError::PageOffsetOutOfBounds)
    );
    assert!(PageChunkOffset::new(-CHUNK_PAGE_SIZE_X / 2, MIN_CHUNK_Y, 1).is_ok());
}

#[test]
fn test_page_pos_into_chunk_pos() {
    let convert = |v: (i32, i32)| PagePos { x: v.0, z: v.1 }.get_center_chunk_pos();
    let invert = |c: ChunkPos| c.get_page_pos().0;

    let tests = [
        ((0, 0), (0, 0, 0)),
        ((1, 2), (CHUNK_PAGE_SIZE_X, 0, 2 * CHUNK_PAGE_SIZE_Z)),
        ((-2, -1), (-CHUNK_PAGE_SIZE_X * 2, 0, -CHUNK_PAGE_SIZE_Z)),
    ];
    for (v, expected) in tests {
        let result = convert(v);
        assert_eq!(
            result,
            ChunkPos {
                x: expected.0,
                y: expected.1,
                z: expected.2
            }
        );
        assert_eq!(invert(result), PagePos { x: v.0, z: v.1 });
    }
}

#[test]
fn test_chunk_page_pos_and_offset() {
    let convert = |v: (i32, i32, i32)| {
        ChunkPos {
            x: v.0,
            y: v.1,
            z: v.2,
        }
        .get_page_pos()
    };
    let max = CHUNK_PAGE_SIZE_X / 2;

    let tests = [
        ((0, 0, 0), ((0, 0), (0, 0, 0))),
        ((1, 1, 1), ((0, 0), (1, 1, 1))),
        ((-1, -1, -1), ((0, 0), (-1, -1, -1))),
        ((-max, -1, -max), ((0, 0), (-max, -1, -max))),
        (
            (-max - 1, -1, -max - 1),
            ((-1, -1), (max - 1, -1, max - 1)),
        ),
        ((-max - 1, 3, max - 1), ((-1, 0), (max - 1, 3, max - 1))),
        ((-max - 1, 3, max), ((-1, 1), (max - 1, 3, -max))),
    ];
    for (v, expected) in tests {
        let (page_pos, offset) = convert(v);
        assert_eq!(
            page_pos,
            PagePos {
                x: expected.0 .0,
                z: expected.0 .1
            }
        );
        assert_eq!(
            offset,
            PageChunkOffset {
                x: expected.1 .0,
                y: expected.1 .1,
                z: expected.1 .2
            }
        );
        let chunk_pos = page_pos.get_chunk_pos_at(offset);
        assert_eq!(
            chunk_pos,
            ChunkPos {
                x: v.0,
                y: v.1,
                z: v.2
            }
        );
    }
}

#[test]
fn test_round_trip_over_negative_region() {
    for x in -9..9 {
        for z in -9..9 {
            let c = ChunkPos { x, y: -3, z };
            let (page, offset) = c.get_page_pos();
            assert_eq!(page.get_chunk_pos_at(offset), c);
            assert!(page.has_chunk_pos(c));
        }
    }
}

#[test]
fn test_block_to_chunk_pos() {
    let cases = [
        ((0, 0, 0), (0, 0, 0)),
        ((15, 15, 15), (0, 0, 0)),
        ((16, 0, -1), (1, 0, -1)),
        ((-16, -16, -17), (-1, -1, -2)),
        ((33, -255, -32), (2, -16, -2)),
    ];
    for ((bx, by, bz), (cx, cy, cz)) in cases {
        let b = BlockPos {
            x: bx,
            y: by,
            z: bz,
        };
        assert_eq!(
            b.to_chunk_pos(),
            ChunkPos {
                x: cx,
                y: cy,
                z: cz
            }
        );
    }
}

#[test]
fn test_distance_squared() {
    let a = ChunkPos { x: 1, y: 2, z: 3 };
    let b = ChunkPos { x: 4, y: 0, z: -1 };
    assert_eq!(a.distance_squared(b), 9 + 4 + 16);
    assert_eq!(a.distance_squared(a), 0);
}
