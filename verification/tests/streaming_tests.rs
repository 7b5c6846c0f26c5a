use voxelstream::chunk::BlockType;
use voxelstream::generator::{EmptyWorldGenerator, RandomChunkGenerator, TestGenerator, WorldGenerator};
use voxelstream::position::{ChunkPos, PagePos, Vec3i};
use voxelstream::streaming::{ChunkPage, ChunkStreamer, MAX_NUM_PAGES, PAGE_LOAD_PER_FRAME};

fn page_dist(page: PagePos, viewer: ChunkPos) -> i128 {
    let cx = (page.x as i128) * 4;
    let cz = (page.z as i128) * 4;
    let dx = cx - viewer.x as i128;
    let dy = 0 - viewer.y as i128;
    let dz = cz - viewer.z as i128;
    dx * dx + dy * dy + dz * dz
}

fn loaded_positions<G: WorldGenerator>(s: &ChunkStreamer<G>) -> Vec<PagePos> {
    s.loaded_chunk_pages.iter().map(|p| p.position).collect()
}

#[test]
fn test_pool_conservation_over_ticks() {
    let mut streamer = ChunkStreamer::new(EmptyWorldGenerator);
    assert_eq!(streamer.chunk_page_pool.len(), MAX_NUM_PAGES);
    let path = [
        (0, 0, 0),
        (0, 0, 0),
        (7, 1, -3),
        (30, 2, 30),
        (-90, -5, 14),
        (-90, -5, 14),
        (200, 3, -200),
        (0, 0, 0),
        (4, 0, 4),
        (8, 0, 8),
        (12, 0, 12),
        (16, 0, 16),
    ];
    for (x, y, z) in path {
        let n = streamer.tick_streaming(ChunkPos { x, y, z });
        assert!(0 <= n && n as usize <= PAGE_LOAD_PER_FRAME);
        assert_eq!(
            streamer.loaded_chunk_pages.len() + streamer.chunk_page_pool.len(),
            MAX_NUM_PAGES
        );
    }
}

#[test]
fn test_neighborhood_scenario() {
    // Starting with an empty pool and the viewer at the origin chunk, the
    // whole 3-by-3 page neighborhood becomes resident after enough ticks,
    // two pages per tick.
    let mut streamer = ChunkStreamer::new(EmptyWorldGenerator);
    let viewer = ChunkPos { x: 0, y: 0, z: 0 };
    let counts: Vec<i32> = (0..6).map(|_| streamer.tick_streaming(viewer)).collect();
    assert_eq!(counts, vec![2, 2, 2, 2, 1, 0]);
    assert_eq!(streamer.loaded_chunk_pages.len(), 9);
    assert_eq!(streamer.chunk_page_pool.len(), 7);
    for px in -1..=1 {
        for pz in -1..=1 {
            assert!(streamer
                .get_page_ref(PagePos { x: px, z: pz })
                .is_some());
        }
    }
    assert!(streamer.get_chunk(viewer).is_some());
    assert!(streamer.is_chunked_streamed(viewer));
    // a chunk far outside the neighborhood is simply not streamed yet
    let far = ChunkPos { x: 100, y: 0, z: 100 };
    assert!(streamer.get_chunk(far).is_none());
    assert!(!streamer.is_chunked_streamed(far));
}

#[test]
fn test_closest_pages_load_first() {
    let mut streamer = ChunkStreamer::new(EmptyWorldGenerator);
    // The viewer sits in the north-west part of page (0, 0); the first two
    // pages loaded must be the two nearest by center-chunk distance: the
    // viewer's own page and its nearest neighbor.
    let viewer = ChunkPos { x: -1, y: 0, z: -1 };
    streamer.tick_streaming(viewer);
    let loaded = loaded_positions(&streamer);
    assert_eq!(loaded.len(), 2);
    assert!(loaded.contains(&PagePos { x: 0, z: 0 }));
    let second = if loaded[0] == (PagePos { x: 0, z: 0 }) {
        loaded[1]
    } else {
        loaded[0]
    };
    // (-1, 0) and (0, -1) are tied; the stable descending sort keeps the
    // earlier-listed (0, -1) first in the queue, so popping from the back
    // reaches (-1, 0) before it
    assert_eq!(second, PagePos { x: -1, z: 0 });
}

#[test]
fn test_eviction_takes_farthest_pages() {
    let mut streamer = ChunkStreamer::new(EmptyWorldGenerator);
    // Fill the pool completely by visiting two distant neighborhoods.
    for _ in 0..6 {
        streamer.tick_streaming(ChunkPos { x: 0, y: 0, z: 0 });
    }
    for _ in 0..6 {
        streamer.tick_streaming(ChunkPos { x: 40, y: 0, z: 0 });
    }
    assert_eq!(streamer.loaded_chunk_pages.len(), MAX_NUM_PAGES);
    assert_eq!(streamer.chunk_page_pool.len(), 0);

    let viewer = ChunkPos { x: 2, y: 0, z: 2 };
    let before = loaded_positions(&streamer);
    let mut dists: Vec<i128> = before.iter().map(|p| page_dist(*p, viewer)).collect();
    assert_eq!(streamer.free_some_pages(4, viewer), 4);
    assert_eq!(streamer.loaded_chunk_pages.len(), MAX_NUM_PAGES - 4);
    assert_eq!(streamer.chunk_page_pool.len(), 4);

    // the pages kept are exactly the twelve nearest: every kept page is at
    // most as far as every evicted page
    let kept = loaded_positions(&streamer);
    dists.sort();
    let cutoff = dists[MAX_NUM_PAGES - 4 - 1];
    for p in &kept {
        assert!(page_dist(*p, viewer) <= cutoff, "kept a far page {:?}", p);
    }
    for p in &before {
        if !kept.contains(p) {
            assert!(
                page_dist(*p, viewer) >= cutoff,
                "evicted a near page {:?}",
                p
            );
        }
    }
}

#[test]
fn test_eviction_degrades_when_few_resident() {
    let mut streamer = ChunkStreamer::new(EmptyWorldGenerator);
    let viewer = ChunkPos { x: 0, y: 0, z: 0 };
    streamer.tick_streaming(viewer);
    assert_eq!(streamer.loaded_chunk_pages.len(), 2);
    // asking for more evictions than there are resident pages evicts as
    // many as possible and is not an error; the shortfall shows in the
    // returned count
    assert_eq!(streamer.free_some_pages(5, viewer), 2);
    assert_eq!(streamer.loaded_chunk_pages.len(), 0);
    assert_eq!(streamer.chunk_page_pool.len(), MAX_NUM_PAGES);
}

#[test]
fn test_get_info_reports_resident_count() {
    let mut streamer = ChunkStreamer::new(EmptyWorldGenerator);
    assert_eq!(streamer.get_info(), "0 page(s) loaded");
    for _ in 0..6 {
        streamer.tick_streaming(ChunkPos { x: 0, y: 0, z: 0 });
    }
    assert_eq!(streamer.get_info(), "9 page(s) loaded");
}

#[test]
fn test_streamed_chunks_come_from_generator() {
    let mut streamer = ChunkStreamer::new(TestGenerator {
        rng: fastrand::Rng::with_seed(0),
    });
    let viewer = ChunkPos { x: 0, y: 0, z: 0 };
    for _ in 0..6 {
        streamer.tick_streaming(viewer);
    }
    // stone layer below ground
    let stone = streamer
        .get_chunk(ChunkPos { x: 0, y: -1, z: 0 })
        .expect("chunk should be streamed");
    assert!(!stone.is_empty());
    for x in 0..16 {
        for z in 0..16 {
            assert_eq!(stone.get_block(x, 8, z), BlockType::Stone);
        }
    }
    // ground level: dirt below, grass on top of each column
    let ground = streamer
        .get_chunk(ChunkPos { x: 0, y: 0, z: 0 })
        .expect("chunk should be streamed");
    assert!(!ground.is_empty());
    for x in 0..16 {
        for z in 0..16 {
            assert_eq!(ground.get_block(x, 0, z), BlockType::Dirt);
            let top13 = ground.get_block(x, 13, z);
            let top14 = ground.get_block(x, 14, z);
            assert!(
                (top13 == BlockType::Grass && top14 == BlockType::Empty)
                    || (top13 == BlockType::Dirt && top14 == BlockType::Grass)
            );
            assert_eq!(ground.get_block(x, 15, z), BlockType::Empty);
        }
    }
    // air above
    let air = streamer
        .get_chunk(ChunkPos { x: 0, y: 2, z: 0 })
        .expect("chunk should be streamed");
    assert!(air.is_empty());
}

#[test]
fn test_page_content_bounds() {
    let mut page = ChunkPage::default();
    let mut generator = TestGenerator {
        rng: fastrand::Rng::with_seed(7),
    };
    page.fill_from(&mut generator, PagePos { x: 1, z: -1 });
    assert_eq!(page.position, PagePos { x: 1, z: -1 });
    // the non-empty layers sit at chunk Y -1 and 0, and the page spans
    // chunks 2..6 on X and -6..-2 on Z; the box always covers the origin
    // it starts from
    assert_eq!(page.content_bounds.min, Vec3i { x: 0, y: -1, z: -6 });
    assert_eq!(page.content_bounds.max, Vec3i { x: 5, y: 0, z: 0 });
}

#[test]
fn test_random_generator_streams_solid_chunks() {
    let mut streamer = ChunkStreamer::new(RandomChunkGenerator {
        rng: fastrand::Rng::with_seed(3),
    });
    let viewer = ChunkPos { x: 0, y: 0, z: 0 };
    streamer.tick_streaming(viewer);
    let chunk = streamer
        .get_chunk(viewer)
        .expect("the viewer's own page loads first");
    assert!(!chunk.is_empty());
}
