//! World generators: pluggable producers of chunk content, consumed by the
//! streamer when it fills pages.

use crate::chunk::{
    lemma_chunk_index_injective, spec_chunk_index, BlockType, Chunk,
};
use crate::position::{ChunkPos, BLOCKS_PER_CHUNK};
use crate::rng::rng_u8_range;
use vstd::prelude::*;

verus! {

/// The block of a ground column of height `m` at height `y`: dirt below
/// the surface, grass at the surface, air above it.
pub open spec fn spec_surface_block(m: int, y: int) -> BlockType {
    if y < m - 1 {
        BlockType::Dirt
    } else if y == m - 1 {
        BlockType::Grass
    } else {
        BlockType::Empty
    }
}

/// Whether column `(a, b)` of a chunk is a ground column with surface
/// height exactly `m`.
pub open spec fn spec_column_matches(c: Chunk, a: int, b: int, m: int) -> bool {
    forall|y: int|
        0 <= y < 16 ==> c.blocks@[spec_chunk_index(a, y, b)] == spec_surface_block(m, y)
}

/// Whether column `(a, b)` of a chunk is a finished ground column: dirt
/// capped by one grass block at a surface height of 14 or 15.
pub open spec fn spec_ground_column(c: Chunk, a: int, b: int) -> bool {
    exists|m: int| 14 <= m < 16 && #[trigger] spec_column_matches(c, a, b, m)
}

/// Whether column `(a, b)` of a chunk is still all air.
pub open spec fn spec_air_column(c: Chunk, a: int, b: int) -> bool {
    forall|y: int| 0 <= y < 16 ==> c.blocks@[spec_chunk_index(a, y, b)] == BlockType::Empty
}

/// A source of chunk content: turns a chunk coordinate into block data.
pub trait WorldGenerator {
    /// The shape of content this generator produces for a position: every
    /// chunk that `generate` can return for `chunk_pos` satisfies it. A
    /// deterministic generator pins the chunk exactly; one that draws
    /// random numbers states what holds of every outcome.
    spec fn spec_generates(chunk_pos: ChunkPos, r: Chunk) -> bool;

    /// Produces the chunk at the given position.
    fn generate(&mut self, chunk_pos: ChunkPos) -> (r: Chunk)
        requires
            chunk_pos.wf(),
        ensures
            r.wf(),
            Self::spec_generates(chunk_pos, r),
    ;
}

/// A generator producing nothing but empty chunks.
pub struct EmptyWorldGenerator;

impl WorldGenerator for EmptyWorldGenerator {
    /// Exactly the all-air chunk, for every position.
    open spec fn spec_generates(chunk_pos: ChunkPos, r: Chunk) -> bool {
        &&& r.wf()
        &&& r.empty
        &&& forall|i: int| 0 <= i < BLOCKS_PER_CHUNK ==> r.blocks@[i] == BlockType::Empty
    }

    fn generate(&mut self, chunk_pos: ChunkPos) -> (r: Chunk) {
        Chunk::empty()
    }
}

/// A generator producing chunks of uniformly random blocks.
#[derive(Debug)]
pub struct RandomChunkGenerator {
    pub rng: fastrand::Rng,
}

impl WorldGenerator for RandomChunkGenerator {
    /// A well-formed chunk marked solid; which blocks it holds depends on
    /// the random numbers drawn.
    open spec fn spec_generates(chunk_pos: ChunkPos, r: Chunk) -> bool {
        r.wf() && !r.empty
    }

    fn generate(&mut self, chunk_pos: ChunkPos) -> (r: Chunk) {
        Chunk::random(&mut self.rng)
    }
}

/// A layered test world: stone below ground level, a rolling dirt-and-grass
/// surface at ground level, and air above.
#[derive(Debug)]
pub struct TestGenerator {
    pub rng: fastrand::Rng,
}

/// A ground-level chunk: every column is dirt up to a randomly chosen
/// surface height of 14 or 15 blocks, with grass as its topmost block and
/// air above.
fn dirt_with_grass_on_top(rng: &mut fastrand::Rng) -> (r: Chunk)
    ensures
        r.wf(),
        !r.empty,
        forall|a: int, b: int| 0 <= a < 16 && 0 <= b < 16 ==> spec_ground_column(r, a, b),
{
    let mut res = Chunk::new(false);
    let mut x: u16 = 0;
    while x < 16
        invariant
            res.wf(),
            !res.empty,
            x <= 16,
            forall|a: int, b: int| 0 <= a < x && 0 <= b < 16 ==> spec_ground_column(res, a, b),
            forall|a: int, b: int| x <= a < 16 && 0 <= b < 16 ==> spec_air_column(res, a, b),
        decreases 16 - x,
    {
        let mut z: u16 = 0;
        while z < 16
            invariant
                res.wf(),
                !res.empty,
                x < 16,
                z <= 16,
                forall|a: int, b: int| 0 <= a < x && 0 <= b < 16 ==> spec_ground_column(res, a, b),
                forall|b: int| 0 <= b < z ==> spec_ground_column(res, x as int, b),
                forall|b: int| z <= b < 16 ==> spec_air_column(res, x as int, b),
                forall|a: int, b: int|
                    x < a < 16 && 0 <= b < 16 ==> spec_air_column(res, a, b),
            decreases 16 - z,
        {
            let column_top = rng_u8_range(rng, 14, 16) as u16;
            proof {
                assert forall|yy: int|
                    0 <= yy < 16 implies res.blocks@[spec_chunk_index(x as int, yy, z as int)]
                    == BlockType::Empty by {
                    assert(spec_air_column(res, x as int, z as int));
                }
            }
            let mut y: u16 = 0;
            while y < column_top
                invariant
                    res.wf(),
                    !res.empty,
                    x < 16,
                    z < 16,
                    y <= column_top,
                    14 <= column_top < 16,
                    forall|a: int, b: int|
                        0 <= a < x && 0 <= b < 16 ==> spec_ground_column(res, a, b),
                    forall|b: int| 0 <= b < z ==> spec_ground_column(res, x as int, b),
                    forall|yy: int|
                        0 <= yy < y ==> res.blocks@[spec_chunk_index(x as int, yy, z as int)]
                            == spec_surface_block(column_top as int, yy),
                    forall|yy: int|
                        y <= yy < 16 ==> res.blocks@[spec_chunk_index(x as int, yy, z as int)]
                            == BlockType::Empty,
                    forall|b: int| z < b < 16 ==> spec_air_column(res, x as int, b),
                    forall|a: int, b: int|
                        x < a < 16 && 0 <= b < 16 ==> spec_air_column(res, a, b),
                decreases column_top - y,
            {
                let block = if y == column_top - 1 {
                    BlockType::Grass
                } else {
                    BlockType::Dirt
                };
                let ghost before = res;
                res.set(x, y, z, block);
                proof {
                    lemma_set_preserves_other_columns(
                        before,
                        res,
                        x as int,
                        y as int,
                        z as int,
                        block,
                    );
                    assert forall|a: int, b: int|
                        (0 <= a && a < x as int && 0 <= b < 16) || (a == x as int && 0 <= b
                            && b < z as int) implies spec_ground_column(res, a, b) by {
                        assert(spec_ground_column(before, a, b));
                        let m = choose|m: int|
                            14 <= m < 16 && #[trigger] spec_column_matches(before, a, b, m);
                        assert forall|yy: int|
                            0 <= yy < 16 implies res.blocks@[spec_chunk_index(a, yy, b)]
                            == spec_surface_block(m, yy) by {
                            assert(before.blocks@[spec_chunk_index(a, yy, b)]
                                == spec_surface_block(m, yy));
                        }
                        assert(spec_column_matches(res, a, b, m));
                    }
                    assert forall|a: int, b: int|
                        ((a == x as int && b > z as int && b < 16) || (a > x as int && a < 16
                            && 0 <= b < 16)) implies spec_air_column(res, a, b) by {
                        assert(spec_air_column(before, a, b));
                        assert forall|yy: int|
                            0 <= yy < 16 implies res.blocks@[spec_chunk_index(a, yy, b)]
                            == BlockType::Empty by {
                            assert(before.blocks@[spec_chunk_index(a, yy, b)]
                                == BlockType::Empty);
                        }
                    }
                    assert(res.blocks@[spec_chunk_index(x as int, y as int, z as int)]
                        == spec_surface_block(column_top as int, y as int));
                }
                y += 1;
            }
            proof {
                assert(spec_ground_column(res, x as int, z as int)) by {
                    let m = column_top as int;
                    assert(spec_column_matches(res, x as int, z as int, m));
                }
            }
            z += 1;
        }
        x += 1;
    }
    res
}

/// Writing one block changes nothing outside its own storage slot: every
/// other offset of the chunk keeps its block.
proof fn lemma_set_preserves_other_columns(
    before: Chunk,
    after: Chunk,
    x: int,
    y: int,
    z: int,
    block: BlockType,
)
    requires
        before.wf(),
        0 <= x < 16,
        0 <= y < 16,
        0 <= z < 16,
        after.blocks@ == before.blocks@.update(spec_chunk_index(x, y, z), block),
    ensures
        after.blocks@[spec_chunk_index(x, y, z)] == block,
        forall|a: int, yy: int, b: int|
            0 <= a < 16 && 0 <= yy < 16 && 0 <= b < 16 && !(a == x && yy == y && b == z)
                ==> after.blocks@[spec_chunk_index(a, yy, b)] == before.blocks@[spec_chunk_index(
                a,
                yy,
                b,
            )],
{
    assert(0 <= spec_chunk_index(x, y, z) < 4096);
    assert forall|a: int, yy: int, b: int|
        0 <= a < 16 && 0 <= yy < 16 && 0 <= b < 16 && !(a == x && yy == y && b == z)
            implies after.blocks@[spec_chunk_index(a, yy, b)] == before.blocks@[spec_chunk_index(
            a,
            yy,
            b,
        )] by {
        lemma_chunk_index_injective(a, yy, b, x, y, z);
        assert(0 <= spec_chunk_index(a, yy, b) < 4096);
    }
}

impl WorldGenerator for TestGenerator {
    /// Solid stone one chunk below ground, ground columns at ground level,
    /// air everywhere else; only the per-column surface heights are left
    /// to the random numbers drawn.
    open spec fn spec_generates(chunk_pos: ChunkPos, r: Chunk) -> bool {
        &&& r.wf()
        &&& if chunk_pos.y == -1 {
            !r.empty && forall|i: int| 0 <= i < BLOCKS_PER_CHUNK ==> r.blocks@[i] == BlockType::Stone
        } else if chunk_pos.y == 0 {
            !r.empty && forall|a: int, b: int|
                0 <= a < 16 && 0 <= b < 16 ==> spec_ground_column(r, a, b)
        } else {
            r.empty && forall|i: int| 0 <= i < BLOCKS_PER_CHUNK ==> r.blocks@[i] == BlockType::Empty
        }
    }

    fn generate(&mut self, chunk_pos: ChunkPos) -> (r: Chunk) {
        if chunk_pos.y == -1 {
            Chunk::plain(BlockType::Stone)
        } else if chunk_pos.y == 0 {
            dirt_with_grass_on_top(&mut self.rng)
        } else {
            Chunk::empty()
        }
    }
}

} // verus!
