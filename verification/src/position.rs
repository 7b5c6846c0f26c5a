//! Coordinate math for the four nested coordinate spaces: blocks, chunks,
//! page-relative chunk offsets, and pages.
//!
//! All conversions round toward negative infinity (floor semantics), so they
//! are exact for negative coordinates as well. In contracts, `/` and `%` on
//! `int` are the Euclidean forms, which for the positive divisors used here
//! coincide with floor division and floor modulo.

use vstd::arithmetic::div_mod::{
    lemma_div_is_ordered, lemma_fundamental_div_mod, lemma_fundamental_div_mod_converse,
};
use vstd::prelude::*;

verus! {

/// Edge length of a cubic chunk, in blocks.
pub const CHUNK_SIZE: usize = 16;

/// Number of blocks stored in one chunk.
pub const BLOCKS_PER_CHUNK: usize = CHUNK_SIZE * CHUNK_SIZE * CHUNK_SIZE;

/// Height of the world, in chunks.
pub const TOTAL_CHUNK_HEIGHT: i32 = 20;

/// Lowest legal chunk Y coordinate (inclusive).
pub const MIN_CHUNK_Y: i32 = -16;

/// Highest legal chunk Y coordinate (exclusive).
pub const MAX_CHUNK_Y: i32 = TOTAL_CHUNK_HEIGHT + MIN_CHUNK_Y;

/// Lowest legal block Y coordinate (inclusive).
pub const MIN_BLOCK_Y: i32 = MIN_CHUNK_Y * 16;

/// Highest legal block Y coordinate (exclusive).
pub const MAX_BLOCK_Y: i32 = MAX_CHUNK_Y * 16;

/// Height of the world, in blocks.
pub const TOTAL_BLOCK_HEIGHT: i32 = TOTAL_CHUNK_HEIGHT * 16;

/// Horizontal extent of a page, in chunks, along X.
pub const CHUNK_PAGE_SIZE_X: i32 = 4;

/// Vertical extent of a page, in chunks: pages span the whole world height
/// and tile only horizontally.
pub const CHUNK_PAGE_SIZE_Y: i32 = TOTAL_CHUNK_HEIGHT;

/// Horizontal extent of a page, in chunks, along Z.
pub const CHUNK_PAGE_SIZE_Z: i32 = 4;

/// Smallest legal page-relative chunk offset along X (inclusive): half the
/// page extent below the center chunk.
pub const MIN_CHUNK_PAGE_OFFSET_X: i32 = -2;

/// Smallest legal page-relative chunk offset along Y (inclusive).
pub const MIN_CHUNK_PAGE_OFFSET_Y: i32 = MIN_CHUNK_Y;

/// Smallest legal page-relative chunk offset along Z (inclusive): half the
/// page extent below the center chunk.
pub const MIN_CHUNK_PAGE_OFFSET_Z: i32 = -2;

/// Number of chunks stored in one page: the product of the three page axis
/// extents, 4 * 20 * 4.
pub const NUM_CHUNKS_PER_PAGE: usize = 320;

/// Chunk X/Z coordinates this close to the `i32` limits keep every page
/// computation free of overflow.
pub open spec fn in_xz_range(v: int) -> bool {
    -0x4000_0000 <= v <= 0x4000_0000
}

/// Page X/Z coordinates in this range keep the page's center chunk
/// representable in `i32`.
pub open spec fn in_page_range(v: int) -> bool {
    -0x1FFF_FFFF <= v <= 0x1FFF_FFFF
}

/// World Y bounds for chunk coordinates.
pub open spec fn chunk_y_in_bounds(y: int) -> bool {
    MIN_CHUNK_Y <= y < MAX_CHUNK_Y
}

/// World Y bounds for block coordinates.
pub open spec fn block_y_in_bounds(y: int) -> bool {
    MIN_BLOCK_Y <= y < MAX_BLOCK_Y
}

/// The page coordinate owning horizontal chunk coordinate `c`: chunk columns
/// are shifted by half a page so that page (0, 0) is centered on chunk
/// (0, 0), then grouped by floor division. The X and Z axes share one page
/// extent, so this serves both.
pub open spec fn spec_page_coord(c: int) -> int {
    (c + CHUNK_PAGE_SIZE_X as int / 2) / CHUNK_PAGE_SIZE_X as int
}

/// The page-relative offset of horizontal chunk coordinate `c`: its distance
/// from the center chunk of the page that owns it.
pub open spec fn spec_page_offset_coord(c: int) -> int {
    c - CHUNK_PAGE_SIZE_X as int * spec_page_coord(c)
}

/// Squared Euclidean distance between two integer points.
pub open spec fn spec_dist_sq(ax: int, ay: int, az: int, bx: int, by: int, bz: int) -> int {
    (ax - bx) * (ax - bx) + (ay - by) * (ay - by) + (az - bz) * (az - bz)
}

/// Error for coordinate constructors whose argument lies outside the legal
/// world or page volume.
#[derive(Clone, Copy, PartialEq, Eq, Structural, Debug)]
pub enum CoordError {
    ChunkYOutOfBounds,
    PageOffsetOutOfBounds,
    PageIndexOutOfBounds,
}

/// A plain 3-component integer vector, used for bounding boxes and raw
/// coordinate access.
#[derive(Clone, Copy, PartialEq, Eq, Structural, Debug, Hash)]
pub struct Vec3i {
    pub x: i32,
    pub y: i32,
    pub z: i32,
}

/// Absolute position of one voxel. Unbounded on X/Z, bounded on Y by the
/// world height limits.
#[derive(Clone, Copy, PartialEq, Eq, Structural, Debug, Hash)]
pub struct BlockPos {
    pub x: i32,
    pub y: i32,
    pub z: i32,
}

/// Position of one chunk: its block position divided by `CHUNK_SIZE` with
/// floor semantics. Y is bounded by `[MIN_CHUNK_Y, MAX_CHUNK_Y)`.
#[derive(Clone, Copy, PartialEq, Eq, Structural, Debug, Hash)]
pub struct ChunkPos {
    pub x: i32,
    pub y: i32,
    pub z: i32,
}

/// A chunk's position relative to the center chunk of its owning page.
/// X/Z range over `[-CHUNK_PAGE_SIZE/2, CHUNK_PAGE_SIZE/2)`; Y spans the
/// whole world height.
#[derive(Clone, Copy, PartialEq, Eq, Structural, Debug, Hash)]
pub struct PageChunkOffset {
    pub x: i32,
    pub y: i32,
    pub z: i32,
}

/// Two-dimensional (X, Z) coordinate identifying a page.
#[derive(Clone, Copy, PartialEq, Eq, Structural, Debug, Hash)]
pub struct PagePos {
    pub x: i32,
    pub z: i32,
}

/// A flat index into a page's chunk storage, in bijection with
/// `PageChunkOffset` over the page volume.
#[derive(Clone, Copy, PartialEq, Eq, Structural, Debug, Hash)]
pub struct PageIndex(pub usize);

impl BlockPos {
    /// The raw components of this position.
    pub fn as_vec(&self) -> (r: Vec3i)
        ensures
            r == (Vec3i { x: self.x, y: self.y, z: self.z }),
    {
        Vec3i { x: self.x, y: self.y, z: self.z }
    }

    /// The position of the chunk containing this block, by floor division of
    /// every component by the chunk size.
    pub fn to_chunk_pos(&self) -> (r: ChunkPos)
        requires
            block_y_in_bounds(self.y as int),
        ensures
            r.x == self.x as int / 16,
            r.y == self.y as int / 16,
            r.z == self.z as int / 16,
            r.wf(),
    {
        let y = proper_rescale_i32(self.y, CHUNK_SIZE as i32);
        proof {
            lemma_div_is_ordered(MIN_BLOCK_Y as int, self.y as int, 16);
            lemma_div_is_ordered(self.y as int, MAX_BLOCK_Y as int - 1, 16);
        }
        ChunkPos {
            x: proper_rescale_i32(self.x, CHUNK_SIZE as i32),
            y,
            z: proper_rescale_i32(self.z, CHUNK_SIZE as i32),
        }
    }
}

impl ChunkPos {
    /// A chunk position is well formed when its Y coordinate lies within the
    /// world height limits.
    pub open spec fn wf(self) -> bool {
        chunk_y_in_bounds(self.y as int)
    }

    /// X and Z are far enough from the `i32` limits for page arithmetic.
    pub open spec fn xz_in_range(self) -> bool {
        in_xz_range(self.x as int) && in_xz_range(self.z as int)
    }

    /// Checked constructor: fails exactly when the Y coordinate is outside
    /// the world height limits.
    pub fn new(x: i32, y: i32, z: i32) -> (r: Result<ChunkPos, CoordError>)
        ensures
            chunk_y_in_bounds(y as int) ==> r == Ok::<ChunkPos, CoordError>(
                (ChunkPos { x, y, z }),
            ),
            !chunk_y_in_bounds(y as int) ==> r == Err::<ChunkPos, CoordError>(
                CoordError::ChunkYOutOfBounds,
            ),
    {
        if MIN_CHUNK_Y <= y && y < MAX_CHUNK_Y {
            Ok(ChunkPos { x, y, z })
        } else {
            Err(CoordError::ChunkYOutOfBounds)
        }
    }

    /// The raw components of this position.
    pub fn as_vec(&self) -> (r: Vec3i)
        ensures
            r == (Vec3i { x: self.x, y: self.y, z: self.z }),
    {
        Vec3i { x: self.x, y: self.y, z: self.z }
    }

    /// The block position of this chunk's first block, at chunk granularity:
    /// every component times the chunk size.
    pub fn get_center_block_pos(&self) -> (r: BlockPos)
        requires
            -0x0800_0000 <= self.x < 0x0800_0000,
            -0x0800_0000 <= self.z < 0x0800_0000,
            self.wf(),
        ensures
            r.x == 16 * self.x as int,
            r.y == 16 * self.y as int,
            r.z == 16 * self.z as int,
            block_y_in_bounds(r.y as int),
    {
        BlockPos { x: self.x * 16, y: self.y * 16, z: self.z * 16 }
    }

    /// The page owning this chunk, together with the chunk's offset from
    /// that page's center chunk. Reconstructing the chunk from the pair is
    /// exact: `page.get_chunk_pos_at(offset)` returns this position again.
    pub fn get_page_pos(&self) -> (r: (PagePos, PageChunkOffset))
        requires
            self.wf(),
            self.xz_in_range(),
        ensures
            r.0.x == spec_page_coord(self.x as int),
            r.0.z == spec_page_coord(self.z as int),
            r.0.wf(),
            r.1.x == spec_page_offset_coord(self.x as int),
            r.1.y == self.y,
            r.1.z == spec_page_offset_coord(self.z as int),
            r.1.wf(),
            CHUNK_PAGE_SIZE_X as int * r.0.x + r.1.x == self.x as int,
            CHUNK_PAGE_SIZE_Z as int * r.0.z + r.1.z == self.z as int,
    {
        proof {
            lemma_page_coord_in_range(self.x as int);
            lemma_page_coord_in_range(self.z as int);
            lemma_page_offset_coord_in_range(self.x as int);
            lemma_page_offset_coord_in_range(self.z as int);
        }
        let px = proper_rescale_i32(self.x + CHUNK_PAGE_SIZE_X / 2, CHUNK_PAGE_SIZE_X);
        let pz = proper_rescale_i32(self.z + CHUNK_PAGE_SIZE_Z / 2, CHUNK_PAGE_SIZE_Z);
        let page_pos = PagePos { x: px, z: pz };
        let offset = PageChunkOffset {
            x: self.x - px * CHUNK_PAGE_SIZE_X,
            y: self.y,
            z: self.z - pz * CHUNK_PAGE_SIZE_Z,
        };
        (page_pos, offset)
    }

    /// Squared Euclidean distance to another chunk position, exact over the
    /// mathematical integers.
    pub fn distance_squared(&self, other: ChunkPos) -> (r: i128)
        ensures
            r == spec_dist_sq(
                self.x as int,
                self.y as int,
                self.z as int,
                other.x as int,
                other.y as int,
                other.z as int,
            ),
    {
        let dx: i64 = self.x as i64 - other.x as i64;
        let dy: i64 = self.y as i64 - other.y as i64;
        let dz: i64 = self.z as i64 - other.z as i64;
        proof {
            lemma_square_bound(dx as int);
            lemma_square_bound(dy as int);
            lemma_square_bound(dz as int);
        }
        (dx as i128) * (dx as i128) + (dy as i128) * (dy as i128) + (dz as i128) * (dz as i128)
    }
}

impl PageChunkOffset {
    /// An offset is well formed when it lies within the legal page volume:
    /// X/Z within half a page of the center, Y anywhere in the world height.
    pub open spec fn wf(self) -> bool {
        &&& MIN_CHUNK_PAGE_OFFSET_X <= self.x < CHUNK_PAGE_SIZE_X + MIN_CHUNK_PAGE_OFFSET_X
        &&& MIN_CHUNK_PAGE_OFFSET_Y <= self.y < CHUNK_PAGE_SIZE_Y + MIN_CHUNK_PAGE_OFFSET_Y
        &&& MIN_CHUNK_PAGE_OFFSET_Z <= self.z < CHUNK_PAGE_SIZE_Z + MIN_CHUNK_PAGE_OFFSET_Z
    }

    /// The flat storage index of this offset within its page.
    pub open spec fn spec_index(self) -> int {
        (self.x - MIN_CHUNK_PAGE_OFFSET_X) + (self.y - MIN_CHUNK_PAGE_OFFSET_Y)
            * CHUNK_PAGE_SIZE_X + (self.z - MIN_CHUNK_PAGE_OFFSET_Z) * (CHUNK_PAGE_SIZE_X
            * CHUNK_PAGE_SIZE_Y)
    }

    /// Checked constructor: fails exactly when the offset lies outside the
    /// legal page volume.
    pub fn new(x: i32, y: i32, z: i32) -> (r: Result<PageChunkOffset, CoordError>)
        ensures
            (PageChunkOffset { x, y, z }).wf() ==> r == Ok::<PageChunkOffset, CoordError>(
                (PageChunkOffset { x, y, z }),
            ),
            !(PageChunkOffset { x, y, z }).wf() ==> r == Err::<PageChunkOffset, CoordError>(
                CoordError::PageOffsetOutOfBounds,
            ),
    {
        let candidate = PageChunkOffset { x, y, z };
        if MIN_CHUNK_PAGE_OFFSET_X <= x && x < CHUNK_PAGE_SIZE_X + MIN_CHUNK_PAGE_OFFSET_X
            && MIN_CHUNK_PAGE_OFFSET_Y <= y && y < CHUNK_PAGE_SIZE_Y + MIN_CHUNK_PAGE_OFFSET_Y
            && MIN_CHUNK_PAGE_OFFSET_Z <= z && z < CHUNK_PAGE_SIZE_Z + MIN_CHUNK_PAGE_OFFSET_Z {
            Ok(candidate)
        } else {
            Err(CoordError::PageOffsetOutOfBounds)
        }
    }

    /// The raw components of this offset.
    pub fn as_vec(&self) -> (r: Vec3i)
        ensures
            r == (Vec3i { x: self.x, y: self.y, z: self.z }),
    {
        Vec3i { x: self.x, y: self.y, z: self.z }
    }

    /// The flat storage index of this offset: offsets are laid out X-fastest,
    /// then Y, then Z.
    pub fn as_page_index(&self) -> (r: PageIndex)
        requires
            self.wf(),
        ensures
            r.0 == self.spec_index(),
            r.0 < NUM_CHUNKS_PER_PAGE,
    {
        let vx = self.x - MIN_CHUNK_PAGE_OFFSET_X;
        let vy = self.y - MIN_CHUNK_PAGE_OFFSET_Y;
        let vz = self.z - MIN_CHUNK_PAGE_OFFSET_Z;
        PageIndex(
            (vx + vy * 4 + vz * 80) as usize,
        )
    }

    /// The offset stored at flat index `index`, inverting `as_page_index`.
    pub fn from_page_index(index: PageIndex) -> (r: PageChunkOffset)
        requires
            index.0 < NUM_CHUNKS_PER_PAGE,
        ensures
            r.wf(),
            r.spec_index() == index.0,
            r.x == index.0 as int % 4 + MIN_CHUNK_PAGE_OFFSET_X,
            r.y == (index.0 as int / 4) % 20 + MIN_CHUNK_PAGE_OFFSET_Y,
            r.z == index.0 as int / 80 + MIN_CHUNK_PAGE_OFFSET_Z,
    {
        proof {
            lemma_page_index_decomposition(index.0 as int);
        }
        let i = index.0;
        PageChunkOffset {
            x: (i % 4) as i32 + MIN_CHUNK_PAGE_OFFSET_X,
            y: ((i / 4) % 20) as i32 + MIN_CHUNK_PAGE_OFFSET_Y,
            z: (i / 80) as i32 + MIN_CHUNK_PAGE_OFFSET_Z,
        }
    }
}

impl PageIndex {
    /// Checked constructor: fails exactly when the index lies outside the
    /// page volume.
    pub fn new(i: usize) -> (r: Result<PageIndex, CoordError>)
        ensures
            i < NUM_CHUNKS_PER_PAGE ==> r == Ok::<PageIndex, CoordError>((PageIndex(i))),
            i >= NUM_CHUNKS_PER_PAGE ==> r == Err::<PageIndex, CoordError>(
                CoordError::PageIndexOutOfBounds,
            ),
    {
        if i < NUM_CHUNKS_PER_PAGE {
            Ok(PageIndex(i))
        } else {
            Err(CoordError::PageIndexOutOfBounds)
        }
    }
}

impl PagePos {
    /// A page position is well formed when its center chunk is representable
    /// without overflow.
    pub open spec fn wf(self) -> bool {
        in_page_range(self.x as int) && in_page_range(self.z as int)
    }

    /// The position of this page's center chunk, at Y = 0.
    pub fn get_center_chunk_pos(&self) -> (r: ChunkPos)
        requires
            self.wf(),
        ensures
            r.x == CHUNK_PAGE_SIZE_X as int * self.x as int,
            r.y == 0,
            r.z == CHUNK_PAGE_SIZE_Z as int * self.z as int,
            r.wf(),
    {
        ChunkPos { x: self.x * CHUNK_PAGE_SIZE_X, y: 0, z: self.z * CHUNK_PAGE_SIZE_Z }
    }

    /// The world chunk position stored at `offset` within this page: the
    /// page's center chunk displaced by the offset.
    pub fn get_chunk_pos_at(&self, offset: PageChunkOffset) -> (r: ChunkPos)
        requires
            self.wf(),
            offset.wf(),
        ensures
            r.x == CHUNK_PAGE_SIZE_X as int * self.x as int + offset.x as int,
            r.y == offset.y,
            r.z == CHUNK_PAGE_SIZE_Z as int * self.z as int + offset.z as int,
            r.wf(),
    {
        let center = self.get_center_chunk_pos();
        ChunkPos { x: center.x + offset.x, y: center.y + offset.y, z: center.z + offset.z }
    }

    /// Whether the given chunk belongs to this page.
    pub fn has_chunk_pos(&self, chunk_pos: ChunkPos) -> (r: bool)
        requires
            chunk_pos.wf(),
            chunk_pos.xz_in_range(),
        ensures
            r == (self.x == spec_page_coord(chunk_pos.x as int) && self.z == spec_page_coord(
                chunk_pos.z as int,
            )),
    {
        let (page_pos, _) = chunk_pos.get_page_pos();
        page_pos.x == self.x && page_pos.z == self.z
    }
}

/// The offset decoded from a flat storage index, inverting
/// `PageChunkOffset::spec_index` over the page volume.
pub open spec fn spec_offset_from_index(i: int) -> PageChunkOffset {
    PageChunkOffset {
        x: (i % 4 + MIN_CHUNK_PAGE_OFFSET_X) as i32,
        y: ((i / 4) % 20 + MIN_CHUNK_PAGE_OFFSET_Y) as i32,
        z: (i / 80 + MIN_CHUNK_PAGE_OFFSET_Z) as i32,
    }
}

/// Round-trip law: a chunk position within world bounds is reconstructed
/// exactly from its page position and page offset, on both horizontal
/// axes; the Y axis passes through conversions unchanged.
pub proof fn lemma_chunk_page_round_trip(c: ChunkPos)
    requires
        c.wf(),
    ensures
        CHUNK_PAGE_SIZE_X as int * spec_page_coord(c.x as int) + spec_page_offset_coord(
            c.x as int,
        ) == c.x as int,
        CHUNK_PAGE_SIZE_Z as int * spec_page_coord(c.z as int) + spec_page_offset_coord(
            c.z as int,
        ) == c.z as int,
        MIN_CHUNK_PAGE_OFFSET_X <= spec_page_offset_coord(c.x as int) < CHUNK_PAGE_SIZE_X
            + MIN_CHUNK_PAGE_OFFSET_X,
        MIN_CHUNK_PAGE_OFFSET_Z <= spec_page_offset_coord(c.z as int) < CHUNK_PAGE_SIZE_Z
            + MIN_CHUNK_PAGE_OFFSET_Z,
{
    lemma_page_offset_coord_in_range(c.x as int);
    lemma_page_offset_coord_in_range(c.z as int);
}

/// Bijection law, decode direction: decoding any flat index inside the page
/// volume gives a legal offset that re-encodes to the same index.
pub proof fn lemma_page_index_round_trip(i: int)
    requires
        0 <= i < NUM_CHUNKS_PER_PAGE,
    ensures
        spec_offset_from_index(i).wf(),
        spec_offset_from_index(i).spec_index() == i,
{
    lemma_page_index_decomposition(i);
}

/// Bijection law, injectivity: distinct flat indexes inside the page volume
/// decode to distinct offsets.
pub proof fn lemma_page_offsets_distinct(i: int, j: int)
    requires
        0 <= i < NUM_CHUNKS_PER_PAGE,
        0 <= j < NUM_CHUNKS_PER_PAGE,
        i != j,
    ensures
        spec_offset_from_index(i) != spec_offset_from_index(j),
{
    lemma_page_index_round_trip(i);
    lemma_page_index_round_trip(j);
}

/// Bijection law, encode direction: every legal offset is recovered exactly
/// from its own flat storage index.
pub proof fn lemma_page_offset_round_trip(o: PageChunkOffset)
    requires
        o.wf(),
    ensures
        0 <= o.spec_index() < NUM_CHUNKS_PER_PAGE,
        spec_offset_from_index(o.spec_index()) == o,
{
    let vx = o.x as int - MIN_CHUNK_PAGE_OFFSET_X as int;
    let vy = o.y as int - MIN_CHUNK_PAGE_OFFSET_Y as int;
    let vz = o.z as int - MIN_CHUNK_PAGE_OFFSET_Z as int;
    let i = o.spec_index();
    assert(CHUNK_PAGE_SIZE_X == 4 && CHUNK_PAGE_SIZE_Y == 20);
    assert(i == vx + vy * (CHUNK_PAGE_SIZE_X as int) + vz * (CHUNK_PAGE_SIZE_X as int * CHUNK_PAGE_SIZE_Y as int));
    assert(i == vx + 4 * (vy + 20 * vz));
    lemma_fundamental_div_mod_converse(i, 4, vy + 20 * vz, vx);
    lemma_fundamental_div_mod_converse(vy + 20 * vz, 20, vz, vy);
    assert((i / 4) / 20 == i / 80) by {
        vstd::arithmetic::div_mod::lemma_div_denominator(i, 4, 20);
    }
}

/// For any horizontal chunk coordinate, the page coordinate and page offset
/// split it exactly: `size * page + offset == c` with the offset inside the
/// legal half-open range. This is the round-trip law for the horizontal
/// axes; the Y axis is carried through conversions unchanged.
pub proof fn lemma_page_offset_coord_in_range(c: int)
    ensures
        MIN_CHUNK_PAGE_OFFSET_X <= spec_page_offset_coord(c) < CHUNK_PAGE_SIZE_X
            + MIN_CHUNK_PAGE_OFFSET_X,
        CHUNK_PAGE_SIZE_X as int * spec_page_coord(c) + spec_page_offset_coord(c) == c,
{
    lemma_fundamental_div_mod(c + 2, 4);
}

/// Page coordinates of range-limited chunk coordinates stay well within the
/// range where page arithmetic cannot overflow.
pub proof fn lemma_page_coord_in_range(c: int)
    requires
        in_xz_range(c),
    ensures
        in_page_range(spec_page_coord(c)),
        -0x1000_0000 <= spec_page_coord(c) <= 0x1000_0000,
{
    lemma_div_is_ordered(-0x4000_0000int + 2, c + 2, 4);
    lemma_div_is_ordered(c + 2, 0x4000_0000int + 2, 4);
    assert((-0x4000_0000int + 2) / 4 == -0x1000_0000);
    assert((0x4000_0000int + 2) / 4 == 0x1000_0000);
}

/// Decomposes a flat page index into its three digit positions, the inverse
/// direction of `PageChunkOffset::spec_index`.
proof fn lemma_page_index_decomposition(i: int)
    requires
        0 <= i < 320,
    ensures
        (i % 4) + ((i / 4) % 20) * 4 + (i / 80) * 80 == i,
        0 <= i % 4 < 4,
        0 <= (i / 4) % 20 < 20,
        0 <= i / 80 < 4,
{
    lemma_fundamental_div_mod(i, 4);
    lemma_fundamental_div_mod(i / 4, 20);
    assert((i / 4) / 20 == i / 80) by {
        vstd::arithmetic::div_mod::lemma_div_denominator(i, 4, 20);
    }
    lemma_div_is_ordered(0, i, 80);
    lemma_div_is_ordered(i, 319, 80);
    assert(319int / 80 == 3);
}

/// The square of a difference of two `i32` values fits comfortably in
/// `i128`.
proof fn lemma_square_bound(d: int)
    requires
        -0x1_0000_0000 <= d <= 0x1_0000_0000,
    ensures
        0 <= d * d <= 0x1_0000_0000_0000_0000,
{
    assert(0 <= d * d <= 0x1_0000_0000_0000_0000) by (nonlinear_arith)
        requires
            -0x1_0000_0000 <= d <= 0x1_0000_0000,
    ;
}

/// Proper floor division: the result is `n / f` rounded toward negative
/// infinity, stated as Euclidean division on `int`.
pub fn proper_rescale_i32(n: i32, f: i32) -> (r: i32)
    requires
        1 <= f,
    ensures
        r == n as int / f as int,
{
    if n < 0 {
        // For negative n, truncating division rounds the wrong way; the
        // identity floor(n / f) == -floor((-1 - n) / f) - 1 uses only a
        // division of a non-negative number, where truncation is exact.
        let m: i32 = -1 - n;
        let q: i32 = m / f;
        proof {
            lemma_fundamental_div_mod(n as int, f as int);
            let qq = n as int / f as int;
            let rr = n as int % f as int;
            assert(m as int == (-qq - 1) * f as int + (f as int - 1 - rr)) by (nonlinear_arith)
                requires
                    n as int == f as int * qq + rr,
                    m as int == -1 - n as int,
            ;
            lemma_fundamental_div_mod_converse(m as int, f as int, -qq - 1, f as int - 1 - rr);
        }
        -q - 1
    } else {
        n / f
    }
}

/// Proper modulo: the result is in `[0, f)` and differs from `n` by a
/// multiple of `f`, stated as the Euclidean remainder on `int`.
pub fn proper_modulo_i32(n: i32, f: i32) -> (r: i32)
    requires
        1 <= f,
    ensures
        r == n as int % f as int,
        0 <= r < f,
{
    let q: i32 = proper_rescale_i32(n, f);
    proof {
        lemma_fundamental_div_mod(n as int, f as int);
        assert(f as int * q as int == n as int - n as int % f as int);
    }
    let rem: i64 = (n as i64) - (f as i64) * (q as i64);
    rem as i32
}


} // verus!
