//! Chunks: fixed-size cubic grids of block-type values, the unit of world
//! generation.

use crate::position::{BLOCKS_PER_CHUNK, CHUNK_SIZE};
use crate::rng::rng_u8_range;
use vstd::arithmetic::div_mod::{lemma_fundamental_div_mod_converse};
use vstd::prelude::*;

verus! {

/// The material stored in one voxel.
#[derive(Clone, Copy, PartialEq, Eq, Structural, Debug, Hash)]
pub enum BlockType {
    Empty,
    Grass,
    Dirt,
    Stone,
    Sand,
    Lava,
    Diamond,
    Coal,
    Gold,
}

/// The block type encoded by a byte: codes 1 through 8 name the solid
/// materials in order; 0 and every out-of-range code give `Empty`.
pub open spec fn spec_block_type_from_u8(v: u8) -> BlockType {
    if v == 1 {
        BlockType::Grass
    } else if v == 2 {
        BlockType::Dirt
    } else if v == 3 {
        BlockType::Stone
    } else if v == 4 {
        BlockType::Sand
    } else if v == 5 {
        BlockType::Lava
    } else if v == 6 {
        BlockType::Diamond
    } else if v == 7 {
        BlockType::Coal
    } else if v == 8 {
        BlockType::Gold
    } else {
        BlockType::Empty
    }
}

/// Decodes a block type from its byte code.
pub fn block_type_from_u8(v: u8) -> (r: BlockType)
    ensures
        r == spec_block_type_from_u8(v),
{
    match v {
        1 => BlockType::Grass,
        2 => BlockType::Dirt,
        3 => BlockType::Stone,
        4 => BlockType::Sand,
        5 => BlockType::Lava,
        6 => BlockType::Diamond,
        7 => BlockType::Coal,
        8 => BlockType::Gold,
        _ => BlockType::Empty,
    }
}

/// The flat storage index of a block offset within its chunk: blocks are
/// laid out X-fastest, then Y, then Z.
pub open spec fn spec_chunk_index(x: int, y: int, z: int) -> int {
    x + y * CHUNK_SIZE + z * (CHUNK_SIZE * CHUNK_SIZE)
}

/// Computes the flat storage index of a block offset within its chunk.
pub fn chunk_index_from_offset(x: u16, y: u16, z: u16) -> (r: usize)
    requires
        x < CHUNK_SIZE,
        y < CHUNK_SIZE,
        z < CHUNK_SIZE,
    ensures
        r == spec_chunk_index(x as int, y as int, z as int),
        r < BLOCKS_PER_CHUNK,
{
    x as usize + y as usize * 16 + z as usize * 256
}

/// Distinct block offsets within a chunk use distinct storage slots.
pub proof fn lemma_chunk_index_injective(x1: int, y1: int, z1: int, x2: int, y2: int, z2: int)
    requires
        0 <= x1 < 16,
        0 <= y1 < 16,
        0 <= z1 < 16,
        0 <= x2 < 16,
        0 <= y2 < 16,
        0 <= z2 < 16,
        !(x1 == x2 && y1 == y2 && z1 == z2),
    ensures
        spec_chunk_index(x1, y1, z1) != spec_chunk_index(x2, y2, z2),
{
    let i1 = spec_chunk_index(x1, y1, z1);
    let i2 = spec_chunk_index(x2, y2, z2);
    lemma_fundamental_div_mod_converse(i1, 16, y1 + 16 * z1, x1);
    lemma_fundamental_div_mod_converse(i2, 16, y2 + 16 * z2, x2);
    lemma_fundamental_div_mod_converse(y1 + 16 * z1, 16, z1, y1);
    lemma_fundamental_div_mod_converse(y2 + 16 * z2, 16, z2, y2);
    if i1 == i2 {
        assert(x1 == i1 % 16 && x2 == i2 % 16);
        assert(y1 + 16 * z1 == i1 / 16 && y2 + 16 * z2 == i2 / 16);
        assert(y1 == (i1 / 16) % 16 && y2 == (i2 / 16) % 16);
        assert(z1 == (i1 / 16) / 16 && z2 == (i2 / 16) / 16);
    }
}

/// A dense fixed-size grid of block-type values, plus an emptiness flag set
/// at construction and used to decide whether the chunk contributes to a
/// page's content bounds.
#[derive(Debug)]
pub struct Chunk {
    pub blocks: Vec<BlockType>,
    pub empty: bool,
}

impl Chunk {
    /// A chunk is well formed when it stores exactly one block type per
    /// voxel of the chunk volume.
    pub open spec fn wf(self) -> bool {
        self.blocks@.len() == BLOCKS_PER_CHUNK
    }

    /// A chunk of all-empty blocks carrying the given emptiness flag.
    pub fn new(empty: bool) -> (r: Chunk)
        ensures
            r.wf(),
            r.empty == empty,
            forall|i: int| 0 <= i < BLOCKS_PER_CHUNK ==> r.blocks@[i] == BlockType::Empty,
    {
        let mut blocks: Vec<BlockType> = Vec::new();
        let mut i: usize = 0;
        while i < BLOCKS_PER_CHUNK
            invariant
                i <= BLOCKS_PER_CHUNK,
                blocks@.len() == i,
                forall|j: int| 0 <= j < i ==> blocks@[j] == BlockType::Empty,
            decreases BLOCKS_PER_CHUNK - i,
        {
            blocks.push(BlockType::Empty);
            i += 1;
        }
        Chunk { blocks, empty }
    }

    /// A chunk with no content: all blocks empty and the emptiness flag set.
    pub fn empty() -> (r: Chunk)
        ensures
            r.wf(),
            r.empty,
            forall|i: int| 0 <= i < BLOCKS_PER_CHUNK ==> r.blocks@[i] == BlockType::Empty,
    {
        Chunk::new(true)
    }

    /// Whether this chunk was constructed as having no content.
    pub fn is_empty(&self) -> (r: bool)
        ensures
            r == self.empty,
    {
        self.empty
    }

    /// A chunk filled with a single block type; its emptiness flag is set
    /// exactly when that type is `Empty`.
    pub fn plain(block: BlockType) -> (r: Chunk)
        ensures
            r.wf(),
            r.empty == (block == BlockType::Empty),
            forall|i: int| 0 <= i < BLOCKS_PER_CHUNK ==> r.blocks@[i] == block,
    {
        let empty = match block {
            BlockType::Empty => true,
            _ => false,
        };
        let mut blocks: Vec<BlockType> = Vec::new();
        let mut i: usize = 0;
        while i < BLOCKS_PER_CHUNK
            invariant
                i <= BLOCKS_PER_CHUNK,
                blocks@.len() == i,
                forall|j: int| 0 <= j < i ==> blocks@[j] == block,
            decreases BLOCKS_PER_CHUNK - i,
        {
            blocks.push(block);
            i += 1;
        }
        Chunk { blocks, empty }
    }

    /// A chunk of uniformly random solid-or-empty blocks, marked non-empty.
    pub fn random(rng: &mut fastrand::Rng) -> (r: Chunk)
        ensures
            r.wf(),
            !r.empty,
    {
        let mut blocks: Vec<BlockType> = Vec::new();
        let mut i: usize = 0;
        while i < BLOCKS_PER_CHUNK
            invariant
                i <= BLOCKS_PER_CHUNK,
                blocks@.len() == i,
            decreases BLOCKS_PER_CHUNK - i,
        {
            let code = rng_u8_range(rng, 0, 9);
            blocks.push(block_type_from_u8(code));
            i += 1;
        }
        Chunk { blocks, empty: false }
    }

    /// Overwrites the block at the given offset; the emptiness flag is a
    /// construction-time property and is deliberately left unchanged.
    pub fn set(&mut self, x: u16, y: u16, z: u16, block: BlockType)
        requires
            old(self).wf(),
            x < CHUNK_SIZE,
            y < CHUNK_SIZE,
            z < CHUNK_SIZE,
        ensures
            final(self).wf(),
            final(self).empty == old(self).empty,
            final(self).blocks@ == old(self).blocks@.update(
                spec_chunk_index(x as int, y as int, z as int),
                block,
            ),
    {
        let index = chunk_index_from_offset(x, y, z);
        let slot = &mut self.blocks[index];
        *slot = block;
    }

    /// Reads the block at the given offset.
    pub fn get_block(&self, x: u16, y: u16, z: u16) -> (r: BlockType)
        requires
            self.wf(),
            x < CHUNK_SIZE,
            y < CHUNK_SIZE,
            z < CHUNK_SIZE,
        ensures
            r == self.blocks@[spec_chunk_index(x as int, y as int, z as int)],
    {
        let index = chunk_index_from_offset(x, y, z);
        self.blocks[index]
    }
}

/// The six faces of a block, in the order used by the vertex data packing.
#[derive(Clone, Copy, PartialEq, Eq, Structural, Debug)]
pub enum Side {
    Top,
    Bottom,
    Front,
    Back,
    Right,
    Left,
}

/// The normal code packed into vertex data for each side.
pub open spec fn spec_side_code(s: Side) -> int {
    match s {
        Side::Top => 0,
        Side::Bottom => 1,
        Side::Front => 2,
        Side::Back => 3,
        Side::Right => 4,
        Side::Left => 5,
    }
}

/// The texture atlas tiles a block face can show.
#[derive(Clone, Copy, PartialEq, Eq, Structural, Debug)]
pub enum BlockSideTexture {
    Unknown,
    GrassSide,
    Cobblestone,
    RedStone,
    TreeBark,
    Sand,
    Dirt,
    Pickaxe,
    TreeCenter,
    GrassTop,
    Coal,
    Lava,
    Diamond,
    Iron,
    Gold,
    Dirt2,
}

/// The atlas index packed into vertex data for each texture tile.
pub open spec fn spec_texture_code(t: BlockSideTexture) -> int {
    match t {
        BlockSideTexture::Unknown => 0,
        BlockSideTexture::GrassSide => 1,
        BlockSideTexture::Cobblestone => 2,
        BlockSideTexture::RedStone => 3,
        BlockSideTexture::TreeBark => 4,
        BlockSideTexture::Sand => 5,
        BlockSideTexture::Dirt => 6,
        BlockSideTexture::Pickaxe => 7,
        BlockSideTexture::TreeCenter => 8,
        BlockSideTexture::GrassTop => 9,
        BlockSideTexture::Coal => 10,
        BlockSideTexture::Lava => 11,
        BlockSideTexture::Diamond => 12,
        BlockSideTexture::Iron => 13,
        BlockSideTexture::Gold => 14,
        BlockSideTexture::Dirt2 => 15,
    }
}

/// The same texture tile for the top, the sides, and the bottom of a block.
pub fn three_of(t: BlockSideTexture) -> (r: (BlockSideTexture, BlockSideTexture, BlockSideTexture))
    ensures
        r == ((t, t, t)),
{
    (t, t, t)
}

/// The texture tiles shown on a block's top, sides, and bottom.
pub open spec fn spec_block_side_textures(b: BlockType) -> (
    BlockSideTexture,
    BlockSideTexture,
    BlockSideTexture,
) {
    match b {
        BlockType::Grass => (
            BlockSideTexture::GrassTop,
            BlockSideTexture::GrassSide,
            BlockSideTexture::Dirt,
        ),
        BlockType::Dirt => (BlockSideTexture::Dirt, BlockSideTexture::Dirt, BlockSideTexture::Dirt),
        BlockType::Stone => (
            BlockSideTexture::Cobblestone,
            BlockSideTexture::Cobblestone,
            BlockSideTexture::Cobblestone,
        ),
        BlockType::Sand => (BlockSideTexture::Sand, BlockSideTexture::Sand, BlockSideTexture::Sand),
        BlockType::Lava => (BlockSideTexture::Lava, BlockSideTexture::Lava, BlockSideTexture::Lava),
        BlockType::Diamond => (
            BlockSideTexture::Diamond,
            BlockSideTexture::Diamond,
            BlockSideTexture::Diamond,
        ),
        BlockType::Coal => (BlockSideTexture::Coal, BlockSideTexture::Coal, BlockSideTexture::Coal),
        BlockType::Gold => (BlockSideTexture::Gold, BlockSideTexture::Gold, BlockSideTexture::Gold),
        BlockType::Empty => (
            BlockSideTexture::Unknown,
            BlockSideTexture::Unknown,
            BlockSideTexture::Unknown,
        ),
    }
}

/// The texture tiles shown on a block's top, sides, and bottom.
pub fn block_side_textures(b: BlockType) -> (r: (
    BlockSideTexture,
    BlockSideTexture,
    BlockSideTexture,
))
    ensures
        r == spec_block_side_textures(b),
{
    match b {
        BlockType::Grass => (
            BlockSideTexture::GrassTop,
            BlockSideTexture::GrassSide,
            BlockSideTexture::Dirt,
        ),
        BlockType::Dirt => three_of(BlockSideTexture::Dirt),
        BlockType::Stone => three_of(BlockSideTexture::Cobblestone),
        BlockType::Sand => three_of(BlockSideTexture::Sand),
        BlockType::Lava => three_of(BlockSideTexture::Lava),
        BlockType::Diamond => three_of(BlockSideTexture::Diamond),
        BlockType::Coal => three_of(BlockSideTexture::Coal),
        BlockType::Gold => three_of(BlockSideTexture::Gold),
        BlockType::Empty => three_of(BlockSideTexture::Unknown),
    }
}

/// The packed vertex word for one visible block face: six bits each for the
/// X, Y and Z offsets, three bits for the face normal, and six bits for
/// the texture tile.
pub open spec fn spec_side_quad_data(side: Side, texture: BlockSideTexture, x: int, y: int, z: int) -> int {
    x + y * 64 + z * 4096 + spec_side_code(side) * 262144 + spec_texture_code(texture) * 2097152
}

/// The exec code for a side's normal.
fn side_code(s: Side) -> (r: u32)
    ensures
        r == spec_side_code(s),
{
    match s {
        Side::Top => 0,
        Side::Bottom => 1,
        Side::Front => 2,
        Side::Back => 3,
        Side::Right => 4,
        Side::Left => 5,
    }
}

/// The exec code for a texture tile.
fn texture_code(t: BlockSideTexture) -> (r: u32)
    ensures
        r == spec_texture_code(t),
{
    match t {
        BlockSideTexture::Unknown => 0,
        BlockSideTexture::GrassSide => 1,
        BlockSideTexture::Cobblestone => 2,
        BlockSideTexture::RedStone => 3,
        BlockSideTexture::TreeBark => 4,
        BlockSideTexture::Sand => 5,
        BlockSideTexture::Dirt => 6,
        BlockSideTexture::Pickaxe => 7,
        BlockSideTexture::TreeCenter => 8,
        BlockSideTexture::GrassTop => 9,
        BlockSideTexture::Coal => 10,
        BlockSideTexture::Lava => 11,
        BlockSideTexture::Diamond => 12,
        BlockSideTexture::Iron => 13,
        BlockSideTexture::Gold => 14,
        BlockSideTexture::Dirt2 => 15,
    }
}

/// Packs one visible block face into a single vertex word. The bit layout,
/// from the least significant end, is: 6 bits X, 6 bits Y, 6 bits Z,
/// 3 bits normal, 6 bits texture.
pub fn make_side_quad_data(side: Side, texture: BlockSideTexture, x: u16, y: u16, z: u16) -> (r:
    i32)
    requires
        x < 64,
        y < 64,
        z < 64,
    ensures
        r == spec_side_quad_data(side, texture, x as int, y as int, z as int),
{
    let norm: u32 = side_code(side);
    let tex: u32 = texture_code(texture);
    let xv: u32 = x as u32;
    let yv: u32 = y as u32;
    let zv: u32 = z as u32;
    // For in-range fields, placing each one at its bit position is plain
    // positional arithmetic: the fields cannot overlap.
    let result: u32 = xv + yv * 64 + zv * 4096 + norm * 262144 + tex * 2097152;
    result as i32
}

/// The packed vertex word for one face, as the stored 32-bit value.
pub open spec fn spec_quad_word(side: Side, texture: BlockSideTexture, x: int, y: int, z: int) -> i32 {
    spec_side_quad_data(side, texture, x, y, z) as i32
}

/// One face's contribution to the vertex data: a single word when the
/// face is exposed, nothing otherwise.
pub open spec fn spec_face_seq(exposed: bool, word: i32) -> Seq<i32> {
    if exposed {
        seq![word]
    } else {
        Seq::empty()
    }
}

/// The vertex words contributed by the block in cell `(x, y, z)` of a
/// chunk: nothing for an empty block, otherwise one word per exposed face
/// in the fixed order top, bottom, right, left, front, back. A face is
/// exposed at the chunk boundary or where the neighboring block is empty.
pub open spec fn spec_cell_faces(c: Chunk, x: int, y: int, z: int) -> Seq<i32> {
    let b = c.blocks@[spec_chunk_index(x, y, z)];
    if b == BlockType::Empty {
        Seq::empty()
    } else {
        let t = spec_block_side_textures(b);
        spec_face_seq(
            y == 15 || c.blocks@[spec_chunk_index(x, y + 1, z)] == BlockType::Empty,
            spec_quad_word(Side::Top, t.0, x, y, z),
        ) + spec_face_seq(
            y == 0 || c.blocks@[spec_chunk_index(x, y - 1, z)] == BlockType::Empty,
            spec_quad_word(Side::Bottom, t.2, x, y, z),
        ) + spec_face_seq(
            x == 15 || c.blocks@[spec_chunk_index(x + 1, y, z)] == BlockType::Empty,
            spec_quad_word(Side::Right, t.1, x, y, z),
        ) + spec_face_seq(
            x == 0 || c.blocks@[spec_chunk_index(x - 1, y, z)] == BlockType::Empty,
            spec_quad_word(Side::Left, t.1, x, y, z),
        ) + spec_face_seq(
            z == 15 || c.blocks@[spec_chunk_index(x, y, z + 1)] == BlockType::Empty,
            spec_quad_word(Side::Front, t.1, x, y, z),
        ) + spec_face_seq(
            z == 0 || c.blocks@[spec_chunk_index(x, y, z - 1)] == BlockType::Empty,
            spec_quad_word(Side::Back, t.1, x, y, z),
        )
    }
}

/// The vertex words of the first `n` cells of a chunk, walking cells with
/// X slowest, then Y, then Z fastest.
pub open spec fn spec_vertex_data_upto(c: Chunk, n: int) -> Seq<i32>
    decreases n,
{
    if n <= 0 {
        Seq::empty()
    } else {
        spec_vertex_data_upto(c, n - 1) + spec_cell_faces(
            c,
            (n - 1) / 256,
            ((n - 1) / 16) % 16,
            (n - 1) % 16,
        )
    }
}

/// The full vertex data of a chunk: empty for a chunk flagged empty, else
/// the concatenated face words of all cells.
pub open spec fn spec_chunk_vertex_data(c: Chunk) -> Seq<i32> {
    if c.empty {
        Seq::empty()
    } else {
        spec_vertex_data_upto(c, BLOCKS_PER_CHUNK as int)
    }
}

/// Walking cells X-slowest, the counter `x * 256 + y * 16 + z` decodes
/// back into its three coordinates.
proof fn lemma_cell_decode(x: int, y: int, z: int)
    requires
        0 <= x < 16,
        0 <= y < 16,
        0 <= z < 16,
    ensures
        (x * 256 + y * 16 + z) / 256 == x,
        ((x * 256 + y * 16 + z) / 16) % 16 == y,
        (x * 256 + y * 16 + z) % 16 == z,
{
    let n = x * 256 + y * 16 + z;
    lemma_fundamental_div_mod_converse(n, 256, x, y * 16 + z);
    lemma_fundamental_div_mod_converse(n, 16, x * 16 + y, z);
    lemma_fundamental_div_mod_converse(x * 16 + y, 16, x, y);
}

/// Every texture atlas code fits in six bits.
proof fn lemma_texture_code_bounds(t: BlockSideTexture)
    ensures
        0 <= spec_texture_code(t) < 16,
{
}

impl Chunk {
    /// Appends the vertex words of one cell to the data being built: one
    /// word per exposed face of a non-empty block, in the fixed face order.
    fn push_face_if(data: &mut Vec<i32>, exposed: bool, word: i32)
        ensures
            final(data)@ == old(data)@ + spec_face_seq(exposed, word),
    {
        if exposed {
            data.push(word);
        }
        proof {
            assert(final(data)@ =~= old(data)@ + spec_face_seq(exposed, word));
        }
    }

    /// Appends the vertex words of one cell to the data being built: one
    /// word per exposed face of a non-empty block, in the fixed face order.
    #[verifier::rlimit(100)]
    fn push_cell_faces(&self, data: &mut Vec<i32>, x: u16, y: u16, z: u16)
        requires
            self.wf(),
            x < 16,
            y < 16,
            z < 16,
        ensures
            final(data)@ == old(data)@ + spec_cell_faces(*self, x as int, y as int, z as int),
    {
        let ghost base = data@;
        let ghost xi = x as int;
        let ghost yi = y as int;
        let ghost zi = z as int;
        let b = self.get_block(x, y, z);
        let is_solid = match b {
            BlockType::Empty => false,
            _ => true,
        };
        if !is_solid {
            proof {
                assert(data@ =~= base + spec_cell_faces(*self, xi, yi, zi));
            }
            return ;
        }
        let (top, side, bottom) = block_side_textures(b);
        proof {
            lemma_texture_code_bounds(top);
            lemma_texture_code_bounds(side);
            lemma_texture_code_bounds(bottom);
        }
        let c1 = y == 15 || self.get_block(x, y + 1, z) == BlockType::Empty;
        let w1 = make_side_quad_data(Side::Top, top, x, y, z);
        Chunk::push_face_if(data, c1, w1);
        let c2 = y == 0 || self.get_block(x, y - 1, z) == BlockType::Empty;
        let w2 = make_side_quad_data(Side::Bottom, bottom, x, y, z);
        Chunk::push_face_if(data, c2, w2);
        let c3 = x == 15 || self.get_block(x + 1, y, z) == BlockType::Empty;
        let w3 = make_side_quad_data(Side::Right, side, x, y, z);
        Chunk::push_face_if(data, c3, w3);
        let c4 = x == 0 || self.get_block(x - 1, y, z) == BlockType::Empty;
        let w4 = make_side_quad_data(Side::Left, side, x, y, z);
        Chunk::push_face_if(data, c4, w4);
        let c5 = z == 15 || self.get_block(x, y, z + 1) == BlockType::Empty;
        let w5 = make_side_quad_data(Side::Front, side, x, y, z);
        Chunk::push_face_if(data, c5, w5);
        let c6 = z == 0 || self.get_block(x, y, z - 1) == BlockType::Empty;
        let w6 = make_side_quad_data(Side::Back, side, x, y, z);
        Chunk::push_face_if(data, c6, w6);
        proof {
            assert(w1 == spec_quad_word(Side::Top, top, xi, yi, zi)) by {
                lemma_texture_code_bounds(top);
            }
            assert(w2 == spec_quad_word(Side::Bottom, bottom, xi, yi, zi)) by {
                lemma_texture_code_bounds(bottom);
            }
            assert(w3 == spec_quad_word(Side::Right, side, xi, yi, zi)) by {
                lemma_texture_code_bounds(side);
            }
            assert(w4 == spec_quad_word(Side::Left, side, xi, yi, zi)) by {
                lemma_texture_code_bounds(side);
            }
            assert(w5 == spec_quad_word(Side::Front, side, xi, yi, zi)) by {
                lemma_texture_code_bounds(side);
            }
            assert(w6 == spec_quad_word(Side::Back, side, xi, yi, zi)) by {
                lemma_texture_code_bounds(side);
            }
            let f1 = spec_face_seq(c1, w1);
            let f2 = spec_face_seq(c2, w2);
            let f3 = spec_face_seq(c3, w3);
            let f4 = spec_face_seq(c4, w4);
            let f5 = spec_face_seq(c5, w5);
            let f6 = spec_face_seq(c6, w6);
            vstd::seq_lib::lemma_concat_associative(base, f1, f2);
            vstd::seq_lib::lemma_concat_associative(base, f1 + f2, f3);
            vstd::seq_lib::lemma_concat_associative(base, f1 + f2 + f3, f4);
            vstd::seq_lib::lemma_concat_associative(base, f1 + f2 + f3 + f4, f5);
            vstd::seq_lib::lemma_concat_associative(base, f1 + f2 + f3 + f4 + f5, f6);
            assert(data@ == base + (f1 + f2 + f3 + f4 + f5 + f6));
            assert(spec_cell_faces(*self, xi, yi, zi) == f1 + f2 + f3 + f4 + f5 + f6);
        }
    }

    /// Builds the packed vertex words for every exposed face of every
    /// non-empty block of this chunk, walking cells X-slowest and
    /// Z-fastest; a chunk flagged empty yields no data at all.
    pub fn to_vertex_data(&self) -> (r: Vec<i32>)
        requires
            self.wf(),
        ensures
            r@ == spec_chunk_vertex_data(*self),
    {
        let mut data: Vec<i32> = Vec::new();
        if self.is_empty() {
            return data;
        }
        let mut x: u16 = 0;
        while x < 16
            invariant
                self.wf(),
                x <= 16,
                data@ == spec_vertex_data_upto(*self, x as int * 256),
            decreases 16 - x,
        {
            let mut y: u16 = 0;
            while y < 16
                invariant
                    self.wf(),
                    x < 16,
                    y <= 16,
                    data@ == spec_vertex_data_upto(*self, x as int * 256 + y as int * 16),
                decreases 16 - y,
            {
                let mut z: u16 = 0;
                while z < 16
                    invariant
                        self.wf(),
                        x < 16,
                        y < 16,
                        z <= 16,
                        data@ == spec_vertex_data_upto(
                            *self,
                            x as int * 256 + y as int * 16 + z as int,
                        ),
                    decreases 16 - z,
                {
                    let ghost n = x as int * 256 + y as int * 16 + z as int;
                    self.push_cell_faces(&mut data, x, y, z);
                    proof {
                        lemma_cell_decode(x as int, y as int, z as int);
                        assert(data@ =~= spec_vertex_data_upto(*self, n + 1));
                    }
                    z += 1;
                }
                y += 1;
            }
            x += 1;
        }
        data
    }
}

} // verus!
