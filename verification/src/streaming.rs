//! Page buffers and the chunk streamer: a fixed-capacity pool of reusable
//! pages, filled from a generator and recycled as the viewer moves, under a
//! fixed per-tick load budget.

use crate::aabb::{lemma_add_grows, AABB};
use crate::chunk::Chunk;
use crate::generator::WorldGenerator;
use crate::position::{
    spec_dist_sq, spec_page_coord, spec_page_offset_coord, spec_offset_from_index, ChunkPos,
    PageChunkOffset, PageIndex, PagePos, Vec3i, CHUNK_PAGE_SIZE_X, CHUNK_PAGE_SIZE_Z,
    NUM_CHUNKS_PER_PAGE,
};
use vstd::prelude::*;
use vstd::string::StringExecFns;

verus! {

broadcast use vstd::seq_lib::group_to_multiset_ensures, vstd::multiset::group_multiset_axioms;

/// The smaller of two integers.
pub open spec fn spec_min(a: int, b: int) -> int {
    if a < b {
        a
    } else {
        b
    }
}

/// The page-relative offset of a chunk position, as page math computes it.
pub open spec fn spec_offset_of_chunk(c: ChunkPos) -> PageChunkOffset {
    PageChunkOffset {
        x: spec_page_offset_coord(c.x as int) as i32,
        y: c.y,
        z: spec_page_offset_coord(c.z as int) as i32,
    }
}

/// The world chunk position of the chunk stored at flat index `i` of a
/// page at `page`.
pub open spec fn spec_chunk_pos_at(page: PagePos, i: int) -> ChunkPos {
    ChunkPos {
        x: (CHUNK_PAGE_SIZE_X as int * page.x as int + spec_offset_from_index(i).x as int) as i32,
        y: spec_offset_from_index(i).y,
        z: (CHUNK_PAGE_SIZE_Z as int * page.z as int + spec_offset_from_index(i).z as int) as i32,
    }
}

/// The world position, as a raw vector, of the chunk stored at flat index
/// `i` of a page at `page`.
pub open spec fn spec_chunk_vec_at(page: PagePos, i: int) -> Vec3i {
    Vec3i {
        x: spec_chunk_pos_at(page, i).x,
        y: spec_chunk_pos_at(page, i).y,
        z: spec_chunk_pos_at(page, i).z,
    }
}

/// A fixed-capacity buffer holding every chunk of one page, together with
/// the page's position and the bounding box of its non-empty content.
#[derive(Debug)]
pub struct ChunkPage {
    pub chunks: Vec<Chunk>,
    pub position: PagePos,
    pub content_bounds: AABB,
}

impl ChunkPage {
    /// A page buffer is well formed when it stores exactly one well-formed
    /// chunk per slot of the page volume and sits at a representable
    /// position.
    pub open spec fn wf(self) -> bool {
        &&& self.chunks@.len() == NUM_CHUNKS_PER_PAGE
        &&& (forall|i: int| 0 <= i < NUM_CHUNKS_PER_PAGE ==> self.chunks@[i].wf())
        &&& self.position.wf()
    }

    /// Fills every slot of this page from the generator, records the page
    /// position, and recomputes the bounding box of non-empty content from
    /// scratch. Prior contents are fully overwritten.
    pub fn fill_from<G: WorldGenerator>(&mut self, generator: &mut G, page_pos: PagePos)
        requires
            old(self).wf(),
            page_pos.wf(),
        ensures
            final(self).wf(),
            final(self).position == page_pos,
            forall|i: int|
                0 <= i < NUM_CHUNKS_PER_PAGE ==> G::spec_generates(
                    spec_chunk_pos_at(page_pos, i),
                    final(self).chunks@[i],
                ),
            forall|i: int|
                0 <= i < NUM_CHUNKS_PER_PAGE && !final(self).chunks@[i].empty
                    ==> final(self).content_bounds.spec_contains(spec_chunk_vec_at(page_pos, i)),
    {
        self.position = page_pos;
        self.content_bounds = AABB::default();
        let mut i: usize = 0;
        while i < NUM_CHUNKS_PER_PAGE
            invariant
                i <= NUM_CHUNKS_PER_PAGE,
                self.chunks@.len() == NUM_CHUNKS_PER_PAGE,
                forall|j: int| 0 <= j < NUM_CHUNKS_PER_PAGE ==> self.chunks@[j].wf(),
                self.position == page_pos,
                page_pos.wf(),
                forall|j: int|
                    0 <= j < i ==> G::spec_generates(
                        spec_chunk_pos_at(page_pos, j),
                        self.chunks@[j],
                    ),
                forall|j: int|
                    0 <= j < i && !self.chunks@[j].empty ==> self.content_bounds.spec_contains(
                        spec_chunk_vec_at(page_pos, j),
                    ),
            decreases NUM_CHUNKS_PER_PAGE - i,
        {
            proof {
                crate::position::lemma_page_index_round_trip(i as int);
            }
            let offset = PageChunkOffset::from_page_index(PageIndex(i));
            let chunk_world_pos = page_pos.get_chunk_pos_at(offset);
            proof {
                assert(chunk_world_pos == spec_chunk_pos_at(page_pos, i as int));
            }
            let chunk = generator.generate(chunk_world_pos);
            if !chunk.is_empty() {
                let ghost before = self.content_bounds;
                self.content_bounds.add(chunk_world_pos.as_vec());
                proof {
                    assert forall|j: int|
                        0 <= j < i && !self.chunks@[j].empty implies self
                        .content_bounds
                        .spec_contains(spec_chunk_vec_at(page_pos, j)) by {
                        lemma_add_grows(
                            before,
                            (Vec3i {
                                x: chunk_world_pos.x,
                                y: chunk_world_pos.y,
                                z: chunk_world_pos.z,
                            }),
                            spec_chunk_vec_at(page_pos, j),
                        );
                    }
                }
            }
            let slot = &mut self.chunks[i];
            *slot = chunk;
            i += 1;
        }
    }

    /// Looks up the chunk at the given world position, which must belong to
    /// this page; the caller is responsible for routing the query to the
    /// right page.
    pub fn get_chunk(&self, chunk_pos: ChunkPos) -> (r: Option<&Chunk>)
        requires
            self.wf(),
            chunk_pos.wf(),
            chunk_pos.xz_in_range(),
            self.position.x == spec_page_coord(chunk_pos.x as int),
            self.position.z == spec_page_coord(chunk_pos.z as int),
        ensures
            r matches Some(c) && *c == self.chunks@[spec_offset_of_chunk(chunk_pos).spec_index()],
            0 <= spec_offset_of_chunk(chunk_pos).spec_index() < NUM_CHUNKS_PER_PAGE,
    {
        let (page_pos, offset) = chunk_pos.get_page_pos();
        let index = offset.as_page_index();
        Some(&self.chunks[index.0])
    }
}

/// Pages loaded from the queue per tick: the per-tick work budget.
pub const PAGE_LOAD_PER_FRAME: usize = 2;

/// Total number of page buffers owned by the streamer: resident pages and
/// pooled spares always add up to this capacity.
pub const MAX_NUM_PAGES: usize = 16;

/// The page owning a chunk position.
pub open spec fn spec_page_of_chunk(c: ChunkPos) -> PagePos {
    PagePos { x: spec_page_coord(c.x as int) as i32, z: spec_page_coord(c.z as int) as i32 }
}

/// Squared chunk-space distance from a viewer chunk position to the center
/// chunk of a page; the priority measure for loading and eviction.
pub open spec fn spec_page_viewer_dist(page: PagePos, viewer: ChunkPos) -> int {
    spec_dist_sq(
        CHUNK_PAGE_SIZE_X as int * page.x as int,
        0,
        CHUNK_PAGE_SIZE_Z as int * page.z as int,
        viewer.x as int,
        viewer.y as int,
        viewer.z as int,
    )
}

/// The aggregate bounding box of a sequence of pages: the zero box extended
/// by both corners of every page's content bounds, in order.
pub open spec fn spec_pages_bounds(pages: Seq<ChunkPage>) -> AABB
    decreases pages.len(),
{
    if pages.len() == 0 {
        AABB::spec_zero()
    } else {
        spec_pages_bounds(pages.drop_last()).spec_add(pages.last().content_bounds.min).spec_add(
            pages.last().content_bounds.max,
        )
    }
}

impl Default for ChunkPage {
    /// A pristine page buffer: all-empty chunks at page position (0, 0).
    fn default() -> (r: ChunkPage)
        ensures
            r.wf(),
    {
        let mut chunks: Vec<Chunk> = Vec::new();
        let mut i: usize = 0;
        while i < NUM_CHUNKS_PER_PAGE
            invariant
                i <= NUM_CHUNKS_PER_PAGE,
                chunks@.len() == i,
                forall|j: int| 0 <= j < i ==> chunks@[j].wf(),
            decreases NUM_CHUNKS_PER_PAGE - i,
        {
            chunks.push(Chunk::empty());
            i += 1;
        }
        ChunkPage { chunks, position: PagePos { x: 0, z: 0 }, content_bounds: AABB::default() }
    }
}

/// Streams pages of chunks in and out of a bounded buffer pool as the
/// viewer moves, loading the nearest wanted pages first and evicting the
/// farthest resident pages when capacity runs out.
#[derive(Debug)]
pub struct ChunkStreamer<G: WorldGenerator> {
    pub loaded_chunk_pages: Vec<ChunkPage>,
    pub chunk_page_pool: Vec<ChunkPage>,
    pub generator: G,
    pub content_bounds: AABB,
    pub last_computed_page_pos: Option<PagePos>,
    pub pages_to_load: Vec<PagePos>,
}

impl<G: WorldGenerator> ChunkStreamer<G> {
    /// Whether a page is resident, addressed by its page position.
    pub open spec fn is_resident(self, page: PagePos) -> bool {
        exists|i: int|
            0 <= i < self.loaded_chunk_pages@.len() && self.loaded_chunk_pages@[i].position == page
    }

    /// Whether a tick at this viewer position recomputes the wanted set:
    /// true on the first tick and whenever the viewer's page differs from
    /// the one last computed for.
    pub open spec fn spec_page_changed(self, viewer: ChunkPos) -> bool {
        self.last_computed_page_pos != Some(spec_page_of_chunk(viewer))
    }

    /// How many pages a queue recompute at viewer page `vp` appends: the
    /// pages among the first `i` wanted neighbors that are neither
    /// resident nor already queued.
    pub open spec fn spec_recompute_added(self, vp: PagePos, i: int) -> int
        decreases i,
    {
        if i <= 0 {
            0
        } else {
            self.spec_recompute_added(vp, i - 1) + if !self.is_resident(
                spec_wanted_page(vp, i - 1),
            ) && !self.pages_to_load@.contains(spec_wanted_page(vp, i - 1)) {
                1int
            } else {
                0int
            }
        }
    }

    /// A recompute appends at least nothing and at most one page per
    /// wanted neighbor.
    proof fn lemma_recompute_added_bounds(self, vp: PagePos, i: int)
        requires
            i >= 0,
        ensures
            0 <= self.spec_recompute_added(vp, i) <= i,
        decreases i,
    {
        if i > 0 {
            self.lemma_recompute_added_bounds(vp, i - 1);
        }
    }

    /// The length of the pending load queue right after a tick's recompute
    /// step, before any pages are popped and loaded.
    pub open spec fn spec_pending_after(self, viewer: ChunkPos) -> int {
        if self.spec_page_changed(viewer) {
            self.pages_to_load@.len() + self.spec_recompute_added(
                spec_page_of_chunk(viewer),
                9,
            )
        } else {
            self.pages_to_load@.len() as int
        }
    }

    /// How many resident pages a tick at this viewer position evicts: the
    /// per-tick eviction budget, capped by the resident count, exactly
    /// when pages are owed a load and the free pool cannot cover them all.
    pub open spec fn spec_evicted_count(self, viewer: ChunkPos) -> int {
        if self.spec_pending_after(viewer) > 0 && self.chunk_page_pool@.len()
            < self.spec_pending_after(viewer) {
            spec_min(PAGE_LOAD_PER_FRAME as int, self.loaded_chunk_pages@.len() as int)
        } else {
            0
        }
    }

    /// The streamer invariant. No buffer is ever lost or duplicated:
    /// resident pages and pooled spares always add up to the pool capacity.
    /// Resident pages are well formed with pairwise distinct positions and
    /// hold, in every slot, content the generator produces for exactly
    /// that slot's world position — never stale or default data. The
    /// pending load queue holds distinct, not-yet-resident pages.
    pub open spec fn wf(self) -> bool {
        &&& self.loaded_chunk_pages@.len() + self.chunk_page_pool@.len() == MAX_NUM_PAGES
        &&& (forall|i: int|
            0 <= i < self.loaded_chunk_pages@.len() ==> self.loaded_chunk_pages@[i].wf())
        &&& (forall|i: int| 0 <= i < self.chunk_page_pool@.len() ==> self.chunk_page_pool@[i].wf())
        &&& (forall|i: int, j: int|
            0 <= i < j < self.loaded_chunk_pages@.len() ==> self.loaded_chunk_pages@[i].position
                != self.loaded_chunk_pages@[j].position)
        &&& (forall|k: int, i: int|
            0 <= k < self.loaded_chunk_pages@.len() && 0 <= i < NUM_CHUNKS_PER_PAGE
                ==> G::spec_generates(
                spec_chunk_pos_at(self.loaded_chunk_pages@[k].position, i),
                self.loaded_chunk_pages@[k].chunks@[i],
            ))
        &&& (forall|i: int|
            0 <= i < self.pages_to_load@.len() ==> self.pages_to_load@[i].wf() && !self.is_resident(
                self.pages_to_load@[i],
            ))
        &&& self.pages_to_load@.no_duplicates()
    }

    /// A fresh streamer: nothing resident, nothing queued, and a full pool
    /// of pristine page buffers.
    pub fn new(generator: G) -> (r: ChunkStreamer<G>)
        ensures
            r.wf(),
            r.loaded_chunk_pages@.len() == 0,
            r.chunk_page_pool@.len() == MAX_NUM_PAGES,
            r.pages_to_load@.len() == 0,
            r.last_computed_page_pos is None,
            r.content_bounds == AABB::spec_zero(),
    {
        let mut pool: Vec<ChunkPage> = Vec::new();
        let mut i: usize = 0;
        while i < MAX_NUM_PAGES
            invariant
                i <= MAX_NUM_PAGES,
                pool@.len() == i,
                forall|j: int| 0 <= j < i ==> pool@[j].wf(),
            decreases MAX_NUM_PAGES - i,
        {
            pool.push(ChunkPage::default());
            i += 1;
        }
        ChunkStreamer {
            loaded_chunk_pages: Vec::new(),
            chunk_page_pool: pool,
            generator,
            content_bounds: AABB::default(),
            last_computed_page_pos: None,
            pages_to_load: Vec::new(),
        }
    }

    /// Looks up the resident page at the given page position, if any.
    pub fn get_page_ref(&self, page_index: PagePos) -> (r: Option<&ChunkPage>)
        requires
            self.wf(),
        ensures
            r.is_some() == self.is_resident(page_index),
            r matches Some(p) ==> p.wf() && p.position == page_index && (exists|i: int|
                0 <= i < self.loaded_chunk_pages@.len() && self.loaded_chunk_pages@[i] == *p),
    {
        let mut i: usize = 0;
        while i < self.loaded_chunk_pages.len()
            invariant
                self.wf(),
                i <= self.loaded_chunk_pages@.len(),
                forall|j: int|
                    0 <= j < i ==> self.loaded_chunk_pages@[j].position != page_index,
            decreases self.loaded_chunk_pages@.len() - i,
        {
            if self.loaded_chunk_pages[i].position == page_index {
                return Some(&self.loaded_chunk_pages[i]);
            }
            i += 1;
        }
        None
    }

    /// The resident page owning the given chunk position, if any.
    fn get_page_for_chunk(&self, chunk_pos: ChunkPos) -> (r: Option<&ChunkPage>)
        requires
            self.wf(),
            chunk_pos.wf(),
            chunk_pos.xz_in_range(),
        ensures
            r.is_some() == self.is_resident(spec_page_of_chunk(chunk_pos)),
            r matches Some(p) ==> p.wf() && p.position == spec_page_of_chunk(chunk_pos) && (
            exists|i: int|
                0 <= i < self.loaded_chunk_pages@.len() && self.loaded_chunk_pages@[i] == *p),
    {
        let (page_pos, _) = chunk_pos.get_page_pos();
        self.get_page_ref(page_pos)
    }

    /// Whether the chunk at the given position is currently streamed in.
    pub fn is_chunked_streamed(&self, chunk_pos: ChunkPos) -> (r: bool)
        requires
            self.wf(),
            chunk_pos.wf(),
            chunk_pos.xz_in_range(),
        ensures
            r == self.is_resident(spec_page_of_chunk(chunk_pos)),
    {
        self.get_page_for_chunk(chunk_pos).is_some()
    }

    /// The chunk at the given position, or `None` while it is not streamed
    /// in; a missing chunk is an expected condition, not an error.
    pub fn get_chunk(&self, chunk_pos: ChunkPos) -> (r: Option<&Chunk>)
        requires
            self.wf(),
            chunk_pos.wf(),
            chunk_pos.xz_in_range(),
        ensures
            r.is_some() == self.is_resident(spec_page_of_chunk(chunk_pos)),
            r matches Some(c) ==> exists|i: int|
                0 <= i < self.loaded_chunk_pages@.len() && self.loaded_chunk_pages@[i].position
                    == spec_page_of_chunk(chunk_pos) && *c == self.loaded_chunk_pages@[i].chunks@[
                spec_offset_of_chunk(chunk_pos).spec_index()],
            r matches Some(c) ==> G::spec_generates(chunk_pos, *c),
    {
        match self.get_page_for_chunk(chunk_pos) {
            Some(page) => {
                proof {
                    let o = spec_offset_of_chunk(chunk_pos);
                    crate::position::lemma_page_offset_coord_in_range(chunk_pos.x as int);
                    crate::position::lemma_page_offset_coord_in_range(chunk_pos.z as int);
                    crate::position::lemma_page_offset_round_trip(o);
                    assert(spec_chunk_pos_at(page.position, o.spec_index()) == chunk_pos);
                    let k = choose|k: int|
                        0 <= k < self.loaded_chunk_pages@.len() && self.loaded_chunk_pages@[k]
                            == *page;
                    assert(G::spec_generates(
                        spec_chunk_pos_at(page.position, o.spec_index()),
                        page.chunks@[o.spec_index()],
                    ));
                }
                page.get_chunk(chunk_pos)
            },
            None => None,
        }
    }

    /// Recomputes the aggregate content bounds from the resident pages.
    fn update_bounds(&mut self)
        ensures
            final(self).loaded_chunk_pages == old(self).loaded_chunk_pages,
            final(self).chunk_page_pool == old(self).chunk_page_pool,
            final(self).generator == old(self).generator,
            final(self).last_computed_page_pos == old(self).last_computed_page_pos,
            final(self).pages_to_load == old(self).pages_to_load,
            final(self).content_bounds == spec_pages_bounds(final(self).loaded_chunk_pages@),
    {
        self.content_bounds = AABB::default();
        let mut i: usize = 0;
        while i < self.loaded_chunk_pages.len()
            invariant
                i <= self.loaded_chunk_pages@.len(),
                self.loaded_chunk_pages == old(self).loaded_chunk_pages,
                self.chunk_page_pool == old(self).chunk_page_pool,
                self.generator == old(self).generator,
                self.last_computed_page_pos == old(self).last_computed_page_pos,
                self.pages_to_load == old(self).pages_to_load,
                self.content_bounds == spec_pages_bounds(self.loaded_chunk_pages@.take(i as int)),
            decreases self.loaded_chunk_pages@.len() - i,
        {
            let lo = self.loaded_chunk_pages[i].content_bounds.min;
            let hi = self.loaded_chunk_pages[i].content_bounds.max;
            self.content_bounds.add(lo);
            self.content_bounds.add(hi);
            proof {
                let taken = self.loaded_chunk_pages@.take(i as int + 1);
                assert(taken.drop_last() =~= self.loaded_chunk_pages@.take(i as int));
                assert(taken.last() == self.loaded_chunk_pages@[i as int]);
            }
            i += 1;
        }
        proof {
            assert(self.loaded_chunk_pages@.take(self.loaded_chunk_pages@.len() as int)
                =~= self.loaded_chunk_pages@);
        }
    }
}

/// Computes the load/eviction priority measure of a page for a viewer.
fn page_viewer_dist(page: PagePos, viewer: ChunkPos) -> (r: i128)
    requires
        page.wf(),
    ensures
        r == spec_page_viewer_dist(page, viewer),
{
    let center = page.get_center_chunk_pos();
    center.distance_squared(viewer)
}

impl<G: WorldGenerator> ChunkStreamer<G> {
    /// Checks a fresh page buffer out of the pool, fills it for the given
    /// page position, and makes the page resident.
    fn load_page(&mut self, page_index: PagePos)
        requires
            old(self).wf(),
            page_index.wf(),
            !old(self).is_resident(page_index),
            !old(self).pages_to_load@.contains(page_index),
            old(self).chunk_page_pool@.len() > 0,
        ensures
            final(self).wf(),
            final(self).loaded_chunk_pages@.len() == old(self).loaded_chunk_pages@.len() + 1,
            forall|i: int|
                0 <= i < old(self).loaded_chunk_pages@.len() ==> final(self).loaded_chunk_pages@[i]
                    == old(self).loaded_chunk_pages@[i],
            final(self).loaded_chunk_pages@.last().position == page_index,
            final(self).chunk_page_pool@ == old(self).chunk_page_pool@.drop_last(),
            final(self).last_computed_page_pos == old(self).last_computed_page_pos,
            final(self).pages_to_load == old(self).pages_to_load,
            final(self).content_bounds == spec_pages_bounds(final(self).loaded_chunk_pages@),
    {
        let page_opt = self.chunk_page_pool.pop();
        let mut page = match page_opt {
            Some(p) => p,
            None => {
                proof {
                    assert(false);
                }
                ChunkPage::default()
            },
        };
        page.fill_from(&mut self.generator, page_index);
        self.loaded_chunk_pages.push(page);
        proof {
            let fin = self.loaded_chunk_pages@;
            let n = old(self).loaded_chunk_pages@.len() as int;
            assert forall|i: int|
                0 <= i < self.pages_to_load@.len() implies !self.is_resident(
                self.pages_to_load@[i],
            ) by {
                let q = self.pages_to_load@[i];
                assert(!old(self).is_resident(q));
                assert(q != page_index);
                if self.is_resident(q) {
                    let w = choose|w: int|
                        0 <= w < fin.len() && fin[w].position == q;
                    if w < n {
                        assert(old(self).loaded_chunk_pages@[w].position == q);
                    }
                }
            }
        }
        self.update_bounds();
    }

    /// Returns the `num_pages` resident pages farthest from the viewer to
    /// the pool, fewer when fewer are resident, and recomputes the content
    /// bounds from the remaining pages. Every page kept is at most as far
    /// from the viewer as every page evicted. The returned count says how
    /// many pages were actually evicted: a shortfall against `num_pages`
    /// is the degraded-but-safe condition of an underfull pool, surfaced
    /// to the caller rather than treated as an error.
    pub fn free_some_pages(&mut self, num_pages: usize, player_chunk_pos: ChunkPos) -> (evicted:
        usize)
        requires
            old(self).wf(),
        ensures
            evicted == spec_min(num_pages as int, old(self).loaded_chunk_pages@.len() as int),
            final(self).wf(),
            final(self).loaded_chunk_pages@.len() == old(self).loaded_chunk_pages@.len()
                - spec_min(num_pages as int, old(self).loaded_chunk_pages@.len() as int),
            final(self).chunk_page_pool@.len() == old(self).chunk_page_pool@.len() + spec_min(
                num_pages as int,
                old(self).loaded_chunk_pages@.len() as int,
            ),
            forall|i: int|
                0 <= i < old(self).chunk_page_pool@.len() ==> final(self).chunk_page_pool@[i]
                    == old(self).chunk_page_pool@[i],
            old(self).loaded_chunk_pages@.to_multiset()
                == final(self).loaded_chunk_pages@.to_multiset().add(
                final(self).chunk_page_pool@.skip(
                    old(self).chunk_page_pool@.len() as int,
                ).to_multiset(),
            ),
            forall|i: int, j: int|
                0 <= i < final(self).loaded_chunk_pages@.len()
                    && old(self).chunk_page_pool@.len() <= j < final(self).chunk_page_pool@.len()
                    ==> spec_page_viewer_dist(
                    final(self).loaded_chunk_pages@[i].position,
                    player_chunk_pos,
                ) <= spec_page_viewer_dist(
                    final(self).chunk_page_pool@[j].position,
                    player_chunk_pos,
                ),
            final(self).generator == old(self).generator,
            final(self).last_computed_page_pos == old(self).last_computed_page_pos,
            final(self).pages_to_load == old(self).pages_to_load,
            final(self).content_bounds == spec_pages_bounds(final(self).loaded_chunk_pages@),
    {
        let loaded_len = self.loaded_chunk_pages.len();
        let k = if num_pages < loaded_len {
            num_pages
        } else {
            loaded_len
        };
        let ghost pool0 = old(self).chunk_page_pool@;
        let mut e: usize = 0;
        while e < k
            invariant
                e <= k,
                k == spec_min(num_pages as int, old(self).loaded_chunk_pages@.len() as int),
                self.wf(),
                self.loaded_chunk_pages@.len() == old(self).loaded_chunk_pages@.len() - e,
                self.chunk_page_pool@.len() == pool0.len() + e,
                pool0 == old(self).chunk_page_pool@,
                forall|i: int| 0 <= i < pool0.len() ==> self.chunk_page_pool@[i] == pool0[i],
                old(self).loaded_chunk_pages@.to_multiset()
                    == self.loaded_chunk_pages@.to_multiset().add(
                    self.chunk_page_pool@.skip(pool0.len() as int).to_multiset(),
                ),
                forall|i: int, j: int|
                    0 <= i < self.loaded_chunk_pages@.len() && pool0.len() <= j
                        < self.chunk_page_pool@.len() ==> spec_page_viewer_dist(
                        self.loaded_chunk_pages@[i].position,
                        player_chunk_pos,
                    ) <= spec_page_viewer_dist(
                        self.chunk_page_pool@[j].position,
                        player_chunk_pos,
                    ),
                self.generator == old(self).generator,
                self.last_computed_page_pos == old(self).last_computed_page_pos,
                self.pages_to_load == old(self).pages_to_load,
            decreases k - e,
        {
            let mut best: usize = 0;
            let mut best_dist: i128 = page_viewer_dist(
                self.loaded_chunk_pages[0].position,
                player_chunk_pos,
            );
            let mut j: usize = 1;
            while j < self.loaded_chunk_pages.len()
                invariant
                    self.wf(),
                    self.loaded_chunk_pages@.len() >= 1,
                    best < j <= self.loaded_chunk_pages@.len(),
                    best_dist == spec_page_viewer_dist(
                        self.loaded_chunk_pages@[best as int].position,
                        player_chunk_pos,
                    ),
                    forall|t: int|
                        0 <= t < j ==> spec_page_viewer_dist(
                            self.loaded_chunk_pages@[t].position,
                            player_chunk_pos,
                        ) <= best_dist,
                decreases self.loaded_chunk_pages@.len() - j,
            {
                let d = page_viewer_dist(self.loaded_chunk_pages[j].position, player_chunk_pos);
                if d > best_dist {
                    best = j;
                    best_dist = d;
                }
                j += 1;
            }
            let ghost before_loaded = self.loaded_chunk_pages@;
            let ghost before_pool = self.chunk_page_pool@;
            let page = self.loaded_chunk_pages.remove(best);
            self.chunk_page_pool.push(page);
            proof {
                let p = before_loaded[best as int];
                let evicted_before = before_pool.skip(pool0.len() as int);
                let evicted_after = self.chunk_page_pool@.skip(pool0.len() as int);
                assert(evicted_after =~= evicted_before.push(p));
                assert(before_loaded.contains(p)) by {
                    assert(before_loaded[best as int] == p);
                }
                assert(before_loaded.to_multiset().count(p) > 0);
                assert(self.loaded_chunk_pages@.to_multiset()
                    == before_loaded.to_multiset().remove(p));
                assert(evicted_after.to_multiset() == evicted_before.to_multiset().insert(p));
                assert(self.loaded_chunk_pages@.to_multiset().add(evicted_after.to_multiset())
                    =~= before_loaded.to_multiset().add(evicted_before.to_multiset()));
            }
            e += 1;
        }
        self.update_bounds();
        k
    }
}

/// The fixed neighborhood of page offsets wanted around the viewer's page,
/// in priority order: the viewer's own page first, then the four edge
/// neighbors, then the four corners.
pub open spec fn spec_wanted_offset(i: int) -> (int, int) {
    if i == 0 {
        (0, 0)
    } else if i == 1 {
        (0, -1)
    } else if i == 2 {
        (0, 1)
    } else if i == 3 {
        (1, 0)
    } else if i == 4 {
        (-1, 0)
    } else if i == 5 {
        (1, -1)
    } else if i == 6 {
        (1, 1)
    } else if i == 7 {
        (-1, 1)
    } else {
        (-1, -1)
    }
}

/// The `i`-th wanted page of the neighborhood around the viewer's page.
pub open spec fn spec_wanted_page(vp: PagePos, i: int) -> PagePos {
    PagePos {
        x: (vp.x as int + spec_wanted_offset(i).0) as i32,
        z: (vp.z as int + spec_wanted_offset(i).1) as i32,
    }
}

/// Whether a page lies in the wanted neighborhood of the viewer's page.
pub open spec fn spec_is_wanted(vp: PagePos, q: PagePos) -> bool {
    exists|i: int| 0 <= i < 9 && q == spec_wanted_page(vp, i)
}

/// Distinct entries of the wanted neighborhood are distinct pages.
proof fn lemma_wanted_pages_distinct(vp: PagePos, i: int, j: int)
    requires
        -0x1000_0000 <= vp.x <= 0x1000_0000,
        -0x1000_0000 <= vp.z <= 0x1000_0000,
        0 <= i < 9,
        0 <= j < 9,
        i != j,
    ensures
        spec_wanted_page(vp, i) != spec_wanted_page(vp, j),
{
    assert(spec_wanted_offset(i) != spec_wanted_offset(j));
}

/// The offset of the `i`-th wanted page around the viewer's page.
fn wanted_offset(i: usize) -> (r: (i32, i32))
    requires
        i < 9,
    ensures
        r.0 == spec_wanted_offset(i as int).0,
        r.1 == spec_wanted_offset(i as int).1,
{
    match i {
        0 => (0, 0),
        1 => (0, -1),
        2 => (0, 1),
        3 => (1, 0),
        4 => (-1, 0),
        5 => (1, -1),
        6 => (1, 1),
        7 => (-1, 1),
        _ => (-1, -1),
    }
}

/// Whether the queue already holds the given page position.
fn queue_contains(v: &Vec<PagePos>, p: PagePos) -> (r: bool)
    ensures
        r == v@.contains(p),
{
    let mut i: usize = 0;
    while i < v.len()
        invariant
            i <= v@.len(),
            forall|j: int| 0 <= j < i ==> v@[j] != p,
        decreases v@.len() - i,
    {
        if v[i].x == p.x && v[i].z == p.z {
            return true;
        }
        i += 1;
    }
    false
}

impl<G: WorldGenerator> ChunkStreamer<G> {
    /// Reacts to the viewer entering a new page: enqueues every wanted page
    /// that is not already resident or queued, then re-sorts the whole
    /// queue so the pages closest to the viewer sit at its back, where the
    /// load step pops.
    fn on_new_page_index(&mut self, page_index: PagePos, player_chunk_pos: ChunkPos)
        requires
            old(self).wf(),
            -0x1000_0000 <= page_index.x <= 0x1000_0000,
            -0x1000_0000 <= page_index.z <= 0x1000_0000,
        ensures
            final(self).wf(),
            final(self).pages_to_load@.len() == old(self).pages_to_load@.len() + old(
                self,
            ).spec_recompute_added(page_index, 9),
            forall|q: PagePos|
                final(self).pages_to_load@.contains(q) <==> (old(self).pages_to_load@.contains(q)
                    || (spec_is_wanted(page_index, q) && !old(self).is_resident(q))),
            forall|i: int, j: int|
                0 <= i <= j < final(self).pages_to_load@.len() ==> spec_page_viewer_dist(
                    final(self).pages_to_load@[i],
                    player_chunk_pos,
                ) >= spec_page_viewer_dist(final(self).pages_to_load@[j], player_chunk_pos),
            final(self).loaded_chunk_pages == old(self).loaded_chunk_pages,
            final(self).chunk_page_pool == old(self).chunk_page_pool,
            final(self).generator == old(self).generator,
            final(self).content_bounds == old(self).content_bounds,
            final(self).last_computed_page_pos == old(self).last_computed_page_pos,
    {
        let mut i: usize = 0;
        while i < 9
            invariant
                i <= 9,
                self.wf(),
                -0x1000_0000 <= page_index.x <= 0x1000_0000,
                -0x1000_0000 <= page_index.z <= 0x1000_0000,
                self.loaded_chunk_pages == old(self).loaded_chunk_pages,
                self.chunk_page_pool == old(self).chunk_page_pool,
                self.generator == old(self).generator,
                self.content_bounds == old(self).content_bounds,
                self.last_computed_page_pos == old(self).last_computed_page_pos,
                self.pages_to_load@.len() == old(self).pages_to_load@.len() + old(
                    self,
                ).spec_recompute_added(page_index, i as int),
                forall|t: int|
                    0 <= t < old(self).pages_to_load@.len() ==> self.pages_to_load@[t] == old(
                        self,
                    ).pages_to_load@[t],
                forall|q: PagePos|
                    self.pages_to_load@.contains(q) <==> (old(self).pages_to_load@.contains(q) || (
                    exists|t: int|
                        0 <= t < i && q == spec_wanted_page(page_index, t) && !old(
                            self,
                        ).is_resident(q))),
            decreases 9 - i,
        {
            let (dx, dz) = wanted_offset(i);
            let w = PagePos { x: page_index.x + dx, z: page_index.z + dz };
            proof {
                assert(w == spec_wanted_page(page_index, i as int));
            }
            let ghost before = self.pages_to_load@;
            proof {
                // the current queue holds `w` exactly when the queue at
                // entry did: everything appended so far is an earlier
                // wanted page, and wanted pages are pairwise distinct
                assert(before.contains(w) == old(self).pages_to_load@.contains(w)) by {
                    if before.contains(w) && !old(self).pages_to_load@.contains(w) {
                        let t = choose|t: int|
                            0 <= t < i && w == spec_wanted_page(page_index, t) && !old(
                                self,
                            ).is_resident(w);
                        lemma_wanted_pages_distinct(page_index, t, i as int);
                    }
                    if old(self).pages_to_load@.contains(w) {
                        let w_idx = choose|w_idx: int|
                            0 <= w_idx < old(self).pages_to_load@.len() && old(
                                self,
                            ).pages_to_load@[w_idx] == w;
                        assert(before[w_idx] == w);
                        assert(before.contains(w));
                    }
                }
            }
            let resident = self.get_page_ref(w).is_some();
            if !resident {
                if !queue_contains(&self.pages_to_load, w) {
                    self.pages_to_load.push(w);
                    proof {
                        assert forall|a: int, b: int|
                            0 <= a < b < self.pages_to_load@.len() implies self.pages_to_load@[a]
                            != self.pages_to_load@[b] by {
                            if b == self.pages_to_load@.len() - 1 {
                                assert(before[a] == self.pages_to_load@[a]);
                                assert(before.contains(before[a]));
                            }
                        }
                    }
                }
            }
            proof {
                old(self).lemma_recompute_added_bounds(page_index, i as int);
                let qa = self.pages_to_load@;
                assert forall|t: int|
                    0 <= t < old(self).pages_to_load@.len() implies qa[t] == old(
                    self,
                ).pages_to_load@[t] by {
                    assert(qa[t] == before[t]);
                }
                assert forall|q: PagePos|
                    qa.contains(q) implies (old(self).pages_to_load@.contains(q) || (exists|t: int|
                    0 <= t < i + 1 && q == spec_wanted_page(page_index, t) && !old(
                        self,
                    ).is_resident(q))) by {
                    if before.contains(q) {
                        if !old(self).pages_to_load@.contains(q) {
                            let t = choose|t: int|
                                0 <= t < i && q == spec_wanted_page(page_index, t) && !old(
                                    self,
                                ).is_resident(q);
                            assert(0 <= t < i + 1 && q == spec_wanted_page(page_index, t) && !old(
                                self,
                            ).is_resident(q));
                        }
                    } else {
                        let w_idx = choose|w_idx: int| 0 <= w_idx < qa.len() && qa[w_idx] == q;
                        assert(q == w);
                        assert(q == spec_wanted_page(page_index, i as int) && !old(
                            self,
                        ).is_resident(q));
                        assert(exists|t: int|
                            0 <= t < i + 1 && q == spec_wanted_page(page_index, t) && !old(
                                self,
                            ).is_resident(q));
                    }
                }
                assert forall|q: PagePos|
                    (old(self).pages_to_load@.contains(q) || (exists|t: int|
                        0 <= t < i + 1 && q == spec_wanted_page(page_index, t) && !old(
                            self,
                        ).is_resident(q))) implies qa.contains(q) by {
                    if old(self).pages_to_load@.contains(q) {
                        assert(before.contains(q));
                        let w_idx = choose|w_idx: int|
                            0 <= w_idx < before.len() && before[w_idx] == q;
                        assert(qa[w_idx] == q);
                        assert(qa.contains(q));
                    } else {
                        let t = choose|t: int|
                            0 <= t < i + 1 && q == spec_wanted_page(page_index, t) && !old(
                                self,
                            ).is_resident(q);
                        if t < i {
                            assert(before.contains(q));
                            let w_idx = choose|w_idx: int|
                                0 <= w_idx < before.len() && before[w_idx] == q;
                            assert(qa[w_idx] == q);
                            assert(qa.contains(q));
                        } else {
                            assert(q == w);
                            if resident {
                                assert(false);
                            } else if before.contains(q) {
                                let w_idx = choose|w_idx: int|
                                    0 <= w_idx < before.len() && before[w_idx] == q;
                                assert(qa[w_idx] == q);
                                assert(qa.contains(q));
                            } else {
                                assert(qa[qa.len() - 1] == w);
                                assert(qa.contains(q));
                            }
                        }
                    }
                }
            }
            i += 1;
        }
        self.sort_queue_by_distance(player_chunk_pos);
    }

    /// Re-sorts the pending load queue by descending distance from the
    /// viewer, so that the closest wanted pages are popped first.
    fn sort_queue_by_distance(&mut self, player_chunk_pos: ChunkPos)
        requires
            old(self).wf(),
        ensures
            final(self).wf(),
            final(self).pages_to_load@.len() == old(self).pages_to_load@.len(),
            forall|q: PagePos|
                final(self).pages_to_load@.contains(q) == old(self).pages_to_load@.contains(q),
            forall|i: int, j: int|
                0 <= i <= j < final(self).pages_to_load@.len() ==> spec_page_viewer_dist(
                    final(self).pages_to_load@[i],
                    player_chunk_pos,
                ) >= spec_page_viewer_dist(final(self).pages_to_load@[j], player_chunk_pos),
            final(self).loaded_chunk_pages == old(self).loaded_chunk_pages,
            final(self).chunk_page_pool == old(self).chunk_page_pool,
            final(self).generator == old(self).generator,
            final(self).content_bounds == old(self).content_bounds,
            final(self).last_computed_page_pos == old(self).last_computed_page_pos,
    {
        let ghost q0 = self.pages_to_load@;
        let mut sorted_queue: Vec<PagePos> = Vec::new();
        while self.pages_to_load.len() > 0
            invariant
                self.wf(),
                self.loaded_chunk_pages == old(self).loaded_chunk_pages,
                self.chunk_page_pool == old(self).chunk_page_pool,
                self.generator == old(self).generator,
                self.content_bounds == old(self).content_bounds,
                self.last_computed_page_pos == old(self).last_computed_page_pos,
                q0 == old(self).pages_to_load@,
                q0.to_multiset() == sorted_queue@.to_multiset().add(
                    self.pages_to_load@.to_multiset(),
                ),
                forall|i: int| 0 <= i < sorted_queue@.len() ==> sorted_queue@[i].wf(),
                forall|i: int, j: int|
                    0 <= i <= j < sorted_queue@.len() ==> spec_page_viewer_dist(
                        sorted_queue@[i],
                        player_chunk_pos,
                    ) >= spec_page_viewer_dist(sorted_queue@[j], player_chunk_pos),
                forall|i: int, j: int|
                    0 <= i < sorted_queue@.len() && 0 <= j < self.pages_to_load@.len()
                        ==> spec_page_viewer_dist(sorted_queue@[i], player_chunk_pos)
                        >= spec_page_viewer_dist(self.pages_to_load@[j], player_chunk_pos),
            decreases self.pages_to_load@.len(),
        {
            let mut best: usize = 0;
            let mut best_dist: i128 = page_viewer_dist(self.pages_to_load[0], player_chunk_pos);
            let mut j: usize = 1;
            while j < self.pages_to_load.len()
                invariant
                    self.wf(),
                    self.pages_to_load@.len() >= 1,
                    best < j <= self.pages_to_load@.len(),
                    best_dist == spec_page_viewer_dist(
                        self.pages_to_load@[best as int],
                        player_chunk_pos,
                    ),
                    forall|t: int|
                        0 <= t < j ==> spec_page_viewer_dist(
                            self.pages_to_load@[t],
                            player_chunk_pos,
                        ) <= best_dist,
                decreases self.pages_to_load@.len() - j,
            {
                let d = page_viewer_dist(self.pages_to_load[j], player_chunk_pos);
                if d > best_dist {
                    best = j;
                    best_dist = d;
                }
                j += 1;
            }
            let ghost before_rest = self.pages_to_load@;
            let ghost before_sorted = sorted_queue@;
            let p = self.pages_to_load.remove(best);
            sorted_queue.push(p);
            proof {
                assert(before_rest.contains(p)) by {
                    assert(before_rest[best as int] == p);
                }
                assert(before_rest.to_multiset().count(p) > 0);
                assert(self.pages_to_load@.to_multiset() == before_rest.to_multiset().remove(p));
                assert(sorted_queue@.to_multiset() == before_sorted.to_multiset().insert(p));
                assert(sorted_queue@.to_multiset().add(self.pages_to_load@.to_multiset())
                    =~= before_sorted.to_multiset().add(before_rest.to_multiset()));
            }
        }
        proof {
            q0.lemma_multiset_has_no_duplicates();
        }
        self.pages_to_load = sorted_queue;
        proof {
            let fin = self.pages_to_load@;
            assert(q0.to_multiset() =~= fin.to_multiset());
            assert(q0.to_multiset().len() == q0.len());
            assert(fin.to_multiset().len() == fin.len());
            assert forall|q: PagePos| fin.contains(q) == q0.contains(q) by {
                if fin.contains(q) {
                    assert(fin.to_multiset().count(q) > 0);
                }
                if q0.contains(q) {
                    assert(q0.to_multiset().count(q) > 0);
                }
            }
            fin.lemma_multiset_has_no_duplicates_conv();
            assert forall|i: int|
                0 <= i < fin.len() implies fin[i].wf() && !self.is_resident(fin[i]) by {
                assert(fin.contains(fin[i]));
                let w = choose|w: int| 0 <= w < q0.len() && q0[w] == fin[i];
                assert(!old(self).is_resident(q0[w]));
            }
        }
    }
}

impl<G: WorldGenerator> ChunkStreamer<G> {
    /// Advances streaming by one tick for the given viewer position.
    /// When the viewer's page changed (or on the first tick) the wanted
    /// neighborhood is recomputed and the queue re-sorted, closest pages
    /// last; when pages are owed a load and the pool cannot cover them,
    /// the per-tick eviction budget of farthest pages is returned to the
    /// pool; then up to `PAGE_LOAD_PER_FRAME` pages are popped from the
    /// back of the queue and made resident. The returned count, the queue
    /// length and the resident and pool counts are all pinned exactly, so
    /// a tick can neither skip owed work nor drop queued pages.
    pub fn tick_streaming(&mut self, player_chunk_pos: ChunkPos) -> (n: i32)
        requires
            old(self).wf(),
            player_chunk_pos.wf(),
            player_chunk_pos.xz_in_range(),
        ensures
            final(self).wf(),
            final(self).last_computed_page_pos == Some(spec_page_of_chunk(player_chunk_pos)),
            0 <= n <= PAGE_LOAD_PER_FRAME,
            n as int == spec_min(
                PAGE_LOAD_PER_FRAME as int,
                old(self).spec_pending_after(player_chunk_pos),
            ),
            final(self).pages_to_load@.len() == old(self).spec_pending_after(player_chunk_pos)
                - n,
            final(self).loaded_chunk_pages@.len() == old(self).loaded_chunk_pages@.len() - old(
                self,
            ).spec_evicted_count(player_chunk_pos) + n,
            final(self).chunk_page_pool@.len() == old(self).chunk_page_pool@.len() + old(
                self,
            ).spec_evicted_count(player_chunk_pos) - n,
            old(self).spec_page_changed(player_chunk_pos) ==> (forall|i: int, j: int|
                0 <= i <= j < final(self).pages_to_load@.len() ==> spec_page_viewer_dist(
                    final(self).pages_to_load@[i],
                    player_chunk_pos,
                ) >= spec_page_viewer_dist(final(self).pages_to_load@[j], player_chunk_pos)),
            old(self).spec_page_changed(player_chunk_pos) ==> (forall|q1: PagePos, q2: PagePos|
                final(self).is_resident(q1) && !old(self).is_resident(q1)
                    && final(self).pages_to_load@.contains(q2) ==> spec_page_viewer_dist(
                    q1,
                    player_chunk_pos,
                ) <= spec_page_viewer_dist(q2, player_chunk_pos)),
            !old(self).spec_page_changed(player_chunk_pos) ==> final(self).pages_to_load@ == old(
                self,
            ).pages_to_load@.take(old(self).pages_to_load@.len() - n),
            forall|q: PagePos|
                final(self).pages_to_load@.contains(q) ==> old(self).pages_to_load@.contains(q)
                    || (spec_is_wanted(spec_page_of_chunk(player_chunk_pos), q) && !old(
                    self,
                ).is_resident(q)),
            old(self).spec_page_changed(player_chunk_pos) ==> (forall|q: PagePos|
                spec_is_wanted(spec_page_of_chunk(player_chunk_pos), q)
                    && !old(self).is_resident(q) ==> final(self).is_resident(q)
                    || final(self).pages_to_load@.contains(q)),
            forall|q: PagePos|
                final(self).is_resident(q) ==> old(self).is_resident(q) || old(
                    self,
                ).pages_to_load@.contains(q) || spec_is_wanted(
                    spec_page_of_chunk(player_chunk_pos),
                    q,
                ),
            old(self).spec_pending_after(player_chunk_pos) == 0 ==> final(self).loaded_chunk_pages
                == old(self).loaded_chunk_pages && final(self).chunk_page_pool
                == old(self).chunk_page_pool && final(self).generator == old(self).generator
                && final(self).content_bounds == old(self).content_bounds,
    {
        proof {
            crate::position::lemma_page_coord_in_range(player_chunk_pos.x as int);
            crate::position::lemma_page_coord_in_range(player_chunk_pos.z as int);
            old(self).lemma_recompute_added_bounds(spec_page_of_chunk(player_chunk_pos), 9);
        }
        let ghost pending = old(self).spec_pending_after(player_chunk_pos);
        let ghost evict_count = old(self).spec_evicted_count(player_chunk_pos);
        let (viewer_page, _) = player_chunk_pos.get_page_pos();
        proof {
            assert(viewer_page == spec_page_of_chunk(player_chunk_pos));
        }
        let changed = match self.last_computed_page_pos {
            None => true,
            Some(lp) => !(lp.x == viewer_page.x && lp.z == viewer_page.z),
        };
        proof {
            if !changed {
                let lp = self.last_computed_page_pos->Some_0;
                assert(lp == viewer_page);
            }
            assert(changed == old(self).spec_page_changed(player_chunk_pos));
        }
        if changed {
            self.on_new_page_index(viewer_page, player_chunk_pos);
            self.last_computed_page_pos = Some(viewer_page);
        }
        let ghost s_rec = *self;
        proof {
            assert(s_rec.pages_to_load@.len() == pending);
        }
        let mut new_pages_loaded: i32 = 0;
        if self.pages_to_load.len() > 0 {
            if self.chunk_page_pool.len() < self.pages_to_load.len() {
                self.free_some_pages(PAGE_LOAD_PER_FRAME, player_chunk_pos);
            }
            proof {
                assert(self.chunk_page_pool@.len() == old(self).chunk_page_pool@.len()
                    + evict_count);
                assert(self.loaded_chunk_pages@.len() == old(self).loaded_chunk_pages@.len()
                    - evict_count);
            }
            let ghost s_mid = *self;
            let ghost q0 = self.pages_to_load@;
            let ghost pool_start = self.chunk_page_pool@.len() as int;
            proof {
                assert(pool_start >= spec_min(PAGE_LOAD_PER_FRAME as int, q0.len() as int)) by {
                    if s_rec.chunk_page_pool@.len() < s_rec.pages_to_load@.len() {
                        if s_rec.loaded_chunk_pages@.len() < 2 {
                            assert(s_rec.chunk_page_pool@.len() >= 14);
                        }
                    }
                }
            }
            let mut iter: usize = 0;
            while iter < PAGE_LOAD_PER_FRAME
                invariant
                    self.wf(),
                    iter <= PAGE_LOAD_PER_FRAME,
                    0 <= new_pages_loaded,
                    new_pages_loaded as int == spec_min(iter as int, q0.len() as int),
                    self.pages_to_load@ == q0.take(q0.len() - new_pages_loaded as int),
                    self.chunk_page_pool@.len() == pool_start - new_pages_loaded as int,
                    self.loaded_chunk_pages@.len() == s_mid.loaded_chunk_pages@.len()
                        + new_pages_loaded as int,
                    pool_start >= spec_min(PAGE_LOAD_PER_FRAME as int, q0.len() as int),
                    q0 == s_mid.pages_to_load@,
                    q0.no_duplicates(),
                    changed ==> (forall|a: int, c: int|
                        0 <= a <= c < q0.len() ==> spec_page_viewer_dist(
                            q0[a],
                            player_chunk_pos,
                        ) >= spec_page_viewer_dist(q0[c], player_chunk_pos)),
                    self.last_computed_page_pos == s_mid.last_computed_page_pos,
                    forall|t: int|
                        q0.len() - new_pages_loaded <= t < q0.len() ==> self.is_resident(q0[t]),
                    forall|q: PagePos|
                        self.is_resident(q) ==> s_mid.is_resident(q) || q0.contains(q),
                decreases PAGE_LOAD_PER_FRAME as int - iter,
            {
                if self.pages_to_load.len() > 0 {
                    let ghost before_q = self.pages_to_load@;
                    let ghost before_self = *self;
                    let p_opt = self.pages_to_load.pop();
                    let p = match p_opt {
                        Some(p) => p,
                        None => {
                            proof {
                                assert(false);
                            }
                            PagePos { x: 0, z: 0 }
                        },
                    };
                    proof {
                        assert(p == before_q.last());
                        assert(before_q.contains(p)) by {
                            assert(before_q[before_q.len() - 1] == p);
                        }
                        assert(q0.contains(p)) by {
                            assert(before_q[before_q.len() - 1] == p);
                            assert(q0[before_q.len() - 1] == p);
                        }
                        assert(p.wf() && !before_self.is_resident(p));
                        assert(!self.pages_to_load@.contains(p)) by {
                            if self.pages_to_load@.contains(p) {
                                let w = choose|w: int|
                                    0 <= w < self.pages_to_load@.len() && self.pages_to_load@[w]
                                        == p;
                                assert(before_q[w] == p);
                                assert(before_q[before_q.len() - 1] == p);
                            }
                        }
                        assert(!self.is_resident(p));
                    }
                    self.load_page(p);
                    new_pages_loaded += 1;
                    proof {
                        assert(self.pages_to_load@ =~= q0.take(
                            q0.len() - new_pages_loaded as int,
                        ));
                        assert forall|q: PagePos|
                            self.is_resident(q) implies before_self.is_resident(q) || q == p by {
                            if self.is_resident(q) {
                                let w = choose|w: int|
                                    0 <= w < self.loaded_chunk_pages@.len()
                                        && self.loaded_chunk_pages@[w].position == q;
                                if w < self.loaded_chunk_pages@.len() - 1 {
                                    assert(before_self.loaded_chunk_pages@[w].position == q);
                                    assert(before_self.is_resident(q));
                                } else {
                                    assert(q == p);
                                }
                            }
                        }
                        assert(self.is_resident(p)) by {
                            let last = self.loaded_chunk_pages@.len() - 1;
                            assert(self.loaded_chunk_pages@[last].position == p);
                        }
                        assert forall|t: int|
                            q0.len() - new_pages_loaded <= t < q0.len() implies self.is_resident(
                            q0[t],
                        ) by {
                            if t < q0.len() - new_pages_loaded + 1 {
                                assert(q0[t] == p) by {
                                    assert(before_q[before_q.len() - 1] == p);
                                }
                            } else {
                                assert(before_self.is_resident(q0[t]));
                                let w = choose|w: int|
                                    0 <= w < before_self.loaded_chunk_pages@.len()
                                        && before_self.loaded_chunk_pages@[w].position == q0[t];
                                assert(self.loaded_chunk_pages@[w].position == q0[t]);
                            }
                        }
                    }
                }
                iter += 1;
            }
            proof {
                assert forall|q: PagePos|
                    self.is_resident(q) implies s_rec.is_resident(q) || q0.contains(q) by {
                    if self.is_resident(q) && !q0.contains(q) {
                        assert(s_mid.is_resident(q));
                        let w = choose|w: int|
                            0 <= w < s_mid.loaded_chunk_pages@.len()
                                && s_mid.loaded_chunk_pages@[w].position == q;
                        let page = s_mid.loaded_chunk_pages@[w];
                        assert(s_mid.loaded_chunk_pages@.contains(page));
                        assert(s_mid.loaded_chunk_pages@.to_multiset().count(page) > 0);
                        assert(s_rec.loaded_chunk_pages@.to_multiset().count(page) > 0);
                        assert(s_rec.loaded_chunk_pages@.contains(page));
                        let v = choose|v: int|
                            0 <= v < s_rec.loaded_chunk_pages@.len()
                                && s_rec.loaded_chunk_pages@[v] == page;
                        assert(s_rec.is_resident(q));
                    }
                }
                if changed {
                    assert forall|q1: PagePos, q2: PagePos|
                        self.is_resident(q1) && !old(self).is_resident(q1)
                            && self.pages_to_load@.contains(q2) implies spec_page_viewer_dist(
                        q1,
                        player_chunk_pos,
                    ) <= spec_page_viewer_dist(q2, player_chunk_pos) by {
                        if s_mid.is_resident(q1) {
                            let w = choose|w: int|
                                0 <= w < s_mid.loaded_chunk_pages@.len()
                                    && s_mid.loaded_chunk_pages@[w].position == q1;
                            let page = s_mid.loaded_chunk_pages@[w];
                            assert(s_mid.loaded_chunk_pages@.contains(page));
                            assert(s_mid.loaded_chunk_pages@.to_multiset().count(page) > 0);
                            assert(s_rec.loaded_chunk_pages@.to_multiset().count(page) > 0);
                            assert(s_rec.loaded_chunk_pages@.contains(page));
                            let v = choose|v: int|
                                0 <= v < s_rec.loaded_chunk_pages@.len()
                                    && s_rec.loaded_chunk_pages@[v] == page;
                            assert(s_rec.is_resident(q1));
                            assert(old(self).is_resident(q1));
                        } else {
                            assert(q0.contains(q1));
                            let t = choose|t: int| 0 <= t < q0.len() && q0[t] == q1;
                            assert(t >= q0.len() - new_pages_loaded as int) by {
                                if t < q0.len() - new_pages_loaded as int {
                                    assert(self.pages_to_load@[t] == q1);
                                    assert(!self.is_resident(self.pages_to_load@[t]));
                                }
                            }
                            let u = choose|u: int|
                                0 <= u < self.pages_to_load@.len() && self.pages_to_load@[u]
                                    == q2;
                            assert(q0[u] == q2);
                            assert(u <= t);
                        }
                    }
                    assert forall|q: PagePos|
                        spec_is_wanted(viewer_page, q) && !old(self).is_resident(q)
                            implies self.is_resident(q) || self.pages_to_load@.contains(q) by {
                        assert(s_rec.pages_to_load@.contains(q));
                        let t = choose|t: int| 0 <= t < q0.len() && q0[t] == q;
                        if t < q0.len() - new_pages_loaded as int {
                            assert(self.pages_to_load@[t] == q);
                            assert(self.pages_to_load@.contains(q));
                        } else {
                            assert(self.is_resident(q0[t]));
                        }
                    }
                }
                assert forall|q: PagePos|
                    self.pages_to_load@.contains(q) implies old(self).pages_to_load@.contains(q)
                        || (spec_is_wanted(viewer_page, q) && !old(self).is_resident(q)) by {
                    let t = choose|t: int|
                        0 <= t < self.pages_to_load@.len() && self.pages_to_load@[t] == q;
                    assert(q0[t] == q);
                    assert(s_rec.pages_to_load@.contains(q));
                }
            }
        } else {
            proof {
                assert(pending == 0);
                assert(evict_count == 0);
            }
        }
        proof {
            assert forall|q: PagePos|
                self.is_resident(q) implies old(self).is_resident(q) || old(
                self,
            ).pages_to_load@.contains(q) || spec_is_wanted(viewer_page, q) by {
                if self.is_resident(q) {
                    if s_rec.is_resident(q) {
                        assert(old(self).is_resident(q));
                    } else {
                        assert(s_rec.pages_to_load@.contains(q));
                    }
                }
            }
        }
        new_pages_loaded
    }
}

/// The character for one decimal digit.
pub open spec fn spec_digit_char(d: int) -> char {
    if d == 0 {
        '0'
    } else if d == 1 {
        '1'
    } else if d == 2 {
        '2'
    } else if d == 3 {
        '3'
    } else if d == 4 {
        '4'
    } else if d == 5 {
        '5'
    } else if d == 6 {
        '6'
    } else if d == 7 {
        '7'
    } else if d == 8 {
        '8'
    } else {
        '9'
    }
}

/// The decimal digit string of a non-negative integer, most significant
/// digit first.
pub open spec fn spec_decimal(n: int) -> Seq<char>
    decreases n,
{
    if n < 10 {
        seq![spec_digit_char(n)]
    } else {
        spec_decimal(n / 10).push(spec_digit_char(n % 10))
    }
}

/// The string for one decimal digit.
fn digit_str(d: usize) -> (r: &'static str)
    requires
        d < 10,
    ensures
        r@ == seq![spec_digit_char(d as int)],
{
    proof {
        reveal_strlit("0");
        reveal_strlit("1");
        reveal_strlit("2");
        reveal_strlit("3");
        reveal_strlit("4");
        reveal_strlit("5");
        reveal_strlit("6");
        reveal_strlit("7");
        reveal_strlit("8");
        reveal_strlit("9");
    }
    let r = match d {
        0 => "0",
        1 => "1",
        2 => "2",
        3 => "3",
        4 => "4",
        5 => "5",
        6 => "6",
        7 => "7",
        8 => "8",
        _ => "9",
    };
    proof {
        assert(r@ =~= seq![spec_digit_char(d as int)]);
    }
    r
}

/// Renders a number as its decimal digit string.
fn usize_to_string(n: usize) -> (r: String)
    ensures
        r@ == spec_decimal(n as int),
    decreases n,
{
    if n < 10 {
        String::from_str(digit_str(n))
    } else {
        let mut s = usize_to_string(n / 10);
        s.append(digit_str(n % 10));
        proof {
            assert(s@ =~= spec_decimal(n as int));
        }
        s
    }
}

impl<G: WorldGenerator> ChunkStreamer<G> {
    /// A human-readable status line: the count of resident pages.
    pub fn get_info(&self) -> (r: String)
        ensures
            r@ == spec_decimal(self.loaded_chunk_pages@.len() as int) + " page(s) loaded"@,
    {
        let mut s = usize_to_string(self.loaded_chunk_pages.len());
        s.append(" page(s) loaded");
        s
    }

    /// The streamer never loses or duplicates a page buffer: however it is
    /// driven, resident pages and pooled spares add up to the capacity it
    /// was built with.
    pub proof fn lemma_pool_conservation(self)
        requires
            self.wf(),
        ensures
            self.loaded_chunk_pages@.len() + self.chunk_page_pool@.len() == MAX_NUM_PAGES,
    {
    }
}


} // verus!
