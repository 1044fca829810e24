//! Deterministic procedural terrain: fills a chunk column by column from a
//! table of terrain heights, then dresses exposed solid surfaces with
//! grass. The height table is sampled by the caller (one height per column,
//! from layered noise seeded by the world seed); everything from heights to
//! finished chunk is a pure function of its arguments.

use vstd::prelude::*;
use crate::storage::{
    air_ident, cobblestone_ident, flat_index, grass_ident, lemma_flat_index_bounds,
    lemma_flat_index_injective, local_in_bounds, BlockData, BlockIdent, RawChunk, VoxelPos,
    CHUNK_SIZE, CHUNK_VOLUME,
};

verus! {

/// Position of a chunk in chunk-grid space; world-space voxel coordinate is
/// `chunk_coord * CHUNK_SIZE + local_coord` per axis.
#[derive(Clone, Copy, PartialEq, Eq, Structural, Debug)]
pub struct ChunkCoordinate {
    pub x: i32,
    pub y: i32,
    pub z: i32,
}

/// World-space coordinate of a local voxel along one axis.
pub open spec fn world_coord(chunk: int, local: int) -> int {
    chunk * (CHUNK_SIZE as int) + local
}

/// Position of the column `(x, z)` in the flat height table.
pub open spec fn col_index(x: int, z: int) -> int {
    x * (CHUNK_SIZE as int) + z
}

/// One terrain height per column of a chunk, in world-space units: the
/// voxel at world height `wy` of column `(x, z)` is solid exactly when
/// `wy <= height`. Heights come from the caller's noise field, sampled at
/// the column's world-space `(x, z)` position.
pub struct HeightMap {
    heights: Vec<i64>,
}

impl View for HeightMap {
    type V = Seq<i64>;

    closed spec fn view(&self) -> Seq<i64> {
        self.heights@
    }
}

impl HeightMap {
    /// The table holds one height for every column.
    pub open spec fn wf(self) -> bool {
        self@.len() == CHUNK_SIZE * CHUNK_SIZE
    }

    /// The terrain height of column `(x, z)`.
    pub open spec fn spec_height(self, x: int, z: int) -> int {
        self@[col_index(x, z)] as int
    }

    /// Wraps a flat table of one height per column, x-major; rejects a
    /// table of any other size.
    pub fn from_columns(heights: Vec<i64>) -> (r: Option<HeightMap>)
        ensures
            match r {
                Some(m) => m.wf() && m@ == heights@,
                None => heights@.len() != CHUNK_SIZE * CHUNK_SIZE,
            },
    {
        if heights.len() == (CHUNK_SIZE * CHUNK_SIZE) as usize {
            Some(HeightMap { heights })
        } else {
            None
        }
    }

    /// The stored height of column `(x, z)`.
    pub fn height(&self, x: u32, z: u32) -> (h: i64)
        requires
            self.wf(),
            x < CHUNK_SIZE,
            z < CHUNK_SIZE,
        ensures
            h as int == self.spec_height(x as int, z as int),
    {
        let idx: usize = (x * CHUNK_SIZE + z) as usize;
        self.heights[idx]
    }
}

/// The block the fill pass puts at local `(x, y, z)`: solid below or at the
/// column's terrain height, air above it.
pub open spec fn fill_block(
    pos: ChunkCoordinate, hm: Seq<i64>, x: int, y: int, z: int,
) -> BlockIdent {
    if world_coord(pos.y as int, y) <= hm[col_index(x, z)] {
        cobblestone_ident()
    } else {
        air_ident()
    }
}

/// The block the surface-dressing pass leaves at local `(x, y, z)` of a
/// chunk whose contents were `v`: a solid base block directly below air
/// becomes grass; everything else is unchanged. The topmost layer is never
/// converted, since its upward neighbour is outside the chunk.
pub open spec fn dressed_block(v: Seq<BlockIdent>, x: int, y: int, z: int) -> BlockIdent {
    if y + 1 < CHUNK_SIZE && v[flat_index(x, y + 1, z)] == air_ident()
        && v[flat_index(x, y, z)] == cobblestone_ident() {
        grass_ident()
    } else {
        v[flat_index(x, y, z)]
    }
}

/// The block generation leaves at local `(x, y, z)`: the filled terrain
/// with the topmost solid voxel of each column converted to grass, except
/// in the topmost layer.
pub open spec fn generated_block(
    pos: ChunkCoordinate, hm: Seq<i64>, x: int, y: int, z: int,
) -> BlockIdent {
    let h = hm[col_index(x, z)];
    let wy = world_coord(pos.y as int, y);
    if wy <= h {
        if y + 1 < CHUNK_SIZE && wy == h {
            grass_ident()
        } else {
            cobblestone_ident()
        }
    } else {
        air_ident()
    }
}

/// The chunk holds exactly the terrain generated for `(pos, hm)`.
pub open spec fn is_generated(c: RawChunk, pos: ChunkCoordinate, hm: Seq<i64>) -> bool {
    &&& c.wf()
    &&& forall|x: int, y: int, z: int|
        local_in_bounds(x, y, z) ==> c.spec_block(x, y, z) == generated_block(pos, hm, x, y, z)
}

/// The three block identifiers the generator writes are pairwise distinct.
pub proof fn lemma_idents_distinct()
    ensures
        air_ident() != cobblestone_ident(),
        air_ident() != grass_ident(),
        cobblestone_ident() != grass_ident(),
{
    reveal_strlit("air");
    reveal_strlit("cobblestone");
    reveal_strlit("grass");
    assert("air"@.len() == 3);
    assert("cobblestone"@.len() == 11);
    assert("grass"@.len() == 5);
}

/// Replaces every solid base block that sits directly below air with the
/// surface block, column by column, skipping the topmost layer.
pub fn add_grass(raw_chunk: &mut RawChunk)
    requires
        old(raw_chunk).wf(),
    ensures
        final(raw_chunk).wf(),
        forall|x: int, y: int, z: int|
            local_in_bounds(x, y, z)
                ==> final(raw_chunk).spec_block(x, y, z) == dressed_block(old(raw_chunk)@, x, y, z),
{
    let ghost oldv = raw_chunk@;
    let mut x: u32 = 0;
    while x < CHUNK_SIZE
        invariant
            raw_chunk.wf(),
            raw_chunk@.len() == oldv.len(),
            x <= CHUNK_SIZE,
            forall|a: int, b: int, c: int|
                local_in_bounds(a, b, c) ==> #[trigger] raw_chunk@[flat_index(a, b, c)] == (
                    if a < x { dressed_block(oldv, a, b, c) } else { oldv[flat_index(a, b, c)] }),
        decreases CHUNK_SIZE - x,
    {
        let mut z: u32 = 0;
        while z < CHUNK_SIZE
            invariant
                raw_chunk.wf(),
                raw_chunk@.len() == oldv.len(),
                x < CHUNK_SIZE,
                z <= CHUNK_SIZE,
                forall|a: int, b: int, c: int|
                    local_in_bounds(a, b, c) ==> #[trigger] raw_chunk@[flat_index(a, b, c)] == (
                        if a < x || (a == x && c < z) {
                            dressed_block(oldv, a, b, c)
                        } else {
                            oldv[flat_index(a, b, c)]
                        }),
            decreases CHUNK_SIZE - z,
        {
            let mut y: u32 = 0;
            while y < CHUNK_SIZE - 1
                invariant
                    raw_chunk.wf(),
                    raw_chunk@.len() == oldv.len(),
                    x < CHUNK_SIZE,
                    z < CHUNK_SIZE,
                    y <= CHUNK_SIZE - 1,
                    forall|a: int, b: int, c: int|
                        local_in_bounds(a, b, c) ==> #[trigger] raw_chunk@[flat_index(a, b, c)]
                            == (
                            if a < x || (a == x && (c < z || (c == z && b < y))) {
                                dressed_block(oldv, a, b, c)
                            } else {
                                oldv[flat_index(a, b, c)]
                            }),
                decreases CHUNK_SIZE - 1 - y,
            {
                proof {
                    lemma_flat_index_bounds(x as int, y as int, z as int);
                    lemma_flat_index_bounds(x as int, y as int + 1, z as int);
                }
                let ghost prev = raw_chunk@;
                let ghost k = flat_index(x as int, y as int, z as int);
                let ghost ka = flat_index(x as int, y as int + 1, z as int);
                let above_air = raw_chunk
                    .get_block(VoxelPos::new(x, y + 1, z))
                    .same_ident(&BlockData::air());
                let here_base = raw_chunk
                    .get_block(VoxelPos::new(x, y, z))
                    .same_ident(&BlockData::cobblestone());
                proof {
                    assert(above_air == (prev[ka] == air_ident()));
                    assert(here_base == (prev[k] == cobblestone_ident()));
                    assert(prev[ka] == oldv[ka]);
                    assert(prev[k] == oldv[k]);
                }
                if above_air && here_base {
                    let grass = BlockData::grass();
                    raw_chunk.set_block(VoxelPos::new(x, y, z), &grass);
                }
                proof {
                    assert(raw_chunk@[k] == dressed_block(oldv, x as int, y as int, z as int));
                    assert forall|a: int, b: int, c: int|
                        local_in_bounds(a, b, c) implies #[trigger] raw_chunk@[flat_index(
                        a, b, c,
                    )] == (
                        if a < x || (a == x && (c < z || (c == z && b < y + 1))) {
                            dressed_block(oldv, a, b, c)
                        } else {
                            oldv[flat_index(a, b, c)]
                        }) by {
                        lemma_flat_index_bounds(a, b, c);
                        if flat_index(a, b, c) == k {
                            lemma_flat_index_injective(a, b, c, x as int, y as int, z as int);
                        } else {
                            assert(raw_chunk@[flat_index(a, b, c)] == prev[flat_index(a, b, c)]);
                        }
                    }
                }
                y = y + 1;
            }
            proof {
                assert forall|a: int, b: int, c: int|
                    local_in_bounds(a, b, c) implies #[trigger] raw_chunk@[flat_index(a, b, c)]
                        == (
                        if a < x || (a == x && c < z + 1) {
                            dressed_block(oldv, a, b, c)
                        } else {
                            oldv[flat_index(a, b, c)]
                        }) by {
                    lemma_flat_index_bounds(a, b, c);
                }
            }
            z = z + 1;
        }
        x = x + 1;
    }
    proof {
        assert forall|a: int, b: int, c: int|
            local_in_bounds(a, b, c) implies raw_chunk.spec_block(a, b, c) == dressed_block(
            oldv, a, b, c,
        ) by {
            lemma_flat_index_bounds(a, b, c);
            assert(raw_chunk@[flat_index(a, b, c)] == dressed_block(oldv, a, b, c));
        }
    }
}

/// Dressing a filled chunk leaves exactly the generated terrain.
proof fn lemma_dress_fill(
    pos: ChunkCoordinate, hm: Seq<i64>, v: Seq<BlockIdent>, x: int, y: int, z: int,
)
    requires
        v.len() == CHUNK_VOLUME,
        forall|a: int, b: int, c: int|
            local_in_bounds(a, b, c) ==> #[trigger] v[flat_index(a, b, c)] == fill_block(
                pos, hm, a, b, c,
            ),
        local_in_bounds(x, y, z),
    ensures
        dressed_block(v, x, y, z) == generated_block(pos, hm, x, y, z),
{
    lemma_idents_distinct();
    lemma_flat_index_bounds(x, y, z);
    assert(v[flat_index(x, y, z)] == fill_block(pos, hm, x, y, z));
    if y + 1 < CHUNK_SIZE {
        lemma_flat_index_bounds(x, y + 1, z);
        assert(v[flat_index(x, y + 1, z)] == fill_block(pos, hm, x, y + 1, z));
    }
}

/// Generates the chunk at `pos` from the column heights in `heights`: a
/// pure function of its two arguments, with no hidden state and no failure
/// mode.
pub fn generate_chunk(pos: ChunkCoordinate, heights: &HeightMap) -> (c: RawChunk)
    requires
        heights.wf(),
    ensures
        is_generated(c, pos, heights@),
{
    let mut raw_chunk = RawChunk::new();
    proof {
        assert forall|a: int, b: int, c: int|
            local_in_bounds(a, b, c) implies #[trigger] raw_chunk@[flat_index(a, b, c)]
                == air_ident() by {
            lemma_flat_index_bounds(a, b, c);
            assert(raw_chunk.spec_block(a, b, c) == air_ident());
        }
    }
    let base_y: i64 = 32i64 * (pos.y as i64);
    proof {
        assert(base_y as int == (pos.y as int) * (CHUNK_SIZE as int));
    }
    let mut x: u32 = 0;
    while x < CHUNK_SIZE
        invariant
            heights.wf(),
            raw_chunk.wf(),
            x <= CHUNK_SIZE,
            base_y as int == (pos.y as int) * (CHUNK_SIZE as int),
            -0x10_0000_0000i64 <= base_y <= 0x10_0000_0000i64,
            forall|a: int, b: int, c: int|
                local_in_bounds(a, b, c) ==> #[trigger] raw_chunk@[flat_index(a, b, c)] == (
                    if a < x { fill_block(pos, heights@, a, b, c) } else { air_ident() }),
        decreases CHUNK_SIZE - x,
    {
        let mut z: u32 = 0;
        while z < CHUNK_SIZE
            invariant
                heights.wf(),
                raw_chunk.wf(),
                x < CHUNK_SIZE,
                z <= CHUNK_SIZE,
                base_y as int == (pos.y as int) * (CHUNK_SIZE as int),
                -0x10_0000_0000i64 <= base_y <= 0x10_0000_0000i64,
                forall|a: int, b: int, c: int|
                    local_in_bounds(a, b, c) ==> #[trigger] raw_chunk@[flat_index(a, b, c)] == (
                        if a < x || (a == x && c < z) {
                            fill_block(pos, heights@, a, b, c)
                        } else {
                            air_ident()
                        }),
            decreases CHUNK_SIZE - z,
        {
            let h = heights.height(x, z);
            let mut y: u32 = 0;
            while y < CHUNK_SIZE
                invariant
                    heights.wf(),
                    raw_chunk.wf(),
                    x < CHUNK_SIZE,
                    z < CHUNK_SIZE,
                    y <= CHUNK_SIZE,
                    base_y as int == (pos.y as int) * (CHUNK_SIZE as int),
                    -0x10_0000_0000i64 <= base_y <= 0x10_0000_0000i64,
                    h as int == heights@[col_index(x as int, z as int)],
                    forall|a: int, b: int, c: int|
                        local_in_bounds(a, b, c) ==> #[trigger] raw_chunk@[flat_index(a, b, c)]
                            == (
                            if a < x || (a == x && (c < z || (c == z && b < y))) {
                                fill_block(pos, heights@, a, b, c)
                            } else {
                                air_ident()
                            }),
                decreases CHUNK_SIZE - y,
            {
                proof {
                    lemma_flat_index_bounds(x as int, y as int, z as int);
                }
                let ghost prev = raw_chunk@;
                let ghost k = flat_index(x as int, y as int, z as int);
                let full_y: i64 = y as i64 + base_y;
                let block = if full_y <= h {
                    BlockData::cobblestone()
                } else {
                    BlockData::air()
                };
                raw_chunk.set_block(VoxelPos::new(x, y, z), &block);
                proof {
                    assert(full_y as int == world_coord(pos.y as int, y as int));
                    assert(block@ == fill_block(pos, heights@, x as int, y as int, z as int));
                    assert forall|a: int, b: int, c: int|
                        local_in_bounds(a, b, c) implies #[trigger] raw_chunk@[flat_index(
                        a, b, c,
                    )] == (
                        if a < x || (a == x && (c < z || (c == z && b < y + 1))) {
                            fill_block(pos, heights@, a, b, c)
                        } else {
                            air_ident()
                        }) by {
                        lemma_flat_index_bounds(a, b, c);
                        if flat_index(a, b, c) == k {
                            lemma_flat_index_injective(a, b, c, x as int, y as int, z as int);
                        } else {
                            assert(raw_chunk@[flat_index(a, b, c)] == prev[flat_index(a, b, c)]);
                        }
                    }
                }
                y = y + 1;
            }
            z = z + 1;
        }
        x = x + 1;
    }
    let ghost fillv = raw_chunk@;
    add_grass(&mut raw_chunk);
    proof {
        assert forall|a: int, b: int, c: int|
            local_in_bounds(a, b, c) implies raw_chunk.spec_block(a, b, c) == generated_block(
            pos, heights@, a, b, c,
        ) by {
            lemma_dress_fill(pos, heights@, fillv, a, b, c);
        }
    }
    raw_chunk
}

/// Surface-dressing correctness: in a generated chunk, a column that is
/// solid up to local height `h` and air above it, with `h` strictly below
/// the topmost layer, carries grass exactly at `h` and the base material
/// everywhere below it.
pub proof fn lemma_surface_dressing(
    c: RawChunk, pos: ChunkCoordinate, hm: Seq<i64>, x: int, z: int, h: int,
)
    requires
        is_generated(c, pos, hm),
        0 <= x < CHUNK_SIZE,
        0 <= z < CHUNK_SIZE,
        0 <= h < CHUNK_SIZE - 1,
        forall|y: int| 0 <= y <= h ==> c.spec_block(x, y, z) != air_ident(),
        forall|y: int| h < y < CHUNK_SIZE ==> c.spec_block(x, y, z) == air_ident(),
    ensures
        c.spec_block(x, h, z) == grass_ident(),
        forall|y: int| 0 <= y < h ==> c.spec_block(x, y, z) == cobblestone_ident(),
{
    lemma_idents_distinct();
    let hh = hm[col_index(x, z)];
    assert(local_in_bounds(x, h, z));
    assert(local_in_bounds(x, h + 1, z));
    assert(c.spec_block(x, h, z) == generated_block(pos, hm, x, h, z));
    assert(c.spec_block(x, h + 1, z) == generated_block(pos, hm, x, h + 1, z));
    assert(world_coord(pos.y as int, h) <= hh);
    assert(world_coord(pos.y as int, h + 1) > hh);
    assert(world_coord(pos.y as int, h) == hh);
    assert forall|y: int| 0 <= y < h implies c.spec_block(x, y, z) == cobblestone_ident() by {
        assert(local_in_bounds(x, y, z));
        assert(c.spec_block(x, y, z) == generated_block(pos, hm, x, y, z));
        assert(world_coord(pos.y as int, y) < hh);
    }
}

/// Top-row exclusion: a solid voxel in the topmost layer of a generated
/// chunk is never converted to grass, since the dressing pass cannot
/// inspect a neighbour outside the chunk.
pub proof fn lemma_top_row_exclusion(
    c: RawChunk, pos: ChunkCoordinate, hm: Seq<i64>, x: int, z: int,
)
    requires
        is_generated(c, pos, hm),
        0 <= x < CHUNK_SIZE,
        0 <= z < CHUNK_SIZE,
        c.spec_block(x, CHUNK_SIZE - 1, z) != air_ident(),
    ensures
        c.spec_block(x, CHUNK_SIZE - 1, z) == cobblestone_ident(),
{
    lemma_idents_distinct();
    assert(local_in_bounds(x, CHUNK_SIZE - 1, z));
    assert(c.spec_block(x, CHUNK_SIZE - 1, z) == generated_block(
        pos, hm, x, CHUNK_SIZE - 1, z,
    ));
}

/// A chunk with no solid voxels is left unchanged by the dressing pass:
/// there is nothing to convert to grass.
pub proof fn lemma_dressing_all_air(v: Seq<BlockIdent>, x: int, y: int, z: int)
    requires
        v.len() == CHUNK_VOLUME,
        forall|i: int| 0 <= i < v.len() ==> v[i] == air_ident(),
        local_in_bounds(x, y, z),
    ensures
        dressed_block(v, x, y, z) == v[flat_index(x, y, z)],
{
    lemma_idents_distinct();
    lemma_flat_index_bounds(x, y, z);
    if y + 1 < CHUNK_SIZE {
        lemma_flat_index_bounds(x, y + 1, z);
    }
}

/// Chunk completeness over generation: every local coordinate of a
/// generated chunk holds one of the three identifiers the generator
/// writes; none is ever left undefined.
pub proof fn lemma_generated_blocks_known(
    c: RawChunk, pos: ChunkCoordinate, hm: Seq<i64>, x: int, y: int, z: int,
)
    requires
        is_generated(c, pos, hm),
        local_in_bounds(x, y, z),
    ensures
        c.spec_block(x, y, z) == air_ident() || c.spec_block(x, y, z) == cobblestone_ident()
            || c.spec_block(x, y, z) == grass_ident(),
{
}

/// Determinism: two chunks generated from the same chunk coordinate and
/// the same column heights hold identical contents, at every local
/// coordinate and as whole tables.
pub proof fn lemma_generation_deterministic(
    a: RawChunk, b: RawChunk, pos: ChunkCoordinate, hm: Seq<i64>,
)
    requires
        is_generated(a, pos, hm),
        is_generated(b, pos, hm),
    ensures
        forall|x: int, y: int, z: int|
            local_in_bounds(x, y, z) ==> a.spec_block(x, y, z) == b.spec_block(x, y, z),
        a@ =~= b@,
{
    assert forall|i: int| 0 <= i < a@.len() implies a@[i] == b@[i] by {
        lemma_flat_index_inverse(i);
        let x = i / ((CHUNK_SIZE * CHUNK_SIZE) as int);
        let y = (i % ((CHUNK_SIZE * CHUNK_SIZE) as int)) / (CHUNK_SIZE as int);
        let z = i % (CHUNK_SIZE as int);
        assert(a.spec_block(x, y, z) == b.spec_block(x, y, z));
    }
}

/// Every flat table position is the flat position of exactly one in-bounds
/// local coordinate.
pub proof fn lemma_flat_index_inverse(i: int)
    requires
        0 <= i < CHUNK_VOLUME,
    ensures
        local_in_bounds(
            i / ((CHUNK_SIZE * CHUNK_SIZE) as int),
            (i % ((CHUNK_SIZE * CHUNK_SIZE) as int)) / (CHUNK_SIZE as int),
            i % (CHUNK_SIZE as int),
        ),
        flat_index(
            i / ((CHUNK_SIZE * CHUNK_SIZE) as int),
            (i % ((CHUNK_SIZE * CHUNK_SIZE) as int)) / (CHUNK_SIZE as int),
            i % (CHUNK_SIZE as int),
        ) == i,
{
    let s = CHUNK_SIZE as int;
    let x = i / (s * s);
    let r = i % (s * s);
    let y = r / s;
    let z = i % s;
    vstd::arithmetic::div_mod::lemma_fundamental_div_mod(i, s * s);
    vstd::arithmetic::div_mod::lemma_fundamental_div_mod(r, s);
    vstd::arithmetic::div_mod::lemma_fundamental_div_mod(i, s);
    vstd::arithmetic::div_mod::lemma_mod_bound(i, s * s);
    vstd::arithmetic::div_mod::lemma_mod_bound(r, s);
    vstd::arithmetic::div_mod::lemma_mod_bound(i, s);
    assert(0 <= x < s) by (nonlinear_arith)
        requires 0 <= i < s * s * s, i == (s * s) * x + r, 0 <= r < s * s, s == 32,
    ;
    assert(0 <= y < s && r == s * y + (r % s)) by (nonlinear_arith)
        requires r == s * y + (r % s), 0 <= r % s < s, 0 <= r < s * s,
    ;
    assert(r % s == z) by (nonlinear_arith)
        requires
            i == (s * s) * x + r,
            i == s * (i / s) + z,
            0 <= z < s,
            0 <= r % s < s,
            r == s * y + (r % s),
            s == 32,
    ;
    assert(flat_index(x, y, z) == (x * s + y) * s + z);
    assert((x * s + y) * s + z == (s * s) * x + (s * y + z)) by (nonlinear_arith);
}

} // verus!
