//! Dense per-chunk block table: a fixed-size 3D array of namespaced block
//! identifiers, indexed by local voxel coordinates.

use vstd::prelude::*;

verus! {

/// Number of voxels along each axis of a chunk.
pub const CHUNK_SIZE: u32 = 32;

/// Number of voxels in a whole chunk.
pub const CHUNK_VOLUME: u32 = CHUNK_SIZE * CHUNK_SIZE * CHUNK_SIZE;

/// Local position of one voxel inside a chunk; each axis lies in
/// `[0, CHUNK_SIZE)`.
#[derive(Clone, Copy, PartialEq, Eq, Structural, Debug)]
pub struct VoxelPos {
    pub x: u32,
    pub y: u32,
    pub z: u32,
}

impl VoxelPos {
    /// Each axis lies inside the chunk.
    pub open spec fn in_bounds(self) -> bool {
        self.x < CHUNK_SIZE && self.y < CHUNK_SIZE && self.z < CHUNK_SIZE
    }

    pub fn new(x: u32, y: u32, z: u32) -> (p: VoxelPos)
        ensures
            p == (VoxelPos { x, y, z }),
    {
        VoxelPos { x, y, z }
    }
}

/// The mathematical value of one stored block: its namespace and name as
/// character sequences.
pub ghost struct BlockIdent {
    pub namespace: Seq<char>,
    pub name: Seq<char>,
}

impl BlockIdent {
    /// The canonical `"namespace:name"` rendering.
    pub open spec fn canonical(self) -> Seq<char> {
        self.namespace + ":"@ + self.name
    }
}

/// The reserved empty/default block.
pub open spec fn air_ident() -> BlockIdent {
    BlockIdent { namespace: "vinox"@, name: "air"@ }
}

/// The base solid material the terrain generator fills with.
pub open spec fn cobblestone_ident() -> BlockIdent {
    BlockIdent { namespace: "vinox"@, name: "cobblestone"@ }
}

/// The surface material the dressing pass converts exposed solids to.
pub open spec fn grass_ident() -> BlockIdent {
    BlockIdent { namespace: "vinox"@, name: "grass"@ }
}

/// One voxel's stored value: a namespaced block identifier.
#[derive(Debug)]
pub struct BlockData {
    pub namespace: String,
    pub name: String,
}

impl View for BlockData {
    type V = BlockIdent;

    open spec fn view(&self) -> BlockIdent {
        BlockIdent { namespace: self.namespace@, name: self.name@ }
    }
}

impl Clone for BlockData {
    fn clone(&self) -> (b: BlockData)
        ensures
            b@ == self@,
    {
        BlockData { namespace: self.namespace.clone(), name: self.name.clone() }
    }
}

impl BlockData {
    pub fn new(namespace: String, name: String) -> (b: BlockData)
        ensures
            b@ == (BlockIdent { namespace: namespace@, name: name@ }),
    {
        BlockData { namespace, name }
    }

    /// The default block, `"vinox:air"`.
    pub fn air() -> (b: BlockData)
        ensures
            b@ == air_ident(),
    {
        BlockData { namespace: "vinox".to_owned(), name: "air".to_owned() }
    }

    /// The base solid block, `"vinox:cobblestone"`.
    pub fn cobblestone() -> (b: BlockData)
        ensures
            b@ == cobblestone_ident(),
    {
        BlockData { namespace: "vinox".to_owned(), name: "cobblestone".to_owned() }
    }

    /// The canonical `"namespace:name"` rendering of this block's
    /// identifier.
    pub fn identifier(&self) -> (s: String)
        ensures
            s@ == self@.canonical(),
    {
        let mut s = self.namespace.clone();
        s.append(":");
        s.append(self.name.as_str());
        s
    }

    /// Whether this block stores the same identifier as `other`; identifier
    /// equality is exact pair equality.
    pub fn same_ident(&self, other: &BlockData) -> (r: bool)
        ensures
            r == (self@ == other@),
    {
        let ns_eq: bool = self.namespace == other.namespace;
        let nm_eq: bool = self.name == other.name;
        ns_eq && nm_eq
    }

    /// The surface block, `"vinox:grass"`.
    pub fn grass() -> (b: BlockData)
        ensures
            b@ == grass_ident(),
    {
        BlockData { namespace: "vinox".to_owned(), name: "grass".to_owned() }
    }
}

/// Position of a voxel in the flat block table: x-major, then y, then z.
pub open spec fn flat_index(x: int, y: int, z: int) -> int {
    (x * (CHUNK_SIZE as int) + y) * (CHUNK_SIZE as int) + z
}

/// Each axis of the local coordinate lies in `[0, CHUNK_SIZE)`.
pub open spec fn local_in_bounds(x: int, y: int, z: int) -> bool {
    0 <= x < CHUNK_SIZE && 0 <= y < CHUNK_SIZE && 0 <= z < CHUNK_SIZE
}

/// Dense fixed-size block table of one chunk. Every local coordinate holds
/// exactly one block value; a fresh chunk is fully populated with air.
pub struct RawChunk {
    blocks: Vec<BlockData>,
}

impl View for RawChunk {
    type V = Seq<BlockIdent>;

    closed spec fn view(&self) -> Seq<BlockIdent> {
        self.blocks@.map_values(|b: BlockData| b@)
    }
}

impl RawChunk {
    /// The table holds one block value for every local coordinate.
    pub open spec fn wf(self) -> bool {
        self@.len() == CHUNK_VOLUME
    }

    /// The identifier stored at local coordinate `(x, y, z)`.
    pub open spec fn spec_block(self, x: int, y: int, z: int) -> BlockIdent {
        self@[flat_index(x, y, z)]
    }

    /// A chunk with every local coordinate set to the default block (air).
    pub fn new() -> (c: RawChunk)
        ensures
            c.wf(),
            forall|x: int, y: int, z: int|
                0 <= x < CHUNK_SIZE && 0 <= y < CHUNK_SIZE && 0 <= z < CHUNK_SIZE
                    ==> c.spec_block(x, y, z) == air_ident(),
    {
        let mut blocks: Vec<BlockData> = Vec::new();
        let mut i: u32 = 0;
        while i < CHUNK_VOLUME
            invariant
                i <= CHUNK_VOLUME,
                blocks@.len() == i,
                forall|j: int| 0 <= j < i ==> blocks@[j]@ == air_ident(),
            decreases CHUNK_VOLUME - i,
        {
            blocks.push(BlockData::air());
            i = i + 1;
        }
        let c = RawChunk { blocks };
        proof {
            assert forall|x: int, y: int, z: int|
                0 <= x < CHUNK_SIZE && 0 <= y < CHUNK_SIZE && 0 <= z < CHUNK_SIZE
                    implies c.spec_block(x, y, z) == air_ident() by {
                lemma_flat_index_bounds(x, y, z);
            }
        }
        c
    }

    /// A reference to the stored value at `pos`.
    pub fn get_block(&self, pos: VoxelPos) -> (b: &BlockData)
        requires
            self.wf(),
            pos.in_bounds(),
        ensures
            b@ == self.spec_block(pos.x as int, pos.y as int, pos.z as int),
    {
        let idx: usize = ((pos.x * CHUNK_SIZE + pos.y) * CHUNK_SIZE + pos.z) as usize;
        proof {
            lemma_flat_index_bounds(pos.x as int, pos.y as int, pos.z as int);
        }
        &self.blocks[idx]
    }

    /// The canonical `"namespace:name"` identifier of the block at `pos`.
    pub fn get_identifier(&self, pos: VoxelPos) -> (s: String)
        requires
            self.wf(),
            pos.in_bounds(),
        ensures
            s@ == self.spec_block(pos.x as int, pos.y as int, pos.z as int).canonical(),
    {
        self.get_block(pos).identifier()
    }

    /// A reference to the stored value at flat table position `i`; the
    /// table is ordered x-major, then y, then z.
    pub fn get_block_at(&self, i: usize) -> (b: &BlockData)
        requires
            self.wf(),
            i < CHUNK_VOLUME,
        ensures
            b@ == self@[i as int],
    {
        &self.blocks[i]
    }

    /// Overwrites the stored value at `pos` with a copy of `block`.
    pub fn set_block(&mut self, pos: VoxelPos, block: &BlockData)
        requires
            old(self).wf(),
            pos.in_bounds(),
        ensures
            final(self).wf(),
            final(self)@ == old(self)@.update(
                flat_index(pos.x as int, pos.y as int, pos.z as int),
                block@,
            ),
    {
        let idx: usize = ((pos.x * CHUNK_SIZE + pos.y) * CHUNK_SIZE + pos.z) as usize;
        proof {
            lemma_flat_index_bounds(pos.x as int, pos.y as int, pos.z as int);
        }
        self.blocks[idx] = block.clone();
        proof {
            assert(self@ =~= old(self)@.update(
                flat_index(pos.x as int, pos.y as int, pos.z as int),
                block@,
            ));
        }
    }
}

/// For in-bounds coordinates the flat position lies inside the table.
pub proof fn lemma_flat_index_bounds(x: int, y: int, z: int)
    requires
        local_in_bounds(x, y, z),
    ensures
        0 <= flat_index(x, y, z) < CHUNK_VOLUME,
{
}

/// No two in-bounds coordinates share a flat position.
pub proof fn lemma_flat_index_injective(
    x1: int, y1: int, z1: int,
    x2: int, y2: int, z2: int,
)
    requires
        local_in_bounds(x1, y1, z1),
        local_in_bounds(x2, y2, z2),
        flat_index(x1, y1, z1) == flat_index(x2, y2, z2),
    ensures
        x1 == x2 && y1 == y2 && z1 == z2,
{
}

} // verus!

