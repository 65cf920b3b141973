use vstd::prelude::*;
use crate::chunk::CHUNK_SIZE;

verus! {

/// Position of a chunk in the world, in chunk units.
#[derive(Debug, Clone, Copy, PartialEq, Eq, Structural, Hash)]
pub struct ChunkPos {
    pub x: i32,
    pub y: i32,
    pub z: i32,
}

/// Position of a voxel in the world, in voxel units.
#[derive(Debug, Clone, Copy, PartialEq, Eq, Structural, Hash)]
pub struct VoxelPos {
    pub x: i32,
    pub y: i32,
    pub z: i32,
}

/// Position of a voxel within its chunk; each coordinate lies in `[0, 16)`.
#[derive(Debug, Clone, Copy, PartialEq, Eq, Structural, Hash)]
pub struct RelativeVoxelPos {
    pub x: u32,
    pub y: u32,
    pub z: u32,
}

/// The chunk that holds world coordinate `v`: floor division, so negative
/// coordinates map to negative chunks.
pub open spec fn spec_chunk_coord(v: int) -> int {
    v / 16
}

/// Where world coordinate `v` falls inside its chunk: the Euclidean
/// remainder, always in `[0, 16)`.
pub open spec fn spec_rel_coord(v: int) -> int {
    v % 16
}

/// The offset of the `k`-th entry of `ChunkPos::neighbors`: the 26 offsets
/// `{-1,0,1}^3` without the origin, in lexicographic order.
pub open spec fn neighbor_offset(k: int) -> (int, int, int) {
    let n = if k >= 13 {
        k + 1
    } else {
        k
    };
    (n / 9 - 1, (n / 3) % 3 - 1, n % 3 - 1)
}

impl ChunkPos {
    pub fn new(x: i32, y: i32, z: i32) -> (r: Self)
        ensures
            r == (ChunkPos { x, y, z }),
    {
        ChunkPos { x, y, z }
    }

    /// The 26 surrounding chunk positions, in lexicographic order of their
    /// offsets.
    pub fn neighbors(&self) -> (r: Vec<ChunkPos>)
        requires
            i32::MIN < self.x < i32::MAX,
            i32::MIN < self.y < i32::MAX,
            i32::MIN < self.z < i32::MAX,
        ensures
            r@.len() == 26,
            forall|k: int|
                0 <= k < 26 ==> #[trigger] r@[k] == (ChunkPos {
                    x: (self.x + neighbor_offset(k).0) as i32,
                    y: (self.y + neighbor_offset(k).1) as i32,
                    z: (self.z + neighbor_offset(k).2) as i32,
                }),
    {
        let ChunkPos { x, y, z } = *self;
        let mut r: Vec<ChunkPos> = Vec::new();
        let mut dx: i32 = -1;
        while dx <= 1
            invariant
                i32::MIN < x < i32::MAX,
                i32::MIN < y < i32::MAX,
                i32::MIN < z < i32::MAX,
                x == self.x && y == self.y && z == self.z,
                -1 <= dx <= 2,
                r@.len() == if dx == -1 {
                    0int
                } else {
                    9 * (dx + 1) - (if dx >= 1 {
                        1int
                    } else {
                        0int
                    })
                },
                forall|k: int|
                    0 <= k < r@.len() ==> #[trigger] r@[k] == (ChunkPos {
                        x: (x + neighbor_offset(k).0) as i32,
                        y: (y + neighbor_offset(k).1) as i32,
                        z: (z + neighbor_offset(k).2) as i32,
                    }),
            decreases 2 - dx,
        {
            let mut dy: i32 = -1;
            while dy <= 1
                invariant
                    i32::MIN < x < i32::MAX,
                    i32::MIN < y < i32::MAX,
                    i32::MIN < z < i32::MAX,
                    x == self.x && y == self.y && z == self.z,
                    -1 <= dx <= 1,
                    -1 <= dy <= 2,
                    r@.len() == 9 * (dx + 1) + 3 * (dy + 1) - (if dx > 0 || (dx == 0 && dy > 0) {
                        1int
                    } else {
                        0int
                    }),
                    forall|k: int|
                        0 <= k < r@.len() ==> #[trigger] r@[k] == (ChunkPos {
                            x: (x + neighbor_offset(k).0) as i32,
                            y: (y + neighbor_offset(k).1) as i32,
                            z: (z + neighbor_offset(k).2) as i32,
                        }),
                decreases 2 - dy,
            {
                let mut dz: i32 = -1;
                while dz <= 1
                    invariant
                        i32::MIN < x < i32::MAX,
                        i32::MIN < y < i32::MAX,
                        i32::MIN < z < i32::MAX,
                        x == self.x && y == self.y && z == self.z,
                        -1 <= dx <= 1,
                        -1 <= dy <= 1,
                        -1 <= dz <= 2,
                        r@.len() == 9 * (dx + 1) + 3 * (dy + 1) + (dz + 1) - (if dx > 0 || (dx == 0
                            && dy > 0) || (dx == 0 && dy == 0 && dz > 0) {
                            1int
                        } else {
                            0int
                        }),
                        forall|k: int|
                            0 <= k < r@.len() ==> #[trigger] r@[k] == (ChunkPos {
                                x: (x + neighbor_offset(k).0) as i32,
                                y: (y + neighbor_offset(k).1) as i32,
                                z: (z + neighbor_offset(k).2) as i32,
                            }),
                    decreases 2 - dz,
                {
                    if !(dx == 0 && dy == 0 && dz == 0) {
                        r.push(ChunkPos { x: x + dx, y: y + dy, z: z + dz });
                    }
                    dz = dz + 1;
                }
                dy = dy + 1;
            }
            dx = dx + 1;
        }
        r
    }
}

impl VoxelPos {
    pub fn new(x: i32, y: i32, z: i32) -> (r: Self)
        ensures
            r == (VoxelPos { x, y, z }),
    {
        VoxelPos { x, y, z }
    }

    /// Split a world position into its in-chunk offset and its chunk.
    pub fn to_offsets(&self) -> (r: (RelativeVoxelPos, ChunkPos))
        ensures
            r.0.x == spec_rel_coord(self.x as int),
            r.0.y == spec_rel_coord(self.y as int),
            r.0.z == spec_rel_coord(self.z as int),
            r.1.x == spec_chunk_coord(self.x as int),
            r.1.y == spec_chunk_coord(self.y as int),
            r.1.z == spec_chunk_coord(self.z as int),
    {
        (RelativeVoxelPos::from(*self), ChunkPos::from(*self))
    }
}

impl RelativeVoxelPos {
    pub fn new(x: u32, y: u32, z: u32) -> (r: Self)
        ensures
            r == (RelativeVoxelPos { x, y, z }),
    {
        RelativeVoxelPos { x, y, z }
    }
}

impl From<VoxelPos> for ChunkPos {
    /// The chunk containing a world position, by floor division.
    fn from(item: VoxelPos) -> (r: Self) {
        let cs = CHUNK_SIZE as i32;
        ChunkPos {
            x: item.x.checked_div_euclid(cs).unwrap(),
            y: item.y.checked_div_euclid(cs).unwrap(),
            z: item.z.checked_div_euclid(cs).unwrap(),
        }
    }
}

impl vstd::std_specs::convert::FromSpecImpl<VoxelPos> for ChunkPos {
    open spec fn obeys_from_spec() -> bool {
        true
    }

    open spec fn from_spec(item: VoxelPos) -> Self {
        ChunkPos {
            x: spec_chunk_coord(item.x as int) as i32,
            y: spec_chunk_coord(item.y as int) as i32,
            z: spec_chunk_coord(item.z as int) as i32,
        }
    }
}

impl From<VoxelPos> for RelativeVoxelPos {
    /// Where a world position falls inside its chunk, by Euclidean
    /// remainder.
    fn from(item: VoxelPos) -> (r: Self) {
        let cs = CHUNK_SIZE as i32;
        RelativeVoxelPos {
            x: item.x.checked_rem_euclid(cs).unwrap() as u32,
            y: item.y.checked_rem_euclid(cs).unwrap() as u32,
            z: item.z.checked_rem_euclid(cs).unwrap() as u32,
        }
    }
}

impl vstd::std_specs::convert::FromSpecImpl<VoxelPos> for RelativeVoxelPos {
    open spec fn obeys_from_spec() -> bool {
        true
    }

    open spec fn from_spec(item: VoxelPos) -> Self {
        RelativeVoxelPos {
            x: spec_rel_coord(item.x as int) as u32,
            y: spec_rel_coord(item.y as int) as u32,
            z: spec_rel_coord(item.z as int) as u32,
        }
    }
}

impl From<(RelativeVoxelPos, ChunkPos)> for VoxelPos {
    /// The world position of an in-chunk offset of a given chunk.
    fn from(item: (RelativeVoxelPos, ChunkPos)) -> (r: Self) {
        let (rel, chunk) = item;
        VoxelPos {
            x: ((chunk.x as i64) * 16 + rel.x as i64) as i32,
            y: ((chunk.y as i64) * 16 + rel.y as i64) as i32,
            z: ((chunk.z as i64) * 16 + rel.z as i64) as i32,
        }
    }
}

impl vstd::std_specs::convert::FromSpecImpl<(RelativeVoxelPos, ChunkPos)> for VoxelPos {
    open spec fn obeys_from_spec() -> bool {
        true
    }

    open spec fn from_spec(item: (RelativeVoxelPos, ChunkPos)) -> Self {
        VoxelPos {
            x: (item.1.x as int * 16 + item.0.x as int) as i32,
            y: (item.1.y as int * 16 + item.0.y as int) as i32,
            z: (item.1.z as int * 16 + item.0.z as int) as i32,
        }
    }
}

/// Splitting a world position and reassembling it gives the position back,
/// whenever the reassembled value is representable.
pub proof fn lemma_offsets_round_trip(v: VoxelPos)
    ensures
        spec_chunk_coord(v.x as int) * 16 + spec_rel_coord(v.x as int) == v.x as int,
        spec_chunk_coord(v.y as int) * 16 + spec_rel_coord(v.y as int) == v.y as int,
        spec_chunk_coord(v.z as int) * 16 + spec_rel_coord(v.z as int) == v.z as int,
        0 <= spec_rel_coord(v.x as int) < 16,
        0 <= spec_rel_coord(v.y as int) < 16,
        0 <= spec_rel_coord(v.z as int) < 16,
{
}

} // verus!
