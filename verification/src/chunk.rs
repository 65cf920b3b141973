use vstd::prelude::*;
use vstd::arithmetic::power2::pow2;
use crate::storage::{Storage, il_ok};
use crate::voxel::{BlockData, BlockModel, BlockRegistry, default_block_model, spec_is_empty};
use crate::position::RelativeVoxelPos;

verus! {

/// Edge length of a chunk, in voxels.
pub const CHUNK_SIZE: usize = 16;

/// Largest in-chunk coordinate.
pub const CHUNK_SIZE_ARR: u32 = 15;

/// Number of voxels in a chunk.
pub const TOTAL_CHUNK_SIZE: usize = 4096;

/// A capped list of item identifiers.
#[derive(Debug)]
pub struct Container {
    pub items: Vec<String>,
    pub max_size: u8,
}

/// Cell index of an in-chunk coordinate: x first, then y, then z.
pub open spec fn spec_linearize(x: int, y: int, z: int) -> int {
    x + 16 * y + 256 * z
}

/// A chunk's voxels alone, as persisted: no edit counters.
pub struct RawChunk {
    voxels: Storage,
}

impl View for RawChunk {
    type V = Seq<BlockModel>;

    closed spec fn view(&self) -> Seq<BlockModel> {
        self.voxels@
    }
}

impl RawChunk {
    pub closed spec fn wf(&self) -> bool {
        self.voxels.wf() && self.voxels.spec_len() == TOTAL_CHUNK_SIZE && self@.len()
            == TOTAL_CHUNK_SIZE
    }

    /// The persisted volume always holds exactly the chunk's 4096 cells.
    pub proof fn lemma_view_len(&self)
        requires
            self.wf(),
        ensures
            self@.len() == TOTAL_CHUNK_SIZE,
    {
    }
}

/// A 16x16x16 voxel volume with its edit counter and dirty flag.
pub struct ChunkData {
    voxels: Storage,
    change_count: u16,
    dirty: bool,
}

impl View for ChunkData {
    type V = Seq<BlockModel>;

    closed spec fn view(&self) -> Seq<BlockModel> {
        self.voxels@
    }
}

impl Default for ChunkData {
    /// A fresh chunk: uniformly the default voxel, no edits yet, and marked
    /// dirty so that a first mesh gets built.
    fn default() -> (res: Self)
        ensures
            res.wf(),
            res@.len() == TOTAL_CHUNK_SIZE,
            forall|k: int| 0 <= k < TOTAL_CHUNK_SIZE ==> res@[k] == default_block_model(),
            res.is_uniform_spec(),
            res.spec_change_count() == 0,
            res.spec_dirty(),
    {
        ChunkData { voxels: Storage::new(TOTAL_CHUNK_SIZE), change_count: 0, dirty: true }
    }
}

impl Clone for ChunkData {
    fn clone(&self) -> (res: Self)
        ensures
            self.wf() ==> res.wf() && res@ == self@,
            res.spec_change_count() == self.spec_change_count(),
            res.spec_dirty() == self.spec_dirty(),
            res.is_uniform_spec() == self.is_uniform_spec(),
    {
        ChunkData {
            voxels: self.voxels.clone(),
            change_count: self.change_count,
            dirty: self.dirty,
        }
    }
}

impl ChunkData {
    pub closed spec fn wf(&self) -> bool {
        &&& self.voxels.wf()
        &&& self.voxels.spec_len() == TOTAL_CHUNK_SIZE
        &&& self@.len() == TOTAL_CHUNK_SIZE
        &&& self.change_count <= 500
    }

    /// Total of the palette's reference counts.
    pub closed spec fn palette_ref_sum(&self) -> int {
        self.voxels.palette_ref_sum()
    }

    /// Number of palette slots the storage holds.
    pub closed spec fn spec_palette_len(&self) -> int {
        self.voxels.spec_palette_len()
    }

    /// Bit width of the packed palette indices.
    pub closed spec fn spec_indices_length(&self) -> int {
        self.voxels.spec_indices_length()
    }

    /// Palette capacity at the current index width.
    pub closed spec fn spec_capacity(&self) -> int {
        self.voxels.spec_capacity()
    }

    pub closed spec fn spec_change_count(&self) -> int {
        self.change_count as int
    }

    pub closed spec fn spec_dirty(&self) -> bool {
        self.dirty
    }

    pub closed spec fn is_uniform_spec(&self) -> bool {
        self.voxels.is_uniform()
    }

    /// Whether the storage is in its compact shape.
    pub closed spec fn trimmed(&self) -> bool {
        self.voxels.trimmed()
    }

    /// Cell index of an in-chunk position.
    pub fn linearize(pos: RelativeVoxelPos) -> (r: usize)
        requires
            pos.x < 16,
            pos.y < 16,
            pos.z < 16,
        ensures
            r == spec_linearize(pos.x as int, pos.y as int, pos.z as int),
            r < TOTAL_CHUNK_SIZE,
    {
        pos.x as usize + 16 * (pos.y as usize) + 256 * (pos.z as usize)
    }

    /// In-chunk position of a cell index.
    pub fn delinearize(idx: usize) -> (r: RelativeVoxelPos)
        requires
            idx < TOTAL_CHUNK_SIZE,
        ensures
            r.x < 16,
            r.y < 16,
            r.z < 16,
            spec_linearize(r.x as int, r.y as int, r.z as int) == idx,
    {
        RelativeVoxelPos {
            x: (idx % 16) as u32,
            y: ((idx / 16) % 16) as u32,
            z: (idx / 256) as u32,
        }
    }

    /// The voxel at `pos`.
    pub fn get(&self, pos: RelativeVoxelPos) -> (r: BlockData)
        requires
            self.wf(),
            pos.x < 16,
            pos.y < 16,
            pos.z < 16,
        ensures
            r@ == self@[spec_linearize(pos.x as int, pos.y as int, pos.z as int)],
    {
        self.voxels.get(Self::linearize(pos))
    }

    /// The identifier of the voxel at `pos`.
    pub fn get_identifier(&self, pos: RelativeVoxelPos) -> (r: String)
        requires
            self.wf(),
            pos.x < 16,
            pos.y < 16,
            pos.z < 16,
        ensures
            r@ == self@[spec_linearize(pos.x as int, pos.y as int, pos.z as int)].identifier,
    {
        let voxel = self.voxels.get(Self::linearize(pos));
        voxel.identifier
    }

    /// Write `voxel` at `pos`, count the edit, and mark the chunk dirty;
    /// every 500 edits the storage is trimmed and the counter reset.
    pub fn set(&mut self, pos: RelativeVoxelPos, voxel: BlockData)
        requires
            old(self).wf(),
            pos.x < 16,
            pos.y < 16,
            pos.z < 16,
        ensures
            final(self).wf(),
            final(self)@ == old(self)@.update(
                spec_linearize(pos.x as int, pos.y as int, pos.z as int),
                voxel@,
            ),
            final(self).spec_dirty(),
            final(self).spec_change_count() == if old(self).spec_change_count() + 1 > 500 {
                0int
            } else {
                old(self).spec_change_count() + 1
            },
            old(self).spec_change_count() + 1 > 500 ==> final(self).trimmed(),
            old(self).is_uniform_spec() && voxel@ != old(self)@[spec_linearize(
                pos.x as int,
                pos.y as int,
                pos.z as int,
            )] ==> !final(self).is_uniform_spec() && final(self).spec_palette_len() == 2,
            old(self).spec_change_count() + 1 <= 500 && old(self).is_uniform_spec() && voxel@
                != old(self)@[spec_linearize(pos.x as int, pos.y as int, pos.z as int)]
                ==> final(self).spec_indices_length() == 2,
            old(self).spec_change_count() + 1 <= 500 && !old(self).is_uniform_spec() ==> old(
                self,
            ).spec_palette_len() <= final(self).spec_palette_len() <= old(self).spec_palette_len()
                + 1,
            old(self).spec_change_count() + 1 <= 500 && !old(self).is_uniform_spec()
                ==> final(self).spec_indices_length() == (if final(self).spec_palette_len() == old(
                self,
            ).spec_palette_len() + 1 && old(self).spec_palette_len() == old(self).spec_capacity() {
                2 * old(self).spec_indices_length()
            } else {
                old(self).spec_indices_length()
            }),
    {
        self.voxels.set(Self::linearize(pos), voxel);
        self.change_count = self.change_count + 1;
        self.dirty = true;
        if self.change_count > 500 {
            proof {
                if old(self).is_uniform_spec() {
                    assert(self.voxels.trimmed());
                }
            }
            self.voxels.trim();
            self.change_count = 0;
        }
    }

    /// Whether every cell currently shares one stored voxel value.
    pub fn is_uniform(&self) -> (r: bool)
        ensures
            r == self.is_uniform_spec(),
    {
        match self.voxels {
            Storage::Single(_) => true,
            Storage::Multi(_) => false,
        }
    }

    /// Uniform and holding a voxel the registry calls empty.
    pub fn is_empty(&self, registry: Option<&BlockRegistry>) -> (r: bool)
        requires
            self.wf(),
        ensures
            r == (self.is_uniform_spec() && spec_is_empty(self@[0].identifier, registry)),
    {
        if !self.is_uniform() {
            return false;
        }
        let voxel = self.get(RelativeVoxelPos::new(0, 0, 0));
        crate::voxel::Voxel::is_empty(&voxel, registry)
    }

    pub fn is_dirty(&self) -> (r: bool)
        ensures
            r == self.spec_dirty(),
    {
        self.dirty
    }

    pub fn set_dirty(&mut self, dirty: bool)
        ensures
            final(self).spec_dirty() == dirty,
            final(self)@ == old(self)@,
            final(self).spec_change_count() == old(self).spec_change_count(),
            final(self).is_uniform_spec() == old(self).is_uniform_spec(),
            final(self).trimmed() == old(self).trimmed(),
            final(self).wf() == old(self).wf(),
            final(self).palette_ref_sum() == old(self).palette_ref_sum(),
    {
        self.dirty = dirty;
    }

    /// Collapse a one-entry palette back to single storage; no observable
    /// voxel changes, and already-trimmed storage is left exactly as it is.
    pub fn trim(&mut self)
        requires
            old(self).wf(),
        ensures
            final(self).wf(),
            final(self)@ == old(self)@,
            final(self).trimmed(),
            old(self).trimmed() ==> *final(self) == *old(self),
            !old(self).trimmed() ==> final(self).is_uniform_spec(),
            final(self).spec_change_count() == old(self).spec_change_count(),
            final(self).spec_dirty() == old(self).spec_dirty(),
    {
        self.voxels.trim();
    }

    /// Number of voxels in a chunk.
    pub fn size() -> (r: u32)
        ensures
            r == TOTAL_CHUNK_SIZE,
    {
        TOTAL_CHUNK_SIZE as u32
    }

    /// Number of voxels in a chunk, as a plain count.
    pub fn usize() -> (r: usize)
        ensures
            r == TOTAL_CHUNK_SIZE,
    {
        TOTAL_CHUNK_SIZE
    }

    /// Edge length of a chunk.
    pub fn edge() -> (r: usize)
        ensures
            r == CHUNK_SIZE,
    {
        CHUNK_SIZE
    }

    /// Re-attach edit counters to persisted voxels: the restored chunk is
    /// clean and uncounted.
    pub fn from_raw(raw_chunk: RawChunk) -> (r: Self)
        ensures
            r@ == raw_chunk@,
            raw_chunk.wf() ==> r.wf(),
            r.spec_change_count() == 0,
            !r.spec_dirty(),
    {
        ChunkData { voxels: raw_chunk.voxels, change_count: 0, dirty: false }
    }

    /// Strip the edit counters for persistence; the voxels are unchanged.
    pub fn to_raw(&self) -> (r: RawChunk)
        requires
            self.wf(),
        ensures
            r@ == self@,
            r.wf(),
    {
        RawChunk { voxels: self.voxels.clone() }
    }

    /// Number of palette slots the storage holds.
    pub fn palette_len(&self) -> (r: usize)
        ensures
            r == self.spec_palette_len(),
    {
        self.voxels.palette_len()
    }

    /// Bit width of the packed palette indices.
    pub fn indices_length(&self) -> (r: usize)
        ensures
            r == self.spec_indices_length(),
    {
        self.voxels.indices_length()
    }

    /// Palette capacity at the current index width.
    pub fn palette_capacity(&self) -> (r: usize)
        ensures
            r == self.spec_capacity(),
    {
        self.voxels.palette_capacity()
    }

    /// The sum of all palette reference counts, computed; under
    /// well-formedness it equals the chunk volume.
    pub fn ref_count_total(&self) -> (r: usize)
        requires
            self.wf(),
        ensures
            r == self.palette_ref_sum(),
            r == TOTAL_CHUNK_SIZE,
    {
        self.voxels.ref_count_total()
    }

    /// The observable volume always holds exactly the chunk's 4096 cells.
    pub proof fn lemma_view_len(&self)
        requires
            self.wf(),
        ensures
            self@.len() == TOTAL_CHUNK_SIZE,
    {
    }

    /// The growth law, at the chunk level: the palette capacity is exactly
    /// two to the index width, the palette fits in it, the width is one of
    /// the doubling chain, and no narrower width of that chain would hold
    /// the palette.
    pub proof fn lemma_growth_stable(&self)
        requires
            self.wf(),
            !self.is_uniform_spec(),
        ensures
            self.spec_capacity() == pow2(self.spec_indices_length() as nat),
            self.spec_palette_len() <= self.spec_capacity(),
            il_ok(self.spec_indices_length()),
            forall|l: int|
                il_ok(l) && l < self.spec_indices_length() ==> pow2(l as nat)
                    < self.spec_palette_len(),
    {
        self.voxels.lemma_growth_stable();
    }

    /// Palette reference counts conserve the volume: across any sequence of
    /// edits they always sum to the chunk's 4096 cells.
    pub proof fn lemma_refcount_conservation(&self)
        requires
            self.wf(),
        ensures
            self.palette_ref_sum() == TOTAL_CHUNK_SIZE,
    {
        self.voxels.lemma_refcount_conservation();
    }
}

/// Persisting a chunk and re-attaching the counters preserves every voxel:
/// the two steps each keep the volume, so their composition does.
pub proof fn lemma_raw_round_trip(c: &ChunkData, raw: &RawChunk, restored: &ChunkData)
    requires
        raw@ == c@,
        restored@ == raw@,
    ensures
        forall|k: int| 0 <= k < c@.len() ==> restored@[k] == c@[k],
{
}

} // verus!
