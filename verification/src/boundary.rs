use vstd::prelude::*;
use crate::chunk::{ChunkData, spec_linearize, CHUNK_SIZE};
use crate::geometry::{BlockGeo, Geometry, GeometryRegistry, trim_geo_identifier, spec_trim_geo_identifier};
use crate::voxel::{AssetRegistry, BlockData, BlockModel, BlockRegistry, UVRect, VoxelVisibility, spec_block_geo_namespace};

verus! {

/// Edge length of the padded stencil: a chunk plus one voxel on each side.
pub const BOUNDARY_EDGE: usize = 18;

/// Number of cells in the padded stencil.
pub const BOUNDARY_SIZE: usize = 5832;

/// The distinct block shapes a boundary's cells refer to, interned by
/// shape equality.
pub struct GeoPalette {
    pub palette: Vec<BlockGeo>,
}

impl Default for GeoPalette {
    fn default() -> (res: Self)
        ensures
            res.palette@.len() == 0,
    {
        GeoPalette { palette: Vec::new() }
    }
}

/// The distinct trimmed identifiers a boundary's cells refer to, interned
/// by string equality.
pub struct BlockMatches {
    pub matches: Vec<String>,
}

impl Default for BlockMatches {
    fn default() -> (res: Self)
        ensures
            res.matches@.len() == 0,
    {
        BlockMatches { matches: Vec::new() }
    }
}

/// One stencil cell, precomputed for rendering.
#[derive(Debug, PartialEq, Clone, Copy)]
pub struct RenderedBlockData {
    pub geo_index: Option<usize>,
    pub match_index: usize,
    pub visibility: VoxelVisibility,
    pub textures: Option<[UVRect; 6]>,
    pub blocks: [bool; 6],
    pub blocks_self: Option<[bool; 6]>,
    pub light: Option<u8>,
}

/// The cell of a voxel without a geometry lookup: invisible and ignored by
/// the mesher.
pub open spec fn default_rend() -> RenderedBlockData {
    RenderedBlockData {
        geo_index: None,
        match_index: 0,
        visibility: VoxelVisibility::Empty,
        textures: None,
        blocks: [false, false, false, false, false, false],
        blocks_self: None,
        light: None,
    }
}

impl Default for RenderedBlockData {
    fn default() -> (res: Self)
        ensures
            res == default_rend(),
    {
        let res = RenderedBlockData {
            geo_index: None,
            match_index: 0,
            visibility: VoxelVisibility::Empty,
            textures: None,
            blocks: [false, false, false, false, false, false],
            blocks_self: None,
            light: None,
        };
        proof {
            assert(res.blocks =~= default_rend().blocks);
        }
        res
    }
}

/// The geometry a voxel identifier resolves to: its block entry's declared
/// shape namespace looked up in the geometry registry.
pub open spec fn spec_geo_lookup(
    geo_registry: &GeometryRegistry,
    vox_registry: &BlockRegistry,
    id: Seq<char>,
) -> Option<Geometry> {
    match vox_registry.spec_get(id) {
        Some(block) => geo_registry.spec_get(spec_block_geo_namespace(block)),
        None => None,
    }
}

/// The visibility a voxel identifier resolves to; unregistered or
/// undeclared voxels count as empty.
pub open spec fn spec_visibility_lookup(vox_registry: &BlockRegistry, id: Seq<char>) -> VoxelVisibility {
    match vox_registry.spec_get(id) {
        Some(block) => match block.visibility {
            Some(v) => v,
            None => VoxelVisibility::Empty,
        },
        None => VoxelVisibility::Empty,
    }
}

/// No two interned shapes are equal.
pub open spec fn geo_pal_distinct(pal: Seq<BlockGeo>) -> bool {
    forall|j1: int, j2: int|
        0 <= j1 < pal.len() && 0 <= j2 < pal.len() && j1 != j2 ==> #[trigger] pal[j1]@
            != #[trigger] pal[j2]@
}

/// No two interned identifiers are equal.
pub open spec fn matches_distinct(ms: Seq<String>) -> bool {
    forall|j1: int, j2: int|
        0 <= j1 < ms.len() && 0 <= j2 < ms.len() && j1 != j2 ==> #[trigger] ms[j1]@
            != #[trigger] ms[j2]@
}

/// What one rendered cell must hold for the voxel model it was built from,
/// against the final interning palettes.
pub open spec fn rendered_cell_ok(
    cell: RenderedBlockData,
    vm: BlockModel,
    geo_registry: &GeometryRegistry,
    vox_registry: &BlockRegistry,
    asset_registry: &AssetRegistry,
    pal: Seq<BlockGeo>,
    ms: Seq<String>,
) -> bool {
    match spec_geo_lookup(geo_registry, vox_registry, vm.identifier) {
        None => cell == default_rend(),
        Some(geometry) => {
            &&& cell.geo_index is Some
            &&& cell.geo_index.unwrap() < pal.len()
            &&& pal[cell.geo_index.unwrap() as int]@ == geometry.element@
            &&& cell.match_index < ms.len()
            &&& ms[cell.match_index as int]@ == spec_trim_geo_identifier(vm.identifier)
            &&& cell.visibility == spec_visibility_lookup(vox_registry, vm.identifier)
            &&& cell.blocks == geometry.blocks
            &&& cell.blocks_self == geometry.blocks_self
            &&& cell.textures == asset_registry.spec_get(vm.identifier)
            &&& cell.light is None
        },
    }
}

/// Return the first slot of the palette holding `geo`, appending one if
/// none does; earlier entries are untouched.
fn find_or_insert_geo(pal: &mut GeoPalette, geo: &BlockGeo) -> (r: usize)
    ensures
        old(pal).palette@.len() <= final(pal).palette@.len() <= old(pal).palette@.len() + 1,
        forall|j: int|
            0 <= j < old(pal).palette@.len()
                ==> #[trigger] final(pal).palette@[j] == old(pal).palette@[j],
        r < final(pal).palette@.len(),
        final(pal).palette@[r as int]@ == geo@,
        final(pal).palette@.len() == old(pal).palette@.len() + 1 ==> r == old(pal).palette@.len()
            && (forall|j: int| 0 <= j < old(pal).palette@.len() ==> #[trigger] old(
            pal,
        ).palette@[j]@ != geo@),
        final(pal).palette@.len() == old(pal).palette@.len() ==> *final(pal) == *old(pal),
{
    let n = pal.palette.len();
    let mut i: usize = 0;
    while i < n
        invariant
            n == pal.palette@.len(),
            i <= n,
            forall|j: int| 0 <= j < i ==> #[trigger] pal.palette@[j]@ != geo@,
        decreases n - i,
    {
        if pal.palette[i] == *geo {
            return i;
        }
        i = i + 1;
    }
    pal.palette.push(geo.clone());
    n
}

/// Return the first slot of the match list holding the trimmed
/// identifier, appending one if none does; earlier entries are untouched.
fn find_or_insert_match(ms: &mut BlockMatches, id: &String) -> (r: usize)
    ensures
        old(ms).matches@.len() <= final(ms).matches@.len() <= old(ms).matches@.len() + 1,
        forall|j: int|
            0 <= j < old(ms).matches@.len()
                ==> #[trigger] final(ms).matches@[j] == old(ms).matches@[j],
        r < final(ms).matches@.len(),
        final(ms).matches@[r as int]@ == spec_trim_geo_identifier(id@),
        final(ms).matches@.len() == old(ms).matches@.len() + 1 ==> r == old(ms).matches@.len() && (
        forall|j: int|
            0 <= j < old(ms).matches@.len() ==> #[trigger] old(ms).matches@[j]@
                != spec_trim_geo_identifier(id@)),
        final(ms).matches@.len() == old(ms).matches@.len() ==> *final(ms) == *old(ms),
{
    let trimmed = trim_geo_identifier(id.clone());
    let n = ms.matches.len();
    let mut i: usize = 0;
    while i < n
        invariant
            n == ms.matches@.len(),
            i <= n,
            trimmed@ == spec_trim_geo_identifier(id@),
            forall|j: int| 0 <= j < i ==> #[trigger] ms.matches@[j]@ != trimmed@,
        decreases n - i,
    {
        if ms.matches[i] == trimmed {
            return i;
        }
        i = i + 1;
    }
    ms.matches.push(trimmed);
    n
}

/// `find_or_insert_geo` on a duplicate-free palette: the palette stays
/// duplicate-free.
fn intern_geo(pal: &mut GeoPalette, geo: &BlockGeo) -> (r: usize)
    requires
        geo_pal_distinct(old(pal).palette@),
    ensures
        geo_pal_distinct(final(pal).palette@),
        old(pal).palette@.len() <= final(pal).palette@.len() <= old(pal).palette@.len() + 1,
        forall|j: int|
            0 <= j < old(pal).palette@.len()
                ==> #[trigger] final(pal).palette@[j] == old(pal).palette@[j],
        r < final(pal).palette@.len(),
        final(pal).palette@[r as int]@ == geo@,
        final(pal).palette@.len() == old(pal).palette@.len() + 1 ==> r == old(pal).palette@.len()
            && (forall|j: int| 0 <= j < old(pal).palette@.len() ==> #[trigger] old(
            pal,
        ).palette@[j]@ != geo@),
        final(pal).palette@.len() == old(pal).palette@.len() ==> *final(pal) == *old(pal),
{
    find_or_insert_geo(pal, geo)
}

/// `find_or_insert_match` on a duplicate-free match list: the list stays
/// duplicate-free.
fn intern_match(ms: &mut BlockMatches, id: &String) -> (r: usize)
    requires
        matches_distinct(old(ms).matches@),
    ensures
        matches_distinct(final(ms).matches@),
        old(ms).matches@.len() <= final(ms).matches@.len() <= old(ms).matches@.len() + 1,
        forall|j: int|
            0 <= j < old(ms).matches@.len()
                ==> #[trigger] final(ms).matches@[j] == old(ms).matches@[j],
        r < final(ms).matches@.len(),
        final(ms).matches@[r as int]@ == spec_trim_geo_identifier(id@),
        final(ms).matches@.len() == old(ms).matches@.len() + 1 ==> r == old(ms).matches@.len() && (
        forall|j: int|
            0 <= j < old(ms).matches@.len() ==> #[trigger] old(ms).matches@[j]@
                != spec_trim_geo_identifier(id@)),
        final(ms).matches@.len() == old(ms).matches@.len() ==> *final(ms) == *old(ms),
{
    find_or_insert_match(ms, id)
}

/// The rendering capability a voxel type offers the boundary builder:
/// interning its shape and trimmed identifier, and resolving its
/// visibility, occlusion flags, textures and light. Arrays of six follow
/// the face order west, east, down, up, south, north.
pub trait RenderedVoxel<V, R>: Sized {
    /// The geometry this voxel resolves to under the two registries.
    spec fn spec_geometry(&self, geo_registry: &GeometryRegistry, vox_registry: &R) -> Option<
        Geometry,
    >;

    /// The identifier this voxel interns into the match list.
    spec fn spec_match_key(&self) -> Seq<char>;

    /// The visibility the voxel registry declares for this voxel.
    spec fn spec_visibility(&self, vox_registry: &R) -> Option<VoxelVisibility>;

    /// The atlas rectangles the asset registry holds for this voxel.
    spec fn spec_textures(&self, asset_registry: &AssetRegistry) -> Option<[UVRect; 6]>;

    /// The light this voxel type emits.
    spec fn spec_light() -> Option<u8>;

    /// Intern this voxel's shape: when the palette and both registries are
    /// given and the geometry resolves, the result indexes a palette slot
    /// holding that shape; any missing input or failed lookup yields None.
    fn to_geo_idx(
        &self,
        geo_pal: Option<&mut GeoPalette>,
        geo_registry: Option<&GeometryRegistry>,
        vox_registry: Option<&R>,
    ) -> (r: Option<usize>)
        ensures
            match geo_pal {
                Some(pal) => match (geo_registry, vox_registry) {
                    (Some(gr), Some(vr)) => match self.spec_geometry(gr, vr) {
                        Some(geometry) => r is Some && r.unwrap() < final(pal).palette@.len()
                            && final(pal).palette@[r.unwrap() as int]@ == geometry.element@,
                        None => r is None,
                    },
                    _ => r is None,
                },
                None => r is None,
            },
    ;

    /// Intern this voxel's match key: with a match list given, the result
    /// indexes an entry holding the key; without one, it is zero.
    fn to_match_idx(&self, match_pal: Option<&mut BlockMatches>) -> (r: usize)
        ensures
            match match_pal {
                Some(pal) => r < final(pal).matches@.len() && final(pal).matches@[r as int]@
                    == self.spec_match_key(),
                None => r == 0,
            },
    ;

    /// The per-face atlas rectangles for this voxel, if registered.
    fn to_texture_uv(
        &self,
        vox_registry: Option<&R>,
        asset_registry: Option<&AssetRegistry>,
    ) -> (r: Option<[UVRect; 6]>)
        ensures
            r == (match asset_registry {
                Some(assets) => self.spec_textures(assets),
                None => None,
            }),
    ;

    /// The resolved geometry's occlusion flags, if both lookups succeed.
    fn blocking_sides(
        &self,
        vox_registry: Option<&R>,
        geo_registry: Option<&GeometryRegistry>,
    ) -> (r: Option<([bool; 6], Option<[bool; 6]>)>)
        ensures
            r == (match (vox_registry, geo_registry) {
                (Some(vr), Some(gr)) => match self.spec_geometry(gr, vr) {
                    Some(geometry) => Some((geometry.blocks, geometry.blocks_self)),
                    None => None,
                },
                _ => None,
            }),
    ;

    /// The light this voxel type emits.
    fn light_level() -> (r: Option<u8>)
        ensures
            r == Self::spec_light(),
    ;

    /// The declared visibility of this voxel, if registered.
    fn to_visibility(
        &self,
        vox_registry: Option<&R>,
        geo_registry: Option<&GeometryRegistry>,
    ) -> (r: Option<VoxelVisibility>)
        ensures
            r == (match vox_registry {
                Some(vr) => self.spec_visibility(vr),
                None => None,
            }),
    ;
}

impl RenderedVoxel<BlockData, BlockRegistry> for BlockData {
    open spec fn spec_geometry(
        &self,
        geo_registry: &GeometryRegistry,
        vox_registry: &BlockRegistry,
    ) -> Option<Geometry> {
        spec_geo_lookup(geo_registry, vox_registry, self@.identifier)
    }

    open spec fn spec_match_key(&self) -> Seq<char> {
        spec_trim_geo_identifier(self@.identifier)
    }

    open spec fn spec_visibility(&self, vox_registry: &BlockRegistry) -> Option<VoxelVisibility> {
        match vox_registry.spec_get(self@.identifier) {
            Some(b) => b.visibility,
            None => None,
        }
    }

    open spec fn spec_textures(&self, asset_registry: &AssetRegistry) -> Option<[UVRect; 6]> {
        asset_registry.spec_get(self@.identifier)
    }

    open spec fn spec_light() -> Option<u8> {
        None
    }

    fn to_geo_idx(
        &self,
        geo_pal: Option<&mut GeoPalette>,
        geo_registry: Option<&GeometryRegistry>,
        vox_registry: Option<&BlockRegistry>,
    ) -> (r: Option<usize>) {
        match (geo_pal, geo_registry, vox_registry) {
            (Some(pal), Some(gr), Some(vr)) => match vr.get(&self.identifier) {
                Some(block) => {
                    let ns = match &block.geometry {
                        Some(g) => g.get_geo_namespace(),
                        None => String::from_str("vinox:block"),
                    };
                    match gr.get(&ns) {
                        Some(geometry) => Some(find_or_insert_geo(pal, &geometry.element)),
                        None => None,
                    }
                },
                None => None,
            },
            _ => None,
        }
    }

    fn to_match_idx(&self, match_pal: Option<&mut BlockMatches>) -> (r: usize) {
        match match_pal {
            Some(pal) => find_or_insert_match(pal, &self.identifier),
            None => 0,
        }
    }

    fn to_texture_uv(
        &self,
        _vox_registry: Option<&BlockRegistry>,
        asset_registry: Option<&AssetRegistry>,
    ) -> (r: Option<[UVRect; 6]>) {
        match asset_registry {
            Some(assets) => match assets.get(&self.identifier) {
                Some(t) => Some(*t),
                None => None,
            },
            None => None,
        }
    }

    fn blocking_sides(
        &self,
        vox_registry: Option<&BlockRegistry>,
        geo_registry: Option<&GeometryRegistry>,
    ) -> (r: Option<([bool; 6], Option<[bool; 6]>)>) {
        let geo_registry = match geo_registry {
            Some(g) => g,
            None => {
                return None;
            },
        };
        let vox_registry = match vox_registry {
            Some(v) => v,
            None => {
                return None;
            },
        };
        let block = match vox_registry.get(&self.identifier) {
            Some(b) => b,
            None => {
                return None;
            },
        };
        let ns = match &block.geometry {
            Some(g) => g.get_geo_namespace(),
            None => String::from_str("vinox:block"),
        };
        match geo_registry.get(&ns) {
            Some(geometry) => Some((geometry.blocks, geometry.blocks_self)),
            None => None,
        }
    }

    fn light_level() -> (r: Option<u8>) {
        None
    }

    fn to_visibility(
        &self,
        vox_registry: Option<&BlockRegistry>,
        _geo_registry: Option<&GeometryRegistry>,
    ) -> (r: Option<VoxelVisibility>) {
        match vox_registry {
            Some(reg) => match reg.get(&self.identifier) {
                Some(block) => block.visibility,
                None => None,
            },
            None => None,
        }
    }
}

/// Build one rendered cell for the voxel at `(x, y, z)` of `chunk`,
/// interning its shape and trimmed identifier. A voxel whose geometry
/// cannot be resolved becomes the default cell and interns nothing.
#[allow(clippy::too_many_arguments)]
pub fn get_rend(
    chunk: &ChunkData,
    x: usize,
    y: usize,
    z: usize,
    geo_registry: &GeometryRegistry,
    vox_registry: &BlockRegistry,
    asset_registry: &AssetRegistry,
    geo_pal: &mut GeoPalette,
    matching_blocks: &mut BlockMatches,
) -> (r: RenderedBlockData)
    requires
        chunk.wf(),
        x < CHUNK_SIZE,
        y < CHUNK_SIZE,
        z < CHUNK_SIZE,
        geo_pal_distinct(old(geo_pal).palette@),
        matches_distinct(old(matching_blocks).matches@),
    ensures
        geo_pal_distinct(final(geo_pal).palette@),
        matches_distinct(final(matching_blocks).matches@),
        old(geo_pal).palette@.len() <= final(geo_pal).palette@.len() <= old(
            geo_pal,
        ).palette@.len() + 1,
        forall|j: int|
            0 <= j < old(geo_pal).palette@.len() ==> #[trigger] final(geo_pal).palette@[j] == old(
                geo_pal,
            ).palette@[j],
        old(matching_blocks).matches@.len() <= final(matching_blocks).matches@.len() <= old(
            matching_blocks,
        ).matches@.len() + 1,
        forall|j: int|
            0 <= j < old(matching_blocks).matches@.len()
                ==> #[trigger] final(matching_blocks).matches@[j]
                == old(matching_blocks).matches@[j],
        rendered_cell_ok(
            r,
            chunk@[spec_linearize(x as int, y as int, z as int)],
            geo_registry,
            vox_registry,
            asset_registry,
            final(geo_pal).palette@,
            final(matching_blocks).matches@,
        ),
        spec_geo_lookup(
            geo_registry,
            vox_registry,
            chunk@[spec_linearize(x as int, y as int, z as int)].identifier,
        ) is None ==> *final(geo_pal) == *old(geo_pal) && *final(matching_blocks)
            == *old(matching_blocks),
        final(geo_pal).palette@.len() == old(geo_pal).palette@.len() + 1 ==> r.geo_index == Some(
            old(geo_pal).palette@.len() as usize,
        ),
        final(matching_blocks).matches@.len() == old(matching_blocks).matches@.len() + 1
            ==> r.match_index == old(matching_blocks).matches@.len(),
{
    let voxel = chunk.get(crate::position::RelativeVoxelPos::new(x as u32, y as u32, z as u32));
    let looked_up: Option<&Geometry> = match vox_registry.get(&voxel.identifier) {
        Some(block) => {
            let ns = match &block.geometry {
                Some(g) => g.get_geo_namespace(),
                None => String::from_str("vinox:block"),
            };
            geo_registry.get(&ns)
        },
        None => None,
    };
    match looked_up {
        None => RenderedBlockData::default(),
        Some(geometry) => {
            let gi = intern_geo(geo_pal, &geometry.element);
            let mi = intern_match(matching_blocks, &voxel.identifier);
            let visibility = match vox_registry.get(&voxel.identifier) {
                Some(block) => match block.visibility {
                    Some(v) => v,
                    None => VoxelVisibility::Empty,
                },
                None => VoxelVisibility::Empty,
            };
            let textures = match asset_registry.get(&voxel.identifier) {
                Some(t) => Some(*t),
                None => None,
            };
            RenderedBlockData {
                geo_index: Some(gi),
                match_index: mi,
                visibility,
                textures,
                blocks: geometry.blocks,
                blocks_self: geometry.blocks_self,
                light: None,
            }
        },
    }
}


/// Cell index of a stencil coordinate: x first, then y, then z.
pub open spec fn spec_blinearize(x: int, y: int, z: int) -> int {
    x + 18 * y + 324 * z
}

/// Which source chunk a stencil coordinate samples on its axis: the lower
/// neighbor, the center, or the upper neighbor.
pub open spec fn axis_class(c: int) -> int {
    if c == 0 {
        -1
    } else if c <= 16 {
        0
    } else {
        1
    }
}

/// The in-chunk coordinate a stencil coordinate samples.
pub open spec fn source_coord(c: int) -> int {
    if c == 0 {
        15
    } else if c <= 16 {
        c - 1
    } else {
        0
    }
}

/// Index of an offset triple in the 26-entry neighbor list (lexicographic,
/// with the origin skipped).
pub open spec fn neighbor_slot(dx: int, dy: int, dz: int) -> int {
    let n = (dx + 1) * 9 + (dy + 1) * 3 + (dz + 1);
    if n > 13 {
        n - 1
    } else {
        n
    }
}

/// The voxel model stencil coordinate `(x, y, z)` is built from.
pub open spec fn source_model(
    center: Seq<BlockModel>,
    neighbors: Seq<ChunkData>,
    x: int,
    y: int,
    z: int,
) -> BlockModel {
    let dx = axis_class(x);
    let dy = axis_class(y);
    let dz = axis_class(z);
    let idx = spec_linearize(source_coord(x), source_coord(y), source_coord(z));
    if dx == 0 && dy == 0 && dz == 0 {
        center[idx]
    } else {
        neighbors[neighbor_slot(dx, dy, dz)]@[idx]
    }
}

/// Interior stencil cells come from the center chunk alone: cell
/// `(x, y, z)` with every coordinate in `[1, 16]` renders the center's
/// voxel `(x-1, y-1, z-1)`.
pub proof fn lemma_interior_source(
    center: Seq<BlockModel>,
    neighbors: Seq<ChunkData>,
    x: int,
    y: int,
    z: int,
)
    requires
        1 <= x <= 16,
        1 <= y <= 16,
        1 <= z <= 16,
    ensures
        source_model(center, neighbors, x, y, z) == center[spec_linearize(x - 1, y - 1, z - 1)],
{
}

/// Some cell resolves to shape-palette slot `j`.
pub open spec fn geo_slot_used(cells: Seq<RenderedBlockData>, j: int) -> bool {
    exists|i: int| 0 <= i < cells.len() && (#[trigger] cells[i]).geo_index == Some(j as usize)
}

/// Some cell resolves to match-list slot `j`.
pub open spec fn match_slot_used(cells: Seq<RenderedBlockData>, j: int) -> bool {
    exists|i: int| 0 <= i < cells.len() && (#[trigger] cells[i]).match_index == j
}

/// A stencil cell either points into the shape palette or is the ignored
/// default cell.
pub open spec fn cell_wf(c: RenderedBlockData, plen: int) -> bool {
    match c.geo_index {
        Some(j) => j < plen,
        None => c == default_rend(),
    }
}

/// An 18-cubed stencil: a chunk's voxels and one voxel of padding from each
/// of its 26 neighbors, each cell precomputed for rendering.
pub struct ChunkBoundary {
    pub geometry_pal: GeoPalette,
    pub block_matches: BlockMatches,
    voxels: Vec<RenderedBlockData>,
}

impl ChunkBoundary {
    /// All stencil cells, in linearized order.
    pub closed spec fn cells(&self) -> Seq<RenderedBlockData> {
        self.voxels@
    }

    /// The interned shape palette.
    pub closed spec fn pal(&self) -> Seq<BlockGeo> {
        self.geometry_pal.palette@
    }

    /// The interned trimmed identifiers.
    pub closed spec fn match_list(&self) -> Seq<String> {
        self.block_matches.matches@
    }

    pub open spec fn wf(&self) -> bool {
        &&& self.cells().len() == BOUNDARY_SIZE
        &&& geo_pal_distinct(self.pal())
        &&& matches_distinct(self.match_list())
        &&& forall|i: int|
            0 <= i < BOUNDARY_SIZE ==> cell_wf(#[trigger] self.cells()[i], self.pal().len() as int)
    }

    /// Build the stencil: coordinate 0 samples the facing edge of the lower
    /// neighbor on that axis, 1 through 16 sample the center (or the in-slab
    /// neighbor), and 17 samples the facing edge of the upper neighbor.
    pub fn new(
        center: ChunkData,
        neighbors: Vec<ChunkData>,
        voxel_registry: &BlockRegistry,
        geo_table: &GeometryRegistry,
        asset_registry: &AssetRegistry,
    ) -> (r: ChunkBoundary)
        requires
            center.wf(),
            neighbors@.len() == 26,
            forall|k: int| 0 <= k < 26 ==> (#[trigger] neighbors@[k]).wf(),
        ensures
            r.wf(),
            forall|x: int, y: int, z: int|
                0 <= x < 18 && 0 <= y < 18 && 0 <= z < 18 ==> rendered_cell_ok(
                    #[trigger] r.cells()[spec_blinearize(x, y, z)],
                    source_model(center@, neighbors@, x, y, z),
                    geo_table,
                    voxel_registry,
                    asset_registry,
                    r.pal(),
                    r.match_list(),
                ),
            forall|j: int| 0 <= j < r.pal().len() ==> #[trigger] geo_slot_used(r.cells(), j),
            forall|j: int|
                0 <= j < r.match_list().len() ==> #[trigger] match_slot_used(r.cells(), j),
    {
        let mut geo_pal = GeoPalette::default();
        let mut matching_voxels = BlockMatches::default();
        let mut voxels: Vec<RenderedBlockData> = Vec::new();
        let mut idx: usize = 0;
        while idx < BOUNDARY_SIZE
            invariant
                center.wf(),
                neighbors@.len() == 26,
                forall|k: int| 0 <= k < 26 ==> (#[trigger] neighbors@[k]).wf(),
                idx <= BOUNDARY_SIZE,
                voxels@.len() == idx,
                geo_pal_distinct(geo_pal.palette@),
                matches_distinct(matching_voxels.matches@),
                forall|i: int|
                    0 <= i < idx ==> cell_wf(
                        #[trigger] voxels@[i],
                        geo_pal.palette@.len() as int,
                    ),
                forall|i: int|
                    0 <= i < idx ==> rendered_cell_ok(
                        #[trigger] voxels@[i],
                        source_model(center@, neighbors@, i % 18, (i / 18) % 18, i / 324),
                        geo_table,
                        voxel_registry,
                        asset_registry,
                        geo_pal.palette@,
                        matching_voxels.matches@,
                    ),
                forall|j: int|
                    0 <= j < geo_pal.palette@.len() ==> #[trigger] geo_slot_used(voxels@, j),
                forall|j: int|
                    0 <= j < matching_voxels.matches@.len() ==> #[trigger] match_slot_used(
                        voxels@,
                        j,
                    ),
            decreases BOUNDARY_SIZE - idx,
        {
            let x = idx % 18;
            let y = (idx / 18) % 18;
            let z = idx / 324;
            let sx = if x == 0 {
                15
            } else if x <= 16 {
                x - 1
            } else {
                0
            };
            let sy = if y == 0 {
                15
            } else if y <= 16 {
                y - 1
            } else {
                0
            };
            let sz = if z == 0 {
                15
            } else if z <= 16 {
                z - 1
            } else {
                0
            };
            let dx: usize = if x == 0 {
                0
            } else if x <= 16 {
                1
            } else {
                2
            };
            let dy: usize = if y == 0 {
                0
            } else if y <= 16 {
                1
            } else {
                2
            };
            let dz: usize = if z == 0 {
                0
            } else if z <= 16 {
                1
            } else {
                2
            };
            let ghost pal_before = geo_pal.palette@;
            let ghost ms_before = matching_voxels.matches@;
            let cell: RenderedBlockData;
            if dx == 1 && dy == 1 && dz == 1 {
                cell = get_rend(
                    &center,
                    sx,
                    sy,
                    sz,
                    geo_table,
                    voxel_registry,
                    asset_registry,
                    &mut geo_pal,
                    &mut matching_voxels,
                );
            } else {
                let n0 = dx * 9 + dy * 3 + dz;
                let n = if n0 > 13 {
                    n0 - 1
                } else {
                    n0
                };
                cell = get_rend(
                    &neighbors[n],
                    sx,
                    sy,
                    sz,
                    geo_table,
                    voxel_registry,
                    asset_registry,
                    &mut geo_pal,
                    &mut matching_voxels,
                );
            }
            proof {
                assert(rendered_cell_ok(
                    cell,
                    source_model(center@, neighbors@, x as int, y as int, z as int),
                    geo_table,
                    voxel_registry,
                    asset_registry,
                    geo_pal.palette@,
                    matching_voxels.matches@,
                ));
                assert forall|i: int| 0 <= i < idx implies rendered_cell_ok(
                    #[trigger] voxels@[i],
                    source_model(center@, neighbors@, i % 18, (i / 18) % 18, i / 324),
                    geo_table,
                    voxel_registry,
                    asset_registry,
                    geo_pal.palette@,
                    matching_voxels.matches@,
                ) by {
                    let c = voxels@[i];
                    let sm = source_model(center@, neighbors@, i % 18, (i / 18) % 18, i / 324);
                    if spec_geo_lookup(geo_table, voxel_registry, sm.identifier) is Some {
                        assert(geo_pal.palette@[c.geo_index.unwrap() as int] == pal_before[c.geo_index.unwrap() as int]);
                        assert(matching_voxels.matches@[c.match_index as int] == ms_before[c.match_index as int]);
                    }
                }
            }
            let ghost vox_before = voxels@;
            voxels.push(cell);
            proof {
                assert forall|j: int| 0 <= j < geo_pal.palette@.len() implies #[trigger] geo_slot_used(
                    voxels@,
                    j,
                ) by {
                    if j < pal_before.len() {
                        assert(geo_slot_used(vox_before, j));
                        let i0 = choose|i: int|
                            0 <= i < vox_before.len() && (#[trigger] vox_before[i]).geo_index
                                == Some(j as usize);
                        assert(voxels@[i0] == vox_before[i0]);
                    } else {
                        assert(cell.geo_index == Some(j as usize));
                        assert(voxels@[idx as int].geo_index == Some(j as usize));
                    }
                }
                assert forall|j: int| 0 <= j < matching_voxels.matches@.len()
                    implies #[trigger] match_slot_used(voxels@, j) by {
                    if j < ms_before.len() {
                        assert(match_slot_used(vox_before, j));
                        let i0 = choose|i: int|
                            0 <= i < vox_before.len() && (#[trigger] vox_before[i]).match_index
                                == j;
                        assert(voxels@[i0] == vox_before[i0]);
                    } else {
                        assert(cell.match_index == j);
                        assert(voxels@[idx as int].match_index == j);
                    }
                }
            }
            idx = idx + 1;
        }
        let r = ChunkBoundary { geometry_pal: geo_pal, block_matches: matching_voxels, voxels };
        proof {
            assert forall|x: int, y: int, z: int|
                0 <= x < 18 && 0 <= y < 18 && 0 <= z < 18 implies rendered_cell_ok(
                #[trigger] r.cells()[spec_blinearize(x, y, z)],
                source_model(center@, neighbors@, x, y, z),
                geo_table,
                voxel_registry,
                asset_registry,
                r.pal(),
                r.match_list(),
            ) by {
                let i = spec_blinearize(x, y, z);
                assert(0 <= i < BOUNDARY_SIZE);
                assert(i % 18 == x && (i / 18) % 18 == y && i / 324 == z);
            }
        }
        r
    }

    /// The interned shape palette, as stored.
    pub fn geo_palette(&self) -> (r: &Vec<BlockGeo>)
        ensures
            r@ == self.pal(),
    {
        &self.geometry_pal.palette
    }

    /// The interned trimmed identifiers, as stored.
    pub fn match_names(&self) -> (r: &Vec<String>)
        ensures
            r@ == self.match_list(),
    {
        &self.block_matches.matches
    }

    /// The stencil cells, in linearized order.
    pub fn voxels(&self) -> (r: &Vec<RenderedBlockData>)
        ensures
            r@ == self.cells(),
    {
        &self.voxels
    }

    /// Edge length of the stencil.
    pub fn edge() -> (r: usize)
        ensures
            r == BOUNDARY_EDGE,
    {
        BOUNDARY_EDGE
    }

    /// Number of cells in the stencil.
    pub fn size() -> (r: usize)
        ensures
            r == BOUNDARY_SIZE,
    {
        BOUNDARY_SIZE
    }

    /// Cell index of a stencil coordinate.
    pub fn linearize(x: usize, y: usize, z: usize) -> (r: usize)
        requires
            x < BOUNDARY_EDGE,
            y < BOUNDARY_EDGE,
            z < BOUNDARY_EDGE,
        ensures
            r == spec_blinearize(x as int, y as int, z as int),
            r < BOUNDARY_SIZE,
    {
        x + 18 * y + 324 * z
    }

    /// Stencil coordinate of a cell index.
    pub fn delinearize(idx: usize) -> (r: (usize, usize, usize))
        requires
            idx < BOUNDARY_SIZE,
        ensures
            r.0 < 18,
            r.1 < 18,
            r.2 < 18,
            spec_blinearize(r.0 as int, r.1 as int, r.2 as int) == idx,
    {
        (idx % 18, (idx / 18) % 18, idx / 324)
    }

    /// Cell-index step of one voxel along the x axis.
    pub fn x_offset() -> (r: usize)
        ensures
            r == 1,
    {
        ChunkBoundary::linearize(1, 0, 0) - ChunkBoundary::linearize(0, 0, 0)
    }

    /// Cell-index step of one voxel along the y axis.
    pub fn y_offset() -> (r: usize)
        ensures
            r == 18,
    {
        ChunkBoundary::linearize(0, 1, 0) - ChunkBoundary::linearize(0, 0, 0)
    }

    /// Cell-index step of one voxel along the z axis.
    pub fn z_offset() -> (r: usize)
        ensures
            r == 324,
    {
        ChunkBoundary::linearize(0, 0, 1) - ChunkBoundary::linearize(0, 0, 0)
    }
}

} // verus!
