use vstd::prelude::*;
use crate::assoc::{assoc_lookup, entries_view, assoc_get, assoc_set};
use crate::geometry::{BlockGeometry, spec_geo_namespace};

verus! {

/// What a voxel does to sight lines: nothing there, fully blocking, or
/// see-through.
#[derive(Debug, PartialEq, Eq, Structural, Clone, Copy, Hash)]
pub enum VoxelVisibility {
    Empty,
    Opaque,
    Transparent,
}

impl Default for VoxelVisibility {
    fn default() -> (res: Self)
        ensures
            res == VoxelVisibility::Empty,
    {
        VoxelVisibility::Empty
    }
}

/// A registry a storage layer can consult to decide whether a voxel counts
/// as empty.
pub trait VoxRegistry<V>: Sized {
    spec fn spec_is_empty(&self, vox: &V) -> bool;

    fn is_empty(&self, vox: V) -> (r: bool)
        ensures
            r == self.spec_is_empty(&vox),
    ;
}

/// The capability set a voxel type offers the chunk and meshing layers.
pub trait Voxel<R>: Sized {
    spec fn spec_empty(&self, registry: Option<&R>) -> bool;

    spec fn spec_true_empty(&self, registry: Option<&R>) -> bool;

    spec fn spec_opaque(&self, registry: Option<&R>) -> bool;

    spec fn spec_id(&self) -> Seq<char>;

    /// Whether this voxel is empty for storage purposes.
    fn is_empty(&self, registry: Option<&R>) -> (r: bool)
        ensures
            r == self.spec_empty(registry),
    ;

    /// Whether this voxel is empty and has plain full-cube geometry.
    fn is_true_empty(&self, registry: Option<&R>) -> (r: bool)
        ensures
            r == self.spec_true_empty(registry),
    ;

    /// Whether this voxel blocks sight lines entirely.
    fn is_opaque(&self, registry: Option<&R>) -> (r: bool)
        ensures
            r == self.spec_opaque(registry),
    ;

    /// The voxel's identifier; equal voxels have equal identifiers.
    fn identifier(&self) -> (r: String)
        ensures
            r@ == self.spec_id(),
    ;
}

/// A registry entry describing one kind of block.
#[derive(Debug)]
pub struct Block {
    pub identifier: String,
    pub textures: Option<[Option<String>; 6]>,
    pub geometry: Option<BlockGeometry>,
    pub auto_geo: Option<Vec<BlockGeometry>>,
    pub visibility: Option<VoxelVisibility>,
    pub has_item: Option<bool>,
}

/// The geometry-registry key of a block entry: its declared geometry's
/// namespace, or the full-cube namespace when none is declared.
pub open spec fn spec_block_geo_namespace(b: Block) -> Seq<char> {
    match b.geometry {
        Some(g) => spec_geo_namespace(&g),
        None => "vinox:block"@,
    }
}

/// Mapping from block identifier to block entry, searched by key.
#[derive(Debug)]
pub struct BlockRegistry(pub Vec<(String, Block)>);

impl BlockRegistry {
    /// The entry stored under `id`, if any.
    pub open spec fn spec_get(&self, id: Seq<char>) -> Option<Block> {
        assoc_lookup(entries_view(self.0@), id)
    }

    /// The declared visibility of the entry stored under `id`, if any.
    pub open spec fn spec_visibility(&self, id: Seq<char>) -> Option<VoxelVisibility> {
        match self.spec_get(id) {
            Some(b) => b.visibility,
            None => None,
        }
    }

    pub fn new() -> (r: Self)
        ensures
            forall|q: Seq<char>| #[trigger] r.spec_get(q) is None,
    {
        let r = BlockRegistry(Vec::new());
        proof {
            assert forall|q: Seq<char>| #[trigger] r.spec_get(q) is None by {
                assert(entries_view(r.0@).len() == 0);
            }
        }
        r
    }

    pub fn get(&self, id: &String) -> (r: Option<&Block>)
        ensures
            match r {
                Some(b) => self.spec_get(id@) == Some(*b),
                None => self.spec_get(id@) is None,
            },
    {
        assoc_get(&self.0, id)
    }

    pub fn insert(&mut self, id: String, block: Block)
        ensures
            forall|q: Seq<char>|
                #[trigger] final(self).spec_get(q) == if q == id@ {
                    Some(block)
                } else {
                    old(self).spec_get(q)
                },
    {
        assoc_set(&mut self.0, id, block);
    }
}

/// A rectangle in atlas-pixel coordinates.
#[derive(Debug, PartialEq, Eq, Structural, Clone, Copy, Hash)]
pub struct UVRect {
    pub x: i32,
    pub y: i32,
    pub w: i32,
    pub h: i32,
}

/// Mapping from block identifier to its six per-face atlas rectangles, plus
/// the atlas size in pixels.
#[derive(Debug)]
pub struct AssetRegistry {
    pub texture_uvs: Vec<(String, [UVRect; 6])>,
    pub texture_size: (u32, u32),
}

impl AssetRegistry {
    /// The atlas rectangles stored under `id`, if any.
    pub open spec fn spec_get(&self, id: Seq<char>) -> Option<[UVRect; 6]> {
        assoc_lookup(entries_view(self.texture_uvs@), id)
    }

    pub fn new(texture_size: (u32, u32)) -> (r: Self)
        ensures
            forall|q: Seq<char>| #[trigger] r.spec_get(q) is None,
            r.texture_size == texture_size,
    {
        let r = AssetRegistry { texture_uvs: Vec::new(), texture_size };
        proof {
            assert forall|q: Seq<char>| #[trigger] r.spec_get(q) is None by {
                assert(entries_view(r.texture_uvs@).len() == 0);
            }
        }
        r
    }

    pub fn get(&self, id: &String) -> (r: Option<&[UVRect; 6]>)
        ensures
            match r {
                Some(t) => self.spec_get(id@) == Some(*t),
                None => self.spec_get(id@) is None,
            },
    {
        assoc_get(&self.texture_uvs, id)
    }

    pub fn insert(&mut self, id: String, rects: [UVRect; 6])
        ensures
            forall|q: Seq<char>|
                #[trigger] final(self).spec_get(q) == if q == id@ {
                    Some(rects)
                } else {
                    old(self).spec_get(q)
                },
    {
        assoc_set(&mut self.texture_uvs, id, rects);
    }
}

/// The kinds of values a block property can carry.
#[derive(Debug, PartialEq, Eq, Structural, Clone, Copy, Hash)]
pub enum Property {
    Bool,
    BoolArray,
    Int,
    IntArray,
    Float,
    FloatArray,
}

/// The stored state of one voxel: its block identifier plus bookkeeping.
#[derive(Debug)]
pub struct BlockData {
    pub identifier: String,
    pub last_tick: Option<u64>,
    pub properties: Option<Vec<(String, Property)>>,
}

/// Everything a `BlockData` holds, over sequences.
#[verifier::ext_equal]
pub struct BlockModel {
    pub identifier: Seq<char>,
    pub last_tick: Option<u64>,
    pub properties: Option<Seq<(Seq<char>, Property)>>,
}

impl View for BlockData {
    type V = BlockModel;

    open spec fn view(&self) -> BlockModel {
        BlockModel {
            identifier: self.identifier@,
            last_tick: self.last_tick,
            properties: match self.properties {
                Some(v) => Some(entries_view(v@)),
                None => None,
            },
        }
    }
}

/// The model of the voxel a fresh chunk is filled with.
pub open spec fn default_block_model() -> BlockModel {
    BlockModel { identifier: "vinox:air"@, last_tick: None, properties: None }
}

fn props_equal(a: &Vec<(String, Property)>, b: &Vec<(String, Property)>) -> (r: bool)
    ensures
        r == (entries_view(a@) == entries_view(b@)),
{
    let n = a.len();
    if n != b.len() {
        proof {
            assert(entries_view(a@).len() != entries_view(b@).len());
        }
        return false;
    }
    let mut i: usize = 0;
    while i < n
        invariant
            n == a@.len(),
            n == b@.len(),
            i <= n,
            forall|j: int| 0 <= j < i ==> entries_view(a@)[j] == entries_view(b@)[j],
        decreases n - i,
    {
        let pa = &a[i];
        let pb = &b[i];
        if !(pa.0 == pb.0) || pa.1 != pb.1 {
            proof {
                assert(entries_view(a@)[i as int] == (a@[i as int].0@, a@[i as int].1));
                assert(entries_view(b@)[i as int] == (b@[i as int].0@, b@[i as int].1));
            }
            return false;
        }
        proof {
            assert(entries_view(a@)[i as int] == (a@[i as int].0@, a@[i as int].1));
            assert(entries_view(b@)[i as int] == (b@[i as int].0@, b@[i as int].1));
        }
        i = i + 1;
    }
    proof {
        assert(entries_view(a@) =~= entries_view(b@));
    }
    true
}

fn clone_props(v: &Vec<(String, Property)>) -> (r: Vec<(String, Property)>)
    ensures
        entries_view(r@) == entries_view(v@),
{
    let n = v.len();
    let mut r: Vec<(String, Property)> = Vec::new();
    let mut i: usize = 0;
    while i < n
        invariant
            n == v@.len(),
            i <= n,
            r@.len() == i,
            forall|j: int| 0 <= j < i ==> entries_view(r@)[j] == entries_view(v@)[j],
        decreases n - i,
    {
        let p = &v[i];
        r.push((p.0.clone(), p.1));
        proof {
            assert(entries_view(r@)[i as int] == (r@[i as int].0@, r@[i as int].1));
            assert(entries_view(v@)[i as int] == (v@[i as int].0@, v@[i as int].1));
        }
        i = i + 1;
    }
    proof {
        assert(entries_view(r@) =~= entries_view(v@));
    }
    r
}

impl PartialEq for BlockData {
    fn eq(&self, other: &Self) -> (r: bool) {
        let id_eq = self.identifier == other.identifier;
        let tick_eq = match (self.last_tick, other.last_tick) {
            (None, None) => true,
            (Some(x), Some(y)) => x == y,
            _ => false,
        };
        let props_eq = match (&self.properties, &other.properties) {
            (None, None) => true,
            (Some(a), Some(b)) => props_equal(a, b),
            _ => false,
        };
        let r = id_eq && tick_eq && props_eq;
        proof {
            if r {
                assert(self@ =~= other@);
            }
        }
        r
    }
}

impl Eq for BlockData {

}

impl vstd::std_specs::cmp::PartialEqSpecImpl for BlockData {
    open spec fn obeys_eq_spec() -> bool {
        true
    }

    open spec fn eq_spec(&self, other: &Self) -> bool {
        self@ == other@
    }
}

impl Clone for BlockData {
    fn clone(&self) -> (res: Self)
        ensures
            res@ == self@,
    {
        let properties = match &self.properties {
            None => None,
            Some(v) => Some(clone_props(v)),
        };
        BlockData { identifier: self.identifier.clone(), last_tick: self.last_tick, properties }
    }
}

impl Default for BlockData {
    /// The air voxel.
    fn default() -> (res: Self)
        ensures
            res@ == default_block_model(),
    {
        BlockData {
            identifier: String::from_str("vinox:air"),
            last_tick: None,
            properties: None,
        }
    }
}

impl BlockData {
    /// A voxel named `namespace:name` with no bookkeeping.
    pub fn new(namespace: String, name: String) -> (res: Self)
        ensures
            res@.identifier == namespace@ + ":"@ + name@,
            res@.last_tick is None,
            res@.properties is None,
    {
        BlockData {
            identifier: namespace.concat(":").concat(name.as_str()),
            last_tick: None,
            properties: None,
        }
    }
}

/// Emptiness of a voxel under an optional registry: empty unless the
/// registry declares a non-empty visibility for its identifier.
pub open spec fn spec_is_empty(id: Seq<char>, registry: Option<&BlockRegistry>) -> bool {
    match registry {
        None => true,
        Some(reg) => match reg.spec_visibility(id) {
            Some(v) => v == VoxelVisibility::Empty,
            None => true,
        },
    }
}

/// Opaqueness of a voxel under an optional registry: opaque only when the
/// registry declares it so.
pub open spec fn spec_is_opaque(id: Seq<char>, registry: Option<&BlockRegistry>) -> bool {
    match registry {
        None => false,
        Some(reg) => reg.spec_visibility(id) == Some(VoxelVisibility::Opaque),
    }
}

/// True emptiness: empty, and registered with plain full-cube geometry.
pub open spec fn spec_is_true_empty(id: Seq<char>, registry: Option<&BlockRegistry>) -> bool {
    &&& spec_is_empty(id, registry)
    &&& match registry {
        None => false,
        Some(reg) => match reg.spec_get(id) {
            Some(b) => spec_block_geo_namespace(b) == "vinox:block"@,
            None => false,
        },
    }
}

impl Voxel<BlockRegistry> for BlockData {
    open spec fn spec_empty(&self, registry: Option<&BlockRegistry>) -> bool {
        spec_is_empty(self@.identifier, registry)
    }

    open spec fn spec_true_empty(&self, registry: Option<&BlockRegistry>) -> bool {
        spec_is_true_empty(self@.identifier, registry)
    }

    open spec fn spec_opaque(&self, registry: Option<&BlockRegistry>) -> bool {
        spec_is_opaque(self@.identifier, registry)
    }

    open spec fn spec_id(&self) -> Seq<char> {
        self@.identifier
    }

    fn is_empty(&self, registry: Option<&BlockRegistry>) -> (r: bool) {
        match registry {
            None => true,
            Some(reg) => match reg.get(&self.identifier) {
                Some(block) => match block.visibility {
                    Some(v) => v == VoxelVisibility::Empty,
                    None => true,
                },
                None => true,
            },
        }
    }

    fn is_true_empty(&self, registry: Option<&BlockRegistry>) -> (r: bool) {
        let empty = self.is_empty(registry);
        match registry {
            None => false,
            Some(reg) => match reg.get(&self.identifier) {
                Some(block) => {
                    let ns = match &block.geometry {
                        Some(g) => g.get_geo_namespace(),
                        None => String::from_str("vinox:block"),
                    };
                    empty && ns == String::from_str("vinox:block")
                },
                None => false,
            },
        }
    }

    fn is_opaque(&self, registry: Option<&BlockRegistry>) -> (r: bool) {
        match registry {
            None => false,
            Some(reg) => match reg.get(&self.identifier) {
                Some(block) => match block.visibility {
                    Some(v) => v == VoxelVisibility::Opaque,
                    None => false,
                },
                None => false,
            },
        }
    }

    fn identifier(&self) -> (r: String) {
        self.identifier.clone()
    }
}

impl VoxRegistry<BlockData> for BlockRegistry {
    open spec fn spec_is_empty(&self, vox: &BlockData) -> bool {
        self.spec_visibility(vox@.identifier) == Some(VoxelVisibility::Empty)
    }

    fn is_empty(&self, vox: BlockData) -> (r: bool) {
        match self.get(&vox.identifier) {
            Some(block) => match block.visibility {
                Some(v) => v == VoxelVisibility::Empty,
                None => false,
            },
            None => false,
        }
    }
}

} // verus!
