use vstd::prelude::*;
use crate::assoc::{assoc_lookup, entries_view, assoc_get, assoc_set};

verus! {

/// Index of the first `.` in `s`, or `s.len()` if there is none.
pub open spec fn first_dot(s: Seq<char>) -> int
    decreases s.len(),
{
    if s.len() == 0 {
        0
    } else if s[0] == '.' {
        0
    } else {
        1 + first_dot(s.skip(1))
    }
}

pub proof fn lemma_first_dot_at(s: Seq<char>, i: int)
    requires
        0 <= i <= s.len(),
        forall|j: int| 0 <= j < i ==> s[j] != '.',
        i == s.len() || s[i] == '.',
    ensures
        first_dot(s) == i,
    decreases i,
{
    if s.len() == 0 {
    } else if i == 0 {
    } else {
        assert(s[0] != '.');
        let t = s.skip(1);
        assert(forall|j: int| 0 <= j < i - 1 ==> t[j] == s[j + 1]);
        if i < s.len() {
            assert(t[i - 1] == s[i]);
        }
        lemma_first_dot_at(t, i - 1);
    }
}

/// The identifier up to (not including) its first `.`.
pub open spec fn spec_trim_geo_identifier(s: Seq<char>) -> Seq<char> {
    s.take(first_dot(s))
}

/// Portion of an identifier before the first `.`; the whole identifier when
/// it has no `.`.
pub fn trim_geo_identifier(identifier: String) -> (r: String)
    ensures
        r@ == spec_trim_geo_identifier(identifier@),
{
    let s = identifier.as_str();
    let n = s.unicode_len();
    let mut i: usize = 0;
    while i < n
        invariant
            n == s@.len(),
            s@ == identifier@,
            i <= n,
            forall|j: int| 0 <= j < i ==> s@[j] != '.',
        decreases n - i,
    {
        if s.get_char(i) == '.' {
            proof {
                lemma_first_dot_at(s@, i as int);
            }
            let prefix = s.substring_char(0, i);
            return String::from_str(prefix);
        }
        i = i + 1;
    }
    proof {
        lemma_first_dot_at(s@, n as int);
        assert(identifier@.take(n as int) =~= identifier@);
    }
    identifier
}

/// The built-in block shapes, plus custom ones named by identifier.
#[derive(Debug)]
pub enum BlockGeometry {
    Block,
    Stairs,
    Slab,
    BorderedBlock,
    Fence,
    Flat,
    Cross,
    Custom(String),
}

/// The geometry-registry key of each shape.
pub open spec fn spec_geo_namespace(g: &BlockGeometry) -> Seq<char> {
    match g {
        BlockGeometry::Block => "vinox:block"@,
        BlockGeometry::Stairs => "vinox:stair"@,
        BlockGeometry::Slab => "vinox:slab"@,
        BlockGeometry::BorderedBlock => "vinox:border_block"@,
        BlockGeometry::Fence => "vinox:fence"@,
        BlockGeometry::Flat => "vinox:flat"@,
        BlockGeometry::Cross => "vinox:cross"@,
        BlockGeometry::Custom(identifier) => identifier@,
    }
}

/// The bare shape name of each shape.
pub open spec fn spec_geo_name(g: &BlockGeometry) -> Seq<char> {
    match g {
        BlockGeometry::Block => "block"@,
        BlockGeometry::Stairs => "stair"@,
        BlockGeometry::Slab => "slab"@,
        BlockGeometry::BorderedBlock => "border_block"@,
        BlockGeometry::Fence => "fence"@,
        BlockGeometry::Flat => "flat"@,
        BlockGeometry::Cross => "cross"@,
        BlockGeometry::Custom(identifier) => identifier@,
    }
}

impl BlockGeometry {
    pub fn get_geo_namespace(&self) -> (r: String)
        ensures
            r@ == spec_geo_namespace(self),
    {
        match self {
            BlockGeometry::Block => String::from_str("vinox:block"),
            BlockGeometry::Stairs => String::from_str("vinox:stair"),
            BlockGeometry::Slab => String::from_str("vinox:slab"),
            BlockGeometry::BorderedBlock => String::from_str("vinox:border_block"),
            BlockGeometry::Fence => String::from_str("vinox:fence"),
            BlockGeometry::Flat => String::from_str("vinox:flat"),
            BlockGeometry::Cross => String::from_str("vinox:cross"),
            BlockGeometry::Custom(identifier) => identifier.clone(),
        }
    }

    pub fn get_geo_name(&self) -> (r: String)
        ensures
            r@ == spec_geo_name(self),
    {
        match self {
            BlockGeometry::Block => String::from_str("block"),
            BlockGeometry::Stairs => String::from_str("stair"),
            BlockGeometry::Slab => String::from_str("slab"),
            BlockGeometry::BorderedBlock => String::from_str("border_block"),
            BlockGeometry::Fence => String::from_str("fence"),
            BlockGeometry::Flat => String::from_str("flat"),
            BlockGeometry::Cross => String::from_str("cross"),
            BlockGeometry::Custom(identifier) => identifier.clone(),
        }
    }

    /// `name`, a `.`, then the shape name: the identifier of an
    /// auto-generated variant block.
    pub fn geo_new_block(&self, name: String) -> (r: String)
        ensures
            r@ == name@ + "."@ + spec_geo_name(self),
    {
        let tail = self.get_geo_name();
        name.concat(".").concat(tail.as_str())
    }
}

impl Clone for BlockGeometry {
    fn clone(&self) -> (res: Self)
        ensures
            res == *self,
    {
        match self {
            BlockGeometry::Block => BlockGeometry::Block,
            BlockGeometry::Stairs => BlockGeometry::Stairs,
            BlockGeometry::Slab => BlockGeometry::Slab,
            BlockGeometry::BorderedBlock => BlockGeometry::BorderedBlock,
            BlockGeometry::Fence => BlockGeometry::Fence,
            BlockGeometry::Flat => BlockGeometry::Flat,
            BlockGeometry::Cross => BlockGeometry::Cross,
            BlockGeometry::Custom(identifier) => BlockGeometry::Custom(identifier.clone()),
        }
    }
}

impl Default for BlockGeometry {
    fn default() -> (res: Self)
        ensures
            res == BlockGeometry::Block,
    {
        BlockGeometry::Block
    }
}

/// One axis-aligned box of a block shape: per-face texture placement and
/// culling behaviour, and the box's placement inside the voxel, all in
/// sixteenths of a voxel.
#[derive(Debug, Clone, Copy)]
#[verifier::ext_equal]
pub struct FaceDescript {
    pub uv: [((i8, i8), (i8, i8)); 6],
    pub discard: [bool; 6],
    pub texture_variance: [bool; 6],
    pub cull: [bool; 6],
    pub origin: (i8, i8, i8),
    pub end: (i8, i8, i8),
    pub rotation: (i8, i8, i8),
    pub pivot: (i8, i8, i8),
}

impl PartialEq for FaceDescript {
    fn eq(&self, other: &Self) -> (r: bool) {
        let mut arrays_eq = true;
        let mut k: usize = 0;
        while k < 6
            invariant
                k <= 6,
                arrays_eq == (forall|j: int|
                    0 <= j < k ==> self.uv[j] == other.uv[j] && self.discard[j] == other.discard[j]
                        && self.texture_variance[j] == other.texture_variance[j] && self.cull[j]
                        == other.cull[j]),
            decreases 6 - k,
        {
            let u1 = self.uv[k];
            let u2 = other.uv[k];
            let here = u1.0.0 == u2.0.0 && u1.0.1 == u2.0.1 && u1.1.0 == u2.1.0 && u1.1.1 == u2.1.1
                && self.discard[k] == other.discard[k] && self.texture_variance[k]
                == other.texture_variance[k] && self.cull[k] == other.cull[k];
            arrays_eq = arrays_eq && here;
            k = k + 1;
        }
        let r = arrays_eq && self.origin.0 == other.origin.0 && self.origin.1 == other.origin.1
            && self.origin.2 == other.origin.2 && self.end.0 == other.end.0 && self.end.1
            == other.end.1 && self.end.2 == other.end.2 && self.rotation.0 == other.rotation.0
            && self.rotation.1 == other.rotation.1 && self.rotation.2 == other.rotation.2
            && self.pivot.0 == other.pivot.0 && self.pivot.1 == other.pivot.1 && self.pivot.2
            == other.pivot.2;
        proof {
            if r {
                assert(self.uv =~= other.uv);
                assert(self.discard =~= other.discard);
                assert(self.texture_variance =~= other.texture_variance);
                assert(self.cull =~= other.cull);
                assert(*self =~= *other);
            }
        }
        r
    }
}

impl Eq for FaceDescript {

}

impl vstd::std_specs::cmp::PartialEqSpecImpl for FaceDescript {
    open spec fn obeys_eq_spec() -> bool {
        true
    }

    open spec fn eq_spec(&self, other: &Self) -> bool {
        *self == *other
    }
}

/// A block shape: a list of boxes plus a block-level pivot and rotation.
#[derive(Debug)]
pub struct BlockGeo {
    pub pivot: (i8, i8, i8),
    pub rotation: (i8, i8, i8),
    pub cubes: Vec<FaceDescript>,
}

/// Everything a `BlockGeo` holds, with the box list as a sequence.
#[verifier::ext_equal]
pub struct BlockGeoModel {
    pub pivot: (i8, i8, i8),
    pub rotation: (i8, i8, i8),
    pub cubes: Seq<FaceDescript>,
}

impl View for BlockGeo {
    type V = BlockGeoModel;

    open spec fn view(&self) -> BlockGeoModel {
        BlockGeoModel { pivot: self.pivot, rotation: self.rotation, cubes: self.cubes@ }
    }
}

/// The full-cube shape: one box spanning the whole voxel, every face culled.
pub open spec fn standard_cube() -> FaceDescript {
    FaceDescript {
        uv: [
            ((0i8, 0i8), (16i8, 16i8)),
            ((0i8, 0i8), (16i8, 16i8)),
            ((16i8, 16i8), (-16i8, -16i8)),
            ((16i8, 16i8), (-16i8, -16i8)),
            ((0i8, 0i8), (16i8, 16i8)),
            ((0i8, 0i8), (16i8, 16i8)),
        ],
        discard: [false, false, false, false, false, false],
        texture_variance: [false, false, false, false, false, false],
        cull: [true, true, true, true, true, true],
        origin: (0i8, 0i8, 0i8),
        end: (16i8, 16i8, 16i8),
        rotation: (0i8, 0i8, 0i8),
        pivot: (0i8, 0i8, 0i8),
    }
}

pub open spec fn standard_geo_model() -> BlockGeoModel {
    BlockGeoModel {
        pivot: (0i8, 0i8, 0i8),
        rotation: (0i8, 0i8, 0i8),
        cubes: seq![standard_cube()],
    }
}

impl PartialEq for BlockGeo {
    fn eq(&self, other: &Self) -> (r: bool) {
        let head_eq = self.pivot.0 == other.pivot.0 && self.pivot.1 == other.pivot.1
            && self.pivot.2 == other.pivot.2 && self.rotation.0 == other.rotation.0
            && self.rotation.1 == other.rotation.1 && self.rotation.2 == other.rotation.2;
        if !head_eq {
            return false;
        }
        let n = self.cubes.len();
        if n != other.cubes.len() {
            return false;
        }
        let mut i: usize = 0;
        while i < n
            invariant
                n == self.cubes@.len(),
                n == other.cubes@.len(),
                i <= n,
                forall|j: int| 0 <= j < i ==> self.cubes@[j] == other.cubes@[j],
            decreases n - i,
        {
            if self.cubes[i] != other.cubes[i] {
                return false;
            }
            i = i + 1;
        }
        proof {
            assert(self.cubes@ =~= other.cubes@);
            assert(self@ =~= other@);
        }
        true
    }
}

impl Eq for BlockGeo {

}

impl vstd::std_specs::cmp::PartialEqSpecImpl for BlockGeo {
    open spec fn obeys_eq_spec() -> bool {
        true
    }

    open spec fn eq_spec(&self, other: &Self) -> bool {
        self@ == other@
    }
}

impl Default for BlockGeo {
    /// The full-cube block shape.
    fn default() -> (res: Self)
        ensures
            res@ == standard_geo_model(),
    {
        let cubes = vec![
            FaceDescript {
                uv: [
                    ((0i8, 0i8), (16i8, 16i8)),
                    ((0i8, 0i8), (16i8, 16i8)),
                    ((16i8, 16i8), (-16i8, -16i8)),
                    ((16i8, 16i8), (-16i8, -16i8)),
                    ((0i8, 0i8), (16i8, 16i8)),
                    ((0i8, 0i8), (16i8, 16i8)),
                ],
                discard: [false, false, false, false, false, false],
                texture_variance: [false, false, false, false, false, false],
                cull: [true, true, true, true, true, true],
                origin: (0i8, 0i8, 0i8),
                end: (16i8, 16i8, 16i8),
                rotation: (0i8, 0i8, 0i8),
                pivot: (0i8, 0i8, 0i8),
            },
        ];
        let res = BlockGeo { pivot: (0i8, 0i8, 0i8), rotation: (0i8, 0i8, 0i8), cubes };
        proof {
            assert(res@.cubes =~= standard_geo_model().cubes);
        }
        res
    }
}

impl Clone for BlockGeo {
    fn clone(&self) -> (res: Self)
        ensures
            res@ == self@,
    {
        let res = BlockGeo {
            pivot: self.pivot,
            rotation: self.rotation,
            cubes: self.cubes.clone(),
        };
        proof {
            assert forall|i: int| 0 <= i < res.cubes@.len() implies res.cubes@[i]
                == self.cubes@[i] by {
                assert(cloned::<FaceDescript>(self.cubes@[i], res.cubes@[i]));
            }
            assert(res.cubes@ =~= self.cubes@);
        }
        res
    }
}

impl BlockGeo {
    /// Whether this shape is exactly the full-cube shape; only such
    /// neighbors occlude for ambient-occlusion purposes.
    pub fn is_standard(&self) -> (r: bool)
        ensures
            r == (self@ == standard_geo_model()),
    {
        if !(self.pivot.0 == 0 && self.pivot.1 == 0 && self.pivot.2 == 0) {
            proof {
                assert(self@ != standard_geo_model());
            }
            return false;
        }
        if !(self.rotation.0 == 0 && self.rotation.1 == 0 && self.rotation.2 == 0) {
            return false;
        }
        if self.cubes.len() != 1 {
            proof {
                assert(standard_geo_model().cubes.len() == 1);
            }
            return false;
        }
        let c = self.cubes[0];
        let is_std = c == standard_cube_exec();
        proof {
            if is_std {
                assert(self@.cubes =~= standard_geo_model().cubes);
                assert(self@ == standard_geo_model());
            } else {
                assert(self@.cubes[0] != standard_geo_model().cubes[0]);
            }
        }
        is_std
    }
}

/// The full-cube box, as a runtime value.
pub fn standard_cube_exec() -> (r: FaceDescript)
    ensures
        r == standard_cube(),
{
    FaceDescript {
        uv: [
            ((0i8, 0i8), (16i8, 16i8)),
            ((0i8, 0i8), (16i8, 16i8)),
            ((16i8, 16i8), (-16i8, -16i8)),
            ((16i8, 16i8), (-16i8, -16i8)),
            ((0i8, 0i8), (16i8, 16i8)),
            ((0i8, 0i8), (16i8, 16i8)),
        ],
        discard: [false, false, false, false, false, false],
        texture_variance: [false, false, false, false, false, false],
        cull: [true, true, true, true, true, true],
        origin: (0i8, 0i8, 0i8),
        end: (16i8, 16i8, 16i8),
        rotation: (0i8, 0i8, 0i8),
        pivot: (0i8, 0i8, 0i8),
    }
}

/// A named shape: its registry key, display name, per-face occlusion flags,
/// and the boxes themselves.
#[derive(Debug)]
pub struct Geometry {
    pub namespace: String,
    pub name: String,
    pub blocks: [bool; 6],
    pub blocks_self: Option<[bool; 6]>,
    pub element: BlockGeo,
}

/// Everything a `Geometry` holds, field by field, over sequences.
pub struct GeometryModel {
    pub namespace: Seq<char>,
    pub name: Seq<char>,
    pub blocks: [bool; 6],
    pub blocks_self: Option<[bool; 6]>,
    pub element: BlockGeoModel,
}

impl View for Geometry {
    type V = GeometryModel;

    open spec fn view(&self) -> GeometryModel {
        GeometryModel {
            namespace: self.namespace@,
            name: self.name@,
            blocks: self.blocks,
            blocks_self: self.blocks_self,
            element: self.element@,
        }
    }
}

impl Clone for Geometry {
    fn clone(&self) -> (res: Self)
        ensures
            res@ == self@,
    {
        Geometry {
            namespace: self.namespace.clone(),
            name: self.name.clone(),
            blocks: self.blocks,
            blocks_self: self.blocks_self,
            element: self.element.clone(),
        }
    }
}

impl Default for Geometry {
    /// The standard full-cube geometry under an empty name: every face
    /// occludes its neighbor.
    fn default() -> (res: Self)
        ensures
            res@.namespace == Seq::<char>::empty(),
            res@.name == Seq::<char>::empty(),
            res@.blocks == [true, true, true, true, true, true],
            res@.blocks_self is None,
            res@.element == standard_geo_model(),
    {
        Geometry {
            namespace: String::new(),
            name: String::new(),
            blocks: [true, true, true, true, true, true],
            blocks_self: None,
            element: BlockGeo::default(),
        }
    }
}

/// Mapping from geometry namespace to geometry, searched by key.
pub struct GeometryRegistry(pub Vec<(String, Geometry)>);

impl GeometryRegistry {
    /// The geometry stored under `id`, if any.
    pub open spec fn spec_get(&self, id: Seq<char>) -> Option<Geometry> {
        assoc_lookup(entries_view(self.0@), id)
    }

    pub fn new() -> (r: Self)
        ensures
            forall|q: Seq<char>| #[trigger] r.spec_get(q) is None,
    {
        let r = GeometryRegistry(Vec::new());
        proof {
            assert forall|q: Seq<char>| #[trigger] r.spec_get(q) is None by {
                assert(entries_view(r.0@).len() == 0);
            }
        }
        r
    }

    pub fn get(&self, id: &String) -> (r: Option<&Geometry>)
        ensures
            match r {
                Some(g) => self.spec_get(id@) == Some(*g),
                None => self.spec_get(id@) is None,
            },
    {
        assoc_get(&self.0, id)
    }

    pub fn insert(&mut self, id: String, geometry: Geometry)
        ensures
            forall|q: Seq<char>|
                #[trigger] final(self).spec_get(q) == if q == id@ {
                    Some(geometry)
                } else {
                    old(self).spec_get(q)
                },
    {
        assoc_set(&mut self.0, id, geometry);
    }
}

} // verus!
