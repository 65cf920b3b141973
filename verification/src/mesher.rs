use vstd::prelude::*;
use crate::boundary::{ChunkBoundary, RenderedBlockData, spec_blinearize, BOUNDARY_EDGE};
use crate::geometry::{BlockGeo, FaceDescript};
use crate::voxel::VoxelVisibility;

verus! {

pub const EMPTY: VoxelVisibility = VoxelVisibility::Empty;

pub const OPAQUE: VoxelVisibility = VoxelVisibility::Opaque;

pub const TRANSPARENT: VoxelVisibility = VoxelVisibility::Transparent;

/// One emitted rectangle: the stencil cell it came from, its in-plane and
/// depth extents in sixteenths, the cube it belongs to, and a copy of the
/// cell's render data.
#[derive(Debug, Clone, Copy)]
pub struct Quad {
    pub voxel: [usize; 3],
    pub start: (i8, i8, i8),
    pub end: (i8, i8, i8),
    pub cube: usize,
    pub data: RenderedBlockData,
}

/// The per-face-direction quad lists: 0 = x-, 1 = x+, 2 = y-, 3 = y+,
/// 4 = z-, 5 = z+.
pub struct QuadGroups {
    pub groups: [Vec<Quad>; 6],
}

impl Default for QuadGroups {
    fn default() -> (res: Self)
        ensures
            forall|s: int| 0 <= s < 6 ==> #[trigger] res.groups[s]@ == Seq::<Quad>::empty(),
    {
        let res = QuadGroups {
            groups: [Vec::new(), Vec::new(), Vec::new(), Vec::new(), Vec::new(), Vec::new()],
        };
        proof {
            assert forall|s: int| 0 <= s < 6 implies #[trigger] res.groups[s]@
                == Seq::<Quad>::empty() by {
                assert(res.groups[s]@.len() == 0);
                assert(res.groups[s]@ =~= Seq::<Quad>::empty());
            }
        }
        res
    }
}

/// The index of the face opposite face `i`: x- pairs with x+, and so on.
pub open spec fn opposite_face(i: int) -> int {
    if i % 2 == 0 {
        i + 1
    } else {
        i - 1
    }
}

/// The stencil coordinate one step from `(x, y, z)` through face `i`.
pub open spec fn face_neighbor(x: int, y: int, z: int, i: int) -> (int, int, int) {
    if i == 0 {
        (x - 1, y, z)
    } else if i == 1 {
        (x + 1, y, z)
    } else if i == 2 {
        (x, y - 1, z)
    } else if i == 3 {
        (x, y + 1, z)
    } else if i == 4 {
        (x, y, z - 1)
    } else {
        (x, y, z + 1)
    }
}

/// Whether the neighbor's matching face occludes face `i` of this cell.
pub open spec fn spec_blocked(nb: RenderedBlockData, i: int) -> bool {
    nb.blocks[opposite_face(i)]
}

/// Whether the neighbor occludes identical adjacent geometry on face `i`.
pub open spec fn spec_blocked_self(nb: RenderedBlockData, i: int) -> bool {
    match nb.blocks_self {
        Some(b) => b[opposite_face(i)],
        None => false,
    }
}

/// The emission rule for face `i` of one cube of a cell, given the facing
/// neighbor and the pass: a culled-and-blocked face survives only into the
/// pass that shows through its neighbor; any other face is emitted exactly
/// when the pass matches the cell's visibility and the neighbor does not
/// block it.
pub open spec fn should_emit(
    voxel: RenderedBlockData,
    nb: RenderedBlockData,
    cube: FaceDescript,
    i: int,
    solid_pass: bool,
) -> bool {
    if voxel.visibility == VoxelVisibility::Empty {
        false
    } else if cube.discard[i] {
        false
    } else {
        let culled = cube.cull[i];
        let blocked = spec_blocked(nb, i);
        let blocked_self = spec_blocked_self(nb, i);
        if culled && (blocked || (nb.geo_index == voxel.geo_index && blocked_self)) {
            if solid_pass {
                (voxel.visibility == VoxelVisibility::Opaque && (nb.visibility
                    == VoxelVisibility::Empty || nb.visibility == VoxelVisibility::Transparent))
                    || (voxel.visibility == VoxelVisibility::Transparent && nb.visibility
                    == VoxelVisibility::Transparent && voxel.match_index != nb.match_index)
            } else {
                (voxel.visibility == VoxelVisibility::Transparent && nb.visibility
                    == VoxelVisibility::Empty) || (voxel.visibility
                    == VoxelVisibility::Transparent && nb.visibility
                    == VoxelVisibility::Transparent && voxel.match_index != nb.match_index)
            }
        } else {
            ((voxel.visibility == VoxelVisibility::Opaque && solid_pass) || (voxel.visibility
                == VoxelVisibility::Transparent && !solid_pass)) && !blocked
        }
    }
}

/// The in-plane and depth extents of a quad on face `i` of a cube, read
/// from the cube's origin and end.
pub open spec fn quad_start(cube: FaceDescript, i: int) -> (i8, i8, i8) {
    (
        if i < 2 {
            cube.origin.1
        } else {
            cube.origin.0
        },
        if i < 4 {
            cube.origin.2
        } else {
            cube.origin.1
        },
        if i < 2 {
            cube.origin.0
        } else if i < 4 {
            cube.origin.1
        } else {
            cube.origin.2
        },
    )
}

pub open spec fn quad_end(cube: FaceDescript, i: int) -> (i8, i8, i8) {
    (
        if i < 2 {
            cube.end.1
        } else {
            cube.end.0
        },
        if i < 4 {
            cube.end.2
        } else {
            cube.end.1
        },
        if i < 2 {
            cube.end.0
        } else if i < 4 {
            cube.end.1
        } else {
            cube.end.2
        },
    )
}

/// The quad face `i` of cube `cube_num` of the cell at `(x, y, z)` emits.
pub open spec fn quad_for(
    voxel: RenderedBlockData,
    cube: FaceDescript,
    cube_num: int,
    i: int,
    x: int,
    y: int,
    z: int,
) -> Quad {
    Quad {
        voxel: [x as usize, y as usize, z as usize],
        start: quad_start(cube, i),
        end: quad_end(cube, i),
        cube: cube_num as usize,
        data: voxel,
    }
}

/// The slot of the shape palette a cell resolves to.
pub open spec fn cell_geo_index(c: RenderedBlockData) -> int {
    match c.geo_index {
        Some(j) => j as int,
        None => 0,
    }
}

/// The shape of the cell at stencil index `ci`.
pub open spec fn cell_geo(b: &ChunkBoundary, ci: int) -> BlockGeo {
    b.pal()[cell_geo_index(b.cells()[ci])]
}

/// The quads the first `ncubes` cubes of the cell at `(x, y, z)` contribute
/// to group `i`, in cube order.
pub open spec fn cell_cube_quads(
    b: &ChunkBoundary,
    solid_pass: bool,
    i: int,
    x: int,
    y: int,
    z: int,
    ncubes: int,
) -> Seq<Quad>
    decreases ncubes,
{
    if ncubes <= 0 {
        Seq::empty()
    } else {
        let prev = cell_cube_quads(b, solid_pass, i, x, y, z, ncubes - 1);
        let voxel = b.cells()[spec_blinearize(x, y, z)];
        let cube = cell_geo(b, spec_blinearize(x, y, z))@.cubes[ncubes - 1];
        let nbc = face_neighbor(x, y, z, i);
        let nb = b.cells()[spec_blinearize(nbc.0, nbc.1, nbc.2)];
        if should_emit(voxel, nb, cube, i, solid_pass) {
            prev.push(quad_for(voxel, cube, ncubes - 1, i, x, y, z))
        } else {
            prev
        }
    }
}

/// The quads the cell at `(x, y, z)` contributes to group `i`.
pub open spec fn cell_quads(
    b: &ChunkBoundary,
    solid_pass: bool,
    i: int,
    x: int,
    y: int,
    z: int,
) -> Seq<Quad> {
    let voxel = b.cells()[spec_blinearize(x, y, z)];
    if voxel.visibility == VoxelVisibility::Empty {
        Seq::empty()
    } else {
        cell_cube_quads(
            b,
            solid_pass,
            i,
            x,
            y,
            z,
            cell_geo(b, spec_blinearize(x, y, z))@.cubes.len() as int,
        )
    }
}

/// The interior cell visited `t`-th by the mesher: x innermost, then y,
/// then z.
pub open spec fn visit_x(t: int) -> int {
    1 + t % 16
}

pub open spec fn visit_y(t: int) -> int {
    1 + (t / 16) % 16
}

pub open spec fn visit_z(t: int) -> int {
    1 + t / 256
}

/// Group `i` after the first `t` interior cells have been visited.
pub open spec fn group_quads_upto(b: &ChunkBoundary, solid_pass: bool, i: int, t: int) -> Seq<Quad>
    decreases t,
{
    if t <= 0 {
        Seq::empty()
    } else {
        group_quads_upto(b, solid_pass, i, t - 1) + cell_quads(
            b,
            solid_pass,
            i,
            visit_x(t - 1),
            visit_y(t - 1),
            visit_z(t - 1),
        )
    }
}

/// Everything group `i` holds after a full pass over the interior.
pub open spec fn group_quads(b: &ChunkBoundary, solid_pass: bool, i: int) -> Seq<Quad> {
    group_quads_upto(b, solid_pass, i, 4096)
}

/// Fill the six quad groups for one pass: every interior cell is visited in
/// x-then-y-then-z order, and face `i` of each of its cubes lands in group
/// `i` exactly when the emission rule fires against the facing neighbor.
pub fn generate_mesh(chunk: &ChunkBoundary, solid_pass: bool, buffer: &mut QuadGroups)
    requires
        chunk.wf(),
    ensures
        forall|s: int|
            0 <= s < 6 ==> #[trigger] final(buffer).groups[s]@ == group_quads(
                chunk,
                solid_pass,
                s,
            ),
{
    *buffer = QuadGroups::default();
    let mut t: usize = 0;
    while t < 4096
        invariant
            chunk.wf(),
            t <= 4096,
            forall|s: int|
                0 <= s < 6 ==> #[trigger] buffer.groups[s]@ == group_quads_upto(
                    chunk,
                    solid_pass,
                    s,
                    t as int,
                ),
        decreases 4096 - t,
    {
        let x = 1 + t % 16;
        let y = 1 + (t / 16) % 16;
        let z = 1 + t / 256;
        let cells = chunk.voxels();
        let voxel = cells[ChunkBoundary::linearize(x, y, z)];
        if voxel.visibility == VoxelVisibility::Empty {
            proof {
                assert forall|s: int| 0 <= s < 6 implies #[trigger] buffer.groups[s]@
                    == group_quads_upto(chunk, solid_pass, s, t as int + 1) by {
                    assert(cell_quads(chunk, solid_pass, s, x as int, y as int, z as int)
                        =~= Seq::<Quad>::empty());
                    assert(buffer.groups[s]@ =~= buffer.groups[s]@ + Seq::<Quad>::empty());
                }
            }
        } else {
            let gi = match voxel.geo_index {
                Some(j) => j,
                None => 0,
            };
            proof {
                assert(crate::boundary::cell_wf(
                    chunk.cells()[spec_blinearize(x as int, y as int, z as int)],
                    chunk.pal().len() as int,
                ));
            }
            let pal = chunk.geo_palette();
            let geo = &pal[gi];
            let ncubes = geo.cubes.len();
            let mut cube_num: usize = 0;
            while cube_num < ncubes
                invariant
                    chunk.wf(),
                    t < 4096,
                    x == 1 + t % 16,
                    y == 1 + (t / 16) % 16,
                    z == 1 + t / 256,
                    cells@ == chunk.cells(),
                    voxel == chunk.cells()[spec_blinearize(x as int, y as int, z as int)],
                    voxel.visibility != VoxelVisibility::Empty,
                    gi == cell_geo_index(voxel),
                    gi < chunk.pal().len(),
                    *geo == cell_geo(chunk, spec_blinearize(x as int, y as int, z as int)),
                    ncubes == geo.cubes@.len(),
                    cube_num <= ncubes,
                    forall|s: int|
                        0 <= s < 6 ==> #[trigger] buffer.groups[s]@ == group_quads_upto(
                            chunk,
                            solid_pass,
                            s,
                            t as int,
                        ) + cell_cube_quads(
                            chunk,
                            solid_pass,
                            s,
                            x as int,
                            y as int,
                            z as int,
                            cube_num as int,
                        ),
                decreases ncubes - cube_num,
            {
                let cube = geo.cubes[cube_num];
                let neighbor_block: [RenderedBlockData; 6] = [
                    cells[ChunkBoundary::linearize(x - 1, y, z)],
                    cells[ChunkBoundary::linearize(x + 1, y, z)],
                    cells[ChunkBoundary::linearize(x, y - 1, z)],
                    cells[ChunkBoundary::linearize(x, y + 1, z)],
                    cells[ChunkBoundary::linearize(x, y, z - 1)],
                    cells[ChunkBoundary::linearize(x, y, z + 1)],
                ];
                let mut i: usize = 0;
                while i < 6
                    invariant
                        chunk.wf(),
                        t < 4096,
                        x == 1 + t % 16,
                        y == 1 + (t / 16) % 16,
                        z == 1 + t / 256,
                        voxel == chunk.cells()[spec_blinearize(x as int, y as int, z as int)],
                        voxel.visibility != VoxelVisibility::Empty,
                        gi == cell_geo_index(voxel),
                        gi < chunk.pal().len(),
                        *geo == cell_geo(chunk, spec_blinearize(x as int, y as int, z as int)),
                        ncubes == geo.cubes@.len(),
                        cube_num < ncubes,
                        cube == geo.cubes@[cube_num as int],
                        i <= 6,
                        neighbor_block[0] == chunk.cells()[spec_blinearize(
                            x as int - 1,
                            y as int,
                            z as int,
                        )],
                        neighbor_block[1] == chunk.cells()[spec_blinearize(
                            x as int + 1,
                            y as int,
                            z as int,
                        )],
                        neighbor_block[2] == chunk.cells()[spec_blinearize(
                            x as int,
                            y as int - 1,
                            z as int,
                        )],
                        neighbor_block[3] == chunk.cells()[spec_blinearize(
                            x as int,
                            y as int + 1,
                            z as int,
                        )],
                        neighbor_block[4] == chunk.cells()[spec_blinearize(
                            x as int,
                            y as int,
                            z as int - 1,
                        )],
                        neighbor_block[5] == chunk.cells()[spec_blinearize(
                            x as int,
                            y as int,
                            z as int + 1,
                        )],
                        forall|s: int|
                            0 <= s < i ==> #[trigger] buffer.groups[s]@ == group_quads_upto(
                                chunk,
                                solid_pass,
                                s,
                                t as int,
                            ) + cell_cube_quads(
                                chunk,
                                solid_pass,
                                s,
                                x as int,
                                y as int,
                                z as int,
                                cube_num as int + 1,
                            ),
                        forall|s: int|
                            i <= s < 6 ==> #[trigger] buffer.groups[s]@ == group_quads_upto(
                                chunk,
                                solid_pass,
                                s,
                                t as int,
                            ) + cell_cube_quads(
                                chunk,
                                solid_pass,
                                s,
                                x as int,
                                y as int,
                                z as int,
                                cube_num as int,
                            ),
                    decreases 6 - i,
                {
                    let culled = cube.cull[i];
                    let discard = cube.discard[i];
                    let neighbor = neighbor_block[i];
                    let blocked = match i {
                        0 => neighbor.blocks[1],
                        1 => neighbor.blocks[0],
                        2 => neighbor.blocks[3],
                        3 => neighbor.blocks[2],
                        4 => neighbor.blocks[5],
                        _ => neighbor.blocks[4],
                    };
                    let blocked_self = match neighbor.blocks_self {
                        Some(blocks) => match i {
                            0 => blocks[1],
                            1 => blocks[0],
                            2 => blocks[3],
                            3 => blocks[2],
                            4 => blocks[5],
                            _ => blocks[4],
                        },
                        None => false,
                    };
                    let generate = if discard {
                        false
                    } else if culled && (blocked || (option_usize_eq(
                        neighbor.geo_index,
                        voxel.geo_index,
                    ) && blocked_self)) {
                        if solid_pass {
                            match (voxel.visibility, neighbor.visibility) {
                                (VoxelVisibility::Opaque, VoxelVisibility::Empty) => true,
                                (VoxelVisibility::Opaque, VoxelVisibility::Transparent) => true,
                                (VoxelVisibility::Transparent, VoxelVisibility::Transparent) => {
                                    voxel.match_index != neighbor.match_index
                                },
                                _ => false,
                            }
                        } else {
                            match (voxel.visibility, neighbor.visibility) {
                                (VoxelVisibility::Transparent, VoxelVisibility::Empty) => true,
                                (VoxelVisibility::Transparent, VoxelVisibility::Transparent) => {
                                    voxel.match_index != neighbor.match_index
                                },
                                _ => false,
                            }
                        }
                    } else {
                        ((match voxel.visibility {
                            VoxelVisibility::Opaque => solid_pass,
                            _ => false,
                        }) || (match voxel.visibility {
                            VoxelVisibility::Transparent => !solid_pass,
                            _ => false,
                        })) && !blocked
                    };
                    proof {
                        let nbc = face_neighbor(x as int, y as int, z as int, i as int);
                        assert(neighbor == chunk.cells()[spec_blinearize(nbc.0, nbc.1, nbc.2)]);
                        assert(blocked == spec_blocked(neighbor, i as int));
                        assert(blocked_self == spec_blocked_self(neighbor, i as int));
                        assert(generate == should_emit(
                            voxel,
                            neighbor,
                            cube,
                            i as int,
                            solid_pass,
                        ));
                    }
                    if generate {
                        let origin_one = if i < 2 {
                            cube.origin.1
                        } else {
                            cube.origin.0
                        };
                        let origin_two = if i < 4 {
                            cube.origin.2
                        } else {
                            cube.origin.1
                        };
                        let end_one = if i < 2 {
                            cube.end.1
                        } else {
                            cube.end.0
                        };
                        let end_two = if i < 4 {
                            cube.end.2
                        } else {
                            cube.end.1
                        };
                        let self_start = if i < 2 {
                            cube.origin.0
                        } else if i < 4 {
                            cube.origin.1
                        } else {
                            cube.origin.2
                        };
                        let self_end = if i < 2 {
                            cube.end.0
                        } else if i < 4 {
                            cube.end.1
                        } else {
                            cube.end.2
                        };
                        let q = Quad {
                            voxel: [x, y, z],
                            start: (origin_one, origin_two, self_start),
                            end: (end_one, end_two, self_end),
                            cube: cube_num,
                            data: voxel,
                        };
                        push_group(buffer, i, q);
                        proof {
                            assert(q == quad_for(
                                voxel,
                                cube,
                                cube_num as int,
                                i as int,
                                x as int,
                                y as int,
                                z as int,
                            ));
                        }
                    }
                    proof {
                        assert(cell_cube_quads(
                            chunk,
                            solid_pass,
                            i as int,
                            x as int,
                            y as int,
                            z as int,
                            cube_num as int + 1,
                        ) == if generate {
                            cell_cube_quads(
                                chunk,
                                solid_pass,
                                i as int,
                                x as int,
                                y as int,
                                z as int,
                                cube_num as int,
                            ).push(
                                quad_for(
                                    voxel,
                                    cube,
                                    cube_num as int,
                                    i as int,
                                    x as int,
                                    y as int,
                                    z as int,
                                ),
                            )
                        } else {
                            cell_cube_quads(
                                chunk,
                                solid_pass,
                                i as int,
                                x as int,
                                y as int,
                                z as int,
                                cube_num as int,
                            )
                        });
                    }
                    i = i + 1;
                }
                cube_num = cube_num + 1;
            }
            proof {
                assert forall|s: int| 0 <= s < 6 implies #[trigger] buffer.groups[s]@
                    == group_quads_upto(chunk, solid_pass, s, t as int + 1) by {
                    assert(cell_quads(chunk, solid_pass, s, x as int, y as int, z as int)
                        == cell_cube_quads(
                        chunk,
                        solid_pass,
                        s,
                        x as int,
                        y as int,
                        z as int,
                        ncubes as int,
                    ));
                }
            }
        }
        t = t + 1;
    }
    proof {
        assert forall|s: int| 0 <= s < 6 implies #[trigger] buffer.groups[s]@ == group_quads(
            chunk,
            solid_pass,
            s,
        ) by {}
    }
}

/// Equality of optional palette slots.
fn option_usize_eq(a: Option<usize>, b: Option<usize>) -> (r: bool)
    ensures
        r == (a == b),
{
    match (a, b) {
        (None, None) => true,
        (Some(va), Some(vb)) => va == vb,
        _ => false,
    }
}

/// Append a quad to group `i`.
fn push_group(buffer: &mut QuadGroups, i: usize, q: Quad)
    requires
        i < 6,
    ensures
        final(buffer).groups[i as int]@ == old(buffer).groups[i as int]@.push(q),
        forall|s: int|
            0 <= s < 6 && s != i ==> #[trigger] final(buffer).groups[s]@ == old(buffer).groups[s]@,
{
    buffer.groups[i].push(q);
}


/// A face axis and direction.
#[derive(Debug, PartialEq, Eq, Structural, Clone, Copy)]
pub enum Axis {
    X,
    Y,
    Z,
}

/// One of the six cube face directions.
#[derive(Debug, PartialEq, Eq, Structural, Clone, Copy)]
pub struct Side {
    pub axis: Axis,
    pub positive: bool,
}

/// The side a group index stands for.
pub open spec fn side_of_index(i: int) -> Side {
    if i == 0 {
        Side { axis: Axis::X, positive: false }
    } else if i == 1 {
        Side { axis: Axis::X, positive: true }
    } else if i == 2 {
        Side { axis: Axis::Y, positive: false }
    } else if i == 3 {
        Side { axis: Axis::Y, positive: true }
    } else if i == 4 {
        Side { axis: Axis::Z, positive: false }
    } else {
        Side { axis: Axis::Z, positive: true }
    }
}

/// The outward unit normal of a side.
pub open spec fn spec_normal(s: Side) -> [i8; 3] {
    match s.axis {
        Axis::X => if s.positive {
            [1i8, 0i8, 0i8]
        } else {
            [-1i8, 0i8, 0i8]
        },
        Axis::Y => if s.positive {
            [0i8, 1i8, 0i8]
        } else {
            [0i8, -1i8, 0i8]
        },
        Axis::Z => if s.positive {
            [0i8, 0i8, 1i8]
        } else {
            [0i8, 0i8, -1i8]
        },
    }
}

impl Side {
    pub fn new(axis: Axis, positive: bool) -> (r: Self)
        ensures
            r == (Side { axis, positive }),
    {
        Side { axis, positive }
    }

    /// The outward unit normal, in whole units.
    pub fn normal(&self) -> (r: [i8; 3])
        ensures
            r == spec_normal(*self),
    {
        let r = match (&self.axis, &self.positive) {
            (Axis::X, true) => [1i8, 0i8, 0i8],
            (Axis::X, false) => [-1i8, 0i8, 0i8],
            (Axis::Y, true) => [0i8, 1i8, 0i8],
            (Axis::Y, false) => [0i8, -1i8, 0i8],
            (Axis::Z, true) => [0i8, 0i8, 1i8],
            (Axis::Z, false) => [0i8, 0i8, -1i8],
        };
        proof {
            assert(r =~= spec_normal(*self));
        }
        r
    }

    /// The outward unit normal, repeated for a quad's four corners.
    pub fn normals(&self) -> (r: [[i8; 3]; 4])
        ensures
            forall|c: int| 0 <= c < 4 ==> #[trigger] r[c] == spec_normal(*self),
    {
        let n = self.normal();
        let r = [n, n, n, n];
        proof {
            assert forall|c: int| 0 <= c < 4 implies #[trigger] r[c] == spec_normal(*self) by {}
        }
        r
    }

    /// The side of a group index.
    pub fn from_index(value: usize) -> (r: Side)
        requires
            value < 6,
        ensures
            r == side_of_index(value as int),
    {
        match value {
            0 => Side::new(Axis::X, false),
            1 => Side::new(Axis::X, true),
            2 => Side::new(Axis::Y, false),
            3 => Side::new(Axis::Y, true),
            4 => Side::new(Axis::Z, false),
            _ => Side::new(Axis::Z, true),
        }
    }
}

/// The ambient-occlusion level of one quad corner from its two edge
/// neighbors and its corner neighbor: 0 is darkest, 3 fully open.
pub open spec fn spec_ao_value(side1: bool, corner: bool, side2: bool) -> u32 {
    if side1 && side2 {
        0
    } else if (side1 && corner) || (corner && side2) {
        1
    } else if !side1 && !corner && !side2 {
        3
    } else {
        2
    }
}

pub fn ao_value(side1: bool, corner: bool, side2: bool) -> (r: u32)
    ensures
        r == spec_ao_value(side1, corner, side2),
{
    match (side1, corner, side2) {
        (true, _, true) => 0,
        (true, true, false) => 1,
        (false, true, true) => 1,
        (false, false, false) => 3,
        _ => 2,
    }
}

/// A light level mapped to a brightness in hundredths.
pub open spec fn spec_light_to_intern(color: u8) -> u16 {
    if color <= 2 {
        25
    } else if color <= 4 {
        40
    } else if color <= 9 {
        50
    } else if color == 10 {
        60
    } else if color == 11 {
        70
    } else if color == 12 {
        75
    } else if color == 13 {
        80
    } else if color == 14 {
        90
    } else {
        100
    }
}

pub fn light_to_intern(color: u8) -> (r: u16)
    ensures
        r == spec_light_to_intern(color),
{
    match color {
        0 => 25,
        1 => 25,
        2 => 25,
        3 => 40,
        4 => 40,
        5 => 50,
        6 => 50,
        7 => 50,
        8 => 50,
        9 => 50,
        10 => 60,
        11 => 70,
        12 => 75,
        13 => 80,
        14 => 90,
        _ => 100,
    }
}

/// The `j`-th sample of the ring of stencil neighbors just outside a face,
/// as an offset from the face's cell; clockwise, per axis and direction.
pub open spec fn ring_offset(side: Side, j: int) -> (int, int, int) {
    match side.axis {
        Axis::X => if !side.positive {
            if j == 0 {
                (-1, 0, 1)
            } else if j == 1 {
                (-1, -1, 1)
            } else if j == 2 {
                (-1, -1, 0)
            } else if j == 3 {
                (-1, -1, -1)
            } else if j == 4 {
                (-1, 0, -1)
            } else if j == 5 {
                (-1, 1, -1)
            } else if j == 6 {
                (-1, 1, 0)
            } else {
                (-1, 1, 1)
            }
        } else {
            if j == 0 {
                (1, 0, -1)
            } else if j == 1 {
                (1, -1, -1)
            } else if j == 2 {
                (1, -1, 0)
            } else if j == 3 {
                (1, -1, 1)
            } else if j == 4 {
                (1, 0, 1)
            } else if j == 5 {
                (1, 1, 1)
            } else if j == 6 {
                (1, 1, 0)
            } else {
                (1, 1, -1)
            }
        },
        Axis::Y => if !side.positive {
            if j == 0 {
                (-1, -1, 0)
            } else if j == 1 {
                (-1, -1, 1)
            } else if j == 2 {
                (0, -1, 1)
            } else if j == 3 {
                (1, -1, 1)
            } else if j == 4 {
                (1, -1, 0)
            } else if j == 5 {
                (1, -1, -1)
            } else if j == 6 {
                (0, -1, -1)
            } else {
                (-1, -1, -1)
            }
        } else {
            if j == 0 {
                (0, 1, 1)
            } else if j == 1 {
                (-1, 1, 1)
            } else if j == 2 {
                (-1, 1, 0)
            } else if j == 3 {
                (-1, 1, -1)
            } else if j == 4 {
                (0, 1, -1)
            } else if j == 5 {
                (1, 1, -1)
            } else if j == 6 {
                (1, 1, 0)
            } else {
                (1, 1, 1)
            }
        },
        Axis::Z => if !side.positive {
            if j == 0 {
                (-1, 0, -1)
            } else if j == 1 {
                (-1, -1, -1)
            } else if j == 2 {
                (0, -1, -1)
            } else if j == 3 {
                (1, -1, -1)
            } else if j == 4 {
                (1, 0, -1)
            } else if j == 5 {
                (1, 1, -1)
            } else if j == 6 {
                (0, 1, -1)
            } else {
                (-1, 1, -1)
            }
        } else {
            if j == 0 {
                (1, 0, 1)
            } else if j == 1 {
                (1, -1, 1)
            } else if j == 2 {
                (0, -1, 1)
            } else if j == 3 {
                (-1, -1, 1)
            } else if j == 4 {
                (-1, 0, 1)
            } else if j == 5 {
                (-1, 1, 1)
            } else if j == 6 {
                (0, 1, 1)
            } else {
                (1, 1, 1)
            }
        },
    }
}

/// Whether a stencil cell occludes for ambient-occlusion purposes: opaque,
/// and shaped as the plain full cube.
pub open spec fn spec_sample_solid(b: &ChunkBoundary, x: int, y: int, z: int) -> bool {
    let c = b.cells()[spec_blinearize(x, y, z)];
    c.visibility == VoxelVisibility::Opaque && b.pal()[cell_geo_index(c)]@
        == crate::geometry::standard_geo_model()
}

/// The occlusion contribution of ring sample `j` of the face at `(x,y,z)`.
pub open spec fn ring_solid(b: &ChunkBoundary, side: Side, x: int, y: int, z: int, j: int) -> bool {
    let o = ring_offset(side, j);
    spec_sample_solid(b, x + o.0, y + o.1, z + o.2)
}

/// The first ring sample of corner `c`; corners take three consecutive ring
/// samples each.
pub open spec fn corner_base(c: int) -> int {
    if c == 0 {
        0
    } else if c == 1 {
        2
    } else if c == 2 {
        6
    } else {
        4
    }
}

/// The ambient-occlusion level of corner `c` of the face at `(x, y, z)`.
pub open spec fn spec_face_ao(b: &ChunkBoundary, side: Side, x: int, y: int, z: int, c: int) -> u32 {
    let j = corner_base(c);
    spec_ao_value(
        ring_solid(b, side, x, y, z, j),
        ring_solid(b, side, x, y, z, j + 1),
        ring_solid(b, side, x, y, z, (j + 2) % 8),
    )
}

/// The brightness of ring sample `j`, in hundredths; a cell without a light
/// value counts as fully bright.
pub open spec fn ring_light(b: &ChunkBoundary, side: Side, x: int, y: int, z: int, j: int) -> u16 {
    let o = ring_offset(side, j);
    let cell = b.cells()[spec_blinearize(x + o.0, y + o.1, z + o.2)];
    spec_light_to_intern(
        match cell.light {
            Some(l) => l,
            None => 16,
        },
    )
}

/// The light of corner `c` of the face at `(x, y, z)`: the sum of three
/// consecutive ring samples, in three-hundredths of full brightness.
pub open spec fn spec_face_light(
    b: &ChunkBoundary,
    side: Side,
    x: int,
    y: int,
    z: int,
    c: int,
) -> u16 {
    let j = corner_base(c);
    (ring_light(b, side, x, y, z, j) + ring_light(b, side, x, y, z, j + 1) + ring_light(
        b,
        side,
        x,
        y,
        z,
        (j + 2) % 8,
    )) as u16
}

/// The ring offsets at runtime.
fn ring_coords(side: Side, j: usize) -> (r: (i32, i32, i32))
    requires
        j < 8,
    ensures
        (r.0 as int, r.1 as int, r.2 as int) == ring_offset(side, j as int),
{
    let along: i32 = if side.positive {
        1
    } else {
        -1
    };
    let (a, b): (i32, i32) = match side.axis {
        Axis::X => if side.positive {
            match j {
                0 => (0, -1),
                1 => (-1, -1),
                2 => (-1, 0),
                3 => (-1, 1),
                4 => (0, 1),
                5 => (1, 1),
                6 => (1, 0),
                _ => (1, -1),
            }
        } else {
            match j {
                0 => (0, 1),
                1 => (-1, 1),
                2 => (-1, 0),
                3 => (-1, -1),
                4 => (0, -1),
                5 => (1, -1),
                6 => (1, 0),
                _ => (1, 1),
            }
        },
        Axis::Y => if side.positive {
            match j {
                0 => (0, 1),
                1 => (-1, 1),
                2 => (-1, 0),
                3 => (-1, -1),
                4 => (0, -1),
                5 => (1, -1),
                6 => (1, 0),
                _ => (1, 1),
            }
        } else {
            match j {
                0 => (-1, 0),
                1 => (-1, 1),
                2 => (0, 1),
                3 => (1, 1),
                4 => (1, 0),
                5 => (1, -1),
                6 => (0, -1),
                _ => (-1, -1),
            }
        },
        Axis::Z => if side.positive {
            match j {
                0 => (1, 0),
                1 => (1, -1),
                2 => (0, -1),
                3 => (-1, -1),
                4 => (-1, 0),
                5 => (-1, 1),
                6 => (0, 1),
                _ => (1, 1),
            }
        } else {
            match j {
                0 => (-1, 0),
                1 => (-1, -1),
                2 => (0, -1),
                3 => (1, -1),
                4 => (1, 0),
                5 => (1, 1),
                6 => (0, 1),
                _ => (-1, 1),
            }
        },
    };
    match side.axis {
        Axis::X => (along, a, b),
        Axis::Y => (a, along, b),
        Axis::Z => (a, b, along),
    }
}

/// Whether the stencil cell at `(x, y, z)` occludes for ambient occlusion.
fn sample_solid(chunk: &ChunkBoundary, x: usize, y: usize, z: usize) -> (r: bool)
    requires
        chunk.wf(),
        chunk.pal().len() >= 1,
        x < BOUNDARY_EDGE,
        y < BOUNDARY_EDGE,
        z < BOUNDARY_EDGE,
    ensures
        r == spec_sample_solid(chunk, x as int, y as int, z as int),
{
    let cells = chunk.voxels();
    let c = cells[ChunkBoundary::linearize(x, y, z)];
    proof {
        assert(crate::boundary::cell_wf(
            chunk.cells()[spec_blinearize(x as int, y as int, z as int)],
            chunk.pal().len() as int,
        ));
    }
    let gi = match c.geo_index {
        Some(j) => j,
        None => 0,
    };
    let pal = chunk.geo_palette();
    let geo = &pal[gi];
    let opaque = match c.visibility {
        VoxelVisibility::Opaque => true,
        _ => false,
    };
    opaque && geo.is_standard()
}

/// One rendered face: its direction and its quad.
#[derive(Debug, Clone, Copy)]
pub struct Face {
    pub side: Side,
    pub quad: Quad,
}

impl Face {
    /// The stencil cell the face belongs to.
    pub fn voxel(&self) -> (r: [usize; 3])
        ensures
            r == self.quad.voxel,
    {
        self.quad.voxel
    }
}

/// The four corner ambient-occlusion levels of a face, from the ring of
/// eight stencil neighbors just outside it.
pub fn face_aos(face: &Face, chunk: &ChunkBoundary) -> (r: [u32; 4])
    requires
        chunk.wf(),
        chunk.pal().len() >= 1,
        1 <= face.quad.voxel[0] <= 16,
        1 <= face.quad.voxel[1] <= 16,
        1 <= face.quad.voxel[2] <= 16,
    ensures
        forall|c: int|
            0 <= c < 4 ==> #[trigger] r[c] == spec_face_ao(
                chunk,
                face.side,
                face.quad.voxel[0] as int,
                face.quad.voxel[1] as int,
                face.quad.voxel[2] as int,
                c,
            ),
{
    let x = face.quad.voxel[0];
    let y = face.quad.voxel[1];
    let z = face.quad.voxel[2];
    let mut ns = [false, false, false, false, false, false, false, false];
    let mut j: usize = 0;
    while j < 8
        invariant
            chunk.wf(),
            chunk.pal().len() >= 1,
            x == face.quad.voxel[0],
            y == face.quad.voxel[1],
            z == face.quad.voxel[2],
            1 <= x <= 16,
            1 <= y <= 16,
            1 <= z <= 16,
            j <= 8,
            forall|m: int|
                0 <= m < j ==> #[trigger] ns[m] == ring_solid(
                    chunk,
                    face.side,
                    x as int,
                    y as int,
                    z as int,
                    m,
                ),
        decreases 8 - j,
    {
        let o = ring_coords(face.side, j);
        let sx = (x as i32 + o.0) as usize;
        let sy = (y as i32 + o.1) as usize;
        let sz = (z as i32 + o.2) as usize;
        let s = sample_solid(chunk, sx, sy, sz);
        ns[j] = s;
        j = j + 1;
    }
    let r = [
        ao_value(ns[0], ns[1], ns[2]),
        ao_value(ns[2], ns[3], ns[4]),
        ao_value(ns[6], ns[7], ns[0]),
        ao_value(ns[4], ns[5], ns[6]),
    ];
    proof {
        assert forall|c: int| 0 <= c < 4 implies #[trigger] r[c] == spec_face_ao(
            chunk,
            face.side,
            face.quad.voxel[0] as int,
            face.quad.voxel[1] as int,
            face.quad.voxel[2] as int,
            c,
        ) by {}
    }
    r
}

/// The four corner light values of a face, in three-hundredths of full
/// brightness, from the same ring of neighbors.
pub fn face_lights(face: &Face, chunk: &ChunkBoundary) -> (r: [u16; 4])
    requires
        chunk.wf(),
        1 <= face.quad.voxel[0] <= 16,
        1 <= face.quad.voxel[1] <= 16,
        1 <= face.quad.voxel[2] <= 16,
    ensures
        forall|c: int|
            0 <= c < 4 ==> #[trigger] r[c] == spec_face_light(
                chunk,
                face.side,
                face.quad.voxel[0] as int,
                face.quad.voxel[1] as int,
                face.quad.voxel[2] as int,
                c,
            ),
{
    let x = face.quad.voxel[0];
    let y = face.quad.voxel[1];
    let z = face.quad.voxel[2];
    let mut ls = [0u16, 0u16, 0u16, 0u16, 0u16, 0u16, 0u16, 0u16];
    let mut j: usize = 0;
    while j < 8
        invariant
            chunk.wf(),
            x == face.quad.voxel[0],
            y == face.quad.voxel[1],
            z == face.quad.voxel[2],
            1 <= x <= 16,
            1 <= y <= 16,
            1 <= z <= 16,
            j <= 8,
            forall|m: int|
                0 <= m < j ==> #[trigger] ls[m] == ring_light(
                    chunk,
                    face.side,
                    x as int,
                    y as int,
                    z as int,
                    m,
                ),
        decreases 8 - j,
    {
        let o = ring_coords(face.side, j);
        let sx = (x as i32 + o.0) as usize;
        let sy = (y as i32 + o.1) as usize;
        let sz = (z as i32 + o.2) as usize;
        let cells = chunk.voxels();
        let cell = cells[ChunkBoundary::linearize(sx, sy, sz)];
        let lv = match cell.light {
            Some(l) => l,
            None => 16,
        };
        ls[j] = light_to_intern(lv);
        j = j + 1;
    }
    let r = [
        ls[0] + ls[1] + ls[2],
        ls[2] + ls[3] + ls[4],
        ls[6] + ls[7] + ls[0],
        ls[4] + ls[5] + ls[6],
    ];
    proof {
        assert forall|c: int| 0 <= c < 4 implies #[trigger] r[c] == spec_face_light(
            chunk,
            face.side,
            face.quad.voxel[0] as int,
            face.quad.voxel[1] as int,
            face.quad.voxel[2] as int,
            c,
        ) by {}
    }
    r
}


/// A face with its corner ambient-occlusion and light values attached.
pub struct FaceWithAO {
    face: Face,
    aos: [u32; 4],
    light: [u16; 4],
}

impl FaceWithAO {
    pub closed spec fn spec_face(&self) -> Face {
        self.face
    }

    pub closed spec fn spec_aos(&self) -> [u32; 4] {
        self.aos
    }

    pub closed spec fn spec_light(&self) -> [u16; 4] {
        self.light
    }

    /// The underlying face.
    pub fn face(&self) -> (r: &Face)
        ensures
            *r == self.spec_face(),
    {
        &self.face
    }

    pub fn new(face: Face, chunk: &ChunkBoundary) -> (r: Self)
        requires
            chunk.wf(),
            chunk.pal().len() >= 1,
            1 <= face.quad.voxel[0] <= 16,
            1 <= face.quad.voxel[1] <= 16,
            1 <= face.quad.voxel[2] <= 16,
        ensures
            r.spec_face() == face,
            forall|c: int|
                0 <= c < 4 ==> #[trigger] r.spec_aos()[c] == spec_face_ao(
                    chunk,
                    face.side,
                    face.quad.voxel[0] as int,
                    face.quad.voxel[1] as int,
                    face.quad.voxel[2] as int,
                    c,
                ),
            forall|c: int|
                0 <= c < 4 ==> #[trigger] r.spec_light()[c] == spec_face_light(
                    chunk,
                    face.side,
                    face.quad.voxel[0] as int,
                    face.quad.voxel[1] as int,
                    face.quad.voxel[2] as int,
                    c,
                ),
    {
        let aos = face_aos(&face, chunk);
        let light = face_lights(&face, chunk);
        FaceWithAO { face, aos, light }
    }

    pub fn aos(&self) -> (r: [u32; 4])
        ensures
            r == self.spec_aos(),
    {
        self.aos
    }

    pub fn light(&self) -> (r: [u16; 4])
        ensures
            r == self.spec_light(),
    {
        self.light
    }

    /// The two triangles of the quad, flipped along the other diagonal when
    /// the ambient-occlusion gradient asks for it.
    pub fn indices(&self, start: u32) -> (r: [u32; 6])
        requires
            start + 3 <= u32::MAX,
        ensures
            forall|slot: int|
                0 <= slot < 6 ==> #[trigger] r[slot] == spec_index_entry(
                    aos_flipped(self.spec_aos()),
                    start as int,
                    slot,
                ),
    {
        let aos = self.aos();
        let r = if (aos[1] as u64 + aos[2] as u64) > (aos[0] as u64 + aos[3] as u64) {
            [start, start + 2, start + 1, start + 1, start + 2, start + 3]
        } else {
            [start, start + 3, start + 1, start, start + 2, start + 3]
        };
        proof {
            assert forall|slot: int| 0 <= slot < 6 implies #[trigger] r[slot] == spec_index_entry(
                aos_flipped(self.spec_aos()),
                start as int,
                slot,
            ) by {}
        }
        r
    }
}

/// Whether the quad's triangles are flipped to follow the AO gradient.
pub open spec fn aos_flipped(aos: [u32; 4]) -> bool {
    aos[1] + aos[2] > aos[0] + aos[3]
}

/// The `slot`-th index entry of a quad whose corners start at `base`.
pub open spec fn spec_index_entry(flipped: bool, base: int, slot: int) -> int {
    if flipped {
        if slot == 0 {
            base
        } else if slot == 1 {
            base + 2
        } else if slot == 2 {
            base + 1
        } else if slot == 3 {
            base + 1
        } else if slot == 4 {
            base + 2
        } else {
            base + 3
        }
    } else {
        if slot == 0 {
            base
        } else if slot == 1 {
            base + 3
        } else if slot == 2 {
            base + 1
        } else if slot == 3 {
            base
        } else if slot == 4 {
            base + 2
        } else {
            base + 3
        }
    }
}

/// The winding-table corner `c` of a quad in face-local coordinates, in
/// sixteenths of a voxel.
pub open spec fn local_corner(q: Quad, side: Side, c: int) -> (int, int, int) {
    let min_one = q.start.0 as int;
    let min_two = q.start.1 as int;
    let min_self = q.start.2 as int;
    let max_one = q.end.0 as int;
    let max_two = q.end.1 as int;
    let max_self = q.end.2 as int;
    match side.axis {
        Axis::X => if !side.positive {
            if c == 0 {
                (min_self, min_one, max_two)
            } else if c == 1 {
                (min_self, min_one, min_two)
            } else if c == 2 {
                (min_self, max_one, max_two)
            } else {
                (min_self, max_one, min_two)
            }
        } else {
            if c == 0 {
                (max_self, min_one, min_two)
            } else if c == 1 {
                (max_self, min_one, max_two)
            } else if c == 2 {
                (max_self, max_one, min_two)
            } else {
                (max_self, max_one, max_two)
            }
        },
        Axis::Y => if !side.positive {
            if c == 0 {
                (min_one, min_self, max_two)
            } else if c == 1 {
                (max_one, min_self, max_two)
            } else if c == 2 {
                (min_one, min_self, min_two)
            } else {
                (max_one, min_self, min_two)
            }
        } else {
            if c == 0 {
                (min_one, max_self, max_two)
            } else if c == 1 {
                (min_one, max_self, min_two)
            } else if c == 2 {
                (max_one, max_self, max_two)
            } else {
                (max_one, max_self, min_two)
            }
        },
        Axis::Z => if !side.positive {
            if c == 0 {
                (min_one, min_two, min_self)
            } else if c == 1 {
                (max_one, min_two, min_self)
            } else if c == 2 {
                (min_one, max_two, min_self)
            } else {
                (max_one, max_two, min_self)
            }
        } else {
            if c == 0 {
                (max_one, min_two, max_self)
            } else if c == 1 {
                (min_one, min_two, max_self)
            } else if c == 2 {
                (max_one, max_two, max_self)
            } else {
                (min_one, max_two, max_self)
            }
        },
    }
}

/// Corner `c` of a quad in chunk-local coordinates, in sixteenths of a
/// voxel and before any cube or block rotation.
pub open spec fn spec_position(q: Quad, side: Side, c: int) -> (int, int, int) {
    let lc = local_corner(q, side, c);
    (
        (q.voxel[0] as int - 1) * 16 + lc.0,
        (q.voxel[1] as int - 1) * 16 + lc.1,
        (q.voxel[2] as int - 1) * 16 + lc.2,
    )
}

impl Face {
    /// The two triangles of the quad without the AO flip.
    pub fn indices(&self, start: u32) -> (r: [u32; 6])
        requires
            start + 3 <= u32::MAX,
        ensures
            forall|slot: int|
                0 <= slot < 6 ==> #[trigger] r[slot] == spec_index_entry(true, start as int, slot),
    {
        let r = [start, start + 2, start + 1, start + 1, start + 2, start + 3];
        proof {
            assert forall|slot: int| 0 <= slot < 6 implies #[trigger] r[slot] == spec_index_entry(
                true,
                start as int,
                slot,
            ) by {}
        }
        r
    }

    /// The four unrotated corner positions of the quad, in sixteenths of a
    /// voxel from the chunk origin; cube and block rotations are applied by
    /// the rendering layer from the shape's pivot data.
    pub fn positions(&self) -> (r: [[i32; 3]; 4])
        requires
            1 <= self.quad.voxel[0] <= 16,
            1 <= self.quad.voxel[1] <= 16,
            1 <= self.quad.voxel[2] <= 16,
        ensures
            forall|c: int|
                0 <= c < 4 ==> (#[trigger] r[c][0] as int, r[c][1] as int, r[c][2] as int)
                    == spec_position(self.quad, self.side, c),
    {
        let min_one = self.quad.start.0 as i32;
        let min_two = self.quad.start.1 as i32;
        let min_self = self.quad.start.2 as i32;
        let max_one = self.quad.end.0 as i32;
        let max_two = self.quad.end.1 as i32;
        let max_self = self.quad.end.2 as i32;
        let local: [[i32; 3]; 4] = match (&self.side.axis, &self.side.positive) {
            (Axis::X, false) => [
                [min_self, min_one, max_two],
                [min_self, min_one, min_two],
                [min_self, max_one, max_two],
                [min_self, max_one, min_two],
            ],
            (Axis::X, true) => [
                [max_self, min_one, min_two],
                [max_self, min_one, max_two],
                [max_self, max_one, min_two],
                [max_self, max_one, max_two],
            ],
            (Axis::Y, false) => [
                [min_one, min_self, max_two],
                [max_one, min_self, max_two],
                [min_one, min_self, min_two],
                [max_one, min_self, min_two],
            ],
            (Axis::Y, true) => [
                [min_one, max_self, max_two],
                [min_one, max_self, min_two],
                [max_one, max_self, max_two],
                [max_one, max_self, min_two],
            ],
            (Axis::Z, false) => [
                [min_one, min_two, min_self],
                [max_one, min_two, min_self],
                [min_one, max_two, min_self],
                [max_one, max_two, min_self],
            ],
            (Axis::Z, true) => [
                [max_one, min_two, max_self],
                [min_one, min_two, max_self],
                [max_one, max_two, max_self],
                [min_one, max_two, max_self],
            ],
        };
        let bx = (self.quad.voxel[0] as i32 - 1) * 16;
        let by = (self.quad.voxel[1] as i32 - 1) * 16;
        let bz = (self.quad.voxel[2] as i32 - 1) * 16;
        let r = [
            [bx + local[0][0], by + local[0][1], bz + local[0][2]],
            [bx + local[1][0], by + local[1][1], bz + local[1][2]],
            [bx + local[2][0], by + local[2][1], bz + local[2][2]],
            [bx + local[3][0], by + local[3][1], bz + local[3][2]],
        ];
        proof {
            assert forall|c: int| 0 <= c < 4 implies (
            #[trigger] r[c][0] as int,
            r[c][1] as int,
            r[c][2] as int,
            ) == spec_position(self.quad, self.side, c) by {
                if c == 0 {
                } else if c == 1 {
                } else if c == 2 {
                } else {
                }
            }
        }
        r
    }

    /// The outward unit normal, repeated for the quad's four corners.
    pub fn normals(&self) -> (r: [[i8; 3]; 4])
        ensures
            forall|c: int| 0 <= c < 4 ==> #[trigger] r[c] == spec_normal(self.side),
    {
        self.side.normals()
    }
}

/// The slot of a cube's per-face texture placement used by a side.
pub open spec fn face_slot(side: Side) -> int {
    match side.axis {
        Axis::X => if side.positive {
            1
        } else {
            0
        },
        Axis::Y => if side.positive {
            3
        } else {
            2
        },
        Axis::Z => if side.positive {
            5
        } else {
            4
        },
    }
}

/// A texture rectangle small enough that adding texel offsets cannot
/// overflow.
pub open spec fn uv_rect_bounded(t: crate::voxel::UVRect) -> bool {
    -1000000 <= t.x <= 1000000 && -1000000 <= t.y <= 1000000
}

/// Corner `c` of a face's texture rectangle, in atlas pixels: the block's
/// atlas rectangle shifted by the cube's per-face texel offset and size.
pub open spec fn spec_uv_corner(
    tex: crate::voxel::UVRect,
    cube: FaceDescript,
    side: Side,
    c: int,
) -> (int, int) {
    let fi = face_slot(side);
    let min_x = tex.x as int + cube.uv[fi].0.0 as int;
    let min_y = tex.y as int + cube.uv[fi].0.1 as int;
    let max_x = min_x + cube.uv[fi].1.0 as int;
    let max_y = min_y + cube.uv[fi].1.1 as int;
    if c == 0 {
        (min_x, max_y)
    } else if c == 1 {
        (max_x, max_y)
    } else if c == 2 {
        (min_x, min_y)
    } else {
        (max_x, min_y)
    }
}

impl Face {
    /// The four corner texture coordinates of the quad, in atlas pixels;
    /// a quad without textures maps to the atlas origin. The rendering
    /// layer divides by the atlas size to normalize.
    pub fn uvs(&self, matched_ind: usize, chunk: &ChunkBoundary) -> (r: [[i32; 2]; 4])
        requires
            chunk.wf(),
            matched_ind < 6,
            cell_geo_index(self.quad.data) < chunk.pal().len(),
            self.quad.cube < chunk.pal()[cell_geo_index(self.quad.data)]@.cubes.len(),
            self.quad.data.textures matches Some(t) ==> forall|k: int|
                0 <= k < 6 ==> uv_rect_bounded(#[trigger] t[k]),
        ensures
            match self.quad.data.textures {
                Some(t) => forall|c: int|
                    0 <= c < 4 ==> (#[trigger] r[c][0] as int, r[c][1] as int) == spec_uv_corner(
                        t[matched_ind as int],
                        chunk.pal()[cell_geo_index(self.quad.data)]@.cubes[self.quad.cube as int],
                        self.side,
                        c,
                    ),
                None => forall|c: int| 0 <= c < 4 ==> #[trigger] r[c] == [0i32, 0i32],
            },
    {
        match self.quad.data.textures {
            Some(textures) => {
                let texture_uv = textures[matched_ind];
                let gi = match self.quad.data.geo_index {
                    Some(j) => j,
                    None => 0,
                };
                let pal = chunk.geo_palette();
                let geo = &pal[gi];
                let cube = geo.cubes[self.quad.cube];
                let fi: usize = match (&self.side.axis, &self.side.positive) {
                    (Axis::X, false) => 0,
                    (Axis::X, true) => 1,
                    (Axis::Y, false) => 2,
                    (Axis::Y, true) => 3,
                    (Axis::Z, false) => 4,
                    (Axis::Z, true) => 5,
                };
                let uv = cube.uv[fi];
                let min_x = texture_uv.x + uv.0.0 as i32;
                let min_y = texture_uv.y + uv.0.1 as i32;
                let max_x = min_x + uv.1.0 as i32;
                let max_y = min_y + uv.1.1 as i32;
                let r = [[min_x, max_y], [max_x, max_y], [min_x, min_y], [max_x, min_y]];
                proof {
                    let t = self.quad.data.textures.unwrap();
                    assert(t[matched_ind as int] == texture_uv);
                    assert forall|c: int| 0 <= c < 4 implies (
                    #[trigger] r[c][0] as int,
                    r[c][1] as int,
                    ) == spec_uv_corner(
                        t[matched_ind as int],
                        chunk.pal()[cell_geo_index(self.quad.data)]@.cubes[self.quad.cube as int],
                        self.side,
                        c,
                    ) by {}
                }
                r
            },
            None => {
                let r = [[0i32, 0i32], [0i32, 0i32], [0i32, 0i32], [0i32, 0i32]];
                proof {
                    assert forall|c: int| 0 <= c < 4 implies #[trigger] r[c] == [0i32, 0i32] by {
                        assert(r[c] =~= [0i32, 0i32]);
                    }
                }
                r
            },
        }
    }
}


/// Everything true of any quad the mesher emits into group `i`.
pub open spec fn quad_ok(b: &ChunkBoundary, q: Quad) -> bool {
    &&& 1 <= q.voxel[0] <= 16
    &&& 1 <= q.voxel[1] <= 16
    &&& 1 <= q.voxel[2] <= 16
    &&& q.data == b.cells()[spec_blinearize(
        q.voxel[0] as int,
        q.voxel[1] as int,
        q.voxel[2] as int,
    )]
    &&& q.data.visibility != VoxelVisibility::Empty
    &&& cell_geo_index(q.data) < b.pal().len()
    &&& (q.cube as int) < b.pal()[cell_geo_index(q.data)]@.cubes.len()
}

/// Every interned shape has at most `maxc` boxes.
pub open spec fn pal_cubes_bounded(b: &ChunkBoundary, maxc: int) -> bool {
    forall|j: int| 0 <= j < b.pal().len() ==> #[trigger] b.pal()[j]@.cubes.len() <= maxc
}

/// Every textured cell's atlas rectangles are small enough to offset.
pub open spec fn boundary_tex_bounded(b: &ChunkBoundary) -> bool {
    forall|i: int, k: int|
        0 <= i < b.cells().len() && 0 <= k < 6 && b.cells()[i].textures is Some
            ==> uv_rect_bounded(#[trigger] b.cells()[i].textures.unwrap()[k])
}

proof fn lemma_cell_cube_quads_ok(
    b: &ChunkBoundary,
    solid_pass: bool,
    i: int,
    x: int,
    y: int,
    z: int,
    n: int,
)
    requires
        b.wf(),
        1 <= x <= 16,
        1 <= y <= 16,
        1 <= z <= 16,
        n <= b.pal()[cell_geo_index(b.cells()[spec_blinearize(x, y, z)])]@.cubes.len(),
    ensures
        cell_cube_quads(b, solid_pass, i, x, y, z, n).len() <= if n >= 0 {
            n
        } else {
            0
        },
        forall|m: int|
            0 <= m < cell_cube_quads(b, solid_pass, i, x, y, z, n).len() ==> quad_ok(
                b,
                #[trigger] cell_cube_quads(b, solid_pass, i, x, y, z, n)[m],
            ),
    decreases n,
{
    if n > 0 {
        lemma_cell_cube_quads_ok(b, solid_pass, i, x, y, z, n - 1);
        let ci = spec_blinearize(x, y, z);
        let voxel = b.cells()[ci];
        let cube = cell_geo(b, ci)@.cubes[n - 1];
        let nbc = face_neighbor(x, y, z, i);
        let nb = b.cells()[spec_blinearize(nbc.0, nbc.1, nbc.2)];
        if should_emit(voxel, nb, cube, i, solid_pass) {
            assert(0 <= ci < 5832);
            assert(crate::boundary::cell_wf(b.cells()[ci], b.pal().len() as int));
            assert(quad_ok(b, quad_for(voxel, cube, n - 1, i, x, y, z)));
        }
    }
}

proof fn lemma_group_quads_ok(b: &ChunkBoundary, solid_pass: bool, i: int, t: int, maxc: int)
    requires
        b.wf(),
        pal_cubes_bounded(b, maxc),
        0 <= maxc,
        t <= 4096,
    ensures
        group_quads_upto(b, solid_pass, i, t).len() <= if t >= 0 {
            t * maxc
        } else {
            0
        },
        forall|m: int|
            0 <= m < group_quads_upto(b, solid_pass, i, t).len() ==> quad_ok(
                b,
                #[trigger] group_quads_upto(b, solid_pass, i, t)[m],
            ),
    decreases t,
{
    if t > 0 {
        lemma_group_quads_ok(b, solid_pass, i, t - 1, maxc);
        let x = visit_x(t - 1);
        let y = visit_y(t - 1);
        let z = visit_z(t - 1);
        assert(1 <= x <= 16 && 1 <= y <= 16 && 1 <= z <= 16);
        let ci = spec_blinearize(x, y, z);
        let voxel = b.cells()[ci];
        if voxel.visibility == VoxelVisibility::Empty {
            assert(cell_quads(b, solid_pass, i, x, y, z).len() == 0);
        } else {
            assert(0 <= ci < 5832);
            assert(crate::boundary::cell_wf(b.cells()[ci], b.pal().len() as int));
            let ncubes = cell_geo(b, ci)@.cubes.len() as int;
            assert(ncubes <= maxc);
            lemma_cell_cube_quads_ok(b, solid_pass, i, x, y, z, ncubes);
        }
        assert((t - 1) * maxc + maxc == t * maxc) by (nonlinear_arith);
    }
}

/// The faces of one group: its quads, each paired with the group's side.
pub open spec fn group_faces(b: &ChunkBoundary, solid_pass: bool, s: int) -> Seq<Face> {
    group_quads(b, solid_pass, s).map_values(|q: Quad| (Face { side: side_of_index(s), quad: q }))
}

/// The faces of the first `s` groups.
pub open spec fn faces_upto(b: &ChunkBoundary, solid_pass: bool, s: int) -> Seq<Face>
    decreases s,
{
    if s <= 0 {
        Seq::empty()
    } else {
        faces_upto(b, solid_pass, s - 1) + group_faces(b, solid_pass, s - 1)
    }
}

/// Every face one pass renders, group by group.
pub open spec fn pass_faces(b: &ChunkBoundary, solid_pass: bool) -> Seq<Face> {
    faces_upto(b, solid_pass, 6)
}

/// The texture-rectangle slot a side reads: the atlas layout keys its six
/// rectangles up, down, west, east, south, north, not in group order.
pub open spec fn matched_slot(side: Side) -> int {
    match side.axis {
        Axis::X => if side.positive {
            3
        } else {
            2
        },
        Axis::Y => if side.positive {
            0
        } else {
            1
        },
        Axis::Z => if side.positive {
            4
        } else {
            5
        },
    }
}

/// The corner AO of a face, looked up at its cell.
pub open spec fn face_ao_of(b: &ChunkBoundary, f: Face, c: int) -> u32 {
    spec_face_ao(
        b,
        f.side,
        f.quad.voxel[0] as int,
        f.quad.voxel[1] as int,
        f.quad.voxel[2] as int,
        c,
    )
}

/// The corner light of a face, looked up at its cell.
pub open spec fn face_light_of(b: &ChunkBoundary, f: Face, c: int) -> u16 {
    spec_face_light(
        b,
        f.side,
        f.quad.voxel[0] as int,
        f.quad.voxel[1] as int,
        f.quad.voxel[2] as int,
        c,
    )
}

/// Whether a face's triangles follow the flipped diagonal.
pub open spec fn face_flip(b: &ChunkBoundary, f: Face) -> bool {
    face_ao_of(b, f, 1) + face_ao_of(b, f, 2) > face_ao_of(b, f, 0) + face_ao_of(b, f, 3)
}

/// The texture-pixel corner of a face.
pub open spec fn face_uv_entry(b: &ChunkBoundary, f: Face, c: int) -> (int, int) {
    match f.quad.data.textures {
        None => (0, 0),
        Some(t) => spec_uv_corner(
            t[matched_slot(f.side)],
            b.pal()[cell_geo_index(f.quad.data)]@.cubes[f.quad.cube as int],
            f.side,
            c,
        ),
    }
}

/// A mesh for rendering, in exact units: positions in sixteenths of a
/// voxel (unrotated), unit normals, triangle indices, per-vertex
/// (ambient-occlusion, light) pairs, and texture coordinates in atlas
/// pixels.
#[derive(Debug)]
pub struct VoxMesh {
    pub vertices: Vec<[i32; 3]>,
    pub normals: Vec<[i8; 3]>,
    pub indices: Vec<u32>,
    pub colors: Option<Vec<(u32, u16)>>,
    pub uvs: Option<Vec<[i32; 2]>>,
}

impl Default for VoxMesh {
    fn default() -> (res: Self)
        ensures
            res.vertices@.len() == 0,
            res.normals@.len() == 0,
            res.indices@.len() == 0,
            res.colors is None,
            res.uvs is None,
    {
        VoxMesh {
            vertices: Vec::new(),
            normals: Vec::new(),
            indices: Vec::new(),
            colors: None,
            uvs: None,
        }
    }
}

/// The two meshes of a chunk and its position.
#[derive(Debug)]
pub struct MeshedChunk {
    pub chunk_mesh: VoxMesh,
    pub transparent_mesh: VoxMesh,
    pub pos: crate::position::ChunkPos,
}

/// The geometry arrays of `m` are exactly those of the given pass, face by
/// face and corner by corner.
pub open spec fn mesh_geometry_ok(b: &ChunkBoundary, solid_pass: bool, m: VoxMesh) -> bool {
    let fs = pass_faces(b, solid_pass);
    &&& m.vertices@.len() == 4 * fs.len()
    &&& m.normals@.len() == 4 * fs.len()
    &&& m.indices@.len() == 6 * fs.len()
    &&& m.uvs is Some
    &&& m.uvs.unwrap()@.len() == 4 * fs.len()
    &&& forall|idx: int|
        0 <= idx < 4 * fs.len() ==> (
        #[trigger] m.vertices@[idx][0] as int,
        m.vertices@[idx][1] as int,
        m.vertices@[idx][2] as int,
        ) == spec_position(fs[idx / 4].quad, fs[idx / 4].side, idx % 4)
    &&& forall|idx: int|
        0 <= idx < 4 * fs.len() ==> #[trigger] m.normals@[idx] == spec_normal(fs[idx / 4].side)
    &&& forall|idx: int|
        0 <= idx < 6 * fs.len() ==> #[trigger] m.indices@[idx] as int == spec_index_entry(
            face_flip(b, fs[idx / 6]),
            4 * (idx / 6),
            idx % 6,
        )
    &&& forall|idx: int|
        0 <= idx < 4 * fs.len() ==> (
        #[trigger] m.uvs.unwrap()@[idx][0] as int,
        m.uvs.unwrap()@[idx][1] as int,
        ) == face_uv_entry(b, fs[idx / 4], idx % 4)
}

/// The color array of `m` carries the solid pass's per-vertex ambient
/// occlusion and light.
pub open spec fn mesh_colors_ok(b: &ChunkBoundary, m: VoxMesh) -> bool {
    let fs = pass_faces(b, true);
    &&& m.colors is Some
    &&& m.colors.unwrap()@.len() == 4 * fs.len()
    &&& forall|idx: int|
        0 <= idx < 4 * fs.len() ==> #[trigger] m.colors.unwrap()@[idx] == (
        face_ao_of(b, fs[idx / 4], idx % 4),
        face_light_of(b, fs[idx / 4], idx % 4),
        )
}

struct PassData {
    vertices: Vec<[i32; 3]>,
    normals: Vec<[i8; 3]>,
    indices: Vec<u32>,
    uvs: Vec<[i32; 2]>,
    ao: Vec<u32>,
    light: Vec<u16>,
}

/// Render one pass into flat arrays, visiting groups 0 through 5 and the
/// quads of each group in order.
#[verifier::rlimit(100)]
fn assemble_pass(chunk: &ChunkBoundary, solid_pass: bool) -> (r: PassData)
    requires
        chunk.wf(),
        boundary_tex_bounded(chunk),
        pal_cubes_bounded(chunk, 1024),
    ensures
        r.vertices@.len() == 4 * pass_faces(chunk, solid_pass).len(),
        r.normals@.len() == 4 * pass_faces(chunk, solid_pass).len(),
        r.indices@.len() == 6 * pass_faces(chunk, solid_pass).len(),
        r.uvs@.len() == 4 * pass_faces(chunk, solid_pass).len(),
        r.ao@.len() == 4 * pass_faces(chunk, solid_pass).len(),
        r.light@.len() == 4 * pass_faces(chunk, solid_pass).len(),
        forall|idx: int|
            0 <= idx < 4 * pass_faces(chunk, solid_pass).len() ==> (
            #[trigger] r.vertices@[idx][0] as int,
            r.vertices@[idx][1] as int,
            r.vertices@[idx][2] as int,
            ) == spec_position(
                pass_faces(chunk, solid_pass)[idx / 4].quad,
                pass_faces(chunk, solid_pass)[idx / 4].side,
                idx % 4,
            ),
        forall|idx: int|
            0 <= idx < 4 * pass_faces(chunk, solid_pass).len() ==> #[trigger] r.normals@[idx]
                == spec_normal(pass_faces(chunk, solid_pass)[idx / 4].side),
        forall|idx: int|
            0 <= idx < 6 * pass_faces(chunk, solid_pass).len() ==> #[trigger] r.indices@[idx] as int
                == spec_index_entry(
                face_flip(chunk, pass_faces(chunk, solid_pass)[idx / 6]),
                4 * (idx / 6),
                idx % 6,
            ),
        forall|idx: int|
            0 <= idx < 4 * pass_faces(chunk, solid_pass).len() ==> (
            #[trigger] r.uvs@[idx][0] as int,
            r.uvs@[idx][1] as int,
            ) == face_uv_entry(chunk, pass_faces(chunk, solid_pass)[idx / 4], idx % 4),
        forall|idx: int|
            0 <= idx < 4 * pass_faces(chunk, solid_pass).len() ==> #[trigger] r.ao@[idx]
                == face_ao_of(chunk, pass_faces(chunk, solid_pass)[idx / 4], idx % 4),
        forall|idx: int|
            0 <= idx < 4 * pass_faces(chunk, solid_pass).len() ==> #[trigger] r.light@[idx]
                == face_light_of(chunk, pass_faces(chunk, solid_pass)[idx / 4], idx % 4),
{
    let mut buffer = QuadGroups::default();
    generate_mesh(chunk, solid_pass, &mut buffer);
    let mut out = PassData {
        vertices: Vec::new(),
        normals: Vec::new(),
        indices: Vec::new(),
        uvs: Vec::new(),
        ao: Vec::new(),
        light: Vec::new(),
    };
    let ghost mut done: Seq<Face> = Seq::empty();
    proof {
        assert(faces_upto(chunk, solid_pass, 0) =~= Seq::<Face>::empty());
    }
    let mut s: usize = 0;
    while s < 6
        invariant
            chunk.wf(),
            boundary_tex_bounded(chunk),
            pal_cubes_bounded(chunk, 1024),
            s <= 6,
            forall|s2: int|
                0 <= s2 < 6 ==> #[trigger] buffer.groups[s2]@ == group_quads(
                    chunk,
                    solid_pass,
                    s2,
                ),
            done == faces_upto(chunk, solid_pass, s as int),
            done.len() <= s * 4194304,
            out.vertices@.len() == 4 * done.len(),
            out.normals@.len() == 4 * done.len(),
            out.indices@.len() == 6 * done.len(),
            out.uvs@.len() == 4 * done.len(),
            out.ao@.len() == 4 * done.len(),
            out.light@.len() == 4 * done.len(),
            forall|idx: int|
                0 <= idx < 4 * done.len() ==> (
                #[trigger] out.vertices@[idx][0] as int,
                out.vertices@[idx][1] as int,
                out.vertices@[idx][2] as int,
                ) == spec_position(done[idx / 4].quad, done[idx / 4].side, idx % 4),
            forall|idx: int|
                0 <= idx < 4 * done.len() ==> #[trigger] out.normals@[idx] == spec_normal(
                    done[idx / 4].side,
                ),
            forall|idx: int|
                0 <= idx < 6 * done.len() ==> #[trigger] out.indices@[idx] as int
                    == spec_index_entry(face_flip(chunk, done[idx / 6]), 4 * (idx / 6), idx % 6),
            forall|idx: int|
                0 <= idx < 4 * done.len() ==> (
                #[trigger] out.uvs@[idx][0] as int,
                out.uvs@[idx][1] as int,
                ) == face_uv_entry(chunk, done[idx / 4], idx % 4),
            forall|idx: int|
                0 <= idx < 4 * done.len() ==> #[trigger] out.ao@[idx] == face_ao_of(
                    chunk,
                    done[idx / 4],
                    idx % 4,
                ),
            forall|idx: int|
                0 <= idx < 4 * done.len() ==> #[trigger] out.light@[idx] == face_light_of(
                    chunk,
                    done[idx / 4],
                    idx % 4,
                ),
        decreases 6 - s,
    {
        proof {
            lemma_group_quads_ok(chunk, solid_pass, s as int, 4096, 1024);
        }
        let grp = &buffer.groups[s];
        let side = Side::from_index(s);
        let n = grp.len();
        let mut k: usize = 0;
        while k < n
            invariant
                chunk.wf(),
                boundary_tex_bounded(chunk),
                pal_cubes_bounded(chunk, 1024),
                s < 6,
                side == side_of_index(s as int),
                grp@ == group_quads(chunk, solid_pass, s as int),
                n == grp@.len(),
                n <= 4194304,
                forall|m: int| 0 <= m < n ==> quad_ok(chunk, #[trigger] grp@[m]),
                k <= n,
                done == faces_upto(chunk, solid_pass, s as int) + group_faces(
                    chunk,
                    solid_pass,
                    s as int,
                ).take(k as int),
                done.len() <= s * 4194304 + k,
                out.vertices@.len() == 4 * done.len(),
                out.normals@.len() == 4 * done.len(),
                out.indices@.len() == 6 * done.len(),
                out.uvs@.len() == 4 * done.len(),
                out.ao@.len() == 4 * done.len(),
                out.light@.len() == 4 * done.len(),
                forall|idx: int|
                    0 <= idx < 4 * done.len() ==> (
                    #[trigger] out.vertices@[idx][0] as int,
                    out.vertices@[idx][1] as int,
                    out.vertices@[idx][2] as int,
                    ) == spec_position(done[idx / 4].quad, done[idx / 4].side, idx % 4),
                forall|idx: int|
                    0 <= idx < 4 * done.len() ==> #[trigger] out.normals@[idx] == spec_normal(
                        done[idx / 4].side,
                    ),
                forall|idx: int|
                    0 <= idx < 6 * done.len() ==> #[trigger] out.indices@[idx] as int
                        == spec_index_entry(
                        face_flip(chunk, done[idx / 6]),
                        4 * (idx / 6),
                        idx % 6,
                    ),
                forall|idx: int|
                    0 <= idx < 4 * done.len() ==> (
                    #[trigger] out.uvs@[idx][0] as int,
                    out.uvs@[idx][1] as int,
                    ) == face_uv_entry(chunk, done[idx / 4], idx % 4),
                forall|idx: int|
                    0 <= idx < 4 * done.len() ==> #[trigger] out.ao@[idx] == face_ao_of(
                        chunk,
                        done[idx / 4],
                        idx % 4,
                    ),
                forall|idx: int|
                    0 <= idx < 4 * done.len() ==> #[trigger] out.light@[idx] == face_light_of(
                        chunk,
                        done[idx / 4],
                        idx % 4,
                    ),
            decreases n - k,
        {
            let q = grp[k];
            let face = Face { side, quad: q };
            proof {
                assert(quad_ok(chunk, q));
                assert(group_faces(chunk, solid_pass, s as int)[k as int] == face);
                assert(crate::boundary::cell_wf(
                    chunk.cells()[spec_blinearize(
                        q.voxel[0] as int,
                        q.voxel[1] as int,
                        q.voxel[2] as int,
                    )],
                    chunk.pal().len() as int,
                ));
            }
            let aos = face_aos(&face, chunk);
            let lights = face_lights(&face, chunk);
            let base = out.vertices.len() as u32;
            let flip = (aos[1] as u64 + aos[2] as u64) > (aos[0] as u64 + aos[3] as u64);
            let idx6: [u32; 6] = if flip {
                [base, base + 2, base + 1, base + 1, base + 2, base + 3]
            } else {
                [base, base + 3, base + 1, base, base + 2, base + 3]
            };
            let verts = face.positions();
            let norms = face.normals();
            let matched_index: usize = match (&side.axis, &side.positive) {
                (Axis::X, false) => 2,
                (Axis::X, true) => 3,
                (Axis::Y, false) => 1,
                (Axis::Y, true) => 0,
                (Axis::Z, false) => 5,
                (Axis::Z, true) => 4,
            };
            let uv4 = face.uvs(matched_index, chunk);
            let ghost done0 = done;
            proof {
                done = done.push(face);
                assert(face_flip(chunk, face) == flip);
                assert(group_faces(chunk, solid_pass, s as int).take(k as int + 1) =~= group_faces(
                    chunk,
                    solid_pass,
                    s as int,
                ).take(k as int).push(face));
                assert(faces_upto(chunk, solid_pass, s as int) + group_faces(
                    chunk,
                    solid_pass,
                    s as int,
                ).take(k as int + 1) =~= done);
                assert(base == 4 * done0.len());
                assert forall|slot: int| 0 <= slot < 6 implies #[trigger] idx6[slot] as int
                    == spec_index_entry(flip, base as int, slot) by {}
            }
            out.vertices.push(verts[0]);
            out.vertices.push(verts[1]);
            out.vertices.push(verts[2]);
            out.vertices.push(verts[3]);
            out.normals.push(norms[0]);
            out.normals.push(norms[1]);
            out.normals.push(norms[2]);
            out.normals.push(norms[3]);
            out.uvs.push(uv4[0]);
            out.uvs.push(uv4[1]);
            out.uvs.push(uv4[2]);
            out.uvs.push(uv4[3]);
            out.ao.push(aos[0]);
            out.ao.push(aos[1]);
            out.ao.push(aos[2]);
            out.ao.push(aos[3]);
            out.light.push(lights[0]);
            out.light.push(lights[1]);
            out.light.push(lights[2]);
            out.light.push(lights[3]);
            out.indices.push(idx6[0]);
            out.indices.push(idx6[1]);
            out.indices.push(idx6[2]);
            out.indices.push(idx6[3]);
            out.indices.push(idx6[4]);
            out.indices.push(idx6[5]);
            proof {
                assert(done.len() == done0.len() + 1);
                assert forall|idx: int| 0 <= idx < 4 * done.len() implies (
                #[trigger] out.vertices@[idx][0] as int,
                out.vertices@[idx][1] as int,
                out.vertices@[idx][2] as int,
                ) == spec_position(done[idx / 4].quad, done[idx / 4].side, idx % 4) by {
                    if idx < 4 * done0.len() {
                        assert(done[idx / 4] == done0[idx / 4]);
                    } else {
                        assert(idx / 4 == done0.len());
                        assert(done[idx / 4] == face);
                        let c = idx - 4 * done0.len();
                        assert(out.vertices@[idx] == verts@[c]);
                        assert(idx % 4 == c);
                    }
                }
                assert forall|idx: int| 0 <= idx < 4 * done.len()
                    implies #[trigger] out.normals@[idx] == spec_normal(done[idx / 4].side) by {
                    if idx < 4 * done0.len() {
                        assert(done[idx / 4] == done0[idx / 4]);
                    } else {
                        assert(idx / 4 == done0.len());
                        assert(done[idx / 4] == face);
                        let c = idx - 4 * done0.len();
                        assert(out.normals@[idx] == norms@[c]);
                    }
                }
                assert forall|idx: int| 0 <= idx < 6 * done.len()
                    implies #[trigger] out.indices@[idx] as int == spec_index_entry(
                    face_flip(chunk, done[idx / 6]),
                    4 * (idx / 6),
                    idx % 6,
                ) by {
                    if idx < 6 * done0.len() {
                        assert(done[idx / 6] == done0[idx / 6]);
                    } else {
                        assert(idx / 6 == done0.len());
                        assert(done[idx / 6] == face);
                        let slot = idx - 6 * done0.len();
                        assert(out.indices@[idx] == idx6@[slot]);
                        assert(idx % 6 == slot);
                        assert(4 * (idx / 6) == base as int);
                    }
                }
                assert forall|idx: int| 0 <= idx < 4 * done.len() implies (
                #[trigger] out.uvs@[idx][0] as int,
                out.uvs@[idx][1] as int,
                ) == face_uv_entry(chunk, done[idx / 4], idx % 4) by {
                    if idx < 4 * done0.len() {
                        assert(done[idx / 4] == done0[idx / 4]);
                    } else {
                        assert(idx / 4 == done0.len());
                        assert(done[idx / 4] == face);
                        let c = idx - 4 * done0.len();
                        assert(out.uvs@[idx] == uv4@[c]);
                        assert(idx % 4 == c);
                        assert(matched_index as int == matched_slot(face.side));
                    }
                }
                assert forall|idx: int| 0 <= idx < 4 * done.len() implies #[trigger] out.ao@[idx]
                    == face_ao_of(chunk, done[idx / 4], idx % 4) by {
                    if idx < 4 * done0.len() {
                        assert(done[idx / 4] == done0[idx / 4]);
                    } else {
                        assert(idx / 4 == done0.len());
                        assert(done[idx / 4] == face);
                        let c = idx - 4 * done0.len();
                        assert(out.ao@[idx] == aos@[c]);
                        assert(idx % 4 == c);
                    }
                }
                assert forall|idx: int| 0 <= idx < 4 * done.len()
                    implies #[trigger] out.light@[idx] == face_light_of(
                    chunk,
                    done[idx / 4],
                    idx % 4,
                ) by {
                    if idx < 4 * done0.len() {
                        assert(done[idx / 4] == done0[idx / 4]);
                    } else {
                        assert(idx / 4 == done0.len());
                        assert(done[idx / 4] == face);
                        let c = idx - 4 * done0.len();
                        assert(out.light@[idx] == lights@[c]);
                        assert(idx % 4 == c);
                    }
                }
            }
            k = k + 1;
        }
        proof {
            assert(group_faces(chunk, solid_pass, s as int).take(n as int) =~= group_faces(
                chunk,
                solid_pass,
                s as int,
            ));
            assert(done == faces_upto(chunk, solid_pass, s as int + 1));
        }
        s = s + 1;
    }
    proof {
        assert(done == pass_faces(chunk, solid_pass));
    }
    out
}


/// Mesh a boundary twice: a solid pass, then a transparent pass; both
/// meshes carry the solid pass's per-vertex ambient-occlusion and light
/// pairs. The result is pinned to a pure function of the boundary and
/// position alone, so identical inputs always mesh identically.
pub fn full_mesh(raw_chunk: &ChunkBoundary, chunk_pos: crate::position::ChunkPos) -> (r:
    MeshedChunk)
    requires
        raw_chunk.wf(),
        boundary_tex_bounded(raw_chunk),
        pal_cubes_bounded(raw_chunk, 1024),
    ensures
        r.pos == chunk_pos,
        mesh_geometry_ok(raw_chunk, true, r.chunk_mesh),
        mesh_geometry_ok(raw_chunk, false, r.transparent_mesh),
        mesh_colors_ok(raw_chunk, r.chunk_mesh),
        mesh_colors_ok(raw_chunk, r.transparent_mesh),
{
    let solid = assemble_pass(raw_chunk, true);
    let transparent = assemble_pass(raw_chunk, false);
    let n = solid.ao.len();
    let mut colors: Vec<(u32, u16)> = Vec::new();
    let mut colors2: Vec<(u32, u16)> = Vec::new();
    let mut i: usize = 0;
    while i < n
        invariant
            n == solid.ao@.len(),
            n == solid.light@.len(),
            i <= n,
            colors@.len() == i,
            colors2@.len() == i,
            forall|idx: int|
                0 <= idx < i ==> #[trigger] colors@[idx] == (solid.ao@[idx], solid.light@[idx]),
            forall|idx: int|
                0 <= idx < i ==> #[trigger] colors2@[idx] == (solid.ao@[idx], solid.light@[idx]),
        decreases n - i,
    {
        let entry = (solid.ao[i], solid.light[i]);
        colors.push(entry);
        colors2.push(entry);
        i = i + 1;
    }
    MeshedChunk {
        chunk_mesh: VoxMesh {
            vertices: solid.vertices,
            normals: solid.normals,
            indices: solid.indices,
            colors: Some(colors),
            uvs: Some(solid.uvs),
        },
        transparent_mesh: VoxMesh {
            vertices: transparent.vertices,
            normals: transparent.normals,
            indices: transparent.indices,
            colors: Some(colors2),
            uvs: Some(transparent.uvs),
        },
        pos: chunk_pos,
    }
}

/// How many of the first `t` visited interior cells are opaque.
pub open spec fn opaque_upto(b: &ChunkBoundary, t: int) -> int
    decreases t,
{
    if t <= 0 {
        0
    } else {
        opaque_upto(b, t - 1) + if b.cells()[spec_blinearize(
            visit_x(t - 1),
            visit_y(t - 1),
            visit_z(t - 1),
        )].visibility == VoxelVisibility::Opaque {
            1int
        } else {
            0int
        }
    }
}

/// How many opaque cells the mesher's interior pass sees.
pub open spec fn opaque_cells(b: &ChunkBoundary) -> int {
    opaque_upto(b, 4096)
}

proof fn lemma_quad_count_upto(b: &ChunkBoundary, maxc: int, t: int)
    requires
        b.wf(),
        pal_cubes_bounded(b, maxc),
        maxc >= 0,
        0 <= t <= 4096,
        forall|i: int|
            0 <= i < 5832 ==> (#[trigger] b.cells()[i]).visibility
                != VoxelVisibility::Transparent,
    ensures
        group_quads_upto(b, true, 0, t).len() + group_quads_upto(b, true, 1, t).len()
            + group_quads_upto(b, true, 2, t).len() + group_quads_upto(b, true, 3, t).len()
            + group_quads_upto(b, true, 4, t).len() + group_quads_upto(b, true, 5, t).len() <= 6
            * opaque_upto(b, t) * maxc,
        opaque_upto(b, t) >= 0,
    decreases t,
{
    if t > 0 {
        lemma_quad_count_upto(b, maxc, t - 1);
        let x = visit_x(t - 1);
        let y = visit_y(t - 1);
        let z = visit_z(t - 1);
        let ci = spec_blinearize(x, y, z);
        assert(0 <= ci < 5832);
        let cell = b.cells()[ci];
        if cell.visibility == VoxelVisibility::Opaque {
            assert(crate::boundary::cell_wf(b.cells()[ci], b.pal().len() as int));
            let ncubes = cell_geo(b, ci)@.cubes.len() as int;
            assert(ncubes <= maxc);
            lemma_cell_cube_quads_ok(b, true, 0, x, y, z, ncubes);
            lemma_cell_cube_quads_ok(b, true, 1, x, y, z, ncubes);
            lemma_cell_cube_quads_ok(b, true, 2, x, y, z, ncubes);
            lemma_cell_cube_quads_ok(b, true, 3, x, y, z, ncubes);
            lemma_cell_cube_quads_ok(b, true, 4, x, y, z, ncubes);
            lemma_cell_cube_quads_ok(b, true, 5, x, y, z, ncubes);
            assert(6 * (opaque_upto(b, t - 1) + 1) * maxc == 6 * opaque_upto(b, t - 1) * maxc + 6
                * maxc) by (nonlinear_arith);
        } else {
            assert(cell.visibility == VoxelVisibility::Empty);
            assert(forall|s: int|
                0 <= s < 6 ==> #[trigger] cell_quads(b, true, s, x, y, z).len() == 0);
        }
    }
}

/// In the solid pass over a boundary without transparent cells, the number
/// of emitted quads never exceeds six per opaque cell per cube of its
/// shape: at most `6 × opaque_cells × maxc` in all.
pub proof fn lemma_solid_quad_count(b: &ChunkBoundary, maxc: int)
    requires
        b.wf(),
        pal_cubes_bounded(b, maxc),
        maxc >= 0,
        forall|i: int|
            0 <= i < 5832 ==> (#[trigger] b.cells()[i]).visibility
                != VoxelVisibility::Transparent,
    ensures
        group_quads(b, true, 0).len() + group_quads(b, true, 1).len() + group_quads(
            b,
            true,
            2,
        ).len() + group_quads(b, true, 3).len() + group_quads(b, true, 4).len() + group_quads(
            b,
            true,
            5,
        ).len() <= 6 * opaque_cells(b) * maxc,
{
    lemma_quad_count_upto(b, maxc, 4096);
}

/// The faces held by six quad groups, group by group.
pub open spec fn qg_faces_upto(qg: &QuadGroups, s: int) -> Seq<Face>
    decreases s,
{
    if s <= 0 {
        Seq::empty()
    } else {
        qg_faces_upto(qg, s - 1) + qg.groups[s - 1]@.map_values(
            |q: Quad| (Face { side: side_of_index(s - 1), quad: q }),
        )
    }
}

pub open spec fn qg_faces(qg: &QuadGroups) -> Seq<Face> {
    qg_faces_upto(qg, 6)
}

impl QuadGroups {
    /// Empty all six groups.
    pub fn clear(&mut self)
        ensures
            forall|s: int| 0 <= s < 6 ==> #[trigger] final(self).groups[s]@ == Seq::<Quad>::empty(),
    {
        *self = QuadGroups::default();
    }

    /// Every face of the six groups, in group order.
    pub fn faces(&self) -> (r: Vec<Face>)
        ensures
            r@ == qg_faces(self),
    {
        let mut r: Vec<Face> = Vec::new();
        proof {
            assert(r@ =~= qg_faces_upto(self, 0));
        }
        let mut s: usize = 0;
        while s < 6
            invariant
                s <= 6,
                r@ == qg_faces_upto(self, s as int),
            decreases 6 - s,
        {
            let side = Side::from_index(s);
            let grp = &self.groups[s];
            let n = grp.len();
            let mut k: usize = 0;
            while k < n
                invariant
                    s < 6,
                    side == side_of_index(s as int),
                    grp@ == self.groups[s as int]@,
                    n == grp@.len(),
                    k <= n,
                    r@ == qg_faces_upto(self, s as int) + self.groups[s as int]@.map_values(
                        |q: Quad| (Face { side: side_of_index(s as int), quad: q }),
                    ).take(k as int),
                decreases n - k,
            {
                let q = grp[k];
                r.push(Face { side, quad: q });
                proof {
                    let mapped = self.groups[s as int]@.map_values(
                        |q2: Quad| (Face { side: side_of_index(s as int), quad: q2 }),
                    );
                    assert(mapped[k as int] == (Face { side: side_of_index(s as int), quad: q }));
                    assert(mapped.take(k as int + 1) =~= mapped.take(k as int).push(
                        mapped[k as int],
                    ));
                    assert(r@ =~= qg_faces_upto(self, s as int) + mapped.take(k as int + 1));
                }
                k = k + 1;
            }
            proof {
                let mapped = self.groups[s as int]@.map_values(
                    |q2: Quad| (Face { side: side_of_index(s as int), quad: q2 }),
                );
                assert(mapped.take(n as int) =~= mapped);
            }
            s = s + 1;
        }
        r
    }

    /// Every face of the six groups with its corner ambient-occlusion and
    /// light values attached.
    pub fn faces_with_ao(&self, chunk: &ChunkBoundary) -> (r: Vec<FaceWithAO>)
        requires
            chunk.wf(),
            chunk.pal().len() >= 1,
            forall|s: int, m: int|
                0 <= s < 6 && 0 <= m < self.groups[s]@.len() ==> quad_ok(
                    chunk,
                    #[trigger] self.groups[s]@[m],
                ),
        ensures
            r@.len() == qg_faces(self).len(),
            forall|m: int|
                0 <= m < r@.len() ==> (#[trigger] r@[m]).spec_face() == qg_faces(self)[m],
            forall|m: int, c: int|
                0 <= m < r@.len() && 0 <= c < 4 ==> (#[trigger] r@[m].spec_aos()[c]) == face_ao_of(
                    chunk,
                    qg_faces(self)[m],
                    c,
                ),
            forall|m: int, c: int|
                0 <= m < r@.len() && 0 <= c < 4 ==> (#[trigger] r@[m].spec_light()[c])
                    == face_light_of(chunk, qg_faces(self)[m], c),
    {
        let fs = self.faces();
        let ghost all = qg_faces(self);
        proof {
            lemma_qg_faces_ok(self, chunk, 6);
        }
        let mut r: Vec<FaceWithAO> = Vec::new();
        let n = fs.len();
        let mut m: usize = 0;
        while m < n
            invariant
                chunk.wf(),
                chunk.pal().len() >= 1,
                fs@ == all,
                n == fs@.len(),
                m <= n,
                forall|j: int| 0 <= j < all.len() ==> quad_ok(chunk, (#[trigger] all[j]).quad),
                r@.len() == m,
                forall|j: int| 0 <= j < m ==> (#[trigger] r@[j]).spec_face() == all[j],
                forall|j: int, c: int|
                    0 <= j < m && 0 <= c < 4 ==> (#[trigger] r@[j].spec_aos()[c]) == face_ao_of(
                        chunk,
                        all[j],
                        c,
                    ),
                forall|j: int, c: int|
                    0 <= j < m && 0 <= c < 4 ==> (#[trigger] r@[j].spec_light()[c])
                        == face_light_of(chunk, all[j], c),
            decreases n - m,
        {
            let face = fs[m];
            r.push(FaceWithAO::new(face, chunk));
            m = m + 1;
        }
        r
    }
}

proof fn lemma_qg_faces_ok(qg: &QuadGroups, chunk: &ChunkBoundary, s: int)
    requires
        0 <= s <= 6,
        forall|s2: int, m: int|
            0 <= s2 < 6 && 0 <= m < qg.groups[s2]@.len() ==> quad_ok(
                chunk,
                #[trigger] qg.groups[s2]@[m],
            ),
    ensures
        forall|j: int|
            0 <= j < qg_faces_upto(qg, s).len() ==> quad_ok(
                chunk,
                (#[trigger] qg_faces_upto(qg, s)[j]).quad,
            ),
    decreases s,
{
    if s > 0 {
        lemma_qg_faces_ok(qg, chunk, s - 1);
    }
}


proof fn lemma_cell_cube_quads_same(
    a: &ChunkBoundary,
    b: &ChunkBoundary,
    solid_pass: bool,
    i: int,
    x: int,
    y: int,
    z: int,
    n: int,
)
    requires
        a.cells() == b.cells(),
        a.pal() == b.pal(),
    ensures
        cell_cube_quads(a, solid_pass, i, x, y, z, n) == cell_cube_quads(
            b,
            solid_pass,
            i,
            x,
            y,
            z,
            n,
        ),
    decreases n,
{
    if n > 0 {
        lemma_cell_cube_quads_same(a, b, solid_pass, i, x, y, z, n - 1);
    }
}

proof fn lemma_group_quads_same(
    a: &ChunkBoundary,
    b: &ChunkBoundary,
    solid_pass: bool,
    i: int,
    t: int,
)
    requires
        a.cells() == b.cells(),
        a.pal() == b.pal(),
    ensures
        group_quads_upto(a, solid_pass, i, t) == group_quads_upto(b, solid_pass, i, t),
    decreases t,
{
    if t > 0 {
        lemma_group_quads_same(a, b, solid_pass, i, t - 1);
        let x = visit_x(t - 1);
        let y = visit_y(t - 1);
        let z = visit_z(t - 1);
        lemma_cell_cube_quads_same(
            a,
            b,
            solid_pass,
            i,
            x,
            y,
            z,
            cell_geo(a, spec_blinearize(x, y, z))@.cubes.len() as int,
        );
    }
}

proof fn lemma_faces_upto_same(a: &ChunkBoundary, b: &ChunkBoundary, solid_pass: bool, s: int)
    requires
        a.cells() == b.cells(),
        a.pal() == b.pal(),
    ensures
        faces_upto(a, solid_pass, s) == faces_upto(b, solid_pass, s),
    decreases s,
{
    if s > 0 {
        lemma_faces_upto_same(a, b, solid_pass, s - 1);
        lemma_group_quads_same(a, b, solid_pass, s - 1, 4096);
    }
}

/// Meshing is deterministic: every quantity the mesh contracts pin is a
/// function of the boundary's cells and shape palette alone, so two
/// boundaries with equal contents mesh identically.
pub proof fn lemma_mesh_deterministic(a: &ChunkBoundary, b: &ChunkBoundary, solid_pass: bool)
    requires
        a.cells() == b.cells(),
        a.pal() == b.pal(),
    ensures
        pass_faces(a, solid_pass) == pass_faces(b, solid_pass),
        forall|f: Face, c: int| #[trigger] face_ao_of(a, f, c) == face_ao_of(b, f, c),
        forall|f: Face, c: int| #[trigger] face_light_of(a, f, c) == face_light_of(b, f, c),
        forall|f: Face| #[trigger] face_flip(a, f) == face_flip(b, f),
        forall|f: Face, c: int| #[trigger] face_uv_entry(a, f, c) == face_uv_entry(b, f, c),
{
    lemma_faces_upto_same(a, b, solid_pass, 6);
}

} // verus!
