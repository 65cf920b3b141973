use vinox_voxel::boundary::{BlockMatches, ChunkBoundary, GeoPalette, RenderedBlockData, RenderedVoxel};
use vinox_voxel::chunk::ChunkData;
use vinox_voxel::geometry::{BlockGeo, BlockGeometry, FaceDescript, Geometry, GeometryRegistry};
use vinox_voxel::mesher::{
    ao_value, face_aos, full_mesh, generate_mesh, light_to_intern, Axis, Face, Quad, QuadGroups,
    Side,
};
use vinox_voxel::position::{ChunkPos, RelativeVoxelPos};
use vinox_voxel::voxel::{AssetRegistry, Block, BlockData, BlockRegistry, UVRect, VoxelVisibility};

fn test_block_entry(identifier: &str, geometry: BlockGeometry) -> Block {
    Block {
        identifier: identifier.to_string(),
        textures: None,
        geometry: Some(geometry),
        auto_geo: None,
        visibility: Some(VoxelVisibility::Opaque),
        has_item: None,
    }
}

fn registries() -> (BlockRegistry, GeometryRegistry, AssetRegistry) {
    let mut blocks = BlockRegistry::new();
    blocks.insert(
        "vinox:test".to_string(),
        test_block_entry("vinox:test", BlockGeometry::Block),
    );
    let mut geos = GeometryRegistry::new();
    geos.insert("vinox:block".to_string(), Geometry::default());
    let mut assets = AssetRegistry::new((256, 256));
    let rect = UVRect { x: 32, y: 48, w: 16, h: 16 };
    assets.insert("vinox:test".to_string(), [rect; 6]);
    (blocks, geos, assets)
}

fn empty_neighbors() -> Vec<ChunkData> {
    let mut v = Vec::new();
    for _ in 0..26 {
        v.push(ChunkData::default());
    }
    v
}

fn test_voxel() -> BlockData {
    BlockData::new("vinox".to_string(), "test".to_string())
}

fn boundary_of(chunk: ChunkData) -> ChunkBoundary {
    let (blocks, geos, assets) = registries();
    ChunkBoundary::new(chunk, empty_neighbors(), &blocks, &geos, &assets)
}

fn quad_count(groups: &QuadGroups) -> usize {
    groups.groups.iter().map(|g| g.len()).sum()
}

#[test]
fn empty_chunk_meshes_to_empty_output() {
    let boundary = boundary_of(ChunkData::default());
    let mesh = full_mesh(&boundary, ChunkPos::new(0, 0, 0));
    assert_eq!(mesh.chunk_mesh.vertices.len(), 0);
    assert_eq!(mesh.chunk_mesh.indices.len(), 0);
    assert_eq!(mesh.transparent_mesh.vertices.len(), 0);
    assert_eq!(mesh.transparent_mesh.indices.len(), 0);
}

#[test]
fn single_opaque_voxel_emits_six_quads() {
    let mut chunk = ChunkData::default();
    chunk.set(RelativeVoxelPos::new(8, 8, 8), test_voxel());
    let boundary = boundary_of(chunk);
    let mesh = full_mesh(&boundary, ChunkPos::new(0, 0, 0));
    assert_eq!(mesh.chunk_mesh.vertices.len(), 24);
    assert_eq!(mesh.chunk_mesh.indices.len(), 36);
    assert_eq!(mesh.transparent_mesh.vertices.len(), 0);
    assert_eq!(mesh.transparent_mesh.indices.len(), 0);
    // One quad per group, visited in group order; the first is the x- face
    // of the voxel at stencil coordinate (9, 9, 9).
    assert_eq!(mesh.chunk_mesh.vertices[0], [128, 128, 144]);
    assert_eq!(mesh.chunk_mesh.vertices[1], [128, 128, 128]);
    // Fully open faces are never flipped.
    assert_eq!(&mesh.chunk_mesh.indices[0..6], &[0, 3, 1, 0, 2, 3]);
    // Normals follow the group order.
    let normals = &mesh.chunk_mesh.normals;
    assert_eq!(normals[0], [-1, 0, 0]);
    assert_eq!(normals[4], [1, 0, 0]);
    assert_eq!(normals[8], [0, -1, 0]);
    assert_eq!(normals[12], [0, 1, 0]);
    assert_eq!(normals[16], [0, 0, -1]);
    assert_eq!(normals[20], [0, 0, 1]);
    // Open-air faces are fully lit and unoccluded.
    let colors = mesh.chunk_mesh.colors.as_ref().unwrap();
    assert_eq!(colors.len(), 24);
    assert_eq!(colors[0], (3, 300));
    // The up face reads texture slot 0 shifted by the cube's texel offsets.
    let uvs = mesh.chunk_mesh.uvs.as_ref().unwrap();
    assert_eq!(uvs.len(), 24);
    assert_eq!(uvs[12], [48, 48]);
    assert_eq!(uvs[13], [32, 48]);
    assert_eq!(uvs[14], [48, 64]);
    assert_eq!(uvs[15], [32, 64]);
}

#[test]
fn adjacent_cubes_cull_touching_faces() {
    let mut chunk = ChunkData::default();
    chunk.set(RelativeVoxelPos::new(8, 8, 8), test_voxel());
    chunk.set(RelativeVoxelPos::new(9, 8, 8), test_voxel());
    let boundary = boundary_of(chunk);
    let mut groups = QuadGroups::default();
    generate_mesh(&boundary, true, &mut groups);
    assert_eq!(quad_count(&groups), 10);
    let mesh = full_mesh(&boundary, ChunkPos::new(0, 0, 0));
    assert_eq!(mesh.chunk_mesh.vertices.len(), 40);
    assert_eq!(mesh.chunk_mesh.indices.len(), 60);
}

#[test]
fn slab_does_not_occlude_full_block() {
    let mut blocks = BlockRegistry::new();
    blocks.insert(
        "vinox:test".to_string(),
        test_block_entry("vinox:test", BlockGeometry::Block),
    );
    blocks.insert(
        "vinox:halfslab".to_string(),
        test_block_entry("vinox:halfslab", BlockGeometry::Slab),
    );
    let mut geos = GeometryRegistry::new();
    geos.insert("vinox:block".to_string(), Geometry::default());
    let slab_cube = FaceDescript {
        uv: [
            ((0, 0), (16, 8)),
            ((0, 0), (16, 8)),
            ((16, 16), (-16, -16)),
            ((16, 16), (-16, -16)),
            ((0, 0), (16, 8)),
            ((0, 0), (16, 8)),
        ],
        discard: [false; 6],
        texture_variance: [false; 6],
        cull: [true, true, true, false, true, true],
        origin: (0, 0, 0),
        end: (16, 8, 16),
        rotation: (0, 0, 0),
        pivot: (0, 0, 0),
    };
    geos.insert(
        "vinox:slab".to_string(),
        Geometry {
            namespace: "vinox".to_string(),
            name: "slab".to_string(),
            blocks: [false, false, true, false, false, false],
            blocks_self: None,
            element: BlockGeo { pivot: (0, 0, 0), rotation: (0, 0, 0), cubes: vec![slab_cube] },
        },
    );
    let assets = AssetRegistry::new((256, 256));
    let mut chunk = ChunkData::default();
    chunk.set(
        RelativeVoxelPos::new(8, 8, 8),
        BlockData::new("vinox".to_string(), "halfslab".to_string()),
    );
    chunk.set(RelativeVoxelPos::new(9, 8, 8), test_voxel());
    let boundary = ChunkBoundary::new(chunk, empty_neighbors(), &blocks, &geos, &assets);
    let mut groups = QuadGroups::default();
    generate_mesh(&boundary, true, &mut groups);
    // The full block keeps all six faces: the slab does not block its x-
    // face. The slab keeps five: its x+ face is suppressed by the opaque
    // full block beside it.
    let block_stencil = [10, 9, 9];
    let xminus_of_block = groups.groups[0]
        .iter()
        .filter(|q| q.voxel == block_stencil)
        .count();
    assert_eq!(xminus_of_block, 1);
    let slab_stencil = [9, 9, 9];
    let xplus_of_slab = groups.groups[1]
        .iter()
        .filter(|q| q.voxel == slab_stencil)
        .count();
    assert_eq!(xplus_of_slab, 0);
    assert_eq!(quad_count(&groups), 11);
    // The slab's top face sits at half height.
    let top: Vec<&Quad> = groups.groups[3].iter().filter(|q| q.voxel == slab_stencil).collect();
    assert_eq!(top.len(), 1);
    assert_eq!(top[0].end.2, 8);
}

#[test]
fn ao_table_is_exact() {
    assert_eq!(ao_value(true, true, true), 0);
    assert_eq!(ao_value(true, false, true), 0);
    assert_eq!(ao_value(true, true, false), 1);
    assert_eq!(ao_value(false, true, true), 1);
    assert_eq!(ao_value(false, false, false), 3);
    assert_eq!(ao_value(true, false, false), 2);
    assert_eq!(ao_value(false, false, true), 2);
    assert_eq!(ao_value(false, true, false), 2);
}

#[test]
fn light_table_is_exact() {
    let expected: [(u8, u16); 17] = [
        (0, 25),
        (1, 25),
        (2, 25),
        (3, 40),
        (4, 40),
        (5, 50),
        (6, 50),
        (7, 50),
        (8, 50),
        (9, 50),
        (10, 60),
        (11, 70),
        (12, 75),
        (13, 80),
        (14, 90),
        (15, 100),
        (255, 100),
    ];
    for (level, bright) in expected {
        assert_eq!(light_to_intern(level), bright);
    }
}

#[test]
fn inside_corner_darkens_and_open_corner_stays_bright() {
    let mut chunk = ChunkData::default();
    // A block whose top face has a two-wall inside corner above it.
    chunk.set(RelativeVoxelPos::new(9, 8, 9), test_voxel());
    chunk.set(RelativeVoxelPos::new(8, 9, 9), test_voxel());
    chunk.set(RelativeVoxelPos::new(8, 9, 8), test_voxel());
    chunk.set(RelativeVoxelPos::new(9, 9, 8), test_voxel());
    let boundary = boundary_of(chunk);
    let face = Face {
        side: Side::new(Axis::Y, true),
        quad: Quad {
            voxel: [10, 9, 10],
            start: (0, 0, 0),
            end: (16, 16, 16),
            cube: 0,
            data: RenderedBlockData::default(),
        },
    };
    let aos = face_aos(&face, &boundary);
    assert_eq!(aos[1], 0);
    assert_eq!(aos[2], 3);
}

#[test]
fn boundary_samples_center_and_neighbors() {
    let mut chunk = ChunkData::default();
    chunk.set(RelativeVoxelPos::new(0, 0, 0), test_voxel());
    let (blocks, geos, assets) = registries();
    let mut neighbors = empty_neighbors();
    // Neighbor 4 sits at offset (-1, 0, 0); its x = 15 column pads the
    // stencil's x = 0 slab.
    let mut west = ChunkData::default();
    west.set(RelativeVoxelPos::new(15, 0, 0), test_voxel());
    neighbors[4] = west;
    let boundary = ChunkBoundary::new(chunk, neighbors, &blocks, &geos, &assets);
    let cells = boundary.voxels();
    let interior = cells[ChunkBoundary::linearize(1, 1, 1)];
    assert_eq!(interior.visibility, VoxelVisibility::Opaque);
    assert_eq!(interior.blocks, [true; 6]);
    let padding = cells[ChunkBoundary::linearize(0, 1, 1)];
    assert_eq!(padding.visibility, VoxelVisibility::Opaque);
    let empty_padding = cells[ChunkBoundary::linearize(0, 2, 1)];
    assert_eq!(empty_padding.visibility, VoxelVisibility::Empty);
    assert_eq!(empty_padding.geo_index, None);
}

#[test]
fn meshing_is_deterministic() {
    let build = || {
        let mut chunk = ChunkData::default();
        chunk.set(RelativeVoxelPos::new(8, 8, 8), test_voxel());
        chunk.set(RelativeVoxelPos::new(3, 4, 5), test_voxel());
        let boundary = boundary_of(chunk);
        full_mesh(&boundary, ChunkPos::new(1, 2, 3))
    };
    let a = build();
    let b = build();
    assert_eq!(a.chunk_mesh.vertices, b.chunk_mesh.vertices);
    assert_eq!(a.chunk_mesh.indices, b.chunk_mesh.indices);
    assert_eq!(a.chunk_mesh.normals, b.chunk_mesh.normals);
    assert_eq!(a.chunk_mesh.uvs, b.chunk_mesh.uvs);
    assert_eq!(a.chunk_mesh.colors, b.chunk_mesh.colors);
    assert_eq!(a.pos, b.pos);
}

#[test]
fn quad_count_stays_under_bound() {
    let mut chunk = ChunkData::default();
    let mut opaque = 0usize;
    for i in 0..8u32 {
        chunk.set(RelativeVoxelPos::new(i * 2, 5, 5), test_voxel());
        opaque += 1;
    }
    let boundary = boundary_of(chunk);
    let mut groups = QuadGroups::default();
    generate_mesh(&boundary, true, &mut groups);
    // The standard shape has one cube, so at most six quads per opaque
    // voxel in the solid pass.
    assert!(quad_count(&groups) <= 6 * opaque);
}

#[test]
fn boundary_interns_shapes_and_identifiers() {
    let mut blocks = BlockRegistry::new();
    blocks.insert(
        "vinox:test".to_string(),
        test_block_entry("vinox:test", BlockGeometry::Block),
    );
    blocks.insert(
        "vinox:other.slab".to_string(),
        test_block_entry("vinox:other.slab", BlockGeometry::Block),
    );
    let mut geos = GeometryRegistry::new();
    geos.insert("vinox:block".to_string(), Geometry::default());
    let assets = AssetRegistry::new((256, 256));
    let mut chunk = ChunkData::default();
    chunk.set(RelativeVoxelPos::new(1, 1, 1), test_voxel());
    chunk.set(
        RelativeVoxelPos::new(2, 1, 1),
        BlockData::new("vinox".to_string(), "other.slab".to_string()),
    );
    let boundary = ChunkBoundary::new(chunk, empty_neighbors(), &blocks, &geos, &assets);
    // Both voxels share the one full-cube shape, so it is interned once.
    assert_eq!(boundary.geo_palette().len(), 1);
    // Identifiers are interned trimmed at the first dot.
    let names = boundary.match_names();
    assert!(names.contains(&"vinox:test".to_string()));
    assert!(names.contains(&"vinox:other".to_string()));
    assert_eq!(names.len(), 2);
}

#[test]
fn quad_groups_list_faces_in_group_order() {
    let mut chunk = ChunkData::default();
    chunk.set(RelativeVoxelPos::new(8, 8, 8), test_voxel());
    let boundary = boundary_of(chunk);
    let mut groups = QuadGroups::default();
    generate_mesh(&boundary, true, &mut groups);
    let faces = groups.faces();
    assert_eq!(faces.len(), 6);
    assert_eq!(faces[0].side, Side::new(Axis::X, false));
    assert_eq!(faces[1].side, Side::new(Axis::X, true));
    assert_eq!(faces[5].side, Side::new(Axis::Z, true));
    let with_ao = groups.faces_with_ao(&boundary);
    assert_eq!(with_ao.len(), 6);
    assert_eq!(with_ao[0].aos(), [3, 3, 3, 3]);
    assert_eq!(with_ao[0].light(), [300, 300, 300, 300]);
    assert_eq!(with_ao[0].indices(4), [4, 7, 5, 4, 6, 7]);
}

#[test]
fn face_positions_follow_the_winding_tables() {
    let quad = Quad {
        voxel: [1, 1, 1],
        start: (0, 0, 0),
        end: (16, 16, 16),
        cube: 0,
        data: RenderedBlockData::default(),
    };
    let zplus = Face { side: Side::new(Axis::Z, true), quad };
    assert_eq!(
        zplus.positions(),
        [[16, 0, 16], [0, 0, 16], [16, 16, 16], [0, 16, 16]]
    );
    let yminus = Face { side: Side::new(Axis::Y, false), quad };
    assert_eq!(
        yminus.positions(),
        [[0, 0, 16], [16, 0, 16], [0, 0, 0], [16, 0, 0]]
    );
    assert_eq!(zplus.normals()[0], [0, 0, 1]);
    assert_eq!(zplus.indices(0), [0, 2, 1, 1, 2, 3]);
}

#[test]
fn uncullable_face_is_still_suppressed_when_blocked() {
    // A face its own cube never culls (the slab's open top) is still left
    // out when the neighbor above blocks it: emission in the non-culled
    // case requires the pass to match and the face to be unblocked.
    let mut blocks = BlockRegistry::new();
    blocks.insert(
        "vinox:test".to_string(),
        test_block_entry("vinox:test", BlockGeometry::Block),
    );
    blocks.insert(
        "vinox:halfslab".to_string(),
        test_block_entry("vinox:halfslab", BlockGeometry::Slab),
    );
    let mut geos = GeometryRegistry::new();
    geos.insert("vinox:block".to_string(), Geometry::default());
    let slab_cube = FaceDescript {
        uv: [
            ((0, 0), (16, 8)),
            ((0, 0), (16, 8)),
            ((16, 16), (-16, -16)),
            ((16, 16), (-16, -16)),
            ((0, 0), (16, 8)),
            ((0, 0), (16, 8)),
        ],
        discard: [false; 6],
        texture_variance: [false; 6],
        cull: [true, true, true, false, true, true],
        origin: (0, 0, 0),
        end: (16, 8, 16),
        rotation: (0, 0, 0),
        pivot: (0, 0, 0),
    };
    geos.insert(
        "vinox:slab".to_string(),
        Geometry {
            namespace: "vinox".to_string(),
            name: "slab".to_string(),
            blocks: [false, false, true, false, false, false],
            blocks_self: None,
            element: BlockGeo { pivot: (0, 0, 0), rotation: (0, 0, 0), cubes: vec![slab_cube] },
        },
    );
    let assets = AssetRegistry::new((256, 256));
    let mut chunk = ChunkData::default();
    chunk.set(
        RelativeVoxelPos::new(8, 8, 8),
        BlockData::new("vinox".to_string(), "halfslab".to_string()),
    );
    // A full block directly above the slab: its down face blocks the
    // slab's up face.
    chunk.set(RelativeVoxelPos::new(8, 9, 8), test_voxel());
    let boundary = ChunkBoundary::new(chunk, empty_neighbors(), &blocks, &geos, &assets);
    let mut groups = QuadGroups::default();
    generate_mesh(&boundary, true, &mut groups);
    let slab_stencil = [9, 9, 9];
    let slab_top = groups.groups[3].iter().filter(|q| q.voxel == slab_stencil).count();
    assert_eq!(slab_top, 0);
    // The block above keeps its down face: the slab does not block upward.
    let block_stencil = [9, 10, 9];
    let block_down = groups.groups[2].iter().filter(|q| q.voxel == block_stencil).count();
    assert_eq!(block_down, 1);
    // Slab keeps its four sides and bottom; the block keeps all six faces.
    assert_eq!(quad_count(&groups), 11);
}

#[test]
fn rendered_voxel_capability_matches_get_rend() {
    let (blocks, geos, assets) = registries();
    let v = test_voxel();
    let mut pal = GeoPalette::default();
    let idx = v.to_geo_idx(Some(&mut pal), Some(&geos), Some(&blocks));
    assert_eq!(idx, Some(0));
    assert_eq!(pal.palette.len(), 1);
    // Interning the same shape again reuses the slot.
    let again = v.to_geo_idx(Some(&mut pal), Some(&geos), Some(&blocks));
    assert_eq!(again, Some(0));
    assert_eq!(pal.palette.len(), 1);
    // A missing palette or registry yields no slot.
    assert_eq!(v.to_geo_idx(None, Some(&geos), Some(&blocks)), None);
    let mut pal2 = GeoPalette::default();
    assert_eq!(v.to_geo_idx(Some(&mut pal2), None, Some(&blocks)), None);
    let mut ms = BlockMatches::default();
    assert_eq!(v.to_match_idx(Some(&mut ms)), 0);
    assert_eq!(ms.matches.len(), 1);
    assert_eq!(ms.matches[0], "vinox:test".to_string());
    assert_eq!(v.to_match_idx(None), 0);
    let light: Option<u8> =
        <BlockData as RenderedVoxel<BlockData, BlockRegistry>>::light_level();
    assert_eq!(light, None);
    assert_eq!(v.to_visibility(Some(&blocks), None), Some(VoxelVisibility::Opaque));
    assert_eq!(v.to_visibility(None, None), None);
    assert!(v.to_texture_uv(Some(&blocks), Some(&assets)).is_some());
    assert_eq!(v.to_texture_uv(Some(&blocks), None), None);
    assert_eq!(v.blocking_sides(Some(&blocks), Some(&geos)), Some(([true; 6], None)));
    assert_eq!(v.blocking_sides(None, Some(&geos)), None);
}
