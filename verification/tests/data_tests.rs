use vinox_voxel::bitbuf::BitBuffer;
use vinox_voxel::geometry::{BlockGeo, BlockGeometry, Geometry, GeometryRegistry, trim_geo_identifier};
use vinox_voxel::position::{ChunkPos, RelativeVoxelPos, VoxelPos};
use vinox_voxel::voxel::{Block, BlockData, BlockRegistry, VoxRegistry, Voxel, VoxelVisibility};

#[test]
fn bitbuffer_set_get_round_trip() {
    let mut b = BitBuffer::new(64);
    assert_eq!(b.get(0, 8), 0);
    b.set(5, 7, 99);
    assert_eq!(b.get(5, 7), 99);
    b.set(0, 5, 17);
    assert_eq!(b.get(0, 5), 17);
    assert_eq!(b.get(5, 7), 99);
    b.set(12, 16, 54321);
    assert_eq!(b.get(12, 16), 54321);
    assert_eq!(b.get(5, 7), 99);
    assert_eq!(b.get(0, 5), 17);
}

#[test]
fn bitbuffer_bits_cross_bytes() {
    let mut b = BitBuffer::new(32);
    b.set(6, 4, 0b1011);
    assert!(b.get_bit(6));
    assert!(b.get_bit(7));
    assert!(!b.get_bit(8));
    assert!(b.get_bit(9));
    assert_eq!(b.get(6, 4), 0b1011);
}

#[test]
fn trim_geo_identifier_cuts_at_first_dot() {
    assert_eq!(
        trim_geo_identifier("stone.slab".to_string()),
        "stone".to_string()
    );
    assert_eq!(
        trim_geo_identifier("a.b.c".to_string()),
        "a".to_string()
    );
    assert_eq!(
        trim_geo_identifier("plain".to_string()),
        "plain".to_string()
    );
    assert_eq!(trim_geo_identifier(String::new()), String::new());
    assert_eq!(
        trim_geo_identifier(".hidden".to_string()),
        String::new()
    );
}

#[test]
fn geometry_namespaces() {
    assert_eq!(
        BlockGeometry::Block.get_geo_namespace(),
        "vinox:block".to_string()
    );
    assert_eq!(
        BlockGeometry::Slab.get_geo_namespace(),
        "vinox:slab".to_string()
    );
    assert_eq!(
        BlockGeometry::Custom("mine:thing".to_string()).get_geo_namespace(),
        "mine:thing".to_string()
    );
    assert_eq!(BlockGeometry::Fence.get_geo_name(), "fence".to_string());
    assert_eq!(
        BlockGeometry::Slab.geo_new_block("oak".to_string()),
        "oak.slab".to_string()
    );
}

#[test]
fn standard_geometry_is_recognized() {
    let geo = BlockGeo::default();
    assert!(geo.is_standard());
    let mut other = BlockGeo::default();
    other.cubes[0].end = (16, 8, 16);
    assert!(!other.is_standard());
    let mut rotated = BlockGeo::default();
    rotated.rotation = (0, 45, 0);
    assert!(!rotated.is_standard());
}

#[test]
fn geometry_registry_lookup() {
    let mut reg = GeometryRegistry::new();
    assert!(reg.get(&"vinox:block".to_string()).is_none());
    reg.insert("vinox:block".to_string(), Geometry::default());
    assert!(reg.get(&"vinox:block".to_string()).is_some());
    assert!(reg.get(&"vinox:slab".to_string()).is_none());
}

#[test]
fn block_data_identifiers() {
    let b = BlockData::new("vinox".to_string(), "stone".to_string());
    assert_eq!(b.identifier, "vinox:stone".to_string());
    assert!(b.last_tick.is_none());
    assert_eq!(BlockData::default().identifier, "vinox:air".to_string());
    assert_eq!(b.identifier(), "vinox:stone".to_string());
}

#[test]
fn block_data_equality_is_structural() {
    let a = BlockData::new("vinox".to_string(), "stone".to_string());
    let b = BlockData::new("vinox".to_string(), "stone".to_string());
    let c = BlockData::new("vinox".to_string(), "dirt".to_string());
    assert!(a == b);
    assert!(a != c);
}

#[test]
fn voxel_emptiness_follows_registry() {
    let mut reg = BlockRegistry::new();
    let stone = BlockData::new("vinox".to_string(), "stone".to_string());
    // Unregistered voxels count as empty for storage purposes.
    assert!(stone.is_empty(Some(&reg)));
    assert!(!stone.is_opaque(Some(&reg)));
    reg.insert(
        "vinox:stone".to_string(),
        Block {
            identifier: "vinox:stone".to_string(),
            textures: None,
            geometry: Some(BlockGeometry::Block),
            auto_geo: None,
            visibility: Some(VoxelVisibility::Opaque),
            has_item: None,
        },
    );
    assert!(!stone.is_empty(Some(&reg)));
    assert!(stone.is_opaque(Some(&reg)));
    assert!(!stone.is_true_empty(Some(&reg)));
    // Without a registry nothing is opaque and everything is empty.
    assert!(stone.is_empty(None));
    assert!(!stone.is_opaque(None));
    // The registry's own notion of emptiness needs a declared Empty entry.
    assert!(!reg.is_empty(stone));
}

#[test]
fn chunk_pos_neighbors_in_lexicographic_order() {
    let p = ChunkPos::new(0, 0, 0);
    let ns = p.neighbors();
    assert_eq!(ns.len(), 26);
    assert_eq!(ns[0], ChunkPos::new(-1, -1, -1));
    assert_eq!(ns[1], ChunkPos::new(-1, -1, 0));
    assert_eq!(ns[2], ChunkPos::new(-1, -1, 1));
    assert_eq!(ns[4], ChunkPos::new(-1, 0, 0));
    assert_eq!(ns[12], ChunkPos::new(0, 0, -1));
    assert_eq!(ns[13], ChunkPos::new(0, 0, 1));
    assert_eq!(ns[21], ChunkPos::new(1, 0, 0));
    assert_eq!(ns[25], ChunkPos::new(1, 1, 1));
}

#[test]
fn world_positions_split_by_floor_division() {
    let v = VoxelPos::new(-1, -17, 33);
    let (rel, chunk) = v.to_offsets();
    assert_eq!(chunk, ChunkPos::new(-1, -2, 2));
    assert_eq!(rel, RelativeVoxelPos::new(15, 15, 1));
    let back = VoxelPos::from((rel, chunk));
    assert_eq!(back, v);
    let origin = VoxelPos::new(0, 0, 0);
    let (rel0, chunk0) = origin.to_offsets();
    assert_eq!(chunk0, ChunkPos::new(0, 0, 0));
    assert_eq!(rel0, RelativeVoxelPos::new(0, 0, 0));
}
