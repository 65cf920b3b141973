use vinox_voxel::chunk::{ChunkData, TOTAL_CHUNK_SIZE};
use vinox_voxel::position::RelativeVoxelPos;
use vinox_voxel::storage::Storage;
use vinox_voxel::voxel::BlockData;

fn named(name: &str) -> BlockData {
    BlockData::new("vinox".to_string(), name.to_string())
}

#[test]
fn default_chunk_is_uniform_air() {
    let chunk = ChunkData::default();
    assert!(chunk.is_uniform());
    assert!(chunk.is_dirty());
    assert_eq!(
        chunk.get(RelativeVoxelPos::new(0, 0, 0)).identifier,
        "vinox:air".to_string()
    );
    assert_eq!(
        chunk.get_identifier(RelativeVoxelPos::new(15, 15, 15)),
        "vinox:air".to_string()
    );
    assert_eq!(chunk.ref_count_total(), TOTAL_CHUNK_SIZE);
}

#[test]
fn set_then_get_returns_voxel() {
    let mut chunk = ChunkData::default();
    chunk.set(RelativeVoxelPos::new(3, 4, 5), named("stone"));
    assert_eq!(
        chunk.get(RelativeVoxelPos::new(3, 4, 5)).identifier,
        "vinox:stone".to_string()
    );
    assert_eq!(
        chunk.get(RelativeVoxelPos::new(3, 4, 6)).identifier,
        "vinox:air".to_string()
    );
    assert!(!chunk.is_uniform());
}

#[test]
fn refcount_conservation_over_edits() {
    let mut chunk = ChunkData::default();
    let names = ["a", "b", "c", "a", "d", "b", "a"];
    for (i, n) in names.iter().enumerate() {
        chunk.set(RelativeVoxelPos::new(i as u32 % 16, (i as u32 / 16) % 16, 7), named(n));
        assert_eq!(chunk.ref_count_total(), TOTAL_CHUNK_SIZE);
    }
    for i in 0..16u32 {
        chunk.set(RelativeVoxelPos::new(i, 0, 0), named("a"));
        assert_eq!(chunk.ref_count_total(), TOTAL_CHUNK_SIZE);
    }
}

#[test]
fn palette_stress_five_distinct_voxels() {
    let mut chunk = ChunkData::default();
    // The first distinct voxel is the default one the chunk already holds.
    chunk.set(RelativeVoxelPos::new(0, 0, 0), BlockData::default());
    chunk.set(RelativeVoxelPos::new(1, 0, 0), named("a"));
    chunk.set(RelativeVoxelPos::new(2, 0, 0), named("b"));
    chunk.set(RelativeVoxelPos::new(3, 0, 0), named("c"));
    chunk.set(RelativeVoxelPos::new(4, 0, 0), named("d"));
    assert!(!chunk.is_uniform());
    assert_eq!(chunk.palette_len(), 5);
    assert_eq!(chunk.indices_length(), 4);
    assert_eq!(chunk.palette_capacity(), 16);
    assert_eq!(chunk.ref_count_total(), TOTAL_CHUNK_SIZE);
}

#[test]
fn trim_is_idempotent_and_preserves_voxels() {
    let mut chunk = ChunkData::default();
    chunk.set(RelativeVoxelPos::new(1, 2, 3), named("stone"));
    chunk.set(RelativeVoxelPos::new(2, 2, 3), named("dirt"));
    chunk.trim();
    let once_palette = chunk.palette_len();
    let once_uniform = chunk.is_uniform();
    let once_voxel = chunk.get(RelativeVoxelPos::new(1, 2, 3));
    chunk.trim();
    assert_eq!(chunk.palette_len(), once_palette);
    assert_eq!(chunk.is_uniform(), once_uniform);
    assert_eq!(chunk.get(RelativeVoxelPos::new(1, 2, 3)), once_voxel);
    assert_eq!(
        chunk.get(RelativeVoxelPos::new(2, 2, 3)).identifier,
        "vinox:dirt".to_string()
    );
}

#[test]
fn promotion_keeps_contents() {
    let mut chunk = ChunkData::default();
    assert!(chunk.is_uniform());
    // Writing the voxel the chunk already holds keeps it single.
    chunk.set(RelativeVoxelPos::new(5, 5, 5), BlockData::default());
    assert!(chunk.is_uniform());
    // A second distinct voxel promotes to a palette, with identical
    // observable contents everywhere else.
    chunk.set(RelativeVoxelPos::new(5, 5, 5), named("stone"));
    assert!(!chunk.is_uniform());
    assert_eq!(
        chunk.get(RelativeVoxelPos::new(5, 5, 5)).identifier,
        "vinox:stone".to_string()
    );
    assert_eq!(
        chunk.get(RelativeVoxelPos::new(5, 5, 6)).identifier,
        "vinox:air".to_string()
    );
    chunk.trim();
    assert!(!chunk.is_uniform());
}

#[test]
fn raw_round_trip_preserves_voxels() {
    let mut chunk = ChunkData::default();
    chunk.set(RelativeVoxelPos::new(0, 0, 0), named("stone"));
    chunk.set(RelativeVoxelPos::new(15, 15, 15), named("dirt"));
    chunk.set(RelativeVoxelPos::new(8, 1, 2), named("sand"));
    let raw = chunk.to_raw();
    let restored = ChunkData::from_raw(raw);
    assert!(!restored.is_dirty());
    for z in 0..16u32 {
        for y in 0..16u32 {
            for x in 0..16u32 {
                let p = RelativeVoxelPos::new(x, y, z);
                assert_eq!(chunk.get(p), restored.get(p));
            }
        }
    }
}

#[test]
fn many_edits_keep_conservation() {
    let mut chunk = ChunkData::default();
    for i in 0..520u32 {
        let p = RelativeVoxelPos::new(i % 16, (i / 16) % 16, (i / 256) % 16);
        chunk.set(p, named(if i % 2 == 0 { "a" } else { "b" }));
    }
    assert_eq!(chunk.ref_count_total(), TOTAL_CHUNK_SIZE);
    assert_eq!(
        chunk.get(RelativeVoxelPos::new(0, 0, 0)).identifier,
        "vinox:a".to_string()
    );
    assert_eq!(
        chunk.get(RelativeVoxelPos::new(1, 0, 0)).identifier,
        "vinox:b".to_string()
    );
}

#[test]
fn recycles_unreferenced_palette_slots() {
    let mut chunk = ChunkData::default();
    // One cell cycles through many values: dead palette entries must be
    // recycled rather than growing the palette.
    let p = RelativeVoxelPos::new(0, 0, 0);
    chunk.set(p, named("a"));
    let len_after_first = chunk.palette_len();
    for n in ["b", "c", "d", "e", "f", "g"] {
        chunk.set(p, named(n));
        assert_eq!(chunk.palette_len(), len_after_first);
        assert_eq!(chunk.ref_count_total(), TOTAL_CHUNK_SIZE);
    }
}

#[test]
fn one_cell_storage_demotes_after_trim() {
    // A one-cell volume recycles its only palette slot in place, so the
    // palette stays at one entry and trim can demote it back to single
    // storage carrying the new voxel.
    let mut s = Storage::new(1);
    s.set(0, named("a"));
    assert_eq!(s.palette_len(), 1);
    assert_eq!(s.get(0).identifier, "vinox:a".to_string());
    s.trim();
    assert_eq!(s.get(0).identifier, "vinox:a".to_string());
    assert_eq!(s.ref_count_total(), 1);
}

#[test]
fn storage_get_set_basics() {
    let mut s = Storage::new(64);
    for i in 0..64usize {
        assert_eq!(s.get(i).identifier, "vinox:air".to_string());
    }
    s.set(10, named("x"));
    s.set(20, named("y"));
    assert_eq!(s.get(10).identifier, "vinox:x".to_string());
    assert_eq!(s.get(20).identifier, "vinox:y".to_string());
    assert_eq!(s.get(11).identifier, "vinox:air".to_string());
    assert_eq!(s.ref_count_total(), 64);
}
