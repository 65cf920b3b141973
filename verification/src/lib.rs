//! Core of a voxel world library: palette-compressed chunk storage and the
//! surface-extraction pipeline that turns a 16x16x16 grid of voxels plus its
//! 26 neighbors into a renderable mesh.
//!
//! All geometric quantities are kept in exact integer units (sixteenths of a
//! voxel, atlas pixels, light in hundredths), so that every stage of the
//! pipeline carries a precise contract.

pub mod assoc;
pub mod bitbuf;
pub mod boundary;
pub mod chunk;
pub mod geometry;
pub mod mesher;
pub mod position;
pub mod storage;
pub mod voxel;

pub use bitbuf::BitBuffer;
pub use boundary::{BlockMatches, ChunkBoundary, GeoPalette, RenderedBlockData, RenderedVoxel};
pub use chunk::{ChunkData, Container, RawChunk, CHUNK_SIZE, CHUNK_SIZE_ARR, TOTAL_CHUNK_SIZE};
pub use geometry::{BlockGeo, BlockGeometry, FaceDescript, Geometry, GeometryRegistry};
pub use mesher::{Face, FaceWithAO, MeshedChunk, Quad, QuadGroups, VoxMesh};
pub use position::{ChunkPos, RelativeVoxelPos, VoxelPos};
pub use storage::Storage;
pub use voxel::{AssetRegistry, Block, BlockData, BlockRegistry, UVRect, VoxelVisibility};
