//! Chunk streaming core of a voxel world: terrain generation, face-culled
//! meshing, a bounded least-recently-used cache, the asynchronous loader's
//! state machine and the loading-radius coordinator.
pub mod voxel_data;
pub mod chunk_generator;
pub mod chunk_mesher;
pub mod chunk_system;
pub mod chunk_cache;
pub mod pos_map;
pub mod texture_atlas;
pub mod threaded_chunk_loader;
