//! Voxel-aware collision kernel: quarter-turn orientations, dense voxel chunks,
//! collision-group filtering, the pairing of bodies for detection, and the bounded
//! retry schedule of the integration loop.

pub mod math;
pub mod orientation;
pub mod voxel;
pub mod collision;
pub mod schedule;

pub use math::{IVec2, IVec3, UVec2, UVec3};
pub use orientation::{Degree, Orientation};
pub use voxel::{PlaneAxis, Voxel, VoxelChunk, VoxelChunkIterator, VoxelData};
pub use collision::{
    collision_pairs, narrow_phase, response_split, BodyPair, CollisionConfig, CollisionGroups,
    NarrowPhase, ResponseSplit, Shape, GROUP_ALL, GROUP_BASIC, GROUP_MOVING_TERRAIN, GROUP_NONE,
    GROUP_PARTICLES, GROUP_PLAYERS, GROUP_STATIC_TERRAIN,
};
pub use schedule::{PhysicsConfig, RetryBudget, DEFAULT_MAX_RETRIES, DEFAULT_SUBSTEPS};
