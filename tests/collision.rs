use vidya_physics::{
    collision_pairs, narrow_phase, response_split, BodyPair, CollisionConfig, NarrowPhase,
    ResponseSplit, Shape, UVec3, VoxelChunk, GROUP_ALL, GROUP_BASIC, GROUP_MOVING_TERRAIN,
    GROUP_NONE, GROUP_PARTICLES, GROUP_PLAYERS, GROUP_STATIC_TERRAIN,
};

#[test]
fn affected_by() {
    let config = CollisionConfig::new(GROUP_BASIC, GROUP_ALL)
        .not_affected_by(GROUP_BASIC | GROUP_PARTICLES);

    assert!(!config.affected_by(GROUP_BASIC));
    assert!(!config.affected_by(GROUP_PARTICLES));

    assert!(config.affected_by(GROUP_STATIC_TERRAIN));
    assert!(config.affected_by(GROUP_MOVING_TERRAIN));
}

#[test]
fn terrain_is_not_pushed_by_a_player() {
    let terrain = CollisionConfig::new(GROUP_STATIC_TERRAIN, GROUP_NONE);
    let player = CollisionConfig::new(GROUP_PLAYERS, GROUP_ALL);
    assert_eq!(ResponseSplit::OnlyB, response_split(&terrain, &player));
    assert_eq!(ResponseSplit::OnlyA, response_split(&player, &terrain));
}

#[test]
fn response_split_covers_every_case() {
    let a = CollisionConfig::new(GROUP_BASIC, GROUP_BASIC);
    let b = CollisionConfig::new(GROUP_BASIC, GROUP_BASIC);
    assert_eq!(ResponseSplit::Both, response_split(&a, &b));
    let deaf = CollisionConfig::new(GROUP_PARTICLES, GROUP_NONE);
    let other = CollisionConfig::new(GROUP_BASIC, GROUP_STATIC_TERRAIN);
    assert_eq!(ResponseSplit::Neither, response_split(&deaf, &other));
}

#[test]
fn pairs_skip_bodies_that_ignore_each_other() {
    let configs = vec![
        CollisionConfig::new(GROUP_STATIC_TERRAIN, GROUP_NONE),
        CollisionConfig::new(GROUP_PLAYERS, GROUP_ALL),
        CollisionConfig::new(GROUP_STATIC_TERRAIN, GROUP_NONE),
        CollisionConfig::new(GROUP_BASIC, GROUP_PLAYERS),
    ];
    let pairs = collision_pairs(&configs);
    assert_eq!(
        vec![
            BodyPair { a: 0, b: 1, split: ResponseSplit::OnlyB },
            BodyPair { a: 1, b: 2, split: ResponseSplit::OnlyA },
            BodyPair { a: 1, b: 3, split: ResponseSplit::Both },
        ],
        pairs
    );
    // the plan depends on the configurations alone
    assert_eq!(pairs, collision_pairs(&configs));
    assert!(collision_pairs(&Vec::new()).is_empty());
    assert!(collision_pairs(&vec![configs[1]]).is_empty());
}

#[test]
fn narrow_phase_by_shape() {
    let chunk = Shape::VoxelChunk(VoxelChunk::new(UVec3::new(1, 1, 1)));
    assert_eq!(NarrowPhase::CuboidCuboid, narrow_phase(&Shape::Cuboid, &Shape::Cuboid));
    assert_eq!(NarrowPhase::ChunkCuboid, narrow_phase(&chunk, &Shape::Cuboid));
    assert_eq!(NarrowPhase::CuboidChunk, narrow_phase(&Shape::Cuboid, &chunk));
    assert_eq!(NarrowPhase::Unsupported, narrow_phase(&Shape::Capsule, &Shape::Cuboid));
    assert_eq!(NarrowPhase::Unsupported, narrow_phase(&chunk, &chunk));
}
