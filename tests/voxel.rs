use vidya_physics::{Degree, Orientation, PlaneAxis, UVec2, UVec3, Voxel, VoxelChunk, VoxelData};

#[test]
fn build() {
    // Builds chunk
    let mut chunk = VoxelChunk::new(UVec3::new(16, 16, 16));
    chunk
        .set_voxel(UVec3::new(0, 0, 0), VoxelData::new(Voxel::Cuboid))
        .set_voxel(UVec3::new(1, 0, 0), VoxelData::new(Voxel::Slope))
        .set_voxel(UVec3::new(0, 1, 0), VoxelData::new(Voxel::Cuboid))
        .set_voxel(UVec3::new(0, 0, 1), VoxelData::new(Voxel::Slope))
        .set_voxel(UVec3::new(5, 6, 7), VoxelData::new(Voxel::Cuboid))
        .set_voxel(UVec3::new(15, 15, 15), VoxelData::new(Voxel::Slope));

    // Sets voxel using manual api
    let voxel = chunk.get_voxel_mut(UVec3::new(8, 8, 8)).unwrap();
    *voxel = VoxelData::new(Voxel::Cuboid);

    // Validates that chunk values are the same
    assert_eq!(Some(&VoxelData::new(Voxel::Cuboid)), chunk.get_voxel(UVec3::new(0, 0, 0)));
    assert_eq!(Some(&VoxelData::new(Voxel::Slope)), chunk.get_voxel(UVec3::new(1, 0, 0)));
    assert_eq!(Some(&VoxelData::new(Voxel::Cuboid)), chunk.get_voxel(UVec3::new(0, 1, 0)));
    assert_eq!(Some(&VoxelData::new(Voxel::Slope)), chunk.get_voxel(UVec3::new(0, 0, 1)));
    assert_eq!(Some(&VoxelData::new(Voxel::Cuboid)), chunk.get_voxel(UVec3::new(5, 6, 7)));
    assert_eq!(Some(&VoxelData::new(Voxel::Slope)), chunk.get_voxel(UVec3::new(15, 15, 15)));
    assert_eq!(Some(&VoxelData::new(Voxel::Cuboid)), chunk.get_voxel(UVec3::new(8, 8, 8)));

    // Checks out-of-bounds returns None
    assert_eq!(None, chunk.get_voxel(UVec3::new(16, 0, 0)));
    assert_eq!(None, chunk.get_voxel(UVec3::new(0, 16, 0)));
    assert_eq!(None, chunk.get_voxel(UVec3::new(0, 0, 16)));
    assert_eq!(None, chunk.get_voxel(UVec3::new(1337, 1337, 1337)));
}

#[test]
fn new_chunk_is_empty() {
    let chunk = VoxelChunk::new(UVec3::new(3, 2, 4));
    assert_eq!(UVec3::new(3, 2, 4), chunk.size());
    assert_eq!(Some(&VoxelData::default()), chunk.get_voxel(UVec3::new(2, 1, 3)));
    assert_eq!(Voxel::Empty, chunk.get_voxel(UVec3::new(0, 0, 0)).unwrap().voxel);
    assert_eq!(Orientation::default(), chunk.get_voxel(UVec3::new(1, 1, 1)).unwrap().orientation);
}

#[test]
fn zero_sized_chunk_holds_nothing() {
    let chunk = VoxelChunk::new(UVec3::new(0, 5, 5));
    assert_eq!(None, chunk.get_voxel(UVec3::new(0, 0, 0)));
    let mut it = chunk.iter();
    assert!(it.next().is_none());
}

#[test]
fn set_then_get_round_trips_and_leaves_neighbours() {
    let mut chunk = VoxelChunk::new(UVec3::new(4, 3, 2));
    let slope = VoxelData::new(Voxel::Slope).with_orientation(Orientation::new(
        Degree::Ninty,
        Degree::Zero,
        Degree::TwoSeventy,
    ));
    chunk.set_voxel(UVec3::new(3, 2, 1), slope);
    assert_eq!(Some(&slope), chunk.get_voxel(UVec3::new(3, 2, 1)));
    assert_eq!(Some(&VoxelData::default()), chunk.get_voxel(UVec3::new(2, 2, 1)));
    assert_eq!(None, chunk.get_voxel(UVec3::new(4, 0, 0)));
    assert_eq!(None, chunk.get_voxel(UVec3::new(0, 3, 0)));
    assert_eq!(None, chunk.get_voxel(UVec3::new(0, 0, 2)));
    assert!(chunk.get_voxel_mut(UVec3::new(0, 0, 2)).is_none());
}

#[test]
fn floor_fill_sets_only_the_bottom_layer() {
    let (w, k, h) = (16, 4, 16);
    let mut chunk = VoxelChunk::new(UVec3::new(w, k, h));
    let cube = VoxelData::new(Voxel::Cuboid);
    chunk.set_voxel_plane(0, UVec2::new(0, 0), UVec2::new(w, h), PlaneAxis::XZ, cube);
    for x in 0..w {
        for y in 0..k {
            for z in 0..h {
                let expected = if y == 0 { cube } else { VoxelData::default() };
                assert_eq!(Some(&expected), chunk.get_voxel(UVec3::new(x, y, z)));
            }
        }
    }
}

#[test]
fn plane_fill_respects_axis_and_half_open_range() {
    let mut chunk = VoxelChunk::new(UVec3::new(5, 5, 5));
    let cube = VoxelData::new(Voxel::Cuboid);
    let slope = VoxelData::new(Voxel::Slope);
    chunk
        .set_voxel_plane(4, UVec2::new(1, 2), UVec2::new(3, 4), PlaneAxis::XY, cube)
        .set_voxel_plane(0, UVec2::new(0, 0), UVec2::new(5, 1), PlaneAxis::YZ, slope);
    // XY slab at z = 4: x in [1, 3), y in [2, 4)
    assert_eq!(Some(&cube), chunk.get_voxel(UVec3::new(1, 2, 4)));
    assert_eq!(Some(&cube), chunk.get_voxel(UVec3::new(2, 3, 4)));
    assert_eq!(Some(&VoxelData::default()), chunk.get_voxel(UVec3::new(3, 3, 4)));
    assert_eq!(Some(&VoxelData::default()), chunk.get_voxel(UVec3::new(2, 4, 4)));
    assert_eq!(Some(&VoxelData::default()), chunk.get_voxel(UVec3::new(2, 3, 3)));
    // YZ slab at x = 0: y in [0, 5), z in [0, 1)
    for y in 0..5 {
        assert_eq!(Some(&slope), chunk.get_voxel(UVec3::new(0, y, 0)));
        assert_eq!(Some(&VoxelData::default()), chunk.get_voxel(UVec3::new(0, y, 1)));
    }
    // an empty range writes nothing, even outside the chunk
    chunk.set_voxel_plane(99, UVec2::new(3, 3), UVec2::new(3, 9), PlaneAxis::XZ, slope);
    assert_eq!(Some(&VoxelData::default()), chunk.get_voxel(UVec3::new(3, 3, 3)));
}

#[test]
fn iteration_is_row_major_and_complete() {
    let mut chunk = VoxelChunk::new(UVec3::new(3, 2, 2));
    chunk.set_voxel(UVec3::new(2, 1, 0), VoxelData::new(Voxel::Slope));
    let mut it = chunk.iter();
    let mut seen = Vec::new();
    while let Some((voxel, coords)) = it.next() {
        seen.push((*voxel, coords));
    }
    assert_eq!(12, seen.len());
    assert_eq!(UVec3::new(0, 0, 0), seen[0].1);
    assert_eq!(UVec3::new(1, 0, 0), seen[1].1);
    assert_eq!(UVec3::new(0, 1, 0), seen[3].1);
    assert_eq!(UVec3::new(2, 1, 0), seen[5].1);
    assert_eq!(Voxel::Slope, seen[5].0.voxel);
    assert_eq!(UVec3::new(0, 0, 1), seen[6].1);
    assert_eq!(UVec3::new(2, 1, 1), seen[11].1);
    assert!(it.next().is_none());
    // restartable
    let mut again = chunk.iter();
    assert_eq!(UVec3::new(0, 0, 0), again.next().unwrap().1);
}

#[test]
fn solid_cells_in_a_box() {
    let mut chunk = VoxelChunk::new(UVec3::new(4, 4, 4));
    let cube = VoxelData::new(Voxel::Cuboid);
    chunk
        .set_voxel(UVec3::new(1, 1, 1), cube)
        .set_voxel(UVec3::new(2, 1, 1), cube)
        .set_voxel(UVec3::new(1, 0, 2), cube)
        .set_voxel(UVec3::new(3, 3, 3), cube);
    let found = chunk.solid_cells_in(UVec3::new(1, 0, 1), UVec3::new(3, 2, 3));
    assert_eq!(
        vec![
            (cube, UVec3::new(1, 1, 1)),
            (cube, UVec3::new(2, 1, 1)),
            (cube, UVec3::new(1, 0, 2)),
        ],
        found
    );
    // boxes reaching past the chunk are clipped by it
    let all = chunk.solid_cells_in(UVec3::new(0, 0, 0), UVec3::new(100, 100, 100));
    assert_eq!(4, all.len());
    assert_eq!(UVec3::new(3, 3, 3), all[3].1);
    assert!(chunk.solid_cells_in(UVec3::new(2, 2, 2), UVec3::new(2, 9, 9)).is_empty());
}
