use vstd::prelude::*;
use vstd::arithmetic::div_mod::{
    lemma_fundamental_div_mod, lemma_fundamental_div_mod_converse, lemma_mod_bound,
};

use crate::math::{UVec2, UVec3};
use crate::orientation::{identity_orientation, Orientation};

verus! {

/// The shape held by one cell of a [`VoxelChunk`].
#[derive(Debug, Clone, Copy, PartialEq, Eq, Structural, Hash)]
pub enum Voxel {
    /// No voxel
    Empty,
    /// Cuboid shaped voxel
    Cuboid,
    /// Slope shaped voxel. Default orientation has the slope's normal facing (0, 1, 1).
    Slope,
}

impl Default for Voxel {
    fn default() -> (r: Voxel)
        ensures
            r == Voxel::Empty,
    {
        Voxel::Empty
    }
}

/// A [`Voxel`] together with its orientation.
#[derive(Debug, Clone, Copy, PartialEq, Eq, Structural, Hash)]
pub struct VoxelData {
    pub voxel: Voxel,
    pub orientation: Orientation,
}

/// The content of a cell that was never written.
pub open spec fn empty_voxel() -> VoxelData {
    VoxelData { voxel: Voxel::Empty, orientation: identity_orientation() }
}

impl VoxelData {
    pub fn new(voxel: Voxel) -> (r: VoxelData)
        ensures
            r == (VoxelData { voxel, orientation: identity_orientation() }),
    {
        VoxelData { voxel, orientation: Orientation::default() }
    }

    pub fn with_orientation(self, orientation: Orientation) -> (r: VoxelData)
        ensures
            r == (VoxelData { orientation, ..self }),
    {
        VoxelData { orientation, ..self }
    }
}

impl Default for VoxelData {
    fn default() -> (r: VoxelData)
        ensures
            r == empty_voxel(),
    {
        VoxelData::new(Voxel::Empty)
    }
}

/// Number of cells in a chunk of the given size.
pub open spec fn volume(size: UVec3) -> int {
    size.x * size.y * size.z
}

pub open spec fn in_bounds(size: UVec3, c: UVec3) -> bool {
    c.x < size.x && c.y < size.y && c.z < size.z
}

/// Position of the cell at `c` in the flat backing array: x varies fastest, then y, then z.
pub open spec fn voxel_index(size: UVec3, c: UVec3) -> int {
    c.x + size.x * (c.y + size.y * c.z)
}

/// The cell coordinates stored at flat position `i`; inverse of [`voxel_index`].
pub open spec fn voxel_coords(size: UVec3, i: int) -> UVec3 {
    UVec3 {
        x: (i % (size.x as int)) as u32,
        y: ((i / (size.x as int)) % (size.y as int)) as u32,
        z: ((i / (size.x as int)) / (size.y as int)) as u32,
    }
}

/// Axis-aligned plane that [`VoxelChunk::set_voxel_plane`] fills.
#[derive(Debug, Clone, Copy, PartialEq, Eq, Structural, Hash)]
pub enum PlaneAxis {
    XY,
    YZ,
    XZ,
}

/// First in-plane coordinate of `c` for a plane on `axis`.
pub open spec fn plane_u(axis: PlaneAxis, c: UVec3) -> u32 {
    match axis {
        PlaneAxis::XY => c.x,
        PlaneAxis::YZ => c.y,
        PlaneAxis::XZ => c.x,
    }
}

/// Second in-plane coordinate of `c` for a plane on `axis`.
pub open spec fn plane_v(axis: PlaneAxis, c: UVec3) -> u32 {
    match axis {
        PlaneAxis::XY => c.y,
        PlaneAxis::YZ => c.z,
        PlaneAxis::XZ => c.z,
    }
}

/// The coordinate of `c` that the plane on `axis` holds fixed.
pub open spec fn plane_fixed(axis: PlaneAxis, c: UVec3) -> u32 {
    match axis {
        PlaneAxis::XY => c.z,
        PlaneAxis::YZ => c.x,
        PlaneAxis::XZ => c.y,
    }
}

/// Whether the slab `[src, dest)` at fixed coordinate `xyz` on `axis` covers `c`.
pub open spec fn plane_contains(xyz: u32, src: UVec2, dest: UVec2, axis: PlaneAxis, c: UVec3) -> bool {
    &&& plane_fixed(axis, c) == xyz
    &&& src.x <= plane_u(axis, c) < dest.x
    &&& src.y <= plane_v(axis, c) < dest.y
}

/// Every cell of the slab lies inside a chunk of `size` (an empty slab always does).
pub open spec fn plane_in_bounds(size: UVec3, xyz: u32, src: UVec2, dest: UVec2, axis: PlaneAxis) -> bool {
    src.x < dest.x && src.y < dest.y ==> {
        &&& dest.x <= plane_u(axis, size)
        &&& dest.y <= plane_v(axis, size)
        &&& xyz < plane_fixed(axis, size)
    }
}

/// Whether `c` lies in the half-open box `[min, max)`.
pub open spec fn in_box(min: UVec3, max: UVec3, c: UVec3) -> bool {
    &&& min.x <= c.x < max.x
    &&& min.y <= c.y < max.y
    &&& min.z <= c.z < max.z
}

/// The cells of a chunk in flat order, each with its coordinates.
pub open spec fn cells_with_coords(m: ChunkModel) -> Seq<(VoxelData, UVec3)> {
    Seq::new(m.cells.len(), |i: int| (m.cells[i], voxel_coords(m.size, i)))
}

/// Selects the non-empty cells inside the box `[min, max)`.
pub open spec fn solid_in_box(min: UVec3, max: UVec3) -> spec_fn((VoxelData, UVec3)) -> bool {
    |p: (VoxelData, UVec3)| p.0.voxel != Voxel::Empty && in_box(min, max, p.1)
}

/// Mathematical content of a chunk: its size and its cells in flat order.
pub struct ChunkModel {
    pub size: UVec3,
    pub cells: Seq<VoxelData>,
}

impl ChunkModel {
    pub open spec fn wf(self) -> bool {
        &&& self.cells.len() == volume(self.size)
        &&& volume(self.size) <= usize::MAX
    }

    /// A chunk of `size` whose cells are all empty.
    pub open spec fn empty(size: UVec3) -> ChunkModel {
        ChunkModel { size, cells: Seq::new(volume(size) as nat, |i: int| empty_voxel()) }
    }

    /// The cell at `c`, or `None` when `c` lies outside the chunk.
    pub open spec fn get(self, c: UVec3) -> Option<VoxelData> {
        if in_bounds(self.size, c) {
            Some(self.cells[voxel_index(self.size, c)])
        } else {
            None
        }
    }

    /// The chunk with the cell at `c` replaced by `d`.
    pub open spec fn set(self, c: UVec3, d: VoxelData) -> ChunkModel {
        ChunkModel { size: self.size, cells: self.cells.update(voxel_index(self.size, c), d) }
    }

    /// The chunk with every cell of the slab replaced by `d`.
    pub open spec fn fill_plane(
        self,
        xyz: u32,
        src: UVec2,
        dest: UVec2,
        axis: PlaneAxis,
        d: VoxelData,
    ) -> ChunkModel {
        ChunkModel {
            size: self.size,
            cells: Seq::new(
                self.cells.len(),
                |i: int|
                    if plane_contains(xyz, src, dest, axis, voxel_coords(self.size, i)) {
                        d
                    } else {
                        self.cells[i]
                    },
            ),
        }
    }
}

/// The flat position of an in-bounds cell lies inside the backing array.
pub proof fn lemma_index_in_range(size: UVec3, c: UVec3)
    requires
        in_bounds(size, c),
    ensures
        0 <= voxel_index(size, c) < volume(size),
{
    let w = size.x as int;
    let h = size.y as int;
    let d = size.z as int;
    let x = c.x as int;
    let y = c.y as int;
    let z = c.z as int;
    assert(0 <= y + h * z <= h * d - 1) by (nonlinear_arith)
        requires
            0 <= y < h,
            0 <= z < d,
    ;
    assert(0 <= x + w * (y + h * z) <= w * (h * d) - 1) by (nonlinear_arith)
        requires
            0 <= x < w,
            0 <= y + h * z <= h * d - 1,
    ;
    assert(w * (h * d) == w * h * d) by (nonlinear_arith);
}

/// [`voxel_coords`] undoes [`voxel_index`] on in-bounds cells.
pub proof fn lemma_coords_of_index(size: UVec3, c: UVec3)
    requires
        in_bounds(size, c),
    ensures
        voxel_coords(size, voxel_index(size, c)) == c,
{
    let w = size.x as int;
    let h = size.y as int;
    let x = c.x as int;
    let y = c.y as int;
    let z = c.z as int;
    let m = y + h * z;
    let i = x + w * m;
    assert(i == m * w + x) by (nonlinear_arith)
        requires
            i == x + w * m,
    ;
    lemma_fundamental_div_mod_converse(i, w, m, x);
    assert(m == z * h + y) by (nonlinear_arith)
        requires
            m == y + h * z,
    ;
    lemma_fundamental_div_mod_converse(m, h, z, y);
}

/// [`voxel_index`] undoes [`voxel_coords`] on positions of the backing array.
pub proof fn lemma_index_of_coords(size: UVec3, i: int)
    requires
        0 <= i < volume(size),
    ensures
        in_bounds(size, voxel_coords(size, i)),
        voxel_index(size, voxel_coords(size, i)) == i,
        size.x > 0 && size.y > 0 && size.z > 0,
        0 <= i % (size.x as int) < size.x,
        0 <= (i / (size.x as int)) % (size.y as int) < size.y,
        0 <= (i / (size.x as int)) / (size.y as int) < size.z,
{
    let w = size.x as int;
    let h = size.y as int;
    let d = size.z as int;
    assert(w > 0 && h > 0 && d > 0) by (nonlinear_arith)
        requires
            0 <= i < w * h * d,
            w >= 0,
            h >= 0,
            d >= 0,
    ;
    let x = i % w;
    let m = i / w;
    lemma_fundamental_div_mod(i, w);
    lemma_mod_bound(i, w);
    let y = m % h;
    let z = m / h;
    lemma_fundamental_div_mod(m, h);
    lemma_mod_bound(m, h);
    assert(0 <= m < h * d) by (nonlinear_arith)
        requires
            i == w * m + x,
            0 <= x < w,
            0 <= i < w * h * d,
    ;
    assert(0 <= z < d) by (nonlinear_arith)
        requires
            m == h * z + y,
            0 <= y < h,
            0 <= m < h * d,
    ;
}

/// Cells at distinct in-bounds coordinates sit at distinct flat positions.
pub proof fn lemma_index_injective(size: UVec3, c1: UVec3, c2: UVec3)
    requires
        in_bounds(size, c1),
        in_bounds(size, c2),
        voxel_index(size, c1) == voxel_index(size, c2),
    ensures
        c1 == c2,
{
    lemma_coords_of_index(size, c1);
    lemma_coords_of_index(size, c2);
}

/// A dense grid of voxels, stored flat with x varying fastest, then y, then z.
#[derive(Debug)]
pub struct VoxelChunk {
    size: UVec3,
    voxels: Vec<VoxelData>,
}

impl View for VoxelChunk {
    type V = ChunkModel;

    closed spec fn view(&self) -> ChunkModel {
        ChunkModel { size: self.size, cells: self.voxels@ }
    }
}

impl VoxelChunk {
    pub open spec fn wf(&self) -> bool {
        self@.wf()
    }

    /// Allocates a chunk of `size` whose cells are all empty.
    pub fn new(size: UVec3) -> (r: VoxelChunk)
        requires
            volume(size) <= usize::MAX,
        ensures
            r.wf(),
            r@ == ChunkModel::empty(size),
    {
        assert(size.x * size.y <= u64::MAX) by (nonlinear_arith)
            requires
                0 <= size.x <= u32::MAX,
                0 <= size.y <= u32::MAX,
        ;
        let xy: u64 = size.x as u64 * size.y as u64;
        assert(xy * size.z == volume(size)) by (nonlinear_arith)
            requires
                xy == size.x * size.y,
        ;
        assert(xy * size.z <= usize::MAX);
        let n: usize = (xy * size.z as u64) as usize;
        let mut voxels: Vec<VoxelData> = Vec::new();
        let mut i: usize = 0;
        while i < n
            invariant
                i <= n,
                n == volume(size),
                voxels@.len() == i,
                forall|k: int| 0 <= k < i ==> voxels@[k] == empty_voxel(),
            decreases n - i,
        {
            voxels.push(VoxelData::default());
            i += 1;
        }
        let r = VoxelChunk { size, voxels };
        assert(r@.cells =~= ChunkModel::empty(size).cells);
        r
    }

    /// Size of the chunk measured in voxels.
    pub fn size(&self) -> (r: UVec3)
        ensures
            r == self@.size,
    {
        self.size
    }

    fn in_bounds(&self, coords: UVec3) -> (r: bool)
        ensures
            r == in_bounds(self@.size, coords),
    {
        coords.x < self.size.x && coords.y < self.size.y && coords.z < self.size.z
    }

    /// Flat position of an in-bounds cell.
    fn to_voxel_index(&self, coords: UVec3) -> (r: usize)
        requires
            self.wf(),
            in_bounds(self@.size, coords),
        ensures
            r == voxel_index(self@.size, coords),
            r < self@.cells.len(),
    {
        proof {
            lemma_index_in_range(self.size, coords);
        }
        let x = coords.x as usize;
        let y = coords.y as usize;
        let z = coords.z as usize;
        let w = self.size.x as usize;
        let h = self.size.y as usize;
        assert(h * z <= y + h * z <= w * (y + h * z)) by (nonlinear_arith)
            requires
                0 <= y,
                0 <= h * z,
                x < w,
        ;
        let index = x + w * (y + h * z);
        index
    }

    /// The voxel at `coords`, or `None` when `coords` lies outside the chunk.
    pub fn get_voxel(&self, coords: UVec3) -> (r: Option<&VoxelData>)
        requires
            self.wf(),
        ensures
            match r {
                Some(v) => self@.get(coords) == Some(*v),
                None => self@.get(coords) is None,
            },
    {
        if !self.in_bounds(coords) {
            return None;
        }
        let idx = self.to_voxel_index(coords);
        Some(&self.voxels[idx])
    }

    /// Mutable access to the voxel at `coords`, or `None` when `coords` lies outside the chunk.
    pub fn get_voxel_mut(&mut self, coords: UVec3) -> (r: Option<&mut VoxelData>)
        requires
            old(self).wf(),
        ensures
            match r {
                Some(v) => {
                    &&& old(self)@.get(coords) == Some(*v)
                    &&& final(self)@ == old(self)@.set(coords, *final(v))
                },
                None => {
                    &&& old(self)@.get(coords) is None
                    &&& final(self)@ == old(self)@
                },
            },
    {
        if !self.in_bounds(coords) {
            return None;
        }
        let idx = self.to_voxel_index(coords);
        Some(&mut self.voxels[idx])
    }

    fn write_voxel(&mut self, coords: UVec3, voxel_data: VoxelData)
        requires
            old(self).wf(),
            in_bounds(old(self)@.size, coords),
        ensures
            final(self)@ == old(self)@.set(coords, voxel_data),
            final(self).wf(),
    {
        let idx = self.to_voxel_index(coords);
        self.voxels.set(idx, voxel_data);
    }

    /// Overwrites the voxel at `coords` and returns the chunk, so that writes can be chained.
    /// `coords` must lie inside the chunk.
    pub fn set_voxel(&mut self, coords: UVec3, voxel_data: VoxelData) -> (r: &mut VoxelChunk)
        requires
            old(self).wf(),
            in_bounds(old(self)@.size, coords),
        ensures
            r@ == old(self)@.set(coords, voxel_data),
            r.wf(),
            final(self)@ == final(r)@,
    {
        self.write_voxel(coords, voxel_data);
        self
    }

    /// Fills the slab `[src, dest)` at fixed coordinate `xyz` on `axis` with `voxel_data` and
    /// returns the chunk. Every cell of the slab must lie inside the chunk.
    pub fn set_voxel_plane(
        &mut self,
        xyz: u32,
        src: UVec2,
        dest: UVec2,
        axis: PlaneAxis,
        voxel_data: VoxelData,
    ) -> (r: &mut VoxelChunk)
        requires
            old(self).wf(),
            plane_in_bounds(old(self)@.size, xyz, src, dest, axis),
        ensures
            r@ == old(self)@.fill_plane(xyz, src, dest, axis, voxel_data),
            r.wf(),
            final(self)@ == final(r)@,
    {
        let ghost start = self@;
        let mut u: u32 = src.x;
        while u < dest.x
            invariant
                self.wf(),
                start.wf(),
                self@.size == start.size,
                plane_in_bounds(start.size, xyz, src, dest, axis),
                src.x <= u,
                u <= dest.x || u == src.x,
                forall|c: UVec3|
                    #[trigger] self@.get(c) == if plane_contains(
                        xyz,
                        src,
                        UVec2 { x: u, y: dest.y },
                        axis,
                        c,
                    ) {
                        Some(voxel_data)
                    } else {
                        start.get(c)
                    },
            decreases dest.x - u,
        {
            let mut v: u32 = src.y;
            while v < dest.y
                invariant
                    self.wf(),
                    start.wf(),
                    self@.size == start.size,
                    plane_in_bounds(start.size, xyz, src, dest, axis),
                    src.x <= u < dest.x,
                    src.y <= v,
                    v <= dest.y || v == src.y,
                    forall|c: UVec3|
                        #[trigger] self@.get(c) == if plane_contains(
                            xyz,
                            src,
                            UVec2 { x: u, y: dest.y },
                            axis,
                            c,
                        ) || plane_contains(
                            xyz,
                            UVec2 { x: u, y: src.y },
                            UVec2 { x: (u + 1) as u32, y: v },
                            axis,
                            c,
                        ) {
                            Some(voxel_data)
                        } else {
                            start.get(c)
                        },
                decreases dest.y - v,
            {
                let coords = plane_point(axis, xyz, u, v);
                let ghost before = self@;
                self.write_voxel(coords, voxel_data);
                proof {
                    assert forall|c: UVec3|
                        #[trigger] self@.get(c) == if plane_contains(
                            xyz,
                            src,
                            UVec2 { x: u, y: dest.y },
                            axis,
                            c,
                        ) || plane_contains(
                            xyz,
                            UVec2 { x: u, y: src.y },
                            UVec2 { x: (u + 1) as u32, y: (v + 1) as u32 },
                            axis,
                            c,
                        ) {
                            Some(voxel_data)
                        } else {
                            start.get(c)
                        } by {
                        lemma_plane_cell_in_bounds(start.size, xyz, src, dest, axis, coords);
                        lemma_index_in_range(start.size, coords);
                        if c != coords {
                            assert(before.get(c) == if plane_contains(
                                xyz,
                                src,
                                UVec2 { x: u, y: dest.y },
                                axis,
                                c,
                            ) || plane_contains(
                                xyz,
                                UVec2 { x: u, y: src.y },
                                UVec2 { x: (u + 1) as u32, y: v },
                                axis,
                                c,
                            ) {
                                Some(voxel_data)
                            } else {
                                start.get(c)
                            });
                            if in_bounds(start.size, c) {
                                lemma_index_in_range(start.size, c);
                                if voxel_index(start.size, c) == voxel_index(start.size, coords) {
                                    lemma_index_injective(start.size, c, coords);
                                }
                            } else if plane_contains(xyz, src, dest, axis, c) {
                                lemma_plane_cell_in_bounds(start.size, xyz, src, dest, axis, c);
                            }
                        }
                    }
                }
                v += 1;
            }
            u += 1;
        }
        proof {
            let goal = start.fill_plane(xyz, src, dest, axis, voxel_data);
            assert forall|i: int| 0 <= i < self@.cells.len() implies self@.cells[i] == goal.cells[i] by {
                lemma_index_of_coords(start.size, i);
                let c = voxel_coords(start.size, i);
                assert(self@.get(c) == Some(self@.cells[i]));
            }
            assert(self@.cells =~= goal.cells);
        }
        self
    }

    /// The non-empty voxels whose cells lie in the box `[min, max)` of cell coordinates, each
    /// with its coordinates, in flat order. These are the candidates of the body-versus-chunk
    /// narrow phase.
    pub fn solid_cells_in(&self, min: UVec3, max: UVec3) -> (r: Vec<(VoxelData, UVec3)>)
        requires
            self.wf(),
        ensures
            r@ == cells_with_coords(self@).filter(solid_in_box(min, max)),
    {
        let ghost all = cells_with_coords(self@);
        let ghost pred = solid_in_box(min, max);
        let n = self.voxels.len();
        let w = self.size.x as usize;
        let h = self.size.y as usize;
        let mut r: Vec<(VoxelData, UVec3)> = Vec::new();
        let mut i: usize = 0;
        assert(all.take(0) =~= Seq::<(VoxelData, UVec3)>::empty());
        while i < n
            invariant
                self.wf(),
                n == self@.cells.len(),
                w == self@.size.x,
                h == self@.size.y,
                all == cells_with_coords(self@),
                pred == solid_in_box(min, max),
                i <= n,
                r@ == all.take(i as int).filter(pred),
            decreases n - i,
        {
            proof {
                lemma_index_of_coords(self.size, i as int);
            }
            let q = i / w;
            let c = UVec3 { x: (i % w) as u32, y: (q % h) as u32, z: (q / h) as u32 };
            let v = self.voxels[i];
            let ghost t = all.take(i + 1);
            assert(all[i as int] == (v, c));
            assert(t.drop_last() =~= all.take(i as int));
            assert(t.last() == (v, c));
            assert(pred((v, c)) == (v.voxel != Voxel::Empty && in_box(min, max, c)));
            proof {
                reveal(Seq::filter);
            }
            assert(t.filter(pred) == if pred((v, c)) {
                all.take(i as int).filter(pred).push((v, c))
            } else {
                all.take(i as int).filter(pred)
            });
            if v.voxel != Voxel::Empty && min.x <= c.x && c.x < max.x && min.y <= c.y && c.y < max.y
                && min.z <= c.z && c.z < max.z {
                r.push((v, c));
            }
            i += 1;
        }
        assert(all.take(n as int) =~= all);
        r
    }

    /// Walks the cells in flat order (x fastest, then y, then z), yielding each voxel with its
    /// coordinates.
    pub fn iter(&self) -> (r: VoxelChunkIterator<'_>)
        requires
            self.wf(),
        ensures
            r.wf(),
            r.chunk() == self@,
            r.yielded() == 0,
    {
        proof {
            if 0 < self@.cells.len() {
                lemma_index_of_coords(self.size, 0);
                assert(in_bounds(self.size, UVec3 { x: 0, y: 0, z: 0 }));
                assert(voxel_index(self.size, UVec3 { x: 0, y: 0, z: 0 }) == 0) by (nonlinear_arith);
            }
        }
        VoxelChunkIterator { chunk: self, position: UVec3 { x: 0, y: 0, z: 0 }, index: 0 }
    }
}

/// The cell of the slab on `axis` at fixed coordinate `xyz` and in-plane coordinates `(u, v)`.
fn plane_point(axis: PlaneAxis, xyz: u32, u: u32, v: u32) -> (r: UVec3)
    ensures
        plane_u(axis, r) == u,
        plane_v(axis, r) == v,
        plane_fixed(axis, r) == xyz,
        forall|c: UVec3|
            plane_u(axis, c) == u && plane_v(axis, c) == v && plane_fixed(axis, c) == xyz ==> c
                == r,
{
    match axis {
        PlaneAxis::XY => UVec3 { x: u, y: v, z: xyz },
        PlaneAxis::YZ => UVec3 { x: xyz, y: u, z: v },
        PlaneAxis::XZ => UVec3 { x: u, y: xyz, z: v },
    }
}


/// Cursor over the cells of a [`VoxelChunk`] in flat order.
pub struct VoxelChunkIterator<'a> {
    chunk: &'a VoxelChunk,
    position: UVec3,
    index: usize,
}

impl<'a> VoxelChunkIterator<'a> {
    /// The chunk being walked.
    pub closed spec fn chunk(&self) -> ChunkModel {
        self.chunk@
    }

    /// How many cells have been yielded so far.
    pub closed spec fn yielded(&self) -> int {
        self.index as int
    }

    pub closed spec fn wf(&self) -> bool {
        &&& self.chunk.wf()
        &&& self.index <= self.chunk@.cells.len()
        &&& self.index < self.chunk@.cells.len() ==> {
            &&& in_bounds(self.chunk@.size, self.position)
            &&& voxel_index(self.chunk@.size, self.position) == self.index
        }
    }

    /// The next cell and its coordinates, or `None` once every cell has been yielded.
    pub fn next(&mut self) -> (r: Option<(&'a VoxelData, UVec3)>)
        requires
            old(self).wf(),
        ensures
            final(self).wf(),
            final(self).chunk() == old(self).chunk(),
            old(self).yielded() < old(self).chunk().cells.len() ==> {
                &&& final(self).yielded() == old(self).yielded() + 1
                &&& r matches Some((v, c))
                &&& c == voxel_coords(old(self).chunk().size, old(self).yielded())
                &&& *v == old(self).chunk().cells[old(self).yielded()]
            },
            old(self).yielded() == old(self).chunk().cells.len() ==> {
                &&& final(self).yielded() == old(self).yielded()
                &&& r is None
            },
    {
        if self.index == self.chunk.voxels.len() {
            return None;
        }
        let voxel = &self.chunk.voxels[self.index];
        let size = self.chunk.size;
        let pos = self.position;
        proof {
            lemma_coords_of_index(size, pos);
        }
        let ghost w = size.x as int;
        let ghost h = size.y as int;
        let ghost d = size.z as int;
        let ghost n = self.chunk@.cells.len() as int;
        let ghost i = self.index as int;
        assert(n == w * h * d);
        if pos.x + 1 < size.x {
            self.position = UVec3 { x: pos.x + 1, ..pos };
        } else if pos.y + 1 < size.y {
            assert(w * ((pos.y + 1) + h * pos.z) == w + w * (pos.y + h * pos.z)) by (nonlinear_arith);
            self.position = UVec3 { x: 0, y: pos.y + 1, z: pos.z };
        } else {
            assert(w * (h * (pos.z + 1)) == w + w * (pos.y + h * pos.z)) by (nonlinear_arith)
                requires
                    pos.y + 1 == h,
            ;
            assert(i + 1 < n ==> pos.z + 1 < d) by (nonlinear_arith)
                requires
                    i + 1 == w * (h * (pos.z + 1)),
                    n == w * h * d,
                    w > 0,
                    h > 0,
            ;
            self.position = UVec3 { x: 0, y: 0, z: pos.z + 1 };
        }
        self.index += 1;
        Some((voxel, pos))
    }
}

/// Reading a cell after writing it gives back what was written, every other cell keeps its
/// content, and coordinates with any axis at or beyond the chunk's size are never found.
pub proof fn lemma_get_after_set(m: ChunkModel, c: UVec3, d: VoxelData, other: UVec3)
    requires
        m.wf(),
        in_bounds(m.size, c),
    ensures
        m.set(c, d).get(c) == Some(d),
        other != c ==> m.set(c, d).get(other) == m.get(other),
        other.x >= m.size.x || other.y >= m.size.y || other.z >= m.size.z ==> m.get(other) is None,
{
    lemma_index_in_range(m.size, c);
    if other != c && in_bounds(m.size, other) {
        lemma_index_in_range(m.size, other);
        if voxel_index(m.size, other) == voxel_index(m.size, c) {
            lemma_index_injective(m.size, other, c);
        }
    }
}

/// Cell by cell, a filled slab holds `d` where the slab covers the cell and the old content
/// elsewhere.
pub proof fn lemma_fill_plane_get(
    m: ChunkModel,
    xyz: u32,
    src: UVec2,
    dest: UVec2,
    axis: PlaneAxis,
    d: VoxelData,
    c: UVec3,
)
    requires
        m.wf(),
    ensures
        m.fill_plane(xyz, src, dest, axis, d).get(c) == if in_bounds(m.size, c) && plane_contains(
            xyz,
            src,
            dest,
            axis,
            c,
        ) {
            Some(d)
        } else {
            m.get(c)
        },
{
    if in_bounds(m.size, c) {
        lemma_index_in_range(m.size, c);
        lemma_coords_of_index(m.size, c);
    }
}

/// Filling the XZ slab from (0, 0) to (w, h) at y = 0 in an empty chunk of size (w, k, h)
/// sets every cell of the floor and leaves every cell above it empty.
pub proof fn lemma_floor_fill(w: u32, k: u32, h: u32, d: VoxelData, c: UVec3)
    requires
        volume(UVec3 { x: w, y: k, z: h }) <= usize::MAX,
        in_bounds(UVec3 { x: w, y: k, z: h }, c),
    ensures
        ChunkModel::empty(UVec3 { x: w, y: k, z: h }).fill_plane(
            0,
            UVec2 { x: 0, y: 0 },
            UVec2 { x: w, y: h },
            PlaneAxis::XZ,
            d,
        ).get(c) == if c.y == 0 {
            Some(d)
        } else {
            Some(empty_voxel())
        },
{
    let size = UVec3 { x: w, y: k, z: h };
    let m = ChunkModel::empty(size);
    lemma_fill_plane_get(m, 0, UVec2 { x: 0, y: 0 }, UVec2 { x: w, y: h }, PlaneAxis::XZ, d, c);
    lemma_index_in_range(size, c);
}

/// A slab that fits in a chunk holds only in-bounds cells.
pub proof fn lemma_plane_cell_in_bounds(
    size: UVec3,
    xyz: u32,
    src: UVec2,
    dest: UVec2,
    axis: PlaneAxis,
    c: UVec3,
)
    requires
        plane_in_bounds(size, xyz, src, dest, axis),
        plane_contains(xyz, src, dest, axis, c),
    ensures
        in_bounds(size, c),
{
}

} // verus!
