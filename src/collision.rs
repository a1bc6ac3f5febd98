use vstd::prelude::*;

use crate::voxel::VoxelChunk;

verus! {

/// A bitmask of the groups a body belongs to, or of the groups it reacts to.
pub type CollisionGroups = u32;

pub const GROUP_NONE: CollisionGroups = 0;

pub const GROUP_ALL: CollisionGroups = 0xFFFF_FFFF;

pub const GROUP_PARTICLES: CollisionGroups = 0b0000_0001;

pub const GROUP_STATIC_TERRAIN: CollisionGroups = 0b0000_0010;

pub const GROUP_MOVING_TERRAIN: CollisionGroups = 0b0000_0100;

pub const GROUP_BASIC: CollisionGroups = 0b0000_1000;

pub const GROUP_PLAYERS: CollisionGroups = 0b0001_0000;

/// How a body takes part in collisions: what it is, and what pushes it.
#[derive(Debug, Clone, Copy, PartialEq, Eq, Structural, Hash, Default)]
pub struct CollisionConfig {
    /// Group(s) the body belongs to. It's typically only one.
    pub groups: CollisionGroups,
    /// Groups the body is affected by.
    pub affected_by: CollisionGroups,
}

impl CollisionConfig {
    /// Whether a body of `groups` pushes this one.
    pub open spec fn reacts_to(self, groups: CollisionGroups) -> bool {
        self.affected_by & groups != 0
    }

    pub fn new(groups: CollisionGroups, affected_by: CollisionGroups) -> (r: CollisionConfig)
        ensures
            r == (CollisionConfig { groups, affected_by }),
    {
        CollisionConfig { groups, affected_by }
    }

    /// The same configuration, no longer affected by any group of `affected_by`.
    pub fn not_affected_by(&self, affected_by: CollisionGroups) -> (r: CollisionConfig)
        ensures
            r == (CollisionConfig { groups: self.groups, affected_by: self.affected_by & !affected_by }),
    {
        CollisionConfig { groups: self.groups, affected_by: self.affected_by & !affected_by }
    }

    /// Whether a body belonging to `groups` affects this one.
    pub fn affected_by(&self, groups: CollisionGroups) -> (r: bool)
        ensures
            r == self.reacts_to(groups),
    {
        self.affected_by & groups != 0
    }
}

/// Which bodies of a colliding pair (A, B) the collision pushes.
#[derive(Debug, Clone, Copy, PartialEq, Eq, Structural, Hash)]
pub enum ResponseSplit {
    /// Neither body reacts to the other: the pair is skipped.
    Neither,
    /// Only A is pushed, by the whole correction.
    OnlyA,
    /// Only B is pushed, by the whole correction.
    OnlyB,
    /// Both are pushed, the correction shared in proportion to the other body's weight.
    Both,
}

impl ResponseSplit {
    pub open spec fn pushes_a(self) -> bool {
        self == ResponseSplit::OnlyA || self == ResponseSplit::Both
    }

    pub open spec fn pushes_b(self) -> bool {
        self == ResponseSplit::OnlyB || self == ResponseSplit::Both
    }
}

/// The split for a pair where A is (or is not) affected by B and B by A.
pub open spec fn split_of(a_affected: bool, b_affected: bool) -> ResponseSplit {
    if a_affected && b_affected {
        ResponseSplit::Both
    } else if a_affected {
        ResponseSplit::OnlyA
    } else if b_affected {
        ResponseSplit::OnlyB
    } else {
        ResponseSplit::Neither
    }
}

/// The split for bodies configured as `a` and `b`.
pub open spec fn split_for(a: CollisionConfig, b: CollisionConfig) -> ResponseSplit {
    split_of(a.reacts_to(b.groups), b.reacts_to(a.groups))
}

/// Decides which of the bodies configured as `a` and `b` a collision between them pushes.
pub fn response_split(a: &CollisionConfig, b: &CollisionConfig) -> (r: ResponseSplit)
    ensures
        r == split_for(*a, *b),
{
    let a_affected = a.affected_by(b.groups);
    let b_affected = b.affected_by(a.groups);
    if a_affected && b_affected {
        ResponseSplit::Both
    } else if a_affected {
        ResponseSplit::OnlyA
    } else if b_affected {
        ResponseSplit::OnlyB
    } else {
        ResponseSplit::Neither
    }
}

/// A pair of bodies, by their positions in the body list (`a < b`), that may collide.
#[derive(Debug, Clone, Copy, PartialEq, Eq, Structural, Hash)]
pub struct BodyPair {
    pub a: usize,
    pub b: usize,
    pub split: ResponseSplit,
}

/// The interacting pairs `(i, k)` with `i < k < j`, by increasing `k`.
pub open spec fn row_pairs(configs: Seq<CollisionConfig>, i: int, j: int) -> Seq<BodyPair>
    decreases j,
{
    if j <= 0 || j <= i + 1 {
        seq![]
    } else {
        let prev = row_pairs(configs, i, j - 1);
        let split = split_for(configs[i], configs[j - 1]);
        if split == ResponseSplit::Neither {
            prev
        } else {
            prev.push(BodyPair { a: i as usize, b: (j - 1) as usize, split })
        }
    }
}

/// The interacting pairs whose first body comes before position `i`, in lexicographic order.
pub open spec fn pairs_before(configs: Seq<CollisionConfig>, i: int) -> Seq<BodyPair>
    decreases i,
{
    if i <= 0 {
        seq![]
    } else {
        pairs_before(configs, i - 1) + row_pairs(configs, i - 1, configs.len() as int)
    }
}

/// Every pair of distinct bodies of which at least one reacts to the other, each once, in
/// lexicographic order of positions.
pub open spec fn body_pairs(configs: Seq<CollisionConfig>) -> Seq<BodyPair> {
    pairs_before(configs, configs.len() as int)
}

/// Lists the pairs of bodies the detection phase must test, with the split each uses.
pub fn collision_pairs(configs: &Vec<CollisionConfig>) -> (r: Vec<BodyPair>)
    ensures
        r@ == body_pairs(configs@),
{
    let n = configs.len();
    let mut r: Vec<BodyPair> = Vec::new();
    let mut i: usize = 0;
    while i < n
        invariant
            i <= n,
            n == configs@.len(),
            r@ == pairs_before(configs@, i as int),
        decreases n - i,
    {
        let mut j: usize = i + 1;
        assert(r@ =~= pairs_before(configs@, i as int) + row_pairs(configs@, i as int, j as int));
        while j < n
            invariant
                i < n,
                i + 1 <= j <= n,
                n == configs@.len(),
                r@ == pairs_before(configs@, i as int) + row_pairs(configs@, i as int, j as int),
            decreases n - j,
        {
            let split = response_split(&configs[i], &configs[j]);
            let ghost prefix = pairs_before(configs@, i as int);
            let ghost row = row_pairs(configs@, i as int, j as int);
            if split != ResponseSplit::Neither {
                r.push(BodyPair { a: i, b: j, split });
                assert(r@ =~= prefix + row.push(BodyPair { a: i, b: j, split }));
            }
            j += 1;
        }
        i += 1;
    }
    r
}

/// Whether pair `p` comes strictly before pair `q` in lexicographic order of positions.
pub open spec fn pair_precedes(p: BodyPair, q: BodyPair) -> bool {
    p.a < q.a || (p.a == q.a && p.b < q.b)
}

/// The pairs of one row are those of first body `i`, in increasing order of the second body,
/// each interacting, and every interacting pair of the row is among them.
proof fn lemma_row_pairs(configs: Seq<CollisionConfig>, i: int, j: int)
    requires
        0 <= i,
        j <= configs.len(),
        configs.len() <= usize::MAX,
    ensures
        forall|k: int|
            0 <= k < row_pairs(configs, i, j).len() ==> {
                let p = #[trigger] row_pairs(configs, i, j)[k];
                &&& p.a == i
                &&& i < p.b < j
                &&& p.split == split_for(configs[i], configs[p.b as int])
                &&& p.split != ResponseSplit::Neither
            },
        forall|k: int, l: int|
            0 <= k < l < row_pairs(configs, i, j).len() ==> #[trigger] row_pairs(configs, i, j)[k].b
                < #[trigger] row_pairs(configs, i, j)[l].b,
        forall|b: int|
            i < b < j && split_for(configs[i], configs[b]) != ResponseSplit::Neither
                ==> #[trigger] row_pairs(configs, i, j).contains(
                BodyPair { a: i as usize, b: b as usize, split: split_for(configs[i], configs[b]) },
            ),
    decreases j,
{
    if j <= 0 || j <= i + 1 {
    } else {
        lemma_row_pairs(configs, i, j - 1);
        let prev = row_pairs(configs, i, j - 1);
        let row = row_pairs(configs, i, j);
        let split = split_for(configs[i], configs[j - 1]);
        let q = BodyPair { a: i as usize, b: (j - 1) as usize, split };
        assert forall|b: int|
            i < b < j && split_for(configs[i], configs[b]) != ResponseSplit::Neither implies
                #[trigger] row.contains(
                BodyPair { a: i as usize, b: b as usize, split: split_for(configs[i], configs[b]) },
            ) by {
            if b < j - 1 {
                let target = BodyPair {
                    a: i as usize,
                    b: b as usize,
                    split: split_for(configs[i], configs[b]),
                };
                assert(prev.contains(target));
                let k = choose|k: int| 0 <= k < prev.len() && prev[k] == target;
                assert(row[k] == target);
            } else {
                assert(row[row.len() - 1] == q);
            }
        }
    }
}

/// The interacting pairs whose first body comes before `i` are listed in lexicographic order,
/// each interacting, and every such pair is among them.
proof fn lemma_pairs_before(configs: Seq<CollisionConfig>, i: int)
    requires
        i <= configs.len(),
        configs.len() <= usize::MAX,
    ensures
        forall|k: int|
            0 <= k < pairs_before(configs, i).len() ==> {
                let p = #[trigger] pairs_before(configs, i)[k];
                &&& p.a < i
                &&& p.a < p.b < configs.len()
                &&& p.split == split_for(configs[p.a as int], configs[p.b as int])
                &&& p.split != ResponseSplit::Neither
            },
        forall|k: int, l: int|
            0 <= k < l < pairs_before(configs, i).len() ==> pair_precedes(
                #[trigger] pairs_before(configs, i)[k],
                #[trigger] pairs_before(configs, i)[l],
            ),
        forall|a: int, b: int|
            0 <= a < i && a < b < configs.len() && split_for(configs[a], configs[b])
                != ResponseSplit::Neither ==> #[trigger] pairs_before(configs, i).contains(
                BodyPair { a: a as usize, b: b as usize, split: split_for(configs[a], configs[b]) },
            ),
    decreases i,
{
    if i <= 0 {
    } else {
        let n = configs.len() as int;
        lemma_pairs_before(configs, i - 1);
        lemma_row_pairs(configs, i - 1, n);
        let prev = pairs_before(configs, i - 1);
        let row = row_pairs(configs, i - 1, n);
        let all = pairs_before(configs, i);
        assert(all == prev + row);
        assert forall|k: int, l: int| 0 <= k < l < all.len() implies pair_precedes(
            #[trigger] all[k],
            #[trigger] all[l],
        ) by {
            if l < prev.len() {
                assert(all[k] == prev[k] && all[l] == prev[l]);
            } else if k < prev.len() {
                assert(all[k] == prev[k] && all[l] == row[l - prev.len()]);
            } else {
                assert(all[k] == row[k - prev.len()] && all[l] == row[l - prev.len()]);
            }
        }
        assert forall|k: int| 0 <= k < all.len() implies {
            let p = #[trigger] all[k];
            &&& p.a < i
            &&& p.a < p.b < configs.len()
            &&& p.split == split_for(configs[p.a as int], configs[p.b as int])
            &&& p.split != ResponseSplit::Neither
        } by {
            if k < prev.len() {
                assert(all[k] == prev[k]);
            } else {
                assert(all[k] == row[k - prev.len()]);
            }
        }
        assert forall|a: int, b: int|
            0 <= a < i && a < b < configs.len() && split_for(configs[a], configs[b])
                != ResponseSplit::Neither implies #[trigger] all.contains(
                BodyPair { a: a as usize, b: b as usize, split: split_for(configs[a], configs[b]) },
            ) by {
            let target = BodyPair {
                a: a as usize,
                b: b as usize,
                split: split_for(configs[a], configs[b]),
            };
            if a < i - 1 {
                assert(prev.contains(target));
                let k = choose|k: int| 0 <= k < prev.len() && prev[k] == target;
                assert(all[k] == target);
            } else {
                assert(row.contains(target));
                let k = choose|k: int| 0 <= k < row.len() && row[k] == target;
                assert(all[prev.len() + k] == target);
            }
        }
    }
}

/// The detection plan lists every pair of distinct bodies of which at least one reacts to the
/// other, with the split it uses, each pair once and in lexicographic order, and nothing else.
pub proof fn lemma_body_pairs(configs: Seq<CollisionConfig>)
    requires
        configs.len() <= usize::MAX,
    ensures
        forall|k: int|
            0 <= k < body_pairs(configs).len() ==> {
                let p = #[trigger] body_pairs(configs)[k];
                &&& p.a < p.b < configs.len()
                &&& p.split == split_for(configs[p.a as int], configs[p.b as int])
                &&& p.split != ResponseSplit::Neither
            },
        forall|k: int, l: int|
            0 <= k < l < body_pairs(configs).len() ==> pair_precedes(
                #[trigger] body_pairs(configs)[k],
                #[trigger] body_pairs(configs)[l],
            ),
        forall|a: int, b: int|
            0 <= a < b < configs.len() && split_for(configs[a], configs[b])
                != ResponseSplit::Neither ==> #[trigger] body_pairs(configs).contains(
                BodyPair { a: a as usize, b: b as usize, split: split_for(configs[a], configs[b]) },
            ),
{
    lemma_pairs_before(configs, configs.len() as int);
}

/// The body shapes the simulation knows.
#[derive(Debug)]
pub enum Shape {
    Cuboid,
    Capsule,
    VoxelChunk(VoxelChunk),
}

/// The narrow-phase test that applies to a pair of shapes.
#[derive(Debug, Clone, Copy, PartialEq, Eq, Structural, Hash)]
pub enum NarrowPhase {
    /// Two cuboids.
    CuboidCuboid,
    /// A voxel chunk (first) against a cuboid (second).
    ChunkCuboid,
    /// A cuboid (first) against a voxel chunk (second).
    CuboidChunk,
    /// No test exists for this pair: it never collides.
    Unsupported,
}

pub open spec fn narrow_phase_for(a: Shape, b: Shape) -> NarrowPhase {
    match (a, b) {
        (Shape::Cuboid, Shape::Cuboid) => NarrowPhase::CuboidCuboid,
        (Shape::VoxelChunk(_), Shape::Cuboid) => NarrowPhase::ChunkCuboid,
        (Shape::Cuboid, Shape::VoxelChunk(_)) => NarrowPhase::CuboidChunk,
        _ => NarrowPhase::Unsupported,
    }
}

/// Chooses the narrow-phase test for shapes `a` and `b`.
pub fn narrow_phase(a: &Shape, b: &Shape) -> (r: NarrowPhase)
    ensures
        r == narrow_phase_for(*a, *b),
{
    match (a, b) {
        (Shape::Cuboid, Shape::Cuboid) => NarrowPhase::CuboidCuboid,
        (Shape::VoxelChunk(_), Shape::Cuboid) => NarrowPhase::ChunkCuboid,
        (Shape::Cuboid, Shape::VoxelChunk(_)) => NarrowPhase::CuboidChunk,
        _ => NarrowPhase::Unsupported,
    }
}

/// A body that reacts to no group is never pushed, whatever it meets; a body that reacts to
/// every group is pushed by any body that belongs to some group.
pub proof fn lemma_group_filtering(a: CollisionConfig, b: CollisionConfig)
    ensures
        a.affected_by == GROUP_NONE ==> !split_for(a, b).pushes_a() && !split_for(b, a).pushes_b(),
        a.affected_by == GROUP_ALL && b.groups != GROUP_NONE ==> split_for(a, b).pushes_a()
            && split_for(b, a).pushes_b(),
{
    let (am, bg) = (a.affected_by, b.groups);
    assert(am == 0 ==> am & bg == 0) by (bit_vector);
    assert(am == 0xFFFF_FFFF && bg != 0 ==> am & bg != 0) by (bit_vector);
}

} // verus!
