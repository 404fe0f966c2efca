pub mod exhaustive;
pub mod sides;

use vstd::prelude::*;
use vstd::set_lib::{lemma_int_range, lemma_subset_equality, set_int_range};
use crate::builder::{append_copy, BuildError};
use crate::float::Side;
use crate::types::{PlaneF, Point3F, F32};

verus! {

/// How the plane that splits a node is looked for.
#[derive(Clone, Copy, Debug, PartialEq, Eq, PartialOrd, Ord, Structural)]
pub enum SplitMethod {
    /// Up to 32 planes are tried, picked by random numbers that always
    /// start from the same seed.
    Fast,
    /// The planes in the middle of each of 64 directions are tried.
    Exhaustive,
    /// No tree is built: the root is split once by the first plane.
    Off,
}

/// How a BSP tree is built: how splitters are looked for, and how far
/// from a plane a point still counts as on it.
#[derive(Clone, Copy, Debug, PartialEq, Eq)]
pub struct BSPConfig {
    pub split_method: SplitMethod,
    pub epsilon: F32,
}

/// The bits of 0.0001, the distance from a plane that counts as on it
/// unless the caller says otherwise.
pub const DEFAULT_EPSILON_BITS: u32 = 0x38D1_B717;

/// The seed of the random numbers that pick the planes to try.
pub const SPLITTER_SEED: u64 = 42;

/// How many planes are tried by the fast method.
pub const SPLITTER_TRIES: usize = 32;

impl BSPConfig {
    /// The fast method, with 0.0001 as distance that counts as on a plane.
    pub fn new() -> (r: BSPConfig)
        ensures
            r.split_method == SplitMethod::Fast,
            r.epsilon.bits == DEFAULT_EPSILON_BITS,
    {
        BSPConfig { split_method: SplitMethod::Fast, epsilon: F32 { bits: DEFAULT_EPSILON_BITS } }
    }
}

/// A polygon in a BSP tree: a triangle or a piece of one.
#[derive(Debug)]
pub struct BSPPolygon {
    pub vertices: Vec<Point3F>,
    pub indices: Vec<usize>,
    pub plane: PlaneF,
    pub plane_id: usize,
    pub id: usize,
    pub used_plane: bool,
    pub inverted_plane: bool,
    pub area_calc: F32,
}

impl BSPPolygon {
    /// Whether two polygons hold the same, but for `used_plane`.
    pub open spec fn same_shape(self, other: BSPPolygon) -> bool {
        &&& self.vertices@ == other.vertices@
        &&& self.indices@ == other.indices@
        &&& self.plane == other.plane
        &&& self.plane_id == other.plane_id
        &&& self.id == other.id
        &&& self.inverted_plane == other.inverted_plane
        &&& self.area_calc == other.area_calc
    }

    /// A copy of the polygon with `used_plane` set as given.
    pub fn copy_with_used(&self, used_plane: bool) -> (r: BSPPolygon)
        ensures
            r.same_shape(*self),
            r.used_plane == used_plane,
    {
        let mut vertices: Vec<Point3F> = Vec::new();
        append_copy(&mut vertices, &self.vertices);
        let mut indices: Vec<usize> = Vec::new();
        append_copy(&mut indices, &self.indices);
        assert(vertices@ =~= self.vertices@);
        assert(indices@ =~= self.indices@);
        BSPPolygon {
            vertices,
            indices,
            plane: self.plane,
            plane_id: self.plane_id,
            id: self.id,
            used_plane,
            inverted_plane: self.inverted_plane,
            area_calc: self.area_calc,
        }
    }
}

/// A node of a BSP tree. A node without a plane is a leaf.
#[derive(Debug)]
pub struct DIFBSPNode {
    pub brush_list: Vec<BSPPolygon>,
    pub front: Option<Box<DIFBSPNode>>,
    pub back: Option<Box<DIFBSPNode>>,
    pub plane_index: Option<usize>,
    pub solid: bool,
    pub avail_planes: Vec<usize>,
}

/// The greater of two numbers.
pub open spec fn greater(a: int, b: int) -> int {
    if a >= b {
        a
    } else {
        b
    }
}

impl DIFBSPNode {
    /// The height of the tree below and with this node; a node without
    /// children has height 1.
    pub open spec fn spec_height(self) -> int
        decreases self,
    {
        1 + greater(
            match self.front {
                Some(n) => n.spec_height(),
                None => 0,
            },
            match self.back {
                Some(n) => n.spec_height(),
                None => 0,
            },
        )
    }

    /// How much higher the front of the tree is than its back.
    pub open spec fn spec_balance_factor(self) -> int {
        (match self.front {
            Some(n) => n.spec_height(),
            None => 0,
        }) - (match self.back {
            Some(n) => n.spec_height(),
            None => 0,
        })
    }

    /// A leaf that holds the polygons, with the planes of its polygons as
    /// planes to split by, each once.
    pub fn from_brushes(brush_list: Vec<BSPPolygon>) -> (r: DIFBSPNode)
        ensures
            r.brush_list == brush_list,
            r.front is None,
            r.back is None,
            r.plane_index is None,
            !r.solid,
            r.avail_planes@ == distinct_planes(brush_list@, false, brush_list@.len()),
    {
        let avail_planes = planes_of(&brush_list, false);
        DIFBSPNode {
            front: None,
            back: None,
            plane_index: None,
            avail_planes,
            brush_list,
            solid: false,
        }
    }

    /// The height of the tree, which stops at `i32::MAX`.
    pub fn height(&self) -> (r: i32)
        ensures
            r == (if self.spec_height() > i32::MAX {
                i32::MAX as int
            } else {
                self.spec_height()
            }),
            r >= 1,
        decreases self,
    {
        let mut value: i32 = 0;
        if let Some(front) = &self.front {
            let h = front.height();
            if h > value {
                value = h;
            }
        }
        if let Some(back) = &self.back {
            let h = back.height();
            if h > value {
                value = h;
            }
        }
        if value == i32::MAX {
            value
        } else {
            value + 1
        }
    }

    /// The height of a child, which stops at `i32::MAX`; 0 where there
    /// is no child.
    pub open spec fn stopped_height(child: Option<Box<DIFBSPNode>>) -> int {
        match child {
            Some(n) => if n.spec_height() > i32::MAX {
                i32::MAX as int
            } else {
                n.spec_height()
            },
            None => 0,
        }
    }

    /// How much higher the front of the tree is than its back, with each
    /// height stopping at `i32::MAX`.
    pub fn balance_factor(&self) -> (r: i32)
        ensures
            r == Self::stopped_height(self.front) - Self::stopped_height(self.back),
            self.spec_height() <= i32::MAX ==> r == self.spec_balance_factor(),
    {
        let mut value: i32 = 0;
        if let Some(front) = &self.front {
            value = value + front.height();
        }
        if let Some(back) = &self.back {
            value = value - back.height();
        }
        value
    }
}

/// Every tree is at least as high as its root.
pub proof fn lemma_height_positive(node: DIFBSPNode)
    ensures
        node.spec_height() >= 1,
    decreases node,
{
    match node.front {
        Some(n) => {
            lemma_height_positive(*n);
        },
        None => {},
    }
    match node.back {
        Some(n) => {
            lemma_height_positive(*n);
        },
        None => {},
    }
}

/// `s` with `x` added at the end, unless it is there.
pub open spec fn add_plane_once(s: Seq<usize>, x: usize) -> Seq<usize> {
    if s.contains(x) {
        s
    } else {
        s.push(x)
    }
}

/// The planes of the first `n` polygons, each once, in the order in which
/// they are first met. With `unused_only` only polygons count whose plane
/// was not used yet.
pub open spec fn distinct_planes(brushes: Seq<BSPPolygon>, unused_only: bool, n: nat) -> Seq<usize>
    decreases n,
{
    if n == 0 {
        Seq::empty()
    } else {
        let rest = distinct_planes(brushes, unused_only, (n - 1) as nat);
        if unused_only && brushes[n - 1].used_plane {
            rest
        } else {
            add_plane_once(rest, brushes[n - 1].plane_id)
        }
    }
}

fn list_has(v: &Vec<usize>, x: usize) -> (b: bool)
    ensures
        b == v@.contains(x),
{
    let mut i: usize = 0;
    while i < v.len()
        invariant
            i <= v.len(),
            forall|j: int| 0 <= j < i ==> v@[j] != x,
        decreases v.len() - i,
    {
        if v[i] == x {
            return true;
        }
        i = i + 1;
    }
    false
}

/// The planes of the polygons, each once, in the order in which they are
/// first met.
pub fn planes_of(brushes: &Vec<BSPPolygon>, unused_only: bool) -> (r: Vec<usize>)
    ensures
        r@ == distinct_planes(brushes@, unused_only, brushes@.len()),
{
    let mut r: Vec<usize> = Vec::new();
    let mut i: usize = 0;
    while i < brushes.len()
        invariant
            i <= brushes.len(),
            r@ == distinct_planes(brushes@, unused_only, i as nat),
        decreases brushes.len() - i,
    {
        if !(unused_only && brushes[i].used_plane) {
            if !list_has(&r, brushes[i].plane_id) {
                r.push(brushes[i].plane_id);
            }
        }
        i = i + 1;
    }
    r
}

/// Whether a node has to be split: it is a leaf, and the plane of one of
/// its polygons was not used yet.
pub fn needs_split(node: &DIFBSPNode) -> (b: bool)
    ensures
        b == (node.plane_index is None && exists|i: int|
            0 <= i < node.brush_list@.len() && !(#[trigger] node.brush_list@[i]).used_plane),
{
    if node.plane_index.is_some() {
        return false;
    }
    let mut i: usize = 0;
    while i < node.brush_list.len()
        invariant
            i <= node.brush_list.len(),
            node.plane_index is None,
            forall|j: int| 0 <= j < i ==> (#[trigger] node.brush_list@[j]).used_plane,
        decreases node.brush_list.len() - i,
    {
        if !node.brush_list[i].used_plane {
            assert(!node.brush_list@[i as int].used_plane);
            return true;
        }
        i = i + 1;
    }
    false
}

/// Whether `chosen` holds the planes that stand at the places `from`,
/// and no place is named twice.
pub open spec fn chosen_from(planes: Seq<usize>, chosen: Seq<usize>, from: Seq<int>) -> bool {
    &&& from.len() == chosen.len()
    &&& forall|k: int|
        0 <= k < chosen.len() ==> 0 <= #[trigger] from[k] < planes.len() && chosen[k]
            == planes[from[k]]
    &&& forall|k: int, m: int| 0 <= k < m < chosen.len() ==> from[k] != from[m]
}

/// `rand::seq::SliceRandom::choose_multiple` on the planes, with a
/// `rand::rngs::StdRng` made by `rand::SeedableRng::seed_from_u64`: as
/// many of the planes as asked for, or all where there are fewer, each
/// taken from a place of its own. Which ones, and in which order, the
/// random numbers decide.
#[verifier::external_body]
fn choose_multiple(planes: &Vec<usize>, seed: u64, amount: usize) -> (r: Vec<usize>)
    ensures
        r@.len() == (if amount < planes@.len() {
            amount as int
        } else {
            planes@.len() as int
        }),
        exists|from: Seq<int>| #[trigger] chosen_from(planes@, r@, from),
{
    let mut rng: rand::rngs::StdRng = rand::SeedableRng::seed_from_u64(seed);
    rand::seq::SliceRandom::choose_multiple(planes.as_slice(), &mut rng, amount).copied().collect()
}

/// As many places as there are, none of them twice, are all the places.
pub proof fn lemma_all_places(from: Seq<int>, n: int, p: int)
    requires
        from.len() == n,
        forall|k: int| 0 <= k < n ==> 0 <= #[trigger] from[k] < n,
        forall|k: int, m: int| 0 <= k < m < n ==> from[k] != from[m],
        0 <= p < n,
    ensures
        from.contains(p),
{
    let all = set_int_range(0, n);
    lemma_int_range(0, n);
    assert(from.no_duplicates());
    from.unique_seq_to_set();
    assert forall|x: int| from.to_set().contains(x) implies all.contains(x) by {
        let k = choose|k: int| 0 <= k < from.len() && from[k] == x;
        assert(0 <= from[k] < n);
    }
    lemma_subset_equality(from.to_set(), all);
    assert(all.contains(p));
}

/// The planes that the fast method tries for a node: up to 32 of the
/// planes of its polygons that were not used yet, picked by random
/// numbers that always start from the same seed. Where there are no more
/// than 32 such planes, all of them are tried.
pub fn fast_candidates(node: &DIFBSPNode) -> (r: Vec<usize>)
    ensures
        ({
            let planes = distinct_planes(node.brush_list@, true, node.brush_list@.len());
            &&& r@.len() == (if planes.len() < SPLITTER_TRIES {
                planes.len() as int
            } else {
                SPLITTER_TRIES as int
            })
            &&& forall|k: int| 0 <= k < r@.len() ==> planes.contains(#[trigger] r@[k])
            &&& planes.len() <= SPLITTER_TRIES ==> forall|p: int|
                0 <= p < planes.len() ==> r@.contains(#[trigger] planes[p])
        }),
{
    let planes = planes_of(&node.brush_list, true);
    let r = choose_multiple(&planes, SPLITTER_SEED, SPLITTER_TRIES);
    proof {
        let from = choose|from: Seq<int>| #[trigger] chosen_from(planes@, r@, from);
        assert forall|k: int| 0 <= k < r@.len() implies planes@.contains(#[trigger] r@[k]) by {
            assert(planes@[from[k]] == r@[k]);
        }
        if planes@.len() <= SPLITTER_TRIES {
            assert forall|p: int| 0 <= p < planes@.len() implies r@.contains(#[trigger] planes@[p]) by {
                lemma_all_places(from, planes@.len() as int, p);
                let k = choose|k: int| 0 <= k < from.len() && from[k] == p;
                assert(r@[k] == planes@[p]);
            }
        }
    }
    r
}

/// Whether a plane is the best of the planes that were tried: it has the
/// greatest score, and of those with the same score the least index.
pub open spec fn is_best(candidates: Seq<usize>, scores: Seq<i32>, plane: usize) -> bool {
    exists|w: int|
        0 <= w < candidates.len() && #[trigger] candidates[w] == plane && forall|i: int|
            0 <= i < candidates.len() ==> #[trigger] scores[i] < scores[w] || (scores[i] == scores[w]
                && plane <= candidates[i])
}

/// Which plane is the best does not depend on which planes were tried
/// first: where the same planes were tried in another order, and each
/// plane has its score, the best plane is the same. So the plane that
/// splits a node with no more than 32 planes to try does not depend on
/// the random numbers.
pub proof fn lemma_best_is_fixed(
    first: Seq<usize>,
    first_scores: Seq<i32>,
    second: Seq<usize>,
    second_scores: Seq<i32>,
    score: spec_fn(usize) -> i32,
    a: usize,
    b: usize,
)
    requires
        first.len() == first_scores.len(),
        second.len() == second_scores.len(),
        forall|i: int| 0 <= i < first.len() ==> #[trigger] first_scores[i] == score(first[i]),
        forall|i: int| 0 <= i < second.len() ==> #[trigger] second_scores[i] == score(second[i]),
        forall|i: int| 0 <= i < first.len() ==> second.contains(#[trigger] first[i]),
        forall|i: int| 0 <= i < second.len() ==> first.contains(#[trigger] second[i]),
        is_best(first, first_scores, a),
        is_best(second, second_scores, b),
    ensures
        a == b,
{
    let w = choose|w: int|
        0 <= w < first.len() && #[trigger] first[w] == a && forall|i: int|
            0 <= i < first.len() ==> #[trigger] first_scores[i] < first_scores[w] || (first_scores[i]
                == first_scores[w] && a <= first[i]);
    let u = choose|u: int|
        0 <= u < second.len() && #[trigger] second[u] == b && forall|i: int|
            0 <= i < second.len() ==> #[trigger] second_scores[i] < second_scores[u] || (
            second_scores[i] == second_scores[u] && b <= second[i]);
    assert(first.contains(second[u]));
    let i = choose|i: int| 0 <= i < first.len() && first[i] == b;
    assert(second.contains(first[w]));
    let j = choose|j: int| 0 <= j < second.len() && second[j] == a;
    assert(first_scores[i] == score(b) && first_scores[w] == score(a));
    assert(second_scores[j] == score(a) && second_scores[u] == score(b));
}

/// The best of the planes that were tried: the one with the greatest
/// score, and of those with the same score the one with the least index.
/// There is none where no plane was tried, or the planes and the scores
/// are not as many.
pub fn best_splitter(candidates: &Vec<usize>, scores: &Vec<i32>) -> (r: Option<usize>)
    ensures
        match r {
            None => candidates@.len() == 0 || candidates@.len() != scores@.len(),
            Some(plane) => candidates@.len() == scores@.len() && is_best(
                candidates@,
                scores@,
                plane,
            ),
        },
{
    if candidates.len() == 0 || candidates.len() != scores.len() {
        return None;
    }
    let mut best: usize = 0;
    let mut i: usize = 1;
    while i < candidates.len()
        invariant
            1 <= i <= candidates.len(),
            candidates@.len() == scores@.len(),
            best < i,
            forall|a: int|
                0 <= a < i ==> scores@[a] < scores@[best as int] || (scores@[a] == scores@[best as int]
                    && candidates@[best as int] <= candidates@[a]),
        decreases candidates.len() - i,
    {
        if scores[i] > scores[best] || (scores[i] == scores[best] && candidates[i]
            < candidates[best]) {
            best = i;
        }
        i = i + 1;
    }
    Some(candidates[best])
}

/// How many polygons lie in front of a plane, behind it, or are cut by
/// it, how often the plane is the plane of a polygon, and how many
/// polygons are thin slivers on it.
#[derive(Clone, Copy, Debug, PartialEq, Eq)]
pub struct SplitRating {
    pub front: i32,
    pub back: i32,
    pub splits: i32,
    pub coplanar: i32,
    pub tiny_windings: i32,
}

/// The sum of the ratings of the first `n` polygons against the plane
/// `plane_id`. The first polygon that lies in the plane counts as on it:
/// in front where its plane is not turned round, behind where it is. Each
/// other polygon counts with the rating that the caller has found for it.
/// A sum that does not fit stops at the ends of the numbers.
pub open spec fn rating_sum(
    brushes: Seq<BSPPolygon>,
    plane_id: usize,
    found: Seq<SplitRating>,
    n: nat,
) -> (SplitRating, bool)
    decreases n,
{
    if n == 0 {
        (SplitRating { front: 0, back: 0, splits: 0, coplanar: 0, tiny_windings: 0 }, false)
    } else {
        let (sum, seen) = rating_sum(brushes, plane_id, found, (n - 1) as nat);
        let b = brushes[n - 1];
        let one = if !seen && b.plane_id == plane_id {
            if b.inverted_plane {
                SplitRating { front: 0, back: 1, splits: 0, coplanar: 1, tiny_windings: 0 }
            } else {
                SplitRating { front: 1, back: 0, splits: 0, coplanar: 1, tiny_windings: 0 }
            }
        } else {
            found[n - 1]
        };
        (
            SplitRating {
                front: clip(sum.front + one.front),
                back: clip(sum.back + one.back),
                splits: clip(sum.splits + one.splits),
                coplanar: clip(sum.coplanar + one.coplanar),
                tiny_windings: clip(sum.tiny_windings + one.tiny_windings),
            },
            seen || b.plane_id == plane_id,
        )
    }
}

/// The number, or the end of the 32-bit numbers that it lies beyond.
pub open spec fn clip(x: int) -> i32 {
    if x > i32::MAX {
        i32::MAX
    } else if x < i32::MIN {
        i32::MIN
    } else {
        x as i32
    }
}

/// The sum of two numbers, which stops at the ends of the 32-bit numbers.
pub fn add_clipped(a: i32, b: i32) -> (r: i32)
    ensures
        r == clip(a + b),
{
    let wide: i64 = a as i64 + b as i64;
    if wide > 0x7FFF_FFFF {
        0x7FFF_FFFF
    } else if wide < -0x8000_0000 {
        -0x8000_0000
    } else {
        wide as i32
    }
}

/// The sum of the ratings of the polygons of a node against a plane.
/// `found` holds for each polygon what it counts where it does not lie in
/// the plane; with more or fewer ratings than polygons there is no sum.
pub fn rate_plane(brushes: &Vec<BSPPolygon>, plane_id: usize, found: &Vec<SplitRating>) -> (r: Result<
    SplitRating,
    BuildError,
>)
    ensures
        match r {
            Ok(sum) => found@.len() == brushes@.len() && sum == rating_sum(
                brushes@,
                plane_id,
                found@,
                brushes@.len(),
            ).0,
            Err(e) => e == BuildError::BrokenTable && found@.len() != brushes@.len(),
        },
{
    if found.len() != brushes.len() {
        return Err(BuildError::BrokenTable);
    }
    let mut sum = SplitRating { front: 0, back: 0, splits: 0, coplanar: 0, tiny_windings: 0 };
    let mut seen = false;
    let mut i: usize = 0;
    while i < brushes.len()
        invariant
            i <= brushes.len(),
            found@.len() == brushes@.len(),
            (sum, seen) == rating_sum(brushes@, plane_id, found@, i as nat),
        decreases brushes.len() - i,
    {
        let b = &brushes[i];
        let one = if !seen && b.plane_id == plane_id {
            if b.inverted_plane {
                SplitRating { front: 0, back: 1, splits: 0, coplanar: 1, tiny_windings: 0 }
            } else {
                SplitRating { front: 1, back: 0, splits: 0, coplanar: 1, tiny_windings: 0 }
            }
        } else {
            found[i]
        };
        sum = SplitRating {
            front: add_clipped(sum.front, one.front),
            back: add_clipped(sum.back, one.back),
            splits: add_clipped(sum.splits, one.splits),
            coplanar: add_clipped(sum.coplanar, one.coplanar),
            tiny_windings: add_clipped(sum.tiny_windings, one.tiny_windings),
        };
        seen = seen || b.plane_id == plane_id;
        i = i + 1;
    }
    Ok(sum)
}

/// Where a polygon lies to a plane.
#[derive(Debug)]
pub enum BrushSide {
    /// Wholly in front.
    Front,
    /// Wholly behind.
    Back,
    /// On the plane.
    On,
    /// On both sides: the piece in front and the piece behind.
    Spanning(BSPPolygon, BSPPolygon),
}

/// Where a polygon goes when its node is split by the plane `split`.
#[derive(Clone, Copy, Debug, PartialEq, Eq, Structural)]
pub enum Goes {
    /// To the front child, as it is.
    Front,
    /// To the back child, as it is.
    Back,
    /// To the back child, with its plane counted as used.
    BackUsed,
    /// The pieces with more than two corners go to their children.
    Pieces,
}

/// Where a polygon goes: one that lies in the plane that splits, or on
/// it, goes behind it and counts as used.
pub open spec fn goes(b: BSPPolygon, side: BrushSide, split: usize) -> Goes {
    if b.plane_id == split {
        Goes::BackUsed
    } else {
        match side {
            BrushSide::Front => Goes::Front,
            BrushSide::Back => Goes::Back,
            BrushSide::On => Goes::BackUsed,
            BrushSide::Spanning(_, _) => Goes::Pieces,
        }
    }
}

/// Whether the polygon `made` is what polygon `b` with side `side` gives
/// to the front child.
pub open spec fn front_of(b: BSPPolygon, side: BrushSide, split: usize, made: BSPPolygon) -> bool {
    match goes(b, side, split) {
        Goes::Front => made.same_shape(b) && made.used_plane == b.used_plane,
        Goes::Pieces => match side {
            BrushSide::Spanning(front, _) => front.indices@.len() > 2 && made.same_shape(front)
                && made.used_plane == (front.used_plane || front.plane_id == split),
            _ => false,
        },
        _ => false,
    }
}

/// Whether the polygon `made` is what polygon `b` with side `side` gives
/// to the back child.
pub open spec fn back_of(b: BSPPolygon, side: BrushSide, split: usize, made: BSPPolygon) -> bool {
    match goes(b, side, split) {
        Goes::Back => made.same_shape(b) && made.used_plane == b.used_plane,
        Goes::BackUsed => made.same_shape(b) && made.used_plane,
        Goes::Pieces => match side {
            BrushSide::Spanning(_, back) => back.indices@.len() > 2 && made.same_shape(back)
                && made.used_plane == (back.used_plane || back.plane_id == split),
            _ => false,
        },
        _ => false,
    }
}

/// Whether the lists are what a node gives to its children: each polygon
/// of `front` and of `back` is made of the polygon at its place in
/// `front_from` and `back_from`, these places rise, and each polygon of
/// the node is in the lists where it goes.
pub open spec fn parted(
    brushes: Seq<BSPPolygon>,
    sides: Seq<BrushSide>,
    split: usize,
    front: Seq<BSPPolygon>,
    front_from: Seq<usize>,
    back: Seq<BSPPolygon>,
    back_from: Seq<usize>,
) -> bool {
    &&& front.len() == front_from.len()
    &&& back.len() == back_from.len()
    &&& forall|k: int|
        0 <= k < front.len() ==> (#[trigger] front_from[k]) < brushes.len() && front_of(
            brushes[front_from[k] as int],
            sides[front_from[k] as int],
            split,
            front[k],
        )
    &&& forall|k: int|
        0 <= k < back.len() ==> (#[trigger] back_from[k]) < brushes.len() && back_of(
            brushes[back_from[k] as int],
            sides[back_from[k] as int],
            split,
            back[k],
        )
    &&& forall|k: int, m: int| 0 <= k < m < front_from.len() ==> front_from[k] < front_from[m]
    &&& forall|k: int, m: int| 0 <= k < m < back_from.len() ==> back_from[k] < back_from[m]
    &&& forall|i: int|
        0 <= i < brushes.len() ==> (back_from.contains(i as usize) <==> (match goes(
            #[trigger] brushes[i],
            sides[i],
            split,
        ) {
            Goes::Back => true,
            Goes::BackUsed => true,
            Goes::Pieces => match sides[i] {
                BrushSide::Spanning(_, back) => back.indices@.len() > 2,
                _ => false,
            },
            Goes::Front => false,
        }))
    &&& forall|i: int|
        0 <= i < brushes.len() ==> (front_from.contains(i as usize) <==> (match goes(
            #[trigger] brushes[i],
            sides[i],
            split,
        ) {
            Goes::Front => true,
            Goes::Pieces => match sides[i] {
                BrushSide::Spanning(front, _) => front.indices@.len() > 2,
                _ => false,
            },
            _ => false,
        }))
}

/// The polygons of a node that is split by the plane `split`, for its
/// front child and for its back child. `sides` says for each polygon where
/// it lies to the plane. With each list comes, for each polygon in it,
/// the place of the polygon that it was made of. With more or fewer sides
/// than polygons nothing is made.
pub fn partition_brushes(brushes: &Vec<BSPPolygon>, sides: &Vec<BrushSide>, split: usize) -> (r: Result<
    (Vec<BSPPolygon>, Vec<usize>, Vec<BSPPolygon>, Vec<usize>),
    BuildError,
>)
    ensures
        match r {
            Err(e) => e == BuildError::BrokenTable && sides@.len() != brushes@.len(),
            Ok(made) => sides@.len() == brushes@.len() && parted(
                brushes@,
                sides@,
                split,
                made.0@,
                made.1@,
                made.2@,
                made.3@,
            ),
        },
{
    if sides.len() != brushes.len() {
        return Err(BuildError::BrokenTable);
    }
    Ok(partition(brushes, sides, split))
}

/// The polygons for the front child and for the back child.
fn partition(brushes: &Vec<BSPPolygon>, sides: &Vec<BrushSide>, split: usize) -> (r: (
    Vec<BSPPolygon>,
    Vec<usize>,
    Vec<BSPPolygon>,
    Vec<usize>,
))
    requires
        sides@.len() == brushes@.len(),
    ensures
        parted(brushes@, sides@, split, r.0@, r.1@, r.2@, r.3@),
{
    let mut front: Vec<BSPPolygon> = Vec::new();
    let mut front_from: Vec<usize> = Vec::new();
    let mut back: Vec<BSPPolygon> = Vec::new();
    let mut back_from: Vec<usize> = Vec::new();
    let mut i: usize = 0;
    while i < brushes.len()
        invariant
            i <= brushes.len(),
            sides@.len() == brushes@.len(),
            front@.len() == front_from@.len(),
            back@.len() == back_from@.len(),
            forall|k: int|
                0 <= k < front@.len() ==> (#[trigger] front_from@[k]) < i && front_of(
                    brushes@[front_from@[k] as int],
                    sides@[front_from@[k] as int],
                    split,
                    front@[k],
                ),
            forall|k: int|
                0 <= k < back@.len() ==> (#[trigger] back_from@[k]) < i && back_of(
                    brushes@[back_from@[k] as int],
                    sides@[back_from@[k] as int],
                    split,
                    back@[k],
                ),
            forall|k: int, m: int| 0 <= k < m < front_from@.len() ==> front_from@[k] < front_from@[m],
            forall|k: int, m: int| 0 <= k < m < back_from@.len() ==> back_from@[k] < back_from@[m],
            forall|a: int|
                0 <= a < i ==> (back_from@.contains(a as usize) <==> (match goes(
                    #[trigger] brushes@[a],
                    sides@[a],
                    split,
                ) {
                    Goes::Back => true,
                    Goes::BackUsed => true,
                    Goes::Pieces => match sides@[a] {
                        BrushSide::Spanning(_, back) => back.indices@.len() > 2,
                        _ => false,
                    },
                    Goes::Front => false,
                })),
            forall|a: int|
                0 <= a < i ==> (front_from@.contains(a as usize) <==> (match goes(
                    #[trigger] brushes@[a],
                    sides@[a],
                    split,
                ) {
                    Goes::Front => true,
                    Goes::Pieces => match sides@[a] {
                        BrushSide::Spanning(front, _) => front.indices@.len() > 2,
                        _ => false,
                    },
                    _ => false,
                })),
        decreases brushes.len() - i,
    {
        let b = &brushes[i];
        let ghost old_front = front_from@;
        let ghost old_back = back_from@;
        if b.plane_id == split {
            back.push(b.copy_with_used(true));
            back_from.push(i);
        } else {
            match &sides[i] {
                BrushSide::Front => {
                    front.push(b.copy_with_used(b.used_plane));
                    front_from.push(i);
                },
                BrushSide::Back => {
                    back.push(b.copy_with_used(b.used_plane));
                    back_from.push(i);
                },
                BrushSide::On => {
                    back.push(b.copy_with_used(true));
                    back_from.push(i);
                },
                BrushSide::Spanning(front_piece, back_piece) => {
                    if front_piece.indices.len() > 2 {
                        front.push(
                            front_piece.copy_with_used(
                                front_piece.used_plane || front_piece.plane_id == split,
                            ),
                        );
                        front_from.push(i);
                    }
                    if back_piece.indices.len() > 2 {
                        back.push(
                            back_piece.copy_with_used(
                                back_piece.used_plane || back_piece.plane_id == split,
                            ),
                        );
                        back_from.push(i);
                    }
                },
            }
        }
        proof {
            assert forall|a: int| 0 <= a < i + 1 implies (back_from@.contains(a as usize) <==> (
            match goes(#[trigger] brushes@[a], sides@[a], split) {
                Goes::Back => true,
                Goes::BackUsed => true,
                Goes::Pieces => match sides@[a] {
                    BrushSide::Spanning(_, back) => back.indices@.len() > 2,
                    _ => false,
                },
                Goes::Front => false,
            })) by {
                lemma_pushed_contains(old_back, back_from@, a as usize, i);
            }
            assert forall|a: int| 0 <= a < i + 1 implies (front_from@.contains(a as usize) <==> (
            match goes(#[trigger] brushes@[a], sides@[a], split) {
                Goes::Front => true,
                Goes::Pieces => match sides@[a] {
                    BrushSide::Spanning(front, _) => front.indices@.len() > 2,
                    _ => false,
                },
                _ => false,
            })) by {
                lemma_pushed_contains(old_front, front_from@, a as usize, i);
            }
        }
        i = i + 1;
    }
    (front, front_from, back, back_from)
}

/// What a list holds after one number was or was not added at its end.
pub proof fn lemma_pushed_contains(before: Seq<usize>, after: Seq<usize>, a: usize, i: usize)
    requires
        after == before || after == before.push(i),
        forall|k: int| 0 <= k < before.len() ==> before[k] < i,
    ensures
        a < i ==> (after.contains(a) <==> before.contains(a)),
        a == i ==> (after.contains(a) <==> after == before.push(i)),
{
    if after == before.push(i) {
        assert(after[before.len() as int] == i);
        if before.contains(a) {
            let w = choose|w: int| 0 <= w < before.len() && before[w] == a;
            assert(after[w] == a);
        }
        if after.contains(a) && a < i {
            let w = choose|w: int| 0 <= w < after.len() && after[w] == a;
            assert(before[w] == a);
        }
    } else {
        if after.contains(a) {
            let w = choose|w: int| 0 <= w < after.len() && after[w] == a;
        }
    }
}

/// Whether `child` is the leaf that a node makes of the polygons for one
/// of its sides when it is split by the plane `split`: it holds the
/// polygons, each counted as used where it was or where it lies in the
/// plane that splits, and the planes that are still to be used, each
/// once.
pub open spec fn child_of(brushes: Seq<BSPPolygon>, split: usize, child: DIFBSPNode) -> bool {
    &&& child.brush_list@.len() == brushes.len()
    &&& forall|i: int|
        0 <= i < brushes.len() ==> (#[trigger] child.brush_list@[i]).same_shape(brushes[i])
            && child.brush_list@[i].used_plane == (brushes[i].used_plane || brushes[i].plane_id
            == split)
    &&& child.front is None
    &&& child.back is None
    &&& child.plane_index is None
    &&& !child.solid
    &&& child.avail_planes@ == distinct_planes(child.brush_list@, true, child.brush_list@.len())
}

/// Whether a side of a node has the child that the polygons for that side
/// make: none where there is no polygon.
pub open spec fn side_made(brushes: Seq<BSPPolygon>, split: usize, side: Option<Box<DIFBSPNode>>) -> bool {
    match side {
        Some(child) => brushes.len() > 0 && child_of(brushes, split, *child),
        None => brushes.len() == 0,
    }
}

/// The leaf that a node makes of the polygons for one of its sides.
fn child_node(brushes: &Vec<BSPPolygon>, split: usize) -> (child: DIFBSPNode)
    ensures
        child_of(brushes@, split, child),
{
    let mut marked: Vec<BSPPolygon> = Vec::new();
    let mut i: usize = 0;
    while i < brushes.len()
        invariant
            i <= brushes.len(),
            marked@.len() == i,
            forall|k: int|
                0 <= k < i ==> (#[trigger] marked@[k]).same_shape(brushes@[k]) && marked@[k].used_plane
                    == (brushes@[k].used_plane || brushes@[k].plane_id == split),
        decreases brushes.len() - i,
    {
        let b = &brushes[i];
        marked.push(b.copy_with_used(b.used_plane || b.plane_id == split));
        i = i + 1;
    }
    let avail_planes = planes_of(&marked, true);
    DIFBSPNode {
        brush_list: marked,
        front: None,
        back: None,
        plane_index: None,
        solid: false,
        avail_planes,
    }
}

/// Splits a node by the plane `split`: the node gets the plane and gives
/// up its polygons and its planes to try, and each side that has polygons
/// gets a leaf with them; a side without polygons gets no child.
pub fn split_into(node: &mut DIFBSPNode, split: usize, front: Vec<BSPPolygon>, back: Vec<BSPPolygon>)
    ensures
        final(node).plane_index == Some(split),
        final(node).brush_list@.len() == 0,
        final(node).avail_planes@.len() == 0,
        final(node).solid == old(node).solid,
        final(node).front is Some <==> front@.len() > 0,
        final(node).back is Some <==> back@.len() > 0,
        side_made(front@, split, final(node).front),
        side_made(back@, split, final(node).back),
{
    node.plane_index = Some(split);
    node.brush_list = Vec::new();
    node.avail_planes = Vec::new();
    if front.len() > 0 {
        node.front = Some(Box::new(child_node(&front, split)));
    } else {
        node.front = None;
    }
    if back.len() > 0 {
        node.back = Some(Box::new(child_node(&back, split)));
    } else {
        node.back = None;
    }
}

/// Whether a leaf of the tree holds a polygon of triangle `id`.
pub open spec fn tree_has(node: DIFBSPNode, id: usize) -> bool
    decreases node,
{
    match node.plane_index {
        None => exists|i: int| 0 <= i < node.brush_list@.len() && (#[trigger] node.brush_list@[i]).id == id,
        Some(_) => (match node.front {
            Some(n) => tree_has(*n, id),
            None => false,
        }) || (match node.back {
            Some(n) => tree_has(*n, id),
            None => false,
        }),
    }
}

/// Whether the list holds a polygon of triangle `id`.
pub open spec fn holds_triangle(brushes: Seq<BSPPolygon>, id: usize) -> bool {
    exists|i: int| 0 <= i < brushes.len() && (#[trigger] brushes[i]).id == id
}

/// Whether a polygon that is cut leaves a piece: its pieces belong to its
/// triangle, and one of them has more than two corners.
pub open spec fn piece_kept(b: BSPPolygon, side: BrushSide) -> bool {
    match side {
        BrushSide::Spanning(front, back) => front.id == b.id && back.id == b.id && (
        front.indices@.len() > 2 || back.indices@.len() > 2),
        _ => true,
    }
}

/// A node that is split gives each of its polygons to a child: the
/// triangle of polygon `i` has a polygon in the list for the front or in
/// the list for the back, unless the polygon is cut and leaves no piece.
pub proof fn lemma_parted_keeps(
    brushes: Seq<BSPPolygon>,
    sides: Seq<BrushSide>,
    split: usize,
    front: Seq<BSPPolygon>,
    front_from: Seq<usize>,
    back: Seq<BSPPolygon>,
    back_from: Seq<usize>,
    i: usize,
)
    requires
        sides.len() == brushes.len(),
        parted(brushes, sides, split, front, front_from, back, back_from),
        i < brushes.len(),
        brushes[i as int].plane_id == split || piece_kept(brushes[i as int], sides[i as int]),
    ensures
        holds_triangle(front, brushes[i as int].id) || holds_triangle(back, brushes[i as int].id),
{
    let b = brushes[i as int];
    if front_from.contains(i) {
        let k = choose|k: int| 0 <= k < front_from.len() && front_from[k] == i;
        assert(front_of(brushes[front_from[k] as int], sides[front_from[k] as int], split, front[k]));
        assert(front[k].id == b.id);
    } else {
        assert(back_from.contains(i));
        let k = choose|k: int| 0 <= k < back_from.len() && back_from[k] == i;
        assert(back_of(brushes[back_from[k] as int], sides[back_from[k] as int], split, back[k]));
        assert(back[k].id == b.id);
    }
}

/// A node that was split holds in its leaves every triangle that the
/// lists for its sides hold.
pub proof fn lemma_split_has(
    node: DIFBSPNode,
    split: usize,
    front: Seq<BSPPolygon>,
    back: Seq<BSPPolygon>,
    id: usize,
)
    requires
        node.plane_index is Some,
        side_made(front, split, node.front),
        side_made(back, split, node.back),
        holds_triangle(front, id) || holds_triangle(back, id),
    ensures
        tree_has(node, id),
{
    if holds_triangle(front, id) {
        let i = choose|i: int| 0 <= i < front.len() && (#[trigger] front[i]).id == id;
        let child = *node.front->Some_0;
        assert(child.brush_list@[i].same_shape(front[i]));
        assert(tree_has(child, id));
    } else {
        let i = choose|i: int| 0 <= i < back.len() && (#[trigger] back[i]).id == id;
        let child = *node.back->Some_0;
        assert(child.brush_list@[i].same_shape(back[i]));
        assert(tree_has(child, id));
    }
}

/// How a ray stands to a plane.
#[derive(Clone, Copy, Debug, PartialEq, Eq, Structural)]
pub enum RayCase {
    /// Wholly in front, or touching from the front.
    Front,
    /// Wholly behind, or touching from behind.
    Back,
    /// From the front to the back.
    FrontToBack,
    /// From the back to the front.
    BackToFront,
    /// In the plane.
    Within,
}

/// How a ray stands to a plane, from the values of the plane at its start
/// and at its end. Each value counts by its place in the total order
/// against +0: -0 and what is less lies behind.
pub open spec fn spec_ray_case(start: F32, end: F32) -> RayCase {
    let zero = F32 { bits: 0 };
    let s = start.spec_total_order(zero);
    let e = end.spec_total_order(zero);
    if s == Side::Equal && e == Side::Equal {
        RayCase::Within
    } else if s != Side::Less && e != Side::Less {
        RayCase::Front
    } else if s != Side::Greater && e != Side::Greater {
        RayCase::Back
    } else if s == Side::Greater {
        RayCase::FrontToBack
    } else {
        RayCase::BackToFront
    }
}

/// How a ray stands to a plane.
pub fn ray_case(start: F32, end: F32) -> (r: RayCase)
    ensures
        r == spec_ray_case(start, end),
{
    let zero = F32 { bits: 0 };
    let s = start.total_order(zero);
    let e = end.total_order(zero);
    match (s, e) {
        (Side::Equal, Side::Equal) => RayCase::Within,
        (Side::Greater, Side::Greater) | (Side::Greater, Side::Equal) | (
            Side::Equal,
            Side::Greater,
        ) => RayCase::Front,
        (Side::Less, Side::Less) | (Side::Less, Side::Equal) | (Side::Equal, Side::Less) => RayCase::Back,
        (Side::Greater, Side::Less) => RayCase::FrontToBack,
        (Side::Less, Side::Greater) => RayCase::BackToFront,
    }
}

} // verus!
