use vstd::prelude::*;
use crate::builder::{append_copy, BuildError};
use crate::interior::{ConvexHull, Interior, InteriorView, PointIndex, PossiblyNullSurfaceIndex};
use crate::float::{MINUS_TWO_BITS, TWO_BITS};
use crate::types::F32;

verus! {

/// A surface of a hull while its poly list is made: its corners and its
/// plane, and the mask of the group of its plane.
#[derive(Clone, Debug, PartialEq, Eq)]
pub struct TempProcSurface {
    pub num_points: usize,
    pub point_indices: Vec<u32>,
    pub plane_index: u16,
    pub mask: u8,
}

impl TempProcSurface {
    pub fn new() -> (r: Self)
        ensures
            r.num_points == 0,
            r.point_indices@.len() == 0,
            r.plane_index == 0,
            r.mask == 0,
    {
        TempProcSurface { num_points: 0, point_indices: Vec::new(), plane_index: 0, mask: 0 }
    }
}

/// A group of planes of a hull that point about the same way, and the
/// mask that stands for the group.
#[derive(Clone, Debug, PartialEq, Eq)]
pub struct PlaneGrouping {
    pub num_planes: usize,
    pub plane_indices: Vec<u16>,
    pub mask: u8,
}

impl PlaneGrouping {
    pub fn new() -> (r: Self)
        ensures
            r.num_planes == 0,
            r.plane_indices@.len() == 0,
            r.mask == 0,
    {
        PlaneGrouping { num_planes: 0, plane_indices: Vec::new(), mask: 0 }
    }
}

/// The order in which the engine takes the corners of a winding of
/// `count` corners: the odd places upwards, then the even places
/// downwards.
pub open spec fn spec_zigzag(count: nat) -> Seq<u32> {
    Seq::new(
        count,
        |i: int|
            if i < count / 2 {
                (2 * i + 1) as u32
            } else {
                (2 * (count - 1 - i)) as u32
            },
    )
}

/// The order in which the engine takes the corners of a winding.
pub fn zigzag(count: u32) -> (r: Vec<u32>)
    ensures
        r@ == spec_zigzag(count as nat),
{
    let mut r: Vec<u32> = Vec::new();
    let mut j: u64 = 1;
    while j < count as u64
        invariant
            j % 2 == 1,
            j <= count + 1,
            r@.len() == j / 2,
            forall|i: int| 0 <= i < r@.len() ==> r@[i] == 2 * i + 1,
        decreases count + 1 - j,
    {
        r.push(j as u32);
        j = j + 2;
    }
    assert(r@.len() == count / 2);
    if count > 0 {
        let mut e: u32 = if (count - 1) % 2 == 0 {
            count - 1
        } else {
            count - 2
        };
        loop
            invariant_except_break
                e % 2 == 0,
                e < count,
                r@.len() == count - 1 - e / 2,
                count / 2 <= r@.len(),
                forall|i: int| 0 <= i < count / 2 ==> r@[i] == 2 * i + 1,
                forall|i: int| count / 2 <= i < r@.len() ==> r@[i] == 2 * (count - 1 - i),
            ensures
                r@.len() == count,
                forall|i: int| 0 <= i < count / 2 ==> r@[i] == 2 * i + 1,
                forall|i: int| count / 2 <= i < r@.len() ==> r@[i] == 2 * (count - 1 - i),
            decreases e,
        {
            r.push(e);
            if e == 0 {
                break;
            }
            e = e - 2;
        }
    }
    assert(r@ =~= spec_zigzag(count as nat));
    r
}

/// `s` with `x` added at the end, unless it is there.
pub open spec fn add_once<T>(s: Seq<T>, x: T) -> Seq<T> {
    if s.contains(x) {
        s
    } else {
        s.push(x)
    }
}

/// Whether no item occurs twice.
pub open spec fn distinct<T>(s: Seq<T>) -> bool {
    forall|i: int, j: int| 0 <= i < j < s.len() ==> s[i] != s[j]
}

/// The first place of `x` in `s`, where it is there.
pub open spec fn place_of<T>(s: Seq<T>, x: T) -> int {
    choose|i: int| 0 <= i < s.len() && s[i] == x && forall|j: int| 0 <= j < i ==> s[j] != x
}

/// The first place of an item is its place.
pub proof fn lemma_place_of<T>(s: Seq<T>, x: T, i: int)
    requires
        0 <= i < s.len(),
        s[i] == x,
        forall|j: int| 0 <= j < i ==> s[j] != x,
    ensures
        place_of(s, x) == i,
{
    let p = place_of(s, x);
    assert(0 <= p < s.len() && s[p] == x && forall|j: int| 0 <= j < p ==> s[j] != x);
    if p < i {
        assert(s[p] != x);
    }
    if i < p {
        assert(s[i] != x);
    }
}

/// The place of `x` in `v`, if it is there.
pub fn find_u16(v: &Vec<u16>, x: u16) -> (r: Option<usize>)
    ensures
        match r {
            Some(i) => i < v@.len() && v@[i as int] == x && i == place_of(v@, x),
            None => !v@.contains(x),
        },
{
    let mut i: usize = 0;
    while i < v.len()
        invariant
            i <= v.len(),
            forall|j: int| 0 <= j < i ==> v@[j] != x,
        decreases v.len() - i,
    {
        if v[i] == x {
            proof {
                lemma_place_of(v@, x, i as int);
            }
            return Some(i);
        }
        i = i + 1;
    }
    None
}

/// The place of `x` in `v`, if it is there.
pub fn find_u32(v: &Vec<u32>, x: u32) -> (r: Option<usize>)
    ensures
        match r {
            Some(i) => i < v@.len() && v@[i as int] == x && i == place_of(v@, x),
            None => !v@.contains(x),
        },
{
    let mut i: usize = 0;
    while i < v.len()
        invariant
            i <= v.len(),
            forall|j: int| 0 <= j < i ==> v@[j] != x,
        decreases v.len() - i,
    {
        if v[i] == x {
            proof {
                lemma_place_of(v@, x, i as int);
            }
            return Some(i);
        }
        i = i + 1;
    }
    None
}

/// A surface of a hull as the collision code takes it: its plane, and its
/// corners as points of the interior.
pub ghost struct HullSurface {
    pub plane: u16,
    pub corners: Seq<u32>,
}

impl View for TempProcSurface {
    type V = HullSurface;

    open spec fn view(&self) -> HullSurface {
        HullSurface { plane: self.plane_index, corners: self.point_indices@ }
    }
}

/// Each surface as the collision code takes it.
pub open spec fn surfaces_view(surfaces: Seq<TempProcSurface>) -> Seq<HullSurface> {
    Seq::new(surfaces.len(), |i: int| surfaces[i]@)
}

/// The points at `n` places of the winding table in a row, from `start`
/// on; none where the row runs beyond the table.
pub open spec fn run_corners(indices: Seq<PointIndex>, start: int, n: nat) -> Option<Seq<u32>> {
    if n == 0 || start + n <= indices.len() {
        Some(Seq::new(n, |j: int| indices[start + j].value()))
    } else {
        None
    }
}

/// The corners of a drawn surface with a winding of `count` places from
/// `start` on, as far as the first `n` places of the zig-zag order give
/// them: a place counts where its bit is set in the fan mask. None where
/// a place that counts lies beyond the table.
pub open spec fn fan_corners(indices: Seq<PointIndex>, start: int, count: nat, fan_mask: u32, n: nat) -> Option<
    Seq<u32>,
>
    decreases n,
{
    if n == 0 {
        Some(Seq::empty())
    } else {
        match fan_corners(indices, start, count, fan_mask, (n - 1) as nat) {
            None => None,
            Some(rest) => if fan_mask & (1u32 << ((n - 1) as u32)) > 0 {
                let place = start + spec_zigzag(count)[n - 1];
                if place < indices.len() {
                    Some(rest.push(indices[place].value()))
                } else {
                    None
                }
            } else {
                Some(rest)
            },
        }
    }
}

/// The surface that an entry of the table of hull surfaces names. None
/// where the entry or the surface refers outside a table, or a drawn
/// surface has a winding of more than 32 places.
pub open spec fn spec_hull_surface(x: InteriorView, at: PossiblyNullSurfaceIndex) -> Option<HullSurface> {
    match at {
        PossiblyNullSurfaceIndex::Null(index) => if index.value() < x.null_surfaces.len() {
            let ns = x.null_surfaces[index.value() as int];
            match run_corners(x.indices, ns.winding_start.value() as int, ns.winding_count as nat) {
                Some(corners) => Some(HullSurface { plane: ns.plane_index.value(), corners }),
                None => None,
            }
        } else {
            None
        },
        PossiblyNullSurfaceIndex::NonNull(index) => if index.value() < x.surfaces.len() {
            let s = x.surfaces[index.value() as int];
            if s.winding_count <= 32 {
                match fan_corners(
                    x.indices,
                    s.winding_start.value() as int,
                    s.winding_count as nat,
                    s.fan_mask,
                    s.winding_count as nat,
                ) {
                    Some(corners) => Some(HullSurface { plane: s.plane_index.value(), corners }),
                    None => None,
                }
            } else {
                None
            }
        } else {
            None
        },
    }
}

/// The first `n` surfaces of a hull. None where one of them is none.
pub open spec fn spec_hull_surfaces(x: InteriorView, hull: ConvexHull, n: nat) -> Option<Seq<HullSurface>>
    decreases n,
{
    if n == 0 {
        Some(Seq::empty())
    } else {
        match spec_hull_surfaces(x, hull, (n - 1) as nat) {
            None => None,
            Some(rest) => {
                let at = hull.surface_start.value() + n - 1;
                if at < x.hull_surface_indices.len() {
                    match spec_hull_surface(x, x.hull_surface_indices[at]) {
                        Some(surface) => Some(rest.push(surface)),
                        None => None,
                    }
                } else {
                    None
                }
            },
        }
    }
}

/// The surface that an entry of the table of hull surfaces names.
pub fn hull_surface(interior: &Interior, at: PossiblyNullSurfaceIndex) -> (r: Option<TempProcSurface>)
    ensures
        match r {
            Some(surface) => spec_hull_surface(interior.deep_view(), at) == Some(surface@)
                && surface.num_points == surface.point_indices@.len() && surface.mask == 0,
            None => spec_hull_surface(interior.deep_view(), at) is None,
        },
{
    let ghost x = interior.deep_view();
    let mut points: Vec<u32> = Vec::new();
    let plane_index;
    match at {
        PossiblyNullSurfaceIndex::Null(index) => {
            if index.0 as usize >= interior.null_surfaces.len() {
                return None;
            }
            let ns = &interior.null_surfaces[index.0 as usize];
            assert(x.null_surfaces[index.0 as int] == *ns);
            plane_index = ns.plane_index.0;
            let start = ns.winding_start.0 as u64;
            let mut j: u8 = 0;
            while j < ns.winding_count
                invariant
                    j <= ns.winding_count,
                    x == interior.deep_view(),
                    at == PossiblyNullSurfaceIndex::Null(index),
                    index.0 < x.null_surfaces.len(),
                    x.null_surfaces[index.0 as int] == *ns,
                    start == ns.winding_start.0,
                    j > 0 ==> start + j <= x.indices.len(),
                    points@ == Seq::new(j as nat, |k: int| x.indices[start + k].value()),
                decreases ns.winding_count - j,
            {
                let place = start + j as u64;
                if place >= interior.indices.len() as u64 {
                    return None;
                }
                assert(x.indices[place as int] == interior.indices@[place as int]);
                points.push(interior.indices[place as usize].0);
                j = j + 1;
                assert(points@ =~= Seq::new(j as nat, |k: int| x.indices[start + k].value()));
            }
        },
        PossiblyNullSurfaceIndex::NonNull(index) => {
            if index.0 as usize >= interior.surfaces.len() {
                return None;
            }
            let s = &interior.surfaces[index.0 as usize];
            assert(x.surfaces[index.0 as int] == *s);
            plane_index = s.plane_index.0;
            if s.winding_count > 32 {
                return None;
            }
            let order = zigzag(s.winding_count);
            let start = s.winding_start.0 as u64;
            let mut j: u32 = 0;
            while j < s.winding_count
                invariant
                    j <= s.winding_count,
                    s.winding_count <= 32,
                    x == interior.deep_view(),
                    at == PossiblyNullSurfaceIndex::NonNull(index),
                    index.0 < x.surfaces.len(),
                    x.surfaces[index.0 as int] == *s,
                    start == s.winding_start.0,
                    order@ == spec_zigzag(s.winding_count as nat),
                    fan_corners(x.indices, start as int, s.winding_count as nat, s.fan_mask, j as nat)
                        == Some(points@),
                decreases s.winding_count - j,
            {
                if s.fan_mask & (1u32 << j) > 0 {
                    let place = start + order[j as usize] as u64;
                    if place >= interior.indices.len() as u64 {
                        proof {
                            lemma_fan_corners_failed(
                                x.indices,
                                start as int,
                                s.winding_count as nat,
                                s.fan_mask,
                                j as nat + 1,
                                s.winding_count as nat,
                            );
                        }
                        return None;
                    }
                    assert(x.indices[place as int] == interior.indices@[place as int]);
                    points.push(interior.indices[place as usize].0);
                }
                j = j + 1;
            }
        },
    }
    Some(TempProcSurface { num_points: points.len(), point_indices: points, plane_index, mask: 0 })
}

/// Once a place lies beyond the table, no corners come of the winding.
pub proof fn lemma_fan_corners_failed(
    indices: Seq<PointIndex>,
    start: int,
    count: nat,
    fan_mask: u32,
    m: nat,
    n: nat,
)
    requires
        m <= n,
        fan_corners(indices, start, count, fan_mask, m) is None,
    ensures
        fan_corners(indices, start, count, fan_mask, n) is None,
    decreases n,
{
    if m < n {
        lemma_fan_corners_failed(indices, start, count, fan_mask, m, (n - 1) as nat);
    }
}

/// Once a surface is none, the surfaces of the hull are none.
pub proof fn lemma_hull_surfaces_failed(x: InteriorView, hull: ConvexHull, m: nat, n: nat)
    requires
        m <= n,
        spec_hull_surfaces(x, hull, m) is None,
    ensures
        spec_hull_surfaces(x, hull, n) is None,
    decreases n,
{
    if m < n {
        lemma_hull_surfaces_failed(x, hull, m, (n - 1) as nat);
    }
}

/// The surfaces of a hull, each with its plane and its corners as points
/// of the interior. A hull that refers outside a table, or has a winding
/// of more than 32 corners, is refused.
pub fn hull_surfaces(interior: &Interior, hull: &ConvexHull) -> (r: Result<
    Vec<TempProcSurface>,
    BuildError,
>)
    ensures
        match r {
            Ok(surfaces) => spec_hull_surfaces(interior.deep_view(), *hull, hull.surface_count as nat)
                == Some(surfaces_view(surfaces@)) && surfaces@.len() == hull.surface_count
                && forall|i: int|
                0 <= i < surfaces@.len() ==> (#[trigger] surfaces@[i]).num_points
                    == surfaces@[i].point_indices@.len() && surfaces@[i].mask == 0,
            Err(e) => e == BuildError::BrokenTable && spec_hull_surfaces(
                interior.deep_view(),
                *hull,
                hull.surface_count as nat,
            ) is None,
        },
{
    let ghost x = interior.deep_view();
    let mut surfaces: Vec<TempProcSurface> = Vec::new();
    let mut i: u16 = 0;
    assert(surfaces_view(surfaces@) =~= Seq::empty());
    while i < hull.surface_count
        invariant
            i <= hull.surface_count,
            x == interior.deep_view(),
            surfaces@.len() == i,
            spec_hull_surfaces(x, *hull, i as nat) == Some(surfaces_view(surfaces@)),
            forall|k: int|
                0 <= k < surfaces@.len() ==> (#[trigger] surfaces@[k]).num_points
                    == surfaces@[k].point_indices@.len() && surfaces@[k].mask == 0,
        decreases hull.surface_count - i,
    {
        let at = i as u64 + hull.surface_start.0 as u64;
        if at >= interior.hull_surface_indices.len() as u64 {
            proof {
                lemma_hull_surfaces_failed(x, *hull, i as nat + 1, hull.surface_count as nat);
            }
            return Err(BuildError::BrokenTable);
        }
        assert(x.hull_surface_indices[at as int] == interior.hull_surface_indices@[at as int]);
        match hull_surface(interior, interior.hull_surface_indices[at as usize]) {
            Some(surface) => {
                let ghost before = surfaces_view(surfaces@);
                surfaces.push(surface);
                assert(surfaces_view(surfaces@) =~= before.push(surface@));
            },
            None => {
                proof {
                    lemma_hull_surfaces_failed(x, *hull, i as nat + 1, hull.surface_count as nat);
                }
                return Err(BuildError::BrokenTable);
            },
        }
        i = i + 1;
    }
    Ok(surfaces)
}

/// The planes of the first `n` surfaces, each once, in the order in
/// which they are first met.
pub open spec fn planes_seen(surfaces: Seq<HullSurface>, n: nat) -> Seq<u16>
    decreases n,
{
    if n == 0 {
        Seq::empty()
    } else {
        add_once(planes_seen(surfaces, (n - 1) as nat), surfaces[n - 1].plane)
    }
}

/// `seen` with the first `m` of the items added, each unless it is there.
pub open spec fn add_each_once(seen: Seq<u32>, items: Seq<u32>, m: nat) -> Seq<u32>
    decreases m,
{
    if m == 0 {
        seen
    } else {
        add_once(add_each_once(seen, items, (m - 1) as nat), items[m - 1])
    }
}

/// The corners of the first `n` surfaces, each point once, in the order
/// in which they are first met.
pub open spec fn points_seen(surfaces: Seq<HullSurface>, n: nat) -> Seq<u32>
    decreases n,
{
    if n == 0 {
        Seq::empty()
    } else {
        add_each_once(
            points_seen(surfaces, (n - 1) as nat),
            surfaces[n - 1].corners,
            surfaces[n - 1].corners.len(),
        )
    }
}

/// What was added once is there, what was there stays, and nothing comes
/// to stand twice.
pub proof fn lemma_add_once<T>(s: Seq<T>, x: T)
    ensures
        add_once(s, x).contains(x),
        forall|y: T| s.contains(y) ==> #[trigger] add_once(s, x).contains(y),
        distinct(s) ==> distinct(add_once(s, x)),
        s.len() <= add_once(s, x).len(),
{
    let r = add_once(s, x);
    if s.contains(x) {
    } else {
        assert(r[s.len() as int] == x);
        assert forall|y: T| s.contains(y) implies #[trigger] r.contains(y) by {
            let w = choose|w: int| 0 <= w < s.len() && s[w] == y;
            assert(r[w] == y);
        }
        if distinct(s) {
            assert forall|i: int, j: int| 0 <= i < j < r.len() implies r[i] != r[j] by {
                if j == s.len() {
                    assert(r[i] == s[i]);
                    assert(s.contains(s[i]));
                }
            }
        }
    }
}

/// The planes and the points of the surfaces of a hull, each once, in the
/// order in which they are first met.
pub fn unique_tables(surfaces: &Vec<TempProcSurface>) -> (r: (Vec<u16>, Vec<u32>))
    ensures
        r.0@ == planes_seen(surfaces_view(surfaces@), surfaces@.len()),
        r.1@ == points_seen(surfaces_view(surfaces@), surfaces@.len()),
        distinct(r.0@),
        distinct(r.1@),
        forall|i: int| 0 <= i < surfaces@.len() ==> r.0@.contains((#[trigger] surfaces@[i]).plane_index),
        forall|i: int, k: int|
            0 <= i < surfaces@.len() && 0 <= k < surfaces@[i].point_indices@.len() ==> r.1@.contains(
                #[trigger] surfaces@[i].point_indices@[k],
            ),
{
    let ghost model = surfaces_view(surfaces@);
    let mut planes: Vec<u16> = Vec::new();
    let mut points: Vec<u32> = Vec::new();
    let mut i: usize = 0;
    while i < surfaces.len()
        invariant
            i <= surfaces.len(),
            model == surfaces_view(surfaces@),
            planes@ == planes_seen(model, i as nat),
            points@ == points_seen(model, i as nat),
            distinct(planes@),
            distinct(points@),
            forall|a: int| 0 <= a < i ==> planes@.contains((#[trigger] surfaces@[a]).plane_index),
            forall|a: int, k: int|
                0 <= a < i && 0 <= k < surfaces@[a].point_indices@.len() ==> points@.contains(
                    #[trigger] surfaces@[a].point_indices@[k],
                ),
        decreases surfaces.len() - i,
    {
        let surf = &surfaces[i];
        assert(model[i as int] == surf@);
        proof {
            lemma_add_once(planes@, surf.plane_index);
        }
        if find_u16(&planes, surf.plane_index).is_none() {
            planes.push(surf.plane_index);
        }
        let ghost start = points@;
        let mut k: usize = 0;
        while k < surf.point_indices.len()
            invariant
                k <= surf.point_indices.len(),
                surf == surfaces@[i as int],
                i < surfaces@.len(),
                points@ == add_each_once(start, surf.point_indices@, k as nat),
                distinct(points@),
                forall|a: int, b: int|
                    0 <= a < i && 0 <= b < surfaces@[a].point_indices@.len() ==> points@.contains(
                        #[trigger] surfaces@[a].point_indices@[b],
                    ),
                forall|b: int|
                    0 <= b < k ==> points@.contains(#[trigger] surf.point_indices@[b]),
            decreases surf.point_indices.len() - k,
        {
            let x = surf.point_indices[k];
            proof {
                lemma_add_once(points@, x);
            }
            if find_u32(&points, x).is_none() {
                points.push(x);
            }
            k = k + 1;
        }
        i = i + 1;
    }
    (planes, points)
}

/// Whether `groups` says for each of `count` planes in which of fewer
/// than `limit` groups it is.
pub open spec fn groups_below(groups: Seq<usize>, count: nat, limit: nat) -> bool {
    groups.len() == count && forall|p: int| 0 <= p < count ==> (#[trigger] groups[p]) < limit
}

/// Whether `dots` holds a number for each pair of `count` planes.
pub open spec fn dots_square(dots: Seq<Seq<F32>>, count: nat) -> bool {
    dots.len() == count && forall|p: int| 0 <= p < count ==> (#[trigger] dots[p]).len() == count
}

/// The greater of `so_far` and the dot product of the planes `p` and `q`,
/// where `p` is in the group `first` and `q` in the group `second`; else
/// `so_far`. A dot product that is no number counts for nothing.
pub open spec fn dot_step(
    groups: Seq<usize>,
    dots: Seq<Seq<F32>>,
    first: int,
    second: int,
    p: int,
    q: int,
    so_far: F32,
) -> F32 {
    if groups[p] == first && groups[q] == second && so_far.spec_lt(dots[p][q]) {
        dots[p][q]
    } else {
        so_far
    }
}

/// The greatest of `so_far` and the dot products of plane `p` with the
/// first `q` planes, as far as they lie in the two groups.
pub open spec fn dot_row(
    groups: Seq<usize>,
    dots: Seq<Seq<F32>>,
    first: int,
    second: int,
    p: int,
    q: nat,
    so_far: F32,
) -> F32
    decreases q,
{
    if q == 0 {
        so_far
    } else {
        dot_step(
            groups,
            dots,
            first,
            second,
            p,
            q - 1,
            dot_row(groups, dots, first, second, p, (q - 1) as nat, so_far),
        )
    }
}

/// The greatest dot product between one of the first `p` planes that lies
/// in the group `first` and a plane that lies in the group `second`; -2
/// where there is none.
pub open spec fn group_dot(groups: Seq<usize>, dots: Seq<Seq<F32>>, first: int, second: int, p: nat) -> F32
    decreases p,
{
    if p == 0 {
        F32 { bits: MINUS_TWO_BITS }
    } else {
        dot_row(
            groups,
            dots,
            first,
            second,
            p - 1,
            groups.len(),
            group_dot(groups, dots, first, second, (p - 1) as nat),
        )
    }
}

/// The closer of the pair `so_far` and the groups `j` and `k`: the two
/// groups, where their greatest dot product is less than that of the
/// pair.
pub open spec fn pair_step(
    groups: Seq<usize>,
    dots: Seq<Seq<F32>>,
    j: int,
    k: int,
    so_far: (Option<(usize, usize)>, F32),
) -> (Option<(usize, usize)>, F32) {
    let dot = group_dot(groups, dots, j, k, groups.len());
    if dot.spec_lt(so_far.1) {
        (Some((j as usize, k as usize)), dot)
    } else {
        so_far
    }
}

/// The closest of the pair `so_far` and the pairs of group `j` with the
/// groups behind it and before `k`.
pub open spec fn pair_row(
    groups: Seq<usize>,
    dots: Seq<Seq<F32>>,
    j: int,
    k: nat,
    so_far: (Option<(usize, usize)>, F32),
) -> (Option<(usize, usize)>, F32)
    decreases k,
{
    if k == 0 || k <= j + 1 {
        so_far
    } else {
        pair_step(groups, dots, j, k - 1, pair_row(groups, dots, j, (k - 1) as nat, so_far))
    }
}

/// The closest pair of groups whose first one is one of the first `j` of
/// `count` groups, with its greatest dot product; no pair and 2 where
/// there is none.
pub open spec fn closest_so_far(groups: Seq<usize>, dots: Seq<Seq<F32>>, count: nat, j: nat) -> (
    Option<(usize, usize)>,
    F32,
)
    decreases j,
{
    if j == 0 {
        (None, F32 { bits: TWO_BITS })
    } else {
        pair_row(groups, dots, j - 1, count, closest_so_far(groups, dots, count, (j - 1) as nat))
    }
}

/// The two of `count` groups that lie closest together: of all pairs of
/// groups the one whose greatest dot product between a plane of the one
/// and a plane of the other is least and less than 2. Of pairs that lie
/// equally close the first one is taken.
pub open spec fn spec_closest_groups(groups: Seq<usize>, count: nat, dots: Seq<Seq<F32>>) -> Option<
    (usize, usize),
> {
    closest_so_far(groups, dots, count, count).0
}

/// A table of `count` rows of `count` numbers, each -2.
fn least_dots(count: usize) -> (best: Vec<Vec<F32>>)
    ensures
        best@.len() == count,
        forall|j: int, k: int|
            0 <= j < count && 0 <= k < count ==> (#[trigger] best@[j]@[k]) == (F32 {
                bits: MINUS_TWO_BITS,
            }),
        forall|j: int| 0 <= j < count ==> (#[trigger] best@[j])@.len() == count,
{
    let mut best: Vec<Vec<F32>> = Vec::new();
    let mut j: usize = 0;
    while j < count
        invariant
            j <= count,
            best@.len() == j,
            forall|a: int| 0 <= a < j ==> (#[trigger] best@[a])@.len() == count,
            forall|a: int, b: int|
                0 <= a < j && 0 <= b < count ==> (#[trigger] best@[a]@[b]) == (F32 {
                    bits: MINUS_TWO_BITS,
                }),
        decreases count - j,
    {
        let mut row: Vec<F32> = Vec::new();
        let mut k: usize = 0;
        while k < count
            invariant
                k <= count,
                row@.len() == k,
                forall|b: int| 0 <= b < k ==> (#[trigger] row@[b]) == (F32 { bits: MINUS_TWO_BITS }),
            decreases count - k,
        {
            row.push(F32 { bits: MINUS_TWO_BITS });
            k = k + 1;
        }
        best.push(row);
        j = j + 1;
    }
    best
}

/// Puts a number at its place in a table.
fn set_cell(best: &mut Vec<Vec<F32>>, j: usize, k: usize, value: F32)
    requires
        j < old(best)@.len(),
        k < old(best)@[j as int]@.len(),
    ensures
        final(best)@.len() == old(best)@.len(),
        final(best)@[j as int]@ == old(best)@[j as int]@.update(k as int, value),
        forall|a: int| 0 <= a < old(best)@.len() && a != j ==> final(best)@[a] == old(best)@[a],
{
    let mut row: Vec<F32> = Vec::new();
    let mut b: usize = 0;
    while b < best[j].len()
        invariant
            j < best@.len(),
            b <= best@[j as int]@.len(),
            row@ == best@[j as int]@.take(b as int),
        decreases best@[j as int]@.len() - b,
    {
        row.push(best[j][b]);
        assert(row@ =~= best@[j as int]@.take(b + 1));
        b = b + 1;
    }
    assert(row@ =~= best@[j as int]@);
    row[k] = value;
    best[j] = row;
}

/// The two groups that lie closest together. `dots[p][q]` is the dot
/// product of the normals of the planes `p` and `q`, and `groups[p]` the
/// group of plane `p`, one of `count`.
fn closest_groups(groups: &Vec<usize>, count: usize, dots: &Vec<Vec<F32>>) -> (r: Option<
    (usize, usize),
>)
    requires
        groups_below(groups@, groups@.len(), count as nat),
        dots_square(dots.deep_view(), groups@.len()),
    ensures
        r == spec_closest_groups(groups@, count as nat, dots.deep_view()),
        match r {
            Some((first, second)) => first < second < count,
            None => true,
        },
{
    let ghost d = dots.deep_view();
    let n = groups.len();
    // best[j][k] is the greatest dot product between the groups j < k.
    let mut best = least_dots(count);
    let mut p: usize = 0;
    while p < n
        invariant
            p <= n,
            n == groups@.len(),
            d == dots.deep_view(),
            groups_below(groups@, groups@.len(), count as nat),
            dots_square(d, n as nat),
            best@.len() == count,
            forall|a: int| 0 <= a < count ==> (#[trigger] best@[a])@.len() == count,
            forall|j: int, k: int|
                0 <= j < k < count ==> (#[trigger] best@[j]@[k]) == group_dot(groups@, d, j, k, p as nat),
        decreases n - p,
    {
        let mut q: usize = 0;
        while q < n
            invariant
                q <= n,
                p < n,
                n == groups@.len(),
                d == dots.deep_view(),
                groups_below(groups@, groups@.len(), count as nat),
                dots_square(d, n as nat),
                best@.len() == count,
                forall|a: int| 0 <= a < count ==> (#[trigger] best@[a])@.len() == count,
                forall|j: int, k: int|
                    0 <= j < k < count ==> (#[trigger] best@[j]@[k]) == dot_row(
                        groups@,
                        d,
                        j,
                        k,
                        p as int,
                        q as nat,
                        group_dot(groups@, d, j, k, p as nat),
                    ),
            decreases n - q,
        {
            let first = groups[p];
            let second = groups[q];
            assert(groups@[p as int] < count && groups@[q as int] < count);
            assert(d[p as int] == dots@[p as int].deep_view());
            assert(d[p as int].len() == n);
            assert(d[p as int][q as int] == dots@[p as int]@[q as int]);
            let ghost before = best@;
            if first < second {
                let dot = dots[p][q];
                assert(best@[first as int]@.len() == count);
                if dot.gt(best[first][second]) {
                    set_cell(&mut best, first, second, dot);
                }
            }
            assert forall|j: int, k: int| 0 <= j < k < count implies (#[trigger] best@[j]@[k]) == dot_row(
                groups@,
                d,
                j,
                k,
                p as int,
                (q + 1) as nat,
                group_dot(groups@, d, j, k, p as nat),
            ) by {
                assert(before[j]@[k] == dot_row(
                    groups@,
                    d,
                    j,
                    k,
                    p as int,
                    q as nat,
                    group_dot(groups@, d, j, k, p as nat),
                ));
            }
            q = q + 1;
        }
        p = p + 1;
    }
    let mut closest: Option<(usize, usize)> = None;
    let mut least = F32 { bits: TWO_BITS };
    let mut j: usize = 0;
    while j < count
        invariant
            j <= count,
            n == groups@.len(),
            best@.len() == count,
            forall|a: int| 0 <= a < count ==> (#[trigger] best@[a])@.len() == count,
            forall|a: int, b: int|
                0 <= a < b < count ==> (#[trigger] best@[a]@[b]) == group_dot(groups@, d, a, b, n as nat),
            (closest, least) == closest_so_far(groups@, d, count as nat, j as nat),
            match closest {
                Some((first, second)) => first < second < count,
                None => true,
            },
        decreases count - j,
    {
        let ghost start = (closest, least);
        let mut k: usize = j + 1;
        while k < count
            invariant
                j < k <= count,
                n == groups@.len(),
                best@.len() == count,
                forall|a: int| 0 <= a < count ==> (#[trigger] best@[a])@.len() == count,
                forall|a: int, b: int|
                    0 <= a < b < count ==> (#[trigger] best@[a]@[b]) == group_dot(
                        groups@,
                        d,
                        a,
                        b,
                        n as nat,
                    ),
                (closest, least) == pair_row(groups@, d, j as int, k as nat, start),
                match closest {
                    Some((first, second)) => first < second < count,
                    None => true,
                },
            decreases count - k,
        {
            assert(best@[j as int]@.len() == count);
            assert(best@[j as int]@[k as int] == group_dot(groups@, d, j as int, k as int, n as nat));
            if best[j][k].lt(least) {
                least = best[j][k];
                closest = Some((j, k));
            }
            k = k + 1;
        }
        j = j + 1;
    }
    closest
}

/// The groups after the group `second` has gone into the group `first`:
/// the groups behind `second` move up by one.
pub open spec fn joined(groups: Seq<usize>, first: usize, second: usize) -> Seq<usize> {
    Seq::new(
        groups.len(),
        |p: int|
            if groups[p] == second {
                first
            } else if groups[p] > second {
                (groups[p] - 1) as usize
            } else {
                groups[p]
            },
    )
}

/// Each of `count` planes as a group of its own.
pub open spec fn own_groups(count: nat) -> Seq<usize> {
    Seq::new(count, |p: int| p as usize)
}

/// The groups after the two closest of `left` groups were joined, again
/// and again, until 8 were left. None where no two groups lie closest.
pub open spec fn joined_down(groups: Seq<usize>, left: nat, dots: Seq<Seq<F32>>) -> Option<Seq<usize>>
    decreases left,
{
    if left <= 8 {
        Some(groups)
    } else {
        match spec_closest_groups(groups, left, dots) {
            Some((first, second)) => joined_down(joined(groups, first, second), (left - 1) as nat, dots),
            None => None,
        }
    }
}

/// The group of each of `count` planes: up to 8 planes are each a group
/// of its own, and more planes are joined down to 8 groups.
pub open spec fn spec_group_planes(count: nat, dots: Seq<Seq<F32>>) -> Result<Seq<usize>, BuildError> {
    if count <= 8 {
        Ok(own_groups(count))
    } else if !dots_square(dots, count) {
        Err(BuildError::BrokenTable)
    } else {
        match joined_down(own_groups(count), count, dots) {
            Some(groups) => Ok(groups),
            None => Err(BuildError::NoPairing),
        }
    }
}

/// Puts `count` planes into at most 8 groups: each plane starts as a
/// group of its own, and the two closest groups are joined until 8 are
/// left. The answer says for each plane in which group it is. More than
/// 8 planes want a dot product for each pair of them, and are refused
/// where no two groups have a greatest dot product below 2.
pub fn group_planes(count: usize, dots: &Vec<Vec<F32>>) -> (r: Result<Vec<usize>, BuildError>)
    ensures
        match r {
            Ok(groups) => spec_group_planes(count as nat, dots.deep_view()) == Ok::<
                Seq<usize>,
                BuildError,
            >(groups@) && groups_below(
                groups@,
                count as nat,
                if count < 8 {
                    count as nat
                } else {
                    8
                },
            ),
            Err(e) => spec_group_planes(count as nat, dots.deep_view()) == Err::<Seq<usize>, BuildError>(e),
        },
{
    let ghost d = dots.deep_view();
    let mut groups: Vec<usize> = Vec::new();
    let mut p: usize = 0;
    while p < count
        invariant
            p <= count,
            groups@.len() == p,
            forall|a: int| 0 <= a < p ==> (#[trigger] groups@[a]) == a,
        decreases count - p,
    {
        groups.push(p);
        p = p + 1;
    }
    assert(groups@ =~= own_groups(count as nat));
    if count <= 8 {
        return Ok(groups);
    }
    assert(d.len() == dots@.len());
    if dots.len() != count {
        return Err(BuildError::BrokenTable);
    }
    let mut a: usize = 0;
    while a < count
        invariant
            a <= count,
            count > 8,
            d == dots.deep_view(),
            dots@.len() == count,
            forall|b: int| 0 <= b < a ==> (#[trigger] d[b]).len() == count,
        decreases count - a,
    {
        assert(d[a as int] == dots@[a as int].deep_view());
        assert(d[a as int].len() == dots@[a as int]@.len());
        if dots[a].len() != count {
            assert(!dots_square(d, count as nat)) by {
                assert(d[a as int].len() != count);
            }
            return Err(BuildError::BrokenTable);
        }
        a = a + 1;
    }
    let mut left: usize = count;
    while left > 8
        invariant
            8 <= left <= count,
            count > 8,
            d == dots.deep_view(),
            dots_square(d, count as nat),
            groups_below(groups@, count as nat, left as nat),
            joined_down(own_groups(count as nat), count as nat, d) == joined_down(
                groups@,
                left as nat,
                d,
            ),
        decreases left,
    {
        match closest_groups(&groups, left, dots) {
            None => {
                return Err(BuildError::NoPairing);
            },
            Some((first, second)) => {
                // The second group goes into the first, and the groups
                // behind it move up.
                let ghost before = groups@;
                let mut p: usize = 0;
                while p < count
                    invariant
                        p <= count,
                        first < second < left,
                        left > 8,
                        groups@.len() == count,
                        before.len() == count,
                        forall|a: int| 0 <= a < p ==> (#[trigger] groups@[a]) < left - 1,
                        forall|a: int| 0 <= a < p ==> (#[trigger] groups@[a]) == joined(before, first, second)[a],
                        forall|a: int| p <= a < count ==> (#[trigger] groups@[a]) < left,
                        forall|a: int| p <= a < count ==> (#[trigger] groups@[a]) == before[a],
                    decreases count - p,
                {
                    let g = groups[p];
                    if g == second {
                        groups[p] = first;
                    } else if g > second {
                        groups[p] = g - 1;
                    }
                    p = p + 1;
                }
                assert(groups@ =~= joined(before, first, second));
                left = left - 1;
            },
        }
    }
    Ok(groups)
}

/// The mask of a group: the bit with the number of the group.
pub open spec fn group_mask(group: usize) -> u8 {
    if group < 8 {
        (1u8 << (group as u8))
    } else {
        0
    }
}

/// The mask of a group.
pub fn mask_of(group: usize) -> (m: u8)
    ensures
        m == group_mask(group),
{
    if group < 8 {
        1u8 << (group as u8)
    } else {
        0
    }
}

/// The mask of each plane: that of its group.
pub open spec fn plane_masks(groups: Seq<usize>) -> Seq<u8> {
    Seq::new(groups.len(), |p: int| group_mask(groups[p]))
}

/// The mask of a surface: that of its plane.
pub open spec fn surface_mask(planes: Seq<u16>, groups: Seq<usize>, surface: HullSurface) -> u8 {
    group_mask(groups[place_of(planes, surface.plane)])
}

/// The mask of a point: the masks of those of the first `n` surfaces that
/// have it as a corner, joined.
pub open spec fn point_mask(
    planes: Seq<u16>,
    groups: Seq<usize>,
    surfaces: Seq<HullSurface>,
    point: u32,
    n: nat,
) -> u8
    decreases n,
{
    if n == 0 {
        0
    } else {
        let rest = point_mask(planes, groups, surfaces, point, (n - 1) as nat);
        if surfaces[n - 1].corners.contains(point) {
            rest | surface_mask(planes, groups, surfaces[n - 1])
        } else {
            rest
        }
    }
}

/// The mask of each point.
pub open spec fn point_masks(
    planes: Seq<u16>,
    points: Seq<u32>,
    groups: Seq<usize>,
    surfaces: Seq<HullSurface>,
) -> Seq<u8> {
    Seq::new(points.len(), |p: int| point_mask(planes, groups, surfaces, points[p], surfaces.len()))
}

/// The place of each corner among the points of the hull.
pub open spec fn corner_places(points: Seq<u32>, corners: Seq<u32>) -> Seq<u32> {
    Seq::new(corners.len(), |k: int| place_of(points, corners[k]) as u32)
}

/// Each place as two bytes, high byte first.
pub open spec fn place_pairs(places: Seq<u32>) -> Seq<u8>
    decreases places.len(),
{
    if places.len() == 0 {
        Seq::empty()
    } else {
        place_pairs(places.drop_last()).push(((places.last() / 0x100) % 0x100) as u8).push(
            (places.last() % 0x100) as u8,
        )
    }
}

/// A surface of a poly list as bytes: the number of its corners, its
/// mask, the place of its plane among the planes of the hull, and the
/// places of its corners among the points of the hull, high byte first.
pub open spec fn surface_bytes(mask: u8, plane_place: nat, places: Seq<u32>) -> Seq<u8> {
    seq![(places.len() % 0x100) as u8, mask, (plane_place % 0x100) as u8] + place_pairs(
        places,
    )
}

/// The first `n` surfaces of a poly list as bytes.
pub open spec fn surfaces_bytes(
    planes: Seq<u16>,
    points: Seq<u32>,
    groups: Seq<usize>,
    surfaces: Seq<HullSurface>,
    n: nat,
) -> Seq<u8>
    decreases n,
{
    if n == 0 {
        Seq::empty()
    } else {
        surfaces_bytes(planes, points, groups, surfaces, (n - 1) as nat) + surface_bytes(
            surface_mask(planes, groups, surfaces[n - 1]),
            place_of(planes, surfaces[n - 1].plane) as nat,
            corner_places(points, surfaces[n - 1].corners),
        )
    }
}

/// The poly list of a hull as bytes: the number of planes and the mask of
/// each, the number of points in two bytes, high byte first, and the mask
/// of each, the number of surfaces, and the surfaces.
pub open spec fn poly_list_bytes(
    planes: Seq<u16>,
    points: Seq<u32>,
    groups: Seq<usize>,
    surfaces: Seq<HullSurface>,
) -> Seq<u8> {
    seq![(planes.len() % 0x100) as u8] + plane_masks(groups) + seq![
        ((points.len() / 0x100) % 0x100) as u8,
        (points.len() % 0x100) as u8,
    ] + point_masks(planes, points, groups, surfaces) + seq![(surfaces.len() % 0x100) as u8]
        + surfaces_bytes(planes, points, groups, surfaces, surfaces.len())
}

/// The bytes of a surface of a poly list.
pub fn surface_to_bytes(mask: u8, plane_place: usize, places: &Vec<u32>) -> (r: Vec<u8>)
    ensures
        r@ == surface_bytes(mask, plane_place as nat, places@),
{
    let mut r: Vec<u8> = Vec::new();
    r.push((places.len() % 0x100) as u8);
    r.push(mask);
    r.push((plane_place % 0x100) as u8);
    let ghost head = r@;
    let mut k: usize = 0;
    assert(r@ =~= head + place_pairs(places@.take(0)));
    while k < places.len()
        invariant
            k <= places.len(),
            r@ == head + place_pairs(places@.take(k as int)),
        decreases places.len() - k,
    {
        assert(places@.take(k + 1).drop_last() =~= places@.take(k as int));
        r.push(((places[k] / 0x100) % 0x100) as u8);
        r.push((places[k] % 0x100) as u8);
        assert(r@ =~= head + place_pairs(places@.take(k + 1)));
        k = k + 1;
    }
    assert(places@.take(k as int) =~= places@);
    r
}

/// What the poly list of a hull is made of.
pub struct HullPolyList {
    /// The planes of the hull, each once.
    pub planes: Vec<u16>,
    /// The points of the hull, each once.
    pub points: Vec<u32>,
    /// The bytes of the list.
    pub bytes: Vec<u8>,
}

/// What the poly list of a hull is made of.
pub ghost struct PolyListView {
    pub planes: Seq<u16>,
    pub points: Seq<u32>,
    pub bytes: Seq<u8>,
}

impl View for HullPolyList {
    type V = PolyListView;

    open spec fn view(&self) -> PolyListView {
        PolyListView { planes: self.planes@, points: self.points@, bytes: self.bytes@ }
    }
}

/// The poly list of a hull. A hull whose surfaces refer outside a table
/// is refused, and so is one with 256 planes or surfaces or more, or with
/// 65536 points or more, and one whose planes cannot be grouped.
pub open spec fn spec_hull_poly_list(x: InteriorView, hull: ConvexHull, dots: Seq<Seq<F32>>) -> Result<
    PolyListView,
    BuildError,
> {
    match spec_hull_surfaces(x, hull, hull.surface_count as nat) {
        None => Err(BuildError::BrokenTable),
        Some(surfaces) => {
            let planes = planes_seen(surfaces, surfaces.len());
            let points = points_seen(surfaces, surfaces.len());
            if planes.len() >= 0x100 || points.len() >= 0x1_0000 || surfaces.len() >= 0x100 {
                Err(BuildError::HullTooLarge)
            } else {
                match spec_group_planes(planes.len(), dots) {
                    Err(e) => Err(e),
                    Ok(groups) => Ok(
                        PolyListView {
                            planes,
                            points,
                            bytes: poly_list_bytes(planes, points, groups, surfaces),
                        },
                    ),
                }
            }
        },
    }
}

/// The mask of each plane.
fn masks_of(groups: &Vec<usize>) -> (r: Vec<u8>)
    ensures
        r@ == plane_masks(groups@),
{
    let mut r: Vec<u8> = Vec::new();
    let mut p: usize = 0;
    while p < groups.len()
        invariant
            p <= groups.len(),
            r@.len() == p,
            forall|a: int| 0 <= a < p ==> r@[a] == group_mask(groups@[a]),
        decreases groups.len() - p,
    {
        r.push(mask_of(groups[p]));
        p = p + 1;
    }
    assert(r@ =~= plane_masks(groups@));
    r
}

/// A mask joined twice is joined once.
proof fn lemma_join_twice(a: u8, m: u8)
    ensures
        (a | m) | m == a | m,
{
    assert((a | m) | m == a | m) by (bit_vector);
}

/// The places of the corners of a surface among the points of the hull.
/// The mask of the surface is joined to the mask of each of its corners.
fn place_corners(points: &Vec<u32>, corners: &Vec<u32>, mask: u8, point_masks: &mut Vec<u8>) -> (places:
    Vec<u32>)
    requires
        distinct(points@),
        points@.len() < 0x1_0000,
        old(point_masks)@.len() == points@.len(),
        forall|k: int| 0 <= k < corners@.len() ==> points@.contains(#[trigger] corners@[k]),
    ensures
        places@ == corner_places(points@, corners@),
        final(point_masks)@.len() == points@.len(),
        forall|p: int|
            0 <= p < points@.len() ==> (#[trigger] final(point_masks)@[p]) == (if corners@.contains(
                points@[p],
            ) {
                old(point_masks)@[p] | mask
            } else {
                old(point_masks)@[p]
            }),
{
    let mut places: Vec<u32> = Vec::new();
    let mut k: usize = 0;
    assert forall|p: int| 0 <= p < points@.len() implies !corners@.take(0).contains(points@[p]) by {}
    while k < corners.len()
        invariant
            k <= corners.len(),
            distinct(points@),
            points@.len() < 0x1_0000,
            point_masks@.len() == points@.len(),
            forall|b: int| 0 <= b < corners@.len() ==> points@.contains(#[trigger] corners@[b]),
            places@.len() == k,
            forall|b: int| 0 <= b < k ==> places@[b] == place_of(points@, corners@[b]) as u32,
            forall|p: int|
                0 <= p < points@.len() ==> (#[trigger] point_masks@[p]) == (if corners@.take(
                    k as int,
                ).contains(points@[p]) {
                    old(point_masks)@[p] | mask
                } else {
                    old(point_masks)@[p]
                }),
        decreases corners.len() - k,
    {
        let corner = corners[k];
        assert(points@.contains(corners@[k as int]));
        let place = match find_u32(points, corner) {
            Some(place) => place,
            None => unreached(),
        };
        let ghost masks = point_masks@;
        places.push(place as u32);
        let joined = point_masks[place] | mask;
        point_masks[place] = joined;
        proof {
            lemma_join_twice(old(point_masks)@[place as int], mask);
            let before = corners@.take(k as int);
            let after = corners@.take(k + 1);
            assert(after[k as int] == corner);
            assert forall|p: int| 0 <= p < points@.len() implies (#[trigger] point_masks@[p]) == (if after.contains(
                points@[p],
            ) {
                old(point_masks)@[p] | mask
            } else {
                old(point_masks)@[p]
            }) by {
                if before.contains(points@[p]) {
                    let w = choose|w: int| 0 <= w < before.len() && before[w] == points@[p];
                    assert(after[w] == points@[p]);
                }
                if after.contains(points@[p]) && points@[p] != corner {
                    let w = choose|w: int| 0 <= w < after.len() && after[w] == points@[p];
                    assert(before[w] == points@[p]);
                }
                if p != place {
                    assert(points@[p] != corner);
                    assert(point_masks@[p] == masks[p]);
                }
            }
        }
        k = k + 1;
    }
    assert(corners@.take(k as int) =~= corners@);
    assert(places@ =~= corner_places(points@, corners@));
    places
}

/// A surface of a poly list as bytes. The mask of the surface is joined
/// to the mask of each of its corners.
fn surface_row(
    planes: &Vec<u16>,
    points: &Vec<u32>,
    groups: &Vec<usize>,
    surface: &TempProcSurface,
    of_points: &mut Vec<u8>,
) -> (row: Vec<u8>)
    requires
        distinct(points@),
        points@.len() < 0x1_0000,
        groups@.len() == planes@.len(),
        old(of_points)@.len() == points@.len(),
        planes@.contains(surface.plane_index),
        forall|k: int|
            0 <= k < surface.point_indices@.len() ==> points@.contains(
                #[trigger] surface.point_indices@[k],
            ),
    ensures
        row@ == surface_bytes(
            surface_mask(planes@, groups@, surface@),
            place_of(planes@, surface@.plane) as nat,
            corner_places(points@, surface@.corners),
        ),
        final(of_points)@.len() == points@.len(),
        forall|p: int|
            0 <= p < points@.len() ==> (#[trigger] final(of_points)@[p]) == (if surface@.corners.contains(
                points@[p],
            ) {
                old(of_points)@[p] | surface_mask(planes@, groups@, surface@)
            } else {
                old(of_points)@[p]
            }),
{
    let plane_place = match find_u16(planes, surface.plane_index) {
        Some(place) => place,
        None => unreached(),
    };
    let mask = mask_of(groups[plane_place]);
    let places = place_corners(points, &surface.point_indices, mask, of_points);
    surface_to_bytes(mask, plane_place, &places)
}

/// Whether the tables of a hull hold the plane and the corners of each
/// surface, and no point twice.
#[verifier::opaque]
pub open spec fn tables_hold(surfaces: Seq<TempProcSurface>, planes: Seq<u16>, points: Seq<u32>) -> bool {
    &&& distinct(points)
    &&& forall|a: int| 0 <= a < surfaces.len() ==> planes.contains((#[trigger] surfaces[a]).plane_index)
    &&& forall|a: int, k: int|
        0 <= a < surfaces.len() && 0 <= k < surfaces[a].point_indices@.len() ==> points.contains(
            #[trigger] surfaces[a].point_indices@[k],
        )
}

/// A mask for each point that no surface has joined anything to.
fn no_masks(count: usize) -> (r: Vec<u8>)
    ensures
        r@.len() == count,
        forall|p: int| 0 <= p < count ==> r@[p] == 0,
{
    let mut r: Vec<u8> = Vec::new();
    let mut p: usize = 0;
    while p < count
        invariant
            p <= count,
            r@.len() == p,
            forall|a: int| 0 <= a < p ==> r@[a] == 0,
        decreases count - p,
    {
        r.push(0);
        p = p + 1;
    }
    r
}

/// The poly list of a hull. `dots[p][q]` is the dot product of the normals
/// of the planes `p` and `q` of the hull, in the order in which the
/// surfaces of the hull first name them; it is looked at where the hull
/// has more than 8 planes.
pub fn hull_poly_list(interior: &Interior, hull: &ConvexHull, dots: &Vec<Vec<F32>>) -> (r: Result<
    HullPolyList,
    BuildError,
>)
    ensures
        match r {
            Ok(list) => spec_hull_poly_list(interior.deep_view(), *hull, dots.deep_view()) == Ok::<
                PolyListView,
                BuildError,
            >(list@) && distinct(list.planes@) && distinct(list.points@) && list.planes@.len() < 0x100
                && list.points@.len() < 0x1_0000,
            Err(e) => spec_hull_poly_list(interior.deep_view(), *hull, dots.deep_view()) == Err::<
                PolyListView,
                BuildError,
            >(e),
        },
{
    let surfaces = match hull_surfaces(interior, hull) {
        Ok(surfaces) => surfaces,
        Err(e) => {
            return Err(e);
        },
    };
    let ghost model = surfaces_view(surfaces@);
    let (planes, points) = unique_tables(&surfaces);
    if planes.len() >= 0x100 || points.len() >= 0x1_0000 || surfaces.len() >= 0x100 {
        return Err(BuildError::HullTooLarge);
    }
    let groups = match group_planes(planes.len(), dots) {
        Ok(groups) => groups,
        Err(e) => {
            return Err(e);
        },
    };
    let of_planes = masks_of(&groups);
    let mut of_points = no_masks(points.len());
    assert(tables_hold(surfaces@, planes@, points@)) by {
        reveal(tables_hold);
    }
    let mut body: Vec<u8> = Vec::new();
    let mut i: usize = 0;
    while i < surfaces.len()
        invariant
            i <= surfaces.len(),
            model == surfaces_view(surfaces@),
            groups@.len() == planes@.len(),
            of_points@.len() == points@.len(),
            points@.len() < 0x1_0000,
            tables_hold(surfaces@, planes@, points@),
            forall|p: int|
                0 <= p < points@.len() ==> (#[trigger] of_points@[p]) == point_mask(
                    planes@,
                    groups@,
                    model,
                    points@[p],
                    i as nat,
                ),
            body@ == surfaces_bytes(planes@, points@, groups@, model, i as nat),
        decreases surfaces.len() - i,
    {
        let surface = &surfaces[i];
        assert(model[i as int] == surface@);
        assert(distinct(points@) && planes@.contains(surface.plane_index) && forall|k: int|
            0 <= k < surface.point_indices@.len() ==> points@.contains(
                #[trigger] surface.point_indices@[k],
            )) by {
            reveal(tables_hold);
        }
        let row = surface_row(&planes, &points, &groups, surface, &mut of_points);
        append_copy(&mut body, &row);
        i = i + 1;
    }
    let mut bytes: Vec<u8> = Vec::new();
    bytes.push((planes.len() % 0x100) as u8);
    append_copy(&mut bytes, &of_planes);
    bytes.push(((points.len() / 0x100) % 0x100) as u8);
    bytes.push((points.len() % 0x100) as u8);
    append_copy(&mut bytes, &of_points);
    bytes.push((surfaces.len() % 0x100) as u8);
    append_copy(&mut bytes, &body);
    proof {
        assert(model.len() == surfaces@.len());
        assert(of_points@ =~= point_masks(planes@, points@, groups@, model));
        assert(bytes@ =~= poly_list_bytes(planes@, points@, groups@, model));
    }
    Ok(HullPolyList { planes, points, bytes })
}

} // verus!
