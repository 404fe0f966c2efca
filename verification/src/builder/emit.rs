use vstd::prelude::*;
use crate::builder::BuildError;

verus! {

/// A polygon of a hull: its corners as support points of the hull, and
/// its plane.
#[derive(Clone, Debug, PartialEq, Eq)]
pub struct HullPoly {
    pub points: Vec<usize>,
    pub plane_index: usize,
}

/// Whether `x` is among `v`.
pub fn vec_contains(v: &Vec<usize>, x: usize) -> (b: bool)
    ensures
        b == v@.contains(x),
{
    let mut i: usize = 0;
    while i < v.len()
        invariant
            i <= v.len(),
            forall|j: int| 0 <= j < i ==> v@[j] != x,
        decreases v.len() - i,
    {
        if v[i] == x {
            return true;
        }
        i = i + 1;
    }
    false
}

/// The first `n` polygons that have `point` as a corner, by their index.
pub open spec fn containing(polys: Seq<HullPoly>, point: usize, n: nat) -> Seq<usize>
    decreases n,
{
    if n == 0 {
        Seq::empty()
    } else {
        let rest = containing(polys, point, (n - 1) as nat);
        if polys[n - 1].points@.contains(point) {
            rest.push((n - 1) as usize)
        } else {
            rest
        }
    }
}

/// Whether one of the first `m` polygons of `base` lies in the plane of
/// polygon `j`.
pub open spec fn shares_plane(polys: Seq<HullPoly>, base: Seq<usize>, j: int, m: nat) -> bool
    decreases m,
{
    if m == 0 {
        false
    } else {
        shares_plane(polys, base, j, (m - 1) as nat) || (0 <= base[m - 1] < polys.len()
            && polys[base[m - 1] as int].plane_index == polys[j].plane_index)
    }
}

/// Those of the first `n` polygons that are not in `base` and lie in the
/// plane of one in `base`, by their index.
pub open spec fn coplanar_extra(polys: Seq<HullPoly>, base: Seq<usize>, n: nat) -> Seq<usize>
    decreases n,
{
    if n == 0 {
        Seq::empty()
    } else {
        let rest = coplanar_extra(polys, base, (n - 1) as nat);
        if !base.contains((n - 1) as usize) && shares_plane(polys, base, n - 1, base.len()) {
            rest.push((n - 1) as usize)
        } else {
            rest
        }
    }
}

/// The polygons that go into the emit string of a support point: those
/// that have the point as a corner, then those that lie in the plane of
/// one of them. Each group is in the order of the hull.
pub open spec fn spec_emit_polys(polys: Seq<HullPoly>, point: usize) -> Seq<usize> {
    let base = containing(polys, point, polys.len());
    base + coplanar_extra(polys, base, polys.len())
}

/// Every index in `containing` is that of a polygon.
pub proof fn lemma_containing_in_range(polys: Seq<HullPoly>, point: usize, n: nat)
    requires
        n <= polys.len(),
    ensures
        forall|k: int|
            0 <= k < containing(polys, point, n).len() ==> (#[trigger] containing(
                polys,
                point,
                n,
            )[k]) < n,
    decreases n,
{
    if n > 0 {
        lemma_containing_in_range(polys, point, (n - 1) as nat);
        let rest = containing(polys, point, (n - 1) as nat);
        assert forall|k: int| 0 <= k < containing(polys, point, n).len() implies (
        #[trigger] containing(polys, point, n)[k]) < n by {
            if k < rest.len() {
                assert(rest[k] < n - 1);
            }
        }
    }
}

/// Every index in `coplanar_extra` is that of a polygon.
pub proof fn lemma_extra_in_range(polys: Seq<HullPoly>, base: Seq<usize>, n: nat)
    requires
        n <= polys.len(),
    ensures
        forall|k: int|
            0 <= k < coplanar_extra(polys, base, n).len() ==> (#[trigger] coplanar_extra(
                polys,
                base,
                n,
            )[k]) < n,
    decreases n,
{
    if n > 0 {
        lemma_extra_in_range(polys, base, (n - 1) as nat);
        let rest = coplanar_extra(polys, base, (n - 1) as nat);
        assert forall|k: int| 0 <= k < coplanar_extra(polys, base, n).len() implies (
        #[trigger] coplanar_extra(polys, base, n)[k]) < n by {
            if k < rest.len() {
                assert(rest[k] < n - 1);
            }
        }
    }
}

/// The polygons that go into the emit string of a support point.
pub fn emit_polys_of(polys: &Vec<HullPoly>, point: usize) -> (r: Vec<usize>)
    ensures
        r@ == spec_emit_polys(polys@, point),
        forall|k: int| 0 <= k < r@.len() ==> (#[trigger] r@[k]) < polys@.len(),
{
    let mut base: Vec<usize> = Vec::new();
    let n = polys.len();
    let mut j: usize = 0;
    while j < n
        invariant
            j <= n,
            n == polys@.len(),
            base@ == containing(polys@, point, j as nat),
        decreases n - j,
    {
        if vec_contains(&polys[j].points, point) {
            base.push(j);
        }
        j = j + 1;
    }
    let mut extra: Vec<usize> = Vec::new();
    let mut j: usize = 0;
    proof {
        lemma_containing_in_range(polys@, point, n as nat);
    }
    while j < n
        invariant
            j <= n,
            n == polys@.len(),
            base@ == containing(polys@, point, n as nat),
            forall|k: int| 0 <= k < base@.len() ==> (#[trigger] base@[k]) < n,
            extra@ == coplanar_extra(polys@, base@, j as nat),
        decreases n - j,
    {
        if !vec_contains(&base, j) {
            let mut found = false;
            let mut m: usize = 0;
            while m < base.len()
                invariant
                    m <= base.len(),
                    j < n,
                    n == polys@.len(),
                    forall|k: int| 0 <= k < base@.len() ==> (#[trigger] base@[k]) < n,
                    found == shares_plane(polys@, base@, j as int, m as nat),
                decreases base.len() - m,
            {
                assert(base@[m as int] < n);
                if polys[base[m]].plane_index == polys[j].plane_index {
                    found = true;
                }
                m = m + 1;
            }
            if found {
                extra.push(j);
            }
        }
        j = j + 1;
    }
    proof {
        lemma_extra_in_range(polys@, base@, n as nat);
    }
    let ghost b = base@;
    let ghost e = extra@;
    base.append(&mut extra);
    assert(base@ =~= b + e);
    base
}

/// `s` with `x` put in its place among numbers that rise, unless it is
/// there.
pub open spec fn sorted_insert(s: Seq<usize>, x: usize) -> Seq<usize>
    decreases s.len(),
{
    if s.len() == 0 {
        seq![x]
    } else if s.last() == x {
        s
    } else if s.last() < x {
        s.push(x)
    } else {
        sorted_insert(s.drop_last(), x).push(s.last())
    }
}

/// The numbers of `s` in rising order, each once.
pub open spec fn sorted_set(s: Seq<usize>) -> Seq<usize>
    decreases s.len(),
{
    if s.len() == 0 {
        Seq::empty()
    } else {
        sorted_insert(sorted_set(s.drop_last()), s.last())
    }
}

/// Whether the numbers rise strictly.
pub open spec fn rising(s: Seq<usize>) -> bool {
    forall|i: int, j: int| 0 <= i < j < s.len() ==> s[i] < s[j]
}

/// Putting a number into rising numbers leaves them rising, and adds
/// nothing but that number.
pub proof fn lemma_sorted_insert(s: Seq<usize>, x: usize)
    requires
        rising(s),
    ensures
        rising(sorted_insert(s, x)),
        forall|y: usize|
            #![trigger sorted_insert(s, x).contains(y)]
            sorted_insert(s, x).contains(y) <==> (s.contains(y) || y == x),
        sorted_insert(s, x).len() <= s.len() + 1,
    decreases s.len(),
{
    let r = sorted_insert(s, x);
    if s.len() == 0 {
        assert(r[0] == x);
        assert forall|y: usize| r.contains(y) <==> (s.contains(y) || y == x) by {
            if r.contains(y) {
                let k = choose|k: int| 0 <= k < r.len() && r[k] == y;
            }
        }
    } else if s.last() == x {
        assert(s[s.len() - 1] == x);
    } else if s.last() < x {
        assert(r[s.len() as int] == x);
        assert forall|y: usize| r.contains(y) <==> (s.contains(y) || y == x) by {
            if r.contains(y) {
                let k = choose|k: int| 0 <= k < r.len() && r[k] == y;
                if k < s.len() {
                    assert(s[k] == y);
                }
            }
            if s.contains(y) {
                let k = choose|k: int| 0 <= k < s.len() && s[k] == y;
                assert(r[k] == y);
            }
        }
    } else {
        let front = s.drop_last();
        assert(rising(front)) by {
            assert forall|i: int, j: int| 0 <= i < j < front.len() implies front[i] < front[j] by {
                assert(front[i] == s[i] && front[j] == s[j]);
            }
        }
        lemma_sorted_insert(front, x);
        let inner = sorted_insert(front, x);
        assert(r =~= inner.push(s.last()));
        assert forall|i: int, j: int| 0 <= i < j < r.len() implies r[i] < r[j] by {
            if j == inner.len() {
                assert(inner[i] == inner[i]);
                assert(inner.contains(inner[i]));
                if inner[i] != x {
                    assert(front.contains(inner[i]));
                    let k = choose|k: int| 0 <= k < front.len() && front[k] == inner[i];
                    assert(front[k] == s[k]);
                    assert(s[k] < s[s.len() - 1]);
                }
            }
        }
        assert forall|y: usize| r.contains(y) <==> (s.contains(y) || y == x) by {
            if r.contains(y) {
                let k = choose|k: int| 0 <= k < r.len() && r[k] == y;
                if k < inner.len() {
                    assert(inner.contains(y));
                    if y != x {
                        let m = choose|m: int| 0 <= m < front.len() && front[m] == y;
                        assert(s[m] == y);
                    }
                } else {
                    assert(s[s.len() - 1] == y);
                }
            }
            if s.contains(y) {
                let k = choose|k: int| 0 <= k < s.len() && s[k] == y;
                if k < front.len() {
                    assert(front[k] == y);
                    assert(inner.contains(y));
                    let m = choose|m: int| 0 <= m < inner.len() && inner[m] == y;
                    assert(r[m] == y);
                } else {
                    assert(r[inner.len() as int] == y);
                }
            }
            if y == x {
                assert(inner.contains(x));
                let m = choose|m: int| 0 <= m < inner.len() && inner[m] == x;
                assert(r[m] == x);
            }
        }
    }
}

/// The sorted set of numbers rises, and holds the numbers and nothing
/// else.
pub proof fn lemma_sorted_set(s: Seq<usize>)
    ensures
        rising(sorted_set(s)),
        forall|y: usize| #![trigger sorted_set(s).contains(y)] sorted_set(s).contains(y) <==> s.contains(y),
        sorted_set(s).len() <= s.len(),
    decreases s.len(),
{
    if s.len() > 0 {
        let front = s.drop_last();
        lemma_sorted_set(front);
        lemma_sorted_insert(sorted_set(front), s.last());
        assert forall|y: usize| sorted_set(s).contains(y) <==> s.contains(y) by {
            if s.contains(y) {
                let k = choose|k: int| 0 <= k < s.len() && s[k] == y;
                if k < front.len() {
                    assert(front[k] == y);
                }
            }
            if front.contains(y) {
                let k = choose|k: int| 0 <= k < front.len() && front[k] == y;
                assert(s[k] == y);
            }
            assert(s[s.len() - 1] == s.last());
        }
    }
}

/// Puts `x` in its place among numbers that rise, unless it is there.
pub fn insert_sorted(v: &mut Vec<usize>, x: usize)
    ensures
        final(v)@ == sorted_insert(old(v)@, x),
{
    let ghost s = v@;
    let mut i: usize = v.len();
    assert(s.take(i as int) =~= s);
    assert(sorted_insert(s, x) + s.skip(i as int) =~= sorted_insert(s, x));
    while i > 0 && v[i - 1] > x
        invariant
            i <= v.len(),
            v@ == s,
            sorted_insert(s, x) == sorted_insert(s.take(i as int), x) + s.skip(i as int),
        decreases i,
    {
        proof {
            let t = s.take(i as int);
            assert(t.last() == s[i - 1]);
            assert(t.drop_last() =~= s.take(i - 1));
            assert(sorted_insert(t, x) == sorted_insert(s.take(i - 1), x).push(s[i - 1]));
            assert(sorted_insert(s.take(i - 1), x).push(s[i - 1]) + s.skip(i as int)
                =~= sorted_insert(s.take(i - 1), x) + s.skip(i - 1));
        }
        i = i - 1;
    }
    proof {
        let t = s.take(i as int);
        if i > 0 {
            assert(t.last() == s[i - 1]);
        }
    }
    if i > 0 && v[i - 1] == x {
        assert(s.take(i as int) + s.skip(i as int) =~= s);
        return ;
    }
    v.insert(i, x);
    proof {
        let t = s.take(i as int);
        assert(sorted_insert(t, x) =~= t.push(x));
        assert(v@ =~= t.push(x) + s.skip(i as int));
    }
}

/// The corners of the first `n` of the polygons `which`, one polygon
/// after the other.
pub open spec fn corners_of(polys: Seq<HullPoly>, which: Seq<usize>, n: nat) -> Seq<usize>
    decreases n,
{
    if n == 0 {
        Seq::empty()
    } else {
        corners_of(polys, which, (n - 1) as nat) + polys[which[n - 1] as int].points@
    }
}

/// The support points of an emit string: the corners of its polygons in
/// rising order, each once.
pub open spec fn spec_emit_points(polys: Seq<HullPoly>, which: Seq<usize>) -> Seq<usize> {
    sorted_set(corners_of(polys, which, which.len()))
}

/// The support points of an emit string.
fn emit_points_of(polys: &Vec<HullPoly>, which: &Vec<usize>) -> (r: Vec<usize>)
    requires
        forall|k: int| 0 <= k < which@.len() ==> (#[trigger] which@[k]) < polys@.len(),
    ensures
        r@ == spec_emit_points(polys@, which@),
{
    let mut r: Vec<usize> = Vec::new();
    let mut k: usize = 0;
    while k < which.len()
        invariant
            k <= which.len(),
            forall|i: int| 0 <= i < which@.len() ==> (#[trigger] which@[i]) < polys@.len(),
            r@ == sorted_set(corners_of(polys@, which@, k as nat)),
        decreases which.len() - k,
    {
        assert(which@[k as int] < polys@.len());
        let poly = &polys[which[k]];
        let ghost before = corners_of(polys@, which@, k as nat);
        let mut m: usize = 0;
        while m < poly.points.len()
            invariant
                m <= poly.points.len(),
                r@ == sorted_set(before + poly.points@.take(m as int)),
            decreases poly.points.len() - m,
        {
            proof {
                let now = before + poly.points@.take(m + 1);
                assert(now.drop_last() =~= before + poly.points@.take(m as int));
                assert(now.last() == poly.points@[m as int]);
            }
            insert_sorted(&mut r, poly.points[m]);
            m = m + 1;
        }
        assert(poly.points@.take(m as int) =~= poly.points@);
        k = k + 1;
    }
    r
}

/// An edge between two support points, the lesser one first.
pub open spec fn edge_of(a: usize, b: usize) -> (usize, usize) {
    if a <= b {
        (a, b)
    } else {
        (b, a)
    }
}

/// `s` with `e` added at the end, unless it is there.
pub open spec fn add_once(s: Seq<(usize, usize)>, e: (usize, usize)) -> Seq<(usize, usize)> {
    if s.contains(e) {
        s
    } else {
        s.push(e)
    }
}

/// The edges of the first `m` sides of a polygon with corners
/// `points`, added to `s`: each side runs from a corner to the next, the
/// last one back to the first.
pub open spec fn with_sides(s: Seq<(usize, usize)>, points: Seq<usize>, m: nat) -> Seq<
    (usize, usize),
>
    decreases m,
{
    if m == 0 {
        s
    } else {
        add_once(
            with_sides(s, points, (m - 1) as nat),
            edge_of(points[m - 1], points[(m as int) % (points.len() as int)]),
        )
    }
}

/// The edges of the first `n` of the polygons `which`, each once, in the
/// order in which they are first met.
pub open spec fn edges_of(polys: Seq<HullPoly>, which: Seq<usize>, n: nat) -> Seq<(usize, usize)>
    decreases n,
{
    if n == 0 {
        Seq::empty()
    } else {
        let points = polys[which[n - 1] as int].points@;
        with_sides(edges_of(polys, which, (n - 1) as nat), points, points.len())
    }
}

fn edges_contain(edges: &Vec<(usize, usize)>, e: (usize, usize)) -> (b: bool)
    ensures
        b == edges@.contains(e),
{
    let mut i: usize = 0;
    while i < edges.len()
        invariant
            i <= edges.len(),
            forall|j: int| 0 <= j < i ==> edges@[j] != e,
        decreases edges.len() - i,
    {
        if edges[i].0 == e.0 && edges[i].1 == e.1 {
            return true;
        }
        i = i + 1;
    }
    false
}

/// The edges of an emit string.
fn emit_edges_of(polys: &Vec<HullPoly>, which: &Vec<usize>) -> (r: Vec<(usize, usize)>)
    requires
        forall|k: int| 0 <= k < which@.len() ==> (#[trigger] which@[k]) < polys@.len(),
    ensures
        r@ == edges_of(polys@, which@, which@.len()),
{
    let mut r: Vec<(usize, usize)> = Vec::new();
    let mut k: usize = 0;
    while k < which.len()
        invariant
            k <= which.len(),
            forall|i: int| 0 <= i < which@.len() ==> (#[trigger] which@[i]) < polys@.len(),
            r@ == edges_of(polys@, which@, k as nat),
        decreases which.len() - k,
    {
        assert(which@[k as int] < polys@.len());
        let poly = &polys[which[k]];
        let ghost before = r@;
        let n = poly.points.len();
        let mut m: usize = 0;
        while m < n
            invariant
                m <= n,
                n == poly.points@.len(),
                r@ == with_sides(before, poly.points@, m as nat),
            decreases n - m,
        {
            let next = if m + 1 == n {
                0
            } else {
                m + 1
            };
            assert(next == (m + 1) % (n as int)) by {
                if m + 1 == n {
                    assert((m + 1) % (n as int) == 0) by (nonlinear_arith)
                        requires
                            m + 1 == n,
                            n > 0,
                    ;
                } else {
                    assert((m + 1) % (n as int) == m + 1) by (nonlinear_arith)
                        requires
                            0 <= m + 1 < n,
                    ;
                }
            }
            let a = poly.points[m];
            let b = poly.points[next];
            let e = if a <= b {
                (a, b)
            } else {
                (b, a)
            };
            if !edges_contain(&r, e) {
                r.push(e);
            }
            m = m + 1;
        }
        k = k + 1;
    }
    r
}

/// The first place of `x` in `s`, or the length of `s`.
pub open spec fn position_of(s: Seq<usize>, x: usize) -> nat
    decreases s.len(),
{
    if s.len() == 0 {
        0
    } else if position_of(s.drop_last(), x) < s.len() - 1 {
        position_of(s.drop_last(), x)
    } else if s.last() == x {
        (s.len() - 1) as nat
    } else {
        s.len()
    }
}

/// The first place of `x` in `v`, or the length of `v`.
pub fn position(v: &Vec<usize>, x: usize) -> (r: usize)
    ensures
        r == position_of(v@, x),
        r <= v@.len(),
{
    let mut i: usize = 0;
    while i < v.len()
        invariant
            i <= v.len(),
            position_of(v@.take(i as int), x) == i,
        decreases v.len() - i,
    {
        assert(v@.take(i + 1).drop_last() =~= v@.take(i as int));
        assert(v@.take(i + 1).last() == v@[i as int]);
        if v[i] == x {
            proof {
                lemma_position_prefix(v@, x, i + 1);
            }
            return i;
        }
        i = i + 1;
    }
    assert(v@.take(i as int) =~= v@);
    i
}

/// A place found among the first items is the place among all.
pub proof fn lemma_position_prefix(s: Seq<usize>, x: usize, n: int)
    requires
        0 <= n <= s.len(),
        position_of(s.take(n), x) < n,
    ensures
        position_of(s, x) == position_of(s.take(n), x),
    decreases s.len() - n,
{
    if n < s.len() {
        assert(s.take(n + 1).drop_last() =~= s.take(n));
        lemma_position_prefix(s, x, n + 1);
    } else {
        assert(s.take(n) =~= s);
    }
}

/// The low byte of each number.
pub open spec fn low_bytes(s: Seq<usize>) -> Seq<u8>
    decreases s.len(),
{
    if s.len() == 0 {
        Seq::empty()
    } else {
        low_bytes(s.drop_last()).push((s.last() % 0x100) as u8)
    }
}

/// The two ends of each edge, as bytes.
pub open spec fn edge_bytes(edges: Seq<(usize, usize)>) -> Seq<u8>
    decreases edges.len(),
{
    if edges.len() == 0 {
        Seq::empty()
    } else {
        edge_bytes(edges.drop_last()).push((edges.last().0 % 0x100) as u8).push(
            (edges.last().1 % 0x100) as u8,
        )
    }
}

/// The places in `points` of the first `m` corners, as bytes.
pub open spec fn place_bytes(points: Seq<usize>, corners: Seq<usize>, m: nat) -> Seq<u8>
    decreases m,
{
    if m == 0 {
        Seq::empty()
    } else {
        place_bytes(points, corners, (m - 1) as nat).push(
            (position_of(points, corners[m - 1]) % 0x100) as u8,
        )
    }
}

/// The first `n` of the polygons `which`, as bytes: for each the number
/// of its corners, its index in the hull, and the places of its corners
/// among `points`.
pub open spec fn poly_bytes(polys: Seq<HullPoly>, which: Seq<usize>, points: Seq<usize>, n: nat) -> Seq<
    u8,
>
    decreases n,
{
    if n == 0 {
        Seq::empty()
    } else {
        let j = which[n - 1];
        let corners = polys[j as int].points@;
        poly_bytes(polys, which, points, (n - 1) as nat).push((corners.len() % 0x100) as u8).push(
            (j % 0x100) as u8,
        ) + place_bytes(points, corners, corners.len())
    }
}

/// An emit string: the support points, the edges and the polygons, each
/// list with its count before it.
pub open spec fn emit_bytes(
    polys: Seq<HullPoly>,
    which: Seq<usize>,
    points: Seq<usize>,
    edges: Seq<(usize, usize)>,
) -> Seq<u8> {
    seq![(points.len() % 0x100) as u8] + low_bytes(points) + seq![(edges.len() % 0x100) as u8]
        + edge_bytes(edges) + seq![(which.len() % 0x100) as u8] + poly_bytes(
        polys,
        which,
        points,
        which.len(),
    )
}

/// Whether every count and every index of an emit string fits a byte.
pub open spec fn emit_fits(
    polys: Seq<HullPoly>,
    which: Seq<usize>,
    points: Seq<usize>,
    edges: Seq<(usize, usize)>,
) -> bool {
    &&& points.len() < 0x100
    &&& edges.len() < 0x100
    &&& which.len() < 0x100
    &&& forall|i: int| 0 <= i < points.len() ==> (#[trigger] points[i]) < 0x100
    &&& forall|i: int|
        0 <= i < edges.len() ==> (#[trigger] edges[i]).0 < 0x100 && edges[i].1 < 0x100
    &&& forall|i: int|
        0 <= i < which.len() ==> (#[trigger] which[i]) < 0x100 && polys[which[i] as int].points@.len()
            < 0x100
}

fn all_fit(polys: &Vec<HullPoly>, which: &Vec<usize>, points: &Vec<usize>, edges: &Vec<(usize, usize)>) -> (b:
    bool)
    requires
        forall|k: int| 0 <= k < which@.len() ==> (#[trigger] which@[k]) < polys@.len(),
    ensures
        b == emit_fits(polys@, which@, points@, edges@),
{
    if points.len() >= 0x100 || edges.len() >= 0x100 || which.len() >= 0x100 {
        return false;
    }
    let mut i: usize = 0;
    while i < points.len()
        invariant
            i <= points.len(),
            forall|j: int| 0 <= j < i ==> (#[trigger] points@[j]) < 0x100,
        decreases points.len() - i,
    {
        if points[i] >= 0x100 {
            return false;
        }
        i = i + 1;
    }
    let mut i: usize = 0;
    while i < edges.len()
        invariant
            i <= edges.len(),
            forall|j: int|
                0 <= j < i ==> (#[trigger] edges@[j]).0 < 0x100 && edges@[j].1 < 0x100,
        decreases edges.len() - i,
    {
        if edges[i].0 >= 0x100 || edges[i].1 >= 0x100 {
            return false;
        }
        i = i + 1;
    }
    let mut i: usize = 0;
    while i < which.len()
        invariant
            i <= which.len(),
            forall|k: int| 0 <= k < which@.len() ==> (#[trigger] which@[k]) < polys@.len(),
            forall|j: int|
                0 <= j < i ==> (#[trigger] which@[j]) < 0x100 && polys@[which@[j] as int].points@.len()
                    < 0x100,
        decreases which.len() - i,
    {
        assert(which@[i as int] < polys@.len());
        if which[i] >= 0x100 || polys[which[i]].points.len() >= 0x100 {
            return false;
        }
        i = i + 1;
    }
    true
}

/// The emit string of the support point `point` of a hull with the
/// polygons `polys`. It is refused where a count or an index of it does
/// not fit a byte.
pub fn build_emit_string(polys: &Vec<HullPoly>, point: usize) -> (r: Result<Vec<u8>, BuildError>)
    ensures
        ({
            let which = spec_emit_polys(polys@, point);
            let points = spec_emit_points(polys@, which);
            let edges = edges_of(polys@, which, which.len());
            match r {
                Ok(bytes) => emit_fits(polys@, which, points, edges) && bytes@ == emit_bytes(
                    polys@,
                    which,
                    points,
                    edges,
                ),
                Err(e) => !emit_fits(polys@, which, points, edges) && e
                    == BuildError::EmitStringOverflow,
            }
        }),
{
    let which = emit_polys_of(polys, point);
    let points = emit_points_of(polys, &which);
    let edges = emit_edges_of(polys, &which);
    if !all_fit(polys, &which, &points, &edges) {
        return Err(BuildError::EmitStringOverflow);
    }
    let mut bytes: Vec<u8> = Vec::new();
    bytes.push((points.len() % 0x100) as u8);
    let ghost head = bytes@;
    let mut i: usize = 0;
    while i < points.len()
        invariant
            i <= points.len(),
            bytes@ == head + low_bytes(points@.take(i as int)),
        decreases points.len() - i,
    {
        assert(points@.take(i + 1).drop_last() =~= points@.take(i as int));
        bytes.push((points[i] % 0x100) as u8);
        assert(bytes@ =~= head + low_bytes(points@.take(i + 1)));
        i = i + 1;
    }
    assert(points@.take(i as int) =~= points@);
    bytes.push((edges.len() % 0x100) as u8);
    let ghost head = bytes@;
    let mut i: usize = 0;
    while i < edges.len()
        invariant
            i <= edges.len(),
            bytes@ == head + edge_bytes(edges@.take(i as int)),
        decreases edges.len() - i,
    {
        assert(edges@.take(i + 1).drop_last() =~= edges@.take(i as int));
        bytes.push((edges[i].0 % 0x100) as u8);
        bytes.push((edges[i].1 % 0x100) as u8);
        assert(bytes@ =~= head + edge_bytes(edges@.take(i + 1)));
        i = i + 1;
    }
    assert(edges@.take(i as int) =~= edges@);
    bytes.push((which.len() % 0x100) as u8);
    let ghost head = bytes@;
    let mut k: usize = 0;
    while k < which.len()
        invariant
            k <= which.len(),
            forall|i: int| 0 <= i < which@.len() ==> (#[trigger] which@[i]) < polys@.len(),
            bytes@ == head + poly_bytes(polys@, which@, points@, k as nat),
        decreases which.len() - k,
    {
        assert(which@[k as int] < polys@.len());
        let j = which[k];
        let poly = &polys[j];
        bytes.push((poly.points.len() % 0x100) as u8);
        bytes.push((j % 0x100) as u8);
        let ghost mid = bytes@;
        let mut m: usize = 0;
        while m < poly.points.len()
            invariant
                m <= poly.points.len(),
                bytes@ == mid + place_bytes(points@, poly.points@, m as nat),
            decreases poly.points.len() - m,
        {
            let place = position(&points, poly.points[m]);
            bytes.push((place % 0x100) as u8);
            assert(bytes@ =~= mid + place_bytes(points@, poly.points@, (m + 1) as nat));
            m = m + 1;
        }
        assert(bytes@ =~= head + poly_bytes(polys@, which@, points@, (k + 1) as nat));
        k = k + 1;
    }
    proof {
        assert(bytes@ =~= emit_bytes(polys@, which@, points@, edges@));
    }
    Ok(bytes)
}

} // verus!
