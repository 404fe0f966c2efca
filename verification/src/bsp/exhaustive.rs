use vstd::prelude::*;
use crate::bsp::{distinct_planes, planes_of, DIFBSPNode};
use crate::builder::BuildError;
use crate::float::{Side, MINUS_ONE_BITS};
use crate::types::F32;

verus! {

/// The direction that lies nearest to a normal among the first `n`
/// directions, with its dot product: the first direction whose dot
/// product with the normal is greater than -1 and than that of every
/// direction before it. A dot product that is no number counts for
/// nothing.
pub open spec fn nearest_so_far(dots: Seq<F32>, n: nat) -> (Option<usize>, F32)
    decreases n,
{
    if n == 0 {
        (None, F32 { bits: MINUS_ONE_BITS })
    } else {
        let rest = nearest_so_far(dots, (n - 1) as nat);
        if rest.1.spec_lt(dots[n - 1]) {
            (Some((n - 1) as usize), dots[n - 1])
        } else {
            rest
        }
    }
}

/// The direction that lies nearest to a normal, from the dot products of
/// the normal with the directions.
pub open spec fn spec_nearest_direction(dots: Seq<F32>) -> Option<usize> {
    nearest_so_far(dots, dots.len()).0
}

/// The direction that lies nearest to a normal.
pub fn nearest_direction(dots: &Vec<F32>) -> (r: Option<usize>)
    ensures
        r == spec_nearest_direction(dots@),
        match r {
            Some(k) => k < dots@.len(),
            None => true,
        },
{
    let mut best: Option<usize> = None;
    let mut most = F32 { bits: MINUS_ONE_BITS };
    let mut k: usize = 0;
    while k < dots.len()
        invariant
            k <= dots.len(),
            (best, most) == nearest_so_far(dots@, k as nat),
            match best {
                Some(b) => b < k,
                None => true,
            },
        decreases dots.len() - k,
    {
        if dots[k].gt(most) {
            most = dots[k];
            best = Some(k);
        }
        k = k + 1;
    }
    best
}

/// The list with a plane put in by its distance: behind every plane
/// whose distance is not greater in the total order, and before the
/// others.
pub open spec fn put_in_order(list: Seq<usize>, plane: usize, distances: Seq<F32>) -> Seq<usize>
    decreases list.len(),
{
    if list.len() == 0 {
        seq![plane]
    } else if distances[list.last() as int].total_key() <= distances[plane as int].total_key() {
        list.push(plane)
    } else {
        put_in_order(list.drop_last(), plane, distances).push(list.last())
    }
}

/// The first `n` planes in the order of their distances; planes with the
/// same distance stay in the order in which they come.
pub open spec fn in_order(planes: Seq<usize>, distances: Seq<F32>, n: nat) -> Seq<usize>
    decreases n,
{
    if n == 0 {
        Seq::empty()
    } else {
        put_in_order(in_order(planes, distances, (n - 1) as nat), planes[n - 1], distances)
    }
}

/// A plane that is put in by its distance goes to the place before which
/// no distance is greater and from which on every distance is.
pub proof fn lemma_put_in_order(list: Seq<usize>, plane: usize, distances: Seq<F32>, j: int)
    requires
        0 <= j <= list.len(),
        forall|m: int|
            j <= m < list.len() ==> distances[(#[trigger] list[m]) as int].total_key()
                > distances[plane as int].total_key(),
        j > 0 ==> distances[list[j - 1] as int].total_key() <= distances[plane as int].total_key(),
    ensures
        put_in_order(list, plane, distances) == list.insert(j, plane),
    decreases list.len(),
{
    if list.len() == 0 {
        assert(list.insert(0, plane) =~= seq![plane]);
    } else if j == list.len() {
        assert(list.insert(j, plane) =~= list.push(plane));
    } else {
        let front = list.drop_last();
        assert(distances[list[list.len() - 1] as int].total_key() > distances[plane as int].total_key());
        assert forall|m: int| j <= m < front.len() implies distances[(#[trigger] front[m]) as int].total_key()
            > distances[plane as int].total_key() by {
            assert(front[m] == list[m]);
        }
        if j > 0 {
            assert(front[j - 1] == list[j - 1]);
        }
        lemma_put_in_order(front, plane, distances, j);
        assert(front.insert(j, plane).push(list.last()) =~= list.insert(j, plane));
    }
}

/// Whether a distance is greater than another in the total order.
fn farther(a: F32, b: F32) -> (r: bool)
    ensures
        r == (a.total_key() > b.total_key()),
{
    match a.total_order(b) {
        Side::Greater => true,
        _ => false,
    }
}

/// The planes in the order of their distances. Each plane has its
/// distance at its place in `distances`.
fn sort_by_distance(planes: &Vec<usize>, distances: &Vec<F32>) -> (r: Vec<usize>)
    requires
        forall|i: int| 0 <= i < planes@.len() ==> (#[trigger] planes@[i]) < distances@.len(),
    ensures
        r@ == in_order(planes@, distances@, planes@.len()),
        r@.len() == planes@.len(),
{
    let mut r: Vec<usize> = Vec::new();
    let mut i: usize = 0;
    while i < planes.len()
        invariant
            i <= planes.len(),
            r@ == in_order(planes@, distances@, i as nat),
            r@.len() == i,
            forall|a: int| 0 <= a < planes@.len() ==> (#[trigger] planes@[a]) < distances@.len(),
            forall|a: int| 0 <= a < r@.len() ==> (#[trigger] r@[a]) < distances@.len(),
        decreases planes.len() - i,
    {
        let plane = planes[i];
        let mut j: usize = r.len();
        while j > 0 && farther(distances[r[j - 1]], distances[plane])
            invariant
                j <= r@.len(),
                plane < distances@.len(),
                forall|a: int| 0 <= a < r@.len() ==> (#[trigger] r@[a]) < distances@.len(),
                forall|m: int|
                    j <= m < r@.len() ==> distances@[(#[trigger] r@[m]) as int].total_key()
                        > distances@[plane as int].total_key(),
            decreases j,
        {
            j = j - 1;
        }
        proof {
            lemma_put_in_order(r@, plane, distances@, j as int);
        }
        r.insert(j, plane);
        i = i + 1;
    }
    r
}

/// Those of the first `n` planes that lie nearest to direction `k`, in
/// the order in which they come. `dots[p]` holds the dot products of the
/// normal of plane `p` with the directions.
pub open spec fn bucket(planes: Seq<usize>, dots: Seq<Seq<F32>>, k: usize, n: nat) -> Seq<usize>
    decreases n,
{
    if n == 0 {
        Seq::empty()
    } else {
        let rest = bucket(planes, dots, k, (n - 1) as nat);
        if spec_nearest_direction(dots[planes[n - 1] as int]) == Some(k) {
            rest.push(planes[n - 1])
        } else {
            rest
        }
    }
}

/// The planes in the middle of the first `k` directions: of the planes
/// that lie nearest to a direction, in the order of their distances, the
/// one at half their number. A direction that no plane lies nearest to
/// gives none.
pub open spec fn medians(planes: Seq<usize>, dots: Seq<Seq<F32>>, distances: Seq<F32>, k: nat) -> Seq<
    usize,
>
    decreases k,
{
    if k == 0 {
        Seq::empty()
    } else {
        let rest = medians(planes, dots, distances, (k - 1) as nat);
        let near = bucket(planes, dots, (k - 1) as usize, planes.len());
        if near.len() == 0 {
            rest
        } else {
            rest.push(in_order(near, distances, near.len())[near.len() as int / 2])
        }
    }
}

/// Whether each plane has its dot products and its distance.
pub open spec fn planes_known(planes: Seq<usize>, dots: Seq<Seq<F32>>, distances: Seq<F32>) -> bool {
    forall|i: int|
        0 <= i < planes.len() ==> (#[trigger] planes[i]) < dots.len() && planes[i] < distances.len()
}

/// The planes that the exhaustive method tries for a node: of the planes
/// of its polygons that were not used yet, those in the middle of each
/// of `directions` directions. `dots[p]` holds the dot products of the
/// normal of plane `p` with the directions, and `distances[p]` its
/// distance. A plane without either is refused.
pub fn exhaustive_candidates(
    node: &DIFBSPNode,
    dots: &Vec<Vec<F32>>,
    distances: &Vec<F32>,
    directions: usize,
) -> (r: Result<Vec<usize>, BuildError>)
    ensures
        ({
            let planes = distinct_planes(node.brush_list@, true, node.brush_list@.len());
            match r {
                Ok(found) => planes_known(planes, dots.deep_view(), distances@) && found@ == medians(
                    planes,
                    dots.deep_view(),
                    distances@,
                    directions as nat,
                ),
                Err(e) => e == BuildError::BrokenTable && !planes_known(
                    planes,
                    dots.deep_view(),
                    distances@,
                ),
            }
        }),
{
    let ghost d = dots.deep_view();
    let planes = planes_of(&node.brush_list, true);
    assert(d.len() == dots@.len());
    let mut near: Vec<Option<usize>> = Vec::new();
    let mut i: usize = 0;
    while i < planes.len()
        invariant
            i <= planes.len(),
            d == dots.deep_view(),
            d.len() == dots@.len(),
            planes@ == distinct_planes(node.brush_list@, true, node.brush_list@.len()),
            near@.len() == i,
            forall|a: int|
                0 <= a < i ==> (#[trigger] planes@[a]) < d.len() && planes@[a] < distances@.len(),
            forall|a: int| 0 <= a < i ==> (#[trigger] near@[a]) == spec_nearest_direction(d[planes@[a] as int]),
        decreases planes.len() - i,
    {
        let p = planes[i];
        if p >= dots.len() || p >= distances.len() {
            assert(!(planes@[i as int] < d.len() && planes@[i as int] < distances@.len()));
            return Err(BuildError::BrokenTable);
        }
        assert(d[p as int] == dots@[p as int].deep_view());
        assert(d[p as int] =~= dots@[p as int]@);
        near.push(nearest_direction(&dots[p]));
        i = i + 1;
    }
    assert(planes_known(planes@, d, distances@));
    let mut found: Vec<usize> = Vec::new();
    let mut k: usize = 0;
    while k < directions
        invariant
            k <= directions,
            near@.len() == planes@.len(),
            planes_known(planes@, d, distances@),
            forall|a: int|
                0 <= a < planes@.len() ==> (#[trigger] near@[a]) == spec_nearest_direction(
                    d[planes@[a] as int],
                ),
            found@ == medians(planes@, d, distances@, k as nat),
        decreases directions - k,
    {
        let mut here: Vec<usize> = Vec::new();
        let mut a: usize = 0;
        while a < planes.len()
            invariant
                a <= planes.len(),
                near@.len() == planes@.len(),
                planes_known(planes@, d, distances@),
                forall|b: int|
                    0 <= b < planes@.len() ==> (#[trigger] near@[b]) == spec_nearest_direction(
                        d[planes@[b] as int],
                    ),
                here@ == bucket(planes@, d, k, a as nat),
                forall|b: int| 0 <= b < here@.len() ==> (#[trigger] here@[b]) < distances@.len(),
            decreases planes.len() - a,
        {
            let is_near = match near[a] {
                Some(direction) => direction == k,
                None => false,
            };
            assert(planes@[a as int] < distances@.len());
            if is_near {
                here.push(planes[a]);
            }
            a = a + 1;
        }
        if here.len() > 0 {
            let sorted = sort_by_distance(&here, distances);
            found.push(sorted[here.len() / 2]);
        }
        k = k + 1;
    }
    Ok(found)
}

} // verus!
