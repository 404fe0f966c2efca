use vstd::prelude::*;
use crate::builder::coord_bins::cell;
use crate::builder::{append_copy, BuildError, Triangle};
use crate::float::Side;
use crate::types::{BoxF, Point3F, F32};

verus! {

/// The least box around a triangle.
pub open spec fn triangle_box(t: Triangle) -> BoxF {
    BoxF {
        min: t.verts@[0].spec_min(t.verts@[1]).spec_min(t.verts@[2]),
        max: t.verts@[0].spec_max(t.verts@[1]).spec_max(t.verts@[2]),
    }
}

/// The least box around a triangle.
pub fn box_of(t: &Triangle) -> (r: BoxF)
    ensures
        r == triangle_box(*t),
{
    BoxF {
        min: t.verts[0].min(t.verts[1]).min(t.verts[2]),
        max: t.verts[0].max(t.verts[1]).max(t.verts[2]),
    }
}

/// Triangles that lie together, with the box around them.
#[derive(Clone, Debug, PartialEq, Eq)]
pub struct PolyGroup {
    pub min: Point3F,
    pub max: Point3F,
    pub polys: Vec<usize>,
}

impl PolyGroup {
    /// The group of one triangle.
    pub fn of(polygon: &Triangle, poly_idx: usize) -> (r: PolyGroup)
        ensures
            r.min == triangle_box(*polygon).min,
            r.max == triangle_box(*polygon).max,
            r.polys@ == seq![poly_idx],
    {
        let b = box_of(polygon);
        let mut polys: Vec<usize> = Vec::new();
        polys.push(poly_idx);
        PolyGroup { min: b.min, max: b.max, polys }
    }

    /// Takes a triangle into the group: the box grows round its corners.
    pub fn add_polygon(&mut self, polygon: &Triangle, poly_idx: usize)
        ensures
            final(self).min == old(self).min.spec_min(polygon.verts@[0]).spec_min(
                polygon.verts@[1],
            ).spec_min(polygon.verts@[2]),
            final(self).max == old(self).max.spec_max(polygon.verts@[0]).spec_max(
                polygon.verts@[1],
            ).spec_max(polygon.verts@[2]),
            final(self).polys@ == old(self).polys@.push(poly_idx),
    {
        self.min = self.min.min(polygon.verts[0]).min(polygon.verts[1]).min(polygon.verts[2]);
        self.max = self.max.max(polygon.verts[0]).max(polygon.verts[1]).max(polygon.verts[2]);
        self.polys.push(poly_idx);
    }
}

/// Those of the first `n` triangles whose box overlaps the area when
/// looked at from above, by their index.
pub open spec fn triangles_over(brushes: Seq<Triangle>, area: BoxF, n: nat) -> Seq<usize>
    decreases n,
{
    if n == 0 {
        Seq::empty()
    } else {
        let rest = triangles_over(brushes, area, (n - 1) as nat);
        if area.spec_overlaps_xy(triangle_box(brushes[n - 1])) {
            rest.push((n - 1) as usize)
        } else {
            rest
        }
    }
}

/// The triangles of each of the 256 cells of the 16 by 16 grid whose
/// lines stand at `xs` and `ys`, 17 each way: a triangle is in every cell
/// that its box overlaps when looked at from above. Bin `i * 16 + j` is
/// the cell `(i, j)`.
pub fn bin_triangles(brushes: &Vec<Triangle>, xs: &Vec<F32>, ys: &Vec<F32>) -> (r: Result<
    Vec<Vec<usize>>,
    BuildError,
>)
    ensures
        match r {
            Err(e) => e == BuildError::BrokenTable && (xs@.len() != 17 || ys@.len() != 17),
            Ok(bins) => xs@.len() == 17 && ys@.len() == 17 && bins@.len() == 256 && forall|b: int|
                0 <= b < 256 ==> (#[trigger] bins@[b])@ == triangles_over(
                    brushes@,
                    cell(xs@, ys@, b / 16, b % 16),
                    brushes@.len(),
                ),
        },
{
    if xs.len() != 17 || ys.len() != 17 {
        return Err(BuildError::BrokenTable);
    }
    let mut bins: Vec<Vec<usize>> = Vec::new();
    let mut b: usize = 0;
    while b < 256
        invariant
            b <= 256,
            xs@.len() == 17,
            ys@.len() == 17,
            bins@.len() == b,
            forall|a: int|
                0 <= a < b ==> (#[trigger] bins@[a])@ == triangles_over(
                    brushes@,
                    cell(xs@, ys@, a / 16, a % 16),
                    brushes@.len(),
                ),
        decreases 256 - b,
    {
        let i = b / 16;
        let j = b % 16;
        let area = BoxF {
            min: Point3F { x: xs[i], y: ys[j], z: F32 { bits: 0 } },
            max: Point3F { x: xs[i + 1], y: ys[j + 1], z: F32 { bits: 0 } },
        };
        assert(area == cell(xs@, ys@, b as int / 16, b as int % 16));
        let mut list: Vec<usize> = Vec::new();
        let mut k: usize = 0;
        while k < brushes.len()
            invariant
                k <= brushes.len(),
                list@ == triangles_over(brushes@, area, k as nat),
            decreases brushes.len() - k,
        {
            let bounds = box_of(&brushes[k]);
            if area.overlaps_xy(&bounds) {
                list.push(k);
            }
            k = k + 1;
        }
        bins.push(list);
        b = b + 1;
    }
    Ok(bins)
}

/// Whether place `r` holds the greatest cost in the total order, and of
/// equal ones the last.
pub open spec fn costs_most(costs: Seq<F32>, r: int) -> bool {
    &&& 0 <= r < costs.len()
    &&& forall|i: int| 0 <= i < costs.len() ==> costs[i].total_key() <= costs[r].total_key()
    &&& forall|i: int| r < i < costs.len() ==> costs[i].total_key() < costs[r].total_key()
}

/// The place of the greatest cost in the total order; of equal ones the
/// last. There is none where there is no cost.
pub fn choose_group(costs: &Vec<F32>) -> (r: Option<usize>)
    ensures
        match r {
            Some(place) => costs_most(costs@, place as int),
            None => costs@.len() == 0,
        },
{
    if costs.len() == 0 {
        return None;
    }
    let mut best: usize = 0;
    let mut i: usize = 1;
    while i < costs.len()
        invariant
            1 <= i <= costs.len(),
            best < i,
            forall|a: int| 0 <= a < i ==> costs@[a].total_key() <= costs@[best as int].total_key(),
            forall|a: int| best < a < i ==> costs@[a].total_key() < costs@[best as int].total_key(),
        decreases costs.len() - i,
    {
        match costs[i].total_order(costs[best]) {
            Side::Less => {},
            _ => {
                best = i;
            },
        }
        i = i + 1;
    }
    Some(best)
}

/// A group after it has taken a triangle in.
pub open spec fn grown(group: PolyGroup, polygon: Triangle, poly_idx: usize, made: PolyGroup) -> bool {
    &&& made.min == group.min.spec_min(polygon.verts@[0]).spec_min(polygon.verts@[1]).spec_min(
        polygon.verts@[2],
    )
    &&& made.max == group.max.spec_max(polygon.verts@[0]).spec_max(polygon.verts@[1]).spec_max(
        polygon.verts@[2],
    )
    &&& made.polys@ == group.polys@.push(poly_idx)
}

/// Whether the groups are what they were with a triangle put where it
/// costs most: in a group of its own behind the others where `chosen` is
/// their number, else in the group `chosen`.
pub open spec fn placed(
    before: Seq<PolyGroup>,
    costs: Seq<F32>,
    polygon: Triangle,
    poly_idx: usize,
    chosen: usize,
    after: Seq<PolyGroup>,
) -> bool {
    &&& costs_most(costs, chosen as int)
    &&& chosen == before.len() ==> after.len() == before.len() + 1 && after.take(
        before.len() as int,
    ) == before && after[chosen as int].polys@ == seq![poly_idx] && after[chosen as int].min
        == triangle_box(polygon).min && after[chosen as int].max == triangle_box(polygon).max
    &&& chosen < before.len() ==> after.len() == before.len() && grown(
        before[chosen as int],
        polygon,
        poly_idx,
        after[chosen as int],
    ) && forall|g: int| 0 <= g < before.len() && g != chosen ==> after[g] == before[g]
}

/// Puts a triangle where it costs most: into the group whose cost is the
/// greatest, or into a group of its own where that costs most. `costs`
/// holds the cost of each group, and behind them the cost of a group of
/// its own. Of equal costs the last counts. With more or fewer costs
/// than that nothing is done.
pub fn place_polygon(groups: &mut Vec<PolyGroup>, costs: &Vec<F32>, polygon: &Triangle, poly_idx: usize) -> (r:
    Result<usize, BuildError>)
    ensures
        match r {
            Ok(chosen) => costs@.len() == old(groups)@.len() + 1 && placed(
                old(groups)@,
                costs@,
                *polygon,
                poly_idx,
                chosen,
                final(groups)@,
            ),
            Err(e) => e == BuildError::BrokenTable && costs@.len() != old(groups)@.len() + 1
                && *final(groups) == *old(groups),
        },
{
    if costs.len() == 0 || costs.len() - 1 != groups.len() {
        return Err(BuildError::BrokenTable);
    }
    let chosen = match choose_group(costs) {
        Some(chosen) => chosen,
        None => unreached(),
    };
    if chosen == groups.len() {
        let group = PolyGroup::of(polygon, poly_idx);
        groups.push(group);
        assert(groups@.take(old(groups)@.len() as int) =~= old(groups)@);
    } else {
        let mut polys: Vec<usize> = Vec::new();
        append_copy(&mut polys, &groups[chosen].polys);
        assert(polys@ =~= old(groups)@[chosen as int].polys@);
        let mut group = PolyGroup { min: groups[chosen].min, max: groups[chosen].max, polys };
        group.add_polygon(polygon, poly_idx);
        groups[chosen] = group;
    }
    Ok(chosen)
}

/// Those of the first `m` items that are triangles of the first `count`
/// and stand neither in `seen` nor before among the items.
pub open spec fn fresh(seen: Seq<usize>, items: Seq<usize>, count: nat, m: nat) -> Seq<usize>
    decreases m,
{
    if m == 0 {
        Seq::empty()
    } else {
        let rest = fresh(seen, items, count, (m - 1) as nat);
        let x = items[m - 1];
        if x < count && !seen.contains(x) && !rest.contains(x) {
            rest.push(x)
        } else {
            rest
        }
    }
}

/// The triangles that the first `n` groups name, each once.
pub open spec fn named(groups: Seq<Seq<usize>>, count: nat, n: nat) -> Seq<usize>
    decreases n,
{
    if n == 0 {
        Seq::empty()
    } else {
        let before = named(groups, count, (n - 1) as nat);
        before + fresh(before, groups[n - 1], count, groups[n - 1].len())
    }
}

/// The first `n` groups, each with the triangles that no group before it
/// names, and without those that are left with no triangle.
pub open spec fn deduped(groups: Seq<Seq<usize>>, count: nat, n: nat) -> Seq<Seq<usize>>
    decreases n,
{
    if n == 0 {
        Seq::empty()
    } else {
        let kept = fresh(named(groups, count, (n - 1) as nat), groups[n - 1], count, groups[n - 1].len());
        if kept.len() > 0 {
            deduped(groups, count, (n - 1) as nat).push(kept)
        } else {
            deduped(groups, count, (n - 1) as nat)
        }
    }
}

/// The groups as lists of numbers.
pub open spec fn groups_view(groups: Seq<Vec<usize>>) -> Seq<Seq<usize>> {
    Seq::new(groups.len(), |g: int| groups[g]@)
}

/// Triangles by group, each triangle in the first group that names it.
/// Groups that are left without a triangle are dropped, and so is what
/// is no triangle of the first `count`.
pub fn dedup_groups(groups: &Vec<Vec<usize>>, count: usize) -> (r: Vec<Vec<usize>>)
    ensures
        groups_view(r@) == deduped(groups_view(groups@), count as nat, groups@.len()),
{
    let ghost model = groups_view(groups@);
    let mut used: Vec<bool> = Vec::new();
    let mut i: usize = 0;
    while i < count
        invariant
            i <= count,
            used@.len() == i,
            forall|a: int| 0 <= a < i ==> !used@[a],
        decreases count - i,
    {
        used.push(false);
        i = i + 1;
    }
    let mut r: Vec<Vec<usize>> = Vec::new();
    let mut g: usize = 0;
    assert(groups_view(r@) =~= Seq::empty());
    while g < groups.len()
        invariant
            g <= groups.len(),
            model == groups_view(groups@),
            used@.len() == count,
            forall|x: int| 0 <= x < count ==> (#[trigger] used@[x]) == named(model, count as nat, g as nat).contains(
                x as usize,
            ),
            groups_view(r@) == deduped(model, count as nat, g as nat),
        decreases groups.len() - g,
    {
        let ghost seen = named(model, count as nat, g as nat);
        let ghost items = model[g as int];
        assert(items == groups@[g as int]@);
        let mut kept: Vec<usize> = Vec::new();
        let mut k: usize = 0;
        while k < groups[g].len()
            invariant
                k <= groups@[g as int]@.len(),
                g < groups@.len(),
                items == groups@[g as int]@,
                used@.len() == count,
                kept@ == fresh(seen, items, count as nat, k as nat),
                forall|x: int| 0 <= x < count ==> (#[trigger] used@[x]) == (seen.contains(x as usize)
                    || kept@.contains(x as usize)),
            decreases groups@[g as int]@.len() - k,
        {
            let x = groups[g][k];
            let ghost before = kept@;
            if x < count && !used[x] {
                used[x] = true;
                kept.push(x);
                assert(kept@[kept@.len() - 1] == x);
            }
            assert forall|y: int| 0 <= y < count implies (#[trigger] used@[y]) == (seen.contains(y as usize)
                || kept@.contains(y as usize)) by {
                if before.contains(y as usize) {
                    let w = choose|w: int| 0 <= w < before.len() && before[w] == y as usize;
                    assert(kept@[w] == y as usize);
                }
                if kept@.contains(y as usize) && y != x {
                    let w = choose|w: int| 0 <= w < kept@.len() && kept@[w] == y as usize;
                    assert(before[w] == y as usize);
                }
            }
            k = k + 1;
        }
        proof {
            let after = named(model, count as nat, g as nat + 1);
            assert(after == seen + kept@);
            assert forall|x: int| 0 <= x < count implies (#[trigger] used@[x]) == after.contains(
                x as usize,
            ) by {
                if seen.contains(x as usize) {
                    let w = choose|w: int| 0 <= w < seen.len() && seen[w] == x as usize;
                    assert(after[w] == x as usize);
                }
                if kept@.contains(x as usize) {
                    let w = choose|w: int| 0 <= w < kept@.len() && kept@[w] == x as usize;
                    assert(after[seen.len() + w] == x as usize);
                }
                if after.contains(x as usize) {
                    let w = choose|w: int| 0 <= w < after.len() && after[w] == x as usize;
                    if w < seen.len() {
                        assert(seen[w] == x as usize);
                    } else {
                        assert(kept@[w - seen.len()] == x as usize);
                    }
                }
            }
        }
        if kept.len() > 0 {
            let ghost before = groups_view(r@);
            r.push(kept);
            assert(groups_view(r@) =~= before.push(kept@));
        }
        g = g + 1;
    }
    r
}

/// No triangle stands twice in the groups that are left, each of them
/// holds a triangle, and each triangle is one of the first `count`.
pub proof fn lemma_deduped_apart(groups: Seq<Seq<usize>>, count: nat, n: nat)
    requires
        n <= groups.len(),
    ensures
        forall|g: int|
            0 <= g < deduped(groups, count, n).len() ==> (#[trigger] deduped(groups, count, n)[g]).len()
                > 0,
        forall|g: int, k: int|
            0 <= g < deduped(groups, count, n).len() && 0 <= k < deduped(groups, count, n)[g].len() ==> (
            #[trigger] deduped(groups, count, n)[g][k]) < count && named(groups, count, n).contains(
                deduped(groups, count, n)[g][k],
            ),
        forall|g: int, k: int, h: int, m: int|
            0 <= g < deduped(groups, count, n).len() && 0 <= k < deduped(groups, count, n)[g].len() && 0
                <= h < deduped(groups, count, n).len() && 0 <= m < deduped(groups, count, n)[h].len()
                && (g != h || k != m) ==> #[trigger] deduped(groups, count, n)[g][k]
                != #[trigger] deduped(groups, count, n)[h][m],
    decreases n,
{
    if n > 0 {
        lemma_deduped_apart(groups, count, (n - 1) as nat);
        let seen = named(groups, count, (n - 1) as nat);
        let items = groups[n - 1];
        let kept = fresh(seen, items, count, items.len());
        lemma_fresh(seen, items, count, items.len());
        let before = deduped(groups, count, (n - 1) as nat);
        let now = deduped(groups, count, n);
        let all = named(groups, count, n);
        assert(all == seen + kept);
        assert forall|x: usize| seen.contains(x) implies all.contains(x) by {
            let w = choose|w: int| 0 <= w < seen.len() && seen[w] == x;
            assert(all[w] == x);
        }
        assert forall|b: int| 0 <= b < kept.len() implies all.contains(#[trigger] kept[b]) by {
            assert(all[seen.len() + b] == kept[b]);
        }
        assert forall|g: int, k: int| 0 <= g < now.len() && 0 <= k < now[g].len() implies (
        #[trigger] now[g][k]) < count && all.contains(now[g][k]) by {
            if g < before.len() {
                assert(now[g] == before[g]);
                assert(seen.contains(before[g][k]));
            }
        }
        assert forall|g: int, k: int, h: int, m: int|
            0 <= g < now.len() && 0 <= k < now[g].len() && 0 <= h < now.len() && 0 <= m < now[h].len()
                && (g != h || k != m) implies #[trigger] now[g][k] != #[trigger] now[h][m] by {
            if g < before.len() && h < before.len() {
                assert(now[g] == before[g] && now[h] == before[h]);
            } else if g < before.len() {
                assert(now[g] == before[g]);
                assert(seen.contains(before[g][k]));
            } else if h < before.len() {
                assert(now[h] == before[h]);
                assert(seen.contains(before[h][m]));
            }
        }
    }
}

/// What is fresh is a triangle, is new, and stands once.
pub proof fn lemma_fresh(seen: Seq<usize>, items: Seq<usize>, count: nat, m: nat)
    requires
        m <= items.len(),
    ensures
        forall|b: int|
            0 <= b < fresh(seen, items, count, m).len() ==> (#[trigger] fresh(seen, items, count, m)[b])
                < count && !seen.contains(fresh(seen, items, count, m)[b]),
        forall|b: int, c: int|
            0 <= b < c < fresh(seen, items, count, m).len() ==> fresh(seen, items, count, m)[b] != fresh(
                seen,
                items,
                count,
                m,
            )[c],
    decreases m,
{
    if m > 0 {
        lemma_fresh(seen, items, count, (m - 1) as nat);
        let rest = fresh(seen, items, count, (m - 1) as nat);
        let now = fresh(seen, items, count, m);
        assert forall|b: int, c: int| 0 <= b < c < now.len() implies now[b] != now[c] by {
            if c == rest.len() {
                assert(rest[b] == now[b]);
                assert(rest.contains(rest[b]));
            }
        }
    }
}

} // verus!
