use vstd::prelude::*;
use crate::builder::{low16, low16_of, BuildError, DIFBuilder};
use crate::interior::{ConvexHull, ConvexHullIndex, CoordBin, CoordBinIndex, InteriorView};
use crate::io::{count_of, list_count, no_items};
use crate::types::{BoxF, Point3F, F32};

verus! {

/// The cell `(i, j)` of a grid whose lines stand at `xs` and `ys`, as a
/// box without height.
pub open spec fn cell(xs: Seq<F32>, ys: Seq<F32>, i: int, j: int) -> BoxF {
    BoxF {
        min: Point3F { x: xs[i], y: ys[j], z: F32 { bits: 0 } },
        max: Point3F { x: xs[i + 1], y: ys[j + 1], z: F32 { bits: 0 } },
    }
}

/// The bounds of a hull.
pub open spec fn hull_box(hull: ConvexHull) -> BoxF {
    BoxF {
        min: Point3F { x: hull.min_x, y: hull.min_y, z: hull.min_z },
        max: Point3F { x: hull.max_x, y: hull.max_y, z: hull.max_z },
    }
}

/// Those of the first `n` hulls whose bounds overlap the box when looked
/// at from above, by their index.
pub open spec fn overlapping(hulls: Seq<ConvexHull>, area: BoxF, n: nat) -> Seq<ConvexHullIndex>
    decreases n,
{
    if n == 0 {
        Seq::empty()
    } else {
        let rest = overlapping(hulls, area, (n - 1) as nat);
        if area.spec_overlaps_xy(hull_box(hulls[n - 1])) {
            rest.push(ConvexHullIndex::of(low16((n - 1) as nat)))
        } else {
            rest
        }
    }
}

/// The hulls of the first `b` bins of the grid, bin after bin. Bin
/// `i * 16 + j` is the cell `(i, j)`.
pub open spec fn bin_hulls(hulls: Seq<ConvexHull>, xs: Seq<F32>, ys: Seq<F32>, b: nat) -> Seq<
    ConvexHullIndex,
>
    decreases b,
{
    if b == 0 {
        Seq::empty()
    } else {
        bin_hulls(hulls, xs, ys, (b - 1) as nat) + overlapping(
            hulls,
            cell(xs, ys, (b - 1) / 16, (b - 1) % 16),
            hulls.len(),
        )
    }
}

/// The first `b` bins of the grid, where `before` hull indices stand in
/// the table before those of the grid.
pub open spec fn bins(hulls: Seq<ConvexHull>, xs: Seq<F32>, ys: Seq<F32>, before: nat, b: nat) -> Seq<
    CoordBin,
>
    decreases b,
{
    if b == 0 {
        Seq::empty()
    } else {
        bins(hulls, xs, ys, before, (b - 1) as nat).push(
            CoordBin {
                bin_start: CoordBinIndex::of(
                    list_count(before + bin_hulls(hulls, xs, ys, (b - 1) as nat).len()),
                ),
                bin_count: list_count(
                    overlapping(hulls, cell(xs, ys, (b - 1) / 16, (b - 1) % 16), hulls.len()).len(),
                ),
            },
        )
    }
}

/// There are as many bins as were asked for.
pub proof fn lemma_bins_len(hulls: Seq<ConvexHull>, xs: Seq<F32>, ys: Seq<F32>, before: nat, b: nat)
    ensures
        bins(hulls, xs, ys, before, b).len() == b,
    decreases b,
{
    if b > 0 {
        lemma_bins_len(hulls, xs, ys, before, (b - 1) as nat);
    }
}

impl DIFBuilder {
    /// Makes the 256 bins of the 16 by 16 grid whose lines stand at `xs`
    /// and `ys`, 17 each way. Each bin gets the hulls whose bounds overlap
    /// its cell when looked at from above. Bins that were there are
    /// dropped. With other than 17 lines each way nothing is done.
    pub fn export_coord_bins(&mut self, xs: &Vec<F32>, ys: &Vec<F32>) -> (r: Result<(), BuildError>)
        ensures
            final(self).same_but_interior(old(self)),
            match r {
                Err(e) => e == BuildError::BrokenTable && (xs@.len() != 17 || ys@.len() != 17)
                    && *final(self) == *old(self),
                Ok(_) => {
                    let before = old(self).interior.deep_view();
                    &&& xs@.len() == 17 && ys@.len() == 17
                    &&& final(self).interior.deep_view() == (InteriorView {
                        coord_bins: bins(
                            before.convex_hulls,
                            xs@,
                            ys@,
                            before.coord_bin_indices.len(),
                            256,
                        ),
                        coord_bin_indices: before.coord_bin_indices + bin_hulls(
                            before.convex_hulls,
                            xs@,
                            ys@,
                            256,
                        ),
                        ..before
                    })
                    &&& final(self).interior.deep_view().coord_bins.len() == 256
                },
            },
    {
        if xs.len() != 17 || ys.len() != 17 {
            return Err(BuildError::BrokenTable);
        }
        let ghost before = self.interior.deep_view();
        let ghost hulls = before.convex_hulls;
        let ghost start = before.coord_bin_indices.len();
        self.interior.coord_bins = no_items();
        let mut b: usize = 0;
        proof {
            assert(before.coord_bin_indices + bin_hulls(hulls, xs@, ys@, 0)
                =~= before.coord_bin_indices);
            assert(self.interior.coord_bin_indices.deep_view() =~= before.coord_bin_indices);
        }
        while b < 256
            invariant
                b <= 256,
                xs@.len() == 17,
                ys@.len() == 17,
                self.same_but_interior(old(self)),
                hulls == before.convex_hulls,
                start == before.coord_bin_indices.len(),
                self.interior.deep_view() == (InteriorView {
                    coord_bins: bins(hulls, xs@, ys@, start, b as nat),
                    coord_bin_indices: before.coord_bin_indices + bin_hulls(hulls, xs@, ys@, b as nat),
                    ..before
                }),
            decreases 256 - b,
        {
            let i = b / 16;
            let j = b % 16;
            let area = BoxF {
                min: Point3F { x: xs[i], y: ys[j], z: F32 { bits: 0 } },
                max: Point3F { x: xs[i + 1], y: ys[j + 1], z: F32 { bits: 0 } },
            };
            assert(area == cell(xs@, ys@, i as int, j as int));
            let ghost so_far = self.interior.deep_view().coord_bin_indices;
            let ghost bins_so_far = self.interior.deep_view().coord_bins;
            let bin_start = CoordBinIndex::new(count_of(self.interior.coord_bin_indices.len()));
            let mut count: usize = 0;
            let n = self.interior.convex_hulls.len();
            let mut k: usize = 0;
            proof {
                assert(so_far + overlapping(hulls, area, 0) =~= so_far);
            }
            while k < n
                invariant
                    k <= n,
                    n == hulls.len(),
                    self.same_but_interior(old(self)),
                    hulls == before.convex_hulls,
                    count == overlapping(hulls, area, k as nat).len(),
                    count <= k,
                    self.interior.deep_view() == (InteriorView {
                        coord_bins: bins_so_far,
                        coord_bin_indices: so_far + overlapping(hulls, area, k as nat),
                        ..before
                    }),
                decreases n - k,
            {
                let hull = &self.interior.convex_hulls[k];
                let bounds = BoxF {
                    min: Point3F { x: hull.min_x, y: hull.min_y, z: hull.min_z },
                    max: Point3F { x: hull.max_x, y: hull.max_y, z: hull.max_z },
                };
                assert(bounds == hull_box(hulls[k as int])) by {
                    assert(self.interior.convex_hulls.deep_view()[k as int]
                        == self.interior.convex_hulls@[k as int]);
                }
                if area.overlaps_xy(&bounds) {
                    let index = ConvexHullIndex::new(low16_of(k));
                    let ghost listed = self.interior.coord_bin_indices.deep_view();
                    self.interior.coord_bin_indices.push(index);
                    count = count + 1;
                    proof {
                        assert(self.interior.coord_bin_indices.deep_view() =~= listed.push(index));
                        assert(so_far + overlapping(hulls, area, (k + 1) as nat) =~= (so_far
                            + overlapping(hulls, area, k as nat)).push(index));
                    }
                }
                k = k + 1;
            }
            let bin = CoordBin { bin_start, bin_count: count_of(count) };
            let ghost listed = self.interior.coord_bins.deep_view();
            self.interior.coord_bins.push(bin);
            proof {
                assert(self.interior.coord_bins.deep_view() =~= listed.push(bin));
                assert(so_far.len() == start + bin_hulls(hulls, xs@, ys@, b as nat).len());
                assert(before.coord_bin_indices + bin_hulls(hulls, xs@, ys@, (b + 1) as nat)
                    =~= so_far + overlapping(hulls, area, n as nat));
            }
            b = b + 1;
        }
        proof {
            lemma_bins_len(hulls, xs@, ys@, start, 256);
        }
        Ok(())
    }
}

/// Of the lines of one axis of the grid, two that follow each other take
/// the stretch from `lo` to `hi` between them or touch it, where the
/// stretch lies inside the grid.
pub proof fn lemma_axis_overlap(lines: Seq<F32>, lo: F32, hi: F32, n: int)
    requires
        lines.len() == 17,
        0 <= n <= 15,
        forall|i: int| 0 <= i < 17 ==> !(#[trigger] lines[i]).spec_is_nan(),
        !lo.spec_is_nan() && !hi.spec_is_nan(),
        lo.spec_le(hi),
        lines[0].spec_le(hi),
        lo.spec_le(lines[16]),
        forall|i: int| n < i <= 15 ==> hi.spec_lt(#[trigger] lines[i]),
    ensures
        exists|i: int|
            0 <= i <= 15 && !hi.spec_lt(#[trigger] lines[i]) && !lines[i + 1].spec_lt(lo),
    decreases n,
{
    if !hi.spec_lt(lines[n]) {
        if n < 15 {
            assert(hi.spec_lt(lines[n + 1]));
        }
        assert(!lines[n + 1].spec_lt(lo));
    } else {
        lemma_axis_overlap(lines, lo, hi, n - 1);
    }
}

/// A hull that overlaps a cell is among the hulls of that cell.
pub proof fn lemma_overlapping_has(hulls: Seq<ConvexHull>, area: BoxF, n: nat, k: int)
    requires
        0 <= k < n <= hulls.len(),
        area.spec_overlaps_xy(hull_box(hulls[k])),
    ensures
        overlapping(hulls, area, n).contains(ConvexHullIndex::of(low16(k as nat))),
    decreases n,
{
    let now = overlapping(hulls, area, n);
    if k == n - 1 {
        assert(now[now.len() - 1] == ConvexHullIndex::of(low16(k as nat)));
    } else {
        lemma_overlapping_has(hulls, area, (n - 1) as nat, k);
        let rest = overlapping(hulls, area, (n - 1) as nat);
        let w = choose|w: int| 0 <= w < rest.len() && rest[w] == ConvexHullIndex::of(low16(k as nat));
        assert(now[w] == rest[w]);
    }
}

/// Every hull whose bounds lie inside the grid is in a bin: the bins
/// cover the hulls.
pub proof fn lemma_bins_cover(hulls: Seq<ConvexHull>, xs: Seq<F32>, ys: Seq<F32>, k: int)
    requires
        xs.len() == 17,
        ys.len() == 17,
        0 <= k < hulls.len(),
        forall|i: int| 0 <= i < 17 ==> !(#[trigger] xs[i]).spec_is_nan(),
        forall|i: int| 0 <= i < 17 ==> !(#[trigger] ys[i]).spec_is_nan(),
        hulls[k].min_x.spec_le(hulls[k].max_x),
        hulls[k].min_y.spec_le(hulls[k].max_y),
        xs[0].spec_le(hulls[k].max_x),
        hulls[k].min_x.spec_le(xs[16]),
        ys[0].spec_le(hulls[k].max_y),
        hulls[k].min_y.spec_le(ys[16]),
    ensures
        exists|i: int, j: int|
            0 <= i <= 15 && 0 <= j <= 15 && #[trigger] overlapping(
                hulls,
                cell(xs, ys, i, j),
                hulls.len(),
            ).contains(ConvexHullIndex::of(low16(k as nat))),
{
    let hull = hulls[k];
    lemma_axis_overlap(xs, hull.min_x, hull.max_x, 15);
    lemma_axis_overlap(ys, hull.min_y, hull.max_y, 15);
    let i = choose|i: int|
        0 <= i <= 15 && !hull.max_x.spec_lt(#[trigger] xs[i]) && !xs[i + 1].spec_lt(hull.min_x);
    let j = choose|j: int|
        0 <= j <= 15 && !hull.max_y.spec_lt(#[trigger] ys[j]) && !ys[j + 1].spec_lt(hull.min_y);
    assert(cell(xs, ys, i, j).spec_overlaps_xy(hull_box(hull)));
    lemma_overlapping_has(hulls, cell(xs, ys, i, j), hulls.len(), k);
}

/// The hulls that are listed for a box are hulls that overlap it, each
/// once and with rising index, as long as there are no more than
/// `0x10000` hulls.
pub proof fn lemma_overlapping_listed(hulls: Seq<ConvexHull>, area: BoxF, n: nat)
    requires
        n <= hulls.len(),
        n <= 0x1_0000,
    ensures
        overlapping(hulls, area, n).len() <= n,
        forall|w: int|
            0 <= w < overlapping(hulls, area, n).len() ==> (#[trigger] overlapping(
                hulls,
                area,
                n,
            )[w]).value() < n && area.spec_overlaps_xy(
                hull_box(hulls[overlapping(hulls, area, n)[w].value() as int]),
            ),
        forall|a: int, b: int|
            0 <= a < b < overlapping(hulls, area, n).len() ==> overlapping(hulls, area, n)[a].value()
                < overlapping(hulls, area, n)[b].value(),
    decreases n,
{
    if n > 0 {
        lemma_overlapping_listed(hulls, area, (n - 1) as nat);
        let rest = overlapping(hulls, area, (n - 1) as nat);
        let now = overlapping(hulls, area, n);
        assert forall|w: int| 0 <= w < now.len() implies (#[trigger] now[w]).value() < n
            && area.spec_overlaps_xy(hull_box(hulls[now[w].value() as int])) by {
            if w < rest.len() {
                assert(now[w] == rest[w]);
            }
        }
        assert forall|a: int, b: int| 0 <= a < b < now.len() implies now[a].value() < now[b].value() by {
            assert(now[a] == rest[a]);
            if b < rest.len() {
                assert(now[b] == rest[b]);
            }
        }
    }
}

/// A hull is listed for a box if and only if its bounds overlap the box
/// when looked at from above, as long as there are no more than `0x10000`
/// hulls.
pub proof fn lemma_overlapping_exact(hulls: Seq<ConvexHull>, area: BoxF, k: int)
    requires
        0 <= k < hulls.len(),
        hulls.len() <= 0x1_0000,
    ensures
        overlapping(hulls, area, hulls.len()).contains(ConvexHullIndex::of(low16(k as nat)))
            <==> area.spec_overlaps_xy(hull_box(hulls[k])),
{
    let listed = overlapping(hulls, area, hulls.len());
    if area.spec_overlaps_xy(hull_box(hulls[k])) {
        lemma_overlapping_has(hulls, area, hulls.len(), k);
    }
    if listed.contains(ConvexHullIndex::of(low16(k as nat))) {
        lemma_overlapping_listed(hulls, area, hulls.len());
        let w = choose|w: int| 0 <= w < listed.len() && listed[w] == ConvexHullIndex::of(low16(k as nat));
        assert(listed[w].value() == k);
    }
}

/// The hulls of the first bins stand at the front of the hulls of more
/// bins.
pub proof fn lemma_bin_hulls_front(hulls: Seq<ConvexHull>, xs: Seq<F32>, ys: Seq<F32>, k: nat, b: nat)
    requires
        k <= b,
    ensures
        bin_hulls(hulls, xs, ys, k).len() <= bin_hulls(hulls, xs, ys, b).len(),
        bin_hulls(hulls, xs, ys, b).subrange(0, bin_hulls(hulls, xs, ys, k).len() as int) == bin_hulls(
            hulls,
            xs,
            ys,
            k,
        ),
    decreases b,
{
    let front = bin_hulls(hulls, xs, ys, k);
    if k == b {
        assert(front.subrange(0, front.len() as int) =~= front);
    } else {
        lemma_bin_hulls_front(hulls, xs, ys, k, (b - 1) as nat);
        let less = bin_hulls(hulls, xs, ys, (b - 1) as nat);
        let all = bin_hulls(hulls, xs, ys, b);
        assert(all.subrange(0, front.len() as int) =~= less.subrange(0, front.len() as int));
    }
}

/// Bin `k` of the grid says where its hulls start and how many they are.
pub proof fn lemma_bin_at(hulls: Seq<ConvexHull>, xs: Seq<F32>, ys: Seq<F32>, before: nat, b: nat, k: int)
    requires
        0 <= k < b,
    ensures
        bins(hulls, xs, ys, before, b).len() == b,
        bins(hulls, xs, ys, before, b)[k] == (CoordBin {
            bin_start: CoordBinIndex::of(
                list_count(before + bin_hulls(hulls, xs, ys, k as nat).len()),
            ),
            bin_count: list_count(overlapping(hulls, cell(xs, ys, k / 16, k % 16), hulls.len()).len()),
        }),
    decreases b,
{
    lemma_bins_len(hulls, xs, ys, before, b);
    lemma_bins_len(hulls, xs, ys, before, (b - 1) as nat);
    if k < b - 1 {
        lemma_bin_at(hulls, xs, ys, before, (b - 1) as nat, k);
    }
}

/// What stands in the middle of a list stands in the middle of the list
/// behind a table.
pub proof fn lemma_middle(
    table: Seq<ConvexHullIndex>,
    whole: Seq<ConvexHullIndex>,
    front: Seq<ConvexHullIndex>,
    listed: Seq<ConvexHullIndex>,
)
    requires
        front.len() + listed.len() <= whole.len(),
        whole.subrange(0, (front.len() + listed.len()) as int) == front + listed,
    ensures
        (table + whole).subrange(
            (table.len() + front.len()) as int,
            (table.len() + front.len() + listed.len()) as int,
        ) == listed,
{
    let all = table + whole;
    let start = (table.len() + front.len()) as int;
    let end = (front.len() + listed.len()) as int;
    assert forall|w: int| 0 <= w < listed.len() implies all.subrange(start, start + listed.len())[w]
        == listed[w] by {
        assert(all[start + w] == whole[front.len() + w]);
        assert(whole.subrange(0, end)[front.len() + w] == (front + listed)[front.len() + w]);
    }
    assert(all.subrange(start, start + listed.len()) =~= listed);
}

/// The hulls of bin `k` stand in the table of the bins from the start of
/// the bin on, as many as the bin counts, and the next bin starts behind
/// them: the bins follow each other and take up the hulls of the grid
/// between them. `table` is what the table held before the grid. This
/// holds as long as the table stays within what a count can say.
pub proof fn lemma_bin_range(
    hulls: Seq<ConvexHull>,
    xs: Seq<F32>,
    ys: Seq<F32>,
    table: Seq<ConvexHullIndex>,
    b: nat,
    k: int,
)
    requires
        0 <= k < b,
        table.len() + bin_hulls(hulls, xs, ys, b).len() <= 0xFFFF_FFFF,
    ensures
        ({
            let bin = bins(hulls, xs, ys, table.len(), b)[k];
            let all = table + bin_hulls(hulls, xs, ys, b);
            let start = bin.bin_start.value() as int;
            let listed = overlapping(hulls, cell(xs, ys, k / 16, k % 16), hulls.len());
            &&& start == table.len() + bin_hulls(hulls, xs, ys, k as nat).len()
            &&& bin.bin_count == listed.len()
            &&& start + bin.bin_count == table.len() + bin_hulls(hulls, xs, ys, (k + 1) as nat).len()
            &&& start + bin.bin_count <= all.len()
            &&& all.subrange(start, start + bin.bin_count) == listed
        }),
{
    let whole = bin_hulls(hulls, xs, ys, b);
    let front = bin_hulls(hulls, xs, ys, k as nat);
    let more = bin_hulls(hulls, xs, ys, (k + 1) as nat);
    let listed = overlapping(hulls, cell(xs, ys, k / 16, k % 16), hulls.len());
    lemma_bin_at(hulls, xs, ys, table.len(), b, k);
    lemma_bin_hulls_front(hulls, xs, ys, (k + 1) as nat, b);
    assert(more == front + listed);
    assert(more.len() == front.len() + listed.len());
    lemma_middle(table, whole, front, listed);
}

/// Whether the table of the bins names the hull in the range of the bin.
pub open spec fn bin_holds(bin: CoordBin, table: Seq<ConvexHullIndex>, hull: ConvexHullIndex) -> bool {
    exists|w: int|
        bin.bin_start.value() <= w < bin.bin_start.value() + bin.bin_count && w < table.len()
            && #[trigger] table[w] == hull
}

/// Every hull whose bounds lie inside the grid stands in the range of a
/// bin in the table of the bins: the bins cover the hulls. This holds as
/// long as the table stays within what a count can say.
pub proof fn lemma_bins_cover_table(
    hulls: Seq<ConvexHull>,
    xs: Seq<F32>,
    ys: Seq<F32>,
    table: Seq<ConvexHullIndex>,
    k: int,
)
    requires
        xs.len() == 17,
        ys.len() == 17,
        0 <= k < hulls.len(),
        forall|i: int| 0 <= i < 17 ==> !(#[trigger] xs[i]).spec_is_nan(),
        forall|i: int| 0 <= i < 17 ==> !(#[trigger] ys[i]).spec_is_nan(),
        hulls[k].min_x.spec_le(hulls[k].max_x),
        hulls[k].min_y.spec_le(hulls[k].max_y),
        xs[0].spec_le(hulls[k].max_x),
        hulls[k].min_x.spec_le(xs[16]),
        ys[0].spec_le(hulls[k].max_y),
        hulls[k].min_y.spec_le(ys[16]),
        table.len() + bin_hulls(hulls, xs, ys, 256).len() <= 0xFFFF_FFFF,
    ensures
        exists|b: int|
            0 <= b < 256 && bin_holds(
                #[trigger] bins(hulls, xs, ys, table.len(), 256)[b],
                table + bin_hulls(hulls, xs, ys, 256),
                ConvexHullIndex::of(low16(k as nat)),
            ),
{
    lemma_bins_cover(hulls, xs, ys, k);
    let (i, j) = choose|i: int, j: int|
        0 <= i <= 15 && 0 <= j <= 15 && #[trigger] overlapping(
            hulls,
            cell(xs, ys, i, j),
            hulls.len(),
        ).contains(ConvexHullIndex::of(low16(k as nat)));
    let b = i * 16 + j;
    assert(b / 16 == i && b % 16 == j);
    lemma_bin_range(hulls, xs, ys, table, 256, b);
    let all = table + bin_hulls(hulls, xs, ys, 256);
    let bin = bins(hulls, xs, ys, table.len(), 256)[b];
    let listed = overlapping(hulls, cell(xs, ys, i, j), hulls.len());
    let at = choose|at: int| 0 <= at < listed.len() && listed[at] == ConvexHullIndex::of(low16(k as nat));
    let start = bin.bin_start.value() as int;
    assert(all.subrange(start, start + bin.bin_count)[at] == listed[at]);
    assert(all[start + at] == ConvexHullIndex::of(low16(k as nat)));
    assert(bin_holds(bin, all, ConvexHullIndex::of(low16(k as nat))));
}

} // verus!
