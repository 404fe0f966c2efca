use vstd::prelude::*;
use crate::builder::poly_list::{hull_poly_list, spec_hull_poly_list, HullPolyList, PolyListView};
use crate::builder::{append_copy, BuildError, DIFBuilder};
use crate::interior::{
    ConvexHull, EmitStringIndex, InteriorView, PlaneIndex, PointIndex, PolyListPlaneIndex,
    PolyListPointIndex, PolyListStringIndex, PortalIndex, StaticMeshIndex, Zone,
};
use crate::io::{count_of, list_count, no_items};
use crate::types::F32;

verus! {

/// The one zone of an interior with `surfaces` surfaces: it holds them
/// all, and no portal and no static mesh.
pub open spec fn whole_zone(surfaces: nat) -> Zone {
    Zone {
        portal_start: PortalIndex::of(0u16),
        portal_count: 0,
        surface_start: 0,
        surface_count: list_count(surfaces),
        static_mesh_start: StaticMeshIndex::of(0u32),
        static_mesh_count: 0,
        flags: 0,
    }
}

/// The tables of the poly lists of an interior, and its hulls with the
/// places of their poly lists.
pub ghost struct PolyTables {
    pub planes: Seq<PlaneIndex>,
    pub points: Seq<PointIndex>,
    pub bytes: Seq<u8>,
    pub hulls: Seq<ConvexHull>,
}

/// The planes as entries of the table of the interior.
pub open spec fn plane_entries(planes: Seq<u16>) -> Seq<PlaneIndex> {
    Seq::new(planes.len(), |i: int| PlaneIndex::of(planes[i]))
}

/// The points as entries of the table of the interior.
pub open spec fn point_entries(points: Seq<u32>) -> Seq<PointIndex> {
    Seq::new(points.len(), |i: int| PointIndex::of(points[i]))
}

/// A hull whose poly list starts at the end of the tables.
pub open spec fn placed(hull: ConvexHull, tables: PolyTables) -> ConvexHull {
    ConvexHull {
        poly_list_plane_start: PolyListPlaneIndex::of(list_count(tables.planes.len())),
        poly_list_point_start: PolyListPointIndex::of(list_count(tables.points.len())),
        poly_list_string_start: PolyListStringIndex::of(list_count(tables.bytes.len())),
        ..hull
    }
}

/// The tables that hold the poly lists of the first `n` hulls, one after
/// the other. Where a hull is refused, the tables are refused as that
/// hull is.
pub open spec fn poly_tables(x: InteriorView, dots: Seq<Seq<Seq<F32>>>, n: nat) -> Result<
    PolyTables,
    BuildError,
>
    decreases n,
{
    if n == 0 {
        Ok(
            PolyTables {
                planes: Seq::empty(),
                points: Seq::empty(),
                bytes: Seq::empty(),
                hulls: x.convex_hulls,
            },
        )
    } else {
        match poly_tables(x, dots, (n - 1) as nat) {
            Err(e) => Err(e),
            Ok(tables) => match spec_hull_poly_list(x, x.convex_hulls[n - 1], dots[n - 1]) {
                Err(e) => Err(e),
                Ok(list) => Ok(
                    PolyTables {
                        planes: tables.planes + plane_entries(list.planes),
                        points: tables.points + point_entries(list.points),
                        bytes: tables.bytes + list.bytes,
                        hulls: tables.hulls.update(n - 1, placed(x.convex_hulls[n - 1], tables)),
                    },
                ),
            },
        }
    }
}

/// The tables that hold the poly lists of all hulls. They are refused
/// where `dots` has no entry for each hull.
pub open spec fn spec_poly_lists(x: InteriorView, dots: Seq<Seq<Seq<F32>>>) -> Result<
    PolyTables,
    BuildError,
> {
    if dots.len() == x.convex_hulls.len() {
        poly_tables(x, dots, x.convex_hulls.len())
    } else {
        Err(BuildError::BrokenTable)
    }
}

/// Once a hull is refused, the tables are refused as it is.
pub proof fn lemma_poly_tables_failed(x: InteriorView, dots: Seq<Seq<Seq<F32>>>, m: nat, n: nat)
    requires
        m <= n,
        poly_tables(x, dots, m) is Err,
    ensures
        poly_tables(x, dots, n) == poly_tables(x, dots, m),
    decreases n,
{
    if m < n {
        lemma_poly_tables_failed(x, dots, m, (n - 1) as nat);
    }
}

/// Adds the planes to the table.
fn push_planes(to: &mut Vec<PlaneIndex>, from: &Vec<u16>)
    ensures
        final(to).deep_view() == old(to).deep_view() + plane_entries(from@),
{
    let mut k: usize = 0;
    assert(to.deep_view() =~= old(to).deep_view() + plane_entries(from@.take(0)));
    while k < from.len()
        invariant
            k <= from.len(),
            to.deep_view() == old(to).deep_view() + plane_entries(from@.take(k as int)),
        decreases from.len() - k,
    {
        let ghost now = to.deep_view();
        to.push(PlaneIndex::new(from[k]));
        assert(to.deep_view() =~= now.push(PlaneIndex::of(from@[k as int])));
        assert(to.deep_view() =~= old(to).deep_view() + plane_entries(from@.take(k + 1)));
        k = k + 1;
    }
    assert(from@.take(k as int) =~= from@);
}

/// Adds the points to the table.
fn push_points(to: &mut Vec<PointIndex>, from: &Vec<u32>)
    ensures
        final(to).deep_view() == old(to).deep_view() + point_entries(from@),
{
    let mut k: usize = 0;
    assert(to.deep_view() =~= old(to).deep_view() + point_entries(from@.take(0)));
    while k < from.len()
        invariant
            k <= from.len(),
            to.deep_view() == old(to).deep_view() + point_entries(from@.take(k as int)),
        decreases from.len() - k,
    {
        let ghost now = to.deep_view();
        to.push(PointIndex::new(from[k]));
        assert(to.deep_view() =~= now.push(PointIndex::of(from@[k as int])));
        assert(to.deep_view() =~= old(to).deep_view() + point_entries(from@.take(k + 1)));
        k = k + 1;
    }
    assert(from@.take(k as int) =~= from@);
}

impl DIFBuilder {
    /// Adds the one zone that holds all surfaces.
    pub fn add_zone(&mut self)
        ensures
            final(self).same_but_interior(old(self)),
            final(self).interior.deep_view() == (InteriorView {
                zones: old(self).interior.deep_view().zones.push(
                    whole_zone(old(self).interior.surfaces@.len()),
                ),
                ..old(self).interior.deep_view()
            }),
    {
        let ghost before = self.interior.deep_view();
        let zone = Zone {
            portal_start: PortalIndex::new(0),
            portal_count: 0,
            surface_start: 0,
            surface_count: count_of(self.interior.surfaces.len()),
            static_mesh_start: StaticMeshIndex::new(0),
            static_mesh_count: 0,
            flags: 0,
        };
        self.interior.zones.push(zone);
        proof {
            assert(self.interior.zones.deep_view() =~= before.zones.push(zone));
        }
    }

    /// Adds the one entry that an interior for Marble Blast holds in each
    /// of the tables of poly lists, hull planes and emit strings.
    pub fn add_marble_blast_stubs(&mut self)
        ensures
            final(self).same_but_interior(old(self)),
            ({
                let before = old(self).interior.deep_view();
                final(self).interior.deep_view() == (InteriorView {
                    poly_list_plane_indices: before.poly_list_plane_indices.push(
                        PlaneIndex::of(0u16),
                    ),
                    poly_list_point_indices: before.poly_list_point_indices.push(
                        PointIndex::of(0u32),
                    ),
                    poly_list_string_characters: before.poly_list_string_characters.push(0u8),
                    hull_plane_indices: before.hull_plane_indices.push(PlaneIndex::of(0u16)),
                    hull_emit_string_indices: before.hull_emit_string_indices.push(
                        EmitStringIndex::of(0u32),
                    ),
                    convex_hull_emit_string_characters: before.convex_hull_emit_string_characters.push(
                        0u8,
                    ),
                    ..before
                })
            }),
    {
        let ghost before = self.interior.deep_view();
        self.interior.poly_list_plane_indices.push(PlaneIndex::new(0));
        self.interior.poly_list_point_indices.push(PointIndex::new(0));
        self.interior.poly_list_string_characters.push(0);
        self.interior.hull_plane_indices.push(PlaneIndex::new(0));
        self.interior.hull_emit_string_indices.push(EmitStringIndex::new(0));
        self.interior.convex_hull_emit_string_characters.push(0);
        proof {
            let after = self.interior.deep_view();
            assert(after.poly_list_plane_indices =~= before.poly_list_plane_indices.push(
                PlaneIndex::of(0u16),
            ));
            assert(after.poly_list_point_indices =~= before.poly_list_point_indices.push(
                PointIndex::of(0u32),
            ));
            assert(after.poly_list_string_characters =~= before.poly_list_string_characters.push(
                0u8,
            ));
            assert(after.hull_plane_indices =~= before.hull_plane_indices.push(PlaneIndex::of(0u16)));
            assert(after.hull_emit_string_indices =~= before.hull_emit_string_indices.push(
                EmitStringIndex::of(0u32),
            ));
            assert(after.convex_hull_emit_string_characters
                =~= before.convex_hull_emit_string_characters.push(0u8));
        }
    }

    /// Makes the poly list of every hull anew. `dots` holds for each hull
    /// the dot products of the normals of its planes, in the order in
    /// which its surfaces first name them. Where a hull is refused, or
    /// `dots` has no entry for each hull, nothing changes.
    pub fn process_hull_poly_lists(&mut self, dots: &Vec<Vec<Vec<F32>>>) -> (r: Result<(), BuildError>)
        ensures
            final(self).same_but_interior(old(self)),
            match spec_poly_lists(old(self).interior.deep_view(), dots.deep_view()) {
                Err(e) => r == Err::<(), BuildError>(e) && *final(self) == *old(self),
                Ok(tables) => r is Ok && final(self).interior.deep_view() == (InteriorView {
                    convex_hulls: tables.hulls,
                    poly_list_plane_indices: tables.planes,
                    poly_list_point_indices: tables.points,
                    poly_list_string_characters: tables.bytes,
                    ..old(self).interior.deep_view()
                }),
            },
    {
        let ghost before = self.interior.deep_view();
        let ghost d = dots.deep_view();
        let n = self.interior.convex_hulls.len();
        assert(d.len() == dots@.len());
        if dots.len() != n {
            return Err(BuildError::BrokenTable);
        }
        // The lists are made before anything is changed.
        let mut lists: Vec<HullPolyList> = Vec::new();
        let mut h: usize = 0;
        while h < n
            invariant
                h <= n,
                n == self.interior.convex_hulls@.len(),
                n == before.convex_hulls.len(),
                d == dots.deep_view(),
                dots@.len() == n,
                *self == *old(self),
                before == self.interior.deep_view(),
                lists@.len() == h,
                poly_tables(before, d, h as nat) is Ok,
                forall|k: int|
                    0 <= k < h ==> spec_hull_poly_list(before, before.convex_hulls[k], d[k]) == Ok::<
                        PolyListView,
                        BuildError,
                    >((#[trigger] lists@[k])@),
            decreases n - h,
        {
            assert(before.convex_hulls[h as int] == self.interior.convex_hulls@[h as int]);
            assert(d[h as int] == dots@[h as int].deep_view());
            match hull_poly_list(&self.interior, &self.interior.convex_hulls[h], &dots[h]) {
                Ok(list) => {
                    lists.push(list);
                },
                Err(e) => {
                    proof {
                        lemma_poly_tables_failed(before, d, h as nat + 1, n as nat);
                    }
                    return Err(e);
                },
            }
            h = h + 1;
        }
        self.interior.poly_list_plane_indices = no_items();
        self.interior.poly_list_point_indices = no_items();
        self.interior.poly_list_string_characters = no_items();
        let mut h: usize = 0;
        while h < n
            invariant
                h <= n,
                lists@.len() == n,
                n == before.convex_hulls.len(),
                self.same_but_interior(old(self)),
                self.interior.convex_hulls@.len() == n,
                forall|k: int|
                    0 <= k < n ==> spec_hull_poly_list(before, before.convex_hulls[k], d[k]) == Ok::<
                        PolyListView,
                        BuildError,
                    >((#[trigger] lists@[k])@),
                forall|k: int|
                    h <= k < n ==> self.interior.deep_view().convex_hulls[k] == before.convex_hulls[k],
                poly_tables(before, d, h as nat) == Ok::<PolyTables, BuildError>(
                    PolyTables {
                        planes: self.interior.deep_view().poly_list_plane_indices,
                        points: self.interior.deep_view().poly_list_point_indices,
                        bytes: self.interior.deep_view().poly_list_string_characters,
                        hulls: self.interior.deep_view().convex_hulls,
                    },
                ),
                self.interior.deep_view() == (InteriorView {
                    convex_hulls: self.interior.deep_view().convex_hulls,
                    poly_list_plane_indices: self.interior.deep_view().poly_list_plane_indices,
                    poly_list_point_indices: self.interior.deep_view().poly_list_point_indices,
                    poly_list_string_characters: self.interior.deep_view().poly_list_string_characters,
                    ..before
                }),
            decreases n - h,
        {
            let ghost now = self.interior.deep_view();
            let ghost tables = PolyTables {
                planes: now.poly_list_plane_indices,
                points: now.poly_list_point_indices,
                bytes: now.poly_list_string_characters,
                hulls: now.convex_hulls,
            };
            let mut hull = self.interior.convex_hulls[h];
            assert(hull == now.convex_hulls[h as int]);
            hull.poly_list_plane_start = PolyListPlaneIndex::new(
                count_of(self.interior.poly_list_plane_indices.len()),
            );
            hull.poly_list_point_start = PolyListPointIndex::new(
                count_of(self.interior.poly_list_point_indices.len()),
            );
            hull.poly_list_string_start = PolyListStringIndex::new(
                count_of(self.interior.poly_list_string_characters.len()),
            );
            assert(hull == placed(before.convex_hulls[h as int], tables));
            self.interior.convex_hulls[h] = hull;
            assert(self.interior.deep_view().convex_hulls =~= now.convex_hulls.update(h as int, hull));
            let list = &lists[h];
            push_planes(&mut self.interior.poly_list_plane_indices, &list.planes);
            push_points(&mut self.interior.poly_list_point_indices, &list.points);
            append_copy(&mut self.interior.poly_list_string_characters, &list.bytes);
            proof {
                let after = self.interior.deep_view();
                assert(after.poly_list_string_characters =~= now.poly_list_string_characters
                    + list.bytes@);
                assert(spec_hull_poly_list(before, before.convex_hulls[h as int], d[h as int]) == Ok::<
                    PolyListView,
                    BuildError,
                >(lists@[h as int]@));
            }
            h = h + 1;
        }
        Ok(())
    }
}

} // verus!
