use vstd::prelude::*;
use crate::builder::{lemma_first_index_of, DIFBuilder};
use crate::interior::{
    Interior, InteriorView, NormalIndex, NullSurface, PlaneIndex, PointIndex, Surface, TexGenEq,
    TexGenIndex,
};
use crate::types::{PlaneF, Point3F};

verus! {

/// Whether a drawn surface refers to a plane, a winding, a material and a
/// texture equation that are there.
pub open spec fn surface_sound(x: InteriorView, s: Surface) -> bool {
    &&& (s.plane_index.value() & 0x7FFF) < x.planes.len()
    &&& s.winding_start.value() + s.winding_count <= x.indices.len()
    &&& s.texture_index.value() < x.material_names.len()
    &&& s.tex_gen_index.value() < x.tex_gen_eqs.len()
}

/// Whether a null surface refers to a plane and a winding that are there.
pub open spec fn null_surface_sound(x: InteriorView, s: NullSurface) -> bool {
    &&& (s.plane_index.value() & 0x7FFF) < x.planes.len()
    &&& s.winding_start.value() + s.winding_count <= x.indices.len()
}

/// Whether the tables of an interior refer to each other within their
/// bounds: each plane to a normal, each winding entry to a point, each
/// surface to its plane, its winding, its material and its texture
/// equation, and each surface of the zone to a surface; and each point
/// has its visibility.
pub open spec fn tables_sound(x: InteriorView) -> bool {
    &&& x.point_visibilities.len() == x.points.len()
    &&& forall|i: int|
        0 <= i < x.planes.len() ==> (#[trigger] x.planes[i]).normal_index.value() < x.normals.len()
    &&& forall|i: int| 0 <= i < x.indices.len() ==> (#[trigger] x.indices[i]).value() < x.points.len()
    &&& forall|i: int| 0 <= i < x.surfaces.len() ==> surface_sound(x, #[trigger] x.surfaces[i])
    &&& forall|i: int|
        0 <= i < x.null_surfaces.len() ==> null_surface_sound(x, #[trigger] x.null_surfaces[i])
    &&& forall|i: int|
        0 <= i < x.zone_surfaces.len() ==> (#[trigger] x.zone_surfaces[i]).value() < x.surfaces.len()
}

/// The tables of an interior without anything in it are sound.
pub proof fn lemma_empty_sound()
    ensures
        tables_sound(Interior::empty_view()),
{
}

/// A point more leaves the tables sound.
pub proof fn lemma_point_keeps_sound(x: InteriorView, point: Point3F)
    requires
        tables_sound(x),
    ensures
        tables_sound(DIFBuilder::with_point(x, point)),
{
    let y = DIFBuilder::with_point(x, point);
    assert forall|i: int| 0 <= i < y.surfaces.len() implies surface_sound(y, #[trigger] y.surfaces[i]) by {
        assert(surface_sound(x, x.surfaces[i]));
    }
    assert forall|i: int| 0 <= i < y.null_surfaces.len() implies null_surface_sound(
        y,
        #[trigger] y.null_surfaces[i],
    ) by {
        assert(null_surface_sound(x, x.null_surfaces[i]));
    }
}

/// A texture equation more leaves the tables sound.
pub proof fn lemma_tex_gen_keeps_sound(x: InteriorView, eq: TexGenEq)
    requires
        tables_sound(x),
    ensures
        tables_sound(DIFBuilder::with_tex_gen(x, eq)),
{
    let y = DIFBuilder::with_tex_gen(x, eq);
    assert forall|i: int| 0 <= i < y.surfaces.len() implies surface_sound(y, #[trigger] y.surfaces[i]) by {
        assert(surface_sound(x, x.surfaces[i]));
    }
    assert forall|i: int| 0 <= i < y.null_surfaces.len() implies null_surface_sound(
        y,
        #[trigger] y.null_surfaces[i],
    ) by {
        assert(null_surface_sound(x, x.null_surfaces[i]));
    }
}

/// A plane more leaves the tables sound, where its normal is there or
/// is added as one of fewer than `0x10000`.
pub proof fn lemma_plane_keeps_sound(
    x: InteriorView,
    plane: PlaneF,
    normal: Option<NormalIndex>,
    mb_only: bool,
)
    requires
        tables_sound(x),
        match normal {
            Some(index) => index.value() < x.normals.len(),
            None => x.normals.len() < 0x1_0000,
        },
    ensures
        tables_sound(DIFBuilder::with_plane(x, plane, normal, mb_only)),
{
    let y = DIFBuilder::with_plane(x, plane, normal, mb_only);
    assert forall|i: int| 0 <= i < y.planes.len() implies (#[trigger] y.planes[i]).normal_index.value()
        < y.normals.len() by {
        if i < x.planes.len() {
            assert(y.planes[i] == x.planes[i]);
        }
    }
    assert forall|i: int| 0 <= i < y.surfaces.len() implies surface_sound(y, #[trigger] y.surfaces[i]) by {
        assert(surface_sound(x, x.surfaces[i]));
    }
    assert forall|i: int| 0 <= i < y.null_surfaces.len() implies null_surface_sound(
        y,
        #[trigger] y.null_surfaces[i],
    ) by {
        assert(null_surface_sound(x, x.null_surfaces[i]));
    }
}

/// Whether a surface can be added: its plane, its texture equation and
/// its three corners are there, and the tables have room for it.
pub open spec fn surface_fits(
    x: InteriorView,
    plane_index: PlaneIndex,
    corners: Seq<PointIndex>,
) -> bool {
    &&& (plane_index.value() & 0x7FFF) < x.planes.len()
    &&& corners.len() == 3
    &&& forall|k: int| 0 <= k < 3 ==> (#[trigger] corners[k]).value() < x.points.len()
    &&& x.indices.len() + 3 <= 0xFFFF_FFFF
}

/// The drawn surface of a triangle more leaves the tables sound, where
/// what it refers to is there and the tables have room.
pub proof fn lemma_surface_keeps_sound(
    x: InteriorView,
    plane_index: PlaneIndex,
    tex_gen_index: TexGenIndex,
    corners: Seq<PointIndex>,
    material: Seq<char>,
)
    requires
        tables_sound(x),
        surface_fits(x, plane_index, corners),
        tex_gen_index.value() < x.tex_gen_eqs.len(),
        x.surfaces.len() < 0x1_0000,
        x.material_names.len() < 0x1_0000,
    ensures
        tables_sound(DIFBuilder::with_surface(x, plane_index, tex_gen_index, corners, material)),
{
    let y = DIFBuilder::with_surface(x, plane_index, tex_gen_index, corners, material);
    lemma_first_index_of(x.material_names, material);
    assert(x.material_names.len() <= y.material_names.len());
    assert forall|i: int| 0 <= i < y.indices.len() implies (#[trigger] y.indices[i]).value()
        < y.points.len() by {
        if i < x.indices.len() {
            assert(y.indices[i] == x.indices[i]);
        } else {
            assert(y.indices[i] == corners[i - x.indices.len()]);
        }
    }
    assert forall|i: int| 0 <= i < y.surfaces.len() implies surface_sound(y, #[trigger] y.surfaces[i]) by {
        if i < x.surfaces.len() {
            assert(y.surfaces[i] == x.surfaces[i]);
            assert(surface_sound(x, x.surfaces[i]));
        }
    }
    assert forall|i: int| 0 <= i < y.null_surfaces.len() implies null_surface_sound(
        y,
        #[trigger] y.null_surfaces[i],
    ) by {
        assert(null_surface_sound(x, x.null_surfaces[i]));
    }
    assert forall|i: int| 0 <= i < y.zone_surfaces.len() implies (#[trigger] y.zone_surfaces[i]).value()
        < y.surfaces.len() by {
        if i < x.zone_surfaces.len() {
            assert(y.zone_surfaces[i] == x.zone_surfaces[i]);
        }
    }
}

/// The null surface of a triangle more leaves the tables sound, where
/// what it refers to is there and the tables have room.
pub proof fn lemma_null_surface_keeps_sound(
    x: InteriorView,
    plane_index: PlaneIndex,
    corners: Seq<PointIndex>,
)
    requires
        tables_sound(x),
        surface_fits(x, plane_index, corners),
    ensures
        tables_sound(DIFBuilder::with_null_surface(x, plane_index, corners)),
{
    let y = DIFBuilder::with_null_surface(x, plane_index, corners);
    assert forall|i: int| 0 <= i < y.indices.len() implies (#[trigger] y.indices[i]).value()
        < y.points.len() by {
        if i < x.indices.len() {
            assert(y.indices[i] == x.indices[i]);
        } else {
            assert(y.indices[i] == corners[i - x.indices.len()]);
        }
    }
    assert forall|i: int| 0 <= i < y.surfaces.len() implies surface_sound(y, #[trigger] y.surfaces[i]) by {
        assert(surface_sound(x, x.surfaces[i]));
    }
    assert forall|i: int| 0 <= i < y.null_surfaces.len() implies null_surface_sound(
        y,
        #[trigger] y.null_surfaces[i],
    ) by {
        if i < x.null_surfaces.len() {
            assert(y.null_surfaces[i] == x.null_surfaces[i]);
            assert(null_surface_sound(x, x.null_surfaces[i]));
        }
    }
}

/// Whether a drawn surface refers to what is there.
fn surface_is_sound(interior: &Interior, s: &Surface) -> (b: bool)
    ensures
        b == surface_sound(interior.deep_view(), *s),
{
    let ghost x = interior.deep_view();
    assert(x.planes.len() == interior.planes@.len());
    assert(x.indices.len() == interior.indices@.len());
    assert(x.material_names.len() == interior.material_names@.len());
    assert(x.tex_gen_eqs.len() == interior.tex_gen_eqs@.len());
    ((s.plane_index.0 & 0x7FFF) as usize) < interior.planes.len() && s.winding_start.0 as u64
        + s.winding_count as u64 <= interior.indices.len() as u64 && (s.texture_index.0 as usize)
        < interior.material_names.len() && (s.tex_gen_index.0 as usize) < interior.tex_gen_eqs.len()
}

/// Whether a null surface refers to what is there.
fn null_surface_is_sound(interior: &Interior, s: &NullSurface) -> (b: bool)
    ensures
        b == null_surface_sound(interior.deep_view(), *s),
{
    let ghost x = interior.deep_view();
    assert(x.planes.len() == interior.planes@.len());
    assert(x.indices.len() == interior.indices@.len());
    ((s.plane_index.0 & 0x7FFF) as usize) < interior.planes.len() && s.winding_start.0 as u64
        + s.winding_count as u64 <= interior.indices.len() as u64
}

/// Whether the tables of an interior refer to each other within their
/// bounds.
pub fn tables_are_sound(interior: &Interior) -> (b: bool)
    ensures
        b == tables_sound(interior.deep_view()),
{
    let ghost x = interior.deep_view();
    assert(x.points.len() == interior.points@.len());
    assert(x.point_visibilities.len() == interior.point_visibilities@.len());
    assert(x.normals.len() == interior.normals@.len());
    assert(x.surfaces.len() == interior.surfaces@.len());
    if interior.point_visibilities.len() != interior.points.len() {
        return false;
    }
    let mut i: usize = 0;
    while i < interior.planes.len()
        invariant
            i <= interior.planes.len(),
            x == interior.deep_view(),
            x.planes.len() == interior.planes@.len(),
            x.normals.len() == interior.normals@.len(),
            forall|k: int| 0 <= k < i ==> (#[trigger] x.planes[k]).normal_index.value() < x.normals.len(),
        decreases interior.planes.len() - i,
    {
        assert(x.planes[i as int] == interior.planes@[i as int]);
        if interior.planes[i].normal_index.0 as usize >= interior.normals.len() {
            return false;
        }
        i = i + 1;
    }
    let mut i: usize = 0;
    while i < interior.indices.len()
        invariant
            i <= interior.indices.len(),
            x == interior.deep_view(),
            x.indices.len() == interior.indices@.len(),
            x.points.len() == interior.points@.len(),
            forall|k: int| 0 <= k < i ==> (#[trigger] x.indices[k]).value() < x.points.len(),
        decreases interior.indices.len() - i,
    {
        assert(x.indices[i as int] == interior.indices@[i as int]);
        if interior.indices[i].0 as usize >= interior.points.len() {
            return false;
        }
        i = i + 1;
    }
    let mut i: usize = 0;
    while i < interior.surfaces.len()
        invariant
            i <= interior.surfaces.len(),
            x == interior.deep_view(),
            x.surfaces.len() == interior.surfaces@.len(),
            forall|k: int| 0 <= k < i ==> surface_sound(x, #[trigger] x.surfaces[k]),
        decreases interior.surfaces.len() - i,
    {
        assert(x.surfaces[i as int] == interior.surfaces@[i as int]);
        if !surface_is_sound(interior, &interior.surfaces[i]) {
            return false;
        }
        i = i + 1;
    }
    let mut i: usize = 0;
    while i < interior.null_surfaces.len()
        invariant
            i <= interior.null_surfaces.len(),
            x == interior.deep_view(),
            x.null_surfaces.len() == interior.null_surfaces@.len(),
            forall|k: int| 0 <= k < i ==> null_surface_sound(x, #[trigger] x.null_surfaces[k]),
        decreases interior.null_surfaces.len() - i,
    {
        assert(x.null_surfaces[i as int] == interior.null_surfaces@[i as int]);
        if !null_surface_is_sound(interior, &interior.null_surfaces[i]) {
            return false;
        }
        i = i + 1;
    }
    let mut i: usize = 0;
    while i < interior.zone_surfaces.len()
        invariant
            i <= interior.zone_surfaces.len(),
            x == interior.deep_view(),
            x.zone_surfaces.len() == interior.zone_surfaces@.len(),
            x.surfaces.len() == interior.surfaces@.len(),
            forall|k: int| 0 <= k < i ==> (#[trigger] x.zone_surfaces[k]).value() < x.surfaces.len(),
        decreases interior.zone_surfaces.len() - i,
    {
        assert(x.zone_surfaces[i as int] == interior.zone_surfaces@[i as int]);
        if interior.zone_surfaces[i].0 as usize >= interior.surfaces.len() {
            return false;
        }
        i = i + 1;
    }
    true
}

} // verus!
