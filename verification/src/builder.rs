pub mod bsp_export;
pub mod coord_bins;
pub mod emit;
pub mod finish;
pub mod grouping;
pub mod poly_list;
pub mod sound;

use vstd::prelude::*;
pub use crate::builder::emit::{
    build_emit_string, edges_of, emit_bytes, emit_fits, emit_polys_of, spec_emit_points,
    spec_emit_polys, HullPoly,
};
pub use crate::builder::grouping::PolyGroup;
pub use crate::builder::poly_list::{
    group_planes, hull_poly_list, hull_surfaces, spec_zigzag, zigzag, HullPolyList, PlaneGrouping,
    TempProcSurface,
};
use crate::interior::{
    empty_interior, ConvexHull, EmitStringIndex, HullPlaneIndex, HullPointIndex,
    HullSurfaceIndex, Interior, InteriorView, LMapIndex, NormalIndex, NullSurface,
    NullSurfaceIndex, Plane, PlaneIndex, PointIndex, PolyListPlaneIndex, PolyListPointIndex,
    PolyListStringIndex, PossiblyNullSurfaceIndex, Surface,
    SurfaceFlags, SurfaceIndex, SurfaceLightMap, TexGenEq, TexGenIndex, TextureIndex,
    WindingIndexIndex,
};
use crate::io::{count_of, list_count};
use crate::typed_ints::TypedInt;
use crate::types::{BoxF, PlaneF, Point2F, Point3F, F32};

verus! {

/// Someone who wants to hear how far the work has come.
pub trait ProgressEventListener {
    fn progress(&mut self, current: u32, total: u32, status: String, finish_status: String);
}

/// What a build says of the BSP tree it made.
#[derive(Clone, Copy, Debug, PartialEq, Eq)]
pub struct BSPReport {
    pub balance_factor: i32,
    pub hit: i32,
    pub total: usize,
    pub hit_area_percentage: F32,
}

/// A textured triangle as a client adds it.
#[derive(Clone, Debug, PartialEq, Eq)]
pub struct Triangle {
    pub verts: [Point3F; 3],
    pub plane: PlaneF,
    pub uv: [Point2F; 3],
    pub material: String,
    pub id: i32,
}

impl Triangle {
    /// Whether the corners, the texture coordinates and the plane of the
    /// triangle hold numbers only, none of them infinite.
    pub open spec fn spec_is_finite(&self) -> bool {
        &&& forall|i: int| 0 <= i < 3 ==> (#[trigger] self.verts@[i]).spec_is_finite()
        &&& forall|i: int|
            0 <= i < 3 ==> (#[trigger] self.uv@[i]).x.spec_is_finite() && self.uv@[i].y.spec_is_finite()
        &&& self.plane.normal.spec_is_finite()
        &&& self.plane.distance.spec_is_finite()
    }

    pub fn is_finite(&self) -> (b: bool)
        ensures
            b == self.spec_is_finite(),
    {
        let mut i: usize = 0;
        while i < 3
            invariant
                i <= 3,
                forall|k: int| 0 <= k < i ==> (#[trigger] self.verts@[k]).spec_is_finite(),
                forall|k: int|
                    0 <= k < i ==> (#[trigger] self.uv@[k]).x.spec_is_finite()
                        && self.uv@[k].y.spec_is_finite(),
            decreases 3 - i,
        {
            if !self.verts[i].is_finite() || !self.uv[i].x.is_finite() || !self.uv[i].y.is_finite() {
                return false;
            }
            i = i + 1;
        }
        self.plane.normal.is_finite() && self.plane.distance.is_finite()
    }
}

/// Why a build gave up.
#[derive(Clone, Copy, Debug, PartialEq, Eq, Structural)]
pub enum BuildError {
    /// The table of planes is full: it holds `0x10000` planes.
    PlaneOverflow,
    /// A count or an index of an emit string does not fit a byte.
    EmitStringOverflow,
    /// A hull has too many planes, points or surfaces for its poly list.
    HullTooLarge,
    /// A table refers outside another table.
    BrokenTable,
    /// No two groups of planes could be joined.
    NoPairing,
    /// There are as many triangles as can have an id.
    TooManyTriangles,
    /// A triangle holds what is no number, or is infinite.
    NotFinite,
    /// The normal of a triangle is 0.
    ZeroNormal,
}

/// The low 16 bits of `n`.
pub open spec fn low16(n: nat) -> u16 {
    (n % 0x1_0000) as u16
}

/// The low 16 bits of a length.
pub fn low16_of(n: usize) -> (r: u16)
    ensures
        r == low16(n as nat),
{
    (n % 0x1_0000) as u16
}

/// The index of the first of `names` that is `name`.
pub open spec fn first_index_of(names: Seq<Seq<char>>, name: Seq<char>) -> Option<int>
    decreases names.len(),
{
    if names.len() == 0 {
        None
    } else {
        match first_index_of(names.drop_last(), name) {
            Some(i) => Some(i),
            None => if names.last() == name {
                Some(names.len() - 1)
            } else {
                None
            },
        }
    }
}

/// What `first_index_of` finds is the first place of the name.
pub proof fn lemma_first_index_of(names: Seq<Seq<char>>, name: Seq<char>)
    ensures
        match first_index_of(names, name) {
            Some(i) => 0 <= i < names.len() && names[i] == name && forall|j: int|
                0 <= j < i ==> names[j] != name,
            None => forall|j: int| 0 <= j < names.len() ==> names[j] != name,
        },
    decreases names.len(),
{
    if names.len() > 0 {
        lemma_first_index_of(names.drop_last(), name);
        assert forall|j: int| 0 <= j < names.len() - 1 implies names.drop_last()[j]
            == names[j] by {}
    }
}

/// The triangles, the interior that grows out of them, and what is known
/// of each triangle. The tables that find equal points, planes and
/// texture equations are kept by the caller.
pub struct DIFBuilder {
    pub brushes: Vec<Triangle>,
    pub interior: Interior,
    /// For each triangle, by its id, the surface made of it.
    pub face_to_surface: Vec<Option<PossiblyNullSurfaceIndex>>,
    /// For each triangle, by its id, its plane in the interior.
    pub face_to_plane: Vec<Option<PlaneIndex>>,
    /// The emit strings written so far, each with its place.
    pub emit_strings: Vec<(Vec<u8>, EmitStringIndex)>,
    pub mb_only: bool,
    pub bsp_report: BSPReport,
}

impl DIFBuilder {
    /// Each triangle has its place in the list as id, and the tables
    /// by id have a place for each triangle.
    pub open spec fn wf(&self) -> bool {
        &&& self.brushes.len() <= i32::MAX
        &&& self.face_to_surface.len() == self.brushes.len()
        &&& self.face_to_plane.len() == self.brushes.len()
        &&& forall|i: int| 0 <= i < self.brushes.len() ==> (#[trigger] self.brushes[i]).id == i
    }

    /// Whether two builders differ in their interior at most.
    pub open spec fn same_but_interior(&self, other: &DIFBuilder) -> bool {
        &&& self.brushes == other.brushes
        &&& self.face_to_surface == other.face_to_surface
        &&& self.face_to_plane == other.face_to_plane
        &&& self.emit_strings == other.emit_strings
        &&& self.mb_only == other.mb_only
        &&& self.bsp_report == other.bsp_report
    }

    pub fn new(mb_only: bool) -> (r: DIFBuilder)
        ensures
            r.wf(),
            r.brushes@.len() == 0,
            r.interior.deep_view() == Interior::empty_view(),
            r.emit_strings@.len() == 0,
            r.mb_only == mb_only,
    {
        DIFBuilder {
            brushes: Vec::new(),
            interior: empty_interior(),
            face_to_surface: Vec::new(),
            face_to_plane: Vec::new(),
            emit_strings: Vec::new(),
            mb_only,
            bsp_report: BSPReport {
                balance_factor: 0,
                hit: 0,
                total: 0,
                hit_area_percentage: F32 { bits: 0 },
            },
        }
    }

    /// Adds a triangle with its plane, and gives it the next id. Once
    /// `i32::MAX` triangles are there no more is taken, nor is a triangle
    /// that holds what is no number or is infinite, or whose normal is 0.
    pub fn add_triangle(
        &mut self,
        v1: Point3F,
        v2: Point3F,
        v3: Point3F,
        uv1: Point2F,
        uv2: Point2F,
        uv3: Point2F,
        plane: PlaneF,
        material: String,
    ) -> (r: Result<(), BuildError>)
        requires
            old(self).wf(),
        ensures
            final(self).wf(),
            final(self).interior == old(self).interior,
            final(self).emit_strings == old(self).emit_strings,
            final(self).mb_only == old(self).mb_only,
            ({
                let triangle = Triangle {
                    verts: [v1, v2, v3],
                    plane,
                    uv: [uv1, uv2, uv3],
                    material,
                    id: old(self).brushes.len() as i32,
                };
                match r {
                    Ok(_) => old(self).brushes.len() < i32::MAX && triangle.spec_is_finite()
                        && !plane.normal.spec_is_zero() && final(self).brushes@ == old(
                        self,
                    ).brushes@.push(triangle) && final(self).face_to_surface@ == old(
                        self,
                    ).face_to_surface@.push(None) && final(self).face_to_plane@ == old(
                        self,
                    ).face_to_plane@.push(None),
                    Err(e) => *final(self) == *old(self) && e == (if old(self).brushes.len()
                        >= i32::MAX {
                        BuildError::TooManyTriangles
                    } else if !triangle.spec_is_finite() {
                        BuildError::NotFinite
                    } else {
                        BuildError::ZeroNormal
                    }) && !(old(self).brushes.len() < i32::MAX && triangle.spec_is_finite()
                        && !plane.normal.spec_is_zero()),
                }
            }),
    {
        if self.brushes.len() >= i32::MAX as usize {
            return Err(BuildError::TooManyTriangles);
        }
        let id = self.brushes.len() as i32;
        let triangle = Triangle { verts: [v1, v2, v3], plane, uv: [uv1, uv2, uv3], material, id };
        if !triangle.is_finite() {
            return Err(BuildError::NotFinite);
        }
        if triangle.plane.normal.is_zero() {
            return Err(BuildError::ZeroNormal);
        }
        self.brushes.push(triangle);
        self.face_to_surface.push(None);
        self.face_to_plane.push(None);
        Ok(())
    }

    /// The point table after `point` was added to it.
    pub open spec fn with_point(before: InteriorView, point: Point3F) -> InteriorView {
        InteriorView {
            points: before.points.push(point),
            point_visibilities: before.point_visibilities.push(0xFFu8),
            ..before
        }
    }

    /// The index of a point in the interior. Where the caller has found an
    /// equal point, that one; else the point is added, visible from
    /// everywhere.
    pub fn export_point(&mut self, point: &Point3F, found: Option<PointIndex>) -> (r: PointIndex)
        ensures
            final(self).same_but_interior(old(self)),
            match found {
                Some(index) => r == index && final(self).interior == old(self).interior,
                None => r == PointIndex::of(list_count(old(self).interior.points@.len()))
                    && final(self).interior.deep_view() == Self::with_point(
                    old(self).interior.deep_view(),
                    *point,
                ),
            },
    {
        match found {
            Some(index) => index,
            None => {
                let ghost before = self.interior.deep_view();
                let index = PointIndex::new(count_of(self.interior.points.len()));
                self.interior.points.push(*point);
                self.interior.point_visibilities.push(0xff);
                proof {
                    assert(self.interior.points.deep_view() =~= before.points.push(*point));
                    assert(self.interior.point_visibilities.deep_view()
                        =~= before.point_visibilities.push(0xFFu8));
                }
                index
            },
        }
    }

    /// The table of texture equations after `eq` was added to it.
    pub open spec fn with_tex_gen(before: InteriorView, eq: TexGenEq) -> InteriorView {
        InteriorView { tex_gen_eqs: before.tex_gen_eqs.push(eq), ..before }
    }

    /// The index of a texture equation in the interior. Where the caller
    /// has found an equal one, that one; else the equation is added.
    pub fn export_tex_gen(&mut self, eq: TexGenEq, found: Option<TexGenIndex>) -> (r: TexGenIndex)
        ensures
            final(self).same_but_interior(old(self)),
            match found {
                Some(index) => r == index && final(self).interior == old(self).interior,
                None => r == TexGenIndex::of(list_count(old(self).interior.tex_gen_eqs@.len()))
                    && final(self).interior.deep_view() == Self::with_tex_gen(
                    old(self).interior.deep_view(),
                    eq,
                ),
            },
    {
        match found {
            Some(index) => index,
            None => {
                let ghost before = self.interior.deep_view();
                let index = TexGenIndex::new(count_of(self.interior.tex_gen_eqs.len()));
                self.interior.tex_gen_eqs.push(eq);
                proof {
                    assert(self.interior.tex_gen_eqs.deep_view() =~= before.tex_gen_eqs.push(eq));
                }
                index
            },
        }
    }

    /// The index of a material name in the interior: that of the first
    /// equal name, or that of the name added at the end.
    pub fn export_texture(&mut self, texture: String) -> (r: TextureIndex)
        ensures
            final(self).same_but_interior(old(self)),
            match first_index_of(old(self).interior.deep_view().material_names, texture@) {
                Some(i) => r == TextureIndex::of(low16(i as nat)) && final(self).interior == old(self).interior,
                None => r == TextureIndex::of(low16(old(self).interior.material_names@.len()))
                    && final(self).interior.deep_view() == (InteriorView {
                    material_names: old(self).interior.deep_view().material_names.push(texture@),
                    ..old(self).interior.deep_view()
                }),
            },
    {
        let ghost names = self.interior.deep_view().material_names;
        let mut i: usize = 0;
        while i < self.interior.material_names.len()
            invariant
                i <= self.interior.material_names.len(),
                *self == *old(self),
                names == self.interior.deep_view().material_names,
                first_index_of(names.take(i as int), texture@) is None,
            decreases self.interior.material_names.len() - i,
        {
            assert(names.take(i + 1).drop_last() =~= names.take(i as int));
            assert(names.take(i + 1).last() == self.interior.material_names[i as int]@);
            if self.interior.material_names[i] == texture {
                proof {
                    lemma_first_index_prefix(names, texture@, i + 1);
                }
                return TextureIndex::new(low16_of(i));
            }
            i = i + 1;
        }
        assert(names.take(i as int) =~= names);
        let index = TextureIndex::new(low16_of(self.interior.material_names.len()));
        self.interior.material_names.push(texture);
        proof {
            assert(self.interior.material_names.deep_view() =~= names.push(texture@));
        }
        index
    }

    /// The tables of planes and normals after a plane was added.
    pub open spec fn with_plane(
        before: InteriorView,
        plane: PlaneF,
        normal: Option<NormalIndex>,
        mb_only: bool,
    ) -> InteriorView {
        match normal {
            Some(index) => InteriorView {
                planes: before.planes.push(
                    Plane { normal_index: index, plane_distance: plane.distance },
                ),
                ..before
            },
            None => InteriorView {
                normals: before.normals.push(plane.normal),
                normal2s: if mb_only {
                    before.normal2s
                } else {
                    before.normal2s.push(plane.normal)
                },
                planes: before.planes.push(
                    Plane {
                        normal_index: NormalIndex::of(low16(before.normals.len())),
                        plane_distance: plane.distance,
                    },
                ),
                ..before
            },
        }
    }

    /// The index of a plane in the interior. The caller says whether it
    /// has found an equal plane (`same`), the plane turned round
    /// (`negated`), or an equal normal (`normal`). An equal plane gives its
    /// index. The plane turned round gives its index with bit `0x8000` set.
    /// Else the plane is added, and its normal too unless that was found.
    /// A table that holds `0x10000` planes or more is full.
    pub fn export_plane(
        &mut self,
        plane: &PlaneF,
        same: Option<PlaneIndex>,
        negated: Option<PlaneIndex>,
        normal: Option<NormalIndex>,
    ) -> (r: Result<PlaneIndex, BuildError>)
        ensures
            final(self).same_but_interior(old(self)),
            match r {
                Err(e) => e == BuildError::PlaneOverflow && old(self).interior.planes@.len()
                    >= 0x1_0000 && final(self).interior == old(self).interior,
                Ok(index) => old(self).interior.planes@.len() < 0x1_0000 && match same {
                    Some(found) => index == found && final(self).interior == old(self).interior,
                    None => match negated {
                        Some(found) => index == PlaneIndex::of(found.value() | 0x8000) && final(self).interior == old(self).interior,
                        None => index == PlaneIndex::of(
                            old(self).interior.planes@.len() as u16,
                        ) && final(self).interior.deep_view() == Self::with_plane(
                            old(self).interior.deep_view(),
                            *plane,
                            normal,
                            old(self).mb_only,
                        ),
                    },
                },
            },
    {
        if self.interior.planes.len() >= 0x1_0000 {
            return Err(BuildError::PlaneOverflow);
        }
        if let Some(found) = same {
            return Ok(found);
        }
        if let Some(found) = negated {
            return Ok(PlaneIndex::new(found.0 | 0x8000));
        }
        let ghost before = self.interior.deep_view();
        let index = PlaneIndex::new(self.interior.planes.len() as u16);
        match normal {
            Some(found) => {
                let entry = Plane { normal_index: found, plane_distance: plane.distance };
                self.interior.planes.push(entry);
                proof {
                    assert(self.interior.planes.deep_view() =~= before.planes.push(entry));
                }
            },
            None => {
                let normal_index = NormalIndex::new(low16_of(self.interior.normals.len()));
                self.interior.normals.push(plane.normal);
                if !self.mb_only {
                    self.interior.normal2s.push(plane.normal);
                }
                let entry = Plane { normal_index, plane_distance: plane.distance };
                self.interior.planes.push(entry);
                proof {
                    assert(self.interior.normals.deep_view() =~= before.normals.push(plane.normal));
                    if !self.mb_only {
                        assert(self.interior.normal2s.deep_view() =~= before.normal2s.push(
                            plane.normal,
                        ));
                    }
                    assert(self.interior.planes.deep_view() =~= before.planes.push(entry));
                }
            },
        }
        Ok(index)
    }

    /// The surface that was made of a triangle, if one was.
    pub fn surface_of(&self, id: usize) -> (r: Option<PossiblyNullSurfaceIndex>)
        ensures
            r == (if id < self.face_to_surface.len() {
                self.face_to_surface[id as int]
            } else {
                None
            }),
    {
        if id < self.face_to_surface.len() {
            self.face_to_surface[id]
        } else {
            None
        }
    }

    /// The drawn surface of a triangle with three corners.
    pub open spec fn triangle_surface(
        winding_start: u32,
        plane_index: PlaneIndex,
        texture_index: TextureIndex,
        tex_gen_index: TexGenIndex,
    ) -> Surface {
        Surface {
            winding_start: WindingIndexIndex::of(winding_start),
            winding_count: 3,
            plane_index,
            plane_flipped: plane_index.value() & 0x8000 > 0,
            texture_index,
            tex_gen_index,
            surface_flags: SurfaceFlags { bits: crate::interior::SURFACE_OUTSIDE_VISIBLE },
            fan_mask: 0b111,
            light_map: SurfaceLightMap {
                final_word: 0,
                tex_gen_x_distance: F32 { bits: 0 },
                tex_gen_y_distance: F32 { bits: 0 },
            },
            light_count: 0,
            light_state_info_start: 0,
            map_offset_x: 0,
            map_offset_y: 0,
            map_size_x: 32,
            map_size_y: 32,
            brush_id: 0,
        }
    }

    /// Whether triangle `id` is there and has the material `NULL`: such a
    /// triangle gets a null surface, every other one a drawn surface.
    pub fn is_null_material(&self, id: usize) -> (b: bool)
        ensures
            b == (id < self.brushes.len() && self.brushes[id as int].material@ == "NULL"@),
    {
        if id >= self.brushes.len() {
            return false;
        }
        let null: String = "NULL".to_owned();
        self.brushes[id].material == null
    }

    /// The index of a material name: that of the first equal name, or
    /// that of the name added at the end.
    pub open spec fn texture_place(names: Seq<Seq<char>>, material: Seq<char>) -> TextureIndex {
        match first_index_of(names, material) {
            Some(i) => TextureIndex::of(low16(i as nat)),
            None => TextureIndex::of(low16(names.len())),
        }
    }

    /// The tables after the drawn surface of a triangle was added: its
    /// corners go to the windings, the surface to the surfaces and to the
    /// surfaces of the zone, with its two light map indices, and its
    /// material to the names unless it is there.
    pub open spec fn with_surface(
        before: InteriorView,
        plane_index: PlaneIndex,
        tex_gen_index: TexGenIndex,
        corners: Seq<PointIndex>,
        material: Seq<char>,
    ) -> InteriorView {
        InteriorView {
            indices: before.indices.push(corners[0]).push(corners[1]).push(corners[2]),
            surfaces: before.surfaces.push(
                Self::triangle_surface(
                    list_count(before.indices.len()),
                    plane_index,
                    Self::texture_place(before.material_names, material),
                    tex_gen_index,
                ),
            ),
            zone_surfaces: before.zone_surfaces.push(SurfaceIndex::of(low16(before.surfaces.len()))),
            normal_lmap_indices: before.normal_lmap_indices.push(LMapIndex::of(0u32)),
            alarm_lmap_indices: before.alarm_lmap_indices.push(LMapIndex::of(0xFFFF_FFFFu32)),
            material_names: match first_index_of(before.material_names, material) {
                Some(i) => before.material_names,
                None => before.material_names.push(material),
            },
            ..before
        }
    }

    /// The tables after the null surface of a triangle was added: its
    /// corners go to the windings, and the surface to the null surfaces.
    pub open spec fn with_null_surface(
        before: InteriorView,
        plane_index: PlaneIndex,
        corners: Seq<PointIndex>,
    ) -> InteriorView {
        InteriorView {
            indices: before.indices.push(corners[0]).push(corners[1]).push(corners[2]),
            null_surfaces: before.null_surfaces.push(
                NullSurface {
                    winding_start: WindingIndexIndex::of(list_count(before.indices.len())),
                    plane_index,
                    surface_flags: SurfaceFlags { bits: crate::interior::SURFACE_OUTSIDE_VISIBLE },
                    winding_count: 3,
                },
            ),
            ..before
        }
    }

    /// Makes the drawn surface of triangle `id`, whose plane, texture
    /// equation and corners are in the interior already, and gives its
    /// index. A triangle that has a surface keeps it. An id that no
    /// triangle has is refused.
    pub fn export_surface(
        &mut self,
        id: usize,
        plane_index: PlaneIndex,
        tex_gen_index: TexGenIndex,
        corners: [PointIndex; 3],
        material: String,
    ) -> (r: Result<PossiblyNullSurfaceIndex, BuildError>)
        requires
            old(self).wf(),
        ensures
            final(self).wf(),
            final(self).brushes == old(self).brushes,
            final(self).emit_strings == old(self).emit_strings,
            final(self).mb_only == old(self).mb_only,
            match r {
                Err(e) => e == BuildError::BrokenTable && id >= old(self).brushes.len() && *final(self)
                    == *old(self),
                Ok(index) => id < old(self).brushes.len() && final(self).face_to_surface[id as int]
                    == Some(index) && match old(self).face_to_surface[id as int] {
                    Some(made) => index == made && *final(self) == *old(self),
                    None => {
                        let before = old(self).interior.deep_view();
                        let after = final(self).interior.deep_view();
                        &&& index == PossiblyNullSurfaceIndex::NonNull(
                            SurfaceIndex::of(low16(before.surfaces.len())),
                        )
                        &&& final(self).face_to_surface@ == old(self).face_to_surface@.update(
                            id as int,
                            Some(index),
                        )
                        &&& final(self).face_to_plane@ == old(self).face_to_plane@.update(
                            id as int,
                            Some(plane_index),
                        )
                        &&& after == Self::with_surface(
                            before,
                            plane_index,
                            tex_gen_index,
                            corners@,
                            material@,
                        )
                    },
                },
            },
    {
        if id >= self.brushes.len() {
            return Err(BuildError::BrokenTable);
        }
        if let Some(made) = self.face_to_surface[id] {
            return Ok(made);
        }
        let ghost before = self.interior.deep_view();
        let index = SurfaceIndex::new(low16_of(self.interior.surfaces.len()));
        let r = PossiblyNullSurfaceIndex::NonNull(index);
        self.face_to_surface[id] = Some(r);
        self.face_to_plane[id] = Some(plane_index);
        let winding_start = count_of(self.interior.indices.len());
        self.interior.indices.push(corners[0]);
        self.interior.indices.push(corners[1]);
        self.interior.indices.push(corners[2]);
        let texture_index = self.export_texture(material);
        let flipped = plane_index.0 & 0x8000 > 0;
        let surface = Surface {
            winding_start: WindingIndexIndex::new(winding_start),
            winding_count: 3,
            plane_index,
            plane_flipped: flipped,
            texture_index,
            tex_gen_index,
            surface_flags: SurfaceFlags::outside_visible(),
            fan_mask: 0b111,
            light_map: SurfaceLightMap {
                final_word: 0,
                tex_gen_x_distance: F32 { bits: 0 },
                tex_gen_y_distance: F32 { bits: 0 },
            },
            light_count: 0,
            light_state_info_start: 0,
            map_offset_x: 0,
            map_offset_y: 0,
            map_size_x: 32,
            map_size_y: 32,
            brush_id: 0,
        };
        let ghost mid = self.interior.deep_view();
        self.interior.zone_surfaces.push(index);
        self.interior.normal_lmap_indices.push(LMapIndex::new(0u32));
        self.interior.alarm_lmap_indices.push(LMapIndex::new(0xffffffffu32));
        self.interior.surfaces.push(surface);
        proof {
            let after = self.interior.deep_view();
            assert(mid.indices =~= before.indices.push(corners[0]).push(corners[1]).push(
                corners[2],
            ));
            assert(after.zone_surfaces =~= mid.zone_surfaces.push(index));
            assert(after.normal_lmap_indices =~= mid.normal_lmap_indices.push(LMapIndex::of(0u32)));
            assert(after.alarm_lmap_indices =~= mid.alarm_lmap_indices.push(
                LMapIndex::of(0xFFFF_FFFFu32),
            ));
            assert(after.surfaces =~= mid.surfaces.push(surface));
        }
        Ok(r)
    }

    /// Makes the null surface of triangle `id`, whose plane and corners
    /// are in the interior already, and gives its index. A triangle that
    /// has a surface keeps it. An id that no triangle has is refused.
    pub fn export_null_surface(&mut self, id: usize, plane_index: PlaneIndex, corners: [PointIndex; 3]) -> (r:
        Result<PossiblyNullSurfaceIndex, BuildError>)
        requires
            old(self).wf(),
        ensures
            final(self).wf(),
            final(self).brushes == old(self).brushes,
            final(self).emit_strings == old(self).emit_strings,
            final(self).mb_only == old(self).mb_only,
            match r {
                Err(e) => e == BuildError::BrokenTable && id >= old(self).brushes.len() && *final(self)
                    == *old(self),
                Ok(index) => id < old(self).brushes.len() && final(self).face_to_surface[id as int]
                    == Some(index) && match old(self).face_to_surface[id as int] {
                    Some(made) => index == made && *final(self) == *old(self),
                    None => {
                        let before = old(self).interior.deep_view();
                        let after = final(self).interior.deep_view();
                        &&& index == PossiblyNullSurfaceIndex::Null(
                            NullSurfaceIndex::of(low16(before.null_surfaces.len())),
                        )
                        &&& final(self).face_to_surface@ == old(self).face_to_surface@.update(
                            id as int,
                            Some(index),
                        )
                        &&& final(self).face_to_plane@ == old(self).face_to_plane@.update(
                            id as int,
                            Some(plane_index),
                        )
                        &&& after == Self::with_null_surface(before, plane_index, corners@)
                    },
                },
            },
    {
        if id >= self.brushes.len() {
            return Err(BuildError::BrokenTable);
        }
        if let Some(made) = self.face_to_surface[id] {
            return Ok(made);
        }
        let ghost before = self.interior.deep_view();
        let index = NullSurfaceIndex::new(low16_of(self.interior.null_surfaces.len()));
        let r = PossiblyNullSurfaceIndex::Null(index);
        self.face_to_surface[id] = Some(r);
        self.face_to_plane[id] = Some(plane_index);
        let winding_start = count_of(self.interior.indices.len());
        self.interior.indices.push(corners[0]);
        self.interior.indices.push(corners[1]);
        self.interior.indices.push(corners[2]);
        let null_surface = NullSurface {
            plane_index,
            surface_flags: SurfaceFlags::outside_visible(),
            winding_start: WindingIndexIndex::new(winding_start),
            winding_count: 3,
        };
        self.interior.null_surfaces.push(null_surface);
        proof {
            let after = self.interior.deep_view();
            assert(after.indices =~= before.indices.push(corners[0]).push(corners[1]).push(
                corners[2],
            ));
            assert(after.null_surfaces =~= before.null_surfaces.push(null_surface));
        }
        Ok(r)
    }
}

/// The place of the first of the emit strings that has these bytes.
pub open spec fn emit_index_of(entries: Seq<(Vec<u8>, EmitStringIndex)>, bytes: Seq<u8>) -> Option<
    EmitStringIndex,
>
    decreases entries.len(),
{
    if entries.len() == 0 {
        None
    } else {
        match emit_index_of(entries.drop_last(), bytes) {
            Some(index) => Some(index),
            None => if entries.last().0@ == bytes {
                Some(entries.last().1)
            } else {
                None
            },
        }
    }
}

/// Whether each emit string written so far stands at its place in the
/// buffer of emit strings.
pub open spec fn emit_strings_stand(entries: Seq<(Vec<u8>, EmitStringIndex)>, buffer: Seq<u8>) -> bool {
    forall|i: int|
        0 <= i < entries.len() ==> stands_in(
            buffer,
            (#[trigger] entries[i]).1.value() as int,
            entries[i].0@,
        )
}

/// The bytes stand in the buffer from the place on.
pub open spec fn stands_in(buffer: Seq<u8>, place: int, bytes: Seq<u8>) -> bool {
    place + bytes.len() <= buffer.len() && buffer.subrange(place, place + bytes.len()) == bytes
}

/// The emit strings that were written, each as its bytes with its place.
pub open spec fn entries_view(entries: Seq<(Vec<u8>, EmitStringIndex)>) -> Seq<
    (Seq<u8>, EmitStringIndex),
> {
    Seq::new(entries.len(), |i: int| (entries[i].0@, entries[i].1))
}

/// The place of the first of the emit strings that has these bytes.
pub open spec fn place_among(entries: Seq<(Seq<u8>, EmitStringIndex)>, bytes: Seq<u8>) -> Option<
    EmitStringIndex,
>
    decreases entries.len(),
{
    if entries.len() == 0 {
        None
    } else {
        match place_among(entries.drop_last(), bytes) {
            Some(index) => Some(index),
            None => if entries.last().0 == bytes {
                Some(entries.last().1)
            } else {
                None
            },
        }
    }
}

/// An emit string is found among the strings as it is found among their
/// bytes.
pub proof fn lemma_entries_view(entries: Seq<(Vec<u8>, EmitStringIndex)>, bytes: Seq<u8>)
    ensures
        emit_index_of(entries, bytes) == place_among(entries_view(entries), bytes),
    decreases entries.len(),
{
    if entries.len() > 0 {
        lemma_entries_view(entries.drop_last(), bytes);
        assert(entries_view(entries.drop_last()) =~= entries_view(entries).drop_last());
    }
}

/// The emit strings that were written, and the buffer that holds them.
pub ghost struct EmitTables {
    pub entries: Seq<(Seq<u8>, EmitStringIndex)>,
    pub buffer: Seq<u8>,
}

/// The place that an emit string gets: that of the first string with the
/// same bytes, or the end of the buffer.
pub open spec fn place_for(tables: EmitTables, bytes: Seq<u8>) -> EmitStringIndex {
    match place_among(tables.entries, bytes) {
        Some(index) => index,
        None => EmitStringIndex::of(list_count(tables.buffer.len())),
    }
}

/// The tables after an emit string was written: bytes that were written
/// before change nothing, others go to the end of the buffer.
pub open spec fn written(tables: EmitTables, bytes: Seq<u8>) -> EmitTables {
    match place_among(tables.entries, bytes) {
        Some(index) => tables,
        None => EmitTables {
            entries: tables.entries.push((bytes, place_for(tables, bytes))),
            buffer: tables.buffer + bytes,
        },
    }
}

/// The tables after the first `n` of the strings were written, one after
/// the other.
pub open spec fn written_all(tables: EmitTables, strings: Seq<Seq<u8>>, n: nat) -> EmitTables
    decreases n,
{
    if n == 0 {
        tables
    } else {
        written(written_all(tables, strings, (n - 1) as nat), strings[n - 1])
    }
}

/// The places that the first `n` of the strings get when they are written
/// one after the other.
pub open spec fn places_of(tables: EmitTables, strings: Seq<Seq<u8>>, n: nat) -> Seq<EmitStringIndex>
    decreases n,
{
    if n == 0 {
        Seq::empty()
    } else {
        places_of(tables, strings, (n - 1) as nat).push(
            place_for(written_all(tables, strings, (n - 1) as nat), strings[n - 1]),
        )
    }
}

/// An emit string that is written again gets the place that it got the
/// first time, and changes nothing: the place of an emit string follows
/// from its bytes alone once it is written.
pub proof fn lemma_written_twice(tables: EmitTables, bytes: Seq<u8>)
    ensures
        place_for(written(tables, bytes), bytes) == place_for(tables, bytes),
        written(written(tables, bytes), bytes) == written(tables, bytes),
        place_among(written(tables, bytes).entries, bytes) == Some(place_for(tables, bytes)),
{
    if place_among(tables.entries, bytes) is None {
        let entries = written(tables, bytes).entries;
        assert(entries.drop_last() =~= tables.entries);
    }
}

/// Whether each emit string that was written stands at its place in the
/// buffer.
pub open spec fn tables_stand(tables: EmitTables) -> bool {
    forall|i: int|
        0 <= i < tables.entries.len() ==> stands_in(
            tables.buffer,
            (#[trigger] tables.entries[i]).1.value() as int,
            tables.entries[i].0,
        )
}

/// What is found among emit strings that stand at their places stands at
/// the place that was found.
pub proof fn lemma_place_stands(tables: EmitTables, bytes: Seq<u8>)
    requires
        tables_stand(tables),
    ensures
        match place_among(tables.entries, bytes) {
            Some(index) => stands_in(tables.buffer, index.value() as int, bytes),
            None => true,
        },
    decreases tables.entries.len(),
{
    if tables.entries.len() > 0 {
        let front = EmitTables { entries: tables.entries.drop_last(), ..tables };
        assert forall|i: int| 0 <= i < front.entries.len() implies stands_in(
            front.buffer,
            (#[trigger] front.entries[i]).1.value() as int,
            front.entries[i].0,
        ) by {
            assert(front.entries[i] == tables.entries[i]);
        }
        lemma_place_stands(front, bytes);
        let last = tables.entries[tables.entries.len() - 1];
        assert(stands_in(tables.buffer, last.1.value() as int, last.0));
    }
}

/// After an emit string was written, every emit string stands at its
/// place, and so does the one that was written, as long as the buffer
/// stays within what a place can say.
pub proof fn lemma_written_stands(tables: EmitTables, bytes: Seq<u8>)
    requires
        tables_stand(tables),
        written(tables, bytes).buffer.len() <= 0xFFFF_FFFF,
    ensures
        tables_stand(written(tables, bytes)),
        stands_in(written(tables, bytes).buffer, place_for(tables, bytes).value() as int, bytes),
        tables.buffer.len() <= written(tables, bytes).buffer.len(),
        written(tables, bytes).buffer.subrange(0, tables.buffer.len() as int) == tables.buffer,
{
    let after = written(tables, bytes);
    lemma_place_stands(tables, bytes);
    assert(after.buffer.subrange(0, tables.buffer.len() as int) =~= tables.buffer);
    if place_among(tables.entries, bytes) is None {
        let place = tables.buffer.len() as int;
        assert(after.buffer.subrange(place, place + bytes.len()) =~= bytes);
        assert forall|i: int| 0 <= i < after.entries.len() implies stands_in(
            after.buffer,
            (#[trigger] after.entries[i]).1.value() as int,
            after.entries[i].0,
        ) by {
            if i < tables.entries.len() {
                assert(after.entries[i] == tables.entries[i]);
                lemma_stands_in_longer(
                    tables.buffer,
                    after.buffer,
                    tables.entries[i].1.value() as int,
                    tables.entries[i].0,
                );
            }
        }
    }
}

/// Writing emit strings makes the buffer no shorter, and leaves every
/// emit string at its place, as long as the buffer stays within what a
/// place can say.
pub proof fn lemma_written_all_stand(tables: EmitTables, strings: Seq<Seq<u8>>, n: nat)
    requires
        tables_stand(tables),
        written_all(tables, strings, n).buffer.len() <= 0xFFFF_FFFF,
    ensures
        tables_stand(written_all(tables, strings, n)),
        tables.buffer.len() <= written_all(tables, strings, n).buffer.len(),
    decreases n,
{
    if n > 0 {
        let before = written_all(tables, strings, (n - 1) as nat);
        assert(before.buffer.len() <= written(before, strings[n - 1]).buffer.len());
        lemma_written_all_stand(tables, strings, (n - 1) as nat);
        lemma_written_stands(before, strings[n - 1]);
    }
}

/// An emit string that was written is found at its place whatever is
/// written after it.
pub proof fn lemma_place_kept(tables: EmitTables, bytes: Seq<u8>, others: Seq<Seq<u8>>, n: nat)
    ensures
        place_among(written_all(written(tables, bytes), others, n).entries, bytes) == Some(
            place_for(tables, bytes),
        ),
    decreases n,
{
    if n == 0 {
        lemma_written_twice(tables, bytes);
    } else {
        lemma_place_kept(tables, bytes, others, (n - 1) as nat);
        let before = written_all(written(tables, bytes), others, (n - 1) as nat);
        let after = written(before, others[n - 1]);
        if place_among(before.entries, others[n - 1]) is None {
            assert(after.entries.drop_last() =~= before.entries);
        }
    }
}

/// The place of an emit string follows from its bytes alone: once it was
/// written, the same bytes get the same place and change nothing, however
/// many other emit strings were written in between, and the bytes stand
/// at that place in the buffer. The last holds where every emit string
/// stood at its place to begin with and the buffer stays within what a
/// place can say.
pub proof fn lemma_emit_place_is_fixed(
    tables: EmitTables,
    bytes: Seq<u8>,
    others: Seq<Seq<u8>>,
    n: nat,
)
    ensures
        ({
            let later = written_all(written(tables, bytes), others, n);
            &&& place_for(later, bytes) == place_for(tables, bytes)
            &&& written(later, bytes) == later
            &&& tables_stand(tables) && later.buffer.len() <= 0xFFFF_FFFF ==> stands_in(
                later.buffer,
                place_for(tables, bytes).value() as int,
                bytes,
            )
        }),
{
    let first = written(tables, bytes);
    let later = written_all(first, others, n);
    lemma_place_kept(tables, bytes, others, n);
    if tables_stand(tables) && later.buffer.len() <= 0xFFFF_FFFF {
        lemma_buffer_grows(first, others, n);
        lemma_written_stands(tables, bytes);
        lemma_written_all_stand(first, others, n);
        lemma_place_stands(later, bytes);
    }
}

/// Writing emit strings makes the buffer no shorter.
pub proof fn lemma_buffer_grows(tables: EmitTables, strings: Seq<Seq<u8>>, n: nat)
    ensures
        tables.buffer.len() <= written_all(tables, strings, n).buffer.len(),
    decreases n,
{
    if n > 0 {
        lemma_buffer_grows(tables, strings, (n - 1) as nat);
    }
}

/// What is found among the emit strings stands at its place.
pub proof fn lemma_emit_index_stands(
    entries: Seq<(Vec<u8>, EmitStringIndex)>,
    buffer: Seq<u8>,
    bytes: Seq<u8>,
)
    requires
        emit_strings_stand(entries, buffer),
    ensures
        match emit_index_of(entries, bytes) {
            Some(index) => stands_in(buffer, index.value() as int, bytes),
            None => true,
        },
    decreases entries.len(),
{
    if entries.len() > 0 {
        let front = entries.drop_last();
        assert forall|i: int| 0 <= i < front.len() implies stands_in(
            buffer,
            (#[trigger] front[i]).1.value() as int,
            front[i].0@,
        ) by {
            assert(front[i] == entries[i]);
        }
        lemma_emit_index_stands(front, buffer, bytes);
        assert(entries[entries.len() - 1] == entries.last());
    }
}

fn bytes_equal(a: &Vec<u8>, b: &Vec<u8>) -> (r: bool)
    ensures
        r == (a@ == b@),
{
    if a.len() != b.len() {
        return false;
    }
    let mut i: usize = 0;
    while i < a.len()
        invariant
            i <= a.len(),
            a.len() == b.len(),
            forall|j: int| 0 <= j < i ==> a@[j] == b@[j],
        decreases a.len() - i,
    {
        if a[i] != b[i] {
            return false;
        }
        i = i + 1;
    }
    assert(a@ =~= b@);
    true
}

impl DIFBuilder {
    /// The emit strings that were written, and the buffer that holds them.
    pub open spec fn emit_tables(&self) -> EmitTables {
        EmitTables {
            entries: entries_view(self.emit_strings@),
            buffer: self.interior.deep_view().convex_hull_emit_string_characters,
        }
    }

    /// The place of an emit string in the buffer of emit strings. Bytes
    /// that were written before keep their place, and nothing changes;
    /// else they are written at the end. Either way the same bytes get
    /// the same place from now on.
    pub fn export_emit_string(&mut self, string: Vec<u8>) -> (r: EmitStringIndex)
        ensures
            final(self).brushes == old(self).brushes,
            final(self).face_to_surface == old(self).face_to_surface,
            final(self).face_to_plane == old(self).face_to_plane,
            final(self).mb_only == old(self).mb_only,
            final(self).bsp_report == old(self).bsp_report,
            r == place_for(old(self).emit_tables(), string@),
            final(self).emit_tables() == written(old(self).emit_tables(), string@),
            emit_index_of(final(self).emit_strings@, string@) == Some(r),
            match emit_index_of(old(self).emit_strings@, string@) {
                Some(index) => r == index && *final(self) == *old(self),
                None => r == EmitStringIndex::of(
                    list_count(old(self).interior.convex_hull_emit_string_characters@.len()),
                ) && final(self).emit_strings@ == old(self).emit_strings@.push((string, r))
                    && final(self).interior.deep_view() == (InteriorView {
                    convex_hull_emit_string_characters: old(self).interior.convex_hull_emit_string_characters@ + string@,
                    ..old(self).interior.deep_view()
                }),
            },
            old(self).interior.convex_hull_emit_string_characters@.len() + string@.len()
                <= 0xFFFF_FFFF && emit_strings_stand(
                old(self).emit_strings@,
                old(self).interior.convex_hull_emit_string_characters@,
            ) ==> emit_strings_stand(
                final(self).emit_strings@,
                final(self).interior.convex_hull_emit_string_characters@,
            ) && stands_in(
                final(self).interior.convex_hull_emit_string_characters@,
                r.value() as int,
                string@,
            ),
    {
        let ghost entries = self.emit_strings@;
        let ghost buffer = self.interior.convex_hull_emit_string_characters@;
        proof {
            if emit_strings_stand(entries, buffer) {
                lemma_emit_index_stands(entries, buffer, string@);
            }
            lemma_entries_view(entries, string@);
            assert(self.interior.convex_hull_emit_string_characters.deep_view() =~= buffer);
        }
        let mut i: usize = 0;
        while i < self.emit_strings.len()
            invariant
                i <= self.emit_strings.len(),
                *self == *old(self),
                entries == self.emit_strings@,
                emit_index_of(entries.take(i as int), string@) is None,
            decreases self.emit_strings.len() - i,
        {
            assert(entries.take(i + 1).drop_last() =~= entries.take(i as int));
            assert(entries.take(i + 1).last() == entries[i as int]);
            if bytes_equal(&self.emit_strings[i].0, &string) {
                proof {
                    lemma_emit_index_prefix(entries, string@, i + 1);
                    lemma_entries_view(entries, string@);
                }
                return self.emit_strings[i].1;
            }
            i = i + 1;
        }
        assert(entries.take(i as int) =~= entries);
        let ghost before = self.interior.deep_view();
        let index = EmitStringIndex::new(
            count_of(self.interior.convex_hull_emit_string_characters.len()),
        );
        let mut copy: Vec<u8> = Vec::new();
        let mut k: usize = 0;
        proof {
            assert(buffer + string@.take(0) =~= buffer);
            assert(self.interior.convex_hull_emit_string_characters.deep_view() =~= buffer);
        }
        while k < string.len()
            invariant
                k <= string.len(),
                copy@ == string@.take(k as int),
                self.interior.convex_hull_emit_string_characters@ == buffer + string@.take(k as int),
                self.interior.deep_view() == (InteriorView {
                    convex_hull_emit_string_characters: buffer + string@.take(k as int),
                    ..before
                }),
                self.brushes == old(self).brushes,
                self.face_to_surface == old(self).face_to_surface,
                self.face_to_plane == old(self).face_to_plane,
                self.mb_only == old(self).mb_only,
                self.bsp_report == old(self).bsp_report,
                self.emit_strings@ == entries,
            decreases string.len() - k,
        {
            copy.push(string[k]);
            self.interior.convex_hull_emit_string_characters.push(string[k]);
            proof {
                assert(copy@ =~= string@.take(k + 1));
                assert(self.interior.convex_hull_emit_string_characters@ =~= buffer
                    + string@.take(k + 1));
                assert(self.interior.convex_hull_emit_string_characters.deep_view()
                    =~= self.interior.convex_hull_emit_string_characters@);
            }
            k = k + 1;
        }
        proof {
            assert(string@.take(k as int) =~= string@);
            assert(buffer + string@.take(0) =~= buffer);
        }
        self.emit_strings.push((string, index));
        proof {
            let after = self.emit_strings@;
            assert(after.drop_last() =~= entries);
            assert(entries_view(after) =~= entries_view(entries).push((string@, index)));
            if buffer.len() + string@.len() <= 0xFFFF_FFFF && emit_strings_stand(entries, buffer) {
                let now = buffer + string@;
                assert(now.subrange(buffer.len() as int, now.len() as int) =~= string@);
                assert forall|j: int| 0 <= j < after.len() implies stands_in(
                    now,
                    (#[trigger] after[j]).1.value() as int,
                    after[j].0@,
                ) by {
                    if j < entries.len() {
                        assert(after[j] == entries[j]);
                        let place = entries[j].1.value() as int;
                        let bytes = entries[j].0@;
                        assert(now.subrange(place, place + bytes.len()) =~= buffer.subrange(
                            place,
                            place + bytes.len(),
                        ));
                    }
                }
            }
        }
        index
    }
}

/// Appends copies of the items of `from` to `to`.
pub fn append_copy<T: Copy>(to: &mut Vec<T>, from: &Vec<T>)
    ensures
        final(to)@ == old(to)@ + from@,
{
    let mut i: usize = 0;
    assert(to@ =~= old(to)@ + from@.take(0));
    while i < from.len()
        invariant
            i <= from.len(),
            to@ == old(to)@ + from@.take(i as int),
        decreases from.len() - i,
    {
        to.push(from[i]);
        assert(to@ =~= old(to)@ + from@.take(i + 1));
        i = i + 1;
    }
    assert(from@.take(i as int) =~= from@);
}

/// The corners of the triangles of a group, one triangle after the
/// other.
pub open spec fn group_corners(brushes: Seq<Triangle>, group: Seq<usize>) -> Seq<Point3F>
    decreases group.len(),
{
    if group.len() == 0 {
        Seq::empty()
    } else {
        let t = brushes[group.last() as int];
        group_corners(brushes, group.drop_last()).push(t.verts@[0]).push(t.verts@[1]).push(
            t.verts@[2],
        )
    }
}

/// The emit strings of the first `n` support points of a hull.
pub open spec fn hull_emit_strings(polys: Seq<HullPoly>, n: nat) -> Seq<Seq<u8>>
    decreases n,
{
    if n == 0 {
        Seq::empty()
    } else {
        let point = (n - 1) as usize;
        let which = spec_emit_polys(polys, point);
        let points = spec_emit_points(polys, which);
        hull_emit_strings(polys, (n - 1) as nat).push(
            emit_bytes(polys, which, points, edges_of(polys, which, which.len())),
        )
    }
}

/// Whether the emit strings of the first `n` support points of a hull
/// fit their bytes.
pub open spec fn hull_emit_fits(polys: Seq<HullPoly>, n: nat) -> bool
    decreases n,
{
    if n == 0 {
        true
    } else {
        let point = (n - 1) as usize;
        let which = spec_emit_polys(polys, point);
        let points = spec_emit_points(polys, which);
        hull_emit_fits(polys, (n - 1) as nat) && emit_fits(
            polys,
            which,
            points,
            edges_of(polys, which, which.len()),
        )
    }
}

/// The emit strings of the support points of a hull, where each fits its
/// bytes and all together have no more than `room` bytes.
pub fn plan_hull_strings(polys: &Vec<HullPoly>, support_points: usize, room: usize) -> (r: Result<
    Vec<Vec<u8>>,
    BuildError,
>)
    ensures
        match r {
            Ok(strings) => hull_emit_fits(polys@, support_points as nat) && emit_total(
                hull_emit_strings(polys@, support_points as nat),
            ) <= room && strings.deep_view() == hull_emit_strings(polys@, support_points as nat),
            Err(e) => e == BuildError::EmitStringOverflow && !(hull_emit_fits(
                polys@,
                support_points as nat,
            ) && emit_total(hull_emit_strings(polys@, support_points as nat)) <= room),
        },
{
    let mut strings: Vec<Vec<u8>> = Vec::new();
    let mut total: usize = 0;
    let mut i: usize = 0;
    assert(strings.deep_view() =~= hull_emit_strings(polys@, 0));
    while i < support_points
        invariant
            i <= support_points,
            hull_emit_fits(polys@, i as nat),
            strings.deep_view() == hull_emit_strings(polys@, i as nat),
            total == emit_total(hull_emit_strings(polys@, i as nat)),
            total <= room,
        decreases support_points - i,
    {
        let ghost so_far = strings.deep_view();
        match build_emit_string(polys, i) {
            Ok(bytes) => {
                proof {
                    assert(hull_emit_strings(polys@, (i + 1) as nat).drop_last()
                        =~= hull_emit_strings(polys@, i as nat));
                }
                if bytes.len() > room - total {
                    proof {
                        lemma_emit_total_grows(polys@, (i + 1) as nat, support_points as nat);
                    }
                    return Err(BuildError::EmitStringOverflow);
                }
                total = total + bytes.len();
                assert(bytes.deep_view() =~= bytes@);
                strings.push(bytes);
                assert(strings.deep_view() =~= so_far.push(bytes@));
            },
            Err(e) => {
                proof {
                    lemma_emit_fits_stays(polys@, (i + 1) as nat, support_points as nat);
                }
                return Err(e);
            },
        }
        i = i + 1;
    }
    Ok(strings)
}

impl DIFBuilder {
    /// Writes the emit strings of the support points of a hull, and adds
    /// the place of each to the table of the hulls.
    pub fn export_hull_strings(&mut self, strings: &Vec<Vec<u8>>)
        ensures
            final(self).brushes == old(self).brushes,
            final(self).face_to_surface == old(self).face_to_surface,
            final(self).face_to_plane == old(self).face_to_plane,
            final(self).mb_only == old(self).mb_only,
            final(self).bsp_report == old(self).bsp_report,
            final(self).interior.deep_view() == (InteriorView {
                hull_emit_string_indices: final(self).interior.deep_view().hull_emit_string_indices,
                convex_hull_emit_string_characters: final(self).interior.deep_view().convex_hull_emit_string_characters,
                ..old(self).interior.deep_view()
            }),
            final(self).interior.deep_view().hull_emit_string_indices.len() == old(
                self,
            ).interior.deep_view().hull_emit_string_indices.len() + strings@.len(),
            final(self).emit_tables() == written_all(
                old(self).emit_tables(),
                strings.deep_view(),
                strings@.len(),
            ),
            final(self).interior.deep_view().hull_emit_string_indices == old(
                self,
            ).interior.deep_view().hull_emit_string_indices + places_of(
                old(self).emit_tables(),
                strings.deep_view(),
                strings@.len(),
            ),
            emit_strings_stand(
                old(self).emit_strings@,
                old(self).interior.convex_hull_emit_string_characters@,
            ) && old(self).interior.convex_hull_emit_string_characters@.len() + emit_total(
                strings.deep_view(),
            ) <= 0xFFFF_FFFF ==> emit_strings_stand(
                final(self).emit_strings@,
                final(self).interior.convex_hull_emit_string_characters@,
            ) && forall|k: int|
                0 <= k < strings@.len() ==> stands_in(
                    final(self).interior.convex_hull_emit_string_characters@,
                    (#[trigger] final(self).interior.deep_view().hull_emit_string_indices[old(self).interior.deep_view().hull_emit_string_indices.len() + k]).value() as int,
                    strings.deep_view()[k],
                ),
    {
        let ghost start = self.interior.deep_view();
        let ghost start_buffer = self.interior.convex_hull_emit_string_characters@;
        let ghost start_entries = self.emit_strings@;
        let ghost all = strings.deep_view();
        let ghost good = emit_strings_stand(start_entries, start_buffer) && start_buffer.len()
            + emit_total(all) <= 0xFFFF_FFFF;
        let ghost tables = self.emit_tables();
        let n = strings.len();
        let mut i: usize = 0;
        proof {
            assert(all.take(0) =~= Seq::<Seq<u8>>::empty());
            assert(start.hull_emit_string_indices =~= start.hull_emit_string_indices + places_of(
                tables,
                all,
                0,
            ));
        }
        while i < n
            invariant
                i <= n,
                n == strings@.len(),
                all == strings.deep_view(),
                self.emit_tables() == written_all(tables, all, i as nat),
                self.interior.deep_view().hull_emit_string_indices == start.hull_emit_string_indices
                    + places_of(tables, all, i as nat),
                good == (emit_strings_stand(start_entries, start_buffer) && start_buffer.len()
                    + emit_total(all) <= 0xFFFF_FFFF),
                self.brushes == old(self).brushes,
                self.face_to_surface == old(self).face_to_surface,
                self.face_to_plane == old(self).face_to_plane,
                self.mb_only == old(self).mb_only,
                self.bsp_report == old(self).bsp_report,
                self.interior.deep_view() == (InteriorView {
                    hull_emit_string_indices: self.interior.deep_view().hull_emit_string_indices,
                    convex_hull_emit_string_characters: self.interior.deep_view().convex_hull_emit_string_characters,
                    ..start
                }),
                places_of(tables, all, i as nat).len() == i,
                good ==> self.interior.convex_hull_emit_string_characters@.len()
                    <= start_buffer.len() + emit_total(all.take(i as int)),
                good ==> emit_strings_stand(
                    self.emit_strings@,
                    self.interior.convex_hull_emit_string_characters@,
                ),
                good ==> forall|k: int|
                    0 <= k < i ==> stands_in(
                        self.interior.convex_hull_emit_string_characters@,
                        (#[trigger] self.interior.deep_view().hull_emit_string_indices[
                            start.hull_emit_string_indices.len() + k
                        ]).value() as int,
                        all[k],
                    ),
            decreases n - i,
        {
            let ghost buffer = self.interior.convex_hull_emit_string_characters@;
            let ghost indices = self.interior.deep_view().hull_emit_string_indices;
            let bytes = strings[i].clone();
            assert(bytes@ == all[i as int]) by {
                assert(strings@[i as int].deep_view() =~= strings@[i as int]@);
            }
            proof {
                lemma_emit_total_take(all, i as int);
                assert(good ==> buffer.len() + bytes@.len() <= 0xFFFF_FFFF);
            }
            let place = self.export_emit_string(bytes);
            assert(good ==> emit_strings_stand(
                self.emit_strings@,
                self.interior.convex_hull_emit_string_characters@,
            ) && stands_in(
                self.interior.convex_hull_emit_string_characters@,
                place.value() as int,
                all[i as int],
            ));
            let ghost grown = self.interior.convex_hull_emit_string_characters@;
            let ghost entries = self.emit_strings@;
            self.interior.hull_emit_string_indices.push(place);
            proof {
                let now = self.interior.deep_view();
                assert(self.interior.convex_hull_emit_string_characters@ == grown);
                assert(self.emit_strings@ == entries);
                assert(now.hull_emit_string_indices =~= indices.push(place));
                assert(now.hull_emit_string_indices =~= start.hull_emit_string_indices + places_of(
                    tables,
                    all,
                    (i + 1) as nat,
                ));
                assert(grown =~= now.convex_hull_emit_string_characters);
                assert(buffer.len() <= grown.len() && grown.subrange(0, buffer.len() as int)
                    =~= buffer);
                if good {
                    assert forall|k: int| 0 <= k < i + 1 implies stands_in(
                        grown,
                        (#[trigger] now.hull_emit_string_indices[start.hull_emit_string_indices.len()
                            + k]).value() as int,
                        all[k],
                    ) by {
                        if k < i {
                            let at = indices[start.hull_emit_string_indices.len() + k].value() as int;
                            assert(now.hull_emit_string_indices[start.hull_emit_string_indices.len()
                                + k] == indices[start.hull_emit_string_indices.len() + k]);
                            lemma_stands_in_longer(buffer, grown, at, all[k]);
                        }
                    }
                }
            }
            i = i + 1;
        }
    }

    /// Whether a hull can be made of a group of triangles: the lists that
    /// come with the group have an entry for each triangle and corner,
    /// the triangles are there, the hull has fewer than `0x10000`
    /// corners, and, unless the builder is for Marble Blast only, each
    /// emit string fits its bytes and the buffer of emit strings stays
    /// below 2^32 bytes.
    pub open spec fn hull_ok(
        &self,
        group: Seq<usize>,
        corners: Seq<PointIndex>,
        planes: Seq<PlaneIndex>,
        surfaces: Seq<PossiblyNullSurfaceIndex>,
        polys: Seq<HullPoly>,
        support_points: usize,
    ) -> bool {
        &&& corners.len() == 3 * group.len()
        &&& planes.len() == group.len()
        &&& surfaces.len() == group.len()
        &&& polys.len() == group.len()
        &&& forall|k: int| 0 <= k < group.len() ==> (#[trigger] group[k]) < self.brushes.len()
        &&& 3 * group.len() < 0x1_0000
        &&& !self.mb_only ==> hull_emit_fits(polys, support_points as nat)
            && self.interior.convex_hull_emit_string_characters@.len() + emit_total(
            hull_emit_strings(polys, support_points as nat),
        ) <= 0xFFFF_FFFF
    }

    /// The record of the hull that is made next of a group of triangles.
    pub open spec fn next_hull(&self, group: Seq<usize>) -> ConvexHull {
        let before = self.interior.deep_view();
        let bounds = BoxF::spec_from_vertices(group_corners(self.brushes@, group));
        ConvexHull {
            hull_start: HullPointIndex::of(list_count(before.hull_indices.len())),
            hull_count: (3 * group.len()) as u16,
            min_x: bounds.min.x,
            max_x: bounds.max.x,
            min_y: bounds.min.y,
            max_y: bounds.max.y,
            min_z: bounds.min.z,
            max_z: bounds.max.z,
            surface_start: HullSurfaceIndex::of(list_count(before.hull_surface_indices.len())),
            surface_count: group.len() as u16,
            plane_start: HullPlaneIndex::of(list_count(before.hull_plane_indices.len())),
            poly_list_plane_start: PolyListPlaneIndex::of(
                list_count(before.poly_list_plane_indices.len()),
            ),
            poly_list_point_start: PolyListPointIndex::of(
                list_count(before.poly_list_point_indices.len()),
            ),
            poly_list_string_start: PolyListStringIndex::of(0u32),
            static_mesh: 0,
        }
    }

    fn group_bounds(&self, group: &Vec<usize>) -> (r: Option<BoxF>)
        ensures
            match r {
                Some(b) => (forall|k: int|
                    0 <= k < group@.len() ==> (#[trigger] group@[k]) < self.brushes.len()) && b
                    == BoxF::spec_from_vertices(group_corners(self.brushes@, group@)),
                None => exists|k: int|
                    0 <= k < group@.len() && (#[trigger] group@[k]) >= self.brushes.len(),
            },
    {
        let mut corners: Vec<Point3F> = Vec::new();
        let mut i: usize = 0;
        while i < group.len()
            invariant
                i <= group.len(),
                forall|k: int| 0 <= k < i ==> (#[trigger] group@[k]) < self.brushes.len(),
                corners@ == group_corners(self.brushes@, group@.take(i as int)),
            decreases group.len() - i,
        {
            if group[i] >= self.brushes.len() {
                return None;
            }
            assert(group@.take(i + 1).drop_last() =~= group@.take(i as int));
            let t = &self.brushes[group[i]];
            corners.push(t.verts[0]);
            corners.push(t.verts[1]);
            corners.push(t.verts[2]);
            i = i + 1;
        }
        assert(group@.take(i as int) =~= group@);
        Some(BoxF::from_vertices(&corners))
    }

    /// Makes a hull of a group of triangles whose corners, planes and
    /// surfaces are in the interior already, and gives its index. With the
    /// group come the indices of its corners, three for each triangle, of
    /// its planes and of its surfaces, and its polygons over the support
    /// points of the hull, of which there are `support_points`. The
    /// corners and surfaces go into the tables of the hulls. Unless the
    /// builder is for Marble Blast only, so do the planes, and each
    /// support point gets its emit string. Where no hull can be made,
    /// nothing changes.
    #[verifier::rlimit(100)]
    pub fn export_convex_hull(
        &mut self,
        group: &Vec<usize>,
        corners: &Vec<PointIndex>,
        planes: &Vec<PlaneIndex>,
        surfaces: &Vec<PossiblyNullSurfaceIndex>,
        polys: &Vec<HullPoly>,
        support_points: usize,
    ) -> (r: Result<usize, BuildError>)
        ensures
            final(self).brushes == old(self).brushes,
            final(self).face_to_surface == old(self).face_to_surface,
            final(self).face_to_plane == old(self).face_to_plane,
            final(self).mb_only == old(self).mb_only,
            final(self).bsp_report == old(self).bsp_report,
            match r {
                Err(e) => !old(self).hull_ok(
                    group@,
                    corners@,
                    planes@,
                    surfaces@,
                    polys@,
                    support_points,
                ) && *final(self) == *old(self),
                Ok(index) => {
                    let before = old(self).interior.deep_view();
                    let after = final(self).interior.deep_view();
                    &&& old(self).hull_ok(
                        group@,
                        corners@,
                        planes@,
                        surfaces@,
                        polys@,
                        support_points,
                    )
                    &&& index == before.convex_hulls.len()
                    &&& after == (InteriorView {
                        convex_hulls: before.convex_hulls.push(old(self).next_hull(group@)),
                        hull_indices: before.hull_indices + corners@,
                        hull_surface_indices: before.hull_surface_indices + surfaces@,
                        poly_list_point_indices: after.poly_list_point_indices,
                        poly_list_plane_indices: after.poly_list_plane_indices,
                        hull_plane_indices: after.hull_plane_indices,
                        hull_emit_string_indices: after.hull_emit_string_indices,
                        convex_hull_emit_string_characters: after.convex_hull_emit_string_characters,
                        ..before
                    })
                    &&& if old(self).mb_only {
                        &&& after.poly_list_point_indices == before.poly_list_point_indices
                        &&& after.poly_list_plane_indices == before.poly_list_plane_indices
                        &&& after.hull_plane_indices == before.hull_plane_indices
                        &&& after.hull_emit_string_indices == before.hull_emit_string_indices
                        &&& final(self).emit_tables() == old(self).emit_tables()
                    } else {
                        &&& after.poly_list_point_indices == before.poly_list_point_indices
                            + corners@
                        &&& after.poly_list_plane_indices == before.poly_list_plane_indices
                            + planes@
                        &&& after.hull_plane_indices == before.hull_plane_indices + planes@
                        &&& after.hull_emit_string_indices == before.hull_emit_string_indices
                            + places_of(
                            old(self).emit_tables(),
                            hull_emit_strings(polys@, support_points as nat),
                            support_points as nat,
                        )
                        &&& final(self).emit_tables() == written_all(
                            old(self).emit_tables(),
                            hull_emit_strings(polys@, support_points as nat),
                            support_points as nat,
                        )
                        &&& emit_strings_stand(
                            old(self).emit_strings@,
                            before.convex_hull_emit_string_characters,
                        ) ==> emit_strings_stand(
                            final(self).emit_strings@,
                            after.convex_hull_emit_string_characters,
                        ) && forall|i: int|
                            0 <= i < support_points ==> stands_in(
                                after.convex_hull_emit_string_characters,
                                (#[trigger] after.hull_emit_string_indices[
                                    before.hull_emit_string_indices.len() + i
                                ]).value() as int,
                                hull_emit_strings(polys@, support_points as nat)[i],
                            )
                    }
                },
            },
    {
        let n = group.len();
        if corners.len() / 3 != n || corners.len() % 3 != 0 || planes.len() != n || surfaces.len()
            != n || polys.len() != n {
            return Err(BuildError::BrokenTable);
        }
        assert(corners.len() == 3 * n);
        if corners.len() >= 0x1_0000 {
            return Err(BuildError::HullTooLarge);
        }
        let bounds = match self.group_bounds(group) {
            Some(bounds) => bounds,
            None => {
                return Err(BuildError::BrokenTable);
            },
        };
        // The emit strings are made before anything is changed.
        let strings = if self.mb_only {
            Vec::new()
        } else {
            let room = 0xFFFF_FFFFusize - if self.interior.convex_hull_emit_string_characters.len()
                > 0xFFFF_FFFF {
                0xFFFF_FFFF
            } else {
                self.interior.convex_hull_emit_string_characters.len()
            };
            if self.interior.convex_hull_emit_string_characters.len() > 0xFFFF_FFFF {
                proof {
                    lemma_emit_total_grows(polys@, 0, support_points as nat);
                }
                return Err(BuildError::EmitStringOverflow);
            }
            match plan_hull_strings(polys, support_points, room) {
                Ok(strings) => strings,
                Err(e) => {
                    assert(!self.hull_ok(
                        group@,
                        corners@,
                        planes@,
                        surfaces@,
                        polys@,
                        support_points,
                    ));
                    return Err(e);
                },
            }
        };
        let ghost before = self.interior.deep_view();
        let ghost old_entries = self.emit_strings@;
        let index = self.interior.convex_hulls.len();
        let hull = ConvexHull {
            hull_start: HullPointIndex::new(count_of(self.interior.hull_indices.len())),
            hull_count: corners.len() as u16,
            min_x: bounds.min.x,
            max_x: bounds.max.x,
            min_y: bounds.min.y,
            max_y: bounds.max.y,
            min_z: bounds.min.z,
            max_z: bounds.max.z,
            surface_start: HullSurfaceIndex::new(count_of(self.interior.hull_surface_indices.len())),
            surface_count: n as u16,
            plane_start: HullPlaneIndex::new(count_of(self.interior.hull_plane_indices.len())),
            poly_list_plane_start: PolyListPlaneIndex::new(
                count_of(self.interior.poly_list_plane_indices.len()),
            ),
            poly_list_point_start: PolyListPointIndex::new(
                count_of(self.interior.poly_list_point_indices.len()),
            ),
            poly_list_string_start: PolyListStringIndex::new(0u32),
            static_mesh: 0,
        };
        assert(hull == old(self).next_hull(group@));
        append_copy(&mut self.interior.hull_indices, corners);
        append_copy(&mut self.interior.hull_surface_indices, surfaces);
        if !self.mb_only {
            append_copy(&mut self.interior.poly_list_point_indices, corners);
            append_copy(&mut self.interior.poly_list_plane_indices, planes);
            append_copy(&mut self.interior.hull_plane_indices, planes);
        }
        self.interior.convex_hulls.push(hull);
        proof {
            let now = self.interior.deep_view();
            assert(now.hull_indices =~= before.hull_indices + corners@);
            assert(now.hull_surface_indices =~= before.hull_surface_indices + surfaces@);
            assert(now.convex_hulls =~= before.convex_hulls.push(hull));
            if !self.mb_only {
                assert(now.poly_list_point_indices =~= before.poly_list_point_indices + corners@);
                assert(now.poly_list_plane_indices =~= before.poly_list_plane_indices + planes@);
                assert(now.hull_plane_indices =~= before.hull_plane_indices + planes@);
            }
        }
        if !self.mb_only {
            let ghost mid = self.interior.deep_view();
            assert(mid.convex_hull_emit_string_characters
                == before.convex_hull_emit_string_characters);
            assert(mid.hull_emit_string_indices == before.hull_emit_string_indices);
            assert(self.interior.convex_hull_emit_string_characters@
                =~= before.convex_hull_emit_string_characters);
            assert(old(self).interior.convex_hull_emit_string_characters@
                =~= before.convex_hull_emit_string_characters);
            proof {
                lemma_hull_emit_strings_len(polys@, support_points as nat);
            }
            self.export_hull_strings(&strings);
            proof {
                let after = self.interior.deep_view();
                assert(after.hull_indices == before.hull_indices + corners@);
                assert(after.convex_hulls == before.convex_hulls.push(hull));
                assert(after.hull_emit_string_indices.len() == before.hull_emit_string_indices.len()
                    + support_points);
                assert(self.interior.convex_hull_emit_string_characters@
                    =~= after.convex_hull_emit_string_characters);
                assert(strings.deep_view() == hull_emit_strings(polys@, support_points as nat));
            }
        }
        assert(index == before.convex_hulls.len());
        Ok(index)
    }
}

/// There is one emit string for each support point.
pub proof fn lemma_hull_emit_strings_len(polys: Seq<HullPoly>, n: nat)
    ensures
        hull_emit_strings(polys, n).len() == n,
    decreases n,
{
    if n > 0 {
        lemma_hull_emit_strings_len(polys, (n - 1) as nat);
    }
}

/// The bytes of all the strings together.
pub open spec fn emit_total(strings: Seq<Seq<u8>>) -> nat
    decreases strings.len(),
{
    if strings.len() == 0 {
        0
    } else {
        emit_total(strings.drop_last()) + strings.last().len()
    }
}

/// The first strings have no more bytes than all of them, and one more
/// string adds its bytes.
pub proof fn lemma_emit_total_take(strings: Seq<Seq<u8>>, n: int)
    requires
        0 <= n < strings.len(),
    ensures
        emit_total(strings.take(n + 1)) == emit_total(strings.take(n)) + strings[n].len(),
        emit_total(strings.take(n + 1)) <= emit_total(strings),
    decreases strings.len() - n,
{
    assert(strings.take(n + 1).drop_last() =~= strings.take(n));
    if n + 1 < strings.len() {
        lemma_emit_total_take(strings, n + 1);
    } else {
        assert(strings.take(n + 1) =~= strings);
    }
}

/// Emit strings that do not fit for the first support points do not fit
/// for more of them.
pub proof fn lemma_emit_fits_stays(polys: Seq<HullPoly>, k: nat, n: nat)
    requires
        k <= n,
        !hull_emit_fits(polys, k),
    ensures
        !hull_emit_fits(polys, n),
    decreases n,
{
    if k < n {
        lemma_emit_fits_stays(polys, k, (n - 1) as nat);
    }
}

/// The emit strings of more support points have no fewer bytes.
pub proof fn lemma_emit_total_grows(polys: Seq<HullPoly>, k: nat, n: nat)
    requires
        k <= n,
    ensures
        emit_total(hull_emit_strings(polys, k)) <= emit_total(hull_emit_strings(polys, n)),
    decreases n,
{
    if k < n {
        lemma_emit_total_grows(polys, k, (n - 1) as nat);
        assert(hull_emit_strings(polys, n).drop_last() =~= hull_emit_strings(
            polys,
            (n - 1) as nat,
        ));
    }
}

/// What stands in a buffer stands in the buffer with more behind it.
pub proof fn lemma_stands_in_longer(before: Seq<u8>, after: Seq<u8>, place: int, bytes: Seq<u8>)
    requires
        0 <= place,
        stands_in(before, place, bytes),
        before.len() <= after.len(),
        after.subrange(0, before.len() as int) == before,
    ensures
        stands_in(after, place, bytes),
{
    assert(after.subrange(place, place + bytes.len()) =~= after.subrange(
        0,
        before.len() as int,
    ).subrange(place, place + bytes.len()));
}

/// An emit string found among the first ones is found among all at the
/// same place.
pub proof fn lemma_emit_index_prefix(entries: Seq<(Vec<u8>, EmitStringIndex)>, bytes: Seq<u8>, n: int)
    requires
        0 < n <= entries.len(),
        emit_index_of(entries.take(n - 1), bytes) is None,
        entries[n - 1].0@ == bytes,
    ensures
        emit_index_of(entries, bytes) == Some(entries[n - 1].1),
    decreases entries.len() - n,
{
    assert(entries.take(n).drop_last() =~= entries.take(n - 1));
    assert(entries.take(n).last() == entries[n - 1]);
    if n < entries.len() {
        lemma_emit_index_more(entries, bytes, n);
    } else {
        assert(entries.take(n) =~= entries);
    }
}

/// What is found among the first emit strings is what is found among
/// all.
pub proof fn lemma_emit_index_more(entries: Seq<(Vec<u8>, EmitStringIndex)>, bytes: Seq<u8>, n: int)
    requires
        0 <= n <= entries.len(),
        emit_index_of(entries.take(n), bytes) is Some,
    ensures
        emit_index_of(entries, bytes) == emit_index_of(entries.take(n), bytes),
    decreases entries.len() - n,
{
    if n < entries.len() {
        assert(entries.take(n + 1).drop_last() =~= entries.take(n));
        lemma_emit_index_more(entries, bytes, n + 1);
    } else {
        assert(entries.take(n) =~= entries);
    }
}

/// Where a name is found among the first names, it is found among all at
/// the same place.
pub proof fn lemma_first_index_prefix(names: Seq<Seq<char>>, name: Seq<char>, n: int)
    requires
        0 < n <= names.len(),
        first_index_of(names.take(n - 1), name) is None,
        names[n - 1] == name,
    ensures
        first_index_of(names, name) == Some(n - 1),
    decreases names.len() - n,
{
    lemma_first_index_of(names, name);
    lemma_first_index_of(names.take(n - 1), name);
    match first_index_of(names, name) {
        Some(i) => {
            if i < n - 1 {
                assert(names.take(n - 1)[i] == names[i]);
            }
        },
        None => {},
    }
}

/// Each item of `input` with the one behind it, the last one with the
/// first.
pub fn windows2_wrap<T: Copy>(input: &Vec<T>) -> (results: Vec<(T, T)>)
    ensures
        results@.len() == input@.len(),
        forall|i: int|
            0 <= i < input@.len() ==> #[trigger] results@[i] == (
                input@[i],
                input@[(i + 1) % (input@.len() as int)],
            ),
{
    let mut results: Vec<(T, T)> = Vec::new();
    let n = input.len();
    let mut i: usize = 0;
    while i < n
        invariant
            i <= n,
            n == input@.len(),
            results@.len() == i,
            forall|j: int|
                0 <= j < i ==> #[trigger] results@[j] == (input@[j], input@[(j + 1) % (n as int)]),
        decreases n - i,
    {
        let next = if i + 1 == n {
            0
        } else {
            i + 1
        };
        assert(next == (i + 1) % (n as int)) by {
            if i + 1 == n {
                assert((i + 1) % (n as int) == 0) by (nonlinear_arith)
                    requires
                        i + 1 == n,
                        n > 0,
                ;
            } else {
                assert((i + 1) % (n as int) == i + 1) by (nonlinear_arith)
                    requires
                        0 <= i + 1 < n,
                ;
            }
        }
        results.push((input[i], input[next]));
        i = i + 1;
    }
    results
}

/// The least box around the corners of the triangles.
pub open spec fn spec_bounding_box(brushes: Seq<Triangle>) -> BoxF
    decreases brushes.len(),
{
    if brushes.len() == 0 {
        BoxF::spec_nothing()
    } else {
        let t = brushes.last();
        spec_bounding_box(brushes.drop_last()).spec_union_point(t.verts@[0]).spec_union_point(
            t.verts@[1],
        ).spec_union_point(t.verts@[2])
    }
}

/// The least box around the corners of the triangles.
pub fn get_bounding_box(brushes: &Vec<Triangle>) -> (r: BoxF)
    ensures
        r == spec_bounding_box(brushes@),
{
    let mut b = BoxF::nothing();
    let mut i: usize = 0;
    while i < brushes.len()
        invariant
            i <= brushes.len(),
            b == spec_bounding_box(brushes@.take(i as int)),
        decreases brushes.len() - i,
    {
        assert(brushes@.take(i + 1).drop_last() =~= brushes@.take(i as int));
        let t = &brushes[i];
        b = b.union_point(&t.verts[0]);
        b = b.union_point(&t.verts[1]);
        b = b.union_point(&t.verts[2]);
        i = i + 1;
    }
    assert(brushes@.take(i as int) =~= brushes@);
    b
}

/// The triangles that the references name.
pub open spec fn named_triangles(brushes: Seq<&Triangle>) -> Seq<Triangle> {
    Seq::new(brushes.len(), |i: int| *brushes[i])
}

/// The least box around the corners of triangles that are held
/// elsewhere.
pub fn get_bounding_box_not_owned(brushes: &Vec<&Triangle>) -> (r: BoxF)
    ensures
        r == spec_bounding_box(named_triangles(brushes@)),
{
    let ghost all = named_triangles(brushes@);
    let mut b = BoxF::nothing();
    let mut i: usize = 0;
    while i < brushes.len()
        invariant
            i <= brushes.len(),
            all == named_triangles(brushes@),
            b == spec_bounding_box(all.take(i as int)),
        decreases brushes.len() - i,
    {
        assert(all.take(i + 1).drop_last() =~= all.take(i as int));
        let t = brushes[i];
        assert(*t == all[i as int]);
        b = b.union_point(&t.verts[0]);
        b = b.union_point(&t.verts[1]);
        b = b.union_point(&t.verts[2]);
        i = i + 1;
    }
    assert(all.take(i as int) =~= all);
    b
}

} // verus!
