use vstd::prelude::*;
use crate::errors::{DifError, DifErrorKind, DifResult};
use crate::interior::{
    lemma_surface_table_roundtrip, lemma_vec_bytes_roundtrip, lemma_vec_u16_roundtrip,
    lemma_vec_unflagged, parse_surface_table, surfaces_ok, take_surface_table, AnimatedLight, BSPNode, BSPSolidLeaf, ConvexHull,
    ConvexHullIndex, CoordBin, Edge, Edge2, Edge2View, EmitStringIndex, LMapIndex, LightMap,
    LightMapView, LightState, NormalIndex, NullSurface, Plane, PlaneIndex, PointIndex, Portal,
    PortalIndex, PossiblyNullSurfaceIndex, StateData, StaticMeshIndex, Surface, SurfaceIndex,
    SurfaceLimits, TexGenEq, TexMatrix, TexMatrixIndex, WindingIndex, Zone, _ConvexHullIndex,
    _LMapIndex, _PlaneIndex,
};
use crate::io::{
    encode_items, encode_vec_extra, encode_vec_narrow, lemma_add_assoc, lemma_add_empty, no_items,
    parse_items, parse_vec, parse_vec_extra, take_items, take_vec, take_vec_extra, write_items,
    write_vec_extra, write_vec_fn, Cursor, EngineVersion, Narrow, Readable, Reader, Version,
    Writable,
};
use crate::roundtrip::{
    lemma_empty_vec_roundtrip, lemma_items_roundtrip, lemma_split, lemma_u32_bytes,
    lemma_vec_extra_roundtrip, stands_at, RoundTrip,
};
use crate::static_mesh::{StaticMesh, StaticMeshView};
use crate::sub_object::SubObject;
use crate::types::{BoxF, ColorI, Point3F, SphereF, F32};

verus! {

/// An interior: the tables that the engine reads to draw it and to
/// collide with it.
#[derive(Clone, Debug, PartialEq, Eq)]
pub struct Interior {
    pub detail_level: u32,
    pub min_pixels: u32,
    pub bounding_box: BoxF,
    pub bounding_sphere: SphereF,
    pub has_alarm_state: u8,
    pub num_light_state_entries: u32,
    pub normals: Vec<Point3F>,
    pub planes: Vec<Plane>,
    pub points: Vec<Point3F>,
    pub point_visibilities: Vec<u8>,
    pub tex_gen_eqs: Vec<TexGenEq>,
    pub bsp_nodes: Vec<BSPNode>,
    pub bsp_solid_leaves: Vec<BSPSolidLeaf>,
    pub material_names: Vec<String>,
    pub indices: Vec<PointIndex>,
    pub winding_indices: Vec<WindingIndex>,
    pub edges: Vec<Edge>,
    pub zones: Vec<Zone>,
    pub zone_surfaces: Vec<SurfaceIndex>,
    pub zone_static_meshes: Vec<StaticMeshIndex>,
    pub zone_portal_lists: Vec<PortalIndex>,
    pub portals: Vec<Portal>,
    pub surfaces: Vec<Surface>,
    pub edge2s: Vec<Edge2>,
    pub normal2s: Vec<Point3F>,
    pub normal_indices: Vec<NormalIndex>,
    pub normal_lmap_indices: Vec<LMapIndex>,
    pub alarm_lmap_indices: Vec<LMapIndex>,
    pub null_surfaces: Vec<NullSurface>,
    pub light_maps: Vec<LightMap>,
    pub solid_leaf_surfaces: Vec<PossiblyNullSurfaceIndex>,
    pub animated_lights: Vec<AnimatedLight>,
    pub light_states: Vec<LightState>,
    pub state_datas: Vec<StateData>,
    pub state_data_buffers: Vec<StateData>,
    pub flags: u32,
    pub name_buffer_characters: Vec<u8>,
    pub sub_objects: Vec<SubObject>,
    pub convex_hulls: Vec<ConvexHull>,
    pub convex_hull_emit_string_characters: Vec<u8>,
    pub hull_indices: Vec<PointIndex>,
    pub hull_plane_indices: Vec<PlaneIndex>,
    pub hull_emit_string_indices: Vec<EmitStringIndex>,
    pub hull_surface_indices: Vec<PossiblyNullSurfaceIndex>,
    pub poly_list_plane_indices: Vec<PlaneIndex>,
    pub poly_list_point_indices: Vec<PointIndex>,
    pub poly_list_string_characters: Vec<u8>,
    pub coord_bins: Vec<CoordBin>,
    pub coord_bin_indices: Vec<ConvexHullIndex>,
    pub coord_bin_mode: u32,
    pub base_ambient_color: ColorI,
    pub alarm_ambient_color: ColorI,
    pub static_meshes: Vec<StaticMesh>,
    pub tex_normals: Vec<Point3F>,
    pub tex_matrices: Vec<TexMatrix>,
    pub tex_matrix_indices: Vec<TexMatrixIndex>,
    pub extended_light_map_data: u32,
    pub light_map_border_size: u32,
}

/// What an `Interior` holds, as mathematical values.
pub struct InteriorView {
    pub detail_level: u32,
    pub min_pixels: u32,
    pub bounding_box: BoxF,
    pub bounding_sphere: SphereF,
    pub has_alarm_state: u8,
    pub num_light_state_entries: u32,
    pub normals: Seq<Point3F>,
    pub planes: Seq<Plane>,
    pub points: Seq<Point3F>,
    pub point_visibilities: Seq<u8>,
    pub tex_gen_eqs: Seq<TexGenEq>,
    pub bsp_nodes: Seq<BSPNode>,
    pub bsp_solid_leaves: Seq<BSPSolidLeaf>,
    pub material_names: Seq<Seq<char>>,
    pub indices: Seq<PointIndex>,
    pub winding_indices: Seq<WindingIndex>,
    pub edges: Seq<Edge>,
    pub zones: Seq<Zone>,
    pub zone_surfaces: Seq<SurfaceIndex>,
    pub zone_static_meshes: Seq<StaticMeshIndex>,
    pub zone_portal_lists: Seq<PortalIndex>,
    pub portals: Seq<Portal>,
    pub surfaces: Seq<Surface>,
    pub edge2s: Seq<Edge2View>,
    pub normal2s: Seq<Point3F>,
    pub normal_indices: Seq<NormalIndex>,
    pub normal_lmap_indices: Seq<LMapIndex>,
    pub alarm_lmap_indices: Seq<LMapIndex>,
    pub null_surfaces: Seq<NullSurface>,
    pub light_maps: Seq<LightMapView>,
    pub solid_leaf_surfaces: Seq<PossiblyNullSurfaceIndex>,
    pub animated_lights: Seq<AnimatedLight>,
    pub light_states: Seq<LightState>,
    pub state_datas: Seq<StateData>,
    pub state_data_buffers: Seq<StateData>,
    pub flags: u32,
    pub name_buffer_characters: Seq<u8>,
    pub sub_objects: Seq<SubObject>,
    pub convex_hulls: Seq<ConvexHull>,
    pub convex_hull_emit_string_characters: Seq<u8>,
    pub hull_indices: Seq<PointIndex>,
    pub hull_plane_indices: Seq<PlaneIndex>,
    pub hull_emit_string_indices: Seq<EmitStringIndex>,
    pub hull_surface_indices: Seq<PossiblyNullSurfaceIndex>,
    pub poly_list_plane_indices: Seq<PlaneIndex>,
    pub poly_list_point_indices: Seq<PointIndex>,
    pub poly_list_string_characters: Seq<u8>,
    pub coord_bins: Seq<CoordBin>,
    pub coord_bin_indices: Seq<ConvexHullIndex>,
    pub coord_bin_mode: u32,
    pub base_ambient_color: ColorI,
    pub alarm_ambient_color: ColorI,
    pub static_meshes: Seq<StaticMeshView>,
    pub tex_normals: Seq<Point3F>,
    pub tex_matrices: Seq<TexMatrix>,
    pub tex_matrix_indices: Seq<TexMatrixIndex>,
    pub extended_light_map_data: u32,
    pub light_map_border_size: u32,
}

impl DeepView for Interior {
    type V = InteriorView;

    open spec fn deep_view(&self) -> InteriorView {
        InteriorView {
            detail_level: self.detail_level.deep_view(),
            min_pixels: self.min_pixels.deep_view(),
            bounding_box: self.bounding_box.deep_view(),
            bounding_sphere: self.bounding_sphere.deep_view(),
            has_alarm_state: self.has_alarm_state.deep_view(),
            num_light_state_entries: self.num_light_state_entries.deep_view(),
            normals: self.normals.deep_view(),
            planes: self.planes.deep_view(),
            points: self.points.deep_view(),
            point_visibilities: self.point_visibilities.deep_view(),
            tex_gen_eqs: self.tex_gen_eqs.deep_view(),
            bsp_nodes: self.bsp_nodes.deep_view(),
            bsp_solid_leaves: self.bsp_solid_leaves.deep_view(),
            material_names: self.material_names.deep_view(),
            indices: self.indices.deep_view(),
            winding_indices: self.winding_indices.deep_view(),
            edges: self.edges.deep_view(),
            zones: self.zones.deep_view(),
            zone_surfaces: self.zone_surfaces.deep_view(),
            zone_static_meshes: self.zone_static_meshes.deep_view(),
            zone_portal_lists: self.zone_portal_lists.deep_view(),
            portals: self.portals.deep_view(),
            surfaces: self.surfaces.deep_view(),
            edge2s: self.edge2s.deep_view(),
            normal2s: self.normal2s.deep_view(),
            normal_indices: self.normal_indices.deep_view(),
            normal_lmap_indices: self.normal_lmap_indices.deep_view(),
            alarm_lmap_indices: self.alarm_lmap_indices.deep_view(),
            null_surfaces: self.null_surfaces.deep_view(),
            light_maps: self.light_maps.deep_view(),
            solid_leaf_surfaces: self.solid_leaf_surfaces.deep_view(),
            animated_lights: self.animated_lights.deep_view(),
            light_states: self.light_states.deep_view(),
            state_datas: self.state_datas.deep_view(),
            state_data_buffers: self.state_data_buffers.deep_view(),
            flags: self.flags.deep_view(),
            name_buffer_characters: self.name_buffer_characters.deep_view(),
            sub_objects: self.sub_objects.deep_view(),
            convex_hulls: self.convex_hulls.deep_view(),
            convex_hull_emit_string_characters: self.convex_hull_emit_string_characters.deep_view(),
            hull_indices: self.hull_indices.deep_view(),
            hull_plane_indices: self.hull_plane_indices.deep_view(),
            hull_emit_string_indices: self.hull_emit_string_indices.deep_view(),
            hull_surface_indices: self.hull_surface_indices.deep_view(),
            poly_list_plane_indices: self.poly_list_plane_indices.deep_view(),
            poly_list_point_indices: self.poly_list_point_indices.deep_view(),
            poly_list_string_characters: self.poly_list_string_characters.deep_view(),
            coord_bins: self.coord_bins.deep_view(),
            coord_bin_indices: self.coord_bin_indices.deep_view(),
            coord_bin_mode: self.coord_bin_mode.deep_view(),
            base_ambient_color: self.base_ambient_color.deep_view(),
            alarm_ambient_color: self.alarm_ambient_color.deep_view(),
            static_meshes: self.static_meshes.deep_view(),
            tex_normals: self.tex_normals.deep_view(),
            tex_matrices: self.tex_matrices.deep_view(),
            tex_matrix_indices: self.tex_matrix_indices.deep_view(),
            extended_light_map_data: self.extended_light_map_data.deep_view(),
            light_map_border_size: self.light_map_border_size.deep_view(),
        }
    }
}

impl Interior {
    /// The interior with empty tables, of which `min_pixels` is 250 and the
    /// ambient colors are opaque black.
    pub open spec fn empty_view() -> InteriorView {
        InteriorView {
            detail_level: 0,
            min_pixels: 250,
            bounding_box: BoxF { min: Point3F::spec_zero(), max: Point3F::spec_zero() },
            bounding_sphere: SphereF { origin: Point3F::spec_zero(), radius: F32 { bits: 0 } },
            has_alarm_state: 0,
            num_light_state_entries: 0,
            normals: Seq::empty(),
            planes: Seq::empty(),
            points: Seq::empty(),
            point_visibilities: Seq::empty(),
            tex_gen_eqs: Seq::empty(),
            bsp_nodes: Seq::empty(),
            bsp_solid_leaves: Seq::empty(),
            material_names: Seq::empty(),
            indices: Seq::empty(),
            winding_indices: Seq::empty(),
            edges: Seq::empty(),
            zones: Seq::empty(),
            zone_surfaces: Seq::empty(),
            zone_static_meshes: Seq::empty(),
            zone_portal_lists: Seq::empty(),
            portals: Seq::empty(),
            surfaces: Seq::empty(),
            edge2s: Seq::empty(),
            normal2s: Seq::empty(),
            normal_indices: Seq::empty(),
            normal_lmap_indices: Seq::empty(),
            alarm_lmap_indices: Seq::empty(),
            null_surfaces: Seq::empty(),
            light_maps: Seq::empty(),
            solid_leaf_surfaces: Seq::empty(),
            animated_lights: Seq::empty(),
            light_states: Seq::empty(),
            state_datas: Seq::empty(),
            state_data_buffers: Seq::empty(),
            flags: 0,
            name_buffer_characters: Seq::empty(),
            sub_objects: Seq::empty(),
            convex_hulls: Seq::empty(),
            convex_hull_emit_string_characters: Seq::empty(),
            hull_indices: Seq::empty(),
            hull_plane_indices: Seq::empty(),
            hull_emit_string_indices: Seq::empty(),
            hull_surface_indices: Seq::empty(),
            poly_list_plane_indices: Seq::empty(),
            poly_list_point_indices: Seq::empty(),
            poly_list_string_characters: Seq::empty(),
            coord_bins: Seq::empty(),
            coord_bin_indices: Seq::empty(),
            coord_bin_mode: 0,
            base_ambient_color: ColorI { r: 0, g: 0, b: 0, a: 255 },
            alarm_ambient_color: ColorI { r: 0, g: 0, b: 0, a: 255 },
            static_meshes: Seq::empty(),
            tex_normals: Seq::empty(),
            tex_matrices: Seq::empty(),
            tex_matrix_indices: Seq::empty(),
            extended_light_map_data: 0,
            light_map_border_size: 0,
        }
    }
}

/// An interior with nothing in it.
pub fn empty_interior() -> (r: Interior)
    ensures
        r.deep_view() == Interior::empty_view(),
{
    let r = Interior {
        detail_level: 0,
        min_pixels: 250,
        bounding_box: BoxF { min: Point3F::zero(), max: Point3F::zero() },
        bounding_sphere: SphereF { origin: Point3F::zero(), radius: F32 { bits: 0 } },
        has_alarm_state: 0,
        num_light_state_entries: 0,
        normals: Vec::new(),
        planes: Vec::new(),
        points: Vec::new(),
        point_visibilities: Vec::new(),
        tex_gen_eqs: Vec::new(),
        bsp_nodes: Vec::new(),
        bsp_solid_leaves: Vec::new(),
        material_names: Vec::new(),
        indices: Vec::new(),
        winding_indices: Vec::new(),
        edges: Vec::new(),
        zones: Vec::new(),
        zone_surfaces: Vec::new(),
        zone_static_meshes: Vec::new(),
        zone_portal_lists: Vec::new(),
        portals: Vec::new(),
        surfaces: Vec::new(),
        edge2s: Vec::new(),
        normal2s: Vec::new(),
        normal_indices: Vec::new(),
        normal_lmap_indices: Vec::new(),
        alarm_lmap_indices: Vec::new(),
        null_surfaces: Vec::new(),
        light_maps: Vec::new(),
        solid_leaf_surfaces: Vec::new(),
        animated_lights: Vec::new(),
        light_states: Vec::new(),
        state_datas: Vec::new(),
        state_data_buffers: Vec::new(),
        flags: 0,
        name_buffer_characters: Vec::new(),
        sub_objects: Vec::new(),
        convex_hulls: Vec::new(),
        convex_hull_emit_string_characters: Vec::new(),
        hull_indices: Vec::new(),
        hull_plane_indices: Vec::new(),
        hull_emit_string_indices: Vec::new(),
        hull_surface_indices: Vec::new(),
        poly_list_plane_indices: Vec::new(),
        poly_list_point_indices: Vec::new(),
        poly_list_string_characters: Vec::new(),
        coord_bins: Vec::new(),
        coord_bin_indices: Vec::new(),
        coord_bin_mode: 0,
        base_ambient_color: ColorI { r: 0, g: 0, b: 0, a: 255 },
        alarm_ambient_color: ColorI { r: 0, g: 0, b: 0, a: 255 },
        static_meshes: Vec::new(),
        tex_normals: Vec::new(),
        tex_matrices: Vec::new(),
        tex_matrix_indices: Vec::new(),
        extended_light_map_data: 0,
        light_map_border_size: 0,
    };
    proof {
        assert(r.normals.deep_view() =~= Seq::<Point3F>::empty());
        assert(r.planes.deep_view() =~= Seq::<Plane>::empty());
        assert(r.points.deep_view() =~= Seq::<Point3F>::empty());
        assert(r.point_visibilities.deep_view() =~= Seq::<u8>::empty());
        assert(r.tex_gen_eqs.deep_view() =~= Seq::<TexGenEq>::empty());
        assert(r.bsp_nodes.deep_view() =~= Seq::<BSPNode>::empty());
        assert(r.bsp_solid_leaves.deep_view() =~= Seq::<BSPSolidLeaf>::empty());
        assert(r.material_names.deep_view() =~= Seq::<Seq<char>>::empty());
        assert(r.indices.deep_view() =~= Seq::<PointIndex>::empty());
        assert(r.winding_indices.deep_view() =~= Seq::<WindingIndex>::empty());
        assert(r.edges.deep_view() =~= Seq::<Edge>::empty());
        assert(r.zones.deep_view() =~= Seq::<Zone>::empty());
        assert(r.zone_surfaces.deep_view() =~= Seq::<SurfaceIndex>::empty());
        assert(r.zone_static_meshes.deep_view() =~= Seq::<StaticMeshIndex>::empty());
        assert(r.zone_portal_lists.deep_view() =~= Seq::<PortalIndex>::empty());
        assert(r.portals.deep_view() =~= Seq::<Portal>::empty());
        assert(r.surfaces.deep_view() =~= Seq::<Surface>::empty());
        assert(r.edge2s.deep_view() =~= Seq::<Edge2View>::empty());
        assert(r.normal2s.deep_view() =~= Seq::<Point3F>::empty());
        assert(r.normal_indices.deep_view() =~= Seq::<NormalIndex>::empty());
        assert(r.normal_lmap_indices.deep_view() =~= Seq::<LMapIndex>::empty());
        assert(r.alarm_lmap_indices.deep_view() =~= Seq::<LMapIndex>::empty());
        assert(r.null_surfaces.deep_view() =~= Seq::<NullSurface>::empty());
        assert(r.light_maps.deep_view() =~= Seq::<LightMapView>::empty());
        assert(r.solid_leaf_surfaces.deep_view() =~= Seq::<PossiblyNullSurfaceIndex>::empty());
        assert(r.animated_lights.deep_view() =~= Seq::<AnimatedLight>::empty());
        assert(r.light_states.deep_view() =~= Seq::<LightState>::empty());
        assert(r.state_datas.deep_view() =~= Seq::<StateData>::empty());
        assert(r.state_data_buffers.deep_view() =~= Seq::<StateData>::empty());
        assert(r.name_buffer_characters.deep_view() =~= Seq::<u8>::empty());
        assert(r.sub_objects.deep_view() =~= Seq::<SubObject>::empty());
        assert(r.convex_hulls.deep_view() =~= Seq::<ConvexHull>::empty());
        assert(r.convex_hull_emit_string_characters.deep_view() =~= Seq::<u8>::empty());
        assert(r.hull_indices.deep_view() =~= Seq::<PointIndex>::empty());
        assert(r.hull_plane_indices.deep_view() =~= Seq::<PlaneIndex>::empty());
        assert(r.hull_emit_string_indices.deep_view() =~= Seq::<EmitStringIndex>::empty());
        assert(r.hull_surface_indices.deep_view() =~= Seq::<PossiblyNullSurfaceIndex>::empty());
        assert(r.poly_list_plane_indices.deep_view() =~= Seq::<PlaneIndex>::empty());
        assert(r.poly_list_point_indices.deep_view() =~= Seq::<PointIndex>::empty());
        assert(r.poly_list_string_characters.deep_view() =~= Seq::<u8>::empty());
        assert(r.coord_bins.deep_view() =~= Seq::<CoordBin>::empty());
        assert(r.coord_bin_indices.deep_view() =~= Seq::<ConvexHullIndex>::empty());
        assert(r.static_meshes.deep_view() =~= Seq::<StaticMeshView>::empty());
        assert(r.tex_normals.deep_view() =~= Seq::<Point3F>::empty());
        assert(r.tex_matrices.deep_view() =~= Seq::<TexMatrix>::empty());
        assert(r.tex_matrix_indices.deep_view() =~= Seq::<TexMatrixIndex>::empty());
    }
    r
}

/// The head of an interior: its bounds and the tables of its geometry.
/// On the wire the version of the interior stands before it; one above 14
/// is refused.
#[derive(Debug)]
pub struct InteriorGeometry {
    pub detail_level: u32,
    pub min_pixels: u32,
    pub bounding_box: BoxF,
    pub bounding_sphere: SphereF,
    pub has_alarm_state: u8,
    pub num_light_state_entries: u32,
    pub normals: Vec<Point3F>,
    pub planes: Vec<Plane>,
    pub points: Vec<Point3F>,
    pub point_visibilities: Vec<u8>,
    pub tex_gen_eqs: Vec<TexGenEq>,
    pub bsp_nodes: Vec<BSPNode>,
    pub bsp_solid_leaves: Vec<BSPSolidLeaf>,
}

/// What an `InteriorGeometry` holds, as mathematical values.
pub struct InteriorGeometryView {
    pub detail_level: u32,
    pub min_pixels: u32,
    pub bounding_box: BoxF,
    pub bounding_sphere: SphereF,
    pub has_alarm_state: u8,
    pub num_light_state_entries: u32,
    pub normals: Seq<Point3F>,
    pub planes: Seq<Plane>,
    pub points: Seq<Point3F>,
    pub point_visibilities: Seq<u8>,
    pub tex_gen_eqs: Seq<TexGenEq>,
    pub bsp_nodes: Seq<BSPNode>,
    pub bsp_solid_leaves: Seq<BSPSolidLeaf>,
}

impl DeepView for InteriorGeometry {
    type V = InteriorGeometryView;

    open spec fn deep_view(&self) -> InteriorGeometryView {
        InteriorGeometryView {
            detail_level: self.detail_level.deep_view(),
            min_pixels: self.min_pixels.deep_view(),
            bounding_box: self.bounding_box.deep_view(),
            bounding_sphere: self.bounding_sphere.deep_view(),
            has_alarm_state: self.has_alarm_state.deep_view(),
            num_light_state_entries: self.num_light_state_entries.deep_view(),
            normals: self.normals.deep_view(),
            planes: self.planes.deep_view(),
            points: self.points.deep_view(),
            point_visibilities: self.point_visibilities.deep_view(),
            tex_gen_eqs: self.tex_gen_eqs.deep_view(),
            bsp_nodes: self.bsp_nodes.deep_view(),
            bsp_solid_leaves: self.bsp_solid_leaves.deep_view(),
        }
    }
}

/// The geometry of an interior as it stands on the wire.
#[verifier::opaque]
pub open spec fn parse_geometry(d: Seq<u8>, c: Cursor, v: Version) -> (InteriorGeometryView, Cursor, Version) {
    let (interior_version, c, v) = u32::parse(d, c, v);
    let v = Version { interior: interior_version, ..v };
    let c = if c.ok() && interior_version > 14 {
        c.fail(DifErrorKind::UnsupportedInteriorVersion)
    } else {
        c
    };
    let (detail_level, c, v) = u32::parse(d, c, v);
    let (min_pixels, c, v) = u32::parse(d, c, v);
    let (bounding_box, c, v) = BoxF::parse(d, c, v);
    let (bounding_sphere, c, v) = SphereF::parse(d, c, v);
    let (has_alarm_state, c, v) = u8::parse(d, c, v);
    let (num_light_state_entries, c, v) = u32::parse(d, c, v);
    let (normals, c, v) = Vec::<Point3F>::parse(d, c, v);
    let (planes, c, v) = Vec::<Plane>::parse(d, c, v);
    let (points, c, v) = Vec::<Point3F>::parse(d, c, v);
    let (point_visibilities, c, v) = if v.interior != 4 {
        Vec::<u8>::parse(d, c, v)
    } else {
        (Seq::empty(), c, v)
    };
    let (tex_gen_eqs, c, v) = Vec::<TexGenEq>::parse(d, c, v);
    let (bsp_nodes, c, v) = Vec::<BSPNode>::parse(d, c, v);
    let (bsp_solid_leaves, c, v) = Vec::<BSPSolidLeaf>::parse(d, c, v);
    (
        InteriorGeometryView {
            detail_level,
            min_pixels,
            bounding_box,
            bounding_sphere,
            has_alarm_state,
            num_light_state_entries,
            normals,
            planes,
            points,
            point_visibilities,
            tex_gen_eqs,
            bsp_nodes,
            bsp_solid_leaves,
        },
        c,
        v,
    )
}

impl Readable for InteriorGeometry {
    open spec fn parse(d: Seq<u8>, c: Cursor, v: Version) -> (InteriorGeometryView, Cursor, Version) {
        parse_geometry(d, c, v)
    }

    fn take(from: &mut Reader, version: &mut Version) -> (r: Self) {
        reveal(parse_geometry);
        version.interior = u32::take(from, version);
        if from.ok() && version.interior > 14 {
            from.fail(DifErrorKind::UnsupportedInteriorVersion);
        }
        let detail_level = u32::take(from, version);
        let min_pixels = u32::take(from, version);
        let bounding_box = BoxF::take(from, version);
        let bounding_sphere = SphereF::take(from, version);
        let has_alarm_state = u8::take(from, version);
        let num_light_state_entries = u32::take(from, version);
        let normals = Vec::<Point3F>::take(from, version);
        let planes = Vec::<Plane>::take(from, version);
        let points = Vec::<Point3F>::take(from, version);
        let point_visibilities = if version.interior != 4 {
            Vec::<u8>::take(from, version)
        } else {
            no_items()
        };
        let tex_gen_eqs = Vec::<TexGenEq>::take(from, version);
        let bsp_nodes = Vec::<BSPNode>::take(from, version);
        let bsp_solid_leaves = Vec::<BSPSolidLeaf>::take(from, version);
        InteriorGeometry {
            detail_level,
            min_pixels,
            bounding_box,
            bounding_sphere,
            has_alarm_state,
            num_light_state_entries,
            normals,
            planes,
            points,
            point_visibilities,
            tex_gen_eqs,
            bsp_nodes,
            bsp_solid_leaves,
        }
    }
}

/// The materials, the windings, the zones and the portals.
#[derive(Debug)]
pub struct InteriorTopology {
    pub material_names: Vec<String>,
    pub indices: Vec<PointIndex>,
    pub winding_indices: Vec<WindingIndex>,
    pub edges: Vec<Edge>,
    pub zones: Vec<Zone>,
    pub zone_surfaces: Vec<SurfaceIndex>,
    pub zone_static_meshes: Vec<StaticMeshIndex>,
    pub zone_portal_lists: Vec<PortalIndex>,
    pub portals: Vec<Portal>,
}

/// What an `InteriorTopology` holds, as mathematical values.
pub struct InteriorTopologyView {
    pub material_names: Seq<Seq<char>>,
    pub indices: Seq<PointIndex>,
    pub winding_indices: Seq<WindingIndex>,
    pub edges: Seq<Edge>,
    pub zones: Seq<Zone>,
    pub zone_surfaces: Seq<SurfaceIndex>,
    pub zone_static_meshes: Seq<StaticMeshIndex>,
    pub zone_portal_lists: Seq<PortalIndex>,
    pub portals: Seq<Portal>,
}

impl DeepView for InteriorTopology {
    type V = InteriorTopologyView;

    open spec fn deep_view(&self) -> InteriorTopologyView {
        InteriorTopologyView {
            material_names: self.material_names.deep_view(),
            indices: self.indices.deep_view(),
            winding_indices: self.winding_indices.deep_view(),
            edges: self.edges.deep_view(),
            zones: self.zones.deep_view(),
            zone_surfaces: self.zone_surfaces.deep_view(),
            zone_static_meshes: self.zone_static_meshes.deep_view(),
            zone_portal_lists: self.zone_portal_lists.deep_view(),
            portals: self.portals.deep_view(),
        }
    }
}

/// The topology of an interior as it stands on the wire.
#[verifier::opaque]
pub open spec fn parse_topology(d: Seq<u8>, c: Cursor, v: Version) -> (InteriorTopologyView, Cursor, Version) {
    let (material_list, c, v) = u8::parse(d, c, v);
    let v = Version { material_list, ..v };
    let (material_names, c, v) = Vec::<String>::parse(d, c, v);
    let (indices, c, v) = parse_vec::<PointIndex, u16>(d, c, v, Narrow::Flagged);
    let (winding_indices, c, v) = Vec::<WindingIndex>::parse(d, c, v);
    let (edges, c, v) = if v.interior >= 12 {
        Vec::<Edge>::parse(d, c, v)
    } else {
        (Seq::empty(), c, v)
    };
    let (zones, c, v) = Vec::<Zone>::parse(d, c, v);
    let (zone_surfaces, c, v) = parse_vec::<SurfaceIndex, u16>(d, c, v, Narrow::Never);
    let (zone_static_meshes, c, v) = if v.interior >= 12 {
        Vec::<StaticMeshIndex>::parse(d, c, v)
    } else {
        (Seq::empty(), c, v)
    };
    let (zone_portal_lists, c, v) = parse_vec::<PortalIndex, u16>(d, c, v, Narrow::Never);
    let (portals, c, v) = Vec::<Portal>::parse(d, c, v);
    (
        InteriorTopologyView {
            material_names,
            indices,
            winding_indices,
            edges,
            zones,
            zone_surfaces,
            zone_static_meshes,
            zone_portal_lists,
            portals,
        },
        c,
        v,
    )
}

impl Readable for InteriorTopology {
    open spec fn parse(d: Seq<u8>, c: Cursor, v: Version) -> (InteriorTopologyView, Cursor, Version) {
        parse_topology(d, c, v)
    }

    fn take(from: &mut Reader, version: &mut Version) -> (r: Self) {
        reveal(parse_topology);
        version.material_list = u8::take(from, version);
        let material_names = Vec::<String>::take(from, version);
        let indices = take_vec::<PointIndex, u16>(from, version, Narrow::Flagged);
        let winding_indices = Vec::<WindingIndex>::take(from, version);
        let edges = if version.interior >= 12 {
            Vec::<Edge>::take(from, version)
        } else {
            no_items()
        };
        let zones = Vec::<Zone>::take(from, version);
        let zone_surfaces = take_vec::<SurfaceIndex, u16>(from, version, Narrow::Never);
        let zone_static_meshes = if version.interior >= 12 {
            Vec::<StaticMeshIndex>::take(from, version)
        } else {
            no_items()
        };
        let zone_portal_lists = take_vec::<PortalIndex, u16>(from, version, Narrow::Never);
        let portals = Vec::<Portal>::take(from, version);
        InteriorTopology {
            material_names,
            indices,
            winding_indices,
            edges,
            zones,
            zone_surfaces,
            zone_static_meshes,
            zone_portal_lists,
            portals,
        }
    }
}

/// The tables between the surfaces and the convex hulls. Light maps
/// in a stream taken for Marble Blast Gold make it one of the Torque Game
/// Engine.
#[derive(Debug)]
pub struct InteriorLighting {
    pub edge2s: Vec<Edge2>,
    pub normal2s: Vec<Point3F>,
    pub normal_indices: Vec<NormalIndex>,
    pub normal_lmap_indices: Vec<LMapIndex>,
    pub alarm_lmap_indices: Vec<LMapIndex>,
    pub null_surfaces: Vec<NullSurface>,
    pub light_maps: Vec<LightMap>,
    pub solid_leaf_surfaces: Vec<PossiblyNullSurfaceIndex>,
    pub animated_lights: Vec<AnimatedLight>,
    pub light_states: Vec<LightState>,
}

/// What an `InteriorLighting` holds, as mathematical values.
pub struct InteriorLightingView {
    pub edge2s: Seq<Edge2View>,
    pub normal2s: Seq<Point3F>,
    pub normal_indices: Seq<NormalIndex>,
    pub normal_lmap_indices: Seq<LMapIndex>,
    pub alarm_lmap_indices: Seq<LMapIndex>,
    pub null_surfaces: Seq<NullSurface>,
    pub light_maps: Seq<LightMapView>,
    pub solid_leaf_surfaces: Seq<PossiblyNullSurfaceIndex>,
    pub animated_lights: Seq<AnimatedLight>,
    pub light_states: Seq<LightState>,
}

impl DeepView for InteriorLighting {
    type V = InteriorLightingView;

    open spec fn deep_view(&self) -> InteriorLightingView {
        InteriorLightingView {
            edge2s: self.edge2s.deep_view(),
            normal2s: self.normal2s.deep_view(),
            normal_indices: self.normal_indices.deep_view(),
            normal_lmap_indices: self.normal_lmap_indices.deep_view(),
            alarm_lmap_indices: self.alarm_lmap_indices.deep_view(),
            null_surfaces: self.null_surfaces.deep_view(),
            light_maps: self.light_maps.deep_view(),
            solid_leaf_surfaces: self.solid_leaf_surfaces.deep_view(),
            animated_lights: self.animated_lights.deep_view(),
            light_states: self.light_states.deep_view(),
        }
    }
}

/// The lighting of an interior as it stands on the wire.
#[verifier::opaque]
pub open spec fn parse_lighting(d: Seq<u8>, c: Cursor, v: Version) -> (InteriorLightingView, Cursor, Version) {
    let (edge2s, c, v) = if 2 <= v.interior <= 5 {
        Vec::<Edge2>::parse(d, c, v)
    } else {
        (Seq::empty(), c, v)
    };
    let (normal2s, c, v) = if 4 <= v.interior <= 5 {
        Vec::<Point3F>::parse(d, c, v)
    } else {
        (Seq::empty(), c, v)
    };
    let (normal_indices, c, v) = if 4 <= v.interior <= 5 {
        parse_vec::<NormalIndex, u8>(d, c, v, Narrow::FlaggedZero)
    } else {
        (Seq::empty(), c, v)
    };
    let (normal_lmap_indices, c, v) = if v.interior >= 13 {
        Vec::<LMapIndex>::parse(d, c, v)
    } else {
        parse_vec::<LMapIndex, u8>(d, c, v, Narrow::Always)
    };
    let (alarm_lmap_indices, c, v) = if v.interior >= 13 {
        Vec::<LMapIndex>::parse(d, c, v)
    } else if v.interior != 4 {
        parse_vec::<LMapIndex, u8>(d, c, v, Narrow::Always)
    } else {
        (Seq::empty(), c, v)
    };
    let (null_surfaces, c, v) = Vec::<NullSurface>::parse(d, c, v);
    let (light_maps, c, v) = if v.interior != 4 {
        Vec::<LightMap>::parse(d, c, v)
    } else {
        (Seq::empty(), c, v)
    };
    let v = if light_maps.len() > 0 && v.engine == EngineVersion::MBG {
        Version { engine: EngineVersion::TGE, ..v }
    } else {
        v
    };
    let (solid_leaf_surfaces, c, v) = parse_vec::<PossiblyNullSurfaceIndex, u16>(d, c, v, Narrow::Flagged);
    let (animated_lights, c, v) = Vec::<AnimatedLight>::parse(d, c, v);
    let (light_states, c, v) = Vec::<LightState>::parse(d, c, v);
    (
        InteriorLightingView {
            edge2s,
            normal2s,
            normal_indices,
            normal_lmap_indices,
            alarm_lmap_indices,
            null_surfaces,
            light_maps,
            solid_leaf_surfaces,
            animated_lights,
            light_states,
        },
        c,
        v,
    )
}

impl Readable for InteriorLighting {
    open spec fn parse(d: Seq<u8>, c: Cursor, v: Version) -> (InteriorLightingView, Cursor, Version) {
        parse_lighting(d, c, v)
    }

    fn take(from: &mut Reader, version: &mut Version) -> (r: Self) {
        reveal(parse_lighting);
        let edge2s = if 2 <= version.interior && version.interior <= 5 {
            Vec::<Edge2>::take(from, version)
        } else {
            no_items()
        };
        let normal2s = if 4 <= version.interior && version.interior <= 5 {
            Vec::<Point3F>::take(from, version)
        } else {
            no_items()
        };
        let normal_indices = if 4 <= version.interior && version.interior <= 5 {
            take_vec::<NormalIndex, u8>(from, version, Narrow::FlaggedZero)
        } else {
            no_items()
        };
        let normal_lmap_indices = if version.interior >= 13 {
            Vec::<LMapIndex>::take(from, version)
        } else {
            take_vec::<LMapIndex, u8>(from, version, Narrow::Always)
        };
        let alarm_lmap_indices = if version.interior >= 13 {
            Vec::<LMapIndex>::take(from, version)
        } else if version.interior != 4 {
            take_vec::<LMapIndex, u8>(from, version, Narrow::Always)
        } else {
            no_items()
        };
        let null_surfaces = Vec::<NullSurface>::take(from, version);
        let light_maps = if version.interior != 4 {
            Vec::<LightMap>::take(from, version)
        } else {
            no_items()
        };
        if light_maps.len() > 0 && version.engine == EngineVersion::MBG {
            version.engine = EngineVersion::TGE;
        }
        let solid_leaf_surfaces = take_vec::<PossiblyNullSurfaceIndex, u16>(from, version, Narrow::Flagged);
        let animated_lights = Vec::<AnimatedLight>::take(from, version);
        let light_states = Vec::<LightState>::take(from, version);
        InteriorLighting {
            edge2s,
            normal2s,
            normal_indices,
            normal_lmap_indices,
            alarm_lmap_indices,
            null_surfaces,
            light_maps,
            solid_leaf_surfaces,
            animated_lights,
            light_states,
        }
    }
}

/// The light state data and the tables of the convex hulls.
#[derive(Debug)]
pub struct InteriorHulls {
    pub state_datas: Vec<StateData>,
    pub state_data_buffers: Vec<StateData>,
    pub flags: u32,
    pub name_buffer_characters: Vec<u8>,
    pub sub_objects: Vec<SubObject>,
    pub convex_hulls: Vec<ConvexHull>,
    pub convex_hull_emit_string_characters: Vec<u8>,
    pub hull_indices: Vec<PointIndex>,
    pub hull_plane_indices: Vec<PlaneIndex>,
    pub hull_emit_string_indices: Vec<EmitStringIndex>,
    pub hull_surface_indices: Vec<PossiblyNullSurfaceIndex>,
    pub poly_list_plane_indices: Vec<PlaneIndex>,
    pub poly_list_point_indices: Vec<PointIndex>,
    pub poly_list_string_characters: Vec<u8>,
}

/// What an `InteriorHulls` holds, as mathematical values.
pub struct InteriorHullsView {
    pub state_datas: Seq<StateData>,
    pub state_data_buffers: Seq<StateData>,
    pub flags: u32,
    pub name_buffer_characters: Seq<u8>,
    pub sub_objects: Seq<SubObject>,
    pub convex_hulls: Seq<ConvexHull>,
    pub convex_hull_emit_string_characters: Seq<u8>,
    pub hull_indices: Seq<PointIndex>,
    pub hull_plane_indices: Seq<PlaneIndex>,
    pub hull_emit_string_indices: Seq<EmitStringIndex>,
    pub hull_surface_indices: Seq<PossiblyNullSurfaceIndex>,
    pub poly_list_plane_indices: Seq<PlaneIndex>,
    pub poly_list_point_indices: Seq<PointIndex>,
    pub poly_list_string_characters: Seq<u8>,
}

impl DeepView for InteriorHulls {
    type V = InteriorHullsView;

    open spec fn deep_view(&self) -> InteriorHullsView {
        InteriorHullsView {
            state_datas: self.state_datas.deep_view(),
            state_data_buffers: self.state_data_buffers.deep_view(),
            flags: self.flags.deep_view(),
            name_buffer_characters: self.name_buffer_characters.deep_view(),
            sub_objects: self.sub_objects.deep_view(),
            convex_hulls: self.convex_hulls.deep_view(),
            convex_hull_emit_string_characters: self.convex_hull_emit_string_characters.deep_view(),
            hull_indices: self.hull_indices.deep_view(),
            hull_plane_indices: self.hull_plane_indices.deep_view(),
            hull_emit_string_indices: self.hull_emit_string_indices.deep_view(),
            hull_surface_indices: self.hull_surface_indices.deep_view(),
            poly_list_plane_indices: self.poly_list_plane_indices.deep_view(),
            poly_list_point_indices: self.poly_list_point_indices.deep_view(),
            poly_list_string_characters: self.poly_list_string_characters.deep_view(),
        }
    }
}

/// The hulls of an interior as it stands on the wire.
#[verifier::opaque]
pub open spec fn parse_hulls(d: Seq<u8>, c: Cursor, v: Version) -> (InteriorHullsView, Cursor, Version) {
    let (state_datas, c, v) = if v.interior != 4 {
        Vec::<StateData>::parse(d, c, v)
    } else {
        (Seq::empty(), c, v)
    };
    let (state_data_buffers, flags, c, v) = if v.interior != 4 {
        parse_vec_extra::<StateData, u32>(d, c, v)
    } else {
        (Seq::empty(), 0u32, c, v)
    };
    let (name_buffer_characters, c, v) = if v.interior != 4 {
        Vec::<u8>::parse(d, c, v)
    } else {
        (Seq::empty(), c, v)
    };
    let (sub_objects, c, v) = if v.interior != 4 {
        Vec::<SubObject>::parse(d, c, v)
    } else {
        (Seq::empty(), c, v)
    };
    let (convex_hulls, c, v) = Vec::<ConvexHull>::parse(d, c, v);
    let (convex_hull_emit_string_characters, c, v) = Vec::<u8>::parse(d, c, v);
    let (hull_indices, c, v) = parse_vec::<PointIndex, u16>(d, c, v, Narrow::Flagged);
    let (hull_plane_indices, c, v) = parse_vec::<PlaneIndex, u16>(d, c, v, Narrow::Always);
    let (hull_emit_string_indices, c, v) = parse_vec::<EmitStringIndex, u16>(d, c, v, Narrow::Flagged);
    let (hull_surface_indices, c, v) = parse_vec::<PossiblyNullSurfaceIndex, u16>(d, c, v, Narrow::Flagged);
    let (poly_list_plane_indices, c, v) = parse_vec::<PlaneIndex, u16>(d, c, v, Narrow::Always);
    let (poly_list_point_indices, c, v) = parse_vec::<PointIndex, u16>(d, c, v, Narrow::Flagged);
    let (poly_list_string_characters, c, v) = Vec::<u8>::parse(d, c, v);
    (
        InteriorHullsView {
            state_datas,
            state_data_buffers,
            flags,
            name_buffer_characters,
            sub_objects,
            convex_hulls,
            convex_hull_emit_string_characters,
            hull_indices,
            hull_plane_indices,
            hull_emit_string_indices,
            hull_surface_indices,
            poly_list_plane_indices,
            poly_list_point_indices,
            poly_list_string_characters,
        },
        c,
        v,
    )
}

impl Readable for InteriorHulls {
    open spec fn parse(d: Seq<u8>, c: Cursor, v: Version) -> (InteriorHullsView, Cursor, Version) {
        parse_hulls(d, c, v)
    }

    fn take(from: &mut Reader, version: &mut Version) -> (r: Self) {
        reveal(parse_hulls);
        let state_datas = if version.interior != 4 {
            Vec::<StateData>::take(from, version)
        } else {
            no_items()
        };
        let (state_data_buffers, flags) = if version.interior != 4 {
            take_vec_extra::<StateData, u32>(from, version)
        } else {
            (no_items(), 0)
        };
        let name_buffer_characters = if version.interior != 4 {
            Vec::<u8>::take(from, version)
        } else {
            no_items()
        };
        let sub_objects = if version.interior != 4 {
            Vec::<SubObject>::take(from, version)
        } else {
            no_items()
        };
        let convex_hulls = Vec::<ConvexHull>::take(from, version);
        let convex_hull_emit_string_characters = Vec::<u8>::take(from, version);
        let hull_indices = take_vec::<PointIndex, u16>(from, version, Narrow::Flagged);
        let hull_plane_indices = take_vec::<PlaneIndex, u16>(from, version, Narrow::Always);
        let hull_emit_string_indices = take_vec::<EmitStringIndex, u16>(from, version, Narrow::Flagged);
        let hull_surface_indices = take_vec::<PossiblyNullSurfaceIndex, u16>(from, version, Narrow::Flagged);
        let poly_list_plane_indices = take_vec::<PlaneIndex, u16>(from, version, Narrow::Always);
        let poly_list_point_indices = take_vec::<PointIndex, u16>(from, version, Narrow::Flagged);
        let poly_list_string_characters = Vec::<u8>::take(from, version);
        InteriorHulls {
            state_datas,
            state_data_buffers,
            flags,
            name_buffer_characters,
            sub_objects,
            convex_hulls,
            convex_hull_emit_string_characters,
            hull_indices,
            hull_plane_indices,
            hull_emit_string_indices,
            hull_surface_indices,
            poly_list_plane_indices,
            poly_list_point_indices,
            poly_list_string_characters,
        }
    }
}

/// The grid of coordinate bins and what follows it.
#[derive(Debug)]
pub struct InteriorTail {
    pub coord_bins: Vec<CoordBin>,
    pub coord_bin_indices: Vec<ConvexHullIndex>,
    pub coord_bin_mode: u32,
    pub base_ambient_color: ColorI,
    pub alarm_ambient_color: ColorI,
    pub static_meshes: Vec<StaticMesh>,
    pub tex_normals: Vec<Point3F>,
    pub tex_matrices: Vec<TexMatrix>,
    pub tex_matrix_indices: Vec<TexMatrixIndex>,
    pub extended_light_map_data: u32,
    pub light_map_border_size: u32,
}

/// What an `InteriorTail` holds, as mathematical values.
pub struct InteriorTailView {
    pub coord_bins: Seq<CoordBin>,
    pub coord_bin_indices: Seq<ConvexHullIndex>,
    pub coord_bin_mode: u32,
    pub base_ambient_color: ColorI,
    pub alarm_ambient_color: ColorI,
    pub static_meshes: Seq<StaticMeshView>,
    pub tex_normals: Seq<Point3F>,
    pub tex_matrices: Seq<TexMatrix>,
    pub tex_matrix_indices: Seq<TexMatrixIndex>,
    pub extended_light_map_data: u32,
    pub light_map_border_size: u32,
}

impl DeepView for InteriorTail {
    type V = InteriorTailView;

    open spec fn deep_view(&self) -> InteriorTailView {
        InteriorTailView {
            coord_bins: self.coord_bins.deep_view(),
            coord_bin_indices: self.coord_bin_indices.deep_view(),
            coord_bin_mode: self.coord_bin_mode.deep_view(),
            base_ambient_color: self.base_ambient_color.deep_view(),
            alarm_ambient_color: self.alarm_ambient_color.deep_view(),
            static_meshes: self.static_meshes.deep_view(),
            tex_normals: self.tex_normals.deep_view(),
            tex_matrices: self.tex_matrices.deep_view(),
            tex_matrix_indices: self.tex_matrix_indices.deep_view(),
            extended_light_map_data: self.extended_light_map_data.deep_view(),
            light_map_border_size: self.light_map_border_size.deep_view(),
        }
    }
}

/// The tail of an interior as it stands on the wire.
#[verifier::opaque]
pub open spec fn parse_tail(d: Seq<u8>, c: Cursor, v: Version) -> (InteriorTailView, Cursor, Version) {
    let (coord_bins, c, v) = parse_items::<CoordBin>(d, c, v, 256);
    let (coord_bin_indices, c, v) = parse_vec::<ConvexHullIndex, u16>(d, c, v, Narrow::Always);
    let (coord_bin_mode, c, v) = u32::parse(d, c, v);
    let (base_ambient_color, c, v) = if v.interior != 4 {
        ColorI::parse(d, c, v)
    } else {
        (ColorI { r: 0, g: 0, b: 0, a: 255 }, c, v)
    };
    let (alarm_ambient_color, c, v) = if v.interior != 4 {
        ColorI::parse(d, c, v)
    } else {
        (ColorI { r: 0, g: 0, b: 0, a: 255 }, c, v)
    };
    let (static_meshes, c, v) = if v.interior >= 10 {
        Vec::<StaticMesh>::parse(d, c, v)
    } else {
        (Seq::empty(), c, v)
    };
    let (tex_normals, c, v) = if v.interior >= 11 {
        Vec::<Point3F>::parse(d, c, v)
    } else if v.interior != 4 {
        let (unused, c, v) = u32::parse(d, c, v);
        (Seq::empty(), c, v)
    } else {
        (Seq::empty(), c, v)
    };
    let (tex_matrices, c, v) = if v.interior >= 11 {
        Vec::<TexMatrix>::parse(d, c, v)
    } else if v.interior != 4 {
        let (unused, c, v) = u32::parse(d, c, v);
        (Seq::empty(), c, v)
    } else {
        (Seq::empty(), c, v)
    };
    let (tex_matrix_indices, c, v) = if v.interior >= 11 {
        Vec::<TexMatrixIndex>::parse(d, c, v)
    } else if v.interior != 4 {
        let (unused, c, v) = u32::parse(d, c, v);
        (Seq::empty(), c, v)
    } else {
        (Seq::empty(), c, v)
    };
    let (extended_light_map_data, c, v) = if v.interior != 4 {
        u32::parse(d, c, v)
    } else {
        (0u32, c, v)
    };
    let (light_map_border_size, c, v) = if c.ok() && extended_light_map_data != 0 {
        let (size, c, v) = u32::parse(d, c, v);
        let (unused, c, v) = u32::parse(d, c, v);
        (size, c, v)
    } else {
        (0u32, c, v)
    };
    (
        InteriorTailView {
            coord_bins,
            coord_bin_indices,
            coord_bin_mode,
            base_ambient_color,
            alarm_ambient_color,
            static_meshes,
            tex_normals,
            tex_matrices,
            tex_matrix_indices,
            extended_light_map_data,
            light_map_border_size,
        },
        c,
        v,
    )
}

impl Readable for InteriorTail {
    open spec fn parse(d: Seq<u8>, c: Cursor, v: Version) -> (InteriorTailView, Cursor, Version) {
        parse_tail(d, c, v)
    }

    fn take(from: &mut Reader, version: &mut Version) -> (r: Self) {
        reveal(parse_tail);
        let coord_bins = take_items::<CoordBin>(from, version, 256);
        let coord_bin_indices = take_vec::<ConvexHullIndex, u16>(from, version, Narrow::Always);
        let coord_bin_mode = u32::take(from, version);
        let base_ambient_color = if version.interior != 4 {
            ColorI::take(from, version)
        } else {
            ColorI { r: 0, g: 0, b: 0, a: 255 }
        };
        let alarm_ambient_color = if version.interior != 4 {
            ColorI::take(from, version)
        } else {
            ColorI { r: 0, g: 0, b: 0, a: 255 }
        };
        let static_meshes = if version.interior >= 10 {
            Vec::<StaticMesh>::take(from, version)
        } else {
            no_items()
        };
        let tex_normals = if version.interior >= 11 {
            Vec::<Point3F>::take(from, version)
        } else if version.interior != 4 {
            let _ = u32::take(from, version);
            no_items()
        } else {
            no_items()
        };
        let tex_matrices = if version.interior >= 11 {
            Vec::<TexMatrix>::take(from, version)
        } else if version.interior != 4 {
            let _ = u32::take(from, version);
            no_items()
        } else {
            no_items()
        };
        let tex_matrix_indices = if version.interior >= 11 {
            Vec::<TexMatrixIndex>::take(from, version)
        } else if version.interior != 4 {
            let _ = u32::take(from, version);
            no_items()
        } else {
            no_items()
        };
        let extended_light_map_data = if version.interior != 4 {
            u32::take(from, version)
        } else {
            0
        };
        let light_map_border_size = if from.ok() && extended_light_map_data != 0 {
            let size = u32::take(from, version);
            let _ = u32::take(from, version);
            size
        } else {
            0
        };
        InteriorTail {
            coord_bins,
            coord_bin_indices,
            coord_bin_mode,
            base_ambient_color,
            alarm_ambient_color,
            static_meshes,
            tex_normals,
            tex_matrices,
            tex_matrix_indices,
            extended_light_map_data,
            light_map_border_size,
        }
    }
}

impl Readable for Interior {
    /// An interior as it stands on the wire: its parts one after the
    /// other, with the surfaces between the topology and the lighting.
    #[verifier::opaque]
    open spec fn parse(d: Seq<u8>, c: Cursor, v: Version) -> (InteriorView, Cursor, Version) {
        let (geometry, c, v) = InteriorGeometry::parse(d, c, v);
        let (topology, c, v) = InteriorTopology::parse(d, c, v);
        let (surfaces, c, v) = parse_surface_table(d, c, v, surface_limits(geometry, topology));
        let (lighting, c, v) = InteriorLighting::parse(d, c, v);
        let (hulls, c, v) = InteriorHulls::parse(d, c, v);
        let (tail, c, v) = InteriorTail::parse(d, c, v);
        (Interior::spec_assemble(geometry, topology, surfaces, lighting, hulls, tail), c, v)
    }

    fn take(from: &mut Reader, version: &mut Version) -> (r: Self) {
        reveal(<Interior as Readable>::parse);
        let geometry = InteriorGeometry::take(from, version);
        let topology = InteriorTopology::take(from, version);
        let limits = SurfaceLimits {
            indices_len: topology.indices.len(),
            planes_len: geometry.planes.len(),
            material_names_len: topology.material_names.len(),
            tex_gen_eqs_len: geometry.tex_gen_eqs.len(),
        };
        let surfaces = take_surface_table(from, version, limits);
        let lighting = InteriorLighting::take(from, version);
        let hulls = InteriorHulls::take(from, version);
        let tail = InteriorTail::take(from, version);
        Interior::assemble(geometry, topology, surfaces, lighting, hulls, tail)
    }
}

/// The sizes of the tables that the surfaces refer into.
pub open spec fn surface_limits(geometry: InteriorGeometryView, topology: InteriorTopologyView) -> SurfaceLimits {
    SurfaceLimits {
        indices_len: topology.indices.len() as usize,
        planes_len: geometry.planes.len() as usize,
        material_names_len: topology.material_names.len() as usize,
        tex_gen_eqs_len: geometry.tex_gen_eqs.len() as usize,
    }
}

impl Interior {
    /// The interior made of its parts.
    pub open spec fn spec_assemble(
        geometry: InteriorGeometryView,
        topology: InteriorTopologyView,
        surfaces: Seq<Surface>,
        lighting: InteriorLightingView,
        hulls: InteriorHullsView,
        tail: InteriorTailView,
    ) -> InteriorView {
        InteriorView {
            detail_level: geometry.detail_level,
            min_pixels: geometry.min_pixels,
            bounding_box: geometry.bounding_box,
            bounding_sphere: geometry.bounding_sphere,
            has_alarm_state: geometry.has_alarm_state,
            num_light_state_entries: geometry.num_light_state_entries,
            normals: geometry.normals,
            planes: geometry.planes,
            points: geometry.points,
            point_visibilities: geometry.point_visibilities,
            tex_gen_eqs: geometry.tex_gen_eqs,
            bsp_nodes: geometry.bsp_nodes,
            bsp_solid_leaves: geometry.bsp_solid_leaves,
            material_names: topology.material_names,
            indices: topology.indices,
            winding_indices: topology.winding_indices,
            edges: topology.edges,
            zones: topology.zones,
            zone_surfaces: topology.zone_surfaces,
            zone_static_meshes: topology.zone_static_meshes,
            zone_portal_lists: topology.zone_portal_lists,
            portals: topology.portals,
            surfaces,
            edge2s: lighting.edge2s,
            normal2s: lighting.normal2s,
            normal_indices: lighting.normal_indices,
            normal_lmap_indices: lighting.normal_lmap_indices,
            alarm_lmap_indices: lighting.alarm_lmap_indices,
            null_surfaces: lighting.null_surfaces,
            light_maps: lighting.light_maps,
            solid_leaf_surfaces: lighting.solid_leaf_surfaces,
            animated_lights: lighting.animated_lights,
            light_states: lighting.light_states,
            state_datas: hulls.state_datas,
            state_data_buffers: hulls.state_data_buffers,
            flags: hulls.flags,
            name_buffer_characters: hulls.name_buffer_characters,
            sub_objects: hulls.sub_objects,
            convex_hulls: hulls.convex_hulls,
            convex_hull_emit_string_characters: hulls.convex_hull_emit_string_characters,
            hull_indices: hulls.hull_indices,
            hull_plane_indices: hulls.hull_plane_indices,
            hull_emit_string_indices: hulls.hull_emit_string_indices,
            hull_surface_indices: hulls.hull_surface_indices,
            poly_list_plane_indices: hulls.poly_list_plane_indices,
            poly_list_point_indices: hulls.poly_list_point_indices,
            poly_list_string_characters: hulls.poly_list_string_characters,
            coord_bins: tail.coord_bins,
            coord_bin_indices: tail.coord_bin_indices,
            coord_bin_mode: tail.coord_bin_mode,
            base_ambient_color: tail.base_ambient_color,
            alarm_ambient_color: tail.alarm_ambient_color,
            static_meshes: tail.static_meshes,
            tex_normals: tail.tex_normals,
            tex_matrices: tail.tex_matrices,
            tex_matrix_indices: tail.tex_matrix_indices,
            extended_light_map_data: tail.extended_light_map_data,
            light_map_border_size: tail.light_map_border_size,
        }
    }

    /// Makes an interior of its parts.
    pub fn assemble(
        geometry: InteriorGeometry,
        topology: InteriorTopology,
        surfaces: Vec<Surface>,
        lighting: InteriorLighting,
        hulls: InteriorHulls,
        tail: InteriorTail,
    ) -> (r: Interior)
        ensures
            r.deep_view() == Self::spec_assemble(
                geometry.deep_view(),
                topology.deep_view(),
                surfaces.deep_view(),
                lighting.deep_view(),
                hulls.deep_view(),
                tail.deep_view(),
            ),
    {
        Interior {
            detail_level: geometry.detail_level,
            min_pixels: geometry.min_pixels,
            bounding_box: geometry.bounding_box,
            bounding_sphere: geometry.bounding_sphere,
            has_alarm_state: geometry.has_alarm_state,
            num_light_state_entries: geometry.num_light_state_entries,
            normals: geometry.normals,
            planes: geometry.planes,
            points: geometry.points,
            point_visibilities: geometry.point_visibilities,
            tex_gen_eqs: geometry.tex_gen_eqs,
            bsp_nodes: geometry.bsp_nodes,
            bsp_solid_leaves: geometry.bsp_solid_leaves,
            material_names: topology.material_names,
            indices: topology.indices,
            winding_indices: topology.winding_indices,
            edges: topology.edges,
            zones: topology.zones,
            zone_surfaces: topology.zone_surfaces,
            zone_static_meshes: topology.zone_static_meshes,
            zone_portal_lists: topology.zone_portal_lists,
            portals: topology.portals,
            surfaces,
            edge2s: lighting.edge2s,
            normal2s: lighting.normal2s,
            normal_indices: lighting.normal_indices,
            normal_lmap_indices: lighting.normal_lmap_indices,
            alarm_lmap_indices: lighting.alarm_lmap_indices,
            null_surfaces: lighting.null_surfaces,
            light_maps: lighting.light_maps,
            solid_leaf_surfaces: lighting.solid_leaf_surfaces,
            animated_lights: lighting.animated_lights,
            light_states: lighting.light_states,
            state_datas: hulls.state_datas,
            state_data_buffers: hulls.state_data_buffers,
            flags: hulls.flags,
            name_buffer_characters: hulls.name_buffer_characters,
            sub_objects: hulls.sub_objects,
            convex_hulls: hulls.convex_hulls,
            convex_hull_emit_string_characters: hulls.convex_hull_emit_string_characters,
            hull_indices: hulls.hull_indices,
            hull_plane_indices: hulls.hull_plane_indices,
            hull_emit_string_indices: hulls.hull_emit_string_indices,
            hull_surface_indices: hulls.hull_surface_indices,
            poly_list_plane_indices: hulls.poly_list_plane_indices,
            poly_list_point_indices: hulls.poly_list_point_indices,
            poly_list_string_characters: hulls.poly_list_string_characters,
            coord_bins: tail.coord_bins,
            coord_bin_indices: tail.coord_bin_indices,
            coord_bin_mode: tail.coord_bin_mode,
            base_ambient_color: tail.base_ambient_color,
            alarm_ambient_color: tail.alarm_ambient_color,
            static_meshes: tail.static_meshes,
            tex_normals: tail.tex_normals,
            tex_matrices: tail.tex_matrices,
            tex_matrix_indices: tail.tex_matrix_indices,
            extended_light_map_data: tail.extended_light_map_data,
            light_map_border_size: tail.light_map_border_size,
        }
    }
}

/// The wire form of the head of an interior: its version, its bounds and
/// the tables of its geometry.
#[verifier::opaque]
pub open spec fn encode_geometry(x: InteriorView, v: Version) -> Seq<u8> {
    u32::encode(v.interior, v)
    + u32::encode(x.detail_level, v)
    + u32::encode(x.min_pixels, v)
    + BoxF::encode(x.bounding_box, v)
    + SphereF::encode(x.bounding_sphere, v)
    + u8::encode(x.has_alarm_state, v)
    + u32::encode(x.num_light_state_entries, v)
    + Vec::<Point3F>::encode(x.normals, v)
    + Vec::<Plane>::encode(x.planes, v)
    + Vec::<Point3F>::encode(x.points, v)
    + (if v.interior != 4 {
        Vec::<u8>::encode(x.point_visibilities, v)
    } else {
        Seq::empty()
    })
    + Vec::<TexGenEq>::encode(x.tex_gen_eqs, v)
    + Vec::<BSPNode>::encode(x.bsp_nodes, v)
    + Vec::<BSPSolidLeaf>::encode(x.bsp_solid_leaves, v)
}

#[verifier::rlimit(50)]
fn write_geometry(interior: &Interior, to: &mut Vec<u8>, version: &Version) -> (r: DifResult<()>)
    ensures
        r is Ok,
        final(to)@ == old(to)@ + encode_geometry(interior.deep_view(), *version),
{
    reveal(encode_geometry);
    let ghost x = interior.deep_view();
    let ghost v = *version;
    version.interior.write(to, version)?;
    let ghost sent = u32::encode(v.interior, v);
    interior.detail_level.write(to, version)?;
    let ghost piece = u32::encode(x.detail_level, v);
    proof {
        lemma_add_assoc(old(to)@, sent, piece);
        lemma_add_empty(sent);
    }
    let ghost sent = sent + piece;
    interior.min_pixels.write(to, version)?;
    let ghost piece = u32::encode(x.min_pixels, v);
    proof {
        lemma_add_assoc(old(to)@, sent, piece);
        lemma_add_empty(sent);
    }
    let ghost sent = sent + piece;
    interior.bounding_box.write(to, version)?;
    let ghost piece = BoxF::encode(x.bounding_box, v);
    proof {
        lemma_add_assoc(old(to)@, sent, piece);
        lemma_add_empty(sent);
    }
    let ghost sent = sent + piece;
    interior.bounding_sphere.write(to, version)?;
    let ghost piece = SphereF::encode(x.bounding_sphere, v);
    proof {
        lemma_add_assoc(old(to)@, sent, piece);
        lemma_add_empty(sent);
    }
    let ghost sent = sent + piece;
    interior.has_alarm_state.write(to, version)?;
    let ghost piece = u8::encode(x.has_alarm_state, v);
    proof {
        lemma_add_assoc(old(to)@, sent, piece);
        lemma_add_empty(sent);
    }
    let ghost sent = sent + piece;
    interior.num_light_state_entries.write(to, version)?;
    let ghost piece = u32::encode(x.num_light_state_entries, v);
    proof {
        lemma_add_assoc(old(to)@, sent, piece);
        lemma_add_empty(sent);
    }
    let ghost sent = sent + piece;
    interior.normals.write(to, version)?;
    let ghost piece = Vec::<Point3F>::encode(x.normals, v);
    proof {
        lemma_add_assoc(old(to)@, sent, piece);
        lemma_add_empty(sent);
    }
    let ghost sent = sent + piece;
    interior.planes.write(to, version)?;
    let ghost piece = Vec::<Plane>::encode(x.planes, v);
    proof {
        lemma_add_assoc(old(to)@, sent, piece);
        lemma_add_empty(sent);
    }
    let ghost sent = sent + piece;
    interior.points.write(to, version)?;
    let ghost piece = Vec::<Point3F>::encode(x.points, v);
    proof {
        lemma_add_assoc(old(to)@, sent, piece);
        lemma_add_empty(sent);
    }
    let ghost sent = sent + piece;
    if version.interior != 4 {
        interior.point_visibilities.write(to, version)?;
    }
    let ghost piece = (if v.interior != 4 {
        Vec::<u8>::encode(x.point_visibilities, v)
    } else {
        Seq::empty()
    });
    proof {
        lemma_add_assoc(old(to)@, sent, piece);
        lemma_add_empty(sent);
    }
    let ghost sent = sent + piece;
    interior.tex_gen_eqs.write(to, version)?;
    let ghost piece = Vec::<TexGenEq>::encode(x.tex_gen_eqs, v);
    proof {
        lemma_add_assoc(old(to)@, sent, piece);
        lemma_add_empty(sent);
    }
    let ghost sent = sent + piece;
    interior.bsp_nodes.write(to, version)?;
    let ghost piece = Vec::<BSPNode>::encode(x.bsp_nodes, v);
    proof {
        lemma_add_assoc(old(to)@, sent, piece);
        lemma_add_empty(sent);
    }
    let ghost sent = sent + piece;
    interior.bsp_solid_leaves.write(to, version)?;
    let ghost piece = Vec::<BSPSolidLeaf>::encode(x.bsp_solid_leaves, v);
    proof {
        lemma_add_assoc(old(to)@, sent, piece);
        lemma_add_empty(sent);
    }
    Ok(())
}

/// The wire form of the materials, windings, zones and portals.
#[verifier::opaque]
pub open spec fn encode_topology(x: InteriorView, v: Version) -> Seq<u8> {
    u8::encode(v.material_list, v)
    + Vec::<String>::encode(x.material_names, v)
    + Vec::<PointIndex>::encode(x.indices, v)
    + Vec::<WindingIndex>::encode(x.winding_indices, v)
    + (if v.interior >= 12 {
        Vec::<Edge>::encode(x.edges, v)
    } else {
        Seq::empty()
    })
    + Vec::<Zone>::encode(x.zones, v)
    + Vec::<SurfaceIndex>::encode(x.zone_surfaces, v)
    + (if v.interior >= 12 {
        Vec::<StaticMeshIndex>::encode(x.zone_static_meshes, v)
    } else {
        Seq::empty()
    })
    + Vec::<PortalIndex>::encode(x.zone_portal_lists, v)
    + Vec::<Portal>::encode(x.portals, v)
}

#[verifier::rlimit(50)]
fn write_topology(interior: &Interior, to: &mut Vec<u8>, version: &Version) -> (r: DifResult<()>)
    ensures
        r is Ok,
        final(to)@ == old(to)@ + encode_topology(interior.deep_view(), *version),
{
    reveal(encode_topology);
    let ghost x = interior.deep_view();
    let ghost v = *version;
    version.material_list.write(to, version)?;
    let ghost sent = u8::encode(v.material_list, v);
    interior.material_names.write(to, version)?;
    let ghost piece = Vec::<String>::encode(x.material_names, v);
    proof {
        lemma_add_assoc(old(to)@, sent, piece);
        lemma_add_empty(sent);
    }
    let ghost sent = sent + piece;
    interior.indices.write(to, version)?;
    let ghost piece = Vec::<PointIndex>::encode(x.indices, v);
    proof {
        lemma_add_assoc(old(to)@, sent, piece);
        lemma_add_empty(sent);
    }
    let ghost sent = sent + piece;
    interior.winding_indices.write(to, version)?;
    let ghost piece = Vec::<WindingIndex>::encode(x.winding_indices, v);
    proof {
        lemma_add_assoc(old(to)@, sent, piece);
        lemma_add_empty(sent);
    }
    let ghost sent = sent + piece;
    if version.interior >= 12 {
        interior.edges.write(to, version)?;
    }
    let ghost piece = (if v.interior >= 12 {
        Vec::<Edge>::encode(x.edges, v)
    } else {
        Seq::empty()
    });
    proof {
        lemma_add_assoc(old(to)@, sent, piece);
        lemma_add_empty(sent);
    }
    let ghost sent = sent + piece;
    interior.zones.write(to, version)?;
    let ghost piece = Vec::<Zone>::encode(x.zones, v);
    proof {
        lemma_add_assoc(old(to)@, sent, piece);
        lemma_add_empty(sent);
    }
    let ghost sent = sent + piece;
    interior.zone_surfaces.write(to, version)?;
    let ghost piece = Vec::<SurfaceIndex>::encode(x.zone_surfaces, v);
    proof {
        lemma_add_assoc(old(to)@, sent, piece);
        lemma_add_empty(sent);
    }
    let ghost sent = sent + piece;
    if version.interior >= 12 {
        interior.zone_static_meshes.write(to, version)?;
    }
    let ghost piece = (if v.interior >= 12 {
        Vec::<StaticMeshIndex>::encode(x.zone_static_meshes, v)
    } else {
        Seq::empty()
    });
    proof {
        lemma_add_assoc(old(to)@, sent, piece);
        lemma_add_empty(sent);
    }
    let ghost sent = sent + piece;
    interior.zone_portal_lists.write(to, version)?;
    let ghost piece = Vec::<PortalIndex>::encode(x.zone_portal_lists, v);
    proof {
        lemma_add_assoc(old(to)@, sent, piece);
        lemma_add_empty(sent);
    }
    let ghost sent = sent + piece;
    interior.portals.write(to, version)?;
    let ghost piece = Vec::<Portal>::encode(x.portals, v);
    proof {
        lemma_add_assoc(old(to)@, sent, piece);
        lemma_add_empty(sent);
    }
    Ok(())
}

/// The wire form of the tables between the surfaces and the convex hulls.
#[verifier::opaque]
pub open spec fn encode_lighting(x: InteriorView, v: Version) -> Seq<u8> {
    (if 2 <= v.interior <= 5 {
        Vec::<Edge2>::encode(x.edge2s, v)
    } else {
        Seq::empty()
    })
    + (if 4 <= v.interior <= 5 {
        Vec::<Point3F>::encode(x.normal2s, v)
    } else {
        Seq::empty()
    })
    + (if 4 <= v.interior <= 5 {
        Vec::<NormalIndex>::encode(x.normal_indices, v)
    } else {
        Seq::empty()
    })
    + (if v.interior >= 13 {
        Vec::<LMapIndex>::encode(x.normal_lmap_indices, v)
    } else {
        encode_vec_narrow::<LMapIndex, u8>(x.normal_lmap_indices, v)
    })
    + (if v.interior >= 13 {
        Vec::<LMapIndex>::encode(x.alarm_lmap_indices, v)
    } else if v.interior != 4 {
        encode_vec_narrow::<LMapIndex, u8>(x.alarm_lmap_indices, v)
    } else {
        Seq::empty()
    })
    + Vec::<NullSurface>::encode(x.null_surfaces, v)
    + (if v.interior != 4 {
        Vec::<LightMap>::encode(x.light_maps, v)
    } else {
        Seq::empty()
    })
    + Vec::<PossiblyNullSurfaceIndex>::encode(x.solid_leaf_surfaces, v)
    + Vec::<AnimatedLight>::encode(x.animated_lights, v)
    + Vec::<LightState>::encode(x.light_states, v)
}

#[verifier::rlimit(50)]
fn write_lighting(interior: &Interior, to: &mut Vec<u8>, version: &Version) -> (r: DifResult<()>)
    ensures
        r is Ok,
        final(to)@ == old(to)@ + encode_lighting(interior.deep_view(), *version),
{
    reveal(encode_lighting);
    let ghost x = interior.deep_view();
    let ghost v = *version;
    if 2 <= version.interior && version.interior <= 5 {
        interior.edge2s.write(to, version)?;
    }
    let ghost sent = (if 2 <= v.interior <= 5 {
        Vec::<Edge2>::encode(x.edge2s, v)
    } else {
        Seq::empty()
    });
    if 4 <= version.interior && version.interior <= 5 {
        interior.normal2s.write(to, version)?;
    }
    let ghost piece = (if 4 <= v.interior <= 5 {
        Vec::<Point3F>::encode(x.normal2s, v)
    } else {
        Seq::empty()
    });
    proof {
        lemma_add_assoc(old(to)@, sent, piece);
        lemma_add_empty(sent);
    }
    let ghost sent = sent + piece;
    if 4 <= version.interior && version.interior <= 5 {
        interior.normal_indices.write(to, version)?;
    }
    let ghost piece = (if 4 <= v.interior <= 5 {
        Vec::<NormalIndex>::encode(x.normal_indices, v)
    } else {
        Seq::empty()
    });
    proof {
        lemma_add_assoc(old(to)@, sent, piece);
        lemma_add_empty(sent);
    }
    let ghost sent = sent + piece;
    if version.interior >= 13 {
        interior.normal_lmap_indices.write(to, version)?;
    } else {
        write_vec_fn::<LMapIndex, u8>(&interior.normal_lmap_indices, to, version)?;
    }
    let ghost piece = (if v.interior >= 13 {
        Vec::<LMapIndex>::encode(x.normal_lmap_indices, v)
    } else {
        encode_vec_narrow::<LMapIndex, u8>(x.normal_lmap_indices, v)
    });
    proof {
        lemma_add_assoc(old(to)@, sent, piece);
        lemma_add_empty(sent);
    }
    let ghost sent = sent + piece;
    if version.interior >= 13 {
        interior.alarm_lmap_indices.write(to, version)?;
    } else if version.interior != 4 {
        write_vec_fn::<LMapIndex, u8>(&interior.alarm_lmap_indices, to, version)?;
    }
    let ghost piece = (if v.interior >= 13 {
        Vec::<LMapIndex>::encode(x.alarm_lmap_indices, v)
    } else if v.interior != 4 {
        encode_vec_narrow::<LMapIndex, u8>(x.alarm_lmap_indices, v)
    } else {
        Seq::empty()
    });
    proof {
        lemma_add_assoc(old(to)@, sent, piece);
        lemma_add_empty(sent);
    }
    let ghost sent = sent + piece;
    interior.null_surfaces.write(to, version)?;
    let ghost piece = Vec::<NullSurface>::encode(x.null_surfaces, v);
    proof {
        lemma_add_assoc(old(to)@, sent, piece);
        lemma_add_empty(sent);
    }
    let ghost sent = sent + piece;
    if version.interior != 4 {
        interior.light_maps.write(to, version)?;
    }
    let ghost piece = (if v.interior != 4 {
        Vec::<LightMap>::encode(x.light_maps, v)
    } else {
        Seq::empty()
    });
    proof {
        lemma_add_assoc(old(to)@, sent, piece);
        lemma_add_empty(sent);
    }
    let ghost sent = sent + piece;
    interior.solid_leaf_surfaces.write(to, version)?;
    let ghost piece = Vec::<PossiblyNullSurfaceIndex>::encode(x.solid_leaf_surfaces, v);
    proof {
        lemma_add_assoc(old(to)@, sent, piece);
        lemma_add_empty(sent);
    }
    let ghost sent = sent + piece;
    interior.animated_lights.write(to, version)?;
    let ghost piece = Vec::<AnimatedLight>::encode(x.animated_lights, v);
    proof {
        lemma_add_assoc(old(to)@, sent, piece);
        lemma_add_empty(sent);
    }
    let ghost sent = sent + piece;
    interior.light_states.write(to, version)?;
    let ghost piece = Vec::<LightState>::encode(x.light_states, v);
    proof {
        lemma_add_assoc(old(to)@, sent, piece);
        lemma_add_empty(sent);
    }
    Ok(())
}

/// The wire form of the light state data and the tables of the convex hulls.
#[verifier::opaque]
pub open spec fn encode_hulls(x: InteriorView, v: Version) -> Seq<u8> {
    (if v.interior != 4 {
        Vec::<StateData>::encode(x.state_datas, v)
    } else {
        Seq::empty()
    })
    + (if v.interior != 4 {
        encode_vec_extra::<StateData, u32>(x.state_data_buffers, x.flags, v)
    } else {
        Seq::empty()
    })
    + (if v.interior != 4 {
        Vec::<u8>::encode(x.name_buffer_characters, v)
    } else {
        Seq::empty()
    })
    + (if v.interior != 4 {
        Vec::<SubObject>::encode(x.sub_objects, v)
    } else {
        Seq::empty()
    })
    + Vec::<ConvexHull>::encode(x.convex_hulls, v)
    + Vec::<u8>::encode(x.convex_hull_emit_string_characters, v)
    + Vec::<PointIndex>::encode(x.hull_indices, v)
    + Vec::<PlaneIndex>::encode(x.hull_plane_indices, v)
    + Vec::<EmitStringIndex>::encode(x.hull_emit_string_indices, v)
    + Vec::<PossiblyNullSurfaceIndex>::encode(x.hull_surface_indices, v)
    + Vec::<PlaneIndex>::encode(x.poly_list_plane_indices, v)
    + Vec::<PointIndex>::encode(x.poly_list_point_indices, v)
    + Vec::<u8>::encode(x.poly_list_string_characters, v)
}

pub open spec fn writable_hulls(x: InteriorView, v: Version) -> bool {
    &&& (v.interior != 4 ==> Vec::<StateData>::writable(x.state_datas, v))
    &&& (v.interior != 4 ==> Vec::<u8>::writable(x.name_buffer_characters, v))
    &&& (v.interior != 4 ==> Vec::<SubObject>::writable(x.sub_objects, v))
    &&& Vec::<ConvexHull>::writable(x.convex_hulls, v)
    &&& Vec::<u8>::writable(x.convex_hull_emit_string_characters, v)
    &&& Vec::<PointIndex>::writable(x.hull_indices, v)
    &&& Vec::<PlaneIndex>::writable(x.hull_plane_indices, v)
    &&& Vec::<EmitStringIndex>::writable(x.hull_emit_string_indices, v)
    &&& Vec::<PossiblyNullSurfaceIndex>::writable(x.hull_surface_indices, v)
    &&& Vec::<PlaneIndex>::writable(x.poly_list_plane_indices, v)
    &&& Vec::<PointIndex>::writable(x.poly_list_point_indices, v)
    &&& Vec::<u8>::writable(x.poly_list_string_characters, v)
}

#[verifier::rlimit(50)]
fn write_hulls(interior: &Interior, to: &mut Vec<u8>, version: &Version) -> (r: DifResult<()>)
    ensures
        match r {
            Ok(_) => writable_hulls(interior.deep_view(), *version) && final(to)@ == old(to)@
                + encode_hulls(interior.deep_view(), *version),
            Err(e) => !writable_hulls(interior.deep_view(), *version) && e.kind
                == DifErrorKind::Unsupported,
        },
{
    reveal(encode_hulls);
    let ghost x = interior.deep_view();
    let ghost v = *version;
    if version.interior != 4 {
        interior.state_datas.write(to, version)?;
    }
    let ghost sent = (if v.interior != 4 {
        Vec::<StateData>::encode(x.state_datas, v)
    } else {
        Seq::empty()
    });
    if version.interior != 4 {
        write_vec_extra::<StateData, u32>(&interior.state_data_buffers, to, version, &interior.flags)?;
    }
    let ghost piece = (if v.interior != 4 {
        encode_vec_extra::<StateData, u32>(x.state_data_buffers, x.flags, v)
    } else {
        Seq::empty()
    });
    proof {
        lemma_add_assoc(old(to)@, sent, piece);
        lemma_add_empty(sent);
    }
    let ghost sent = sent + piece;
    if version.interior != 4 {
        interior.name_buffer_characters.write(to, version)?;
    }
    let ghost piece = (if v.interior != 4 {
        Vec::<u8>::encode(x.name_buffer_characters, v)
    } else {
        Seq::empty()
    });
    proof {
        lemma_add_assoc(old(to)@, sent, piece);
        lemma_add_empty(sent);
    }
    let ghost sent = sent + piece;
    if version.interior != 4 {
        interior.sub_objects.write(to, version)?;
    }
    let ghost piece = (if v.interior != 4 {
        Vec::<SubObject>::encode(x.sub_objects, v)
    } else {
        Seq::empty()
    });
    proof {
        lemma_add_assoc(old(to)@, sent, piece);
        lemma_add_empty(sent);
    }
    let ghost sent = sent + piece;
    interior.convex_hulls.write(to, version)?;
    let ghost piece = Vec::<ConvexHull>::encode(x.convex_hulls, v);
    proof {
        lemma_add_assoc(old(to)@, sent, piece);
        lemma_add_empty(sent);
    }
    let ghost sent = sent + piece;
    interior.convex_hull_emit_string_characters.write(to, version)?;
    let ghost piece = Vec::<u8>::encode(x.convex_hull_emit_string_characters, v);
    proof {
        lemma_add_assoc(old(to)@, sent, piece);
        lemma_add_empty(sent);
    }
    let ghost sent = sent + piece;
    interior.hull_indices.write(to, version)?;
    let ghost piece = Vec::<PointIndex>::encode(x.hull_indices, v);
    proof {
        lemma_add_assoc(old(to)@, sent, piece);
        lemma_add_empty(sent);
    }
    let ghost sent = sent + piece;
    interior.hull_plane_indices.write(to, version)?;
    let ghost piece = Vec::<PlaneIndex>::encode(x.hull_plane_indices, v);
    proof {
        lemma_add_assoc(old(to)@, sent, piece);
        lemma_add_empty(sent);
    }
    let ghost sent = sent + piece;
    interior.hull_emit_string_indices.write(to, version)?;
    let ghost piece = Vec::<EmitStringIndex>::encode(x.hull_emit_string_indices, v);
    proof {
        lemma_add_assoc(old(to)@, sent, piece);
        lemma_add_empty(sent);
    }
    let ghost sent = sent + piece;
    interior.hull_surface_indices.write(to, version)?;
    let ghost piece = Vec::<PossiblyNullSurfaceIndex>::encode(x.hull_surface_indices, v);
    proof {
        lemma_add_assoc(old(to)@, sent, piece);
        lemma_add_empty(sent);
    }
    let ghost sent = sent + piece;
    interior.poly_list_plane_indices.write(to, version)?;
    let ghost piece = Vec::<PlaneIndex>::encode(x.poly_list_plane_indices, v);
    proof {
        lemma_add_assoc(old(to)@, sent, piece);
        lemma_add_empty(sent);
    }
    let ghost sent = sent + piece;
    interior.poly_list_point_indices.write(to, version)?;
    let ghost piece = Vec::<PointIndex>::encode(x.poly_list_point_indices, v);
    proof {
        lemma_add_assoc(old(to)@, sent, piece);
        lemma_add_empty(sent);
    }
    let ghost sent = sent + piece;
    interior.poly_list_string_characters.write(to, version)?;
    let ghost piece = Vec::<u8>::encode(x.poly_list_string_characters, v);
    proof {
        lemma_add_assoc(old(to)@, sent, piece);
        lemma_add_empty(sent);
    }
    Ok(())
}

/// The wire form of the grid of coordinate bins and what follows it.
#[verifier::opaque]
pub open spec fn encode_tail(x: InteriorView, v: Version) -> Seq<u8> {
    encode_items::<CoordBin>(x.coord_bins, v)
    + Vec::<ConvexHullIndex>::encode(x.coord_bin_indices, v)
    + u32::encode(x.coord_bin_mode, v)
    + (if v.interior != 4 {
        ColorI::encode(x.base_ambient_color, v)
    } else {
        Seq::empty()
    })
    + (if v.interior != 4 {
        ColorI::encode(x.alarm_ambient_color, v)
    } else {
        Seq::empty()
    })
    + (if v.interior >= 10 {
        Vec::<StaticMesh>::encode(x.static_meshes, v)
    } else {
        Seq::empty()
    })
    + (if v.interior >= 11 {
        Vec::<Point3F>::encode(x.tex_normals, v)
    } else if v.interior != 4 {
        u32::encode(0u32, v)
    } else {
        Seq::empty()
    })
    + (if v.interior >= 11 {
        Vec::<TexMatrix>::encode(x.tex_matrices, v)
    } else if v.interior != 4 {
        u32::encode(0u32, v)
    } else {
        Seq::empty()
    })
    + (if v.interior >= 11 {
        Vec::<TexMatrixIndex>::encode(x.tex_matrix_indices, v)
    } else if v.interior != 4 {
        u32::encode(0u32, v)
    } else {
        Seq::empty()
    })
    + (if v.interior != 4 {
        u32::encode(x.extended_light_map_data, v) + (if x.extended_light_map_data != 0 {
            u32::encode(x.light_map_border_size, v) + u32::encode(0u32, v)
        } else {
            Seq::empty()
        })
    } else {
        Seq::empty()
    })
}

pub open spec fn writable_tail(x: InteriorView, v: Version) -> bool {
    &&& Vec::<ConvexHullIndex>::writable(x.coord_bin_indices, v)
    &&& u32::writable(x.coord_bin_mode, v)
    &&& (v.interior != 4 ==> ColorI::writable(x.base_ambient_color, v))
    &&& (v.interior != 4 ==> ColorI::writable(x.alarm_ambient_color, v))
    &&& (v.interior >= 10 ==> Vec::<StaticMesh>::writable(x.static_meshes, v))
}

#[verifier::rlimit(50)]
fn write_tail(interior: &Interior, to: &mut Vec<u8>, version: &Version) -> (r: DifResult<()>)
    ensures
        match r {
            Ok(_) => writable_tail(interior.deep_view(), *version) && final(to)@ == old(to)@
                + encode_tail(interior.deep_view(), *version),
            Err(e) => !writable_tail(interior.deep_view(), *version) && e.kind
                == DifErrorKind::Unsupported,
        },
{
    reveal(encode_tail);
    let ghost x = interior.deep_view();
    let ghost v = *version;
    write_items::<CoordBin>(&interior.coord_bins, to, version)?;
    let ghost sent = encode_items::<CoordBin>(x.coord_bins, v);
    interior.coord_bin_indices.write(to, version)?;
    let ghost piece = Vec::<ConvexHullIndex>::encode(x.coord_bin_indices, v);
    proof {
        lemma_add_assoc(old(to)@, sent, piece);
        lemma_add_empty(sent);
    }
    let ghost sent = sent + piece;
    interior.coord_bin_mode.write(to, version)?;
    let ghost piece = u32::encode(x.coord_bin_mode, v);
    proof {
        lemma_add_assoc(old(to)@, sent, piece);
        lemma_add_empty(sent);
    }
    let ghost sent = sent + piece;
    if version.interior != 4 {
        interior.base_ambient_color.write(to, version)?;
    }
    let ghost piece = (if v.interior != 4 {
        ColorI::encode(x.base_ambient_color, v)
    } else {
        Seq::empty()
    });
    proof {
        lemma_add_assoc(old(to)@, sent, piece);
        lemma_add_empty(sent);
    }
    let ghost sent = sent + piece;
    if version.interior != 4 {
        interior.alarm_ambient_color.write(to, version)?;
    }
    let ghost piece = (if v.interior != 4 {
        ColorI::encode(x.alarm_ambient_color, v)
    } else {
        Seq::empty()
    });
    proof {
        lemma_add_assoc(old(to)@, sent, piece);
        lemma_add_empty(sent);
    }
    let ghost sent = sent + piece;
    if version.interior >= 10 {
        interior.static_meshes.write(to, version)?;
    }
    let ghost piece = (if v.interior >= 10 {
        Vec::<StaticMesh>::encode(x.static_meshes, v)
    } else {
        Seq::empty()
    });
    proof {
        lemma_add_assoc(old(to)@, sent, piece);
        lemma_add_empty(sent);
    }
    let ghost sent = sent + piece;
    if version.interior >= 11 {
        interior.tex_normals.write(to, version)?;
    } else if version.interior != 4 {
        0u32.write(to, version)?;
    }
    let ghost piece = (if v.interior >= 11 {
        Vec::<Point3F>::encode(x.tex_normals, v)
    } else if v.interior != 4 {
        u32::encode(0u32, v)
    } else {
        Seq::empty()
    });
    proof {
        lemma_add_assoc(old(to)@, sent, piece);
        lemma_add_empty(sent);
    }
    let ghost sent = sent + piece;
    if version.interior >= 11 {
        interior.tex_matrices.write(to, version)?;
    } else if version.interior != 4 {
        0u32.write(to, version)?;
    }
    let ghost piece = (if v.interior >= 11 {
        Vec::<TexMatrix>::encode(x.tex_matrices, v)
    } else if v.interior != 4 {
        u32::encode(0u32, v)
    } else {
        Seq::empty()
    });
    proof {
        lemma_add_assoc(old(to)@, sent, piece);
        lemma_add_empty(sent);
    }
    let ghost sent = sent + piece;
    if version.interior >= 11 {
        interior.tex_matrix_indices.write(to, version)?;
    } else if version.interior != 4 {
        0u32.write(to, version)?;
    }
    let ghost piece = (if v.interior >= 11 {
        Vec::<TexMatrixIndex>::encode(x.tex_matrix_indices, v)
    } else if v.interior != 4 {
        u32::encode(0u32, v)
    } else {
        Seq::empty()
    });
    proof {
        lemma_add_assoc(old(to)@, sent, piece);
        lemma_add_empty(sent);
    }
    let ghost sent = sent + piece;
    if version.interior != 4 {
        interior.extended_light_map_data.write(to, version)?;
        if interior.extended_light_map_data != 0 {
            interior.light_map_border_size.write(to, version)?;
            0u32.write(to, version)?;
        }
    }
    let ghost piece = (if v.interior != 4 {
        u32::encode(x.extended_light_map_data, v) + (if x.extended_light_map_data != 0 {
            u32::encode(x.light_map_border_size, v) + u32::encode(0u32, v)
        } else {
            Seq::empty()
        })
    } else {
        Seq::empty()
    });
    proof {
        lemma_add_assoc(old(to)@, sent, piece);
        lemma_add_empty(sent);
    }
    Ok(())
}

impl Writable for Interior {
    /// An interior can be written unless it holds a sub-object or a static
    /// mesh where the version has a place for them.
    open spec fn writable(x: InteriorView, v: Version) -> bool {
        writable_hulls(x, v) && writable_tail(x, v)
    }

    #[verifier::opaque]
    open spec fn encode(x: InteriorView, v: Version) -> Seq<u8> {
        encode_geometry(x, v) + encode_topology(x, v) + Vec::<Surface>::encode(x.surfaces, v)
            + encode_lighting(x, v) + encode_hulls(x, v) + encode_tail(x, v)
    }

    fn write(&self, to: &mut Vec<u8>, version: &Version) -> (r: DifResult<()>) {
        reveal(<Interior as Writable>::encode);
        let ghost x = self.deep_view();
        let ghost v = *version;
        if !can_write_tail(self, version) {
            return Err(DifError::new(DifErrorKind::Unsupported));
        }
        write_geometry(self, to, version)?;
        let ghost sent = encode_geometry(x, v);
        write_topology(self, to, version)?;
        proof {
            lemma_add_assoc(old(to)@, sent, encode_topology(x, v));
        }
        let ghost sent = sent + encode_topology(x, v);
        self.surfaces.write(to, version)?;
        proof {
            lemma_add_assoc(old(to)@, sent, Vec::<Surface>::encode(x.surfaces, v));
        }
        let ghost sent = sent + Vec::<Surface>::encode(x.surfaces, v);
        write_lighting(self, to, version)?;
        proof {
            lemma_add_assoc(old(to)@, sent, encode_lighting(x, v));
        }
        let ghost sent = sent + encode_lighting(x, v);
        write_hulls(self, to, version)?;
        proof {
            lemma_add_assoc(old(to)@, sent, encode_hulls(x, v));
        }
        let ghost sent = sent + encode_hulls(x, v);
        write_tail(self, to, version)?;
        proof {
            lemma_add_assoc(old(to)@, sent, encode_tail(x, v));
        }
        Ok(())
    }
}

/// Whether the last stage can be written: no static mesh where the
/// version has a place for them.
fn can_write_tail(interior: &Interior, version: &Version) -> (b: bool)
    ensures
        b == writable_tail(interior.deep_view(), *version),
{
    let b = !(version.interior >= 10 && interior.static_meshes.len() > 0);
    proof {
        let x = interior.deep_view();
        if version.interior >= 10 && interior.static_meshes.len() > 0 {
            assert(!StaticMesh::writable(x.static_meshes[0], *version));
        }
    }
    b
}


/// Every index is below 256.
pub open spec fn bytes_only(xs: Seq<LMapIndex>) -> bool {
    forall|i: int| 0 <= i < xs.len() ==> (#[trigger] xs[i]).value() < 0x100
}

/// The geometry of an interior.
pub open spec fn geometry_of(x: InteriorView) -> InteriorGeometryView {
    InteriorGeometryView {
        detail_level: x.detail_level,
        min_pixels: x.min_pixels,
        bounding_box: x.bounding_box,
        bounding_sphere: x.bounding_sphere,
        has_alarm_state: x.has_alarm_state,
        num_light_state_entries: x.num_light_state_entries,
        normals: x.normals,
        planes: x.planes,
        points: x.points,
        point_visibilities: x.point_visibilities,
        tex_gen_eqs: x.tex_gen_eqs,
        bsp_nodes: x.bsp_nodes,
        bsp_solid_leaves: x.bsp_solid_leaves,
    }
}

/// Whether the geometry of `x` comes back from its wire form under `v`.
pub open spec fn geometry_ok(x: InteriorView, v: Version) -> bool {
    &&& v.interior <= 14
    &&& u32::wire_ok(x.detail_level, v)
    &&& u32::wire_ok(x.min_pixels, v)
    &&& BoxF::wire_ok(x.bounding_box, v)
    &&& SphereF::wire_ok(x.bounding_sphere, v)
    &&& u8::wire_ok(x.has_alarm_state, v)
    &&& u32::wire_ok(x.num_light_state_entries, v)
    &&& Vec::<Point3F>::wire_ok(x.normals, v)
    &&& Vec::<Plane>::wire_ok(x.planes, v)
    &&& Vec::<Point3F>::wire_ok(x.points, v)
    &&& v.interior != 4 ==> Vec::<u8>::wire_ok(x.point_visibilities, v)
    &&& !(v.interior != 4) ==> x.point_visibilities == Seq::<u8>::empty()
    &&& Vec::<TexGenEq>::wire_ok(x.tex_gen_eqs, v)
    &&& Vec::<BSPNode>::wire_ok(x.bsp_nodes, v)
    &&& Vec::<BSPSolidLeaf>::wire_ok(x.bsp_solid_leaves, v)
}

/// The geometry of an interior comes back from its wire form.
#[verifier::rlimit(100)]
pub proof fn lemma_geometry_roundtrip(x: InteriorView, v: Version, d: Seq<u8>, p: int)
    requires
        geometry_ok(x, v),
        stands_at(d, p, encode_geometry(x, v)),
    ensures
        InteriorGeometry::parse(d, Cursor::at(p), v) == (
            geometry_of(x),
            Cursor::at(p + encode_geometry(x, v).len()),
            v,
        ),
{
    reveal(parse_geometry);
    reveal(encode_geometry);
    let e0 = u32::encode(v.interior, v);
    let e1 = u32::encode(x.detail_level, v);
    let e2 = u32::encode(x.min_pixels, v);
    let e3 = BoxF::encode(x.bounding_box, v);
    let e4 = SphereF::encode(x.bounding_sphere, v);
    let e5 = u8::encode(x.has_alarm_state, v);
    let e6 = u32::encode(x.num_light_state_entries, v);
    let e7 = Vec::<Point3F>::encode(x.normals, v);
    let e8 = Vec::<Plane>::encode(x.planes, v);
    let e9 = Vec::<Point3F>::encode(x.points, v);
    let e10 = (if v.interior != 4 {
        Vec::<u8>::encode(x.point_visibilities, v)
    } else {
        Seq::empty()
    });
    let e11 = Vec::<TexGenEq>::encode(x.tex_gen_eqs, v);
    let e12 = Vec::<BSPNode>::encode(x.bsp_nodes, v);
    let e13 = Vec::<BSPSolidLeaf>::encode(x.bsp_solid_leaves, v);
    let s0 = e0;
    let s1 = s0 + e1;
    let s2 = s1 + e2;
    let s3 = s2 + e3;
    let s4 = s3 + e4;
    let s5 = s4 + e5;
    let s6 = s5 + e6;
    let s7 = s6 + e7;
    let s8 = s7 + e8;
    let s9 = s8 + e9;
    let s10 = s9 + e10;
    let s11 = s10 + e11;
    let s12 = s11 + e12;
    lemma_split(d, p, s12, e13);
    lemma_split(d, p, s11, e12);
    lemma_split(d, p, s10, e11);
    lemma_split(d, p, s9, e10);
    lemma_split(d, p, s8, e9);
    lemma_split(d, p, s7, e8);
    lemma_split(d, p, s6, e7);
    lemma_split(d, p, s5, e6);
    lemma_split(d, p, s4, e5);
    lemma_split(d, p, s3, e4);
    lemma_split(d, p, s2, e3);
    lemma_split(d, p, s1, e2);
    lemma_split(d, p, s0, e1);
    u32::lemma_roundtrip(v.interior, v, d, p);
    u32::lemma_roundtrip(x.detail_level, v, d, (p + s0.len()));
    u32::lemma_roundtrip(x.min_pixels, v, d, (p + s1.len()));
    BoxF::lemma_roundtrip(x.bounding_box, v, d, (p + s2.len()));
    SphereF::lemma_roundtrip(x.bounding_sphere, v, d, (p + s3.len()));
    u8::lemma_roundtrip(x.has_alarm_state, v, d, (p + s4.len()));
    u32::lemma_roundtrip(x.num_light_state_entries, v, d, (p + s5.len()));
    Vec::<Point3F>::lemma_roundtrip(x.normals, v, d, (p + s6.len()));
    Vec::<Plane>::lemma_roundtrip(x.planes, v, d, (p + s7.len()));
    Vec::<Point3F>::lemma_roundtrip(x.points, v, d, (p + s8.len()));
    if v.interior != 4 {
        Vec::<u8>::lemma_roundtrip(x.point_visibilities, v, d, (p + s9.len()));
    }
    Vec::<TexGenEq>::lemma_roundtrip(x.tex_gen_eqs, v, d, (p + s10.len()));
    Vec::<BSPNode>::lemma_roundtrip(x.bsp_nodes, v, d, (p + s11.len()));
    Vec::<BSPSolidLeaf>::lemma_roundtrip(x.bsp_solid_leaves, v, d, (p + s12.len()));
}

/// The topology of an interior.
pub open spec fn topology_of(x: InteriorView) -> InteriorTopologyView {
    InteriorTopologyView {
        material_names: x.material_names,
        indices: x.indices,
        winding_indices: x.winding_indices,
        edges: x.edges,
        zones: x.zones,
        zone_surfaces: x.zone_surfaces,
        zone_static_meshes: x.zone_static_meshes,
        zone_portal_lists: x.zone_portal_lists,
        portals: x.portals,
    }
}

/// Whether the topology of `x` comes back from its wire form under `v`.
pub open spec fn topology_ok(x: InteriorView, v: Version) -> bool {
    &&& Vec::<String>::wire_ok(x.material_names, v)
    &&& Vec::<PointIndex>::wire_ok(x.indices, v)
    &&& Vec::<WindingIndex>::wire_ok(x.winding_indices, v)
    &&& v.interior >= 12 ==> Vec::<Edge>::wire_ok(x.edges, v)
    &&& !(v.interior >= 12) ==> x.edges == Seq::<Edge>::empty()
    &&& Vec::<Zone>::wire_ok(x.zones, v)
    &&& Vec::<SurfaceIndex>::wire_ok(x.zone_surfaces, v)
    &&& v.interior >= 12 ==> Vec::<StaticMeshIndex>::wire_ok(x.zone_static_meshes, v)
    &&& !(v.interior >= 12) ==> x.zone_static_meshes == Seq::<StaticMeshIndex>::empty()
    &&& Vec::<PortalIndex>::wire_ok(x.zone_portal_lists, v)
    &&& Vec::<Portal>::wire_ok(x.portals, v)
}

/// The topology of an interior comes back from its wire form.
#[verifier::rlimit(100)]
pub proof fn lemma_topology_roundtrip(x: InteriorView, v: Version, d: Seq<u8>, p: int)
    requires
        topology_ok(x, v),
        stands_at(d, p, encode_topology(x, v)),
    ensures
        InteriorTopology::parse(d, Cursor::at(p), v) == (
            topology_of(x),
            Cursor::at(p + encode_topology(x, v).len()),
            v,
        ),
{
    reveal(parse_topology);
    reveal(encode_topology);
    let e0 = u8::encode(v.material_list, v);
    let e1 = Vec::<String>::encode(x.material_names, v);
    let e2 = Vec::<PointIndex>::encode(x.indices, v);
    let e3 = Vec::<WindingIndex>::encode(x.winding_indices, v);
    let e4 = (if v.interior >= 12 {
        Vec::<Edge>::encode(x.edges, v)
    } else {
        Seq::empty()
    });
    let e5 = Vec::<Zone>::encode(x.zones, v);
    let e6 = Vec::<SurfaceIndex>::encode(x.zone_surfaces, v);
    let e7 = (if v.interior >= 12 {
        Vec::<StaticMeshIndex>::encode(x.zone_static_meshes, v)
    } else {
        Seq::empty()
    });
    let e8 = Vec::<PortalIndex>::encode(x.zone_portal_lists, v);
    let e9 = Vec::<Portal>::encode(x.portals, v);
    let s0 = e0;
    let s1 = s0 + e1;
    let s2 = s1 + e2;
    let s3 = s2 + e3;
    let s4 = s3 + e4;
    let s5 = s4 + e5;
    let s6 = s5 + e6;
    let s7 = s6 + e7;
    let s8 = s7 + e8;
    lemma_split(d, p, s8, e9);
    lemma_split(d, p, s7, e8);
    lemma_split(d, p, s6, e7);
    lemma_split(d, p, s5, e6);
    lemma_split(d, p, s4, e5);
    lemma_split(d, p, s3, e4);
    lemma_split(d, p, s2, e3);
    lemma_split(d, p, s1, e2);
    lemma_split(d, p, s0, e1);
    u8::lemma_roundtrip(v.material_list, v, d, p);
    Vec::<String>::lemma_roundtrip(x.material_names, v, d, (p + s0.len()));
    lemma_vec_unflagged::<PointIndex, u16>(x.indices, v, Narrow::Flagged, d, (p + s1.len()));
    Vec::<WindingIndex>::lemma_roundtrip(x.winding_indices, v, d, (p + s2.len()));
    if v.interior >= 12 {
        Vec::<Edge>::lemma_roundtrip(x.edges, v, d, (p + s3.len()));
    }
    Vec::<Zone>::lemma_roundtrip(x.zones, v, d, (p + s4.len()));
    lemma_vec_unflagged::<SurfaceIndex, u16>(x.zone_surfaces, v, Narrow::Never, d, (p + s5.len()));
    if v.interior >= 12 {
        Vec::<StaticMeshIndex>::lemma_roundtrip(x.zone_static_meshes, v, d, (p + s6.len()));
    }
    lemma_vec_unflagged::<PortalIndex, u16>(x.zone_portal_lists, v, Narrow::Never, d, (p + s7.len()));
    Vec::<Portal>::lemma_roundtrip(x.portals, v, d, (p + s8.len()));
}

/// The lighting of an interior.
pub open spec fn lighting_of(x: InteriorView) -> InteriorLightingView {
    InteriorLightingView {
        edge2s: x.edge2s,
        normal2s: x.normal2s,
        normal_indices: x.normal_indices,
        normal_lmap_indices: x.normal_lmap_indices,
        alarm_lmap_indices: x.alarm_lmap_indices,
        null_surfaces: x.null_surfaces,
        light_maps: x.light_maps,
        solid_leaf_surfaces: x.solid_leaf_surfaces,
        animated_lights: x.animated_lights,
        light_states: x.light_states,
    }
}

/// Whether the lighting of `x` comes back from its wire form under `v`.
pub open spec fn lighting_ok(x: InteriorView, v: Version) -> bool {
    &&& 2 <= v.interior <= 5 ==> Vec::<Edge2>::wire_ok(x.edge2s, v)
    &&& !(2 <= v.interior <= 5) ==> x.edge2s == Seq::<Edge2View>::empty()
    &&& 4 <= v.interior <= 5 ==> Vec::<Point3F>::wire_ok(x.normal2s, v)
    &&& !(4 <= v.interior <= 5) ==> x.normal2s == Seq::<Point3F>::empty()
    &&& 4 <= v.interior <= 5 ==> Vec::<NormalIndex>::wire_ok(x.normal_indices, v)
    &&& !(4 <= v.interior <= 5) ==> x.normal_indices == Seq::<NormalIndex>::empty()
    &&& x.normal_lmap_indices.len() < 0x8000_0000
    &&& v.interior < 13 ==> bytes_only(x.normal_lmap_indices)
    &&& x.alarm_lmap_indices.len() < 0x8000_0000
    &&& v.interior < 13 ==> bytes_only(x.alarm_lmap_indices)
    &&& v.interior == 4 ==> x.alarm_lmap_indices == Seq::<LMapIndex>::empty()
    &&& Vec::<NullSurface>::wire_ok(x.null_surfaces, v)
    &&& v.interior != 4 ==> Vec::<LightMap>::wire_ok(x.light_maps, v)
    &&& v.interior == 4 ==> x.light_maps == Seq::<LightMapView>::empty()
    &&& !(x.light_maps.len() > 0 && v.engine == EngineVersion::MBG)
    &&& Vec::<PossiblyNullSurfaceIndex>::wire_ok(x.solid_leaf_surfaces, v)
    &&& Vec::<AnimatedLight>::wire_ok(x.animated_lights, v)
    &&& Vec::<LightState>::wire_ok(x.light_states, v)
}

/// The lighting of an interior comes back from its wire form.
#[verifier::rlimit(100)]
pub proof fn lemma_lighting_roundtrip(x: InteriorView, v: Version, d: Seq<u8>, p: int)
    requires
        lighting_ok(x, v),
        stands_at(d, p, encode_lighting(x, v)),
    ensures
        InteriorLighting::parse(d, Cursor::at(p), v) == (
            lighting_of(x),
            Cursor::at(p + encode_lighting(x, v).len()),
            v,
        ),
{
    reveal(parse_lighting);
    reveal(encode_lighting);
    let e0 = (if 2 <= v.interior <= 5 {
        Vec::<Edge2>::encode(x.edge2s, v)
    } else {
        Seq::empty()
    });
    let e1 = (if 4 <= v.interior <= 5 {
        Vec::<Point3F>::encode(x.normal2s, v)
    } else {
        Seq::empty()
    });
    let e2 = (if 4 <= v.interior <= 5 {
        Vec::<NormalIndex>::encode(x.normal_indices, v)
    } else {
        Seq::empty()
    });
    let e3 = (if v.interior >= 13 {
        Vec::<LMapIndex>::encode(x.normal_lmap_indices, v)
    } else {
        encode_vec_narrow::<LMapIndex, u8>(x.normal_lmap_indices, v)
    });
    let e4 = (if v.interior >= 13 {
        Vec::<LMapIndex>::encode(x.alarm_lmap_indices, v)
    } else if v.interior != 4 {
        encode_vec_narrow::<LMapIndex, u8>(x.alarm_lmap_indices, v)
    } else {
        Seq::empty()
    });
    let e5 = Vec::<NullSurface>::encode(x.null_surfaces, v);
    let e6 = (if v.interior != 4 {
        Vec::<LightMap>::encode(x.light_maps, v)
    } else {
        Seq::empty()
    });
    let e7 = Vec::<PossiblyNullSurfaceIndex>::encode(x.solid_leaf_surfaces, v);
    let e8 = Vec::<AnimatedLight>::encode(x.animated_lights, v);
    let e9 = Vec::<LightState>::encode(x.light_states, v);
    let s0 = e0;
    let s1 = s0 + e1;
    let s2 = s1 + e2;
    let s3 = s2 + e3;
    let s4 = s3 + e4;
    let s5 = s4 + e5;
    let s6 = s5 + e6;
    let s7 = s6 + e7;
    let s8 = s7 + e8;
    lemma_split(d, p, s8, e9);
    lemma_split(d, p, s7, e8);
    lemma_split(d, p, s6, e7);
    lemma_split(d, p, s5, e6);
    lemma_split(d, p, s4, e5);
    lemma_split(d, p, s3, e4);
    lemma_split(d, p, s2, e3);
    lemma_split(d, p, s1, e2);
    lemma_split(d, p, s0, e1);
    if 2 <= v.interior <= 5 {
        Vec::<Edge2>::lemma_roundtrip(x.edge2s, v, d, p);
    }
    if 4 <= v.interior <= 5 {
        Vec::<Point3F>::lemma_roundtrip(x.normal2s, v, d, (p + s0.len()));
    }
    if 4 <= v.interior <= 5 {
        lemma_vec_unflagged::<NormalIndex, u8>(x.normal_indices, v, Narrow::FlaggedZero, d, (p + s1.len()));
    }
    if v.interior >= 13 {
        Vec::<LMapIndex>::lemma_roundtrip(x.normal_lmap_indices, v, d, (p + s2.len()));
    } else {
        lemma_vec_bytes_roundtrip::<_LMapIndex>(x.normal_lmap_indices, v, d, (p + s2.len()));
    }
    if v.interior >= 13 {
        Vec::<LMapIndex>::lemma_roundtrip(x.alarm_lmap_indices, v, d, (p + s3.len()));
    } else if v.interior != 4 {
        lemma_vec_bytes_roundtrip::<_LMapIndex>(x.alarm_lmap_indices, v, d, (p + s3.len()));
    }
    Vec::<NullSurface>::lemma_roundtrip(x.null_surfaces, v, d, (p + s4.len()));
    if v.interior != 4 {
        Vec::<LightMap>::lemma_roundtrip(x.light_maps, v, d, (p + s5.len()));
    }
    lemma_vec_unflagged::<PossiblyNullSurfaceIndex, u16>(x.solid_leaf_surfaces, v, Narrow::Flagged, d, (p + s6.len()));
    Vec::<AnimatedLight>::lemma_roundtrip(x.animated_lights, v, d, (p + s7.len()));
    Vec::<LightState>::lemma_roundtrip(x.light_states, v, d, (p + s8.len()));
}

/// The hulls of an interior.
pub open spec fn hulls_of(x: InteriorView) -> InteriorHullsView {
    InteriorHullsView {
        state_datas: x.state_datas,
        state_data_buffers: x.state_data_buffers,
        flags: x.flags,
        name_buffer_characters: x.name_buffer_characters,
        sub_objects: x.sub_objects,
        convex_hulls: x.convex_hulls,
        convex_hull_emit_string_characters: x.convex_hull_emit_string_characters,
        hull_indices: x.hull_indices,
        hull_plane_indices: x.hull_plane_indices,
        hull_emit_string_indices: x.hull_emit_string_indices,
        hull_surface_indices: x.hull_surface_indices,
        poly_list_plane_indices: x.poly_list_plane_indices,
        poly_list_point_indices: x.poly_list_point_indices,
        poly_list_string_characters: x.poly_list_string_characters,
    }
}

/// Whether the hulls of `x` comes back from its wire form under `v`.
pub open spec fn hulls_ok(x: InteriorView, v: Version) -> bool {
    &&& v.interior != 4 ==> Vec::<StateData>::wire_ok(x.state_datas, v)
    &&& !(v.interior != 4) ==> x.state_datas == Seq::<StateData>::empty()
    &&& x.state_data_buffers.len() <= 0xFFFF_FFFF
    &&& v.interior == 4 ==> x.state_data_buffers == Seq::<StateData>::empty() && x.flags == 0
    &&& v.interior != 4 ==> Vec::<u8>::wire_ok(x.name_buffer_characters, v)
    &&& !(v.interior != 4) ==> x.name_buffer_characters == Seq::<u8>::empty()
    &&& x.sub_objects == Seq::<SubObject>::empty()
    &&& Vec::<ConvexHull>::wire_ok(x.convex_hulls, v)
    &&& Vec::<u8>::wire_ok(x.convex_hull_emit_string_characters, v)
    &&& Vec::<PointIndex>::wire_ok(x.hull_indices, v)
    &&& Vec::<PlaneIndex>::wire_ok(x.hull_plane_indices, v)
    &&& Vec::<EmitStringIndex>::wire_ok(x.hull_emit_string_indices, v)
    &&& Vec::<PossiblyNullSurfaceIndex>::wire_ok(x.hull_surface_indices, v)
    &&& Vec::<PlaneIndex>::wire_ok(x.poly_list_plane_indices, v)
    &&& Vec::<PointIndex>::wire_ok(x.poly_list_point_indices, v)
    &&& Vec::<u8>::wire_ok(x.poly_list_string_characters, v)
}

/// The hulls of an interior comes back from its wire form.
#[verifier::rlimit(100)]
pub proof fn lemma_hulls_roundtrip(x: InteriorView, v: Version, d: Seq<u8>, p: int)
    requires
        hulls_ok(x, v),
        stands_at(d, p, encode_hulls(x, v)),
    ensures
        InteriorHulls::parse(d, Cursor::at(p), v) == (
            hulls_of(x),
            Cursor::at(p + encode_hulls(x, v).len()),
            v,
        ),
{
    reveal(parse_hulls);
    reveal(encode_hulls);
    let e0 = (if v.interior != 4 {
        Vec::<StateData>::encode(x.state_datas, v)
    } else {
        Seq::empty()
    });
    let e1 = (if v.interior != 4 {
        encode_vec_extra::<StateData, u32>(x.state_data_buffers, x.flags, v)
    } else {
        Seq::empty()
    });
    let e2 = (if v.interior != 4 {
        Vec::<u8>::encode(x.name_buffer_characters, v)
    } else {
        Seq::empty()
    });
    let e3 = (if v.interior != 4 {
        Vec::<SubObject>::encode(x.sub_objects, v)
    } else {
        Seq::empty()
    });
    let e4 = Vec::<ConvexHull>::encode(x.convex_hulls, v);
    let e5 = Vec::<u8>::encode(x.convex_hull_emit_string_characters, v);
    let e6 = Vec::<PointIndex>::encode(x.hull_indices, v);
    let e7 = Vec::<PlaneIndex>::encode(x.hull_plane_indices, v);
    let e8 = Vec::<EmitStringIndex>::encode(x.hull_emit_string_indices, v);
    let e9 = Vec::<PossiblyNullSurfaceIndex>::encode(x.hull_surface_indices, v);
    let e10 = Vec::<PlaneIndex>::encode(x.poly_list_plane_indices, v);
    let e11 = Vec::<PointIndex>::encode(x.poly_list_point_indices, v);
    let e12 = Vec::<u8>::encode(x.poly_list_string_characters, v);
    let s0 = e0;
    let s1 = s0 + e1;
    let s2 = s1 + e2;
    let s3 = s2 + e3;
    let s4 = s3 + e4;
    let s5 = s4 + e5;
    let s6 = s5 + e6;
    let s7 = s6 + e7;
    let s8 = s7 + e8;
    let s9 = s8 + e9;
    let s10 = s9 + e10;
    let s11 = s10 + e11;
    lemma_split(d, p, s11, e12);
    lemma_split(d, p, s10, e11);
    lemma_split(d, p, s9, e10);
    lemma_split(d, p, s8, e9);
    lemma_split(d, p, s7, e8);
    lemma_split(d, p, s6, e7);
    lemma_split(d, p, s5, e6);
    lemma_split(d, p, s4, e5);
    lemma_split(d, p, s3, e4);
    lemma_split(d, p, s2, e3);
    lemma_split(d, p, s1, e2);
    lemma_split(d, p, s0, e1);
    if v.interior != 4 {
        Vec::<StateData>::lemma_roundtrip(x.state_datas, v, d, p);
    }
    if v.interior != 4 {
        lemma_vec_extra_roundtrip::<StateData, u32>(x.state_data_buffers, x.flags, v, d, (p + s0.len()));
    }
    if v.interior != 4 {
        Vec::<u8>::lemma_roundtrip(x.name_buffer_characters, v, d, (p + s1.len()));
    }
    if v.interior != 4 {
        lemma_empty_vec_roundtrip::<SubObject>(v, d, (p + s2.len()));
    }
    Vec::<ConvexHull>::lemma_roundtrip(x.convex_hulls, v, d, (p + s3.len()));
    Vec::<u8>::lemma_roundtrip(x.convex_hull_emit_string_characters, v, d, (p + s4.len()));
    lemma_vec_unflagged::<PointIndex, u16>(x.hull_indices, v, Narrow::Flagged, d, (p + s5.len()));
    lemma_vec_u16_roundtrip::<_PlaneIndex>(x.hull_plane_indices, v, Narrow::Always, d, (p + s6.len()));
    lemma_vec_unflagged::<EmitStringIndex, u16>(x.hull_emit_string_indices, v, Narrow::Flagged, d, (p + s7.len()));
    lemma_vec_unflagged::<PossiblyNullSurfaceIndex, u16>(x.hull_surface_indices, v, Narrow::Flagged, d, (p + s8.len()));
    lemma_vec_u16_roundtrip::<_PlaneIndex>(x.poly_list_plane_indices, v, Narrow::Always, d, (p + s9.len()));
    lemma_vec_unflagged::<PointIndex, u16>(x.poly_list_point_indices, v, Narrow::Flagged, d, (p + s10.len()));
    Vec::<u8>::lemma_roundtrip(x.poly_list_string_characters, v, d, (p + s11.len()));
}

/// The tail of an interior.
pub open spec fn tail_of(x: InteriorView) -> InteriorTailView {
    InteriorTailView {
        coord_bins: x.coord_bins,
        coord_bin_indices: x.coord_bin_indices,
        coord_bin_mode: x.coord_bin_mode,
        base_ambient_color: x.base_ambient_color,
        alarm_ambient_color: x.alarm_ambient_color,
        static_meshes: x.static_meshes,
        tex_normals: x.tex_normals,
        tex_matrices: x.tex_matrices,
        tex_matrix_indices: x.tex_matrix_indices,
        extended_light_map_data: x.extended_light_map_data,
        light_map_border_size: x.light_map_border_size,
    }
}

/// Whether the tail of `x` comes back from its wire form under `v`.
pub open spec fn tail_ok(x: InteriorView, v: Version) -> bool {
    &&& x.coord_bins.len() == 256
    &&& Vec::<ConvexHullIndex>::wire_ok(x.coord_bin_indices, v)
    &&& u32::wire_ok(x.coord_bin_mode, v)
    &&& v.interior != 4 ==> ColorI::wire_ok(x.base_ambient_color, v)
    &&& !(v.interior != 4) ==> x.base_ambient_color == (ColorI { r: 0, g: 0, b: 0, a: 255 })
    &&& v.interior != 4 ==> ColorI::wire_ok(x.alarm_ambient_color, v)
    &&& !(v.interior != 4) ==> x.alarm_ambient_color == (ColorI { r: 0, g: 0, b: 0, a: 255 })
    &&& x.static_meshes == Seq::<StaticMeshView>::empty()
    &&& v.interior >= 11 ==> Vec::<Point3F>::wire_ok(x.tex_normals, v)
    &&& v.interior < 11 ==> x.tex_normals == Seq::<Point3F>::empty()
    &&& v.interior >= 11 ==> Vec::<TexMatrix>::wire_ok(x.tex_matrices, v)
    &&& v.interior < 11 ==> x.tex_matrices == Seq::<TexMatrix>::empty()
    &&& v.interior >= 11 ==> Vec::<TexMatrixIndex>::wire_ok(x.tex_matrix_indices, v)
    &&& v.interior < 11 ==> x.tex_matrix_indices == Seq::<TexMatrixIndex>::empty()
    &&& v.interior == 4 ==> x.extended_light_map_data == 0
    &&& x.extended_light_map_data == 0 ==> x.light_map_border_size == 0
}

/// The tail of an interior comes back from its wire form.
#[verifier::rlimit(100)]
pub proof fn lemma_tail_roundtrip(x: InteriorView, v: Version, d: Seq<u8>, p: int)
    requires
        tail_ok(x, v),
        stands_at(d, p, encode_tail(x, v)),
    ensures
        InteriorTail::parse(d, Cursor::at(p), v) == (
            tail_of(x),
            Cursor::at(p + encode_tail(x, v).len()),
            v,
        ),
{
    reveal(parse_tail);
    reveal(encode_tail);
    let e0 = encode_items::<CoordBin>(x.coord_bins, v);
    let e1 = Vec::<ConvexHullIndex>::encode(x.coord_bin_indices, v);
    let e2 = u32::encode(x.coord_bin_mode, v);
    let e3 = (if v.interior != 4 {
        ColorI::encode(x.base_ambient_color, v)
    } else {
        Seq::empty()
    });
    let e4 = (if v.interior != 4 {
        ColorI::encode(x.alarm_ambient_color, v)
    } else {
        Seq::empty()
    });
    let e5 = (if v.interior >= 10 {
        Vec::<StaticMesh>::encode(x.static_meshes, v)
    } else {
        Seq::empty()
    });
    let e6 = (if v.interior >= 11 {
        Vec::<Point3F>::encode(x.tex_normals, v)
    } else if v.interior != 4 {
        u32::encode(0u32, v)
    } else {
        Seq::empty()
    });
    let e7 = (if v.interior >= 11 {
        Vec::<TexMatrix>::encode(x.tex_matrices, v)
    } else if v.interior != 4 {
        u32::encode(0u32, v)
    } else {
        Seq::empty()
    });
    let e8 = (if v.interior >= 11 {
        Vec::<TexMatrixIndex>::encode(x.tex_matrix_indices, v)
    } else if v.interior != 4 {
        u32::encode(0u32, v)
    } else {
        Seq::empty()
    });
    let e9 = (if v.interior != 4 {
        u32::encode(x.extended_light_map_data, v) + (if x.extended_light_map_data != 0 {
            u32::encode(x.light_map_border_size, v) + u32::encode(0u32, v)
        } else {
            Seq::empty()
        })
    } else {
        Seq::empty()
    });
    let s0 = e0;
    let s1 = s0 + e1;
    let s2 = s1 + e2;
    let s3 = s2 + e3;
    let s4 = s3 + e4;
    let s5 = s4 + e5;
    let s6 = s5 + e6;
    let s7 = s6 + e7;
    let s8 = s7 + e8;
    lemma_split(d, p, s8, e9);
    lemma_split(d, p, s7, e8);
    lemma_split(d, p, s6, e7);
    lemma_split(d, p, s5, e6);
    lemma_split(d, p, s4, e5);
    lemma_split(d, p, s3, e4);
    lemma_split(d, p, s2, e3);
    lemma_split(d, p, s1, e2);
    lemma_split(d, p, s0, e1);
    lemma_items_roundtrip::<CoordBin>(x.coord_bins, v, d, p);
    lemma_vec_u16_roundtrip::<_ConvexHullIndex>(x.coord_bin_indices, v, Narrow::Always, d, (p + s0.len()));
    u32::lemma_roundtrip(x.coord_bin_mode, v, d, (p + s1.len()));
    if v.interior != 4 {
        ColorI::lemma_roundtrip(x.base_ambient_color, v, d, (p + s2.len()));
    }
    if v.interior != 4 {
        ColorI::lemma_roundtrip(x.alarm_ambient_color, v, d, (p + s3.len()));
    }
    if v.interior >= 10 {
        lemma_empty_vec_roundtrip::<StaticMesh>(v, d, (p + s4.len()));
    }
    if v.interior >= 11 {
        Vec::<Point3F>::lemma_roundtrip(x.tex_normals, v, d, (p + s5.len()));
    } else if v.interior != 4 {
        u32::lemma_roundtrip(0u32, v, d, (p + s5.len()));
    }
    if v.interior >= 11 {
        Vec::<TexMatrix>::lemma_roundtrip(x.tex_matrices, v, d, (p + s6.len()));
    } else if v.interior != 4 {
        u32::lemma_roundtrip(0u32, v, d, (p + s6.len()));
    }
    if v.interior >= 11 {
        Vec::<TexMatrixIndex>::lemma_roundtrip(x.tex_matrix_indices, v, d, (p + s7.len()));
    } else if v.interior != 4 {
        u32::lemma_roundtrip(0u32, v, d, (p + s7.len()));
    }
    if v.interior != 4 {
        let border = if x.extended_light_map_data != 0 {
            u32::encode(x.light_map_border_size, v) + u32::encode(0u32, v)
        } else {
            Seq::empty()
        };
        lemma_split(d, (p + s8.len()), u32::encode(x.extended_light_map_data, v), border);
        lemma_u32_bytes(x.extended_light_map_data);
        lemma_u32_bytes(x.light_map_border_size);
        u32::lemma_roundtrip(x.extended_light_map_data, v, d, (p + s8.len()));
        if x.extended_light_map_data != 0 {
            lemma_split(d, (p + s8.len()) + 4, u32::encode(x.light_map_border_size, v), u32::encode(0u32, v));
            u32::lemma_roundtrip(x.light_map_border_size, v, d, (p + s8.len()) + 4);
            u32::lemma_roundtrip(0u32, v, d, (p + s8.len()) + 8);
        }
    }
}

impl RoundTrip for Interior {
    /// The engine is known, each part comes back, and so does each
    /// surface against the tables of the interior.
    open spec fn wire_ok(x: InteriorView, v: Version) -> bool {
        &&& v.engine != EngineVersion::Unknown
        &&& geometry_ok(x, v)
        &&& topology_ok(x, v)
        &&& surfaces_ok(x.surfaces, v, surface_limits(geometry_of(x), topology_of(x)))
        &&& lighting_ok(x, v)
        &&& hulls_ok(x, v)
        &&& tail_ok(x, v)
    }

    #[verifier::rlimit(100)]
    proof fn lemma_roundtrip(x: InteriorView, v: Version, d: Seq<u8>, p: int) {
        reveal(<Interior as Readable>::parse);
        reveal(<Interior as Writable>::encode);
        let e0 = encode_geometry(x, v);
        let e1 = encode_topology(x, v);
        let e2 = Vec::<Surface>::encode(x.surfaces, v);
        let e3 = encode_lighting(x, v);
        let e4 = encode_hulls(x, v);
        let e5 = encode_tail(x, v);
        let s0 = e0;
        let s1 = s0 + e1;
        let s2 = s1 + e2;
        let s3 = s2 + e3;
        let s4 = s3 + e4;
        lemma_split(d, p, s4, e5);
        lemma_split(d, p, s3, e4);
        lemma_split(d, p, s2, e3);
        lemma_split(d, p, s1, e2);
        lemma_split(d, p, s0, e1);
        lemma_geometry_roundtrip(x, v, d, p);
        lemma_topology_roundtrip(x, v, d, p + s0.len());
        lemma_surface_table_roundtrip(
            x.surfaces,
            v,
            surface_limits(geometry_of(x), topology_of(x)),
            d,
            p + s1.len(),
        );
        lemma_lighting_roundtrip(x, v, d, p + s2.len());
        lemma_hulls_roundtrip(x, v, d, p + s3.len());
        lemma_tail_roundtrip(x, v, d, p + s4.len());
        assert(Interior::spec_assemble(
            geometry_of(x),
            topology_of(x),
            x.surfaces,
            lighting_of(x),
            hulls_of(x),
            tail_of(x),
        ) == x);
    }
}

} // verus!
