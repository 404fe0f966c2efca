use difbuilder::api::{
    add_dict_kvp, add_pathed_interior, add_triangle, attach_pathed_interior, new_dict,
    new_difbuilder, new_marker_list,
    new_trigger_id_list, push_marker, push_trigger_id, sum_ms, PathedInteriorImpl,
};
use difbuilder::bsp::exhaustive::{exhaustive_candidates, nearest_direction};
use difbuilder::bsp::sides::{
    calculate_split_rating, classify_poly, clip_steps, piece_indices, ClipStep, Placement,
};
use difbuilder::builder::bsp_export::{ray_steps, RayPart, RayStep};
use difbuilder::builder::sound::tables_are_sound;
use difbuilder::bsp::{
    split_into, RayCase, best_splitter, fast_candidates, needs_split, partition_brushes, planes_of, rate_plane,
    BSPConfig, BSPPolygon, BrushSide, DIFBSPNode, SplitMethod, SplitRating,
};
use difbuilder::builder::emit::{insert_sorted, position};
use difbuilder::builder::grouping::{bin_triangles, choose_group, dedup_groups, place_polygon};
use difbuilder::builder::poly_list::{hull_surfaces, unique_tables};
use difbuilder::builder::{
    build_emit_string, emit_polys_of, get_bounding_box, get_bounding_box_not_owned, group_planes,
    hull_poly_list,
    windows2_wrap, zigzag, BuildError, DIFBuilder, HullPoly, PlaneGrouping, PolyGroup,
    TempProcSurface,
};
use difbuilder::dif::dif_with_interiors;
use difbuilder::interior::{
    ConvexHull, HullPlaneIndex, HullPointIndex, HullSurfaceIndex, PolyListPlaneIndex,
    PolyListPointIndex, PolyListStringIndex,
};
use difbuilder::interior::BSPNode;
use difbuilder::interior::{
    empty_interior, BSPIndex, ConvexHullIndex, EmitStringIndex, NormalIndex, PlaneIndex,
    PointIndex, PossiblyNullSurfaceIndex, SurfaceIndex, TexGenEq, TexGenIndex, TextureIndex,
    NullSurfaceIndex,
};
use difbuilder::typed_ints::{TypedEnum, TypedEnumerate, TypedInt};
use difbuilder::types::{Dictionary, PlaneF, Point2F, Point3F, F32};

fn f(x: f32) -> F32 {
    F32::from_bits(x.to_bits())
}

fn p3(x: f32, y: f32, z: f32) -> Point3F {
    Point3F { x: f(x), y: f(y), z: f(z) }
}

fn uv() -> Point2F {
    Point2F { x: f(0.0), y: f(0.0) }
}

fn plane(x: f32, y: f32, z: f32, d: f32) -> PlaneF {
    PlaneF { normal: p3(x, y, z), distance: f(d) }
}

fn with_triangles(n: usize, mb_only: bool) -> DIFBuilder {
    let mut b = DIFBuilder::new(mb_only);
    for i in 0..n {
        let z = i as f32;
        b.add_triangle(
            p3(0.0, 0.0, z),
            p3(1.0, 0.0, z),
            p3(0.0, 1.0, z),
            uv(),
            uv(),
            uv(),
            plane(0.0, 0.0, 1.0, -z),
            "Default".to_string(),
        )
        .unwrap();
    }
    b
}

#[test]
fn typed_int_is_its_integer() {
    let mut x = PointIndex::new(7);
    assert_eq!(*x.inner(), 7);
    *x.inner_mut() = 9;
    assert_eq!(x.into_inner(), 9);
    assert_eq!(x, TypedInt::new(9));
    let e = TypedEnumerate::new(vec![1, 2], PointIndex::new(3));
    assert_eq!(e.count, PointIndex::new(3));
    let e = vec![4u8].typed_enumerate(5u16);
    assert_eq!(e.iter, vec![4u8]);
    assert_eq!(e.count, 5);
}

#[test]
fn items_are_handed_out_with_their_counter() {
    let e = vec!['a', 'b'].typed_enumerate(5usize);
    assert_eq!(e.len(), 2);
    assert_eq!(e.pair(0), Some((5, &'a')));
    assert_eq!(e.pair(1), Some((6, &'b')));
    assert_eq!(e.pair(2), None);
    let e = TypedEnumerate::new(vec![10u8, 20, 30], PointIndex::new(0xFFFF_FFFE));
    assert_eq!(e.pair(0), Some((PointIndex::new(0xFFFF_FFFE), &10)));
    assert_eq!(e.pair(1), Some((PointIndex::new(0xFFFF_FFFF), &20)));
    // the counter does not fit its type
    assert_eq!(e.pair(2), None);
    let e = TypedEnumerate::new(vec![1u8, 2], 0xFFFFu16);
    assert_eq!(e.pair(0), Some((0xFFFF, &1)));
    assert_eq!(e.pair(1), None);
}

#[test]
fn triangles_get_rising_ids() {
    let b = with_triangles(3, true);
    assert_eq!(b.brushes.len(), 3);
    assert_eq!(b.brushes[2].id, 2);
    assert_eq!(b.face_to_surface, vec![None, None, None]);
    let bounds = get_bounding_box(&b.brushes);
    assert_eq!(f32::from_bits(bounds.min.z.to_bits()), 0.0);
    assert_eq!(f32::from_bits(bounds.max.z.to_bits()), 2.0);
    assert_eq!(f32::from_bits(bounds.max.x.to_bits()), 1.0);
}

#[test]
fn export_point_adds_or_keeps() {
    let mut b = DIFBuilder::new(true);
    let a = b.export_point(&p3(1.0, 2.0, 3.0), None);
    assert_eq!(a, PointIndex::new(0));
    let c = b.export_point(&p3(4.0, 5.0, 6.0), None);
    assert_eq!(c, PointIndex::new(1));
    let again = b.export_point(&p3(1.0, 2.0, 3.0), Some(a));
    assert_eq!(again, a);
    assert_eq!(b.interior.points.len(), 2);
    assert_eq!(b.interior.point_visibilities, vec![0xFF, 0xFF]);
}

#[test]
fn export_plane_same_and_negated() {
    let mut b = DIFBuilder::new(true);
    let up = plane(0.0, 0.0, 1.0, -2.0);
    let first = b.export_plane(&up, None, None, None).unwrap();
    assert_eq!(first, PlaneIndex::new(0));
    assert_eq!(b.interior.planes.len(), 1);
    assert_eq!(b.interior.normals.len(), 1);
    assert_eq!(b.interior.normal2s.len(), 0);
    // the same plane again: the caller has found it
    let again = b.export_plane(&up, Some(first), None, None).unwrap();
    assert_eq!(again, first);
    // the plane turned round: the index with bit 0x8000
    let down = plane(0.0, 0.0, -1.0, 2.0);
    let turned = b.export_plane(&down, None, Some(first), None).unwrap();
    assert_eq!(turned, PlaneIndex::new(0x8000));
    assert_eq!(b.interior.planes.len(), 1);
    // another plane with the same normal
    let higher = plane(0.0, 0.0, 1.0, -5.0);
    let second = b.export_plane(&higher, None, None, Some(NormalIndex::new(0))).unwrap();
    assert_eq!(second, PlaneIndex::new(1));
    assert_eq!(b.interior.planes[1].normal_index, NormalIndex::new(0));
    assert_eq!(b.interior.normals.len(), 1);
}

#[test]
fn export_plane_adds_second_normals_unless_marble_blast_only() {
    let mut b = DIFBuilder::new(false);
    b.export_plane(&plane(1.0, 0.0, 0.0, 0.0), None, None, None).unwrap();
    assert_eq!(b.interior.normal2s.len(), 1);
}

#[test]
fn export_plane_overflow() {
    let mut b = DIFBuilder::new(true);
    let p = difbuilder::interior::Plane {
        normal_index: NormalIndex::new(0),
        plane_distance: f(0.0),
    };
    b.interior.planes = vec![p; 0x10000];
    assert_eq!(
        b.export_plane(&plane(1.0, 0.0, 0.0, 0.0), None, None, None),
        Err(BuildError::PlaneOverflow)
    );
    assert_eq!(b.interior.planes.len(), 0x10000);
}

#[test]
fn export_texture_scans_the_names() {
    let mut b = DIFBuilder::new(true);
    assert_eq!(b.export_texture("a".to_string()), TextureIndex::new(0));
    assert_eq!(b.export_texture("b".to_string()), TextureIndex::new(1));
    assert_eq!(b.export_texture("a".to_string()), TextureIndex::new(0));
    assert_eq!(b.interior.material_names, vec!["a".to_string(), "b".to_string()]);
}

#[test]
fn export_tex_gen_adds_or_keeps() {
    let mut b = DIFBuilder::new(true);
    let eq = TexGenEq { plane_x: plane(1.0, 0.0, 0.0, 0.0), plane_y: plane(0.0, 1.0, 0.0, 0.0) };
    assert_eq!(b.export_tex_gen(eq, None), TexGenIndex::new(0));
    assert_eq!(b.export_tex_gen(eq, Some(TexGenIndex::new(0))), TexGenIndex::new(0));
    assert_eq!(b.interior.tex_gen_eqs.len(), 1);
}

#[test]
fn export_emit_string_collapses_equal_bytes() {
    let mut b = DIFBuilder::new(false);
    let a = b.export_emit_string(vec![1, 2, 3]);
    let c = b.export_emit_string(vec![9]);
    let again = b.export_emit_string(vec![1, 2, 3]);
    assert_eq!(a, EmitStringIndex::new(0));
    assert_eq!(c, EmitStringIndex::new(3));
    assert_eq!(again, a);
    assert_eq!(b.interior.convex_hull_emit_string_characters, vec![1, 2, 3, 9]);
}

#[test]
fn export_surface_once_per_triangle() {
    let mut b = with_triangles(2, true);
    let corners = [PointIndex::new(0), PointIndex::new(1), PointIndex::new(2)];
    let s = b.export_surface(
        1,
        PlaneIndex::new(0x8000),
        TexGenIndex::new(0),
        corners,
        "Default".to_string(),
    )
    .unwrap();
    assert_eq!(s, PossiblyNullSurfaceIndex::NonNull(SurfaceIndex::new(0)));
    assert_eq!(b.surface_of(1), Some(s));
    assert_eq!(b.surface_of(0), None);
    assert_eq!(b.surface_of(5), None);
    let surface = b.interior.surfaces[0];
    assert!(surface.plane_flipped);
    assert_eq!(surface.fan_mask, 0b111);
    assert_eq!(surface.winding_count, 3);
    assert_eq!(surface.map_size_x, 32);
    assert_eq!(surface.surface_flags.bits(), 0b10000);
    assert_eq!(b.interior.indices, corners.to_vec());
    assert_eq!(b.interior.alarm_lmap_indices[0].into_inner(), 0xFFFF_FFFF);
    assert_eq!(b.interior.zone_surfaces.len(), 1);
    // a second export changes nothing
    let again = b.export_surface(
        1,
        PlaneIndex::new(3),
        TexGenIndex::new(0),
        corners,
        "Other".to_string(),
    )
    .unwrap();
    assert_eq!(again, s);
    assert_eq!(b.interior.surfaces.len(), 1);
    assert_eq!(b.interior.material_names.len(), 1);
    let n = b.export_null_surface(0, PlaneIndex::new(0), corners).unwrap();
    assert_eq!(n, PossiblyNullSurfaceIndex::Null(NullSurfaceIndex::new(0)));
    // an id that no triangle has
    assert_eq!(
        b.export_null_surface(2, PlaneIndex::new(0), corners),
        Err(BuildError::BrokenTable)
    );
    assert_eq!(
        b.export_surface(9, PlaneIndex::new(0), TexGenIndex::new(0), corners, "x".to_string()),
        Err(BuildError::BrokenTable)
    );
    assert_eq!(b.interior.null_surfaces[0].winding_count, 3);
    assert_eq!(b.interior.null_surfaces[0].winding_start.into_inner(), 3);
    assert_eq!(b.interior.surfaces.len(), 1);
}

#[test]
fn windows_wrap_round() {
    assert_eq!(windows2_wrap(&vec![1, 2, 3]), vec![(1, 2), (2, 3), (3, 1)]);
    assert_eq!(windows2_wrap(&vec![7]), vec![(7, 7)]);
    assert_eq!(windows2_wrap::<u8>(&vec![]), vec![]);
}

#[test]
fn zigzag_of_a_pentagon() {
    assert_eq!(zigzag(5), vec![1, 3, 4, 2, 0]);
    assert_eq!(zigzag(3), vec![1, 2, 0]);
    assert_eq!(zigzag(4), vec![1, 3, 2, 0]);
    assert_eq!(zigzag(1), vec![0]);
    assert_eq!(zigzag(0), Vec::<u32>::new());
}

fn tetrahedron_polys() -> Vec<HullPoly> {
    vec![
        HullPoly { points: vec![0, 1, 2], plane_index: 0 },
        HullPoly { points: vec![0, 3, 1], plane_index: 1 },
        HullPoly { points: vec![1, 3, 2], plane_index: 2 },
        HullPoly { points: vec![2, 3, 0], plane_index: 3 },
    ]
}

#[test]
fn emit_string_of_a_tetrahedron_corner() {
    let polys = tetrahedron_polys();
    // the polygons with corner 0
    assert_eq!(emit_polys_of(&polys, 0), vec![0, 1, 3]);
    let bytes = build_emit_string(&polys, 0).unwrap();
    assert_eq!(
        bytes,
        vec![
            4, 0, 1, 2, 3, // points
            6, 0, 1, 1, 2, 0, 2, 0, 3, 1, 3, 2, 3, // edges
            3, // polygons
            3, 0, 0, 1, 2, //
            3, 1, 0, 3, 1, //
            3, 3, 2, 3, 0,
        ]
    );
}

#[test]
fn emit_string_takes_polygons_in_the_same_plane() {
    let polys = vec![
        HullPoly { points: vec![0, 1, 2], plane_index: 5 },
        HullPoly { points: vec![1, 3, 2], plane_index: 5 },
        HullPoly { points: vec![4, 5, 6], plane_index: 6 },
    ];
    // polygon 1 does not touch corner 0 but lies in the plane of polygon 0
    assert_eq!(emit_polys_of(&polys, 0), vec![0, 1]);
    assert_eq!(emit_polys_of(&polys, 4), vec![2]);
    assert_eq!(emit_polys_of(&polys, 9), Vec::<usize>::new());
}

#[test]
fn emit_string_that_does_not_fit_is_refused() {
    let polys = vec![HullPoly { points: vec![0, 1, 300], plane_index: 0 }];
    assert_eq!(build_emit_string(&polys, 0), Err(BuildError::EmitStringOverflow));
}

#[test]
fn sorted_insert_and_position() {
    let mut v = vec![1usize, 4, 9];
    insert_sorted(&mut v, 5);
    insert_sorted(&mut v, 4);
    insert_sorted(&mut v, 0);
    insert_sorted(&mut v, 10);
    assert_eq!(v, vec![0, 1, 4, 5, 9, 10]);
    assert_eq!(position(&v, 5), 3);
    assert_eq!(position(&v, 7), 6);
}

#[test]
fn hull_with_emit_strings() {
    let mut b = with_triangles(1, false);
    let corners = vec![PointIndex::new(0), PointIndex::new(1), PointIndex::new(2)];
    let planes = vec![PlaneIndex::new(0)];
    let surfaces = vec![PossiblyNullSurfaceIndex::NonNull(SurfaceIndex::new(0))];
    let polys = vec![HullPoly { points: vec![0, 1, 2], plane_index: 0 }];
    let index = b.export_convex_hull(&vec![0], &corners, &planes, &surfaces, &polys, 3).unwrap();
    assert_eq!(index, 0);
    let hull = b.interior.convex_hulls[0];
    assert_eq!(hull.hull_count, 3);
    assert_eq!(hull.surface_count, 1);
    assert_eq!(f32::from_bits(hull.max_x.to_bits()), 1.0);
    assert_eq!(f32::from_bits(hull.min_z.to_bits()), 0.0);
    assert_eq!(b.interior.hull_indices, corners);
    assert_eq!(b.interior.poly_list_point_indices, corners);
    assert_eq!(b.interior.hull_plane_indices, planes);
    assert_eq!(b.interior.hull_surface_indices, surfaces);
    // the three corners have the same emit string, which is written once
    let string = vec![3, 0, 1, 2, 3, 0, 1, 1, 2, 0, 2, 1, 3, 0, 0, 1, 2];
    assert_eq!(b.interior.convex_hull_emit_string_characters, string);
    assert_eq!(b.interior.hull_emit_string_indices, vec![EmitStringIndex::new(0); 3]);
}

#[test]
fn hull_for_marble_blast_only_has_no_emit_strings() {
    let mut b = with_triangles(2, true);
    let corners = vec![PointIndex::new(0); 6];
    let planes = vec![PlaneIndex::new(0); 2];
    let surfaces = vec![PossiblyNullSurfaceIndex::NonNull(SurfaceIndex::new(0)); 2];
    let polys = vec![
        HullPoly { points: vec![0, 1, 2], plane_index: 0 },
        HullPoly { points: vec![0, 1, 2], plane_index: 0 },
    ];
    b.export_convex_hull(&vec![0, 1], &corners, &planes, &surfaces, &polys, 3).unwrap();
    assert_eq!(b.interior.hull_indices.len(), 6);
    assert!(b.interior.hull_plane_indices.is_empty());
    assert!(b.interior.hull_emit_string_indices.is_empty());
    assert_eq!(f32::from_bits(b.interior.convex_hulls[0].max_z.to_bits()), 1.0);
    // lists that do not fit the group are refused and nothing changes
    assert_eq!(
        b.export_convex_hull(&vec![0], &corners, &planes, &surfaces, &polys, 3),
        Err(BuildError::BrokenTable)
    );
    assert_eq!(
        b.export_convex_hull(&vec![0, 7], &corners, &planes, &surfaces, &polys, 3),
        Err(BuildError::BrokenTable)
    );
    assert_eq!(b.interior.convex_hulls.len(), 1);
    b.add_marble_blast_stubs();
    assert_eq!(b.interior.hull_plane_indices, vec![PlaneIndex::new(0)]);
    assert_eq!(b.interior.poly_list_string_characters, vec![0]);
    b.add_zone();
    assert_eq!(b.interior.zones.len(), 1);
    assert_eq!(b.interior.zones[0].surface_count, 0);
}

fn grid(lo: f32, hi: f32) -> Vec<F32> {
    (0..17).map(|i| f(lo + (hi - lo) * i as f32 / 16.0)).collect()
}

#[test]
fn coord_bins_hold_the_overlapping_hulls() {
    let mut b = with_triangles(1, true);
    let corners = vec![PointIndex::new(0), PointIndex::new(1), PointIndex::new(2)];
    let planes = vec![PlaneIndex::new(0)];
    let surfaces = vec![PossiblyNullSurfaceIndex::NonNull(SurfaceIndex::new(0))];
    let polys = vec![HullPoly { points: vec![0, 1, 2], plane_index: 0 }];
    b.export_convex_hull(&vec![0], &corners, &planes, &surfaces, &polys, 3).unwrap();
    // the hull spans [0, 1] x [0, 1]; the grid spans [-8, 8] x [-8, 8] with cells of width 1
    let lines = grid(-8.0, 8.0);
    b.export_coord_bins(&lines, &lines).unwrap();
    assert_eq!(b.interior.coord_bins.len(), 256);
    let mut with_hull = vec![];
    for (bin, entry) in b.interior.coord_bins.iter().enumerate() {
        if entry.bin_count > 0 {
            assert_eq!(entry.bin_count, 1);
            let at = entry.bin_start.into_inner() as usize;
            assert_eq!(b.interior.coord_bin_indices[at], ConvexHullIndex::new(0));
            with_hull.push(bin);
        }
    }
    // cells 7, 8 and 9 each way touch [0, 1]
    let mut expected = vec![];
    for i in 7..10 {
        for j in 7..10 {
            expected.push(i * 16 + j);
        }
    }
    assert_eq!(with_hull, expected);
    assert_eq!(b.interior.coord_bin_indices.len(), 9);
    assert_eq!(
        b.export_coord_bins(&vec![f(0.0)], &lines),
        Err(BuildError::BrokenTable)
    );
}

#[test]
fn triangles_go_into_the_cells_they_touch() {
    let b = with_triangles(2, true);
    let lines = grid(-8.0, 8.0);
    let bins = bin_triangles(&b.brushes, &lines, &lines).unwrap();
    assert_eq!(bins.len(), 256);
    assert_eq!(bins[7 * 16 + 7], vec![0, 1]);
    assert_eq!(bins[9 * 16 + 9], vec![0, 1]);
    assert_eq!(bins[0], Vec::<usize>::new());
    assert_eq!(bins[10 * 16 + 8], Vec::<usize>::new());
}

#[test]
fn greatest_cost_wins_and_of_equal_ones_the_last() {
    assert_eq!(choose_group(&vec![f(1.0), f(3.0), f(2.0)]), Some(1));
    assert_eq!(choose_group(&vec![f(3.0), f(3.0), f(2.0)]), Some(1));
    assert_eq!(choose_group(&vec![f(-1.0), f(-3.0)]), Some(0));
    assert_eq!(choose_group(&vec![]), None);
    let b = with_triangles(3, true);
    let mut groups: Vec<PolyGroup> = vec![];
    assert_eq!(place_polygon(&mut groups, &vec![f(1.0)], &b.brushes[0], 0), Ok(0));
    assert_eq!(groups.len(), 1);
    // the group costs more than a group of its own
    assert_eq!(place_polygon(&mut groups, &vec![f(5.0), f(1.0)], &b.brushes[1], 1), Ok(0));
    assert_eq!(groups[0].polys, vec![0, 1]);
    assert_eq!(f32::from_bits(groups[0].max.z.to_bits()), 1.0);
    // equal costs: the group of its own
    assert_eq!(place_polygon(&mut groups, &vec![f(2.0), f(2.0)], &b.brushes[2], 2), Ok(1));
    // a cost for each group and one more, or nothing is done
    assert_eq!(
        place_polygon(&mut groups, &vec![f(2.0)], &b.brushes[2], 2),
        Err(BuildError::BrokenTable)
    );
    assert_eq!(groups.len(), 2);
    assert_eq!(groups[1].polys, vec![2]);
    assert_eq!(f32::from_bits(groups[1].min.z.to_bits()), 2.0);
}

#[test]
fn each_triangle_stays_in_its_first_group() {
    let groups = vec![vec![0, 1], vec![1, 2], vec![0, 2], vec![3, 9]];
    assert_eq!(dedup_groups(&groups, 4), vec![vec![0, 1], vec![2], vec![3]]);
}

#[test]
fn few_planes_are_groups_of_their_own() {
    assert_eq!(group_planes(3, &vec![]).unwrap(), vec![0, 1, 2]);
    assert_eq!(TempProcSurface::new().num_points, 0);
    assert_eq!(PlaneGrouping::new().mask, 0);
}

#[test]
fn closest_planes_are_joined_first() {
    // nine planes; the dot product of planes 2 and 5 is the least
    let n = 9;
    let mut dots = vec![vec![f(0.5); n]; n];
    dots[2][5] = f(-0.9);
    dots[5][2] = f(-0.9);
    let groups = group_planes(n, &dots).unwrap();
    assert_eq!(groups, vec![0, 1, 2, 3, 4, 2, 5, 6, 7]);
    assert_eq!(group_planes(9, &vec![]), Err(BuildError::BrokenTable));
    // dot products that are no numbers count for nothing: no pair is found
    let dots = vec![vec![f(f32::NAN); n]; n];
    assert_eq!(group_planes(n, &dots).unwrap(), vec![0, 0, 1, 2, 3, 4, 5, 6, 7]);
    // no two groups lie closer than 2
    let dots = vec![vec![f(2.0); n]; n];
    assert_eq!(group_planes(n, &dots), Err(BuildError::NoPairing));
}

fn no_hull() -> ConvexHull {
    ConvexHull {
        hull_start: HullPointIndex::new(0),
        hull_count: 0,
        min_x: f(0.0),
        max_x: f(0.0),
        min_y: f(0.0),
        max_y: f(0.0),
        min_z: f(0.0),
        max_z: f(0.0),
        surface_start: HullSurfaceIndex::new(0),
        surface_count: 0,
        plane_start: HullPlaneIndex::new(0),
        poly_list_plane_start: PolyListPlaneIndex::new(0),
        poly_list_point_start: PolyListPointIndex::new(0),
        poly_list_string_start: PolyListStringIndex::new(0),
        static_mesh: 0,
    }
}

#[test]
fn surfaces_of_a_hull_come_in_the_order_of_the_engine() {
    let mut b = with_triangles(2, false);
    let corners = [PointIndex::new(7), PointIndex::new(8), PointIndex::new(9)];
    let plane_index = PlaneIndex::new(3);
    let s = b
        .export_surface(0, plane_index, TexGenIndex::new(0), corners, "Default".to_string())
        .unwrap();
    let n = b.export_null_surface(1, PlaneIndex::new(0x8003), corners).unwrap();
    let hull = ConvexHull { surface_start: HullSurfaceIndex::new(0), surface_count: 2, ..no_hull() };
    b.interior.hull_surface_indices.push(s);
    b.interior.hull_surface_indices.push(n);
    let surfaces = hull_surfaces(&b.interior, &hull).unwrap();
    assert_eq!(surfaces.len(), 2);
    // a drawn surface goes zig-zag, one that is not drawn as it stands
    assert_eq!(surfaces[0].point_indices, vec![8, 9, 7]);
    assert_eq!(surfaces[0].plane_index, 3);
    assert_eq!(surfaces[1].point_indices, vec![7, 8, 9]);
    assert_eq!(surfaces[1].plane_index, 0x8003);
    let (planes, points) = unique_tables(&surfaces);
    assert_eq!(planes, vec![3, 0x8003]);
    assert_eq!(points, vec![8, 9, 7]);
    let list = hull_poly_list(&b.interior, &hull, &vec![]).unwrap();
    assert_eq!(
        list.bytes,
        vec![2, 1, 2, 0, 3, 3, 3, 3, 2, 3, 1, 0, 0, 0, 0, 1, 0, 2, 3, 2, 1, 0, 2, 0, 0, 0, 1]
    );
    // a hull that names a surface that is not there
    let bad = ConvexHull { surface_count: 3, ..hull };
    assert_eq!(hull_surfaces(&b.interior, &bad).err(), Some(BuildError::BrokenTable));
    assert_eq!(hull_poly_list(&b.interior, &bad, &vec![]).err(), Some(BuildError::BrokenTable));
}

#[test]
fn numbers_that_are_finite() {
    assert!(f(0.0).is_finite());
    assert!(f(f32::MIN).is_finite());
    assert!(!f(f32::INFINITY).is_finite());
    assert!(!f(f32::NEG_INFINITY).is_finite());
    assert!(!f(f32::NAN).is_finite());
    assert!(p3(1.0, 2.0, 3.0).is_finite());
    assert!(!p3(1.0, f32::NAN, 3.0).is_finite());
    let mut b = with_triangles(1, true);
    assert!(b.brushes[0].is_finite());
    b.brushes[0].plane.distance = f(f32::INFINITY);
    assert!(!b.brushes[0].is_finite());
}

#[test]
fn poly_list_of_a_one_triangle_hull() {
    let mut b = with_triangles(1, false);
    let corners = [PointIndex::new(0), PointIndex::new(1), PointIndex::new(2)];
    b.export_point(&p3(0.0, 0.0, 0.0), None);
    b.export_point(&p3(1.0, 0.0, 0.0), None);
    b.export_point(&p3(0.0, 1.0, 0.0), None);
    let plane_index = b.export_plane(&plane(0.0, 0.0, 1.0, 0.0), None, None, None).unwrap();
    let tex = b.export_tex_gen(
        TexGenEq { plane_x: plane(1.0, 0.0, 0.0, 0.0), plane_y: plane(0.0, 1.0, 0.0, 0.0) },
        None,
    );
    let s = b.export_surface(0, plane_index, tex, corners, "Default".to_string()).unwrap();
    let polys = vec![HullPoly { points: vec![0, 1, 2], plane_index: 0 }];
    b.export_convex_hull(&vec![0], &corners.to_vec(), &vec![plane_index], &vec![s], &polys, 3)
        .unwrap();
    let list = hull_poly_list(&b.interior, &b.interior.convex_hulls[0], &vec![]).unwrap();
    assert_eq!(list.planes, vec![0]);
    // the corners in the order of the engine: 1, 2, 0
    assert_eq!(list.points, vec![1, 2, 0]);
    assert_eq!(
        list.bytes,
        vec![
            1, 1, // one plane with mask 1
            0, 3, 1, 1, 1, // three points with mask 1
            1, // one surface
            3, 1, 0, 0, 0, 0, 1, 0, 2,
        ]
    );
    b.process_hull_poly_lists(&vec![vec![]]).unwrap();
    assert_eq!(b.interior.poly_list_string_characters, list.bytes);
    assert_eq!(b.interior.poly_list_plane_indices, vec![PlaneIndex::new(0)]);
    assert_eq!(
        b.interior.poly_list_point_indices,
        vec![PointIndex::new(1), PointIndex::new(2), PointIndex::new(0)]
    );
    assert_eq!(b.process_hull_poly_lists(&vec![]), Err(BuildError::BrokenTable));
}

fn polygon(id: usize, plane_id: usize, used: bool) -> BSPPolygon {
    BSPPolygon {
        vertices: vec![p3(0.0, 0.0, 0.0), p3(1.0, 0.0, 0.0), p3(0.0, 1.0, 0.0)],
        indices: vec![0, 1, 2],
        plane: plane(0.0, 0.0, 1.0, 0.0),
        plane_id,
        id,
        used_plane: used,
        inverted_plane: false,
        area_calc: f(0.5),
    }
}

fn leaf(brushes: Vec<BSPPolygon>) -> DIFBSPNode {
    DIFBSPNode::from_brushes(brushes)
}

#[test]
fn tree_height_and_balance() {
    let mut root = leaf(vec![]);
    assert_eq!(root.height(), 1);
    assert_eq!(root.balance_factor(), 0);
    let mut front = leaf(vec![]);
    front.front = Some(Box::new(leaf(vec![])));
    root.front = Some(Box::new(front));
    root.back = Some(Box::new(leaf(vec![])));
    root.plane_index = Some(0);
    assert_eq!(root.height(), 3);
    assert_eq!(root.balance_factor(), 1);
}

#[test]
fn planes_of_a_node() {
    let brushes = vec![polygon(0, 4, false), polygon(1, 2, true), polygon(2, 4, false)];
    assert_eq!(planes_of(&brushes, false), vec![4, 2]);
    assert_eq!(planes_of(&brushes, true), vec![4]);
    let node = leaf(brushes);
    assert_eq!(node.avail_planes, vec![4, 2]);
    assert!(needs_split(&node));
    assert!(!needs_split(&leaf(vec![polygon(0, 1, true)])));
    assert_eq!(fast_candidates(&node), vec![4]);
    let config = BSPConfig::new();
    assert_eq!(config.split_method, SplitMethod::Fast);
    assert_eq!(f32::from_bits(config.epsilon.to_bits()), 1e-4);
}

#[test]
fn at_most_32_planes_are_tried() {
    let brushes: Vec<BSPPolygon> = (0..40).map(|i| polygon(i, 100 + i, false)).collect();
    let node = leaf(brushes);
    let tried = fast_candidates(&node);
    assert_eq!(tried.len(), 32);
    let mut seen = tried.clone();
    seen.sort();
    seen.dedup();
    assert_eq!(seen.len(), 32);
    assert!(tried.iter().all(|p| (100..140).contains(p)));
    // the same planes every time
    assert_eq!(fast_candidates(&node), tried);
}

#[test]
fn best_splitter_breaks_ties_by_lower_plane() {
    assert_eq!(best_splitter(&vec![], &vec![]), None);
    assert_eq!(best_splitter(&vec![7, 3, 5], &vec![10, 20, 15]), Some(3));
    assert_eq!(best_splitter(&vec![7, 3, 5], &vec![20, 20, 15]), Some(3));
    assert_eq!(best_splitter(&vec![3, 7, 5], &vec![20, 20, 20]), Some(3));
    // a score for each plane, or there is no best
    assert_eq!(best_splitter(&vec![3, 7, 5], &vec![20, 20]), None);
}

#[test]
fn ratings_count_the_plane_itself_once() {
    let brushes = vec![polygon(0, 1, false), polygon(1, 2, false), polygon(2, 1, false)];
    let front = SplitRating { front: 1, back: 0, splits: 0, coplanar: 0, tiny_windings: 0 };
    let split = SplitRating { front: 1, back: 1, splits: 1, coplanar: 0, tiny_windings: 1 };
    assert_eq!(rate_plane(&brushes, 1, &vec![front, split]), Err(BuildError::BrokenTable));
    let sum = rate_plane(&brushes, 1, &vec![front, split, front]).unwrap();
    // brush 0 lies in the plane and counts as in front, brush 1 is cut,
    // brush 2 counts as found
    assert_eq!(
        sum,
        SplitRating { front: 3, back: 1, splits: 1, coplanar: 1, tiny_windings: 1 }
    );
    // a polygon whose plane is turned round counts as behind
    let mut turned = polygon(0, 1, false);
    turned.inverted_plane = true;
    assert_eq!(
        rate_plane(&vec![turned], 1, &vec![front]).unwrap(),
        SplitRating { front: 0, back: 1, splits: 0, coplanar: 1, tiny_windings: 0 }
    );
    assert_eq!(
        rate_plane(&vec![polygon(0, 1, false)], 1, &vec![split]).unwrap(),
        SplitRating { front: 1, back: 0, splits: 0, coplanar: 1, tiny_windings: 0 }
    );
}

#[test]
fn brushes_go_to_front_and_back() {
    let brushes = vec![
        polygon(0, 1, false),
        polygon(1, 2, false),
        polygon(2, 3, false),
        polygon(3, 4, false),
        polygon(4, 5, false),
    ];
    let mut small = polygon(4, 5, false);
    small.indices = vec![0, 1];
    let sides = vec![
        BrushSide::Front,
        BrushSide::Front,
        BrushSide::Back,
        BrushSide::On,
        BrushSide::Spanning(polygon(4, 5, false), small),
    ];
    assert!(partition_brushes(&vec![polygon(0, 1, false)], &sides, 1).is_err());
    let (front, front_from, back, back_from) = partition_brushes(&brushes, &sides, 1).unwrap();
    // brush 0 lies in the plane that splits: it goes back and counts as used
    assert_eq!(front_from, vec![1, 4]);
    assert_eq!(back_from, vec![0, 2, 3]);
    assert_eq!(front[0].id, 1);
    assert!(!front[0].used_plane);
    assert_eq!(back[0].id, 0);
    assert!(back[0].used_plane);
    assert!(!back[1].used_plane);
    assert!(back[2].used_plane);
}

#[test]
fn tree_goes_into_the_interior() {
    let mut b = with_triangles(2, true);
    let corners = [PointIndex::new(0), PointIndex::new(1), PointIndex::new(2)];
    let s0 = b
        .export_surface(0, PlaneIndex::new(0), TexGenIndex::new(0), corners, "a".to_string())
        .unwrap();
    let s1 = b
        .export_surface(1, PlaneIndex::new(1), TexGenIndex::new(0), corners, "a".to_string())
        .unwrap();
    let mut root = leaf(vec![]);
    root.plane_index = Some(0);
    root.front = Some(Box::new(leaf(vec![polygon(0, 0, true), polygon(0, 0, true)])));
    root.back = Some(Box::new(leaf(vec![polygon(1, 1, true)])));
    // the plane of the interior is the plane of the tree turned round
    // a tree that names a plane without an entry, or a triangle without
    // a surface, is refused
    assert!(!b.tree_is_known(&root, &vec![]));
    assert_eq!(b.export_bsp_node(&root, &vec![]), Err(BuildError::BrokenTable));
    let stranger = leaf(vec![polygon(7, 0, true)]);
    assert_eq!(
        b.export_bsp_node(&stranger, &vec![PlaneIndex::new(0)]),
        Err(BuildError::BrokenTable)
    );
    assert_eq!(b.interior.bsp_nodes.len(), 0);
    assert!(b.tree_is_known(&root, &vec![PlaneIndex::new(0x8005)]));
    let index = b.export_bsp_node(&root, &vec![PlaneIndex::new(0x8005)]).unwrap();
    assert_eq!(index, BSPIndex { index: 0, leaf: false, solid: false });
    assert_eq!(b.interior.bsp_nodes.len(), 1);
    let node = b.interior.bsp_nodes[0];
    assert_eq!(node.plane_index, PlaneIndex::new(5));
    assert_eq!(node.back_index, BSPIndex { index: 0, leaf: true, solid: true });
    assert_eq!(node.front_index, BSPIndex { index: 1, leaf: true, solid: true });
    assert_eq!(b.interior.solid_leaf_surfaces, vec![s0, s1]);
    assert_eq!(b.interior.bsp_solid_leaves[0].surface_count, 1);
    assert_eq!(b.interior.bsp_solid_leaves[1].surface_index.into_inner(), 1);
    // an empty leaf is empty space
    let empty = b.export_bsp_node(&leaf(vec![]), &vec![]).unwrap();
    assert_eq!(empty, BSPIndex { index: 0, leaf: true, solid: false });
    assert!(DIFBuilder::solid_leaf_has_plane(&b.interior, 0, 0));
    assert!(DIFBuilder::solid_leaf_has_plane(&b.interior, 0, 0x8000));
    assert!(!DIFBuilder::solid_leaf_has_plane(&b.interior, 0, 1));
    assert!(DIFBuilder::solid_leaf_has_plane(&b.interior, 1, 1));
    assert!(!DIFBuilder::solid_leaf_has_plane(&b.interior, 2, 1));
}

#[test]
fn markers_and_trigger_ids() {
    let mut markers = new_marker_list();
    push_marker(&mut markers, p3(1.0, 2.0, 3.0), 500, 2);
    push_marker(&mut markers, p3(0.0, 0.0, 0.0), -1, 0);
    assert_eq!(markers.markers.len(), 2);
    assert_eq!(markers.markers[0].ms_to_next, 500);
    assert_eq!(markers.markers[1].ms_to_next, 0xFFFF_FFFF);
    assert_eq!(f32::from_bits(markers.markers[0].rotation.s.to_bits()), 1.0);
    assert_eq!(sum_ms(&markers.markers), 499);
    let mut ids = new_trigger_id_list();
    push_trigger_id(&mut ids, 7);
    assert_eq!(ids.trigger_ids, vec![7]);
    let mut builder = new_difbuilder();
    add_triangle(
        &mut builder,
        p3(0.0, 0.0, 0.0),
        p3(1.0, 0.0, 0.0),
        p3(0.0, 1.0, 0.0),
        uv(),
        uv(),
        uv(),
        p3(0.0, 0.0, 1.0),
        "Default".to_string(),
    );
    assert_eq!(builder.triangles.len(), 1);
    let mut dif = dif_with_interiors(vec![empty_interior()]);
    assert!(add_pathed_interior(
        &mut builder,
        &mut dif,
        vec![],
        vec![1, 2],
        Dictionary::new(),
        p3(0.0, 0.0, 0.0),
    ));
    assert!(dif.interiors.is_empty());
    assert!(!add_pathed_interior(
        &mut builder,
        &mut dif,
        vec![],
        vec![],
        Dictionary::new(),
        p3(0.0, 0.0, 0.0),
    ));
    let pathed: PathedInteriorImpl = builder.pathed_interiors.pop().unwrap();
    attach_pathed_interior(&mut dif, pathed);
    assert_eq!(dif.sub_objects.len(), 1);
    assert_eq!(dif.interior_path_followers[0].name, "MustChange");
    assert_eq!(dif.interior_path_followers[0].datablock, "PathedDefault");
    assert_eq!(dif.interior_path_followers[0].trigger_ids, vec![1, 2]);
}

#[test]
fn box_around_triangles_held_elsewhere() {
    let b = with_triangles(3, true);
    let some = vec![&b.brushes[2], &b.brushes[0]];
    let around = get_bounding_box_not_owned(&some);
    assert_eq!(around.min, p3(0.0, 0.0, 0.0));
    assert_eq!(around.max, p3(1.0, 1.0, 2.0));
    assert_eq!(get_bounding_box(&b.brushes), around);
}

#[test]
fn dictionary_of_a_client() {
    let mut d = new_dict();
    add_dict_kvp(&mut d, "a".to_string(), "1".to_string());
    add_dict_kvp(&mut d, "b".to_string(), "2".to_string());
    add_dict_kvp(&mut d, "a".to_string(), "3".to_string());
    assert_eq!(d.len(), 2);
    assert_eq!(d.get(&"a".to_string()), Some(&"3".to_string()));
    assert_eq!(d.get(&"b".to_string()), Some(&"2".to_string()));
    assert_eq!(d.get(&"c".to_string()), None);
}

#[test]
fn triangles_that_are_not_taken() {
    let mut b = with_triangles(1, true);
    let o = p3(0.0, 0.0, 0.0);
    let add = |b: &mut DIFBuilder, v: Point3F, n: PlaneF| {
        b.add_triangle(v, o, o, uv(), uv(), uv(), n, "Default".to_string())
    };
    let up = plane(0.0, 0.0, 1.0, 0.0);
    assert_eq!(add(&mut b, p3(f32::NAN, 0.0, 0.0), up), Err(BuildError::NotFinite));
    assert_eq!(add(&mut b, p3(0.0, f32::NEG_INFINITY, 0.0), up), Err(BuildError::NotFinite));
    assert_eq!(add(&mut b, o, plane(0.0, 0.0, 1.0, f32::NAN)), Err(BuildError::NotFinite));
    assert_eq!(add(&mut b, o, plane(0.0, -0.0, 0.0, 1.0)), Err(BuildError::ZeroNormal));
    assert_eq!(b.brushes.len(), 1);
    assert_eq!(add(&mut b, o, up), Ok(()));
    assert_eq!(b.brushes.len(), 2);
    assert_eq!(b.brushes[1].id, 1);
}

fn fs(values: &[f32]) -> Vec<F32> {
    values.iter().map(|&x| f(x)).collect()
}

#[test]
fn polygon_lies_in_front_behind_on_or_across() {
    let eps = f(1e-4);
    assert_eq!(classify_poly(&fs(&[0.5, 0.2, 0.0]), eps), Placement::Front);
    assert_eq!(classify_poly(&fs(&[-0.5, 0.0, 0.0]), eps), Placement::Back);
    assert_eq!(classify_poly(&fs(&[0.0, 0.00005, -0.00005]), eps), Placement::On);
    assert_eq!(classify_poly(&fs(&[1.0, -1.0, 0.0]), eps), Placement::Spanning);
    assert_eq!(classify_poly(&fs(&[]), eps), Placement::Spanning);
    // what is no number counts as on the plane
    assert_eq!(classify_poly(&fs(&[f32::NAN, 1.0]), eps), Placement::Front);
    assert_eq!(classify_poly(&fs(&[f32::NAN]), eps), Placement::On);
}

#[test]
fn rating_of_a_polygon_against_a_plane() {
    let eps = f(1e-4);
    let rating = |front, back, splits, tiny_windings| SplitRating {
        front,
        back,
        splits,
        coplanar: 0,
        tiny_windings,
    };
    assert_eq!(calculate_split_rating(&fs(&[0.5, -2.0]), eps), rating(1, 1, 1, 1));
    assert_eq!(calculate_split_rating(&fs(&[3.0, 2.0]), eps), rating(1, 0, 0, 0));
    assert_eq!(calculate_split_rating(&fs(&[-3.0, -0.5]), eps), rating(0, 1, 0, 0));
    assert_eq!(calculate_split_rating(&fs(&[0.00001]), eps), rating(0, 0, 0, 1));
    assert_eq!(calculate_split_rating(&fs(&[0.0, -0.0]), eps), rating(0, 0, 0, 0));
}

#[test]
fn piece_of_a_polygon_behind_a_plane() {
    let eps = f(1e-4);
    let steps = clip_steps(&fs(&[1.0, -1.0, -1.0]), eps);
    assert_eq!(
        steps,
        vec![ClipStep::Cut(0), ClipStep::Keep(1), ClipStep::Keep(2), ClipStep::Cut(2)]
    );
    assert_eq!(piece_indices(&vec![5, 6, 7], &steps, 10), Some(vec![10, 6, 7, 11]));
    assert_eq!(piece_indices(&vec![5, 6], &steps, 10), None);
    // a corner on the plane is kept, and no side goes through the plane
    assert_eq!(
        clip_steps(&fs(&[0.0, 1.0, -1.0]), eps),
        vec![ClipStep::Keep(0), ClipStep::Cut(1), ClipStep::Keep(2)]
    );
    assert_eq!(clip_steps(&fs(&[1.0, 2.0, 3.0]), eps), vec![]);
    assert_eq!(f(1.5).neg(), f(-1.5));
    assert_eq!(f(-0.0).neg(), f(0.0));
}

#[test]
fn planes_in_the_middle_of_their_directions() {
    assert_eq!(nearest_direction(&fs(&[0.1, 0.9, 0.9, -2.0])), Some(1));
    assert_eq!(nearest_direction(&fs(&[])), None);
    assert_eq!(nearest_direction(&fs(&[-1.0, f32::NAN])), None);
    let node = leaf(vec![
        polygon(0, 0, false),
        polygon(1, 1, false),
        polygon(2, 2, false),
        polygon(3, 1, false),
        polygon(4, 3, true),
    ]);
    let dots = vec![fs(&[0.9, 0.1]), fs(&[0.8, 0.2]), fs(&[0.0, 1.0]), fs(&[0.0, 1.0])];
    let distances = fs(&[3.0, 1.0, 2.0, 0.0]);
    assert_eq!(exhaustive_candidates(&node, &dots, &distances, 2), Ok(vec![0, 2]));
    assert_eq!(exhaustive_candidates(&node, &dots, &distances, 1), Ok(vec![0]));
    // planes with the same distance stay in the order in which they come
    let near = vec![fs(&[1.0]), fs(&[1.0]), fs(&[1.0]), fs(&[1.0])];
    assert_eq!(exhaustive_candidates(&node, &near, &fs(&[2.0, 2.0, 2.0, 2.0]), 1), Ok(vec![1]));
    assert_eq!(exhaustive_candidates(&node, &near, &fs(&[2.0, 1.0, 2.0, 2.0]), 1), Ok(vec![0]));
    assert_eq!(exhaustive_candidates(&node, &near, &fs(&[2.0, 3.0, -0.0, 0.0]), 1), Ok(vec![0]));
    assert_eq!(
        exhaustive_candidates(&node, &dots[..2].to_vec(), &distances, 2),
        Err(BuildError::BrokenTable)
    );
}

#[test]
fn triangles_with_the_material_null() {
    let mut b = with_triangles(1, true);
    let o = p3(0.0, 0.0, 0.0);
    let up = plane(0.0, 0.0, 1.0, 0.0);
    for name in ["NULL", "null", "NULL ", ""] {
        b.add_triangle(o, o, o, uv(), uv(), uv(), up, name.to_string()).unwrap();
    }
    assert!(!b.is_null_material(0));
    assert!(b.is_null_material(1));
    assert!(!b.is_null_material(2));
    assert!(!b.is_null_material(3));
    assert!(!b.is_null_material(4));
    assert!(!b.is_null_material(5));
}

#[test]
fn node_is_split_into_its_children() {
    let mut node = leaf(vec![polygon(0, 1, false), polygon(1, 2, false)]);
    split_into(
        &mut node,
        1,
        vec![],
        vec![polygon(0, 1, false), polygon(1, 2, false), polygon(2, 3, true), polygon(3, 2, false)],
    );
    assert_eq!(node.plane_index, Some(1));
    assert!(node.brush_list.is_empty());
    assert!(node.avail_planes.is_empty());
    assert!(node.front.is_none());
    let back = node.back.as_ref().unwrap();
    assert_eq!(back.plane_index, None);
    assert!(back.front.is_none() && back.back.is_none() && !back.solid);
    let used: Vec<bool> = back.brush_list.iter().map(|b| b.used_plane).collect();
    // what lies in the plane that splits counts as used
    assert_eq!(used, vec![true, false, true, false]);
    assert_eq!(back.brush_list[1].id, 1);
    assert_eq!(back.avail_planes, vec![2]);
    // a side that had a child and gets no polygon has none
    split_into(&mut node, 2, vec![polygon(5, 4, false)], vec![]);
    assert_eq!(node.plane_index, Some(2));
    assert!(node.back.is_none());
    assert_eq!(node.front.as_ref().unwrap().avail_planes, vec![4]);
}

#[test]
fn steps_of_a_ray_from_a_node() {
    let front = BSPIndex { index: 3, leaf: false, solid: false };
    let back = BSPIndex { index: 1, leaf: true, solid: true };
    let node = BSPNode { plane_index: PlaneIndex::new(0x8007), front_index: front, back_index: back };
    let step = |child, plane, part| RayStep { child, plane, part };
    assert_eq!(ray_steps(RayCase::Front, &node, 9), vec![step(front, 9, RayPart::Whole)]);
    assert_eq!(ray_steps(RayCase::Back, &node, 9), vec![step(back, 9, RayPart::Whole)]);
    assert_eq!(
        ray_steps(RayCase::FrontToBack, &node, 9),
        vec![step(front, 9, RayPart::ToPlane), step(back, 0x8007, RayPart::FromPlane)]
    );
    assert_eq!(
        ray_steps(RayCase::BackToFront, &node, 9),
        vec![step(back, 9, RayPart::ToPlane), step(front, 0x8007, RayPart::FromPlane)]
    );
    assert_eq!(
        ray_steps(RayCase::Within, &node, 9),
        vec![step(front, 9, RayPart::Whole), step(back, 9, RayPart::Whole)]
    );
}

#[test]
fn tables_that_refer_outside_are_not_sound() {
    let mut b = with_triangles(1, true);
    assert!(tables_are_sound(&b.interior));
    let corners = [PointIndex::new(0), PointIndex::new(1), PointIndex::new(2)];
    b.export_point(&p3(0.0, 0.0, 0.0), None);
    b.export_point(&p3(1.0, 0.0, 0.0), None);
    b.export_point(&p3(0.0, 1.0, 0.0), None);
    let plane_index = b.export_plane(&plane(0.0, 0.0, 1.0, 0.0), None, None, None).unwrap();
    let tex = b.export_tex_gen(
        TexGenEq { plane_x: plane(1.0, 0.0, 0.0, 0.0), plane_y: plane(0.0, 1.0, 0.0, 0.0) },
        None,
    );
    b.export_surface(0, plane_index, tex, corners, "Default".to_string()).unwrap();
    assert!(tables_are_sound(&b.interior));
    // a plane that is not there
    let mut broken = b.interior.clone();
    broken.surfaces[0].plane_index = PlaneIndex::new(0x8001);
    assert!(!tables_are_sound(&broken));
    // a point that is not there
    let mut broken = b.interior.clone();
    broken.indices[2] = PointIndex::new(3);
    assert!(!tables_are_sound(&broken));
    // a normal that is not there
    let mut broken = b.interior.clone();
    broken.planes[0].normal_index = NormalIndex::new(1);
    assert!(!tables_are_sound(&broken));
    // a point without its visibility
    let mut broken = b.interior.clone();
    broken.point_visibilities.pop();
    assert!(!tables_are_sound(&broken));
    // a winding that runs beyond the table
    let mut broken = b.interior.clone();
    broken.surfaces[0].winding_count = 4;
    assert!(!tables_are_sound(&broken));
    // the flipped bit of a plane counts for nothing
    let mut fine = b.interior.clone();
    fine.surfaces[0].plane_index = PlaneIndex::new(0x8000);
    assert!(tables_are_sound(&fine));
}
