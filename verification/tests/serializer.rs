use difbuilder::api::{write_dif, written_version};
use difbuilder::dif::{dif_with_interiors, Dif};
use difbuilder::errors::DifErrorKind;
use difbuilder::interior::{
    empty_interior, read_vec_fn, BSPIndex, BSPNode, ConvexHull, CoordBin, CoordBinIndex,
    HullPlaneIndex, HullPointIndex, HullSurfaceIndex, Interior, LMapIndex, NullSurfaceIndex, Plane,
    PlaneIndex, PointIndex, PolyListPlaneIndex, PolyListPointIndex, PolyListStringIndex,
    PortalIndex, PossiblyNullSurfaceIndex, StaticMeshIndex, Surface, SurfaceFlags, SurfaceIndex,
    SurfaceLightMap, SurfaceLimits, TexGenEq, TexGenIndex, TextureIndex, WindingIndexIndex, Zone,
    NormalIndex,
};
use difbuilder::io::{
    read_vec, read_vec_extra, write_vec_extra, EngineVersion, Narrow, Readable, Reader, Version,
    Writable,
};
use difbuilder::static_mesh::StaticMesh;
use difbuilder::trigger::Polyhedron;
use difbuilder::types::{BoxF, Dictionary, MatrixF, PlaneF, Point3F, Point4F, F32, PNG};

fn f(x: f32) -> F32 {
    F32::from_bits(x.to_bits())
}

fn p3(x: f32, y: f32, z: f32) -> Point3F {
    Point3F { x: f(x), y: f(y), z: f(z) }
}

fn mbg() -> Version {
    written_version()
}

#[test]
fn u32_is_little_endian() {
    let mut buf: Vec<u8> = Vec::new();
    0x0809A0A1u32.write(&mut buf, &mbg()).unwrap();
    assert_eq!(buf, vec![0xA1, 0xA0, 0x09, 0x08]);
    let mut reader = Reader::new(&buf);
    let mut v = Version::new();
    assert_eq!(u32::read(&mut reader, &mut v).unwrap(), 0x0809A0A1);
    assert_eq!(reader.pos, 4);
}

#[test]
fn u16_and_u8_and_i32_come_back() {
    let mut buf: Vec<u8> = Vec::new();
    0x0809u16.write(&mut buf, &mbg()).unwrap();
    7u8.write(&mut buf, &mbg()).unwrap();
    (-2i32).write(&mut buf, &mbg()).unwrap();
    assert_eq!(buf, vec![0x09, 0x08, 7, 0xFE, 0xFF, 0xFF, 0xFF]);
    let mut reader = Reader::new(&buf);
    let mut v = Version::new();
    assert_eq!(u16::read(&mut reader, &mut v).unwrap(), 0x0809);
    assert_eq!(u8::read(&mut reader, &mut v).unwrap(), 7);
    assert_eq!(i32::read(&mut reader, &mut v).unwrap(), -2);
}

#[test]
fn reading_past_the_end_is_eof() {
    let buf = vec![1u8, 2, 3];
    let mut reader = Reader::new(&buf);
    let mut v = Version::new();
    let e = u32::read(&mut reader, &mut v).unwrap_err();
    assert_eq!(e.kind, DifErrorKind::Eof);
    assert_eq!(e.message(), "EOF");
}

#[test]
fn float_is_written_by_its_bits() {
    let mut buf: Vec<u8> = Vec::new();
    f(1.0).write(&mut buf, &mbg()).unwrap();
    assert_eq!(buf, 1.0f32.to_le_bytes().to_vec());
    let mut reader = Reader::new(&buf);
    let mut v = Version::new();
    let back = F32::read(&mut reader, &mut v).unwrap();
    assert_eq!(f32::from_bits(back.to_bits()), 1.0);
}

#[test]
fn string_has_a_length_byte() {
    let mut buf: Vec<u8> = Vec::new();
    "Default".to_string().write(&mut buf, &mbg()).unwrap();
    assert_eq!(buf, vec![7, b'D', b'e', b'f', b'a', b'u', b'l', b't']);
    let mut reader = Reader::new(&buf);
    let mut v = Version::new();
    assert_eq!(String::read(&mut reader, &mut v).unwrap(), "Default");
}

#[test]
fn string_that_is_no_utf8_is_refused() {
    let buf = vec![2u8, 0xFF, 0xFE];
    let mut reader = Reader::new(&buf);
    let mut v = Version::new();
    let e = String::read(&mut reader, &mut v).unwrap_err();
    assert_eq!(e.kind, DifErrorKind::InvalidUtf8);
}

#[test]
fn string_that_is_cut_short_is_eof() {
    let buf = vec![5u8, b'a', b'b'];
    let mut reader = Reader::new(&buf);
    let mut v = Version::new();
    let e = String::read(&mut reader, &mut v).unwrap_err();
    assert_eq!(e.kind, DifErrorKind::Eof);
}

#[test]
fn list_with_flagged_count_skips_a_byte() {
    // count 2 with the high bit set, then the byte that is skipped
    let buf = vec![2u8, 0, 0, 0x80, 9, 5, 0, 0, 0, 6, 0, 0, 0];
    let mut reader = Reader::new(&buf);
    let mut v = Version::new();
    let xs = Vec::<u32>::read(&mut reader, &mut v).unwrap();
    assert_eq!(xs, vec![5, 6]);
}

#[test]
fn flagged_list_of_points_is_narrow() {
    let buf = vec![2u8, 0, 0, 0x80, 0, 5, 0, 6, 0];
    let mut reader = Reader::new(&buf);
    let mut v = Version::new();
    let xs = read_vec::<PointIndex, u16>(&mut reader, &mut v, Narrow::Flagged).unwrap();
    assert_eq!(xs, vec![PointIndex::new(5), PointIndex::new(6)]);
    // without the flag the points have 32 bits
    let buf = vec![1u8, 0, 0, 0, 5, 0, 1, 0];
    let mut reader = Reader::new(&buf);
    let xs = read_vec::<PointIndex, u16>(&mut reader, &mut v, Narrow::Flagged).unwrap();
    assert_eq!(xs, vec![PointIndex::new(0x10005)]);
}

#[test]
fn list_is_written_with_a_plain_count() {
    let mut buf: Vec<u8> = Vec::new();
    vec![5u16, 6u16].write(&mut buf, &mbg()).unwrap();
    assert_eq!(buf, vec![2, 0, 0, 0, 5, 0, 6, 0]);
}

#[test]
fn png_is_read_up_to_its_footer() {
    let mut buf = vec![1u8, 2, 3];
    buf.extend_from_slice(&[0x49, 0x45, 0x4E, 0x44, 0xAE, 0x42, 0x60, 0x82]);
    buf.push(77);
    let mut reader = Reader::new(&buf);
    let mut v = Version::new();
    let png = PNG::read(&mut reader, &mut v).unwrap();
    assert_eq!(png.data.len(), 11);
    assert_eq!(reader.pos, 11);
    let mut out = Vec::new();
    png.write(&mut out, &mbg()).unwrap();
    assert_eq!(out, buf[..11].to_vec());
}

#[test]
fn png_without_footer_is_eof() {
    let buf = vec![1u8, 2, 3, 0x49, 0x45];
    let mut reader = Reader::new(&buf);
    let mut v = Version::new();
    assert_eq!(PNG::read(&mut reader, &mut v).unwrap_err().kind, DifErrorKind::Eof);
}

#[test]
fn dictionary_comes_back_and_later_pairs_win() {
    let mut d = Dictionary::new();
    d.insert("a".to_string(), "1".to_string());
    d.insert("b".to_string(), "2".to_string());
    d.insert("a".to_string(), "3".to_string());
    assert_eq!(d.len(), 2);
    assert_eq!(d.get(&"a".to_string()), Some(&"3".to_string()));
    assert_eq!(d.get(&"c".to_string()), None);
    let mut buf = Vec::new();
    d.write(&mut buf, &mbg()).unwrap();
    assert_eq!(buf, vec![2, 0, 0, 0, 1, b'a', 1, b'3', 1, b'b', 1, b'2']);
    let mut reader = Reader::new(&buf);
    let mut v = Version::new();
    assert_eq!(Dictionary::read(&mut reader, &mut v).unwrap(), d);
}

#[test]
fn possibly_null_surface_index_round_trips_with_high_bit() {
    for k in [0u16, 1, 0x7FFF, 0xFFFF] {
        let null = PossiblyNullSurfaceIndex::Null(NullSurfaceIndex::new(k));
        let raw = null.to_u32();
        assert_eq!(raw & 0x8000_0000, 0x8000_0000);
        assert_eq!(raw & 0xFFFF, k as u32);
        assert_eq!(PossiblyNullSurfaceIndex::from_u32(raw), null);
        let drawn = PossiblyNullSurfaceIndex::NonNull(SurfaceIndex::new(k));
        let raw = drawn.to_u32();
        assert_eq!(raw, k as u32);
        assert_eq!(PossiblyNullSurfaceIndex::from_u32(raw), drawn);
    }
}

#[test]
fn bsp_index_has_its_flags_in_the_wire_form() {
    let x = BSPIndex { index: 5, leaf: true, solid: true };
    let mut v = mbg();
    let mut buf = Vec::new();
    x.write_bspnode(&mut buf, &v).unwrap();
    assert_eq!(buf, vec![0x05, 0xC0]);
    let mut reader = Reader::new(&buf);
    assert_eq!(BSPIndex::read_bspnode(&mut reader, &mut v).unwrap(), x);
    v.interior = 14;
    let mut buf = Vec::new();
    x.write_bspnode(&mut buf, &v).unwrap();
    assert_eq!(buf, vec![0x05, 0x00, 0x0C, 0x00]);
    let mut reader = Reader::new(&buf);
    assert_eq!(BSPIndex::read_bspnode(&mut reader, &mut v).unwrap(), x);
}

fn triangle_surface() -> Surface {
    Surface {
        winding_start: WindingIndexIndex::new(0),
        winding_count: 3,
        plane_index: PlaneIndex::new(0),
        plane_flipped: true,
        texture_index: TextureIndex::new(0),
        tex_gen_index: TexGenIndex::new(0),
        surface_flags: SurfaceFlags::outside_visible(),
        fan_mask: 0b111,
        light_map: SurfaceLightMap {
            final_word: 0,
            tex_gen_x_distance: f(0.0),
            tex_gen_y_distance: f(0.0),
        },
        light_count: 0,
        light_state_info_start: 0,
        map_offset_x: 0,
        map_offset_y: 0,
        map_size_x: 32,
        map_size_y: 32,
        brush_id: 0,
    }
}

#[test]
fn surface_keeps_the_flipped_bit_in_its_plane() {
    let s = triangle_surface();
    let mut buf = Vec::new();
    s.write(&mut buf, &mbg()).unwrap();
    // winding start, count, plane with bit 0x8000
    assert_eq!(&buf[..7], &[0, 0, 0, 0, 3, 0x00, 0x80]);
    let mut reader = Reader::new(&buf);
    let mut v = mbg();
    let back = Surface::read(&mut reader, &mut v, 3, 1, 1, 1).unwrap();
    assert_eq!(back, s);
    assert_eq!(reader.pos, buf.len());
}

#[test]
fn surface_outside_the_tables_is_refused() {
    let s = triangle_surface();
    let mut buf = Vec::new();
    s.write(&mut buf, &mbg()).unwrap();
    let mut v = mbg();
    let mut reader = Reader::new(&buf);
    assert_eq!(
        Surface::read(&mut reader, &mut v, 2, 1, 1, 1).unwrap_err().kind,
        DifErrorKind::OutOfBounds
    );
    let mut reader = Reader::new(&buf);
    assert_eq!(
        Surface::read(&mut reader, &mut v, 3, 0, 1, 1).unwrap_err().kind,
        DifErrorKind::OutOfBounds
    );
    let mut reader = Reader::new(&buf);
    assert_eq!(
        Surface::read(&mut reader, &mut v, 3, 1, 0, 1).unwrap_err().kind,
        DifErrorKind::OutOfBounds
    );
    let mut reader = Reader::new(&buf);
    assert_eq!(
        Surface::read(&mut reader, &mut v, 3, 1, 1, 0).unwrap_err().kind,
        DifErrorKind::OutOfBounds
    );
}

#[test]
fn surface_with_unknown_flags_is_refused() {
    let s = triangle_surface();
    let mut buf = Vec::new();
    s.write(&mut buf, &mbg()).unwrap();
    buf[13] = 0x80;
    let mut v = mbg();
    let mut reader = Reader::new(&buf);
    assert_eq!(
        Surface::read(&mut reader, &mut v, 3, 1, 1, 1).unwrap_err().kind,
        DifErrorKind::InvalidFlags
    );
    assert_eq!(SurfaceFlags::from_bits(0x20), None);
    assert_eq!(SurfaceFlags::from_bits(0x1F).unwrap().bits(), 0x1F);
}

#[test]
fn surface_list_is_read_against_the_tables() {
    let s = triangle_surface();
    let mut buf = Vec::new();
    vec![s, s].write(&mut buf, &mbg()).unwrap();
    let limits = SurfaceLimits {
        indices_len: 3,
        planes_len: 1,
        material_names_len: 1,
        tex_gen_eqs_len: 1,
    };
    let mut v = mbg();
    let mut reader = Reader::new(&buf);
    assert_eq!(read_vec_fn(&mut reader, &mut v, limits).unwrap(), vec![s, s]);
}

/// An interior with one triangle, as the builder makes it for Marble
/// Blast, with light map indices that fit a byte.
fn one_triangle_interior() -> Interior {
    let mut x = empty_interior();
    x.normals.push(p3(0.0, 0.0, 1.0));
    x.planes.push(Plane { normal_index: NormalIndex::new(0), plane_distance: f(0.0) });
    x.points.push(p3(0.0, 0.0, 0.0));
    x.points.push(p3(1.0, 0.0, 0.0));
    x.points.push(p3(0.0, 1.0, 0.0));
    x.point_visibilities = vec![0xFF, 0xFF, 0xFF];
    x.tex_gen_eqs.push(TexGenEq {
        plane_x: PlaneF { normal: p3(1.0, 0.0, 0.0), distance: f(0.0) },
        plane_y: PlaneF { normal: p3(0.0, 1.0, 0.0), distance: f(0.0) },
    });
    x.material_names.push("Default".to_string());
    x.indices = vec![PointIndex::new(0), PointIndex::new(1), PointIndex::new(2)];
    let mut s = triangle_surface();
    s.plane_flipped = false;
    x.surfaces.push(s);
    x.zone_surfaces.push(SurfaceIndex::new(0));
    x.normal_lmap_indices.push(LMapIndex::new(0));
    x.alarm_lmap_indices.push(LMapIndex::new(0xFF));
    x.zones.push(Zone {
        portal_start: PortalIndex::new(0),
        portal_count: 0,
        surface_start: 0,
        surface_count: 1,
        static_mesh_start: StaticMeshIndex::new(0),
        static_mesh_count: 0,
        flags: 0,
    });
    x.bsp_nodes.push(BSPNode {
        plane_index: PlaneIndex::new(0),
        front_index: BSPIndex { index: 0, leaf: true, solid: false },
        back_index: BSPIndex { index: 0, leaf: true, solid: true },
    });
    x.convex_hulls.push(ConvexHull {
        hull_start: HullPointIndex::new(0),
        hull_count: 3,
        min_x: f(0.0),
        max_x: f(1.0),
        min_y: f(0.0),
        max_y: f(1.0),
        min_z: f(0.0),
        max_z: f(0.0),
        surface_start: HullSurfaceIndex::new(0),
        surface_count: 1,
        plane_start: HullPlaneIndex::new(0),
        poly_list_plane_start: PolyListPlaneIndex::new(0),
        poly_list_point_start: PolyListPointIndex::new(0),
        poly_list_string_start: PolyListStringIndex::new(0),
        static_mesh: 0,
    });
    x.hull_indices = vec![PointIndex::new(0), PointIndex::new(1), PointIndex::new(2)];
    x.hull_surface_indices = vec![PossiblyNullSurfaceIndex::NonNull(SurfaceIndex::new(0))];
    for _ in 0..256 {
        x.coord_bins.push(CoordBin { bin_start: CoordBinIndex::new(0), bin_count: 0 });
    }
    x
}

/// The interior with one triangle, and a second surface on the same
/// triangle.
fn two_surface_interior() -> Interior {
    let mut x = one_triangle_interior();
    let mut s = triangle_surface();
    s.plane_flipped = false;
    x.surfaces.push(s);
    x.zone_surfaces.push(SurfaceIndex::new(1));
    x.normal_lmap_indices.push(LMapIndex::new(0));
    x.alarm_lmap_indices.push(LMapIndex::new(0xFF));
    x.zones[0].surface_count = 2;
    x
}

#[test]
fn one_triangle_interior_comes_back() {
    let x = one_triangle_interior();
    let mut buf = Vec::new();
    x.write(&mut buf, &mbg()).unwrap();
    // read under the version it was written for
    let mut v = mbg();
    let mut reader = Reader::new(&buf);
    let back = Interior::read(&mut reader, &mut v).unwrap();
    assert_eq!(back, x);
    assert_eq!(reader.pos, buf.len());
    assert_eq!(v.engine, EngineVersion::MBG);
}

#[test]
fn engine_is_found_by_trial() {
    // with nothing known of the engine the surfaces are first read with
    // one more byte each; for two surfaces that fails, and the engine is
    // Marble Blast Gold
    let x = two_surface_interior();
    let mut buf = Vec::new();
    x.write(&mut buf, &mbg()).unwrap();
    let mut v = Version::new();
    let mut reader = Reader::new(&buf);
    let back = Interior::read(&mut reader, &mut v).unwrap();
    assert_eq!(back, x);
    assert_eq!(v.engine, EngineVersion::MBG);
    assert_eq!(v.interior, 0);
    assert_eq!(v.material_list, 1);
    // a single surface is read with one more byte without failing, and
    // the engine is taken for Torque Game Engine Advanced
    let x = one_triangle_interior();
    let mut buf = Vec::new();
    x.write(&mut buf, &mbg()).unwrap();
    let mut v = Version::new();
    let mut reader = Reader::new(&buf);
    let _ = Interior::read(&mut reader, &mut v);
    assert_eq!(v.engine, EngineVersion::TGEA);
}

#[test]
fn interior_of_another_engine_must_have_version_0() {
    let x = two_surface_interior();
    let mut written = mbg();
    written.interior = 1;
    let mut buf = Vec::new();
    x.write(&mut buf, &written).unwrap();
    let mut v = Version::new();
    let mut reader = Reader::new(&buf);
    assert_eq!(
        Interior::read(&mut reader, &mut v).unwrap_err().kind,
        DifErrorKind::InvalidMbgVersion
    );
}

#[test]
fn alarm_light_map_index_is_cut_to_a_byte() {
    let mut x = one_triangle_interior();
    x.alarm_lmap_indices[0] = LMapIndex::new(0xFFFF_FFFF);
    let mut buf = Vec::new();
    x.write(&mut buf, &mbg()).unwrap();
    let mut v = mbg();
    let mut reader = Reader::new(&buf);
    let back = Interior::read(&mut reader, &mut v).unwrap();
    assert_eq!(back.alarm_lmap_indices[0], LMapIndex::new(0xFF));
}

#[test]
fn interior_version_above_14_is_refused() {
    let buf = vec![15u8, 0, 0, 0, 1, 2, 3, 4];
    let mut v = Version::new();
    let mut reader = Reader::new(&buf);
    assert_eq!(
        Interior::read(&mut reader, &mut v).unwrap_err().kind,
        DifErrorKind::UnsupportedInteriorVersion
    );
}

#[test]
fn single_triangle_dif_starts_with_version_44() {
    let dif = dif_with_interiors(vec![one_triangle_interior()]);
    let bytes = write_dif(&dif).unwrap();
    assert_eq!(&bytes[..4], &[0x2C, 0x00, 0x00, 0x00]);
    assert_eq!(&bytes[bytes.len() - 4..], &[0, 0, 0, 0]);
}

#[test]
fn dif_read_write_read_is_the_same() {
    let mut dif = dif_with_interiors(vec![two_surface_interior()]);
    let mut props = Dictionary::new();
    props.insert("kind".to_string(), "pad".to_string());
    dif.add_trigger(
        p3(0.0, 0.0, 0.0),
        p3(2.0, 3.0, 4.0),
        "T".to_string(),
        "Block".to_string(),
        props.clone(),
    );
    dif.add_game_entity("Item".to_string(), "Gem".to_string(), p3(1.0, 2.0, 3.0), props);
    let bytes = write_dif(&dif).unwrap();
    let (first, version) = Dif::from_bytes(&bytes).unwrap();
    assert_eq!(version.dif, 44);
    assert_eq!(version.engine, EngineVersion::MBG);
    assert_eq!(first.interiors, dif.interiors);
    assert_eq!(first.triggers, dif.triggers);
    assert_eq!(first.game_entities, dif.game_entities);
    let again = write_dif(&first).unwrap();
    assert_eq!(again, bytes);
    let (second, _) = Dif::from_bytes(&again).unwrap();
    assert_eq!(second.interiors, first.interiors);
    assert_eq!(second.triggers, first.triggers);
    assert_eq!(second.game_entities, first.game_entities);
}

#[test]
fn dif_with_another_version_is_refused() {
    let buf = vec![43u8, 0, 0, 0, 0];
    assert_eq!(Dif::from_bytes(&buf).unwrap_err().kind, DifErrorKind::BadVersion);
    let buf = vec![44u8, 0, 0];
    assert_eq!(Dif::from_bytes(&buf).unwrap_err().kind, DifErrorKind::Eof);
}

#[test]
fn interior_with_static_mesh_is_not_written_from_version_10() {
    let zero4 = Point4F { x: f(0.0), y: f(0.0), z: f(0.0), w: f(0.0) };
    let mut x = one_triangle_interior();
    x.static_meshes.push(StaticMesh {
        primitives: vec![],
        indices: vec![],
        vertexes: vec![],
        normals: vec![],
        diffuse_uvs: vec![],
        lightmap_uvs: vec![],
        base_material_list: None,
        has_solid: 0,
        has_translucency: 0,
        bounds: BoxF { min: p3(0.0, 0.0, 0.0), max: p3(0.0, 0.0, 0.0) },
        transform: MatrixF { x: zero4, y: zero4, z: zero4, w: zero4 },
        scale: p3(1.0, 1.0, 1.0),
    });
    let mut v = mbg();
    let mut buf = Vec::new();
    // version 0 has no place for static meshes: they are left out
    assert!(x.write(&mut buf, &v).is_ok());
    v.interior = 10;
    let mut buf = Vec::new();
    assert_eq!(x.write(&mut buf, &v).unwrap_err().kind, DifErrorKind::Unsupported);
}

#[test]
fn trigger_box_has_8_corners_6_faces_12_edges() {
    let poly = Polyhedron::from_box(p3(0.0, 0.0, 0.0), p3(2.0, 3.0, 4.0));
    assert_eq!(poly.point_list.len(), 8);
    assert_eq!(poly.plane_list.len(), 6);
    assert_eq!(poly.edge_list.len(), 12);
    let normals = [
        (-1.0, 0.0, 0.0),
        (0.0, 1.0, 0.0),
        (1.0, 0.0, 0.0),
        (0.0, -1.0, 0.0),
        (0.0, 0.0, 1.0),
        (0.0, 0.0, -1.0),
    ];
    let distances = [0.0f32, 3.0, 2.0, 0.0, 4.0, 0.0];
    for i in 0..6 {
        let plane = poly.plane_list[i];
        assert_eq!(f32::from_bits(plane.normal.x.to_bits()), normals[i].0);
        assert_eq!(f32::from_bits(plane.normal.y.to_bits()), normals[i].1);
        assert_eq!(f32::from_bits(plane.normal.z.to_bits()), normals[i].2);
        assert_eq!(f32::from_bits(plane.distance.to_bits()), distances[i]);
    }
    assert_eq!(poly.point_list[0], p3(0.0, 0.0, 4.0));
    assert_eq!(poly.point_list[6], p3(2.0, 3.0, 0.0));
    assert_eq!(poly.edge_list[0].face0, 0);
    assert_eq!(poly.edge_list[0].face1, 4);
    assert_eq!(poly.edge_list[11].vertex0, 3);
    assert_eq!(poly.edge_list[11].vertex1, 7);
}

#[test]
fn list_with_a_value_behind_its_count() {
    let mut buf: Vec<u8> = Vec::new();
    write_vec_extra::<u16, u8>(&vec![0x0102, 0x0304], &mut buf, &mbg(), &7u8).unwrap();
    assert_eq!(buf, vec![2, 0, 0, 0, 7, 2, 1, 4, 3]);
    let mut reader = Reader::new(&buf);
    let mut v = Version::new();
    assert_eq!(reader.remaining(), 9);
    let (items, extra) = read_vec_extra::<u16, u8>(&mut reader, &mut v).unwrap();
    assert_eq!(items, vec![0x0102, 0x0304]);
    assert_eq!(extra, 7);
    assert_eq!(reader.remaining(), 0);
    // cut short
    let mut reader = Reader::new(&buf[..8]);
    assert_eq!(
        read_vec_extra::<u16, u8>(&mut reader, &mut v).err().map(|e| e.kind),
        Some(DifErrorKind::Eof)
    );
}

#[test]
fn surface_index_from_either_table() {
    assert_eq!(
        PossiblyNullSurfaceIndex::from_null(NullSurfaceIndex::new(3)),
        PossiblyNullSurfaceIndex::Null(NullSurfaceIndex::new(3))
    );
    assert_eq!(
        PossiblyNullSurfaceIndex::from_surface(SurfaceIndex::new(3)),
        PossiblyNullSurfaceIndex::NonNull(SurfaceIndex::new(3))
    );
    assert_eq!(PossiblyNullSurfaceIndex::from_null(NullSurfaceIndex::new(3)).to_u32(), 0x8000_0003);
    assert_eq!(PossiblyNullSurfaceIndex::from_surface(SurfaceIndex::new(3)).to_u32(), 3);
}
