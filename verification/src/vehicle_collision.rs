use vstd::prelude::*;
use crate::io::{lemma_add_assoc, Cursor, Readable, Reader, Version, Writable};
use crate::roundtrip::{lemma_split, RoundTrip};
use crate::types::{DifResult, PlaneF, Point3F, F32};

verus! {

#[derive(Clone, Copy, Debug, PartialEq, Eq)]
pub struct ConvexHull {
    pub hull_start: u32,
    pub hull_count: u16,
    pub min_x: F32,
    pub max_x: F32,
    pub min_y: F32,
    pub max_y: F32,
    pub min_z: F32,
    pub max_z: F32,
    pub surface_start: u32,
    pub surface_count: u16,
    pub plane_start: u32,
    pub poly_list_plane_start: u32,
    pub poly_list_point_start: u32,
    pub poly_list_string_start: u32,
}

impl DeepView for ConvexHull {
    type V = ConvexHull;

    open spec fn deep_view(&self) -> ConvexHull {
        *self
    }
}

impl Readable for ConvexHull {
    open spec fn parse(d: Seq<u8>, c: Cursor, v: Version) -> (ConvexHull, Cursor, Version) {
        let (hull_start, c, v) = u32::parse(d, c, v);
        let (hull_count, c, v) = u16::parse(d, c, v);
        let (min_x, c, v) = F32::parse(d, c, v);
        let (max_x, c, v) = F32::parse(d, c, v);
        let (min_y, c, v) = F32::parse(d, c, v);
        let (max_y, c, v) = F32::parse(d, c, v);
        let (min_z, c, v) = F32::parse(d, c, v);
        let (max_z, c, v) = F32::parse(d, c, v);
        let (surface_start, c, v) = u32::parse(d, c, v);
        let (surface_count, c, v) = u16::parse(d, c, v);
        let (plane_start, c, v) = u32::parse(d, c, v);
        let (poly_list_plane_start, c, v) = u32::parse(d, c, v);
        let (poly_list_point_start, c, v) = u32::parse(d, c, v);
        let (poly_list_string_start, c, v) = u32::parse(d, c, v);
        (ConvexHull {
            hull_start,
            hull_count,
            min_x,
            max_x,
            min_y,
            max_y,
            min_z,
            max_z,
            surface_start,
            surface_count,
            plane_start,
            poly_list_plane_start,
            poly_list_point_start,
            poly_list_string_start,
        }, c, v)
    }

    fn take(from: &mut Reader, version: &mut Version) -> (r: Self) {
        let hull_start = u32::take(from, version);
        let hull_count = u16::take(from, version);
        let min_x = F32::take(from, version);
        let max_x = F32::take(from, version);
        let min_y = F32::take(from, version);
        let max_y = F32::take(from, version);
        let min_z = F32::take(from, version);
        let max_z = F32::take(from, version);
        let surface_start = u32::take(from, version);
        let surface_count = u16::take(from, version);
        let plane_start = u32::take(from, version);
        let poly_list_plane_start = u32::take(from, version);
        let poly_list_point_start = u32::take(from, version);
        let poly_list_string_start = u32::take(from, version);
        ConvexHull {
            hull_start,
            hull_count,
            min_x,
            max_x,
            min_y,
            max_y,
            min_z,
            max_z,
            surface_start,
            surface_count,
            plane_start,
            poly_list_plane_start,
            poly_list_point_start,
            poly_list_string_start,
        }
    }
}

impl Writable for ConvexHull {
    open spec fn writable(x: ConvexHull, v: Version) -> bool {
        true
    }

    open spec fn encode(x: ConvexHull, v: Version) -> Seq<u8> {
        u32::encode(x.hull_start, v)
            + u16::encode(x.hull_count, v)
            + F32::encode(x.min_x, v)
            + F32::encode(x.max_x, v)
            + F32::encode(x.min_y, v)
            + F32::encode(x.max_y, v)
            + F32::encode(x.min_z, v)
            + F32::encode(x.max_z, v)
            + u32::encode(x.surface_start, v)
            + u16::encode(x.surface_count, v)
            + u32::encode(x.plane_start, v)
            + u32::encode(x.poly_list_plane_start, v)
            + u32::encode(x.poly_list_point_start, v)
            + u32::encode(x.poly_list_string_start, v)
    }

    fn write(&self, to: &mut Vec<u8>, version: &Version) -> (r: DifResult<()>)
        ensures
            r is Ok,
    {
        let ghost x = *self;
        let ghost v = *version;
        self.hull_start.write(to, version)?;
        let ghost sent = u32::encode(x.hull_start, v);
        self.hull_count.write(to, version)?;
        proof {
            lemma_add_assoc(old(to)@, sent, u16::encode(x.hull_count, v));
        }
        let ghost sent = sent + u16::encode(x.hull_count, v);
        self.min_x.write(to, version)?;
        proof {
            lemma_add_assoc(old(to)@, sent, F32::encode(x.min_x, v));
        }
        let ghost sent = sent + F32::encode(x.min_x, v);
        self.max_x.write(to, version)?;
        proof {
            lemma_add_assoc(old(to)@, sent, F32::encode(x.max_x, v));
        }
        let ghost sent = sent + F32::encode(x.max_x, v);
        self.min_y.write(to, version)?;
        proof {
            lemma_add_assoc(old(to)@, sent, F32::encode(x.min_y, v));
        }
        let ghost sent = sent + F32::encode(x.min_y, v);
        self.max_y.write(to, version)?;
        proof {
            lemma_add_assoc(old(to)@, sent, F32::encode(x.max_y, v));
        }
        let ghost sent = sent + F32::encode(x.max_y, v);
        self.min_z.write(to, version)?;
        proof {
            lemma_add_assoc(old(to)@, sent, F32::encode(x.min_z, v));
        }
        let ghost sent = sent + F32::encode(x.min_z, v);
        self.max_z.write(to, version)?;
        proof {
            lemma_add_assoc(old(to)@, sent, F32::encode(x.max_z, v));
        }
        let ghost sent = sent + F32::encode(x.max_z, v);
        self.surface_start.write(to, version)?;
        proof {
            lemma_add_assoc(old(to)@, sent, u32::encode(x.surface_start, v));
        }
        let ghost sent = sent + u32::encode(x.surface_start, v);
        self.surface_count.write(to, version)?;
        proof {
            lemma_add_assoc(old(to)@, sent, u16::encode(x.surface_count, v));
        }
        let ghost sent = sent + u16::encode(x.surface_count, v);
        self.plane_start.write(to, version)?;
        proof {
            lemma_add_assoc(old(to)@, sent, u32::encode(x.plane_start, v));
        }
        let ghost sent = sent + u32::encode(x.plane_start, v);
        self.poly_list_plane_start.write(to, version)?;
        proof {
            lemma_add_assoc(old(to)@, sent, u32::encode(x.poly_list_plane_start, v));
        }
        let ghost sent = sent + u32::encode(x.poly_list_plane_start, v);
        self.poly_list_point_start.write(to, version)?;
        proof {
            lemma_add_assoc(old(to)@, sent, u32::encode(x.poly_list_point_start, v));
        }
        let ghost sent = sent + u32::encode(x.poly_list_point_start, v);
        self.poly_list_string_start.write(to, version)?;
        proof {
            lemma_add_assoc(old(to)@, sent, u32::encode(x.poly_list_string_start, v));
        }
        Ok(())
    }
}

impl RoundTrip for ConvexHull {
    open spec fn wire_ok(x: ConvexHull, v: Version) -> bool {
        &&& u32::wire_ok(x.hull_start, v)
        &&& u16::wire_ok(x.hull_count, v)
        &&& F32::wire_ok(x.min_x, v)
        &&& F32::wire_ok(x.max_x, v)
        &&& F32::wire_ok(x.min_y, v)
        &&& F32::wire_ok(x.max_y, v)
        &&& F32::wire_ok(x.min_z, v)
        &&& F32::wire_ok(x.max_z, v)
        &&& u32::wire_ok(x.surface_start, v)
        &&& u16::wire_ok(x.surface_count, v)
        &&& u32::wire_ok(x.plane_start, v)
        &&& u32::wire_ok(x.poly_list_plane_start, v)
        &&& u32::wire_ok(x.poly_list_point_start, v)
        &&& u32::wire_ok(x.poly_list_string_start, v)
    }

    #[verifier::rlimit(100)]
    proof fn lemma_roundtrip(x: ConvexHull, v: Version, d: Seq<u8>, p: int) {
        let e0 = u32::encode(x.hull_start, v);
        let e1 = u16::encode(x.hull_count, v);
        let e2 = F32::encode(x.min_x, v);
        let e3 = F32::encode(x.max_x, v);
        let e4 = F32::encode(x.min_y, v);
        let e5 = F32::encode(x.max_y, v);
        let e6 = F32::encode(x.min_z, v);
        let e7 = F32::encode(x.max_z, v);
        let e8 = u32::encode(x.surface_start, v);
        let e9 = u16::encode(x.surface_count, v);
        let e10 = u32::encode(x.plane_start, v);
        let e11 = u32::encode(x.poly_list_plane_start, v);
        let e12 = u32::encode(x.poly_list_point_start, v);
        let e13 = u32::encode(x.poly_list_string_start, v);
        let s0 = e0;
        let s1 = s0 + e1;
        let s2 = s1 + e2;
        let s3 = s2 + e3;
        let s4 = s3 + e4;
        let s5 = s4 + e5;
        let s6 = s5 + e6;
        let s7 = s6 + e7;
        let s8 = s7 + e8;
        let s9 = s8 + e9;
        let s10 = s9 + e10;
        let s11 = s10 + e11;
        let s12 = s11 + e12;
        lemma_split(d, p, s12, e13);
        lemma_split(d, p, s11, e12);
        lemma_split(d, p, s10, e11);
        lemma_split(d, p, s9, e10);
        lemma_split(d, p, s8, e9);
        lemma_split(d, p, s7, e8);
        lemma_split(d, p, s6, e7);
        lemma_split(d, p, s5, e6);
        lemma_split(d, p, s4, e5);
        lemma_split(d, p, s3, e4);
        lemma_split(d, p, s2, e3);
        lemma_split(d, p, s1, e2);
        lemma_split(d, p, s0, e1);
        u32::lemma_roundtrip(x.hull_start, v, d, p);
        u16::lemma_roundtrip(x.hull_count, v, d, p + s0.len());
        F32::lemma_roundtrip(x.min_x, v, d, p + s1.len());
        F32::lemma_roundtrip(x.max_x, v, d, p + s2.len());
        F32::lemma_roundtrip(x.min_y, v, d, p + s3.len());
        F32::lemma_roundtrip(x.max_y, v, d, p + s4.len());
        F32::lemma_roundtrip(x.min_z, v, d, p + s5.len());
        F32::lemma_roundtrip(x.max_z, v, d, p + s6.len());
        u32::lemma_roundtrip(x.surface_start, v, d, p + s7.len());
        u16::lemma_roundtrip(x.surface_count, v, d, p + s8.len());
        u32::lemma_roundtrip(x.plane_start, v, d, p + s9.len());
        u32::lemma_roundtrip(x.poly_list_plane_start, v, d, p + s10.len());
        u32::lemma_roundtrip(x.poly_list_point_start, v, d, p + s11.len());
        u32::lemma_roundtrip(x.poly_list_string_start, v, d, p + s12.len());
    }
}

#[derive(Clone, Copy, Debug, PartialEq, Eq)]
pub struct NullSurface {
    pub winding_start: u32,
    pub plane_index: u16,
    pub surface_flags: u8,
    pub winding_count: u32,
}

impl DeepView for NullSurface {
    type V = NullSurface;

    open spec fn deep_view(&self) -> NullSurface {
        *self
    }
}

impl Readable for NullSurface {
    open spec fn parse(d: Seq<u8>, c: Cursor, v: Version) -> (NullSurface, Cursor, Version) {
        let (winding_start, c, v) = u32::parse(d, c, v);
        let (plane_index, c, v) = u16::parse(d, c, v);
        let (surface_flags, c, v) = u8::parse(d, c, v);
        let (winding_count, c, v) = u32::parse(d, c, v);
        (NullSurface { winding_start, plane_index, surface_flags, winding_count }, c, v)
    }

    fn take(from: &mut Reader, version: &mut Version) -> (r: Self) {
        let winding_start = u32::take(from, version);
        let plane_index = u16::take(from, version);
        let surface_flags = u8::take(from, version);
        let winding_count = u32::take(from, version);
        NullSurface { winding_start, plane_index, surface_flags, winding_count }
    }
}

impl Writable for NullSurface {
    open spec fn writable(x: NullSurface, v: Version) -> bool {
        true
    }

    open spec fn encode(x: NullSurface, v: Version) -> Seq<u8> {
        u32::encode(x.winding_start, v)
            + u16::encode(x.plane_index, v)
            + u8::encode(x.surface_flags, v)
            + u32::encode(x.winding_count, v)
    }

    fn write(&self, to: &mut Vec<u8>, version: &Version) -> (r: DifResult<()>)
        ensures
            r is Ok,
    {
        let ghost x = *self;
        let ghost v = *version;
        self.winding_start.write(to, version)?;
        let ghost sent = u32::encode(x.winding_start, v);
        self.plane_index.write(to, version)?;
        proof {
            lemma_add_assoc(old(to)@, sent, u16::encode(x.plane_index, v));
        }
        let ghost sent = sent + u16::encode(x.plane_index, v);
        self.surface_flags.write(to, version)?;
        proof {
            lemma_add_assoc(old(to)@, sent, u8::encode(x.surface_flags, v));
        }
        let ghost sent = sent + u8::encode(x.surface_flags, v);
        self.winding_count.write(to, version)?;
        proof {
            lemma_add_assoc(old(to)@, sent, u32::encode(x.winding_count, v));
        }
        Ok(())
    }
}

impl RoundTrip for NullSurface {
    open spec fn wire_ok(x: NullSurface, v: Version) -> bool {
        &&& u32::wire_ok(x.winding_start, v)
        &&& u16::wire_ok(x.plane_index, v)
        &&& u8::wire_ok(x.surface_flags, v)
        &&& u32::wire_ok(x.winding_count, v)
    }

    proof fn lemma_roundtrip(x: NullSurface, v: Version, d: Seq<u8>, p: int) {
        let e0 = u32::encode(x.winding_start, v);
        let e1 = u16::encode(x.plane_index, v);
        let e2 = u8::encode(x.surface_flags, v);
        let e3 = u32::encode(x.winding_count, v);
        let s0 = e0;
        let s1 = s0 + e1;
        let s2 = s1 + e2;
        lemma_split(d, p, s2, e3);
        lemma_split(d, p, s1, e2);
        lemma_split(d, p, s0, e1);
        u32::lemma_roundtrip(x.winding_start, v, d, p);
        u16::lemma_roundtrip(x.plane_index, v, d, p + s0.len());
        u8::lemma_roundtrip(x.surface_flags, v, d, p + s1.len());
        u32::lemma_roundtrip(x.winding_count, v, d, p + s2.len());
    }
}

#[derive(Clone, Copy, Debug, PartialEq, Eq)]
pub struct WindingIndex {
    pub winding_start: u32,
    pub winding_count: u32,
}

impl DeepView for WindingIndex {
    type V = WindingIndex;

    open spec fn deep_view(&self) -> WindingIndex {
        *self
    }
}

impl Readable for WindingIndex {
    open spec fn parse(d: Seq<u8>, c: Cursor, v: Version) -> (WindingIndex, Cursor, Version) {
        let (winding_start, c, v) = u32::parse(d, c, v);
        let (winding_count, c, v) = u32::parse(d, c, v);
        (WindingIndex { winding_start, winding_count }, c, v)
    }

    fn take(from: &mut Reader, version: &mut Version) -> (r: Self) {
        let winding_start = u32::take(from, version);
        let winding_count = u32::take(from, version);
        WindingIndex { winding_start, winding_count }
    }
}

impl Writable for WindingIndex {
    open spec fn writable(x: WindingIndex, v: Version) -> bool {
        true
    }

    open spec fn encode(x: WindingIndex, v: Version) -> Seq<u8> {
        u32::encode(x.winding_start, v)
            + u32::encode(x.winding_count, v)
    }

    fn write(&self, to: &mut Vec<u8>, version: &Version) -> (r: DifResult<()>)
        ensures
            r is Ok,
    {
        let ghost x = *self;
        let ghost v = *version;
        self.winding_start.write(to, version)?;
        let ghost sent = u32::encode(x.winding_start, v);
        self.winding_count.write(to, version)?;
        proof {
            lemma_add_assoc(old(to)@, sent, u32::encode(x.winding_count, v));
        }
        Ok(())
    }
}

impl RoundTrip for WindingIndex {
    open spec fn wire_ok(x: WindingIndex, v: Version) -> bool {
        &&& u32::wire_ok(x.winding_start, v)
        &&& u32::wire_ok(x.winding_count, v)
    }

    proof fn lemma_roundtrip(x: WindingIndex, v: Version, d: Seq<u8>, p: int) {
        let e0 = u32::encode(x.winding_start, v);
        let e1 = u32::encode(x.winding_count, v);
        let s0 = e0;
        lemma_split(d, p, s0, e1);
        u32::lemma_roundtrip(x.winding_start, v, d, p);
        u32::lemma_roundtrip(x.winding_count, v, d, p + s0.len());
    }
}

/// The collision shape of a vehicle.
#[derive(Clone, Debug, PartialEq, Eq)]
pub struct VehicleCollision {
    pub version: u32,
    pub convex_hulls: Vec<ConvexHull>,
    pub convex_hull_emit_string_characters: Vec<u8>,
    pub hull_indices: Vec<u32>,
    pub hull_plane_indices: Vec<u16>,
    pub hull_emit_string_indices: Vec<u32>,
    pub hull_surface_indices: Vec<u32>,
    pub poly_list_plane_indices: Vec<u16>,
    pub poly_list_point_indices: Vec<u32>,
    pub poly_list_string_characters: Vec<u8>,
    pub null_surfaces: Vec<NullSurface>,
    pub points: Vec<Point3F>,
    pub planes: Vec<PlaneF>,
    pub windings: Vec<u32>,
    pub winding_indices: Vec<WindingIndex>,
}

/// What a `VehicleCollision` holds, as mathematical values.
pub struct VehicleCollisionView {
    pub version: u32,
    pub convex_hulls: Seq<ConvexHull>,
    pub convex_hull_emit_string_characters: Seq<u8>,
    pub hull_indices: Seq<u32>,
    pub hull_plane_indices: Seq<u16>,
    pub hull_emit_string_indices: Seq<u32>,
    pub hull_surface_indices: Seq<u32>,
    pub poly_list_plane_indices: Seq<u16>,
    pub poly_list_point_indices: Seq<u32>,
    pub poly_list_string_characters: Seq<u8>,
    pub null_surfaces: Seq<NullSurface>,
    pub points: Seq<Point3F>,
    pub planes: Seq<PlaneF>,
    pub windings: Seq<u32>,
    pub winding_indices: Seq<WindingIndex>,
}

impl DeepView for VehicleCollision {
    type V = VehicleCollisionView;

    open spec fn deep_view(&self) -> VehicleCollisionView {
        VehicleCollisionView {
            version: self.version.deep_view(),
            convex_hulls: self.convex_hulls.deep_view(),
            convex_hull_emit_string_characters: self.convex_hull_emit_string_characters.deep_view(),
            hull_indices: self.hull_indices.deep_view(),
            hull_plane_indices: self.hull_plane_indices.deep_view(),
            hull_emit_string_indices: self.hull_emit_string_indices.deep_view(),
            hull_surface_indices: self.hull_surface_indices.deep_view(),
            poly_list_plane_indices: self.poly_list_plane_indices.deep_view(),
            poly_list_point_indices: self.poly_list_point_indices.deep_view(),
            poly_list_string_characters: self.poly_list_string_characters.deep_view(),
            null_surfaces: self.null_surfaces.deep_view(),
            points: self.points.deep_view(),
            planes: self.planes.deep_view(),
            windings: self.windings.deep_view(),
            winding_indices: self.winding_indices.deep_view(),
        }
    }
}

impl Readable for VehicleCollision {
    #[verifier::opaque]
    open spec fn parse(d: Seq<u8>, c: Cursor, v: Version) -> (VehicleCollisionView, Cursor, Version) {
        let (version, c, v) = u32::parse(d, c, v);
        let (convex_hulls, c, v) = Vec::<ConvexHull>::parse(d, c, v);
        let (convex_hull_emit_string_characters, c, v) = Vec::<u8>::parse(d, c, v);
        let (hull_indices, c, v) = Vec::<u32>::parse(d, c, v);
        let (hull_plane_indices, c, v) = Vec::<u16>::parse(d, c, v);
        let (hull_emit_string_indices, c, v) = Vec::<u32>::parse(d, c, v);
        let (hull_surface_indices, c, v) = Vec::<u32>::parse(d, c, v);
        let (poly_list_plane_indices, c, v) = Vec::<u16>::parse(d, c, v);
        let (poly_list_point_indices, c, v) = Vec::<u32>::parse(d, c, v);
        let (poly_list_string_characters, c, v) = Vec::<u8>::parse(d, c, v);
        let (null_surfaces, c, v) = Vec::<NullSurface>::parse(d, c, v);
        let (points, c, v) = Vec::<Point3F>::parse(d, c, v);
        let (planes, c, v) = Vec::<PlaneF>::parse(d, c, v);
        let (windings, c, v) = Vec::<u32>::parse(d, c, v);
        let (winding_indices, c, v) = Vec::<WindingIndex>::parse(d, c, v);
        (VehicleCollisionView {
            version,
            convex_hulls,
            convex_hull_emit_string_characters,
            hull_indices,
            hull_plane_indices,
            hull_emit_string_indices,
            hull_surface_indices,
            poly_list_plane_indices,
            poly_list_point_indices,
            poly_list_string_characters,
            null_surfaces,
            points,
            planes,
            windings,
            winding_indices,
        }, c, v)
    }

    fn take(from: &mut Reader, version: &mut Version) -> (r: Self) {
        reveal(<VehicleCollision as Readable>::parse);
        let version_field = u32::take(from, version);
        let convex_hulls = Vec::<ConvexHull>::take(from, version);
        let convex_hull_emit_string_characters = Vec::<u8>::take(from, version);
        let hull_indices = Vec::<u32>::take(from, version);
        let hull_plane_indices = Vec::<u16>::take(from, version);
        let hull_emit_string_indices = Vec::<u32>::take(from, version);
        let hull_surface_indices = Vec::<u32>::take(from, version);
        let poly_list_plane_indices = Vec::<u16>::take(from, version);
        let poly_list_point_indices = Vec::<u32>::take(from, version);
        let poly_list_string_characters = Vec::<u8>::take(from, version);
        let null_surfaces = Vec::<NullSurface>::take(from, version);
        let points = Vec::<Point3F>::take(from, version);
        let planes = Vec::<PlaneF>::take(from, version);
        let windings = Vec::<u32>::take(from, version);
        let winding_indices = Vec::<WindingIndex>::take(from, version);
        VehicleCollision {
            version: version_field,
            convex_hulls,
            convex_hull_emit_string_characters,
            hull_indices,
            hull_plane_indices,
            hull_emit_string_indices,
            hull_surface_indices,
            poly_list_plane_indices,
            poly_list_point_indices,
            poly_list_string_characters,
            null_surfaces,
            points,
            planes,
            windings,
            winding_indices,
        }
    }
}

impl Writable for VehicleCollision {
    open spec fn writable(x: VehicleCollisionView, v: Version) -> bool {
        &&& u32::writable(x.version, v)
        &&& Vec::<ConvexHull>::writable(x.convex_hulls, v)
        &&& Vec::<u8>::writable(x.convex_hull_emit_string_characters, v)
        &&& Vec::<u32>::writable(x.hull_indices, v)
        &&& Vec::<u16>::writable(x.hull_plane_indices, v)
        &&& Vec::<u32>::writable(x.hull_emit_string_indices, v)
        &&& Vec::<u32>::writable(x.hull_surface_indices, v)
        &&& Vec::<u16>::writable(x.poly_list_plane_indices, v)
        &&& Vec::<u32>::writable(x.poly_list_point_indices, v)
        &&& Vec::<u8>::writable(x.poly_list_string_characters, v)
        &&& Vec::<NullSurface>::writable(x.null_surfaces, v)
        &&& Vec::<Point3F>::writable(x.points, v)
        &&& Vec::<PlaneF>::writable(x.planes, v)
        &&& Vec::<u32>::writable(x.windings, v)
        &&& Vec::<WindingIndex>::writable(x.winding_indices, v)
    }

    #[verifier::opaque]
    open spec fn encode(x: VehicleCollisionView, v: Version) -> Seq<u8> {
        u32::encode(x.version, v)
            + Vec::<ConvexHull>::encode(x.convex_hulls, v)
            + Vec::<u8>::encode(x.convex_hull_emit_string_characters, v)
            + Vec::<u32>::encode(x.hull_indices, v)
            + Vec::<u16>::encode(x.hull_plane_indices, v)
            + Vec::<u32>::encode(x.hull_emit_string_indices, v)
            + Vec::<u32>::encode(x.hull_surface_indices, v)
            + Vec::<u16>::encode(x.poly_list_plane_indices, v)
            + Vec::<u32>::encode(x.poly_list_point_indices, v)
            + Vec::<u8>::encode(x.poly_list_string_characters, v)
            + Vec::<NullSurface>::encode(x.null_surfaces, v)
            + Vec::<Point3F>::encode(x.points, v)
            + Vec::<PlaneF>::encode(x.planes, v)
            + Vec::<u32>::encode(x.windings, v)
            + Vec::<WindingIndex>::encode(x.winding_indices, v)
    }

    fn write(&self, to: &mut Vec<u8>, version: &Version) -> (r: DifResult<()>) {
        reveal(<VehicleCollision as Writable>::encode);
        let ghost x = self.deep_view();
        let ghost v = *version;
        self.version.write(to, version)?;
        let ghost sent = u32::encode(x.version, v);
        self.convex_hulls.write(to, version)?;
        proof {
            lemma_add_assoc(old(to)@, sent, Vec::<ConvexHull>::encode(x.convex_hulls, v));
        }
        let ghost sent = sent + Vec::<ConvexHull>::encode(x.convex_hulls, v);
        self.convex_hull_emit_string_characters.write(to, version)?;
        proof {
            lemma_add_assoc(old(to)@, sent, Vec::<u8>::encode(x.convex_hull_emit_string_characters, v));
        }
        let ghost sent = sent + Vec::<u8>::encode(x.convex_hull_emit_string_characters, v);
        self.hull_indices.write(to, version)?;
        proof {
            lemma_add_assoc(old(to)@, sent, Vec::<u32>::encode(x.hull_indices, v));
        }
        let ghost sent = sent + Vec::<u32>::encode(x.hull_indices, v);
        self.hull_plane_indices.write(to, version)?;
        proof {
            lemma_add_assoc(old(to)@, sent, Vec::<u16>::encode(x.hull_plane_indices, v));
        }
        let ghost sent = sent + Vec::<u16>::encode(x.hull_plane_indices, v);
        self.hull_emit_string_indices.write(to, version)?;
        proof {
            lemma_add_assoc(old(to)@, sent, Vec::<u32>::encode(x.hull_emit_string_indices, v));
        }
        let ghost sent = sent + Vec::<u32>::encode(x.hull_emit_string_indices, v);
        self.hull_surface_indices.write(to, version)?;
        proof {
            lemma_add_assoc(old(to)@, sent, Vec::<u32>::encode(x.hull_surface_indices, v));
        }
        let ghost sent = sent + Vec::<u32>::encode(x.hull_surface_indices, v);
        self.poly_list_plane_indices.write(to, version)?;
        proof {
            lemma_add_assoc(old(to)@, sent, Vec::<u16>::encode(x.poly_list_plane_indices, v));
        }
        let ghost sent = sent + Vec::<u16>::encode(x.poly_list_plane_indices, v);
        self.poly_list_point_indices.write(to, version)?;
        proof {
            lemma_add_assoc(old(to)@, sent, Vec::<u32>::encode(x.poly_list_point_indices, v));
        }
        let ghost sent = sent + Vec::<u32>::encode(x.poly_list_point_indices, v);
        self.poly_list_string_characters.write(to, version)?;
        proof {
            lemma_add_assoc(old(to)@, sent, Vec::<u8>::encode(x.poly_list_string_characters, v));
        }
        let ghost sent = sent + Vec::<u8>::encode(x.poly_list_string_characters, v);
        self.null_surfaces.write(to, version)?;
        proof {
            lemma_add_assoc(old(to)@, sent, Vec::<NullSurface>::encode(x.null_surfaces, v));
        }
        let ghost sent = sent + Vec::<NullSurface>::encode(x.null_surfaces, v);
        self.points.write(to, version)?;
        proof {
            lemma_add_assoc(old(to)@, sent, Vec::<Point3F>::encode(x.points, v));
        }
        let ghost sent = sent + Vec::<Point3F>::encode(x.points, v);
        self.planes.write(to, version)?;
        proof {
            lemma_add_assoc(old(to)@, sent, Vec::<PlaneF>::encode(x.planes, v));
        }
        let ghost sent = sent + Vec::<PlaneF>::encode(x.planes, v);
        self.windings.write(to, version)?;
        proof {
            lemma_add_assoc(old(to)@, sent, Vec::<u32>::encode(x.windings, v));
        }
        let ghost sent = sent + Vec::<u32>::encode(x.windings, v);
        self.winding_indices.write(to, version)?;
        proof {
            lemma_add_assoc(old(to)@, sent, Vec::<WindingIndex>::encode(x.winding_indices, v));
        }
        Ok(())
    }
}

impl RoundTrip for VehicleCollision {
    open spec fn wire_ok(x: VehicleCollisionView, v: Version) -> bool {
        &&& u32::wire_ok(x.version, v)
        &&& Vec::<ConvexHull>::wire_ok(x.convex_hulls, v)
        &&& Vec::<u8>::wire_ok(x.convex_hull_emit_string_characters, v)
        &&& Vec::<u32>::wire_ok(x.hull_indices, v)
        &&& Vec::<u16>::wire_ok(x.hull_plane_indices, v)
        &&& Vec::<u32>::wire_ok(x.hull_emit_string_indices, v)
        &&& Vec::<u32>::wire_ok(x.hull_surface_indices, v)
        &&& Vec::<u16>::wire_ok(x.poly_list_plane_indices, v)
        &&& Vec::<u32>::wire_ok(x.poly_list_point_indices, v)
        &&& Vec::<u8>::wire_ok(x.poly_list_string_characters, v)
        &&& Vec::<NullSurface>::wire_ok(x.null_surfaces, v)
        &&& Vec::<Point3F>::wire_ok(x.points, v)
        &&& Vec::<PlaneF>::wire_ok(x.planes, v)
        &&& Vec::<u32>::wire_ok(x.windings, v)
        &&& Vec::<WindingIndex>::wire_ok(x.winding_indices, v)
    }

    #[verifier::rlimit(100)]
    proof fn lemma_roundtrip(x: VehicleCollisionView, v: Version, d: Seq<u8>, p: int) {
        reveal(<VehicleCollision as Readable>::parse);
        reveal(<VehicleCollision as Writable>::encode);
        let e0 = u32::encode(x.version, v);
        let e1 = Vec::<ConvexHull>::encode(x.convex_hulls, v);
        let e2 = Vec::<u8>::encode(x.convex_hull_emit_string_characters, v);
        let e3 = Vec::<u32>::encode(x.hull_indices, v);
        let e4 = Vec::<u16>::encode(x.hull_plane_indices, v);
        let e5 = Vec::<u32>::encode(x.hull_emit_string_indices, v);
        let e6 = Vec::<u32>::encode(x.hull_surface_indices, v);
        let e7 = Vec::<u16>::encode(x.poly_list_plane_indices, v);
        let e8 = Vec::<u32>::encode(x.poly_list_point_indices, v);
        let e9 = Vec::<u8>::encode(x.poly_list_string_characters, v);
        let e10 = Vec::<NullSurface>::encode(x.null_surfaces, v);
        let e11 = Vec::<Point3F>::encode(x.points, v);
        let e12 = Vec::<PlaneF>::encode(x.planes, v);
        let e13 = Vec::<u32>::encode(x.windings, v);
        let e14 = Vec::<WindingIndex>::encode(x.winding_indices, v);
        let s0 = e0;
        let s1 = s0 + e1;
        let s2 = s1 + e2;
        let s3 = s2 + e3;
        let s4 = s3 + e4;
        let s5 = s4 + e5;
        let s6 = s5 + e6;
        let s7 = s6 + e7;
        let s8 = s7 + e8;
        let s9 = s8 + e9;
        let s10 = s9 + e10;
        let s11 = s10 + e11;
        let s12 = s11 + e12;
        let s13 = s12 + e13;
        lemma_split(d, p, s13, e14);
        lemma_split(d, p, s12, e13);
        lemma_split(d, p, s11, e12);
        lemma_split(d, p, s10, e11);
        lemma_split(d, p, s9, e10);
        lemma_split(d, p, s8, e9);
        lemma_split(d, p, s7, e8);
        lemma_split(d, p, s6, e7);
        lemma_split(d, p, s5, e6);
        lemma_split(d, p, s4, e5);
        lemma_split(d, p, s3, e4);
        lemma_split(d, p, s2, e3);
        lemma_split(d, p, s1, e2);
        lemma_split(d, p, s0, e1);
        u32::lemma_roundtrip(x.version, v, d, p);
        Vec::<ConvexHull>::lemma_roundtrip(x.convex_hulls, v, d, p + s0.len());
        Vec::<u8>::lemma_roundtrip(x.convex_hull_emit_string_characters, v, d, p + s1.len());
        Vec::<u32>::lemma_roundtrip(x.hull_indices, v, d, p + s2.len());
        Vec::<u16>::lemma_roundtrip(x.hull_plane_indices, v, d, p + s3.len());
        Vec::<u32>::lemma_roundtrip(x.hull_emit_string_indices, v, d, p + s4.len());
        Vec::<u32>::lemma_roundtrip(x.hull_surface_indices, v, d, p + s5.len());
        Vec::<u16>::lemma_roundtrip(x.poly_list_plane_indices, v, d, p + s6.len());
        Vec::<u32>::lemma_roundtrip(x.poly_list_point_indices, v, d, p + s7.len());
        Vec::<u8>::lemma_roundtrip(x.poly_list_string_characters, v, d, p + s8.len());
        Vec::<NullSurface>::lemma_roundtrip(x.null_surfaces, v, d, p + s9.len());
        Vec::<Point3F>::lemma_roundtrip(x.points, v, d, p + s10.len());
        Vec::<PlaneF>::lemma_roundtrip(x.planes, v, d, p + s11.len());
        Vec::<u32>::lemma_roundtrip(x.windings, v, d, p + s12.len());
        Vec::<WindingIndex>::lemma_roundtrip(x.winding_indices, v, d, p + s13.len());
    }
}

} // verus!
