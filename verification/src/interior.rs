pub mod record;

use vstd::prelude::*;
pub use crate::interior::record::{
    empty_interior, Interior, InteriorGeometry, InteriorGeometryView, InteriorHulls,
    InteriorHullsView, InteriorLighting, InteriorLightingView, InteriorTail, InteriorTailView,
    InteriorTopology, InteriorTopologyView, InteriorView,
};
use crate::io::{
    encode_items, encode_items_narrow, encode_vec_narrow, lemma_add_assoc, list_count, no_items,
    parse_items, parse_items_narrow, parse_list_header, parse_vec, take_list_header, Cursor,
    EngineVersion, FromNarrow, Narrow, Readable, Reader, Version, Writable,
};
use crate::roundtrip::{lemma_split, lemma_u16_bytes, lemma_u32_bytes, stands_at, RoundTrip};
use crate::typed_ints::TypedInt;
use crate::types::{DifResult, PlaneF, F32, PNG};
use crate::errors::DifErrorKind;

verus! {

#[derive(Debug, Eq, Ord, PartialOrd, PartialEq, Hash)]
pub struct _PointIndex(usize);

pub type PointIndex = TypedInt<u32, _PointIndex>;

#[derive(Debug, Eq, Ord, PartialOrd, PartialEq, Hash)]
pub struct _SurfaceIndex(usize);

pub type SurfaceIndex = TypedInt<u16, _SurfaceIndex>;

#[derive(Debug, Eq, Ord, PartialOrd, PartialEq, Hash)]
pub struct _NullSurfaceIndex(usize);

pub type NullSurfaceIndex = TypedInt<u16, _NullSurfaceIndex>;

#[derive(Debug, Eq, Ord, PartialOrd, PartialEq, Hash)]
pub struct _SolidLeafSurfaceIndex(usize);

pub type SolidLeafSurfaceIndex = TypedInt<u32, _SolidLeafSurfaceIndex>;

#[derive(Debug, Eq, Ord, PartialOrd, PartialEq, Hash)]
pub struct _StaticMeshIndex(usize);

pub type StaticMeshIndex = TypedInt<u32, _StaticMeshIndex>;

#[derive(Debug, Eq, Ord, PartialOrd, PartialEq, Hash)]
pub struct _PortalIndex(usize);

pub type PortalIndex = TypedInt<u16, _PortalIndex>;

#[derive(Debug, Eq, Ord, PartialOrd, PartialEq, Hash)]
pub struct _NormalIndex(usize);

pub type NormalIndex = TypedInt<u16, _NormalIndex>;

#[derive(Debug, Eq, Ord, PartialOrd, PartialEq, Hash)]
pub struct _LMapIndex(usize);

pub type LMapIndex = TypedInt<u32, _LMapIndex>;

#[derive(Debug, Eq, Ord, PartialOrd, PartialEq, Hash)]
pub struct _PlaneIndex(usize);

pub type PlaneIndex = TypedInt<u16, _PlaneIndex>;

#[derive(Debug, Eq, Ord, PartialOrd, PartialEq, Hash)]
pub struct _EmitStringIndex(usize);

pub type EmitStringIndex = TypedInt<u32, _EmitStringIndex>;

#[derive(Debug, Eq, Ord, PartialOrd, PartialEq, Hash)]
pub struct _CoordBinIndex(usize);

pub type CoordBinIndex = TypedInt<u32, _CoordBinIndex>;

#[derive(Debug, Eq, Ord, PartialOrd, PartialEq, Hash)]
pub struct _TexMatrixIndex(usize);

pub type TexMatrixIndex = TypedInt<u32, _TexMatrixIndex>;

#[derive(Debug, Eq, Ord, PartialOrd, PartialEq, Hash)]
pub struct _ConvexHullIndex(usize);

pub type ConvexHullIndex = TypedInt<u16, _ConvexHullIndex>;

#[derive(Debug, Eq, Ord, PartialOrd, PartialEq, Hash)]
pub struct _ZoneIndex(usize);

pub type ZoneIndex = TypedInt<u16, _ZoneIndex>;

#[derive(Debug, Eq, Ord, PartialOrd, PartialEq, Hash)]
pub struct _WindingIndexIndex(usize);

pub type WindingIndexIndex = TypedInt<u32, _WindingIndexIndex>;

#[derive(Debug, Eq, Ord, PartialOrd, PartialEq, Hash)]
pub struct _TextureIndex(usize);

pub type TextureIndex = TypedInt<u16, _TextureIndex>;

#[derive(Debug, Eq, Ord, PartialOrd, PartialEq, Hash)]
pub struct _TexGenIndex(usize);

pub type TexGenIndex = TypedInt<u32, _TexGenIndex>;

#[derive(Debug, Eq, Ord, PartialOrd, PartialEq, Hash)]
pub struct _HullSurfaceIndex(usize);

pub type HullSurfaceIndex = TypedInt<u32, _HullSurfaceIndex>;

#[derive(Debug, Eq, Ord, PartialOrd, PartialEq, Hash)]
pub struct _HullPointIndex(usize);

pub type HullPointIndex = TypedInt<u32, _HullPointIndex>;

#[derive(Debug, Eq, Ord, PartialOrd, PartialEq, Hash)]
pub struct _HullPlaneIndex(usize);

pub type HullPlaneIndex = TypedInt<u32, _HullPlaneIndex>;

#[derive(Debug, Eq, Ord, PartialOrd, PartialEq, Hash)]
pub struct _PolyListPlaneIndex(usize);

pub type PolyListPlaneIndex = TypedInt<u32, _PolyListPlaneIndex>;

#[derive(Debug, Eq, Ord, PartialOrd, PartialEq, Hash)]
pub struct _PolyListPointIndex(usize);

pub type PolyListPointIndex = TypedInt<u32, _PolyListPointIndex>;

#[derive(Debug, Eq, Ord, PartialOrd, PartialEq, Hash)]
pub struct _PolyListStringIndex(usize);

pub type PolyListStringIndex = TypedInt<u32, _PolyListStringIndex>;

/// A plane: its normal in the table of normals, and its distance.
#[derive(Clone, Copy, Debug, PartialEq, Eq)]
pub struct Plane {
    pub normal_index: NormalIndex,
    pub plane_distance: F32,
}

impl DeepView for Plane {
    type V = Plane;

    open spec fn deep_view(&self) -> Plane {
        *self
    }
}

impl Readable for Plane {
    open spec fn parse(d: Seq<u8>, c: Cursor, v: Version) -> (Plane, Cursor, Version) {
        let (normal_index, c, v) = NormalIndex::parse(d, c, v);
        let (plane_distance, c, v) = F32::parse(d, c, v);
        (Plane { normal_index, plane_distance }, c, v)
    }

    fn take(from: &mut Reader, version: &mut Version) -> (r: Self) {
        let normal_index = NormalIndex::take(from, version);
        let plane_distance = F32::take(from, version);
        Plane { normal_index, plane_distance }
    }
}

impl Writable for Plane {
    open spec fn writable(x: Plane, v: Version) -> bool {
        true
    }

    open spec fn encode(x: Plane, v: Version) -> Seq<u8> {
        NormalIndex::encode(x.normal_index, v)
            + F32::encode(x.plane_distance, v)
    }

    fn write(&self, to: &mut Vec<u8>, version: &Version) -> (r: DifResult<()>)
        ensures
            r is Ok,
    {
        let ghost x = *self;
        let ghost v = *version;
        self.normal_index.write(to, version)?;
        let ghost sent = NormalIndex::encode(x.normal_index, v);
        self.plane_distance.write(to, version)?;
        proof {
            lemma_add_assoc(old(to)@, sent, F32::encode(x.plane_distance, v));
        }
        Ok(())
    }
}

impl RoundTrip for Plane {
    open spec fn wire_ok(x: Plane, v: Version) -> bool {
        &&& NormalIndex::wire_ok(x.normal_index, v)
        &&& F32::wire_ok(x.plane_distance, v)
    }

    proof fn lemma_roundtrip(x: Plane, v: Version, d: Seq<u8>, p: int) {
        let e0 = NormalIndex::encode(x.normal_index, v);
        let e1 = F32::encode(x.plane_distance, v);
        let s0 = e0;
        lemma_split(d, p, s0, e1);
        NormalIndex::lemma_roundtrip(x.normal_index, v, d, p);
        F32::lemma_roundtrip(x.plane_distance, v, d, p + s0.len());
    }
}

/// The two equations that give a point its texture coordinates.
#[derive(Clone, Copy, Debug, PartialEq, Eq)]
pub struct TexGenEq {
    pub plane_x: PlaneF,
    pub plane_y: PlaneF,
}

impl DeepView for TexGenEq {
    type V = TexGenEq;

    open spec fn deep_view(&self) -> TexGenEq {
        *self
    }
}

impl Readable for TexGenEq {
    open spec fn parse(d: Seq<u8>, c: Cursor, v: Version) -> (TexGenEq, Cursor, Version) {
        let (plane_x, c, v) = PlaneF::parse(d, c, v);
        let (plane_y, c, v) = PlaneF::parse(d, c, v);
        (TexGenEq { plane_x, plane_y }, c, v)
    }

    fn take(from: &mut Reader, version: &mut Version) -> (r: Self) {
        let plane_x = PlaneF::take(from, version);
        let plane_y = PlaneF::take(from, version);
        TexGenEq { plane_x, plane_y }
    }
}

impl Writable for TexGenEq {
    open spec fn writable(x: TexGenEq, v: Version) -> bool {
        true
    }

    open spec fn encode(x: TexGenEq, v: Version) -> Seq<u8> {
        PlaneF::encode(x.plane_x, v)
            + PlaneF::encode(x.plane_y, v)
    }

    fn write(&self, to: &mut Vec<u8>, version: &Version) -> (r: DifResult<()>)
        ensures
            r is Ok,
    {
        let ghost x = *self;
        let ghost v = *version;
        self.plane_x.write(to, version)?;
        let ghost sent = PlaneF::encode(x.plane_x, v);
        self.plane_y.write(to, version)?;
        proof {
            lemma_add_assoc(old(to)@, sent, PlaneF::encode(x.plane_y, v));
        }
        Ok(())
    }
}

impl RoundTrip for TexGenEq {
    open spec fn wire_ok(x: TexGenEq, v: Version) -> bool {
        &&& PlaneF::wire_ok(x.plane_x, v)
        &&& PlaneF::wire_ok(x.plane_y, v)
    }

    proof fn lemma_roundtrip(x: TexGenEq, v: Version, d: Seq<u8>, p: int) {
        let e0 = PlaneF::encode(x.plane_x, v);
        let e1 = PlaneF::encode(x.plane_y, v);
        let s0 = e0;
        lemma_split(d, p, s0, e1);
        PlaneF::lemma_roundtrip(x.plane_x, v, d, p);
        PlaneF::lemma_roundtrip(x.plane_y, v, d, p + s0.len());
    }
}

/// A solid leaf: its range in the table of solid-leaf surfaces.
#[derive(Clone, Copy, Debug, PartialEq, Eq)]
pub struct BSPSolidLeaf {
    pub surface_index: SolidLeafSurfaceIndex,
    pub surface_count: u16,
}

impl DeepView for BSPSolidLeaf {
    type V = BSPSolidLeaf;

    open spec fn deep_view(&self) -> BSPSolidLeaf {
        *self
    }
}

impl Readable for BSPSolidLeaf {
    open spec fn parse(d: Seq<u8>, c: Cursor, v: Version) -> (BSPSolidLeaf, Cursor, Version) {
        let (surface_index, c, v) = SolidLeafSurfaceIndex::parse(d, c, v);
        let (surface_count, c, v) = u16::parse(d, c, v);
        (BSPSolidLeaf { surface_index, surface_count }, c, v)
    }

    fn take(from: &mut Reader, version: &mut Version) -> (r: Self) {
        let surface_index = SolidLeafSurfaceIndex::take(from, version);
        let surface_count = u16::take(from, version);
        BSPSolidLeaf { surface_index, surface_count }
    }
}

impl Writable for BSPSolidLeaf {
    open spec fn writable(x: BSPSolidLeaf, v: Version) -> bool {
        true
    }

    open spec fn encode(x: BSPSolidLeaf, v: Version) -> Seq<u8> {
        SolidLeafSurfaceIndex::encode(x.surface_index, v)
            + u16::encode(x.surface_count, v)
    }

    fn write(&self, to: &mut Vec<u8>, version: &Version) -> (r: DifResult<()>)
        ensures
            r is Ok,
    {
        let ghost x = *self;
        let ghost v = *version;
        self.surface_index.write(to, version)?;
        let ghost sent = SolidLeafSurfaceIndex::encode(x.surface_index, v);
        self.surface_count.write(to, version)?;
        proof {
            lemma_add_assoc(old(to)@, sent, u16::encode(x.surface_count, v));
        }
        Ok(())
    }
}

impl RoundTrip for BSPSolidLeaf {
    open spec fn wire_ok(x: BSPSolidLeaf, v: Version) -> bool {
        &&& SolidLeafSurfaceIndex::wire_ok(x.surface_index, v)
        &&& u16::wire_ok(x.surface_count, v)
    }

    proof fn lemma_roundtrip(x: BSPSolidLeaf, v: Version, d: Seq<u8>, p: int) {
        let e0 = SolidLeafSurfaceIndex::encode(x.surface_index, v);
        let e1 = u16::encode(x.surface_count, v);
        let s0 = e0;
        lemma_split(d, p, s0, e1);
        SolidLeafSurfaceIndex::lemma_roundtrip(x.surface_index, v, d, p);
        u16::lemma_roundtrip(x.surface_count, v, d, p + s0.len());
    }
}

#[derive(Clone, Copy, Debug, PartialEq, Eq)]
pub struct WindingIndex {
    pub winding_start: PointIndex,
    pub winding_count: u32,
}

impl DeepView for WindingIndex {
    type V = WindingIndex;

    open spec fn deep_view(&self) -> WindingIndex {
        *self
    }
}

impl Readable for WindingIndex {
    open spec fn parse(d: Seq<u8>, c: Cursor, v: Version) -> (WindingIndex, Cursor, Version) {
        let (winding_start, c, v) = PointIndex::parse(d, c, v);
        let (winding_count, c, v) = u32::parse(d, c, v);
        (WindingIndex { winding_start, winding_count }, c, v)
    }

    fn take(from: &mut Reader, version: &mut Version) -> (r: Self) {
        let winding_start = PointIndex::take(from, version);
        let winding_count = u32::take(from, version);
        WindingIndex { winding_start, winding_count }
    }
}

impl Writable for WindingIndex {
    open spec fn writable(x: WindingIndex, v: Version) -> bool {
        true
    }

    open spec fn encode(x: WindingIndex, v: Version) -> Seq<u8> {
        PointIndex::encode(x.winding_start, v)
            + u32::encode(x.winding_count, v)
    }

    fn write(&self, to: &mut Vec<u8>, version: &Version) -> (r: DifResult<()>)
        ensures
            r is Ok,
    {
        let ghost x = *self;
        let ghost v = *version;
        self.winding_start.write(to, version)?;
        let ghost sent = PointIndex::encode(x.winding_start, v);
        self.winding_count.write(to, version)?;
        proof {
            lemma_add_assoc(old(to)@, sent, u32::encode(x.winding_count, v));
        }
        Ok(())
    }
}

impl RoundTrip for WindingIndex {
    open spec fn wire_ok(x: WindingIndex, v: Version) -> bool {
        &&& PointIndex::wire_ok(x.winding_start, v)
        &&& u32::wire_ok(x.winding_count, v)
    }

    proof fn lemma_roundtrip(x: WindingIndex, v: Version, d: Seq<u8>, p: int) {
        let e0 = PointIndex::encode(x.winding_start, v);
        let e1 = u32::encode(x.winding_count, v);
        let s0 = e0;
        lemma_split(d, p, s0, e1);
        PointIndex::lemma_roundtrip(x.winding_start, v, d, p);
        u32::lemma_roundtrip(x.winding_count, v, d, p + s0.len());
    }
}

#[derive(Clone, Copy, Debug, PartialEq, Eq)]
pub struct Edge {
    pub point_index0: i32,
    pub point_index1: i32,
    pub surface_index0: i32,
    pub surface_index1: i32,
}

impl DeepView for Edge {
    type V = Edge;

    open spec fn deep_view(&self) -> Edge {
        *self
    }
}

impl Readable for Edge {
    open spec fn parse(d: Seq<u8>, c: Cursor, v: Version) -> (Edge, Cursor, Version) {
        let (point_index0, c, v) = i32::parse(d, c, v);
        let (point_index1, c, v) = i32::parse(d, c, v);
        let (surface_index0, c, v) = i32::parse(d, c, v);
        let (surface_index1, c, v) = i32::parse(d, c, v);
        (Edge { point_index0, point_index1, surface_index0, surface_index1 }, c, v)
    }

    fn take(from: &mut Reader, version: &mut Version) -> (r: Self) {
        let point_index0 = i32::take(from, version);
        let point_index1 = i32::take(from, version);
        let surface_index0 = i32::take(from, version);
        let surface_index1 = i32::take(from, version);
        Edge { point_index0, point_index1, surface_index0, surface_index1 }
    }
}

impl Writable for Edge {
    open spec fn writable(x: Edge, v: Version) -> bool {
        true
    }

    open spec fn encode(x: Edge, v: Version) -> Seq<u8> {
        i32::encode(x.point_index0, v)
            + i32::encode(x.point_index1, v)
            + i32::encode(x.surface_index0, v)
            + i32::encode(x.surface_index1, v)
    }

    fn write(&self, to: &mut Vec<u8>, version: &Version) -> (r: DifResult<()>)
        ensures
            r is Ok,
    {
        let ghost x = *self;
        let ghost v = *version;
        self.point_index0.write(to, version)?;
        let ghost sent = i32::encode(x.point_index0, v);
        self.point_index1.write(to, version)?;
        proof {
            lemma_add_assoc(old(to)@, sent, i32::encode(x.point_index1, v));
        }
        let ghost sent = sent + i32::encode(x.point_index1, v);
        self.surface_index0.write(to, version)?;
        proof {
            lemma_add_assoc(old(to)@, sent, i32::encode(x.surface_index0, v));
        }
        let ghost sent = sent + i32::encode(x.surface_index0, v);
        self.surface_index1.write(to, version)?;
        proof {
            lemma_add_assoc(old(to)@, sent, i32::encode(x.surface_index1, v));
        }
        Ok(())
    }
}

impl RoundTrip for Edge {
    open spec fn wire_ok(x: Edge, v: Version) -> bool {
        &&& i32::wire_ok(x.point_index0, v)
        &&& i32::wire_ok(x.point_index1, v)
        &&& i32::wire_ok(x.surface_index0, v)
        &&& i32::wire_ok(x.surface_index1, v)
    }

    proof fn lemma_roundtrip(x: Edge, v: Version, d: Seq<u8>, p: int) {
        let e0 = i32::encode(x.point_index0, v);
        let e1 = i32::encode(x.point_index1, v);
        let e2 = i32::encode(x.surface_index0, v);
        let e3 = i32::encode(x.surface_index1, v);
        let s0 = e0;
        let s1 = s0 + e1;
        let s2 = s1 + e2;
        lemma_split(d, p, s2, e3);
        lemma_split(d, p, s1, e2);
        lemma_split(d, p, s0, e1);
        i32::lemma_roundtrip(x.point_index0, v, d, p);
        i32::lemma_roundtrip(x.point_index1, v, d, p + s0.len());
        i32::lemma_roundtrip(x.surface_index0, v, d, p + s1.len());
        i32::lemma_roundtrip(x.surface_index1, v, d, p + s2.len());
    }
}

#[derive(Clone, Copy, Debug, PartialEq, Eq)]
pub struct Portal {
    pub plane_index: PlaneIndex,
    pub tri_fan_count: u16,
    pub tri_fan_start: WindingIndexIndex,
    pub zone_front: ZoneIndex,
    pub zone_back: ZoneIndex,
}

impl DeepView for Portal {
    type V = Portal;

    open spec fn deep_view(&self) -> Portal {
        *self
    }
}

impl Readable for Portal {
    open spec fn parse(d: Seq<u8>, c: Cursor, v: Version) -> (Portal, Cursor, Version) {
        let (plane_index, c, v) = PlaneIndex::parse(d, c, v);
        let (tri_fan_count, c, v) = u16::parse(d, c, v);
        let (tri_fan_start, c, v) = WindingIndexIndex::parse(d, c, v);
        let (zone_front, c, v) = ZoneIndex::parse(d, c, v);
        let (zone_back, c, v) = ZoneIndex::parse(d, c, v);
        (Portal { plane_index, tri_fan_count, tri_fan_start, zone_front, zone_back }, c, v)
    }

    fn take(from: &mut Reader, version: &mut Version) -> (r: Self) {
        let plane_index = PlaneIndex::take(from, version);
        let tri_fan_count = u16::take(from, version);
        let tri_fan_start = WindingIndexIndex::take(from, version);
        let zone_front = ZoneIndex::take(from, version);
        let zone_back = ZoneIndex::take(from, version);
        Portal { plane_index, tri_fan_count, tri_fan_start, zone_front, zone_back }
    }
}

impl Writable for Portal {
    open spec fn writable(x: Portal, v: Version) -> bool {
        true
    }

    open spec fn encode(x: Portal, v: Version) -> Seq<u8> {
        PlaneIndex::encode(x.plane_index, v)
            + u16::encode(x.tri_fan_count, v)
            + WindingIndexIndex::encode(x.tri_fan_start, v)
            + ZoneIndex::encode(x.zone_front, v)
            + ZoneIndex::encode(x.zone_back, v)
    }

    fn write(&self, to: &mut Vec<u8>, version: &Version) -> (r: DifResult<()>)
        ensures
            r is Ok,
    {
        let ghost x = *self;
        let ghost v = *version;
        self.plane_index.write(to, version)?;
        let ghost sent = PlaneIndex::encode(x.plane_index, v);
        self.tri_fan_count.write(to, version)?;
        proof {
            lemma_add_assoc(old(to)@, sent, u16::encode(x.tri_fan_count, v));
        }
        let ghost sent = sent + u16::encode(x.tri_fan_count, v);
        self.tri_fan_start.write(to, version)?;
        proof {
            lemma_add_assoc(old(to)@, sent, WindingIndexIndex::encode(x.tri_fan_start, v));
        }
        let ghost sent = sent + WindingIndexIndex::encode(x.tri_fan_start, v);
        self.zone_front.write(to, version)?;
        proof {
            lemma_add_assoc(old(to)@, sent, ZoneIndex::encode(x.zone_front, v));
        }
        let ghost sent = sent + ZoneIndex::encode(x.zone_front, v);
        self.zone_back.write(to, version)?;
        proof {
            lemma_add_assoc(old(to)@, sent, ZoneIndex::encode(x.zone_back, v));
        }
        Ok(())
    }
}

impl RoundTrip for Portal {
    open spec fn wire_ok(x: Portal, v: Version) -> bool {
        &&& PlaneIndex::wire_ok(x.plane_index, v)
        &&& u16::wire_ok(x.tri_fan_count, v)
        &&& WindingIndexIndex::wire_ok(x.tri_fan_start, v)
        &&& ZoneIndex::wire_ok(x.zone_front, v)
        &&& ZoneIndex::wire_ok(x.zone_back, v)
    }

    proof fn lemma_roundtrip(x: Portal, v: Version, d: Seq<u8>, p: int) {
        let e0 = PlaneIndex::encode(x.plane_index, v);
        let e1 = u16::encode(x.tri_fan_count, v);
        let e2 = WindingIndexIndex::encode(x.tri_fan_start, v);
        let e3 = ZoneIndex::encode(x.zone_front, v);
        let e4 = ZoneIndex::encode(x.zone_back, v);
        let s0 = e0;
        let s1 = s0 + e1;
        let s2 = s1 + e2;
        let s3 = s2 + e3;
        lemma_split(d, p, s3, e4);
        lemma_split(d, p, s2, e3);
        lemma_split(d, p, s1, e2);
        lemma_split(d, p, s0, e1);
        PlaneIndex::lemma_roundtrip(x.plane_index, v, d, p);
        u16::lemma_roundtrip(x.tri_fan_count, v, d, p + s0.len());
        WindingIndexIndex::lemma_roundtrip(x.tri_fan_start, v, d, p + s1.len());
        ZoneIndex::lemma_roundtrip(x.zone_front, v, d, p + s2.len());
        ZoneIndex::lemma_roundtrip(x.zone_back, v, d, p + s3.len());
    }
}

#[derive(Clone, Copy, Debug, PartialEq, Eq)]
pub struct SurfaceLightMap {
    pub final_word: u16,
    pub tex_gen_x_distance: F32,
    pub tex_gen_y_distance: F32,
}

impl DeepView for SurfaceLightMap {
    type V = SurfaceLightMap;

    open spec fn deep_view(&self) -> SurfaceLightMap {
        *self
    }
}

impl Readable for SurfaceLightMap {
    open spec fn parse(d: Seq<u8>, c: Cursor, v: Version) -> (SurfaceLightMap, Cursor, Version) {
        let (final_word, c, v) = u16::parse(d, c, v);
        let (tex_gen_x_distance, c, v) = F32::parse(d, c, v);
        let (tex_gen_y_distance, c, v) = F32::parse(d, c, v);
        (SurfaceLightMap { final_word, tex_gen_x_distance, tex_gen_y_distance }, c, v)
    }

    fn take(from: &mut Reader, version: &mut Version) -> (r: Self) {
        let final_word = u16::take(from, version);
        let tex_gen_x_distance = F32::take(from, version);
        let tex_gen_y_distance = F32::take(from, version);
        SurfaceLightMap { final_word, tex_gen_x_distance, tex_gen_y_distance }
    }
}

impl Writable for SurfaceLightMap {
    open spec fn writable(x: SurfaceLightMap, v: Version) -> bool {
        true
    }

    open spec fn encode(x: SurfaceLightMap, v: Version) -> Seq<u8> {
        u16::encode(x.final_word, v)
            + F32::encode(x.tex_gen_x_distance, v)
            + F32::encode(x.tex_gen_y_distance, v)
    }

    fn write(&self, to: &mut Vec<u8>, version: &Version) -> (r: DifResult<()>)
        ensures
            r is Ok,
    {
        let ghost x = *self;
        let ghost v = *version;
        self.final_word.write(to, version)?;
        let ghost sent = u16::encode(x.final_word, v);
        self.tex_gen_x_distance.write(to, version)?;
        proof {
            lemma_add_assoc(old(to)@, sent, F32::encode(x.tex_gen_x_distance, v));
        }
        let ghost sent = sent + F32::encode(x.tex_gen_x_distance, v);
        self.tex_gen_y_distance.write(to, version)?;
        proof {
            lemma_add_assoc(old(to)@, sent, F32::encode(x.tex_gen_y_distance, v));
        }
        Ok(())
    }
}

impl RoundTrip for SurfaceLightMap {
    open spec fn wire_ok(x: SurfaceLightMap, v: Version) -> bool {
        &&& u16::wire_ok(x.final_word, v)
        &&& F32::wire_ok(x.tex_gen_x_distance, v)
        &&& F32::wire_ok(x.tex_gen_y_distance, v)
    }

    proof fn lemma_roundtrip(x: SurfaceLightMap, v: Version, d: Seq<u8>, p: int) {
        let e0 = u16::encode(x.final_word, v);
        let e1 = F32::encode(x.tex_gen_x_distance, v);
        let e2 = F32::encode(x.tex_gen_y_distance, v);
        let s0 = e0;
        let s1 = s0 + e1;
        lemma_split(d, p, s1, e2);
        lemma_split(d, p, s0, e1);
        u16::lemma_roundtrip(x.final_word, v, d, p);
        F32::lemma_roundtrip(x.tex_gen_x_distance, v, d, p + s0.len());
        F32::lemma_roundtrip(x.tex_gen_y_distance, v, d, p + s1.len());
    }
}

#[derive(Clone, Copy, Debug, PartialEq, Eq)]
pub struct AnimatedLight {
    pub name_index: u32,
    pub state_index: u32,
    pub state_count: u16,
    pub flags: u16,
    pub duration: u32,
}

impl DeepView for AnimatedLight {
    type V = AnimatedLight;

    open spec fn deep_view(&self) -> AnimatedLight {
        *self
    }
}

impl Readable for AnimatedLight {
    open spec fn parse(d: Seq<u8>, c: Cursor, v: Version) -> (AnimatedLight, Cursor, Version) {
        let (name_index, c, v) = u32::parse(d, c, v);
        let (state_index, c, v) = u32::parse(d, c, v);
        let (state_count, c, v) = u16::parse(d, c, v);
        let (flags, c, v) = u16::parse(d, c, v);
        let (duration, c, v) = u32::parse(d, c, v);
        (AnimatedLight { name_index, state_index, state_count, flags, duration }, c, v)
    }

    fn take(from: &mut Reader, version: &mut Version) -> (r: Self) {
        let name_index = u32::take(from, version);
        let state_index = u32::take(from, version);
        let state_count = u16::take(from, version);
        let flags = u16::take(from, version);
        let duration = u32::take(from, version);
        AnimatedLight { name_index, state_index, state_count, flags, duration }
    }
}

impl Writable for AnimatedLight {
    open spec fn writable(x: AnimatedLight, v: Version) -> bool {
        true
    }

    open spec fn encode(x: AnimatedLight, v: Version) -> Seq<u8> {
        u32::encode(x.name_index, v)
            + u32::encode(x.state_index, v)
            + u16::encode(x.state_count, v)
            + u16::encode(x.flags, v)
            + u32::encode(x.duration, v)
    }

    fn write(&self, to: &mut Vec<u8>, version: &Version) -> (r: DifResult<()>)
        ensures
            r is Ok,
    {
        let ghost x = *self;
        let ghost v = *version;
        self.name_index.write(to, version)?;
        let ghost sent = u32::encode(x.name_index, v);
        self.state_index.write(to, version)?;
        proof {
            lemma_add_assoc(old(to)@, sent, u32::encode(x.state_index, v));
        }
        let ghost sent = sent + u32::encode(x.state_index, v);
        self.state_count.write(to, version)?;
        proof {
            lemma_add_assoc(old(to)@, sent, u16::encode(x.state_count, v));
        }
        let ghost sent = sent + u16::encode(x.state_count, v);
        self.flags.write(to, version)?;
        proof {
            lemma_add_assoc(old(to)@, sent, u16::encode(x.flags, v));
        }
        let ghost sent = sent + u16::encode(x.flags, v);
        self.duration.write(to, version)?;
        proof {
            lemma_add_assoc(old(to)@, sent, u32::encode(x.duration, v));
        }
        Ok(())
    }
}

impl RoundTrip for AnimatedLight {
    open spec fn wire_ok(x: AnimatedLight, v: Version) -> bool {
        &&& u32::wire_ok(x.name_index, v)
        &&& u32::wire_ok(x.state_index, v)
        &&& u16::wire_ok(x.state_count, v)
        &&& u16::wire_ok(x.flags, v)
        &&& u32::wire_ok(x.duration, v)
    }

    proof fn lemma_roundtrip(x: AnimatedLight, v: Version, d: Seq<u8>, p: int) {
        let e0 = u32::encode(x.name_index, v);
        let e1 = u32::encode(x.state_index, v);
        let e2 = u16::encode(x.state_count, v);
        let e3 = u16::encode(x.flags, v);
        let e4 = u32::encode(x.duration, v);
        let s0 = e0;
        let s1 = s0 + e1;
        let s2 = s1 + e2;
        let s3 = s2 + e3;
        lemma_split(d, p, s3, e4);
        lemma_split(d, p, s2, e3);
        lemma_split(d, p, s1, e2);
        lemma_split(d, p, s0, e1);
        u32::lemma_roundtrip(x.name_index, v, d, p);
        u32::lemma_roundtrip(x.state_index, v, d, p + s0.len());
        u16::lemma_roundtrip(x.state_count, v, d, p + s1.len());
        u16::lemma_roundtrip(x.flags, v, d, p + s2.len());
        u32::lemma_roundtrip(x.duration, v, d, p + s3.len());
    }
}

#[derive(Clone, Copy, Debug, PartialEq, Eq)]
pub struct LightState {
    pub red: u8,
    pub green: u8,
    pub blue: u8,
    pub active_time: u32,
    pub data_index: u32,
    pub data_count: u16,
}

impl DeepView for LightState {
    type V = LightState;

    open spec fn deep_view(&self) -> LightState {
        *self
    }
}

impl Readable for LightState {
    open spec fn parse(d: Seq<u8>, c: Cursor, v: Version) -> (LightState, Cursor, Version) {
        let (red, c, v) = u8::parse(d, c, v);
        let (green, c, v) = u8::parse(d, c, v);
        let (blue, c, v) = u8::parse(d, c, v);
        let (active_time, c, v) = u32::parse(d, c, v);
        let (data_index, c, v) = u32::parse(d, c, v);
        let (data_count, c, v) = u16::parse(d, c, v);
        (LightState { red, green, blue, active_time, data_index, data_count }, c, v)
    }

    fn take(from: &mut Reader, version: &mut Version) -> (r: Self) {
        let red = u8::take(from, version);
        let green = u8::take(from, version);
        let blue = u8::take(from, version);
        let active_time = u32::take(from, version);
        let data_index = u32::take(from, version);
        let data_count = u16::take(from, version);
        LightState { red, green, blue, active_time, data_index, data_count }
    }
}

impl Writable for LightState {
    open spec fn writable(x: LightState, v: Version) -> bool {
        true
    }

    open spec fn encode(x: LightState, v: Version) -> Seq<u8> {
        u8::encode(x.red, v)
            + u8::encode(x.green, v)
            + u8::encode(x.blue, v)
            + u32::encode(x.active_time, v)
            + u32::encode(x.data_index, v)
            + u16::encode(x.data_count, v)
    }

    fn write(&self, to: &mut Vec<u8>, version: &Version) -> (r: DifResult<()>)
        ensures
            r is Ok,
    {
        let ghost x = *self;
        let ghost v = *version;
        self.red.write(to, version)?;
        let ghost sent = u8::encode(x.red, v);
        self.green.write(to, version)?;
        proof {
            lemma_add_assoc(old(to)@, sent, u8::encode(x.green, v));
        }
        let ghost sent = sent + u8::encode(x.green, v);
        self.blue.write(to, version)?;
        proof {
            lemma_add_assoc(old(to)@, sent, u8::encode(x.blue, v));
        }
        let ghost sent = sent + u8::encode(x.blue, v);
        self.active_time.write(to, version)?;
        proof {
            lemma_add_assoc(old(to)@, sent, u32::encode(x.active_time, v));
        }
        let ghost sent = sent + u32::encode(x.active_time, v);
        self.data_index.write(to, version)?;
        proof {
            lemma_add_assoc(old(to)@, sent, u32::encode(x.data_index, v));
        }
        let ghost sent = sent + u32::encode(x.data_index, v);
        self.data_count.write(to, version)?;
        proof {
            lemma_add_assoc(old(to)@, sent, u16::encode(x.data_count, v));
        }
        Ok(())
    }
}

impl RoundTrip for LightState {
    open spec fn wire_ok(x: LightState, v: Version) -> bool {
        &&& u8::wire_ok(x.red, v)
        &&& u8::wire_ok(x.green, v)
        &&& u8::wire_ok(x.blue, v)
        &&& u32::wire_ok(x.active_time, v)
        &&& u32::wire_ok(x.data_index, v)
        &&& u16::wire_ok(x.data_count, v)
    }

    proof fn lemma_roundtrip(x: LightState, v: Version, d: Seq<u8>, p: int) {
        let e0 = u8::encode(x.red, v);
        let e1 = u8::encode(x.green, v);
        let e2 = u8::encode(x.blue, v);
        let e3 = u32::encode(x.active_time, v);
        let e4 = u32::encode(x.data_index, v);
        let e5 = u16::encode(x.data_count, v);
        let s0 = e0;
        let s1 = s0 + e1;
        let s2 = s1 + e2;
        let s3 = s2 + e3;
        let s4 = s3 + e4;
        lemma_split(d, p, s4, e5);
        lemma_split(d, p, s3, e4);
        lemma_split(d, p, s2, e3);
        lemma_split(d, p, s1, e2);
        lemma_split(d, p, s0, e1);
        u8::lemma_roundtrip(x.red, v, d, p);
        u8::lemma_roundtrip(x.green, v, d, p + s0.len());
        u8::lemma_roundtrip(x.blue, v, d, p + s1.len());
        u32::lemma_roundtrip(x.active_time, v, d, p + s2.len());
        u32::lemma_roundtrip(x.data_index, v, d, p + s3.len());
        u16::lemma_roundtrip(x.data_count, v, d, p + s4.len());
    }
}

#[derive(Clone, Copy, Debug, PartialEq, Eq)]
pub struct StateData {
    pub surface_index: u32,
    pub map_index: u32,
    pub light_state_index: u16,
}

impl DeepView for StateData {
    type V = StateData;

    open spec fn deep_view(&self) -> StateData {
        *self
    }
}

impl Readable for StateData {
    open spec fn parse(d: Seq<u8>, c: Cursor, v: Version) -> (StateData, Cursor, Version) {
        let (surface_index, c, v) = u32::parse(d, c, v);
        let (map_index, c, v) = u32::parse(d, c, v);
        let (light_state_index, c, v) = u16::parse(d, c, v);
        (StateData { surface_index, map_index, light_state_index }, c, v)
    }

    fn take(from: &mut Reader, version: &mut Version) -> (r: Self) {
        let surface_index = u32::take(from, version);
        let map_index = u32::take(from, version);
        let light_state_index = u16::take(from, version);
        StateData { surface_index, map_index, light_state_index }
    }
}

impl Writable for StateData {
    open spec fn writable(x: StateData, v: Version) -> bool {
        true
    }

    open spec fn encode(x: StateData, v: Version) -> Seq<u8> {
        u32::encode(x.surface_index, v)
            + u32::encode(x.map_index, v)
            + u16::encode(x.light_state_index, v)
    }

    fn write(&self, to: &mut Vec<u8>, version: &Version) -> (r: DifResult<()>)
        ensures
            r is Ok,
    {
        let ghost x = *self;
        let ghost v = *version;
        self.surface_index.write(to, version)?;
        let ghost sent = u32::encode(x.surface_index, v);
        self.map_index.write(to, version)?;
        proof {
            lemma_add_assoc(old(to)@, sent, u32::encode(x.map_index, v));
        }
        let ghost sent = sent + u32::encode(x.map_index, v);
        self.light_state_index.write(to, version)?;
        proof {
            lemma_add_assoc(old(to)@, sent, u16::encode(x.light_state_index, v));
        }
        Ok(())
    }
}

impl RoundTrip for StateData {
    open spec fn wire_ok(x: StateData, v: Version) -> bool {
        &&& u32::wire_ok(x.surface_index, v)
        &&& u32::wire_ok(x.map_index, v)
        &&& u16::wire_ok(x.light_state_index, v)
    }

    proof fn lemma_roundtrip(x: StateData, v: Version, d: Seq<u8>, p: int) {
        let e0 = u32::encode(x.surface_index, v);
        let e1 = u32::encode(x.map_index, v);
        let e2 = u16::encode(x.light_state_index, v);
        let s0 = e0;
        let s1 = s0 + e1;
        lemma_split(d, p, s1, e2);
        lemma_split(d, p, s0, e1);
        u32::lemma_roundtrip(x.surface_index, v, d, p);
        u32::lemma_roundtrip(x.map_index, v, d, p + s0.len());
        u16::lemma_roundtrip(x.light_state_index, v, d, p + s1.len());
    }
}

/// A cell of the 16 by 16 grid: its range in the table of hull indices.
#[derive(Clone, Copy, Debug, PartialEq, Eq)]
pub struct CoordBin {
    pub bin_start: CoordBinIndex,
    pub bin_count: u32,
}

impl DeepView for CoordBin {
    type V = CoordBin;

    open spec fn deep_view(&self) -> CoordBin {
        *self
    }
}

impl Readable for CoordBin {
    open spec fn parse(d: Seq<u8>, c: Cursor, v: Version) -> (CoordBin, Cursor, Version) {
        let (bin_start, c, v) = CoordBinIndex::parse(d, c, v);
        let (bin_count, c, v) = u32::parse(d, c, v);
        (CoordBin { bin_start, bin_count }, c, v)
    }

    fn take(from: &mut Reader, version: &mut Version) -> (r: Self) {
        let bin_start = CoordBinIndex::take(from, version);
        let bin_count = u32::take(from, version);
        CoordBin { bin_start, bin_count }
    }
}

impl Writable for CoordBin {
    open spec fn writable(x: CoordBin, v: Version) -> bool {
        true
    }

    open spec fn encode(x: CoordBin, v: Version) -> Seq<u8> {
        CoordBinIndex::encode(x.bin_start, v)
            + u32::encode(x.bin_count, v)
    }

    fn write(&self, to: &mut Vec<u8>, version: &Version) -> (r: DifResult<()>)
        ensures
            r is Ok,
    {
        let ghost x = *self;
        let ghost v = *version;
        self.bin_start.write(to, version)?;
        let ghost sent = CoordBinIndex::encode(x.bin_start, v);
        self.bin_count.write(to, version)?;
        proof {
            lemma_add_assoc(old(to)@, sent, u32::encode(x.bin_count, v));
        }
        Ok(())
    }
}

impl RoundTrip for CoordBin {
    open spec fn wire_ok(x: CoordBin, v: Version) -> bool {
        &&& CoordBinIndex::wire_ok(x.bin_start, v)
        &&& u32::wire_ok(x.bin_count, v)
    }

    proof fn lemma_roundtrip(x: CoordBin, v: Version, d: Seq<u8>, p: int) {
        let e0 = CoordBinIndex::encode(x.bin_start, v);
        let e1 = u32::encode(x.bin_count, v);
        let s0 = e0;
        lemma_split(d, p, s0, e1);
        CoordBinIndex::lemma_roundtrip(x.bin_start, v, d, p);
        u32::lemma_roundtrip(x.bin_count, v, d, p + s0.len());
    }
}

#[derive(Clone, Copy, Debug, PartialEq, Eq)]
pub struct TexMatrix {
    pub t: i32,
    pub n: i32,
    pub b: i32,
}

impl DeepView for TexMatrix {
    type V = TexMatrix;

    open spec fn deep_view(&self) -> TexMatrix {
        *self
    }
}

impl Readable for TexMatrix {
    open spec fn parse(d: Seq<u8>, c: Cursor, v: Version) -> (TexMatrix, Cursor, Version) {
        let (t, c, v) = i32::parse(d, c, v);
        let (n, c, v) = i32::parse(d, c, v);
        let (b, c, v) = i32::parse(d, c, v);
        (TexMatrix { t, n, b }, c, v)
    }

    fn take(from: &mut Reader, version: &mut Version) -> (r: Self) {
        let t = i32::take(from, version);
        let n = i32::take(from, version);
        let b = i32::take(from, version);
        TexMatrix { t, n, b }
    }
}

impl Writable for TexMatrix {
    open spec fn writable(x: TexMatrix, v: Version) -> bool {
        true
    }

    open spec fn encode(x: TexMatrix, v: Version) -> Seq<u8> {
        i32::encode(x.t, v)
            + i32::encode(x.n, v)
            + i32::encode(x.b, v)
    }

    fn write(&self, to: &mut Vec<u8>, version: &Version) -> (r: DifResult<()>)
        ensures
            r is Ok,
    {
        let ghost x = *self;
        let ghost v = *version;
        self.t.write(to, version)?;
        let ghost sent = i32::encode(x.t, v);
        self.n.write(to, version)?;
        proof {
            lemma_add_assoc(old(to)@, sent, i32::encode(x.n, v));
        }
        let ghost sent = sent + i32::encode(x.n, v);
        self.b.write(to, version)?;
        proof {
            lemma_add_assoc(old(to)@, sent, i32::encode(x.b, v));
        }
        Ok(())
    }
}

impl RoundTrip for TexMatrix {
    open spec fn wire_ok(x: TexMatrix, v: Version) -> bool {
        &&& i32::wire_ok(x.t, v)
        &&& i32::wire_ok(x.n, v)
        &&& i32::wire_ok(x.b, v)
    }

    proof fn lemma_roundtrip(x: TexMatrix, v: Version, d: Seq<u8>, p: int) {
        let e0 = i32::encode(x.t, v);
        let e1 = i32::encode(x.n, v);
        let e2 = i32::encode(x.b, v);
        let s0 = e0;
        let s1 = s0 + e1;
        lemma_split(d, p, s1, e2);
        lemma_split(d, p, s0, e1);
        i32::lemma_roundtrip(x.t, v, d, p);
        i32::lemma_roundtrip(x.n, v, d, p + s0.len());
        i32::lemma_roundtrip(x.b, v, d, p + s1.len());
    }
}

/// A child of a BSP node: a node, an empty leaf or a solid leaf.
#[derive(Clone, Copy, Debug, PartialEq, Eq)]
pub struct BSPIndex {
    pub index: u32,
    pub leaf: bool,
    pub solid: bool,
}

impl DeepView for BSPIndex {
    type V = BSPIndex;

    open spec fn deep_view(&self) -> BSPIndex {
        *self
    }
}

impl BSPIndex {
    /// The child that the 32-bit wire form `raw` stands for: bit `0x80000`
    /// says leaf, bit `0x40000` says solid, the rest is the index.
    pub open spec fn from_wide(raw: u32) -> BSPIndex {
        let leaf = raw & 0x80000 != 0;
        let rest = if leaf {
            raw & !0x80000u32
        } else {
            raw
        };
        let solid = rest & 0x40000 != 0;
        let index = if solid {
            rest & !0x40000u32
        } else {
            rest
        };
        BSPIndex { index, leaf, solid }
    }

    /// The child that the 16-bit wire form `raw` stands for: bit `0x8000`
    /// says leaf, bit `0x4000` says solid, the rest is the index.
    pub open spec fn from_short(raw: u16) -> BSPIndex {
        let leaf = raw & 0x8000 != 0;
        let rest = if leaf {
            raw & !0x8000u16
        } else {
            raw
        };
        let solid = rest & 0x4000 != 0;
        let index = if solid {
            rest & !0x4000u16
        } else {
            rest
        };
        BSPIndex { index: index as u32, leaf, solid }
    }

    /// The 32-bit wire form.
    pub open spec fn to_wide(self) -> u32 {
        let a = if self.leaf {
            self.index | 0x80000
        } else {
            self.index
        };
        if self.solid {
            a | 0x40000
        } else {
            a
        }
    }

    /// The 16-bit wire form: the low half of the index with the flags set.
    pub open spec fn to_short(self) -> u16 {
        let a = if self.leaf {
            self.index | 0x8000
        } else {
            self.index
        };
        let b = if self.solid {
            a | 0x4000
        } else {
            a
        };
        (b % 0x1_0000) as u16
    }

    pub open spec fn parse_bspnode(d: Seq<u8>, c: Cursor, v: Version) -> (BSPIndex, Cursor, Version) {
        if v.interior >= 14 {
            let (raw, c1, v1) = u32::parse(d, c, v);
            (Self::from_wide(raw), c1, v1)
        } else {
            let (raw, c1, v1) = u16::parse(d, c, v);
            (Self::from_short(raw), c1, v1)
        }
    }

    pub fn read_bspnode(from: &mut Reader, version: &mut Version) -> (r: DifResult<BSPIndex>)
        requires
            old(from).wf(),
        ensures
            final(from).wf(),
            final(from).data@ == old(from).data@,
            match r {
                Ok(y) => final(from).cursor().ok() && (y, final(from).cursor(), *final(version))
                    == Self::parse_bspnode(old(from).data@, old(from).cursor(), *old(version)),
                Err(e) => Self::parse_bspnode(
                    old(from).data@,
                    old(from).cursor(),
                    *old(version),
                ).1.err == Some(e.kind),
            },
    {
        let x = Self::take_bspnode(from, version);
        from.finish(x)
    }

    /// Reads a child of a BSP node; the reader keeps an error.
    pub fn take_bspnode(from: &mut Reader, version: &mut Version) -> (r: BSPIndex)
        requires
            old(from).wf(),
        ensures
            final(from).wf(),
            final(from).data@ == old(from).data@,
            (r, final(from).cursor(), *final(version)) == Self::parse_bspnode(
                old(from).data@,
                old(from).cursor(),
                *old(version),
            ),
    {
        let mut leaf = false;
        let mut solid = false;
        let index = if version.interior >= 14 {
            let mut index = u32::take(from, version);
            if index & 0x80000 != 0 {
                index = index & !0x80000;
                leaf = true;
            }
            if index & 0x40000 != 0 {
                index = index & !0x40000;
                solid = true;
            }
            index
        } else {
            let mut index = u16::take(from, version);
            if index & 0x8000 != 0 {
                index = index & !0x8000;
                leaf = true;
            }
            if index & 0x4000 != 0 {
                index = index & !0x4000;
                solid = true;
            }
            index as u32
        };
        BSPIndex { index, leaf, solid }
    }

    pub open spec fn encode_bspnode(self, v: Version) -> Seq<u8> {
        if v.interior >= 14 {
            u32::encode(self.to_wide(), v)
        } else {
            u16::encode(self.to_short(), v)
        }
    }

    pub fn write_bspnode(&self, to: &mut Vec<u8>, version: &Version) -> (r: DifResult<()>)
        ensures
            r is Ok,
            final(to)@ == old(to)@ + self.encode_bspnode(*version),
    {
        let mut index = self.index;
        if version.interior >= 14 {
            if self.leaf {
                index = index | 0x80000;
            }
            if self.solid {
                index = index | 0x40000;
            }
            index.write(to, version)
        } else {
            if self.leaf {
                index = index | 0x8000;
            }
            if self.solid {
                index = index | 0x4000;
            }
            let short = (index % 0x1_0000) as u16;
            short.write(to, version)
        }
    }
}

/// A node of the BSP tree: its plane and its two children.
#[derive(Clone, Copy, Debug, PartialEq, Eq)]
pub struct BSPNode {
    pub plane_index: PlaneIndex,
    pub front_index: BSPIndex,
    pub back_index: BSPIndex,
}

impl DeepView for BSPNode {
    type V = BSPNode;

    open spec fn deep_view(&self) -> BSPNode {
        *self
    }
}

impl Readable for BSPNode {
    open spec fn parse(d: Seq<u8>, c: Cursor, v: Version) -> (BSPNode, Cursor, Version) {
        let (plane_index, c, v) = PlaneIndex::parse(d, c, v);
        let (front_index, c, v) = BSPIndex::parse_bspnode(d, c, v);
        let (back_index, c, v) = BSPIndex::parse_bspnode(d, c, v);
        (BSPNode { plane_index, front_index, back_index }, c, v)
    }

    fn take(from: &mut Reader, version: &mut Version) -> (r: Self) {
        let plane_index = PlaneIndex::take(from, version);
        let front_index = BSPIndex::take_bspnode(from, version);
        let back_index = BSPIndex::take_bspnode(from, version);
        BSPNode { plane_index, front_index, back_index }
    }
}

impl Writable for BSPNode {
    open spec fn writable(x: BSPNode, v: Version) -> bool {
        true
    }

    open spec fn encode(x: BSPNode, v: Version) -> Seq<u8> {
        PlaneIndex::encode(x.plane_index, v) + x.front_index.encode_bspnode(v)
            + x.back_index.encode_bspnode(v)
    }

    fn write(&self, to: &mut Vec<u8>, version: &Version) -> (r: DifResult<()>)
        ensures
            r is Ok,
    {
        self.plane_index.write(to, version)?;
        self.front_index.write_bspnode(to, version)?;
        self.back_index.write_bspnode(to, version)?;
        assert(to@ =~= old(to)@ + Self::encode(*self, *version));
        Ok(())
    }
}

/// A zone: a range of portals, of surfaces and of static meshes.
#[derive(Clone, Copy, Debug, PartialEq, Eq)]
pub struct Zone {
    pub portal_start: PortalIndex,
    pub portal_count: u16,
    pub surface_start: u32,
    pub surface_count: u32,
    pub static_mesh_start: StaticMeshIndex,
    pub static_mesh_count: u32,
    pub flags: u16,
}

impl DeepView for Zone {
    type V = Zone;

    open spec fn deep_view(&self) -> Zone {
        *self
    }
}

impl Readable for Zone {
    /// The static meshes stand on the wire from version 12 on; the flags
    /// never do.
    open spec fn parse(d: Seq<u8>, c: Cursor, v: Version) -> (Zone, Cursor, Version) {
        let (portal_start, c, v) = PortalIndex::parse(d, c, v);
        let (portal_count, c, v) = u16::parse(d, c, v);
        let (surface_start, c, v) = u32::parse(d, c, v);
        let (surface_count, c, v) = u32::parse(d, c, v);
        let (static_mesh_start, c, v) = if v.interior >= 12 {
            StaticMeshIndex::parse(d, c, v)
        } else {
            (TypedInt::of(0u32), c, v)
        };
        let (static_mesh_count, c, v) = if v.interior >= 12 {
            u32::parse(d, c, v)
        } else {
            (0u32, c, v)
        };
        (
            Zone {
                portal_start,
                portal_count,
                surface_start,
                surface_count,
                static_mesh_start,
                static_mesh_count,
                flags: 0,
            },
            c,
            v,
        )
    }

    fn take(from: &mut Reader, version: &mut Version) -> (r: Self) {
        let portal_start = PortalIndex::take(from, version);
        let portal_count = u16::take(from, version);
        let surface_start = u32::take(from, version);
        let surface_count = u32::take(from, version);
        let static_mesh_start = if version.interior >= 12 {
            StaticMeshIndex::take(from, version)
        } else {
            StaticMeshIndex::new(0u32)
        };
        let static_mesh_count = if version.interior >= 12 {
            u32::take(from, version)
        } else {
            0
        };
        Zone {
            portal_start,
            portal_count,
            surface_start,
            surface_count,
            static_mesh_start,
            static_mesh_count,
            flags: 0,
        }
    }
}

impl Writable for Zone {
    open spec fn writable(x: Zone, v: Version) -> bool {
        true
    }

    open spec fn encode(x: Zone, v: Version) -> Seq<u8> {
        PortalIndex::encode(x.portal_start, v) + u16::encode(x.portal_count, v) + u32::encode(
            x.surface_start,
            v,
        ) + u32::encode(x.surface_count, v) + (if v.interior >= 12 {
            StaticMeshIndex::encode(x.static_mesh_start, v) + u32::encode(x.static_mesh_count, v)
        } else {
            Seq::empty()
        })
    }

    fn write(&self, to: &mut Vec<u8>, version: &Version) -> (r: DifResult<()>)
        ensures
            r is Ok,
    {
        self.portal_start.write(to, version)?;
        self.portal_count.write(to, version)?;
        self.surface_start.write(to, version)?;
        self.surface_count.write(to, version)?;
        if version.interior >= 12 {
            self.static_mesh_start.write(to, version)?;
            self.static_mesh_count.write(to, version)?;
        }
        assert(to@ =~= old(to)@ + Self::encode(*self, *version));
        Ok(())
    }
}

/// A light map, and from Torque Game Engine Advanced on its direction map.
#[derive(Clone, Debug, PartialEq, Eq)]
pub struct LightMap {
    pub light_map: PNG,
    pub light_dir_map: Option<PNG>,
    pub keep_light_map: u8,
}

/// What a `LightMap` holds, as mathematical values.
pub struct LightMapView {
    pub light_map: Seq<u8>,
    pub light_dir_map: Option<Seq<u8>>,
    pub keep_light_map: u8,
}

impl DeepView for LightMap {
    type V = LightMapView;

    open spec fn deep_view(&self) -> LightMapView {
        LightMapView {
            light_map: self.light_map.deep_view(),
            light_dir_map: match self.light_dir_map {
                Some(m) => Some(m.deep_view()),
                None => None,
            },
            keep_light_map: self.keep_light_map,
        }
    }
}

impl Readable for LightMap {
    open spec fn parse(d: Seq<u8>, c: Cursor, v: Version) -> (LightMapView, Cursor, Version) {
        let (light_map, c, v) = PNG::parse(d, c, v);
        let (light_dir_map, c, v) = if v.is_tge() {
            (None, c, v)
        } else {
            let (m, c, v) = PNG::parse(d, c, v);
            (Some(m), c, v)
        };
        let (keep_light_map, c, v) = u8::parse(d, c, v);
        (LightMapView { light_map, light_dir_map, keep_light_map }, c, v)
    }

    fn take(from: &mut Reader, version: &mut Version) -> (r: Self) {
        let light_map = PNG::take(from, version);
        let light_dir_map = if version.is_tge() {
            None
        } else {
            Some(PNG::take(from, version))
        };
        let keep_light_map = u8::take(from, version);
        LightMap { light_map, light_dir_map, keep_light_map }
    }
}

impl Writable for LightMap {
    open spec fn writable(x: LightMapView, v: Version) -> bool {
        true
    }

    /// The direction map is written where the engine has one and the
    /// record holds one.
    open spec fn encode(x: LightMapView, v: Version) -> Seq<u8> {
        PNG::encode(x.light_map, v) + (match x.light_dir_map {
            Some(m) => if v.is_tge() {
                Seq::empty()
            } else {
                PNG::encode(m, v)
            },
            None => Seq::empty(),
        }) + u8::encode(x.keep_light_map, v)
    }

    fn write(&self, to: &mut Vec<u8>, version: &Version) -> (r: DifResult<()>)
        ensures
            r is Ok,
    {
        self.light_map.write(to, version)?;
        if !version.is_tge() {
            match &self.light_dir_map {
                Some(m) => {
                    m.write(to, version)?;
                },
                None => {},
            }
        }
        self.keep_light_map.write(to, version)?;
        assert(to@ =~= old(to)@ + Self::encode(self.deep_view(), *version));
        Ok(())
    }
}

pub const SURFACE_DETAIL: u8 = 0b1;

pub const SURFACE_AMBIGUOUS: u8 = 0b10;

pub const SURFACE_ORPHAN: u8 = 0b100;

pub const SURFACE_SHARED_LIGHT_MAPS: u8 = 0b1000;

pub const SURFACE_OUTSIDE_VISIBLE: u8 = 0b10000;

/// A set of surface flags: any of the five bits `SURFACE_DETAIL` to
/// `SURFACE_OUTSIDE_VISIBLE`.
#[derive(Clone, Copy, Debug, PartialEq, Eq)]
pub struct SurfaceFlags {
    pub bits: u8,
}

impl DeepView for SurfaceFlags {
    type V = SurfaceFlags;

    open spec fn deep_view(&self) -> SurfaceFlags {
        *self
    }
}

impl SurfaceFlags {
    /// Whether `bits` holds known flags only: the flags are the five low
    /// bits.
    pub open spec fn known(bits: u8) -> bool {
        bits < 0x20
    }

    /// The flags with these bits, unless a bit is set that is no flag.
    pub fn from_bits(bits: u8) -> (r: Option<SurfaceFlags>)
        ensures
            r == (if Self::known(bits) {
                Some(SurfaceFlags { bits })
            } else {
                None
            }),
    {
        if bits < 0x20 {
            Some(SurfaceFlags { bits })
        } else {
            None
        }
    }

    pub fn bits(&self) -> (r: u8)
        ensures
            r == self.bits,
    {
        self.bits
    }

    pub fn outside_visible() -> (r: SurfaceFlags)
        ensures
            r.bits == SURFACE_OUTSIDE_VISIBLE,
    {
        SurfaceFlags { bits: SURFACE_OUTSIDE_VISIBLE }
    }
}

impl Readable for SurfaceFlags {
    open spec fn parse(d: Seq<u8>, c: Cursor, v: Version) -> (SurfaceFlags, Cursor, Version) {
        let (bits, c1, v1) = u8::parse(d, c, v);
        if c1.ok() && !Self::known(bits) {
            (SurfaceFlags { bits }, c1.fail(DifErrorKind::InvalidFlags), v1)
        } else {
            (SurfaceFlags { bits }, c1, v1)
        }
    }

    fn take(from: &mut Reader, version: &mut Version) -> (r: Self) {
        let bits = u8::take(from, version);
        if from.ok() && SurfaceFlags::from_bits(bits).is_none() {
            from.fail(DifErrorKind::InvalidFlags);
        }
        SurfaceFlags { bits }
    }
}

impl Writable for SurfaceFlags {
    open spec fn writable(x: SurfaceFlags, v: Version) -> bool {
        true
    }

    open spec fn encode(x: SurfaceFlags, v: Version) -> Seq<u8> {
        seq![x.bits]
    }

    fn write(&self, to: &mut Vec<u8>, version: &Version) -> (r: DifResult<()>)
        ensures
            r is Ok,
    {
        self.bits.write(to, version)
    }
}

/// The sizes of the tables that a surface refers into.
#[derive(Clone, Copy, Debug, PartialEq, Eq)]
pub struct SurfaceLimits {
    pub indices_len: usize,
    pub planes_len: usize,
    pub material_names_len: usize,
    pub tex_gen_eqs_len: usize,
}

/// A drawn surface: a winding, its plane, its texture and its light map.
#[derive(Clone, Copy, Debug, PartialEq, Eq)]
pub struct Surface {
    pub winding_start: WindingIndexIndex,
    pub winding_count: u32,
    pub plane_index: PlaneIndex,
    pub plane_flipped: bool,
    pub texture_index: TextureIndex,
    pub tex_gen_index: TexGenIndex,
    pub surface_flags: SurfaceFlags,
    pub fan_mask: u32,
    pub light_map: SurfaceLightMap,
    pub light_count: u16,
    pub light_state_info_start: u32,
    pub map_offset_x: u32,
    pub map_offset_y: u32,
    pub map_size_x: u32,
    pub map_size_y: u32,
    pub brush_id: u32,
}

impl DeepView for Surface {
    type V = Surface;

    open spec fn deep_view(&self) -> Surface {
        *self
    }
}

/// A number that is a byte before version 13 and 32 bits from then on.
pub open spec fn parse_sized(d: Seq<u8>, c: Cursor, v: Version) -> (u32, Cursor) {
    if v.interior >= 13 {
        let (x, c1, _) = u32::parse(d, c, v);
        (x, c1)
    } else {
        let (x, c1, _) = u8::parse(d, c, v);
        (x as u32, c1)
    }
}

fn take_sized(from: &mut Reader, version: &mut Version) -> (r: u32)
    requires
        old(from).wf(),
    ensures
        final(from).wf(),
        final(from).data@ == old(from).data@,
        *final(version) == *old(version),
        (r, final(from).cursor()) == parse_sized(old(from).data@, old(from).cursor(), *old(version)),
{
    if version.interior >= 13 {
        u32::take(from, version)
    } else {
        let x = u8::take(from, version);
        x as u32
    }
}

/// The wire form of a number that is a byte before version 13, cut to
/// that byte, and 32 bits from then on.
pub open spec fn encode_sized(x: u32, v: Version) -> Seq<u8> {
    if v.interior >= 13 {
        u32::encode(x, v)
    } else {
        seq![(x % 0x100) as u8]
    }
}

fn write_sized(x: u32, to: &mut Vec<u8>, version: &Version)
    ensures
        final(to)@ == old(to)@ + encode_sized(x, *version),
{
    if version.interior >= 13 {
        let _ = x.write(to, version);
    } else {
        let _ = ((x % 0x100) as u8).write(to, version);
    }
}

impl Surface {
    /// What a surface refers to, as it stands on the wire: the start and
    /// count of its winding, whether its plane is flipped, its plane, its
    /// texture and its texture equation. Each has to lie inside its table.
    /// The high bit of the stored plane index says that the plane is
    /// flipped.
    #[verifier::opaque]
    pub open spec fn parse_refs(d: Seq<u8>, c: Cursor, v: Version, limits: SurfaceLimits) -> (
        (u32, u32, bool, u16, u16, u32),
        Cursor,
        Version,
    ) {
        let (winding_start, c, v) = u32::parse(d, c, v);
        let (winding_count, c) = parse_sized(d, c, v);
        let c = if c.ok() && winding_start + winding_count > limits.indices_len {
            c.fail(DifErrorKind::OutOfBounds)
        } else {
            c
        };
        let (raw_plane, c, v) = u16::parse(d, c, v);
        let plane_flipped = raw_plane >= 0x8000;
        let plane_index = if plane_flipped {
            (raw_plane - 0x8000) as u16
        } else {
            raw_plane
        };
        let c = if c.ok() && plane_index >= limits.planes_len {
            c.fail(DifErrorKind::OutOfBounds)
        } else {
            c
        };
        let (texture_index, c, v) = u16::parse(d, c, v);
        let c = if c.ok() && texture_index >= limits.material_names_len {
            c.fail(DifErrorKind::OutOfBounds)
        } else {
            c
        };
        let (tex_gen_index, c, v) = u32::parse(d, c, v);
        let c = if c.ok() && tex_gen_index >= limits.tex_gen_eqs_len {
            c.fail(DifErrorKind::OutOfBounds)
        } else {
            c
        };
        ((winding_start, winding_count, plane_flipped, plane_index, texture_index, tex_gen_index), c, v)
    }

    /// The rest of a surface, as it stands on the wire: its flags, its fan
    /// mask, its light map, its light count and light state, the offset
    /// and size of its light map, and its brush. Unknown flags are refused.
    #[verifier::opaque]
    pub open spec fn parse_rest(d: Seq<u8>, c: Cursor, v: Version) -> (
        (SurfaceFlags, u32, SurfaceLightMap, u16, u32, u32, u32, u32, u32, u32),
        Cursor,
        Version,
    ) {
        let (surface_flags, c, v) = SurfaceFlags::parse(d, c, v);
        let (fan_mask, c, v) = u32::parse(d, c, v);
        let (light_map, c, v) = SurfaceLightMap::parse(d, c, v);
        let (light_count, c, v) = u16::parse(d, c, v);
        let (light_state_info_start, c, v) = u32::parse(d, c, v);
        let (map_offset_x, c) = parse_sized(d, c, v);
        let (map_offset_y, c) = parse_sized(d, c, v);
        let (map_size_x, c) = parse_sized(d, c, v);
        let (map_size_y, c) = parse_sized(d, c, v);
        let (unused, c) = if v.is_tge() {
            (0u8, c)
        } else {
            let (x, c, _) = u8::parse(d, c, v);
            (x, c)
        };
        let (brush_id, c) = if !v.is_tge() && 2 <= v.interior <= 5 {
            let (x, c, _) = u32::parse(d, c, v);
            (x, c)
        } else {
            (0u32, c)
        };
        (
            (
                surface_flags,
                fan_mask,
                light_map,
                light_count,
                light_state_info_start,
                map_offset_x,
                map_offset_y,
                map_size_x,
                map_size_y,
                brush_id,
            ),
            c,
            v,
        )
    }

    /// A surface as it stands on the wire: what it refers to, then the
    /// rest.
    pub open spec fn parse_with(d: Seq<u8>, c: Cursor, v: Version, limits: SurfaceLimits) -> (
        Surface,
        Cursor,
        Version,
    ) {
        let (refs, c, v) = Self::parse_refs(d, c, v, limits);
        let (rest, c, v) = Self::parse_rest(d, c, v);
        (
            Surface {
                winding_start: TypedInt::of(refs.0),
                winding_count: refs.1,
                plane_index: TypedInt::of(refs.3),
                plane_flipped: refs.2,
                texture_index: TypedInt::of(refs.4),
                tex_gen_index: TypedInt::of(refs.5),
                surface_flags: rest.0,
                fan_mask: rest.1,
                light_map: rest.2,
                light_count: rest.3,
                light_state_info_start: rest.4,
                map_offset_x: rest.5,
                map_offset_y: rest.6,
                map_size_x: rest.7,
                map_size_y: rest.8,
                brush_id: rest.9,
            },
            c,
            v,
        )
    }

    pub fn read(
        from: &mut Reader,
        version: &mut Version,
        indices_len: usize,
        planes_len: usize,
        material_names_len: usize,
        tex_gen_eqs_len: usize,
    ) -> (r: DifResult<Surface>)
        requires
            old(from).wf(),
        ensures
            final(from).wf(),
            final(from).data@ == old(from).data@,
            match r {
                Ok(y) => final(from).cursor().ok() && (y, final(from).cursor(), *final(version))
                    == Self::parse_with(
                    old(from).data@,
                    old(from).cursor(),
                    *old(version),
                    SurfaceLimits { indices_len, planes_len, material_names_len, tex_gen_eqs_len },
                ),
                Err(e) => Self::parse_with(
                    old(from).data@,
                    old(from).cursor(),
                    *old(version),
                    SurfaceLimits { indices_len, planes_len, material_names_len, tex_gen_eqs_len },
                ).1.err == Some(e.kind),
            },
    {
        let limits = SurfaceLimits { indices_len, planes_len, material_names_len, tex_gen_eqs_len };
        let x = Self::take_with(from, version, limits);
        from.finish(x)
    }

    /// Reads a surface against the sizes of the tables that it refers
    /// into; the reader keeps an error.
    pub fn take_with(from: &mut Reader, version: &mut Version, limits: SurfaceLimits) -> (r: Surface)
        requires
            old(from).wf(),
        ensures
            final(from).wf(),
            final(from).data@ == old(from).data@,
            (r, final(from).cursor(), *final(version)) == Self::parse_with(
                old(from).data@,
                old(from).cursor(),
                *old(version),
                limits,
            ),
    {
        reveal(Surface::parse_refs);
        reveal(Surface::parse_rest);
        let winding_start = u32::take(from, version);
        let winding_count = take_sized(from, version);
        if from.ok() && winding_start as u64 + winding_count as u64 > limits.indices_len as u64 {
            from.fail(DifErrorKind::OutOfBounds);
        }
        let raw_plane = u16::take(from, version);
        let plane_flipped = raw_plane >= 0x8000;
        let plane_index = if plane_flipped {
            raw_plane - 0x8000
        } else {
            raw_plane
        };
        if from.ok() && plane_index as usize >= limits.planes_len {
            from.fail(DifErrorKind::OutOfBounds);
        }
        let texture_index = u16::take(from, version);
        if from.ok() && texture_index as usize >= limits.material_names_len {
            from.fail(DifErrorKind::OutOfBounds);
        }
        let tex_gen_index = u32::take(from, version);
        if from.ok() && tex_gen_index as u64 >= limits.tex_gen_eqs_len as u64 {
            from.fail(DifErrorKind::OutOfBounds);
        }
        let surface_flags = SurfaceFlags::take(from, version);
        let fan_mask = u32::take(from, version);
        let light_map = SurfaceLightMap::take(from, version);
        let light_count = u16::take(from, version);
        let light_state_info_start = u32::take(from, version);
        let map_offset_x = take_sized(from, version);
        let map_offset_y = take_sized(from, version);
        let map_size_x = take_sized(from, version);
        let map_size_y = take_sized(from, version);
        let mut brush_id: u32 = 0;
        if !version.is_tge() {
            let _ = u8::take(from, version);
            if version.interior >= 2 && version.interior <= 5 {
                brush_id = u32::take(from, version);
            }
        }
        Surface {
            winding_start: WindingIndexIndex::new(winding_start),
            winding_count,
            plane_index: PlaneIndex::new(plane_index),
            plane_flipped,
            texture_index: TextureIndex::new(texture_index),
            tex_gen_index: TexGenIndex::new(tex_gen_index),
            surface_flags,
            fan_mask,
            light_map,
            light_count,
            light_state_info_start,
            map_offset_x,
            map_offset_y,
            map_size_x,
            map_size_y,
            brush_id,
        }
    }

    /// What follows the light map sizes: nothing for Marble Blast Gold and
    /// the Torque Game Engine, else a byte of 0 and, in versions 2 to 5, the
    /// brush.
    pub open spec fn encode_tail(x: Surface, v: Version) -> Seq<u8> {
        if v.is_tge() {
            Seq::empty()
        } else {
            seq![0u8] + (if 2 <= v.interior <= 5 {
                u32::encode(x.brush_id, v)
            } else {
                Seq::empty()
            })
        }
    }

    /// The stored plane index: the index, with bit `0x8000` set where the
    /// plane is flipped.
    pub open spec fn stored_plane(self) -> u16 {
        if self.plane_flipped {
            self.plane_index.value() | 0x8000
        } else {
            self.plane_index.value()
        }
    }
}

impl Writable for Surface {
    open spec fn writable(x: Surface, v: Version) -> bool {
        true
    }

    open spec fn encode(x: Surface, v: Version) -> Seq<u8> {
        u32::encode(x.winding_start.value(), v) + encode_sized(x.winding_count, v) + u16::encode(x.stored_plane(), v) + u16::encode(x.texture_index.value(), v) + u32::encode(x.tex_gen_index.value(), v)
            + seq![x.surface_flags.bits] + u32::encode(x.fan_mask, v) + SurfaceLightMap::encode(
            x.light_map,
            v,
        ) + u16::encode(x.light_count, v) + u32::encode(x.light_state_info_start, v) + encode_sized(
            x.map_offset_x,
            v,
        ) + encode_sized(x.map_offset_y, v) + encode_sized(x.map_size_x, v) + encode_sized(
            x.map_size_y,
            v,
        ) + Self::encode_tail(x, v)
    }

    fn write(&self, to: &mut Vec<u8>, version: &Version) -> (r: DifResult<()>)
        ensures
            r is Ok,
    {
        let ghost x = *self;
        let ghost v = *version;
        self.winding_start.write(to, version)?;
        let ghost sent = u32::encode(x.winding_start.value(), v);
        write_sized(self.winding_count, to, version);
        proof {
            lemma_add_assoc(old(to)@, sent, encode_sized(x.winding_count, v));
        }
        let ghost sent = sent + encode_sized(x.winding_count, v);
        let plane_index = if self.plane_flipped {
            self.plane_index.0 | 0x8000
        } else {
            self.plane_index.0
        };
        plane_index.write(to, version)?;
        proof {
            lemma_add_assoc(old(to)@, sent, u16::encode(x.stored_plane(), v));
        }
        let ghost sent = sent + u16::encode(x.stored_plane(), v);
        self.texture_index.write(to, version)?;
        proof {
            lemma_add_assoc(old(to)@, sent, u16::encode(x.texture_index.value(), v));
        }
        let ghost sent = sent + u16::encode(x.texture_index.value(), v);
        self.tex_gen_index.write(to, version)?;
        proof {
            lemma_add_assoc(old(to)@, sent, u32::encode(x.tex_gen_index.value(), v));
        }
        let ghost sent = sent + u32::encode(x.tex_gen_index.value(), v);
        self.surface_flags.write(to, version)?;
        proof {
            lemma_add_assoc(old(to)@, sent, seq![x.surface_flags.bits]);
        }
        let ghost sent = sent + seq![x.surface_flags.bits];
        self.fan_mask.write(to, version)?;
        proof {
            lemma_add_assoc(old(to)@, sent, u32::encode(x.fan_mask, v));
        }
        let ghost sent = sent + u32::encode(x.fan_mask, v);
        self.light_map.write(to, version)?;
        proof {
            lemma_add_assoc(old(to)@, sent, SurfaceLightMap::encode(x.light_map, v));
        }
        let ghost sent = sent + SurfaceLightMap::encode(x.light_map, v);
        self.light_count.write(to, version)?;
        proof {
            lemma_add_assoc(old(to)@, sent, u16::encode(x.light_count, v));
        }
        let ghost sent = sent + u16::encode(x.light_count, v);
        self.light_state_info_start.write(to, version)?;
        proof {
            lemma_add_assoc(old(to)@, sent, u32::encode(x.light_state_info_start, v));
        }
        let ghost sent = sent + u32::encode(x.light_state_info_start, v);
        write_sized(self.map_offset_x, to, version);
        proof {
            lemma_add_assoc(old(to)@, sent, encode_sized(x.map_offset_x, v));
        }
        let ghost sent = sent + encode_sized(x.map_offset_x, v);
        write_sized(self.map_offset_y, to, version);
        proof {
            lemma_add_assoc(old(to)@, sent, encode_sized(x.map_offset_y, v));
        }
        let ghost sent = sent + encode_sized(x.map_offset_y, v);
        write_sized(self.map_size_x, to, version);
        proof {
            lemma_add_assoc(old(to)@, sent, encode_sized(x.map_size_x, v));
        }
        let ghost sent = sent + encode_sized(x.map_size_x, v);
        write_sized(self.map_size_y, to, version);
        proof {
            lemma_add_assoc(old(to)@, sent, encode_sized(x.map_size_y, v));
        }
        let ghost sent = sent + encode_sized(x.map_size_y, v);
        let ghost before_tail = to@;
        if !version.is_tge() {
            0u8.write(to, version)?;
            if version.interior >= 2 && version.interior <= 5 {
                self.brush_id.write(to, version)?;
            }
        }
        proof {
            let tail = Self::encode_tail(x, v);
            assert(to@ =~= before_tail + tail);
            lemma_add_assoc(old(to)@, sent, tail);
        }
        Ok(())
    }
}

/// The first `n` surfaces from cursor `c` on.
#[verifier::opaque]
pub open spec fn parse_surface_items(d: Seq<u8>, c: Cursor, v: Version, limits: SurfaceLimits, n: nat) -> (
    Seq<Surface>,
    Cursor,
    Version,
)
    decreases n,
{
    if n == 0 {
        (Seq::empty(), c, v)
    } else {
        let (xs, c1, v1) = parse_surface_items(d, c, v, limits, (n - 1) as nat);
        if c1.ok() {
            let (x, c2, v2) = Surface::parse_with(d, c1, v1, limits);
            (xs.push(x), c2, v2)
        } else {
            (xs, c1, v1)
        }
    }
}

/// The list of surfaces: a list header, then the surfaces.
pub open spec fn parse_surfaces(d: Seq<u8>, c: Cursor, v: Version, limits: SurfaceLimits) -> (
    Seq<Surface>,
    Cursor,
    Version,
) {
    let (h, c1) = parse_list_header(d, c, v);
    parse_surface_items(d, c1, v, limits, h.count as nat)
}

pub proof fn lemma_parse_surface_items_failed(
    d: Seq<u8>,
    c: Cursor,
    v: Version,
    limits: SurfaceLimits,
    k: nat,
    n: nat,
)
    requires
        k <= n,
        !parse_surface_items(d, c, v, limits, k).1.ok(),
    ensures
        parse_surface_items(d, c, v, limits, n) == parse_surface_items(d, c, v, limits, k),
    decreases n,
{
    reveal_with_fuel(parse_surface_items, 2);
    if k < n {
        lemma_parse_surface_items_failed(d, c, v, limits, k, (n - 1) as nat);
    }
}

/// Reads the list of surfaces against the sizes of the tables that they
/// refer into.
pub fn read_vec_fn(from: &mut Reader, version: &mut Version, limits: SurfaceLimits) -> (r: DifResult<
    Vec<Surface>,
>)
    requires
        old(from).wf(),
    ensures
        final(from).wf(),
        final(from).data@ == old(from).data@,
        match r {
            Ok(y) => final(from).cursor().ok() && (
                y.deep_view(),
                final(from).cursor(),
                *final(version),
            ) == parse_surfaces(old(from).data@, old(from).cursor(), *old(version), limits),
            Err(e) => parse_surfaces(old(from).data@, old(from).cursor(), *old(version), limits).1.err
                == Some(e.kind),
        },
{
    let x = take_surfaces(from, version, limits);
    from.finish(x)
}

/// Reads the list of surfaces; the reader keeps an error.
pub fn take_surfaces(from: &mut Reader, version: &mut Version, limits: SurfaceLimits) -> (r: Vec<
    Surface,
>)
    requires
        old(from).wf(),
    ensures
        final(from).wf(),
        final(from).data@ == old(from).data@,
        (r.deep_view(), final(from).cursor(), *final(version)) == parse_surfaces(
            old(from).data@,
            old(from).cursor(),
            *old(version),
            limits,
        ),
{
    let h = take_list_header(from, version);
    let ghost d = from.data@;
    let ghost c0 = from.cursor();
    let ghost v0 = *version;
    let mut result: Vec<Surface> = Vec::new();
    assert(result.deep_view() =~= Seq::empty());
    let mut i: u32 = 0;
    reveal_with_fuel(parse_surface_items, 2);
    while i < h.count && from.ok()
        invariant
            i <= h.count,
            from.wf(),
            from.data@ == d,
            parse_surface_items(d, c0, v0, limits, i as nat) == (
                result.deep_view(),
                from.cursor(),
                *version,
            ),
        decreases h.count - i,
    {
        reveal_with_fuel(parse_surface_items, 2);
        let ghost before = result.deep_view();
        let item = Surface::take_with(from, version, limits);
        result.push(item);
        assert(result.deep_view() =~= before.push(item));
        i = i + 1;
    }
    proof {
        if i < h.count {
            lemma_parse_surface_items_failed(d, c0, v0, limits, i as nat, h.count as nat);
        }
    }
    result
}

/// An index that names a surface either in the table of null surfaces or
/// in the table of drawn surfaces.
#[derive(Clone, Copy, Debug, PartialEq, Eq)]
pub enum PossiblyNullSurfaceIndex {
    Null(NullSurfaceIndex),
    NonNull(SurfaceIndex),
}

impl DeepView for PossiblyNullSurfaceIndex {
    type V = PossiblyNullSurfaceIndex;

    open spec fn deep_view(&self) -> PossiblyNullSurfaceIndex {
        *self
    }
}

impl PossiblyNullSurfaceIndex {
    /// The index that the wire form `raw` stands for: the high bit says
    /// null, the low 16 bits are the index.
    pub open spec fn spec_from_u32(raw: u32) -> PossiblyNullSurfaceIndex {
        if raw >= 0x8000_0000 {
            PossiblyNullSurfaceIndex::Null(TypedInt::of((raw % 0x1_0000) as u16))
        } else {
            PossiblyNullSurfaceIndex::NonNull(TypedInt::of((raw % 0x1_0000) as u16))
        }
    }

    /// The wire form: the index, with the high bit set for a null surface.
    pub open spec fn spec_to_u32(self) -> u32 {
        match self {
            PossiblyNullSurfaceIndex::Null(i) => (i.value() + 0x8000_0000) as u32,
            PossiblyNullSurfaceIndex::NonNull(i) => i.value() as u32,
        }
    }

    #[verifier::when_used_as_spec(spec_from_u32)]
    pub fn from_u32(raw: u32) -> (r: PossiblyNullSurfaceIndex)
        ensures
            r == Self::spec_from_u32(raw),
    {
        if raw >= 0x8000_0000 {
            PossiblyNullSurfaceIndex::Null(NullSurfaceIndex::new((raw % 0x1_0000) as u16))
        } else {
            PossiblyNullSurfaceIndex::NonNull(SurfaceIndex::new((raw % 0x1_0000) as u16))
        }
    }

    #[verifier::when_used_as_spec(spec_to_u32)]
    pub fn to_u32(self) -> (r: u32)
        ensures
            r == self.spec_to_u32(),
    {
        match self {
            PossiblyNullSurfaceIndex::Null(i) => i.0 as u32 + 0x8000_0000,
            PossiblyNullSurfaceIndex::NonNull(i) => i.0 as u32,
        }
    }

    pub fn from_null(index: NullSurfaceIndex) -> (r: PossiblyNullSurfaceIndex)
        ensures
            r == PossiblyNullSurfaceIndex::Null(index),
    {
        PossiblyNullSurfaceIndex::Null(index)
    }

    pub fn from_surface(index: SurfaceIndex) -> (r: PossiblyNullSurfaceIndex)
        ensures
            r == PossiblyNullSurfaceIndex::NonNull(index),
    {
        PossiblyNullSurfaceIndex::NonNull(index)
    }
}

/// An index goes to its wire form and back unchanged, and the wire form
/// of a null surface has bit `0x80000000` set, that of a drawn surface has
/// it clear.
pub proof fn lemma_possibly_null_roundtrip(x: PossiblyNullSurfaceIndex)
    ensures
        PossiblyNullSurfaceIndex::spec_from_u32(x.spec_to_u32()) == x,
        x is Null <==> x.spec_to_u32() & 0x8000_0000 == 0x8000_0000,
{
    let raw = x.spec_to_u32();
    match x {
        PossiblyNullSurfaceIndex::Null(i) => {
            let k = i.value();
            assert(raw == k + 0x8000_0000);
            assert(raw & 0x8000_0000 == 0x8000_0000) by (bit_vector)
                requires
                    raw >= 0x8000_0000u32,
            ;
        },
        PossiblyNullSurfaceIndex::NonNull(i) => {
            assert(raw & 0x8000_0000 != 0x8000_0000) by (bit_vector)
                requires
                    raw < 0x8000_0000u32,
            ;
        },
    }
}

impl Readable for PossiblyNullSurfaceIndex {
    open spec fn parse(d: Seq<u8>, c: Cursor, v: Version) -> (
        PossiblyNullSurfaceIndex,
        Cursor,
        Version,
    ) {
        let (raw, c1, v1) = u32::parse(d, c, v);
        (Self::spec_from_u32(raw), c1, v1)
    }

    fn take(from: &mut Reader, version: &mut Version) -> (r: Self) {
        let raw = u32::take(from, version);
        PossiblyNullSurfaceIndex::from_u32(raw)
    }
}

impl Writable for PossiblyNullSurfaceIndex {
    open spec fn writable(x: PossiblyNullSurfaceIndex, v: Version) -> bool {
        true
    }

    open spec fn encode(x: PossiblyNullSurfaceIndex, v: Version) -> Seq<u8> {
        u32::encode(x.spec_to_u32(), v)
    }

    fn write(&self, to: &mut Vec<u8>, version: &Version) -> (r: DifResult<()>)
        ensures
            r is Ok,
    {
        self.to_u32().write(to, version)
    }
}

impl FromNarrow<u16> for PossiblyNullSurfaceIndex {
    /// A 16-bit index names a drawn surface.
    open spec fn widened(x: u16) -> PossiblyNullSurfaceIndex {
        PossiblyNullSurfaceIndex::spec_from_u32(x as u32)
    }

    fn widen(x: u16) -> (r: Self) {
        PossiblyNullSurfaceIndex::from_u32(x as u32)
    }
}

/// An edge between two faces, as later engines store it.
#[derive(Clone, Copy, Debug, PartialEq, Eq)]
pub struct Edge2 {
    pub vertices: [u32; 2],
    pub normals: [u32; 2],
    pub faces: [u32; 2],
}

/// What an `Edge2` holds, as mathematical values.
pub struct Edge2View {
    pub vertices: (u32, u32),
    pub normals: (u32, u32),
    pub faces: (u32, u32),
}

impl DeepView for Edge2 {
    type V = Edge2View;

    open spec fn deep_view(&self) -> Edge2View {
        Edge2View {
            vertices: (self.vertices@[0], self.vertices@[1]),
            normals: (self.normals@[0], self.normals@[1]),
            faces: (self.faces@[0], self.faces@[1]),
        }
    }
}

impl Readable for Edge2 {
    /// The faces stand on the wire from version 3 on.
    open spec fn parse(d: Seq<u8>, c: Cursor, v: Version) -> (Edge2View, Cursor, Version) {
        let (v0, c, v) = u32::parse(d, c, v);
        let (v1, c, v) = u32::parse(d, c, v);
        let (n0, c, v) = u32::parse(d, c, v);
        let (n1, c, v) = u32::parse(d, c, v);
        let (f0, c) = if v.interior >= 3 {
            let (x, c, v) = u32::parse(d, c, v);
            (x, c)
        } else {
            (0u32, c)
        };
        let (f1, c) = if v.interior >= 3 {
            let (x, c, v) = u32::parse(d, c, v);
            (x, c)
        } else {
            (0u32, c)
        };
        (Edge2View { vertices: (v0, v1), normals: (n0, n1), faces: (f0, f1) }, c, v)
    }

    fn take(from: &mut Reader, version: &mut Version) -> (r: Self) {
        let v0 = u32::take(from, version);
        let v1 = u32::take(from, version);
        let n0 = u32::take(from, version);
        let n1 = u32::take(from, version);
        let mut f0: u32 = 0;
        let mut f1: u32 = 0;
        if version.interior >= 3 {
            f0 = u32::take(from, version);
            f1 = u32::take(from, version);
        }
        Edge2 { vertices: [v0, v1], normals: [n0, n1], faces: [f0, f1] }
    }
}

impl Writable for Edge2 {
    open spec fn writable(x: Edge2View, v: Version) -> bool {
        true
    }

    open spec fn encode(x: Edge2View, v: Version) -> Seq<u8> {
        u32::encode(x.vertices.0, v) + u32::encode(x.vertices.1, v) + u32::encode(x.normals.0, v)
            + u32::encode(x.normals.1, v) + (if v.interior >= 3 {
            u32::encode(x.faces.0, v) + u32::encode(x.faces.1, v)
        } else {
            Seq::empty()
        })
    }

    fn write(&self, to: &mut Vec<u8>, version: &Version) -> (r: DifResult<()>)
        ensures
            r is Ok,
    {
        self.vertices[0].write(to, version)?;
        self.vertices[1].write(to, version)?;
        self.normals[0].write(to, version)?;
        self.normals[1].write(to, version)?;
        if version.interior >= 3 {
            self.faces[0].write(to, version)?;
            self.faces[1].write(to, version)?;
        }
        assert(to@ =~= old(to)@ + Self::encode(self.deep_view(), *version));
        Ok(())
    }
}

/// A surface that collides but is not drawn.
#[derive(Clone, Copy, Debug, PartialEq, Eq)]
pub struct NullSurface {
    pub winding_start: WindingIndexIndex,
    pub plane_index: PlaneIndex,
    pub surface_flags: SurfaceFlags,
    pub winding_count: u8,
}

impl DeepView for NullSurface {
    type V = NullSurface;

    open spec fn deep_view(&self) -> NullSurface {
        *self
    }
}

impl Readable for NullSurface {
    /// From version 13 on the count has 32 bits on the wire, of which the
    /// low byte is kept.
    open spec fn parse(d: Seq<u8>, c: Cursor, v: Version) -> (NullSurface, Cursor, Version) {
        let (winding_start, c, v) = WindingIndexIndex::parse(d, c, v);
        let (plane_index, c, v) = PlaneIndex::parse(d, c, v);
        let (surface_flags, c, v) = SurfaceFlags::parse(d, c, v);
        let (count, c) = parse_sized(d, c, v);
        (
            NullSurface {
                winding_start,
                plane_index,
                surface_flags,
                winding_count: (count % 0x100) as u8,
            },
            c,
            v,
        )
    }

    fn take(from: &mut Reader, version: &mut Version) -> (r: Self) {
        let winding_start = WindingIndexIndex::take(from, version);
        let plane_index = PlaneIndex::take(from, version);
        let surface_flags = SurfaceFlags::take(from, version);
        let count = take_sized(from, version);
        NullSurface {
            winding_start,
            plane_index,
            surface_flags,
            winding_count: (count % 0x100) as u8,
        }
    }
}

impl Writable for NullSurface {
    open spec fn writable(x: NullSurface, v: Version) -> bool {
        true
    }

    open spec fn encode(x: NullSurface, v: Version) -> Seq<u8> {
        WindingIndexIndex::encode(x.winding_start, v) + PlaneIndex::encode(x.plane_index, v)
            + SurfaceFlags::encode(x.surface_flags, v) + encode_sized(x.winding_count as u32, v)
    }

    fn write(&self, to: &mut Vec<u8>, version: &Version) -> (r: DifResult<()>)
        ensures
            r is Ok,
    {
        self.winding_start.write(to, version)?;
        self.plane_index.write(to, version)?;
        self.surface_flags.write(to, version)?;
        write_sized(self.winding_count as u32, to, version);
        assert(to@ =~= old(to)@ + Self::encode(*self, *version));
        Ok(())
    }
}

/// A cluster of surfaces that collides as one shape: its ranges in the
/// hull tables and its bounds.
#[derive(Clone, Copy, Debug, PartialEq, Eq)]
pub struct ConvexHull {
    pub hull_start: HullPointIndex,
    pub hull_count: u16,
    pub min_x: F32,
    pub max_x: F32,
    pub min_y: F32,
    pub max_y: F32,
    pub min_z: F32,
    pub max_z: F32,
    pub surface_start: HullSurfaceIndex,
    pub surface_count: u16,
    pub plane_start: HullPlaneIndex,
    pub poly_list_plane_start: PolyListPlaneIndex,
    pub poly_list_point_start: PolyListPointIndex,
    pub poly_list_string_start: PolyListStringIndex,
    pub static_mesh: u8,
}

impl DeepView for ConvexHull {
    type V = ConvexHull;

    open spec fn deep_view(&self) -> ConvexHull {
        *self
    }
}

impl Readable for ConvexHull {
    /// The static-mesh byte stands on the wire from version 12 on.
    open spec fn parse(d: Seq<u8>, c: Cursor, v: Version) -> (ConvexHull, Cursor, Version) {
        let (hull_start, c, v) = HullPointIndex::parse(d, c, v);
        let (hull_count, c, v) = u16::parse(d, c, v);
        let (min_x, c, v) = F32::parse(d, c, v);
        let (max_x, c, v) = F32::parse(d, c, v);
        let (min_y, c, v) = F32::parse(d, c, v);
        let (max_y, c, v) = F32::parse(d, c, v);
        let (min_z, c, v) = F32::parse(d, c, v);
        let (max_z, c, v) = F32::parse(d, c, v);
        let (surface_start, c, v) = HullSurfaceIndex::parse(d, c, v);
        let (surface_count, c, v) = u16::parse(d, c, v);
        let (plane_start, c, v) = HullPlaneIndex::parse(d, c, v);
        let (poly_list_plane_start, c, v) = PolyListPlaneIndex::parse(d, c, v);
        let (poly_list_point_start, c, v) = PolyListPointIndex::parse(d, c, v);
        let (poly_list_string_start, c, v) = PolyListStringIndex::parse(d, c, v);
        let (static_mesh, c, v) = if v.interior >= 12 {
            u8::parse(d, c, v)
        } else {
            (0u8, c, v)
        };
        (
            ConvexHull {
                hull_start,
                hull_count,
                min_x,
                max_x,
                min_y,
                max_y,
                min_z,
                max_z,
                surface_start,
                surface_count,
                plane_start,
                poly_list_plane_start,
                poly_list_point_start,
                poly_list_string_start,
                static_mesh,
            },
            c,
            v,
        )
    }

    fn take(from: &mut Reader, version: &mut Version) -> (r: Self) {
        let hull_start = HullPointIndex::take(from, version);
        let hull_count = u16::take(from, version);
        let min_x = F32::take(from, version);
        let max_x = F32::take(from, version);
        let min_y = F32::take(from, version);
        let max_y = F32::take(from, version);
        let min_z = F32::take(from, version);
        let max_z = F32::take(from, version);
        let surface_start = HullSurfaceIndex::take(from, version);
        let surface_count = u16::take(from, version);
        let plane_start = HullPlaneIndex::take(from, version);
        let poly_list_plane_start = PolyListPlaneIndex::take(from, version);
        let poly_list_point_start = PolyListPointIndex::take(from, version);
        let poly_list_string_start = PolyListStringIndex::take(from, version);
        let static_mesh = if version.interior >= 12 {
            u8::take(from, version)
        } else {
            0
        };
        ConvexHull {
            hull_start,
            hull_count,
            min_x,
            max_x,
            min_y,
            max_y,
            min_z,
            max_z,
            surface_start,
            surface_count,
            plane_start,
            poly_list_plane_start,
            poly_list_point_start,
            poly_list_string_start,
            static_mesh,
        }
    }
}

impl Writable for ConvexHull {
    open spec fn writable(x: ConvexHull, v: Version) -> bool {
        true
    }

    open spec fn encode(x: ConvexHull, v: Version) -> Seq<u8> {
        HullPointIndex::encode(x.hull_start, v) + u16::encode(x.hull_count, v) + F32::encode(
            x.min_x,
            v,
        ) + F32::encode(x.max_x, v) + F32::encode(x.min_y, v) + F32::encode(x.max_y, v)
            + F32::encode(x.min_z, v) + F32::encode(x.max_z, v) + HullSurfaceIndex::encode(
            x.surface_start,
            v,
        ) + u16::encode(x.surface_count, v) + HullPlaneIndex::encode(x.plane_start, v)
            + PolyListPlaneIndex::encode(x.poly_list_plane_start, v) + PolyListPointIndex::encode(
            x.poly_list_point_start,
            v,
        ) + PolyListStringIndex::encode(x.poly_list_string_start, v) + (if v.interior >= 12 {
            u8::encode(x.static_mesh, v)
        } else {
            Seq::empty()
        })
    }

    fn write(&self, to: &mut Vec<u8>, version: &Version) -> (r: DifResult<()>)
        ensures
            r is Ok,
    {
        self.hull_start.write(to, version)?;
        self.hull_count.write(to, version)?;
        self.min_x.write(to, version)?;
        self.max_x.write(to, version)?;
        self.min_y.write(to, version)?;
        self.max_y.write(to, version)?;
        self.min_z.write(to, version)?;
        self.max_z.write(to, version)?;
        self.surface_start.write(to, version)?;
        self.surface_count.write(to, version)?;
        self.plane_start.write(to, version)?;
        self.poly_list_plane_start.write(to, version)?;
        self.poly_list_point_start.write(to, version)?;
        self.poly_list_string_start.write(to, version)?;
        if version.interior >= 12 {
            self.static_mesh.write(to, version)?;
        }
        assert(to@ =~= old(to)@ + Self::encode(*self, *version));
        Ok(())
    }
}

/// A child whose index leaves the two flag bits clear comes back from its
/// 32-bit wire form.
pub proof fn lemma_bsp_index_wide(x: BSPIndex)
    requires
        x.index & 0xC0000 == 0,
    ensures
        BSPIndex::from_wide(x.to_wide()) == x,
{
    let i = x.index;
    assert((i | 0x80000) & 0x80000 != 0 && (i | 0x80000) & !0x80000u32 == i) by (bit_vector)
        requires
            i & 0xC0000 == 0,
    ;
    assert((i | 0x40000) & 0x80000 == 0 && (i | 0x40000) & 0x40000 != 0 && (i | 0x40000)
        & !0x40000u32 == i) by (bit_vector)
        requires
            i & 0xC0000 == 0,
    ;
    assert(((i | 0x80000) | 0x40000) & 0x80000 != 0 && (((i | 0x80000) | 0x40000) & !0x80000u32)
        & 0x40000 != 0 && (((i | 0x80000) | 0x40000) & !0x80000u32) & !0x40000u32 == i)
        by (bit_vector)
        requires
            i & 0xC0000 == 0,
    ;
    assert(i & 0x80000 == 0 && i & 0x40000 == 0) by (bit_vector)
        requires
            i & 0xC0000 == 0,
    ;
}

/// A child whose index is below `0x4000` comes back from its 16-bit wire
/// form.
pub proof fn lemma_bsp_index_short(x: BSPIndex)
    requires
        x.index < 0x4000,
    ensures
        BSPIndex::from_short(x.to_short()) == x,
{
    let i = x.index;
    let s = i as u16;
    assert((i | 0x8000) % 0x1_0000 == (i | 0x8000) && (i | 0x4000) % 0x1_0000 == (i | 0x4000) && ((i
        | 0x8000) | 0x4000) % 0x1_0000 == ((i | 0x8000) | 0x4000) && i % 0x1_0000 == i)
        by (bit_vector)
        requires
            i < 0x4000,
    ;
    assert((i | 0x8000) as u16 == s | 0x8000 && (i | 0x4000) as u16 == s | 0x4000 && ((i | 0x8000)
        | 0x4000) as u16 == (s | 0x8000) | 0x4000) by (bit_vector)
        requires
            i < 0x4000,
            s == i as u16,
    ;
    assert((s | 0x8000) & 0x8000 != 0 && (s | 0x8000) & !0x8000u16 == s && s & 0x8000 == 0 && s
        & 0x4000 == 0) by (bit_vector)
        requires
            s < 0x4000,
    ;
    assert((s | 0x4000) & 0x8000 == 0 && (s | 0x4000) & 0x4000 != 0 && (s | 0x4000) & !0x4000u16
        == s) by (bit_vector)
        requires
            s < 0x4000,
    ;
    assert(((s | 0x8000) | 0x4000) & 0x8000 != 0 && (((s | 0x8000) | 0x4000) & !0x8000u16)
        & 0x4000 != 0 && (((s | 0x8000) | 0x4000) & !0x8000u16) & !0x4000u16 == s)
        by (bit_vector)
        requires
            s < 0x4000,
    ;
}

impl BSPIndex {
    /// Whether the index leaves room for the two flags in the wire form
    /// of version `v`.
    pub open spec fn wire_ok(self, v: Version) -> bool {
        if v.interior >= 14 {
            self.index & 0xC0000 == 0
        } else {
            self.index < 0x4000
        }
    }

    /// A child of a BSP node comes back from its wire form.
    pub proof fn lemma_roundtrip(self, v: Version, d: Seq<u8>, p: int)
        requires
            self.wire_ok(v),
            stands_at(d, p, self.encode_bspnode(v)),
        ensures
            Self::parse_bspnode(d, Cursor::at(p), v) == (
                self,
                Cursor::at(p + self.encode_bspnode(v).len()),
                v,
            ),
    {
        if v.interior >= 14 {
            lemma_bsp_index_wide(self);
            u32::lemma_roundtrip(self.to_wide(), v, d, p);
        } else {
            lemma_bsp_index_short(self);
            u16::lemma_roundtrip(self.to_short(), v, d, p);
        }
    }
}

impl RoundTrip for BSPNode {
    open spec fn wire_ok(x: BSPNode, v: Version) -> bool {
        x.front_index.wire_ok(v) && x.back_index.wire_ok(v)
    }

    proof fn lemma_roundtrip(x: BSPNode, v: Version, d: Seq<u8>, p: int) {
        let e0 = PlaneIndex::encode(x.plane_index, v);
        let e1 = x.front_index.encode_bspnode(v);
        let e2 = x.back_index.encode_bspnode(v);
        lemma_split(d, p, e0 + e1, e2);
        lemma_split(d, p, e0, e1);
        PlaneIndex::lemma_roundtrip(x.plane_index, v, d, p);
        x.front_index.lemma_roundtrip(v, d, p + e0.len());
        x.back_index.lemma_roundtrip(v, d, p + e0.len() + e1.len());
    }
}

impl RoundTrip for Zone {
    /// The flags are 0, and before version 12 so are the static meshes.
    open spec fn wire_ok(x: Zone, v: Version) -> bool {
        &&& x.flags == 0
        &&& v.interior < 12 ==> x.static_mesh_start == TypedInt::<u32, _StaticMeshIndex>::of(0u32)
            && x.static_mesh_count == 0
    }

    proof fn lemma_roundtrip(x: Zone, v: Version, d: Seq<u8>, p: int) {
        let e0 = PortalIndex::encode(x.portal_start, v);
        let e1 = u16::encode(x.portal_count, v);
        let e2 = u32::encode(x.surface_start, v);
        let e3 = u32::encode(x.surface_count, v);
        let e4 = StaticMeshIndex::encode(x.static_mesh_start, v);
        let e5 = u32::encode(x.static_mesh_count, v);
        let tail = if v.interior >= 12 {
            e4 + e5
        } else {
            Seq::empty()
        };
        lemma_split(d, p, e0 + e1 + e2 + e3, tail);
        lemma_split(d, p, e0 + e1 + e2, e3);
        lemma_split(d, p, e0 + e1, e2);
        lemma_split(d, p, e0, e1);
        let q = p + (e0 + e1 + e2 + e3).len();
        PortalIndex::lemma_roundtrip(x.portal_start, v, d, p);
        u16::lemma_roundtrip(x.portal_count, v, d, p + e0.len());
        u32::lemma_roundtrip(x.surface_start, v, d, p + (e0 + e1).len());
        u32::lemma_roundtrip(x.surface_count, v, d, p + (e0 + e1 + e2).len());
        if v.interior >= 12 {
            lemma_split(d, q, e4, e5);
            StaticMeshIndex::lemma_roundtrip(x.static_mesh_start, v, d, q);
            u32::lemma_roundtrip(x.static_mesh_count, v, d, q + e4.len());
        }
    }
}

impl RoundTrip for LightMap {
    /// Both images are well-formed, and the record holds a direction map
    /// exactly where the engine has one.
    open spec fn wire_ok(x: LightMapView, v: Version) -> bool {
        &&& PNG::wire_ok(x.light_map, v)
        &&& match x.light_dir_map {
            Some(m) => !v.is_tge() && PNG::wire_ok(m, v),
            None => v.is_tge(),
        }
    }

    proof fn lemma_roundtrip(x: LightMapView, v: Version, d: Seq<u8>, p: int) {
        let e0 = PNG::encode(x.light_map, v);
        let e1 = match x.light_dir_map {
            Some(m) => if v.is_tge() {
                Seq::empty()
            } else {
                PNG::encode(m, v)
            },
            None => Seq::empty(),
        };
        let e2 = u8::encode(x.keep_light_map, v);
        lemma_split(d, p, e0 + e1, e2);
        lemma_split(d, p, e0, e1);
        PNG::lemma_roundtrip(x.light_map, v, d, p);
        match x.light_dir_map {
            Some(m) => {
                PNG::lemma_roundtrip(m, v, d, p + e0.len());
            },
            None => {},
        }
        u8::lemma_roundtrip(x.keep_light_map, v, d, p + e0.len() + e1.len());
    }
}

impl RoundTrip for SurfaceFlags {
    /// Known flags only.
    open spec fn wire_ok(x: SurfaceFlags, v: Version) -> bool {
        Self::known(x.bits)
    }

    proof fn lemma_roundtrip(x: SurfaceFlags, v: Version, d: Seq<u8>, p: int) {
        u8::lemma_roundtrip(x.bits, v, d, p);
    }
}

impl RoundTrip for PossiblyNullSurfaceIndex {
    open spec fn wire_ok(x: PossiblyNullSurfaceIndex, v: Version) -> bool {
        true
    }

    proof fn lemma_roundtrip(x: PossiblyNullSurfaceIndex, v: Version, d: Seq<u8>, p: int) {
        lemma_possibly_null_roundtrip(x);
        u32::lemma_roundtrip(x.spec_to_u32(), v, d, p);
    }
}

impl RoundTrip for Edge2 {
    /// Before version 3 the faces are 0.
    open spec fn wire_ok(x: Edge2View, v: Version) -> bool {
        v.interior < 3 ==> x.faces == (0u32, 0u32)
    }

    proof fn lemma_roundtrip(x: Edge2View, v: Version, d: Seq<u8>, p: int) {
        let e0 = u32::encode(x.vertices.0, v);
        let e1 = u32::encode(x.vertices.1, v);
        let e2 = u32::encode(x.normals.0, v);
        let e3 = u32::encode(x.normals.1, v);
        let e4 = u32::encode(x.faces.0, v);
        let e5 = u32::encode(x.faces.1, v);
        let tail = if v.interior >= 3 {
            e4 + e5
        } else {
            Seq::empty()
        };
        lemma_split(d, p, e0 + e1 + e2 + e3, tail);
        lemma_split(d, p, e0 + e1 + e2, e3);
        lemma_split(d, p, e0 + e1, e2);
        lemma_split(d, p, e0, e1);
        let q = p + (e0 + e1 + e2 + e3).len();
        u32::lemma_roundtrip(x.vertices.0, v, d, p);
        u32::lemma_roundtrip(x.vertices.1, v, d, p + e0.len());
        u32::lemma_roundtrip(x.normals.0, v, d, p + (e0 + e1).len());
        u32::lemma_roundtrip(x.normals.1, v, d, p + (e0 + e1 + e2).len());
        if v.interior >= 3 {
            lemma_split(d, q, e4, e5);
            u32::lemma_roundtrip(x.faces.0, v, d, q);
            u32::lemma_roundtrip(x.faces.1, v, d, q + e4.len());
        }
    }
}

/// A number that fits its place comes back from its sized wire form.
pub proof fn lemma_sized_roundtrip(x: u32, v: Version, d: Seq<u8>, p: int)
    requires
        v.interior < 13 ==> x < 0x100,
        stands_at(d, p, encode_sized(x, v)),
    ensures
        parse_sized(d, Cursor::at(p), v) == (x, Cursor::at(p + encode_sized(x, v).len())),
{
    if v.interior >= 13 {
        u32::lemma_roundtrip(x, v, d, p);
    } else {
        u8::lemma_roundtrip(x as u8, v, d, p);
    }
}

impl RoundTrip for NullSurface {
    /// Known flags only.
    open spec fn wire_ok(x: NullSurface, v: Version) -> bool {
        SurfaceFlags::wire_ok(x.surface_flags, v)
    }

    proof fn lemma_roundtrip(x: NullSurface, v: Version, d: Seq<u8>, p: int) {
        let e0 = WindingIndexIndex::encode(x.winding_start, v);
        let e1 = PlaneIndex::encode(x.plane_index, v);
        let e2 = SurfaceFlags::encode(x.surface_flags, v);
        let e3 = encode_sized(x.winding_count as u32, v);
        lemma_split(d, p, e0 + e1 + e2, e3);
        lemma_split(d, p, e0 + e1, e2);
        lemma_split(d, p, e0, e1);
        WindingIndexIndex::lemma_roundtrip(x.winding_start, v, d, p);
        PlaneIndex::lemma_roundtrip(x.plane_index, v, d, p + e0.len());
        SurfaceFlags::lemma_roundtrip(x.surface_flags, v, d, p + (e0 + e1).len());
        lemma_sized_roundtrip(x.winding_count as u32, v, d, p + (e0 + e1 + e2).len());
    }
}

impl RoundTrip for ConvexHull {
    /// Before version 12 the static-mesh byte is 0.
    open spec fn wire_ok(x: ConvexHull, v: Version) -> bool {
        v.interior < 12 ==> x.static_mesh == 0
    }

    #[verifier::rlimit(100)]
    proof fn lemma_roundtrip(x: ConvexHull, v: Version, d: Seq<u8>, p: int) {
        let e0 = HullPointIndex::encode(x.hull_start, v);
        let e1 = u16::encode(x.hull_count, v);
        let e2 = F32::encode(x.min_x, v);
        let e3 = F32::encode(x.max_x, v);
        let e4 = F32::encode(x.min_y, v);
        let e5 = F32::encode(x.max_y, v);
        let e6 = F32::encode(x.min_z, v);
        let e7 = F32::encode(x.max_z, v);
        let e8 = HullSurfaceIndex::encode(x.surface_start, v);
        let e9 = u16::encode(x.surface_count, v);
        let e10 = HullPlaneIndex::encode(x.plane_start, v);
        let e11 = PolyListPlaneIndex::encode(x.poly_list_plane_start, v);
        let e12 = PolyListPointIndex::encode(x.poly_list_point_start, v);
        let e13 = PolyListStringIndex::encode(x.poly_list_string_start, v);
        let e14 = if v.interior >= 12 {
            u8::encode(x.static_mesh, v)
        } else {
            Seq::empty()
        };
        let s0 = e0;
        let s1 = s0 + e1;
        let s2 = s1 + e2;
        let s3 = s2 + e3;
        let s4 = s3 + e4;
        let s5 = s4 + e5;
        let s6 = s5 + e6;
        let s7 = s6 + e7;
        let s8 = s7 + e8;
        let s9 = s8 + e9;
        let s10 = s9 + e10;
        let s11 = s10 + e11;
        let s12 = s11 + e12;
        let s13 = s12 + e13;
        lemma_split(d, p, s13, e14);
        lemma_split(d, p, s12, e13);
        lemma_split(d, p, s11, e12);
        lemma_split(d, p, s10, e11);
        lemma_split(d, p, s9, e10);
        lemma_split(d, p, s8, e9);
        lemma_split(d, p, s7, e8);
        lemma_split(d, p, s6, e7);
        lemma_split(d, p, s5, e6);
        lemma_split(d, p, s4, e5);
        lemma_split(d, p, s3, e4);
        lemma_split(d, p, s2, e3);
        lemma_split(d, p, s1, e2);
        lemma_split(d, p, s0, e1);
        HullPointIndex::lemma_roundtrip(x.hull_start, v, d, p);
        u16::lemma_roundtrip(x.hull_count, v, d, p + s0.len());
        F32::lemma_roundtrip(x.min_x, v, d, p + s1.len());
        F32::lemma_roundtrip(x.max_x, v, d, p + s2.len());
        F32::lemma_roundtrip(x.min_y, v, d, p + s3.len());
        F32::lemma_roundtrip(x.max_y, v, d, p + s4.len());
        F32::lemma_roundtrip(x.min_z, v, d, p + s5.len());
        F32::lemma_roundtrip(x.max_z, v, d, p + s6.len());
        HullSurfaceIndex::lemma_roundtrip(x.surface_start, v, d, p + s7.len());
        u16::lemma_roundtrip(x.surface_count, v, d, p + s8.len());
        HullPlaneIndex::lemma_roundtrip(x.plane_start, v, d, p + s9.len());
        PolyListPlaneIndex::lemma_roundtrip(x.poly_list_plane_start, v, d, p + s10.len());
        PolyListPointIndex::lemma_roundtrip(x.poly_list_point_start, v, d, p + s11.len());
        PolyListStringIndex::lemma_roundtrip(x.poly_list_string_start, v, d, p + s12.len());
        if v.interior >= 12 {
            u8::lemma_roundtrip(x.static_mesh, v, d, p + s13.len());
        }
    }
}

/// The surfaces, with the engine found by trial. They are first read
/// under the version as it stands. Where that succeeds, an unknown engine
/// becomes Torque Game Engine Advanced. Where it fails, an unknown engine
/// becomes Marble Blast Gold, the version of the interior has to be 0, and
/// the surfaces are read once more from the same place.
pub open spec fn parse_surface_table(d: Seq<u8>, c: Cursor, v: Version, limits: SurfaceLimits) -> (
    Seq<Surface>,
    Cursor,
    Version,
) {
    let (first, c1, v1) = parse_surfaces(d, c, v, limits);
    if !c.ok() {
        (Seq::empty(), c, v)
    } else if c1.ok() {
        let v2 = if v1.engine == EngineVersion::Unknown {
            Version { engine: EngineVersion::TGEA, ..v1 }
        } else {
            v1
        };
        (first, c1, v2)
    } else {
        let v2 = if v.engine == EngineVersion::Unknown {
            Version { engine: EngineVersion::MBG, ..v }
        } else {
            v
        };
        if v2.interior != 0 {
            (Seq::empty(), c.fail(DifErrorKind::InvalidMbgVersion), v2)
        } else {
            parse_surfaces(d, c, v2, limits)
        }
    }
}

/// Reads the surfaces and finds the engine by trial; the reader keeps an
/// error.
pub fn take_surface_table(from: &mut Reader, version: &mut Version, limits: SurfaceLimits) -> (r:
    Vec<Surface>)
    requires
        old(from).wf(),
    ensures
        final(from).wf(),
        final(from).data@ == old(from).data@,
        (r.deep_view(), final(from).cursor(), *final(version)) == parse_surface_table(
            old(from).data@,
            old(from).cursor(),
            *old(version),
            limits,
        ),
{
    if !from.ok() {
        return no_items();
    }
    let mut trial = *from;
    let mut trial_version = *version;
    let first = take_surfaces(&mut trial, &mut trial_version, limits);
    if trial.ok() {
        *from = trial;
        *version = trial_version;
        if version.engine == EngineVersion::Unknown {
            version.engine = EngineVersion::TGEA;
        }
        first
    } else {
        if version.engine == EngineVersion::Unknown {
            version.engine = EngineVersion::MBG;
        }
        if version.interior != 0 {
            from.fail(DifErrorKind::InvalidMbgVersion);
            no_items()
        } else {
            take_surfaces(from, version, limits)
        }
    }
}
impl Surface {
    /// Whether the surface comes back from its wire form under `v`
    /// against tables of the sizes `limits`: whether it lies inside the
    /// tables, holds known flags only, and each number fits its place.
    pub open spec fn wire_ok(self, v: Version, limits: SurfaceLimits) -> bool {
        &&& self.winding_start.value() + self.winding_count <= limits.indices_len
        &&& self.plane_index.value() < 0x8000
        &&& self.plane_index.value() < limits.planes_len
        &&& self.texture_index.value() < limits.material_names_len
        &&& self.tex_gen_index.value() < limits.tex_gen_eqs_len
        &&& SurfaceFlags::known(self.surface_flags.bits)
        &&& v.interior < 13 ==> self.winding_count < 0x100 && self.map_offset_x < 0x100
            && self.map_offset_y < 0x100 && self.map_size_x < 0x100 && self.map_size_y < 0x100
        &&& !(!v.is_tge() && 2 <= v.interior <= 5) ==> self.brush_id == 0
    }

    /// What the surface refers to comes back from its wire form.
    pub proof fn lemma_refs_roundtrip(self, v: Version, limits: SurfaceLimits, d: Seq<u8>, p: int)
        requires
            self.wire_ok(v, limits),
            stands_at(d, p, u32::encode(self.winding_start.value(), v)),
            stands_at(d, p + 4, encode_sized(self.winding_count, v)),
            stands_at(
                d,
                p + 4 + encode_sized(self.winding_count, v).len(),
                u16::encode(self.stored_plane(), v),
            ),
            stands_at(
                d,
                p + 6 + encode_sized(self.winding_count, v).len(),
                u16::encode(self.texture_index.value(), v),
            ),
            stands_at(
                d,
                p + 8 + encode_sized(self.winding_count, v).len(),
                u32::encode(self.tex_gen_index.value(), v),
            ),
        ensures
            Self::parse_refs(d, Cursor::at(p), v, limits) == (
                (
                    self.winding_start.value(),
                    self.winding_count,
                    self.plane_flipped,
                    self.plane_index.value(),
                    self.texture_index.value(),
                    self.tex_gen_index.value(),
                ),
                Cursor::at(p + 12 + encode_sized(self.winding_count, v).len()),
                v,
            ),
    {
        reveal(Surface::parse_refs);
        let x = self;
        let n = encode_sized(x.winding_count, v).len();
        let i = x.plane_index.value();
        assert(i | 0x8000 == i + 0x8000) by (bit_vector)
            requires
                i < 0x8000u16,
        ;
        lemma_u32_bytes(x.winding_start.value());
        lemma_u16_bytes(x.stored_plane());
        lemma_u16_bytes(x.texture_index.value());
        lemma_u32_bytes(x.tex_gen_index.value());
        u32::lemma_roundtrip(x.winding_start.value(), v, d, p);
        lemma_sized_roundtrip(x.winding_count, v, d, p + 4);
        u16::lemma_roundtrip(x.stored_plane(), v, d, p + 4 + n);
        u16::lemma_roundtrip(x.texture_index.value(), v, d, p + 6 + n);
        u32::lemma_roundtrip(x.tex_gen_index.value(), v, d, p + 8 + n);
    }

    /// The wire form of the rest of a surface.
    pub open spec fn encode_rest(x: Surface, v: Version) -> Seq<u8> {
        seq![x.surface_flags.bits] + u32::encode(x.fan_mask, v) + SurfaceLightMap::encode(
            x.light_map,
            v,
        ) + u16::encode(x.light_count, v) + u32::encode(x.light_state_info_start, v)
            + encode_sized(x.map_offset_x, v) + encode_sized(x.map_offset_y, v) + encode_sized(
            x.map_size_x,
            v,
        ) + encode_sized(x.map_size_y, v) + Self::encode_tail(x, v)
    }

    /// The rest of a surface comes back from its wire form.
    #[verifier::rlimit(100)]
    pub proof fn lemma_rest_roundtrip(self, v: Version, limits: SurfaceLimits, d: Seq<u8>, p: int)
        requires
            self.wire_ok(v, limits),
            stands_at(d, p, Self::encode_rest(self, v)),
        ensures
            Self::parse_rest(d, Cursor::at(p), v) == (
                (
                    self.surface_flags,
                    self.fan_mask,
                    self.light_map,
                    self.light_count,
                    self.light_state_info_start,
                    self.map_offset_x,
                    self.map_offset_y,
                    self.map_size_x,
                    self.map_size_y,
                    self.brush_id,
                ),
                Cursor::at(p + Self::encode_rest(self, v).len()),
                v,
            ),
    {
        reveal(Surface::parse_rest);
        let x = self;
        let e5 = seq![x.surface_flags.bits];
        let e6 = u32::encode(x.fan_mask, v);
        let e7 = SurfaceLightMap::encode(x.light_map, v);
        let e8 = u16::encode(x.light_count, v);
        let e9 = u32::encode(x.light_state_info_start, v);
        let e10 = encode_sized(x.map_offset_x, v);
        let e11 = encode_sized(x.map_offset_y, v);
        let e12 = encode_sized(x.map_size_x, v);
        let e13 = encode_sized(x.map_size_y, v);
        let e14 = Self::encode_tail(x, v);
        let s5 = e5;
        let s6 = s5 + e6;
        let s7 = s6 + e7;
        let s8 = s7 + e8;
        let s9 = s8 + e9;
        let s10 = s9 + e10;
        let s11 = s10 + e11;
        let s12 = s11 + e12;
        let s13 = s12 + e13;
        lemma_split(d, p, s13, e14);
        lemma_split(d, p, s12, e13);
        lemma_split(d, p, s11, e12);
        lemma_split(d, p, s10, e11);
        lemma_split(d, p, s9, e10);
        lemma_split(d, p, s8, e9);
        lemma_split(d, p, s7, e8);
        lemma_split(d, p, s6, e7);
        lemma_split(d, p, s5, e6);
        SurfaceFlags::lemma_roundtrip(x.surface_flags, v, d, p);
        u32::lemma_roundtrip(x.fan_mask, v, d, p + s5.len());
        SurfaceLightMap::lemma_roundtrip(x.light_map, v, d, p + s6.len());
        u16::lemma_roundtrip(x.light_count, v, d, p + s7.len());
        u32::lemma_roundtrip(x.light_state_info_start, v, d, p + s8.len());
        lemma_sized_roundtrip(x.map_offset_x, v, d, p + s9.len());
        lemma_sized_roundtrip(x.map_offset_y, v, d, p + s10.len());
        lemma_sized_roundtrip(x.map_size_x, v, d, p + s11.len());
        lemma_sized_roundtrip(x.map_size_y, v, d, p + s12.len());
        let q = p + s13.len();
        if !v.is_tge() {
            let t0 = seq![0u8];
            let t1 = if 2 <= v.interior <= 5 {
                u32::encode(x.brush_id, v)
            } else {
                Seq::empty()
            };
            lemma_split(d, q, t0, t1);
            u8::lemma_roundtrip(0u8, v, d, q);
            if 2 <= v.interior <= 5 {
                u32::lemma_roundtrip(x.brush_id, v, d, q + 1);
            }
        }
    }

    /// The wire form of a surface is the wire form of what it refers to,
    /// then that of the rest.
    pub proof fn lemma_encode_parts(x: Surface, v: Version)
        ensures
            Surface::encode(x, v) == u32::encode(x.winding_start.value(), v) + encode_sized(
                x.winding_count,
                v,
            ) + u16::encode(x.stored_plane(), v) + u16::encode(x.texture_index.value(), v)
                + u32::encode(x.tex_gen_index.value(), v) + Self::encode_rest(x, v),
    {
        let head = u32::encode(x.winding_start.value(), v) + encode_sized(x.winding_count, v)
            + u16::encode(x.stored_plane(), v) + u16::encode(x.texture_index.value(), v)
            + u32::encode(x.tex_gen_index.value(), v);
        assert(Surface::encode(x, v) =~= head + Self::encode_rest(x, v));
    }

    /// A surface comes back from its wire form.
    pub proof fn lemma_roundtrip(self, v: Version, limits: SurfaceLimits, d: Seq<u8>, p: int)
        requires
            self.wire_ok(v, limits),
            stands_at(d, p, Surface::encode(self, v)),
        ensures
            Self::parse_with(d, Cursor::at(p), v, limits) == (
                self,
                Cursor::at(p + Surface::encode(self, v).len()),
                v,
            ),
    {
        let x = self;
        Self::lemma_encode_parts(x, v);
        let e0 = u32::encode(x.winding_start.value(), v);
        let e1 = encode_sized(x.winding_count, v);
        let e2 = u16::encode(x.stored_plane(), v);
        let e3 = u16::encode(x.texture_index.value(), v);
        let e4 = u32::encode(x.tex_gen_index.value(), v);
        let rest = Self::encode_rest(x, v);
        lemma_split(d, p, e0 + e1 + e2 + e3 + e4, rest);
        lemma_split(d, p, e0 + e1 + e2 + e3, e4);
        lemma_split(d, p, e0 + e1 + e2, e3);
        lemma_split(d, p, e0 + e1, e2);
        lemma_split(d, p, e0, e1);
        lemma_u32_bytes(x.winding_start.value());
        lemma_u16_bytes(x.stored_plane());
        lemma_u16_bytes(x.texture_index.value());
        lemma_u32_bytes(x.tex_gen_index.value());
        self.lemma_refs_roundtrip(v, limits, d, p);
        self.lemma_rest_roundtrip(v, limits, d, p + 12 + e1.len());
    }
}

/// Whether every surface of a list comes back.
pub open spec fn surfaces_ok(xs: Seq<Surface>, v: Version, limits: SurfaceLimits) -> bool {
    xs.len() < 0x8000_0000 && forall|i: int|
        0 <= i < xs.len() ==> (#[trigger] xs[i]).wire_ok(v, limits)
}

/// Surfaces that stand one behind the other are read back one by one.
pub proof fn lemma_surface_items_roundtrip(
    xs: Seq<Surface>,
    v: Version,
    limits: SurfaceLimits,
    d: Seq<u8>,
    p: int,
)
    requires
        forall|i: int| 0 <= i < xs.len() ==> (#[trigger] xs[i]).wire_ok(v, limits),
        stands_at(d, p, encode_items::<Surface>(xs, v)),
    ensures
        parse_surface_items(d, Cursor::at(p), v, limits, xs.len()) == (
            xs,
            Cursor::at(p + encode_items::<Surface>(xs, v).len()),
            v,
        ),
    decreases xs.len(),
{
    reveal_with_fuel(parse_surface_items, 2);
    reveal_with_fuel(encode_items, 2);
    reveal(stands_at);
    if xs.len() == 0 {
        assert(xs =~= Seq::empty());
    } else {
        let front = xs.drop_last();
        let last = xs.last();
        lemma_split(d, p, encode_items::<Surface>(front, v), Surface::encode(last, v));
        assert forall|i: int| 0 <= i < front.len() implies (#[trigger] front[i]).wire_ok(
            v,
            limits,
        ) by {
            assert(front[i] == xs[i]);
        }
        lemma_surface_items_roundtrip(front, v, limits, d, p);
        last.lemma_roundtrip(v, limits, d, p + encode_items::<Surface>(front, v).len());
        assert(front.push(last) =~= xs);
    }
}

/// The list of surfaces comes back from its wire form. Under a known
/// engine the first reading succeeds and the version stays as it is.
pub proof fn lemma_surface_table_roundtrip(
    xs: Seq<Surface>,
    v: Version,
    limits: SurfaceLimits,
    d: Seq<u8>,
    p: int,
)
    requires
        v.engine != EngineVersion::Unknown,
        surfaces_ok(xs, v, limits),
        stands_at(d, p, Vec::<Surface>::encode(xs, v)),
    ensures
        parse_surface_table(d, Cursor::at(p), v, limits) == (
            xs,
            Cursor::at(p + Vec::<Surface>::encode(xs, v).len()),
            v,
        ),
{
    reveal(parse_list_header);
    let head = u32::encode(list_count(xs.len()), v);
    lemma_split(d, p, head, encode_items::<Surface>(xs, v));
    u32::lemma_roundtrip(list_count(xs.len()), v, d, p);
    lemma_u32_bytes(list_count(xs.len()));
    lemma_surface_items_roundtrip(xs, v, limits, d, p + 4);
}

/// A list in its plain form is read back by a reader that takes the
/// narrow form only where the header asks for it.
pub proof fn lemma_vec_unflagged<T: RoundTrip + FromNarrow<N>, N: Readable>(
    xs: Seq<T::V>,
    v: Version,
    mode: Narrow,
    d: Seq<u8>,
    p: int,
)
    requires
        mode != Narrow::Always,
        Vec::<T>::wire_ok(xs, v),
        stands_at(d, p, Vec::<T>::encode(xs, v)),
    ensures
        parse_vec::<T, N>(d, Cursor::at(p), v, mode) == (
            xs,
            Cursor::at(p + Vec::<T>::encode(xs, v).len()),
            v,
        ),
{
    reveal(parse_list_header);
    let head = u32::encode(list_count(xs.len()), v);
    lemma_split(d, p, head, encode_items::<T>(xs, v));
    u32::lemma_roundtrip(list_count(xs.len()), v, d, p);
    lemma_u32_bytes(list_count(xs.len()));
    Vec::<T>::lemma_roundtrip(xs, v, d, p);
}

/// Reading 16-bit indices in their narrow form is reading them.
pub proof fn lemma_narrow_u16_same<X>(d: Seq<u8>, c: Cursor, v: Version, n: nat)
    ensures
        parse_items_narrow::<TypedInt<u16, X>, u16>(d, c, v, n) == parse_items::<TypedInt<u16, X>>(
            d,
            c,
            v,
            n,
        ),
    decreases n,
{
    reveal_with_fuel(parse_items, 2);
    reveal_with_fuel(parse_items_narrow, 2);
    if n > 0 {
        lemma_narrow_u16_same::<X>(d, c, v, (n - 1) as nat);
    }
}

/// A list of 16-bit indices is read back by a reader that takes them in
/// their narrow form.
pub proof fn lemma_vec_u16_roundtrip<X>(
    xs: Seq<TypedInt<u16, X>>,
    v: Version,
    mode: Narrow,
    d: Seq<u8>,
    p: int,
)
    requires
        xs.len() < 0x8000_0000,
        stands_at(d, p, Vec::<TypedInt<u16, X>>::encode(xs, v)),
    ensures
        parse_vec::<TypedInt<u16, X>, u16>(d, Cursor::at(p), v, mode) == (
            xs,
            Cursor::at(p + Vec::<TypedInt<u16, X>>::encode(xs, v).len()),
            v,
        ),
{
    reveal(parse_list_header);
    let head = u32::encode(list_count(xs.len()), v);
    lemma_split(d, p, head, encode_items::<TypedInt<u16, X>>(xs, v));
    u32::lemma_roundtrip(list_count(xs.len()), v, d, p);
    lemma_u32_bytes(list_count(xs.len()));
    Vec::<TypedInt<u16, X>>::lemma_roundtrip(xs, v, d, p);
    lemma_narrow_u16_same::<X>(d, Cursor::at(p + 4), v, xs.len());
}

/// 32-bit indices below 256 that stand as single bytes are read back one
/// by one.
pub proof fn lemma_byte_items_roundtrip<X>(xs: Seq<TypedInt<u32, X>>, v: Version, d: Seq<u8>, p: int)
    requires
        forall|i: int| 0 <= i < xs.len() ==> (#[trigger] xs[i]).value() < 0x100,
        stands_at(d, p, encode_items_narrow::<TypedInt<u32, X>, u8>(xs, v)),
    ensures
        parse_items_narrow::<TypedInt<u32, X>, u8>(d, Cursor::at(p), v, xs.len()) == (
            xs,
            Cursor::at(p + encode_items_narrow::<TypedInt<u32, X>, u8>(xs, v).len()),
            v,
        ),
    decreases xs.len(),
{
    reveal_with_fuel(parse_items_narrow, 2);
    reveal_with_fuel(encode_items_narrow, 2);
    reveal(stands_at);
    if xs.len() == 0 {
        assert(xs =~= Seq::empty());
    } else {
        let front = xs.drop_last();
        let last = xs.last();
        let byte = (last.value() % 0x100) as u8;
        lemma_split(d, p, encode_items_narrow::<TypedInt<u32, X>, u8>(front, v), u8::encode(byte, v));
        assert forall|i: int| 0 <= i < front.len() implies (#[trigger] front[i]).value()
            < 0x100 by {
            assert(front[i] == xs[i]);
        }
        lemma_byte_items_roundtrip::<X>(front, v, d, p);
        u8::lemma_roundtrip(
            byte,
            v,
            d,
            p + encode_items_narrow::<TypedInt<u32, X>, u8>(front, v).len(),
        );
        assert(xs[xs.len() - 1].value() < 0x100);
        assert(front.push(last) =~= xs);
    }
}

/// A list of 32-bit indices below 256, written as single bytes, is read
/// back by a reader that takes single bytes.
#[verifier::rlimit(50)]
pub proof fn lemma_vec_bytes_roundtrip<X>(xs: Seq<TypedInt<u32, X>>, v: Version, d: Seq<u8>, p: int)
    requires
        xs.len() < 0x8000_0000,
        forall|i: int| 0 <= i < xs.len() ==> (#[trigger] xs[i]).value() < 0x100,
        stands_at(d, p, encode_vec_narrow::<TypedInt<u32, X>, u8>(xs, v)),
    ensures
        parse_vec::<TypedInt<u32, X>, u8>(d, Cursor::at(p), v, Narrow::Always) == (
            xs,
            Cursor::at(p + encode_vec_narrow::<TypedInt<u32, X>, u8>(xs, v).len()),
            v,
        ),
{
    reveal(parse_list_header);
    let head = u32::encode(list_count(xs.len()), v);
    lemma_split(d, p, head, encode_items_narrow::<TypedInt<u32, X>, u8>(xs, v));
    u32::lemma_roundtrip(list_count(xs.len()), v, d, p);
    lemma_u32_bytes(list_count(xs.len()));
    lemma_byte_items_roundtrip::<X>(xs, v, d, p + 4);
}

} // verus!
