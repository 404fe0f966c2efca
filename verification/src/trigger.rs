use vstd::prelude::*;
use crate::float::{MINUS_ONE_BITS, ONE_BITS};
use crate::io::{
    lemma_add_assoc, lemma_add_empty, Cursor, EngineVersion, Readable, Reader, Version, Writable,
};
use crate::roundtrip::{lemma_split, RoundTrip};
use crate::types::{Dictionary, DifResult, PlaneF, Point3F, F32};

verus! {

/// An edge of a polyhedron: the two faces that meet in it and its two ends.
#[derive(Clone, Copy, Debug, PartialEq, Eq)]
pub struct PolyhedronEdge {
    pub face0: u32,
    pub face1: u32,
    pub vertex0: u32,
    pub vertex1: u32,
}

impl DeepView for PolyhedronEdge {
    type V = PolyhedronEdge;

    open spec fn deep_view(&self) -> PolyhedronEdge {
        *self
    }
}

impl Readable for PolyhedronEdge {
    open spec fn parse(d: Seq<u8>, c: Cursor, v: Version) -> (PolyhedronEdge, Cursor, Version) {
        let (face0, c, v) = u32::parse(d, c, v);
        let (face1, c, v) = u32::parse(d, c, v);
        let (vertex0, c, v) = u32::parse(d, c, v);
        let (vertex1, c, v) = u32::parse(d, c, v);
        (PolyhedronEdge { face0, face1, vertex0, vertex1 }, c, v)
    }

    fn take(from: &mut Reader, version: &mut Version) -> (r: Self) {
        let face0 = u32::take(from, version);
        let face1 = u32::take(from, version);
        let vertex0 = u32::take(from, version);
        let vertex1 = u32::take(from, version);
        PolyhedronEdge { face0, face1, vertex0, vertex1 }
    }
}

impl Writable for PolyhedronEdge {
    open spec fn writable(x: PolyhedronEdge, v: Version) -> bool {
        true
    }

    open spec fn encode(x: PolyhedronEdge, v: Version) -> Seq<u8> {
        u32::encode(x.face0, v)
            + u32::encode(x.face1, v)
            + u32::encode(x.vertex0, v)
            + u32::encode(x.vertex1, v)
    }

    fn write(&self, to: &mut Vec<u8>, version: &Version) -> (r: DifResult<()>)
        ensures
            r is Ok,
    {
        let ghost x = *self;
        let ghost v = *version;
        self.face0.write(to, version)?;
        let ghost sent = u32::encode(x.face0, v);
        self.face1.write(to, version)?;
        proof {
            lemma_add_assoc(old(to)@, sent, u32::encode(x.face1, v));
        }
        let ghost sent = sent + u32::encode(x.face1, v);
        self.vertex0.write(to, version)?;
        proof {
            lemma_add_assoc(old(to)@, sent, u32::encode(x.vertex0, v));
        }
        let ghost sent = sent + u32::encode(x.vertex0, v);
        self.vertex1.write(to, version)?;
        proof {
            lemma_add_assoc(old(to)@, sent, u32::encode(x.vertex1, v));
        }
        Ok(())
    }
}

impl RoundTrip for PolyhedronEdge {
    open spec fn wire_ok(x: PolyhedronEdge, v: Version) -> bool {
        &&& u32::wire_ok(x.face0, v)
        &&& u32::wire_ok(x.face1, v)
        &&& u32::wire_ok(x.vertex0, v)
        &&& u32::wire_ok(x.vertex1, v)
    }

    proof fn lemma_roundtrip(x: PolyhedronEdge, v: Version, d: Seq<u8>, p: int) {
        let e0 = u32::encode(x.face0, v);
        let e1 = u32::encode(x.face1, v);
        let e2 = u32::encode(x.vertex0, v);
        let e3 = u32::encode(x.vertex1, v);
        let s0 = e0;
        let s1 = s0 + e1;
        let s2 = s1 + e2;
        lemma_split(d, p, s2, e3);
        lemma_split(d, p, s1, e2);
        lemma_split(d, p, s0, e1);
        u32::lemma_roundtrip(x.face0, v, d, p);
        u32::lemma_roundtrip(x.face1, v, d, p + s0.len());
        u32::lemma_roundtrip(x.vertex0, v, d, p + s1.len());
        u32::lemma_roundtrip(x.vertex1, v, d, p + s2.len());
    }
}

/// A convex volume: its corners, its faces and its edges.
#[derive(Clone, Debug, PartialEq, Eq)]
pub struct Polyhedron {
    pub point_list: Vec<Point3F>,
    pub plane_list: Vec<PlaneF>,
    pub edge_list: Vec<PolyhedronEdge>,
}

/// What a `Polyhedron` holds, as mathematical values.
pub struct PolyhedronView {
    pub point_list: Seq<Point3F>,
    pub plane_list: Seq<PlaneF>,
    pub edge_list: Seq<PolyhedronEdge>,
}

impl DeepView for Polyhedron {
    type V = PolyhedronView;

    open spec fn deep_view(&self) -> PolyhedronView {
        PolyhedronView {
            point_list: self.point_list.deep_view(),
            plane_list: self.plane_list.deep_view(),
            edge_list: self.edge_list.deep_view(),
        }
    }
}

impl Readable for Polyhedron {
    #[verifier::opaque]
    open spec fn parse(d: Seq<u8>, c: Cursor, v: Version) -> (PolyhedronView, Cursor, Version) {
        let (point_list, c, v) = Vec::<Point3F>::parse(d, c, v);
        let (plane_list, c, v) = Vec::<PlaneF>::parse(d, c, v);
        let (edge_list, c, v) = Vec::<PolyhedronEdge>::parse(d, c, v);
        (PolyhedronView { point_list, plane_list, edge_list }, c, v)
    }

    fn take(from: &mut Reader, version: &mut Version) -> (r: Self) {
        reveal(<Polyhedron as Readable>::parse);
        let point_list = Vec::<Point3F>::take(from, version);
        let plane_list = Vec::<PlaneF>::take(from, version);
        let edge_list = Vec::<PolyhedronEdge>::take(from, version);
        Polyhedron { point_list, plane_list, edge_list }
    }
}

impl Writable for Polyhedron {
    open spec fn writable(x: PolyhedronView, v: Version) -> bool {
        &&& Vec::<Point3F>::writable(x.point_list, v)
        &&& Vec::<PlaneF>::writable(x.plane_list, v)
        &&& Vec::<PolyhedronEdge>::writable(x.edge_list, v)
    }

    #[verifier::opaque]
    open spec fn encode(x: PolyhedronView, v: Version) -> Seq<u8> {
        Vec::<Point3F>::encode(x.point_list, v)
            + Vec::<PlaneF>::encode(x.plane_list, v)
            + Vec::<PolyhedronEdge>::encode(x.edge_list, v)
    }

    fn write(&self, to: &mut Vec<u8>, version: &Version) -> (r: DifResult<()>) {
        reveal(<Polyhedron as Writable>::encode);
        let ghost x = self.deep_view();
        let ghost v = *version;
        self.point_list.write(to, version)?;
        let ghost sent = Vec::<Point3F>::encode(x.point_list, v);
        self.plane_list.write(to, version)?;
        proof {
            lemma_add_assoc(old(to)@, sent, Vec::<PlaneF>::encode(x.plane_list, v));
        }
        let ghost sent = sent + Vec::<PlaneF>::encode(x.plane_list, v);
        self.edge_list.write(to, version)?;
        proof {
            lemma_add_assoc(old(to)@, sent, Vec::<PolyhedronEdge>::encode(x.edge_list, v));
        }
        Ok(())
    }
}

impl RoundTrip for Polyhedron {
    open spec fn wire_ok(x: PolyhedronView, v: Version) -> bool {
        &&& Vec::<Point3F>::wire_ok(x.point_list, v)
        &&& Vec::<PlaneF>::wire_ok(x.plane_list, v)
        &&& Vec::<PolyhedronEdge>::wire_ok(x.edge_list, v)
    }

    proof fn lemma_roundtrip(x: PolyhedronView, v: Version, d: Seq<u8>, p: int) {
        reveal(<Polyhedron as Readable>::parse);
        reveal(<Polyhedron as Writable>::encode);
        let e0 = Vec::<Point3F>::encode(x.point_list, v);
        let e1 = Vec::<PlaneF>::encode(x.plane_list, v);
        let e2 = Vec::<PolyhedronEdge>::encode(x.edge_list, v);
        let s0 = e0;
        let s1 = s0 + e1;
        lemma_split(d, p, s1, e2);
        lemma_split(d, p, s0, e1);
        Vec::<Point3F>::lemma_roundtrip(x.point_list, v, d, p);
        Vec::<PlaneF>::lemma_roundtrip(x.plane_list, v, d, p + s0.len());
        Vec::<PolyhedronEdge>::lemma_roundtrip(x.edge_list, v, d, p + s1.len());
    }
}

/// A trigger: a named volume with a datablock and properties.
#[derive(Clone, Debug, PartialEq, Eq)]
pub struct Trigger {
    pub name: String,
    pub datablock: String,
    pub properties: Dictionary,
    pub polyhedron: Polyhedron,
    pub offset: Point3F,
}

/// What a `Trigger` holds, as mathematical values.
pub struct TriggerView {
    pub name: Seq<char>,
    pub datablock: Seq<char>,
    pub properties: Seq<(Seq<char>, Seq<char>)>,
    pub polyhedron: PolyhedronView,
    pub offset: Point3F,
}

impl DeepView for Trigger {
    type V = TriggerView;

    open spec fn deep_view(&self) -> TriggerView {
        TriggerView {
            name: self.name.deep_view(),
            datablock: self.datablock.deep_view(),
            properties: self.properties.deep_view(),
            polyhedron: self.polyhedron.deep_view(),
            offset: self.offset.deep_view(),
        }
    }
}

impl Readable for Trigger {
    #[verifier::opaque]
    open spec fn parse(d: Seq<u8>, c: Cursor, v: Version) -> (TriggerView, Cursor, Version) {
        let (name, c, v) = String::parse(d, c, v);
        let (datablock, c, v) = String::parse(d, c, v);
        let (properties, c, v) = Dictionary::parse(d, c, v);
        let (polyhedron, c, v) = Polyhedron::parse(d, c, v);
        let (offset, c, v) = Point3F::parse(d, c, v);
        (TriggerView { name, datablock, properties, polyhedron, offset }, c, v)
    }

    fn take(from: &mut Reader, version: &mut Version) -> (r: Self) {
        reveal(<Trigger as Readable>::parse);
        let name = String::take(from, version);
        let datablock = String::take(from, version);
        let properties = Dictionary::take(from, version);
        let polyhedron = Polyhedron::take(from, version);
        let offset = Point3F::take(from, version);
        Trigger { name, datablock, properties, polyhedron, offset }
    }
}

impl Writable for Trigger {
    open spec fn writable(x: TriggerView, v: Version) -> bool {
        true
    }

    /// The properties are written for Marble Blast Gold only.
    #[verifier::opaque]
    open spec fn encode(x: TriggerView, v: Version) -> Seq<u8> {
        String::encode(x.name, v) + String::encode(x.datablock, v) + (if v.engine
            == EngineVersion::MBG {
            Dictionary::encode(x.properties, v)
        } else {
            Seq::empty()
        }) + Polyhedron::encode(x.polyhedron, v) + Point3F::encode(x.offset, v)
    }

    fn write(&self, to: &mut Vec<u8>, version: &Version) -> (r: DifResult<()>)
        ensures
            r is Ok,
    {
        reveal(<Trigger as Writable>::encode);
        let ghost x = self.deep_view();
        let ghost v = *version;
        self.name.write(to, version)?;
        let ghost sent = String::encode(x.name, v);
        self.datablock.write(to, version)?;
        proof {
            lemma_add_assoc(old(to)@, sent, String::encode(x.datablock, v));
        }
        let ghost sent = sent + String::encode(x.datablock, v);
        if version.engine == EngineVersion::MBG {
            self.properties.write(to, version)?;
        }
        let ghost piece = if v.engine == EngineVersion::MBG {
            Dictionary::encode(x.properties, v)
        } else {
            Seq::empty()
        };
        proof {
            lemma_add_assoc(old(to)@, sent, piece);
            lemma_add_empty(sent);
        }
        let ghost sent = sent + piece;
        match self.polyhedron.write(to, version) {
            Ok(_) => {},
            Err(e) => {
                assert(Polyhedron::writable(x.polyhedron, v));
                return Err(e);
            },
        }
        proof {
            lemma_add_assoc(old(to)@, sent, Polyhedron::encode(x.polyhedron, v));
        }
        let ghost sent = sent + Polyhedron::encode(x.polyhedron, v);
        self.offset.write(to, version)?;
        proof {
            lemma_add_assoc(old(to)@, sent, Point3F::encode(x.offset, v));
        }
        Ok(())
    }
}

impl RoundTrip for Trigger {
    /// The engine is Marble Blast Gold, for which the properties are
    /// written, and each part comes back.
    open spec fn wire_ok(x: TriggerView, v: Version) -> bool {
        &&& v.engine == EngineVersion::MBG
        &&& String::wire_ok(x.name, v)
        &&& String::wire_ok(x.datablock, v)
        &&& Dictionary::wire_ok(x.properties, v)
        &&& Polyhedron::wire_ok(x.polyhedron, v)
        &&& Point3F::wire_ok(x.offset, v)
    }

    proof fn lemma_roundtrip(x: TriggerView, v: Version, d: Seq<u8>, p: int) {
        reveal(<Trigger as Readable>::parse);
        reveal(<Trigger as Writable>::encode);
        let e0 = String::encode(x.name, v);
        let e1 = String::encode(x.datablock, v);
        let e2 = Dictionary::encode(x.properties, v);
        let e3 = Polyhedron::encode(x.polyhedron, v);
        let e4 = Point3F::encode(x.offset, v);
        let s0 = e0;
        let s1 = s0 + e1;
        let s2 = s1 + e2;
        let s3 = s2 + e3;
        lemma_split(d, p, s3, e4);
        lemma_split(d, p, s2, e3);
        lemma_split(d, p, s1, e2);
        lemma_split(d, p, s0, e1);
        String::lemma_roundtrip(x.name, v, d, p);
        String::lemma_roundtrip(x.datablock, v, d, p + s0.len());
        Dictionary::lemma_roundtrip(x.properties, v, d, p + s1.len());
        Polyhedron::lemma_roundtrip(x.polyhedron, v, d, p + s2.len());
        Point3F::lemma_roundtrip(x.offset, v, d, p + s3.len());
    }
}

impl Polyhedron {
    /// The eight corners of the box from `min` to `max`: the four of the
    /// top face, then the four of the bottom face below them.
    pub open spec fn box_points(min: Point3F, max: Point3F) -> Seq<Point3F> {
        seq![
            Point3F { x: min.x, y: min.y, z: max.z },
            Point3F { x: min.x, y: max.y, z: max.z },
            Point3F { x: max.x, y: max.y, z: max.z },
            Point3F { x: max.x, y: min.y, z: max.z },
            Point3F { x: min.x, y: min.y, z: min.z },
            Point3F { x: min.x, y: max.y, z: min.z },
            Point3F { x: max.x, y: max.y, z: min.z },
            Point3F { x: max.x, y: min.y, z: min.z },
        ]
    }

    /// The six faces of the box, with normals -x, +y, +x, -y, +z, -z and
    /// the coordinate of the face as distance.
    pub open spec fn box_planes(min: Point3F, max: Point3F) -> Seq<PlaneF> {
        let zero = F32 { bits: 0 };
        let one = F32 { bits: ONE_BITS };
        let minus = F32 { bits: MINUS_ONE_BITS };
        seq![
            PlaneF { normal: Point3F { x: minus, y: zero, z: zero }, distance: min.x },
            PlaneF { normal: Point3F { x: zero, y: one, z: zero }, distance: max.y },
            PlaneF { normal: Point3F { x: one, y: zero, z: zero }, distance: max.x },
            PlaneF { normal: Point3F { x: zero, y: minus, z: zero }, distance: min.y },
            PlaneF { normal: Point3F { x: zero, y: zero, z: one }, distance: max.z },
            PlaneF { normal: Point3F { x: zero, y: zero, z: minus }, distance: min.z },
        ]
    }

    /// The twelve edges of a box, each with its two faces and two corners.
    pub open spec fn box_edges() -> Seq<PolyhedronEdge> {
        seq![
            PolyhedronEdge { face0: 0, face1: 4, vertex0: 0, vertex1: 1 },
            PolyhedronEdge { face0: 5, face1: 0, vertex0: 4, vertex1: 5 },
            PolyhedronEdge { face0: 3, face1: 0, vertex0: 0, vertex1: 4 },
            PolyhedronEdge { face0: 1, face1: 4, vertex0: 1, vertex1: 2 },
            PolyhedronEdge { face0: 5, face1: 6, vertex0: 5, vertex1: 1 },
            PolyhedronEdge { face0: 0, face1: 1, vertex0: 1, vertex1: 5 },
            PolyhedronEdge { face0: 2, face1: 4, vertex0: 2, vertex1: 3 },
            PolyhedronEdge { face0: 5, face1: 2, vertex0: 6, vertex1: 7 },
            PolyhedronEdge { face0: 1, face1: 2, vertex0: 2, vertex1: 6 },
            PolyhedronEdge { face0: 3, face1: 4, vertex0: 3, vertex1: 0 },
            PolyhedronEdge { face0: 5, face1: 3, vertex0: 7, vertex1: 4 },
            PolyhedronEdge { face0: 2, face1: 3, vertex0: 3, vertex1: 7 },
        ]
    }

    /// The axis-aligned box from corner `min` to corner `max`.
    pub fn from_box(min: Point3F, max: Point3F) -> (r: Polyhedron)
        ensures
            r.deep_view() == (PolyhedronView {
                point_list: Self::box_points(min, max),
                plane_list: Self::box_planes(min, max),
                edge_list: Self::box_edges(),
            }),
    {
        let zero = F32 { bits: 0 };
        let one = F32 { bits: ONE_BITS };
        let minus = F32 { bits: MINUS_ONE_BITS };
        let point_list = vec![
            Point3F { x: min.x, y: min.y, z: max.z },
            Point3F { x: min.x, y: max.y, z: max.z },
            Point3F { x: max.x, y: max.y, z: max.z },
            Point3F { x: max.x, y: min.y, z: max.z },
            Point3F { x: min.x, y: min.y, z: min.z },
            Point3F { x: min.x, y: max.y, z: min.z },
            Point3F { x: max.x, y: max.y, z: min.z },
            Point3F { x: max.x, y: min.y, z: min.z },
        ];
        let plane_list = vec![
            PlaneF { normal: Point3F { x: minus, y: zero, z: zero }, distance: min.x },
            PlaneF { normal: Point3F { x: zero, y: one, z: zero }, distance: max.y },
            PlaneF { normal: Point3F { x: one, y: zero, z: zero }, distance: max.x },
            PlaneF { normal: Point3F { x: zero, y: minus, z: zero }, distance: min.y },
            PlaneF { normal: Point3F { x: zero, y: zero, z: one }, distance: max.z },
            PlaneF { normal: Point3F { x: zero, y: zero, z: minus }, distance: min.z },
        ];
        let edge_list = vec![
            PolyhedronEdge { face0: 0, face1: 4, vertex0: 0, vertex1: 1 },
            PolyhedronEdge { face0: 5, face1: 0, vertex0: 4, vertex1: 5 },
            PolyhedronEdge { face0: 3, face1: 0, vertex0: 0, vertex1: 4 },
            PolyhedronEdge { face0: 1, face1: 4, vertex0: 1, vertex1: 2 },
            PolyhedronEdge { face0: 5, face1: 6, vertex0: 5, vertex1: 1 },
            PolyhedronEdge { face0: 0, face1: 1, vertex0: 1, vertex1: 5 },
            PolyhedronEdge { face0: 2, face1: 4, vertex0: 2, vertex1: 3 },
            PolyhedronEdge { face0: 5, face1: 2, vertex0: 6, vertex1: 7 },
            PolyhedronEdge { face0: 1, face1: 2, vertex0: 2, vertex1: 6 },
            PolyhedronEdge { face0: 3, face1: 4, vertex0: 3, vertex1: 0 },
            PolyhedronEdge { face0: 5, face1: 3, vertex0: 7, vertex1: 4 },
            PolyhedronEdge { face0: 2, face1: 3, vertex0: 3, vertex1: 7 },
        ];
        let r = Polyhedron { point_list, plane_list, edge_list };
        proof {
            assert(r.point_list.deep_view() =~= Self::box_points(min, max));
            assert(r.plane_list.deep_view() =~= Self::box_planes(min, max));
            assert(r.edge_list.deep_view() =~= Self::box_edges());
        }
        r
    }
}

impl Trigger {
    /// The trigger whose volume is the axis-aligned box from `min` to
    /// `max`, with no offset.
    pub open spec fn spec_new_box(
        min: Point3F,
        max: Point3F,
        name: Seq<char>,
        datablock: Seq<char>,
        properties: Seq<(Seq<char>, Seq<char>)>,
    ) -> TriggerView {
        TriggerView {
            name,
            datablock,
            properties,
            polyhedron: PolyhedronView {
                point_list: Polyhedron::box_points(min, max),
                plane_list: Polyhedron::box_planes(min, max),
                edge_list: Polyhedron::box_edges(),
            },
            offset: Point3F::spec_zero(),
        }
    }

    /// Makes the trigger whose volume is the axis-aligned box from `min`
    /// to `max`, with no offset.
    pub fn new_box(
        min: Point3F,
        max: Point3F,
        name: String,
        datablock: String,
        properties: Dictionary,
    ) -> (r: Trigger)
        ensures
            r.deep_view() == Self::spec_new_box(min, max, name@, datablock@, properties.deep_view()),
    {
        Trigger {
            name,
            datablock,
            properties,
            polyhedron: Polyhedron::from_box(min, max),
            offset: Point3F::zero(),
        }
    }
}

} // verus!
