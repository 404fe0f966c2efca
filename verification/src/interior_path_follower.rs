use vstd::prelude::*;
use crate::io::{lemma_add_assoc, Cursor, Readable, Reader, Version, Writable};
use crate::roundtrip::{lemma_split, RoundTrip};
use crate::types::{Dictionary, DifResult, Point3F, QuatF};

verus! {

/// A moving interior: which interior moves, and along which way points.
#[derive(Clone, Debug, PartialEq, Eq)]
pub struct InteriorPathFollower {
    pub name: String,
    pub datablock: String,
    pub interior_res_index: u32,
    pub offset: Point3F,
    pub properties: Dictionary,
    pub trigger_ids: Vec<u32>,
    pub way_points: Vec<WayPoint>,
    pub total_ms: u32,
}

/// What a `InteriorPathFollower` holds, as mathematical values.
pub struct InteriorPathFollowerView {
    pub name: Seq<char>,
    pub datablock: Seq<char>,
    pub interior_res_index: u32,
    pub offset: Point3F,
    pub properties: Seq<(Seq<char>, Seq<char>)>,
    pub trigger_ids: Seq<u32>,
    pub way_points: Seq<WayPoint>,
    pub total_ms: u32,
}

impl DeepView for InteriorPathFollower {
    type V = InteriorPathFollowerView;

    open spec fn deep_view(&self) -> InteriorPathFollowerView {
        InteriorPathFollowerView {
            name: self.name.deep_view(),
            datablock: self.datablock.deep_view(),
            interior_res_index: self.interior_res_index.deep_view(),
            offset: self.offset.deep_view(),
            properties: self.properties.deep_view(),
            trigger_ids: self.trigger_ids.deep_view(),
            way_points: self.way_points.deep_view(),
            total_ms: self.total_ms.deep_view(),
        }
    }
}

impl Readable for InteriorPathFollower {
    #[verifier::opaque]
    open spec fn parse(d: Seq<u8>, c: Cursor, v: Version) -> (InteriorPathFollowerView, Cursor, Version) {
        let (name, c, v) = String::parse(d, c, v);
        let (datablock, c, v) = String::parse(d, c, v);
        let (interior_res_index, c, v) = u32::parse(d, c, v);
        let (offset, c, v) = Point3F::parse(d, c, v);
        let (properties, c, v) = Dictionary::parse(d, c, v);
        let (trigger_ids, c, v) = Vec::<u32>::parse(d, c, v);
        let (way_points, c, v) = Vec::<WayPoint>::parse(d, c, v);
        let (total_ms, c, v) = u32::parse(d, c, v);
        (InteriorPathFollowerView {
            name,
            datablock,
            interior_res_index,
            offset,
            properties,
            trigger_ids,
            way_points,
            total_ms,
        }, c, v)
    }

    fn take(from: &mut Reader, version: &mut Version) -> (r: Self) {
        reveal(<InteriorPathFollower as Readable>::parse);
        let name = String::take(from, version);
        let datablock = String::take(from, version);
        let interior_res_index = u32::take(from, version);
        let offset = Point3F::take(from, version);
        let properties = Dictionary::take(from, version);
        let trigger_ids = Vec::<u32>::take(from, version);
        let way_points = Vec::<WayPoint>::take(from, version);
        let total_ms = u32::take(from, version);
        InteriorPathFollower {
            name,
            datablock,
            interior_res_index,
            offset,
            properties,
            trigger_ids,
            way_points,
            total_ms,
        }
    }
}

impl Writable for InteriorPathFollower {
    open spec fn writable(x: InteriorPathFollowerView, v: Version) -> bool {
        &&& String::writable(x.name, v)
        &&& String::writable(x.datablock, v)
        &&& u32::writable(x.interior_res_index, v)
        &&& Point3F::writable(x.offset, v)
        &&& Dictionary::writable(x.properties, v)
        &&& Vec::<u32>::writable(x.trigger_ids, v)
        &&& Vec::<WayPoint>::writable(x.way_points, v)
        &&& u32::writable(x.total_ms, v)
    }

    #[verifier::opaque]
    open spec fn encode(x: InteriorPathFollowerView, v: Version) -> Seq<u8> {
        String::encode(x.name, v)
            + String::encode(x.datablock, v)
            + u32::encode(x.interior_res_index, v)
            + Point3F::encode(x.offset, v)
            + Dictionary::encode(x.properties, v)
            + Vec::<u32>::encode(x.trigger_ids, v)
            + Vec::<WayPoint>::encode(x.way_points, v)
            + u32::encode(x.total_ms, v)
    }

    fn write(&self, to: &mut Vec<u8>, version: &Version) -> (r: DifResult<()>) {
        reveal(<InteriorPathFollower as Writable>::encode);
        let ghost x = self.deep_view();
        let ghost v = *version;
        self.name.write(to, version)?;
        let ghost sent = String::encode(x.name, v);
        self.datablock.write(to, version)?;
        proof {
            lemma_add_assoc(old(to)@, sent, String::encode(x.datablock, v));
        }
        let ghost sent = sent + String::encode(x.datablock, v);
        self.interior_res_index.write(to, version)?;
        proof {
            lemma_add_assoc(old(to)@, sent, u32::encode(x.interior_res_index, v));
        }
        let ghost sent = sent + u32::encode(x.interior_res_index, v);
        self.offset.write(to, version)?;
        proof {
            lemma_add_assoc(old(to)@, sent, Point3F::encode(x.offset, v));
        }
        let ghost sent = sent + Point3F::encode(x.offset, v);
        self.properties.write(to, version)?;
        proof {
            lemma_add_assoc(old(to)@, sent, Dictionary::encode(x.properties, v));
        }
        let ghost sent = sent + Dictionary::encode(x.properties, v);
        self.trigger_ids.write(to, version)?;
        proof {
            lemma_add_assoc(old(to)@, sent, Vec::<u32>::encode(x.trigger_ids, v));
        }
        let ghost sent = sent + Vec::<u32>::encode(x.trigger_ids, v);
        self.way_points.write(to, version)?;
        proof {
            lemma_add_assoc(old(to)@, sent, Vec::<WayPoint>::encode(x.way_points, v));
        }
        let ghost sent = sent + Vec::<WayPoint>::encode(x.way_points, v);
        self.total_ms.write(to, version)?;
        proof {
            lemma_add_assoc(old(to)@, sent, u32::encode(x.total_ms, v));
        }
        Ok(())
    }
}

impl RoundTrip for InteriorPathFollower {
    open spec fn wire_ok(x: InteriorPathFollowerView, v: Version) -> bool {
        &&& String::wire_ok(x.name, v)
        &&& String::wire_ok(x.datablock, v)
        &&& u32::wire_ok(x.interior_res_index, v)
        &&& Point3F::wire_ok(x.offset, v)
        &&& Dictionary::wire_ok(x.properties, v)
        &&& Vec::<u32>::wire_ok(x.trigger_ids, v)
        &&& Vec::<WayPoint>::wire_ok(x.way_points, v)
        &&& u32::wire_ok(x.total_ms, v)
    }

    #[verifier::rlimit(100)]
    proof fn lemma_roundtrip(x: InteriorPathFollowerView, v: Version, d: Seq<u8>, p: int) {
        reveal(<InteriorPathFollower as Readable>::parse);
        reveal(<InteriorPathFollower as Writable>::encode);
        let e0 = String::encode(x.name, v);
        let e1 = String::encode(x.datablock, v);
        let e2 = u32::encode(x.interior_res_index, v);
        let e3 = Point3F::encode(x.offset, v);
        let e4 = Dictionary::encode(x.properties, v);
        let e5 = Vec::<u32>::encode(x.trigger_ids, v);
        let e6 = Vec::<WayPoint>::encode(x.way_points, v);
        let e7 = u32::encode(x.total_ms, v);
        let s0 = e0;
        let s1 = s0 + e1;
        let s2 = s1 + e2;
        let s3 = s2 + e3;
        let s4 = s3 + e4;
        let s5 = s4 + e5;
        let s6 = s5 + e6;
        lemma_split(d, p, s6, e7);
        lemma_split(d, p, s5, e6);
        lemma_split(d, p, s4, e5);
        lemma_split(d, p, s3, e4);
        lemma_split(d, p, s2, e3);
        lemma_split(d, p, s1, e2);
        lemma_split(d, p, s0, e1);
        String::lemma_roundtrip(x.name, v, d, p);
        String::lemma_roundtrip(x.datablock, v, d, p + s0.len());
        u32::lemma_roundtrip(x.interior_res_index, v, d, p + s1.len());
        Point3F::lemma_roundtrip(x.offset, v, d, p + s2.len());
        Dictionary::lemma_roundtrip(x.properties, v, d, p + s3.len());
        Vec::<u32>::lemma_roundtrip(x.trigger_ids, v, d, p + s4.len());
        Vec::<WayPoint>::lemma_roundtrip(x.way_points, v, d, p + s5.len());
        u32::lemma_roundtrip(x.total_ms, v, d, p + s6.len());
    }
}

#[derive(Clone, Copy, Debug, PartialEq, Eq)]
pub struct WayPoint {
    pub position: Point3F,
    pub rotation: QuatF,
    pub ms_to_next: u32,
    pub smoothing_type: u32,
}

impl DeepView for WayPoint {
    type V = WayPoint;

    open spec fn deep_view(&self) -> WayPoint {
        *self
    }
}

impl Readable for WayPoint {
    open spec fn parse(d: Seq<u8>, c: Cursor, v: Version) -> (WayPoint, Cursor, Version) {
        let (position, c, v) = Point3F::parse(d, c, v);
        let (rotation, c, v) = QuatF::parse(d, c, v);
        let (ms_to_next, c, v) = u32::parse(d, c, v);
        let (smoothing_type, c, v) = u32::parse(d, c, v);
        (WayPoint { position, rotation, ms_to_next, smoothing_type }, c, v)
    }

    fn take(from: &mut Reader, version: &mut Version) -> (r: Self) {
        let position = Point3F::take(from, version);
        let rotation = QuatF::take(from, version);
        let ms_to_next = u32::take(from, version);
        let smoothing_type = u32::take(from, version);
        WayPoint { position, rotation, ms_to_next, smoothing_type }
    }
}

impl Writable for WayPoint {
    open spec fn writable(x: WayPoint, v: Version) -> bool {
        true
    }

    open spec fn encode(x: WayPoint, v: Version) -> Seq<u8> {
        Point3F::encode(x.position, v)
            + QuatF::encode(x.rotation, v)
            + u32::encode(x.ms_to_next, v)
            + u32::encode(x.smoothing_type, v)
    }

    fn write(&self, to: &mut Vec<u8>, version: &Version) -> (r: DifResult<()>)
        ensures
            r is Ok,
    {
        let ghost x = *self;
        let ghost v = *version;
        self.position.write(to, version)?;
        let ghost sent = Point3F::encode(x.position, v);
        self.rotation.write(to, version)?;
        proof {
            lemma_add_assoc(old(to)@, sent, QuatF::encode(x.rotation, v));
        }
        let ghost sent = sent + QuatF::encode(x.rotation, v);
        self.ms_to_next.write(to, version)?;
        proof {
            lemma_add_assoc(old(to)@, sent, u32::encode(x.ms_to_next, v));
        }
        let ghost sent = sent + u32::encode(x.ms_to_next, v);
        self.smoothing_type.write(to, version)?;
        proof {
            lemma_add_assoc(old(to)@, sent, u32::encode(x.smoothing_type, v));
        }
        Ok(())
    }
}

impl RoundTrip for WayPoint {
    open spec fn wire_ok(x: WayPoint, v: Version) -> bool {
        &&& Point3F::wire_ok(x.position, v)
        &&& QuatF::wire_ok(x.rotation, v)
        &&& u32::wire_ok(x.ms_to_next, v)
        &&& u32::wire_ok(x.smoothing_type, v)
    }

    proof fn lemma_roundtrip(x: WayPoint, v: Version, d: Seq<u8>, p: int) {
        let e0 = Point3F::encode(x.position, v);
        let e1 = QuatF::encode(x.rotation, v);
        let e2 = u32::encode(x.ms_to_next, v);
        let e3 = u32::encode(x.smoothing_type, v);
        let s0 = e0;
        let s1 = s0 + e1;
        let s2 = s1 + e2;
        lemma_split(d, p, s2, e3);
        lemma_split(d, p, s1, e2);
        lemma_split(d, p, s0, e1);
        Point3F::lemma_roundtrip(x.position, v, d, p);
        QuatF::lemma_roundtrip(x.rotation, v, d, p + s0.len());
        u32::lemma_roundtrip(x.ms_to_next, v, d, p + s1.len());
        u32::lemma_roundtrip(x.smoothing_type, v, d, p + s2.len());
    }
}

} // verus!
