use vstd::prelude::*;
use vstd::slice::{slice_subrange, slice_to_vec};
pub use crate::errors::{DifError, DifErrorKind, DifResult};
use crate::roundtrip::{lemma_split, stands_at, RoundTrip};
use crate::io::{
    count_of, lemma_add_assoc, lemma_add_empty, list_count, write_bytes, Cursor, Readable, Reader,
    Version, Writable,
};

verus! {

/// A 32-bit IEEE-754 number, held by its bits. Two values are equal when
/// their bits are.
#[derive(Clone, Copy, Debug, PartialEq, Eq, Hash)]
pub struct F32 {
    pub bits: u32,
}

impl F32 {
    pub fn from_bits(bits: u32) -> (r: F32)
        ensures
            r.bits == bits,
    {
        F32 { bits }
    }

    pub fn to_bits(self) -> (r: u32)
        ensures
            r == self.bits,
    {
        self.bits
    }
}

impl DeepView for F32 {
    type V = F32;

    open spec fn deep_view(&self) -> F32 {
        *self
    }
}

impl Readable for F32 {
    open spec fn parse(d: Seq<u8>, c: Cursor, v: Version) -> (F32, Cursor, Version) {
        let (bits, c, v) = u32::parse(d, c, v);
        (F32 { bits }, c, v)
    }

    fn take(from: &mut Reader, version: &mut Version) -> (r: Self) {
        let bits = u32::take(from, version);
        F32 { bits }
    }
}

impl RoundTrip for F32 {
    open spec fn wire_ok(x: F32, v: Version) -> bool {
        true
    }

    proof fn lemma_roundtrip(x: F32, v: Version, d: Seq<u8>, p: int) {
        u32::lemma_roundtrip(x.bits, v, d, p);
    }
}

impl Writable for F32 {
    open spec fn writable(x: F32, v: Version) -> bool {
        true
    }

    open spec fn encode(x: F32, v: Version) -> Seq<u8> {
        u32::encode(x.bits, v)
    }

    fn write(&self, to: &mut Vec<u8>, version: &Version) -> (r: DifResult<()>)
        ensures
            r is Ok,
    {
        self.bits.write(to, version)
    }
}

#[derive(Clone, Copy, Debug, PartialEq, Eq)]
pub struct Point2F {
    pub x: F32,
    pub y: F32,
}

impl DeepView for Point2F {
    type V = Point2F;

    open spec fn deep_view(&self) -> Point2F {
        *self
    }
}

impl Readable for Point2F {
    open spec fn parse(d: Seq<u8>, c: Cursor, v: Version) -> (Point2F, Cursor, Version) {
        let (x, c, v) = F32::parse(d, c, v);
        let (y, c, v) = F32::parse(d, c, v);
        (Point2F { x, y }, c, v)
    }

    fn take(from: &mut Reader, version: &mut Version) -> (r: Self) {
        let x = F32::take(from, version);
        let y = F32::take(from, version);
        Point2F { x, y }
    }
}

impl Writable for Point2F {
    open spec fn writable(x: Point2F, v: Version) -> bool {
        true
    }

    open spec fn encode(x: Point2F, v: Version) -> Seq<u8> {
        F32::encode(x.x, v)
            + F32::encode(x.y, v)
    }

    fn write(&self, to: &mut Vec<u8>, version: &Version) -> (r: DifResult<()>)
        ensures
            r is Ok,
    {
        let ghost x = *self;
        let ghost v = *version;
        self.x.write(to, version)?;
        let ghost sent = F32::encode(x.x, v);
        self.y.write(to, version)?;
        proof {
            lemma_add_assoc(old(to)@, sent, F32::encode(x.y, v));
        }
        Ok(())
    }
}

impl RoundTrip for Point2F {
    open spec fn wire_ok(x: Point2F, v: Version) -> bool {
        &&& F32::wire_ok(x.x, v)
        &&& F32::wire_ok(x.y, v)
    }

    proof fn lemma_roundtrip(x: Point2F, v: Version, d: Seq<u8>, p: int) {
        let e0 = F32::encode(x.x, v);
        let e1 = F32::encode(x.y, v);
        let s0 = e0;
        lemma_split(d, p, s0, e1);
        F32::lemma_roundtrip(x.x, v, d, p);
        F32::lemma_roundtrip(x.y, v, d, p + s0.len());
    }
}

#[derive(Clone, Copy, Debug, PartialEq, Eq)]
pub struct Point2I {
    pub x: i32,
    pub y: i32,
}

impl DeepView for Point2I {
    type V = Point2I;

    open spec fn deep_view(&self) -> Point2I {
        *self
    }
}

impl Readable for Point2I {
    open spec fn parse(d: Seq<u8>, c: Cursor, v: Version) -> (Point2I, Cursor, Version) {
        let (x, c, v) = i32::parse(d, c, v);
        let (y, c, v) = i32::parse(d, c, v);
        (Point2I { x, y }, c, v)
    }

    fn take(from: &mut Reader, version: &mut Version) -> (r: Self) {
        let x = i32::take(from, version);
        let y = i32::take(from, version);
        Point2I { x, y }
    }
}

impl Writable for Point2I {
    open spec fn writable(x: Point2I, v: Version) -> bool {
        true
    }

    open spec fn encode(x: Point2I, v: Version) -> Seq<u8> {
        i32::encode(x.x, v)
            + i32::encode(x.y, v)
    }

    fn write(&self, to: &mut Vec<u8>, version: &Version) -> (r: DifResult<()>)
        ensures
            r is Ok,
    {
        let ghost x = *self;
        let ghost v = *version;
        self.x.write(to, version)?;
        let ghost sent = i32::encode(x.x, v);
        self.y.write(to, version)?;
        proof {
            lemma_add_assoc(old(to)@, sent, i32::encode(x.y, v));
        }
        Ok(())
    }
}

impl RoundTrip for Point2I {
    open spec fn wire_ok(x: Point2I, v: Version) -> bool {
        &&& i32::wire_ok(x.x, v)
        &&& i32::wire_ok(x.y, v)
    }

    proof fn lemma_roundtrip(x: Point2I, v: Version, d: Seq<u8>, p: int) {
        let e0 = i32::encode(x.x, v);
        let e1 = i32::encode(x.y, v);
        let s0 = e0;
        lemma_split(d, p, s0, e1);
        i32::lemma_roundtrip(x.x, v, d, p);
        i32::lemma_roundtrip(x.y, v, d, p + s0.len());
    }
}

#[derive(Clone, Copy, Debug, PartialEq, Eq)]
pub struct Point3F {
    pub x: F32,
    pub y: F32,
    pub z: F32,
}

impl DeepView for Point3F {
    type V = Point3F;

    open spec fn deep_view(&self) -> Point3F {
        *self
    }
}

impl Readable for Point3F {
    open spec fn parse(d: Seq<u8>, c: Cursor, v: Version) -> (Point3F, Cursor, Version) {
        let (x, c, v) = F32::parse(d, c, v);
        let (y, c, v) = F32::parse(d, c, v);
        let (z, c, v) = F32::parse(d, c, v);
        (Point3F { x, y, z }, c, v)
    }

    fn take(from: &mut Reader, version: &mut Version) -> (r: Self) {
        let x = F32::take(from, version);
        let y = F32::take(from, version);
        let z = F32::take(from, version);
        Point3F { x, y, z }
    }
}

impl Writable for Point3F {
    open spec fn writable(x: Point3F, v: Version) -> bool {
        true
    }

    open spec fn encode(x: Point3F, v: Version) -> Seq<u8> {
        F32::encode(x.x, v)
            + F32::encode(x.y, v)
            + F32::encode(x.z, v)
    }

    fn write(&self, to: &mut Vec<u8>, version: &Version) -> (r: DifResult<()>)
        ensures
            r is Ok,
    {
        let ghost x = *self;
        let ghost v = *version;
        self.x.write(to, version)?;
        let ghost sent = F32::encode(x.x, v);
        self.y.write(to, version)?;
        proof {
            lemma_add_assoc(old(to)@, sent, F32::encode(x.y, v));
        }
        let ghost sent = sent + F32::encode(x.y, v);
        self.z.write(to, version)?;
        proof {
            lemma_add_assoc(old(to)@, sent, F32::encode(x.z, v));
        }
        Ok(())
    }
}

impl RoundTrip for Point3F {
    open spec fn wire_ok(x: Point3F, v: Version) -> bool {
        &&& F32::wire_ok(x.x, v)
        &&& F32::wire_ok(x.y, v)
        &&& F32::wire_ok(x.z, v)
    }

    proof fn lemma_roundtrip(x: Point3F, v: Version, d: Seq<u8>, p: int) {
        let e0 = F32::encode(x.x, v);
        let e1 = F32::encode(x.y, v);
        let e2 = F32::encode(x.z, v);
        let s0 = e0;
        let s1 = s0 + e1;
        lemma_split(d, p, s1, e2);
        lemma_split(d, p, s0, e1);
        F32::lemma_roundtrip(x.x, v, d, p);
        F32::lemma_roundtrip(x.y, v, d, p + s0.len());
        F32::lemma_roundtrip(x.z, v, d, p + s1.len());
    }
}

impl Point3F {
    /// The point whose coordinates are all +0.
    pub open spec fn spec_zero() -> Point3F {
        Point3F { x: F32 { bits: 0 }, y: F32 { bits: 0 }, z: F32 { bits: 0 } }
    }

    #[verifier::when_used_as_spec(spec_zero)]
    pub fn zero() -> (r: Point3F)
        ensures
            r == Self::spec_zero(),
    {
        Point3F { x: F32 { bits: 0 }, y: F32 { bits: 0 }, z: F32 { bits: 0 } }
    }
}

#[derive(Clone, Copy, Debug, PartialEq, Eq)]
pub struct Point4F {
    pub x: F32,
    pub y: F32,
    pub z: F32,
    pub w: F32,
}

impl DeepView for Point4F {
    type V = Point4F;

    open spec fn deep_view(&self) -> Point4F {
        *self
    }
}

impl Readable for Point4F {
    open spec fn parse(d: Seq<u8>, c: Cursor, v: Version) -> (Point4F, Cursor, Version) {
        let (x, c, v) = F32::parse(d, c, v);
        let (y, c, v) = F32::parse(d, c, v);
        let (z, c, v) = F32::parse(d, c, v);
        let (w, c, v) = F32::parse(d, c, v);
        (Point4F { x, y, z, w }, c, v)
    }

    fn take(from: &mut Reader, version: &mut Version) -> (r: Self) {
        let x = F32::take(from, version);
        let y = F32::take(from, version);
        let z = F32::take(from, version);
        let w = F32::take(from, version);
        Point4F { x, y, z, w }
    }
}

impl Writable for Point4F {
    open spec fn writable(x: Point4F, v: Version) -> bool {
        true
    }

    open spec fn encode(x: Point4F, v: Version) -> Seq<u8> {
        F32::encode(x.x, v)
            + F32::encode(x.y, v)
            + F32::encode(x.z, v)
            + F32::encode(x.w, v)
    }

    fn write(&self, to: &mut Vec<u8>, version: &Version) -> (r: DifResult<()>)
        ensures
            r is Ok,
    {
        let ghost x = *self;
        let ghost v = *version;
        self.x.write(to, version)?;
        let ghost sent = F32::encode(x.x, v);
        self.y.write(to, version)?;
        proof {
            lemma_add_assoc(old(to)@, sent, F32::encode(x.y, v));
        }
        let ghost sent = sent + F32::encode(x.y, v);
        self.z.write(to, version)?;
        proof {
            lemma_add_assoc(old(to)@, sent, F32::encode(x.z, v));
        }
        let ghost sent = sent + F32::encode(x.z, v);
        self.w.write(to, version)?;
        proof {
            lemma_add_assoc(old(to)@, sent, F32::encode(x.w, v));
        }
        Ok(())
    }
}

impl RoundTrip for Point4F {
    open spec fn wire_ok(x: Point4F, v: Version) -> bool {
        &&& F32::wire_ok(x.x, v)
        &&& F32::wire_ok(x.y, v)
        &&& F32::wire_ok(x.z, v)
        &&& F32::wire_ok(x.w, v)
    }

    proof fn lemma_roundtrip(x: Point4F, v: Version, d: Seq<u8>, p: int) {
        let e0 = F32::encode(x.x, v);
        let e1 = F32::encode(x.y, v);
        let e2 = F32::encode(x.z, v);
        let e3 = F32::encode(x.w, v);
        let s0 = e0;
        let s1 = s0 + e1;
        let s2 = s1 + e2;
        lemma_split(d, p, s2, e3);
        lemma_split(d, p, s1, e2);
        lemma_split(d, p, s0, e1);
        F32::lemma_roundtrip(x.x, v, d, p);
        F32::lemma_roundtrip(x.y, v, d, p + s0.len());
        F32::lemma_roundtrip(x.z, v, d, p + s1.len());
        F32::lemma_roundtrip(x.w, v, d, p + s2.len());
    }
}

/// An axis-aligned box.
#[derive(Clone, Copy, Debug, PartialEq, Eq)]
pub struct BoxF {
    pub min: Point3F,
    pub max: Point3F,
}

impl DeepView for BoxF {
    type V = BoxF;

    open spec fn deep_view(&self) -> BoxF {
        *self
    }
}

impl Readable for BoxF {
    open spec fn parse(d: Seq<u8>, c: Cursor, v: Version) -> (BoxF, Cursor, Version) {
        let (min, c, v) = Point3F::parse(d, c, v);
        let (max, c, v) = Point3F::parse(d, c, v);
        (BoxF { min, max }, c, v)
    }

    fn take(from: &mut Reader, version: &mut Version) -> (r: Self) {
        let min = Point3F::take(from, version);
        let max = Point3F::take(from, version);
        BoxF { min, max }
    }
}

impl Writable for BoxF {
    open spec fn writable(x: BoxF, v: Version) -> bool {
        true
    }

    open spec fn encode(x: BoxF, v: Version) -> Seq<u8> {
        Point3F::encode(x.min, v)
            + Point3F::encode(x.max, v)
    }

    fn write(&self, to: &mut Vec<u8>, version: &Version) -> (r: DifResult<()>)
        ensures
            r is Ok,
    {
        let ghost x = *self;
        let ghost v = *version;
        self.min.write(to, version)?;
        let ghost sent = Point3F::encode(x.min, v);
        self.max.write(to, version)?;
        proof {
            lemma_add_assoc(old(to)@, sent, Point3F::encode(x.max, v));
        }
        Ok(())
    }
}

impl RoundTrip for BoxF {
    open spec fn wire_ok(x: BoxF, v: Version) -> bool {
        &&& Point3F::wire_ok(x.min, v)
        &&& Point3F::wire_ok(x.max, v)
    }

    proof fn lemma_roundtrip(x: BoxF, v: Version, d: Seq<u8>, p: int) {
        let e0 = Point3F::encode(x.min, v);
        let e1 = Point3F::encode(x.max, v);
        let s0 = e0;
        lemma_split(d, p, s0, e1);
        Point3F::lemma_roundtrip(x.min, v, d, p);
        Point3F::lemma_roundtrip(x.max, v, d, p + s0.len());
    }
}

#[derive(Clone, Copy, Debug, PartialEq, Eq)]
pub struct SphereF {
    pub origin: Point3F,
    pub radius: F32,
}

impl DeepView for SphereF {
    type V = SphereF;

    open spec fn deep_view(&self) -> SphereF {
        *self
    }
}

impl Readable for SphereF {
    open spec fn parse(d: Seq<u8>, c: Cursor, v: Version) -> (SphereF, Cursor, Version) {
        let (origin, c, v) = Point3F::parse(d, c, v);
        let (radius, c, v) = F32::parse(d, c, v);
        (SphereF { origin, radius }, c, v)
    }

    fn take(from: &mut Reader, version: &mut Version) -> (r: Self) {
        let origin = Point3F::take(from, version);
        let radius = F32::take(from, version);
        SphereF { origin, radius }
    }
}

impl Writable for SphereF {
    open spec fn writable(x: SphereF, v: Version) -> bool {
        true
    }

    open spec fn encode(x: SphereF, v: Version) -> Seq<u8> {
        Point3F::encode(x.origin, v)
            + F32::encode(x.radius, v)
    }

    fn write(&self, to: &mut Vec<u8>, version: &Version) -> (r: DifResult<()>)
        ensures
            r is Ok,
    {
        let ghost x = *self;
        let ghost v = *version;
        self.origin.write(to, version)?;
        let ghost sent = Point3F::encode(x.origin, v);
        self.radius.write(to, version)?;
        proof {
            lemma_add_assoc(old(to)@, sent, F32::encode(x.radius, v));
        }
        Ok(())
    }
}

impl RoundTrip for SphereF {
    open spec fn wire_ok(x: SphereF, v: Version) -> bool {
        &&& Point3F::wire_ok(x.origin, v)
        &&& F32::wire_ok(x.radius, v)
    }

    proof fn lemma_roundtrip(x: SphereF, v: Version, d: Seq<u8>, p: int) {
        let e0 = Point3F::encode(x.origin, v);
        let e1 = F32::encode(x.radius, v);
        let s0 = e0;
        lemma_split(d, p, s0, e1);
        Point3F::lemma_roundtrip(x.origin, v, d, p);
        F32::lemma_roundtrip(x.radius, v, d, p + s0.len());
    }
}

/// The plane of the points `p` with `dot(normal, p) + distance = 0`.
#[derive(Clone, Copy, Debug, PartialEq, Eq)]
pub struct PlaneF {
    pub normal: Point3F,
    pub distance: F32,
}

impl DeepView for PlaneF {
    type V = PlaneF;

    open spec fn deep_view(&self) -> PlaneF {
        *self
    }
}

impl Readable for PlaneF {
    open spec fn parse(d: Seq<u8>, c: Cursor, v: Version) -> (PlaneF, Cursor, Version) {
        let (normal, c, v) = Point3F::parse(d, c, v);
        let (distance, c, v) = F32::parse(d, c, v);
        (PlaneF { normal, distance }, c, v)
    }

    fn take(from: &mut Reader, version: &mut Version) -> (r: Self) {
        let normal = Point3F::take(from, version);
        let distance = F32::take(from, version);
        PlaneF { normal, distance }
    }
}

impl Writable for PlaneF {
    open spec fn writable(x: PlaneF, v: Version) -> bool {
        true
    }

    open spec fn encode(x: PlaneF, v: Version) -> Seq<u8> {
        Point3F::encode(x.normal, v)
            + F32::encode(x.distance, v)
    }

    fn write(&self, to: &mut Vec<u8>, version: &Version) -> (r: DifResult<()>)
        ensures
            r is Ok,
    {
        let ghost x = *self;
        let ghost v = *version;
        self.normal.write(to, version)?;
        let ghost sent = Point3F::encode(x.normal, v);
        self.distance.write(to, version)?;
        proof {
            lemma_add_assoc(old(to)@, sent, F32::encode(x.distance, v));
        }
        Ok(())
    }
}

impl RoundTrip for PlaneF {
    open spec fn wire_ok(x: PlaneF, v: Version) -> bool {
        &&& Point3F::wire_ok(x.normal, v)
        &&& F32::wire_ok(x.distance, v)
    }

    proof fn lemma_roundtrip(x: PlaneF, v: Version, d: Seq<u8>, p: int) {
        let e0 = Point3F::encode(x.normal, v);
        let e1 = F32::encode(x.distance, v);
        let s0 = e0;
        lemma_split(d, p, s0, e1);
        Point3F::lemma_roundtrip(x.normal, v, d, p);
        F32::lemma_roundtrip(x.distance, v, d, p + s0.len());
    }
}

#[derive(Clone, Copy, Debug, PartialEq, Eq)]
pub struct QuatF {
    pub s: F32,
    pub v: Point3F,
}

impl DeepView for QuatF {
    type V = QuatF;

    open spec fn deep_view(&self) -> QuatF {
        *self
    }
}

impl Readable for QuatF {
    open spec fn parse(d: Seq<u8>, c: Cursor, v: Version) -> (QuatF, Cursor, Version) {
        let (data, cur, ver) = (d, c, v);
        let (s, cur, ver) = F32::parse(data, cur, ver);
        let (v, cur, ver) = Point3F::parse(data, cur, ver);
        (QuatF { s, v }, cur, ver)
    }

    fn take(from: &mut Reader, version: &mut Version) -> (r: Self) {
        let s = F32::take(from, version);
        let v = Point3F::take(from, version);
        QuatF { s, v }
    }
}

impl Writable for QuatF {
    open spec fn writable(x: QuatF, v: Version) -> bool {
        true
    }

    open spec fn encode(x: QuatF, v: Version) -> Seq<u8> {
        F32::encode(x.s, v)
            + Point3F::encode(x.v, v)
    }

    fn write(&self, to: &mut Vec<u8>, version: &Version) -> (r: DifResult<()>)
        ensures
            r is Ok,
    {
        let ghost x = *self;
        let ghost v = *version;
        self.s.write(to, version)?;
        let ghost sent = F32::encode(x.s, v);
        self.v.write(to, version)?;
        proof {
            lemma_add_assoc(old(to)@, sent, Point3F::encode(x.v, v));
        }
        Ok(())
    }
}

impl RoundTrip for QuatF {
    open spec fn wire_ok(x: QuatF, v: Version) -> bool {
        &&& F32::wire_ok(x.s, v)
        &&& Point3F::wire_ok(x.v, v)
    }

    proof fn lemma_roundtrip(x: QuatF, v: Version, d: Seq<u8>, p: int) {
        let e0 = F32::encode(x.s, v);
        let e1 = Point3F::encode(x.v, v);
        let s0 = e0;
        lemma_split(d, p, s0, e1);
        F32::lemma_roundtrip(x.s, v, d, p);
        Point3F::lemma_roundtrip(x.v, v, d, p + s0.len());
    }
}

#[derive(Clone, Copy, Debug, PartialEq, Eq)]
pub struct ColorI {
    pub r: u8,
    pub g: u8,
    pub b: u8,
    pub a: u8,
}

impl DeepView for ColorI {
    type V = ColorI;

    open spec fn deep_view(&self) -> ColorI {
        *self
    }
}

impl Readable for ColorI {
    open spec fn parse(d: Seq<u8>, c: Cursor, v: Version) -> (ColorI, Cursor, Version) {
        let (r, c, v) = u8::parse(d, c, v);
        let (g, c, v) = u8::parse(d, c, v);
        let (b, c, v) = u8::parse(d, c, v);
        let (a, c, v) = u8::parse(d, c, v);
        (ColorI { r, g, b, a }, c, v)
    }

    fn take(from: &mut Reader, version: &mut Version) -> (r: Self) {
        let r = u8::take(from, version);
        let g = u8::take(from, version);
        let b = u8::take(from, version);
        let a = u8::take(from, version);
        ColorI { r, g, b, a }
    }
}

impl Writable for ColorI {
    open spec fn writable(x: ColorI, v: Version) -> bool {
        true
    }

    open spec fn encode(x: ColorI, v: Version) -> Seq<u8> {
        u8::encode(x.r, v)
            + u8::encode(x.g, v)
            + u8::encode(x.b, v)
            + u8::encode(x.a, v)
    }

    fn write(&self, to: &mut Vec<u8>, version: &Version) -> (r: DifResult<()>)
        ensures
            r is Ok,
    {
        let ghost x = *self;
        let ghost v = *version;
        self.r.write(to, version)?;
        let ghost sent = u8::encode(x.r, v);
        self.g.write(to, version)?;
        proof {
            lemma_add_assoc(old(to)@, sent, u8::encode(x.g, v));
        }
        let ghost sent = sent + u8::encode(x.g, v);
        self.b.write(to, version)?;
        proof {
            lemma_add_assoc(old(to)@, sent, u8::encode(x.b, v));
        }
        let ghost sent = sent + u8::encode(x.b, v);
        self.a.write(to, version)?;
        proof {
            lemma_add_assoc(old(to)@, sent, u8::encode(x.a, v));
        }
        Ok(())
    }
}

impl RoundTrip for ColorI {
    open spec fn wire_ok(x: ColorI, v: Version) -> bool {
        &&& u8::wire_ok(x.r, v)
        &&& u8::wire_ok(x.g, v)
        &&& u8::wire_ok(x.b, v)
        &&& u8::wire_ok(x.a, v)
    }

    proof fn lemma_roundtrip(x: ColorI, v: Version, d: Seq<u8>, p: int) {
        let e0 = u8::encode(x.r, v);
        let e1 = u8::encode(x.g, v);
        let e2 = u8::encode(x.b, v);
        let e3 = u8::encode(x.a, v);
        let s0 = e0;
        let s1 = s0 + e1;
        let s2 = s1 + e2;
        lemma_split(d, p, s2, e3);
        lemma_split(d, p, s1, e2);
        lemma_split(d, p, s0, e1);
        u8::lemma_roundtrip(x.r, v, d, p);
        u8::lemma_roundtrip(x.g, v, d, p + s0.len());
        u8::lemma_roundtrip(x.b, v, d, p + s1.len());
        u8::lemma_roundtrip(x.a, v, d, p + s2.len());
    }
}

/// A mapping from names to values, held as a list of pairs in which no name
/// occurs twice. The order of the pairs is the order in which the names
/// were first put in, and is the order on the wire.
#[derive(Clone, Debug, PartialEq, Eq)]
pub struct Dictionary {
    pub entries: Vec<(String, String)>,
}

/// The index of the pair of `entries` with name `key`, the last one if
/// there are several.
pub open spec fn dict_find(entries: Seq<(Seq<char>, Seq<char>)>, key: Seq<char>) -> Option<int>
    decreases entries.len(),
{
    if entries.len() == 0 {
        None
    } else if entries.last().0 == key {
        Some(entries.len() - 1)
    } else {
        dict_find(entries.drop_last(), key)
    }
}

/// The pairs with `key` set to `value`: in place where the name is there,
/// at the end where it is not.
pub open spec fn dict_put(
    entries: Seq<(Seq<char>, Seq<char>)>,
    key: Seq<char>,
    value: Seq<char>,
) -> Seq<(Seq<char>, Seq<char>)> {
    match dict_find(entries, key) {
        Some(i) => entries.update(i, (key, value)),
        None => entries.push((key, value)),
    }
}

/// No name occurs twice.
pub open spec fn dict_distinct(entries: Seq<(Seq<char>, Seq<char>)>) -> bool {
    forall|i: int, j: int|
        0 <= i < j < entries.len() ==> (#[trigger] entries[i]).0 != (#[trigger] entries[j]).0
}

/// What `dict_find` finds is a pair with that name, and where it finds
/// none, no pair has the name.
pub proof fn lemma_dict_find(entries: Seq<(Seq<char>, Seq<char>)>, key: Seq<char>)
    ensures
        match dict_find(entries, key) {
            Some(i) => 0 <= i < entries.len() && entries[i].0 == key,
            None => forall|j: int| 0 <= j < entries.len() ==> (#[trigger] entries[j]).0 != key,
        },
    decreases entries.len(),
{
    if entries.len() > 0 && entries.last().0 != key {
        let rest = entries.drop_last();
        lemma_dict_find(rest, key);
        if dict_find(rest, key) is None {
            assert forall|j: int| 0 <= j < entries.len() implies (#[trigger] entries[j]).0
                != key by {
                if j < rest.len() {
                    assert(rest[j] == entries[j]);
                }
            }
        } else {
            assert(rest[dict_find(rest, key).unwrap()] == entries[dict_find(rest, key).unwrap()]);
        }
    }
}

/// Putting a name keeps the names distinct, and afterwards the name has
/// the value put.
pub proof fn lemma_dict_put(entries: Seq<(Seq<char>, Seq<char>)>, key: Seq<char>, value: Seq<char>)
    requires
        dict_distinct(entries),
    ensures
        dict_distinct(dict_put(entries, key, value)),
        match dict_find(dict_put(entries, key, value), key) {
            Some(i) => dict_put(entries, key, value)[i] == (key, value),
            None => false,
        },
{
    lemma_dict_find(entries, key);
    let after = dict_put(entries, key, value);
    lemma_dict_find(after, key);
    match dict_find(entries, key) {
        Some(i) => {
            assert(after[i].0 == key);
        },
        None => {
            assert(after[entries.len() as int].0 == key);
        },
    }
    match dict_find(after, key) {
        Some(k) => {
            match dict_find(entries, key) {
                Some(i) => {
                    if k != i {
                        if k < i {
                            assert(after[k].0 != after[i].0);
                        } else {
                            assert(after[i].0 != after[k].0);
                        }
                    }
                },
                None => {
                    if k != entries.len() {
                        assert(entries[k].0 != key);
                    }
                },
            }
        },
        None => {},
    }
}

impl DeepView for Dictionary {
    type V = Seq<(Seq<char>, Seq<char>)>;

    open spec fn deep_view(&self) -> Seq<(Seq<char>, Seq<char>)> {
        self.entries.deep_view()
    }
}

impl Dictionary {
    /// No name occurs twice.
    pub open spec fn wf(&self) -> bool {
        dict_distinct(self.deep_view())
    }

    pub fn new() -> (r: Dictionary)
        ensures
            r.deep_view() == Seq::<(Seq<char>, Seq<char>)>::empty(),
            r.wf(),
    {
        let r = Dictionary { entries: Vec::new() };
        assert(r.deep_view() =~= Seq::<(Seq<char>, Seq<char>)>::empty());
        r
    }

    pub fn len(&self) -> (n: usize)
        ensures
            n == self.deep_view().len(),
    {
        self.entries.len()
    }

    /// The place of `key` among the pairs.
    pub fn find(&self, key: &String) -> (r: Option<usize>)
        ensures
            match r {
                Some(i) => dict_find(self.deep_view(), key@) == Some(i as int) && i
                    < self.entries.len(),
                None => dict_find(self.deep_view(), key@) is None,
            },
    {
        let ghost es = self.deep_view();
        let mut i: usize = self.entries.len();
        assert(es.take(i as int) =~= es);
        while i > 0
            invariant
                i <= self.entries.len(),
                es == self.deep_view(),
                dict_find(es, key@) == dict_find(es.take(i as int), key@),
            decreases i,
        {
            assert(es.take(i as int).last() == es[i - 1]);
            assert(es.take(i as int).drop_last() =~= es.take(i - 1));
            if self.entries[i - 1].0 == *key {
                return Some(i - 1);
            }
            i = i - 1;
        }
        assert(es.take(0).len() == 0);
        None
    }

    /// The value of `key`, if it has one.
    pub fn get(&self, key: &String) -> (r: Option<&String>)
        ensures
            match r {
                Some(value) => match dict_find(self.deep_view(), key@) {
                    Some(i) => self.deep_view()[i].1 == value@,
                    None => false,
                },
                None => dict_find(self.deep_view(), key@) is None,
            },
    {
        match self.find(key) {
            Some(i) => Some(&self.entries[i].1),
            None => None,
        }
    }

    /// Sets `key` to `value`.
    pub fn insert(&mut self, key: String, value: String)
        ensures
            final(self).deep_view() == dict_put(old(self).deep_view(), key@, value@),
            old(self).wf() ==> final(self).wf(),
    {
        let ghost before = self.deep_view();
        proof {
            if dict_distinct(before) {
                lemma_dict_put(before, key@, value@);
            }
        }
        match self.find(&key) {
            Some(i) => {
                self.entries[i] = (key, value);
                assert(self.deep_view() =~= before.update(i as int, (key@, value@)));
            },
            None => {
                self.entries.push((key, value));
                assert(self.deep_view() =~= before.push((key@, value@)));
            },
        }
    }
}

/// The first `n` pairs from cursor `c` on, put one after the other into
/// an empty dictionary.
#[verifier::opaque]
pub open spec fn parse_dict_items(d: Seq<u8>, c: Cursor, v: Version, n: nat) -> (
    Seq<(Seq<char>, Seq<char>)>,
    Cursor,
)
    decreases n,
{
    if n == 0 {
        (Seq::empty(), c)
    } else {
        let (es, c1) = parse_dict_items(d, c, v, (n - 1) as nat);
        let (key, c2, _) = String::parse(d, c1, v);
        let (value, c3, _) = String::parse(d, c2, v);
        if c3.ok() {
            (dict_put(es, key, value), c3)
        } else {
            (es, c3)
        }
    }
}

pub proof fn lemma_parse_dict_items_failed(d: Seq<u8>, c: Cursor, v: Version, k: nat, n: nat)
    requires
        k <= n,
        !parse_dict_items(d, c, v, k).1.ok(),
    ensures
        parse_dict_items(d, c, v, n) == parse_dict_items(d, c, v, k),
    decreases n,
{
    reveal_with_fuel(parse_dict_items, 2);
    if k < n {
        lemma_parse_dict_items_failed(d, c, v, k, (n - 1) as nat);
    }
}

/// What is read has no name twice.
pub proof fn lemma_parse_dict_items_distinct(d: Seq<u8>, c: Cursor, v: Version, n: nat)
    ensures
        dict_distinct(parse_dict_items(d, c, v, n).0),
    decreases n,
{
    reveal_with_fuel(parse_dict_items, 2);
    if n > 0 {
        lemma_parse_dict_items_distinct(d, c, v, (n - 1) as nat);
        let (es, c1) = parse_dict_items(d, c, v, (n - 1) as nat);
        let (key, c2, _) = String::parse(d, c1, v);
        let (value, c3, _) = String::parse(d, c2, v);
        lemma_dict_put(es, key, value);
    }
}

impl Readable for Dictionary {
    /// A count of 32 bits, then that many pairs of strings. Of two pairs
    /// with one name the later one gives the value.
    open spec fn parse(d: Seq<u8>, c: Cursor, v: Version) -> (
        Seq<(Seq<char>, Seq<char>)>,
        Cursor,
        Version,
    ) {
        let (count, c1, _) = u32::parse(d, c, v);
        let (es, c2) = parse_dict_items(d, c1, v, count as nat);
        (es, c2, v)
    }

    fn take(from: &mut Reader, version: &mut Version) -> (r: Self)
        ensures
            r.wf(),
    {
        let count = u32::take(from, version);
        let ghost d = from.data@;
        let ghost c0 = from.cursor();
        let ghost v0 = *version;
        let mut result = Dictionary::new();
        let mut i: u32 = 0;
        reveal_with_fuel(parse_dict_items, 2);
        while i < count && from.ok()
            invariant
                i <= count,
                from.wf(),
                from.data@ == d,
                *version == v0,
                parse_dict_items(d, c0, v0, i as nat) == (result.deep_view(), from.cursor()),
            decreases count - i,
        {
            reveal_with_fuel(parse_dict_items, 2);
            let key = String::take(from, version);
            let value = String::take(from, version);
            if from.ok() {
                result.insert(key, value);
            }
            i = i + 1;
        }
        proof {
            if i < count {
                lemma_parse_dict_items_failed(d, c0, v0, i as nat, count as nat);
            }
            lemma_parse_dict_items_distinct(d, c0, v0, count as nat);
        }
        result
    }
}

/// The wire forms of the pairs, one after the other.
pub open spec fn encode_dict_items(es: Seq<(Seq<char>, Seq<char>)>, v: Version) -> Seq<u8>
    decreases es.len(),
{
    if es.len() == 0 {
        Seq::empty()
    } else {
        encode_dict_items(es.drop_last(), v) + String::encode(es.last().0, v) + String::encode(
            es.last().1,
            v,
        )
    }
}

impl Writable for Dictionary {
    open spec fn writable(x: Seq<(Seq<char>, Seq<char>)>, v: Version) -> bool {
        true
    }

    /// The count, then the pairs in their order.
    open spec fn encode(x: Seq<(Seq<char>, Seq<char>)>, v: Version) -> Seq<u8> {
        u32::encode(list_count(x.len()), v) + encode_dict_items(x, v)
    }

    fn write(&self, to: &mut Vec<u8>, version: &Version) -> (r: DifResult<()>)
        ensures
            r is Ok,
    {
        let ghost es = self.deep_view();
        let n = count_of(self.entries.len());
        n.write(to, version)?;
        let ghost head = to@;
        let mut i: usize = 0;
        while i < self.entries.len()
            invariant
                i <= self.entries.len(),
                es == self.deep_view(),
                head == old(to)@ + u32::encode(list_count(es.len()), *version),
                to@ == head + encode_dict_items(es.take(i as int), *version),
            decreases self.entries.len() - i,
        {
            self.entries[i].0.write(to, version)?;
            self.entries[i].1.write(to, version)?;
            proof {
                assert(es.take(i + 1).drop_last() =~= es.take(i as int));
                assert(es.take(i + 1).last() == es[i as int]);
                assert(to@ =~= head + encode_dict_items(es.take(i + 1), *version));
            }
            i = i + 1;
        }
        assert(es.take(i as int) =~= es);
        assert(to@ =~= old(to)@ + Self::encode(es, *version));
        Ok(())
    }
}

/// Pairs that stand one behind the other are read back one by one, where
/// no name occurs twice.
pub proof fn lemma_dict_items_roundtrip(es: Seq<(Seq<char>, Seq<char>)>, v: Version, d: Seq<u8>, p: int)
    requires
        dict_distinct(es),
        forall|i: int|
            0 <= i < es.len() ==> String::wire_ok((#[trigger] es[i]).0, v) && String::wire_ok(
                es[i].1,
                v,
            ),
        stands_at(d, p, encode_dict_items(es, v)),
    ensures
        parse_dict_items(d, Cursor::at(p), v, es.len()) == (
            es,
            Cursor::at(p + encode_dict_items(es, v).len()),
        ),
    decreases es.len(),
{
    reveal_with_fuel(parse_dict_items, 2);
    reveal(stands_at);
    if es.len() == 0 {
        assert(es =~= Seq::empty());
    } else {
        let front = es.drop_last();
        let last = es.last();
        let e_front = encode_dict_items(front, v);
        let e_key = String::encode(last.0, v);
        let e_value = String::encode(last.1, v);
        lemma_split(d, p, e_front + e_key, e_value);
        lemma_split(d, p, e_front, e_key);
        assert(dict_distinct(front)) by {
            assert forall|i: int, j: int| 0 <= i < j < front.len() implies (#[trigger] front[i]).0
                != (#[trigger] front[j]).0 by {
                assert(front[i] == es[i] && front[j] == es[j]);
            }
        }
        assert forall|i: int| 0 <= i < front.len() implies String::wire_ok(
            (#[trigger] front[i]).0,
            v,
        ) && String::wire_ok(front[i].1, v) by {
            assert(front[i] == es[i]);
        }
        lemma_dict_items_roundtrip(front, v, d, p);
        String::lemma_roundtrip(last.0, v, d, p + e_front.len());
        String::lemma_roundtrip(last.1, v, d, p + e_front.len() + e_key.len());
        lemma_dict_find(front, last.0);
        assert(dict_find(front, last.0) is None) by {
            if dict_find(front, last.0) is Some {
                let i = dict_find(front, last.0).unwrap();
                assert(front[i] == es[i]);
                assert(es[i].0 != es[es.len() - 1].0);
            }
        }
        assert(front.push(last) =~= es);
    }
}

impl RoundTrip for Dictionary {
    /// Fewer than 2^32 pairs, no name twice, and each string at most 255
    /// bytes long.
    open spec fn wire_ok(x: Seq<(Seq<char>, Seq<char>)>, v: Version) -> bool {
        &&& x.len() <= 0xFFFF_FFFF
        &&& dict_distinct(x)
        &&& forall|i: int|
            0 <= i < x.len() ==> String::wire_ok((#[trigger] x[i]).0, v) && String::wire_ok(
                x[i].1,
                v,
            )
    }

    proof fn lemma_roundtrip(x: Seq<(Seq<char>, Seq<char>)>, v: Version, d: Seq<u8>, p: int) {
        let head = u32::encode(list_count(x.len()), v);
        lemma_split(d, p, head, encode_dict_items(x, v));
        u32::lemma_roundtrip(list_count(x.len()), v, d, p);
        lemma_dict_items_roundtrip(x, v, d, p + head.len());
    }
}

/// Where an image stands in `d` at `p`, a scan of `d` from inside the
/// image on ends where a scan of the image ends.
pub proof fn lemma_png_scan(d: Seq<u8>, p: int, x: Seq<u8>, e: int)
    requires
        stands_at(d, p, x),
        0 <= e <= x.len(),
        png_end(x, 0, e) is Some,
    ensures
        png_end(d, p, p + e) == Some(p + png_end(x, 0, e).unwrap()),
    decreases x.len() - e,
{
    reveal(stands_at);
    assert(footer_before(d, p, p + e) == footer_before(x, 0, e)) by {
        if 8 <= e {
            assert(d.subrange(p + e - 8, p + e) =~= d.subrange(p, p + x.len()).subrange(e - 8, e));
        }
    }
    if !footer_before(x, 0, e) {
        lemma_png_scan(d, p, x, e + 1);
    }
}

impl RoundTrip for PNG {
    /// The bytes end with the closing chunk of a PNG, and hold it nowhere
    /// before their end.
    open spec fn wire_ok(x: Seq<u8>, v: Version) -> bool {
        png_end(x, 0, 0) == Some(x.len() as int)
    }

    proof fn lemma_roundtrip(x: Seq<u8>, v: Version, d: Seq<u8>, p: int) {
        reveal(stands_at);
        lemma_png_scan(d, p, x, 0);
    }
}

/// A 4x4 matrix, held by its columns `x`, `y`, `z`, `w`. On the wire it
/// stands row by row.
#[derive(Clone, Copy, Debug, PartialEq, Eq)]
pub struct MatrixF {
    pub x: Point4F,
    pub y: Point4F,
    pub z: Point4F,
    pub w: Point4F,
}

impl DeepView for MatrixF {
    type V = MatrixF;

    open spec fn deep_view(&self) -> MatrixF {
        *self
    }
}

impl Readable for MatrixF {
    open spec fn parse(d: Seq<u8>, c: Cursor, v: Version) -> (MatrixF, Cursor, Version) {
        let (r0, c, v) = Point4F::parse(d, c, v);
        let (r1, c, v) = Point4F::parse(d, c, v);
        let (r2, c, v) = Point4F::parse(d, c, v);
        let (r3, c, v) = Point4F::parse(d, c, v);
        (
            MatrixF {
                x: Point4F { x: r0.x, y: r1.x, z: r2.x, w: r3.x },
                y: Point4F { x: r0.y, y: r1.y, z: r2.y, w: r3.y },
                z: Point4F { x: r0.z, y: r1.z, z: r2.z, w: r3.z },
                w: Point4F { x: r0.w, y: r1.w, z: r2.w, w: r3.w },
            },
            c,
            v,
        )
    }

    fn take(from: &mut Reader, version: &mut Version) -> (r: Self) {
        let r0 = Point4F::take(from, version);
        let r1 = Point4F::take(from, version);
        let r2 = Point4F::take(from, version);
        let r3 = Point4F::take(from, version);
        MatrixF {
            x: Point4F { x: r0.x, y: r1.x, z: r2.x, w: r3.x },
            y: Point4F { x: r0.y, y: r1.y, z: r2.y, w: r3.y },
            z: Point4F { x: r0.z, y: r1.z, z: r2.z, w: r3.z },
            w: Point4F { x: r0.w, y: r1.w, z: r2.w, w: r3.w },
        }
    }
}

impl MatrixF {
    /// Row `i` of the matrix.
    pub open spec fn spec_row(self, i: int) -> Point4F {
        if i == 0 {
            Point4F { x: self.x.x, y: self.y.x, z: self.z.x, w: self.w.x }
        } else if i == 1 {
            Point4F { x: self.x.y, y: self.y.y, z: self.z.y, w: self.w.y }
        } else if i == 2 {
            Point4F { x: self.x.z, y: self.y.z, z: self.z.z, w: self.w.z }
        } else {
            Point4F { x: self.x.w, y: self.y.w, z: self.z.w, w: self.w.w }
        }
    }
}

impl Writable for MatrixF {
    open spec fn writable(x: MatrixF, v: Version) -> bool {
        true
    }

    open spec fn encode(x: MatrixF, v: Version) -> Seq<u8> {
        Point4F::encode(x.spec_row(0), v) + Point4F::encode(x.spec_row(1), v) + Point4F::encode(
            x.spec_row(2),
            v,
        ) + Point4F::encode(x.spec_row(3), v)
    }

    fn write(&self, to: &mut Vec<u8>, version: &Version) -> (r: DifResult<()>)
        ensures
            r is Ok,
    {
        let r0 = Point4F { x: self.x.x, y: self.y.x, z: self.z.x, w: self.w.x };
        let r1 = Point4F { x: self.x.y, y: self.y.y, z: self.z.y, w: self.w.y };
        let r2 = Point4F { x: self.x.z, y: self.y.z, z: self.z.z, w: self.w.z };
        let r3 = Point4F { x: self.x.w, y: self.y.w, z: self.z.w, w: self.w.w };
        r0.write(to, version)?;
        r1.write(to, version)?;
        r2.write(to, version)?;
        r3.write(to, version)?;
        assert(to@ =~= old(to)@ + Self::encode(*self, *version));
        Ok(())
    }
}

/// An image in PNG form: bytes that end with the closing chunk of a PNG.
#[derive(Clone, Debug, PartialEq, Eq)]
pub struct PNG {
    pub data: Vec<u8>,
}

impl DeepView for PNG {
    type V = Seq<u8>;

    open spec fn deep_view(&self) -> Seq<u8> {
        self.data@
    }
}

/// The eight bytes that end a PNG.
pub open spec fn png_footer() -> Seq<u8> {
    seq![0x49u8, 0x45u8, 0x4Eu8, 0x44u8, 0xAEu8, 0x42u8, 0x60u8, 0x82u8]
}

/// Whether the eight bytes of `d` before offset `end` are the footer, and
/// lie at or behind `start`.
pub open spec fn footer_before(d: Seq<u8>, start: int, end: int) -> bool {
    start + 8 <= end <= d.len() && d.subrange(end - 8, end) == png_footer()
}

/// The least offset from `end` on just behind a footer, if there is one.
pub open spec fn png_end(d: Seq<u8>, start: int, end: int) -> Option<int>
    decreases d.len() - end,
{
    if end > d.len() {
        None
    } else if footer_before(d, start, end) {
        Some(end)
    } else if end == d.len() {
        None
    } else {
        png_end(d, start, end + 1)
    }
}

/// An image: all bytes up to and with the first footer.
pub open spec fn parse_png(d: Seq<u8>, c: Cursor) -> (Seq<u8>, Cursor) {
    if !c.ok() || c.pos < 0 {
        (Seq::empty(), c.fail(DifErrorKind::Eof))
    } else {
        match png_end(d, c.pos, c.pos) {
            Some(end) => (d.subrange(c.pos, end), Cursor::at(end)),
            None => (Seq::empty(), c.fail(DifErrorKind::Eof)),
        }
    }
}

fn is_footer_before(data: &[u8], start: usize, end: usize) -> (b: bool)
    requires
        start <= end <= data@.len(),
    ensures
        b == footer_before(data@, start as int, end as int),
{
    if end - start < 8 {
        return false;
    }
    let b = data[end - 8] == 0x49 && data[end - 7] == 0x45 && data[end - 6] == 0x4E && data[end - 5]
        == 0x44 && data[end - 4] == 0xAE && data[end - 3] == 0x42 && data[end - 2] == 0x60
        && data[end - 1] == 0x82;
    proof {
        let s = data@.subrange(end - 8, end as int);
        let f = png_footer();
        assert(s.len() == 8 && f.len() == 8);
        assert(forall|i: int| 0 <= i < 8 ==> s[i] == data@[end - 8 + i]);
        if b {
            assert(s =~= f);
        } else {
            assert(s[0] == data@[end - 8] && s[1] == data@[end - 7] && s[2] == data@[end - 6]
                && s[3] == data@[end - 5] && s[4] == data@[end - 4] && s[5] == data@[end - 3]
                && s[6] == data@[end - 2] && s[7] == data@[end - 1]);
            assert(f[0] == 0x49 && f[1] == 0x45 && f[2] == 0x4E && f[3] == 0x44 && f[4] == 0xAE
                && f[5] == 0x42 && f[6] == 0x60 && f[7] == 0x82);
        }
    }
    b
}

impl Readable for PNG {
    open spec fn parse(d: Seq<u8>, c: Cursor, v: Version) -> (Seq<u8>, Cursor, Version) {
        let (data, c1) = parse_png(d, c);
        (data, c1, v)
    }

    fn take(from: &mut Reader, version: &mut Version) -> (r: Self) {
        if !from.ok() {
            return PNG { data: Vec::new() };
        }
        let start = from.pos;
        let mut end = from.pos;
        let len = from.data.len();
        loop
            invariant
                start == from.pos,
                len == from.data@.len(),
                start <= end <= len,
                from.wf(),
                *from == *old(from),
                from.cursor().ok(),
                png_end(from.data@, start as int, end as int) == png_end(
                    from.data@,
                    start as int,
                    start as int,
                ),
            decreases len - end,
        {
            if is_footer_before(from.data, start, end) {
                let data = slice_to_vec(slice_subrange(from.data, start, end));
                from.pos = end;
                return PNG { data };
            }
            if end == len {
                from.fail(DifErrorKind::Eof);
                return PNG { data: Vec::new() };
            }
            end = end + 1;
        }
    }
}

impl Writable for PNG {
    open spec fn writable(x: Seq<u8>, v: Version) -> bool {
        true
    }

    /// The bytes as they are.
    open spec fn encode(x: Seq<u8>, v: Version) -> Seq<u8> {
        x
    }

    fn write(&self, to: &mut Vec<u8>, version: &Version) -> (r: DifResult<()>)
        ensures
            r is Ok,
    {
        write_bytes(to, self.data.as_slice());
        Ok(())
    }
}

} // verus!
