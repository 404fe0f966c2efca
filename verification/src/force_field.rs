use vstd::prelude::*;
use crate::io::{lemma_add_assoc, Cursor, Readable, Reader, Version, Writable};
use crate::roundtrip::{lemma_split, RoundTrip};
use crate::types::{BoxF, ColorI, DifResult, Point3F, SphereF, F32};

verus! {

#[derive(Clone, Copy, Debug, PartialEq, Eq)]
pub struct Plane {
    pub normal_index: u32,
    pub plane_distance: F32,
}

impl DeepView for Plane {
    type V = Plane;

    open spec fn deep_view(&self) -> Plane {
        *self
    }
}

impl Readable for Plane {
    open spec fn parse(d: Seq<u8>, c: Cursor, v: Version) -> (Plane, Cursor, Version) {
        let (normal_index, c, v) = u32::parse(d, c, v);
        let (plane_distance, c, v) = F32::parse(d, c, v);
        (Plane { normal_index, plane_distance }, c, v)
    }

    fn take(from: &mut Reader, version: &mut Version) -> (r: Self) {
        let normal_index = u32::take(from, version);
        let plane_distance = F32::take(from, version);
        Plane { normal_index, plane_distance }
    }
}

impl Writable for Plane {
    open spec fn writable(x: Plane, v: Version) -> bool {
        true
    }

    open spec fn encode(x: Plane, v: Version) -> Seq<u8> {
        u32::encode(x.normal_index, v)
            + F32::encode(x.plane_distance, v)
    }

    fn write(&self, to: &mut Vec<u8>, version: &Version) -> (r: DifResult<()>)
        ensures
            r is Ok,
    {
        let ghost x = *self;
        let ghost v = *version;
        self.normal_index.write(to, version)?;
        let ghost sent = u32::encode(x.normal_index, v);
        self.plane_distance.write(to, version)?;
        proof {
            lemma_add_assoc(old(to)@, sent, F32::encode(x.plane_distance, v));
        }
        Ok(())
    }
}

impl RoundTrip for Plane {
    open spec fn wire_ok(x: Plane, v: Version) -> bool {
        &&& u32::wire_ok(x.normal_index, v)
        &&& F32::wire_ok(x.plane_distance, v)
    }

    proof fn lemma_roundtrip(x: Plane, v: Version, d: Seq<u8>, p: int) {
        let e0 = u32::encode(x.normal_index, v);
        let e1 = F32::encode(x.plane_distance, v);
        let s0 = e0;
        lemma_split(d, p, s0, e1);
        u32::lemma_roundtrip(x.normal_index, v, d, p);
        F32::lemma_roundtrip(x.plane_distance, v, d, p + s0.len());
    }
}

#[derive(Clone, Copy, Debug, PartialEq, Eq)]
pub struct BSPNode {
    pub front_index: u16,
    pub back_index: u16,
}

impl DeepView for BSPNode {
    type V = BSPNode;

    open spec fn deep_view(&self) -> BSPNode {
        *self
    }
}

impl Readable for BSPNode {
    open spec fn parse(d: Seq<u8>, c: Cursor, v: Version) -> (BSPNode, Cursor, Version) {
        let (front_index, c, v) = u16::parse(d, c, v);
        let (back_index, c, v) = u16::parse(d, c, v);
        (BSPNode { front_index, back_index }, c, v)
    }

    fn take(from: &mut Reader, version: &mut Version) -> (r: Self) {
        let front_index = u16::take(from, version);
        let back_index = u16::take(from, version);
        BSPNode { front_index, back_index }
    }
}

impl Writable for BSPNode {
    open spec fn writable(x: BSPNode, v: Version) -> bool {
        true
    }

    open spec fn encode(x: BSPNode, v: Version) -> Seq<u8> {
        u16::encode(x.front_index, v)
            + u16::encode(x.back_index, v)
    }

    fn write(&self, to: &mut Vec<u8>, version: &Version) -> (r: DifResult<()>)
        ensures
            r is Ok,
    {
        let ghost x = *self;
        let ghost v = *version;
        self.front_index.write(to, version)?;
        let ghost sent = u16::encode(x.front_index, v);
        self.back_index.write(to, version)?;
        proof {
            lemma_add_assoc(old(to)@, sent, u16::encode(x.back_index, v));
        }
        Ok(())
    }
}

impl RoundTrip for BSPNode {
    open spec fn wire_ok(x: BSPNode, v: Version) -> bool {
        &&& u16::wire_ok(x.front_index, v)
        &&& u16::wire_ok(x.back_index, v)
    }

    proof fn lemma_roundtrip(x: BSPNode, v: Version, d: Seq<u8>, p: int) {
        let e0 = u16::encode(x.front_index, v);
        let e1 = u16::encode(x.back_index, v);
        let s0 = e0;
        lemma_split(d, p, s0, e1);
        u16::lemma_roundtrip(x.front_index, v, d, p);
        u16::lemma_roundtrip(x.back_index, v, d, p + s0.len());
    }
}

#[derive(Clone, Copy, Debug, PartialEq, Eq)]
pub struct BSPSolidLeaf {
    pub surface_index: u32,
    pub surface_count: u16,
}

impl DeepView for BSPSolidLeaf {
    type V = BSPSolidLeaf;

    open spec fn deep_view(&self) -> BSPSolidLeaf {
        *self
    }
}

impl Readable for BSPSolidLeaf {
    open spec fn parse(d: Seq<u8>, c: Cursor, v: Version) -> (BSPSolidLeaf, Cursor, Version) {
        let (surface_index, c, v) = u32::parse(d, c, v);
        let (surface_count, c, v) = u16::parse(d, c, v);
        (BSPSolidLeaf { surface_index, surface_count }, c, v)
    }

    fn take(from: &mut Reader, version: &mut Version) -> (r: Self) {
        let surface_index = u32::take(from, version);
        let surface_count = u16::take(from, version);
        BSPSolidLeaf { surface_index, surface_count }
    }
}

impl Writable for BSPSolidLeaf {
    open spec fn writable(x: BSPSolidLeaf, v: Version) -> bool {
        true
    }

    open spec fn encode(x: BSPSolidLeaf, v: Version) -> Seq<u8> {
        u32::encode(x.surface_index, v)
            + u16::encode(x.surface_count, v)
    }

    fn write(&self, to: &mut Vec<u8>, version: &Version) -> (r: DifResult<()>)
        ensures
            r is Ok,
    {
        let ghost x = *self;
        let ghost v = *version;
        self.surface_index.write(to, version)?;
        let ghost sent = u32::encode(x.surface_index, v);
        self.surface_count.write(to, version)?;
        proof {
            lemma_add_assoc(old(to)@, sent, u16::encode(x.surface_count, v));
        }
        Ok(())
    }
}

impl RoundTrip for BSPSolidLeaf {
    open spec fn wire_ok(x: BSPSolidLeaf, v: Version) -> bool {
        &&& u32::wire_ok(x.surface_index, v)
        &&& u16::wire_ok(x.surface_count, v)
    }

    proof fn lemma_roundtrip(x: BSPSolidLeaf, v: Version, d: Seq<u8>, p: int) {
        let e0 = u32::encode(x.surface_index, v);
        let e1 = u16::encode(x.surface_count, v);
        let s0 = e0;
        lemma_split(d, p, s0, e1);
        u32::lemma_roundtrip(x.surface_index, v, d, p);
        u16::lemma_roundtrip(x.surface_count, v, d, p + s0.len());
    }
}

#[derive(Clone, Copy, Debug, PartialEq, Eq)]
pub struct Surface {
    pub winding_start: u32,
    pub winding_count: u8,
    pub plane_index: u16,
    pub surface_flags: u8,
    pub fan_mask: u32,
}

impl DeepView for Surface {
    type V = Surface;

    open spec fn deep_view(&self) -> Surface {
        *self
    }
}

impl Readable for Surface {
    open spec fn parse(d: Seq<u8>, c: Cursor, v: Version) -> (Surface, Cursor, Version) {
        let (winding_start, c, v) = u32::parse(d, c, v);
        let (winding_count, c, v) = u8::parse(d, c, v);
        let (plane_index, c, v) = u16::parse(d, c, v);
        let (surface_flags, c, v) = u8::parse(d, c, v);
        let (fan_mask, c, v) = u32::parse(d, c, v);
        (Surface { winding_start, winding_count, plane_index, surface_flags, fan_mask }, c, v)
    }

    fn take(from: &mut Reader, version: &mut Version) -> (r: Self) {
        let winding_start = u32::take(from, version);
        let winding_count = u8::take(from, version);
        let plane_index = u16::take(from, version);
        let surface_flags = u8::take(from, version);
        let fan_mask = u32::take(from, version);
        Surface { winding_start, winding_count, plane_index, surface_flags, fan_mask }
    }
}

impl Writable for Surface {
    open spec fn writable(x: Surface, v: Version) -> bool {
        true
    }

    open spec fn encode(x: Surface, v: Version) -> Seq<u8> {
        u32::encode(x.winding_start, v)
            + u8::encode(x.winding_count, v)
            + u16::encode(x.plane_index, v)
            + u8::encode(x.surface_flags, v)
            + u32::encode(x.fan_mask, v)
    }

    fn write(&self, to: &mut Vec<u8>, version: &Version) -> (r: DifResult<()>)
        ensures
            r is Ok,
    {
        let ghost x = *self;
        let ghost v = *version;
        self.winding_start.write(to, version)?;
        let ghost sent = u32::encode(x.winding_start, v);
        self.winding_count.write(to, version)?;
        proof {
            lemma_add_assoc(old(to)@, sent, u8::encode(x.winding_count, v));
        }
        let ghost sent = sent + u8::encode(x.winding_count, v);
        self.plane_index.write(to, version)?;
        proof {
            lemma_add_assoc(old(to)@, sent, u16::encode(x.plane_index, v));
        }
        let ghost sent = sent + u16::encode(x.plane_index, v);
        self.surface_flags.write(to, version)?;
        proof {
            lemma_add_assoc(old(to)@, sent, u8::encode(x.surface_flags, v));
        }
        let ghost sent = sent + u8::encode(x.surface_flags, v);
        self.fan_mask.write(to, version)?;
        proof {
            lemma_add_assoc(old(to)@, sent, u32::encode(x.fan_mask, v));
        }
        Ok(())
    }
}

impl RoundTrip for Surface {
    open spec fn wire_ok(x: Surface, v: Version) -> bool {
        &&& u32::wire_ok(x.winding_start, v)
        &&& u8::wire_ok(x.winding_count, v)
        &&& u16::wire_ok(x.plane_index, v)
        &&& u8::wire_ok(x.surface_flags, v)
        &&& u32::wire_ok(x.fan_mask, v)
    }

    proof fn lemma_roundtrip(x: Surface, v: Version, d: Seq<u8>, p: int) {
        let e0 = u32::encode(x.winding_start, v);
        let e1 = u8::encode(x.winding_count, v);
        let e2 = u16::encode(x.plane_index, v);
        let e3 = u8::encode(x.surface_flags, v);
        let e4 = u32::encode(x.fan_mask, v);
        let s0 = e0;
        let s1 = s0 + e1;
        let s2 = s1 + e2;
        let s3 = s2 + e3;
        lemma_split(d, p, s3, e4);
        lemma_split(d, p, s2, e3);
        lemma_split(d, p, s1, e2);
        lemma_split(d, p, s0, e1);
        u32::lemma_roundtrip(x.winding_start, v, d, p);
        u8::lemma_roundtrip(x.winding_count, v, d, p + s0.len());
        u16::lemma_roundtrip(x.plane_index, v, d, p + s1.len());
        u8::lemma_roundtrip(x.surface_flags, v, d, p + s2.len());
        u32::lemma_roundtrip(x.fan_mask, v, d, p + s3.len());
    }
}

/// A force field: a small interior of its own.
#[derive(Clone, Debug, PartialEq, Eq)]
pub struct ForceField {
    pub version: u32,
    pub name: String,
    pub triggers: Vec<String>,
    pub bounding_box: BoxF,
    pub bounding_sphere: SphereF,
    pub normals: Vec<Point3F>,
    pub planes: Vec<Plane>,
    pub bsp_nodes: Vec<BSPNode>,
    pub bsp_solid_leaves: Vec<BSPSolidLeaf>,
    pub indices: Vec<u32>,
    pub surfaces: Vec<Surface>,
    pub solid_leaf_surfaces: Vec<u32>,
    pub color: ColorI,
}

/// What a `ForceField` holds, as mathematical values.
pub struct ForceFieldView {
    pub version: u32,
    pub name: Seq<char>,
    pub triggers: Seq<Seq<char>>,
    pub bounding_box: BoxF,
    pub bounding_sphere: SphereF,
    pub normals: Seq<Point3F>,
    pub planes: Seq<Plane>,
    pub bsp_nodes: Seq<BSPNode>,
    pub bsp_solid_leaves: Seq<BSPSolidLeaf>,
    pub indices: Seq<u32>,
    pub surfaces: Seq<Surface>,
    pub solid_leaf_surfaces: Seq<u32>,
    pub color: ColorI,
}

impl DeepView for ForceField {
    type V = ForceFieldView;

    open spec fn deep_view(&self) -> ForceFieldView {
        ForceFieldView {
            version: self.version.deep_view(),
            name: self.name.deep_view(),
            triggers: self.triggers.deep_view(),
            bounding_box: self.bounding_box.deep_view(),
            bounding_sphere: self.bounding_sphere.deep_view(),
            normals: self.normals.deep_view(),
            planes: self.planes.deep_view(),
            bsp_nodes: self.bsp_nodes.deep_view(),
            bsp_solid_leaves: self.bsp_solid_leaves.deep_view(),
            indices: self.indices.deep_view(),
            surfaces: self.surfaces.deep_view(),
            solid_leaf_surfaces: self.solid_leaf_surfaces.deep_view(),
            color: self.color.deep_view(),
        }
    }
}

impl Readable for ForceField {
    #[verifier::opaque]
    open spec fn parse(d: Seq<u8>, c: Cursor, v: Version) -> (ForceFieldView, Cursor, Version) {
        let (version, c, v) = u32::parse(d, c, v);
        let (name, c, v) = String::parse(d, c, v);
        let (triggers, c, v) = Vec::<String>::parse(d, c, v);
        let (bounding_box, c, v) = BoxF::parse(d, c, v);
        let (bounding_sphere, c, v) = SphereF::parse(d, c, v);
        let (normals, c, v) = Vec::<Point3F>::parse(d, c, v);
        let (planes, c, v) = Vec::<Plane>::parse(d, c, v);
        let (bsp_nodes, c, v) = Vec::<BSPNode>::parse(d, c, v);
        let (bsp_solid_leaves, c, v) = Vec::<BSPSolidLeaf>::parse(d, c, v);
        let (indices, c, v) = Vec::<u32>::parse(d, c, v);
        let (surfaces, c, v) = Vec::<Surface>::parse(d, c, v);
        let (solid_leaf_surfaces, c, v) = Vec::<u32>::parse(d, c, v);
        let (color, c, v) = ColorI::parse(d, c, v);
        (ForceFieldView {
            version,
            name,
            triggers,
            bounding_box,
            bounding_sphere,
            normals,
            planes,
            bsp_nodes,
            bsp_solid_leaves,
            indices,
            surfaces,
            solid_leaf_surfaces,
            color,
        }, c, v)
    }

    fn take(from: &mut Reader, version: &mut Version) -> (r: Self) {
        reveal(<ForceField as Readable>::parse);
        let version_field = u32::take(from, version);
        let name = String::take(from, version);
        let triggers = Vec::<String>::take(from, version);
        let bounding_box = BoxF::take(from, version);
        let bounding_sphere = SphereF::take(from, version);
        let normals = Vec::<Point3F>::take(from, version);
        let planes = Vec::<Plane>::take(from, version);
        let bsp_nodes = Vec::<BSPNode>::take(from, version);
        let bsp_solid_leaves = Vec::<BSPSolidLeaf>::take(from, version);
        let indices = Vec::<u32>::take(from, version);
        let surfaces = Vec::<Surface>::take(from, version);
        let solid_leaf_surfaces = Vec::<u32>::take(from, version);
        let color = ColorI::take(from, version);
        ForceField {
            version: version_field,
            name,
            triggers,
            bounding_box,
            bounding_sphere,
            normals,
            planes,
            bsp_nodes,
            bsp_solid_leaves,
            indices,
            surfaces,
            solid_leaf_surfaces,
            color,
        }
    }
}

impl Writable for ForceField {
    open spec fn writable(x: ForceFieldView, v: Version) -> bool {
        &&& u32::writable(x.version, v)
        &&& String::writable(x.name, v)
        &&& Vec::<String>::writable(x.triggers, v)
        &&& BoxF::writable(x.bounding_box, v)
        &&& SphereF::writable(x.bounding_sphere, v)
        &&& Vec::<Point3F>::writable(x.normals, v)
        &&& Vec::<Plane>::writable(x.planes, v)
        &&& Vec::<BSPNode>::writable(x.bsp_nodes, v)
        &&& Vec::<BSPSolidLeaf>::writable(x.bsp_solid_leaves, v)
        &&& Vec::<u32>::writable(x.indices, v)
        &&& Vec::<Surface>::writable(x.surfaces, v)
        &&& Vec::<u32>::writable(x.solid_leaf_surfaces, v)
        &&& ColorI::writable(x.color, v)
    }

    #[verifier::opaque]
    open spec fn encode(x: ForceFieldView, v: Version) -> Seq<u8> {
        u32::encode(x.version, v)
            + String::encode(x.name, v)
            + Vec::<String>::encode(x.triggers, v)
            + BoxF::encode(x.bounding_box, v)
            + SphereF::encode(x.bounding_sphere, v)
            + Vec::<Point3F>::encode(x.normals, v)
            + Vec::<Plane>::encode(x.planes, v)
            + Vec::<BSPNode>::encode(x.bsp_nodes, v)
            + Vec::<BSPSolidLeaf>::encode(x.bsp_solid_leaves, v)
            + Vec::<u32>::encode(x.indices, v)
            + Vec::<Surface>::encode(x.surfaces, v)
            + Vec::<u32>::encode(x.solid_leaf_surfaces, v)
            + ColorI::encode(x.color, v)
    }

    fn write(&self, to: &mut Vec<u8>, version: &Version) -> (r: DifResult<()>) {
        reveal(<ForceField as Writable>::encode);
        let ghost x = self.deep_view();
        let ghost v = *version;
        self.version.write(to, version)?;
        let ghost sent = u32::encode(x.version, v);
        self.name.write(to, version)?;
        proof {
            lemma_add_assoc(old(to)@, sent, String::encode(x.name, v));
        }
        let ghost sent = sent + String::encode(x.name, v);
        self.triggers.write(to, version)?;
        proof {
            lemma_add_assoc(old(to)@, sent, Vec::<String>::encode(x.triggers, v));
        }
        let ghost sent = sent + Vec::<String>::encode(x.triggers, v);
        self.bounding_box.write(to, version)?;
        proof {
            lemma_add_assoc(old(to)@, sent, BoxF::encode(x.bounding_box, v));
        }
        let ghost sent = sent + BoxF::encode(x.bounding_box, v);
        self.bounding_sphere.write(to, version)?;
        proof {
            lemma_add_assoc(old(to)@, sent, SphereF::encode(x.bounding_sphere, v));
        }
        let ghost sent = sent + SphereF::encode(x.bounding_sphere, v);
        self.normals.write(to, version)?;
        proof {
            lemma_add_assoc(old(to)@, sent, Vec::<Point3F>::encode(x.normals, v));
        }
        let ghost sent = sent + Vec::<Point3F>::encode(x.normals, v);
        self.planes.write(to, version)?;
        proof {
            lemma_add_assoc(old(to)@, sent, Vec::<Plane>::encode(x.planes, v));
        }
        let ghost sent = sent + Vec::<Plane>::encode(x.planes, v);
        self.bsp_nodes.write(to, version)?;
        proof {
            lemma_add_assoc(old(to)@, sent, Vec::<BSPNode>::encode(x.bsp_nodes, v));
        }
        let ghost sent = sent + Vec::<BSPNode>::encode(x.bsp_nodes, v);
        self.bsp_solid_leaves.write(to, version)?;
        proof {
            lemma_add_assoc(old(to)@, sent, Vec::<BSPSolidLeaf>::encode(x.bsp_solid_leaves, v));
        }
        let ghost sent = sent + Vec::<BSPSolidLeaf>::encode(x.bsp_solid_leaves, v);
        self.indices.write(to, version)?;
        proof {
            lemma_add_assoc(old(to)@, sent, Vec::<u32>::encode(x.indices, v));
        }
        let ghost sent = sent + Vec::<u32>::encode(x.indices, v);
        self.surfaces.write(to, version)?;
        proof {
            lemma_add_assoc(old(to)@, sent, Vec::<Surface>::encode(x.surfaces, v));
        }
        let ghost sent = sent + Vec::<Surface>::encode(x.surfaces, v);
        self.solid_leaf_surfaces.write(to, version)?;
        proof {
            lemma_add_assoc(old(to)@, sent, Vec::<u32>::encode(x.solid_leaf_surfaces, v));
        }
        let ghost sent = sent + Vec::<u32>::encode(x.solid_leaf_surfaces, v);
        self.color.write(to, version)?;
        proof {
            lemma_add_assoc(old(to)@, sent, ColorI::encode(x.color, v));
        }
        Ok(())
    }
}

impl RoundTrip for ForceField {
    open spec fn wire_ok(x: ForceFieldView, v: Version) -> bool {
        &&& u32::wire_ok(x.version, v)
        &&& String::wire_ok(x.name, v)
        &&& Vec::<String>::wire_ok(x.triggers, v)
        &&& BoxF::wire_ok(x.bounding_box, v)
        &&& SphereF::wire_ok(x.bounding_sphere, v)
        &&& Vec::<Point3F>::wire_ok(x.normals, v)
        &&& Vec::<Plane>::wire_ok(x.planes, v)
        &&& Vec::<BSPNode>::wire_ok(x.bsp_nodes, v)
        &&& Vec::<BSPSolidLeaf>::wire_ok(x.bsp_solid_leaves, v)
        &&& Vec::<u32>::wire_ok(x.indices, v)
        &&& Vec::<Surface>::wire_ok(x.surfaces, v)
        &&& Vec::<u32>::wire_ok(x.solid_leaf_surfaces, v)
        &&& ColorI::wire_ok(x.color, v)
    }

    #[verifier::rlimit(100)]
    proof fn lemma_roundtrip(x: ForceFieldView, v: Version, d: Seq<u8>, p: int) {
        reveal(<ForceField as Readable>::parse);
        reveal(<ForceField as Writable>::encode);
        let e0 = u32::encode(x.version, v);
        let e1 = String::encode(x.name, v);
        let e2 = Vec::<String>::encode(x.triggers, v);
        let e3 = BoxF::encode(x.bounding_box, v);
        let e4 = SphereF::encode(x.bounding_sphere, v);
        let e5 = Vec::<Point3F>::encode(x.normals, v);
        let e6 = Vec::<Plane>::encode(x.planes, v);
        let e7 = Vec::<BSPNode>::encode(x.bsp_nodes, v);
        let e8 = Vec::<BSPSolidLeaf>::encode(x.bsp_solid_leaves, v);
        let e9 = Vec::<u32>::encode(x.indices, v);
        let e10 = Vec::<Surface>::encode(x.surfaces, v);
        let e11 = Vec::<u32>::encode(x.solid_leaf_surfaces, v);
        let e12 = ColorI::encode(x.color, v);
        let s0 = e0;
        let s1 = s0 + e1;
        let s2 = s1 + e2;
        let s3 = s2 + e3;
        let s4 = s3 + e4;
        let s5 = s4 + e5;
        let s6 = s5 + e6;
        let s7 = s6 + e7;
        let s8 = s7 + e8;
        let s9 = s8 + e9;
        let s10 = s9 + e10;
        let s11 = s10 + e11;
        lemma_split(d, p, s11, e12);
        lemma_split(d, p, s10, e11);
        lemma_split(d, p, s9, e10);
        lemma_split(d, p, s8, e9);
        lemma_split(d, p, s7, e8);
        lemma_split(d, p, s6, e7);
        lemma_split(d, p, s5, e6);
        lemma_split(d, p, s4, e5);
        lemma_split(d, p, s3, e4);
        lemma_split(d, p, s2, e3);
        lemma_split(d, p, s1, e2);
        lemma_split(d, p, s0, e1);
        u32::lemma_roundtrip(x.version, v, d, p);
        String::lemma_roundtrip(x.name, v, d, p + s0.len());
        Vec::<String>::lemma_roundtrip(x.triggers, v, d, p + s1.len());
        BoxF::lemma_roundtrip(x.bounding_box, v, d, p + s2.len());
        SphereF::lemma_roundtrip(x.bounding_sphere, v, d, p + s3.len());
        Vec::<Point3F>::lemma_roundtrip(x.normals, v, d, p + s4.len());
        Vec::<Plane>::lemma_roundtrip(x.planes, v, d, p + s5.len());
        Vec::<BSPNode>::lemma_roundtrip(x.bsp_nodes, v, d, p + s6.len());
        Vec::<BSPSolidLeaf>::lemma_roundtrip(x.bsp_solid_leaves, v, d, p + s7.len());
        Vec::<u32>::lemma_roundtrip(x.indices, v, d, p + s8.len());
        Vec::<Surface>::lemma_roundtrip(x.surfaces, v, d, p + s9.len());
        Vec::<u32>::lemma_roundtrip(x.solid_leaf_surfaces, v, d, p + s10.len());
        ColorI::lemma_roundtrip(x.color, v, d, p + s11.len());
    }
}

} // verus!
