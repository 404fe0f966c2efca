use vstd::prelude::*;
use crate::io::{lemma_add_assoc, Cursor, Readable, Reader, Version, Writable};
use crate::roundtrip::{lemma_split, RoundTrip};
use crate::types::{BoxF, DifError, DifErrorKind, DifResult, MatrixF, PlaneF, Point2F, Point2I, Point3F, PNG};

verus! {

/// A run of triangles of a static mesh.
#[derive(Clone, Copy, Debug, PartialEq, Eq)]
pub struct Primitive {
    pub alpha: u8,
    pub tex_s: u32,
    pub tex_t: u32,
    pub diffuse_index: i32,
    pub light_map_index: i32,
    pub start: u32,
    pub count: u32,
    pub light_map_equation_x: PlaneF,
    pub light_map_equation_y: PlaneF,
    pub light_map_offset: Point2I,
    pub light_map_size: Point2I,
}

impl DeepView for Primitive {
    type V = Primitive;

    open spec fn deep_view(&self) -> Primitive {
        *self
    }
}

impl Readable for Primitive {
    open spec fn parse(d: Seq<u8>, c: Cursor, v: Version) -> (Primitive, Cursor, Version) {
        let (alpha, c, v) = u8::parse(d, c, v);
        let (tex_s, c, v) = u32::parse(d, c, v);
        let (tex_t, c, v) = u32::parse(d, c, v);
        let (diffuse_index, c, v) = i32::parse(d, c, v);
        let (light_map_index, c, v) = i32::parse(d, c, v);
        let (start, c, v) = u32::parse(d, c, v);
        let (count, c, v) = u32::parse(d, c, v);
        let (light_map_equation_x, c, v) = PlaneF::parse(d, c, v);
        let (light_map_equation_y, c, v) = PlaneF::parse(d, c, v);
        let (light_map_offset, c, v) = Point2I::parse(d, c, v);
        let (light_map_size, c, v) = Point2I::parse(d, c, v);
        (Primitive {
            alpha,
            tex_s,
            tex_t,
            diffuse_index,
            light_map_index,
            start,
            count,
            light_map_equation_x,
            light_map_equation_y,
            light_map_offset,
            light_map_size,
        }, c, v)
    }

    fn take(from: &mut Reader, version: &mut Version) -> (r: Self) {
        let alpha = u8::take(from, version);
        let tex_s = u32::take(from, version);
        let tex_t = u32::take(from, version);
        let diffuse_index = i32::take(from, version);
        let light_map_index = i32::take(from, version);
        let start = u32::take(from, version);
        let count = u32::take(from, version);
        let light_map_equation_x = PlaneF::take(from, version);
        let light_map_equation_y = PlaneF::take(from, version);
        let light_map_offset = Point2I::take(from, version);
        let light_map_size = Point2I::take(from, version);
        Primitive {
            alpha,
            tex_s,
            tex_t,
            diffuse_index,
            light_map_index,
            start,
            count,
            light_map_equation_x,
            light_map_equation_y,
            light_map_offset,
            light_map_size,
        }
    }
}

impl Writable for Primitive {
    open spec fn writable(x: Primitive, v: Version) -> bool {
        true
    }

    open spec fn encode(x: Primitive, v: Version) -> Seq<u8> {
        u8::encode(x.alpha, v)
            + u32::encode(x.tex_s, v)
            + u32::encode(x.tex_t, v)
            + i32::encode(x.diffuse_index, v)
            + i32::encode(x.light_map_index, v)
            + u32::encode(x.start, v)
            + u32::encode(x.count, v)
            + PlaneF::encode(x.light_map_equation_x, v)
            + PlaneF::encode(x.light_map_equation_y, v)
            + Point2I::encode(x.light_map_offset, v)
            + Point2I::encode(x.light_map_size, v)
    }

    fn write(&self, to: &mut Vec<u8>, version: &Version) -> (r: DifResult<()>)
        ensures
            r is Ok,
    {
        let ghost x = *self;
        let ghost v = *version;
        self.alpha.write(to, version)?;
        let ghost sent = u8::encode(x.alpha, v);
        self.tex_s.write(to, version)?;
        proof {
            lemma_add_assoc(old(to)@, sent, u32::encode(x.tex_s, v));
        }
        let ghost sent = sent + u32::encode(x.tex_s, v);
        self.tex_t.write(to, version)?;
        proof {
            lemma_add_assoc(old(to)@, sent, u32::encode(x.tex_t, v));
        }
        let ghost sent = sent + u32::encode(x.tex_t, v);
        self.diffuse_index.write(to, version)?;
        proof {
            lemma_add_assoc(old(to)@, sent, i32::encode(x.diffuse_index, v));
        }
        let ghost sent = sent + i32::encode(x.diffuse_index, v);
        self.light_map_index.write(to, version)?;
        proof {
            lemma_add_assoc(old(to)@, sent, i32::encode(x.light_map_index, v));
        }
        let ghost sent = sent + i32::encode(x.light_map_index, v);
        self.start.write(to, version)?;
        proof {
            lemma_add_assoc(old(to)@, sent, u32::encode(x.start, v));
        }
        let ghost sent = sent + u32::encode(x.start, v);
        self.count.write(to, version)?;
        proof {
            lemma_add_assoc(old(to)@, sent, u32::encode(x.count, v));
        }
        let ghost sent = sent + u32::encode(x.count, v);
        self.light_map_equation_x.write(to, version)?;
        proof {
            lemma_add_assoc(old(to)@, sent, PlaneF::encode(x.light_map_equation_x, v));
        }
        let ghost sent = sent + PlaneF::encode(x.light_map_equation_x, v);
        self.light_map_equation_y.write(to, version)?;
        proof {
            lemma_add_assoc(old(to)@, sent, PlaneF::encode(x.light_map_equation_y, v));
        }
        let ghost sent = sent + PlaneF::encode(x.light_map_equation_y, v);
        self.light_map_offset.write(to, version)?;
        proof {
            lemma_add_assoc(old(to)@, sent, Point2I::encode(x.light_map_offset, v));
        }
        let ghost sent = sent + Point2I::encode(x.light_map_offset, v);
        self.light_map_size.write(to, version)?;
        proof {
            lemma_add_assoc(old(to)@, sent, Point2I::encode(x.light_map_size, v));
        }
        Ok(())
    }
}

impl RoundTrip for Primitive {
    open spec fn wire_ok(x: Primitive, v: Version) -> bool {
        &&& u8::wire_ok(x.alpha, v)
        &&& u32::wire_ok(x.tex_s, v)
        &&& u32::wire_ok(x.tex_t, v)
        &&& i32::wire_ok(x.diffuse_index, v)
        &&& i32::wire_ok(x.light_map_index, v)
        &&& u32::wire_ok(x.start, v)
        &&& u32::wire_ok(x.count, v)
        &&& PlaneF::wire_ok(x.light_map_equation_x, v)
        &&& PlaneF::wire_ok(x.light_map_equation_y, v)
        &&& Point2I::wire_ok(x.light_map_offset, v)
        &&& Point2I::wire_ok(x.light_map_size, v)
    }

    #[verifier::rlimit(100)]
    proof fn lemma_roundtrip(x: Primitive, v: Version, d: Seq<u8>, p: int) {
        let e0 = u8::encode(x.alpha, v);
        let e1 = u32::encode(x.tex_s, v);
        let e2 = u32::encode(x.tex_t, v);
        let e3 = i32::encode(x.diffuse_index, v);
        let e4 = i32::encode(x.light_map_index, v);
        let e5 = u32::encode(x.start, v);
        let e6 = u32::encode(x.count, v);
        let e7 = PlaneF::encode(x.light_map_equation_x, v);
        let e8 = PlaneF::encode(x.light_map_equation_y, v);
        let e9 = Point2I::encode(x.light_map_offset, v);
        let e10 = Point2I::encode(x.light_map_size, v);
        let s0 = e0;
        let s1 = s0 + e1;
        let s2 = s1 + e2;
        let s3 = s2 + e3;
        let s4 = s3 + e4;
        let s5 = s4 + e5;
        let s6 = s5 + e6;
        let s7 = s6 + e7;
        let s8 = s7 + e8;
        let s9 = s8 + e9;
        lemma_split(d, p, s9, e10);
        lemma_split(d, p, s8, e9);
        lemma_split(d, p, s7, e8);
        lemma_split(d, p, s6, e7);
        lemma_split(d, p, s5, e6);
        lemma_split(d, p, s4, e5);
        lemma_split(d, p, s3, e4);
        lemma_split(d, p, s2, e3);
        lemma_split(d, p, s1, e2);
        lemma_split(d, p, s0, e1);
        u8::lemma_roundtrip(x.alpha, v, d, p);
        u32::lemma_roundtrip(x.tex_s, v, d, p + s0.len());
        u32::lemma_roundtrip(x.tex_t, v, d, p + s1.len());
        i32::lemma_roundtrip(x.diffuse_index, v, d, p + s2.len());
        i32::lemma_roundtrip(x.light_map_index, v, d, p + s3.len());
        u32::lemma_roundtrip(x.start, v, d, p + s4.len());
        u32::lemma_roundtrip(x.count, v, d, p + s5.len());
        PlaneF::lemma_roundtrip(x.light_map_equation_x, v, d, p + s6.len());
        PlaneF::lemma_roundtrip(x.light_map_equation_y, v, d, p + s7.len());
        Point2I::lemma_roundtrip(x.light_map_offset, v, d, p + s8.len());
        Point2I::lemma_roundtrip(x.light_map_size, v, d, p + s9.len());
    }
}

/// A material of a static mesh.
#[derive(Clone, Debug, PartialEq, Eq)]
pub struct Material {
    pub flags: u32,
    pub reflectance_map: u32,
    pub bump_map: u32,
    pub detail_map: u32,
    pub light_map: u32,
    pub detail_scale: u32,
    pub reflection_amount: u32,
    pub diffuse_bitmap: Option<PNG>,
}

/// What a `Material` holds, as mathematical values.
pub struct MaterialView {
    pub flags: u32,
    pub reflectance_map: u32,
    pub bump_map: u32,
    pub detail_map: u32,
    pub light_map: u32,
    pub detail_scale: u32,
    pub reflection_amount: u32,
    pub diffuse_bitmap: Option<Seq<u8>>,
}

impl DeepView for Material {
    type V = MaterialView;

    open spec fn deep_view(&self) -> MaterialView {
        MaterialView {
            flags: self.flags,
            reflectance_map: self.reflectance_map,
            bump_map: self.bump_map,
            detail_map: self.detail_map,
            light_map: self.light_map,
            detail_scale: self.detail_scale,
            reflection_amount: self.reflection_amount,
            diffuse_bitmap: match self.diffuse_bitmap {
                Some(png) => Some(png.deep_view()),
                None => None,
            },
        }
    }
}

/// The materials of a static mesh. No layout is known for the list: it
/// cannot be read.
#[derive(Clone, Debug, PartialEq, Eq)]
pub struct MaterialList {
    pub materials: Vec<Material>,
}

impl DeepView for MaterialList {
    type V = Seq<MaterialView>;

    open spec fn deep_view(&self) -> Seq<MaterialView> {
        self.materials.deep_view()
    }
}

impl Readable for MaterialList {
    open spec fn parse(d: Seq<u8>, c: Cursor, v: Version) -> (Seq<MaterialView>, Cursor, Version) {
        (Seq::empty(), c.fail(DifErrorKind::Unsupported), v)
    }

    fn take(from: &mut Reader, version: &mut Version) -> (r: Self) {
        from.fail(DifErrorKind::Unsupported);
        let r = MaterialList { materials: Vec::new() };
        assert(r.deep_view() =~= Seq::empty());
        r
    }
}

/// A mesh that stands in an interior as it is.
#[derive(Clone, Debug, PartialEq, Eq)]
pub struct StaticMesh {
    pub primitives: Vec<Primitive>,
    pub indices: Vec<u16>,
    pub vertexes: Vec<Point3F>,
    pub normals: Vec<Point3F>,
    pub diffuse_uvs: Vec<Point2F>,
    pub lightmap_uvs: Vec<Point2F>,
    pub base_material_list: Option<MaterialList>,
    pub has_solid: u8,
    pub has_translucency: u8,
    pub bounds: BoxF,
    pub transform: MatrixF,
    pub scale: Point3F,
}

/// What a `StaticMesh` holds, as mathematical values.
pub struct StaticMeshView {
    pub primitives: Seq<Primitive>,
    pub indices: Seq<u16>,
    pub vertexes: Seq<Point3F>,
    pub normals: Seq<Point3F>,
    pub diffuse_uvs: Seq<Point2F>,
    pub lightmap_uvs: Seq<Point2F>,
    pub base_material_list: Option<Seq<MaterialView>>,
    pub has_solid: u8,
    pub has_translucency: u8,
    pub bounds: BoxF,
    pub transform: MatrixF,
    pub scale: Point3F,
}

impl DeepView for StaticMesh {
    type V = StaticMeshView;

    open spec fn deep_view(&self) -> StaticMeshView {
        StaticMeshView {
            primitives: self.primitives.deep_view(),
            indices: self.indices.deep_view(),
            vertexes: self.vertexes.deep_view(),
            normals: self.normals.deep_view(),
            diffuse_uvs: self.diffuse_uvs.deep_view(),
            lightmap_uvs: self.lightmap_uvs.deep_view(),
            base_material_list: match self.base_material_list {
                Some(list) => Some(list.deep_view()),
                None => None,
            },
            has_solid: self.has_solid,
            has_translucency: self.has_translucency,
            bounds: self.bounds,
            transform: self.transform,
            scale: self.scale,
        }
    }
}

impl Readable for StaticMesh {
    /// A mesh with a list of materials is refused, as no layout is known
    /// for that list.
    open spec fn parse(d: Seq<u8>, c: Cursor, v: Version) -> (StaticMeshView, Cursor, Version) {
        let (primitives, c, v) = Vec::<Primitive>::parse(d, c, v);
        let (indices, c, v) = Vec::<u16>::parse(d, c, v);
        let (vertexes, c, v) = Vec::<Point3F>::parse(d, c, v);
        let (normals, c, v) = Vec::<Point3F>::parse(d, c, v);
        let (diffuse_uvs, c, v) = Vec::<Point2F>::parse(d, c, v);
        let (lightmap_uvs, c, v) = Vec::<Point2F>::parse(d, c, v);
        let (has_list, c, v) = u8::parse(d, c, v);
        let (base_material_list, c, v) = if c.ok() && has_list != 0 {
            let (list, c, v) = MaterialList::parse(d, c, v);
            (Some(list), c, v)
        } else {
            (None, c, v)
        };
        let (has_solid, c, v) = u8::parse(d, c, v);
        let (has_translucency, c, v) = u8::parse(d, c, v);
        let (bounds, c, v) = BoxF::parse(d, c, v);
        let (transform, c, v) = MatrixF::parse(d, c, v);
        let (scale, c, v) = Point3F::parse(d, c, v);
        (
            StaticMeshView {
                primitives,
                indices,
                vertexes,
                normals,
                diffuse_uvs,
                lightmap_uvs,
                base_material_list,
                has_solid,
                has_translucency,
                bounds,
                transform,
                scale,
            },
            c,
            v,
        )
    }

    fn take(from: &mut Reader, version: &mut Version) -> (r: Self) {
        let primitives = Vec::<Primitive>::take(from, version);
        let indices = Vec::<u16>::take(from, version);
        let vertexes = Vec::<Point3F>::take(from, version);
        let normals = Vec::<Point3F>::take(from, version);
        let diffuse_uvs = Vec::<Point2F>::take(from, version);
        let lightmap_uvs = Vec::<Point2F>::take(from, version);
        let has_list = u8::take(from, version);
        let base_material_list = if from.ok() && has_list != 0 {
            Some(MaterialList::take(from, version))
        } else {
            None
        };
        let has_solid = u8::take(from, version);
        let has_translucency = u8::take(from, version);
        let bounds = BoxF::take(from, version);
        let transform = MatrixF::take(from, version);
        let scale = Point3F::take(from, version);
        StaticMesh {
            primitives,
            indices,
            vertexes,
            normals,
            diffuse_uvs,
            lightmap_uvs,
            base_material_list,
            has_solid,
            has_translucency,
            bounds,
            transform,
            scale,
        }
    }
}

impl Writable for StaticMesh {
    /// No layout is known for writing a static mesh.
    open spec fn writable(x: StaticMeshView, v: Version) -> bool {
        false
    }

    open spec fn encode(x: StaticMeshView, v: Version) -> Seq<u8> {
        Seq::empty()
    }

    fn write(&self, to: &mut Vec<u8>, version: &Version) -> (r: DifResult<()>) {
        Err(DifError::new(DifErrorKind::Unsupported))
    }
}

} // verus!
