use cgmath::{AbsDiffEq, InnerSpace, Vector3};
use difbuilder::bsp::exhaustive::exhaustive_candidates;
use difbuilder::bsp::sides::{
    calculate_split_rating, classify_poly, clip_steps, piece_indices, ClipStep, Placement,
};
use difbuilder::bsp::{
    best_splitter, fast_candidates, needs_split, partition_brushes, ray_case, rate_plane,
    split_into, BSPPolygon, BrushSide, DIFBSPNode, RayCase, SplitMethod, SplitRating,
};
use difbuilder::builder::bsp_export::{ray_steps, RayPart};
use difbuilder::builder::sound::tables_are_sound;
use difbuilder::builder::grouping::{bin_triangles, dedup_groups, place_polygon};
use difbuilder::builder::poly_list::unique_tables;
use difbuilder::builder::{
    get_bounding_box, hull_surfaces, BSPReport, BuildError, DIFBuilder, HullPoly, PolyGroup,
    ProgressEventListener, Triangle,
};
use difbuilder::interior::{
    BSPIndex, Interior, NormalIndex, PlaneIndex, PointIndex, PossiblyNullSurfaceIndex, TexGenEq,
    TexGenIndex,
};
use difbuilder::dif::Dif;
use difbuilder::types::{BoxF, Dictionary, PlaneF, Point2F, Point3F, SphereF, F32};
use std::collections::HashMap;
use std::hash::{Hash, Hasher};

pub type V3 = Vector3<f32>;

/// How a build is to be done.
#[derive(Clone, Copy, Debug)]
pub struct Config {
    pub mb_only: bool,
    pub bsp_mode: SplitMethod,
    pub point_epsilon: f32,
    pub plane_epsilon: f32,
    pub split_epsilon: f32,
}

/// The configuration with these values.
pub fn set_convert_configuration(
    mb_only: bool,
    point_epsilon: f32,
    plane_epsilon: f32,
    split_epsilon: f32,
    split_method: SplitMethod,
) -> Config {
    Config { mb_only, bsp_mode: split_method, point_epsilon, plane_epsilon, split_epsilon }
}

pub fn default_config() -> Config {
    Config {
        mb_only: true,
        bsp_mode: SplitMethod::Fast,
        point_epsilon: 1e-6,
        plane_epsilon: 1e-5,
        split_epsilon: 1e-4,
    }
}

/// Why no interior was built.
#[derive(Clone, Copy, Debug, PartialEq)]
pub enum Failure {
    /// A triangle was not taken.
    BadTriangle(usize, BuildError),
    /// The normal of a triangle is not of length 1, as far as rounding
    /// allows.
    NotUnit(usize),
    /// A piece of a polygon that was cut lies on the wrong side of the
    /// plane that cut it.
    BadClip,
    /// The build gave up.
    Build(BuildError),
}

impl From<BuildError> for Failure {
    fn from(e: BuildError) -> Failure {
        Failure::Build(e)
    }
}

/// A triangle with numbers as a client gives them.
#[derive(Clone, Debug)]
pub struct InputTriangle {
    pub verts: [V3; 3],
    pub uv: [[f32; 2]; 3],
    pub normal: V3,
    pub material: String,
}

pub fn bits(x: f32) -> F32 {
    F32::from_bits(x.to_bits())
}

pub fn num(x: F32) -> f32 {
    f32::from_bits(x.to_bits())
}

pub fn point(v: V3) -> Point3F {
    Point3F { x: bits(v.x), y: bits(v.y), z: bits(v.z) }
}

pub fn vector(p: Point3F) -> V3 {
    V3::new(num(p.x), num(p.y), num(p.z))
}

pub fn plane_bits(normal: V3, distance: f32) -> PlaneF {
    PlaneF { normal: point(normal), distance: bits(distance) }
}

/// The plane through three points, which faces the side from which they
/// run clockwise.
pub fn plane_from_triangle(v0: V3, v1: V3, v2: V3) -> PlaneF {
    let normal = (v2 - v0).cross(v1 - v0).normalize();
    let average_point = (v0 + v1 + v2) / 3.0;
    plane_bits(normal, (-average_point).dot(normal))
}

pub fn box_center(b: &BoxF) -> V3 {
    (vector(b.min) + vector(b.max)) / 2.0
}

pub fn box_extent(b: &BoxF) -> V3 {
    vector(b.max) - vector(b.min)
}

/// The sphere round the box of the triangles.
pub fn get_bounding_sphere(brushes: &Vec<Triangle>) -> SphereF {
    let b = get_bounding_box(brushes);
    let center = box_center(&b);
    SphereF { origin: point(center), radius: bits((vector(b.max) - center).magnitude()) }
}

/// A point that equals every point within a small distance each way.
#[derive(Clone, Copy, Debug)]
pub struct OrdPoint {
    pub x: f32,
    pub y: f32,
    pub z: f32,
    pub epsilon: f32,
}

impl PartialEq for OrdPoint {
    fn eq(&self, other: &Self) -> bool {
        self.x.abs_diff_eq(&other.x, self.epsilon)
            && self.y.abs_diff_eq(&other.y, self.epsilon)
            && self.z.abs_diff_eq(&other.z, self.epsilon)
    }
}

impl Eq for OrdPoint {}

impl Hash for OrdPoint {
    fn hash<H: Hasher>(&self, state: &mut H) {
        let x = (self.x.floor() as u32 >> 5) & 0xf;
        let y = (self.y.floor() as u32 >> 5) & 0xf;
        let z = (self.z.floor() as u32 >> 5) & 0xf;
        let hash_val = (x << 8) | (y << 4) | z;
        hash_val.hash(state);
    }
}

/// A plane that equals every plane that faces nearly the same way at
/// nearly the same distance.
#[derive(Clone, Copy, Debug)]
pub struct OrdPlaneF {
    pub x: f32,
    pub y: f32,
    pub z: f32,
    pub d: f32,
    pub epsilon: f32,
}

impl PartialEq for OrdPlaneF {
    fn eq(&self, other: &Self) -> bool {
        self.x * other.x + self.y * other.y + self.z * other.z > 0.999
            && (self.d - other.d).abs() < self.epsilon
    }
}

impl Eq for OrdPlaneF {}

fn round2(x: f32) -> f32 {
    (x * 100.0 + 0.5).floor() / 100.0
}

fn plane_bucket(x: f32, y: f32, z: f32, d: f32) -> u32 {
    let mul = round2(x.abs().max(y.abs()).max(z.abs()));
    let val = mul * round2(d.abs());
    (val as u32) % (1 << 12)
}

impl Hash for OrdPlaneF {
    fn hash<H: Hasher>(&self, state: &mut H) {
        plane_bucket(self.x, self.y, self.z, self.d).hash(state);
    }
}

/// A texture equation that equals every one that differs by less than
/// 0.00001 in each number.
#[derive(Clone, Copy, Debug)]
pub struct OrdTexGen {
    pub x: [f32; 4],
    pub y: [f32; 4],
}

impl PartialEq for OrdTexGen {
    fn eq(&self, other: &Self) -> bool {
        (0..4).all(|i| (self.x[i] - other.x[i]).abs() < 1e-5)
            && (0..4).all(|i| (self.y[i] - other.y[i]).abs() < 1e-5)
    }
}

impl Eq for OrdTexGen {}

impl Hash for OrdTexGen {
    fn hash<H: Hasher>(&self, state: &mut H) {
        plane_bucket(self.x[0], self.x[1], self.x[2], self.x[3]).hash(state);
        plane_bucket(self.y[0], self.y[1], self.y[2], self.y[3]).hash(state);
    }
}

/// The tables that find equal points, planes and texture equations.
pub struct Lookup {
    pub planes: HashMap<OrdPlaneF, PlaneIndex>,
    pub points: HashMap<OrdPoint, PointIndex>,
    pub normals: HashMap<OrdPoint, NormalIndex>,
    pub tex_gens: HashMap<OrdTexGen, TexGenIndex>,
    pub config: Config,
}

pub fn new_lookup(config: Config) -> Lookup {
    Lookup {
        planes: HashMap::new(),
        points: HashMap::new(),
        normals: HashMap::new(),
        tex_gens: HashMap::new(),
        config,
    }
}

fn ord_point(v: V3, epsilon: f32) -> OrdPoint {
    OrdPoint { x: v.x, y: v.y, z: v.z, epsilon }
}

fn ord_plane(normal: V3, d: f32, epsilon: f32) -> OrdPlaneF {
    OrdPlaneF { x: normal.x, y: normal.y, z: normal.z, d, epsilon }
}

pub fn export_point(builder: &mut DIFBuilder, lookup: &mut Lookup, v: V3) -> PointIndex {
    let key = ord_point(v, lookup.config.point_epsilon);
    let found = lookup.points.get(&key).copied();
    let index = builder.export_point(&point(v), found);
    if found.is_none() {
        lookup.points.insert(key, index);
    }
    index
}

pub fn export_plane(
    builder: &mut DIFBuilder,
    lookup: &mut Lookup,
    normal: V3,
    d: f32,
) -> Result<PlaneIndex, BuildError> {
    let eps = lookup.config.plane_epsilon;
    let key = ord_plane(normal, d, eps);
    let same = lookup.planes.get(&key).copied();
    let negated = lookup.planes.get(&ord_plane(-normal, -d, eps)).copied();
    let normal_key = ord_point(normal, lookup.config.point_epsilon);
    let known_normal = lookup.normals.get(&normal_key).copied();
    let normals_before = builder.interior.normals.len();
    let index = builder.export_plane(&plane_bits(normal, d), same, negated, known_normal)?;
    if same.is_none() && negated.is_none() {
        if known_normal.is_none() {
            lookup.normals.insert(normal_key, NormalIndex::new(normals_before as u16));
        }
        lookup.planes.insert(key, index);
    }
    Ok(index)
}

/// The plane `a x + b y + c z + d` that takes the values `u` at the three
/// points, by the pseudo-inverse of the matrix of the points.
pub fn solve_matrix(p: [V3; 3], u: [f32; 3]) -> (V3, f32) {
    let a = nalgebra::DMatrix::from_row_slice(
        3,
        4,
        &[
            p[0].x, p[0].y, p[0].z, 1.0, //
            p[1].x, p[1].y, p[1].z, 1.0, //
            p[2].x, p[2].y, p[2].z, 1.0,
        ],
    );
    let values = nalgebra::DMatrix::from_column_slice(3, 1, &u);
    let svd = nalgebra::SVD::new(a, true, true);
    let inverse = svd.pseudo_inverse(1e-6).expect("Pseudoinverse failed");
    let x = &inverse * values;
    (V3::new(x[0], x[1], x[2]), x[3])
}

pub fn export_tex_gen(
    builder: &mut DIFBuilder,
    lookup: &mut Lookup,
    verts: [V3; 3],
    uv: [[f32; 2]; 3],
) -> TexGenIndex {
    let (nx, dx) = solve_matrix(verts, [uv[0][0], uv[1][0], uv[2][0]]);
    let (ny, dy) = solve_matrix(verts, [uv[0][1], uv[1][1], uv[2][1]]);
    let key = OrdTexGen { x: [nx.x, nx.y, nx.z, dx], y: [ny.x, ny.y, ny.z, dy] };
    let found = lookup.tex_gens.get(&key).copied();
    let eq = TexGenEq { plane_x: plane_bits(nx, dx), plane_y: plane_bits(ny, dy) };
    let index = builder.export_tex_gen(eq, found);
    if found.is_none() {
        lookup.tex_gens.insert(key, index);
    }
    index
}

fn corners(t: &Triangle) -> [V3; 3] {
    [vector(t.verts[0]), vector(t.verts[1]), vector(t.verts[2])]
}

fn uvs(t: &Triangle) -> [[f32; 2]; 3] {
    let one = |p: Point2F| [num(p.x), num(p.y)];
    [one(t.uv[0]), one(t.uv[1]), one(t.uv[2])]
}

/// Makes the surface of a triangle, drawn or null, unless it has one.
pub fn export_surface(
    builder: &mut DIFBuilder,
    lookup: &mut Lookup,
    id: usize,
) -> Result<PossiblyNullSurfaceIndex, BuildError> {
    if let Some(made) = builder.surface_of(id) {
        return Ok(made);
    }
    if id >= builder.brushes.len() {
        return Err(BuildError::BrokenTable);
    }
    let t = builder.brushes[id].clone();
    let verts = corners(&t);
    let plane_index = export_plane(builder, lookup, vector(t.plane.normal), num(t.plane.distance))?;
    if builder.is_null_material(id) {
        let made = [
            export_point(builder, lookup, verts[0]),
            export_point(builder, lookup, verts[1]),
            export_point(builder, lookup, verts[2]),
        ];
        builder.export_null_surface(id, plane_index, made)
    } else {
        let tex_gen = export_tex_gen(builder, lookup, verts, uvs(&t));
        let made = [
            export_point(builder, lookup, verts[0]),
            export_point(builder, lookup, verts[1]),
            export_point(builder, lookup, verts[2]),
        ];
        builder.export_surface(id, plane_index, tex_gen, made, t.material)
    }
}

/// Makes the hull of a group of triangles.
pub fn export_convex_hull(
    builder: &mut DIFBuilder,
    lookup: &mut Lookup,
    group: &Vec<usize>,
) -> Result<usize, BuildError> {
    let triangles: Vec<Triangle> = group.iter().map(|&i| builder.brushes[i].clone()).collect();
    let mut exported = vec![];
    let mut local: HashMap<OrdPoint, usize> = HashMap::new();
    let mut local_count = 0usize;
    for t in &triangles {
        for v in corners(t) {
            exported.push(export_point(builder, lookup, v));
            let key = ord_point(v, lookup.config.point_epsilon);
            if !local.contains_key(&key) {
                local.insert(key, local_count);
                local_count += 1;
            }
        }
    }
    let mut planes = vec![];
    for t in &triangles {
        planes.push(export_plane(builder, lookup, vector(t.plane.normal), num(t.plane.distance))?);
    }
    let mut surfaces = vec![];
    for &i in group {
        surfaces.push(export_surface(builder, lookup, i)?);
    }
    let mut polys = vec![];
    for (t, &i) in triangles.iter().zip(group.iter()) {
        let points = corners(t)
            .iter()
            .map(|&v| local[&ord_point(v, lookup.config.point_epsilon)])
            .collect();
        let plane_index = match builder.face_to_plane[i] {
            Some(p) => p.into_inner() as usize,
            None => return Err(BuildError::BrokenTable),
        };
        polys.push(HullPoly { points, plane_index });
    }
    builder.export_convex_hull(group, &exported, &planes, &surfaces, &polys, local_count)
}

fn area_of(min: V3, max: V3) -> f32 {
    2.0 * ((max.x - min.x) * (max.y - min.y)
        + (max.y - min.y) * (max.z - min.z)
        + (max.z - min.z) * (max.x - min.x))
}

fn grown(a: f32, t: &[V3; 3], pick: fn(&V3) -> f32, least: bool) -> f32 {
    let mut r = a;
    for v in t {
        r = if least { r.min(pick(v)) } else { r.max(pick(v)) };
    }
    r
}

fn surface_area_if_add(group: &PolyGroup, t: &Triangle) -> f32 {
    let c = corners(t);
    let min = vector(group.min);
    let max = vector(group.max);
    let new_min = V3::new(
        grown(min.x, &c, |v| v.x, true),
        grown(min.y, &c, |v| v.y, true),
        grown(min.z, &c, |v| v.z, true),
    );
    let new_max = V3::new(
        grown(max.x, &c, |v| v.x, false),
        grown(max.y, &c, |v| v.y, false),
        grown(max.z, &c, |v| v.z, false),
    );
    area_of(new_min, new_max) - area_of(min, max)
}

fn own_area(t: &Triangle) -> f32 {
    let c = corners(t);
    let min = V3::new(
        c[0].x.min(c[1].x).min(c[2].x),
        c[0].y.min(c[1].y).min(c[2].y),
        c[0].z.min(c[1].z).min(c[2].z),
    );
    let max = V3::new(
        c[0].x.max(c[1].x).max(c[2].x),
        c[0].y.max(c[1].y).max(c[2].y),
        c[0].z.max(c[1].z).max(c[2].z),
    );
    area_of(min, max)
}

/// The lines of the 16 by 16 grid over the box of the triangles, which is
/// 3 wider each way.
pub fn grid_lines(brushes: &Vec<Triangle>) -> (Vec<F32>, Vec<F32>, BoxF) {
    let b = get_bounding_box(brushes);
    let min = vector(b.min) - V3::new(3.0, 3.0, 3.0);
    let max = vector(b.max) + V3::new(3.0, 3.0, 3.0);
    let extent = box_extent(&BoxF { min: point(min), max: point(max) });
    let xs = (0..17).map(|i| bits(min.x + (i as f32 * extent.x / 16f32))).collect();
    let ys = (0..17).map(|i| bits(min.y + (i as f32 * extent.y / 16f32))).collect();
    (xs, ys, BoxF { min: point(min), max: point(max) })
}

/// The groups of triangles of which hulls are made.
pub fn group_polys(builder: &DIFBuilder) -> Result<Vec<Vec<usize>>, BuildError> {
    let (xs, ys, _) = grid_lines(&builder.brushes);
    let bins = bin_triangles(&builder.brushes, &xs, &ys)?;
    let mut all: Vec<Vec<usize>> = vec![];
    for bin in &bins {
        let mut groups: Vec<PolyGroup> = vec![];
        for &index in bin {
            let t = &builder.brushes[index];
            let mut costs: Vec<F32> =
                groups.iter().map(|g| bits(surface_area_if_add(g, t))).collect();
            costs.push(bits(own_area(t)));
            place_polygon(&mut groups, &costs, t, index)?;
        }
        for g in groups {
            all.push(g.polys);
        }
    }
    Ok(dedup_groups(&all, builder.brushes.len()))
}

fn side_value(plane: &(V3, f32), v: V3) -> f32 {
    plane.0.dot(v) + plane.1
}

fn polygon_area(p: &BSPPolygon) -> f32 {
    if p.indices.len() < 2 {
        return 0.0;
    }
    let v0 = vector(p.vertices[p.indices[0]]);
    let mut a = 0.0;
    for i in 1..p.indices.len() {
        let v1 = vector(p.vertices[p.indices[i]]);
        let v2 = vector(p.vertices[p.indices[(i + 1) % p.indices.len()]]);
        a += (v1 - v0).cross(v2 - v0).magnitude() / 2.0;
    }
    a
}

/// The value of a plane at each corner of a polygon.
pub fn side_values(p: &BSPPolygon, plane: &(V3, f32)) -> Vec<F32> {
    p.indices.iter().map(|&i| bits(side_value(plane, vector(p.vertices[i])))).collect()
}

/// The part of a polygon behind a plane, or in front of it where
/// `flip_face` is set.
pub fn clip_plane(
    p: &BSPPolygon,
    plane: (V3, f32),
    flip_face: bool,
    epsilon: f32,
) -> Result<BSPPolygon, Failure> {
    let (normal, distance) = if flip_face { (-plane.0, -plane.1) } else { plane };
    let steps = clip_steps(&side_values(p, &(normal, distance)), bits(epsilon));
    let mut vertices = p.vertices.clone();
    if vertices.len().checked_add(steps.len()).is_none() {
        return Err(Failure::BadClip);
    }
    let indices = match piece_indices(&p.indices, &steps, vertices.len()) {
        Some(indices) => indices,
        None => return Err(Failure::BadClip),
    };
    for step in &steps {
        if let ClipStep::Cut(i) = *step {
            let v1 = vector(p.vertices[p.indices[i]]);
            let v2 = vector(p.vertices[p.indices[(i + 1) % p.indices.len()]]);
            let t = (-distance - normal.dot(v1)) / normal.dot(v2 - v1);
            vertices.push(point(v1 + (v2 - v1) * t));
        }
    }
    for &i in &indices {
        if vector(vertices[i]).dot(normal) + distance > epsilon * 10.0 {
            return Err(Failure::BadClip);
        }
    }
    let mut made = BSPPolygon {
        vertices,
        indices,
        plane: p.plane,
        plane_id: p.plane_id,
        id: p.id,
        used_plane: p.used_plane,
        inverted_plane: p.inverted_plane,
        area_calc: bits(0.0),
    };
    made.area_calc = bits(polygon_area(&made));
    Ok(made)
}

/// The score of a plane as splitter of a node: the more evenly it parts
/// the polygons and the fewer it cuts, the higher.
pub fn calc_plane_rating(
    node: &DIFBSPNode,
    plane_id: usize,
    planes: &Vec<(V3, f32)>,
    epsilon: f32,
) -> Result<i32, BuildError> {
    let plane = &planes[plane_id];
    let found: Vec<SplitRating> = node
        .brush_list
        .iter()
        .map(|b| calculate_split_rating(&side_values(b, plane), bits(epsilon)))
        .collect();
    let sum = rate_plane(&node.brush_list, plane_id, &found)?;
    let front = sum.front as f32;
    let back = sum.back as f32;
    let both = front + back;
    if sum.front + sum.back == 0 {
        return Ok(0);
    }
    let jaccard = (front + back - 2.0 * sum.splits as f32) / both;
    let entropy = -(front / both) * (front / both).log2() - (back / both) * (back / both).log2();
    let score = (-entropy * jaccard * 1000.0).round();
    if score.is_nan() {
        Ok(0)
    } else {
        Ok(score as i32)
    }
}

/// The planes in the middle of each of 64 directions.
fn exhaustive_planes(node: &DIFBSPNode, planes: &Vec<(V3, f32)>) -> Result<Vec<usize>, Failure> {
    let pi = std::f32::consts::PI;
    let mut directions: Vec<V3> = vec![];
    for i in 0..8 {
        for j in 0..8 {
            let p = -pi + 2.0 * pi * i as f32 / 8.0;
            let t = (pi / 2.0) * j as f32 / 8.0;
            directions.push(V3::new(t.cos() * p.sin(), t.sin() * p.sin(), p.cos()));
        }
    }
    let dots: Vec<Vec<F32>> = planes
        .iter()
        .map(|plane| directions.iter().map(|v| bits(v.dot(plane.0))).collect())
        .collect();
    let distances: Vec<F32> = planes.iter().map(|plane| bits(plane.1)).collect();
    Ok(exhaustive_candidates(node, &dots, &distances, directions.len())?)
}

/// Splits a node, and then its children, until every polygon lies on a
/// plane that was used.
pub fn split_node(
    node: &mut DIFBSPNode,
    planes: &Vec<(V3, f32)>,
    used: &mut Vec<usize>,
    config: &Config,
    progress: &mut dyn ProgressEventListener,
) -> Result<(), Failure> {
    if !needs_split(node) {
        return Ok(());
    }
    let candidates = match config.bsp_mode {
        SplitMethod::Fast => fast_candidates(node),
        SplitMethod::Exhaustive => exhaustive_planes(node, planes)?,
        SplitMethod::Off => vec![],
    };
    let mut scores: Vec<i32> = vec![];
    for &p in &candidates {
        scores.push(calc_plane_rating(node, p, planes, config.split_epsilon)?);
    }
    let split = match best_splitter(&candidates, &scores) {
        Some(split) => split,
        None => return Ok(()),
    };
    let mut sides = vec![];
    for b in &node.brush_list {
        if b.plane_id == split {
            sides.push(BrushSide::On);
            continue;
        }
        let values = side_values(b, &planes[split]);
        sides.push(match classify_poly(&values, bits(config.split_epsilon)) {
            Placement::Front => BrushSide::Front,
            Placement::Back => BrushSide::Back,
            Placement::On => BrushSide::On,
            Placement::Spanning => BrushSide::Spanning(
                clip_plane(b, planes[split], true, config.split_epsilon)?,
                clip_plane(b, planes[split], false, config.split_epsilon)?,
            ),
        });
    }
    let (front, _, back, _) = partition_brushes(&node.brush_list, &sides, split)?;
    if !used.contains(&split) {
        used.push(split);
        progress.progress(
            used.len() as u32,
            planes.len() as u32,
            "Building BSP".to_string(),
            "Built BSP".to_string(),
        );
    }
    split_into(node, split, front, back);
    if let Some(child) = node.front.as_mut() {
        split_node(child, planes, used, config, progress)?;
    }
    if let Some(child) = node.back.as_mut() {
        split_node(child, planes, used, config, progress)?;
    }
    Ok(())
}

/// The BSP tree of the triangles, and its planes.
pub fn build_bsp(
    brushes: &Vec<Triangle>,
    config: &Config,
    progress: &mut dyn ProgressEventListener,
) -> Result<(DIFBSPNode, Vec<(V3, f32)>), Failure> {
    let mut known: HashMap<OrdPlaneF, usize> = HashMap::new();
    let mut planes: Vec<(V3, f32)> = vec![];
    let mut polygons = vec![];
    for b in brushes {
        let normal = vector(b.plane.normal);
        let d = num(b.plane.distance);
        let key = ord_plane(normal, d, config.plane_epsilon);
        let plane_id = match known.get(&key) {
            Some(&id) => id,
            None => {
                planes.push((normal, d));
                known.insert(key, planes.len() - 1);
                planes.len() - 1
            }
        };
        let mut p = BSPPolygon {
            id: b.id as usize,
            plane: b.plane,
            plane_id,
            indices: vec![0, 1, 2],
            vertices: b.verts.to_vec(),
            used_plane: false,
            inverted_plane: false,
            area_calc: bits(0.0),
        };
        p.area_calc = bits(polygon_area(&p));
        polygons.push(p);
    }
    let mut root = DIFBSPNode::from_brushes(polygons);
    if config.bsp_mode == SplitMethod::Off {
        root.front = Some(Box::new(DIFBSPNode::from_brushes(vec![])));
        root.back = Some(Box::new(DIFBSPNode::from_brushes(vec![])));
        root.plane_index = Some(0);
    } else {
        let mut used = vec![];
        split_node(&mut root, &planes, &mut used, config, progress)?;
    }
    Ok((root, planes))
}

/// Whether a ray through the tree reaches a solid leaf that holds a
/// polygon in the plane it came through last.
pub fn tree_ray_cast(
    node: &DIFBSPNode,
    start: V3,
    end: V3,
    plane_index: usize,
    planes: &Vec<(V3, f32)>,
) -> bool {
    let split = match node.plane_index {
        None => {
            return node.solid && node.brush_list.iter().any(|b| b.plane_id == plane_index);
        }
        Some(split) => split,
    };
    let (normal, d) = planes[split];
    let s = normal.dot(start) + d;
    let e = normal.dot(end) + d;
    let go = |child: &Option<Box<DIFBSPNode>>, from: V3, to: V3, plane: usize| match child {
        Some(n) => tree_ray_cast(n, from, to, plane, planes),
        None => false,
    };
    match ray_case(bits(s), bits(e)) {
        RayCase::Front => go(&node.front, start, end, plane_index),
        RayCase::Back => go(&node.back, start, end, plane_index),
        RayCase::FrontToBack => {
            let t = (-d - start.dot(normal)) / (end - start).dot(normal);
            let ip = start + (end - start) * t;
            go(&node.front, start, ip, plane_index) || go(&node.back, ip, end, split)
        }
        RayCase::BackToFront => {
            let t = (-d - start.dot(normal)) / (end - start).dot(normal);
            let ip = start + (end - start) * t;
            go(&node.back, start, ip, plane_index) || go(&node.front, ip, end, split)
        }
        RayCase::Within => false,
    }
}

/// How many surfaces a short ray through their middle finds in the tree
/// as it was built.
pub fn calculate_bsp_raycast_root_coverage(
    interior: &Interior,
    root: &DIFBSPNode,
    planes: &Vec<(V3, f32)>,
) -> usize {
    let mut hit = 0;
    for s in &interior.surfaces {
        let start = s.winding_start.into_inner() as usize;
        let mut middle = V3::new(0.0, 0.0, 0.0);
        for i in &interior.indices[start..start + s.winding_count as usize] {
            middle += vector(interior.points[i.into_inner() as usize]);
        }
        middle /= s.winding_count as f32;
        let plane = &interior.planes[(s.plane_index.into_inner() & 0x7FFF) as usize];
        let normal = vector(interior.normals[plane.normal_index.into_inner() as usize]);
        let sign = if s.plane_flipped { -1.0 } else { 1.0 };
        let from = middle + normal * sign * 0.1;
        let to = middle - normal * sign * 0.1;
        if tree_ray_cast(root, from, to, usize::MAX, planes) {
            hit += 1;
        }
    }
    hit
}

/// What counts how much of an interior its BSP tree finds.
pub trait RaycastCalc {
    fn bsp_ray_cast(&self, node: &BSPIndex, plane_index: &u16, start: V3, end: V3) -> bool;

    fn calculate_bsp_raycast_coverage(&mut self) -> BSPReport;
}

impl RaycastCalc for Interior {
    fn bsp_ray_cast(&self, node: &BSPIndex, plane_index: &u16, start: V3, end: V3) -> bool {
        bsp_ray_cast(self, node, *plane_index, start, end)
    }

    fn calculate_bsp_raycast_coverage(&mut self) -> BSPReport {
        calculate_bsp_raycast_coverage(self)
    }
}

fn plane_of_node(interior: &Interior, stored: u16) -> (V3, f32) {
    let flipped = stored & 0x8000 > 0;
    let plane = &interior.planes[(stored & 0x7FFF) as usize];
    let normal = vector(interior.normals[plane.normal_index.into_inner() as usize]);
    let d = num(plane.plane_distance);
    if flipped {
        (-normal, -d)
    } else {
        (normal, d)
    }
}

/// Whether a ray reaches a solid leaf that holds a surface in the plane
/// it came through last.
pub fn bsp_ray_cast(
    interior: &Interior,
    node: &BSPIndex,
    plane_index: u16,
    start: V3,
    end: V3,
) -> bool {
    if !node.leaf {
        if node.index as usize >= interior.bsp_nodes.len() {
            return false;
        }
        let value = interior.bsp_nodes[node.index as usize];
        let stored = value.plane_index.into_inner();
        let (normal, d) = plane_of_node(interior, stored);
        let s = normal.dot(start) + d;
        let e = normal.dot(end) + d;
        let crossing = || {
            let t = (-d - start.dot(normal)) / (end - start).dot(normal);
            start + (end - start) * t
        };
        for step in ray_steps(ray_case(bits(s), bits(e)), &value, plane_index) {
            let (from, to) = match step.part {
                RayPart::Whole => (start, end),
                RayPart::ToPlane => (start, crossing()),
                RayPart::FromPlane => (crossing(), end),
            };
            if bsp_ray_cast(interior, &step.child, step.plane, from, to) {
                return true;
            }
        }
        false
    } else if node.solid {
        DIFBuilder::solid_leaf_has_plane(interior, node.index, plane_index)
    } else {
        false
    }
}

/// How many surfaces a short ray through their middle finds in the tree.
pub fn calculate_bsp_raycast_coverage(interior: &Interior) -> BSPReport {
    let mut hit = 0;
    let mut total_area = 0.0f32;
    let mut hit_area = 0.0f32;
    for s in &interior.surfaces {
        let start = s.winding_start.into_inner() as usize;
        let points: Vec<V3> = interior.indices[start..start + s.winding_count as usize]
            .iter()
            .map(|i| vector(interior.points[i.into_inner() as usize]))
            .collect();
        let mut middle = V3::new(0.0, 0.0, 0.0);
        for p in &points {
            middle += *p;
        }
        middle /= s.winding_count as f32;
        let mut area = 0.0;
        for i in 0..points.len() {
            area += (points[i] - middle).cross(points[(i + 1) % points.len()] - middle).magnitude()
                / 2.0;
        }
        total_area += area;
        let plane = &interior.planes[(s.plane_index.into_inner() & 0x7FFF) as usize];
        let normal = vector(interior.normals[plane.normal_index.into_inner() as usize]);
        let sign = if s.plane_flipped { -1.0 } else { 1.0 };
        let from = middle + normal * sign * 0.1;
        let to = middle - normal * sign * 0.1;
        let root = BSPIndex { index: 0, leaf: false, solid: false };
        if bsp_ray_cast(interior, &root, u16::MAX, from, to) {
            hit += 1;
            hit_area += area;
        }
    }
    BSPReport {
        hit,
        balance_factor: 0,
        total: interior.surfaces.len(),
        hit_area_percentage: bits((hit_area / total_area) * 100.0),
    }
}

/// The dot products of the normals of the planes of each hull, for the
/// hulls that have more than 8 planes.
pub fn hull_plane_dots(interior: &Interior) -> Result<Vec<Vec<Vec<F32>>>, BuildError> {
    let mut all = vec![];
    for hull in &interior.convex_hulls {
        let surfaces = hull_surfaces(interior, hull)?;
        let (planes, _) = unique_tables(&surfaces);
        if planes.len() <= 8 {
            all.push(vec![]);
            continue;
        }
        let normals: Vec<V3> = planes.iter().map(|&p| plane_of_node(interior, p).0).collect();
        all.push(
            normals
                .iter()
                .map(|a| normals.iter().map(|b| bits(a.dot(*b))).collect())
                .collect(),
        );
    }
    Ok(all)
}

/// Builds the interior of the triangles.
pub fn build_interior(
    triangles: &Vec<InputTriangle>,
    config: &Config,
    progress: &mut dyn ProgressEventListener,
) -> Result<(Interior, BSPReport), Failure> {
    let mut builder = DIFBuilder::new(config.mb_only);
    let mut lookup = new_lookup(*config);
    for (i, t) in triangles.iter().enumerate() {
        let uv = |i: usize| Point2F { x: bits(t.uv[i][0]), y: bits(t.uv[i][1]) };
        let length = t.normal.magnitude();
        if length.is_finite() && length != 0.0 && (length - 1.0).abs() > 1e-3 {
            return Err(Failure::NotUnit(i));
        }
        builder
            .add_triangle(
                point(t.verts[0]),
                point(t.verts[1]),
                point(t.verts[2]),
                uv(0),
                uv(1),
                uv(2),
                plane_bits(t.normal, -t.normal.dot(t.verts[0])),
                t.material.clone(),
            )
            .map_err(|e| Failure::BadTriangle(i, e))?;
    }
    let (xs, ys, bounds) = grid_lines(&builder.brushes);
    builder.interior.bounding_box = bounds;
    builder.interior.bounding_sphere = get_bounding_sphere(&builder.brushes);
    let groups = group_polys(&builder)?;
    for (i, group) in groups.iter().enumerate() {
        progress.progress(
            (i + 1) as u32,
            groups.len() as u32,
            "Exporting \"convex\" hulls".to_string(),
            "Exported \"convex\" hulls".to_string(),
        );
        export_convex_hull(&mut builder, &mut lookup, group)?;
    }
    let (root, planes) = build_bsp(&builder.brushes, config, progress)?;
    let balance_factor = root.balance_factor();
    let mut plane_of = vec![];
    for (normal, d) in &planes {
        plane_of.push(export_plane(&mut builder, &mut lookup, *normal, *d)?);
    }
    builder.export_bsp_node(&root, &plane_of)?;
    builder.add_zone();
    builder.export_coord_bins(&xs, &ys)?;
    if config.mb_only {
        builder.add_marble_blast_stubs();
    } else {
        let dots = hull_plane_dots(&builder.interior)?;
        builder.process_hull_poly_lists(&dots)?;
    }
    if !tables_are_sound(&builder.interior) {
        return Err(Failure::Build(BuildError::BrokenTable));
    }
    let mut report = builder.interior.calculate_bsp_raycast_coverage();
    report.balance_factor = balance_factor;
    Ok((builder.interior, report))
}

/// Adds a trigger whose volume is the box of the size `size` that starts
/// at `pos`.
pub fn add_trigger(
    dif: &mut Dif,
    pos: V3,
    size: V3,
    name: String,
    datablock: String,
    properties: Dictionary,
) {
    dif.add_trigger(point(pos), point(pos + size), name, datablock, properties);
}

struct Quiet;

impl ProgressEventListener for Quiet {
    fn progress(&mut self, _current: u32, _total: u32, _status: String, _finish_status: String) {}
}

fn tri(a: [f32; 3], b: [f32; 3], c: [f32; 3], material: &str) -> InputTriangle {
    let a = V3::new(a[0], a[1], a[2]);
    let b = V3::new(b[0], b[1], b[2]);
    let c = V3::new(c[0], c[1], c[2]);
    let normal = (b - a).cross(c - a).normalize();
    InputTriangle {
        verts: [a, b, c],
        uv: [[0.0, 0.0], [1.0, 0.0], [0.0, 1.0]],
        normal,
        material: material.to_string(),
    }
}

/// The twelve triangles of the box from `lo` to `lo` + 1 each way, facing
/// outwards.
fn cube(lo: [f32; 3]) -> Vec<InputTriangle> {
    let p = |x: f32, y: f32, z: f32| [lo[0] + x, lo[1] + y, lo[2] + z];
    let quads = [
        [p(0., 0., 0.), p(0., 1., 0.), p(1., 1., 0.), p(1., 0., 0.)], // bottom
        [p(0., 0., 1.), p(1., 0., 1.), p(1., 1., 1.), p(0., 1., 1.)], // top
        [p(0., 0., 0.), p(1., 0., 0.), p(1., 0., 1.), p(0., 0., 1.)], // front
        [p(0., 1., 0.), p(0., 1., 1.), p(1., 1., 1.), p(1., 1., 0.)], // back
        [p(0., 0., 0.), p(0., 0., 1.), p(0., 1., 1.), p(0., 1., 0.)], // left
        [p(1., 0., 0.), p(1., 1., 0.), p(1., 1., 1.), p(1., 0., 1.)], // right
    ];
    let mut out = vec![];
    for q in quads {
        out.push(tri(q[0], q[1], q[2], "Default"));
        out.push(tri(q[0], q[2], q[3], "Default"));
    }
    out
}

fn tetrahedron() -> Vec<InputTriangle> {
    let a = [1.0, 1.0, 1.0];
    let b = [1.0, -1.0, -1.0];
    let c = [-1.0, 1.0, -1.0];
    let d = [-1.0, -1.0, 1.0];
    vec![tri(a, b, c, "Default"), tri(a, c, d, "Default"), tri(a, d, b, "Default"), tri(b, d, c, "Default")]
}

fn outward(triangles: &Vec<InputTriangle>, center: V3) {
    for t in triangles {
        assert!(t.normal.dot(t.verts[0] - center) > 0.0);
    }
}

fn assert_tables_sound(x: &Interior) {
    assert_eq!(x.point_visibilities.len(), x.points.len());
    for p in &x.planes {
        assert!((p.normal_index.into_inner() as usize) < x.normals.len());
    }
    for i in &x.indices {
        assert!((i.into_inner() as usize) < x.points.len());
    }
    for s in &x.surfaces {
        assert!(((s.plane_index.into_inner() & 0x7FFF) as usize) < x.planes.len());
        assert!((s.winding_start.into_inner() + s.winding_count) as usize <= x.indices.len());
        assert!((s.texture_index.into_inner() as usize) < x.material_names.len());
        assert!((s.tex_gen_index.into_inner() as usize) < x.tex_gen_eqs.len());
    }
    for s in &x.zone_surfaces {
        assert!((s.into_inner() as usize) < x.surfaces.len());
    }
}

#[test]
fn unit_tetrahedron() {
    let triangles = tetrahedron();
    outward(&triangles, V3::new(0.0, 0.0, 0.0));
    let (interior, report) =
        build_interior(&triangles, &default_config(), &mut Quiet).unwrap();
    assert_eq!(interior.surfaces.len(), 4);
    assert_eq!(interior.planes.len(), 4);
    assert_eq!(interior.points.len(), 4);
    // the box of each face is the whole cube from -1 to 1, so that a
    // group of its own costs a face more than any group that is there
    assert_eq!(interior.convex_hulls.len(), 4);
    assert_eq!(interior.zones.len(), 1);
    assert_eq!(interior.coord_bins.len(), 256);
    assert_eq!(report.total, 4);
    assert_eq!(report.hit, 4);
    // each face of a convex body lies behind every other one: the tree
    // is a chain of four nodes and a leaf, all to the back
    assert_eq!(report.balance_factor, -4);
    assert_eq!(interior.bsp_nodes.len(), 4);
    assert_eq!(interior.bsp_solid_leaves.len(), 1);
    assert_eq!(interior.solid_leaf_surfaces.len(), 4);
}

#[test]
fn axis_aligned_unit_cube() {
    let triangles = cube([0.0, 0.0, 0.0]);
    outward(&triangles, V3::new(0.5, 0.5, 0.5));
    let (interior, report) =
        build_interior(&triangles, &default_config(), &mut Quiet).unwrap();
    assert_eq!(interior.surfaces.len(), 12);
    assert_eq!(interior.planes.len(), 6);
    assert_eq!(interior.points.len(), 8);
    assert_tables_sound(&interior);
    assert_eq!(report.total, 12);
    assert!(report.hit as f32 / report.total as f32 >= 0.99);
    assert!(num(report.hit_area_percentage) >= 99.0);
    // every triangle is named by a solid leaf
    for i in 0..12u16 {
        assert!(interior
            .solid_leaf_surfaces
            .contains(&PossiblyNullSurfaceIndex::NonNull(difbuilder::interior::SurfaceIndex::new(i))));
    }
}

#[test]
fn cube_is_built_the_same_every_time() {
    let triangles = cube([0.0, 0.0, 0.0]);
    let (first, _) = build_interior(&triangles, &default_config(), &mut Quiet).unwrap();
    let (second, _) = build_interior(&triangles, &default_config(), &mut Quiet).unwrap();
    assert_eq!(first.bsp_nodes, second.bsp_nodes);
    assert_eq!(first.bsp_solid_leaves, second.bsp_solid_leaves);
    assert_eq!(first.solid_leaf_surfaces, second.solid_leaf_surfaces);
}

#[test]
fn two_disjoint_cubes() {
    let mut triangles = cube([0.0, 0.0, 0.0]);
    triangles.extend(cube([10.0, 0.0, 0.0]));
    let (interior, _) = build_interior(&triangles, &default_config(), &mut Quiet).unwrap();
    assert_eq!(interior.surfaces.len(), 24);
    assert!(interior.convex_hulls.len() >= 2);
    assert_eq!(interior.coord_bins.len(), 256);
    // each bin names exactly the hulls whose bounds overlap its cell
    let min = vector(interior.bounding_box.min);
    let max = vector(interior.bounding_box.max);
    let extent = max - min;
    let mut named = vec![false; interior.convex_hulls.len()];
    for i in 0..16 {
        let min_x = min.x + (i as f32 * extent.x / 16f32);
        let max_x = min.x + ((i + 1) as f32 * extent.x / 16f32);
        for j in 0..16 {
            let min_y = min.y + (j as f32 * extent.y / 16f32);
            let max_y = min.y + ((j + 1) as f32 * extent.y / 16f32);
            let bin = interior.coord_bins[i * 16 + j];
            let start = bin.bin_start.into_inner() as usize;
            let listed: Vec<u16> = interior.coord_bin_indices[start..start + bin.bin_count as usize]
                .iter()
                .map(|h| h.into_inner())
                .collect();
            let mut expected = vec![];
            for (k, hull) in interior.convex_hulls.iter().enumerate() {
                if !(min_x > num(hull.max_x)
                    || max_x < num(hull.min_x)
                    || min_y > num(hull.max_y)
                    || max_y < num(hull.min_y))
                {
                    expected.push(k as u16);
                    named[k] = true;
                }
            }
            assert_eq!(listed, expected);
        }
    }
    assert!(named.iter().all(|&n| n));
}

#[test]
fn triangles_must_hold_finite_numbers_and_unit_normals() {
    let mut triangles = tetrahedron();
    triangles[2].verts[1].y = f32::NAN;
    assert_eq!(
        build_interior(&triangles, &default_config(), &mut Quiet).err(),
        Some(Failure::BadTriangle(2, BuildError::NotFinite))
    );
    let mut triangles = tetrahedron();
    triangles[1].uv[0][0] = f32::INFINITY;
    assert_eq!(
        build_interior(&triangles, &default_config(), &mut Quiet).err(),
        Some(Failure::BadTriangle(1, BuildError::NotFinite))
    );
    let mut triangles = tetrahedron();
    triangles[0].normal = V3::new(0.0, -0.0, 0.0);
    assert_eq!(
        build_interior(&triangles, &default_config(), &mut Quiet).err(),
        Some(Failure::BadTriangle(0, BuildError::ZeroNormal))
    );
    let mut triangles = tetrahedron();
    triangles[3].normal *= 2.0;
    assert_eq!(
        build_interior(&triangles, &default_config(), &mut Quiet).err(),
        Some(Failure::NotUnit(3))
    );
}

#[test]
fn kept_corners_lie_behind_the_clip_plane() {
    let epsilon = 1e-4;
    let p = BSPPolygon {
        vertices: vec![
            point(V3::new(-1.0, 0.0, 0.0)),
            point(V3::new(1.0, 0.0, 0.0)),
            point(V3::new(0.0, 2.0, 0.5)),
        ],
        indices: vec![0, 1, 2],
        plane: plane_bits(V3::new(0.0, 0.0, 1.0), 0.0),
        plane_id: 0,
        id: 0,
        used_plane: false,
        inverted_plane: false,
        area_calc: bits(0.0),
    };
    let plane = (V3::new(1.0, 0.0, 0.0), -0.25);
    for flip in [false, true] {
        let piece = clip_plane(&p, plane, flip, epsilon).unwrap();
        assert!(piece.indices.len() >= 3);
        let (n, d) = if flip { (-plane.0, -plane.1) } else { plane };
        for &i in &piece.indices {
            assert!(n.dot(vector(piece.vertices[i])) + d <= 10.0 * epsilon);
        }
    }
}

#[test]
fn interior_for_other_engines_has_poly_lists() {
    let triangles = tetrahedron();
    let mut config = default_config();
    config.mb_only = false;
    let (interior, _) = build_interior(&triangles, &config, &mut Quiet).unwrap();
    assert_eq!(interior.normals.len(), 4);
    assert_eq!(interior.normal2s, interior.normals);
    // four hulls of one face each
    assert_eq!(interior.convex_hulls.len(), 4);
    assert_eq!(interior.hull_emit_string_indices.len(), 12);
    assert_eq!(interior.poly_list_plane_indices.len(), 4);
    assert_eq!(interior.poly_list_point_indices.len(), 12);
    let one_face = [1u8, 1, 0, 3, 1, 1, 1, 1, 3, 1, 0, 0, 0, 0, 1, 0, 2];
    assert_eq!(interior.poly_list_string_characters.len(), 4 * one_face.len());
    for h in 0..4 {
        assert_eq!(interior.poly_list_string_characters[h * 17..(h + 1) * 17], one_face);
        let hull = &interior.convex_hulls[h];
        assert_eq!(hull.poly_list_plane_start.into_inner(), h as u32);
        assert_eq!(hull.poly_list_point_start.into_inner(), 3 * h as u32);
        assert_eq!(hull.poly_list_string_start.into_inner(), 17 * h as u32);
    }
    // one point sees one face: three points, three edges, one face
    let start = interior.hull_emit_string_indices[0].into_inner() as usize;
    assert_eq!(
        interior.convex_hull_emit_string_characters[start..start + 17],
        [3u8, 0, 1, 2, 3, 0, 1, 1, 2, 0, 2, 1, 3, 0, 0, 1, 2]
    );
}

#[test]
fn built_interior_is_written_and_read() {
    let triangles = cube([0.0, 0.0, 0.0]);
    let (interior, _) = build_interior(&triangles, &default_config(), &mut Quiet).unwrap();
    let dif = difbuilder::dif::dif_with_interiors(vec![interior]);
    let bytes = difbuilder::api::write_dif(&dif).unwrap();
    assert_eq!(&bytes[..4], &[0x2C, 0, 0, 0]);
    let (back, version) = difbuilder::dif::Dif::from_bytes(&bytes).unwrap();
    assert_eq!(version.engine, difbuilder::io::EngineVersion::MBG);
    assert_eq!(back.interiors.len(), 1);
    let a = &back.interiors[0];
    let b = &dif.interiors[0];
    assert_eq!(a.surfaces, b.surfaces);
    assert_eq!(a.points, b.points);
    assert_eq!(a.planes, b.planes);
    assert_eq!(a.bsp_nodes, b.bsp_nodes);
    assert_eq!(a.convex_hulls, b.convex_hulls);
    assert_eq!(a.coord_bins, b.coord_bins);
    // the light map index that stands for none is cut to a byte
    assert_eq!(b.alarm_lmap_indices[0].into_inner(), 0xFFFF_FFFF);
    assert_eq!(a.alarm_lmap_indices[0].into_inner(), 0xFF);
}

#[test]
fn plane_through_three_points() {
    let p = plane_from_triangle(
        V3::new(0.0, 0.0, 2.0),
        V3::new(1.0, 0.0, 2.0),
        V3::new(0.0, 1.0, 2.0),
    );
    assert_eq!(vector(p.normal), V3::new(0.0, 0.0, -1.0));
    assert_eq!(num(p.distance), 2.0);
    let config = set_convert_configuration(false, 1e-3, 1e-2, 1e-1, SplitMethod::Exhaustive);
    assert!(!config.mb_only);
    assert_eq!(config.split_epsilon, 1e-1);
}

#[test]
fn exhaustive_method_builds_the_cube_too() {
    let triangles = cube([0.0, 0.0, 0.0]);
    let mut config = default_config();
    config.bsp_mode = SplitMethod::Exhaustive;
    let (interior, report) = build_interior(&triangles, &config, &mut Quiet).unwrap();
    assert_eq!(interior.surfaces.len(), 12);
    assert_eq!(report.total, 12);
    assert_eq!(report.hit, 12);
}

#[test]
fn trigger_of_a_position_and_a_size() {
    let mut dif = difbuilder::dif::dif_with_interiors(vec![]);
    add_trigger(
        &mut dif,
        V3::new(0.0, 0.0, 0.0),
        V3::new(2.0, 3.0, 4.0),
        "T".to_string(),
        "D".to_string(),
        Dictionary::new(),
    );
    let trigger = &dif.triggers[0];
    assert_eq!(trigger.polyhedron.point_list.len(), 8);
    assert_eq!(trigger.polyhedron.edge_list.len(), 12);
    let planes: Vec<(V3, f32)> = trigger
        .polyhedron
        .plane_list
        .iter()
        .map(|p| (vector(p.normal), num(p.distance)))
        .collect();
    assert_eq!(
        planes,
        vec![
            (V3::new(-1.0, 0.0, 0.0), 0.0),
            (V3::new(0.0, 1.0, 0.0), 3.0),
            (V3::new(1.0, 0.0, 0.0), 2.0),
            (V3::new(0.0, -1.0, 0.0), 0.0),
            (V3::new(0.0, 0.0, 1.0), 4.0),
            (V3::new(0.0, 0.0, -1.0), 0.0),
        ]
    );
    assert_eq!(vector(trigger.offset), V3::new(0.0, 0.0, 0.0));
}
