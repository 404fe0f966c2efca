use vstd::prelude::*;
use crate::dif::{Dif, DIF_VERSION};
use crate::errors::DifResult;
use crate::float::ONE_BITS;
use crate::interior::Interior;
use crate::interior_path_follower::{InteriorPathFollower, WayPoint};
use crate::io::{as_unsigned, count_of, EngineVersion, Version, Writable};
use crate::types::{dict_put, Dictionary, Point2F, Point3F, QuatF, F32};

verus! {

/// A triangle as a client hands it over: its corners, its texture
/// coordinates, its normal and its material.
#[derive(Clone, Debug, PartialEq, Eq)]
pub struct TriangleRaw {
    pub verts: [Point3F; 3],
    pub uv: [Point2F; 3],
    pub norm: Point3F,
    pub material: String,
}

/// An interior that moves along way points.
#[derive(Debug)]
pub struct PathedInteriorImpl {
    pub interior: Interior,
    pub waypoints: Vec<WayPoint>,
    pub trigger_ids: Vec<u32>,
    pub properties: Dictionary,
    pub offset: Point3F,
}

/// What a client has handed over for a build.
#[derive(Debug)]
pub struct DifBuilderImpl {
    pub triangles: Vec<TriangleRaw>,
    pub pathed_interiors: Vec<PathedInteriorImpl>,
}

/// A list of way points.
#[derive(Debug)]
pub struct MarkerListImpl {
    pub markers: Vec<WayPoint>,
}

/// A list of the ids of triggers.
#[derive(Debug)]
pub struct TriggerIdListImpl {
    pub trigger_ids: Vec<u32>,
}

/// The version that files are written for: Marble Blast Gold, format 44,
/// interiors of version 0.
pub open spec fn spec_written_version() -> Version {
    Version {
        engine: EngineVersion::MBG,
        dif: DIF_VERSION,
        interior: 0,
        material_list: 1,
        vehicle_collision: 0,
        force_field: 0,
    }
}

/// The version that files are written for.
#[verifier::when_used_as_spec(spec_written_version)]
pub fn written_version() -> (v: Version)
    ensures
        v == spec_written_version(),
{
    Version {
        engine: EngineVersion::MBG,
        dif: DIF_VERSION,
        interior: 0,
        material_list: 1,
        vehicle_collision: 0,
        force_field: 0,
    }
}

pub fn new_difbuilder() -> (r: DifBuilderImpl)
    ensures
        r.triangles@.len() == 0,
        r.pathed_interiors@.len() == 0,
{
    DifBuilderImpl { triangles: Vec::new(), pathed_interiors: Vec::new() }
}

/// A dictionary without entries.
pub fn new_dict() -> (r: Dictionary)
    ensures
        r.deep_view() == Seq::<(Seq<char>, Seq<char>)>::empty(),
        r.wf(),
{
    Dictionary::new()
}

/// Sets `key` to `value` in the dictionary.
pub fn add_dict_kvp(dict: &mut Dictionary, key: String, value: String)
    ensures
        final(dict).deep_view() == dict_put(old(dict).deep_view(), key@, value@),
        old(dict).wf() ==> final(dict).wf(),
{
    dict.insert(key, value);
}

pub fn new_marker_list() -> (r: MarkerListImpl)
    ensures
        r.markers@.len() == 0,
{
    MarkerListImpl { markers: Vec::new() }
}

/// The way point at `pos` that is not turned: its rotation is the unit
/// quaternion. The time to the next way point is taken by its bits.
pub open spec fn marker(pos: Point3F, ms_to_next: i32, smoothing_type: u32) -> WayPoint {
    WayPoint {
        position: pos,
        rotation: QuatF { s: F32 { bits: ONE_BITS }, v: Point3F::spec_zero() },
        ms_to_next: as_unsigned(ms_to_next),
        smoothing_type,
    }
}

/// Adds a way point to the list.
pub fn push_marker(list: &mut MarkerListImpl, pos: Point3F, ms_to_next: i32, smoothing_type: u32)
    ensures
        final(list).markers@ == old(list).markers@.push(marker(pos, ms_to_next, smoothing_type)),
{
    let ms = if ms_to_next >= 0 {
        ms_to_next as u32
    } else {
        (ms_to_next as i64 + 0x1_0000_0000) as u32
    };
    list.markers.push(
        WayPoint {
            position: pos,
            rotation: QuatF { s: F32 { bits: ONE_BITS }, v: Point3F::zero() },
            ms_to_next: ms,
            smoothing_type,
        },
    );
}

pub fn new_trigger_id_list() -> (r: TriggerIdListImpl)
    ensures
        r.trigger_ids@.len() == 0,
{
    TriggerIdListImpl { trigger_ids: Vec::new() }
}

/// Adds the id of a trigger to the list.
pub fn push_trigger_id(list: &mut TriggerIdListImpl, trigger_id: u32)
    ensures
        final(list).trigger_ids@ == old(list).trigger_ids@.push(trigger_id),
{
    list.trigger_ids.push(trigger_id);
}

/// Adds a triangle to what is built.
pub fn add_triangle(
    builder: &mut DifBuilderImpl,
    p1: Point3F,
    p2: Point3F,
    p3: Point3F,
    uv1: Point2F,
    uv2: Point2F,
    uv3: Point2F,
    normal: Point3F,
    material: String,
)
    ensures
        final(builder).pathed_interiors == old(builder).pathed_interiors,
        final(builder).triangles@ == old(builder).triangles@.push(
            TriangleRaw { verts: [p1, p2, p3], uv: [uv1, uv2, uv3], norm: normal, material },
        ),
{
    builder.triangles.push(
        TriangleRaw { verts: [p1, p2, p3], uv: [uv1, uv2, uv3], norm: normal, material },
    );
}

/// Takes the first interior out of a file and hands it to the build as an
/// interior that moves. The last interior of the file takes the place of
/// the first. Of a file without interiors nothing is taken.
pub fn add_pathed_interior(
    builder: &mut DifBuilderImpl,
    dif: &mut Dif,
    waypoints: Vec<WayPoint>,
    trigger_ids: Vec<u32>,
    properties: Dictionary,
    offset: Point3F,
) -> (taken: bool)
    ensures
        final(builder).triangles == old(builder).triangles,
        taken == (old(dif).interiors@.len() > 0),
        !taken ==> *final(builder) == *old(builder) && *final(dif) == *old(dif),
        taken ==> final(builder).pathed_interiors@ == old(builder).pathed_interiors@.push(
            PathedInteriorImpl {
                interior: old(dif).interiors@[0],
                waypoints,
                trigger_ids,
                properties,
                offset,
            },
        ) && final(dif).interiors@ == old(dif).interiors@.update(
            0,
            old(dif).interiors@.last(),
        ).drop_last(),
        final(dif).sub_objects == old(dif).sub_objects,
        final(dif).triggers == old(dif).triggers,
        final(dif).interior_path_followers == old(dif).interior_path_followers,
        final(dif).force_fields == old(dif).force_fields,
        final(dif).ai_special_nodes == old(dif).ai_special_nodes,
        final(dif).vehicle_collision == old(dif).vehicle_collision,
        final(dif).game_entities == old(dif).game_entities,
{
    if dif.interiors.len() == 0 {
        return false;
    }
    let interior = dif.interiors.swap_remove(0);
    builder.pathed_interiors.push(
        PathedInteriorImpl { interior, waypoints, trigger_ids, properties, offset },
    );
    true
}

/// The times of the first `n` way points together, cut to 32 bits.
pub open spec fn total_ms(waypoints: Seq<WayPoint>, n: nat) -> u32
    decreases n,
{
    if n == 0 {
        0
    } else {
        ((total_ms(waypoints, (n - 1) as nat) + waypoints[n - 1].ms_to_next) % 0x1_0000_0000) as u32
    }
}

/// The times of the way points together, cut to 32 bits.
pub fn sum_ms(waypoints: &Vec<WayPoint>) -> (r: u32)
    ensures
        r == total_ms(waypoints@, waypoints@.len()),
{
    let mut sum: u32 = 0;
    let mut i: usize = 0;
    while i < waypoints.len()
        invariant
            i <= waypoints.len(),
            sum == total_ms(waypoints@, i as nat),
        decreases waypoints.len() - i,
    {
        sum = ((sum as u64 + waypoints[i].ms_to_next as u64) % 0x1_0000_0000) as u32;
        i = i + 1;
    }
    sum
}

/// Puts an interior that moves into a file: the interior goes to the sub
/// objects, and a path follower names it with its way points.
pub fn attach_pathed_interior(dif: &mut Dif, pathed: PathedInteriorImpl)
    ensures
        final(dif).interiors == old(dif).interiors,
        final(dif).triggers == old(dif).triggers,
        final(dif).force_fields == old(dif).force_fields,
        final(dif).ai_special_nodes == old(dif).ai_special_nodes,
        final(dif).vehicle_collision == old(dif).vehicle_collision,
        final(dif).game_entities == old(dif).game_entities,
        final(dif).sub_objects@ == old(dif).sub_objects@.push(pathed.interior),
        final(dif).interior_path_followers@.len() == old(dif).interior_path_followers@.len() + 1,
        final(dif).interior_path_followers@.drop_last() == old(dif).interior_path_followers@,
        final(dif).interior_path_followers@.last().interior_res_index == crate::io::list_count(
            old(dif).sub_objects@.len(),
        ),
        final(dif).interior_path_followers@.last().total_ms == total_ms(
            pathed.waypoints@,
            pathed.waypoints@.len(),
        ),
        final(dif).interior_path_followers@.last().way_points == pathed.waypoints,
        final(dif).interior_path_followers@.last().trigger_ids == pathed.trigger_ids,
        final(dif).interior_path_followers@.last().properties == pathed.properties,
        final(dif).interior_path_followers@.last().offset == pathed.offset,
        final(dif).interior_path_followers@.last().name@ == "MustChange"@,
        final(dif).interior_path_followers@.last().datablock@ == "PathedDefault"@,
{
    let sub_index = count_of(dif.sub_objects.len());
    let total = sum_ms(&pathed.waypoints);
    dif.sub_objects.push(pathed.interior);
    dif.interior_path_followers.push(
        InteriorPathFollower {
            datablock: "PathedDefault".to_owned(),
            interior_res_index: sub_index,
            name: "MustChange".to_owned(),
            offset: pathed.offset,
            total_ms: total,
            way_points: pathed.waypoints,
            trigger_ids: pathed.trigger_ids,
            properties: pathed.properties,
        },
    );
    assert(dif.interior_path_followers@.drop_last() =~= old(dif).interior_path_followers@);
}

/// The bytes of a file, written for Marble Blast Gold. They start with
/// the version 44 of the format, low byte first.
pub fn write_dif(dif: &Dif) -> (r: DifResult<Vec<u8>>)
    ensures
        match r {
            Ok(bytes) => Dif::writable(dif.deep_view(), spec_written_version()) && bytes@
                == Dif::encode(dif.deep_view(), spec_written_version()) && bytes@.len() >= 4
                && bytes@[0] == 0x2C && bytes@[1] == 0 && bytes@[2] == 0 && bytes@[3] == 0,
            Err(e) => !Dif::writable(dif.deep_view(), spec_written_version()),
        },
{
    let version = written_version();
    let mut bytes: Vec<u8> = Vec::new();
    match dif.write(&mut bytes, &version) {
        Ok(_) => {},
        Err(e) => {
            return Err(e);
        },
    }
    proof {
        let e = Dif::encode(dif.deep_view(), version);
        let head = crate::io::u32_le_bytes(DIF_VERSION);
        assert(bytes@ =~= e);
        crate::roundtrip::lemma_u32_bytes(DIF_VERSION);
        assert(head[0] == 0x2C && head[1] == 0 && head[2] == 0 && head[3] == 0);
        lemma_starts_with(e, head, dif.deep_view(), version);
    }
    Ok(bytes)
}

/// The wire form of a file starts with the version of the format.
pub proof fn lemma_starts_with(e: Seq<u8>, head: Seq<u8>, x: crate::dif::DifView, v: Version)
    requires
        e == Dif::encode(x, v),
        head == crate::io::u32_le_bytes(v.dif),
        head.len() == 4,
    ensures
        e.len() >= 4,
        forall|i: int| 0 <= i < 4 ==> e[i] == head[i],
{
    assert(u32::encode(v.dif, v) == head);
    assert(e.len() >= 4);
    assert forall|i: int| 0 <= i < 4 implies e[i] == head[i] by {}
}

} // verus!
