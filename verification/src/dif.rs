use vstd::prelude::*;
use crate::ai_special_node::{AISpecialNode, AISpecialNodeView};
use crate::errors::{DifErrorKind, DifResult};
use crate::force_field::{ForceField, ForceFieldView};
use crate::game_entity::{GameEntity, GameEntityView};
use crate::interior::{Interior, InteriorView};
use crate::interior_path_follower::{InteriorPathFollower, InteriorPathFollowerView};
use crate::io::{
    lemma_add_assoc, lemma_add_empty, no_items, Cursor, Readable, Reader, Version, Writable,
};
use crate::roundtrip::{lemma_split, lemma_u32_bytes, stands_at, RoundTrip};
use crate::trigger::{Trigger, TriggerView};
use crate::types::{Dictionary, Point3F, PNG};
use crate::vehicle_collision::{VehicleCollision, VehicleCollisionView};

verus! {

/// A DIF file: interiors and what stands in them.
#[derive(Debug)]
pub struct Dif {
    pub interiors: Vec<Interior>,
    pub sub_objects: Vec<Interior>,
    pub triggers: Vec<Trigger>,
    pub interior_path_followers: Vec<InteriorPathFollower>,
    pub force_fields: Vec<ForceField>,
    pub ai_special_nodes: Vec<AISpecialNode>,
    pub vehicle_collision: Option<VehicleCollision>,
    pub game_entities: Vec<GameEntity>,
}

/// What a `Dif` holds, as mathematical values.
pub struct DifView {
    pub interiors: Seq<InteriorView>,
    pub sub_objects: Seq<InteriorView>,
    pub triggers: Seq<TriggerView>,
    pub interior_path_followers: Seq<InteriorPathFollowerView>,
    pub force_fields: Seq<ForceFieldView>,
    pub ai_special_nodes: Seq<AISpecialNodeView>,
    pub vehicle_collision: Option<VehicleCollisionView>,
    pub game_entities: Seq<GameEntityView>,
}

impl DeepView for Dif {
    type V = DifView;

    open spec fn deep_view(&self) -> DifView {
        DifView {
            interiors: self.interiors.deep_view(),
            sub_objects: self.sub_objects.deep_view(),
            triggers: self.triggers.deep_view(),
            interior_path_followers: self.interior_path_followers.deep_view(),
            force_fields: self.force_fields.deep_view(),
            ai_special_nodes: self.ai_special_nodes.deep_view(),
            vehicle_collision: match self.vehicle_collision {
                Some(vc) => Some(vc.deep_view()),
                None => None,
            },
            game_entities: self.game_entities.deep_view(),
        }
    }
}

/// The version of the file format that is read and written.
pub const DIF_VERSION: u32 = 44;

impl Readable for Dif {
    /// A file: the version 44, an optional preview image, which is
    /// skipped, then the lists. The collision shape of a vehicle is there
    /// where the number before it is not 0, the game entities where the
    /// number before them is 2.
    open spec fn parse(d: Seq<u8>, c: Cursor, v: Version) -> (DifView, Cursor, Version) {
        let (dif_version, c, v) = u32::parse(d, c, v);
        let v = Version { dif: dif_version, ..v };
        let c = if c.ok() && dif_version != DIF_VERSION {
            c.fail(DifErrorKind::BadVersion)
        } else {
            c
        };
        let (has_preview, c, v) = u8::parse(d, c, v);
        let (preview, c, v) = if c.ok() && has_preview != 0 {
            PNG::parse(d, c, v)
        } else {
            (Seq::empty(), c, v)
        };
        let (interiors, c, v) = Vec::<Interior>::parse(d, c, v);
        let (sub_objects, c, v) = Vec::<Interior>::parse(d, c, v);
        let (triggers, c, v) = Vec::<Trigger>::parse(d, c, v);
        let (interior_path_followers, c, v) = Vec::<InteriorPathFollower>::parse(d, c, v);
        let (force_fields, c, v) = Vec::<ForceField>::parse(d, c, v);
        let (ai_special_nodes, c, v) = Vec::<AISpecialNode>::parse(d, c, v);
        let (has_vehicle_collision, c, v) = u32::parse(d, c, v);
        let (vehicle_collision, c, v) = if c.ok() && has_vehicle_collision != 0 {
            let (vc, c, v) = VehicleCollision::parse(d, c, v);
            (Some(vc), c, v)
        } else {
            (None, c, v)
        };
        let (has_game_entities, c, v) = u32::parse(d, c, v);
        let (game_entities, c, v) = if c.ok() && has_game_entities == 2 {
            Vec::<GameEntity>::parse(d, c, v)
        } else {
            (Seq::empty(), c, v)
        };
        (
            DifView {
                interiors,
                sub_objects,
                triggers,
                interior_path_followers,
                force_fields,
                ai_special_nodes,
                vehicle_collision,
                game_entities,
            },
            c,
            v,
        )
    }

    fn take(from: &mut Reader, version: &mut Version) -> (r: Self) {
        version.dif = u32::take(from, version);
        if from.ok() && version.dif != DIF_VERSION {
            from.fail(DifErrorKind::BadVersion);
        }
        let has_preview = u8::take(from, version);
        if from.ok() && has_preview != 0 {
            let _ = PNG::take(from, version);
        }
        let interiors = Vec::<Interior>::take(from, version);
        let sub_objects = Vec::<Interior>::take(from, version);
        let triggers = Vec::<Trigger>::take(from, version);
        let interior_path_followers = Vec::<InteriorPathFollower>::take(from, version);
        let force_fields = Vec::<ForceField>::take(from, version);
        let ai_special_nodes = Vec::<AISpecialNode>::take(from, version);
        let has_vehicle_collision = u32::take(from, version);
        let vehicle_collision = if from.ok() && has_vehicle_collision != 0 {
            Some(VehicleCollision::take(from, version))
        } else {
            None
        };
        let has_game_entities = u32::take(from, version);
        let game_entities = if from.ok() && has_game_entities == 2 {
            Vec::<GameEntity>::take(from, version)
        } else {
            no_items()
        };
        Dif {
            interiors,
            sub_objects,
            triggers,
            interior_path_followers,
            force_fields,
            ai_special_nodes,
            vehicle_collision,
            game_entities,
        }
    }
}

impl Dif {
    /// Reads a file from its bytes, under a version of which nothing is
    /// known yet. With the file comes the version found in it.
    pub fn from_bytes(from: &[u8]) -> (r: DifResult<(Dif, Version)>)
        ensures
            match r {
                Ok(y) => {
                    let (x, c, v) = Dif::parse(from@, Cursor::at(0), Version::new());
                    c.ok() && y.0.deep_view() == x && y.1 == v
                },
                Err(e) => Dif::parse(from@, Cursor::at(0), Version::new()).1.err == Some(e.kind),
            },
    {
        let mut version = Version::new();
        let mut reader = Reader::new(from);
        let dif = Dif::take(&mut reader, &mut version);
        reader.finish((dif, version))
    }

    /// The wire form of the collision shape of a vehicle: a number that
    /// says whether there is one, then the shape.
    pub open spec fn encode_vehicle_collision(x: Option<VehicleCollisionView>, v: Version) -> Seq<
        u8,
    > {
        match x {
            Some(vc) => u32::encode(1u32, v) + VehicleCollision::encode(vc, v),
            None => u32::encode(0u32, v),
        }
    }

    /// The wire form of the game entities: 2 and the list, or 0 where
    /// there are none.
    pub open spec fn encode_game_entities(x: Seq<GameEntityView>, v: Version) -> Seq<u8> {
        if x.len() > 0 {
            u32::encode(2u32, v) + Vec::<GameEntity>::encode(x, v)
        } else {
            u32::encode(0u32, v)
        }
    }
}

impl Writable for Dif {
    /// A file can be written where its interiors can.
    open spec fn writable(x: DifView, v: Version) -> bool {
        Vec::<Interior>::writable(x.interiors, v) && Vec::<Interior>::writable(x.sub_objects, v)
    }

    /// The version, a byte of 0 for no preview image, the lists, and a
    /// closing 0.
    open spec fn encode(x: DifView, v: Version) -> Seq<u8> {
        u32::encode(v.dif, v) + u8::encode(0u8, v) + Vec::<Interior>::encode(x.interiors, v)
            + Vec::<Interior>::encode(x.sub_objects, v) + Vec::<Trigger>::encode(x.triggers, v)
            + Vec::<InteriorPathFollower>::encode(x.interior_path_followers, v) + Vec::<
            ForceField,
        >::encode(x.force_fields, v) + Vec::<AISpecialNode>::encode(x.ai_special_nodes, v)
            + Dif::encode_vehicle_collision(x.vehicle_collision, v) + Dif::encode_game_entities(
            x.game_entities,
            v,
        ) + u32::encode(0u32, v)
    }

    #[verifier::rlimit(50)]
    fn write(&self, to: &mut Vec<u8>, version: &Version) -> (r: DifResult<()>) {
        let ghost x = self.deep_view();
        let ghost v = *version;
        version.dif.write(to, version)?;
        let ghost sent = u32::encode(v.dif, v);
        0u8.write(to, version)?;
        proof {
            lemma_add_assoc(old(to)@, sent, u8::encode(0u8, v));
        }
        let ghost sent = sent + u8::encode(0u8, v);
        self.interiors.write(to, version)?;
        proof {
            lemma_add_assoc(old(to)@, sent, Vec::<Interior>::encode(x.interiors, v));
        }
        let ghost sent = sent + Vec::<Interior>::encode(x.interiors, v);
        self.sub_objects.write(to, version)?;
        proof {
            lemma_add_assoc(old(to)@, sent, Vec::<Interior>::encode(x.sub_objects, v));
        }
        let ghost sent = sent + Vec::<Interior>::encode(x.sub_objects, v);
        write_all(&self.triggers, to, version);
        proof {
            lemma_add_assoc(old(to)@, sent, Vec::<Trigger>::encode(x.triggers, v));
        }
        let ghost sent = sent + Vec::<Trigger>::encode(x.triggers, v);
        write_all(&self.interior_path_followers, to, version);
        proof {
            lemma_add_assoc(
                old(to)@,
                sent,
                Vec::<InteriorPathFollower>::encode(x.interior_path_followers, v),
            );
        }
        let ghost sent = sent + Vec::<InteriorPathFollower>::encode(x.interior_path_followers, v);
        write_all(&self.force_fields, to, version);
        proof {
            lemma_add_assoc(old(to)@, sent, Vec::<ForceField>::encode(x.force_fields, v));
        }
        let ghost sent = sent + Vec::<ForceField>::encode(x.force_fields, v);
        write_all(&self.ai_special_nodes, to, version);
        proof {
            lemma_add_assoc(old(to)@, sent, Vec::<AISpecialNode>::encode(x.ai_special_nodes, v));
        }
        let ghost sent = sent + Vec::<AISpecialNode>::encode(x.ai_special_nodes, v);
        let ghost mid = to@;
        match &self.vehicle_collision {
            Some(vehicle_collision) => {
                1u32.write(to, version)?;
                write_one(vehicle_collision, to, version);
            },
            None => {
                0u32.write(to, version)?;
            },
        }
        proof {
            let piece = Dif::encode_vehicle_collision(x.vehicle_collision, v);
            assert(to@ =~= mid + piece);
            lemma_add_assoc(old(to)@, sent, piece);
        }
        let ghost sent = sent + Dif::encode_vehicle_collision(x.vehicle_collision, v);
        let ghost mid = to@;
        if self.game_entities.len() > 0 {
            2u32.write(to, version)?;
            write_all(&self.game_entities, to, version);
        } else {
            0u32.write(to, version)?;
        }
        proof {
            let piece = Dif::encode_game_entities(x.game_entities, v);
            assert(to@ =~= mid + piece);
            lemma_add_assoc(old(to)@, sent, piece);
        }
        let ghost sent = sent + Dif::encode_game_entities(x.game_entities, v);
        0u32.write(to, version)?;
        proof {
            lemma_add_assoc(old(to)@, sent, u32::encode(0u32, v));
        }
        Ok(())
    }
}

impl Dif {
    /// Whether the file comes back from its wire form under `v`: the
    /// version of the format is 44, and each part comes back.
    pub open spec fn wire_ok(x: DifView, v: Version) -> bool {
        &&& v.dif == DIF_VERSION
        &&& Vec::<Interior>::wire_ok(x.interiors, v)
        &&& Vec::<Interior>::wire_ok(x.sub_objects, v)
        &&& Vec::<Trigger>::wire_ok(x.triggers, v)
        &&& Vec::<InteriorPathFollower>::wire_ok(x.interior_path_followers, v)
        &&& Vec::<ForceField>::wire_ok(x.force_fields, v)
        &&& Vec::<AISpecialNode>::wire_ok(x.ai_special_nodes, v)
        &&& match x.vehicle_collision {
            Some(vc) => VehicleCollision::wire_ok(vc, v),
            None => true,
        }
        &&& Vec::<GameEntity>::wire_ok(x.game_entities, v)
    }

    /// A file that is written and then read under the version it was
    /// written for comes back as it was. Reading ends before the closing
    /// 0, which is the last four bytes, and leaves the version as it is.
    #[verifier::rlimit(100)]
    pub proof fn lemma_write_read(x: DifView, v: Version)
        requires
            Dif::wire_ok(x, v),
        ensures
            Dif::parse(Dif::encode(x, v), Cursor::at(0), v) == (
                x,
                Cursor::at(Dif::encode(x, v).len() - 4),
                v,
            ),
    {
        let d = Dif::encode(x, v);
        let e0 = u32::encode(v.dif, v);
        let e1 = u8::encode(0u8, v);
        let e2 = Vec::<Interior>::encode(x.interiors, v);
        let e3 = Vec::<Interior>::encode(x.sub_objects, v);
        let e4 = Vec::<Trigger>::encode(x.triggers, v);
        let e5 = Vec::<InteriorPathFollower>::encode(x.interior_path_followers, v);
        let e6 = Vec::<ForceField>::encode(x.force_fields, v);
        let e7 = Vec::<AISpecialNode>::encode(x.ai_special_nodes, v);
        let e8 = Dif::encode_vehicle_collision(x.vehicle_collision, v);
        let e9 = Dif::encode_game_entities(x.game_entities, v);
        let e10 = u32::encode(0u32, v);
        let s0 = e0;
        let s1 = s0 + e1;
        let s2 = s1 + e2;
        let s3 = s2 + e3;
        let s4 = s3 + e4;
        let s5 = s4 + e5;
        let s6 = s5 + e6;
        let s7 = s6 + e7;
        let s8 = s7 + e8;
        let s9 = s8 + e9;
        assert(stands_at(d, 0, s9 + e10)) by {
            reveal(stands_at);
            assert(d.subrange(0, d.len() as int) =~= d);
        }
        lemma_u32_bytes(0u32);
        lemma_split(d, 0, s9, e10);
        lemma_split(d, 0, s8, e9);
        lemma_split(d, 0, s7, e8);
        lemma_split(d, 0, s6, e7);
        lemma_split(d, 0, s5, e6);
        lemma_split(d, 0, s4, e5);
        lemma_split(d, 0, s3, e4);
        lemma_split(d, 0, s2, e3);
        lemma_split(d, 0, s1, e2);
        lemma_split(d, 0, s0, e1);
        u32::lemma_roundtrip(v.dif, v, d, 0);
        u8::lemma_roundtrip(0u8, v, d, s0.len() as int);
        Vec::<Interior>::lemma_roundtrip(x.interiors, v, d, s1.len() as int);
        Vec::<Interior>::lemma_roundtrip(x.sub_objects, v, d, s2.len() as int);
        Vec::<Trigger>::lemma_roundtrip(x.triggers, v, d, s3.len() as int);
        Vec::<InteriorPathFollower>::lemma_roundtrip(x.interior_path_followers, v, d, s4.len() as int);
        Vec::<ForceField>::lemma_roundtrip(x.force_fields, v, d, s5.len() as int);
        Vec::<AISpecialNode>::lemma_roundtrip(x.ai_special_nodes, v, d, s6.len() as int);
        let q = s7.len() as int;
        match x.vehicle_collision {
            Some(vc) => {
                lemma_split(d, q, u32::encode(1u32, v), VehicleCollision::encode(vc, v));
                lemma_u32_bytes(1u32);
                u32::lemma_roundtrip(1u32, v, d, q);
                VehicleCollision::lemma_roundtrip(vc, v, d, q + 4);
            },
            None => {
                u32::lemma_roundtrip(0u32, v, d, q);
            },
        }
        let r = s8.len() as int;
        if x.game_entities.len() > 0 {
            lemma_split(d, r, u32::encode(2u32, v), Vec::<GameEntity>::encode(x.game_entities, v));
            lemma_u32_bytes(2u32);
            u32::lemma_roundtrip(2u32, v, d, r);
            Vec::<GameEntity>::lemma_roundtrip(x.game_entities, v, d, r + 4);
        } else {
            u32::lemma_roundtrip(0u32, v, d, r);
            assert(x.game_entities =~= Seq::empty());
        }
    }
}

/// A value for which a layout is known under every version.
pub trait AlwaysWritable: Writable {
    proof fn lemma_writable(x: Self::V, v: Version)
        ensures
            Self::writable(x, v),
    ;
}

impl AlwaysWritable for Trigger {
    proof fn lemma_writable(x: TriggerView, v: Version) {
    }
}

impl AlwaysWritable for InteriorPathFollower {
    proof fn lemma_writable(x: InteriorPathFollowerView, v: Version) {
    }
}

impl AlwaysWritable for ForceField {
    proof fn lemma_writable(x: ForceFieldView, v: Version) {
    }
}

impl AlwaysWritable for AISpecialNode {
    proof fn lemma_writable(x: AISpecialNodeView, v: Version) {
    }
}

impl AlwaysWritable for GameEntity {
    proof fn lemma_writable(x: GameEntityView, v: Version) {
    }
}

impl AlwaysWritable for VehicleCollision {
    proof fn lemma_writable(x: VehicleCollisionView, v: Version) {
    }
}

/// Writes a value that can always be written.
fn write_one<T: AlwaysWritable>(x: &T, to: &mut Vec<u8>, version: &Version)
    ensures
        final(to)@ == old(to)@ + T::encode(x.deep_view(), *version),
{
    proof {
        T::lemma_writable(x.deep_view(), *version);
    }
    let _ = x.write(to, version);
}

/// Writes a list of values that can always be written.
fn write_all<T: AlwaysWritable>(xs: &Vec<T>, to: &mut Vec<u8>, version: &Version)
    ensures
        final(to)@ == old(to)@ + Vec::<T>::encode(xs.deep_view(), *version),
{
    proof {
        assert forall|i: int| 0 <= i < xs.deep_view().len() implies T::writable(
            #[trigger] xs.deep_view()[i],
            *version,
        ) by {
            T::lemma_writable(xs.deep_view()[i], *version);
        }
    }
    let _ = xs.write(to, version);
}

/// The file that holds these interiors and nothing else.
pub fn dif_with_interiors(interiors: Vec<Interior>) -> (r: Dif)
    ensures
        r.deep_view() == (DifView {
            interiors: interiors.deep_view(),
            sub_objects: Seq::empty(),
            triggers: Seq::empty(),
            interior_path_followers: Seq::empty(),
            force_fields: Seq::empty(),
            ai_special_nodes: Seq::empty(),
            vehicle_collision: None,
            game_entities: Seq::empty(),
        }),
{
    Dif {
        interiors,
        sub_objects: no_items(),
        triggers: no_items(),
        interior_path_followers: no_items(),
        force_fields: no_items(),
        ai_special_nodes: no_items(),
        vehicle_collision: None,
        game_entities: no_items(),
    }
}

impl Dif {
    /// Adds a trigger whose volume is the axis-aligned box from `min` to
    /// `max`.
    pub fn add_trigger(
        &mut self,
        min: Point3F,
        max: Point3F,
        name: String,
        datablock: String,
        properties: Dictionary,
    )
        ensures
            final(self).deep_view() == (DifView {
                triggers: old(self).deep_view().triggers.push(
                    Trigger::spec_new_box(min, max, name@, datablock@, properties.deep_view()),
                ),
                ..old(self).deep_view()
            }),
    {
        let ghost before = self.triggers.deep_view();
        let trigger = Trigger::new_box(min, max, name, datablock, properties);
        self.triggers.push(trigger);
        assert(self.triggers.deep_view() =~= before.push(trigger.deep_view()));
    }

    /// Adds a game entity.
    pub fn add_game_entity(
        &mut self,
        game_class: String,
        datablock: String,
        position: Point3F,
        properties: Dictionary,
    )
        ensures
            final(self).deep_view() == (DifView {
                game_entities: old(self).deep_view().game_entities.push(
                    GameEntityView {
                        datablock: datablock@,
                        game_class: game_class@,
                        position,
                        properties: properties.deep_view(),
                    },
                ),
                ..old(self).deep_view()
            }),
    {
        let ghost before = self.game_entities.deep_view();
        let entity = GameEntity { datablock, game_class, position, properties };
        self.game_entities.push(entity);
        assert(self.game_entities.deep_view() =~= before.push(entity.deep_view()));
    }
}

} // verus!
