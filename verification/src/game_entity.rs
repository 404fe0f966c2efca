use vstd::prelude::*;
use crate::io::{lemma_add_assoc, Cursor, Readable, Reader, Version, Writable};
use crate::roundtrip::{lemma_split, RoundTrip};
use crate::types::{Dictionary, DifResult, Point3F};

verus! {

#[derive(Clone, Debug, PartialEq, Eq)]
pub struct GameEntity {
    pub datablock: String,
    pub game_class: String,
    pub position: Point3F,
    pub properties: Dictionary,
}

/// What a `GameEntity` holds, as mathematical values.
pub struct GameEntityView {
    pub datablock: Seq<char>,
    pub game_class: Seq<char>,
    pub position: Point3F,
    pub properties: Seq<(Seq<char>, Seq<char>)>,
}

impl DeepView for GameEntity {
    type V = GameEntityView;

    open spec fn deep_view(&self) -> GameEntityView {
        GameEntityView {
            datablock: self.datablock.deep_view(),
            game_class: self.game_class.deep_view(),
            position: self.position.deep_view(),
            properties: self.properties.deep_view(),
        }
    }
}

impl Readable for GameEntity {
    #[verifier::opaque]
    open spec fn parse(d: Seq<u8>, c: Cursor, v: Version) -> (GameEntityView, Cursor, Version) {
        let (datablock, c, v) = String::parse(d, c, v);
        let (game_class, c, v) = String::parse(d, c, v);
        let (position, c, v) = Point3F::parse(d, c, v);
        let (properties, c, v) = Dictionary::parse(d, c, v);
        (GameEntityView { datablock, game_class, position, properties }, c, v)
    }

    fn take(from: &mut Reader, version: &mut Version) -> (r: Self) {
        reveal(<GameEntity as Readable>::parse);
        let datablock = String::take(from, version);
        let game_class = String::take(from, version);
        let position = Point3F::take(from, version);
        let properties = Dictionary::take(from, version);
        GameEntity { datablock, game_class, position, properties }
    }
}

impl Writable for GameEntity {
    open spec fn writable(x: GameEntityView, v: Version) -> bool {
        &&& String::writable(x.datablock, v)
        &&& String::writable(x.game_class, v)
        &&& Point3F::writable(x.position, v)
        &&& Dictionary::writable(x.properties, v)
    }

    #[verifier::opaque]
    open spec fn encode(x: GameEntityView, v: Version) -> Seq<u8> {
        String::encode(x.datablock, v)
            + String::encode(x.game_class, v)
            + Point3F::encode(x.position, v)
            + Dictionary::encode(x.properties, v)
    }

    fn write(&self, to: &mut Vec<u8>, version: &Version) -> (r: DifResult<()>) {
        reveal(<GameEntity as Writable>::encode);
        let ghost x = self.deep_view();
        let ghost v = *version;
        self.datablock.write(to, version)?;
        let ghost sent = String::encode(x.datablock, v);
        self.game_class.write(to, version)?;
        proof {
            lemma_add_assoc(old(to)@, sent, String::encode(x.game_class, v));
        }
        let ghost sent = sent + String::encode(x.game_class, v);
        self.position.write(to, version)?;
        proof {
            lemma_add_assoc(old(to)@, sent, Point3F::encode(x.position, v));
        }
        let ghost sent = sent + Point3F::encode(x.position, v);
        self.properties.write(to, version)?;
        proof {
            lemma_add_assoc(old(to)@, sent, Dictionary::encode(x.properties, v));
        }
        Ok(())
    }
}

impl RoundTrip for GameEntity {
    open spec fn wire_ok(x: GameEntityView, v: Version) -> bool {
        &&& String::wire_ok(x.datablock, v)
        &&& String::wire_ok(x.game_class, v)
        &&& Point3F::wire_ok(x.position, v)
        &&& Dictionary::wire_ok(x.properties, v)
    }

    proof fn lemma_roundtrip(x: GameEntityView, v: Version, d: Seq<u8>, p: int) {
        reveal(<GameEntity as Readable>::parse);
        reveal(<GameEntity as Writable>::encode);
        let e0 = String::encode(x.datablock, v);
        let e1 = String::encode(x.game_class, v);
        let e2 = Point3F::encode(x.position, v);
        let e3 = Dictionary::encode(x.properties, v);
        let s0 = e0;
        let s1 = s0 + e1;
        let s2 = s1 + e2;
        lemma_split(d, p, s2, e3);
        lemma_split(d, p, s1, e2);
        lemma_split(d, p, s0, e1);
        String::lemma_roundtrip(x.datablock, v, d, p);
        String::lemma_roundtrip(x.game_class, v, d, p + s0.len());
        Point3F::lemma_roundtrip(x.position, v, d, p + s1.len());
        Dictionary::lemma_roundtrip(x.properties, v, d, p + s2.len());
    }
}

} // verus!
