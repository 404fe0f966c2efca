use vstd::prelude::*;
use crate::io::{lemma_add_assoc, Cursor, Readable, Reader, Version, Writable};
use crate::roundtrip::{lemma_split, RoundTrip};
use crate::types::{DifResult, Point3F};

verus! {

#[derive(Clone, Debug, PartialEq, Eq)]
pub struct AISpecialNode {
    pub name: String,
    pub position: Point3F,
}

/// What a `AISpecialNode` holds, as mathematical values.
pub struct AISpecialNodeView {
    pub name: Seq<char>,
    pub position: Point3F,
}

impl DeepView for AISpecialNode {
    type V = AISpecialNodeView;

    open spec fn deep_view(&self) -> AISpecialNodeView {
        AISpecialNodeView {
            name: self.name.deep_view(),
            position: self.position.deep_view(),
        }
    }
}

impl Readable for AISpecialNode {
    #[verifier::opaque]
    open spec fn parse(d: Seq<u8>, c: Cursor, v: Version) -> (AISpecialNodeView, Cursor, Version) {
        let (name, c, v) = String::parse(d, c, v);
        let (position, c, v) = Point3F::parse(d, c, v);
        (AISpecialNodeView { name, position }, c, v)
    }

    fn take(from: &mut Reader, version: &mut Version) -> (r: Self) {
        reveal(<AISpecialNode as Readable>::parse);
        let name = String::take(from, version);
        let position = Point3F::take(from, version);
        AISpecialNode { name, position }
    }
}

impl Writable for AISpecialNode {
    open spec fn writable(x: AISpecialNodeView, v: Version) -> bool {
        &&& String::writable(x.name, v)
        &&& Point3F::writable(x.position, v)
    }

    #[verifier::opaque]
    open spec fn encode(x: AISpecialNodeView, v: Version) -> Seq<u8> {
        String::encode(x.name, v)
            + Point3F::encode(x.position, v)
    }

    fn write(&self, to: &mut Vec<u8>, version: &Version) -> (r: DifResult<()>) {
        reveal(<AISpecialNode as Writable>::encode);
        let ghost x = self.deep_view();
        let ghost v = *version;
        self.name.write(to, version)?;
        let ghost sent = String::encode(x.name, v);
        self.position.write(to, version)?;
        proof {
            lemma_add_assoc(old(to)@, sent, Point3F::encode(x.position, v));
        }
        Ok(())
    }
}

impl RoundTrip for AISpecialNode {
    open spec fn wire_ok(x: AISpecialNodeView, v: Version) -> bool {
        &&& String::wire_ok(x.name, v)
        &&& Point3F::wire_ok(x.position, v)
    }

    proof fn lemma_roundtrip(x: AISpecialNodeView, v: Version, d: Seq<u8>, p: int) {
        reveal(<AISpecialNode as Readable>::parse);
        reveal(<AISpecialNode as Writable>::encode);
        let e0 = String::encode(x.name, v);
        let e1 = Point3F::encode(x.position, v);
        let s0 = e0;
        lemma_split(d, p, s0, e1);
        String::lemma_roundtrip(x.name, v, d, p);
        Point3F::lemma_roundtrip(x.position, v, d, p + s0.len());
    }
}

} // verus!
