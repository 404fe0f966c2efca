use vstd::prelude::*;
use vstd::utf8::{decode_utf8, encode_utf8, encode_utf8_decode_utf8, encode_utf8_valid_utf8, valid_utf8};
use crate::io::{
    as_signed, as_unsigned, encode_items, encode_string, encode_vec_extra, le_u16, le_u32,
    list_count, parse_items, parse_vec_extra, parse_list_header, parse_u16, parse_u32, parse_u8, u16_le_bytes, u32_le_bytes,
    Cursor, Readable, Version, WireInt, Writable,
};
use crate::typed_ints::TypedInt;

verus! {

/// A wire form that is read back as it was written.
pub trait RoundTrip: Readable + Writable {
    /// Whether `x` comes back from its wire form under `v`: whether every
    /// part of it has a place on the wire under `v`, and fits that place.
    spec fn wire_ok(x: Self::V, v: Version) -> bool;

    /// Where the wire form of `x` stands in `d` at offset `p`, reading at
    /// `p` gives `x`, ends behind the wire form and leaves the version as
    /// it is.
    proof fn lemma_roundtrip(x: Self::V, v: Version, d: Seq<u8>, p: int)
        requires
            Self::wire_ok(x, v),
            stands_at(d, p, Self::encode(x, v)),
        ensures
            Self::parse(d, Cursor::at(p), v) == (
                x,
                Cursor::at(p + Self::encode(x, v).len()),
                v,
            ),
    ;
}

/// The bytes `e` stand in `d` from offset `p` on.
#[verifier::opaque]
pub open spec fn stands_at(d: Seq<u8>, p: int, e: Seq<u8>) -> bool {
    0 <= p && p + e.len() <= d.len() && d.subrange(p, p + e.len()) == e
}

/// Where two runs of bytes stand joined, each of them stands in its place.
pub proof fn lemma_split(d: Seq<u8>, p: int, a: Seq<u8>, b: Seq<u8>)
    requires
        stands_at(d, p, a + b),
    ensures
        (a + b).len() == a.len() + b.len(),
        stands_at(d, p, a),
        stands_at(d, p + a.len(), b),
{
    reveal(stands_at);
    let whole = d.subrange(p, p + (a + b).len());
    assert(d.subrange(p, p + a.len()) =~= whole.subrange(0, a.len() as int));
    assert(whole.subrange(0, a.len() as int) =~= a);
    assert(d.subrange(p + a.len(), p + a.len() + b.len()) =~= whole.subrange(
        a.len() as int,
        (a + b).len() as int,
    ));
    assert(whole.subrange(a.len() as int, (a + b).len() as int) =~= b);
}

/// The bytes of a 16-bit number, read low byte first, give the number.
pub proof fn lemma_u16_bytes(x: u16)
    ensures
        u16_le_bytes(x).len() == 2,
        le_u16(u16_le_bytes(x)[0], u16_le_bytes(x)[1]) == x,
{
}

/// The bytes of a 32-bit number, read low byte first, give the number.
pub proof fn lemma_u32_bytes(x: u32)
    ensures
        u32_le_bytes(x).len() == 4,
        le_u32(u32_le_bytes(x)[0], u32_le_bytes(x)[1], u32_le_bytes(x)[2], u32_le_bytes(x)[3])
            == x,
{
}

/// A signed number and the unsigned number with its bits stand for each
/// other.
pub proof fn lemma_signed_unsigned(i: i32)
    ensures
        as_signed(as_unsigned(i)) == i,
{
}

impl RoundTrip for u8 {
    open spec fn wire_ok(x: u8, v: Version) -> bool {
        true
    }

    proof fn lemma_roundtrip(x: u8, v: Version, d: Seq<u8>, p: int) {
        reveal(stands_at);
        assert(d.subrange(p, p + 1)[0] == x);
    }
}

impl RoundTrip for u16 {
    open spec fn wire_ok(x: u16, v: Version) -> bool {
        true
    }

    proof fn lemma_roundtrip(x: u16, v: Version, d: Seq<u8>, p: int) {
        reveal(stands_at);
        lemma_u16_bytes(x);
        let e = u16_le_bytes(x);
        assert(d.subrange(p, p + 2)[0] == e[0]);
        assert(d.subrange(p, p + 2)[1] == e[1]);
    }
}

impl RoundTrip for u32 {
    open spec fn wire_ok(x: u32, v: Version) -> bool {
        true
    }

    proof fn lemma_roundtrip(x: u32, v: Version, d: Seq<u8>, p: int) {
        reveal(stands_at);
        lemma_u32_bytes(x);
        let e = u32_le_bytes(x);
        assert(d.subrange(p, p + 4)[0] == e[0]);
        assert(d.subrange(p, p + 4)[1] == e[1]);
        assert(d.subrange(p, p + 4)[2] == e[2]);
        assert(d.subrange(p, p + 4)[3] == e[3]);
    }
}

impl RoundTrip for i32 {
    open spec fn wire_ok(x: i32, v: Version) -> bool {
        true
    }

    proof fn lemma_roundtrip(x: i32, v: Version, d: Seq<u8>, p: int) {
        reveal(stands_at);
        let u = as_unsigned(x);
        lemma_u32_bytes(u);
        lemma_signed_unsigned(x);
        let e = u32_le_bytes(u);
        assert(d.subrange(p, p + 4)[0] == e[0]);
        assert(d.subrange(p, p + 4)[1] == e[1]);
        assert(d.subrange(p, p + 4)[2] == e[2]);
        assert(d.subrange(p, p + 4)[3] == e[3]);
    }
}

impl<B: WireInt + RoundTrip, X> RoundTrip for TypedInt<B, X> {
    open spec fn wire_ok(x: TypedInt<B, X>, v: Version) -> bool {
        B::wire_ok(x.value(), v)
    }

    proof fn lemma_roundtrip(x: TypedInt<B, X>, v: Version, d: Seq<u8>, p: int) {
        B::lemma_roundtrip(x.value(), v, d, p);
    }
}

/// A list whose count fits 31 bits comes back from its wire form where
/// its items do.
pub open spec fn items_ok<T: RoundTrip>(xs: Seq<T::V>, v: Version) -> bool {
    forall|i: int| 0 <= i < xs.len() ==> T::wire_ok(#[trigger] xs[i], v)
}

/// Items that stand one behind the other are read back one by one.
pub proof fn lemma_items_roundtrip<T: RoundTrip>(xs: Seq<T::V>, v: Version, d: Seq<u8>, p: int)
    requires
        items_ok::<T>(xs, v),
        stands_at(d, p, encode_items::<T>(xs, v)),
    ensures
        parse_items::<T>(d, Cursor::at(p), v, xs.len()) == (
            xs,
            Cursor::at(p + encode_items::<T>(xs, v).len()),
            v,
        ),
    decreases xs.len(),
{
    reveal_with_fuel(parse_items, 2);
    reveal_with_fuel(encode_items, 2);
    reveal(stands_at);
    if xs.len() == 0 {
        assert(xs =~= Seq::empty());
    } else {
        let front = xs.drop_last();
        let last = xs.last();
        lemma_split(d, p, encode_items::<T>(front, v), T::encode(last, v));
        assert(items_ok::<T>(front, v)) by {
            assert forall|i: int| 0 <= i < front.len() implies T::wire_ok(
                #[trigger] front[i],
                v,
            ) by {
                assert(front[i] == xs[i]);
            }
        }
        lemma_items_roundtrip::<T>(front, v, d, p);
        T::lemma_roundtrip(last, v, d, p + encode_items::<T>(front, v).len());
        assert(front.push(last) =~= xs);
    }
}

/// A list without items comes back from its wire form, whatever its
/// items would be.
pub proof fn lemma_empty_vec_roundtrip<T: Readable + Writable>(v: Version, d: Seq<u8>, p: int)
    requires
        stands_at(d, p, Vec::<T>::encode(Seq::<T::V>::empty(), v)),
    ensures
        Vec::<T>::parse(d, Cursor::at(p), v) == (
            Seq::<T::V>::empty(),
            Cursor::at(p + Vec::<T>::encode(Seq::<T::V>::empty(), v).len()),
            v,
        ),
{
    reveal(parse_list_header);
    reveal_with_fuel(parse_items, 2);
    reveal_with_fuel(encode_items, 2);
    let head = u32::encode(list_count(0), v);
    let none = Seq::<T::V>::empty();
    lemma_split(d, p, head, encode_items::<T>(none, v));
    u32::lemma_roundtrip(list_count(0), v, d, p);
    lemma_u32_bytes(list_count(0));
}

impl<T: RoundTrip> RoundTrip for Vec<T> {
    /// Fewer than 2^31 items, each of which comes back.
    open spec fn wire_ok(x: Seq<T::V>, v: Version) -> bool {
        x.len() < 0x8000_0000 && items_ok::<T>(x, v)
    }

    proof fn lemma_roundtrip(x: Seq<T::V>, v: Version, d: Seq<u8>, p: int) {
        reveal(parse_list_header);
        let head = u32::encode(list_count(x.len()), v);
        lemma_split(d, p, head, encode_items::<T>(x, v));
        u32::lemma_roundtrip(list_count(x.len()), v, d, p);
        lemma_u32_bytes(list_count(x.len()));
        lemma_items_roundtrip::<T>(x, v, d, p + 4);
    }
}

/// A list with one more value behind its count comes back from its wire
/// form.
pub proof fn lemma_vec_extra_roundtrip<T: RoundTrip, E: RoundTrip>(
    xs: Seq<T::V>,
    extra: E::V,
    v: Version,
    d: Seq<u8>,
    p: int,
)
    requires
        xs.len() <= 0xFFFF_FFFF,
        items_ok::<T>(xs, v),
        E::wire_ok(extra, v),
        stands_at(d, p, encode_vec_extra::<T, E>(xs, extra, v)),
    ensures
        parse_vec_extra::<T, E>(d, Cursor::at(p), v) == (
            xs,
            extra,
            Cursor::at(p + encode_vec_extra::<T, E>(xs, extra, v).len()),
            v,
        ),
{
    let e0 = u32::encode(list_count(xs.len()), v);
    let e1 = E::encode(extra, v);
    let e2 = encode_items::<T>(xs, v);
    lemma_split(d, p, e0 + e1, e2);
    lemma_split(d, p, e0, e1);
    u32::lemma_roundtrip(list_count(xs.len()), v, d, p);
    E::lemma_roundtrip(extra, v, d, p + e0.len());
    lemma_items_roundtrip::<T>(xs, v, d, p + e0.len() + e1.len());
}

impl RoundTrip for String {
    /// At most 255 bytes of UTF-8.
    open spec fn wire_ok(x: Seq<char>, v: Version) -> bool {
        encode_utf8(x).len() <= 255
    }

    proof fn lemma_roundtrip(x: Seq<char>, v: Version, d: Seq<u8>, p: int) {
        reveal(stands_at);
        let bytes = encode_utf8(x);
        let head = seq![(bytes.len() % 0x100) as u8];
        lemma_split(d, p, head, bytes);
        assert(d.subrange(p, p + 1)[0] == head[0]);
        encode_utf8_valid_utf8(x);
        encode_utf8_decode_utf8(x);
    }
}

} // verus!
