use vstd::prelude::*;
use vstd::slice::{slice_subrange, slice_to_vec};
use vstd::utf8::{decode_utf8, encode_utf8, encode_utf8_decode_utf8, valid_utf8};
use crate::errors::{DifError, DifErrorKind, DifResult};
use crate::typed_ints::TypedInt;

verus! {

#[derive(Clone, Copy, Debug, PartialEq, Eq, Structural)]
pub enum EngineVersion {
    Unknown,
    MBG,
    TGE,
    TGEA,
    T3D,
}

/// The version numbers that decide the layout of a stream.
#[derive(Clone, Copy, Debug)]
pub struct Version {
    pub engine: EngineVersion,
    pub dif: u32,
    pub interior: u32,
    pub material_list: u8,
    pub vehicle_collision: u32,
    pub force_field: u32,
}

impl Version {
    /// The version of which nothing is known yet.
    pub open spec fn spec_new() -> Version {
        Version {
            engine: EngineVersion::Unknown,
            dif: 0,
            interior: 0,
            material_list: 0,
            vehicle_collision: 0,
            force_field: 0,
        }
    }

    #[verifier::when_used_as_spec(spec_new)]
    pub fn new() -> (v: Version)
        ensures
            v == Version::spec_new(),
    {
        Version {
            engine: EngineVersion::Unknown,
            dif: 0,
            interior: 0,
            material_list: 0,
            vehicle_collision: 0,
            force_field: 0,
        }
    }

    pub open spec fn spec_is_tge(&self) -> bool {
        self.engine == EngineVersion::MBG || self.engine == EngineVersion::TGE
    }

    #[verifier::when_used_as_spec(spec_is_tge)]
    pub fn is_tge(&self) -> (b: bool)
        ensures
            b == self.spec_is_tge(),
    {
        match self.engine {
            EngineVersion::MBG | EngineVersion::TGE => true,
            _ => false,
        }
    }
}

/// Where a parse stands in its input: the offset of the next byte, and the
/// first error met, if any. Once an error is set, every later step leaves
/// the cursor as it is.
pub struct Cursor {
    pub pos: int,
    pub err: Option<DifErrorKind>,
}

impl Cursor {
    pub open spec fn at(pos: int) -> Cursor {
        Cursor { pos, err: None }
    }

    pub open spec fn ok(self) -> bool {
        self.err is None
    }

    /// The cursor with `kind` recorded, unless an earlier error stands.
    pub open spec fn fail(self, kind: DifErrorKind) -> Cursor {
        if self.ok() {
            Cursor { pos: self.pos, err: Some(kind) }
        } else {
            self
        }
    }

    /// The cursor `n` bytes further on in `d`, or failed with `Eof` when
    /// fewer than `n` bytes are left.
    pub open spec fn advance(self, d: Seq<u8>, n: int) -> Cursor {
        if !self.ok() {
            self
        } else if self.pos + n <= d.len() {
            Cursor { pos: self.pos + n, err: None }
        } else {
            self.fail(DifErrorKind::Eof)
        }
    }

    pub open spec fn has(self, d: Seq<u8>, n: int) -> bool {
        self.ok() && 0 <= self.pos && self.pos + n <= d.len()
    }
}

/// A read position in a byte slice, with the first error met. A reader
/// that has failed stays where it is, and whatever is read from it means
/// nothing.
#[derive(Clone, Copy)]
pub struct Reader<'a> {
    pub data: &'a [u8],
    pub pos: usize,
    pub err: Option<DifErrorKind>,
}

impl<'a> Reader<'a> {
    pub open spec fn wf(&self) -> bool {
        self.pos <= self.data@.len()
    }

    pub open spec fn cursor(&self) -> Cursor {
        Cursor { pos: self.pos as int, err: self.err }
    }

    pub fn new(data: &'a [u8]) -> (r: Reader<'a>)
        ensures
            r.wf(),
            r.data@ == data@,
            r.cursor() == Cursor::at(0),
    {
        Reader { data, pos: 0, err: None }
    }

    pub fn remaining(&self) -> (n: usize)
        requires
            self.wf(),
        ensures
            n == self.data@.len() - self.pos,
            self.data@.len() <= usize::MAX,
    {
        self.data.len() - self.pos
    }

    pub fn ok(&self) -> (b: bool)
        ensures
            b == self.cursor().ok(),
    {
        self.err.is_none()
    }

    /// Records `kind`, unless an earlier error stands.
    pub fn fail(&mut self, kind: DifErrorKind)
        ensures
            final(self).cursor() == old(self).cursor().fail(kind),
            final(self).data == old(self).data,
            final(self).pos == old(self).pos,
    {
        if self.err.is_none() {
            self.err = Some(kind);
        }
    }

    /// Whether `n` more bytes can be read.
    pub fn has(&self, n: usize) -> (b: bool)
        requires
            self.wf(),
        ensures
            b == self.cursor().has(self.data@, n as int),
            self.data@.len() <= usize::MAX,
    {
        let left = self.data.len() - self.pos;
        self.err.is_none() && left >= n
    }

    /// Moves `n` bytes on, or fails with `Eof` where fewer are left.
    pub fn advance(&mut self, n: usize)
        requires
            old(self).wf(),
        ensures
            final(self).wf(),
            final(self).cursor() == old(self).cursor().advance(old(self).data@, n as int),
            final(self).data == old(self).data,
    {
        if self.err.is_none() {
            if self.data.len() - self.pos >= n {
                self.pos = self.pos + n;
            } else {
                self.err = Some(DifErrorKind::Eof);
            }
        }
    }

    /// The value read, or the error that the reader holds.
    pub fn finish<T>(&self, x: T) -> (r: DifResult<T>)
        ensures
            match r {
                Ok(y) => self.err is None && y == x,
                Err(e) => self.err == Some(e.kind),
            },
    {
        match self.err {
            None => Ok(x),
            Some(kind) => Err(DifError::new(kind)),
        }
    }
}

pub open spec fn le_u16(b0: u8, b1: u8) -> u16 {
    (b0 as int + 0x100 * (b1 as int)) as u16
}

pub open spec fn le_u32(b0: u8, b1: u8, b2: u8, b3: u8) -> u32 {
    (b0 as int + 0x100 * (b1 as int) + 0x1_0000 * (b2 as int) + 0x100_0000 * (b3 as int)) as u32
}

/// The signed integer that has the bits of `u`.
pub open spec fn as_signed(u: u32) -> i32 {
    if u < 0x8000_0000 {
        u as i32
    } else {
        (u - 0x1_0000_0000) as i32
    }
}

/// The unsigned integer that has the bits of `i`.
pub open spec fn as_unsigned(i: i32) -> u32 {
    if i >= 0 {
        i as u32
    } else {
        (i + 0x1_0000_0000) as u32
    }
}

pub open spec fn u16_le_bytes(x: u16) -> Seq<u8> {
    seq![(x % 0x100) as u8, (x / 0x100) as u8]
}

pub open spec fn u32_le_bytes(x: u32) -> Seq<u8> {
    seq![
        (x % 0x100) as u8,
        ((x / 0x100) % 0x100) as u8,
        ((x / 0x1_0000) % 0x100) as u8,
        (x / 0x100_0000) as u8,
    ]
}

/// `bytes::Buf::get_u8` on the part of `data` from `pos` on: the byte at `pos`.
#[verifier::external_body]
fn buf_get_u8(data: &[u8], pos: usize) -> (r: u8)
    requires
        pos < data@.len(),
    ensures
        r == data@[pos as int],
{
    let mut rest = &data[pos..];
    bytes::Buf::get_u8(&mut rest)
}

/// `bytes::Buf::get_u16_le` on the part of `data` from `pos` on: the two
/// bytes at `pos` as a little-endian number.
#[verifier::external_body]
fn buf_get_u16_le(data: &[u8], pos: usize) -> (r: u16)
    requires
        pos + 2 <= data@.len(),
    ensures
        r == le_u16(data@[pos as int], data@[pos + 1]),
{
    let mut rest = &data[pos..];
    bytes::Buf::get_u16_le(&mut rest)
}

/// `bytes::Buf::get_u32_le` on the part of `data` from `pos` on: the four
/// bytes at `pos` as a little-endian number.
#[verifier::external_body]
fn buf_get_u32_le(data: &[u8], pos: usize) -> (r: u32)
    requires
        pos + 4 <= data@.len(),
    ensures
        r == le_u32(data@[pos as int], data@[pos + 1], data@[pos + 2], data@[pos + 3]),
{
    let mut rest = &data[pos..];
    bytes::Buf::get_u32_le(&mut rest)
}

/// `bytes::Buf::get_i32_le` on the part of `data` from `pos` on: the four
/// bytes at `pos` as a little-endian number in two's complement.
#[verifier::external_body]
fn buf_get_i32_le(data: &[u8], pos: usize) -> (r: i32)
    requires
        pos + 4 <= data@.len(),
    ensures
        r == as_signed(le_u32(data@[pos as int], data@[pos + 1], data@[pos + 2], data@[pos + 3])),
{
    let mut rest = &data[pos..];
    bytes::Buf::get_i32_le(&mut rest)
}

/// `bytes::BufMut::put_u8` on a vector: the byte is appended.
#[verifier::external_body]
fn buf_put_u8(to: &mut Vec<u8>, x: u8)
    ensures
        final(to)@ == old(to)@.push(x),
{
    bytes::BufMut::put_u8(to, x)
}

/// `bytes::BufMut::put_u16_le` on a vector: the two bytes of `x` are
/// appended, low byte first.
#[verifier::external_body]
fn buf_put_u16_le(to: &mut Vec<u8>, x: u16)
    ensures
        final(to)@ == old(to)@ + u16_le_bytes(x),
{
    bytes::BufMut::put_u16_le(to, x)
}

/// `bytes::BufMut::put_u32_le` on a vector: the four bytes of `x` are
/// appended, low byte first.
#[verifier::external_body]
fn buf_put_u32_le(to: &mut Vec<u8>, x: u32)
    ensures
        final(to)@ == old(to)@ + u32_le_bytes(x),
{
    bytes::BufMut::put_u32_le(to, x)
}

/// `bytes::BufMut::put_i32_le` on a vector: the four bytes of `x` in two's
/// complement are appended, low byte first.
#[verifier::external_body]
fn buf_put_i32_le(to: &mut Vec<u8>, x: i32)
    ensures
        final(to)@ == old(to)@ + u32_le_bytes(as_unsigned(x)),
{
    bytes::BufMut::put_i32_le(to, x)
}

/// A value that has a wire form to read.
pub trait Readable: Sized + DeepView {
    /// The value that stands in `d` at cursor `c` under version `v`, the
    /// cursor behind it and the version after it. Where `c` has failed or
    /// the bytes are no wire form, the cursor that comes back has failed
    /// and the value means nothing.
    spec fn parse(d: Seq<u8>, c: Cursor, v: Version) -> (Self::V, Cursor, Version);

    /// Reads a value and moves the reader behind it. It does not stop at
    /// an error: the reader keeps the first one, and the caller asks the
    /// reader in the end.
    fn take(from: &mut Reader, version: &mut Version) -> (r: Self)
        requires
            old(from).wf(),
        ensures
            final(from).wf(),
            final(from).data@ == old(from).data@,
            (r.deep_view(), final(from).cursor(), *final(version)) == Self::parse(
                old(from).data@,
                old(from).cursor(),
                *old(version),
            ),
    ;

    /// Reads a value, or says why there is none.
    fn read(from: &mut Reader, version: &mut Version) -> (r: DifResult<Self>)
        requires
            old(from).wf(),
        ensures
            final(from).wf(),
            final(from).data@ == old(from).data@,
            match r {
                Ok(y) => final(from).cursor().ok() && (
                    y.deep_view(),
                    final(from).cursor(),
                    *final(version),
                ) == Self::parse(old(from).data@, old(from).cursor(), *old(version)),
                Err(e) => Self::parse(old(from).data@, old(from).cursor(), *old(version)).1.err
                    == Some(e.kind),
            },
    {
        let x = Self::take(from, version);
        from.finish(x)
    }
}

pub open spec fn parse_u8(d: Seq<u8>, c: Cursor) -> (u8, Cursor) {
    if c.has(d, 1) {
        (d[c.pos], c.advance(d, 1))
    } else {
        (0, c.advance(d, 1))
    }
}

pub open spec fn parse_u16(d: Seq<u8>, c: Cursor) -> (u16, Cursor) {
    if c.has(d, 2) {
        (le_u16(d[c.pos], d[c.pos + 1]), c.advance(d, 2))
    } else {
        (0, c.advance(d, 2))
    }
}

pub open spec fn parse_u32(d: Seq<u8>, c: Cursor) -> (u32, Cursor) {
    if c.has(d, 4) {
        (le_u32(d[c.pos], d[c.pos + 1], d[c.pos + 2], d[c.pos + 3]), c.advance(d, 4))
    } else {
        (0, c.advance(d, 4))
    }
}

pub open spec fn parse_i32(d: Seq<u8>, c: Cursor) -> (i32, Cursor) {
    if c.has(d, 4) {
        (as_signed(le_u32(d[c.pos], d[c.pos + 1], d[c.pos + 2], d[c.pos + 3])), c.advance(d, 4))
    } else {
        (0, c.advance(d, 4))
    }
}

impl Readable for u8 {
    open spec fn parse(d: Seq<u8>, c: Cursor, v: Version) -> (u8, Cursor, Version) {
        let (x, c1) = parse_u8(d, c);
        (x, c1, v)
    }

    fn take(from: &mut Reader, version: &mut Version) -> (r: Self) {
        let x = if from.has(1) {
            buf_get_u8(from.data, from.pos)
        } else {
            0
        };
        from.advance(1);
        x
    }
}

impl Readable for u16 {
    open spec fn parse(d: Seq<u8>, c: Cursor, v: Version) -> (u16, Cursor, Version) {
        let (x, c1) = parse_u16(d, c);
        (x, c1, v)
    }

    fn take(from: &mut Reader, version: &mut Version) -> (r: Self) {
        let x = if from.has(2) {
            buf_get_u16_le(from.data, from.pos)
        } else {
            0
        };
        from.advance(2);
        x
    }
}

impl Readable for u32 {
    open spec fn parse(d: Seq<u8>, c: Cursor, v: Version) -> (u32, Cursor, Version) {
        let (x, c1) = parse_u32(d, c);
        (x, c1, v)
    }

    fn take(from: &mut Reader, version: &mut Version) -> (r: Self) {
        let x = if from.has(4) {
            buf_get_u32_le(from.data, from.pos)
        } else {
            0
        };
        from.advance(4);
        x
    }
}

impl Readable for i32 {
    open spec fn parse(d: Seq<u8>, c: Cursor, v: Version) -> (i32, Cursor, Version) {
        let (x, c1) = parse_i32(d, c);
        (x, c1, v)
    }

    fn take(from: &mut Reader, version: &mut Version) -> (r: Self) {
        let x = if from.has(4) {
            buf_get_i32_le(from.data, from.pos)
        } else {
            0
        };
        from.advance(4);
        x
    }
}

/// Joining three runs of bytes gives the same whichever two are joined first.
pub broadcast proof fn lemma_add_assoc(a: Seq<u8>, b: Seq<u8>, c: Seq<u8>)
    ensures
        #[trigger] ((a + b) + c) == a + (b + c),
{
    assert((a + b) + c =~= a + (b + c));
}

/// Joining nothing to a run of bytes leaves it as it is.
pub broadcast proof fn lemma_add_empty(a: Seq<u8>)
    ensures
        #[trigger] (a + Seq::<u8>::empty()) == a,
{
    assert(a + Seq::<u8>::empty() =~= a);
}

/// A value that has a wire form to write.
pub trait Writable: Sized + DeepView {
    /// Whether a layout is known for `x` under version `v`.
    spec fn writable(x: Self::V, v: Version) -> bool;

    /// The bytes of `x` under version `v`.
    spec fn encode(x: Self::V, v: Version) -> Seq<u8>;

    /// Appends the wire form of `self` to `to`. Fails where no layout is
    /// known; `to` then holds an unfinished record and is of no use.
    fn write(&self, to: &mut Vec<u8>, version: &Version) -> (r: DifResult<()>)
        ensures
            match r {
                Ok(_) => Self::writable(self.deep_view(), *version) && final(to)@ == old(to)@
                    + Self::encode(self.deep_view(), *version),
                Err(e) => !Self::writable(self.deep_view(), *version) && e.kind
                    == DifErrorKind::Unsupported,
            },
    ;
}

impl Writable for u8 {
    open spec fn writable(x: u8, v: Version) -> bool {
        true
    }

    open spec fn encode(x: u8, v: Version) -> Seq<u8> {
        seq![x]
    }

    fn write(&self, to: &mut Vec<u8>, version: &Version) -> (r: DifResult<()>)
        ensures
            r is Ok,
    {
        buf_put_u8(to, *self);
        assert(to@ =~= old(to)@ + seq![*self]);
        Ok(())
    }
}

impl Writable for u16 {
    open spec fn writable(x: u16, v: Version) -> bool {
        true
    }

    open spec fn encode(x: u16, v: Version) -> Seq<u8> {
        u16_le_bytes(x)
    }

    fn write(&self, to: &mut Vec<u8>, version: &Version) -> (r: DifResult<()>)
        ensures
            r is Ok,
    {
        buf_put_u16_le(to, *self);
        Ok(())
    }
}

impl Writable for u32 {
    open spec fn writable(x: u32, v: Version) -> bool {
        true
    }

    open spec fn encode(x: u32, v: Version) -> Seq<u8> {
        u32_le_bytes(x)
    }

    fn write(&self, to: &mut Vec<u8>, version: &Version) -> (r: DifResult<()>)
        ensures
            r is Ok,
    {
        buf_put_u32_le(to, *self);
        Ok(())
    }
}

impl Writable for i32 {
    open spec fn writable(x: i32, v: Version) -> bool {
        true
    }

    open spec fn encode(x: i32, v: Version) -> Seq<u8> {
        u32_le_bytes(as_unsigned(x))
    }

    fn write(&self, to: &mut Vec<u8>, version: &Version) -> (r: DifResult<()>)
        ensures
            r is Ok,
    {
        buf_put_i32_le(to, *self);
        Ok(())
    }
}

/// When the items of a list are stored in their narrow form.
#[derive(Clone, Copy, Debug, PartialEq, Eq, Structural)]
pub enum Narrow {
    /// Never: the items have their own form.
    Never,
    /// Whatever the header says.
    Always,
    /// Where the count in the header has its high bit set.
    Flagged,
    /// Where the count has its high bit set and the byte after it is 0.
    FlaggedZero,
}

impl Narrow {
    pub open spec fn spec_applies(self, flagged: bool, param: u8) -> bool {
        match self {
            Narrow::Never => false,
            Narrow::Always => true,
            Narrow::Flagged => flagged,
            Narrow::FlaggedZero => flagged && param == 0,
        }
    }

    #[verifier::when_used_as_spec(spec_applies)]
    pub fn applies(self, flagged: bool, param: u8) -> (b: bool)
        ensures
            b == self.spec_applies(flagged, param),
    {
        match self {
            Narrow::Never => false,
            Narrow::Always => true,
            Narrow::Flagged => flagged,
            Narrow::FlaggedZero => flagged && param == 0,
        }
    }
}

/// A value that can be made from its narrow wire form `N`.
pub trait FromNarrow<N: DeepView>: Sized + DeepView {
    spec fn widened(x: N::V) -> Self::V;

    fn widen(x: N) -> (r: Self)
        ensures
            r.deep_view() == Self::widened(x.deep_view()),
    ;
}

/// The header of a list.
pub struct ListHeader {
    /// The number of items.
    pub count: u32,
    /// Whether the stored count had its high bit set.
    pub flagged: bool,
    /// The byte that follows a flagged count; 0 otherwise.
    pub param: u8,
}

/// A count of 32 bits. Where its high bit is set, the count is the rest of
/// it, and one more byte follows.
#[verifier::opaque]
pub open spec fn parse_list_header(d: Seq<u8>, c: Cursor, v: Version) -> (ListHeader, Cursor) {
    let (raw, c1, _) = u32::parse(d, c, v);
    if raw >= 0x8000_0000 {
        let (param, c2, _) = u8::parse(d, c1, v);
        (ListHeader { count: (raw - 0x8000_0000) as u32, flagged: true, param }, c2)
    } else {
        (ListHeader { count: raw, flagged: false, param: 0 }, c1)
    }
}

/// The first `n` items of type `T` from cursor `c` on, each read under the
/// version that the one before it left. Nothing is read behind an item
/// that failed.
#[verifier::opaque]
pub open spec fn parse_items<T: Readable>(d: Seq<u8>, c: Cursor, v: Version, n: nat) -> (
    Seq<T::V>,
    Cursor,
    Version,
)
    decreases n,
{
    if n == 0 {
        (Seq::empty(), c, v)
    } else {
        let (xs, c1, v1) = parse_items::<T>(d, c, v, (n - 1) as nat);
        if c1.ok() {
            let (x, c2, v2) = T::parse(d, c1, v1);
            (xs.push(x), c2, v2)
        } else {
            (xs, c1, v1)
        }
    }
}

/// As `parse_items`, with each item stored as an `N` and widened to a `T`.
#[verifier::opaque]
pub open spec fn parse_items_narrow<T: FromNarrow<N>, N: Readable>(
    d: Seq<u8>,
    c: Cursor,
    v: Version,
    n: nat,
) -> (Seq<T::V>, Cursor, Version)
    decreases n,
{
    if n == 0 {
        (Seq::empty(), c, v)
    } else {
        let (xs, c1, v1) = parse_items_narrow::<T, N>(d, c, v, (n - 1) as nat);
        if c1.ok() {
            let (x, c2, v2) = N::parse(d, c1, v1);
            (xs.push(T::widened(x)), c2, v2)
        } else {
            (xs, c1, v1)
        }
    }
}

/// A list: its header, then its items, narrow where `mode` says so.
pub open spec fn parse_vec<T: Readable + FromNarrow<N>, N: Readable>(
    d: Seq<u8>,
    c: Cursor,
    v: Version,
    mode: Narrow,
) -> (Seq<T::V>, Cursor, Version) {
    let (h, c1) = parse_list_header(d, c, v);
    if mode.applies(h.flagged, h.param) {
        parse_items_narrow::<T, N>(d, c1, v, h.count as nat)
    } else {
        parse_items::<T>(d, c1, v, h.count as nat)
    }
}

/// Once the cursor has failed, reading more items changes nothing.
pub proof fn lemma_parse_items_failed<T: Readable>(d: Seq<u8>, c: Cursor, v: Version, k: nat, n: nat)
    requires
        k <= n,
        !parse_items::<T>(d, c, v, k).1.ok(),
    ensures
        parse_items::<T>(d, c, v, n) == parse_items::<T>(d, c, v, k),
    decreases n,
{
    reveal_with_fuel(parse_items, 2);
    if k < n {
        lemma_parse_items_failed::<T>(d, c, v, k, (n - 1) as nat);
    }
}

pub proof fn lemma_parse_items_narrow_failed<T: FromNarrow<N>, N: Readable>(
    d: Seq<u8>,
    c: Cursor,
    v: Version,
    k: nat,
    n: nat,
)
    requires
        k <= n,
        !parse_items_narrow::<T, N>(d, c, v, k).1.ok(),
    ensures
        parse_items_narrow::<T, N>(d, c, v, n) == parse_items_narrow::<T, N>(d, c, v, k),
    decreases n,
{
    reveal_with_fuel(parse_items_narrow, 2);
    if k < n {
        lemma_parse_items_narrow_failed::<T, N>(d, c, v, k, (n - 1) as nat);
    }
}

/// A list without items.
pub fn no_items<T: DeepView>() -> (r: Vec<T>)
    ensures
        r.deep_view() == Seq::<T::V>::empty(),
{
    let r: Vec<T> = Vec::new();
    assert(r.deep_view() =~= Seq::<T::V>::empty());
    r
}

/// Reads the header of a list.
pub fn take_list_header(from: &mut Reader, version: &mut Version) -> (h: ListHeader)
    requires
        old(from).wf(),
    ensures
        final(from).wf(),
        final(from).data@ == old(from).data@,
        *final(version) == *old(version),
        (h, final(from).cursor()) == parse_list_header(
            old(from).data@,
            old(from).cursor(),
            *old(version),
        ),
{
    reveal(parse_list_header);
    let raw = u32::take(from, version);
    if raw >= 0x8000_0000 {
        let param = u8::take(from, version);
        ListHeader { count: raw - 0x8000_0000, flagged: true, param }
    } else {
        ListHeader { count: raw, flagged: false, param: 0 }
    }
}

/// Reads `count` items, one after the other, and stops behind one that
/// failed.
pub fn take_items<T: Readable>(from: &mut Reader, version: &mut Version, count: u32) -> (r: Vec<T>)
    requires
        old(from).wf(),
    ensures
        final(from).wf(),
        final(from).data@ == old(from).data@,
        (r.deep_view(), final(from).cursor(), *final(version)) == parse_items::<T>(
            old(from).data@,
            old(from).cursor(),
            *old(version),
            count as nat,
        ),
{
    let ghost d = from.data@;
    let ghost c0 = from.cursor();
    let ghost v0 = *version;
    let mut result: Vec<T> = Vec::new();
    assert(result.deep_view() =~= Seq::empty());
    let mut i: u32 = 0;
    reveal_with_fuel(parse_items, 2);
    while i < count && from.ok()
        invariant
            i <= count,
            from.wf(),
            from.data@ == d,
            parse_items::<T>(d, c0, v0, i as nat) == (result.deep_view(), from.cursor(), *version),
        decreases count - i,
    {
        reveal_with_fuel(parse_items, 2);
        let ghost before = result.deep_view();
        let item = T::take(from, version);
        result.push(item);
        assert(result.deep_view() =~= before.push(item.deep_view()));
        i = i + 1;
    }
    proof {
        if i < count {
            lemma_parse_items_failed::<T>(d, c0, v0, i as nat, count as nat);
        }
    }
    result
}

/// As `take_items`, with each item stored as an `N` and widened to a `T`.
pub fn take_items_narrow<T: FromNarrow<N>, N: Readable>(
    from: &mut Reader,
    version: &mut Version,
    count: u32,
) -> (r: Vec<T>)
    requires
        old(from).wf(),
    ensures
        final(from).wf(),
        final(from).data@ == old(from).data@,
        (r.deep_view(), final(from).cursor(), *final(version)) == parse_items_narrow::<T, N>(
            old(from).data@,
            old(from).cursor(),
            *old(version),
            count as nat,
        ),
{
    let ghost d = from.data@;
    let ghost c0 = from.cursor();
    let ghost v0 = *version;
    let mut result: Vec<T> = Vec::new();
    assert(result.deep_view() =~= Seq::empty());
    let mut i: u32 = 0;
    reveal_with_fuel(parse_items_narrow, 2);
    while i < count && from.ok()
        invariant
            i <= count,
            from.wf(),
            from.data@ == d,
            parse_items_narrow::<T, N>(d, c0, v0, i as nat) == (
                result.deep_view(),
                from.cursor(),
                *version,
            ),
        decreases count - i,
    {
        reveal_with_fuel(parse_items_narrow, 2);
        let ghost before = result.deep_view();
        let item = N::take(from, version);
        let wide = T::widen(item);
        result.push(wide);
        assert(result.deep_view() =~= before.push(wide.deep_view()));
        i = i + 1;
    }
    proof {
        if i < count {
            lemma_parse_items_narrow_failed::<T, N>(d, c0, v0, i as nat, count as nat);
        }
    }
    result
}

/// Reads a list whose items may be stored in the narrow form `N`.
pub fn take_vec<T: Readable + FromNarrow<N>, N: Readable>(
    from: &mut Reader,
    version: &mut Version,
    mode: Narrow,
) -> (r: Vec<T>)
    requires
        old(from).wf(),
    ensures
        final(from).wf(),
        final(from).data@ == old(from).data@,
        (r.deep_view(), final(from).cursor(), *final(version)) == parse_vec::<T, N>(
            old(from).data@,
            old(from).cursor(),
            *old(version),
            mode,
        ),
{
    let h = take_list_header(from, version);
    if mode.applies(h.flagged, h.param) {
        take_items_narrow::<T, N>(from, version, h.count)
    } else {
        take_items::<T>(from, version, h.count)
    }
}

/// Reads a list whose items may be stored in the narrow form `N`, or
/// says why there is none.
pub fn read_vec<T: Readable + FromNarrow<N>, N: Readable>(
    from: &mut Reader,
    version: &mut Version,
    mode: Narrow,
) -> (r: DifResult<Vec<T>>)
    requires
        old(from).wf(),
    ensures
        final(from).wf(),
        final(from).data@ == old(from).data@,
        match r {
            Ok(y) => final(from).cursor().ok() && (
                y.deep_view(),
                final(from).cursor(),
                *final(version),
            ) == parse_vec::<T, N>(old(from).data@, old(from).cursor(), *old(version), mode),
            Err(e) => parse_vec::<T, N>(old(from).data@, old(from).cursor(), *old(version), mode).1.err
                == Some(e.kind),
        },
{
    let x = take_vec::<T, N>(from, version, mode);
    from.finish(x)
}

impl<T: Readable> Readable for Vec<T> {
    /// A list in its plain form: the header, then the items. A flagged
    /// count is accepted; its byte is skipped.
    open spec fn parse(d: Seq<u8>, c: Cursor, v: Version) -> (Seq<T::V>, Cursor, Version) {
        let (h, c1) = parse_list_header(d, c, v);
        parse_items::<T>(d, c1, v, h.count as nat)
    }

    fn take(from: &mut Reader, version: &mut Version) -> (r: Self) {
        let h = take_list_header(from, version);
        take_items::<T>(from, version, h.count)
    }
}

/// The wire forms of `xs`, one after the other.
#[verifier::opaque]
pub open spec fn encode_items<T: Writable>(xs: Seq<T::V>, v: Version) -> Seq<u8>
    decreases xs.len(),
{
    if xs.len() == 0 {
        Seq::empty()
    } else {
        encode_items::<T>(xs.drop_last(), v) + T::encode(xs.last(), v)
    }
}

/// The count that heads a list of `n` items: `n` cut to 32 bits.
pub open spec fn list_count(n: nat) -> u32 {
    (n % 0x1_0000_0000) as u32
}

/// The count that heads a list of `n` items.
pub fn count_of(n: usize) -> (r: u32)
    ensures
        r == list_count(n as nat),
{
    let wide: u64 = n as u64;
    (wide % 0x1_0000_0000) as u32
}

/// Writes the items, one after the other, without a count.
pub fn write_items<T: Writable>(vec: &Vec<T>, to: &mut Vec<u8>, version: &Version) -> (r: DifResult<()>)
    ensures
        match r {
            Ok(_) => Vec::<T>::writable(vec.deep_view(), *version) && final(to)@ == old(to)@
                + encode_items::<T>(vec.deep_view(), *version),
            Err(e) => !Vec::<T>::writable(vec.deep_view(), *version) && e.kind
                == DifErrorKind::Unsupported,
        },
{
    let ghost xs = vec.deep_view();
    let mut i: usize = 0;
    reveal_with_fuel(encode_items, 2);
    assert(to@ =~= old(to)@ + encode_items::<T>(xs.take(0), *version));
    while i < vec.len()
        invariant
            i <= vec.len(),
            xs == vec.deep_view(),
            forall|j: int| 0 <= j < i ==> T::writable(#[trigger] xs[j], *version),
            to@ == old(to)@ + encode_items::<T>(xs.take(i as int), *version),
        decreases vec.len() - i,
    {
        reveal_with_fuel(encode_items, 2);
        match vec[i].write(to, version) {
            Ok(_) => {
                proof {
                    assert(xs.take(i + 1).drop_last() =~= xs.take(i as int));
                    assert(xs.take(i + 1).last() == vec[i as int].deep_view());
                    assert(to@ =~= old(to)@ + encode_items::<T>(xs.take(i + 1), *version));
                }
            },
            Err(e) => {
                assert(!T::writable(xs[i as int], *version));
                return Err(e);
            },
        }
        i = i + 1;
    }
    assert(xs.take(i as int) =~= xs);
    Ok(())
}

impl<T: Writable> Writable for Vec<T> {
    open spec fn writable(x: Seq<T::V>, v: Version) -> bool {
        forall|i: int| 0 <= i < x.len() ==> T::writable(#[trigger] x[i], v)
    }

    /// The count, then the items in their own form.
    open spec fn encode(x: Seq<T::V>, v: Version) -> Seq<u8> {
        u32::encode(list_count(x.len()), v) + encode_items::<T>(x, v)
    }

    fn write(&self, to: &mut Vec<u8>, version: &Version) -> (r: DifResult<()>) {
        write_vec::<T>(self, to, version)
    }
}

/// Writes a list: its count, then its items.
pub fn write_vec<T: Writable>(vec: &Vec<T>, to: &mut Vec<u8>, version: &Version) -> (r: DifResult<()>)
    ensures
        match r {
            Ok(_) => Vec::<T>::writable(vec.deep_view(), *version) && final(to)@ == old(to)@
                + Vec::<T>::encode(vec.deep_view(), *version),
            Err(e) => !Vec::<T>::writable(vec.deep_view(), *version) && e.kind
                == DifErrorKind::Unsupported,
        },
{
    let n = count_of(vec.len());
    buf_put_u32_le(to, n);
    write_items::<T>(vec, to, version)?;
    assert(to@ =~= old(to)@ + Vec::<T>::encode(vec.deep_view(), *version));
    Ok(())
}

/// A value that has a narrow wire form `N`, which may lose high bits.
pub trait ToNarrow<N: DeepView>: Sized + DeepView {
    spec fn narrowed(x: Self::V) -> N::V;

    fn narrow(&self) -> (r: N)
        ensures
            r.deep_view() == Self::narrowed(self.deep_view()),
    ;
}

/// The narrow wire forms of `xs`, one after the other.
#[verifier::opaque]
pub open spec fn encode_items_narrow<T: ToNarrow<N>, N: Writable>(xs: Seq<T::V>, v: Version) -> Seq<
    u8,
>
    decreases xs.len(),
{
    if xs.len() == 0 {
        Seq::empty()
    } else {
        encode_items_narrow::<T, N>(xs.drop_last(), v) + N::encode(T::narrowed(xs.last()), v)
    }
}

pub open spec fn encode_vec_narrow<T: ToNarrow<N>, N: Writable>(xs: Seq<T::V>, v: Version) -> Seq<u8> {
    u32::encode(list_count(xs.len()), v) + encode_items_narrow::<T, N>(xs, v)
}

pub open spec fn writable_narrow<T: ToNarrow<N>, N: Writable>(xs: Seq<T::V>, v: Version) -> bool {
    forall|i: int| 0 <= i < xs.len() ==> N::writable(T::narrowed(#[trigger] xs[i]), v)
}

/// Writes a list with each item in its narrow form.
pub fn write_vec_fn<T: ToNarrow<N>, N: Writable>(vec: &Vec<T>, to: &mut Vec<u8>, version: &Version) -> (r:
    DifResult<()>)
    ensures
        match r {
            Ok(_) => writable_narrow::<T, N>(vec.deep_view(), *version) && final(to)@ == old(to)@
                + encode_vec_narrow::<T, N>(vec.deep_view(), *version),
            Err(e) => !writable_narrow::<T, N>(vec.deep_view(), *version) && e.kind
                == DifErrorKind::Unsupported,
        },
{
    let ghost xs = vec.deep_view();
    let n = count_of(vec.len());
    buf_put_u32_le(to, n);
    let ghost head = to@;
    let mut i: usize = 0;
    reveal_with_fuel(encode_items_narrow, 2);
    assert(to@ =~= head + encode_items_narrow::<T, N>(xs.take(0), *version));
    while i < vec.len()
        invariant
            i <= vec.len(),
            xs == vec.deep_view(),
            head == old(to)@ + u32::encode(list_count(xs.len()), *version),
            forall|j: int| 0 <= j < i ==> N::writable(T::narrowed(#[trigger] xs[j]), *version),
            to@ == head + encode_items_narrow::<T, N>(xs.take(i as int), *version),
        decreases vec.len() - i,
    {
        reveal_with_fuel(encode_items_narrow, 2);
        let item = vec[i].narrow();
        match item.write(to, version) {
            Ok(_) => {
                proof {
                    assert(xs.take(i + 1).drop_last() =~= xs.take(i as int));
                    assert(xs.take(i + 1).last() == vec[i as int].deep_view());
                    assert(to@ =~= head + encode_items_narrow::<T, N>(xs.take(i + 1), *version));
                }
            },
            Err(e) => {
                assert(!N::writable(T::narrowed(xs[i as int]), *version));
                return Err(e);
            },
        }
        i = i + 1;
    }
    assert(xs.take(i as int) =~= xs);
    assert(to@ =~= old(to)@ + encode_vec_narrow::<T, N>(xs, *version));
    Ok(())
}

/// A list whose count is followed by one more value, and only then by the
/// items.
pub open spec fn parse_vec_extra<T: Readable, E: Readable>(d: Seq<u8>, c: Cursor, v: Version) -> (
    Seq<T::V>,
    E::V,
    Cursor,
    Version,
) {
    let (count, c1, v1) = u32::parse(d, c, v);
    let (extra, c2, v2) = E::parse(d, c1, v1);
    let (xs, c3, v3) = parse_items::<T>(d, c2, v2, count as nat);
    (xs, extra, c3, v3)
}

/// Reads a list whose count is followed by one more value, and only then
/// by the items.
pub fn take_vec_extra<T: Readable, E: Readable>(from: &mut Reader, version: &mut Version) -> (r: (
    Vec<T>,
    E,
))
    requires
        old(from).wf(),
    ensures
        final(from).wf(),
        final(from).data@ == old(from).data@,
        (r.0.deep_view(), r.1.deep_view(), final(from).cursor(), *final(version))
            == parse_vec_extra::<T, E>(old(from).data@, old(from).cursor(), *old(version)),
{
    let count = u32::take(from, version);
    let extra = E::take(from, version);
    let result = take_items::<T>(from, version, count);
    (result, extra)
}

/// Reads a list whose count is followed by one more value, or says why
/// there is none.
pub fn read_vec_extra<T: Readable, E: Readable>(from: &mut Reader, version: &mut Version) -> (r:
    DifResult<(Vec<T>, E)>)
    requires
        old(from).wf(),
    ensures
        final(from).wf(),
        final(from).data@ == old(from).data@,
        match r {
            Ok(y) => final(from).cursor().ok() && (
                y.0.deep_view(),
                y.1.deep_view(),
                final(from).cursor(),
                *final(version),
            ) == parse_vec_extra::<T, E>(old(from).data@, old(from).cursor(), *old(version)),
            Err(e) => parse_vec_extra::<T, E>(old(from).data@, old(from).cursor(), *old(version)).2.err
                == Some(e.kind),
        },
{
    let x = take_vec_extra::<T, E>(from, version);
    from.finish(x)
}

pub open spec fn encode_vec_extra<T: Writable, E: Writable>(xs: Seq<T::V>, extra: E::V, v: Version) -> Seq<
    u8,
> {
    u32::encode(list_count(xs.len()), v) + E::encode(extra, v) + encode_items::<T>(xs, v)
}

/// Writes a list with one more value between its count and its items.
pub fn write_vec_extra<T: Writable, E: Writable>(
    vec: &Vec<T>,
    to: &mut Vec<u8>,
    version: &Version,
    extra: &E,
) -> (r: DifResult<()>)
    ensures
        match r {
            Ok(_) => Vec::<T>::writable(vec.deep_view(), *version) && E::writable(
                extra.deep_view(),
                *version,
            ) && final(to)@ == old(to)@ + encode_vec_extra::<T, E>(
                vec.deep_view(),
                extra.deep_view(),
                *version,
            ),
            Err(e) => !(Vec::<T>::writable(vec.deep_view(), *version) && E::writable(
                extra.deep_view(),
                *version,
            )) && e.kind == DifErrorKind::Unsupported,
        },
{
    let n = count_of(vec.len());
    buf_put_u32_le(to, n);
    extra.write(to, version)?;
    write_items::<T>(vec, to, version)?;
    assert(to@ =~= old(to)@ + encode_vec_extra::<T, E>(
        vec.deep_view(),
        extra.deep_view(),
        *version,
    ));
    Ok(())
}

/// Appends `bytes` to `to`, byte by byte.
pub fn write_bytes(to: &mut Vec<u8>, bytes: &[u8])
    ensures
        final(to)@ == old(to)@ + bytes@,
{
    let mut i: usize = 0;
    assert(to@ =~= old(to)@ + bytes@.take(0));
    while i < bytes.len()
        invariant
            i <= bytes.len(),
            to@ == old(to)@ + bytes@.take(i as int),
        decreases bytes.len() - i,
    {
        buf_put_u8(to, bytes[i]);
        assert(to@ =~= old(to)@ + bytes@.take(i + 1));
        i = i + 1;
    }
    assert(bytes@.take(i as int) =~= bytes@);
}

/// `String::from_utf8`: the string whose UTF-8 encoding is `bytes`, or
/// nothing where `bytes` is no UTF-8.
#[verifier::external_body]
fn string_from_utf8(bytes: Vec<u8>) -> (r: Option<String>)
    ensures
        r is Some <==> valid_utf8(bytes@),
        r is Some ==> encode_utf8(r.unwrap()@) == bytes@,
{
    String::from_utf8(bytes).ok()
}

impl Readable for String {
    /// A string: one byte of length, then that many bytes of UTF-8.
    open spec fn parse(d: Seq<u8>, c: Cursor, v: Version) -> (Seq<char>, Cursor, Version) {
        let (n, c1, v1) = u8::parse(d, c, v);
        if !c1.has(d, n as int) {
            (Seq::empty(), c1.advance(d, n as int), v1)
        } else {
            let bytes = d.subrange(c1.pos, c1.pos + n);
            if valid_utf8(bytes) {
                (decode_utf8(bytes), c1.advance(d, n as int), v1)
            } else {
                (Seq::empty(), c1.fail(DifErrorKind::InvalidUtf8), v1)
            }
        }
    }

    fn take(from: &mut Reader, version: &mut Version) -> (r: Self) {
        let n = u8::take(from, version);
        if !from.has(n as usize) {
            from.advance(n as usize);
            return String::new();
        }
        let end = from.pos + n as usize;
        let bytes = slice_to_vec(slice_subrange(from.data, from.pos, end));
        match string_from_utf8(bytes) {
            Some(s) => {
                proof {
                    encode_utf8_decode_utf8(s@);
                }
                from.advance(n as usize);
                s
            },
            None => {
                from.fail(DifErrorKind::InvalidUtf8);
                String::new()
            },
        }
    }
}

/// The wire form of a string: the length of its UTF-8 encoding cut to one
/// byte, then the encoding.
pub open spec fn encode_string(s: Seq<char>) -> Seq<u8> {
    seq![(encode_utf8(s).len() % 0x100) as u8] + encode_utf8(s)
}

impl Writable for String {
    open spec fn writable(x: Seq<char>, v: Version) -> bool {
        true
    }

    open spec fn encode(x: Seq<char>, v: Version) -> Seq<u8> {
        encode_string(x)
    }

    fn write(&self, to: &mut Vec<u8>, version: &Version) -> (r: DifResult<()>)
        ensures
            r is Ok,
    {
        let bytes = self.as_str().as_bytes();
        let n = (bytes.len() % 0x100) as u8;
        buf_put_u8(to, n);
        write_bytes(to, bytes);
        assert(to@ =~= old(to)@ + encode_string(self@));
        Ok(())
    }
}

/// An integer that a typed index can be made of: it is its own model.
pub trait WireInt: Copy + Readable + Writable + DeepView<V = Self> {
    proof fn lemma_is_own_model(x: Self)
        ensures
            x.deep_view() == x,
    ;
}

impl WireInt for u16 {
    proof fn lemma_is_own_model(x: u16) {
    }
}

impl WireInt for u32 {
    proof fn lemma_is_own_model(x: u32) {
    }
}

impl<B: WireInt, X> Readable for TypedInt<B, X> {
    /// A typed index stands on the wire as its integer.
    open spec fn parse(d: Seq<u8>, c: Cursor, v: Version) -> (TypedInt<B, X>, Cursor, Version) {
        let (x, c1, v1) = B::parse(d, c, v);
        (TypedInt::of(x), c1, v1)
    }

    fn take(from: &mut Reader, version: &mut Version) -> (r: Self) {
        let x = B::take(from, version);
        proof {
            B::lemma_is_own_model(x);
        }
        TypedInt::new(x)
    }
}

impl<B: WireInt, X> Writable for TypedInt<B, X> {
    open spec fn writable(x: TypedInt<B, X>, v: Version) -> bool {
        B::writable(x.value(), v)
    }

    open spec fn encode(x: TypedInt<B, X>, v: Version) -> Seq<u8> {
        B::encode(x.value(), v)
    }

    fn write(&self, to: &mut Vec<u8>, version: &Version) -> (r: DifResult<()>) {
        proof {
            B::lemma_is_own_model(self.0);
        }
        self.0.write(to, version)
    }
}

impl<X> FromNarrow<u8> for TypedInt<u16, X> {
    open spec fn widened(x: u8) -> TypedInt<u16, X> {
        TypedInt::of(x as u16)
    }

    fn widen(x: u8) -> (r: Self) {
        TypedInt::new(x as u16)
    }
}

impl<X> FromNarrow<u16> for TypedInt<u16, X> {
    open spec fn widened(x: u16) -> TypedInt<u16, X> {
        TypedInt::of(x)
    }

    fn widen(x: u16) -> (r: Self) {
        TypedInt::new(x)
    }
}

impl<X> FromNarrow<u8> for TypedInt<u32, X> {
    open spec fn widened(x: u8) -> TypedInt<u32, X> {
        TypedInt::of(x as u32)
    }

    fn widen(x: u8) -> (r: Self) {
        TypedInt::new(x as u32)
    }
}

impl<X> FromNarrow<u16> for TypedInt<u32, X> {
    open spec fn widened(x: u16) -> TypedInt<u32, X> {
        TypedInt::of(x as u32)
    }

    fn widen(x: u16) -> (r: Self) {
        TypedInt::new(x as u32)
    }
}

impl<X> ToNarrow<u8> for TypedInt<u32, X> {
    /// The low byte.
    open spec fn narrowed(x: TypedInt<u32, X>) -> u8 {
        (x.value() % 0x100) as u8
    }

    fn narrow(&self) -> (r: u8) {
        (self.0 % 0x100) as u8
    }
}

} // verus!
