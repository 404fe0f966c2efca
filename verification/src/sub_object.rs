use vstd::prelude::*;
use crate::errors::{DifError, DifErrorKind, DifResult};
use crate::io::{Cursor, Readable, Reader, Version, Writable};

verus! {

/// A sub-object of an interior. No layout is known for it: it can be
/// neither read nor written.
#[derive(Clone, Copy, Debug, PartialEq, Eq)]
pub struct SubObject {}

impl DeepView for SubObject {
    type V = SubObject;

    open spec fn deep_view(&self) -> SubObject {
        *self
    }
}

impl Readable for SubObject {
    open spec fn parse(d: Seq<u8>, c: Cursor, v: Version) -> (SubObject, Cursor, Version) {
        (SubObject {  }, c.fail(DifErrorKind::Unsupported), v)
    }

    fn take(from: &mut Reader, version: &mut Version) -> (r: Self) {
        from.fail(DifErrorKind::Unsupported);
        SubObject {  }
    }
}

impl Writable for SubObject {
    open spec fn writable(x: SubObject, v: Version) -> bool {
        false
    }

    open spec fn encode(x: SubObject, v: Version) -> Seq<u8> {
        Seq::empty()
    }

    fn write(&self, to: &mut Vec<u8>, version: &Version) -> (r: DifResult<()>) {
        Err(DifError::new(DifErrorKind::Unsupported))
    }
}

} // verus!
