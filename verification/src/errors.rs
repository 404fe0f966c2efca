use vstd::prelude::*;

verus! {

/// Why a DIF stream was rejected, or why a record cannot be written.
#[derive(Clone, Copy, Debug, PartialEq, Eq, Structural)]
pub enum DifErrorKind {
    /// The stream ended inside a field.
    Eof,
    /// The file's leading version number is not 44.
    BadVersion,
    /// The interior's version number is above 14.
    UnsupportedInteriorVersion,
    /// The surfaces are laid out as in Marble Blast Gold, but the interior's version is not 0.
    InvalidMbgVersion,
    /// A surface refers past the end of a table that was read before it.
    OutOfBounds,
    /// Surface flag bits outside the known set.
    InvalidFlags,
    /// A length-prefixed string is not UTF-8.
    InvalidUtf8,
    /// A record whose layout this library does not know.
    Unsupported,
}

#[derive(Debug)]
pub struct DifError {
    pub kind: DifErrorKind,
}

pub type DifResult<T> = Result<T, DifError>;

impl DifError {
    pub fn new(kind: DifErrorKind) -> (e: DifError)
        ensures
            e.kind == kind,
    {
        DifError { kind }
    }

    /// A short text for the error.
    pub fn message(&self) -> (s: String)
        ensures
            s@ == Self::message_text(self.kind),
    {
        match self.kind {
            DifErrorKind::Eof => "EOF".to_owned(),
            DifErrorKind::BadVersion => "Bad version".to_owned(),
            DifErrorKind::UnsupportedInteriorVersion => "Unsupported interior version".to_owned(),
            DifErrorKind::InvalidMbgVersion => "Invalid version for MBG interior".to_owned(),
            DifErrorKind::OutOfBounds => "OOB".to_owned(),
            DifErrorKind::InvalidFlags => "Invalid flags".to_owned(),
            DifErrorKind::InvalidUtf8 => "UTF-8 Error".to_owned(),
            DifErrorKind::Unsupported => "Unsupported record".to_owned(),
        }
    }

    pub open spec fn message_text(kind: DifErrorKind) -> Seq<char> {
        match kind {
            DifErrorKind::Eof => "EOF"@,
            DifErrorKind::BadVersion => "Bad version"@,
            DifErrorKind::UnsupportedInteriorVersion => "Unsupported interior version"@,
            DifErrorKind::InvalidMbgVersion => "Invalid version for MBG interior"@,
            DifErrorKind::OutOfBounds => "OOB"@,
            DifErrorKind::InvalidFlags => "Invalid flags"@,
            DifErrorKind::InvalidUtf8 => "UTF-8 Error"@,
            DifErrorKind::Unsupported => "Unsupported record"@,
        }
    }
}

} // verus!
