//! The failures a decode can end in.

use vstd::prelude::*;

verus! {

/// Why a structure was judged malformed.
#[derive(Clone, Copy, Debug, PartialEq, Eq, Structural)]
pub enum Malformed {
    /// The segment does not open with `Exif` and two zero bytes.
    ExifIdentifier,
    /// The TIFF byte-order marker is neither `II` nor `MM`.
    ByteOrderMarker,
    /// The TIFF magic number is not 42.
    TiffMagic,
    /// A directory entry carries a datatype code that is not defined.
    Datatype,
    /// An out-of-line value starts before the position already consumed.
    Overrun,
    /// A typed accessor was used on an entry of another datatype or length.
    TagAccess,
    /// An ascii value is not valid UTF-8.
    Text,
}

/// The terminal outcome of a failed decode.
#[derive(Clone, Copy, Debug, PartialEq, Eq, Structural)]
pub enum Error {
    /// A required read ran past the end of the bytes.
    UnexpectedEof,
    /// The bytes are present but break the format.
    InvalidFormat(Malformed),
    /// The stream ended without a start-of-frame segment.
    MissingDimensions,
}

impl Malformed {
    /// The short text that names each cause.
    pub open spec fn message(self) -> Seq<char> {
        match self {
            Malformed::ExifIdentifier => "not an exif segment"@,
            Malformed::ByteOrderMarker => "unknown byte order id"@,
            Malformed::TiffMagic => "unknown tiff id"@,
            Malformed::Datatype => "invalid tag datatype"@,
            Malformed::Overrun => "overrun"@,
            Malformed::TagAccess => "tag has invalid datatype or count"@,
            Malformed::Text => "invalid string"@,
        }
    }

    /// Returns the text of `message`.
    pub fn describe(&self) -> (s: &'static str)
        ensures
            s@ == self.message(),
    {
        match self {
            Malformed::ExifIdentifier => "not an exif segment",
            Malformed::ByteOrderMarker => "unknown byte order id",
            Malformed::TiffMagic => "unknown tiff id",
            Malformed::Datatype => "invalid tag datatype",
            Malformed::Overrun => "overrun",
            Malformed::TagAccess => "tag has invalid datatype or count",
            Malformed::Text => "invalid string",
        }
    }
}

} // verus!
