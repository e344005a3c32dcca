//! The TIFF header and the Exif block that wraps it inside an APP1 segment.

use vstd::prelude::*;
use vstd::slice::slice_subrange;
use crate::endian::{read_u16, read_u32, u16_read, u32_read, ByteOrder};
use crate::error::{Error, Malformed};
use crate::ifd::{directory, tags_view};
use crate::tag::{Tag, TagView};

verus! {

/// The magic number that follows the byte-order marker.
pub const TIFF_IDENTIFIER: u16 = 42;

/// The marker of a little-endian header: the letters `II`.
pub const LITTLE_ENDIAN_MARKER: u16 = 0x4949;

/// The marker of a big-endian header: the letters `MM`.
pub const BIG_ENDIAN_MARKER: u16 = 0x4d4d;

/// The length of the identifier that opens an Exif segment.
pub const EXIF_IDENTIFIER_LEN: usize = 6;

/// The length of the TIFF header; the first directory follows it directly.
pub const TIFF_HEADER_LEN: usize = 8;

/// The identifier that opens an Exif segment: `Exif` and two zero bytes.
pub open spec fn exif_identifier() -> Seq<u8> {
    seq![69u8, 120u8, 105u8, 102u8, 0u8, 0u8]
}

/// The first eight bytes of a TIFF block.
#[derive(Clone, Copy, Debug, PartialEq, Eq, Structural)]
pub struct TiffHeader {
    pub byte_order: ByteOrder,
    /// Where the header says the first directory starts. It is read and
    /// kept, and the decoder does not follow it.
    pub zeroth_ifd_offset: u32,
}

/// The byte order that a marker selects, if it selects one.
pub open spec fn order_of_marker(marker: u16) -> Option<ByteOrder> {
    if marker == LITTLE_ENDIAN_MARKER {
        Some(ByteOrder::LittleEndian)
    } else if marker == BIG_ENDIAN_MARKER {
        Some(ByteOrder::BigEndian)
    } else {
        None
    }
}

/// The header at the start of `s`: the marker, then in the order it selects
/// the magic number and the offset of the first directory. All eight bytes
/// are read before the magic number is judged.
pub open spec fn tiff_header(s: Seq<u8>) -> Result<TiffHeader, Error> {
    match u16_read(ByteOrder::LittleEndian, s, 0) {
        Err(e) => Err(e),
        Ok(marker) => match order_of_marker(marker) {
            None => Err(Error::InvalidFormat(Malformed::ByteOrderMarker)),
            Some(order) => match u16_read(order, s, 2) {
                Err(e) => Err(e),
                Ok(magic) => match u32_read(order, s, 4) {
                    Err(e) => Err(e),
                    Ok(offset) => if magic == TIFF_IDENTIFIER {
                        Ok(TiffHeader { byte_order: order, zeroth_ifd_offset: offset })
                    } else {
                        Err(Error::InvalidFormat(Malformed::TiffMagic))
                    },
                },
            },
        },
    }
}

/// The entries of the Exif block in an APP1 payload: the identifier, the
/// TIFF header, and the directory right behind the header.
pub open spec fn exif_section(payload: Seq<u8>) -> Result<Seq<TagView>, Error> {
    if payload.len() < EXIF_IDENTIFIER_LEN {
        Err(Error::UnexpectedEof)
    } else if payload.subrange(0, EXIF_IDENTIFIER_LEN as int) != exif_identifier() {
        Err(Error::InvalidFormat(Malformed::ExifIdentifier))
    } else {
        let tiff = payload.subrange(EXIF_IDENTIFIER_LEN as int, payload.len() as int);
        match tiff_header(tiff) {
            Err(e) => Err(e),
            Ok(header) => directory(tiff, header.byte_order, TIFF_HEADER_LEN as int),
        }
    }
}

impl TiffHeader {
    /// Reads the header at the start of `tiff`.
    pub fn load(tiff: &[u8]) -> (r: Result<TiffHeader, Error>)
        ensures
            r == tiff_header(tiff@),
    {
        let byte_order_id: u16 = read_u16(ByteOrder::LittleEndian, tiff, 0)?;
        let byte_order = if byte_order_id == LITTLE_ENDIAN_MARKER {
            ByteOrder::LittleEndian
        } else if byte_order_id == BIG_ENDIAN_MARKER {
            ByteOrder::BigEndian
        } else {
            return Err(Error::InvalidFormat(Malformed::ByteOrderMarker));
        };
        let tiff_id: u16 = read_u16(byte_order, tiff, 2)?;
        let zeroth_ifd_offset: u32 = read_u32(byte_order, tiff, 4)?;
        if tiff_id == TIFF_IDENTIFIER {
            Ok(TiffHeader { byte_order: byte_order, zeroth_ifd_offset: zeroth_ifd_offset })
        } else {
            Err(Error::InvalidFormat(Malformed::TiffMagic))
        }
    }
}

/// The entries of the first directory of an Exif block.
#[derive(Clone, Debug, PartialEq, Eq)]
pub struct ExifSection {
    pub zeroth_ifd: Vec<Tag>,
}

/// The view of an Exif result.
pub open spec fn exif_result_view(r: Result<ExifSection, Error>) -> Result<Seq<TagView>, Error> {
    match r {
        Ok(section) => Ok(tags_view(section.zeroth_ifd@)),
        Err(e) => Err(e),
    }
}

impl ExifSection {
    /// Decodes the payload of an APP1 segment as an Exif block.
    pub fn load(payload: &[u8]) -> (r: Result<ExifSection, Error>)
        ensures
            exif_result_view(r) == exif_section(payload@),
    {
        if payload.len() < EXIF_IDENTIFIER_LEN {
            return Err(Error::UnexpectedEof);
        }
        let matches_identifier = payload[0] == 69 && payload[1] == 120 && payload[2] == 105
            && payload[3] == 102 && payload[4] == 0 && payload[5] == 0;
        proof {
            let head = payload@.subrange(0, EXIF_IDENTIFIER_LEN as int);
            if matches_identifier {
                assert(head =~= exif_identifier());
            } else {
                assert(head[0] == payload@[0] && head[1] == payload@[1] && head[2] == payload@[2]
                    && head[3] == payload@[3] && head[4] == payload@[4] && head[5] == payload@[5]);
            }
        }
        if !matches_identifier {
            return Err(Error::InvalidFormat(Malformed::ExifIdentifier));
        }
        let tiff = slice_subrange(payload, EXIF_IDENTIFIER_LEN, payload.len());
        let header = TiffHeader::load(tiff)?;
        let fields = Tag::load_all(tiff, TIFF_HEADER_LEN, header.byte_order)?;
        Ok(ExifSection { zeroth_ifd: fields })
    }
}

} // verus!
