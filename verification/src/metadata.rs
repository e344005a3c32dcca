//! The segment scanner: one forward pass over a JPEG stream that takes the
//! dimensions from a start-of-frame segment and the Exif fields from APP1
//! segments, and stops at the end-of-image marker.

use vstd::prelude::*;
use vstd::slice::slice_subrange;
use crate::endian::{read_u16, u16_at, ByteOrder};
use crate::error::Error;
use crate::ifd::tags_view;
use crate::tag::{Tag, TagView};
use crate::tiff::{exif_section, ExifSection};

verus! {

/// The byte that opens every marker.
pub const MARKER_PREFIX: u8 = 0xff;

/// Baseline start of frame.
pub const SOF_BASELINE: u8 = 0xc0;

/// Progressive start of frame.
pub const SOF_PROGRESSIVE: u8 = 0xc2;

/// The first marker type that carries no length field.
pub const STANDALONE_FIRST: u8 = 0xd0;

/// End of image; also the last marker type that carries no length field.
pub const END_OF_IMAGE: u8 = 0xd9;

/// The application segment that conventionally holds Exif data.
pub const APP1: u8 = 0xe1;

/// The bytes of a frame header that are read: precision, height, width.
pub const FRAME_HEAD_LEN: usize = 5;

pub const ORIENTATION_TAG: u16 = 0x112;

pub const DATE_TIME_TAG: u16 = 306;

pub const MAKE_TAG: u16 = 271;

pub const MODEL_TAG: u16 = 272;

/// How the stored image is to be turned for display.
#[derive(Clone, Copy, Debug, PartialEq, Eq, Structural)]
pub enum Orientation {
    Normal,
    MirrorHorizontal,
    Rotate180,
    FlipVertical,
    Transpose,
    Rotate90,
    Transverse,
    Rotate270,
    Unspecified,
}

impl Orientation {
    /// The orientation that an Exif code stands for. Codes 1 to 8 are
    /// defined; every other code is unspecified.
    pub open spec fn of_code(code: u16) -> Orientation {
        if code == 1 {
            Orientation::Normal
        } else if code == 2 {
            Orientation::MirrorHorizontal
        } else if code == 3 {
            Orientation::Rotate180
        } else if code == 4 {
            Orientation::FlipVertical
        } else if code == 5 {
            Orientation::Transpose
        } else if code == 6 {
            Orientation::Rotate90
        } else if code == 7 {
            Orientation::Transverse
        } else if code == 8 {
            Orientation::Rotate270
        } else {
            Orientation::Unspecified
        }
    }

    /// Maps an Exif orientation code to its orientation.
    pub fn new(orientation: u16) -> (o: Orientation)
        ensures
            o == Self::of_code(orientation),
    {
        match orientation {
            1 => Orientation::Normal,
            2 => Orientation::MirrorHorizontal,
            3 => Orientation::Rotate180,
            4 => Orientation::FlipVertical,
            5 => Orientation::Transpose,
            6 => Orientation::Rotate90,
            7 => Orientation::Transverse,
            8 => Orientation::Rotate270,
            _ => Orientation::Unspecified,
        }
    }
}

/// The size of an image in pixels.
#[derive(Clone, Copy, Debug, PartialEq, Eq, Structural)]
pub struct Dimensions {
    pub width: u32,
    pub height: u32,
}

/// The characters of an optional text.
pub open spec fn text_of(t: Option<String>) -> Option<Seq<char>> {
    match t {
        Some(s) => Some(s@),
        None => None,
    }
}

/// The fields that an Exif directory can set. A field is `None` until a
/// directory has set it.
#[derive(Clone, Debug, PartialEq, Eq)]
pub struct ExifFields {
    pub orientation: Option<Orientation>,
    pub date_time: Option<String>,
    pub make: Option<String>,
    pub model: Option<String>,
}

/// The mathematical content of `ExifFields`.
pub struct ExifFieldsView {
    pub orientation: Option<Orientation>,
    pub date_time: Option<Seq<char>>,
    pub make: Option<Seq<char>>,
    pub model: Option<Seq<char>>,
}

impl View for ExifFields {
    type V = ExifFieldsView;

    open spec fn view(&self) -> ExifFieldsView {
        ExifFieldsView {
            orientation: self.orientation,
            date_time: text_of(self.date_time),
            make: text_of(self.make),
            model: text_of(self.model),
        }
    }
}

impl ExifFieldsView {
    /// No field set.
    pub open spec fn empty() -> ExifFieldsView {
        ExifFieldsView { orientation: None, date_time: None, make: None, model: None }
    }

    /// The fields after one more entry. An entry with a known id sets its
    /// field through the accessor of its type, and fails where the accessor
    /// fails; an entry with another id changes nothing.
    pub open spec fn absorb(self, t: TagView) -> Result<ExifFieldsView, Error> {
        if t.id == ORIENTATION_TAG {
            match t.short() {
                Ok(code) => Ok(
                    ExifFieldsView {
                        orientation: Some(Orientation::of_code(code)),
                        date_time: self.date_time,
                        make: self.make,
                        model: self.model,
                    },
                ),
                Err(e) => Err(e),
            }
        } else if t.id == DATE_TIME_TAG {
            match t.ascii() {
                Ok(text) => Ok(
                    ExifFieldsView {
                        orientation: self.orientation,
                        date_time: Some(text),
                        make: self.make,
                        model: self.model,
                    },
                ),
                Err(e) => Err(e),
            }
        } else if t.id == MAKE_TAG {
            match t.ascii() {
                Ok(text) => Ok(
                    ExifFieldsView {
                        orientation: self.orientation,
                        date_time: self.date_time,
                        make: Some(text),
                        model: self.model,
                    },
                ),
                Err(e) => Err(e),
            }
        } else if t.id == MODEL_TAG {
            match t.ascii() {
                Ok(text) => Ok(
                    ExifFieldsView {
                        orientation: self.orientation,
                        date_time: self.date_time,
                        make: self.make,
                        model: Some(text),
                    },
                ),
                Err(e) => Err(e),
            }
        } else {
            Ok(self)
        }
    }

    /// The fields with every field that `over` has set taken from `over`.
    pub open spec fn overlay(self, over: ExifFieldsView) -> ExifFieldsView {
        ExifFieldsView {
            orientation: if over.orientation is Some {
                over.orientation
            } else {
                self.orientation
            },
            date_time: if over.date_time is Some {
                over.date_time
            } else {
                self.date_time
            },
            make: if over.make is Some {
                over.make
            } else {
                self.make
            },
            model: if over.model is Some {
                over.model
            } else {
                self.model
            },
        }
    }

    /// The fields after an APP1 segment with the given payload: what its
    /// Exif block sets is laid over them, and a block that fails anywhere,
    /// in its structure or in a known entry, leaves them as they were.
    pub open spec fn after_app1(self, payload: Seq<u8>) -> ExifFieldsView {
        match exif_section(payload) {
            Err(_) => self,
            Ok(tags) => match collected(tags, tags.len()) {
                Err(_) => self,
                Ok(over) => self.overlay(over),
            },
        }
    }
}

/// The payload is an Exif block that decodes and whose known entries all
/// read through their accessors.
pub open spec fn sound_exif(payload: Seq<u8>) -> bool {
    match exif_section(payload) {
        Err(_) => false,
        Ok(tags) => collected(tags, tags.len()) is Ok,
    }
}

/// The fields that the first `k` entries set, the later entry winning where
/// two set the same field.
pub open spec fn collected(tags: Seq<TagView>, k: nat) -> Result<ExifFieldsView, Error>
    decreases k,
{
    if k == 0 {
        Ok(ExifFieldsView::empty())
    } else {
        match collected(tags, (k - 1) as nat) {
            Err(e) => Err(e),
            Ok(fields) => fields.absorb(tags[k - 1]),
        }
    }
}

/// The view of a result that holds fields.
pub open spec fn fields_result_view(r: Result<ExifFields, Error>) -> Result<ExifFieldsView, Error> {
    match r {
        Ok(f) => Ok(f@),
        Err(e) => Err(e),
    }
}

proof fn lemma_collected_error(tags: Seq<TagView>, k: nat, n: nat)
    requires
        k <= n,
        collected(tags, k) is Err,
    ensures
        collected(tags, n) == collected(tags, k),
    decreases n - k,
{
    if k < n {
        lemma_collected_error(tags, k, (n - 1) as nat);
    }
}

impl ExifFields {
    /// No field set.
    pub fn empty() -> (f: ExifFields)
        ensures
            f@ == ExifFieldsView::empty(),
    {
        ExifFields { orientation: None, date_time: None, make: None, model: None }
    }

    /// Folds the entries of a directory into fields.
    pub fn collect(tags: &Vec<Tag>) -> (r: Result<ExifFields, Error>)
        ensures
            fields_result_view(r) == collected(tags_view(tags@), tags@.len()),
    {
        let mut fields = ExifFields::empty();
        let mut i: usize = 0;
        while i < tags.len()
            invariant
                i <= tags.len(),
                collected(tags_view(tags@), i as nat) == Ok::<ExifFieldsView, Error>(fields@),
            decreases tags.len() - i,
        {
            let tag = &tags[i];
            assert(tags_view(tags@)[i as int] == tag@);
            proof {
                if fields@.absorb(tag@) is Err {
                    lemma_collected_error(tags_view(tags@), i as nat + 1, tags@.len());
                }
            }
            if tag.id == ORIENTATION_TAG {
                match tag.get_short() {
                    Ok(code) => {
                        fields.orientation = Some(Orientation::new(code));
                    },
                    Err(e) => {
                        return Err(e);
                    },
                }
            } else if tag.id == DATE_TIME_TAG {
                match tag.get_ascii() {
                    Ok(text) => {
                        fields.date_time = Some(text);
                    },
                    Err(e) => {
                        return Err(e);
                    },
                }
            } else if tag.id == MAKE_TAG {
                match tag.get_ascii() {
                    Ok(text) => {
                        fields.make = Some(text);
                    },
                    Err(e) => {
                        return Err(e);
                    },
                }
            } else if tag.id == MODEL_TAG {
                match tag.get_ascii() {
                    Ok(text) => {
                        fields.model = Some(text);
                    },
                    Err(e) => {
                        return Err(e);
                    },
                }
            }
            i += 1;
        }
        Ok(fields)
    }

    /// Takes from `over` every field that it has set.
    pub fn overlay(self, over: ExifFields) -> (f: ExifFields)
        ensures
            f@ == self@.overlay(over@),
    {
        ExifFields {
            orientation: if over.orientation.is_some() {
                over.orientation
            } else {
                self.orientation
            },
            date_time: if over.date_time.is_some() {
                over.date_time
            } else {
                self.date_time
            },
            make: if over.make.is_some() {
                over.make
            } else {
                self.make
            },
            model: if over.model.is_some() {
                over.model
            } else {
                self.model
            },
        }
    }

    /// Applies the payload of an APP1 segment. A payload that is no sound
    /// Exif block changes nothing.
    pub fn after_app1(self, payload: &[u8]) -> (f: ExifFields)
        ensures
            f@ == self@.after_app1(payload@),
    {
        match ExifSection::load(payload) {
            Err(_) => self,
            Ok(section) => match ExifFields::collect(&section.zeroth_ifd) {
                Err(_) => self,
                Ok(over) => self.overlay(over),
            },
        }
    }
}

/// What a decode returns.
#[derive(Clone, Debug, PartialEq, Eq)]
pub struct Metadata {
    /// Image size.
    pub dimensions: Dimensions,
    /// Image orientation.
    pub orientation: Orientation,
    /// File change date and time.
    pub date_time: Option<String>,
    /// Image input equipment manufacturer.
    pub make: Option<String>,
    /// Image input equipment model.
    pub model: Option<String>,
}

/// The mathematical content of `Metadata`.
pub struct MetadataView {
    pub dimensions: Dimensions,
    pub orientation: Orientation,
    pub date_time: Option<Seq<char>>,
    pub make: Option<Seq<char>>,
    pub model: Option<Seq<char>>,
}

impl View for Metadata {
    type V = MetadataView;

    open spec fn view(&self) -> MetadataView {
        MetadataView {
            dimensions: self.dimensions,
            orientation: self.orientation,
            date_time: text_of(self.date_time),
            make: text_of(self.make),
            model: text_of(self.model),
        }
    }
}

/// The view of a decode result.
pub open spec fn metadata_result_view(r: Result<Metadata, Error>) -> Result<MetadataView, Error> {
    match r {
        Ok(m) => Ok(m@),
        Err(e) => Err(e),
    }
}

/// The length of a payload whose length field holds `wire`. The field counts
/// its own two bytes; a field too small to do so stands for no payload.
pub open spec fn payload_len(wire: u16) -> int {
    if wire >= 2 {
        wire - 2
    } else {
        0
    }
}

/// The bytes of a frame segment that follow the five that are read.
pub open spec fn frame_rest(size: int) -> int {
    if size >= FRAME_HEAD_LEN {
        size - FRAME_HEAD_LEN
    } else {
        0
    }
}

/// The dimensions in the frame header at `body`: one byte of precision,
/// then height, then width, both big-endian.
pub open spec fn frame_dimensions(s: Seq<u8>, body: int) -> Dimensions {
    Dimensions {
        width: u16_at(ByteOrder::BigEndian, s, body + 3) as u32,
        height: u16_at(ByteOrder::BigEndian, s, body + 1) as u32,
    }
}

/// The result once the end-of-image marker is met.
pub open spec fn finish(dimensions: Option<Dimensions>, exif: ExifFieldsView) -> Result<
    MetadataView,
    Error,
> {
    match dimensions {
        None => Err(Error::MissingDimensions),
        Some(d) => Ok(
            MetadataView {
                dimensions: d,
                orientation: match exif.orientation {
                    Some(o) => o,
                    None => Orientation::Unspecified,
                },
                date_time: exif.date_time,
                make: exif.make,
                model: exif.model,
            },
        ),
    }
}

/// The result of scanning `s` from `pos` on, with what was found so far.
///
/// Bytes are passed over up to the next marker prefix. The byte after the
/// prefix is the marker type: zero is a stuffed byte and no marker; the
/// types without a length field are passed over, but for end-of-image,
/// which ends the scan; every other type carries a big-endian length. A
/// frame segment sets the dimensions, an APP1 segment is offered to the Exif
/// reader, and any other payload is passed over.
pub open spec fn scan(
    s: Seq<u8>,
    pos: int,
    dimensions: Option<Dimensions>,
    exif: ExifFieldsView,
) -> Result<MetadataView, Error>
    decreases s.len() - pos,
{
    if pos < 0 || pos >= s.len() {
        Err(Error::UnexpectedEof)
    } else if s[pos] != MARKER_PREFIX {
        scan(s, pos + 1, dimensions, exif)
    } else if pos + 2 > s.len() {
        Err(Error::UnexpectedEof)
    } else {
        let kind = s[pos + 1];
        if kind == 0 {
            scan(s, pos + 2, dimensions, exif)
        } else if kind == END_OF_IMAGE {
            finish(dimensions, exif)
        } else if STANDALONE_FIRST <= kind && kind < END_OF_IMAGE {
            scan(s, pos + 2, dimensions, exif)
        } else if pos + 4 > s.len() {
            Err(Error::UnexpectedEof)
        } else {
            let size = payload_len(u16_at(ByteOrder::BigEndian, s, pos + 2));
            let body = pos + 4;
            if kind == SOF_BASELINE || kind == SOF_PROGRESSIVE {
                let next = body + FRAME_HEAD_LEN + frame_rest(size);
                if next > s.len() {
                    Err(Error::UnexpectedEof)
                } else {
                    scan(s, next, Some(frame_dimensions(s, body)), exif)
                }
            } else if body + size > s.len() {
                Err(Error::UnexpectedEof)
            } else if kind == APP1 {
                scan(s, body + size, dimensions, exif.after_app1(s.subrange(body, body + size)))
            } else {
                scan(s, body + size, dimensions, exif)
            }
        }
    }
}

/// The metadata of the JPEG stream `s`, or the error that ends its decode.
pub open spec fn decode(s: Seq<u8>) -> Result<MetadataView, Error> {
    scan(s, 0, None, ExifFieldsView::empty())
}

impl Metadata {
    /// Decodes the metadata of a JPEG stream held in memory.
    pub fn load(bytes: &[u8]) -> (r: Result<Metadata, Error>)
        ensures
            metadata_result_view(r) == decode(bytes@),
    {
        let len: usize = bytes.len();
        let mut pos: usize = 0;
        let mut dimensions: Option<Dimensions> = None;
        let mut exif = ExifFields::empty();
        loop
            invariant
                pos <= len,
                len == bytes@.len(),
                scan(bytes@, pos as int, dimensions, exif@) == decode(bytes@),
            decreases len - pos,
        {
            if pos >= len {
                return Err(Error::UnexpectedEof);
            }
            if bytes[pos] != MARKER_PREFIX {
                pos += 1;
            } else if len - pos < 2 {
                return Err(Error::UnexpectedEof);
            } else {
                let kind: u8 = bytes[pos + 1];
                if kind == 0 {
                    pos += 2;
                } else if kind == END_OF_IMAGE {
                    return match dimensions {
                        None => Err(Error::MissingDimensions),
                        Some(d) => Ok(
                            Metadata {
                                dimensions: d,
                                orientation: match exif.orientation {
                                    Some(o) => o,
                                    None => Orientation::Unspecified,
                                },
                                date_time: exif.date_time,
                                make: exif.make,
                                model: exif.model,
                            },
                        ),
                    };
                } else if STANDALONE_FIRST <= kind && kind < END_OF_IMAGE {
                    pos += 2;
                } else if len - pos < 4 {
                    return Err(Error::UnexpectedEof);
                } else {
                    let wire: u16 = read_u16(ByteOrder::BigEndian, bytes, pos + 2)?;
                    let size: usize = if wire >= 2 {
                        (wire - 2) as usize
                    } else {
                        0
                    };
                    let body: usize = pos + 4;
                    let left: usize = len - body;
                    if kind == SOF_BASELINE || kind == SOF_PROGRESSIVE {
                        let rest: usize = if size >= FRAME_HEAD_LEN {
                            size - FRAME_HEAD_LEN
                        } else {
                            0
                        };
                        if left < FRAME_HEAD_LEN || left - FRAME_HEAD_LEN < rest {
                            return Err(Error::UnexpectedEof);
                        }
                        let h: u16 = read_u16(ByteOrder::BigEndian, bytes, body + 1)?;
                        let w: u16 = read_u16(ByteOrder::BigEndian, bytes, body + 3)?;
                        dimensions = Some(Dimensions { width: w as u32, height: h as u32 });
                        pos = body + FRAME_HEAD_LEN + rest;
                    } else if left < size {
                        return Err(Error::UnexpectedEof);
                    } else if kind == APP1 {
                        let payload = slice_subrange(bytes, body, body + size);
                        exif = exif.after_app1(payload);
                        pos = body + size;
                    } else {
                        pos = body + size;
                    }
                }
            }
        }
    }
}

} // verus!
