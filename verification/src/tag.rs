//! Directory entries: a tag id, a datatype, the raw bytes of the value and
//! the byte order they were written in, with typed accessors on top.

use vstd::prelude::*;
use vstd::slice::{slice_subrange, slice_to_vec};
use vstd::utf8::{decode_utf8, valid_utf8};
use crate::endian::{read_u16, u16_at, ByteOrder};
use crate::error::{Error, Malformed};

verus! {

/// The datatype of a directory entry's value.
#[derive(Clone, Copy, Debug, PartialEq, Eq, Structural)]
pub enum TagDatatype {
    Byte,
    Ascii,
    Short,
    Long,
    Rational,
    Undefined,
    SignedLong,
    SignedRational,
}

impl TagDatatype {
    /// The datatype that a wire code stands for, if it stands for one.
    pub open spec fn of_code(code: u16) -> Option<TagDatatype> {
        if code == 1 {
            Some(TagDatatype::Byte)
        } else if code == 2 {
            Some(TagDatatype::Ascii)
        } else if code == 3 {
            Some(TagDatatype::Short)
        } else if code == 4 {
            Some(TagDatatype::Long)
        } else if code == 5 {
            Some(TagDatatype::Rational)
        } else if code == 7 {
            Some(TagDatatype::Undefined)
        } else if code == 9 {
            Some(TagDatatype::SignedLong)
        } else if code == 10 {
            Some(TagDatatype::SignedRational)
        } else {
            None
        }
    }

    /// The number of bytes that one unit of the datatype occupies.
    pub open spec fn unit(self) -> nat {
        match self {
            TagDatatype::Byte => 1,
            TagDatatype::Ascii => 1,
            TagDatatype::Short => 2,
            TagDatatype::Long => 4,
            TagDatatype::Rational => 8,
            TagDatatype::Undefined => 1,
            TagDatatype::SignedLong => 4,
            TagDatatype::SignedRational => 8,
        }
    }

    /// Maps a wire code to its datatype; an undefined code is malformed.
    pub fn new(datatype: u16) -> (r: Result<TagDatatype, Error>)
        ensures
            r == match Self::of_code(datatype) {
                Some(t) => Ok::<TagDatatype, Error>(t),
                None => Err(Error::InvalidFormat(Malformed::Datatype)),
            },
    {
        match datatype {
            1 => Ok(TagDatatype::Byte),
            2 => Ok(TagDatatype::Ascii),
            3 => Ok(TagDatatype::Short),
            4 => Ok(TagDatatype::Long),
            5 => Ok(TagDatatype::Rational),
            7 => Ok(TagDatatype::Undefined),
            9 => Ok(TagDatatype::SignedLong),
            10 => Ok(TagDatatype::SignedRational),
            _ => Err(Error::InvalidFormat(Malformed::Datatype)),
        }
    }

    /// The size in bytes of one unit of the datatype.
    pub fn len(&self) -> (n: usize)
        ensures
            n == self.unit(),
    {
        match *self {
            TagDatatype::Byte => 1,
            TagDatatype::Ascii => 1,
            TagDatatype::Short => 2,
            TagDatatype::Long => 4,
            TagDatatype::Rational => 8,
            TagDatatype::Undefined => 1,
            TagDatatype::SignedLong => 4,
            TagDatatype::SignedRational => 8,
        }
    }
}

/// One decoded directory entry.
#[derive(Clone, Debug, PartialEq, Eq)]
pub struct Tag {
    pub id: u16,
    pub datatype: TagDatatype,
    pub data: Vec<u8>,
    pub byte_order: ByteOrder,
}

/// The mathematical content of a `Tag`.
pub struct TagView {
    pub id: u16,
    pub datatype: TagDatatype,
    pub data: Seq<u8>,
    pub byte_order: ByteOrder,
}

impl View for Tag {
    type V = TagView;

    open spec fn view(&self) -> TagView {
        TagView {
            id: self.id,
            datatype: self.datatype,
            data: self.data@,
            byte_order: self.byte_order,
        }
    }
}

impl TagView {
    /// The raw bytes are a whole number of units of the datatype.
    pub open spec fn wf(self) -> bool {
        self.data.len() % self.datatype.unit() == 0
    }

    /// The value of the entry read as one short.
    pub open spec fn short(self) -> Result<u16, Error> {
        if self.datatype == TagDatatype::Short && self.data.len() == 2 {
            Ok(u16_at(self.byte_order, self.data, 0))
        } else {
            Err(Error::InvalidFormat(Malformed::TagAccess))
        }
    }

    /// The bytes of an ascii value without the terminator that ends it.
    pub open spec fn text_bytes(self) -> Seq<u8> {
        if self.data.len() == 0 {
            self.data
        } else {
            self.data.drop_last()
        }
    }

    /// The value of the entry read as text.
    pub open spec fn ascii(self) -> Result<Seq<char>, Error> {
        if self.datatype != TagDatatype::Ascii {
            Err(Error::InvalidFormat(Malformed::TagAccess))
        } else if valid_utf8(self.text_bytes()) {
            Ok(decode_utf8(self.text_bytes()))
        } else {
            Err(Error::InvalidFormat(Malformed::Text))
        }
    }
}

/// The characters of a text result, or its error.
pub open spec fn text_view(r: Result<String, Error>) -> Result<Seq<char>, Error> {
    match r {
        Ok(s) => Ok(s@),
        Err(e) => Err(e),
    }
}

/// Calls `String::from_utf8`, which succeeds exactly on bytes that are valid
/// UTF-8 and then yields the text that those bytes encode.
#[verifier::external_body]
fn string_from_utf8(bytes: Vec<u8>) -> (r: Option<String>)
    ensures
        r.is_some() == valid_utf8(bytes@),
        r matches Some(s) ==> s@ == decode_utf8(bytes@),
{
    match String::from_utf8(bytes) {
        Ok(s) => Some(s),
        Err(_) => None,
    }
}

impl Tag {
    /// Builds an entry from its parts.
    pub fn new(id: u16, datatype: TagDatatype, data: Vec<u8>, byte_order: ByteOrder) -> (t: Tag)
        ensures
            t.id == id,
            t.datatype == datatype,
            t.data == data,
            t.byte_order == byte_order,
    {
        Tag { id: id, datatype: datatype, data: data, byte_order: byte_order }
    }

    /// Reads the value as a short: only an entry of datatype `Short` with
    /// exactly two bytes has one, decoded in the entry's own byte order.
    pub fn get_short(&self) -> (r: Result<u16, Error>)
        ensures
            r == self@.short(),
    {
        match self.datatype {
            TagDatatype::Short => {
                if self.data.len() == 2 {
                    read_u16(self.byte_order, self.data.as_slice(), 0)
                } else {
                    Err(Error::InvalidFormat(Malformed::TagAccess))
                }
            },
            _ => Err(Error::InvalidFormat(Malformed::TagAccess)),
        }
    }

    /// Reads the value as text: only an entry of datatype `Ascii` has one.
    /// The last byte, where there is one, is dropped as the terminator, and
    /// the rest must be valid UTF-8.
    pub fn get_ascii(&self) -> (r: Result<String, Error>)
        ensures
            text_view(r) == self@.ascii(),
    {
        match self.datatype {
            TagDatatype::Ascii => {
                let n: usize = self.data.len();
                let kept: usize = if n == 0 { 0 } else { n - 1 };
                let body = slice_to_vec(slice_subrange(self.data.as_slice(), 0, kept));
                assert(body@ =~= self@.text_bytes());
                match string_from_utf8(body) {
                    Some(s) => Ok(s),
                    None => Err(Error::InvalidFormat(Malformed::Text)),
                }
            },
            _ => Err(Error::InvalidFormat(Malformed::TagAccess)),
        }
    }
}

} // verus!
