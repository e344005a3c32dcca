//! One image file directory: twelve-byte entries whose small values sit in
//! the entry itself and whose large values sit further on, at an offset
//! counted from the start of the TIFF header.
//!
//! The directory is decoded in two passes. The first walks the entries,
//! keeps the inline values and files each out-of-line value by its offset.
//! The second visits the out-of-line values in ascending offset order and
//! never moves backward.

use vstd::prelude::*;
use vstd::slice::{slice_subrange, slice_to_vec};
use crate::endian::{read_u16, read_u32, u16_at, u16_read, u32_at, u32_read, ByteOrder};
use crate::error::{Error, Malformed};
use crate::tag::{Tag, TagDatatype, TagView};

verus! {

/// An out-of-line value that the first pass has seen but not yet read.
#[derive(Clone, Copy, Debug, PartialEq, Eq, Structural)]
pub struct Pending {
    pub offset: u32,
    pub id: u16,
    pub datatype: TagDatatype,
    pub count: u32,
}

impl Pending {
    /// The number of bytes that the value occupies.
    pub open spec fn byte_len(self) -> nat {
        self.datatype.unit() * (self.count as nat)
    }

    /// The position just after the value.
    pub open spec fn end(self) -> int {
        self.offset + self.byte_len()
    }

    /// The entry that the value makes once it is read from `s`.
    pub open spec fn resolve(self, s: Seq<u8>, order: ByteOrder) -> TagView {
        TagView {
            id: self.id,
            datatype: self.datatype,
            data: s.subrange(self.offset as int, self.end()),
            byte_order: order,
        }
    }
}

/// What one directory entry holds after the first pass.
#[derive(Clone, Debug, PartialEq, Eq)]
pub enum Entry {
    Inline(Tag),
    Deferred(Pending),
}

/// The mathematical content of an `Entry`.
pub enum EntryView {
    Inline(TagView),
    Deferred(Pending),
}

impl View for Entry {
    type V = EntryView;

    open spec fn view(&self) -> EntryView {
        match *self {
            Entry::Inline(t) => EntryView::Inline(t@),
            Entry::Deferred(p) => EntryView::Deferred(p),
        }
    }
}

/// The entry of twelve bytes at `pos`.
pub open spec fn entry_at(s: Seq<u8>, order: ByteOrder, pos: int) -> Result<EntryView, Error> {
    if pos + 4 > s.len() {
        Err(Error::UnexpectedEof)
    } else {
        match TagDatatype::of_code(u16_at(order, s, pos + 2)) {
            None => Err(Error::InvalidFormat(Malformed::Datatype)),
            Some(datatype) => {
                if pos + 12 > s.len() {
                    Err(Error::UnexpectedEof)
                } else {
                    let id = u16_at(order, s, pos);
                    let count = u32_at(order, s, pos + 4);
                    let n = datatype.unit() * (count as nat);
                    if n <= 4 {
                        Ok(
                            EntryView::Inline(
                                TagView {
                                    id: id,
                                    datatype: datatype,
                                    data: s.subrange(pos + 8, pos + 8 + n),
                                    byte_order: order,
                                },
                            ),
                        )
                    } else {
                        Ok(
                            EntryView::Deferred(
                                Pending {
                                    offset: u32_at(order, s, pos + 8),
                                    id: id,
                                    datatype: datatype,
                                    count: count,
                                },
                            ),
                        )
                    }
                }
            },
        }
    }
}

/// `p` filed into `list` behind every value whose offset is not larger.
pub open spec fn insert_by_offset(list: Seq<Pending>, p: Pending) -> Seq<Pending>
    decreases list.len(),
{
    if list.len() == 0 {
        seq![p]
    } else if list.last().offset <= p.offset {
        list.push(p)
    } else {
        insert_by_offset(list.drop_last(), p).push(list.last())
    }
}

/// The offsets never decrease along `list`.
pub open spec fn ascending(list: Seq<Pending>) -> bool {
    forall|i: int, j: int| 0 <= i <= j < list.len() ==> list[i].offset <= list[j].offset
}

/// The state after the first `k` entries of the directory that starts at
/// `start`: the inline entries in directory order, and the out-of-line
/// values in ascending offset order, equal offsets in directory order.
pub open spec fn first_pass(s: Seq<u8>, order: ByteOrder, start: int, k: nat) -> Result<
    (Seq<TagView>, Seq<Pending>),
    Error,
>
    decreases k,
{
    if k == 0 {
        Ok((Seq::empty(), Seq::empty()))
    } else {
        match first_pass(s, order, start, (k - 1) as nat) {
            Err(e) => Err(e),
            Ok((tags, pending)) => match entry_at(s, order, start + 12 * (k - 1)) {
                Err(e) => Err(e),
                Ok(EntryView::Inline(t)) => Ok((tags.push(t), pending)),
                Ok(EntryView::Deferred(p)) => Ok((tags, insert_by_offset(pending, p))),
            },
        }
    }
}

/// The entries once every value of `pending` has been read in turn, with the
/// read position at `cursor`. A value that starts before the position is an
/// overrun; one that ends beyond the bytes meets their end.
pub open spec fn second_pass(
    s: Seq<u8>,
    order: ByteOrder,
    cursor: int,
    pending: Seq<Pending>,
    tags: Seq<TagView>,
) -> Result<Seq<TagView>, Error>
    decreases pending.len(),
{
    if pending.len() == 0 {
        Ok(tags)
    } else {
        let p = pending[0];
        if p.offset < cursor {
            Err(Error::InvalidFormat(Malformed::Overrun))
        } else if p.end() > s.len() {
            Err(Error::UnexpectedEof)
        } else {
            second_pass(s, order, p.end(), pending.drop_first(), tags.push(p.resolve(s, order)))
        }
    }
}

/// The entries of the directory that starts at `start`: a count of two
/// bytes, the entries, four bytes that are read and not followed, then the
/// out-of-line values.
pub open spec fn directory(s: Seq<u8>, order: ByteOrder, start: int) -> Result<
    Seq<TagView>,
    Error,
> {
    match u16_read(order, s, start) {
        Err(e) => Err(e),
        Ok(count) => match first_pass(s, order, start + 2, count as nat) {
            Err(e) => Err(e),
            Ok((tags, pending)) => {
                let end = start + 2 + 12 * count;
                match u32_read(order, s, end) {
                    Err(e) => Err(e),
                    Ok(_) => second_pass(s, order, end + 4, pending, tags),
                }
            },
        }
    }
}

/// The views of a vector of entries.
pub open spec fn tags_view(tags: Seq<Tag>) -> Seq<TagView> {
    tags.map_values(|t: Tag| t@)
}

/// The view of an entry result.
pub open spec fn entry_result_view(r: Result<Entry, Error>) -> Result<EntryView, Error> {
    match r {
        Ok(e) => Ok(e@),
        Err(e) => Err(e),
    }
}

/// The view of a directory result.
pub open spec fn tags_result_view(r: Result<Vec<Tag>, Error>) -> Result<Seq<TagView>, Error> {
    match r {
        Ok(tags) => Ok(tags_view(tags@)),
        Err(e) => Err(e),
    }
}

proof fn lemma_tags_view_push(tags: Seq<Tag>, t: Tag)
    ensures
        tags_view(tags.push(t)) == tags_view(tags).push(t@),
{
    assert(tags_view(tags.push(t)) =~= tags_view(tags).push(t@));
}

proof fn lemma_insert_split(list: Seq<Pending>, p: Pending, i: int)
    requires
        0 <= i <= list.len(),
        forall|j: int| i <= j < list.len() ==> list[j].offset > p.offset,
    ensures
        insert_by_offset(list, p) == insert_by_offset(list.subrange(0, i), p) + list.subrange(
            i,
            list.len() as int,
        ),
    decreases list.len() - i,
{
    if i == list.len() {
        assert(list.subrange(0, i) =~= list);
        assert(insert_by_offset(list, p) + list.subrange(i, list.len() as int)
            =~= insert_by_offset(list, p));
    } else {
        let shorter = list.drop_last();
        lemma_insert_split(shorter, p, i);
        assert(shorter.subrange(0, i) =~= list.subrange(0, i));
        assert(shorter.subrange(i, shorter.len() as int).push(list.last()) =~= list.subrange(
            i,
            list.len() as int,
        ));
        assert((insert_by_offset(list.subrange(0, i), p) + shorter.subrange(
            i,
            shorter.len() as int,
        )).push(list.last()) =~= insert_by_offset(list.subrange(0, i), p) + list.subrange(
            i,
            list.len() as int,
        ));
    }
}

/// Files `p` into the list, behind every value whose offset is not larger.
pub fn insert_pending(pending: &mut Vec<Pending>, p: Pending)
    ensures
        final(pending)@ == insert_by_offset(old(pending)@, p),
{
    let mut i: usize = pending.len();
    while i > 0 && pending[i - 1].offset > p.offset
        invariant
            i <= pending.len(),
            *pending == *old(pending),
            forall|j: int| i <= j < pending.len() ==> pending[j].offset > p.offset,
        decreases i,
    {
        i -= 1;
    }
    proof {
        let list = pending@;
        lemma_insert_split(list, p, i as int);
        let head = list.subrange(0, i as int);
        if i > 0 {
            assert(head.last() == list[i - 1]);
        }
        assert(insert_by_offset(head, p) == head.push(p));
        assert(list.insert(i as int, p) =~= head.push(p) + list.subrange(
            i as int,
            list.len() as int,
        ));
    }
    pending.insert(i, p);
}

impl Tag {
    /// Reads the entry at `pos`. A value of at most four bytes comes back
    /// inline; a larger one comes back as its offset, still to be read.
    pub fn load(tiff: &[u8], pos: usize, byte_order: ByteOrder) -> (r: Result<Entry, Error>)
        ensures
            entry_result_view(r) == entry_at(tiff@, byte_order, pos as int),
    {
        let len: usize = tiff.len();
        if pos > len || len - pos < 4 {
            return Err(Error::UnexpectedEof);
        }
        let id: u16 = read_u16(byte_order, tiff, pos)?;
        let code: u16 = read_u16(byte_order, tiff, pos + 2)?;
        let datatype = TagDatatype::new(code)?;
        if len - pos < 12 {
            return Err(Error::UnexpectedEof);
        }
        let count: u32 = read_u32(byte_order, tiff, pos + 4)?;
        let unit: u64 = datatype.len() as u64;
        assert(unit * (count as u64) <= 8 * 0xffff_ffff) by (nonlinear_arith)
            requires
                unit <= 8,
                count <= 0xffff_ffff,
        ;
        let data_len: u64 = unit * (count as u64);
        if data_len <= 4 {
            let n: usize = data_len as usize;
            let data = slice_to_vec(slice_subrange(tiff, pos + 8, pos + 8 + n));
            Ok(Entry::Inline(Tag::new(id, datatype, data, byte_order)))
        } else {
            let offset: u32 = read_u32(byte_order, tiff, pos + 8)?;
            Ok(Entry::Deferred(Pending { offset: offset, id: id, datatype: datatype, count: count }))
        }
    }

    /// Decodes the directory that starts at `start`, where offsets count
    /// from the first byte of `tiff`. The inline entries come first, in
    /// directory order, then the out-of-line ones in ascending offset order.
    pub fn load_all(tiff: &[u8], start: usize, byte_order: ByteOrder) -> (r: Result<
        Vec<Tag>,
        Error,
    >)
        ensures
            tags_result_view(r) == directory(tiff@, byte_order, start as int),
    {
        let len: usize = tiff.len();
        let count: u16 = read_u16(byte_order, tiff, start)?;
        let mut tags: Vec<Tag> = Vec::new();
        let mut pending: Vec<Pending> = Vec::new();
        let mut pos: usize = start + 2;
        let mut i: u16 = 0;
        assert(tags_view(tags@) =~= Seq::<TagView>::empty());
        while i < count
            invariant
                i <= count,
                len == tiff@.len(),
                pos == start + 2 + 12 * i,
                pos <= len,
                u16_read(byte_order, tiff@, start as int) == Ok::<u16, Error>(count),
                first_pass(tiff@, byte_order, start + 2, i as nat) == Ok::<
                    (Seq<TagView>, Seq<Pending>),
                    Error,
                >((tags_view(tags@), pending@)),
            decreases count - i,
        {
            let ghost before = tags@;
            match Tag::load(tiff, pos, byte_order) {
                Err(e) => {
                    proof {
                        lemma_first_pass_error(tiff@, byte_order, start + 2, i as nat + 1, count as nat);
                    }
                    return Err(e);
                },
                Ok(Entry::Inline(t)) => {
                    tags.push(t);
                    proof {
                        lemma_tags_view_push(before, t);
                    }
                },
                Ok(Entry::Deferred(p)) => {
                    insert_pending(&mut pending, p);
                },
            }
            pos += 12;
            i += 1;
        }
        let _ = read_u32(byte_order, tiff, pos)?;
        let mut cursor: u64 = (pos + 4) as u64;
        let mut k: usize = 0;
        assert(pending@.subrange(0, pending.len() as int) =~= pending@);
        while k < pending.len()
            invariant
                k <= pending.len(),
                len == tiff@.len(),
                cursor <= len,
                second_pass(
                    tiff@,
                    byte_order,
                    cursor as int,
                    pending@.subrange(k as int, pending.len() as int),
                    tags_view(tags@),
                ) == directory(tiff@, byte_order, start as int),
            decreases pending.len() - k,
        {
            let p: Pending = pending[k];
            let ghost rest = pending@.subrange(k as int, pending.len() as int);
            let ghost before = tags@;
            assert(rest[0] == p);
            assert(rest.drop_first() =~= pending@.subrange(k as int + 1, pending.len() as int));
            if (p.offset as u64) < cursor {
                return Err(Error::InvalidFormat(Malformed::Overrun));
            }
            let unit: u64 = p.datatype.len() as u64;
            assert(unit * (p.count as u64) <= 8 * 0xffff_ffff) by (nonlinear_arith)
                requires
                    unit <= 8,
                    p.count <= 0xffff_ffff,
            ;
            let end: u64 = p.offset as u64 + unit * (p.count as u64);
            if end > len as u64 {
                return Err(Error::UnexpectedEof);
            }
            let data = slice_to_vec(slice_subrange(tiff, p.offset as usize, end as usize));
            let t = Tag::new(p.id, p.datatype, data, byte_order);
            tags.push(t);
            proof {
                lemma_tags_view_push(before, t);
            }
            cursor = end;
            k += 1;
        }
        assert(pending@.subrange(k as int, pending.len() as int) =~= Seq::<Pending>::empty());
        Ok(tags)
    }
}

/// An error among the first `k` entries is the error of any longer prefix.
proof fn lemma_first_pass_error(s: Seq<u8>, order: ByteOrder, start: int, k: nat, n: nat)
    requires
        k <= n,
        first_pass(s, order, start, k) is Err,
    ensures
        first_pass(s, order, start, n) == first_pass(s, order, start, k),
    decreases n - k,
{
    if k < n {
        lemma_first_pass_error(s, order, start, k, (n - 1) as nat);
    }
}

} // verus!
