//! Facts that hold of every input, proved from the definitions of the
//! decoder's spec functions.

use vstd::prelude::*;
use crate::endian::{u16_at, u32_at, ByteOrder};
use crate::error::{Error, Malformed};
use crate::ifd::{
    ascending, directory, entry_at, first_pass, insert_by_offset, second_pass, EntryView, Pending,
};
use crate::metadata::{
    decode, frame_dimensions, frame_rest, payload_len, scan, sound_exif, Dimensions,
    ExifFieldsView, MetadataView, APP1, FRAME_HEAD_LEN, MARKER_PREFIX,
};
use crate::tag::{TagDatatype, TagView};

verus! {

proof fn lemma_scan_without_prefix(
    s: Seq<u8>,
    pos: int,
    dimensions: Option<Dimensions>,
    exif: ExifFieldsView,
)
    requires
        0 <= pos,
        forall|i: int| pos <= i < s.len() ==> s[i] != MARKER_PREFIX,
    ensures
        scan(s, pos, dimensions, exif) == Err::<MetadataView, Error>(
            Error::UnexpectedEof,
        ),
    decreases s.len() - pos,
{
    if pos < s.len() {
        lemma_scan_without_prefix(s, pos + 1, dimensions, exif);
    }
}

/// A stream that holds no marker prefix ends the decode with
/// `UnexpectedEof`: the search for a marker meets the end of the bytes.
pub proof fn lemma_no_marker_is_eof(s: Seq<u8>)
    requires
        forall|i: int| 0 <= i < s.len() ==> s[i] != MARKER_PREFIX,
    ensures
        decode(s) == Err::<MetadataView, Error>(Error::UnexpectedEof),
{
    lemma_scan_without_prefix(s, 0, None, ExifFieldsView::empty());
}

proof fn lemma_scan_errors(
    s: Seq<u8>,
    pos: int,
    dimensions: Option<Dimensions>,
    exif: ExifFieldsView,
)
    ensures
        scan(s, pos, dimensions, exif) matches Err(e) ==> e == Error::UnexpectedEof || e
            == Error::MissingDimensions,
    decreases s.len() - pos,
{
    if 0 <= pos < s.len() {
        if s[pos] != MARKER_PREFIX {
            lemma_scan_errors(s, pos + 1, dimensions, exif);
        } else if pos + 2 <= s.len() {
            lemma_scan_errors(s, pos + 2, dimensions, exif);
            if pos + 4 <= s.len() {
                let size = payload_len(u16_at(ByteOrder::BigEndian, s, pos + 2));
                let body = pos + 4;
                let next = body + FRAME_HEAD_LEN + frame_rest(size);
                if next <= s.len() {
                    lemma_scan_errors(s, next, Some(frame_dimensions(s, body)), exif);
                }
                if body + size <= s.len() {
                    lemma_scan_errors(s, body + size, dimensions, exif);
                    lemma_scan_errors(
                        s,
                        body + size,
                        dimensions,
                        exif.after_app1(s.subrange(body, body + size)),
                    );
                }
            }
        }
    }
}

/// A decode fails only for want of bytes or of dimensions. Nothing that is
/// wrong inside an Exif block ends it.
pub proof fn lemma_decode_errors(s: Seq<u8>)
    ensures
        decode(s) matches Err(e) ==> e == Error::UnexpectedEof || e == Error::MissingDimensions,
{
    lemma_scan_errors(s, 0, None, ExifFieldsView::empty());
}

/// An APP1 segment whose payload is no sound Exif block is passed over,
/// whether its structure is broken or one of its known entries does not
/// read: the scan goes on behind it with the dimensions and fields it had.
pub proof fn lemma_unsound_exif_is_passed_over(
    s: Seq<u8>,
    pos: int,
    dimensions: Option<Dimensions>,
    exif: ExifFieldsView,
)
    requires
        0 <= pos,
        pos + 4 <= s.len(),
        s[pos] == MARKER_PREFIX,
        s[pos + 1] == APP1,
        pos + 4 + payload_len(u16_at(ByteOrder::BigEndian, s, pos + 2)) <= s.len(),
        !sound_exif(
            s.subrange(pos + 4, pos + 4 + payload_len(u16_at(ByteOrder::BigEndian, s, pos + 2))),
        ),
    ensures
        scan(s, pos, dimensions, exif) == scan(
            s,
            pos + 4 + payload_len(u16_at(ByteOrder::BigEndian, s, pos + 2)),
            dimensions,
            exif,
        ),
{
}

/// The read position when the second pass comes to the value at index `k`:
/// the start position for the first value, the end of the value before it
/// for every other.
pub open spec fn position_before(cursor: int, pending: Seq<Pending>, k: int) -> int {
    if k <= 0 {
        cursor
    } else {
        pending[k - 1].end()
    }
}

/// The second pass reads the first `k` values without a failure: each starts
/// at or behind the read position and ends within the bytes.
pub open spec fn reads_first(s: Seq<u8>, cursor: int, pending: Seq<Pending>, k: int) -> bool {
    forall|j: int|
        0 <= j < k ==> position_before(cursor, pending, j) <= (#[trigger] pending[j]).offset
            && pending[j].end() <= s.len()
}

/// The entries that the values of `pending` make, in the same order.
pub open spec fn resolved(s: Seq<u8>, order: ByteOrder, pending: Seq<Pending>) -> Seq<TagView> {
    pending.map_values(|p: Pending| p.resolve(s, order))
}

proof fn lemma_reads_first_step(s: Seq<u8>, cursor: int, pending: Seq<Pending>, k: int)
    requires
        1 <= k <= pending.len(),
    ensures
        reads_first(s, cursor, pending, k) <==> cursor <= pending[0].offset && pending[0].end()
            <= s.len() && reads_first(s, pending[0].end(), pending.drop_first(), k - 1),
{
    let first = pending[0];
    let rest = pending.drop_first();
    if reads_first(s, cursor, pending, k) {
        assert(position_before(cursor, pending, 0) <= first.offset && first.end() <= s.len());
        assert forall|j: int| 0 <= j < k - 1 implies position_before(first.end(), rest, j) <= (
        #[trigger] rest[j]).offset && rest[j].end() <= s.len() by {
            assert(rest[j] == pending[j + 1]);
            if j > 0 {
                assert(rest[j - 1] == pending[j]);
            }
        }
    }
    if cursor <= first.offset && first.end() <= s.len() && reads_first(
        s,
        first.end(),
        rest,
        k - 1,
    ) {
        assert forall|j: int| 0 <= j < k implies position_before(cursor, pending, j) <= (
        #[trigger] pending[j]).offset && pending[j].end() <= s.len() by {
            if j > 0 {
                assert(rest[j - 1] == pending[j]);
                if j > 1 {
                    assert(rest[j - 2] == pending[j - 1]);
                }
            }
        }
    }
}

/// The second pass succeeds exactly when every value starts at or behind
/// the end of the value before it, the first at or behind the start
/// position, and ends within the bytes. It then appends the values in
/// their order to the entries it was given.
pub proof fn lemma_second_pass_outcome(
    s: Seq<u8>,
    order: ByteOrder,
    cursor: int,
    pending: Seq<Pending>,
    tags: Seq<TagView>,
)
    ensures
        second_pass(s, order, cursor, pending, tags) is Ok <==> reads_first(
            s,
            cursor,
            pending,
            pending.len() as int,
        ),
        second_pass(s, order, cursor, pending, tags) is Ok ==> second_pass(
            s,
            order,
            cursor,
            pending,
            tags,
        ) == Ok::<Seq<TagView>, Error>(tags + resolved(s, order, pending)),
    decreases pending.len(),
{
    if pending.len() == 0 {
        assert(tags + resolved(s, order, pending) =~= tags);
    } else {
        let first = pending[0];
        let rest = pending.drop_first();
        let grown = tags.push(first.resolve(s, order));
        lemma_reads_first_step(s, cursor, pending, pending.len() as int);
        lemma_second_pass_outcome(s, order, first.end(), rest, grown);
        assert(grown + resolved(s, order, rest) =~= tags + resolved(s, order, pending));
    }
}

/// An out-of-line value whose offset lies before the read position is an
/// overrun, wherever in the pass it is met.
pub proof fn lemma_backward_offset_is_overrun(
    s: Seq<u8>,
    order: ByteOrder,
    cursor: int,
    pending: Seq<Pending>,
    tags: Seq<TagView>,
    k: int,
)
    requires
        0 <= k < pending.len(),
        reads_first(s, cursor, pending, k),
        pending[k].offset < position_before(cursor, pending, k),
    ensures
        second_pass(s, order, cursor, pending, tags) == Err::<Seq<TagView>, Error>(
            Error::InvalidFormat(Malformed::Overrun),
        ),
    decreases k,
{
    if k > 0 {
        let first = pending[0];
        let rest = pending.drop_first();
        lemma_reads_first_step(s, cursor, pending, k);
        assert(rest[k - 1] == pending[k]);
        if k - 1 > 0 {
            assert(rest[k - 2] == pending[k - 1]);
        }
        lemma_backward_offset_is_overrun(
            s,
            order,
            first.end(),
            rest,
            tags.push(first.resolve(s, order)),
            k - 1,
        );
    }
}

/// A directory whose first pass succeeds, and which holds an out-of-line
/// value that starts before the read position the second pass has reached,
/// is malformed by overrun. The read position starts behind the four bytes
/// that close the directory.
pub proof fn lemma_directory_overrun(
    s: Seq<u8>,
    order: ByteOrder,
    start: int,
    tags: Seq<TagView>,
    pending: Seq<Pending>,
    k: int,
)
    requires
        0 <= start,
        start + 2 <= s.len(),
        first_pass(s, order, start + 2, u16_at(order, s, start) as nat) == Ok::<
            (Seq<TagView>, Seq<Pending>),
            Error,
        >((tags, pending)),
        start + 2 + 12 * u16_at(order, s, start) + 4 <= s.len(),
        0 <= k < pending.len(),
        reads_first(s, start + 2 + 12 * u16_at(order, s, start) + 4, pending, k),
        pending[k].offset < position_before(
            start + 2 + 12 * u16_at(order, s, start) + 4,
            pending,
            k,
        ),
    ensures
        directory(s, order, start) == Err::<Seq<TagView>, Error>(
            Error::InvalidFormat(Malformed::Overrun),
        ),
{
    lemma_backward_offset_is_overrun(
        s,
        order,
        start + 2 + 12 * u16_at(order, s, start) + 4,
        pending,
        tags,
        k,
    );
}

/// Filing a value keeps ascending offsets ascending, and adds the value to
/// what the list holds and nothing else.
pub proof fn lemma_insert_by_offset(list: Seq<Pending>, p: Pending)
    requires
        ascending(list),
    ensures
        ascending(insert_by_offset(list, p)),
        insert_by_offset(list, p).len() == list.len() + 1,
        insert_by_offset(list, p).to_multiset() == list.to_multiset().insert(p),
    decreases list.len(),
{
    broadcast use vstd::seq_lib::group_to_multiset_ensures;

    if list.len() == 0 {
        assert(list =~= Seq::<Pending>::empty());
        assert(insert_by_offset(list, p) =~= Seq::<Pending>::empty().push(p));
    } else if list.last().offset <= p.offset {
    } else {
        let shorter = list.drop_last();
        let last = list.last();
        assert(ascending(shorter));
        lemma_insert_by_offset(shorter, p);
        let filed = insert_by_offset(shorter, p);
        assert(list =~= shorter.push(last));
        assert(filed.to_multiset().insert(last) =~= list.to_multiset().insert(p));
        assert forall|i: int| 0 <= i < filed.len() implies filed[i].offset <= last.offset by {
            assert(filed.to_multiset().contains(filed[i]));
            if filed[i] != p {
                assert(shorter.to_multiset().contains(filed[i]));
                assert(shorter.contains(filed[i]));
                let j = choose|j: int| 0 <= j < shorter.len() && shorter[j] == filed[i];
                assert(list[j] == filed[i]);
            }
        }
    }
}

/// After the first pass the out-of-line values stand in ascending offset
/// order, and every inline entry holds a whole number of units.
pub proof fn lemma_first_pass_shape(s: Seq<u8>, order: ByteOrder, start: int, k: nat)
    requires
        0 <= start,
    ensures
        first_pass(s, order, start, k) matches Ok((tags, pending)) ==> ascending(pending)
            && tags.len() + pending.len() == k && forall|i: int|
            0 <= i < tags.len() ==> (#[trigger] tags[i]).wf(),
    decreases k,
{
    if k > 0 {
        lemma_first_pass_shape(s, order, start, (k - 1) as nat);
        if let Ok((tags, pending)) = first_pass(s, order, start, (k - 1) as nat) {
            match entry_at(s, order, start + 12 * (k - 1)) {
                Ok(EntryView::Inline(t)) => {
                    let count = u32_at(order, s, start + 12 * (k - 1) + 4);
                    lemma_unit_divides(t.datatype, count as nat);
                },
                Ok(EntryView::Deferred(p)) => {
                    lemma_insert_by_offset(pending, p);
                },
                Err(_) => {},
            }
        }
    }
}

proof fn lemma_unit_divides(datatype: TagDatatype, count: nat)
    ensures
        (datatype.unit() * count) % datatype.unit() == 0,
{
    vstd::arithmetic::div_mod::lemma_mod_multiples_basic(count as int, datatype.unit() as int);
    assert(datatype.unit() * count == count * datatype.unit()) by (nonlinear_arith);
}

/// Every entry of a decoded directory holds a whole number of units of its
/// datatype.
pub proof fn lemma_directory_entries_are_whole(s: Seq<u8>, order: ByteOrder, start: int)
    requires
        0 <= start,
    ensures
        directory(s, order, start) matches Ok(tags) ==> forall|i: int|
            0 <= i < tags.len() ==> (#[trigger] tags[i]).wf(),
{
    if let Ok(all) = directory(s, order, start) {
        let count = u16_at(order, s, start);
        lemma_first_pass_shape(s, order, start + 2, count as nat);
        let (tags, pending) = first_pass(s, order, start + 2, count as nat)->Ok_0;
        let cursor = start + 2 + 12 * count + 4;
        lemma_second_pass_outcome(s, order, cursor, pending, tags);
        assert forall|i: int| 0 <= i < all.len() implies (#[trigger] all[i]).wf() by {
            if i >= tags.len() {
                let p = pending[i - tags.len()];
                assert(all[i] == p.resolve(s, order));
                assert(position_before(cursor, pending, i - tags.len()) <= p.offset && p.end()
                    <= s.len());
                assert(all[i].data.len() == p.datatype.unit() * (p.count as nat));
                lemma_unit_divides(p.datatype, p.count as nat);
            } else {
                assert(all[i] == tags[i]);
            }
        }
    }
}

/// The entry of datatype `Short` whose two bytes are `first` and `second`.
pub open spec fn short_entry(id: u16, first: u8, second: u8, order: ByteOrder) -> TagView {
    TagView { id: id, datatype: TagDatatype::Short, data: seq![first, second], byte_order: order }
}

/// The byte order recorded with an entry decides its value: the same two
/// bytes read as a short give different numbers in the two orders, unless
/// the two bytes are equal.
pub proof fn lemma_byte_order_decides_short(id: u16, first: u8, second: u8)
    ensures
        short_entry(id, first, second, ByteOrder::LittleEndian).short() == Ok::<u16, Error>(
            (first + 256 * second) as u16,
        ),
        short_entry(id, first, second, ByteOrder::BigEndian).short() == Ok::<u16, Error>(
            (256 * first + second) as u16,
        ),
        first != second ==> short_entry(id, first, second, ByteOrder::LittleEndian).short()
            != short_entry(id, first, second, ByteOrder::BigEndian).short(),
        short_entry(id, first, second, ByteOrder::LittleEndian).short() == short_entry(
            id,
            second,
            first,
            ByteOrder::BigEndian,
        ).short(),
{
    let data = seq![first, second];
    assert(data.len() == 2 && data[0] == first && data[1] == second);
    let swapped = seq![second, first];
    assert(swapped.len() == 2 && swapped[0] == second && swapped[1] == first);
}

} // verus!
