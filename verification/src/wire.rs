//! Primitive encodings shared by every payload: little-endian integers of a
//! fixed width, variable-length integers, and byte strings that carry their
//! length in front.
//!
//! Every decoder here reads a prefix of its input and reports how many bytes
//! the prefix took, so that the payload formats can be read field by field.
//!
//! The integers themselves are written and read by `darkfi_serial`. What is
//! stated of it holds on little-endian targets, where the `to_le` and
//! `from_le` that it puts around its own byte-order code change nothing.

use vstd::prelude::*;
use vstd::slice::{slice_subrange, slice_to_vec};

verus! {

/// The number that `bytes` spell, least significant byte first.
pub open spec fn le_value(bytes: Seq<u8>) -> nat
    decreases bytes.len(),
{
    if bytes.len() == 0 {
        0
    } else {
        bytes[0] as nat + 256 * le_value(bytes.skip(1))
    }
}

/// The `width` low bytes of `value`, least significant byte first.
pub open spec fn le_bytes(value: nat, width: nat) -> Seq<u8>
    decreases width,
{
    if width == 0 {
        Seq::empty()
    } else {
        seq![(value % 256) as u8] + le_bytes(value / 256, (width - 1) as nat)
    }
}

/// The four bytes that stand for a 32-bit integer.
pub open spec fn u32_bytes(value: u32) -> Seq<u8> {
    le_bytes(value as nat, 4)
}

/// Reads a 32-bit integer from the front of `bytes`: the integer and the
/// number of bytes it took, or `None` where fewer than four bytes are left.
pub open spec fn u32_prefix(bytes: Seq<u8>) -> Option<(u32, nat)> {
    if bytes.len() < 4 {
        None
    } else {
        Some((le_value(bytes.subrange(0, 4)) as u32, 4))
    }
}

/// The bytes that stand for a variable-length integer: one byte up to
/// `0xFC`, else a marker byte and the value in two, four or eight bytes,
/// whichever is the shortest that holds it.
pub open spec fn varint_bytes(value: u64) -> Seq<u8> {
    if value <= 0xFC {
        seq![value as u8]
    } else if value <= 0xFFFF {
        seq![0xFDu8] + le_bytes(value as nat, 2)
    } else if value <= 0xFFFF_FFFF {
        seq![0xFEu8] + le_bytes(value as nat, 4)
    } else {
        seq![0xFFu8] + le_bytes(value as nat, 8)
    }
}

/// Reads a variable-length integer from the front of `bytes`: the integer
/// and the number of bytes it took. `None` where the input ends early or the
/// value is not written in its shortest form.
pub open spec fn varint_prefix(bytes: Seq<u8>) -> Option<(u64, nat)> {
    if bytes.len() == 0 {
        None
    } else if bytes[0] == 0xFF {
        if bytes.len() < 9 || le_value(bytes.subrange(1, 9)) < 0x1_0000_0000 {
            None
        } else {
            Some((le_value(bytes.subrange(1, 9)) as u64, 9))
        }
    } else if bytes[0] == 0xFE {
        if bytes.len() < 5 || le_value(bytes.subrange(1, 5)) < 0x1_0000 {
            None
        } else {
            Some((le_value(bytes.subrange(1, 5)) as u64, 5))
        }
    } else if bytes[0] == 0xFD {
        if bytes.len() < 3 || le_value(bytes.subrange(1, 3)) < 0xFD {
            None
        } else {
            Some((le_value(bytes.subrange(1, 3)) as u64, 3))
        }
    } else {
        Some((bytes[0] as u64, 1))
    }
}

/// The bytes that stand for a byte string: its length as a variable-length
/// integer, then the bytes themselves.
pub open spec fn byte_string_bytes(data: Seq<u8>) -> Seq<u8>
    recommends
        data.len() <= u64::MAX,
{
    varint_bytes(data.len() as u64) + data
}

/// Reads a length-prefixed byte string from the front of `bytes`: the string
/// and the number of bytes it took with its prefix. `None` where the prefix
/// does not decode or promises more bytes than are left.
pub open spec fn byte_string_prefix(bytes: Seq<u8>) -> Option<(Seq<u8>, nat)> {
    match varint_prefix(bytes) {
        None => None,
        Some((len, taken)) => if bytes.len() - taken < len {
            None
        } else {
            Some((bytes.subrange(taken as int, taken + len), (taken + len) as nat))
        },
    }
}

/// The bytes of `items` one after another, each written by `item_bytes`.
pub open spec fn items_bytes<T>(item_bytes: spec_fn(T) -> Seq<u8>, items: Seq<T>) -> Seq<u8>
    decreases items.len(),
{
    if items.len() == 0 {
        Seq::empty()
    } else {
        item_bytes(items[0]) + items_bytes(item_bytes, items.skip(1))
    }
}

/// Reads `count` items from the front of `bytes`, each with `item_prefix`:
/// the items and the number of bytes they took together. `None` as soon as
/// one item cannot be read.
pub open spec fn items_prefix<T>(
    item_prefix: spec_fn(Seq<u8>) -> Option<(T, nat)>,
    bytes: Seq<u8>,
    count: nat,
) -> Option<(Seq<T>, nat)>
    decreases count,
{
    if count == 0 {
        Some((Seq::empty(), 0nat))
    } else {
        match item_prefix(bytes) {
            None => None,
            Some((item, taken)) => match items_prefix(
                item_prefix,
                bytes.skip(taken as int),
                (count - 1) as nat,
            ) {
                None => None,
                Some((more, taken_more)) => Some((seq![item] + more, taken + taken_more)),
            },
        }
    }
}

/// What reading a run of items gives, put together from the items read so
/// far, the bytes they took, and what reading the rest gives.
pub open spec fn resumed<T>(so_far: Seq<T>, taken: nat, left: Option<(Seq<T>, nat)>) -> Option<
    (Seq<T>, nat),
> {
    match left {
        None => None,
        Some((more, taken_more)) => Some((so_far + more, taken + taken_more)),
    }
}

/// Reading a run of items can stop after the first and go on behind it.
pub proof fn lemma_items_prefix_step<T>(
    item_prefix: spec_fn(Seq<u8>) -> Option<(T, nat)>,
    so_far: Seq<T>,
    taken: nat,
    bytes: Seq<u8>,
    count: nat,
)
    requires
        count > 0,
    ensures
        resumed(so_far, taken, items_prefix(item_prefix, bytes, count)) == match item_prefix(
            bytes,
        ) {
            None => None,
            Some((item, step)) => resumed(
                so_far.push(item),
                taken + step,
                items_prefix(item_prefix, bytes.skip(step as int), (count - 1) as nat),
            ),
        },
{
    if let Some((item, step)) = item_prefix(bytes) {
        if let Some((more, _)) = items_prefix(
            item_prefix,
            bytes.skip(step as int),
            (count - 1) as nat,
        ) {
            assert(so_far + (seq![item] + more) =~= so_far.push(item) + more);
        }
    }
}

/// The bytes of a run of items grow at the end as the run does.
pub proof fn lemma_items_bytes_push<T>(item_bytes: spec_fn(T) -> Seq<u8>, items: Seq<T>, last: T)
    ensures
        items_bytes(item_bytes, items.push(last)) == items_bytes(item_bytes, items) + item_bytes(
            last,
        ),
    decreases items.len(),
{
    let longer = items.push(last);
    assert(items_bytes(item_bytes, longer) == item_bytes(longer[0]) + items_bytes(
        item_bytes,
        longer.skip(1),
    ));
    if items.len() == 0 {
        assert(longer.skip(1) =~= Seq::<T>::empty());
        assert(items_bytes(item_bytes, longer.skip(1)) =~= Seq::<u8>::empty());
        assert(items_bytes(item_bytes, longer) =~= items_bytes(item_bytes, items) + item_bytes(
            last,
        ));
    } else {
        lemma_items_bytes_push(item_bytes, items.skip(1), last);
        assert(longer.skip(1) =~= items.skip(1).push(last));
        assert(longer[0] == items[0]);
        assert(items_bytes(item_bytes, longer) =~= items_bytes(item_bytes, items) + item_bytes(
            last,
        ));
    }
}

/// A run of items is read back from its bytes, whatever follows, where each
/// of the items is.
pub proof fn lemma_items_round_trip<T>(
    item_bytes: spec_fn(T) -> Seq<u8>,
    item_prefix: spec_fn(Seq<u8>) -> Option<(T, nat)>,
    items: Seq<T>,
    rest: Seq<u8>,
)
    requires
        forall|i: int, after: Seq<u8>|
            0 <= i < items.len() ==> #[trigger] item_prefix(item_bytes(items[i]) + after) == Some(
                (items[i], item_bytes(items[i]).len()),
            ),
    ensures
        items_prefix(item_prefix, items_bytes(item_bytes, items) + rest, items.len()) == Some(
            (items, items_bytes(item_bytes, items).len()),
        ),
    decreases items.len(),
{
    if items.len() == 0 {
        assert(items_bytes(item_bytes, items) =~= Seq::<u8>::empty());
    } else {
        let first = item_bytes(items[0]);
        let later = items_bytes(item_bytes, items.skip(1));
        let all = items_bytes(item_bytes, items) + rest;
        assert(all =~= first + (later + rest));
        assert(item_prefix(first + (later + rest)) == Some((items[0], first.len())));
        assert(all.skip(first.len() as int) =~= later + rest);
        assert forall|i: int, after: Seq<u8>| 0 <= i < items.skip(1).len() implies #[trigger] item_prefix(
            item_bytes(items.skip(1)[i]) + after,
        ) == Some((items.skip(1)[i], item_bytes(items.skip(1)[i]).len())) by {
            assert(items.skip(1)[i] == items[i + 1]);
        }
        lemma_items_round_trip(item_bytes, item_prefix, items.skip(1), rest);
        assert(seq![items[0]] + items.skip(1) =~= items);
    }
}

/// 256 to the power `width`: how many values `width` bytes can spell.
pub open spec fn byte_range(width: nat) -> nat
    decreases width,
{
    if width == 0 {
        1
    } else {
        256 * byte_range((width - 1) as nat)
    }
}

/// `le_bytes` yields exactly `width` bytes.
pub proof fn lemma_le_bytes_len(value: nat, width: nat)
    ensures
        le_bytes(value, width).len() == width,
    decreases width,
{
    if width > 0 {
        lemma_le_bytes_len(value / 256, (width - 1) as nat);
    }
}

/// A value that fits `width` bytes is read back from them, whatever follows.
pub proof fn lemma_le_value_of_bytes(value: nat, width: nat)
    requires
        value < byte_range(width),
    ensures
        le_value(le_bytes(value, width)) == value,
    decreases width,
{
    if width > 0 {
        let tail = le_bytes(value / 256, (width - 1) as nat);
        lemma_le_value_of_bytes(value / 256, (width - 1) as nat);
        assert(le_bytes(value, width).skip(1) =~= tail);
    }
}

/// What `width` bytes spell fits in `width` bytes.
pub proof fn lemma_le_value_bound(bytes: Seq<u8>)
    ensures
        le_value(bytes) < byte_range(bytes.len()),
    decreases bytes.len(),
{
    if bytes.len() > 0 {
        lemma_le_value_bound(bytes.skip(1));
    }
}

/// Bytes are written back from the number they spell.
pub proof fn lemma_le_bytes_of_value(bytes: Seq<u8>)
    ensures
        le_bytes(le_value(bytes), bytes.len()) == bytes,
    decreases bytes.len(),
{
    if bytes.len() > 0 {
        lemma_le_bytes_of_value(bytes.skip(1));
        assert(le_bytes(le_value(bytes), bytes.len()) =~= bytes);
    }
}

/// The ranges of the widths the formats use.
pub proof fn lemma_byte_ranges()
    ensures
        byte_range(1) == 0x100,
        byte_range(2) == 0x1_0000,
        byte_range(4) == 0x1_0000_0000,
        byte_range(8) == 0x1_0000_0000_0000_0000,
{
    reveal_with_fuel(byte_range, 9);
}

/// A 32-bit integer is read back from its four bytes, whatever follows.
pub proof fn lemma_u32_round_trip(value: u32, rest: Seq<u8>)
    ensures
        u32_bytes(value).len() == 4,
        u32_prefix(u32_bytes(value) + rest) == Some((value, 4nat)),
{
    lemma_byte_ranges();
    lemma_le_bytes_len(value as nat, 4);
    lemma_le_value_of_bytes(value as nat, 4);
    assert((u32_bytes(value) + rest).subrange(0, 4) =~= u32_bytes(value));
}

/// A variable-length integer is read back from its bytes, whatever follows.
pub proof fn lemma_varint_round_trip(value: u64, rest: Seq<u8>)
    ensures
        1 <= varint_bytes(value).len() <= 9,
        varint_prefix(varint_bytes(value) + rest) == Some(
            (value, varint_bytes(value).len()),
        ),
{
    lemma_byte_ranges();
    let enc = varint_bytes(value);
    let all = enc + rest;
    if value <= 0xFC {
        assert(all[0] == value as u8);
    } else if value <= 0xFFFF {
        lemma_le_bytes_len(value as nat, 2);
        lemma_le_value_of_bytes(value as nat, 2);
        assert(all[0] == 0xFD);
        assert(all.subrange(1, 3) =~= le_bytes(value as nat, 2));
    } else if value <= 0xFFFF_FFFF {
        lemma_le_bytes_len(value as nat, 4);
        lemma_le_value_of_bytes(value as nat, 4);
        assert(all[0] == 0xFE);
        assert(all.subrange(1, 5) =~= le_bytes(value as nat, 4));
    } else {
        lemma_le_bytes_len(value as nat, 8);
        lemma_le_value_of_bytes(value as nat, 8);
        assert(all[0] == 0xFF);
        assert(all.subrange(1, 9) =~= le_bytes(value as nat, 8));
    }
}

/// A byte string is read back from its encoding, whatever follows.
pub proof fn lemma_byte_string_round_trip(data: Seq<u8>, rest: Seq<u8>)
    requires
        data.len() <= u64::MAX,
    ensures
        byte_string_prefix(byte_string_bytes(data) + rest) == Some(
            (data, byte_string_bytes(data).len()),
        ),
{
    let head = varint_bytes(data.len() as u64);
    let all = byte_string_bytes(data) + rest;
    lemma_varint_round_trip(data.len() as u64, data + rest);
    assert(all =~= head + (data + rest));
    assert(all.subrange(head.len() as int, (head.len() + data.len()) as int) =~= data);
}

/// Only the bytes of a 32-bit integer are read as that integer.
pub proof fn lemma_u32_bytes_unique(bytes: Seq<u8>)
    requires
        u32_prefix(bytes) is Some,
    ensures
        u32_prefix(bytes) matches Some((value, taken)) && taken <= bytes.len() && u32_bytes(value)
            == bytes.subrange(0, taken as int),
{
    lemma_byte_ranges();
    lemma_le_value_bound(bytes.subrange(0, 4));
    lemma_le_bytes_of_value(bytes.subrange(0, 4));
}

/// Only the bytes of a variable-length integer are read as that integer.
pub proof fn lemma_varint_bytes_unique(bytes: Seq<u8>)
    requires
        varint_prefix(bytes) is Some,
    ensures
        varint_prefix(bytes) matches Some((value, taken)) && taken <= bytes.len() && varint_bytes(
            value,
        ) == bytes.subrange(0, taken as int),
{
    lemma_byte_ranges();
    if bytes[0] == 0xFF {
        let tail = bytes.subrange(1, 9);
        lemma_le_value_bound(tail);
        lemma_le_bytes_of_value(tail);
        assert(seq![0xFFu8] + tail =~= bytes.subrange(0, 9));
    } else if bytes[0] == 0xFE {
        let tail = bytes.subrange(1, 5);
        lemma_le_value_bound(tail);
        lemma_le_bytes_of_value(tail);
        assert(seq![0xFEu8] + tail =~= bytes.subrange(0, 5));
    } else if bytes[0] == 0xFD {
        let tail = bytes.subrange(1, 3);
        lemma_le_value_bound(tail);
        lemma_le_bytes_of_value(tail);
        assert(seq![0xFDu8] + tail =~= bytes.subrange(0, 3));
    } else {
        assert(seq![bytes[0]] =~= bytes.subrange(0, 1));
    }
}

/// Only the bytes of a byte string are read as that byte string.
pub proof fn lemma_byte_string_bytes_unique(bytes: Seq<u8>)
    requires
        byte_string_prefix(bytes) is Some,
    ensures
        byte_string_prefix(bytes) matches Some((data, taken)) && taken <= bytes.len()
            && data.len() <= u64::MAX && byte_string_bytes(data) == bytes.subrange(
            0,
            taken as int,
        ),
{
    lemma_varint_bytes_unique(bytes);
    let (data, taken) = byte_string_prefix(bytes)->0;
    let (len, head) = varint_prefix(bytes)->0;
    assert(bytes.subrange(0, head as int) + data =~= bytes.subrange(0, taken as int));
}

/// Only the bytes of a run of items are read as that run, where the same
/// holds of each item.
pub proof fn lemma_items_bytes_unique<T>(
    item_bytes: spec_fn(T) -> Seq<u8>,
    item_prefix: spec_fn(Seq<u8>) -> Option<(T, nat)>,
    bytes: Seq<u8>,
    count: nat,
)
    requires
        forall|input: Seq<u8>|
            (#[trigger] item_prefix(input)) matches Some((item, taken)) ==> taken <= input.len()
                && item_bytes(item) == input.subrange(0, taken as int),
        items_prefix(item_prefix, bytes, count) is Some,
    ensures
        items_prefix(item_prefix, bytes, count) matches Some((items, taken)) && items.len()
            == count && taken <= bytes.len() && items_bytes(item_bytes, items) == bytes.subrange(
            0,
            taken as int,
        ),
    decreases count,
{
    if count == 0 {
        assert(items_bytes(item_bytes, Seq::<T>::empty()) =~= bytes.subrange(0, 0));
    } else {
        let (item, step) = item_prefix(bytes)->0;
        let rest = bytes.skip(step as int);
        lemma_items_bytes_unique(item_bytes, item_prefix, rest, (count - 1) as nat);
        let (more, taken_more) = items_prefix(item_prefix, rest, (count - 1) as nat)->0;
        let items = seq![item] + more;
        assert(items.skip(1) =~= more);
        assert(items[0] == item);
        assert(items_bytes(item_bytes, items) == item_bytes(item) + items_bytes(item_bytes, more));
        assert(bytes.subrange(0, step as int) + rest.subrange(0, taken_more as int)
            =~= bytes.subrange(0, (step + taken_more) as int));
    }
}

/// Calls `darkfi_serial::serialize` on a `u32`. The crate writes the value
/// as four bytes, least significant first; the contract says exactly that
/// (for a little-endian target, see the head of this file).
#[verifier::external_body]
fn encode_u32(value: u32) -> (out: Vec<u8>)
    ensures
        out@ == u32_bytes(value),
{
    darkfi_serial::serialize(&value)
}

/// Calls `darkfi_serial::deserialize_partial` for a `u32`. The crate reads
/// four bytes, fails where fewer are left, and takes them as a number with
/// the least significant byte first; the contract says exactly that, with
/// the count of bytes read (for a little-endian target, see the head of
/// this file).
#[verifier::external_body]
fn decode_u32(data: &[u8]) -> (r: Option<(u32, usize)>)
    ensures
        r == match u32_prefix(data@) {
            Some((value, taken)) => Some((value, taken as usize)),
            None => None,
        },
{
    match darkfi_serial::deserialize_partial::<u32>(data) {
        Ok((value, taken)) => Some((value, taken)),
        Err(_) => None,
    }
}

/// Calls `darkfi_serial::serialize` on a `darkfi_serial::VarInt`. The crate
/// writes one byte for a value up to `0xFC`, else a marker (`0xFD`, `0xFE`,
/// `0xFF`) and the value in two, four or eight bytes, least significant
/// first; the contract says exactly that (for a little-endian target, see
/// the head of this file).
#[verifier::external_body]
fn encode_varint(value: u64) -> (out: Vec<u8>)
    ensures
        out@ == varint_bytes(value),
{
    darkfi_serial::serialize(&darkfi_serial::VarInt(value))
}

/// Calls `darkfi_serial::deserialize_partial` for a `darkfi_serial::VarInt`.
/// The crate reads the first byte, then the two, four or eight bytes a
/// marker announces, and fails where the input ends early or the value
/// would have fitted a shorter form; the contract says exactly that, with
/// the count of bytes read.
#[verifier::external_body]
fn decode_varint(data: &[u8]) -> (r: Option<(u64, usize)>)
    ensures
        r == match varint_prefix(data@) {
            Some((value, taken)) => Some((value, taken as usize)),
            None => None,
        },
{
    match darkfi_serial::deserialize_partial::<darkfi_serial::VarInt>(data) {
        Ok((value, taken)) => Some((value.0, taken)),
        Err(_) => None,
    }
}

/// Reads a 32-bit integer at `pos`: the integer and the position behind it.
pub(crate) fn read_u32(bytes: &[u8], pos: usize) -> (r: Option<(u32, usize)>)
    requires
        pos <= bytes@.len(),
    ensures
        match u32_prefix(bytes@.skip(pos as int)) {
            Some((value, taken)) => r matches Some((got, next)) && got == value && next == pos
                + taken,
            None => r is None,
        },
        r matches Some((_, next)) ==> pos < next <= bytes@.len(),
{
    let rest = slice_subrange(bytes, pos, bytes.len());
    assert(rest@ =~= bytes@.skip(pos as int));
    match decode_u32(rest) {
        Some((value, taken)) => Some((value, pos + taken)),
        None => None,
    }
}

/// Reads a variable-length integer at `pos`: the integer and the position
/// behind it.
pub(crate) fn read_varint(bytes: &[u8], pos: usize) -> (r: Option<(u64, usize)>)
    requires
        pos <= bytes@.len(),
    ensures
        match varint_prefix(bytes@.skip(pos as int)) {
            Some((value, taken)) => r matches Some((got, next)) && got == value && next == pos
                + taken,
            None => r is None,
        },
        r matches Some((_, next)) ==> pos < next <= bytes@.len(),
{
    let rest = slice_subrange(bytes, pos, bytes.len());
    assert(rest@ =~= bytes@.skip(pos as int));
    match decode_varint(rest) {
        Some((value, taken)) => Some((value, pos + taken)),
        None => None,
    }
}

/// Reads a length-prefixed byte string at `pos`: the string and the position
/// behind it.
pub(crate) fn read_byte_string(bytes: &[u8], pos: usize) -> (r: Option<(Vec<u8>, usize)>)
    requires
        pos <= bytes@.len(),
    ensures
        match byte_string_prefix(bytes@.skip(pos as int)) {
            Some((data, taken)) => r matches Some((got, next)) && got@ == data && next == pos
                + taken,
            None => r is None,
        },
        r matches Some((_, next)) ==> pos < next <= bytes@.len(),
{
    let ghost rest = bytes@.skip(pos as int);
    match read_varint(bytes, pos) {
        None => None,
        Some((len, start)) => {
            if len > (bytes.len() - start) as u64 {
                None
            } else {
                let end = start + len as usize;
                let data = slice_to_vec(slice_subrange(bytes, start, end));
                assert(data@ =~= rest.subrange(start - pos, start - pos + len));
                Some((data, end))
            }
        },
    }
}

/// Appends `data` as it stands.
pub(crate) fn write_bytes(out: &mut Vec<u8>, data: &[u8])
    ensures
        final(out)@ == old(out)@ + data@,
{
    let mut copy = slice_to_vec(data);
    out.append(&mut copy);
}

/// Appends the four bytes of a 32-bit integer.
pub(crate) fn write_u32(out: &mut Vec<u8>, value: u32)
    ensures
        final(out)@ == old(out)@ + u32_bytes(value),
{
    let mut enc = encode_u32(value);
    out.append(&mut enc);
}

/// Appends a variable-length integer.
pub(crate) fn write_varint(out: &mut Vec<u8>, value: u64)
    ensures
        final(out)@ == old(out)@ + varint_bytes(value),
{
    let mut enc = encode_varint(value);
    out.append(&mut enc);
}

/// Appends a byte string with its length in front.
pub(crate) fn write_byte_string(out: &mut Vec<u8>, data: &[u8])
    ensures
        final(out)@ == old(out)@ + byte_string_bytes(data@),
{
    write_varint(out, data.len() as u64);
    write_bytes(out, data);
    assert(out@ =~= old(out)@ + byte_string_bytes(data@));
}

} // verus!
