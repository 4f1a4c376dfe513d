//! The call list of a transaction: the calls in their order and the index of
//! the call that the current invocation concerns.
//!
//! On the wire a call list is the index as a 32-bit integer, the number of
//! calls as a variable-length integer, and the calls one after another. Each
//! call is one length-prefixed byte string: the selector byte, then the
//! payload.

use crate::error::ContractError;
use crate::wire::{
    byte_string_bytes, byte_string_prefix, items_bytes, items_prefix,
    lemma_byte_string_bytes_unique, lemma_byte_string_round_trip, lemma_items_bytes_push,
    lemma_items_bytes_unique, lemma_items_prefix_step, lemma_items_round_trip,
    lemma_u32_bytes_unique, lemma_u32_round_trip, lemma_varint_bytes_unique,
    lemma_varint_round_trip, read_byte_string, read_u32, read_varint, resumed, u32_bytes,
    u32_prefix, varint_bytes, varint_prefix, write_byte_string, write_bytes, write_u32,
    write_varint,
};
use vstd::prelude::*;

verus! {

/// One call of a transaction.
#[derive(Debug, Clone, PartialEq, Eq)]
pub struct ContractCall {
    /// Names the function of the contract that the call invokes.
    pub selector: u8,
    /// What the function is called with; opaque to everything but it.
    pub payload: Vec<u8>,
}

/// A call as a mathematical value.
pub ghost struct CallRecord {
    pub selector: u8,
    pub payload: Seq<u8>,
}

impl View for ContractCall {
    type V = CallRecord;

    open spec fn view(&self) -> CallRecord {
        CallRecord { selector: self.selector, payload: self.payload@ }
    }
}

/// The calls of a vector as mathematical values, in the same order.
pub open spec fn records(calls: Seq<ContractCall>) -> Seq<CallRecord> {
    calls.map_values(|c: ContractCall| c@)
}

/// The selector and the payload of a call as one byte string.
pub open spec fn call_data(call: CallRecord) -> Seq<u8> {
    seq![call.selector] + call.payload
}

/// A call can be written: its selector and payload together have a length
/// that the length prefix can hold.
pub open spec fn call_fits(call: CallRecord) -> bool {
    call.payload.len() < u64::MAX
}

/// Every call can be written, and so can their number.
pub open spec fn calls_fit(calls: Seq<CallRecord>) -> bool {
    &&& calls.len() <= u64::MAX
    &&& forall|i: int| 0 <= i < calls.len() ==> call_fits(#[trigger] calls[i])
}

/// The bytes of one call.
pub open spec fn call_bytes(call: CallRecord) -> Seq<u8> {
    byte_string_bytes(call_data(call))
}

/// Reads one call from the front of `bytes`: the call and the number of
/// bytes it took. `None` where no byte string can be read or the string is
/// empty, so that no selector is there.
pub open spec fn call_prefix(bytes: Seq<u8>) -> Option<(CallRecord, nat)> {
    match byte_string_prefix(bytes) {
        None => None,
        Some((data, taken)) => if data.len() == 0 {
            None
        } else {
            Some((CallRecord { selector: data[0], payload: data.skip(1) }, taken))
        },
    }
}

/// [`call_bytes`] as a value, to write runs of calls with.
pub open spec fn call_writer() -> spec_fn(CallRecord) -> Seq<u8> {
    |call: CallRecord| call_bytes(call)
}

/// [`call_prefix`] as a value, to read runs of calls with.
pub open spec fn call_reader() -> spec_fn(Seq<u8>) -> Option<(CallRecord, nat)> {
    |input: Seq<u8>| call_prefix(input)
}

/// The bytes of the calls, one after another.
pub open spec fn calls_bytes(calls: Seq<CallRecord>) -> Seq<u8> {
    items_bytes(call_writer(), calls)
}

/// Reads `count` calls from the front of `bytes`: the calls and the number
/// of bytes they took together.
pub open spec fn calls_prefix(bytes: Seq<u8>, count: nat) -> Option<(Seq<CallRecord>, nat)> {
    items_prefix(call_reader(), bytes, count)
}

/// The bytes of a call list: index, number of calls, calls.
pub open spec fn call_list_bytes(call_idx: u32, calls: Seq<CallRecord>) -> Seq<u8> {
    u32_bytes(call_idx) + varint_bytes(calls.len() as u64) + calls_bytes(calls)
}

/// Reads a call list that takes up all of `bytes`: the index and the calls.
/// `None` where a field does not decode or bytes are left over.
pub open spec fn parse_call_list(bytes: Seq<u8>) -> Option<(u32, Seq<CallRecord>)> {
    match u32_prefix(bytes) {
        None => None,
        Some((call_idx, a)) => match varint_prefix(bytes.skip(a as int)) {
            None => None,
            Some((count, b)) => match calls_prefix(bytes.skip((a + b) as int), count as nat) {
                None => None,
                Some((calls, c)) => if a + b + c == bytes.len() {
                    Some((call_idx, calls))
                } else {
                    None
                },
            },
        },
    }
}

/// A call list as a mathematical value.
pub ghost struct CallListView {
    pub call_idx: u32,
    pub calls: Seq<CallRecord>,
}

/// What decoding `bytes` as a call list gives: `Malformed` where they are
/// not exactly one call list, `IndexOutOfRange` where the index selects no
/// call, else the call list.
pub open spec fn decoded_call_list(bytes: Seq<u8>) -> Result<CallListView, ContractError> {
    match parse_call_list(bytes) {
        None => Err(ContractError::Malformed),
        Some((call_idx, calls)) => if call_idx >= calls.len() {
            Err(ContractError::IndexOutOfRange)
        } else {
            Ok(CallListView { call_idx, calls })
        },
    }
}

/// The calls of a transaction with the index of the call in hand. The index
/// always selects one of the calls.
#[derive(Debug, PartialEq, Eq)]
pub struct CallList {
    call_idx: u32,
    calls: Vec<ContractCall>,
}

impl View for CallList {
    type V = CallListView;

    closed spec fn view(&self) -> CallListView {
        CallListView { call_idx: self.call_idx, calls: records(self.calls@) }
    }
}

impl CallList {
    #[verifier::type_invariant]
    spec fn index_selects_a_call(self) -> bool {
        self.call_idx < self.calls@.len()
    }

    /// Puts an index and calls together; `IndexOutOfRange` where the index
    /// selects none of the calls.
    pub fn new(call_idx: u32, calls: Vec<ContractCall>) -> (r: Result<CallList, ContractError>)
        ensures
            call_idx < calls@.len() ==> (r matches Ok(list) && list@ == (CallListView {
                call_idx,
                calls: records(calls@),
            })),
            call_idx >= calls@.len() ==> r == Err::<CallList, ContractError>(
                ContractError::IndexOutOfRange,
            ),
    {
        if call_idx as usize >= calls.len() {
            Err(ContractError::IndexOutOfRange)
        } else {
            Ok(CallList { call_idx, calls })
        }
    }

    /// The index of the call in hand.
    pub fn call_idx(&self) -> (idx: u32)
        ensures
            idx == self@.call_idx,
            idx < self@.calls.len(),
    {
        proof {
            use_type_invariant(self);
        }
        self.call_idx
    }

    /// All calls of the transaction, in their order.
    pub fn calls(&self) -> (calls: &Vec<ContractCall>)
        ensures
            records(calls@) == self@.calls,
    {
        &self.calls
    }

    /// The call in hand.
    pub fn selected(&self) -> (call: &ContractCall)
        ensures
            self@.call_idx < self@.calls.len(),
            call@ == self@.calls[self@.call_idx as int],
    {
        proof {
            use_type_invariant(self);
        }
        &self.calls[self.call_idx as usize]
    }

    /// The bytes of this call list.
    pub fn encode(&self) -> (out: Vec<u8>)
        ensures
            out@ == call_list_bytes(self@.call_idx, self@.calls),
    {
        encode_call_list(self.call_idx, &self.calls)
    }
}

/// Reads one call at `pos`: the call and the position behind it.
fn read_call(bytes: &[u8], pos: usize) -> (r: Option<(ContractCall, usize)>)
    requires
        pos <= bytes@.len(),
    ensures
        match call_prefix(bytes@.skip(pos as int)) {
            Some((call, taken)) => r matches Some((got, next)) && got@ == call && next == pos
                + taken,
            None => r is None,
        },
        r matches Some((_, next)) ==> pos < next <= bytes@.len(),
{
    match read_byte_string(bytes, pos) {
        None => None,
        Some((data, next)) => {
            if data.len() == 0 {
                None
            } else {
                let selector = data[0];
                let mut payload = data;
                payload.remove(0);
                assert(payload@ =~= data@.skip(1));
                Some((ContractCall { selector, payload }, next))
            }
        },
    }
}

/// Reads `count` calls at `pos`: the calls and the position behind them.
fn read_calls(bytes: &[u8], pos: usize, count: u64) -> (r: Option<(Vec<ContractCall>, usize)>)
    requires
        pos <= bytes@.len(),
    ensures
        match calls_prefix(bytes@.skip(pos as int), count as nat) {
            Some((calls, taken)) => r matches Some((got, next)) && records(got@) == calls
                && next == pos + taken,
            None => r is None,
        },
        r matches Some((_, next)) ==> pos <= next <= bytes@.len(),
{
    let ghost whole = calls_prefix(bytes@.skip(pos as int), count as nat);
    let mut calls: Vec<ContractCall> = Vec::new();
    let mut at: usize = pos;
    let mut read: u64 = 0;
    assert(records(calls@) =~= Seq::<CallRecord>::empty());
    assert(match whole {
        None => true,
        Some((all, _)) => Seq::<CallRecord>::empty() + all =~= all,
    });
    while read < count
        invariant
            pos <= at <= bytes@.len(),
            read <= count,
            whole == calls_prefix(bytes@.skip(pos as int), count as nat),
            whole == resumed(
                records(calls@),
                (at - pos) as nat,
                calls_prefix(bytes@.skip(at as int), (count - read) as nat),
            ),
        decreases count - read,
    {
        proof {
            lemma_items_prefix_step(
                call_reader(),
                records(calls@),
                (at - pos) as nat,
                bytes@.skip(at as int),
                (count - read) as nat,
            );
        }
        match read_call(bytes, at) {
            None => {
                return None;
            },
            Some((call, next)) => {
                proof {
                    assert(bytes@.skip(at as int).skip(next - at) =~= bytes@.skip(next as int));
                    assert(records(calls@.push(call)) =~= records(calls@).push(call@));
                }
                calls.push(call);
                at = next;
                read = read + 1;
            },
        }
    }
    assert(records(calls@) + Seq::<CallRecord>::empty() =~= records(calls@));
    Some((calls, at))
}

/// Decodes a call list. The bytes must be exactly one call list, and its
/// index must select one of its calls.
pub fn decode_call_list(bytes: &[u8]) -> (r: Result<CallList, ContractError>)
    ensures
        match decoded_call_list(bytes@) {
            Ok(list) => r matches Ok(got) && got@ == list,
            Err(e) => r == Err::<CallList, ContractError>(e),
        },
{
    assert(bytes@.skip(0) =~= bytes@);
    let (call_idx, a) = match read_u32(bytes, 0) {
        None => {
            return Err(ContractError::Malformed);
        },
        Some(found) => found,
    };
    let (count, b) = match read_varint(bytes, a) {
        None => {
            return Err(ContractError::Malformed);
        },
        Some(found) => found,
    };
    let (calls, c) = match read_calls(bytes, b, count) {
        None => {
            return Err(ContractError::Malformed);
        },
        Some(found) => found,
    };
    if c != bytes.len() {
        return Err(ContractError::Malformed);
    }
    CallList::new(call_idx, calls)
}

/// Appends the bytes of one call.
fn write_call(out: &mut Vec<u8>, call: &ContractCall)
    ensures
        final(out)@ == old(out)@ + call_bytes(call@),
{
    let mut data: Vec<u8> = Vec::new();
    data.push(call.selector);
    write_bytes(&mut data, call.payload.as_slice());
    assert(data@ =~= call_data(call@));
    write_byte_string(out, data.as_slice());
}

/// Encodes an index and calls as a call list, whether or not the index
/// selects one of the calls.
pub fn encode_call_list(call_idx: u32, calls: &Vec<ContractCall>) -> (out: Vec<u8>)
    ensures
        out@ == call_list_bytes(call_idx, records(calls@)),
{
    let mut out: Vec<u8> = Vec::new();
    write_u32(&mut out, call_idx);
    write_varint(&mut out, calls.len() as u64);
    let ghost head = out@;
    assert(head =~= u32_bytes(call_idx) + varint_bytes(calls@.len() as u64));
    let mut i: usize = 0;
    while i < calls.len()
        invariant
            i <= calls@.len(),
            out@ == head + calls_bytes(records(calls@).take(i as int)),
        decreases calls@.len() - i,
    {
        proof {
            let all = records(calls@);
            lemma_items_bytes_push(call_writer(), all.take(i as int), all[i as int]);
            assert(all.take(i as int).push(all[i as int]) =~= all.take(i + 1));
        }
        write_call(&mut out, &calls[i]);
        i = i + 1;
    }
    assert(records(calls@).take(calls@.len() as int) =~= records(calls@));
    out
}

/// One call is read back from its bytes, whatever follows.
pub proof fn lemma_call_round_trip(call: CallRecord, rest: Seq<u8>)
    requires
        call_fits(call),
    ensures
        call_prefix(call_bytes(call) + rest) == Some((call, call_bytes(call).len())),
{
    let data = call_data(call);
    lemma_byte_string_round_trip(data, rest);
    assert(data.skip(1) =~= call.payload);
}

/// Calls are read back from their bytes, whatever follows.
pub proof fn lemma_calls_round_trip(calls: Seq<CallRecord>, rest: Seq<u8>)
    requires
        calls_fit(calls),
    ensures
        calls_prefix(calls_bytes(calls) + rest, calls.len()) == Some(
            (calls, calls_bytes(calls).len()),
        ),
{
    let item_bytes = call_writer();
    let item_prefix = call_reader();
    assert forall|i: int, after: Seq<u8>| 0 <= i < calls.len() implies #[trigger] item_prefix(
        item_bytes(calls[i]) + after,
    ) == Some((calls[i], item_bytes(calls[i]).len())) by {
        lemma_call_round_trip(calls[i], after);
    }
    lemma_items_round_trip(item_bytes, item_prefix, calls, rest);
}

/// Decoding undoes encoding: the bytes of an index and calls parse as
/// exactly that index and those calls.
pub proof fn call_list_round_trip(call_idx: u32, calls: Seq<CallRecord>)
    requires
        calls_fit(calls),
    ensures
        parse_call_list(call_list_bytes(call_idx, calls)) == Some((call_idx, calls)),
        call_idx < calls.len() ==> decoded_call_list(call_list_bytes(call_idx, calls)) == Ok::<
            CallListView,
            ContractError,
        >(CallListView { call_idx, calls }),
{
    let count = calls.len() as u64;
    let idx = u32_bytes(call_idx);
    let num = varint_bytes(count);
    let body = calls_bytes(calls);
    let all = call_list_bytes(call_idx, calls);
    assert(all =~= idx + (num + body));
    lemma_u32_round_trip(call_idx, num + body);
    assert(all.skip(4) =~= num + body);
    lemma_varint_round_trip(count, body);
    assert(all.skip((4 + num.len()) as int) =~= body + Seq::<u8>::empty());
    lemma_calls_round_trip(calls, Seq::<u8>::empty());
}

/// An index that selects none of the calls is refused: the bytes of such an
/// index and calls decode to `IndexOutOfRange`, never to a call list.
pub proof fn call_list_index_out_of_range(call_idx: u32, calls: Seq<CallRecord>)
    requires
        calls_fit(calls),
        call_idx >= calls.len(),
    ensures
        decoded_call_list(call_list_bytes(call_idx, calls)) == Err::<CallListView, ContractError>(
            ContractError::IndexOutOfRange,
        ),
{
    call_list_round_trip(call_idx, calls);
}

/// Only the bytes of a call are read as that call.
pub proof fn lemma_call_bytes_unique(bytes: Seq<u8>)
    requires
        call_prefix(bytes) is Some,
    ensures
        call_prefix(bytes) matches Some((call, taken)) && taken <= bytes.len() && call_fits(call)
            && call_bytes(call) == bytes.subrange(0, taken as int),
{
    lemma_byte_string_bytes_unique(bytes);
    let (data, _) = byte_string_prefix(bytes)->0;
    assert(seq![data[0]] + data.skip(1) =~= data);
}

/// Encoding undoes decoding: bytes that parse as an index and calls are the
/// bytes of that index and those calls, so no two byte strings stand for
/// the same call list.
pub proof fn call_list_bytes_unique(bytes: Seq<u8>)
    requires
        parse_call_list(bytes) is Some,
    ensures
        parse_call_list(bytes) matches Some((call_idx, calls)) && call_list_bytes(call_idx, calls)
            == bytes,
{
    lemma_u32_bytes_unique(bytes);
    let (call_idx, a) = u32_prefix(bytes)->0;
    let after_idx = bytes.skip(a as int);
    lemma_varint_bytes_unique(after_idx);
    let (count, b) = varint_prefix(after_idx)->0;
    let after_count = bytes.skip((a + b) as int);
    let item_bytes = call_writer();
    let item_prefix = call_reader();
    assert forall|input: Seq<u8>|
        (#[trigger] item_prefix(input)) matches Some((item, taken)) ==> taken <= input.len()
            && item_bytes(item) == input.subrange(0, taken as int) by {
        if item_prefix(input) is Some {
            lemma_call_bytes_unique(input);
        }
    }
    lemma_items_bytes_unique(item_bytes, item_prefix, after_count, count as nat);
    let (calls, c) = calls_prefix(after_count, count as nat)->0;
    assert(bytes.subrange(0, a as int) + after_idx.subrange(0, b as int) + after_count.subrange(
        0,
        c as int,
    ) =~= bytes);
}

} // verus!
