//! What the host has to verify before it trusts a call: the public inputs of
//! the zero-knowledge proofs, circuit by circuit, and the public keys whose
//! signatures the call needs.
//!
//! On the wire the metadata are two lists, each with its length in front:
//! first the groups of public inputs, each a circuit name and a list of
//! field elements, then the public keys. Field elements and public keys
//! travel as 32 bytes each; what those bytes denote is for the verifier
//! that consumes them.

use crate::error::ContractError;
use crate::wire::{
    byte_string_bytes, byte_string_prefix, items_bytes, items_prefix,
    lemma_byte_string_bytes_unique, lemma_byte_string_round_trip, lemma_items_bytes_push,
    lemma_items_bytes_unique, lemma_items_prefix_step, lemma_items_round_trip,
    lemma_varint_bytes_unique, lemma_varint_round_trip, read_byte_string, read_varint, resumed,
    varint_bytes, varint_prefix, write_byte_string, write_bytes, write_varint,
};
use vstd::prelude::*;
use vstd::string::StringSliceAdditionalSpecFns;
use vstd::utf8::{
    decode_utf8, decode_utf8_encode_utf8, encode_utf8, encode_utf8_decode_utf8,
    encode_utf8_valid_utf8, valid_utf8,
};

verus! {

/// A field element as it travels.
pub type FieldElement = [u8; 32];

/// A signature public key as it travels.
pub type PublicKey = [u8; 32];

/// The public inputs of one zero-knowledge proof.
#[derive(Debug, Clone, PartialEq, Eq)]
pub struct ZkPublicInputs {
    /// Names the circuit the proof is for.
    pub circuit_name: String,
    /// The public inputs, in the order the circuit takes them.
    pub field_elements: Vec<FieldElement>,
}

/// Everything the host verifies for one call.
#[derive(Debug, Clone, PartialEq, Eq)]
pub struct Metadata {
    /// One group of public inputs per proof.
    pub zk_public_inputs: Vec<ZkPublicInputs>,
    /// The keys that must have signed.
    pub signature_pubkeys: Vec<PublicKey>,
}

/// The public inputs of one proof as a mathematical value.
pub ghost struct ZkPublicInputsView {
    pub circuit_name: Seq<char>,
    pub field_elements: Seq<Seq<u8>>,
}

/// The metadata of a call as a mathematical value.
pub ghost struct MetadataView {
    pub zk_public_inputs: Seq<ZkPublicInputsView>,
    pub signature_pubkeys: Seq<Seq<u8>>,
}

/// The 32-byte values of a vector as byte strings, in the same order.
pub open spec fn elements(items: Seq<[u8; 32]>) -> Seq<Seq<u8>> {
    items.map_values(|item: [u8; 32]| item@)
}

impl View for ZkPublicInputs {
    type V = ZkPublicInputsView;

    open spec fn view(&self) -> ZkPublicInputsView {
        ZkPublicInputsView {
            circuit_name: self.circuit_name@,
            field_elements: elements(self.field_elements@),
        }
    }
}

/// The groups of a vector as mathematical values, in the same order.
pub open spec fn groups(items: Seq<ZkPublicInputs>) -> Seq<ZkPublicInputsView> {
    items.map_values(|item: ZkPublicInputs| item@)
}

impl View for Metadata {
    type V = MetadataView;

    open spec fn view(&self) -> MetadataView {
        MetadataView {
            zk_public_inputs: groups(self.zk_public_inputs@),
            signature_pubkeys: elements(self.signature_pubkeys@),
        }
    }
}

/// Reads one 32-byte value from the front of `bytes`.
pub open spec fn element_prefix(bytes: Seq<u8>) -> Option<(Seq<u8>, nat)> {
    if bytes.len() < 32 {
        None
    } else {
        Some((bytes.subrange(0, 32), 32nat))
    }
}

/// A 32-byte value is written as it stands.
pub open spec fn element_writer() -> spec_fn(Seq<u8>) -> Seq<u8> {
    |item: Seq<u8>| item
}

/// [`element_prefix`] as a value, to read runs of 32-byte values with.
pub open spec fn element_reader() -> spec_fn(Seq<u8>) -> Option<(Seq<u8>, nat)> {
    |input: Seq<u8>| element_prefix(input)
}

/// The bytes of a list of 32-byte values: their number, then the values.
pub open spec fn element_list_bytes(items: Seq<Seq<u8>>) -> Seq<u8> {
    varint_bytes(items.len() as u64) + items_bytes(element_writer(), items)
}

/// Reads a list of 32-byte values from the front of `bytes`: the values and
/// the number of bytes the list took.
pub open spec fn element_list_prefix(bytes: Seq<u8>) -> Option<(Seq<Seq<u8>>, nat)> {
    match varint_prefix(bytes) {
        None => None,
        Some((count, a)) => match items_prefix(
            element_reader(),
            bytes.skip(a as int),
            count as nat,
        ) {
            None => None,
            Some((items, b)) => Some((items, a + b)),
        },
    }
}

/// The bytes of one group: the circuit name in UTF-8 as a byte string, then
/// the list of field elements.
pub open spec fn group_bytes(group: ZkPublicInputsView) -> Seq<u8> {
    byte_string_bytes(encode_utf8(group.circuit_name)) + element_list_bytes(group.field_elements)
}

/// Reads one group from the front of `bytes`. `None` where the name is not
/// UTF-8 or a part cannot be read.
pub open spec fn group_prefix(bytes: Seq<u8>) -> Option<(ZkPublicInputsView, nat)> {
    match byte_string_prefix(bytes) {
        None => None,
        Some((name, a)) => if !valid_utf8(name) {
            None
        } else {
            match element_list_prefix(bytes.skip(a as int)) {
                None => None,
                Some((field_elements, b)) => Some(
                    (
                        ZkPublicInputsView { circuit_name: decode_utf8(name), field_elements },
                        a + b,
                    ),
                ),
            }
        },
    }
}

/// [`group_bytes`] as a value, to write runs of groups with.
pub open spec fn group_writer() -> spec_fn(ZkPublicInputsView) -> Seq<u8> {
    |group: ZkPublicInputsView| group_bytes(group)
}

/// [`group_prefix`] as a value, to read runs of groups with.
pub open spec fn group_reader() -> spec_fn(Seq<u8>) -> Option<(ZkPublicInputsView, nat)> {
    |input: Seq<u8>| group_prefix(input)
}

/// The bytes of the metadata: the number of groups, the groups, then the
/// list of public keys.
pub open spec fn metadata_bytes(metadata: MetadataView) -> Seq<u8> {
    varint_bytes(metadata.zk_public_inputs.len() as u64) + items_bytes(
        group_writer(),
        metadata.zk_public_inputs,
    ) + element_list_bytes(metadata.signature_pubkeys)
}

/// Reads metadata that take up all of `bytes`. `None` where a part does not
/// decode or bytes are left over.
pub open spec fn parse_metadata(bytes: Seq<u8>) -> Option<MetadataView> {
    match varint_prefix(bytes) {
        None => None,
        Some((count, a)) => match items_prefix(group_reader(), bytes.skip(a as int), count as nat) {
            None => None,
            Some((zk_public_inputs, b)) => match element_list_prefix(bytes.skip((a + b) as int)) {
                None => None,
                Some((signature_pubkeys, c)) => if a + b + c == bytes.len() {
                    Some(MetadataView { zk_public_inputs, signature_pubkeys })
                } else {
                    None
                },
            },
        },
    }
}

/// A list of 32-byte values can be written: each value has 32 bytes, and
/// their number is one that the length prefix can hold.
pub open spec fn elements_fit(items: Seq<Seq<u8>>) -> bool {
    &&& items.len() <= u64::MAX
    &&& forall|i: int| 0 <= i < items.len() ==> (#[trigger] items[i]).len() == 32
}

/// A group can be written.
pub open spec fn group_fits(group: ZkPublicInputsView) -> bool {
    &&& encode_utf8(group.circuit_name).len() <= u64::MAX
    &&& elements_fit(group.field_elements)
}

/// Metadata can be written.
pub open spec fn metadata_fit(metadata: MetadataView) -> bool {
    &&& metadata.zk_public_inputs.len() <= u64::MAX
    &&& forall|i: int|
        0 <= i < metadata.zk_public_inputs.len() ==> group_fits(
            #[trigger] metadata.zk_public_inputs[i],
        )
    &&& elements_fit(metadata.signature_pubkeys)
}

/// Calls `String::from_utf8`. That function accepts exactly the byte
/// strings that are UTF-8 and hands back the text they spell; the contract
/// says so over vstd's definition of UTF-8.
#[verifier::external_body]
fn string_from_utf8(bytes: Vec<u8>) -> (r: Option<String>)
    ensures
        r is Some <==> valid_utf8(bytes@),
        r matches Some(text) ==> text@ == decode_utf8(bytes@),
{
    String::from_utf8(bytes).ok()
}

/// Reads one 32-byte value at `pos`: the value and the position behind it.
fn read_element(bytes: &[u8], pos: usize) -> (r: Option<([u8; 32], usize)>)
    requires
        pos <= bytes@.len(),
    ensures
        match element_prefix(bytes@.skip(pos as int)) {
            Some((item, taken)) => r matches Some((got, next)) && got@ == item && next == pos
                + taken,
            None => r is None,
        },
        r matches Some((_, next)) ==> pos < next <= bytes@.len(),
{
    if bytes.len() - pos < 32 {
        return None;
    }
    let mut item = [0u8; 32];
    let mut i: usize = 0;
    while i < 32
        invariant
            i <= 32,
            pos + 32 <= bytes.len(),
            forall|j: int| 0 <= j < i ==> item@[j] == bytes@[pos + j],
        decreases 32 - i,
    {
        item[i] = bytes[pos + i];
        i = i + 1;
    }
    assert(item@ =~= bytes@.skip(pos as int).subrange(0, 32));
    Some((item, pos + 32))
}

/// Reads `count` 32-byte values at `pos`: the values and the position
/// behind them.
fn read_elements(bytes: &[u8], pos: usize, count: u64) -> (r: Option<(Vec<[u8; 32]>, usize)>)
    requires
        pos <= bytes@.len(),
    ensures
        match items_prefix(element_reader(), bytes@.skip(pos as int), count as nat) {
            Some((items, taken)) => r matches Some((got, next)) && elements(got@) == items
                && next == pos + taken,
            None => r is None,
        },
        r matches Some((_, next)) ==> pos <= next <= bytes@.len(),
{
    let ghost whole = items_prefix(element_reader(), bytes@.skip(pos as int), count as nat);
    let mut items: Vec<[u8; 32]> = Vec::new();
    let mut at: usize = pos;
    let mut read: u64 = 0;
    assert(elements(items@) =~= Seq::<Seq<u8>>::empty());
    assert(match whole {
        None => true,
        Some((all, _)) => Seq::<Seq<u8>>::empty() + all =~= all,
    });
    while read < count
        invariant
            pos <= at <= bytes@.len(),
            read <= count,
            whole == items_prefix(element_reader(), bytes@.skip(pos as int), count as nat),
            whole == resumed(
                elements(items@),
                (at - pos) as nat,
                items_prefix(element_reader(), bytes@.skip(at as int), (count - read) as nat),
            ),
        decreases count - read,
    {
        proof {
            lemma_items_prefix_step(
                element_reader(),
                elements(items@),
                (at - pos) as nat,
                bytes@.skip(at as int),
                (count - read) as nat,
            );
        }
        match read_element(bytes, at) {
            None => {
                return None;
            },
            Some((item, next)) => {
                proof {
                    assert(bytes@.skip(at as int).skip(next - at) =~= bytes@.skip(next as int));
                    assert(elements(items@.push(item)) =~= elements(items@).push(item@));
                }
                items.push(item);
                at = next;
                read = read + 1;
            },
        }
    }
    assert(elements(items@) + Seq::<Seq<u8>>::empty() =~= elements(items@));
    Some((items, at))
}

/// Reads a list of 32-byte values at `pos`: the values and the position
/// behind the list.
fn read_element_list(bytes: &[u8], pos: usize) -> (r: Option<(Vec<[u8; 32]>, usize)>)
    requires
        pos <= bytes@.len(),
    ensures
        match element_list_prefix(bytes@.skip(pos as int)) {
            Some((items, taken)) => r matches Some((got, next)) && elements(got@) == items
                && next == pos + taken,
            None => r is None,
        },
        r matches Some((_, next)) ==> pos < next <= bytes@.len(),
{
    match read_varint(bytes, pos) {
        None => None,
        Some((count, start)) => {
            assert(bytes@.skip(pos as int).skip(start - pos) =~= bytes@.skip(start as int));
            read_elements(bytes, start, count)
        },
    }
}

/// Reads one group at `pos`: the group and the position behind it.
fn read_group(bytes: &[u8], pos: usize) -> (r: Option<(ZkPublicInputs, usize)>)
    requires
        pos <= bytes@.len(),
    ensures
        match group_prefix(bytes@.skip(pos as int)) {
            Some((group, taken)) => r matches Some((got, next)) && got@ == group && next == pos
                + taken,
            None => r is None,
        },
        r matches Some((_, next)) ==> pos < next <= bytes@.len(),
{
    let (name, start) = match read_byte_string(bytes, pos) {
        None => {
            return None;
        },
        Some(found) => found,
    };
    let circuit_name = match string_from_utf8(name) {
        None => {
            return None;
        },
        Some(text) => text,
    };
    assert(bytes@.skip(pos as int).skip(start - pos) =~= bytes@.skip(start as int));
    match read_element_list(bytes, start) {
        None => None,
        Some((field_elements, next)) => Some((ZkPublicInputs { circuit_name, field_elements }, next)),
    }
}

/// Reads `count` groups at `pos`: the groups and the position behind them.
fn read_groups(bytes: &[u8], pos: usize, count: u64) -> (r: Option<(Vec<ZkPublicInputs>, usize)>)
    requires
        pos <= bytes@.len(),
    ensures
        match items_prefix(group_reader(), bytes@.skip(pos as int), count as nat) {
            Some((items, taken)) => r matches Some((got, next)) && groups(got@) == items && next
                == pos + taken,
            None => r is None,
        },
        r matches Some((_, next)) ==> pos <= next <= bytes@.len(),
{
    let ghost whole = items_prefix(group_reader(), bytes@.skip(pos as int), count as nat);
    let mut items: Vec<ZkPublicInputs> = Vec::new();
    let mut at: usize = pos;
    let mut read: u64 = 0;
    assert(groups(items@) =~= Seq::<ZkPublicInputsView>::empty());
    assert(match whole {
        None => true,
        Some((all, _)) => Seq::<ZkPublicInputsView>::empty() + all =~= all,
    });
    while read < count
        invariant
            pos <= at <= bytes@.len(),
            read <= count,
            whole == items_prefix(group_reader(), bytes@.skip(pos as int), count as nat),
            whole == resumed(
                groups(items@),
                (at - pos) as nat,
                items_prefix(group_reader(), bytes@.skip(at as int), (count - read) as nat),
            ),
        decreases count - read,
    {
        proof {
            lemma_items_prefix_step(
                group_reader(),
                groups(items@),
                (at - pos) as nat,
                bytes@.skip(at as int),
                (count - read) as nat,
            );
        }
        match read_group(bytes, at) {
            None => {
                return None;
            },
            Some((item, next)) => {
                proof {
                    assert(bytes@.skip(at as int).skip(next - at) =~= bytes@.skip(next as int));
                    assert(groups(items@.push(item)) =~= groups(items@).push(item@));
                }
                items.push(item);
                at = next;
                read = read + 1;
            },
        }
    }
    assert(groups(items@) + Seq::<ZkPublicInputsView>::empty() =~= groups(items@));
    Some((items, at))
}

/// Appends a list of 32-byte values: their number, then the values.
fn write_element_list(out: &mut Vec<u8>, items: &Vec<[u8; 32]>)
    ensures
        final(out)@ == old(out)@ + element_list_bytes(elements(items@)),
{
    write_varint(out, items.len() as u64);
    let ghost head = out@;
    let mut i: usize = 0;
    while i < items.len()
        invariant
            i <= items@.len(),
            head == old(out)@ + varint_bytes(items@.len() as u64),
            out@ == head + items_bytes(element_writer(), elements(items@).take(i as int)),
        decreases items@.len() - i,
    {
        proof {
            let all = elements(items@);
            lemma_items_bytes_push(element_writer(), all.take(i as int), all[i as int]);
            assert(all.take(i as int).push(all[i as int]) =~= all.take(i + 1));
        }
        let item: &[u8; 32] = &items[i];
        write_bytes(out, item);
        i = i + 1;
    }
    assert(elements(items@).take(items@.len() as int) =~= elements(items@));
    assert(out@ =~= old(out)@ + element_list_bytes(elements(items@)));
}

/// Appends one group.
fn write_group(out: &mut Vec<u8>, group: &ZkPublicInputs)
    ensures
        final(out)@ == old(out)@ + group_bytes(group@),
{
    write_byte_string(out, group.circuit_name.as_str().as_bytes());
    write_element_list(out, &group.field_elements);
    assert(out@ =~= old(out)@ + group_bytes(group@));
}

impl Metadata {
    /// Metadata that ask the host to verify nothing.
    pub fn empty() -> (metadata: Metadata)
        ensures
            metadata@.zk_public_inputs.len() == 0,
            metadata@.signature_pubkeys.len() == 0,
    {
        Metadata { zk_public_inputs: Vec::new(), signature_pubkeys: Vec::new() }
    }

    /// The bytes of these metadata.
    pub fn encode(&self) -> (out: Vec<u8>)
        ensures
            out@ == metadata_bytes(self@),
    {
        let mut out: Vec<u8> = Vec::new();
        write_varint(&mut out, self.zk_public_inputs.len() as u64);
        let ghost head = out@;
        let mut i: usize = 0;
        while i < self.zk_public_inputs.len()
            invariant
                i <= self.zk_public_inputs@.len(),
                head == varint_bytes(self.zk_public_inputs@.len() as u64),
                out@ == head + items_bytes(
                    group_writer(),
                    groups(self.zk_public_inputs@).take(i as int),
                ),
            decreases self.zk_public_inputs@.len() - i,
        {
            proof {
                let all = groups(self.zk_public_inputs@);
                lemma_items_bytes_push(group_writer(), all.take(i as int), all[i as int]);
                assert(all.take(i as int).push(all[i as int]) =~= all.take(i + 1));
            }
            write_group(&mut out, &self.zk_public_inputs[i]);
            i = i + 1;
        }
        assert(groups(self.zk_public_inputs@).take(self.zk_public_inputs@.len() as int) =~= groups(
            self.zk_public_inputs@,
        ));
        write_element_list(&mut out, &self.signature_pubkeys);
        out
    }

    /// Decodes metadata. The bytes must be exactly one encoding of metadata,
    /// else the result is `Malformed`.
    pub fn decode(bytes: &[u8]) -> (r: Result<Metadata, ContractError>)
        ensures
            match parse_metadata(bytes@) {
                Some(metadata) => r matches Ok(got) && got@ == metadata,
                None => r == Err::<Metadata, ContractError>(ContractError::Malformed),
            },
    {
        assert(bytes@.skip(0) =~= bytes@);
        let (count, a) = match read_varint(bytes, 0) {
            None => {
                return Err(ContractError::Malformed);
            },
            Some(found) => found,
        };
        let (zk_public_inputs, b) = match read_groups(bytes, a, count) {
            None => {
                return Err(ContractError::Malformed);
            },
            Some(found) => found,
        };
        let (signature_pubkeys, c) = match read_element_list(bytes, b) {
            None => {
                return Err(ContractError::Malformed);
            },
            Some(found) => found,
        };
        if c != bytes.len() {
            return Err(ContractError::Malformed);
        }
        Ok(Metadata { zk_public_inputs, signature_pubkeys })
    }
}

/// A list of 32-byte values is read back from its bytes, whatever follows.
pub proof fn lemma_element_list_round_trip(items: Seq<Seq<u8>>, rest: Seq<u8>)
    requires
        elements_fit(items),
    ensures
        element_list_prefix(element_list_bytes(items) + rest) == Some(
            (items, element_list_bytes(items).len()),
        ),
{
    let count = items.len() as u64;
    let head = varint_bytes(count);
    let body = items_bytes(element_writer(), items);
    let all = element_list_bytes(items) + rest;
    assert(all =~= head + (body + rest));
    lemma_varint_round_trip(count, body + rest);
    assert(all.skip(head.len() as int) =~= body + rest);
    let item_bytes = element_writer();
    let item_prefix = element_reader();
    assert forall|i: int, after: Seq<u8>| 0 <= i < items.len() implies #[trigger] item_prefix(
        item_bytes(items[i]) + after,
    ) == Some((items[i], item_bytes(items[i]).len())) by {
        assert((items[i] + after).subrange(0, 32) =~= items[i]);
    }
    lemma_items_round_trip(item_bytes, item_prefix, items, rest);
}

/// A group is read back from its bytes, whatever follows.
pub proof fn lemma_group_round_trip(group: ZkPublicInputsView, rest: Seq<u8>)
    requires
        group_fits(group),
    ensures
        group_prefix(group_bytes(group) + rest) == Some((group, group_bytes(group).len())),
{
    let name = encode_utf8(group.circuit_name);
    let head = byte_string_bytes(name);
    let body = element_list_bytes(group.field_elements);
    let all = group_bytes(group) + rest;
    assert(all =~= head + (body + rest));
    lemma_byte_string_round_trip(name, body + rest);
    encode_utf8_valid_utf8(group.circuit_name);
    encode_utf8_decode_utf8(group.circuit_name);
    assert(all.skip(head.len() as int) =~= body + rest);
    lemma_element_list_round_trip(group.field_elements, rest);
}

/// Decoding undoes encoding: the bytes of metadata parse as those metadata.
pub proof fn metadata_round_trip(metadata: MetadataView)
    requires
        metadata_fit(metadata),
    ensures
        parse_metadata(metadata_bytes(metadata)) == Some(metadata),
{
    let count = metadata.zk_public_inputs.len() as u64;
    let head = varint_bytes(count);
    let body = items_bytes(group_writer(), metadata.zk_public_inputs);
    let keys = element_list_bytes(metadata.signature_pubkeys);
    let all = metadata_bytes(metadata);
    assert(all =~= head + (body + keys));
    lemma_varint_round_trip(count, body + keys);
    assert(all.skip(head.len() as int) =~= body + keys);
    let item_bytes = group_writer();
    let item_prefix = group_reader();
    assert forall|i: int, after: Seq<u8>|
        0 <= i < metadata.zk_public_inputs.len() implies #[trigger] item_prefix(
        item_bytes(metadata.zk_public_inputs[i]) + after,
    ) == Some(
        (metadata.zk_public_inputs[i], item_bytes(metadata.zk_public_inputs[i]).len()),
    ) by {
        lemma_group_round_trip(metadata.zk_public_inputs[i], after);
    }
    lemma_items_round_trip(item_bytes, item_prefix, metadata.zk_public_inputs, keys);
    assert(all.skip((head.len() + body.len()) as int) =~= keys + Seq::<u8>::empty());
    lemma_element_list_round_trip(metadata.signature_pubkeys, Seq::<u8>::empty());
}

/// Only the bytes of a list of 32-byte values are read as that list.
pub proof fn lemma_element_list_bytes_unique(bytes: Seq<u8>)
    requires
        element_list_prefix(bytes) is Some,
    ensures
        element_list_prefix(bytes) matches Some((items, taken)) && taken <= bytes.len()
            && element_list_bytes(items) == bytes.subrange(0, taken as int),
{
    lemma_varint_bytes_unique(bytes);
    let (count, a) = varint_prefix(bytes)->0;
    let rest = bytes.skip(a as int);
    let item_bytes = element_writer();
    let item_prefix = element_reader();
    lemma_items_bytes_unique(item_bytes, item_prefix, rest, count as nat);
    let (items, b) = items_prefix(item_prefix, rest, count as nat)->0;
    assert(bytes.subrange(0, a as int) + rest.subrange(0, b as int) =~= bytes.subrange(
        0,
        (a + b) as int,
    ));
}

/// Only the bytes of a group are read as that group.
pub proof fn lemma_group_bytes_unique(bytes: Seq<u8>)
    requires
        group_prefix(bytes) is Some,
    ensures
        group_prefix(bytes) matches Some((group, taken)) && taken <= bytes.len() && group_bytes(
            group,
        ) == bytes.subrange(0, taken as int),
{
    lemma_byte_string_bytes_unique(bytes);
    let (name, a) = byte_string_prefix(bytes)->0;
    decode_utf8_encode_utf8(name);
    let rest = bytes.skip(a as int);
    lemma_element_list_bytes_unique(rest);
    let (items, b) = element_list_prefix(rest)->0;
    assert(bytes.subrange(0, a as int) + rest.subrange(0, b as int) =~= bytes.subrange(
        0,
        (a + b) as int,
    ));
}

/// Encoding undoes decoding: bytes that parse as metadata are the bytes of
/// those metadata, so no two byte strings stand for the same metadata.
pub proof fn metadata_bytes_unique(bytes: Seq<u8>)
    requires
        parse_metadata(bytes) is Some,
    ensures
        metadata_bytes(parse_metadata(bytes)->0) == bytes,
{
    lemma_varint_bytes_unique(bytes);
    let (count, a) = varint_prefix(bytes)->0;
    let after_count = bytes.skip(a as int);
    let item_bytes = group_writer();
    let item_prefix = group_reader();
    assert forall|input: Seq<u8>|
        (#[trigger] item_prefix(input)) matches Some((item, taken)) ==> taken <= input.len()
            && item_bytes(item) == input.subrange(0, taken as int) by {
        if item_prefix(input) is Some {
            lemma_group_bytes_unique(input);
        }
    }
    lemma_items_bytes_unique(item_bytes, item_prefix, after_count, count as nat);
    let (found, b) = items_prefix(item_prefix, after_count, count as nat)->0;
    let after_groups = bytes.skip((a + b) as int);
    lemma_element_list_bytes_unique(after_groups);
    let (keys, c) = element_list_prefix(after_groups)->0;
    assert(bytes.subrange(0, a as int) + after_count.subrange(0, b as int)
        + after_groups.subrange(0, c as int) =~= bytes);
}

} // verus!
