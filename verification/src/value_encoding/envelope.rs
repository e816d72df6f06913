//! The message that holds the fields of a struct value: one length-delimited
//! blob for each field, in the wire format of protocol buffers.

use crate::value_encoding::error::ValueEncodingError;
use crate::value_encoding::wire::remaining;
use vstd::prelude::*;

verus! {

/// `prost::DecodeError`: why a message could not be read; handed on and
/// never looked into.
#[verifier::external_type_specification]
#[verifier::external_body]
pub struct ExDecodeError(prost::DecodeError);

/// The bytes of `value` as a variable-length integer: seven bits to a byte,
/// the least significant first, and the high bit set on every byte but the
/// last.
pub open spec fn varint_bytes(value: nat) -> Seq<u8>
    decreases value,
{
    if value < 0x80 {
        seq![value as u8]
    } else {
        seq![(value % 0x80 + 0x80) as u8] + varint_bytes(value / 0x80)
    }
}

/// The variable-length integer at the start of `bytes`, read with at most
/// `budget` bytes left to it: its value and how many bytes it takes. The last
/// byte of the budget may only hold what is left of 64 bits, that is 0 or 1.
pub open spec fn varint_scan(bytes: Seq<u8>, budget: nat) -> Option<(nat, nat)>
    decreases budget,
{
    if budget == 0 || bytes.len() == 0 {
        None
    } else if bytes[0] < 0x80 {
        if budget == 1 && bytes[0] >= 2 {
            None
        } else {
            Some((bytes[0] as nat, 1))
        }
    } else {
        match varint_scan(bytes.drop_first(), (budget - 1) as nat) {
            Some((high, len)) => Some(((bytes[0] - 0x80) as nat + 0x80 * high, len + 1)),
            None => None,
        }
    }
}

/// The variable-length integer at the start of `bytes`: at most ten bytes.
pub open spec fn parse_varint(bytes: Seq<u8>) -> Option<(nat, nat)> {
    varint_scan(bytes, 10)
}

/// The field key at the start of `bytes`: the field's tag, its wire type and
/// the length of the key. The key is a variable-length integer that fits 32
/// bits; its low three bits are the wire type, one of six, the rest the tag,
/// which is not zero.
pub open spec fn parse_key(bytes: Seq<u8>) -> Option<(u32, u8, nat)> {
    match parse_varint(bytes) {
        Some((key, len)) => if key <= u32::MAX && key % 8 <= 5 && key / 8 >= 1 {
            Some(((key / 8) as u32, (key % 8) as u8, len))
        } else {
            None
        },
        None => None,
    }
}

/// The wire type of a field that holds its length and then that many bytes.
pub const LENGTH_DELIMITED: u8 = 2;

/// The tag under which a struct's message holds the blobs of its fields.
pub const BODY_TAG: u32 = 1;

/// The length-delimited payload at the start of `bytes`, behind a key of wire
/// type `wire`: the payload and the bytes taken, length included.
pub open spec fn parse_length_delimited(wire: u8, bytes: Seq<u8>) -> Option<(Seq<u8>, nat)> {
    if wire != LENGTH_DELIMITED {
        None
    } else {
        match parse_varint(bytes) {
            Some((len, taken)) => if len <= bytes.len() - taken {
                Some((bytes.subrange(taken as int, (taken + len) as int), taken + len))
            } else {
                None
            },
            None => None,
        }
    }
}

/// How many bytes the value of a field takes that the message does not know,
/// behind a key of the given wire type and tag; none where the value is
/// malformed.
pub uninterp spec fn skipped_len(wire: u8, tag: u32, bytes: Seq<u8>) -> Option<nat>;

/// The blobs that the message in `bytes` holds under the body tag, in the
/// order in which they stand; none where the message is malformed. Fields
/// under other tags are passed over.
pub open spec fn parse_message(bytes: Seq<u8>) -> Option<Seq<Seq<u8>>>
    decreases bytes.len(),
{
    if bytes.len() == 0 {
        Some(Seq::empty())
    } else {
        match parse_key(bytes) {
            Some((tag, wire, key_len)) => {
                let value = bytes.skip(key_len as int);
                if key_len == 0 || key_len > bytes.len() {
                    None
                } else if tag == BODY_TAG {
                    match parse_length_delimited(wire, value) {
                        Some((blob, taken)) => if taken > value.len() {
                            None
                        } else {
                            match parse_message(value.skip(taken as int)) {
                                Some(blobs) => Some(seq![blob] + blobs),
                                None => None,
                            }
                        },
                        None => None,
                    }
                } else {
                    match skipped_len(wire, tag, value) {
                        Some(taken) => if taken > value.len() {
                            None
                        } else {
                            parse_message(value.skip(taken as int))
                        },
                        None => None,
                    }
                }
            },
            None => None,
        }
    }
}

/// What a list of blobs holds.
pub open spec fn blobs_model(blobs: Seq<Vec<u8>>) -> Seq<Seq<u8>> {
    Seq::new(blobs.len(), |i: int| blobs[i]@)
}

/// One blob as a field of the message: the key of the body tag with the
/// length-delimited wire type, the blob's length, the blob.
pub open spec fn field_bytes(blob: Seq<u8>) -> Seq<u8> {
    seq![0x0Au8] + varint_bytes(blob.len()) + blob
}

/// The message that holds `blobs` under the body tag, in order.
pub open spec fn message_bytes(blobs: Seq<Seq<u8>>) -> Seq<u8>
    decreases blobs.len(),
{
    if blobs.len() == 0 {
        Seq::empty()
    } else {
        field_bytes(blobs[0]) + message_bytes(blobs.drop_first())
    }
}

/// `prost::encoding::bytes::encode_repeated` with the body tag: appends each
/// blob in turn as a length-delimited field, that is the key byte `0x0A`, the
/// blob's length as a variable-length integer, and the blob.
#[verifier::external_body]
fn encode_body(blobs: &Vec<Vec<u8>>, buf: &mut Vec<u8>)
    ensures
        final(buf)@ == old(buf)@ + message_bytes(blobs_model(blobs@)),
{
    prost::encoding::bytes::encode_repeated(BODY_TAG, blobs.as_slice(), buf)
}

/// The message that holds `blobs`, one field for each.
pub fn encode_message(blobs: &Vec<Vec<u8>>) -> (message: Vec<u8>)
    ensures
        message@ == message_bytes(blobs_model(blobs@)),
{
    let mut message: Vec<u8> = Vec::new();
    encode_body(blobs, &mut message);
    message
}

/// `prost::encoding::decode_key` on a byte slice: reads a field key and
/// moves the slice past it, or fails where no well-formed key stands there.
/// The wire type is handed out as its number.
#[verifier::external_body]
fn decode_key(buf: &mut &[u8]) -> (r: Result<(u32, u8), prost::DecodeError>)
    ensures
        match parse_key(old(buf)@) {
            Some((tag, wire, len)) => r == Ok::<(u32, u8), prost::DecodeError>((tag, wire))
                && len <= old(buf)@.len() && final(buf)@ == old(buf)@.skip(len as int),
            None => r is Err,
        },
{
    let (tag, wire_type) = prost::encoding::decode_key(buf)?;
    Ok((tag, wire_type as u8))
}

/// `prost::encoding::bytes::merge_repeated` on a byte slice: behind a key of
/// the length-delimited wire type it reads a length and that many bytes,
/// pushes them onto `values` as one blob and moves the slice past them. It
/// fails on another wire type, on a malformed length and where fewer bytes
/// remain than the length says.
#[verifier::external_body]
fn merge_body_field(wire: u8, values: &mut Vec<Vec<u8>>, buf: &mut &[u8]) -> (r: Result<
    (),
    prost::DecodeError,
>)
    ensures
        match parse_length_delimited(wire, old(buf)@) {
            Some((blob, taken)) => r is Ok && blobs_model(final(values)@) == blobs_model(
                old(values)@,
            ).push(blob) && final(buf)@ == old(buf)@.skip(taken as int),
            None => r is Err,
        },
{
    let wire_type = prost::encoding::WireType::try_from(u64::from(wire))?;
    let ctx = prost::encoding::DecodeContext::default();
    prost::encoding::bytes::merge_repeated(wire_type, values, buf, ctx)
}

/// `prost::encoding::skip_field` on a byte slice: passes over the value of a
/// field and moves the slice past it, or fails where the value is malformed.
/// How far it moves is a matter of the wire format; the same bytes always give
/// the same answer.
#[verifier::external_body]
fn skip_field(wire: u8, tag: u32, buf: &mut &[u8]) -> (r: Result<(), prost::DecodeError>)
    requires
        wire <= 5,
    ensures
        match skipped_len(wire, tag, old(buf)@) {
            Some(taken) => r is Ok && taken <= old(buf)@.len() && final(buf)@ == old(buf)@.skip(
                taken as int,
            ),
            None => r is Err,
        },
{
    let wire_type = prost::encoding::WireType::try_from(u64::from(wire))?;
    let ctx = prost::encoding::DecodeContext::default();
    prost::encoding::skip_field(wire_type, tag, buf, ctx)
}

/// A variable-length integer takes at least one byte, no more than its
/// budget and no more than there are.
pub proof fn lemma_varint_scan_len(bytes: Seq<u8>, budget: nat)
    ensures
        varint_scan(bytes, budget) matches Some((_, len)) ==> 1 <= len <= budget && len
            <= bytes.len(),
    decreases budget,
{
    if budget > 0 && bytes.len() > 0 && bytes[0] >= 0x80 {
        lemma_varint_scan_len(bytes.drop_first(), (budget - 1) as nat);
    }
}

/// What the message in `bytes` holds, where `before` are the blobs of the
/// fields that stand in front of those bytes.
pub open spec fn parse_rest(before: Seq<Seq<u8>>, bytes: Seq<u8>) -> Option<Seq<Seq<u8>>> {
    match parse_message(bytes) {
        Some(blobs) => Some(before + blobs),
        None => None,
    }
}

/// What reading a part of the message gave, with the reason for a failure
/// left aside: a message is well formed or it is not.
pub fn refuse<T>(outcome: Result<T, prost::DecodeError>) -> (r: Result<T, ValueEncodingError>)
    ensures
        outcome matches Ok(part) ==> r == Ok::<T, ValueEncodingError>(part),
        outcome is Err ==> r == Err::<T, ValueEncodingError>(
            ValueEncodingError::InvalidStructEncoding,
        ),
{
    match outcome {
        Ok(part) => Ok(part),
        Err(_) => Err(ValueEncodingError::InvalidStructEncoding),
    }
}

/// Reads one field from the front of `cur`: a blob of the body is pushed onto
/// `body`, the value of any other field is passed over. It fails where the
/// field is malformed, and the message with it.
fn merge_field(body: &mut Vec<Vec<u8>>, cur: &mut &[u8]) -> (r: Result<(), ValueEncodingError>)
    requires
        old(cur)@.len() > 0,
    ensures
        match r {
            Ok(()) => final(cur)@.len() < old(cur)@.len() && parse_rest(
                blobs_model(final(body)@),
                final(cur)@,
            ) == parse_rest(blobs_model(old(body)@), old(cur)@),
            Err(e) => e == ValueEncodingError::InvalidStructEncoding && parse_message(old(cur)@)
                is None,
        },
{
    let ghost start = cur@;
    let ghost before = blobs_model(body@);
    let (tag, wire) = refuse(decode_key(cur))?;
    let ghost value = cur@;
    proof {
        lemma_varint_scan_len(start, 10);
    }
    if tag == BODY_TAG {
        refuse(merge_body_field(wire, body, cur))?;
    } else {
        refuse(skip_field(wire, tag, cur))?;
    }
    proof {
        if tag == BODY_TAG {
            let (blob, taken) = parse_length_delimited(wire, value).unwrap();
            let rest = parse_message(value.skip(taken as int));
            if rest is Some {
                assert(before + (seq![blob] + rest.unwrap()) =~= before.push(blob) + rest.unwrap());
            }
        }
    }
    Ok(())
}

/// Reads the message of a struct value: the blobs of its fields, in order.
pub fn decode_message(bytes: &[u8]) -> (r: Result<Vec<Vec<u8>>, ValueEncodingError>)
    ensures
        match parse_message(bytes@) {
            Some(blobs) => r matches Ok(body) && blobs_model(body@) == blobs,
            None => r == Err::<Vec<Vec<u8>>, ValueEncodingError>(
                ValueEncodingError::InvalidStructEncoding,
            ),
        },
{
    let mut cur = bytes;
    let mut body: Vec<Vec<u8>> = Vec::new();
    assert(blobs_model(body@) =~= Seq::<Seq<u8>>::empty());
    assert(Seq::<Seq<u8>>::empty() + parse_message(bytes@).unwrap() =~= parse_message(
        bytes@,
    ).unwrap());
    while remaining(&cur) > 0
        invariant
            parse_rest(blobs_model(body@), cur@) == parse_message(bytes@),
        decreases cur@.len(),
    {
        match merge_field(&mut body, &mut cur) {
            Ok(()) => {},
            Err(e) => {
                return Err(e);
            },
        }
    }
    assert(blobs_model(body@) + Seq::<Seq<u8>>::empty() =~= blobs_model(body@));
    Ok(body)
}

/// The least number that a variable-length integer of `budget` bytes cannot
/// hold, where the last byte of ten holds one bit.
pub open spec fn varint_limit(budget: nat) -> nat
    decreases budget,
{
    if budget <= 1 {
        2
    } else {
        0x80 * varint_limit((budget - 1) as nat)
    }
}

/// Ten bytes hold the numbers of 64 bits.
pub proof fn lemma_varint_limit_ten()
    ensures
        varint_limit(10) == 0x1_0000_0000_0000_0000,
{
    reveal_with_fuel(varint_limit, 10);
}

/// A number within the budget is read back from its bytes, whatever follows
/// them.
pub proof fn lemma_varint_scan_of_bytes(value: nat, rest: Seq<u8>, budget: nat)
    requires
        budget >= 1,
        value < varint_limit(budget),
    ensures
        varint_scan(varint_bytes(value) + rest, budget) == Some(
            (value, varint_bytes(value).len()),
        ),
    decreases value,
{
    let bytes = varint_bytes(value) + rest;
    if value < 0x80 {
        assert(bytes[0] == value as u8);
        if budget == 1 {
            assert(value < 2);
        }
    } else {
        let high = value / 0x80;
        assert(bytes[0] == (value % 0x80 + 0x80) as u8);
        assert(bytes.drop_first() =~= varint_bytes(high) + rest);
        assert(budget >= 2);
        lemma_varint_scan_of_bytes(high, rest, (budget - 1) as nat);
    }
}

/// A field of the body is read back from its bytes, whatever follows them.
pub proof fn lemma_parse_field(blob: Seq<u8>, rest: Seq<u8>)
    requires
        blob.len() <= u64::MAX,
    ensures
        parse_key(field_bytes(blob) + rest) == Some((BODY_TAG, LENGTH_DELIMITED, 1nat)),
        parse_length_delimited(LENGTH_DELIMITED, (field_bytes(blob) + rest).skip(1)) == Some(
            (blob, (field_bytes(blob).len() - 1) as nat),
        ),
        (field_bytes(blob) + rest).skip(field_bytes(blob).len() as int) == rest,
{
    let bytes = field_bytes(blob) + rest;
    assert(bytes[0] == 0x0Au8);
    reveal_with_fuel(varint_scan, 2);
    let value = bytes.skip(1);
    let len_bytes = varint_bytes(blob.len());
    assert(value =~= len_bytes + (blob + rest));
    lemma_varint_limit_ten();
    lemma_varint_scan_of_bytes(blob.len(), blob + rest, 10);
    assert(value.subrange(len_bytes.len() as int, (len_bytes.len() + blob.len()) as int) =~= blob);
    assert(bytes.skip(field_bytes(blob).len() as int) =~= rest);
}

/// The message of some blobs holds these blobs, in order.
pub proof fn lemma_parse_message_of_bytes(blobs: Seq<Seq<u8>>)
    requires
        forall|i: int| 0 <= i < blobs.len() ==> (#[trigger] blobs[i]).len() <= u64::MAX,
    ensures
        parse_message(message_bytes(blobs)) == Some(blobs),
    decreases blobs.len(),
{
    if blobs.len() > 0 {
        let rest = message_bytes(blobs.drop_first());
        let bytes = message_bytes(blobs);
        lemma_parse_field(blobs[0], rest);
        lemma_parse_message_of_bytes(blobs.drop_first());
        let value = bytes.skip(1);
        let taken = (field_bytes(blobs[0]).len() - 1) as nat;
        assert(value.skip(taken as int) =~= bytes.skip(field_bytes(blobs[0]).len() as int));
        assert(seq![blobs[0]] + blobs.drop_first() =~= blobs);
    } else {
        assert(blobs =~= Seq::<Seq<u8>>::empty());
    }
}

/// No blob is longer than the message that holds it.
pub proof fn lemma_message_bytes_len(blobs: Seq<Seq<u8>>, i: int)
    requires
        0 <= i < blobs.len(),
    ensures
        blobs[i].len() < message_bytes(blobs).len(),
    decreases blobs.len(),
{
    if i > 0 {
        lemma_message_bytes_len(blobs.drop_first(), i - 1);
    }
}

} // verus!
