//! The fixed-capacity collections of `heapless`, as verified code sees them.
//!
//! A `heapless` value is opaque here. What it holds has a name for each element type and
//! capacity in use, and each function below calls one method of `heapless` and says what that
//! method does to the contents.
use vstd::prelude::*;

use crate::application::offline_service::{StoredEcuResponse, StoredPidSample};
use crate::can::dtc::ParsedEcuDtcs;
use crate::can::iso_tp::transfer::{EcuResponse, TransferState};

verus! {

/// `heapless::Vec`: a vector of at most `N` elements.
#[verifier::external_type_specification]
#[verifier::external_body]
#[verifier::reject_recursive_types(T)]
pub struct ExHeaplessVec<T, const N: usize>(heapless::Vec<T, N>);

/// The bytes of a message.
pub uninterp spec fn payload_bytes(v: heapless::Vec<u8, 256>) -> Seq<u8>;

/// `heapless::Vec::new`: an empty vector.
#[verifier::external_body]
pub(crate) fn payload_new() -> (v: heapless::Vec<u8, 256>)
    ensures
        payload_bytes(v) == Seq::<u8>::empty(),
{
    heapless::Vec::new()
}

/// `heapless::Vec::as_slice`: the contents in order, never more than the capacity.
#[verifier::external_body]
pub(crate) fn payload_slice(v: &heapless::Vec<u8, 256>) -> (s: &[u8])
    ensures
        s@ == payload_bytes(*v),
        s@.len() <= 256,
{
    v.as_slice()
}

/// `heapless::Vec::extend_from_slice`: appends all of `other` where it fits, and otherwise
/// changes nothing and fails.
#[verifier::external_body]
pub(crate) fn payload_extend(v: &mut heapless::Vec<u8, 256>, other: &[u8]) -> (r: Result<(), ()>)
    ensures
        r is Ok <==> payload_bytes(*old(v)).len() + other@.len() <= 256,
        payload_bytes(*final(v)) == (if r is Ok {
            payload_bytes(*old(v)) + other@
        } else {
            payload_bytes(*old(v))
        }),
{
    v.extend_from_slice(other)
}

/// `heapless::Vec::clear`: nothing is left.
#[verifier::external_body]
pub(crate) fn payload_clear(v: &mut heapless::Vec<u8, 256>)
    ensures
        payload_bytes(*final(v)) == Seq::<u8>::empty(),
{
    v.clear()
}

/// `heapless::Vec::from_slice`: a vector with the contents of `other` where they fit, and a failure
/// otherwise.
#[verifier::external_body]
pub(crate) fn payload_from_slice(other: &[u8]) -> (r: Result<heapless::Vec<u8, 256>, ()>)
    ensures
        r is Ok <==> other@.len() <= 256,
        r matches Ok(v) ==> payload_bytes(v) == other@,
{
    heapless::Vec::from_slice(other)
}

/// `heapless::Vec::clone`: another vector with the same contents.
#[verifier::external_body]
pub(crate) fn payload_clone(v: &heapless::Vec<u8, 256>) -> (copy: heapless::Vec<u8, 256>)
    ensures
        payload_bytes(copy) == payload_bytes(*v),
{
    v.clone()
}

/// The transfers of a functional collection, oldest first.
pub uninterp spec fn transfer_list(v: heapless::Vec<TransferState, 8>) -> Seq<TransferState>;

/// `heapless::Vec::new`: an empty vector.
#[verifier::external_body]
pub(crate) fn transfers_new() -> (v: heapless::Vec<TransferState, 8>)
    ensures
        transfer_list(v) == Seq::<TransferState>::empty(),
{
    heapless::Vec::new()
}

/// `heapless::Vec::as_slice`: the contents in order, never more than the capacity.
#[verifier::external_body]
pub(crate) fn transfers_slice(v: &heapless::Vec<TransferState, 8>) -> (s: &[TransferState])
    ensures
        s@ == transfer_list(*v),
        s@.len() <= 8,
{
    v.as_slice()
}

/// `heapless::Vec::as_mut_slice`: the contents in order; what is written to the slice is what
/// the vector holds afterwards.
#[verifier::external_body]
pub(crate) fn transfers_mut_slice(v: &mut heapless::Vec<TransferState, 8>) -> (s:
    &mut [TransferState])
    ensures
        s@ == transfer_list(*old(v)),
        final(s)@ == transfer_list(*final(v)),
{
    v.as_mut_slice()
}

/// `heapless::Vec::push`: appends `item` where there is room, and otherwise changes nothing and
/// hands the item back.
#[verifier::external_body]
pub(crate) fn transfers_push(v: &mut heapless::Vec<TransferState, 8>, item: TransferState) -> (r:
    Result<(), TransferState>)
    ensures
        r is Ok <==> transfer_list(*old(v)).len() < 8,
        r matches Err(back) ==> back == item,
        transfer_list(*final(v)) == (if r is Ok {
            transfer_list(*old(v)).push(item)
        } else {
            transfer_list(*old(v))
        }),
{
    v.push(item)
}

/// `heapless::Vec::retain` with [`TransferState::is_live`]: keeps the transfers that are live at
/// `now`, in their order.
#[verifier::external_body]
pub(crate) fn transfers_retain_live(v: &mut heapless::Vec<TransferState, 8>, now: u64)
    requires
        forall|i: int|
            0 <= i < transfer_list(*old(v)).len() ==> (#[trigger] transfer_list(*old(v))[i])@.seen_by(
                now,
            ),
    ensures
        transfer_list(*final(v)) == transfer_list(*old(v)).filter(
            |s: TransferState| s@.live(now),
        ),
{
    v.retain(|s| s.is_live(now))
}

/// `heapless::Vec::retain` with [`TransferState::is_other`]: keeps the transfers of every other
/// identifier, in their order.
#[verifier::external_body]
pub(crate) fn transfers_retain_others(
    v: &mut heapless::Vec<TransferState, 8>,
    id: crate::can::id::CanId,
)
    ensures
        transfer_list(*final(v)) == transfer_list(*old(v)).filter(|s: TransferState| s@.id != id),
{
    v.retain(|s| s.is_other(id))
}

/// The responses of a functional request, in order of arrival.
pub uninterp spec fn response_list(v: heapless::Vec<EcuResponse, 8>) -> Seq<EcuResponse>;

/// `heapless::Vec::new`: an empty vector.
#[verifier::external_body]
pub(crate) fn responses_new() -> (v: heapless::Vec<EcuResponse, 8>)
    ensures
        response_list(v) == Seq::<EcuResponse>::empty(),
{
    heapless::Vec::new()
}

/// `heapless::Vec::as_slice`: the contents in order, never more than the capacity.
#[verifier::external_body]
pub(crate) fn responses_slice(v: &heapless::Vec<EcuResponse, 8>) -> (s: &[EcuResponse])
    ensures
        s@ == response_list(*v),
        s@.len() <= 8,
{
    v.as_slice()
}

/// `heapless::Vec::push`: appends `item` where there is room, and otherwise changes nothing and
/// hands the item back.
#[verifier::external_body]
pub(crate) fn responses_push(v: &mut heapless::Vec<EcuResponse, 8>, item: EcuResponse) -> (r:
    Result<(), EcuResponse>)
    ensures
        r is Ok <==> response_list(*old(v)).len() < 8,
        r matches Err(back) ==> back == item,
        response_list(*final(v)) == (if r is Ok {
            response_list(*old(v)).push(item)
        } else {
            response_list(*old(v))
        }),
{
    v.push(item)
}

/// `heapless::String`: a text of at most `N` bytes.
#[verifier::external_type_specification]
#[verifier::external_body]
pub struct ExHeaplessString<const N: usize>(heapless::String<N>);

/// The characters of a trouble code.
pub uninterp spec fn code_text(s: heapless::String<5>) -> Seq<char>;

/// `heapless::String::new`: an empty text.
#[verifier::external_body]
pub(crate) fn code_new() -> (s: heapless::String<5>)
    ensures
        code_text(s) == Seq::<char>::empty(),
{
    heapless::String::new()
}

/// `heapless::String::push` of a character of one byte: appends it to a text of such characters
/// where there is room, and otherwise changes nothing and fails.
#[verifier::external_body]
pub(crate) fn code_push(s: &mut heapless::String<5>, c: char) -> (r: Result<(), ()>)
    requires
        (c as int) < 0x80,
        forall|i: int|
            0 <= i < code_text(*old(s)).len() ==> ((#[trigger] code_text(*old(s))[i]) as int)
                < 0x80,
    ensures
        r is Ok <==> code_text(*old(s)).len() < 5,
        code_text(*final(s)) == (if r is Ok {
            code_text(*old(s)).push(c)
        } else {
            code_text(*old(s))
        }),
{
    s.push(c)
}

/// The trouble codes of one ECU, in order.
pub uninterp spec fn code_list(v: heapless::Vec<heapless::String<5>, 32>) -> Seq<
    heapless::String<5>,
>;

/// `heapless::Vec::new`: an empty vector.
#[verifier::external_body]
pub(crate) fn codes_new() -> (v: heapless::Vec<heapless::String<5>, 32>)
    ensures
        code_list(v) == Seq::<heapless::String<5>>::empty(),
{
    heapless::Vec::new()
}

/// `heapless::Vec::push`: appends `item` where there is room, and otherwise changes nothing and
/// hands the item back.
#[verifier::external_body]
pub(crate) fn codes_push(
    v: &mut heapless::Vec<heapless::String<5>, 32>,
    item: heapless::String<5>,
) -> (r: Result<(), heapless::String<5>>)
    ensures
        r is Ok <==> code_list(*old(v)).len() < 32,
        r matches Err(back) ==> back == item,
        code_list(*final(v)) == (if r is Ok {
            code_list(*old(v)).push(item)
        } else {
            code_list(*old(v))
        }),
{
    v.push(item)
}

/// The trouble codes of several ECUs, in order.
pub uninterp spec fn parsed_list(v: heapless::Vec<ParsedEcuDtcs, 8>) -> Seq<ParsedEcuDtcs>;

/// `heapless::Vec::new`: an empty vector.
#[verifier::external_body]
pub(crate) fn parsed_new() -> (v: heapless::Vec<ParsedEcuDtcs, 8>)
    ensures
        parsed_list(v) == Seq::<ParsedEcuDtcs>::empty(),
{
    heapless::Vec::new()
}

/// `heapless::Vec::push`: appends `item` where there is room, and otherwise changes nothing and
/// hands the item back.
#[verifier::external_body]
pub(crate) fn parsed_push(v: &mut heapless::Vec<ParsedEcuDtcs, 8>, item: ParsedEcuDtcs) -> (r:
    Result<(), ParsedEcuDtcs>)
    ensures
        r is Ok <==> parsed_list(*old(v)).len() < 8,
        r matches Err(back) ==> back == item,
        parsed_list(*final(v)) == (if r is Ok {
            parsed_list(*old(v)).push(item)
        } else {
            parsed_list(*old(v))
        }),
{
    v.push(item)
}

/// The bytes of a frame's report.
pub uninterp spec fn raw_bytes(v: heapless::Vec<u8, 13>) -> Seq<u8>;

/// `heapless::Vec::new`: an empty vector.
#[verifier::external_body]
pub(crate) fn raw_new() -> (v: heapless::Vec<u8, 13>)
    ensures
        raw_bytes(v) == Seq::<u8>::empty(),
{
    heapless::Vec::new()
}

/// `heapless::Vec::extend_from_slice`: appends all of `other` where it fits, and otherwise
/// changes nothing and fails.
#[verifier::external_body]
pub(crate) fn raw_extend(v: &mut heapless::Vec<u8, 13>, other: &[u8]) -> (r: Result<(), ()>)
    ensures
        r is Ok <==> raw_bytes(*old(v)).len() + other@.len() <= 13,
        raw_bytes(*final(v)) == (if r is Ok {
            raw_bytes(*old(v)) + other@
        } else {
            raw_bytes(*old(v))
        }),
{
    v.extend_from_slice(other)
}

/// `heapless::Vec::push`: appends `item` where there is room, and otherwise changes nothing and
/// hands the item back.
#[verifier::external_body]
pub(crate) fn raw_push(v: &mut heapless::Vec<u8, 13>, item: u8) -> (r: Result<(), u8>)
    ensures
        r is Ok <==> raw_bytes(*old(v)).len() < 13,
        r matches Err(back) ==> back == item,
        raw_bytes(*final(v)) == (if r is Ok {
            raw_bytes(*old(v)).push(item)
        } else {
            raw_bytes(*old(v))
        }),
{
    v.push(item)
}

/// The kept responses for one parameter, in order.
pub uninterp spec fn stored_list(v: heapless::Vec<StoredEcuResponse, 8>) -> Seq<StoredEcuResponse>;

/// `heapless::Vec::new`: an empty vector.
#[verifier::external_body]
pub(crate) fn stored_new() -> (v: heapless::Vec<StoredEcuResponse, 8>)
    ensures
        stored_list(v) == Seq::<StoredEcuResponse>::empty(),
{
    heapless::Vec::new()
}

/// `heapless::Vec::push`: appends `item` where there is room, and otherwise changes nothing and
/// hands the item back.
#[verifier::external_body]
pub(crate) fn stored_push(v: &mut heapless::Vec<StoredEcuResponse, 8>, item: StoredEcuResponse) -> (r:
    Result<(), StoredEcuResponse>)
    ensures
        r is Ok <==> stored_list(*old(v)).len() < 8,
        r matches Err(back) ==> back == item,
        stored_list(*final(v)) == (if r is Ok {
            stored_list(*old(v)).push(item)
        } else {
            stored_list(*old(v))
        }),
{
    v.push(item)
}

/// The samples of a snapshot, in order.
pub uninterp spec fn sample_list(v: heapless::Vec<StoredPidSample, 8>) -> Seq<StoredPidSample>;

/// `heapless::Vec::new`: an empty vector.
#[verifier::external_body]
pub(crate) fn samples_new() -> (v: heapless::Vec<StoredPidSample, 8>)
    ensures
        sample_list(v) == Seq::<StoredPidSample>::empty(),
{
    heapless::Vec::new()
}

/// `heapless::Vec::push`: appends `item` where there is room, and otherwise changes nothing and
/// hands the item back.
#[verifier::external_body]
pub(crate) fn samples_push(v: &mut heapless::Vec<StoredPidSample, 8>, item: StoredPidSample) -> (r:
    Result<(), StoredPidSample>)
    ensures
        r is Ok <==> sample_list(*old(v)).len() < 8,
        r matches Err(back) ==> back == item,
        sample_list(*final(v)) == (if r is Ok {
            sample_list(*old(v)).push(item)
        } else {
            sample_list(*old(v))
        }),
{
    v.push(item)
}

/// The bytes of a radio packet.
pub uninterp spec fn packet_bytes(v: heapless::Vec<u8, 251>) -> Seq<u8>;

/// `heapless::Vec::new`: an empty vector.
#[verifier::external_body]
pub(crate) fn packet_new() -> (v: heapless::Vec<u8, 251>)
    ensures
        packet_bytes(v) == Seq::<u8>::empty(),
{
    heapless::Vec::new()
}

/// `heapless::Vec::as_slice`: the contents in order, never more than the capacity.
#[verifier::external_body]
pub(crate) fn packet_slice(v: &heapless::Vec<u8, 251>) -> (s: &[u8])
    ensures
        s@ == packet_bytes(*v),
        s@.len() <= 251,
{
    v.as_slice()
}

/// `heapless::Vec::extend_from_slice`: appends all of `other` where it fits, and otherwise
/// changes nothing and fails.
#[verifier::external_body]
pub(crate) fn packet_extend(v: &mut heapless::Vec<u8, 251>, other: &[u8]) -> (r: Result<(), ()>)
    ensures
        r is Ok <==> packet_bytes(*old(v)).len() + other@.len() <= 251,
        packet_bytes(*final(v)) == (if r is Ok {
            packet_bytes(*old(v)) + other@
        } else {
            packet_bytes(*old(v))
        }),
{
    v.extend_from_slice(other)
}

/// `heapless::Vec::clear`: nothing is left.
#[verifier::external_body]
pub(crate) fn packet_clear(v: &mut heapless::Vec<u8, 251>)
    ensures
        packet_bytes(*final(v)) == Seq::<u8>::empty(),
{
    v.clear()
}

} // verus!
