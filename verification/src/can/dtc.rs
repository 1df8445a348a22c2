//! Trouble codes in the responses to a request for stored codes.
use vstd::prelude::*;

use super::id::can_id_to_u32;
use super::iso_tp::transfer::{EcuResponse, Reply};
use crate::bounded::{
    code_list,
    code_new,
    code_push,
    code_text,
    codes_new,
    codes_push,
    parsed_list,
    parsed_new,
    parsed_push,
    payload_slice,
};

verus! {

/// Codes that are kept of one ECU.
pub const MAX_CODES: usize = 32;

/// ECUs whose codes are kept.
pub const MAX_PARSED: usize = 8;

/// The first byte of a response to a request for stored codes.
pub const STORED_DTCS_RESPONSE: u8 = 0x43;

/// The trouble codes of one ECU.
#[derive(Debug)]
pub struct ParsedEcuDtcs {
    pub ecu_id: u32,
    pub dtcs: heapless::Vec<heapless::String<5>, 32>,
}

/// The trouble codes of one ECU as texts.
#[verifier::ext_equal]
pub struct EcuCodes {
    pub ecu_id: u32,
    pub dtcs: Seq<Seq<char>>,
}

/// The codes of a list as texts.
pub open spec fn code_texts(v: heapless::Vec<heapless::String<5>, 32>) -> Seq<Seq<char>> {
    code_list(v).map_values(|s: heapless::String<5>| code_text(s))
}

impl View for ParsedEcuDtcs {
    type V = EcuCodes;

    open spec fn view(&self) -> EcuCodes {
        EcuCodes { ecu_id: self.ecu_id, dtcs: code_texts(self.dtcs) }
    }
}

/// The hexadecimal digit of a number below 16, letters in upper case.
pub open spec fn hex_digit(n: int) -> char {
    if n < 10 {
        ('0' as int + n) as char
    } else {
        ('A' as int + (n - 10)) as char
    }
}

/// The letter of the system that a code belongs to, from the two high bits of its first byte:
/// powertrain, chassis, body or network.
pub open spec fn system_letter(b1: u8) -> char {
    if b1 / 64 == 0 {
        'P'
    } else if b1 / 64 == 1 {
        'C'
    } else if b1 / 64 == 2 {
        'B'
    } else {
        'U'
    }
}

/// The text of the trouble code in two bytes: the system's letter and four digits.
pub open spec fn dtc_text(b1: u8, b2: u8) -> Seq<char> {
    seq![
        system_letter(b1),
        hex_digit(b1 as int / 16 % 4),
        hex_digit(b1 as int % 16),
        hex_digit(b2 as int / 16),
        hex_digit(b2 as int % 16),
    ]
}

/// What holds the codes in a response: all of it, without the service's byte where it comes first.
pub open spec fn code_bytes(data: Seq<u8>) -> Seq<u8> {
    if data.len() > 0 && data[0] == STORED_DTCS_RESPONSE {
        data.skip(1)
    } else {
        data
    }
}

/// The bytes by twos. A byte left over at the end is dropped.
pub open spec fn pairs(s: Seq<u8>) -> Seq<(u8, u8)> {
    Seq::new(s.len() / 2, |i: int| (s[2 * i], s[2 * i + 1]))
}

/// At most the first `n` elements.
pub open spec fn first<A>(s: Seq<A>, n: int) -> Seq<A> {
    if s.len() <= n {
        s
    } else {
        s.take(n)
    }
}

/// The codes in a list of pairs. A pair of zeros is padding.
pub open spec fn texts(list: Seq<(u8, u8)>) -> Seq<Seq<char>> {
    list.filter(|p: (u8, u8)| p != (0u8, 0u8)).map_values(|p: (u8, u8)| dtc_text(p.0, p.1))
}

/// The codes in a response.
pub open spec fn payload_codes(data: Seq<u8>) -> Seq<Seq<char>> {
    first(texts(pairs(code_bytes(data))), MAX_CODES as int)
}

/// The codes of a response with the number of its sender.
pub open spec fn reply_codes(r: Reply) -> EcuCodes {
    EcuCodes { ecu_id: r.id.number(), dtcs: payload_codes(r.data) }
}

/// The codes of the responses, as far as there is room for them.
pub open spec fn all_codes(responses: Seq<Reply>) -> Seq<EcuCodes> {
    first(responses.map_values(|r: Reply| reply_codes(r)), MAX_PARSED as int)
}

/// One more pair adds its code, unless it is padding.
proof fn lemma_texts_push(list: Seq<(u8, u8)>, p: (u8, u8))
    ensures
        texts(list.push(p)) == (if p == (0u8, 0u8) {
            texts(list)
        } else {
            texts(list).push(dtc_text(p.0, p.1))
        }),
{
    reveal(Seq::filter);
    assert(list.push(p).drop_last() == list);
}

fn hex(n: u8) -> (c: char)
    requires
        n < 16,
    ensures
        c == hex_digit(n as int),
{
    if n < 10 {
        (0x30 + n) as char
    } else {
        (0x41 + (n - 10)) as char
    }
}

/// The text of the trouble code in two bytes.
pub fn parse_bytes(b1: u8, b2: u8) -> (dtc: heapless::String<5>)
    ensures
        code_text(dtc) == dtc_text(b1, b2),
{
    let mut dtc = code_new();
    let prefix = match b1 / 64 {
        0 => 'P',
        1 => 'C',
        2 => 'B',
        _ => 'U',
    };
    let d1: u8 = b1 / 16 % 4;
    let d2: u8 = b1 % 16;
    let d3: u8 = b2 / 16;
    let d4: u8 = b2 % 16;
    let _ = code_push(&mut dtc, prefix);
    let _ = code_push(&mut dtc, hex(d1));
    let _ = code_push(&mut dtc, hex(d2));
    let _ = code_push(&mut dtc, hex(d3));
    let _ = code_push(&mut dtc, hex(d4));
    assert(code_text(dtc) == dtc_text(b1, b2));
    dtc
}

/// Reads the trouble codes of one response. Codes beyond the room for them are dropped.
pub fn decode_payload(resp: &EcuResponse) -> (parsed: ParsedEcuDtcs)
    ensures
        parsed@ == reply_codes(resp@),
{
    let mut dtcs = codes_new();
    let data = payload_slice(&resp.data);
    let start_idx: usize = if data.len() > 0 && data[0] == STORED_DTCS_RESPONSE {
        1
    } else {
        0
    };
    let payload = &data[start_idx..data.len()];
    let ghost all = pairs(payload@);
    assert(payload@ == code_bytes(resp@.data));
    let count: usize = payload.len() / 2;
    let mut i: usize = 0;
    assert(code_texts(dtcs) == first(texts(all.take(0)), MAX_CODES as int)) by {
        reveal(Seq::filter);
        assert(code_texts(dtcs) == Seq::<Seq<char>>::empty());
        assert(texts(all.take(0)) == Seq::<Seq<char>>::empty());
    }
    while i < count
        invariant
            i <= count,
            count == payload@.len() / 2,
            payload@.len() <= 256,
            all == pairs(payload@),
            code_texts(dtcs) == first(texts(all.take(i as int)), MAX_CODES as int),
        decreases count - i,
    {
        let b1: u8 = payload[2 * i];
        let b2: u8 = payload[2 * i + 1];
        proof {
            lemma_texts_push(all.take(i as int), all[i as int]);
            assert(all.take(i as int).push(all[i as int]) == all.take(i + 1));
        }
        if !(b1 == 0 && b2 == 0) {
            let ghost before = code_texts(dtcs);
            let text = parse_bytes(b1, b2);
            let r = codes_push(&mut dtcs, text);
            assert(r is Ok ==> code_texts(dtcs) == before.push(dtc_text(b1, b2)));
            assert(r is Err ==> code_texts(dtcs) == before);
        }
        i = i + 1;
    }
    assert(all.take(count as int) == all);
    ParsedEcuDtcs { ecu_id: can_id_to_u32(resp.id), dtcs }
}

/// Reads the trouble codes of all responses. Responses beyond the room for them are dropped.
pub fn decode_responses(responses: &[EcuResponse]) -> (parsed: heapless::Vec<ParsedEcuDtcs, 8>)
    ensures
        parsed_list(parsed).map_values(|p: ParsedEcuDtcs| p@) == all_codes(
            responses@.map_values(|r: EcuResponse| r@),
        ),
{
    let mut parsed = parsed_new();
    let ghost f = |p: ParsedEcuDtcs| p@;
    let ghost all = responses@.map_values(|r: EcuResponse| r@);
    let mut i: usize = 0;
    assert(parsed_list(parsed).map_values(f) == all_codes(all.take(0)));
    while i < responses.len()
        invariant
            i <= responses@.len(),
            f == (|p: ParsedEcuDtcs| p@),
            all == responses@.map_values(|r: EcuResponse| r@),
            parsed_list(parsed).map_values(f) == all_codes(all.take(i as int)),
        decreases responses@.len() - i,
    {
        let ghost before = parsed_list(parsed).map_values(f);
        let one = decode_payload(&responses[i]);
        let r = parsed_push(&mut parsed, one);
        assert(r is Ok ==> parsed_list(parsed).map_values(f) == before.push(
            reply_codes(all[i as int]),
        ));
        proof {
            let g = |r: Reply| reply_codes(r);
            assert(all.take(i + 1).map_values(g) == all.take(i as int).map_values(g).push(
                reply_codes(all[i as int]),
            ));
        }
        assert(parsed_list(parsed).map_values(f) == all_codes(all.take(i + 1)));
        i = i + 1;
    }
    assert(all.take(responses@.len() as int) == all);
    parsed
}

/// Two byte pairs with the same text are the same pair.
pub proof fn law_codes_are_unambiguous(a1: u8, a2: u8, b1: u8, b2: u8)
    requires
        dtc_text(a1, a2) == dtc_text(b1, b2),
    ensures
        a1 == b1 && a2 == b2,
{
    let a = dtc_text(a1, a2);
    let b = dtc_text(b1, b2);
    assert(a[0] == b[0] && a[1] == b[1] && a[2] == b[2] && a[3] == b[3] && a[4] == b[4]);
}

/// Every code that is read has five characters.
pub proof fn law_codes_have_five_characters(data: Seq<u8>, i: int)
    requires
        0 <= i < payload_codes(data).len(),
    ensures
        payload_codes(data)[i].len() == 5,
{
}

/// A pair of zeros after whole pairs changes nothing.
pub proof fn law_padding_is_ignored(data: Seq<u8>)
    requires
        code_bytes(data).len() % 2 == 0,
    ensures
        payload_codes(data + seq![0u8, 0u8]) == payload_codes(data),
{
    let s = code_bytes(data);
    let padded = data + seq![0u8, 0u8];
    assert(code_bytes(padded) == s + seq![0u8, 0u8]);
    assert(pairs(s + seq![0u8, 0u8]) == pairs(s).push((0u8, 0u8)));
    lemma_texts_push(pairs(s), (0u8, 0u8));
}

/// The service's byte in front of the codes makes no difference.
pub proof fn law_service_byte_is_skipped(codes: Seq<u8>)
    requires
        codes.len() > 0 ==> codes[0] != STORED_DTCS_RESPONSE,
    ensures
        payload_codes(seq![STORED_DTCS_RESPONSE] + codes) == payload_codes(codes),
{
    assert((seq![STORED_DTCS_RESPONSE] + codes).skip(1) == codes);
}

/// A digit of a code is the character at its place in the sixteen hexadecimal digits, the letters
/// in upper case.
pub proof fn law_digits_are_hexadecimal(n: int)
    requires
        0 <= n < 16,
    ensures
        hex_digit(n) == "0123456789ABCDEF"@[n],
{
    reveal_strlit("0123456789ABCDEF");
}

/// The text of the code in two bytes, character by character: the letter of the system from the
/// two high bits of the first byte, then its next two bits, its low four bits, and the two halves
/// of the second byte as hexadecimal digits.
pub proof fn law_text_of_a_code(system: u8, d1: u8, d2: u8, d3: u8, d4: u8)
    requires
        system < 4,
        d1 < 4,
        d2 < 16,
        d3 < 16,
        d4 < 16,
    ensures
        ({
            let text = dtc_text((64 * system + 16 * d1 + d2) as u8, (16 * d3 + d4) as u8);
            &&& text.len() == 5
            &&& text[0] == "PCBU"@[system as int]
            &&& text[1] == "0123456789ABCDEF"@[d1 as int]
            &&& text[2] == "0123456789ABCDEF"@[d2 as int]
            &&& text[3] == "0123456789ABCDEF"@[d3 as int]
            &&& text[4] == "0123456789ABCDEF"@[d4 as int]
        }),
{
    reveal_strlit("PCBU");
    reveal_strlit("0123456789ABCDEF");
    let b1 = 64 * system + 16 * d1 + d2;
    let b2 = 16 * d3 + d4;
    assert(b1 / 64 == system && b1 / 16 % 4 == d1 && b1 % 16 == d2);
    assert(b2 / 16 == d3 && b2 % 16 == d4);
}

/// A response without bytes, or with the service's byte alone, holds no code.
pub proof fn law_no_bytes_no_codes()
    ensures
        payload_codes(Seq::<u8>::empty()).len() == 0,
        payload_codes(seq![0x43u8]).len() == 0,
{
    reveal(Seq::filter);
    assert(pairs(Seq::<u8>::empty()) == Seq::<(u8, u8)>::empty());
    assert(seq![0x43u8].skip(1) == Seq::<u8>::empty());
}

/// Two more bytes behind a service's byte and whole pairs add their code behind the codes before
/// them, unless both are zero or 32 codes are there already.
pub proof fn law_pair_adds_its_code(data: Seq<u8>, b1: u8, b2: u8)
    requires
        data.len() % 2 == 1,
        data[0] == 0x43,
    ensures
        payload_codes(data + seq![b1, b2]) == (if (b1 == 0 && b2 == 0) || payload_codes(data).len()
            >= 32 {
            payload_codes(data)
        } else {
            payload_codes(data).push(dtc_text(b1, b2))
        }),
        payload_codes(data).len() <= 32,
{
    let s = code_bytes(data);
    let more = data + seq![b1, b2];
    assert(code_bytes(more) == s + seq![b1, b2]);
    assert(pairs(s + seq![b1, b2]) == pairs(s).push((b1, b2)));
    lemma_texts_push(pairs(s), (b1, b2));
    let before = texts(pairs(s));
    let after = texts(pairs(s).push((b1, b2)));
    if before.len() < 32 {
        assert(first(before, 32) == before);
    } else {
        assert(first(after, 32) == first(before, 32));
    }
}

/// The same of a response that does not begin with the service's byte: its first byte belongs to
/// a code.
pub proof fn law_pair_adds_its_code_without_service(data: Seq<u8>, b1: u8, b2: u8)
    requires
        data.len() % 2 == 0,
        data.len() > 0 ==> data[0] != 0x43,
        data.len() == 0 ==> b1 != 0x43,
    ensures
        payload_codes(data + seq![b1, b2]) == (if (b1 == 0 && b2 == 0) || payload_codes(data).len()
            >= 32 {
            payload_codes(data)
        } else {
            payload_codes(data).push(dtc_text(b1, b2))
        }),
{
    let more = data + seq![b1, b2];
    assert(more[0] == (if data.len() > 0 {
        data[0]
    } else {
        b1
    }));
    assert(pairs(more) == pairs(data).push((b1, b2)));
    lemma_texts_push(pairs(data), (b1, b2));
    let before = texts(pairs(data));
    let after = texts(pairs(data).push((b1, b2)));
    if before.len() < 32 {
        assert(first(before, 32) == before);
    } else {
        assert(first(after, 32) == first(before, 32));
    }
}

/// A single byte behind whole pairs is dropped.
pub proof fn law_odd_byte_is_dropped(data: Seq<u8>, b: u8)
    requires
        data.len() > 0,
        data.len() % 2 == (if data[0] == 0x43 {
            1int
        } else {
            0int
        }),
    ensures
        payload_codes(data.push(b)) == payload_codes(data),
{
    let s = code_bytes(data);
    assert(data.push(b)[0] == data[0]);
    assert(code_bytes(data.push(b)) == s.push(b));
    assert(pairs(s.push(b)) == pairs(s));
}

/// Of the responses the first eight are read, in their order: each gives the number of its sender
/// and the codes of its own bytes.
pub proof fn law_every_response_is_read(responses: Seq<Reply>, i: int)
    requires
        0 <= i < responses.len(),
        i < 8,
    ensures
        all_codes(responses).len() == (if responses.len() < 8 {
            responses.len()
        } else {
            8
        }),
        all_codes(responses)[i].ecu_id == responses[i].id.number(),
        all_codes(responses)[i].dtcs == payload_codes(responses[i].data),
{
}

/// The codes of an ECU are what they hold: its number, and the text of each code in its place.
pub proof fn law_values_of_codes(parsed: ParsedEcuDtcs, i: int)
    ensures
        parsed@.ecu_id == parsed.ecu_id,
        parsed@.dtcs.len() == code_list(parsed.dtcs).len(),
        0 <= i < parsed@.dtcs.len() ==> parsed@.dtcs[i] == code_text(code_list(parsed.dtcs)[i]),
{
}

} // verus!
