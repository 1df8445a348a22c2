//! Which identifier answers which.
use vstd::prelude::*;

use super::types::{AddressingMode, IsoTpError};
use crate::can::id::{CanId, STANDARD_ID_MAX};

verus! {

/// How request and response identifiers belong together.
///
/// Keeps the identifier rules of OBD-II and UDS out of the framing. Implement it for other
/// identifier assignments: the three specification functions say what the three methods return.
pub trait IdMapper {
    /// Requests that can be sent on `request_id`.
    spec fn accepts_request(&self, request_id: CanId) -> bool;

    /// The identifier that answers a request on `request_id`.
    spec fn response_id(&self, request_id: CanId) -> Result<CanId, IsoTpError>;

    /// The identifier on which Flow Control goes back to the sender of `response_id`.
    spec fn fc_sender_id(&self, response_id: CanId) -> Result<CanId, IsoTpError>;

    /// Frames on `id` are responses to collect.
    spec fn collects(&self, id: CanId) -> bool;

    /// The identifier on which the response to a request is expected.
    fn response_id_for_request(&self, request_id: CanId) -> (r: Result<CanId, IsoTpError>)
        requires
            request_id.valid(),
            self.accepts_request(request_id),
        ensures
            r == self.response_id(request_id),
            r matches Ok(id) ==> id.valid(),
    ;

    /// The identifier on which to send Flow Control to the sender of a First Frame.
    fn derive_fc_sender_id(&self, response_id: CanId) -> (r: Result<CanId, IsoTpError>)
        requires
            response_id.valid(),
        ensures
            r == self.fc_sender_id(response_id),
            r matches Ok(id) ==> id.valid(),
    ;

    /// Whether `id` is a response to collect.
    fn is_valid_response_id(&self, id: CanId) -> (r: bool)
        ensures
            r == self.collects(id),
    ;
}

/// A 29-bit identifier with its two low bytes, target and source address, exchanged.
pub open spec fn swapped_sa_ta(id: u32) -> u32 {
    (id / 0x1_0000 * 0x1_0000 + id % 0x100 * 0x100 + id / 0x100 % 0x100) as u32
}

/// The rules of OBD-II (SAE J1979 / ISO 15031-5) and of UDS on 29-bit identifiers.
///
/// 11-bit identifiers: a request on 0x7E0 to 0x7E7 is answered 8 higher.
/// 29-bit identifiers: 0x18DA_TA_SA is answered on 0x18DA_SA_TA.
#[derive(Debug)]
pub struct Obd2IdMapper {
    addressing: u8,
}

impl Obd2IdMapper {
    /// The addressing mode whose responses are collected.
    pub closed spec fn mode(&self) -> AddressingMode {
        AddressingMode::of_u8(self.addressing)
    }

    pub fn new(addressing: AddressingMode) -> (mapper: Obd2IdMapper)
        ensures
            mapper.mode() == addressing,
    {
        Obd2IdMapper { addressing: addressing.to_u8() }
    }

    /// Switches to 29-bit responses.
    pub fn to_extended_adr(&mut self)
        ensures
            final(self).mode() == AddressingMode::Extended,
    {
        self.addressing = AddressingMode::Extended.to_u8();
    }

    /// Switches to 11-bit responses.
    pub fn to_normal_addr(&mut self)
        ensures
            final(self).mode() == AddressingMode::Normal,
    {
        self.addressing = AddressingMode::Normal.to_u8();
    }

    /// The addressing mode whose responses are collected.
    pub fn addressing_mode(&self) -> (mode: AddressingMode)
        ensures
            mode == self.mode(),
    {
        AddressingMode::from_u8(self.addressing)
    }

    /// Exchanges the two low bytes, target and source address.
    pub fn swap_uds_sa_ta(id: u32) -> (swapped: u32)
        ensures
            swapped == swapped_sa_ta(id),
    {
        id / 0x1_0000 * 0x1_0000 + id % 0x100 * 0x100 + id / 0x100 % 0x100
    }
}

impl IdMapper for Obd2IdMapper {
    /// Eight more than an 11-bit request still has to be an 11-bit identifier.
    open spec fn accepts_request(&self, request_id: CanId) -> bool {
        request_id matches CanId::Standard(raw) ==> raw + 8 <= STANDARD_ID_MAX
    }

    open spec fn response_id(&self, request_id: CanId) -> Result<CanId, IsoTpError> {
        match request_id {
            CanId::Standard(raw) => Ok(CanId::Standard((raw + 8) as u16)),
            CanId::Extended(raw) => Ok(CanId::Extended(swapped_sa_ta(raw))),
        }
    }

    open spec fn fc_sender_id(&self, response_id: CanId) -> Result<CanId, IsoTpError> {
        match response_id {
            CanId::Standard(raw) => if raw < 8 {
                Err(IsoTpError::InvalidId)
            } else {
                Ok(CanId::Standard((raw - 8) as u16))
            },
            CanId::Extended(raw) => Ok(CanId::Extended(swapped_sa_ta(raw))),
        }
    }

    open spec fn collects(&self, id: CanId) -> bool {
        match (self.mode(), id) {
            (AddressingMode::Normal, CanId::Standard(raw)) => 0x7E8 <= raw <= 0x7EF,
            (AddressingMode::Extended, CanId::Extended(raw)) => raw / 0x1_0000 == 0x18DA,
            _ => false,
        }
    }

    fn response_id_for_request(&self, request_id: CanId) -> (r: Result<CanId, IsoTpError>) {
        let mapped = match request_id {
            CanId::Standard(raw) => CanId::standard(raw + 8),
            CanId::Extended(raw) => CanId::extended(Self::swap_uds_sa_ta(raw)),
        };
        match mapped {
            Some(id) => Ok(id),
            None => Err(IsoTpError::InvalidId),
        }
    }

    fn derive_fc_sender_id(&self, response_id: CanId) -> (r: Result<CanId, IsoTpError>) {
        let mapped = match response_id {
            CanId::Standard(raw) => {
                if raw < 8 {
                    return Err(IsoTpError::InvalidId);
                }
                CanId::standard(raw - 8)
            },
            CanId::Extended(raw) => CanId::extended(Self::swap_uds_sa_ta(raw)),
        };
        match mapped {
            Some(id) => Ok(id),
            None => Err(IsoTpError::InvalidId),
        }
    }

    fn is_valid_response_id(&self, id: CanId) -> (r: bool) {
        match (self.addressing_mode(), id) {
            (AddressingMode::Normal, CanId::Standard(raw)) => 0x7E8 <= raw && raw <= 0x7EF,
            (AddressingMode::Extended, CanId::Extended(raw)) => raw / 0x1_0000 == 0x18DA,
            _ => false,
        }
    }
}

/// Exchanging the two addresses twice gives the identifier back, and a 29-bit identifier stays
/// one.
pub proof fn law_swap_is_its_own_inverse(id: u32)
    ensures
        swapped_sa_ta(swapped_sa_ta(id)) == id,
        CanId::Extended(id).valid() <==> CanId::Extended(swapped_sa_ta(id)).valid(),
{
    let high = id as int / 0x1_0000;
    let target = id as int / 0x100 % 0x100;
    let source = id as int % 0x100;
    assert(id == high * 0x1_0000 + target * 0x100 + source);
    let swapped = swapped_sa_ta(id) as int;
    assert(swapped == high * 0x1_0000 + source * 0x100 + target);
    assert(swapped / 0x1_0000 == high);
    assert(swapped / 0x100 == high * 0x100 + source);
    assert(swapped / 0x100 % 0x100 == source);
    assert(swapped % 0x100 == target);
}

/// Flow Control for a response goes back on the identifier that the request went out on.
pub proof fn law_flow_control_returns_to_requester(mapper: Obd2IdMapper, request_id: CanId)
    requires
        request_id.valid(),
        mapper.accepts_request(request_id),
    ensures
        mapper.response_id(request_id) matches Ok(response_id) && response_id.valid()
            && mapper.fc_sender_id(response_id) == Ok::<CanId, IsoTpError>(request_id),
{
    if let CanId::Extended(raw) = request_id {
        law_swap_is_its_own_inverse(raw);
    }
}

/// Every answer to one of the eight physical OBD-II requests is collected in Normal mode, and
/// every answer to a UDS request in Extended mode.
pub proof fn law_answers_are_collected(mapper: Obd2IdMapper, request_id: CanId)
    requires
        match (mapper.mode(), request_id) {
            (AddressingMode::Normal, CanId::Standard(raw)) => 0x7E0 <= raw <= 0x7E7,
            (AddressingMode::Extended, CanId::Extended(raw)) => raw / 0x1_0000 == 0x18DA,
            _ => false,
        },
    ensures
        mapper.response_id(request_id) matches Ok(response_id) && mapper.collects(response_id),
{
}

/// A request on the 11-bit identifier n is answered on the 11-bit identifier n + 8, and can be
/// sent wherever that is one.
pub proof fn law_standard_answers_come_eight_higher(mapper: Obd2IdMapper, n: u16)
    ensures
        mapper.accepts_request(CanId::Standard(n)) <==> n + 8 <= 0x7FF,
        n + 8 <= 0x7FF ==> (mapper.response_id(CanId::Standard(n)) matches Ok(CanId::Standard(
            answer,
        )) && answer == n + 8),
{
}

/// Flow Control to the sender of the 11-bit identifier n goes to the 11-bit identifier n - 8;
/// below 8 there is none.
pub proof fn law_standard_flow_control_goes_eight_lower(mapper: Obd2IdMapper, n: u16)
    ensures
        n >= 8 ==> (mapper.fc_sender_id(CanId::Standard(n)) matches Ok(CanId::Standard(sender))
            && sender == n - 8),
        n < 8 ==> mapper.fc_sender_id(CanId::Standard(n)) == Err::<CanId, IsoTpError>(
            IsoTpError::InvalidId,
        ),
{
}

/// A 29-bit identifier of a prefix, a target and a source is answered on the one with the same
/// prefix and the two addresses exchanged, and Flow Control goes back the same way.
pub proof fn law_extended_answers_swap_the_addresses(
    mapper: Obd2IdMapper,
    prefix: u16,
    target: u8,
    source: u8,
)
    requires
        prefix <= 0x1FFF,
    ensures
        ({
            let request = (prefix * 0x1_0000 + target * 0x100 + source) as u32;
            let answer = (prefix * 0x1_0000 + source * 0x100 + target) as u32;
            &&& swapped_sa_ta(request) == answer
            &&& mapper.accepts_request(CanId::Extended(request))
            &&& mapper.response_id(CanId::Extended(request)) == Ok::<CanId, IsoTpError>(
                CanId::Extended(answer),
            )
            &&& mapper.fc_sender_id(CanId::Extended(request)) == Ok::<CanId, IsoTpError>(
                CanId::Extended(answer),
            )
        }),
{
    let request = prefix * 0x1_0000 + target * 0x100 + source;
    assert(request / 0x1_0000 == prefix);
    assert(request % 0x100 == source);
    assert(request / 0x100 == prefix * 0x100 + target);
    assert(request / 0x100 % 0x100 == target);
}

/// What is collected: 0x7E8 to 0x7EF in Normal mode, the identifiers of the form 0x18DAxxxx in
/// Extended mode, and nothing of the other kind.
pub proof fn law_collected_identifiers(mapper: Obd2IdMapper, standard: u16, extended: u32)
    ensures
        mapper.mode() == AddressingMode::Normal ==> {
            &&& mapper.collects(CanId::Standard(standard)) <==> 0x7E8 <= standard <= 0x7EF
            &&& !mapper.collects(CanId::Extended(extended))
        },
        mapper.mode() == AddressingMode::Extended ==> {
            &&& mapper.collects(CanId::Extended(extended)) <==> 0x18DA_0000 <= extended
                <= 0x18DA_FFFF
            &&& !mapper.collects(CanId::Standard(standard))
        },
{
}

} // verus!
