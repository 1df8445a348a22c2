//! The OBD-II services on top of ISO-TP.
use vstd::prelude::*;

use super::id::CanId;
use super::iso_tp::frame::single_frame_bytes;
use super::iso_tp::functional::{
    Collection,
    FunctionalExchange,
    FunctionalStep,
    FunctionalStepView,
};
use super::iso_tp::handler::{Endpoint, IsoTpHandler};
use super::iso_tp::mapper::{IdMapper, Obd2IdMapper};
use super::iso_tp::physical::{PhysicalExchange, PhysicalView};
use super::iso_tp::receive::{ReceiveStep, ReceiveStepView};
use super::iso_tp::transfer::Reply;
use super::iso_tp::types::{
    clock_in_range,
    Action,
    ActionView,
    AddressingMode,
    Event,
    IsoTpError,
    N_AS_TIMEOUT,
};
use super::iso_tp::wire_laws::law_single_frame_bytes;
use crate::bounded::{payload_bytes, payload_extend, payload_new, payload_slice};

verus! {

/// Functional requests on 11-bit identifiers.
pub const OBD_FUNC_REQ_STD: u32 = 0x7DF;

/// Functional requests on 29-bit identifiers.
pub const OBD_FUNC_REQ_EXT: u32 = 0x18DB_33F1;

/// Physical requests to the engine ECU.
pub const ECU_ENGINE_TX_ID: u32 = 0x7E0;

/// `automotive_diag::obd2::Obd2Command::Service01`: the byte of "show current data".
#[verifier::external_body]
fn service_current_data() -> (b: u8)
    ensures
        b == 0x01,
{
    automotive_diag::obd2::Obd2Command::Service01 as u8
}

/// `automotive_diag::obd2::Obd2Command::Service03`: the byte of "show stored trouble codes".
#[verifier::external_body]
fn service_stored_dtcs() -> (b: u8)
    ensures
        b == 0x03,
{
    automotive_diag::obd2::Obd2Command::Service03 as u8
}

/// `automotive_diag::obd2::Obd2Command::Service04`: the byte of "clear trouble codes".
#[verifier::external_body]
fn service_clear_dtcs() -> (b: u8)
    ensures
        b == 0x04,
{
    automotive_diag::obd2::Obd2Command::Service04 as u8
}

/// `automotive_diag::obd2::Obd2Command::Service09`: the byte of "vehicle information".
#[verifier::external_body]
fn service_vehicle_info() -> (b: u8)
    ensures
        b == 0x09,
{
    automotive_diag::obd2::Obd2Command::Service09 as u8
}

/// `automotive_diag::obd2::Service09Pid::Vin`: the byte of the vehicle identification number.
#[verifier::external_body]
fn vin_pid() -> (b: u8)
    ensures
        b == 0x02,
{
    automotive_diag::obd2::Service09Pid::Vin as u8
}

/// The identifier of functional requests.
pub open spec fn functional_id(mode: AddressingMode) -> CanId {
    match mode {
        AddressingMode::Normal => CanId::Standard(0x7DF),
        AddressingMode::Extended => CanId::Extended(0x18DB_33F1),
    }
}

/// The identifier that a number stands for: 29 bits in Extended mode, the low 16 bits of the
/// number otherwise.
pub open spec fn id_of(mode: AddressingMode, raw: u32) -> CanId {
    match mode {
        AddressingMode::Normal => CanId::Standard((raw % 0x1_0000) as u16),
        AddressingMode::Extended => CanId::Extended(raw),
    }
}

/// The vehicle identification number in a response: what follows the service, the parameter and
/// the count of items.
pub open spec fn vin_of(raw: Seq<u8>) -> Result<Seq<u8>, IsoTpError> {
    if raw.len() > 3 && raw[0] == 0x49 && raw[1] == 0x02 {
        Ok(raw.skip(3))
    } else {
        Err(IsoTpError::DriverError)
    }
}

/// What a step of a request for the identification number comes to, where the request ends with
/// `step`.
pub open spec fn vin_step(step: ReceiveStepView) -> ReceiveStepView {
    match step {
        ReceiveStepView::Complete(raw) => match vin_of(raw) {
            Ok(vin) => ReceiveStepView::Complete(vin),
            Err(e) => ReceiveStepView::Failed(e),
        },
        other => other,
    }
}

/// Reads the vehicle identification number from a response.
pub fn parse_vin(raw: &heapless::Vec<u8, 256>) -> (r: Result<heapless::Vec<u8, 256>, IsoTpError>)
    ensures
        match (r, vin_of(payload_bytes(*raw))) {
            (Ok(vin), Ok(expected)) => payload_bytes(vin) == expected,
            (Err(e1), Err(e2)) => e1 == e2,
            _ => false,
        },
{
    let mode: u8 = service_vehicle_info();
    let pid: u8 = vin_pid();
    let bytes = payload_slice(raw);
    if bytes.len() > 3 && bytes[0] == mode + 0x40 && bytes[1] == pid {
        let mut vin = payload_new();
        let rest = &bytes[3..bytes.len()];
        assert(rest@ == bytes@.skip(3));
        let _ = payload_extend(&mut vin, rest);
        assert(Seq::<u8>::empty() + rest@ == rest@);
        return Ok(vin);
    }
    Err(IsoTpError::DriverError)
}

/// What a request to clear the trouble codes came to.
#[derive(Debug)]
pub enum ClearStep {
    Next(Action),
    Cleared,
    Failed(IsoTpError),
}

/// What a request to clear the trouble codes came to, with the frame as a sequence.
#[verifier::ext_equal]
pub enum ClearStepView {
    Next(ActionView),
    Cleared,
    Failed(IsoTpError),
}

impl View for ClearStep {
    type V = ClearStepView;

    open spec fn view(&self) -> ClearStepView {
        match self {
            ClearStep::Next(action) => ClearStepView::Next(action@),
            ClearStep::Cleared => ClearStepView::Cleared,
            ClearStep::Failed(e) => ClearStepView::Failed(*e),
        }
    }
}

/// The responses to a request to clear are dropped: any response is success.
pub open spec fn clear_step(step: FunctionalStepView) -> ClearStepView {
    match step {
        FunctionalStepView::Next(action) => ClearStepView::Next(action),
        FunctionalStepView::Complete(_) => ClearStepView::Cleared,
        FunctionalStepView::Failed(e) => ClearStepView::Failed(e),
    }
}

/// The OBD-II services of the vehicle on an ISO-TP endpoint.
#[derive(Debug)]
pub struct Obd2Service<D> {
    tp: IsoTpHandler<D>,
}

impl<D> Obd2Service<D> {
    /// The ISO-TP endpoint.
    pub closed spec fn transport(&self) -> IsoTpHandler<D> {
        self.tp
    }

    /// The addressing mode.
    pub open spec fn mode(&self) -> AddressingMode {
        self.transport().mode()
    }

    /// What the endpoint knows to read and answer frames.
    pub open spec fn endpoint(&self) -> Endpoint<Obd2IdMapper> {
        self.transport().endpoint()
    }

    /// `exchange` and `action` are the start of a functional request of `request`.
    pub open spec fn starts_functional(
        &self,
        exchange: FunctionalExchange,
        action: Action,
        request: Seq<u8>,
    ) -> bool {
        &&& exchange@ == Collection::starting()
        &&& exchange@.well_formed()
        &&& action@ == ActionView::Transmit {
            id: functional_id(self.mode()),
            frame: single_frame_bytes(self.mode(), self.transport().target(), request),
            timeout_us: N_AS_TIMEOUT,
        }
    }

    pub fn new(tp: IsoTpHandler<D>) -> (s: Obd2Service<D>)
        ensures
            s.transport() == tp,
    {
        Obd2Service { tp }
    }

    /// The ISO-TP endpoint.
    pub fn tp(&self) -> (tp: &IsoTpHandler<D>)
        ensures
            *tp == self.transport(),
    {
        &self.tp
    }

    /// Switches to 29-bit addressing.
    pub fn to_extended_adr(&mut self, target_addr: u8)
        ensures
            final(self).transport().link() == old(self).transport().link(),
            final(self).mode() == AddressingMode::Extended,
            final(self).transport().target() == target_addr,
            final(self).transport().id_mapper().mode() == AddressingMode::Extended,
    {
        self.tp.to_extended_adr(target_addr);
    }

    /// Switches to 11-bit addressing. The target address is kept.
    pub fn to_normal_addr(&mut self)
        ensures
            final(self).transport().link() == old(self).transport().link(),
            final(self).mode() == AddressingMode::Normal,
            final(self).transport().target() == old(self).transport().target(),
            final(self).transport().id_mapper().mode() == AddressingMode::Normal,
    {
        self.tp.to_normal_addr();
    }

    /// The identifier of functional requests.
    pub fn get_functional_id(&self) -> (id: CanId)
        ensures
            id == functional_id(self.mode()),
            id.valid(),
    {
        if self.tp.is_extended_addressing() {
            CanId::extended(OBD_FUNC_REQ_EXT).unwrap()
        } else {
            CanId::standard(OBD_FUNC_REQ_STD as u16).unwrap()
        }
    }

    /// The identifier that a number stands for in the addressing mode.
    pub fn to_id(&self, raw: u32) -> (id: CanId)
        requires
            id_of(self.mode(), raw).valid(),
        ensures
            id == id_of(self.mode(), raw),
    {
        if self.tp.is_extended_addressing() {
            CanId::extended(raw).unwrap()
        } else {
            CanId::standard((raw % 0x1_0000) as u16).unwrap()
        }
    }

    /// Starts a request to all ECUs for the current value of `pid`.
    pub fn get_broadcast_livedata(&self, pid: u8) -> (r: Result<
        (FunctionalExchange, Action),
        IsoTpError,
    >)
        ensures
            r matches Ok((exchange, action)) && self.starts_functional(
                exchange,
                action,
                seq![0x01u8, pid],
            ),
    {
        let request = [service_current_data(), pid];
        assert(request@ == seq![0x01u8, pid]);
        self.tp.send_functional_request(self.get_functional_id(), &request)
    }

    /// Starts a request to all ECUs to clear their trouble codes.
    pub fn clear_dtcs(&self) -> (r: Result<(FunctionalExchange, Action), IsoTpError>)
        ensures
            r matches Ok((exchange, action)) && self.starts_functional(
                exchange,
                action,
                seq![0x04u8],
            ),
    {
        let request = [service_clear_dtcs()];
        assert(request@ == seq![0x04u8]);
        self.tp.send_functional_request(self.get_functional_id(), &request)
    }

    /// Starts a request to all ECUs for their stored trouble codes.
    pub fn get_stored_dtcs(&self) -> (r: Result<(FunctionalExchange, Action), IsoTpError>)
        ensures
            r matches Ok((exchange, action)) && self.starts_functional(
                exchange,
                action,
                seq![0x03u8],
            ),
    {
        let request = [service_stored_dtcs()];
        assert(request@ == seq![0x03u8]);
        self.tp.send_functional_request(self.get_functional_id(), &request)
    }

    /// Starts a request to the ECU `ecu_id` for the vehicle identification number.
    pub fn get_vin(&self, ecu_id: u32) -> (r: Result<(PhysicalExchange, Action), IsoTpError>)
        requires
            id_of(self.mode(), ecu_id).valid(),
            self.transport().id_mapper().accepts_request(id_of(self.mode(), ecu_id)),
        ensures
            match r {
                Ok((exchange, action)) => {
                    &&& exchange@ == (PhysicalView::Single {
                        resp_id: self.transport().id_mapper().response_id(
                            id_of(self.mode(), ecu_id),
                        )->Ok_0,
                    })
                    &&& exchange@.well_formed()
                    &&& action@ == ActionView::Transmit {
                        id: id_of(self.mode(), ecu_id),
                        frame: single_frame_bytes(
                            self.mode(),
                            self.transport().target(),
                            seq![0x09u8, 0x02u8],
                        ),
                        timeout_us: N_AS_TIMEOUT,
                    }
                },
                Err(_) => false,
            },
    {
        let request = [service_vehicle_info(), vin_pid()];
        assert(request@ == seq![0x09u8, 0x02u8]);
        self.tp.send_physical_request(self.to_id(ecu_id), &request)
    }

    /// Carries a request for current values or stored codes on with what happened to its last
    /// action.
    pub fn continue_functional(
        &self,
        exchange: &mut FunctionalExchange,
        event: Event,
        now: u64,
    ) -> (step: FunctionalStep)
        requires
            old(exchange)@.well_formed(),
            old(exchange)@.expects(event),
            old(exchange)@.seen_by(now),
            clock_in_range(now),
        ensures
            (final(exchange)@, step@) == old(exchange)@.next(self.endpoint(), event, now),
            final(exchange)@.well_formed(),
            final(exchange)@.seen_by(now),
    {
        self.tp.run_collection_loop(exchange, event, now)
    }

    /// Carries a request to clear the trouble codes on with what happened to its last action.
    pub fn continue_clear(&self, exchange: &mut FunctionalExchange, event: Event, now: u64) -> (step:
        ClearStep)
        requires
            old(exchange)@.well_formed(),
            old(exchange)@.expects(event),
            old(exchange)@.seen_by(now),
            clock_in_range(now),
        ensures
            final(exchange)@ == old(exchange)@.next(self.endpoint(), event, now).0,
            step@ == clear_step(old(exchange)@.next(self.endpoint(), event, now).1),
            final(exchange)@.well_formed(),
            final(exchange)@.seen_by(now),
    {
        match self.tp.run_collection_loop(exchange, event, now) {
            FunctionalStep::Next(action) => ClearStep::Next(action),
            FunctionalStep::Complete(_) => ClearStep::Cleared,
            FunctionalStep::Failed(e) => ClearStep::Failed(e),
        }
    }

    /// Carries a request for the identification number on with what happened to its last action.
    /// A response that holds no number fails with `DriverError`.
    pub fn continue_vin(&self, exchange: &mut PhysicalExchange, event: Event, now: u64) -> (step:
        ReceiveStep)
        requires
            old(exchange)@.well_formed(),
            old(exchange)@.expects(event),
            clock_in_range(now),
        ensures
            final(exchange)@ == old(exchange)@.next(self.endpoint(), event, now).0,
            step@ == vin_step(old(exchange)@.next(self.endpoint(), event, now).1),
            step is Next ==> final(exchange)@.well_formed(),
            step@ matches ReceiveStepView::Next(action) ==> forall|e: Event|
                #[trigger] action.answered_by(e) ==> final(exchange)@.expects(e),
    {
        match self.tp.continue_physical(exchange, event, now) {
            ReceiveStep::Complete(raw) => match parse_vin(&raw) {
                Ok(vin) => ReceiveStep::Complete(vin),
                Err(e) => ReceiveStep::Failed(e),
            },
            ReceiveStep::Next(action) => ReceiveStep::Next(action),
            ReceiveStep::Failed(e) => ReceiveStep::Failed(e),
        }
    }
}

/// A response of the service with a number of at least one byte gives that number back.
pub proof fn law_vin_is_read_back(count: u8, vin: Seq<u8>)
    requires
        vin.len() > 0,
    ensures
        vin_of(seq![0x49u8, 0x02u8, count] + vin) == Ok::<Seq<u8>, IsoTpError>(vin),
{
    assert((seq![0x49u8, 0x02u8, count] + vin).skip(3) == vin);
}

/// Every identifier of a functional request is valid, and no answer is expected on it.
pub proof fn law_functional_id_is_not_collected(mapper: Obd2IdMapper)
    ensures
        functional_id(mapper.mode()).valid(),
        !mapper.collects(functional_id(mapper.mode())),
{
}

/// Functional requests go out on 0x7DF in Normal mode, on 0x18DB33F1 in Extended mode.
pub proof fn law_functional_identifiers()
    ensures
        functional_id(AddressingMode::Normal) == CanId::Standard(0x7DF),
        functional_id(AddressingMode::Extended) == CanId::Extended(0x18DB_33F1),
{
}

/// The number of an ECU is its 11-bit identifier in Normal mode, its 29-bit one in Extended mode.
pub proof fn law_identifier_of_an_ecu(raw: u32)
    ensures
        raw <= 0x7FF ==> id_of(AddressingMode::Normal, raw) == CanId::Standard(raw as u16),
        raw <= 0x1FFF_FFFF ==> id_of(AddressingMode::Extended, raw) == CanId::Extended(raw),
{
}

/// The frame of a functional request: its length, then its bytes, sent within five seconds on the
/// functional identifier. No response and no transfer is there when it starts.
pub proof fn law_functional_request_on_the_bus<D>(
    service: Obd2Service<D>,
    exchange: FunctionalExchange,
    action: Action,
    request: Seq<u8>,
)
    requires
        1 <= request.len() <= 6,
        service.starts_functional(exchange, action, request),
    ensures
        ({
            let o = if service.mode() == AddressingMode::Normal {
                0int
            } else {
                1int
            };
            match action@ {
                ActionView::Transmit { id, frame, timeout_us } => {
                    &&& id == functional_id(service.mode())
                    &&& timeout_us == 5_000_000
                    &&& frame.len() == 8
                    &&& o == 1 ==> frame[0] == service.transport().target()
                    &&& frame[o] == request.len()
                    &&& forall|i: int|
                        0 <= i < request.len() ==> frame[o + 1 + i] == #[trigger] request[i]
                    &&& forall|i: int|
                        o + 1 + request.len() <= i < 8 ==> #[trigger] frame[i] == 0xCC
                },
                _ => false,
            }
        }),
        exchange@.responses.len() == 0,
        exchange@.states.len() == 0,
{
    law_single_frame_bytes(service.mode(), service.transport().target(), request);
}

/// A request to clear the trouble codes ends well whenever the collection under it completes, with
/// however many responses, and with nothing else. It fails where the collection fails, with its
/// error, and goes on where the collection goes on, with its action.
pub proof fn law_any_response_clears(
    endpoint: Endpoint<Obd2IdMapper>,
    collection: Collection,
    event: Event,
    now: u64,
    e: IsoTpError,
    action: ActionView,
)
    ensures
        ({
            let under = collection.next(endpoint, event, now).1;
            let over = clear_step(under);
            &&& over == ClearStepView::Cleared <==> under is Complete
            &&& over == ClearStepView::Failed(e) <==> under == FunctionalStepView::Failed(e)
            &&& over == ClearStepView::Next(action) <==> under == FunctionalStepView::Next(action)
        }),
{
}

/// Every completed collection clears, for each list of responses; every failed one fails with the
/// same error.
pub proof fn law_number_of_responses_does_not_matter(responses: Seq<Reply>, e: IsoTpError)
    ensures
        clear_step(FunctionalStepView::Complete(responses)) == ClearStepView::Cleared,
        clear_step(FunctionalStepView::Failed(e)) == ClearStepView::Failed(e),
{
}

/// A response holds a number where it begins with 0x49 0x02, a count and at least one byte more,
/// and only there: the number is then every byte from the fourth on. Any other is a `DriverError`.
pub proof fn law_numbers_in_responses(raw: Seq<u8>)
    ensures
        match vin_of(raw) {
            Ok(vin) => {
                &&& raw.len() > 3 && raw[0] == 0x49 && raw[1] == 0x02
                &&& vin.len() == raw.len() - 3
                &&& forall|i: int| 0 <= i < vin.len() ==> #[trigger] vin[i] == raw[i + 3]
            },
            Err(e) => {
                &&& raw.len() <= 3 || raw[0] != 0x49 || raw[1] != 0x02
                &&& e == IsoTpError::DriverError
            },
        },
{
}

/// A request for the number ends with the number of the response, fails where the response holds
/// none, and otherwise does what the exchange under it does.
pub proof fn law_vin_comes_from_the_response(
    raw: Seq<u8>,
    count: u8,
    vin: Seq<u8>,
    e: IsoTpError,
    action: ActionView,
)
    ensures
        vin.len() > 0 ==> vin_step(
            ReceiveStepView::Complete(seq![0x49u8, 0x02u8, count] + vin),
        ) == ReceiveStepView::Complete(vin),
        raw.len() <= 3 || raw[0] != 0x49 || raw[1] != 0x02 ==> vin_step(
            ReceiveStepView::Complete(raw),
        ) == ReceiveStepView::Failed(IsoTpError::DriverError),
        vin_step(ReceiveStepView::Failed(e)) == ReceiveStepView::Failed(e),
        vin_step(ReceiveStepView::Next(action)) == ReceiveStepView::Next(action),
{
    if vin.len() > 0 {
        law_vin_is_read_back(count, vin);
    }
}

/// The steps of a request to clear are what they hold.
pub proof fn law_values_of_clear_steps(action: Action, e: IsoTpError)
    ensures
        ClearStep::Next(action)@ == ClearStepView::Next(action@),
        ClearStep::Cleared@ == ClearStepView::Cleared,
        ClearStep::Failed(e)@ == ClearStepView::Failed(e),
{
}

} // verus!
