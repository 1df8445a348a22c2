//! Finding out which identifiers the vehicle answers on.
use vstd::prelude::*;

use super::config::{set_protocol, ProtocolConfig};
use super::id::CanId;
use super::iso_tp::handler::IsoTpHandler;

verus! {

/// Pause between two rounds of pings, in microseconds.
pub const DISCOVERY_PAUSE: u64 = 2_000_000;

/// Where a discovery stands.
#[derive(Clone, Copy, Debug, PartialEq, Eq, Structural)]
pub enum DiscoveryPhase {
    /// The ping on the 11-bit identifier is out.
    Standard,
    /// The ping on the 29-bit functional identifier is out.
    Extended,
    /// Nobody answered; the next round waits.
    Resting,
}

/// What a discovery asks for.
#[derive(Clone, Copy, Debug)]
pub enum DiscoveryAction {
    /// Send `request` on `id`, to every ECU where it is `functional`, and say whether a response
    /// came. Answered by [`DiscoveryEvent::Ping`].
    Ping { id: CanId, request: [u8; 2], functional: bool },
    /// Wait `duration_us`. Answered by [`DiscoveryEvent::Elapsed`].
    Pause { duration_us: u64 },
    /// The vehicle was found.
    Done,
}

/// What a discovery asks for, with the request as a sequence.
#[verifier::ext_equal]
pub enum DiscoveryActionView {
    Ping { id: CanId, request: Seq<u8>, functional: bool },
    Pause { duration_us: u64 },
    Done,
}

impl View for DiscoveryAction {
    type V = DiscoveryActionView;

    open spec fn view(&self) -> DiscoveryActionView {
        match self {
            DiscoveryAction::Ping { id, request, functional } => DiscoveryActionView::Ping {
                id: *id,
                request: request@,
                functional: *functional,
            },
            DiscoveryAction::Pause { duration_us } => DiscoveryActionView::Pause {
                duration_us: *duration_us,
            },
            DiscoveryAction::Done => DiscoveryActionView::Done,
        }
    }
}

/// What happened to the last thing that a discovery asked for.
#[derive(Clone, Copy, Debug, PartialEq, Eq, Structural)]
pub enum DiscoveryEvent {
    /// A ping ended, with a response or without.
    Ping { answered: bool },
    Elapsed,
}

impl DiscoveryPhase {
    /// `event` is of the kind that the phase waits for.
    pub open spec fn expects(self, event: DiscoveryEvent) -> bool {
        match self {
            DiscoveryPhase::Standard => event is Ping,
            DiscoveryPhase::Extended => event is Ping,
            DiscoveryPhase::Resting => event is Elapsed,
        }
    }

    /// What the phase asks for: a request for the supported parameters, or a pause.
    pub open spec fn action(self) -> DiscoveryActionView {
        match self {
            DiscoveryPhase::Standard => DiscoveryActionView::Ping {
                id: CanId::Standard(0x7E0),
                request: seq![0x01u8, 0x00u8],
                functional: false,
            },
            DiscoveryPhase::Extended => DiscoveryActionView::Ping {
                id: CanId::Extended(0x18DB_33F1),
                request: seq![0x01u8, 0x00u8],
                functional: true,
            },
            DiscoveryPhase::Resting => DiscoveryActionView::Pause { duration_us: DISCOVERY_PAUSE },
        }
    }

    /// The phase after `event`, or `None` where the vehicle was found.
    pub open spec fn next(self, event: DiscoveryEvent) -> Option<DiscoveryPhase> {
        match (self, event) {
            (DiscoveryPhase::Standard, DiscoveryEvent::Ping { answered }) => if answered {
                None
            } else {
                Some(DiscoveryPhase::Extended)
            },
            (DiscoveryPhase::Extended, DiscoveryEvent::Ping { answered }) => if answered {
                None
            } else {
                Some(DiscoveryPhase::Resting)
            },
            (DiscoveryPhase::Resting, DiscoveryEvent::Elapsed) => Some(DiscoveryPhase::Standard),
            _ => Some(self),
        }
    }

    /// What the phase asks for.
    pub fn request(self) -> (action: DiscoveryAction)
        ensures
            action@ == self.action(),
            action@ matches DiscoveryActionView::Ping { id, .. } ==> id.valid(),
    {
        let request = [0x01u8, 0x00u8];
        assert(request@ == seq![0x01u8, 0x00u8]);
        match self {
            DiscoveryPhase::Standard => DiscoveryAction::Ping {
                id: CanId::standard(0x7E0).unwrap(),
                request,
                functional: false,
            },
            DiscoveryPhase::Extended => DiscoveryAction::Ping {
                id: CanId::extended(0x18DB_33F1).unwrap(),
                request,
                functional: true,
            },
            DiscoveryPhase::Resting => DiscoveryAction::Pause { duration_us: DISCOVERY_PAUSE },
        }
    }
}

/// Pings the vehicle with both kinds of identifiers until it answers.
#[derive(Debug)]
pub struct DiscoveryService<D> {
    tp: IsoTpHandler<D>,
}

impl<D> DiscoveryService<D> {
    /// The ISO-TP endpoint.
    pub closed spec fn transport(&self) -> IsoTpHandler<D> {
        self.tp
    }

    pub fn new(tp: IsoTpHandler<D>) -> (s: DiscoveryService<D>)
        ensures
            s.transport() == tp,
    {
        DiscoveryService { tp }
    }

    /// The ISO-TP endpoint, over which the pings go.
    pub fn tp(&self) -> (tp: &IsoTpHandler<D>)
        ensures
            *tp == self.transport(),
    {
        &self.tp
    }

    /// Starts a discovery: the 11-bit identifier is pinged first.
    pub fn start_discovery(&self) -> (r: (DiscoveryPhase, DiscoveryAction))
        ensures
            r.0 == DiscoveryPhase::Standard,
            r.1@ == r.0.action(),
    {
        (DiscoveryPhase::Standard, DiscoveryPhase::Standard.request())
    }

    /// Carries a discovery on with what happened to its last action. The first answer settles the
    /// configuration, where it is not settled already, and ends the discovery.
    pub fn run_discovery(
        &self,
        phase: &mut DiscoveryPhase,
        event: DiscoveryEvent,
        config: &mut ProtocolConfig,
    ) -> (action: DiscoveryAction)
        requires
            old(phase).expects(event),
        ensures
            match old(phase).next(event) {
                Some(next) => {
                    &&& *final(phase) == next
                    &&& action@ == next.action()
                    &&& *final(config) == *old(config)
                },
                None => {
                    &&& *final(phase) == *old(phase)
                    &&& action@ == DiscoveryActionView::Done
                    &&& *final(config) == old(config).settled(*old(phase) is Extended)
                },
            },
    {
        match (*phase, event) {
            (DiscoveryPhase::Standard, DiscoveryEvent::Ping { answered }) => {
                if answered {
                    let _ = set_protocol(config, false);
                    return DiscoveryAction::Done;
                }
                *phase = DiscoveryPhase::Extended;
            },
            (DiscoveryPhase::Extended, DiscoveryEvent::Ping { answered }) => {
                if answered {
                    let _ = set_protocol(config, true);
                    return DiscoveryAction::Done;
                }
                *phase = DiscoveryPhase::Resting;
            },
            _ => {
                *phase = DiscoveryPhase::Standard;
            },
        }
        phase.request()
    }
}

/// The configuration once a discovery whose pings end as `answers` say is through with them, and
/// whether it has found the vehicle by then. Pauses need no answer.
pub open spec fn discovered(
    config: ProtocolConfig,
    phase: DiscoveryPhase,
    answers: Seq<bool>,
) -> (ProtocolConfig, bool)
    decreases answers.len(),
{
    if answers.len() == 0 {
        (config, false)
    } else {
        let pinging = if phase is Resting {
            DiscoveryPhase::Standard
        } else {
            phase
        };
        match pinging.next(DiscoveryEvent::Ping { answered: answers[0] }) {
            None => (config.settled(pinging is Extended), true),
            Some(next) => discovered(config, next, answers.skip(1)),
        }
    }
}

/// A discovery ends with the first ping that is answered. The pings take turns, 11-bit first, so
/// the place of that ping decides what is settled; nothing is settled before.
pub proof fn law_first_answer_decides(config: ProtocolConfig, answers: Seq<bool>, k: int)
    requires
        0 <= k <= answers.len(),
        forall|i: int| 0 <= i < k ==> !(#[trigger] answers[i]),
        k < answers.len() ==> answers[k],
    ensures
        discovered(config, DiscoveryPhase::Standard, answers) == (if k < answers.len() {
            (config.settled(k % 2 == 1), true)
        } else {
            (config, false)
        }),
{
    lemma_discovered(config, DiscoveryPhase::Standard, answers, k);
}

proof fn lemma_discovered(
    config: ProtocolConfig,
    phase: DiscoveryPhase,
    answers: Seq<bool>,
    k: int,
)
    requires
        0 <= k <= answers.len(),
        forall|i: int| 0 <= i < k ==> !(#[trigger] answers[i]),
        k < answers.len() ==> answers[k],
    ensures
        discovered(config, phase, answers) == (if k < answers.len() {
            (config.settled((k % 2 == 1) != (phase is Extended)), true)
        } else {
            (config, false)
        }),
    decreases answers.len(),
{
    if k > 0 {
        let next = if phase is Extended {
            DiscoveryPhase::Resting
        } else {
            DiscoveryPhase::Extended
        };
        assert(!answers[0]);
        assert forall|i: int| 0 <= i < k - 1 implies !(#[trigger] answers.skip(1)[i]) by {
            assert(!answers[i + 1]);
        }
        lemma_discovered(config, next, answers.skip(1), k - 1);
    }
}

/// The two pings ask for the supported parameters: on 0x7E0 to the engine, then on the 29-bit
/// functional identifier to every ECU. A round that nobody answers is followed by two seconds of
/// rest.
pub proof fn law_pings_of_a_round()
    ensures
        DiscoveryPhase::Standard.action() == (DiscoveryActionView::Ping {
            id: CanId::Standard(0x7E0),
            request: seq![0x01u8, 0x00u8],
            functional: false,
        }),
        DiscoveryPhase::Extended.action() == (DiscoveryActionView::Ping {
            id: CanId::Extended(0x18DB_33F1),
            request: seq![0x01u8, 0x00u8],
            functional: true,
        }),
        DiscoveryPhase::Resting.action() == (DiscoveryActionView::Pause {
            duration_us: 2_000_000,
        }),
{
}

/// An answered ping ends the discovery; without an answer the 29-bit ping follows the 11-bit one,
/// the rest follows the 29-bit ping, and the 11-bit ping follows the rest.
pub proof fn law_order_of_a_round(answered: bool)
    ensures
        ({
            let ping = DiscoveryEvent::Ping { answered };
            &&& answered ==> DiscoveryPhase::Standard.next(ping) is None
            &&& answered ==> DiscoveryPhase::Extended.next(ping) is None
            &&& !answered ==> DiscoveryPhase::Standard.next(ping) == Some(DiscoveryPhase::Extended)
            &&& !answered ==> DiscoveryPhase::Extended.next(ping) == Some(DiscoveryPhase::Resting)
            &&& DiscoveryPhase::Resting.next(DiscoveryEvent::Elapsed) == Some(
                DiscoveryPhase::Standard,
            )
        }),
{
}

/// What a discovery asks for is what its fields say.
pub proof fn law_values_of_discovery_actions(
    id: CanId,
    request: [u8; 2],
    functional: bool,
    duration_us: u64,
)
    ensures
        (DiscoveryAction::Ping { id, request, functional })@ == (DiscoveryActionView::Ping {
            id,
            request: request@,
            functional,
        }),
        (DiscoveryAction::Pause { duration_us })@ == (DiscoveryActionView::Pause { duration_us }),
        DiscoveryAction::Done@ == DiscoveryActionView::Done,
{
}

} // verus!
