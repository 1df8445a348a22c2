//! The life of the link to the client: advertise, accept, serve, and again.
use vstd::prelude::*;

verus! {

/// Pause after an advertisement that could not be started, in microseconds.
pub const ADVERTISE_PAUSE: u64 = 1_000_000;

/// Where the link stands.
#[derive(Clone, Copy, Debug, PartialEq, Eq, Structural)]
pub enum LinkPhase {
    /// An advertisement is being started.
    Advertising,
    /// A client may connect.
    Accepting,
    /// A client is connected.
    Serving,
    /// The last advertisement failed; the next one waits.
    Resting,
}

/// What the link asks for.
#[derive(Clone, Copy, Debug, PartialEq, Eq, Structural)]
pub enum LinkAction {
    /// Start an advertisement. Answered by [`LinkEvent::Advertised`].
    Advertise,
    /// Accept a client. Answered by [`LinkEvent::Accepted`].
    Accept,
    /// Serve the client until it is gone. Answered by [`LinkEvent::Closed`].
    Serve,
    /// Wait `duration_us`. Answered by [`LinkEvent::Elapsed`].
    Pause { duration_us: u64 },
}

/// What happened to the last thing that the link asked for.
#[derive(Clone, Copy, Debug, PartialEq, Eq, Structural)]
pub enum LinkEvent {
    Advertised { ok: bool },
    Accepted { ok: bool },
    /// The client is gone, for whatever reason.
    Closed,
    Elapsed,
}

impl LinkPhase {
    /// `event` is of the kind that the phase waits for.
    pub open spec fn expects(self, event: LinkEvent) -> bool {
        match self {
            LinkPhase::Advertising => event is Advertised,
            LinkPhase::Accepting => event is Accepted,
            LinkPhase::Serving => event is Closed,
            LinkPhase::Resting => event is Elapsed,
        }
    }

    /// What `event` does to the link. Every failure leads back to advertising; a failed
    /// advertisement after a pause.
    pub open spec fn next(self, event: LinkEvent) -> (LinkPhase, LinkAction) {
        match event {
            LinkEvent::Advertised { ok: true } => (LinkPhase::Accepting, LinkAction::Accept),
            LinkEvent::Advertised { ok: false } => (
                LinkPhase::Resting,
                LinkAction::Pause { duration_us: ADVERTISE_PAUSE },
            ),
            LinkEvent::Accepted { ok: true } => (LinkPhase::Serving, LinkAction::Serve),
            _ => (LinkPhase::Advertising, LinkAction::Advertise),
        }
    }

    /// Carries the link on with what happened to its last action. It starts in
    /// [`LinkPhase::Advertising`] and never ends.
    pub fn advance(&mut self, event: LinkEvent) -> (action: LinkAction)
        requires
            old(self).expects(event),
        ensures
            (*final(self), action) == old(self).next(event),
    {
        match event {
            LinkEvent::Advertised { ok } => {
                if ok {
                    *self = LinkPhase::Accepting;
                    LinkAction::Accept
                } else {
                    *self = LinkPhase::Resting;
                    LinkAction::Pause { duration_us: ADVERTISE_PAUSE }
                }
            },
            LinkEvent::Accepted { ok } => {
                if ok {
                    *self = LinkPhase::Serving;
                    LinkAction::Serve
                } else {
                    *self = LinkPhase::Advertising;
                    LinkAction::Advertise
                }
            },
            LinkEvent::Closed => {
                *self = LinkPhase::Advertising;
                LinkAction::Advertise
            },
            LinkEvent::Elapsed => {
                *self = LinkPhase::Advertising;
                LinkAction::Advertise
            },
        }
    }
}

/// The link's round: advertise, accept, serve. A failed advertisement is followed by a second of
/// rest; a client that was not accepted, one that is gone, and a rest by the next advertisement.
pub proof fn law_round_of_the_link()
    ensures
        LinkPhase::Advertising.next(LinkEvent::Advertised { ok: true }) == (
            LinkPhase::Accepting,
            LinkAction::Accept,
        ),
        LinkPhase::Advertising.next(LinkEvent::Advertised { ok: false }) == (
            LinkPhase::Resting,
            LinkAction::Pause { duration_us: 1_000_000 },
        ),
        LinkPhase::Accepting.next(LinkEvent::Accepted { ok: true }) == (
            LinkPhase::Serving,
            LinkAction::Serve,
        ),
        LinkPhase::Accepting.next(LinkEvent::Accepted { ok: false }) == (
            LinkPhase::Advertising,
            LinkAction::Advertise,
        ),
        LinkPhase::Serving.next(LinkEvent::Closed) == (
            LinkPhase::Advertising,
            LinkAction::Advertise,
        ),
        LinkPhase::Resting.next(LinkEvent::Elapsed) == (
            LinkPhase::Advertising,
            LinkAction::Advertise,
        ),
{
}

} // verus!
