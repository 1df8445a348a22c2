//! A functional request: one message to every ECU, and the responses of those that answer.
use vstd::prelude::*;

use super::frame::{single_capacity, single_frame_bytes};
use super::handler::{Dispatch, DispatchView, Endpoint, IsoTpHandler};
use super::mapper::IdMapper;
use super::receive::lemma_dispatch_well_formed;
use super::transfer::{EcuResponse, Reply, Transfer, TransferState};
use super::types::{
    clock_in_range,
    Action,
    ActionView,
    Event,
    IsoTpError,
    RxEvent,
    MAX_ECUS,
    N_AS_TIMEOUT,
    TIMEOUT_INTER_FRAME,
    TIMEOUT_TOTAL,
};
use crate::bounded::{
    payload_new,
    response_list,
    responses_new,
    responses_push,
    responses_slice,
    transfer_list,
    transfers_mut_slice,
    transfers_new,
    transfers_push,
    transfers_retain_live,
    transfers_retain_others,
    transfers_slice,
};
use crate::can::id::CanId;

verus! {

/// Where a functional request stands.
#[derive(Clone, Copy, Debug, PartialEq, Eq, Structural)]
pub enum CollectPhase {
    /// The request is on its way.
    Sending,
    /// Responses may come.
    Collecting,
    /// The answer to the First Frame of `id` is on its way; with `overflow` it refuses the message.
    Answering { id: CanId, overflow: bool },
}

/// A functional request and the responses so far.
#[derive(Debug)]
pub struct FunctionalExchange {
    pub responses: heapless::Vec<EcuResponse, 8>,
    pub states: heapless::Vec<TransferState, 8>,
    /// When the collection ends, in microseconds.
    pub deadline: u64,
    pub phase: CollectPhase,
}

/// A functional request and the responses so far, as sequences.
#[verifier::ext_equal]
pub struct Collection {
    pub responses: Seq<Reply>,
    pub states: Seq<Transfer>,
    pub deadline: u64,
    pub phase: CollectPhase,
}

/// The responses of a list as values.
pub open spec fn replies(v: heapless::Vec<EcuResponse, 8>) -> Seq<Reply> {
    response_list(v).map_values(|r: EcuResponse| r@)
}

/// The transfers of a list as values.
pub open spec fn transfers(v: heapless::Vec<TransferState, 8>) -> Seq<Transfer> {
    transfer_list(v).map_values(|s: TransferState| s@)
}

impl View for FunctionalExchange {
    type V = Collection;

    open spec fn view(&self) -> Collection {
        Collection {
            responses: replies(self.responses),
            states: transfers(self.states),
            deadline: self.deadline,
            phase: self.phase,
        }
    }
}

/// What a functional request came to.
#[derive(Debug)]
pub enum FunctionalStep {
    Next(Action),
    /// All responses that came.
    Complete(heapless::Vec<EcuResponse, 8>),
    Failed(IsoTpError),
}

/// What a functional request came to, as a value.
#[verifier::ext_equal]
pub enum FunctionalStepView {
    Next(ActionView),
    Complete(Seq<Reply>),
    Failed(IsoTpError),
}

impl View for FunctionalStep {
    type V = FunctionalStepView;

    open spec fn view(&self) -> FunctionalStepView {
        match self {
            FunctionalStep::Next(action) => FunctionalStepView::Next(action@),
            FunctionalStep::Complete(list) => FunctionalStepView::Complete(replies(*list)),
            FunctionalStep::Failed(e) => FunctionalStepView::Failed(*e),
        }
    }
}

/// A Flow Control that has to go out: where to, what, and whether it refuses the message.
#[derive(Clone, Copy, Debug)]
pub struct PendingAnswer {
    pub id: CanId,
    pub frame: [u8; 8],
    pub overflow: bool,
}

/// A Flow Control that has to go out, with the frame as a sequence.
#[verifier::ext_equal]
pub struct PendingView {
    pub id: CanId,
    pub frame: Seq<u8>,
    pub overflow: bool,
}

impl View for PendingAnswer {
    type V = PendingView;

    open spec fn view(&self) -> PendingView {
        PendingView { id: self.id, frame: self.frame@, overflow: self.overflow }
    }
}

/// The value of a pending answer, where there is one.
pub open spec fn pending_view(p: Option<PendingAnswer>) -> Option<PendingView> {
    match p {
        Some(answer) => Some(answer@),
        None => None,
    }
}

/// Index of the first transfer of `id`.
pub open spec fn position_of(states: Seq<Transfer>, id: CanId) -> Option<int>
    decreases states.len(),
{
    if states.len() == 0 {
        None
    } else {
        match position_of(states.drop_last(), id) {
            Some(i) => Some(i),
            None => if states.last().id == id {
                Some(states.len() - 1)
            } else {
                None
            },
        }
    }
}

/// No identifier has two transfers.
pub open spec fn distinct_ids(states: Seq<Transfer>) -> bool {
    forall|i: int, j: int| 0 <= i < j < states.len() ==> states[i].id != states[j].id
}

/// `timeout_us`, or what is left until `deadline` where that is less.
pub open spec fn capped(timeout_us: u64, deadline: u64, now: u64) -> u64 {
    if now >= deadline {
        0
    } else if deadline - now < timeout_us {
        (deadline - now) as u64
    } else {
        timeout_us
    }
}

impl Collection {
    /// An exchange whose request is on its way.
    pub open spec fn starting() -> Collection {
        Collection {
            responses: Seq::empty(),
            states: Seq::empty(),
            deadline: 0,
            phase: CollectPhase::Sending,
        }
    }

    /// Every transfer is well-formed and belongs to an identifier of its own; nothing holds more
    /// than its room.
    pub open spec fn well_formed(self) -> bool {
        &&& self.responses.len() <= MAX_ECUS
        &&& self.states.len() <= MAX_ECUS
        &&& distinct_ids(self.states)
        &&& forall|i: int|
            0 <= i < self.states.len() ==> (#[trigger] self.states[i]).well_formed()
                && self.states[i].id.valid()
    }

    /// No frame came later than `now`.
    pub open spec fn seen_by(self, now: u64) -> bool {
        forall|i: int| 0 <= i < self.states.len() ==> (#[trigger] self.states[i]).seen_by(now)
    }

    /// `event` is of the kind that the phase waits for, and its frame's identifier is valid.
    pub open spec fn expects(self, event: Event) -> bool {
        match self.phase {
            CollectPhase::Sending => event is Tx,
            CollectPhase::Collecting => event matches Event::Rx(rx) && (
            rx matches RxEvent::Frame { id, .. } ==> id.valid()),
            CollectPhase::Answering { .. } => event is Tx,
        }
    }

    /// Some transfer waits for more frames.
    pub open spec fn active(self) -> bool {
        exists|i: int| 0 <= i < self.states.len() && (#[trigger] self.states[i]).rx_dl > 0
    }

    /// The collection without the transfer of `id`.
    pub open spec fn without(self, id: CanId) -> Collection {
        Collection { states: self.states.filter(|t: Transfer| t.id != id), ..self }
    }

    /// A frame of `id` at `now`, which belongs to the transfer at `i`. A complete message becomes a
    /// response where there is room for one; a failed transfer is given up.
    pub open spec fn at<M: IdMapper>(
        self,
        endpoint: Endpoint<M>,
        i: int,
        id: CanId,
        data: Seq<u8>,
        now: u64,
    ) -> (Collection, Option<PendingView>) {
        let touched = Transfer { last_frame_at: Some(now), ..self.states[i] };
        let (t, outcome) = endpoint.dispatch(touched, id, data);
        let c = Collection { states: self.states.update(i, t), ..self };
        match outcome {
            DispatchView::Ignored => (c, None),
            DispatchView::Incomplete => (c, None),
            DispatchView::Failed(_) => (c.without(id), None),
            DispatchView::Answer { id: fc_id, frame, overflow } => (
                c,
                Some(PendingView { id: fc_id, frame, overflow }),
            ),
            DispatchView::Complete => (
                Collection {
                    states: self.states.update(i, t.emptied()),
                    responses: if self.responses.len() < MAX_ECUS {
                        self.responses.push(Reply { id, data: t.buffer })
                    } else {
                        self.responses
                    },
                    ..self
                },
                None,
            ),
        }
    }

    /// The collection without the transfers that have waited too long at `now`.
    pub open spec fn pruned(self, now: u64) -> Collection {
        Collection { states: self.states.filter(|t: Transfer| t.live(now)), ..self }
    }

    /// A frame of `id` at `now`. Frames of identifiers that are not collected change nothing.
    /// Transfers that have waited too long are given up first. A frame of a new identifier starts a
    /// transfer where there is room for one, and is dropped otherwise.
    pub open spec fn on_frame<M: IdMapper>(
        self,
        endpoint: Endpoint<M>,
        id: CanId,
        data: Seq<u8>,
        now: u64,
    ) -> (Collection, Option<PendingView>) {
        let c = self.pruned(now);
        if !endpoint.mapper.collects(id) {
            (self, None)
        } else {
            match position_of(c.states, id) {
                Some(i) => c.at(endpoint, i, id, data, now),
                None => if c.states.len() < MAX_ECUS {
                    Collection { states: c.states.push(Transfer::fresh(id)), ..c }.at(
                        endpoint,
                        c.states.len() as int,
                        id,
                        data,
                        now,
                    )
                } else {
                    (c, None)
                },
            }
        }
    }

    /// What the request came to: the responses, or a timeout where none came.
    pub open spec fn finished(self) -> FunctionalStepView {
        if self.responses.len() == 0 {
            FunctionalStepView::Failed(IsoTpError::TimeoutCr)
        } else {
            FunctionalStepView::Complete(self.responses)
        }
    }

    /// Goes on collecting until the deadline.
    pub open spec fn go_on(self, now: u64) -> FunctionalStepView {
        if now >= self.deadline {
            self.finished()
        } else {
            FunctionalStepView::Next(
                ActionView::Receive {
                    timeout_us: capped(TIMEOUT_INTER_FRAME, self.deadline, now),
                },
            )
        }
    }

    /// What is left of the exchange once it is over: the responses are handed out.
    pub open spec fn drained(self, step: FunctionalStepView) -> Collection {
        if step is Complete {
            Collection { responses: Seq::empty(), ..self }
        } else {
            self
        }
    }

    /// What `event` at `now` does to the exchange.
    pub open spec fn next<M: IdMapper>(self, endpoint: Endpoint<M>, event: Event, now: u64) -> (
        Collection,
        FunctionalStepView,
    ) {
        match (self.phase, event) {
            (CollectPhase::Sending, Event::Tx(tx)) => match tx.outcome() {
                Err(e) => (self, FunctionalStepView::Failed(e)),
                Ok(_) => (
                    Collection {
                        deadline: (now + TIMEOUT_TOTAL) as u64,
                        phase: CollectPhase::Collecting,
                        ..self
                    },
                    FunctionalStepView::Next(
                        ActionView::Receive { timeout_us: TIMEOUT_INTER_FRAME },
                    ),
                ),
            },
            (CollectPhase::Collecting, Event::Rx(RxEvent::Frame { id, data })) => {
                let (c, pending) = self.on_frame(endpoint, id, data@, now);
                match pending {
                    None => (c.drained(c.go_on(now)), c.go_on(now)),
                    Some(answer) => (
                        Collection {
                            phase: CollectPhase::Answering { id, overflow: answer.overflow },
                            ..c
                        },
                        FunctionalStepView::Next(
                            ActionView::Transmit {
                                id: answer.id,
                                frame: answer.frame,
                                timeout_us: capped(N_AS_TIMEOUT, c.deadline, now),
                            },
                        ),
                    ),
                }
            },
            (CollectPhase::Collecting, Event::Rx(_)) => {
                let step = if self.active() {
                    self.go_on(now)
                } else {
                    self.finished()
                };
                (self.drained(step), step)
            },
            (CollectPhase::Answering { id, overflow }, Event::Tx(tx)) => {
                let kept = Collection { phase: CollectPhase::Collecting, ..self };
                let c = if tx.outcome() is Err || overflow {
                    kept.without(id)
                } else {
                    kept
                };
                (c.drained(c.go_on(now)), c.go_on(now))
            },
            _ => (self, FunctionalStepView::Failed(IsoTpError::DriverError)),
        }
    }
}

/// Selecting before or after taking values comes to the same.
proof fn lemma_filter_values(
    s: Seq<TransferState>,
    p: spec_fn(TransferState) -> bool,
    q: spec_fn(Transfer) -> bool,
)
    requires
        forall|x: TransferState| #[trigger] p(x) == q(x@),
    ensures
        s.filter(p).map_values(|x: TransferState| x@) == s.map_values(
            |x: TransferState| x@,
        ).filter(q),
    decreases s.len(),
{
    reveal(Seq::filter);
    let f = |x: TransferState| x@;
    if s.len() > 0 {
        lemma_filter_values(s.drop_last(), p, q);
        assert(s.map_values(f).drop_last() == s.drop_last().map_values(f));
        assert(s.map_values(f).last() == s.last()@);
        if p(s.last()) {
            assert(s.drop_last().filter(p).push(s.last()).map_values(f)
                == s.drop_last().filter(p).map_values(f).push(s.last()@));
        }
    } else {
        assert(s.map_values(f) == Seq::<Transfer>::empty());
        assert(s.filter(p).map_values(f) == Seq::<Transfer>::empty());
    }
}

/// What a selection keeps was there, is selected, and keeps its identifiers distinct.
pub(crate) proof fn lemma_filter_keeps(s: Seq<Transfer>, q: spec_fn(Transfer) -> bool)
    ensures
        s.filter(q).len() <= s.len(),
        forall|i: int|
            0 <= i < s.filter(q).len() ==> s.contains(#[trigger] s.filter(q)[i]) && q(
                s.filter(q)[i],
            ),
        distinct_ids(s) ==> distinct_ids(s.filter(q)),
    decreases s.len(),
{
    reveal(Seq::filter);
    if s.len() > 0 {
        let rest = s.drop_last();
        lemma_filter_keeps(rest, q);
        let kept = rest.filter(q);
        assert forall|i: int| 0 <= i < s.filter(q).len() implies s.contains(
            #[trigger] s.filter(q)[i],
        ) && q(s.filter(q)[i]) by {
            if i < kept.len() {
                assert(rest.contains(kept[i]));
                let k = choose|k: int| 0 <= k < rest.len() && rest[k] == kept[i];
                assert(s[k] == kept[i]);
            } else {
                assert(s[s.len() - 1] == s.last());
            }
        }
        if distinct_ids(s) {
            assert forall|i: int, j: int| 0 <= i < j < s.filter(q).len() implies s.filter(q)[i].id
                != s.filter(q)[j].id by {
                assert(rest.contains(kept[i]));
                let k = choose|k: int| 0 <= k < rest.len() && rest[k] == kept[i];
                assert(s[k] == kept[i]);
                if j == kept.len() {
                    assert(s[s.len() - 1].id != s[k].id);
                }
            }
        }
    }
}

/// The position found is that of the first transfer of the identifier.
pub(crate) proof fn lemma_position(s: Seq<Transfer>, id: CanId)
    ensures
        match position_of(s, id) {
            Some(i) => {
                &&& 0 <= i < s.len()
                &&& s[i].id == id
                &&& forall|j: int| 0 <= j < i ==> (#[trigger] s[j]).id != id
            },
            None => forall|j: int| 0 <= j < s.len() ==> (#[trigger] s[j]).id != id,
        },
    decreases s.len(),
{
    if s.len() > 0 {
        let rest = s.drop_last();
        lemma_position(rest, id);
        assert forall|j: int| 0 <= j < rest.len() implies #[trigger] s[j] == rest[j] by {}
    }
}

/// A frame leaves the collection well-formed, and seen by its time.
pub proof fn lemma_frame_well_formed<M: IdMapper>(
    c: Collection,
    endpoint: Endpoint<M>,
    id: CanId,
    data: Seq<u8>,
    now: u64,
)
    requires
        c.well_formed(),
        c.seen_by(now),
        id.valid(),
    ensures
        c.on_frame(endpoint, id, data, now).0.well_formed(),
        c.on_frame(endpoint, id, data, now).0.seen_by(now),
        c.on_frame(endpoint, id, data, now).0.phase == c.phase,
        c.on_frame(endpoint, id, data, now).0.deadline == c.deadline,
{
    if endpoint.mapper.collects(id) {
        let p = c.pruned(now);
        lemma_filter_keeps(c.states, |t: Transfer| t.live(now));
        assert(p.well_formed() && p.seen_by(now)) by {
            assert forall|i: int| 0 <= i < p.states.len() implies (#[trigger] p.states[i]).well_formed()
                && p.states[i].id.valid() && p.states[i].seen_by(now) by {
                assert(c.states.contains(p.states[i]));
            }
        }
        lemma_position(p.states, id);
        match position_of(p.states, id) {
            Some(i) => {
                lemma_at_well_formed(p, endpoint, i, id, data, now);
            },
            None => {
                if p.states.len() < MAX_ECUS {
                    let q = Collection { states: p.states.push(Transfer::fresh(id)), ..p };
                    lemma_at_well_formed(q, endpoint, p.states.len() as int, id, data, now);
                }
            },
        }
    }
}

proof fn lemma_at_well_formed<M: IdMapper>(
    c: Collection,
    endpoint: Endpoint<M>,
    i: int,
    id: CanId,
    data: Seq<u8>,
    now: u64,
)
    requires
        c.well_formed(),
        c.seen_by(now),
        0 <= i < c.states.len(),
        c.states[i].id == id,
    ensures
        c.at(endpoint, i, id, data, now).0.well_formed(),
        c.at(endpoint, i, id, data, now).0.seen_by(now),
        c.at(endpoint, i, id, data, now).0.phase == c.phase,
        c.at(endpoint, i, id, data, now).0.deadline == c.deadline,
{
    let touched = Transfer { last_frame_at: Some(now), ..c.states[i] };
    lemma_dispatch_well_formed(endpoint, touched, id, data);
    let (t, outcome) = endpoint.dispatch(touched, id, data);
    if let DispatchView::Failed(_) = outcome {
        let updated = c.states.update(i, t);
        lemma_filter_keeps(updated, |t: Transfer| t.id != id);
        let kept = updated.filter(|t: Transfer| t.id != id);
        assert forall|k: int| 0 <= k < kept.len() implies (#[trigger] kept[k]).well_formed()
            && kept[k].id.valid() && kept[k].seen_by(now) by {
            assert(updated.contains(kept[k]));
            let m = choose|m: int| 0 <= m < updated.len() && updated[m] == kept[k];
            assert(m != i);
            assert(c.states[m] == kept[k]);
        }
    }
}

pub(crate) proof fn lemma_without_well_formed(c: Collection, id: CanId, now: u64)
    requires
        c.well_formed(),
        c.seen_by(now),
    ensures
        c.without(id).well_formed(),
        c.without(id).seen_by(now),
{
    lemma_filter_keeps(c.states, |t: Transfer| t.id != id);
    let kept = c.without(id).states;
    assert forall|k: int| 0 <= k < kept.len() implies (#[trigger] kept[k]).well_formed()
        && kept[k].id.valid() && kept[k].seen_by(now) by {
        assert(c.states.contains(kept[k]));
    }
}

/// Finds the transfer of `id`, or starts one where there is room. Returns its index.
pub fn find_or_insert_ecu_state(states: &mut heapless::Vec<TransferState, 8>, id: CanId) -> (r:
    Option<usize>)
    ensures
        match position_of(transfers(*old(states)), id) {
            Some(i) => {
                &&& r == Some(i as usize)
                &&& 0 <= i < transfers(*old(states)).len() <= 8
                &&& transfers(*old(states))[i].id == id
                &&& transfers(*final(states)) == transfers(*old(states))
            },
            None => if transfers(*old(states)).len() < MAX_ECUS {
                &&& r == Some(transfers(*old(states)).len() as usize)
                &&& transfers(*final(states)) == transfers(*old(states)).push(Transfer::fresh(id))
            } else {
                &&& r is None
                &&& transfers(*final(states)) == transfers(*old(states))
            },
        },
{
    proof {
        lemma_position(transfers(*states), id);
    }
    let list = transfers_slice(states);
    let len: usize = list.len();
    let mut i: usize = 0;
    while i < len
        invariant
            list@ == transfer_list(*states),
            list@.len() == len,
            len <= 8,
            i <= len,
            forall|j: int| 0 <= j < i ==> (#[trigger] transfers(*states)[j]).id != id,
            *states == *old(states),
            match position_of(transfers(*states), id) {
                Some(p) => {
                    &&& 0 <= p < len
                    &&& transfers(*states)[p].id == id
                    &&& forall|j: int| 0 <= j < p ==> (#[trigger] transfers(*states)[j]).id != id
                },
                None => forall|j: int| 0 <= j < len ==> (#[trigger] transfers(*states)[j]).id != id,
            },
        decreases len - i,
    {
        if list[i].id == id {
            assert(transfers(*states)[i as int].id == id);
            return Some(i);
        }
        i = i + 1;
    }
    match transfers_push(states, TransferState::new(id)) {
        Ok(()) => {
            assert(transfers(*states) == transfers(*old(states)).push(Transfer::fresh(id)));
            Some(len)
        },
        Err(_) => None,
    }
}

impl<D, M: IdMapper> IsoTpHandler<D, M> {
    /// Handles a frame that came during a collection. Returns the Flow Control that has to go out,
    /// where there is one.
    pub fn process_collection_frame(
        &self,
        exchange: &mut FunctionalExchange,
        id: CanId,
        data: &[u8],
        now: u64,
    ) -> (r: Option<PendingAnswer>)
        requires
            old(exchange)@.well_formed(),
            old(exchange)@.seen_by(now),
            id.valid(),
        ensures
            (final(exchange)@, pending_view(r)) == old(exchange)@.on_frame(
                self.endpoint(),
                id,
                data@,
                now,
            ),
            final(exchange)@.well_formed(),
            final(exchange)@.seen_by(now),
            r matches Some(answer) ==> answer.id.valid(),
    {
        proof {
            lemma_frame_well_formed(exchange@, self.endpoint(), id, data@, now);
        }
        if !self.mapper().is_valid_response_id(id) {
            return None;
        }
        proof {
            let live = |s: TransferState| s@.live(now);
            lemma_filter_values(
                transfer_list(exchange.states),
                live,
                |t: Transfer| t.live(now),
            );
            lemma_filter_keeps(exchange@.states, |t: Transfer| t.live(now));
            assert forall|i: int| 0 <= i < transfer_list(exchange.states).len() implies (
            #[trigger] transfer_list(exchange.states)[i])@.seen_by(now) by {
                assert(exchange@.states[i].seen_by(now));
            }
        }
        transfers_retain_live(&mut exchange.states, now);
        let ghost pruned = exchange@;
        assert(pruned == old(exchange)@.pruned(now));
        let found = find_or_insert_ecu_state(&mut exchange.states, id);
        let i: usize = match found {
            Some(i) => i,
            None => {
                return None;
            },
        };
        let ghost grown = exchange@;
        proof {
            lemma_position(pruned.states, id);
            assert(grown.states[i as int].id == id);
        }
        let ghost touched = Transfer { last_frame_at: Some(now), ..grown.states[i as int] };
        let ghost t = self.endpoint().dispatch(touched, id, data@).0;
        let outcome: Dispatch;
        let mut message = payload_new();
        {
            let list = transfers_mut_slice(&mut exchange.states);
            list[i].last_frame_at = Some(now);
            outcome = self.dispatch_frame(&mut list[i], id, data);
            match outcome {
                Dispatch::Complete => {
                    message = list[i].take_message();
                },
                _ => {},
            }
        }
        assert(exchange@.states == grown.states.update(
            i as int,
            if outcome is Complete {
                t.emptied()
            } else {
                t
            },
        ));
        match outcome {
            Dispatch::Complete => {
                let _ = responses_push(&mut exchange.responses, EcuResponse { id, data: message });
                assert(exchange@.responses == (if grown.responses.len() < MAX_ECUS {
                    grown.responses.push(Reply { id, data: t.buffer })
                } else {
                    grown.responses
                }));
                None
            },
            Dispatch::Ignored => None,
            Dispatch::Incomplete => None,
            Dispatch::Failed(_) => {
                proof {
                    let other = |s: TransferState| s@.id != id;
                    lemma_filter_values(
                        transfer_list(exchange.states),
                        other,
                        |t: Transfer| t.id != id,
                    );
                }
                transfers_retain_others(&mut exchange.states, id);
                None
            },
            Dispatch::Answer { id: fc_id, frame, overflow } => Some(
                PendingAnswer { id: fc_id, frame, overflow },
            ),
        }
    }
}

/// `timeout_us`, or what is left until `deadline` where that is less.
fn cap(timeout_us: u64, deadline: u64, now: u64) -> (r: u64)
    ensures
        r == capped(timeout_us, deadline, now),
{
    if now >= deadline {
        0
    } else if deadline - now < timeout_us {
        deadline - now
    } else {
        timeout_us
    }
}

impl FunctionalExchange {
    /// Whether some transfer waits for more frames.
    pub fn any_active(&self) -> (r: bool)
        ensures
            r == self@.active(),
    {
        let list = transfers_slice(&self.states);
        let mut i: usize = 0;
        while i < list.len()
            invariant
                list@ == transfer_list(self.states),
                i <= list@.len(),
                forall|j: int| 0 <= j < i ==> (#[trigger] self@.states[j]).rx_dl == 0,
            decreases list@.len() - i,
        {
            if list[i].rx_dl > 0 {
                assert(self@.states[i as int].rx_dl > 0);
                return true;
            }
            i = i + 1;
        }
        false
    }

    /// Ends the exchange: hands the responses out, or fails with `TimeoutCr` where none came.
    pub fn receive_functional_responses(&mut self) -> (step: FunctionalStep)
        ensures
            step@ == old(self)@.finished(),
            final(self)@ == old(self)@.drained(step@),
    {
        if responses_slice(&self.responses).len() == 0 {
            return FunctionalStep::Failed(IsoTpError::TimeoutCr);
        }
        let mut out = responses_new();
        core::mem::swap(&mut out, &mut self.responses);
        assert(replies(self.responses) == Seq::<Reply>::empty());
        FunctionalStep::Complete(out)
    }

    /// Goes on collecting until the deadline.
    fn go_on_collecting(&mut self, now: u64) -> (step: FunctionalStep)
        ensures
            step@ == old(self)@.go_on(now),
            final(self)@ == old(self)@.drained(step@),
    {
        if now >= self.deadline {
            return self.receive_functional_responses();
        }
        FunctionalStep::Next(
            Action::Receive { timeout_us: cap(TIMEOUT_INTER_FRAME, self.deadline, now) },
        )
    }
}

impl<D, M: IdMapper> IsoTpHandler<D, M> {
    /// Starts a functional request. Returns the exchange and its first action, or
    /// `BufferOverflow` for a request that does not fit a Single Frame.
    pub fn send_functional_request(&self, target_id: CanId, data: &[u8]) -> (r: Result<
        (FunctionalExchange, Action),
        IsoTpError,
    >)
        ensures
            match r {
                Ok((exchange, action)) => {
                    &&& data@.len() <= single_capacity(self.mode())
                    &&& exchange@ == Collection::starting()
                    &&& exchange@.well_formed()
                    &&& action@ == ActionView::Transmit {
                        id: target_id,
                        frame: single_frame_bytes(self.mode(), self.target(), data@),
                        timeout_us: N_AS_TIMEOUT,
                    }
                },
                Err(e) => {
                    &&& data@.len() > single_capacity(self.mode())
                    &&& e == IsoTpError::BufferOverflow
                },
            },
    {
        match self.send_single_frame(data) {
            Ok(frame) => {
                let exchange = FunctionalExchange {
                    responses: responses_new(),
                    states: transfers_new(),
                    deadline: 0,
                    phase: CollectPhase::Sending,
                };
                assert(exchange@ == Collection::starting());
                Ok((exchange, Action::Transmit { id: target_id, frame, timeout_us: N_AS_TIMEOUT }))
            },
            Err(e) => Err(e),
        }
    }

    /// Carries a functional request on with what happened to its last action.
    pub fn run_collection_loop(&self, exchange: &mut FunctionalExchange, event: Event, now: u64) -> (step:
        FunctionalStep)
        requires
            old(exchange)@.well_formed(),
            old(exchange)@.expects(event),
            old(exchange)@.seen_by(now),
            clock_in_range(now),
        ensures
            (final(exchange)@, step@) == old(exchange)@.next(self.endpoint(), event, now),
            final(exchange)@.well_formed(),
            final(exchange)@.seen_by(now),
    {
        match (exchange.phase, event) {
            (CollectPhase::Sending, Event::Tx(tx)) => match tx.result() {
                Err(e) => FunctionalStep::Failed(e),
                Ok(()) => {
                    exchange.deadline = now + TIMEOUT_TOTAL;
                    exchange.phase = CollectPhase::Collecting;
                    FunctionalStep::Next(Action::Receive { timeout_us: TIMEOUT_INTER_FRAME })
                },
            },
            (CollectPhase::Collecting, Event::Rx(RxEvent::Frame { id, data })) => {
                match self.process_collection_frame(exchange, id, data, now) {
                    None => exchange.go_on_collecting(now),
                    Some(answer) => {
                        exchange.phase = CollectPhase::Answering { id, overflow: answer.overflow };
                        FunctionalStep::Next(
                            Action::Transmit {
                                id: answer.id,
                                frame: answer.frame,
                                timeout_us: cap(N_AS_TIMEOUT, exchange.deadline, now),
                            },
                        )
                    },
                }
            },
            (CollectPhase::Collecting, Event::Rx(_)) => {
                if exchange.any_active() {
                    exchange.go_on_collecting(now)
                } else {
                    exchange.receive_functional_responses()
                }
            },
            (CollectPhase::Answering { id, overflow }, Event::Tx(tx)) => {
                exchange.phase = CollectPhase::Collecting;
                let failed = match tx.result() {
                    Ok(()) => overflow,
                    Err(_) => true,
                };
                if failed {
                    proof {
                        let other = |s: TransferState| s@.id != id;
                        lemma_filter_values(
                            transfer_list(exchange.states),
                            other,
                            |t: Transfer| t.id != id,
                        );
                        lemma_without_well_formed(exchange@, id, now);
                    }
                    transfers_retain_others(&mut exchange.states, id);
                }
                exchange.go_on_collecting(now)
            },
            _ => FunctionalStep::Failed(IsoTpError::DriverError),
        }
    }
}

} // verus!
