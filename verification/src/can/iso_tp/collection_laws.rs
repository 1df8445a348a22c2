//! Laws of a functional collection: what every frame keeps, and what arrives.
use vstd::prelude::*;

use super::functional::{
    lemma_filter_keeps,
    lemma_frame_well_formed,
    lemma_position,
    lemma_without_well_formed,
    position_of,
    CollectPhase,
    Collection,
    FunctionalStepView,
    PendingView,
};
use super::frame::{single_capacity, single_frame_bytes};
use super::handler::{DispatchView, Endpoint};
use super::laws::{law_single_frame_round_trip, lemma_reassembled, reassembled, segments};
use super::mapper::IdMapper;
use super::receive::lemma_dispatch_well_formed;
use super::transfer::{Reply, Transfer};
use super::types::{
    clock_in_range,
    ActionView,
    Event,
    IsoTpError,
    RxEvent,
    TxEvent,
    MAX_ECUS,
    MAX_RECEIVE_LEN,
    N_CR_TIMEOUT,
};
use crate::can::id::CanId;

verus! {

/// Frames of identifiers that are not collected change nothing of a collection.
pub proof fn law_uncollected_frames_change_nothing<M: IdMapper>(
    c: Collection,
    endpoint: Endpoint<M>,
    id: CanId,
    data: Seq<u8>,
    now: u64,
)
    requires
        !endpoint.mapper.collects(id),
    ensures
        c.on_frame(endpoint, id, data, now) == (c, None::<PendingView>),
{
}

/// A frame adds at most one response, at the end, and only one of its own sender; the responses
/// before it stay.
pub proof fn law_responses_only_grow<M: IdMapper>(
    c: Collection,
    endpoint: Endpoint<M>,
    id: CanId,
    data: Seq<u8>,
    now: u64,
)
    requires
        c.well_formed(),
    ensures
        ({
            let after = c.on_frame(endpoint, id, data, now).0.responses;
            after == c.responses || (after.drop_last() == c.responses && after.len()
                == c.responses.len() + 1 && after.last().id == id && endpoint.mapper.collects(id))
        }),
{
    let after = c.on_frame(endpoint, id, data, now).0.responses;
    if after.len() > c.responses.len() {
        assert(after.drop_last() == c.responses);
    }
}

/// The transfer of another sender is left alone by a frame: it stays as it is while it is live,
/// and is given up otherwise.
pub proof fn law_transfers_do_not_mix<M: IdMapper>(
    c: Collection,
    endpoint: Endpoint<M>,
    id: CanId,
    data: Seq<u8>,
    now: u64,
    other: Transfer,
)
    requires
        c.well_formed(),
        c.seen_by(now),
        id.valid(),
        endpoint.mapper.collects(id),
        other.id != id,
    ensures
        c.on_frame(endpoint, id, data, now).0.states.contains(other) <==> c.states.contains(other)
            && other.live(now),
{
    let p = c.pruned(now);
    let live = |t: Transfer| t.live(now);
    lemma_filter_keeps(c.states, live);
    lemma_filter_contains_iff(c.states, live, other);
    lemma_position(p.states, id);
    match position_of(p.states, id) {
        Some(i) => {
            lemma_at_leaves_others(p, endpoint, i, id, data, now, other);
        },
        None => {
            if p.states.len() < MAX_ECUS {
                let q = Collection { states: p.states.push(Transfer::fresh(id)), ..p };
                assert(q.states.contains(other) <==> p.states.contains(other)) by {
                    if p.states.contains(other) {
                        let k = choose|k: int| 0 <= k < p.states.len() && p.states[k] == other;
                        assert(q.states[k] == other);
                    }
                    if q.states.contains(other) {
                        let k = choose|k: int| 0 <= k < q.states.len() && q.states[k] == other;
                        assert(p.states[k] == other);
                    }
                }
                assert(q.states[p.states.len() as int] == Transfer::fresh(id));
                assert(q.well_formed()) by {
                    assert forall|i: int| 0 <= i < p.states.len() implies (
                    #[trigger] p.states[i]).well_formed() && p.states[i].id.valid() by {
                        assert(c.states.contains(p.states[i]));
                    }
                }
                lemma_at_leaves_others(q, endpoint, p.states.len() as int, id, data, now, other);
            }
        },
    }
}

/// An element is selected if and only if it was there and the selection holds of it.
proof fn lemma_filter_contains_iff(
    s: Seq<Transfer>,
    q: spec_fn(Transfer) -> bool,
    t: Transfer,
)
    ensures
        s.filter(q).contains(t) <==> s.contains(t) && q(t),
{
    lemma_filter_keeps(s, q);
    if s.contains(t) && q(t) {
        let k = choose|k: int| 0 <= k < s.len() && s[k] == t;
        s.lemma_filter_contains(q, k);
    }
    if s.filter(q).contains(t) {
        let k = choose|k: int| 0 <= k < s.filter(q).len() && s.filter(q)[k] == t;
        assert(s.contains(s.filter(q)[k]));
    }
}

proof fn lemma_at_leaves_others<M: IdMapper>(
    c: Collection,
    endpoint: Endpoint<M>,
    i: int,
    id: CanId,
    data: Seq<u8>,
    now: u64,
    other: Transfer,
)
    requires
        0 <= i < c.states.len(),
        c.states[i].id == id,
        c.states[i].well_formed(),
        other.id != id,
    ensures
        c.at(endpoint, i, id, data, now).0.states.contains(other) <==> c.states.contains(other),
{
    let touched = Transfer { last_frame_at: Some(now), ..c.states[i] };
    lemma_dispatch_well_formed(endpoint, touched, id, data);
    let (t, outcome) = endpoint.dispatch(touched, id, data);
    lemma_update_leaves_others(c.states, i, t, other);
    lemma_update_leaves_others(c.states, i, t.emptied(), other);
    lemma_filter_contains_iff(c.states.update(i, t), |t: Transfer| t.id != id, other);
}

proof fn lemma_update_leaves_others(s: Seq<Transfer>, i: int, t: Transfer, other: Transfer)
    requires
        0 <= i < s.len(),
        s[i].id == t.id,
        other.id != t.id,
    ensures
        s.update(i, t).contains(other) <==> s.contains(other),
{
    let u = s.update(i, t);
    if s.contains(other) {
        let k = choose|k: int| 0 <= k < s.len() && s[k] == other;
        assert(u[k] == other);
    }
    if u.contains(other) {
        let k = choose|k: int| 0 <= k < u.len() && u[k] == other;
        assert(s[k] == other);
    }
}

/// While responses are collected, no wait and no answer is given more time than is left of the
/// collection.
pub proof fn law_collection_keeps_its_deadline<M: IdMapper>(
    c: Collection,
    endpoint: Endpoint<M>,
    event: Event,
    now: u64,
)
    requires
        !(c.phase is Sending),
        now <= c.deadline,
    ensures
        match c.next(endpoint, event, now).1 {
            FunctionalStepView::Next(ActionView::Receive { timeout_us }) => now + timeout_us
                <= c.deadline,
            FunctionalStepView::Next(ActionView::Transmit { timeout_us, .. }) => now + timeout_us
                <= c.deadline,
            FunctionalStepView::Next(ActionView::Pause { .. }) => false,
            _ => true,
        },
        c.next(endpoint, event, now).0.deadline == c.deadline,
{
}

/// A collection whose time is up listens no further: it ends, at the latest after an answer that
/// is given no time.
pub proof fn law_collection_ends_at_its_deadline<M: IdMapper>(
    c: Collection,
    endpoint: Endpoint<M>,
    event: Event,
    now: u64,
)
    requires
        !(c.phase is Sending),
        now >= c.deadline,
    ensures
        match c.next(endpoint, event, now).1 {
            FunctionalStepView::Next(action) => {
                &&& action matches ActionView::Transmit { timeout_us, .. } && timeout_us == 0
                &&& c.phase is Collecting
                &&& c.next(endpoint, event, now).0.phase is Answering
            },
            _ => true,
        },
{
}

/// A functional request that ends well brings at least one response, and no more than there is
/// room for.
pub proof fn law_functional_success_has_responses<M: IdMapper>(
    c: Collection,
    endpoint: Endpoint<M>,
    event: Event,
    now: u64,
)
    requires
        c.well_formed(),
    ensures
        match c.next(endpoint, event, now).1 {
            FunctionalStepView::Complete(list) => 1 <= list.len() <= MAX_ECUS,
            _ => true,
        },
{
}

/// A collection and what its last event came to, once the first `n` of `inputs` have happened.
pub open spec fn collection_after<M: IdMapper>(
    c: Collection,
    endpoint: Endpoint<M>,
    inputs: Seq<(Event, u64)>,
    n: int,
) -> (Collection, FunctionalStepView)
    decreases n,
{
    if n <= 0 {
        (c, FunctionalStepView::Next(ActionView::Receive { timeout_us: 0 }))
    } else {
        collection_after(c, endpoint, inputs, n - 1).0.next(
            endpoint,
            inputs[n - 1].0,
            inputs[n - 1].1,
        )
    }
}

/// The frames of `id` among the first `n` of `inputs`.
pub open spec fn frames_from(inputs: Seq<(Event, u64)>, id: CanId, n: int) -> Seq<Seq<u8>>
    decreases n,
{
    if n <= 0 {
        Seq::empty()
    } else {
        let before = frames_from(inputs, id, n - 1);
        match inputs[n - 1].0 {
            Event::Rx(RxEvent::Frame { id: from, data }) => if from == id {
                before.push(data@)
            } else {
                before
            },
            _ => before,
        }
    }
}

/// The answer to a First Frame of `id` is on its way.
pub open spec fn answers(phase: CollectPhase, id: CanId) -> bool {
    match phase {
        CollectPhase::Answering { id: asked, .. } => asked == id,
        _ => false,
    }
}

/// Two transfers that have come equally far.
pub open spec fn same_progress(a: Transfer, b: Transfer) -> bool {
    Transfer { last_frame_at: None, ..a } == Transfer { last_frame_at: None, ..b }
}

/// The list holds the reply, or had no room for it.
pub open spec fn held(list: Seq<Reply>, reply: Reply) -> bool {
    list.contains(reply) || list.len() >= MAX_ECUS
}

/// What a frame does to a transfer does not depend on when the last one came.
proof fn lemma_dispatch_ignores_time<M: IdMapper>(
    endpoint: Endpoint<M>,
    a: Transfer,
    b: Transfer,
    id: CanId,
    data: Seq<u8>,
)
    requires
        same_progress(a, b),
    ensures
        same_progress(endpoint.dispatch(a, id, data).0, endpoint.dispatch(b, id, data).0),
        endpoint.dispatch(a, id, data).0.buffer == endpoint.dispatch(b, id, data).0.buffer,
        endpoint.dispatch(a, id, data).1 == endpoint.dispatch(b, id, data).1,
{
    let a0 = Transfer { last_frame_at: None, ..a };
    let b0 = Transfer { last_frame_at: None, ..b };
    assert(a0 == b0);
    assert(a.id == a0.id && a.rx_dl == a0.rx_dl && a.next_sn == a0.next_sn && a.buffer
        == a0.buffer);
    assert(b.id == b0.id && b.rx_dl == b0.rx_dl && b.next_sn == b0.next_sn && b.buffer
        == b0.buffer);
}

/// A live transfer survives every event but a frame of its own sender and the end of the answer
/// to it.
pub proof fn law_live_transfer_is_kept<M: IdMapper>(
    c: Collection,
    endpoint: Endpoint<M>,
    event: Event,
    now: u64,
    t: Transfer,
)
    requires
        c.well_formed(),
        c.seen_by(now),
        c.expects(event),
        !(c.phase is Sending),
        c.states.contains(t),
        t.live(now),
        event matches Event::Rx(RxEvent::Frame { id, .. }) ==> id != t.id,
        c.phase matches CollectPhase::Answering { id, .. } ==> id != t.id,
    ensures
        c.next(endpoint, event, now).0.states.contains(t),
{
    match c.phase {
        CollectPhase::Collecting => {
            if let Event::Rx(RxEvent::Frame { id, data }) = event {
                if endpoint.mapper.collects(id) {
                    law_transfers_do_not_mix(c, endpoint, id, data@, now, t);
                }
            }
        },
        CollectPhase::Answering { id, .. } => {
            lemma_filter_contains_iff(c.states, |u: Transfer| u.id != id, t);
        },
        CollectPhase::Sending => {},
    }
}

/// An event leaves a collection that goes on well-formed.
proof fn lemma_next_well_formed<M: IdMapper>(
    c: Collection,
    endpoint: Endpoint<M>,
    event: Event,
    now: u64,
)
    requires
        c.well_formed(),
        c.seen_by(now),
        c.expects(event),
    ensures
        c.next(endpoint, event, now).0.well_formed(),
        c.next(endpoint, event, now).0.seen_by(now),
{
    match c.phase {
        CollectPhase::Collecting => {
            if let Event::Rx(RxEvent::Frame { id, data }) = event {
                lemma_frame_well_formed(c, endpoint, id, data@, now);
            }
        },
        CollectPhase::Answering { id, .. } => {
            let kept = Collection { phase: CollectPhase::Collecting, ..c };
            lemma_without_well_formed(kept, id, now);
        },
        CollectPhase::Sending => {},
    }
}

/// No event takes a response away from a collection that goes on; one that ends hands all of them
/// out.
pub proof fn law_responses_are_kept<M: IdMapper>(
    c: Collection,
    endpoint: Endpoint<M>,
    event: Event,
    now: u64,
    reply: Reply,
)
    requires
        c.well_formed(),
        c.expects(event),
        !(c.phase is Sending),
        held(c.responses, reply),
    ensures
        arrived(
            c.next(endpoint, event, now).0,
            c.next(endpoint, event, now).1,
            reply,
        ),
{
    if let Event::Rx(RxEvent::Frame { id, data }) = event {
        if c.phase is Collecting {
            law_responses_only_grow(c, endpoint, id, data@, now);
            let after = c.on_frame(endpoint, id, data@, now).0.responses;
            if c.responses.contains(reply) {
                let k = choose|k: int| 0 <= k < c.responses.len() && c.responses[k] == reply;
                if after.len() > c.responses.len() {
                    assert(after.drop_last()[k] == after[k]);
                }
                assert(after[k] == reply);
            }
        }
    }
}

/// What a frame of `id` does to the transfer of `id`: one that has come as far as `t`, or none,
/// which stands for a fresh one where there is room.
proof fn lemma_own_frame<M: IdMapper>(
    c: Collection,
    endpoint: Endpoint<M>,
    id: CanId,
    data: Seq<u8>,
    now: u64,
    t: Transfer,
)
    requires
        c.well_formed(),
        c.seen_by(now),
        endpoint.mapper.collects(id),
        (c.states.contains(t) && t.id == id && t.live(now)) || (t == Transfer::fresh(id)
            && c.states.len() < MAX_ECUS && forall|i: int|
            0 <= i < c.states.len() ==> (#[trigger] c.states[i]).id != id),
    ensures
        ({
            let touched = Transfer { last_frame_at: Some(now), ..t };
            let (u, outcome) = endpoint.dispatch(touched, id, data);
            let (after, pending) = c.on_frame(endpoint, id, data, now);
            match outcome {
                DispatchView::Ignored => after.states.contains(u) && pending is None,
                DispatchView::Incomplete => after.states.contains(u) && pending is None,
                DispatchView::Answer { overflow, .. } => {
                    &&& after.states.contains(u)
                    &&& pending matches Some(p) && p.overflow == overflow
                },
                DispatchView::Complete => {
                    &&& held(after.responses, Reply { id, data: u.buffer })
                    &&& pending is None
                },
                DispatchView::Failed(_) => {
                    &&& forall|i: int|
                        0 <= i < after.states.len() ==> (#[trigger] after.states[i]).id != id
                    &&& after.responses == c.responses
                    &&& pending is None
                },
            }
        }),
{
    let p = c.pruned(now);
    let live = |t: Transfer| t.live(now);
    lemma_filter_keeps(c.states, live);
    lemma_filter_contains_iff(c.states, live, t);
    lemma_position(p.states, id);
    let touched = Transfer { last_frame_at: Some(now), ..t };
    let (u, outcome) = endpoint.dispatch(touched, id, data);
    let reply = Reply { id, data: u.buffer };
    assert(p.responses == c.responses);
    if c.responses.len() < MAX_ECUS {
        let grown = c.responses.push(reply);
        assert(grown[grown.len() - 1] == reply);
    }
    match position_of(p.states, id) {
        Some(i) => {
            assert(c.states.contains(p.states[i]));
            if c.states.contains(t) {
                let k = choose|k: int| 0 <= k < c.states.len() && c.states[k] == t;
                let m = choose|m: int| 0 <= m < c.states.len() && c.states[m] == p.states[i];
                assert(k == m);
            }
            assert(p.states[i] == t);
            assert(p.states.update(i, u)[i] == u);
            lemma_filter_keeps(p.states.update(i, u), |x: Transfer| x.id != id);
        },
        None => {
            if c.states.contains(t) {
                assert(p.states.contains(t));
                let k = choose|k: int| 0 <= k < p.states.len() && p.states[k] == t;
                assert(p.states[k].id == id);
            }
            let q = p.states.push(Transfer::fresh(id));
            assert(q[p.states.len() as int] == t);
            assert(q.update(p.states.len() as int, u)[p.states.len() as int] == u);
            lemma_filter_keeps(
                q.update(p.states.len() as int, u),
                |x: Transfer| x.id != id,
            );
        },
    }
}

/// The conditions under which the message of one sender comes in among other events: it is
/// collected, has room, and its frames come whole, in order and in time; its First Frame comes
/// first, and the answer to it goes out.
pub open spec fn message_comes_in<M: IdMapper>(
    c: Collection,
    endpoint: Endpoint<M>,
    id: CanId,
    target: u8,
    data: Seq<u8>,
    inputs: Seq<(Event, u64)>,
) -> bool {
    &&& c.well_formed()
    &&& c.seen_by(inputs[0].1)
    &&& c.phase is Collecting
    &&& c.states.len() < MAX_ECUS
    &&& forall|i: int| 0 <= i < c.states.len() ==> (#[trigger] c.states[i]).id != id
    &&& endpoint.mapper.collects(id)
    &&& endpoint.mapper.fc_sender_id(id) is Ok
    &&& single_capacity(endpoint.mode) < data.len() <= MAX_RECEIVE_LEN
    &&& inputs.len() > 0
    &&& frames_from(inputs, id, 1).len() == 1
    &&& frames_from(inputs, id, inputs.len() as int) == segments(endpoint.mode, target, data)
    &&& forall|n: int|
        #![trigger inputs[n]]
        0 <= n < inputs.len() ==> {
            let (before, step) = collection_after(c, endpoint, inputs, n);
            &&& step is Next
            &&& before.expects(inputs[n].0)
            &&& answers(before.phase, id) ==> inputs[n].0 == Event::Tx(TxEvent::Sent)
            &&& inputs[0].1 <= inputs[n].1 < inputs[0].1 + N_CR_TIMEOUT
        }
    &&& forall|m: int, n: int| 0 <= m <= n < inputs.len() ==> inputs[m].1 <= inputs[n].1
}

/// The frames of a sender among more inputs are those among fewer, and then more.
proof fn lemma_frames_prefix(inputs: Seq<(Event, u64)>, id: CanId, n: int, all: int)
    requires
        0 <= n <= all,
    ensures
        frames_from(inputs, id, n).len() <= frames_from(inputs, id, all).len(),
        forall|k: int|
            0 <= k < frames_from(inputs, id, n).len() ==> #[trigger] frames_from(
                inputs,
                id,
                n,
            )[k] == frames_from(inputs, id, all)[k],
    decreases all - n,
{
    if n < all {
        lemma_frames_prefix(inputs, id, n, all - 1);
    }
}

/// The transfer of `id` has come as far as `r`, its last frame between `from` and `until`, and no
/// answer that refuses it is on its way.
pub open spec fn underway(c: Collection, id: CanId, r: Transfer, from: u64, until: u64) -> bool {
    &&& exists|t: Transfer| #[trigger]
        c.states.contains(t) && same_progress(t, r) && seen_between(t, from, until)
    &&& answers(c.phase, id) ==> !c.phase->overflow
}

/// The last frame of the transfer came between `from` and `until`.
pub open spec fn seen_between(t: Transfer, from: u64, until: u64) -> bool {
    t.last_frame_at matches Some(x) && from <= x <= until
}

/// The reply is among the responses of a collection that goes on or has ended, unless there was
/// no room.
pub open spec fn arrived(after: Collection, step: FunctionalStepView, reply: Reply) -> bool {
    match step {
        FunctionalStepView::Next(_) => held(after.responses, reply),
        FunctionalStepView::Complete(list) => held(list, reply),
        FunctionalStepView::Failed(_) => false,
    }
}

proof fn lemma_own_step<M: IdMapper>(
    before: Collection,
    endpoint: Endpoint<M>,
    id: CanId,
    data: &[u8],
    now: u64,
    r: Transfer,
    from: u64,
    until: u64,
)
    requires
        before.well_formed(),
        before.seen_by(now),
        before.phase is Collecting,
        endpoint.mapper.collects(id),
        from <= until <= now < from + N_CR_TIMEOUT,
        r.id == id,
        underway(before, id, r, from, until) || (r == Transfer::fresh(id) && before.states.len()
            < MAX_ECUS && forall|i: int|
            0 <= i < before.states.len() ==> (#[trigger] before.states[i]).id != id),
        !(endpoint.dispatch(r, id, data@).1 is Failed),
        endpoint.dispatch(r, id, data@).1 matches DispatchView::Answer { overflow, .. }
            ==> !overflow,
    ensures
        ({
            let (after, step) = before.next(
                endpoint,
                Event::Rx(RxEvent::Frame { id, data }),
                now,
            );
            let (r2, outcome) = endpoint.dispatch(r, id, data@);
            &&& step is Next && !(outcome is Complete) ==> underway(after, id, r2, from, now)
            &&& outcome is Complete ==> arrived(after, step, Reply { id, data: r2.buffer })
        }),
{
    let t = if underway(before, id, r, from, until) {
        choose|t: Transfer| #[trigger]
            before.states.contains(t) && same_progress(t, r) && seen_between(t, from, until)
    } else {
        Transfer::fresh(id)
    };
    assert(same_progress(t, r));
    assert(Transfer { last_frame_at: None, ..t }.id == Transfer { last_frame_at: None, ..r }.id);
    let touched = Transfer { last_frame_at: Some(now), ..t };
    lemma_own_frame(before, endpoint, id, data@, now, t);
    assert(same_progress(touched, r));
    lemma_dispatch_ignores_time(endpoint, touched, r, id, data@);
    lemma_dispatch_last_frame(endpoint, touched, id, data@);
    lemma_frame_keeps_phase(before, endpoint, id, data@, now);
    let (u, outcome) = endpoint.dispatch(touched, id, data@);
    let (r2, _) = endpoint.dispatch(r, id, data@);
    let (c, pending) = before.on_frame(endpoint, id, data@, now);
    let (after, step) = before.next(endpoint, Event::Rx(RxEvent::Frame { id, data }), now);
    if outcome is Complete {
        assert(pending is None && step == c.go_on(now) && after == c.drained(step));
        assert(c.responses.len() > 0);
    } else if step is Next {
        assert(after.states == c.states);
        assert(after.states.contains(u));
        assert(same_progress(u, r2) && seen_between(u, from, now));
    }
}

proof fn lemma_frame_keeps_phase<M: IdMapper>(
    c: Collection,
    endpoint: Endpoint<M>,
    id: CanId,
    data: Seq<u8>,
    now: u64,
)
    ensures
        c.on_frame(endpoint, id, data, now).0.phase == c.phase,
{
}

proof fn lemma_other_step<M: IdMapper>(
    before: Collection,
    endpoint: Endpoint<M>,
    id: CanId,
    event: Event,
    now: u64,
    r: Transfer,
    from: u64,
    until: u64,
)
    requires
        before.well_formed(),
        before.seen_by(now),
        before.expects(event),
        !(before.phase is Sending),
        from <= until <= now < from + N_CR_TIMEOUT,
        r.id == id,
        underway(before, id, r, from, until),
        event matches Event::Rx(RxEvent::Frame { id: sender, .. }) ==> sender != id,
        answers(before.phase, id) ==> event == Event::Tx(TxEvent::Sent),
    ensures
        ({
            let (after, step) = before.next(endpoint, event, now);
            step is Next ==> underway(after, id, r, from, now)
        }),
{
    let (after, step) = before.next(endpoint, event, now);
    let t = choose|t: Transfer| #[trigger]
        before.states.contains(t) && same_progress(t, r) && seen_between(t, from, until);
    assert(Transfer { last_frame_at: None, ..t }.id == Transfer { last_frame_at: None, ..r }.id);
    assert(seen_between(t, from, now));
    if answers(before.phase, id) {
        assert(after.states == before.states);
    } else {
        law_live_transfer_is_kept(before, endpoint, event, now, t);
    }
    if let Event::Rx(RxEvent::Frame { id: sender, data }) = event {
        lemma_frame_keeps_phase(before, endpoint, sender, data@, now);
    }
}

/// A collection into which the first `k` frames of the message have come: it is well-formed, and
/// the message is underway or, with all its frames, has arrived.
#[verifier::opaque]
pub open spec fn came_far<M: IdMapper>(
    after: Collection,
    step: FunctionalStepView,
    endpoint: Endpoint<M>,
    reply: Reply,
    frames: Seq<Seq<u8>>,
    k: int,
    from: u64,
    until: u64,
) -> bool {
    &&& 1 <= k <= frames.len()
    &&& after.well_formed()
    &&& after.seen_by(until)
    &&& !(after.phase is Sending)
    &&& step is Next && k < frames.len() ==> underway(
        after,
        reply.id,
        reassembled(endpoint, reply.id, frames, k).0,
        from,
        until,
    )
    &&& k == frames.len() ==> arrived(after, step, reply)
}

/// The next frame of the message comes in: its first, or one that follows.
proof fn lemma_own_frame_comes_in<M: IdMapper>(
    before: Collection,
    earlier: FunctionalStepView,
    endpoint: Endpoint<M>,
    target: u8,
    reply: Reply,
    bytes: &[u8],
    now: u64,
    k: int,
    from: u64,
    until: u64,
)
    requires
        ({
            let frames = segments(endpoint.mode, target, reply.data);
            &&& single_capacity(endpoint.mode) < reply.data.len() <= MAX_RECEIVE_LEN
            &&& endpoint.mapper.fc_sender_id(reply.id) is Ok
            &&& endpoint.mapper.collects(reply.id)
            &&& earlier is Next
            &&& before.expects(Event::Rx(RxEvent::Frame { id: reply.id, data: bytes }))
            &&& 1 <= k <= frames.len()
            &&& bytes@ == frames[k - 1]
            &&& from <= until <= now < from + N_CR_TIMEOUT
            &&& if k == 1 {
                &&& before.well_formed()
                &&& before.seen_by(now)
                &&& before.phase is Collecting
                &&& before.states.len() < MAX_ECUS
                &&& forall|i: int|
                    0 <= i < before.states.len() ==> (#[trigger] before.states[i]).id != reply.id
            } else {
                came_far(before, earlier, endpoint, reply, frames, k - 1, from, until)
            }
        }),
    ensures
        ({
            let (after, step) = before.next(
                endpoint,
                Event::Rx(RxEvent::Frame { id: reply.id, data: bytes }),
                now,
            );
            came_far(
                after,
                step,
                endpoint,
                reply,
                segments(endpoint.mode, target, reply.data),
                k,
                from,
                now,
            )
        }),
{
    reveal(came_far);
    let frames = segments(endpoint.mode, target, reply.data);
    let id = reply.id;
    let event = Event::Rx(RxEvent::Frame { id, data: bytes });
    let r = reassembled(endpoint, id, frames, k - 1).0;
    if k > 1 {
        lemma_seen_later(before, until, now);
        lemma_reassembled(endpoint, id, target, reply.data, k - 1);
    }
    lemma_reassembled(endpoint, id, target, reply.data, k);
    assert(reply.data.take(reply.data.len() as int) == reply.data);
    lemma_next_well_formed(before, endpoint, event, now);
    lemma_next_is_not_sending(before, endpoint, event, now);
    lemma_own_step(before, endpoint, id, bytes, now, r, from, until);
}

/// Anything else happens while the message comes in.
proof fn lemma_other_event_comes_in<M: IdMapper>(
    before: Collection,
    earlier: FunctionalStepView,
    endpoint: Endpoint<M>,
    target: u8,
    reply: Reply,
    event: Event,
    now: u64,
    k: int,
    from: u64,
    until: u64,
)
    requires
        single_capacity(endpoint.mode) < reply.data.len() <= MAX_RECEIVE_LEN,
        endpoint.mapper.fc_sender_id(reply.id) is Ok,
        earlier is Next,
        before.expects(event),
        event matches Event::Rx(RxEvent::Frame { id: sender, .. }) ==> sender != reply.id,
        answers(before.phase, reply.id) ==> event == Event::Tx(TxEvent::Sent),
        from <= until <= now < from + N_CR_TIMEOUT,
        came_far(
            before,
            earlier,
            endpoint,
            reply,
            segments(endpoint.mode, target, reply.data),
            k,
            from,
            until,
        ),
    ensures
        ({
            let (after, step) = before.next(endpoint, event, now);
            came_far(
                after,
                step,
                endpoint,
                reply,
                segments(endpoint.mode, target, reply.data),
                k,
                from,
                now,
            )
        }),
{
    reveal(came_far);
    let frames = segments(endpoint.mode, target, reply.data);
    lemma_seen_later(before, until, now);
    lemma_next_well_formed(before, endpoint, event, now);
    lemma_next_is_not_sending(before, endpoint, event, now);
    if k < frames.len() {
        lemma_reassembled(endpoint, reply.id, target, reply.data, k);
        let r = reassembled(endpoint, reply.id, frames, k).0;
        lemma_other_step(before, endpoint, reply.id, event, now, r, from, until);
    } else {
        law_responses_are_kept(before, endpoint, event, now, reply);
    }
}

/// How far the message has come after the first `n` inputs.
proof fn lemma_message_comes_in<M: IdMapper>(
    c: Collection,
    endpoint: Endpoint<M>,
    id: CanId,
    target: u8,
    data: Seq<u8>,
    inputs: Seq<(Event, u64)>,
    n: int,
)
    requires
        message_comes_in(c, endpoint, id, target, data, inputs),
        1 <= n <= inputs.len(),
    ensures
        ({
            let (after, step) = collection_after(c, endpoint, inputs, n);
            came_far(
                after,
                step,
                endpoint,
                Reply { id, data },
                segments(endpoint.mode, target, data),
                frames_from(inputs, id, n).len() as int,
                inputs[0].1,
                inputs[n - 1].1,
            )
        }),
    decreases n,
{
    let frames = segments(endpoint.mode, target, data);
    let reply = Reply { id, data };
    let k = frames_from(inputs, id, n).len() as int;
    let (before, earlier) = collection_after(c, endpoint, inputs, n - 1);
    let (event, now) = inputs[n - 1];
    let from = inputs[0].1;
    lemma_frames_prefix(inputs, id, n, inputs.len() as int);
    lemma_frames_prefix(inputs, id, 1, n);
    let until = if n > 1 {
        inputs[n - 2].1
    } else {
        inputs[0].1
    };
    assert(from <= until <= now);
    if n > 1 {
        lemma_message_comes_in(c, endpoint, id, target, data, inputs, n - 1);
        lemma_frames_prefix(inputs, id, 1, n - 1);
    }
    match event {
        Event::Rx(RxEvent::Frame { id: sender, data: bytes }) if sender == id => {
            assert(frames_from(inputs, id, n) == frames_from(inputs, id, n - 1).push(bytes@));
            assert(frames_from(inputs, id, n)[k - 1] == bytes@);
            lemma_own_frame_comes_in(
                before,
                earlier,
                endpoint,
                target,
                reply,
                bytes,
                now,
                k,
                from,
                until,
            );
        },
        _ => {
            assert(k == frames_from(inputs, id, n - 1).len());
            lemma_other_event_comes_in(
                before,
                earlier,
                endpoint,
                target,
                reply,
                event,
                now,
                k,
                from,
                until,
            );
        },
    }
}

proof fn lemma_seen_later(c: Collection, earlier: u64, later: u64)
    requires
        c.seen_by(earlier),
        earlier <= later,
    ensures
        c.seen_by(later),
{
    assert forall|i: int| 0 <= i < c.states.len() implies (#[trigger] c.states[i]).seen_by(
        later,
    ) by {
        assert(c.states[i].seen_by(earlier));
    }
}

proof fn lemma_next_is_not_sending<M: IdMapper>(
    c: Collection,
    endpoint: Endpoint<M>,
    event: Event,
    now: u64,
)
    requires
        !(c.phase is Sending),
    ensures
        !(c.next(endpoint, event, now).0.phase is Sending),
{
    if let Event::Rx(RxEvent::Frame { id, data }) = event {
        lemma_frame_keeps_phase(c, endpoint, id, data@, now);
    }
}

proof fn lemma_dispatch_last_frame<M: IdMapper>(
    endpoint: Endpoint<M>,
    t: Transfer,
    id: CanId,
    data: Seq<u8>,
)
    ensures
        endpoint.dispatch(t, id, data).0.last_frame_at == t.last_frame_at,
{
}

/// The message of one sender arrives whole, whatever comes in between: frames of other senders,
/// answers to them, silence. Once its last frame is in, the message is among the responses, unless
/// there was no room.
pub proof fn law_message_is_collected_among_others<M: IdMapper>(
    c: Collection,
    endpoint: Endpoint<M>,
    id: CanId,
    target: u8,
    data: Seq<u8>,
    inputs: Seq<(Event, u64)>,
)
    requires
        message_comes_in(c, endpoint, id, target, data, inputs),
    ensures
        ({
            let (after, step) = collection_after(c, endpoint, inputs, inputs.len() as int);
            arrived(after, step, Reply { id, data })
        }),
{
    lemma_message_comes_in(c, endpoint, id, target, data, inputs, inputs.len() as int);
    reveal(came_far);
}

/// A message in one frame from a sender that has no transfer yet is among the responses at once,
/// unless there was no room.
pub proof fn law_single_frame_is_collected<M: IdMapper>(
    c: Collection,
    endpoint: Endpoint<M>,
    id: CanId,
    target: u8,
    message: Seq<u8>,
    now: u64,
)
    requires
        c.well_formed(),
        c.seen_by(now),
        c.states.len() < MAX_ECUS,
        forall|i: int| 0 <= i < c.states.len() ==> (#[trigger] c.states[i]).id != id,
        endpoint.mapper.collects(id),
        1 <= message.len() <= single_capacity(endpoint.mode),
    ensures
        held(
            c.on_frame(
                endpoint,
                id,
                single_frame_bytes(endpoint.mode, target, message),
                now,
            ).0.responses,
            Reply { id, data: message },
        ),
{
    let frame = single_frame_bytes(endpoint.mode, target, message);
    let t = Transfer::fresh(id);
    let touched = Transfer { last_frame_at: Some(now), ..t };
    law_single_frame_round_trip(endpoint, id, target, message);
    assert(same_progress(touched, t));
    lemma_dispatch_ignores_time(endpoint, touched, t, id, frame);
    lemma_own_frame(c, endpoint, id, frame, now, t);
}

/// A frame in error leaves no transfer of its sender, whether one was under way or not, and no
/// response.
pub proof fn law_failed_frame_leaves_no_transfer<M: IdMapper>(
    c: Collection,
    endpoint: Endpoint<M>,
    id: CanId,
    data: Seq<u8>,
    now: u64,
    t: Transfer,
)
    requires
        c.well_formed(),
        c.seen_by(now),
        endpoint.mapper.collects(id),
        (c.states.contains(t) && t.id == id && t.live(now)) || (t == Transfer::fresh(id)
            && c.states.len() < MAX_ECUS && forall|i: int|
            0 <= i < c.states.len() ==> (#[trigger] c.states[i]).id != id),
        endpoint.dispatch(t, id, data).1 is Failed,
    ensures
        ({
            let (after, pending) = c.on_frame(endpoint, id, data, now);
            &&& forall|i: int| 0 <= i < after.states.len() ==> (#[trigger] after.states[i]).id != id
            &&& after.responses == c.responses
            &&& pending is None
        }),
{
    let touched = Transfer { last_frame_at: Some(now), ..t };
    assert(same_progress(touched, t));
    lemma_dispatch_ignores_time(endpoint, touched, t, id, data);
    lemma_own_frame(c, endpoint, id, data, now, t);
}

/// Where something is not selected, fewer are.
proof fn lemma_filter_drops(s: Seq<Transfer>, q: spec_fn(Transfer) -> bool, i: int)
    requires
        0 <= i < s.len(),
        !q(s[i]),
    ensures
        s.filter(q).len() < s.len(),
    decreases s.len(),
{
    reveal(Seq::filter);
    lemma_filter_keeps(s.drop_last(), q);
    if i < s.len() - 1 {
        assert(s.drop_last()[i] == s[i]);
        lemma_filter_drops(s.drop_last(), q, i);
    }
}

/// The transfer that a frame of `id` at `now` belongs to: the one of `id` while it is live; a fresh
/// one where `id` has none that is, and fewer than eight transfers are live.
pub open spec fn belongs_to(c: Collection, id: CanId, now: u64, t: Transfer) -> bool {
    ||| c.states.contains(t) && t.id == id && t.live(now)
    ||| {
        &&& t == Transfer::fresh(id)
        &&& forall|i: int|
            0 <= i < c.states.len() && (#[trigger] c.states[i]).id == id ==> !c.states[i].live(now)
        &&& c.states.len() < 8 || exists|i: int|
            0 <= i < c.states.len() && !(#[trigger] c.states[i]).live(now)
    }
}

/// What a frame of a collected sender does, exactly. Its transfer is touched at `now` and takes the
/// frame. A complete message becomes the last response, sender and bytes as they came, unless eight
/// responses are there; the transfer is then idle. A failed transfer is given up. An answer goes
/// out as it is. No other response is added, and none is lost.
pub proof fn law_frame_of_a_collection<M: IdMapper>(
    c: Collection,
    endpoint: Endpoint<M>,
    id: CanId,
    data: Seq<u8>,
    now: u64,
    t: Transfer,
)
    requires
        c.well_formed(),
        c.seen_by(now),
        endpoint.mapper.collects(id),
        belongs_to(c, id, now, t),
    ensures
        ({
            let touched = Transfer { last_frame_at: Some(now), ..t };
            let (u, outcome) = endpoint.dispatch(touched, id, data);
            let (after, pending) = c.on_frame(endpoint, id, data, now);
            &&& outcome is Complete && c.responses.len() < 8 ==> {
                &&& after.responses.len() == c.responses.len() + 1
                &&& after.responses.drop_last() == c.responses
                &&& after.responses.last().id == id
                &&& after.responses.last().data == u.buffer
            }
            &&& !(outcome is Complete && c.responses.len() < 8) ==> after.responses == c.responses
            &&& outcome is Complete ==> after.states.contains(
                (Transfer { rx_dl: 0, next_sn: 1, buffer: Seq::empty(), ..u }),
            )
            &&& outcome is Ignored || outcome is Incomplete || outcome is Answer
                ==> after.states.contains(u)
            &&& outcome is Failed ==> forall|i: int|
                0 <= i < after.states.len() ==> (#[trigger] after.states[i]).id != id
            &&& pending == match outcome {
                DispatchView::Answer { id: fc_id, frame, overflow } => Some(
                    PendingView { id: fc_id, frame, overflow },
                ),
                _ => None::<PendingView>,
            }
        }),
{
    let p = c.pruned(now);
    let live = |t: Transfer| t.live(now);
    lemma_filter_keeps(c.states, live);
    lemma_filter_contains_iff(c.states, live, t);
    lemma_position(p.states, id);
    let touched = Transfer { last_frame_at: Some(now), ..t };
    let (u, outcome) = endpoint.dispatch(touched, id, data);
    let reply = Reply { id, data: u.buffer };
    assert(p.responses == c.responses);
    assert(c.responses.push(reply).drop_last() == c.responses);
    match position_of(p.states, id) {
        Some(i) => {
            assert(c.states.contains(p.states[i]));
            let m = choose|m: int| 0 <= m < c.states.len() && c.states[m] == p.states[i];
            assert(c.states[m].id == id && c.states[m].live(now));
            assert(c.states.contains(t) && t.live(now));
            let k = choose|k: int| 0 <= k < c.states.len() && c.states[k] == t;
            assert(k == m);
            assert(p.states[i] == t);
            assert(p.states.update(i, u)[i] == u);
            assert(p.states.update(i, u.emptied())[i] == u.emptied());
            lemma_filter_keeps(p.states.update(i, u), |x: Transfer| x.id != id);
        },
        None => {
            if c.states.contains(t) && t.live(now) && t.id == id {
                assert(p.states.contains(t));
                let k = choose|k: int| 0 <= k < p.states.len() && p.states[k] == t;
                assert(p.states[k].id == id);
            }
            if c.states.len() >= 8 {
                let i = choose|i: int|
                    0 <= i < c.states.len() && !(#[trigger] c.states[i]).live(now);
                lemma_filter_drops(c.states, live, i);
            }
            let n = p.states.len() as int;
            assert(n < 8);
            let q = p.states.push(Transfer::fresh(id));
            assert(q[n] == t);
            assert(q.update(n, u)[n] == u);
            assert(q.update(n, u.emptied())[n] == u.emptied());
            lemma_filter_keeps(q.update(n, u), |x: Transfer| x.id != id);
        },
    }
}

/// A frame of a ninth sender, while the transfers of eight others are live, is dropped: no response
/// and no answer comes of it, and its sender has no transfer.
pub proof fn law_ninth_sender_is_dropped<M: IdMapper>(
    c: Collection,
    endpoint: Endpoint<M>,
    id: CanId,
    data: Seq<u8>,
    now: u64,
)
    requires
        c.well_formed(),
        endpoint.mapper.collects(id),
        c.states.len() == 8,
        forall|i: int|
            0 <= i < 8 ==> (#[trigger] c.states[i]).id != id && c.states[i].live(now),
    ensures
        c.on_frame(endpoint, id, data, now) == (c, None::<PendingView>),
{
    let live = |t: Transfer| t.live(now);
    lemma_filter_all(c.states, live);
    assert(c.pruned(now) == c);
    lemma_position(c.states, id);
}

proof fn lemma_filter_all(s: Seq<Transfer>, q: spec_fn(Transfer) -> bool)
    requires
        forall|i: int| 0 <= i < s.len() ==> q(#[trigger] s[i]),
    ensures
        s.filter(q) == s,
    decreases s.len(),
{
    reveal(Seq::filter);
    if s.len() > 0 {
        assert(q(s[s.len() - 1]));
        lemma_filter_all(s.drop_last(), q);
        assert(s.drop_last().push(s.last()) == s);
    }
}

/// A functional request starts without responses and transfers; once it is out, responses are
/// collected for half a second in all. It fails where it does not go out.
pub proof fn law_collection_starts<M: IdMapper>(endpoint: Endpoint<M>, now: u64)
    requires
        clock_in_range(now),
    ensures
        ({
            let c = Collection::starting();
            let (after, step) = c.next(endpoint, Event::Tx(TxEvent::Sent), now);
            &&& c.responses.len() == 0 && c.states.len() == 0
            &&& step == FunctionalStepView::Next(ActionView::Receive { timeout_us: 100_000 })
            &&& after.responses.len() == 0 && after.states.len() == 0
            &&& after.deadline == now + 500_000
            &&& after.phase == CollectPhase::Collecting
            &&& c.next(endpoint, Event::Tx(TxEvent::TimedOut), now).1 == FunctionalStepView::Failed(
                IsoTpError::TimeoutA,
            )
            &&& c.next(endpoint, Event::Tx(TxEvent::Failed), now).1 == FunctionalStepView::Failed(
                IsoTpError::DriverError,
            )
        }),
{
}

/// What a collection comes to that ends with `list`: all of the list, or `TimeoutCr` where it is
/// empty.
pub open spec fn ends_with(step: FunctionalStepView, list: Seq<Reply>) -> bool {
    match step {
        FunctionalStepView::Complete(all) => all.len() > 0 && all == list,
        FunctionalStepView::Failed(e) => list.len() == 0 && e == IsoTpError::TimeoutCr,
        FunctionalStepView::Next(_) => false,
    }
}

/// The collection waits for the next frame: 100 ms, or what is left until its end.
pub open spec fn waits_on(step: FunctionalStepView, deadline: u64, now: u64) -> bool {
    match step {
        FunctionalStepView::Next(ActionView::Receive { timeout_us }) => {
            &&& deadline - now >= 100_000 ==> timeout_us == 100_000
            &&& deadline - now < 100_000 ==> timeout_us == deadline - now
        },
        _ => false,
    }
}

/// How silence ends a collection: at once with all responses so far where no transfer waits for
/// more, and otherwise only when the time is up.
pub proof fn law_silence_ends_a_collection<M: IdMapper>(
    c: Collection,
    endpoint: Endpoint<M>,
    event: Event,
    now: u64,
)
    requires
        c.phase is Collecting,
        event == Event::Rx(RxEvent::TimedOut) || event == Event::Rx(RxEvent::Failed),
    ensures
        ({
            let waiting = exists|i: int|
                0 <= i < c.states.len() && (#[trigger] c.states[i]).rx_dl > 0;
            let (after, step) = c.next(endpoint, event, now);
            &&& !waiting || now >= c.deadline ==> ends_with(step, c.responses)
            &&& waiting && now < c.deadline ==> waits_on(step, c.deadline, now)
            &&& step is Next ==> after == c
        }),
{
}

/// How a collection goes on after a frame: an answer goes out within five seconds, or what is left
/// until the end; without one it waits on, or ends with all responses when the time is up.
pub proof fn law_collection_goes_on_after_a_frame<M: IdMapper>(
    c: Collection,
    endpoint: Endpoint<M>,
    id: CanId,
    data: &[u8],
    now: u64,
)
    requires
        c.phase is Collecting,
    ensures
        ({
            let (taken, pending) = c.on_frame(endpoint, id, data@, now);
            let event = Event::Rx(RxEvent::Frame { id, data });
            let (after, step) = c.next(endpoint, event, now);
            match pending {
                Some(answer) => {
                    &&& step matches FunctionalStepView::Next(
                        ActionView::Transmit { id: to, frame, timeout_us },
                    ) && to == answer.id && frame == answer.frame && {
                        &&& now >= c.deadline ==> timeout_us == 0
                        &&& now < c.deadline && c.deadline - now < 5_000_000 ==> timeout_us
                            == c.deadline - now
                        &&& c.deadline - now >= 5_000_000 ==> timeout_us == 5_000_000
                    }
                    &&& after.phase == (CollectPhase::Answering { id, overflow: answer.overflow })
                    &&& after.responses == taken.responses && after.states == taken.states
                    &&& after.deadline == c.deadline
                },
                None => {
                    &&& now >= c.deadline ==> ends_with(step, taken.responses)
                    &&& now < c.deadline ==> waits_on(step, c.deadline, now) && after == taken
                },
            }
        }),
{
}

/// How a collection goes on after an answer: where it went out and granted, the transfer stays; it
/// is given up where the answer refused it or did not go out. The other transfers and the responses
/// stay either way.
pub proof fn law_collection_goes_on_after_an_answer<M: IdMapper>(
    c: Collection,
    endpoint: Endpoint<M>,
    id: CanId,
    overflow: bool,
    tx: TxEvent,
    now: u64,
    t: Transfer,
)
    requires
        c.phase == (CollectPhase::Answering { id, overflow }),
    ensures
        ({
            let (after, step) = c.next(endpoint, Event::Tx(tx), now);
            let kept = tx == TxEvent::Sent && !overflow;
            &&& now >= c.deadline ==> ends_with(step, c.responses)
            &&& now < c.deadline ==> {
                &&& waits_on(step, c.deadline, now)
                &&& after.phase == CollectPhase::Collecting
                &&& after.deadline == c.deadline
                &&& after.responses == c.responses
                &&& kept ==> after.states == c.states
                &&& !kept ==> (after.states.contains(t) <==> c.states.contains(t) && t.id != id)
            }
        }),
{
    lemma_filter_contains_iff(c.states, |x: Transfer| x.id != id, t);
}

} // verus!
