//! What holds of the relay engine at all times: buffers within capacity,
//! no reserved handle in use, flows and mapping that belong together, and
//! bytes that move in order.

use crate::buffer::BUF_LEN;
use crate::event::{reserved, Action, Ctx, Event, Phase, NOTIFY_VAL, SERVER_VAL};
use crate::flow::FlowView;
use crate::flow_laws::{
    lemma_begin_settled, lemma_step_keeps_order, lemma_step_settled, queues_after,
};
use crate::relay::{fresh_flow, initial, RelayView};
use vstd::prelude::*;

verus! {

/// Every step keeps the engine well formed. So at all times no buffer
/// holds more than `BUF_LEN` bytes, and no flow is keyed on a reserved
/// handle.
pub proof fn lemma_step_keeps_wf(s: RelayView, event: Event)
    requires
        s.wf(),
    ensures
        s.step(event).0.wf(),
{
    if s.fits(event) {
        match s.phase {
            Phase::Draining => {
                if let Event::Ready { token, readiness } = event {
                    if let Some(src_index) = s.owner(token) {
                        let flow = s.flows[src_index];
                        let ctx = Ctx { index: token, peer: flow.peer(token), src_index, readiness };
                        lemma_begin_settled(flow, ctx);
                        lemma_settle_keeps_wf(
                            RelayView { ctx, ..s },
                            flow.stage_readable(ctx).flow,
                            flow.stage_readable(ctx).phase,
                            Seq::empty(),
                        );
                    }
                }
            },
            Phase::Reading { follow_up, max } => {
                lemma_flow_step_keeps_wf(s, event);
            },
            Phase::Flushing { was_full } => {
                lemma_flow_step_keeps_wf(s, event);
            },
            Phase::Shutting { fd, how, next } => {
                lemma_flow_step_keeps_wf(s, event);
            },
            _ => {},
        }
    }
}

/// A step of the accept loop keeps the engine well formed, whatever the
/// event.
pub proof fn lemma_accept_keeps_wf(s: RelayView, event: Event)
    requires
        s.wf(),
        s.accepting(),
    ensures
        s.accept_step(event).0.wf(),
{
}

/// A step in the handling of a flow's event keeps the engine well formed.
proof fn lemma_flow_step_keeps_wf(s: RelayView, event: Event)
    requires
        s.wf(),
        s.fits(event),
        s.phase is Reading || s.phase is Flushing || s.phase is Shutting,
    ensures
        s.flow_step(event).0.wf(),
{
    let flow = s.flows[s.ctx.src_index];
    lemma_step_settled(flow, s.inline, s.ctx, s.phase, event);
    let (turn, inline) = flow.step(s.inline, s.ctx, s.phase, event);
    lemma_settle_keeps_wf(s, turn.flow, turn.phase, inline);
}

/// Storing a flow that is as its phase needs it, with its handles as
/// they were, leaves the engine well formed, whether or not the flow is
/// closed at once.
proof fn lemma_settle_keeps_wf(s: RelayView, flow: FlowView, phase: Phase, inline: Seq<u8>)
    requires
        forall|k: usize| #[trigger]
            s.flows.contains_key(k) ==> {
                &&& s.flows[k].within_cap()
                &&& s.flows[k].src_fd == k
                &&& !reserved(k)
                &&& !reserved(s.flows[k].dest_fd)
            },
        forall|d: usize| #[trigger] s.mapping.contains_key(d) ==> !reserved(d),
        s.flows.contains_key(s.ctx.src_index),
        flow.settled(inline, s.ctx, phase),
        flow.src_fd == s.flows[s.ctx.src_index].src_fd,
        flow.dest_fd == s.flows[s.ctx.src_index].dest_fd,
        phase is Reading || phase is Flushing || phase is Shutting || phase is Closing
            || phase is Draining,
    ensures
        s.settle(flow, phase, inline).wf(),
{
}

impl RelayView {
    /// The engine after the events `events`, in their order.
    pub open spec fn after(self, events: Seq<Event>) -> RelayView
        decreases events.len(),
    {
        if events.len() == 0 {
            self
        } else {
            self.after(events.drop_last()).step(events.last()).0
        }
    }

    /// Whether each of `events` reports a fresh handle where it reports a
    /// new socket, given the engine that it comes to.
    pub open spec fn all_fresh(self, events: Seq<Event>) -> bool
        decreases events.len(),
    {
        events.len() == 0 || (self.all_fresh(events.drop_last()) && self.after(
            events.drop_last(),
        ).fresh(events.last()))
    }
}

/// Whatever events come, a well-formed engine stays well formed.
pub proof fn lemma_always_wf(s: RelayView, events: Seq<Event>)
    requires
        s.wf(),
    ensures
        s.after(events).wf(),
    decreases events.len(),
{
    if events.len() > 0 {
        lemma_always_wf(s, events.drop_last());
        lemma_step_keeps_wf(s.after(events.drop_last()), events.last());
    }
}

/// At all times, whatever events came since the engine was new, neither
/// buffer of a flow holds more than `BUF_LEN` bytes, and no more inline
/// bytes are held than that.
pub proof fn lemma_buffer_cap(events: Seq<Event>, k: usize)
    requires
        initial().after(events).flows.contains_key(k),
    ensures
        initial().after(events).flows[k].src_buf.len() <= BUF_LEN,
        initial().after(events).flows[k].dest_buf.len() <= BUF_LEN,
        initial().after(events).inline.len() <= BUF_LEN,
{
    lemma_always_wf(initial(), events);
}

/// At all times, whatever events came since the engine was new, no flow
/// is keyed on a reserved handle, uses one for its connected socket, or is
/// found under one in the mapping; and every flow is keyed by the handle
/// of its accepted socket.
pub proof fn lemma_reserved_handles_unused(events: Seq<Event>)
    ensures
        !initial().after(events).flows.contains_key(SERVER_VAL),
        !initial().after(events).flows.contains_key(NOTIFY_VAL),
        !initial().after(events).mapping.contains_key(SERVER_VAL),
        !initial().after(events).mapping.contains_key(NOTIFY_VAL),
        forall|k: usize| #[trigger]
            initial().after(events).flows.contains_key(k) ==> initial().after(
                events,
            ).flows[k].src_fd == k && !reserved(initial().after(events).flows[k].dest_fd),
{
    lemma_always_wf(initial(), events);
}

impl RelayView {
    /// Whether `fd` is in use as a key or is mapped.
    pub open spec fn knows(self, fd: usize) -> bool {
        self.flows.contains_key(fd) || self.mapping.contains_key(fd)
    }

    /// Whether flows and mapping belong together: every mapped handle
    /// leads to the flow whose connected socket it names, every flow's
    /// connected socket is mapped to the flow's key, no key is mapped, and
    /// the handles of a connection that is being set up are not in use.
    pub open spec fn linked(self) -> bool {
        &&& forall|d: usize| #[trigger]
            self.mapping.contains_key(d) ==> self.flows.contains_key(self.mapping[d])
                && self.flows[self.mapping[d]].dest_fd == d
        &&& forall|k: usize| #[trigger]
            self.flows.contains_key(k) ==> {
                &&& self.mapping.contains_key(self.flows[k].dest_fd)
                &&& self.mapping[self.flows[k].dest_fd] == k
                &&& !self.mapping.contains_key(k)
            }
        &&& match self.phase {
            Phase::Resolving { src_fd, peer } => !self.knows(src_fd),
            Phase::Connecting { src_fd, src_port, target } => !self.knows(src_fd),
            Phase::RegisteringSrc { src_fd, dest_fd } => !self.knows(src_fd) && !self.knows(
                dest_fd,
            ) && src_fd != dest_fd,
            Phase::RegisteringDest { src_fd, dest_fd } => !self.knows(src_fd) && !self.knows(
                dest_fd,
            ) && src_fd != dest_fd,
            _ => true,
        }
    }

    /// Whether a handle that `event` reports of a new socket is fresh: not
    /// in use, and not that of the socket it is to be paired with.
    pub open spec fn fresh(self, event: Event) -> bool {
        match event {
            Event::Accepted { fd, peer } => !self.knows(fd),
            Event::Connected { fd } => !self.knows(fd) && (self.phase matches Phase::Connecting {
                src_fd,
                src_port,
                target,
            } ==> fd != src_fd),
            _ => true,
        }
    }

    /// Whether a step from this engine to `next` ended a flow.
    pub open spec fn ended_flow(self, next: RelayView) -> bool {
        next.phase is Closing && !(self.phase is Closing)
    }
}

/// As long as the driver reports fresh handles for new sockets, flows and
/// mapping belong together after every step.
pub proof fn lemma_step_keeps_linked(s: RelayView, event: Event)
    requires
        s.wf(),
        s.linked(),
        s.fresh(event),
    ensures
        s.step(event).0.linked(),
{
    lemma_step_keeps_ids(s, event);
}

/// A flow's entries leave the flows and the mapping exactly when the flow
/// ends: the step that asks for a flow to be closed removes that flow's
/// record and the mapping of its connected socket, and nothing else; any
/// other step removes nothing.
pub proof fn lemma_entries_leave_with_flow(s: RelayView, event: Event)
    requires
        s.wf(),
        s.linked(),
    ensures
        ({
            let (t, action) = s.step(event);
            if s.ended_flow(t) {
                let k = t.ctx.src_index;
                &&& s.flows.contains_key(k)
                &&& s.mapping.contains_key(s.flows[k].dest_fd)
                &&& t.flows == s.flows.remove(k)
                &&& t.mapping == s.mapping.remove(s.flows[k].dest_fd)
                &&& action == Action::Close { src_fd: k, dest_fd: s.flows[k].dest_fd }
            } else {
                &&& forall|k: usize| #[trigger]
                    s.flows.contains_key(k) ==> t.flows.contains_key(k)
                &&& forall|d: usize| #[trigger]
                    s.mapping.contains_key(d) ==> t.mapping.contains_key(d) && t.mapping[d]
                        == s.mapping[d]
            }
        }),
{
    lemma_step_keeps_ids(s, event);
    let (t, action) = s.step(event);
    if s.ended_flow(t) {
        let k = t.ctx.src_index;
        assert(t.flows =~= s.flows.remove(k));
        assert(t.mapping =~= s.mapping.remove(s.flows[k].dest_fd));
    }
}

/// Whether the step from `s` to `t` left flows and mapping alone, and
/// did not end a flow.
pub open spec fn untouched(s: RelayView, t: RelayView) -> bool {
    &&& t.flows == s.flows
    &&& t.mapping == s.mapping
    &&& !s.ended_flow(t)
}

/// What a step with `event` does to flows and mapping: a step that handles
/// a flow's event stores that flow again with its handles as they were,
/// and closes it if the next phase is `Closing`; the step that enters a
/// new flow is the only other one that touches flows or mapping.
pub open spec fn step_effect(s: RelayView, event: Event) -> bool {
    let (t, action) = s.step(event);
    if !s.fits(event) {
        untouched(s, t)
    } else {
        match (s.phase, event) {
            (Phase::Reading { follow_up, max }, _) => touched(s, t, action, s.ctx),
            (Phase::Flushing { was_full }, _) => touched(s, t, action, s.ctx),
            (Phase::Shutting { fd, how, next }, _) => touched(s, t, action, s.ctx),
            (Phase::Draining, Event::Ready { token, readiness }) => if !reserved(token)
                && s.owner(token) is Some {
                touched(s, t, action, t.ctx) && Some(t.ctx.src_index) == s.owner(token)
            } else {
                untouched(s, t)
            },
            (Phase::RegisteringDest { src_fd, dest_fd }, Event::Done) => {
                &&& t.flows =~= s.flows.insert(src_fd, fresh_flow(src_fd, dest_fd))
                &&& t.mapping =~= s.mapping.insert(dest_fd, src_fd)
                &&& t.phase is Adopting
            },
            _ => untouched(s, t),
        }
    }
}

/// Whether the step from `s` to `t` stored the flow at hand, `c.src_index`,
/// with its handles as they were, and closed it if `t` waits for that.
pub open spec fn touched(s: RelayView, t: RelayView, action: Action, c: Ctx) -> bool {
    let k = c.src_index;
    &&& t.ctx == c
    &&& s.flows.contains_key(k)
    &&& if t.phase is Closing {
        &&& t.flows =~= s.flows.remove(k)
        &&& t.mapping =~= s.mapping.remove(k).remove(s.flows[k].dest_fd)
        &&& action == Action::Close { src_fd: k, dest_fd: s.flows[k].dest_fd }
    } else {
        &&& t.mapping == s.mapping
        &&& t.flows.dom() =~= s.flows.dom()
        &&& forall|j: usize| #[trigger]
            t.flows.contains_key(j) ==> t.flows[j].dest_fd == s.flows[j].dest_fd
    }
}

/// Every step does to flows and mapping what `step_effect` says.
proof fn lemma_step_keeps_ids(s: RelayView, event: Event)
    requires
        s.wf(),
    ensures
        step_effect(s, event),
{
    let (t, action) = s.step(event);
    if s.fits(event) {
        match s.phase {
            Phase::Draining => {
                if let Event::Ready { token, readiness } = event {
                    if let Some(src_index) = s.owner(token) {
                        if !reserved(token) {
                            let flow = s.flows[src_index];
                            let ctx = Ctx {
                                index: token,
                                peer: flow.peer(token),
                                src_index,
                                readiness,
                            };
                            lemma_begin_settled(flow, ctx);
                            let turn = flow.stage_readable(ctx);
                            lemma_settle_touches(
                                RelayView { ctx, ..s },
                                turn.flow,
                                turn.phase,
                                turn.action,
                                Seq::empty(),
                            );
                        }
                    }
                }
            },
            Phase::Reading { follow_up, max } => {
                lemma_flow_step_touches(s, event);
            },
            Phase::Flushing { was_full } => {
                lemma_flow_step_touches(s, event);
            },
            Phase::Shutting { fd, how, next } => {
                lemma_flow_step_touches(s, event);
            },
            _ => {},
        }
    }
}

/// A step in the handling of a flow's event touches that flow alone.
proof fn lemma_flow_step_touches(s: RelayView, event: Event)
    requires
        s.wf(),
        s.fits(event),
        s.phase is Reading || s.phase is Flushing || s.phase is Shutting,
    ensures
        touched(s, s.flow_step(event).0, s.flow_step(event).1, s.ctx),
{
    let flow = s.flows[s.ctx.src_index];
    lemma_step_settled(flow, s.inline, s.ctx, s.phase, event);
    let (turn, inline) = flow.step(s.inline, s.ctx, s.phase, event);
    lemma_settle_touches(s, turn.flow, turn.phase, turn.action, inline);
}

/// Storing a flow with its handles as they were touches that flow alone.
proof fn lemma_settle_touches(
    s: RelayView,
    flow: FlowView,
    phase: Phase,
    action: Action,
    inline: Seq<u8>,
)
    requires
        s.flows.contains_key(s.ctx.src_index),
        s.flows[s.ctx.src_index].src_fd == s.ctx.src_index,
        flow.src_fd == s.flows[s.ctx.src_index].src_fd,
        flow.dest_fd == s.flows[s.ctx.src_index].dest_fd,
        phase is Closing ==> action == (Action::Close {
            src_fd: flow.src_fd,
            dest_fd: flow.dest_fd,
        }),
    ensures
        touched(s, s.settle(flow, phase, inline), action, s.ctx),
{
    let k = s.ctx.src_index;
    let t = s.settle(flow, phase, inline);
    if phase is Closing {
        assert(t.flows =~= s.flows.remove(k));
    } else {
        assert(t.flows.dom() =~= s.flows.dom());
    }
}

/// As long as the driver reports a fresh handle for every new socket,
/// flows and mapping belong together at all times: each flow has exactly
/// the one mapping entry of its connected socket, and each mapping entry
/// leads to its flow.
pub proof fn lemma_always_linked(events: Seq<Event>)
    requires
        initial().all_fresh(events),
    ensures
        initial().after(events).wf(),
        initial().after(events).linked(),
    decreases events.len(),
{
    lemma_always_wf(initial(), events);
    if events.len() > 0 {
        lemma_always_linked(events.drop_last());
        lemma_always_wf(initial(), events.drop_last());
        lemma_step_keeps_linked(initial().after(events.drop_last()), events.last());
    }
}

/// While the engine handles a flow's readiness event, every step moves
/// that flow's bytes in order: the engine keeps what the step made of the
/// flow, unless the step ended it, and the step changes the flow's two
/// queues as `queues_after` says, offering for each write the whole queue
/// of its direction.
pub proof fn lemma_engine_keeps_order(s: RelayView, event: Event)
    requires
        s.wf(),
        !s.idle(),
        s.fits(event),
    ensures
        ({
            let k = s.ctx.src_index;
            let f = s.flows[k];
            let (t, rest) = f.step(s.inline, s.ctx, s.phase, event);
            let next = s.step(event).0;
            &&& next.phase == t.phase
            &&& next.ctx == s.ctx
            &&& next.inline == rest
            &&& s.step(event).1 == t.action
            &&& next.flows.contains_key(k) ==> next.flows[k] == t.flow
            &&& !next.flows.contains_key(k) ==> s.ended_flow(next)
            &&& (t.flow.bound_for_peer(rest, s.ctx, t.phase), t.flow.bound_for_socket(
                rest,
                s.ctx,
                t.phase,
            )) == queues_after(
                f.bound_for_peer(s.inline, s.ctx, s.phase),
                f.bound_for_socket(s.inline, s.ctx, s.phase),
                s.inline,
                s.phase,
                event,
            )
            &&& t.flow.offers_whole_queue(rest, s.ctx, t.phase)
        }),
{
    let f = s.flows[s.ctx.src_index];
    lemma_step_keeps_order(f, s.inline, s.ctx, s.phase, event);
    lemma_step_settled(f, s.inline, s.ctx, s.phase, event);
}

} // verus!
