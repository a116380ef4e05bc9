//! The relay engine as a state machine. It owns the record of every flow
//! and decides; the loop that drives it owns the sockets and the poller,
//! carries out one action at a time and reports what came of it.

use crate::buffer::{as_slice, contents, BUF_LEN};
use crate::drain::Io;
use crate::event::{reserved, Action, Ctx, Event, Phase, Readiness, NOTIFY_VAL, SERVER_VAL};
use crate::flow::{FlowView, ProxyValue};
use crate::relay_laws::{lemma_accept_keeps_wf, lemma_step_keeps_wf};
use bytes::BytesMut;
use std::collections::HashMap;
use vstd::prelude::*;

verus! {

broadcast use vstd::std_specs::hash::group_hash_axioms;

/// The relay engine: the flows by the handle of their accepted socket, the
/// way from the handle of a connected socket to that key, and what the
/// engine is in the middle of.
pub struct Relay {
    tcp_map: HashMap<usize, ProxyValue>,
    mapping: HashMap<usize, usize>,
    phase: Phase,
    ctx: Ctx,
    inline: BytesMut,
}

/// What a relay engine holds, as plain values.
pub struct RelayView {
    pub flows: Map<usize, FlowView>,
    pub mapping: Map<usize, usize>,
    pub phase: Phase,
    pub ctx: Ctx,
    pub inline: Seq<u8>,
}

/// The records of a map of flows, as plain values.
pub open spec fn flow_views(m: Map<usize, ProxyValue>) -> Map<usize, FlowView> {
    Map::new(|k: usize| m.contains_key(k), |k: usize| m[k]@)
}

/// The record of a flow that was just set up.
pub open spec fn fresh_flow(src_fd: usize, dest_fd: usize) -> FlowView {
    FlowView {
        src_fd,
        dest_fd,
        src_buf: Seq::empty(),
        dest_buf: Seq::empty(),
        src_state: None,
        dest_state: None,
    }
}

/// The context of an engine that handles no readiness event.
pub open spec fn idle_ctx() -> Ctx {
    Ctx {
        index: 0,
        peer: 0,
        src_index: 0,
        readiness: Readiness {
            readable: false,
            writable: false,
            read_closed: false,
            write_closed: false,
        },
    }
}

/// The engine before any event: without flows, about to poll.
pub open spec fn initial() -> RelayView {
    RelayView {
        flows: Map::empty(),
        mapping: Map::empty(),
        phase: Phase::Polling,
        ctx: idle_ctx(),
        inline: Seq::empty(),
    }
}

impl RelayView {
    /// The action that the engine is waiting on.
    pub open spec fn pending(self) -> Action {
        match self.phase {
            Phase::Polling => Action::Poll,
            Phase::Draining => Action::Next,
            Phase::Accepting => Action::Accept,
            Phase::Resolving { src_fd, peer } => Action::Lookup { peer },
            Phase::Connecting { src_fd, src_port, target } => Action::Connect { src_port, target },
            Phase::RegisteringSrc { src_fd, dest_fd } => Action::Register { fd: src_fd },
            Phase::RegisteringDest { src_fd, dest_fd } => Action::Register { fd: dest_fd },
            Phase::Adopting { src_fd, dest_fd } => Action::Adopt { src_fd, dest_fd },
            Phase::Reading { follow_up, max } => if self.inline.len() == 0 {
                Action::Read { fd: if follow_up { self.ctx.peer } else { self.ctx.index }, max }
            } else {
                Action::Write { fd: if follow_up { self.ctx.index } else { self.ctx.peer } }
            },
            Phase::Flushing { was_full } => Action::Write { fd: self.ctx.index },
            Phase::Shutting { fd, how, next } => Action::Shutdown { fd, how },
            Phase::Closing { src_fd, dest_fd } => Action::Close { src_fd, dest_fd },
            Phase::Stopped { clean } => if clean {
                Action::Exit
            } else {
                Action::Abort
            },
        }
    }

    /// The bytes on offer for the write that the engine is waiting on:
    /// the inline bytes during a read-drain, and what waits for the socket
    /// during a write-drain.
    pub open spec fn offered(self) -> Seq<u8> {
        match self.phase {
            Phase::Reading { follow_up, max } => self.inline,
            Phase::Flushing { was_full } => if self.flows.contains_key(self.ctx.src_index) {
                self.flows[self.ctx.src_index].buf2(self.ctx.index)
            } else {
                Seq::empty()
            },
            _ => Seq::empty(),
        }
    }

    /// The key of the flow that the socket `token` belongs to: the token
    /// itself if it is a key, what the mapping leads to otherwise.
    pub open spec fn owner(self, token: usize) -> Option<usize> {
        if self.flows.contains_key(token) {
            Some(token)
        } else if self.mapping.contains_key(token) && self.flows.contains_key(
            self.mapping[token],
        ) {
            Some(self.mapping[token])
        } else {
            None
        }
    }

    /// The engine without the flow `index`: its record leaves the flows,
    /// and both of its handles leave the mapping.
    pub open spec fn closed(self, index: usize) -> RelayView {
        if self.flows.contains_key(index) {
            RelayView {
                flows: self.flows.remove(index),
                mapping: self.mapping.remove(self.flows[index].src_fd).remove(
                    self.flows[index].dest_fd,
                ),
                ..self
            }
        } else {
            self
        }
    }

    /// The engine after a step of the flow at hand: the record is stored
    /// again, and the flow is closed where the step found it over.
    pub open spec fn settle(self, flow: FlowView, phase: Phase, inline: Seq<u8>) -> RelayView {
        let stored = RelayView {
            flows: self.flows.insert(self.ctx.src_index, flow),
            phase,
            inline,
            ..self
        };
        if phase is Closing {
            stored.closed(self.ctx.src_index)
        } else {
            stored
        }
    }

    /// Whether `event` answers what the engine is waiting on.
    pub open spec fn fits(self, event: Event) -> bool {
        match self.phase {
            Phase::Polling => event is Polled || event == Event::Io(Io::Failed),
            Phase::Draining => event is Ready || event is Drained,
            Phase::Accepting => event is Accepted || event == Event::Io(Io::WouldBlock) || event
                == Event::Io(Io::Failed),
            Phase::Resolving { src_fd, peer } => event is Target,
            Phase::Connecting { src_fd, src_port, target } => event is Connected || event
                == Event::Io(Io::Failed),
            Phase::RegisteringSrc { src_fd, dest_fd } => event is Done || event == Event::Io(
                Io::Failed,
            ),
            Phase::RegisteringDest { src_fd, dest_fd } => event is Done || event == Event::Io(
                Io::Failed,
            ),
            Phase::Adopting { src_fd, dest_fd } => event is Done,
            Phase::Closing { src_fd, dest_fd } => event is Done,
            Phase::Stopped { clean } => false,
            _ => self.flows.contains_key(self.ctx.src_index) && self.flows[self.ctx.src_index].fits(
                self.inline,
                self.ctx,
                self.phase,
                event,
            ),
        }
    }

    /// Whether the engine is in the accept loop.
    pub open spec fn accepting(self) -> bool {
        self.phase is Accepting || self.phase is Resolving || self.phase is Connecting
            || self.phase is RegisteringSrc || self.phase is RegisteringDest
            || self.phase is Adopting
    }

    /// Whether the engine is not in the middle of a flow's readiness event.
    pub open spec fn idle(self) -> bool {
        !(self.phase is Reading || self.phase is Flushing || self.phase is Shutting)
    }

    /// The engine with `phase` as what it waits for.
    pub open spec fn at(self, phase: Phase) -> RelayView {
        RelayView { phase, ..self }
    }

    /// One step of the accept loop, for an event that fits.
    ///
    /// An accepted socket is given up where its handle is reserved or its
    /// peer has an IPv6 address; otherwise the NAT table is asked for the
    /// peer. A peer that the table does not hold is given up. For one that
    /// it holds, a connection to the target is opened from the peer's
    /// port; it is given up where that fails or its handle is reserved.
    /// Then the accepted socket is registered, then the connected one, and
    /// once both are, the flow is entered under the accepted socket's
    /// handle, with the connected socket's handle mapped to it. After a
    /// socket was given up, and after a failed accept, the next connection
    /// is accepted; the loop ends when accepting would block.
    pub open spec fn accept_step(self, event: Event) -> (RelayView, Action) {
        let again = (self.at(Phase::Accepting), Action::Accept);
        match (self.phase, event) {
            (Phase::Accepting, Event::Accepted { fd, peer }) => match peer {
                Some(peer) => if reserved(fd) {
                    again
                } else {
                    (self.at(Phase::Resolving { src_fd: fd, peer }), Action::Lookup { peer })
                },
                None => again,
            },
            (Phase::Accepting, Event::Io(Io::WouldBlock)) => (
                self.at(Phase::Draining),
                Action::Next,
            ),
            (Phase::Resolving { src_fd, peer }, Event::Target(Some(target))) => (
                self.at(Phase::Connecting { src_fd, src_port: peer.port, target }),
                Action::Connect { src_port: peer.port, target },
            ),
            (Phase::Connecting { src_fd, src_port, target }, Event::Connected { fd }) => if reserved(
                fd,
            ) {
                again
            } else {
                (
                    self.at(Phase::RegisteringSrc { src_fd, dest_fd: fd }),
                    Action::Register { fd: src_fd },
                )
            },
            (Phase::RegisteringSrc { src_fd, dest_fd }, Event::Done) => (
                self.at(Phase::RegisteringDest { src_fd, dest_fd }),
                Action::Register { fd: dest_fd },
            ),
            (Phase::RegisteringDest { src_fd, dest_fd }, Event::Done) => (
                RelayView {
                    flows: self.flows.insert(src_fd, fresh_flow(src_fd, dest_fd)),
                    mapping: self.mapping.insert(dest_fd, src_fd),
                    phase: Phase::Adopting { src_fd, dest_fd },
                    ..self
                },
                Action::Adopt { src_fd, dest_fd },
            ),
            _ => again,
        }
    }

    /// The readiness event `readiness` on `token` taken up: the listener's
    /// token starts the accept loop, the wakeup's token ends the engine,
    /// and any other token starts the handling of its flow, if it has one.
    pub open spec fn ready(self, token: usize, readiness: Readiness) -> (RelayView, Action) {
        if token == SERVER_VAL {
            (self.at(Phase::Accepting), Action::Accept)
        } else if token == NOTIFY_VAL {
            (self.at(Phase::Stopped { clean: true }), Action::Exit)
        } else {
            match self.owner(token) {
                Some(src_index) => {
                    let flow = self.flows[src_index];
                    let ctx = Ctx { index: token, peer: flow.peer(token), src_index, readiness };
                    let turn = flow.stage_readable(ctx);
                    (
                        RelayView { ctx, ..self }.settle(turn.flow, turn.phase, Seq::empty()),
                        turn.action,
                    )
                },
                None => (self, Action::Next),
            }
        }
    }

    /// One step of the handling of a flow's readiness event, for an event
    /// that fits.
    pub open spec fn flow_step(self, event: Event) -> (RelayView, Action) {
        let (turn, inline) = self.flows[self.ctx.src_index].step(
            self.inline,
            self.ctx,
            self.phase,
            event,
        );
        (self.settle(turn.flow, turn.phase, inline), turn.action)
    }

    /// One step of the engine. An event that does not answer what the
    /// engine is waiting on changes nothing, and the same is asked again.
    ///
    /// The poller's return ends the engine if the stop flag is set, its
    /// failure ends it with an error, and otherwise the batch of readiness
    /// events is gone through; at its end the poller is asked again.
    pub open spec fn step(self, event: Event) -> (RelayView, Action) {
        if !self.fits(event) {
            (self, self.pending())
        } else {
            match self.phase {
                Phase::Polling => match event {
                    Event::Polled { stopped } => if stopped {
                        (self.at(Phase::Stopped { clean: true }), Action::Exit)
                    } else {
                        (self.at(Phase::Draining), Action::Next)
                    },
                    _ => (self.at(Phase::Stopped { clean: false }), Action::Abort),
                },
                Phase::Draining => match event {
                    Event::Ready { token, readiness } => self.ready(token, readiness),
                    _ => (self.at(Phase::Polling), Action::Poll),
                },
                Phase::Accepting => self.accept_step(event),
                Phase::Resolving { src_fd, peer } => self.accept_step(event),
                Phase::Connecting { src_fd, src_port, target } => self.accept_step(event),
                Phase::RegisteringSrc { src_fd, dest_fd } => self.accept_step(event),
                Phase::RegisteringDest { src_fd, dest_fd } => self.accept_step(event),
                Phase::Adopting { src_fd, dest_fd } => self.accept_step(event),
                Phase::Closing { src_fd, dest_fd } => (self.at(Phase::Draining), Action::Next),
                Phase::Stopped { clean } => (self, self.pending()),
                _ => self.flow_step(event),
            }
        }
    }

    /// Whether the engine is well formed: every flow is within capacity,
    /// is keyed by the handle of its accepted socket, and uses no reserved
    /// handle; no reserved handle is mapped; and the flow at hand exists
    /// and is as the phase needs it.
    pub open spec fn wf(self) -> bool {
        &&& forall|k: usize| #[trigger]
            self.flows.contains_key(k) ==> {
                &&& self.flows[k].within_cap()
                &&& self.flows[k].src_fd == k
                &&& !reserved(k)
                &&& !reserved(self.flows[k].dest_fd)
            }
        &&& forall|d: usize| #[trigger] self.mapping.contains_key(d) ==> !reserved(d)
        &&& match self.phase {
            Phase::Reading { follow_up, max } => self.flows.contains_key(self.ctx.src_index)
                && self.flows[self.ctx.src_index].settled(self.inline, self.ctx, self.phase),
            Phase::Flushing { was_full } => self.flows.contains_key(self.ctx.src_index)
                && self.flows[self.ctx.src_index].settled(self.inline, self.ctx, self.phase),
            Phase::Shutting { fd, how, next } => self.flows.contains_key(self.ctx.src_index)
                && self.flows[self.ctx.src_index].settled(self.inline, self.ctx, self.phase),
            Phase::Resolving { src_fd, peer } => !reserved(src_fd) && self.inline.len() == 0,
            Phase::Connecting { src_fd, src_port, target } => !reserved(src_fd)
                && self.inline.len() == 0,
            Phase::RegisteringSrc { src_fd, dest_fd } => !reserved(src_fd) && !reserved(dest_fd)
                && self.inline.len() == 0,
            Phase::RegisteringDest { src_fd, dest_fd } => !reserved(src_fd) && !reserved(dest_fd)
                && self.inline.len() == 0,
            _ => self.inline.len() == 0,
        }
    }
}

impl View for Relay {
    type V = RelayView;

    closed spec fn view(&self) -> RelayView {
        RelayView {
            flows: flow_views(self.tcp_map@),
            mapping: self.mapping@,
            phase: self.phase,
            ctx: self.ctx,
            inline: contents(self.inline),
        }
    }
}

/// Whether `fd` is one of the two reserved tokens.
pub fn is_reserved(fd: usize) -> (r: bool)
    ensures
        r == reserved(fd),
{
    fd == SERVER_VAL || fd == NOTIFY_VAL
}

impl Relay {
    /// An engine without flows, about to poll.
    pub fn new() -> (r: Relay)
        ensures
            r@ == initial(),
            r@.wf(),
    {
        let r = Relay {
            tcp_map: HashMap::with_capacity(16),
            mapping: HashMap::with_capacity(16),
            phase: Phase::Polling,
            ctx: Ctx {
                index: 0,
                peer: 0,
                src_index: 0,
                readiness: Readiness {
                    readable: false,
                    writable: false,
                    read_closed: false,
                    write_closed: false,
                },
            },
            inline: BytesMut::with_capacity(BUF_LEN),
        };
        assert(flow_views(r.tcp_map@) =~= Map::empty());
        r
    }

    /// What the engine is waiting for.
    pub fn phase(&self) -> (phase: Phase)
        ensures
            phase == self@.phase,
    {
        self.phase
    }

    /// The number of flows.
    pub fn flow_count(&self) -> (n: usize)
        ensures
            n == self@.flows.len(),
    {
        proof {
            lemma_flow_views_len(self.tcp_map@);
        }
        self.tcp_map.len()
    }

    /// The record of the flow with the key `src_fd`, if there is one.
    pub fn flow(&self, src_fd: usize) -> (r: Option<&ProxyValue>)
        ensures
            match r {
                Some(v) => self@.flows.contains_key(src_fd) && v@ == self@.flows[src_fd],
                None => !self@.flows.contains_key(src_fd),
            },
    {
        self.tcp_map.get(&src_fd)
    }

    /// The key that the handle `dest_fd` of a connected socket is mapped
    /// to, if it is mapped.
    pub fn mapped(&self, dest_fd: usize) -> (r: Option<usize>)
        ensures
            match r {
                Some(k) => self@.mapping.contains_key(dest_fd) && k == self@.mapping[dest_fd],
                None => !self@.mapping.contains_key(dest_fd),
            },
    {
        match self.mapping.get(&dest_fd) {
            Some(k) => Some(*k),
            None => None,
        }
    }

    /// The key of the flow that the socket `token` belongs to.
    pub fn owner(&self, token: usize) -> (r: Option<usize>)
        ensures
            r == self@.owner(token),
    {
        if self.tcp_map.contains_key(&token) {
            Some(token)
        } else {
            match self.mapping.get(&token) {
                Some(k) => if self.tcp_map.contains_key(k) {
                    Some(*k)
                } else {
                    None
                },
                None => None,
            }
        }
    }

    /// The action that the engine is waiting on.
    pub fn pending(&self) -> (action: Action)
        ensures
            action == self@.pending(),
    {
        match self.phase {
            Phase::Polling => Action::Poll,
            Phase::Draining => Action::Next,
            Phase::Accepting => Action::Accept,
            Phase::Resolving { src_fd: _, peer } => Action::Lookup { peer },
            Phase::Connecting { src_fd: _, src_port, target } => Action::Connect {
                src_port,
                target,
            },
            Phase::RegisteringSrc { src_fd, dest_fd: _ } => Action::Register { fd: src_fd },
            Phase::RegisteringDest { src_fd: _, dest_fd } => Action::Register { fd: dest_fd },
            Phase::Adopting { src_fd, dest_fd } => Action::Adopt { src_fd, dest_fd },
            Phase::Reading { follow_up, max } => {
                if self.inline.is_empty() {
                    Action::Read { fd: if follow_up { self.ctx.peer } else { self.ctx.index }, max }
                } else {
                    Action::Write { fd: if follow_up { self.ctx.index } else { self.ctx.peer } }
                }
            },
            Phase::Flushing { was_full: _ } => Action::Write { fd: self.ctx.index },
            Phase::Shutting { fd, how, next: _ } => Action::Shutdown { fd, how },
            Phase::Closing { src_fd, dest_fd } => Action::Close { src_fd, dest_fd },
            Phase::Stopped { clean } => if clean {
                Action::Exit
            } else {
                Action::Abort
            },
        }
    }

    /// The bytes on offer for the write that the engine is waiting on.
    pub fn offered(&self) -> (bytes: &[u8])
        ensures
            bytes@ == self@.offered(),
    {
        match self.phase {
            Phase::Reading { follow_up: _, max: _ } => as_slice(&self.inline),
            Phase::Flushing { was_full: _ } => match self.tcp_map.get(&self.ctx.src_index) {
                Some(val) => val.waiting_for(self.ctx.index),
                None => {
                    let none: &[u8] = &[];
                    none
                },
            },
            _ => {
                let none: &[u8] = &[];
                none
            },
        }
    }

    /// Whether `event` answers what the engine is waiting on.
    pub fn fits(&self, event: &Event) -> (ok: bool)
        ensures
            ok == self@.fits(*event),
    {
        match self.phase {
            Phase::Polling => match event {
                Event::Polled { stopped: _ } => true,
                Event::Io(Io::Failed) => true,
                _ => false,
            },
            Phase::Draining => match event {
                Event::Ready { token: _, readiness: _ } => true,
                Event::Drained => true,
                _ => false,
            },
            Phase::Accepting => match event {
                Event::Accepted { fd: _, peer: _ } => true,
                Event::Io(Io::WouldBlock) => true,
                Event::Io(Io::Failed) => true,
                _ => false,
            },
            Phase::Resolving { src_fd: _, peer: _ } => match event {
                Event::Target(_) => true,
                _ => false,
            },
            Phase::Connecting { src_fd: _, src_port: _, target: _ } => match event {
                Event::Connected { fd: _ } => true,
                Event::Io(Io::Failed) => true,
                _ => false,
            },
            Phase::RegisteringSrc { src_fd: _, dest_fd: _ } => match event {
                Event::Done => true,
                Event::Io(Io::Failed) => true,
                _ => false,
            },
            Phase::RegisteringDest { src_fd: _, dest_fd: _ } => match event {
                Event::Done => true,
                Event::Io(Io::Failed) => true,
                _ => false,
            },
            Phase::Adopting { src_fd: _, dest_fd: _ } => match event {
                Event::Done => true,
                _ => false,
            },
            Phase::Closing { src_fd: _, dest_fd: _ } => match event {
                Event::Done => true,
                _ => false,
            },
            Phase::Stopped { clean: _ } => false,
            _ => match self.tcp_map.get(&self.ctx.src_index) {
                Some(val) => val.fits(&self.inline, self.ctx, self.phase, event),
                None => false,
            },
        }
    }

    /// Ends the flow `index`: its record and both of its handles are
    /// forgotten. An index that is no key changes nothing.
    pub fn close(&mut self, index: usize)
        ensures
            final(self)@ == old(self)@.closed(index),
            old(self)@.wf() && (old(self)@.idle() || index != old(self)@.ctx.src_index)
                ==> final(self)@.wf(),
    {
        match self.tcp_map.remove(&index) {
            Some(val) => {
                self.mapping.remove(&val.src_fd);
                self.mapping.remove(&val.dest_fd);
                assert(flow_views(self.tcp_map@) =~= flow_views(old(self).tcp_map@).remove(index));
            },
            None => {
                assert(flow_views(self.tcp_map@) =~= flow_views(old(self).tcp_map@));
            },
        }
    }

    /// Stores the record of the flow at hand after a step, and closes the
    /// flow where the step found it over.
    fn settle(&mut self, val: ProxyValue, phase: Phase)
        ensures
            final(self)@ == old(self)@.settle(val@, phase, old(self)@.inline),
    {
        self.tcp_map.insert(self.ctx.src_index, val);
        self.phase = phase;
        assert(flow_views(self.tcp_map@) =~= flow_views(old(self).tcp_map@).insert(
            self.ctx.src_index,
            val@,
        ));
        if let Phase::Closing { src_fd: _, dest_fd: _ } = phase {
            self.close(self.ctx.src_index);
        }
    }

    /// Takes the accept loop one step further. An event that the loop has
    /// no use for gives the connection at hand up, like a failure.
    pub fn accept_handle(&mut self, event: Event) -> (action: Action)
        ensures
            (final(self)@, action) == old(self)@.accept_step(event),
            old(self)@.wf() && old(self)@.accepting() ==> final(self)@.wf(),
    {
        proof {
            if self@.wf() && self@.accepting() {
                lemma_accept_keeps_wf(self@, event);
            }
        }
        match (self.phase, event) {
            (Phase::Accepting, Event::Accepted { fd, peer: Some(peer) }) => {
                if !is_reserved(fd) {
                    self.phase = Phase::Resolving { src_fd: fd, peer };
                    return Action::Lookup { peer };
                }
            },
            (Phase::Accepting, Event::Io(Io::WouldBlock)) => {
                self.phase = Phase::Draining;
                return Action::Next;
            },
            (Phase::Resolving { src_fd, peer }, Event::Target(Some(target))) => {
                self.phase = Phase::Connecting { src_fd, src_port: peer.port, target };
                return Action::Connect { src_port: peer.port, target };
            },
            (Phase::Connecting { src_fd, src_port: _, target: _ }, Event::Connected { fd }) => {
                if !is_reserved(fd) {
                    self.phase = Phase::RegisteringSrc { src_fd, dest_fd: fd };
                    return Action::Register { fd: src_fd };
                }
            },
            (Phase::RegisteringSrc { src_fd, dest_fd }, Event::Done) => {
                self.phase = Phase::RegisteringDest { src_fd, dest_fd };
                return Action::Register { fd: dest_fd };
            },
            (Phase::RegisteringDest { src_fd, dest_fd }, Event::Done) => {
                let val = ProxyValue::new(src_fd, dest_fd);
                self.tcp_map.insert(src_fd, val);
                self.mapping.insert(dest_fd, src_fd);
                self.phase = Phase::Adopting { src_fd, dest_fd };
                assert(flow_views(self.tcp_map@) =~= flow_views(old(self).tcp_map@).insert(
                    src_fd,
                    fresh_flow(src_fd, dest_fd),
                ));
                return Action::Adopt { src_fd, dest_fd };
            },
            _ => {},
        }
        self.phase = Phase::Accepting;
        Action::Accept
    }

    /// Takes up a readiness event of the batch.
    fn ready(&mut self, token: usize, readiness: Readiness) -> (action: Action)
        ensures
            (final(self)@, action) == old(self)@.ready(token, readiness),
    {
        if token == SERVER_VAL {
            self.phase = Phase::Accepting;
            Action::Accept
        } else if token == NOTIFY_VAL {
            self.phase = Phase::Stopped { clean: true };
            Action::Exit
        } else {
            match self.owner(token) {
                Some(src_index) => match self.tcp_map.remove(&src_index) {
                    Some(mut val) => {
                        let ctx = Ctx { index: token, peer: val.peer(token), src_index, readiness };
                        self.ctx = ctx;
                        let (phase, action) = val.begin(ctx);
                        self.inline.clear();
                        assert(flow_views(self.tcp_map@) =~= flow_views(old(self).tcp_map@).remove(
                            src_index,
                        ));
                        self.settle(val, phase);
                        assert(flow_views(old(self).tcp_map@).remove(src_index).insert(
                            src_index,
                            val@,
                        ) =~= flow_views(old(self).tcp_map@).insert(src_index, val@));
                        action
                    },
                    None => Action::Next,
                },
                None => Action::Next,
            }
        }
    }

    /// Takes the handling of the flow at hand one step further.
    fn flow_event(&mut self, event: Event) -> (action: Action)
        requires
            old(self)@.wf(),
            old(self)@.fits(event),
            old(self)@.phase is Reading || old(self)@.phase is Flushing || old(self)@.phase
                is Shutting,
        ensures
            (final(self)@, action) == old(self)@.flow_step(event),
    {
        let ctx = self.ctx;
        let before = self.phase;
        match self.tcp_map.remove(&ctx.src_index) {
            Some(mut val) => {
                let (phase, action) = val.handle(&mut self.inline, ctx, before, event);
                assert(flow_views(self.tcp_map@) =~= flow_views(old(self).tcp_map@).remove(
                    ctx.src_index,
                ));
                self.settle(val, phase);
                assert(flow_views(old(self).tcp_map@).remove(ctx.src_index).insert(
                    ctx.src_index,
                    val@,
                ) =~= flow_views(old(self).tcp_map@).insert(ctx.src_index, val@));
                action
            },
            None => Action::Next,
        }
    }

    /// Takes the engine one step further: `event` is what came of the
    /// action that the engine asked for last, and the result is what it
    /// asks for next.
    pub fn tcp_proxy(&mut self, event: Event) -> (action: Action)
        requires
            old(self)@.wf(),
        ensures
            (final(self)@, action) == old(self)@.step(event),
            final(self)@.wf(),
    {
        proof {
            lemma_step_keeps_wf(self@, event);
        }
        if !self.fits(&event) {
            return self.pending();
        }
        match self.phase {
            Phase::Polling => match event {
                Event::Polled { stopped } => {
                    if stopped {
                        self.phase = Phase::Stopped { clean: true };
                        Action::Exit
                    } else {
                        self.phase = Phase::Draining;
                        Action::Next
                    }
                },
                _ => {
                    self.phase = Phase::Stopped { clean: false };
                    Action::Abort
                },
            },
            Phase::Draining => match event {
                Event::Ready { token, readiness } => self.ready(token, readiness),
                _ => {
                    self.phase = Phase::Polling;
                    Action::Poll
                },
            },
            Phase::Accepting => self.accept_handle(event),
            Phase::Resolving { src_fd: _, peer: _ } => self.accept_handle(event),
            Phase::Connecting { src_fd: _, src_port: _, target: _ } => self.accept_handle(event),
            Phase::RegisteringSrc { src_fd: _, dest_fd: _ } => self.accept_handle(event),
            Phase::RegisteringDest { src_fd: _, dest_fd: _ } => self.accept_handle(event),
            Phase::Adopting { src_fd: _, dest_fd: _ } => self.accept_handle(event),
            Phase::Closing { src_fd: _, dest_fd: _ } => {
                self.phase = Phase::Draining;
                Action::Next
            },
            Phase::Stopped { clean: _ } => self.pending(),
            _ => self.flow_event(event),
        }
    }
}

/// A map of flows holds as many records as it has views.
proof fn lemma_flow_views_len(m: Map<usize, ProxyValue>)
    requires
        m.dom().finite(),
    ensures
        flow_views(m).len() == m.len(),
{
    assert(flow_views(m).dom() =~= m.dom());
}

} // verus!
