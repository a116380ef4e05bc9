//! The relay record of one flow, and the handling of a readiness event on
//! one of its sockets.

use crate::buffer::{as_slice, contents, BUF_LEN};
use crate::drain::{
    read_drain_step, read_round, readable_begin, readable_handle, room, room_of,
    writable_begin, writable_handle, write_drain_step, write_round, Drain, Io, ReadDrain,
};
use crate::event::{Action, Ctx, Event, Phase, Stage};
use crate::shutdown::{and_shutdown_state, combine, Shutdown};
use bytes::BytesMut;
use vstd::prelude::*;

verus! {

/// The relay record of one flow: the handles of its two sockets, one drain
/// buffer per direction and the half-close state of each socket.
#[derive(Debug)]
pub struct ProxyValue {
    pub src_fd: usize,
    pub dest_fd: usize,
    pub src_buf: BytesMut,
    pub dest_buf: BytesMut,
    pub src_state: Option<Shutdown>,
    pub dest_state: Option<Shutdown>,
}

/// What a relay record holds, as plain values.
pub struct FlowView {
    pub src_fd: usize,
    pub dest_fd: usize,
    pub src_buf: Seq<u8>,
    pub dest_buf: Seq<u8>,
    pub src_state: Option<Shutdown>,
    pub dest_state: Option<Shutdown>,
}

impl FlowView {
    /// The buffer of bytes read from the socket `index`.
    pub open spec fn buf1(self, index: usize) -> Seq<u8> {
        if index == self.src_fd {
            self.src_buf
        } else {
            self.dest_buf
        }
    }

    /// The buffer of bytes read from the peer of the socket `index`.
    pub open spec fn buf2(self, index: usize) -> Seq<u8> {
        if index == self.src_fd {
            self.dest_buf
        } else {
            self.src_buf
        }
    }

    /// The half-close state of the socket `index`.
    pub open spec fn state1(self, index: usize) -> Option<Shutdown> {
        if index == self.src_fd {
            self.src_state
        } else {
            self.dest_state
        }
    }

    /// The half-close state of the peer of the socket `index`.
    pub open spec fn state2(self, index: usize) -> Option<Shutdown> {
        if index == self.src_fd {
            self.dest_state
        } else {
            self.src_state
        }
    }

    /// The handle of the peer of the socket `index`.
    pub open spec fn peer(self, index: usize) -> usize {
        if index == self.src_fd {
            self.dest_fd
        } else {
            self.src_fd
        }
    }

    /// This record with its buffers and states replaced, each named as the
    /// socket `index` sees it.
    pub open spec fn seen_from(
        self,
        index: usize,
        buf1: Seq<u8>,
        buf2: Seq<u8>,
        state1: Option<Shutdown>,
        state2: Option<Shutdown>,
    ) -> FlowView {
        if index == self.src_fd {
            FlowView {
                src_buf: buf1,
                dest_buf: buf2,
                src_state: state1,
                dest_state: state2,
                ..self
            }
        } else {
            FlowView {
                src_buf: buf2,
                dest_buf: buf1,
                src_state: state2,
                dest_state: state1,
                ..self
            }
        }
    }
}

impl View for ProxyValue {
    type V = FlowView;

    open spec fn view(&self) -> FlowView {
        FlowView {
            src_fd: self.src_fd,
            dest_fd: self.dest_fd,
            src_buf: contents(self.src_buf),
            dest_buf: contents(self.dest_buf),
            src_state: self.src_state,
            dest_state: self.dest_state,
        }
    }
}

/// A flow after one step of the handling of a readiness event: the record,
/// what the engine waits for next, and what it asks for.
pub struct Turn {
    pub flow: FlowView,
    pub phase: Phase,
    pub action: Action,
}

impl FlowView {
    /// This record with `state` as the state of the socket `index`.
    pub open spec fn with_state1(self, index: usize, state: Option<Shutdown>) -> FlowView {
        self.seen_from(index, self.buf1(index), self.buf2(index), state, self.state2(index))
    }

    /// This record with `state` as the state of the peer of `index`.
    pub open spec fn with_state2(self, index: usize, state: Option<Shutdown>) -> FlowView {
        self.seen_from(index, self.buf1(index), self.buf2(index), self.state1(index), state)
    }

    /// Whether the flow is over, as the socket `index` sees it: both
    /// states are set, and
    /// - this socket is retired in both halves, and the peer's writing
    ///   half is retired or nothing waits to be written to the peer, or
    /// - the peer is retired in both halves and this socket's writing half
    ///   is retired, or
    /// - nothing waits to be written to this socket, or
    /// - both states are equal, and they are `Both` or `Write` or nothing
    ///   waits in either direction.
    pub open spec fn is_over(self, index: usize) -> bool {
        let s1 = self.state1(index);
        let s2 = self.state2(index);
        let idle1 = self.buf1(index).len() == 0;
        let idle2 = self.buf2(index).len() == 0;
        s1 is Some && s2 is Some && ({
            ||| s1 == Some(Shutdown::Both) && (s2 == Some(Shutdown::Write) || idle1)
            ||| s2 == Some(Shutdown::Both) && s1 == Some(Shutdown::Write)
            ||| idle2
            ||| s1 == s2 && (s1 == Some(Shutdown::Both) || s1 == Some(Shutdown::Write) || (idle1
                && idle2))
        })
    }

    /// The end of an event's handling: the flow is closed where it is
    /// over, and the next event is taken up otherwise.
    pub open spec fn finish(self, c: Ctx) -> Turn {
        if self.is_over(c.index) {
            Turn {
                flow: self,
                phase: Phase::Closing { src_fd: self.src_fd, dest_fd: self.dest_fd },
                action: Action::Close { src_fd: self.src_fd, dest_fd: self.dest_fd },
            }
        } else {
            Turn { flow: self, phase: Phase::Draining, action: Action::Next }
        }
    }

    /// Where the socket reported its writing half closed: the peer's
    /// reading half is shut down and the writing half of this socket is
    /// retired.
    pub open spec fn stage_write_closed(self, c: Ctx) -> Turn {
        if c.readiness.write_closed {
            Turn {
                flow: self.with_state1(
                    c.index,
                    Some(combine(self.state1(c.index), Shutdown::Write)),
                ),
                phase: Phase::Shutting { fd: c.peer, how: Shutdown::Read, next: Stage::Finish },
                action: Action::Shutdown { fd: c.peer, how: Shutdown::Read },
            }
        } else {
            self.finish(c)
        }
    }

    /// Where the socket reported its reading half closed: that half is
    /// retired, and the peer's writing half is shut down if nothing waits
    /// to be written to the peer.
    pub open spec fn stage_read_closed(self, c: Ctx) -> Turn {
        if c.readiness.read_closed {
            let retired = self.with_state1(
                c.index,
                Some(combine(self.state1(c.index), Shutdown::Read)),
            );
            if self.buf1(c.index).len() == 0 {
                Turn {
                    flow: retired,
                    phase: Phase::Shutting {
                        fd: c.peer,
                        how: Shutdown::Write,
                        next: Stage::WriteClosed,
                    },
                    action: Action::Shutdown { fd: c.peer, how: Shutdown::Write },
                }
            } else {
                retired.stage_write_closed(c)
            }
        } else {
            self.stage_write_closed(c)
        }
    }

    /// How the read-drain from the peer, which follows the write-drain of
    /// a buffer that was full, goes on once it asks for `next`. A broken
    /// drain retires the peer's reading half and, if nothing waits to be
    /// written to this socket, shuts this socket's writing half down.
    pub open spec fn second_drain(self, c: Ctx, next: Drain) -> Turn {
        match next {
            Drain::Read => Turn {
                flow: self,
                phase: Phase::Reading { follow_up: true, max: room(self.buf2(c.index)) },
                action: Action::Read { fd: c.peer, max: room(self.buf2(c.index)) },
            },
            Drain::Write => Turn {
                flow: self,
                phase: Phase::Reading { follow_up: true, max: 0 },
                action: Action::Write { fd: c.index },
            },
            Drain::Finished => self.stage_read_closed(c),
            Drain::Broken => {
                let retired = self.with_state2(
                    c.index,
                    Some(combine(self.state2(c.index), Shutdown::Read)),
                );
                if self.buf2(c.index).len() == 0 {
                    Turn {
                        flow: retired,
                        phase: Phase::Shutting {
                            fd: c.index,
                            how: Shutdown::Write,
                            next: Stage::ReadClosed,
                        },
                        action: Action::Shutdown { fd: c.index, how: Shutdown::Write },
                    }
                } else {
                    retired.stage_read_closed(c)
                }
            },
        }
    }

    /// How the write-drain to the socket goes on once it asks for `next`.
    /// A broken drain drops what waits for this socket, shuts the peer's
    /// reading half down and retires this socket's writing half. A drain
    /// that ends well is followed by a read-drain from the peer if the
    /// buffer was full when it began.
    pub open spec fn write_drain(self, c: Ctx, was_full: bool, next: Drain) -> Turn {
        match next {
            Drain::Write => Turn {
                flow: self,
                phase: Phase::Flushing { was_full },
                action: Action::Write { fd: c.index },
            },
            Drain::Finished => if was_full {
                self.second_drain(c, read_round(self.buf2(c.index)))
            } else {
                self.stage_read_closed(c)
            },
            _ => Turn {
                flow: self.seen_from(
                    c.index,
                    self.buf1(c.index),
                    Seq::empty(),
                    Some(combine(self.state1(c.index), Shutdown::Write)),
                    self.state2(c.index),
                ),
                phase: Phase::Shutting {
                    fd: c.peer,
                    how: Shutdown::Read,
                    next: Stage::ReadClosed,
                },
                action: Action::Shutdown { fd: c.peer, how: Shutdown::Read },
            },
        }
    }

    /// Where the socket is writable: what waits for it is written.
    pub open spec fn stage_writable(self, c: Ctx) -> Turn {
        if c.readiness.writable {
            self.write_drain(
                c,
                self.buf2(c.index).len() >= BUF_LEN,
                write_round(self.buf2(c.index)),
            )
        } else {
            self.stage_read_closed(c)
        }
    }

    /// How the read-drain from the socket goes on once it asks for `next`.
    /// A broken drain retires this socket's reading half and, if nothing
    /// waits to be written to the peer, shuts the peer's writing half down.
    pub open spec fn first_drain(self, c: Ctx, next: Drain) -> Turn {
        match next {
            Drain::Read => Turn {
                flow: self,
                phase: Phase::Reading { follow_up: false, max: room(self.buf1(c.index)) },
                action: Action::Read { fd: c.index, max: room(self.buf1(c.index)) },
            },
            Drain::Write => Turn {
                flow: self,
                phase: Phase::Reading { follow_up: false, max: 0 },
                action: Action::Write { fd: c.peer },
            },
            Drain::Finished => self.stage_writable(c),
            Drain::Broken => {
                let retired = self.with_state1(
                    c.index,
                    Some(combine(self.state1(c.index), Shutdown::Read)),
                );
                if self.buf1(c.index).len() == 0 {
                    Turn {
                        flow: retired,
                        phase: Phase::Shutting {
                            fd: c.peer,
                            how: Shutdown::Write,
                            next: Stage::Writable,
                        },
                        action: Action::Shutdown { fd: c.peer, how: Shutdown::Write },
                    }
                } else {
                    retired.stage_writable(c)
                }
            },
        }
    }

    /// Where the socket is readable: it is drained towards the peer.
    pub open spec fn stage_readable(self, c: Ctx) -> Turn {
        if c.readiness.readable {
            self.first_drain(c, read_round(self.buf1(c.index)))
        } else {
            self.stage_writable(c)
        }
    }

    /// The handling taken up again at `next`.
    pub open spec fn resume(self, c: Ctx, next: Stage) -> Turn {
        match next {
            Stage::Writable => self.stage_writable(c),
            Stage::ReadClosed => self.stage_read_closed(c),
            Stage::WriteClosed => self.stage_write_closed(c),
            Stage::Finish => self.finish(c),
        }
    }
}

impl FlowView {
    /// Whether both buffers are within capacity.
    pub open spec fn within_cap(self) -> bool {
        self.src_buf.len() <= BUF_LEN && self.dest_buf.len() <= BUF_LEN
    }

    /// The buffer that a read-drain fills: that of the socket `index`, or
    /// for the drain that follows a write-drain, that of its peer.
    pub open spec fn mid(self, index: usize, follow_up: bool) -> Seq<u8> {
        if follow_up {
            self.buf2(index)
        } else {
            self.buf1(index)
        }
    }

    /// This record after a read-drain went one step, to `d`.
    pub open spec fn after_read(self, index: usize, follow_up: bool, d: ReadDrain) -> FlowView {
        if follow_up {
            self.seen_from(index, self.buf1(index), d.mid, self.state1(index), d.state2)
        } else {
            self.seen_from(index, d.mid, self.buf2(index), self.state1(index), d.state2)
        }
    }

    /// Whether the flow and the inline bytes are as `phase` needs them:
    /// nothing is held beyond capacity; while a read is awaited, the read
    /// fits into the room that is left; inline bytes are only held during
    /// a read-drain, and then the buffer is empty.
    pub open spec fn settled(self, inline: Seq<u8>, c: Ctx, phase: Phase) -> bool {
        &&& self.within_cap()
        &&& inline.len() <= BUF_LEN
        &&& match phase {
            Phase::Reading { follow_up, max } => if inline.len() == 0 {
                self.mid(c.index, follow_up).len() + max <= BUF_LEN
            } else {
                self.mid(c.index, follow_up).len() == 0
            },
            _ => inline.len() == 0,
        }
    }

    /// Whether `event` answers what `phase` asked of the driver for this
    /// flow: a read brings no more bytes than were asked for, and a write
    /// takes no more than were offered.
    pub open spec fn fits(self, inline: Seq<u8>, c: Ctx, phase: Phase, event: Event) -> bool {
        match phase {
            Phase::Reading { follow_up, max } => match event {
                Event::Io(Io::Data(bytes)) => inline.len() == 0 && bytes@.len() <= max,
                Event::Io(Io::Wrote(n)) => 0 < inline.len() && n <= inline.len(),
                Event::Io(_) => true,
                _ => false,
            },
            Phase::Flushing { was_full } => match event {
                Event::Io(Io::Data(bytes)) => false,
                Event::Io(Io::Wrote(n)) => n <= self.buf2(c.index).len(),
                Event::Io(_) => true,
                _ => false,
            },
            Phase::Shutting { fd, how, next } => event is Done || event == Event::Io(Io::Failed),
            _ => false,
        }
    }

    /// The handling of a readiness event taken one step further with an
    /// event that fits: the record and what is asked next, and the inline
    /// bytes that are left.
    pub open spec fn step(self, inline: Seq<u8>, c: Ctx, phase: Phase, event: Event) -> (
        Turn,
        Seq<u8>,
    ) {
        match (phase, event) {
            (Phase::Reading { follow_up, max }, Event::Io(io)) => {
                let (d, next) = read_drain_step(
                    ReadDrain {
                        mid: self.mid(c.index, follow_up),
                        inline,
                        state2: self.state2(c.index),
                    },
                    io,
                );
                let flow = self.after_read(c.index, follow_up, d);
                if follow_up {
                    (flow.second_drain(c, next), d.inline)
                } else {
                    (flow.first_drain(c, next), d.inline)
                }
            },
            (Phase::Flushing { was_full }, Event::Io(io)) => {
                let (mid, next) = write_drain_step(self.buf2(c.index), io);
                let flow = self.seen_from(
                    c.index,
                    self.buf1(c.index),
                    mid,
                    self.state1(c.index),
                    self.state2(c.index),
                );
                (flow.write_drain(c, was_full, next), inline)
            },
            (Phase::Shutting { fd, how, next }, _) => (self.resume(c, next), inline),
            _ => (Turn { flow: self, phase, action: Action::Next }, inline),
        }
    }
}

impl ProxyValue {
    /// A fresh record: both buffers empty, nothing retired.
    pub fn new(src_fd: usize, dest_fd: usize) -> (v: Self)
        ensures
            v@ == (FlowView {
                src_fd,
                dest_fd,
                src_buf: Seq::empty(),
                dest_buf: Seq::empty(),
                src_state: None,
                dest_state: None,
            }),
    {
        Self {
            src_fd,
            dest_fd,
            src_buf: BytesMut::with_capacity(BUF_LEN),
            dest_buf: BytesMut::with_capacity(BUF_LEN),
            src_state: None,
            dest_state: None,
        }
    }

    /// The record as seen from the socket `index`: that socket's buffer
    /// and the peer's, then that socket's state and the peer's. `index`
    /// stands for the accepted socket where it is `src_fd`, and for the
    /// connected one otherwise.
    pub fn as_mut(&mut self, index: usize) -> (r: (
        &mut BytesMut,
        &mut BytesMut,
        &mut Option<Shutdown>,
        &mut Option<Shutdown>,
    ))
        ensures
            contents(*r.0) == old(self)@.buf1(index),
            contents(*r.1) == old(self)@.buf2(index),
            *r.2 == old(self)@.state1(index),
            *r.3 == old(self)@.state2(index),
            final(self)@ == old(self)@.seen_from(
                index,
                contents(*final(r.0)),
                contents(*final(r.1)),
                *final(r.2),
                *final(r.3),
            ),
    {
        if index == self.src_fd {
            (&mut self.src_buf, &mut self.dest_buf, &mut self.src_state, &mut self.dest_state)
        } else {
            (&mut self.dest_buf, &mut self.src_buf, &mut self.dest_state, &mut self.src_state)
        }
    }
}

/// Whether two half-close states are the same.
fn same_state(a: Option<Shutdown>, b: Option<Shutdown>) -> (r: bool)
    ensures
        r == (a == b),
{
    match (a, b) {
        (None, None) => true,
        (Some(Shutdown::Read), Some(Shutdown::Read)) => true,
        (Some(Shutdown::Write), Some(Shutdown::Write)) => true,
        (Some(Shutdown::Both), Some(Shutdown::Both)) => true,
        _ => false,
    }
}

impl ProxyValue {
    /// The handle of the peer of the socket `index`.
    pub fn peer(&self, index: usize) -> (fd: usize)
        ensures
            fd == self@.peer(index),
    {
        if index == self.src_fd {
            self.dest_fd
        } else {
            self.src_fd
        }
    }

    /// The bytes that wait to be written to the socket `index`.
    pub fn waiting_for(&self, index: usize) -> (bytes: &[u8])
        ensures
            bytes@ == self@.buf2(index),
    {
        if index == self.src_fd {
            as_slice(&self.dest_buf)
        } else {
            as_slice(&self.src_buf)
        }
    }

    /// Whether the flow is over, as the socket `index` sees it.
    pub fn is_over(&self, index: usize) -> (over: bool)
        ensures
            over == self@.is_over(index),
    {
        let near = index == self.src_fd;
        let s1 = if near {
            self.src_state
        } else {
            self.dest_state
        };
        let s2 = if near {
            self.dest_state
        } else {
            self.src_state
        };
        let idle1 = if near {
            self.src_buf.is_empty()
        } else {
            self.dest_buf.is_empty()
        };
        let idle2 = if near {
            self.dest_buf.is_empty()
        } else {
            self.src_buf.is_empty()
        };
        if s1.is_none() || s2.is_none() {
            return false;
        }
        let both1 = same_state(s1, Some(Shutdown::Both));
        let both2 = same_state(s2, Some(Shutdown::Both));
        let write1 = same_state(s1, Some(Shutdown::Write));
        let write2 = same_state(s2, Some(Shutdown::Write));
        (both1 && (write2 || idle1)) || (both2 && write1) || idle2 || (same_state(s1, s2) && (both1
            || write1 || (idle1 && idle2)))
    }

    /// Ends the handling of an event: asks for the flow to be closed if
    /// it is over, and for the next event otherwise.
    fn finish(&self, c: Ctx) -> (r: (Phase, Action))
        ensures
            (Turn { flow: self@, phase: r.0, action: r.1 }) == self@.finish(c),
    {
        if self.is_over(c.index) {
            (
                Phase::Closing { src_fd: self.src_fd, dest_fd: self.dest_fd },
                Action::Close { src_fd: self.src_fd, dest_fd: self.dest_fd },
            )
        } else {
            (Phase::Draining, Action::Next)
        }
    }

    /// Handles a writing half that was reported closed, and goes on.
    fn stage_write_closed(&mut self, c: Ctx) -> (r: (Phase, Action))
        ensures
            (Turn { flow: final(self)@, phase: r.0, action: r.1 }) == old(self)@.stage_write_closed(
                c,
            ),
    {
        if c.readiness.write_closed {
            let (_buf1, _buf2, state1, _state2) = self.as_mut(c.index);
            and_shutdown_state(state1, Shutdown::Write);
            (
                Phase::Shutting { fd: c.peer, how: Shutdown::Read, next: Stage::Finish },
                Action::Shutdown { fd: c.peer, how: Shutdown::Read },
            )
        } else {
            self.finish(c)
        }
    }

    /// Handles a reading half that was reported closed, and goes on.
    fn stage_read_closed(&mut self, c: Ctx) -> (r: (Phase, Action))
        ensures
            (Turn { flow: final(self)@, phase: r.0, action: r.1 }) == old(self)@.stage_read_closed(
                c,
            ),
    {
        if c.readiness.read_closed {
            let (buf1, _buf2, state1, _state2) = self.as_mut(c.index);
            let idle = buf1.is_empty();
            and_shutdown_state(state1, Shutdown::Read);
            if idle {
                (
                    Phase::Shutting { fd: c.peer, how: Shutdown::Write, next: Stage::WriteClosed },
                    Action::Shutdown { fd: c.peer, how: Shutdown::Write },
                )
            } else {
                self.stage_write_closed(c)
            }
        } else {
            self.stage_write_closed(c)
        }
    }

    /// Goes on as the read-drain from the peer asks.
    fn second_drain(&mut self, c: Ctx, next: Drain) -> (r: (Phase, Action))
        ensures
            (Turn { flow: final(self)@, phase: r.0, action: r.1 }) == old(self)@.second_drain(
                c,
                next,
            ),
    {
        match next {
            Drain::Read => {
                let (_buf1, buf2, _state1, _state2) = self.as_mut(c.index);
                let max = room_of(buf2);
                (Phase::Reading { follow_up: true, max }, Action::Read { fd: c.peer, max })
            },
            Drain::Write => (
                Phase::Reading { follow_up: true, max: 0 },
                Action::Write { fd: c.index },
            ),
            Drain::Finished => self.stage_read_closed(c),
            Drain::Broken => {
                let (_buf1, buf2, _state1, state2) = self.as_mut(c.index);
                let idle = buf2.is_empty();
                and_shutdown_state(state2, Shutdown::Read);
                if idle {
                    (
                        Phase::Shutting {
                            fd: c.index,
                            how: Shutdown::Write,
                            next: Stage::ReadClosed,
                        },
                        Action::Shutdown { fd: c.index, how: Shutdown::Write },
                    )
                } else {
                    self.stage_read_closed(c)
                }
            },
        }
    }

    /// Goes on as the write-drain to the socket asks.
    fn write_drain(&mut self, c: Ctx, was_full: bool, next: Drain) -> (r: (Phase, Action))
        ensures
            (Turn { flow: final(self)@, phase: r.0, action: r.1 }) == old(self)@.write_drain(
                c,
                was_full,
                next,
            ),
    {
        match next {
            Drain::Write => (Phase::Flushing { was_full }, Action::Write { fd: c.index }),
            Drain::Finished => {
                if was_full {
                    let (_buf1, buf2, _state1, _state2) = self.as_mut(c.index);
                    let round = readable_begin(buf2);
                    self.second_drain(c, round)
                } else {
                    self.stage_read_closed(c)
                }
            },
            _ => {
                let (_buf1, buf2, state1, _state2) = self.as_mut(c.index);
                buf2.clear();
                and_shutdown_state(state1, Shutdown::Write);
                (
                    Phase::Shutting { fd: c.peer, how: Shutdown::Read, next: Stage::ReadClosed },
                    Action::Shutdown { fd: c.peer, how: Shutdown::Read },
                )
            },
        }
    }

    /// Starts the write-drain if the socket is writable, and goes on.
    fn stage_writable(&mut self, c: Ctx) -> (r: (Phase, Action))
        ensures
            (Turn { flow: final(self)@, phase: r.0, action: r.1 }) == old(self)@.stage_writable(c),
    {
        if c.readiness.writable {
            let (_buf1, buf2, _state1, _state2) = self.as_mut(c.index);
            let was_full = buf2.len() >= BUF_LEN;
            let round = writable_begin(buf2);
            self.write_drain(c, was_full, round)
        } else {
            self.stage_read_closed(c)
        }
    }

    /// Goes on as the read-drain from the socket asks.
    fn first_drain(&mut self, c: Ctx, next: Drain) -> (r: (Phase, Action))
        ensures
            (Turn { flow: final(self)@, phase: r.0, action: r.1 }) == old(self)@.first_drain(
                c,
                next,
            ),
    {
        match next {
            Drain::Read => {
                let (buf1, _buf2, _state1, _state2) = self.as_mut(c.index);
                let max = room_of(buf1);
                (Phase::Reading { follow_up: false, max }, Action::Read { fd: c.index, max })
            },
            Drain::Write => (
                Phase::Reading { follow_up: false, max: 0 },
                Action::Write { fd: c.peer },
            ),
            Drain::Finished => self.stage_writable(c),
            Drain::Broken => {
                let (buf1, _buf2, state1, _state2) = self.as_mut(c.index);
                let idle = buf1.is_empty();
                and_shutdown_state(state1, Shutdown::Read);
                if idle {
                    (
                        Phase::Shutting { fd: c.peer, how: Shutdown::Write, next: Stage::Writable },
                        Action::Shutdown { fd: c.peer, how: Shutdown::Write },
                    )
                } else {
                    self.stage_writable(c)
                }
            },
        }
    }

    /// Takes up a readiness event on the socket `c.index` of this flow.
    pub fn begin(&mut self, c: Ctx) -> (r: (Phase, Action))
        ensures
            (Turn { flow: final(self)@, phase: r.0, action: r.1 }) == old(self)@.stage_readable(c),
    {
        if c.readiness.readable {
            let (buf1, _buf2, _state1, _state2) = self.as_mut(c.index);
            let round = readable_begin(buf1);
            self.first_drain(c, round)
        } else {
            self.stage_writable(c)
        }
    }

    /// Goes on at `next` after a shutdown.
    pub fn resume(&mut self, c: Ctx, next: Stage) -> (r: (Phase, Action))
        ensures
            (Turn { flow: final(self)@, phase: r.0, action: r.1 }) == old(self)@.resume(c, next),
    {
        match next {
            Stage::Writable => self.stage_writable(c),
            Stage::ReadClosed => self.stage_read_closed(c),
            Stage::WriteClosed => self.stage_write_closed(c),
            Stage::Finish => self.finish(c),
        }
    }

    /// Whether `event` answers what `phase` asked for.
    pub fn fits(&self, inline: &BytesMut, c: Ctx, phase: Phase, event: &Event) -> (ok: bool)
        ensures
            ok == self@.fits(contents(*inline), c, phase, *event),
    {
        match phase {
            Phase::Reading { follow_up: _, max } => match event {
                Event::Io(Io::Data(bytes)) => inline.is_empty() && bytes.len() <= max,
                Event::Io(Io::Wrote(n)) => !inline.is_empty() && *n <= inline.len(),
                Event::Io(_) => true,
                _ => false,
            },
            Phase::Flushing { was_full: _ } => match event {
                Event::Io(Io::Data(_)) => false,
                Event::Io(Io::Wrote(n)) => *n <= self.waiting_for(c.index).len(),
                Event::Io(_) => true,
                _ => false,
            },
            Phase::Shutting { fd: _, how: _, next: _ } => match event {
                Event::Done => true,
                Event::Io(Io::Failed) => true,
                _ => false,
            },
            _ => false,
        }
    }

    /// Takes the handling of the readiness event `c` one step further
    /// with an event that fits what `phase` asked for.
    pub fn handle(&mut self, inline: &mut BytesMut, c: Ctx, phase: Phase, event: Event) -> (r: (
        Phase,
        Action,
    ))
        requires
            old(self)@.settled(contents(*old(inline)), c, phase),
            old(self)@.fits(contents(*old(inline)), c, phase, event),
        ensures
            (Turn { flow: final(self)@, phase: r.0, action: r.1 }, contents(*final(inline)))
                == old(self)@.step(contents(*old(inline)), c, phase, event),
    {
        match (phase, event) {
            (Phase::Reading { follow_up, max: _ }, Event::Io(io)) => {
                let (buf1, buf2, _state1, state2) = self.as_mut(c.index);
                if follow_up {
                    let next = readable_handle(buf2, inline, state2, io);
                    self.second_drain(c, next)
                } else {
                    let next = readable_handle(buf1, inline, state2, io);
                    self.first_drain(c, next)
                }
            },
            (Phase::Flushing { was_full }, Event::Io(io)) => {
                let (_buf1, buf2, _state1, _state2) = self.as_mut(c.index);
                let next = writable_handle(buf2, io);
                self.write_drain(c, was_full, next)
            },
            (Phase::Shutting { fd: _, how: _, next }, _) => self.resume(c, next),
            _ => (phase, Action::Next),
        }
    }
}

} // verus!
