//! What holds of every step in the handling of a flow's readiness event:
//! the flow stays within capacity, and its bytes move in order.

use crate::buffer::BUF_LEN;
use crate::drain::{
    lemma_read_drain_keeps_order, queue, read_drain_step, read_round, write_drain_step,
    write_round, Drain, Io, ReadDrain,
};
use crate::event::{Action, Ctx, Event, Phase};
use crate::flow::{FlowView, Turn};
use crate::shutdown::{combine, Shutdown};
use vstd::prelude::*;

verus! {

/// Whether the turn `t` of the flow `f` kept the two handles and left the
/// flow, with the bytes `inline`, as the next phase needs it.
pub open spec fn kept(f: FlowView, t: Turn, inline: Seq<u8>, c: Ctx) -> bool {
    &&& t.flow.settled(inline, c, t.phase)
    &&& t.flow.src_fd == f.src_fd
    &&& t.flow.dest_fd == f.dest_fd
    &&& t.phase is Closing ==> t.action == Action::Close { src_fd: f.src_fd, dest_fd: f.dest_fd }
}

/// The stages for closed halves and the end of the handling keep a flow
/// as it has to be.
proof fn lemma_closing_stages(f: FlowView, c: Ctx)
    requires
        f.within_cap(),
    ensures
        kept(f, f.finish(c), Seq::empty(), c),
        kept(f, f.stage_write_closed(c), Seq::empty(), c),
        kept(f, f.stage_read_closed(c), Seq::empty(), c),
{
    let r = f.with_state1(c.index, Some(combine(f.state1(c.index), Shutdown::Read)));
    assert(r.within_cap());
    assert(kept(r, r.stage_write_closed(c), Seq::empty(), c));
}

/// What follows a step of the read-drain from the peer keeps a flow as it
/// has to be, given that inline bytes are held exactly when a write is
/// asked for, and then with an empty buffer.
proof fn lemma_second_drain(f: FlowView, c: Ctx, next: Drain, inline: Seq<u8>)
    requires
        f.within_cap(),
        inline.len() <= BUF_LEN,
        next == Drain::Write ==> f.buf2(c.index).len() == 0 && inline.len() > 0,
        next != Drain::Write ==> inline.len() == 0,
    ensures
        kept(f, f.second_drain(c, next), inline, c),
{
    lemma_closing_stages(f, c);
    let r = f.with_state2(c.index, Some(combine(f.state2(c.index), Shutdown::Read)));
    lemma_closing_stages(r, c);
}

/// What follows a step of the write-drain keeps a flow as it has to be.
proof fn lemma_write_drain(f: FlowView, c: Ctx, was_full: bool, next: Drain)
    requires
        f.within_cap(),
    ensures
        kept(f, f.write_drain(c, was_full, next), Seq::empty(), c),
{
    lemma_closing_stages(f, c);
    lemma_second_drain(f, c, read_round(f.buf2(c.index)), Seq::empty());
}

/// What follows a step of the read-drain from the socket keeps a flow as
/// it has to be, given that inline bytes are held exactly when a write is
/// asked for, and then with an empty buffer.
proof fn lemma_first_drain(f: FlowView, c: Ctx, next: Drain, inline: Seq<u8>)
    requires
        f.within_cap(),
        inline.len() <= BUF_LEN,
        next == Drain::Write ==> f.buf1(c.index).len() == 0 && inline.len() > 0,
        next != Drain::Write ==> inline.len() == 0,
    ensures
        kept(f, f.first_drain(c, next), inline, c),
{
    lemma_closing_stages(f, c);
    lemma_write_drain(f, c, f.buf2(c.index).len() >= BUF_LEN, write_round(f.buf2(c.index)));
    let r = f.with_state1(c.index, Some(combine(f.state1(c.index), Shutdown::Read)));
    lemma_closing_stages(r, c);
    lemma_write_drain(r, c, r.buf2(c.index).len() >= BUF_LEN, write_round(r.buf2(c.index)));
}

/// Taking up an event keeps a flow within capacity and its handles as
/// they were, and leaves it as the next phase needs it.
pub proof fn lemma_begin_settled(f: FlowView, c: Ctx)
    requires
        f.within_cap(),
    ensures
        kept(f, f.stage_readable(c), Seq::empty(), c),
{
    lemma_first_drain(f, c, read_round(f.buf1(c.index)), Seq::empty());
    lemma_write_drain(f, c, f.buf2(c.index).len() >= BUF_LEN, write_round(f.buf2(c.index)));
    lemma_closing_stages(f, c);
}

/// A step with a fitting event keeps a flow within capacity and its
/// handles as they were, and leaves it as the next phase needs it.
pub proof fn lemma_step_settled(f: FlowView, inline: Seq<u8>, c: Ctx, phase: Phase, event: Event)
    requires
        f.settled(inline, c, phase),
        f.fits(inline, c, phase, event),
    ensures
        kept(f, f.step(inline, c, phase, event).0, f.step(inline, c, phase, event).1, c),
{
    match (phase, event) {
        (Phase::Reading { follow_up, max }, Event::Io(io)) => {
            let before = ReadDrain {
                mid: f.mid(c.index, follow_up),
                inline,
                state2: f.state2(c.index),
            };
            let (d, next) = read_drain_step(before, io);
            let flow = f.after_read(c.index, follow_up, d);
            assert(flow.within_cap());
            if follow_up {
                lemma_second_drain(flow, c, next, d.inline);
            } else {
                lemma_first_drain(flow, c, next, d.inline);
            }
        },
        (Phase::Flushing { was_full }, Event::Io(io)) => {
            let (mid, next) = write_drain_step(f.buf2(c.index), io);
            let flow = f.seen_from(
                c.index,
                f.buf1(c.index),
                mid,
                f.state1(c.index),
                f.state2(c.index),
            );
            lemma_write_drain(flow, c, was_full, next);
        },
        (Phase::Shutting { fd, how, next }, _) => {
            lemma_closing_stages(f, c);
            lemma_write_drain(
                f,
                c,
                f.buf2(c.index).len() >= BUF_LEN,
                write_round(f.buf2(c.index)),
            );
        },
        _ => {},
    }
}

impl FlowView {
    /// The bytes read from the socket `c.index` that its peer has not
    /// been given yet: what the buffer holds, then the inline bytes of a
    /// read-drain from that socket.
    pub open spec fn bound_for_peer(self, inline: Seq<u8>, c: Ctx, phase: Phase) -> Seq<u8> {
        if phase matches Phase::Reading { follow_up: false, max } {
            self.buf1(c.index) + inline
        } else {
            self.buf1(c.index)
        }
    }

    /// The bytes read from the peer of `c.index` that the socket has not
    /// been given yet: what the buffer holds, then the inline bytes of a
    /// read-drain from the peer.
    pub open spec fn bound_for_socket(self, inline: Seq<u8>, c: Ctx, phase: Phase) -> Seq<u8> {
        if phase matches Phase::Reading { follow_up: true, max } {
            self.buf2(c.index) + inline
        } else {
            self.buf2(c.index)
        }
    }

    /// The bytes on offer for the write that `phase` waits on.
    pub open spec fn offered(self, inline: Seq<u8>, c: Ctx, phase: Phase) -> Seq<u8> {
        match phase {
            Phase::Reading { follow_up, max } => inline,
            Phase::Flushing { was_full } => self.buf2(c.index),
            _ => Seq::empty(),
        }
    }

    /// Whether the bytes on offer for a write that `phase` waits on are
    /// the whole queue of the direction that the write serves.
    pub open spec fn offers_whole_queue(self, inline: Seq<u8>, c: Ctx, phase: Phase) -> bool {
        match phase {
            Phase::Reading { follow_up, max } => inline.len() > 0 ==> self.offered(inline, c, phase)
                == if follow_up {
                self.bound_for_socket(inline, c, phase)
            } else {
                self.bound_for_peer(inline, c, phase)
            },
            Phase::Flushing { was_full } => self.offered(inline, c, phase)
                == self.bound_for_socket(inline, c, phase),
            _ => true,
        }
    }
}

/// What a write that took `n` bytes leaves of the queue `q`: the rest
/// behind what was taken, and nothing at all where it took nothing from
/// inline bytes, which counts as a failure.
pub open spec fn left_by_write(q: Seq<u8>, n: usize, inline: bool) -> Seq<u8> {
    if inline && n == 0 {
        Seq::empty()
    } else {
        q.skip(n as int)
    }
}

/// What one step makes of the two queues of a flow, the bytes bound for
/// the peer and those bound for the socket: bytes that were read join the
/// end of the queue of their direction, bytes that a write took leave its
/// front, a failed write empties it, and everything else leaves both as
/// they are.
pub open spec fn queues_after(
    to_peer: Seq<u8>,
    to_socket: Seq<u8>,
    inline: Seq<u8>,
    phase: Phase,
    event: Event,
) -> (Seq<u8>, Seq<u8>) {
    match (phase, event) {
        (Phase::Reading { follow_up, max }, Event::Io(Io::Data(bytes))) => if follow_up {
            (to_peer, to_socket + bytes@)
        } else {
            (to_peer + bytes@, to_socket)
        },
        (Phase::Reading { follow_up, max }, Event::Io(Io::Wrote(n))) => if follow_up {
            (to_peer, left_by_write(to_socket, n, true))
        } else {
            (left_by_write(to_peer, n, true), to_socket)
        },
        (Phase::Reading { follow_up, max }, Event::Io(Io::Failed)) => if inline.len() == 0 {
            (to_peer, to_socket)
        } else if follow_up {
            (to_peer, Seq::empty())
        } else {
            (Seq::empty(), to_socket)
        },
        (Phase::Flushing { was_full }, Event::Io(Io::Wrote(n))) => (
            to_peer,
            left_by_write(to_socket, n, false),
        ),
        (Phase::Flushing { was_full }, Event::Io(Io::Failed)) => (to_peer, Seq::empty()),
        _ => (to_peer, to_socket),
    }
}

/// Taking up a readiness event moves no bytes.
pub proof fn lemma_begin_moves_nothing(f: FlowView, c: Ctx)
    requires
        f.within_cap(),
    ensures
        f.stage_readable(c).flow.src_buf == f.src_buf,
        f.stage_readable(c).flow.dest_buf == f.dest_buf,
{
    lemma_stages_move_nothing(f, c);
    let r = f.with_state1(c.index, Some(combine(f.state1(c.index), Shutdown::Read)));
    lemma_stages_move_nothing(r, c);
}

/// A flow passes bytes on in the order in which they came, each byte once,
/// and loses none unless a write fails: every step changes the two queues
/// of the flow as `queues_after` says, and whenever a write is asked for,
/// the bytes on offer are the whole queue of that direction, oldest first.
pub proof fn lemma_step_keeps_order(
    f: FlowView,
    inline: Seq<u8>,
    c: Ctx,
    phase: Phase,
    event: Event,
)
    requires
        f.settled(inline, c, phase),
        f.fits(inline, c, phase, event),
    ensures
        ({
            let (t, rest) = f.step(inline, c, phase, event);
            &&& (t.flow.bound_for_peer(rest, c, t.phase), t.flow.bound_for_socket(rest, c, t.phase))
                == queues_after(
                f.bound_for_peer(inline, c, phase),
                f.bound_for_socket(inline, c, phase),
                inline,
                phase,
                event,
            )
            &&& t.flow.offers_whole_queue(rest, c, t.phase)
        }),
{
    lemma_step_settled(f, inline, c, phase, event);
    match (phase, event) {
        (Phase::Reading { follow_up, max }, Event::Io(io)) => {
            let before = ReadDrain {
                mid: f.mid(c.index, follow_up),
                inline,
                state2: f.state2(c.index),
            };
            lemma_read_drain_keeps_order(before, io);
            let (d, next) = read_drain_step(before, io);
            let flow = f.after_read(c.index, follow_up, d);
            lemma_drain_moves_nothing(flow, c, next);
        },
        (Phase::Flushing { was_full }, Event::Io(io)) => {
            let (mid, next) = write_drain_step(f.buf2(c.index), io);
            let flow = f.seen_from(
                c.index,
                f.buf1(c.index),
                mid,
                f.state1(c.index),
                f.state2(c.index),
            );
            lemma_drain_moves_nothing(flow, c, read_round(flow.buf2(c.index)));
            lemma_stages_move_nothing(flow, c);
        },
        (Phase::Shutting { fd, how, next }, _) => {
            lemma_stages_move_nothing(f, c);
        },
        _ => {},
    }
}

/// None of the stages that follow the drains moves bytes, nor does the
/// start of a write-drain.
proof fn lemma_stages_move_nothing(f: FlowView, c: Ctx)
    requires
        f.within_cap(),
    ensures
        f.finish(c).flow.src_buf == f.src_buf && f.finish(c).flow.dest_buf == f.dest_buf,
        f.stage_write_closed(c).flow.src_buf == f.src_buf && f.stage_write_closed(c).flow.dest_buf
            == f.dest_buf,
        f.stage_read_closed(c).flow.src_buf == f.src_buf && f.stage_read_closed(c).flow.dest_buf
            == f.dest_buf,
        f.stage_writable(c).flow.src_buf == f.src_buf && f.stage_writable(c).flow.dest_buf
            == f.dest_buf,
        f.stage_writable(c).phase matches Phase::Reading { follow_up, max } ==> follow_up,
        !(f.stage_read_closed(c).phase is Reading),
{
    let r = f.with_state1(c.index, Some(combine(f.state1(c.index), Shutdown::Read)));
    assert(r.stage_write_closed(c).flow.src_buf == f.src_buf);
    let q = f.with_state2(c.index, Some(combine(f.state2(c.index), Shutdown::Read)));
    assert(q.stage_read_closed(c).flow.src_buf == f.src_buf) by {
        let qr = q.with_state1(c.index, Some(combine(q.state1(c.index), Shutdown::Read)));
        assert(qr.stage_write_closed(c).flow.src_buf == f.src_buf);
    }
}

/// What follows a step of a read-drain moves no bytes.
proof fn lemma_drain_moves_nothing(f: FlowView, c: Ctx, next: Drain)
    requires
        f.within_cap(),
    ensures
        f.first_drain(c, next).flow.src_buf == f.src_buf && f.first_drain(c, next).flow.dest_buf
            == f.dest_buf,
        f.second_drain(c, next).flow.src_buf == f.src_buf && f.second_drain(c, next).flow.dest_buf
            == f.dest_buf,
        f.first_drain(c, next).phase matches Phase::Reading { follow_up, max } ==> (follow_up
            <==> next != Drain::Read && next != Drain::Write),
        f.second_drain(c, next).phase matches Phase::Reading { follow_up, max } ==> follow_up
            && (next == Drain::Read || next == Drain::Write),
{
    lemma_stages_move_nothing(f, c);
    let r = f.with_state1(c.index, Some(combine(f.state1(c.index), Shutdown::Read)));
    lemma_stages_move_nothing(r, c);
    let q = f.with_state2(c.index, Some(combine(f.state2(c.index), Shutdown::Read)));
    lemma_stages_move_nothing(q, c);
}

} // verus!
