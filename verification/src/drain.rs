//! The two drains of a flow, each as a step function: the caller performs
//! the socket call that a drain asks for and hands the outcome back.

use crate::buffer::{as_slice, contents, put_slice, BUF_LEN};
use crate::shutdown::{and_shutdown_state, combine, write_retired, Shutdown};
use bytes::BytesMut;
use vstd::prelude::*;

verus! {

/// The outcome of one non-blocking socket call.
#[derive(Debug)]
pub enum Io {
    /// A read returned these bytes; none at all means end of stream.
    Data(Vec<u8>),
    /// A write took this many of the bytes offered.
    Wrote(usize),
    /// The call would have blocked.
    WouldBlock,
    /// The call failed for any other reason.
    Failed,
}

/// What a drain asks for next.
#[derive(Clone, Copy, Debug, PartialEq, Eq, Structural)]
pub enum Drain {
    /// Read from the source socket, no more than the buffer has room for.
    Read,
    /// Write the bytes on offer to the sink socket.
    Write,
    /// Nothing more can be done for now; the drain ends without error.
    Finished,
    /// The drain ends with an error.
    Broken,
}

/// How a read-drain starts each round, given what the buffer holds: a full
/// buffer stops it, anything less asks for a read.
pub open spec fn read_round(mid: Seq<u8>) -> Drain {
    if mid.len() >= BUF_LEN {
        Drain::Finished
    } else {
        Drain::Read
    }
}

/// How many bytes a buffer that holds `mid` has room for.
pub open spec fn room(mid: Seq<u8>) -> usize {
    if mid.len() < BUF_LEN {
        (BUF_LEN - mid.len()) as usize
    } else {
        0
    }
}

/// How a write-drain starts each round: it writes while bytes are held.
pub open spec fn write_round(mid: Seq<u8>) -> Drain {
    if mid.len() == 0 {
        Drain::Finished
    } else {
        Drain::Write
    }
}

/// The state of a read-drain between two socket calls: the direction's
/// buffer, the rest of the last read that is being written past the buffer,
/// and the half-close state that a failed write retires.
pub struct ReadDrain {
    pub mid: Seq<u8>,
    pub inline: Seq<u8>,
    pub state2: Option<Shutdown>,
}

/// Whether `io` can be the outcome of the call that a read-drain in state
/// `d` waits for: of a write of the inline bytes while there are any, of a
/// read otherwise.
pub open spec fn fits_read_drain(d: ReadDrain, io: Io) -> bool {
    match io {
        Io::Data(bytes) => d.inline.len() == 0 && d.mid.len() + bytes@.len() <= isize::MAX,
        Io::Wrote(n) => 0 < d.inline.len() && n <= d.inline.len(),
        Io::WouldBlock => d.mid.len() + d.inline.len() <= isize::MAX,
        Io::Failed => true,
    }
}

/// One step of a read-drain.
///
/// After a read: no bytes mean end of stream, an error. Bytes that arrive
/// at an empty buffer go on offer for a write past the buffer; others are
/// appended to the buffer, and the next round starts. A read that would
/// block ends the drain.
///
/// After a write of the inline bytes: what was taken leaves the offer, and
/// the next round starts once nothing is left. A write that would block
/// moves the rest into the buffer and starts the next round. A write that
/// takes nothing, or fails, drops everything held for this direction and
/// retires the writing half in `state2`.
pub open spec fn read_drain_step(d: ReadDrain, io: Io) -> (ReadDrain, Drain) {
    let dropped = ReadDrain {
        mid: Seq::empty(),
        inline: Seq::empty(),
        state2: Some(combine(d.state2, Shutdown::Write)),
    };
    if d.inline.len() == 0 {
        match io {
            Io::Data(bytes) => if bytes@.len() == 0 {
                (d, Drain::Broken)
            } else if d.mid.len() == 0 {
                (ReadDrain { inline: bytes@, ..d }, Drain::Write)
            } else {
                (ReadDrain { mid: d.mid + bytes@, ..d }, read_round(d.mid + bytes@))
            },
            Io::WouldBlock => (d, Drain::Finished),
            _ => (d, Drain::Broken),
        }
    } else {
        match io {
            Io::Wrote(n) => if n == 0 {
                (dropped, Drain::Broken)
            } else if n == d.inline.len() {
                (ReadDrain { inline: Seq::empty(), ..d }, read_round(d.mid))
            } else {
                (ReadDrain { inline: d.inline.skip(n as int), ..d }, Drain::Write)
            },
            Io::WouldBlock => (
                ReadDrain { mid: d.mid + d.inline, inline: Seq::empty(), ..d },
                read_round(d.mid + d.inline),
            ),
            _ => (dropped, Drain::Broken),
        }
    }
}

/// One step of a write-drain on a buffer: what a write took leaves the
/// front of the buffer, and the drain goes on while bytes are held. A write
/// that would block ends the drain; a failed one breaks it. The buffer is
/// otherwise left as it is.
pub open spec fn write_drain_step(mid: Seq<u8>, io: Io) -> (Seq<u8>, Drain) {
    match io {
        Io::Wrote(n) => (mid.skip(n as int), write_round(mid.skip(n as int))),
        Io::WouldBlock => (mid, Drain::Finished),
        _ => (mid, Drain::Broken),
    }
}

/// The bytes that a read-drain has taken in and not yet passed on, oldest
/// first.
pub open spec fn queue(d: ReadDrain) -> Seq<u8> {
    d.mid + d.inline
}

/// Whether inline bytes are only held while the buffer is empty, so that a
/// write past the buffer overtakes nothing.
pub open spec fn in_order(d: ReadDrain) -> bool {
    d.inline.len() > 0 ==> d.mid.len() == 0
}

/// A read-drain passes bytes on in the order in which it took them in, and
/// loses none unless a write fails: what a read brings joins the end of the
/// queue, what a write takes leaves its front, and nothing else changes
/// the queue, except that a write that fails or takes nothing empties it
/// and retires the writing half. The bytes on offer for a write are the
/// front of the queue.
pub proof fn lemma_read_drain_keeps_order(d: ReadDrain, io: Io)
    requires
        in_order(d),
        fits_read_drain(d, io),
    ensures
        in_order(read_drain_step(d, io).0),
        read_drain_step(d, io).1 == Drain::Write ==> 0 < read_drain_step(d, io).0.inline.len(),
        match io {
            Io::Data(bytes) => queue(read_drain_step(d, io).0) == queue(d) + bytes@,
            Io::Wrote(n) => if n == 0 {
                queue(read_drain_step(d, io).0) == Seq::<u8>::empty() && write_retired(
                    read_drain_step(d, io).0.state2,
                )
            } else {
                queue(d) == d.inline && queue(read_drain_step(d, io).0) == queue(d).skip(n as int)
            },
            Io::WouldBlock => queue(read_drain_step(d, io).0) == queue(d),
            Io::Failed => if d.inline.len() == 0 {
                queue(read_drain_step(d, io).0) == queue(d)
            } else {
                queue(read_drain_step(d, io).0) == Seq::<u8>::empty() && write_retired(
                    read_drain_step(d, io).0.state2,
                )
            },
        },
{
    let e = read_drain_step(d, io).0;
    match io {
        Io::Data(bytes) => {
            assert(queue(e) =~= queue(d) + bytes@);
        },
        Io::Wrote(n) => {
            if n == 0 {
                assert(queue(e) =~= Seq::<u8>::empty());
            } else {
                assert(queue(d) =~= d.inline);
                assert(queue(e) =~= queue(d).skip(n as int));
            }
        },
        Io::WouldBlock => {
            assert(queue(e) =~= queue(d));
        },
        Io::Failed => {
            if d.inline.len() > 0 {
                assert(queue(e) =~= Seq::<u8>::empty());
            }
        },
    }
}

/// How many bytes `mid_buf` has room for.
pub fn room_of(mid_buf: &BytesMut) -> (n: usize)
    ensures
        n == room(contents(*mid_buf)),
{
    let held = mid_buf.len();
    if held < BUF_LEN {
        BUF_LEN - held
    } else {
        0
    }
}

/// Starts a round of the read-drain into `mid_buf`.
pub fn readable_begin(mid_buf: &BytesMut) -> (next: Drain)
    ensures
        next == read_round(contents(*mid_buf)),
{
    if mid_buf.len() >= BUF_LEN {
        Drain::Finished
    } else {
        Drain::Read
    }
}

/// Takes the read-drain into `mid_buf` one step further with the outcome
/// of the socket call it asked for. The bytes to offer to the sink socket
/// after `Drain::Write` are those left in `inline`.
pub fn readable_handle(
    mid_buf: &mut BytesMut,
    inline: &mut BytesMut,
    state2: &mut Option<Shutdown>,
    io: Io,
) -> (next: Drain)
    requires
        fits_read_drain(
            ReadDrain {
                mid: contents(*old(mid_buf)),
                inline: contents(*old(inline)),
                state2: *old(state2),
            },
            io,
        ),
    ensures
        (
            ReadDrain {
                mid: contents(*final(mid_buf)),
                inline: contents(*final(inline)),
                state2: *final(state2),
            },
            next,
        ) == read_drain_step(
            ReadDrain {
                mid: contents(*old(mid_buf)),
                inline: contents(*old(inline)),
                state2: *old(state2),
            },
            io,
        ),
{
    if inline.is_empty() {
        match io {
            Io::Data(bytes) => {
                if bytes.len() == 0 {
                    Drain::Broken
                } else if mid_buf.is_empty() {
                    put_slice(inline, bytes.as_slice());
                    assert(contents(*inline) =~= bytes@);
                    Drain::Write
                } else {
                    put_slice(mid_buf, bytes.as_slice());
                    readable_begin(mid_buf)
                }
            },
            Io::WouldBlock => Drain::Finished,
            _ => Drain::Broken,
        }
    } else {
        match io {
            Io::Wrote(n) => {
                if n == 0 {
                    mid_buf.clear();
                    inline.clear();
                    and_shutdown_state(state2, Shutdown::Write);
                    Drain::Broken
                } else {
                    let _ = inline.split_to(n);
                    if inline.is_empty() {
                        assert(contents(*inline) =~= Seq::<u8>::empty());
                        readable_begin(mid_buf)
                    } else {
                        Drain::Write
                    }
                }
            },
            Io::WouldBlock => {
                put_slice(mid_buf, as_slice(inline));
                inline.clear();
                readable_begin(mid_buf)
            },
            _ => {
                mid_buf.clear();
                inline.clear();
                and_shutdown_state(state2, Shutdown::Write);
                Drain::Broken
            },
        }
    }
}

/// Starts a round of the write-drain of `mid_buf`.
pub fn writable_begin(mid_buf: &BytesMut) -> (next: Drain)
    ensures
        next == write_round(contents(*mid_buf)),
{
    if mid_buf.is_empty() {
        Drain::Finished
    } else {
        Drain::Write
    }
}

/// Takes the write-drain of `mid_buf` one step further with the outcome of
/// the write it asked for. A write cannot take more than it was offered.
pub fn writable_handle(mid_buf: &mut BytesMut, io: Io) -> (next: Drain)
    requires
        io matches Io::Wrote(n) ==> n <= contents(*old(mid_buf)).len(),
    ensures
        (contents(*final(mid_buf)), next) == write_drain_step(contents(*old(mid_buf)), io),
{
    match io {
        Io::Wrote(n) => {
            let _ = mid_buf.split_to(n);
            writable_begin(mid_buf)
        },
        Io::WouldBlock => Drain::Finished,
        _ => Drain::Broken,
    }
}

} // verus!
