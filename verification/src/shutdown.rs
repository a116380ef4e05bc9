//! Half-close states of one socket, and the way they accumulate.

use vstd::prelude::*;

verus! {

/// Which half of a socket has been retired.
#[derive(Clone, Copy, Debug, PartialEq, Eq, Structural)]
pub enum Shutdown {
    Read,
    Write,
    Both,
}

/// Whether the reading half is retired in `state`.
pub open spec fn read_retired(state: Option<Shutdown>) -> bool {
    state == Some(Shutdown::Read) || state == Some(Shutdown::Both)
}

/// Whether the writing half is retired in `state`.
pub open spec fn write_retired(state: Option<Shutdown>) -> bool {
    state == Some(Shutdown::Write) || state == Some(Shutdown::Both)
}

/// The state that follows `prev` once `add` has been retired as well:
/// `add` itself where nothing was retired before, `prev` where `add`
/// repeats a single half, and `Both` in every other case.
pub open spec fn combine(prev: Option<Shutdown>, add: Shutdown) -> Shutdown {
    match prev {
        None => add,
        Some(p) => if p == add && add != Shutdown::Both {
            p
        } else {
            Shutdown::Both
        },
    }
}

/// Retires `s2` in `s1`.
pub fn and_shutdown_state(s1: &mut Option<Shutdown>, s2: Shutdown)
    ensures
        *final(s1) == Some(combine(*old(s1), s2)),
{
    match *s1 {
        Some(prev) => {
            let same_half = match (prev, s2) {
                (Shutdown::Read, Shutdown::Read) => true,
                (Shutdown::Write, Shutdown::Write) => true,
                _ => false,
            };
            if !same_half {
                *s1 = Some(Shutdown::Both);
            }
        },
        None => {
            *s1 = Some(s2);
        },
    }
}

/// `combine` is the join of the lattice `None < Read, Write < Both`: a half
/// is retired afterwards exactly if it was retired before or is retired by
/// the addition.
pub proof fn lemma_combine_is_join(prev: Option<Shutdown>, add: Shutdown)
    ensures
        read_retired(Some(combine(prev, add))) <==> read_retired(prev) || read_retired(Some(add)),
        write_retired(Some(combine(prev, add))) <==> write_retired(prev) || write_retired(
            Some(add),
        ),
{
}

/// Retiring the same half twice changes nothing, and the order in which two
/// halves are retired does not matter.
pub proof fn lemma_combine_idempotent_commutative(
    prev: Option<Shutdown>,
    a: Shutdown,
    b: Shutdown,
)
    ensures
        combine(Some(combine(prev, a)), a) == combine(prev, a),
        combine(Some(combine(prev, a)), b) == combine(Some(combine(prev, b)), a),
{
}

} // verus!
