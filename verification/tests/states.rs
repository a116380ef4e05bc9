use vnt::shutdown::{and_shutdown_state, Shutdown};

fn after(prev: Option<Shutdown>, add: Shutdown) -> Option<Shutdown> {
    let mut state = prev;
    and_shutdown_state(&mut state, add);
    state
}

#[test]
fn first_retirement_sets_the_state() {
    assert_eq!(after(None, Shutdown::Read), Some(Shutdown::Read));
    assert_eq!(after(None, Shutdown::Write), Some(Shutdown::Write));
    assert_eq!(after(None, Shutdown::Both), Some(Shutdown::Both));
}

#[test]
fn same_half_twice_changes_nothing() {
    assert_eq!(after(Some(Shutdown::Read), Shutdown::Read), Some(Shutdown::Read));
    assert_eq!(after(Some(Shutdown::Write), Shutdown::Write), Some(Shutdown::Write));
}

#[test]
fn different_halves_make_both() {
    assert_eq!(after(Some(Shutdown::Read), Shutdown::Write), Some(Shutdown::Both));
    assert_eq!(after(Some(Shutdown::Write), Shutdown::Read), Some(Shutdown::Both));
    assert_eq!(after(Some(Shutdown::Read), Shutdown::Both), Some(Shutdown::Both));
    assert_eq!(after(Some(Shutdown::Write), Shutdown::Both), Some(Shutdown::Both));
}

#[test]
fn both_stays_both() {
    assert_eq!(after(Some(Shutdown::Both), Shutdown::Read), Some(Shutdown::Both));
    assert_eq!(after(Some(Shutdown::Both), Shutdown::Write), Some(Shutdown::Both));
    assert_eq!(after(Some(Shutdown::Both), Shutdown::Both), Some(Shutdown::Both));
}

#[test]
fn order_of_retirement_does_not_matter() {
    let halves = [Shutdown::Read, Shutdown::Write, Shutdown::Both];
    let states = [None, Some(Shutdown::Read), Some(Shutdown::Write), Some(Shutdown::Both)];
    for prev in states {
        for a in halves {
            for b in halves {
                assert_eq!(after(after(prev, a), b), after(after(prev, b), a));
                assert_eq!(after(after(prev, a), a), after(prev, a));
            }
        }
    }
}
