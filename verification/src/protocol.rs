//! A rendezvous group as a transition system.
//!
//! The handles work on two shared counters, one atomic operation at a time,
//! and any number of threads may be at it at once. What holds of the group as
//! a whole is therefore a statement about every interleaving of those
//! operations. This module states the group as a state machine: every
//! participant has a seat, a seat is in one [`Phase`], and a [`Step`] is one
//! atomic operation of one participant. The decisions that a step takes on a
//! counter are the ones of [`crate::counters`], which the handles execute.
//!
//! The operations of the handles are made of these steps:
//!
//! | operation | steps |
//! |---|---|
//! | `Rendezvous::duplicate` | `Reserve`, then `Join` |
//! | `Rendezvous::wait` | `Wait`, then `Broadcast` where it was the last |
//! | dropping a `Rendezvous` | `Abandon`, `Broadcast` where it was the last, `Settle` |
//! | `Waiter::park` | `Park`, a wake-up or `Stir`, then `Recheck` |
//! | `Waiter::finish` | `Settle` |
//! | dropping a `Waiter` | `Desist` where it was not released, then `Settle` |
//!
//! The model counts in `released` how often the shared state is given up:
//! once, by the `Settle` that empties `pending`. In the handles that
//! departure is the one that `finish` and `abandon` report; the memory itself
//! is returned by the reference-counted pointer, when the last handle or
//! waiter lets go of it, which is never before `pending` is empty.
//!
//! [`Group::inv`] is the invariant that every step keeps. What follows from it
//! for the users of a group is stated in [`crate::laws`].

use crate::counters::departure_of;
use crate::counters::enrolled;
use crate::counters::left_after;
use crate::counters::releases;
use crate::counters::Departure;
use crate::counters::CAPACITY;
use vstd::prelude::*;

verus! {

/// Where one participant stands.
pub enum Phase {
    /// Entered in `pending` by the duplication that `sponsor` is carrying out,
    /// not yet in `live`.
    Joining { sponsor: int },
    /// Holds a handle and has not begun to leave.
    Live,
    /// Took `live` to zero and still owes the waiters their wake-up.
    Waking,
    /// Waits, holding a reading of `live` that was not zero, and is about to
    /// park on it.
    Watching(u32),
    /// Waits, blocked in the wait/wake engine.
    Parked,
    /// Waits, back from the engine and about to read `live` again.
    Awake,
    /// Is done with `live` and still stands on `pending`.
    Draining,
    /// Has left.
    Done,
}

/// One atomic operation of one participant.
pub enum Step {
    /// First half of a duplication by `sponsor`: `pending` goes up, and the new
    /// participant takes a seat.
    Reserve { sponsor: int },
    /// Second half of a duplication: `live` goes up, and the new participant
    /// holds its handle.
    Join { who: int },
    /// A handle begins to wait: `live` goes down.
    Wait { who: int },
    /// A handle is dropped: `live` goes down.
    Abandon { who: int },
    /// The participant that took `live` to zero wakes everyone who is parked.
    Broadcast { who: int },
    /// A waiter asks the engine to block it for as long as `live` holds what
    /// the waiter read last. The engine refuses where it no longer does.
    Park { who: int },
    /// A parked waiter wakes up though nobody woke it.
    Stir { who: int },
    /// A waiter reads `live` again.
    Recheck { who: int },
    /// A waiter that is not blocked is dropped before it is released: it
    /// stops waiting.
    Desist { who: int },
    /// A participant completes its departure: `pending` goes down, and with
    /// the last one the shared state is released.
    Settle { who: int },
}

/// A group: its two counters, the number of times its shared state has been
/// released, and the seats of all participants it ever had.
pub struct Group {
    pub live: u32,
    pub pending: u32,
    pub released: nat,
    pub seats: Seq<Phase>,
}

/// What is counted over the seats of a group.
pub enum Measure {
    /// The participants that have not begun to leave.
    Live,
    /// The participants that have not finished leaving.
    Pending,
    /// The steps that a participant that has begun to leave can still take, at
    /// most, once `live` is zero.
    Effort,
}

/// What one seat in phase `p` adds to the measure `m`.
pub open spec fn weight(m: Measure, p: Phase) -> nat {
    match m {
        Measure::Live => if p is Live { 1 } else { 0 },
        Measure::Pending => if p is Done { 0 } else { 1 },
        Measure::Effort => match p {
            Phase::Joining { .. } => 4,
            Phase::Live => 4,
            Phase::Watching(_) => 3,
            Phase::Parked => 3,
            Phase::Waking => 2,
            Phase::Awake => 2,
            Phase::Draining => 1,
            Phase::Done => 0,
        },
    }
}

/// The measure `m` summed over `seats`.
pub open spec fn tally(m: Measure, seats: Seq<Phase>) -> nat
    decreases seats.len(),
{
    if seats.len() == 0 {
        0
    } else {
        tally(m, seats.drop_last()) + weight(m, seats.last())
    }
}

/// The seats after a wake-up: whoever was parked is awake.
pub open spec fn woken(seats: Seq<Phase>) -> Seq<Phase> {
    Seq::new(seats.len(), |i: int| if seats[i] is Parked { Phase::Awake } else { seats[i] })
}

/// The value of `live` once one more participant has joined. The counter
/// would wrap around at its ceiling; [`law_join_fits`] shows that it never
/// gets there.
pub open spec fn joined(live: u32) -> u32 {
    if live < CAPACITY {
        (live + 1) as u32
    } else {
        0
    }
}

impl Step {
    /// The seat of the participant that takes the step.
    pub open spec fn actor(self) -> int {
        match self {
            Step::Reserve { sponsor } => sponsor,
            Step::Join { who } => who,
            Step::Wait { who } => who,
            Step::Abandon { who } => who,
            Step::Broadcast { who } => who,
            Step::Park { who } => who,
            Step::Stir { who } => who,
            Step::Recheck { who } => who,
            Step::Desist { who } => who,
            Step::Settle { who } => who,
        }
    }
}

impl Group {
    /// The group as its first handle finds it: one live participant.
    pub open spec fn founded() -> Group {
        Group { live: 1, pending: 1, released: 0, seats: seq![Phase::Live] }
    }

    /// Whether `who` is a seat of the group.
    pub open spec fn seated(self, who: int) -> bool {
        0 <= who < self.seats.len()
    }

    /// Whether a duplication by `who` is under way. For its duration the
    /// handle is borrowed, so that it can neither wait nor be dropped.
    pub open spec fn sponsoring(self, who: int) -> bool {
        self.seats.contains(Phase::Joining { sponsor: who })
    }

    /// Whether the participant that takes `step` can take it now.
    pub open spec fn enabled(self, step: Step) -> bool {
        &&& self.seated(step.actor())
        &&& match step {
            Step::Reserve { sponsor } => self.seats[sponsor] is Live && enrolled(self.pending)
                is Some,
            Step::Join { who } => self.seats[who] is Joining,
            Step::Wait { who } => self.seats[who] is Live && !self.sponsoring(who),
            Step::Abandon { who } => self.seats[who] is Live && !self.sponsoring(who),
            Step::Broadcast { who } => self.seats[who] is Waking,
            Step::Park { who } => self.seats[who] is Watching,
            Step::Stir { who } => self.seats[who] is Parked,
            Step::Recheck { who } => self.seats[who] is Awake,
            Step::Desist { who } => self.seats[who] is Watching || self.seats[who] is Awake,
            Step::Settle { who } => self.seats[who] is Draining,
        }
    }

    /// The group after `step`.
    pub open spec fn next(self, step: Step) -> Group {
        match step {
            Step::Reserve { sponsor } => Group {
                pending: enrolled(self.pending).unwrap(),
                seats: self.seats.push(Phase::Joining { sponsor }),
                ..self
            },
            Step::Join { who } => Group {
                live: joined(self.live),
                seats: self.seats.update(who, Phase::Live),
                ..self
            },
            Step::Wait { who } => Group {
                live: left_after(self.live),
                seats: self.seats.update(
                    who,
                    match departure_of(self.live) {
                        Departure::Last => Phase::Waking,
                        Departure::Remaining(l) => Phase::Watching(l),
                    },
                ),
                ..self
            },
            Step::Abandon { who } => Group {
                live: left_after(self.live),
                seats: self.seats.update(
                    who,
                    match departure_of(self.live) {
                        Departure::Last => Phase::Waking,
                        Departure::Remaining(_) => Phase::Draining,
                    },
                ),
                ..self
            },
            Step::Broadcast { who } => Group {
                seats: woken(self.seats).update(who, Phase::Draining),
                ..self
            },
            Step::Park { who } => Group {
                seats: self.seats.update(
                    who,
                    if self.seats[who] == Phase::Watching(self.live) {
                        Phase::Parked
                    } else {
                        Phase::Awake
                    },
                ),
                ..self
            },
            Step::Stir { who } => Group { seats: self.seats.update(who, Phase::Awake), ..self },
            Step::Recheck { who } => Group {
                seats: self.seats.update(
                    who,
                    if self.live == 0 {
                        Phase::Draining
                    } else {
                        Phase::Watching(self.live)
                    },
                ),
                ..self
            },
            Step::Desist { who } => Group {
                seats: self.seats.update(who, Phase::Draining),
                ..self
            },
            Step::Settle { who } => Group {
                pending: left_after(self.pending),
                released: if releases(self.pending) {
                    self.released + 1
                } else {
                    self.released
                },
                seats: self.seats.update(who, Phase::Done),
                ..self
            },
        }
    }

    /// Whether the seat `who` is in order: a participant that is joining has a
    /// live sponsor, and a waiter that is about to park holds a reading that
    /// is not zero.
    pub open spec fn seat_in_order(self, who: int) -> bool {
        match self.seats[who] {
            Phase::Joining { sponsor } => self.seated(sponsor) && self.seats[sponsor] is Live,
            Phase::Watching(l) => l > 0,
            _ => true,
        }
    }

    /// The invariant of a group.
    ///
    /// The counters count what they are meant to count; the shared state is
    /// released exactly when nobody stands on `pending` any more; every seat
    /// is in order; a wake-up is owed only once `live` is zero; and from then
    /// on nobody is parked unless the wake-up is still on its way.
    pub open spec fn inv(self) -> bool {
        &&& self.live == tally(Measure::Live, self.seats)
        &&& self.pending == tally(Measure::Pending, self.seats)
        &&& self.released == (if self.pending == 0 { 1nat } else { 0nat })
        &&& forall|i: int| 0 <= i < self.seats.len() ==> #[trigger] self.seat_in_order(i)
        &&& self.seats.contains(Phase::Waking) ==> self.live == 0
        &&& self.live == 0 && self.seats.contains(Phase::Parked) ==> self.seats.contains(
            Phase::Waking,
        )
    }
}

/// Seating one more participant adds its weight.
pub proof fn lemma_tally_push(m: Measure, seats: Seq<Phase>, p: Phase)
    ensures
        tally(m, seats.push(p)) == tally(m, seats) + weight(m, p),
{
    assert(seats.push(p).drop_last() =~= seats);
}

/// Moving one participant to another phase exchanges its weight.
pub proof fn lemma_tally_update(m: Measure, seats: Seq<Phase>, who: int, p: Phase)
    requires
        0 <= who < seats.len(),
    ensures
        tally(m, seats.update(who, p)) + weight(m, seats[who]) == tally(m, seats) + weight(m, p),
    decreases seats.len(),
{
    let moved = seats.update(who, p);
    if who == seats.len() - 1 {
        assert(moved.drop_last() =~= seats.drop_last());
    } else {
        assert(moved.drop_last() =~= seats.drop_last().update(who, p));
        lemma_tally_update(m, seats.drop_last(), who, p);
    }
}

/// A measure that is smaller seat by seat is smaller in sum.
pub proof fn lemma_tally_le(m: Measure, seats: Seq<Phase>, n: Measure, others: Seq<Phase>)
    requires
        seats.len() == others.len(),
        forall|i: int| 0 <= i < seats.len() ==> weight(m, #[trigger] seats[i]) <= weight(n, others[i]),
    ensures
        tally(m, seats) <= tally(n, others),
    decreases seats.len(),
{
    if seats.len() > 0 {
        let last = seats.len() - 1;
        assert(weight(m, seats[last]) <= weight(n, others[last]));
        assert forall|i: int| 0 <= i < seats.drop_last().len() implies weight(
            m,
            #[trigger] seats.drop_last()[i],
        ) <= weight(n, others.drop_last()[i]) by {
            assert(seats.drop_last()[i] == seats[i]);
        }
        lemma_tally_le(m, seats.drop_last(), n, others.drop_last());
    }
}

/// A measure sums to zero exactly where no seat adds to it.
pub proof fn lemma_tally_zero(m: Measure, seats: Seq<Phase>)
    ensures
        tally(m, seats) == 0 <==> forall|i: int|
            0 <= i < seats.len() ==> weight(m, #[trigger] seats[i]) == 0,
    decreases seats.len(),
{
    if seats.len() > 0 {
        let front = seats.drop_last();
        lemma_tally_zero(m, front);
        if tally(m, seats) == 0 {
            assert forall|i: int| 0 <= i < seats.len() implies weight(m, #[trigger] seats[i])
                == 0 by {
                if i < front.len() {
                    assert(front[i] == seats[i]);
                }
            }
        } else if weight(m, seats.last()) == 0 {
            let i = choose|i: int| 0 <= i < front.len() && weight(m, #[trigger] front[i]) != 0;
            assert(seats[i] == front[i]);
        }
    }
}

/// A seat never adds more to a measure than the measure sums to.
pub proof fn lemma_tally_covers(m: Measure, seats: Seq<Phase>, who: int)
    requires
        0 <= who < seats.len(),
    ensures
        tally(m, seats) >= weight(m, seats[who]),
{
    lemma_tally_update(m, seats, who, Phase::Done);
}

/// Every live participant is also pending.
pub proof fn lemma_live_within_pending(seats: Seq<Phase>)
    ensures
        tally(Measure::Live, seats) <= tally(Measure::Pending, seats),
{
    lemma_tally_le(Measure::Live, seats, Measure::Pending, seats);
}

/// A participant that is pending without being live keeps the two counters
/// apart.
pub proof fn lemma_live_below_pending(seats: Seq<Phase>, who: int)
    requires
        0 <= who < seats.len(),
        !(seats[who] is Live),
        !(seats[who] is Done),
    ensures
        tally(Measure::Live, seats) < tally(Measure::Pending, seats),
{
    let rest = seats.update(who, Phase::Done);
    lemma_tally_update(Measure::Live, seats, who, Phase::Done);
    lemma_tally_update(Measure::Pending, seats, who, Phase::Done);
    lemma_live_within_pending(rest);
}

/// A wake-up changes neither counter's measure.
pub proof fn lemma_woken_counts(seats: Seq<Phase>)
    ensures
        tally(Measure::Live, woken(seats)) == tally(Measure::Live, seats),
        tally(Measure::Pending, woken(seats)) == tally(Measure::Pending, seats),
        tally(Measure::Effort, woken(seats)) <= tally(Measure::Effort, seats),
{
    lemma_tally_le(Measure::Live, seats, Measure::Live, woken(seats));
    lemma_tally_le(Measure::Live, woken(seats), Measure::Live, seats);
    lemma_tally_le(Measure::Pending, seats, Measure::Pending, woken(seats));
    lemma_tally_le(Measure::Pending, woken(seats), Measure::Pending, seats);
    lemma_tally_le(Measure::Effort, woken(seats), Measure::Effort, seats);
}

/// Moving one participant keeps every seat in order, as long as the new phase
/// is in order by itself and no participant loses its sponsor.
proof fn lemma_move_keeps_order(g: Group, h: Group, who: int, p: Phase)
    requires
        g.seated(who),
        forall|i: int| 0 <= i < g.seats.len() ==> #[trigger] g.seat_in_order(i),
        h.seats == g.seats.update(who, p),
        g.seats[who] is Live && !(p is Live) ==> !g.sponsoring(who),
        !(p is Joining),
        p matches Phase::Watching(l) ==> l > 0,
    ensures
        forall|i: int| 0 <= i < h.seats.len() ==> #[trigger] h.seat_in_order(i),
{
    assert forall|i: int| 0 <= i < h.seats.len() implies #[trigger] h.seat_in_order(i) by {
        assert(g.seat_in_order(i));
        if i != who {
            if let Phase::Joining { sponsor } = g.seats[i] {
                if sponsor == who && !(p is Live) {
                    assert(g.seats.contains(Phase::Joining { sponsor: who }));
                }
            }
        }
    }
}

/// Moving one participant that owes no wake-up, to a phase other than parked,
/// leaves nobody parked without a wake-up on its way.
proof fn lemma_move_keeps_wake(seats: Seq<Phase>, who: int, p: Phase)
    requires
        0 <= who < seats.len(),
        !(seats[who] is Waking),
        !(p is Parked),
        seats.contains(Phase::Parked) ==> seats.contains(Phase::Waking),
    ensures
        seats.update(who, p).contains(Phase::Parked) ==> seats.update(who, p).contains(
            Phase::Waking,
        ),
{
    let moved = seats.update(who, p);
    if moved.contains(Phase::Parked) {
        let i = choose|i: int| 0 <= i < moved.len() && moved[i] == Phase::Parked;
        assert(seats[i] == Phase::Parked);
        let j = choose|j: int| 0 <= j < seats.len() && seats[j] == Phase::Waking;
        assert(moved[j] == Phase::Waking);
    }
}

/// The group that `new` founds is in order.
pub proof fn lemma_founded_inv()
    ensures
        Group::founded().inv(),
{
    let g = Group::founded();
    lemma_tally_push(Measure::Live, Seq::empty(), Phase::Live);
    lemma_tally_push(Measure::Pending, Seq::empty(), Phase::Live);
    assert(g.seats =~= Seq::<Phase>::empty().push(Phase::Live));
    assert forall|i: int| 0 <= i < g.seats.len() implies #[trigger] g.seat_in_order(i) by {}
    assert(!g.seats.contains(Phase::Parked));
}

/// Every step keeps the invariant.
pub proof fn lemma_step_inv(g: Group, step: Step)
    requires
        g.inv(),
        g.enabled(step),
    ensures
        g.next(step).inv(),
{
    let h = g.next(step);
    let who = step.actor();
    lemma_tally_covers(Measure::Live, g.seats, who);
    lemma_tally_covers(Measure::Pending, g.seats, who);
    match step {
        Step::Reserve { sponsor } => {
            let p = Phase::Joining { sponsor };
            lemma_tally_push(Measure::Live, g.seats, p);
            lemma_tally_push(Measure::Pending, g.seats, p);
            assert forall|i: int| 0 <= i < h.seats.len() implies #[trigger] h.seat_in_order(
                i,
            ) by {
                if i < g.seats.len() {
                    assert(g.seat_in_order(i));
                }
            }
        },
        Step::Join { who } => {
            lemma_live_below_pending(g.seats, who);
            lemma_tally_update(Measure::Live, g.seats, who, Phase::Live);
            lemma_tally_update(Measure::Pending, g.seats, who, Phase::Live);
            lemma_move_keeps_order(g, h, who, Phase::Live);
        },
        Step::Wait { who } => {
            let p = h.seats[who];
            lemma_tally_update(Measure::Live, g.seats, who, p);
            lemma_tally_update(Measure::Pending, g.seats, who, p);
            lemma_move_keeps_order(g, h, who, p);
            if h.live == 0 {
                assert(h.seats[who] == Phase::Waking);
            }
        },
        Step::Abandon { who } => {
            let p = h.seats[who];
            lemma_tally_update(Measure::Live, g.seats, who, p);
            lemma_tally_update(Measure::Pending, g.seats, who, p);
            lemma_move_keeps_order(g, h, who, p);
            if h.live == 0 {
                assert(h.seats[who] == Phase::Waking);
            }
        },
        Step::Broadcast { who } => {
            let up = woken(g.seats);
            lemma_woken_counts(g.seats);
            lemma_tally_update(Measure::Live, up, who, Phase::Draining);
            lemma_tally_update(Measure::Pending, up, who, Phase::Draining);
            assert forall|i: int| 0 <= i < h.seats.len() implies #[trigger] h.seat_in_order(
                i,
            ) by {
                assert(g.seat_in_order(i));
            }
            assert(!h.seats.contains(Phase::Parked));
        },
        Step::Park { who } => {
            let p = h.seats[who];
            lemma_tally_update(Measure::Live, g.seats, who, p);
            lemma_tally_update(Measure::Pending, g.seats, who, p);
            lemma_move_keeps_order(g, h, who, p);
            assert(g.seat_in_order(who));
            if g.live == 0 {
                lemma_move_keeps_wake(g.seats, who, p);
            }
        },
        Step::Stir { who } => {
            lemma_tally_update(Measure::Live, g.seats, who, Phase::Awake);
            lemma_tally_update(Measure::Pending, g.seats, who, Phase::Awake);
            lemma_move_keeps_order(g, h, who, Phase::Awake);
            if g.live == 0 {
                let j = choose|j: int| 0 <= j < g.seats.len() && g.seats[j] == Phase::Waking;
                assert(g.seats.contains(Phase::Parked));
                assert(h.seats[j] == Phase::Waking);
            }
        },
        Step::Recheck { who } => {
            let p = h.seats[who];
            lemma_tally_update(Measure::Live, g.seats, who, p);
            lemma_tally_update(Measure::Pending, g.seats, who, p);
            lemma_move_keeps_order(g, h, who, p);
            if g.live == 0 {
                lemma_move_keeps_wake(g.seats, who, p);
            }
        },
        Step::Desist { who } => {
            lemma_tally_update(Measure::Live, g.seats, who, Phase::Draining);
            lemma_tally_update(Measure::Pending, g.seats, who, Phase::Draining);
            lemma_move_keeps_order(g, h, who, Phase::Draining);
            if g.live == 0 {
                lemma_move_keeps_wake(g.seats, who, Phase::Draining);
            }
        },
        Step::Settle { who } => {
            lemma_tally_update(Measure::Live, g.seats, who, Phase::Done);
            lemma_tally_update(Measure::Pending, g.seats, who, Phase::Done);
            lemma_move_keeps_order(g, h, who, Phase::Done);
            if g.live == 0 {
                lemma_move_keeps_wake(g.seats, who, Phase::Done);
            }
        },
    }
    if h.seats.contains(Phase::Waking) {
        let i = choose|i: int| 0 <= i < h.seats.len() && h.seats[i] == Phase::Waking;
        if i < g.seats.len() && g.seats[i] == Phase::Waking {
            assert(g.seats.contains(Phase::Waking));
            assert(g.seat_in_order(who));
            if let Phase::Joining { sponsor } = g.seats[who] {
                lemma_tally_covers(Measure::Live, g.seats, sponsor);
            }
        }
    }
}

} // verus!
