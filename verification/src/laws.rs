//! What holds of a rendezvous group under every interleaving.
//!
//! A history of a group is a sequence of steps, each taken by some participant
//! at a moment when it could take it. The laws below are stated for the groups
//! that a history leads to from the group that `new` founds, or for any group
//! that meets the invariant, which every such group does.

use crate::counters::CAPACITY;
use crate::protocol::lemma_live_within_pending;
use crate::protocol::lemma_step_inv;
use crate::protocol::lemma_founded_inv;
use crate::protocol::lemma_tally_covers;
use crate::protocol::lemma_tally_update;
use crate::protocol::lemma_tally_zero;
use crate::protocol::lemma_woken_counts;
use crate::protocol::tally;
use crate::protocol::weight;
use crate::protocol::woken;
use crate::protocol::Group;
use crate::protocol::Measure;
use crate::protocol::Phase;
use crate::protocol::Step;
use vstd::prelude::*;

verus! {

/// Whether the steps of `history` can be taken one after the other, beginning
/// with the group `g`.
pub open spec fn possible(g: Group, history: Seq<Step>) -> bool
    decreases history.len(),
{
    history.len() == 0 || (possible(g, history.drop_last()) && run(
        g,
        history.drop_last(),
    ).enabled(history.last()))
}

/// The group that `history` leads to from `g`.
pub open spec fn run(g: Group, history: Seq<Step>) -> Group
    decreases history.len(),
{
    if history.len() == 0 {
        g
    } else {
        run(g, history.drop_last()).next(history.last())
    }
}

/// The number of steps that the participants of `g` can still take, at most,
/// once all of them have begun to leave.
pub open spec fn effort(g: Group) -> nat {
    tally(Measure::Effort, g.seats)
}

/// Whether the participant `who` has begun to leave without waiting, or has
/// stopped waiting: it stands in none of the phases in which a waiter depends
/// on the others.
pub open spec fn clear(g: Group, who: int) -> bool {
    g.seats[who] is Waking || g.seats[who] is Draining || g.seats[who] is Done
}

/// The invariant holds after every history that begins in a group in which it
/// holds.
pub proof fn lemma_run_inv(g: Group, history: Seq<Step>)
    requires
        g.inv(),
        possible(g, history),
    ensures
        run(g, history).inv(),
    decreases history.len(),
{
    if history.len() > 0 {
        lemma_run_inv(g, history.drop_last());
        lemma_step_inv(run(g, history.drop_last()), history.last());
    }
}

/// Once every participant has begun to leave, nobody is live and nobody is
/// about to join.
proof fn lemma_empty_seats(g: Group)
    requires
        g.inv(),
        g.live == 0,
    ensures
        forall|i: int|
            0 <= i < g.seats.len() ==> !(#[trigger] g.seats[i] is Live) && !(g.seats[i]
                is Joining),
{
    lemma_tally_zero(Measure::Live, g.seats);
    assert forall|i: int| 0 <= i < g.seats.len() implies !(#[trigger] g.seats[i] is Live) && !(
    g.seats[i] is Joining) by {
        assert(weight(Measure::Live, g.seats[i]) == 0);
        assert(g.seat_in_order(i));
        if let Phase::Joining { sponsor } = g.seats[i] {
            assert(weight(Measure::Live, g.seats[sponsor]) == 0);
        }
    }
}

/// At every moment of every history, `pending` is at least `live`: no
/// participant counts as able to leave without counting as holding the shared
/// state.
pub proof fn law_pending_covers_live(history: Seq<Step>)
    requires
        possible(Group::founded(), history),
    ensures
        run(Group::founded(), history).pending >= run(Group::founded(), history).live,
{
    lemma_founded_inv();
    lemma_run_inv(Group::founded(), history);
    lemma_live_within_pending(run(Group::founded(), history).seats);
}

/// Only a duplication raises a counter, by one and without wrapping around:
/// its first half raises `pending`, its second half `live`. A handle that
/// begins to leave, by waiting or by being dropped, lowers `live` by one,
/// which was at least one, and leaves `pending` alone. A participant that
/// completes its departure lowers `pending` by one, which was at least one,
/// and leaves `live` alone. No other step touches a counter, and none makes
/// a counter wrap around.
pub proof fn law_counters_fall(g: Group, step: Step)
    requires
        g.inv(),
        g.enabled(step),
    ensures
        step is Reserve ==> g.next(step).pending == g.pending + 1 && g.next(step).live == g.live,
        step is Join ==> g.next(step).live == g.live + 1 && g.next(step).pending == g.pending,
        !(step is Reserve) && !(step is Join) ==> g.live - 1 <= g.next(step).live <= g.live
            && g.pending - 1 <= g.next(step).pending <= g.pending,
        step is Wait || step is Abandon ==> g.live >= 1 && g.next(step).live == g.live - 1
            && g.next(step).pending == g.pending,
        step is Settle ==> g.pending >= 1 && g.next(step).pending == g.pending - 1 && g.next(
            step,
        ).live == g.live,
        !(step is Reserve) && !(step is Join) && !(step is Wait) && !(step is Abandon) && !(step
            is Settle) ==> g.next(step).live == g.live && g.next(step).pending == g.pending,
{
    let who = step.actor();
    lemma_step_inv(g, step);
    lemma_tally_covers(Measure::Live, g.seats, who);
    lemma_tally_covers(Measure::Pending, g.seats, who);
    if step is Join {
        lemma_tally_update(Measure::Live, g.seats, who, Phase::Live);
    }
}

/// `live` reaches zero once and for all: whatever happens after every
/// participant has begun to leave, nobody joins and `live` stays at zero.
pub proof fn law_empty_is_final(g: Group, history: Seq<Step>)
    requires
        g.inv(),
        g.live == 0,
        possible(g, history),
    ensures
        run(g, history).live == 0,
    decreases history.len(),
{
    if history.len() > 0 {
        let before = run(g, history.drop_last());
        law_empty_is_final(g, history.drop_last());
        lemma_run_inv(g, history.drop_last());
        lemma_empty_seats(before);
    }
}

/// `live` reaches zero once: in a group that every participant has begun to
/// leave, nobody is left who could join, duplicate a handle or begin to
/// leave.
pub proof fn law_empty_group_is_closed(g: Group, step: Step)
    requires
        g.inv(),
        g.live == 0,
        g.enabled(step),
    ensures
        !(step is Reserve),
        !(step is Join),
        !(step is Wait),
        !(step is Abandon),
{
    lemma_empty_seats(g);
}

/// A duplication goes through exactly where `pending` is below the ceiling,
/// and one that finds `pending` just below it takes the group to the
/// ceiling.
pub proof fn law_capacity_boundary(g: Group, sponsor: int)
    requires
        g.inv(),
        g.seated(sponsor),
        g.seats[sponsor] is Live,
    ensures
        g.enabled(Step::Reserve { sponsor }) <==> g.pending < CAPACITY,
        g.pending == CAPACITY - 1 ==> g.next(Step::Reserve { sponsor }).pending == CAPACITY,
        g.pending == CAPACITY ==> !g.enabled(Step::Reserve { sponsor }),
{
}

/// The shared state is released at most once; it is released exactly when
/// every participant has left; and from then on nobody has a step left to
/// take, so that nobody touches the shared state after its release.
pub proof fn law_single_release(history: Seq<Step>)
    requires
        possible(Group::founded(), history),
    ensures
        ({
            let g = run(Group::founded(), history);
            &&& g.released <= 1
            &&& g.released == 1 <==> g.pending == 0
            &&& g.released == 1 <==> forall|i: int|
                0 <= i < g.seats.len() ==> #[trigger] g.seats[i] is Done
            &&& g.released == 1 ==> forall|step: Step| !#[trigger] g.enabled(step)
        }),
{
    let g = run(Group::founded(), history);
    lemma_founded_inv();
    lemma_run_inv(Group::founded(), history);
    lemma_tally_zero(Measure::Pending, g.seats);
    if g.released == 1 {
        assert forall|i: int| 0 <= i < g.seats.len() implies #[trigger] g.seats[i] is Done by {
            assert(weight(Measure::Pending, g.seats[i]) == 0);
        }
        assert forall|step: Step| !#[trigger] g.enabled(step) by {
            if g.enabled(step) {
                assert(g.seats[step.actor()] is Done);
            }
        }
    } else {
        let i = choose|i: int|
            0 <= i < g.seats.len() && weight(Measure::Pending, #[trigger] g.seats[i]) != 0;
        assert(!(g.seats[i] is Done));
    }
}

/// The step that releases the shared state is the last departure to
/// complete: it finds `pending` at one, and no other step releases anything.
pub proof fn law_release_by_last(g: Group, step: Step)
    requires
        g.inv(),
        g.enabled(step),
    ensures
        g.next(step).released == g.released + 1 <==> step is Settle && g.pending == 1,
        g.next(step).released != g.released + 1 ==> g.next(step).released == g.released,
{
}

/// A participant that is dropped is clear at once, whatever the others are
/// doing: it owes the wake-up where it was the last live participant, and
/// nothing but its own departure from `pending` otherwise.
pub proof fn law_abandon_never_blocks(g: Group, who: int)
    requires
        g.inv(),
        g.enabled(Step::Abandon { who }),
    ensures
        ({
            let h = g.next(Step::Abandon { who });
            &&& clear(h, who)
            &&& h.seats[who] is Waking <==> g.live == 1
            &&& h.seats[who] is Waking ==> h.enabled(Step::Broadcast { who })
            &&& h.seats[who] is Draining ==> h.enabled(Step::Settle { who })
        }),
{
    lemma_tally_covers(Measure::Live, g.seats, who);
}

/// A participant that is clear stays clear through every step of every
/// participant, and the step that it can take is always open to it: it never
/// parks, and it never depends on anybody else.
pub proof fn law_clear_stays_clear(g: Group, who: int, step: Step)
    requires
        g.inv(),
        g.seated(who),
        clear(g, who),
        g.enabled(step),
    ensures
        clear(g.next(step), who),
        g.seats[who] is Waking ==> g.enabled(Step::Broadcast { who }),
        g.seats[who] is Draining ==> g.enabled(Step::Settle { who }),
{
}

/// The wake-up of the last live participant reaches every waiter that is
/// parked at that moment, whether the participant waits itself or was
/// dropped: after it nobody is parked, and nobody parks again.
pub proof fn law_wake_reaches_all(g: Group, who: int, history: Seq<Step>)
    requires
        g.inv(),
        g.enabled(Step::Broadcast { who }),
        possible(g.next(Step::Broadcast { who }), history),
    ensures
        !run(g.next(Step::Broadcast { who }), history).seats.contains(Phase::Parked),
    decreases history.len(),
{
    let h = g.next(Step::Broadcast { who });
    lemma_step_inv(g, Step::Broadcast { who });
    if history.len() == 0 {
        assert(!h.seats.contains(Phase::Parked));
    } else {
        let before = run(h, history.drop_last());
        let after = run(h, history);
        law_wake_reaches_all(g, who, history.drop_last());
        lemma_run_inv(h, history.drop_last());
        law_empty_is_final(h, history.drop_last());
        assert(before.seat_in_order(history.last().actor()));
        assert forall|i: int| 0 <= i < after.seats.len() implies after.seats[i]
            != Phase::Parked by {
            if i < before.seats.len() && before.seats[i] == Phase::Parked {
                assert(before.seats.contains(Phase::Parked));
            }
        }
    }
}

/// No wake-up is missed: once every participant has begun to leave, and as
/// long as one of them has not left, some participant can take a step that
/// does not depend on a chance wake-up.
pub proof fn law_no_missed_wakeup(g: Group)
    requires
        g.inv(),
        g.live == 0,
        g.pending > 0,
    ensures
        exists|step: Step| #[trigger] g.enabled(step) && !(step is Stir),
{
    lemma_tally_zero(Measure::Pending, g.seats);
    lemma_empty_seats(g);
    let i = choose|i: int|
        0 <= i < g.seats.len() && weight(Measure::Pending, #[trigger] g.seats[i]) != 0;
    match g.seats[i] {
        Phase::Waking => {
            assert(g.enabled(Step::Broadcast { who: i }));
        },
        Phase::Watching(_) => {
            assert(g.enabled(Step::Park { who: i }));
        },
        Phase::Awake => {
            assert(g.enabled(Step::Recheck { who: i }));
        },
        Phase::Draining => {
            assert(g.enabled(Step::Settle { who: i }));
        },
        Phase::Parked => {
            assert(g.seats.contains(Phase::Parked));
            let j = choose|j: int| 0 <= j < g.seats.len() && g.seats[j] == Phase::Waking;
            assert(g.enabled(Step::Broadcast { who: j }));
        },
        _ => {},
    }
}

/// Once every participant has begun to leave, every step brings the group
/// closer to its end.
pub proof fn law_effort_falls(g: Group, step: Step)
    requires
        g.inv(),
        g.live == 0,
        g.enabled(step),
    ensures
        effort(g.next(step)) < effort(g),
{
    let who = step.actor();
    let h = g.next(step);
    lemma_empty_seats(g);
    assert(g.seat_in_order(who));
    match step {
        Step::Broadcast { who } => {
            lemma_woken_counts(g.seats);
            lemma_tally_update(Measure::Effort, woken(g.seats), who, Phase::Draining);
        },
        _ => {
            lemma_tally_update(Measure::Effort, g.seats, who, h.seats[who]);
        },
    }
}

/// Every wait returns: once every participant has begun to leave, a history
/// is never longer than the effort that the group had left, and at its end
/// the group has that much less effort left. With
/// [`law_no_missed_wakeup`], the participants that keep taking their steps
/// have all left after that many steps.
pub proof fn law_every_wait_returns(g: Group, history: Seq<Step>)
    requires
        g.inv(),
        g.live == 0,
        possible(g, history),
    ensures
        history.len() + effort(run(g, history)) <= effort(g),
    decreases history.len(),
{
    if history.len() > 0 {
        let before = run(g, history.drop_last());
        law_every_wait_returns(g, history.drop_last());
        lemma_run_inv(g, history.drop_last());
        law_empty_is_final(g, history.drop_last());
        law_effort_falls(before, history.last());
    }
}

/// A group with no effort left is a group that everybody has left.
pub proof fn law_no_effort_left(g: Group)
    requires
        g.inv(),
    ensures
        effort(g) == 0 <==> g.pending == 0,
{
    lemma_tally_zero(Measure::Effort, g.seats);
    lemma_tally_zero(Measure::Pending, g.seats);
    if effort(g) == 0 {
        assert forall|i: int| 0 <= i < g.seats.len() implies weight(
            Measure::Pending,
            #[trigger] g.seats[i],
        ) == 0 by {
            assert(weight(Measure::Effort, g.seats[i]) == 0);
        }
    }
    if g.pending == 0 {
        assert forall|i: int| 0 <= i < g.seats.len() implies weight(
            Measure::Effort,
            #[trigger] g.seats[i],
        ) == 0 by {
            assert(weight(Measure::Pending, g.seats[i]) == 0);
        }
    }
}

/// The steps that the destructor of the live handle `who` takes, in their
/// order: it takes itself off `live`, sends the wake-up where it found `live`
/// at one, and takes itself off `pending`.
pub open spec fn drop_steps(g: Group, who: int) -> Seq<Step> {
    if g.live == 1 {
        Seq::empty().push(Step::Abandon { who }).push(Step::Broadcast { who }).push(
            Step::Settle { who },
        )
    } else {
        Seq::empty().push(Step::Abandon { who }).push(Step::Settle { who })
    }
}

/// A history with one more step at its end is possible where the history is
/// and the step can be taken after it, and leads to the group after that
/// step.
pub proof fn lemma_run_push(g: Group, history: Seq<Step>, step: Step)
    ensures
        possible(g, history.push(step)) <==> possible(g, history) && run(g, history).enabled(
            step,
        ),
        run(g, history.push(step)) == run(g, history).next(step),
{
    assert(history.push(step).drop_last() =~= history);
}

/// A destructor runs through: from any group in which the handle is live and
/// not borrowed, its two or three steps can be taken one after the other,
/// whatever the other participants are doing at that moment. They lower
/// `live` by one and `pending` by one, leave the participant gone, release
/// the shared state exactly where the handle was the only participant that
/// had not left, and leave nobody parked where it was the last live handle.
pub proof fn law_drop_runs_through(g: Group, who: int)
    requires
        g.inv(),
        g.enabled(Step::Abandon { who }),
    ensures
        possible(g, drop_steps(g, who)),
        drop_steps(g, who).len() <= 3,
        ({
            let h = run(g, drop_steps(g, who));
            &&& h.inv()
            &&& h.live == g.live - 1
            &&& h.pending == g.pending - 1
            &&& h.seats[who] is Done
            &&& h.released == 1 <==> g.pending == 1
            &&& g.live == 1 ==> !h.seats.contains(Phase::Parked)
        }),
{
    let none = Seq::<Step>::empty();
    let abandon = Step::Abandon { who };
    let broadcast = Step::Broadcast { who };
    let settle = Step::Settle { who };
    let g1 = g.next(abandon);
    lemma_run_push(g, none, abandon);
    lemma_step_inv(g, abandon);
    law_counters_fall(g, abandon);
    if g.live == 1 {
        let g2 = g1.next(broadcast);
        lemma_run_push(g, none.push(abandon), broadcast);
        lemma_step_inv(g1, broadcast);
        law_counters_fall(g1, broadcast);
        lemma_run_push(g, none.push(abandon).push(broadcast), settle);
        lemma_step_inv(g2, settle);
        law_counters_fall(g2, settle);
        let h = g2.next(settle);
        assert(!g2.seats.contains(Phase::Parked));
        assert forall|i: int| 0 <= i < h.seats.len() implies h.seats[i] != Phase::Parked by {
            if g2.seats[i] == Phase::Parked {
                assert(g2.seats.contains(Phase::Parked));
            }
        }
    } else {
        lemma_run_push(g, none.push(abandon), settle);
        lemma_step_inv(g1, settle);
        law_counters_fall(g1, settle);
    }
}

/// The shared state outlives every participant that has not left: the
/// departure of `who` does not release it while a peer still stands on
/// `pending`, whether that peer is live, waiting or about to complete its own
/// departure. So the model releases the state with the last of them, and no
/// peer reads a counter of a state that has been released.
pub proof fn law_state_outlives_peers(g: Group, who: int, peer: int)
    requires
        g.inv(),
        g.enabled(Step::Settle { who }),
        g.seated(peer),
        peer != who,
        !(g.seats[peer] is Done),
    ensures
        g.pending >= 2,
        g.next(Step::Settle { who }).released == 0,
        g.next(Step::Settle { who }).pending >= 1,
{
    let rest = g.seats.update(who, Phase::Done);
    lemma_tally_update(Measure::Pending, g.seats, who, Phase::Done);
    lemma_tally_covers(Measure::Pending, rest, peer);
}

/// The destructor of the last live handle releases every waiter: once it has
/// taken `live` to zero and sent the wake-up, whoever was parked is awake,
/// nobody is parked, and every waiter that is awake reads zero and stops
/// waiting.
pub proof fn law_drop_of_last_wakes_all(g: Group, who: int)
    requires
        g.inv(),
        g.enabled(Step::Abandon { who }),
        g.live == 1,
    ensures
        g.next(Step::Abandon { who }).enabled(Step::Broadcast { who }),
        ({
            let h = g.next(Step::Abandon { who }).next(Step::Broadcast { who });
            &&& h.inv()
            &&& h.live == 0
            &&& !h.seats.contains(Phase::Parked)
            &&& forall|i: int|
                0 <= i < g.seats.len() && #[trigger] g.seats[i] is Parked ==> h.seats[i] is Awake
            &&& forall|i: int|
                0 <= i < h.seats.len() && #[trigger] h.seats[i] is Awake ==> h.enabled(
                    Step::Recheck { who: i },
                ) && h.next(Step::Recheck { who: i }).seats[i] is Draining
        }),
{
    let g1 = g.next(Step::Abandon { who });
    lemma_step_inv(g, Step::Abandon { who });
    lemma_step_inv(g1, Step::Broadcast { who });
    let h = g1.next(Step::Broadcast { who });
    assert(!h.seats.contains(Phase::Parked));
}

/// A participant that is clear never waits for a peer: whatever the others
/// do, and however long they take, it stays clear and its own next step stays
/// open to it.
pub proof fn law_clear_through_history(g: Group, who: int, history: Seq<Step>)
    requires
        g.inv(),
        g.seated(who),
        clear(g, who),
        possible(g, history),
    ensures
        run(g, history).inv(),
        run(g, history).seated(who),
        clear(run(g, history), who),
        run(g, history).seats[who] is Waking ==> run(g, history).enabled(
            Step::Broadcast { who },
        ),
        run(g, history).seats[who] is Draining ==> run(g, history).enabled(Step::Settle { who }),
    decreases history.len(),
{
    if history.len() > 0 {
        let before = run(g, history.drop_last());
        law_clear_through_history(g, who, history.drop_last());
        lemma_step_inv(before, history.last());
        law_clear_stays_clear(before, who, history.last());
    }
}

} // verus!
