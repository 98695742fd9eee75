//! The mathematical model of a frog's walk along the lily pads, and what
//! holds of every walk.

use vstd::prelude::*;

verus! {

/// The side of the bank towards which a frog set out.
#[derive(Clone, Copy, PartialEq, Eq, Debug, Structural)]
pub enum FrogHeading {
    Left,
    Right,
}

/// What is known of a frog at one moment of its walk.
pub ghost struct FrogState {
    /// The number by which the frog is told from others, if it has one.
    pub id: Option<usize>,
    /// The lily pad on which the frog sits; pad 0 is the bank.
    pub position: int,
    /// The jumps taken so far; setting the frog on the first pad counts as one.
    pub jumps: nat,
    /// The highest pad on which the frog has sat so far.
    pub furthest: int,
    /// The side towards which the frog set out.
    pub heading: FrogHeading,
}

/// The heading that a coin gives: left for `true`, right for `false`.
pub open spec fn heading_of(coin: bool) -> FrogHeading {
    if coin {
        FrogHeading::Left
    } else {
        FrogHeading::Right
    }
}

/// A frog that was just set on the first lily pad.
pub open spec fn start_state(id: Option<usize>, heading: FrogHeading) -> FrogState {
    FrogState { id, position: 1, jumps: 1, furthest: 1, heading }
}

/// The frog after one more jump: one pad back towards the bank where `back`
/// holds, one pad away from it otherwise.
pub open spec fn step(s: FrogState, back: bool) -> FrogState {
    let position = if back {
        s.position - 1
    } else {
        s.position + 1
    };
    FrogState {
        id: s.id,
        position,
        jumps: s.jumps + 1,
        furthest: if s.furthest < position {
            position
        } else {
            s.furthest
        },
        heading: s.heading,
    }
}

/// The frog after the jumps that `coins` decides, in order, from the start.
pub open spec fn walk(id: Option<usize>, heading: FrogHeading, coins: Seq<bool>) -> FrogState
    decreases coins.len(),
{
    if coins.len() == 0 {
        start_state(id, heading)
    } else {
        step(walk(id, heading, coins.drop_last()), coins.last())
    }
}

/// The pad on which a frog sits after the jumps that `coins` decides.
pub open spec fn pad_after(coins: Seq<bool>) -> int
    decreases coins.len(),
{
    if coins.len() == 0 {
        1
    } else if coins.last() {
        pad_after(coins.drop_last()) - 1
    } else {
        pad_after(coins.drop_last()) + 1
    }
}

/// The counters that some walk can show: the furthest pad is at least the
/// first one and not behind the frog, the jumps suffice to go out to the
/// furthest pad and back to where the frog sits, and they have the parity of
/// the position.
pub open spec fn valid(s: FrogState) -> bool {
    &&& s.furthest >= 1
    &&& s.position <= s.furthest
    &&& 2 * s.furthest - s.position <= s.jumps
    &&& (s.jumps - s.position) % 2 == 0
}

/// Whether the counters of a frog can hold one more jump in the given
/// direction.
pub open spec fn can_step(s: FrogState, back: bool) -> bool {
    &&& s.jumps < usize::MAX
    &&& back ==> isize::MIN < s.position
    &&& !back ==> s.position < isize::MAX
}

/// The jumps that a frog can still take before its counter of jumps is full;
/// none where it sits on the last pad that its counters can hold, on either
/// side.
pub open spec fn room(s: FrogState) -> nat {
    if can_step(s, true) && can_step(s, false) {
        (usize::MAX - s.jumps) as nat
    } else {
        0
    }
}

/// The furthest distance as it is reported: negative for a frog that set out
/// to the left.
pub open spec fn signed_displacement(s: FrogState) -> int {
    match s.heading {
        FrogHeading::Left => -s.furthest,
        FrogHeading::Right => s.furthest,
    }
}

/// A frog that was just set down has valid counters.
pub proof fn law_start_valid(id: Option<usize>, heading: FrogHeading)
    ensures
        valid(start_state(id, heading)),
{
}

/// A jump keeps the counters valid, whichever way it goes.
pub proof fn law_step_valid(s: FrogState, back: bool)
    requires
        valid(s),
    ensures
        valid(step(s, back)),
{
}

/// Every walk leaves valid counters, keeps the number and the heading that
/// the frog started with, and counts one jump more than it has coins.
pub proof fn law_walk_valid(id: Option<usize>, heading: FrogHeading, coins: Seq<bool>)
    ensures
        valid(walk(id, heading, coins)),
        walk(id, heading, coins).id == id,
        walk(id, heading, coins).heading == heading,
        walk(id, heading, coins).jumps == coins.len() + 1,
        walk(id, heading, coins).position == pad_after(coins),
    decreases coins.len(),
{
    if coins.len() > 0 {
        law_walk_valid(id, heading, coins.drop_last());
        law_step_valid(walk(id, heading, coins.drop_last()), coins.last());
    }
}

/// The furthest pad is never below the first one, and the reported distance
/// is that pad for a frog heading right and its negative for one heading
/// left, so it is never zero.
pub proof fn law_displacement(s: FrogState)
    requires
        valid(s),
    ensures
        s.furthest >= 1,
        s.heading == FrogHeading::Right ==> signed_displacement(s) == s.furthest,
        s.heading == FrogHeading::Left ==> signed_displacement(s) == -s.furthest,
        signed_displacement(s) != 0,
{
}

/// A frog that is back on the bank has taken at least two jumps.
pub proof fn law_home_takes_two(s: FrogState)
    requires
        valid(s),
        s.position == 0,
    ensures
        s.jumps >= 2,
{
}

/// The furthest pad of a walk is the highest pad that the frog sat on: no
/// pad on the way lies beyond it, and the frog sat on it at some moment.
pub proof fn law_furthest_is_highest(id: Option<usize>, heading: FrogHeading, coins: Seq<bool>)
    ensures
        forall|k: int|
            0 <= k <= coins.len() ==> #[trigger] pad_after(coins.take(k)) <= walk(
                id,
                heading,
                coins,
            ).furthest,
        exists|k: int|
            0 <= k <= coins.len() && #[trigger] pad_after(coins.take(k)) == walk(
                id,
                heading,
                coins,
            ).furthest,
    decreases coins.len(),
{
    let end = walk(id, heading, coins);
    if coins.len() == 0 {
        assert(coins.take(0) =~= coins);
        assert(pad_after(coins.take(0)) == end.furthest);
        assert forall|k: int| 0 <= k <= coins.len() implies #[trigger] pad_after(coins.take(k))
            <= end.furthest by {
            assert(coins.take(k) =~= coins);
        }
    } else {
        let front = coins.drop_last();
        let before = walk(id, heading, front);
        law_furthest_is_highest(id, heading, front);
        law_walk_valid(id, heading, coins);
        law_walk_valid(id, heading, front);
        assert(coins.take(coins.len() as int) =~= coins);
        assert forall|k: int| 0 <= k <= coins.len() implies #[trigger] pad_after(coins.take(k))
            <= end.furthest by {
            if k < coins.len() {
                assert(coins.take(k) =~= front.take(k));
            }
        }
        if end.furthest == before.furthest {
            let k = choose|k: int|
                0 <= k <= front.len() && #[trigger] pad_after(front.take(k)) == before.furthest;
            assert(coins.take(k) =~= front.take(k));
            assert(pad_after(coins.take(k)) == end.furthest);
        } else {
            assert(pad_after(coins.take(coins.len() as int)) == end.furthest);
        }
    }
}

/// A way to jump that goes `up` pads out, then `down` pads back, and then
/// `pairs` times one pad back and out again.
pub open spec fn there_and_back(up: nat, down: nat, pairs: nat) -> Seq<bool>
    decreases pairs, down, up,
{
    if pairs > 0 {
        there_and_back(up, down, (pairs - 1) as nat).push(true).push(false)
    } else if down > 0 {
        there_and_back(up, (down - 1) as nat, 0).push(true)
    } else if up > 0 {
        there_and_back((up - 1) as nat, 0, 0).push(false)
    } else {
        Seq::<bool>::empty()
    }
}

/// One more coin is one more jump.
pub proof fn law_walk_push(
    id: Option<usize>,
    heading: FrogHeading,
    coins: Seq<bool>,
    back: bool,
)
    ensures
        walk(id, heading, coins.push(back)) == step(walk(id, heading, coins), back),
{
    assert(coins.push(back).drop_last() =~= coins);
}

/// Where going out and back leaves the frog.
pub proof fn law_there_and_back(
    id: Option<usize>,
    heading: FrogHeading,
    up: nat,
    down: nat,
    pairs: nat,
)
    ensures
        walk(id, heading, there_and_back(up, down, pairs)) == (FrogState {
            id,
            position: 1 + up - down,
            jumps: (1 + up + down + 2 * pairs) as nat,
            furthest: 1 + up as int,
            heading,
        }),
    decreases pairs, down, up,
{
    if pairs > 0 {
        let before = there_and_back(up, down, (pairs - 1) as nat);
        law_there_and_back(id, heading, up, down, (pairs - 1) as nat);
        law_walk_push(id, heading, before, true);
        law_walk_push(id, heading, before.push(true), false);
    } else if down > 0 {
        let before = there_and_back(up, (down - 1) as nat, 0);
        law_there_and_back(id, heading, up, (down - 1) as nat, 0);
        law_walk_push(id, heading, before, true);
    } else if up > 0 {
        let before = there_and_back((up - 1) as nat, 0, 0);
        law_there_and_back(id, heading, (up - 1) as nat, 0, 0);
        law_walk_push(id, heading, before, false);
    }
}

/// Valid counters are the counters of some walk: they are exactly what a
/// frog can show.
pub proof fn law_valid_is_reachable(s: FrogState)
    requires
        valid(s),
    ensures
        exists|coins: Seq<bool>| #[trigger] walk(s.id, s.heading, coins) == s,
{
    let up = (s.furthest - 1) as nat;
    let down = (s.furthest - s.position) as nat;
    let spare = s.jumps - (2 * s.furthest - s.position);
    let pairs = (spare / 2) as nat;
    assert(spare % 2 == 0 && spare >= 0);
    law_there_and_back(s.id, s.heading, up, down, pairs);
    assert(walk(s.id, s.heading, there_and_back(up, down, pairs)) == s);
}

} // verus!
