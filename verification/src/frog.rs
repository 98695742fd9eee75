//! A frog that jumps at random along a line of lily pads.

use crate::chance::toss;
use crate::results::{csv_row, push_csv_row, ResultRecord};
use crate::text::{decimal, push_decimal, push_signed_decimal, signed_decimal};
pub use crate::walk::FrogHeading;
use crate::walk::{can_step, heading_of, pad_after, room, signed_displacement, start_state};
use crate::walk::{step, valid, walk};
use crate::walk::{law_home_takes_two, law_walk_valid, FrogState};
use vstd::prelude::*;
use vstd::string::*;

verus! {

/// The name of a heading: `left` or `right`.
pub open spec fn heading_text(heading: FrogHeading) -> Seq<char> {
    match heading {
        FrogHeading::Left => "left"@,
        FrogHeading::Right => "right"@,
    }
}

/// The name of a heading as a string slice.
pub fn heading_name(heading: FrogHeading) -> (name: &'static str)
    ensures
        name@ == heading_text(heading),
{
    match heading {
        FrogHeading::Left => "left",
        FrogHeading::Right => "right",
    }
}

impl FrogHeading {
    /// The heading that a coin gives: left for `true`, right for `false`.
    pub fn from_coin(coin: bool) -> (heading: FrogHeading)
        ensures
            heading == heading_of(coin),
    {
        if coin {
            FrogHeading::Left
        } else {
            FrogHeading::Right
        }
    }

    /// The name of the heading: `left` or `right`.
    pub fn to_text(&self) -> (name: String)
        ensures
            name@ == heading_text(*self),
    {
        String::from_str(heading_name(*self))
    }
}

/// A frog on a line of lily pads, with the counters of its walk.
pub struct Frog {
    id: Option<usize>,
    position: isize,
    jumps: usize,
    furthest: isize,
    heading: FrogHeading,
}

impl View for Frog {
    type V = FrogState;

    closed spec fn view(&self) -> FrogState {
        FrogState {
            id: self.id,
            position: self.position as int,
            jumps: self.jumps as nat,
            furthest: self.furthest as int,
            heading: self.heading,
        }
    }
}

/// What a frog can do for the worker that runs it.
pub trait FrogTrait: Sized + Send + 'static {
    /// The counters of the frog.
    spec fn state(&self) -> FrogState;

    /// Sets a new frog on the first lily pad and gives it a heading.
    fn start(id: Option<usize>) -> (frog: Self)
        ensures
            frog.state() == start_state(id, frog.state().heading),
    ;

    /// Whether the frog can jump once more without its counters running over.
    fn has_room(&self) -> (more: bool)
        ensures
            more == (room(self.state()) > 0),
    ;

    /// Makes the frog jump one pad, back towards the bank or away from it,
    /// and says whether that brought it home.
    fn jump(&mut self) -> (home: Option<()>)
        requires
            room(old(self).state()) > 0,
        ensures
            final(self).state() == step(old(self).state(), true) || final(self).state() == step(
                old(self).state(),
                false,
            ),
            home.is_some() <==> final(self).state().position == 0,
    ;

    /// The result of the frog as one row of the table, once it is home: its
    /// number where it has one, its jumps and its furthest distance. A frog
    /// that is still under way has no result.
    fn result(&self) -> (row: Option<String>)
        ensures
            row.is_some() <==> self.state().position == 0,
            row matches Some(r) ==> r@ == csv_row(
                self.state().id,
                self.state().jumps,
                signed_displacement(self.state()),
            ),
    ;
}

/// Whether a frog that jumps as `coins` decides stays off the bank before its
/// last jump.
pub open spec fn absorbed_only_at_end(coins: Seq<bool>) -> bool {
    forall|k: int| 0 <= k < coins.len() ==> #[trigger] pad_after(coins.take(k)) != 0
}

/// Sets a new frog on the first lily pad and makes it jump until it is home,
/// until it has `budget` jumps behind it, or until its counters are full,
/// whichever comes first; says with the frog whether it came home. What comes
/// back is the end of a walk that did not touch the bank before its last
/// jump.
pub fn run_within<T: FrogTrait>(id: Option<usize>, budget: usize) -> (end: (T, bool))
    ensures
        end.0.state().id == id,
        end.1 <==> end.0.state().position == 0,
        end.1 ==> end.0.state().jumps >= 2,
        !end.1 ==> end.0.state().jumps >= budget || room(end.0.state()) == 0,
        end.0.state().jumps <= budget || end.0.state().jumps == 1,
        exists|coins: Seq<bool>| #[trigger]
            walk(id, end.0.state().heading, coins) == end.0.state() && absorbed_only_at_end(coins),
{
    let mut frog = T::start(id);
    let ghost heading = frog.state().heading;
    let ghost mut coins: Seq<bool> = Seq::empty();
    let mut home = false;
    let mut taken: usize = 1;
    while !home && taken < budget && frog.has_room()
        invariant
            frog.state() == walk(id, heading, coins),
            taken == frog.state().jumps,
            taken <= budget || taken == 1,
            home <==> frog.state().position == 0,
            absorbed_only_at_end(coins),
        decreases usize::MAX - frog.state().jumps,
    {
        let ghost before = frog.state();
        let ghost earlier = coins;
        home = frog.jump().is_some();
        taken = taken + 1;
        proof {
            let back = frog.state() == step(before, true);
            coins = earlier.push(back);
            assert(coins.drop_last() =~= earlier);
            assert forall|k: int| 0 <= k < coins.len() implies #[trigger] pad_after(
                coins.take(k),
            ) != 0 by {
                if k < earlier.len() {
                    assert(coins.take(k) =~= earlier.take(k));
                } else {
                    assert(coins.take(k) =~= earlier);
                    law_walk_valid(id, heading, earlier);
                }
            }
        }
    }
    proof {
        law_walk_valid(id, heading, coins);
        if home {
            law_home_takes_two(frog.state());
        }
        assert(walk(id, frog.state().heading, coins) == frog.state() && absorbed_only_at_end(
            coins,
        ));
    }
    (frog, home)
}

/// Sets a new frog on the first lily pad and makes it jump until it is home,
/// however long that takes, or until its counters are full; says with the
/// frog whether it came home.
pub fn run_to_end<T: FrogTrait>(id: Option<usize>) -> (end: (T, bool))
    ensures
        end.0.state().id == id,
        end.1 <==> end.0.state().position == 0,
        end.1 ==> end.0.state().jumps >= 2,
        !end.1 ==> room(end.0.state()) == 0,
        exists|coins: Seq<bool>| #[trigger]
            walk(id, end.0.state().heading, coins) == end.0.state() && absorbed_only_at_end(coins),
{
    run_within::<T>(id, usize::MAX)
}

/// The text that describes a frog with all its counters.
pub open spec fn frog_text(s: FrogState) -> Seq<char> {
    let id = match s.id {
        Some(id) => "Some("@ + decimal(id as nat) + ")"@,
        None => "None"@,
    };
    "frog:\nid: "@ + id + ",\nposition: "@ + signed_decimal(s.position) + ",\njumps: "@ + decimal(
        s.jumps,
    ) + ",\ndistance: "@ + signed_decimal(s.furthest) + ",\nheading: "@ + heading_text(s.heading)
        + ","@
}

impl Frog {
    #[verifier::type_invariant]
    spec fn counters_valid(self) -> bool {
        valid(self@)
    }

    /// A frog with the given counters, where some walk can show them.
    pub fn from_parts(
        id: Option<usize>,
        position: isize,
        jumps: usize,
        furthest: isize,
        heading: FrogHeading,
    ) -> (frog: Option<Frog>)
        ensures
            frog.is_some() <==> valid(
                FrogState {
                    id,
                    position: position as int,
                    jumps: jumps as nat,
                    furthest: furthest as int,
                    heading,
                },
            ),
            frog matches Some(f) ==> f@ == (FrogState {
                id,
                position: position as int,
                jumps: jumps as nat,
                furthest: furthest as int,
                heading,
            }),
    {
        if furthest < 1 || position > furthest {
            return None;
        }
        let there_and_back: i128 = 2 * (furthest as i128) - (position as i128);
        let taken: i128 = jumps as i128;
        if there_and_back > taken || (taken - (position as i128)) % 2 != 0 {
            return None;
        }
        Some(Frog { id, position, jumps, furthest, heading })
    }

    /// Sets a new frog with the given heading on the first lily pad.
    pub fn with_heading(id: Option<usize>, heading: FrogHeading) -> (frog: Frog)
        ensures
            frog@ == start_state(id, heading),
    {
        Frog { id, position: 1, jumps: 1, furthest: 1, heading }
    }

    /// Makes the frog jump one pad, back towards the bank where `back`
    /// holds and away from it otherwise, and says whether that brought it
    /// home.
    pub fn advance(&mut self, back: bool) -> (home: Option<()>)
        requires
            can_step(old(self)@, back),
        ensures
            final(self)@ == step(old(self)@, back),
            home.is_some() <==> final(self)@.position == 0,
    {
        proof {
            use_type_invariant(&*self);
        }
        let position: isize = if back {
            self.position - 1
        } else {
            self.position + 1
        };
        let furthest: isize = if self.furthest < position {
            position
        } else {
            self.furthest
        };
        *self = Frog {
            id: self.id,
            position,
            jumps: self.jumps + 1,
            furthest,
            heading: self.heading,
        };
        if position == 0 {
            Some(())
        } else {
            None
        }
    }

    /// The number by which the frog is told from others, if it has one.
    pub fn id(&self) -> (id: Option<usize>)
        ensures
            id == self@.id,
    {
        self.id
    }

    /// The lily pad on which the frog sits.
    pub fn position(&self) -> (position: isize)
        ensures
            position == self@.position,
    {
        self.position
    }

    /// The jumps that the frog has taken.
    pub fn jumps(&self) -> (jumps: usize)
        ensures
            jumps == self@.jumps,
            jumps >= 1,
    {
        proof {
            use_type_invariant(self);
        }
        self.jumps
    }

    /// The highest lily pad on which the frog has sat.
    pub fn furthest(&self) -> (furthest: isize)
        ensures
            furthest == self@.furthest,
            furthest >= 1,
            furthest >= self@.position,
    {
        proof {
            use_type_invariant(self);
        }
        self.furthest
    }

    /// The side towards which the frog set out.
    pub fn heading(&self) -> (heading: FrogHeading)
        ensures
            heading == self@.heading,
    {
        self.heading
    }

    /// The furthest distance as it is reported: the furthest pad for a frog
    /// heading right, its negative for one heading left.
    pub fn signed_distance(&self) -> (distance: isize)
        ensures
            distance == signed_displacement(self@),
            distance != 0,
    {
        proof {
            use_type_invariant(self);
        }
        match self.heading {
            FrogHeading::Left => -self.furthest,
            FrogHeading::Right => self.furthest,
        }
    }

    /// The record of the frog, once it is home.
    pub fn record(&self) -> (record: Option<ResultRecord>)
        ensures
            record.is_some() <==> self@.position == 0,
            record matches Some(r) ==> {
                &&& r.frog_id == self@.id
                &&& r.step_count == self@.jumps
                &&& r.signed_displacement == signed_displacement(self@)
                &&& r.step_count >= 2
                &&& r.signed_displacement != 0
            },
    {
        proof {
            use_type_invariant(self);
        }
        if self.position == 0 {
            Some(
                ResultRecord {
                    frog_id: self.id,
                    step_count: self.jumps,
                    signed_displacement: self.signed_distance(),
                },
            )
        } else {
            None
        }
    }

    /// The frog with all its counters, one to a line.
    pub fn to_text(&self) -> (text: String)
        ensures
            text@ == frog_text(self@),
    {
        proof {
            reveal_strlit("Some(");
            reveal_strlit(")");
        }
        let mut text = String::from_str("frog:\nid: ");
        match self.id {
            Some(id) => {
                text.append("Some(");
                push_decimal(&mut text, id);
                text.append(")");
            },
            None => {
                text.append("None");
            },
        }
        text.append(",\nposition: ");
        push_signed_decimal(&mut text, self.position);
        text.append(",\njumps: ");
        push_decimal(&mut text, self.jumps);
        text.append(",\ndistance: ");
        push_signed_decimal(&mut text, self.furthest);
        text.append(",\nheading: ");
        text.append(heading_name(self.heading));
        text.append(",");
        assert(text@ =~= frog_text(self@));
        text
    }
}

impl FrogTrait for Frog {
    open spec fn state(&self) -> FrogState {
        self@
    }

    /// Sets a new frog on the first lily pad, with a heading that a coin
    /// decides.
    fn start(id: Option<usize>) -> (frog: Frog) {
        Frog::with_heading(id, FrogHeading::from_coin(toss()))
    }

    fn has_room(&self) -> (more: bool) {
        self.jumps < usize::MAX && isize::MIN < self.position && self.position < isize::MAX
    }

    /// Makes the frog jump one pad, back or away as a coin decides, and says
    /// whether that brought it home.
    fn jump(&mut self) -> (home: Option<()>) {
        self.advance(toss())
    }

    fn result(&self) -> (row: Option<String>) {
        if self.position != 0 {
            return None;
        }
        let mut row = String::new();
        push_csv_row(&mut row, self.id, self.jumps, self.signed_distance());
        assert(row@ =~= csv_row(self@.id, self@.jumps, signed_displacement(self@)));
        Some(row)
    }
}

} // verus!
