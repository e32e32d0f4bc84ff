//! Display states: where each player is drawn, and the blend of two of them.
use vstd::prelude::*;

use crate::game::PlayerId;
use crate::world::{GameWorld, Player};

verus! {

/// The position of each player, by id, and nothing more: what rendering needs.
#[derive(Clone, Debug, PartialEq)]
pub struct GameDisplayState<P> {
    pub player_positions: Vec<(PlayerId, P)>,
}

/// Some entry of `s` is for `id`.
pub open spec fn shows<P>(s: Seq<(PlayerId, P)>, id: PlayerId) -> bool {
    exists|j: int| 0 <= j < s.len() && s[j].0 == id
}

/// `j` is the first entry of `s` for `id`.
pub open spec fn first_for<P>(s: Seq<(PlayerId, P)>, id: PlayerId, j: int) -> bool {
    &&& 0 <= j < s.len()
    &&& s[j].0 == id
    &&& forall|k: int| 0 <= k < j ==> s[k].0 != id
}

/// The display entries of players: each id with its body state, in order.
pub open spec fn positions_of<B>(ps: Seq<Player<B>>) -> Seq<(PlayerId, B)> {
    ps.map_values(|p: Player<B>| (p.id, p.body))
}

/// The first entry of `s` for `id`, if any.
fn find_shown<P: Copy>(s: &Vec<(PlayerId, P)>, id: PlayerId) -> (r: Option<usize>)
    ensures
        match r {
            Some(j) => first_for(s@, id, j as int),
            None => !shows(s@, id),
        },
{
    let mut j: usize = 0;
    while j < s.len()
        invariant
            0 <= j <= s@.len(),
            forall|k: int| 0 <= k < j ==> s@[k].0 != id,
        decreases s@.len() - j,
    {
        if s[j].0 == id {
            return Some(j);
        }
        j = j + 1;
    }
    None
}

impl<B: Copy> GameWorld<B> {
    /// Where each player is, by id, in order: the body state of each player.
    pub fn display_state(&self) -> (r: GameDisplayState<B>)
        ensures
            r.player_positions@ == positions_of(self.players_spec()),
    {
        let snap = self.snapshot();
        let mut out: Vec<(PlayerId, B)> = Vec::new();
        let mut i: usize = 0;
        while i < snap.players.len()
            invariant
                0 <= i <= snap.players@.len(),
                snap.players@.len() == self.players_spec().len(),
                forall|k: int|
                    0 <= k < snap.players@.len() ==> #[trigger] snap.players@[k] == (
                        self.players_spec()[k].id,
                        crate::world::PlayerSnapshot {
                            body: self.players_spec()[k].body,
                            input: self.players_spec()[k].input,
                        },
                    ),
                out@.len() == i,
                forall|k: int|
                    0 <= k < i ==> #[trigger] out@[k] == (
                        self.players_spec()[k].id,
                        self.players_spec()[k].body,
                    ),
            decreases snap.players@.len() - i,
        {
            let e = snap.players[i];
            out.push((e.0, e.1.body));
            i = i + 1;
        }
        proof {
            assert(out@ =~= positions_of(self.players_spec()));
        }
        GameDisplayState { player_positions: out }
    }
}

impl<P: Copy> GameDisplayState<P> {
    /// The state between `state1` and `state2`: every player of `state1`, in
    /// its order; one that `state2` shows too is drawn at `blend` of its two
    /// positions (taking the first entry of `state2` for it), one that
    /// `state2` does not show stays where `state1` has it. A player shown only
    /// in `state2` is left out.
    pub fn from_interpolation<F: Fn(P, P) -> P>(
        state1: &GameDisplayState<P>,
        state2: &GameDisplayState<P>,
        blend: F,
    ) -> (r: GameDisplayState<P>)
        requires
            forall|a: P, b: P| #[trigger] blend.requires((a, b)),
        ensures
            r.player_positions@.len() == state1.player_positions@.len(),
            forall|i: int|
                0 <= i < r.player_positions@.len() ==> #[trigger] r.player_positions@[i].0
                    == state1.player_positions@[i].0,
            forall|i: int, j: int|
                0 <= i < r.player_positions@.len() && #[trigger] first_for(
                    state2.player_positions@,
                    state1.player_positions@[i].0,
                    j,
                ) ==> blend.ensures(
                    (state1.player_positions@[i].1, state2.player_positions@[j].1),
                    r.player_positions@[i].1,
                ),
            forall|i: int|
                0 <= i < r.player_positions@.len() && !shows(
                    state2.player_positions@,
                    state1.player_positions@[i].0,
                ) ==> #[trigger] r.player_positions@[i].1 == state1.player_positions@[i].1,
    {
        let s1 = &state1.player_positions;
        let s2 = &state2.player_positions;
        let mut out: Vec<(PlayerId, P)> = Vec::new();
        let mut i: usize = 0;
        while i < s1.len()
            invariant
                0 <= i <= s1@.len(),
                out@.len() == i,
                forall|a: P, b: P| #[trigger] blend.requires((a, b)),
                forall|k: int| 0 <= k < i ==> #[trigger] out@[k].0 == s1@[k].0,
                forall|k: int, j: int|
                    0 <= k < i && #[trigger] first_for(s2@, s1@[k].0, j) ==> blend.ensures(
                        (s1@[k].1, s2@[j].1),
                        out@[k].1,
                    ),
                forall|k: int|
                    0 <= k < i && !shows(s2@, s1@[k].0) ==> #[trigger] out@[k].1 == s1@[k].1,
            decreases s1@.len() - i,
        {
            let e = s1[i];
            let ghost before = out@;
            match find_shown(s2, e.0) {
                Some(j) => {
                    let p = blend(e.1, s2[j].1);
                    out.push((e.0, p));
                    proof {
                        assert forall|j2: int| first_for(s2@, e.0, j2) implies j2 == j by {
                            if j2 < j {
                                assert(s2@[j2].0 != e.0);
                            } else if j2 > j {
                                assert(s2@[j as int].0 != e.0);
                            }
                        }
                        assert(out@[i as int] == (e.0, p));
                    }
                },
                None => {
                    out.push(e);
                },
            }
            proof {
                assert forall|k: int| 0 <= k < i implies out@[k] == before[k] by {}
            }
            i = i + 1;
        }
        GameDisplayState { player_positions: out }
    }
}

} // verus!
