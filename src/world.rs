//! The world's player registry: spawning and removing players, applying
//! commands, consuming input on each tick, and capturing and restoring
//! snapshots.
//!
//! The rigid-body integrator is outside the library. The world keeps, for each
//! player, the body state that the integrator last reported (type `B`, which
//! the world never looks into), and hands the integrator, tick by tick, the
//! push and the jump that each player's input asks for.
use vstd::prelude::*;

use crate::game::{GameCommand, PlayerId, PlayerInput};

verus! {

/// A registered player: the state of its body and its pending input.
#[derive(Clone, Copy, Debug, PartialEq)]
pub struct Player<B> {
    pub id: PlayerId,
    pub body: B,
    pub input: PlayerInput,
}

/// What a snapshot records of one player.
#[derive(Clone, Copy, Debug, PartialEq)]
pub struct PlayerSnapshot<B> {
    pub body: B,
    pub input: PlayerInput,
}

/// A complete description of the world's players, in order.
#[derive(Clone, Debug, PartialEq)]
pub struct GameSnapshot<B> {
    pub players: Vec<(PlayerId, PlayerSnapshot<B>)>,
}

/// What the integrator is to do to one player's body on this tick.
#[derive(Clone, Copy, Debug, PartialEq, Eq, Structural)]
pub struct PlayerAction {
    pub id: PlayerId,
    /// Signed horizontal direction of the continuous force: -1, 0 or 1.
    pub push: i8,
    /// Whether to give the body one upward impulse.
    pub jump: bool,
}

/// Why a command could not be applied.
#[derive(Clone, Copy, Debug, PartialEq, Eq, Structural)]
pub enum CommandError {
    /// An input command named a player that does not exist.
    UnknownPlayer(PlayerId),
    /// A spawn found the largest player id already in use.
    PlayerIdsExhausted,
}

/// How applying a snapshot changed the set of players.
#[derive(Clone, Debug, PartialEq, Eq)]
pub struct SnapshotChanges {
    /// Players of the snapshot that the world did not have, each once.
    pub created: Vec<PlayerId>,
    /// Players of the world that the snapshot does not hold.
    pub removed: Vec<PlayerId>,
}

/// The world: the state of each player's body at spawn, and the registered
/// players, no two with one id.
pub struct GameWorld<B> {
    spawn_body: B,
    players: Vec<Player<B>>,
}

/// No two players share an id.
pub open spec fn unique_ids<B>(ps: Seq<Player<B>>) -> bool {
    forall|i: int, j: int|
        0 <= i < ps.len() && 0 <= j < ps.len() && i != j ==> ps[i].id != ps[j].id
}

/// Some player has id `id`.
pub open spec fn holds_id<B>(ps: Seq<Player<B>>, id: PlayerId) -> bool {
    exists|i: int| 0 <= i < ps.len() && ps[i].id == id
}

/// The largest id of the players, or -1 where there are none.
pub open spec fn max_id<B>(ps: Seq<Player<B>>) -> int
    decreases ps.len(),
{
    if ps.len() == 0 {
        -1
    } else {
        let m = max_id(ps.drop_last());
        let x = ps.last().id.0 as int;
        if x > m {
            x
        } else {
            m
        }
    }
}

/// The player that a spawn adds: the next id, the spawn body, no input.
pub open spec fn spawned<B>(id: PlayerId, body: B) -> Player<B> {
    Player { id, body, input: PlayerInput::idle() }
}

/// What a snapshot records of the players, in their order.
pub open spec fn capture<B>(ps: Seq<Player<B>>) -> Seq<(PlayerId, PlayerSnapshot<B>)> {
    ps.map_values(|p: Player<B>| (p.id, PlayerSnapshot { body: p.body, input: p.input }))
}

/// The players that snapshot entries describe, in their order.
pub open spec fn restore<B>(es: Seq<(PlayerId, PlayerSnapshot<B>)>) -> Seq<Player<B>> {
    es.map_values(
        |e: (PlayerId, PlayerSnapshot<B>)| Player { id: e.0, body: e.1.body, input: e.1.input },
    )
}

/// No two snapshot entries share an id.
pub open spec fn unique_entries<B>(es: Seq<(PlayerId, PlayerSnapshot<B>)>) -> bool {
    forall|i: int, j: int|
        0 <= i < es.len() && 0 <= j < es.len() && i != j ==> es[i].0 != es[j].0
}

/// Some snapshot entry is for `id`.
pub open spec fn has_entry<B>(es: Seq<(PlayerId, PlayerSnapshot<B>)>, id: PlayerId) -> bool {
    exists|j: int| 0 <= j < es.len() && es[j].0 == id
}

/// The last snapshot entry for `id`: the one that decides the player's state.
pub open spec fn last_entry<B>(es: Seq<(PlayerId, PlayerSnapshot<B>)>, id: PlayerId) -> PlayerSnapshot<B>
    decreases es.len(),
{
    if es.len() == 0 {
        arbitrary()
    } else if es.last().0 == id {
        es.last().1
    } else {
        last_entry(es.drop_last(), id)
    }
}

/// The largest id is at least every id, is one of them, and fits a `u8`.
proof fn lemma_max_id<B>(ps: Seq<Player<B>>)
    ensures
        -1 <= max_id(ps) <= 255,
        forall|i: int| 0 <= i < ps.len() ==> ps[i].id.0 as int <= max_id(ps),
        ps.len() > 0 ==> exists|i: int| 0 <= i < ps.len() && ps[i].id.0 as int == max_id(ps),
        ps.len() == 0 ==> max_id(ps) == -1,
    decreases ps.len(),
{
    if ps.len() > 0 {
        let q = ps.drop_last();
        lemma_max_id(q);
        assert forall|i: int| 0 <= i < ps.len() implies ps[i].id.0 as int <= max_id(ps) by {
            if i < q.len() {
                assert(q[i] == ps[i]);
            }
        }
        if q.len() > 0 && max_id(q) >= ps.last().id.0 as int {
            let k = choose|k: int| 0 <= k < q.len() && q[k].id.0 as int == max_id(q);
            assert(ps[k] == q[k]);
        } else {
            assert(ps[ps.len() - 1] == ps.last());
        }
    }
}

/// A fresh world's first spawn gets id 0, and each spawn after it gets an id
/// larger than every id before it: with no removal in between, spawned ids
/// increase strictly from 0.
pub proof fn lemma_spawn_ids_increase<B>(ps: Seq<Player<B>>, body: B)
    requires
        max_id(ps) < 255,
    ensures
        max_id(Seq::<Player<B>>::empty()) + 1 == 0,
        forall|i: int| 0 <= i < ps.len() ==> ps[i].id.0 < max_id(ps) + 1,
        max_id(ps.push(spawned(PlayerId((max_id(ps) + 1) as u8), body))) == max_id(ps) + 1,
{
    lemma_max_id(ps);
    lemma_max_id(Seq::<Player<B>>::empty());
    let q = ps.push(spawned(PlayerId((max_id(ps) + 1) as u8), body));
    assert(q.drop_last() == ps);
}

/// The players after `n` spawns into a fresh world: ids 0 to n - 1, in order,
/// each with the spawn body and no input.
pub open spec fn spawn_run<B>(n: nat, body: B) -> Seq<Player<B>> {
    Seq::new(n, |i: int| spawned(PlayerId(i as u8), body))
}

/// Every run of spawns into a fresh world hands out ids 0, 1, 2, ... in
/// turn: after `n` spawns the largest id is n - 1, so the next spawn gets
/// id `n`, and the run grows by exactly that player.
pub proof fn lemma_spawn_run<B>(n: nat, body: B)
    requires
        n <= 256,
    ensures
        max_id(spawn_run(n, body)) == n - 1,
        unique_ids(spawn_run(n, body)),
        n < 256 ==> spawn_run(n, body).push(spawned(PlayerId(n as u8), body)) == spawn_run(
            n + 1,
            body,
        ),
    decreases n,
{
    if n > 0 {
        lemma_spawn_run((n - 1) as nat, body);
        assert(spawn_run(n, body).drop_last() =~= spawn_run((n - 1) as nat, body));
    }
    if n < 256 {
        assert(spawn_run(n, body).push(spawned(PlayerId(n as u8), body)) =~= spawn_run(
            n + 1,
            body,
        ));
    }
}

/// Applying a snapshot in which no player repeats, and then taking a
/// snapshot, gives the same entries back: `apply_snapshot` leaves the players
/// `restore(es)`, and `snapshot` returns `capture` of the players.
pub proof fn lemma_snapshot_round_trip<B>(es: Seq<(PlayerId, PlayerSnapshot<B>)>, ps: Seq<Player<B>>)
    requires
        unique_entries(es),
        ps == restore(es),
    ensures
        capture(ps) == es,
{
    assert(capture(ps) =~= es);
}

/// The index of the player with id `id`, if there is one.
fn find_player<B: Copy>(ps: &Vec<Player<B>>, id: PlayerId) -> (r: Option<usize>)
    ensures
        match r {
            Some(i) => i < ps@.len() && ps@[i as int].id == id,
            None => !holds_id(ps@, id),
        },
{
    let mut i: usize = 0;
    while i < ps.len()
        invariant
            0 <= i <= ps@.len(),
            forall|k: int| 0 <= k < i ==> ps@[k].id != id,
        decreases ps@.len() - i,
    {
        if ps[i].id == id {
            return Some(i);
        }
        i = i + 1;
    }
    None
}

impl<B: Copy> GameWorld<B> {
    /// The registered players, in order.
    pub closed spec fn players_spec(&self) -> Seq<Player<B>> {
        self.players@
    }

    /// The body state that a spawned player starts with.
    pub closed spec fn spawn_spec(&self) -> B {
        self.spawn_body
    }

    /// The world's invariant: no two players share an id.
    pub open spec fn wf(&self) -> bool {
        unique_ids(self.players_spec())
    }

    /// An empty world whose players spawn with body state `spawn_body`.
    pub fn new(spawn_body: B) -> (r: Self)
        ensures
            r.wf(),
            r.players_spec() == Seq::<Player<B>>::empty(),
            r.spawn_spec() == spawn_body,
    {
        GameWorld { spawn_body, players: Vec::new() }
    }

    /// The number of players.
    pub fn len(&self) -> (r: usize)
        ensures
            r == self.players_spec().len(),
    {
        self.players.len()
    }

    /// The player with id `id`, if there is one.
    pub fn player(&self, id: PlayerId) -> (r: Option<Player<B>>)
        ensures
            match r {
                Some(p) => p.id == id && self.players_spec().contains(p),
                None => !holds_id(self.players_spec(), id),
            },
    {
        match find_player(&self.players, id) {
            Some(i) => Some(self.players[i]),
            None => None,
        }
    }

    /// The id that the next spawn gets: one more than the largest id, or 0 in
    /// an empty world; `None` where the largest id is already 255.
    pub fn next_player_id(&self) -> (r: Option<PlayerId>)
        ensures
            max_id(self.players_spec()) < 255 ==> r == Some(
                PlayerId((max_id(self.players_spec()) + 1) as u8),
            ),
            max_id(self.players_spec()) >= 255 ==> r is None,
    {
        let mut m: i16 = -1;
        let mut i: usize = 0;
        while i < self.players.len()
            invariant
                0 <= i <= self.players@.len(),
                m as int == max_id(self.players@.take(i as int)),
                -1 <= m <= 255,
            decreases self.players@.len() - i,
        {
            proof {
                assert(self.players@.take(i + 1).drop_last() =~= self.players@.take(i as int));
            }
            let x = self.players[i].id.0 as i16;
            if x > m {
                m = x;
            }
            i = i + 1;
        }
        proof {
            assert(self.players@.take(i as int) =~= self.players@);
        }
        if m < 255 {
            Some(PlayerId((m + 1) as u8))
        } else {
            None
        }
    }

    /// Registers a player with id `id`, the spawn body and no input.
    fn create_player(&mut self, id: PlayerId)
        requires
            old(self).wf(),
            !holds_id(old(self).players_spec(), id),
        ensures
            final(self).wf(),
            final(self).spawn_spec() == old(self).spawn_spec(),
            final(self).players_spec() == old(self).players_spec().push(
                spawned(id, old(self).spawn_spec()),
            ),
    {
        let input = PlayerInput { jump: false, left: false, right: false };
        self.players.push(Player { id, body: self.spawn_body, input });
    }

    /// Unregisters the player with id `id`; returns whether there was one.
    /// Removing an absent player changes nothing.
    pub fn remove_player(&mut self, id: PlayerId) -> (r: bool)
        requires
            old(self).wf(),
        ensures
            final(self).wf(),
            final(self).spawn_spec() == old(self).spawn_spec(),
            r == holds_id(old(self).players_spec(), id),
            !holds_id(final(self).players_spec(), id),
            r ==> exists|i: int|
                0 <= i < old(self).players_spec().len() && old(self).players_spec()[i].id == id
                    && final(self).players_spec() == old(self).players_spec().remove(i),
            !r ==> final(self).players_spec() == old(self).players_spec(),
    {
        match find_player(&self.players, id) {
            Some(i) => {
                let ghost before = self.players@;
                self.players.remove(i);
                proof {
                    let after = self.players@;
                    assert forall|k: int| 0 <= k < after.len() implies after[k].id != id by {
                        if k < i {
                            assert(after[k] == before[k]);
                        } else {
                            assert(after[k] == before[k + 1]);
                        }
                    }
                    assert forall|j: int, k: int|
                        0 <= j < after.len() && 0 <= k < after.len() && j != k implies after[j].id
                        != after[k].id by {
                        let bj = if j < i { j } else { j + 1 };
                        let bk = if k < i { k } else { k + 1 };
                        assert(after[j] == before[bj]);
                        assert(after[k] == before[bk]);
                    }
                }
                true
            },
            None => false,
        }
    }

    /// Applies a command that has already been validated.
    ///
    /// A spawn registers a player under the next id with the spawn body and
    /// no input, and returns that id; where the largest id is taken it fails
    /// and changes nothing. An input command sets exactly the named field of
    /// the named player; where there is no such player it fails and changes
    /// nothing.
    pub fn apply_command(&mut self, command: &GameCommand) -> (r: Result<
        Option<PlayerId>,
        CommandError,
    >)
        requires
            old(self).wf(),
        ensures
            final(self).wf(),
            final(self).spawn_spec() == old(self).spawn_spec(),
            match *command {
                GameCommand::SpawnPlayer { .. } => {
                    let next = max_id(old(self).players_spec()) + 1;
                    if next <= 255 {
                        &&& r == Ok::<Option<PlayerId>, CommandError>(Some(PlayerId(next as u8)))
                        &&& final(self).players_spec() == old(self).players_spec().push(
                            spawned(PlayerId(next as u8), old(self).spawn_spec()),
                        )
                    } else {
                        &&& r == Err::<Option<PlayerId>, CommandError>(
                            CommandError::PlayerIdsExhausted,
                        )
                        &&& final(self).players_spec() == old(self).players_spec()
                    }
                },
                GameCommand::Input(id, axis, value) => {
                    if holds_id(old(self).players_spec(), id) {
                        &&& r == Ok::<Option<PlayerId>, CommandError>(None)
                        &&& final(self).players_spec().len() == old(self).players_spec().len()
                        &&& forall|i: int|
                            0 <= i < old(self).players_spec().len() ==> #[trigger] final(self).players_spec()[i] == if old(self).players_spec()[i].id == id {
                                Player {
                                    input: old(self).players_spec()[i].input.with(axis, value),
                                    ..old(self).players_spec()[i]
                                }
                            } else {
                                old(self).players_spec()[i]
                            }
                    } else {
                        &&& r == Err::<Option<PlayerId>, CommandError>(
                            CommandError::UnknownPlayer(id),
                        )
                        &&& final(self).players_spec() == old(self).players_spec()
                    }
                },
            },
    {
        match command {
            GameCommand::SpawnPlayer { .. } => {
                proof {
                    lemma_max_id(self.players@);
                }
                match self.next_player_id() {
                    Some(id) => {
                        self.create_player(id);
                        Ok(Some(id))
                    },
                    None => Err(CommandError::PlayerIdsExhausted),
                }
            },
            GameCommand::Input(id, axis, value) => {
                match find_player(&self.players, *id) {
                    Some(i) => {
                        let mut p = self.players[i];
                        p.input.set(*axis, *value);
                        self.players.set(i, p);
                        Ok(None)
                    },
                    None => Err(CommandError::UnknownPlayer(*id)),
                }
            },
        }
    }

    /// Consumes the input of one tick. Returns, for each player in order, the
    /// push and the jump that its input asks of the integrator, and clears
    /// every jump: holding the key does not jump again. `left` and `right`
    /// stay as they are.
    pub fn step_inputs(&mut self) -> (r: Vec<PlayerAction>)
        requires
            old(self).wf(),
        ensures
            final(self).wf(),
            final(self).spawn_spec() == old(self).spawn_spec(),
            r@.len() == old(self).players_spec().len(),
            final(self).players_spec().len() == old(self).players_spec().len(),
            forall|i: int|
                0 <= i < r@.len() ==> #[trigger] r@[i] == (PlayerAction {
                    id: old(self).players_spec()[i].id,
                    push: old(self).players_spec()[i].input.push_spec() as i8,
                    jump: old(self).players_spec()[i].input.jump,
                }),
            forall|i: int|
                0 <= i < r@.len() ==> #[trigger] final(self).players_spec()[i] == (Player {
                    input: PlayerInput { jump: false, ..old(self).players_spec()[i].input },
                    ..old(self).players_spec()[i]
                }),
    {
        let ghost before = self.players@;
        let mut actions: Vec<PlayerAction> = Vec::new();
        let mut i: usize = 0;
        while i < self.players.len()
            invariant
                0 <= i <= self.players@.len(),
                self.players@.len() == before.len(),
                self.spawn_body == old(self).spawn_body,
                actions@.len() == i,
                forall|k: int|
                    0 <= k < i ==> #[trigger] actions@[k] == (PlayerAction {
                        id: before[k].id,
                        push: before[k].input.push_spec() as i8,
                        jump: before[k].input.jump,
                    }),
                forall|k: int|
                    0 <= k < i ==> #[trigger] self.players@[k] == (Player {
                        input: PlayerInput { jump: false, ..before[k].input },
                        ..before[k]
                    }),
                forall|k: int| i <= k < before.len() ==> #[trigger] self.players@[k] == before[k],
            decreases before.len() - i,
        {
            let mut p = self.players[i];
            let push = p.input.push();
            actions.push(PlayerAction { id: p.id, push, jump: p.input.jump });
            p.input.jump = false;
            self.players.set(i, p);
            i = i + 1;
        }
        proof {
            assert forall|j: int, k: int|
                0 <= j < before.len() && 0 <= k < before.len() && j != k implies self.players@[j].id
                != self.players@[k].id by {
                assert(self.players@[j].id == before[j].id);
                assert(self.players@[k].id == before[k].id);
            }
        }
        actions
    }

    /// Records the body state that the integrator reports for player `id`;
    /// returns whether there is such a player. Nothing else changes.
    pub fn set_body(&mut self, id: PlayerId, body: B) -> (r: bool)
        requires
            old(self).wf(),
        ensures
            final(self).wf(),
            final(self).spawn_spec() == old(self).spawn_spec(),
            r == holds_id(old(self).players_spec(), id),
            final(self).players_spec().len() == old(self).players_spec().len(),
            forall|i: int|
                0 <= i < old(self).players_spec().len() ==> #[trigger] final(self).players_spec()[i] == if old(self).players_spec()[i].id == id {
                    Player { body, ..old(self).players_spec()[i] }
                } else {
                    old(self).players_spec()[i]
                },
    {
        match find_player(&self.players, id) {
            Some(i) => {
                let mut p = self.players[i];
                p.body = body;
                self.players.set(i, p);
                true
            },
            None => false,
        }
    }

    /// A snapshot of every player: its id, body state and input, in order.
    pub fn snapshot(&self) -> (r: GameSnapshot<B>)
        ensures
            r.players@ == capture(self.players_spec()),
    {
        let mut out: Vec<(PlayerId, PlayerSnapshot<B>)> = Vec::new();
        let mut i: usize = 0;
        while i < self.players.len()
            invariant
                0 <= i <= self.players@.len(),
                out@ == capture(self.players@.take(i as int)),
            decreases self.players@.len() - i,
        {
            let p = self.players[i];
            out.push((p.id, PlayerSnapshot { body: p.body, input: p.input }));
            proof {
                assert(capture(self.players@.take(i + 1)) =~= capture(self.players@.take(i as int)).push(
                    (p.id, PlayerSnapshot { body: p.body, input: p.input }),
                ));
            }
            i = i + 1;
        }
        proof {
            assert(self.players@.take(i as int) =~= self.players@);
        }
        GameSnapshot { players: out }
    }

    /// Makes the players exactly those of `snapshot`: players that it does
    /// not hold are removed, those it holds that are missing are created, and
    /// every player takes the body state and input of its last entry, so no
    /// state from before the call survives. Returns which players were
    /// created and which removed, so that the integrator's bodies can follow.
    pub fn apply_snapshot(&mut self, snapshot: &GameSnapshot<B>) -> (r: SnapshotChanges)
        requires
            old(self).wf(),
        ensures
            final(self).wf(),
            final(self).spawn_spec() == old(self).spawn_spec(),
            forall|id: PlayerId|
                #![trigger holds_id(final(self).players_spec(), id)]
                holds_id(final(self).players_spec(), id) <==> has_entry(snapshot.players@, id),
            forall|i: int|
                0 <= i < final(self).players_spec().len() ==> (PlayerSnapshot {
                    body: #[trigger] final(self).players_spec()[i].body,
                    input: final(self).players_spec()[i].input,
                }) == last_entry(snapshot.players@, final(self).players_spec()[i].id),
            unique_entries(snapshot.players@) ==> final(self).players_spec() == restore(
                snapshot.players@,
            ),
            r.created@.no_duplicates(),
            forall|id: PlayerId|
                #[trigger] r.created@.contains(id) <==> has_entry(snapshot.players@, id)
                    && !holds_id(old(self).players_spec(), id),
            r.removed@.no_duplicates(),
            forall|id: PlayerId|
                #[trigger] r.removed@.contains(id) <==> holds_id(old(self).players_spec(), id)
                    && !has_entry(snapshot.players@, id),
    {
        let es = &snapshot.players;
        let ghost old_ps = self.players@;
        let mut res: Vec<Player<B>> = Vec::new();
        let mut created: Vec<PlayerId> = Vec::new();
        let mut i: usize = 0;
        while i < es.len()
            invariant
                0 <= i <= es@.len(),
                self.players@ == old_ps,
                unique_ids(res@),
                forall|id: PlayerId|
                    #![trigger holds_id(res@, id)]
                    holds_id(res@, id) <==> has_entry(es@.take(i as int), id),
                forall|k: int|
                    0 <= k < res@.len() ==> (PlayerSnapshot {
                        body: #[trigger] res@[k].body,
                        input: res@[k].input,
                    }) == last_entry(es@.take(i as int), res@[k].id),
                unique_entries(es@.take(i as int)) ==> res@ == restore(es@.take(i as int)),
                created@.no_duplicates(),
                forall|id: PlayerId|
                    #[trigger] created@.contains(id) <==> has_entry(es@.take(i as int), id)
                        && !holds_id(old_ps, id),
            decreases es@.len() - i,
        {
            let e = es[i];
            let ghost before = es@.take(i as int);
            let ghost after = es@.take(i + 1);
            proof {
                assert(after.drop_last() =~= before);
                assert(after.last() == e);
                assert forall|id: PlayerId| has_entry(after, id) <==> has_entry(before, id) || id
                    == e.0 by {
                    if has_entry(after, id) && id != e.0 {
                        let j = choose|j: int| 0 <= j < after.len() && after[j].0 == id;
                        assert(before[j] == after[j]);
                    }
                    if has_entry(before, id) {
                        let j = choose|j: int| 0 <= j < before.len() && before[j].0 == id;
                        assert(before[j] == after[j]);
                    }
                    if id == e.0 {
                        assert(after[i as int] == e);
                    }
                }
                if unique_entries(after) {
                    assert forall|x: int, y: int|
                        0 <= x < before.len() && 0 <= y < before.len() && x != y implies before[x].0
                        != before[y].0 by {
                        assert(before[x] == after[x]);
                        assert(before[y] == after[y]);
                    }
                    if has_entry(before, e.0) {
                        let j = choose|j: int| 0 <= j < before.len() && before[j].0 == e.0;
                        assert(before[j] == after[j]);
                        assert(after[i as int] == e);
                    }
                }
            }
            let player = Player { id: e.0, body: e.1.body, input: e.1.input };
            let ghost res_before = res@;
            let ghost created_before = created@;
            match find_player(&res, e.0) {
                Some(k) => {
                    res.set(k, player);
                    proof {
                        assert(res_before[k as int].id == e.0);
                        assert(holds_id(res_before, e.0));
                        assert(has_entry(before, e.0));
                        assert forall|id: PlayerId| holds_id(res@, id) <==> holds_id(res_before, id) by {
                            if holds_id(res@, id) {
                                let j = choose|j: int| 0 <= j < res@.len() && res@[j].id == id;
                                assert(res_before[j].id == id);
                            }
                            if holds_id(res_before, id) {
                                let j = choose|j: int| 0 <= j < res_before.len() && res_before[j].id == id;
                                assert(res@[j].id == id);
                            }
                        }
                        assert forall|x: int, y: int|
                            0 <= x < res@.len() && 0 <= y < res@.len() && x != y implies res@[x].id
                            != res@[y].id by {
                            assert(res@[x].id == res_before[x].id);
                            assert(res@[y].id == res_before[y].id);
                        }
                    }
                },
                None => {
                    proof {
                        assert(!has_entry(before, e.0));
                        assert(!created@.contains(e.0));
                    }
                    if find_player(&self.players, e.0).is_none() {
                        created.push(e.0);
                        proof {
                            assert forall|x: PlayerId| created@.contains(x) <==> created_before.contains(x)
                                || x == e.0 by {
                                vstd::seq_lib::lemma_seq_contains_after_push(created_before, e.0, x);
                            }
                        }
                    }
                    res.push(player);
                    proof {
                        assert forall|id: PlayerId| holds_id(res@, id) <==> holds_id(res_before, id)
                            || id == e.0 by {
                            if holds_id(res@, id) && id != e.0 {
                                let j = choose|j: int| 0 <= j < res@.len() && res@[j].id == id;
                                assert(res_before[j].id == id);
                            }
                            if holds_id(res_before, id) {
                                let j = choose|j: int| 0 <= j < res_before.len() && res_before[j].id == id;
                                assert(res@[j].id == id);
                            }
                            assert(res@[res_before.len() as int].id == e.0);
                        }
                        assert forall|x: int, y: int|
                            0 <= x < res@.len() && 0 <= y < res@.len() && x != y implies res@[x].id
                            != res@[y].id by {
                            if x < res_before.len() {
                                assert(res@[x] == res_before[x]);
                                assert(holds_id(res_before, res_before[x].id));
                            }
                            if y < res_before.len() {
                                assert(res@[y] == res_before[y]);
                                assert(holds_id(res_before, res_before[y].id));
                            }
                        }
                        if unique_entries(after) {
                            assert(restore(after) =~= restore(before).push(player));
                        }
                    }
                },
            }
            proof {
                assert forall|id: PlayerId| holds_id(res@, id) <==> has_entry(after, id) by {
                    assert(holds_id(res_before, id) <==> has_entry(before, id));
                    assert(holds_id(res_before, e.0) <==> has_entry(before, e.0));
                }
                assert forall|id: PlayerId|
                    created@.contains(id) <==> has_entry(after, id) && !holds_id(old_ps, id) by {
                    assert(created_before.contains(id) <==> has_entry(before, id) && !holds_id(
                        old_ps,
                        id,
                    ));
                    assert(holds_id(res_before, e.0) <==> has_entry(before, e.0));
                }
            }
            i = i + 1;
        }
        proof {
            assert(es@.take(i as int) =~= es@);
        }
        let mut removed: Vec<PlayerId> = Vec::new();
        let mut j: usize = 0;
        while j < self.players.len()
            invariant
                0 <= j <= old_ps.len(),
                self.players@ == old_ps,
                unique_ids(old_ps),
                removed@.no_duplicates(),
                forall|id: PlayerId|
                    #[trigger] removed@.contains(id) <==> (exists|k: int|
                        0 <= k < j && old_ps[k].id == id) && !has_entry(es@, id),
            decreases old_ps.len() - j,
        {
            let id = self.players[j].id;
            let mut found = false;
            let mut k: usize = 0;
            while k < es.len()
                invariant
                    0 <= k <= es@.len(),
                    found == exists|x: int| 0 <= x < k && es@[x].0 == id,
                decreases es@.len() - k,
            {
                if es[k].0 == id {
                    found = true;
                }
                k = k + 1;
            }
            proof {
                assert(old_ps[j as int].id == id);
                assert(found == has_entry(es@, id));
                assert forall|x: PlayerId| removed@.contains(x) implies x != id by {
                    let w = choose|w: int| 0 <= w < j && old_ps[w].id == x;
                    assert(old_ps[w].id != old_ps[j as int].id);
                }
            }
            let ghost removed_before = removed@;
            if !found {
                removed.push(id);
                proof {
                    assert forall|x: PlayerId| removed@.contains(x) <==> removed_before.contains(x)
                        || x == id by {
                        vstd::seq_lib::lemma_seq_contains_after_push(removed_before, id, x);
                    }
                    assert forall|a: int, b: int|
                        0 <= a < removed@.len() && 0 <= b < removed@.len() && a != b implies removed@[a]
                        != removed@[b] by {
                        let n = removed_before.len() as int;
                        if a < n && b < n {
                            assert(removed@[a] == removed_before[a]);
                            assert(removed@[b] == removed_before[b]);
                        } else if a < n {
                            assert(removed_before.contains(removed@[a]));
                        } else if b < n {
                            assert(removed_before.contains(removed@[b]));
                        }
                    }
                }
            }
            proof {
                assert forall|x: PlayerId| #[trigger] removed@.contains(x) <==> (exists|w: int|
                        0 <= w < j + 1 && old_ps[w].id == x) && !has_entry(es@, x) by {
                    assert(removed_before.contains(x) <==> (exists|w: int|
                        0 <= w < j && old_ps[w].id == x) && !has_entry(es@, x));
                    if exists|w: int| 0 <= w < j + 1 && old_ps[w].id == x {
                        let w = choose|w: int| 0 <= w < j + 1 && old_ps[w].id == x;
                        if w < j {
                            assert(exists|v: int| 0 <= v < j && old_ps[v].id == x);
                        }
                    }
                }
            }
            j = j + 1;
        }
        proof {
            assert forall|x: PlayerId| (exists|w: int| 0 <= w < j && old_ps[w].id == x) <==> holds_id(
                old_ps,
                x,
            ) by {}
        }
        self.players = res;
        SnapshotChanges { created, removed }
    }
}

} // verus!
