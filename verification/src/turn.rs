//! Whose turn it is, and how play passes from one player to the next.
//!
//! Players are numbered `0..num_players` and sit in a ring: after the last
//! player comes player 0 again. A player is *eligible* while some active ship
//! is theirs; play always passes to the nearest eligible player further round
//! the ring, and the game ends when nobody but the current player is left.

use vstd::prelude::*;

verus! {

/// What the player whose turn it is may still do.
#[derive(Clone, Copy, Debug, PartialEq, Eq, Structural)]
pub enum TurnState {
    /// The player has not fired yet.
    Aiming,
    /// The player's missile is in flight.
    Firing,
}

/// One player's turn.
#[derive(Clone, Copy, Debug, PartialEq, Eq, Structural)]
pub struct Turn {
    pub current_player: usize,
    pub state: TurnState,
}

/// The state of the game as a whole.
#[derive(Clone, Copy, Debug, PartialEq, Eq, Structural)]
pub enum GamePhase {
    NotStarted,
    Playing(Turn),
    GameOver,
}

/// `player` is a seat of the ring and is listed among the remaining players.
pub open spec fn eligible(player: usize, num_players: usize, remaining: Seq<usize>) -> bool {
    player < num_players && remaining.contains(player)
}

/// Number of seats to move forward round a ring of `num_players` seats to get
/// from seat `from` to seat `to`.
pub open spec fn steps_between(from: usize, to: usize, num_players: usize) -> int {
    if to >= from {
        to - from
    } else {
        num_players - from + to
    }
}

/// The seat that follows `player` in a ring of `num_players` seats.
pub open spec fn seat_after(player: usize, num_players: usize) -> usize
    recommends
        num_players > 0,
{
    let seat = player % num_players;
    if seat + 1 == num_players {
        0
    } else {
        (seat + 1) as usize
    }
}

/// `player` is eligible, and no eligible player is fewer steps from `start`.
pub open spec fn is_nearest_eligible(
    player: usize,
    start: usize,
    num_players: usize,
    remaining: Seq<usize>,
) -> bool {
    &&& eligible(player, num_players, remaining)
    &&& forall|other: usize| #[trigger]
        eligible(other, num_players, remaining) ==> steps_between(start, player, num_players)
            <= steps_between(start, other, num_players)
}

/// The eligible player nearest to `start`, counting `start` itself as zero
/// steps away; `None` when nobody is eligible.
pub open spec fn nearest_eligible(start: usize, num_players: usize, remaining: Seq<usize>) -> Option<
    usize,
> {
    if exists|player: usize| eligible(player, num_players, remaining) {
        Some(choose|player: usize| is_nearest_eligible(player, start, num_players, remaining))
    } else {
        None
    }
}

/// At most one player is the nearest eligible one.
pub proof fn lemma_nearest_eligible_unique(
    a: usize,
    b: usize,
    start: usize,
    num_players: usize,
    remaining: Seq<usize>,
)
    requires
        start < num_players,
        is_nearest_eligible(a, start, num_players, remaining),
        is_nearest_eligible(b, start, num_players, remaining),
    ensures
        a == b,
{
    assert(eligible(a, num_players, remaining));
    assert(eligible(b, num_players, remaining));
    assert(steps_between(start, a, num_players) == steps_between(start, b, num_players));
}

/// Whoever is found to be the nearest eligible player is the one that
/// `nearest_eligible` names.
pub proof fn lemma_nearest_eligible_is(
    player: usize,
    start: usize,
    num_players: usize,
    remaining: Seq<usize>,
)
    requires
        start < num_players,
        is_nearest_eligible(player, start, num_players, remaining),
    ensures
        nearest_eligible(start, num_players, remaining) == Some(player),
{
    assert(eligible(player, num_players, remaining));
    let chosen = choose|p: usize| is_nearest_eligible(p, start, num_players, remaining);
    lemma_nearest_eligible_unique(chosen, player, start, num_players, remaining);
}

/// Executable form of `steps_between`.
fn count_steps(from: usize, to: usize, num_players: usize) -> (steps: usize)
    requires
        from < num_players,
        to < num_players,
    ensures
        steps == steps_between(from, to, num_players),
        steps < num_players,
{
    if to >= from {
        to - from
    } else {
        num_players - from + to
    }
}

impl GamePhase {
    /// The turn in progress, if the game is being played.
    pub fn turn(&self) -> (turn: Option<&Turn>)
        ensures
            match *self {
                GamePhase::Playing(current) => turn == Some(&current),
                _ => turn is None,
            },
    {
        match self {
            GamePhase::Playing(turn) => Some(turn),
            _ => None,
        }
    }
}

impl Turn {
    /// A fresh turn for `current_player`, who starts by aiming.
    pub fn new(current_player: usize) -> (turn: Turn)
        ensures
            turn == (Turn { current_player, state: TurnState::Aiming }),
    {
        Turn { current_player, state: TurnState::Aiming }
    }

    /// The phase that `skip_eliminated_players` returns.
    ///
    /// The turn stays with the current player if they are eligible, and else
    /// moves on to the nearest eligible player; its state is kept. With no
    /// seats, or nobody eligible, the game is over.
    pub open spec fn skipping_eliminated(self, num_players: usize, remaining: Seq<usize>) -> GamePhase {
        if num_players == 0 {
            GamePhase::GameOver
        } else {
            match nearest_eligible(
                (self.current_player % num_players) as usize,
                num_players,
                remaining,
            ) {
                Some(player) => GamePhase::Playing(
                    Turn { current_player: player, state: self.state },
                ),
                None => GamePhase::GameOver,
            }
        }
    }

    /// The phase that `next_player` returns.
    ///
    /// The nearest eligible player strictly after the current one gets a fresh
    /// turn. The game is over when there are no seats, when nobody is
    /// eligible, and when going round the ring leads back to the current
    /// player.
    pub open spec fn passing_on(self, num_players: usize, remaining: Seq<usize>) -> GamePhase {
        if num_players == 0 {
            GamePhase::GameOver
        } else {
            match nearest_eligible(
                seat_after(self.current_player, num_players),
                num_players,
                remaining,
            ) {
                Some(player) => if player == self.current_player {
                    GamePhase::GameOver
                } else {
                    GamePhase::Playing(Turn { current_player: player, state: TurnState::Aiming })
                },
                None => GamePhase::GameOver,
            }
        }
    }

    /// Ends this turn and hands play to the next player who is still in the
    /// game. `remaining_players` lists the players that are; entries that are
    /// no seat of the ring are ignored, and repetitions do not matter.
    pub fn next_player(&self, num_players: usize, remaining_players: &[usize]) -> (phase: GamePhase)
        ensures
            phase == self.passing_on(num_players, remaining_players@),
            phase is GameOver <==> forall|player: usize| #[trigger]
                eligible(player, num_players, remaining_players@) ==> player
                    == self.current_player,
            phase matches GamePhase::Playing(turn) ==> {
                &&& turn.state == TurnState::Aiming
                &&& turn.current_player != self.current_player
                &&& is_nearest_eligible(
                    turn.current_player,
                    seat_after(self.current_player, num_players),
                    num_players,
                    remaining_players@,
                )
            },
            !(phase is NotStarted),
    {
        if num_players == 0 {
            return GamePhase::GameOver;
        }
        let seat: usize = self.current_player % num_players;
        let start: usize = if seat + 1 == num_players {
            0
        } else {
            seat + 1
        };
        proof {
            vstd::arithmetic::div_mod::lemma_small_mod(start as nat, num_players as nat);
        }
        let next_turn = Turn::new(start);
        let next_phase = next_turn.skip_eliminated_players(num_players, remaining_players);
        match next_phase {
            GamePhase::Playing(Turn { current_player, .. }) => {
                if current_player == self.current_player {
                    proof {
                        // Going forward from the seat after ours, our own seat
                        // is the farthest: nobody else can be eligible.
                        assert(eligible(current_player, num_players, remaining_players@));
                        vstd::arithmetic::div_mod::lemma_small_mod(
                            self.current_player as nat,
                            num_players as nat,
                        );
                        assert forall|player: usize| #[trigger]
                            eligible(player, num_players, remaining_players@) implies player
                            == self.current_player by {
                            assert(steps_between(start, current_player, num_players)
                                <= steps_between(start, player, num_players));
                        }
                    }
                    GamePhase::GameOver
                } else {
                    proof {
                        assert(eligible(current_player, num_players, remaining_players@));
                    }
                    next_phase
                }
            },
            _ => next_phase,
        }
    }

    /// Leaves the turn with the current player if they are still in the game,
    /// and else moves it forward to the nearest player who is. The turn's
    /// state is kept. `remaining_players` is read as in `next_player`. A
    /// current player whose number is no seat of the ring counts as sitting
    /// at `current_player % num_players`.
    pub fn skip_eliminated_players(&self, num_players: usize, remaining_players: &[usize]) -> (phase:
        GamePhase)
        ensures
            phase == self.skipping_eliminated(num_players, remaining_players@),
            phase is GameOver <==> forall|player: usize|
                !eligible(player, num_players, remaining_players@),
            phase matches GamePhase::Playing(turn) ==> {
                &&& turn.state == self.state
                &&& is_nearest_eligible(
                    turn.current_player,
                    (self.current_player % num_players) as usize,
                    num_players,
                    remaining_players@,
                )
            },
            !(phase is NotStarted),
    {
        if num_players == 0 {
            return GamePhase::GameOver;
        }
        let start: usize = self.current_player % num_players;
        let mut nearest: Option<usize> = None;
        let mut i: usize = 0;
        while i < remaining_players.len()
            invariant
                i <= remaining_players.len(),
                start < num_players,
                nearest is None ==> forall|k: int|
                    0 <= k < i ==> #[trigger] remaining_players@[k] >= num_players,
                nearest matches Some(found) ==> {
                    &&& eligible(found, num_players, remaining_players@)
                    &&& forall|k: int|
                        0 <= k < i && #[trigger] remaining_players@[k] < num_players
                            ==> steps_between(start, found, num_players) <= steps_between(
                            start,
                            remaining_players@[k],
                            num_players,
                        )
                },
            decreases remaining_players.len() - i,
        {
            let player: usize = remaining_players[i];
            if player < num_players {
                let closer: bool = match nearest {
                    Some(found) => count_steps(start, player, num_players) < count_steps(
                        start,
                        found,
                        num_players,
                    ),
                    None => true,
                };
                if closer {
                    nearest = Some(player);
                }
            }
            i += 1;
        }
        match nearest {
            Some(found) => {
                proof {
                    assert forall|other: usize| #[trigger]
                        eligible(other, num_players, remaining_players@) implies steps_between(
                        start,
                        found,
                        num_players,
                    ) <= steps_between(start, other, num_players) by {
                        let k = choose|k: int|
                            0 <= k < remaining_players@.len() && remaining_players@[k] == other;
                        assert(remaining_players@[k] < num_players);
                    }
                    lemma_nearest_eligible_is(found, start, num_players, remaining_players@);
                }
                GamePhase::Playing(Turn { current_player: found, state: self.state })
            },
            None => {
                proof {
                    assert forall|player: usize|
                        !eligible(player, num_players, remaining_players@) by {
                        if eligible(player, num_players, remaining_players@) {
                            let k = choose|k: int|
                                0 <= k < remaining_players@.len() && remaining_players@[k]
                                    == player;
                            assert(remaining_players@[k] >= num_players);
                        }
                    }
                }
                GamePhase::GameOver
            },
        }
    }
}

/// While every player is still in the game, the turn goes to the player in the
/// next seat, and from the last seat back to player 0.
pub proof fn lemma_turn_goes_round(turn: Turn, num_players: usize, remaining: Seq<usize>)
    requires
        num_players >= 2,
        turn.current_player < num_players,
        forall|player: usize| player < num_players ==> remaining.contains(player),
    ensures
        turn.passing_on(num_players, remaining) == GamePhase::Playing(
            Turn {
                current_player: seat_after(turn.current_player, num_players),
                state: TurnState::Aiming,
            },
        ),
        seat_after(turn.current_player, num_players) == (turn.current_player + 1) % (
        num_players as int),
{
    let start = seat_after(turn.current_player, num_players);
    assert(turn.current_player % num_players == turn.current_player) by {
        vstd::arithmetic::div_mod::lemma_small_mod(
            turn.current_player as nat,
            num_players as nat,
        );
    }
    assert(start == (turn.current_player + 1) % (num_players as int)) by {
        if turn.current_player + 1 == num_players {
            vstd::arithmetic::div_mod::lemma_mod_self_0(num_players as int);
        } else {
            vstd::arithmetic::div_mod::lemma_small_mod(
                (turn.current_player + 1) as nat,
                num_players as nat,
            );
        }
    }
    assert(eligible(start, num_players, remaining));
    assert(is_nearest_eligible(start, start, num_players, remaining));
    lemma_nearest_eligible_is(start, start, num_players, remaining);
}

/// Once nobody but the current player is left in the game, passing the turn on
/// ends the game; and as long as somebody else is left, it does not.
pub proof fn lemma_game_ends_with_last_player(turn: Turn, num_players: usize, remaining: Seq<usize>)
    ensures
        turn.passing_on(num_players, remaining) is GameOver <==> forall|player: usize| #[trigger]
            eligible(player, num_players, remaining) ==> player == turn.current_player,
{
    if num_players > 0 {
        let start = seat_after(turn.current_player, num_players);
        if exists|player: usize| eligible(player, num_players, remaining) {
            let witness = choose|player: usize| eligible(player, num_players, remaining);
            lemma_some_nearest_eligible(witness, start, num_players, remaining);
            let next = choose|p: usize| is_nearest_eligible(p, start, num_players, remaining);
            assert(eligible(next, num_players, remaining));
            if next == turn.current_player {
                vstd::arithmetic::div_mod::lemma_small_mod(
                    turn.current_player as nat,
                    num_players as nat,
                );
                assert forall|player: usize| #[trigger]
                    eligible(player, num_players, remaining) implies player
                    == turn.current_player by {
                    assert(steps_between(start, next, num_players) <= steps_between(
                        start,
                        player,
                        num_players,
                    ));
                }
            }
        }
    }
}

/// Among the eligible players one is nearest to `start`, as soon as there is
/// an eligible player at all.
pub proof fn lemma_some_nearest_eligible(
    witness: usize,
    start: usize,
    num_players: usize,
    remaining: Seq<usize>,
)
    requires
        start < num_players,
        eligible(witness, num_players, remaining),
    ensures
        exists|player: usize| is_nearest_eligible(player, start, num_players, remaining),
    decreases steps_between(start, witness, num_players),
{
    if exists|closer: usize| #[trigger]
        eligible(closer, num_players, remaining) && steps_between(start, closer, num_players)
            < steps_between(start, witness, num_players) {
        let closer = choose|closer: usize| #[trigger]
            eligible(closer, num_players, remaining) && steps_between(
                start,
                closer,
                num_players,
            ) < steps_between(start, witness, num_players);
        lemma_some_nearest_eligible(closer, start, num_players, remaining);
    } else {
        assert(is_nearest_eligible(witness, start, num_players, remaining));
    }
}

} // verus!
