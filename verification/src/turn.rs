//! The turns of a match: how a turn begins and ends, the phases in
//! between, and who has won.

use crate::game::{fail, Game, GameEvent, GamePhase, GameState, GameView};
use crate::ids::PlayerId;
use crate::seqs::keys_of;
use crate::setup::PLAYERS;
use vstd::arithmetic::div_mod::{
    lemma_fundamental_div_mod, lemma_fundamental_div_mod_converse, lemma_mod_pos_bound,
};
use vstd::prelude::*;

verus! {

impl GameView {
    /// Whether a player has won: they have no prize card left to take, or
    /// another player has no Pokemon in play.
    pub open spec fn wins(self, player_id: PlayerId) -> bool {
        self.players.contains_key(player_id) && (self.players[player_id].has_won()
            || self.another_lost(player_id))
    }

    /// Whether a player other than `player_id` has no Pokemon in play.
    pub open spec fn another_lost(self, player_id: PlayerId) -> bool {
        exists|q: PlayerId|
            q != player_id && self.players.contains_key(q) && (
            #[trigger] self.players[q]).has_lost()
    }

    /// Whether some player has won.
    pub open spec fn has_winner(self) -> bool {
        exists|p: PlayerId| self.wins(p)
    }

    /// The match after it ended with `winner` as its winner.
    pub open spec fn won_by(self, winner: PlayerId) -> GameView {
        GameView {
            state: GameState::Finished { winner: Some(winner) },
            history: self.history.push(GameEvent::GameEnded { winner: Some(winner) }),
            ..self
        }
    }

    /// The match after the turn passed to the next player: the index moves
    /// on through the turn order and starts over at its end, and the turn
    /// number grows when it starts over.
    pub open spec fn turn_passed(self) -> GameView {
        let next = ((self.current_player_index + 1) % (self.turn_order.len() as int)) as usize;
        GameView {
            current_player_index: next,
            turn_number: if next == 0 {
                (self.turn_number + 1) as u32
            } else {
                self.turn_number
            },
            ..self
        }
    }

    /// The match after the turn of the current player has begun: the player
    /// starts the turn and draws a card, the phase is the beginning of the
    /// turn, and the history tells of both.
    pub open spec fn turn_begun(self) -> GameView {
        let id = self.current_player_id()->Some_0;
        GameView {
            players: if self.players.contains_key(id) {
                self.players.insert(id, self.players[id].turn_started().after_draw(1))
            } else {
                self.players
            },
            phase: GamePhase::BeginningOfTurn,
            history: self.history.push(
                GameEvent::TurnStarted { player_id: id, turn_number: self.turn_number },
            ).push(GameEvent::CardDrawn { player_id: id, card_id: None }),
            ..self
        }
    }

    /// The match after it went from setup into play and the first turn
    /// began.
    pub open spec fn begun(self) -> GameView {
        (GameView {
            state: GameState::InProgress,
            history: self.history.push(GameEvent::GameStarted),
            ..self
        }).turn_begun()
    }

    /// Whether `after` and `outcome` are what ending the turn makes of the
    /// match: a match that is not played, or has no current player, stays
    /// as it is; else the end of the turn is recorded, and either some
    /// player who has won is its winner, or the turn passes to the next
    /// player and their turn begins.
    pub open spec fn turn_ended(self, after: GameView, outcome: Result<(), Seq<char>>) -> bool {
        if !(self.state is InProgress) {
            after == self && outcome == Err::<(), Seq<char>>("Game is not in progress"@)
        } else if self.current_player_id() is None {
            after == self && outcome == Err::<(), Seq<char>>("No current player"@)
        } else {
            let ended = self.with_event(
                GameEvent::TurnEnded { player_id: self.current_player_id()->Some_0 },
            );
            outcome is Ok && if ended.has_winner() {
                exists|w: PlayerId| ended.wins(w) && after == #[trigger] ended.won_by(w)
            } else {
                after == ended.turn_passed().turn_begun()
            }
        }
    }

    /// Whether the turn passed from `self` to `after`, whatever else
    /// happened: the turn order is the same, the index has moved on by
    /// one and started over at the end, and the turn number has grown if
    /// and only if it started over.
    pub open spec fn passed_turn_to(self, after: GameView) -> bool {
        &&& after.turn_order == self.turn_order
        &&& self.current_player_index < self.turn_order.len()
        &&& after.current_player_index == (self.current_player_index + 1) % (
        self.turn_order.len() as int)
        &&& after.turn_number == self.turn_number + if after.current_player_index == 0 {
            1int
        } else {
            0int
        }
    }
}

/// The view of a result with a message: the message as a sequence.
pub open spec fn outcome_of(r: Result<(), String>) -> Result<(), Seq<char>> {
    match r {
        Ok(()) => Ok(()),
        Err(e) => Err(e@),
    }
}

/// One step of counting through a cycle of length `len`.
pub proof fn lemma_cycle_step(x: int, len: int)
    requires
        0 <= x,
        0 < len,
    ensures
        ((x % len) + 1) % len == (x + 1) % len,
        (x + 1) / len == x / len + if (x + 1) % len == 0 {
            1int
        } else {
            0int
        },
{
    lemma_fundamental_div_mod(x, len);
    lemma_mod_pos_bound(x, len);
    let q = x / len;
    let r = x % len;
    assert(x == q * len + r) by (nonlinear_arith)
        requires
            x == len * q + r,
    ;
    if r + 1 < len {
        lemma_fundamental_div_mod_converse(x + 1, len, q, r + 1);
        lemma_fundamental_div_mod_converse(r + 1, len, 0, r + 1);
    } else {
        assert(x + 1 == (q + 1) * len + 0) by (nonlinear_arith)
            requires
                x == q * len + r,
                r + 1 == len,
        ;
        lemma_fundamental_div_mod_converse(x + 1, len, q + 1, 0);
        assert(r + 1 == 1 * len + 0) by (nonlinear_arith)
            requires
                r + 1 == len,
        ;
        lemma_fundamental_div_mod_converse(r + 1, len, 1, 0);
    }
}

impl Game {
    /// Whether a player other than `player_id` has no Pokemon in play.
    fn has_another_lost(&self, ids: &Vec<PlayerId>, player_id: PlayerId) -> (r: bool)
        requires
            ids@.to_set() == self@.players.dom(),
        ensures
            r == self@.another_lost(player_id),
    {
        let mut i: usize = 0;
        while i < ids.len()
            invariant
                i <= ids@.len(),
                ids@.to_set() == self@.players.dom(),
                forall|j: int|
                    0 <= j < i ==> !(ids@[j] != player_id && (
                    #[trigger] self@.players[ids@[j]]).has_lost()),
            decreases ids@.len() - i,
        {
            let q = ids[i];
            assert(ids@.to_set().contains(q));
            if q != player_id {
                match self.get_player(q) {
                    Some(other) => {
                        if other.has_lost() {
                            proof {
                                assert(self@.players[q].has_lost());
                            }
                            return true;
                        }
                    },
                    None => {},
                }
            }
            i += 1;
        }
        proof {
            assert forall|q: PlayerId|
                !(q != player_id && self@.players.contains_key(q) && (
                #[trigger] self@.players[q]).has_lost()) by {
                if self@.players.contains_key(q) {
                    assert(ids@.to_set().contains(q));
                    let j = choose|j: int| 0 <= j < ids@.len() && ids@[j] == q;
                    assert(!(ids@[j] != player_id && self@.players[ids@[j]].has_lost()));
                }
            }
        }
        false
    }

    /// Looks for a player who has won; if there is one, the match ends
    /// with that player as its winner. `true` if the match has ended so.
    pub fn check_win_conditions(&mut self) -> (r: Result<bool, String>)
        ensures
            r matches Ok(won) && won == old(self)@.has_winner() && if won {
                exists|w: PlayerId|
                    old(self)@.wins(w) && final(self)@ == #[trigger] old(self)@.won_by(w)
            } else {
                final(self)@ == old(self)@
            },
            old(self)@.wf() ==> final(self)@.wf(),
    {
        broadcast use vstd::std_specs::hash::group_hash_axioms;

        let ids = keys_of(&self.players);
        proof {
            assert(self@.players.dom() =~= self.players@.dom());
        }
        let mut winner: Option<PlayerId> = None;
        let mut i: usize = 0;
        while i < ids.len() && winner.is_none()
            invariant
                i <= ids@.len(),
                *self == *old(self),
                ids@.to_set() == self@.players.dom(),
                winner matches Some(w) ==> self@.wins(w),
                winner is None ==> forall|j: int| 0 <= j < i ==> !self@.wins(#[trigger] ids@[j]),
            decreases ids@.len() - i + if winner is None { 1nat } else { 0nat },
        {
            let p = ids[i];
            assert(ids@.to_set().contains(p));
            let won = match self.get_player(p) {
                Some(player) => player.has_won(),
                None => false,
            };
            if won || self.has_another_lost(&ids, p) {
                winner = Some(p);
            } else {
                i += 1;
            }
        }
        match winner {
            Some(w) => {
                self.state = GameState::Finished { winner: Some(w) };
                self.add_event(GameEvent::GameEnded { winner: Some(w) });
                proof {
                    assert(self@ =~= old(self)@.won_by(w));
                }
                Ok(true)
            },
            None => {
                proof {
                    assert forall|p: PlayerId| !self@.wins(p) by {
                        if self@.players.contains_key(p) {
                            assert(ids@.to_set().contains(p));
                            let j = choose|j: int| 0 <= j < ids@.len() && ids@[j] == p;
                            assert(!self@.wins(ids@[j]));
                        }
                    }
                }
                Ok(false)
            },
        }
    }

    /// Begins the turn of the current player without looking at the state
    /// of the match.
    fn begin_turn(&mut self, player_id: PlayerId)
        requires
            old(self)@.current_player_id() == Some(player_id),
        ensures
            final(self)@ == old(self)@.turn_begun(),
            old(self)@.wf() ==> final(self)@.wf(),
    {
        match self.take_player(player_id) {
            Some(mut player) => {
                player.start_turn();
                player.draw_card();
                self.put_player(player_id, player);
                proof {
                    assert(self@.players =~= old(self)@.players.insert(
                        player_id,
                        old(self)@.players[player_id].turn_started().after_draw(1),
                    ));
                }
            },
            None => {},
        }
        self.phase = GamePhase::BeginningOfTurn;
        self.add_event(
            GameEvent::TurnStarted { player_id, turn_number: self.turn_number },
        );
        self.add_event(GameEvent::CardDrawn { player_id, card_id: None });
    }

    /// Begins the turn of the current player: the player starts the turn
    /// and draws a card.
    pub fn start_turn(&mut self) -> (r: Result<(), String>)
        ensures
            match r {
                Ok(()) => old(self)@.state is InProgress && old(self)@.current_player_id() is Some
                    && final(self)@ == old(self)@.turn_begun(),
                Err(e) => final(self)@ == old(self)@ && if !(old(self)@.state is InProgress) {
                    e@ == "Game is not in progress"@
                } else {
                    old(self)@.current_player_id() is None && e@ == "No current player"@
                },
            },
            old(self)@.wf() ==> final(self)@.wf(),
    {
        match self.state {
            GameState::InProgress => {},
            _ => {
                return fail("Game is not in progress");
            },
        }
        match self.get_current_player_id() {
            Ok(player_id) => {
                self.begin_turn(player_id);
                Ok(())
            },
            Err(e) => Err(e),
        }
    }

    /// Takes the match from setup into play and begins the first turn.
    /// The match needs its two players, each with a deck, and a current
    /// player.
    pub fn start(&mut self) -> (r: Result<(), String>)
        ensures
            match r {
                Ok(()) => old(self)@.state is Setup && old(self)@.players.len() >= PLAYERS && old(self)@.all_have_decks() && old(self)@.current_player_id() is Some && final(self)@
                    == old(self)@.begun(),
                Err(e) => final(self)@ == old(self)@ && if !(old(self)@.state is Setup) {
                    e@ == "Game is not in setup state"@
                } else if old(self)@.players.len() < PLAYERS {
                    e@ == "Need at least 2 players to start"@
                } else if !old(self)@.all_have_decks() {
                    e@ == "All players must have decks"@
                } else {
                    old(self)@.current_player_id() is None && e@ == "No current player"@
                },
            },
            old(self)@.wf() ==> final(self)@.wf(),
    {
        match self.check_ready("Need at least 2 players to start") {
            Ok(()) => {},
            Err(e) => {
                return Err(e);
            },
        }
        match self.get_current_player_id() {
            Ok(player_id) => {
                self.state = GameState::InProgress;
                self.add_event(GameEvent::GameStarted);
                self.begin_turn(player_id);
                Ok(())
            },
            Err(e) => Err(e),
        }
    }

    /// Completes the setup: the match goes into play and the first turn
    /// begins. Every player needs an active Pokemon, and the match a
    /// current player.
    pub fn complete_setup(&mut self) -> (r: Result<(), String>)
        ensures
            match r {
                Ok(()) => old(self)@.state is Setup && old(self)@.all_have_active() && old(self)@.current_player_id() is Some && final(self)@ == old(self)@.begun(),
                Err(e) => final(self)@ == old(self)@ && if !(old(self)@.state is Setup) {
                    e@ == "Can only complete setup during setup phase"@
                } else if !old(self)@.all_have_active() {
                    e@ == "All players must have an active Pokemon"@
                } else {
                    old(self)@.current_player_id() is None && e@ == "No current player"@
                },
            },
            old(self)@.wf() ==> final(self)@.wf(),
    {
        broadcast use vstd::std_specs::hash::group_hash_axioms;

        match self.state {
            GameState::Setup => {},
            _ => {
                return fail("Can only complete setup during setup phase");
            },
        }
        let ids = keys_of(&self.players);
        proof {
            assert(self@.players.dom() =~= self.players@.dom());
        }
        let mut i: usize = 0;
        while i < ids.len()
            invariant
                i <= ids@.len(),
                *self == *old(self),
                self@.state is Setup,
                ids@.to_set() == self@.players.dom(),
                forall|j: int|
                    0 <= j < i ==> (#[trigger] self@.players[ids@[j]]).active_pokemon is Some,
            decreases ids@.len() - i,
        {
            assert(ids@.to_set().contains(ids@[i as int]));
            match self.get_player(ids[i]) {
                Some(player) => {
                    if player.active_pokemon.is_none() {
                        proof {
                            assert(self@.players[ids@[i as int]].active_pokemon is None);
                        }
                        return fail("All players must have an active Pokemon");
                    }
                },
                None => {},
            }
            i += 1;
        }
        proof {
            assert forall|p: PlayerId| self@.players.contains_key(p) implies (
            #[trigger] self@.players[p]).active_pokemon is Some by {
                assert(ids@.to_set().contains(p));
                let j = choose|j: int| 0 <= j < ids@.len() && ids@[j] == p;
                assert(self@.players[ids@[j]].active_pokemon is Some);
            }
        }
        match self.get_current_player_id() {
            Ok(player_id) => {
                self.state = GameState::InProgress;
                self.add_event(GameEvent::GameStarted);
                self.begin_turn(player_id);
                Ok(())
            },
            Err(e) => Err(e),
        }
    }

    /// Ends the turn of the current player. The end is recorded; then a
    /// player who has won ends the match, or else the turn passes to the
    /// next player, whose turn begins. The turn number has to have room to
    /// grow.
    pub fn end_turn(&mut self) -> (r: Result<(), String>)
        requires
            old(self)@.turn_number < u32::MAX,
        ensures
            old(self)@.turn_ended(final(self)@, outcome_of(r)),
            old(self)@.wf() ==> final(self)@.wf(),
    {
        match self.state {
            GameState::InProgress => {},
            _ => {
                return fail("Game is not in progress");
            },
        }
        let player_id = match self.get_current_player_id() {
            Ok(id) => id,
            Err(e) => {
                return Err(e);
            },
        };
        match self.take_player(player_id) {
            Some(mut player) => {
                player.end_turn();
                self.put_player(player_id, player);
                proof {
                    assert(self@.players =~= old(self)@.players);
                }
            },
            None => {},
        }
        self.add_event(GameEvent::TurnEnded { player_id });
        let ghost ended = self@;
        let won = match self.check_win_conditions() {
            Ok(won) => won,
            Err(e) => {
                return Err(e);
            },
        };
        if won {
            return Ok(());
        }
        let len = self.turn_order.len();
        let next = if self.current_player_index + 1 == len {
            0
        } else {
            self.current_player_index + 1
        };
        proof {
            let x = self.current_player_index as int;
            if x + 1 == len {
                assert((x + 1) == 1 * (len as int) + 0) by (nonlinear_arith)
                    requires
                        x + 1 == len,
                ;
                lemma_fundamental_div_mod_converse(x + 1, len as int, 1, 0);
            } else {
                lemma_fundamental_div_mod_converse(x + 1, len as int, 0, x + 1);
            }
        }
        self.current_player_index = next;
        if next == 0 {
            self.turn_number = self.turn_number + 1;
        }
        proof {
            assert(self@ =~= ended.turn_passed());
        }
        let next_id = self.turn_order[next];
        self.begin_turn(next_id);
        Ok(())
    }

    /// Moves on to the next phase of the turn; from the last phase, the
    /// turn ends. The turn number has to have room to grow where the turn
    /// ends.
    pub fn next_phase(&mut self) -> (r: Result<(), String>)
        requires
            old(self)@.phase is EndOfTurn ==> old(self)@.turn_number < u32::MAX,
        ensures
            match old(self)@.phase {
                GamePhase::BeginningOfTurn => r is Ok && final(self)@ == (GameView {
                    phase: GamePhase::Main,
                    ..old(self)@
                }),
                GamePhase::Main => r is Ok && final(self)@ == (GameView {
                    phase: GamePhase::Attack,
                    ..old(self)@
                }),
                GamePhase::Attack => r is Ok && final(self)@ == (GameView {
                    phase: GamePhase::EndOfTurn,
                    ..old(self)@
                }),
                GamePhase::EndOfTurn => old(self)@.turn_ended(final(self)@, outcome_of(r)),
            },
            old(self)@.wf() ==> final(self)@.wf(),
    {
        match self.phase {
            GamePhase::BeginningOfTurn => {
                self.phase = GamePhase::Main;
                Ok(())
            },
            GamePhase::Main => {
                self.phase = GamePhase::Attack;
                Ok(())
            },
            GamePhase::Attack => {
                self.phase = GamePhase::EndOfTurn;
                Ok(())
            },
            GamePhase::EndOfTurn => self.end_turn(),
        }
    }
}

} // verus!
