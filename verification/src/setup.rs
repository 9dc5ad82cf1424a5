//! Setting a match up: players and decks, the order of turns, opening
//! hands and mulligans, the Pokemon in play and the prize cards.

use crate::card::Card;
use crate::deck::Deck;
use crate::game::{fail, seed_after, Game, GameState, GameView};
use crate::ids::{CardId, PlayerId};
use crate::player::{basics_in, is_mulliganed, Player, PlayerView, MAX_BENCH, OPENING_HAND};
use crate::random::shuffle_with_seed;
use crate::seqs::{
    contains, drawn, keys_of, lemma_next_key, lemma_rearranged, min_nat, sorted, take_first,
};
use crate::text::{decimal, decimal_string};
use vstd::prelude::*;

verus! {

/// The number of players of a match.
pub const PLAYERS: usize = 2;

/// How a round of mulligans came out.
#[derive(Clone, Copy, Debug, PartialEq, Eq, Structural)]
pub enum MulliganResult {
    /// More than one player holds no basic Pokemon.
    AllWithoutBasic,
    /// Every player holds a basic Pokemon.
    AllWithBasic,
    /// This player alone holds no basic Pokemon.
    OneWithoutBasic(PlayerId),
}

/// What is done to every player at a step of the setup.
pub enum SetupStep {
    /// The opening hand is drawn.
    DealHand,
    /// This many prize cards are set aside.
    PlacePrizes(u32),
}

/// A player after a step of the setup.
pub open spec fn after_step(player: PlayerView, step: SetupStep) -> PlayerView {
    match step {
        SetupStep::DealHand => player.after_draw(OPENING_HAND as nat),
        SetupStep::PlacePrizes(count) => player.prizes_placed(count),
    }
}

/// Why a card cannot go to the bench during setup, if it cannot.
pub open spec fn bench_refusal(player: PlayerView, db: Map<CardId, Card>, card_id: CardId)
    -> Option<Seq<char>> {
    if !player.hand.contains(card_id) {
        Some("Selected Pokemon is not in player's hand"@)
    } else if !db.contains_key(card_id) {
        Some("Card not found in database"@)
    } else if !db[card_id].spec_is_pokemon() {
        Some("Selected card is not a Pokemon"@)
    } else if player.bench.len() >= MAX_BENCH {
        Some("Failed to place Pokemon on bench"@)
    } else {
        None
    }
}

/// The player after the cards of `cards` went to the bench one after the
/// other, or the reason why the first card that cannot go there cannot.
pub open spec fn bench_all(player: PlayerView, db: Map<CardId, Card>, cards: Seq<CardId>)
    -> Result<PlayerView, Seq<char>>
    decreases cards.len(),
{
    if cards.len() == 0 {
        Ok(player)
    } else {
        match bench_all(player, db, cards.drop_last()) {
            Err(e) => Err(e),
            Ok(p) => match bench_refusal(p, db, cards.last()) {
                Some(e) => Err(e),
                None => Ok(p.benched(cards.last())),
            },
        }
    }
}

/// Why a card cannot become the active Pokemon of a player during setup,
/// if it cannot.
pub open spec fn active_refusal(player: PlayerView, db: Map<CardId, Card>, card_id: CardId)
    -> Option<Seq<char>> {
    if !player.hand.contains(card_id) {
        Some("Selected Pokemon is not in player's hand"@)
    } else if !db.contains_key(card_id) {
        Some("Card not found in database"@)
    } else if !db[card_id].spec_is_pokemon() {
        Some("Selected card is not a Pokemon"@)
    } else if !db[card_id].spec_is_basic_pokemon() {
        Some("Selected Pokemon is not a Basic Pokemon"@)
    } else if !player.can_activate(card_id) {
        Some("No room on the bench for the displaced Pokemon"@)
    } else {
        None
    }
}

/// The message for a compensation that asks for more cards than there
/// were mulligans.
pub open spec fn over_compensation_text(asked: usize, limit: usize) -> Seq<char> {
    "Declared card count "@ + decimal(asked as nat) + " exceeds limit "@ + decimal(limit as nat)
}

impl GameView {
    /// Whether a player of the match holds no basic Pokemon.
    pub open spec fn lacks_basic(self, player_id: PlayerId) -> bool {
        self.players.contains_key(player_id) && basics_in(
            self.players[player_id].hand,
            self.card_database,
        ).len() == 0
    }

    /// Whether every player has a deck with a card in it.
    pub open spec fn all_have_decks(self) -> bool {
        forall|p: PlayerId|
            self.players.contains_key(p) ==> (#[trigger] self.players[p]).deck.len() > 0
    }

    /// Whether every player has an active Pokemon.
    pub open spec fn all_have_active(self) -> bool {
        forall|p: PlayerId|
            self.players.contains_key(p) ==> (#[trigger] self.players[p]).active_pokemon is Some
    }

    /// The match after a step of the setup was taken for every player.
    pub open spec fn after_step(self, step: SetupStep) -> GameView {
        GameView { players: self.players.map_values(|p: PlayerView| after_step(p, step)), ..self }
    }

    /// Whether the match is the outcome of a mulligan of `player_id`: the
    /// player's hand and deck were shuffled together and the opening hand
    /// drawn anew, the mulligan is counted and the seed has moved on.
    pub open spec fn is_mulligan_of(self, before: GameView, player_id: PlayerId) -> bool {
        &&& self.players.contains_key(player_id)
        &&& is_mulliganed(before.players[player_id], self.players[player_id])
        &&& self == (GameView {
            players: before.players.insert(player_id, self.players[player_id]),
            mulligan_count: (before.mulligan_count + 1) as usize,
            shuffle_seed: seed_after(before.shuffle_seed),
            ..before
        })
    }

    /// How a round of mulligans came out, by the players who hold no basic
    /// Pokemon.
    pub open spec fn mulligan_outcome(self) -> MulliganResult {
        if forall|p: PlayerId| !self.lacks_basic(p) {
            MulliganResult::AllWithBasic
        } else if exists|p: PlayerId, q: PlayerId|
            p != q && self.lacks_basic(p) && self.lacks_basic(q) {
            MulliganResult::AllWithoutBasic
        } else {
            MulliganResult::OneWithoutBasic(choose|p: PlayerId| self.lacks_basic(p))
        }
    }
}

/// The seed after `n` shuffles.
pub open spec fn seed_after_n(seed: u64, n: nat) -> u64
    decreases n,
{
    if n == 0 {
        seed
    } else {
        seed_after(seed_after_n(seed, (n - 1) as nat))
    }
}

impl Game {
    /// Takes a player into the match, with as many prize cards to take as
    /// the rules give. A match takes players only while it is set up, and
    /// two at most.
    pub fn add_player(&mut self, player: Player) -> (r: Result<(), String>)
        ensures
            match r {
                Ok(()) => old(self)@.state is Setup && old(self)@.players.len() < PLAYERS && final(self)@ == old(self)@.with_player(
                    player.id,
                    PlayerView { prize_cards: old(self)@.rules.prize_cards, ..player@ },
                ),
                Err(e) => final(self)@ == old(self)@ && if !(old(self)@.state is Setup) {
                    e@ == "Cannot add players after game has started"@
                } else {
                    old(self)@.players.len() >= PLAYERS && e@ == "Maximum of 2 players allowed"@
                },
            },
            old(self)@.wf() && player@.wf() ==> final(self)@.wf(),
    {
        broadcast use vstd::std_specs::hash::group_hash_axioms;

        match self.state {
            GameState::Setup => {},
            _ => {
                return fail("Cannot add players after game has started");
            },
        }
        proof {
            assert(self@.players.dom() =~= self.players@.dom());
        }
        if self.players.len() >= PLAYERS {
            return fail("Maximum of 2 players allowed");
        }
        let mut player = player;
        player.prize_cards = self.rules.prize_cards;
        let player_id = player.id;
        self.put_player(player_id, player);
        Ok(())
    }

    /// Gives a player the cards of a deck, shuffled, as their deck.
    pub fn set_player_deck(&mut self, player_id: PlayerId, deck: Deck) -> (r: Result<(), String>)
        ensures
            match r {
                Ok(()) => old(self)@.state is Setup && old(self)@.players.contains_key(player_id)
                    && final(self)@ == (GameView {
                    players: old(self)@.players.insert(
                        player_id,
                        PlayerView {
                            deck: final(self)@.players[player_id].deck,
                            ..old(self)@.players[player_id]
                        },
                    ),
                    shuffle_seed: seed_after(old(self)@.shuffle_seed),
                    ..old(self)@
                }) && forall|id: CardId|
                    final(self)@.players[player_id].deck.to_multiset().count(id)
                        == deck.spec_quantity(id),
                Err(e) => final(self)@ == old(self)@ && if !(old(self)@.state is Setup) {
                    e@ == "Cannot set deck after game has started"@
                } else {
                    !old(self)@.players.contains_key(player_id) && e@ == "Player not found"@
                },
            },
            old(self)@.wf() ==> final(self)@.wf(),
    {
        match self.state {
            GameState::Setup => {},
            _ => {
                return fail("Cannot set deck after game has started");
            },
        }
        match self.take_player(player_id) {
            Some(mut player) => {
                let seed = self.next_shuffle_seed();
                let pile = deck.shuffle_seeded(seed);
                player.set_deck(pile);
                self.put_player(player_id, player);
                proof {
                    assert(self@.players =~= old(self)@.players.insert(
                        player_id,
                        PlayerView {
                            deck: self@.players[player_id].deck,
                            ..old(self)@.players[player_id]
                        },
                    ));
                }
                Ok(())
            },
            None => fail("Player not found"),
        }
    }

    /// Checks that the setup can begin: the match is in setup, has its two
    /// players, and each of them has a deck.
    pub fn start_setup(&mut self) -> (r: Result<(), String>)
        ensures
            final(self)@ == old(self)@,
            match r {
                Ok(()) => old(self)@.state is Setup && old(self)@.players.len() >= PLAYERS && old(self)@.all_have_decks(),
                Err(e) => if !(old(self)@.state is Setup) {
                    e@ == "Game is not in setup state"@
                } else if old(self)@.players.len() < PLAYERS {
                    e@ == "Need at least 2 players to start setup"@
                } else {
                    !old(self)@.all_have_decks() && e@ == "All players must have decks"@
                },
            },
    {
        self.check_ready("Need at least 2 players to start setup")
    }

    /// Whether the match is in setup, has its two players, and each of
    /// them has a deck.
    pub(crate) fn check_ready(&self, too_few: &str) -> (r: Result<(), String>)
        ensures
            match r {
                Ok(()) => self@.state is Setup && self@.players.len() >= PLAYERS
                    && self@.all_have_decks(),
                Err(e) => if !(self@.state is Setup) {
                    e@ == "Game is not in setup state"@
                } else if self@.players.len() < PLAYERS {
                    e@ == too_few@
                } else {
                    !self@.all_have_decks() && e@ == "All players must have decks"@
                },
            },
    {
        broadcast use vstd::std_specs::hash::group_hash_axioms;

        match self.state {
            GameState::Setup => {},
            _ => {
                return fail("Game is not in setup state");
            },
        }
        proof {
            assert(self@.players.dom() =~= self.players@.dom());
        }
        if self.players.len() < PLAYERS {
            return fail(too_few);
        }
        let ids = keys_of(&self.players);
        let mut i: usize = 0;
        while i < ids.len()
            invariant
                i <= ids@.len(),
                ids@.to_set() == self.players@.dom(),
                self@.state is Setup,
                self@.players.len() >= PLAYERS,
                forall|j: int|
                    0 <= j < i ==> (#[trigger] self@.players[ids@[j]]).deck.len() > 0,
            decreases ids@.len() - i,
        {
            assert(ids@.to_set().contains(ids@[i as int]));
            match self.players.get(&ids[i]) {
                Some(player) => {
                    if player.deck.len() == 0 {
                        proof {
                            assert(self@.players.contains_key(ids@[i as int]));
                            assert(self@.players[ids@[i as int]].deck.len() == 0);
                        }
                        return fail("All players must have decks");
                    }
                },
                None => {},
            }
            i += 1;
        }
        proof {
            assert forall|p: PlayerId| self@.players.contains_key(p) implies (
            #[trigger] self@.players[p]).deck.len() > 0 by {
                assert(ids@.to_set().contains(p));
                let j = choose|j: int| 0 <= j < ids@.len() && ids@[j] == p;
                assert(self@.players[ids@[j]].deck.len() > 0);
            }
        }
        Ok(())
    }

    /// Fixes the order of the turns by chance: the players, put in the
    /// order of their identifiers and then shuffled with the seed of the
    /// match, so that the same players and the same seed give the same
    /// order.
    pub fn determine_turn_order(&mut self) -> (r: Result<(), String>)
        ensures
            match r {
                Ok(()) => old(self)@.state is Setup && old(self)@.players.len() >= PLAYERS && final(self)@ == (GameView {
                    turn_order: final(self)@.turn_order,
                    shuffle_seed: seed_after(old(self)@.shuffle_seed),
                    ..old(self)@
                }) && final(self)@.turn_order.no_duplicates() && final(self)@.turn_order.to_set()
                    == old(self)@.players.dom(),
                Err(e) => final(self)@ == old(self)@ && if !(old(self)@.state is Setup) {
                    e@ == "Can only determine turn order during setup phase"@
                } else {
                    old(self)@.players.len() < PLAYERS && e@
                        == "Need at least 2 players to determine turn order"@
                },
            },
            old(self)@.wf() ==> final(self)@.wf(),
    {
        broadcast use vstd::std_specs::hash::group_hash_axioms;

        match self.state {
            GameState::Setup => {},
            _ => {
                return fail("Can only determine turn order during setup phase");
            },
        }
        proof {
            assert(self@.players.dom() =~= self.players@.dom());
        }
        if self.players.len() < PLAYERS {
            return fail("Need at least 2 players to determine turn order");
        }
        let keys = keys_of(&self.players);
        let mut order = sorted(keys);
        let ghost in_order = order@;
        let seed = self.next_shuffle_seed();
        shuffle_with_seed(&mut order, seed);
        proof {
            lemma_rearranged(keys@, in_order);
            lemma_rearranged(in_order, order@);
        }
        self.turn_order = order;
        Ok(())
    }

    /// Takes a step of the setup for every player.
    pub(crate) fn step_all(&mut self, step: SetupStep)
        ensures
            final(self)@ == old(self)@.after_step(step),
    {
        broadcast use vstd::std_specs::hash::group_hash_axioms;

        let ids = keys_of(&self.players);
        let ghost before = old(self)@.players;
        let mut i: usize = 0;
        proof {
            assert(self@.players.dom() =~= self.players@.dom());
        }
        while i < ids.len()
            invariant
                i <= ids@.len(),
                ids@.no_duplicates(),
                ids@.to_set() == before.dom(),
                before == old(self)@.players,
                self@ == (GameView { players: self@.players, ..old(self)@ }),
                self@.players.dom() == before.dom(),
                forall|p: PlayerId|
                    before.contains_key(p) ==> #[trigger] self@.players[p] == if ids@.take(
                        i as int,
                    ).contains(p) {
                        after_step(before[p], step)
                    } else {
                        before[p]
                    },
            decreases ids@.len() - i,
        {
            let id = ids[i];
            let ghost cur = self@.players;
            proof {
                lemma_next_key(ids@, i as int);
                assert(ids@.to_set().contains(id));
                assert(cur[id] == before[id]);
            }
            match self.take_player(id) {
                Some(mut player) => {
                    match step {
                        SetupStep::DealHand => {
                            player.draw_cards(OPENING_HAND);
                        },
                        SetupStep::PlacePrizes(count) => {
                            player.place_prize_cards(count);
                        },
                    }
                    self.put_player(id, player);
                },
                None => {},
            }
            proof {
                assert(self@.players =~= cur.insert(id, after_step(before[id], step)));
                assert forall|p: PlayerId| before.contains_key(p) implies #[trigger] self@.players[p]
                    == if ids@.take(i as int + 1).contains(p) {
                    after_step(before[p], step)
                } else {
                    before[p]
                } by {
                    if p != id {
                        assert(self@.players[p] == cur[p]);
                    }
                }
            }
            i += 1;
        }
        proof {
            assert(ids@.take(ids@.len() as int) =~= ids@);
            assert forall|p: PlayerId| before.contains_key(p) implies ids@.contains(p) by {
                assert(ids@.to_set().contains(p));
            }
            assert(self@.players =~= before.map_values(|p: PlayerView| after_step(p, step)));
        }
    }

    /// Deals the opening hands: every player draws seven cards, or their
    /// whole deck if it holds fewer.
    pub fn deal_opening_hands(&mut self) -> (r: Result<(), String>)
        ensures
            match r {
                Ok(()) => old(self)@.state is Setup && old(self)@.turn_order.len() > 0 && final(self)@ == old(self)@.after_step(SetupStep::DealHand),
                Err(e) => final(self)@ == old(self)@ && if !(old(self)@.state is Setup) {
                    e@ == "Can only deal opening hands during setup phase"@
                } else {
                    old(self)@.turn_order.len() == 0 && e@
                        == "Turn order must be determined before dealing hands"@
                },
            },
            old(self)@.wf() ==> final(self)@.wf(),
    {
        match self.state {
            GameState::Setup => {},
            _ => {
                return fail("Can only deal opening hands during setup phase");
            },
        }
        if self.turn_order.len() == 0 {
            return fail("Turn order must be determined before dealing hands");
        }
        self.step_all(SetupStep::DealHand);
        Ok(())
    }

    /// The players who hold no basic Pokemon, each once.
    pub fn check_for_basic_pokemon(&self) -> (r: Result<Vec<PlayerId>, String>)
        ensures
            match r {
                Ok(ids) => self@.state is Setup && ids@.no_duplicates() && forall|p: PlayerId|
                    ids@.contains(p) <==> self@.lacks_basic(p),
                Err(e) => !(self@.state is Setup) && e@
                    == "Can only check for basic Pokemon during setup phase"@,
            },
    {
        broadcast use vstd::std_specs::hash::group_hash_axioms;

        match self.state {
            GameState::Setup => {},
            _ => {
                return fail("Can only check for basic Pokemon during setup phase");
            },
        }
        let ids = keys_of(&self.players);
        let mut without: Vec<PlayerId> = Vec::new();
        let mut i: usize = 0;
        proof {
            assert(self@.players.dom() =~= self.players@.dom());
        }
        while i < ids.len()
            invariant
                i <= ids@.len(),
                ids@.no_duplicates(),
                ids@.to_set() == self@.players.dom(),
                without@.no_duplicates(),
                forall|p: PlayerId|
                    without@.contains(p) <==> ids@.take(i as int).contains(p) && self@.lacks_basic(
                        p,
                    ),
            decreases ids@.len() - i,
        {
            let id = ids[i];
            let ghost before = without@;
            proof {
                lemma_next_key(ids@, i as int);
                assert(ids@.to_set().contains(id));
            }
            match self.players.get(&id) {
                Some(player) => {
                    let basics = player.find_basic_pokemon_in_hand(&self.card_database);
                    if basics.len() == 0 {
                        without.push(id);
                        proof {
                            assert(!before.contains(id));
                            assert forall|a: int, b: int|
                                0 <= a < without@.len() && 0 <= b < without@.len() && a
                                    != b implies without@[a] != without@[b] by {
                                if a < before.len() {
                                    assert(before.contains(before[a]));
                                }
                                if b < before.len() {
                                    assert(before.contains(before[b]));
                                }
                            }
                        }
                    }
                },
                None => {},
            }
            proof {
                let done = ids@.take(i as int);
                let next = ids@.take(i as int + 1);
                assert forall|p: PlayerId| without@.contains(p) <==> next.contains(p)
                    && self@.lacks_basic(p) by {
                    if without@.contains(p) {
                        let j = choose|j: int| 0 <= j < without@.len() && without@[j] == p;
                        if j < before.len() {
                            assert(before[j] == p);
                            assert(before.contains(p));
                        }
                    }
                    if next.contains(p) && self@.lacks_basic(p) {
                        if p == id {
                            assert(without@[without@.len() - 1] == p);
                        } else {
                            assert(done.contains(p));
                            assert(before.contains(p));
                            let j = choose|j: int| 0 <= j < before.len() && before[j] == p;
                            assert(without@[j] == p);
                        }
                    }
                }
            }
            i += 1;
        }
        proof {
            assert(ids@.take(ids@.len() as int) =~= ids@);
            assert forall|p: PlayerId| without@.contains(p) <==> self@.lacks_basic(p) by {
                if self@.lacks_basic(p) {
                    assert(ids@.to_set().contains(p));
                }
            }
        }
        Ok(without)
    }

    /// The players who hold no basic Pokemon, and whether that is every
    /// player.
    pub fn declare_no_basic_pokemon(&mut self) -> (r: Result<(Vec<PlayerId>, bool), String>)
        ensures
            final(self)@ == old(self)@,
            match r {
                Ok((ids, all)) => old(self)@.state is Setup && ids@.no_duplicates() && (forall|
                    p: PlayerId,
                |
                    ids@.contains(p) <==> old(self)@.lacks_basic(p)) && all == (ids@.len() == old(self)@.players.len()),
                Err(e) => !(old(self)@.state is Setup) && e@
                    == "Can only declare no basic Pokemon during setup phase"@,
            },
    {
        broadcast use vstd::std_specs::hash::group_hash_axioms;

        match self.state {
            GameState::Setup => {},
            _ => {
                return fail("Can only declare no basic Pokemon during setup phase");
            },
        }
        proof {
            assert(self@.players.dom() =~= self.players@.dom());
        }
        match self.check_for_basic_pokemon() {
            Ok(ids) => {
                let all = ids.len() == self.players.len();
                Ok((ids, all))
            },
            Err(e) => Err(e),
        }
    }

    /// Notes that a player's mulligan waits until the opponent has set up.
    pub fn mark_player_for_mulligan(&mut self, player_id: PlayerId) -> (r: Result<(), String>)
        ensures
            match r {
                Ok(()) => old(self)@.state is Setup && old(self)@.players.contains_key(player_id)
                    && final(self)@ == (GameView {
                    player_waiting_for_mulligan: Some(player_id),
                    ..old(self)@
                }),
                Err(e) => final(self)@ == old(self)@ && if !(old(self)@.state is Setup) {
                    e@ == "Can only mark player for mulligan during setup phase"@
                } else {
                    !old(self)@.players.contains_key(player_id) && e@ == "Player not found"@
                },
            },
            old(self)@.wf() ==> final(self)@.wf(),
    {
        match self.state {
            GameState::Setup => {},
            _ => {
                return fail("Can only mark player for mulligan during setup phase");
            },
        }
        match self.get_player(player_id) {
            Some(_) => {},
            None => {
                return fail("Player not found");
            },
        }
        self.player_waiting_for_mulligan = Some(player_id);
        Ok(())
    }

    /// A mulligan of a player of the match, counted.
    pub(crate) fn mulligan_of(&mut self, player_id: PlayerId)
        requires
            old(self)@.players.contains_key(player_id),
            old(self)@.mulligan_count < usize::MAX,
        ensures
            final(self)@.is_mulligan_of(old(self)@, player_id),
            final(self)@.players[player_id].hand.len() == min_nat(
                OPENING_HAND as nat,
                old(self)@.players[player_id].deck.len() + old(self)@.players[player_id].hand.len(),
            ),
            (final(self)@.players[player_id].deck + final(self)@.players[player_id].hand).to_multiset() == (old(self)@.players[player_id].deck + old(self)@.players[player_id].hand).to_multiset(),
            old(self)@.wf() ==> final(self)@.wf(),
    {
        let seed = self.next_shuffle_seed();
        match self.take_player(player_id) {
            Some(mut player) => {
                let ghost start = player@;
                player.mulligan(seed);
                let ghost shuffled = player@;
                self.put_player(player_id, player);
                self.mulligan_count = self.mulligan_count + 1;
                proof {
                    assert(self@.players =~= old(self)@.players.insert(player_id, shuffled));
                }
            },
            None => {},
        }
    }

    /// A mulligan: the player's hand goes back into the deck, the deck is
    /// shuffled and seven cards are drawn anew. The mulligan is counted.
    /// The count has to have room for it.
    pub fn perform_mulligan(&mut self, player_id: PlayerId) -> (r: Result<(), String>)
        requires
            old(self)@.mulligan_count < usize::MAX,
        ensures
            match r {
                Ok(()) => old(self)@.state is Setup && old(self)@.players.contains_key(player_id)
                    && final(self)@.is_mulligan_of(old(self)@, player_id) && final(self)@.players[player_id].hand.len() == min_nat(
                    OPENING_HAND as nat,
                    old(self)@.players[player_id].deck.len() + old(self)@.players[player_id].hand.len(),
                ) && (final(self)@.players[player_id].deck + final(self)@.players[player_id].hand).to_multiset() == (old(self)@.players[player_id].deck
                    + old(self)@.players[player_id].hand).to_multiset(),
                Err(e) => final(self)@ == old(self)@ && if !(old(self)@.state is Setup) {
                    e@ == "Can only perform mulligan during setup phase"@
                } else {
                    !old(self)@.players.contains_key(player_id) && e@ == "Player not found"@
                },
            },
            old(self)@.wf() ==> final(self)@.wf(),
    {
        match self.state {
            GameState::Setup => {},
            _ => {
                return fail("Can only perform mulligan during setup phase");
            },
        }
        match self.get_player(player_id) {
            Some(_) => {},
            None => {
                return fail("Player not found");
            },
        }
        self.mulligan_of(player_id);
        Ok(())
    }

    /// Takes the mulligan that was put off, if there is one, and forgets
    /// that it waited. The count has to have room for it.
    pub fn perform_pending_mulligans(&mut self) -> (r: Result<(), String>)
        requires
            old(self)@.mulligan_count < usize::MAX,
        ensures
            match r {
                Ok(()) => old(self)@.state is Setup && match old(self)@.player_waiting_for_mulligan {
                    None => final(self)@ == old(self)@,
                    Some(p) => if old(self)@.players.contains_key(p) {
                        final(self)@.is_mulligan_of(
                            GameView { player_waiting_for_mulligan: None, ..old(self)@ },
                            p,
                        )
                    } else {
                        final(self)@ == (GameView {
                            player_waiting_for_mulligan: None,
                            mulligan_count: (old(self)@.mulligan_count + 1) as usize,
                            ..old(self)@
                        })
                    },
                },
                Err(e) => final(self)@ == old(self)@ && !(old(self)@.state is Setup) && e@
                    == "Can only perform mulligans during setup phase"@,
            },
            old(self)@.wf() ==> final(self)@.wf(),
    {
        match self.state {
            GameState::Setup => {},
            _ => {
                return fail("Can only perform mulligans during setup phase");
            },
        }
        match self.player_waiting_for_mulligan {
            Some(player_id) => {
                self.player_waiting_for_mulligan = None;
                let known = self.get_player(player_id).is_some();
                if known {
                    self.mulligan_of(player_id);
                } else {
                    self.mulligan_count = self.mulligan_count + 1;
                }
            },
            None => {},
        }
        Ok(())
    }

    /// Whether a player holds a basic Pokemon.
    pub(crate) fn holds_basic(&self, player_id: PlayerId) -> (r: bool)
        ensures
            r == (self@.players.contains_key(player_id) && !self@.lacks_basic(player_id)),
    {
        match self.get_player(player_id) {
            Some(player) => player.find_basic_pokemon_in_hand(&self.card_database).len() > 0,
            None => false,
        }
    }

    /// A mulligan of a player, and whether the new hand holds a basic
    /// Pokemon. The count has to have room for the mulligan.
    pub fn perform_mulligan_and_check_basic_pokemon(&mut self, player_id: PlayerId) -> (r: Result<
        bool,
        String,
    >)
        requires
            old(self)@.mulligan_count < usize::MAX,
        ensures
            match r {
                Ok(has_basic) => old(self)@.state is Setup && old(self)@.players.contains_key(
                    player_id,
                ) && final(self)@.is_mulligan_of(old(self)@, player_id) && has_basic == !final(self)@.lacks_basic(player_id),
                Err(e) => final(self)@ == old(self)@ && if !(old(self)@.state is Setup) {
                    e@ == "Can only perform mulligan during setup phase"@
                } else {
                    !old(self)@.players.contains_key(player_id) && e@ == "Player not found"@
                },
            },
            old(self)@.wf() ==> final(self)@.wf(),
    {
        match self.perform_mulligan(player_id) {
            Ok(()) => {
                let has_basic = self.holds_basic(player_id);
                Ok(has_basic)
            },
            Err(e) => Err(e),
        }
    }

    /// The hands that are shown before a mulligan of a player, so that
    /// the mulligan is fair: the hand of that player first, then the hand
    /// of every other player, each with its player.
    pub fn hands_to_reveal(&self, player_id: PlayerId) -> (r: Result<
        Vec<(PlayerId, Vec<CardId>)>,
        String,
    >)
        ensures
            match r {
                Ok(hands) => {
                    &&& self@.state is Setup
                    &&& self@.players.contains_key(player_id)
                    &&& hands@.len() == self@.players.len()
                    &&& hands@[0].0 == player_id
                    &&& forall|i: int|
                        0 <= i < hands@.len() ==> self@.players.contains_key(
                            (#[trigger] hands@[i]).0,
                        ) && hands@[i].1@ == self@.players[hands@[i].0].hand
                    &&& forall|i: int, j: int|
                        0 <= i < j < hands@.len() ==> hands@[i].0 != hands@[j].0
                },
                Err(e) => if !(self@.state is Setup) {
                    e@ == "Can only declare mulligan during setup phase"@
                } else {
                    !self@.players.contains_key(player_id) && e@ == "Player not found"@
                },
            },
    {
        broadcast use vstd::std_specs::hash::group_hash_axioms;

        match self.state {
            GameState::Setup => {},
            _ => {
                return fail("Can only declare mulligan during setup phase");
            },
        }
        let mut hands: Vec<(PlayerId, Vec<CardId>)> = Vec::new();
        match self.get_player(player_id) {
            Some(player) => {
                hands.push((player_id, player.hand.clone()));
            },
            None => {
                return fail("Player not found");
            },
        }
        let ids = keys_of(&self.players);
        proof {
            assert(self@.players.dom() =~= self.players@.dom());
            assert(ids@.to_set().contains(player_id));
        }
        let ghost at = choose|k: int| 0 <= k < ids@.len() && ids@[k] == player_id;
        let mut i: usize = 0;
        while i < ids.len()
            invariant
                i <= ids@.len(),
                ids@.no_duplicates(),
                ids@.to_set() == self@.players.dom(),
                ids@.len() == self@.players.len(),
                0 <= at < ids@.len(),
                ids@[at] == player_id,
                hands@.len() == 1 + i - if at < i { 1int } else { 0int },
                hands@[0].0 == player_id,
                forall|k: int|
                    0 <= k < hands@.len() ==> self@.players.contains_key((#[trigger] hands@[k]).0)
                        && hands@[k].1@ == self@.players[hands@[k].0].hand,
                forall|k: int|
                    1 <= k < hands@.len() ==> ids@.take(i as int).contains((#[trigger] hands@[k]).0)
                        && hands@[k].0 != player_id,
                forall|k: int, l: int| 0 <= k < l < hands@.len() ==> hands@[k].0 != hands@[l].0,
            decreases ids@.len() - i,
        {
            let id = ids[i];
            proof {
                lemma_next_key(ids@, i as int);
                assert(ids@.to_set().contains(id));
            }
            if id != player_id {
                match self.get_player(id) {
                    Some(player) => {
                        hands.push((id, player.hand.clone()));
                    },
                    None => {},
                }
            }
            i += 1;
        }
        Ok(hands)
    }

    /// A mulligan of a player who has declared to hold no basic Pokemon,
    /// and how it came out for that player: `AllWithBasic` if the new hand
    /// holds a basic Pokemon, else `OneWithoutBasic` with the player. The
    /// count has to have room for the mulligan.
    pub fn declare_and_perform_mulligan(&mut self, player_id: PlayerId) -> (r: Result<
        MulliganResult,
        String,
    >)
        requires
            old(self)@.mulligan_count < usize::MAX,
        ensures
            match r {
                Ok(result) => old(self)@.state is Setup && old(self)@.players.contains_key(
                    player_id,
                ) && final(self)@.is_mulligan_of(old(self)@, player_id) && result == if final(self)@.lacks_basic(player_id) {
                    MulliganResult::OneWithoutBasic(player_id)
                } else {
                    MulliganResult::AllWithBasic
                },
                Err(e) => final(self)@ == old(self)@ && if !(old(self)@.state is Setup) {
                    e@ == "Can only perform mulligan during setup phase"@
                } else {
                    !old(self)@.players.contains_key(player_id) && e@ == "Player not found"@
                },
            },
            old(self)@.wf() ==> final(self)@.wf(),
    {
        match self.perform_mulligan_and_check_basic_pokemon(player_id) {
            Ok(has_basic) => {
                if has_basic {
                    Ok(MulliganResult::AllWithBasic)
                } else {
                    Ok(MulliganResult::OneWithoutBasic(player_id))
                }
            },
            Err(e) => Err(e),
        }
    }

    /// A mulligan of every player, and how the round came out: whether
    /// every player, one player or no player holds a basic Pokemon now.
    /// The count has to have room for the mulligans.
    pub fn perform_mulligan_for_both_and_check_basic_pokemon(&mut self) -> (r: Result<
        MulliganResult,
        String,
    >)
        requires
            old(self)@.mulligan_count + old(self)@.players.len() <= usize::MAX,
        ensures
            match r {
                Ok(result) => {
                    &&& old(self)@.state is Setup
                    &&& final(self)@ == (GameView {
                        players: final(self)@.players,
                        mulligan_count: (old(self)@.mulligan_count + old(self)@.players.len()) as usize,
                        shuffle_seed: seed_after_n(
                            old(self)@.shuffle_seed,
                            old(self)@.players.len(),
                        ),
                        ..old(self)@
                    })
                    &&& final(self)@.players.dom() == old(self)@.players.dom()
                    &&& forall|p: PlayerId|
                        old(self)@.players.contains_key(p) ==> is_mulliganed(
                            old(self)@.players[p],
                            #[trigger] final(self)@.players[p],
                        )
                    &&& result == final(self)@.mulligan_outcome()
                },
                Err(e) => final(self)@ == old(self)@ && !(old(self)@.state is Setup) && e@
                    == "Can only perform mulligan during setup phase"@,
            },
            old(self)@.wf() ==> final(self)@.wf(),
    {
        broadcast use vstd::std_specs::hash::group_hash_axioms;

        match self.state {
            GameState::Setup => {},
            _ => {
                return fail("Can only perform mulligan during setup phase");
            },
        }
        let ids = keys_of(&self.players);
        let ghost before = old(self)@;
        let mut first: Option<PlayerId> = None;
        let mut several = false;
        let mut i: usize = 0;
        proof {
            assert(self@.players.dom() =~= self.players@.dom());
        }
        while i < ids.len()
            invariant
                i <= ids@.len(),
                ids@.no_duplicates(),
                ids@.to_set() == before.players.dom(),
                ids@.len() == before.players.len(),
                before == old(self)@,
                before.mulligan_count + before.players.len() <= usize::MAX,
                before.wf() ==> self@.wf(),
                self@ == (GameView {
                    players: self@.players,
                    mulligan_count: (before.mulligan_count + i) as usize,
                    shuffle_seed: seed_after_n(before.shuffle_seed, i as nat),
                    ..before
                }),
                self@.players.dom() == before.players.dom(),
                forall|p: PlayerId|
                    before.players.contains_key(p) && ids@.take(i as int).contains(p)
                        ==> is_mulliganed(before.players[p], #[trigger] self@.players[p]),
                forall|p: PlayerId|
                    before.players.contains_key(p) && !ids@.take(i as int).contains(p)
                        ==> #[trigger] self@.players[p] == before.players[p],
                first is None <==> forall|p: PlayerId|
                    ids@.take(i as int).contains(p) ==> !self@.lacks_basic(p),
                first matches Some(f) ==> ids@.take(i as int).contains(f) && self@.lacks_basic(f),
                several <==> exists|p: PlayerId, q: PlayerId|
                    p != q && ids@.take(i as int).contains(p) && ids@.take(i as int).contains(q)
                        && self@.lacks_basic(p) && self@.lacks_basic(q),
            decreases ids@.len() - i,
        {
            let id = ids[i];
            let ghost cur = self@;
            let ghost done = ids@.take(i as int);
            let ghost next = ids@.take(i as int + 1);
            proof {
                lemma_next_key(ids@, i as int);
                assert(ids@.to_set().contains(id));
                assert(cur.players[id] == before.players[id]);
            }
            self.mulligan_of(id);
            let lacking = !self.holds_basic(id);
            proof {
                assert forall|p: PlayerId| p != id implies self@.lacks_basic(p) == cur.lacks_basic(
                    p,
                ) by {}
                assert forall|p: PlayerId|
                    before.players.contains_key(p) && next.contains(p) implies is_mulliganed(
                    before.players[p],
                    #[trigger] self@.players[p],
                ) by {
                    if p != id {
                        assert(done.contains(p));
                        assert(self@.players[p] == cur.players[p]);
                    }
                }
                assert forall|p: PlayerId|
                    before.players.contains_key(p) && !next.contains(p) implies #[trigger] self@.players[p]
                    == before.players[p] by {
                    assert(!done.contains(p));
                    assert(self@.players[p] == cur.players[p]);
                }
            }
            let ghost first0 = first;
            let ghost several0 = several;
            if lacking {
                match first {
                    None => {
                        first = Some(id);
                    },
                    Some(_) => {
                        several = true;
                    },
                }
            }
            proof {
                assert(next.contains(id));
                if first0 is None {
                    assert forall|p: PlayerId| done.contains(p) implies !self@.lacks_basic(p) by {
                        assert(!cur.lacks_basic(p));
                    }
                }
                if first is None {
                    assert forall|p: PlayerId| next.contains(p) implies !self@.lacks_basic(p) by {
                        if p != id {
                            assert(done.contains(p));
                        }
                    }
                } else {
                    let f = first->Some_0;
                    assert(next.contains(f) && self@.lacks_basic(f));
                }
                if several {
                    if several0 {
                        let (p, q) = choose|p: PlayerId, q: PlayerId|
                            p != q && done.contains(p) && done.contains(q) && cur.lacks_basic(p)
                                && cur.lacks_basic(q);
                        assert(p != q && next.contains(p) && next.contains(q) && self@.lacks_basic(
                            p,
                        ) && self@.lacks_basic(q));
                    } else {
                        let f = first0->Some_0;
                        assert(f != id && next.contains(f) && next.contains(id)
                            && self@.lacks_basic(f) && self@.lacks_basic(id));
                    }
                } else {
                    assert forall|p: PlayerId, q: PlayerId|
                        !(p != q && next.contains(p) && next.contains(q) && self@.lacks_basic(p)
                            && self@.lacks_basic(q)) by {
                        if p != q && next.contains(p) && next.contains(q) && self@.lacks_basic(p)
                            && self@.lacks_basic(q) {
                            if p != id && q != id {
                                assert(done.contains(p) && done.contains(q));
                                assert(cur.lacks_basic(p) && cur.lacks_basic(q));
                            } else if p == id {
                                assert(done.contains(q));
                                assert(cur.lacks_basic(q));
                            } else {
                                assert(done.contains(p));
                                assert(cur.lacks_basic(p));
                            }
                        }
                    }
                }
            }
            i += 1;
        }
        proof {
            assert(ids@.take(ids@.len() as int) =~= ids@);
            assert forall|p: PlayerId| self@.lacks_basic(p) implies ids@.contains(p) by {
                assert(ids@.to_set().contains(p));
            }
            assert forall|p: PlayerId| before.players.contains_key(p) implies ids@.contains(p) by {
                assert(ids@.to_set().contains(p));
            }
        }
        let result = if several {
            MulliganResult::AllWithoutBasic
        } else {
            match first {
                None => MulliganResult::AllWithBasic,
                Some(f) => {
                    proof {
                        let c = choose|p: PlayerId| self@.lacks_basic(p);
                        assert(self@.lacks_basic(f));
                        assert(self@.lacks_basic(c));
                        if c != f {
                            assert(ids@.contains(c) && ids@.contains(f));
                        }
                    }
                    MulliganResult::OneWithoutBasic(f)
                },
            }
        };
        Ok(result)
    }

    /// The number of cards that a player may draw at most as compensation
    /// for the mulligans of the match: the number of those mulligans.
    pub fn get_mulligan_compensation_limit(&self, player_id: PlayerId) -> (r: Result<
        usize,
        String,
    >)
        ensures
            r == Ok::<usize, String>(self@.mulligan_count),
    {
        Ok(self.mulligan_count)
    }

    /// Lets a player draw `card_count` cards as compensation for the
    /// mulligans of the match, once, and no more cards than there were
    /// mulligans.
    pub fn mulligan_compensation(&mut self, player_id: PlayerId, card_count: usize) -> (r: Result<
        Vec<CardId>,
        String,
    >)
        ensures
            match r {
                Ok(cards) => old(self)@.state is Setup && card_count <= old(self)@.mulligan_count
                    && old(self)@.players.contains_key(player_id) && !old(self)@.mulligan_compensated.contains(player_id) && final(self)@ == (GameView {
                    players: old(self)@.players.insert(
                        player_id,
                        old(self)@.players[player_id].after_draw(card_count as nat),
                    ),
                    mulligan_compensated: old(self)@.mulligan_compensated.push(player_id),
                    ..old(self)@
                }) && cards@ == drawn(
                    old(self)@.players[player_id].deck,
                    min_nat(card_count as nat, old(self)@.players[player_id].deck.len()),
                ),
                Err(e) => final(self)@ == old(self)@ && if !(old(self)@.state is Setup) {
                    e@ == "Can only perform mulligan compensation during setup phase"@
                } else if card_count > old(self)@.mulligan_count {
                    e@ == over_compensation_text(card_count, old(self)@.mulligan_count)
                } else if !old(self)@.players.contains_key(player_id) {
                    e@ == "Player not found"@
                } else {
                    old(self)@.mulligan_compensated.contains(player_id) && e@
                        == "Mulligan compensation already taken"@
                },
            },
            old(self)@.wf() ==> final(self)@.wf(),
    {
        match self.state {
            GameState::Setup => {},
            _ => {
                return fail("Can only perform mulligan compensation during setup phase");
            },
        }
        let limit = self.mulligan_count;
        if card_count > limit {
            let mut text = String::from_str("Declared card count ");
            let asked = decimal_string(card_count as u64);
            text.append(asked.as_str());
            text.append(" exceeds limit ");
            let most = decimal_string(limit as u64);
            text.append(most.as_str());
            return Err(text);
        }
        match self.get_player(player_id) {
            Some(_) => {},
            None => {
                return fail("Player not found");
            },
        }
        if contains(&self.mulligan_compensated, player_id) {
            return fail("Mulligan compensation already taken");
        }
        match self.take_player(player_id) {
            Some(mut player) => {
                let cards = player.draw_cards(card_count);
                self.put_player(player_id, player);
                self.mulligan_compensated.push(player_id);
                proof {
                    assert(self@.players =~= old(self)@.players.insert(
                        player_id,
                        old(self)@.players[player_id].after_draw(card_count as nat),
                    ));
                }
                Ok(cards)
            },
            None => fail("Player not found"),
        }
    }

    /// Makes a basic Pokemon from a player's hand their active Pokemon;
    /// the Pokemon that was active goes to the bench.
    pub fn select_active_pokemon(&mut self, player_id: PlayerId, pokemon_id: CardId) -> (r: Result<
        (),
        String,
    >)
        ensures
            match r {
                Ok(()) => old(self)@.state is Setup && old(self)@.players.contains_key(player_id)
                    && active_refusal(
                    old(self)@.players[player_id],
                    old(self)@.card_database,
                    pokemon_id,
                ) is None && final(self)@ == old(self)@.with_player(
                    player_id,
                    old(self)@.players[player_id].activated(pokemon_id),
                ),
                Err(e) => final(self)@ == old(self)@ && if !(old(self)@.state is Setup) {
                    e@ == "Can only select active Pokemon during setup phase"@
                } else if !old(self)@.players.contains_key(player_id) {
                    e@ == "Player not found"@
                } else {
                    Some(e@) == active_refusal(
                        old(self)@.players[player_id],
                        old(self)@.card_database,
                        pokemon_id,
                    )
                },
            },
            old(self)@.wf() ==> final(self)@.wf(),
    {
        broadcast use vstd::std_specs::hash::group_hash_axioms;

        match self.state {
            GameState::Setup => {},
            _ => {
                return fail("Can only select active Pokemon during setup phase");
            },
        }
        let mut player = match self.take_player(player_id) {
            Some(p) => p,
            None => {
                return fail("Player not found");
            },
        };
        let ghost start = player@;
        let refusal: Option<&str> = if !contains(&player.hand, pokemon_id) {
            Some("Selected Pokemon is not in player's hand")
        } else {
            match self.card_database.get(&pokemon_id) {
                None => Some("Card not found in database"),
                Some(card) => {
                    if !card.is_pokemon() {
                        Some("Selected card is not a Pokemon")
                    } else if !card.is_basic_pokemon() {
                        Some("Selected Pokemon is not a Basic Pokemon")
                    } else if !player.set_active_pokemon(pokemon_id) {
                        Some("No room on the bench for the displaced Pokemon")
                    } else {
                        None
                    }
                },
            }
        };
        self.put_player(player_id, player);
        match refusal {
            Some(message) => {
                proof {
                    assert(self@.players =~= old(self)@.players);
                }
                fail(message)
            },
            None => {
                proof {
                    assert(self@.players =~= old(self)@.players.insert(
                        player_id,
                        start.activated(pokemon_id),
                    ));
                }
                Ok(())
            },
        }
    }

    /// Puts Pokemon from a player's hand on their bench, all of them or,
    /// if one of them cannot go there, none.
    pub fn setup_bench(&mut self, player_id: PlayerId, pokemon_ids: Vec<CardId>) -> (r: Result<
        (),
        String,
    >)
        ensures
            match r {
                Ok(()) => {
                    let benched = bench_all(
                        old(self)@.players[player_id],
                        old(self)@.card_database,
                        pokemon_ids@,
                    );
                    &&& old(self)@.state is Setup
                    &&& old(self)@.players.contains_key(player_id)
                    &&& benched is Ok
                    &&& final(self)@ == old(self)@.with_player(player_id, benched->Ok_0)
                },
                Err(e) => final(self)@ == old(self)@ && if !(old(self)@.state is Setup) {
                    e@ == "Can only setup bench during setup phase"@
                } else if !old(self)@.players.contains_key(player_id) {
                    e@ == "Player not found"@
                } else {
                    bench_all(
                        old(self)@.players[player_id],
                        old(self)@.card_database,
                        pokemon_ids@,
                    ) == Err::<PlayerView, Seq<char>>(e@)
                },
            },
            old(self)@.wf() ==> final(self)@.wf(),
    {
        broadcast use vstd::std_specs::hash::group_hash_axioms;

        match self.state {
            GameState::Setup => {},
            _ => {
                return fail("Can only setup bench during setup phase");
            },
        }
        let mut player = match self.take_player(player_id) {
            Some(p) => p,
            None => {
                return fail("Player not found");
            },
        };
        let ghost start = player@;
        let ghost db = self@.card_database;
        let mut hand = player.hand.clone();
        let mut bench = player.bench.clone();
        let mut refusal: Option<&str> = None;
        let mut i: usize = 0;
        proof {
            assert(pokemon_ids@.take(0) =~= Seq::empty());
            assert(hand@ =~= start.hand);
            assert(bench@ =~= start.bench);
        }
        while i < pokemon_ids.len() && refusal.is_none()
            invariant
                i <= pokemon_ids@.len(),
                db == self@.card_database,
                player@ == start,
                match refusal {
                    None => bench_all(start, db, pokemon_ids@.take(i as int)) == Ok::<
                        PlayerView,
                        Seq<char>,
                    >(PlayerView { hand: hand@, bench: bench@, ..start }),
                    Some(message) => bench_all(start, db, pokemon_ids@) == Err::<
                        PlayerView,
                        Seq<char>,
                    >(message@),
                },
                start.wf() ==> bench@.len() <= MAX_BENCH,
            decreases pokemon_ids@.len() - i + if refusal is None { 1nat } else { 0nat },
        {
            let card_id = pokemon_ids[i];
            let ghost sofar = PlayerView { hand: hand@, bench: bench@, ..start };
            proof {
                assert(pokemon_ids@.take(i as int + 1).drop_last() =~= pokemon_ids@.take(i as int));
                assert(pokemon_ids@.take(i as int + 1).last() == card_id);
            }
            if !contains(&hand, card_id) {
                refusal = Some("Selected Pokemon is not in player's hand");
            } else {
                match self.card_database.get(&card_id) {
                    None => {
                        refusal = Some("Card not found in database");
                    },
                    Some(card) => {
                        if !card.is_pokemon() {
                            refusal = Some("Selected card is not a Pokemon");
                        } else if bench.len() >= MAX_BENCH {
                            refusal = Some("Failed to place Pokemon on bench");
                        } else {
                            take_first(&mut hand, card_id);
                            bench.push(card_id);
                            proof {
                                assert((PlayerView { hand: hand@, bench: bench@, ..start })
                                    =~= sofar.benched(card_id));
                            }
                        }
                    },
                }
            }
            proof {
                if refusal is Some {
                    lemma_bench_all_stays_refused(start, db, pokemon_ids@, i as int + 1);
                }
            }
            if refusal.is_none() {
                i += 1;
            }
        }
        match refusal {
            Some(message) => {
                self.put_player(player_id, player);
                proof {
                    assert(self@.players =~= old(self)@.players);
                }
                fail(message)
            },
            None => {
                proof {
                    assert(pokemon_ids@.take(pokemon_ids@.len() as int) =~= pokemon_ids@);
                }
                player.hand = hand;
                player.bench = bench;
                self.put_player(player_id, player);
                proof {
                    assert(self@.players =~= old(self)@.players.insert(
                        player_id,
                        PlayerView { hand: hand@, bench: bench@, ..start },
                    ));
                }
                Ok(())
            },
        }
    }

    /// Sets the prize cards aside: for every player the top cards of the
    /// deck, as many as the rules say or all that the deck holds; the
    /// player has as many prize cards to take as were set aside.
    pub fn place_prize_cards(&mut self) -> (r: Result<(), String>)
        ensures
            match r {
                Ok(()) => old(self)@.state is Setup && final(self)@ == old(self)@.after_step(
                    SetupStep::PlacePrizes(old(self)@.rules.prize_cards),
                ),
                Err(e) => final(self)@ == old(self)@ && !(old(self)@.state is Setup) && e@
                    == "Can only place prize cards during setup phase"@,
            },
            old(self)@.wf() ==> final(self)@.wf(),
    {
        match self.state {
            GameState::Setup => {},
            _ => {
                return fail("Can only place prize cards during setup phase");
            },
        }
        let count = self.rules.prize_cards;
        self.step_all(SetupStep::PlacePrizes(count));
        Ok(())
    }
}

/// Once a card of a batch is refused, the batch is refused for that reason
/// however long it goes on.
pub proof fn lemma_bench_all_stays_refused(
    player: PlayerView,
    db: Map<CardId, Card>,
    cards: Seq<CardId>,
    n: int,
)
    requires
        0 <= n <= cards.len(),
        bench_all(player, db, cards.take(n)) is Err,
    ensures
        bench_all(player, db, cards) == bench_all(player, db, cards.take(n)),
    decreases cards.len() - n,
{
    if n < cards.len() {
        assert(cards.take(n + 1).drop_last() =~= cards.take(n));
        lemma_bench_all_stays_refused(player, db, cards, n + 1);
    } else {
        assert(cards.take(n) =~= cards);
    }
}

} // verus!
