//! The state of a match: its players, the order of their turns, the cards
//! in use and the history of what happened.

use crate::card::Card;
use crate::ids::{
    fresh_id, is_random_uuid, optional_string, optional_text, uuid_string, uuid_text, CardId,
    GameId, PlayerId,
};
use crate::player::{Player, PlayerView, STANDARD_PRIZE_CARDS};
use crate::random::random_seed;
use crate::text::{decimal, decimal_string};
use std::collections::HashMap;
use vstd::prelude::*;

verus! {

/// The phases of a turn.
#[derive(Clone, Copy, Debug, PartialEq, Eq, Structural)]
pub enum GamePhase {
    /// The player draws a card.
    BeginningOfTurn,
    /// The player plays cards, attaches energy and evolves Pokemon.
    Main,
    /// The player attacks.
    Attack,
    /// The turn comes to its end.
    EndOfTurn,
}

/// The state of a match as a whole.
#[derive(Clone, Copy, Debug, PartialEq, Eq, Structural)]
pub enum GameState {
    /// The match is being set up.
    Setup,
    /// The match is being played.
    InProgress,
    /// The match is over.
    Finished { winner: Option<PlayerId> },
    /// The match was given up.
    Cancelled,
}

/// The steps of setting a match up.
#[derive(Clone, Copy, Debug, PartialEq, Eq, Structural)]
pub enum SetupPhase {
    WaitingForTurnOrder,
    WaitingForHands,
    CheckingForBasicPokemon,
    MulliganRequired,
    SelectingActivePokemon,
    SettingUpBench,
    PlacingPrizeCards,
    SetupComplete,
}

/// The rules that a match is played by, set when the match is made.
#[derive(Debug, PartialEq, Eq)]
pub struct GameRules {
    /// The format of the decks.
    pub format: String,
    /// The number of prize cards of each player.
    pub prize_cards: u32,
    /// The number of cards that a hand may hold, if there is a limit.
    pub max_hand_size: Option<u32>,
    /// The seconds that a turn may take, if there is a limit.
    pub turn_time_limit: Option<u32>,
    pub auto_shuffle: bool,
}

/// What happened in a match.
#[derive(Debug, PartialEq, Eq)]
pub enum GameEvent {
    GameStarted,
    TurnStarted { player_id: PlayerId, turn_number: u32 },
    /// A card was drawn; the card is not named where it stays hidden.
    CardDrawn { player_id: PlayerId, card_id: Option<CardId> },
    CardPlayed { player_id: PlayerId, card_id: CardId },
    PokemonBenched { player_id: PlayerId, card_id: CardId },
    EnergyAttached { player_id: PlayerId, energy_id: CardId, pokemon_id: CardId },
    AttackUsed { player_id: PlayerId, pokemon_id: CardId, attack_name: String },
    DamageDealt { player_id: PlayerId, pokemon_id: CardId, damage: u32 },
    PokemonKnockedOut { player_id: PlayerId, pokemon_id: CardId },
    PrizeTaken { player_id: PlayerId },
    DeckShuffled { player_id: PlayerId },
    TurnEnded { player_id: PlayerId },
    GameEnded { winner: Option<PlayerId> },
}

/// A match.
#[derive(Clone, Debug)]
pub struct Game {
    pub id: GameId,
    pub state: GameState,
    pub phase: GamePhase,
    pub players: HashMap<PlayerId, Player>,
    /// The players in the order of their turns.
    pub turn_order: Vec<PlayerId>,
    /// The place in `turn_order` of the player whose turn it is.
    pub current_player_index: usize,
    /// The cards in use, by their identifiers.
    pub card_database: HashMap<CardId, Card>,
    pub turn_number: u32,
    pub rules: GameRules,
    /// What happened so far, oldest first.
    pub history: Vec<GameEvent>,
    /// The player whose mulligan waits for the opponent's setup.
    pub player_waiting_for_mulligan: Option<PlayerId>,
    /// The number of mulligans taken in this match.
    pub mulligan_count: usize,
    /// The players who have drawn their compensation for the mulligans.
    pub mulligan_compensated: Vec<PlayerId>,
    /// The seed of the next shuffle.
    pub shuffle_seed: u64,
}

/// A match as a mathematical value.
#[verifier::ext_equal]
pub struct GameView {
    pub id: GameId,
    pub state: GameState,
    pub phase: GamePhase,
    pub players: Map<PlayerId, PlayerView>,
    pub turn_order: Seq<PlayerId>,
    pub current_player_index: usize,
    pub card_database: Map<CardId, Card>,
    pub turn_number: u32,
    pub rules: GameRules,
    pub history: Seq<GameEvent>,
    pub player_waiting_for_mulligan: Option<PlayerId>,
    pub mulligan_count: usize,
    pub mulligan_compensated: Seq<PlayerId>,
    pub shuffle_seed: u64,
}

impl View for Game {
    type V = GameView;

    open spec fn view(&self) -> GameView {
        GameView {
            id: self.id,
            state: self.state,
            phase: self.phase,
            players: self.players@.map_values(|p: Player| p@),
            turn_order: self.turn_order@,
            current_player_index: self.current_player_index,
            card_database: self.card_database@,
            turn_number: self.turn_number,
            rules: self.rules,
            history: self.history@,
            player_waiting_for_mulligan: self.player_waiting_for_mulligan,
            mulligan_count: self.mulligan_count,
            mulligan_compensated: self.mulligan_compensated@,
            shuffle_seed: self.shuffle_seed,
        }
    }
}

impl Clone for GameRules {
    fn clone(&self) -> (r: Self)
        ensures
            r == *self,
    {
        GameRules {
            format: self.format.clone(),
            prize_cards: self.prize_cards,
            max_hand_size: self.max_hand_size,
            turn_time_limit: self.turn_time_limit,
            auto_shuffle: self.auto_shuffle,
        }
    }
}

impl Default for GameRules {
    /// The rules of a standard match: six prize cards, no limit on the
    /// hand or the time, decks shuffled by the game.
    fn default() -> (r: Self)
        ensures
            r.format@ == "Standard"@,
            r.prize_cards == STANDARD_PRIZE_CARDS,
            r.max_hand_size is None,
            r.turn_time_limit is None,
            r.auto_shuffle,
    {
        GameRules {
            format: String::from_str("Standard"),
            prize_cards: STANDARD_PRIZE_CARDS,
            max_hand_size: None,
            turn_time_limit: None,
            auto_shuffle: true,
        }
    }
}

/// A text that begins with `start` and goes on with the text of an
/// identifier.
fn with_id(start: &str, id: u128) -> (r: String)
    ensures
        r@ == start@ + uuid_text(id),
{
    let mut text = String::from_str(start);
    let one = uuid_string(id);
    text.append(one.as_str());
    text
}

impl GameEvent {
    /// What the event tells in words.
    pub fn describe(&self) -> (r: String)
        ensures
            r@ == event_text(*self),
    {
        match self {
            GameEvent::GameStarted => String::from_str("Game started"),
            GameEvent::TurnStarted { player_id, turn_number } => {
                let mut text = String::from_str("Turn ");
                let number = decimal_string(*turn_number as u64);
                text.append(number.as_str());
                text.append(" started for player ");
                let player = uuid_string(*player_id);
                text.append(player.as_str());
                text
            },
            GameEvent::CardDrawn { player_id, card_id } => {
                let mut text = with_id("Player ", *player_id);
                text.append(" drew a card: ");
                let card = optional_string(*card_id);
                text.append(card.as_str());
                text
            },
            GameEvent::CardPlayed { player_id, card_id } => {
                let mut text = with_id("Player ", *player_id);
                text.append(" played card: ");
                let card = uuid_string(*card_id);
                text.append(card.as_str());
                text
            },
            GameEvent::PokemonBenched { player_id, card_id } => {
                let mut text = with_id("Player ", *player_id);
                text.append(" benched Pokemon: ");
                let card = uuid_string(*card_id);
                text.append(card.as_str());
                text
            },
            GameEvent::EnergyAttached { player_id, energy_id, pokemon_id } => {
                let mut text = with_id("Player ", *player_id);
                text.append(" attached energy ");
                let energy = uuid_string(*energy_id);
                text.append(energy.as_str());
                text.append(" to Pokemon ");
                let pokemon = uuid_string(*pokemon_id);
                text.append(pokemon.as_str());
                text
            },
            GameEvent::AttackUsed { player_id, pokemon_id, attack_name } => {
                let mut text = with_id("Player ", *player_id);
                text.append(" used attack '");
                text.append(attack_name.as_str());
                text.append("' with Pokemon ");
                let pokemon = uuid_string(*pokemon_id);
                text.append(pokemon.as_str());
                text
            },
            GameEvent::DamageDealt { player_id, pokemon_id, damage } => {
                let mut text = with_id("Player ", *player_id);
                text.append(" dealt ");
                let amount = decimal_string(*damage as u64);
                text.append(amount.as_str());
                text.append(" damage to Pokemon ");
                let pokemon = uuid_string(*pokemon_id);
                text.append(pokemon.as_str());
                text
            },
            GameEvent::PokemonKnockedOut { player_id, pokemon_id } => {
                let mut text = with_id("Player ", *player_id);
                text.append(" knocked out Pokemon ");
                let pokemon = uuid_string(*pokemon_id);
                text.append(pokemon.as_str());
                text
            },
            GameEvent::PrizeTaken { player_id } => {
                let mut text = with_id("Player ", *player_id);
                text.append(" took a prize card");
                text
            },
            GameEvent::DeckShuffled { player_id } => {
                let mut text = with_id("Player ", *player_id);
                text.append(" shuffled their deck");
                text
            },
            GameEvent::TurnEnded { player_id } => {
                let mut text = with_id("Player ", *player_id);
                text.append(" ended their turn");
                text
            },
            GameEvent::GameEnded { winner } => {
                let mut text = String::from_str("Game ended. Winner: ");
                let who = optional_string(*winner);
                text.append(who.as_str());
                text
            },
        }
    }

    /// What the event tells in words, behind the time at which it was
    /// noted, in square brackets.
    pub fn describe_at(&self, timestamp: u64) -> (r: String)
        ensures
            r@ == "["@ + decimal(timestamp as nat) + "] "@ + event_text(*self),
    {
        let mut text = String::from_str("[");
        let time = decimal_string(timestamp);
        text.append(time.as_str());
        text.append("] ");
        let words = self.describe();
        text.append(words.as_str());
        text
    }
}

impl Clone for GameEvent {
    fn clone(&self) -> (r: Self)
        ensures
            r == *self,
    {
        match self {
            GameEvent::GameStarted => GameEvent::GameStarted,
            GameEvent::TurnStarted { player_id, turn_number } => GameEvent::TurnStarted {
                player_id: *player_id,
                turn_number: *turn_number,
            },
            GameEvent::CardDrawn { player_id, card_id } => GameEvent::CardDrawn {
                player_id: *player_id,
                card_id: *card_id,
            },
            GameEvent::CardPlayed { player_id, card_id } => GameEvent::CardPlayed {
                player_id: *player_id,
                card_id: *card_id,
            },
            GameEvent::PokemonBenched { player_id, card_id } => GameEvent::PokemonBenched {
                player_id: *player_id,
                card_id: *card_id,
            },
            GameEvent::EnergyAttached {
                player_id,
                energy_id,
                pokemon_id,
            } => GameEvent::EnergyAttached {
                player_id: *player_id,
                energy_id: *energy_id,
                pokemon_id: *pokemon_id,
            },
            GameEvent::AttackUsed { player_id, pokemon_id, attack_name } => GameEvent::AttackUsed {
                player_id: *player_id,
                pokemon_id: *pokemon_id,
                attack_name: attack_name.clone(),
            },
            GameEvent::DamageDealt { player_id, pokemon_id, damage } => GameEvent::DamageDealt {
                player_id: *player_id,
                pokemon_id: *pokemon_id,
                damage: *damage,
            },
            GameEvent::PokemonKnockedOut { player_id, pokemon_id } => GameEvent::PokemonKnockedOut {
                player_id: *player_id,
                pokemon_id: *pokemon_id,
            },
            GameEvent::PrizeTaken { player_id } => GameEvent::PrizeTaken { player_id: *player_id },
            GameEvent::DeckShuffled { player_id } => GameEvent::DeckShuffled {
                player_id: *player_id,
            },
            GameEvent::TurnEnded { player_id } => GameEvent::TurnEnded { player_id: *player_id },
            GameEvent::GameEnded { winner } => GameEvent::GameEnded { winner: *winner },
        }
    }
}

/// The seed that follows `seed`.
pub open spec fn seed_after(seed: u64) -> u64 {
    if seed == u64::MAX {
        0
    } else {
        (seed + 1) as u64
    }
}

/// What an event tells in words.
pub open spec fn event_text(event: GameEvent) -> Seq<char> {
    match event {
        GameEvent::GameStarted => "Game started"@,
        GameEvent::TurnStarted { player_id, turn_number } => "Turn "@ + decimal(turn_number as nat)
            + " started for player "@ + uuid_text(player_id),
        GameEvent::CardDrawn { player_id, card_id } => "Player "@ + uuid_text(player_id)
            + " drew a card: "@ + optional_text(card_id),
        GameEvent::CardPlayed { player_id, card_id } => "Player "@ + uuid_text(player_id)
            + " played card: "@ + uuid_text(card_id),
        GameEvent::PokemonBenched { player_id, card_id } => "Player "@ + uuid_text(player_id)
            + " benched Pokemon: "@ + uuid_text(card_id),
        GameEvent::EnergyAttached { player_id, energy_id, pokemon_id } => "Player "@ + uuid_text(
            player_id,
        ) + " attached energy "@ + uuid_text(energy_id) + " to Pokemon "@ + uuid_text(pokemon_id),
        GameEvent::AttackUsed { player_id, pokemon_id, attack_name } => "Player "@ + uuid_text(
            player_id,
        ) + " used attack '"@ + attack_name@ + "' with Pokemon "@ + uuid_text(pokemon_id),
        GameEvent::DamageDealt { player_id, pokemon_id, damage } => "Player "@ + uuid_text(
            player_id,
        ) + " dealt "@ + decimal(damage as nat) + " damage to Pokemon "@ + uuid_text(pokemon_id),
        GameEvent::PokemonKnockedOut { player_id, pokemon_id } => "Player "@ + uuid_text(player_id)
            + " knocked out Pokemon "@ + uuid_text(pokemon_id),
        GameEvent::PrizeTaken { player_id } => "Player "@ + uuid_text(player_id)
            + " took a prize card"@,
        GameEvent::DeckShuffled { player_id } => "Player "@ + uuid_text(player_id)
            + " shuffled their deck"@,
        GameEvent::TurnEnded { player_id } => "Player "@ + uuid_text(player_id)
            + " ended their turn"@,
        GameEvent::GameEnded { winner } => "Game ended. Winner: "@ + optional_text(winner),
    }
}

/// The entry of a table under a key, to be changed in place:
/// `std::collections::HashMap::get_mut`. The entry is the one that the
/// table holds under the key; what the caller makes of it is what the
/// table holds under the key afterwards, and nothing else changes. A key
/// without an entry gives nothing, and the table stays as it is.
#[verifier::external_body]
pub(crate) fn entry_mut<'a>(table: &'a mut HashMap<PlayerId, Player>, key: PlayerId) -> (r: Option<
    &'a mut Player,
>)
    ensures
        match r {
            Some(entry) => old(table)@.contains_key(key) && *entry == old(table)@[key] && final(table)@ == old(table)@.insert(key, *final(entry)),
            None => !old(table)@.contains_key(key) && final(table)@ == old(table)@,
        },
{
    table.get_mut(&key)
}

/// The views of the players of a table follow the table: they change
/// where the table changes, and only there.
pub proof fn lemma_views_of_players(players: Map<PlayerId, Player>)
    ensures
        forall|id: PlayerId, p: Player|
            #![trigger players.insert(id, p)]
            players.insert(id, p).map_values(|q: Player| q@) == players.map_values(
                |q: Player| q@,
            ).insert(id, p@),
{
    assert forall|id: PlayerId, p: Player| #![trigger players.insert(id, p)] players.insert(
        id,
        p,
    ).map_values(|q: Player| q@) == players.map_values(|q: Player| q@).insert(id, p@) by {
        assert(players.insert(id, p).map_values(|q: Player| q@) =~= players.map_values(
            |q: Player| q@,
        ).insert(id, p@));
    }
}

/// A failure with a message.
pub fn fail<T>(message: &str) -> (r: Result<T, String>)
    ensures
        r matches Err(e) && e@ == message@,
{
    Err(String::from_str(message))
}

impl GameView {
    /// The player whose turn it is, if the index names one.
    pub open spec fn current_player_id(self) -> Option<PlayerId> {
        if self.current_player_index < self.turn_order.len() {
            Some(self.turn_order[self.current_player_index as int])
        } else {
            None
        }
    }

    /// Whether it is the turn of `player_id`.
    pub open spec fn is_player_turn(self, player_id: PlayerId) -> bool {
        self.current_player_id() == Some(player_id)
    }

    /// The match with one more event at the end of its history.
    pub open spec fn with_event(self, event: GameEvent) -> GameView {
        GameView { history: self.history.push(event), ..self }
    }

    /// The match with `player` in the place of the player `player_id`.
    pub open spec fn with_player(self, player_id: PlayerId, player: PlayerView) -> GameView {
        GameView { players: self.players.insert(player_id, player), ..self }
    }

    /// What holds of a match at all times: while the match is being
    /// played the index names a player of the turn order, and no bench
    /// holds more than it may.
    pub open spec fn wf(self) -> bool {
        &&& self.state is InProgress ==> self.current_player_index < self.turn_order.len()
        &&& forall|p: PlayerId| self.players.contains_key(p) ==> (#[trigger] self.players[p]).wf()
    }
}

impl Game {
    /// A match in setup with a fresh identifier, the standard rules and no
    /// players.
    pub fn new() -> (r: Self)
        ensures
            is_random_uuid(r.id),
            r@.state == GameState::Setup,
            r@.phase == GamePhase::BeginningOfTurn,
            r@.players == Map::<PlayerId, PlayerView>::empty(),
            r@.turn_order == Seq::<PlayerId>::empty(),
            r@.current_player_index == 0,
            r@.card_database == Map::<CardId, Card>::empty(),
            r@.turn_number == 1,
            r@.rules.format@ == "Standard"@,
            r@.rules.prize_cards == STANDARD_PRIZE_CARDS,
            r@.rules.max_hand_size is None,
            r@.rules.turn_time_limit is None,
            r@.rules.auto_shuffle,
            r@.history == Seq::<GameEvent>::empty(),
            r@.player_waiting_for_mulligan is None,
            r@.mulligan_count == 0,
            r@.mulligan_compensated == Seq::<PlayerId>::empty(),
            r@.wf(),
    {
        let r = Game::with_rules(GameRules::default());
        r
    }

    /// A match in setup with a fresh identifier, the given rules and no
    /// players.
    pub fn with_rules(rules: GameRules) -> (r: Self)
        ensures
            is_random_uuid(r.id),
            r@ == (GameView {
                id: r.id,
                state: GameState::Setup,
                phase: GamePhase::BeginningOfTurn,
                players: Map::empty(),
                turn_order: Seq::empty(),
                current_player_index: 0,
                card_database: Map::empty(),
                turn_number: 1,
                rules,
                history: Seq::empty(),
                player_waiting_for_mulligan: None,
                mulligan_count: 0,
                mulligan_compensated: Seq::empty(),
                shuffle_seed: r.shuffle_seed,
            }),
            r@.wf(),
    {
        let r = Game {
            id: fresh_id(),
            state: GameState::Setup,
            phase: GamePhase::BeginningOfTurn,
            players: HashMap::new(),
            turn_order: Vec::new(),
            current_player_index: 0,
            card_database: HashMap::new(),
            turn_number: 1,
            rules,
            history: Vec::new(),
            player_waiting_for_mulligan: None,
            mulligan_count: 0,
            mulligan_compensated: Vec::new(),
            shuffle_seed: random_seed(),
        };
        proof {
            assert(r@.players =~= Map::empty());
        }
        r
    }

    /// Sets the seed of the next shuffle, so that the shuffles of the match
    /// can be repeated.
    pub fn set_shuffle_seed(&mut self, seed: u64)
        ensures
            final(self)@ == (GameView { shuffle_seed: seed, ..old(self)@ }),
    {
        self.shuffle_seed = seed;
    }

    /// Hands out the seed of the next shuffle and moves on to the seed
    /// after it.
    pub(crate) fn next_shuffle_seed(&mut self) -> (seed: u64)
        ensures
            seed == old(self)@.shuffle_seed,
            final(self)@ == (GameView {
                shuffle_seed: seed_after(old(self)@.shuffle_seed),
                ..old(self)@
            }),
    {
        let seed = self.shuffle_seed;
        self.shuffle_seed = if seed == u64::MAX {
            0
        } else {
            seed + 1
        };
        seed
    }

    /// Enters a card into the database under its identifier.
    pub fn add_card_to_database(&mut self, card: Card)
        ensures
            final(self)@ == (GameView {
                card_database: old(self)@.card_database.insert(card.id, card),
                ..old(self)@
            }),
    {
        broadcast use vstd::std_specs::hash::group_hash_axioms;

        self.card_database.insert(card.id, card);
    }

    /// The card that the database holds under an identifier.
    pub fn get_card(&self, card_id: CardId) -> (r: Option<&Card>)
        ensures
            r == if self@.card_database.contains_key(card_id) {
                Some(&self@.card_database[card_id])
            } else {
                None
            },
    {
        broadcast use vstd::std_specs::hash::group_hash_axioms;

        self.card_database.get(&card_id)
    }

    /// Appends an event to the history.
    pub fn add_event(&mut self, event: GameEvent)
        ensures
            final(self)@ == old(self)@.with_event(event),
    {
        self.history.push(event);
    }

    /// The history, oldest event first.
    pub fn get_history(&self) -> (r: &[GameEvent])
        ensures
            r@ == self@.history,
    {
        self.history.as_slice()
    }

    /// The players by their identifiers.
    pub fn get_players(&self) -> (r: &HashMap<PlayerId, Player>)
        ensures
            *r == self.players,
    {
        &self.players
    }

    /// The player under an identifier.
    pub fn get_player(&self, player_id: PlayerId) -> (r: Option<&Player>)
        ensures
            match r {
                Some(p) => self@.players.contains_key(player_id) && p@ == self@.players[player_id],
                None => !self@.players.contains_key(player_id),
            },
    {
        broadcast use vstd::std_specs::hash::group_hash_axioms;

        self.players.get(&player_id)
    }

    /// The player under an identifier, to be changed in place.
    pub fn get_player_mut(&mut self, player_id: PlayerId) -> (r: Option<&mut Player>)
        ensures
            match r {
                Some(p) => old(self)@.players.contains_key(player_id) && p@ == old(self)@.players[player_id] && final(self)@ == old(self)@.with_player(
                    player_id,
                    (*final(p))@,
                ),
                None => !old(self)@.players.contains_key(player_id) && final(self)@ == old(self)@,
            },
    {
        proof {
            lemma_views_of_players(self.players@);
        }
        entry_mut(&mut self.players, player_id)
    }

    /// Takes a player out of the match, to be put back after a change.
    pub(crate) fn take_player(&mut self, player_id: PlayerId) -> (r: Option<Player>)
        ensures
            match r {
                Some(p) => old(self)@.players.contains_key(player_id) && p@ == old(self)@.players[player_id] && final(self)@ == (GameView {
                    players: old(self)@.players.remove(player_id),
                    ..old(self)@
                }),
                None => !old(self)@.players.contains_key(player_id) && final(self)@ == old(self)@,
            },
    {
        broadcast use vstd::std_specs::hash::group_hash_axioms;

        let r = self.players.remove(&player_id);
        proof {
            if r is Some {
                assert(self@.players =~= old(self)@.players.remove(player_id));
            } else {
                assert(self@.players =~= old(self)@.players);
            }
        }
        r
    }

    /// Puts a player into the match under an identifier.
    pub(crate) fn put_player(&mut self, player_id: PlayerId, player: Player)
        ensures
            final(self)@ == old(self)@.with_player(player_id, player@),
    {
        broadcast use vstd::std_specs::hash::group_hash_axioms;

        self.players.insert(player_id, player);
        proof {
            assert(self@.players =~= old(self)@.players.insert(player_id, player@));
        }
    }

    /// The player whose turn it is.
    pub fn get_current_player_id(&self) -> (r: Result<PlayerId, String>)
        ensures
            match r {
                Ok(id) => self@.current_player_id() == Some(id),
                Err(e) => self@.current_player_id() is None && e@ == "No current player"@,
            },
    {
        if self.current_player_index < self.turn_order.len() {
            Ok(self.turn_order[self.current_player_index])
        } else {
            fail("No current player")
        }
    }

    /// The player whose turn it is.
    pub fn get_current_player(&self) -> (r: Result<&Player, String>)
        ensures
            match r {
                Ok(p) => self@.current_player_id() matches Some(id) && self@.players.contains_key(
                    id,
                ) && p@ == self@.players[id],
                Err(e) => match self@.current_player_id() {
                    None => e@ == "No current player"@,
                    Some(id) => !self@.players.contains_key(id) && e@
                        == "Current player not found"@,
                },
            },
    {
        broadcast use vstd::std_specs::hash::group_hash_axioms;

        if self.current_player_index < self.turn_order.len() {
            let id = self.turn_order[self.current_player_index];
            match self.players.get(&id) {
                Some(p) => Ok(p),
                None => fail("Current player not found"),
            }
        } else {
            fail("No current player")
        }
    }

    /// The player whose turn it is, to be changed in place.
    pub fn get_current_player_mut(&mut self) -> (r: Result<&mut Player, String>)
        ensures
            match r {
                Ok(p) => old(self)@.current_player_id() matches Some(id) && old(self)@.players.contains_key(id) && p@ == old(self)@.players[id] && final(self)@ == old(self)@.with_player(id, (*final(p))@),
                Err(e) => final(self)@ == old(self)@ && match old(self)@.current_player_id() {
                    None => e@ == "No current player"@,
                    Some(id) => !old(self)@.players.contains_key(id) && e@
                        == "Current player not found"@,
                },
            },
    {
        proof {
            lemma_views_of_players(self.players@);
        }
        if self.current_player_index < self.turn_order.len() {
            let id = self.turn_order[self.current_player_index];
            match entry_mut(&mut self.players, id) {
                Some(p) => Ok(p),
                None => fail("Current player not found"),
            }
        } else {
            fail("No current player")
        }
    }

    /// Whether it is the turn of a player.
    pub fn is_player_turn(&self, player_id: PlayerId) -> (r: bool)
        ensures
            r == self@.is_player_turn(player_id),
    {
        if self.current_player_index < self.turn_order.len() {
            self.turn_order[self.current_player_index] == player_id
        } else {
            false
        }
    }

    /// Ends the match with the given winner and records the end.
    pub fn end_game(&mut self, winner: Option<PlayerId>)
        ensures
            final(self)@ == (GameView {
                state: GameState::Finished { winner },
                history: old(self)@.history.push(GameEvent::GameEnded { winner }),
                ..old(self)@
            }),
            old(self)@.wf() ==> final(self)@.wf(),
    {
        self.state = GameState::Finished { winner };
        self.add_event(GameEvent::GameEnded { winner });
    }

    /// Gives the match up.
    pub fn cancel_game(&mut self)
        ensures
            final(self)@ == (GameView { state: GameState::Cancelled, ..old(self)@ }),
            old(self)@.wf() ==> final(self)@.wf(),
    {
        self.state = GameState::Cancelled;
    }
}

impl Default for Game {
    fn default() -> (r: Self)
        ensures
            r@.state == GameState::Setup,
            r@.players == Map::<PlayerId, PlayerView>::empty(),
            r@.turn_order == Seq::<PlayerId>::empty(),
            r@.history == Seq::<GameEvent>::empty(),
            r@.wf(),
    {
        Game::new()
    }
}

} // verus!
