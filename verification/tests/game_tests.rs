use ptcg_core::game::GameEvent;
use ptcg_core::{
    Card, CardId, CardRarity, CardType, Deck, EnergyType, EvolutionStage, Game, GamePhase,
    GameRules, GameState, MulliganResult, Player, PlayerId,
};

fn new_id() -> u128 {
    uuid::Uuid::new_v4().as_u128()
}

fn pokemon_card(name: &str, stage: EvolutionStage) -> Card {
    Card::new(
        name.to_string(),
        CardType::Pokemon {
            species: name.to_string(),
            hp: 60,
            retreat_cost: 1,
            weakness: None,
            resistance: None,
            stage,
            evolves_from: None,
        },
        "Base Set".to_string(),
        "001".to_string(),
        CardRarity::Common,
    )
}

fn energy_card() -> Card {
    Card::new(
        "Lightning Energy".to_string(),
        CardType::Energy { energy_type: EnergyType::Lightning, is_basic: true },
        "Base Set".to_string(),
        "100".to_string(),
        CardRarity::Common,
    )
}

/// A match in setup with two players, each with a deck of `deck_size`
/// energy cards.
fn two_player_game(deck_size: usize) -> (Game, PlayerId, PlayerId) {
    let mut game = Game::new();
    let alice = Player::new("Alice".to_string());
    let bob = Player::new("Bob".to_string());
    let (a, b) = (alice.id, bob.id);
    game.add_player(alice).unwrap();
    game.add_player(bob).unwrap();
    for id in [a, b] {
        let deck: Vec<CardId> = (0..deck_size).map(|_| new_id()).collect();
        game.players.get_mut(&id).unwrap().set_deck(deck);
    }
    (game, a, b)
}

#[test]
fn test_mark_player_for_mulligan() {
    let mut game = Game::new();
    let player = Player::new("Alice".to_string());
    let player_id = player.id;
    assert!(game.add_player(player).is_ok());

    assert!(game.mark_player_for_mulligan(player_id).is_ok());
    assert_eq!(game.player_waiting_for_mulligan, Some(player_id));

    assert!(game.mark_player_for_mulligan(player_id).is_ok());
    assert_eq!(game.player_waiting_for_mulligan, Some(player_id));
}

#[test]
fn test_mark_player_for_mulligan_wrong_phase() {
    let mut game = Game::new();
    let player = Player::new("Alice".to_string());
    let player_id = player.id;
    assert!(game.add_player(player).is_ok());

    game.state = GameState::InProgress;

    assert!(game.mark_player_for_mulligan(player_id).is_err());
}

#[test]
fn test_mark_player_for_mulligan_nonexistent_player() {
    let mut game = Game::new();
    let fake_player_id = new_id();

    assert!(game.mark_player_for_mulligan(fake_player_id).is_err());
}

#[test]
fn test_perform_pending_mulligans() {
    let mut game = Game::new();
    let player = Player::new("Alice".to_string());
    let player_id = player.id;
    assert!(game.add_player(player).is_ok());

    assert!(game.mark_player_for_mulligan(player_id).is_ok());

    assert!(game.perform_pending_mulligans().is_ok());

    assert_eq!(game.player_waiting_for_mulligan, None);
    assert_eq!(game.mulligan_count, 1);
}

#[test]
fn test_perform_mulligan_and_check_basic_pokemon() {
    let mut game = Game::new();
    let player = Player::new("Alice".to_string());
    let player_id = player.id;
    assert!(game.add_player(player).is_ok());

    let result = game.perform_mulligan_and_check_basic_pokemon(player_id);
    assert!(result.is_ok());
    assert_eq!(game.mulligan_count, 1);
}

#[test]
fn test_perform_mulligan_for_both_and_check_basic_pokemon() {
    let mut game = Game::new();
    let player1 = Player::new("Alice".to_string());
    let player2 = Player::new("Bob".to_string());
    assert!(game.add_player(player1).is_ok());
    assert!(game.add_player(player2).is_ok());

    let result = game.perform_mulligan_for_both_and_check_basic_pokemon();
    assert!(result.is_ok());
}

#[test]
fn test_game_creation() {
    let game = Game::new();
    assert_eq!(game.state, GameState::Setup);
    assert_eq!(game.phase, GamePhase::BeginningOfTurn);
    assert_eq!(game.turn_number, 1);
}

#[test]
fn test_game_with_rules() {
    let rules = GameRules {
        format: "Expanded".to_string(),
        prize_cards: 6,
        max_hand_size: Some(7),
        turn_time_limit: Some(50),
        auto_shuffle: false,
    };

    let game = Game::with_rules(rules.clone());
    assert_eq!(game.rules, rules);
}

#[test]
fn test_add_player() {
    let mut game = Game::new();
    let player = Player::new("Alice".to_string());
    let player_id = player.id;
    assert!(game.add_player(player).is_ok());

    assert!(game.players.contains_key(&player_id));
    assert_eq!(game.players.get(&player_id).unwrap().name, "Alice");
}

#[test]
fn test_set_turn_order() {
    let mut game = Game::new();
    let player1 = Player::new("Alice".to_string());
    let player2 = Player::new("Bob".to_string());

    assert!(game.add_player(player1).is_ok());
    assert!(game.add_player(player2).is_ok());

    assert!(game.determine_turn_order().is_ok());

    assert_eq!(game.turn_order.len(), 2);
    assert_eq!(game.current_player_index, 0);
}

#[test]
fn a_match_takes_two_players_while_it_is_set_up() {
    let mut game = Game::with_rules(GameRules {
        format: "Standard".to_string(),
        prize_cards: 4,
        max_hand_size: None,
        turn_time_limit: None,
        auto_shuffle: true,
    });
    let alice = Player::new("Alice".to_string());
    let a = alice.id;
    assert_eq!(game.add_player(alice), Ok(()));
    assert_eq!(game.players[&a].prize_cards, 4);
    assert_eq!(game.add_player(Player::new("Bob".to_string())), Ok(()));
    assert_eq!(
        game.add_player(Player::new("Carol".to_string())),
        Err("Maximum of 2 players allowed".to_string())
    );
    game.state = GameState::InProgress;
    assert_eq!(
        game.add_player(Player::new("Dave".to_string())),
        Err("Cannot add players after game has started".to_string())
    );
    assert_eq!(game.players.len(), 2);
}

#[test]
fn a_deck_is_handed_over_shuffled() {
    let (mut game, a, _) = two_player_game(0);
    let mut deck = Deck::new("D".to_string(), "Standard".to_string());
    let x = new_id();
    let y = new_id();
    deck.add_card(x, 3);
    deck.add_card(y, 2);
    game.set_shuffle_seed(5);
    assert_eq!(game.set_player_deck(a, deck), Ok(()));
    assert_eq!(game.shuffle_seed, 6);
    let mut pile = game.players[&a].deck.clone();
    pile.sort();
    let mut expected = vec![x, x, x, y, y];
    expected.sort();
    assert_eq!(pile, expected);
    assert_eq!(
        game.set_player_deck(new_id(), Deck::new("E".to_string(), "Standard".to_string())),
        Err("Player not found".to_string())
    );
    game.state = GameState::Cancelled;
    assert_eq!(
        game.set_player_deck(a, Deck::new("E".to_string(), "Standard".to_string())),
        Err("Cannot set deck after game has started".to_string())
    );
}

#[test]
fn the_setup_needs_two_players_with_decks() {
    let mut game = Game::new();
    assert_eq!(game.start_setup(), Err("Need at least 2 players to start setup".to_string()));
    let alice = Player::new("Alice".to_string());
    let bob = Player::new("Bob".to_string());
    let (a, b) = (alice.id, bob.id);
    game.add_player(alice).unwrap();
    game.add_player(bob).unwrap();
    assert_eq!(game.start_setup(), Err("All players must have decks".to_string()));
    game.players.get_mut(&a).unwrap().set_deck(vec![1]);
    assert_eq!(game.start_setup(), Err("All players must have decks".to_string()));
    game.players.get_mut(&b).unwrap().set_deck(vec![2]);
    assert_eq!(game.start_setup(), Ok(()));
    game.state = GameState::InProgress;
    assert_eq!(game.start_setup(), Err("Game is not in setup state".to_string()));
}

#[test]
fn the_turn_order_holds_every_player_once() {
    let (mut game, a, b) = two_player_game(3);
    let mut firsts = Vec::new();
    for seed in 0..16u64 {
        game.set_shuffle_seed(seed);
        assert_eq!(game.determine_turn_order(), Ok(()));
        let mut order = game.turn_order.clone();
        firsts.push(order[0]);
        order.sort();
        let mut expected = vec![a, b];
        expected.sort();
        assert_eq!(order, expected);
    }
    assert!(firsts.contains(&a));
    assert!(firsts.contains(&b));

    let mut lonely = Game::new();
    lonely.add_player(Player::new("Alice".to_string())).unwrap();
    assert_eq!(
        lonely.determine_turn_order(),
        Err("Need at least 2 players to determine turn order".to_string())
    );
    assert!(lonely.turn_order.is_empty());
    lonely.state = GameState::Finished { winner: None };
    assert_eq!(
        lonely.determine_turn_order(),
        Err("Can only determine turn order during setup phase".to_string())
    );
}

#[test]
fn opening_hands_hold_seven_cards() {
    let (mut game, a, b) = two_player_game(10);
    assert_eq!(
        game.deal_opening_hands(),
        Err("Turn order must be determined before dealing hands".to_string())
    );
    game.determine_turn_order().unwrap();
    game.players.get_mut(&b).unwrap().set_deck(vec![1, 2, 3]);
    assert_eq!(game.deal_opening_hands(), Ok(()));
    assert_eq!(game.players[&a].hand.len(), 7);
    assert_eq!(game.players[&a].deck.len(), 3);
    assert_eq!(game.players[&b].hand, vec![3, 2, 1]);
    game.state = GameState::InProgress;
    assert_eq!(
        game.deal_opening_hands(),
        Err("Can only deal opening hands during setup phase".to_string())
    );
}

#[test]
fn players_without_a_basic_pokemon_are_found() {
    let (mut game, a, b) = two_player_game(0);
    let basic = pokemon_card("Pikachu", EvolutionStage::Basic);
    let evolved = pokemon_card("Raichu", EvolutionStage::Stage1);
    let (basic_id, evolved_id) = (basic.id, evolved.id);
    game.add_card_to_database(basic);
    game.add_card_to_database(evolved);
    game.players.get_mut(&a).unwrap().hand = vec![evolved_id, basic_id];
    game.players.get_mut(&b).unwrap().hand = vec![evolved_id];
    assert_eq!(game.check_for_basic_pokemon(), Ok(vec![b]));
    assert_eq!(game.declare_no_basic_pokemon(), Ok((vec![b], false)));
    game.players.get_mut(&a).unwrap().hand = vec![];
    let (mut ids, all) = game.declare_no_basic_pokemon().unwrap();
    ids.sort();
    let mut both = vec![a, b];
    both.sort();
    assert_eq!(ids, both);
    assert!(all);
    assert_eq!(game.get_card(basic_id).unwrap().name, "Pikachu");
    assert!(game.get_card(new_id()).is_none());
    game.state = GameState::InProgress;
    assert_eq!(
        game.check_for_basic_pokemon(),
        Err("Can only check for basic Pokemon during setup phase".to_string())
    );
    assert_eq!(
        game.declare_no_basic_pokemon(),
        Err("Can only declare no basic Pokemon during setup phase".to_string())
    );
}

#[test]
fn a_mulligan_loses_no_card_and_is_counted() {
    let (mut game, a, _) = two_player_game(0);
    game.players.get_mut(&a).unwrap().set_deck((1..=12).collect());
    game.players.get_mut(&a).unwrap().draw_cards(7);
    assert_eq!(game.perform_mulligan(a), Ok(()));
    assert_eq!(game.mulligan_count, 1);
    assert_eq!(game.players[&a].hand.len(), 7);
    assert_eq!(game.players[&a].deck.len(), 5);
    let mut all: Vec<CardId> =
        game.players[&a].deck.iter().chain(game.players[&a].hand.iter()).cloned().collect();
    all.sort();
    assert_eq!(all, (1..=12).collect::<Vec<CardId>>());

    // with fewer than seven cards the hand takes them all
    game.players.get_mut(&a).unwrap().set_deck(vec![1, 2]);
    game.players.get_mut(&a).unwrap().hand = vec![3, 4, 5];
    assert_eq!(game.perform_mulligan(a), Ok(()));
    assert_eq!(game.mulligan_count, 2);
    assert_eq!(game.players[&a].hand.len(), 5);
    assert!(game.players[&a].deck.is_empty());

    assert_eq!(game.perform_mulligan(new_id()), Err("Player not found".to_string()));
    assert_eq!(game.mulligan_count, 2);
    game.state = GameState::InProgress;
    assert_eq!(
        game.perform_mulligan(a),
        Err("Can only perform mulligan during setup phase".to_string())
    );
}

#[test]
fn a_round_of_mulligans_tells_who_holds_no_basic() {
    let basic = pokemon_card("Pikachu", EvolutionStage::Basic);
    let basic_id = basic.id;

    let (mut game, a, b) = two_player_game(0);
    game.add_card_to_database(basic);
    assert_eq!(
        game.perform_mulligan_for_both_and_check_basic_pokemon(),
        Ok(MulliganResult::AllWithoutBasic)
    );
    assert_eq!(game.mulligan_count, 2);

    game.players.get_mut(&a).unwrap().set_deck(vec![basic_id]);
    assert_eq!(
        game.perform_mulligan_for_both_and_check_basic_pokemon(),
        Ok(MulliganResult::OneWithoutBasic(b))
    );
    assert_eq!(game.mulligan_count, 4);

    game.players.get_mut(&b).unwrap().set_deck(vec![basic_id]);
    assert_eq!(
        game.perform_mulligan_for_both_and_check_basic_pokemon(),
        Ok(MulliganResult::AllWithBasic)
    );
    assert_eq!(game.declare_and_perform_mulligan(a), Ok(MulliganResult::AllWithBasic));
    game.players.get_mut(&a).unwrap().hand.clear();
    assert_eq!(game.declare_and_perform_mulligan(a), Ok(MulliganResult::OneWithoutBasic(a)));
    assert_eq!(game.perform_mulligan_and_check_basic_pokemon(b), Ok(true));
    assert_eq!(game.mulligan_count, 9);
    game.state = GameState::Cancelled;
    assert_eq!(
        game.perform_mulligan_for_both_and_check_basic_pokemon(),
        Err("Can only perform mulligan during setup phase".to_string())
    );
    assert_eq!(
        game.perform_pending_mulligans(),
        Err("Can only perform mulligans during setup phase".to_string())
    );
}

#[test]
fn compensation_is_drawn_once_and_within_the_limit() {
    let (mut game, a, b) = two_player_game(10);
    assert_eq!(game.get_mulligan_compensation_limit(a), Ok(0));
    assert_eq!(
        game.mulligan_compensation(a, 1),
        Err("Declared card count 1 exceeds limit 0".to_string())
    );
    game.perform_mulligan(b).unwrap();
    game.perform_mulligan(b).unwrap();
    assert_eq!(game.get_mulligan_compensation_limit(a), Ok(2));
    assert_eq!(
        game.mulligan_compensation(a, 13),
        Err("Declared card count 13 exceeds limit 2".to_string())
    );
    assert_eq!(game.mulligan_compensation(new_id(), 1), Err("Player not found".to_string()));
    let top: Vec<CardId> = game.players[&a].deck.iter().rev().take(2).cloned().collect();
    assert_eq!(game.mulligan_compensation(a, 2), Ok(top.clone()));
    assert_eq!(game.players[&a].hand, top);
    assert_eq!(game.players[&a].deck.len(), 8);
    assert_eq!(
        game.mulligan_compensation(a, 1),
        Err("Mulligan compensation already taken".to_string())
    );
    assert_eq!(game.players[&a].deck.len(), 8);
    game.state = GameState::InProgress;
    assert_eq!(
        game.mulligan_compensation(b, 1),
        Err("Can only perform mulligan compensation during setup phase".to_string())
    );
}

#[test]
fn only_a_basic_pokemon_from_the_hand_becomes_active() {
    let (mut game, a, _) = two_player_game(0);
    let basic = pokemon_card("Pikachu", EvolutionStage::Basic);
    let other = pokemon_card("Eevee", EvolutionStage::Basic);
    let evolved = pokemon_card("Raichu", EvolutionStage::Stage1);
    let energy = energy_card();
    let (basic_id, other_id, evolved_id, energy_id) = (basic.id, other.id, evolved.id, energy.id);
    let unknown = new_id();
    game.add_card_to_database(basic);
    game.add_card_to_database(other);
    game.add_card_to_database(evolved);
    game.add_card_to_database(energy);
    game.players.get_mut(&a).unwrap().hand = vec![basic_id, evolved_id, energy_id, unknown, other_id];

    assert_eq!(
        game.select_active_pokemon(a, evolved_id),
        Err("Selected Pokemon is not a Basic Pokemon".to_string())
    );
    assert_eq!(
        game.select_active_pokemon(a, energy_id),
        Err("Selected card is not a Pokemon".to_string())
    );
    assert_eq!(
        game.select_active_pokemon(a, unknown),
        Err("Card not found in database".to_string())
    );
    assert_eq!(
        game.select_active_pokemon(a, new_id()),
        Err("Selected Pokemon is not in player's hand".to_string())
    );
    assert_eq!(game.select_active_pokemon(new_id(), basic_id), Err("Player not found".to_string()));
    assert_eq!(game.players[&a].hand.len(), 5);
    assert_eq!(game.players[&a].active_pokemon, None);

    assert_eq!(game.select_active_pokemon(a, basic_id), Ok(()));
    assert_eq!(game.players[&a].active_pokemon, Some(basic_id));
    assert_eq!(game.players[&a].hand, vec![evolved_id, energy_id, unknown, other_id]);

    assert_eq!(game.select_active_pokemon(a, other_id), Ok(()));
    assert_eq!(game.players[&a].active_pokemon, Some(other_id));
    assert_eq!(game.players[&a].bench, vec![basic_id]);

    game.players.get_mut(&a).unwrap().bench = vec![1, 2, 3, 4, 5];
    game.players.get_mut(&a).unwrap().hand.push(basic_id);
    assert_eq!(
        game.select_active_pokemon(a, basic_id),
        Err("No room on the bench for the displaced Pokemon".to_string())
    );
    game.state = GameState::InProgress;
    assert_eq!(
        game.select_active_pokemon(a, basic_id),
        Err("Can only select active Pokemon during setup phase".to_string())
    );
}

#[test]
fn a_bench_is_set_up_whole_or_not_at_all() {
    let (mut game, a, _) = two_player_game(0);
    let pokemon: Vec<Card> =
        (0..7).map(|i| pokemon_card(&format!("P{}", i), EvolutionStage::Basic)).collect();
    let ids: Vec<CardId> = pokemon.iter().map(|c| c.id).collect();
    for card in pokemon {
        game.add_card_to_database(card);
    }
    let energy = energy_card();
    let energy_id = energy.id;
    game.add_card_to_database(energy);
    let unknown = new_id();
    let mut hand = ids.clone();
    hand.push(energy_id);
    hand.push(unknown);
    game.players.get_mut(&a).unwrap().hand = hand.clone();

    assert_eq!(
        game.setup_bench(a, vec![ids[0], energy_id]),
        Err("Selected card is not a Pokemon".to_string())
    );
    assert_eq!(
        game.setup_bench(a, vec![ids[0], ids[1], unknown]),
        Err("Card not found in database".to_string())
    );
    assert_eq!(
        game.setup_bench(a, vec![ids[0], ids[0]]),
        Err("Selected Pokemon is not in player's hand".to_string())
    );
    assert_eq!(
        game.setup_bench(a, ids[0..6].to_vec()),
        Err("Failed to place Pokemon on bench".to_string())
    );
    assert_eq!(game.setup_bench(new_id(), vec![]), Err("Player not found".to_string()));
    assert_eq!(game.players[&a].hand, hand);
    assert!(game.players[&a].bench.is_empty());

    assert_eq!(game.setup_bench(a, vec![ids[2], ids[0]]), Ok(()));
    assert_eq!(game.players[&a].bench, vec![ids[2], ids[0]]);
    assert_eq!(game.players[&a].hand.len(), 7);
    assert_eq!(game.setup_bench(a, vec![]), Ok(()));
    assert_eq!(game.setup_bench(a, vec![ids[1], ids[3], ids[4]]), Ok(()));
    assert_eq!(
        game.setup_bench(a, vec![ids[5]]),
        Err("Failed to place Pokemon on bench".to_string())
    );
    assert_eq!(game.players[&a].bench.len(), 5);
    game.state = GameState::InProgress;
    assert_eq!(
        game.setup_bench(a, vec![]),
        Err("Can only setup bench during setup phase".to_string())
    );
}

#[test]
fn a_short_deck_gives_fewer_prize_cards() {
    let (mut game, a, b) = two_player_game(10);
    game.players.get_mut(&b).unwrap().set_deck(vec![1, 2, 3, 4]);
    assert_eq!(game.place_prize_cards(), Ok(()));
    assert_eq!(game.players[&a].prize_cards, 6);
    assert_eq!(game.players[&a].deck.len(), 4);
    assert_eq!(game.players[&b].prize_cards, 4);
    assert!(game.players[&b].deck.is_empty());
    game.state = GameState::InProgress;
    assert_eq!(
        game.place_prize_cards(),
        Err("Can only place prize cards during setup phase".to_string())
    );
}

#[test]
fn the_number_of_prize_cards_follows_the_rules() {
    let mut game = Game::with_rules(GameRules {
        format: "Standard".to_string(),
        prize_cards: 3,
        max_hand_size: None,
        turn_time_limit: None,
        auto_shuffle: true,
    });
    let alice = Player::new("Alice".to_string());
    let a = alice.id;
    game.add_player(alice).unwrap();
    game.players.get_mut(&a).unwrap().set_deck((1..=10).collect());
    game.place_prize_cards().unwrap();
    assert_eq!(game.players[&a].prize_cards, 3);
    assert_eq!(game.players[&a].deck, (1..=7).collect::<Vec<CardId>>());
}

#[test]
fn completing_the_setup_starts_the_first_turn() {
    let (mut game, a, b) = two_player_game(10);
    game.determine_turn_order().unwrap();
    assert_eq!(
        game.complete_setup(),
        Err("All players must have an active Pokemon".to_string())
    );
    game.players.get_mut(&a).unwrap().active_pokemon = Some(1);
    game.players.get_mut(&b).unwrap().active_pokemon = Some(2);
    let first = game.turn_order[0];
    assert_eq!(game.complete_setup(), Ok(()));
    assert_eq!(game.state, GameState::InProgress);
    assert_eq!(game.phase, GamePhase::BeginningOfTurn);
    assert_eq!(game.players[&first].hand.len(), 1);
    assert_eq!(
        game.get_history(),
        &[
            GameEvent::GameStarted,
            GameEvent::TurnStarted { player_id: first, turn_number: 1 },
            GameEvent::CardDrawn { player_id: first, card_id: None },
        ]
    );
    assert_eq!(
        game.complete_setup(),
        Err("Can only complete setup during setup phase".to_string())
    );

    let (mut unordered, a, b) = two_player_game(10);
    unordered.players.get_mut(&a).unwrap().active_pokemon = Some(1);
    unordered.players.get_mut(&b).unwrap().active_pokemon = Some(2);
    assert_eq!(unordered.complete_setup(), Err("No current player".to_string()));
    assert_eq!(unordered.state, GameState::Setup);
}

#[test]
fn a_match_starts_with_the_first_turn() {
    let (mut game, _, _) = two_player_game(10);
    assert_eq!(game.start(), Err("No current player".to_string()));
    assert_eq!(game.state, GameState::Setup);
    assert!(game.get_history().is_empty());
    game.determine_turn_order().unwrap();
    let first = game.turn_order[0];
    assert_eq!(game.start(), Ok(()));
    assert_eq!(game.state, GameState::InProgress);
    assert_eq!(game.get_current_player_id(), Ok(first));
    assert!(game.is_player_turn(first));
    assert_eq!(game.get_current_player().unwrap().hand.len(), 1);
    assert_eq!(game.get_history().len(), 3);
    assert_eq!(game.start(), Err("Game is not in setup state".to_string()));

    let mut empty = Game::new();
    assert_eq!(empty.start(), Err("Need at least 2 players to start".to_string()));
    assert_eq!(empty.start_turn(), Err("Game is not in progress".to_string()));
    assert_eq!(empty.end_turn(), Err("Game is not in progress".to_string()));
    assert_eq!(empty.get_current_player_id(), Err("No current player".to_string()));
    assert!(empty.get_current_player().is_err());
    empty.state = GameState::InProgress;
    assert_eq!(empty.start_turn(), Err("No current player".to_string()));
    assert_eq!(empty.end_turn(), Err("No current player".to_string()));
    let (mut no_decks, _, _) = two_player_game(0);
    assert_eq!(no_decks.start(), Err("All players must have decks".to_string()));
}

fn running_game() -> (Game, PlayerId, PlayerId) {
    let (mut game, a, b) = two_player_game(30);
    game.determine_turn_order().unwrap();
    for id in [a, b] {
        let player = game.players.get_mut(&id).unwrap();
        player.active_pokemon = Some(new_id());
    }
    game.start().unwrap();
    (game, a, b)
}

#[test]
fn turns_go_round_and_the_number_grows_once_a_round() {
    let (mut game, _, _) = running_game();
    let order = game.turn_order.clone();
    let mut index = game.current_player_index;
    let mut number = game.turn_number;
    assert_eq!(index, 0);
    assert_eq!(number, 1);
    for step in 1..=9usize {
        assert_eq!(game.end_turn(), Ok(()));
        index = (index + 1) % order.len();
        if index == 0 {
            number += 1;
        }
        assert_eq!(game.current_player_index, index);
        assert_eq!(game.current_player_index, step % 2);
        assert_eq!(game.turn_number, number);
        assert_eq!(game.turn_number as usize, 1 + step / 2);
        assert_eq!(game.get_current_player_id(), Ok(order[index]));
        assert_eq!(game.phase, GamePhase::BeginningOfTurn);
    }
    assert_eq!(game.turn_order, order);
}

#[test]
fn the_phases_follow_each_other() {
    let (mut game, _, _) = running_game();
    let first = game.turn_order[0];
    let second = game.turn_order[1];
    assert_eq!(game.phase, GamePhase::BeginningOfTurn);
    game.next_phase().unwrap();
    assert_eq!(game.phase, GamePhase::Main);
    game.next_phase().unwrap();
    assert_eq!(game.phase, GamePhase::Attack);
    game.next_phase().unwrap();
    assert_eq!(game.phase, GamePhase::EndOfTurn);
    assert!(game.is_player_turn(first));
    game.next_phase().unwrap();
    assert_eq!(game.phase, GamePhase::BeginningOfTurn);
    assert!(game.is_player_turn(second));
    let history = game.get_history();
    assert_eq!(history[history.len() - 3], GameEvent::TurnEnded { player_id: first });
    assert_eq!(
        history[history.len() - 2],
        GameEvent::TurnStarted { player_id: second, turn_number: 1 }
    );
}

#[test]
fn a_player_without_prize_cards_wins() {
    let (mut game, a, b) = running_game();
    assert_eq!(game.check_win_conditions(), Ok(false));
    game.players.get_mut(&a).unwrap().prize_cards = 0;
    let turns_before = game.turn_number;
    assert_eq!(game.end_turn(), Ok(()));
    assert_eq!(game.state, GameState::Finished { winner: Some(a) });
    assert_eq!(game.turn_number, turns_before);
    assert_eq!(game.get_history().last(), Some(&GameEvent::GameEnded { winner: Some(a) }));
    assert_eq!(game.end_turn(), Err("Game is not in progress".to_string()));
    let _ = b;
}

#[test]
fn a_player_whose_opponent_has_no_pokemon_wins() {
    let (mut game, a, b) = running_game();
    game.players.get_mut(&b).unwrap().active_pokemon = None;
    assert_eq!(game.check_win_conditions(), Ok(true));
    assert_eq!(game.state, GameState::Finished { winner: Some(a) });
}

#[test]
fn a_match_can_be_ended_or_given_up() {
    let mut game = Game::default();
    let winner = new_id();
    game.end_game(Some(winner));
    assert_eq!(game.state, GameState::Finished { winner: Some(winner) });
    assert_eq!(game.get_history(), &[GameEvent::GameEnded { winner: Some(winner) }]);
    game.cancel_game();
    assert_eq!(game.state, GameState::Cancelled);
    game.add_event(GameEvent::PrizeTaken { player_id: winner });
    assert_eq!(game.get_history().len(), 2);
    assert!(game.get_players().is_empty());
    assert!(game.get_player(winner).is_none());
    assert!(!game.is_player_turn(winner));
}

#[test]
fn games_get_their_own_identifiers_and_seeds() {
    let games: Vec<Game> = (0..4).map(|_| Game::new()).collect();
    assert!(games.iter().any(|g| g.id != games[0].id));
    assert!(games.iter().any(|g| g.shuffle_seed != games[0].shuffle_seed));
    let rules = GameRules::default();
    assert_eq!(rules.format, "Standard");
    assert_eq!(rules.prize_cards, 6);
    assert_eq!(rules.max_hand_size, None);
    assert!(rules.auto_shuffle);
}

#[test]
fn both_hands_are_shown_before_a_mulligan() {
    let (mut game, a, b) = two_player_game(0);
    game.players.get_mut(&a).unwrap().hand = vec![1, 2];
    game.players.get_mut(&b).unwrap().hand = vec![3];
    assert_eq!(game.hands_to_reveal(a), Ok(vec![(a, vec![1, 2]), (b, vec![3])]));
    assert_eq!(game.hands_to_reveal(b), Ok(vec![(b, vec![3]), (a, vec![1, 2])]));
    assert_eq!(game.hands_to_reveal(new_id()), Err("Player not found".to_string()));
    game.state = GameState::InProgress;
    assert_eq!(
        game.hands_to_reveal(a),
        Err("Can only declare mulligan during setup phase".to_string())
    );
}

#[test]
fn the_same_seed_gives_the_same_turn_order() {
    let mut orders = Vec::new();
    for _ in 0..6 {
        let mut game = Game::new();
        for id in [10u128, 20] {
            game.players.insert(id, Player::new("P".to_string()));
        }
        game.set_shuffle_seed(3);
        game.determine_turn_order().unwrap();
        orders.push(game.turn_order);
    }
    assert!(orders.iter().all(|o| *o == orders[0]));
}

#[test]
fn events_are_told_in_words() {
    let player = 0xa1a2a3a4b1b2c1c2d1d2d3d4d5d6d7d8u128;
    let card = 0x0000_0000_0000_4000_8000_0000_0000_00ffu128;
    let p = "a1a2a3a4-b1b2-c1c2-d1d2-d3d4d5d6d7d8";
    let c = "00000000-0000-4000-8000-0000000000ff";
    let told = |event: GameEvent| event.describe();
    assert_eq!(told(GameEvent::GameStarted), "Game started");
    assert_eq!(
        told(GameEvent::TurnStarted { player_id: player, turn_number: 12 }),
        format!("Turn 12 started for player {}", p)
    );
    assert_eq!(
        told(GameEvent::CardDrawn { player_id: player, card_id: Some(card) }),
        format!("Player {} drew a card: Some({})", p, c)
    );
    assert_eq!(
        told(GameEvent::CardDrawn { player_id: player, card_id: None }),
        format!("Player {} drew a card: None", p)
    );
    assert_eq!(
        told(GameEvent::CardPlayed { player_id: player, card_id: card }),
        format!("Player {} played card: {}", p, c)
    );
    assert_eq!(
        told(GameEvent::PokemonBenched { player_id: player, card_id: card }),
        format!("Player {} benched Pokemon: {}", p, c)
    );
    assert_eq!(
        told(GameEvent::EnergyAttached { player_id: player, energy_id: card, pokemon_id: player }),
        format!("Player {} attached energy {} to Pokemon {}", p, c, p)
    );
    assert_eq!(
        told(GameEvent::AttackUsed {
            player_id: player,
            pokemon_id: card,
            attack_name: "Gnaw".to_string()
        }),
        format!("Player {} used attack 'Gnaw' with Pokemon {}", p, c)
    );
    assert_eq!(
        told(GameEvent::DamageDealt { player_id: player, pokemon_id: card, damage: 30 }),
        format!("Player {} dealt 30 damage to Pokemon {}", p, c)
    );
    assert_eq!(
        told(GameEvent::PokemonKnockedOut { player_id: player, pokemon_id: card }),
        format!("Player {} knocked out Pokemon {}", p, c)
    );
    assert_eq!(
        told(GameEvent::PrizeTaken { player_id: player }),
        format!("Player {} took a prize card", p)
    );
    assert_eq!(
        told(GameEvent::DeckShuffled { player_id: player }),
        format!("Player {} shuffled their deck", p)
    );
    assert_eq!(
        told(GameEvent::TurnEnded { player_id: player }),
        format!("Player {} ended their turn", p)
    );
    assert_eq!(
        told(GameEvent::GameEnded { winner: Some(player) }),
        format!("Game ended. Winner: Some({})", p)
    );
    assert_eq!(
        GameEvent::GameEnded { winner: None }.describe_at(1700000000),
        "[1700000000] Game ended. Winner: None"
    );
    let copy = GameEvent::PrizeTaken { player_id: player }.clone();
    assert_eq!(copy, GameEvent::PrizeTaken { player_id: player });
}

#[test]
fn players_can_be_changed_in_place() {
    let (mut game, a, b) = two_player_game(3);
    game.get_player_mut(a).unwrap().prize_cards = 2;
    assert_eq!(game.players[&a].prize_cards, 2);
    assert_eq!(game.players[&b].prize_cards, 6);
    assert!(game.get_player_mut(new_id()).is_none());
    assert_eq!(game.get_current_player_mut().err(), Some("No current player".to_string()));
    game.turn_order = vec![b, a];
    game.current_player_index = 1;
    game.get_current_player_mut().unwrap().has_attacked = true;
    assert!(game.players[&a].has_attacked);
    assert!(!game.players[&b].has_attacked);
    game.turn_order = vec![new_id()];
    game.current_player_index = 0;
    assert_eq!(game.get_current_player_mut().err(), Some("Current player not found".to_string()));
    assert_eq!(game.get_current_player().err(), Some("Current player not found".to_string()));
}
