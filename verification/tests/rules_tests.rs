use ptcg_core::actions::{AttachEnergyAction, AttackAction};
use ptcg_core::game::GameEvent;
use ptcg_core::{
    Card, CardId, CardRarity, CardType, EnergyAttachmentRule, EnergyType, EvolutionStage, Game,
    GameAction, GameRules, HandLimitRule, Player, PlayerId, Rule, RuleConfig, RuleEngine,
    RuleResult, RuleViolation, StandardRule, StandardRules, TurnOrderRule, ViolationSeverity,
};

fn new_id() -> u128 {
    uuid::Uuid::new_v4().as_u128()
}

fn pokemon_card() -> Card {
    Card::new(
        "Pikachu".to_string(),
        CardType::Pokemon {
            species: "Pikachu".to_string(),
            hp: 60,
            retreat_cost: 1,
            weakness: None,
            resistance: None,
            stage: EvolutionStage::Basic,
            evolves_from: None,
        },
        "Base Set".to_string(),
        "025".to_string(),
        CardRarity::Common,
    )
}

fn energy_card() -> Card {
    Card::new(
        "Lightning Energy".to_string(),
        CardType::Energy { energy_type: EnergyType::Lightning, is_basic: true },
        "Base Set".to_string(),
        "100".to_string(),
        CardRarity::Common,
    )
}

#[test]
fn test_shuffle_deck() {
    let mut game = Game::new();
    let player1_id = new_id();
    let player2_id = new_id();

    game.players.insert(player1_id, Player::new("Player 1".to_string()));
    game.players.insert(player2_id, Player::new("Player 2".to_string()));

    let player1_deck: Vec<CardId> = (0..10).map(|_| new_id()).collect();
    let player2_deck: Vec<CardId> = (0..10).map(|_| new_id()).collect();

    game.players.get_mut(&player1_id).unwrap().set_deck(player1_deck.clone());
    game.players.get_mut(&player2_id).unwrap().set_deck(player2_deck.clone());

    let original_player1_order = game.players.get(&player1_id).unwrap().deck.clone();
    let original_player2_order = game.players.get(&player2_id).unwrap().deck.clone();

    assert!(game.shuffle_deck(player1_id).is_ok());

    let player1_deck_after = &game.players.get(&player1_id).unwrap().deck;
    let player2_deck_after = &game.players.get(&player2_id).unwrap().deck;

    assert_eq!(player2_deck_after, &original_player2_order);
    assert_eq!(player1_deck_after.len(), original_player1_order.len());

    for card_id in &original_player1_order {
        assert!(player1_deck_after.contains(card_id));
    }
}

#[test]
fn test_shuffle_both_decks() {
    let mut game = Game::new();
    let player1_id = new_id();
    let player2_id = new_id();

    game.players.insert(player1_id, Player::new("Player 1".to_string()));
    game.players.insert(player2_id, Player::new("Player 2".to_string()));

    let player1_deck: Vec<CardId> = (0..10).map(|_| new_id()).collect();
    let player2_deck: Vec<CardId> = (0..10).map(|_| new_id()).collect();

    game.players.get_mut(&player1_id).unwrap().set_deck(player1_deck.clone());
    game.players.get_mut(&player2_id).unwrap().set_deck(player2_deck.clone());

    let original_player1_order = game.players.get(&player1_id).unwrap().deck.clone();
    let original_player2_order = game.players.get(&player2_id).unwrap().deck.clone();

    assert!(game.shuffle_both_decks().is_ok());

    let player1_deck_after = &game.players.get(&player1_id).unwrap().deck;
    let player2_deck_after = &game.players.get(&player2_id).unwrap().deck;

    assert_eq!(player1_deck_after.len(), original_player1_order.len());
    assert_eq!(player2_deck_after.len(), original_player2_order.len());

    for card_id in &original_player1_order {
        assert!(player1_deck_after.contains(card_id));
    }

    for card_id in &original_player2_order {
        assert!(player2_deck_after.contains(card_id));
    }
}

#[test]
fn test_execute_action_draw_card() {
    let mut game = Game::new();
    let player_id = new_id();
    let mut player = Player::new("Test Player".to_string());

    let card_ids: Vec<CardId> = (0..5).map(|_| new_id()).collect();
    player.set_deck(card_ids.clone());

    game.players.insert(player_id, player);
    game.turn_order.push(player_id);

    let rule_engine: RuleEngine<StandardRule> = RuleEngine::new();

    let action = GameAction::DrawCard { player_id };

    assert!(game.execute_action(&rule_engine, &action).is_ok());

    let player = game.players.get(&player_id).unwrap();
    assert_eq!(player.hand.len(), 1);
    assert_eq!(player.deck.len(), 4);
}

#[test]
fn test_execute_action_end_turn() {
    let mut game = Game::new();
    let player1_id = new_id();
    let player2_id = new_id();

    game.players.insert(player1_id, Player::new("Player 1".to_string()));
    game.players.insert(player2_id, Player::new("Player 2".to_string()));
    game.turn_order.push(player1_id);
    game.turn_order.push(player2_id);
    game.current_player_index = 0;
    game.turn_number = 1;

    let rule_engine: RuleEngine<StandardRule> = RuleEngine::new();

    let action = GameAction::EndTurn { player_id: player1_id };

    assert!(game.execute_action(&rule_engine, &action).is_ok());

    assert_eq!(game.current_player_index, 1);
    assert_eq!(game.turn_number, 2);
}

#[test]
fn test_execute_action_attach_energy() {
    let mut game = Game::new();
    let player_id = new_id();
    let mut player = Player::new("Test Player".to_string());

    let pokemon_card = pokemon_card();
    let energy_card = energy_card();

    let pokemon_id = pokemon_card.id;
    let energy_id = energy_card.id;

    player.hand.push(pokemon_id);
    player.hand.push(energy_id);

    player.set_active_pokemon(pokemon_id);

    game.players.insert(player_id, player);
    game.turn_order.push(player_id);

    game.card_database.insert(pokemon_id, pokemon_card);
    game.card_database.insert(energy_id, energy_card);

    let rule_engine: RuleEngine<StandardRule> = RuleEngine::new();

    let action = GameAction::AttachEnergy { player_id, energy_id, pokemon_id };

    assert!(game.execute_action(&rule_engine, &action).is_ok());

    let player = game.players.get(&player_id).unwrap();
    assert_eq!(player.get_attached_energy_count(pokemon_id), 1);
    assert!(!player.hand.contains(&energy_id));
}

#[test]
fn test_rule_engine_creation() {
    let engine: RuleEngine<StandardRule> = RuleEngine::new();
    assert_eq!(engine.get_rule_names().len(), 0);
}

#[test]
fn test_add_rule() {
    let mut engine = RuleEngine::new();
    engine.add_rule(TurnOrderRule);

    assert_eq!(engine.get_rule_names().len(), 1);
    assert!(engine.has_rule("TurnOrder"));
}

#[test]
fn test_standard_rules() {
    let engine = StandardRules::create_engine();
    assert!(engine.has_rule("TurnOrder"));
    assert!(engine.has_rule("EnergyAttachment"));
}

/// A match in play with two players; it is the turn of the first.
fn game_of_two() -> (Game, PlayerId, PlayerId) {
    let mut game = Game::new();
    let a = new_id();
    let b = new_id();
    game.players.insert(a, Player::new("A".to_string()));
    game.players.insert(b, Player::new("B".to_string()));
    game.turn_order = vec![a, b];
    game.players.get_mut(&a).unwrap().set_deck(vec![1, 2, 3]);
    game.players.get_mut(&b).unwrap().set_deck(vec![4, 5, 6]);
    (game, a, b)
}

fn snapshot(game: &Game) -> String {
    let mut players: Vec<String> =
        game.players.iter().map(|(id, p)| format!("{}:{:?}", id, p.hand)).collect();
    players.sort();
    format!(
        "{:?}|{:?}|{}|{}|{:?}|{:?}|{:?}",
        game.state,
        game.phase,
        game.current_player_index,
        game.turn_number,
        game.turn_order,
        game.history,
        players
    )
}

#[test]
fn acting_out_of_turn_is_an_error_and_changes_nothing() {
    let (mut game, _a, b) = game_of_two();
    let engine = StandardRules::create_engine();
    let before = snapshot(&game);
    let action = GameAction::DrawCard { player_id: b };
    let violations = game.execute_action(&engine, &action).unwrap_err();
    assert_eq!(
        violations,
        vec![RuleViolation {
            rule_name: "TurnOrder".to_string(),
            message: "Not your turn".to_string(),
            severity: ViolationSeverity::Error,
        }]
    );
    assert_eq!(snapshot(&game), before);
    assert_eq!(game.players[&b].deck, vec![4, 5, 6]);

    let again = engine.apply_action(&mut game, &action).unwrap_err();
    assert_eq!(again, violations);
    assert_eq!(snapshot(&game), before);
    assert_eq!(engine.validate_action(&game, &action), violations);
}

#[test]
fn every_action_of_the_player_in_turn_passes() {
    let (mut game, a, _) = game_of_two();
    let engine = StandardRules::create_engine();
    assert_eq!(game.execute_action(&engine, &GameAction::DrawCard { player_id: a }), Ok(()));
    assert_eq!(game.players[&a].hand, vec![3]);
    assert_eq!(
        game.get_history().last(),
        Some(&GameEvent::CardDrawn { player_id: a, card_id: Some(3) })
    );
    assert_eq!(
        game.execute_action(
            &engine,
            &GameAction::PlayCard { player_id: a, card_id: 3, target: None }
        ),
        Ok(())
    );
    assert_eq!(
        game.get_history().last(),
        Some(&GameEvent::CardPlayed { player_id: a, card_id: 3 })
    );
    assert_eq!(
        game.execute_action(
            &engine,
            &GameAction::UseAttack { player_id: a, pokemon_id: 9, attack_index: 12 }
        ),
        Ok(())
    );
    assert_eq!(
        game.get_history().last(),
        Some(&GameEvent::AttackUsed {
            player_id: a,
            pokemon_id: 9,
            attack_name: "Attack 12".to_string()
        })
    );
    let events = game.get_history().len();
    assert_eq!(game.execute_action(&engine, &GameAction::Retreat { player_id: a, pokemon_id: 9 }), Ok(()));
    assert_eq!(game.execute_action(&engine, &GameAction::Pass { player_id: a }), Ok(()));
    assert_eq!(game.get_history().len(), events);

    game.players.get_mut(&a).unwrap().has_attacked = true;
    assert_eq!(game.execute_action(&engine, &GameAction::EndTurn { player_id: a }), Ok(()));
    assert_eq!(game.get_history().last(), Some(&GameEvent::TurnEnded { player_id: a }));
    assert_eq!(game.current_player_index, 1);
    assert_eq!(game.turn_number, 2);
    assert!(!game.players[&a].has_attacked);
    assert!(game
        .execute_action(&engine, &GameAction::EndTurn { player_id: a })
        .is_err());
}

#[test]
fn drawing_from_an_empty_deck_is_recorded_without_a_card() {
    let (mut game, a, _) = game_of_two();
    game.players.get_mut(&a).unwrap().set_deck(vec![]);
    let engine: RuleEngine<StandardRule> = RuleEngine::new();
    assert_eq!(game.execute_action(&engine, &GameAction::DrawCard { player_id: a }), Ok(()));
    assert_eq!(
        game.get_history(),
        &[GameEvent::CardDrawn { player_id: a, card_id: None }]
    );
    // an unknown player draws nothing and nothing is recorded
    assert_eq!(game.execute_action(&engine, &GameAction::DrawCard { player_id: 77 }), Ok(()));
    assert_eq!(game.get_history().len(), 1);
    // the turn of a match without a turn order stays where it is
    game.turn_order.clear();
    game.current_player_index = 3;
    assert_eq!(game.execute_action(&engine, &GameAction::EndTurn { player_id: a }), Ok(()));
    assert_eq!(game.current_player_index, 3);
    assert_eq!(game.turn_number, 2);
}

#[test]
fn the_hand_limit_forbids_a_draw() {
    let mut game = Game::with_rules(GameRules {
        format: "Standard".to_string(),
        prize_cards: 6,
        max_hand_size: Some(2),
        turn_time_limit: None,
        auto_shuffle: true,
    });
    let a = new_id();
    let mut player = Player::new("A".to_string());
    player.set_deck(vec![1, 2, 3]);
    player.hand = vec![8];
    game.players.insert(a, player);
    game.turn_order.push(a);
    let engine = StandardRules::create_engine();
    let action = GameAction::DrawCard { player_id: a };
    assert_eq!(game.execute_action(&engine, &action), Ok(()));
    let violations = game.execute_action(&engine, &action).unwrap_err();
    assert_eq!(violations.len(), 1);
    assert_eq!(violations[0].rule_name, "HandLimit");
    assert_eq!(violations[0].message, "Hand size limit exceeded (2)");
    assert_eq!(violations[0].severity, ViolationSeverity::Error);
    assert_eq!(game.players[&a].hand, vec![8, 3]);
    assert_eq!(HandLimitRule.validate_action(&game, &GameAction::Pass { player_id: a }), Ok(()));
}

#[test]
fn energy_is_attached_from_the_hand_to_the_field() {
    let (mut game, a, _) = game_of_two();
    let pokemon = pokemon_card();
    let energy = energy_card();
    let (pokemon_id, energy_id) = (pokemon.id, energy.id);
    game.add_card_to_database(pokemon);
    game.add_card_to_database(energy);
    let rule = EnergyAttachmentRule;
    let message = |r: RuleResult| r.unwrap_err().message;
    let attach = |energy_id, pokemon_id| GameAction::AttachEnergy { player_id: a, energy_id, pokemon_id };

    assert_eq!(message(rule.validate_action(&game, &attach(energy_id, pokemon_id))), "Energy card not in hand");
    game.players.get_mut(&a).unwrap().hand = vec![energy_id, pokemon_id];
    assert_eq!(message(rule.validate_action(&game, &attach(energy_id, pokemon_id))), "Target Pokemon not found");
    game.players.get_mut(&a).unwrap().bench = vec![pokemon_id];
    assert_eq!(rule.validate_action(&game, &attach(energy_id, pokemon_id)), Ok(()));
    assert_eq!(message(rule.validate_action(&game, &attach(pokemon_id, pokemon_id))), "Card is not an energy");
    assert_eq!(
        rule.validate_action(&game, &GameAction::AttachEnergy { player_id: 5, energy_id, pokemon_id }),
        Ok(())
    );
    assert_eq!(rule.name(), "EnergyAttachment");
    assert_eq!(rule.apply_effect(&mut game, &attach(energy_id, pokemon_id)), Ok(()));

    let engine = StandardRules::create_engine();
    assert_eq!(game.execute_action(&engine, &attach(energy_id, pokemon_id)), Ok(()));
    assert_eq!(game.players[&a].attached_energy[&pokemon_id], vec![energy_id]);
    assert_eq!(
        game.get_history().last(),
        Some(&GameEvent::EnergyAttached { player_id: a, energy_id, pokemon_id })
    );
}

#[test]
fn violations_are_filtered_by_severity_and_may_stop_the_check() {
    let (mut game, _a, b) = game_of_two();
    // out of turn, and the energy is not in hand: two rules find fault
    let action = GameAction::AttachEnergy { player_id: b, energy_id: 50, pokemon_id: 60 };
    let names = |vs: Vec<RuleViolation>| vs.into_iter().map(|v| v.rule_name).collect::<Vec<String>>();

    let mut engine = StandardRules::create_engine();
    assert_eq!(names(engine.validate_action(&game, &action)), vec!["TurnOrder", "EnergyAttachment"]);

    engine.config.stop_on_first_violation = true;
    assert_eq!(names(engine.validate_action(&game, &action)), vec!["TurnOrder"]);

    engine.config.min_severity = ViolationSeverity::Error;
    assert_eq!(names(engine.validate_action(&game, &action)), vec!["TurnOrder"]);
    engine.config.stop_on_first_violation = false;
    assert_eq!(engine.validate_action(&game, &action).len(), 2);

    // errors below the least reported severity are not reported, and the action passes
    engine.config.min_severity = ViolationSeverity::Fatal;
    assert!(engine.validate_action(&game, &action).is_empty());
    assert_eq!(engine.apply_action(&mut game, &action), Ok(()));
    assert_eq!(game.execute_action(&engine, &GameAction::DrawCard { player_id: b }), Ok(()));
    assert_eq!(game.players[&b].hand, vec![6]);

    engine.config.min_severity = ViolationSeverity::Warning;
    engine.remove_rule("TurnOrder");
    assert_eq!(engine.get_rule_names(), vec!["HandLimit", "EnergyAttachment"]);
    assert!(!engine.has_rule("TurnOrder"));
    assert_eq!(names(engine.validate_action(&game, &action)), vec!["EnergyAttachment"]);
    engine.remove_rule("nothing");
    assert_eq!(engine.get_rule_names().len(), 2);

    let mut twice = RuleEngine::new();
    twice.add_rule(TurnOrderRule);
    twice.add_rule(TurnOrderRule);
    assert_eq!(twice.validate_action(&game, &action).len(), 2);
    twice.remove_rule("TurnOrder");
    assert!(twice.rules.is_empty());
}

#[test]
fn an_engine_that_applies_no_effects_lets_actions_pass_all_the_same() {
    let (mut game, a, b) = game_of_two();
    let mut quiet = RuleEngine::with_config(RuleConfig {
        stop_on_first_violation: false,
        auto_apply_effects: false,
        min_severity: ViolationSeverity::Warning,
    });
    quiet.add_rule(StandardRule::TurnOrder(TurnOrderRule));
    let before = snapshot(&game);
    assert_eq!(quiet.apply_action(&mut game, &GameAction::Pass { player_id: a }), Ok(()));
    assert!(quiet.apply_action(&mut game, &GameAction::Pass { player_id: b }).is_err());
    assert_eq!(snapshot(&game), before);
    let standard = StandardRules::create_engine();
    assert_eq!(standard.apply_action(&mut game, &GameAction::Pass { player_id: a }), Ok(()));
    assert_eq!(snapshot(&game), before);
}

#[test]
fn the_standard_rules_are_three() {
    let engine = StandardRules::create_engine();
    assert_eq!(engine.get_rule_names(), vec!["TurnOrder", "HandLimit", "EnergyAttachment"]);
    assert_eq!(engine.config, RuleConfig::default());
    assert!(!engine.config.stop_on_first_violation);
    assert!(engine.config.auto_apply_effects);
    assert_eq!(TurnOrderRule.name(), "TurnOrder");
    assert_eq!(ViolationSeverity::Fatal.level(), 2);
    assert!(ViolationSeverity::Error.is_blocking());
    assert!(!ViolationSeverity::Warning.is_blocking());
    assert_eq!(GameAction::Retreat { player_id: 4, pokemon_id: 5 }.player_id(), 4);
    let default_engine: RuleEngine<TurnOrderRule> = RuleEngine::default();
    assert!(default_engine.rules.is_empty());
}

#[test]
fn an_energy_attachment_is_carried_out_or_refused() {
    let (mut game, a, b) = game_of_two();
    game.players.get_mut(&a).unwrap().hand = vec![10, 11];
    game.players.get_mut(&a).unwrap().active_pokemon = Some(1);
    assert_eq!(
        AttachEnergyAction::new(99, 10, 1).execute(&mut game),
        Err("Player not found".to_string())
    );
    assert_eq!(
        AttachEnergyAction::new(a, 12, 1).execute(&mut game),
        Err("Energy card not in player's hand".to_string())
    );
    assert_eq!(
        AttachEnergyAction::new(a, 10, 2).execute(&mut game),
        Err("Target Pokemon not on player's field".to_string())
    );
    assert_eq!(game.players[&a].hand, vec![10, 11]);
    assert_eq!(AttachEnergyAction::new(a, 10, 1).execute(&mut game), Ok(()));
    assert_eq!(game.players[&a].hand, vec![11]);
    assert_eq!(game.players[&a].attached_energy[&1], vec![10]);

    game.players.get_mut(&b).unwrap().active_pokemon = Some(2);
    assert_eq!(AttackAction::new(a, 1, 0, b, 2).execute(&mut game), Ok(()));
    assert_eq!(
        AttackAction::new(99, 1, 0, b, 2).execute(&mut game),
        Err("Attacker player not found".to_string())
    );
    assert_eq!(
        AttackAction::new(a, 1, 0, 99, 2).execute(&mut game),
        Err("Target player not found".to_string())
    );
    assert_eq!(
        AttackAction::new(a, 3, 0, b, 2).execute(&mut game),
        Err("Attacker Pokemon is not active".to_string())
    );
    assert_eq!(
        AttackAction::new(a, 1, 0, b, 3).execute(&mut game),
        Err("Target Pokemon is not active".to_string())
    );
}

#[test]
fn shuffles_of_the_match_are_recorded_and_seeded() {
    let (mut game, a, b) = game_of_two();
    game.set_shuffle_seed(11);
    game.players.get_mut(&a).unwrap().set_deck((1..=30).collect());
    assert_eq!(game.shuffle_deck(a), Ok(()));
    assert_eq!(game.shuffle_seed, 12);
    assert_eq!(game.get_history(), &[GameEvent::DeckShuffled { player_id: a }]);
    let first = game.players[&a].deck.clone();
    assert_ne!(first, (1..=30).collect::<Vec<CardId>>());
    assert_eq!(game.shuffle_deck(99), Err("Player not found".to_string()));
    assert_eq!(game.shuffle_seed, 12);

    game.set_shuffle_seed(u64::MAX);
    assert_eq!(game.shuffle_both_decks(), Ok(()));
    assert_eq!(game.shuffle_seed, 1);
    assert_eq!(game.get_history().len(), 3);
    let mut shuffled: Vec<PlayerId> = game.get_history()[1..]
        .iter()
        .map(|e| match e {
            GameEvent::DeckShuffled { player_id } => *player_id,
            _ => panic!("a shuffle is recorded as a shuffle"),
        })
        .collect();
    shuffled.sort();
    let mut both = vec![a, b];
    both.sort();
    assert_eq!(shuffled, both);

    let (mut other, c, _) = game_of_two();
    other.set_shuffle_seed(11);
    other.players.get_mut(&c).unwrap().set_deck((1..=30).collect());
    other.shuffle_deck(c).unwrap();
    assert_eq!(other.players[&c].deck, first);
}
