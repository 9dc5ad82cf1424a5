use ptcg_core::{
    Card, CardId, CardLocation, CardRarity, CardType, ConditionEffect, EnergyType, EvolutionStage,
    Player, SpecialCondition, StringMap,
};
use std::collections::HashMap;

fn new_id() -> CardId {
    uuid::Uuid::new_v4().as_u128()
}

fn pokemon_card(stage: EvolutionStage, hp: u32) -> Card {
    Card::new(
        "Pokemon".to_string(),
        CardType::Pokemon {
            species: "Pokemon".to_string(),
            hp,
            retreat_cost: 1,
            weakness: None,
            resistance: None,
            stage,
            evolves_from: None,
        },
        "Base Set".to_string(),
        "001".to_string(),
        CardRarity::Common,
    )
}

fn energy_card(energy_type: EnergyType) -> Card {
    Card::new(
        "Energy".to_string(),
        CardType::Energy { energy_type, is_basic: true },
        "Base Set".to_string(),
        "100".to_string(),
        CardRarity::Common,
    )
}

#[test]
fn test_create_player() {
    let player = Player::new("Test Player".to_string());
    assert_eq!(player.name, "Test Player");
    assert_eq!(player.prize_cards, 6);
    assert!(player.hand.is_empty());
    assert!(player.active_pokemon.is_none());
}

#[test]
fn test_draw_cards() {
    let mut player = Player::new("Test Player".to_string());
    let card_ids: Vec<CardId> = (0..10).map(|_| new_id()).collect();
    player.set_deck(card_ids.clone());

    let drawn = player.draw_cards(5);
    assert_eq!(drawn.len(), 5);
    assert_eq!(player.hand.len(), 5);
    assert_eq!(player.deck.len(), 5);
}

#[test]
fn test_bench_pokemon() {
    let mut player = Player::new("Test Player".to_string());
    let card_id = new_id();
    player.hand.push(card_id);

    assert!(player.bench_pokemon(card_id));
    assert_eq!(player.bench.len(), 1);
    assert_eq!(player.hand.len(), 0);
}

#[test]
fn test_attach_energy() {
    let mut player = Player::new("Test Player".to_string());
    let pokemon_id = new_id();
    let energy_id = new_id();

    player.hand.push(energy_id);
    player.active_pokemon = Some(pokemon_id);

    assert!(player.attach_energy(energy_id, pokemon_id));
    assert_eq!(player.get_attached_energy_count(pokemon_id), 1);
    assert_eq!(player.hand.len(), 0);
}

#[test]
fn test_damage_system() {
    let mut player = Player::new("Test Player".to_string());
    let pokemon_id = new_id();

    player.add_damage(pokemon_id, 30);
    assert_eq!(player.damage_counters.get(&pokemon_id), Some(&30));

    player.heal_damage(pokemon_id, 10);
    assert_eq!(player.damage_counters.get(&pokemon_id), Some(&20));

    player.heal_damage(pokemon_id, 30);
    assert!(!player.damage_counters.contains_key(&pokemon_id));
}

#[test]
fn test_special_conditions() {
    let mut player = Player::new("Test Player".to_string());
    let pokemon_id = new_id();

    player.add_special_condition(pokemon_id, SpecialCondition::Poisoned { damage_per_turn: 10 }, -1, 1);
    assert!(player
        .has_special_condition_type(pokemon_id, &SpecialCondition::Poisoned { damage_per_turn: 0 }));

    player.remove_special_condition_type(pokemon_id, &SpecialCondition::Poisoned { damage_per_turn: 0 });
    assert!(!player
        .has_special_condition_type(pokemon_id, &SpecialCondition::Poisoned { damage_per_turn: 0 }));
}

#[test]
fn test_condition_duration() {
    let mut player = Player::new("Test Player".to_string());
    let pokemon_id = new_id();

    player.add_special_condition(pokemon_id, SpecialCondition::Paralyzed, 2, 1);
    assert!(player.has_special_condition_type(pokemon_id, &SpecialCondition::Paralyzed));
    assert!(!player.can_pokemon_attack(pokemon_id));

    let _effects = player.update_special_conditions(2);
    assert!(player.has_special_condition_type(pokemon_id, &SpecialCondition::Paralyzed));

    let effects = player.update_special_conditions(3);
    assert!(!player.has_special_condition_type(pokemon_id, &SpecialCondition::Paralyzed));
    assert!(player.can_pokemon_attack(pokemon_id));
    assert!(effects.iter().any(|e| matches!(e, ConditionEffect::ConditionRemoved { .. })));
}

#[test]
fn test_condition_effects() {
    let mut player = Player::new("Test Player".to_string());
    let pokemon_id = new_id();

    player.add_special_condition(pokemon_id, SpecialCondition::Poisoned { damage_per_turn: 20 }, -1, 1);

    let effects = player.update_special_conditions(2);
    assert!(effects.iter().any(|e| matches!(e, ConditionEffect::Damage { amount: 20, .. })));
}

#[test]
fn test_attack_prevention() {
    let mut player = Player::new("Test Player".to_string());
    let pokemon_id = new_id();

    assert!(player.can_pokemon_attack(pokemon_id));

    player.add_special_condition(pokemon_id, SpecialCondition::Paralyzed, -1, 1);
    assert!(!player.can_pokemon_attack(pokemon_id));

    player.clear_special_conditions(pokemon_id);
    player.add_special_condition(pokemon_id, SpecialCondition::Asleep, -1, 1);
    assert!(!player.can_pokemon_attack(pokemon_id));
}

#[test]
fn test_retreat_prevention() {
    let mut player = Player::new("Test Player".to_string());
    let pokemon_id = new_id();

    assert!(player.can_pokemon_retreat(pokemon_id));

    player.add_special_condition(pokemon_id, SpecialCondition::Trapped, -1, 1);
    assert!(!player.can_pokemon_retreat(pokemon_id));
}

#[test]
fn test_multiple_conditions() {
    let mut player = Player::new("Test Player".to_string());
    let pokemon_id = new_id();

    player.add_special_condition(pokemon_id, SpecialCondition::Poisoned { damage_per_turn: 10 }, -1, 1);
    player.add_special_condition(pokemon_id, SpecialCondition::Confused, 3, 1);

    let conditions = player.get_special_conditions(pokemon_id);
    assert_eq!(conditions.len(), 2);

    assert!(player.can_pokemon_attack(pokemon_id));

    player.add_special_condition(pokemon_id, SpecialCondition::Paralyzed, 1, 1);
    assert!(!player.can_pokemon_attack(pokemon_id));
}

#[test]
fn cards_are_drawn_from_the_top_of_the_deck() {
    let mut player = Player::new("P".to_string());
    player.set_deck(vec![1, 2, 3, 4]);
    assert_eq!(player.draw_card(), Some(4));
    assert_eq!(player.draw_cards(2), vec![3, 2]);
    assert_eq!(player.hand, vec![4, 3, 2]);
    assert_eq!(player.draw_cards(5), vec![1]);
    assert_eq!(player.draw_card(), None);
    assert!(player.deck.is_empty());
    assert_eq!(player.hand, vec![4, 3, 2, 1]);
}

#[test]
fn prize_cards_come_off_the_deck() {
    let mut player = Player::new("P".to_string());
    player.set_deck(vec![1, 2, 3, 4]);
    assert_eq!(player.draw_prize_cards(3), vec![4, 3, 2]);
    assert_eq!(player.deck, vec![1]);
    assert!(player.hand.is_empty());
    assert_eq!(player.place_prize_cards(6), vec![1]);
    assert_eq!(player.prize_cards, 1);
    assert!(player.take_prize_card());
    assert!(player.has_won());
    assert!(!player.take_prize_card());
    assert_eq!(player.prize_cards, 0);
}

#[test]
fn a_mulligan_keeps_every_card() {
    let mut player = Player::new("P".to_string());
    player.set_deck((1..=20).collect());
    player.draw_cards(7);
    player.mulligan(42);
    assert_eq!(player.hand.len(), 7);
    assert_eq!(player.deck.len(), 13);
    let mut all: Vec<CardId> = player.deck.iter().chain(player.hand.iter()).cloned().collect();
    all.sort();
    assert_eq!(all, (1..=20).collect::<Vec<CardId>>());

    let mut small = Player::new("S".to_string());
    small.set_deck(vec![7, 8]);
    small.hand = vec![9, 9, 10];
    small.mulligan(1);
    assert_eq!(small.hand.len(), 5);
    assert!(small.deck.is_empty());
    let mut held = small.hand.clone();
    held.sort();
    assert_eq!(held, vec![7, 8, 9, 9, 10]);
}

#[test]
fn a_shuffle_keeps_the_cards_and_changes_their_order() {
    let mut outcomes = Vec::new();
    for seed in 0..8u64 {
        let mut player = Player::new("P".to_string());
        player.set_deck((1..=30).collect());
        player.shuffle_deck_seeded(seed);
        let mut sorted = player.deck.clone();
        sorted.sort();
        assert_eq!(sorted, (1..=30).collect::<Vec<CardId>>());
        outcomes.push(player.deck);
    }
    assert!(outcomes.iter().any(|deck| *deck != (1..=30).collect::<Vec<CardId>>()));

    let mut player = Player::new("P".to_string());
    player.set_deck((1..=30).collect());
    player.shuffle_deck();
    assert_eq!(player.deck.len(), 30);
}

#[test]
fn the_same_seed_gives_the_same_shuffle() {
    let mut a = Player::new("A".to_string());
    let mut b = Player::new("B".to_string());
    a.set_deck((1..=30).collect());
    b.set_deck((1..=30).collect());
    a.shuffle_deck_seeded(7);
    b.shuffle_deck_seeded(7);
    assert_eq!(a.deck, b.deck);
}

#[test]
fn discarding_takes_one_copy() {
    let mut player = Player::new("P".to_string());
    player.hand = vec![5, 6, 5];
    assert!(player.discard_from_hand(5));
    assert_eq!(player.hand, vec![6, 5]);
    assert_eq!(player.discard_pile, vec![5]);
    assert!(!player.discard_from_hand(9));
    assert_eq!(player.hand, vec![6, 5]);
}

#[test]
fn the_active_pokemon_displaces_the_one_before() {
    let mut player = Player::new("P".to_string());
    player.hand = vec![1, 2, 1, 3];
    assert!(player.set_active_pokemon(1));
    assert_eq!(player.active_pokemon, Some(1));
    assert_eq!(player.hand, vec![2, 3]);
    assert!(player.bench.is_empty());

    assert!(player.set_active_pokemon(2));
    assert_eq!(player.active_pokemon, Some(2));
    assert_eq!(player.bench, vec![1]);

    assert!(player.set_active_pokemon(1));
    assert_eq!(player.active_pokemon, Some(1));
    assert_eq!(player.bench, vec![2]);

    assert!(!player.set_active_pokemon(99));
    assert_eq!(player.active_pokemon, Some(1));
}

#[test]
fn the_bench_takes_five_pokemon() {
    let mut player = Player::new("P".to_string());
    player.hand = vec![1, 2, 3, 4, 5, 6, 7];
    for id in 1..=5 {
        assert!(player.bench_pokemon(id));
    }
    assert!(!player.bench_pokemon(6));
    assert_eq!(player.bench, vec![1, 2, 3, 4, 5]);
    assert_eq!(player.hand, vec![6, 7]);

    // the first active Pokemon displaces nobody
    assert!(player.set_active_pokemon(6));
    // the next one from the hand would displace it onto a full bench
    assert!(!player.set_active_pokemon(7));
    assert_eq!(player.active_pokemon, Some(6));
    assert_eq!(player.hand, vec![7]);
    // one from the bench changes places with it
    assert!(player.set_active_pokemon(3));
    assert_eq!(player.bench, vec![1, 2, 4, 5, 6]);
}

#[test]
fn energy_goes_to_pokemon_in_play_only() {
    let mut player = Player::new("P".to_string());
    player.hand = vec![10, 11, 12];
    player.active_pokemon = Some(1);
    player.bench = vec![2];
    assert!(!player.attach_energy(10, 3));
    assert!(!player.attach_energy(99, 1));
    assert!(player.attach_energy(10, 2));
    assert!(player.attach_energy(11, 2));
    assert_eq!(player.attached_energy.get(&2), Some(&vec![10, 11]));
    assert_eq!(player.get_attached_energy_count(2), 2);
    assert_eq!(player.get_attached_energy_count(1), 0);
    assert_eq!(player.hand, vec![12]);
}

#[test]
fn attached_energy_types_follow_the_database() {
    let mut player = Player::new("P".to_string());
    let fire = energy_card(EnergyType::Fire);
    let water = energy_card(EnergyType::Water);
    let pokemon = pokemon_card(EvolutionStage::Basic, 60);
    let unknown = new_id();
    player.hand = vec![fire.id, pokemon.id, water.id, unknown];
    player.active_pokemon = Some(1);
    for id in player.hand.clone() {
        assert!(player.attach_energy(id, 1));
    }
    let mut db = HashMap::new();
    db.insert(fire.id, fire);
    db.insert(water.id, water);
    db.insert(pokemon.id, pokemon);
    assert_eq!(player.get_attached_energy_types(1, &db), vec![EnergyType::Fire, EnergyType::Water]);
    assert!(player.get_attached_energy_types(2, &db).is_empty());
}

#[test]
fn a_pokemon_is_knocked_out_at_its_hit_points() {
    let mut player = Player::new("P".to_string());
    let card = pokemon_card(EvolutionStage::Basic, 60);
    let id = card.id;
    assert!(!player.is_pokemon_knocked_out(id, &card));
    player.add_damage(id, 59);
    assert!(!player.is_pokemon_knocked_out(id, &card));
    player.add_damage(id, 1);
    assert!(player.is_pokemon_knocked_out(id, &card));
    assert_eq!(player.damage_on(id), 60);
    let energy = energy_card(EnergyType::Fire);
    assert!(!player.is_pokemon_knocked_out(id, &energy));
}

#[test]
fn basic_pokemon_are_found_in_hand() {
    let mut player = Player::new("P".to_string());
    let basic = pokemon_card(EvolutionStage::Basic, 60);
    let evolved = pokemon_card(EvolutionStage::Stage1, 90);
    let energy = energy_card(EnergyType::Fire);
    let unknown = new_id();
    player.hand = vec![evolved.id, basic.id, unknown, energy.id, basic.id];
    let basic_id = basic.id;
    let mut db = HashMap::new();
    db.insert(basic.id, basic);
    db.insert(evolved.id, evolved);
    db.insert(energy.id, energy);
    assert_eq!(player.find_basic_pokemon_in_hand(&db), vec![basic_id, basic_id]);
}

#[test]
fn cards_are_located() {
    let mut player = Player::new("P".to_string());
    player.hand = vec![1];
    player.deck = vec![2, 1];
    player.discard_pile = vec![3];
    player.active_pokemon = Some(4);
    player.bench = vec![5, 6];
    player.hand.push(7);
    assert!(player.attach_energy(7, 6));
    assert_eq!(player.find_card_location(1), Some(CardLocation::Hand));
    assert_eq!(player.find_card_location(2), Some(CardLocation::Deck));
    assert_eq!(player.find_card_location(3), Some(CardLocation::DiscardPile));
    assert_eq!(player.find_card_location(4), Some(CardLocation::Active));
    assert_eq!(player.find_card_location(6), Some(CardLocation::Bench(1)));
    assert_eq!(player.find_card_location(7), Some(CardLocation::AttachedEnergy(6)));
    assert_eq!(player.find_card_location(8), None);
}

#[test]
fn conditions_yield_their_effects_in_order() {
    let mut player = Player::new("P".to_string());
    player.add_special_condition(9, SpecialCondition::Burned { damage_per_turn: 20 }, 1, 1);
    player.add_special_condition(9, SpecialCondition::Asleep, 0, 1);
    player.add_special_condition(9, SpecialCondition::Poisoned { damage_per_turn: 10 }, 2, 1);
    let effects = player.update_special_conditions(2);
    assert_eq!(
        effects,
        vec![
            ConditionEffect::Damage { pokemon_id: 9, amount: 20, source: "Burn".to_string() },
            ConditionEffect::CoinFlip {
                pokemon_id: 9,
                condition: "Burn removal".to_string(),
                on_success: "Remove burn condition".to_string(),
            },
            ConditionEffect::ConditionRemoved {
                pokemon_id: 9,
                condition: "Burned { damage_per_turn: 20 }".to_string(),
            },
            ConditionEffect::CoinFlip {
                pokemon_id: 9,
                condition: "Wake up".to_string(),
                on_success: "Remove sleep condition".to_string(),
            },
            ConditionEffect::Damage { pokemon_id: 9, amount: 10, source: "Poison".to_string() },
        ]
    );
    let left = player.get_special_conditions(9);
    assert_eq!(left.len(), 2);
    assert_eq!(left[0].condition, SpecialCondition::Asleep);
    assert_eq!(left[0].duration, 0);
    assert_eq!(left[1].duration, 1);
    assert_eq!(left[1].applied_turn, 1);

    let effects = player.update_special_conditions(3);
    assert_eq!(effects.len(), 3);
    assert_eq!(
        effects[2],
        ConditionEffect::ConditionRemoved {
            pokemon_id: 9,
            condition: "Poisoned { damage_per_turn: 10 }".to_string(),
        }
    );
    assert_eq!(player.get_special_conditions(9).len(), 1);
}

#[test]
fn a_pokemon_without_conditions_has_no_entry() {
    let mut player = Player::new("P".to_string());
    player.add_special_condition(1, SpecialCondition::Trapped, 1, 1);
    player.add_special_condition(2, SpecialCondition::Confused, -1, 1);
    let effects = player.update_special_conditions(2);
    assert_eq!(
        effects,
        vec![ConditionEffect::ConditionRemoved { pokemon_id: 1, condition: "Trapped".to_string() }]
    );
    assert!(!player.special_conditions.contains_key(&1));
    assert!(player.special_conditions.contains_key(&2));
    assert!(player.can_pokemon_retreat(1));
}

#[test]
fn a_custom_condition_is_named_in_debug_notation() {
    let mut player = Player::new("P".to_string());
    let mut data = StringMap::new();
    data.insert("origin".to_string(), "stadium".to_string());
    player.add_special_condition_with_data(
        5,
        SpecialCondition::Custom { name: "Fog \"thick\"".to_string(), description: "a\\b".to_string() },
        1,
        4,
        data,
    );
    let kept = player.get_special_conditions(5);
    assert_eq!(kept[0].data.get("origin"), Some(&"stadium".to_string()));
    assert_eq!(kept[0].applied_turn, 4);
    let effects = player.update_special_conditions(5);
    assert_eq!(
        effects,
        vec![ConditionEffect::ConditionRemoved {
            pokemon_id: 5,
            condition: "Custom { name: \"Fog \\\"thick\\\"\", description: \"a\\\\b\" }".to_string(),
        }]
    );
    assert_eq!(SpecialCondition::Confused.describe(), "Confused");
    assert_eq!(
        SpecialCondition::Custom { name: "x".to_string(), description: "y".to_string() }.describe(),
        format!("{:?}", SpecialCondition::Custom { name: "x".to_string(), description: "y".to_string() })
    );
    assert_eq!(
        SpecialCondition::Poisoned { damage_per_turn: 4294967295 }.describe(),
        format!("{:?}", SpecialCondition::Poisoned { damage_per_turn: 4294967295 })
    );
}

#[test]
fn removing_a_kind_of_condition_keeps_the_others() {
    let mut player = Player::new("P".to_string());
    player.add_special_condition(1, SpecialCondition::Poisoned { damage_per_turn: 10 }, -1, 1);
    player.add_special_condition(1, SpecialCondition::Asleep, -1, 1);
    player.add_special_condition(1, SpecialCondition::Poisoned { damage_per_turn: 30 }, -1, 2);
    player.add_special_condition(1, SpecialCondition::Trapped, -1, 2);
    player.remove_special_condition_type(1, &SpecialCondition::Poisoned { damage_per_turn: 0 });
    let kept = player.get_special_conditions(1);
    assert_eq!(kept.len(), 2);
    assert_eq!(kept[0].condition, SpecialCondition::Asleep);
    assert_eq!(kept[1].condition, SpecialCondition::Trapped);
    player.remove_special_condition_type(7, &SpecialCondition::Asleep);
    assert!(!player.special_conditions.contains_key(&7));
}

#[test]
fn a_turn_resets_the_flags() {
    let mut player = Player::new("P".to_string());
    player.has_attacked = true;
    player.can_play_trainer = false;
    player.end_turn();
    assert!(player.has_attacked);
    player.start_turn();
    assert!(!player.has_attacked);
    assert!(player.can_play_trainer);
    assert!(player.has_lost());
    player.bench.push(1);
    assert!(!player.has_lost());
    assert!(!player.has_won());
}
