use ptcg_core::{
    Card, CardId, CardRarity, CardType, Deck, DeckValidationError, EnergyType, EvolutionStage,
    TrainerType,
};
use std::collections::HashMap;

fn new_id() -> CardId {
    uuid::Uuid::new_v4().as_u128()
}

fn create_test_card(name: &str, card_type: CardType) -> Card {
    Card::new(
        name.to_string(),
        card_type,
        "Test Set".to_string(),
        "001".to_string(),
        CardRarity::Common,
    )
}

fn basic_pokemon(name: &str) -> Card {
    create_test_card(
        name,
        CardType::Pokemon {
            species: name.to_string(),
            hp: 60,
            retreat_cost: 1,
            weakness: None,
            resistance: None,
            stage: EvolutionStage::Basic,
            evolves_from: None,
        },
    )
}

fn stage_one(name: &str) -> Card {
    create_test_card(
        name,
        CardType::Pokemon {
            species: name.to_string(),
            hp: 90,
            retreat_cost: 1,
            weakness: None,
            resistance: None,
            stage: EvolutionStage::Stage1,
            evolves_from: Some("Pikachu".to_string()),
        },
    )
}

fn basic_energy() -> Card {
    create_test_card(
        "Lightning Energy",
        CardType::Energy { energy_type: EnergyType::Lightning, is_basic: true },
    )
}

fn special_energy() -> Card {
    create_test_card(
        "Double Colorless Energy",
        CardType::Energy { energy_type: EnergyType::Colorless, is_basic: false },
    )
}

fn trainer() -> Card {
    create_test_card("Professor Oak", CardType::Trainer { trainer_type: TrainerType::Supporter })
}

#[test]
fn test_create_deck() {
    let deck = Deck::new("Test Deck".to_string(), "Standard".to_string());
    assert_eq!(deck.name, "Test Deck");
    assert_eq!(deck.format, "Standard");
    assert_eq!(deck.total_cards(), 0);
}

#[test]
fn test_add_remove_cards() {
    let mut deck = Deck::new("Test Deck".to_string(), "Standard".to_string());
    let card_id = new_id();

    deck.add_card(card_id, 4);
    assert_eq!(deck.get_card_quantity(card_id), 4);
    assert_eq!(deck.total_cards(), 4);

    deck.remove_up_to(card_id, 2);
    assert_eq!(deck.get_card_quantity(card_id), 2);
    assert_eq!(deck.total_cards(), 2);

    deck.remove_up_to(card_id, 3);
    assert_eq!(deck.get_card_quantity(card_id), 0);
    assert_eq!(deck.total_cards(), 0);
}

#[test]
fn test_deck_validation() {
    let mut deck = Deck::new("Test Deck".to_string(), "Standard".to_string());
    let mut card_db = HashMap::new();

    let basic_pokemon = basic_pokemon("Pikachu");
    let basic_id = basic_pokemon.id;
    card_db.insert(basic_id, basic_pokemon);

    let energy = basic_energy();
    let energy_id = energy.id;
    card_db.insert(energy_id, energy);

    deck.add_card(basic_id, 4);
    deck.add_card(energy_id, 56);

    let result = deck.validate(&card_db);
    assert!(result.is_ok());
}

#[test]
fn test_deck_shuffle() {
    let mut deck = Deck::new("Test Deck".to_string(), "Standard".to_string());
    let card_ids: Vec<CardId> = (0..10).map(|_| new_id()).collect();

    for &card_id in &card_ids {
        deck.add_card(card_id, 1);
    }

    let shuffled = deck.shuffle();
    assert_eq!(shuffled.len(), 10);

    for &card_id in &card_ids {
        assert!(shuffled.contains(&card_id));
    }
}

#[test]
fn deck_test_deck_statistics() {
    let mut deck = Deck::new("Test Deck".to_string(), "Standard".to_string());
    let mut card_db = HashMap::new();

    let pokemon = basic_pokemon("Pikachu");
    let pokemon_id = pokemon.id;
    card_db.insert(pokemon_id, pokemon);
    deck.add_card(pokemon_id, 4);

    let energy = basic_energy();
    let energy_id = energy.id;
    card_db.insert(energy_id, energy);
    deck.add_card(energy_id, 10);

    let stats = deck.get_statistics(&card_db);
    assert_eq!(stats.pokemon_count, 4);
    assert_eq!(stats.energy_count, 10);
    assert_eq!(stats.total_cards, 14);
    assert_eq!(stats.unique_cards, 2);
}

#[test]
fn test_deck_creation() {
    let deck = Deck::new("Test Deck".to_string(), "Standard".to_string());
    assert_eq!(deck.name, "Test Deck");
    assert_eq!(deck.format, "Standard");
    assert_eq!(deck.total_cards(), 0);
}

#[test]
fn test_add_and_remove_cards() {
    let mut deck = Deck::new("Test Deck".to_string(), "Standard".to_string());
    let card_id = new_id();

    deck.add_card(card_id, 4);
    assert_eq!(deck.get_card_count(card_id), 4);
    assert_eq!(deck.total_cards(), 4);

    assert!(deck.remove_card(card_id, 2));
    assert_eq!(deck.get_card_count(card_id), 2);
    assert_eq!(deck.total_cards(), 2);

    assert!(deck.remove_card(card_id, 2));
    assert_eq!(deck.get_card_count(card_id), 0);
    assert_eq!(deck.total_cards(), 0);
    assert!(!deck.contains_card(card_id));
}

#[test]
fn test_remove_more_than_available() {
    let mut deck = Deck::new("Test Deck".to_string(), "Standard".to_string());
    let card_id = new_id();

    deck.add_card(card_id, 2);
    assert!(!deck.remove_card(card_id, 3));
    assert_eq!(deck.get_card_count(card_id), 2);
}

#[test]
fn validation_test_deck_statistics() {
    let mut deck = Deck::new("Test Deck".to_string(), "Standard".to_string());
    let mut card_database = HashMap::new();

    let pokemon_card = basic_pokemon("Pikachu");
    let energy_card = basic_energy();
    let trainer_card = trainer();

    let pokemon_id = pokemon_card.id;
    let energy_id = energy_card.id;
    let trainer_id = trainer_card.id;

    card_database.insert(pokemon_id, pokemon_card);
    card_database.insert(energy_id, energy_card);
    card_database.insert(trainer_id, trainer_card);

    deck.add_card(pokemon_id, 4);
    deck.add_card(energy_id, 20);
    deck.add_card(trainer_id, 10);

    let stats = deck.get_statistics(&card_database);
    assert_eq!(stats.total_cards, 34);
    assert_eq!(stats.pokemon_count, 4);
    assert_eq!(stats.energy_count, 20);
    assert_eq!(stats.trainer_count, 10);
    assert_eq!(stats.basic_pokemon_count, 4);
}

#[test]
fn test_valid_deck_validation() {
    let mut deck = Deck::new("Valid Deck".to_string(), "Standard".to_string());
    let mut card_database = HashMap::new();

    let pokemon_card = basic_pokemon("Pikachu");
    let energy_card = basic_energy();

    let pokemon_id = pokemon_card.id;
    let energy_id = energy_card.id;

    card_database.insert(pokemon_id, pokemon_card);
    card_database.insert(energy_id, energy_card);

    deck.add_card(pokemon_id, 4);
    deck.add_card(energy_id, 56);

    let result = deck.validate(&card_database);
    assert!(result.is_ok());
}

#[test]
fn test_invalid_deck_validation() {
    let mut deck = Deck::new("Invalid Deck".to_string(), "Standard".to_string());
    let mut card_database = HashMap::new();

    let pokemon_card = basic_pokemon("Pikachu");
    let energy_card = basic_energy();

    let pokemon_id = pokemon_card.id;
    let energy_id = energy_card.id;

    card_database.insert(pokemon_id, pokemon_card);
    card_database.insert(energy_id, energy_card);

    deck.add_card(pokemon_id, 4);
    deck.add_card(energy_id, 50);

    let result = deck.validate(&card_database);
    assert!(result.is_err());
    let errors = result.unwrap_err();
    assert_eq!(errors.len(), 1);
    assert!(matches!(errors[0], DeckValidationError::TooFewCards { .. }));
}

#[test]
fn a_deck_of_four_basics_and_fifty_six_basic_energy_is_legal() {
    let mut deck = Deck::new("A".to_string(), "Standard".to_string());
    let mut db = HashMap::new();
    let pokemon = basic_pokemon("Pikachu");
    let energy = basic_energy();
    deck.add_card(pokemon.id, 4);
    deck.add_card(energy.id, 56);
    db.insert(pokemon.id, pokemon);
    db.insert(energy.id, energy);
    assert_eq!(deck.validate(&db), Ok(()));
}

#[test]
fn a_deck_of_fifty_four_cards_is_too_small() {
    let mut deck = Deck::new("B".to_string(), "Standard".to_string());
    let mut db = HashMap::new();
    let pokemon = basic_pokemon("Pikachu");
    let energy = basic_energy();
    deck.add_card(pokemon.id, 4);
    deck.add_card(energy.id, 50);
    db.insert(pokemon.id, pokemon);
    db.insert(energy.id, energy);
    assert_eq!(
        deck.validate(&db),
        Err(vec![DeckValidationError::TooFewCards { minimum: 60, actual: 54 }])
    );
}

#[test]
fn every_kind_of_error_and_their_order() {
    let mut deck = Deck::new("C".to_string(), "Expanded".to_string());
    let mut db = HashMap::new();
    let evolved = stage_one("Raichu");
    let evolved_id = evolved.id;
    let energy = basic_energy();
    let special = special_energy();
    let special_id = special.id;
    deck.add_card(evolved_id, 5);
    deck.add_card(energy.id, 50);
    deck.add_card(special_id, 6);
    db.insert(evolved.id, evolved);
    db.insert(energy.id, energy);
    db.insert(special.id, special);

    let errors = deck.validate(&db).unwrap_err();
    assert_eq!(errors.len(), 4);
    assert_eq!(errors[0], DeckValidationError::TooManyCards { maximum: 60, actual: 61 });
    let raichu = DeckValidationError::TooManyCopies { card_id: evolved_id, maximum: 4, actual: 5 };
    let colorless = DeckValidationError::TooManyCopies { card_id: special_id, maximum: 4, actual: 6 };
    assert!(errors[1..3].contains(&raichu));
    assert!(errors[1..3].contains(&colorless));
    assert_eq!(errors[3], DeckValidationError::NoBasicPokemon);
}

#[test]
fn the_size_rule_goes_by_the_format() {
    let mut db = HashMap::new();
    let pokemon = basic_pokemon("Pikachu");
    let pokemon_id = pokemon.id;
    let energy = basic_energy();
    let energy_id = energy.id;
    db.insert(pokemon.id, pokemon);
    db.insert(energy.id, energy);

    let mut limited = Deck::new("L".to_string(), "Limited".to_string());
    limited.add_card(pokemon_id, 4);
    limited.add_card(energy_id, 35);
    assert_eq!(
        limited.validate(&db),
        Err(vec![DeckValidationError::TooFewCards { minimum: 40, actual: 39 }])
    );
    limited.add_card(energy_id, 1);
    assert_eq!(limited.validate(&db), Ok(()));
    limited.add_card(energy_id, 30);
    assert_eq!(limited.validate(&db), Ok(()));

    let mut custom = Deck::new("K".to_string(), "Kitchen Table".to_string());
    custom.add_card(pokemon_id, 1);
    assert_eq!(custom.validate(&db), Ok(()));

    let mut expanded = Deck::new("E".to_string(), "Expanded".to_string());
    expanded.add_card(pokemon_id, 4);
    expanded.add_card(energy_id, 57);
    assert_eq!(
        expanded.validate(&db),
        Err(vec![DeckValidationError::TooManyCards { maximum: 60, actual: 61 }])
    );
}

#[test]
fn cards_that_the_database_does_not_know_count_for_the_size_only() {
    let mut db = HashMap::new();
    let pokemon = basic_pokemon("Pikachu");
    let pokemon_id = pokemon.id;
    db.insert(pokemon.id, pokemon);
    let unknown = new_id();

    let mut deck = Deck::new("U".to_string(), "Standard".to_string());
    deck.add_card(pokemon_id, 1);
    deck.add_card(unknown, 59);
    assert_eq!(deck.validate(&db), Ok(()));

    let stats = deck.get_statistics(&db);
    assert_eq!(stats.total_cards, 1);
    assert_eq!(stats.unique_cards, 1);
    assert_eq!(stats.basic_pokemon_count, 1);
    assert_eq!(deck.total_cards(), 60);
}

#[test]
fn statistics_are_the_same_when_taken_again() {
    let mut deck = Deck::new("S".to_string(), "Standard".to_string());
    let mut db = HashMap::new();
    let pokemon = basic_pokemon("Pikachu");
    let evolved = stage_one("Raichu");
    let item = trainer();
    deck.add_card(pokemon.id, 3);
    deck.add_card(evolved.id, 2);
    deck.add_card(item.id, 7);
    db.insert(pokemon.id, pokemon);
    db.insert(evolved.id, evolved);
    db.insert(item.id, item);

    let first = deck.get_statistics(&db);
    let second = deck.get_statistics(&db);
    assert_eq!(first, second);
    assert_eq!(first.pokemon_count, 5);
    assert_eq!(first.basic_pokemon_count, 3);
    assert_eq!(first.trainer_count, 7);
    assert_eq!(first.energy_count, 0);
    assert_eq!(first.total_cards, 12);
    assert_eq!(first.unique_cards, 3);
}

#[test]
fn quantities_can_be_set_and_cards_listed() {
    let mut deck = Deck::new("Q".to_string(), "Standard".to_string());
    let a = new_id();
    let b = new_id();
    deck.add_card(a, 0);
    assert!(!deck.contains_card(a));
    deck.set_card_quantity(a, 3);
    deck.set_card_quantity(b, 2);
    assert_eq!(deck.total_cards(), 5);
    deck.set_card_quantity(a, 1);
    assert_eq!(deck.total_cards(), 3);
    deck.set_card_quantity(b, 0);
    assert!(!deck.contains_card(b));
    assert_eq!(deck.unique_cards(), vec![a]);

    deck.add_card(b, 2);
    let mut list = deck.to_card_list();
    list.sort();
    let mut expected = vec![a, b, b];
    expected.sort();
    assert_eq!(list, expected);

    let again = Deck::from_card_list("R".to_string(), "Standard".to_string(), vec![a, b, a, a]);
    assert_eq!(again.get_card_quantity(a), 3);
    assert_eq!(again.get_card_quantity(b), 1);
    assert_eq!(again.total_cards(), 4);
    assert_ne!(again.id, deck.id);
}

#[test]
fn a_seeded_shuffle_rearranges_the_cards() {
    let mut deck = Deck::new("Z".to_string(), "Standard".to_string());
    let ids: Vec<CardId> = (0..20).map(|_| new_id()).collect();
    for &id in &ids {
        deck.add_card(id, 2);
    }
    let plain = deck.to_card_list();
    let mut sorted_plain = plain.clone();
    sorted_plain.sort();
    let mut orders = Vec::new();
    for seed in 0..8u64 {
        let shuffled = deck.shuffle_seeded(seed);
        let mut sorted = shuffled.clone();
        sorted.sort();
        assert_eq!(sorted, sorted_plain);
        orders.push(shuffled);
    }
    assert!(orders.iter().any(|o| *o != orders[0]));
}

#[test]
fn deck_metadata_is_kept() {
    let mut deck = Deck::new("M".to_string(), "Standard".to_string());
    deck.add_metadata("author".to_string(), "Ash".to_string());
    assert_eq!(deck.metadata.get("author"), Some(&"Ash".to_string()));
}

#[test]
fn a_deck_is_written_as_text() {
    let mut deck = Deck::new("Sparks".to_string(), "Standard".to_string());
    let mut db = HashMap::new();
    let pokemon = basic_pokemon("Pikachu");
    let energy = basic_energy();
    let item = trainer();
    deck.add_card(pokemon.id, 4);
    deck.add_card(energy.id, 12);
    deck.add_card(item.id, 2);
    deck.add_card(new_id(), 9);
    db.insert(pokemon.id, pokemon);
    db.insert(energy.id, energy);
    db.insert(item.id, item);
    assert_eq!(
        deck.export_text(&db),
        "Deck: Sparks\nFormat: Standard\n\nPokemon:\n4 Pikachu\n\nTrainers:\n2 Professor Oak\n\nEnergy:\n12 Lightning Energy"
    );

    let empty = Deck::new("None".to_string(), "Limited".to_string());
    assert_eq!(empty.export_text(&db), "Deck: None\nFormat: Limited\n");

    let mut basics = Deck::new("B".to_string(), "X".to_string());
    let one = basic_pokemon("Eevee");
    let two = stage_one("Raichu");
    basics.add_card(one.id, 1);
    basics.add_card(two.id, 3);
    db.insert(one.id, one);
    db.insert(two.id, two);
    let text = basics.export_text(&db);
    assert!(
        text == "Deck: B\nFormat: X\n\nPokemon:\n1 Eevee\n3 Raichu\n"
            || text == "Deck: B\nFormat: X\n\nPokemon:\n3 Raichu\n1 Eevee\n"
    );
}

#[test]
fn energy_is_counted_by_type() {
    let mut deck = Deck::new("E".to_string(), "Standard".to_string());
    let mut db = HashMap::new();
    let lightning = basic_energy();
    let more_lightning = basic_energy();
    let colorless = special_energy();
    let fire = create_test_card(
        "Fire Energy",
        CardType::Energy { energy_type: EnergyType::Fire, is_basic: true },
    );
    let pokemon = basic_pokemon("Pikachu");
    deck.add_card(lightning.id, 7);
    deck.add_card(more_lightning.id, 2);
    deck.add_card(colorless.id, 3);
    deck.add_card(fire.id, 5);
    deck.add_card(pokemon.id, 4);
    deck.add_card(new_id(), 11);
    for card in [lightning, more_lightning, colorless, fire, pokemon] {
        db.insert(card.id, card);
    }
    let stats = deck.get_statistics(&db);
    assert_eq!(stats.energy_count, 17);
    assert_eq!(stats.energy_distribution.lightning, 9);
    assert_eq!(stats.energy_distribution.get(EnergyType::Lightning), 9);
    assert_eq!(stats.energy_distribution.get(EnergyType::Colorless), 3);
    assert_eq!(stats.energy_distribution.get(EnergyType::Fire), 5);
    assert_eq!(stats.energy_distribution.get(EnergyType::Water), 0);
    assert_eq!(stats.energy_distribution.grass, 0);
    let empty = ptcg_core::DeckStatistics::default();
    assert_eq!(empty.total_cards, 0);
    assert_eq!(empty.energy_distribution, ptcg_core::EnergyDistribution::new());
}
