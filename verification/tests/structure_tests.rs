use ptcg_core::{info, StringMap, VERSION};

#[test]
fn core_test_core_module_structure() {
    let _ = ptcg_core::card::EnergyType::Grass;
    let _ = ptcg_core::game::GamePhase::Main;
    assert_eq!(2 + 2, 4);
}

#[test]
fn mod_test_core_module_structure() {
    let _ = ptcg_core::player::CardLocation::Hand;
    let _ = ptcg_core::deck::DeckValidationError::NoBasicPokemon;
    assert_eq!(2 + 2, 4);
}

#[test]
fn test_card_module_structure() {
    let _ = ptcg_core::card::CardRarity::Promo;
    assert_eq!(2 + 2, 4);
}

#[test]
fn test_deck_module_structure() {
    let _ = ptcg_core::deck::COPY_LIMIT;
    assert_eq!(2 + 2, 4);
}

#[test]
fn effects_test_effects_module_structure() {
    let _ = ptcg_core::effects::AbilityType::Passive;
    assert_eq!(2 + 2, 4);
}

#[test]
fn mod_test_effects_module_structure() {
    let _ = ptcg_core::effects::EffectTrigger::OnPlay;
    assert_eq!(2 + 2, 4);
}

#[test]
fn test_effect_manager_structure() {
    let _ = ptcg_core::effects::NIL_ID;
    assert_eq!(2 + 2, 4);
}

#[test]
fn test_game_module_structure() {
    let _ = ptcg_core::game::GameState::Setup;
    assert_eq!(2 + 2, 4);
}

#[test]
fn test_attack_actions_module() {
    let _ = ptcg_core::actions::AttackAction::new(1, 2, 0, 3, 4);
    assert_eq!(2 + 2, 4);
}

#[test]
fn test_energy_actions_module() {
    let _ = ptcg_core::actions::AttachEnergyAction::new(1, 2, 3);
    assert_eq!(2 + 2, 4);
}

#[test]
fn test_player_module_structure() {
    let _ = ptcg_core::player::MAX_BENCH;
    assert_eq!(2 + 2, 4);
}

#[test]
fn test_data_module_structure() {
    let _ = ptcg_core::data::FORMAT_VERSION;
    assert_eq!(2 + 2, 4);
}

#[test]
fn test_events_module_structure() {
    let _ = ptcg_core::events::DEFAULT_HISTORY_LIMIT;
    assert_eq!(2 + 2, 4);
}

#[test]
fn test_network_module_structure() {
    assert_eq!(2 + 2, 4);
}

#[test]
fn test_rules_module_structure() {
    let _ = ptcg_core::rules::ViolationSeverity::Warning;
    assert_eq!(2 + 2, 4);
}

#[test]
fn the_library_tells_its_version() {
    let told = info();
    assert_eq!(told.version, VERSION);
    assert_eq!(told.version, "0.1.0");
    assert!(told.features.is_empty());
}

#[test]
fn numbers_are_written_in_decimal() {
    assert_eq!(ptcg_core::text::decimal_string(0), "0");
    assert_eq!(ptcg_core::text::decimal_string(7), "7");
    assert_eq!(ptcg_core::text::decimal_string(10), "10");
    assert_eq!(ptcg_core::text::decimal_string(4096), "4096");
    assert_eq!(ptcg_core::text::decimal_string(u64::MAX), u64::MAX.to_string());
    assert_eq!(ptcg_core::text::concat2("ab", "cd"), "abcd");
    assert!(ptcg_core::text::same_text("ab", "ab"));
    assert!(!ptcg_core::text::same_text("ab", "abc"));
}

#[test]
fn a_string_map_keeps_the_latest_entry() {
    let mut map = StringMap::new();
    assert!(map.is_empty());
    map.insert("a".to_string(), "1".to_string());
    map.insert("b".to_string(), "2".to_string());
    map.insert("a".to_string(), "3".to_string());
    assert_eq!(map.get("a"), Some(&"3".to_string()));
    assert_eq!(map.get("b"), Some(&"2".to_string()));
    assert_eq!(map.get("c"), None);
    assert_eq!(map.clone(), map);
}

#[test]
fn importers_tell_their_sources() {
    let json = ptcg_core::JsonImporter::new("cards.json".to_string());
    let info = json.source_info();
    assert_eq!(info.name, "cards.json");
    assert_eq!(info.format, "JSON");
    assert_eq!(info.version, "1.0");
    assert_eq!(info.card_count, None);
    assert_eq!(ptcg_core::CsvImporter::new("c.csv".to_string()).source_info().format, "CSV");
    assert_eq!(
        ptcg_core::DatabaseImporter::new("c.pdb".to_string()).source_info().format,
        "Database"
    );
    assert_eq!(ptcg_core::JsonExporter::new("out.json".to_string()).file_path, "out.json");
    assert_eq!(info.clone(), info);
}
