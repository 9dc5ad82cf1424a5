use ptcg_core::{ConsoleEventHandler, Event, EventBus, EventHandler, GameEvent};

fn new_id() -> u128 {
    uuid::Uuid::new_v4().as_u128()
}

fn current_timestamp() -> u64 {
    std::time::SystemTime::now()
        .duration_since(std::time::UNIX_EPOCH)
        .unwrap_or_default()
        .as_secs()
}

#[test]
fn test_event_bus_creation() {
    let bus: EventBus<ConsoleEventHandler> = EventBus::new();
    assert_eq!(bus.handler_count(), 0);
    assert_eq!(bus.get_history().len(), 0);
}

#[test]
fn test_register_handler() {
    let mut bus = EventBus::new();
    let handler = ConsoleEventHandler::new(false);

    bus.register_handler(handler);
    assert_eq!(bus.handler_count(), 1);
}

#[test]
fn test_emit_event() {
    let mut bus = EventBus::new();
    let handler = ConsoleEventHandler::new(false);
    bus.register_handler(handler);

    let event = GameEvent::TurnStarted {
        timestamp: current_timestamp(),
        player_id: new_id(),
        turn_number: 1,
    };

    bus.emit(&event);
    assert_eq!(bus.get_history().len(), 1);
}

#[test]
fn an_event_is_stored_with_what_it_tells() {
    let player = uuid::Uuid::parse_str("a1a2a3a4-b1b2-c1c2-d1d2-d3d4d5d6d7d8").unwrap().as_u128();
    let card = 0x0000_0000_0000_4000_8000_0000_0000_00ffu128;
    let played = GameEvent::CardPlayed {
        timestamp: 12,
        player_id: player,
        card_id: card,
        from_location: "hand".to_string(),
        to_location: "bench".to_string(),
    };
    assert_eq!(played.event_type(), "CardPlayed");
    assert_eq!(played.timestamp(), 12);
    assert_eq!(played.player_id(), Some(player));
    let stored = played.to_serializable();
    assert_eq!(stored.event_type, "CardPlayed");
    assert_eq!(stored.timestamp, 12);
    assert_eq!(stored.player_id, Some(player));
    assert_eq!(
        stored.data.get("card_id"),
        Some(&"00000000-0000-4000-8000-0000000000ff".to_string())
    );
    assert_eq!(stored.data.get("from_location"), Some(&"hand".to_string()));
    assert_eq!(stored.data.get("to_location"), Some(&"bench".to_string()));
    assert_ne!(stored.id, played.to_serializable().id);

    let started = GameEvent::GameStarted { timestamp: 1, players: vec![player, card] };
    assert_eq!(started.player_id(), None);
    assert_eq!(
        started.to_serializable().data.get("players"),
        Some(&format!("{:?}", vec![uuid::Uuid::from_u128(player), uuid::Uuid::from_u128(card)]))
    );
    let nobody = GameEvent::GameStarted { timestamp: 1, players: vec![] };
    assert_eq!(nobody.to_serializable().data.get("players"), Some(&"[]".to_string()));

    let ended = GameEvent::GameEnded { timestamp: 2, winner: Some(player), reason: "prizes".to_string() };
    let stored = ended.to_serializable();
    assert_eq!(
        stored.data.get("winner"),
        Some(&"Some(a1a2a3a4-b1b2-c1c2-d1d2-d3d4d5d6d7d8)".to_string())
    );
    assert_eq!(stored.data.get("reason"), Some(&"prizes".to_string()));

    let drawn = GameEvent::CardDrawn { timestamp: 3, player_id: player, card_id: None };
    assert_eq!(drawn.to_serializable().data.get("card_id"), Some(&"None".to_string()));
    let turn = GameEvent::TurnStarted { timestamp: 4, player_id: player, turn_number: 4000000000 };
    assert_eq!(turn.to_serializable().data.get("turn_number"), Some(&"4000000000".to_string()));
    let end = GameEvent::TurnEnded { timestamp: 5, player_id: player };
    assert!(end.to_serializable().data.is_empty());
    assert_eq!(end.event_type(), "TurnEnded");
}

#[test]
fn the_history_keeps_the_latest_events() {
    let mut bus: EventBus<ConsoleEventHandler> = EventBus::with_history_limit(3);
    for turn in 1..=5u32 {
        bus.emit(&GameEvent::TurnStarted { timestamp: turn as u64, player_id: 9, turn_number: turn });
    }
    let times: Vec<u64> = bus.get_history().iter().map(|e| e.timestamp).collect();
    assert_eq!(times, vec![3, 4, 5]);
    bus.emit(&GameEvent::TurnEnded { timestamp: 6, player_id: 8 });
    bus.emit(&GameEvent::GameEnded { timestamp: 7, winner: None, reason: "r".to_string() });
    assert_eq!(bus.get_player_events(9).len(), 1);
    assert_eq!(bus.get_player_events(8)[0].timestamp, 6);
    assert_eq!(bus.get_events_by_type("GameEnded").len(), 1);
    assert_eq!(bus.get_events_by_type("TurnStarted")[0].timestamp, 5);
    assert!(bus.get_events_by_type("CardDrawn").is_empty());
    bus.clear_history();
    assert!(bus.get_history().is_empty());

    let mut none: EventBus<ConsoleEventHandler> = EventBus::with_history_limit(0);
    none.emit(&GameEvent::TurnEnded { timestamp: 6, player_id: 8 });
    assert!(none.get_history().is_empty());
    let default_bus: EventBus<ConsoleEventHandler> = EventBus::default();
    assert_eq!(default_bus.max_history, 1000);
}

#[test]
fn handlers_are_told_at_once_and_in_order() {
    let mut bus = EventBus::new();
    bus.register_handler(ConsoleEventHandler::new(false));
    bus.register_handler(ConsoleEventHandler::new(true));
    bus.emit(&GameEvent::TurnStarted { timestamp: 17, player_id: 1, turn_number: 2 });
    assert_eq!(bus.handlers[0].lines, vec!["[17] TurnStarted".to_string()]);
    let player = uuid::Uuid::from_u128(1);
    assert_eq!(bus.handlers[1].lines, vec![format!("[17] TurnStarted: Some({})", player)]);
    bus.emit(&GameEvent::GameStarted { timestamp: 0, players: vec![] });
    assert_eq!(bus.handlers[0].lines.len(), 2);
    assert_eq!(bus.handlers[1].lines[1], "[0] GameStarted: None");
    let lines = bus.handlers[0].take_lines();
    assert_eq!(lines, vec!["[17] TurnStarted".to_string(), "[0] GameStarted".to_string()]);
    assert!(bus.handlers[0].lines.is_empty());
    assert!(bus.handlers[0].handles_event_type("anything"));
}
