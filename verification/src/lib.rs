//! Rules core for a two-player trading-card game: cards, decks, players,
//! match setup, turn control, rule validation and card effects.

pub mod actions;
pub mod card;
pub mod card_effects;
pub mod data;
pub mod deck;
pub mod effects;
pub mod events;
pub mod game;
pub mod ids;
pub mod info;
pub mod laws;
pub mod player;
pub mod random;
pub mod rules;
pub mod seqs;
pub mod setup;
pub mod tally;
pub mod text;
pub mod turn;

pub use actions::{AttachEnergyAction, AttackAction};
pub use card::{
    Ability, Attack, AttackTargetType, Card, CardRarity, CardType, DamageMode, EnergyType,
    EvolutionStage, StatusCondition, StatusEffect, TrainerType,
};
pub use card_effects::{
    DamageEffect, PokemonAbilityEffect, PokemonAttackEffect, SpecialEnergyEffect, TrainerEffect,
};
pub use data::{CsvImporter, DatabaseImporter, JsonExporter, JsonImporter, SourceInfo};
pub use deck::{Deck, DeckStatistics, DeckValidationError, EnergyDistribution};
pub use effects::{
    AbilityType, BaseEffect, Effect, EffectContext, EffectError, EffectManager, EffectOutcome,
    EffectResult, EffectTarget, EffectTrigger, EffectType, TargetRequirement,
};
pub use events::{
    ConsoleEventHandler, Event, EventBus, EventHandler, GameEvent, SerializableEvent,
};
pub use game::{Game, GamePhase, GameRules, GameState, SetupPhase};
pub use ids::{CardId, DeckId, EffectId, EventId, GameId, PlayerId};
pub use info::{info, LibraryInfo, VERSION};
pub use player::{
    CardLocation, ConditionEffect, Player, SpecialCondition, SpecialConditionInstance,
};
pub use rules::{
    EnergyAttachmentRule, GameAction, HandLimitRule, Rule, RuleConfig, RuleEngine, RuleResult,
    RuleViolation, StandardRule, StandardRules, TurnOrderRule, ViolationSeverity,
};
pub use setup::MulliganResult;
pub use text::StringMap;
