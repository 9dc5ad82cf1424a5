//! The effects that cards come with: damage, abilities, attacks, trainer
//! cards and special energy.

use crate::card::{EnergyType, TrainerType};
use crate::effects::{
    copy_requirements, copy_triggers, described, invalid_target, nothing_done, one_outcome,
    AbilityType, BaseEffect, Effect, EffectContext, EffectError, EffectErrorView, EffectFinding,
    EffectHook, EffectOutcome, EffectOutcomeView, EffectResult, EffectTarget, EffectTrigger,
    TargetRequirement, NIL_ID,
};
use crate::game::{Game, GameView};
use crate::ids::{is_random_uuid, CardId, EffectId, PlayerId};
use crate::seqs::{contains, keys_of};
use crate::text::StringMap;
use vstd::prelude::*;

verus! {

/// Whether a player of the match has a Pokemon in play.
pub open spec fn holds(game: GameView, card_id: CardId, player_id: PlayerId) -> bool {
    game.players.contains_key(player_id) && game.players[player_id].in_play(card_id)
}

/// Whether a player has a Pokemon in play and no player with a smaller
/// identifier has.
pub open spec fn is_first_holder(game: GameView, card_id: CardId, player_id: PlayerId) -> bool {
    holds(game, card_id, player_id) && forall|q: PlayerId|
        holds(game, card_id, q) ==> player_id <= q
}

/// The player who has a Pokemon in play; of several, the one with the
/// smallest identifier.
pub open spec fn holder_of(game: GameView, card_id: CardId) -> Option<PlayerId> {
    if exists|p: PlayerId| holds(game, card_id, p) {
        Some(choose|p: PlayerId| is_first_holder(game, card_id, p))
    } else {
        None
    }
}

/// The Pokemon that damage is aimed at and the player who has it in play,
/// or the reason why there is none.
pub open spec fn damage_target(game: GameView, context: EffectContext) -> Result<
    (PlayerId, CardId),
    Seq<char>,
> {
    match context.target {
        Some(EffectTarget::Card(card_id)) => match holder_of(game, card_id) {
            Some(p) => Ok((p, card_id)),
            None => Err("Target Pokemon not found"@),
        },
        Some(EffectTarget::ActivePokemon(p)) => if !game.players.contains_key(p) {
            Err("Player not found"@)
        } else {
            match game.players[p].active_pokemon {
                Some(a) => Ok((p, a)),
                None => Err("No active Pokemon"@),
            }
        },
        _ => Err("Invalid target type"@),
    }
}

/// An energy type by its name.
pub open spec fn energy_text(energy_type: EnergyType) -> Seq<char> {
    match energy_type {
        EnergyType::Grass => "Grass"@,
        EnergyType::Fire => "Fire"@,
        EnergyType::Water => "Water"@,
        EnergyType::Lightning => "Lightning"@,
        EnergyType::Psychic => "Psychic"@,
        EnergyType::Fighting => "Fighting"@,
        EnergyType::Darkness => "Darkness"@,
        EnergyType::Metal => "Metal"@,
        EnergyType::Fairy => "Fairy"@,
        EnergyType::Dragon => "Dragon"@,
        EnergyType::Colorless => "Colorless"@,
    }
}

/// An energy type by its name.
pub fn energy_name(energy_type: EnergyType) -> (r: &'static str)
    ensures
        r@ == energy_text(energy_type),
{
    match energy_type {
        EnergyType::Grass => "Grass",
        EnergyType::Fire => "Fire",
        EnergyType::Water => "Water",
        EnergyType::Lightning => "Lightning",
        EnergyType::Psychic => "Psychic",
        EnergyType::Fighting => "Fighting",
        EnergyType::Darkness => "Darkness",
        EnergyType::Metal => "Metal",
        EnergyType::Fairy => "Fairy",
        EnergyType::Dragon => "Dragon",
        EnergyType::Colorless => "Colorless",
    }
}

/// What an effect returns that does nothing.
pub open spec fn nothing() -> EffectFinding {
    Ok(Seq::empty())
}

/// The player who has a Pokemon in play; of several, the one with the
/// smallest identifier.
pub fn find_holder(game: &Game, card_id: CardId) -> (r: Option<PlayerId>)
    ensures
        r == holder_of(game@, card_id),
        r matches Some(p) ==> is_first_holder(game@, card_id, p),
{
    broadcast use vstd::std_specs::hash::group_hash_axioms;

    let ids = keys_of(&game.players);
    proof {
        assert(game@.players.dom() =~= game.players@.dom());
    }
    let mut best: Option<PlayerId> = None;
    let mut i: usize = 0;
    while i < ids.len()
        invariant
            i <= ids@.len(),
            ids@.to_set() == game@.players.dom(),
            best is None ==> forall|j: int| 0 <= j < i ==> !holds(game@, card_id, #[trigger] ids@[j]),
            best matches Some(b) ==> holds(game@, card_id, b) && forall|j: int|
                0 <= j < i && holds(game@, card_id, #[trigger] ids@[j]) ==> b <= ids@[j],
        decreases ids@.len() - i,
    {
        let p = ids[i];
        assert(ids@.to_set().contains(p));
        match game.get_player(p) {
            Some(player) => {
                let active = match player.active_pokemon {
                    Some(a) => a == card_id,
                    None => false,
                };
                if active || contains(&player.bench, card_id) {
                    best = match best {
                        Some(b) => if p < b {
                            Some(p)
                        } else {
                            Some(b)
                        },
                        None => Some(p),
                    };
                }
            },
            None => {},
        }
        i += 1;
    }
    proof {
        match best {
            Some(b) => {
                assert forall|q: PlayerId| holds(game@, card_id, q) implies b <= q by {
                    assert(ids@.to_set().contains(q));
                    let j = choose|j: int| 0 <= j < ids@.len() && ids@[j] == q;
                    assert(holds(game@, card_id, ids@[j]));
                }
                assert(is_first_holder(game@, card_id, b));
                let c = choose|p: PlayerId| is_first_holder(game@, card_id, p);
                assert(is_first_holder(game@, card_id, c));
                assert(c <= b && b <= c);
            },
            None => {
                assert forall|q: PlayerId| !holds(game@, card_id, q) by {
                    if holds(game@, card_id, q) {
                        assert(ids@.to_set().contains(q));
                        let j = choose|j: int| 0 <= j < ids@.len() && ids@[j] == q;
                        assert(!holds(game@, card_id, ids@[j]));
                    }
                }
            },
        }
    }
    best
}

/// An effect that puts damage on a Pokemon.
#[derive(Clone, Debug)]
pub struct DamageEffect {
    pub base: BaseEffect,
    pub damage: u32,
    pub target_type: EffectTarget,
}

impl DamageEffect {
    pub fn new(name: String, damage: u32, target_type: EffectTarget) -> (r: Self)
        ensures
            is_random_uuid(r.base.id),
            r.base.name == name,
            r.base.description@ == "Deals damage to target"@,
            r.damage == damage,
            r.target_type == target_type,
    {
        DamageEffect {
            base: BaseEffect::new(name, String::from_str("Deals damage to target")),
            damage,
            target_type,
        }
    }
}

impl Effect for DamageEffect {
    open spec fn spec_id(&self) -> EffectId {
        self.base.id
    }

    open spec fn spec_name(&self) -> Seq<char> {
        self.base.name@
    }

    open spec fn spec_description(&self) -> Seq<char> {
        self.base.description@
    }

    open spec fn spec_triggers(&self) -> Seq<EffectTrigger> {
        seq![EffectTrigger::OnAttack]
    }

    open spec fn spec_target_requirements(&self) -> Seq<TargetRequirement> {
        seq![TargetRequirement::Pokemon, TargetRequirement::InPlay]
    }

    open spec fn spec_can_apply(&self, game: GameView, context: EffectContext) -> bool {
        true
    }

    /// The damage goes onto the Pokemon that the context aims at: a card
    /// in play, or the active Pokemon of a player. Damage that does not
    /// fit the counter is refused.
    open spec fn spec_apply(&self, game: GameView, context: EffectContext) -> (
        GameView,
        EffectFinding,
    ) {
        match damage_target(game, context) {
            Err(reason) => (game, Err(EffectErrorView::InvalidTarget { reason })),
            Ok((owner, card_id)) => if game.players[owner].damage_on(card_id) + self.damage
                > u32::MAX {
                (
                    game,
                    Err(
                        EffectErrorView::InvalidGameState {
                            reason: "Damage does not fit the counter"@,
                        },
                    ),
                )
            } else {
                (
                    game.with_player(owner, game.players[owner].damaged(card_id, self.damage)),
                    Ok(
                        seq![
                            EffectOutcomeView::DamageDealt { target: card_id, amount: self.damage },
                        ],
                    ),
                )
            },
        }
    }

    open spec fn spec_hook(&self, game: GameView, hook: EffectHook) -> (GameView, EffectFinding) {
        (game, nothing())
    }

    fn id(&self) -> (r: EffectId) {
        self.base.id
    }

    fn name(&self) -> (r: &str) {
        self.base.name.as_str()
    }

    fn description(&self) -> (r: &str) {
        self.base.description.as_str()
    }

    fn can_apply(&self, game: &Game, context: &EffectContext) -> (r: bool) {
        true
    }

    fn apply(&self, game: &mut Game, context: &EffectContext) -> (r: EffectResult) {
        let (owner, card_id) = match &context.target {
            Some(EffectTarget::Card(card_id)) => match find_holder(game, *card_id) {
                Some(p) => (p, *card_id),
                None => {
                    return invalid_target("Target Pokemon not found");
                },
            },
            Some(EffectTarget::ActivePokemon(player_id)) => match game.get_player(*player_id) {
                Some(player) => match player.active_pokemon {
                    Some(active) => (*player_id, active),
                    None => {
                        return invalid_target("No active Pokemon");
                    },
                },
                None => {
                    return invalid_target("Player not found");
                },
            },
            _ => {
                return invalid_target("Invalid target type");
            },
        };
        match game.take_player(owner) {
            Some(mut player) => {
                let current = player.damage_on(card_id);
                let fits = current <= u32::MAX - self.damage;
                if fits {
                    player.add_damage(card_id, self.damage);
                }
                game.put_player(owner, player);
                if fits {
                    one_outcome(EffectOutcome::DamageDealt { target: card_id, amount: self.damage })
                } else {
                    proof {
                        assert(game@.players =~= old(game)@.players);
                    }
                    Err(
                        EffectError::InvalidGameState {
                            reason: String::from_str("Damage does not fit the counter"),
                        },
                    )
                }
            },
            None => invalid_target("Player not found"),
        }
    }

    fn triggers(&self) -> (r: Vec<EffectTrigger>) {
        let mut list: Vec<EffectTrigger> = Vec::new();
        list.push(EffectTrigger::OnAttack);
        proof {
            assert(list@ =~= seq![EffectTrigger::OnAttack]);
        }
        list
    }

    fn target_requirements(&self) -> (r: Vec<TargetRequirement>) {
        let mut list: Vec<TargetRequirement> = Vec::new();
        list.push(TargetRequirement::Pokemon);
        list.push(TargetRequirement::InPlay);
        proof {
            assert(list@ =~= seq![TargetRequirement::Pokemon, TargetRequirement::InPlay]);
        }
        list
    }

    fn on_attach(&self, game: &mut Game, card_id: CardId) -> (r: EffectResult) {
        nothing_done()
    }

    fn on_detach(&self, game: &mut Game, card_id: CardId) -> (r: EffectResult) {
        nothing_done()
    }

    fn on_turn_start(&self, game: &mut Game, player_id: PlayerId) -> (r: EffectResult) {
        nothing_done()
    }

    fn on_turn_end(&self, game: &mut Game, player_id: PlayerId) -> (r: EffectResult) {
        nothing_done()
    }
}

/// The effect of an ability of a Pokemon.
#[derive(Clone, Debug)]
pub struct PokemonAbilityEffect {
    pub base: BaseEffect,
    pub ability_type: AbilityType,
    pub trigger_conditions: Vec<EffectTrigger>,
    pub target_requirements: Vec<TargetRequirement>,
}

impl PokemonAbilityEffect {
    pub fn new(
        name: String,
        description: String,
        ability_type: AbilityType,
        trigger_conditions: Vec<EffectTrigger>,
        target_requirements: Vec<TargetRequirement>,
    ) -> (r: Self)
        ensures
            is_random_uuid(r.base.id),
            r.base.name == name,
            r.base.description == description,
            r.ability_type == ability_type,
            r.trigger_conditions == trigger_conditions,
            r.target_requirements == target_requirements,
    {
        PokemonAbilityEffect {
            base: BaseEffect::new(name, description),
            ability_type,
            trigger_conditions,
            target_requirements,
        }
    }
}

impl Effect for PokemonAbilityEffect {
    open spec fn spec_id(&self) -> EffectId {
        self.base.id
    }

    open spec fn spec_name(&self) -> Seq<char> {
        self.base.name@
    }

    open spec fn spec_description(&self) -> Seq<char> {
        self.base.description@
    }

    open spec fn spec_triggers(&self) -> Seq<EffectTrigger> {
        self.trigger_conditions@
    }

    open spec fn spec_target_requirements(&self) -> Seq<TargetRequirement> {
        self.target_requirements@
    }

    open spec fn spec_can_apply(&self, game: GameView, context: EffectContext) -> bool {
        true
    }

    /// The ability is reported as applied; the match stays as it is.
    open spec fn spec_apply(&self, game: GameView, context: EffectContext) -> (
        GameView,
        EffectFinding,
    ) {
        (
            game,
            Ok(
                seq![
                    EffectOutcomeView::Custom {
                        description: "Applied ability: "@ + self.base.name@,
                        data: Map::empty(),
                    },
                ],
            ),
        )
    }

    open spec fn spec_hook(&self, game: GameView, hook: EffectHook) -> (GameView, EffectFinding) {
        (game, nothing())
    }

    fn id(&self) -> (r: EffectId) {
        self.base.id
    }

    fn name(&self) -> (r: &str) {
        self.base.name.as_str()
    }

    fn description(&self) -> (r: &str) {
        self.base.description.as_str()
    }

    fn can_apply(&self, game: &Game, context: &EffectContext) -> (r: bool) {
        true
    }

    fn apply(&self, game: &mut Game, context: &EffectContext) -> (r: EffectResult) {
        described("Applied ability: ", self.base.name.as_str())
    }

    fn triggers(&self) -> (r: Vec<EffectTrigger>) {
        copy_triggers(&self.trigger_conditions)
    }

    fn target_requirements(&self) -> (r: Vec<TargetRequirement>) {
        copy_requirements(&self.target_requirements)
    }

    fn on_attach(&self, game: &mut Game, card_id: CardId) -> (r: EffectResult) {
        nothing_done()
    }

    fn on_detach(&self, game: &mut Game, card_id: CardId) -> (r: EffectResult) {
        nothing_done()
    }

    fn on_turn_start(&self, game: &mut Game, player_id: PlayerId) -> (r: EffectResult) {
        nothing_done()
    }

    fn on_turn_end(&self, game: &mut Game, player_id: PlayerId) -> (r: EffectResult) {
        nothing_done()
    }
}

/// The effect of an attack of a Pokemon.
#[derive(Clone, Debug)]
pub struct PokemonAttackEffect {
    pub base: BaseEffect,
    pub damage: u32,
    pub target_requirements: Vec<TargetRequirement>,
}

/// The card that an attack reports its damage on: the card that the
/// context aims at, or else the card that the effect belongs to.
pub open spec fn attack_target(context: EffectContext) -> CardId {
    match context.target {
        Some(EffectTarget::Card(card_id)) => card_id,
        _ => context.source_card,
    }
}

impl PokemonAttackEffect {
    pub fn new(
        name: String,
        description: String,
        damage: u32,
        target_requirements: Vec<TargetRequirement>,
    ) -> (r: Self)
        ensures
            is_random_uuid(r.base.id),
            r.base.name == name,
            r.base.description == description,
            r.damage == damage,
            r.target_requirements == target_requirements,
    {
        PokemonAttackEffect { base: BaseEffect::new(name, description), damage, target_requirements }
    }
}

impl Effect for PokemonAttackEffect {
    open spec fn spec_id(&self) -> EffectId {
        self.base.id
    }

    open spec fn spec_name(&self) -> Seq<char> {
        self.base.name@
    }

    open spec fn spec_description(&self) -> Seq<char> {
        self.base.description@
    }

    open spec fn spec_triggers(&self) -> Seq<EffectTrigger> {
        seq![EffectTrigger::OnAttack]
    }

    open spec fn spec_target_requirements(&self) -> Seq<TargetRequirement> {
        self.target_requirements@
    }

    open spec fn spec_can_apply(&self, game: GameView, context: EffectContext) -> bool {
        true
    }

    /// The damage of the attack is reported; the match stays as it is.
    open spec fn spec_apply(&self, game: GameView, context: EffectContext) -> (
        GameView,
        EffectFinding,
    ) {
        (
            game,
            Ok(
                seq![
                    EffectOutcomeView::DamageDealt {
                        target: attack_target(context),
                        amount: self.damage,
                    },
                ],
            ),
        )
    }

    open spec fn spec_hook(&self, game: GameView, hook: EffectHook) -> (GameView, EffectFinding) {
        (game, nothing())
    }

    fn id(&self) -> (r: EffectId) {
        self.base.id
    }

    fn name(&self) -> (r: &str) {
        self.base.name.as_str()
    }

    fn description(&self) -> (r: &str) {
        self.base.description.as_str()
    }

    fn can_apply(&self, game: &Game, context: &EffectContext) -> (r: bool) {
        true
    }

    fn apply(&self, game: &mut Game, context: &EffectContext) -> (r: EffectResult) {
        let target = match &context.target {
            Some(EffectTarget::Card(card_id)) => *card_id,
            _ => context.source_card,
        };
        one_outcome(EffectOutcome::DamageDealt { target, amount: self.damage })
    }

    fn triggers(&self) -> (r: Vec<EffectTrigger>) {
        let mut list: Vec<EffectTrigger> = Vec::new();
        list.push(EffectTrigger::OnAttack);
        proof {
            assert(list@ =~= seq![EffectTrigger::OnAttack]);
        }
        list
    }

    fn target_requirements(&self) -> (r: Vec<TargetRequirement>) {
        copy_requirements(&self.target_requirements)
    }

    fn on_attach(&self, game: &mut Game, card_id: CardId) -> (r: EffectResult) {
        nothing_done()
    }

    fn on_detach(&self, game: &mut Game, card_id: CardId) -> (r: EffectResult) {
        nothing_done()
    }

    fn on_turn_start(&self, game: &mut Game, player_id: PlayerId) -> (r: EffectResult) {
        nothing_done()
    }

    fn on_turn_end(&self, game: &mut Game, player_id: PlayerId) -> (r: EffectResult) {
        nothing_done()
    }
}

/// The effect of a trainer card.
#[derive(Clone, Debug)]
pub struct TrainerEffect {
    pub base: BaseEffect,
    pub trainer_type: TrainerType,
    /// Whether the effect is used up when it is applied.
    pub one_time_effect: bool,
    pub target_requirements: Vec<TargetRequirement>,
}

impl TrainerEffect {
    pub fn new(
        name: String,
        description: String,
        trainer_type: TrainerType,
        one_time_effect: bool,
        target_requirements: Vec<TargetRequirement>,
    ) -> (r: Self)
        ensures
            is_random_uuid(r.base.id),
            r.base.name == name,
            r.base.description == description,
            r.trainer_type == trainer_type,
            r.one_time_effect == one_time_effect,
            r.target_requirements == target_requirements,
    {
        TrainerEffect {
            base: BaseEffect::new(name, description),
            trainer_type,
            one_time_effect,
            target_requirements,
        }
    }
}

impl Effect for TrainerEffect {
    open spec fn spec_id(&self) -> EffectId {
        self.base.id
    }

    open spec fn spec_name(&self) -> Seq<char> {
        self.base.name@
    }

    open spec fn spec_description(&self) -> Seq<char> {
        self.base.description@
    }

    open spec fn spec_triggers(&self) -> Seq<EffectTrigger> {
        seq![EffectTrigger::OnPlay]
    }

    open spec fn spec_target_requirements(&self) -> Seq<TargetRequirement> {
        self.target_requirements@
    }

    open spec fn spec_can_apply(&self, game: GameView, context: EffectContext) -> bool {
        true
    }

    /// The trainer card is reported as applied; the match stays as it is.
    open spec fn spec_apply(&self, game: GameView, context: EffectContext) -> (
        GameView,
        EffectFinding,
    ) {
        (
            game,
            Ok(
                seq![
                    EffectOutcomeView::Custom {
                        description: "Applied trainer effect: "@ + self.base.name@,
                        data: Map::empty(),
                    },
                ],
            ),
        )
    }

    open spec fn spec_hook(&self, game: GameView, hook: EffectHook) -> (GameView, EffectFinding) {
        (game, nothing())
    }

    fn id(&self) -> (r: EffectId) {
        self.base.id
    }

    fn name(&self) -> (r: &str) {
        self.base.name.as_str()
    }

    fn description(&self) -> (r: &str) {
        self.base.description.as_str()
    }

    fn can_apply(&self, game: &Game, context: &EffectContext) -> (r: bool) {
        true
    }

    fn apply(&self, game: &mut Game, context: &EffectContext) -> (r: EffectResult) {
        described("Applied trainer effect: ", self.base.name.as_str())
    }

    fn triggers(&self) -> (r: Vec<EffectTrigger>) {
        let mut list: Vec<EffectTrigger> = Vec::new();
        list.push(EffectTrigger::OnPlay);
        proof {
            assert(list@ =~= seq![EffectTrigger::OnPlay]);
        }
        list
    }

    fn target_requirements(&self) -> (r: Vec<TargetRequirement>) {
        copy_requirements(&self.target_requirements)
    }

    fn on_attach(&self, game: &mut Game, card_id: CardId) -> (r: EffectResult) {
        nothing_done()
    }

    fn on_detach(&self, game: &mut Game, card_id: CardId) -> (r: EffectResult) {
        nothing_done()
    }

    fn on_turn_start(&self, game: &mut Game, player_id: PlayerId) -> (r: EffectResult) {
        nothing_done()
    }

    fn on_turn_end(&self, game: &mut Game, player_id: PlayerId) -> (r: EffectResult) {
        nothing_done()
    }
}

/// The effect of a special energy card, which may carry an effect for
/// the moment of its attachment and one for the start of every turn.
#[derive(Clone, Debug)]
pub struct SpecialEnergyEffect<E: Effect> {
    pub base: BaseEffect,
    pub energy_type: EnergyType,
    /// Applied when the energy is attached.
    pub attachment_effect: Option<Box<E>>,
    /// Applied at the start of every turn.
    pub persistent_effect: Option<Box<E>>,
    pub target_requirements: Vec<TargetRequirement>,
}

/// The circumstances in which the effect of an attachment is applied: the
/// card is the source, and the player whose turn it is controls it, or
/// nobody if it is nobody's turn.
pub open spec fn attachment_context(game: GameView, card_id: CardId) -> EffectContext {
    EffectContext {
        source_card: card_id,
        controller: match game.current_player_id() {
            Some(p) => p,
            None => NIL_ID,
        },
        target: None,
        parameters: StringMap::Empty,
        trigger: Some(EffectTrigger::OnEnergyAttach),
    }
}

/// The circumstances in which a lasting effect is applied at the start of
/// a turn: the player of the turn controls it, and no card is its source.
pub open spec fn turn_start_context(player_id: PlayerId) -> EffectContext {
    EffectContext {
        source_card: NIL_ID,
        controller: player_id,
        target: None,
        parameters: StringMap::Empty,
        trigger: Some(EffectTrigger::OnTurnStart),
    }
}

impl<E: Effect> SpecialEnergyEffect<E> {
    pub fn new(
        name: String,
        description: String,
        energy_type: EnergyType,
        attachment_effect: Option<Box<E>>,
        persistent_effect: Option<Box<E>>,
        target_requirements: Vec<TargetRequirement>,
    ) -> (r: Self)
        ensures
            is_random_uuid(r.base.id),
            r.base.name == name,
            r.base.description == description,
            r.energy_type == energy_type,
            r.attachment_effect == attachment_effect,
            r.persistent_effect == persistent_effect,
            r.target_requirements == target_requirements,
    {
        SpecialEnergyEffect {
            base: BaseEffect::new(name, description),
            energy_type,
            attachment_effect,
            persistent_effect,
            target_requirements,
        }
    }
}

impl<E: Effect> Effect for SpecialEnergyEffect<E> {
    open spec fn spec_id(&self) -> EffectId {
        self.base.id
    }

    open spec fn spec_name(&self) -> Seq<char> {
        self.base.name@
    }

    open spec fn spec_description(&self) -> Seq<char> {
        self.base.description@
    }

    open spec fn spec_triggers(&self) -> Seq<EffectTrigger> {
        seq![EffectTrigger::OnEnergyAttach]
    }

    open spec fn spec_target_requirements(&self) -> Seq<TargetRequirement> {
        self.target_requirements@
    }

    open spec fn spec_can_apply(&self, game: GameView, context: EffectContext) -> bool {
        true
    }

    /// The energy is reported as provided; the match stays as it is.
    open spec fn spec_apply(&self, game: GameView, context: EffectContext) -> (
        GameView,
        EffectFinding,
    ) {
        (
            game,
            Ok(
                seq![
                    EffectOutcomeView::Custom {
                        description: "Provided special energy: "@ + energy_text(self.energy_type),
                        data: Map::empty(),
                    },
                ],
            ),
        )
    }

    /// At its attachment the energy applies the effect that it carries for
    /// that moment, and at the start of a turn the one that it carries
    /// for good; at other hooks, and where it carries none, nothing
    /// happens.
    open spec fn spec_hook(&self, game: GameView, hook: EffectHook) -> (GameView, EffectFinding) {
        match hook {
            EffectHook::Attach(card_id) => match self.attachment_effect {
                Some(inner) => inner.spec_apply(game, attachment_context(game, card_id)),
                None => (game, nothing()),
            },
            EffectHook::TurnStart(player_id) => match self.persistent_effect {
                Some(inner) => inner.spec_apply(game, turn_start_context(player_id)),
                None => (game, nothing()),
            },
            _ => (game, nothing()),
        }
    }

    fn id(&self) -> (r: EffectId) {
        self.base.id
    }

    fn name(&self) -> (r: &str) {
        self.base.name.as_str()
    }

    fn description(&self) -> (r: &str) {
        self.base.description.as_str()
    }

    fn can_apply(&self, game: &Game, context: &EffectContext) -> (r: bool) {
        true
    }

    fn apply(&self, game: &mut Game, context: &EffectContext) -> (r: EffectResult) {
        described("Provided special energy: ", energy_name(self.energy_type))
    }

    fn triggers(&self) -> (r: Vec<EffectTrigger>) {
        let mut list: Vec<EffectTrigger> = Vec::new();
        list.push(EffectTrigger::OnEnergyAttach);
        proof {
            assert(list@ =~= seq![EffectTrigger::OnEnergyAttach]);
        }
        list
    }

    fn target_requirements(&self) -> (r: Vec<TargetRequirement>) {
        copy_requirements(&self.target_requirements)
    }

    fn on_attach(&self, game: &mut Game, card_id: CardId) -> (r: EffectResult) {
        match &self.attachment_effect {
            Some(inner) => {
                let controller = match game.get_current_player_id() {
                    Ok(p) => p,
                    Err(_) => NIL_ID,
                };
                let context = EffectContext {
                    source_card: card_id,
                    controller,
                    target: None,
                    parameters: StringMap::new(),
                    trigger: Some(EffectTrigger::OnEnergyAttach),
                };
                inner.apply(game, &context)
            },
            None => nothing_done(),
        }
    }

    fn on_detach(&self, game: &mut Game, card_id: CardId) -> (r: EffectResult) {
        nothing_done()
    }

    fn on_turn_start(&self, game: &mut Game, player_id: PlayerId) -> (r: EffectResult) {
        match &self.persistent_effect {
            Some(inner) => {
                let context = EffectContext {
                    source_card: NIL_ID,
                    controller: player_id,
                    target: None,
                    parameters: StringMap::new(),
                    trigger: Some(EffectTrigger::OnTurnStart),
                };
                inner.apply(game, &context)
            },
            None => nothing_done(),
        }
    }

    fn on_turn_end(&self, game: &mut Game, player_id: PlayerId) -> (r: EffectResult) {
        nothing_done()
    }
}

} // verus!
