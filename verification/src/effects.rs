//! Card effects: what they are triggered by, what they aim at, and the
//! manager that keeps them attached to cards and fires them.

use crate::card::EnergyType;
use crate::game::{Game, GameView};
use crate::ids::{fresh_id, is_random_uuid, CardId, EffectId, PlayerId};
use crate::text::{concat2, StringMap};
use std::collections::HashMap;
use vstd::prelude::*;

verus! {

/// The identifier that stands for no card and no player: the nil UUID,
/// which no fresh identifier equals.
pub const NIL_ID: u128 = 0;

/// The kinds of ability of a Pokemon.
#[derive(Clone, Copy, Debug, PartialEq, Eq, Structural)]
pub enum AbilityType {
    /// The player chooses to use it.
    Active,
    /// It works by itself.
    Passive,
    /// Once a turn, on older cards.
    PokePower,
    /// Always on, on older cards.
    PokeBody,
}

/// The kinds of effect that card data can name.
#[derive(Clone, Debug, PartialEq, Eq)]
pub enum EffectType {
    Damage { amount: u32 },
    Heal { amount: u32 },
    Status { condition: String, probability: u32 },
    Draw { count: u32 },
    AttachEnergy { energy_type: String },
    ApplySpecialCondition { condition: String },
    Custom { logic: String },
}

/// What an effect is triggered by.
#[derive(Debug, PartialEq, Eq)]
pub enum EffectTrigger {
    OnPlay,
    OnEnterPlay,
    OnLeavePlay,
    OnKnockOut,
    OnTurnStart,
    OnTurnEnd,
    OnTakeDamage,
    OnDealDamage,
    OnAttack,
    OnEnergyAttach,
    OnCardDraw,
    /// An event of the game, by the name of its type.
    OnGameEvent { event_type: String },
    /// The player triggers it.
    Manual,
    /// Once, when a condition is met.
    Once { condition: String },
}

/// What an effect is aimed at.
#[derive(Clone, Debug, PartialEq, Eq)]
pub enum EffectTarget {
    /// The effect has no target.
    NoTarget,
    /// The card that the effect belongs to.
    Self_,
    Card(CardId),
    Player(PlayerId),
    AllPlayerPokemon(PlayerId),
    AllPokemon,
    ActivePokemon(PlayerId),
    Random { filter: String },
    Choice { options: Vec<CardId> },
}

/// What an effect asks of its target.
#[derive(Debug, PartialEq, Eq)]
pub enum TargetRequirement {
    Pokemon,
    Energy,
    Trainer,
    InPlay,
    InHand,
    InDiscard,
    OwnedBy(PlayerId),
    HasEnergyType(EnergyType),
    MinHP(u32),
    MinDamage(u32),
    Custom(String),
}

/// The circumstances in which an effect is applied.
#[derive(Clone, Debug, PartialEq, Eq)]
pub struct EffectContext {
    /// The card that the effect belongs to.
    pub source_card: CardId,
    /// The player who controls that card.
    pub controller: PlayerId,
    pub target: Option<EffectTarget>,
    pub parameters: StringMap,
    /// What triggered the effect.
    pub trigger: Option<EffectTrigger>,
}

/// What an effect has done.
#[derive(Clone, Debug, PartialEq, Eq)]
pub enum EffectOutcome {
    DamageDealt { target: CardId, amount: u32 },
    Healing { target: CardId, amount: u32 },
    CardsDrawn { player: PlayerId, count: u32 },
    EnergyAttached { energy: CardId, target: CardId },
    CardMoved { card: CardId, from: String, to: String },
    SpecialConditionApplied { target: CardId, condition: String },
    SpecialConditionRemoved { target: CardId, condition: String },
    Custom { description: String, data: StringMap },
}

/// Why an effect could not be applied.
#[derive(Clone, Debug, PartialEq, Eq)]
pub enum EffectError {
    InvalidTarget { reason: String },
    InsufficientResources { resource: String, required: u32, available: u32 },
    InvalidGameState { reason: String },
    RequirementsNotMet { requirement: String },
    General { message: String },
}

/// An outcome as a mathematical value.
pub enum EffectOutcomeView {
    DamageDealt { target: CardId, amount: u32 },
    Healing { target: CardId, amount: u32 },
    CardsDrawn { player: PlayerId, count: u32 },
    EnergyAttached { energy: CardId, target: CardId },
    CardMoved { card: CardId, from: Seq<char>, to: Seq<char> },
    SpecialConditionApplied { target: CardId, condition: Seq<char> },
    SpecialConditionRemoved { target: CardId, condition: Seq<char> },
    Custom { description: Seq<char>, data: Map<Seq<char>, Seq<char>> },
}

/// An error as a mathematical value.
pub enum EffectErrorView {
    InvalidTarget { reason: Seq<char> },
    InsufficientResources { resource: Seq<char>, required: u32, available: u32 },
    InvalidGameState { reason: Seq<char> },
    RequirementsNotMet { requirement: Seq<char> },
    General { message: Seq<char> },
}

/// What applying an effect returns.
pub type EffectResult = Result<Vec<EffectOutcome>, EffectError>;

/// What applying an effect returns, as a mathematical value.
pub type EffectFinding = Result<Seq<EffectOutcomeView>, EffectErrorView>;

impl View for EffectOutcome {
    type V = EffectOutcomeView;

    open spec fn view(&self) -> EffectOutcomeView {
        match self {
            EffectOutcome::DamageDealt { target, amount } => EffectOutcomeView::DamageDealt {
                target: *target,
                amount: *amount,
            },
            EffectOutcome::Healing { target, amount } => EffectOutcomeView::Healing {
                target: *target,
                amount: *amount,
            },
            EffectOutcome::CardsDrawn { player, count } => EffectOutcomeView::CardsDrawn {
                player: *player,
                count: *count,
            },
            EffectOutcome::EnergyAttached { energy, target } => EffectOutcomeView::EnergyAttached {
                energy: *energy,
                target: *target,
            },
            EffectOutcome::CardMoved { card, from, to } => EffectOutcomeView::CardMoved {
                card: *card,
                from: from@,
                to: to@,
            },
            EffectOutcome::SpecialConditionApplied {
                target,
                condition,
            } => EffectOutcomeView::SpecialConditionApplied {
                target: *target,
                condition: condition@,
            },
            EffectOutcome::SpecialConditionRemoved {
                target,
                condition,
            } => EffectOutcomeView::SpecialConditionRemoved {
                target: *target,
                condition: condition@,
            },
            EffectOutcome::Custom { description, data } => EffectOutcomeView::Custom {
                description: description@,
                data: data@,
            },
        }
    }
}

impl View for EffectError {
    type V = EffectErrorView;

    open spec fn view(&self) -> EffectErrorView {
        match self {
            EffectError::InvalidTarget { reason } => EffectErrorView::InvalidTarget {
                reason: reason@,
            },
            EffectError::InsufficientResources {
                resource,
                required,
                available,
            } => EffectErrorView::InsufficientResources {
                resource: resource@,
                required: *required,
                available: *available,
            },
            EffectError::InvalidGameState { reason } => EffectErrorView::InvalidGameState {
                reason: reason@,
            },
            EffectError::RequirementsNotMet {
                requirement,
            } => EffectErrorView::RequirementsNotMet { requirement: requirement@ },
            EffectError::General { message } => EffectErrorView::General { message: message@ },
        }
    }
}

/// The outcomes of a list, each as a mathematical value.
pub open spec fn outcome_views(outcomes: Seq<EffectOutcome>) -> Seq<EffectOutcomeView> {
    outcomes.map_values(|o: EffectOutcome| o@)
}

/// What applying an effect returned, as a mathematical value.
pub open spec fn finding(r: EffectResult) -> EffectFinding {
    match r {
        Ok(outcomes) => Ok(outcome_views(outcomes@)),
        Err(e) => Err(e@),
    }
}

/// The results of a list, each as a mathematical value.
pub open spec fn findings(results: Seq<EffectResult>) -> Seq<EffectFinding> {
    results.map_values(|r: EffectResult| finding(r))
}

/// Whether two triggers are the same: of the same kind and with the same
/// text.
pub open spec fn same_trigger(a: EffectTrigger, b: EffectTrigger) -> bool {
    match (a, b) {
        (EffectTrigger::OnPlay, EffectTrigger::OnPlay) => true,
        (EffectTrigger::OnEnterPlay, EffectTrigger::OnEnterPlay) => true,
        (EffectTrigger::OnLeavePlay, EffectTrigger::OnLeavePlay) => true,
        (EffectTrigger::OnKnockOut, EffectTrigger::OnKnockOut) => true,
        (EffectTrigger::OnTurnStart, EffectTrigger::OnTurnStart) => true,
        (EffectTrigger::OnTurnEnd, EffectTrigger::OnTurnEnd) => true,
        (EffectTrigger::OnTakeDamage, EffectTrigger::OnTakeDamage) => true,
        (EffectTrigger::OnDealDamage, EffectTrigger::OnDealDamage) => true,
        (EffectTrigger::OnAttack, EffectTrigger::OnAttack) => true,
        (EffectTrigger::OnEnergyAttach, EffectTrigger::OnEnergyAttach) => true,
        (EffectTrigger::OnCardDraw, EffectTrigger::OnCardDraw) => true,
        (
            EffectTrigger::OnGameEvent { event_type: x },
            EffectTrigger::OnGameEvent { event_type: y },
        ) => x@ == y@,
        (EffectTrigger::Manual, EffectTrigger::Manual) => true,
        (EffectTrigger::Once { condition: x }, EffectTrigger::Once { condition: y }) => x@ == y@,
        _ => false,
    }
}

/// Whether `trigger` is among `triggers`.
pub open spec fn has_trigger(triggers: Seq<EffectTrigger>, trigger: EffectTrigger) -> bool {
    exists|i: int| 0 <= i < triggers.len() && same_trigger(#[trigger] triggers[i], trigger)
}

impl Clone for EffectTrigger {
    fn clone(&self) -> (r: Self)
        ensures
            r == *self,
    {
        match self {
            EffectTrigger::OnPlay => EffectTrigger::OnPlay,
            EffectTrigger::OnEnterPlay => EffectTrigger::OnEnterPlay,
            EffectTrigger::OnLeavePlay => EffectTrigger::OnLeavePlay,
            EffectTrigger::OnKnockOut => EffectTrigger::OnKnockOut,
            EffectTrigger::OnTurnStart => EffectTrigger::OnTurnStart,
            EffectTrigger::OnTurnEnd => EffectTrigger::OnTurnEnd,
            EffectTrigger::OnTakeDamage => EffectTrigger::OnTakeDamage,
            EffectTrigger::OnDealDamage => EffectTrigger::OnDealDamage,
            EffectTrigger::OnAttack => EffectTrigger::OnAttack,
            EffectTrigger::OnEnergyAttach => EffectTrigger::OnEnergyAttach,
            EffectTrigger::OnCardDraw => EffectTrigger::OnCardDraw,
            EffectTrigger::OnGameEvent { event_type } => EffectTrigger::OnGameEvent {
                event_type: event_type.clone(),
            },
            EffectTrigger::Manual => EffectTrigger::Manual,
            EffectTrigger::Once { condition } => EffectTrigger::Once {
                condition: condition.clone(),
            },
        }
    }
}

impl Clone for TargetRequirement {
    fn clone(&self) -> (r: Self)
        ensures
            r == *self,
    {
        match self {
            TargetRequirement::Pokemon => TargetRequirement::Pokemon,
            TargetRequirement::Energy => TargetRequirement::Energy,
            TargetRequirement::Trainer => TargetRequirement::Trainer,
            TargetRequirement::InPlay => TargetRequirement::InPlay,
            TargetRequirement::InHand => TargetRequirement::InHand,
            TargetRequirement::InDiscard => TargetRequirement::InDiscard,
            TargetRequirement::OwnedBy(p) => TargetRequirement::OwnedBy(*p),
            TargetRequirement::HasEnergyType(t) => TargetRequirement::HasEnergyType(*t),
            TargetRequirement::MinHP(n) => TargetRequirement::MinHP(*n),
            TargetRequirement::MinDamage(n) => TargetRequirement::MinDamage(*n),
            TargetRequirement::Custom(s) => TargetRequirement::Custom(s.clone()),
        }
    }
}

impl EffectTrigger {
    /// Whether `self` and `other` are the same trigger.
    pub fn is_same(&self, other: &EffectTrigger) -> (r: bool)
        ensures
            r == same_trigger(*self, *other),
    {
        match (self, other) {
            (EffectTrigger::OnPlay, EffectTrigger::OnPlay) => true,
            (EffectTrigger::OnEnterPlay, EffectTrigger::OnEnterPlay) => true,
            (EffectTrigger::OnLeavePlay, EffectTrigger::OnLeavePlay) => true,
            (EffectTrigger::OnKnockOut, EffectTrigger::OnKnockOut) => true,
            (EffectTrigger::OnTurnStart, EffectTrigger::OnTurnStart) => true,
            (EffectTrigger::OnTurnEnd, EffectTrigger::OnTurnEnd) => true,
            (EffectTrigger::OnTakeDamage, EffectTrigger::OnTakeDamage) => true,
            (EffectTrigger::OnDealDamage, EffectTrigger::OnDealDamage) => true,
            (EffectTrigger::OnAttack, EffectTrigger::OnAttack) => true,
            (EffectTrigger::OnEnergyAttach, EffectTrigger::OnEnergyAttach) => true,
            (EffectTrigger::OnCardDraw, EffectTrigger::OnCardDraw) => true,
            (
                EffectTrigger::OnGameEvent { event_type: x },
                EffectTrigger::OnGameEvent { event_type: y },
            ) => *x == *y,
            (EffectTrigger::Manual, EffectTrigger::Manual) => true,
            (EffectTrigger::Once { condition: x }, EffectTrigger::Once { condition: y }) => *x
                == *y,
            _ => false,
        }
    }
}

/// Whether `trigger` is among `triggers`.
pub fn triggers_hold(triggers: &Vec<EffectTrigger>, trigger: &EffectTrigger) -> (r: bool)
    ensures
        r == has_trigger(triggers@, *trigger),
{
    let mut i: usize = 0;
    while i < triggers.len()
        invariant
            i <= triggers@.len(),
            forall|j: int| 0 <= j < i ==> !same_trigger(#[trigger] triggers@[j], *trigger),
        decreases triggers@.len() - i,
    {
        if triggers[i].is_same(trigger) {
            return true;
        }
        i += 1;
    }
    false
}

/// A copy of a list of triggers.
pub fn copy_triggers(triggers: &Vec<EffectTrigger>) -> (r: Vec<EffectTrigger>)
    ensures
        r@ == triggers@,
{
    let mut out: Vec<EffectTrigger> = Vec::new();
    let mut i: usize = 0;
    while i < triggers.len()
        invariant
            i <= triggers@.len(),
            out@ == triggers@.take(i as int),
        decreases triggers@.len() - i,
    {
        out.push(triggers[i].clone());
        i += 1;
        proof {
            assert(out@ =~= triggers@.take(i as int));
        }
    }
    proof {
        assert(triggers@.take(triggers@.len() as int) == triggers@);
    }
    out
}

/// A copy of a list of requirements.
pub fn copy_requirements(list: &Vec<TargetRequirement>) -> (r: Vec<TargetRequirement>)
    ensures
        r@ == list@,
{
    let mut out: Vec<TargetRequirement> = Vec::new();
    let mut i: usize = 0;
    while i < list.len()
        invariant
            i <= list@.len(),
            out@ == list@.take(i as int),
        decreases list@.len() - i,
    {
        out.push(list[i].clone());
        i += 1;
        proof {
            assert(out@ =~= list@.take(i as int));
        }
    }
    proof {
        assert(list@.take(list@.len() as int) == list@);
    }
    out
}

/// The moments at which the manager calls on an effect besides its
/// triggers.
pub enum EffectHook {
    /// The effect was attached to this card.
    Attach(CardId),
    /// The effect was taken off this card.
    Detach(CardId),
    /// A turn of this player starts.
    TurnStart(PlayerId),
    /// A turn of this player ends.
    TurnEnd(PlayerId),
}

/// An effect of a card. What an effect does is determined by the match
/// and the circumstances that it is applied in.
pub trait Effect {
    spec fn spec_id(&self) -> EffectId;

    spec fn spec_name(&self) -> Seq<char>;

    spec fn spec_description(&self) -> Seq<char>;

    /// What the effect is triggered by.
    spec fn spec_triggers(&self) -> Seq<EffectTrigger>;

    /// What the effect asks of its target.
    spec fn spec_target_requirements(&self) -> Seq<TargetRequirement>;

    /// Whether the effect can be applied.
    spec fn spec_can_apply(&self, game: GameView, context: EffectContext) -> bool;

    /// What applying the effect makes of the match, and what it returns.
    spec fn spec_apply(&self, game: GameView, context: EffectContext) -> (GameView, EffectFinding);

    /// What the effect makes of the match at a hook, and what it returns.
    spec fn spec_hook(&self, game: GameView, hook: EffectHook) -> (GameView, EffectFinding);

    fn id(&self) -> (r: EffectId)
        ensures
            r == self.spec_id(),
    ;

    fn name(&self) -> (r: &str)
        ensures
            r@ == self.spec_name(),
    ;

    fn description(&self) -> (r: &str)
        ensures
            r@ == self.spec_description(),
    ;

    /// Whether the effect can be applied. The match stays as it is.
    fn can_apply(&self, game: &Game, context: &EffectContext) -> (r: bool)
        ensures
            r == self.spec_can_apply(game@, *context),
    ;

    /// Applies the effect.
    fn apply(&self, game: &mut Game, context: &EffectContext) -> (r: EffectResult)
        ensures
            (final(game)@, finding(r)) == self.spec_apply(old(game)@, *context),
    ;

    /// What the effect is triggered by.
    fn triggers(&self) -> (r: Vec<EffectTrigger>)
        ensures
            r@ == self.spec_triggers(),
    ;

    /// What the effect asks of its target.
    fn target_requirements(&self) -> (r: Vec<TargetRequirement>)
        ensures
            r@ == self.spec_target_requirements(),
    ;

    /// Called when the effect was attached to a card.
    fn on_attach(&self, game: &mut Game, card_id: CardId) -> (r: EffectResult)
        ensures
            (final(game)@, finding(r)) == self.spec_hook(old(game)@, EffectHook::Attach(card_id)),
    ;

    /// Called when the effect was taken off a card.
    fn on_detach(&self, game: &mut Game, card_id: CardId) -> (r: EffectResult)
        ensures
            (final(game)@, finding(r)) == self.spec_hook(old(game)@, EffectHook::Detach(card_id)),
    ;

    /// Called when a turn starts.
    fn on_turn_start(&self, game: &mut Game, player_id: PlayerId) -> (r: EffectResult)
        ensures
            (final(game)@, finding(r)) == self.spec_hook(
                old(game)@,
                EffectHook::TurnStart(player_id),
            ),
    ;

    /// Called when a turn ends.
    fn on_turn_end(&self, game: &mut Game, player_id: PlayerId) -> (r: EffectResult)
        ensures
            (final(game)@, finding(r)) == self.spec_hook(old(game)@, EffectHook::TurnEnd(player_id)),
    ;
}

/// No outcome.
pub fn nothing_done() -> (r: EffectResult)
    ensures
        finding(r) == Ok::<Seq<EffectOutcomeView>, EffectErrorView>(Seq::empty()),
{
    let r: EffectResult = Ok(Vec::new());
    proof {
        assert(outcome_views(Seq::<EffectOutcome>::empty()) =~= Seq::empty());
    }
    r
}

/// One outcome.
pub fn one_outcome(outcome: EffectOutcome) -> (r: EffectResult)
    ensures
        finding(r) == Ok::<Seq<EffectOutcomeView>, EffectErrorView>(seq![outcome@]),
{
    let mut outcomes: Vec<EffectOutcome> = Vec::new();
    outcomes.push(outcome);
    proof {
        assert(outcome_views(outcomes@) =~= seq![outcome@]);
    }
    Ok(outcomes)
}

/// One outcome that is described in words: `prefix` followed by `name`.
pub fn described(prefix: &str, name: &str) -> (r: EffectResult)
    ensures
        finding(r) == Ok::<Seq<EffectOutcomeView>, EffectErrorView>(
            seq![
                EffectOutcomeView::Custom {
                    description: prefix@ + name@,
                    data: Map::<Seq<char>, Seq<char>>::empty(),
                },
            ],
        ),
{
    one_outcome(
        EffectOutcome::Custom { description: concat2(prefix, name), data: StringMap::new() },
    )
}

/// The failure of an effect on its target.
pub fn invalid_target(reason: &str) -> (r: EffectResult)
    ensures
        finding(r) == Err::<Seq<EffectOutcomeView>, EffectErrorView>(
            EffectErrorView::InvalidTarget { reason: reason@ },
        ),
{
    Err(EffectError::InvalidTarget { reason: String::from_str(reason) })
}

/// What every effect has: an identifier, a name and a description.
#[derive(Debug)]
pub struct BaseEffect {
    pub id: EffectId,
    pub name: String,
    pub description: String,
}

impl BaseEffect {
    /// The base of an effect, with a fresh identifier.
    pub fn new(name: String, description: String) -> (r: Self)
        ensures
            is_random_uuid(r.id),
            r.name == name,
            r.description == description,
    {
        BaseEffect { id: fresh_id(), name, description }
    }
}

impl Clone for BaseEffect {
    fn clone(&self) -> (r: Self)
        ensures
            r == *self,
    {
        BaseEffect {
            id: self.id,
            name: self.name.clone(),
            description: self.description.clone(),
        }
    }
}

/// The effects that are registered, the cards that they are attached to,
/// and the order in which they were attached, which is the order in which
/// they are resolved.
#[derive(Clone, Debug)]
pub struct EffectManager<E: Effect> {
    /// The registered effects by their identifiers.
    pub effects: HashMap<EffectId, E>,
    /// Which effect is attached to which card, in the order of attachment.
    /// An effect can be attached to a card more than once.
    pub attachments: Vec<(CardId, EffectId)>,
}

/// The effects attached to a card, in the order of attachment.
pub open spec fn attached_to(attachments: Seq<(CardId, EffectId)>, card_id: CardId) -> Seq<
    EffectId,
>
    decreases attachments.len(),
{
    if attachments.len() == 0 {
        Seq::empty()
    } else {
        let before = attached_to(attachments.drop_last(), card_id);
        if attachments.last().0 == card_id {
            before.push(attachments.last().1)
        } else {
            before
        }
    }
}

/// The attachments to cards other than `card_id`.
pub open spec fn detached_from(attachments: Seq<(CardId, EffectId)>, card_id: CardId) -> Seq<
    (CardId, EffectId),
>
    decreases attachments.len(),
{
    if attachments.len() == 0 {
        attachments
    } else {
        let before = detached_from(attachments.drop_last(), card_id);
        if attachments.last().0 == card_id {
            before
        } else {
            before.push(attachments.last())
        }
    }
}

/// The registered effects among `ids`, in their order.
pub open spec fn registered<'a, E: Effect>(effects: Map<EffectId, E>, ids: Seq<EffectId>) -> Seq<
    &'a E,
>
    decreases ids.len(),
{
    if ids.len() == 0 {
        Seq::empty()
    } else {
        let before = registered(effects, ids.drop_last());
        if effects.contains_key(ids.last()) {
            before.push(&effects[ids.last()])
        } else {
            before
        }
    }
}

/// The attachments of registered effects that `trigger` triggers, each as
/// the effect and its card, in the order of attachment.
pub open spec fn triggered_by<'a, E: Effect>(
    effects: Map<EffectId, E>,
    attachments: Seq<(CardId, EffectId)>,
    trigger: EffectTrigger,
) -> Seq<(&'a E, CardId)>
    decreases attachments.len(),
{
    if attachments.len() == 0 {
        Seq::empty()
    } else {
        let before = triggered_by(effects, attachments.drop_last(), trigger);
        let (card_id, effect_id) = attachments.last();
        if effects.contains_key(effect_id) && has_trigger(
            effects[effect_id].spec_triggers(),
            trigger,
        ) {
            before.push((&effects[effect_id], card_id))
        } else {
            before
        }
    }
}

/// What firing a trigger makes of the match and returns: the attached
/// effects that the trigger triggers are taken in the order of
/// attachment; each sees the match as the effects before it left it, with
/// its own card as the source; each that can be applied is applied, and
/// its result is kept whether it succeeded or failed.
pub open spec fn fired<E: Effect>(
    effects: Map<EffectId, E>,
    attachments: Seq<(CardId, EffectId)>,
    trigger: EffectTrigger,
    game: GameView,
    context: EffectContext,
) -> (GameView, Seq<EffectFinding>)
    decreases attachments.len(),
{
    if attachments.len() == 0 {
        (game, Seq::empty())
    } else {
        let (before, results) = fired(effects, attachments.drop_last(), trigger, game, context);
        let (card_id, effect_id) = attachments.last();
        let own = EffectContext { source_card: card_id, ..context };
        if effects.contains_key(effect_id) && has_trigger(
            effects[effect_id].spec_triggers(),
            trigger,
        ) && effects[effect_id].spec_can_apply(before, own) {
            let (after, result) = effects[effect_id].spec_apply(before, own);
            (after, results.push(result))
        } else {
            (before, results)
        }
    }
}

/// What a hook makes of the match when every attached effect that is
/// registered is called on in the order of attachment.
pub open spec fn hooked<E: Effect>(
    effects: Map<EffectId, E>,
    attachments: Seq<(CardId, EffectId)>,
    hook: EffectHook,
    game: GameView,
) -> GameView
    decreases attachments.len(),
{
    if attachments.len() == 0 {
        game
    } else {
        let before = hooked(effects, attachments.drop_last(), hook, game);
        let effect_id = attachments.last().1;
        if effects.contains_key(effect_id) {
            effects[effect_id].spec_hook(before, hook).0
        } else {
            before
        }
    }
}

impl<E: Effect> EffectManager<E> {
    /// A manager without effects.
    pub fn new() -> (r: Self)
        ensures
            r.effects@ == Map::<EffectId, E>::empty(),
            r.attachments@ == Seq::<(CardId, EffectId)>::empty(),
    {
        EffectManager { effects: HashMap::new(), attachments: Vec::new() }
    }

    /// Registers an effect under its identifier and returns the
    /// identifier.
    pub fn register_effect(&mut self, effect: E) -> (r: EffectId)
        ensures
            r == effect.spec_id(),
            final(self).effects@ == old(self).effects@.insert(r, effect),
            final(self).attachments@ == old(self).attachments@,
    {
        broadcast use vstd::std_specs::hash::group_hash_axioms;

        let id = effect.id();
        self.effects.insert(id, effect);
        id
    }

    /// The number of registered effects.
    pub fn effect_count(&self) -> (r: usize)
        ensures
            r == self.effects@.len(),
    {
        broadcast use vstd::std_specs::hash::group_hash_axioms;

        self.effects.len()
    }

    /// The number of attachments.
    pub fn attachment_count(&self) -> (r: usize)
        ensures
            r == self.attachments@.len(),
    {
        self.attachments.len()
    }

    /// Whether an effect is registered under an identifier.
    pub fn is_registered(&self, effect_id: EffectId) -> (r: bool)
        ensures
            r == self.effects@.contains_key(effect_id),
    {
        broadcast use vstd::std_specs::hash::group_hash_axioms;

        self.effects.contains_key(&effect_id)
    }

    /// Attaches a registered effect to a card, behind the attachments
    /// made before.
    pub fn attach_effect(&mut self, card_id: CardId, effect_id: EffectId) -> (r: Result<
        (),
        EffectError,
    >)
        ensures
            final(self).effects@ == old(self).effects@,
            match r {
                Ok(()) => old(self).effects@.contains_key(effect_id) && final(self).attachments@
                    == old(self).attachments@.push((card_id, effect_id)),
                Err(e) => !old(self).effects@.contains_key(effect_id) && final(self).attachments@
                    == old(self).attachments@ && e@ == (EffectErrorView::General {
                    message: "Effect not found"@,
                }),
            },
    {
        if !self.is_registered(effect_id) {
            return Err(EffectError::General { message: String::from_str("Effect not found") });
        }
        self.attachments.push((card_id, effect_id));
        Ok(())
    }

    /// Takes an effect off a card: the oldest attachment of the effect to
    /// the card.
    pub fn detach_effect(&mut self, card_id: CardId, effect_id: EffectId) -> (r: Result<
        (),
        EffectError,
    >)
        ensures
            final(self).effects@ == old(self).effects@,
            match r {
                Ok(()) => exists|i: int|
                    0 <= i < old(self).attachments@.len() && old(self).attachments@[i] == (
                        card_id,
                        effect_id,
                    ) && (forall|j: int|
                        0 <= j < i ==> old(self).attachments@[j] != (card_id, effect_id)) && final(self).attachments@ == #[trigger] old(self).attachments@.remove(i),
                Err(e) => !old(self).attachments@.contains((card_id, effect_id)) && final(self).attachments@ == old(self).attachments@ && e@ == (EffectErrorView::General {
                    message: "Effect not found on card"@,
                }),
            },
    {
        let mut i: usize = 0;
        while i < self.attachments.len()
            invariant
                i <= self.attachments@.len(),
                *self == *old(self),
                forall|j: int| 0 <= j < i ==> self.attachments@[j] != (card_id, effect_id),
            decreases self.attachments@.len() - i,
        {
            let entry = self.attachments[i];
            if entry.0 == card_id && entry.1 == effect_id {
                self.attachments.remove(i);
                return Ok(());
            }
            i += 1;
        }
        Err(EffectError::General { message: String::from_str("Effect not found on card") })
    }

    /// Takes every effect off a card.
    pub fn remove_card_effects(&mut self, card_id: CardId)
        ensures
            final(self).effects@ == old(self).effects@,
            final(self).attachments@ == detached_from(old(self).attachments@, card_id),
    {
        let mut kept: Vec<(CardId, EffectId)> = Vec::new();
        let mut i: usize = 0;
        while i < self.attachments.len()
            invariant
                i <= self.attachments@.len(),
                *self == *old(self),
                kept@ == detached_from(self.attachments@.take(i as int), card_id),
            decreases self.attachments@.len() - i,
        {
            proof {
                assert(self.attachments@.take(i as int + 1).drop_last() == self.attachments@.take(
                    i as int,
                ));
            }
            if self.attachments[i].0 != card_id {
                kept.push(self.attachments[i]);
            }
            i += 1;
        }
        proof {
            assert(self.attachments@.take(self.attachments@.len() as int) == self.attachments@);
        }
        self.attachments = kept;
    }

    /// The registered effects attached to a card, in the order of
    /// attachment.
    pub fn get_card_effects(&self, card_id: CardId) -> (r: Vec<&E>)
        ensures
            r@ == registered(self.effects@, attached_to(self.attachments@, card_id)),
    {
        broadcast use vstd::std_specs::hash::group_hash_axioms;

        let mut found: Vec<&E> = Vec::new();
        let mut i: usize = 0;
        while i < self.attachments.len()
            invariant
                i <= self.attachments@.len(),
                found@ == registered(
                    self.effects@,
                    attached_to(self.attachments@.take(i as int), card_id),
                ),
            decreases self.attachments@.len() - i,
        {
            proof {
                assert(self.attachments@.take(i as int + 1).drop_last() == self.attachments@.take(
                    i as int,
                ));
            }
            let entry = self.attachments[i];
            if entry.0 == card_id {
                proof {
                    let ids = attached_to(self.attachments@.take(i as int + 1), card_id);
                    assert(ids.drop_last() =~= attached_to(
                        self.attachments@.take(i as int),
                        card_id,
                    ));
                }
                match self.effects.get(&entry.1) {
                    Some(effect) => {
                        found.push(effect);
                    },
                    None => {},
                }
            }
            i += 1;
        }
        proof {
            assert(self.attachments@.take(self.attachments@.len() as int) == self.attachments@);
        }
        found
    }

    /// Whether an effect is attached to a card.
    pub fn has_effects(&self, card_id: CardId) -> (r: bool)
        ensures
            r == exists|i: int|
                0 <= i < self.attachments@.len() && (#[trigger] self.attachments@[i]).0 == card_id,
    {
        let mut i: usize = 0;
        while i < self.attachments.len()
            invariant
                i <= self.attachments@.len(),
                forall|j: int| 0 <= j < i ==> (#[trigger] self.attachments@[j]).0 != card_id,
            decreases self.attachments@.len() - i,
        {
            if self.attachments[i].0 == card_id {
                return true;
            }
            i += 1;
        }
        false
    }

    /// The attached effects that a trigger triggers, each with its card,
    /// in the order of attachment.
    pub fn get_effects_by_trigger(&self, trigger: EffectTrigger) -> (r: Vec<(&E, CardId)>)
        ensures
            r@ == triggered_by(self.effects@, self.attachments@, trigger),
    {
        broadcast use vstd::std_specs::hash::group_hash_axioms;

        let mut found: Vec<(&E, CardId)> = Vec::new();
        let mut i: usize = 0;
        while i < self.attachments.len()
            invariant
                i <= self.attachments@.len(),
                found@ == triggered_by(self.effects@, self.attachments@.take(i as int), trigger),
            decreases self.attachments@.len() - i,
        {
            proof {
                assert(self.attachments@.take(i as int + 1).drop_last() == self.attachments@.take(
                    i as int,
                ));
            }
            let entry = self.attachments[i];
            match self.effects.get(&entry.1) {
                Some(effect) => {
                    let triggers = effect.triggers();
                    if triggers_hold(&triggers, &trigger) {
                        found.push((effect, entry.0));
                    }
                },
                None => {},
            }
            i += 1;
        }
        proof {
            assert(self.attachments@.take(self.attachments@.len() as int) == self.attachments@);
        }
        found
    }

    /// Fires a trigger: the attached effects that it triggers are taken
    /// in the order of attachment, each with its own card as the source;
    /// each that can be applied is applied. The results are returned in
    /// that order; the failure of one effect does not keep the others
    /// from being applied.
    pub fn trigger_effects(&self, game: &mut Game, trigger: EffectTrigger, context: EffectContext) -> (r:
        Vec<EffectResult>)
        ensures
            (final(game)@, findings(r@)) == fired(
                self.effects@,
                self.attachments@,
                trigger,
                old(game)@,
                context,
            ),
    {
        broadcast use vstd::std_specs::hash::group_hash_axioms;

        let mut results: Vec<EffectResult> = Vec::new();
        let mut own = context;
        let mut i: usize = 0;
        proof {
            assert(findings(results@) =~= Seq::empty());
        }
        while i < self.attachments.len()
            invariant
                i <= self.attachments@.len(),
                own == (EffectContext { source_card: own.source_card, ..context }),
                (game@, findings(results@)) == fired(
                    self.effects@,
                    self.attachments@.take(i as int),
                    trigger,
                    old(game)@,
                    context,
                ),
            decreases self.attachments@.len() - i,
        {
            proof {
                assert(self.attachments@.take(i as int + 1).drop_last() == self.attachments@.take(
                    i as int,
                ));
            }
            let entry = self.attachments[i];
            own.source_card = entry.0;
            match self.effects.get(&entry.1) {
                Some(effect) => {
                    let triggers = effect.triggers();
                    if triggers_hold(&triggers, &trigger) && effect.can_apply(game, &own) {
                        let ghost views0 = findings(results@);
                        let result = effect.apply(game, &own);
                        let ghost view = finding(result);
                        results.push(result);
                        proof {
                            assert(findings(results@) =~= views0.push(view));
                        }
                    }
                },
                None => {},
            }
            i += 1;
        }
        proof {
            assert(self.attachments@.take(self.attachments@.len() as int) == self.attachments@);
        }
        results
    }

    /// Calls on every attached effect at a hook, in the order of
    /// attachment. What the effects return is not kept.
    fn call_hook(&self, game: &mut Game, hook: EffectHook)
        ensures
            final(game)@ == hooked(self.effects@, self.attachments@, hook, old(game)@),
    {
        broadcast use vstd::std_specs::hash::group_hash_axioms;

        let mut i: usize = 0;
        while i < self.attachments.len()
            invariant
                i <= self.attachments@.len(),
                game@ == hooked(
                    self.effects@,
                    self.attachments@.take(i as int),
                    hook,
                    old(game)@,
                ),
            decreases self.attachments@.len() - i,
        {
            proof {
                assert(self.attachments@.take(i as int + 1).drop_last() == self.attachments@.take(
                    i as int,
                ));
            }
            let entry = self.attachments[i];
            match self.effects.get(&entry.1) {
                Some(effect) => {
                    match hook {
                        EffectHook::Attach(card_id) => {
                            let _ = effect.on_attach(game, card_id);
                        },
                        EffectHook::Detach(card_id) => {
                            let _ = effect.on_detach(game, card_id);
                        },
                        EffectHook::TurnStart(player_id) => {
                            let _ = effect.on_turn_start(game, player_id);
                        },
                        EffectHook::TurnEnd(player_id) => {
                            let _ = effect.on_turn_end(game, player_id);
                        },
                    }
                },
                None => {},
            }
            i += 1;
        }
        proof {
            assert(self.attachments@.take(self.attachments@.len() as int) == self.attachments@);
        }
    }

    /// Tells every attached effect that a turn of a player starts, in the
    /// order of attachment.
    pub fn on_turn_start(&self, game: &mut Game, player_id: PlayerId)
        ensures
            final(game)@ == hooked(
                self.effects@,
                self.attachments@,
                EffectHook::TurnStart(player_id),
                old(game)@,
            ),
    {
        self.call_hook(game, EffectHook::TurnStart(player_id));
    }

    /// Tells every attached effect that a turn of a player ends, in the
    /// order of attachment.
    pub fn on_turn_end(&self, game: &mut Game, player_id: PlayerId)
        ensures
            final(game)@ == hooked(
                self.effects@,
                self.attachments@,
                EffectHook::TurnEnd(player_id),
                old(game)@,
            ),
    {
        self.call_hook(game, EffectHook::TurnEnd(player_id));
    }
}

impl<E: Effect> Default for EffectManager<E> {
    fn default() -> (r: Self)
        ensures
            r.effects@ == Map::<EffectId, E>::empty(),
            r.attachments@ == Seq::<(CardId, EffectId)>::empty(),
    {
        EffectManager::new()
    }
}

} // verus!
