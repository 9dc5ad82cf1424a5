//! Players: their piles, their Pokemon in play and what is attached to them.

use crate::card::{Card, EnergyType};
use crate::ids::{fresh_id, is_random_uuid, CardId, PlayerId};
use crate::random::{random_seed, shuffle_with_seed, shuffled};
use crate::seqs::{
    contains, draw_onto, drawn, keys_of, lemma_drawn_conserves, lemma_without, min_nat, position,
    remove_first, reversed, take_all, take_first, without,
};
use crate::text::{debug_string, debug_text, decimal, decimal_string, StringMap};
use std::collections::HashMap;
use vstd::prelude::*;
use vstd::std_specs::iter::IteratorSpec;

verus! {

/// The number of Pokemon that a bench holds at most.
pub const MAX_BENCH: usize = 5;

/// The number of cards of an opening hand.
pub const OPENING_HAND: usize = 7;

/// The number of prize cards of a standard game.
pub const STANDARD_PRIZE_CARDS: u32 = 6;

/// A special condition that a Pokemon can be under.
#[derive(Debug, PartialEq, Eq)]
pub enum SpecialCondition {
    /// Takes damage between turns.
    Poisoned { damage_per_turn: u32 },
    /// Takes damage between turns; a coin flip may end it.
    Burned { damage_per_turn: u32 },
    /// Cannot attack.
    Paralyzed,
    /// Cannot attack; a coin flip may end it.
    Asleep,
    /// May hurt itself when it attacks.
    Confused,
    /// Cannot retreat.
    Trapped,
    /// A condition that a card defines.
    Custom { name: String, description: String },
}

/// A special condition on a Pokemon, with the turns it still lasts.
#[derive(Debug, PartialEq, Eq)]
pub struct SpecialConditionInstance {
    pub condition: SpecialCondition,
    /// The turns that are left; a number below one never runs out.
    pub duration: i32,
    /// The turn in which the condition was applied.
    pub applied_turn: u32,
    pub data: StringMap,
}

/// What a special condition asks for when the conditions are updated.
#[derive(Clone, Debug, PartialEq, Eq)]
pub enum ConditionEffect {
    /// Damage to a Pokemon.
    Damage { pokemon_id: CardId, amount: u32, source: String },
    /// A coin flip, and what follows from heads.
    CoinFlip { pokemon_id: CardId, condition: String, on_success: String },
    /// A condition has run out.
    ConditionRemoved { pokemon_id: CardId, condition: String },
    /// An action is prevented.
    PreventAction { pokemon_id: CardId, action: String },
}

/// A `ConditionEffect` as a mathematical value.
pub enum ConditionEffectView {
    Damage { pokemon_id: CardId, amount: u32, source: Seq<char> },
    CoinFlip { pokemon_id: CardId, condition: Seq<char>, on_success: Seq<char> },
    ConditionRemoved { pokemon_id: CardId, condition: Seq<char> },
    PreventAction { pokemon_id: CardId, action: Seq<char> },
}

impl View for ConditionEffect {
    type V = ConditionEffectView;

    open spec fn view(&self) -> ConditionEffectView {
        match self {
            ConditionEffect::Damage { pokemon_id, amount, source } => ConditionEffectView::Damage {
                pokemon_id: *pokemon_id,
                amount: *amount,
                source: source@,
            },
            ConditionEffect::CoinFlip {
                pokemon_id,
                condition,
                on_success,
            } => ConditionEffectView::CoinFlip {
                pokemon_id: *pokemon_id,
                condition: condition@,
                on_success: on_success@,
            },
            ConditionEffect::ConditionRemoved {
                pokemon_id,
                condition,
            } => ConditionEffectView::ConditionRemoved {
                pokemon_id: *pokemon_id,
                condition: condition@,
            },
            ConditionEffect::PreventAction {
                pokemon_id,
                action,
            } => ConditionEffectView::PreventAction { pokemon_id: *pokemon_id, action: action@ },
        }
    }
}

/// Where a card of a player is.
#[derive(Clone, Copy, Debug, PartialEq, Eq, Structural)]
pub enum CardLocation {
    Hand,
    Deck,
    DiscardPile,
    Active,
    /// On the bench, at this index.
    Bench(usize),
    Prizes,
    /// Attached as energy to this Pokemon.
    AttachedEnergy(CardId),
}

/// A player.
#[derive(Clone, Debug, PartialEq, Eq)]
pub struct Player {
    pub id: PlayerId,
    pub name: String,
    /// The prize cards that the player has still to take.
    pub prize_cards: u32,
    pub hand: Vec<CardId>,
    pub active_pokemon: Option<CardId>,
    pub bench: Vec<CardId>,
    pub discard_pile: Vec<CardId>,
    /// The deck; its top card is the last entry.
    pub deck: Vec<CardId>,
    /// The energy cards attached to each Pokemon, in the order of attachment.
    pub attached_energy: HashMap<CardId, Vec<CardId>>,
    /// The damage on each damaged Pokemon; never zero.
    pub damage_counters: HashMap<CardId, u32>,
    /// The special conditions on each Pokemon under any.
    pub special_conditions: HashMap<CardId, Vec<SpecialConditionInstance>>,
    pub has_attacked: bool,
    pub can_play_trainer: bool,
    pub stadium: Option<CardId>,
}

/// A player as a mathematical value.
#[verifier::ext_equal]
pub struct PlayerView {
    pub id: PlayerId,
    pub name: Seq<char>,
    pub prize_cards: u32,
    pub hand: Seq<CardId>,
    pub active_pokemon: Option<CardId>,
    pub bench: Seq<CardId>,
    pub discard_pile: Seq<CardId>,
    pub deck: Seq<CardId>,
    pub attached_energy: Map<CardId, Seq<CardId>>,
    pub damage_counters: Map<CardId, u32>,
    pub special_conditions: Map<CardId, Seq<SpecialConditionInstance>>,
    pub has_attacked: bool,
    pub can_play_trainer: bool,
    pub stadium: Option<CardId>,
}

impl View for Player {
    type V = PlayerView;

    open spec fn view(&self) -> PlayerView {
        PlayerView {
            id: self.id,
            name: self.name@,
            prize_cards: self.prize_cards,
            hand: self.hand@,
            active_pokemon: self.active_pokemon,
            bench: self.bench@,
            discard_pile: self.discard_pile@,
            deck: self.deck@,
            attached_energy: self.attached_energy@.map_values(|v: Vec<CardId>| v@),
            damage_counters: self.damage_counters@,
            special_conditions: self.special_conditions@.map_values(
                |v: Vec<SpecialConditionInstance>| v@,
            ),
            has_attacked: self.has_attacked,
            can_play_trainer: self.can_play_trainer,
            stadium: self.stadium,
        }
    }
}

/// Whether two conditions are of the same kind, whatever they carry.
pub open spec fn same_kind(a: SpecialCondition, b: SpecialCondition) -> bool {
    match a {
        SpecialCondition::Poisoned { .. } => b is Poisoned,
        SpecialCondition::Burned { .. } => b is Burned,
        SpecialCondition::Paralyzed => b is Paralyzed,
        SpecialCondition::Asleep => b is Asleep,
        SpecialCondition::Confused => b is Confused,
        SpecialCondition::Trapped => b is Trapped,
        SpecialCondition::Custom { .. } => b is Custom,
    }
}

/// The conditions of `s` that are not of the kind of `kind`.
pub open spec fn without_kind(
    s: Seq<SpecialConditionInstance>,
    kind: SpecialCondition,
) -> Seq<SpecialConditionInstance>
    decreases s.len(),
{
    if s.len() == 0 {
        s
    } else if same_kind(s.last().condition, kind) {
        without_kind(s.drop_last(), kind)
    } else {
        without_kind(s.drop_last(), kind).push(s.last())
    }
}

/// Whether a condition of the kind of `kind` is among `s`.
pub open spec fn has_kind(s: Seq<SpecialConditionInstance>, kind: SpecialCondition) -> bool {
    exists|i: int| 0 <= i < s.len() && same_kind(#[trigger] s[i].condition, kind)
}

/// Whether a condition among `s` keeps a Pokemon from attacking.
pub open spec fn blocks_attack(s: Seq<SpecialConditionInstance>) -> bool {
    exists|i: int|
        0 <= i < s.len() && ((#[trigger] s[i]).condition is Paralyzed || s[i].condition is Asleep)
}

/// Whether a condition among `s` keeps a Pokemon from retreating.
pub open spec fn blocks_retreat(s: Seq<SpecialConditionInstance>) -> bool {
    exists|i: int| 0 <= i < s.len() && (#[trigger] s[i]).condition is Trapped
}

/// The effects in a list, each as a mathematical value.
pub open spec fn effect_views(effects: Seq<ConditionEffect>) -> Seq<ConditionEffectView> {
    effects.map_values(|e: ConditionEffect| e@)
}

/// A condition in debug notation, as it is named when it runs out.
pub open spec fn condition_text(condition: SpecialCondition) -> Seq<char> {
    match condition {
        SpecialCondition::Poisoned { damage_per_turn } => "Poisoned { damage_per_turn: "@
            + decimal(damage_per_turn as nat) + " }"@,
        SpecialCondition::Burned { damage_per_turn } => "Burned { damage_per_turn: "@ + decimal(
            damage_per_turn as nat,
        ) + " }"@,
        SpecialCondition::Paralyzed => "Paralyzed"@,
        SpecialCondition::Asleep => "Asleep"@,
        SpecialCondition::Confused => "Confused"@,
        SpecialCondition::Trapped => "Trapped"@,
        SpecialCondition::Custom { name, description } => "Custom { name: "@ + debug_text(name@)
            + ", description: "@ + debug_text(description@) + " }"@,
    }
}

/// What a condition asks for at each update, whatever its duration.
pub open spec fn condition_effects(pokemon_id: CardId, condition: SpecialCondition) -> Seq<
    ConditionEffectView,
> {
    match condition {
        SpecialCondition::Poisoned { damage_per_turn } => seq![
            ConditionEffectView::Damage {
                pokemon_id,
                amount: damage_per_turn,
                source: "Poison"@,
            },
        ],
        SpecialCondition::Burned { damage_per_turn } => seq![
            ConditionEffectView::Damage { pokemon_id, amount: damage_per_turn, source: "Burn"@ },
            ConditionEffectView::CoinFlip {
                pokemon_id,
                condition: "Burn removal"@,
                on_success: "Remove burn condition"@,
            },
        ],
        SpecialCondition::Asleep => seq![
            ConditionEffectView::CoinFlip {
                pokemon_id,
                condition: "Wake up"@,
                on_success: "Remove sleep condition"@,
            },
        ],
        _ => Seq::empty(),
    }
}

/// What one condition on a Pokemon yields at an update: what the condition
/// asks for, then the notice of its end if this was its last turn.
pub open spec fn instance_effects(pokemon_id: CardId, instance: SpecialConditionInstance) -> Seq<
    ConditionEffectView,
> {
    condition_effects(pokemon_id, instance.condition) + if instance.duration == 1 {
        seq![
            ConditionEffectView::ConditionRemoved {
                pokemon_id,
                condition: condition_text(instance.condition),
            },
        ]
    } else {
        Seq::empty()
    }
}

/// What the conditions on one Pokemon yield at an update, oldest first.
pub open spec fn tick_effects(pokemon_id: CardId, s: Seq<SpecialConditionInstance>) -> Seq<
    ConditionEffectView,
>
    decreases s.len(),
{
    if s.len() == 0 {
        Seq::empty()
    } else {
        tick_effects(pokemon_id, s.drop_last()) + instance_effects(pokemon_id, s.last())
    }
}

/// The conditions on one Pokemon after an update: a condition in its last
/// turn is gone, one with turns left has one fewer, and one whose duration
/// is below one stays as it is.
pub open spec fn ticked(s: Seq<SpecialConditionInstance>) -> Seq<SpecialConditionInstance>
    decreases s.len(),
{
    if s.len() == 0 {
        s
    } else {
        let before = ticked(s.drop_last());
        let c = s.last();
        if c.duration == 1 {
            before
        } else if c.duration > 1 {
            before.push(SpecialConditionInstance { duration: (c.duration - 1) as i32, ..c })
        } else {
            before.push(c)
        }
    }
}

/// The conditions of all Pokemon after an update; a Pokemon left without
/// conditions has no entry.
pub open spec fn ticked_all(m: Map<CardId, Seq<SpecialConditionInstance>>) -> Map<
    CardId,
    Seq<SpecialConditionInstance>,
> {
    Map::new(
        |p: CardId| m.contains_key(p) && ticked(m[p]).len() > 0,
        |p: CardId| ticked(m[p]),
    )
}

/// What an update yields when the Pokemon are visited in `order`.
pub open spec fn effects_along(
    order: Seq<CardId>,
    m: Map<CardId, Seq<SpecialConditionInstance>>,
) -> Seq<ConditionEffectView>
    decreases order.len(),
{
    if order.len() == 0 {
        Seq::empty()
    } else {
        effects_along(order.drop_last(), m) + tick_effects(order.last(), m[order.last()])
    }
}

/// Whether `after` is `before` after a mulligan with some shuffle: the hand
/// and the deck were shuffled together and the opening hand drawn anew.
pub open spec fn is_mulliganed(before: PlayerView, after: PlayerView) -> bool {
    exists|pile: Seq<CardId>|
        pile.to_multiset() == (before.deck + before.hand).to_multiset() && after
            == #[trigger] before.mulliganed(pile)
}

/// The cards of `hand` that `db` knows as basic Pokemon, in the hand's order.
pub open spec fn basics_in(hand: Seq<CardId>, db: Map<CardId, Card>) -> Seq<CardId>
    decreases hand.len(),
{
    if hand.len() == 0 {
        hand
    } else {
        let before = basics_in(hand.drop_last(), db);
        let c = hand.last();
        if db.contains_key(c) && db[c].spec_is_basic_pokemon() {
            before.push(c)
        } else {
            before
        }
    }
}

/// The energy types of the cards of `cards` that `db` knows as energy
/// cards, in their order.
pub open spec fn energy_types_in(cards: Seq<CardId>, db: Map<CardId, Card>) -> Seq<EnergyType>
    decreases cards.len(),
{
    if cards.len() == 0 {
        Seq::empty()
    } else {
        let before = energy_types_in(cards.drop_last(), db);
        let c = cards.last();
        if db.contains_key(c) {
            match db[c].card_type {
                crate::card::CardType::Energy { energy_type, .. } => before.push(energy_type),
                _ => before,
            }
        } else {
            before
        }
    }
}

/// A basic Pokemon in hand shows in `basics_in`, and the other way round.
pub proof fn lemma_basics_in(hand: Seq<CardId>, db: Map<CardId, Card>)
    ensures
        forall|c: CardId|
            #![trigger basics_in(hand, db).contains(c)]
            basics_in(hand, db).contains(c) <==> hand.contains(c) && db.contains_key(c)
                && db[c].spec_is_basic_pokemon(),
        basics_in(hand, db).len() <= hand.len(),
    decreases hand.len(),
{
    if hand.len() > 0 {
        let t = hand.drop_last();
        let b = basics_in(t, db);
        let l = hand.last();
        lemma_basics_in(t, db);
        let r = basics_in(hand, db);
        assert forall|c: CardId| #![trigger r.contains(c)] r.contains(c) <==> hand.contains(c)
            && db.contains_key(c) && db[c].spec_is_basic_pokemon() by {
            if r.contains(c) {
                let i = choose|i: int| 0 <= i < r.len() && r[i] == c;
                if i < b.len() {
                    assert(b[i] == c);
                    assert(b.contains(c));
                    let j = choose|j: int| 0 <= j < t.len() && t[j] == c;
                    assert(hand[j] == c);
                } else {
                    assert(hand[hand.len() - 1] == c);
                }
            }
            if hand.contains(c) && db.contains_key(c) && db[c].spec_is_basic_pokemon() {
                let i = choose|i: int| 0 <= i < hand.len() && hand[i] == c;
                if i < t.len() {
                    assert(t[i] == c);
                    assert(t.contains(c));
                    assert(b.contains(c));
                    let j = choose|j: int| 0 <= j < b.len() && b[j] == c;
                    assert(r[j] == c);
                } else {
                    assert(r[r.len() - 1] == c);
                }
            }
        }
    }
}

impl Clone for SpecialCondition {
    fn clone(&self) -> (r: Self)
        ensures
            r == *self,
    {
        match self {
            SpecialCondition::Poisoned { damage_per_turn } => SpecialCondition::Poisoned {
                damage_per_turn: *damage_per_turn,
            },
            SpecialCondition::Burned { damage_per_turn } => SpecialCondition::Burned {
                damage_per_turn: *damage_per_turn,
            },
            SpecialCondition::Paralyzed => SpecialCondition::Paralyzed,
            SpecialCondition::Asleep => SpecialCondition::Asleep,
            SpecialCondition::Confused => SpecialCondition::Confused,
            SpecialCondition::Trapped => SpecialCondition::Trapped,
            SpecialCondition::Custom { name, description } => SpecialCondition::Custom {
                name: name.clone(),
                description: description.clone(),
            },
        }
    }
}

impl Clone for SpecialConditionInstance {
    fn clone(&self) -> (r: Self)
        ensures
            r == *self,
    {
        SpecialConditionInstance {
            condition: self.condition.clone(),
            duration: self.duration,
            applied_turn: self.applied_turn,
            data: self.data.clone(),
        }
    }
}

impl SpecialCondition {
    /// The condition in debug notation.
    pub fn describe(&self) -> (r: String)
        ensures
            r@ == condition_text(*self),
    {
        match self {
            SpecialCondition::Poisoned { damage_per_turn } => {
                let mut s = String::from_str("Poisoned { damage_per_turn: ");
                let n = decimal_string(*damage_per_turn as u64);
                s.append(n.as_str());
                s.append(" }");
                s
            },
            SpecialCondition::Burned { damage_per_turn } => {
                let mut s = String::from_str("Burned { damage_per_turn: ");
                let n = decimal_string(*damage_per_turn as u64);
                s.append(n.as_str());
                s.append(" }");
                s
            },
            SpecialCondition::Paralyzed => String::from_str("Paralyzed"),
            SpecialCondition::Asleep => String::from_str("Asleep"),
            SpecialCondition::Confused => String::from_str("Confused"),
            SpecialCondition::Trapped => String::from_str("Trapped"),
            SpecialCondition::Custom { name, description } => {
                let mut s = String::from_str("Custom { name: ");
                let n = debug_string(name.as_str());
                s.append(n.as_str());
                s.append(", description: ");
                let d = debug_string(description.as_str());
                s.append(d.as_str());
                s.append(" }");
                s
            },
        }
    }

    /// Whether `self` and `other` are of the same kind, whatever they carry.
    pub fn is_same_kind(&self, other: &SpecialCondition) -> (r: bool)
        ensures
            r == same_kind(*self, *other),
    {
        match self {
            SpecialCondition::Poisoned { .. } => match other {
                SpecialCondition::Poisoned { .. } => true,
                _ => false,
            },
            SpecialCondition::Burned { .. } => match other {
                SpecialCondition::Burned { .. } => true,
                _ => false,
            },
            SpecialCondition::Paralyzed => match other {
                SpecialCondition::Paralyzed => true,
                _ => false,
            },
            SpecialCondition::Asleep => match other {
                SpecialCondition::Asleep => true,
                _ => false,
            },
            SpecialCondition::Confused => match other {
                SpecialCondition::Confused => true,
                _ => false,
            },
            SpecialCondition::Trapped => match other {
                SpecialCondition::Trapped => true,
                _ => false,
            },
            SpecialCondition::Custom { .. } => match other {
                SpecialCondition::Custom { .. } => true,
                _ => false,
            },
        }
    }
}

fn push_condition_effects(
    pokemon_id: CardId,
    condition: &SpecialCondition,
    effects: &mut Vec<ConditionEffect>,
)
    ensures
        effect_views(final(effects)@) == effect_views(old(effects)@) + condition_effects(
            pokemon_id,
            *condition,
        ),
{
    match condition {
        SpecialCondition::Poisoned { damage_per_turn } => {
            effects.push(
                ConditionEffect::Damage {
                    pokemon_id,
                    amount: *damage_per_turn,
                    source: String::from_str("Poison"),
                },
            );
        },
        SpecialCondition::Burned { damage_per_turn } => {
            effects.push(
                ConditionEffect::Damage {
                    pokemon_id,
                    amount: *damage_per_turn,
                    source: String::from_str("Burn"),
                },
            );
            effects.push(
                ConditionEffect::CoinFlip {
                    pokemon_id,
                    condition: String::from_str("Burn removal"),
                    on_success: String::from_str("Remove burn condition"),
                },
            );
        },
        SpecialCondition::Asleep => {
            effects.push(
                ConditionEffect::CoinFlip {
                    pokemon_id,
                    condition: String::from_str("Wake up"),
                    on_success: String::from_str("Remove sleep condition"),
                },
            );
        },
        _ => {},
    }
    proof {
        assert(effect_views(effects@) =~= effect_views(old(effects)@) + condition_effects(
            pokemon_id,
            *condition,
        ));
    }
}

/// Updates the conditions on one Pokemon and appends what they yield.
fn tick_conditions(
    pokemon_id: CardId,
    list: Vec<SpecialConditionInstance>,
    effects: &mut Vec<ConditionEffect>,
) -> (r: Vec<SpecialConditionInstance>)
    ensures
        r@ == ticked(list@),
        effect_views(final(effects)@) == effect_views(old(effects)@) + tick_effects(
            pokemon_id,
            list@,
        ),
{
    let ghost before = list@;
    let mut waiting = reversed(list);
    let mut kept: Vec<SpecialConditionInstance> = Vec::new();
    proof {
        assert(before.take(0) =~= Seq::empty());
        assert(effect_views(effects@) =~= effect_views(old(effects)@) + tick_effects(
            pokemon_id,
            before.take(0),
        ));
    }
    while waiting.len() > 0
        invariant
            waiting@.len() <= before.len(),
            waiting@ == before.skip(before.len() - waiting@.len()).reverse(),
            kept@ == ticked(before.take(before.len() - waiting@.len())),
            effect_views(effects@) == effect_views(old(effects)@) + tick_effects(
                pokemon_id,
                before.take(before.len() - waiting@.len()),
            ),
        decreases waiting@.len(),
    {
        let ghost k = before.len() - waiting@.len();
        let ghost views0 = effect_views(effects@);
        let mut instance = waiting.pop().unwrap();
        proof {
            assert(instance == before[k]);
            assert(before.take(k + 1).drop_last() =~= before.take(k));
            assert(before.take(k + 1).last() == before[k]);
            assert(waiting@ =~= before.skip(before.len() - waiting@.len()).reverse());
        }
        push_condition_effects(pokemon_id, &instance.condition, effects);
        if instance.duration == 1 {
            let ghost views1 = effect_views(effects@);
            let text = instance.condition.describe();
            effects.push(ConditionEffect::ConditionRemoved { pokemon_id, condition: text });
            proof {
                let notice = ConditionEffectView::ConditionRemoved {
                    pokemon_id,
                    condition: condition_text(before[k].condition),
                };
                assert(effect_views(effects@) =~= views1.push(notice));
                assert(views1.push(notice) =~= views0 + (condition_effects(
                    pokemon_id,
                    before[k].condition,
                ) + seq![notice]));
                assert(effect_views(effects@) =~= views0 + instance_effects(
                    pokemon_id,
                    before[k],
                ));
            }
        } else {
            proof {
                assert(effect_views(effects@) =~= views0 + instance_effects(
                    pokemon_id,
                    before[k],
                ));
            }
            if instance.duration > 1 {
                instance.duration -= 1;
            }
            kept.push(instance);
        }
        proof {
            assert(views0 + instance_effects(pokemon_id, before[k]) =~= effect_views(
                old(effects)@,
            ) + tick_effects(pokemon_id, before.take(k + 1)));
        }
    }
    proof {
        assert(before.take(before.len() as int) =~= before);
    }
    kept
}

fn copy_conditions(list: &Vec<SpecialConditionInstance>) -> (r: Vec<SpecialConditionInstance>)
    ensures
        r@ == list@,
{
    let mut out: Vec<SpecialConditionInstance> = Vec::new();
    let mut i: usize = 0;
    while i < list.len()
        invariant
            i <= list@.len(),
            out@ == list@.take(i as int),
        decreases list@.len() - i,
    {
        out.push(list[i].clone());
        i += 1;
        proof {
            assert(out@ =~= list@.take(i as int));
        }
    }
    proof {
        assert(list@.take(list@.len() as int) == list@);
    }
    out
}

impl PlayerView {
    /// The damage on a Pokemon.
    pub open spec fn damage_on(self, pokemon_id: CardId) -> u32 {
        if self.damage_counters.contains_key(pokemon_id) {
            self.damage_counters[pokemon_id]
        } else {
            0
        }
    }

    /// The energy cards attached to a Pokemon.
    pub open spec fn energy_on(self, pokemon_id: CardId) -> Seq<CardId> {
        if self.attached_energy.contains_key(pokemon_id) {
            self.attached_energy[pokemon_id]
        } else {
            Seq::empty()
        }
    }

    /// The special conditions on a Pokemon.
    pub open spec fn conditions_on(self, pokemon_id: CardId) -> Seq<SpecialConditionInstance> {
        if self.special_conditions.contains_key(pokemon_id) {
            self.special_conditions[pokemon_id]
        } else {
            Seq::empty()
        }
    }

    /// Whether a Pokemon is in play: active or on the bench.
    pub open spec fn in_play(self, pokemon_id: CardId) -> bool {
        self.active_pokemon == Some(pokemon_id) || self.bench.contains(pokemon_id)
    }

    /// The bench holds no more than it may.
    pub open spec fn wf(self) -> bool {
        self.bench.len() <= MAX_BENCH
    }

    /// Whether `card_id` can become the active Pokemon: it is in hand or on
    /// the bench, and the bench has room for the Pokemon that it displaces.
    pub open spec fn can_activate(self, card_id: CardId) -> bool {
        &&& self.hand.contains(card_id) || self.bench.contains(card_id)
        &&& self.active_pokemon is None || without(self.bench, card_id).len() < MAX_BENCH
    }

    /// The player after `card_id` became the active Pokemon.
    pub open spec fn activated(self, card_id: CardId) -> PlayerView {
        PlayerView {
            hand: without(self.hand, card_id),
            bench: match self.active_pokemon {
                Some(displaced) => without(self.bench, card_id).push(displaced),
                None => without(self.bench, card_id),
            },
            active_pokemon: Some(card_id),
            ..self
        }
    }

    /// Whether `card_id` can go from the hand to the bench.
    pub open spec fn can_bench(self, card_id: CardId) -> bool {
        self.bench.len() < MAX_BENCH && self.hand.contains(card_id)
    }

    /// The player after `card_id` went from the hand to the bench.
    pub open spec fn benched(self, card_id: CardId) -> PlayerView {
        PlayerView {
            hand: remove_first(self.hand, card_id),
            bench: self.bench.push(card_id),
            ..self
        }
    }

    /// Whether `energy_id` can be attached to `pokemon_id`.
    pub open spec fn can_attach(self, energy_id: CardId, pokemon_id: CardId) -> bool {
        self.hand.contains(energy_id) && self.in_play(pokemon_id)
    }

    /// The player after `energy_id` went from the hand onto `pokemon_id`.
    pub open spec fn attached(self, energy_id: CardId, pokemon_id: CardId) -> PlayerView {
        PlayerView {
            hand: remove_first(self.hand, energy_id),
            attached_energy: self.attached_energy.insert(
                pokemon_id,
                self.energy_on(pokemon_id).push(energy_id),
            ),
            ..self
        }
    }

    /// The player after drawing `count` cards, or the whole deck if it
    /// holds fewer.
    pub open spec fn after_draw(self, count: nat) -> PlayerView {
        let k = min_nat(count, self.deck.len());
        PlayerView {
            deck: self.deck.take(self.deck.len() - k),
            hand: self.hand + drawn(self.deck, k),
            ..self
        }
    }

    /// The player after a mulligan in which the hand and the deck were
    /// shuffled into `pile`: the opening hand is drawn from it anew.
    pub open spec fn mulliganed(self, pile: Seq<CardId>) -> PlayerView {
        (PlayerView { deck: pile, hand: Seq::empty(), ..self }).after_draw(OPENING_HAND as nat)
    }

    /// The player with the prize cards set aside: the top `count` cards of
    /// the deck, or all of it if it holds fewer, and as many prize cards to
    /// take as were set aside.
    pub open spec fn prizes_placed(self, count: u32) -> PlayerView {
        let k = min_nat(count as nat, self.deck.len());
        PlayerView { deck: self.deck.take(self.deck.len() - k), prize_cards: k as u32, ..self }
    }

    /// The player with `amount` more damage on a Pokemon.
    pub open spec fn damaged(self, pokemon_id: CardId, amount: u32) -> PlayerView {
        PlayerView {
            damage_counters: self.damage_counters.insert(
                pokemon_id,
                (self.damage_on(pokemon_id) + amount) as u32,
            ),
            ..self
        }
    }

    /// The player after the deck was shuffled with a generator made from
    /// `seed`.
    pub open spec fn deck_shuffled(self, seed: u64) -> PlayerView {
        PlayerView { deck: shuffled(self.deck, seed), ..self }
    }

    /// The player at the start of a turn of theirs, before the draw.
    pub open spec fn turn_started(self) -> PlayerView {
        PlayerView { has_attacked: false, can_play_trainer: true, ..self }
    }

    /// Whether the player has lost: no Pokemon is in play.
    pub open spec fn has_lost(self) -> bool {
        self.active_pokemon is None && self.bench.len() == 0
    }

    /// Whether the player has won: no prize card is left to take.
    pub open spec fn has_won(self) -> bool {
        self.prize_cards == 0
    }
}

impl Player {
    /// A player with a fresh identifier, six prize cards to take and
    /// nothing else.
    pub fn new(name: String) -> (r: Self)
        ensures
            is_random_uuid(r.id),
            r@ == (PlayerView {
                id: r.id,
                name: name@,
                prize_cards: STANDARD_PRIZE_CARDS,
                hand: Seq::empty(),
                active_pokemon: None,
                bench: Seq::empty(),
                discard_pile: Seq::empty(),
                deck: Seq::empty(),
                attached_energy: Map::empty(),
                damage_counters: Map::empty(),
                special_conditions: Map::empty(),
                has_attacked: false,
                can_play_trainer: true,
                stadium: None,
            }),
    {
        let r = Player {
            id: fresh_id(),
            name,
            prize_cards: STANDARD_PRIZE_CARDS,
            hand: Vec::new(),
            active_pokemon: None,
            bench: Vec::new(),
            discard_pile: Vec::new(),
            deck: Vec::new(),
            attached_energy: HashMap::new(),
            damage_counters: HashMap::new(),
            special_conditions: HashMap::new(),
            has_attacked: false,
            can_play_trainer: true,
            stadium: None,
        };
        proof {
            assert(r@.attached_energy =~= Map::empty());
            assert(r@.special_conditions =~= Map::empty());
        }
        r
    }

    /// Replaces the deck.
    pub fn set_deck(&mut self, deck: Vec<CardId>)
        ensures
            final(self)@ == (PlayerView { deck: deck@, ..old(self)@ }),
    {
        self.deck = deck;
    }

    /// Draws the top card of the deck into the hand.
    pub fn draw_card(&mut self) -> (r: Option<CardId>)
        ensures
            final(self)@ == old(self)@.after_draw(1),
            r == if old(self)@.deck.len() > 0 {
                Some(old(self)@.deck.last())
            } else {
                None
            },
    {
        let r = self.deck.pop();
        match r {
            Some(card_id) => {
                self.hand.push(card_id);
                proof {
                    assert(self@.hand =~= old(self)@.hand + drawn(old(self)@.deck, 1));
                    assert(self@.deck =~= old(self)@.deck.take(old(self)@.deck.len() - 1));
                }
            },
            None => {
                proof {
                    assert(self@.hand =~= old(self)@.hand + drawn(old(self)@.deck, 0));
                    assert(self@.deck =~= old(self)@.deck.take(0));
                }
            },
        }
        r
    }

    /// Draws `count` cards, or the whole deck if it holds fewer, and
    /// returns them in the order drawn.
    pub fn draw_cards(&mut self, count: usize) -> (r: Vec<CardId>)
        ensures
            final(self)@ == old(self)@.after_draw(count as nat),
            r@ == drawn(old(self)@.deck, min_nat(count as nat, old(self)@.deck.len())),
    {
        draw_onto(&mut self.deck, &mut self.hand, count)
    }

    /// Takes `count` cards off the top of the deck, or the whole deck if it
    /// holds fewer, to be set aside as prize cards, and returns them.
    pub fn draw_prize_cards(&mut self, count: usize) -> (r: Vec<CardId>)
        ensures
            r@ == drawn(old(self)@.deck, min_nat(count as nat, old(self)@.deck.len())),
            final(self)@ == (PlayerView {
                deck: old(self)@.deck.take(
                    old(self)@.deck.len() - min_nat(count as nat, old(self)@.deck.len()),
                ),
                ..old(self)@
            }),
    {
        let mut aside: Vec<CardId> = Vec::new();
        let r = draw_onto(&mut self.deck, &mut aside, count);
        r
    }

    /// Shuffles the deck with a generator made from `seed`: the deck is
    /// put into the order that the seeded shuffle gives for it. It holds
    /// the same cards afterwards, and nothing else of the player changes.
    pub fn shuffle_deck_seeded(&mut self, seed: u64)
        ensures
            final(self)@ == old(self)@.deck_shuffled(seed),
            final(self)@.deck.to_multiset() == old(self)@.deck.to_multiset(),
    {
        shuffle_with_seed(&mut self.deck, seed);
    }

    /// Shuffles the deck with a random seed: the deck is put into the
    /// order that the seeded shuffle gives for it with some seed. It holds
    /// the same cards afterwards, and nothing else of the player changes.
    pub fn shuffle_deck(&mut self)
        ensures
            exists|seed: u64| final(self)@ == #[trigger] old(self)@.deck_shuffled(seed),
            final(self)@.deck.to_multiset() == old(self)@.deck.to_multiset(),
    {
        let seed = random_seed();
        self.shuffle_deck_seeded(seed);
    }

    /// A mulligan: the hand goes back into the deck, the deck is shuffled
    /// with a generator made from `seed`, and an opening hand is drawn
    /// anew. No card is lost and none is made.
    pub fn mulligan(&mut self, seed: u64)
        ensures
            is_mulliganed(old(self)@, final(self)@),
            final(self)@.hand.len() == min_nat(
                OPENING_HAND as nat,
                old(self)@.deck.len() + old(self)@.hand.len(),
            ),
            (final(self)@.deck + final(self)@.hand).to_multiset() == (old(self)@.deck + old(self)@.hand).to_multiset(),
    {
        let mut i: usize = 0;
        while i < self.hand.len()
            invariant
                i <= self.hand@.len(),
                self@ == (PlayerView {
                    deck: old(self)@.deck + old(self)@.hand.take(i as int),
                    ..old(self)@
                }),
            decreases self.hand@.len() - i,
        {
            self.deck.push(self.hand[i]);
            i += 1;
            proof {
                assert(self@.deck =~= old(self)@.deck + old(self)@.hand.take(i as int));
            }
        }
        proof {
            assert(old(self)@.hand.take(old(self)@.hand.len() as int) =~= old(self)@.hand);
        }
        self.hand = Vec::new();
        shuffle_with_seed(&mut self.deck, seed);
        let ghost pile = self@.deck;
        proof {
            pile.to_multiset_ensures();
            (old(self)@.deck + old(self)@.hand).to_multiset_ensures();
            lemma_drawn_conserves(pile, min_nat(OPENING_HAND as nat, pile.len()));
        }
        draw_onto(&mut self.deck, &mut self.hand, OPENING_HAND);
        proof {
            assert(self@.hand =~= drawn(pile, min_nat(OPENING_HAND as nat, pile.len())));
            assert(self@ =~= old(self)@.mulliganed(pile));
        }
    }

    /// Sets the top `count` cards of the deck aside as prize cards, or all
    /// of it if it holds fewer; the player has as many prize cards to take
    /// as were set aside.
    pub fn place_prize_cards(&mut self, count: u32) -> (r: Vec<CardId>)
        ensures
            final(self)@ == old(self)@.prizes_placed(count),
            r@ == drawn(old(self)@.deck, min_nat(count as nat, old(self)@.deck.len())),
    {
        let aside = self.draw_prize_cards(count as usize);
        self.prize_cards = aside.len() as u32;
        aside
    }

    /// Moves one copy of a card from the hand to the discard pile; `false`
    /// if the hand does not hold it.
    pub fn discard_from_hand(&mut self, card_id: CardId) -> (r: bool)
        ensures
            r == old(self)@.hand.contains(card_id),
            r ==> final(self)@ == (PlayerView {
                hand: remove_first(old(self)@.hand, card_id),
                discard_pile: old(self)@.discard_pile.push(card_id),
                ..old(self)@
            }),
            !r ==> final(self)@ == old(self)@,
    {
        if take_first(&mut self.hand, card_id) {
            self.discard_pile.push(card_id);
            true
        } else {
            proof {
                crate::seqs::lemma_remove_first_absent(old(self)@.hand, card_id);
            }
            false
        }
    }

    /// Makes a card from the hand or the bench the active Pokemon. Every
    /// copy of it leaves the hand and the bench, and the Pokemon that was
    /// active goes to the bench. `false`, and nothing changes, if the card
    /// is in neither place or the bench has no room for the displaced one.
    pub fn set_active_pokemon(&mut self, card_id: CardId) -> (r: bool)
        ensures
            r == old(self)@.can_activate(card_id),
            r ==> final(self)@ == old(self)@.activated(card_id),
            !r ==> final(self)@ == old(self)@,
            old(self)@.wf() ==> final(self)@.wf(),
    {
        if !(contains(&self.hand, card_id) || contains(&self.bench, card_id)) {
            return false;
        }
        let mut bench_left: Vec<CardId> = Vec::new();
        let mut i: usize = 0;
        while i < self.bench.len()
            invariant
                i <= self.bench@.len(),
                *self == *old(self),
                bench_left@ == without(self.bench@.take(i as int), card_id),
            decreases self.bench@.len() - i,
        {
            proof {
                assert(self.bench@.take(i as int + 1).drop_last() == self.bench@.take(i as int));
            }
            if self.bench[i] != card_id {
                bench_left.push(self.bench[i]);
            }
            i += 1;
        }
        proof {
            assert(self.bench@.take(self.bench@.len() as int) == self.bench@);
            lemma_without(self.bench@, card_id);
        }
        match self.active_pokemon {
            Some(displaced) => {
                if bench_left.len() >= MAX_BENCH {
                    return false;
                }
                bench_left.push(displaced);
            },
            None => {},
        }
        take_all(&mut self.hand, card_id);
        self.bench = bench_left;
        self.active_pokemon = Some(card_id);
        true
    }

    /// Moves one copy of a card from the hand to the bench; `false`, and
    /// nothing changes, if the bench is full or the hand does not hold it.
    pub fn bench_pokemon(&mut self, card_id: CardId) -> (r: bool)
        ensures
            r == old(self)@.can_bench(card_id),
            r ==> final(self)@ == old(self)@.benched(card_id),
            !r ==> final(self)@ == old(self)@,
            old(self)@.wf() ==> final(self)@.wf(),
    {
        if self.bench.len() < MAX_BENCH && contains(&self.hand, card_id) {
            take_first(&mut self.hand, card_id);
            self.bench.push(card_id);
            true
        } else {
            false
        }
    }

    /// Moves one copy of an energy card from the hand onto a Pokemon in
    /// play; `false`, and nothing changes, if the hand does not hold the
    /// card or the Pokemon is not in play.
    pub fn attach_energy(&mut self, energy_id: CardId, pokemon_id: CardId) -> (r: bool)
        ensures
            r == old(self)@.can_attach(energy_id, pokemon_id),
            r ==> final(self)@ == old(self)@.attached(energy_id, pokemon_id),
            !r ==> final(self)@ == old(self)@,
    {
        broadcast use vstd::std_specs::hash::group_hash_axioms;

        let is_active = match self.active_pokemon {
            Some(a) => a == pokemon_id,
            None => false,
        };
        if contains(&self.hand, energy_id) && (is_active || contains(&self.bench, pokemon_id)) {
            take_first(&mut self.hand, energy_id);
            let mut list = match self.attached_energy.remove(&pokemon_id) {
                Some(l) => l,
                None => Vec::new(),
            };
            list.push(energy_id);
            self.attached_energy.insert(pokemon_id, list);
            proof {
                assert(self@.attached_energy =~= old(self)@.attached_energy.insert(
                    pokemon_id,
                    old(self)@.energy_on(pokemon_id).push(energy_id),
                ));
            }
            true
        } else {
            false
        }
    }

    /// Adds damage to a Pokemon. The sum has to fit the counter.
    pub fn add_damage(&mut self, pokemon_id: CardId, damage: u32)
        requires
            old(self)@.damage_on(pokemon_id) + damage <= u32::MAX,
        ensures
            final(self)@ == old(self)@.damaged(pokemon_id, damage),
    {
        broadcast use vstd::std_specs::hash::group_hash_axioms;

        let current = self.damage_on(pokemon_id);
        self.damage_counters.insert(pokemon_id, current + damage);
    }

    /// The damage on a Pokemon.
    pub fn damage_on(&self, pokemon_id: CardId) -> (r: u32)
        ensures
            r == self@.damage_on(pokemon_id),
    {
        broadcast use vstd::std_specs::hash::group_hash_axioms;

        match self.damage_counters.get(&pokemon_id) {
            Some(d) => *d,
            None => 0,
        }
    }

    /// Takes damage off a Pokemon, down to none; a Pokemon without damage
    /// has no counter.
    pub fn heal_damage(&mut self, pokemon_id: CardId, amount: u32)
        ensures
            final(self)@ == (PlayerView {
                damage_counters: if !old(self)@.damage_counters.contains_key(pokemon_id) {
                    old(self)@.damage_counters
                } else if old(self)@.damage_counters[pokemon_id] <= amount {
                    old(self)@.damage_counters.remove(pokemon_id)
                } else {
                    old(self)@.damage_counters.insert(
                        pokemon_id,
                        (old(self)@.damage_counters[pokemon_id] - amount) as u32,
                    )
                },
                ..old(self)@
            }),
    {
        broadcast use vstd::std_specs::hash::group_hash_axioms;

        match self.damage_counters.remove(&pokemon_id) {
            Some(current) => {
                if current > amount {
                    self.damage_counters.insert(pokemon_id, current - amount);
                }
            },
            None => {
                proof {
                    assert(self@.damage_counters =~= old(self)@.damage_counters);
                }
            },
        }
    }

    /// Whether the damage on a Pokemon has reached the hit points of its
    /// card; never for a card that is no Pokemon.
    pub fn is_pokemon_knocked_out(&self, pokemon_id: CardId, card: &Card) -> (r: bool)
        ensures
            r == match card.card_type {
                crate::card::CardType::Pokemon { hp, .. } => self@.damage_on(pokemon_id) >= hp,
                _ => false,
            },
    {
        match card.get_hp() {
            Some(hp) => self.damage_on(pokemon_id) >= hp,
            None => false,
        }
    }

    /// Puts a special condition on a Pokemon, behind those it is under.
    pub fn add_special_condition(
        &mut self,
        pokemon_id: CardId,
        condition: SpecialCondition,
        duration: i32,
        current_turn: u32,
    )
        ensures
            final(self)@ == (PlayerView {
                special_conditions: old(self)@.special_conditions.insert(
                    pokemon_id,
                    old(self)@.conditions_on(pokemon_id).push(
                        SpecialConditionInstance {
                            condition,
                            duration,
                            applied_turn: current_turn,
                            data: StringMap::Empty,
                        },
                    ),
                ),
                ..old(self)@
            }),
    {
        self.add_special_condition_with_data(
            pokemon_id,
            condition,
            duration,
            current_turn,
            StringMap::new(),
        );
    }

    /// Puts a special condition that carries data on a Pokemon, behind
    /// those it is under.
    pub fn add_special_condition_with_data(
        &mut self,
        pokemon_id: CardId,
        condition: SpecialCondition,
        duration: i32,
        current_turn: u32,
        data: StringMap,
    )
        ensures
            final(self)@ == (PlayerView {
                special_conditions: old(self)@.special_conditions.insert(
                    pokemon_id,
                    old(self)@.conditions_on(pokemon_id).push(
                        SpecialConditionInstance {
                            condition,
                            duration,
                            applied_turn: current_turn,
                            data,
                        },
                    ),
                ),
                ..old(self)@
            }),
    {
        broadcast use vstd::std_specs::hash::group_hash_axioms;

        let instance = SpecialConditionInstance {
            condition,
            duration,
            applied_turn: current_turn,
            data,
        };
        let mut list = match self.special_conditions.remove(&pokemon_id) {
            Some(l) => l,
            None => Vec::new(),
        };
        list.push(instance);
        self.special_conditions.insert(pokemon_id, list);
        proof {
            assert(self@.special_conditions =~= old(self)@.special_conditions.insert(
                pokemon_id,
                old(self)@.conditions_on(pokemon_id).push(instance),
            ));
        }
    }

    /// Takes the conditions of one kind off a Pokemon; a Pokemon left
    /// without conditions has no entry.
    pub fn remove_special_condition_type(
        &mut self,
        pokemon_id: CardId,
        condition_type: &SpecialCondition,
    )
        ensures
            final(self)@ == (PlayerView {
                special_conditions: if !old(self)@.special_conditions.contains_key(pokemon_id) {
                    old(self)@.special_conditions
                } else if without_kind(
                    old(self)@.special_conditions[pokemon_id],
                    *condition_type,
                ).len() == 0 {
                    old(self)@.special_conditions.remove(pokemon_id)
                } else {
                    old(self)@.special_conditions.insert(
                        pokemon_id,
                        without_kind(old(self)@.special_conditions[pokemon_id], *condition_type),
                    )
                },
                ..old(self)@
            }),
    {
        broadcast use vstd::std_specs::hash::group_hash_axioms;

        match self.special_conditions.remove(&pokemon_id) {
            Some(mut list) => {
                let ghost before = list@;
                let mut kept: Vec<SpecialConditionInstance> = Vec::new();
                while list.len() > 0
                    invariant
                        without_kind(before, *condition_type) == without_kind(
                            list@,
                            *condition_type,
                        ) + kept@.reverse(),
                    decreases list@.len(),
                {
                    let ghost l0 = list@;
                    let ghost k0 = kept@;
                    let instance = list.pop().unwrap();
                    if !instance.condition.is_same_kind(condition_type) {
                        kept.push(instance);
                        proof {
                            assert(kept@.reverse() =~= seq![instance] + k0.reverse());
                            assert(without_kind(l0, *condition_type) + k0.reverse()
                                =~= without_kind(list@, *condition_type) + kept@.reverse());
                        }
                    }
                }
                let mut restored: Vec<SpecialConditionInstance> = Vec::new();
                while kept.len() > 0
                    invariant
                        restored@ + kept@.reverse() == without_kind(before, *condition_type),
                    decreases kept@.len(),
                {
                    let ghost r0 = restored@;
                    let ghost k0 = kept@;
                    let instance = kept.pop().unwrap();
                    restored.push(instance);
                    proof {
                        assert(k0.reverse() =~= seq![instance] + kept@.reverse());
                        assert(restored@ + kept@.reverse() =~= r0 + k0.reverse());
                    }
                }
                proof {
                    assert(kept@.reverse() =~= Seq::empty());
                    assert(restored@ =~= without_kind(before, *condition_type));
                }
                if restored.len() > 0 {
                    self.special_conditions.insert(pokemon_id, restored);
                    proof {
                        assert(self@.special_conditions =~= old(self)@.special_conditions.insert(
                            pokemon_id,
                            without_kind(before, *condition_type),
                        ));
                    }
                } else {
                    proof {
                        assert(self@.special_conditions =~= old(self)@.special_conditions.remove(pokemon_id));
                    }
                }
            },
            None => {
                proof {
                    assert(self@.special_conditions =~= old(self)@.special_conditions);
                }
            },
        }
    }

    /// Takes every special condition off a Pokemon.
    pub fn clear_special_conditions(&mut self, pokemon_id: CardId)
        ensures
            final(self)@ == (PlayerView {
                special_conditions: old(self)@.special_conditions.remove(pokemon_id),
                ..old(self)@
            }),
    {
        broadcast use vstd::std_specs::hash::group_hash_axioms;

        self.special_conditions.remove(&pokemon_id);
        proof {
            assert(self@.special_conditions =~= old(self)@.special_conditions.remove(pokemon_id));
        }
    }

    /// Whether a Pokemon is under a condition of the kind of
    /// `condition_type`.
    pub fn has_special_condition_type(
        &self,
        pokemon_id: CardId,
        condition_type: &SpecialCondition,
    ) -> (r: bool)
        ensures
            r == has_kind(self@.conditions_on(pokemon_id), *condition_type),
    {
        broadcast use vstd::std_specs::hash::group_hash_axioms;

        match self.special_conditions.get(&pokemon_id) {
            Some(list) => {
                let mut i: usize = 0;
                while i < list.len()
                    invariant
                        i <= list@.len(),
                        list@ == self@.conditions_on(pokemon_id),
                        forall|j: int|
                            0 <= j < i ==> !same_kind(
                                (#[trigger] list@[j]).condition,
                                *condition_type,
                            ),
                    decreases list@.len() - i,
                {
                    if list[i].condition.is_same_kind(condition_type) {
                        proof {
                            let s = self@.conditions_on(pokemon_id);
                            assert(same_kind(s[i as int].condition, *condition_type));
                        }
                        return true;
                    }
                    i += 1;
                }
                false
            },
            None => false,
        }
    }

    /// The special conditions on a Pokemon, oldest first.
    pub fn get_special_conditions(&self, pokemon_id: CardId) -> (r: Vec<SpecialConditionInstance>)
        ensures
            r@ == self@.conditions_on(pokemon_id),
    {
        broadcast use vstd::std_specs::hash::group_hash_axioms;

        match self.special_conditions.get(&pokemon_id) {
            Some(list) => copy_conditions(list),
            None => Vec::new(),
        }
    }

    /// Whether a Pokemon can attack: it is neither paralyzed nor asleep.
    pub fn can_pokemon_attack(&self, pokemon_id: CardId) -> (r: bool)
        ensures
            r == !blocks_attack(self@.conditions_on(pokemon_id)),
    {
        broadcast use vstd::std_specs::hash::group_hash_axioms;

        match self.special_conditions.get(&pokemon_id) {
            Some(list) => {
                let mut i: usize = 0;
                while i < list.len()
                    invariant
                        i <= list@.len(),
                        list@ == self@.conditions_on(pokemon_id),
                        forall|j: int|
                            0 <= j < i ==> !((#[trigger] list@[j]).condition is Paralyzed
                                || list@[j].condition is Asleep),
                    decreases list@.len() - i,
                {
                    match &list[i].condition {
                        SpecialCondition::Paralyzed | SpecialCondition::Asleep => {
                            proof {
                                let s = self@.conditions_on(pokemon_id);
                                assert(s[i as int].condition is Paralyzed || s[i as int].condition
                                    is Asleep);
                            }
                            return false;
                        },
                        _ => {},
                    }
                    i += 1;
                }
                true
            },
            None => true,
        }
    }

    /// Whether a Pokemon can retreat: it is not trapped.
    pub fn can_pokemon_retreat(&self, pokemon_id: CardId) -> (r: bool)
        ensures
            r == !blocks_retreat(self@.conditions_on(pokemon_id)),
    {
        broadcast use vstd::std_specs::hash::group_hash_axioms;

        match self.special_conditions.get(&pokemon_id) {
            Some(list) => {
                let mut i: usize = 0;
                while i < list.len()
                    invariant
                        i <= list@.len(),
                        list@ == self@.conditions_on(pokemon_id),
                        forall|j: int| 0 <= j < i ==> !((#[trigger] list@[j]).condition is Trapped),
                    decreases list@.len() - i,
                {
                    match &list[i].condition {
                        SpecialCondition::Trapped => {
                            proof {
                                let s = self@.conditions_on(pokemon_id);
                                assert(s[i as int].condition is Trapped);
                            }
                            return false;
                        },
                        _ => {},
                    }
                    i += 1;
                }
                true
            },
            None => true,
        }
    }

    /// The number of energy cards attached to a Pokemon.
    pub fn get_attached_energy_count(&self, pokemon_id: CardId) -> (r: usize)
        ensures
            r == self@.energy_on(pokemon_id).len(),
    {
        broadcast use vstd::std_specs::hash::group_hash_axioms;

        match self.attached_energy.get(&pokemon_id) {
            Some(list) => list.len(),
            None => 0,
        }
    }

    /// The energy types of the cards attached to a Pokemon that `db` knows
    /// as energy cards, in the order of attachment.
    pub fn get_attached_energy_types(
        &self,
        pokemon_id: CardId,
        card_database: &HashMap<CardId, Card>,
    ) -> (r: Vec<EnergyType>)
        ensures
            r@ == energy_types_in(self@.energy_on(pokemon_id), card_database@),
    {
        broadcast use vstd::std_specs::hash::group_hash_axioms;

        let mut types: Vec<EnergyType> = Vec::new();
        match self.attached_energy.get(&pokemon_id) {
            Some(list) => {
                let mut i: usize = 0;
                while i < list.len()
                    invariant
                        i <= list@.len(),
                        types@ == energy_types_in(list@.take(i as int), card_database@),
                    decreases list@.len() - i,
                {
                    proof {
                        assert(list@.take(i as int + 1).drop_last() == list@.take(i as int));
                    }
                    match card_database.get(&list[i]) {
                        Some(card) => match card.get_energy_type() {
                            Some(energy_type) => {
                                types.push(*energy_type);
                            },
                            None => {},
                        },
                        None => {},
                    }
                    i += 1;
                }
                proof {
                    assert(list@.take(list@.len() as int) == list@);
                }
            },
            None => {},
        }
        types
    }

    /// Lets a turn pass over the special conditions. Each condition yields
    /// what it asks for; a condition in its last turn is taken off and
    /// named in a notice. The Pokemon are visited in the order in which the
    /// table of conditions hands them out, the conditions of each oldest
    /// first.
    pub fn update_special_conditions(&mut self, current_turn: u32) -> (effects: Vec<
        ConditionEffect,
    >)
        ensures
            final(self)@ == (PlayerView {
                special_conditions: ticked_all(old(self)@.special_conditions),
                ..old(self)@
            }),
            exists|order: Seq<CardId>|
                order.no_duplicates() && order.to_set() == old(self)@.special_conditions.dom()
                    && effect_views(effects@) == #[trigger] effects_along(
                    order,
                    old(self)@.special_conditions,
                ),
    {
        broadcast use vstd::std_specs::hash::group_hash_axioms;

        let mut effects: Vec<ConditionEffect> = Vec::new();
        let order = keys_of(&self.special_conditions);
        let ghost m0 = old(self)@.special_conditions;
        let mut i: usize = 0;
        proof {
            assert(order@.take(0) =~= Seq::empty());
            assert(effect_views(effects@) =~= Seq::empty());
            assert(self@.special_conditions =~= m0);
        }
        while i < order.len()
            invariant
                i <= order@.len(),
                order@.no_duplicates(),
                order@.to_set() == m0.dom(),
                m0 == old(self)@.special_conditions,
                self@ == (PlayerView {
                    special_conditions: self@.special_conditions,
                    ..old(self)@
                }),
                effect_views(effects@) == effects_along(order@.take(i as int), m0),
                forall|p: CardId|
                    order@.take(i as int).contains(p) ==> (
                    #[trigger] self@.special_conditions.contains_key(p) <==> ticked(m0[p]).len()
                        > 0),
                forall|p: CardId|
                    order@.take(i as int).contains(p) && self@.special_conditions.contains_key(p)
                        ==> #[trigger] self@.special_conditions[p] == ticked(m0[p]),
                forall|p: CardId|
                    !order@.take(i as int).contains(p) ==> (
                    #[trigger] self@.special_conditions.contains_key(p) <==> m0.contains_key(p)),
                forall|p: CardId|
                    !order@.take(i as int).contains(p) && m0.contains_key(p)
                        ==> #[trigger] self@.special_conditions[p] == m0[p],
            decreases order@.len() - i,
        {
            let pokemon_id = order[i];
            let ghost done = order@.take(i as int);
            let ghost cur = self@.special_conditions;
            proof {
                assert(order@.to_set().contains(pokemon_id));
                assert(m0.contains_key(pokemon_id));
                if done.contains(pokemon_id) {
                    let j = choose|j: int| 0 <= j < done.len() && done[j] == pokemon_id;
                    assert(order@[j] == order@[i as int]);
                }
                assert(order@.take(i as int + 1).drop_last() =~= done);
                assert(order@.take(i as int + 1).last() == pokemon_id);
                assert(cur.contains_key(pokemon_id));
                assert(cur[pokemon_id] == m0[pokemon_id]);
            }
            match self.special_conditions.remove(&pokemon_id) {
                Some(list) => {
                    let left = tick_conditions(pokemon_id, list, &mut effects);
                    if left.len() > 0 {
                        self.special_conditions.insert(pokemon_id, left);
                    }
                },
                None => {},
            }
            proof {
                let next = order@.take(i as int + 1);
                let now = self@.special_conditions;
                assert forall|p: CardId| next.contains(p) <==> (done.contains(p) || p
                    == pokemon_id) by {
                    if next.contains(p) {
                        let j = choose|j: int| 0 <= j < next.len() && next[j] == p;
                        if j < i {
                            assert(done[j] == p);
                        }
                    }
                    if done.contains(p) {
                        let j = choose|j: int| 0 <= j < done.len() && done[j] == p;
                        assert(next[j] == p);
                    }
                    if p == pokemon_id {
                        assert(next[i as int] == p);
                    }
                }
                assert forall|p: CardId| p != pokemon_id implies (now.contains_key(p)
                    <==> cur.contains_key(p)) && (now.contains_key(p) ==> now[p] == cur[p]) by {}
                assert(now.contains_key(pokemon_id) <==> ticked(m0[pokemon_id]).len() > 0);
                assert(now.contains_key(pokemon_id) ==> now[pokemon_id] == ticked(
                    m0[pokemon_id],
                ));
                assert forall|p: CardId| next.contains(p) implies (now.contains_key(p) <==> ticked(
                    m0[p],
                ).len() > 0) by {
                    if p != pokemon_id {
                        assert(done.contains(p));
                        assert(cur.contains_key(p) <==> ticked(m0[p]).len() > 0);
                    }
                }
                assert forall|p: CardId| next.contains(p) && now.contains_key(p) implies now[p]
                    == ticked(m0[p]) by {
                    if p != pokemon_id {
                        assert(done.contains(p));
                        assert(cur.contains_key(p));
                        assert(cur[p] == ticked(m0[p]));
                    }
                }
                assert forall|p: CardId| !next.contains(p) implies (now.contains_key(p)
                    <==> m0.contains_key(p)) by {
                    assert(!done.contains(p));
                    assert(p != pokemon_id);
                    assert(cur.contains_key(p) <==> m0.contains_key(p));
                }
                assert forall|p: CardId| !next.contains(p) && m0.contains_key(p) implies now[p]
                    == m0[p] by {
                    assert(!done.contains(p));
                    assert(p != pokemon_id);
                    assert(cur.contains_key(p) <==> m0.contains_key(p));
                    assert(cur[p] == m0[p]);
                }
            }
            i += 1;
        }
        proof {
            assert(order@.take(order@.len() as int) =~= order@);
            assert forall|p: CardId| order@.contains(p) <==> m0.contains_key(p) by {
                assert(order@.to_set().contains(p) <==> order@.contains(p));
            }
            assert(self@.special_conditions =~= ticked_all(m0));
        }
        effects
    }

    /// Takes a prize card; `false` if none is left.
    pub fn take_prize_card(&mut self) -> (r: bool)
        ensures
            r == (old(self)@.prize_cards > 0),
            final(self)@ == (PlayerView {
                prize_cards: if r {
                    (old(self)@.prize_cards - 1) as u32
                } else {
                    0
                },
                ..old(self)@
            }),
    {
        if self.prize_cards > 0 {
            self.prize_cards -= 1;
            true
        } else {
            false
        }
    }

    /// Resets what holds for one turn only.
    pub fn start_turn(&mut self)
        ensures
            final(self)@ == old(self)@.turn_started(),
    {
        self.has_attacked = false;
        self.can_play_trainer = true;
    }

    /// Ends the player's turn. Nothing of the player changes.
    pub fn end_turn(&mut self)
        ensures
            final(self)@ == old(self)@,
    {
    }

    /// Whether the player has lost: no Pokemon is in play.
    pub fn has_lost(&self) -> (r: bool)
        ensures
            r == self@.has_lost(),
    {
        self.active_pokemon.is_none() && self.bench.len() == 0
    }

    /// Whether the player has won: no prize card is left to take.
    pub fn has_won(&self) -> (r: bool)
        ensures
            r == self@.has_won(),
    {
        self.prize_cards == 0
    }

    /// The cards in hand that `card_database` knows as basic Pokemon, in
    /// the hand's order.
    pub fn find_basic_pokemon_in_hand(&self, card_database: &HashMap<CardId, Card>) -> (r: Vec<
        CardId,
    >)
        ensures
            r@ == basics_in(self@.hand, card_database@),
    {
        broadcast use vstd::std_specs::hash::group_hash_axioms;

        let mut basics: Vec<CardId> = Vec::new();
        let mut i: usize = 0;
        while i < self.hand.len()
            invariant
                i <= self.hand@.len(),
                basics@ == basics_in(self.hand@.take(i as int), card_database@),
            decreases self.hand@.len() - i,
        {
            proof {
                assert(self.hand@.take(i as int + 1).drop_last() == self.hand@.take(i as int));
            }
            let card_id = self.hand[i];
            match card_database.get(&card_id) {
                Some(card) => {
                    if card.is_basic_pokemon() {
                        basics.push(card_id);
                    }
                },
                None => {},
            }
            i += 1;
        }
        proof {
            assert(self.hand@.take(self.hand@.len() as int) == self.hand@);
        }
        basics
    }

    /// Where a card is: the first of hand, deck, discard pile, active
    /// place and bench that holds it, else a Pokemon that it is attached
    /// to as energy. `None` if it is in none of these.
    pub fn find_card_location(&self, card_id: CardId) -> (r: Option<CardLocation>)
        ensures
            self@.hand.contains(card_id) ==> r == Some(CardLocation::Hand),
            !self@.hand.contains(card_id) && self@.deck.contains(card_id) ==> r == Some(
                CardLocation::Deck,
            ),
            !self@.hand.contains(card_id) && !self@.deck.contains(card_id)
                && self@.discard_pile.contains(card_id) ==> r == Some(CardLocation::DiscardPile),
            !self@.hand.contains(card_id) && !self@.deck.contains(card_id)
                && !self@.discard_pile.contains(card_id) ==> match r {
                Some(CardLocation::Active) => self@.active_pokemon == Some(card_id),
                Some(CardLocation::Bench(i)) => self@.active_pokemon != Some(card_id) && i
                    < self@.bench.len() && self@.bench[i as int] == card_id && forall|j: int|
                    0 <= j < i ==> self@.bench[j] != card_id,
                Some(CardLocation::AttachedEnergy(p)) => !self@.in_play(card_id)
                    && self@.attached_energy.contains_key(p) && self@.attached_energy[p].contains(
                    card_id,
                ),
                None => !self@.in_play(card_id) && forall|p: CardId|
                    self@.attached_energy.contains_key(p) ==> !(
                    #[trigger] self@.attached_energy[p]).contains(card_id),
                _ => false,
            },
    {
        broadcast use vstd::std_specs::hash::group_hash_axioms;

        if contains(&self.hand, card_id) {
            return Some(CardLocation::Hand);
        }
        if contains(&self.deck, card_id) {
            return Some(CardLocation::Deck);
        }
        if contains(&self.discard_pile, card_id) {
            return Some(CardLocation::DiscardPile);
        }
        match self.active_pokemon {
            Some(a) => {
                if a == card_id {
                    return Some(CardLocation::Active);
                }
            },
            None => {},
        }
        match position(&self.bench, card_id) {
            Some(i) => {
                return Some(CardLocation::Bench(i));
            },
            None => {},
        }
        let keys = self.attached_energy.keys();
        let ghost ks = keys.remaining();
        assert(ks.unref().to_set() == self.attached_energy@.dom());
        for pokemon_id in it: keys
            invariant
                it.seq() == ks,
                ks.unref().to_set() == self.attached_energy@.dom(),
                !self@.hand.contains(card_id),
                !self@.deck.contains(card_id),
                !self@.discard_pile.contains(card_id),
                !self@.in_play(card_id),
                forall|j: int|
                    0 <= j < it.index() ==> !self@.attached_energy[*(#[trigger] ks[j])].contains(
                        card_id,
                    ),
        {
            assert(ks.unref()[it.index()] == *pokemon_id);
            assert(ks.unref().to_set().contains(*pokemon_id));
            match self.attached_energy.get(pokemon_id) {
                Some(list) => {
                    if contains(list, card_id) {
                        return Some(CardLocation::AttachedEnergy(*pokemon_id));
                    }
                },
                None => {},
            }
        }
        proof {
            assert forall|p: CardId| self@.attached_energy.contains_key(p) implies !(
            #[trigger] self@.attached_energy[p]).contains(card_id) by {
                assert(ks.unref().to_set().contains(p));
                let j = choose|j: int| 0 <= j < ks.unref().len() && ks.unref()[j] == p;
                assert(*ks[j] == p);
            }
        }
        None
    }
}

} // verus!
