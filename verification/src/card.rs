//! Cards: their kinds, attacks and abilities.

use crate::ids::{fresh_id, is_random_uuid, CardId};
use crate::text::StringMap;
use vstd::prelude::*;

verus! {

/// The energy types of the game.
#[derive(Clone, Copy, Debug, PartialEq, Eq, Hash, Structural)]
pub enum EnergyType {
    Grass,
    Fire,
    Water,
    Lightning,
    Psychic,
    Fighting,
    Darkness,
    Metal,
    Fairy,
    Dragon,
    Colorless,
}

/// The evolution stage of a Pokemon card.
#[derive(Clone, Copy, Debug, PartialEq, Eq, Structural)]
pub enum EvolutionStage {
    Basic,
    Stage1,
    Stage2,
    Mega,
    GX,
    EX,
    V,
    VMax,
}

/// The kinds of trainer card.
#[derive(Clone, Copy, Debug, PartialEq, Eq, Structural)]
pub enum TrainerType {
    Item,
    Supporter,
    Stadium,
    Tool,
}

/// How rare a card is.
#[derive(Clone, Copy, Debug, PartialEq, Eq, Structural)]
pub enum CardRarity {
    Common,
    Uncommon,
    Rare,
    RareHolo,
    UltraRare,
    SecretRare,
    Promo,
}

/// The status conditions that an attack can inflict.
#[derive(Clone, Copy, Debug, PartialEq, Eq, Structural)]
pub enum StatusCondition {
    Poison,
    Burn,
    Paralysis,
    Sleep,
    Confusion,
}

/// Whom an attack is aimed at.
#[derive(Clone, Copy, Debug, PartialEq, Eq, Structural)]
pub enum AttackTargetType {
    /// The opponent's active Pokemon.
    Active,
    /// Any one of the opponent's Pokemon.
    Choose,
    /// All of the opponent's Pokemon.
    All,
    /// A Pokemon on the bench.
    Bench,
    /// The attacker itself.
    Self_,
}

/// What a card is.
#[derive(Clone, Debug, PartialEq, Eq)]
pub enum CardType {
    /// A Pokemon, which can be put into play.
    Pokemon {
        species: String,
        hp: u32,
        retreat_cost: u32,
        weakness: Option<EnergyType>,
        resistance: Option<EnergyType>,
        stage: EvolutionStage,
        evolves_from: Option<String>,
    },
    /// An energy card, which powers attacks.
    Energy { energy_type: EnergyType, is_basic: bool },
    /// A trainer card.
    Trainer { trainer_type: TrainerType },
}

/// How an attack's damage is computed beyond its base damage.
#[derive(Clone, Debug, PartialEq, Eq)]
pub enum DamageMode {
    /// Extra damage for each attached energy.
    PerEnergy { per_energy: u32, energy_type: Option<EnergyType> },
    /// Extra damage for each coin that shows heads.
    CoinFlip { per_heads: u32, flips: u32 },
    /// Extra damage for each Pokemon at a location.
    PerPokemon { per_pokemon: u32, location: String },
    /// Damage within a range.
    Variable { min: u32, max: u32 },
}

/// A status condition that an attack may inflict.
#[derive(Clone, Debug, PartialEq, Eq)]
pub struct StatusEffect {
    pub condition: StatusCondition,
    /// A percentage, 0 to 100.
    pub probability: u32,
    pub target: String,
}

/// An attack of a Pokemon card.
#[derive(Clone, Debug, PartialEq, Eq)]
pub struct Attack {
    pub name: String,
    /// The energy that the attack costs, one entry per energy.
    pub cost: Vec<EnergyType>,
    /// The base damage.
    pub damage: u32,
    pub effect: Option<String>,
    pub damage_mode: Option<DamageMode>,
    pub status_effects: Vec<StatusEffect>,
    pub conditions: Vec<String>,
    pub target_type: AttackTargetType,
}

/// An ability of a Pokemon card.
#[derive(Clone, Debug, PartialEq, Eq)]
pub struct Ability {
    pub name: String,
    pub effect: String,
    pub ability_type: String,
}

/// A card. Attacks and abilities are kept only on Pokemon cards.
#[derive(Clone, Debug, PartialEq, Eq)]
pub struct Card {
    pub id: CardId,
    pub name: String,
    pub card_type: CardType,
    pub set_name: String,
    pub set_number: String,
    pub rarity: CardRarity,
    pub attacks: Vec<Attack>,
    pub abilities: Vec<Ability>,
    pub rules: Vec<String>,
    pub metadata: StringMap,
}

/// The number of Pokemon that stands in for the count of a location while
/// no game state is at hand.
pub const ASSUMED_POKEMON_COUNT: u32 = 2;

/// How many entries of `flips` are heads.
pub open spec fn heads(flips: Seq<bool>) -> nat
    decreases flips.len(),
{
    if flips.len() == 0 {
        0
    } else {
        heads(flips.drop_last()) + if flips.last() { 1nat } else { 0nat }
    }
}

/// How often `t` occurs in `s`.
pub open spec fn energy_count(s: Seq<EnergyType>, t: EnergyType) -> nat
    decreases s.len(),
{
    if s.len() == 0 {
        0
    } else {
        energy_count(s.drop_last(), t) + if s.last() == t { 1nat } else { 0nat }
    }
}

/// Whether the energy in `attached` pays for `cost`: of each type at least
/// as many are attached as the cost names. No type stands in for another.
pub open spec fn energy_covers(cost: Seq<EnergyType>, attached: Seq<EnergyType>) -> bool {
    forall|t: EnergyType| energy_count(cost, t) <= energy_count(attached, t)
}

/// A type that does not occur in `cost` asks for nothing.
proof fn lemma_energy_count_absent(s: Seq<EnergyType>, t: EnergyType)
    requires
        forall|i: int| 0 <= i < s.len() ==> s[i] != t,
    ensures
        energy_count(s, t) == 0,
    decreases s.len(),
{
    if s.len() > 0 {
        lemma_energy_count_absent(s.drop_last(), t);
    }
}

fn count_heads(flips: &[bool]) -> (n: usize)
    ensures
        n == heads(flips@),
{
    let mut n: usize = 0;
    let mut i: usize = 0;
    while i < flips.len()
        invariant
            i <= flips@.len(),
            n == heads(flips@.take(i as int)),
            n <= i,
        decreases flips@.len() - i,
    {
        proof {
            assert(flips@.take(i as int + 1).drop_last() == flips@.take(i as int));
        }
        if flips[i] {
            n += 1;
        }
        i += 1;
    }
    proof {
        assert(flips@.take(flips@.len() as int) == flips@);
    }
    n
}

fn count_energy(s: &[EnergyType], t: EnergyType) -> (n: usize)
    ensures
        n == energy_count(s@, t),
{
    let mut n: usize = 0;
    let mut i: usize = 0;
    while i < s.len()
        invariant
            i <= s@.len(),
            n == energy_count(s@.take(i as int), t),
            n <= i,
        decreases s@.len() - i,
    {
        proof {
            assert(s@.take(i as int + 1).drop_last() == s@.take(i as int));
        }
        if s[i] == t {
            n += 1;
        }
        i += 1;
    }
    proof {
        assert(s@.take(s@.len() as int) == s@);
    }
    n
}

fn covers(cost: &[EnergyType], attached: &[EnergyType]) -> (r: bool)
    ensures
        r == energy_covers(cost@, attached@),
{
    let mut i: usize = 0;
    while i < cost.len()
        invariant
            i <= cost@.len(),
            forall|j: int|
                0 <= j < i ==> energy_count(cost@, #[trigger] cost@[j]) <= energy_count(
                    attached@,
                    cost@[j],
                ),
        decreases cost@.len() - i,
    {
        let t = cost[i];
        if count_energy(attached, t) < count_energy(cost, t) {
            return false;
        }
        i += 1;
    }
    proof {
        assert forall|t: EnergyType| energy_count(cost@, t) <= energy_count(attached@, t) by {
            if exists|j: int| 0 <= j < cost@.len() && cost@[j] == t {
                let j = choose|j: int| 0 <= j < cost@.len() && cost@[j] == t;
                assert(energy_count(cost@, cost@[j]) <= energy_count(attached@, cost@[j]));
            } else {
                lemma_energy_count_absent(cost@, t);
            }
        }
    }
    true
}

impl Attack {
    /// The damage that the attack deals with `energy_count` energy attached
    /// and `heads` coins showing heads.
    pub open spec fn spec_damage(&self, energy_count: u32, heads: nat) -> int {
        match self.damage_mode {
            None => self.damage as int,
            Some(DamageMode::PerEnergy { per_energy, .. }) => self.damage + per_energy
                * energy_count,
            Some(DamageMode::CoinFlip { per_heads, .. }) => self.damage + per_heads * heads,
            Some(DamageMode::PerPokemon { per_pokemon, .. }) => self.damage + per_pokemon
                * ASSUMED_POKEMON_COUNT,
            Some(DamageMode::Variable { min, .. }) => min as int,
        }
    }

    /// An attack with fixed damage, aimed at the active Pokemon.
    pub fn simple(name: String, cost: Vec<EnergyType>, damage: u32) -> (r: Self)
        ensures
            r.name == name,
            r.cost == cost,
            r.damage == damage,
            r.effect is None,
            r.damage_mode is None,
            r.status_effects@.len() == 0,
            r.conditions@.len() == 0,
            r.target_type == AttackTargetType::Active,
    {
        Attack {
            name,
            cost,
            damage,
            effect: None,
            damage_mode: None,
            status_effects: Vec::new(),
            conditions: Vec::new(),
            target_type: AttackTargetType::Active,
        }
    }

    /// An attack that may inflict `status` on the defending Pokemon.
    pub fn with_status(
        name: String,
        cost: Vec<EnergyType>,
        damage: u32,
        status: StatusCondition,
        probability: u32,
    ) -> (r: Self)
        ensures
            r.name == name,
            r.cost == cost,
            r.damage == damage,
            r.effect is None,
            r.damage_mode is None,
            r.status_effects@.len() == 1,
            r.status_effects@[0].condition == status,
            r.status_effects@[0].probability == probability,
            r.status_effects@[0].target@ == "defending"@,
            r.conditions@.len() == 0,
            r.target_type == AttackTargetType::Active,
    {
        let mut status_effects: Vec<StatusEffect> = Vec::new();
        status_effects.push(
            StatusEffect { condition: status, probability, target: String::from_str("defending") },
        );
        Attack {
            name,
            cost,
            damage,
            effect: None,
            damage_mode: None,
            status_effects,
            conditions: Vec::new(),
            target_type: AttackTargetType::Active,
        }
    }

    /// An attack that adds `damage_per_heads` for each of `flips` coins
    /// that shows heads.
    pub fn coin_flip_damage(
        name: String,
        cost: Vec<EnergyType>,
        base_damage: u32,
        damage_per_heads: u32,
        flips: u32,
    ) -> (r: Self)
        ensures
            r.name == name,
            r.cost == cost,
            r.damage == base_damage,
            r.effect is None,
            r.damage_mode == Some(DamageMode::CoinFlip { per_heads: damage_per_heads, flips }),
            r.status_effects@.len() == 0,
            r.conditions@.len() == 0,
            r.target_type == AttackTargetType::Active,
    {
        Attack {
            name,
            cost,
            damage: base_damage,
            effect: None,
            damage_mode: Some(DamageMode::CoinFlip { per_heads: damage_per_heads, flips }),
            status_effects: Vec::new(),
            conditions: Vec::new(),
            target_type: AttackTargetType::Active,
        }
    }

    /// Appends a status effect.
    pub fn add_status_effect(&mut self, effect: StatusEffect)
        ensures
            final(self).status_effects@ == old(self).status_effects@.push(effect),
            final(self).name == old(self).name,
            final(self).cost == old(self).cost,
            final(self).damage == old(self).damage,
            final(self).effect == old(self).effect,
            final(self).damage_mode == old(self).damage_mode,
            final(self).conditions == old(self).conditions,
            final(self).target_type == old(self).target_type,
    {
        self.status_effects.push(effect);
    }

    /// Appends a condition for the attack's use.
    pub fn add_condition(&mut self, condition: String)
        ensures
            final(self).conditions@ == old(self).conditions@.push(condition),
            final(self).name == old(self).name,
            final(self).cost == old(self).cost,
            final(self).damage == old(self).damage,
            final(self).effect == old(self).effect,
            final(self).damage_mode == old(self).damage_mode,
            final(self).status_effects == old(self).status_effects,
            final(self).target_type == old(self).target_type,
    {
        self.conditions.push(condition);
    }

    /// Sets how the damage is computed.
    pub fn set_damage_mode(&mut self, mode: DamageMode)
        ensures
            *final(self) == (Attack { damage_mode: Some(mode), ..*old(self) }),
    {
        self.damage_mode = Some(mode);
    }

    /// Sets whom the attack is aimed at.
    pub fn set_target_type(&mut self, target: AttackTargetType)
        ensures
            *final(self) == (Attack { target_type: target, ..*old(self) }),
    {
        self.target_type = target;
    }

    /// The damage that the attack deals, given the number of attached energy
    /// and the results of the coin flips (`true` is heads). The sum has to
    /// fit the result type.
    pub fn calculate_damage(&self, energy_count: u32, coin_results: &[bool]) -> (r: u32)
        requires
            self.spec_damage(energy_count, heads(coin_results@)) <= u32::MAX,
        ensures
            r == self.spec_damage(energy_count, heads(coin_results@)),
    {
        match &self.damage_mode {
            None => self.damage,
            Some(DamageMode::PerEnergy { per_energy, .. }) => {
                let extra: u64 = (*per_energy as u64) * (energy_count as u64);
                assert((*per_energy as u64) * (energy_count as u64) <= 0xFFFF_FFFFu64
                    * 0xFFFF_FFFFu64) by (nonlinear_arith)
                    requires
                        *per_energy <= 0xFFFF_FFFFu64,
                        energy_count <= 0xFFFF_FFFFu64,
                ;
                (self.damage as u64 + extra) as u32
            },
            Some(DamageMode::CoinFlip { per_heads, .. }) => {
                let n = count_heads(coin_results);
                assert((*per_heads as u128) * (n as u128) <= 0xFFFF_FFFFu128
                    * 0xFFFF_FFFF_FFFF_FFFFu128) by (nonlinear_arith)
                    requires
                        *per_heads <= 0xFFFF_FFFFu128,
                        n <= 0xFFFF_FFFF_FFFF_FFFFu128,
                ;
                let extra: u128 = (*per_heads as u128) * (n as u128);
                (self.damage as u128 + extra) as u32
            },
            Some(DamageMode::PerPokemon { per_pokemon, .. }) => {
                let extra: u64 = (*per_pokemon as u64) * (ASSUMED_POKEMON_COUNT as u64);
                (self.damage as u64 + extra) as u32
            },
            Some(DamageMode::Variable { min, .. }) => *min,
        }
    }
}

impl Card {
    /// Whether the card is a Pokemon.
    pub open spec fn spec_is_pokemon(&self) -> bool {
        self.card_type is Pokemon
    }

    /// Whether the card is an energy card.
    pub open spec fn spec_is_energy(&self) -> bool {
        self.card_type is Energy
    }

    /// Whether the card is a basic energy card.
    pub open spec fn spec_is_basic_energy(&self) -> bool {
        self.card_type matches CardType::Energy { is_basic, .. } && is_basic
    }

    /// Whether the card is a trainer.
    pub open spec fn spec_is_trainer(&self) -> bool {
        self.card_type is Trainer
    }

    /// Whether the card is a Pokemon of the basic stage.
    pub open spec fn spec_is_basic_pokemon(&self) -> bool {
        self.card_type matches CardType::Pokemon { stage, .. } && stage == EvolutionStage::Basic
    }

    /// The attacks among the first `n` that `attached` pays for, each with
    /// its index, in the card's order.
    pub open spec fn usable_among(&self, attached: Seq<EnergyType>, n: nat) -> Seq<
        (usize, &Attack),
    >
        decreases n,
    {
        if n == 0 {
            Seq::empty()
        } else {
            let i = (n - 1) as nat;
            let before = self.usable_among(attached, i);
            if energy_covers(self.attacks@[i as int].cost@, attached) {
                before.push((i as usize, &self.attacks@[i as int]))
            } else {
                before
            }
        }
    }

    /// A card with a fresh identifier and no attacks, abilities, rules or
    /// metadata.
    pub fn new(
        name: String,
        card_type: CardType,
        set_name: String,
        set_number: String,
        rarity: CardRarity,
    ) -> (r: Self)
        ensures
            is_random_uuid(r.id),
            r.name == name,
            r.card_type == card_type,
            r.set_name == set_name,
            r.set_number == set_number,
            r.rarity == rarity,
            r.attacks@.len() == 0,
            r.abilities@.len() == 0,
            r.rules@.len() == 0,
            r.metadata@ == Map::<Seq<char>, Seq<char>>::empty(),
    {
        Card {
            id: fresh_id(),
            name,
            card_type,
            set_name,
            set_number,
            rarity,
            attacks: Vec::new(),
            abilities: Vec::new(),
            rules: Vec::new(),
            metadata: StringMap::new(),
        }
    }

    /// Whether the card is a Pokemon.
    pub fn is_pokemon(&self) -> (r: bool)
        ensures
            r == self.spec_is_pokemon(),
    {
        match &self.card_type {
            CardType::Pokemon { .. } => true,
            _ => false,
        }
    }

    /// Whether the card is an energy card.
    pub fn is_energy(&self) -> (r: bool)
        ensures
            r == self.spec_is_energy(),
    {
        match &self.card_type {
            CardType::Energy { .. } => true,
            _ => false,
        }
    }

    /// Whether the card is a trainer.
    pub fn is_trainer(&self) -> (r: bool)
        ensures
            r == self.spec_is_trainer(),
    {
        match &self.card_type {
            CardType::Trainer { .. } => true,
            _ => false,
        }
    }

    /// Whether the card is a Pokemon of the basic stage.
    pub fn is_basic_pokemon(&self) -> (r: bool)
        ensures
            r == self.spec_is_basic_pokemon(),
    {
        match &self.card_type {
            CardType::Pokemon { stage, .. } => *stage == EvolutionStage::Basic,
            _ => false,
        }
    }

    /// Whether the card is a basic energy card.
    pub fn is_basic_energy(&self) -> (r: bool)
        ensures
            r == self.spec_is_basic_energy(),
    {
        match &self.card_type {
            CardType::Energy { is_basic, .. } => *is_basic,
            _ => false,
        }
    }

    /// The hit points of a Pokemon; `None` for any other card.
    pub fn get_hp(&self) -> (r: Option<u32>)
        ensures
            r == match self.card_type {
                CardType::Pokemon { hp, .. } => Some(hp),
                _ => None,
            },
    {
        match &self.card_type {
            CardType::Pokemon { hp, .. } => Some(*hp),
            _ => None,
        }
    }

    /// The energy type of an energy card; `None` for any other card.
    pub fn get_energy_type(&self) -> (r: Option<&EnergyType>)
        ensures
            r == match self.card_type {
                CardType::Energy { energy_type, .. } => Some(&energy_type),
                _ => None,
            },
    {
        match &self.card_type {
            CardType::Energy { energy_type, .. } => Some(energy_type),
            _ => None,
        }
    }

    /// Appends an attack to a Pokemon; leaves any other card as it is.
    pub fn add_attack(&mut self, attack: Attack)
        ensures
            old(self).spec_is_pokemon() ==> final(self).attacks@ == old(self).attacks@.push(
                attack,
            ),
            !old(self).spec_is_pokemon() ==> final(self).attacks == old(self).attacks,
            final(self).id == old(self).id,
            final(self).name == old(self).name,
            final(self).card_type == old(self).card_type,
            final(self).set_name == old(self).set_name,
            final(self).set_number == old(self).set_number,
            final(self).rarity == old(self).rarity,
            final(self).abilities == old(self).abilities,
            final(self).rules == old(self).rules,
            final(self).metadata == old(self).metadata,
    {
        if self.is_pokemon() {
            self.attacks.push(attack);
        }
    }

    /// Appends an ability to a Pokemon; leaves any other card as it is.
    pub fn add_ability(&mut self, ability: Ability)
        ensures
            old(self).spec_is_pokemon() ==> final(self).abilities@ == old(self).abilities@.push(
                ability,
            ),
            !old(self).spec_is_pokemon() ==> final(self).abilities == old(self).abilities,
            final(self).id == old(self).id,
            final(self).name == old(self).name,
            final(self).card_type == old(self).card_type,
            final(self).set_name == old(self).set_name,
            final(self).set_number == old(self).set_number,
            final(self).rarity == old(self).rarity,
            final(self).attacks == old(self).attacks,
            final(self).rules == old(self).rules,
            final(self).metadata == old(self).metadata,
    {
        if self.is_pokemon() {
            self.abilities.push(ability);
        }
    }

    /// Appends a line of rule text.
    pub fn add_rule(&mut self, rule: String)
        ensures
            final(self).rules@ == old(self).rules@.push(rule),
            final(self).id == old(self).id,
            final(self).name == old(self).name,
            final(self).card_type == old(self).card_type,
            final(self).set_name == old(self).set_name,
            final(self).set_number == old(self).set_number,
            final(self).rarity == old(self).rarity,
            final(self).attacks == old(self).attacks,
            final(self).abilities == old(self).abilities,
            final(self).metadata == old(self).metadata,
    {
        self.rules.push(rule);
    }

    /// Sets the metadata entry `key` to `value`.
    pub fn add_metadata(&mut self, key: String, value: String)
        ensures
            final(self).metadata@ == old(self).metadata@.insert(key@, value@),
            final(self).id == old(self).id,
            final(self).name == old(self).name,
            final(self).card_type == old(self).card_type,
            final(self).set_name == old(self).set_name,
            final(self).set_number == old(self).set_number,
            final(self).rarity == old(self).rarity,
            final(self).attacks == old(self).attacks,
            final(self).abilities == old(self).abilities,
            final(self).rules == old(self).rules,
    {
        self.metadata.insert(key, value);
    }

    /// The attacks that the attached energy pays for, each with its index,
    /// in the card's order. A card that is no Pokemon has none.
    pub fn get_usable_attacks(&self, attached_energy: &[EnergyType]) -> (r: Vec<(usize, &Attack)>)
        ensures
            r@ == if self.spec_is_pokemon() {
                self.usable_among(attached_energy@, self.attacks@.len())
            } else {
                Seq::empty()
            },
    {
        let mut usable: Vec<(usize, &Attack)> = Vec::new();
        if !self.is_pokemon() {
            return usable;
        }
        let mut i: usize = 0;
        while i < self.attacks.len()
            invariant
                i <= self.attacks@.len(),
                usable@ == self.usable_among(attached_energy@, i as nat),
            decreases self.attacks@.len() - i,
        {
            let attack = &self.attacks[i];
            if covers(attack.cost.as_slice(), attached_energy) {
                usable.push((i, attack));
            }
            i += 1;
        }
        usable
    }
}

} // verus!
