//! Decks: how many copies of which card, and whether a deck is legal.

use crate::card::{Card, CardType, EnergyType};
use crate::ids::{fresh_id, is_random_uuid, CardId, DeckId};
use crate::random::{random_seed, shuffle_with_seed};
use crate::seqs::{keys_of, lemma_next_key};
use crate::tally::{
    count_in, lemma_entry_le_total, lemma_total_empty, lemma_total_insert, lemma_total_of_all,
    lemma_total_of_le, lemma_total_of_step, lemma_total_remove, total, total_of,
};
use crate::text::{decimal, decimal_string, join_lines, joined, line_views, StringMap};
use std::collections::HashMap;
use vstd::prelude::*;

verus! {

/// The number of copies that a deck may hold of a card other than a basic
/// energy card.
pub const COPY_LIMIT: u32 = 4;

/// The number of cards of a deck of the Standard or the Expanded format.
pub const CONSTRUCTED_DECK_SIZE: u32 = 60;

/// The least number of cards of a deck of the Limited format.
pub const LIMITED_DECK_MINIMUM: u32 = 40;

/// A deck: a name, a format and the number of copies of each card.
#[derive(Clone, Debug, PartialEq, Eq)]
pub struct Deck {
    pub id: DeckId,
    pub name: String,
    /// The number of copies of each card of the deck.
    pub cards: HashMap<CardId, u32>,
    /// The format that the deck is built for.
    pub format: String,
    pub metadata: StringMap,
}

/// Why a deck is not legal.
#[derive(Clone, Copy, Debug, PartialEq, Eq, Structural)]
pub enum DeckValidationError {
    /// The deck holds fewer cards than its format asks for.
    TooFewCards { minimum: u32, actual: u32 },
    /// The deck holds more copies of a card than are allowed.
    TooManyCopies { card_id: CardId, maximum: u32, actual: u32 },
    /// The deck holds more cards than its format allows.
    TooManyCards { maximum: u32, actual: u32 },
    /// The deck holds no basic Pokemon.
    NoBasicPokemon,
}

/// The number of energy cards of each energy type.
#[derive(Clone, Copy, Debug, PartialEq, Eq, Structural)]
pub struct EnergyDistribution {
    pub grass: u32,
    pub fire: u32,
    pub water: u32,
    pub lightning: u32,
    pub psychic: u32,
    pub fighting: u32,
    pub darkness: u32,
    pub metal: u32,
    pub fairy: u32,
    pub dragon: u32,
    pub colorless: u32,
}

/// Counts over the cards of a deck that a card database knows.
#[derive(Clone, Copy, Debug, PartialEq, Eq, Structural)]
pub struct DeckStatistics {
    pub total_cards: u32,
    /// The number of different cards.
    pub unique_cards: usize,
    pub pokemon_count: u32,
    pub energy_count: u32,
    pub trainer_count: u32,
    pub basic_pokemon_count: u32,
    pub energy_distribution: EnergyDistribution,
}

/// What a format asks of the size of a deck.
pub enum SizeRule {
    /// The deck holds exactly this many cards.
    Exactly(u32),
    /// The deck holds at least this many cards.
    AtLeast(u32),
    /// The format has no rule on the size.
    Free,
}

/// The size rule of a format, by the format's name.
pub open spec fn size_rule(format: Seq<char>) -> SizeRule {
    if format == "Standard"@ || format == "Expanded"@ {
        SizeRule::Exactly(CONSTRUCTED_DECK_SIZE)
    } else if format == "Limited"@ {
        SizeRule::AtLeast(LIMITED_DECK_MINIMUM)
    } else {
        SizeRule::Free
    }
}

/// The errors that a deck of `count` cards draws under a size rule.
pub open spec fn size_errors(rule: SizeRule, count: u32) -> Seq<DeckValidationError> {
    match rule {
        SizeRule::Exactly(n) => if count < n {
            seq![DeckValidationError::TooFewCards { minimum: n, actual: count }]
        } else if count > n {
            seq![DeckValidationError::TooManyCards { maximum: n, actual: count }]
        } else {
            Seq::empty()
        },
        SizeRule::AtLeast(n) => if count < n {
            seq![DeckValidationError::TooFewCards { minimum: n, actual: count }]
        } else {
            Seq::empty()
        },
        SizeRule::Free => Seq::empty(),
    }
}

/// The cards that a database knows as Pokemon.
pub open spec fn pokemon_ids(db: Map<CardId, Card>) -> Set<CardId> {
    Set::new(|id: CardId| db.contains_key(id) && db[id].spec_is_pokemon())
}

/// The cards that a database knows as energy cards.
pub open spec fn energy_ids(db: Map<CardId, Card>) -> Set<CardId> {
    Set::new(|id: CardId| db.contains_key(id) && db[id].spec_is_energy())
}

/// The cards that a database knows as energy cards of a type.
pub open spec fn energy_of_type(db: Map<CardId, Card>, energy_type: EnergyType) -> Set<CardId> {
    Set::new(
        |id: CardId|
            db.contains_key(id) && (db[id].card_type matches CardType::Energy {
                energy_type: t,
                ..
            } && t == energy_type),
    )
}

/// The number of energy cards of each type in a table of card counts.
pub open spec fn distribution_of(cards: Map<CardId, u32>, db: Map<CardId, Card>)
    -> EnergyDistribution {
    EnergyDistribution {
        grass: total_of(cards, energy_of_type(db, EnergyType::Grass)) as u32,
        fire: total_of(cards, energy_of_type(db, EnergyType::Fire)) as u32,
        water: total_of(cards, energy_of_type(db, EnergyType::Water)) as u32,
        lightning: total_of(cards, energy_of_type(db, EnergyType::Lightning)) as u32,
        psychic: total_of(cards, energy_of_type(db, EnergyType::Psychic)) as u32,
        fighting: total_of(cards, energy_of_type(db, EnergyType::Fighting)) as u32,
        darkness: total_of(cards, energy_of_type(db, EnergyType::Darkness)) as u32,
        metal: total_of(cards, energy_of_type(db, EnergyType::Metal)) as u32,
        fairy: total_of(cards, energy_of_type(db, EnergyType::Fairy)) as u32,
        dragon: total_of(cards, energy_of_type(db, EnergyType::Dragon)) as u32,
        colorless: total_of(cards, energy_of_type(db, EnergyType::Colorless)) as u32,
    }
}

/// The cards that a database knows as trainer cards.
pub open spec fn trainer_ids(db: Map<CardId, Card>) -> Set<CardId> {
    Set::new(|id: CardId| db.contains_key(id) && db[id].spec_is_trainer())
}

/// The cards that a database knows as basic Pokemon.
pub open spec fn basic_ids(db: Map<CardId, Card>) -> Set<CardId> {
    Set::new(|id: CardId| db.contains_key(id) && db[id].spec_is_basic_pokemon())
}

/// Whether a deck holds more copies of `id` than are allowed: more than
/// four of a card that the database knows and that is no basic energy card.
pub open spec fn over_limit(cards: Map<CardId, u32>, db: Map<CardId, Card>, id: CardId) -> bool {
    cards.contains_key(id) && db.contains_key(id) && !db[id].spec_is_basic_energy() && cards[id]
        > COPY_LIMIT
}

/// The errors for the cards of `offenders`, in their order.
pub open spec fn copy_errors(cards: Map<CardId, u32>, offenders: Seq<CardId>) -> Seq<
    DeckValidationError,
> {
    Seq::new(
        offenders.len(),
        |i: int|
            DeckValidationError::TooManyCopies {
                card_id: offenders[i],
                maximum: COPY_LIMIT,
                actual: cards[offenders[i]],
            },
    )
}

/// The line of a card in the text of a deck: the number of its copies,
/// then its name.
pub open spec fn card_line(quantity: u32, name: Seq<char>) -> Seq<char> {
    decimal(quantity as nat) + " "@ + name
}

/// The lines of the cards of `ids`, in their order.
pub open spec fn card_lines(cards: Map<CardId, u32>, db: Map<CardId, Card>, ids: Seq<CardId>)
    -> Seq<Seq<char>> {
    Seq::new(ids.len(), |i: int| card_line(cards[ids[i]], db[ids[i]].name@))
}

/// A part of the text of a deck: a heading and the lines under it, or
/// nothing if there are no lines. A blank line follows if `closed`.
pub open spec fn text_section(heading: Seq<char>, lines: Seq<Seq<char>>, closed: bool) -> Seq<
    Seq<char>,
> {
    if lines.len() == 0 {
        Seq::empty()
    } else if closed {
        seq![heading] + lines + seq![Seq::<char>::empty()]
    } else {
        seq![heading] + lines
    }
}

/// The lines of the text of a deck: its name and format, a blank line,
/// then its Pokemon, its trainers and its energy, each kind under its
/// heading.
pub open spec fn deck_lines(
    name: Seq<char>,
    format: Seq<char>,
    pokemon: Seq<Seq<char>>,
    trainers: Seq<Seq<char>>,
    energy: Seq<Seq<char>>,
) -> Seq<Seq<char>> {
    seq!["Deck: "@ + name, "Format: "@ + format, Seq::<char>::empty()] + text_section(
        "Pokemon:"@,
        pokemon,
        true,
    ) + text_section("Trainers:"@, trainers, true) + text_section("Energy:"@, energy, false)
}

/// Whether `ids` lists the cards of a deck that are in `kind`, each once.
pub open spec fn lists_kind(cards: Map<CardId, u32>, kind: Set<CardId>, ids: Seq<CardId>) -> bool {
    ids.no_duplicates() && forall|id: CardId|
        ids.contains(id) <==> cards.contains_key(id) && kind.contains(id)
}

/// The statistics of a table of card counts against a database.
pub open spec fn statistics_of(cards: Map<CardId, u32>, db: Map<CardId, Card>) -> DeckStatistics {
    DeckStatistics {
        total_cards: total_of(cards, db.dom()) as u32,
        unique_cards: cards.dom().intersect(db.dom()).len() as usize,
        pokemon_count: total_of(cards, pokemon_ids(db)) as u32,
        energy_count: total_of(cards, energy_ids(db)) as u32,
        trainer_count: total_of(cards, trainer_ids(db)) as u32,
        basic_pokemon_count: total_of(cards, basic_ids(db)) as u32,
        energy_distribution: distribution_of(cards, db),
    }
}

impl EnergyDistribution {
    /// The number of energy cards of a type.
    pub open spec fn of(self, energy_type: EnergyType) -> u32 {
        match energy_type {
            EnergyType::Grass => self.grass,
            EnergyType::Fire => self.fire,
            EnergyType::Water => self.water,
            EnergyType::Lightning => self.lightning,
            EnergyType::Psychic => self.psychic,
            EnergyType::Fighting => self.fighting,
            EnergyType::Darkness => self.darkness,
            EnergyType::Metal => self.metal,
            EnergyType::Fairy => self.fairy,
            EnergyType::Dragon => self.dragon,
            EnergyType::Colorless => self.colorless,
        }
    }

    /// No energy card of any type.
    pub fn new() -> (r: Self)
        ensures
            forall|t: EnergyType| r.of(t) == 0,
    {
        EnergyDistribution {
            grass: 0,
            fire: 0,
            water: 0,
            lightning: 0,
            psychic: 0,
            fighting: 0,
            darkness: 0,
            metal: 0,
            fairy: 0,
            dragon: 0,
            colorless: 0,
        }
    }

    /// The number of energy cards of a type.
    pub fn get(&self, energy_type: EnergyType) -> (r: u32)
        ensures
            r == self.of(energy_type),
    {
        match energy_type {
            EnergyType::Grass => self.grass,
            EnergyType::Fire => self.fire,
            EnergyType::Water => self.water,
            EnergyType::Lightning => self.lightning,
            EnergyType::Psychic => self.psychic,
            EnergyType::Fighting => self.fighting,
            EnergyType::Darkness => self.darkness,
            EnergyType::Metal => self.metal,
            EnergyType::Fairy => self.fairy,
            EnergyType::Dragon => self.dragon,
            EnergyType::Colorless => self.colorless,
        }
    }

    /// Counts `count` more energy cards of a type. The number has to fit
    /// the counter.
    pub fn add(&mut self, energy_type: EnergyType, count: u32)
        requires
            old(self).of(energy_type) + count <= u32::MAX,
        ensures
            forall|t: EnergyType|
                #![trigger final(self).of(t)]
                final(self).of(t) == if t == energy_type {
                    (old(self).of(t) + count) as u32
                } else {
                    old(self).of(t)
                },
    {
        match energy_type {
            EnergyType::Grass => {
                self.grass = self.grass + count;
            },
            EnergyType::Fire => {
                self.fire = self.fire + count;
            },
            EnergyType::Water => {
                self.water = self.water + count;
            },
            EnergyType::Lightning => {
                self.lightning = self.lightning + count;
            },
            EnergyType::Psychic => {
                self.psychic = self.psychic + count;
            },
            EnergyType::Fighting => {
                self.fighting = self.fighting + count;
            },
            EnergyType::Darkness => {
                self.darkness = self.darkness + count;
            },
            EnergyType::Metal => {
                self.metal = self.metal + count;
            },
            EnergyType::Fairy => {
                self.fairy = self.fairy + count;
            },
            EnergyType::Dragon => {
                self.dragon = self.dragon + count;
            },
            EnergyType::Colorless => {
                self.colorless = self.colorless + count;
            },
        }
    }
}

impl Default for DeckStatistics {
    fn default() -> (r: Self)
        ensures
            r.total_cards == 0,
            r.unique_cards == 0,
            r.pokemon_count == 0,
            r.energy_count == 0,
            r.trainer_count == 0,
            r.basic_pokemon_count == 0,
            forall|t: EnergyType| r.energy_distribution.of(t) == 0,
    {
        DeckStatistics {
            total_cards: 0,
            unique_cards: 0,
            pokemon_count: 0,
            energy_count: 0,
            trainer_count: 0,
            basic_pokemon_count: 0,
            energy_distribution: EnergyDistribution::new(),
        }
    }
}

impl Deck {
    /// The number of cards of the deck.
    pub open spec fn spec_total(&self) -> nat {
        total(self.cards@)
    }

    /// The number of copies of a card in the deck.
    pub open spec fn spec_quantity(&self, card_id: CardId) -> u32 {
        count_in(self.cards@, card_id)
    }

    /// The number of cards fits the type of the count.
    pub open spec fn fits(&self) -> bool {
        self.spec_total() <= u32::MAX
    }

    /// Whether the deck is legal: its size is what its format asks for, it
    /// holds no more than four copies of any card but basic energy, and it
    /// holds a basic Pokemon.
    pub open spec fn is_legal(&self, db: Map<CardId, Card>) -> bool {
        &&& size_errors(size_rule(self.format@), self.spec_total() as u32).len() == 0
        &&& forall|id: CardId| !over_limit(self.cards@, db, id)
        &&& total_of(self.cards@, basic_ids(db)) > 0
    }

    /// An empty deck with a fresh identifier.
    pub fn new(name: String, format: String) -> (r: Self)
        ensures
            is_random_uuid(r.id),
            r.name == name,
            r.format == format,
            r.cards@ == Map::<CardId, u32>::empty(),
            r.metadata == StringMap::Empty,
            r.spec_total() == 0,
    {
        let r = Deck {
            id: fresh_id(),
            name,
            cards: HashMap::new(),
            format,
            metadata: StringMap::new(),
        };
        proof {
            lemma_total_empty(r.cards@);
        }
        r
    }

    /// Adds `quantity` copies of a card. The number of cards has to fit the
    /// type of the count afterwards too.
    pub fn add_card(&mut self, card_id: CardId, quantity: u32)
        requires
            old(self).spec_total() + quantity <= u32::MAX,
        ensures
            final(self).cards@ == if quantity > 0 {
                old(self).cards@.insert(
                    card_id,
                    (old(self).spec_quantity(card_id) + quantity) as u32,
                )
            } else {
                old(self).cards@
            },
            final(self).spec_total() == old(self).spec_total() + quantity,
            final(self).id == old(self).id,
            final(self).name == old(self).name,
            final(self).format == old(self).format,
            final(self).metadata == old(self).metadata,
    {
        broadcast use vstd::std_specs::hash::group_hash_axioms;

        if quantity > 0 {
            let current = self.get_card_quantity(card_id);
            proof {
                lemma_total_insert(self.cards@, card_id, (current + quantity) as u32);
            }
            self.cards.insert(card_id, current + quantity);
        }
    }

    /// Takes `count` copies of a card out of the deck; `false`, and nothing
    /// changes, if the deck holds fewer. A card with no copy left has no
    /// entry.
    pub fn remove_card(&mut self, card_id: CardId, count: u32) -> (r: bool)
        ensures
            r == (old(self).cards@.contains_key(card_id) && old(self).cards@[card_id] >= count),
            final(self).cards@ == if !r {
                old(self).cards@
            } else if old(self).cards@[card_id] == count {
                old(self).cards@.remove(card_id)
            } else {
                old(self).cards@.insert(card_id, (old(self).cards@[card_id] - count) as u32)
            },
            r ==> final(self).spec_total() == old(self).spec_total() - count,
            final(self).id == old(self).id,
            final(self).name == old(self).name,
            final(self).format == old(self).format,
            final(self).metadata == old(self).metadata,
    {
        broadcast use vstd::std_specs::hash::group_hash_axioms;

        let current = match self.cards.get(&card_id) {
            Some(q) => *q,
            None => {
                return false;
            },
        };
        if current < count {
            return false;
        }
        proof {
            lemma_total_insert(self.cards@, card_id, (current - count) as u32);
        }
        if current == count {
            self.cards.remove(&card_id);
        } else {
            self.cards.insert(card_id, current - count);
        }
        true
    }

    /// Takes up to `quantity` copies of a card out of the deck: all of
    /// them if the deck holds no more.
    pub fn remove_up_to(&mut self, card_id: CardId, quantity: u32)
        ensures
            final(self).cards@ == if !old(self).cards@.contains_key(card_id) {
                old(self).cards@
            } else if old(self).cards@[card_id] <= quantity {
                old(self).cards@.remove(card_id)
            } else {
                old(self).cards@.insert(card_id, (old(self).cards@[card_id] - quantity) as u32)
            },
            final(self).spec_total() <= old(self).spec_total(),
            final(self).id == old(self).id,
            final(self).name == old(self).name,
            final(self).format == old(self).format,
            final(self).metadata == old(self).metadata,
    {
        broadcast use vstd::std_specs::hash::group_hash_axioms;

        match self.cards.get(&card_id) {
            Some(q) => {
                let current = *q;
                if current <= quantity {
                    proof {
                        lemma_total_remove(self.cards@, card_id);
                    }
                    self.cards.remove(&card_id);
                } else {
                    proof {
                        lemma_total_insert(self.cards@, card_id, (current - quantity) as u32);
                    }
                    self.cards.insert(card_id, current - quantity);
                }
            },
            None => {},
        }
    }

    /// Sets the number of copies of a card; a card with no copy has no
    /// entry. The number of cards has to fit the type of the count
    /// afterwards too.
    pub fn set_card_quantity(&mut self, card_id: CardId, quantity: u32)
        requires
            old(self).spec_total() - old(self).spec_quantity(card_id) + quantity <= u32::MAX,
        ensures
            final(self).cards@ == if quantity == 0 {
                old(self).cards@.remove(card_id)
            } else {
                old(self).cards@.insert(card_id, quantity)
            },
            final(self).spec_total() == old(self).spec_total() - old(self).spec_quantity(card_id)
                + quantity,
            final(self).id == old(self).id,
            final(self).name == old(self).name,
            final(self).format == old(self).format,
            final(self).metadata == old(self).metadata,
    {
        broadcast use vstd::std_specs::hash::group_hash_axioms;

        proof {
            lemma_total_insert(self.cards@, card_id, quantity);
        }
        if quantity == 0 {
            self.cards.remove(&card_id);
        } else {
            self.cards.insert(card_id, quantity);
        }
    }

    /// The number of copies of a card in the deck.
    pub fn get_card_quantity(&self, card_id: CardId) -> (r: u32)
        ensures
            r == self.spec_quantity(card_id),
    {
        broadcast use vstd::std_specs::hash::group_hash_axioms;

        match self.cards.get(&card_id) {
            Some(q) => *q,
            None => 0,
        }
    }

    /// The number of copies of a card in the deck.
    pub fn get_card_count(&self, card_id: CardId) -> (r: u32)
        ensures
            r == self.spec_quantity(card_id),
    {
        self.get_card_quantity(card_id)
    }

    /// The number of cards of the deck, which has to fit the type of the
    /// count.
    pub fn total_cards(&self) -> (r: u32)
        requires
            self.fits(),
        ensures
            r == self.spec_total(),
    {
        broadcast use vstd::std_specs::hash::group_hash_axioms;

        let ids = keys_of(&self.cards);
        let mut sum: u32 = 0;
        let mut i: usize = 0;
        let ghost all = Set::<CardId>::full();
        proof {
            assert(ids@.take(0) =~= Seq::empty());
            assert(ids@.take(0).to_set() =~= Set::empty());
            lemma_total_empty(self.cards@.restrict(Set::<CardId>::empty().intersect(all)));
        }
        while i < ids.len()
            invariant
                i <= ids@.len(),
                ids@.no_duplicates(),
                ids@.to_set() == self.cards@.dom(),
                self.fits(),
                all == Set::<CardId>::full(),
                sum == total_of(self.cards@, ids@.take(i as int).to_set().intersect(all)),
            decreases ids@.len() - i,
        {
            let id = ids[i];
            proof {
                lemma_next_key(ids@, i as int);
                assert(ids@.to_set().contains(id));
                lemma_total_of_step(self.cards@, ids@.take(i as int).to_set(), all, id);
                lemma_total_of_le(
                    self.cards@,
                    ids@.take(i as int + 1).to_set().intersect(all),
                );
            }
            let q = self.get_card_quantity(id);
            sum = sum + q;
            i += 1;
        }
        proof {
            assert(ids@.take(ids@.len() as int) =~= ids@);
            lemma_total_of_all(self.cards@, ids@.to_set().intersect(all));
        }
        sum
    }

    /// The different cards of the deck, each once.
    pub fn unique_cards(&self) -> (r: Vec<CardId>)
        ensures
            r@.no_duplicates(),
            r@.to_set() == self.cards@.dom(),
    {
        keys_of(&self.cards)
    }

    /// Whether the deck holds a card.
    pub fn contains_card(&self, card_id: CardId) -> (r: bool)
        ensures
            r == self.cards@.contains_key(card_id),
    {
        broadcast use vstd::std_specs::hash::group_hash_axioms;

        self.cards.contains_key(&card_id)
    }

    /// Sets the metadata entry `key` to `value`.
    pub fn add_metadata(&mut self, key: String, value: String)
        ensures
            final(self).metadata@ == old(self).metadata@.insert(key@, value@),
            final(self).id == old(self).id,
            final(self).name == old(self).name,
            final(self).format == old(self).format,
            final(self).cards == old(self).cards,
    {
        self.metadata.insert(key, value);
    }

    /// The counts of the deck's cards that the database knows, by kind.
    pub fn get_statistics(&self, card_database: &HashMap<CardId, Card>) -> (r: DeckStatistics)
        requires
            self.fits(),
        ensures
            r == statistics_of(self.cards@, card_database@),
    {
        broadcast use vstd::std_specs::hash::group_hash_axioms;

        let ids = keys_of(&self.cards);
        let mut stats = DeckStatistics::default();
        let mut i: usize = 0;
        let ghost db = card_database@;
        let ghost m = self.cards@;
        proof {
            assert(ids@.take(0) =~= Seq::empty());
            let none = Set::<CardId>::empty();
            assert(ids@.take(0).to_set() =~= none);
            lemma_total_empty(m.restrict(none.intersect(db.dom())));
            lemma_total_empty(m.restrict(none.intersect(pokemon_ids(db))));
            lemma_total_empty(m.restrict(none.intersect(energy_ids(db))));
            lemma_total_empty(m.restrict(none.intersect(trainer_ids(db))));
            lemma_total_empty(m.restrict(none.intersect(basic_ids(db))));
            assert(none.intersect(db.dom()) =~= none);
            assert forall|t: EnergyType| total_of(m, none.intersect(energy_of_type(db, t)))
                == 0 by {
                lemma_total_empty(m.restrict(none.intersect(energy_of_type(db, t))));
            }
        }
        while i < ids.len()
            invariant
                i <= ids@.len(),
                ids@.no_duplicates(),
                ids@.to_set() == m.dom(),
                m == self.cards@,
                db == card_database@,
                self.fits(),
                stats.unique_cards <= i,
                ids@.take(i as int).to_set().intersect(db.dom()).finite(),
                stats.unique_cards == ids@.take(i as int).to_set().intersect(db.dom()).len(),
                stats.total_cards == total_of(m, ids@.take(i as int).to_set().intersect(db.dom())),
                stats.pokemon_count == total_of(
                    m,
                    ids@.take(i as int).to_set().intersect(pokemon_ids(db)),
                ),
                stats.energy_count == total_of(
                    m,
                    ids@.take(i as int).to_set().intersect(energy_ids(db)),
                ),
                stats.trainer_count == total_of(
                    m,
                    ids@.take(i as int).to_set().intersect(trainer_ids(db)),
                ),
                stats.basic_pokemon_count == total_of(
                    m,
                    ids@.take(i as int).to_set().intersect(basic_ids(db)),
                ),
                forall|t: EnergyType|
                    #![trigger stats.energy_distribution.of(t)]
                    stats.energy_distribution.of(t) == total_of(
                        m,
                        ids@.take(i as int).to_set().intersect(energy_of_type(db, t)),
                    ),
            decreases ids@.len() - i,
        {
            let id = ids[i];
            let ghost seen = ids@.take(i as int).to_set();
            let ghost next = ids@.take(i as int + 1).to_set();
            proof {
                lemma_next_key(ids@, i as int);
                assert(ids@.to_set().contains(id));
                lemma_total_of_step(m, seen, db.dom(), id);
                lemma_total_of_step(m, seen, pokemon_ids(db), id);
                lemma_total_of_step(m, seen, energy_ids(db), id);
                lemma_total_of_step(m, seen, trainer_ids(db), id);
                lemma_total_of_step(m, seen, basic_ids(db), id);
                lemma_total_of_le(m, next.intersect(db.dom()));
                lemma_total_of_le(m, next.intersect(pokemon_ids(db)));
                lemma_total_of_le(m, next.intersect(energy_ids(db)));
                lemma_total_of_le(m, next.intersect(trainer_ids(db)));
                lemma_total_of_le(m, next.intersect(basic_ids(db)));
                assert forall|t: EnergyType|
                    total_of(m, next.intersect(energy_of_type(db, t))) == total_of(
                        m,
                        seen.intersect(energy_of_type(db, t)),
                    ) + (if energy_of_type(db, t).contains(id) {
                        m[id] as nat
                    } else {
                        0
                    }) && total_of(m, next.intersect(energy_of_type(db, t))) <= total(m) by {
                    lemma_total_of_step(m, seen, energy_of_type(db, t), id);
                    lemma_total_of_le(m, next.intersect(energy_of_type(db, t)));
                }
                if db.contains_key(id) {
                    assert(next.intersect(db.dom()) =~= seen.intersect(db.dom()).insert(id));
                } else {
                    assert(next.intersect(db.dom()) =~= seen.intersect(db.dom()));
                }
            }
            let count = self.get_card_quantity(id);
            match card_database.get(&id) {
                Some(card) => {
                    stats.total_cards = stats.total_cards + count;
                    stats.unique_cards = stats.unique_cards + 1;
                    if card.is_pokemon() {
                        stats.pokemon_count = stats.pokemon_count + count;
                        if card.is_basic_pokemon() {
                            stats.basic_pokemon_count = stats.basic_pokemon_count + count;
                        }
                    } else if card.is_energy() {
                        stats.energy_count = stats.energy_count + count;
                        match card.get_energy_type() {
                            Some(energy_type) => {
                                proof {
                                    assert(energy_of_type(db, *energy_type).contains(id));
                                    assert(stats.energy_distribution.of(*energy_type) == total_of(
                                        m,
                                        seen.intersect(energy_of_type(db, *energy_type)),
                                    ));
                                }
                                stats.energy_distribution.add(*energy_type, count);
                            },
                            None => {},
                        }
                    } else {
                        stats.trainer_count = stats.trainer_count + count;
                    }
                },
                None => {},
            }
            i += 1;
        }
        proof {
            assert(ids@.take(ids@.len() as int) =~= ids@);
            assert(m.restrict(m.dom().intersect(db.dom())) =~= m.restrict(db.dom()));
            assert(m.restrict(m.dom().intersect(pokemon_ids(db))) =~= m.restrict(pokemon_ids(db)));
            assert(m.restrict(m.dom().intersect(energy_ids(db))) =~= m.restrict(energy_ids(db)));
            assert(m.restrict(m.dom().intersect(trainer_ids(db))) =~= m.restrict(trainer_ids(db)));
            assert(m.restrict(m.dom().intersect(basic_ids(db))) =~= m.restrict(basic_ids(db)));
            assert(m.restrict(m.dom().intersect(energy_of_type(db, EnergyType::Grass))) =~= m.restrict(
                energy_of_type(db, EnergyType::Grass),
            ));
            assert(stats.energy_distribution.grass == stats.energy_distribution.of(EnergyType::Grass));
            assert(m.restrict(m.dom().intersect(energy_of_type(db, EnergyType::Fire))) =~= m.restrict(
                energy_of_type(db, EnergyType::Fire),
            ));
            assert(stats.energy_distribution.fire == stats.energy_distribution.of(EnergyType::Fire));
            assert(m.restrict(m.dom().intersect(energy_of_type(db, EnergyType::Water))) =~= m.restrict(
                energy_of_type(db, EnergyType::Water),
            ));
            assert(stats.energy_distribution.water == stats.energy_distribution.of(EnergyType::Water));
            assert(m.restrict(m.dom().intersect(energy_of_type(db, EnergyType::Lightning))) =~= m.restrict(
                energy_of_type(db, EnergyType::Lightning),
            ));
            assert(stats.energy_distribution.lightning == stats.energy_distribution.of(EnergyType::Lightning));
            assert(m.restrict(m.dom().intersect(energy_of_type(db, EnergyType::Psychic))) =~= m.restrict(
                energy_of_type(db, EnergyType::Psychic),
            ));
            assert(stats.energy_distribution.psychic == stats.energy_distribution.of(EnergyType::Psychic));
            assert(m.restrict(m.dom().intersect(energy_of_type(db, EnergyType::Fighting))) =~= m.restrict(
                energy_of_type(db, EnergyType::Fighting),
            ));
            assert(stats.energy_distribution.fighting == stats.energy_distribution.of(EnergyType::Fighting));
            assert(m.restrict(m.dom().intersect(energy_of_type(db, EnergyType::Darkness))) =~= m.restrict(
                energy_of_type(db, EnergyType::Darkness),
            ));
            assert(stats.energy_distribution.darkness == stats.energy_distribution.of(EnergyType::Darkness));
            assert(m.restrict(m.dom().intersect(energy_of_type(db, EnergyType::Metal))) =~= m.restrict(
                energy_of_type(db, EnergyType::Metal),
            ));
            assert(stats.energy_distribution.metal == stats.energy_distribution.of(EnergyType::Metal));
            assert(m.restrict(m.dom().intersect(energy_of_type(db, EnergyType::Fairy))) =~= m.restrict(
                energy_of_type(db, EnergyType::Fairy),
            ));
            assert(stats.energy_distribution.fairy == stats.energy_distribution.of(EnergyType::Fairy));
            assert(m.restrict(m.dom().intersect(energy_of_type(db, EnergyType::Dragon))) =~= m.restrict(
                energy_of_type(db, EnergyType::Dragon),
            ));
            assert(stats.energy_distribution.dragon == stats.energy_distribution.of(EnergyType::Dragon));
            assert(m.restrict(m.dom().intersect(energy_of_type(db, EnergyType::Colorless))) =~= m.restrict(
                energy_of_type(db, EnergyType::Colorless),
            ));
            assert(stats.energy_distribution.colorless == stats.energy_distribution.of(EnergyType::Colorless));
        }
        stats
    }

    /// Checks the deck against the rules of deck building. The errors come
    /// in this order: the size, then one for each card with too many
    /// copies, in the order in which the table of cards hands them out,
    /// then the missing basic Pokemon.
    pub fn validate(&self, card_database: &HashMap<CardId, Card>) -> (r: Result<
        (),
        Vec<DeckValidationError>,
    >)
        requires
            self.fits(),
        ensures
            r is Ok <==> self.is_legal(card_database@),
            r matches Err(errors) ==> exists|offenders: Seq<CardId>|
                {
                    &&& offenders.no_duplicates()
                    &&& forall|id: CardId|
                        offenders.contains(id) <==> over_limit(self.cards@, card_database@, id)
                    &&& errors@ == size_errors(
                        size_rule(self.format@),
                        self.spec_total() as u32,
                    ) + #[trigger] copy_errors(self.cards@, offenders) + if total_of(
                        self.cards@,
                        basic_ids(card_database@),
                    ) == 0 {
                        seq![DeckValidationError::NoBasicPokemon]
                    } else {
                        Seq::empty()
                    }
                },
    {
        broadcast use vstd::std_specs::hash::group_hash_axioms;

        let mut errors: Vec<DeckValidationError> = Vec::new();
        let count = self.total_cards();
        let standard = String::from_str("Standard");
        let expanded = String::from_str("Expanded");
        let limited = String::from_str("Limited");
        if self.format == standard || self.format == expanded {
            if count < CONSTRUCTED_DECK_SIZE {
                errors.push(
                    DeckValidationError::TooFewCards {
                        minimum: CONSTRUCTED_DECK_SIZE,
                        actual: count,
                    },
                );
            } else if count > CONSTRUCTED_DECK_SIZE {
                errors.push(
                    DeckValidationError::TooManyCards {
                        maximum: CONSTRUCTED_DECK_SIZE,
                        actual: count,
                    },
                );
            }
        } else if self.format == limited {
            if count < LIMITED_DECK_MINIMUM {
                errors.push(
                    DeckValidationError::TooFewCards {
                        minimum: LIMITED_DECK_MINIMUM,
                        actual: count,
                    },
                );
            }
        }
        let ghost by_size = size_errors(size_rule(self.format@), count);
        let ghost m = self.cards@;
        let ghost db = card_database@;
        proof {
            assert(errors@ =~= by_size);
        }
        let ids = keys_of(&self.cards);
        let ghost mut offenders: Seq<CardId> = Seq::empty();
        let mut i: usize = 0;
        proof {
            assert(errors@ =~= by_size + copy_errors(m, offenders));
        }
        while i < ids.len()
            invariant
                i <= ids@.len(),
                ids@.no_duplicates(),
                ids@.to_set() == m.dom(),
                m == self.cards@,
                db == card_database@,
                offenders.no_duplicates(),
                forall|id: CardId|
                    offenders.contains(id) <==> ids@.take(i as int).contains(id) && over_limit(
                        m,
                        db,
                        id,
                    ),
                errors@ == by_size + copy_errors(m, offenders),
            decreases ids@.len() - i,
        {
            let id = ids[i];
            let copies = self.get_card_quantity(id);
            let ghost before = offenders;
            proof {
                lemma_next_key(ids@, i as int);
                assert(ids@.to_set().contains(id));
            }
            match card_database.get(&id) {
                Some(card) => {
                    if !card.is_basic_energy() && copies > COPY_LIMIT {
                        errors.push(
                            DeckValidationError::TooManyCopies {
                                card_id: id,
                                maximum: COPY_LIMIT,
                                actual: copies,
                            },
                        );
                        proof {
                            offenders = before.push(id);
                            assert(errors@ =~= by_size + copy_errors(m, offenders));
                            assert(!before.contains(id));
                            assert forall|a: int, b: int|
                                0 <= a < offenders.len() && 0 <= b < offenders.len() && a
                                    != b implies offenders[a] != offenders[b] by {
                                if a < before.len() {
                                    assert(before.contains(before[a]));
                                }
                                if b < before.len() {
                                    assert(before.contains(before[b]));
                                }
                            }
                        }
                    }
                },
                None => {},
            }
            proof {
                let done = ids@.take(i as int);
                let next = ids@.take(i as int + 1);
                assert forall|x: CardId| offenders.contains(x) <==> next.contains(x) && over_limit(
                    m,
                    db,
                    x,
                ) by {
                    if offenders.contains(x) {
                        let j = choose|j: int| 0 <= j < offenders.len() && offenders[j] == x;
                        if j < before.len() {
                            assert(before[j] == x);
                            assert(before.contains(x));
                        }
                    }
                    if next.contains(x) && over_limit(m, db, x) {
                        if x == id {
                            assert(offenders[offenders.len() - 1] == x);
                        } else {
                            assert(done.contains(x));
                            assert(before.contains(x));
                            let j = choose|j: int| 0 <= j < before.len() && before[j] == x;
                            assert(offenders[j] == x);
                        }
                    }
                }
            }
            i += 1;
        }
        proof {
            assert(ids@.take(ids@.len() as int) =~= ids@);
            assert forall|id: CardId| offenders.contains(id) <==> over_limit(m, db, id) by {
                if over_limit(m, db, id) {
                    assert(ids@.to_set().contains(id));
                }
            }
        }
        let stats = self.get_statistics(card_database);
        proof {
            lemma_total_of_le(m, basic_ids(db));
        }
        if stats.basic_pokemon_count == 0 {
            errors.push(DeckValidationError::NoBasicPokemon);
        }
        proof {
            let by_basic = if total_of(m, basic_ids(db)) == 0 {
                seq![DeckValidationError::NoBasicPokemon]
            } else {
                Seq::empty()
            };
            assert(errors@ =~= by_size + copy_errors(m, offenders) + by_basic);
            assert(errors@.len() == by_size.len() + offenders.len() + by_basic.len());
            if offenders.len() > 0 {
                assert(offenders.contains(offenders[0]));
                assert(over_limit(m, db, offenders[0]));
            } else {
                assert forall|id: CardId| !over_limit(m, db, id) by {
                    if over_limit(m, db, id) {
                        assert(offenders.contains(id));
                    }
                }
            }
        }
        if errors.len() == 0 {
            Ok(())
        } else {
            Err(errors)
        }
    }

    /// The deck as text: its name and format, then its cards by kind, each
    /// with the number of its copies. Cards that the database does not
    /// know are left out. The cards of a kind come in the order in which
    /// the table of cards hands them out.
    pub fn export_text(&self, card_database: &HashMap<CardId, Card>) -> (r: String)
        ensures
            exists|pokemon: Seq<CardId>, trainers: Seq<CardId>, energy: Seq<CardId>|
                {
                    &&& lists_kind(self.cards@, pokemon_ids(card_database@), pokemon)
                    &&& lists_kind(self.cards@, trainer_ids(card_database@), trainers)
                    &&& lists_kind(self.cards@, energy_ids(card_database@), energy)
                    &&& r@ == joined(
                        #[trigger] deck_lines(
                            self.name@,
                            self.format@,
                            card_lines(self.cards@, card_database@, pokemon),
                            card_lines(self.cards@, card_database@, trainers),
                            card_lines(self.cards@, card_database@, energy),
                        ),
                    )
                },
    {
        broadcast use vstd::std_specs::hash::group_hash_axioms;

        let ghost m = self.cards@;
        let ghost db = card_database@;
        let mut pokemon: Vec<String> = Vec::new();
        let mut trainers: Vec<String> = Vec::new();
        let mut energy: Vec<String> = Vec::new();
        let ghost mut pokemon_ids_seen: Seq<CardId> = Seq::empty();
        let ghost mut trainer_ids_seen: Seq<CardId> = Seq::empty();
        let ghost mut energy_ids_seen: Seq<CardId> = Seq::empty();
        let ids = keys_of(&self.cards);
        let mut i: usize = 0;
        proof {
            assert(line_views(pokemon@) =~= card_lines(m, db, pokemon_ids_seen));
            assert(line_views(trainers@) =~= card_lines(m, db, trainer_ids_seen));
            assert(line_views(energy@) =~= card_lines(m, db, energy_ids_seen));
        }
        while i < ids.len()
            invariant
                i <= ids@.len(),
                ids@.no_duplicates(),
                ids@.to_set() == m.dom(),
                m == self.cards@,
                db == card_database@,
                line_views(pokemon@) == card_lines(m, db, pokemon_ids_seen),
                line_views(trainers@) == card_lines(m, db, trainer_ids_seen),
                line_views(energy@) == card_lines(m, db, energy_ids_seen),
                listed_so_far(ids@.take(i as int), pokemon_ids(db), pokemon_ids_seen),
                listed_so_far(ids@.take(i as int), trainer_ids(db), trainer_ids_seen),
                listed_so_far(ids@.take(i as int), energy_ids(db), energy_ids_seen),
            decreases ids@.len() - i,
        {
            let id = ids[i];
            let quantity = self.get_card_quantity(id);
            proof {
                lemma_next_key(ids@, i as int);
                assert(ids@.to_set().contains(id));
                lemma_listed_step(ids@, i as int, pokemon_ids(db), pokemon_ids_seen);
                lemma_listed_step(ids@, i as int, trainer_ids(db), trainer_ids_seen);
                lemma_listed_step(ids@, i as int, energy_ids(db), energy_ids_seen);
            }
            match card_database.get(&id) {
                Some(card) => {
                    let mut line = decimal_string(quantity as u64);
                    line.append(" ");
                    line.append(card.name.as_str());
                    let ghost text = line@;
                    if card.is_pokemon() {
                        let ghost before = line_views(pokemon@);
                        pokemon.push(line);
                        proof {
                            pokemon_ids_seen = pokemon_ids_seen.push(id);
                            assert(line_views(pokemon@) =~= before.push(text));
                            assert(line_views(pokemon@) =~= card_lines(m, db, pokemon_ids_seen));
                        }
                    } else if card.is_trainer() {
                        let ghost before = line_views(trainers@);
                        trainers.push(line);
                        proof {
                            trainer_ids_seen = trainer_ids_seen.push(id);
                            assert(line_views(trainers@) =~= before.push(text));
                            assert(line_views(trainers@) =~= card_lines(m, db, trainer_ids_seen));
                        }
                    } else {
                        let ghost before = line_views(energy@);
                        energy.push(line);
                        proof {
                            energy_ids_seen = energy_ids_seen.push(id);
                            assert(line_views(energy@) =~= before.push(text));
                            assert(line_views(energy@) =~= card_lines(m, db, energy_ids_seen));
                        }
                    }
                },
                None => {},
            }
            i += 1;
        }
        proof {
            assert(ids@.take(ids@.len() as int) =~= ids@);
            assert forall|id: CardId| ids@.contains(id) <==> m.contains_key(id) by {
                assert(ids@.to_set().contains(id) <==> ids@.contains(id));
            }
        }
        let mut output: Vec<String> = Vec::new();
        let mut first = String::from_str("Deck: ");
        first.append(self.name.as_str());
        output.push(first);
        let mut second = String::from_str("Format: ");
        second.append(self.format.as_str());
        output.push(second);
        output.push(String::new());
        let ghost head = seq!["Deck: "@ + self.name@, "Format: "@ + self.format@, Seq::<char>::empty()];
        proof {
            assert(line_views(output@) =~= head);
        }
        let ghost pokemon_lines = line_views(pokemon@);
        let ghost trainer_lines = line_views(trainers@);
        let ghost energy_lines = line_views(energy@);
        append_section(&mut output, "Pokemon:", pokemon, true);
        append_section(&mut output, "Trainers:", trainers, true);
        append_section(&mut output, "Energy:", energy, false);
        proof {
            assert(line_views(output@) =~= deck_lines(
                self.name@,
                self.format@,
                pokemon_lines,
                trainer_lines,
                energy_lines,
            ));
            assert(lists_kind(m, pokemon_ids(db), pokemon_ids_seen));
            assert(lists_kind(m, trainer_ids(db), trainer_ids_seen));
            assert(lists_kind(m, energy_ids(db), energy_ids_seen));
        }
        join_lines(&output)
    }

    /// The cards of the deck as a pile, each card as often as the deck
    /// holds it.
    pub fn to_card_list(&self) -> (r: Vec<CardId>)
        ensures
            forall|id: CardId| r@.to_multiset().count(id) == self.spec_quantity(id),
            r@.len() == self.spec_total(),
    {
        broadcast use vstd::std_specs::hash::group_hash_axioms;
        broadcast use vstd::multiset::group_multiset_axioms;

        let ids = keys_of(&self.cards);
        let mut pile: Vec<CardId> = Vec::new();
        let mut i: usize = 0;
        let ghost all = Set::<CardId>::full();
        proof {
            pile@.to_multiset_ensures();
            assert(ids@.take(0) =~= Seq::empty());
            assert(ids@.take(0).to_set() =~= Set::empty());
            lemma_total_empty(self.cards@.restrict(Set::<CardId>::empty().intersect(all)));
        }
        while i < ids.len()
            invariant
                i <= ids@.len(),
                ids@.no_duplicates(),
                ids@.to_set() == self.cards@.dom(),
                all == Set::<CardId>::full(),
                pile@.len() == total_of(self.cards@, ids@.take(i as int).to_set().intersect(all)),
                forall|id: CardId|
                    pile@.to_multiset().count(id) == if ids@.take(i as int).contains(id) {
                        self.spec_quantity(id) as nat
                    } else {
                        0
                    },
            decreases ids@.len() - i,
        {
            let id = ids[i];
            let copies = self.get_card_quantity(id);
            let ghost base = pile@.len();
            proof {
                lemma_next_key(ids@, i as int);
                assert(ids@.to_set().contains(id));
                lemma_total_of_step(self.cards@, ids@.take(i as int).to_set(), all, id);
            }
            let mut n: u32 = 0;
            while n < copies
                invariant
                    n <= copies,
                    i < ids@.len(),
                    id == ids@[i as int],
                    copies == self.spec_quantity(id),
                    pile@.len() == base + n,
                    !ids@.take(i as int).contains(id),
                    forall|x: CardId|
                        pile@.to_multiset().count(x) == if x == id {
                            n as nat
                        } else if ids@.take(i as int).contains(x) {
                            self.spec_quantity(x) as nat
                        } else {
                            0
                        },
                decreases copies - n,
            {
                proof {
                    vstd::seq_lib::to_multiset_build(pile@, id);
                }
                pile.push(id);
                n += 1;
            }
            i += 1;
        }
        proof {
            assert(ids@.take(ids@.len() as int) =~= ids@);
            assert forall|id: CardId| pile@.to_multiset().count(id) == self.spec_quantity(id) by {
                if !ids@.contains(id) {
                    assert(!ids@.to_set().contains(id));
                }
            }
            lemma_total_of_all(self.cards@, ids@.to_set().intersect(all));
        }
        pile
    }

    /// A deck that holds the cards of a pile, each as often as the pile
    /// holds it. The pile has to be short enough for the count of cards.
    pub fn from_card_list(name: String, format: String, cards: Vec<CardId>) -> (r: Self)
        requires
            cards@.len() <= u32::MAX,
        ensures
            r.name == name,
            r.format == format,
            r.spec_total() == cards@.len(),
            forall|id: CardId| r.spec_quantity(id) == cards@.to_multiset().count(id),
    {
        broadcast use vstd::multiset::group_multiset_axioms;

        let mut deck = Deck::new(name, format);
        let mut i: usize = 0;
        proof {
            assert(cards@.take(0) =~= Seq::empty());
            cards@.take(0).to_multiset_ensures();
        }
        while i < cards.len()
            invariant
                i <= cards@.len(),
                cards@.len() <= u32::MAX,
                deck.name == name,
                deck.format == format,
                deck.spec_total() == i,
                forall|id: CardId|
                    #![trigger count_in(deck.cards@, id)]
                    #![trigger cards@.take(i as int).to_multiset().count(id)]
                    count_in(deck.cards@, id) == cards@.take(i as int).to_multiset().count(id),
            decreases cards@.len() - i,
        {
            proof {
                assert(cards@.take(i as int + 1) =~= cards@.take(i as int).push(cards@[i as int]));
                vstd::seq_lib::to_multiset_build(cards@.take(i as int), cards@[i as int]);
            }
            let ghost before = deck.cards@;
            deck.add_card(cards[i], 1);
            proof {
                let card = cards@[i as int];
                let sofar = cards@.take(i as int);
                if before.contains_key(card) {
                    lemma_entry_le_total(before, card);
                }
                assert forall|id: CardId| count_in(deck.cards@, id) == cards@.take(
                    i as int + 1,
                ).to_multiset().count(id) by {
                    assert(count_in(before, id) == sofar.to_multiset().count(id));
                    assert(sofar.push(card).to_multiset().count(id) == sofar.to_multiset().insert(
                        card,
                    ).count(id));
                    assert(cards@.take(i as int + 1) == sofar.push(card));
                    assert(deck.cards@ == before.insert(
                        card,
                        (count_in(before, card) + 1) as u32,
                    ));
                    if id == card {
                        assert(sofar.to_multiset().insert(card).count(id) == sofar.to_multiset().count(
                            id,
                        ) + 1);
                    } else {
                        assert(sofar.to_multiset().insert(card).count(id) == sofar.to_multiset().count(
                            id,
                        ));
                    }
                }
            }
            i += 1;
        }
        proof {
            assert(cards@.take(cards@.len() as int) =~= cards@);
        }
        deck
    }

    /// The cards of the deck as a pile, shuffled with a generator made from
    /// `seed`.
    pub fn shuffle_seeded(&self, seed: u64) -> (r: Vec<CardId>)
        ensures
            forall|id: CardId| r@.to_multiset().count(id) == self.spec_quantity(id),
            r@.len() == self.spec_total(),
    {
        let mut pile = self.to_card_list();
        let ghost plain = pile@;
        shuffle_with_seed(&mut pile, seed);
        proof {
            crate::seqs::lemma_rearranged(plain, pile@);
        }
        pile
    }

    /// The cards of the deck as a pile, shuffled with a random seed.
    pub fn shuffle(&self) -> (r: Vec<CardId>)
        ensures
            forall|id: CardId| r@.to_multiset().count(id) == self.spec_quantity(id),
            r@.len() == self.spec_total(),
    {
        let seed = random_seed();
        self.shuffle_seeded(seed)
    }
}

/// Whether `listed` lists the cards among `seen` that are in `kind`,
/// each once.
pub open spec fn listed_so_far(seen: Seq<CardId>, kind: Set<CardId>, listed: Seq<CardId>) -> bool {
    listed.no_duplicates() && forall|id: CardId|
        listed.contains(id) <==> seen.contains(id) && kind.contains(id)
}

/// One more card among those seen: the list stays as it is if the card is
/// not of the kind, and takes the card at its end if it is.
pub proof fn lemma_listed_step(ids: Seq<CardId>, i: int, kind: Set<CardId>, listed: Seq<CardId>)
    requires
        0 <= i < ids.len(),
        ids.no_duplicates(),
        listed_so_far(ids.take(i), kind, listed),
    ensures
        !kind.contains(ids[i]) ==> listed_so_far(ids.take(i + 1), kind, listed),
        kind.contains(ids[i]) ==> listed_so_far(ids.take(i + 1), kind, listed.push(ids[i])),
{
    lemma_next_key(ids, i);
    let done = ids.take(i);
    let next = ids.take(i + 1);
    let id = ids[i];
    if kind.contains(id) {
        let more = listed.push(id);
        assert(!listed.contains(id));
        assert forall|a: int, b: int|
            0 <= a < more.len() && 0 <= b < more.len() && a != b implies more[a] != more[b] by {
            if a < listed.len() {
                assert(listed.contains(listed[a]));
            }
            if b < listed.len() {
                assert(listed.contains(listed[b]));
            }
        }
        assert forall|x: CardId| more.contains(x) <==> next.contains(x) && kind.contains(x) by {
            if more.contains(x) {
                let j = choose|j: int| 0 <= j < more.len() && more[j] == x;
                if j < listed.len() {
                    assert(listed[j] == x);
                    assert(listed.contains(x));
                }
            }
            if next.contains(x) && kind.contains(x) {
                if x == id {
                    assert(more[more.len() - 1] == x);
                } else {
                    assert(done.contains(x));
                    assert(listed.contains(x));
                    let j = choose|j: int| 0 <= j < listed.len() && listed[j] == x;
                    assert(more[j] == x);
                }
            }
        }
    } else {
        assert forall|x: CardId| listed.contains(x) <==> next.contains(x) && kind.contains(x) by {
            if next.contains(x) && kind.contains(x) {
                assert(x != id);
                assert(done.contains(x));
            }
        }
    }
}

/// Appends a part of the text of a deck to its lines.
fn append_section(output: &mut Vec<String>, heading: &str, lines: Vec<String>, closed: bool)
    ensures
        line_views(final(output)@) == line_views(old(output)@) + text_section(
            heading@,
            line_views(lines@),
            closed,
        ),
{
    let ghost before = line_views(output@);
    let ghost section = line_views(lines@);
    if lines.len() == 0 {
        proof {
            assert(before + Seq::<Seq<char>>::empty() =~= before);
        }
        return ;
    }
    output.push(String::from_str(heading));
    proof {
        assert(line_views(output@) =~= before + seq![heading@]);
    }
    let mut rest = crate::seqs::reversed(lines);
    let ghost all = lines@;
    while rest.len() > 0
        invariant
            rest@.len() <= all.len(),
            rest@ == all.skip(all.len() - rest@.len()).reverse(),
            line_views(output@) == before + seq![heading@] + line_views(
                all.take(all.len() - rest@.len()),
            ),
        decreases rest@.len(),
    {
        let ghost k = all.len() - rest@.len();
        let ghost views = line_views(output@);
        let line = rest.pop().unwrap();
        proof {
            assert(line == all[k]);
            assert(rest@ =~= all.skip(all.len() - rest@.len()).reverse());
        }
        output.push(line);
        proof {
            assert(line_views(output@) =~= views.push(all[k]@));
            assert(line_views(all.take(k + 1)) =~= line_views(all.take(k)).push(all[k]@));
            assert(line_views(output@) =~= before + seq![heading@] + line_views(all.take(k + 1)));
        }
    }
    proof {
        assert(all.take(all.len() as int) =~= all);
    }
    if closed {
        let ghost views = line_views(output@);
        output.push(String::new());
        proof {
            assert(line_views(output@) =~= views.push(Seq::<char>::empty()));
            assert(line_views(output@) =~= before + (seq![heading@] + section + seq![
                Seq::<char>::empty(),
            ]));
        }
    } else {
        proof {
            assert(line_views(output@) =~= before + (seq![heading@] + section));
        }
    }
}

} // verus!
