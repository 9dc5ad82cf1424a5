//! Carrying out what players do: every action is checked against the
//! rules first, and changes the match only if it passes.

use crate::game::{fail, seed_after, Game, GameEvent, GameView};
use crate::ids::{CardId, PlayerId};
use crate::player::PlayerView;
use crate::rules::{
    blocked, violation_views, violations_of, GameAction, Rule, RuleEngine, RuleViolation,
};
use crate::seqs::keys_of;
use crate::setup::seed_after_n;
use crate::text::{decimal, decimal_string};
use crate::turn::lemma_cycle_step;
use vstd::arithmetic::div_mod::lemma_mod_pos_bound;
use vstd::prelude::*;

verus! {

/// The card on top of a pile, if the pile holds one.
pub open spec fn top_card(pile: Seq<CardId>) -> Option<CardId> {
    if pile.len() > 0 {
        Some(pile.last())
    } else {
        None
    }
}

/// The name under which the attack at an index is recorded.
pub open spec fn attack_label(attack_index: usize) -> Seq<char> {
    "Attack "@ + decimal(attack_index as nat)
}

/// The events that tell of the shuffling of the decks of `players`, in
/// their order.
pub open spec fn shuffle_events(players: Seq<PlayerId>) -> Seq<GameEvent> {
    Seq::new(players.len(), |i: int| GameEvent::DeckShuffled { player_id: players[i] })
}

impl GameView {
    /// The match after a player ended their turn by an action: the index
    /// moves on through the turn order and starts over at its end, the
    /// turn number grows, and the player's flags of the turn are reset.
    pub open spec fn turn_handed_on(self, actor: PlayerId) -> GameView {
        GameView {
            current_player_index: if self.turn_order.len() > 0 {
                ((self.current_player_index + 1) % (self.turn_order.len() as int)) as usize
            } else {
                self.current_player_index
            },
            turn_number: (self.turn_number + 1) as u32,
            players: if self.players.contains_key(actor) {
                self.players.insert(actor, self.players[actor].turn_started())
            } else {
                self.players
            },
            ..self
        }
    }

    /// Whether `after` is what an action that has passed the rules makes
    /// of the match.
    pub open spec fn action_applied(self, action: GameAction, after: GameView) -> bool {
        match action {
            GameAction::DrawCard { player_id } => after == if self.players.contains_key(
                player_id,
            ) {
                GameView {
                    players: self.players.insert(player_id, self.players[player_id].after_draw(1)),
                    history: self.history.push(
                        GameEvent::CardDrawn {
                            player_id,
                            card_id: top_card(self.players[player_id].deck),
                        },
                    ),
                    ..self
                }
            } else {
                self
            },
            GameAction::PlayCard { player_id, card_id, .. } => after == self.with_event(
                GameEvent::CardPlayed { player_id, card_id },
            ),
            GameAction::AttachEnergy {
                player_id,
                energy_id,
                pokemon_id,
            } => after == if self.players.contains_key(player_id)
                && self.players[player_id].can_attach(energy_id, pokemon_id) {
                GameView {
                    players: self.players.insert(
                        player_id,
                        self.players[player_id].attached(energy_id, pokemon_id),
                    ),
                    history: self.history.push(
                        GameEvent::EnergyAttached { player_id, energy_id, pokemon_id },
                    ),
                    ..self
                }
            } else {
                self
            },
            GameAction::UseAttack { player_id, pokemon_id, attack_index } => {
                &&& after == (GameView { history: after.history, ..self })
                &&& after.history.len() == self.history.len() + 1
                &&& after.history.drop_last() == self.history
                &&& after.history.last() matches GameEvent::AttackUsed {
                    player_id: p,
                    pokemon_id: k,
                    attack_name,
                }
                &&& (p == player_id && k == pokemon_id && attack_name@ == attack_label(
                    attack_index,
                ))
            },
            GameAction::Retreat { .. } => after == self,
            GameAction::EndTurn { player_id } => after == self.with_event(
                GameEvent::TurnEnded { player_id },
            ).turn_handed_on(player_id),
            GameAction::Pass { .. } => after == self,
        }
    }
}

/// The attachment of an energy card to a Pokemon, as a value.
#[derive(Clone, Copy, Debug, PartialEq, Eq, Structural)]
pub struct AttachEnergyAction {
    pub player_id: PlayerId,
    pub energy_card_id: CardId,
    pub target_pokemon_id: CardId,
}

/// An attack of one active Pokemon on another, as a value.
#[derive(Clone, Copy, Debug, PartialEq, Eq, Structural)]
pub struct AttackAction {
    pub attacker_player_id: PlayerId,
    pub attacker_pokemon_id: CardId,
    pub attack_index: usize,
    pub target_player_id: PlayerId,
    pub target_pokemon_id: CardId,
}

impl AttachEnergyAction {
    /// Why the attachment cannot be carried out, if it cannot.
    pub open spec fn refusal(self, game: GameView) -> Option<Seq<char>> {
        if !game.players.contains_key(self.player_id) {
            Some("Player not found"@)
        } else if !game.players[self.player_id].hand.contains(self.energy_card_id) {
            Some("Energy card not in player's hand"@)
        } else if !game.players[self.player_id].in_play(self.target_pokemon_id) {
            Some("Target Pokemon not on player's field"@)
        } else {
            None
        }
    }

    pub fn new(player_id: PlayerId, energy_card_id: CardId, target_pokemon_id: CardId) -> (r: Self)
        ensures
            r == (AttachEnergyAction { player_id, energy_card_id, target_pokemon_id }),
    {
        AttachEnergyAction { player_id, energy_card_id, target_pokemon_id }
    }

    /// Moves the energy card from the player's hand onto the Pokemon.
    pub fn execute(&self, game: &mut Game) -> (r: Result<(), String>)
        ensures
            match r {
                Ok(()) => self.refusal(old(game)@) is None && final(game)@ == old(game)@.with_player(
                    self.player_id,
                    old(game)@.players[self.player_id].attached(
                        self.energy_card_id,
                        self.target_pokemon_id,
                    ),
                ),
                Err(e) => final(game)@ == old(game)@ && Some(e@) == self.refusal(old(game)@),
            },
            old(game)@.wf() ==> final(game)@.wf(),
    {
        let mut player = match game.take_player(self.player_id) {
            Some(p) => p,
            None => {
                return fail("Player not found");
            },
        };
        let ghost start = player@;
        let in_hand = crate::seqs::contains(&player.hand, self.energy_card_id);
        let attached = in_hand && player.attach_energy(self.energy_card_id, self.target_pokemon_id);
        game.put_player(self.player_id, player);
        if attached {
            proof {
                assert(game@.players =~= old(game)@.players.insert(
                    self.player_id,
                    start.attached(self.energy_card_id, self.target_pokemon_id),
                ));
            }
            Ok(())
        } else {
            proof {
                assert(game@.players =~= old(game)@.players);
            }
            if !in_hand {
                fail("Energy card not in player's hand")
            } else {
                fail("Target Pokemon not on player's field")
            }
        }
    }
}

impl AttackAction {
    /// Why the attack cannot be carried out, if it cannot.
    pub open spec fn refusal(self, game: GameView) -> Option<Seq<char>> {
        if !game.players.contains_key(self.attacker_player_id) {
            Some("Attacker player not found"@)
        } else if !game.players.contains_key(self.target_player_id) {
            Some("Target player not found"@)
        } else if game.players[self.attacker_player_id].active_pokemon != Some(
            self.attacker_pokemon_id,
        ) {
            Some("Attacker Pokemon is not active"@)
        } else if game.players[self.target_player_id].active_pokemon != Some(
            self.target_pokemon_id,
        ) {
            Some("Target Pokemon is not active"@)
        } else {
            None
        }
    }

    pub fn new(
        attacker_player_id: PlayerId,
        attacker_pokemon_id: CardId,
        attack_index: usize,
        target_player_id: PlayerId,
        target_pokemon_id: CardId,
    ) -> (r: Self)
        ensures
            r == (AttackAction {
                attacker_player_id,
                attacker_pokemon_id,
                attack_index,
                target_player_id,
                target_pokemon_id,
            }),
    {
        AttackAction {
            attacker_player_id,
            attacker_pokemon_id,
            attack_index,
            target_player_id,
            target_pokemon_id,
        }
    }

    /// Checks that the attack can be carried out: both players are in the
    /// match, and the attacker and the target are their active Pokemon.
    /// The match stays as it is.
    pub fn execute(&self, game: &mut Game) -> (r: Result<(), String>)
        ensures
            final(game)@ == old(game)@,
            match r {
                Ok(()) => self.refusal(old(game)@) is None,
                Err(e) => Some(e@) == self.refusal(old(game)@),
            },
    {
        let attacker = match game.get_player(self.attacker_player_id) {
            Some(p) => p,
            None => {
                return fail("Attacker player not found");
            },
        };
        let target = match game.get_player(self.target_player_id) {
            Some(p) => p,
            None => {
                return fail("Target player not found");
            },
        };
        let attacker_active = match attacker.active_pokemon {
            Some(a) => a == self.attacker_pokemon_id,
            None => false,
        };
        if !attacker_active {
            return fail("Attacker Pokemon is not active");
        }
        let target_active = match target.active_pokemon {
            Some(a) => a == self.target_pokemon_id,
            None => false,
        };
        if !target_active {
            return fail("Target Pokemon is not active");
        }
        Ok(())
    }
}

impl Game {
    /// Shuffles the deck of a player with the seed of the match and
    /// records it. The deck holds the same cards afterwards.
    pub fn shuffle_deck(&mut self, player_id: PlayerId) -> (r: Result<(), String>)
        ensures
            match r {
                Ok(()) => old(self)@.players.contains_key(player_id) && final(self)@ == (GameView {
                    players: old(self)@.players.insert(
                        player_id,
                        PlayerView {
                            deck: final(self)@.players[player_id].deck,
                            ..old(self)@.players[player_id]
                        },
                    ),
                    history: old(self)@.history.push(GameEvent::DeckShuffled { player_id }),
                    shuffle_seed: seed_after(old(self)@.shuffle_seed),
                    ..old(self)@
                }) && final(self)@.players[player_id].deck.to_multiset() == old(self)@.players[player_id].deck.to_multiset(),
                Err(e) => final(self)@ == old(self)@ && !old(self)@.players.contains_key(player_id)
                    && e@ == "Player not found"@,
            },
            old(self)@.wf() ==> final(self)@.wf(),
    {
        match self.take_player(player_id) {
            Some(mut player) => {
                let seed = self.next_shuffle_seed();
                player.shuffle_deck_seeded(seed);
                self.put_player(player_id, player);
                self.add_event(GameEvent::DeckShuffled { player_id });
                proof {
                    assert(self@.players =~= old(self)@.players.insert(
                        player_id,
                        PlayerView {
                            deck: self@.players[player_id].deck,
                            ..old(self)@.players[player_id]
                        },
                    ));
                }
                Ok(())
            },
            None => fail("Player not found"),
        }
    }

    /// Shuffles the deck of every player and records each shuffle, in the
    /// order in which the table of players hands them out. Every deck
    /// holds the same cards afterwards.
    pub fn shuffle_both_decks(&mut self) -> (r: Result<(), String>)
        ensures
            r is Ok,
            final(self)@ == (GameView {
                players: final(self)@.players,
                history: final(self)@.history,
                shuffle_seed: seed_after_n(old(self)@.shuffle_seed, old(self)@.players.len()),
                ..old(self)@
            }),
            final(self)@.players.dom() == old(self)@.players.dom(),
            forall|p: PlayerId|
                old(self)@.players.contains_key(p) ==> (#[trigger] final(self)@.players[p]) == (
                PlayerView { deck: final(self)@.players[p].deck, ..old(self)@.players[p] })
                    && final(self)@.players[p].deck.to_multiset() == old(self)@.players[p].deck.to_multiset(),
            exists|order: Seq<PlayerId>|
                order.no_duplicates() && order.to_set() == old(self)@.players.dom() && final(self)@.history == old(self)@.history + #[trigger] shuffle_events(order),
            old(self)@.wf() ==> final(self)@.wf(),
    {
        broadcast use vstd::std_specs::hash::group_hash_axioms;

        let ids = keys_of(&self.players);
        let ghost before = old(self)@;
        let mut i: usize = 0;
        proof {
            assert(self@.players.dom() =~= self.players@.dom());
            assert(ids@.take(0) =~= Seq::empty());
            assert(before.history + shuffle_events(ids@.take(0)) =~= before.history);
        }
        while i < ids.len()
            invariant
                i <= ids@.len(),
                ids@.no_duplicates(),
                ids@.to_set() == before.players.dom(),
                ids@.len() == before.players.len(),
                before == old(self)@,
                before.wf() ==> self@.wf(),
                self@ == (GameView {
                    players: self@.players,
                    history: before.history + shuffle_events(ids@.take(i as int)),
                    shuffle_seed: seed_after_n(before.shuffle_seed, i as nat),
                    ..before
                }),
                self@.players.dom() == before.players.dom(),
                forall|p: PlayerId|
                    before.players.contains_key(p) ==> (#[trigger] self@.players[p]) == (
                    PlayerView { deck: self@.players[p].deck, ..before.players[p] })
                        && self@.players[p].deck.to_multiset()
                        == before.players[p].deck.to_multiset(),
            decreases ids@.len() - i,
        {
            let id = ids[i];
            let ghost cur = self@;
            proof {
                assert(ids@.to_set().contains(id));
            }
            let shuffled = self.shuffle_deck(id);
            proof {
                assert(before.history + shuffle_events(ids@.take(i as int + 1)) =~= (before.history
                    + shuffle_events(ids@.take(i as int))).push(
                    GameEvent::DeckShuffled { player_id: id },
                ));
                assert forall|p: PlayerId| before.players.contains_key(p) implies (
                #[trigger] self@.players[p]) == (PlayerView {
                    deck: self@.players[p].deck,
                    ..before.players[p]
                }) && self@.players[p].deck.to_multiset()
                    == before.players[p].deck.to_multiset() by {
                    if p != id {
                        assert(self@.players[p] == cur.players[p]);
                    } else {
                        assert(cur.players[p] == (PlayerView {
                            deck: cur.players[p].deck,
                            ..before.players[p]
                        }));
                    }
                }
            }
            i += 1;
        }
        proof {
            assert(ids@.take(ids@.len() as int) =~= ids@);
        }
        Ok(())
    }

    /// Carries out an action if the rules of `rule_engine` let it pass.
    /// An action that a rule blocks leaves the match as it was, and the
    /// violations are returned. An action that passes changes the match
    /// and is recorded in the history. Where a turn ends, the turn number
    /// has to have room to grow.
    pub fn execute_action<R: Rule>(&mut self, rule_engine: &RuleEngine<R>, action: &GameAction) -> (r:
        Result<(), Vec<RuleViolation>>)
        requires
            *action is EndTurn ==> old(self)@.turn_number < u32::MAX,
        ensures
            match r {
                Ok(()) => !blocked(
                    violations_of(rule_engine.rules@, rule_engine.config, old(self)@, *action),
                ) && old(self)@.action_applied(*action, final(self)@),
                Err(violations) => *final(self) == *old(self) && violation_views(violations@)
                    == violations_of(rule_engine.rules@, rule_engine.config, old(self)@, *action)
                    && blocked(violation_views(violations@)),
            },
            old(self)@.wf() ==> final(self)@.wf(),
    {
        let found = rule_engine.validate_action(self, action);
        if RuleEngine::<R>::has_blocking(&found) {
            return Err(found);
        }
        match action {
            GameAction::DrawCard { player_id } => {
                match self.take_player(*player_id) {
                    Some(mut player) => {
                        let drawn = player.draw_card();
                        self.put_player(*player_id, player);
                        self.add_event(
                            GameEvent::CardDrawn { player_id: *player_id, card_id: drawn },
                        );
                        proof {
                            assert(self@.players =~= old(self)@.players.insert(
                                *player_id,
                                old(self)@.players[*player_id].after_draw(1),
                            ));
                        }
                    },
                    None => {},
                }
            },
            GameAction::PlayCard { player_id, card_id, target: _ } => {
                self.add_event(GameEvent::CardPlayed { player_id: *player_id, card_id: *card_id });
            },
            GameAction::AttachEnergy { player_id, energy_id, pokemon_id } => {
                match self.take_player(*player_id) {
                    Some(mut player) => {
                        let attached = player.attach_energy(*energy_id, *pokemon_id);
                        self.put_player(*player_id, player);
                        if attached {
                            self.add_event(
                                GameEvent::EnergyAttached {
                                    player_id: *player_id,
                                    energy_id: *energy_id,
                                    pokemon_id: *pokemon_id,
                                },
                            );
                            proof {
                                assert(self@.players =~= old(self)@.players.insert(
                                    *player_id,
                                    old(self)@.players[*player_id].attached(
                                        *energy_id,
                                        *pokemon_id,
                                    ),
                                ));
                            }
                        } else {
                            proof {
                                assert(self@.players =~= old(self)@.players);
                            }
                        }
                    },
                    None => {},
                }
            },
            GameAction::UseAttack { player_id, pokemon_id, attack_index } => {
                let mut label = String::from_str("Attack ");
                let number = decimal_string(*attack_index as u64);
                label.append(number.as_str());
                self.add_event(
                    GameEvent::AttackUsed {
                        player_id: *player_id,
                        pokemon_id: *pokemon_id,
                        attack_name: label,
                    },
                );
                proof {
                    assert(self@.history.drop_last() =~= old(self)@.history);
                }
            },
            GameAction::Retreat { .. } => {},
            GameAction::EndTurn { player_id } => {
                self.add_event(GameEvent::TurnEnded { player_id: *player_id });
                let len = self.turn_order.len();
                if len > 0 {
                    proof {
                        lemma_cycle_step(self.current_player_index as int, len as int);
                        lemma_mod_pos_bound(self.current_player_index as int, len as int);
                        lemma_mod_pos_bound(self.current_player_index as int + 1, len as int);
                    }
                    self.current_player_index = (self.current_player_index % len + 1) % len;
                }
                self.turn_number = self.turn_number + 1;
                match self.take_player(*player_id) {
                    Some(mut player) => {
                        player.start_turn();
                        self.put_player(*player_id, player);
                        proof {
                            assert(self@.players =~= old(self)@.players.insert(
                                *player_id,
                                old(self)@.players[*player_id].turn_started(),
                            ));
                        }
                    },
                    None => {},
                }
            },
            GameAction::Pass { .. } => {},
        }
        Ok(())
    }
}

} // verus!
