//! The rules of play: what a player may do, checked rule by rule before
//! anything changes.

use crate::game::{Game, GameView};
use crate::ids::{CardId, PlayerId};
use crate::seqs::{contains, reversed};
use crate::text::{decimal, decimal_string, same_text};
use vstd::prelude::*;

verus! {

/// How grave a violation of a rule is.
#[derive(Clone, Copy, Debug, PartialEq, Eq, Structural)]
pub enum ViolationSeverity {
    /// The action is allowed, but advised against.
    Warning,
    /// The action is not allowed.
    Error,
    /// The state of the match is broken.
    Fatal,
}

/// A violation of a rule: the reason why an action is not allowed.
#[derive(Debug, PartialEq, Eq)]
pub struct RuleViolation {
    /// The name of the rule.
    pub rule_name: String,
    pub message: String,
    pub severity: ViolationSeverity,
}

/// A violation as a mathematical value.
pub struct RuleViolationView {
    pub rule_name: Seq<char>,
    pub message: Seq<char>,
    pub severity: ViolationSeverity,
}

/// What a rule says of an action: nothing, or a violation.
pub type RuleResult = Result<(), RuleViolation>;

/// What a player can do in a match.
#[derive(Clone, Copy, Debug, PartialEq, Eq, Structural)]
pub enum GameAction {
    DrawCard { player_id: PlayerId },
    PlayCard { player_id: PlayerId, card_id: CardId, target: Option<CardId> },
    AttachEnergy { player_id: PlayerId, energy_id: CardId, pokemon_id: CardId },
    UseAttack { player_id: PlayerId, pokemon_id: CardId, attack_index: usize },
    Retreat { player_id: PlayerId, pokemon_id: CardId },
    EndTurn { player_id: PlayerId },
    Pass { player_id: PlayerId },
}

/// How a rule engine goes about its rules.
#[derive(Clone, Copy, Debug, PartialEq, Eq, Structural)]
pub struct RuleConfig {
    /// Whether the check stops at the first violation that is reported.
    pub stop_on_first_violation: bool,
    /// Whether the rules' effects are applied once an action has passed.
    pub auto_apply_effects: bool,
    /// The least severity that is reported.
    pub min_severity: ViolationSeverity,
}

impl View for RuleViolation {
    type V = RuleViolationView;

    open spec fn view(&self) -> RuleViolationView {
        RuleViolationView {
            rule_name: self.rule_name@,
            message: self.message@,
            severity: self.severity,
        }
    }
}

impl Clone for RuleViolation {
    fn clone(&self) -> (r: Self)
        ensures
            r == *self,
    {
        RuleViolation {
            rule_name: self.rule_name.clone(),
            message: self.message.clone(),
            severity: self.severity,
        }
    }
}

impl Default for RuleConfig {
    /// Every violation is reported, the check goes through all rules, and
    /// effects are applied.
    fn default() -> (r: Self)
        ensures
            r == (RuleConfig {
                stop_on_first_violation: false,
                auto_apply_effects: true,
                min_severity: ViolationSeverity::Warning,
            }),
    {
        RuleConfig {
            stop_on_first_violation: false,
            auto_apply_effects: true,
            min_severity: ViolationSeverity::Warning,
        }
    }
}

impl ViolationSeverity {
    /// The place of a severity in the order from warning to fatal.
    pub open spec fn rank(self) -> int {
        match self {
            ViolationSeverity::Warning => 0,
            ViolationSeverity::Error => 1,
            ViolationSeverity::Fatal => 2,
        }
    }

    /// Whether a violation of this severity keeps an action from being
    /// carried out.
    pub open spec fn blocks(self) -> bool {
        self is Error || self is Fatal
    }

    /// The place of a severity in the order from warning to fatal.
    pub fn level(&self) -> (r: u8)
        ensures
            r == self.rank(),
    {
        match self {
            ViolationSeverity::Warning => 0,
            ViolationSeverity::Error => 1,
            ViolationSeverity::Fatal => 2,
        }
    }

    /// Whether a violation of this severity keeps an action from being
    /// carried out.
    pub fn is_blocking(&self) -> (r: bool)
        ensures
            r == self.blocks(),
    {
        match self {
            ViolationSeverity::Warning => false,
            _ => true,
        }
    }
}

impl GameAction {
    /// The player who acts.
    pub open spec fn actor(self) -> PlayerId {
        match self {
            GameAction::DrawCard { player_id } => player_id,
            GameAction::PlayCard { player_id, .. } => player_id,
            GameAction::AttachEnergy { player_id, .. } => player_id,
            GameAction::UseAttack { player_id, .. } => player_id,
            GameAction::Retreat { player_id, .. } => player_id,
            GameAction::EndTurn { player_id } => player_id,
            GameAction::Pass { player_id } => player_id,
        }
    }

    /// The player who acts.
    pub fn player_id(&self) -> (r: PlayerId)
        ensures
            r == self.actor(),
    {
        match self {
            GameAction::DrawCard { player_id } => *player_id,
            GameAction::PlayCard { player_id, .. } => *player_id,
            GameAction::AttachEnergy { player_id, .. } => *player_id,
            GameAction::UseAttack { player_id, .. } => *player_id,
            GameAction::Retreat { player_id, .. } => *player_id,
            GameAction::EndTurn { player_id } => *player_id,
            GameAction::Pass { player_id } => *player_id,
        }
    }
}

/// What a rule found, as a mathematical value: nothing, or a violation.
pub open spec fn finding(r: RuleResult) -> Option<RuleViolationView> {
    match r {
        Ok(()) => None,
        Err(v) => Some(v@),
    }
}

/// The violations of a list, each as a mathematical value.
pub open spec fn violation_views(violations: Seq<RuleViolation>) -> Seq<RuleViolationView> {
    violations.map_values(|v: RuleViolation| v@)
}

/// Whether one of the violations keeps the action from being carried out.
pub open spec fn blocked(violations: Seq<RuleViolationView>) -> bool {
    exists|i: int| 0 <= i < violations.len() && (#[trigger] violations[i]).severity.blocks()
}

/// A rule of play. A rule judges an action by the state of the match
/// alone, and may have an effect of its own once an action has passed.
pub trait Rule {
    /// The name of the rule.
    spec fn spec_name(&self) -> Seq<char>;

    /// What the rule finds wrong with an action, if anything.
    spec fn spec_validate(&self, game: GameView, action: GameAction) -> Option<RuleViolationView>;

    /// What the rule's effect makes of the match, and what it finds wrong
    /// in doing so, if anything.
    spec fn spec_effect(&self, game: GameView, action: GameAction) -> (
        GameView,
        Option<RuleViolationView>,
    );

    /// The name of the rule.
    fn name(&self) -> (r: &str)
        ensures
            r@ == self.spec_name(),
    ;

    /// Checks an action against the rule. The match stays as it is.
    fn validate_action(&self, game: &Game, action: &GameAction) -> (r: RuleResult)
        ensures
            finding(r) == self.spec_validate(game@, *action),
    ;

    /// Applies the effect that the rule has on an action that has passed.
    fn apply_effect(&self, game: &mut Game, action: &GameAction) -> (r: RuleResult)
        ensures
            (final(game)@, finding(r)) == self.spec_effect(old(game)@, *action),
    ;
}

/// The violations that a list of rules reports of an action: those of the
/// least severity that is reported and above, in the order of the rules,
/// and only the first of them where the check stops at the first.
pub open spec fn violations_of<R: Rule>(
    rules: Seq<R>,
    config: RuleConfig,
    game: GameView,
    action: GameAction,
) -> Seq<RuleViolationView>
    decreases rules.len(),
{
    if rules.len() == 0 {
        Seq::empty()
    } else {
        match rules[0].spec_validate(game, action) {
            Some(v) => if v.severity.rank() >= config.min_severity.rank() {
                if config.stop_on_first_violation {
                    seq![v]
                } else {
                    seq![v] + violations_of(rules.skip(1), config, game, action)
                }
            } else {
                violations_of(rules.skip(1), config, game, action)
            },
            None => violations_of(rules.skip(1), config, game, action),
        }
    }
}

/// What the effects of a list of rules make of the match, applied in the
/// order of the rules up to the first that finds something wrong, and
/// what that one found.
pub open spec fn effects_of<R: Rule>(rules: Seq<R>, game: GameView, action: GameAction) -> (
    GameView,
    Option<RuleViolationView>,
)
    decreases rules.len(),
{
    if rules.len() == 0 {
        (game, None)
    } else {
        let (after, found) = rules[0].spec_effect(game, action);
        if found is Some {
            (after, found)
        } else {
            effects_of(rules.skip(1), after, action)
        }
    }
}

/// The rules of `rules` that do not go by the name `name`.
pub open spec fn without_named<R: Rule>(rules: Seq<R>, name: Seq<char>) -> Seq<R>
    decreases rules.len(),
{
    if rules.len() == 0 {
        rules
    } else if rules.last().spec_name() == name {
        without_named(rules.drop_last(), name)
    } else {
        without_named(rules.drop_last(), name).push(rules.last())
    }
}

/// A list of rules and the way to go about them.
#[derive(Clone, Debug)]
pub struct RuleEngine<R: Rule> {
    /// The rules, in the order in which they are checked.
    pub rules: Vec<R>,
    pub config: RuleConfig,
}

impl<R: Rule> RuleEngine<R> {
    /// What applying an action makes of the match and returns: an action
    /// that a rule blocks changes nothing and returns the violations; an
    /// action that passes has the rules' effects applied, if the engine
    /// applies effects, up to the first that finds something wrong.
    pub open spec fn applied(&self, game: GameView, action: GameAction) -> (
        GameView,
        Result<(), Seq<RuleViolationView>>,
    ) {
        let found = violations_of(self.rules@, self.config, game, action);
        if blocked(found) {
            (game, Err(found))
        } else if !self.config.auto_apply_effects {
            (game, Ok(()))
        } else {
            let (after, failure) = effects_of(self.rules@, game, action);
            match failure {
                Some(v) => (after, Err(seq![v])),
                None => (after, Ok(())),
            }
        }
    }

    /// An engine without rules that reports every violation, goes through
    /// all rules and applies effects.
    pub fn new() -> (r: Self)
        ensures
            r.rules@.len() == 0,
            r.config == (RuleConfig {
                stop_on_first_violation: false,
                auto_apply_effects: true,
                min_severity: ViolationSeverity::Warning,
            }),
    {
        RuleEngine { rules: Vec::new(), config: RuleConfig::default() }
    }

    /// An engine without rules that goes about them as `config` says.
    pub fn with_config(config: RuleConfig) -> (r: Self)
        ensures
            r.rules@.len() == 0,
            r.config == config,
    {
        RuleEngine { rules: Vec::new(), config }
    }

    /// Appends a rule.
    pub fn add_rule(&mut self, rule: R)
        ensures
            final(self).rules@ == old(self).rules@.push(rule),
            final(self).config == old(self).config,
    {
        self.rules.push(rule);
    }

    /// Takes out the rules that go by a name.
    pub fn remove_rule(&mut self, rule_name: &str)
        ensures
            final(self).rules@ == without_named(old(self).rules@, rule_name@),
            final(self).config == old(self).config,
    {
        let mut all: Vec<R> = Vec::new();
        core::mem::swap(&mut self.rules, &mut all);
        let ghost before = all@;
        let mut kept: Vec<R> = Vec::new();
        while all.len() > 0
            invariant
                without_named(before, rule_name@) == without_named(all@, rule_name@)
                    + kept@.reverse(),
            decreases all@.len(),
        {
            let ghost a0 = all@;
            let ghost k0 = kept@;
            let rule = all.pop().unwrap();
            if !same_text(rule.name(), rule_name) {
                kept.push(rule);
                proof {
                    assert(kept@.reverse() =~= seq![rule] + k0.reverse());
                    assert(without_named(a0, rule_name@) + k0.reverse() =~= without_named(
                        all@,
                        rule_name@,
                    ) + kept@.reverse());
                }
            }
        }
        proof {
            assert(without_named(before, rule_name@) =~= kept@.reverse());
        }
        self.rules = reversed(kept);
    }

    /// The violations that the rules report of an action: those of the
    /// least severity that is reported and above, in the order of the
    /// rules, and only the first of them where the check stops at the
    /// first.
    pub fn validate_action(&self, game: &Game, action: &GameAction) -> (r: Vec<RuleViolation>)
        ensures
            violation_views(r@) == violations_of(self.rules@, self.config, game@, *action),
    {
        let mut found: Vec<RuleViolation> = Vec::new();
        let mut i: usize = 0;
        let mut stopped = false;
        proof {
            assert(self.rules@.skip(0) =~= self.rules@);
            assert(violation_views(found@) =~= Seq::empty());
        }
        while i < self.rules.len() && !stopped
            invariant
                i <= self.rules@.len(),
                !stopped ==> violations_of(self.rules@, self.config, game@, *action)
                    == violation_views(found@) + violations_of(
                    self.rules@.skip(i as int),
                    self.config,
                    game@,
                    *action,
                ),
                stopped ==> violations_of(self.rules@, self.config, game@, *action)
                    == violation_views(found@),
            decreases self.rules@.len() - i + if stopped { 0nat } else { 1nat },
        {
            let ghost rest = self.rules@.skip(i as int);
            let ghost views0 = violation_views(found@);
            proof {
                assert(rest[0] == self.rules@[i as int]);
                assert(rest.skip(1) =~= self.rules@.skip(i as int + 1));
            }
            match self.rules[i].validate_action(game, action) {
                Ok(()) => {},
                Err(violation) => {
                    if violation.severity.level() >= self.config.min_severity.level() {
                        let ghost v = violation@;
                        found.push(violation);
                        proof {
                            assert(violation_views(found@) =~= views0.push(v));
                            assert(views0.push(v) =~= views0 + seq![v]);
                        }
                        if self.config.stop_on_first_violation {
                            stopped = true;
                        } else {
                            proof {
                                let tail = violations_of(
                                    self.rules@.skip(i as int + 1),
                                    self.config,
                                    game@,
                                    *action,
                                );
                                assert(views0 + (seq![v] + tail) =~= (views0 + seq![v]) + tail);
                            }
                        }
                    }
                },
            }
            if !stopped {
                i += 1;
            }
        }
        proof {
            if !stopped {
                assert(violation_views(found@) + Seq::<RuleViolationView>::empty()
                    =~= violation_views(found@));
            }
        }
        found
    }

    /// Whether one of the violations keeps the action from being carried
    /// out.
    pub fn has_blocking(violations: &Vec<RuleViolation>) -> (r: bool)
        ensures
            r == blocked(violation_views(violations@)),
    {
        let mut i: usize = 0;
        while i < violations.len()
            invariant
                i <= violations@.len(),
                forall|j: int|
                    0 <= j < i ==> !(#[trigger] violation_views(violations@)[j]).severity.blocks(),
            decreases violations@.len() - i,
        {
            if violations[i].severity.is_blocking() {
                proof {
                    assert(violation_views(violations@)[i as int].severity.blocks());
                }
                return true;
            }
            i += 1;
        }
        false
    }

    /// Applies an action if the rules let it pass. An action that a rule
    /// blocks leaves the match as it was. For an action that passes, the
    /// effects of the rules are applied in their order, if the engine
    /// applies effects; the first effect that finds something wrong ends
    /// the application, and its violation is the only one returned.
    pub fn apply_action(&self, game: &mut Game, action: &GameAction) -> (r: Result<
        (),
        Vec<RuleViolation>,
    >)
        ensures
            final(game)@ == self.applied(old(game)@, *action).0,
            match r {
                Ok(()) => self.applied(old(game)@, *action).1 is Ok,
                Err(violations) => self.applied(old(game)@, *action).1 == Err::<
                    (),
                    Seq<RuleViolationView>,
                >(violation_views(violations@)),
            },
            blocked(violations_of(self.rules@, self.config, old(game)@, *action)) ==> r is Err
                && *final(game) == *old(game),
    {
        let found = self.validate_action(game, action);
        if Self::has_blocking(&found) {
            return Err(found);
        }
        if !self.config.auto_apply_effects {
            return Ok(());
        }
        let mut i: usize = 0;
        proof {
            assert(self.rules@.skip(0) =~= self.rules@);
        }
        while i < self.rules.len()
            invariant
                i <= self.rules@.len(),
                !blocked(violations_of(self.rules@, self.config, old(game)@, *action)),
                self.config.auto_apply_effects,
                effects_of(self.rules@, old(game)@, *action) == effects_of(
                    self.rules@.skip(i as int),
                    game@,
                    *action,
                ),
            decreases self.rules@.len() - i,
        {
            let ghost rest = self.rules@.skip(i as int);
            proof {
                assert(rest[0] == self.rules@[i as int]);
                assert(rest.skip(1) =~= self.rules@.skip(i as int + 1));
            }
            match self.rules[i].apply_effect(game, action) {
                Ok(()) => {},
                Err(violation) => {
                    let mut only: Vec<RuleViolation> = Vec::new();
                    let ghost v = violation@;
                    only.push(violation);
                    proof {
                        assert(violation_views(only@) =~= seq![v]);
                    }
                    return Err(only);
                },
            }
            i += 1;
        }
        Ok(())
    }

    /// The names of the rules, in their order.
    pub fn get_rule_names(&self) -> (r: Vec<String>)
        ensures
            r@.len() == self.rules@.len(),
            forall|i: int| 0 <= i < r@.len() ==> (#[trigger] r@[i])@ == self.rules@[i].spec_name(),
    {
        let mut names: Vec<String> = Vec::new();
        let mut i: usize = 0;
        while i < self.rules.len()
            invariant
                i <= self.rules@.len(),
                names@.len() == i,
                forall|j: int|
                    0 <= j < i ==> (#[trigger] names@[j])@ == self.rules@[j].spec_name(),
            decreases self.rules@.len() - i,
        {
            names.push(String::from_str(self.rules[i].name()));
            i += 1;
        }
        names
    }

    /// Whether a rule goes by a name.
    pub fn has_rule(&self, rule_name: &str) -> (r: bool)
        ensures
            r == exists|i: int|
                0 <= i < self.rules@.len() && (#[trigger] self.rules@[i]).spec_name()
                    == rule_name@,
    {
        let mut i: usize = 0;
        while i < self.rules.len()
            invariant
                i <= self.rules@.len(),
                forall|j: int|
                    0 <= j < i ==> (#[trigger] self.rules@[j]).spec_name() != rule_name@,
            decreases self.rules@.len() - i,
        {
            if same_text(self.rules[i].name(), rule_name) {
                return true;
            }
            i += 1;
        }
        false
    }
}

impl<R: Rule> Default for RuleEngine<R> {
    fn default() -> (r: Self)
        ensures
            r.rules@.len() == 0,
    {
        RuleEngine::new()
    }
}

/// A violation with the given texts.
pub fn violation(rule_name: &str, message: String, severity: ViolationSeverity) -> (r: RuleResult)
    ensures
        finding(r) == Some(
            RuleViolationView { rule_name: rule_name@, message: message@, severity },
        ),
{
    Err(RuleViolation { rule_name: String::from_str(rule_name), message, severity })
}

/// Players act only when it is their turn.
#[derive(Clone, Copy, Debug, PartialEq, Eq, Structural)]
pub struct TurnOrderRule;

/// A hand holds no more cards than the rules of the match allow.
#[derive(Clone, Copy, Debug, PartialEq, Eq, Structural)]
pub struct HandLimitRule;

/// Energy is attached from the hand to a Pokemon in play, and only energy.
#[derive(Clone, Copy, Debug, PartialEq, Eq, Structural)]
pub struct EnergyAttachmentRule;

/// The message for a draw that the limit of the hand forbids.
pub open spec fn hand_limit_text(limit: u32) -> Seq<char> {
    "Hand size limit exceeded ("@ + decimal(limit as nat) + ")"@
}

impl Rule for TurnOrderRule {
    open spec fn spec_name(&self) -> Seq<char> {
        "TurnOrder"@
    }

    open spec fn spec_validate(&self, game: GameView, action: GameAction) -> Option<
        RuleViolationView,
    > {
        if game.is_player_turn(action.actor()) {
            None
        } else {
            Some(
                RuleViolationView {
                    rule_name: "TurnOrder"@,
                    message: "Not your turn"@,
                    severity: ViolationSeverity::Error,
                },
            )
        }
    }

    open spec fn spec_effect(&self, game: GameView, action: GameAction) -> (
        GameView,
        Option<RuleViolationView>,
    ) {
        (game, None)
    }

    fn name(&self) -> (r: &str) {
        "TurnOrder"
    }

    fn validate_action(&self, game: &Game, action: &GameAction) -> (r: RuleResult) {
        if game.is_player_turn(action.player_id()) {
            Ok(())
        } else {
            violation("TurnOrder", String::from_str("Not your turn"), ViolationSeverity::Error)
        }
    }

    fn apply_effect(&self, game: &mut Game, action: &GameAction) -> (r: RuleResult) {
        Ok(())
    }
}

impl Rule for HandLimitRule {
    open spec fn spec_name(&self) -> Seq<char> {
        "HandLimit"@
    }

    open spec fn spec_validate(&self, game: GameView, action: GameAction) -> Option<
        RuleViolationView,
    > {
        match action {
            GameAction::DrawCard { player_id } => if game.players.contains_key(player_id)
                && game.rules.max_hand_size is Some && game.players[player_id].hand.len()
                >= game.rules.max_hand_size->Some_0 {
                Some(
                    RuleViolationView {
                        rule_name: "HandLimit"@,
                        message: hand_limit_text(game.rules.max_hand_size->Some_0),
                        severity: ViolationSeverity::Error,
                    },
                )
            } else {
                None
            },
            _ => None,
        }
    }

    open spec fn spec_effect(&self, game: GameView, action: GameAction) -> (
        GameView,
        Option<RuleViolationView>,
    ) {
        (game, None)
    }

    fn name(&self) -> (r: &str) {
        "HandLimit"
    }

    fn validate_action(&self, game: &Game, action: &GameAction) -> (r: RuleResult) {
        match action {
            GameAction::DrawCard { player_id } => {
                match game.get_player(*player_id) {
                    Some(player) => match game.rules.max_hand_size {
                        Some(limit) => {
                            if player.hand.len() >= limit as usize {
                                let mut message = String::from_str("Hand size limit exceeded (");
                                let number = decimal_string(limit as u64);
                                message.append(number.as_str());
                                message.append(")");
                                return violation("HandLimit", message, ViolationSeverity::Error);
                            }
                        },
                        None => {},
                    },
                    None => {},
                }
                Ok(())
            },
            _ => Ok(()),
        }
    }

    fn apply_effect(&self, game: &mut Game, action: &GameAction) -> (r: RuleResult) {
        Ok(())
    }
}

impl Rule for EnergyAttachmentRule {
    open spec fn spec_name(&self) -> Seq<char> {
        "EnergyAttachment"@
    }

    open spec fn spec_validate(&self, game: GameView, action: GameAction) -> Option<
        RuleViolationView,
    > {
        match action {
            GameAction::AttachEnergy {
                player_id,
                energy_id,
                pokemon_id,
            } => if !game.players.contains_key(player_id) {
                None
            } else if !game.players[player_id].hand.contains(energy_id) {
                Some(
                    RuleViolationView {
                        rule_name: "EnergyAttachment"@,
                        message: "Energy card not in hand"@,
                        severity: ViolationSeverity::Error,
                    },
                )
            } else if !game.players[player_id].in_play(pokemon_id) {
                Some(
                    RuleViolationView {
                        rule_name: "EnergyAttachment"@,
                        message: "Target Pokemon not found"@,
                        severity: ViolationSeverity::Error,
                    },
                )
            } else if game.card_database.contains_key(energy_id)
                && !game.card_database[energy_id].spec_is_energy() {
                Some(
                    RuleViolationView {
                        rule_name: "EnergyAttachment"@,
                        message: "Card is not an energy"@,
                        severity: ViolationSeverity::Error,
                    },
                )
            } else {
                None
            },
            _ => None,
        }
    }

    open spec fn spec_effect(&self, game: GameView, action: GameAction) -> (
        GameView,
        Option<RuleViolationView>,
    ) {
        (game, None)
    }

    fn name(&self) -> (r: &str) {
        "EnergyAttachment"
    }

    fn validate_action(&self, game: &Game, action: &GameAction) -> (r: RuleResult) {
        match action {
            GameAction::AttachEnergy { player_id, energy_id, pokemon_id } => {
                match game.get_player(*player_id) {
                    Some(player) => {
                        if !contains(&player.hand, *energy_id) {
                            return violation(
                                "EnergyAttachment",
                                String::from_str("Energy card not in hand"),
                                ViolationSeverity::Error,
                            );
                        }
                        let is_active = match player.active_pokemon {
                            Some(a) => a == *pokemon_id,
                            None => false,
                        };
                        if !is_active && !contains(&player.bench, *pokemon_id) {
                            return violation(
                                "EnergyAttachment",
                                String::from_str("Target Pokemon not found"),
                                ViolationSeverity::Error,
                            );
                        }
                        match game.get_card(*energy_id) {
                            Some(card) => {
                                if !card.is_energy() {
                                    return violation(
                                        "EnergyAttachment",
                                        String::from_str("Card is not an energy"),
                                        ViolationSeverity::Error,
                                    );
                                }
                            },
                            None => {},
                        }
                        Ok(())
                    },
                    None => Ok(()),
                }
            },
            _ => Ok(()),
        }
    }

    fn apply_effect(&self, game: &mut Game, action: &GameAction) -> (r: RuleResult) {
        Ok(())
    }
}

/// One of the standard rules.
#[derive(Clone, Copy, Debug, PartialEq, Eq, Structural)]
pub enum StandardRule {
    TurnOrder(TurnOrderRule),
    HandLimit(HandLimitRule),
    EnergyAttachment(EnergyAttachmentRule),
}

impl Rule for StandardRule {
    open spec fn spec_name(&self) -> Seq<char> {
        match self {
            StandardRule::TurnOrder(rule) => rule.spec_name(),
            StandardRule::HandLimit(rule) => rule.spec_name(),
            StandardRule::EnergyAttachment(rule) => rule.spec_name(),
        }
    }

    open spec fn spec_validate(&self, game: GameView, action: GameAction) -> Option<
        RuleViolationView,
    > {
        match self {
            StandardRule::TurnOrder(rule) => rule.spec_validate(game, action),
            StandardRule::HandLimit(rule) => rule.spec_validate(game, action),
            StandardRule::EnergyAttachment(rule) => rule.spec_validate(game, action),
        }
    }

    open spec fn spec_effect(&self, game: GameView, action: GameAction) -> (
        GameView,
        Option<RuleViolationView>,
    ) {
        match self {
            StandardRule::TurnOrder(rule) => rule.spec_effect(game, action),
            StandardRule::HandLimit(rule) => rule.spec_effect(game, action),
            StandardRule::EnergyAttachment(rule) => rule.spec_effect(game, action),
        }
    }

    fn name(&self) -> (r: &str) {
        match self {
            StandardRule::TurnOrder(rule) => rule.name(),
            StandardRule::HandLimit(rule) => rule.name(),
            StandardRule::EnergyAttachment(rule) => rule.name(),
        }
    }

    fn validate_action(&self, game: &Game, action: &GameAction) -> (r: RuleResult) {
        match self {
            StandardRule::TurnOrder(rule) => rule.validate_action(game, action),
            StandardRule::HandLimit(rule) => rule.validate_action(game, action),
            StandardRule::EnergyAttachment(rule) => rule.validate_action(game, action),
        }
    }

    fn apply_effect(&self, game: &mut Game, action: &GameAction) -> (r: RuleResult) {
        match self {
            StandardRule::TurnOrder(rule) => rule.apply_effect(game, action),
            StandardRule::HandLimit(rule) => rule.apply_effect(game, action),
            StandardRule::EnergyAttachment(rule) => rule.apply_effect(game, action),
        }
    }
}

/// The standard rules of play.
#[derive(Clone, Copy, Debug)]
pub struct StandardRules;

impl StandardRules {
    /// An engine with the standard rules: the order of turns, the limit of
    /// the hand, and the attachment of energy.
    pub fn create_engine() -> (r: RuleEngine<StandardRule>)
        ensures
            r.rules@ == seq![
                StandardRule::TurnOrder(TurnOrderRule),
                StandardRule::HandLimit(HandLimitRule),
                StandardRule::EnergyAttachment(EnergyAttachmentRule),
            ],
            r.config == (RuleConfig {
                stop_on_first_violation: false,
                auto_apply_effects: true,
                min_severity: ViolationSeverity::Warning,
            }),
    {
        let mut engine = RuleEngine::new();
        engine.add_rule(StandardRule::TurnOrder(TurnOrderRule));
        engine.add_rule(StandardRule::HandLimit(HandLimitRule));
        engine.add_rule(StandardRule::EnergyAttachment(EnergyAttachmentRule));
        proof {
            assert(engine.rules@ =~= seq![
                StandardRule::TurnOrder(TurnOrderRule),
                StandardRule::HandLimit(HandLimitRule),
                StandardRule::EnergyAttachment(EnergyAttachmentRule),
            ]);
        }
        engine
    }
}

} // verus!
