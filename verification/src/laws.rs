//! Laws that hold of the library as a whole.

use crate::card::Card;
use crate::deck::{statistics_of, Deck};
use crate::game::{GameEvent, GameView};
use crate::ids::{CardId, PlayerId};
use crate::player::{is_mulliganed, PlayerView, OPENING_HAND};
use crate::rules::{blocked, violations_of, GameAction, Rule, RuleEngine};
use crate::seqs::{lemma_drawn_conserves, min_nat};
use crate::turn::lemma_cycle_step;
use vstd::arithmetic::div_mod::{lemma_fundamental_div_mod_converse, lemma_mod_pos_bound};
use vstd::prelude::*;

verus! {

/// Taking the statistics of a deck leaves the deck as it is, and the
/// statistics are determined by the cards of the deck and the database:
/// a deck that has not changed has the statistics again that it had.
pub proof fn law_statistics_repeat(before: Deck, after: Deck, db: Map<CardId, Card>)
    requires
        after.cards@ == before.cards@,
    ensures
        statistics_of(after.cards@, db) == statistics_of(before.cards@, db),
{
}

/// A mulligan loses no card and makes none, and deals the opening hand
/// as far as the cards go: afterwards the hand holds seven cards, or all
/// the cards that hand and deck held together if those were fewer, and
/// hand and deck together hold the cards that they held before.
pub proof fn law_mulligan_conserves(before: PlayerView, after: PlayerView)
    requires
        is_mulliganed(before, after),
    ensures
        after.hand.len() == min_nat(OPENING_HAND as nat, before.deck.len() + before.hand.len()),
        (after.deck + after.hand).to_multiset() == (before.deck + before.hand).to_multiset(),
{
    let pile = choose|pile: Seq<CardId>|
        pile.to_multiset() == (before.deck + before.hand).to_multiset() && after
            == #[trigger] before.mulliganed(pile);
    pile.to_multiset_ensures();
    (before.deck + before.hand).to_multiset_ensures();
    lemma_drawn_conserves(pile, min_nat(OPENING_HAND as nat, pile.len()));
}

/// An action that a rule blocks changes nothing: what the engine makes of
/// the match is the match as it was.
pub proof fn law_blocked_action_changes_nothing<R: Rule>(
    engine: RuleEngine<R>,
    game: GameView,
    action: GameAction,
)
    requires
        blocked(violations_of(engine.rules@, engine.config, game, action)),
    ensures
        engine.applied(game, action).0 == game,
        engine.applied(game, action).1 is Err,
{
}

/// The turn order is a cycle. Let the turn pass any number of times,
/// from each match of `games` to the next. Then the index of the current
/// player has gone round the turn order as often as that number says,
/// taking every place in it in turn, and the turn number has grown by
/// one for each time the index came back to the first place, that is once
/// for each full round.
pub proof fn law_turns_cycle(games: Seq<GameView>)
    requires
        games.len() > 0,
        forall|i: int| 0 <= i < games.len() - 1 ==> (#[trigger] games[i]).passed_turn_to(games[i + 1]),
        games[0].current_player_index < games[0].turn_order.len(),
    ensures
        ({
            let first = games[0];
            let last = games[games.len() - 1];
            let len = first.turn_order.len() as int;
            let n = games.len() - 1;
            &&& last.turn_order == first.turn_order
            &&& last.current_player_index == (first.current_player_index + n) % len
            &&& last.turn_number == first.turn_number + (first.current_player_index + n) / len
        }),
    decreases games.len(),
{
    let first = games[0];
    let len = first.turn_order.len() as int;
    let n = games.len() - 1;
    if n == 0 {
        lemma_fundamental_div_mod_converse(
            first.current_player_index as int,
            len,
            0,
            first.current_player_index as int,
        );
    } else {
        let shorter = games.drop_last();
        assert forall|i: int| 0 <= i < shorter.len() - 1 implies (#[trigger] shorter[i]).passed_turn_to(
            shorter[i + 1],
        ) by {
            assert(games[i].passed_turn_to(games[i + 1]));
        }
        law_turns_cycle(shorter);
        let prev = games[n - 1];
        assert(prev == shorter[shorter.len() - 1]);
        assert(prev.passed_turn_to(games[n]));
        lemma_cycle_step(first.current_player_index + n - 1, len);
    }
}

/// Every end of a turn after which the match goes on is a passing of the
/// turn.
pub proof fn law_end_turn_passes_turn(before: GameView, after: GameView)
    requires
        before.turn_ended(after, Ok(())),
        after.state is InProgress,
        before.turn_number < u32::MAX,
        before.turn_order.len() <= usize::MAX,
    ensures
        before.passed_turn_to(after),
{
    let ended = before.with_event(
        GameEvent::TurnEnded { player_id: before.current_player_id()->Some_0 },
    );
    if ended.has_winner() {
        let w = choose|w: PlayerId| ended.wins(w) && after == #[trigger] ended.won_by(w);
        assert(!(after.state is InProgress));
    } else {
        lemma_mod_pos_bound(before.current_player_index + 1, before.turn_order.len() as int);
        let passed = ended.turn_passed();
        assert(passed.current_player_index == (before.current_player_index + 1) % (
        before.turn_order.len() as int));
        assert(after.current_player_index == passed.current_player_index);
        assert(after.turn_number == passed.turn_number);
        assert(after.turn_order == before.turn_order);
    }
}

} // verus!
