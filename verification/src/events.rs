//! Events for those who watch a match: what an event tells, the handlers
//! that are told, and the bus that tells them and keeps a history.

use crate::ids::{
    fresh_id, list_string, list_text, optional_string, optional_text, uuid_string, uuid_text,
    CardId, EventId, PlayerId,
};
use crate::text::{decimal, decimal_string, line_views, same_text, StringMap};
use vstd::prelude::*;

verus! {

/// The number of events that a bus keeps unless told otherwise.
pub const DEFAULT_HISTORY_LIMIT: usize = 1000;

/// An event in a form that can be stored and sent.
#[derive(Debug, PartialEq, Eq)]
pub struct SerializableEvent {
    pub id: EventId,
    pub event_type: String,
    pub timestamp: u64,
    pub player_id: Option<PlayerId>,
    pub data: StringMap,
}

/// What an event tells: its type, its time, its player and its data.
pub struct EventFacts {
    pub event_type: Seq<char>,
    pub timestamp: u64,
    pub player_id: Option<PlayerId>,
    pub data: Map<Seq<char>, Seq<char>>,
}

/// A stored event as a mathematical value.
pub struct SerializableEventView {
    pub id: EventId,
    pub facts: EventFacts,
}

impl View for SerializableEvent {
    type V = SerializableEventView;

    open spec fn view(&self) -> SerializableEventView {
        SerializableEventView {
            id: self.id,
            facts: EventFacts {
                event_type: self.event_type@,
                timestamp: self.timestamp,
                player_id: self.player_id,
                data: self.data@,
            },
        }
    }
}

impl Clone for SerializableEvent {
    fn clone(&self) -> (r: Self)
        ensures
            r == *self,
    {
        SerializableEvent {
            id: self.id,
            event_type: self.event_type.clone(),
            timestamp: self.timestamp,
            player_id: self.player_id,
            data: self.data.clone(),
        }
    }
}

/// The stored events of a list, each as a mathematical value.
pub open spec fn event_views(events: Seq<SerializableEvent>) -> Seq<SerializableEventView> {
    events.map_values(|e: SerializableEvent| e@)
}

/// An event.
pub trait Event {
    /// What the event tells.
    spec fn facts(&self) -> EventFacts;

    /// The name of the type of the event.
    fn event_type(&self) -> (r: &str)
        ensures
            r@ == self.facts().event_type,
    ;

    /// The time of the event, in seconds.
    fn timestamp(&self) -> (r: u64)
        ensures
            r == self.facts().timestamp,
    ;

    /// The player that the event is about, if it is about one.
    fn player_id(&self) -> (r: Option<PlayerId>)
        ensures
            r == self.facts().player_id,
    ;

    /// The event in a form that can be stored, under an identifier of its
    /// own.
    fn to_serializable(&self) -> (r: SerializableEvent)
        ensures
            r@.facts == self.facts(),
    ;
}

/// One who is told of events.
pub trait EventHandler {
    /// Whether the handler wants to be told of events of a type.
    spec fn spec_handles(&self, event_type: Seq<char>) -> bool;

    /// Whether `after` is the handler after it was told of an event.
    spec fn is_told(&self, event: EventFacts, after: &Self) -> bool;

    /// Takes note of an event.
    fn handle_event<E: Event>(&mut self, event: &E)
        ensures
            old(self).is_told(event.facts(), final(self)),
    ;

    /// Whether the handler wants to be told of events of a type.
    fn handles_event_type(&self, event_type: &str) -> (r: bool)
        ensures
            r == self.spec_handles(event_type@),
    ;
}

/// The last `limit` entries of a list, or all of it if it has no more.
pub open spec fn keep_last<T>(s: Seq<T>, limit: nat) -> Seq<T> {
    if s.len() > limit {
        s.skip(s.len() - limit)
    } else {
        s
    }
}

/// Whether `after` are the handlers `before` after each of them that
/// wants to be was told of an event, and the others left alone.
pub open spec fn all_told<H: EventHandler>(before: Seq<H>, event: EventFacts, after: Seq<H>)
    -> bool {
    &&& after.len() == before.len()
    &&& forall|i: int|
        0 <= i < before.len() ==> if (#[trigger] before[i]).spec_handles(event.event_type) {
            before[i].is_told(event, &after[i])
        } else {
            after[i] == before[i]
        }
}

/// The stored events that are about a player, in their order.
pub open spec fn about_player<'a>(events: Seq<SerializableEvent>, player_id: PlayerId) -> Seq<
    &'a SerializableEvent,
>
    decreases events.len(),
{
    if events.len() == 0 {
        Seq::empty()
    } else {
        let before = about_player(events.drop_last(), player_id);
        if events.last().player_id == Some(player_id) {
            before.push(&events.last())
        } else {
            before
        }
    }
}

/// The stored events of a type, in their order.
pub open spec fn of_type<'a>(events: Seq<SerializableEvent>, event_type: Seq<char>) -> Seq<
    &'a SerializableEvent,
>
    decreases events.len(),
{
    if events.len() == 0 {
        Seq::empty()
    } else {
        let before = of_type(events.drop_last(), event_type);
        if events.last().event_type@ == event_type {
            before.push(&events.last())
        } else {
            before
        }
    }
}

/// Tells handlers of events, at once and in the order of their
/// registration, and keeps the latest events as a history.
#[derive(Clone, Debug)]
pub struct EventBus<H: EventHandler> {
    pub handlers: Vec<H>,
    /// The latest events, oldest first.
    pub history: Vec<SerializableEvent>,
    /// The number of events that are kept at most.
    pub max_history: usize,
}

impl<H: EventHandler> EventBus<H> {
    /// A bus without handlers that keeps a thousand events.
    pub fn new() -> (r: Self)
        ensures
            r.handlers@.len() == 0,
            r.history@.len() == 0,
            r.max_history == DEFAULT_HISTORY_LIMIT,
    {
        EventBus { handlers: Vec::new(), history: Vec::new(), max_history: DEFAULT_HISTORY_LIMIT }
    }

    /// A bus without handlers that keeps `max_history` events.
    pub fn with_history_limit(max_history: usize) -> (r: Self)
        ensures
            r.handlers@.len() == 0,
            r.history@.len() == 0,
            r.max_history == max_history,
    {
        EventBus { handlers: Vec::new(), history: Vec::new(), max_history }
    }

    /// Registers a handler, behind those registered before.
    pub fn register_handler(&mut self, handler: H)
        ensures
            final(self).handlers@ == old(self).handlers@.push(handler),
            final(self).history == old(self).history,
            final(self).max_history == old(self).max_history,
    {
        self.handlers.push(handler);
    }

    /// Stores an event at the end of the history, drops the oldest events
    /// beyond the limit, and tells every handler that wants to know, in
    /// the order of registration.
    pub fn emit<E: Event>(&mut self, event: &E)
        ensures
            final(self).max_history == old(self).max_history,
            all_told(old(self).handlers@, event.facts(), final(self).handlers@),
            exists|stored: SerializableEvent|
                stored@.facts == event.facts() && final(self).history@ == #[trigger] keep_last(
                    old(self).history@.push(stored),
                    old(self).max_history as nat,
                ),
    {
        let stored = event.to_serializable();
        let ghost kept = stored;
        self.history.push(stored);
        if self.history.len() > self.max_history {
            let cut = self.history.len() - self.max_history;
            let rest = self.history.split_off(cut);
            self.history = rest;
        }
        proof {
            assert(self.history@ =~= keep_last(
                old(self).history@.push(kept),
                old(self).max_history as nat,
            ));
        }
        let mut told: Vec<H> = Vec::new();
        let mut handlers: Vec<H> = Vec::new();
        core::mem::swap(&mut self.handlers, &mut handlers);
        let ghost before = handlers@;
        let mut waiting = crate::seqs::reversed(handlers);
        while waiting.len() > 0
            invariant
                before == old(self).handlers@,
                waiting@.len() <= before.len(),
                waiting@ == before.skip(before.len() - waiting@.len()).reverse(),
                told@.len() == before.len() - waiting@.len(),
                forall|i: int|
                    0 <= i < told@.len() ==> if (#[trigger] before[i]).spec_handles(
                        event.facts().event_type,
                    ) {
                        before[i].is_told(event.facts(), &told@[i])
                    } else {
                        told@[i] == before[i]
                    },
                self.history@ == keep_last(
                    old(self).history@.push(kept),
                    old(self).max_history as nat,
                ),
                self.max_history == old(self).max_history,
                kept@.facts == event.facts(),
            decreases waiting@.len(),
        {
            let ghost k = before.len() - waiting@.len();
            let mut handler = waiting.pop().unwrap();
            proof {
                assert(handler == before[k]);
                assert(waiting@ =~= before.skip(before.len() - waiting@.len()).reverse());
            }
            if handler.handles_event_type(event.event_type()) {
                handler.handle_event(event);
            }
            told.push(handler);
        }
        self.handlers = told;
    }

    /// The history, oldest event first.
    pub fn get_history(&self) -> (r: &[SerializableEvent])
        ensures
            r@ == self.history@,
    {
        self.history.as_slice()
    }

    /// The stored events that are about a player, in their order.
    pub fn get_player_events(&self, player_id: PlayerId) -> (r: Vec<&SerializableEvent>)
        ensures
            r@ == about_player(self.history@, player_id),
    {
        let mut found: Vec<&SerializableEvent> = Vec::new();
        let mut i: usize = 0;
        while i < self.history.len()
            invariant
                i <= self.history@.len(),
                found@ == about_player(self.history@.take(i as int), player_id),
            decreases self.history@.len() - i,
        {
            proof {
                assert(self.history@.take(i as int + 1).drop_last() == self.history@.take(i as int));
            }
            let about = match self.history[i].player_id {
                Some(p) => p == player_id,
                None => false,
            };
            if about {
                found.push(&self.history[i]);
            }
            i += 1;
        }
        proof {
            assert(self.history@.take(self.history@.len() as int) == self.history@);
        }
        found
    }

    /// The stored events of a type, in their order.
    pub fn get_events_by_type(&self, event_type: &str) -> (r: Vec<&SerializableEvent>)
        ensures
            r@ == of_type(self.history@, event_type@),
    {
        let mut found: Vec<&SerializableEvent> = Vec::new();
        let mut i: usize = 0;
        while i < self.history.len()
            invariant
                i <= self.history@.len(),
                found@ == of_type(self.history@.take(i as int), event_type@),
            decreases self.history@.len() - i,
        {
            proof {
                assert(self.history@.take(i as int + 1).drop_last() == self.history@.take(i as int));
            }
            if same_text(self.history[i].event_type.as_str(), event_type) {
                found.push(&self.history[i]);
            }
            i += 1;
        }
        proof {
            assert(self.history@.take(self.history@.len() as int) == self.history@);
        }
        found
    }

    /// Forgets the history.
    pub fn clear_history(&mut self)
        ensures
            final(self).history@.len() == 0,
            final(self).handlers == old(self).handlers,
            final(self).max_history == old(self).max_history,
    {
        self.history.clear();
    }

    /// The number of registered handlers.
    pub fn handler_count(&self) -> (r: usize)
        ensures
            r == self.handlers@.len(),
    {
        self.handlers.len()
    }
}

impl<H: EventHandler> Default for EventBus<H> {
    fn default() -> (r: Self)
        ensures
            r.handlers@.len() == 0,
            r.history@.len() == 0,
    {
        EventBus::new()
    }
}

/// The events of a match that watchers are told of.
#[derive(Clone, Debug, PartialEq, Eq)]
pub enum GameEvent {
    GameStarted { timestamp: u64, players: Vec<PlayerId> },
    GameEnded { timestamp: u64, winner: Option<PlayerId>, reason: String },
    TurnStarted { timestamp: u64, player_id: PlayerId, turn_number: u32 },
    TurnEnded { timestamp: u64, player_id: PlayerId },
    /// A card was drawn; the card is not named where it stays hidden.
    CardDrawn { timestamp: u64, player_id: PlayerId, card_id: Option<CardId> },
    CardPlayed {
        timestamp: u64,
        player_id: PlayerId,
        card_id: CardId,
        from_location: String,
        to_location: String,
    },
}

impl GameEvent {
    /// The data that the event tells beside its type, time and player.
    pub open spec fn spec_data(&self) -> Map<Seq<char>, Seq<char>> {
        match self {
            GameEvent::GameStarted { players, .. } => Map::empty().insert(
                "players"@,
                list_text(players@),
            ),
            GameEvent::GameEnded { winner, reason, .. } => Map::empty().insert(
                "winner"@,
                optional_text(*winner),
            ).insert("reason"@, reason@),
            GameEvent::TurnStarted { turn_number, .. } => Map::empty().insert(
                "turn_number"@,
                decimal(*turn_number as nat),
            ),
            GameEvent::TurnEnded { .. } => Map::empty(),
            GameEvent::CardDrawn { card_id, .. } => Map::empty().insert(
                "card_id"@,
                optional_text(*card_id),
            ),
            GameEvent::CardPlayed {
                card_id,
                from_location,
                to_location,
                ..
            } => Map::empty().insert("card_id"@, uuid_text(*card_id)).insert(
                "from_location"@,
                from_location@,
            ).insert("to_location"@, to_location@),
        }
    }
}

impl Event for GameEvent {
    open spec fn facts(&self) -> EventFacts {
        EventFacts {
            event_type: match self {
                GameEvent::GameStarted { .. } => "GameStarted"@,
                GameEvent::GameEnded { .. } => "GameEnded"@,
                GameEvent::TurnStarted { .. } => "TurnStarted"@,
                GameEvent::TurnEnded { .. } => "TurnEnded"@,
                GameEvent::CardDrawn { .. } => "CardDrawn"@,
                GameEvent::CardPlayed { .. } => "CardPlayed"@,
            },
            timestamp: match self {
                GameEvent::GameStarted { timestamp, .. } => *timestamp,
                GameEvent::GameEnded { timestamp, .. } => *timestamp,
                GameEvent::TurnStarted { timestamp, .. } => *timestamp,
                GameEvent::TurnEnded { timestamp, .. } => *timestamp,
                GameEvent::CardDrawn { timestamp, .. } => *timestamp,
                GameEvent::CardPlayed { timestamp, .. } => *timestamp,
            },
            player_id: match self {
                GameEvent::GameStarted { .. } => None,
                GameEvent::GameEnded { .. } => None,
                GameEvent::TurnStarted { player_id, .. } => Some(*player_id),
                GameEvent::TurnEnded { player_id, .. } => Some(*player_id),
                GameEvent::CardDrawn { player_id, .. } => Some(*player_id),
                GameEvent::CardPlayed { player_id, .. } => Some(*player_id),
            },
            data: self.spec_data(),
        }
    }

    fn event_type(&self) -> (r: &str) {
        match self {
            GameEvent::GameStarted { .. } => "GameStarted",
            GameEvent::GameEnded { .. } => "GameEnded",
            GameEvent::TurnStarted { .. } => "TurnStarted",
            GameEvent::TurnEnded { .. } => "TurnEnded",
            GameEvent::CardDrawn { .. } => "CardDrawn",
            GameEvent::CardPlayed { .. } => "CardPlayed",
        }
    }

    fn timestamp(&self) -> (r: u64) {
        match self {
            GameEvent::GameStarted { timestamp, .. } => *timestamp,
            GameEvent::GameEnded { timestamp, .. } => *timestamp,
            GameEvent::TurnStarted { timestamp, .. } => *timestamp,
            GameEvent::TurnEnded { timestamp, .. } => *timestamp,
            GameEvent::CardDrawn { timestamp, .. } => *timestamp,
            GameEvent::CardPlayed { timestamp, .. } => *timestamp,
        }
    }

    fn player_id(&self) -> (r: Option<PlayerId>) {
        match self {
            GameEvent::GameStarted { .. } => None,
            GameEvent::GameEnded { .. } => None,
            GameEvent::TurnStarted { player_id, .. } => Some(*player_id),
            GameEvent::TurnEnded { player_id, .. } => Some(*player_id),
            GameEvent::CardDrawn { player_id, .. } => Some(*player_id),
            GameEvent::CardPlayed { player_id, .. } => Some(*player_id),
        }
    }

    /// The event in a form that can be stored, under a fresh identifier.
    fn to_serializable(&self) -> (r: SerializableEvent) {
        let mut data = StringMap::new();
        match self {
            GameEvent::GameStarted { players, .. } => {
                data.insert(String::from_str("players"), list_string(players));
            },
            GameEvent::GameEnded { winner, reason, .. } => {
                data.insert(String::from_str("winner"), optional_string(*winner));
                data.insert(String::from_str("reason"), reason.clone());
            },
            GameEvent::TurnStarted { turn_number, .. } => {
                data.insert(String::from_str("turn_number"), decimal_string(*turn_number as u64));
            },
            GameEvent::TurnEnded { .. } => {},
            GameEvent::CardDrawn { card_id, .. } => {
                data.insert(String::from_str("card_id"), optional_string(*card_id));
            },
            GameEvent::CardPlayed { card_id, from_location, to_location, .. } => {
                data.insert(String::from_str("card_id"), uuid_string(*card_id));
                data.insert(String::from_str("from_location"), from_location.clone());
                data.insert(String::from_str("to_location"), to_location.clone());
            },
        }
        SerializableEvent {
            id: fresh_id(),
            event_type: String::from_str(self.event_type()),
            timestamp: self.timestamp(),
            player_id: self.player_id(),
            data,
        }
    }
}

/// The line that tells of an event: its time in square brackets, then its
/// type.
pub open spec fn event_line(event: EventFacts) -> Seq<char> {
    "["@ + decimal(event.timestamp as nat) + "] "@ + event.event_type
}

/// A handler that writes a line for every event, to be shown on a
/// console. The lines wait in `lines` until they are shown.
#[derive(Clone, Debug)]
pub struct ConsoleEventHandler {
    /// Whether the player of an event is named in its line.
    pub verbose: bool,
    /// The lines that have not been shown yet, oldest first.
    pub lines: Vec<String>,
}

impl ConsoleEventHandler {
    /// The line that the handler writes for an event: its time and its
    /// type, and its player too where the handler is verbose.
    pub open spec fn line_for(verbose: bool, event: EventFacts) -> Seq<char> {
        if verbose {
            event_line(event) + ": "@ + optional_text(event.player_id)
        } else {
            event_line(event)
        }
    }

    pub fn new(verbose: bool) -> (r: Self)
        ensures
            r.verbose == verbose,
            r.lines@.len() == 0,
    {
        ConsoleEventHandler { verbose, lines: Vec::new() }
    }

    /// Hands out the lines that wait to be shown; none wait afterwards.
    pub fn take_lines(&mut self) -> (r: Vec<String>)
        ensures
            r == old(self).lines,
            final(self).lines@.len() == 0,
            final(self).verbose == old(self).verbose,
    {
        let mut lines: Vec<String> = Vec::new();
        core::mem::swap(&mut self.lines, &mut lines);
        lines
    }
}

impl EventHandler for ConsoleEventHandler {
    /// A console handler wants to be told of every event.
    open spec fn spec_handles(&self, event_type: Seq<char>) -> bool {
        true
    }

    /// The handler has one line more: the line for the event.
    open spec fn is_told(&self, event: EventFacts, after: &Self) -> bool {
        after.verbose == self.verbose && line_views(after.lines@) == line_views(self.lines@).push(
            Self::line_for(self.verbose, event),
        )
    }

    fn handle_event<E: Event>(&mut self, event: &E) {
        let mut line = String::from_str("[");
        let time = decimal_string(event.timestamp());
        line.append(time.as_str());
        line.append("] ");
        line.append(event.event_type());
        if self.verbose {
            line.append(": ");
            let player = optional_string(event.player_id());
            line.append(player.as_str());
        }
        let ghost text = line@;
        self.lines.push(line);
        proof {
            assert(line_views(self.lines@) =~= line_views(old(self).lines@).push(text));
        }
    }

    fn handles_event_type(&self, event_type: &str) -> (r: bool) {
        true
    }
}

} // verus!
