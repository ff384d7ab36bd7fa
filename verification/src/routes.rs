//! The handler of a request for a card's page, as a state machine.
//!
//! The handler itself neither waits nor talks to anyone. It is told what
//! happened, as an `Event`, and answers with its next state and with what is
//! to be done, as an `Action`: fetch a URL, send a response, call again, or
//! wait. Whoever drives it does the fetching and the sending. Whatever goes
//! wrong on the way, the request ends with the unchanged shell, sent with
//! status 200.

use crate::backend::{
    card_of_answer, Answer, AnswerView, CardWrapper, CardWrapperView, FetchError, FetchErrorView,
};
use crate::meta::{
    backend_meta_url, fragment, lemma_fragment_opens_tags_only, Card, CardView, Config, ConfigView,
};
use crate::template::{
    inject, injected, lemma_inject_keeps_marker_count, lemma_opening_tags_add_no_marker, marker,
};
use crate::text::{lemma_first_occurrence_none, occurrences, occurs};
use vstd::prelude::*;

verus! {

/// The HTML shell, read once at startup and shared by all requests.
#[derive(Debug, Clone, PartialEq, Eq)]
pub struct Storage {
    pub index_html: String,
}

impl Storage {
    /// Wraps the text of the shell.
    pub fn new(index_html: String) -> (storage: Storage)
        ensures
            storage.index_html == index_html,
    {
        Storage { index_html }
    }
}

/// What is sent back to the client.
#[derive(Debug, Clone, PartialEq, Eq)]
pub struct Response {
    pub status: u16,
    pub content_type: String,
    pub body: String,
}

/// A `Response` as plain values.
pub ghost struct ResponseView {
    pub status: int,
    pub content_type: Seq<char>,
    pub body: Seq<char>,
}

impl View for Response {
    type V = ResponseView;

    open spec fn view(&self) -> ResponseView {
        ResponseView {
            status: self.status as int,
            content_type: self.content_type@,
            body: self.body@,
        }
    }
}

/// The one kind of response there is: status 200, an HTML document.
pub open spec fn html_response(body: Seq<char>) -> ResponseView {
    ResponseView { status: 200, content_type: "text/html; charset=utf-8"@, body }
}

/// How a request ended.
#[derive(Debug, Clone, Copy, PartialEq, Eq)]
pub enum Outcome {
    /// The shell was sent with the card's meta tags in its head.
    Success,
    /// The shell was sent as it is.
    Fallback,
}

/// Where the handling of one request stands.
#[derive(Debug, Clone, PartialEq, Eq)]
pub enum HandlerState {
    /// Nothing is known yet.
    Start,
    /// The backend has been asked about the card.
    Fetching { card_id: u32 },
    /// The backend's answer held the card.
    Decoded { card: Card },
    /// No card could be had.
    FetchFailed { error: FetchError },
    /// The document for the card is ready.
    Rendered { document: String },
    /// The response is on its way; the request is over.
    Responding { outcome: Outcome },
}

/// A `HandlerState` as plain values.
pub ghost enum StateView {
    Start,
    Fetching { card_id: int },
    Decoded { card: CardView },
    FetchFailed { error: FetchErrorView },
    Rendered { document: Seq<char> },
    Responding { outcome: Outcome },
}

impl View for HandlerState {
    type V = StateView;

    open spec fn view(&self) -> StateView {
        match self {
            HandlerState::Start => StateView::Start,
            HandlerState::Fetching { card_id } => StateView::Fetching { card_id: *card_id as int },
            HandlerState::Decoded { card } => StateView::Decoded { card: card@ },
            HandlerState::FetchFailed { error } => StateView::FetchFailed { error: error@ },
            HandlerState::Rendered { document } => StateView::Rendered { document: document@ },
            HandlerState::Responding { outcome } => StateView::Responding { outcome: *outcome },
        }
    }
}

/// What the handler is told.
#[derive(Debug, Clone, PartialEq, Eq)]
pub enum Event {
    /// The request's path was read: it named a card, or it did not.
    Routed { card_id: Option<u32> },
    /// The backend's answer arrived and was decoded.
    Answered { answer: Answer<CardWrapper> },
    /// No answer could be had or decoded.
    TransportFailed,
}

/// An `Event` as plain values.
pub ghost enum EventView {
    Routed { card_id: Option<int> },
    Answered { answer: AnswerView<CardWrapperView> },
    TransportFailed,
}

impl View for Event {
    type V = EventView;

    open spec fn view(&self) -> EventView {
        match self {
            Event::Routed { card_id } => EventView::Routed {
                card_id: match card_id {
                    Some(id) => Some(*id as int),
                    None => None,
                },
            },
            Event::Answered { answer } => EventView::Answered { answer: answer@ },
            Event::TransportFailed => EventView::TransportFailed,
        }
    }
}

/// What the handler asks for.
#[derive(Debug, Clone, PartialEq, Eq)]
pub enum Action {
    /// Get this URL from the backend and report what came of it.
    Fetch { url: String },
    /// Send this response; the request is over.
    Respond { response: Response },
    /// Call again at once; there is no event to wait for.
    Continue,
    /// Nothing to do: the event meant nothing in this state.
    Wait,
}

/// An `Action` as plain values.
pub ghost enum ActionView {
    Fetch { url: Seq<char> },
    Respond { response: ResponseView },
    Continue,
    Wait,
}

impl View for Action {
    type V = ActionView;

    open spec fn view(&self) -> ActionView {
        match self {
            Action::Fetch { url } => ActionView::Fetch { url: url@ },
            Action::Respond { response } => ActionView::Respond { response: response@ },
            Action::Continue => ActionView::Continue,
            Action::Wait => ActionView::Wait,
        }
    }
}

/// An event that may be absent, as plain values.
pub open spec fn event_view(event: Option<Event>) -> Option<EventView> {
    match event {
        Some(event) => Some(event@),
        None => None,
    }
}

/// The document for a card: the shell with the card's fragment in its head.
pub open spec fn page(config: ConfigView, shell: Seq<char>, card: CardView) -> Seq<char> {
    injected(shell, fragment(config, card))
}

/// One transition of the handler.
///
/// - `Start` waits for the path. A path that names a card leads to
///   `Fetching` and asks for the card's metadata; one that names none ends
///   the request with the fallback.
/// - `Fetching` waits for the backend. An answer that yields a card leads to
///   `Decoded`; an answer that yields none, and a failed transport, lead to
///   `FetchFailed`.
/// - `Decoded` leads to `Rendered`, with the card's page as the document.
/// - `Rendered` ends the request with the document.
/// - `FetchFailed` ends the request with the fallback, the unchanged shell.
/// - `Responding` is final.
///
/// An event that a state does not wait for changes nothing.
pub open spec fn stepped(
    config: ConfigView,
    shell: Seq<char>,
    state: StateView,
    event: Option<EventView>,
) -> (StateView, ActionView) {
    match state {
        StateView::Start => match event {
            Some(EventView::Routed { card_id: Some(id) }) => (
                StateView::Fetching { card_id: id },
                ActionView::Fetch { url: backend_meta_url(config, id) },
            ),
            Some(EventView::Routed { card_id: None }) => (
                StateView::Responding { outcome: Outcome::Fallback },
                ActionView::Respond { response: html_response(shell) },
            ),
            _ => (state, ActionView::Wait),
        },
        StateView::Fetching { card_id } => match event {
            Some(EventView::Answered { answer }) => match card_of_answer(answer) {
                Ok(card) => (StateView::Decoded { card }, ActionView::Continue),
                Err(error) => (StateView::FetchFailed { error }, ActionView::Continue),
            },
            Some(EventView::TransportFailed) => (
                StateView::FetchFailed { error: FetchErrorView::Transport },
                ActionView::Continue,
            ),
            _ => (state, ActionView::Wait),
        },
        StateView::Decoded { card } => (
            StateView::Rendered { document: page(config, shell, card) },
            ActionView::Continue,
        ),
        StateView::Rendered { document } => (
            StateView::Responding { outcome: Outcome::Success },
            ActionView::Respond { response: html_response(document) },
        ),
        StateView::FetchFailed { error } => (
            StateView::Responding { outcome: Outcome::Fallback },
            ActionView::Respond { response: html_response(shell) },
        ),
        StateView::Responding { outcome } => (state, ActionView::Wait),
    }
}

/// How many transitions a state can make without an event.
pub open spec fn pending(state: StateView) -> nat {
    match state {
        StateView::Decoded { .. } => 2,
        StateView::Rendered { .. } => 1,
        StateView::FetchFailed { .. } => 1,
        _ => 0,
    }
}

/// The transitions that need no event, made one after the other until an
/// action is due that is not `Continue`.
pub open spec fn settled(
    config: ConfigView,
    shell: Seq<char>,
    state: StateView,
    action: ActionView,
) -> (StateView, ActionView)
    decreases pending(state),
{
    if action is Continue && pending(state) > 0 {
        let next = stepped(config, shell, state, None);
        settled(config, shell, next.0, next.1)
    } else {
        (state, action)
    }
}

/// What the handler does on an event: the transition for the event, and
/// after it those that need none.
pub open spec fn handled(
    config: ConfigView,
    shell: Seq<char>,
    state: StateView,
    event: EventView,
) -> (StateView, ActionView) {
    let first = stepped(config, shell, state, Some(event));
    settled(config, shell, first.0, first.1)
}

fn html(body: String) -> (response: Response)
    ensures
        response@ == html_response(body@),
{
    Response { status: 200, content_type: String::from_str("text/html; charset=utf-8"), body }
}

impl Action {
    /// Whether the handler wants to be called again at once.
    pub fn is_continue(&self) -> (yes: bool)
        ensures
            yes == (self@ is Continue),
    {
        match self {
            Action::Continue => true,
            _ => false,
        }
    }
}

/// Makes one transition: from a state, and an event where there is one, to
/// the next state and the action that is due.
pub fn step(config: &Config, storage: &Storage, state: HandlerState, event: Option<Event>) -> (next:
    (HandlerState, Action))
    ensures
        (next.0@, next.1@) == stepped(config@, storage.index_html@, state@, event_view(event)),
{
    match state {
        HandlerState::Start => match event {
            Some(Event::Routed { card_id: Some(id) }) => (
                HandlerState::Fetching { card_id: id },
                Action::Fetch { url: config.backend_card_url(id) },
            ),
            Some(Event::Routed { card_id: None }) => (
                HandlerState::Responding { outcome: Outcome::Fallback },
                Action::Respond { response: html(storage.index_html.clone()) },
            ),
            _ => (HandlerState::Start, Action::Wait),
        },
        HandlerState::Fetching { card_id } => match event {
            Some(Event::Answered { answer }) => match answer.into_card() {
                Ok(card) => (HandlerState::Decoded { card }, Action::Continue),
                Err(error) => (HandlerState::FetchFailed { error }, Action::Continue),
            },
            Some(Event::TransportFailed) => (
                HandlerState::FetchFailed { error: FetchError::Transport },
                Action::Continue,
            ),
            _ => (HandlerState::Fetching { card_id }, Action::Wait),
        },
        HandlerState::Decoded { card } => {
            let html = config.meta_for_card(&card);
            let document = inject(storage.index_html.as_str(), html.as_str());
            (HandlerState::Rendered { document }, Action::Continue)
        },
        HandlerState::Rendered { document } => (
            HandlerState::Responding { outcome: Outcome::Success },
            Action::Respond { response: html(document) },
        ),
        HandlerState::FetchFailed { error } => (
            HandlerState::Responding { outcome: Outcome::Fallback },
            Action::Respond { response: html(storage.index_html.clone()) },
        ),
        HandlerState::Responding { outcome } => (
            HandlerState::Responding { outcome },
            Action::Wait,
        ),
    }
}

/// Handles one event of a request for a card's page: makes the transition
/// for the event and those that follow without one, and hands back the state
/// reached and the action that is due. The action is never `Continue`, and a
/// response is always an HTML document with status 200.
pub fn card(config: &Config, storage: &Storage, state: HandlerState, event: Event) -> (next: (
    HandlerState,
    Action,
))
    ensures
        (next.0@, next.1@) == handled(config@, storage.index_html@, state@, event@),
        !(next.1@ is Continue),
        next.1@ matches ActionView::Respond { response } ==> response.status == 200
            && response.content_type == "text/html; charset=utf-8"@,
{
    let ghost shell = storage.index_html@;
    let ghost begun = state@;
    let ghost told = event@;
    let first = step(config, storage, state, Some(event));
    let mut current = first.0;
    let mut action = first.1;
    while action.is_continue()
        invariant
            shell == storage.index_html@,
            settled(config@, shell, current@, action@) == handled(config@, shell, begun, told),
            action@ is Continue ==> pending(current@) > 0,
            action@ matches ActionView::Respond { response } ==> response.status == 200
                && response.content_type == "text/html; charset=utf-8"@,
        decreases pending(current@),
    {
        let next = step(config, storage, current, None);
        current = next.0;
        action = next.1;
    }
    (current, action)
}

/// The path decides how a request begins: for a path that names a card the
/// backend is asked about that card, and a path that names none ends the
/// request with the unchanged shell.
pub proof fn lemma_routing(config: ConfigView, shell: Seq<char>, card_id: Option<int>)
    ensures
        handled(config, shell, StateView::Start, EventView::Routed { card_id }) == match card_id {
            Some(id) => (
                StateView::Fetching { card_id: id },
                ActionView::Fetch { url: backend_meta_url(config, id) },
            ),
            None => (
                StateView::Responding { outcome: Outcome::Fallback },
                ActionView::Respond { response: html_response(shell) },
            ),
        },
{
    reveal_with_fuel(settled, 2);
}

/// A request asks the backend at most once: only the transition out of
/// `Start` asks for a fetch, and no transition leads back to `Start`.
pub proof fn lemma_fetch_only_from_start(
    config: ConfigView,
    shell: Seq<char>,
    state: StateView,
    event: Option<EventView>,
)
    ensures
        stepped(config, shell, state, event).1 is Fetch ==> state is Start,
        stepped(config, shell, state, event).0 is Start ==> state is Start,
{
}

/// The backend's answer ends the request, whatever it holds: with the card's
/// page where the answer yields a card, with the unchanged shell where it
/// yields none.
pub proof fn lemma_answer_ends_request(
    config: ConfigView,
    shell: Seq<char>,
    card_id: int,
    answer: AnswerView<CardWrapperView>,
)
    ensures
        handled(config, shell, StateView::Fetching { card_id }, EventView::Answered { answer })
            == match card_of_answer(answer) {
            Ok(card) => (
                StateView::Responding { outcome: Outcome::Success },
                ActionView::Respond { response: html_response(page(config, shell, card)) },
            ),
            Err(error) => (
                StateView::Responding { outcome: Outcome::Fallback },
                ActionView::Respond { response: html_response(shell) },
            ),
        },
{
    reveal_with_fuel(settled, 4);
}

/// A failed transport ends the request with the unchanged shell.
pub proof fn lemma_transport_failure_falls_back(config: ConfigView, shell: Seq<char>, card_id: int)
    ensures
        handled(config, shell, StateView::Fetching { card_id }, EventView::TransportFailed) == (
            StateView::Responding { outcome: Outcome::Fallback },
            ActionView::Respond { response: html_response(shell) },
        ),
{
    reveal_with_fuel(settled, 3);
}

/// Once a response is due the request is over: no event changes the state or
/// asks for anything more.
pub proof fn lemma_responding_is_final(
    config: ConfigView,
    shell: Seq<char>,
    outcome: Outcome,
    event: EventView,
)
    ensures
        handled(config, shell, StateView::Responding { outcome }, event) == (
            StateView::Responding { outcome },
            ActionView::Wait,
        ),
{
    reveal_with_fuel(settled, 2);
}

/// A card's page holds as many closing head tags as the shell, whatever the
/// card and the configuration hold.
pub proof fn lemma_page_keeps_marker_count(config: ConfigView, shell: Seq<char>, card: CardView)
    ensures
        occurrences(page(config, shell, card), marker()) == occurrences(shell, marker()),
{
    lemma_fragment_opens_tags_only(config, card);
    lemma_opening_tags_add_no_marker(shell, fragment(config, card));
    lemma_inject_keeps_marker_count(shell, fragment(config, card));
}

/// For a shell without a closing head tag, a card's page is the shell.
pub proof fn lemma_page_without_marker(config: ConfigView, shell: Seq<char>, card: CardView)
    requires
        !occurs(shell, marker()),
    ensures
        page(config, shell, card) == shell,
{
    lemma_first_occurrence_none(shell, marker());
}

} // verus!
