//! The backend's answer about a card, and what the handler makes of it.

use crate::meta::{Card, CardView};
use vstd::prelude::*;

verus! {

/// The payload of an answer about one card.
#[derive(Debug, Clone, PartialEq, Eq)]
pub struct CardWrapper {
    pub meta: Card,
}

/// A `CardWrapper` as plain values.
pub ghost struct CardWrapperView {
    pub meta: CardView,
}

impl View for CardWrapper {
    type V = CardWrapperView;

    open spec fn view(&self) -> CardWrapperView {
        CardWrapperView { meta: self.meta@ }
    }
}

/// The envelope in which the backend answers: a result, or an error message.
/// Which of the two an answer is follows from the fields it has; the flag `ok`
/// is carried along as it was sent.
#[derive(Debug, Clone, PartialEq, Eq)]
pub enum Answer<T> {
    /// The answer has a `result`.
    Success { ok: bool, result: T },
    /// The answer has an `error`.
    Failure { ok: bool, error: String },
}

/// An `Answer` as plain values.
pub ghost enum AnswerView<V> {
    Success { ok: bool, result: V },
    Failure { ok: bool, error: Seq<char> },
}

impl<T: View> View for Answer<T> {
    type V = AnswerView<T::V>;

    open spec fn view(&self) -> AnswerView<T::V> {
        match self {
            Answer::Success { ok, result } => AnswerView::Success { ok: *ok, result: result@ },
            Answer::Failure { ok, error } => AnswerView::Failure { ok: *ok, error: error@ },
        }
    }
}

/// Why no card could be had from the backend.
#[derive(Debug, Clone, PartialEq, Eq)]
pub enum FetchError {
    /// No usable answer arrived: the connection failed, timed out, or the body
    /// was not an answer.
    Transport,
    /// The backend answered, and declined. The message is the backend's.
    BackendRejected(String),
}

/// A `FetchError` as plain values.
pub ghost enum FetchErrorView {
    Transport,
    BackendRejected(Seq<char>),
}

impl View for FetchError {
    type V = FetchErrorView;

    open spec fn view(&self) -> FetchErrorView {
        match self {
            FetchError::Transport => FetchErrorView::Transport,
            FetchError::BackendRejected(message) => FetchErrorView::BackendRejected(message@),
        }
    }
}

/// What an answer yields: its card, where it has a result and `ok` is set; a
/// rejection with the backend's message, where it has an error; a rejection
/// with an empty message, where it has a result and `ok` is not set.
pub open spec fn card_of_answer(answer: AnswerView<CardWrapperView>) -> Result<
    CardView,
    FetchErrorView,
> {
    match answer {
        AnswerView::Success { ok, result } => if ok {
            Ok(result.meta)
        } else {
            Err(FetchErrorView::BackendRejected(Seq::empty()))
        },
        AnswerView::Failure { ok, error } => Err(FetchErrorView::BackendRejected(error)),
    }
}

/// A result as plain values.
pub open spec fn outcome_view(outcome: Result<Card, FetchError>) -> Result<
    CardView,
    FetchErrorView,
> {
    match outcome {
        Ok(card) => Ok(card@),
        Err(error) => Err(error@),
    }
}

impl Answer<CardWrapper> {
    /// Takes the card out of an answer, or says why there is none. An answer
    /// yields its card only if it has a result and its flag `ok` is set.
    pub fn into_card(self) -> (outcome: Result<Card, FetchError>)
        ensures
            outcome_view(outcome) == card_of_answer(self@),
            self matches Answer::Success { ok: true, result } ==> outcome == Ok::<
                Card,
                FetchError,
            >(result.meta),
            self matches Answer::Failure { error, .. } ==> outcome == Err::<Card, FetchError>(
                FetchError::BackendRejected(error),
            ),
    {
        match self {
            Answer::Success { ok, result } => {
                if ok {
                    Ok(result.meta)
                } else {
                    Err(FetchError::BackendRejected(String::new()))
                }
            },
            Answer::Failure { ok, error } => Err(FetchError::BackendRejected(error)),
        }
    }
}

} // verus!
