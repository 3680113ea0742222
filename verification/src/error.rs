//! The errors of the runtime.

use vstd::prelude::*;

use crate::ids::RunId;
use crate::text::{concat2, concat3, concat4, debug_text, decimal_text};

verus! {

/// Errors raised by the engine and the storage backends.
#[derive(Debug)]
pub enum Error {
    /// A run id was not found in the store.
    RunNotFound(RunId),
    /// No driver was registered for a run's `agent_type`.
    NoDriver(String),
    /// A payload or a step output could not be decoded or encoded.
    Serde(String),
    /// A storage operation failed.
    Storage(String),
    /// A durable step used up its attempts without succeeding.
    StepExhausted {
        /// The step key.
        key: String,
        /// How many attempts were made.
        attempts: u32,
        /// The last attempt's error message.
        message: String,
    },
    /// A run exceeded one of its budget limits.
    BudgetExceeded(String),
    /// A driver returned an error.
    Driver(String),
    /// Any other message.
    Message(String),
}

/// The model of an [`Error`].
pub enum ErrorView {
    /// A run id was not found in the store.
    RunNotFound(RunId),
    /// No driver was registered for a run's `agent_type`.
    NoDriver(Seq<char>),
    /// A payload or a step output could not be decoded or encoded.
    Serde(Seq<char>),
    /// A storage operation failed.
    Storage(Seq<char>),
    /// A durable step used up its attempts without succeeding.
    StepExhausted {
        /// The step key.
        key: Seq<char>,
        /// How many attempts were made.
        attempts: u32,
        /// The last attempt's error message.
        message: Seq<char>,
    },
    /// A run exceeded one of its budget limits.
    BudgetExceeded(Seq<char>),
    /// A driver returned an error.
    Driver(Seq<char>),
    /// Any other message.
    Message(Seq<char>),
}

impl View for Error {
    type V = ErrorView;

    open spec fn view(&self) -> ErrorView {
        match *self {
            Error::RunNotFound(id) => ErrorView::RunNotFound(id),
            Error::NoDriver(s) => ErrorView::NoDriver(s@),
            Error::Serde(s) => ErrorView::Serde(s@),
            Error::Storage(s) => ErrorView::Storage(s@),
            Error::StepExhausted { key, attempts, message } => ErrorView::StepExhausted {
                key: key@,
                attempts,
                message: message@,
            },
            Error::BudgetExceeded(s) => ErrorView::BudgetExceeded(s@),
            Error::Driver(s) => ErrorView::Driver(s@),
            Error::Message(s) => ErrorView::Message(s@),
        }
    }
}

impl ErrorView {
    /// The message of an error.
    pub open spec fn text(self) -> Seq<char> {
        match self {
            ErrorView::RunNotFound(id) => "run not found: "@ + crate::ids::uuid_hyphenated(
                id.value,
            ),
            ErrorView::NoDriver(s) => "no driver registered for agent_type "@
                + crate::text::debug_quoted(s),
            ErrorView::Serde(s) => "serialization: "@ + s,
            ErrorView::Storage(s) => "storage: "@ + s,
            ErrorView::StepExhausted { key, attempts, message } => "step "@
                + crate::text::debug_quoted(key) + " exhausted after "@
                + crate::text::decimal(attempts as nat) + " attempts: "@ + message,
            ErrorView::BudgetExceeded(s) => "budget exceeded: "@ + s,
            ErrorView::Driver(s) => "driver: "@ + s,
            ErrorView::Message(s) => s,
        }
    }
}

impl Error {
    /// A storage error with the given message.
    pub fn storage(message: String) -> (r: Error)
        ensures
            r@ == ErrorView::Storage(message@),
    {
        Error::Storage(message)
    }

    /// A driver error with the given message.
    pub fn driver(message: String) -> (r: Error)
        ensures
            r@ == ErrorView::Driver(message@),
    {
        Error::Driver(message)
    }

    /// The message of this error.
    pub fn message(&self) -> (r: String)
        ensures
            r@ == self@.text(),
    {
        match self {
            Error::RunNotFound(id) => concat2("run not found: ", id.text().as_str()),
            Error::NoDriver(s) => concat2(
                "no driver registered for agent_type ",
                debug_text(s.as_str()).as_str(),
            ),
            Error::Serde(s) => concat2("serialization: ", s.as_str()),
            Error::Storage(s) => concat2("storage: ", s.as_str()),
            Error::StepExhausted { key, attempts, message } => {
                let head: String = concat3(
                    "step ",
                    debug_text(key.as_str()).as_str(),
                    " exhausted after ",
                );
                concat4(
                    head.as_str(),
                    decimal_text(*attempts as u128).as_str(),
                    " attempts: ",
                    message.as_str(),
                )
            },
            Error::BudgetExceeded(s) => concat2("budget exceeded: ", s.as_str()),
            Error::Driver(s) => concat2("driver: ", s.as_str()),
            Error::Message(s) => s.clone(),
        }
    }
}

} // verus!
