//! The ways in which a query can fail.

use vstd::prelude::*;
use vstd::string::*;

verus! {

/// Why a query gave no value. Each kind is terminal: nothing is retried.
#[derive(Clone, Debug, PartialEq, Eq)]
pub enum QueryError {
    /// The host boundary could not process the call. Holds the host's
    /// diagnostic text.
    System(String),
    /// The host processed the call and the logic behind it refused it. Holds
    /// the error that logic gave.
    Contract(String),
    /// The bytes at hand are not the wire form of the expected record.
    Parse,
    /// The record asked for is not in storage.
    NotFound,
}

/// The mathematical value of a [`QueryError`].
pub enum QueryErrorView {
    System(Seq<char>),
    Contract(Seq<char>),
    Parse,
    NotFound,
}

impl View for QueryError {
    type V = QueryErrorView;

    open spec fn view(&self) -> QueryErrorView {
        match self {
            QueryError::System(text) => QueryErrorView::System(text@),
            QueryError::Contract(text) => QueryErrorView::Contract(text@),
            QueryError::Parse => QueryErrorView::Parse,
            QueryError::NotFound => QueryErrorView::NotFound,
        }
    }
}

impl QueryErrorView {
    /// The text that describes the error to a caller.
    pub open spec fn message(self) -> Seq<char> {
        match self {
            QueryErrorView::System(text) => "Querier system error: "@ + text,
            QueryErrorView::Contract(text) => "Querier contract error: "@ + text,
            QueryErrorView::Parse => "Error parsing reply"@,
            QueryErrorView::NotFound => "State not found"@,
        }
    }
}

impl QueryError {
    /// The text that describes the error to a caller.
    pub fn message(&self) -> (text: String)
        ensures
            text@ == self@.message(),
    {
        match self {
            QueryError::System(text) => String::from_str("Querier system error: ").concat(
                text.as_str(),
            ),
            QueryError::Contract(text) => String::from_str("Querier contract error: ").concat(
                text.as_str(),
            ),
            QueryError::Parse => String::from_str("Error parsing reply"),
            QueryError::NotFound => String::from_str("State not found"),
        }
    }
}

/// A system error and a contract error are never the same error, whatever
/// texts they hold.
pub proof fn lemma_system_and_contract_differ(system_text: Seq<char>, contract_text: Seq<char>)
    ensures
        QueryErrorView::System(system_text) != QueryErrorView::Contract(contract_text),
        QueryErrorView::System(system_text).message() != QueryErrorView::Contract(
            contract_text,
        ).message(),
{
    reveal_strlit("Querier system error: ");
    reveal_strlit("Querier contract error: ");
    let a = QueryErrorView::System(system_text).message();
    let b = QueryErrorView::Contract(contract_text).message();
    assert(a[8] == 's');
    assert(b[8] == 'c');
}

} // verus!
