//! Why a page did not give the record asked for.

use vstd::prelude::*;
use vstd::string::StringExecFns;

verus! {

/// Why a page did not give the record asked for. A missing row is named by
/// the date key that no row bears.
#[derive(Debug, PartialEq, Eq)]
pub enum ExtractError {
    /// A selector was not accepted.
    SelectorRejected,
    /// The page holds no table body where one is expected.
    TableMissing,
    /// No row bears the primary daily key.
    DailyRowMissing(String),
    /// No row bears the secondary daily key.
    SandfordRowMissing(String),
    /// No row bears the weekly key.
    WeeklyRowMissing(String),
}

/// An `ExtractError` with its key as characters.
pub enum ExtractFault {
    /// A selector was not accepted.
    SelectorRejected,
    /// The page holds no table body where one is expected.
    TableMissing,
    /// No row bears the primary daily key.
    DailyRowMissing(Seq<char>),
    /// No row bears the secondary daily key.
    SandfordRowMissing(Seq<char>),
    /// No row bears the weekly key.
    WeeklyRowMissing(Seq<char>),
}

impl View for ExtractError {
    type V = ExtractFault;

    open spec fn view(&self) -> ExtractFault {
        match self {
            ExtractError::SelectorRejected => ExtractFault::SelectorRejected,
            ExtractError::TableMissing => ExtractFault::TableMissing,
            ExtractError::DailyRowMissing(key) => ExtractFault::DailyRowMissing(key@),
            ExtractError::SandfordRowMissing(key) => ExtractFault::SandfordRowMissing(key@),
            ExtractError::WeeklyRowMissing(key) => ExtractFault::WeeklyRowMissing(key@),
        }
    }
}

/// The message of a fault.
pub open spec fn fault_message(fault: ExtractFault) -> Seq<char> {
    match fault {
        ExtractFault::SelectorRejected => "Selector not accepted"@,
        ExtractFault::TableMissing => "Could not find table tbody"@,
        ExtractFault::DailyRowMissing(key) => "No daily data found for "@ + key,
        ExtractFault::SandfordRowMissing(key) => "No Nicholas Sandford data found for "@ + key,
        ExtractFault::WeeklyRowMissing(key) => "No weekly data found for "@ + key,
    }
}

fn with_key(lead: &str, key: &String) -> (message: String)
    ensures
        message@ == lead@ + key@,
{
    let mut message = String::from_str(lead);
    message.append(key.as_str());
    message
}

impl ExtractError {
    /// The message to log for this error.
    pub fn message(&self) -> (message: String)
        ensures
            message@ == fault_message(self@),
    {
        match self {
            ExtractError::SelectorRejected => String::from_str("Selector not accepted"),
            ExtractError::TableMissing => String::from_str("Could not find table tbody"),
            ExtractError::DailyRowMissing(key) => with_key("No daily data found for ", key),
            ExtractError::SandfordRowMissing(key) => with_key(
                "No Nicholas Sandford data found for ",
                key,
            ),
            ExtractError::WeeklyRowMissing(key) => with_key("No weekly data found for ", key),
        }
    }
}

} // verus!
