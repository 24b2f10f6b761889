//! The one error of a run: a statement that the database refused.

use vstd::prelude::*;
use vstd::string::StringExecFns;

verus! {

/// The error type of the database driver. The library carries such a value
/// from the driver to the caller and never looks inside.
#[verifier::external_type_specification]
#[verifier::external_body]
pub struct ExDriverError(sqlx::Error);

/// An error executing a migration.
#[derive(Debug)]
pub struct MigrationError {
    /// The statement that failed.
    pub statement: String,
    /// What the driver reported.
    pub error: sqlx::Error,
}

/// How the message of a [`MigrationError`] begins.
pub const MESSAGE_OPENING: &'static str = "Error executing sql \"";

/// What stands between the statement and the driver's words in the message
/// of a [`MigrationError`].
pub const MESSAGE_JOINT: &'static str = "\": ";

/// The message for a failed `statement` of which the driver said `detail`.
pub open spec fn failure_message(statement: Seq<char>, detail: Seq<char>) -> Seq<char> {
    MESSAGE_OPENING@ + statement + MESSAGE_JOINT@ + detail
}

/// Writes the message for a failed `statement` of which the driver said `detail`.
pub fn describe_failure(statement: &str, detail: &str) -> (message: String)
    ensures
        message@ == failure_message(statement@, detail@),
{
    let mut message = MESSAGE_OPENING.to_owned();
    message.append(statement);
    message.append(MESSAGE_JOINT);
    message.append(detail);
    message
}

/// Formats the driver's error with `sqlx::Error`'s implementation of
/// `Display`. Nothing is claimed of the text.
#[verifier::external_body]
fn driver_detail(error: &sqlx::Error) -> (detail: String) {
    format!("{}", error)
}

impl MigrationError {
    /// The message of the error: the failing statement in quotes, then the
    /// driver's own words.
    pub fn to_string(&self) -> (message: String)
        ensures
            exists|detail: Seq<char>| message@ == #[trigger] failure_message(self.statement@, detail),
    {
        let detail = driver_detail(&self.error);
        describe_failure(self.statement.as_str(), detail.as_str())
    }
}

} // verus!
