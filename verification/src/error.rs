//! Error helpers: a unified result type and small functions that turn
//! missing values and failed checks into errors carrying a message.

use vstd::prelude::*;

use crate::text::string_from;

verus! {

#[verifier::external_type_specification]
#[verifier::external_body]
pub struct ExAnyhowError(anyhow::Error);

/// A unified result type for engine operations.
pub type ChronosResult<T> = Result<T, anyhow::Error>;

/// An error whose message is `msg` (`anyhow::Error::msg`).
///
/// Nothing is stated of the error: its message is not visible to the
/// library.
#[verifier::external_body]
fn error_with_message(msg: String) -> anyhow::Error {
    anyhow::Error::msg(msg)
}

/// The value of `option`, or an error with the message `msg` when there is
/// none.
pub fn ensure<T>(option: Option<T>, msg: &str) -> (r: ChronosResult<T>)
    ensures
        option matches Some(v) ==> r matches Ok(x) && x == v,
        option is None ==> r is Err,
{
    match option {
        Some(v) => Ok(v),
        None => Err(error_with_message(string_from(msg))),
    }
}

/// `Ok` when `condition` holds, otherwise an error with the message `msg`.
pub fn ensure_or(condition: bool, msg: &str) -> (r: ChronosResult<()>)
    ensures
        r is Ok <==> condition,
{
    if condition {
        Ok(())
    } else {
        Err(error_with_message(string_from(msg)))
    }
}

/// The context text `failed to <action>: <target>`.
pub fn ctx(action: &str, target: &str) -> (s: String)
    ensures
        s@ == "failed to "@ + action@ + ": "@ + target@,
{
    let mut s = string_from("failed to ");
    s.append(action);
    s.append(": ");
    s.append(target);
    s
}

/// Convert a result whose error is a message into an engine result; the
/// error becomes `<msg>: <error>`.
pub fn from_display<T>(result: Result<T, String>, msg: &str) -> (r: ChronosResult<T>)
    ensures
        result matches Ok(v) ==> r matches Ok(x) && x == v,
        result is Err ==> r is Err,
{
    match result {
        Ok(v) => Ok(v),
        Err(e) => {
            let mut text = string_from(msg);
            text.append(": ");
            text.append(e.as_str());
            Err(error_with_message(text))
        },
    }
}

} // verus!
