//! Reading the outcome of a Microsoft sign-in from the address that the
//! sign-in window has been sent to.

use vstd::prelude::*;
use vstd::string::StringExecFns;
use crate::text::{chars_of, contains_text, find, find_from, lemma_find_from, string_of_range};

verus! {

/// The value that follows the first `key` in `text`: everything up to the
/// next `&`, the next `key`, or the end, whichever comes first. `None` if
/// `key` does not occur.
pub open spec fn value_after(text: Seq<char>, key: Seq<char>) -> Option<Seq<char>> {
    match find_from(text, key, 0) {
        None => None,
        Some(at) => {
            let start = at + key.len();
            let next_key = match find_from(text, key, start) {
                Some(position) => position,
                None => text.len() as int,
            };
            let next_amp = match find_from(text, seq!['&'], start) {
                Some(position) => position,
                None => text.len() as int,
            };
            Some(
                text.subrange(
                    start,
                    if next_amp < next_key {
                        next_amp
                    } else {
                        next_key
                    },
                ),
            )
        },
    }
}

/// What a sign-in result means.
pub open spec fn outcome_view(outcome: Result<String, String>) -> Result<Seq<char>, Seq<char>> {
    match outcome {
        Ok(code) => Ok(code@),
        Err(message) => Err(message@),
    }
}

/// What a redirect address says: the authorisation code, or else the error
/// that the identity service reported, or else that there is neither.
pub open spec fn redirect_outcome(url: Seq<char>) -> Result<Seq<char>, Seq<char>> {
    match value_after(url, "code="@) {
        Some(code) => Ok(code),
        None => match value_after(url, "error="@) {
            Some(error) => Err("Microsoft authentication error: "@ + error),
            None => Err("No authorization code found in URL"@),
        },
    }
}

/// What the address of the sign-in window says while the sign-in is under
/// way: the code as soon as one shows; an error once the window has reached
/// the redirect page and the address names one; otherwise nothing yet.
pub open spec fn poll_outcome(url: Seq<char>) -> Option<Result<Seq<char>, Seq<char>>> {
    match value_after(url, "code="@) {
        Some(code) => Some(Ok(code)),
        None => {
            if contains_text(url, "login.live.com/oauth20_desktop.srf"@) {
                match value_after(url, "error="@) {
                    Some(error) => Some(Err("Microsoft authentication error: "@ + error)),
                    None => None,
                }
            } else {
                None
            }
        },
    }
}

fn value_of(text: &Vec<char>, key: &str) -> (value: Option<String>)
    ensures
        value_after(text@, key@) == match value {
            Some(found) => Some(found@),
            None => None,
        },
{
    let pattern = chars_of(key);
    let mut amp: Vec<char> = Vec::new();
    amp.push('&');
    match find(text, &pattern, 0) {
        None => None,
        Some(at) => {
            proof {
                lemma_find_from(text@, pattern@, 0);
            }
            let length = text.len();
            let start = at + pattern.len();
            proof {
                lemma_find_from(text@, pattern@, start as int);
                lemma_find_from(text@, amp@, start as int);
            }
            let next_key = match find(text, &pattern, start) {
                Some(position) => position,
                None => length,
            };
            let next_amp = match find(text, &amp, start) {
                Some(position) => position,
                None => length,
            };
            let stop = if next_amp < next_key {
                next_amp
            } else {
                next_key
            };
            Some(string_of_range(text, start, stop))
        },
    }
}

fn service_error(error: String) -> (message: String)
    ensures
        message@ == "Microsoft authentication error: "@ + error@,
{
    let mut message = String::from_str("Microsoft authentication error: ");
    message.append(error.as_str());
    message
}

/// Reads the authorisation code out of a redirect address.
pub fn extract_code_from_redirect_url(url: &str) -> (outcome: Result<String, String>)
    ensures
        outcome_view(outcome) == redirect_outcome(url@),
{
    let text = chars_of(url);
    match value_of(&text, "code=") {
        Some(code) => Ok(code),
        None => match value_of(&text, "error=") {
            Some(error) => Err(service_error(error)),
            None => Err(String::from_str("No authorization code found in URL")),
        },
    }
}

/// Looks at the address that the sign-in window shows right now.
pub fn poll_redirect_url(url: &str) -> (outcome: Option<Result<String, String>>)
    ensures
        poll_outcome(url@) == match outcome {
            Some(found) => Some(outcome_view(found)),
            None => None,
        },
{
    let text = chars_of(url);
    match value_of(&text, "code=") {
        Some(code) => Some(Ok(code)),
        None => {
            let page = chars_of("login.live.com/oauth20_desktop.srf");
            match find(&text, &page, 0) {
                None => None,
                Some(_) => match value_of(&text, "error=") {
                    Some(error) => Some(Err(service_error(error))),
                    None => None,
                },
            }
        },
    }
}

/// What to do next while waiting for a sign-in to end.
#[derive(Debug, PartialEq, Eq)]
pub enum AuthWait {
    /// The sign-in is over with this result; close the window if asked to.
    Finish { result: Result<String, String>, close_window: bool },
    /// Nothing yet: look again in a moment.
    Sleep,
}

/// What an `AuthWait` means.
pub enum AuthWaitView {
    Finish { result: Result<Seq<char>, Seq<char>>, close_window: bool },
    Sleep,
}

impl View for AuthWait {
    type V = AuthWaitView;

    open spec fn view(&self) -> AuthWaitView {
        match *self {
            AuthWait::Finish { result, close_window } => AuthWaitView::Finish {
                result: outcome_view(result),
                close_window,
            },
            AuthWait::Sleep => AuthWaitView::Sleep,
        }
    }
}

/// The longest that a sign-in may take, in milliseconds.
pub const AUTH_TIMEOUT_MS: u64 = 300000;

/// The next move of the wait: a result that has come in ends it; after more
/// than five minutes it ends with a timeout and the window is closed; a
/// window that is no longer shown ends it; otherwise the wait goes on.
pub open spec fn next_wait(
    outcome: Option<Result<Seq<char>, Seq<char>>>,
    waited_ms: u64,
    window_visible: bool,
) -> AuthWaitView {
    match outcome {
        Some(result) => AuthWaitView::Finish { result, close_window: false },
        None => {
            if waited_ms > AUTH_TIMEOUT_MS {
                AuthWaitView::Finish { result: Err("Authentication timeout"@), close_window: true }
            } else if !window_visible {
                AuthWaitView::Finish {
                    result: Err("Authentication window was closed"@),
                    close_window: false,
                }
            } else {
                AuthWaitView::Sleep
            }
        },
    }
}

/// Decides the next move of the wait for a sign-in.
pub fn open_microsoft_auth_modal(
    outcome: Option<Result<String, String>>,
    waited_ms: u64,
    window_visible: bool,
) -> (step: AuthWait)
    ensures
        step@ == next_wait(
            match outcome {
                Some(found) => Some(outcome_view(found)),
                None => None,
            },
            waited_ms,
            window_visible,
        ),
{
    match outcome {
        Some(result) => AuthWait::Finish { result, close_window: false },
        None => {
            if waited_ms > AUTH_TIMEOUT_MS {
                AuthWait::Finish {
                    result: Err(String::from_str("Authentication timeout")),
                    close_window: true,
                }
            } else if !window_visible {
                AuthWait::Finish {
                    result: Err(String::from_str("Authentication window was closed")),
                    close_window: false,
                }
            } else {
                AuthWait::Sleep
            }
        },
    }
}

} // verus!
