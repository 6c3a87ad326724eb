//! How a command reports a run together with the cleanup that follows it (stopping the
//! capture, deactivating the entertainment area).
use vstd::prelude::*;
use crate::text::push_str_chars;

verus! {

broadcast use vstd::string::group_string_axioms;

/// The note added to an error when the cleanup after it failed as well: the capture stop's
/// error first, then the deactivation's.
pub open spec fn cleanup_note(stop_error: Option<Seq<char>>, deactivate_error: Option<Seq<char>>) -> Option<Seq<char>> {
    match (stop_error, deactivate_error) {
        (None, None) => None,
        (Some(s), None) => Some("also failed to stop capture: "@ + s),
        (None, Some(d)) => Some("also failed to deactivate: "@ + d),
        (Some(s), Some(d)) => Some(
            "also failed to stop capture: "@ + s + "; also failed to deactivate: "@ + d,
        ),
    }
}

/// The note for the cleanup failures after an error, if any.
pub fn cleanup_failure_note(stop_error: Option<&str>, deactivate_error: Option<&str>) -> (r: Option<String>)
    ensures
        match cleanup_note(
            match stop_error {
                Some(s) => Some(s@),
                None => None,
            },
            match deactivate_error {
                Some(d) => Some(d@),
                None => None,
            },
        ) {
            Some(n) => r matches Some(t) && t@ == n,
            None => r is None,
        },
{
    match (stop_error, deactivate_error) {
        (None, None) => None,
        (Some(s), None) => {
            let mut t = String::new();
            push_str_chars(&mut t, "also failed to stop capture: ");
            push_str_chars(&mut t, s);
            Some(t)
        },
        (None, Some(d)) => {
            let mut t = String::new();
            push_str_chars(&mut t, "also failed to deactivate: ");
            push_str_chars(&mut t, d);
            Some(t)
        },
        (Some(s), Some(d)) => {
            let mut t = String::new();
            push_str_chars(&mut t, "also failed to stop capture: ");
            push_str_chars(&mut t, s);
            push_str_chars(&mut t, "; also failed to deactivate: ");
            push_str_chars(&mut t, d);
            Some(t)
        },
    }
}

/// A run followed by its cleanup steps reports the run's own error first, then the
/// capture stop's, then the deactivation's; the run's value when all succeeded.
pub fn run_then_cleanup<T, E>(run: Result<T, E>, stop: Result<(), E>, deactivate: Result<(), E>) -> (r: Result<T, E>)
    ensures
        r == match run {
            Err(e) => Err(e),
            Ok(t) => match stop {
                Err(e) => Err(e),
                Ok(_) => match deactivate {
                    Err(e) => Err(e),
                    Ok(_) => Ok(t),
                },
            },
        },
{
    match run {
        Err(e) => Err(e),
        Ok(t) => match stop {
            Err(e) => Err(e),
            Ok(_) => match deactivate {
                Err(e) => Err(e),
                Ok(_) => Ok(t),
            },
        },
    }
}

} // verus!
