//! Checks of command-line values shared by the commands and the presets.
use vstd::prelude::*;
use crate::text::{
    chars_of, parse_u64, parse_u64_exec, push_chars, push_str_chars, split_char,
    split_char_exec, trim, trim_chars, views,
};

verus! {

broadcast use vstd::string::group_string_axioms;

/// The message for a zero frame rate named `name`.
pub open spec fn zero_fps_message(name: Seq<char>) -> Seq<char> {
    name + " must be greater than zero"@
}

/// Rejects a frame rate of zero; `name` is the option's name in the message.
pub fn validate_fps(name: &str, fps: u8) -> (r: Result<(), String>)
    ensures
        fps == 0 ==> (r matches Err(e) && e@ == zero_fps_message(name@)),
        fps != 0 ==> r is Ok,
{
    if fps == 0 {
        let mut msg = String::new();
        push_str_chars(&mut msg, name);
        push_str_chars(&mut msg, " must be greater than zero");
        return Err(msg);
    }
    Ok(())
}

/// The complaint about a capture poll interval in milliseconds, if any: it must lie in
/// `1..=100`.
pub open spec fn poll_value_error(v: u64) -> Option<Seq<char>> {
    if v == 0 {
        Some("capture-poll-ms must be greater than zero"@)
    } else if v > 100 {
        Some("capture-poll-ms must be lower than or equal to 100"@)
    } else {
        None
    }
}

/// Accepts capture poll intervals of 1 to 100 milliseconds.
pub fn validate_capture_poll_ms(capture_poll_ms: u64) -> (r: Result<(), String>)
    ensures
        match poll_value_error(capture_poll_ms) {
            Some(m) => r matches Err(e) && e@ == m,
            None => r is Ok,
        },
{
    if capture_poll_ms == 0 {
        return Err("capture-poll-ms must be greater than zero".to_string());
    }
    if capture_poll_ms > 100 {
        return Err("capture-poll-ms must be lower than or equal to 100".to_string());
    }
    Ok(())
}

/// The message for a list entry that is no number.
pub open spec fn invalid_poll_message(value: Seq<char>) -> Seq<char> {
    "invalid capture poll value: "@ + value
}

/// The message for a list without any value.
pub open spec fn empty_poll_list_message() -> Seq<char> {
    "at least one capture poll value is required"@
}

/// The values of comma-separated pieces, in order: blank pieces are skipped, and the first
/// piece that is no number or no valid interval gives the error.
pub open spec fn poll_values(pieces: Seq<Seq<char>>) -> Result<Seq<u64>, Seq<char>>
    decreases pieces.len(),
{
    if pieces.len() == 0 {
        Ok(Seq::empty())
    } else {
        match poll_values(pieces.drop_last()) {
            Err(e) => Err(e),
            Ok(prev) => {
                let t = trim(pieces.last());
                if t.len() == 0 {
                    Ok(prev)
                } else {
                    match parse_u64(t) {
                        None => Err(invalid_poll_message(t)),
                        Some(v) => match poll_value_error(v) {
                            Some(e) => Err(e),
                            None => Ok(prev.push(v)),
                        },
                    }
                }
            },
        }
    }
}

/// A comma-separated list of capture poll intervals, at least one.
pub open spec fn poll_list(text: Seq<char>) -> Result<Seq<u64>, Seq<char>> {
    match poll_values(split_char(text, ',')) {
        Ok(v) => if v.len() == 0 {
            Err(empty_poll_list_message())
        } else {
            Ok(v)
        },
        Err(e) => Err(e),
    }
}

/// Once a prefix of the pieces fails, the whole list fails with the same message.
proof fn lemma_poll_error_persists(p: Seq<Seq<char>>, i: int, e: Seq<char>)
    requires
        0 <= i <= p.len(),
        poll_values(p.take(i)) == Err::<Seq<u64>, Seq<char>>(e),
    ensures
        poll_values(p) == Err::<Seq<u64>, Seq<char>>(e),
    decreases p.len() - i,
{
    if i < p.len() {
        assert(p.take(i + 1).drop_last() =~= p.take(i));
        lemma_poll_error_persists(p, i + 1, e);
    } else {
        assert(p.take(i) =~= p);
    }
}

/// Parses a comma-separated list of capture poll intervals such as `5, 8,20`.
pub fn parse_capture_poll_ms_list(values: &str) -> (r: Result<Vec<u64>, String>)
    ensures
        match (r, poll_list(values@)) {
            (Ok(v), Ok(w)) => v@ == w,
            (Err(e), Err(m)) => e@ == m,
            _ => false,
        },
{
    let chars = chars_of(values);
    let pieces = split_char_exec(&chars, ',');
    let ghost pv = views(pieces@);
    let mut out: Vec<u64> = Vec::new();
    assert(pv.take(0) =~= Seq::<Seq<char>>::empty());
    for i in 0..pieces.len()
        invariant
            pv == views(pieces@),
            pv == split_char(values@, ','),
            poll_values(pv.take(i as int)) == Ok::<Seq<u64>, Seq<char>>(out@),
    {
        assert(pv.take(i + 1).drop_last() =~= pv.take(i as int));
        assert(pv.take(i + 1).last() == pieces@[i as int]@);
        let t = trim_chars(&pieces[i]);
        if t.len() > 0 {
            match parse_u64_exec(&t) {
                None => {
                    let mut msg = String::new();
                    push_str_chars(&mut msg, "invalid capture poll value: ");
                    push_chars(&mut msg, &t);
                    proof {
                        lemma_poll_error_persists(pv, i + 1, msg@);
                    }
                    return Err(msg);
                },
                Some(v) => match validate_capture_poll_ms(v) {
                    Err(e) => {
                        proof {
                            lemma_poll_error_persists(pv, i + 1, e@);
                        }
                        return Err(e);
                    },
                    Ok(()) => {
                        out.push(v);
                    },
                },
            }
        }
    }
    assert(pv.take(pieces.len() as int) =~= pv);
    if out.len() == 0 {
        return Err("at least one capture poll value is required".to_string());
    }
    Ok(out)
}

} // verus!
