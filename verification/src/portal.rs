//! What the screen-cast portal hands over: the chosen streams and the token that lets the
//! same choice be restored without asking again.
use vstd::prelude::*;
use crate::sync_mode::opt_view;
use crate::text::{string_of, trim, trim_str};

verus! {

broadcast use vstd::string::group_string_axioms;

/// One stream chosen in the portal: its PipeWire node and, when known, its size and position.
#[derive(Debug, Clone, Copy)]
pub struct PortalStreamInfo {
    pub pipewire_node_id: u32,
    pub size: Option<(i32, i32)>,
    pub position: Option<(i32, i32)>,
}

/// The screen-cast portal; its requests are made by the application around this library.
#[derive(Debug, Clone, Copy)]
pub struct PortalScreenCast;

/// A restore token as it is stored and sent: trimmed, and none when blank.
pub open spec fn restore_token(token: Option<Seq<char>>) -> Option<Seq<char>> {
    match token {
        Some(t) => if trim(t).len() > 0 {
            Some(trim(t))
        } else {
            None
        },
        None => None,
    }
}

/// Trims a restore token and drops a blank one.
pub fn normalize_restore_token(token: Option<&str>) -> (r: Option<String>)
    ensures
        match restore_token(opt_view(token)) {
            Some(t) => r matches Some(s) && s@ == t,
            None => r is None,
        },
{
    match token {
        None => None,
        Some(t) => {
            let c = trim_str(t);
            if c.len() == 0 {
                None
            } else {
                Some(string_of(&c))
            }
        },
    }
}

} // verus!
