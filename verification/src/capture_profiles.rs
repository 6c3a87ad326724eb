//! Comma-separated `WIDTHxHEIGHT` sampling grids, read into capture profiles.
use vstd::prelude::*;
use crate::capture::{profile_message, CaptureProfile};
use crate::text::{
    chars_of, parse_i32, parse_i32_exec, push_chars, push_str_chars, split_char, split_char_exec,
    split_once, split_once_exec, trim, trim_chars, views,
};

verus! {

broadcast use vstd::string::group_string_axioms;

/// The message for a grid without an `x`.
pub open spec fn grid_shape_message(grid: Seq<char>) -> Seq<char> {
    "invalid grid '"@ + grid + "', expected WIDTHxHEIGHT"@
}

/// The message for a grid whose width is not an `i32`.
pub open spec fn grid_width_message(grid: Seq<char>) -> Seq<char> {
    "invalid grid width in '"@ + grid + "'"@
}

/// The message for a grid whose height is not an `i32`.
pub open spec fn grid_height_message(grid: Seq<char>) -> Seq<char> {
    "invalid grid height in '"@ + grid + "'"@
}

/// One grid: split at its first `x` (else its first `X`), both sides read as `i32`, and the
/// size with `fps` a valid capture profile.
pub open spec fn grid_profile(grid: Seq<char>, fps: i32) -> Result<CaptureProfile, Seq<char>> {
    let parts = match split_once(grid, 'x') {
        Some(p) => Some(p),
        None => split_once(grid, 'X'),
    };
    match parts {
        None => Err(grid_shape_message(grid)),
        Some((w, h)) => match parse_i32(w) {
            None => Err(grid_width_message(grid)),
            Some(width) => match parse_i32(h) {
                None => Err(grid_height_message(grid)),
                Some(height) => if width > 0 && height > 0 && fps > 0 {
                    Ok(CaptureProfile { width, height, fps })
                } else {
                    Err("GStreamer error: "@ + profile_message(width as int, height as int, fps as int))
                },
            },
        },
    }
}

/// The profiles of the comma-separated pieces, each trimmed, blank ones skipped; the first
/// piece that is not a valid grid gives the error.
pub open spec fn grid_profiles(pieces: Seq<Seq<char>>, fps: i32) -> Result<Seq<CaptureProfile>, Seq<char>>
    decreases pieces.len(),
{
    if pieces.len() == 0 {
        Ok(Seq::empty())
    } else {
        match grid_profiles(pieces.drop_last(), fps) {
            Err(e) => Err(e),
            Ok(ps) => {
                let t = trim(pieces.last());
                if t.len() == 0 {
                    Ok(ps)
                } else {
                    match grid_profile(t, fps) {
                        Ok(p) => Ok(ps.push(p)),
                        Err(e) => Err(e),
                    }
                }
            },
        }
    }
}

/// `message` followed by `grid` and `tail`.
fn grid_message(message: &str, grid: &[char], tail: &str) -> (r: String)
    ensures
        r@ == message@ + grid@ + tail@,
{
    let mut m = String::new();
    push_str_chars(&mut m, message);
    push_chars(&mut m, grid);
    push_str_chars(&mut m, tail);
    m
}

/// One `WIDTHxHEIGHT` grid as a capture profile at `fps`.
pub fn parse_capture_profile(grid: &[char], fps: i32) -> (r: Result<CaptureProfile, String>)
    ensures
        match grid_profile(grid@, fps) {
            Ok(p) => r == Ok::<CaptureProfile, String>(p),
            Err(m) => r matches Err(e) && e@ == m,
        },
{
    let parts = match split_once_exec(grid, 'x') {
        Some(p) => Some(p),
        None => split_once_exec(grid, 'X'),
    };
    match parts {
        None => Err(grid_message("invalid grid '", grid, "', expected WIDTHxHEIGHT")),
        Some((w, h)) => match parse_i32_exec(&w) {
            None => Err(grid_message("invalid grid width in '", grid, "'")),
            Some(width) => match parse_i32_exec(&h) {
                None => Err(grid_message("invalid grid height in '", grid, "'")),
                Some(height) => match CaptureProfile::new(width, height, fps) {
                    Ok(p) => Ok(p),
                    Err(e) => Err(e.message()),
                },
            },
        },
    }
}

/// The capture profiles of a comma-separated list of `WIDTHxHEIGHT` grids at `fps`.
pub fn parse_capture_profiles(grids: &str, fps: i32) -> (r: Result<Vec<CaptureProfile>, String>)
    ensures
        match grid_profiles(split_char(grids@, ','), fps) {
            Ok(ps) => r matches Ok(v) && v@ == ps,
            Err(m) => r matches Err(e) && e@ == m,
        },
{
    let c = chars_of(grids);
    let pieces = split_char_exec(&c, ',');
    let ghost all = views(pieces@);
    let mut out: Vec<CaptureProfile> = Vec::new();
    for i in 0..pieces.len()
        invariant
            all == views(pieces@),
            all == split_char(grids@, ','),
            grid_profiles(all.take(i as int), fps) == Ok::<Seq<CaptureProfile>, Seq<char>>(out@),
    {
        assert(all.take(i + 1).drop_last() =~= all.take(i as int));
        assert(all[i as int] == pieces@[i as int]@);
        let t = trim_chars(&pieces[i]);
        if t.len() > 0 {
            match parse_capture_profile(&t, fps) {
                Ok(p) => out.push(p),
                Err(e) => {
                    proof {
                        lemma_error_stays(all, i as int + 1, pieces.len() as int, fps);
                        assert(all.take(pieces.len() as int) =~= all);
                    }
                    return Err(e);
                },
            }
        }
    }
    assert(all.take(pieces.len() as int) =~= all);
    Ok(out)
}

/// Once a prefix of the pieces fails, every longer prefix fails with the same error.
proof fn lemma_error_stays(pieces: Seq<Seq<char>>, k: int, n: int, fps: i32)
    requires
        0 <= k <= n <= pieces.len(),
        grid_profiles(pieces.take(k), fps) is Err,
    ensures
        grid_profiles(pieces.take(n), fps) == grid_profiles(pieces.take(k), fps),
    decreases n - k,
{
    if n > k {
        lemma_error_stays(pieces, k, n - 1, fps);
        assert(pieces.take(n).drop_last() =~= pieces.take(n - 1));
    }
}

} // verus!
