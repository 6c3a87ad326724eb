//! The capture backend recommended after probing the CPU and the GL capture paths: the CPU
//! path when it delivered usable frames, else the GL path when it did, else the CPU path as
//! the stable default.
use vstd::prelude::*;
use crate::text::push_str_chars;

verus! {

broadcast use vstd::string::group_string_axioms;

/// What probing one capture backend found, as far as the recommendation reads it: whether
/// the probe failed, how many frames it accepted, and whether they were dark.
#[derive(Debug, Clone, Copy, PartialEq, Eq, Structural)]
pub struct ProbeOutcome {
    pub failed: bool,
    pub frames: u32,
    pub dark: bool,
}

/// A probe that ran, accepted frames, and did not find them dark.
pub open spec fn probe_usable(p: ProbeOutcome) -> bool {
    !p.failed && p.frames > 0 && !p.dark
}

impl ProbeOutcome {
    /// Whether the backend can be used.
    pub fn usable(self) -> (r: bool)
        ensures
            r == probe_usable(self),
    {
        !self.failed && self.frames > 0 && !self.dark
    }
}

/// The recommended backend: `cpu` when it is usable, else `gl` when it is, else `cpu`.
pub open spec fn recommended(cpu: ProbeOutcome, gl: ProbeOutcome) -> Seq<char> {
    if probe_usable(cpu) {
        "cpu"@
    } else if probe_usable(gl) {
        "gl"@
    } else {
        "cpu"@
    }
}

/// Why that backend is recommended.
pub open spec fn recommendation_reason(cpu: ProbeOutcome, gl: ProbeOutcome) -> Seq<char> {
    if probe_usable(cpu) {
        "usable_stable_default"@
    } else if probe_usable(gl) {
        "cpu_unusable_gl_usable"@
    } else {
        "no_usable_backend_keep_stable_default"@
    }
}

/// The recommended capture backend after probing both.
pub fn recommended_backend(cpu: &ProbeOutcome, gl: &ProbeOutcome) -> (r: &'static str)
    ensures
        r@ == recommended(*cpu, *gl),
{
    if cpu.usable() {
        "cpu"
    } else if gl.usable() {
        "gl"
    } else {
        "cpu"
    }
}

/// The line that reports the recommendation:
/// `backend_probe_recommendation backend=<backend> reason=<reason>`.
pub fn render_backend_recommendation(cpu: &ProbeOutcome, gl: &ProbeOutcome) -> (r: String)
    ensures
        r@ == "backend_probe_recommendation backend="@ + recommended(*cpu, *gl) + " reason="@
            + recommendation_reason(*cpu, *gl),
{
    let backend = recommended_backend(cpu, gl);
    let reason = if cpu.usable() {
        "usable_stable_default"
    } else if gl.usable() {
        "cpu_unusable_gl_usable"
    } else {
        "no_usable_backend_keep_stable_default"
    };
    let mut line = String::new();
    push_str_chars(&mut line, "backend_probe_recommendation backend=");
    push_str_chars(&mut line, backend);
    push_str_chars(&mut line, " reason=");
    push_str_chars(&mut line, reason);
    line
}

/// A usable CPU path is always the one recommended; the GL path only when the CPU path is
/// unusable and the GL path usable.
pub proof fn law_backend_recommendation_is_conservative(cpu: ProbeOutcome, gl: ProbeOutcome)
    ensures
        probe_usable(cpu) ==> recommended(cpu, gl) == "cpu"@,
        recommended(cpu, gl) == "gl"@ <==> (!probe_usable(cpu) && probe_usable(gl)),
{
    reveal_strlit("cpu");
    reveal_strlit("gl");
    assert("cpu"@.len() != "gl"@.len());
}

} // verus!
