use lumaway::backend_probe::{recommended_backend, render_backend_recommendation, ProbeOutcome};

fn probe(failed: bool, frames: u32, dark: bool) -> ProbeOutcome {
    ProbeOutcome { failed, frames, dark }
}

#[test]
fn recommends_usable_cpu_first() {
    let cpu = probe(false, 5, false);
    let gl = probe(false, 5, false);
    assert_eq!(recommended_backend(&cpu, &gl), "cpu");
    assert_eq!(
        render_backend_recommendation(&cpu, &gl),
        "backend_probe_recommendation backend=cpu reason=usable_stable_default"
    );
}

#[test]
fn recommends_gl_only_when_cpu_is_unusable() {
    let cpu = probe(false, 5, true);
    let gl = probe(false, 5, false);
    assert_eq!(recommended_backend(&cpu, &gl), "gl");
    assert_eq!(
        render_backend_recommendation(&cpu, &gl),
        "backend_probe_recommendation backend=gl reason=cpu_unusable_gl_usable"
    );
}

#[test]
fn keeps_cpu_when_nothing_is_usable() {
    let cpu = probe(true, 0, true);
    let gl = probe(false, 0, false);
    assert_eq!(recommended_backend(&cpu, &gl), "cpu");
    assert_eq!(
        render_backend_recommendation(&cpu, &gl),
        "backend_probe_recommendation backend=cpu reason=no_usable_backend_keep_stable_default"
    );
}
