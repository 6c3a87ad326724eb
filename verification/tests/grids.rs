use lumaway::capture::CaptureProfile;
use lumaway::capture_profiles::parse_capture_profiles;
use lumaway::text::parse_i32_exec;

fn chars(s: &str) -> Vec<char> {
    s.chars().collect()
}

fn profile(width: i32, height: i32, fps: i32) -> CaptureProfile {
    CaptureProfile { width, height, fps }
}

#[test]
fn parses_default_bench_grids() {
    let profiles = parse_capture_profiles("80x45,120x68,160x90,240x135", 10).unwrap();
    assert_eq!(
        profiles,
        vec![profile(80, 45, 10), profile(120, 68, 10), profile(160, 90, 10), profile(240, 135, 10)]
    );
}

#[test]
fn grid_pieces_are_trimmed_and_blank_pieces_skipped() {
    let profiles = parse_capture_profiles(" 80X45 , ,120x68,", 25).unwrap();
    assert_eq!(profiles, vec![profile(80, 45, 25), profile(120, 68, 25)]);
    assert_eq!(parse_capture_profiles("", 25).unwrap(), Vec::new());
}

#[test]
fn grid_errors_name_the_first_bad_piece() {
    assert_eq!(
        parse_capture_profiles("80x45,wide,1x", 10).unwrap_err(),
        "invalid grid 'wide', expected WIDTHxHEIGHT"
    );
    assert_eq!(parse_capture_profiles("80 x45", 10).unwrap_err(), "invalid grid width in '80 x45'");
    assert_eq!(parse_capture_profiles("80x", 10).unwrap_err(), "invalid grid height in '80x'");
    assert_eq!(
        parse_capture_profiles("-5x10", 10).unwrap_err(),
        "GStreamer error: invalid capture profile: -5x10@10"
    );
    assert_eq!(
        parse_capture_profiles("5x10", 0).unwrap_err(),
        "GStreamer error: invalid capture profile: 5x10@0"
    );
}

#[test]
fn parses_i32_like_std() {
    for text in ["0", "+7", "-0", "-2147483648", "2147483647", "", "-", "+", "-+1", "2147483648", "-2147483649", "1e3", " 1"] {
        assert_eq!(parse_i32_exec(&chars(text)), text.parse::<i32>().ok(), "{text:?}");
    }
}
