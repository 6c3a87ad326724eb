use lumaway::profile_env::available_profile_names;

fn names(files: &[&str]) -> Vec<String> {
    let files: Vec<String> = files.iter().map(|f| f.to_string()).collect();
    available_profile_names(&files)
}

#[test]
fn available_profiles_returns_sorted_env_files_only() {
    assert_eq!(names(&["zeta.env", "alpha.env", "README.txt"]), vec!["alpha", "zeta"]);
}

#[test]
fn profile_listing_skips_names_that_are_not_profiles() {
    assert_eq!(names(&[".env", "..env", "a b.env", "tv.env.bak", "Desk.env", "desk.env"]), vec!["Desk", "a b", "desk"]);
    assert!(names(&[]).is_empty());
}
