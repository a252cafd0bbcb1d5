use generic_build::placement::{decimal_text, place_license, placement_action, LicenseEntry, PlacementAction};

fn entry(name: &str, backup: u64) -> LicenseEntry {
    LicenseEntry { name: name.to_string(), backup }
}

fn view(listing: &[LicenseEntry]) -> Vec<(String, u64)> {
    listing.iter().map(|e| (e.name.clone(), e.backup)).collect()
}

#[test]
fn first_copy_takes_bare_name() {
    let mut dir: Vec<LicenseEntry> = Vec::new();
    assert!(matches!(placement_action(&dir, "COPYRIGHT"), PlacementAction::PlaceBare));
    place_license(&mut dir, "COPYRIGHT");
    assert_eq!(view(&dir), vec![("COPYRIGHT".to_string(), 0)]);
}

#[test]
fn two_same_named_files_keep_both() {
    let mut dir: Vec<LicenseEntry> = Vec::new();
    place_license(&mut dir, "COPYRIGHT");
    assert!(matches!(placement_action(&dir, "COPYRIGHT"), PlacementAction::RenameExisting(1)));
    place_license(&mut dir, "COPYRIGHT");
    // the earlier file is kept as COPYRIGHT.~1~, the later one holds the bare name
    assert_eq!(view(&dir), vec![("COPYRIGHT".to_string(), 1), ("COPYRIGHT".to_string(), 0)]);
}

#[test]
fn n_same_named_files_get_n_distinct_names() {
    let mut dir: Vec<LicenseEntry> = Vec::new();
    for _ in 0..6 {
        place_license(&mut dir, "COPYRIGHT");
    }
    let mut backups: Vec<u64> = dir.iter().map(|e| e.backup).collect();
    backups.sort();
    assert_eq!(backups, vec![0, 1, 2, 3, 4, 5]);
    assert!(dir.iter().all(|e| e.name == "COPYRIGHT"));
}

#[test]
fn existing_backup_moves_next_copy_to_two() {
    let mut dir = vec![entry("COPYRIGHT", 0), entry("COPYRIGHT", 1)];
    assert!(matches!(placement_action(&dir, "COPYRIGHT"), PlacementAction::RenameExisting(2)));
    place_license(&mut dir, "COPYRIGHT");
    assert_eq!(
        view(&dir),
        vec![("COPYRIGHT".to_string(), 2), ("COPYRIGHT".to_string(), 1), ("COPYRIGHT".to_string(), 0)]
    );
}

#[test]
fn backup_number_follows_highest_not_first_gap() {
    let mut dir = vec![entry("LICENSE", 3), entry("LICENSE", 0)];
    place_license(&mut dir, "LICENSE");
    assert_eq!(
        view(&dir),
        vec![("LICENSE".to_string(), 3), ("LICENSE".to_string(), 4), ("LICENSE".to_string(), 0)]
    );
}

#[test]
fn other_names_are_left_alone() {
    let mut dir = vec![entry("LICENSE", 0), entry("COPYRIGHT", 7)];
    assert!(matches!(placement_action(&dir, "COPYRIGHT"), PlacementAction::PlaceBare));
    place_license(&mut dir, "COPYRIGHT");
    assert_eq!(
        view(&dir),
        vec![("LICENSE".to_string(), 0), ("COPYRIGHT".to_string(), 7), ("COPYRIGHT".to_string(), 0)]
    );
}

#[test]
fn stored_names_use_numbered_suffix() {
    assert_eq!(entry("COPYRIGHT", 0).file_name(), "COPYRIGHT");
    assert_eq!(entry("COPYRIGHT", 1).file_name(), "COPYRIGHT.~1~");
    assert_eq!(entry("COPYRIGHT", 2).file_name(), "COPYRIGHT.~2~");
    assert_eq!(entry("LICENSE", 120).file_name(), "LICENSE.~120~");
}

#[test]
fn decimal_text_exact() {
    assert_eq!(decimal_text(0), "0");
    assert_eq!(decimal_text(7), "7");
    assert_eq!(decimal_text(10), "10");
    assert_eq!(decimal_text(1905), "1905");
    assert_eq!(decimal_text(u64::MAX), "18446744073709551615");
}

#[test]
fn scenario_existing_backup_gives_copyright_two() {
    let mut dir = vec![entry("COPYRIGHT", 0), entry("COPYRIGHT", 1)];
    place_license(&mut dir, "COPYRIGHT");
    let names: Vec<String> = dir.iter().map(|e| e.file_name()).collect();
    assert!(names.contains(&"COPYRIGHT".to_string()));
    assert!(names.contains(&"COPYRIGHT.~2~".to_string()));
    assert!(names.contains(&"COPYRIGHT.~1~".to_string()));
}

#[test]
fn many_copies_have_distinct_stored_names() {
    let mut dir: Vec<LicenseEntry> = Vec::new();
    for _ in 0..12 {
        place_license(&mut dir, "COPYRIGHT");
    }
    let mut names: Vec<String> = dir.iter().map(|e| e.file_name()).collect();
    names.sort();
    names.dedup();
    assert_eq!(names.len(), 12);
    assert!(names.contains(&"COPYRIGHT.~11~".to_string()));
}
