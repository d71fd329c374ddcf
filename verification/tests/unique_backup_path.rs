use dbdm::unique_backup_path;

#[test]
fn increments_backup_suffix_when_conflict_exists() {
    let dir = "/backups";

    let mut existing: Vec<String> = vec![String::from("nvim.bak.dbdm")];

    let candidate = unique_backup_path(dir, "nvim", &existing);
    assert_eq!(candidate, "/backups/nvim.bak.dbdm.1");

    existing.push(String::from("nvim.bak.dbdm.1"));
    let next_candidate = unique_backup_path(dir, "nvim", &existing);
    assert_eq!(next_candidate, "/backups/nvim.bak.dbdm.2");
}

#[test]
fn uses_plain_marker_when_nothing_clashes() {
    let existing: Vec<String> = vec![String::from("unrelated")];
    let candidate = unique_backup_path("/b", "notes", &existing);
    assert_eq!(candidate, "/b/notes.bak.dbdm");
}

#[test]
fn skips_a_long_run_of_taken_names() {
    let existing: Vec<String> = vec![
        String::from("x.bak.dbdm"),
        String::from("x.bak.dbdm.1"),
        String::from("x.bak.dbdm.2"),
        String::from("x.bak.dbdm.3"),
    ];
    let candidate = unique_backup_path("/d", "x", &existing);
    assert_eq!(candidate, "/d/x.bak.dbdm.4");
}
