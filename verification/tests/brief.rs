use rewind::brief::{brief_file_content, gitignore_entry, gitignore_needs_entry, BRIEF_FILENAME};

#[test]
fn brief_file_layout() {
    assert_eq!(
        brief_file_content("All good."),
        "# Rewind Brief\n\nAll good.\n\n*(Generated by `rewind`)*\n"
    );
}

#[test]
fn gitignore_entry_added_once() {
    assert!(gitignore_needs_entry(None));
    assert!(gitignore_needs_entry(Some("target/\n")));
    let with = format!("target/\n{}", gitignore_entry());
    assert_eq!(gitignore_entry(), "\n# Rewind\n.rewind-brief.md\n");
    assert!(!gitignore_needs_entry(Some(&with)));
    assert!(!gitignore_needs_entry(Some(BRIEF_FILENAME)));
}
