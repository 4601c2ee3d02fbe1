use rewind::git::{
    branch_label, format_log, format_status, get_exclusions, CommitSummary, DiffText, HeadState,
    RepoState, StatusEntry, StatusFlags, MAX_GIT_DIFF_BYTES, MAX_GIT_STATUS_BYTES,
};

fn flags() -> StatusFlags {
    StatusFlags {
        index_new: false,
        index_modified: false,
        index_deleted: false,
        index_renamed: false,
        index_typechange: false,
        wt_new: false,
        wt_modified: false,
        wt_deleted: false,
        wt_renamed: false,
        wt_typechange: false,
        conflicted: false,
    }
}

#[test]
fn status_codes() {
    let mut f = flags();
    f.index_modified = true;
    f.wt_deleted = true;
    assert_eq!(rewind::git::status_code(f), ('M', 'D'));
    let mut f = flags();
    f.wt_new = true;
    f.index_new = true;
    assert_eq!(rewind::git::status_code(f), ('?', '?'));
    let mut f = flags();
    f.conflicted = true;
    f.wt_new = true;
    assert_eq!(rewind::git::status_code(f), ('U', 'U'));
    assert_eq!(rewind::git::status_code(flags()), (' ', ' '));
    let mut f = flags();
    f.index_new = true;
    f.index_modified = true;
    assert_eq!(rewind::git::status_code(f), ('A', ' '));
}

#[test]
fn status_listing_lines() {
    let mut a = flags();
    a.index_new = true;
    let mut b = flags();
    b.wt_modified = true;
    let entries = vec![
        StatusEntry { path: "src/new.rs".to_string(), flags: a },
        StatusEntry { path: "README.md".to_string(), flags: b },
    ];
    assert_eq!(format_status(&entries), "A  src/new.rs\n M README.md\n");
    assert_eq!(format_status(&Vec::new()), "");
}

#[test]
fn status_listing_is_cut_past_the_limit() {
    let mut f = flags();
    f.wt_new = true;
    let long = "p".repeat(MAX_GIT_STATUS_BYTES);
    let entries = vec![
        StatusEntry { path: long.clone(), flags: f },
        StatusEntry { path: "x".to_string(), flags: f },
        StatusEntry { path: "y".to_string(), flags: f },
    ];
    assert_eq!(
        format_status(&entries),
        format!("?? {}\n... [Status truncated due to length] ...\n", long)
    );
    // At the limit exactly, the next entry is still listed.
    let exact = "q".repeat(MAX_GIT_STATUS_BYTES - 4);
    let entries = vec![
        StatusEntry { path: exact.clone(), flags: f },
        StatusEntry { path: "x".to_string(), flags: f },
    ];
    assert_eq!(format_status(&entries), format!("?? {}\n?? x\n", exact));
}

#[test]
fn branch_labels() {
    assert_eq!(branch_label(HeadState::Unreadable), "No commits yet");
    assert_eq!(branch_label(HeadState::Detached), "HEAD (detached)");
    assert_eq!(
        branch_label(HeadState::Branch {
            shorthand: Some("main".to_string())
        }),
        "main"
    );
    assert_eq!(branch_label(HeadState::Branch { shorthand: None }), "");
}

#[test]
fn log_lines_use_short_ids() {
    let commits = vec![
        CommitSummary {
            id: "0123456789abcdef0123456789abcdef01234567".to_string(),
            summary: "first".to_string(),
        },
        CommitSummary {
            id: "fedcba9876543210fedcba9876543210fedcba98".to_string(),
            summary: "second".to_string(),
        },
    ];
    assert_eq!(format_log(&commits), "0123456 first\nfedcba9 second\n");
}

#[test]
fn log_shows_at_most_five_commits() {
    let commits: Vec<CommitSummary> = (0..7)
        .map(|i| CommitSummary {
            id: format!("{}abcdef0123", i),
            summary: format!("c{}", i),
        })
        .collect();
    assert_eq!(
        format_log(&commits),
        "0abcdef c0\n1abcdef c1\n2abcdef c2\n3abcdef c3\n4abcdef c4\n"
    );
}

#[test]
fn diff_text_collects_and_cuts() {
    let mut d = DiffText::new();
    assert!(d.push_line('F', "diff --git a/x b/x\n"));
    assert!(d.push_line('+', "added\n"));
    assert!(d.push_line('-', "removed\n"));
    assert!(d.push_line(' ', "kept\n"));
    assert_eq!(d.finish(), "diff --git a/x b/x\n+added\n-removed\n kept\n");

    let mut d = DiffText::new();
    let big = "z".repeat(MAX_GIT_DIFF_BYTES);
    assert!(d.push_line('H', &big));
    assert!(!d.push_line('+', "a"));
    assert!(!d.push_line('+', ""));
    assert_eq!(
        d.finish(),
        format!("{}\n... [Diff truncated due to length] ...\n", big)
    );
}

#[test]
fn repo_state_parts_are_trimmed() {
    let s = RepoState::from_parts(" main\n", "?? a\n", "abc x\n", "\n+d\n", "", "/r".to_string());
    assert_eq!(s.branch, "main");
    assert_eq!(s.status, "?? a");
    assert_eq!(s.log, "abc x");
    assert_eq!(s.diff, "+d");
    assert_eq!(s.diff_cached, "");
    assert_eq!(s.root, "/r");
}

#[test]
fn exclusions_from_defaults_and_ignore_files() {
    let none = get_exclusions(None, None);
    assert_eq!(none.len(), 22);
    assert_eq!(none[0], ":!.env");
    assert_eq!(none[21], ":!.rewind-brief.md");
    assert!(none.iter().all(|e| e.starts_with(":!")));

    let all = get_exclusions(
        Some("# comment\n  build/  \n\n*.log\r\n"),
        Some("secret.txt\n   # not a pattern"),
    );
    assert_eq!(all.len(), 25);
    assert_eq!(all[22], ":!build/");
    assert_eq!(all[23], ":!*.log");
    assert_eq!(all[24], ":!secret.txt");
}
