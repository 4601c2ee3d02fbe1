use rewind::error::RewindError;
use rewind::git::{RepoState, MAX_GIT_DIFF_BYTES};
use rewind::prompts::{
    analysis_system_prompt, build_user_prompt, commit_prompt, count_words, estimate_tokens,
    question_system_prompt, question_user_prompt, truncate_lines, PLAIN_CONSTRAINT,
    QUESTION_SYSTEM_PROMPT, SHORT_CONSTRAINT, SYSTEM_PROMPT,
};

fn state(diff: &str, diff_cached: &str) -> RepoState {
    RepoState {
        root: "/mock/root".to_string(),
        branch: "main".to_string(),
        status: "## main".to_string(),
        log: "abc1234 initial commit".to_string(),
        diff: diff.to_string(),
        diff_cached: diff_cached.to_string(),
    }
}

#[test]
fn test_build_user_prompt_basic() {
    let state = RepoState {
        root: "/mock/root".to_string(),
        branch: "main".to_string(),
        status: "## main".to_string(),
        log: "abc1234 initial commit".to_string(),
        diff: String::new(),
        diff_cached: String::new(),
    };
    let prompt = build_user_prompt(&state);
    assert!(prompt.contains("Branch: main"));
    assert!(prompt.contains("abc1234"));
    assert!(!prompt.contains("Staged Changes"));
    assert!(!prompt.contains("Unstaged Changes"));
}

#[test]
fn test_build_user_prompt_with_diffs() {
    let state = RepoState {
        root: "/mock/root".to_string(),
        branch: "feature".to_string(),
        status: "M src/lib.rs".to_string(),
        log: "def5678 add feature".to_string(),
        diff: "+new line".to_string(),
        diff_cached: "+staged line".to_string(),
    };
    let prompt = build_user_prompt(&state);
    assert!(prompt.contains("Staged Changes"));
    assert!(prompt.contains("+staged line"));
    assert!(prompt.contains("Unstaged Changes"));
    assert!(prompt.contains("+new line"));
}

#[test]
fn user_prompt_exact_text() {
    assert_eq!(
        build_user_prompt(&state("+u", "+s")),
        "Repository State:\n- Branch: main\n- Status:\n## main\n- Recent Commits:\nabc1234 initial commit\n- Staged Changes:\n+s\n- Unstaged Changes:\n+u\n"
    );
    assert_eq!(
        build_user_prompt(&state("", "")),
        "Repository State:\n- Branch: main\n- Status:\n## main\n- Recent Commits:\nabc1234 initial commit\n"
    );
}

#[test]
fn truncate_lines_keeps_short_text() {
    assert_eq!(truncate_lines("a\nb  \n", 10), "a\nb  \n");
    assert_eq!(truncate_lines("", 0), "");
}

#[test]
fn truncate_lines_cuts_at_a_line() {
    // "aaa\n" (4) + "bbb\n" (4) fit in 9; "ccc" does not.
    assert_eq!(
        truncate_lines("aaa\nbbb\nccc\n", 9),
        "aaa\nbbb\n\n... [Diff truncated due to length] ..."
    );
    // The first line does not fit.
    assert_eq!(
        truncate_lines("abcdef", 3),
        "\n... [Diff truncated due to length] ..."
    );
    // CRLF endings count one byte per line, so nothing is cut here.
    assert_eq!(truncate_lines("a\r\nb\r\n", 5), "a\nb");
    // Bytes, not characters, are counted.
    assert_eq!(
        truncate_lines("é\né\n", 5),
        "é\n\n... [Diff truncated due to length] ..."
    );
}

#[test]
fn commit_prompt_prefers_staged_changes() {
    assert_eq!(commit_prompt(&state("+u", "+s")).unwrap(), "+s");
    assert_eq!(commit_prompt(&state("+u", "")).unwrap(), "+u");
    assert_eq!(commit_prompt(&state("", "")).unwrap_err(), RewindError::NoChanges);
    assert_eq!(
        RewindError::NoChanges.message(),
        "No changes found to generate a commit message for."
    );
}

#[test]
fn commit_prompt_truncates_long_diffs() {
    let line = "x".repeat(99);
    let big = format!("{}\n", line).repeat(200);
    let p = commit_prompt(&state("", &big)).unwrap();
    assert!(p.len() <= MAX_GIT_DIFF_BYTES + 40);
    assert!(p.ends_with("... [Diff truncated due to length] ..."));
    assert_eq!(p.matches(&line).count(), 150);
}

#[test]
fn system_prompts() {
    assert_eq!(analysis_system_prompt(None, false, false), SYSTEM_PROMPT);
    assert_eq!(
        analysis_system_prompt(Some("custom".to_string()), true, true),
        format!("custom{}{}", SHORT_CONSTRAINT, PLAIN_CONSTRAINT)
    );
    assert_eq!(
        analysis_system_prompt(None, false, true),
        format!("{}{}", SYSTEM_PROMPT, PLAIN_CONSTRAINT)
    );
    assert!(SYSTEM_PROMPT.contains("next.\n\nKeep it concise"));
    assert_eq!(question_system_prompt(None), QUESTION_SYSTEM_PROMPT);
    assert_eq!(question_system_prompt(Some("q".to_string())), "q");
}

#[test]
fn question_prompt_appends_the_question() {
    let s = state("", "");
    assert_eq!(
        question_user_prompt(&s, "why?"),
        format!("{}\n\nUser Question:\nwhy?", build_user_prompt(&s))
    );
}

#[test]
fn token_estimate_formula() {
    assert_eq!(count_words("  hello   wide\tworld\n"), 3);
    assert_eq!(count_words(""), 0);
    let e = estimate_tokens("hello world");
    assert_eq!(e.characters, 11);
    assert_eq!(e.words, 2);
    assert_eq!(e.approx_tokens, (11 / 4 + 2 * 13 / 10) / 2);
    let e = estimate_tokens("héllo");
    assert_eq!(e.characters, 6);
}
