//! The prompts sent to the model: the repository-state prompt, the system
//! prompts, the commit and question prompts, diff truncation, and the
//! token estimate.

use crate::error::RewindError;
use crate::git::{diff_truncated_note, RepoState, MAX_GIT_DIFF_BYTES};
use crate::text::{
    byte_len, chars_of, is_ws, is_ws_char, lemma_utf8_len_concat, lines_of, next_line, push_char,
    push_range, trim_end, trim_end_chars, utf8_len, utf8_len_of,
};
use vstd::prelude::*;
use vstd::string::StringExecFns;

verus! {

/// The default system prompt of a repository brief.
pub const SYSTEM_PROMPT: &'static str = "\
You are an AI assistant helping a developer instantly get back into their flow. \
The developer has just opened their terminal and run the `rewind` command. \
You will be provided with the current state of their git repository (branch, status, recent commits, and unstaged/staged diffs). \
Your job is to read this context and tell the developer what they were doing and what they likely need to do next.

Keep it concise, engaging, and direct. \
Don't use lists unless absolutely necessary. \
Focus on the 'why' and 'what' of the changes. \
Do not output markdown code blocks unless it's a specific shell command they should run. \
Make it sound like a helpful colleague bringing them up to speed.";

/// The system prompt of a commit message.
pub const COMMIT_SYSTEM_PROMPT: &'static str = "You are an expert developer. Generate a clean, descriptive, and conventional Git commit message based on the provided diff. Output ONLY the commit message. First line should be the subject. Then a blank line, then bullet points for details if needed.";

/// The default system prompt of a question about the repository.
pub const QUESTION_SYSTEM_PROMPT: &'static str = "You are an expert AI pair programmer embedded in the user's terminal. Answer the user's question accurately based on their current repository state and diffs.";

/// Added to the system prompt for a short brief.
pub const SHORT_CONSTRAINT: &'static str = "\n\nConstraint: Your response MUST be extremely short. 2 sentences maximum.";

/// Added to the system prompt for a brief printed as JSON.
pub const PLAIN_CONSTRAINT: &'static str = "\n\nConstraint: Output only raw plaintext without formatting. Do not use code blocks.";

/// The prompt that describes a repository state: branch, status and
/// recent commits, then the staged and the unstaged changes when there
/// are any.
pub open spec fn user_prompt_spec(state: RepoState) -> Seq<char> {
    "Repository State:\n- Branch: "@ + state.branch@ + "\n- Status:\n"@ + state.status@
        + "\n- Recent Commits:\n"@ + state.log@ + "\n"@ + (if state.diff_cached@.len() > 0 {
        "- Staged Changes:\n"@ + state.diff_cached@ + "\n"@
    } else {
        Seq::empty()
    }) + (if state.diff@.len() > 0 {
        "- Unstaged Changes:\n"@ + state.diff@ + "\n"@
    } else {
        Seq::empty()
    })
}

/// Builds the prompt that describes a repository state.
pub fn build_user_prompt(state: &RepoState) -> (r: String)
    ensures
        r@ == user_prompt_spec(*state),
{
    let mut p = String::from_str("Repository State:\n- Branch: ");
    p.append(state.branch.as_str());
    p.append("\n- Status:\n");
    p.append(state.status.as_str());
    p.append("\n- Recent Commits:\n");
    p.append(state.log.as_str());
    p.append("\n");
    let ghost head = p@;
    if !state.diff_cached.as_str().is_empty() {
        p.append("- Staged Changes:\n");
        p.append(state.diff_cached.as_str());
        p.append("\n");
    }
    let ghost mid = p@;
    assert(state.diff_cached@.len() == 0 ==> mid =~= head + Seq::<char>::empty());
    if !state.diff.as_str().is_empty() {
        p.append("- Unstaged Changes:\n");
        p.append(state.diff.as_str());
        p.append("\n");
    }
    assert(state.diff@.len() == 0 ==> p@ =~= mid + Seq::<char>::empty());
    p
}

/// What the line-wise truncation keeps of `lines` within `budget` bytes,
/// each line counting its length plus one for its newline; the first line
/// that does not fit is replaced by the truncation note.
pub open spec fn kept_lines(lines: Seq<Seq<char>>, budget: int) -> Seq<char>
    decreases lines.len(),
{
    if lines.len() == 0 {
        Seq::empty()
    } else if utf8_len(lines[0]) + 1 > budget {
        diff_truncated_note()
    } else {
        lines[0] + seq!['\n'] + kept_lines(lines.drop_first(), budget - utf8_len(lines[0]) - 1)
    }
}

/// `s` cut to about `max_bytes` bytes at a line boundary: unchanged when
/// it fits, else its first lines that fit, a truncation note, and no
/// trailing whitespace.
pub open spec fn truncate_lines_spec(s: Seq<char>, max_bytes: int) -> Seq<char> {
    if utf8_len(s) <= max_bytes {
        s
    } else {
        trim_end(kept_lines(lines_of(s), max_bytes))
    }
}

/// The UTF-8 length of a part of a sequence is at most that of the whole.
proof fn lemma_utf8_len_subrange(v: Seq<char>, lo: int, hi: int)
    requires
        0 <= lo <= hi <= v.len(),
    ensures
        utf8_len(v.subrange(lo, hi)) <= utf8_len(v),
{
    assert(v =~= v.subrange(0, lo) + v.subrange(lo, hi) + v.subrange(hi, v.len() as int));
    lemma_utf8_len_concat(v.subrange(0, lo), v.subrange(lo, hi));
    lemma_utf8_len_concat(v.subrange(0, lo) + v.subrange(lo, hi), v.subrange(hi, v.len() as int));
}

/// What the line-wise truncation keeps is at most the budget plus the
/// truncation note.
proof fn lemma_kept_lines_bytes(lines: Seq<Seq<char>>, budget: int)
    requires
        budget >= 0,
    ensures
        utf8_len(kept_lines(lines, budget)) <= budget + utf8_len(diff_truncated_note()),
    decreases lines.len(),
{
    if lines.len() == 0 {
        crate::text::lemma_utf8_len_empty();
    } else if utf8_len(lines[0]) + 1 > budget {
    } else {
        let rest_budget = budget - utf8_len(lines[0]) - 1;
        lemma_kept_lines_bytes(lines.drop_first(), rest_budget);
        crate::text::lemma_utf8_len_push(lines[0], '\n');
        assert(lines[0] + seq!['\n'] =~= lines[0].push('\n'));
        lemma_utf8_len_concat(lines[0] + seq!['\n'], kept_lines(lines.drop_first(), rest_budget));
    }
}

/// Trimming the end keeps a prefix.
proof fn lemma_trim_end_prefix(s: Seq<char>)
    ensures
        trim_end(s).len() <= s.len(),
        trim_end(s) == s.take(trim_end(s).len() as int),
    decreases s.len(),
{
    if s.len() > 0 && crate::text::is_ws(s.last()) {
        lemma_trim_end_prefix(s.drop_last());
        assert(trim_end(s) =~= s.take(trim_end(s).len() as int));
    } else {
        assert(s.take(s.len() as int) =~= s);
    }
}

/// Truncation gives text of at most `max_bytes` bytes plus the truncation
/// note, and leaves text that fits untouched.
pub proof fn lemma_truncate_lines_bounded(s: Seq<char>, max_bytes: int)
    requires
        max_bytes >= 0,
    ensures
        utf8_len(truncate_lines_spec(s, max_bytes)) <= max_bytes + utf8_len(diff_truncated_note()),
        utf8_len(s) <= max_bytes ==> truncate_lines_spec(s, max_bytes) == s,
{
    if utf8_len(s) > max_bytes {
        let k = kept_lines(lines_of(s), max_bytes);
        lemma_kept_lines_bytes(lines_of(s), max_bytes);
        lemma_trim_end_prefix(k);
        lemma_utf8_len_subrange(k, 0, trim_end(k).len() as int);
        assert(k.subrange(0, trim_end(k).len() as int) =~= k.take(trim_end(k).len() as int));
    }
}

/// Truncates a string to roughly `max_bytes` while preserving line breaks.
/// If it gets truncated, it appends an indicator.
pub fn truncate_lines(s: &str, max_bytes: usize) -> (r: String)
    ensures
        r@ == truncate_lines_spec(s@, max_bytes as int),
{
    let total = byte_len(s);
    if total <= max_bytes {
        return String::from_str(s);
    }
    let v = chars_of(s);
    let mut out = String::new();
    let mut current: usize = 0;
    let mut pos: usize = 0;
    assert(v@.skip(0) =~= v@);
    let ghost whole = kept_lines(lines_of(s@), max_bytes as int);
    while pos < v.len()
        invariant
            pos <= v@.len(),
            v@ == s@,
            total == utf8_len(s@),
            total > max_bytes,
            current <= max_bytes,
            whole == kept_lines(lines_of(s@), max_bytes as int),
            whole == out@ + kept_lines(lines_of(v@.skip(pos as int)), max_bytes - current),
        decreases v@.len() - pos,
    {
        let (hi, next) = next_line(&v, pos);
        let ghost ls = lines_of(v@.skip(pos as int));
        let ghost line = v@.subrange(pos as int, hi as int);
        assert(ls[0] == line);
        assert(ls.drop_first() =~= lines_of(v@.skip(next as int)));
        proof {
            lemma_utf8_len_subrange(v@, pos as int, hi as int);
        }
        let lbytes = utf8_len_of(&v, pos, hi);
        if lbytes >= max_bytes - current {
            assert(ls.len() > 0);
            assert(kept_lines(ls, max_bytes - current) == diff_truncated_note());
            out.append("\n... [Diff truncated due to length] ...\n");
            assert(out@ == whole);
            let r = trim_end_chars(&chars_of(out.as_str()));
            return r;
        }
        push_range(&mut out, &v, pos, hi);
        push_char(&mut out, '\n');
        assert(out@ =~= (out@.subrange(0, out@.len() - line.len() - 1)) + line + seq!['\n']);
        current = current + lbytes + 1;
        pos = next;
    }
    assert(v@.skip(pos as int) =~= Seq::<char>::empty());
    assert(out@ + Seq::<char>::empty() =~= out@);
    trim_end_chars(&chars_of(out.as_str()))
}


/// The diff a commit message is generated from: the staged changes, or
/// the unstaged ones when nothing is staged.
pub open spec fn commit_diff(state: RepoState) -> Option<Seq<char>> {
    if state.diff_cached@.len() > 0 {
        Some(state.diff_cached@)
    } else if state.diff@.len() > 0 {
        Some(state.diff@)
    } else {
        None
    }
}

/// The user prompt of a commit message: the staged diff (or else the
/// unstaged one) cut to [`MAX_GIT_DIFF_BYTES`]; an error when there are
/// no changes at all.
pub fn commit_prompt(state: &RepoState) -> (r: Result<String, RewindError>)
    ensures
        match commit_diff(*state) {
            Some(d) => r matches Ok(p) && p@ == truncate_lines_spec(d, MAX_GIT_DIFF_BYTES as int),
            None => r matches Err(RewindError::NoChanges),
        },
{
    if !state.diff_cached.as_str().is_empty() {
        Ok(truncate_lines(state.diff_cached.as_str(), MAX_GIT_DIFF_BYTES))
    } else if !state.diff.as_str().is_empty() {
        Ok(truncate_lines(state.diff.as_str(), MAX_GIT_DIFF_BYTES))
    } else {
        Err(RewindError::NoChanges)
    }
}

/// The system prompt of a brief: the custom one if set, else the default,
/// followed by the constraint for a short brief and the one for plain
/// output when asked for.
pub open spec fn analysis_system_prompt_spec(custom: Option<String>, short: bool, json: bool) -> Seq<
    char,
> {
    (match custom {
        Some(c) => c@,
        None => SYSTEM_PROMPT@,
    }) + (if short {
        SHORT_CONSTRAINT@
    } else {
        Seq::empty()
    }) + (if json {
        PLAIN_CONSTRAINT@
    } else {
        Seq::empty()
    })
}

/// Builds the system prompt of a brief.
pub fn analysis_system_prompt(custom: Option<String>, short: bool, json: bool) -> (r: String)
    ensures
        r@ == analysis_system_prompt_spec(custom, short, json),
{
    let mut p = match custom {
        Some(c) => c,
        None => String::from_str(SYSTEM_PROMPT),
    };
    let ghost base = p@;
    if short {
        p.append(SHORT_CONSTRAINT);
    }
    let ghost mid = p@;
    assert(!short ==> mid =~= base + Seq::<char>::empty());
    if json {
        p.append(PLAIN_CONSTRAINT);
    }
    assert(!json ==> p@ =~= mid + Seq::<char>::empty());
    p
}

/// The system prompt of a question: the custom one if set, else the
/// default question prompt.
pub fn question_system_prompt(custom: Option<String>) -> (r: String)
    ensures
        r@ == match custom {
            Some(c) => c@,
            None => QUESTION_SYSTEM_PROMPT@,
        },
{
    match custom {
        Some(c) => c,
        None => String::from_str(QUESTION_SYSTEM_PROMPT),
    }
}

/// The user prompt of a question: the repository prompt, then the question.
pub fn question_user_prompt(state: &RepoState, query: &str) -> (r: String)
    ensures
        r@ == user_prompt_spec(*state) + "\n\nUser Question:\n"@ + query@,
{
    let mut p = build_user_prompt(state);
    p.append("\n\nUser Question:\n");
    p.append(query);
    p
}

/// Number of maximal runs of non-whitespace characters in `s`
/// (what `str::split_whitespace` yields).
pub open spec fn word_count(s: Seq<char>) -> nat
    decreases s.len(),
{
    if s.len() == 0 {
        0
    } else if !is_ws(s.last()) && (s.len() == 1 || is_ws(s[s.len() - 2])) {
        word_count(s.drop_last()) + 1
    } else {
        word_count(s.drop_last())
    }
}

/// Counts the whitespace-separated words of `s`.
pub fn count_words(s: &str) -> (n: usize)
    ensures
        n == word_count(s@),
{
    let v = chars_of(s);
    let mut n: usize = 0;
    let mut i: usize = 0;
    assert(v@.take(0) =~= Seq::<char>::empty());
    while i < v.len()
        invariant
            i <= v@.len(),
            v@ == s@,
            n == word_count(v@.take(i as int)),
            n <= i,
        decreases v@.len() - i,
    {
        let ghost t = v@.take(i + 1);
        assert(t.drop_last() =~= v@.take(i as int));
        assert(t.last() == v@[i as int]);
        if i > 0 {
            assert(t[t.len() - 2] == v@[i - 1]);
        }
        if !is_ws_char(v[i]) && (i == 0 || is_ws_char(v[i - 1])) {
            n = n + 1;
        }
        i += 1;
    }
    assert(v@.take(v@.len() as int) =~= v@);
    n
}

/// A rough token count of a prompt.
#[derive(Debug)]
pub struct TokenEstimate {
    pub approx_tokens: usize,
    pub characters: usize,
    pub words: usize,
}

/// Estimates the tokens of a prompt from its bytes and words:
/// `(bytes / 4 + words * 13 / 10) / 2`.
pub fn estimate_tokens(prompt: &str) -> (r: TokenEstimate)
    requires
        word_count(prompt@) * 13 <= usize::MAX,
    ensures
        r.characters == utf8_len(prompt@),
        r.words == word_count(prompt@),
        r.approx_tokens == (r.characters / 4 + r.words * 13 / 10) / 2,
{
    let chars = byte_len(prompt);
    let words = count_words(prompt);
    let approx_tokens = (chars / 4 + (words * 13 / 10)) / 2;
    TokenEstimate { approx_tokens, characters: chars, words }
}


/// The changes sections of the prompt each depend on their own diff alone:
/// two states that differ only in their diffs give prompts that agree up to
/// the recent commits; a non-empty staged diff adds
/// `"- Staged Changes:\n"`, the diff and a newline after that; and a
/// non-empty unstaged diff adds `"- Unstaged Changes:\n"`, the diff and a
/// newline at the very end, whether or not anything is staged.
pub proof fn lemma_prompt_change_sections(s: RepoState, t: RepoState)
    requires
        s.branch@ == t.branch@,
        s.status@ == t.status@,
        s.log@ == t.log@,
        t.diff@.len() == 0,
        t.diff_cached@.len() == 0,
    ensures
        user_prompt_spec(s) == user_prompt_spec(t) + (if s.diff_cached@.len() > 0 {
            "- Staged Changes:\n"@ + s.diff_cached@ + "\n"@
        } else {
            Seq::empty()
        }) + (if s.diff@.len() > 0 {
            "- Unstaged Changes:\n"@ + s.diff@ + "\n"@
        } else {
            Seq::empty()
        }),
        s.diff@.len() > 0 ==> ({
            let tail = "- Unstaged Changes:\n"@ + s.diff@ + "\n"@;
            let p = user_prompt_spec(s);
            tail.len() <= p.len() && p.skip(p.len() - tail.len()) == tail
        }),
{
    let head = user_prompt_spec(t);
    assert(head =~= "Repository State:\n- Branch: "@ + s.branch@ + "\n- Status:\n"@ + s.status@
        + "\n- Recent Commits:\n"@ + s.log@ + "\n"@);
    let staged = if s.diff_cached@.len() > 0 {
        "- Staged Changes:\n"@ + s.diff_cached@ + "\n"@
    } else {
        Seq::empty()
    };
    if s.diff@.len() > 0 {
        let tail = "- Unstaged Changes:\n"@ + s.diff@ + "\n"@;
        let p = user_prompt_spec(s);
        assert(p =~= (head + staged) + tail);
        assert(p.skip(p.len() - tail.len()) =~= tail);
    }
}

/// The `--short` constraint depends on `short` alone and the plain-text
/// constraint on `json` alone: the prompt is the base prompt (the custom
/// one if set, else [`SYSTEM_PROMPT`]), then [`SHORT_CONSTRAINT`] exactly
/// when `short`, then [`PLAIN_CONSTRAINT`] exactly when `json`.
pub proof fn lemma_system_prompt_constraints(custom: Option<String>, short: bool, json: bool)
    ensures
        analysis_system_prompt_spec(None, false, false) == SYSTEM_PROMPT@,
        custom matches Some(c) ==> analysis_system_prompt_spec(custom, false, false) == c@,
        analysis_system_prompt_spec(custom, true, json) == analysis_system_prompt_spec(
            custom,
            false,
            false,
        ) + SHORT_CONSTRAINT@ + (if json {
            PLAIN_CONSTRAINT@
        } else {
            Seq::empty()
        }),
        analysis_system_prompt_spec(custom, false, json) == analysis_system_prompt_spec(
            custom,
            false,
            false,
        ) + (if json {
            PLAIN_CONSTRAINT@
        } else {
            Seq::empty()
        }),
{
    let base = analysis_system_prompt_spec(custom, false, false);
    assert(base =~= match custom {
        Some(c) => c@,
        None => SYSTEM_PROMPT@,
    });
    assert(analysis_system_prompt_spec(None, false, false) =~= SYSTEM_PROMPT@);
    assert(analysis_system_prompt_spec(custom, true, json) =~= base + SHORT_CONSTRAINT@ + (if json {
        PLAIN_CONSTRAINT@
    } else {
        Seq::empty()
    }));
    assert(analysis_system_prompt_spec(custom, false, json) =~= base + (if json {
        PLAIN_CONSTRAINT@
    } else {
        Seq::empty()
    }));
}

} // verus!
