//! Repository state: the rules that turn what the git repository reports
//! (head, commits, status flags, diff lines, ignore files) into the text
//! the prompt shows.

use crate::text::{
    chars_of, char_utf8_len, lemma_utf8_len_concat, lemma_utf8_len_push, lines_of, next_line,
    push_char, trim, trim_range, trim_str, utf8_len,
};
use vstd::prelude::*;
use vstd::string::{StrSliceExecFns, StringExecFns};

verus! {

/// Maximum number of bytes to read from a git diff output.
pub const MAX_GIT_DIFF_BYTES: usize = 15_000;

/// Maximum number of bytes to include in the status output.
pub const MAX_GIT_STATUS_BYTES: usize = 10_000;

/// What the prompt shows of a repository.
#[derive(Debug)]
pub struct RepoState {
    pub branch: String,
    pub status: String,
    pub log: String,
    pub diff: String,
    pub diff_cached: String,
    /// Absolute path to the repository root
    pub root: String,
}

impl RepoState {
    /// Assembles the state from its raw parts, trimming each text part.
    pub fn from_parts(
        branch: &str,
        status: &str,
        log: &str,
        diff: &str,
        diff_cached: &str,
        root: String,
    ) -> (r: RepoState)
        ensures
            r.branch@ == trim(branch@),
            r.status@ == trim(status@),
            r.log@ == trim(log@),
            r.diff@ == trim(diff@),
            r.diff_cached@ == trim(diff_cached@),
            r.root@ == root@,
    {
        RepoState {
            branch: trim_str(branch),
            status: trim_str(status),
            log: trim_str(log),
            diff: trim_str(diff),
            diff_cached: trim_str(diff_cached),
            root,
        }
    }
}

/// What `HEAD` refers to.
#[derive(Debug)]
pub enum HeadState {
    /// `HEAD` cannot be read (typically: no commits yet).
    Unreadable,
    /// `HEAD` points at a commit, not a branch.
    Detached,
    /// `HEAD` is a branch, with its short name when it is valid UTF-8.
    Branch { shorthand: Option<String> },
}

/// The branch line of the prompt for a given `HEAD`.
pub open spec fn branch_label_spec(head: HeadState) -> Seq<char> {
    match head {
        HeadState::Unreadable => "No commits yet"@,
        HeadState::Detached => "HEAD (detached)"@,
        HeadState::Branch { shorthand } => match shorthand {
            Some(s) => s@,
            None => Seq::empty(),
        },
    }
}

/// The branch line of the prompt for a given `HEAD`.
pub fn branch_label(head: HeadState) -> (r: String)
    ensures
        r@ == branch_label_spec(head),
{
    match head {
        HeadState::Unreadable => String::from_str("No commits yet"),
        HeadState::Detached => String::from_str("HEAD (detached)"),
        HeadState::Branch { shorthand } => match shorthand {
            Some(s) => s,
            None => String::new(),
        },
    }
}

/// The status flags of one path that the status listing reads.
#[derive(Clone, Copy)]
pub struct StatusFlags {
    pub index_new: bool,
    pub index_modified: bool,
    pub index_deleted: bool,
    pub index_renamed: bool,
    pub index_typechange: bool,
    pub wt_new: bool,
    pub wt_modified: bool,
    pub wt_deleted: bool,
    pub wt_renamed: bool,
    pub wt_typechange: bool,
    pub conflicted: bool,
}

/// The two-letter code (index, worktree) of `git status --short` for a
/// set of flags: untracked files are `??`, conflicts `UU`.
pub open spec fn status_code_spec(f: StatusFlags) -> (char, char) {
    let x = if f.index_new {
        'A'
    } else if f.index_modified {
        'M'
    } else if f.index_deleted {
        'D'
    } else if f.index_renamed {
        'R'
    } else if f.index_typechange {
        'T'
    } else {
        ' '
    };
    let y = if f.wt_modified {
        'M'
    } else if f.wt_deleted {
        'D'
    } else if f.wt_renamed {
        'R'
    } else if f.wt_typechange {
        'T'
    } else {
        ' '
    };
    if f.conflicted {
        ('U', 'U')
    } else if f.wt_new {
        ('?', '?')
    } else {
        (x, y)
    }
}

/// The two-letter status code of a path.
pub fn status_code(f: StatusFlags) -> (r: (char, char))
    ensures
        r == status_code_spec(f),
{
    let mut x = ' ';
    let mut y = ' ';
    if f.index_new {
        x = 'A';
    } else if f.index_modified {
        x = 'M';
    } else if f.index_deleted {
        x = 'D';
    } else if f.index_renamed {
        x = 'R';
    } else if f.index_typechange {
        x = 'T';
    }
    if f.wt_new {
        y = '?';
        x = '?';
    } else if f.wt_modified {
        y = 'M';
    } else if f.wt_deleted {
        y = 'D';
    } else if f.wt_renamed {
        y = 'R';
    } else if f.wt_typechange {
        y = 'T';
    }
    if f.conflicted {
        x = 'U';
        y = 'U';
    }
    (x, y)
}


/// One path of the status listing with its flags.
pub struct StatusEntry {
    pub path: String,
    pub flags: StatusFlags,
}

/// The line a status entry contributes: code, space, path, newline.
pub open spec fn status_line(e: StatusEntry) -> Seq<char> {
    let (x, y) = status_code_spec(e.flags);
    seq![x, y, ' '] + e.path@ + seq!['\n']
}

/// The line that ends a status listing cut short.
pub open spec fn status_truncated_note() -> Seq<char> {
    "... [Status truncated due to length] ...\n"@
}

/// The listing that follows `acc` for the remaining `entries`: entries are
/// added while the text so far is at most [`MAX_GIT_STATUS_BYTES`] bytes;
/// when it is longer and entries remain, the listing ends with a note.
pub open spec fn status_listing_from(entries: Seq<StatusEntry>, acc: Seq<char>) -> Seq<char>
    decreases entries.len(),
{
    if entries.len() == 0 {
        acc
    } else if utf8_len(acc) > MAX_GIT_STATUS_BYTES {
        acc + status_truncated_note()
    } else {
        status_listing_from(entries.drop_first(), acc + status_line(entries[0]))
    }
}

/// The status listing of a repository's entries.
pub open spec fn status_listing(entries: Seq<StatusEntry>) -> Seq<char> {
    status_listing_from(entries, Seq::empty())
}

/// The status codes are ASCII letters or punctuation.
proof fn lemma_status_code_ascii(f: StatusFlags)
    ensures
        char_utf8_len(status_code_spec(f).0) == 1,
        char_utf8_len(status_code_spec(f).1) == 1,
{
}

/// Formats the status listing, cutting it short past
/// [`MAX_GIT_STATUS_BYTES`] bytes.
pub fn format_status(entries: &Vec<StatusEntry>) -> (r: String)
    ensures
        r@ == status_listing(entries@),
{
    let mut out = String::new();
    let mut n: usize = 0;
    let mut i: usize = 0;
    assert(entries@.skip(0) =~= entries@);
    while i < entries.len()
        invariant
            i <= entries@.len(),
            status_listing(entries@) == status_listing_from(entries@.skip(i as int), out@),
            n as nat == if utf8_len(out@) <= usize::MAX {
                utf8_len(out@)
            } else {
                usize::MAX as nat
            },
        decreases entries@.len() - i,
    {
        assert(entries@.skip(i as int).len() > 0);
        if n > MAX_GIT_STATUS_BYTES {
            out.append("... [Status truncated due to length] ...\n");
            return out;
        }
        let e = &entries[i];
        let (x, y) = status_code(e.flags);
        let ghost before = out@;
        push_char(&mut out, x);
        push_char(&mut out, y);
        push_char(&mut out, ' ');
        out.append(e.path.as_str());
        push_char(&mut out, '\n');
        let plen = e.path.as_str().as_bytes().len();
        assert(plen == utf8_len(e.path@));
        assert(n == utf8_len(before));
        proof {
            lemma_status_code_ascii(e.flags);
            let code = seq![x, y, ' '];
            lemma_utf8_len_push(before, x);
            lemma_utf8_len_push(before.push(x), y);
            lemma_utf8_len_push(before.push(x).push(y), ' ');
            lemma_utf8_len_concat(before.push(x).push(y).push(' '), e.path@);
            lemma_utf8_len_push(before.push(x).push(y).push(' ') + e.path@, '\n');
            assert(before.push(x).push(y).push(' ') =~= before + code);
            assert(out@ =~= before + status_line(*e));
            assert(entries@.skip(i as int).drop_first() =~= entries@.skip(i + 1));
            assert(entries@.skip(i as int)[0] == *e);
        }
        assert(utf8_len(out@) == n + 4 + plen);
        n = n.saturating_add(4).saturating_add(plen);
        i += 1;
    }
    assert(entries@.skip(i as int).len() == 0);
    out
}


/// The text git prints before a diff line's content: the line's origin
/// for context, added and removed lines, nothing for the other lines.
pub open spec fn diff_prefix(origin: char) -> Seq<char> {
    if origin == '+' || origin == '-' || origin == ' ' {
        seq![origin]
    } else {
        Seq::empty()
    }
}

/// The line that ends a diff cut short.
pub open spec fn diff_truncated_note() -> Seq<char> {
    "\n... [Diff truncated due to length] ...\n"@
}

/// A diff as it is collected line by line, at most
/// [`MAX_GIT_DIFF_BYTES`] bytes of content.
pub struct DiffText {
    text: String,
    bytes: usize,
    truncated: bool,
}

impl DiffText {
    /// The text collected so far.
    pub closed spec fn text(&self) -> Seq<char> {
        self.text@
    }

    /// Whether a line was refused for lack of room.
    pub closed spec fn is_truncated(&self) -> bool {
        self.truncated
    }

    /// The byte count is that of the text, which never exceeds the
    /// limit by more than one prefix byte.
    pub closed spec fn wf(&self) -> bool {
        &&& self.bytes == utf8_len(self.text@)
        &&& self.bytes <= MAX_GIT_DIFF_BYTES + 1
    }

    /// An empty diff.
    pub fn new() -> (d: DiffText)
        ensures
            d.wf(),
            d.text() == Seq::<char>::empty(),
            !d.is_truncated(),
    {
        DiffText { text: String::new(), bytes: 0, truncated: false }
    }

    /// Adds one diff line unless its content would take the text past
    /// [`MAX_GIT_DIFF_BYTES`] bytes; returns whether the diff goes on.
    pub fn push_line(&mut self, origin: char, content: &str) -> (go_on: bool)
        requires
            old(self).wf(),
        ensures
            final(self).wf(),
            old(self).is_truncated() ==> !go_on && final(self).text() == old(self).text()
                && final(self).is_truncated(),
            !old(self).is_truncated() && utf8_len(old(self).text()) + utf8_len(content@)
                > MAX_GIT_DIFF_BYTES ==> !go_on && final(self).text() == old(self).text()
                && final(self).is_truncated(),
            !old(self).is_truncated() && utf8_len(old(self).text()) + utf8_len(content@)
                <= MAX_GIT_DIFF_BYTES ==> go_on && final(self).text() == old(self).text()
                + diff_prefix(origin) + content@ && !final(self).is_truncated(),
    {
        if self.truncated {
            return false;
        }
        let clen = crate::text::byte_len(content);
        if self.bytes > MAX_GIT_DIFF_BYTES || clen > MAX_GIT_DIFF_BYTES - self.bytes {
            self.truncated = true;
            return false;
        }
        let ghost before = self.text@;
        let mut added: usize = 0;
        if origin == '+' || origin == '-' || origin == ' ' {
            push_char(&mut self.text, origin);
            added = 1;
            proof {
                lemma_utf8_len_push(before, origin);
            }
        }
        assert(self.text@ == before + diff_prefix(origin));
        let ghost mid = self.text@;
        self.text.append(content);
        proof {
            lemma_utf8_len_concat(mid, content@);
        }
        self.bytes = self.bytes + added + clen;
        true
    }

    /// The text collected is at most one byte past [`MAX_GIT_DIFF_BYTES`]
    /// (the prefix of the last line kept).
    pub proof fn lemma_text_bounded(&self)
        requires
            self.wf(),
        ensures
            utf8_len(self.text()) <= MAX_GIT_DIFF_BYTES + 1,
    {
    }

    /// The collected diff, with a note at its end when it was cut short.
    pub fn finish(self) -> (r: String)
        requires
            self.wf(),
        ensures
            r@ == self.text() + if self.is_truncated() {
                diff_truncated_note()
            } else {
                Seq::empty()
            },
    {
        let mut r = self.text;
        if self.truncated {
            r.append("\n... [Diff truncated due to length] ...\n");
        } else {
            assert(r@ + Seq::<char>::empty() =~= r@);
        }
        r
    }
}


/// How many commits, newest first, the log shows.
pub const MAX_LOG_COMMITS: usize = 5;

/// A commit of the log: its full hexadecimal id and its summary line.
#[derive(Debug)]
pub struct CommitSummary {
    pub id: String,
    pub summary: String,
}

/// A commit id fit for the log: ASCII, at least seven characters.
pub open spec fn valid_commit_id(id: Seq<char>) -> bool {
    id.len() >= 7 && vstd::utf8::is_ascii_chars(id)
}

/// The log line of a commit: short id, space, summary, newline.
pub open spec fn log_line(c: CommitSummary) -> Seq<char> {
    c.id@.take(7) + seq![' '] + c.summary@ + seq!['\n']
}

/// The log lines of the commits, in order.
pub open spec fn log_text(cs: Seq<CommitSummary>) -> Seq<char>
    decreases cs.len(),
{
    if cs.len() == 0 {
        Seq::empty()
    } else {
        log_text(cs.drop_last()) + log_line(cs.last())
    }
}

/// How many of `n` commits the log shows: at most [`MAX_LOG_COMMITS`].
pub open spec fn shown_commits(n: nat) -> nat {
    if n < MAX_LOG_COMMITS {
        n
    } else {
        MAX_LOG_COMMITS as nat
    }
}

/// Formats the recent-commits part of the prompt: the log lines of the
/// first [`MAX_LOG_COMMITS`] commits given (newest first), the rest left out.
pub fn format_log(commits: &Vec<CommitSummary>) -> (r: String)
    requires
        forall|i: int|
            0 <= i < shown_commits(commits@.len()) ==> valid_commit_id(#[trigger] commits@[i].id@),
    ensures
        r@ == log_text(commits@.take(shown_commits(commits@.len()) as int)),
{
    let n = if commits.len() < MAX_LOG_COMMITS {
        commits.len()
    } else {
        MAX_LOG_COMMITS
    };
    let mut out = String::new();
    let mut i: usize = 0;
    assert(commits@.take(0) =~= Seq::<CommitSummary>::empty());
    while i < n
        invariant
            i <= n,
            n == shown_commits(commits@.len()),
            n <= commits@.len(),
            forall|k: int| 0 <= k < n ==> valid_commit_id(#[trigger] commits@[k].id@),
            out@ == log_text(commits@.take(i as int)),
        decreases n - i,
    {
        let c = &commits[i];
        assert(valid_commit_id(commits@[i as int].id@));
        let id = chars_of(c.id.as_str());
        let ghost before = out@;
        crate::text::push_range(&mut out, &id, 0, 7);
        push_char(&mut out, ' ');
        out.append(c.summary.as_str());
        push_char(&mut out, '\n');
        assert(id@.subrange(0, 7) =~= c.id@.take(7));
        assert(out@ =~= before + log_line(*c));
        assert(commits@.take(i + 1).drop_last() =~= commits@.take(i as int));
        i += 1;
    }
    out
}

/// The paths that are never sent: secrets, lockfiles, minified assets and
/// the brief itself.
pub open spec fn default_excludes() -> Seq<Seq<char>> {
    seq![
        ".env"@,
        ".env.*"@,
        "*.pem"@,
        "*.key"@,
        "*.crt"@,
        "secrets.json"@,
        "id_rsa"@,
        "id_dsa"@,
        "*.p12"@,
        "*.pfx"@,
        "config.json"@,
        "Credentials.toml"@,
        "credentials.json"@,
        "Cargo.lock"@,
        "package-lock.json"@,
        "pnpm-lock.yaml"@,
        "yarn.lock"@,
        "Gemfile.lock"@,
        "poetry.lock"@,
        "*.min.js"@,
        "*.min.css"@,
        ".rewind-brief.md"@,
    ]
}

/// The exclusion pathspec of a pattern.
pub open spec fn exclusion(p: Seq<char>) -> Seq<char> {
    ":!"@ + p
}

/// The exclusions an ignore file adds: one per line that, trimmed, is
/// neither empty nor a `#` comment.
pub open spec fn ignore_file_exclusions(lines: Seq<Seq<char>>) -> Seq<Seq<char>>
    decreases lines.len(),
{
    if lines.len() == 0 {
        Seq::empty()
    } else {
        let t = trim(lines[0]);
        (if t.len() > 0 && t[0] != '#' {
            seq![exclusion(t)]
        } else {
            Seq::empty()
        }) + ignore_file_exclusions(lines.drop_first())
    }
}

/// The exclusions of an optional ignore file's content.
pub open spec fn optional_ignore_exclusions(content: Option<Seq<char>>) -> Seq<Seq<char>> {
    match content {
        Some(c) => ignore_file_exclusions(lines_of(c)),
        None => Seq::empty(),
    }
}

/// The exclusion pathspecs of a repository: the defaults, then those of
/// the global ignore file, then those of the repository's ignore file.
pub open spec fn exclusions_spec(global: Option<Seq<char>>, repo: Option<Seq<char>>) -> Seq<Seq<char>> {
    default_excludes().map_values(|p: Seq<char>| exclusion(p)) + optional_ignore_exclusions(global)
        + optional_ignore_exclusions(repo)
}

/// The views of a vector of strings.
pub open spec fn string_views(v: Seq<String>) -> Seq<Seq<char>> {
    v.map_values(|s: String| s@)
}

/// The exclusion pathspec of a pattern.
fn make_exclusion(p: &str) -> (r: String)
    ensures
        r@ == exclusion(p@),
{
    let mut r = String::from_str(":!");
    r.append(p);
    r
}

/// Appends the exclusions of an ignore file's content to `out`.
fn add_ignore_file(out: &mut Vec<String>, content: &str)
    ensures
        string_views(final(out)@) == string_views(old(out)@) + ignore_file_exclusions(
            lines_of(content@),
        ),
{
    let v = chars_of(content);
    let ghost start = string_views(out@);
    let mut pos: usize = 0;
    assert(v@.skip(0) =~= v@);
    while pos < v.len()
        invariant
            pos <= v@.len(),
            start + ignore_file_exclusions(lines_of(content@)) == string_views(out@)
                + ignore_file_exclusions(lines_of(v@.skip(pos as int))),
        decreases v@.len() - pos,
    {
        let (hi, next) = next_line(&v, pos);
        let t = trim_range(&v, pos, hi);
        let ghost rest = lines_of(v@.skip(next as int));
        let ghost ls = lines_of(v@.skip(pos as int));
        assert(ls[0] == v@.subrange(pos as int, hi as int));
        assert(ls.drop_first() =~= rest);
        let ghost before = string_views(out@);
        if !t.as_str().is_empty() && t.as_str().get_char(0) != '#' {
            let mut e = String::from_str(":!");
            e.append(t.as_str());
            out.push(e);
            assert(string_views(out@) =~= before + seq![exclusion(t@)]);
        } else {
            assert(string_views(out@) =~= before + Seq::<Seq<char>>::empty());
        }
        pos = next;
    }
    assert(v@.skip(pos as int) =~= Seq::<char>::empty());
    assert(string_views(out@) + Seq::<Seq<char>>::empty() =~= string_views(out@));
}

/// The exclusion pathspecs for the diffs: the defaults, then those of the
/// global and of the repository's `.rewindignore`, given their contents
/// when they could be read.
pub fn get_exclusions(global_ignore: Option<&str>, repo_ignore: Option<&str>) -> (r: Vec<String>)
    ensures
        string_views(r@) == exclusions_spec(
            match global_ignore {
                Some(g) => Some(g@),
                None => None,
            },
            match repo_ignore {
                Some(g) => Some(g@),
                None => None,
            },
        ),
{
    let defaults: [&str; 22] = [
        ".env",
        ".env.*",
        "*.pem",
        "*.key",
        "*.crt",
        "secrets.json",
        "id_rsa",
        "id_dsa",
        "*.p12",
        "*.pfx",
        "config.json",
        "Credentials.toml",
        "credentials.json",
        "Cargo.lock",
        "package-lock.json",
        "pnpm-lock.yaml",
        "yarn.lock",
        "Gemfile.lock",
        "poetry.lock",
        "*.min.js",
        "*.min.css",
        ".rewind-brief.md",
    ];
    let ghost mapped = default_excludes().map_values(|p: Seq<char>| exclusion(p));
    let mut out: Vec<String> = Vec::new();
    let mut i: usize = 0;
    while i < 22
        invariant
            i <= 22,
            defaults@.len() == 22,
            forall|k: int| 0 <= k < 22 ==> (#[trigger] defaults@[k])@ == default_excludes()[k],
            mapped == default_excludes().map_values(|p: Seq<char>| exclusion(p)),
            string_views(out@) =~= mapped.take(i as int),
        decreases 22 - i,
    {
        out.push(make_exclusion(defaults[i]));
        assert(mapped.take(i + 1) =~= mapped.take(i as int).push(mapped[i as int]));
        i += 1;
    }
    assert(mapped.take(22) =~= mapped);
    let ghost after_defaults = string_views(out@);
    match global_ignore {
        Some(g) => add_ignore_file(&mut out, g),
        None => {},
    }
    let ghost after_global = string_views(out@);
    assert(after_global == after_defaults + optional_ignore_exclusions(
        match global_ignore {
            Some(g) => Some(g@),
            None => None,
        },
    )) by {
        if global_ignore.is_none() {
            assert(after_global =~= after_defaults + Seq::<Seq<char>>::empty());
        }
    }
    match repo_ignore {
        Some(g) => add_ignore_file(&mut out, g),
        None => {},
    }
    assert(string_views(out@) == after_global + optional_ignore_exclusions(
        match repo_ignore {
            Some(g) => Some(g@),
            None => None,
        },
    )) by {
        if repo_ignore.is_none() {
            assert(string_views(out@) =~= after_global + Seq::<Seq<char>>::empty());
        }
    }
    out
}


/// The status code follows `git status --short`: conflicts are `UU`,
/// untracked files `??`; otherwise each index flag on its own gives its
/// letter (added `A`, modified `M`, deleted `D`, renamed `R`, type changed
/// `T`) and so does each worktree flag (`M`, `D`, `R`, `T`), no flag gives
/// a blank, and the index letter does not depend on the worktree flags nor
/// the worktree letter on the index flags.
pub proof fn lemma_status_code_letters(f: StatusFlags, g: StatusFlags)
    ensures
        f.conflicted ==> status_code_spec(f) == ('U', 'U'),
        !f.conflicted && f.wt_new ==> status_code_spec(f) == ('?', '?'),
        !f.conflicted && !f.wt_new ==> {
            let x = status_code_spec(f).0;
            &&& f.index_new ==> x == 'A'
            &&& !f.index_new && f.index_modified ==> x == 'M'
            &&& !f.index_new && !f.index_modified && f.index_deleted ==> x == 'D'
            &&& !f.index_new && !f.index_modified && !f.index_deleted && f.index_renamed ==> x == 'R'
            &&& !f.index_new && !f.index_modified && !f.index_deleted && !f.index_renamed
                && f.index_typechange ==> x == 'T'
            &&& !f.index_new && !f.index_modified && !f.index_deleted && !f.index_renamed
                && !f.index_typechange ==> x == ' '
        },
        !f.conflicted && !f.wt_new ==> {
            let y = status_code_spec(f).1;
            &&& f.wt_modified ==> y == 'M'
            &&& !f.wt_modified && f.wt_deleted ==> y == 'D'
            &&& !f.wt_modified && !f.wt_deleted && f.wt_renamed ==> y == 'R'
            &&& !f.wt_modified && !f.wt_deleted && !f.wt_renamed && f.wt_typechange ==> y == 'T'
            &&& !f.wt_modified && !f.wt_deleted && !f.wt_renamed && !f.wt_typechange ==> y == ' '
        },
        !f.conflicted && !f.wt_new && !g.conflicted && !g.wt_new && f.index_new == g.index_new
            && f.index_modified == g.index_modified && f.index_deleted == g.index_deleted
            && f.index_renamed == g.index_renamed && f.index_typechange == g.index_typechange
            ==> status_code_spec(f).0 == status_code_spec(g).0,
        !f.conflicted && !f.wt_new && !g.conflicted && !g.wt_new && f.wt_modified == g.wt_modified
            && f.wt_deleted == g.wt_deleted && f.wt_renamed == g.wt_renamed && f.wt_typechange
            == g.wt_typechange ==> status_code_spec(f).1 == status_code_spec(g).1,
{
}

} // verus!
