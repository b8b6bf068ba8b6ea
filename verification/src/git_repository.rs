//! A snapshot of a Git repository's status: change counts, branch, and the
//! repository's GitHub page. Running `git` itself is the embedding
//! application's job; this module holds the record and the remote-URL
//! parsing.

use vstd::prelude::*;
use crate::text::{
    dec_str, file_name, file_name_spec, find_char, has_prefix, has_suffix, lemma_dec_str_len,
    str_ends_with, str_find_char, str_starts_with, trim, trim_spec, u64_to_string,
};

verus! {

/// One repository's status snapshot.
#[derive(Debug, PartialEq, Eq, Hash)]
pub struct GitRepository {
    pub path: String,
    pub modified_count: usize,
    pub added_count: usize,
    pub deleted_count: usize,
    pub untracked_count: usize,
    pub current_branch: Option<String>,
    pub github_url: Option<String>,
}

impl Clone for GitRepository {
    fn clone(&self) -> (res: Self)
        ensures
            res == *self,
    {
        GitRepository {
            path: self.path.clone(),
            modified_count: self.modified_count,
            added_count: self.added_count,
            deleted_count: self.deleted_count,
            untracked_count: self.untracked_count,
            current_branch: match &self.current_branch {
                Some(s) => Some(s.clone()),
                None => None,
            },
            github_url: match &self.github_url {
                Some(s) => Some(s.clone()),
                None => None,
            },
        }
    }
}

/// Fragments joined with single spaces.
pub open spec fn join_spaced(parts: Seq<Seq<char>>) -> Seq<char>
    decreases parts.len(),
{
    if parts.len() == 0 {
        Seq::empty()
    } else if parts.len() == 1 {
        parts[0]
    } else {
        join_spaced(parts.drop_last()) + " "@ + parts.last()
    }
}

/// The status fragments in display order: counts of modified, added,
/// deleted and untracked files, each with its letter, zero counts omitted.
pub open spec fn git_status_parts(m: nat, a: nat, d: nat, u: nat) -> Seq<Seq<char>> {
    (if m > 0 {
        seq![dec_str(m) + "M"@]
    } else {
        Seq::<Seq<char>>::empty()
    }) + (if a > 0 {
        seq![dec_str(a) + "A"@]
    } else {
        Seq::<Seq<char>>::empty()
    }) + (if d > 0 {
        seq![dec_str(d) + "D"@]
    } else {
        Seq::<Seq<char>>::empty()
    }) + (if u > 0 {
        seq![dec_str(u) + "U"@]
    } else {
        Seq::<Seq<char>>::empty()
    })
}

/// The status line: `clean` without changes, else the space-joined parts.
pub open spec fn status_text_spec(m: nat, a: nat, d: nat, u: nat) -> Seq<char> {
    if m == 0 && a == 0 && d == 0 && u == 0 {
        "clean"@
    } else {
        join_spaced(git_status_parts(m, a, d, u))
    }
}

/// `s` without a trailing `.git`, if it has one.
pub open spec fn strip_dot_git(s: Seq<char>) -> Seq<char> {
    if has_suffix(s, ".git"@) {
        s.subrange(0, s.len() - ".git"@.len())
    } else {
        s
    }
}

/// The GitHub page for a remote URL: an `https://github.com/...` remote
/// keeps its address, a `git@github.com:...` remote is rewritten to the
/// https form, anything else has no GitHub page; a `.git` suffix is dropped.
pub open spec fn parse_github_url_spec(s: Seq<char>) -> Option<Seq<char>> {
    if has_prefix(s, "https://github.com/"@) {
        Some(strip_dot_git(s))
    } else if has_prefix(s, "git@github.com:"@) {
        Some(
            "https://github.com/"@ + strip_dot_git(
                s.subrange("git@github.com:"@.len() as int, s.len() as int),
            ),
        )
    } else {
        None
    }
}

impl GitRepository {
    /// A fresh snapshot for a path: no changes, no branch, no GitHub page.
    pub fn new(path: String) -> (r: Self)
        ensures
            r.path == path,
            r.modified_count == 0,
            r.added_count == 0,
            r.deleted_count == 0,
            r.untracked_count == 0,
            r.current_branch is None,
            r.github_url is None,
    {
        GitRepository {
            path,
            modified_count: 0,
            added_count: 0,
            deleted_count: 0,
            untracked_count: 0,
            current_branch: None,
            github_url: None,
        }
    }

    /// Whether any file is modified, added, deleted or untracked.
    pub fn has_changes(&self) -> (r: bool)
        ensures
            r == (self.modified_count > 0 || self.added_count > 0 || self.deleted_count > 0
                || self.untracked_count > 0),
    {
        self.modified_count > 0 || self.added_count > 0 || self.deleted_count > 0
            || self.untracked_count > 0
    }

    /// The total number of changed files.
    pub fn total_changed_files(&self) -> (r: usize)
        requires
            self.modified_count + self.added_count + self.deleted_count + self.untracked_count
                <= usize::MAX,
        ensures
            r == self.modified_count + self.added_count + self.deleted_count
                + self.untracked_count,
    {
        self.modified_count + self.added_count + self.deleted_count + self.untracked_count
    }

    /// The final component of the repository's path.
    pub fn folder_name(&self) -> (r: &str)
        ensures
            r@ == file_name_spec(self.path@),
    {
        file_name(self.path.as_str())
    }

    /// The one-line status summary, `clean` or counts such as `3M 2A`.
    pub fn status_text(&self) -> (r: String)
        ensures
            r@ == status_text_spec(
                self.modified_count as nat,
                self.added_count as nat,
                self.deleted_count as nat,
                self.untracked_count as nat,
            ),
    {
        if !self.has_changes() {
            let r = String::from_str("clean");
            return r;
        }
        let mut out = String::new();
        let ghost mut parts: Seq<Seq<char>> = Seq::empty();
        proof {
            assert(out@ =~= join_spaced(parts));
        }
        if self.modified_count > 0 {
            push_count_part(&mut out, Ghost(parts), self.modified_count, "M");
            proof {
                lemma_dec_str_len(self.modified_count as nat);
                parts = record_part(parts, self.modified_count as nat, "M"@);
            }
        }
        if self.added_count > 0 {
            push_count_part(&mut out, Ghost(parts), self.added_count, "A");
            proof {
                lemma_dec_str_len(self.added_count as nat);
                parts = record_part(parts, self.added_count as nat, "A"@);
            }
        }
        if self.deleted_count > 0 {
            push_count_part(&mut out, Ghost(parts), self.deleted_count, "D");
            proof {
                lemma_dec_str_len(self.deleted_count as nat);
                parts = record_part(parts, self.deleted_count as nat, "D"@);
            }
        }
        if self.untracked_count > 0 {
            push_count_part(&mut out, Ghost(parts), self.untracked_count, "U");
            proof {
                lemma_dec_str_len(self.untracked_count as nat);
                parts = record_part(parts, self.untracked_count as nat, "U"@);
            }
        }
        proof {
            assert(parts =~= git_status_parts(
                self.modified_count as nat,
                self.added_count as nat,
                self.deleted_count as nat,
                self.untracked_count as nat,
            ));
        }
        out
    }

    /// The GitHub page for a `git remote get-url` answer, if the remote is
    /// on GitHub.
    pub fn parse_github_url(remote_url: &str) -> (r: Option<String>)
        ensures
            match r {
                Some(v) => parse_github_url_spec(remote_url@) == Some(v@),
                None => parse_github_url_spec(remote_url@) is None,
            },
    {
        if str_starts_with(remote_url, "https://github.com/") {
            let clean = strip_git_suffix(remote_url);
            Some(String::from_str(clean))
        } else if str_starts_with(remote_url, "git@github.com:") {
            proof {
                reveal_strlit("git@github.com:");
            }
            let len = remote_url.unicode_len();
            let path_part = remote_url.substring_char(15, len);
            proof {
                assert(path_part@ =~= remote_url@.subrange(
                    "git@github.com:"@.len() as int,
                    remote_url@.len() as int,
                ));
            }
            let clean = strip_git_suffix(path_part);
            let mut r = String::from_str("https://github.com/");
            r.append(clean);
            Some(r)
        } else {
            None
        }
    }
}

/// `s` without its trailing `.git`, if any.
fn strip_git_suffix<'a>(s: &'a str) -> (r: &'a str)
    ensures
        r@ == strip_dot_git(s@),
{
    if str_ends_with(s, ".git") {
        proof {
            reveal_strlit(".git");
        }
        let len = s.unicode_len();
        let r = s.substring_char(0, len - 4);
        assert(r@ =~= s@.subrange(0, s@.len() - ".git"@.len()));
        r
    } else {
        s
    }
}

/// A join of nonempty fragments is nonempty.
proof fn lemma_join_spaced_nonempty(parts: Seq<Seq<char>>)
    requires
        parts.len() > 0,
        forall|i: int| 0 <= i < parts.len() ==> (#[trigger] parts[i]).len() > 0,
    ensures
        join_spaced(parts).len() > 0,
    decreases parts.len(),
{
    if parts.len() == 1 {
        assert(parts[0].len() > 0);
    } else {
        assert(join_spaced(parts) == join_spaced(parts.drop_last()) + " "@ + parts.last());
        assert(parts.last().len() > 0);
    }
}

/// The ghost record of appending one fragment.
spec fn record_part(parts: Seq<Seq<char>>, n: nat, letter: Seq<char>) -> Seq<Seq<char>> {
    parts.push(dec_str(n) + letter)
}

/// Append one `<count><letter>` fragment, space-separated from what is
/// already there; the output stays the space-join of the fragments so far.
fn push_count_part(out: &mut String, parts: Ghost<Seq<Seq<char>>>, n: usize, letter: &str)
    requires
        n > 0,
        old(out)@ == join_spaced(parts@),
        forall|i: int| 0 <= i < parts@.len() ==> (#[trigger] parts@[i]).len() > 0,
    ensures
        final(out)@ == join_spaced(record_part(parts@, n as nat, letter@)),
{
    if out.as_str().unicode_len() > 0 {
        proof {
            reveal_strlit(" ");
        }
        out.append(" ");
    }
    let num = u64_to_string(n as u64);
    out.append(num.as_str());
    out.append(letter);
    proof {
        let p = dec_str(n as nat) + letter@;
        let newparts = record_part(parts@, n as nat, letter@);
        assert(newparts.last() == p);
        assert(newparts.drop_last() =~= parts@);
        if parts@.len() == 0 {
            assert(join_spaced(parts@).len() == 0);
            assert(join_spaced(newparts) == p);
            assert(final(out)@ =~= p);
        } else {
            lemma_join_spaced_nonempty(parts@);
            assert(join_spaced(newparts) == join_spaced(parts@) + " "@ + p);
            assert(final(out)@ =~= join_spaced(parts@) + " "@ + p);
        }
    }
}


/// The running result of reading `git status --porcelain --branch` output:
/// the branch named so far and the per-kind change counts.
pub struct GitStatusSummary {
    pub branch: Option<Seq<char>>,
    pub modified: nat,
    pub added: nat,
    pub deleted: nat,
    pub untracked: nat,
}

/// No branch, no changes.
pub open spec fn empty_status() -> GitStatusSummary {
    GitStatusSummary { branch: None, modified: 0, added: 0, deleted: 0, untracked: 0 }
}

/// Fold one status line into the summary: a `##` line names the branch (up
/// to any tracking suffix after a dot), a two-character status code counts
/// the file under its kind, anything else is skipped.
pub open spec fn status_line_step(acc: GitStatusSummary, line: Seq<char>) -> GitStatusSummary {
    let t = trim_spec(line);
    if has_prefix(t, "##"@) {
        let info = trim_spec(t.subrange("##"@.len() as int, t.len() as int));
        let b = match find_char(info, '.') {
            Some(d) => info.subrange(0, d),
            None => info,
        };
        GitStatusSummary { branch: Some(b), ..acc }
    } else if t.len() < 2 {
        acc
    } else {
        let code = t.subrange(0, 2);
        if code == "??"@ {
            GitStatusSummary { untracked: acc.untracked + 1, ..acc }
        } else if code.contains('M') {
            GitStatusSummary { modified: acc.modified + 1, ..acc }
        } else if code.contains('A') {
            GitStatusSummary { added: acc.added + 1, ..acc }
        } else if code.contains('D') {
            GitStatusSummary { deleted: acc.deleted + 1, ..acc }
        } else if code.contains('R') || code.contains('C') {
            GitStatusSummary { modified: acc.modified + 1, ..acc }
        } else if code.contains('U') {
            GitStatusSummary { modified: acc.modified + 1, ..acc }
        } else {
            acc
        }
    }
}

/// Fold the remaining output, line by line.
pub open spec fn status_fold(acc: GitStatusSummary, out: Seq<char>) -> GitStatusSummary
    decreases out.len(),
{
    match find_char(out, '\n') {
        None => status_line_step(acc, out),
        Some(k) => if 0 <= k < out.len() {
            status_fold(status_line_step(acc, out.subrange(0, k)), out.subrange(k + 1, out.len() as int))
        } else {
            acc
        },
    }
}

/// What `git status --porcelain --branch` output amounts to.
pub open spec fn git_status_spec(out: Seq<char>) -> GitStatusSummary {
    status_fold(empty_status(), out)
}

/// One status line can grow one counter by at most one, and only when the
/// line holds at least two characters.
proof fn lemma_status_step_growth(acc: GitStatusSummary, line: Seq<char>)
    ensures
        ({
            let r = status_line_step(acc, line);
            &&& r.modified + r.added + r.deleted + r.untracked <= acc.modified + acc.added
                + acc.deleted + acc.untracked + (if line.len() >= 2 {
                1int
            } else {
                0
            })
        }),
{
    let t = trim_spec(line);
    lemma_trim_len(line);
}

/// Trimming never lengthens a string.
proof fn lemma_trim_len(s: Seq<char>)
    ensures
        trim_spec(s).len() <= s.len(),
{
    lemma_trim_front_len(s);
    lemma_trim_back_len(crate::text::trim_front(s));
}

proof fn lemma_trim_front_len(s: Seq<char>)
    ensures
        crate::text::trim_front(s).len() <= s.len(),
    decreases s.len(),
{
    if s.len() > 0 && crate::text::is_space(s.first()) {
        lemma_trim_front_len(s.drop_first());
    }
}

proof fn lemma_trim_back_len(s: Seq<char>)
    ensures
        crate::text::trim_back(s).len() <= s.len(),
    decreases s.len(),
{
    if s.len() > 0 && crate::text::is_space(s.last()) {
        lemma_trim_back_len(s.drop_last());
    }
}

/// Whether one of the first two characters is `c`.
fn code_has(t: &str, c: char) -> (r: bool)
    requires
        t@.len() >= 2,
    ensures
        r == t@.subrange(0, 2).contains(c),
{
    let a = t.get_char(0);
    let b = t.get_char(1);
    proof {
        let code = t@.subrange(0, 2);
        assert(code[0] == t@[0]);
        assert(code[1] == t@[1]);
        if a == c || b == c {
            assert(code.contains(c));
        } else {
            assert(forall|i: int| 0 <= i < 2 ==> code[i] != c);
        }
    }
    a == c || b == c
}

/// Fold one line into the running counts and branch.
fn apply_status_line(
    line: &str,
    branch: &mut Option<String>,
    modified: &mut usize,
    added: &mut usize,
    deleted: &mut usize,
    untracked: &mut usize,
) -> (counted: bool)
    requires
        *old(modified) + *old(added) + *old(deleted) + *old(untracked) < usize::MAX,
    ensures
        ({
            let acc = GitStatusSummary {
                branch: match *old(branch) {
                    Some(b) => Some(b@),
                    None => None,
                },
                modified: *old(modified) as nat,
                added: *old(added) as nat,
                deleted: *old(deleted) as nat,
                untracked: *old(untracked) as nat,
            };
            let r = status_line_step(acc, line@);
            &&& (match *final(branch) {
                Some(b) => Some(b@),
                None => None::<Seq<char>>,
            }) == r.branch
            &&& *final(modified) as nat == r.modified
            &&& *final(added) as nat == r.added
            &&& *final(deleted) as nat == r.deleted
            &&& *final(untracked) as nat == r.untracked
        }),
        counted == (*final(modified) + *final(added) + *final(deleted) + *final(untracked)
            == *old(modified) + *old(added) + *old(deleted) + *old(untracked) + 1),
        counted ==> line@.len() >= 2,
{
    let t = trim(line);
    proof {
        lemma_trim_len(line@);
    }
    if str_starts_with(t, "##") {
        proof {
            reveal_strlit("##");
        }
        let tlen = t.unicode_len();
        let info = trim(t.substring_char(2, tlen));
        proof {
            assert(t@.subrange(2, t@.len() as int) =~= t@.subrange(
                "##"@.len() as int,
                t@.len() as int,
            ));
        }
        let b = match str_find_char(info, '.') {
            Some(d) => {
                let cut = info.substring_char(0, d);
                String::from_str(cut)
            },
            None => String::from_str(info),
        };
        *branch = Some(b);
        return false;
    }
    let tlen = t.unicode_len();
    if tlen < 2 {
        return false;
    }
    proof {
        reveal_strlit("??");
    }
    let two = t.substring_char(0, 2);
    if str_eq_code(two, t) {
        *untracked = *untracked + 1;
        true
    } else if code_has(t, 'M') {
        *modified = *modified + 1;
        true
    } else if code_has(t, 'A') {
        *added = *added + 1;
        true
    } else if code_has(t, 'D') {
        *deleted = *deleted + 1;
        true
    } else if code_has(t, 'R') || code_has(t, 'C') {
        *modified = *modified + 1;
        true
    } else if code_has(t, 'U') {
        *modified = *modified + 1;
        true
    } else {
        false
    }
}

/// Whether the first two characters of `t` (given as `two`) read `??`.
fn str_eq_code(two: &str, t: &str) -> (r: bool)
    requires
        t@.len() >= 2,
        two@ == t@.subrange(0, 2),
    ensures
        r == (t@.subrange(0, 2) == "??"@),
{
    crate::text::str_eq(two, "??")
}

/// Parse `git status --porcelain --branch` output into a repository
/// snapshot: the branch from the `##` header, one count per changed file by
/// its status code, and no GitHub page yet.
pub fn parse_git_status(output: &str, repo_path: &str) -> (r: GitRepository)
    ensures
        ({
            let s = git_status_spec(output@);
            &&& r.path@ == repo_path@
            &&& r.modified_count as nat == s.modified
            &&& r.added_count as nat == s.added
            &&& r.deleted_count as nat == s.deleted
            &&& r.untracked_count as nat == s.untracked
            &&& (match r.current_branch {
                Some(b) => Some(b@),
                None => None::<Seq<char>>,
            }) == s.branch
            &&& r.github_url is None
        }),
{
    let ghost out0 = output@;
    let total_len = output.unicode_len();
    let mut branch: Option<String> = None;
    let mut modified: usize = 0;
    let mut added: usize = 0;
    let mut deleted: usize = 0;
    let mut untracked: usize = 0;
    let mut rest: &str = output;
    loop
        invariant
            out0 == output@,
            total_len == out0.len(),
            rest@.len() <= out0.len(),
            2 * (modified + added + deleted + untracked) <= out0.len() - rest@.len(),
            git_status_spec(out0) == status_fold(
                (GitStatusSummary {
                    branch: match branch {
                        Some(b) => Some(b@),
                        None => None,
                    },
                    modified: modified as nat,
                    added: added as nat,
                    deleted: deleted as nat,
                    untracked: untracked as nat,
                }),
                rest@,
            ),
        decreases rest@.len(),
    {
        match str_find_char(rest, '\n') {
            Some(kpos) => {
                let rlen = rest.unicode_len();
                let line = rest.substring_char(0, kpos);
                let next = rest.substring_char(kpos + 1, rlen);
                proof {
                    assert(line@ =~= rest@.subrange(0, kpos as int));
                    assert(next@ =~= rest@.subrange(kpos + 1, rest@.len() as int));
                }
                let _counted = apply_status_line(
                    line,
                    &mut branch,
                    &mut modified,
                    &mut added,
                    &mut deleted,
                    &mut untracked,
                );
                rest = next;
            },
            None => {
                let _counted = apply_status_line(
                    rest,
                    &mut branch,
                    &mut modified,
                    &mut added,
                    &mut deleted,
                    &mut untracked,
                );
                return GitRepository {
                    path: String::from_str(repo_path),
                    modified_count: modified,
                    added_count: added,
                    deleted_count: deleted,
                    untracked_count: untracked,
                    current_branch: branch,
                    github_url: None,
                };
            },
        }
    }
}

} // verus!
