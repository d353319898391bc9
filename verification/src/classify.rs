//! Interpretation of git's output: exit-code success, extraction of a
//! diagnostic message, and the single place where the engine classifies
//! failure text by case-insensitive substring matching against a fixed
//! table of known phrases.

use vstd::prelude::*;
use crate::text;

verus! {

use vstd::string::StringExecFns;

/// What one git invocation produced: exit code (absent when the process was
/// killed by a signal) and its decoded output streams.
#[derive(Debug, Clone)]
pub struct GitCommandOutput {
    pub status_code: Option<i32>,
    pub stdout: String,
    pub stderr: String,
}

pub open spec fn spec_success(o: GitCommandOutput) -> bool {
    o.status_code == Some(0i32)
}

impl GitCommandOutput {
    /// Exit code zero; every other outcome counts as failure.
    pub fn success(&self) -> (r: bool)
        ensures
            r == spec_success(*self),
    {
        match self.status_code {
            Some(c) => c == 0,
            None => false,
        }
    }
}

/// The diagnostic a failed command surfaces: trimmed stderr if any, else
/// trimmed stdout, else a fixed fallback.
pub open spec fn err_msg_of(o: GitCommandOutput) -> Seq<char> {
    if text::trim_spec(o.stderr@).len() > 0 {
        text::trim_spec(o.stderr@)
    } else if text::trim_spec(o.stdout@).len() > 0 {
        text::trim_spec(o.stdout@)
    } else {
        "unknown git error"@
    }
}

pub fn command_error_message(output: &GitCommandOutput) -> (r: String)
    ensures
        r@ == err_msg_of(*output),
{
    let stderr = text::trim(output.stderr.as_str());
    if stderr.as_str().unicode_len() > 0 {
        return stderr;
    }
    let stdout = text::trim(output.stdout.as_str());
    if stdout.as_str().unicode_len() > 0 {
        return stdout;
    }
    String::from_str("unknown git error")
}

// ───────────────────────── failure-text classification ─────────────────────────
// `l` is always the lowercased failure message.

/// The pull failed only because there is nothing to pull yet: the remote
/// branch does not exist, or the directory is not a repository from the
/// remote's point of view.
pub open spec fn is_benign_pull_text(l: Seq<char>) -> bool {
    text::contains_seq(l, "couldn't find remote ref"@) || text::contains_seq(
        l,
        "no such ref was fetched"@,
    ) || text::contains_seq(l, "not a git repository"@)
}

/// The pull was refused because local and remote histories are unrelated.
pub open spec fn is_unrelated_histories_text(l: Seq<char>) -> bool {
    text::contains_seq(l, "refusing to merge unrelated histories"@)
}

/// The push was rejected because the remote has newer history.
pub open spec fn is_remote_ahead_text(l: Seq<char>) -> bool {
    text::contains_seq(l, "non-fast-forward"@) || text::contains_seq(l, "fetch first"@)
}

/// How a failed pull is to be handled.
#[derive(Debug, Clone, Copy, PartialEq, Eq, Structural)]
pub enum PullFailureClass {
    /// Nothing to synchronize yet; treat as success.
    NothingToPull,
    /// Retry once allowing unrelated histories.
    UnrelatedHistories,
    /// Unclassified: look for content conflicts.
    Other,
}

/// The single pure classifier for pull failure text (case-insensitive).
pub fn classify_pull_failure(message: &str) -> (r: PullFailureClass)
    ensures
        r == PullFailureClass::NothingToPull <==> is_benign_pull_text(text::lower_seq(message@)),
        r == PullFailureClass::UnrelatedHistories <==> (!is_benign_pull_text(
            text::lower_seq(message@),
        ) && is_unrelated_histories_text(text::lower_seq(message@))),
{
    let lower = text::to_lowercase(message);
    let l = lower.as_str();
    if text::contains_str(l, "couldn't find remote ref") || text::contains_str(
        l,
        "no such ref was fetched",
    ) || text::contains_str(l, "not a git repository") {
        PullFailureClass::NothingToPull
    } else if text::contains_str(l, "refusing to merge unrelated histories") {
        PullFailureClass::UnrelatedHistories
    } else {
        PullFailureClass::Other
    }
}

/// Case-insensitive test for a push rejected as non-fast-forward.
pub fn push_rejected_as_remote_ahead(message: &str) -> (r: bool)
    ensures
        r == is_remote_ahead_text(text::lower_seq(message@)),
{
    let lower = text::to_lowercase(message);
    let l = lower.as_str();
    text::contains_str(l, "non-fast-forward") || text::contains_str(l, "fetch first")
}

/// A failed commit whose message says there was nothing to commit counts as
/// success (case-sensitive, as git prints it).
pub fn is_nothing_to_commit(message: &str) -> (r: bool)
    ensures
        r == text::contains_seq(message@, "nothing to commit"@),
{
    text::contains_str(message, "nothing to commit")
}

// ───────────────────────── conflicted-file listing ─────────────────────────

/// The conflicted paths named by the machine-readable diff listing: one per
/// non-blank line, trimmed.
pub open spec fn conflicted_files_spec(stdout: Seq<char>) -> Seq<Seq<char>> {
    text::nonblank_trimmed(text::split_char_spec(stdout, '\n'))
}

/// Parses the output of the list-conflicted-files query.
pub fn list_conflicted_files(stdout: &str) -> (r: Vec<String>)
    ensures
        r.deep_view() == conflicted_files_spec(stdout@),
{
    let lines = text::split_char(stdout, '\n');
    let ghost lv = lines.deep_view();
    let mut out: Vec<String> = Vec::new();
    let mut i: usize = 0;
    proof {
        assert(lv.skip(0) =~= lv);
        assert(out.deep_view() =~= Seq::<Seq<char>>::empty());
        assert(out.deep_view() + text::nonblank_trimmed(lv) =~= text::nonblank_trimmed(lv));
    }
    while i < lines.len()
        invariant
            i <= lines.len(),
            lines.deep_view() == lv,
            lv == text::split_char_spec(stdout@, '\n'),
            lv.len() == lines.len(),
            text::nonblank_trimmed(lv) == out.deep_view() + text::nonblank_trimmed(lv.skip(i as int)),
        decreases lines.len() - i,
    {
        proof {
            assert(lv.skip(i as int).len() > 0);
            assert(lv.skip(i as int)[0] == lv[i as int]);
            assert(lv.skip(i as int).drop_first() =~= lv.skip(i + 1 as int));
            assert(lv[i as int] == lines[i as int]@);
        }
        let t = text::trim(lines[i].as_str());
        if t.as_str().unicode_len() > 0 {
            let ghost old_out = out.deep_view();
            out.push(t);
            proof {
                assert(out.deep_view() =~= old_out.push(text::trim_spec(lv[i as int])));
                assert(old_out + (seq![text::trim_spec(lv[i as int])] + text::nonblank_trimmed(
                    lv.skip(i + 1 as int),
                )) =~= out.deep_view() + text::nonblank_trimmed(lv.skip(i + 1 as int)));
            }
        }
        i += 1;
    }
    proof {
        assert(lv.skip(lines.len() as int) =~= Seq::<Seq<char>>::empty());
        assert(out.deep_view() + text::nonblank_trimmed(lv.skip(lines.len() as int)) =~= out.deep_view());
    }
    out
}

} // verus!
