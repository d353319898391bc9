//! The sync pipeline as a verified state machine.
//!
//! One sync attempt is bootstrap -> commit -> pull (with conflict
//! resolution) -> push, in that order.  The engine never touches the
//! filesystem or spawns a process itself: [`SyncEngine::start`] validates the
//! configuration and hands the host the first command, and every
//! [`SyncEngine::step`] consumes the outcome of the previous command and
//! returns the next one, until a [`SyncCommand::Finished`] carries the
//! overall result.  The host executes each command against the repository
//! directory, under the process-wide sync mutex, so no two pipelines ever
//! run concurrently against the same repository.
//!
//! If a command cannot be executed at all (the git binary failed to
//! launch, say) the host abandons the pipeline and reports that error
//! itself; the engine only ever sees an outcome of a launched command.

use vstd::prelude::*;
use crate::classify::{self, GitCommandOutput, PullFailureClass};
use crate::config::{self, GitSharingSettings, SyncTrigger};
use crate::conflict;
use crate::text;

verus! {

use vstd::string::StrSliceExecFns;
use vstd::string::StringExecFns;

/// What the engine asks the host to do next.  Paths are relative to the
/// repository directory.
#[derive(Debug)]
pub enum SyncCommand {
    /// Run git with these arguments against the repository directory.
    RunGit(Vec<String>),
    /// Report whether the repository metadata directory (".git") exists.
    ProbeRepoMeta,
    /// Read a file to a string, if it exists.
    ReadFile(String),
    /// Write a file, creating parent directories as needed.
    WriteFile(String, String),
    /// The pipeline is over with this result.
    Finished(Result<(), String>),
}

/// The host's answer to the previous command.
#[derive(Debug)]
pub enum SyncEvent {
    GitDone(GitCommandOutput),
    Probed(bool),
    FileRead(Option<String>),
    /// `None` on success, `Some(message)` when the write failed.
    Wrote(Option<String>),
}

/// Where the pipeline stands; the data a later step needs travels in the
/// variant.
#[derive(Debug)]
pub enum Phase {
    ProbingRepo,
    InitBranch,
    InitPlain,
    CreateBranch,
    ReadUserName,
    SetUserName,
    ReadUserEmail,
    SetUserEmail,
    ReadGitignore,
    WriteGitignore,
    ReadRemote,
    SetRemoteUrl,
    AddRemote,
    CheckoutBranch,
    StageAll,
    QueryStatus,
    Commit,
    Pull { retry_of_push: bool },
    PullUnrelated { retry_of_push: bool, pull_error: String },
    ListConflicts { retry_of_push: bool, pull_error: String },
    ReadStage2 { retry_of_push: bool, files: Vec<String>, idx: usize },
    ReadStage3 { retry_of_push: bool, files: Vec<String>, idx: usize },
    WriteDuplicate { retry_of_push: bool, files: Vec<String>, idx: usize, dup: String },
    StageDuplicate { retry_of_push: bool, files: Vec<String>, idx: usize, dup: String },
    CheckoutTheirs { retry_of_push: bool, files: Vec<String>, idx: usize },
    StageResolved { retry_of_push: bool, files: Vec<String>, idx: usize },
    CommitResolution { retry_of_push: bool },
    Push { retried: bool },
    Done,
    Failed,
}

/// The commit step runs strictly before the pull steps, which run strictly
/// before the push; the rank can only move forward, except for the single
/// pull+push retry after a rejected first push.
pub open spec fn phase_rank(p: Phase) -> int {
    match p {
        Phase::ProbingRepo => 0,
        Phase::InitBranch => 0,
        Phase::InitPlain => 0,
        Phase::CreateBranch => 0,
        Phase::ReadUserName => 0,
        Phase::SetUserName => 0,
        Phase::ReadUserEmail => 0,
        Phase::SetUserEmail => 0,
        Phase::ReadGitignore => 0,
        Phase::WriteGitignore => 0,
        Phase::ReadRemote => 0,
        Phase::SetRemoteUrl => 0,
        Phase::AddRemote => 0,
        Phase::CheckoutBranch => 0,
        Phase::StageAll => 1,
        Phase::QueryStatus => 1,
        Phase::Commit => 1,
        Phase::Pull { .. } => 2,
        Phase::PullUnrelated { .. } => 2,
        Phase::ListConflicts { .. } => 2,
        Phase::ReadStage2 { .. } => 2,
        Phase::ReadStage3 { .. } => 2,
        Phase::WriteDuplicate { .. } => 2,
        Phase::StageDuplicate { .. } => 2,
        Phase::CheckoutTheirs { .. } => 2,
        Phase::StageResolved { .. } => 2,
        Phase::CommitResolution { .. } => 2,
        Phase::Push { .. } => 3,
        Phase::Done => 4,
        Phase::Failed => 4,
    }
}

/// Conflict-resolution phases always index into a non-empty file list.
pub open spec fn phase_wf(p: Phase) -> bool {
    match p {
        Phase::ReadStage2 { files, idx, .. } => idx < files.len(),
        Phase::ReadStage3 { files, idx, .. } => idx < files.len(),
        Phase::WriteDuplicate { files, idx, .. } => idx < files.len(),
        Phase::StageDuplicate { files, idx, .. } => idx < files.len(),
        Phase::CheckoutTheirs { files, idx, .. } => idx < files.len(),
        Phase::StageResolved { files, idx, .. } => idx < files.len(),
        _ => true,
    }
}

/// The kind of event each phase is waiting for.
pub open spec fn awaited_event(p: Phase, e: SyncEvent) -> bool {
    match p {
        Phase::ProbingRepo => e is Probed,
        Phase::ReadGitignore => e is FileRead,
        Phase::WriteGitignore => e is Wrote,
        Phase::WriteDuplicate { .. } => e is Wrote,
        _ => e is GitDone,
    }
}

pub open spec fn is_run_git(c: SyncCommand, args: Seq<Seq<char>>) -> bool {
    c matches SyncCommand::RunGit(a) && a.deep_view() == args
}

pub open spec fn is_finished_err(c: SyncCommand, msg: Seq<char>) -> bool {
    &&& c matches SyncCommand::Finished(res)
    &&& res matches Err(m)
    &&& m@ == msg
}

pub open spec fn is_finished_ok(c: SyncCommand) -> bool {
    c matches SyncCommand::Finished(r) && r is Ok
}

pub open spec fn pull_args(branch: Seq<char>) -> Seq<Seq<char>> {
    seq!["pull"@, "--no-rebase"@, "origin"@, branch]
}

pub open spec fn pull_unrelated_args(branch: Seq<char>) -> Seq<Seq<char>> {
    seq!["pull"@, "--no-rebase"@, "--allow-unrelated-histories"@, "origin"@, branch]
}

pub open spec fn push_args(branch: Seq<char>) -> Seq<Seq<char>> {
    seq!["push"@, "-u"@, "origin"@, branch]
}

/// The commit message for a sync commit: timestamp plus trigger label.
pub open spec fn commit_message_spec(now_label: Seq<char>, trigger: SyncTrigger) -> Seq<char> {
    "stik: sync "@ + now_label + " notes ("@ + config::trigger_label(trigger) + ")"@
}

/// One sync attempt in flight.
#[derive(Debug)]
pub struct SyncEngine {
    pub phase: Phase,
    /// Normalized branch name (trimmed, defaulting to "main").
    pub branch: String,
    /// Trimmed remote URL.
    pub remote_url: String,
    /// The message a sync commit will carry.
    pub commit_message: String,
    /// Timestamp marker for conflict duplicates.
    pub conflict_timestamp: String,
}

pub open spec fn engine_wf(e: SyncEngine) -> bool {
    phase_wf(e.phase)
}

/// The pipeline is past its first push: it is re-running the pull, or
/// pushing for the second time.  Once set, the flag travels forward, so the
/// retry cycle can happen at most once.
pub open spec fn in_retry(p: Phase) -> bool {
    match p {
        Phase::Pull { retry_of_push } => retry_of_push,
        Phase::PullUnrelated { retry_of_push, .. } => retry_of_push,
        Phase::ListConflicts { retry_of_push, .. } => retry_of_push,
        Phase::ReadStage2 { retry_of_push, .. } => retry_of_push,
        Phase::ReadStage3 { retry_of_push, .. } => retry_of_push,
        Phase::WriteDuplicate { retry_of_push, .. } => retry_of_push,
        Phase::StageDuplicate { retry_of_push, .. } => retry_of_push,
        Phase::CheckoutTheirs { retry_of_push, .. } => retry_of_push,
        Phase::StageResolved { retry_of_push, .. } => retry_of_push,
        Phase::CommitResolution { retry_of_push } => retry_of_push,
        Phase::Push { retried } => retried,
        _ => false,
    }
}

// ───────────────────────── small exec helpers ─────────────────────────

fn git_args2(a0: &str, a1: &str) -> (r: Vec<String>)
    ensures
        r.deep_view() == seq![a0@, a1@],
{
    let mut v: Vec<String> = Vec::new();
    v.push(a0.to_owned());
    v.push(a1.to_owned());
    proof {
        assert(v.deep_view() =~= seq![a0@, a1@]);
    }
    v
}

fn git_args3(a0: &str, a1: &str, a2: &str) -> (r: Vec<String>)
    ensures
        r.deep_view() == seq![a0@, a1@, a2@],
{
    let mut v: Vec<String> = Vec::new();
    v.push(a0.to_owned());
    v.push(a1.to_owned());
    v.push(a2.to_owned());
    proof {
        assert(v.deep_view() =~= seq![a0@, a1@, a2@]);
    }
    v
}

fn git_args4(a0: &str, a1: &str, a2: &str, a3: &str) -> (r: Vec<String>)
    ensures
        r.deep_view() == seq![a0@, a1@, a2@, a3@],
{
    let mut v: Vec<String> = Vec::new();
    v.push(a0.to_owned());
    v.push(a1.to_owned());
    v.push(a2.to_owned());
    v.push(a3.to_owned());
    proof {
        assert(v.deep_view() =~= seq![a0@, a1@, a2@, a3@]);
    }
    v
}

fn git_args5(a0: &str, a1: &str, a2: &str, a3: &str, a4: &str) -> (r: Vec<String>)
    ensures
        r.deep_view() == seq![a0@, a1@, a2@, a3@, a4@],
{
    let mut v: Vec<String> = Vec::new();
    v.push(a0.to_owned());
    v.push(a1.to_owned());
    v.push(a2.to_owned());
    v.push(a3.to_owned());
    v.push(a4.to_owned());
    proof {
        assert(v.deep_view() =~= seq![a0@, a1@, a2@, a3@, a4@]);
    }
    v
}

fn concat2(a: &str, b: &str) -> (r: String)
    ensures
        r@ == a@ + b@,
{
    let mut s = a.to_owned();
    s.append(b);
    s
}

fn concat4(a: &str, b: &str, c: &str, d: &str) -> (r: String)
    ensures
        r@ == a@ + b@ + c@ + d@,
{
    let mut s = a.to_owned();
    s.append(b);
    s.append(c);
    s.append(d);
    s
}

/// A fatal step outcome: the pipeline ends with this message.
fn fail(msg: String) -> (r: (Phase, SyncCommand))
    ensures
        r.0 is Failed,
        is_finished_err(r.1, msg@),
{
    (Phase::Failed, SyncCommand::Finished(Err(msg)))
}

/// A fatal step outcome with a context prefix and the git diagnostic.
fn fail_ctx(prefix: &str, output: &GitCommandOutput) -> (r: (Phase, SyncCommand))
    ensures
        r.0 is Failed,
        is_finished_err(r.1, prefix@ + classify::err_msg_of(*output)),
{
    let msg = classify::command_error_message(output);
    fail(concat2(prefix, msg.as_str()))
}

// ───────────────────────── the gitignore baseline ─────────────────────────

/// Whether the ignore file already lists the OS metadata entry.
pub open spec fn gitignore_has_entry(existing: Seq<char>) -> bool {
    exists|i: int|
        0 <= i < text::lines_spec(existing).len() && text::trim_spec(
            #[trigger] text::lines_spec(existing)[i],
        ) == ".DS_Store"@
}

/// The merged ignore file: every existing line kept, the baseline entry
/// appended, and a final newline guaranteed.
pub open spec fn gitignore_merged(existing: Seq<char>) -> Seq<char> {
    let joined = text::join_char_spec(text::lines_spec(existing).push(".DS_Store"@), '\n');
    if joined.len() > 0 && joined.last() == '\n' {
        joined
    } else {
        joined.push('\n')
    }
}

/// Computes the new ignore-file content, or `None` when nothing is missing
/// and no write is needed.
pub fn merge_gitignore_entries(existing: &str) -> (r: Option<String>)
    ensures
        r is None <==> gitignore_has_entry(existing@),
        r is Some ==> r->0@ == gitignore_merged(existing@),
{
    let mut lines = text::split_lines(existing);
    let ghost lv = lines.deep_view();
    let mut i: usize = 0;
    while i < lines.len()
        invariant
            i <= lines.len(),
            lines.deep_view() == lv,
            lv == text::lines_spec(existing@),
            lv.len() == lines.len(),
            forall|k: int| 0 <= k < i ==> text::trim_spec(#[trigger] lv[k]) != ".DS_Store"@,
        decreases lines.len() - i,
    {
        let t = text::trim(lines[i].as_str());
        if text::str_eq(t.as_str(), ".DS_Store") {
            proof {
                assert(lv[i as int] == lines[i as int]@);
                assert(text::trim_spec(text::lines_spec(existing@)[i as int]) == ".DS_Store"@);
                assert(gitignore_has_entry(existing@));
            }
            return None;
        }
        proof {
            assert(lv[i as int] == lines[i as int]@);
        }
        i += 1;
    }
    let ghost before = lines.deep_view();
    lines.push(String::from_str(".DS_Store"));
    proof {
        assert(lines.deep_view() =~= before.push(".DS_Store"@));
    }
    let mut joined = text::join_strings(&lines, '\n');
    let n = joined.as_str().unicode_len();
    if n == 0 || joined.as_str().get_char(n - 1) != '\n' {
        text::push_char(&mut joined, '\n');
    }
    Some(joined)
}

// ───────────────────────── the engine ─────────────────────────

impl SyncEngine {
    /// Validates the configuration and, when it passes, opens the pipeline.
    ///
    /// An invalid configuration is rejected before any command is issued,
    /// so a rejected call performs no filesystem or subprocess work at all.
    /// `now_label` is the human-readable timestamp for the commit message;
    /// `conflict_timestamp` is the compact marker for conflict duplicates.
    /// Both come from the host because the engine has no clock.
    pub fn start(
        config: &GitSharingSettings,
        trigger: SyncTrigger,
        now_label: &str,
        conflict_timestamp: &str,
    ) -> (r: Result<(SyncEngine, SyncCommand), String>)
        ensures
            r is Ok <==> config::config_fields_valid(*config),
            r is Ok ==> ({
                let (e, c) = r->Ok_0;
                &&& e.phase is ProbingRepo
                &&& engine_wf(e)
                &&& e.branch@ == text::trim_spec(config.branch@)
                &&& e.remote_url@ == text::trim_spec(config.remote_url@)
                &&& e.commit_message@ == commit_message_spec(now_label@, trigger)
                &&& e.conflict_timestamp@ == conflict_timestamp@
                &&& c is ProbeRepoMeta
            }),
            text::trim_spec(config.shared_folder@).len() == 0 ==> r is Err && r->Err_0@
                == "Pick a folder to link before enabling Git sharing"@,
            text::trim_spec(config.shared_folder@).len() > 0 && text::trim_spec(
                config.remote_url@,
            ).len() == 0 ==> r is Err && r->Err_0@ == "Remote URL is required for Git sharing"@,
            text::trim_spec(config.shared_folder@).len() > 0 && text::trim_spec(
                config.remote_url@,
            ).len() > 0 && text::trim_spec(config.branch@).len() == 0 ==> r is Err && r->Err_0@
                == "Branch cannot be empty"@,
    {
        match config::validate_git_config_fields(config) {
            Err(e) => Err(e),
            Ok(()) => {
                let label = trigger.commit_label();
                let mut commit_message = String::from_str("stik: sync ");
                commit_message.append(now_label);
                commit_message.append(" notes (");
                commit_message.append(label);
                commit_message.append(")");
                let engine = SyncEngine {
                    phase: Phase::ProbingRepo,
                    branch: config::normalized_branch(config.branch.as_str()),
                    remote_url: text::trim(config.remote_url.as_str()),
                    commit_message,
                    conflict_timestamp: conflict_timestamp.to_owned(),
                };
                Ok((engine, SyncCommand::ProbeRepoMeta))
            },
        }
    }

    /// Consumes the outcome of the previous command and decides the next
    /// one.  The contract pins, for every phase, exactly which command
    /// follows each outcome; the rank clause keeps the commit -> pull ->
    /// push order, with the single pull+push retry after a rejected first
    /// push as the only step backwards.
    pub fn step(self, event: SyncEvent) -> (r: (SyncEngine, SyncCommand))
        requires
            engine_wf(self),
            !(self.phase is Done),
            !(self.phase is Failed),
            awaited_event(self.phase, event),
        ensures
            engine_wf(r.0),
            r.0.branch == self.branch,
            r.0.remote_url == self.remote_url,
            r.0.commit_message == self.commit_message,
            r.0.conflict_timestamp == self.conflict_timestamp,
            // ordering: the rank moves forward, except the one push retry
            phase_rank(r.0.phase) >= phase_rank(self.phase) || ({
                &&& self.phase matches Phase::Push { retried }
                &&& retried == false
                &&& r.0.phase matches Phase::Pull { retry_of_push }
                &&& retry_of_push == true
            }),
            // the pipeline ends exactly when the host gets Finished
            (r.1 is Finished <==> (r.0.phase is Done || r.0.phase is Failed)),
            (r.0.phase is Done ==> is_finished_ok(r.1)),
            // once in the post-push retry, never back to a first push
            in_retry(self.phase) ==> (in_retry(r.0.phase) || r.1 is Finished),
            // ── bootstrap ──
            self.phase is ProbingRepo ==> (event matches SyncEvent::Probed(ex) ==> (if ex {
                r.0.phase is ReadUserName && is_run_git(r.1, seq!["config"@, "--get"@, "user.name"@])
            } else {
                r.0.phase is InitBranch && is_run_git(r.1, seq!["init"@, "-b"@, self.branch@])
            })),
            self.phase is InitBranch ==> (event matches SyncEvent::GitDone(o) ==> (
            if classify::spec_success(o) {
                r.0.phase is ReadUserName && is_run_git(r.1, seq!["config"@, "--get"@, "user.name"@])
            } else {
                r.0.phase is InitPlain && is_run_git(r.1, seq!["init"@])
            })),
            self.phase is InitPlain ==> (event matches SyncEvent::GitDone(o) ==> (
            if classify::spec_success(o) {
                r.0.phase is CreateBranch && is_run_git(r.1, seq!["checkout"@, "-B"@, self.branch@])
            } else {
                is_finished_err(
                    r.1,
                    "Failed to initialize git repository: "@ + classify::err_msg_of(o),
                )
            })),
            self.phase is CreateBranch ==> (event matches SyncEvent::GitDone(o) ==> (
            if classify::spec_success(o) {
                r.0.phase is ReadUserName && is_run_git(r.1, seq!["config"@, "--get"@, "user.name"@])
            } else {
                is_finished_err(r.1, "Failed to create git branch: "@ + classify::err_msg_of(o))
            })),
            self.phase is ReadUserName ==> (event matches SyncEvent::GitDone(o) ==> (
            if classify::spec_success(o) && text::trim_spec(o.stdout@).len() > 0 {
                r.0.phase is ReadUserEmail && is_run_git(
                    r.1,
                    seq!["config"@, "--get"@, "user.email"@],
                )
            } else {
                r.0.phase is SetUserName && is_run_git(r.1, seq!["config"@, "user.name"@, "Stik"@])
            })),
            self.phase is SetUserName ==> (event matches SyncEvent::GitDone(o) ==> (
            if classify::spec_success(o) {
                r.0.phase is ReadUserEmail && is_run_git(
                    r.1,
                    seq!["config"@, "--get"@, "user.email"@],
                )
            } else {
                is_finished_err(r.1, "Failed to set git user.name: "@ + classify::err_msg_of(o))
            })),
            self.phase is ReadUserEmail ==> (event matches SyncEvent::GitDone(o) ==> (
            if classify::spec_success(o) && text::trim_spec(o.stdout@).len() > 0 {
                ({
                    &&& r.0.phase is ReadGitignore
                    &&& r.1 matches SyncCommand::ReadFile(p)
                    &&& p@ == ".gitignore"@
                })
            } else {
                r.0.phase is SetUserEmail && is_run_git(
                    r.1,
                    seq!["config"@, "user.email"@, "stik@local.invalid"@],
                )
            })),
            self.phase is SetUserEmail ==> (event matches SyncEvent::GitDone(o) ==> (
            if classify::spec_success(o) {
                ({
                    &&& r.0.phase is ReadGitignore
                    &&& r.1 matches SyncCommand::ReadFile(p)
                    &&& p@ == ".gitignore"@
                })
            } else {
                is_finished_err(r.1, "Failed to set git user.email: "@ + classify::err_msg_of(o))
            })),
            self.phase is ReadGitignore ==> (event matches SyncEvent::FileRead(content) ==> ({
                let existing = if content is Some {
                    content->0@
                } else {
                    Seq::<char>::empty()
                };
                if gitignore_has_entry(existing) {
                    r.0.phase is ReadRemote && is_run_git(
                        r.1,
                        seq!["remote"@, "get-url"@, "origin"@],
                    )
                } else {
                    ({
                        &&& r.0.phase is WriteGitignore
                        &&& r.1 matches SyncCommand::WriteFile(p, c)
                        &&& p@ == ".gitignore"@
                        &&& c@ == gitignore_merged(existing)
                    })
                }
            })),
            self.phase is WriteGitignore ==> (event matches SyncEvent::Wrote(err) ==> (match err {
                None => r.0.phase is ReadRemote && is_run_git(
                    r.1,
                    seq!["remote"@, "get-url"@, "origin"@],
                ),
                Some(e) => is_finished_err(r.1, e@),
            })),
            self.phase is ReadRemote ==> (event matches SyncEvent::GitDone(o) ==> (
            if classify::spec_success(o) && text::trim_spec(o.stdout@).len() > 0 {
                if text::trim_spec(o.stdout@) == self.remote_url@ {
                    r.0.phase is CheckoutBranch && is_run_git(
                        r.1,
                        seq!["checkout"@, "-B"@, self.branch@],
                    )
                } else {
                    r.0.phase is SetRemoteUrl && is_run_git(
                        r.1,
                        seq!["remote"@, "set-url"@, "origin"@, self.remote_url@],
                    )
                }
            } else {
                r.0.phase is AddRemote && is_run_git(
                    r.1,
                    seq!["remote"@, "add"@, "origin"@, self.remote_url@],
                )
            })),
            self.phase is SetRemoteUrl ==> (event matches SyncEvent::GitDone(o) ==> (
            if classify::spec_success(o) {
                r.0.phase is CheckoutBranch && is_run_git(
                    r.1,
                    seq!["checkout"@, "-B"@, self.branch@],
                )
            } else {
                is_finished_err(r.1, "Failed to update origin remote: "@ + classify::err_msg_of(o))
            })),
            self.phase is AddRemote ==> (event matches SyncEvent::GitDone(o) ==> (
            if classify::spec_success(o) {
                r.0.phase is CheckoutBranch && is_run_git(
                    r.1,
                    seq!["checkout"@, "-B"@, self.branch@],
                )
            } else {
                is_finished_err(r.1, "Failed to add origin remote: "@ + classify::err_msg_of(o))
            })),
            self.phase is CheckoutBranch ==> (event matches SyncEvent::GitDone(o) ==> (
            if classify::spec_success(o) {
                r.0.phase is StageAll && is_run_git(r.1, seq!["add"@, "-A"@])
            } else {
                is_finished_err(
                    r.1,
                    "Failed to switch repository branch: "@ + classify::err_msg_of(o),
                )
            })),
            // ── commit ──
            self.phase is StageAll ==> (event matches SyncEvent::GitDone(o) ==> (
            if classify::spec_success(o) {
                r.0.phase is QueryStatus && is_run_git(r.1, seq!["status"@, "--porcelain"@])
            } else {
                is_finished_err(r.1, "Failed to stage note changes: "@ + classify::err_msg_of(o))
            })),
            // a clean tree skips the commit entirely
            self.phase is QueryStatus ==> (event matches SyncEvent::GitDone(o) ==> (
            if !classify::spec_success(o) {
                is_finished_err(
                    r.1,
                    "Failed to inspect repository status: "@ + classify::err_msg_of(o),
                )
            } else if text::trim_spec(o.stdout@).len() == 0 {
                ({
                    &&& r.0.phase matches Phase::Pull { retry_of_push }
                    &&& retry_of_push == false
                    &&& is_run_git(r.1, pull_args(self.branch@))
                })
            } else {
                r.0.phase is Commit && is_run_git(
                    r.1,
                    seq!["commit"@, "-m"@, self.commit_message@],
                )
            })),
            self.phase is Commit ==> (event matches SyncEvent::GitDone(o) ==> (
            if classify::spec_success(o) || text::contains_seq(
                classify::err_msg_of(o),
                "nothing to commit"@,
            ) {
                ({
                    &&& r.0.phase matches Phase::Pull { retry_of_push }
                    &&& retry_of_push == false
                    &&& is_run_git(r.1, pull_args(self.branch@))
                })
            } else {
                is_finished_err(r.1, "Failed to commit note changes: "@ + classify::err_msg_of(o))
            })),
            // ── pull with conflict handling ──
            self.phase matches Phase::Pull { retry_of_push } ==> (event matches SyncEvent::GitDone(
                o,
            ) ==> ({
                let msg = classify::err_msg_of(o);
                let lower = text::lower_seq(msg);
                if classify::spec_success(o) || classify::is_benign_pull_text(lower) {
                    ({
                        &&& r.0.phase matches Phase::Push { retried }
                        &&& retried == retry_of_push
                        &&& is_run_git(r.1, push_args(self.branch@))
                    })
                } else if classify::is_unrelated_histories_text(lower) {
                    ({
                        &&& r.0.phase matches Phase::PullUnrelated { retry_of_push: rp, pull_error }
                        &&& rp == retry_of_push
                        &&& pull_error@ == msg
                        &&& is_run_git(r.1, pull_unrelated_args(self.branch@))
                    })
                } else {
                    ({
                        &&& r.0.phase matches Phase::ListConflicts { retry_of_push: rp, pull_error }
                        &&& rp == retry_of_push
                        &&& pull_error@ == msg
                        &&& is_run_git(r.1, seq!["diff"@, "--name-only"@, "--diff-filter=U"@])
                    })
                }
            })),
            self.phase matches Phase::PullUnrelated { retry_of_push, pull_error } ==> (
            event matches SyncEvent::GitDone(o) ==> (if classify::spec_success(o) {
                ({
                    &&& r.0.phase matches Phase::Push { retried }
                    &&& retried == retry_of_push
                    &&& is_run_git(r.1, push_args(self.branch@))
                })
            } else {
                ({
                    &&& r.0.phase matches Phase::ListConflicts { retry_of_push: rp, pull_error: pe }
                    &&& rp == retry_of_push
                    &&& pe@ == pull_error@
                    &&& is_run_git(r.1, seq!["diff"@, "--name-only"@, "--diff-filter=U"@])
                })
            })),
            // an unclassified pull failure with no conflicted files is fatal,
            // surfaced with the original pull diagnostic
            self.phase matches Phase::ListConflicts { retry_of_push, pull_error } ==> (
            event matches SyncEvent::GitDone(o) ==> (if !classify::spec_success(o) {
                is_finished_err(r.1, "Failed to list conflicted files: "@ + classify::err_msg_of(o))
            } else if classify::conflicted_files_spec(o.stdout@).len() == 0 {
                is_finished_err(
                    r.1,
                    "Failed to pull from origin/"@ + self.branch@ + ": "@ + pull_error@,
                )
            } else {
                ({
                    &&& r.0.phase matches Phase::ReadStage2 { retry_of_push: rp, files, idx }
                    &&& rp == retry_of_push
                    &&& files.deep_view() == classify::conflicted_files_spec(o.stdout@)
                    &&& idx == 0
                    &&& is_run_git(
                        r.1,
                        seq!["show"@, ":2:"@ + classify::conflicted_files_spec(o.stdout@)[0]],
                    )
                })
            })),
            // the duplicate receives the local blob, or the remote blob when
            // the local one cannot be read
            self.phase matches Phase::ReadStage2 { retry_of_push, files, idx } ==> (
            event matches SyncEvent::GitDone(o) ==> (if classify::spec_success(o) {
                if conflict::valid_conflict_path(files[idx as int]@) {
                    ({
                        &&& r.0.phase matches Phase::WriteDuplicate {
                            retry_of_push: rp,
                            files: f2,
                            idx: i2,
                            dup,
                        }
                        &&& rp == retry_of_push
                        &&& f2 == files
                        &&& i2 == idx
                        &&& dup@ == conflict::conflict_duplicate_spec(
                            files[idx as int]@,
                            self.conflict_timestamp@,
                        )
                        &&& r.1 matches SyncCommand::WriteFile(p, c)
                        &&& p@ == conflict::conflict_duplicate_spec(
                            files[idx as int]@,
                            self.conflict_timestamp@,
                        )
                        &&& c@ == o.stdout@
                    })
                } else {
                    is_finished_err(r.1, "Invalid conflicted file path: "@ + files[idx as int]@)
                }
            } else {
                ({
                    &&& r.0.phase matches Phase::ReadStage3 { retry_of_push: rp, files: f2, idx: i2 }
                    &&& rp == retry_of_push
                    &&& f2 == files
                    &&& i2 == idx
                    &&& is_run_git(r.1, seq!["show"@, ":3:"@ + files[idx as int]@])
                })
            })),
            self.phase matches Phase::ReadStage3 { retry_of_push, files, idx } ==> (
            event matches SyncEvent::GitDone(o) ==> ({
                let content = if classify::spec_success(o) {
                    o.stdout@
                } else {
                    Seq::<char>::empty()
                };
                if conflict::valid_conflict_path(files[idx as int]@) {
                    ({
                        &&& r.0.phase matches Phase::WriteDuplicate {
                            retry_of_push: rp,
                            files: f2,
                            idx: i2,
                            dup,
                        }
                        &&& rp == retry_of_push
                        &&& f2 == files
                        &&& i2 == idx
                        &&& dup@ == conflict::conflict_duplicate_spec(
                            files[idx as int]@,
                            self.conflict_timestamp@,
                        )
                        &&& r.1 matches SyncCommand::WriteFile(p, c)
                        &&& p@ == conflict::conflict_duplicate_spec(
                            files[idx as int]@,
                            self.conflict_timestamp@,
                        )
                        &&& c@ == content
                    })
                } else {
                    is_finished_err(r.1, "Invalid conflicted file path: "@ + files[idx as int]@)
                }
            })),
            self.phase matches Phase::WriteDuplicate { retry_of_push, files, idx, dup } ==> (
            event matches SyncEvent::Wrote(err) ==> (match err {
                None => ({
                    &&& r.0.phase matches Phase::StageDuplicate {
                        retry_of_push: rp,
                        files: f2,
                        idx: i2,
                        dup: d2,
                    }
                    &&& rp == retry_of_push
                    &&& f2 == files
                    &&& i2 == idx
                    &&& d2 == dup
                    &&& is_run_git(
                        r.1,
                        seq!["add"@, "--"@, text::replace_char_spec(dup@, '\\', '/')],
                    )
                }),
                Some(e) => is_finished_err(r.1, e@),
            })),
            // the canonical path is restored to the remote ("theirs") side
            self.phase matches Phase::StageDuplicate { retry_of_push, files, idx, dup } ==> (
            event matches SyncEvent::GitDone(o) ==> (if classify::spec_success(o) {
                ({
                    &&& r.0.phase matches Phase::CheckoutTheirs { retry_of_push: rp, files: f2, idx: i2 }
                    &&& rp == retry_of_push
                    &&& f2 == files
                    &&& i2 == idx
                    &&& is_run_git(
                        r.1,
                        seq!["checkout"@, "--theirs"@, "--"@, files[idx as int]@],
                    )
                })
            } else {
                is_finished_err(
                    r.1,
                    "Failed to stage duplicate conflict file: "@ + classify::err_msg_of(o),
                )
            })),
            self.phase matches Phase::CheckoutTheirs { retry_of_push, files, idx } ==> (
            event matches SyncEvent::GitDone(o) ==> (if classify::spec_success(o) {
                ({
                    &&& r.0.phase matches Phase::StageResolved { retry_of_push: rp, files: f2, idx: i2 }
                    &&& rp == retry_of_push
                    &&& f2 == files
                    &&& i2 == idx
                    &&& is_run_git(r.1, seq!["add"@, "--"@, files[idx as int]@])
                })
            } else {
                is_finished_err(
                    r.1,
                    "Failed to checkout remote conflict version: "@ + classify::err_msg_of(o),
                )
            })),
            self.phase matches Phase::StageResolved { retry_of_push, files, idx } ==> (
            event matches SyncEvent::GitDone(o) ==> (if classify::spec_success(o) {
                if idx + 1 < files.len() {
                    ({
                        &&& r.0.phase matches Phase::ReadStage2 { retry_of_push: rp, files: f2, idx: i2 }
                        &&& rp == retry_of_push
                        &&& f2 == files
                        &&& i2 == idx + 1
                        &&& is_run_git(r.1, seq!["show"@, ":2:"@ + files[idx + 1 as int]@])
                    })
                } else {
                    ({
                        &&& r.0.phase matches Phase::CommitResolution { retry_of_push: rp }
                        &&& rp == retry_of_push
                        &&& is_run_git(
                            r.1,
                            seq![
                                "commit"@,
                                "-m"@,
                                "stik: resolve conflicts by keeping both versions"@,
                            ],
                        )
                    })
                }
            } else {
                is_finished_err(
                    r.1,
                    "Failed to stage resolved conflict file: "@ + classify::err_msg_of(o),
                )
            })),
            self.phase matches Phase::CommitResolution { retry_of_push } ==> (
            event matches SyncEvent::GitDone(o) ==> (if classify::spec_success(o)
                || text::contains_seq(classify::err_msg_of(o), "nothing to commit"@) {
                ({
                    &&& r.0.phase matches Phase::Push { retried }
                    &&& retried == retry_of_push
                    &&& is_run_git(r.1, push_args(self.branch@))
                })
            } else {
                is_finished_err(
                    r.1,
                    "Failed to finalize conflict resolution: "@ + classify::err_msg_of(o),
                )
            })),
            // ── push: exactly one pull+push retry on a non-fast-forward
            // rejection; a second failure, or any other failure, is fatal ──
            self.phase matches Phase::Push { retried } ==> (event matches SyncEvent::GitDone(o)
                ==> (if classify::spec_success(o) {
                r.0.phase is Done && is_finished_ok(r.1)
            } else if !retried && classify::is_remote_ahead_text(
                text::lower_seq(classify::err_msg_of(o)),
            ) {
                ({
                    &&& r.0.phase matches Phase::Pull { retry_of_push }
                    &&& retry_of_push == true
                    &&& is_run_git(r.1, pull_args(self.branch@))
                })
            } else {
                is_finished_err(
                    r.1,
                    "Failed to push to origin/"@ + self.branch@ + ": "@ + classify::err_msg_of(o),
                )
            })),
    {
        let SyncEngine { phase, branch, remote_url, commit_message, conflict_timestamp } = self;
        let (next, command): (Phase, SyncCommand) = match (phase, event) {
            (Phase::ProbingRepo, SyncEvent::Probed(exists)) => {
                if exists {
                    (
                        Phase::ReadUserName,
                        SyncCommand::RunGit(git_args3("config", "--get", "user.name")),
                    )
                } else {
                    (
                        Phase::InitBranch,
                        SyncCommand::RunGit(git_args3("init", "-b", branch.as_str())),
                    )
                }
            },
            (Phase::InitBranch, SyncEvent::GitDone(o)) => {
                if o.success() {
                    (
                        Phase::ReadUserName,
                        SyncCommand::RunGit(git_args3("config", "--get", "user.name")),
                    )
                } else {
                    let mut v: Vec<String> = Vec::new();
                    v.push(String::from_str("init"));
                    proof {
                        assert(v.deep_view() =~= seq!["init"@]);
                    }
                    (Phase::InitPlain, SyncCommand::RunGit(v))
                }
            },
            (Phase::InitPlain, SyncEvent::GitDone(o)) => {
                if o.success() {
                    (
                        Phase::CreateBranch,
                        SyncCommand::RunGit(git_args3("checkout", "-B", branch.as_str())),
                    )
                } else {
                    fail_ctx("Failed to initialize git repository: ", &o)
                }
            },
            (Phase::CreateBranch, SyncEvent::GitDone(o)) => {
                if o.success() {
                    (
                        Phase::ReadUserName,
                        SyncCommand::RunGit(git_args3("config", "--get", "user.name")),
                    )
                } else {
                    fail_ctx("Failed to create git branch: ", &o)
                }
            },
            (Phase::ReadUserName, SyncEvent::GitDone(o)) => {
                if o.success() && !text::trim_is_empty(o.stdout.as_str()) {
                    (
                        Phase::ReadUserEmail,
                        SyncCommand::RunGit(git_args3("config", "--get", "user.email")),
                    )
                } else {
                    (
                        Phase::SetUserName,
                        SyncCommand::RunGit(git_args3("config", "user.name", "Stik")),
                    )
                }
            },
            (Phase::SetUserName, SyncEvent::GitDone(o)) => {
                if o.success() {
                    (
                        Phase::ReadUserEmail,
                        SyncCommand::RunGit(git_args3("config", "--get", "user.email")),
                    )
                } else {
                    fail_ctx("Failed to set git user.name: ", &o)
                }
            },
            (Phase::ReadUserEmail, SyncEvent::GitDone(o)) => {
                if o.success() && !text::trim_is_empty(o.stdout.as_str()) {
                    (Phase::ReadGitignore, SyncCommand::ReadFile(String::from_str(".gitignore")))
                } else {
                    (
                        Phase::SetUserEmail,
                        SyncCommand::RunGit(
                            git_args3("config", "user.email", "stik@local.invalid"),
                        ),
                    )
                }
            },
            (Phase::SetUserEmail, SyncEvent::GitDone(o)) => {
                if o.success() {
                    (Phase::ReadGitignore, SyncCommand::ReadFile(String::from_str(".gitignore")))
                } else {
                    fail_ctx("Failed to set git user.email: ", &o)
                }
            },
            (Phase::ReadGitignore, SyncEvent::FileRead(content)) => {
                let existing = match content {
                    Some(c) => c,
                    None => String::new(),
                };
                match merge_gitignore_entries(existing.as_str()) {
                    None => (
                        Phase::ReadRemote,
                        SyncCommand::RunGit(git_args3("remote", "get-url", "origin")),
                    ),
                    Some(merged) => (
                        Phase::WriteGitignore,
                        SyncCommand::WriteFile(String::from_str(".gitignore"), merged),
                    ),
                }
            },
            (Phase::WriteGitignore, SyncEvent::Wrote(err)) => {
                match err {
                    None => (
                        Phase::ReadRemote,
                        SyncCommand::RunGit(git_args3("remote", "get-url", "origin")),
                    ),
                    Some(e) => fail(e),
                }
            },
            (Phase::ReadRemote, SyncEvent::GitDone(o)) => {
                let existing = text::trim(o.stdout.as_str());
                if o.success() && existing.as_str().unicode_len() > 0 {
                    if text::str_eq(existing.as_str(), remote_url.as_str()) {
                        (
                            Phase::CheckoutBranch,
                            SyncCommand::RunGit(git_args3("checkout", "-B", branch.as_str())),
                        )
                    } else {
                        (
                            Phase::SetRemoteUrl,
                            SyncCommand::RunGit(
                                git_args4("remote", "set-url", "origin", remote_url.as_str()),
                            ),
                        )
                    }
                } else {
                    (
                        Phase::AddRemote,
                        SyncCommand::RunGit(
                            git_args4("remote", "add", "origin", remote_url.as_str()),
                        ),
                    )
                }
            },
            (Phase::SetRemoteUrl, SyncEvent::GitDone(o)) => {
                if o.success() {
                    (
                        Phase::CheckoutBranch,
                        SyncCommand::RunGit(git_args3("checkout", "-B", branch.as_str())),
                    )
                } else {
                    fail_ctx("Failed to update origin remote: ", &o)
                }
            },
            (Phase::AddRemote, SyncEvent::GitDone(o)) => {
                if o.success() {
                    (
                        Phase::CheckoutBranch,
                        SyncCommand::RunGit(git_args3("checkout", "-B", branch.as_str())),
                    )
                } else {
                    fail_ctx("Failed to add origin remote: ", &o)
                }
            },
            (Phase::CheckoutBranch, SyncEvent::GitDone(o)) => {
                if o.success() {
                    (Phase::StageAll, SyncCommand::RunGit(git_args2("add", "-A")))
                } else {
                    fail_ctx("Failed to switch repository branch: ", &o)
                }
            },
            (Phase::StageAll, SyncEvent::GitDone(o)) => {
                if o.success() {
                    (Phase::QueryStatus, SyncCommand::RunGit(git_args2("status", "--porcelain")))
                } else {
                    fail_ctx("Failed to stage note changes: ", &o)
                }
            },
            (Phase::QueryStatus, SyncEvent::GitDone(o)) => {
                if !o.success() {
                    fail_ctx("Failed to inspect repository status: ", &o)
                } else if text::trim_is_empty(o.stdout.as_str()) {
                    (
                        Phase::Pull { retry_of_push: false },
                        SyncCommand::RunGit(
                            git_args4("pull", "--no-rebase", "origin", branch.as_str()),
                        ),
                    )
                } else {
                    (
                        Phase::Commit,
                        SyncCommand::RunGit(git_args3("commit", "-m", commit_message.as_str())),
                    )
                }
            },
            (Phase::Commit, SyncEvent::GitDone(o)) => {
                let msg = classify::command_error_message(&o);
                if o.success() || classify::is_nothing_to_commit(msg.as_str()) {
                    (
                        Phase::Pull { retry_of_push: false },
                        SyncCommand::RunGit(
                            git_args4("pull", "--no-rebase", "origin", branch.as_str()),
                        ),
                    )
                } else {
                    fail(concat2("Failed to commit note changes: ", msg.as_str()))
                }
            },
            (Phase::Pull { retry_of_push }, SyncEvent::GitDone(o)) => {
                if o.success() {
                    (
                        Phase::Push { retried: retry_of_push },
                        SyncCommand::RunGit(git_args4("push", "-u", "origin", branch.as_str())),
                    )
                } else {
                    let msg = classify::command_error_message(&o);
                    match classify::classify_pull_failure(msg.as_str()) {
                        PullFailureClass::NothingToPull => (
                            Phase::Push { retried: retry_of_push },
                            SyncCommand::RunGit(
                                git_args4("push", "-u", "origin", branch.as_str()),
                            ),
                        ),
                        PullFailureClass::UnrelatedHistories => (
                            Phase::PullUnrelated { retry_of_push, pull_error: msg },
                            SyncCommand::RunGit(
                                git_args5(
                                    "pull",
                                    "--no-rebase",
                                    "--allow-unrelated-histories",
                                    "origin",
                                    branch.as_str(),
                                ),
                            ),
                        ),
                        PullFailureClass::Other => (
                            Phase::ListConflicts { retry_of_push, pull_error: msg },
                            SyncCommand::RunGit(
                                git_args3("diff", "--name-only", "--diff-filter=U"),
                            ),
                        ),
                    }
                }
            },
            (Phase::PullUnrelated { retry_of_push, pull_error }, SyncEvent::GitDone(o)) => {
                if o.success() {
                    (
                        Phase::Push { retried: retry_of_push },
                        SyncCommand::RunGit(git_args4("push", "-u", "origin", branch.as_str())),
                    )
                } else {
                    (
                        Phase::ListConflicts { retry_of_push, pull_error },
                        SyncCommand::RunGit(git_args3("diff", "--name-only", "--diff-filter=U")),
                    )
                }
            },
            (Phase::ListConflicts { retry_of_push, pull_error }, SyncEvent::GitDone(o)) => {
                if !o.success() {
                    fail_ctx("Failed to list conflicted files: ", &o)
                } else {
                    let files = classify::list_conflicted_files(o.stdout.as_str());
                    if files.len() == 0 {
                        fail(
                            concat4(
                                "Failed to pull from origin/",
                                branch.as_str(),
                                ": ",
                                pull_error.as_str(),
                            ),
                        )
                    } else {
                        proof {
                            assert(files.deep_view()[0] == files[0]@);
                        }
                        let show_arg = concat2(":2:", files[0].as_str());
                        let cmd = SyncCommand::RunGit(
                            git_args2("show", show_arg.as_str()),
                        );
                        (Phase::ReadStage2 { retry_of_push, files, idx: 0 }, cmd)
                    }
                }
            },
            (Phase::ReadStage2 { retry_of_push, files, idx }, SyncEvent::GitDone(o)) => {
                if o.success() {
                    proof {
                        assert(files.deep_view()[idx as int] == files[idx as int]@);
                    }
                    match conflict::conflict_duplicate_relative_path(
                        files[idx].as_str(),
                        conflict_timestamp.as_str(),
                    ) {
                        Err(e) => fail(e),
                        Ok(dup) => {
                            let dup_for_phase = dup.clone();
                            proof {
                                assert(dup_for_phase@ == dup@);
                            }
                            let cmd = SyncCommand::WriteFile(dup, o.stdout);
                            (
                                Phase::WriteDuplicate {
                                    retry_of_push,
                                    files,
                                    idx,
                                    dup: dup_for_phase,
                                },
                                cmd,
                            )
                        },
                    }
                } else {
                    proof {
                        assert(files.deep_view()[idx as int] == files[idx as int]@);
                    }
                    let show_arg = concat2(":3:", files[idx].as_str());
                    let cmd = SyncCommand::RunGit(git_args2("show", show_arg.as_str()));
                    (Phase::ReadStage3 { retry_of_push, files, idx }, cmd)
                }
            },
            (Phase::ReadStage3 { retry_of_push, files, idx }, SyncEvent::GitDone(o)) => {
                let content = if o.success() {
                    o.stdout
                } else {
                    String::new()
                };
                proof {
                    assert(files.deep_view()[idx as int] == files[idx as int]@);
                }
                match conflict::conflict_duplicate_relative_path(
                    files[idx].as_str(),
                    conflict_timestamp.as_str(),
                ) {
                    Err(e) => fail(e),
                    Ok(dup) => {
                        let dup_for_phase = dup.clone();
                        proof {
                            assert(dup_for_phase@ == dup@);
                        }
                        let cmd = SyncCommand::WriteFile(dup, content);
                        (
                            Phase::WriteDuplicate { retry_of_push, files, idx, dup: dup_for_phase },
                            cmd,
                        )
                    },
                }
            },
            (Phase::WriteDuplicate { retry_of_push, files, idx, dup }, SyncEvent::Wrote(err)) => {
                match err {
                    Some(e) => fail(e),
                    None => {
                        let dup_arg = conflict::path_to_git_argument(dup.as_str());
                        let cmd = SyncCommand::RunGit(git_args3("add", "--", dup_arg.as_str()));
                        (Phase::StageDuplicate { retry_of_push, files, idx, dup }, cmd)
                    },
                }
            },
            (Phase::StageDuplicate { retry_of_push, files, idx, dup: _ }, SyncEvent::GitDone(o)) => {
                if o.success() {
                    proof {
                        assert(files.deep_view()[idx as int] == files[idx as int]@);
                    }
                    let cmd = SyncCommand::RunGit(
                        git_args4("checkout", "--theirs", "--", files[idx].as_str()),
                    );
                    (Phase::CheckoutTheirs { retry_of_push, files, idx }, cmd)
                } else {
                    fail_ctx("Failed to stage duplicate conflict file: ", &o)
                }
            },
            (Phase::CheckoutTheirs { retry_of_push, files, idx }, SyncEvent::GitDone(o)) => {
                if o.success() {
                    proof {
                        assert(files.deep_view()[idx as int] == files[idx as int]@);
                    }
                    let cmd = SyncCommand::RunGit(git_args3("add", "--", files[idx].as_str()));
                    (Phase::StageResolved { retry_of_push, files, idx }, cmd)
                } else {
                    fail_ctx("Failed to checkout remote conflict version: ", &o)
                }
            },
            (Phase::StageResolved { retry_of_push, files, idx }, SyncEvent::GitDone(o)) => {
                if o.success() {
                    if idx + 1 < files.len() {
                        proof {
                            assert(files.deep_view()[idx + 1 as int] == files[idx + 1 as int]@);
                        }
                        let show_arg = concat2(":2:", files[idx + 1].as_str());
                        let cmd = SyncCommand::RunGit(git_args2("show", show_arg.as_str()));
                        (Phase::ReadStage2 { retry_of_push, files, idx: idx + 1 }, cmd)
                    } else {
                        let cmd = SyncCommand::RunGit(
                            git_args3(
                                "commit",
                                "-m",
                                "stik: resolve conflicts by keeping both versions",
                            ),
                        );
                        (Phase::CommitResolution { retry_of_push }, cmd)
                    }
                } else {
                    fail_ctx("Failed to stage resolved conflict file: ", &o)
                }
            },
            (Phase::CommitResolution { retry_of_push }, SyncEvent::GitDone(o)) => {
                let msg = classify::command_error_message(&o);
                if o.success() || classify::is_nothing_to_commit(msg.as_str()) {
                    (
                        Phase::Push { retried: retry_of_push },
                        SyncCommand::RunGit(git_args4("push", "-u", "origin", branch.as_str())),
                    )
                } else {
                    fail(concat2("Failed to finalize conflict resolution: ", msg.as_str()))
                }
            },
            (Phase::Push { retried }, SyncEvent::GitDone(o)) => {
                if o.success() {
                    (Phase::Done, SyncCommand::Finished(Ok(())))
                } else {
                    let msg = classify::command_error_message(&o);
                    if !retried && classify::push_rejected_as_remote_ahead(msg.as_str()) {
                        (
                            Phase::Pull { retry_of_push: true },
                            SyncCommand::RunGit(
                                git_args4("pull", "--no-rebase", "origin", branch.as_str()),
                            ),
                        )
                    } else {
                        fail(
                            concat4(
                                "Failed to push to origin/",
                                branch.as_str(),
                                ": ",
                                msg.as_str(),
                            ),
                        )
                    }
                }
            },
            (p, _) => {
                // unreachable under the precondition: every awaited event
                // kind is matched above
                proof {
                    assert(false);
                }
                (p, SyncCommand::Finished(Ok(())))
            },
        };
        (
            SyncEngine { phase: next, branch, remote_url, commit_message, conflict_timestamp },
            command,
        )
    }
}

} // verus!
