use stik_core::classify::{
    classify_pull_failure, command_error_message, is_nothing_to_commit, list_conflicted_files,
    push_rejected_as_remote_ahead, GitCommandOutput, PullFailureClass,
};
use stik_core::config::{
    build_ad_hoc_config, is_folder_linked_for_sync, normalized_branch, periodic_sync_interval,
    status_for_config, validate_git_config_fields, GitSharingSettings, SyncTrigger,
};
use stik_core::conflict::{conflict_duplicate_relative_path, path_to_git_argument, split_file_name};
use stik_core::dispatch::{notify_force_sync, notify_note_changed, Dispatcher, WorkerMessage};
use stik_core::engine::{merge_gitignore_entries, SyncCommand, SyncEngine, SyncEvent};
use stik_core::status::RuntimeStatus;

fn ok_out(stdout: &str) -> SyncEvent {
    SyncEvent::GitDone(GitCommandOutput {
        status_code: Some(0),
        stdout: stdout.to_string(),
        stderr: String::new(),
    })
}

fn fail_out(stderr: &str) -> SyncEvent {
    SyncEvent::GitDone(GitCommandOutput {
        status_code: Some(1),
        stdout: String::new(),
        stderr: stderr.to_string(),
    })
}

fn git_args(cmd: &SyncCommand) -> Vec<String> {
    match cmd {
        SyncCommand::RunGit(args) => args.clone(),
        other => panic!("expected a git command, got {:?}", other),
    }
}

fn test_config() -> GitSharingSettings {
    build_ad_hoc_config(
        "Inbox".to_string(),
        "https://example.com/team.git".to_string(),
        Some("main".to_string()),
    )
}

#[test]
fn appends_conflict_suffix_before_extension() {
    let result = conflict_duplicate_relative_path("Inbox/idea.md", "20260206-220000").unwrap();
    assert_eq!(
        path_to_git_argument(&result),
        "Inbox/idea-conflict-20260206-220000.md"
    );
}

#[test]
fn appends_conflict_suffix_without_extension() {
    let result = conflict_duplicate_relative_path("Inbox/idea", "20260206-220000").unwrap();
    assert_eq!(
        path_to_git_argument(&result),
        "Inbox/idea-conflict-20260206-220000"
    );
}

#[test]
fn trims_manual_config_inputs() {
    let config = build_ad_hoc_config(
        " Inbox ".to_string(),
        " https://example.com/team.git ".to_string(),
        Some(" main ".to_string()),
    );
    assert_eq!(config.shared_folder, "Inbox");
    assert_eq!(config.remote_url, "https://example.com/team.git");
    assert_eq!(config.branch, "main");
    assert!(config.enabled);
}

#[test]
fn split_file_name_handles_hidden_and_plain_names() {
    assert_eq!(split_file_name("idea.md"), ("idea".to_string(), "md".to_string()));
    assert_eq!(split_file_name("idea"), ("idea".to_string(), String::new()));
    assert_eq!(split_file_name(".gitignore"), (".gitignore".to_string(), String::new()));
    assert_eq!(split_file_name("a.b.c"), ("a.b".to_string(), "c".to_string()));
}

// An invalid configuration is rejected before any command is issued.
#[test]
fn invalid_config_is_rejected_before_any_command() {
    let mut config = test_config();
    config.remote_url = String::new();
    let err = SyncEngine::start(&config, SyncTrigger::Manual, "now", "ts").err().unwrap();
    assert_eq!(err, "Remote URL is required for Git sharing");

    let mut config = test_config();
    config.shared_folder = "  ".to_string();
    let err = SyncEngine::start(&config, SyncTrigger::Manual, "now", "ts").err().unwrap();
    assert_eq!(err, "Pick a folder to link before enabling Git sharing");

    let mut config = test_config();
    config.branch = String::new();
    let err = SyncEngine::start(&config, SyncTrigger::Manual, "now", "ts").err().unwrap();
    assert_eq!(err, "Branch cannot be empty");

    let mut config = test_config();
    config.shared_folder = "../up".to_string();
    assert!(SyncEngine::start(&config, SyncTrigger::Manual, "now", "ts").is_err());
}

/// Drives a fresh engine through bootstrap on an already-initialized,
/// already-configured repository, up to the status query.
fn drive_to_status_query(config: &GitSharingSettings) -> SyncEngine {
    let (engine, cmd) = SyncEngine::start(
        config,
        SyncTrigger::Manual,
        "2026-02-06 10:15:30",
        "20260206-220000",
    )
    .unwrap();
    assert!(matches!(cmd, SyncCommand::ProbeRepoMeta));
    let (engine, cmd) = engine.step(SyncEvent::Probed(true));
    assert_eq!(git_args(&cmd), ["config", "--get", "user.name"]);
    let (engine, cmd) = engine.step(ok_out("Stik\n"));
    assert_eq!(git_args(&cmd), ["config", "--get", "user.email"]);
    let (engine, cmd) = engine.step(ok_out("stik@local.invalid\n"));
    assert!(matches!(&cmd, SyncCommand::ReadFile(p) if p == ".gitignore"));
    let (engine, cmd) = engine.step(SyncEvent::FileRead(Some(".DS_Store\n".to_string())));
    assert_eq!(git_args(&cmd), ["remote", "get-url", "origin"]);
    let (engine, cmd) = engine.step(ok_out("https://example.com/team.git\n"));
    assert_eq!(git_args(&cmd), ["checkout", "-B", "main"]);
    let (engine, cmd) = engine.step(ok_out(""));
    assert_eq!(git_args(&cmd), ["add", "-A"]);
    let (engine, cmd) = engine.step(ok_out(""));
    assert_eq!(git_args(&cmd), ["status", "--porcelain"]);
    engine
}

// A clean tree skips the commit: the second of two back-to-back syncs goes
// straight from the status query to the pull, and both runs succeed.
#[test]
fn clean_tree_skips_commit_and_second_run_succeeds() {
    let config = test_config();

    // first run: something to commit
    let engine = drive_to_status_query(&config);
    let (engine, cmd) = engine.step(ok_out(" M Inbox/idea.md\n"));
    let args = git_args(&cmd);
    assert_eq!(args[0], "commit");
    assert_eq!(args[2], "stik: sync 2026-02-06 10:15:30 notes (manual)");
    let (engine, cmd) = engine.step(ok_out(""));
    assert_eq!(git_args(&cmd), ["pull", "--no-rebase", "origin", "main"]);
    let (engine, cmd) = engine.step(ok_out("Already up to date.\n"));
    assert_eq!(git_args(&cmd), ["push", "-u", "origin", "main"]);
    let (_, cmd) = engine.step(ok_out(""));
    assert!(matches!(cmd, SyncCommand::Finished(Ok(()))));

    // second run: clean tree, no commit command is ever issued
    let engine = drive_to_status_query(&config);
    let (engine, cmd) = engine.step(ok_out(""));
    assert_eq!(git_args(&cmd), ["pull", "--no-rebase", "origin", "main"]);
    let (engine, cmd) = engine.step(ok_out("Already up to date.\n"));
    assert_eq!(git_args(&cmd), ["push", "-u", "origin", "main"]);
    let (_, cmd) = engine.step(ok_out(""));
    assert!(matches!(cmd, SyncCommand::Finished(Ok(()))));
}

// A commit whose failure text says there was nothing to commit is success.
#[test]
fn nothing_to_commit_is_not_an_error() {
    let config = test_config();
    let engine = drive_to_status_query(&config);
    let (engine, _) = engine.step(ok_out(" M Inbox/idea.md\n"));
    let (_, cmd) = engine.step(fail_out("nothing to commit, working tree clean"));
    assert_eq!(git_args(&cmd), ["pull", "--no-rebase", "origin", "main"]);
}

// After conflict resolution the duplicate holds the local blob and the
// canonical path is checked out from the remote side.
#[test]
fn conflict_resolution_keeps_both_versions() {
    let config = test_config();
    let engine = drive_to_status_query(&config);
    let (engine, _) = engine.step(ok_out(" M Inbox/idea.md\n"));
    let (engine, cmd) = engine.step(ok_out(""));
    assert_eq!(git_args(&cmd), ["pull", "--no-rebase", "origin", "main"]);
    let (engine, cmd) = engine.step(fail_out(
        "CONFLICT (content): Merge conflict in Inbox/idea.md\nAutomatic merge failed",
    ));
    assert_eq!(git_args(&cmd), ["diff", "--name-only", "--diff-filter=U"]);
    let (engine, cmd) = engine.step(ok_out("Inbox/idea.md\n"));
    assert_eq!(git_args(&cmd), ["show", ":2:Inbox/idea.md"]);
    let (engine, cmd) = engine.step(ok_out("local version\n"));
    match &cmd {
        SyncCommand::WriteFile(path, content) => {
            assert_eq!(path, "Inbox/idea-conflict-20260206-220000.md");
            assert_eq!(content, "local version\n");
        },
        other => panic!("expected a write command, got {:?}", other),
    }
    let (engine, cmd) = engine.step(SyncEvent::Wrote(None));
    assert_eq!(git_args(&cmd), ["add", "--", "Inbox/idea-conflict-20260206-220000.md"]);
    let (engine, cmd) = engine.step(ok_out(""));
    assert_eq!(git_args(&cmd), ["checkout", "--theirs", "--", "Inbox/idea.md"]);
    let (engine, cmd) = engine.step(ok_out(""));
    assert_eq!(git_args(&cmd), ["add", "--", "Inbox/idea.md"]);
    let (engine, cmd) = engine.step(ok_out(""));
    let args = git_args(&cmd);
    assert_eq!(args[0], "commit");
    assert_eq!(args[2], "stik: resolve conflicts by keeping both versions");
    let (engine, cmd) = engine.step(ok_out(""));
    assert_eq!(git_args(&cmd), ["push", "-u", "origin", "main"]);
    let (_, cmd) = engine.step(ok_out(""));
    assert!(matches!(cmd, SyncCommand::Finished(Ok(()))));
}

// When the local blob is unreadable the duplicate falls back to the remote
// blob.
#[test]
fn conflict_duplicate_falls_back_to_remote_blob() {
    let config = test_config();
    let engine = drive_to_status_query(&config);
    let (engine, _) = engine.step(ok_out(" M Inbox/idea.md\n"));
    let (engine, _) = engine.step(ok_out(""));
    let (engine, _) = engine.step(fail_out("CONFLICT (content): Merge conflict in Inbox/idea.md"));
    let (engine, cmd) = engine.step(ok_out("Inbox/idea.md\n"));
    assert_eq!(git_args(&cmd), ["show", ":2:Inbox/idea.md"]);
    let (engine, cmd) = engine.step(fail_out("fatal: path does not exist in stage 2"));
    assert_eq!(git_args(&cmd), ["show", ":3:Inbox/idea.md"]);
    let (_, cmd) = engine.step(ok_out("remote version\n"));
    match &cmd {
        SyncCommand::WriteFile(path, content) => {
            assert_eq!(path, "Inbox/idea-conflict-20260206-220000.md");
            assert_eq!(content, "remote version\n");
        },
        other => panic!("expected a write command, got {:?}", other),
    }
}

// A push rejected as non-fast-forward triggers exactly one pull+push retry;
// a second failure surfaces with the push error prefix.
#[test]
fn push_rejection_retries_once_then_fails_with_prefix() {
    let config = test_config();
    let engine = drive_to_status_query(&config);
    let (engine, _) = engine.step(ok_out(""));
    let (engine, cmd) = engine.step(ok_out("Already up to date.\n"));
    assert_eq!(git_args(&cmd), ["push", "-u", "origin", "main"]);
    let (engine, cmd) = engine.step(fail_out("! [rejected] main -> main (non-fast-forward)"));
    // exactly one more pull+push cycle
    assert_eq!(git_args(&cmd), ["pull", "--no-rebase", "origin", "main"]);
    let (engine, cmd) = engine.step(ok_out("Already up to date.\n"));
    assert_eq!(git_args(&cmd), ["push", "-u", "origin", "main"]);
    let (_, cmd) = engine.step(fail_out("! [rejected] main -> main (non-fast-forward)"));
    match cmd {
        SyncCommand::Finished(Err(msg)) => {
            assert!(msg.starts_with("Failed to push to origin/main"));
        },
        other => panic!("expected the pipeline to fail, got {:?}", other),
    }
}

// A pull against a remote with no matching ref yet counts as success.
#[test]
fn missing_remote_ref_is_benign() {
    let config = test_config();
    let engine = drive_to_status_query(&config);
    let (engine, _) = engine.step(ok_out(""));
    let (_, cmd) = engine.step(fail_out("fatal: couldn't find remote ref main"));
    assert_eq!(git_args(&cmd), ["push", "-u", "origin", "main"]);
}

// Unrelated histories cause one retry that allows merging them.
#[test]
fn unrelated_histories_pull_is_retried_once() {
    let config = test_config();
    let engine = drive_to_status_query(&config);
    let (engine, _) = engine.step(ok_out(""));
    let (engine, cmd) = engine.step(fail_out("fatal: refusing to merge unrelated histories"));
    assert_eq!(
        git_args(&cmd),
        ["pull", "--no-rebase", "--allow-unrelated-histories", "origin", "main"]
    );
    let (_, cmd) = engine.step(ok_out(""));
    assert_eq!(git_args(&cmd), ["push", "-u", "origin", "main"]);
}

// An unclassified pull failure with no conflicted files propagates the
// original pull diagnostic.
#[test]
fn unresolvable_pull_failure_propagates_original_error() {
    let config = test_config();
    let engine = drive_to_status_query(&config);
    let (engine, _) = engine.step(ok_out(""));
    let (engine, _) = engine.step(fail_out("error: unable to connect to remote host"));
    let (_, cmd) = engine.step(ok_out(""));
    match cmd {
        SyncCommand::Finished(Err(msg)) => {
            assert_eq!(
                msg,
                "Failed to pull from origin/main: error: unable to connect to remote host"
            );
        },
        other => panic!("expected the pipeline to fail, got {:?}", other),
    }
}

#[test]
fn classifies_pull_and_push_failure_text() {
    assert_eq!(
        classify_pull_failure("fatal: Couldn't find remote ref main"),
        PullFailureClass::NothingToPull
    );
    assert_eq!(
        classify_pull_failure("fatal: no such ref was fetched"),
        PullFailureClass::NothingToPull
    );
    assert_eq!(
        classify_pull_failure("fatal: Not a git repository"),
        PullFailureClass::NothingToPull
    );
    assert_eq!(
        classify_pull_failure("fatal: REFUSING to merge UNRELATED histories"),
        PullFailureClass::UnrelatedHistories
    );
    assert_eq!(classify_pull_failure("merge conflict"), PullFailureClass::Other);
    assert!(push_rejected_as_remote_ahead("Updates were rejected (Non-Fast-Forward)"));
    assert!(push_rejected_as_remote_ahead("hint: fetch first"));
    assert!(!push_rejected_as_remote_ahead("permission denied"));
    assert!(is_nothing_to_commit("nothing to commit, working tree clean"));
    assert!(!is_nothing_to_commit("Nothing To Commit"));
}

#[test]
fn command_error_message_prefers_stderr() {
    let both = GitCommandOutput {
        status_code: Some(1),
        stdout: " out \n".to_string(),
        stderr: " err \n".to_string(),
    };
    assert_eq!(command_error_message(&both), "err");
    let only_out = GitCommandOutput {
        status_code: Some(1),
        stdout: " out \n".to_string(),
        stderr: "  ".to_string(),
    };
    assert_eq!(command_error_message(&only_out), "out");
    let neither = GitCommandOutput {
        status_code: None,
        stdout: String::new(),
        stderr: String::new(),
    };
    assert_eq!(command_error_message(&neither), "unknown git error");
}

#[test]
fn lists_conflicted_files_from_diff_output() {
    let files = list_conflicted_files("Inbox/idea.md\n  \nWork/plan.md\n");
    assert_eq!(files, ["Inbox/idea.md", "Work/plan.md"]);
    assert!(list_conflicted_files("").is_empty());
}

#[test]
fn gitignore_merge_appends_only_when_missing() {
    assert_eq!(merge_gitignore_entries("").unwrap(), ".DS_Store\n");
    assert_eq!(merge_gitignore_entries("target/\n").unwrap(), "target/\n.DS_Store\n");
    assert_eq!(merge_gitignore_entries("target/").unwrap(), "target/\n.DS_Store\n");
    assert!(merge_gitignore_entries(".DS_Store\n").is_none());
    assert!(merge_gitignore_entries("target/\n  .DS_Store  \n").is_none());
}

#[test]
fn config_validation_requires_all_fields() {
    let config = test_config();
    assert!(validate_git_config_fields(&config).is_ok());
    assert_eq!(normalized_branch("  "), "main");
    assert_eq!(normalized_branch(" dev "), "dev");
}

#[test]
fn periodic_interval_is_clamped_to_floor() {
    assert_eq!(periodic_sync_interval(Some(10)), 60);
    assert_eq!(periodic_sync_interval(Some(600)), 600);
    assert_eq!(periodic_sync_interval(None), 300);
}

#[test]
fn linked_folder_requires_enabled_remote_and_match() {
    let mut config = test_config();
    assert!(is_folder_linked_for_sync(&config, " Inbox "));
    assert!(!is_folder_linked_for_sync(&config, "Work"));
    config.enabled = false;
    assert!(!is_folder_linked_for_sync(&config, "Inbox"));
}

// N change notifications within the debounce window produce exactly one
// debounced sync.
#[test]
fn burst_of_changes_coalesces_into_one_sync() {
    let mut dispatcher = Dispatcher::new(1000, 300);
    let mut status = RuntimeStatus::new();
    dispatcher.handle_note_changed(&mut status, 1000, true);
    dispatcher.handle_note_changed(&mut status, 1005, true);
    dispatcher.handle_note_changed(&mut status, 1010, true);
    assert!(status.pending_changes);
    // before the window elapses nothing fires
    assert!(dispatcher.poll_debounce(&mut status, 1039, 300).is_none());
    // at the deadline exactly one debounced sync fires
    let fired = dispatcher.poll_debounce(&mut status, 1040, 300);
    assert_eq!(fired, Some(SyncTrigger::DebouncedSave));
    assert!(!status.pending_changes);
    // and it cannot fire twice
    assert!(dispatcher.poll_debounce(&mut status, 1041, 300).is_none());
}

#[test]
fn unlinked_changes_do_not_arm_the_debounce() {
    let mut dispatcher = Dispatcher::new(1000, 300);
    let mut status = RuntimeStatus::new();
    dispatcher.handle_note_changed(&mut status, 1000, false);
    assert!(!status.pending_changes);
    assert!(dispatcher.poll_debounce(&mut status, 5000, 300).is_none());
}

#[test]
fn periodic_deadline_fires_and_resets() {
    let mut dispatcher = Dispatcher::new(1000, 300);
    assert!(dispatcher.poll_periodic(1299, 300).is_none());
    assert_eq!(dispatcher.poll_periodic(1300, 300), Some(SyncTrigger::Periodic));
    assert!(dispatcher.poll_periodic(1301, 300).is_none());
    let trigger = dispatcher.handle_force_sync(1400, 300);
    assert_eq!(trigger, SyncTrigger::Startup);
    assert!(dispatcher.poll_periodic(1699, 300).is_none());
}

#[test]
fn worker_queue_messages_are_appended_in_order() {
    let mut queue: Vec<WorkerMessage> = Vec::new();
    notify_note_changed(&mut queue, "Inbox");
    notify_force_sync(&mut queue);
    assert_eq!(queue.len(), 2);
    assert!(matches!(&queue[0], WorkerMessage::NoteChanged(f) if f == "Inbox"));
    assert!(matches!(&queue[1], WorkerMessage::ForceSync));
}

#[test]
fn runtime_status_records_sync_outcomes() {
    let mut status = RuntimeStatus::new();
    status.begin_sync();
    assert!(status.syncing);
    assert!(status.last_error.is_none());
    status.finish_sync(None, "2026-02-06T10:15:30".to_string());
    assert!(!status.syncing);
    assert_eq!(status.last_sync_at.as_deref(), Some("2026-02-06T10:15:30"));

    status.begin_sync();
    status.finish_sync(Some("boom".to_string()), "later".to_string());
    assert!(!status.syncing);
    assert_eq!(status.last_error.as_deref(), Some("boom"));
    assert_eq!(status.last_sync_at.as_deref(), Some("2026-02-06T10:15:30"));
}

#[test]
fn status_report_reflects_config_and_runtime() {
    let config = test_config();
    let mut runtime = RuntimeStatus::new();
    runtime.set_pending_changes(true);
    let status = status_for_config(&config, &runtime, true);
    assert!(status.enabled);
    assert_eq!(status.linked_folder.as_deref(), Some("Inbox"));
    assert_eq!(status.remote_url.as_deref(), Some("https://example.com/team.git"));
    assert_eq!(status.branch, "main");
    assert!(status.repo_initialized);
    assert!(status.pending_changes);
    assert!(!status.syncing);

    let empty = GitSharingSettings::default();
    let status = status_for_config(&empty, &RuntimeStatus::new(), false);
    assert!(!status.enabled);
    assert_eq!(status.linked_folder.as_deref(), Some("Inbox"));
    assert_eq!(status.remote_url, None);
}

// Bootstrap on a missing repository: init with the branch, falling back to
// a plain init plus an explicit branch creation when that form is rejected.
#[test]
fn bootstrap_initializes_missing_repository() {
    let config = test_config();
    let (engine, _) = SyncEngine::start(&config, SyncTrigger::Startup, "now", "ts").unwrap();
    let (engine, cmd) = engine.step(SyncEvent::Probed(false));
    assert_eq!(git_args(&cmd), ["init", "-b", "main"]);
    let (engine, cmd) = engine.step(fail_out("error: unknown switch `b'"));
    assert_eq!(git_args(&cmd), ["init"]);
    let (engine, cmd) = engine.step(ok_out(""));
    assert_eq!(git_args(&cmd), ["checkout", "-B", "main"]);
    let (_, cmd) = engine.step(ok_out(""));
    assert_eq!(git_args(&cmd), ["config", "--get", "user.name"]);
}

// An unset identity is given the engine-owned defaults; a pre-existing one
// is never overwritten.
#[test]
fn bootstrap_sets_identity_only_when_missing() {
    let config = test_config();
    let (engine, _) = SyncEngine::start(&config, SyncTrigger::Startup, "now", "ts").unwrap();
    let (engine, _) = engine.step(SyncEvent::Probed(true));
    let (engine, cmd) = engine.step(fail_out(""));
    assert_eq!(git_args(&cmd), ["config", "user.name", "Stik"]);
    let (engine, cmd) = engine.step(ok_out(""));
    assert_eq!(git_args(&cmd), ["config", "--get", "user.email"]);
    let (_, cmd) = engine.step(fail_out(""));
    assert_eq!(git_args(&cmd), ["config", "user.email", "stik@local.invalid"]);
}

// A differing remote URL is updated; a missing one is added.
#[test]
fn bootstrap_reconciles_origin_remote() {
    let config = test_config();
    let (engine, _) = SyncEngine::start(&config, SyncTrigger::Startup, "now", "ts").unwrap();
    let (engine, _) = engine.step(SyncEvent::Probed(true));
    let (engine, _) = engine.step(ok_out("Stik\n"));
    let (engine, _) = engine.step(ok_out("stik@local.invalid\n"));
    let (engine, _) = engine.step(SyncEvent::FileRead(Some(".DS_Store\n".to_string())));
    let (engine, cmd) = engine.step(ok_out("https://example.com/other.git\n"));
    assert_eq!(
        git_args(&cmd),
        ["remote", "set-url", "origin", "https://example.com/team.git"]
    );
    let (_, cmd) = engine.step(ok_out(""));
    assert_eq!(git_args(&cmd), ["checkout", "-B", "main"]);

    let (engine, _) = SyncEngine::start(&config, SyncTrigger::Startup, "now", "ts").unwrap();
    let (engine, _) = engine.step(SyncEvent::Probed(true));
    let (engine, _) = engine.step(ok_out("Stik\n"));
    let (engine, _) = engine.step(ok_out("stik@local.invalid\n"));
    let (engine, _) = engine.step(SyncEvent::FileRead(Some(".DS_Store\n".to_string())));
    let (_, cmd) = engine.step(fail_out("error: No such remote 'origin'"));
    assert_eq!(git_args(&cmd), ["remote", "add", "origin", "https://example.com/team.git"]);
}

// A missing ignore file is created with the baseline entry.
#[test]
fn bootstrap_writes_missing_gitignore() {
    let config = test_config();
    let (engine, _) = SyncEngine::start(&config, SyncTrigger::Startup, "now", "ts").unwrap();
    let (engine, _) = engine.step(SyncEvent::Probed(true));
    let (engine, _) = engine.step(ok_out("Stik\n"));
    let (engine, _) = engine.step(ok_out("stik@local.invalid\n"));
    let (engine, cmd) = engine.step(SyncEvent::FileRead(None));
    match &cmd {
        SyncCommand::WriteFile(path, content) => {
            assert_eq!(path, ".gitignore");
            assert_eq!(content, ".DS_Store\n");
        },
        other => panic!("expected a write command, got {:?}", other),
    }
    let (_, cmd) = engine.step(SyncEvent::Wrote(None));
    assert_eq!(git_args(&cmd), ["remote", "get-url", "origin"]);
}

#[test]
fn fatal_step_failures_carry_their_context() {
    let config = test_config();

    // a failing status query is fatal with its context
    let engine = drive_to_status_query(&config);
    let (_, cmd) = engine.step(fail_out("fatal: bad revision"));
    match cmd {
        SyncCommand::Finished(Err(msg)) => {
            assert_eq!(msg, "Failed to inspect repository status: fatal: bad revision");
        },
        other => panic!("expected the pipeline to fail, got {:?}", other),
    }

    // a failing stage-all is fatal with its context
    let (engine, _) = SyncEngine::start(&config, SyncTrigger::Periodic, "now", "ts").unwrap();
    let (engine, _) = engine.step(SyncEvent::Probed(true));
    let (engine, _) = engine.step(ok_out("Stik\n"));
    let (engine, _) = engine.step(ok_out("stik@local.invalid\n"));
    let (engine, _) = engine.step(SyncEvent::FileRead(Some(".DS_Store\n".to_string())));
    let (engine, _) = engine.step(ok_out("https://example.com/team.git\n"));
    let (engine, cmd) = engine.step(ok_out(""));
    assert_eq!(git_args(&cmd), ["add", "-A"]);
    let (_, cmd) = engine.step(fail_out("fatal: unable to stage"));
    match cmd {
        SyncCommand::Finished(Err(msg)) => {
            assert_eq!(msg, "Failed to stage note changes: fatal: unable to stage");
        },
        other => panic!("expected the pipeline to fail, got {:?}", other),
    }
}

#[test]
fn commit_message_carries_the_trigger_label() {
    let config = test_config();
    let (engine, _) = SyncEngine::start(
        &config,
        SyncTrigger::DebouncedSave,
        "2026-02-06 10:15:30",
        "ts",
    )
    .unwrap();
    let (engine, _) = engine.step(SyncEvent::Probed(true));
    let (engine, _) = engine.step(ok_out("Stik\n"));
    let (engine, _) = engine.step(ok_out("stik@local.invalid\n"));
    let (engine, _) = engine.step(SyncEvent::FileRead(Some(".DS_Store\n".to_string())));
    let (engine, _) = engine.step(ok_out("https://example.com/team.git\n"));
    let (engine, _) = engine.step(ok_out(""));
    let (engine, _) = engine.step(ok_out(""));
    let (_, cmd) = engine.step(ok_out(" M Inbox/idea.md\n"));
    let args = git_args(&cmd);
    assert_eq!(args[2], "stik: sync 2026-02-06 10:15:30 notes (autosave)");
    assert_eq!(SyncTrigger::Startup.commit_label(), "startup");
    assert_eq!(SyncTrigger::Periodic.commit_label(), "periodic");
    assert_eq!(SyncTrigger::Manual.commit_label(), "manual");
}
