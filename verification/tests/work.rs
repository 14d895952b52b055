use transducer_agent::agent::{AgentState, ControlSignal, HeartbeatEvent};
use transducer_agent::git::{
    branch_name, read_outcome, CommitError, CommitInfo, CommitLookup, GitOutcome, GitQuery,
    GitReply,
};
use transducer_agent::work::{
    can_be_collected, collect_artifacts, conclude_execution, direct_arguments, direct_outcome, finish_execution,
    on_work, rejected_result, sandbox_command, sandbox_output, work_result, working_directory,
    Assignment, ExecutionFailure, ExecutionResult, TokenUsage, WorkEvent, WorkStatus, WorkStep,
    STREAM_ERROR_PAUSE_SECS,
};

const NO_USAGE: TokenUsage = TokenUsage {
    input_tokens: 0,
    output_tokens: 0,
    cache_read_tokens: 0,
    cache_creation_tokens: 0,
};

fn assignment() -> Assignment {
    Assignment {
        assignment_id: "work-1".to_string(),
        prompt: "do it".to_string(),
        repo_path: "/repo".to_string(),
    }
}

fn commit() -> CommitInfo {
    CommitInfo {
        hash: "0123456789abcdef".to_string(),
        message: "m".to_string(),
        author: "a@b".to_string(),
        branch: Some("main".to_string()),
    }
}

#[test]
fn agent_takes_on_work() {
    let state = AgentState::new(1);
    match on_work(&state, "agent-1", WorkEvent::Assigned(assignment())) {
        WorkStep::Execute(taken) => {
            assert_eq!(taken.assignment_id, "work-1");
            assert_eq!(taken.prompt, "do it");
            assert_eq!(taken.repo_path, "/repo");
        }
        _ => panic!("the work item is taken on"),
    }
}

#[test]
fn full_agent_does_not_reject_work() {
    let mut state = AgentState::new(1);
    state.begin_work();
    assert!(matches!(
        on_work(&state, "agent-1", WorkEvent::Assigned(assignment())),
        WorkStep::Execute(_)
    ));
}

#[test]
fn draining_agent_rejects_work() {
    let mut state = AgentState::new(1);
    state.on_heartbeat(HeartbeatEvent::Reply {
        acknowledged: true,
        signal: Some(ControlSignal::Drain),
    });
    match on_work(&state, "agent-1", WorkEvent::Assigned(assignment())) {
        WorkStep::Reject(result) => {
            assert_eq!(result.transducer_id, "agent-1");
            assert_eq!(result.assignment_id, "work-1");
            assert_eq!(result.status, WorkStatus::Rejected);
            assert_eq!(result.error, "Agent is draining - cannot accept new work");
            assert_eq!(result.summary, "");
            assert!(result.files_modified.is_empty());
            assert_eq!(result.usage, None);
            assert!(result.artifacts.is_empty());
        }
        _ => panic!("the work item is rejected"),
    }
    state.on_heartbeat(HeartbeatEvent::Reply {
        acknowledged: true,
        signal: Some(ControlSignal::Other),
    });
    assert!(matches!(
        on_work(&state, "agent-1", WorkEvent::Assigned(assignment())),
        WorkStep::Reject(_)
    ));
    state.on_heartbeat(HeartbeatEvent::Reply {
        acknowledged: true,
        signal: Some(ControlSignal::Continue),
    });
    assert!(matches!(
        on_work(&state, "agent-1", WorkEvent::Assigned(assignment())),
        WorkStep::Execute(_)
    ));
}

#[test]
fn rejected_result_takes_no_time() {
    let result = rejected_result("agent-1", "work-2");
    assert_eq!(result.duration_ms, 0);
    assert_eq!(result.pr_number, 0);
    assert_eq!(result.commit_hash, "");
}

#[test]
fn stream_errors_pause_and_the_end_stops() {
    let state = AgentState::new(1);
    assert_eq!(STREAM_ERROR_PAUSE_SECS, 5);
    assert!(matches!(on_work(&state, "agent-1", WorkEvent::Failed), WorkStep::Pause(5)));
    assert!(matches!(on_work(&state, "agent-1", WorkEvent::Closed), WorkStep::Stop));
}

#[test]
fn completed_work_is_handed_back() {
    let result = work_result(
        "agent-1",
        "work-1",
        Ok(ExecutionResult {
            output: "out".to_string(),
            duration_ms: 12,
            files_modified: vec!["a.rs".to_string()],
            artifacts: vec![1, 2],
        }),
    );
    assert_eq!(result.transducer_id, "agent-1");
    assert_eq!(result.assignment_id, "work-1");
    assert_eq!(result.status, WorkStatus::Completed);
    assert_eq!(result.summary, "out");
    assert_eq!(result.files_modified, vec!["a.rs"]);
    assert_eq!(result.commit_hash, "");
    assert_eq!(result.pr_number, 0);
    assert_eq!(result.usage, Some(NO_USAGE));
    assert_eq!(result.error, "");
    assert_eq!(result.duration_ms, 12);
    assert_eq!(result.artifacts, vec![1, 2]);
}

#[test]
fn failed_work_is_handed_back_with_its_error() {
    let failure = ExecutionFailure { error: "why".to_string(), artifacts: vec![3, 4] };
    let result = work_result("agent-1", "work-1", Err(failure));
    assert_eq!(result.status, WorkStatus::Failed);
    assert_eq!(result.summary, "");
    assert_eq!(result.error, "why");
    assert_eq!(result.duration_ms, 0);
    assert_eq!(result.usage, Some(NO_USAGE));
    assert_eq!(result.artifacts, vec![3, 4]);
    assert!(result.files_modified.is_empty());
}

#[test]
fn work_that_was_not_run_has_no_artifacts() {
    let failure = ExecutionFailure::not_run("no such tool".to_string());
    let result = work_result("agent-1", "work-1", Err(failure));
    assert_eq!(result.status, WorkStatus::Failed);
    assert_eq!(result.error, "no such tool");
    assert!(result.artifacts.is_empty());
}

#[test]
fn repository_goes_before_the_working_directory() {
    assert_eq!(working_directory("/repo", Some("/work")), Some("/repo".to_string()));
    assert_eq!(working_directory("", Some("/work")), Some("/work".to_string()));
    assert_eq!(working_directory("", None), None);
}

#[test]
fn tool_is_run_with_the_prompt() {
    assert_eq!(direct_arguments("do it"), vec!["--dangerously-skip-permissions", "-p", "do it"]);
    assert_eq!(
        sandbox_command("tool", "You are boxed.", "do it"),
        vec![
            "tool",
            "--dangerously-skip-permissions",
            "-p",
            "You are boxed.\n\n---\n\n## Your Task\n\ndo it"
        ]
    );
}

#[test]
fn sandbox_output_prefers_standard_output() {
    assert_eq!(sandbox_output("out".to_string(), "err".to_string()), "out");
    assert_eq!(sandbox_output("".to_string(), "err".to_string()), "err");
}

#[test]
fn direct_outcome_goes_by_success_and_errors() {
    let run = |success: bool, errors: &str, code: Option<i32>| {
        direct_outcome("out".to_string(), errors.to_string(), success, code)
    };
    assert_eq!(run(true, "noise", Some(0)), ("out".to_string(), 0));
    assert_eq!(run(false, "bad", Some(3)), ("bad".to_string(), 3));
    assert_eq!(run(false, "bad", None), ("bad".to_string(), 1));
    assert_eq!(run(false, "", Some(3)), ("out".to_string(), 3));
    assert_eq!(run(false, "", None), ("out".to_string(), 0));
}

#[test]
fn artifacts_are_the_output_and_the_commit() {
    let both =
        collect_artifacts("out", &Some(commit()), "T1".to_string(), "T2".to_string());
    assert_eq!(
        String::from_utf8(both.to_json_bytes()).unwrap(),
        "[{\"type\":\"log\",\"name\":\"execution_output\",\"data\":{\"level\":\"info\",\
         \"content\":\"out\"},\"created_at\":\"T1\"},\
         {\"type\":\"commit\",\"name\":\"Commit 0123456\",\"data\":{\
         \"hash\":\"0123456789abcdef\",\"short_hash\":\"0123456\",\"message\":\"m\",\
         \"author\":\"a@b\",\"branch\":\"main\"},\"created_at\":\"T2\"}]"
    );
    assert_eq!(collect_artifacts("", &None, "".to_string(), "".to_string()).len(), 0);
    assert_eq!(collect_artifacts("x", &None, "".to_string(), "".to_string()).len(), 1);
    assert_eq!(collect_artifacts("", &Some(commit()), "".to_string(), "".to_string()).len(), 1);
}

#[test]
fn exit_code_zero_completes() {
    let artifacts = collect_artifacts("", &None, "".to_string(), "".to_string());
    let done = conclude_execution("Tool", "out".to_string(), 0, 5, vec!["f".to_string()], &artifacts)
        .unwrap();
    assert_eq!(done.output, "out");
    assert_eq!(done.duration_ms, 5);
    assert_eq!(done.files_modified, vec!["f"]);
    assert_eq!(done.artifacts, b"[]");
}

#[test]
fn other_exit_codes_fail() {
    let artifacts = collect_artifacts("", &None, "".to_string(), "".to_string());
    let error = |output: &str, code: i32| {
        conclude_execution("Tool", output.to_string(), code, 5, vec![], &artifacts)
            .unwrap_err()
            .error
    };
    assert_eq!(error("out", 2), "Tool process exited with code 2: out");
    assert_eq!(error("", -1), "Tool process exited with code -1: ");
    assert_eq!(error("x", i32::MIN), "Tool process exited with code -2147483648: x");
}

#[test]
fn failed_execution_keeps_its_artifacts() {
    let artifacts = collect_artifacts("out", &Some(commit()), "T".to_string(), "T".to_string());
    let failure = conclude_execution("Tool", "out".to_string(), 2, 5, vec![], &artifacts)
        .unwrap_err();
    assert_eq!(failure.artifacts, artifacts.to_json_bytes());

    let failure =
        finish_execution("Tool", "out".to_string(), 2, 5, vec![], &Some(commit())).unwrap_err();
    let result = work_result("agent-1", "work-1", Err(failure));
    let kept: Vec<serde_json::Value> = serde_json::from_slice(&result.artifacts).unwrap();
    assert_eq!(kept.len(), 2);
    assert_eq!(kept[0]["name"], "execution_output");
    assert_eq!(kept[0]["data"]["content"], "out");
    assert_eq!(kept[1]["type"], "commit");
}

#[test]
fn cuts_within_a_character_cannot_be_collected() {
    assert!(can_be_collected("out", &Some(commit())));
    assert!(can_be_collected("", &None));
    let mut odd = commit();
    odd.hash = "123456\u{e9}".to_string();
    assert!(!can_be_collected("out", &Some(odd)));
    assert!(!can_be_collected(&("x".to_string() + &"\u{e9}".repeat(5_000)), &None));
}

#[test]
fn finished_execution_has_stamped_artifacts() {
    let done = finish_execution("Tool", "out".to_string(), 0, 7, vec![], &Some(commit())).unwrap();
    let artifacts: Vec<serde_json::Value> = serde_json::from_slice(&done.artifacts).unwrap();
    assert_eq!(artifacts.len(), 2);
    assert_eq!(artifacts[0]["name"], "execution_output");
    assert!(artifacts[0]["created_at"].as_str().unwrap().ends_with("+00:00"));
    assert_eq!(artifacts[1]["data"]["short_hash"], "0123456");
    assert!(artifacts[1]["created_at"].as_str().unwrap().ends_with("+00:00"));
    assert!(finish_execution("Tool", "out".to_string(), 1, 7, vec![], &None).is_err());
}

fn ran(success: bool, text: &str) -> GitReply {
    GitReply::Ran { success, text: text.to_string() }
}

#[test]
fn git_is_asked_four_times() {
    let mut lookup = CommitLookup::new();
    let replies = [
        (GitQuery::Hash, vec!["rev-parse", "HEAD"], " abc \n"),
        (GitQuery::Message, vec!["log", "-1", "--format=%s"], "Fix\n"),
        (GitQuery::Author, vec!["log", "-1", "--format=%ae"], "a@b\n"),
        (GitQuery::Branch, vec!["rev-parse", "--abbrev-ref", "HEAD"], "main\n"),
    ];
    for (query, arguments, text) in replies {
        assert_eq!(lookup.query(), Some(query));
        assert_eq!(query.arguments(), arguments);
        lookup = lookup.step(ran(true, text));
    }
    assert_eq!(lookup.query(), None);
    match lookup {
        CommitLookup::Found(info) => {
            assert_eq!(info.hash, "abc");
            assert_eq!(info.message, "Fix");
            assert_eq!(info.author, "a@b");
            assert_eq!(info.branch, Some("main".to_string()));
        }
        _ => panic!("the commit is found"),
    }
}

#[test]
fn only_the_hash_has_to_succeed() {
    let lookup = CommitLookup::new()
        .step(ran(true, "abc"))
        .step(ran(false, ""))
        .step(ran(false, "x"))
        .step(GitReply::NotRun);
    match lookup {
        CommitLookup::Found(info) => {
            assert_eq!(info.message, "");
            assert_eq!(info.author, "x");
            assert_eq!(info.branch, None);
        }
        _ => panic!("the commit is found"),
    }
}

#[test]
fn lookup_fails_with_the_first_error() {
    let error = |lookup: CommitLookup| match lookup {
        CommitLookup::Failed(error) => error,
        _ => panic!("the lookup fails"),
    };
    let start = CommitLookup::new;
    assert_eq!(error(start().step(GitReply::NotRun)), CommitError::HashNotRun);
    assert_eq!(error(start().step(ran(false, "x"))), CommitError::HashFailed);
    assert_eq!(
        error(start().step(ran(true, "x")).step(GitReply::NotRun)),
        CommitError::MessageNotRun
    );
    let failed = start().step(ran(true, "x")).step(ran(true, "x")).step(GitReply::NotRun);
    assert_eq!(failed.query(), None);
    assert_eq!(error(failed.step(ran(true, "x"))), CommitError::AuthorNotRun);
    assert_eq!(CommitError::HashNotRun.message(), "Failed to run git rev-parse");
    assert_eq!(CommitError::HashFailed.message(), "git rev-parse failed");
    assert_eq!(CommitError::MessageNotRun.message(), "Failed to run git log");
    assert_eq!(CommitError::AuthorNotRun.message(), "Failed to run git log for author");
}

#[test]
fn detached_head_is_no_branch() {
    assert_eq!(branch_name("HEAD\n"), None);
    assert_eq!(branch_name(" \n"), None);
    assert_eq!(branch_name("HEADS\n"), Some("HEADS".to_string()));
    assert_eq!(branch_name("main\u{3000}"), Some("main".to_string()));
}

#[test]
fn output_is_read_as_text() {
    match read_outcome(GitOutcome::Ran { success: true, stdout: "h\u{e9}".as_bytes().to_vec() }) {
        GitReply::Ran { success, text } => {
            assert!(success);
            assert_eq!(text, "h\u{e9}");
        }
        GitReply::NotRun => panic!("it ran"),
    }
    match read_outcome(GitOutcome::Ran { success: false, stdout: vec![b'a', 0xff, b'b'] }) {
        GitReply::Ran { success, text } => {
            assert!(!success);
            assert_eq!(text, "a\u{fffd}b");
        }
        GitReply::NotRun => panic!("it ran"),
    }
    assert!(matches!(read_outcome(GitOutcome::NotRun), GitReply::NotRun));
}
