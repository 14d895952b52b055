//! Work items: whether one is taken on, how it is run, and what is handed back
//! for it.

use crate::agent::AgentState;
use crate::artifacts::{
    can_be_logged, commit_artifact, has_short_form, log_artifact, ArtifactCollector,
};
use crate::git::CommitInfo;
use crate::outside::utc_timestamp;
use crate::text::signed_decimal_text;
use vstd::prelude::*;
use vstd::string::*;

verus! {

/// Seconds to wait after the stream of assignments has failed.
pub const STREAM_ERROR_PAUSE_SECS: u64 = 5;

/// A work item as the orchestrator hands it out.
#[derive(Debug)]
pub struct Assignment {
    pub assignment_id: String,
    pub prompt: String,
    pub repo_path: String,
}

/// How a work item ended.
#[derive(Debug, Clone, Copy, PartialEq, Eq, Structural)]
pub enum WorkStatus {
    Completed,
    Failed,
    Rejected,
}

/// What a work item has used up. What it costs is not known, and no model is
/// named.
#[derive(Debug, Clone, Copy, PartialEq, Eq, Structural)]
pub struct TokenUsage {
    pub input_tokens: u64,
    pub output_tokens: u64,
    pub cache_read_tokens: u64,
    pub cache_creation_tokens: u64,
}

/// What is handed back for a work item.
#[derive(Debug)]
pub struct WorkResult {
    pub transducer_id: String,
    pub assignment_id: String,
    pub status: WorkStatus,
    pub summary: String,
    pub files_modified: Vec<String>,
    pub commit_hash: String,
    pub pr_number: u64,
    pub usage: Option<TokenUsage>,
    pub error: String,
    pub duration_ms: u64,
    pub artifacts: Vec<u8>,
}

/// The contents of a [`WorkResult`].
pub struct WorkResultView {
    pub transducer_id: Seq<char>,
    pub assignment_id: Seq<char>,
    pub status: WorkStatus,
    pub summary: Seq<char>,
    pub files_modified: Seq<Seq<char>>,
    pub commit_hash: Seq<char>,
    pub pr_number: u64,
    pub usage: Option<TokenUsage>,
    pub error: Seq<char>,
    pub duration_ms: u64,
    pub artifacts: Seq<u8>,
}

impl View for WorkResult {
    type V = WorkResultView;

    open spec fn view(&self) -> WorkResultView {
        WorkResultView {
            transducer_id: self.transducer_id@,
            assignment_id: self.assignment_id@,
            status: self.status,
            summary: self.summary@,
            files_modified: self.files_modified.deep_view(),
            commit_hash: self.commit_hash@,
            pr_number: self.pr_number,
            usage: self.usage,
            error: self.error@,
            duration_ms: self.duration_ms,
            artifacts: self.artifacts@,
        }
    }
}

/// What a work item that was carried out has yielded.
#[derive(Debug)]
pub struct ExecutionResult {
    pub output: String,
    pub duration_ms: u64,
    pub files_modified: Vec<String>,
    pub artifacts: Vec<u8>,
}

/// The contents of an [`ExecutionResult`].
pub struct ExecutionResultView {
    pub output: Seq<char>,
    pub duration_ms: u64,
    pub files_modified: Seq<Seq<char>>,
    pub artifacts: Seq<u8>,
}

impl View for ExecutionResult {
    type V = ExecutionResultView;

    open spec fn view(&self) -> ExecutionResultView {
        ExecutionResultView {
            output: self.output@,
            duration_ms: self.duration_ms,
            files_modified: self.files_modified.deep_view(),
            artifacts: self.artifacts@,
        }
    }
}

/// What a work item that failed leaves behind: the error, and the artifacts
/// that were collected all the same, which may hold partial results.
#[derive(Debug)]
pub struct ExecutionFailure {
    pub error: String,
    pub artifacts: Vec<u8>,
}

/// The contents of an [`ExecutionFailure`].
pub struct ExecutionFailureView {
    pub error: Seq<char>,
    pub artifacts: Seq<u8>,
}

impl View for ExecutionFailure {
    type V = ExecutionFailureView;

    open spec fn view(&self) -> ExecutionFailureView {
        ExecutionFailureView { error: self.error@, artifacts: self.artifacts@ }
    }
}

impl ExecutionFailure {
    /// The failure of a work item that was not run to its end: nothing was
    /// collected.
    pub fn not_run(error: String) -> (failure: Self)
        ensures
            failure@ == (ExecutionFailureView { error: error@, artifacts: Seq::empty() }),
    {
        ExecutionFailure { error, artifacts: Vec::new() }
    }
}

/// What came of carrying out a work item: what it has yielded, or its failure.
pub open spec fn outcome_view(outcome: Result<ExecutionResult, ExecutionFailure>) -> Result<
    ExecutionResultView,
    ExecutionFailureView,
> {
    match outcome {
        Ok(execution) => Ok(execution@),
        Err(failure) => Err(failure@),
    }
}

/// Nothing used up.
pub open spec fn no_usage() -> TokenUsage {
    TokenUsage {
        input_tokens: 0,
        output_tokens: 0,
        cache_read_tokens: 0,
        cache_creation_tokens: 0,
    }
}

/// What is handed back for a work item that a draining agent does not take on.
pub open spec fn rejection(transducer_id: Seq<char>, assignment_id: Seq<char>) -> WorkResultView {
    WorkResultView {
        transducer_id,
        assignment_id,
        status: WorkStatus::Rejected,
        summary: Seq::empty(),
        files_modified: Seq::empty(),
        commit_hash: Seq::empty(),
        pr_number: 0,
        usage: None,
        error: "Agent is draining - cannot accept new work"@,
        duration_ms: 0,
        artifacts: Seq::empty(),
    }
}

/// What is handed back for a work item that was carried out, or tried.
pub open spec fn report_of(
    transducer_id: Seq<char>,
    assignment_id: Seq<char>,
    outcome: Result<ExecutionResultView, ExecutionFailureView>,
) -> WorkResultView {
    match outcome {
        Ok(execution) => WorkResultView {
            transducer_id,
            assignment_id,
            status: WorkStatus::Completed,
            summary: execution.output,
            files_modified: execution.files_modified,
            commit_hash: Seq::empty(),
            pr_number: 0,
            usage: Some(no_usage()),
            error: Seq::empty(),
            duration_ms: execution.duration_ms,
            artifacts: execution.artifacts,
        },
        Err(failure) => WorkResultView {
            transducer_id,
            assignment_id,
            status: WorkStatus::Failed,
            summary: Seq::empty(),
            files_modified: Seq::empty(),
            commit_hash: Seq::empty(),
            pr_number: 0,
            usage: Some(no_usage()),
            error: failure.error,
            duration_ms: 0,
            artifacts: failure.artifacts,
        },
    }
}

fn no_text() -> (text: String)
    ensures
        text@ == Seq::<char>::empty(),
{
    proof {
        reveal_strlit("");
    }
    let text = "".to_string();
    assert(text@ =~= Seq::<char>::empty());
    text
}

fn no_files() -> (files: Vec<String>)
    ensures
        files.deep_view() == Seq::<Seq<char>>::empty(),
{
    let files: Vec<String> = Vec::new();
    assert(files.deep_view() =~= Seq::<Seq<char>>::empty());
    files
}

/// What is handed back for a work item that a draining agent does not take on.
pub fn rejected_result(transducer_id: &str, assignment_id: &str) -> (result: WorkResult)
    ensures
        result@ == rejection(transducer_id@, assignment_id@),
        result.transducer_id@ == transducer_id@,
        result.assignment_id@ == assignment_id@,
        result.status == WorkStatus::Rejected,
        result.error@ == "Agent is draining - cannot accept new work"@,
        result.files_modified.deep_view().len() == 0,
        result.artifacts@.len() == 0,
        result.usage is None,
{
    WorkResult {
        transducer_id: transducer_id.to_string(),
        assignment_id: assignment_id.to_string(),
        status: WorkStatus::Rejected,
        summary: no_text(),
        files_modified: no_files(),
        commit_hash: no_text(),
        pr_number: 0,
        usage: None,
        error: "Agent is draining - cannot accept new work".to_string(),
        duration_ms: 0,
        artifacts: Vec::new(),
    }
}

/// What is handed back for a work item that was carried out, or tried.
pub fn work_result(
    transducer_id: &str,
    assignment_id: &str,
    outcome: Result<ExecutionResult, ExecutionFailure>,
) -> (result: WorkResult)
    ensures
        result@ == report_of(transducer_id@, assignment_id@, outcome_view(outcome)),
        result.transducer_id@ == transducer_id@,
        result.assignment_id@ == assignment_id@,
        result.status == if outcome is Ok {
            WorkStatus::Completed
        } else {
            WorkStatus::Failed
        },
        outcome matches Ok(execution) ==> {
            &&& result.summary@ == execution.output@
            &&& result.files_modified.deep_view() == execution.files_modified.deep_view()
            &&& result.duration_ms == execution.duration_ms
            &&& result.artifacts@ == execution.artifacts@
            &&& result.error@.len() == 0
        },
        outcome matches Err(failure) ==> {
            &&& result.error@ == failure.error@
            &&& result.artifacts@ == failure.artifacts@
            &&& result.summary@.len() == 0
            &&& result.files_modified.deep_view().len() == 0
            &&& result.duration_ms == 0
        },
{
    let (status, summary, error, files_modified, duration_ms, artifacts) = match outcome {
        Ok(execution) => (
            WorkStatus::Completed,
            execution.output,
            no_text(),
            execution.files_modified,
            execution.duration_ms,
            execution.artifacts,
        ),
        Err(failure) => (
            WorkStatus::Failed,
            no_text(),
            failure.error,
            no_files(),
            0u64,
            failure.artifacts,
        ),
    };
    WorkResult {
        transducer_id: transducer_id.to_string(),
        assignment_id: assignment_id.to_string(),
        status,
        summary,
        files_modified,
        commit_hash: no_text(),
        pr_number: 0,
        usage: Some(
            TokenUsage {
                input_tokens: 0,
                output_tokens: 0,
                cache_read_tokens: 0,
                cache_creation_tokens: 0,
            },
        ),
        error,
        duration_ms,
        artifacts,
    }
}

/// What comes from the stream of assignments.
#[derive(Debug)]
pub enum WorkEvent {
    /// A work item.
    Assigned(Assignment),
    /// The stream failed.
    Failed,
    /// The stream has ended.
    Closed,
}

/// What the agent does after something came from that stream.
#[derive(Debug)]
pub enum WorkStep {
    /// Hand this back, and wait for the next work item.
    Reject(WorkResult),
    /// Take the work item in hand as soon as there is room for it.
    Execute(Assignment),
    /// Wait for some seconds, and then for the next work item.
    Pause(u64),
    /// Stop.
    Stop,
}

/// What a draining agent does, and what any other does, after something came
/// from the stream of assignments.
pub open spec fn is_work_step(
    draining: bool,
    transducer_id: Seq<char>,
    event: WorkEvent,
    step: WorkStep,
) -> bool {
    match event {
        WorkEvent::Assigned(assignment) => if draining {
            step matches WorkStep::Reject(result) && result@ == rejection(
                transducer_id,
                assignment.assignment_id@,
            )
        } else {
            step == WorkStep::Execute(assignment)
        },
        WorkEvent::Failed => step == WorkStep::Pause(STREAM_ERROR_PAUSE_SECS),
        WorkEvent::Closed => step == WorkStep::Stop,
    }
}

/// What the agent does after something came from the stream of assignments.
pub fn on_work(state: &AgentState, transducer_id: &str, event: WorkEvent) -> (step: WorkStep)
    ensures
        is_work_step(state@.draining, transducer_id@, event, step),
{
    match event {
        WorkEvent::Assigned(assignment) => if state.is_draining() {
            WorkStep::Reject(rejected_result(transducer_id, assignment.assignment_id.as_str()))
        } else {
            WorkStep::Execute(assignment)
        },
        WorkEvent::Failed => WorkStep::Pause(STREAM_ERROR_PAUSE_SECS),
        WorkEvent::Closed => WorkStep::Stop,
    }
}

/// The directory to work in: that of the work item, else that of the agent;
/// nothing where the agent's own current directory is to be used.
pub open spec fn directory_of(repo_path: Seq<char>, work_dir: Option<Seq<char>>) -> Option<
    Seq<char>,
> {
    if repo_path.len() > 0 {
        Some(repo_path)
    } else {
        work_dir
    }
}

/// The directory to work in, unless it is the agent's own current one.
pub fn working_directory(repo_path: &str, work_dir: Option<&str>) -> (directory: Option<String>)
    ensures
        directory.deep_view() == directory_of(repo_path@, work_dir.deep_view()),
{
    if repo_path.unicode_len() > 0 {
        Some(repo_path.to_string())
    } else {
        match work_dir {
            Some(dir) => Some(dir.to_string()),
            None => None,
        }
    }
}

/// The arguments with which the tool is run for a prompt.
pub open spec fn tool_arguments(prompt: Seq<char>) -> Seq<Seq<char>> {
    seq!["--dangerously-skip-permissions"@, "-p"@, prompt]
}

/// The arguments with which the tool is run for a prompt.
pub fn direct_arguments(prompt: &str) -> (arguments: Vec<String>)
    ensures
        arguments.deep_view() == tool_arguments(prompt@),
{
    let arguments: Vec<String> = vec![
        "--dangerously-skip-permissions".to_string(),
        "-p".to_string(),
        prompt.to_string(),
    ];
    assert(arguments.deep_view() =~= tool_arguments(prompt@));
    arguments
}

/// A prompt for the tool in a sandbox: first what it has to know of the
/// sandbox, then the task.
pub open spec fn sandbox_prompt(awareness: Seq<char>, prompt: Seq<char>) -> Seq<char> {
    awareness + "\n\n---\n\n## Your Task\n\n"@ + prompt
}

/// The command that is run in a sandbox.
pub fn sandbox_command(tool: &str, awareness: &str, prompt: &str) -> (command: Vec<String>)
    ensures
        command.deep_view() == seq![tool@] + tool_arguments(
            sandbox_prompt(awareness@, prompt@),
        ),
{
    let mut full_prompt = awareness.to_string();
    full_prompt.append("\n\n---\n\n## Your Task\n\n");
    full_prompt.append(prompt);
    let command: Vec<String> = vec![
        tool.to_string(),
        "--dangerously-skip-permissions".to_string(),
        "-p".to_string(),
        full_prompt,
    ];
    assert(command.deep_view() =~= seq![tool@] + tool_arguments(
        sandbox_prompt(awareness@, prompt@),
    ));
    command
}

/// What a run in a sandbox has put out: its standard output, or its standard
/// error where there is none.
pub fn sandbox_output(stdout: String, stderr: String) -> (output: String)
    ensures
        output@ == (if stdout@.len() == 0 {
            stderr@
        } else {
            stdout@
        }),
{
    if stdout.as_str().unicode_len() == 0 {
        stderr
    } else {
        stdout
    }
}

/// What a run without a sandbox has put out, and its exit code. Where the
/// process failed and said something on standard error, that counts; a process
/// that was ended by a signal has no code.
pub open spec fn direct_result(
    output: Seq<char>,
    errors: Seq<char>,
    success: bool,
    code: Option<i32>,
) -> (Seq<char>, i32) {
    if !success && errors.len() > 0 {
        (
            errors,
            match code {
                Some(code) => code,
                None => 1,
            },
        )
    } else {
        (
            output,
            match code {
                Some(code) => code,
                None => 0,
            },
        )
    }
}

/// What a run without a sandbox has put out, and its exit code.
pub fn direct_outcome(output: String, errors: String, success: bool, code: Option<i32>) -> (outcome:
    (String, i32))
    ensures
        (outcome.0@, outcome.1) == direct_result(output@, errors@, success, code),
{
    if !success && errors.as_str().unicode_len() > 0 {
        (
            errors,
            match code {
                Some(code) => code,
                None => 1,
            },
        )
    } else {
        (
            output,
            match code {
                Some(code) => code,
                None => 0,
            },
        )
    }
}

/// The contents of a commit, where there is one.
pub open spec fn commit_contents(commit: Option<CommitInfo>) -> Option<
    crate::git::CommitInfoView,
> {
    match commit {
        Some(info) => Some(info@),
        None => None,
    }
}

/// Whether artifacts can be made of an output and a commit: neither is cut
/// within a character.
pub open spec fn can_collect(
    output: Seq<char>,
    commit: Option<crate::git::CommitInfoView>,
) -> bool {
    &&& crate::artifacts::can_log(output)
    &&& commit matches Some(info) ==> crate::artifacts::has_short_hash(info.hash)
}

/// Whether artifacts can be made of an output and a commit.
pub fn can_be_collected(output: &str, commit: &Option<CommitInfo>) -> (ok: bool)
    ensures
        ok == can_collect(output@, commit_contents(*commit)),
{
    can_be_logged(output) && match commit {
        Some(info) => has_short_form(info.hash.as_str()),
        None => true,
    }
}

/// The artifacts of a work item: its output, where there is any, and then the
/// last commit, where there is one.
pub open spec fn execution_artifacts(
    output: Seq<char>,
    commit: Option<crate::git::CommitInfoView>,
    log_time: Seq<char>,
    commit_time: Seq<char>,
) -> Seq<crate::artifacts::ArtifactView> {
    let log = if output.len() > 0 {
        seq![crate::artifacts::log_view("execution_output"@, "info"@, output, log_time)]
    } else {
        Seq::empty()
    };
    match commit {
        Some(info) => log.push(
            crate::artifacts::commit_view(
                info.hash,
                info.message,
                info.author,
                info.branch,
                commit_time,
            ),
        ),
        None => log,
    }
}

/// The artifacts of a work item, with the times at which they are made.
pub fn collect_artifacts(
    output: &str,
    commit: &Option<CommitInfo>,
    log_time: String,
    commit_time: String,
) -> (artifacts: ArtifactCollector)
    requires
        can_collect(output@, commit_contents(*commit)),
    ensures
        artifacts@ == execution_artifacts(
            output@,
            commit_contents(*commit),
            log_time@,
            commit_time@,
        ),
{
    let mut artifacts = ArtifactCollector::new();
    if output.unicode_len() > 0 {
        artifacts.add_artifact(log_artifact("execution_output", "info", output, log_time));
    }
    if let Some(info) = commit {
        let branch = match &info.branch {
            Some(name) => Some(name.as_str()),
            None => None,
        };
        artifacts.add_artifact(
            commit_artifact(
                info.hash.as_str(),
                info.message.as_str(),
                info.author.as_str(),
                branch,
                commit_time,
            ),
        );
    }
    assert(artifacts@ =~= execution_artifacts(
        output@,
        commit_contents(*commit),
        log_time@,
        commit_time@,
    ));
    artifacts
}

/// What comes of a work item whose process has ended: what it has yielded
/// where the exit code is zero, else an error that names the tool and the code
/// and repeats the output. The artifacts are handed on either way.
pub open spec fn execution_outcome(
    tool: Seq<char>,
    output: Seq<char>,
    exit_code: i32,
    duration_ms: u64,
    files_modified: Seq<Seq<char>>,
    artifacts: Seq<crate::artifacts::ArtifactView>,
) -> Result<ExecutionResultView, ExecutionFailureView> {
    if exit_code == 0 {
        Ok(
            ExecutionResultView {
                output,
                duration_ms,
                files_modified,
                artifacts: crate::artifacts::artifacts_bytes(artifacts),
            },
        )
    } else {
        Err(
            ExecutionFailureView {
                error: tool + " process exited with code "@ + crate::text::signed_decimal(
                    exit_code as int,
                ) + ": "@ + output,
                artifacts: crate::artifacts::artifacts_bytes(artifacts),
            },
        )
    }
}

/// What comes of a work item whose process has ended, with its artifacts.
pub fn conclude_execution(
    tool: &str,
    output: String,
    exit_code: i32,
    duration_ms: u64,
    files_modified: Vec<String>,
    artifacts: &ArtifactCollector,
) -> (outcome: Result<ExecutionResult, ExecutionFailure>)
    ensures
        outcome_view(outcome) == execution_outcome(
            tool@,
            output@,
            exit_code,
            duration_ms,
            files_modified.deep_view(),
            artifacts@,
        ),
        outcome is Ok <==> exit_code == 0,
        outcome matches Ok(execution) ==> {
            &&& execution.output@ == output@
            &&& execution.duration_ms == duration_ms
            &&& execution.files_modified.deep_view() == files_modified.deep_view()
            &&& execution.artifacts@ == crate::artifacts::artifacts_bytes(artifacts@)
        },
        outcome matches Err(failure) ==> {
            &&& failure.error@ == tool@ + " process exited with code "@
                + crate::text::signed_decimal(exit_code as int) + ": "@ + output@
            &&& failure.artifacts@ == crate::artifacts::artifacts_bytes(artifacts@)
        },
{
    if exit_code == 0 {
        Ok(
            ExecutionResult {
                output,
                duration_ms,
                files_modified,
                artifacts: artifacts.to_json_bytes(),
            },
        )
    } else {
        let mut error = tool.to_string();
        error.append(" process exited with code ");
        error.append(signed_decimal_text(exit_code).as_str());
        error.append(": ");
        error.append(output.as_str());
        Err(ExecutionFailure { error, artifacts: artifacts.to_json_bytes() })
    }
}

/// What comes of a work item whose process has ended, with artifacts that are
/// made now.
pub fn finish_execution(
    tool: &str,
    output: String,
    exit_code: i32,
    duration_ms: u64,
    files_modified: Vec<String>,
    commit: &Option<CommitInfo>,
) -> (outcome: Result<ExecutionResult, ExecutionFailure>)
    requires
        can_collect(output@, commit_contents(*commit)),
    ensures
        exists|log_time: Seq<char>, commit_time: Seq<char>| #[trigger]
            crate::outside::is_utc_timestamp(log_time) && #[trigger]
            crate::outside::is_utc_timestamp(commit_time) && outcome_view(outcome)
                == execution_outcome(
                tool@,
                output@,
                exit_code,
                duration_ms,
                files_modified.deep_view(),
                execution_artifacts(output@, commit_contents(*commit), log_time, commit_time),
            ),
{
    let log_time = utc_timestamp();
    let commit_time = utc_timestamp();
    let ghost times = (log_time@, commit_time@);
    let artifacts = collect_artifacts(output.as_str(), commit, log_time, commit_time);
    let outcome = conclude_execution(
        tool,
        output,
        exit_code,
        duration_ms,
        files_modified,
        &artifacts,
    );
    assert(crate::outside::is_utc_timestamp(times.0) && crate::outside::is_utc_timestamp(times.1));
    outcome
}

/// A draining agent takes on no work item: it hands each one back as rejected.
/// Any other agent takes on each one.
pub proof fn law_draining_agent_rejects_work(
    draining: bool,
    transducer_id: Seq<char>,
    assignment: Assignment,
    step: WorkStep,
)
    requires
        is_work_step(draining, transducer_id, WorkEvent::Assigned(assignment), step),
    ensures
        step is Reject <==> draining,
        step is Execute <==> !draining,
        step matches WorkStep::Reject(result) ==> {
            &&& result@.status == WorkStatus::Rejected
            &&& result@.assignment_id == assignment.assignment_id@
            &&& result@.transducer_id == transducer_id
            &&& result@.error == "Agent is draining - cannot accept new work"@
        },
{
}

/// Once the orchestrator has told the agent to drain, each work item is handed
/// back, until it tells the agent to go on: signals that settle nothing do not
/// change that.
pub proof fn law_no_work_between_drain_and_continue(
    draining: bool,
    signals: Seq<crate::agent::ControlSignal>,
    last: int,
    transducer_id: Seq<char>,
    assignment: Assignment,
    step: WorkStep,
)
    requires
        0 <= last < signals.len(),
        crate::agent::is_decisive(signals[last]),
        forall|i: int|
            last < i < signals.len() ==> !crate::agent::is_decisive(#[trigger] signals[i]),
        is_work_step(
            crate::agent::draining_after_all(draining, signals),
            transducer_id,
            WorkEvent::Assigned(assignment),
            step,
        ),
    ensures
        signals[last] == crate::agent::ControlSignal::Drain <==> step is Reject,
        signals[last] == crate::agent::ControlSignal::Continue <==> step is Execute,
{
    crate::agent::law_last_decisive_signal_counts(draining, signals, last);
}

/// A work item that comes while the agent has in hand all that it may is not
/// handed back for that: it waits, and there is room for it as soon as another
/// one is put out of hand.
pub proof fn law_work_waits_for_room(
    state: crate::agent::AgentStateView,
    transducer_id: Seq<char>,
    assignment: Assignment,
    step: WorkStep,
)
    requires
        state.active_work_count == state.max_concurrent,
        state.max_concurrent >= 1,
        !state.draining,
        is_work_step(state.draining, transducer_id, WorkEvent::Assigned(assignment), step),
    ensures
        step == WorkStep::Execute(assignment),
        !state.can_make(crate::agent::AgentStep::Begin),
        state.can_make(crate::agent::AgentStep::Finish),
        state.finished().can_make(crate::agent::AgentStep::Begin),
        state.finished().begun() == state,
{
}

/// A work item is handed back as completed exactly where its process ended
/// with exit code zero, and then without an error and with what it has
/// yielded; else it has failed, and the error is handed back. Its artifacts
/// are handed back in either case.
pub proof fn law_completed_iff_exit_code_is_zero(
    transducer_id: Seq<char>,
    assignment_id: Seq<char>,
    tool: Seq<char>,
    output: Seq<char>,
    exit_code: i32,
    duration_ms: u64,
    files_modified: Seq<Seq<char>>,
    artifacts: Seq<crate::artifacts::ArtifactView>,
)
    ensures
        ({
            let outcome = execution_outcome(
                tool,
                output,
                exit_code,
                duration_ms,
                files_modified,
                artifacts,
            );
            let result = report_of(transducer_id, assignment_id, outcome);
            &&& result.assignment_id == assignment_id
            &&& result.transducer_id == transducer_id
            &&& result.artifacts == crate::artifacts::artifacts_bytes(artifacts)
            &&& result.status == WorkStatus::Completed <==> exit_code == 0
            &&& result.status == WorkStatus::Failed <==> exit_code != 0
            &&& exit_code == 0 ==> {
                &&& result.error.len() == 0
                &&& result.summary == output
                &&& result.files_modified == files_modified
                &&& result.duration_ms == duration_ms
            }
            &&& exit_code != 0 ==> {
                &&& result.error == tool + " process exited with code "@
                    + crate::text::signed_decimal(exit_code as int) + ": "@ + output
                &&& result.error.len() > 0
                &&& result.summary.len() == 0
                &&& result.files_modified.len() == 0
                &&& result.duration_ms == 0
            }
        }),
{
    reveal_strlit(" process exited with code ");
}

/// A process that failed is never taken for one that was successful where it
/// said why on standard error; and one that was successful has its standard
/// output taken, whatever stands on standard error.
pub proof fn law_direct_result_goes_by_success(
    output: Seq<char>,
    errors: Seq<char>,
    success: bool,
    code: Option<i32>,
)
    requires
        success <==> code == Some(0i32),
    ensures
        success ==> direct_result(output, errors, success, code) == (output, 0i32),
        !success && errors.len() > 0 ==> {
            let result = direct_result(output, errors, success, code);
            result.0 == errors && result.1 != 0
        },
{
}

/// The task stands at the end of a prompt for the sandbox, and what has to be
/// known of the sandbox at its front.
pub proof fn law_sandbox_prompt_keeps_both_parts(awareness: Seq<char>, prompt: Seq<char>)
    ensures
        awareness.is_prefix_of(sandbox_prompt(awareness, prompt)),
        prompt.is_suffix_of(sandbox_prompt(awareness, prompt)),
{
    let whole = sandbox_prompt(awareness, prompt);
    assert(whole.subrange(0, awareness.len() as int) =~= awareness);
    assert(whole.subrange(whole.len() - prompt.len(), whole.len() as int) =~= prompt);
}

/// The artifacts of a work item are its output and its commit, and nothing
/// else: one where there is only one, none where there is neither.
pub proof fn law_artifacts_count_what_there_is(
    output: Seq<char>,
    commit: Option<crate::git::CommitInfoView>,
    log_time: Seq<char>,
    commit_time: Seq<char>,
)
    ensures
        execution_artifacts(output, commit, log_time, commit_time).len() == (if output.len() > 0 {
            1int
        } else {
            0
        }) + (if commit is Some {
            1int
        } else {
            0
        }),
{
}

/// What is handed back for a rejected work item names the agent and the work
/// item, says why, and is empty otherwise.
pub proof fn law_rejection_says_why_and_no_more(
    transducer_id: Seq<char>,
    assignment_id: Seq<char>,
)
    ensures
        ({
            let result = rejection(transducer_id, assignment_id);
            &&& result.transducer_id == transducer_id
            &&& result.assignment_id == assignment_id
            &&& result.status == WorkStatus::Rejected
            &&& result.error == "Agent is draining - cannot accept new work"@
            &&& result.summary.len() == 0
            &&& result.files_modified.len() == 0
            &&& result.commit_hash.len() == 0
            &&& result.pr_number == 0
            &&& result.usage is None
            &&& result.duration_ms == 0
            &&& result.artifacts.len() == 0
        }),
{
}

/// What is handed back for a work item is what it has yielded, each part as it
/// is, or how it failed; the usage is never told of but as nothing used up.
pub proof fn law_outcome_is_handed_back_as_it_is(
    transducer_id: Seq<char>,
    assignment_id: Seq<char>,
    execution: ExecutionResultView,
    failure: ExecutionFailureView,
)
    ensures
        ({
            let result = report_of(transducer_id, assignment_id, Ok(execution));
            &&& result.transducer_id == transducer_id
            &&& result.assignment_id == assignment_id
            &&& result.status == WorkStatus::Completed
            &&& result.summary == execution.output
            &&& result.files_modified == execution.files_modified
            &&& result.duration_ms == execution.duration_ms
            &&& result.artifacts == execution.artifacts
            &&& result.error.len() == 0
            &&& result.commit_hash.len() == 0
            &&& result.pr_number == 0
            &&& result.usage matches Some(usage) && usage.input_tokens == 0 && usage.output_tokens
                == 0 && usage.cache_read_tokens == 0 && usage.cache_creation_tokens == 0
        }),
        ({
            let result = report_of(transducer_id, assignment_id, Err(failure));
            &&& result.transducer_id == transducer_id
            &&& result.assignment_id == assignment_id
            &&& result.status == WorkStatus::Failed
            &&& result.error == failure.error
            &&& result.artifacts == failure.artifacts
            &&& result.summary.len() == 0
            &&& result.files_modified.len() == 0
            &&& result.duration_ms == 0
            &&& result.commit_hash.len() == 0
            &&& result.pr_number == 0
            &&& result.usage matches Some(usage) && usage.input_tokens == 0 && usage.output_tokens
                == 0 && usage.cache_read_tokens == 0 && usage.cache_creation_tokens == 0
        }),
{
}

/// A failure of the stream of assignments makes the agent wait for five
/// seconds, and its end makes the agent stop, whether or not it drains.
pub proof fn law_stream_failure_pauses_and_its_end_stops(
    draining: bool,
    transducer_id: Seq<char>,
    step: WorkStep,
)
    ensures
        is_work_step(draining, transducer_id, WorkEvent::Failed, step) <==> step == WorkStep::Pause(
            5,
        ),
        is_work_step(draining, transducer_id, WorkEvent::Closed, step) <==> step == WorkStep::Stop,
{
}

/// A work item that is taken on is the one that was assigned, with its prompt
/// and its directory as they are.
pub proof fn law_work_is_taken_on_as_assigned(
    transducer_id: Seq<char>,
    assignment: Assignment,
    step: WorkStep,
)
    ensures
        is_work_step(false, transducer_id, WorkEvent::Assigned(assignment), step) <==> step
            == WorkStep::Execute(assignment),
        is_work_step(true, transducer_id, WorkEvent::Assigned(assignment), step) <==> (step
            matches WorkStep::Reject(result) && result@ == rejection(
            transducer_id,
            assignment.assignment_id@,
        )),
{
}

/// The directory of a work item is used wherever it names one, whatever it is;
/// else that of the agent, if it has one.
pub proof fn law_directory_of_the_work_item_goes_first(
    repo_path: Seq<char>,
    work_dir: Option<Seq<char>>,
)
    ensures
        repo_path.len() > 0 ==> directory_of(repo_path, work_dir) == Some(repo_path),
        directory_of(Seq::empty(), work_dir) == work_dir,
{
}

/// The tool is always run with the same two options, and then the prompt as it
/// is.
pub proof fn law_tool_gets_the_prompt_as_it_is(prompt: Seq<char>)
    ensures
        tool_arguments(prompt).len() == 3,
        tool_arguments(prompt)[0] == "--dangerously-skip-permissions"@,
        tool_arguments(prompt)[1] == "-p"@,
        tool_arguments(prompt)[2] == prompt,
{
}

/// Between what has to be known of the sandbox and the task stands a heading,
/// and nothing else.
pub proof fn law_heading_stands_between_sandbox_and_task(
    awareness: Seq<char>,
    prompt: Seq<char>,
)
    ensures
        sandbox_prompt(awareness, prompt).take(awareness.len() as int) == awareness,
        sandbox_prompt(awareness, prompt).skip(awareness.len() as int)
            == "\n\n---\n\n## Your Task\n\n"@ + prompt,
{
    let whole = sandbox_prompt(awareness, prompt);
    assert(whole.take(awareness.len() as int) =~= awareness);
    assert(whole.skip(awareness.len() as int) =~= "\n\n---\n\n## Your Task\n\n"@ + prompt);
}

/// What a process has put out on standard error counts exactly where it failed
/// and put out something there; the exit code is its own, whatever it is, and
/// for a process without one it is 1 where standard error counts, else 0.
pub proof fn law_standard_error_counts_on_failure(
    output: Seq<char>,
    errors: Seq<char>,
    success: bool,
    code: Option<i32>,
    own: i32,
)
    ensures
        !success && errors.len() > 0 ==> direct_result(output, errors, success, code).0 == errors,
        success || errors.len() == 0 ==> direct_result(output, errors, success, code).0 == output,
        direct_result(output, errors, success, Some(own)).1 == own,
        direct_result(output, errors, success, None).1 == if !success && errors.len() > 0 {
            1i32
        } else {
            0
        },
{
}

/// The artifacts of a work item are, first, a log of its output at the level
/// `info`, where it has put out anything; and last, its commit, where there is
/// one.
pub proof fn law_artifacts_are_the_log_and_the_commit(
    output: Seq<char>,
    commit: Option<crate::git::CommitInfoView>,
    log_time: Seq<char>,
    commit_time: Seq<char>,
)
    ensures
        ({
            let artifacts = execution_artifacts(output, commit, log_time, commit_time);
            &&& output.len() > 0 ==> artifacts.len() > 0 && artifacts[0]
                == crate::artifacts::log_view("execution_output"@, "info"@, output, log_time)
            &&& commit matches Some(info) ==> artifacts.len() > 0 && artifacts.last()
                == crate::artifacts::commit_view(
                info.hash,
                info.message,
                info.author,
                info.branch,
                commit_time,
            )
        }),
        can_collect(output, commit) <==> {
            &&& vstd::utf8::encode_utf8(output).len() <= 10_000 || vstd::utf8::is_char_boundary(
                vstd::utf8::encode_utf8(output),
                10_000,
            )
            &&& commit matches Some(info) ==> (vstd::utf8::encode_utf8(info.hash).len() <= 7
                || vstd::utf8::is_char_boundary(vstd::utf8::encode_utf8(info.hash), 7))
        },
{
    crate::artifacts::law_log_artifact_holds_its_parts(
        "execution_output"@,
        "info"@,
        output,
        log_time,
    );
    if let Some(info) = commit {
        crate::artifacts::law_short_hash_has_seven_bytes(info.hash);
    }
}

/// Results, executions, failures and commits are seen with all that they hold.
pub proof fn law_results_are_seen_as_they_are(
    result: WorkResult,
    execution: ExecutionResult,
    failure: ExecutionFailure,
    commit: CommitInfo,
)
    ensures
        result@.transducer_id == result.transducer_id@,
        result@.assignment_id == result.assignment_id@,
        result@.status == result.status,
        result@.summary == result.summary@,
        result@.files_modified == result.files_modified.deep_view(),
        result@.commit_hash == result.commit_hash@,
        result@.pr_number == result.pr_number,
        result@.usage == result.usage,
        result@.error == result.error@,
        result@.duration_ms == result.duration_ms,
        result@.artifacts == result.artifacts@,
        execution@.output == execution.output@,
        execution@.duration_ms == execution.duration_ms,
        execution@.files_modified == execution.files_modified.deep_view(),
        execution@.artifacts == execution.artifacts@,
        failure@.error == failure.error@,
        failure@.artifacts == failure.artifacts@,
        outcome_view(Ok(execution)) == Ok::<ExecutionResultView, ExecutionFailureView>(execution@),
        outcome_view(Err(failure)) == Err::<ExecutionResultView, ExecutionFailureView>(failure@),
        commit_contents(Some(commit)) == Some(commit@),
        commit_contents(None) is None,
{
}

/// Whatever the process has put out and whatever the exit code, the outcome is
/// what was put out where the code is zero; else an error that names the tool,
/// the code and what was put out. The artifacts are handed on either way.
pub proof fn law_outcome_goes_by_the_exit_code(
    tool: Seq<char>,
    output: Seq<char>,
    exit_code: i32,
    duration_ms: u64,
    files_modified: Seq<Seq<char>>,
    artifacts: Seq<crate::artifacts::ArtifactView>,
)
    ensures
        ({
            let outcome = execution_outcome(
                tool,
                output,
                exit_code,
                duration_ms,
                files_modified,
                artifacts,
            );
            &&& outcome is Ok <==> exit_code == 0
            &&& outcome matches Ok(execution) ==> {
                &&& execution.output == output
                &&& execution.duration_ms == duration_ms
                &&& execution.files_modified == files_modified
                &&& execution.artifacts == crate::artifacts::artifacts_bytes(artifacts)
            }
            &&& outcome matches Err(failure) ==> {
                &&& failure.error == tool + " process exited with code "@
                    + crate::text::signed_decimal(exit_code as int) + ": "@ + output
                &&& failure.artifacts == crate::artifacts::artifacts_bytes(artifacts)
            }
        }),
{
}

} // verus!
