//! Artifacts: structured data that a work item leaves behind besides its
//! output, and the JSON in which they are handed on.

use crate::json::{
    copy_members, encode_value, push_member, push_number, push_text, push_value, JsonMember,
    JsonValue,
};
use crate::outside::utc_timestamp;
use crate::text::{count_lines, cut, decimal_text, utf8_bytes};
use vstd::prelude::*;
use vstd::string::*;
use vstd::utf8::*;

verus! {

/// Bytes of a commit hash in its short form.
pub const SHORT_HASH_BYTES: usize = 7;

/// Bytes of a log that are kept.
pub const MAX_LOG_BYTES: usize = 10_000;

/// Known artifact types.
#[derive(Debug, Clone, Copy, PartialEq, Eq, Structural)]
pub enum ArtifactType {
    /// Git commit information
    Commit,
    /// Pull request information
    PullRequest,
    /// Test execution results
    TestResults,
    /// Build output
    Build,
    /// Execution log/trace
    Log,
    /// Code coverage report
    Coverage,
    /// Benchmark results
    Benchmark,
    /// Diff/patch
    Diff,
    /// Screenshot or image
    Screenshot,
    /// Custom artifact
    Custom,
}

/// An artifact produced during work execution.
#[derive(Debug, Clone)]
pub struct Artifact {
    /// Artifact type (e.g., "commit", "pr", "test_results", "log")
    pub artifact_type: ArtifactType,
    /// Human-readable name
    pub name: String,
    /// Artifact data (type-specific)
    pub data: ArtifactData,
    /// When the artifact was created
    pub created_at: Option<String>,
}

/// Type-specific artifact data.
#[derive(Debug, Clone)]
pub enum ArtifactData {
    Commit(CommitArtifact),
    PullRequest(PullRequestArtifact),
    TestResults(TestResultsArtifact),
    Log(LogArtifact),
    Generic(GenericArtifact),
}

/// Git commit artifact.
#[derive(Debug, Clone)]
pub struct CommitArtifact {
    /// Full commit hash
    pub hash: String,
    /// Short commit hash
    pub short_hash: String,
    /// Commit message
    pub message: String,
    /// Author name/email
    pub author: String,
    /// Branch name
    pub branch: Option<String>,
}

/// Pull request artifact.
#[derive(Debug, Clone)]
pub struct PullRequestArtifact {
    /// PR number
    pub number: u64,
    /// PR title
    pub title: String,
    /// PR URL
    pub url: String,
    /// Source branch
    pub head_branch: String,
    /// Target branch
    pub base_branch: String,
    /// PR state (open, merged, closed)
    pub state: Option<String>,
}

/// Test results artifact.
#[derive(Debug, Clone)]
pub struct TestResultsArtifact {
    /// Total tests run
    pub total: u32,
    /// Tests passed
    pub passed: u32,
    /// Tests failed
    pub failed: u32,
    /// Tests skipped
    pub skipped: u32,
    /// Execution time in seconds, in the form in which JSON writes the number
    pub duration_secs: Option<String>,
    /// Failed test names
    pub failures: Vec<String>,
}

/// Log/trace artifact.
#[derive(Debug, Clone)]
pub struct LogArtifact {
    /// Log level (info, debug, error, etc.)
    pub level: String,
    /// Log content (may be truncated)
    pub content: String,
    /// Total lines (if truncated)
    pub total_lines: Option<u32>,
}

/// Generic key-value artifact for custom data.
#[derive(Debug, Clone)]
pub struct GenericArtifact {
    /// Arbitrary key-value data; no key stands in it twice
    pub data: Vec<JsonMember>,
}

/// The contents of an [`Artifact`].
pub struct ArtifactView {
    pub artifact_type: ArtifactType,
    pub name: Seq<char>,
    pub data: ArtifactDataView,
    pub created_at: Option<Seq<char>>,
}

/// The contents of [`ArtifactData`].
pub enum ArtifactDataView {
    Commit(CommitView),
    PullRequest(PullRequestView),
    TestResults(TestResultsView),
    Log(LogView),
    Generic(Seq<crate::json::MemberView>),
}

/// The contents of a [`CommitArtifact`].
pub struct CommitView {
    pub hash: Seq<char>,
    pub short_hash: Seq<char>,
    pub message: Seq<char>,
    pub author: Seq<char>,
    pub branch: Option<Seq<char>>,
}

/// The contents of a [`PullRequestArtifact`].
pub struct PullRequestView {
    pub number: u64,
    pub title: Seq<char>,
    pub url: Seq<char>,
    pub head_branch: Seq<char>,
    pub base_branch: Seq<char>,
    pub state: Option<Seq<char>>,
}

/// The contents of a [`TestResultsArtifact`].
pub struct TestResultsView {
    pub total: u32,
    pub passed: u32,
    pub failed: u32,
    pub skipped: u32,
    pub duration_secs: Option<Seq<char>>,
    pub failures: Seq<Seq<char>>,
}

/// The contents of a [`LogArtifact`].
pub struct LogView {
    pub level: Seq<char>,
    pub content: Seq<char>,
    pub total_lines: Option<u32>,
}

impl View for CommitArtifact {
    type V = CommitView;

    open spec fn view(&self) -> CommitView {
        CommitView {
            hash: self.hash@,
            short_hash: self.short_hash@,
            message: self.message@,
            author: self.author@,
            branch: self.branch.deep_view(),
        }
    }
}

impl View for PullRequestArtifact {
    type V = PullRequestView;

    open spec fn view(&self) -> PullRequestView {
        PullRequestView {
            number: self.number,
            title: self.title@,
            url: self.url@,
            head_branch: self.head_branch@,
            base_branch: self.base_branch@,
            state: self.state.deep_view(),
        }
    }
}

impl View for TestResultsArtifact {
    type V = TestResultsView;

    open spec fn view(&self) -> TestResultsView {
        TestResultsView {
            total: self.total,
            passed: self.passed,
            failed: self.failed,
            skipped: self.skipped,
            duration_secs: self.duration_secs.deep_view(),
            failures: self.failures.deep_view(),
        }
    }
}

impl View for LogArtifact {
    type V = LogView;

    open spec fn view(&self) -> LogView {
        LogView { level: self.level@, content: self.content@, total_lines: self.total_lines }
    }
}

impl View for ArtifactData {
    type V = ArtifactDataView;

    open spec fn view(&self) -> ArtifactDataView {
        match self {
            ArtifactData::Commit(commit) => ArtifactDataView::Commit(commit@),
            ArtifactData::PullRequest(pr) => ArtifactDataView::PullRequest(pr@),
            ArtifactData::TestResults(results) => ArtifactDataView::TestResults(results@),
            ArtifactData::Log(log) => ArtifactDataView::Log(log@),
            ArtifactData::Generic(generic) => ArtifactDataView::Generic(
                crate::json::member_views(generic.data@),
            ),
        }
    }
}

impl View for Artifact {
    type V = ArtifactView;

    open spec fn view(&self) -> ArtifactView {
        ArtifactView {
            artifact_type: self.artifact_type,
            name: self.name@,
            data: self.data@,
            created_at: self.created_at.deep_view(),
        }
    }
}

impl ArtifactView {
    /// The data is of the type that the artifact has, a duration is a number,
    /// and custom data is a well-formed object.
    pub open spec fn wf(self) -> bool {
        match self.data {
            ArtifactDataView::Commit(_) => self.artifact_type == ArtifactType::Commit,
            ArtifactDataView::PullRequest(_) => self.artifact_type == ArtifactType::PullRequest,
            ArtifactDataView::TestResults(results) => {
                &&& self.artifact_type == ArtifactType::TestResults
                &&& results.duration_secs matches Some(literal) ==> crate::json::is_number(literal)
            },
            ArtifactDataView::Log(_) => self.artifact_type == ArtifactType::Log,
            ArtifactDataView::Generic(members) => {
                &&& self.artifact_type != ArtifactType::Commit
                &&& self.artifact_type != ArtifactType::PullRequest
                &&& self.artifact_type != ArtifactType::TestResults
                &&& self.artifact_type != ArtifactType::Log
                &&& crate::json::value_wf(crate::json::JsonView::Object(members))
            },
        }
    }
}

/// Whether all of some artifacts are well-formed.
pub open spec fn all_wf(artifacts: Seq<ArtifactView>) -> bool {
    forall|i: int| 0 <= i < artifacts.len() ==> (#[trigger] artifacts[i]).wf()
}

/// Whether `hash` has a short form: the cut does not fall within a character.
pub open spec fn has_short_hash(hash: Seq<char>) -> bool {
    crate::text::byte_len(hash) > SHORT_HASH_BYTES ==> crate::text::can_cut(
        hash,
        SHORT_HASH_BYTES as int,
    )
}

/// The short form of a commit hash: its first bytes.
pub open spec fn short_hash(hash: Seq<char>) -> Seq<char> {
    if crate::text::byte_len(hash) > SHORT_HASH_BYTES {
        crate::text::byte_prefix(hash, SHORT_HASH_BYTES as int)
    } else {
        hash
    }
}

/// Whether `content` is too long for a log.
pub open spec fn is_long_log(content: Seq<char>) -> bool {
    crate::text::byte_len(content) > MAX_LOG_BYTES
}

/// Whether a log of `content` can be kept: what is cut off, if anything, does
/// not begin within a character.
pub open spec fn can_log(content: Seq<char>) -> bool {
    is_long_log(content) ==> crate::text::can_cut(content, MAX_LOG_BYTES as int)
}

/// What is kept of a log of `content`.
pub open spec fn kept_log(content: Seq<char>) -> Seq<char> {
    if is_long_log(content) {
        crate::text::byte_prefix(content, MAX_LOG_BYTES as int)
    } else {
        content
    }
}

/// A commit as an artifact.
pub open spec fn commit_view(
    hash: Seq<char>,
    message: Seq<char>,
    author: Seq<char>,
    branch: Option<Seq<char>>,
    created_at: Seq<char>,
) -> ArtifactView {
    ArtifactView {
        artifact_type: ArtifactType::Commit,
        name: "Commit "@ + short_hash(hash),
        data: ArtifactDataView::Commit(
            CommitView { hash, short_hash: short_hash(hash), message, author, branch },
        ),
        created_at: Some(created_at),
    }
}

/// An open pull request as an artifact.
pub open spec fn pull_request_view(
    number: u64,
    title: Seq<char>,
    url: Seq<char>,
    head_branch: Seq<char>,
    base_branch: Seq<char>,
    created_at: Seq<char>,
) -> ArtifactView {
    ArtifactView {
        artifact_type: ArtifactType::PullRequest,
        name: "PR #"@ + crate::text::decimal(number as nat),
        data: ArtifactDataView::PullRequest(
            PullRequestView {
                number,
                title,
                url,
                head_branch,
                base_branch,
                state: Some("open"@),
            },
        ),
        created_at: Some(created_at),
    }
}

/// The outcome of a test run as an artifact.
pub open spec fn test_results_view(
    total: u32,
    passed: u32,
    failed: u32,
    skipped: u32,
    failures: Seq<Seq<char>>,
    created_at: Seq<char>,
) -> ArtifactView {
    ArtifactView {
        artifact_type: ArtifactType::TestResults,
        name: "Test Results ("@ + crate::text::decimal(passed as nat) + "/"@
            + crate::text::decimal(total as nat) + " passed)"@,
        data: ArtifactDataView::TestResults(
            TestResultsView { total, passed, failed, skipped, duration_secs: None, failures },
        ),
        created_at: Some(created_at),
    }
}

/// A log as an artifact. A log that was cut tells how many lines it had, as a
/// 32-bit number.
pub open spec fn log_view(
    name: Seq<char>,
    level: Seq<char>,
    content: Seq<char>,
    created_at: Seq<char>,
) -> ArtifactView {
    ArtifactView {
        artifact_type: ArtifactType::Log,
        name,
        data: ArtifactDataView::Log(
            LogView {
                level,
                content: kept_log(content),
                total_lines: if is_long_log(content) {
                    Some((crate::text::line_count(content) % 0x1_0000_0000) as u32)
                } else {
                    None
                },
            },
        ),
        created_at: Some(created_at),
    }
}

/// Custom data as an artifact.
pub open spec fn custom_view(
    name: Seq<char>,
    data: Seq<crate::json::MemberView>,
    created_at: Seq<char>,
) -> ArtifactView {
    ArtifactView {
        artifact_type: ArtifactType::Custom,
        name,
        data: ArtifactDataView::Generic(data),
        created_at: Some(created_at),
    }
}

fn joined_text(front: &str, back: &str) -> (text: String)
    ensures
        text@ == front@ + back@,
{
    front.to_string().concat(back)
}

/// Whether `hash` has a short form.
pub fn has_short_form(hash: &str) -> (yes: bool)
    ensures
        yes == has_short_hash(hash@),
{
    hash.as_bytes().len() <= SHORT_HASH_BYTES || hash.is_char_boundary(SHORT_HASH_BYTES)
}

/// Whether a log of `content` can be kept.
pub fn can_be_logged(content: &str) -> (yes: bool)
    ensures
        yes == can_log(content@),
{
    content.as_bytes().len() <= MAX_LOG_BYTES || content.is_char_boundary(MAX_LOG_BYTES)
}

/// The short form of a commit hash.
pub fn short_hash_of(hash: &str) -> (short: String)
    requires
        has_short_hash(hash@),
    ensures
        short@ == short_hash(hash@),
{
    if hash.as_bytes().len() > SHORT_HASH_BYTES {
        cut(hash, SHORT_HASH_BYTES)
    } else {
        hash.to_string()
    }
}

/// A commit as an artifact that was created at `created_at`.
pub fn commit_artifact(
    hash: &str,
    message: &str,
    author: &str,
    branch: Option<&str>,
    created_at: String,
) -> (artifact: Artifact)
    requires
        has_short_hash(hash@),
    ensures
        artifact@ == commit_view(hash@, message@, author@, branch.deep_view(), created_at@),
        artifact.artifact_type == ArtifactType::Commit,
        artifact.name@ == "Commit "@ + short_hash(hash@),
        artifact.created_at.deep_view() == Some(created_at@),
        artifact.data matches ArtifactData::Commit(commit) && {
            &&& commit.hash@ == hash@
            &&& commit.short_hash@ == short_hash(hash@)
            &&& commit.message@ == message@
            &&& commit.author@ == author@
            &&& commit.branch.deep_view() == branch.deep_view()
        },
{
    let short = short_hash_of(hash);
    Artifact {
        artifact_type: ArtifactType::Commit,
        name: joined_text("Commit ", short.as_str()),
        data: ArtifactData::Commit(
            CommitArtifact {
                hash: hash.to_string(),
                short_hash: short,
                message: message.to_string(),
                author: author.to_string(),
                branch: match branch {
                    Some(name) => Some(name.to_string()),
                    None => None,
                },
            },
        ),
        created_at: Some(created_at),
    }
}

/// An open pull request as an artifact that was created at `created_at`.
pub fn pull_request_artifact(
    number: u64,
    title: &str,
    url: &str,
    head_branch: &str,
    base_branch: &str,
    created_at: String,
) -> (artifact: Artifact)
    ensures
        artifact@ == pull_request_view(
            number,
            title@,
            url@,
            head_branch@,
            base_branch@,
            created_at@,
        ),
        artifact.artifact_type == ArtifactType::PullRequest,
        artifact.name@ == "PR #"@ + crate::text::decimal(number as nat),
        artifact.created_at.deep_view() == Some(created_at@),
        artifact.data matches ArtifactData::PullRequest(pr) && {
            &&& pr.number == number
            &&& pr.title@ == title@
            &&& pr.url@ == url@
            &&& pr.head_branch@ == head_branch@
            &&& pr.base_branch@ == base_branch@
            &&& pr.state.deep_view() == Some("open"@)
        },
{
    Artifact {
        artifact_type: ArtifactType::PullRequest,
        name: joined_text("PR #", decimal_text(number).as_str()),
        data: ArtifactData::PullRequest(
            PullRequestArtifact {
                number,
                title: title.to_string(),
                url: url.to_string(),
                head_branch: head_branch.to_string(),
                base_branch: base_branch.to_string(),
                state: Some("open".to_string()),
            },
        ),
        created_at: Some(created_at),
    }
}

/// The outcome of a test run as an artifact that was created at `created_at`.
pub fn test_results_artifact(
    total: u32,
    passed: u32,
    failed: u32,
    skipped: u32,
    failures: Vec<String>,
    created_at: String,
) -> (artifact: Artifact)
    ensures
        artifact@ == test_results_view(
            total,
            passed,
            failed,
            skipped,
            failures.deep_view(),
            created_at@,
        ),
        artifact.artifact_type == ArtifactType::TestResults,
        artifact.name@ == "Test Results ("@ + crate::text::decimal(passed as nat) + "/"@
            + crate::text::decimal(total as nat) + " passed)"@,
        artifact.created_at.deep_view() == Some(created_at@),
        artifact.data matches ArtifactData::TestResults(results) && {
            &&& results.total == total
            &&& results.passed == passed
            &&& results.failed == failed
            &&& results.skipped == skipped
            &&& results.duration_secs is None
            &&& results.failures.deep_view() == failures.deep_view()
        },
{
    let mut name = joined_text("Test Results (", decimal_text(passed as u64).as_str());
    name.append("/");
    name.append(decimal_text(total as u64).as_str());
    name.append(" passed)");
    Artifact {
        artifact_type: ArtifactType::TestResults,
        name,
        data: ArtifactData::TestResults(
            TestResultsArtifact { total, passed, failed, skipped, duration_secs: None, failures },
        ),
        created_at: Some(created_at),
    }
}

/// A log as an artifact that was created at `created_at`.
pub fn log_artifact(name: &str, level: &str, content: &str, created_at: String) -> (artifact:
    Artifact)
    requires
        can_log(content@),
    ensures
        artifact@ == log_view(name@, level@, content@, created_at@),
        artifact.artifact_type == ArtifactType::Log,
        artifact.name@ == name@,
        artifact.created_at.deep_view() == Some(created_at@),
        artifact.data matches ArtifactData::Log(log) && {
            &&& log.level@ == level@
            &&& log.content@ == kept_log(content@)
            &&& log.total_lines is Some <==> is_long_log(content@)
        },
{
    let long = content.as_bytes().len() > MAX_LOG_BYTES;
    let lines: u64 = count_lines(content) as u64;
    Artifact {
        artifact_type: ArtifactType::Log,
        name: name.to_string(),
        data: ArtifactData::Log(
            LogArtifact {
                level: level.to_string(),
                content: if long {
                    cut(content, MAX_LOG_BYTES)
                } else {
                    content.to_string()
                },
                total_lines: if long {
                    Some((lines % 0x1_0000_0000) as u32)
                } else {
                    None
                },
            },
        ),
        created_at: Some(created_at),
    }
}

/// Custom data as an artifact that was created at `created_at`.
pub fn custom_artifact(name: &str, data: Vec<JsonMember>, created_at: String) -> (artifact:
    Artifact)
    requires
        crate::json::value_wf(
            crate::json::JsonView::Object(crate::json::member_views(data@)),
        ),
    ensures
        artifact@ == custom_view(name@, crate::json::member_views(data@), created_at@),
        artifact.artifact_type == ArtifactType::Custom,
        artifact.name@ == name@,
        artifact.created_at.deep_view() == Some(created_at@),
        artifact.data matches ArtifactData::Generic(generic) && generic.data@ == data@,
        artifact@.wf(),
{
    Artifact {
        artifact_type: ArtifactType::Custom,
        name: name.to_string(),
        data: ArtifactData::Generic(GenericArtifact { data }),
        created_at: Some(created_at),
    }
}

/// The name of a type of artifacts in JSON.
pub open spec fn json_type(artifact_type: ArtifactType) -> Seq<char> {
    match artifact_type {
        ArtifactType::Commit => "commit"@,
        ArtifactType::PullRequest => "pr"@,
        ArtifactType::TestResults => "test_results"@,
        ArtifactType::Build => "build"@,
        ArtifactType::Log => "log"@,
        ArtifactType::Coverage => "coverage"@,
        ArtifactType::Benchmark => "benchmark"@,
        ArtifactType::Diff => "diff"@,
        ArtifactType::Screenshot => "screenshot"@,
        ArtifactType::Custom => "custom"@,
    }
}

/// A member with a string for its value.
pub open spec fn text_member(key: Seq<char>, text: Seq<char>) -> crate::json::MemberView {
    crate::json::MemberView { key, value: crate::json::JsonView::Text(text) }
}

/// A member with a whole number for its value.
pub open spec fn number_member(key: Seq<char>, number: nat) -> crate::json::MemberView {
    crate::json::MemberView {
        key,
        value: crate::json::JsonView::Number(crate::text::decimal(number)),
    }
}

/// A member with a string for its value, where there is one.
pub open spec fn optional_member(key: Seq<char>, text: Option<Seq<char>>) -> Seq<
    crate::json::MemberView,
> {
    match text {
        Some(text) => seq![text_member(key, text)],
        None => Seq::empty(),
    }
}

/// The members of a commit.
pub open spec fn commit_members(commit: CommitView) -> Seq<crate::json::MemberView> {
    seq![
        text_member("hash"@, commit.hash),
        text_member("short_hash"@, commit.short_hash),
        text_member("message"@, commit.message),
        text_member("author"@, commit.author),
    ] + optional_member("branch"@, commit.branch)
}

/// The members of a pull request.
pub open spec fn pull_request_members(pr: PullRequestView) -> Seq<crate::json::MemberView> {
    seq![
        number_member("number"@, pr.number as nat),
        text_member("title"@, pr.title),
        text_member("url"@, pr.url),
        text_member("head_branch"@, pr.head_branch),
        text_member("base_branch"@, pr.base_branch),
    ] + optional_member("state"@, pr.state)
}

/// The duration of a test run, as it is written, where it is known.
pub open spec fn duration_member(duration: Option<Seq<char>>) -> Seq<crate::json::MemberView> {
    match duration {
        Some(literal) => seq![
            crate::json::MemberView {
                key: "duration_secs"@,
                value: crate::json::JsonView::Number(literal),
            },
        ],
        None => Seq::empty(),
    }
}

/// Strings as values.
pub open spec fn texts(strings: Seq<Seq<char>>) -> Seq<crate::json::JsonView> {
    strings.map_values(|s: Seq<char>| crate::json::JsonView::Text(s))
}

/// The failures of a test run, where there are any.
pub open spec fn failures_member(failures: Seq<Seq<char>>) -> Seq<crate::json::MemberView> {
    if failures.len() > 0 {
        seq![
            crate::json::MemberView {
                key: "failures"@,
                value: crate::json::JsonView::Array(texts(failures)),
            },
        ]
    } else {
        Seq::empty()
    }
}

/// The members of test results.
pub open spec fn test_results_members(results: TestResultsView) -> Seq<crate::json::MemberView> {
    seq![
        number_member("total"@, results.total as nat),
        number_member("passed"@, results.passed as nat),
        number_member("failed"@, results.failed as nat),
        number_member("skipped"@, results.skipped as nat),
    ] + duration_member(results.duration_secs) + failures_member(results.failures)
}

/// The members of a log.
pub open spec fn log_members(log: LogView) -> Seq<crate::json::MemberView> {
    seq![text_member("level"@, log.level), text_member("content"@, log.content)]
        + match log.total_lines {
        Some(lines) => seq![number_member("total_lines"@, lines as nat)],
        None => Seq::empty(),
    }
}

/// The members of type-specific data, without a word on which type it is.
pub open spec fn data_members(data: ArtifactDataView) -> Seq<crate::json::MemberView> {
    match data {
        ArtifactDataView::Commit(commit) => commit_members(commit),
        ArtifactDataView::PullRequest(pr) => pull_request_members(pr),
        ArtifactDataView::TestResults(results) => test_results_members(results),
        ArtifactDataView::Log(log) => log_members(log),
        ArtifactDataView::Generic(members) => members,
    }
}

/// An artifact as a JSON value.
pub open spec fn artifact_json(artifact: ArtifactView) -> crate::json::JsonView {
    crate::json::JsonView::Object(
        seq![
            text_member("type"@, json_type(artifact.artifact_type)),
            text_member("name"@, artifact.name),
            crate::json::MemberView {
                key: "data"@,
                value: crate::json::JsonView::Object(data_members(artifact.data)),
            },
        ] + optional_member("created_at"@, artifact.created_at),
    )
}

/// Some artifacts as a JSON value.
pub open spec fn artifacts_json(artifacts: Seq<ArtifactView>) -> crate::json::JsonView {
    crate::json::JsonView::Array(
        artifacts.map_values(|artifact: ArtifactView| artifact_json(artifact)),
    )
}

/// Some artifacts as the bytes in which they are handed on.
pub open spec fn artifacts_bytes(artifacts: Seq<ArtifactView>) -> Seq<u8> {
    encode_utf8(crate::json::value_text(artifacts_json(artifacts)))
}

impl ArtifactType {
    /// The name of the type in JSON.
    pub fn name(&self) -> (name: &'static str)
        ensures
            name@ == json_type(*self),
    {
        match self {
            ArtifactType::Commit => "commit",
            ArtifactType::PullRequest => "pr",
            ArtifactType::TestResults => "test_results",
            ArtifactType::Build => "build",
            ArtifactType::Log => "log",
            ArtifactType::Coverage => "coverage",
            ArtifactType::Benchmark => "benchmark",
            ArtifactType::Diff => "diff",
            ArtifactType::Screenshot => "screenshot",
            ArtifactType::Custom => "custom",
        }
    }
}

fn push_optional_text(members: &mut Vec<JsonMember>, key: &str, text: &Option<String>)
    ensures
        crate::json::member_views(final(members)@) == crate::json::member_views(old(members)@)
            + optional_member(key@, text.deep_view()),
{
    if let Some(text) = text {
        push_text(members, key, text.as_str());
    }
    assert(crate::json::member_views(members@) =~= crate::json::member_views(old(members)@)
        + optional_member(key@, text.deep_view()));
}

impl CommitArtifact {
    fn members(&self) -> (members: Vec<JsonMember>)
        ensures
            crate::json::member_views(members@) == commit_members(self@),
    {
        let mut members: Vec<JsonMember> = Vec::new();
        push_text(&mut members, "hash", self.hash.as_str());
        push_text(&mut members, "short_hash", self.short_hash.as_str());
        push_text(&mut members, "message", self.message.as_str());
        push_text(&mut members, "author", self.author.as_str());
        push_optional_text(&mut members, "branch", &self.branch);
        assert(crate::json::member_views(members@) =~= commit_members(self@));
        members
    }
}

impl PullRequestArtifact {
    fn members(&self) -> (members: Vec<JsonMember>)
        ensures
            crate::json::member_views(members@) == pull_request_members(self@),
    {
        let mut members: Vec<JsonMember> = Vec::new();
        push_number(&mut members, "number", self.number);
        push_text(&mut members, "title", self.title.as_str());
        push_text(&mut members, "url", self.url.as_str());
        push_text(&mut members, "head_branch", self.head_branch.as_str());
        push_text(&mut members, "base_branch", self.base_branch.as_str());
        push_optional_text(&mut members, "state", &self.state);
        assert(crate::json::member_views(members@) =~= pull_request_members(self@));
        members
    }
}

fn text_values(strings: &Vec<String>) -> (values: Vec<JsonValue>)
    ensures
        crate::json::value_views(values@) == texts(strings.deep_view()),
{
    let mut values: Vec<JsonValue> = Vec::new();
    let mut i: usize = 0;
    let ghost all = texts(strings.deep_view());
    assert(crate::json::value_views(values@) =~= all.take(0));
    while i < strings.len()
        invariant
            i <= strings.len(),
            all == texts(strings.deep_view()),
            crate::json::value_views(values@) == all.take(i as int),
        decreases strings.len() - i,
    {
        push_value(&mut values, JsonValue::Text(strings[i].clone()));
        assert(all.take(i as int + 1) =~= all.take(i as int).push(all[i as int]));
        i = i + 1;
    }
    assert(all.take(strings.len() as int) =~= all);
    values
}

impl TestResultsArtifact {
    fn members(&self) -> (members: Vec<JsonMember>)
        ensures
            crate::json::member_views(members@) == test_results_members(self@),
    {
        let mut members: Vec<JsonMember> = Vec::new();
        push_number(&mut members, "total", self.total as u64);
        push_number(&mut members, "passed", self.passed as u64);
        push_number(&mut members, "failed", self.failed as u64);
        push_number(&mut members, "skipped", self.skipped as u64);
        if let Some(duration) = &self.duration_secs {
            push_member(&mut members, "duration_secs", JsonValue::Number(duration.clone()));
        }
        if self.failures.len() > 0 {
            push_member(&mut members, "failures", JsonValue::Array(text_values(&self.failures)));
        }
        assert(crate::json::member_views(members@) =~= test_results_members(self@));
        members
    }
}

impl LogArtifact {
    fn members(&self) -> (members: Vec<JsonMember>)
        ensures
            crate::json::member_views(members@) == log_members(self@),
    {
        let mut members: Vec<JsonMember> = Vec::new();
        push_text(&mut members, "level", self.level.as_str());
        push_text(&mut members, "content", self.content.as_str());
        if let Some(lines) = self.total_lines {
            push_number(&mut members, "total_lines", lines as u64);
        }
        assert(crate::json::member_views(members@) =~= log_members(self@));
        members
    }
}

impl Artifact {
    /// The artifact as a JSON value.
    pub fn to_json(&self) -> (json: JsonValue)
        ensures
            json@ == artifact_json(self@),
    {
        let data = match &self.data {
            ArtifactData::Commit(commit) => commit.members(),
            ArtifactData::PullRequest(pr) => pr.members(),
            ArtifactData::TestResults(results) => results.members(),
            ArtifactData::Log(log) => log.members(),
            ArtifactData::Generic(generic) => copy_members(&generic.data),
        };
        let mut members: Vec<JsonMember> = Vec::new();
        push_text(&mut members, "type", self.artifact_type.name());
        push_text(&mut members, "name", self.name.as_str());
        push_member(&mut members, "data", JsonValue::Object(data));
        push_optional_text(&mut members, "created_at", &self.created_at);
        let json = JsonValue::Object(members);
        assert(json@->Object_0 =~= artifact_json(self@)->Object_0);
        json
    }
}

/// Collector for artifacts during work execution.
#[derive(Debug)]
pub struct ArtifactCollector {
    artifacts: Vec<Artifact>,
}

impl View for ArtifactCollector {
    type V = Seq<ArtifactView>;

    closed spec fn view(&self) -> Seq<ArtifactView> {
        self.artifacts@.map_values(|artifact: Artifact| artifact@)
    }
}

impl Default for ArtifactCollector {
    /// A collector without artifacts.
    fn default() -> (collector: Self)
        ensures
            collector@ == Seq::<ArtifactView>::empty(),
            all_wf(collector@),
    {
        let collector = ArtifactCollector { artifacts: Vec::new() };
        assert(collector@ =~= Seq::<ArtifactView>::empty());
        collector
    }
}

impl ArtifactCollector {
    /// A collector without artifacts.
    pub fn new() -> (collector: Self)
        ensures
            collector@ == Seq::<ArtifactView>::empty(),
            all_wf(collector@),
    {
        ArtifactCollector::default()
    }

    /// Add an artifact behind those that were collected before.
    pub fn add_artifact(&mut self, artifact: Artifact)
        requires
            artifact@.wf(),
        ensures
            final(self)@ == old(self)@.push(artifact@),
            all_wf(old(self)@) ==> all_wf(final(self)@),
    {
        self.artifacts.push(artifact);
        assert(self@ =~= old(self)@.push(artifact@));
    }

    /// Add a commit artifact, created now.
    pub fn add_commit(&mut self, hash: &str, message: &str, author: &str, branch: Option<&str>)
        requires
            has_short_hash(hash@),
        ensures
            exists|now: Seq<char>| #[trigger]
                crate::outside::is_utc_timestamp(now) && final(self)@ == old(self)@.push(
                    commit_view(hash@, message@, author@, branch.deep_view(), now),
                ),
            all_wf(old(self)@) ==> all_wf(final(self)@),
    {
        let now = utc_timestamp();
        let ghost time = now@;
        self.add_artifact(commit_artifact(hash, message, author, branch, now));
        assert(crate::outside::is_utc_timestamp(time));
    }

    /// Add a pull request artifact, created now.
    pub fn add_pull_request(
        &mut self,
        number: u64,
        title: &str,
        url: &str,
        head_branch: &str,
        base_branch: &str,
    )
        ensures
            exists|now: Seq<char>| #[trigger]
                crate::outside::is_utc_timestamp(now) && final(self)@ == old(self)@.push(
                    pull_request_view(number, title@, url@, head_branch@, base_branch@, now),
                ),
            all_wf(old(self)@) ==> all_wf(final(self)@),
    {
        let now = utc_timestamp();
        let ghost time = now@;
        self.add_artifact(
            pull_request_artifact(number, title, url, head_branch, base_branch, now),
        );
        assert(crate::outside::is_utc_timestamp(time));
    }

    /// Add test results artifact, created now.
    pub fn add_test_results(
        &mut self,
        total: u32,
        passed: u32,
        failed: u32,
        skipped: u32,
        failures: Vec<String>,
    )
        ensures
            exists|now: Seq<char>| #[trigger]
                crate::outside::is_utc_timestamp(now) && final(self)@ == old(self)@.push(
                    test_results_view(total, passed, failed, skipped, failures.deep_view(), now),
                ),
            all_wf(old(self)@) ==> all_wf(final(self)@),
    {
        let now = utc_timestamp();
        let ghost time = now@;
        self.add_artifact(
            test_results_artifact(total, passed, failed, skipped, failures, now),
        );
        assert(crate::outside::is_utc_timestamp(time));
    }

    /// Add a log artifact, created now.
    pub fn add_log(&mut self, name: &str, level: &str, content: &str)
        requires
            can_log(content@),
        ensures
            exists|now: Seq<char>| #[trigger]
                crate::outside::is_utc_timestamp(now) && final(self)@ == old(self)@.push(
                    log_view(name@, level@, content@, now),
                ),
            all_wf(old(self)@) ==> all_wf(final(self)@),
    {
        let now = utc_timestamp();
        let ghost time = now@;
        self.add_artifact(log_artifact(name, level, content, now));
        assert(crate::outside::is_utc_timestamp(time));
    }

    /// Add a generic artifact with custom data, created now.
    pub fn add_custom(&mut self, name: &str, data: Vec<JsonMember>)
        requires
            crate::json::value_wf(
            crate::json::JsonView::Object(crate::json::member_views(data@)),
        ),
        ensures
            exists|now: Seq<char>| #[trigger]
                crate::outside::is_utc_timestamp(now) && final(self)@ == old(self)@.push(
                    custom_view(name@, crate::json::member_views(data@), now),
                ),
            all_wf(old(self)@) ==> all_wf(final(self)@),
    {
        let now = utc_timestamp();
        let ghost time = now@;
        self.add_artifact(custom_artifact(name, data, now));
        assert(crate::outside::is_utc_timestamp(time));
    }

    /// Serialize all artifacts to JSON bytes.
    pub fn to_json_bytes(&self) -> (bytes: Vec<u8>)
        ensures
            bytes@ == artifacts_bytes(self@),
    {
        let mut values: Vec<JsonValue> = Vec::new();
        let ghost all = self@.map_values(|artifact: ArtifactView| artifact_json(artifact));
        let mut i: usize = 0;
        assert(crate::json::value_views(values@) =~= all.take(0));
        while i < self.artifacts.len()
            invariant
                i <= self.artifacts.len(),
                all == self@.map_values(|artifact: ArtifactView| artifact_json(artifact)),
                crate::json::value_views(values@) == all.take(i as int),
            decreases self.artifacts.len() - i,
        {
            push_value(&mut values, self.artifacts[i].to_json());
            assert(all.take(i as int + 1) =~= all.take(i as int).push(all[i as int]));
            i = i + 1;
        }
        assert(all.take(self.artifacts.len() as int) =~= all);
        utf8_bytes(encode_value(&JsonValue::Array(values)).as_str())
    }

    /// Check if any artifacts have been collected.
    pub fn is_empty(&self) -> (empty: bool)
        ensures
            empty == (self@.len() == 0),
    {
        self.artifacts.len() == 0
    }

    /// Get the number of artifacts.
    pub fn len(&self) -> (count: usize)
        ensures
            count == self@.len(),
    {
        self.artifacts.len()
    }
}

/// What is kept of a log takes no more bytes than a log may, and is the front
/// of it; it is the whole log exactly where the log is not too long, and only
/// else is it told how many lines there were.
pub proof fn law_log_is_cut_to_its_front(
    name: Seq<char>,
    level: Seq<char>,
    content: Seq<char>,
    created_at: Seq<char>,
)
    requires
        can_log(content),
    ensures
        log_view(name, level, content, created_at).data matches ArtifactDataView::Log(log) && {
            &&& crate::text::byte_len(log.content) <= MAX_LOG_BYTES
            &&& log.content.is_prefix_of(content)
            &&& log.content == content <==> crate::text::byte_len(content) <= MAX_LOG_BYTES
            &&& log.total_lines is Some <==> log.content != content
        },
{
    let kept = kept_log(content);
    if is_long_log(content) {
        crate::text::lemma_byte_prefix(content, MAX_LOG_BYTES as int);
        assert(kept == content.take(kept.len() as int));
    }
    assert(content.subrange(0, kept.len() as int) =~= kept);
}

/// The short form of a hash is the front of it, in as many bytes as a short
/// form has, or all of it.
pub proof fn law_short_hash_is_the_front(hash: Seq<char>)
    requires
        has_short_hash(hash),
    ensures
        short_hash(hash).is_prefix_of(hash),
        crate::text::byte_len(short_hash(hash)) == if crate::text::byte_len(hash)
            < SHORT_HASH_BYTES {
            crate::text::byte_len(hash) as int
        } else {
            SHORT_HASH_BYTES as int
        },
{
    let short = short_hash(hash);
    if crate::text::byte_len(hash) > SHORT_HASH_BYTES {
        crate::text::lemma_byte_prefix(hash, SHORT_HASH_BYTES as int);
        assert(short == hash.take(short.len() as int));
    }
    assert(hash.subrange(0, short.len() as int) =~= short);
}

/// Nothing collected is an empty array.
pub proof fn law_nothing_collected_is_an_empty_array()
    ensures
        artifacts_bytes(Seq::empty()) == encode_utf8("[]"@),
{
    reveal_strlit("[]");
    let none = Seq::<ArtifactView>::empty();
    assert(artifacts_json(none)->Array_0 =~= Seq::empty());
    assert(crate::json::value_text(artifacts_json(none)) =~= "[]"@);
}

/// The name of a type in JSON tells which type it is.
pub proof fn law_json_types_are_distinct(one: ArtifactType, other: ArtifactType)
    ensures
        json_type(one) == json_type(other) <==> one == other,
{
    reveal_strlit("commit");
    reveal_strlit("pr");
    reveal_strlit("test_results");
    reveal_strlit("build");
    reveal_strlit("log");
    reveal_strlit("coverage");
    reveal_strlit("benchmark");
    reveal_strlit("diff");
    reveal_strlit("screenshot");
    reveal_strlit("custom");
    if one != other {
        let (a, b) = (json_type(one), json_type(other));
        assert(a.len() != b.len() || a[0] != b[0] || a[1] != b[1]);
    }
}

proof fn lemma_decimal_is_a_number(n: nat)
    ensures
        crate::json::is_number(crate::text::decimal(n)),
{
    crate::text::law_decimals_can_be_read_back(n, n);
    crate::text::law_decimals_have_no_leading_zero(n);
    crate::json::lemma_natural_is_a_number(crate::text::decimal(n));
}

proof fn lemma_data_keys(data: ArtifactDataView)
    requires
        !(data is Generic),
    ensures
        crate::json::distinct_keys(data_members(data)),
{
    let members = data_members(data);
    match data {
        ArtifactDataView::Commit(commit) => {
            reveal_strlit("hash");
            reveal_strlit("short_hash");
            reveal_strlit("message");
            reveal_strlit("author");
            reveal_strlit("branch");
            assert("author"@[0] != "branch"@[0]);
            assert(members[0].key == "hash"@ && members[1].key == "short_hash"@);
            assert(members[2].key == "message"@ && members[3].key == "author"@);
            assert(members.len() > 4 ==> members[4].key == "branch"@);
        },
        ArtifactDataView::PullRequest(pr) => {
            reveal_strlit("number");
            reveal_strlit("title");
            reveal_strlit("url");
            reveal_strlit("head_branch");
            reveal_strlit("base_branch");
            reveal_strlit("state");
            assert("title"@[0] != "state"@[0]);
            assert("head_branch"@[0] != "base_branch"@[0]);
            assert(members[0].key == "number"@ && members[1].key == "title"@);
            assert(members[2].key == "url"@ && members[3].key == "head_branch"@);
            assert(members[4].key == "base_branch"@);
            assert(members.len() > 5 ==> members[5].key == "state"@);
        },
        ArtifactDataView::TestResults(results) => {
            reveal_strlit("total");
            reveal_strlit("passed");
            reveal_strlit("failed");
            reveal_strlit("skipped");
            reveal_strlit("duration_secs");
            reveal_strlit("failures");
            assert("passed"@[0] != "failed"@[0]);
            assert(members[0].key == "total"@ && members[1].key == "passed"@);
            assert(members[2].key == "failed"@ && members[3].key == "skipped"@);
            assert(members.len() > 4 ==> members[4].key == "duration_secs"@ || members[4].key
                == "failures"@);
            assert(members.len() > 5 ==> members[4].key == "duration_secs"@ && members[5].key
                == "failures"@);
        },
        ArtifactDataView::Log(log) => {
            reveal_strlit("level");
            reveal_strlit("content");
            reveal_strlit("total_lines");
            assert(members[0].key == "level"@ && members[1].key == "content"@);
            assert(members.len() > 2 ==> members[2].key == "total_lines"@);
        },
        ArtifactDataView::Generic(_) => {},
    }
}

proof fn lemma_data_values(data: ArtifactDataView, i: int)
    requires
        data matches ArtifactDataView::TestResults(results) ==> (results.duration_secs
            matches Some(literal) ==> crate::json::is_number(literal)),
        data matches ArtifactDataView::Generic(members) ==> crate::json::members_wf(members),
        0 <= i < data_members(data).len(),
    ensures
        crate::json::value_wf(data_members(data)[i].value),
{
    match data {
        ArtifactDataView::Commit(commit) => {},
        ArtifactDataView::PullRequest(pr) => {
            lemma_decimal_is_a_number(pr.number as nat);
        },
        ArtifactDataView::TestResults(results) => {
            lemma_decimal_is_a_number(results.total as nat);
            lemma_decimal_is_a_number(results.passed as nat);
            lemma_decimal_is_a_number(results.failed as nat);
            lemma_decimal_is_a_number(results.skipped as nat);
            crate::json::lemma_values_wf(texts(results.failures));
        },
        ArtifactDataView::Log(log) => {
            if let Some(lines) = log.total_lines {
                lemma_decimal_is_a_number(lines as nat);
            }
        },
        ArtifactDataView::Generic(members) => {
            crate::json::lemma_member_texts(members);
        },
    }
}

/// The JSON value of a well-formed artifact is well-formed: its numbers are
/// numbers, and no key stands twice in one of its objects.
pub proof fn law_artifacts_are_well_formed_json(artifact: ArtifactView)
    requires
        artifact.wf(),
    ensures
        crate::json::value_wf(artifact_json(artifact)),
{
    let data = data_members(artifact.data);
    if !(artifact.data is Generic) {
        lemma_data_keys(artifact.data);
    }
    assert forall|i: int| 0 <= i < data.len() implies crate::json::value_wf(
        (#[trigger] data[i]).value,
    ) by {
        lemma_data_values(artifact.data, i);
    }
    crate::json::lemma_members_wf(data);
    let members = artifact_json(artifact)->Object_0;
    assert(crate::json::value_wf(members[2].value));
    crate::json::lemma_members_wf(members);
    reveal_strlit("type");
    reveal_strlit("name");
    reveal_strlit("data");
    reveal_strlit("created_at");
    assert("type"@[0] == 't' && "name"@[0] == 'n' && "data"@[0] == 'd');
    assert(crate::json::distinct_keys(members));
}

proof fn lemma_optional_is_readable(
    front: Seq<crate::json::MemberView>,
    other_front: Seq<crate::json::MemberView>,
    key: Seq<char>,
    one: Option<Seq<char>>,
    other: Option<Seq<char>>,
)
    requires
        front.len() == other_front.len(),
        front + optional_member(key, one) == other_front + optional_member(key, other),
    ensures
        front == other_front,
        one == other,
{
    let whole = front + optional_member(key, one);
    let other_whole = other_front + optional_member(key, other);
    assert(front =~= whole.take(front.len() as int));
    assert(other_front =~= other_whole.take(front.len() as int));
    assert(whole.len() == other_whole.len());
    if one is Some {
        assert(whole[front.len() as int] == text_member(key, one->0));
        assert(other_whole[front.len() as int] == text_member(key, other->0));
    }
}

proof fn lemma_number_member_is_readable(key: Seq<char>, one: nat, other: nat)
    requires
        number_member(key, one) == number_member(key, other),
    ensures
        one == other,
{
    crate::text::law_decimals_can_be_read_back(one, other);
}

proof fn lemma_commit_is_readable(one: CommitView, other: CommitView)
    requires
        commit_members(one) == commit_members(other),
    ensures
        one == other,
{
    let (a, b) = (commit_members(one), commit_members(other));
    let front = a.take(4);
    let other_front = b.take(4);
    assert(a =~= front + optional_member("branch"@, one.branch));
    assert(b =~= other_front + optional_member("branch"@, other.branch));
    lemma_optional_is_readable(front, other_front, "branch"@, one.branch, other.branch);
    assert(a[0] == text_member("hash"@, one.hash) && b[0] == text_member("hash"@, other.hash));
    assert(a[1] == text_member("short_hash"@, one.short_hash));
    assert(b[1] == text_member("short_hash"@, other.short_hash));
    assert(a[2] == text_member("message"@, one.message));
    assert(b[2] == text_member("message"@, other.message));
    assert(a[3] == text_member("author"@, one.author));
    assert(b[3] == text_member("author"@, other.author));
}

proof fn lemma_pull_request_is_readable(one: PullRequestView, other: PullRequestView)
    requires
        pull_request_members(one) == pull_request_members(other),
    ensures
        one == other,
{
    let (a, b) = (pull_request_members(one), pull_request_members(other));
    let front = a.take(5);
    let other_front = b.take(5);
    assert(a =~= front + optional_member("state"@, one.state));
    assert(b =~= other_front + optional_member("state"@, other.state));
    lemma_optional_is_readable(front, other_front, "state"@, one.state, other.state);
    assert(a[0] == number_member("number"@, one.number as nat));
    assert(b[0] == number_member("number"@, other.number as nat));
    lemma_number_member_is_readable("number"@, one.number as nat, other.number as nat);
    assert(a[1] == text_member("title"@, one.title));
    assert(b[1] == text_member("title"@, other.title));
    assert(a[2] == text_member("url"@, one.url));
    assert(b[2] == text_member("url"@, other.url));
    assert(a[3] == text_member("head_branch"@, one.head_branch));
    assert(b[3] == text_member("head_branch"@, other.head_branch));
    assert(a[4] == text_member("base_branch"@, one.base_branch));
    assert(b[4] == text_member("base_branch"@, other.base_branch));
}

proof fn lemma_test_results_are_readable(one: TestResultsView, other: TestResultsView)
    requires
        test_results_members(one) == test_results_members(other),
    ensures
        one == other,
{
    let (a, b) = (test_results_members(one), test_results_members(other));
    assert(a[0] == number_member("total"@, one.total as nat));
    assert(b[0] == number_member("total"@, other.total as nat));
    lemma_number_member_is_readable("total"@, one.total as nat, other.total as nat);
    assert(a[1] == number_member("passed"@, one.passed as nat));
    assert(b[1] == number_member("passed"@, other.passed as nat));
    lemma_number_member_is_readable("passed"@, one.passed as nat, other.passed as nat);
    assert(a[2] == number_member("failed"@, one.failed as nat));
    assert(b[2] == number_member("failed"@, other.failed as nat));
    lemma_number_member_is_readable("failed"@, one.failed as nat, other.failed as nat);
    assert(a[3] == number_member("skipped"@, one.skipped as nat));
    assert(b[3] == number_member("skipped"@, other.skipped as nat));
    lemma_number_member_is_readable("skipped"@, one.skipped as nat, other.skipped as nat);
    reveal_strlit("duration_secs");
    reveal_strlit("failures");
    assert("duration_secs"@.len() != "failures"@.len());
    assert(a.len() == b.len());
    if one.duration_secs is Some {
        assert(a[4] == duration_member(one.duration_secs)[0]);
        if other.duration_secs is Some {
            assert(b[4] == duration_member(other.duration_secs)[0]);
        } else {
            assert(b[4] == failures_member(other.failures)[0]);
        }
    } else if other.duration_secs is Some {
        assert(b[4] == duration_member(other.duration_secs)[0]);
        assert(a[4] == failures_member(one.failures)[0]);
    }
    assert(one.duration_secs == other.duration_secs);
    let at: int = 4 + duration_member(one.duration_secs).len() as int;
    if one.failures.len() > 0 || other.failures.len() > 0 {
        assert(a[at] == failures_member(one.failures)[0]);
        assert(b[at] == failures_member(other.failures)[0]);
        let (c, d) = (texts(one.failures), texts(other.failures));
        assert(c == d);
        assert forall|i: int| 0 <= i < c.len() implies one.failures[i] == other.failures[i] by {
            assert(c[i] == d[i]);
        }
    }
    assert(one.failures =~= other.failures);
}

proof fn lemma_log_is_readable(one: LogView, other: LogView)
    requires
        log_members(one) == log_members(other),
    ensures
        one == other,
{
    let (a, b) = (log_members(one), log_members(other));
    assert(a[0] == text_member("level"@, one.level));
    assert(b[0] == text_member("level"@, other.level));
    assert(a[1] == text_member("content"@, one.content));
    assert(b[1] == text_member("content"@, other.content));
    assert(a.len() == b.len());
    if let Some(lines) = one.total_lines {
        assert(a[2] == number_member("total_lines"@, lines as nat));
        assert(b[2] == number_member("total_lines"@, other.total_lines->0 as nat));
        lemma_number_member_is_readable(
            "total_lines"@,
            lines as nat,
            other.total_lines->0 as nat,
        );
    }
}

proof fn lemma_artifact_is_readable(one: ArtifactView, other: ArtifactView)
    requires
        one.wf(),
        other.wf(),
        artifact_json(one) == artifact_json(other),
    ensures
        one == other,
{
    let (a, b) = (artifact_json(one)->Object_0, artifact_json(other)->Object_0);
    let front = a.take(3);
    let other_front = b.take(3);
    assert(a =~= front + optional_member("created_at"@, one.created_at));
    assert(b =~= other_front + optional_member("created_at"@, other.created_at));
    lemma_optional_is_readable(
        front,
        other_front,
        "created_at"@,
        one.created_at,
        other.created_at,
    );
    assert(a[0] == text_member("type"@, json_type(one.artifact_type)));
    assert(b[0] == text_member("type"@, json_type(other.artifact_type)));
    law_json_types_are_distinct(one.artifact_type, other.artifact_type);
    assert(a[1] == text_member("name"@, one.name));
    assert(b[1] == text_member("name"@, other.name));
    assert(a[2].value == crate::json::JsonView::Object(data_members(one.data)));
    assert(b[2].value == crate::json::JsonView::Object(data_members(other.data)));
    match (one.data, other.data) {
        (ArtifactDataView::Commit(c), ArtifactDataView::Commit(d)) => {
            lemma_commit_is_readable(c, d);
        },
        (ArtifactDataView::PullRequest(c), ArtifactDataView::PullRequest(d)) => {
            lemma_pull_request_is_readable(c, d);
        },
        (ArtifactDataView::TestResults(c), ArtifactDataView::TestResults(d)) => {
            lemma_test_results_are_readable(c, d);
        },
        (ArtifactDataView::Log(c), ArtifactDataView::Log(d)) => {
            lemma_log_is_readable(c, d);
        },
        _ => {},
    }
}

/// Collected artifacts can be told from the bytes in which they are handed on:
/// each of them, with its type and all its data, and their order.
pub proof fn law_artifacts_can_be_read_back(one: Seq<ArtifactView>, other: Seq<ArtifactView>)
    requires
        all_wf(one),
        all_wf(other),
    ensures
        artifacts_bytes(one) == artifacts_bytes(other) <==> one == other,
{
    if artifacts_bytes(one) == artifacts_bytes(other) {
        let (a, b) = (artifacts_json(one), artifacts_json(other));
        encode_utf8_decode_utf8(crate::json::value_text(a));
        encode_utf8_decode_utf8(crate::json::value_text(b));
        let (items, other_items) = (a->Array_0, b->Array_0);
        assert forall|i: int| 0 <= i < items.len() implies crate::json::value_wf(
            #[trigger] items[i],
        ) by {
            assert(one[i].wf());
            law_artifacts_are_well_formed_json(one[i]);
        }
        assert forall|i: int| 0 <= i < other_items.len() implies crate::json::value_wf(
            #[trigger] other_items[i],
        ) by {
            assert(other[i].wf());
            law_artifacts_are_well_formed_json(other[i]);
        }
        crate::json::lemma_values_wf(items);
        crate::json::lemma_values_wf(other_items);
        crate::json::law_values_can_be_read_back(a, b);
        assert(one.len() == items.len() && other.len() == other_items.len());
        assert forall|i: int| 0 <= i < one.len() implies one[i] == other[i] by {
            assert(items[i] == other_items[i]);
            assert(one[i].wf() && other[i].wf());
            lemma_artifact_is_readable(one[i], other[i]);
        }
        assert(one =~= other);
    }
}

/// A commit artifact holds what it was made of, in its data and nowhere else
/// but for the short hash, which stands in its name too.
pub proof fn law_commit_artifact_holds_its_parts(
    hash: Seq<char>,
    message: Seq<char>,
    author: Seq<char>,
    branch: Option<Seq<char>>,
    created_at: Seq<char>,
)
    ensures
        ({
            let artifact = commit_view(hash, message, author, branch, created_at);
            &&& artifact.artifact_type == ArtifactType::Commit
            &&& artifact.name == "Commit "@ + short_hash(hash)
            &&& artifact.created_at == Some(created_at)
            &&& artifact.data matches ArtifactDataView::Commit(commit) && {
                &&& commit.hash == hash
                &&& commit.short_hash == short_hash(hash)
                &&& commit.message == message
                &&& commit.author == author
                &&& commit.branch == branch
            }
        }),
{
}

/// A pull request artifact holds what it was made of, is named by its number,
/// and is open.
pub proof fn law_pull_request_artifact_holds_its_parts(
    number: u64,
    title: Seq<char>,
    url: Seq<char>,
    head_branch: Seq<char>,
    base_branch: Seq<char>,
    created_at: Seq<char>,
)
    ensures
        ({
            let artifact = pull_request_view(
                number,
                title,
                url,
                head_branch,
                base_branch,
                created_at,
            );
            &&& artifact.artifact_type == ArtifactType::PullRequest
            &&& artifact.name == "PR #"@ + crate::text::decimal(number as nat)
            &&& artifact.created_at == Some(created_at)
            &&& artifact.data matches ArtifactDataView::PullRequest(pr) && {
                &&& pr.number == number
                &&& pr.title == title
                &&& pr.url == url
                &&& pr.head_branch == head_branch
                &&& pr.base_branch == base_branch
                &&& pr.state == Some("open"@)
            }
        }),
{
}

/// A test results artifact holds the numbers that it was made of, each as it
/// is, and is named by how many tests passed of how many.
pub proof fn law_test_results_artifact_holds_its_parts(
    total: u32,
    passed: u32,
    failed: u32,
    skipped: u32,
    failures: Seq<Seq<char>>,
    created_at: Seq<char>,
)
    ensures
        ({
            let artifact = test_results_view(total, passed, failed, skipped, failures, created_at);
            &&& artifact.artifact_type == ArtifactType::TestResults
            &&& artifact.name == "Test Results ("@ + crate::text::decimal(passed as nat) + "/"@
                + crate::text::decimal(total as nat) + " passed)"@
            &&& artifact.created_at == Some(created_at)
            &&& artifact.data matches ArtifactDataView::TestResults(results) && {
                &&& results.total == total
                &&& results.passed == passed
                &&& results.failed == failed
                &&& results.skipped == skipped
                &&& results.failures == failures
                &&& results.duration_secs is None
            }
        }),
{
}

/// A log artifact holds its name and its level, all of a log of up to ten
/// thousand bytes, and the first ten thousand bytes of a longer one, of which
/// it tells how many lines it had. A log can be kept unless it is longer and
/// the cut falls within a character.
pub proof fn law_log_artifact_holds_its_parts(
    name: Seq<char>,
    level: Seq<char>,
    content: Seq<char>,
    created_at: Seq<char>,
)
    ensures
        can_log(content) <==> encode_utf8(content).len() <= 10_000 || is_char_boundary(
            encode_utf8(content),
            10_000,
        ),
        can_log(content) ==> {
            let artifact = log_view(name, level, content, created_at);
            &&& artifact.artifact_type == ArtifactType::Log
            &&& artifact.name == name
            &&& artifact.created_at == Some(created_at)
            &&& artifact.data matches ArtifactDataView::Log(log) && {
                &&& log.level == level
                &&& encode_utf8(content).len() <= 10_000 ==> log.content == content
                    && log.total_lines is None
                &&& encode_utf8(content).len() > 10_000 ==> encode_utf8(log.content) == encode_utf8(
                    content,
                ).subrange(0, 10_000) && log.total_lines == Some(
                    (crate::text::line_count(content) % 0x1_0000_0000) as u32,
                )
            }
        },
{
    crate::text::law_cut_takes_the_first_bytes(content, 10_000);
}

/// The short form of a hash is its first seven bytes, or all of it; there is
/// one unless that cut falls within a character.
pub proof fn law_short_hash_has_seven_bytes(hash: Seq<char>)
    ensures
        has_short_hash(hash) <==> encode_utf8(hash).len() <= 7 || is_char_boundary(
            encode_utf8(hash),
            7,
        ),
        encode_utf8(hash).len() <= 7 ==> short_hash(hash) == hash,
        has_short_hash(hash) && encode_utf8(hash).len() > 7 ==> encode_utf8(short_hash(hash))
            == encode_utf8(hash).subrange(0, 7),
{
    crate::text::law_cut_takes_the_first_bytes(hash, 7);
}

/// A custom artifact holds its data as it is.
pub proof fn law_custom_artifact_holds_its_data(
    name: Seq<char>,
    data: Seq<crate::json::MemberView>,
    created_at: Seq<char>,
)
    ensures
        custom_view(name, data, created_at).artifact_type == ArtifactType::Custom,
        custom_view(name, data, created_at).name == name,
        custom_view(name, data, created_at).created_at == Some(created_at),
        custom_view(name, data, created_at).data == ArtifactDataView::Generic(data),
{
}

/// Whether `members` has, at `i`, the member with a key and a value.
pub open spec fn has_at(
    members: Seq<crate::json::MemberView>,
    i: int,
    key: Seq<char>,
    value: crate::json::JsonView,
) -> bool {
    &&& 0 <= i < members.len()
    &&& members[i].key == key
    &&& members[i].value == value
}

/// In JSON an artifact is an object of its type, its name, its data and, where
/// it is known, the time of its creation, in this order and with nothing else.
pub proof fn law_artifact_in_json(artifact: ArtifactView)
    ensures
        artifact_json(artifact) matches crate::json::JsonView::Object(members) && {
            &&& members.len() == if artifact.created_at is Some {
                4int
            } else {
                3
            }
            &&& has_at(
                members,
                0,
                "type"@,
                crate::json::JsonView::Text(json_type(artifact.artifact_type)),
            )
            &&& has_at(members, 1, "name"@, crate::json::JsonView::Text(artifact.name))
            &&& has_at(
                members,
                2,
                "data"@,
                crate::json::JsonView::Object(data_members(artifact.data)),
            )
            &&& artifact.created_at matches Some(time) ==> has_at(
                members,
                3,
                "created_at"@,
                crate::json::JsonView::Text(time),
            )
        },
{
}

/// In JSON a commit is its hash, its short hash, its message, its author and,
/// where it is known, its branch, in this order and with nothing else.
pub proof fn law_commit_in_json(commit: CommitView)
    ensures
        ({
            let members = data_members(ArtifactDataView::Commit(commit));
            &&& members.len() == if commit.branch is Some {
                5int
            } else {
                4
            }
            &&& has_at(members, 0, "hash"@, crate::json::JsonView::Text(commit.hash))
            &&& has_at(members, 1, "short_hash"@, crate::json::JsonView::Text(commit.short_hash))
            &&& has_at(members, 2, "message"@, crate::json::JsonView::Text(commit.message))
            &&& has_at(members, 3, "author"@, crate::json::JsonView::Text(commit.author))
            &&& commit.branch matches Some(branch) ==> has_at(
                members,
                4,
                "branch"@,
                crate::json::JsonView::Text(branch),
            )
        }),
{
}

/// In JSON a pull request is its number, its title, its address, its two
/// branches and, where it is known, its state, in this order and with nothing
/// else.
pub proof fn law_pull_request_in_json(pr: PullRequestView)
    ensures
        ({
            let members = data_members(ArtifactDataView::PullRequest(pr));
            &&& members.len() == if pr.state is Some {
                6int
            } else {
                5
            }
            &&& has_at(
                members,
                0,
                "number"@,
                crate::json::JsonView::Number(crate::text::decimal(pr.number as nat)),
            )
            &&& has_at(members, 1, "title"@, crate::json::JsonView::Text(pr.title))
            &&& has_at(members, 2, "url"@, crate::json::JsonView::Text(pr.url))
            &&& has_at(members, 3, "head_branch"@, crate::json::JsonView::Text(pr.head_branch))
            &&& has_at(members, 4, "base_branch"@, crate::json::JsonView::Text(pr.base_branch))
            &&& pr.state matches Some(state) ==> has_at(
                members,
                5,
                "state"@,
                crate::json::JsonView::Text(state),
            )
        }),
{
}

/// In JSON test results are their four numbers, the duration where it is known
/// and the names of the failures where there are any, in this order and with
/// nothing else.
pub proof fn law_test_results_in_json(results: TestResultsView)
    ensures
        ({
            let members = data_members(ArtifactDataView::TestResults(results));
            let timed = if results.duration_secs is Some {
                1int
            } else {
                0
            };
            &&& members.len() == 4 + timed + if results.failures.len() > 0 {
                1int
            } else {
                0
            }
            &&& has_at(
                members,
                0,
                "total"@,
                crate::json::JsonView::Number(crate::text::decimal(results.total as nat)),
            )
            &&& has_at(
                members,
                1,
                "passed"@,
                crate::json::JsonView::Number(crate::text::decimal(results.passed as nat)),
            )
            &&& has_at(
                members,
                2,
                "failed"@,
                crate::json::JsonView::Number(crate::text::decimal(results.failed as nat)),
            )
            &&& has_at(
                members,
                3,
                "skipped"@,
                crate::json::JsonView::Number(crate::text::decimal(results.skipped as nat)),
            )
            &&& results.duration_secs matches Some(literal) ==> has_at(
                members,
                4,
                "duration_secs"@,
                crate::json::JsonView::Number(literal),
            )
            &&& results.failures.len() > 0 ==> members[4 + timed].key == "failures"@ && (
            members[4 + timed].value matches crate::json::JsonView::Array(names) && names.len()
                == results.failures.len() && forall|i: int|
                0 <= i < names.len() ==> #[trigger] names[i] == crate::json::JsonView::Text(
                    results.failures[i],
                ))
        }),
{
}

/// In JSON a log is its level, its content and, where it was cut, how many
/// lines it had, in this order and with nothing else; and custom data is its
/// members as they are.
pub proof fn law_log_and_custom_data_in_json(
    log: LogView,
    custom: Seq<crate::json::MemberView>,
)
    ensures
        ({
            let members = data_members(ArtifactDataView::Log(log));
            &&& members.len() == if log.total_lines is Some {
                3int
            } else {
                2
            }
            &&& has_at(members, 0, "level"@, crate::json::JsonView::Text(log.level))
            &&& has_at(members, 1, "content"@, crate::json::JsonView::Text(log.content))
            &&& log.total_lines matches Some(lines) ==> has_at(
                members,
                2,
                "total_lines"@,
                crate::json::JsonView::Number(crate::text::decimal(lines as nat)),
            )
        }),
        data_members(ArtifactDataView::Generic(custom)) == custom,
{
}

/// Collected artifacts are handed on as the UTF-8 form of the array of all of
/// them, in the order in which they were collected.
pub proof fn law_artifacts_are_handed_on_in_order(artifacts: Seq<ArtifactView>)
    ensures
        artifacts_json(artifacts) matches crate::json::JsonView::Array(items) && items.len()
            == artifacts.len() && forall|i: int|
            0 <= i < items.len() ==> #[trigger] items[i] == artifact_json(artifacts[i]),
        artifacts_bytes(artifacts) == encode_utf8(
            crate::json::value_text(artifacts_json(artifacts)),
        ),
{
}

/// Artifacts are seen with all that they hold.
pub proof fn law_artifacts_are_seen_as_they_are(
    artifact: Artifact,
    commit: CommitArtifact,
    pr: PullRequestArtifact,
    results: TestResultsArtifact,
    log: LogArtifact,
    generic: GenericArtifact,
)
    ensures
        artifact@.artifact_type == artifact.artifact_type,
        artifact@.name == artifact.name@,
        artifact@.data == artifact.data@,
        artifact@.created_at == artifact.created_at.deep_view(),
        ArtifactData::Commit(commit)@ == ArtifactDataView::Commit(commit@),
        ArtifactData::PullRequest(pr)@ == ArtifactDataView::PullRequest(pr@),
        ArtifactData::TestResults(results)@ == ArtifactDataView::TestResults(results@),
        ArtifactData::Log(log)@ == ArtifactDataView::Log(log@),
        ArtifactData::Generic(generic)@ == ArtifactDataView::Generic(
            crate::json::member_views(generic.data@),
        ),
        commit@.hash == commit.hash@,
        commit@.short_hash == commit.short_hash@,
        commit@.message == commit.message@,
        commit@.author == commit.author@,
        commit@.branch == commit.branch.deep_view(),
        pr@.number == pr.number,
        pr@.title == pr.title@,
        pr@.url == pr.url@,
        pr@.head_branch == pr.head_branch@,
        pr@.base_branch == pr.base_branch@,
        pr@.state == pr.state.deep_view(),
        results@.total == results.total,
        results@.passed == results.passed,
        results@.failed == results.failed,
        results@.skipped == results.skipped,
        results@.duration_secs == results.duration_secs.deep_view(),
        results@.failures == results.failures.deep_view(),
        log@.level == log.level@,
        log@.content == log.content@,
        log@.total_lines == log.total_lines,
{
}

/// Each artifact that can be made is well-formed; custom data makes one exactly
/// where it is a well-formed object.
pub proof fn law_artifacts_are_made_well_formed(
    number: u64,
    total: u32,
    passed: u32,
    failed: u32,
    skipped: u32,
    a: Seq<char>,
    b: Seq<char>,
    c: Seq<char>,
    d: Seq<char>,
    branch: Option<Seq<char>>,
    failures: Seq<Seq<char>>,
    data: Seq<crate::json::MemberView>,
    created_at: Seq<char>,
)
    ensures
        commit_view(a, b, c, branch, created_at).wf(),
        pull_request_view(number, a, b, c, d, created_at).wf(),
        test_results_view(total, passed, failed, skipped, failures, created_at).wf(),
        log_view(a, b, c, created_at).wf(),
        custom_view(a, data, created_at).wf() <==> crate::json::value_wf(
            crate::json::JsonView::Object(data),
        ),
{
}

} // verus!
