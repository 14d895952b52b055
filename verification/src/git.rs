//! The last commit of a working directory: which `git` commands are run to
//! learn of it, one after the other, and what is read from their output.

use crate::outside::text_from_bytes;
use crate::text::{same_text, trim};
use vstd::prelude::*;
use vstd::string::*;

verus! {

/// Information about a git commit.
#[derive(Debug)]
pub struct CommitInfo {
    pub hash: String,
    pub message: String,
    pub author: String,
    pub branch: Option<String>,
}

/// The contents of a [`CommitInfo`].
pub struct CommitInfoView {
    pub hash: Seq<char>,
    pub message: Seq<char>,
    pub author: Seq<char>,
    pub branch: Option<Seq<char>>,
}

impl View for CommitInfo {
    type V = CommitInfoView;

    open spec fn view(&self) -> CommitInfoView {
        CommitInfoView {
            hash: self.hash@,
            message: self.message@,
            author: self.author@,
            branch: self.branch.deep_view(),
        }
    }
}

/// What is asked of `git`.
#[derive(Debug, Clone, Copy, PartialEq, Eq, Structural)]
pub enum GitQuery {
    /// The hash of the last commit.
    Hash,
    /// The subject line of its message.
    Message,
    /// The mail address of its author.
    Author,
    /// The branch that is checked out.
    Branch,
}

/// The arguments with which `git` is asked.
pub open spec fn query_arguments(query: GitQuery) -> Seq<Seq<char>> {
    match query {
        GitQuery::Hash => seq!["rev-parse"@, "HEAD"@],
        GitQuery::Message => seq!["log"@, "-1"@, "--format=%s"@],
        GitQuery::Author => seq!["log"@, "-1"@, "--format=%ae"@],
        GitQuery::Branch => seq!["rev-parse"@, "--abbrev-ref"@, "HEAD"@],
    }
}

impl GitQuery {
    /// The arguments with which `git` is asked.
    pub fn arguments(&self) -> (arguments: Vec<String>)
        ensures
            arguments.deep_view() == query_arguments(*self),
    {
        let mut arguments: Vec<String> = Vec::new();
        match self {
            GitQuery::Hash => {
                arguments.push("rev-parse".to_string());
                arguments.push("HEAD".to_string());
            },
            GitQuery::Message => {
                arguments.push("log".to_string());
                arguments.push("-1".to_string());
                arguments.push("--format=%s".to_string());
            },
            GitQuery::Author => {
                arguments.push("log".to_string());
                arguments.push("-1".to_string());
                arguments.push("--format=%ae".to_string());
            },
            GitQuery::Branch => {
                arguments.push("rev-parse".to_string());
                arguments.push("--abbrev-ref".to_string());
                arguments.push("HEAD".to_string());
            },
        }
        assert(arguments.deep_view() =~= query_arguments(*self));
        arguments
    }
}

/// How a `git` command went.
#[derive(Debug)]
pub enum GitOutcome {
    /// It could not be run.
    NotRun,
    /// It ran, with success or not, and put out some bytes.
    Ran { success: bool, stdout: Vec<u8> },
}

/// How a `git` command went, with its output as text.
#[derive(Debug)]
pub enum GitReply {
    /// It could not be run.
    NotRun,
    /// It ran, with success or not, and put out some text.
    Ran { success: bool, text: String },
}

/// The contents of a [`GitReply`].
pub enum GitReplyView {
    NotRun,
    Ran { success: bool, text: Seq<char> },
}

impl View for GitReply {
    type V = GitReplyView;

    open spec fn view(&self) -> GitReplyView {
        match self {
            GitReply::NotRun => GitReplyView::NotRun,
            GitReply::Ran { success, text } => GitReplyView::Ran { success: *success, text: text@ },
        }
    }
}

/// The output of a command as text.
pub fn read_outcome(outcome: GitOutcome) -> (reply: GitReply)
    ensures
        reply@ == (match outcome {
            GitOutcome::NotRun => GitReplyView::NotRun,
            GitOutcome::Ran { success, stdout } => GitReplyView::Ran {
                success,
                text: crate::outside::lossy_text(stdout@),
            },
        }),
        outcome matches GitOutcome::Ran { success, stdout } ==> vstd::utf8::valid_utf8(stdout@)
            ==> reply@ == (GitReplyView::Ran { success, text: vstd::utf8::decode_utf8(stdout@) }),
{
    match outcome {
        GitOutcome::NotRun => GitReply::NotRun,
        GitOutcome::Ran { success, stdout } => GitReply::Ran {
            success,
            text: text_from_bytes(stdout.as_slice()),
        },
    }
}

/// Why there is no last commit to tell of.
#[derive(Debug, Clone, Copy, PartialEq, Eq, Structural)]
pub enum CommitError {
    /// `git` could not be run for the hash.
    HashNotRun,
    /// `git` found no hash.
    HashFailed,
    /// `git` could not be run for the message.
    MessageNotRun,
    /// `git` could not be run for the author.
    AuthorNotRun,
}

/// What an error is reported as.
pub open spec fn commit_error_text(error: CommitError) -> Seq<char> {
    match error {
        CommitError::HashNotRun => "Failed to run git rev-parse"@,
        CommitError::HashFailed => "git rev-parse failed"@,
        CommitError::MessageNotRun => "Failed to run git log"@,
        CommitError::AuthorNotRun => "Failed to run git log for author"@,
    }
}

impl CommitError {
    /// What the error is reported as.
    pub fn message(&self) -> (text: &'static str)
        ensures
            text@ == commit_error_text(*self),
    {
        match self {
            CommitError::HashNotRun => "Failed to run git rev-parse",
            CommitError::HashFailed => "git rev-parse failed",
            CommitError::MessageNotRun => "Failed to run git log",
            CommitError::AuthorNotRun => "Failed to run git log for author",
        }
    }
}

/// The branch that `text` names: none where no branch is checked out.
pub open spec fn branch_in(text: Seq<char>) -> Option<Seq<char>> {
    let name = crate::text::trimmed(text);
    if name == "HEAD"@ || name.len() == 0 {
        None
    } else {
        Some(name)
    }
}

/// The branch that `text` names, if any.
pub fn branch_name(text: &str) -> (branch: Option<String>)
    ensures
        branch.deep_view() == branch_in(text@),
{
    let name = trim(text);
    if same_text(name.as_str(), "HEAD") || name.as_str().unicode_len() == 0 {
        None
    } else {
        Some(name)
    }
}

/// How far the search for the last commit is: what was learnt so far, and what
/// is asked next.
#[derive(Debug)]
pub enum CommitLookup {
    Hash,
    Message { hash: String },
    Author { hash: String, message: String },
    Branch { hash: String, message: String, author: String },
    Found(CommitInfo),
    Failed(CommitError),
}

/// The contents of a [`CommitLookup`].
pub enum CommitLookupView {
    Hash,
    Message { hash: Seq<char> },
    Author { hash: Seq<char>, message: Seq<char> },
    Branch { hash: Seq<char>, message: Seq<char>, author: Seq<char> },
    Found(CommitInfoView),
    Failed(CommitError),
}

impl View for CommitLookup {
    type V = CommitLookupView;

    open spec fn view(&self) -> CommitLookupView {
        match self {
            CommitLookup::Hash => CommitLookupView::Hash,
            CommitLookup::Message { hash } => CommitLookupView::Message { hash: hash@ },
            CommitLookup::Author { hash, message } => CommitLookupView::Author {
                hash: hash@,
                message: message@,
            },
            CommitLookup::Branch { hash, message, author } => CommitLookupView::Branch {
                hash: hash@,
                message: message@,
                author: author@,
            },
            CommitLookup::Found(info) => CommitLookupView::Found(info@),
            CommitLookup::Failed(error) => CommitLookupView::Failed(*error),
        }
    }
}

impl CommitLookupView {
    /// What is asked next; nothing once the search is over.
    pub open spec fn query(self) -> Option<GitQuery> {
        match self {
            CommitLookupView::Hash => Some(GitQuery::Hash),
            CommitLookupView::Message { .. } => Some(GitQuery::Message),
            CommitLookupView::Author { .. } => Some(GitQuery::Author),
            CommitLookupView::Branch { .. } => Some(GitQuery::Branch),
            CommitLookupView::Found(_) => None,
            CommitLookupView::Failed(_) => None,
        }
    }

    /// The search after the reply to what was asked. Only the hash has to be
    /// answered with success; the branch need not be answered at all.
    pub open spec fn after(self, reply: GitReplyView) -> CommitLookupView {
        match (self, reply) {
            (CommitLookupView::Hash, GitReplyView::NotRun) => CommitLookupView::Failed(
                CommitError::HashNotRun,
            ),
            (CommitLookupView::Hash, GitReplyView::Ran { success, text }) => if success {
                CommitLookupView::Message { hash: crate::text::trimmed(text) }
            } else {
                CommitLookupView::Failed(CommitError::HashFailed)
            },
            (CommitLookupView::Message { hash }, GitReplyView::NotRun) => CommitLookupView::Failed(
                CommitError::MessageNotRun,
            ),
            (CommitLookupView::Message { hash }, GitReplyView::Ran { text, .. }) =>
                CommitLookupView::Author { hash, message: crate::text::trimmed(text) },
            (CommitLookupView::Author { hash, message }, GitReplyView::NotRun) =>
                CommitLookupView::Failed(CommitError::AuthorNotRun),
            (CommitLookupView::Author { hash, message }, GitReplyView::Ran { text, .. }) =>
                CommitLookupView::Branch { hash, message, author: crate::text::trimmed(text) },
            (CommitLookupView::Branch { hash, message, author }, reply) =>
                CommitLookupView::Found(
                    CommitInfoView {
                        hash,
                        message,
                        author,
                        branch: match reply {
                            GitReplyView::NotRun => None,
                            GitReplyView::Ran { text, .. } => branch_in(text),
                        },
                    },
                ),
            (over, _) => over,
        }
    }
}

impl CommitLookup {
    /// A search that has not asked anything yet.
    pub fn new() -> (lookup: Self)
        ensures
            lookup@ == CommitLookupView::Hash,
    {
        CommitLookup::Hash
    }

    /// What is asked next; nothing once the search is over.
    pub fn query(&self) -> (query: Option<GitQuery>)
        ensures
            query == self@.query(),
    {
        match self {
            CommitLookup::Hash => Some(GitQuery::Hash),
            CommitLookup::Message { .. } => Some(GitQuery::Message),
            CommitLookup::Author { .. } => Some(GitQuery::Author),
            CommitLookup::Branch { .. } => Some(GitQuery::Branch),
            CommitLookup::Found(_) => None,
            CommitLookup::Failed(_) => None,
        }
    }

    /// Go on after the reply to what was asked.
    pub fn step(self, reply: GitReply) -> (lookup: Self)
        ensures
            lookup@ == self@.after(reply@),
    {
        match (self, reply) {
            (CommitLookup::Hash, GitReply::NotRun) => CommitLookup::Failed(
                CommitError::HashNotRun,
            ),
            (CommitLookup::Hash, GitReply::Ran { success, text }) => if success {
                CommitLookup::Message { hash: trim(text.as_str()) }
            } else {
                CommitLookup::Failed(CommitError::HashFailed)
            },
            (CommitLookup::Message { hash }, GitReply::NotRun) => CommitLookup::Failed(
                CommitError::MessageNotRun,
            ),
            (CommitLookup::Message { hash }, GitReply::Ran { text, .. }) => CommitLookup::Author {
                hash,
                message: trim(text.as_str()),
            },
            (CommitLookup::Author { hash, message }, GitReply::NotRun) => CommitLookup::Failed(
                CommitError::AuthorNotRun,
            ),
            (CommitLookup::Author { hash, message }, GitReply::Ran { text, .. }) =>
                CommitLookup::Branch { hash, message, author: trim(text.as_str()) },
            (CommitLookup::Branch { hash, message, author }, reply) => CommitLookup::Found(
                CommitInfo {
                    hash,
                    message,
                    author,
                    branch: match reply {
                        GitReply::NotRun => None,
                        GitReply::Ran { text, .. } => branch_name(text.as_str()),
                    },
                },
            ),
            (over, _) => over,
        }
    }
}

/// What the four replies tell of the last commit.
pub open spec fn last_commit(
    hash: GitReplyView,
    message: GitReplyView,
    author: GitReplyView,
    branch: GitReplyView,
) -> Result<CommitInfoView, CommitError> {
    if hash is NotRun {
        Err(CommitError::HashNotRun)
    } else if !hash->success {
        Err(CommitError::HashFailed)
    } else if message is NotRun {
        Err(CommitError::MessageNotRun)
    } else if author is NotRun {
        Err(CommitError::AuthorNotRun)
    } else {
        Ok(
            CommitInfoView {
                hash: crate::text::trimmed(hash->text),
                message: crate::text::trimmed(message->text),
                author: crate::text::trimmed(author->text),
                branch: if branch is NotRun {
                    None
                } else {
                    branch_in(branch->text)
                },
            },
        )
    }
}

/// The search is over after four replies at most, and what it ends in is what
/// the replies tell: the commit, or the first thing that went wrong.
pub proof fn law_lookup_ends_in_what_the_replies_tell(
    hash: GitReplyView,
    message: GitReplyView,
    author: GitReplyView,
    branch: GitReplyView,
)
    ensures
        CommitLookupView::Hash.after(hash).after(message).after(author).after(branch) == (
        match last_commit(hash, message, author, branch) {
            Ok(info) => CommitLookupView::Found(info),
            Err(error) => CommitLookupView::Failed(error),
        }),
{
}

/// A search that is over asks nothing and stays as it is, whatever is replied.
pub proof fn law_finished_lookup_stays(lookup: CommitLookupView, reply: GitReplyView)
    ensures
        lookup.query() is None <==> lookup is Found || lookup is Failed,
        lookup.query() is None ==> lookup.after(reply) == lookup,
{
}

/// A branch that is told of is never the word for a detached head, and never
/// empty.
pub proof fn law_branch_is_a_name(text: Seq<char>)
    ensures
        branch_in(text) matches Some(name) ==> name != "HEAD"@ && name.len() > 0,
{
}

/// No branch is told of exactly where the text without white space around it
/// is empty or the word for a detached head; any other such text is the branch,
/// as it stands.
pub proof fn law_branch_is_the_trimmed_text(text: Seq<char>)
    ensures
        branch_in(text) is None <==> crate::text::trimmed(text) == "HEAD"@ || crate::text::trimmed(
            text,
        ).len() == 0,
        branch_in(text) matches Some(name) ==> name == crate::text::trimmed(text),
{
}

/// The hash is asked for first, then the message, the author and the branch,
/// whatever the replies say, as long as the hash is told and each command can
/// be run; what was learnt is kept on the way.
pub proof fn law_questions_come_in_order(
    hash: Seq<char>,
    message_ok: bool,
    message: Seq<char>,
    author_ok: bool,
    author: Seq<char>,
    branch: GitReplyView,
)
    ensures
        ({
            let start = CommitLookupView::Hash;
            let second = start.after(GitReplyView::Ran { success: true, text: hash });
            let third = second.after(GitReplyView::Ran { success: message_ok, text: message });
            let fourth = third.after(GitReplyView::Ran { success: author_ok, text: author });
            let last = fourth.after(branch);
            &&& start.query() == Some(GitQuery::Hash)
            &&& second.query() == Some(GitQuery::Message)
            &&& third.query() == Some(GitQuery::Author)
            &&& fourth.query() == Some(GitQuery::Branch)
            &&& last.query() is None
            &&& last matches CommitLookupView::Found(info) && {
                &&& info.hash == crate::text::trimmed(hash)
                &&& info.message == crate::text::trimmed(message)
                &&& info.author == crate::text::trimmed(author)
                &&& branch is NotRun ==> info.branch is None
                &&& branch matches GitReplyView::Ran { text, .. } ==> info.branch == branch_in(text)
            }
        }),
{
}

/// A command that cannot be run ends the search with an error of its own,
/// except the one for the branch; so does one for the hash that does not
/// succeed.
pub proof fn law_what_ends_the_search(
    hash: Seq<char>,
    message: Seq<char>,
    text: Seq<char>,
)
    ensures
        CommitLookupView::Hash.after(GitReplyView::NotRun) == CommitLookupView::Failed(
            CommitError::HashNotRun,
        ),
        CommitLookupView::Hash.after(GitReplyView::Ran { success: false, text })
            == CommitLookupView::Failed(CommitError::HashFailed),
        (CommitLookupView::Message { hash }).after(GitReplyView::NotRun)
            == CommitLookupView::Failed(CommitError::MessageNotRun),
        (CommitLookupView::Author { hash, message }).after(GitReplyView::NotRun)
            == CommitLookupView::Failed(CommitError::AuthorNotRun),
{
}

/// Commits, replies and searches are seen with all that they hold.
pub proof fn law_commits_are_seen_as_they_are(
    info: CommitInfo,
    success: bool,
    hash: String,
    message: String,
    author: String,
    error: CommitError,
)
    ensures
        info@.hash == info.hash@,
        info@.message == info.message@,
        info@.author == info.author@,
        info@.branch == info.branch.deep_view(),
        GitReply::NotRun@ == GitReplyView::NotRun,
        (GitReply::Ran { success, text: message })@ == (GitReplyView::Ran {
            success,
            text: message@,
        }),
        CommitLookup::Hash@ == CommitLookupView::Hash,
        (CommitLookup::Message { hash })@ == (CommitLookupView::Message { hash: hash@ }),
        (CommitLookup::Author { hash, message })@ == (CommitLookupView::Author {
            hash: hash@,
            message: message@,
        }),
        (CommitLookup::Branch { hash, message, author })@ == (CommitLookupView::Branch {
            hash: hash@,
            message: message@,
            author: author@,
        }),
        CommitLookup::Found(info)@ == CommitLookupView::Found(info@),
        CommitLookup::Failed(error)@ == CommitLookupView::Failed(error),
{
}

} // verus!
