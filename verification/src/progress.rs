//! What is learnt from the output of a running work item, and when the
//! orchestrator is told of it.

use crate::text::{has_char, rest_after, strip_prefix, trim};
use vstd::prelude::*;
use vstd::string::*;

verus! {

/// Nanoseconds that have to pass between two progress reports.
pub const REPORT_INTERVAL_NANOS: u128 = 10_000_000_000;

/// The progress of a finished work item, in hundredths of a percent.
pub const COMPLETE_PROGRESS: u32 = 10_000;

/// The highest progress of a work item that still runs, in hundredths of a
/// percent.
pub const RUNNING_PROGRESS_LIMIT: u32 = 9_500;

/// Whether `text` can be the path of a file: it has a slash or a dot.
pub open spec fn looks_like_path(text: Seq<char>) -> bool {
    text.contains('/') || text.contains('.')
}

/// What follows `prefix` in `line`, without white space around it.
pub open spec fn named_after(line: Seq<char>, prefix: Seq<char>) -> Option<Seq<char>> {
    if crate::text::starts_with(line, prefix) {
        Some(crate::text::trimmed(line.skip(prefix.len() as int)))
    } else {
        None
    }
}

/// What follows `prefix` and, behind it, the first `marker` in `line`, without
/// white space around it.
pub open spec fn named_after_marker(
    line: Seq<char>,
    prefix: Seq<char>,
    marker: Seq<char>,
) -> Option<Seq<char>> {
    if crate::text::starts_with(line, prefix) {
        match crate::text::after_marker(line.skip(prefix.len() as int), marker) {
            Some(rest) => Some(crate::text::trimmed(rest)),
            None => None,
        }
    } else {
        None
    }
}

/// What a line of output says was modified, if it is one of the lines that
/// announce a modification.
pub open spec fn announced(line: Seq<char>) -> Option<Seq<char>> {
    if crate::text::starts_with(line, "Wrote "@) {
        named_after_marker(line, "Wrote "@, " to "@)
    } else if crate::text::starts_with(line, "Writing "@) {
        named_after_marker(line, "Writing "@, " to "@)
    } else if crate::text::starts_with(line, "Edited "@) {
        named_after(line, "Edited "@)
    } else if crate::text::starts_with(line, "Edit: "@) {
        named_after(line, "Edit: "@)
    } else if crate::text::starts_with(line, "Created "@) {
        named_after(line, "Created "@)
    } else {
        named_after(line, "Modified "@)
    }
}

/// The file that a line of output says was modified, if any.
pub open spec fn file_in_line(line: Seq<char>) -> Option<Seq<char>> {
    match announced(line) {
        Some(text) => if looks_like_path(text) {
            Some(text)
        } else {
            None
        },
        None => None,
    }
}

/// `files` with `file` at the end, unless it is there already.
pub open spec fn with_file(files: Seq<Seq<char>>, file: Seq<char>) -> Seq<Seq<char>> {
    if files.contains(file) {
        files
    } else {
        files.push(file)
    }
}

/// `files` after a line of output.
pub open spec fn after_line(files: Seq<Seq<char>>, line: Seq<char>) -> Seq<Seq<char>> {
    match file_in_line(line) {
        Some(file) => with_file(files, file),
        None => files,
    }
}

fn file_after(line: &str, prefix: &str) -> (file: Option<String>)
    ensures
        file.deep_view() == named_after(line@, prefix@),
{
    match strip_prefix(line, prefix) {
        Some(rest) => Some(trim(rest.as_str())),
        None => None,
    }
}

fn file_after_marker(line: &str, prefix: &str, marker: &str) -> (file: Option<String>)
    ensures
        file.deep_view() == named_after_marker(line@, prefix@, marker@),
{
    match strip_prefix(line, prefix) {
        Some(rest) => match rest_after(rest.as_str(), marker) {
            Some(behind) => Some(trim(behind.as_str())),
            None => None,
        },
        None => None,
    }
}

/// What a line of output says was modified.
pub fn announced_text(line: &str) -> (text: Option<String>)
    ensures
        text.deep_view() == announced(line@),
{
    if strip_prefix(line, "Wrote ").is_some() {
        file_after_marker(line, "Wrote ", " to ")
    } else if strip_prefix(line, "Writing ").is_some() {
        file_after_marker(line, "Writing ", " to ")
    } else if strip_prefix(line, "Edited ").is_some() {
        file_after(line, "Edited ")
    } else if strip_prefix(line, "Edit: ").is_some() {
        file_after(line, "Edit: ")
    } else if strip_prefix(line, "Created ").is_some() {
        file_after(line, "Created ")
    } else {
        file_after(line, "Modified ")
    }
}

/// The progress of a work item that has put out `lines` lines, in hundredths
/// of a percent: a hundredth for each line, up to the limit.
pub open spec fn running_progress(lines: u32) -> u32 {
    if lines < RUNNING_PROGRESS_LIMIT {
        lines
    } else {
        RUNNING_PROGRESS_LIMIT
    }
}

/// The progress of a work item that has put out `lines` lines.
pub fn estimated_progress(lines: u32) -> (progress: u32)
    ensures
        progress == running_progress(lines),
{
    if lines < RUNNING_PROGRESS_LIMIT {
        lines
    } else {
        RUNNING_PROGRESS_LIMIT
    }
}

/// What the orchestrator is told of a running work item.
pub struct ProgressReport {
    /// The agent that reports.
    pub transducer_id: String,
    /// The work item that is reported on.
    pub assignment_id: String,
    /// Progress in hundredths of a percent.
    pub progress: u32,
    /// What the work item is at.
    pub status_message: String,
    /// The files that were modified so far.
    pub files_modified: Vec<String>,
}

/// The contents of a [`ProgressReport`].
pub struct ProgressReportView {
    pub transducer_id: Seq<char>,
    pub assignment_id: Seq<char>,
    pub progress: u32,
    pub status_message: Seq<char>,
    pub files_modified: Seq<Seq<char>>,
}

impl View for ProgressReport {
    type V = ProgressReportView;

    open spec fn view(&self) -> ProgressReportView {
        ProgressReportView {
            transducer_id: self.transducer_id@,
            assignment_id: self.assignment_id@,
            progress: self.progress,
            status_message: self.status_message@,
            files_modified: self.files_modified.deep_view(),
        }
    }
}

/// Tracks a running work item and paces what is reported of it.
pub struct ProgressReporter {
    transducer_id: String,
    assignment_id: String,
    files_modified: Vec<String>,
    last_report: u128,
}

/// The contents of a [`ProgressReporter`]: whom it reports for, on what, the
/// files in the order in which they were first named, and the time of the last
/// report in nanoseconds.
pub struct ProgressReporterView {
    pub transducer_id: Seq<char>,
    pub assignment_id: Seq<char>,
    pub files_modified: Seq<Seq<char>>,
    pub last_report: u128,
}

impl View for ProgressReporter {
    type V = ProgressReporterView;

    closed spec fn view(&self) -> ProgressReporterView {
        ProgressReporterView {
            transducer_id: self.transducer_id@,
            assignment_id: self.assignment_id@,
            files_modified: self.files_modified.deep_view(),
            last_report: self.last_report,
        }
    }
}

impl ProgressReporterView {
    /// No file is listed twice.
    pub open spec fn wf(self) -> bool {
        self.files_modified.no_duplicates()
    }

    /// The same reporter with other files.
    pub open spec fn with_files(self, files: Seq<Seq<char>>) -> ProgressReporterView {
        ProgressReporterView { files_modified: files, ..self }
    }

    /// Whether a report is due at `now`.
    pub open spec fn is_due(self, now: u128) -> bool {
        now - self.last_report >= REPORT_INTERVAL_NANOS
    }

    /// The same reporter once it was asked at `now` for a report.
    pub open spec fn called(self, now: u128) -> ProgressReporterView {
        if self.is_due(now) {
            ProgressReporterView { last_report: now, ..self }
        } else {
            self
        }
    }

    /// What is reported.
    pub open spec fn report(self, progress: u32, message: Seq<char>) -> ProgressReportView {
        ProgressReportView {
            transducer_id: self.transducer_id,
            assignment_id: self.assignment_id,
            progress,
            status_message: message,
            files_modified: self.files_modified,
        }
    }
}

/// A copy of a list of texts.
pub fn copy_texts(texts: &Vec<String>) -> (copy: Vec<String>)
    ensures
        copy.deep_view() == texts.deep_view(),
{
    let mut copy: Vec<String> = Vec::new();
    let mut i: usize = 0;
    while i < texts.len()
        invariant
            i <= texts.len(),
            copy.deep_view() == texts.deep_view().take(i as int),
        decreases texts.len() - i,
    {
        let ghost before = copy.deep_view();
        copy.push(texts[i].clone());
        assert(copy.deep_view() =~= before.push(texts@[i as int]@));
        assert(texts.deep_view().take(i as int + 1) =~= texts.deep_view().take(i as int).push(
            texts@[i as int]@,
        ));
        i = i + 1;
    }
    assert(texts.deep_view().take(texts.len() as int) =~= texts.deep_view());
    copy
}

impl ProgressReporter {
    /// A reporter for one work item that was started at `now`.
    pub fn new(transducer_id: String, assignment_id: String, now: u128) -> (reporter: Self)
        ensures
            reporter@ == (ProgressReporterView {
                transducer_id: transducer_id@,
                assignment_id: assignment_id@,
                files_modified: Seq::<Seq<char>>::empty(),
                last_report: now,
            }),
            reporter@.wf(),
    {
        let reporter = ProgressReporter {
            transducer_id,
            assignment_id,
            files_modified: Vec::new(),
            last_report: now,
        };
        assert(reporter@.files_modified =~= Seq::<Seq<char>>::empty());
        reporter
    }

    /// Track a file modification.
    pub fn track_file(&mut self, file: String)
        ensures
            final(self)@ == old(self)@.with_files(with_file(old(self)@.files_modified, file@)),
            old(self)@.wf() ==> final(self)@.wf(),
    {
        let mut i: usize = 0;
        while i < self.files_modified.len()
            invariant
                *self == *old(self),
                i <= self.files_modified.len(),
                forall|k: int| 0 <= k < i ==> #[trigger] self.files_modified.deep_view()[k] != file@,
            decreases self.files_modified.len() - i,
        {
            if self.files_modified[i] == file {
                assert(self.files_modified.deep_view()[i as int] == file@);
                assert(old(self)@.files_modified.contains(file@));
                return ;
            }
            i = i + 1;
        }
        assert(!old(self)@.files_modified.contains(file@));
        self.files_modified.push(file);
        assert(self.files_modified.deep_view() =~= old(self).files_modified.deep_view().push(
            file@,
        ));
    }

    /// Get all tracked files.
    pub fn get_files_modified(&self) -> (files: Vec<String>)
        ensures
            files.deep_view() == self@.files_modified,
    {
        copy_texts(&self.files_modified)
    }

    /// Track the file that a line of output says was modified.
    pub fn parse_line(&mut self, line: &str)
        ensures
            final(self)@ == old(self)@.with_files(after_line(old(self)@.files_modified, line@)),
            old(self)@.wf() ==> final(self)@.wf(),
    {
        if let Some(file) = announced_text(line) {
            if has_char(file.as_str(), '/') || has_char(file.as_str(), '.') {
                self.track_file(file);
            }
        }
    }

    /// Report progress if the last report is long enough ago.
    pub fn maybe_report(&mut self, now: u128, progress: u32, status_message: &str) -> (report:
        Option<ProgressReport>)
        ensures
            report is Some <==> old(self)@.is_due(now),
            report matches Some(sent) ==> sent@ == old(self)@.report(progress, status_message@),
            report matches Some(sent) ==> {
                &&& sent.transducer_id@ == old(self)@.transducer_id
                &&& sent.assignment_id@ == old(self)@.assignment_id
                &&& sent.progress == progress
                &&& sent.status_message@ == status_message@
                &&& sent.files_modified.deep_view() == old(self)@.files_modified
            },
            final(self)@ == old(self)@.called(now),
    {
        if now < self.last_report || now - self.last_report < REPORT_INTERVAL_NANOS {
            return None;
        }
        self.last_report = now;
        Some(
            ProgressReport {
                transducer_id: self.transducer_id.clone(),
                assignment_id: self.assignment_id.clone(),
                progress,
                status_message: status_message.to_string(),
                files_modified: self.get_files_modified(),
            },
        )
    }
}

/// `files` after some lines of output.
pub open spec fn after_lines(files: Seq<Seq<char>>, lines: Seq<Seq<char>>) -> Seq<Seq<char>>
    decreases lines.len(),
{
    if lines.len() == 0 {
        files
    } else {
        after_line(after_lines(files, lines.drop_last()), lines.last())
    }
}

/// When reports are made, of the times at which they are asked for, where the
/// last report before was at `last`.
pub open spec fn report_times(last: u128, calls: Seq<u128>) -> Seq<u128>
    decreases calls.len(),
{
    if calls.len() == 0 {
        Seq::empty()
    } else {
        let before = report_times(last, calls.drop_last());
        if calls.last() - last_time(last, before) >= REPORT_INTERVAL_NANOS {
            before.push(calls.last())
        } else {
            before
        }
    }
}

/// The last of `times`, or `last` where there is none.
pub open spec fn last_time(last: u128, times: Seq<u128>) -> u128 {
    if times.len() == 0 {
        last
    } else {
        times.last()
    }
}

/// The reporter after reports were asked for at some times.
pub open spec fn after_calls(reporter: ProgressReporterView, calls: Seq<u128>) -> ProgressReporterView
    decreases calls.len(),
{
    if calls.len() == 0 {
        reporter
    } else {
        after_calls(reporter, calls.drop_last()).called(calls.last())
    }
}

/// At most one of the words that announce a modification stands at the front
/// of a line, so that a line names at most one file.
pub proof fn law_announcements_exclude_each_other(line: Seq<char>)
    ensures
        crate::text::starts_with(line, "Wrote "@) ==> announced(line) == named_after_marker(
            line,
            "Wrote "@,
            " to "@,
        ),
        crate::text::starts_with(line, "Writing "@) ==> announced(line) == named_after_marker(
            line,
            "Writing "@,
            " to "@,
        ),
        crate::text::starts_with(line, "Edited "@) ==> announced(line) == named_after(
            line,
            "Edited "@,
        ),
        crate::text::starts_with(line, "Edit: "@) ==> announced(line) == named_after(
            line,
            "Edit: "@,
        ),
        crate::text::starts_with(line, "Created "@) ==> announced(line) == named_after(
            line,
            "Created "@,
        ),
        crate::text::starts_with(line, "Modified "@) ==> announced(line) == named_after(
            line,
            "Modified "@,
        ),
        announced(line) is Some ==> {
            ||| crate::text::starts_with(line, "Wrote "@)
            ||| crate::text::starts_with(line, "Writing "@)
            ||| crate::text::starts_with(line, "Edited "@)
            ||| crate::text::starts_with(line, "Edit: "@)
            ||| crate::text::starts_with(line, "Created "@)
            ||| crate::text::starts_with(line, "Modified "@)
        },
{
    reveal_strlit("Wrote ");
    reveal_strlit("Writing ");
    reveal_strlit("Edited ");
    reveal_strlit("Edit: ");
    reveal_strlit("Created ");
    reveal_strlit("Modified ");
    lemma_front(line, "Wrote "@);
    lemma_front(line, "Writing "@);
    lemma_front(line, "Edited "@);
    lemma_front(line, "Edit: "@);
    lemma_front(line, "Created "@);
    lemma_front(line, "Modified "@);
}

proof fn lemma_front(line: Seq<char>, prefix: Seq<char>)
    requires
        prefix.len() >= 6,
    ensures
        crate::text::starts_with(line, prefix) ==> line.len() >= 6 && line[0] == prefix[0]
            && line[2] == prefix[2] && line[4] == prefix[4],
{
    if crate::text::starts_with(line, prefix) {
        assert(line.subrange(0, prefix.len() as int)[0] == prefix[0]);
        assert(line.subrange(0, prefix.len() as int)[2] == prefix[2]);
        assert(line.subrange(0, prefix.len() as int)[4] == prefix[4]);
    }
}

/// Whatever the process puts out: the files that were known stay in front and
/// in order, no file comes to be listed twice, what is added looks like a path
/// and was announced by one of the lines, and what a line announces is listed.
pub proof fn law_tracked_files(files: Seq<Seq<char>>, lines: Seq<Seq<char>>)
    ensures
        files.len() <= after_lines(files, lines).len() <= files.len() + lines.len(),
        after_lines(files, lines).take(files.len() as int) == files,
        files.no_duplicates() ==> after_lines(files, lines).no_duplicates(),
        forall|i: int|
            files.len() <= i < after_lines(files, lines).len() ==> looks_like_path(
                #[trigger] after_lines(files, lines)[i],
            ),
        forall|i: int|
            files.len() <= i < after_lines(files, lines).len() ==> exists|k: int|
                0 <= k < lines.len() && file_in_line(#[trigger] lines[k]) == Some(
                    #[trigger] after_lines(files, lines)[i],
                ),
        forall|k: int|
            0 <= k < lines.len() && file_in_line(#[trigger] lines[k]) is Some ==> after_lines(
                files,
                lines,
            ).contains(file_in_line(lines[k])->0),
    decreases lines.len(),
{
    let all = after_lines(files, lines);
    if lines.len() == 0 {
        assert(all.take(files.len() as int) =~= files);
    } else {
        let front = lines.drop_last();
        let before = after_lines(files, front);
        law_tracked_files(files, front);
        assert(all.take(files.len() as int) =~= before.take(files.len() as int));
        assert forall|i: int| files.len() <= i < all.len() implies exists|k: int|
            0 <= k < lines.len() && file_in_line(#[trigger] lines[k]) == Some(
                #[trigger] all[i],
            ) by {
            if i < before.len() {
                assert(all[i] == before[i]);
                let k = choose|k: int|
                    0 <= k < front.len() && file_in_line(#[trigger] front[k]) == Some(before[i]);
                assert(lines[k] == front[k]);
            } else {
                assert(file_in_line(lines[lines.len() - 1]) == Some(all[i]));
            }
        }
        assert forall|i: int| files.len() <= i < all.len() implies looks_like_path(
            #[trigger] all[i],
        ) by {
            if i < before.len() {
                assert(all[i] == before[i]);
            }
        }
        assert forall|k: int|
            0 <= k < lines.len() && file_in_line(#[trigger] lines[k]) is Some implies all.contains(
            file_in_line(lines[k])->0,
        ) by {
            let file = file_in_line(lines[k])->0;
            if k < front.len() {
                assert(front[k] == lines[k]);
                let i = choose|i: int| 0 <= i < before.len() && before[i] == file;
                assert(all[i] == file);
            } else if !before.contains(file) {
                assert(all[before.len() as int] == file);
            }
        }
    }
}

/// A line that comes again adds nothing.
pub proof fn law_repeated_line_adds_nothing(files: Seq<Seq<char>>, line: Seq<char>)
    ensures
        after_line(after_line(files, line), line) == after_line(files, line),
{
    if let Some(file) = file_in_line(line) {
        if !files.contains(file) {
            assert(files.push(file)[files.len() as int] == file);
        }
    }
}

/// A running work item is never reported as further than the limit, which is
/// below what a finished one is reported as, and more lines never bring it
/// back.
pub proof fn law_estimate_grows_up_to_the_limit(lines: u32, more: u32)
    requires
        lines <= more,
    ensures
        running_progress(lines) <= running_progress(more) <= RUNNING_PROGRESS_LIMIT,
        RUNNING_PROGRESS_LIMIT < COMPLETE_PROGRESS,
{
}

/// However often a report is asked for, reports are at least the interval
/// apart, and the first one is so from the start.
pub proof fn law_reports_are_apart(last: u128, calls: Seq<u128>)
    ensures
        forall|i: int|
            0 <= i < report_times(last, calls).len() ==> #[trigger] report_times(last, calls)[i]
                - last >= REPORT_INTERVAL_NANOS,
        forall|i: int, j: int|
            0 <= i < j < report_times(last, calls).len() ==> #[trigger] report_times(last, calls)[j]
                - #[trigger] report_times(last, calls)[i] >= REPORT_INTERVAL_NANOS,
    decreases calls.len(),
{
    if calls.len() > 0 {
        law_reports_are_apart(last, calls.drop_last());
        let before = report_times(last, calls.drop_last());
        let times = report_times(last, calls);
        assert forall|i: int, j: int| 0 <= i < j < times.len() implies #[trigger] times[j]
            - #[trigger] times[i] >= REPORT_INTERVAL_NANOS by {
            if j < before.len() {
                assert(times[j] == before[j] && times[i] == before[i]);
            } else {
                assert(times[i] == before[i]);
                assert(before[before.len() - 1] == before.last());
                if i < before.len() - 1 {
                    assert(before[before.len() - 1] - before[i] >= REPORT_INTERVAL_NANOS);
                }
            }
        }
        assert forall|i: int| 0 <= i < times.len() implies #[trigger] times[i] - last
            >= REPORT_INTERVAL_NANOS by {
            if i < before.len() {
                assert(times[i] == before[i]);
            } else if before.len() > 0 {
                assert(before[before.len() - 1] - last >= REPORT_INTERVAL_NANOS);
            }
        }
    }
}

/// What a reporter remembers as its last report is the last of the reports
/// that were made, and asking for reports changes nothing else in it.
pub proof fn law_reporter_remembers_its_last_report(
    reporter: ProgressReporterView,
    calls: Seq<u128>,
)
    ensures
        after_calls(reporter, calls) == (ProgressReporterView {
            last_report: last_time(
                reporter.last_report,
                report_times(reporter.last_report, calls),
            ),
            ..reporter
        }),
    decreases calls.len(),
{
    if calls.len() > 0 {
        law_reporter_remembers_its_last_report(reporter, calls.drop_last());
    }
}

/// A line that begins with one of the words that stand right in front of a
/// file names what follows, without white space around it, whatever that is.
pub proof fn law_what_follows_the_word_is_announced(rest: Seq<char>)
    ensures
        announced("Edited "@ + rest) == Some(crate::text::trimmed(rest)),
        announced("Edit: "@ + rest) == Some(crate::text::trimmed(rest)),
        announced("Created "@ + rest) == Some(crate::text::trimmed(rest)),
        announced("Modified "@ + rest) == Some(crate::text::trimmed(rest)),
{
    lemma_behind_the_word("Edited "@, rest);
    lemma_behind_the_word("Edit: "@, rest);
    lemma_behind_the_word("Created "@, rest);
    lemma_behind_the_word("Modified "@, rest);
    law_announcements_exclude_each_other("Edited "@ + rest);
    law_announcements_exclude_each_other("Edit: "@ + rest);
    law_announcements_exclude_each_other("Created "@ + rest);
    law_announcements_exclude_each_other("Modified "@ + rest);
}

proof fn lemma_behind_the_word(word: Seq<char>, rest: Seq<char>)
    ensures
        crate::text::starts_with(word + rest, word),
        (word + rest).skip(word.len() as int) == rest,
{
    assert((word + rest).subrange(0, word.len() as int) =~= word);
    assert((word + rest).skip(word.len() as int) =~= rest);
}

/// A line that begins with one of the words for writing names what stands
/// behind the first ` to `, without white space around it; and nothing where
/// there is no ` to `.
pub proof fn law_what_follows_the_marker_is_announced(front: Seq<char>, rest: Seq<char>)
    ensures
        (forall|i: int|
            0 <= i < front.len() ==> !#[trigger] crate::text::occurs_at(
                front + " to "@ + rest,
                " to "@,
                i,
            )) ==> {
            &&& announced("Wrote "@ + (front + " to "@ + rest)) == Some(
                crate::text::trimmed(rest),
            )
            &&& announced("Writing "@ + (front + " to "@ + rest)) == Some(
                crate::text::trimmed(rest),
            )
        },
        (forall|i: int| !#[trigger] crate::text::occurs_at(front, " to "@, i)) ==> {
            &&& announced("Wrote "@ + front) is None
            &&& announced("Writing "@ + front) is None
        },
{
    let tail = front + " to "@ + rest;
    lemma_behind_the_word("Wrote "@, tail);
    lemma_behind_the_word("Writing "@, tail);
    lemma_behind_the_word("Wrote "@, front);
    lemma_behind_the_word("Writing "@, front);
    law_announcements_exclude_each_other("Wrote "@ + tail);
    law_announcements_exclude_each_other("Writing "@ + tail);
    law_announcements_exclude_each_other("Wrote "@ + front);
    law_announcements_exclude_each_other("Writing "@ + front);
    crate::text::law_rest_behind_the_first_marker(front, " to "@, rest, front);
}

/// Of what a line announces, each text with a slash or a dot in it is tracked,
/// behind the files that are known, and once; nothing else is.
pub proof fn law_announced_paths_are_tracked(files: Seq<Seq<char>>, line: Seq<char>)
    ensures
        announced(line) matches Some(text) ==> {
            &&& text.contains('/') || text.contains('.') ==> after_line(files, line).contains(text)
            &&& (text.contains('/') || text.contains('.')) && !files.contains(text) ==> after_line(
                files,
                line,
            ) == files.push(text)
            &&& files.contains(text) ==> after_line(files, line) == files
            &&& !text.contains('/') && !text.contains('.') ==> after_line(files, line) == files
        },
        announced(line) is None ==> after_line(files, line) == files,
{
    if let Some(text) = announced(line) {
        if !files.contains(text) {
            assert(files.push(text)[files.len() as int] == text);
        }
    }
}

/// To track a file puts it behind the known ones, unless it is known: a known
/// file changes nothing, and a new one leaves the others as they are.
pub proof fn law_tracked_file_is_listed_once(files: Seq<Seq<char>>, file: Seq<char>)
    ensures
        with_file(files, file).contains(file),
        files.contains(file) ==> with_file(files, file) == files,
        !files.contains(file) ==> with_file(files, file).len() == files.len() + 1
            && with_file(files, file).drop_last() == files && with_file(files, file).last() == file,
{
    if !files.contains(file) {
        assert(files.push(file).last() == file);
        assert(files.push(file).drop_last() =~= files);
        assert(files.push(file)[files.len() as int] == file);
    }
}

/// A report is due once ten seconds have passed since the last one, and then
/// only the time of the last report changes; it tells what is known at the
/// time, whatever that is.
pub proof fn law_report_tells_what_is_known(
    reporter: ProgressReporterView,
    now: u128,
    progress: u32,
    message: Seq<char>,
    files: Seq<Seq<char>>,
)
    ensures
        reporter.is_due(now) <==> now >= reporter.last_report + 10_000_000_000,
        reporter.called(now).last_report == if now >= reporter.last_report + 10_000_000_000 {
            now
        } else {
            reporter.last_report
        },
        reporter.called(now).files_modified == reporter.files_modified,
        reporter.called(now).transducer_id == reporter.transducer_id,
        reporter.called(now).assignment_id == reporter.assignment_id,
        reporter.report(progress, message).transducer_id == reporter.transducer_id,
        reporter.report(progress, message).assignment_id == reporter.assignment_id,
        reporter.report(progress, message).progress == progress,
        reporter.report(progress, message).status_message == message,
        reporter.report(progress, message).files_modified == reporter.files_modified,
        reporter.with_files(files).files_modified == files,
        reporter.with_files(files).last_report == reporter.last_report,
        reporter.with_files(files).transducer_id == reporter.transducer_id,
        reporter.with_files(files).assignment_id == reporter.assignment_id,
{
}

/// Each line counts for a hundredth of a percent, up to ninety-five percent.
pub proof fn law_estimate_counts_the_lines(lines: u32)
    ensures
        lines <= 9_500 ==> running_progress(lines) == lines,
        lines >= 9_500 ==> running_progress(lines) == 9_500,
{
}

/// A report is seen with all that it holds.
pub proof fn law_reports_are_seen_as_they_are(report: ProgressReport)
    ensures
        report@.transducer_id == report.transducer_id@,
        report@.assignment_id == report.assignment_id@,
        report@.progress == report.progress,
        report@.status_message == report.status_message@,
        report@.files_modified == report.files_modified.deep_view(),
{
}

} // verus!
