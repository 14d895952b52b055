//! What a running process puts out, line by line as it comes, and how far the
//! work is estimated to be.

use crate::progress::{estimated_progress, ProgressReport, ProgressReporter, COMPLETE_PROGRESS};
use vstd::prelude::*;
use vstd::string::*;

verus! {

/// What comes from a running process.
#[derive(Debug)]
pub enum CaptureEvent {
    /// A line on standard output, without the newline that ends it.
    StdoutLine(String),
    /// Standard output was closed.
    StdoutClosed,
    /// Standard output could not be read.
    StdoutFailed,
    /// A line on standard error, without the newline that ends it.
    StderrLine(String),
    /// Standard error was closed.
    StderrClosed,
    /// Standard error could not be read.
    StderrFailed,
}

/// The contents of a [`CaptureEvent`].
pub enum CaptureEventView {
    StdoutLine(Seq<char>),
    StdoutClosed,
    StdoutFailed,
    StderrLine(Seq<char>),
    StderrClosed,
    StderrFailed,
}

impl View for CaptureEvent {
    type V = CaptureEventView;

    open spec fn view(&self) -> CaptureEventView {
        match self {
            CaptureEvent::StdoutLine(line) => CaptureEventView::StdoutLine(line@),
            CaptureEvent::StdoutClosed => CaptureEventView::StdoutClosed,
            CaptureEvent::StdoutFailed => CaptureEventView::StdoutFailed,
            CaptureEvent::StderrLine(line) => CaptureEventView::StderrLine(line@),
            CaptureEvent::StderrClosed => CaptureEventView::StderrClosed,
            CaptureEvent::StderrFailed => CaptureEventView::StderrFailed,
        }
    }
}

impl CaptureEventView {
    /// Whether standard output is over with this event: closed or failed.
    pub open spec fn ends_stdout(self) -> bool {
        self is StdoutClosed || self is StdoutFailed
    }

    /// Whether standard error is over with this event: closed or failed.
    pub open spec fn ends_stderr(self) -> bool {
        self is StderrClosed || self is StderrFailed
    }
}

/// What was captured of a process.
#[derive(Debug)]
pub struct Capture {
    /// What stood on standard output, each line with a newline behind it.
    pub output: String,
    /// What stood on standard error, each line with a newline behind it.
    pub errors: String,
    /// Whether standard output is over.
    pub stdout_over: bool,
    /// Whether standard error is over.
    pub stderr_over: bool,
}

/// The contents of a [`Capture`].
pub struct CaptureView {
    pub output: Seq<char>,
    pub errors: Seq<char>,
    pub stdout_over: bool,
    pub stderr_over: bool,
}

impl View for Capture {
    type V = CaptureView;

    open spec fn view(&self) -> CaptureView {
        CaptureView {
            output: self.output@,
            errors: self.errors@,
            stdout_over: self.stdout_over,
            stderr_over: self.stderr_over,
        }
    }
}

impl CaptureView {
    /// Nothing captured.
    pub open spec fn empty() -> CaptureView {
        CaptureView {
            output: Seq::empty(),
            errors: Seq::empty(),
            stdout_over: false,
            stderr_over: false,
        }
    }

    /// Whether there is nothing more to capture: both streams are over.
    pub open spec fn is_over(self) -> bool {
        self.stdout_over && self.stderr_over
    }

    /// The capture after an event.
    pub open spec fn after(self, event: CaptureEventView) -> CaptureView {
        match event {
            CaptureEventView::StdoutLine(line) => CaptureView {
                output: self.output + line + seq!['\n'],
                ..self
            },
            CaptureEventView::StderrLine(line) => CaptureView {
                errors: self.errors + line + seq!['\n'],
                ..self
            },
            CaptureEventView::StdoutClosed => CaptureView { stdout_over: true, ..self },
            CaptureEventView::StdoutFailed => CaptureView { stdout_over: true, ..self },
            CaptureEventView::StderrClosed => CaptureView { stderr_over: true, ..self },
            CaptureEventView::StderrFailed => CaptureView { stderr_over: true, ..self },
        }
    }

    /// The capture after some events.
    pub open spec fn after_all(self, events: Seq<CaptureEventView>) -> CaptureView
        decreases events.len(),
    {
        if events.len() == 0 {
            self
        } else {
            self.after_all(events.drop_last()).after(events.last())
        }
    }
}

/// Put a line and a newline behind a text.
fn push_line(text: &mut String, line: &str)
    ensures
        final(text)@ == old(text)@ + line@ + seq!['\n'],
{
    proof {
        reveal_strlit("\n");
    }
    text.append(line);
    text.append("\n");
    assert(text@ =~= old(text)@ + line@ + seq!['\n']);
}

impl Capture {
    /// Nothing captured yet.
    pub fn new() -> (capture: Self)
        ensures
            capture@ == CaptureView::empty(),
    {
        proof {
            reveal_strlit("");
        }
        let capture = Capture {
            output: "".to_string(),
            errors: "".to_string(),
            stdout_over: false,
            stderr_over: false,
        };
        assert(capture@.output =~= Seq::<char>::empty());
        assert(capture@.errors =~= Seq::<char>::empty());
        capture
    }

    /// Take in an event; the answer is whether to wait for another one.
    pub fn on_event(&mut self, event: &CaptureEvent) -> (more: bool)
        ensures
            final(self)@ == old(self)@.after(event@),
            more == !final(self)@.is_over(),
    {
        match event {
            CaptureEvent::StdoutLine(line) => {
                push_line(&mut self.output, line.as_str());
            },
            CaptureEvent::StdoutClosed => {
                self.stdout_over = true;
            },
            CaptureEvent::StdoutFailed => {
                self.stdout_over = true;
            },
            CaptureEvent::StderrLine(line) => {
                push_line(&mut self.errors, line.as_str());
            },
            CaptureEvent::StderrClosed => {
                self.stderr_over = true;
            },
            CaptureEvent::StderrFailed => {
                self.stderr_over = true;
            },
        }
        !(self.stdout_over && self.stderr_over)
    }
}

/// What is to be done after an event.
pub enum CaptureStep {
    /// Send the report, if there is one, and wait for another event.
    Continue(Option<ProgressReport>),
    /// The capture is over.
    Finished,
}

/// A capture that keeps track of the work as it goes.
pub struct ProgressCapture {
    /// What was captured.
    pub capture: Capture,
    /// Lines on standard output so far.
    pub line_count: u32,
    /// What keeps track of the work.
    pub reporter: ProgressReporter,
}

/// The contents of a [`ProgressCapture`].
pub struct ProgressCaptureView {
    pub capture: CaptureView,
    pub line_count: u32,
    pub reporter: crate::progress::ProgressReporterView,
}

impl View for ProgressCapture {
    type V = ProgressCaptureView;

    open spec fn view(&self) -> ProgressCaptureView {
        ProgressCaptureView {
            capture: self.capture@,
            line_count: self.line_count,
            reporter: self.reporter@,
        }
    }
}

impl ProgressCaptureView {
    /// Whether another line can be counted.
    pub open spec fn can_count(self) -> bool {
        self.line_count < u32::MAX
    }

    /// The reporter, once it has looked at the line of an event.
    pub open spec fn parsed(self, event: CaptureEventView) -> crate::progress::ProgressReporterView {
        match event {
            CaptureEventView::StdoutLine(line) => self.reporter.with_files(
                crate::progress::after_line(self.reporter.files_modified, line),
            ),
            _ => self.reporter,
        }
    }

    /// The capture after an event at `now`: a line on standard output is
    /// captured, looked at and counted, and where a report is due it is made.
    pub open spec fn after(self, event: CaptureEventView, now: u128) -> ProgressCaptureView {
        ProgressCaptureView {
            capture: self.capture.after(event),
            line_count: if event is StdoutLine {
                (self.line_count + 1) as u32
            } else {
                self.line_count
            },
            reporter: if event is StdoutLine {
                self.parsed(event).called(now)
            } else {
                self.reporter
            },
        }
    }

    /// The report that an event at `now` leads to: the line itself says what
    /// the work is at, and the number of lines how far it is.
    pub open spec fn report_on(self, event: CaptureEventView, now: u128) -> Option<
        crate::progress::ProgressReportView,
    > {
        match event {
            CaptureEventView::StdoutLine(line) => if self.reporter.is_due(now) {
                Some(
                    self.parsed(event).report(
                        crate::progress::running_progress((self.line_count + 1) as u32),
                        line,
                    ),
                )
            } else {
                None
            },
            _ => None,
        }
    }
}

/// The contents of a report, where there is one.
pub open spec fn report_view(report: Option<ProgressReport>) -> Option<
    crate::progress::ProgressReportView,
> {
    match report {
        Some(sent) => Some(sent@),
        None => None,
    }
}

impl ProgressCapture {
    /// Nothing captured yet.
    pub fn new(reporter: ProgressReporter) -> (capture: Self)
        ensures
            capture@ == (ProgressCaptureView {
                capture: CaptureView::empty(),
                line_count: 0,
                reporter: reporter@,
            }),
    {
        ProgressCapture { capture: Capture::new(), line_count: 0, reporter }
    }

    /// Take in an event at `now`.
    pub fn on_event(&mut self, event: &CaptureEvent, now: u128) -> (step: CaptureStep)
        requires
            event@ is StdoutLine ==> old(self)@.can_count(),
        ensures
            final(self)@ == old(self)@.after(event@, now),
            step is Finished <==> final(self)@.capture.is_over(),
            step matches CaptureStep::Continue(report) ==> report_view(report)
                == old(self)@.report_on(event@, now),
            old(self)@.reporter.wf() ==> final(self)@.reporter.wf(),
    {
        let more = self.capture.on_event(event);
        let report = match event {
            CaptureEvent::StdoutLine(line) => {
                self.reporter.parse_line(line.as_str());
                self.line_count = self.line_count + 1;
                let progress: u32 = estimated_progress(self.line_count);
                self.reporter.maybe_report(now, progress, line.as_str())
            },
            _ => None,
        };
        if more {
            CaptureStep::Continue(report)
        } else {
            CaptureStep::Finished
        }
    }

    /// The last report, once the process has ended, if one is due.
    pub fn finish(&mut self, now: u128) -> (report: Option<ProgressReport>)
        ensures
            report_view(report) == (if old(self)@.reporter.is_due(now) {
                Some(old(self)@.reporter.report(COMPLETE_PROGRESS, "Execution complete"@))
            } else {
                None
            }),
            final(self)@ == (ProgressCaptureView {
                reporter: old(self)@.reporter.called(now),
                ..old(self)@
            }),
            old(self)@.reporter.wf() ==> final(self)@.reporter.wf(),
    {
        self.reporter.maybe_report(now, COMPLETE_PROGRESS, "Execution complete")
    }
}

/// The lines on standard output among some events.
pub open spec fn stdout_lines(events: Seq<CaptureEventView>) -> Seq<Seq<char>>
    decreases events.len(),
{
    if events.len() == 0 {
        Seq::empty()
    } else {
        let before = stdout_lines(events.drop_last());
        match events.last() {
            CaptureEventView::StdoutLine(line) => before.push(line),
            _ => before,
        }
    }
}

/// The lines on standard error among some events.
pub open spec fn stderr_lines(events: Seq<CaptureEventView>) -> Seq<Seq<char>>
    decreases events.len(),
{
    if events.len() == 0 {
        Seq::empty()
    } else {
        let before = stderr_lines(events.drop_last());
        match events.last() {
            CaptureEventView::StderrLine(line) => before.push(line),
            _ => before,
        }
    }
}

/// Lines as a text, each with a newline behind it.
pub open spec fn lines_text(lines: Seq<Seq<char>>) -> Seq<char>
    decreases lines.len(),
{
    if lines.len() == 0 {
        Seq::empty()
    } else {
        lines_text(lines.drop_last()) + lines.last() + seq!['\n']
    }
}

/// What is captured is the lines of standard output and the lines of standard
/// error, each in its order, and how the two are interleaved is all the same.
pub proof fn law_capture_is_the_lines(events: Seq<CaptureEventView>)
    ensures
        CaptureView::empty().after_all(events).output == lines_text(stdout_lines(events)),
        CaptureView::empty().after_all(events).errors == lines_text(stderr_lines(events)),
    decreases events.len(),
{
    if events.len() > 0 {
        law_capture_is_the_lines(events.drop_last());
        let out = stdout_lines(events.drop_last());
        let err = stderr_lines(events.drop_last());
        match events.last() {
            CaptureEventView::StdoutLine(line) => {
                assert(out.push(line).drop_last() =~= out);
            },
            CaptureEventView::StderrLine(line) => {
                assert(err.push(line).drop_last() =~= err);
            },
            _ => {},
        }
    }
}

/// The capture is over exactly once both streams are, whichever is over first;
/// what either has put out until it is over is captured.
pub proof fn law_capture_waits_for_both_streams(events: Seq<CaptureEventView>)
    ensures
        CaptureView::empty().after_all(events).is_over() <==> {
            &&& exists|i: int| 0 <= i < events.len() && (#[trigger] events[i]).ends_stdout()
            &&& exists|i: int| 0 <= i < events.len() && (#[trigger] events[i]).ends_stderr()
        },
        CaptureView::empty().after_all(events).is_over() ==> {
            &&& CaptureView::empty().after_all(events).output == lines_text(stdout_lines(events))
            &&& CaptureView::empty().after_all(events).errors == lines_text(stderr_lines(events))
        },
{
    lemma_streams_over(events);
    law_capture_is_the_lines(events);
}

proof fn lemma_streams_over(events: Seq<CaptureEventView>)
    ensures
        CaptureView::empty().after_all(events).stdout_over <==> exists|i: int|
            0 <= i < events.len() && (#[trigger] events[i]).ends_stdout(),
        CaptureView::empty().after_all(events).stderr_over <==> exists|i: int|
            0 <= i < events.len() && (#[trigger] events[i]).ends_stderr(),
    decreases events.len(),
{
    if events.len() > 0 {
        let front = events.drop_last();
        lemma_streams_over(front);
        assert forall|i: int| 0 <= i < front.len() implies front[i] == #[trigger] events[i] by {}
        let last = events[events.len() - 1];
        if CaptureView::empty().after_all(front).stdout_over {
            let i = choose|i: int| 0 <= i < front.len() && (#[trigger] front[i]).ends_stdout();
            assert(events[i].ends_stdout());
        } else if exists|i: int| 0 <= i < events.len() && (#[trigger] events[i]).ends_stdout() {
            let i = choose|i: int| 0 <= i < events.len() && (#[trigger] events[i]).ends_stdout();
            if i < front.len() {
                assert(front[i].ends_stdout());
            }
        }
        if CaptureView::empty().after_all(front).stderr_over {
            let i = choose|i: int| 0 <= i < front.len() && (#[trigger] front[i]).ends_stderr();
            assert(events[i].ends_stderr());
        } else if exists|i: int| 0 <= i < events.len() && (#[trigger] events[i]).ends_stderr() {
            let i = choose|i: int| 0 <= i < events.len() && (#[trigger] events[i]).ends_stderr();
            if i < front.len() {
                assert(front[i].ends_stderr());
            }
        }
    }
}

/// With and without keeping track of the work the same is captured.
pub proof fn law_progress_does_not_change_the_capture(
    state: ProgressCaptureView,
    event: CaptureEventView,
    now: u128,
)
    ensures
        state.after(event, now).capture == state.capture.after(event),
{
}

/// Only lines on standard output are counted, looked at for files or lead to a
/// report.
pub proof fn law_only_stdout_lines_make_progress(
    state: ProgressCaptureView,
    event: CaptureEventView,
    now: u128,
)
    requires
        !(event is StdoutLine),
    ensures
        state.after(event, now).line_count == state.line_count,
        state.after(event, now).reporter == state.reporter,
        state.report_on(event, now) is None,
{
}

/// A report on a line names the file that the line itself announces.
pub proof fn law_report_knows_its_line(
    state: ProgressCaptureView,
    line: Seq<char>,
    now: u128,
)
    ensures
        state.report_on(CaptureEventView::StdoutLine(line), now) matches Some(report) ==> (
        crate::progress::file_in_line(line) matches Some(file) ==> report.files_modified.contains(
            file,
        )),
{
    if let Some(file) = crate::progress::file_in_line(line) {
        let files = state.reporter.files_modified;
        if !files.contains(file) {
            assert(files.push(file)[files.len() as int] == file);
        }
    }
}

/// An event and the time at which it comes.
pub struct TimedEvent {
    pub event: CaptureEventView,
    pub now: u128,
}

/// Events without their times.
pub open spec fn untimed(events: Seq<TimedEvent>) -> Seq<CaptureEventView> {
    events.map_values(|timed: TimedEvent| timed.event)
}

/// When lines come on standard output.
pub open spec fn stdout_times(events: Seq<TimedEvent>) -> Seq<u128>
    decreases events.len(),
{
    if events.len() == 0 {
        Seq::empty()
    } else if events.last().event is StdoutLine {
        stdout_times(events.drop_last()).push(events.last().now)
    } else {
        stdout_times(events.drop_last())
    }
}

impl ProgressCaptureView {
    /// The capture after some events.
    pub open spec fn after_all(self, events: Seq<TimedEvent>) -> ProgressCaptureView
        decreases events.len(),
    {
        if events.len() == 0 {
            self
        } else {
            self.after_all(events.drop_last()).after(events.last().event, events.last().now)
        }
    }
}

/// Whatever comes and whenever it comes: the files that are tracked are those
/// of the lines on standard output, all of them, and the lines are counted,
/// neither of which depends on the times; what is captured does not depend on
/// them either. Only when reports are made does, by the times of these lines.
pub proof fn law_every_line_is_tracked_whenever_it_comes(
    start: ProgressCaptureView,
    events: Seq<TimedEvent>,
)
    requires
        start.line_count + stdout_lines(untimed(events)).len() <= u32::MAX,
    ensures
        start.after_all(events).reporter.files_modified == crate::progress::after_lines(
            start.reporter.files_modified,
            stdout_lines(untimed(events)),
        ),
        start.after_all(events).line_count == start.line_count + stdout_lines(
            untimed(events),
        ).len(),
        start.after_all(events).capture == start.capture.after_all(untimed(events)),
        start.after_all(events).reporter.last_report == crate::progress::last_time(
            start.reporter.last_report,
            crate::progress::report_times(start.reporter.last_report, stdout_times(events)),
        ),
        start.after_all(events).reporter.transducer_id == start.reporter.transducer_id,
        start.after_all(events).reporter.assignment_id == start.reporter.assignment_id,
    decreases events.len(),
{
    let plain = untimed(events);
    if events.len() == 0 {
        assert(plain =~= Seq::empty());
    } else {
        let front = events.drop_last();
        let lines = stdout_lines(untimed(front));
        assert(plain.drop_last() =~= untimed(front));
        assert(plain.last() == events.last().event);
        law_every_line_is_tracked_whenever_it_comes(start, front);
        if let CaptureEventView::StdoutLine(line) = events.last().event {
            assert(lines.push(line).drop_last() =~= lines);
            let times = stdout_times(front);
            assert(times.push(events.last().now).drop_last() =~= times);
        }
    }
}

/// A line on standard output leads to a report exactly where the last one is
/// ten seconds ago or more. The report repeats the line, counts it, and lists
/// the files with the one that the line announces. Nothing else leads to a
/// report.
pub proof fn law_report_on_a_line(
    state: ProgressCaptureView,
    event: CaptureEventView,
    line: Seq<char>,
    now: u128,
)
    requires
        state.line_count < u32::MAX,
    ensures
        state.report_on(CaptureEventView::StdoutLine(line), now) is Some <==> now
            >= state.reporter.last_report + 10_000_000_000,
        state.report_on(CaptureEventView::StdoutLine(line), now) matches Some(report) ==> {
            &&& report.status_message == line
            &&& report.progress == if state.line_count + 1 <= 9_500 {
                state.line_count + 1
            } else {
                9_500
            }
            &&& report.files_modified == crate::progress::after_line(
                state.reporter.files_modified,
                line,
            )
            &&& report.transducer_id == state.reporter.transducer_id
            &&& report.assignment_id == state.reporter.assignment_id
        },
        !(event is StdoutLine) ==> state.report_on(event, now) is None,
{
}

/// An event changes only the stream that it comes from: a line and a newline
/// are put behind what came before, and a stream that is over stays so.
pub proof fn law_event_changes_its_stream_alone(state: CaptureView, line: Seq<char>)
    ensures
        state.after(CaptureEventView::StdoutLine(line)) == (CaptureView {
            output: state.output + line.push('\n'),
            ..state
        }),
        state.after(CaptureEventView::StderrLine(line)) == (CaptureView {
            errors: state.errors + line.push('\n'),
            ..state
        }),
        state.after(CaptureEventView::StdoutClosed) == (CaptureView { stdout_over: true, ..state }),
        state.after(CaptureEventView::StdoutFailed) == (CaptureView { stdout_over: true, ..state }),
        state.after(CaptureEventView::StderrClosed) == (CaptureView { stderr_over: true, ..state }),
        state.after(CaptureEventView::StderrFailed) == (CaptureView { stderr_over: true, ..state }),
        state.is_over() <==> state.stdout_over && state.stderr_over,
{
    assert(state.output + line + seq!['\n'] =~= state.output + line.push('\n'));
    assert(state.errors + line + seq!['\n'] =~= state.errors + line.push('\n'));
}

/// Events, captures and reports are seen with all that they hold, and another
/// line can be counted as long as the number of lines fits.
pub proof fn law_captures_are_seen_as_they_are(
    line: String,
    capture: Capture,
    paced: ProgressCapture,
    report: ProgressReport,
)
    ensures
        CaptureEvent::StdoutLine(line)@ == CaptureEventView::StdoutLine(line@),
        CaptureEvent::StderrLine(line)@ == CaptureEventView::StderrLine(line@),
        CaptureEvent::StdoutClosed@ == CaptureEventView::StdoutClosed,
        CaptureEvent::StdoutFailed@ == CaptureEventView::StdoutFailed,
        CaptureEvent::StderrClosed@ == CaptureEventView::StderrClosed,
        CaptureEvent::StderrFailed@ == CaptureEventView::StderrFailed,
        capture@.output == capture.output@,
        capture@.errors == capture.errors@,
        capture@.stdout_over == capture.stdout_over,
        capture@.stderr_over == capture.stderr_over,
        paced@.capture == paced.capture@,
        paced@.line_count == paced.line_count,
        paced@.reporter == paced.reporter@,
        paced@.can_count() <==> paced.line_count < u32::MAX,
        report_view(Some(report)) == Some(report@),
        report_view(None) is None,
{
}

} // verus!
