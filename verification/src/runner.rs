use crate::history::{HistoryEntry, HistoryEntryView, JobHistory, Outcome};
use crate::progress::{line_progress, parse_progress, rounded_percent};
use crate::request::{
    arguments, DownloadRequest, Invocation, InvocationView, RequestView, PROGRAM,
};
use crate::state::{
    downloading_text, finished_text, is_status_text, JobState, StateView, IDLE, LAUNCH_FAILED,
    STARTING,
};
use vstd::prelude::*;
use vstd::string::StringExecFns;

verus! {

/// What happened to the downloader of the job in flight.
#[derive(Debug)]
pub enum JobEvent {
    /// The downloader could not be started.
    LaunchFailed,
    /// The downloader wrote one line to its standard output.
    OutputLine(String),
    /// The downloader has exited.
    Exited { success: bool },
}

/// What an event holds, as plain values.
pub enum EventView {
    LaunchFailed,
    OutputLine(Seq<char>),
    Exited { success: bool },
}

impl View for JobEvent {
    type V = EventView;

    open spec fn view(&self) -> EventView {
        match self {
            JobEvent::LaunchFailed => EventView::LaunchFailed,
            JobEvent::OutputLine(line) => EventView::OutputLine(line@),
            JobEvent::Exited { success } => EventView::Exited { success: *success },
        }
    }
}

/// What a runner holds, as plain values: the state that observers see, the
/// finished jobs, and the request of the job in flight, if one is.
pub struct RunnerView {
    pub state: StateView,
    pub history: Seq<HistoryEntryView>,
    pub current: Option<RequestView>,
}

/// The history entry of a job for `request` whose downloader has exited.
pub open spec fn entry_of(request: RequestView, success: bool) -> HistoryEntryView {
    HistoryEntryView {
        url: request.url,
        format_label: request.format.label_text(),
        outcome: Outcome::of_exit(success),
    }
}

impl RunnerView {
    /// A runner that has not been asked for anything yet.
    pub open spec fn initial() -> RunnerView {
        RunnerView {
            state: StateView { status_text: IDLE@, progress: 0 },
            history: Seq::empty(),
            current: None,
        }
    }

    /// Whether a job is in flight.
    pub open spec fn busy(self) -> bool {
        self.current is Some
    }

    /// The runner after it was asked to start a job for `request`: unchanged
    /// while another job is in flight, else with that job in flight and the
    /// state reset.
    pub open spec fn started(self, request: RequestView) -> RunnerView {
        if self.busy() {
            self
        } else {
            RunnerView {
                state: StateView { status_text: STARTING@, progress: 0 },
                current: Some(request),
                ..self
            }
        }
    }

    /// The runner after `event`. With no job in flight nothing changes. A
    /// failed launch ends the job with its message and without a history
    /// entry. A line that reports progress sets the progress and its message;
    /// any other line changes nothing. An exit ends the job with its message
    /// and one history entry.
    pub open spec fn step(self, event: EventView) -> RunnerView {
        match self.current {
            None => self,
            Some(request) => match event {
                EventView::LaunchFailed => RunnerView {
                    state: StateView { status_text: LAUNCH_FAILED@, ..self.state },
                    current: None,
                    ..self
                },
                EventView::OutputLine(line) => match line_progress(line) {
                    Some(parts) => RunnerView {
                        state: StateView {
                            status_text: downloading_text(rounded_percent(parts)),
                            progress: parts,
                        },
                        ..self
                    },
                    None => self,
                },
                EventView::Exited { success } => RunnerView {
                    state: StateView { status_text: finished_text(success), ..self.state },
                    history: self.history.push(entry_of(request, success)),
                    current: None,
                },
            },
        }
    }
}

/// Runs one download job at a time and keeps what observers see of it. The
/// caller starts the downloader with the command that `start` hands out and
/// reports what the downloader does through `handle`.
#[derive(Debug)]
pub struct JobRunner {
    state: JobState,
    history: JobHistory,
    current: Option<DownloadRequest>,
}

impl View for JobRunner {
    type V = RunnerView;

    closed spec fn view(&self) -> RunnerView {
        RunnerView {
            state: self.state@,
            history: self.history@,
            current: match self.current {
                Some(request) => Some(request@),
                None => None,
            },
        }
    }
}

impl JobRunner {
    /// A runner with no job in flight, an idle state and an empty history.
    pub fn new() -> (r: JobRunner)
        ensures
            r@ == RunnerView::initial(),
            r@.state.valid(),
    {
        JobRunner { state: JobState::idle(), history: JobHistory::new(), current: None }
    }

    /// What observers see of the current job.
    pub fn state(&self) -> (s: &JobState)
        ensures
            s@ == self@.state,
            s@.valid(),
    {
        proof {
            use_type_invariant(&self.state);
        }
        &self.state
    }

    /// The finished jobs.
    pub fn history(&self) -> (h: &JobHistory)
        ensures
            h@ == self@.history,
    {
        &self.history
    }

    /// Whether a job is in flight.
    pub fn is_busy(&self) -> (b: bool)
        ensures
            b == self@.busy(),
    {
        self.current.is_some()
    }

    /// Asks for a job. While another job is in flight the request is turned
    /// down: the result is nothing and the runner does not change. Else the
    /// job is in flight from now on, the state is reset, and the result is
    /// the command that the caller is to run for it.
    pub fn start(&mut self, request: DownloadRequest) -> (command: Option<Invocation>)
        ensures
            final(self)@ == old(self)@.started(request@),
            final(self)@.state.valid(),
            command is Some <==> !old(self)@.busy(),
            command matches Some(c) ==> c@ == (InvocationView {
                program: PROGRAM@,
                args: arguments(request@),
            }),
    {
        if self.current.is_some() {
            proof {
                use_type_invariant(&self.state);
            }
            return None;
        }
        let command = request.invocation();
        self.state = JobState::starting();
        self.current = Some(request);
        Some(command)
    }

    /// Takes in what the downloader of the job in flight did.
    pub fn handle(&mut self, event: &JobEvent)
        ensures
            final(self)@ == old(self)@.step(event@),
            final(self)@.state.valid(),
    {
        proof {
            use_type_invariant(&self.state);
            lemma_step_valid(self@, event@);
        }
        match self.current.take() {
            None => {},
            Some(request) => match event {
                JobEvent::LaunchFailed => {
                    self.state = self.state.launch_failed();
                },
                JobEvent::OutputLine(line) => {
                    match parse_progress(line.as_str()) {
                        Some(p) => {
                            self.state = JobState::downloading(p);
                        },
                        None => {},
                    }
                    self.current = Some(request);
                },
                JobEvent::Exited { success } => {
                    let entry = HistoryEntry::new(
                        String::from_str(request.url()),
                        String::from_str(request.format().label()),
                        Outcome::from_exit(*success),
                    );
                    self.history.append(entry);
                    self.state = self.state.finished(*success);
                },
            },
        }
    }
}

/// The runner `s` after the downloader wrote `lines`, one after the other.
pub open spec fn after_lines(s: RunnerView, lines: Seq<Seq<char>>) -> RunnerView
    decreases lines.len(),
{
    if lines.len() == 0 {
        s
    } else {
        after_lines(s, lines.drop_last()).step(EventView::OutputLine(lines.last()))
    }
}

/// What the last of `lines` that reports progress reports, if one does.
pub open spec fn last_report(lines: Seq<Seq<char>>) -> Option<nat>
    decreases lines.len(),
{
    if lines.len() == 0 {
        None
    } else {
        match line_progress(lines.last()) {
            Some(parts) => Some(parts),
            None => last_report(lines.drop_last()),
        }
    }
}

/// A new runner shows a valid state.
pub proof fn lemma_initial_valid()
    ensures
        RunnerView::initial().state.valid(),
{
}

/// Asking for a job keeps the state valid.
pub proof fn lemma_started_valid(s: RunnerView, request: RequestView)
    requires
        s.state.valid(),
    ensures
        s.started(request).state.valid(),
{
}

/// Whatever the downloader does, the state stays valid: the message is a
/// whole one and the progress is between nothing and everything.
pub proof fn lemma_step_valid(s: RunnerView, event: EventView)
    requires
        s.state.valid(),
    ensures
        s.step(event).state.valid(),
{
    if s.busy() {
        if let EventView::OutputLine(line) = event {
            if let Some(parts) = line_progress(line) {
                let percent = rounded_percent(parts);
                assert(percent <= 100);
                assert(is_status_text(downloading_text(percent)));
            }
        }
    }
}

/// The history changes only when the downloader of the job in flight exits,
/// and then by exactly one entry at its end: that of the job.
pub proof fn lemma_history_grows_by_exits(s: RunnerView, event: EventView)
    ensures
        s.step(event).history == if s.busy() && event is Exited {
            s.history.push(entry_of(s.current->0, event->success))
        } else {
            s.history
        },
        s.step(event).history.len() == s.history.len() + if s.busy() && event is Exited {
            1nat
        } else {
            0nat
        },
{
}

/// Asking for a job leaves the history as it is.
pub proof fn lemma_start_keeps_history(s: RunnerView, request: RequestView)
    ensures
        s.started(request).history == s.history,
{
}

/// Output lines leave the history and the job in flight as they are. The
/// progress is what the last reporting line reported, with its message; the
/// state is unchanged where no line reported.
pub proof fn lemma_after_lines(s: RunnerView, lines: Seq<Seq<char>>)
    requires
        s.busy(),
    ensures
        after_lines(s, lines).history == s.history,
        after_lines(s, lines).current == s.current,
        after_lines(s, lines).state == (match last_report(lines) {
            Some(parts) => StateView {
                status_text: downloading_text(rounded_percent(parts)),
                progress: parts,
            },
            None => s.state,
        }),
    decreases lines.len(),
{
    if lines.len() > 0 {
        lemma_after_lines(s, lines.drop_last());
    }
}

/// A job that is started while none is in flight, whose downloader writes
/// `lines` and then exits, leaves exactly one new history entry, with the
/// job's address, format and outcome. The runner is free again, shows the
/// message of the outcome, and the progress that the last reporting line
/// reported: nothing where none did.
pub proof fn lemma_job_to_exit(
    s: RunnerView,
    request: RequestView,
    lines: Seq<Seq<char>>,
    success: bool,
)
    requires
        !s.busy(),
    ensures
        ({
            let end = after_lines(s.started(request), lines).step(EventView::Exited { success });
            &&& end.history == s.history.push(entry_of(request, success))
            &&& !end.busy()
            &&& end.state.status_text == finished_text(success)
            &&& end.state.progress == match last_report(lines) {
                Some(parts) => parts,
                None => 0,
            }
        }),
{
    lemma_after_lines(s.started(request), lines);
}

/// A job whose downloader cannot be started leaves no history entry. The
/// runner is free again and shows the message of the failed launch.
pub proof fn lemma_failed_launch(s: RunnerView, request: RequestView)
    requires
        !s.busy(),
    ensures
        ({
            let end = s.started(request).step(EventView::LaunchFailed);
            &&& end.history == s.history
            &&& !end.busy()
            &&& end.state == StateView { status_text: LAUNCH_FAILED@, progress: 0 }
        }),
{
}

/// While a job is in flight, asking for another changes nothing.
pub proof fn lemma_busy_turns_down(s: RunnerView, request: RequestView)
    requires
        s.busy(),
    ensures
        s.started(request) == s,
{
}

} // verus!
