use crate::progress::{rounded_percent, Progress, WHOLE};
use crate::text::{append_decimal, decimal_text};
use vstd::prelude::*;
use vstd::string::StringExecFns;

verus! {

/// The message of a runner that has not been asked for anything yet.
pub const IDLE: &'static str = "Idle";

/// The message from the start of a job until its first progress report.
pub const STARTING: &'static str = "Starting download…";

/// The message of a job whose downloader could not be started.
pub const LAUNCH_FAILED: &'static str = "Failed to start yt-dlp";

/// What stands before the percentage in the message of a running job.
pub const DOWNLOADING: &'static str = "Downloading… ";

/// What stands after the percentage in the message of a running job.
pub const PERCENT: &'static str = "%";

/// The message of a job whose downloader exited with success.
pub const COMPLETED: &'static str = "✅ Download completed";

/// The message of a job whose downloader exited without success.
pub const FAILED: &'static str = "❌ Download failed";

/// The status of a job that has reported `percent` percent.
pub open spec fn downloading_text(percent: nat) -> Seq<char> {
    DOWNLOADING@ + decimal_text(percent) + PERCENT@
}

/// The status of a job whose downloader exited, with or without success.
pub open spec fn finished_text(success: bool) -> Seq<char> {
    if success {
        COMPLETED@
    } else {
        FAILED@
    }
}

/// Whether `text` is one of the messages that a runner shows, whole.
pub open spec fn is_status_text(text: Seq<char>) -> bool {
    ||| text == IDLE@
    ||| text == STARTING@
    ||| text == LAUNCH_FAILED@
    ||| text == COMPLETED@
    ||| text == FAILED@
    ||| exists|percent: nat| percent <= 100 && text == #[trigger] downloading_text(percent)
}

/// What a job state holds, as plain values.
pub struct StateView {
    pub status_text: Seq<char>,
    pub progress: nat,
}

impl StateView {
    /// Whether the state is one that a runner can show: a whole message and a
    /// progress between nothing and everything.
    pub open spec fn valid(self) -> bool {
        is_status_text(self.status_text) && self.progress <= WHOLE
    }
}

/// What observers see of the current job: a message and the share done.
#[derive(Debug)]
pub struct JobState {
    status_text: String,
    progress: Progress,
}

impl View for JobState {
    type V = StateView;

    closed spec fn view(&self) -> StateView {
        StateView { status_text: self.status_text@, progress: self.progress@ }
    }
}

impl Clone for JobState {
    fn clone(&self) -> (r: Self)
        ensures
            r@ == self@,
    {
        proof {
            use_type_invariant(self);
        }
        JobState { status_text: self.status_text.clone(), progress: self.progress }
    }
}

impl JobState {
    #[verifier::type_invariant]
    pub(crate) open spec fn shows_valid(self) -> bool {
        self@.valid()
    }

    /// The state before any job.
    pub fn idle() -> (s: JobState)
        ensures
            s@ == (StateView { status_text: IDLE@, progress: 0 }),
    {
        JobState { status_text: String::from_str(IDLE), progress: Progress::zero() }
    }

    /// The state of a job that has just been started.
    pub fn starting() -> (s: JobState)
        ensures
            s@ == (StateView { status_text: STARTING@, progress: 0 }),
    {
        JobState { status_text: String::from_str(STARTING), progress: Progress::zero() }
    }

    /// The state of a job that has reported `progress`.
    pub fn downloading(progress: Progress) -> (s: JobState)
        ensures
            s@ == (StateView {
                status_text: downloading_text(rounded_percent(progress@)),
                progress: progress@,
            }),
    {
        let percent: u32 = progress.percent();
        let mut text = String::from_str(DOWNLOADING);
        append_decimal(&mut text, percent);
        text.append(PERCENT);
        proof {
            use_type_invariant(&progress);
        }
        JobState { status_text: text, progress }
    }

    /// This state with the message of a downloader that could not be started.
    pub fn launch_failed(&self) -> (s: JobState)
        ensures
            s@ == (StateView { status_text: LAUNCH_FAILED@, ..self@ }),
    {
        proof {
            use_type_invariant(self);
        }
        JobState { status_text: String::from_str(LAUNCH_FAILED), progress: self.progress }
    }

    /// This state with the message of a downloader that has exited.
    pub fn finished(&self, success: bool) -> (s: JobState)
        ensures
            s@ == (StateView { status_text: finished_text(success), ..self@ }),
    {
        let text = if success {
            String::from_str(COMPLETED)
        } else {
            String::from_str(FAILED)
        };
        proof {
            use_type_invariant(self);
        }
        JobState { status_text: text, progress: self.progress }
    }

    /// The message to show.
    pub fn status_text(&self) -> (s: &str)
        ensures
            s@ == self@.status_text,
            is_status_text(s@),
    {
        proof {
            use_type_invariant(self);
        }
        self.status_text.as_str()
    }

    /// The share of the job that is done.
    pub fn progress(&self) -> (p: Progress)
        ensures
            p@ == self@.progress,
            p@ <= WHOLE,
    {
        proof {
            use_type_invariant(self);
        }
        self.progress
    }
}

} // verus!
