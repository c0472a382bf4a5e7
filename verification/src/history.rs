use vstd::prelude::*;

verus! {

/// The word for a job that ended with success.
pub const COMPLETED_LABEL: &'static str = "Completed";

/// The word for a job that ended without success.
pub const FAILED_LABEL: &'static str = "Failed";

/// How a job ended.
#[derive(Clone, Copy, Debug, PartialEq, Eq, Structural)]
pub enum Outcome {
    /// The downloader ran and exited with success.
    Completed,
    /// The downloader ran and did not exit with success.
    Failed,
}

impl Outcome {
    /// The outcome of a job whose process exited with or without success.
    pub open spec fn of_exit(success: bool) -> Outcome {
        if success {
            Outcome::Completed
        } else {
            Outcome::Failed
        }
    }

    /// The word that a listing shows for the outcome.
    pub open spec fn label_text(self) -> Seq<char> {
        match self {
            Outcome::Completed => COMPLETED_LABEL@,
            Outcome::Failed => FAILED_LABEL@,
        }
    }

    /// The outcome of a job whose process exited with or without success.
    pub fn from_exit(success: bool) -> (o: Outcome)
        ensures
            o == Outcome::of_exit(success),
    {
        if success {
            Outcome::Completed
        } else {
            Outcome::Failed
        }
    }

    /// The word that a listing shows for the outcome.
    pub fn label(&self) -> (s: &'static str)
        ensures
            s@ == self.label_text(),
    {
        match self {
            Outcome::Completed => COMPLETED_LABEL,
            Outcome::Failed => FAILED_LABEL,
        }
    }
}

/// What a history entry holds, as plain values.
pub struct HistoryEntryView {
    pub url: Seq<char>,
    pub format_label: Seq<char>,
    pub outcome: Outcome,
}

/// The record of one finished job. It is made once and never changes.
#[derive(Debug, PartialEq, Eq)]
pub struct HistoryEntry {
    url: String,
    format_label: String,
    outcome: Outcome,
}

impl View for HistoryEntry {
    type V = HistoryEntryView;

    closed spec fn view(&self) -> HistoryEntryView {
        HistoryEntryView {
            url: self.url@,
            format_label: self.format_label@,
            outcome: self.outcome,
        }
    }
}

impl Clone for HistoryEntry {
    fn clone(&self) -> (r: Self)
        ensures
            r@ == self@,
    {
        HistoryEntry {
            url: self.url.clone(),
            format_label: self.format_label.clone(),
            outcome: self.outcome,
        }
    }
}

impl HistoryEntry {
    /// The record of a job for `url` in the format that `format_label` names.
    pub fn new(url: String, format_label: String, outcome: Outcome) -> (e: HistoryEntry)
        ensures
            e@ == (HistoryEntryView { url: url@, format_label: format_label@, outcome }),
    {
        HistoryEntry { url, format_label, outcome }
    }

    /// The address that the job was for.
    pub fn url(&self) -> (s: &str)
        ensures
            s@ == self@.url,
    {
        self.url.as_str()
    }

    /// The name of the format that the job asked for.
    pub fn format_label(&self) -> (s: &str)
        ensures
            s@ == self@.format_label,
    {
        self.format_label.as_str()
    }

    /// How the job ended.
    pub fn outcome(&self) -> (o: Outcome)
        ensures
            o == self@.outcome,
    {
        self.outcome
    }
}

/// What each of the entries `s` holds, in the same order.
pub open spec fn entry_views(s: Seq<HistoryEntry>) -> Seq<HistoryEntryView> {
    s.map_values(|e: HistoryEntry| e@)
}

/// The finished jobs, oldest first. Entries are only ever added, at the end.
#[derive(Debug)]
pub struct JobHistory {
    entries: Vec<HistoryEntry>,
}

impl View for JobHistory {
    type V = Seq<HistoryEntryView>;

    closed spec fn view(&self) -> Seq<HistoryEntryView> {
        entry_views(self.entries@)
    }
}

impl JobHistory {
    /// A history without entries.
    pub fn new() -> (h: JobHistory)
        ensures
            h@ == Seq::<HistoryEntryView>::empty(),
    {
        let h = JobHistory { entries: Vec::new() };
        assert(h@ =~= Seq::<HistoryEntryView>::empty());
        h
    }

    /// Adds `entry` as the newest.
    pub fn append(&mut self, entry: HistoryEntry)
        ensures
            final(self)@ == old(self)@.push(entry@),
    {
        self.entries.push(entry);
        assert(self@ =~= old(self)@.push(entry@));
    }

    /// The number of entries.
    pub fn len(&self) -> (n: usize)
        ensures
            n == self@.len(),
    {
        self.entries.len()
    }

    /// Whether there is no entry.
    pub fn is_empty(&self) -> (b: bool)
        ensures
            b == (self@.len() == 0),
    {
        self.entries.len() == 0
    }

    /// The entry at place `i`, counted from the oldest; none from `len()` on.
    pub fn get(&self, i: usize) -> (e: Option<&HistoryEntry>)
        ensures
            i < self@.len() ==> e is Some && e->0@ == self@[i as int],
            i >= self@.len() ==> e is None,
    {
        if i < self.entries.len() {
            Some(&self.entries[i])
        } else {
            None
        }
    }

    /// A copy of the entries, oldest first.
    pub fn snapshot(&self) -> (v: Vec<HistoryEntry>)
        ensures
            entry_views(v@) == self@,
    {
        let mut v: Vec<HistoryEntry> = Vec::new();
        let mut i: usize = 0;
        while i < self.entries.len()
            invariant
                i <= self.entries.len(),
                v@.len() == i,
                forall|j: int| 0 <= j < i ==> (#[trigger] v@[j])@ == self.entries@[j]@,
            decreases self.entries.len() - i,
        {
            let e = self.entries[i].clone();
            v.push(e);
            i += 1;
        }
        assert(entry_views(v@) =~= entry_views(self.entries@));
        v
    }

    /// A copy of the entries, newest first.
    pub fn newest_first(&self) -> (v: Vec<HistoryEntry>)
        ensures
            entry_views(v@) == self@.reverse(),
    {
        let n: usize = self.entries.len();
        let mut v: Vec<HistoryEntry> = Vec::new();
        let mut i: usize = n;
        while i > 0
            invariant
                i <= n,
                n == self.entries.len(),
                v@.len() == n - i,
                forall|j: int| 0 <= j < n - i ==> (#[trigger] v@[j])@ == self.entries@[n - 1 - j]@,
            decreases i,
        {
            i -= 1;
            let e = self.entries[i].clone();
            v.push(e);
        }
        assert(entry_views(v@) =~= entry_views(self.entries@).reverse());
        v
    }
}

} // verus!
