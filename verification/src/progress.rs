use vstd::prelude::*;

verus! {

/// How progress is displayed, chosen once at construction: a bounded bar
/// when the total size is known, an indeterminate spinner when it is not,
/// and a hidden sink in quiet mode.
#[derive(Clone, Copy, Debug, PartialEq, Eq, Structural)]
pub enum ProgressMode {
    Hidden,
    Bounded(u64),
    Indeterminate,
}

/// The display mode a reporter gets from the quiet flag and the optional
/// total-size hint: quiet always hides it; otherwise a known total gives a
/// bounded bar and an unknown one a spinner.
pub open spec fn spec_mode(quiet: bool, total: Option<u64>) -> ProgressMode {
    if quiet {
        ProgressMode::Hidden
    } else {
        match total {
            Some(t) => ProgressMode::Bounded(t),
            None => ProgressMode::Indeterminate,
        }
    }
}

/// The progress reporter: it tracks the cumulative number of bytes
/// advanced and whether it has been finished. Its life is a straight line:
/// created, advanced any number of times, then finished exactly once;
/// nothing may be advanced after the finish.
pub struct ProgressReporter {
    mode: ProgressMode,
    advanced: u64,
    finished: bool,
}

impl ProgressReporter {
    /// The display mode fixed at construction.
    pub closed spec fn mode_spec(self) -> ProgressMode {
        self.mode
    }

    /// The cumulative advance in bytes.
    pub closed spec fn advanced_spec(self) -> u64 {
        self.advanced
    }

    /// Whether the reporter has reached its terminal state.
    pub closed spec fn finished_spec(self) -> bool {
        self.finished
    }

    /// Creates a reporter in its initial state, with the mode chosen from
    /// the quiet flag and the total-size hint.
    pub fn new(quiet: bool, total: Option<u64>) -> (r: Self)
        ensures
            r.mode_spec() == spec_mode(quiet, total),
            r.advanced_spec() == 0,
            !r.finished_spec(),
    {
        let mode = if quiet {
            ProgressMode::Hidden
        } else {
            match total {
                Some(t) => ProgressMode::Bounded(t),
                None => ProgressMode::Indeterminate,
            }
        };
        ProgressReporter { mode, advanced: 0, finished: false }
    }

    /// Records `n` more bytes of progress; only valid before the finish.
    pub fn advance(&mut self, n: u64)
        requires
            !old(self).finished_spec(),
            old(self).advanced_spec() + n <= u64::MAX,
        ensures
            final(self).mode_spec() == old(self).mode_spec(),
            final(self).advanced_spec() == old(self).advanced_spec() + n,
            !final(self).finished_spec(),
    {
        self.advanced = self.advanced + n;
    }

    /// Moves the reporter to its terminal state; valid exactly once.
    pub fn finish(&mut self)
        requires
            !old(self).finished_spec(),
        ensures
            final(self).mode_spec() == old(self).mode_spec(),
            final(self).advanced_spec() == old(self).advanced_spec(),
            final(self).finished_spec(),
    {
        self.finished = true;
    }

    /// The display mode, for whoever renders the progress.
    pub fn mode(&self) -> (m: ProgressMode)
        ensures
            m == self.mode_spec(),
    {
        self.mode
    }

    /// The cumulative advance so far.
    pub fn advanced(&self) -> (n: u64)
        ensures
            n == self.advanced_spec(),
    {
        self.advanced
    }

    /// Whether the reporter has been finished.
    pub fn is_finished(&self) -> (b: bool)
        ensures
            b == self.finished_spec(),
    {
        self.finished
    }
}

} // verus!
