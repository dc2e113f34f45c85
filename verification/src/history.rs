//! The CPU usage history drawn as the overlay's graph: a fixed-length window
//! of the most recent samples.
use vstd::prelude::*;
use std::collections::VecDeque;

verus! {

/// The number of samples the graph shows.
pub const MAX_HISTORY: usize = 60;

/// The most recent `MAX_HISTORY` samples, oldest first. Until the first
/// sample arrives the window holds a placeholder value; the first sample then
/// fills the whole window.
pub struct CpuHistory<T> {
    samples: VecDeque<T>,
    started: bool,
}

impl<T> View for CpuHistory<T> {
    type V = Seq<T>;

    closed spec fn view(&self) -> Seq<T> {
        self.samples@
    }
}

/// The window after recording `sample`: the first sample fills the whole
/// window; a later one pushes out the oldest sample and becomes the newest.
pub open spec fn after_sample<T>(window: Seq<T>, started: bool, sample: T) -> Seq<T> {
    if started {
        window.drop_first().push(sample)
    } else {
        Seq::new(MAX_HISTORY as nat, |i: int| sample)
    }
}

/// The window after recording `samples` in order, starting from `window`
/// (`started` telling whether a sample had been recorded before).
pub open spec fn after_samples<T>(window: Seq<T>, started: bool, samples: Seq<T>) -> Seq<T>
    decreases samples.len(),
{
    if samples.len() == 0 {
        window
    } else {
        after_sample(
            after_samples(window, started, samples.drop_last()),
            started || samples.len() > 1,
            samples.last(),
        )
    }
}

impl<T: Copy> CpuHistory<T> {
    /// The window holds exactly `MAX_HISTORY` samples.
    pub closed spec fn wf(self) -> bool {
        self.samples@.len() == MAX_HISTORY
    }

    /// Whether a sample has been recorded yet.
    pub closed spec fn has_started(self) -> bool {
        self.started
    }

    /// A well-formed history always holds exactly `MAX_HISTORY` samples.
    pub proof fn lemma_window_length(self)
        requires
            self.wf(),
        ensures
            self@.len() == MAX_HISTORY,
    {
    }

    /// A window of `MAX_HISTORY` copies of `placeholder`, with nothing
    /// recorded yet.
    pub fn new(placeholder: T) -> (h: CpuHistory<T>)
        ensures
            h.wf(),
            h@ == Seq::new(MAX_HISTORY as nat, |i: int| placeholder),
            !h.has_started(),
    {
        let mut samples: VecDeque<T> = VecDeque::new();
        Self::fill(&mut samples, placeholder);
        CpuHistory { samples, started: false }
    }

    fn fill(samples: &mut VecDeque<T>, value: T)
        ensures
            final(samples)@ == Seq::new(MAX_HISTORY as nat, |i: int| value),
    {
        samples.clear();
        for i in 0..MAX_HISTORY
            invariant
                samples@ == Seq::new(i as nat, |k: int| value),
        {
            samples.push_back(value);
            assert(samples@ =~= Seq::new((i + 1) as nat, |k: int| value));
        }
    }

    /// Records a sample. The first sample fills the whole window with
    /// itself; later samples push out the oldest one and become the newest.
    pub fn record(&mut self, sample: T)
        requires
            old(self).wf(),
        ensures
            final(self).wf(),
            final(self).has_started(),
            final(self)@ == after_sample(old(self)@, old(self).has_started(), sample),
    {
        if !self.started {
            Self::fill(&mut self.samples, sample);
            self.started = true;
        } else {
            self.samples.pop_front();
            self.samples.push_back(sample);
            assert(self.samples@ =~= old(self)@.drop_first().push(sample));
        }
    }

    /// The sample at position `i`, oldest first.
    pub fn sample(&self, i: usize) -> (s: T)
        requires
            self.wf(),
            i < MAX_HISTORY,
        ensures
            s == self@[i as int],
    {
        self.samples[i]
    }

    /// The samples, oldest first.
    pub fn samples(&self) -> (s: Vec<T>)
        requires
            self.wf(),
        ensures
            s@ == self@,
    {
        let mut s: Vec<T> = Vec::new();
        for i in 0..MAX_HISTORY
            invariant
                self.wf(),
                s@ == self@.subrange(0, i as int),
        {
            s.push(self.samples[i]);
            assert(s@ =~= self@.subrange(0, i + 1));
        }
        assert(s@ =~= self@);
        s
    }
}

/// However the history started, after `n >= 1` recorded samples it still
/// holds exactly `MAX_HISTORY` samples, and its last `min(n, MAX_HISTORY)`
/// entries are the last `min(n, MAX_HISTORY)` samples recorded, in order.
pub proof fn history_keeps_latest_samples<T>(window: Seq<T>, started: bool, samples: Seq<T>)
    requires
        window.len() == MAX_HISTORY,
        samples.len() >= 1,
    ensures
        after_samples(window, started, samples).len() == MAX_HISTORY,
        forall|k: int|
            0 <= k < samples.len() && k < MAX_HISTORY ==> #[trigger] after_samples(
                window,
                started,
                samples,
            )[MAX_HISTORY - 1 - k] == samples[samples.len() - 1 - k],
    decreases samples.len(),
{
    let n = samples.len();
    let last = samples.last();
    let now = after_samples(window, started, samples);
    if n == 1 {
        assert(after_samples(window, started, samples.drop_last()) == window);
        assert(now == after_sample(window, started, last));
        assert(now.len() == MAX_HISTORY);
        assert(now[MAX_HISTORY - 1] == last);
    } else {
        let before = samples.drop_last();
        history_keeps_latest_samples(window, started, before);
        let prev = after_samples(window, started, before);
        assert(now == prev.drop_first().push(last));
        assert forall|k: int| 0 <= k < n && k < MAX_HISTORY implies #[trigger] now[MAX_HISTORY
            - 1 - k] == samples[n - 1 - k] by {
            if k > 0 {
                assert(now[MAX_HISTORY - 1 - k] == prev[MAX_HISTORY - 1 - (k - 1)]);
                assert(prev[MAX_HISTORY - 1 - (k - 1)] == before[before.len() - 1 - (k - 1)]);
            }
        }
    }
}

} // verus!
