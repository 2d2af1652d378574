//! The tagline normalizer, driven as an explicit state machine.
//!
//! The normalizer produces exactly one tagline per input record, in input
//! order, from the cheapest available source: a cache line loaded at start,
//! or otherwise the language model, retried up to a fixed budget. Newly
//! produced taglines accumulate in a pending buffer that the driver must
//! persist at every batch boundary, so that a crash loses at most one
//! batch's worth of billable calls.
//!
//! The state machine owns every decision; the driver around it performs only
//! the outside work: it asks `next_step` what to do, makes the language-model
//! call when told to, reports the outcome back, and writes the lines of
//! `take_flush` durably to the cache file. `file_view` tracks exactly what a
//! faithful driver has persisted so far.

use vstd::prelude::*;

verus! {

/// Number of records between two cache flushes.
pub const FLUSH_CADENCE: usize = 10;

/// Number of language-model attempts allowed per record.
pub const RETRY_BUDGET: u32 = 10;

/// What the driver must do next.
#[derive(Clone, Copy, PartialEq, Eq, Structural, Debug)]
pub enum Step {
    /// The next record is covered by the cache; call `use_cached`.
    UseCache,
    /// The next record needs the language model; call the model, then report
    /// through `model_succeeded` or `model_failed`.
    CallModel,
    /// A batch boundary was reached: take the lines of `take_flush` and
    /// persist them before anything else.
    Flush,
    /// Every record has a tagline and everything new is flushed.
    Done,
}

/// The views of a sequence of owned strings.
pub open spec fn lines_view(v: Seq<String>) -> Seq<Seq<char>> {
    v.map_values(|s: String| s@)
}

/// State of one normalization run over `total` records.
pub struct Normalizer {
    /// Number of input records.
    pub total: usize,
    /// Cache lines loaded before the run; line `i` is the tagline of record `i`.
    pub cached: Vec<String>,
    /// Taglines decided so far, one per processed record, in input order.
    pub taglines: Vec<String>,
    /// Newly produced taglines not yet flushed to the cache file.
    pub pending: Vec<String>,
    /// Number of newly produced taglines already flushed.
    pub flushed_new: usize,
    /// Language-model attempts left for the record currently being retried.
    pub attempts_left: u32,
}

impl Normalizer {
    /// Number of records processed so far.
    pub open spec fn processed(self) -> int {
        self.taglines@.len() as int
    }

    pub open spec fn cached_view(self) -> Seq<Seq<char>> {
        lines_view(self.cached@)
    }

    pub open spec fn taglines_view(self) -> Seq<Seq<char>> {
        lines_view(self.taglines@)
    }

    pub open spec fn pending_view(self) -> Seq<Seq<char>> {
        lines_view(self.pending@)
    }

    /// The taglines produced by the language model in this run: those beyond
    /// the cached prefix.
    pub open spec fn new_view(self) -> Seq<Seq<char>> {
        if self.taglines@.len() >= self.cached@.len() {
            self.taglines_view().skip(self.cached@.len() as int)
        } else {
            Seq::empty()
        }
    }

    /// What a faithful driver has durably persisted in the cache file: the
    /// lines loaded at start, followed by the flushed part of the new
    /// taglines.
    pub open spec fn file_view(self) -> Seq<Seq<char>> {
        self.cached_view() + self.new_view().take(self.flushed_new as int)
    }

    /// Well-formedness: processing never runs past the input, cached lines
    /// are reused verbatim, and the pending buffer is exactly the unflushed
    /// suffix of the newly produced taglines.
    pub open spec fn wf(self) -> bool {
        &&& self.taglines@.len() <= self.total
        &&& forall|i: int|
            0 <= i < self.taglines@.len() && i < self.cached@.len()
                ==> self.taglines_view()[i] == self.cached_view()[i]
        &&& self.flushed_new <= self.new_view().len()
        &&& self.pending_view() =~= self.new_view().skip(self.flushed_new as int)
        &&& 1 <= self.attempts_left <= RETRY_BUDGET
    }

    /// A flush is owed exactly at a batch boundary — after every
    /// `FLUSH_CADENCE`-th record and after the last — and only while newly
    /// produced taglines are waiting.
    pub open spec fn flush_due(self) -> bool {
        self.pending@.len() > 0 && (self.processed() == self.total || self.processed() % (
        FLUSH_CADENCE as int) == 0)
    }

    /// The decision of the state machine.
    pub open spec fn step_spec(self) -> Step {
        if self.flush_due() {
            Step::Flush
        } else if self.processed() == self.total {
            Step::Done
        } else if self.processed() < self.cached@.len() {
            Step::UseCache
        } else {
            Step::CallModel
        }
    }

    /// Starts a run over `total` records with the cache lines loaded from the
    /// cache file (empty when the file is absent).
    pub fn new(total: usize, cached: Vec<String>) -> (n: Normalizer)
        ensures
            n.wf(),
            n.total == total,
            n.cached_view() == lines_view(cached@),
            n.processed() == 0,
            n.taglines_view() == Seq::<Seq<char>>::empty(),
            n.pending_view() == Seq::<Seq<char>>::empty(),
            n.flushed_new == 0,
            n.file_view() == lines_view(cached@),
    {
        let n = Normalizer {
            total,
            cached,
            taglines: Vec::new(),
            pending: Vec::new(),
            flushed_new: 0,
            attempts_left: RETRY_BUDGET,
        };
        proof {
            assert(n.taglines_view() =~= Seq::<Seq<char>>::empty());
            assert(n.pending_view() =~= Seq::<Seq<char>>::empty());
            assert(n.new_view() =~= Seq::<Seq<char>>::empty());
            assert(n.file_view() =~= n.cached_view());
        }
        n
    }

    /// Tells the driver what to do next.
    pub fn next_step(&self) -> (s: Step)
        ensures
            s == self.step_spec(),
    {
        let processed = self.taglines.len();
        if self.pending.len() > 0 && (processed == self.total || processed % FLUSH_CADENCE == 0) {
            Step::Flush
        } else if processed == self.total {
            Step::Done
        } else if processed < self.cached.len() {
            Step::UseCache
        } else {
            Step::CallModel
        }
    }

    /// Index of the record to be processed next.
    pub fn current_index(&self) -> (i: usize)
        ensures
            i == self.processed(),
    {
        self.taglines.len()
    }

    /// Reuses the cache line of the current record verbatim, with no outside
    /// call.
    pub fn use_cached(&mut self)
        requires
            old(self).wf(),
            old(self).step_spec() == Step::UseCache,
        ensures
            final(self).wf(),
            final(self).processed() == old(self).processed() + 1,
            final(self).taglines_view() == old(self).taglines_view().push(
                old(self).cached_view()[old(self).processed()],
            ),
            final(self).cached_view() == old(self).cached_view(),
            final(self).pending_view() == old(self).pending_view(),
            final(self).flushed_new == old(self).flushed_new,
            final(self).total == old(self).total,
            final(self).file_view() == old(self).file_view(),
    {
        let i = self.taglines.len();
        let line = self.cached[i].clone();
        self.taglines.push(line);
        self.attempts_left = RETRY_BUDGET;
        proof {
            assert(self.taglines_view() =~= old(self).taglines_view().push(
                old(self).cached_view()[old(self).processed()],
            ));
            assert(self.new_view() =~= old(self).new_view());
            assert(self.file_view() =~= old(self).file_view());
            assert(self.pending_view() =~= self.new_view().skip(self.flushed_new as int));
        }
    }

    /// Records a successful language-model answer for the current record: the
    /// tagline joins the output and the pending buffer, and the retry budget
    /// is reset for the next record.
    pub fn model_succeeded(&mut self, tagline: String)
        requires
            old(self).wf(),
            old(self).step_spec() == Step::CallModel,
        ensures
            final(self).wf(),
            final(self).processed() == old(self).processed() + 1,
            final(self).taglines_view() == old(self).taglines_view().push(tagline@),
            final(self).pending_view() == old(self).pending_view().push(tagline@),
            final(self).cached_view() == old(self).cached_view(),
            final(self).flushed_new == old(self).flushed_new,
            final(self).total == old(self).total,
            final(self).file_view() == old(self).file_view(),
    {
        let copy = tagline.clone();
        self.taglines.push(copy);
        self.pending.push(tagline);
        self.attempts_left = RETRY_BUDGET;
        proof {
            assert(self.taglines_view() =~= old(self).taglines_view().push(tagline@));
            assert(self.pending_view() =~= old(self).pending_view().push(tagline@));
            assert(self.new_view() =~= old(self).new_view().push(tagline@));
            assert(self.new_view().take(self.flushed_new as int) =~= old(self).new_view().take(
                old(self).flushed_new as int,
            ));
            assert(self.file_view() =~= old(self).file_view());
            assert(self.pending_view() =~= self.new_view().skip(self.flushed_new as int));
        }
    }

    /// Records a failed language-model attempt for the current record.
    /// Returns `true` exactly when the whole retry budget is now exhausted:
    /// the run must then abort without writing an output artifact. Nothing
    /// already produced or flushed is touched either way.
    pub fn model_failed(&mut self) -> (exhausted: bool)
        requires
            old(self).wf(),
            old(self).step_spec() == Step::CallModel,
        ensures
            final(self).wf(),
            final(self).processed() == old(self).processed(),
            exhausted == (old(self).attempts_left == 1),
            !exhausted ==> final(self).attempts_left == old(self).attempts_left - 1,
            !exhausted ==> final(self).step_spec() == Step::CallModel,
            final(self).taglines_view() == old(self).taglines_view(),
            final(self).pending_view() == old(self).pending_view(),
            final(self).cached_view() == old(self).cached_view(),
            final(self).flushed_new == old(self).flushed_new,
            final(self).total == old(self).total,
            final(self).file_view() == old(self).file_view(),
    {
        if self.attempts_left == 1 {
            true
        } else {
            self.attempts_left = self.attempts_left - 1;
            false
        }
    }

    /// Hands out the full cache-file content owed at a batch boundary: every
    /// line loaded at start followed by every tagline newly produced so far.
    /// The driver must persist the returned lines before going on; the
    /// pending buffer is cleared and counted as flushed.
    pub fn take_flush(&mut self) -> (lines: Vec<String>)
        requires
            old(self).wf(),
            old(self).step_spec() == Step::Flush,
        ensures
            final(self).wf(),
            final(self).processed() == old(self).processed(),
            lines_view(lines@) == old(self).cached_view() + old(self).new_view(),
            final(self).file_view() == lines_view(lines@),
            final(self).taglines_view() == old(self).taglines_view(),
            final(self).cached_view() == old(self).cached_view(),
            final(self).pending_view() == Seq::<Seq<char>>::empty(),
            final(self).flushed_new == old(self).new_view().len(),
            final(self).total == old(self).total,
            final(self).step_spec() != Step::Flush,
    {
        let mut lines: Vec<String> = Vec::new();
        let mut i: usize = 0;
        while i < self.cached.len()
            invariant
                0 <= i <= self.cached@.len(),
                lines@.len() == i,
                forall|k: int| 0 <= k < i ==> #[trigger] lines@[k]@ == self.cached@[k]@,
            decreases self.cached@.len() - i,
        {
            let line = self.cached[i].clone();
            lines.push(line);
            i += 1;
        }
        let mut j: usize = self.cached.len();
        assert(self.taglines@.len() > self.cached@.len());
        while j < self.taglines.len()
            invariant
                self.cached@.len() <= j <= self.taglines@.len(),
                lines@.len() == j,
                forall|k: int|
                    0 <= k < self.cached@.len() ==> #[trigger] lines@[k]@ == self.cached@[k]@,
                forall|k: int|
                    self.cached@.len() <= k < j ==> #[trigger] lines@[k]@ == self.taglines@[k]@,
            decreases self.taglines@.len() - j,
        {
            let line = self.taglines[j].clone();
            lines.push(line);
            j += 1;
        }
        proof {
            assert(lines_view(lines@) =~= self.cached_view() + self.new_view());
        }
        self.flushed_new = self.taglines.len() - self.cached.len();
        self.pending = Vec::new();
        proof {
            assert(self.pending_view() =~= Seq::<Seq<char>>::empty());
            assert(self.pending_view() =~= self.new_view().skip(self.flushed_new as int));
            assert(self.new_view().take(self.flushed_new as int) =~= self.new_view());
            assert(final(self).file_view() =~= lines_view(lines@));
        }
        lines
    }

    /// Finishes the run, handing out the taglines: exactly one per record, in
    /// input order.
    pub fn into_taglines(self) -> (r: Vec<String>)
        requires
            self.wf(),
            self.step_spec() == Step::Done,
        ensures
            lines_view(r@) == self.taglines_view(),
            r@.len() == self.total,
    {
        self.taglines
    }
}

/// Cache idempotence: with a warm cache — at least one cached line per
/// record — the state machine never asks for a language-model call and never
/// owes a flush, and every tagline it has produced is exactly the cached
/// text at the same position.
pub proof fn lemma_warm_cache_no_model_calls(s: Normalizer)
    requires
        s.wf(),
        s.cached@.len() >= s.total,
    ensures
        s.step_spec() != Step::CallModel,
        s.step_spec() != Step::Flush,
        forall|i: int|
            0 <= i < s.taglines_view().len() ==> s.taglines_view()[i] == s.cached_view()[i],
{
    assert(s.new_view().len() == 0);
    assert(s.pending_view() =~= Seq::<Seq<char>>::empty());
}

/// Cache idempotence across runs: a finished run leaves a cache file with at
/// least one line per record, so a second run over the same records, started
/// from those lines, never calls the language model and never flushes, and
/// every tagline it produces is exactly the line the first run left.
pub proof fn lemma_second_run_idempotent(first: Normalizer, second: Normalizer)
    requires
        first.wf(),
        first.step_spec() == Step::Done,
        second.wf(),
        second.total == first.total,
        second.cached_view() == first.file_view(),
    ensures
        second.step_spec() != Step::CallModel,
        second.step_spec() != Step::Flush,
        forall|i: int|
            0 <= i < second.taglines_view().len() ==> second.taglines_view()[i]
                == first.file_view()[i],
{
    lemma_run_complete(first);
    assert(first.file_view().len() >= first.total);
    lemma_warm_cache_no_model_calls(second);
}

/// Partial-resume correctness: the language model is consulted only for
/// records past the cached prefix, a cached record is always served from the
/// cache, the produced taglines agree with the cache on the whole cached
/// prefix, and the cache file keeps the loaded lines untouched, as a prefix,
/// through every flush.
pub proof fn lemma_partial_resume(s: Normalizer)
    requires
        s.wf(),
    ensures
        s.step_spec() == Step::CallModel ==> s.processed() >= s.cached@.len(),
        s.step_spec() == Step::UseCache ==> s.processed() < s.cached@.len(),
        !s.flush_due() && s.processed() < s.total ==> (s.step_spec() == Step::CallModel
            <==> s.processed() >= s.cached@.len()),
        forall|i: int|
            0 <= i < s.taglines_view().len() && i < s.cached_view().len()
                ==> s.taglines_view()[i] == s.cached_view()[i],
        s.file_view().len() >= s.cached_view().len(),
        forall|i: int|
            0 <= i < s.cached_view().len() ==> s.file_view()[i] == s.cached_view()[i],
{
}

/// Batch flush boundary: a flush is owed exactly when newly produced
/// taglines are waiting and the count of processed records is the total or a
/// multiple of the cadence; afterwards the file holds the loaded lines
/// followed by every tagline newly produced so far.
pub proof fn lemma_flush_boundary(s: Normalizer)
    requires
        s.wf(),
    ensures
        (s.step_spec() == Step::Flush) <==> (s.pending_view().len() > 0 && (s.processed()
            == s.total || s.processed() % (FLUSH_CADENCE as int) == 0)),
        s.flushed_new == s.new_view().len() ==> s.file_view() =~= s.cached_view() + s.new_view(),
{
}

/// A finished run has produced exactly one tagline per input record, holds
/// nothing unflushed, and its cache file carries the loaded lines followed
/// by every newly produced tagline.
pub proof fn lemma_run_complete(s: Normalizer)
    requires
        s.wf(),
        s.step_spec() == Step::Done,
    ensures
        s.taglines_view().len() == s.total,
        s.pending_view().len() == 0,
        s.file_view() =~= s.cached_view() + s.new_view(),
{
}

} // verus!
