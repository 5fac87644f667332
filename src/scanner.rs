use vstd::prelude::*;

use crate::source::{strictly_increasing, BlockSource};
use crate::types::{BlockHeight, BlockResult, FetchError, Log, ScanConfig, ScanError};

verus! {

/// A height in the scan window: the attempts made for it so far and, once
/// known, its result.
pub struct WindowSlot {
    pub height: BlockHeight,
    pub attempts: u32,
    pub result: Option<BlockResult>,
}

impl WindowSlot {
    pub open spec fn consistent(&self, max_attempts: nat) -> bool {
        &&& 1 <= self.attempts <= max_attempts
        &&& self.result matches Some(r) ==> r.spec_height() == self.height
    }
}

pub open spec fn slot_heights(w: Seq<WindowSlot>) -> Seq<u64> {
    w.map_values(|s: WindowSlot| s.height)
}

/// How many slots of the window still wait for their fetch.
pub open spec fn in_flight_count(w: Seq<WindowSlot>) -> nat
    decreases w.len(),
{
    if w.len() == 0 {
        0
    } else {
        in_flight_count(w.drop_last()) + if w.last().result is None {
            1nat
        } else {
            0nat
        }
    }
}

/// The slot of a height whose first fetch has just been launched.
pub open spec fn fresh_slot(height: BlockHeight) -> WindowSlot {
    WindowSlot { height, attempts: 1, result: None }
}

/// What one reported fetch outcome does to the slot of its height: a success
/// or a permanent error settles it; a transient error is retried while
/// attempts are left, and settles it as a failure once they are spent.
pub open spec fn settle_slot(
    slot: WindowSlot,
    outcome: Result<Vec<Log>, FetchError>,
    max_attempts: nat,
) -> WindowSlot {
    match outcome {
        Ok(logs) => WindowSlot {
            height: slot.height,
            attempts: slot.attempts,
            result: Some(BlockResult::Success { height: slot.height, logs }),
        },
        Err(FetchError::Permanent) => WindowSlot {
            height: slot.height,
            attempts: slot.attempts,
            result: Some(BlockResult::Failure { height: slot.height, error: FetchError::Permanent }),
        },
        Err(FetchError::Transient) => if slot.attempts < max_attempts {
            WindowSlot { height: slot.height, attempts: (slot.attempts + 1) as u32, result: None }
        } else {
            WindowSlot {
                height: slot.height,
                attempts: slot.attempts,
                result: Some(
                    BlockResult::Failure { height: slot.height, error: FetchError::Transient },
                ),
            }
        },
    }
}

/// What the caller learns from reporting a fetch outcome.
#[derive(Clone, Copy, Debug, PartialEq, Eq, Structural)]
pub enum Completion {
    /// Fetch the same height again; this is its `attempt`-th attempt.
    Retry { attempt: u32 },
    /// The height's result is now known.
    Settled,
    /// No fetch of that height was awaited; nothing changed.
    Unknown,
}

pub open spec fn completion_of(slot: WindowSlot) -> Completion {
    if slot.result is None {
        Completion::Retry { attempt: slot.attempts }
    } else {
        Completion::Settled
    }
}

/// What the caller is to do next.
#[derive(Debug)]
pub enum Action {
    /// Start a fetch of this height.
    Launch { height: BlockHeight },
    /// Hand this result to the consumer.
    Emit(BlockResult),
    /// Wait until some outstanding fetch completes, and report it.
    Wait,
    /// Every result has been emitted, or the scan was cancelled.
    Finished,
}

/// The scheduler: a window of at most `concurrency_limit` heights, each being
/// fetched or holding its result, that releases results strictly in height
/// order.
pub struct BlockScanner {
    config: ScanConfig,
    source: BlockSource,
    window: Vec<WindowSlot>,
    cancelled: bool,
    planned: Ghost<Seq<u64>>,
    emitted: Ghost<Seq<u64>>,
}

impl BlockScanner {
    pub closed spec fn config(&self) -> ScanConfig {
        self.config
    }

    pub closed spec fn window(&self) -> Seq<WindowSlot> {
        self.window@
    }

    /// The heights the source has not handed out yet.
    pub closed spec fn pending(&self) -> Seq<u64> {
        self.source.remaining()
    }

    /// Every height of the scan, in the order the source supplies them.
    pub closed spec fn planned(&self) -> Seq<u64> {
        self.planned@
    }

    /// The heights whose results have been emitted, in emission order.
    pub closed spec fn emitted(&self) -> Seq<u64> {
        self.emitted@
    }

    pub closed spec fn cancelled(&self) -> bool {
        self.cancelled
    }

    pub closed spec fn wf(&self) -> bool {
        &&& self.config.valid()
        &&& self.source.wf()
        &&& strictly_increasing(self.planned@)
        &&& self.emitted@ == self.planned@.take(self.emitted@.len() as int)
        &&& !self.cancelled ==> self.planned@ == self.emitted@ + slot_heights(self.window@)
            + self.source.remaining()
        &&& self.cancelled ==> self.window@.len() == 0
        &&& self.window@.len() <= self.config.concurrency_limit
        &&& forall|i: int|
            0 <= i < self.window@.len() ==> (#[trigger] self.window@[i]).consistent(
                self.config.max_attempts(),
            )
    }

    pub open spec fn can_launch(&self) -> bool {
        &&& !self.cancelled()
        &&& self.window().len() < self.config().concurrency_limit
        &&& self.pending().len() > 0
    }

    pub open spec fn front_ready(&self) -> bool {
        self.window().len() > 0 && self.window()[0].result is Some
    }

    /// A fetch of `height` is outstanding.
    pub open spec fn awaiting(&self, height: BlockHeight) -> bool {
        exists|i: int|
            0 <= i < self.window().len() && self.window()[i].height == height
                && self.window()[i].result is None
    }

    pub open spec fn is_done(&self) -> bool {
        self.window().len() == 0 && (self.cancelled() || self.pending().len() == 0)
    }

    /// `next` is `self` after launching the first pending height.
    pub open spec fn launch_step(&self, next: &BlockScanner) -> bool {
        &&& next.window() == self.window().push(fresh_slot(self.pending()[0]))
        &&& next.pending() == self.pending().drop_first()
        &&& next.emitted() == self.emitted()
        &&& next.planned() == self.planned()
        &&& next.cancelled() == self.cancelled()
        &&& next.config() == self.config()
    }

    /// `next` is `self` after emitting the result at the front of the window.
    pub open spec fn emit_step(&self, next: &BlockScanner) -> bool {
        &&& next.window() == self.window().drop_first()
        &&& next.pending() == self.pending()
        &&& next.emitted() == self.emitted().push(self.window()[0].height)
        &&& next.planned() == self.planned()
        &&& next.cancelled() == self.cancelled()
        &&& next.config() == self.config()
    }

    /// A scanner over the heights of `source`, refused when the concurrency
    /// limit is zero.
    pub fn new(config: ScanConfig, source: BlockSource) -> (r: Result<BlockScanner, ScanError>)
        requires
            source.wf(),
        ensures
            config.concurrency_limit == 0 ==> r == Err::<BlockScanner, ScanError>(
                ScanError::ZeroConcurrency,
            ),
            config.concurrency_limit > 0 ==> r is Ok,
            r matches Ok(s) ==> {
                &&& s.wf()
                &&& s.config() == config
                &&& s.planned() == source.remaining()
                &&& s.pending() == source.remaining()
                &&& s.emitted() == Seq::<u64>::empty()
                &&& s.window() == Seq::<WindowSlot>::empty()
                &&& !s.cancelled()
            },
    {
        if config.concurrency_limit == 0 {
            return Err(ScanError::ZeroConcurrency);
        }
        proof {
            source.lemma_remaining_increasing();
        }
        let s = BlockScanner {
            config,
            source,
            window: Vec::new(),
            cancelled: false,
            planned: Ghost(source.remaining()),
            emitted: Ghost(Seq::empty()),
        };
        proof {
            assert(slot_heights(s.window@) =~= Seq::<u64>::empty());
            assert(s.planned@ =~= s.emitted@ + slot_heights(s.window@) + s.source.remaining());
            assert(s.emitted@ =~= s.planned@.take(0));
        }
        Ok(s)
    }
    /// Launches the first pending height when a window slot is free and the
    /// scan is not cancelled.
    pub fn launch_next(&mut self) -> (r: Option<BlockHeight>)
        requires
            old(self).wf(),
        ensures
            final(self).wf(),
            old(self).can_launch() ==> r == Some(old(self).pending()[0]) && old(self).launch_step(
                final(self),
            ),
            !old(self).can_launch() ==> r is None && *final(self) == *old(self),
    {
        if self.cancelled || self.window.len() >= self.config.concurrency_limit {
            return None;
        }
        let ghost before = *self;
        match self.source.next_height() {
            None => None,
            Some(h) => {
                self.window.push(WindowSlot { height: h, attempts: 1, result: None });
                proof {
                    assert(slot_heights(self.window@) =~= slot_heights(before.window@).push(h));
                    assert(self.planned@ =~= self.emitted@ + slot_heights(self.window@)
                        + self.source.remaining());
                    assert forall|i: int| 0 <= i < self.window@.len() implies (#[trigger] self.window@[i]).consistent(
                        self.config.max_attempts(),
                    ) by {
                        if i < before.window@.len() {
                            assert(self.window@[i] == before.window@[i]);
                        }
                    }
                }
                Some(h)
            },
        }
    }

    /// Releases the result at the front of the window, if it is known.
    pub fn pop_ready(&mut self) -> (r: Option<BlockResult>)
        requires
            old(self).wf(),
        ensures
            final(self).wf(),
            old(self).front_ready() ==> r == old(self).window()[0].result && old(self).emit_step(
                final(self),
            ),
            !old(self).front_ready() ==> r is None && *final(self) == *old(self),
            r matches Some(res) ==> res.spec_height() == old(self).window()[0].height,
    {
        if self.window.len() == 0 {
            return None;
        }
        match &self.window[0].result {
            None => {
                return None;
            },
            Some(_) => {},
        }
        let ghost before = *self;
        let slot = self.window.remove(0);
        proof {
            let bw = slot_heights(before.window@);
            assert(self.window@ =~= before.window@.drop_first());
            assert(slot_heights(self.window@) =~= bw.drop_first());
            self.emitted@ = self.emitted@.push(slot.height);
            assert(before.planned@ =~= before.emitted@ + bw + before.source.remaining());
            assert(self.planned@ =~= self.emitted@ + slot_heights(self.window@)
                + self.source.remaining());
            assert(self.planned@[before.emitted@.len() as int] == slot.height);
            assert(self.emitted@ =~= self.planned@.take(self.emitted@.len() as int));
            assert forall|i: int| 0 <= i < self.window@.len() implies (#[trigger] self.window@[i]).consistent(
                self.config.max_attempts(),
            ) by {
                assert(self.window@[i] == before.window@[i + 1]);
            }
        }
        slot.result
    }
    proof fn lemma_window_heights_distinct(&self)
        requires
            self.wf(),
        ensures
            forall|i: int, j: int|
                0 <= i < j < self.window@.len() ==> self.window@[i].height
                    != self.window@[j].height,
    {
        if !self.cancelled {
            let n = self.emitted@.len();
            assert forall|i: int, j: int|
                0 <= i < j < self.window@.len() implies self.window@[i].height
                != self.window@[j].height by {
                assert(self.planned@[n + i] == slot_heights(self.window@)[i]);
                assert(self.planned@[n + j] == slot_heights(self.window@)[j]);
            }
        }
    }

    fn find_awaiting(&self, height: BlockHeight) -> (r: Option<usize>)
        ensures
            r matches Some(j) ==> j < self.window@.len() && self.window@[j as int].height == height
                && self.window@[j as int].result is None,
            r is None ==> !self.awaiting(height),
    {
        let mut j: usize = 0;
        while j < self.window.len()
            invariant
                j <= self.window@.len(),
                forall|k: int|
                    0 <= k < j ==> !(self.window@[k].height == height && self.window@[k].result is None),
            decreases self.window@.len() - j,
        {
            if self.window[j].height == height {
                match &self.window[j].result {
                    None => {
                        return Some(j);
                    },
                    Some(_) => {},
                }
            }
            j = j + 1;
        }
        None
    }

    /// Reports the outcome of a fetch of `height`. A transient error is
    /// retried while the height has attempts left; anything else settles
    /// the height's result.
    pub fn complete(&mut self, height: BlockHeight, outcome: Result<Vec<Log>, FetchError>) -> (r:
        Completion)
        requires
            old(self).wf(),
        ensures
            final(self).wf(),
            !old(self).awaiting(height) ==> r == Completion::Unknown && *final(self) == *old(self),
            old(self).awaiting(height) ==> forall|i: int|
                0 <= i < old(self).window().len() && old(self).window()[i].height == height
                    ==> old(self).window()[i].result is None && final(self).window() == old(
                    self,
                ).window().update(
                    i,
                    settle_slot(old(self).window()[i], outcome, old(self).config().max_attempts()),
                ) && r == completion_of(
                    settle_slot(old(self).window()[i], outcome, old(self).config().max_attempts()),
                ),
            final(self).pending() == old(self).pending(),
            final(self).emitted() == old(self).emitted(),
            final(self).planned() == old(self).planned(),
            final(self).cancelled() == old(self).cancelled(),
            final(self).config() == old(self).config(),
    {
        let j = match self.find_awaiting(height) {
            None => {
                return Completion::Unknown;
            },
            Some(j) => j,
        };
        let ghost before = *self;
        let ghost max = self.config.max_attempts();
        proof {
            self.lemma_window_heights_distinct();
        }
        let attempts = self.window[j].attempts;
        let ghost settled = settle_slot(self.window@[j as int], outcome, max);
        let slot = match outcome {
            Ok(logs) => WindowSlot {
                height,
                attempts,
                result: Some(BlockResult::Success { height, logs }),
            },
            Err(FetchError::Permanent) => WindowSlot {
                height,
                attempts,
                result: Some(BlockResult::Failure { height, error: FetchError::Permanent }),
            },
            Err(FetchError::Transient) => {
                if self.config.retry_budget > attempts {
                    WindowSlot { height, attempts: attempts + 1, result: None }
                } else {
                    WindowSlot {
                        height,
                        attempts,
                        result: Some(BlockResult::Failure { height, error: FetchError::Transient }),
                    }
                }
            },
        };
        assert(slot == settled);
        let r = match &slot.result {
            None => Completion::Retry { attempt: slot.attempts },
            Some(_) => Completion::Settled,
        };
        self.window.set(j, slot);
        proof {
            assert(slot_heights(self.window@) =~= slot_heights(before.window@));
            assert forall|i: int| 0 <= i < self.window@.len() implies (#[trigger] self.window@[i]).consistent(
                self.config.max_attempts(),
            ) by {
                if i != j {
                    assert(self.window@[i] == before.window@[i]);
                }
            }
        }
        r
    }

    /// How many fetches are outstanding.
    pub fn in_flight(&self) -> (r: usize)
        requires
            self.wf(),
        ensures
            r == in_flight_count(self.window()),
    {
        let mut n: usize = 0;
        let mut j: usize = 0;
        while j < self.window.len()
            invariant
                j <= self.window@.len(),
                n == in_flight_count(self.window@.take(j as int)),
                n <= j,
            decreases self.window@.len() - j,
        {
            proof {
                assert(self.window@.take(j + 1).drop_last() =~= self.window@.take(j as int));
            }
            match &self.window[j].result {
                None => {
                    n = n + 1;
                },
                Some(_) => {},
            }
            j = j + 1;
        }
        proof {
            assert(self.window@.take(j as int) =~= self.window@);
        }
        n
    }

    /// Stops the scan: the outstanding fetches are abandoned and no height is
    /// launched any more. Returns how many fetches were abandoned.
    pub fn cancel(&mut self) -> (r: usize)
        requires
            old(self).wf(),
        ensures
            final(self).wf(),
            final(self).cancelled(),
            final(self).window().len() == 0,
            r == in_flight_count(old(self).window()),
            r <= old(self).config().concurrency_limit,
            final(self).pending() == old(self).pending(),
            final(self).emitted() == old(self).emitted(),
            final(self).planned() == old(self).planned(),
            final(self).config() == old(self).config(),
    {
        let n = self.in_flight();
        proof {
            lemma_in_flight_bounded(self.window@);
        }
        self.cancelled = true;
        self.window = Vec::new();
        n
    }

    /// Decides the next step: launch while a slot is free, else emit the
    /// front result when it is known, else wait for an outstanding fetch.
    pub fn next_action(&mut self) -> (r: Action)
        requires
            old(self).wf(),
        ensures
            final(self).wf(),
            old(self).can_launch() ==> r == (Action::Launch { height: old(self).pending()[0] })
                && old(self).launch_step(final(self)),
            !old(self).can_launch() && old(self).front_ready() ==> r == Action::Emit(
                old(self).window()[0].result->Some_0,
            ) && old(self).emit_step(final(self)),
            r matches Action::Emit(res) ==> res.spec_height() == old(self).window()[0].height,
            !old(self).can_launch() && !old(self).front_ready() && old(self).window().len() > 0
                ==> r is Wait && *final(self) == *old(self),
            !old(self).can_launch() && old(self).window().len() == 0 ==> r is Finished
                && old(self).is_done() && *final(self) == *old(self),
    {
        match self.launch_next() {
            Some(h) => {
                return Action::Launch { height: h };
            },
            None => {},
        }
        match self.pop_ready() {
            Some(res) => Action::Emit(res),
            None => {
                if self.window.len() > 0 {
                    Action::Wait
                } else {
                    Action::Finished
                }
            },
        }
    }

    /// Every height has been emitted, or the scan was cancelled.
    pub fn is_finished(&self) -> (r: bool)
        requires
            self.wf(),
        ensures
            r == self.is_done(),
    {
        self.window.len() == 0 && (self.cancelled || self.source.is_exhausted())
    }

    pub fn is_cancelled(&self) -> (r: bool)
        ensures
            r == self.cancelled(),
    {
        self.cancelled
    }

    /// How many heights are in the window, being fetched or awaiting emission.
    pub fn window_len(&self) -> (r: usize)
        ensures
            r == self.window().len(),
    {
        self.window.len()
    }
}

pub proof fn lemma_in_flight_bounded(w: Seq<WindowSlot>)
    ensures
        in_flight_count(w) <= w.len(),
    decreases w.len(),
{
    if w.len() > 0 {
        lemma_in_flight_bounded(w.drop_last());
    }
}

/// The result of a height after a run of fetch outcomes has been reported for
/// it, one by one, starting from `slot`; outcomes after it settles change
/// nothing.
pub open spec fn replay(
    slot: WindowSlot,
    outcomes: Seq<Result<Vec<Log>, FetchError>>,
    max_attempts: nat,
) -> WindowSlot
    decreases outcomes.len(),
{
    if outcomes.len() == 0 {
        slot
    } else {
        let prev = replay(slot, outcomes.drop_last(), max_attempts);
        if prev.result is None {
            settle_slot(prev, outcomes.last(), max_attempts)
        } else {
            prev
        }
    }
}

pub open spec fn transient_failures(n: nat) -> Seq<Result<Vec<Log>, FetchError>> {
    Seq::new(n, |i: int| Err::<Vec<Log>, FetchError>(FetchError::Transient))
}

proof fn lemma_transients_pending(height: BlockHeight, k: nat, max_attempts: nat)
    requires
        k < max_attempts <= u32::MAX,
    ensures
        replay(fresh_slot(height), transient_failures(k), max_attempts) == (WindowSlot {
            height,
            attempts: (k + 1) as u32,
            result: None,
        }),
    decreases k,
{
    if k > 0 {
        lemma_transients_pending(height, (k - 1) as nat, max_attempts);
        assert(transient_failures(k).drop_last() =~= transient_failures((k - 1) as nat));
    }
}

/// Retries: with a retry budget `b` of at least one, a height gets exactly
/// `b` attempts. After `b - 1` transient failures its `b`-th fetch is
/// launched and still pending; a success then yields a `Success`, while a
/// `b`-th transient failure yields a `Failure` with the transient error.
pub proof fn lemma_retry_budget(height: BlockHeight, config: ScanConfig, logs: Vec<Log>)
    requires
        config.retry_budget >= 1,
    ensures
        ({
            let b = config.retry_budget;
            let max = config.max_attempts();
            let retried = transient_failures((b - 1) as nat);
            &&& replay(fresh_slot(height), retried, max) == (WindowSlot {
                height,
                attempts: b,
                result: None,
            })
            &&& replay(fresh_slot(height), retried.push(Ok(logs)), max) == (WindowSlot {
                height,
                attempts: b,
                result: Some(BlockResult::Success { height, logs }),
            })
            &&& replay(fresh_slot(height), transient_failures(b as nat), max) == (WindowSlot {
                height,
                attempts: b,
                result: Some(BlockResult::Failure { height, error: FetchError::Transient }),
            })
        }),
{
    let b = config.retry_budget;
    let max = config.max_attempts();
    let retried = transient_failures((b - 1) as nat);
    lemma_transients_pending(height, (b - 1) as nat, max);
    assert(retried.push(Ok(logs)).drop_last() =~= retried);
    assert(transient_failures(b as nat).drop_last() =~= retried);
}

/// Ordering: the emitted heights are always the first heights of the scan, in
/// the order the source supplies them, and so strictly increasing; each
/// emission adds exactly the next planned height, whatever order the fetches
/// completed in.
pub proof fn lemma_emission_order(s: BlockScanner, next: BlockScanner)
    requires
        s.wf(),
        s.front_ready(),
        s.emit_step(&next),
    ensures
        s.emitted() == s.planned().take(s.emitted().len() as int),
        strictly_increasing(s.emitted()),
        next.emitted() == s.planned().take(s.emitted().len() + 1int),
{
    let w = slot_heights(s.window@);
    assert(s.planned@[s.emitted@.len() as int] == w[0]);
    assert(next.emitted() =~= s.planned().take(s.emitted().len() + 1int));
}

/// Completeness: once a scan that was not cancelled is finished, every planned
/// height has been emitted, each exactly once.
pub proof fn lemma_completeness(s: BlockScanner)
    requires
        s.wf(),
        s.is_done(),
        !s.cancelled(),
    ensures
        s.emitted() == s.planned(),
        forall|i: int, j: int| 0 <= i < j < s.emitted().len() ==> s.emitted()[i] != s.emitted()[j],
{
    assert(slot_heights(s.window@) =~= Seq::<u64>::empty());
    assert(s.planned@ =~= s.emitted@);
}

/// Concurrency bound: no more fetches are outstanding than the window holds,
/// and the window never exceeds the concurrency limit.
pub proof fn lemma_concurrency_bound(s: BlockScanner)
    requires
        s.wf(),
    ensures
        in_flight_count(s.window()) <= s.window().len(),
        s.window().len() <= s.config().concurrency_limit,
{
    lemma_in_flight_bounded(s.window@);
}

/// Cancellation: a cancelled scan holds no outstanding fetch, launches no
/// height any more, and counts as finished.
pub proof fn lemma_cancellation(s: BlockScanner)
    requires
        s.wf(),
        s.cancelled(),
    ensures
        !s.can_launch(),
        s.window().len() == 0,
        s.is_done(),
{
}

} // verus!
