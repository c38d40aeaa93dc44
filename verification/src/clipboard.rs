//! The clipboard sink: an ordered chain of backends, each tried once.
//!
//! The chain decides; running a backend is left to the caller, who asks for
//! the backend to try, runs it, and reports the outcome. A success ends the
//! chain. A failure of either kind is recorded and the next backend is due.
//! When no backend is left, delivery has failed with every recorded reason.

use vstd::prelude::*;

verus! {

/// A mechanism that can write to the system clipboard.
#[derive(Clone, Copy, Debug, PartialEq, Eq, Structural)]
pub enum Backend {
    /// The Wayland tool `wl-copy`.
    WlCopy,
    /// The X11 tool `xclip`.
    Xclip,
    /// The cross-platform clipboard library.
    Library,
}

/// How one attempt on a backend ended.
#[derive(Clone, Copy, Debug, PartialEq, Eq, Structural)]
pub enum Outcome {
    /// The text was written and acknowledged.
    Success,
    /// The backend could not be started or opened.
    NotFound,
    /// The backend was there but writing to it failed.
    WriteError,
}

/// One attempt: the backend and how it ended.
#[derive(Clone, Copy, Debug, PartialEq, Eq, Structural)]
pub struct ClipboardAttempt {
    pub backend: Backend,
    pub outcome: Outcome,
}

/// A successful delivery: the backend that took the text, and the attempts
/// that failed before it.
#[derive(Debug)]
pub struct Delivery {
    pub backend: Backend,
    pub failures: Vec<ClipboardAttempt>,
}

/// A failed delivery.
#[derive(Debug)]
pub enum DeliveryError {
    /// Every backend was tried and none succeeded; one attempt per backend,
    /// in the order tried.
    AllBackendsFailed(Vec<ClipboardAttempt>),
}

/// The outcome of an attempt from what was observed of it: whether the
/// backend could be started, and whether it then completed the write.
pub fn outcome_of(available: bool, completed: bool) -> (r: Outcome)
    ensures
        r == (if !available {
            Outcome::NotFound
        } else if completed {
            Outcome::Success
        } else {
            Outcome::WriteError
        }),
{
    if !available {
        Outcome::NotFound
    } else if completed {
        Outcome::Success
    } else {
        Outcome::WriteError
    }
}

/// Position of the first successful attempt among the first `n`, or `n`
/// when there is none.
pub open spec fn first_success(plan: Seq<ClipboardAttempt>, n: int) -> int
    decreases n,
{
    if n <= 0 {
        0
    } else {
        let k = first_success(plan, n - 1);
        if k < n - 1 || plan[n - 1].outcome == Outcome::Success {
            k
        } else {
            n
        }
    }
}

/// A chain of backends in progress.
pub struct ClipboardChain {
    /// The backends, in the order in which they are tried.
    pub backends: Vec<Backend>,
    /// The attempts made so far, one per backend from the front.
    pub attempts: Vec<ClipboardAttempt>,
}

impl ClipboardChain {
    /// The attempts follow the backends one for one, and only the last of
    /// them can be a success.
    pub open spec fn wf(&self) -> bool {
        &&& self.attempts@.len() <= self.backends@.len()
        &&& forall|i: int|
            0 <= i < self.attempts@.len() ==> (#[trigger] self.attempts@[i]).backend
                == self.backends@[i]
        &&& forall|i: int|
            0 <= i < self.attempts@.len() - 1 ==> (#[trigger] self.attempts@[i]).outcome
                != Outcome::Success
    }

    /// Whether the last attempt succeeded.
    pub open spec fn succeeded(&self) -> bool {
        self.attempts@.len() > 0 && self.attempts@.last().outcome == Outcome::Success
    }

    /// The backend that is due next, if the chain has not ended.
    pub open spec fn pending(&self) -> Option<Backend> {
        if !self.succeeded() && self.attempts@.len() < self.backends@.len() {
            Some(self.backends@[self.attempts@.len() as int])
        } else {
            None
        }
    }

    /// A chain over `backends` with nothing tried yet.
    pub fn new(backends: Vec<Backend>) -> (r: ClipboardChain)
        ensures
            r.wf(),
            r.backends@ == backends@,
            r.attempts@.len() == 0,
    {
        ClipboardChain { backends, attempts: Vec::new() }
    }

    /// The usual chain: the Wayland tool, the X11 tool, then the library.
    pub fn standard() -> (r: ClipboardChain)
        ensures
            r.wf(),
            r.backends@ == seq![Backend::WlCopy, Backend::Xclip, Backend::Library],
            r.attempts@.len() == 0,
    {
        let mut backends: Vec<Backend> = Vec::new();
        backends.push(Backend::WlCopy);
        backends.push(Backend::Xclip);
        backends.push(Backend::Library);
        assert(backends@ =~= seq![Backend::WlCopy, Backend::Xclip, Backend::Library]);
        ClipboardChain::new(backends)
    }

    /// The backend to try next, or `None` when the chain has ended.
    pub fn next(&self) -> (r: Option<Backend>)
        requires
            self.wf(),
        ensures
            r == self.pending(),
    {
        let n: usize = self.attempts.len();
        if n > 0 && self.attempts[n - 1].outcome == Outcome::Success {
            return None;
        }
        if n < self.backends.len() {
            Some(self.backends[n])
        } else {
            None
        }
    }

    /// Records how the pending backend ended. The attempt joins the record;
    /// the backend is not tried again.
    pub fn record(&mut self, outcome: Outcome)
        requires
            old(self).wf(),
            old(self).pending().is_some(),
        ensures
            final(self).wf(),
            final(self).backends@ == old(self).backends@,
            final(self).attempts@ == old(self).attempts@.push(
                ClipboardAttempt { backend: old(self).pending().unwrap(), outcome },
            ),
            final(self).pending() == (if outcome == Outcome::Success || old(self).attempts@.len()
                + 1 == old(self).backends@.len() {
                None::<Backend>
            } else {
                Some(old(self).backends@[old(self).attempts@.len() as int + 1])
            }),
    {
        let n: usize = self.attempts.len();
        let backend = self.backends[n];
        self.attempts.push(ClipboardAttempt { backend, outcome });
    }

    /// Whether the chain has ended, by a success or for want of backends.
    pub fn is_done(&self) -> (r: bool)
        requires
            self.wf(),
        ensures
            r == self.pending().is_none(),
    {
        self.next().is_none()
    }

    /// What an ended chain has come to: the delivery when the last attempt
    /// succeeded, the failure when every backend was tried in vain.
    pub fn finish(self) -> (r: Result<Delivery, DeliveryError>)
        requires
            self.wf(),
            self.pending().is_none(),
        ensures
            match r {
                Ok(d) => self.succeeded() && d.backend == self.attempts@.last().backend
                    && d.failures@ == self.attempts@.drop_last(),
                Err(DeliveryError::AllBackendsFailed(f)) => !self.succeeded() && f@
                    == self.attempts@,
            },
    {
        let n: usize = self.attempts.len();
        if n > 0 && self.attempts[n - 1].outcome == Outcome::Success {
            let backend = self.attempts[n - 1].backend;
            let mut failures = self.attempts;
            failures.pop();
            return Ok(Delivery { backend, failures });
        }
        Err(DeliveryError::AllBackendsFailed(self.attempts))
    }
}

/// The result of trying the attempts of `plan` in order, where each says
/// how its backend would end: the first success delivers, with the attempts
/// before it as its failures; without a success every attempt is reported.
pub open spec fn delivered(plan: Seq<ClipboardAttempt>) -> Result<
    (Backend, Seq<ClipboardAttempt>),
    Seq<ClipboardAttempt>,
> {
    let k = first_success(plan, plan.len() as int);
    if k < plan.len() {
        Ok((plan[k].backend, plan.take(k)))
    } else {
        Err(plan)
    }
}

/// The first success among the first `n` attempts is a success, nothing
/// before it is, and without one the position is `n`.
pub proof fn lemma_first_success(plan: Seq<ClipboardAttempt>, n: int)
    requires
        0 <= n <= plan.len(),
    ensures
        0 <= first_success(plan, n) <= n,
        first_success(plan, n) < n ==> plan[first_success(plan, n)].outcome == Outcome::Success,
        forall|j: int|
            0 <= j < first_success(plan, n) ==> (#[trigger] plan[j]).outcome != Outcome::Success,
    decreases n,
{
    if n > 0 {
        lemma_first_success(plan, n - 1);
    }
}

/// Runs the chain over `plan`: each backend is tried in order with the
/// outcome that the plan gives it, until one succeeds or none is left.
pub fn deliver(plan: &Vec<ClipboardAttempt>) -> (r: Result<Delivery, DeliveryError>)
    ensures
        match r {
            Ok(d) => delivered(plan@) == Ok::<
                (Backend, Seq<ClipboardAttempt>),
                Seq<ClipboardAttempt>,
            >((d.backend, d.failures@)),
            Err(DeliveryError::AllBackendsFailed(f)) => delivered(plan@) == Err::<
                (Backend, Seq<ClipboardAttempt>),
                Seq<ClipboardAttempt>,
            >(f@),
        },
{
    let mut backends: Vec<Backend> = Vec::new();
    let mut i: usize = 0;
    while i < plan.len()
        invariant
            i <= plan.len(),
            backends@.len() == i,
            forall|j: int| 0 <= j < i ==> backends@[j] == (#[trigger] plan@[j]).backend,
        decreases plan.len() - i,
    {
        backends.push(plan[i].backend);
        i = i + 1;
    }
    let mut chain = ClipboardChain::new(backends);
    let mut k: usize = 0;
    while k < plan.len() && (k == 0 || plan[k - 1].outcome != Outcome::Success)
        invariant
            k <= plan.len(),
            chain.wf(),
            chain.backends@.len() == plan.len(),
            forall|j: int| 0 <= j < plan.len() ==> chain.backends@[j] == (#[trigger] plan@[j]).backend,
            chain.attempts@ == plan@.take(k as int),
            first_success(plan@, k as int) == (if k > 0 && plan@[k - 1].outcome
                == Outcome::Success {
                k - 1
            } else {
                k as int
            }),
        decreases plan.len() - k,
    {
        proof {
            lemma_first_success(plan@, k as int);
        }
        let due = chain.next();
        assert(due == Some(plan@[k as int].backend));
        chain.record(plan[k].outcome);
        assert(chain.attempts@ =~= plan@.take(k + 1));
        k = k + 1;
    }
    proof {
        lemma_first_success(plan@, k as int);
        if !(k > 0 && plan@[k - 1].outcome == Outcome::Success) {
            assert(plan@.take(k as int) =~= plan@);
        } else {
            lemma_first_success_stays(plan@, k as int, plan.len() as int);
            assert(plan@.take(k as int).drop_last() =~= plan@.take(k - 1));
        }
    }
    chain.finish()
}

/// Attempts after the first success do not move it.
pub proof fn lemma_first_success_stays(plan: Seq<ClipboardAttempt>, m: int, n: int)
    requires
        0 <= m <= n <= plan.len(),
        first_success(plan, m) < m,
    ensures
        first_success(plan, n) == first_success(plan, m),
    decreases n - m,
{
    if n > m {
        lemma_first_success_stays(plan, m, n - 1);
    }
}

} // verus!
