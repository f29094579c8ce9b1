//! Switching with a bounded number of attempts.

use crate::connection::ConnectResult;
use crate::devices::device::Switcher;
use vstd::prelude::*;

verus! {

pub struct Retry<S: Switcher> {
    attempts: usize,
    inner: Box<S>,
    asked: Ghost<Seq<ConnectResult<()>>>,
}

/// Whether `run` is what a bounded run of attempts may look like: at most
/// `attempts` of them, each but the last a failure, and fewer than `attempts`
/// only where the last one succeeded.
pub open spec fn is_retry_run(run: Seq<ConnectResult<()>>, attempts: nat) -> bool {
    &&& run.len() <= attempts
    &&& forall|i: int| 0 <= i < run.len() - 1 ==> (#[trigger] run[i]) is Err
    &&& run.len() < attempts ==> run.len() > 0 && run.last() is Ok
}

/// The outcome of a run of attempts: that of the last attempt, and success
/// where none was made.
pub open spec fn retry_outcome(run: Seq<ConnectResult<()>>) -> ConnectResult<()> {
    if run.len() == 0 {
        Ok(())
    } else {
        run.last()
    }
}

/// Whether another attempt is due after `made` attempts of `attempts`, the last
/// of which ended as `last`: as long as some are left and none has succeeded.
pub open spec fn attempt_due(attempts: nat, made: nat, last: ConnectResult<()>) -> bool {
    made < attempts && (made == 0 || last is Err)
}

/// Of a run of attempts: where one of them succeeded, it was the last, no
/// attempt followed it, and the outcome is success; where all of them failed,
/// there were as many as were allowed, and the outcome is the last failure.
pub proof fn lemma_retry_run(run: Seq<ConnectResult<()>>, attempts: nat)
    requires
        is_retry_run(run, attempts),
    ensures
        forall|k: int| 0 <= k < run.len() && (#[trigger] run[k]) is Ok ==> k == run.len() - 1,
        (exists|k: int| 0 <= k < run.len() && (#[trigger] run[k]) is Ok) ==> retry_outcome(run)
            is Ok,
        (forall|k: int| 0 <= k < run.len() ==> (#[trigger] run[k]) is Err) ==> run.len()
            == attempts,
        (forall|k: int| 0 <= k < run.len() ==> (#[trigger] run[k]) is Err) && attempts > 0
            ==> retry_outcome(run) is Err && retry_outcome(run) == run[attempts - 1],
{
    if exists|k: int| 0 <= k < run.len() && (#[trigger] run[k]) is Ok {
        let k = choose|k: int| 0 <= k < run.len() && (#[trigger] run[k]) is Ok;
        assert(k == run.len() - 1);
    }
    if forall|k: int| 0 <= k < run.len() ==> (#[trigger] run[k]) is Err {
        if run.len() < attempts {
            assert(run[run.len() - 1] is Err);
        }
    }
}

/// A run that is carried on by one attempt wherever one is due, and no further,
/// is a run of attempts: each step keeps it one, and it is complete when no
/// attempt is due.
pub proof fn lemma_attempt_due(run: Seq<ConnectResult<()>>, attempts: nat, next: ConnectResult<()>)
    requires
        run.len() <= attempts,
        forall|i: int| 0 <= i < run.len() ==> (#[trigger] run[i]) is Err,
    ensures
        attempt_due(attempts, run.len(), retry_outcome(run)) == (run.len() < attempts),
        !attempt_due(attempts, run.len(), retry_outcome(run)) ==> is_retry_run(run, attempts),
        run.len() < attempts && next is Ok ==> is_retry_run(run.push(next), attempts)
            && !attempt_due(attempts, run.push(next).len(), next),
{
    if run.len() < attempts && next is Ok {
        let longer = run.push(next);
        assert forall|i: int| 0 <= i < longer.len() - 1 implies (#[trigger] longer[i]) is Err by {
            assert(longer[i] == run[i]);
        }
    }
}

impl<S: Switcher> Retry<S> {
    /// The switcher that the attempts are made on.
    pub closed spec fn inner(&self) -> S {
        *self.inner
    }

    /// The number of attempts that one switch may take.
    pub closed spec fn attempts(&self) -> nat {
        self.attempts as nat
    }

    /// What a switch of the wrapper has asked of the inner switcher, given the
    /// record of the inner switcher before the switch: what the record has
    /// gained.
    pub open spec fn run_since(&self, before: Seq<ConnectResult<()>>) -> Seq<ConnectResult<()>> {
        self.inner().asked().skip(before.len() as int)
    }

    /// Wraps `inner`, of which nothing is asked yet, so that one switch may
    /// take `attempts` attempts.
    pub fn new(inner: Box<S>, attempts: usize) -> (retry: Self)
        ensures
            retry.inner() == *inner,
            retry.attempts() == attempts,
            retry.asked() == Seq::<ConnectResult<()>>::empty(),
    {
        Self { inner, attempts, asked: Ghost(Seq::empty()) }
    }

    /// Whether another attempt is due after `made` attempts, the last of which
    /// ended as `last`.
    pub fn goes_on(&self, made: usize, last: &ConnectResult<()>) -> (due: bool)
        ensures
            due == attempt_due(self.attempts(), made as nat, *last),
    {
        made < self.attempts && (made == 0 || last.is_err())
    }
}

impl<S: Switcher> Switcher for Retry<S> {
    closed spec fn asked(&self) -> Seq<ConnectResult<()>> {
        self.asked@
    }

    /// Switches the inner switcher until it succeeds, but no more often than
    /// the number of attempts. The record of the inner switcher gains what was
    /// asked of it in this call and nothing else: a run of attempts, whose
    /// outcome is handed back.
    fn switch(&mut self) -> (outcome: ConnectResult<()>)
        ensures
            final(self).attempts() == old(self).attempts(),
            final(self).inner().asked() == old(self).inner().asked() + final(self).run_since(
                old(self).inner().asked(),
            ),
            is_retry_run(final(self).run_since(old(self).inner().asked()), old(self).attempts()),
            outcome == retry_outcome(final(self).run_since(old(self).inner().asked())),
    {
        let mut res: ConnectResult<()> = Ok(());
        let mut i: usize = 0;
        let ghost before = self.inner().asked();
        proof {
            assert(self.inner().asked().skip(before.len() as int) =~= Seq::empty());
        }
        while self.goes_on(i, &res)
            invariant
                self.attempts == old(self).attempts,
                self.asked@ == old(self).asked@,
                before == old(self).inner().asked(),
                before.is_prefix_of(self.inner().asked()),
                i <= self.attempts,
                self.inner().asked().len() == before.len() + i,
                forall|j: int|
                    0 <= j < i - 1 ==> (#[trigger] self.inner().asked().skip(
                        before.len() as int,
                    )[j]) is Err,
                i > 0 ==> res == self.inner().asked().last(),
                i == 0 ==> res == Ok::<(), crate::connection::ConnectError>(()),
            decreases self.attempts - i,
        {
            let ghost so_far = self.inner().asked();
            res = self.inner.switch();
            i = i + 1;
            proof {
                let now = self.inner().asked();
                assert(now == so_far.push(res));
                assert(before.is_prefix_of(now));
                assert forall|j: int| 0 <= j < i - 1 implies (#[trigger] now.skip(
                    before.len() as int,
                )[j]) is Err by {
                    if j < i - 2 {
                        assert(now.skip(before.len() as int)[j] == so_far.skip(
                            before.len() as int,
                        )[j]);
                    } else {
                        assert(now.skip(before.len() as int)[j] == so_far.last());
                    }
                }
            }
        }
        proof {
            let now = self.inner().asked();
            let run = now.skip(before.len() as int);
            assert(run.len() == i);
            if i > 0 {
                assert(run.last() == now.last());
            }
            assert(now =~= before + run);
            self.asked@ = self.asked@.push(res);
        }
        res
    }
}

} // verus!
