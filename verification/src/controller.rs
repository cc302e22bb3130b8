use vstd::prelude::*;

verus! {

/// Bounded parallel fan-out bookkeeping.
///
/// The controller hands one operation per input identity to the caller's
/// executor and records one result per operation, while never letting more
/// than `limit` operations be outstanding at once.  `submit` hands out the
/// next identity together with a token; `complete` returns a token with the
/// operation's result.  Results may come back in any order, but every input
/// yields exactly one result: no item is dropped or duplicated, and a failed
/// item is reported once and never resubmitted.
pub struct ConcurrencyController<R> {
    pub limit: usize,
    pub inputs: Vec<String>,
    pub next: usize,
    pub in_flight: Vec<usize>,
    pub results: Vec<(usize, R)>,
}

impl<R> ConcurrencyController<R> {
    /// The token was handed out and has no recorded result yet.
    pub open spec fn outstanding(&self, t: int) -> bool {
        exists|k: int| 0 <= k < self.in_flight@.len() && (#[trigger] self.in_flight@[k]) == t
    }

    /// The token has a recorded result.
    pub open spec fn completed(&self, t: int) -> bool {
        exists|k: int| 0 <= k < self.results@.len() && (#[trigger] self.results@[k]).0 == t
    }

    /// A fresh operation may start: inputs remain and the in-flight count is
    /// under the limit.
    pub open spec fn can_submit_now(&self) -> bool {
        self.next < self.inputs@.len() && self.in_flight@.len() < self.limit
    }

    /// Every handed-out token is either outstanding or completed, exactly
    /// once, and never more than `limit` are outstanding at a time.
    pub open spec fn inv(&self) -> bool {
        &&& 1 <= self.limit
        &&& self.next <= self.inputs@.len()
        &&& self.in_flight@.len() <= self.limit
        &&& forall|k: int|
            0 <= k < self.in_flight@.len() ==> (#[trigger] self.in_flight@[k]) < self.next
        &&& forall|k1: int, k2: int| #![trigger self.in_flight@[k1], self.in_flight@[k2]]
            0 <= k1 < k2 < self.in_flight@.len() ==> self.in_flight@[k1] != self.in_flight@[k2]
        &&& forall|k: int|
            0 <= k < self.results@.len() ==> (#[trigger] self.results@[k]).0 < self.next
        &&& forall|k1: int, k2: int| #![trigger self.results@[k1], self.results@[k2]]
            0 <= k1 < k2 < self.results@.len() ==> self.results@[k1].0 != self.results@[k2].0
        &&& forall|k1: int, k2: int| #![trigger self.in_flight@[k1], self.results@[k2]]
            0 <= k1 < self.in_flight@.len() && 0 <= k2 < self.results@.len()
                ==> self.in_flight@[k1] != self.results@[k2].0
        &&& self.in_flight@.len() + self.results@.len() == self.next
        &&& forall|t: int| #![trigger self.outstanding(t)] #![trigger self.completed(t)]
            0 <= t < self.next ==> self.outstanding(t) || self.completed(t)
    }

    /// A controller over the given identities with the given concurrency cap.
    pub fn new(limit: usize, inputs: Vec<String>) -> (c: Self)
        requires
            1 <= limit,
        ensures
            c.inv(),
            c.limit == limit,
            c.inputs@ == inputs@,
            c.next == 0,
            c.in_flight@.len() == 0,
            c.results@.len() == 0,
    {
        ConcurrencyController {
            limit,
            inputs,
            next: 0,
            in_flight: Vec::new(),
            results: Vec::new(),
        }
    }

    pub fn can_submit(&self) -> (b: bool)
        ensures
            b == self.can_submit_now(),
    {
        self.next < self.inputs.len() && self.in_flight.len() < self.limit
    }

    pub fn is_done(&self) -> (b: bool)
        ensures
            b == (self.next == self.inputs@.len() && self.in_flight@.len() == 0),
    {
        self.next == self.inputs.len() && self.in_flight.len() == 0
    }

    /// Starts the next operation: hands out the next input identity and the
    /// token under which its result must be returned.
    pub fn submit(&mut self) -> (r: (String, usize))
        requires
            old(self).inv(),
            old(self).can_submit_now(),
        ensures
            final(self).inv(),
            r.0 == old(self).inputs@[old(self).next as int],
            r.1 == old(self).next,
            final(self).next == old(self).next + 1,
            final(self).in_flight@ == old(self).in_flight@.push(old(self).next),
            final(self).results@ == old(self).results@,
            final(self).inputs@ == old(self).inputs@,
            final(self).limit == old(self).limit,
    {
        let n = self.inputs.len();
        assert(self.next < n);
        let identity = self.inputs[self.next].clone();
        let token = self.next;
        self.in_flight.push(token);
        self.next = self.next + 1;
        proof {
            assert forall|t: int|
                0 <= t < self.next implies self.outstanding(t) || self.completed(t) by {
                if t < old(self).next {
                    if old(self).outstanding(t) {
                        let k = choose|k: int|
                            0 <= k < old(self).in_flight@.len()
                                && (#[trigger] old(self).in_flight@[k]) == t;
                        assert(self.in_flight@[k] == t);
                    } else {
                        assert(old(self).completed(t));
                        let k = choose|k: int|
                            0 <= k < old(self).results@.len()
                                && (#[trigger] old(self).results@[k]).0 == t;
                        assert(self.results@[k].0 == t);
                    }
                } else {
                    assert(self.in_flight@[self.in_flight@.len() - 1] == t);
                }
            }
        }
        (identity, token)
    }

    /// Whether a token is outstanding; the caller must hand `complete` an
    /// outstanding token.
    pub fn is_in_flight(&self, token: usize) -> (b: bool)
        ensures
            b == self.outstanding(token as int),
    {
        let mut k: usize = 0;
        while k < self.in_flight.len()
            invariant
                k <= self.in_flight@.len(),
                forall|j: int| 0 <= j < k ==> (#[trigger] self.in_flight@[j]) != token,
            decreases self.in_flight@.len() - k,
        {
            if self.in_flight[k] == token {
                return true;
            }
            k = k + 1;
        }
        false
    }

    /// Records the result of an outstanding operation under its token.
    pub fn complete(&mut self, token: usize, result: R)
        requires
            old(self).inv(),
            old(self).outstanding(token as int),
        ensures
            final(self).inv(),
            final(self).results@ == old(self).results@.push((token, result)),
            final(self).in_flight@.len() == old(self).in_flight@.len() - 1,
            exists|k: int|
                0 <= k < old(self).in_flight@.len() && old(self).in_flight@[k] == token
                    && final(self).in_flight@ == old(self).in_flight@.remove(k),
            final(self).next == old(self).next,
            final(self).inputs@ == old(self).inputs@,
            final(self).limit == old(self).limit,
            final(self).completed(token as int),
            !final(self).outstanding(token as int),
    {
        let ghost prior = *self;
        let mut k: usize = 0;
        while k < self.in_flight.len()
            invariant
                *self == prior,
                prior == *old(self),
                prior.inv(),
                prior.outstanding(token as int),
                k <= self.in_flight@.len(),
                forall|j: int| 0 <= j < k ==> (#[trigger] self.in_flight@[j]) != token,
            decreases self.in_flight@.len() - k,
        {
            if self.in_flight[k] == token {
                let ghost res = result;
                self.in_flight.remove(k);
                self.results.push((token, result));
                proof {
                    lemma_complete_preserves_inv(prior, *self, token as int, k as int, res);
                }
                return;
            }
            k = k + 1;
        }
        proof {
            // The loop scanned everything without finding the outstanding
            // token: impossible.
            assert(false);
        }
    }

    /// Hands the recorded results over, consuming the controller.
    pub fn into_results(self) -> (r: Vec<(usize, R)>)
        ensures
            r@ == self.results@,
    {
        self.results
    }
}

/// Removing the completed token from the in-flight list and recording its
/// result keeps the controller's bookkeeping consistent.
proof fn lemma_complete_preserves_inv<R>(
    prior: ConcurrencyController<R>,
    now: ConcurrencyController<R>,
    token: int,
    idx: int,
    result: R,
)
    requires
        prior.inv(),
        0 <= idx < prior.in_flight@.len(),
        prior.in_flight@[idx] == token,
        now.in_flight@ == prior.in_flight@.remove(idx),
        now.results@ == prior.results@.push((token as usize, result)),
        now.next == prior.next,
        now.inputs@ == prior.inputs@,
        now.limit == prior.limit,
        token == token as usize as int,
    ensures
        now.inv(),
        now.completed(token),
        !now.outstanding(token),
{
    assert(now.results@[now.results@.len() - 1].0 == token);
    assert(now.completed(token));
    // Every remaining in-flight token differs from the completed one.
    assert forall|k: int| 0 <= k < now.in_flight@.len() implies (#[trigger] now.in_flight@[k])
        != token as usize by {
        let k0: int = if k < idx {
            k
        } else {
            k + 1
        };
        assert(now.in_flight@[k] == prior.in_flight@[k0]);
    }
    // Coverage: every handed-out token is still outstanding or completed.
    assert forall|t: int| 0 <= t < now.next implies now.outstanding(t) || now.completed(t) by {
        if t == token {
            assert(now.completed(t));
        } else {
            if prior.outstanding(t) {
                let k = choose|k: int|
                    0 <= k < prior.in_flight@.len() && (#[trigger] prior.in_flight@[k]) == t;
                if k < idx {
                    assert(now.in_flight@[k] == t);
                } else {
                    assert(k != idx);
                    assert(now.in_flight@[k - 1] == t);
                }
                assert(now.outstanding(t));
            } else {
                assert(prior.completed(t));
                let k = choose|k: int|
                    0 <= k < prior.results@.len() && (#[trigger] prior.results@[k]).0 == t;
                assert(now.results@[k].0 == t);
            }
        }
    }
    // Pairwise distinctness of the remaining in-flight tokens.
    assert forall|k1: int, k2: int| #![trigger now.in_flight@[k1], now.in_flight@[k2]]
        0 <= k1 < k2 < now.in_flight@.len() implies now.in_flight@[k1]
        != now.in_flight@[k2] by {
        let a: int = if k1 < idx {
            k1
        } else {
            k1 + 1
        };
        let b: int = if k2 < idx {
            k2
        } else {
            k2 + 1
        };
        assert(now.in_flight@[k1] == prior.in_flight@[a]);
        assert(now.in_flight@[k2] == prior.in_flight@[b]);
    }
    // The remaining in-flight tokens stay clear of every recorded result.
    assert forall|k1: int, k2: int| #![trigger now.in_flight@[k1], now.results@[k2]]
        0 <= k1 < now.in_flight@.len() && 0 <= k2 < now.results@.len() implies now.in_flight@[k1]
        != now.results@[k2].0 by {
        let a: int = if k1 < idx {
            k1
        } else {
            k1 + 1
        };
        assert(now.in_flight@[k1] == prior.in_flight@[a]);
        if k2 < now.results@.len() - 1 {
            assert(now.results@[k2] == prior.results@[k2]);
        } else {
            assert(now.results@[k2].0 == token);
        }
    }
}

/// Law: the controller never has more operations outstanding than its
/// concurrency limit, for any limit and any input size.
pub proof fn lemma_outstanding_bounded<R>(c: ConcurrencyController<R>)
    requires
        c.inv(),
    ensures
        c.in_flight@.len() <= c.limit,
{
}

/// Law: once all inputs were handed out and every operation came back, the
/// recorded results cover every input index exactly once — none dropped,
/// none duplicated.
pub proof fn lemma_done_exactly_once<R>(c: ConcurrencyController<R>)
    requires
        c.inv(),
        c.next == c.inputs@.len(),
        c.in_flight@.len() == 0,
    ensures
        c.results@.len() == c.inputs@.len(),
        forall|t: int| 0 <= t < c.inputs@.len() ==> c.completed(t),
        forall|k1: int, k2: int| #![trigger c.results@[k1], c.results@[k2]]
            0 <= k1 < k2 < c.results@.len() ==> c.results@[k1].0 != c.results@[k2].0,
{
    assert forall|t: int| 0 <= t < c.inputs@.len() implies c.completed(t) by {
        assert(!c.outstanding(t));
    }
}

} // verus!
