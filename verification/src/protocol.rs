//! The acquisition protocol as a transition system over any number of
//! contending contexts.
//!
//! The lock in [`crate::mutex`] gives each atomic access a contract over an
//! exclusively borrowed flag; what that cannot say is what happens when
//! many contexts run the algorithm against one shared flag.  This module
//! says it.  A [`State`] holds the flag, the protected counter, and one
//! [`Context`] per contender; each atomic step of the algorithm — the weak
//! compare-and-swap, its failure, the read-only polls of the inner loop,
//! and the critical section's increment followed by the release store — is
//! a transition relation, and a run is any interleaving of those
//! transitions.  The proofs establish the lock's promises over every run:
//! at most one context is ever in its critical section, the counter changes
//! only by the holder's increment and so no update is lost, a run of `n`
//! contexts making `m` increments each ends with the counter at exactly
//! `n * m`, a context that waits on a lock its own caller holds spins
//! forever, and whenever the lock is free a trying context can take it in
//! one step.

use vstd::prelude::*;

verus! {

/// Where one contending context stands in the acquisition algorithm.
pub enum Phase {
    /// About to attempt the weak compare-and-swap.
    Trying,
    /// In the inner read-only loop, polling the flag with relaxed loads.
    Polling,
    /// Holding the lock, inside the critical section.
    Critical,
    /// Done with all of its increments.
    Finished,
}

/// One contending context: its phase and how many of its increments are
/// still to come.
pub struct Context {
    pub phase: Phase,
    pub remaining: nat,
}

/// The shared state: the atomic flag, the protected counter, and every
/// contending context.
pub struct State {
    pub locked: bool,
    pub count: nat,
    pub contexts: Seq<Context>,
}

/// Context `i` exists and is in phase `p`.
pub open spec fn in_phase(s: State, i: int, p: Phase) -> bool {
    0 <= i < s.contexts.len() && s.contexts[i].phase == p
}

/// The initial state of a run of `n` contexts with `m` increments each:
/// flag free, counter zero, everyone about to make its first attempt.
pub open spec fn init(s: State, n: nat, m: nat) -> bool {
    &&& !s.locked
    &&& s.count == 0
    &&& s.contexts.len() == n
    &&& forall|i: int|
        0 <= i < n ==> s.contexts[i] == (Context { phase: Phase::Trying, remaining: m })
}

/// Context `i`'s weak compare-and-swap succeeds: only possible when the
/// flag is free, and it atomically sets the flag (with acquire ordering)
/// and admits `i` to its critical section.
pub open spec fn cas_acquire(pre: State, post: State, i: int) -> bool {
    &&& in_phase(pre, i, Phase::Trying)
    &&& !pre.locked
    &&& post == (State {
        locked: true,
        count: pre.count,
        contexts: pre.contexts.update(
            i,
            Context { phase: Phase::Critical, remaining: pre.contexts[i].remaining },
        ),
    })
}

/// Context `i`'s weak compare-and-swap fails — because the flag was held,
/// or spuriously although it was free — and `i` drops into the read-only
/// polling loop instead of retrying the exclusive operation at once.
pub open spec fn cas_denied(pre: State, post: State, i: int) -> bool {
    &&& in_phase(pre, i, Phase::Trying)
    &&& post == (State {
        contexts: pre.contexts.update(
            i,
            Context { phase: Phase::Polling, remaining: pre.contexts[i].remaining },
        ),
        ..pre
    })
}

/// A relaxed load in context `i`'s polling loop observes the flag free:
/// `i` leaves the inner loop and returns to the compare-and-swap.
pub open spec fn poll_free(pre: State, post: State, i: int) -> bool {
    &&& in_phase(pre, i, Phase::Polling)
    &&& !pre.locked
    &&& post == (State {
        contexts: pre.contexts.update(
            i,
            Context { phase: Phase::Trying, remaining: pre.contexts[i].remaining },
        ),
        ..pre
    })
}

/// A relaxed load in context `i`'s polling loop observes the flag held:
/// `i` keeps polling and nothing changes.
pub open spec fn poll_busy(pre: State, post: State, i: int) -> bool {
    &&& in_phase(pre, i, Phase::Polling)
    &&& pre.locked
    &&& post == pre
}

/// The holder `i` runs its critical section — one increment of the
/// protected counter — and then releases the flag with a release store,
/// going back for its next increment or finishing.
pub open spec fn bump_release(pre: State, post: State, i: int) -> bool {
    &&& in_phase(pre, i, Phase::Critical)
    &&& pre.contexts[i].remaining >= 1
    &&& post == (State {
        locked: false,
        count: pre.count + 1,
        contexts: pre.contexts.update(
            i,
            Context {
                phase: if pre.contexts[i].remaining == 1 {
                    Phase::Finished
                } else {
                    Phase::Trying
                },
                remaining: (pre.contexts[i].remaining - 1) as nat,
            },
        ),
    })
}

/// One step of the system taken by context `i`.
pub open spec fn step_by(pre: State, post: State, i: int) -> bool {
    ||| cas_acquire(pre, post, i)
    ||| cas_denied(pre, post, i)
    ||| poll_free(pre, post, i)
    ||| poll_busy(pre, post, i)
    ||| bump_release(pre, post, i)
}

/// One step of the system: some context moves.
pub open spec fn step(pre: State, post: State) -> bool {
    exists|i: int| step_by(pre, post, i)
}

/// The increments still owed by all contexts together.
pub open spec fn outstanding(cs: Seq<Context>) -> nat
    decreases cs.len(),
{
    if cs.len() == 0 {
        0
    } else {
        cs[0].remaining + outstanding(cs.drop_first())
    }
}

/// At most one context is in its critical section.
pub open spec fn holder_unique(s: State) -> bool {
    forall|i: int, j: int|
        in_phase(s, i, Phase::Critical) && in_phase(s, j, Phase::Critical) ==> i == j
}

/// The inductive invariant of a run of `n` contexts with `m` increments
/// each: the flag is held exactly when some context is critical, the
/// holder is unique, phases and remaining counts are consistent, and the
/// counter accounts for every increment already made — none lost, none
/// invented.
pub open spec fn inv(s: State, n: nat, m: nat) -> bool {
    &&& s.contexts.len() == n
    &&& forall|i: int| 0 <= i < n ==> (#[trigger] s.contexts[i]).remaining <= m
    &&& forall|i: int|
        0 <= i < n && (#[trigger] s.contexts[i]).phase != Phase::Finished ==> s.contexts[
            i
        ].remaining >= 1
    &&& forall|i: int|
        0 <= i < n && (#[trigger] s.contexts[i]).phase == Phase::Finished ==> s.contexts[
            i
        ].remaining == 0
    &&& holder_unique(s)
    &&& (s.locked <==> exists|i: int| in_phase(s, i, Phase::Critical))
    &&& s.count + outstanding(s.contexts) == n * m
}

/// Replacing one context changes the outstanding total by the difference
/// of the remaining counts, and by nothing else.
proof fn lemma_outstanding_update(cs: Seq<Context>, i: int, c: Context)
    requires
        0 <= i < cs.len(),
    ensures
        outstanding(cs.update(i, c)) + cs[i].remaining == outstanding(cs) + c.remaining,
    decreases cs.len(),
{
    if i == 0 {
        assert(cs.update(0, c).drop_first() =~= cs.drop_first());
    } else {
        assert(cs.update(i, c).drop_first() =~= cs.drop_first().update(i - 1, c));
        lemma_outstanding_update(cs.drop_first(), i - 1, c);
    }
}

/// When every context has the same remaining count, the outstanding total
/// is that count times the number of contexts.
proof fn lemma_outstanding_const(cs: Seq<Context>, r: nat)
    requires
        forall|i: int| 0 <= i < cs.len() ==> (#[trigger] cs[i]).remaining == r,
    ensures
        outstanding(cs) == cs.len() * r,
    decreases cs.len(),
{
    if cs.len() == 0 {
        assert(0nat * r == 0) by (nonlinear_arith);
    } else {
        lemma_outstanding_const(cs.drop_first(), r);
        assert(cs.len() * r == r + (cs.len() - 1) * r) by (nonlinear_arith)
            requires
                cs.len() >= 1,
        ;
    }
}

/// The initial state satisfies the invariant.
pub proof fn lemma_init_inv(s: State, n: nat, m: nat)
    requires
        init(s, n, m),
        m >= 1,
    ensures
        inv(s, n, m),
{
    assert forall|i: int| 0 <= i < n implies (#[trigger] s.contexts[i]).remaining == m by {
        assert(s.contexts[i] == (Context { phase: Phase::Trying, remaining: m }));
    }
    lemma_outstanding_const(s.contexts, m);
    assert forall|i: int| !in_phase(s, i, Phase::Critical) by {
        if 0 <= i < n {
            assert(s.contexts[i] == (Context { phase: Phase::Trying, remaining: m }));
        }
    }
}

/// Every transition preserves the invariant.
pub proof fn lemma_step_inv(pre: State, post: State, n: nat, m: nat)
    requires
        inv(pre, n, m),
        step(pre, post),
    ensures
        inv(post, n, m),
{
    let i = choose|i: int| step_by(pre, post, i);
    assert(step_by(pre, post, i));
    if cas_acquire(pre, post, i) {
        lemma_outstanding_update(
            pre.contexts,
            i,
            Context { phase: Phase::Critical, remaining: pre.contexts[i].remaining },
        );
        assert(in_phase(post, i, Phase::Critical));
        assert forall|j: int, k: int|
            in_phase(post, j, Phase::Critical) && in_phase(post, k, Phase::Critical) implies j
            == k by {
            if j != i {
                assert(in_phase(pre, j, Phase::Critical));
                assert(pre.locked);
            }
            if k != i {
                assert(in_phase(pre, k, Phase::Critical));
                assert(pre.locked);
            }
        }
    } else if cas_denied(pre, post, i) {
        lemma_outstanding_update(
            pre.contexts,
            i,
            Context { phase: Phase::Polling, remaining: pre.contexts[i].remaining },
        );
        assert forall|j: int| in_phase(post, j, Phase::Critical) implies in_phase(
            pre,
            j,
            Phase::Critical,
        ) by {}
        assert forall|j: int| in_phase(pre, j, Phase::Critical) implies in_phase(
            post,
            j,
            Phase::Critical,
        ) by {
            assert(j != i);
        }
        assert(pre.locked <==> post.locked);
    } else if poll_free(pre, post, i) {
        lemma_outstanding_update(
            pre.contexts,
            i,
            Context { phase: Phase::Trying, remaining: pre.contexts[i].remaining },
        );
        assert forall|j: int| in_phase(post, j, Phase::Critical) implies in_phase(
            pre,
            j,
            Phase::Critical,
        ) by {}
        assert forall|j: int| in_phase(pre, j, Phase::Critical) implies in_phase(
            post,
            j,
            Phase::Critical,
        ) by {
            assert(j != i);
        }
    } else if poll_busy(pre, post, i) {
    } else {
        assert(bump_release(pre, post, i));
        lemma_outstanding_update(
            pre.contexts,
            i,
            Context {
                phase: if pre.contexts[i].remaining == 1 {
                    Phase::Finished
                } else {
                    Phase::Trying
                },
                remaining: (pre.contexts[i].remaining - 1) as nat,
            },
        );
        assert forall|j: int| !in_phase(post, j, Phase::Critical) by {
            if in_phase(post, j, Phase::Critical) {
                assert(j != i);
                assert(in_phase(pre, j, Phase::Critical));
                assert(in_phase(pre, i, Phase::Critical));
            }
        }
    }
}

/// Mutual exclusion: in any state satisfying the invariant, two contexts
/// both inside their critical sections are the same context.
pub proof fn lemma_mutual_exclusion(s: State, n: nat, m: nat, i: int, j: int)
    requires
        inv(s, n, m),
        in_phase(s, i, Phase::Critical),
        in_phase(s, j, Phase::Critical),
    ensures
        i == j,
{
}

/// The invariant holds at every point of every run: any sequence of states
/// that starts in an initial state and advances by steps of the system.
pub proof fn lemma_run_inv(run: Seq<State>, n: nat, m: nat, k: int)
    requires
        run.len() > 0,
        m >= 1,
        init(run[0], n, m),
        forall|j: int| 0 <= j < run.len() - 1 ==> #[trigger] step(run[j], run[j + 1]),
        0 <= k < run.len(),
    ensures
        inv(run[k], n, m),
    decreases k,
{
    if k == 0 {
        lemma_init_inv(run[0], n, m);
    } else {
        lemma_run_inv(run, n, m, k - 1);
        assert(step(run[k - 1], run[k - 1 + 1]));
        lemma_step_inv(run[k - 1], run[k], n, m);
    }
}

/// Mutual exclusion over whole runs: at no point of any run, however the
/// contexts were interleaved, are two different contexts inside their
/// critical sections at once.
pub proof fn lemma_run_mutual_exclusion(run: Seq<State>, n: nat, m: nat, k: int, i: int, j: int)
    requires
        run.len() > 0,
        m >= 1,
        init(run[0], n, m),
        forall|t: int| 0 <= t < run.len() - 1 ==> #[trigger] step(run[t], run[t + 1]),
        0 <= k < run.len(),
        in_phase(run[k], i, Phase::Critical),
        in_phase(run[k], j, Phase::Critical),
    ensures
        i == j,
{
    lemma_run_inv(run, n, m, k);
}

/// Every context has made all of its increments.
pub open spec fn all_finished(s: State) -> bool {
    forall|i: int| 0 <= i < s.contexts.len() ==> (#[trigger] s.contexts[i]).phase == Phase::Finished
}

/// No update is lost and none is invented: in any invariant state where
/// every one of the `n` contexts has made its `m` increments, the counter
/// stands at exactly `n * m`.
pub proof fn lemma_complete_count(s: State, n: nat, m: nat)
    requires
        inv(s, n, m),
        all_finished(s),
    ensures
        s.count == n * m,
{
    assert forall|i: int| 0 <= i < s.contexts.len() implies (#[trigger] s.contexts[i]).remaining
        == 0 by {
        assert(s.contexts[i].phase == Phase::Finished);
    }
    lemma_outstanding_const(s.contexts, 0);
    assert(s.contexts.len() * 0nat == 0) by (nonlinear_arith);
}

/// The contention property in one statement: a run of `n` contexts that
/// each make `m` increments, with `n` and `m` at least one, ends with the
/// protected counter at exactly `n * m`, whatever the interleaving was.
pub proof fn lemma_contention_count(run: Seq<State>, n: nat, m: nat)
    requires
        run.len() > 0,
        n >= 1,
        m >= 1,
        init(run[0], n, m),
        forall|j: int| 0 <= j < run.len() - 1 ==> #[trigger] step(run[j], run[j + 1]),
        all_finished(run[run.len() - 1]),
    ensures
        run[run.len() - 1].count == n * m,
{
    lemma_run_inv(run, n, m, run.len() - 1);
    lemma_complete_count(run[run.len() - 1], n, m);
}

/// The counter changes only in the hands of the lock's unique holder, and
/// then by exactly one: each increment reads the value left by the
/// previous release, so concurrent critical sections never interleave
/// their read-modify-write.
pub proof fn lemma_update_only_by_holder(pre: State, post: State, n: nat, m: nat)
    requires
        inv(pre, n, m),
        step(pre, post),
        post.count != pre.count,
    ensures
        pre.locked,
        post.count == pre.count + 1,
        exists|i: int| in_phase(pre, i, Phase::Critical) && #[trigger] bump_release(pre, post, i),
{
    let i = choose|i: int| step_by(pre, post, i);
    assert(step_by(pre, post, i));
    assert(bump_release(pre, post, i));
    assert(in_phase(pre, i, Phase::Critical));
}

/// The state a run reaches when a holder, instead of releasing, calls back
/// into its own lock and waits: the flag is held and nobody is in a
/// critical section, so nobody will ever release.
pub open spec fn wedged(s: State) -> bool {
    &&& s.locked
    &&& forall|i: int| !in_phase(s, i, Phase::Critical)
}

/// Re-entry deadlocks permanently: from a wedged state every step leads to
/// a wedged state — a successful compare-and-swap would need the flag
/// free, a release would need a critical context, and neither exists — so
/// no context ever acquires the lock again.
pub proof fn lemma_wedged_stays(pre: State, post: State)
    requires
        wedged(pre),
        step(pre, post),
    ensures
        wedged(post),
{
    let i = choose|i: int| step_by(pre, post, i);
    assert(step_by(pre, post, i));
    assert(!in_phase(pre, i, Phase::Critical));
    assert(pre.locked);
    if cas_denied(pre, post, i) || poll_free(pre, post, i) {
        assert forall|j: int| !in_phase(post, j, Phase::Critical) by {
            if in_phase(post, j, Phase::Critical) {
                assert(in_phase(pre, j, Phase::Critical));
            }
        }
    }
}

/// Re-entry never silently succeeds: a run that starts wedged stays
/// wedged at every point, so no context is ever again inside its critical
/// section — the recursive caller and every other waiter spin forever.
pub proof fn lemma_wedged_run(run: Seq<State>, k: int)
    requires
        run.len() > 0,
        wedged(run[0]),
        forall|j: int| 0 <= j < run.len() - 1 ==> #[trigger] step(run[j], run[j + 1]),
        0 <= k < run.len(),
    ensures
        wedged(run[k]),
    decreases k,
{
    if k > 0 {
        lemma_wedged_run(run, k - 1);
        assert(step(run[k - 1], run[k - 1 + 1]));
        lemma_wedged_stays(run[k - 1], run[k]);
    }
}

/// Liveness, short of temporal reasoning: whenever the flag is free, any
/// context still at the compare-and-swap can acquire the lock in a single
/// step — a waiter is never blocked by anything but a current holder.
pub proof fn lemma_trying_can_acquire(s: State, i: int)
    requires
        in_phase(s, i, Phase::Trying),
        !s.locked,
    ensures
        exists|post: State| #[trigger] cas_acquire(s, post, i),
{
    let post = State {
        locked: true,
        count: s.count,
        contexts: s.contexts.update(
            i,
            Context { phase: Phase::Critical, remaining: s.contexts[i].remaining },
        ),
    };
    assert(cas_acquire(s, post, i));
}

/// Whenever the flag is free, a polling context's next relaxed load can
/// observe that and send it back to the compare-and-swap.
pub proof fn lemma_polling_can_advance(s: State, i: int)
    requires
        in_phase(s, i, Phase::Polling),
        !s.locked,
    ensures
        exists|post: State| #[trigger] poll_free(s, post, i),
{
    let post = State {
        contexts: s.contexts.update(
            i,
            Context { phase: Phase::Trying, remaining: s.contexts[i].remaining },
        ),
        ..s
    };
    assert(poll_free(s, post, i));
}

/// A holder can always release: under the invariant its critical section
/// can run and free the flag in one step.  Together with the two lemmas
/// above this is the fairness-conditional liveness of the lock: as long as
/// every holder eventually releases, no waiter is ever permanently denied
/// a step that brings it to acquisition.
pub proof fn lemma_holder_can_release(s: State, n: nat, m: nat, i: int)
    requires
        inv(s, n, m),
        in_phase(s, i, Phase::Critical),
    ensures
        exists|post: State| #[trigger] bump_release(s, post, i) && !post.locked,
{
    let post = State {
        locked: false,
        count: s.count + 1,
        contexts: s.contexts.update(
            i,
            Context {
                phase: if s.contexts[i].remaining == 1 {
                    Phase::Finished
                } else {
                    Phase::Trying
                },
                remaining: (s.contexts[i].remaining - 1) as nat,
            },
        ),
    };
    assert(bump_release(s, post, i) && !post.locked);
}

/// The protocol never stalls: as long as some context still has work, a
/// step is enabled — the holder can release, and with the flag free an
/// unfinished context can poll or acquire.  What remains to full liveness
/// is only the fairness assumption itself: that the scheduler eventually
/// lets the enabled context move.
pub proof fn lemma_no_global_stall(s: State, n: nat, m: nat)
    requires
        inv(s, n, m),
        !all_finished(s),
    ensures
        exists|post: State| #[trigger] step(s, post),
{
    if s.locked {
        let i = choose|i: int| in_phase(s, i, Phase::Critical);
        assert(in_phase(s, i, Phase::Critical));
        lemma_holder_can_release(s, n, m, i);
        let post = choose|post: State| #[trigger] bump_release(s, post, i) && !post.locked;
        assert(step_by(s, post, i));
        assert(step(s, post));
    } else {
        assert(exists|i: int|
            0 <= i < s.contexts.len() && (#[trigger] s.contexts[i]).phase != Phase::Finished);
        let i = choose|i: int|
            0 <= i < s.contexts.len() && (#[trigger] s.contexts[i]).phase != Phase::Finished;
        if s.contexts[i].phase == Phase::Critical {
            assert(in_phase(s, i, Phase::Critical));
            assert(s.locked);
        } else if s.contexts[i].phase == Phase::Polling {
            lemma_polling_can_advance(s, i);
            let post = choose|post: State| #[trigger] poll_free(s, post, i);
            assert(step_by(s, post, i));
            assert(step(s, post));
        } else {
            assert(s.contexts[i].phase == Phase::Trying);
            lemma_trying_can_acquire(s, i);
            let post = choose|post: State| #[trigger] cas_acquire(s, post, i);
            assert(step_by(s, post, i));
            assert(step(s, post));
        }
    }
}

} // verus!
