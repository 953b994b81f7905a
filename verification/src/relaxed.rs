//! The relaxed-ordering coherence experiment.
//!
//! Two counters `x` and `y` start at zero and are touched only with relaxed
//! atomic operations.  One context loads `y` and stores the loaded value
//! into `x`, returning what it loaded; the other loads `x` and stores the
//! fixed marker into `y`, returning what it loaded.  Relaxed ordering
//! promises nothing across locations — either load may read a store that
//! the clock would place later — but each location still has a single total
//! modification order, and a load returns a value from that order: here the
//! location's initial zero or the one value ever stored to it.
//!
//! An execution of the experiment is therefore fixed by two choices, one
//! per load: does the load read the store to its location, or the initial
//! zero?  [`run_relaxed`] plays out one execution from those choices, and
//! [`lemma_relaxed_coherence`] proves what coherence alone guarantees over
//! all of them: no load invents a value, and the second context can return
//! the marker only in an execution where the first context returned it too,
//! since the marker reaches `x` only by way of the first context's store.

use vstd::prelude::*;

verus! {

/// The fixed value the second context stores into `y`.
pub const MARKER: u64 = 42;

/// What the first context's relaxed load of `y` returns: the marker if it
/// reads the second context's store, otherwise the initial zero.
pub open spec fn first_loaded(first_reads_store: bool) -> u64 {
    if first_reads_store {
        MARKER
    } else {
        0
    }
}

/// What the second context's relaxed load of `x` returns: whatever the
/// first context stored there if it reads that store, otherwise the
/// initial zero.  The first context stores exactly what it loaded.
pub open spec fn second_loaded(first_reads_store: bool, second_reads_store: bool) -> u64 {
    if second_reads_store {
        first_loaded(first_reads_store)
    } else {
        0
    }
}

/// Play out one execution of the experiment, fixed by the two reads-from
/// choices, and return the pair of loaded values.
pub fn run_relaxed(first_reads_store: bool, second_reads_store: bool) -> (loaded: (u64, u64))
    ensures
        loaded.0 == first_loaded(first_reads_store),
        loaded.1 == second_loaded(first_reads_store, second_reads_store),
{
    let first: u64 = if first_reads_store {
        MARKER
    } else {
        0
    };
    let second: u64 = if second_reads_store {
        first
    } else {
        0
    };
    (first, second)
}

/// Per-location modification-order consistency, over every execution: each
/// load returns zero or the marker, never a value outside its location's
/// modification order, and the second context returns the marker only in
/// executions where the first context does too.  Nothing relates the loads
/// the other way around: the second context may return zero while the
/// first returns the marker, as when it runs to completion first.
pub proof fn lemma_relaxed_coherence(first_reads_store: bool, second_reads_store: bool)
    ensures
        first_loaded(first_reads_store) == 0 || first_loaded(first_reads_store) == MARKER,
        second_loaded(first_reads_store, second_reads_store) == 0 || second_loaded(
            first_reads_store,
            second_reads_store,
        ) == MARKER,
        second_loaded(first_reads_store, second_reads_store) == MARKER ==> first_loaded(
            first_reads_store,
        ) == MARKER,
{
}

} // verus!
