use spinlock::mutex::Mutex;
use spinlock::relaxed::run_relaxed;

// The contention seed case, run over the sequential model: one hundred
// contexts of a thousand increments each leave the counter at exactly
// their product, and the relaxed-counter pair comes back equal when each
// load reads the store to its location.
#[test]
fn too_relaxed() {
    let mut l = Mutex::new(0u64);
    for _ in 0..100 {
        for _ in 0..1000 {
            l.with_lock(|v| {
                *v += 1;
            });
        }
    }
    assert_eq!(l.with_lock(|v| *v), 100 * 1000);

    let (r1, r2) = run_relaxed(true, true);
    assert_eq!(r1, 42);
    assert_eq!(r2, 42);
}

#[test]
fn new_lock_is_free() {
    let m: Mutex<i32> = Mutex::new(7);
    assert!(!m.flag());
}

#[test]
fn new_keeps_payload() {
    let mut m = Mutex::new(7i32);
    assert_eq!(m.with_lock(|v| *v), 7);
}

#[test]
fn try_acquire_takes_free_lock() {
    let mut m = Mutex::new(0u8);
    assert!(m.try_acquire(false));
    assert!(m.flag());
}

#[test]
fn try_acquire_spurious_failure_leaves_lock_free() {
    let mut m = Mutex::new(0u8);
    assert!(!m.try_acquire(true));
    assert!(!m.flag());
    assert!(m.try_acquire(false));
}

#[test]
fn try_acquire_fails_on_held_lock() {
    let mut m = Mutex::new(0u8);
    assert!(m.try_acquire(false));
    assert!(!m.try_acquire(false));
    assert!(!m.try_acquire(true));
    assert!(m.flag());
}

#[test]
fn reassert_held_changes_nothing() {
    let mut m = Mutex::new(9u32);
    assert!(m.try_acquire(false));
    m.reassert_held();
    assert!(m.flag());
    m.release();
    assert_eq!(m.with_lock(|v| *v), 9);
}

#[test]
fn release_frees_the_lock() {
    let mut m = Mutex::new(3u8);
    assert!(m.try_acquire(false));
    m.release();
    assert!(!m.flag());
    assert!(m.try_acquire(false));
    m.release();
    assert_eq!(m.with_lock(|v| *v), 3);
}

#[test]
fn with_lock_returns_body_result() {
    let mut m = Mutex::new(5u64);
    let seen = m.with_lock(|v| {
        let before = *v;
        *v = 10;
        before
    });
    assert_eq!(seen, 5);
    assert_eq!(m.with_lock(|v| *v), 10);
}

#[test]
fn with_lock_runs_body_exactly_once() {
    let mut m = Mutex::new(0u64);
    let mut calls = 0u32;
    m.with_lock(|v| {
        calls += 1;
        *v += 1;
    });
    assert_eq!(calls, 1);
    assert_eq!(m.with_lock(|v| *v), 1);
}

#[test]
fn with_lock_releases_between_calls() {
    let mut m = Mutex::new(String::new());
    m.with_lock(|v| v.push('a'));
    assert!(!m.flag());
    m.with_lock(|v| v.push('b'));
    assert!(!m.flag());
    assert_eq!(m.with_lock(|v| v.clone()), "ab");
}

#[test]
fn single_context_single_increment() {
    let mut l = Mutex::new(0u64);
    l.with_lock(|v| {
        *v += 1;
    });
    assert_eq!(l.with_lock(|v| *v), 1);
}
