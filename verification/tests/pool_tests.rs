//! The timer, wait and work-once pools' shared state.

use msft_runtime::timer::relative_due_halves;
use msft_runtime::timer::Shared as TimerShared;
use msft_runtime::timer::TimerPoll;
use msft_runtime::wait::WaitError;
use msft_runtime::wait::WaitPool;
use msft_runtime::watch::Inner;
use msft_runtime::watch::Watch;
use msft_runtime::work::WorkOncePool;

#[test]
fn timer_ticks_are_coalesced() {
    // Capacity four, the consumer sleeps through fifty firings: the queue
    // saturates at four; once drained the stream parks again.
    let mut shared = TimerShared::new(4);
    let mut accepted = 0;
    for _ in 0..50 {
        if shared.fire() {
            accepted += 1;
        }
    }
    assert_eq!(4, accepted);
    let mut ticks = 0;
    loop {
        match shared.poll_next() {
            TimerPoll::Tick => ticks += 1,
            TimerPoll::Pending => break,
            TimerPoll::Ended => panic!("stream should not end"),
        }
    }
    assert_eq!(4, ticks);
    // Normal pace resumes once drained.
    assert!(shared.fire());
    assert!(matches!(shared.poll_next(), TimerPoll::Tick));
}

#[test]
fn timer_cancel_ends_stream() {
    let mut shared = TimerShared::new(2);
    shared.fire();
    shared.stop();
    assert!(shared.is_stopped());
    assert!(matches!(shared.poll_next(), TimerPoll::Ended));
    shared.reset();
    assert!(!shared.is_stopped());
    assert!(matches!(shared.poll_next(), TimerPoll::Pending));
}

#[test]
fn timer_oneshot_readiness() {
    let mut shared = TimerShared::new(8);
    assert!(!shared.poll_once());
    shared.fire();
    assert!(shared.poll_once());
}

#[test]
fn timer_due_time_halves() {
    // A zero delay is the zero due time; a positive delay is its negated
    // 100-nanosecond count in two's complement, split into halves.
    assert_eq!((0, 0), relative_due_halves(0));
    // 100 milliseconds = 1_000_000 units; negated in 64 bits.
    let expected = 0u64.wrapping_sub(1_000_000);
    let (lo, hi) = relative_due_halves(100);
    assert_eq!((expected & 0xFFFF_FFFF) as u32, lo);
    assert_eq!((expected >> 32) as u32, hi);
}

#[test]
fn wait_with_timeout() {
    // An unsignalled object with a timeout: the future resolves with the
    // timeout error once the kernel reports it.
    let mut pool = WaitPool::new();
    pool.start();
    assert_eq!(None, pool.poll());
    pool.complete(true);
    assert_eq!(Some(Err(WaitError::Timeout)), pool.poll());
}

#[test]
fn wait_signalled() {
    let mut pool = WaitPool::new();
    pool.start();
    pool.complete(false);
    assert_eq!(Some(Ok(())), pool.poll());
}

#[test]
fn wait_restart_in_progress() {
    // Restarting before the previous wait resolved is refused.
    let mut pool = WaitPool::new();
    pool.start();
    assert_eq!(Err(WaitError::InProgress), pool.restart());
    pool.complete(false);
    assert_eq!(Ok(()), pool.restart());
    assert_eq!(None, pool.poll());
}

#[test]
fn wait_cancel_resolves_pending() {
    let mut pool = WaitPool::new();
    pool.start();
    let woke = pool.cancel();
    assert!(woke);
    assert_eq!(Some(Err(WaitError::Cancelled)), pool.poll());
    // A result that already arrived wins over a later cancel.
    let mut second = WaitPool::new();
    second.start();
    second.complete(false);
    assert!(!second.cancel());
    assert_eq!(Some(Ok(())), second.poll());
}

#[test]
fn work_once_resolves_once() {
    let mut state: WorkOncePool<i32> = WorkOncePool::new();
    assert_eq!(None, state.poll());
    state.complete(42);
    assert_eq!(Some(42), state.poll());
}

#[test]
fn work_cancel_after_completion_keeps_real_result() {
    // The closure finished before the cancellation: the closure wins.
    let mut state: WorkOncePool<i32> = WorkOncePool::new();
    state.complete(42);
    state.cancel_with(0);
    assert_eq!(Some(42), state.poll());
}

#[test]
fn work_cancel_before_any_result_installs_synthetic() {
    let mut state: WorkOncePool<i32> = WorkOncePool::new();
    state.cancel_with(7);
    assert_eq!(Some(7), state.poll());
}

#[test]
fn watch_signal_fires_once_inner_completes() {
    let mut inner = Inner::new();
    assert!(!inner.is_signalled());
    let mut watch: Watch<u32> = Watch::new(42);
    assert_eq!(Some(&42), watch.inner());
    watch.finish();
    inner.signal();
    assert!(inner.is_signalled());
    assert_eq!(None, watch.inner());
}
