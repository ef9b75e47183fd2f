use mpmc::protocol::{blocking_step, Phase, WaitAction};
use mpmc::MpmcQueue;
use std::sync::atomic::{AtomicUsize, Ordering};

// A blocking push as `BoundedQueue::push` does it: try, and let
// `blocking_step` decide whether to finish, lock and retry, or wait.
fn push<T: Send>(q: &MpmcQueue<T>, item: T) {
    let mut item = item;
    let mut phase = Phase::Unlocked;
    let mut guard = None;
    loop {
        let back = q.try_push(item).err();
        match blocking_step(phase, back.is_none()) {
            WaitAction::Finish => {
                drop(guard);
                q.not_empty().notify_one();
                return;
            }
            WaitAction::LockAndRetry => {
                guard = Some(q.blocking_lock().lock().unwrap());
                phase = Phase::Locked;
            }
            WaitAction::Wait => {
                let held = guard.take().unwrap();
                drop(q.not_full().wait(held).unwrap());
                phase = Phase::Unlocked;
            }
        }
        item = back.unwrap();
    }
}

#[test]
fn basic_push_pop() {
    let q = MpmcQueue::<i32>::new(4);
    assert!(q.try_push(42).is_ok());
    assert_eq!(q.try_pop(), Some(42));
    assert_eq!(q.try_pop(), None);
}

#[test]
fn try_push_full() {
    let q = MpmcQueue::<i32>::new(2);
    assert!(q.try_push(1).is_ok());
    assert!(q.try_push(2).is_ok());
    assert_eq!(q.try_push(3), Err(3));
}

#[test]
fn try_pop_empty() {
    let q = MpmcQueue::<i32>::new(4);
    assert_eq!(q.try_pop(), None);
}

#[test]
fn drop_drains_queue() {
    static DROP_COUNT: AtomicUsize = AtomicUsize::new(0);

    struct Counted(#[allow(dead_code)] usize);
    impl Drop for Counted {
        fn drop(&mut self) {
            DROP_COUNT.fetch_add(1, Ordering::Relaxed);
        }
    }

    DROP_COUNT.store(0, Ordering::Relaxed);
    {
        let q = MpmcQueue::<Counted>::new(8);
        for i in 0..5 {
            push(&q, Counted(i));
        }
    }
    assert_eq!(DROP_COUNT.load(Ordering::Relaxed), 5);
}
