use mpmc::protocol::{
    blocking_step, probe_claim, probe_pop, probe_push, publish_seq, release_seq, round_capacity,
    pop_next, push_next, round_step, slot_count, Next, Phase, Probe, Step, WaitAction,
};
use mpmc::ring::SlotRing;
use mpmc::MpmcQueue;

#[test]
fn capacity_rounds_to_next_power_of_two() {
    assert_eq!(round_capacity(0), 1);
    assert_eq!(round_capacity(1), 1);
    assert_eq!(round_capacity(2), 2);
    assert_eq!(round_capacity(3), 4);
    assert_eq!(round_capacity(5), 8);
    assert_eq!(round_capacity(1024), 1024);
    assert_eq!(round_capacity(1025), 2048);
    assert_eq!(round_capacity(usize::MAX / 2 + 1), usize::MAX / 2 + 1);
}

#[test]
fn queue_uses_rounded_capacity() {
    let q = MpmcQueue::<u32>::new(3);
    for i in 0..4 {
        assert!(q.try_push(i).is_ok());
    }
    assert_eq!(q.try_push(9), Err(9));
    for i in 0..4 {
        assert_eq!(q.try_pop(), Some(i));
    }
    assert_eq!(q.try_pop(), None);
}

#[test]
fn slots_are_at_least_two() {
    assert_eq!(slot_count(1), 2);
    assert_eq!(slot_count(2), 2);
    assert_eq!(slot_count(8), 8);
}

#[test]
fn queue_capacity_one_holds_one() {
    let q = MpmcQueue::<u32>::new(1);
    assert!(q.try_push(1).is_ok());
    assert_eq!(q.try_push(2), Err(2));
    assert_eq!(q.try_pop(), Some(1));
    assert!(q.try_push(2).is_ok());
    assert_eq!(q.try_push(3), Err(3));
    assert_eq!(q.try_pop(), Some(2));
    assert_eq!(q.try_pop(), None);
}

#[test]
fn queue_rounds_report_their_decisions() {
    let q = MpmcQueue::<u32>::new(1);
    let first = q.push_round(7, 0);
    assert_eq!((first.pos, first.seq, first.head), (0, 0, 0));
    assert_eq!(first.probe, Probe::Ready);
    assert!(first.claimed);
    assert_eq!(first.step, Step::Done);
    assert!(first.slot_locked);
    assert_eq!(first.back, None);
    // the second slot is free, but the capacity is reached
    let second = q.push_round(8, 0);
    assert_eq!((second.pos, second.seq, second.head), (1, 1, 0));
    assert_eq!(second.probe, Probe::Blocked);
    assert!(!second.claimed);
    assert_eq!(second.step, Step::GiveBack);
    assert_eq!(second.back, Some(8));
    let taken = q.pop_round(0);
    assert_eq!((taken.pos, taken.seq), (0, 1));
    assert_eq!(taken.probe, Probe::Ready);
    assert_eq!(taken.step, Step::Done);
    assert_eq!(taken.item, Some(7));
    let empty = q.pop_round(0);
    // slot 1 still holds the sequence of the position that will fill it
    assert_eq!((empty.pos, empty.seq), (1, 1));
    assert_eq!(empty.probe, Probe::Blocked);
    assert_eq!(empty.step, Step::GiveBack);
    assert_eq!(empty.item, None);
}

#[test]
fn round_steps() {
    assert_eq!(round_step(Probe::Ready, true, 0), Step::Done);
    assert_eq!(round_step(Probe::Ready, false, 0), Step::Retry);
    assert_eq!(round_step(Probe::Ready, false, usize::MAX), Step::GiveBack);
    assert_eq!(round_step(Probe::Blocked, false, 0), Step::GiveBack);
    assert_eq!(round_step(Probe::Stale, false, 3), Step::Retry);
    assert_eq!(round_step(Probe::Stale, false, usize::MAX), Step::GiveBack);
}

#[test]
fn push_and_pop_decisions_after_a_round() {
    assert_eq!(push_next(true, Step::Done), Next::Succeed);
    assert_eq!(push_next(false, Step::Done), Next::Fail);
    assert_eq!(push_next(false, Step::GiveBack), Next::Fail);
    assert_eq!(push_next(false, Step::Retry), Next::Again);
    assert_eq!(pop_next(true, Step::Done, 0), Next::Succeed);
    assert_eq!(pop_next(false, Step::Done, 0), Next::Again);
    assert_eq!(pop_next(false, Step::Done, usize::MAX), Next::Fail);
    assert_eq!(pop_next(false, Step::GiveBack, 0), Next::Fail);
    assert_eq!(pop_next(false, Step::Retry, 5), Next::Again);
}

#[test]
fn blocking_steps() {
    assert_eq!(blocking_step(Phase::Unlocked, true), WaitAction::Finish);
    assert_eq!(blocking_step(Phase::Locked, true), WaitAction::Finish);
    assert_eq!(blocking_step(Phase::Unlocked, false), WaitAction::LockAndRetry);
    assert_eq!(blocking_step(Phase::Locked, false), WaitAction::Wait);
}

#[test]
fn claim_probes_check_room() {
    // slot free and room left
    assert_eq!(probe_claim(3, 3, 2, 2), Probe::Ready);
    // slot free but as many items as the capacity
    assert_eq!(probe_claim(3, 3, 2, 1), Probe::Blocked);
    // slot a lap behind
    assert_eq!(probe_claim(1, 3, 2, 2), Probe::Blocked);
    // consumers already past this producer's position
    assert_eq!(probe_claim(3, 3, 4, 2), Probe::Stale);
}

#[test]
fn probe_decisions() {
    // a free slot at the producer's position
    assert_eq!(probe_push(5, 5), Probe::Ready);
    // a slot still holding the item of the previous lap
    assert_eq!(probe_push(2, 5), Probe::Blocked);
    // a producer that read an old position
    assert_eq!(probe_push(6, 5), Probe::Stale);
    // positions that wrap around the word
    assert_eq!(probe_push(0, usize::MAX), Probe::Stale);
    assert_eq!(probe_push(usize::MAX, 0), Probe::Blocked);
    // a published slot at the consumer's position
    assert_eq!(probe_pop(6, 5), Probe::Ready);
    // a slot not yet published
    assert_eq!(probe_pop(5, 5), Probe::Blocked);
    // a consumer that read an old position
    assert_eq!(probe_pop(7, 5), Probe::Stale);
    assert_eq!(probe_pop(0, usize::MAX), Probe::Ready);
}

#[test]
fn sequence_numbers_after_use() {
    assert_eq!(publish_seq(5), 6);
    assert_eq!(publish_seq(usize::MAX), 0);
    assert_eq!(release_seq(5, 4), 9);
    assert_eq!(release_seq(usize::MAX, 4), 3);
}

#[test]
fn laws_on_concrete_slots() {
    // published at 10, the consumer at 10 may take it
    assert_eq!(probe_pop(publish_seq(10), 10), Probe::Ready);
    // released at 10 in a ring of 4, the producer at 14 may fill it
    assert_eq!(probe_push(release_seq(10, 4), 14), Probe::Ready);
    // published at 10 and unread, the producer at 14 must wait
    assert_eq!(probe_push(publish_seq(10), 14), Probe::Blocked);
    // released at 10, the consumer at 14 must wait
    assert_eq!(probe_pop(release_seq(10, 4), 14), Probe::Blocked);
    // with a single slot the published sequence would look free to the next lap
    assert_eq!(probe_push(publish_seq(10), 11), Probe::Ready);
}

#[test]
fn ring_capacity_one_holds_one() {
    let mut r = SlotRing::<u8>::new(1);
    assert_eq!(r.capacity(), 1);
    assert_eq!(r.try_push(1), Ok(()));
    assert_eq!(r.try_push(2), Err(2));
    assert_eq!(r.try_pop(), Some(1));
    assert_eq!(r.try_push(2), Ok(()));
    assert_eq!(r.try_pop(), Some(2));
    assert_eq!(r.try_pop(), None);
}

#[test]
fn ring_new_is_empty() {
    let mut r = SlotRing::<u8>::new(5);
    assert_eq!(r.capacity(), 8);
    assert_eq!(r.len(), 0);
    assert_eq!(r.try_pop(), None);
}

#[test]
fn ring_fifo_and_refusals() {
    let mut r = SlotRing::<u32>::new(2);
    assert_eq!(r.capacity(), 2);
    assert_eq!(r.try_push(1), Ok(()));
    assert_eq!(r.try_push(2), Ok(()));
    assert_eq!(r.len(), 2);
    assert_eq!(r.try_push(3), Err(3));
    assert_eq!(r.try_pop(), Some(1));
    assert_eq!(r.try_push(3), Ok(()));
    assert_eq!(r.try_pop(), Some(2));
    assert_eq!(r.try_pop(), Some(3));
    assert_eq!(r.try_pop(), None);
    assert_eq!(r.len(), 0);
}

#[test]
fn ring_many_laps_keep_order() {
    let mut r = SlotRing::<u64>::new(4);
    let mut next_in: u64 = 0;
    let mut next_out: u64 = 0;
    for round in 0..1000u64 {
        let pushes = 1 + round % 4;
        for _ in 0..pushes {
            if r.try_push(next_in).is_ok() {
                next_in += 1;
            }
        }
        let pops = 1 + (round * 7) % 4;
        for _ in 0..pops {
            match r.try_pop() {
                Some(v) => {
                    assert_eq!(v, next_out);
                    next_out += 1;
                }
                None => assert_eq!(next_in, next_out),
            }
        }
        assert!(r.len() <= 4);
        assert_eq!(r.len() as u64, next_in - next_out);
    }
}

#[test]
fn law_fifo_on_a_run() {
    // what went in (accepted pushes) comes out in the same order, once each
    let mut r = SlotRing::<i32>::new(2);
    let mut accepted = Vec::new();
    let mut handed = Vec::new();
    let ops: [Option<i32>; 9] = [Some(1), Some(2), Some(3), None, Some(4), None, None, None, Some(5)];
    for op in ops {
        match op {
            Some(x) => {
                if r.try_push(x).is_ok() {
                    accepted.push(x);
                }
            }
            None => {
                if let Some(x) = r.try_pop() {
                    handed.push(x);
                }
            }
        }
    }
    let mut held = Vec::new();
    while let Some(x) = r.try_pop() {
        held.push(x);
    }
    let mut out = handed.clone();
    out.extend(held);
    assert_eq!(accepted, vec![1, 2, 4, 5]);
    assert_eq!(handed, vec![1, 2, 4]);
    assert_eq!(out, accepted);
}
