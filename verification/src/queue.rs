//! The shared queue: a ring of slots whose sequence numbers and positions
//! are atomics, so that any number of producers and consumers can use it
//! through `&self`.
use vstd::prelude::*;
use std::sync::atomic::{AtomicUsize, Ordering};
use std::sync::{Condvar, Mutex};
use crate::protocol::{
    is_rounded_capacity, is_word_power_of_two, max_capacity, slots_for, claim_probe, probe_of,
    signed_distance, published_seq, step_of, Next, Probe, Step, probe_claim, probe_pop,
    round_step, push_next, pop_next, publish_seq, release_seq, round_capacity, slot_count,
};
use crate::ring::{lemma_mask_is_slot, sequences_agree, law_fresh_ring_agrees};
use vstd::wrapping::usize_specs::wrapping_add;
use crate::sync::{try_lock_mutex, replace_guarded};

verus! {

/// One slot: its sequence number and the item it may hold.
#[verifier::reject_recursive_types(T)]
struct Slot<T> {
    sequence: AtomicUsize,
    data: Mutex<Option<T>>,
}

/// A bounded queue for many producers and many consumers.
///
/// `try_push` and `try_pop` never block: they claim a position by a
/// compare-and-swap on the position counter, after the slot's sequence
/// number said the slot is theirs, and reach the slot's item only through
/// a lock attempt that does not wait. For blocking use, the queue offers a
/// lock and two condition variables, and `blocking_step` decides when to
/// take the lock and when to wait.
#[verifier::reject_recursive_types(T)]
pub struct MpmcQueue<T> {
    buffer: Vec<Slot<T>>,
    mask: usize,
    limit: usize,
    enqueue_pos: AtomicUsize,
    dequeue_pos: AtomicUsize,
    mutex: Mutex<()>,
    not_empty: Condvar,
    not_full: Condvar,
    initial: Ghost<Seq<usize>>,
}

/// What one round of a push saw and decided.
pub struct PushRound<T> {
    /// The enqueue position read.
    pub pos: usize,
    /// The sequence number read from that position's slot.
    pub seq: usize,
    /// The dequeue position read.
    pub head: usize,
    /// The decision taken from them.
    pub probe: Probe,
    /// Whether the compare-and-swap that claims `pos` succeeded.
    pub claimed: bool,
    /// Where the round leads.
    pub step: Step,
    /// Whether the round, being `Done`, got the slot's lock.
    pub slot_locked: bool,
    /// The sequence number the round stored in the slot, when `Done`.
    pub published: Option<usize>,
    /// The item, when the round did not store it.
    pub back: Option<T>,
}

/// What one round of a pop saw and decided.
pub struct PopRound<T> {
    /// The dequeue position read.
    pub pos: usize,
    /// The sequence number read from that position's slot.
    pub seq: usize,
    /// The decision taken from it.
    pub probe: Probe,
    /// Whether the compare-and-swap that claims `pos` succeeded.
    pub claimed: bool,
    /// Where the round leads.
    pub step: Step,
    /// Whether the round, being `Done`, got the slot's lock.
    pub slot_locked: bool,
    /// The sequence number the round stored in the slot, when `Done`.
    pub released: Option<usize>,
    /// The item taken from the slot.
    pub item: Option<T>,
}

impl<T> MpmcQueue<T> {
    #[verifier::type_invariant]
    spec fn shape(&self) -> bool {
        &&& is_word_power_of_two(self.buffer@.len() as int)
        &&& 2 <= self.buffer@.len() <= max_capacity()
        &&& self.mask == self.buffer@.len() - 1
        &&& 1 <= self.limit <= max_capacity()
        &&& self.buffer@.len() == slots_for(self.limit as int)
    }

    /// The most items the queue holds at once.
    pub closed spec fn spec_capacity(&self) -> nat {
        self.limit as nat
    }

    /// The number of slots.
    pub closed spec fn spec_slots(&self) -> nat {
        self.buffer@.len()
    }

    /// The number of slots, as a machine word.
    pub closed spec fn slot_word(&self) -> usize {
        self.buffer@.len() as usize
    }

    /// The sequence number each slot was created with.
    pub closed spec fn initial_sequences(&self) -> Seq<usize> {
        self.initial@
    }

    /// The slot that serves position `pos`.
    fn slot_index(&self, pos: usize) -> (i: usize)
        ensures
            i < self.spec_slots(),
            i == pos as nat % self.spec_slots(),
    {
        proof {
            use_type_invariant(self);
            lemma_mask_is_slot(pos, self.buffer@.len() as usize);
        }
        pos & self.mask
    }

    /// The number of slots, as a value.
    fn slots(&self) -> (n: usize)
        ensures
            n == self.spec_slots(),
    {
        self.buffer.len()
    }
}

impl<T: Send> MpmcQueue<T> {
    /// Creates an empty queue that holds up to `capacity` items rounded up to
    /// a power of two. Slot `i` starts with sequence number `i`: free for the
    /// producer at position `i`. A queue of capacity 1 uses two slots, since
    /// the protocol needs two, and refuses a second item by its capacity.
    pub fn new(capacity: usize) -> (q: Self)
        requires
            1 <= capacity <= max_capacity(),
        ensures
            is_rounded_capacity(q.spec_capacity() as int, capacity as int),
            q.spec_slots() == slots_for(q.spec_capacity() as int),
            q.slot_word() == q.spec_slots(),
            q.initial_sequences().len() == q.spec_slots(),
            forall|i: int| 0 <= i < q.spec_slots() ==> q.initial_sequences()[i] == i,
            sequences_agree(0, 0, q.initial_sequences(), q.spec_capacity()),
    {
        let limit = round_capacity(capacity);
        let cap = slot_count(limit);
        proof {
            vstd::arithmetic::power2::lemma2_to64();
            assert(is_word_power_of_two(cap as int)) by {
                if limit < 2 {
                    assert(cap == vstd::arithmetic::power2::pow2(1));
                }
            }
        }
        let mut buffer: Vec<Slot<T>> = Vec::new();
        let ghost mut initial: Seq<usize> = Seq::empty();
        let mut i: usize = 0;
        while i < cap
            invariant
                i <= cap,
                buffer@.len() == i,
                initial.len() == i,
                forall|j: int| 0 <= j < i ==> initial[j] == j,
            decreases cap - i,
        {
            let first_seq: usize = i;
            buffer.push(Slot { sequence: AtomicUsize::new(first_seq), data: Mutex::new(None) });
            proof {
                initial = initial.push(first_seq);
            }
            i = i + 1;
        }
        let q = MpmcQueue {
            buffer,
            mask: cap - 1,
            limit,
            enqueue_pos: AtomicUsize::new(0),
            dequeue_pos: AtomicUsize::new(0),
            mutex: Mutex::new(()),
            not_empty: Condvar::new(),
            not_full: Condvar::new(),
            initial: Ghost(initial),
        };
        proof {
            law_fresh_ring_agrees(initial, limit as nat);
        }
        q
    }

    /// One round of a push, after `rounds` lost ones. It reads the enqueue
    /// position, the sequence number of its slot and the dequeue position,
    /// and probes them; on `Ready` it claims the position by a
    /// compare-and-swap. When the round is `Done` it tries the slot's lock
    /// without waiting, stores the item if it got the lock, and publishes the
    /// slot; otherwise, or when the lock was held, the item comes back. The
    /// protocol leaves the lock free here, since a consumer unlocks a slot
    /// before it releases it; were it held, the slot would be published
    /// empty and its consumer would take nothing from it.
    pub fn push_round(&self, item: T, rounds: usize) -> (r: PushRound<T>)
        ensures
            r.probe == claim_probe(r.seq, r.pos, r.head, self.spec_capacity()),
            r.claimed ==> r.probe == Probe::Ready,
            r.step == step_of(r.probe, r.claimed, rounds),
            r.slot_locked ==> r.step == Step::Done,
            r.published == (if r.step == Step::Done {
                Some(wrapping_add(r.pos, 1))
            } else {
                None::<usize>
            }),
            r.back is None <==> r.step == Step::Done && r.slot_locked,
            r.back is Some ==> r.back == Some(item),
    {
        let pos = self.enqueue_pos.load(Ordering::Relaxed);
        let slot = &self.buffer[self.slot_index(pos)];
        let seq = slot.sequence.load(Ordering::Acquire);
        let head = self.dequeue_pos.load(Ordering::Relaxed);
        let probe = probe_claim(seq, pos, head, self.limit);
        let claimed = match probe {
            Probe::Ready => {
                let next = pos.wrapping_add(1);
                self.enqueue_pos.compare_exchange_weak(
                    pos,
                    next,
                    Ordering::Relaxed,
                    Ordering::Relaxed,
                ).is_ok()
            },
            _ => false,
        };
        let step = round_step(probe, claimed, rounds);
        match step {
            Step::Done => {
                let (slot_locked, back) = match try_lock_mutex(&slot.data) {
                    Some(mut guard) => {
                        let _previous = replace_guarded(&mut guard, Some(item));
                        (true, None)
                    },
                    None => (false, Some(item)),
                };
                let published = publish_seq(pos);
                slot.sequence.store(published, Ordering::Release);
                PushRound {
                    pos,
                    seq,
                    head,
                    probe,
                    claimed,
                    step,
                    slot_locked,
                    published: Some(published),
                    back,
                }
            },
            _ => PushRound {
                pos,
                seq,
                head,
                probe,
                claimed,
                step,
                slot_locked: false,
                published: None,
                back: Some(item),
            },
        }
    }

    /// One round of a pop, after `rounds` lost ones. It reads the dequeue
    /// position and the sequence number of its slot and probes them; on
    /// `Ready` it claims the position by a compare-and-swap. When the round
    /// is `Done` it tries the slot's lock without waiting, takes the slot's
    /// item if it got the lock, and releases the slot to the producer of the
    /// next lap; otherwise it takes nothing. The protocol leaves the lock
    /// free here, since a producer unlocks a slot before it publishes it;
    /// were it held, the slot would be released with its item still in it,
    /// and the next lap's producer would replace that item.
    pub fn pop_round(&self, rounds: usize) -> (r: PopRound<T>)
        ensures
            r.probe == probe_of(signed_distance(r.seq, published_seq(r.pos))),
            r.claimed ==> r.probe == Probe::Ready,
            r.step == step_of(r.probe, r.claimed, rounds),
            r.slot_locked ==> r.step == Step::Done,
            r.released == (if r.step == Step::Done {
                Some(wrapping_add(r.pos, self.slot_word()))
            } else {
                None::<usize>
            }),
            r.item is Some ==> r.step == Step::Done && r.slot_locked,
    {
        let pos = self.dequeue_pos.load(Ordering::Relaxed);
        let slot = &self.buffer[self.slot_index(pos)];
        let seq = slot.sequence.load(Ordering::Acquire);
        let probe = probe_pop(seq, pos);
        let claimed = match probe {
            Probe::Ready => {
                let next = pos.wrapping_add(1);
                self.dequeue_pos.compare_exchange_weak(
                    pos,
                    next,
                    Ordering::Relaxed,
                    Ordering::Relaxed,
                ).is_ok()
            },
            _ => false,
        };
        let step = round_step(probe, claimed, rounds);
        match step {
            Step::Done => {
                let (slot_locked, item) = match try_lock_mutex(&slot.data) {
                    Some(mut guard) => (true, replace_guarded(&mut guard, None)),
                    None => (false, None),
                };
                let released = release_seq(pos, self.slots());
                slot.sequence.store(released, Ordering::Release);
                PopRound {
                    pos,
                    seq,
                    probe,
                    claimed,
                    step,
                    slot_locked,
                    released: Some(released),
                    item,
                }
            },
            _ => PopRound {
                pos,
                seq,
                probe,
                claimed,
                step,
                slot_locked: false,
                released: None,
                item: None,
            },
        }
    }

    /// Adds `item` without blocking, or hands it back when the queue is full.
    ///
    /// Repeats `push_round`, and `push_next` decides after each round: a
    /// stored item returns `Ok`, a round lost to another producer goes
    /// again, any other round hands the item back. After `usize::MAX` lost
    /// rounds the item is handed back as if the queue were full.
    pub fn try_push(&self, item: T) -> (r: Result<(), T>)
        ensures
            r matches Err(back) ==> back == item,
    {
        let mut pending = item;
        let mut rounds: usize = 0;
        loop
            invariant
                pending == item,
            decreases usize::MAX - rounds,
        {
            let round = self.push_round(pending, rounds);
            let step = round.step;
            let back = round.back;
            match push_next(back.is_none(), step) {
                Next::Succeed => {
                    return Ok(());
                },
                Next::Fail => {
                    return Err(back.unwrap());
                },
                Next::Again => {
                    pending = back.unwrap();
                    rounds = rounds + 1;
                },
            }
        }
    }

    /// Removes an item without blocking, or returns `None` when the queue is
    /// empty.
    ///
    /// Repeats `pop_round`, and `pop_next` decides after each round: an item
    /// taken is returned; an empty queue returns `None`; a round lost to
    /// another consumer, or one that claimed a slot and found no item in it,
    /// goes again. After `usize::MAX` such rounds it returns `None`.
    pub fn try_pop(&self) -> (r: Option<T>) {
        let mut rounds: usize = 0;
        loop
            decreases usize::MAX - rounds,
        {
            let round = self.pop_round(rounds);
            let step = round.step;
            let item = round.item;
            match pop_next(item.is_some(), step, rounds) {
                Next::Succeed => {
                    return item;
                },
                Next::Fail => {
                    return None;
                },
                Next::Again => {
                    rounds = rounds + 1;
                },
            }
        }
    }

    /// The lock that blocking pushes and pops take before they wait.
    pub fn blocking_lock(&self) -> &Mutex<()> {
        &self.mutex
    }

    /// The condition variable consumers wait on for an item.
    pub fn not_empty(&self) -> &Condvar {
        &self.not_empty
    }

    /// The condition variable producers wait on for room.
    pub fn not_full(&self) -> &Condvar {
        &self.not_full
    }
}

} // verus!
