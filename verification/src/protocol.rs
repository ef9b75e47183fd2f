//! The sequence-number protocol that decides who may use a slot.
//!
//! Every slot carries a sequence number. A slot whose sequence equals a
//! producer's position is free for that producer; once written it holds
//! `position + 1`, which is what the consumer at that position waits for;
//! once read it holds `position + capacity`, the position at which the
//! producer of the next lap will find it free again. Positions and sequence
//! numbers are machine words that wrap around.
use vstd::prelude::*;
use vstd::arithmetic::power2::{pow2, lemma2_to64, lemma2_to64_rest, lemma_pow2_unfold,
    lemma_pow2_pos, lemma_pow2_strictly_increases, lemma_pow2_adds};
use vstd::wrapping::usize_specs::{wrapping_add, wrapping_sub};

verus! {

/// Number of distinct machine words: positions are taken modulo this.
pub open spec fn word_modulus() -> int {
    usize::MAX + 1
}

/// `c` is a power of two that a machine word can hold.
pub open spec fn is_word_power_of_two(c: int) -> bool {
    exists|e: nat| e < usize::BITS && c == pow2(e)
}

/// The largest capacity a queue can round up to: half the word range, so
/// that the signed distance between two positions of one lap is exact.
pub open spec fn max_capacity() -> int {
    usize::MAX / 2 + 1
}

/// The capacity a queue asked for `requested` items gets: the smallest
/// power of two that is at least `requested`.
pub open spec fn is_rounded_capacity(c: int, requested: int) -> bool {
    &&& is_word_power_of_two(c)
    &&& c >= requested
    &&& (c == 1 || c < 2 * requested)
}

/// The number of slots a ring of capacity `c` uses: `c`, but at least 2.
/// With a single slot the sequence a consumer releases would equal the one a
/// producer publishes, and the protocol could not tell them apart; a ring of
/// capacity 1 keeps its second slot empty.
pub open spec fn slots_for(c: int) -> int {
    if c < 2 {
        2
    } else {
        c
    }
}

/// The signed distance from `target` to `seq`, read as the original word
/// difference interpreted as a two's-complement signed number.
pub open spec fn signed_distance(seq: usize, target: usize) -> int {
    let w = wrapping_sub(seq, target) as int;
    if w > usize::MAX / 2 {
        w - word_modulus()
    } else {
        w
    }
}

/// What a thread that probed a slot may do next.
#[derive(PartialEq, Eq, Structural, Debug, Clone, Copy)]
pub enum Probe {
    /// The slot is this thread's to take at its position.
    Ready,
    /// The slot is still a lap behind: the queue is full (for a producer)
    /// or empty (for a consumer).
    Blocked,
    /// Another thread already took this position; reread it.
    Stale,
}

/// The decision a signed distance stands for.
pub open spec fn probe_of(distance: int) -> Probe {
    if distance == 0 {
        Probe::Ready
    } else if distance < 0 {
        Probe::Blocked
    } else {
        Probe::Stale
    }
}

/// The sequence number a producer leaves in a slot it filled at `pos`.
pub open spec fn published_seq(pos: usize) -> usize {
    wrapping_add(pos, 1)
}

/// The sequence number a consumer leaves in a slot it emptied at `pos`,
/// in a ring of `cap` slots.
pub open spec fn released_seq(pos: usize, cap: usize) -> usize {
    wrapping_add(pos, cap)
}

/// Decides what a producer at `pos` may do with a slot holding `seq`.
pub fn probe_push(seq: usize, pos: usize) -> (r: Probe)
    ensures
        r == probe_of(signed_distance(seq, pos)),
{
    let w = seq.wrapping_sub(pos);
    if w == 0 {
        Probe::Ready
    } else if w > usize::MAX / 2 {
        Probe::Blocked
    } else {
        Probe::Stale
    }
}

/// Decides what a consumer at `pos` may do with a slot holding `seq`: the
/// slot is ready when a producer published it at `pos`.
pub fn probe_pop(seq: usize, pos: usize) -> (r: Probe)
    ensures
        r == probe_of(signed_distance(seq, published_seq(pos))),
{
    let w = seq.wrapping_sub(pos.wrapping_add(1));
    if w == 0 {
        Probe::Ready
    } else if w > usize::MAX / 2 {
        Probe::Blocked
    } else {
        Probe::Stale
    }
}

/// Whether a producer at `pos` has room, `head` being the position of the
/// next item to leave and `capacity` the most items the queue may hold.
pub open spec fn room_of(distance: int, capacity: int) -> Probe {
    if distance < 0 {
        Probe::Stale
    } else if distance >= capacity {
        Probe::Blocked
    } else {
        Probe::Ready
    }
}

/// What a producer at `pos` may do, given the sequence `seq` of its slot,
/// the dequeue position `head` and the capacity: the slot must be free for
/// it, and the items between `head` and `pos` must leave room for one more.
pub open spec fn claim_probe(seq: usize, pos: usize, head: usize, capacity: nat) -> Probe {
    let slot = probe_of(signed_distance(seq, pos));
    if slot == Probe::Ready {
        room_of(signed_distance(pos, head), capacity as int)
    } else {
        slot
    }
}

/// Decides what a producer at `pos` may do, from the sequence of its slot,
/// the dequeue position and the capacity.
pub fn probe_claim(seq: usize, pos: usize, head: usize, capacity: usize) -> (r: Probe)
    ensures
        r == claim_probe(seq, pos, head, capacity as nat),
{
    match probe_push(seq, pos) {
        Probe::Ready => {
            let d = pos.wrapping_sub(head);
            if d > usize::MAX / 2 {
                Probe::Stale
            } else if d >= capacity {
                Probe::Blocked
            } else {
                Probe::Ready
            }
        },
        other => other,
    }
}

/// What one round of a push or a pop leads to.
#[derive(PartialEq, Eq, Structural, Debug, Clone, Copy)]
pub enum Step {
    /// The position was claimed: the thread uses the slot and is done.
    Done,
    /// The queue is full (or empty): the producer keeps its item, the
    /// consumer gets nothing.
    GiveBack,
    /// The round was lost to another thread: read the position again.
    Retry,
}

/// The step a round takes: after a `Ready` probe the thread tried to claim
/// the position and `claimed` says whether it won; `rounds` counts the
/// rounds already lost, and the last possible count ends the attempts.
pub open spec fn step_of(probe: Probe, claimed: bool, rounds: usize) -> Step {
    if probe == Probe::Blocked {
        Step::GiveBack
    } else if probe == Probe::Ready && claimed {
        Step::Done
    } else if rounds == usize::MAX {
        Step::GiveBack
    } else {
        Step::Retry
    }
}

/// Decides the step of a round from its probe, the outcome of the claim
/// and the number of rounds already lost.
pub fn round_step(probe: Probe, claimed: bool, rounds: usize) -> (r: Step)
    ensures
        r == step_of(probe, claimed, rounds),
{
    match probe {
        Probe::Blocked => Step::GiveBack,
        Probe::Ready if claimed => Step::Done,
        _ => {
            if rounds == usize::MAX {
                Step::GiveBack
            } else {
                Step::Retry
            }
        },
    }
}

/// What a non-blocking push or pop does after a round.
#[derive(PartialEq, Eq, Structural, Debug, Clone, Copy)]
pub enum Next {
    /// The item was stored (push) or taken (pop): return it.
    Succeed,
    /// The queue was full (push) or empty (pop), or the rounds ran out:
    /// hand the item back, or return nothing.
    Fail,
    /// Try another round.
    Again,
}

/// What a push does after a round: a stored item is done; a round lost to
/// another producer goes again; any other round hands the item back.
pub open spec fn push_next_of(stored: bool, step: Step) -> Next {
    if stored {
        Next::Succeed
    } else if step == Step::Retry {
        Next::Again
    } else {
        Next::Fail
    }
}

/// Decides what a push does after a round.
pub fn push_next(stored: bool, step: Step) -> (r: Next)
    ensures
        r == push_next_of(stored, step),
{
    if stored {
        Next::Succeed
    } else {
        match step {
            Step::Retry => Next::Again,
            _ => Next::Fail,
        }
    }
}

/// What a pop does after a round that was preceded by `rounds` others: an
/// item taken is returned; an empty queue, or the last possible round,
/// returns nothing; a round lost to another consumer, or one that claimed a
/// slot and found no item in it, goes again.
pub open spec fn pop_next_of(taken: bool, step: Step, rounds: usize) -> Next {
    if taken {
        Next::Succeed
    } else if step == Step::GiveBack || rounds == usize::MAX {
        Next::Fail
    } else {
        Next::Again
    }
}

/// Decides what a pop does after a round.
pub fn pop_next(taken: bool, step: Step, rounds: usize) -> (r: Next)
    ensures
        r == pop_next_of(taken, step, rounds),
{
    if taken {
        Next::Succeed
    } else if step == Step::GiveBack || rounds == usize::MAX {
        Next::Fail
    } else {
        Next::Again
    }
}

/// Whether a blocking push or pop holds the queue's lock.
#[derive(PartialEq, Eq, Structural, Debug, Clone, Copy)]
pub enum Phase {
    Unlocked,
    Locked,
}

/// What a blocking push or pop does after a non-blocking try.
#[derive(PartialEq, Eq, Structural, Debug, Clone, Copy)]
pub enum WaitAction {
    /// The try succeeded: release the lock if held, wake one thread of the
    /// other side, and return.
    Finish,
    /// The try failed without the lock: take the lock and try again, so that
    /// no wake-up can slip between the failed try and the wait.
    LockAndRetry,
    /// The try failed under the lock: wait for the other side (which
    /// releases the lock), then try again without it.
    Wait,
}

/// The decision of a blocking push or pop after a try: finish on success;
/// on failure, lock first, and wait only after a retry under the lock.
pub open spec fn wait_action_of(phase: Phase, succeeded: bool) -> WaitAction {
    if succeeded {
        WaitAction::Finish
    } else if phase == Phase::Unlocked {
        WaitAction::LockAndRetry
    } else {
        WaitAction::Wait
    }
}

/// Decides what a blocking push or pop does after a try.
pub fn blocking_step(phase: Phase, succeeded: bool) -> (r: WaitAction)
    ensures
        r == wait_action_of(phase, succeeded),
{
    if succeeded {
        WaitAction::Finish
    } else {
        match phase {
            Phase::Unlocked => WaitAction::LockAndRetry,
            Phase::Locked => WaitAction::Wait,
        }
    }
}

/// The sequence number a producer stores after filling the slot at `pos`.
pub fn publish_seq(pos: usize) -> (r: usize)
    ensures
        r == published_seq(pos),
{
    pos.wrapping_add(1)
}

/// The sequence number a consumer stores after emptying the slot at `pos`.
pub fn release_seq(pos: usize, cap: usize) -> (r: usize)
    ensures
        r == released_seq(pos, cap),
{
    pos.wrapping_add(cap)
}

/// Machine-word facts that the rounding and the laws rest on.
pub proof fn lemma_word_facts()
    ensures
        pow2(usize::BITS as nat) == word_modulus(),
        usize::BITS == 32 || usize::BITS == 64,
        usize::MAX / 2 == isize::MAX,
        pow2(0) == 1,
        pow2(1) == 2,
{
    lemma2_to64();
    lemma2_to64_rest();
}

/// Rounds a requested capacity up to the next power of two.
pub fn round_capacity(requested: usize) -> (c: usize)
    requires
        requested <= max_capacity(),
    ensures
        is_rounded_capacity(c as int, requested as int),
        c <= max_capacity(),
{
    proof {
        lemma_word_facts();
    }
    let mut c: usize = 1;
    let ghost mut e: nat = 0;
    while c < requested
        invariant
            1 <= c <= max_capacity(),
            c == pow2(e),
            e < usize::BITS,
            requested <= max_capacity(),
            c == 1 || c < 2 * requested,
            pow2(usize::BITS as nat) == word_modulus(),
        decreases usize::MAX - c,
    {
        proof {
            let top = (usize::BITS - 1) as nat;
            lemma_pow2_unfold(usize::BITS as nat);
            lemma_pow2_unfold(e + 1);
            if e >= top {
                if e > top {
                    lemma_pow2_strictly_increases(top, e);
                }
                assert(false);
            }
            if e + 1 < top {
                lemma_pow2_strictly_increases(e + 1, top);
            }
            assert(pow2(e + 1) <= pow2(top));
        }
        c = c * 2;
        proof {
            e = e + 1;
        }
    }
    c
}

/// The number of slots for a ring of capacity `c`.
pub fn slot_count(c: usize) -> (n: usize)
    ensures
        n == slots_for(c as int),
{
    if c < 2 {
        2
    } else {
        c
    }
}

/// The rounding rule leaves no choice: two capacities that both meet it for
/// the same request are equal.
pub proof fn law_rounded_capacity_is_unique(a: int, b: int, requested: int)
    requires
        is_rounded_capacity(a, requested),
        is_rounded_capacity(b, requested),
    ensures
        a == b,
{
    let ea = choose|e: nat| e < usize::BITS && a == pow2(e);
    let eb = choose|e: nat| e < usize::BITS && b == pow2(e);
    lemma_pow2_pos(ea);
    lemma_pow2_pos(eb);
    if ea < eb {
        lemma_doubling_gap(ea, eb);
    } else if eb < ea {
        lemma_doubling_gap(eb, ea);
    }
}

/// A larger power of two is at least twice a smaller one.
proof fn lemma_doubling_gap(lo: nat, hi: nat)
    requires
        lo < hi,
    ensures
        pow2(hi) >= 2 * pow2(lo),
{
    let d = (hi - lo) as nat;
    lemma_pow2_adds(lo, d);
    lemma_pow2_strictly_increases(0, d);
    lemma2_to64();
    lemma_pow2_pos(lo);
    assert(pow2(lo) * pow2(d) >= pow2(lo) * 2) by (nonlinear_arith)
        requires
            pow2(d) >= 2,
            pow2(lo) > 0,
    ;
}

/// A consumer at `pos` finds its slot ready exactly when the slot holds
/// `pos + 1`, the sequence a producer publishes after filling it at `pos`.
pub proof fn law_consumer_ready_iff_published(seq: usize, pos: usize)
    ensures
        probe_of(signed_distance(seq, published_seq(pos))) == Probe::Ready
            <==> seq == wrapping_add(pos, 1),
{
}

/// A producer at `pos` finds a slot ready exactly when the slot holds `pos`;
/// a slot a consumer released at `p` in a ring of `cap` slots is thus ready
/// exactly for the producer at `p + cap`, the next lap.
pub proof fn law_producer_ready_iff_released(p: usize, cap: usize, pos: usize)
    ensures
        probe_of(signed_distance(released_seq(p, cap), pos)) == Probe::Ready
            <==> pos == wrapping_add(p, cap),
{
}

/// On any lap, a producer whose slot is free for it may claim its position
/// exactly when fewer than `capacity` items lie between the dequeue position
/// and its own, counted in wrapping words; with `capacity` or more it finds
/// the queue full.
pub proof fn law_room_on_every_lap(pos: usize, head: usize, capacity: nat)
    requires
        1 <= capacity <= max_capacity(),
    ensures
        claim_probe(pos, pos, head, capacity) == Probe::Ready
            <==> wrapping_sub(pos, head) < capacity,
        claim_probe(pos, pos, head, capacity) == Probe::Blocked
            <==> capacity <= wrapping_sub(pos, head) <= usize::MAX / 2,
{
}

/// In a fresh queue, where slot `i` holds sequence `i` and both positions
/// are 0, each of the first `capacity` producers finds its slot free and
/// room to claim it: the queue accepts a full load before it is full.
pub proof fn law_fresh_queue_accepts_its_capacity(i: usize, capacity: nat)
    requires
        1 <= capacity <= max_capacity(),
        i < capacity,
    ensures
        claim_probe(i, i, 0, capacity) == Probe::Ready,
{
}

/// A slot published at `pos` and not yet read is closed to the producer of
/// the next lap, at `pos + cap`: the ring reports itself full rather than
/// overwrite an unread item. This needs at least two slots: with one, the
/// published sequence equals the next lap's position.
pub proof fn law_published_slot_blocks_next_lap(pos: usize, cap: usize)
    requires
        2 <= cap <= max_capacity(),
    ensures
        probe_of(signed_distance(published_seq(pos), wrapping_add(pos, cap))) == Probe::Blocked,
{
}

/// A slot released at `pos` is closed to the consumer of the next lap, at
/// `pos + cap`, until a producer fills it again: the ring reports itself
/// empty rather than return a stale item.
pub proof fn law_released_slot_blocks_next_consumer(pos: usize, cap: usize)
    requires
        1 <= cap <= max_capacity(),
    ensures
        probe_of(signed_distance(released_seq(pos, cap), published_seq(wrapping_add(pos, cap))))
            == Probe::Blocked,
{
}

} // verus!
