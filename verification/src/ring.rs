//! The slot ring under exclusive access: the cells, their sequence numbers
//! and the two positions of an `MpmcQueue`, held as plain values, with the
//! invariant that ties them to the sequence of queued items.
use vstd::prelude::*;
use vstd::arithmetic::power2::{pow2, lemma_pow2_adds, lemma_pow2_pos, lemma2_to64};
use vstd::arithmetic::div_mod::{lemma_fundamental_div_mod, lemma_fundamental_div_mod_converse, lemma_small_mod};
use vstd::bits::lemma_usize_low_bits_mask_is_mod;
use vstd::wrapping::usize_specs::{wrapping_add, wrapping_sub};
use crate::protocol::{
    claim_probe, probe_of, signed_distance, published_seq, Probe,
    is_word_power_of_two, is_rounded_capacity, max_capacity, word_modulus, slots_for, Step,
    probe_claim, probe_pop, round_step, publish_seq, release_seq, round_capacity, slot_count,
    lemma_word_facts,
};

verus! {

/// `p` moved forward by `k` positions, wrapping around the word range.
pub open spec fn advance(p: usize, k: int) -> int {
    if p + k > usize::MAX {
        p + k - word_modulus()
    } else {
        p + k
    }
}

/// The slot that holds the item `k` places after the one in slot `start`,
/// in a ring of `cap` slots.
pub open spec fn slot_at(start: int, k: int, cap: int) -> int {
    if start + k < cap {
        start + k
    } else {
        start + k - cap
    }
}

/// How many places slot `i` lies after slot `start`, in a ring of `cap` slots.
pub open spec fn offset_of(start: int, i: int, cap: int) -> int {
    if i >= start {
        i - start
    } else {
        i + cap - start
    }
}

/// A machine word is a whole number of rings.
pub proof fn lemma_ring_divides_word(cap: int)
    requires
        is_word_power_of_two(cap),
    ensures
        cap > 0,
        word_modulus() % cap == 0,
        word_modulus() == cap * (word_modulus() / cap),
{
    let e = choose|e: nat| e < usize::BITS && cap == pow2(e);
    lemma_word_facts();
    lemma_pow2_pos(e);
    let rest = (usize::BITS - e) as nat;
    lemma_pow2_adds(e, rest);
    assert(pow2(usize::BITS as nat) == pow2(e) * pow2(rest));
    lemma_pow2_pos(rest);
    assert(word_modulus() == (pow2(rest) as int) * cap + 0) by (nonlinear_arith)
        requires
            word_modulus() == pow2(e) * pow2(rest),
            cap == pow2(e),
    ;
    lemma_fundamental_div_mod_converse(word_modulus(), cap, pow2(rest) as int, 0);
}

/// The slot of the position `k` places after `head` is `k` places after the
/// slot of `head`.
pub proof fn lemma_slot_of_advance(head: usize, k: int, cap: int)
    requires
        is_word_power_of_two(cap),
        0 <= k <= cap,
        cap <= max_capacity(),
    ensures
        advance(head, k) % cap == slot_at(head as int % cap, k, cap),
{
    lemma_ring_divides_word(cap);
    lemma_fundamental_div_mod(head as int, cap);
    let q = head as int / cap;
    let s = head as int % cap;
    let r = word_modulus() / cap;
    assert(head == cap * q + s);
    let slot = slot_at(s, k, cap);
    let base = if s + k < cap { q } else { q + 1 };
    assert(cap * base + slot == head + k) by (nonlinear_arith)
        requires
            head == cap * q + s,
            slot == (if s + k < cap { s + k } else { s + k - cap }),
            base == (if s + k < cap { q } else { q + 1 }),
    ;
    if head + k > usize::MAX {
        assert(advance(head, k) == (base - r) * cap + slot) by (nonlinear_arith)
            requires
                cap * base + slot == head + k,
                word_modulus() == cap * r,
                advance(head, k) == head + k - word_modulus(),
        ;
        lemma_fundamental_div_mod_converse(advance(head, k), cap, base - r, slot);
    } else {
        assert(advance(head, k) == base * cap + slot) by (nonlinear_arith)
            requires
                cap * base + slot == head + k,
                advance(head, k) == head + k,
        ;
        lemma_fundamental_div_mod_converse(advance(head, k), cap, base, slot);
    }
}

/// Masking a position with `cap - 1` picks its slot.
pub proof fn lemma_mask_is_slot(p: usize, cap: usize)
    requires
        is_word_power_of_two(cap as int),
    ensures
        p & ((cap - 1) as usize) == p % cap,
{
    let e = choose|e: nat| e < usize::BITS && cap == pow2(e);
    lemma_pow2_pos(e);
    lemma_usize_low_bits_mask_is_mod(p, e);
}

/// The items a ring of `cap` slots holds after `x` was offered to it: `x`
/// joins at the back if there is room.
pub open spec fn items_after_push<T>(items: Seq<T>, cap: nat, x: T) -> Seq<T> {
    if items.len() < cap {
        items.push(x)
    } else {
        items
    }
}

/// The items a ring holds after a pop: the front one leaves, if any.
pub open spec fn items_after_pop<T>(items: Seq<T>) -> Seq<T> {
    if items.len() > 0 {
        items.drop_first()
    } else {
        items
    }
}

/// The item a pop hands out: the front one, if any.
pub open spec fn front<T>(items: Seq<T>) -> Option<T> {
    if items.len() > 0 {
        Some(items[0])
    } else {
        None
    }
}

/// What a run of operations does to a ring of `cap` slots that holds
/// `items`: `Some(x)` in `ops` offers `x` as `try_push` does, `None` pops as
/// `try_pop` does. The result is the items still held, the items the pushes
/// accepted, and the items the pops handed out, each in order.
pub open spec fn replay<T>(items: Seq<T>, cap: nat, ops: Seq<Option<T>>) -> (Seq<T>, Seq<T>, Seq<T>)
    decreases ops.len(),
{
    if ops.len() == 0 {
        (items, Seq::empty(), Seq::empty())
    } else {
        let (held, accepted, handed) = replay(items, cap, ops.drop_last());
        match ops.last() {
            Some(x) => {
                if held.len() < cap {
                    (items_after_push(held, cap, x), accepted.push(x), handed)
                } else {
                    (items_after_push(held, cap, x), accepted, handed)
                }
            },
            None => {
                if held.len() > 0 {
                    (items_after_pop(held), accepted, handed.push(held[0]))
                } else {
                    (items_after_pop(held), accepted, handed)
                }
            },
        }
    }
}

/// First in, first out, nothing lost and nothing doubled: over any run of
/// pushes and pops, what the ring held, followed by what it accepted, is
/// exactly what it handed out, followed by what it still holds. And a ring
/// never holds more than its slots.
pub proof fn law_first_in_first_out<T>(items: Seq<T>, cap: nat, ops: Seq<Option<T>>)
    requires
        items.len() <= cap,
    ensures
        items + replay(items, cap, ops).1 == replay(items, cap, ops).2 + replay(items, cap, ops).0,
        replay(items, cap, ops).0.len() <= cap,
    decreases ops.len(),
{
    if ops.len() > 0 {
        law_first_in_first_out(items, cap, ops.drop_last());
        let (held, accepted, handed) = replay(items, cap, ops.drop_last());
        match ops.last() {
            Some(x) => {
                if held.len() < cap {
                    assert(items + accepted.push(x) =~= (handed + held).push(x));
                    assert((handed + held).push(x) =~= handed + held.push(x));
                }
            },
            None => {
                if held.len() > 0 {
                    assert(handed.push(held[0]) + held.drop_first() =~= handed + held);
                }
            },
        }
    }
}

/// The sequence number slot `i` holds in a quiet ring (no round under way)
/// whose next item to leave is at `head` and which holds `count` items: a
/// slot holding the item at place `k` carries that item's position plus 1,
/// what its consumer waits for; a free slot carries the position of the
/// producer that will fill it next.
pub open spec fn quiet_sequence(head: usize, count: int, i: int, slots: int) -> int {
    let k = offset_of(head as int % slots, i, slots);
    if k < count {
        advance(head, k + 1)
    } else {
        advance(head, k)
    }
}

/// The positions and sequence numbers of a quiet ring of `seqs.len()` slots
/// and the given capacity agree: at most `capacity` items lie between `head`
/// and `tail`, and every slot carries its `quiet_sequence`.
pub open spec fn sequences_agree(head: usize, tail: usize, seqs: Seq<usize>, capacity: nat) -> bool {
    let slots = seqs.len() as int;
    &&& is_word_power_of_two(capacity as int)
    &&& 1 <= capacity <= max_capacity()
    &&& is_word_power_of_two(slots)
    &&& slots == slots_for(capacity as int)
    &&& wrapping_sub(tail, head) <= capacity
    &&& forall|i: int| 0 <= i < slots ==> #[trigger] seqs[i] == quiet_sequence(
        head,
        wrapping_sub(tail, head) as int,
        i,
        slots,
    )
}

/// Where places and slots meet in a ring of `slots` slots whose head slot
/// is `start`.
proof fn lemma_places_of(start: int, slots: int)
    requires
        0 <= start < slots,
    ensures
        forall|k: int| 0 <= k < slots ==>
            0 <= #[trigger] slot_at(start, k, slots) < slots
            && offset_of(start, slot_at(start, k, slots), slots) == k,
        forall|i: int| 0 <= i < slots ==>
            0 <= #[trigger] offset_of(start, i, slots) < slots
            && slot_at(start, offset_of(start, i, slots), slots) == i,
{
}

/// A fresh queue is quiet and agrees with its sequence numbers: slot `i`
/// holds `i` and both positions are 0.
pub proof fn law_fresh_ring_agrees(seqs: Seq<usize>, capacity: nat)
    requires
        is_word_power_of_two(capacity as int),
        1 <= capacity <= max_capacity(),
        seqs.len() == slots_for(capacity as int),
        forall|i: int| 0 <= i < seqs.len() ==> seqs[i] == i,
    ensures
        sequences_agree(0, 0, seqs, capacity),
{
    lemma2_to64();
    let slots = seqs.len() as int;
    assert(is_word_power_of_two(slots)) by {
        if capacity < 2 {
            assert(slots == pow2(1));
        }
    }
    lemma_ring_divides_word(slots);
    lemma_small_mod(0, slots as nat);
    assert forall|i: int| 0 <= i < slots implies #[trigger] seqs[i] == quiet_sequence(
        0,
        wrapping_sub(0, 0) as int,
        i,
        slots,
    ) by {
        assert(offset_of(0, i, slots) == i);
    }
}

/// Pushing on one thread, on any lap: in a quiet ring, the producer at the
/// enqueue position finds its slot ready and room to claim it exactly when
/// fewer than `capacity` items are held, and the queue full otherwise. A
/// push that publishes `tail + 1` in that slot and advances the enqueue
/// position leaves a quiet ring holding one item more.
pub proof fn law_push_on_one_thread(head: usize, tail: usize, seqs: Seq<usize>, capacity: nat)
    requires
        sequences_agree(head, tail, seqs, capacity),
    ensures
        ({
            let slots = seqs.len() as int;
            let slot = tail as int % slots;
            let count = wrapping_sub(tail, head) as int;
            &&& claim_probe(seqs[slot], tail, head, capacity) == (if count < capacity {
                Probe::Ready
            } else {
                Probe::Blocked
            })
            &&& count < capacity ==> sequences_agree(
                head,
                wrapping_add(tail, 1),
                seqs.update(slot, wrapping_add(tail, 1)),
                capacity,
            ) && wrapping_sub(wrapping_add(tail, 1), head) == count + 1
        }),
{
    lemma_word_facts();
    let slots = seqs.len() as int;
    let n = wrapping_sub(tail, head) as int;
    lemma_ring_divides_word(slots);
    let start = head as int % slots;
    lemma_places_of(start, slots);
    assert(tail == advance(head, n));
    lemma_slot_of_advance(head, n, slots);
    let slot = tail as int % slots;
    assert(slot == slot_at(start, n, slots));
    assert(seqs[slot] == quiet_sequence(head, n, slot, slots));
    if n < capacity {
        let next = wrapping_add(tail, 1);
        let seqs2 = seqs.update(slot, next);
        assert(wrapping_sub(next, head) == n + 1);
        assert forall|i: int| 0 <= i < slots implies #[trigger] seqs2[i] == quiet_sequence(
            head,
            wrapping_sub(next, head) as int,
            i,
            slots,
        ) by {
            assert(seqs[i] == quiet_sequence(head, n, i, slots));
        }
    }
}

/// Popping on one thread, on any lap: in a quiet ring, the consumer at the
/// dequeue position finds its slot published exactly when an item is held,
/// and the queue empty otherwise. A pop that releases that slot with
/// `head + slots` and advances the dequeue position leaves a quiet ring
/// holding one item fewer, whose freed slot is ready for the producer of
/// the next lap.
pub proof fn law_pop_on_one_thread(head: usize, tail: usize, seqs: Seq<usize>, capacity: nat)
    requires
        sequences_agree(head, tail, seqs, capacity),
    ensures
        ({
            let slots = seqs.len() as int;
            let slot = head as int % slots;
            let count = wrapping_sub(tail, head) as int;
            &&& probe_of(signed_distance(seqs[slot], published_seq(head))) == (if count > 0 {
                Probe::Ready
            } else {
                Probe::Blocked
            })
            &&& count > 0 ==> sequences_agree(
                wrapping_add(head, 1),
                tail,
                seqs.update(slot, wrapping_add(head, slots as usize)),
                capacity,
            ) && wrapping_sub(tail, wrapping_add(head, 1)) == count - 1
        }),
{
    lemma_word_facts();
    let slots = seqs.len() as int;
    let n = wrapping_sub(tail, head) as int;
    lemma_ring_divides_word(slots);
    let start = head as int % slots;
    lemma_places_of(start, slots);
    lemma_small_mod(0, slots as nat);
    lemma_slot_of_advance(head, 0, slots);
    assert(seqs[start] == quiet_sequence(head, n, start, slots));
    if n > 0 {
        let head2 = wrapping_add(head, 1);
        let released = wrapping_add(head, slots as usize);
        let seqs2 = seqs.update(start, released);
        lemma_slot_of_advance(head, 1, slots);
        let start2 = head2 as int % slots;
        assert(start2 == slot_at(start, 1, slots));
        lemma_places_of(start2, slots);
        assert(wrapping_sub(tail, head2) == n - 1);
        assert forall|i: int| 0 <= i < slots implies #[trigger] seqs2[i] == quiet_sequence(
            head2,
            wrapping_sub(tail, head2) as int,
            i,
            slots,
        ) by {
            assert(seqs[i] == quiet_sequence(head, n, i, slots));
        }
    }
}

struct RingCell<T> {
    seq: usize,
    item: Option<T>,
}

/// The ring of slots of a bounded queue, owned by one thread: each cell
/// holds a sequence number and maybe an item; `head` is the position of the
/// next item to leave, `tail` the position the next item will take, and
/// `limit` the most items it holds at once.
pub struct SlotRing<T> {
    cells: Vec<RingCell<T>>,
    mask: usize,
    limit: usize,
    head: usize,
    tail: usize,
}

impl<T> SlotRing<T> {
    /// The most items the ring holds at once.
    pub closed spec fn spec_capacity(&self) -> nat {
        self.limit as nat
    }

    /// The number of slots.
    spec fn slots(&self) -> nat {
        self.cells@.len()
    }

    /// The number of items held.
    pub closed spec fn count(&self) -> nat {
        wrapping_sub(self.tail, self.head) as nat
    }

    /// The slot of the head position.
    spec fn start(&self) -> int {
        self.head as int % (self.cells@.len() as int)
    }

    /// What slot `i` holds when the ring is consistent: the item at place
    /// `k` of the queue with the sequence a consumer at its position waits
    /// for, or nothing with the sequence of the position that will fill it.
    spec fn cell_matches(&self, i: int) -> bool {
        let cap = self.cells@.len() as int;
        let k = offset_of(self.start(), i, cap);
        let cell = self.cells@[i];
        if k < self.count() {
            cell.item is Some && cell.seq == advance(self.head, k + 1)
        } else {
            cell.item is None && cell.seq == advance(self.head, k)
        }
    }

    /// The ring's invariant.
    pub closed spec fn wf(&self) -> bool {
        let cap = self.cells@.len() as int;
        &&& is_word_power_of_two(cap)
        &&& 2 <= cap <= max_capacity()
        &&& self.mask == cap - 1
        &&& is_word_power_of_two(self.limit as int)
        &&& 1 <= self.limit <= max_capacity()
        &&& cap == slots_for(self.limit as int)
        &&& self.count() <= self.limit
        &&& forall|i: int| 0 <= i < cap ==> #[trigger] self.cell_matches(i)
    }

    /// The items in the ring, oldest first.
    pub closed spec fn items(&self) -> Seq<T> {
        let cap = self.cells@.len() as int;
        Seq::new(
            self.count(),
            |k: int| self.cells@[slot_at(self.start(), k, cap)].item->Some_0,
        )
    }

    /// Creates an empty ring with room for at least `capacity` items: the
    /// capacity is rounded up to a power of two. A ring of capacity 1 uses
    /// two slots and keeps one of them empty.
    pub fn new(capacity: usize) -> (r: Self)
        requires
            1 <= capacity <= max_capacity(),
        ensures
            r.wf(),
            r.items() == Seq::<T>::empty(),
            is_rounded_capacity(r.spec_capacity() as int, capacity as int),
    {
        let limit = round_capacity(capacity);
        let cap = slot_count(limit);
        proof {
            lemma2_to64();
            assert(2 == pow2(1));
        }
        let mut cells: Vec<RingCell<T>> = Vec::new();
        let mut i: usize = 0;
        while i < cap
            invariant
                i <= cap,
                cells@.len() == i,
                forall|j: int| 0 <= j < i ==> (#[trigger] cells@[j]).seq == j && cells@[j].item is None,
            decreases cap - i,
        {
            cells.push(RingCell { seq: i, item: None });
            i = i + 1;
        }
        let r = SlotRing { cells, mask: cap - 1, limit, head: 0, tail: 0 };
        proof {
            assert(is_word_power_of_two(cap as int)) by {
                if limit < 2 {
                    assert(cap == pow2(1));
                }
            }
            lemma_ring_divides_word(cap as int);
            lemma_small_mod(0, cap as nat);
            assert(r.start() == 0);
            assert forall|j: int| 0 <= j < cap implies #[trigger] r.cell_matches(j) by {
                assert(r.start() == 0);
            }
            assert(r.items() =~= Seq::<T>::empty());
        }
        r
    }

    /// The most items the ring holds at once.
    pub fn capacity(&self) -> (c: usize)
        ensures
            c == self.spec_capacity(),
    {
        self.limit
    }

    /// The number of items held.
    pub fn len(&self) -> (n: usize)
        requires
            self.wf(),
        ensures
            n == self.items().len(),
    {
        self.tail.wrapping_sub(self.head)
    }

    /// The place of each slot is its offset from the head slot; the slot at
    /// a given place is where that offset points.
    proof fn lemma_places(&self)
        requires
            self.wf(),
        ensures
            forall|k: int| 0 <= k < self.slots() ==>
                0 <= #[trigger] slot_at(self.start(), k, self.slots() as int) < self.slots()
                && offset_of(self.start(), slot_at(self.start(), k, self.slots() as int),
                    self.slots() as int) == k,
            forall|i: int| 0 <= i < self.slots() ==>
                0 <= #[trigger] offset_of(self.start(), i, self.slots() as int) < self.slots(),
            0 <= self.start() < self.slots(),
    {
        lemma_ring_divides_word(self.slots() as int);
    }

    /// Adds `item` at the back if a slot is free; otherwise hands it back.
    pub fn try_push(&mut self, item: T) -> (r: Result<(), T>)
        requires
            old(self).wf(),
        ensures
            final(self).wf(),
            final(self).spec_capacity() == old(self).spec_capacity(),
            final(self).items() == items_after_push(old(self).items(), old(self).spec_capacity(), item),
            r == (if old(self).items().len() < old(self).spec_capacity() {
                Ok::<(), T>(())
            } else {
                Err::<(), T>(item)
            }),
    {
        proof {
            self.lemma_places();
            lemma_word_facts();
        }
        let ghost cap = self.cells@.len() as int;
        let ghost n = self.count() as int;
        let pos = self.tail;
        let idx = pos & self.mask;
        proof {
            lemma_mask_is_slot(pos, self.cells@.len() as usize);
            assert(pos == advance(self.head, n));
            lemma_slot_of_advance(self.head, n, cap);
            assert(idx == slot_at(self.start(), n, cap));
            if n == cap {
                assert(idx == self.start());
                assert(self.cell_matches(idx as int));
            } else {
                assert(self.cell_matches(idx as int));
            }
            assert(wrapping_sub(pos, self.head) == n);
        }
        let seq = self.cells[idx].seq;
        let probe = probe_claim(seq, pos, self.head, self.limit);
        match round_step(probe, true, 0) {
            Step::Done => {
                let ghost before = *self;
                let mut cell = RingCell { seq: publish_seq(pos), item: Some(item) };
                self.cells.set_and_swap(idx, &mut cell);
                self.tail = pos.wrapping_add(1);
                proof {
                    assert(n < self.limit);
                    assert(self.count() == n + 1);
                    assert(self.start() == before.start());
                    assert forall|i: int| 0 <= i < cap implies #[trigger] self.cell_matches(i) by {
                        assert(before.cell_matches(i));
                    }
                    assert(self.items() =~= before.items().push(item)) by {
                        assert forall|k: int| 0 <= k < n implies
                            slot_at(self.start(), k, cap) != idx by {
                            before.lemma_places();
                        }
                    }
                }
                Ok(())
            },
            _ => {
                proof {
                    assert(n == self.limit);
                }
                Err(item)
            },
        }
    }

    /// Removes and returns the item at the front, or `None` when the ring
    /// is empty.
    pub fn try_pop(&mut self) -> (r: Option<T>)
        requires
            old(self).wf(),
        ensures
            final(self).wf(),
            final(self).spec_capacity() == old(self).spec_capacity(),
            final(self).items() == items_after_pop(old(self).items()),
            r == front(old(self).items()),
    {
        proof {
            self.lemma_places();
            lemma_word_facts();
        }
        let ghost cap = self.cells@.len() as int;
        let ghost n = self.count() as int;
        let pos = self.head;
        let idx = pos & self.mask;
        proof {
            lemma_mask_is_slot(pos, self.cells@.len() as usize);
            assert(idx == self.start());
            assert(self.cell_matches(idx as int));
        }
        let seq = self.cells[idx].seq;
        let probe = probe_pop(seq, pos);
        match round_step(probe, true, 0) {
            Step::Done => {
                let ghost before = *self;
                let cap_now = self.cells.len();
                let mut cell = RingCell { seq: release_seq(pos, cap_now), item: None };
                self.cells.set_and_swap(idx, &mut cell);
                self.head = pos.wrapping_add(1);
                proof {
                    assert(n > 0);
                    assert(self.count() == n - 1);
                    lemma_slot_of_advance(before.head, 1, cap);
                    assert(self.start() == slot_at(before.start(), 1, cap));
                    assert forall|i: int| 0 <= i < cap implies #[trigger] self.cell_matches(i) by {
                        assert(before.cell_matches(i));
                    }
                    assert(self.items() =~= before.items().drop_first()) by {
                        assert forall|k: int| 0 <= k < n - 1 implies
                            #[trigger] slot_at(self.start(), k, cap)
                                == slot_at(before.start(), k + 1, cap) && slot_at(before.start(), k + 1, cap) != idx by {
                            before.lemma_places();
                        }
                    }
                    assert(cell.item == Some(before.items()[0]));
                }
                cell.item
            },
            _ => {
                proof {
                    assert(n == 0);
                }
                None
            },
        }
    }
}

} // verus!
