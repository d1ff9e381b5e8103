use vstd::prelude::*;
use vstd::arithmetic::div_mod::lemma_fundamental_div_mod;
use vstd::arithmetic::div_mod::lemma_fundamental_div_mod_converse_mod;
use vstd::arithmetic::div_mod::lemma_mod_decreases;
use vstd::arithmetic::div_mod::lemma_mod_equivalence;
use vstd::arithmetic::div_mod::lemma_mod_pos_bound;
use vstd::arithmetic::div_mod::lemma_small_mod;

verus! {

/// How many slots a buffer gets when no capacity is chosen.
pub const DEFAULT_CAPACITY: usize = 128;

/// The most items one pull round commits, so that the section under the
/// pull lock stays short and bounded.
pub const MAX_PULL_BATCH: usize = 16;

/// A bounded ring that fans one pulled sequence out to many readers.
///
/// Items enter in pull order, each written to the slot under the write
/// cursor, which then advances modulo the capacity. A reader owns nothing
/// but a cursor: every reader sees each committed item once, in order,
/// provided it does not fall more than the capacity behind — falling
/// further behind means silent overwrite, a documented lossy-delivery
/// policy rather than a defect.
///
/// The asynchronous side of the protocol — pulling from the underlying
/// sequence under the pull lock, parking and waking readers under the waker
/// lock, always pull lock first — lives with the caller; this type holds the
/// state those sections guard and the whole of its transition logic.
pub struct SharedBuffer<T> {
    /// The ring of slots; a slot is `None` until the cursor first passes it.
    pub buffer: Vec<Option<T>>,
    /// Write cursor: the slot the next committed item lands in.
    pub cursor: usize,
    /// Every item ever committed, in pull order.
    pub produced: Ghost<Seq<T>>,
}

/// A reader's handle on a shared buffer: a cursor that advances
/// independently of every other reader's.
pub struct SharedStream {
    /// Position in the ring; the reader is caught up when it equals the
    /// buffer's write cursor.
    pub cursor: usize,
    /// How many items this reader has been handed so far, counted from the
    /// start of production.
    pub index: Ghost<nat>,
}

impl<T> SharedBuffer<T> {
    /// Number of slots in the ring.
    pub open spec fn capacity(self) -> nat {
        self.buffer.len() as nat
    }

    /// The buffer's invariant: the write cursor is the production count
    /// modulo the capacity, a slot has been written exactly when the cursor
    /// has passed it, and each of the last `capacity` produced items still
    /// sits in its slot.
    pub open spec fn wf(self) -> bool {
        &&& self.buffer.len() > 0
        &&& self.cursor < self.buffer.len()
        &&& self.cursor as int == self.produced@.len() as int % self.buffer.len() as int
        &&& forall|i: int|
            0 <= i < self.buffer.len() ==> ((#[trigger] self.buffer[i]) is Some <==> i
                < self.produced@.len())
        &&& forall|k: int|
            0 <= k < self.produced@.len() && self.produced@.len() - self.buffer.len() <= k
                ==> self.buffer[k % self.buffer.len() as int] == Some(#[trigger] self.produced@[k])
    }

    /// A ring of `capacity` empty slots, nothing produced yet.
    pub fn new(capacity: usize) -> (r: Self)
        requires
            capacity > 0,
        ensures
            r.wf(),
            r.capacity() == capacity,
            r.produced@ == Seq::<T>::empty(),
            r.cursor == 0,
    {
        let mut buffer: Vec<Option<T>> = Vec::new();
        let mut i: usize = 0;
        while i < capacity
            invariant
                i <= capacity,
                buffer@.len() == i,
                forall|j: int| 0 <= j < i ==> (#[trigger] buffer@[j]) is None,
            decreases capacity - i,
        {
            buffer.push(None);
            i = i + 1;
        }
        proof {
            lemma_small_mod(0, capacity as nat);
        }
        SharedBuffer { buffer, cursor: 0, produced: Ghost(Seq::empty()) }
    }

    /// Commit one item pulled from the underlying sequence: write the slot
    /// under the write cursor and advance it one step around the ring.
    pub fn publish(&mut self, item: T)
        requires
            old(self).wf(),
        ensures
            final(self).wf(),
            final(self).capacity() == old(self).capacity(),
            final(self).produced@ == old(self).produced@.push(item),
    {
        let ghost len0 = self.produced@.len() as int;
        let ghost cap = self.buffer.len() as int;
        let at = self.cursor;
        self.buffer[at] = Some(item);
        self.cursor = if at + 1 == self.buffer.len() {
            0
        } else {
            at + 1
        };
        self.produced = Ghost(self.produced@.push(item));
        proof {
            lemma_cursor_step(len0, cap);
            lemma_mod_decreases(len0 as nat, cap as nat);
            if len0 < cap {
                lemma_small_mod(len0 as nat, cap as nat);
            }
            assert forall|k: int|
                0 <= k < self.produced@.len() && self.produced@.len() - self.buffer.len()
                    <= k implies self.buffer[k % self.buffer.len() as int] == Some(
                self.produced@[k],
            ) by {
                lemma_mod_pos_bound(k, cap);
                if k < len0 {
                    lemma_distinct_mod(k, len0, cap);
                }
            }
        }
    }

    /// Commit a batch of pulled items in order. A pull round hands in at
    /// most [`MAX_PULL_BATCH`] items so the section under the pull lock
    /// stays short; that bound is the pulling loop's, not the ring's.
    pub fn publish_all(&mut self, items: Vec<T>)
        requires
            old(self).wf(),
        ensures
            final(self).wf(),
            final(self).capacity() == old(self).capacity(),
            final(self).produced@ == old(self).produced@ + items@,
    {
        let ghost items0 = items@;
        let mut items = items;
        while items.len() > 0
            invariant
                self.wf(),
                self.capacity() == old(self).capacity(),
                items@.len() <= items0.len(),
                items@ == items0.skip(items0.len() - items@.len()),
                self.produced@ == old(self).produced@ + items0.take(items0.len() - items@.len()),
            decreases items@.len(),
        {
            let ghost done = items0.len() - items@.len();
            let next = items.remove(0);
            self.publish(next);
            proof {
                assert(items@ =~= items0.skip(done + 1));
                assert(self.produced@ =~= old(self).produced@ + items0.take(done + 1));
            }
        }
        proof {
            assert(self.produced@ =~= old(self).produced@ + items0);
        }
    }

    /// Out-of-band injection: commits exactly as a pulled item would, for a
    /// corrective value the underlying sequence cannot itself produce.
    /// Waking the suspended readers afterwards is the caller's side of the
    /// protocol.
    pub fn repair(&mut self, item: T)
        requires
            old(self).wf(),
        ensures
            final(self).wf(),
            final(self).capacity() == old(self).capacity(),
            final(self).produced@ == old(self).produced@.push(item),
    {
        self.publish(item);
    }

    /// The lock-free fast path of a poll: a reader that is not caught up is
    /// handed the item in its slot and advances; a caught-up reader gets
    /// nothing and must either pull (under the pull lock) or park.
    ///
    /// The slot's content is stated exactly; whenever the reader is within
    /// the ring window — no more than `capacity` behind — that content is
    /// the produced item at the reader's own step index.
    pub fn poll_receive<'a>(&'a self, reader: &mut SharedStream) -> (r: Option<&'a T>)
        requires
            self.wf(),
            old(reader).attached(*self),
        ensures
            final(reader).attached(*self),
            r is Some <==> old(reader).cursor != self.cursor,
            r is None ==> *final(reader) == *old(reader),
            r matches Some(item) ==> {
                &&& final(reader).index@ == old(reader).index@ + 1
                &&& self.buffer[old(reader).cursor as int] == Some(*item)
                &&& old(reader).index@ < self.produced@.len()
                &&& self.produced@.len() - old(reader).index@ <= self.capacity() ==> *item
                    == self.produced@[old(reader).index@ as int]
            },
    {
        let ghost cap = self.buffer.len() as int;
        let ghost idx = reader.index@ as int;
        if reader.cursor != self.cursor {
            proof {
                // A caught-up reader has the write cursor; this one differs,
                // so it lags and its slot has been written.
                assert(idx < self.produced@.len());
                lemma_mod_decreases(idx as nat, cap as nat);
                lemma_cursor_step(idx, cap);
            }
            let at = reader.cursor;
            let slot = &self.buffer[at];
            match slot {
                Some(item) => {
                    reader.cursor = if at + 1 == self.buffer.len() {
                        0
                    } else {
                        at + 1
                    };
                    reader.index = Ghost(reader.index@ + 1);
                    Some(item)
                },
                None => vstd::pervasive::unreached(),
            }
        } else {
            None
        }
    }
}

/// The waiting readers of a broadcast buffer: those that found themselves
/// caught up and parked until the next commit.
///
/// `W` is the runtime's wake handle, opaque here. The buffer's state is
/// split as its two locks guard it: the ring ([`SharedBuffer`]) under the
/// pull lock, this set under the waker lock — taken in that order on the
/// commit path. Whoever commits items takes every parked handle out and
/// wakes it; the waking itself is the runtime's side.
pub struct WaiterSet<W> {
    /// The parked wake handles, in parking order.
    pub waiters: Vec<W>,
}

impl<W> WaiterSet<W> {
    /// Nobody waiting yet.
    pub fn new() -> (r: Self)
        ensures
            r.waiters@.len() == 0,
    {
        WaiterSet { waiters: Vec::new() }
    }

    /// Park one reader: record its wake handle.
    pub fn push_waker(&mut self, waker: W)
        ensures
            final(self).waiters@ == old(self).waiters@.push(waker),
    {
        self.waiters.push(waker);
    }

    /// Hand every parked handle out for waking, leaving none behind: a
    /// commit wakes all waiters, each exactly once.
    pub fn take_all(&mut self) -> (r: Vec<W>)
        ensures
            r@ == old(self).waiters@,
            final(self).waiters@.len() == 0,
    {
        let mut taken: Vec<W> = Vec::new();
        core::mem::swap(&mut taken, &mut self.waiters);
        taken
    }
}

impl SharedStream {
    /// The reader is a well-formed view of `buf`: it has been handed no more
    /// than was produced, and its ring position is its step index modulo the
    /// capacity.
    pub open spec fn attached<T>(self, buf: SharedBuffer<T>) -> bool {
        &&& self.index@ <= buf.produced@.len()
        &&& self.cursor < buf.buffer.len()
        &&& self.cursor as int == self.index@ as int % buf.buffer.len() as int
    }

    /// What the reader would be shown next: the content of its slot.
    pub open spec fn peek<T>(self, buf: SharedBuffer<T>) -> Option<T> {
        buf.buffer[self.cursor as int]
    }

    /// A reader attached before production begins: step index zero.
    pub fn new<T>(buf: &SharedBuffer<T>) -> (r: Self)
        requires
            buf.wf(),
        ensures
            r.attached(*buf),
            r.index@ == 0,
            r.cursor == 0,
    {
        proof {
            lemma_small_mod(0, buf.buffer.len() as nat);
        }
        SharedStream { cursor: 0, index: Ghost(0) }
    }

    /// A reader cloned mid-production: its cursor starts at the buffer's
    /// current write position, so it never replays history — catch-up
    /// semantics, bounding memory at the cost of fan-out-from-the-start.
    pub fn attach<T>(buf: &SharedBuffer<T>) -> (r: Self)
        requires
            buf.wf(),
        ensures
            r.attached(*buf),
            r.index@ == buf.produced@.len(),
            r.cursor == buf.cursor,
    {
        SharedStream { cursor: buf.cursor, index: Ghost(buf.produced@.len()) }
    }
}

/// Advancing one step around the ring tracks adding one to the position it
/// stands for.
proof fn lemma_cursor_step(n: int, cap: int)
    requires
        cap > 0,
        n >= 0,
    ensures
        (n + 1) % cap == if n % cap + 1 == cap {
            0int
        } else {
            n % cap + 1
        },
{
    lemma_fundamental_div_mod(n, cap);
    lemma_mod_pos_bound(n, cap);
    let q = n / cap;
    let r = n % cap;
    if r + 1 == cap {
        assert(n + 1 == (q + 1) * cap + 0) by (nonlinear_arith)
            requires
                n == cap * q + r,
                r + 1 == cap,
        ;
        lemma_fundamental_div_mod_converse_mod(n + 1, cap, q + 1, 0);
    } else {
        assert(n + 1 == q * cap + (r + 1)) by (nonlinear_arith)
            requires
                n == cap * q + r,
        ;
        lemma_fundamental_div_mod_converse_mod(n + 1, cap, q, r + 1);
    }
}

/// Two positions less than one ring apart sit in distinct slots.
proof fn lemma_distinct_mod(a: int, b: int, m: int)
    requires
        m > 0,
        0 <= a < b,
        b - a < m,
    ensures
        a % m != b % m,
{
    lemma_mod_equivalence(b, a, m);
    lemma_small_mod((b - a) as nat, m as nat);
}

/// For any sequence of at most `capacity` items pulled through the buffer,
/// a reader that attached before production finds, at each of its step
/// indexes in turn, exactly the produced item of that index: one reader
/// observes the whole sequence in pull order.
pub proof fn lemma_fresh_reader_observes_all<T>(buf: SharedBuffer<T>, r: SharedStream)
    requires
        buf.wf(),
        r.attached(buf),
        buf.produced@.len() <= buf.capacity(),
        r.index@ < buf.produced@.len(),
    ensures
        r.peek(buf) == Some(buf.produced@[r.index@ as int]),
{
    lemma_small_mod(r.index@, buf.capacity());
}

/// Two readers at the same step index over one buffer are shown the same
/// item — and, within the ring window, the produced item of that index:
/// fan-out neither duplicates nor reorders, as long as neither reader falls
/// more than the capacity behind.
pub proof fn lemma_readers_agree<T>(buf: SharedBuffer<T>, a: SharedStream, b: SharedStream)
    requires
        buf.wf(),
        a.attached(buf),
        b.attached(buf),
        a.index@ == b.index@,
        a.index@ < buf.produced@.len(),
        buf.produced@.len() - a.index@ <= buf.capacity(),
    ensures
        a.peek(buf) == b.peek(buf),
        a.peek(buf) == Some(buf.produced@[a.index@ as int]),
{
}

/// A reader attached once `k` items had already been produced starts at
/// step index `k` — `attach`'s contract — and each successful poll moves
/// that index forward by exactly one. This lemma closes the chain: what the
/// reader is shown is always the produced item of its current index, so an
/// index that starts at `k` and only grows never replays history from
/// before the attach.
pub proof fn lemma_late_reader_sees_no_history<T>(buf: SharedBuffer<T>, r: SharedStream)
    requires
        buf.wf(),
        r.attached(buf),
        r.index@ < buf.produced@.len(),
        buf.produced@.len() - r.index@ <= buf.capacity(),
    ensures
        r.peek(buf) == Some(buf.produced@[r.index@ as int]),
{
}

} // verus!
