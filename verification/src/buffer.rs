//! Fixed-capacity circular buffer of the most recent latency samples.
//!
//! The physical layout is a slot vector plus a head index and a length; the
//! chronological oldest-to-newest view is recovered from `(head, len)` by
//! wraparound indexing, as the abstract window [`crate::model::push_window`]
//! requires. On overflow the oldest sample is evicted and handed back to the
//! caller, which needs it to decide whether a cached extreme went stale.

use vstd::prelude::*;

verus! {

use crate::CAPACITY_LIMIT;
use crate::model::push_window;
use vstd::arithmetic::div_mod::lemma_fundamental_div_mod;
use vstd::arithmetic::div_mod::lemma_mod_bound;
use vstd::arithmetic::div_mod::lemma_mod_multiples_vanish;
use vstd::arithmetic::div_mod::lemma_small_mod;

/// Circular buffer of up to `capacity` recent samples.
pub struct SampleBuffer {
    slots: Vec<u64>,
    head: usize,
    len: usize,
}

impl View for SampleBuffer {
    type V = Seq<u64>;

    /// The retained samples in chronological order, oldest first.
    closed spec fn view(&self) -> Seq<u64> {
        Seq::new(
            self.len as nat,
            |i: int| self.slots@[(self.head + i) % (self.slots@.len() as int)],
        )
    }
}

impl SampleBuffer {
    /// The fixed capacity chosen at construction.
    pub closed spec fn capacity(&self) -> nat {
        self.slots@.len()
    }

    /// Physical-layout invariant.
    pub closed spec fn wf(&self) -> bool {
        &&& 1 <= self.slots@.len() <= CAPACITY_LIMIT
        &&& self.head < self.slots@.len()
        &&& self.len <= self.slots@.len()
    }

    /// Creates an empty buffer that will retain `capacity` samples.
    pub fn new(capacity: usize) -> (r: SampleBuffer)
        requires
            1 <= capacity <= CAPACITY_LIMIT,
        ensures
            r.wf(),
            r.capacity() == capacity,
            r@ == Seq::<u64>::empty(),
    {
        let mut slots: Vec<u64> = Vec::new();
        let mut i: usize = 0;
        while i < capacity
            invariant
                i <= capacity,
                slots@.len() == i,
            decreases capacity - i,
        {
            slots.push(0);
            i = i + 1;
        }
        let r = SampleBuffer { slots, head: 0, len: 0 };
        assert(r@ =~= Seq::<u64>::empty());
        r
    }

    /// Number of samples currently retained.
    pub fn len(&self) -> (n: usize)
        requires
            self.wf(),
        ensures
            n == self@.len(),
    {
        self.len
    }

    /// Records a sample, evicting and returning the oldest one if the buffer
    /// is already full.
    pub fn push(&mut self, v: u64) -> (evicted: Option<u64>)
        requires
            old(self).wf(),
        ensures
            final(self).wf(),
            final(self).capacity() == old(self).capacity(),
            final(self)@ == push_window(old(self)@, old(self).capacity(), v),
            evicted == (if old(self)@.len() < old(self).capacity() {
                Option::<u64>::None
            } else {
                Option::Some(old(self)@[0])
            }),
    {
        let cap = self.slots.len();
        if self.len < cap {
            let idx = add_mod(self.head, self.len, cap);
            self.slots.set(idx, v);
            self.len = self.len + 1;
            proof {
                let w0 = old(self)@;
                let w1 = self@;
                assert forall|i: int| 0 <= i < w0.len() implies w1[i] == w0[i] by {
                    lemma_mod_neq(self.head as int + i, self.head as int + w0.len(), cap as int);
                }
                assert(w1 =~= w0.push(v));
            }
            Option::None
        } else {
            let evicted = self.slots[self.head];
            self.slots.set(self.head, v);
            let old_head = self.head;
            self.head = if self.head + 1 == cap {
                0
            } else {
                self.head + 1
            };
            proof {
                let w0 = old(self)@;
                let w1 = self@;
                let c = cap as int;
                lemma_mod_once(old_head as int + 1, c);
                assert(self.head as int == (old_head + 1) % c);
                assert(w0[0] == old(self).slots@[old_head as int]) by {
                    lemma_small_mod(old_head as nat, cap as nat);
                }
                assert forall|i: int| 0 <= i < w1.len() - 1 implies w1[i] == w0[i + 1] by {
                    lemma_mod_shift(old_head as int, i, c);
                    lemma_small_mod(old_head as nat, cap as nat);
                    lemma_mod_neq(old_head as int, old_head + 1 + i, c);
                    lemma_mod_bound(old_head + 1 + i, c);
                }
                assert(w1[w1.len() - 1] == v) by {
                    lemma_mod_wrap(old_head as int, c);
                }
                assert(w1 =~= w0.drop_first().push(v));
            }
            Option::Some(evicted)
        }
    }

    /// Copies the current window, oldest first, without mutating the buffer.
    pub fn snapshot_ordered(&self) -> (out: Vec<u64>)
        requires
            self.wf(),
        ensures
            out@ == self@,
    {
        let mut out: Vec<u64> = Vec::new();
        let cap = self.slots.len();
        let mut i: usize = 0;
        while i < self.len
            invariant
                self.wf(),
                cap == self.slots@.len(),
                i <= self.len,
                out@.len() == i,
                forall|j: int| 0 <= j < i ==> out@[j] == self@[j],
            decreases self.len - i,
        {
            let idx = add_mod(self.head, i, cap);
            out.push(self.slots[idx]);
            i = i + 1;
        }
        assert(out@ =~= self@);
        out
    }
}

/// `(a + b) % cap` without intermediate overflow.
fn add_mod(a: usize, b: usize, cap: usize) -> (r: usize)
    requires
        a < cap,
        b <= cap,
        cap <= CAPACITY_LIMIT,
    ensures
        r == (a + b) % (cap as int),
        r < cap,
{
    proof {
        lemma_mod_once(a + b, cap as int);
    }
    let s = a + b;
    if s >= cap {
        s - cap
    } else {
        s
    }
}

/// A value already below the modulus is its own remainder; one subtraction
/// reduces a value below twice the modulus.
proof fn lemma_mod_once(s: int, cap: int)
    requires
        0 < cap,
        0 <= s < 2 * cap,
    ensures
        s < cap ==> s % cap == s,
        s >= cap ==> s % cap == s - cap,
{
    if s < cap {
        lemma_small_mod(s as nat, cap as nat);
    } else {
        lemma_mod_multiples_vanish(1, s - cap, cap);
        assert(cap * 1 + (s - cap) == s);
        lemma_small_mod((s - cap) as nat, cap as nat);
    }
}

/// Two offsets less than `cap` apart land in distinct slots.
proof fn lemma_mod_neq(a: int, b: int, cap: int)
    requires
        0 < cap,
        0 <= a < b,
        b - a < cap,
    ensures
        a % cap != b % cap,
{
    lemma_fundamental_div_mod(a, cap);
    lemma_fundamental_div_mod(b, cap);
    lemma_mod_bound(a, cap);
    lemma_mod_bound(b, cap);
    if a % cap == b % cap {
        let k = b / cap - a / cap;
        assert(b - a == cap * k) by (nonlinear_arith)
            requires
                a == cap * (a / cap) + a % cap,
                b == cap * (b / cap) + b % cap,
                a % cap == b % cap,
                k == b / cap - a / cap,
        ;
        assert(false) by (nonlinear_arith)
            requires
                b - a == cap * k,
                0 < b - a < cap,
        ;
    }
}

/// Advancing the head commutes with wraparound indexing.
proof fn lemma_mod_shift(h: int, i: int, cap: int)
    requires
        0 < cap,
        0 <= h < cap,
        0 <= i < cap,
    ensures
        ((h + 1) % cap + i) % cap == (h + 1 + i) % cap,
{
    lemma_mod_once(h + 1, cap);
    if h + 1 == cap {
        lemma_mod_once(i, cap);
        lemma_mod_once(cap + i, cap);
    }
}

/// The slot one lap ahead of the head is the head itself.
proof fn lemma_mod_wrap(h: int, cap: int)
    requires
        0 < cap,
        0 <= h < cap,
    ensures
        ((h + 1) % cap + (cap - 1)) % cap == h,
{
    lemma_mod_once(h + 1, cap);
    if h + 1 == cap {
        lemma_mod_once(cap - 1, cap);
    } else {
        lemma_mod_once(h + 1 + (cap - 1), cap);
    }
}

} // verus!
