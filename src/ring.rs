use vstd::prelude::*;
use std::collections::VecDeque;
use crate::remap::{remapped, SILENCE};

verus! {

broadcast use vstd::std_specs::vecdeque::group_vec_dequeue_axioms;

/// The queue `q` after one sample `x` is offered to it with room for `cap`
/// samples: appended, after the oldest sample is dropped when it is full.
pub open spec fn push_one(q: Seq<u32>, cap: nat, x: u32) -> Seq<u32> {
    if q.len() < cap {
        q.push(x)
    } else {
        q.drop_first().push(x)
    }
}

/// The queue `q` after the samples of `s` are offered to it one after another.
pub open spec fn push_all(q: Seq<u32>, cap: nat, s: Seq<u32>) -> Seq<u32>
    decreases s.len(),
{
    if s.len() == 0 {
        q
    } else {
        push_one(push_all(q, cap, s.drop_last()), cap, s.last())
    }
}

/// A bounded single-producer/single-consumer sample queue between a capture
/// callback and a playback callback. When full, the oldest sample gives way to
/// the newest, which bounds both memory and latency.
pub struct SampleRing {
    samples: VecDeque<u32>,
    capacity: usize,
}

impl View for SampleRing {
    type V = Seq<u32>;

    /// The queued samples, oldest first.
    closed spec fn view(&self) -> Seq<u32> {
        self.samples@
    }
}

impl SampleRing {
    pub closed spec fn spec_capacity(&self) -> nat {
        self.capacity as nat
    }

    pub closed spec fn wf(&self) -> bool {
        &&& self.capacity > 0
        &&& self.samples@.len() <= self.capacity
    }

    /// An empty queue with room for `capacity` samples.
    pub fn new(capacity: usize) -> (r: SampleRing)
        requires
            capacity > 0,
        ensures
            r.wf(),
            r@ == Seq::<u32>::empty(),
            r.spec_capacity() == capacity,
    {
        SampleRing { samples: VecDeque::new(), capacity }
    }

    pub fn capacity(&self) -> (r: usize)
        ensures
            r == self.spec_capacity(),
    {
        self.capacity
    }

    pub fn len(&self) -> (r: usize)
        ensures
            r == self@.len(),
    {
        self.samples.len()
    }

    pub fn is_empty(&self) -> (r: bool)
        ensures
            r == (self@.len() == 0),
    {
        self.samples.len() == 0
    }

    /// Appends `x`; returns whether the oldest sample was dropped to make room.
    pub fn push(&mut self, x: u32) -> (dropped: bool)
        requires
            old(self).wf(),
        ensures
            final(self).wf(),
            final(self).spec_capacity() == old(self).spec_capacity(),
            final(self)@ == push_one(old(self)@, old(self).spec_capacity(), x),
            dropped == (old(self)@.len() == old(self).spec_capacity()),
    {
        let full = self.samples.len() == self.capacity;
        if full {
            let _ = self.samples.pop_front();
        }
        self.samples.push_back(x);
        proof {
            assert(self@ =~= push_one(old(self)@, old(self).spec_capacity(), x));
        }
        full
    }

    /// Removes and returns the oldest sample, or `None` when the queue is empty
    /// (an underrun).
    pub fn pop(&mut self) -> (r: Option<u32>)
        requires
            old(self).wf(),
        ensures
            final(self).wf(),
            final(self).spec_capacity() == old(self).spec_capacity(),
            old(self)@.len() == 0 ==> r is None && final(self)@ == old(self)@,
            old(self)@.len() > 0 ==> r == Some(old(self)@[0]) && final(self)@
                == old(self)@.drop_first(),
    {
        let r = self.samples.pop_front();
        proof {
            if old(self)@.len() > 0 {
                assert(self@ =~= old(self)@.drop_first());
            }
        }
        r
    }
}

/// Capture side of local loopback: remaps `data` from groups of `cin` to groups
/// of `cout` channels and offers every resulting sample to `ring`, in order.
pub fn capture_into(ring: &mut SampleRing, data: &[u32], cin: u16, cout: u16)
    requires
        old(ring).wf(),
        cin >= 1,
        cout >= 1,
    ensures
        final(ring).wf(),
        final(ring).spec_capacity() == old(ring).spec_capacity(),
        final(ring)@ == push_all(
            old(ring)@,
            old(ring).spec_capacity(),
            remapped(data@, cin as nat, cout as nat),
        ),
{
    let r = crate::remap::remap(data, cin, cout);
    let ghost q0 = ring@;
    let ghost cap = ring.spec_capacity();
    let mut i: usize = 0;
    while i < r.len()
        invariant
            ring.wf(),
            ring.spec_capacity() == cap,
            i <= r@.len(),
            ring@ == push_all(q0, cap, r@.take(i as int)),
        decreases r.len() - i,
    {
        let _ = ring.push(r[i]);
        proof {
            let t = r@.take(i as int + 1);
            assert(t.drop_last() =~= r@.take(i as int));
        }
        i = i + 1;
    }
    proof {
        assert(r@.take(r@.len() as int) =~= r@);
    }
}

/// Playback side of local loopback: fills `out` with the oldest queued samples
/// and, once the queue runs dry, with silence.
pub fn playback_from(ring: &mut SampleRing, out: &mut Vec<u32>) -> (played: usize)
    requires
        old(ring).wf(),
    ensures
        final(ring).wf(),
        final(ring).spec_capacity() == old(ring).spec_capacity(),
        played == vstd::math::min(old(ring)@.len() as int, old(out)@.len() as int),
        final(out)@.len() == old(out)@.len(),
        final(out)@.take(played as int) == old(ring)@.take(played as int),
        forall|k: int| played <= k < final(out)@.len() ==> final(out)@[k] == SILENCE,
        final(ring)@ == old(ring)@.skip(played as int),
{
    let ghost q0 = ring@;
    let mut i: usize = 0;
    let mut played: usize = 0;
    while i < out.len()
        invariant
            ring.wf(),
            ring.spec_capacity() == old(ring).spec_capacity(),
            q0 == old(ring)@,
            out@.len() == old(out)@.len(),
            i <= out@.len(),
            played <= i,
            played <= q0.len(),
            played < i ==> played == q0.len(),
            ring@ == q0.skip(played as int),
            out@.take(played as int) == q0.take(played as int),
            forall|k: int| played <= k < i ==> out@[k] == SILENCE,
        decreases out.len() - i,
    {
        let v = match ring.pop() {
            Some(x) => {
                played = played + 1;
                x
            },
            None => SILENCE,
        };
        out.set(i, v);
        proof {
            assert(ring@ =~= q0.skip(played as int));
            assert(out@.take(played as int) =~= q0.take(played as int));
        }
        i = i + 1;
    }
    played
}

/// The queue and the samples popped so far after the operations `ops`, applied
/// in order to the queue `q` with room for `cap`: `Some(x)` offers `x`, `None`
/// pops the oldest sample if there is one.
pub open spec fn run_ops(q: Seq<u32>, cap: nat, ops: Seq<Option<u32>>) -> (Seq<u32>, Seq<u32>)
    decreases ops.len(),
{
    if ops.len() == 0 {
        (q, Seq::empty())
    } else {
        let (cur, popped) = run_ops(q, cap, ops.drop_last());
        match ops.last() {
            Some(x) => (push_one(cur, cap, x), popped),
            None => if cur.len() > 0 {
                (cur.drop_first(), popped.push(cur[0]))
            } else {
                (cur, popped)
            },
        }
    }
}

/// The samples that `ops` offers, in order.
pub open spec fn pushed_by(ops: Seq<Option<u32>>) -> Seq<u32>
    decreases ops.len(),
{
    if ops.len() == 0 {
        Seq::empty()
    } else {
        match ops.last() {
            Some(x) => pushed_by(ops.drop_last()).push(x),
            None => pushed_by(ops.drop_last()),
        }
    }
}

/// Whether no sample that `ops` offers finds the queue full.
pub open spec fn never_full(q: Seq<u32>, cap: nat, ops: Seq<Option<u32>>) -> bool {
    forall|i: int|
        0 <= i < ops.len() && #[trigger] ops[i] is Some ==> run_ops(q, cap, ops.take(i)).0.len()
            < cap
}

/// Ordering of the hand-off: whatever the interleaving of pushes and pops,
/// as long as no push finds the queue full, the samples popped followed by
/// those still queued are exactly the samples pushed, in the order pushed. So
/// the samples come out in the order they went in, none lost or repeated.
pub proof fn lemma_fifo_order(cap: nat, ops: Seq<Option<u32>>)
    requires
        cap > 0,
        never_full(Seq::empty(), cap, ops),
    ensures
        run_ops(Seq::empty(), cap, ops).1 + run_ops(Seq::empty(), cap, ops).0 == pushed_by(ops),
        run_ops(Seq::empty(), cap, ops).1.is_prefix_of(pushed_by(ops)),
    decreases ops.len(),
{
    let e = Seq::<u32>::empty();
    if ops.len() == 0 {
        assert(run_ops(e, cap, ops).1 + run_ops(e, cap, ops).0 =~= pushed_by(ops));
    } else {
        let prev = ops.drop_last();
        assert forall|i: int| 0 <= i < prev.len() && #[trigger] prev[i] is Some implies run_ops(
            e,
            cap,
            prev.take(i),
        ).0.len() < cap by {
            assert(prev.take(i) =~= ops.take(i));
            assert(ops[i] == prev[i]);
        }
        lemma_fifo_order(cap, prev);
        let (cur, popped) = run_ops(e, cap, prev);
        match ops.last() {
            Some(x) => {
                let n = ops.len() - 1;
                assert(ops.take(n) =~= prev);
                assert(ops[n] is Some);
                assert(cur.len() < cap);
                assert(popped + cur.push(x) =~= (popped + cur).push(x));
            },
            None => {
                if cur.len() > 0 {
                    assert(popped.push(cur[0]) + cur.drop_first() =~= popped + cur);
                }
            },
        }
    }
    let (fin, out) = run_ops(e, cap, ops);
    assert((out + fin).take(out.len() as int) =~= out);
}

} // verus!
