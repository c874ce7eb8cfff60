use vstd::prelude::*;
use vstd::arithmetic::div_mod::lemma_fundamental_div_mod_converse;

verus! {

/// One accumulation step: `e` joins the pending entries; a batch that
/// reaches `n` entries is handed out and pending starts over empty.
pub open spec fn push_step<E>(pending: Seq<E>, e: E, n: nat) -> (Seq<E>, Option<Seq<E>>) {
    let all = pending.push(e);
    if all.len() == n {
        (Seq::empty(), Some(all))
    } else {
        (all, None)
    }
}

/// Feeding `es` one by one to an empty accumulator: what stays pending and
/// the batches handed out, in order.
pub open spec fn accumulate<E>(es: Seq<E>, n: nat) -> (Seq<E>, Seq<Seq<E>>)
    decreases es.len(),
{
    if es.len() == 0 {
        (Seq::empty(), Seq::empty())
    } else {
        let (p, bs) = accumulate(es.drop_last(), n);
        let (p2, out) = push_step(p, es.last(), n);
        match out {
            Some(b) => (p2, bs.push(b)),
            None => (p2, bs),
        }
    }
}

/// The batches one after the other.
pub open spec fn concat_batches<E>(bs: Seq<Seq<E>>) -> Seq<E>
    decreases bs.len(),
{
    if bs.len() == 0 {
        Seq::empty()
    } else {
        concat_batches(bs.drop_last()) + bs.last()
    }
}

/// After `k` entries, a capacity-`n` accumulator has handed out exactly
/// `k / n` batches of `n` entries each and holds the other `k % n`; the
/// batches and the pending entries together are the entries in the order
/// they came.
pub proof fn lemma_accumulate<E>(es: Seq<E>, n: nat)
    requires
        n > 0,
    ensures
        accumulate(es, n).1.len() == es.len() / n,
        accumulate(es, n).0.len() == es.len() % n,
        forall|i: int| 0 <= i < accumulate(es, n).1.len() ==> (#[trigger] accumulate(es, n).1[i]).len() == n,
        concat_batches(accumulate(es, n).1) + accumulate(es, n).0 == es,
    decreases es.len(),
{
    let k = es.len() as int;
    if k == 0 {
        assert(concat_batches(Seq::<Seq<E>>::empty()) + Seq::<E>::empty() =~= es);
    } else {
        let d = es.drop_last();
        lemma_accumulate(d, n);
        let (p, bs) = accumulate(d, n);
        let p2 = p.push(es.last());
        let q = (k - 1) / (n as int);
        let r = (k - 1) % (n as int);
        vstd::arithmetic::div_mod::lemma_fundamental_div_mod(k - 1, n as int);
        vstd::arithmetic::div_mod::lemma_mod_pos_bound(k - 1, n as int);
        assert(k - 1 == q * n + r) by (nonlinear_arith)
            requires k - 1 == (n as int) * q + r;
        assert(concat_batches(bs) + p == d);
        assert(es =~= d.push(es.last()));
        assert(concat_batches(bs) + p2 =~= (concat_batches(bs) + p).push(es.last()));
        if p2.len() == n {
            assert(k == (q + 1) * n + 0) by (nonlinear_arith)
                requires k - 1 == q * n + r, r + 1 == n;
            lemma_fundamental_div_mod_converse(k, n as int, q + 1, 0);
            let bs2 = bs.push(p2);
            assert(bs2.len() > 0);
            assert(bs2.drop_last() =~= bs);
            assert(concat_batches(bs2) == concat_batches(bs) + p2);
            assert(concat_batches(bs2) + Seq::<E>::empty() =~= es);
            assert forall|i: int| 0 <= i < bs2.len() implies (#[trigger] bs2[i]).len() == n by {
                if i < bs.len() {
                    assert(bs2[i] == bs[i]);
                }
            }
        } else {
            lemma_fundamental_div_mod_converse(k, n as int, q, r + 1);
            assert(concat_batches(bs) + p2 =~= es);
        }
    }
}

/// Collects rendered entries and hands them out `capacity` at a time.
pub struct BatchAccumulator {
    entries: Vec<(i64, String)>,
    capacity: usize,
}

impl BatchAccumulator {
    pub closed spec fn pending(&self) -> Seq<(i64, String)> {
        self.entries@
    }

    pub closed spec fn cap(&self) -> nat {
        self.capacity as nat
    }

    pub open spec fn wf(&self) -> bool {
        self.cap() > 0 && self.pending().len() < self.cap()
    }

    /// An empty accumulator that hands out batches of `capacity` entries.
    pub fn new(capacity: usize) -> (r: BatchAccumulator)
        requires
            capacity > 0,
        ensures
            r.wf(),
            r.cap() == capacity,
            r.pending().len() == 0,
    {
        BatchAccumulator { entries: Vec::with_capacity(capacity), capacity }
    }

    pub fn len(&self) -> (r: usize)
        ensures
            r == self.pending().len(),
    {
        self.entries.len()
    }

    pub fn capacity(&self) -> (r: usize)
        ensures
            r == self.cap(),
    {
        self.capacity
    }

    /// Adds an entry; when that fills the batch, returns all of its entries
    /// in the order they came and starts a new, empty batch.
    pub fn push(&mut self, timestamp: i64, line: String) -> (r: Option<Vec<(i64, String)>>)
        requires
            old(self).wf(),
        ensures
            final(self).wf(),
            final(self).cap() == old(self).cap(),
            (final(self).pending(), match r { Some(b) => Some(b@), None => None })
                == push_step(old(self).pending(), (timestamp, line), old(self).cap()),
    {
        self.entries.push((timestamp, line));
        if self.entries.len() == self.capacity {
            let mut full: Vec<(i64, String)> = Vec::with_capacity(self.capacity);
            std::mem::swap(&mut full, &mut self.entries);
            Some(full)
        } else {
            None
        }
    }
}

} // verus!
