use vstd::prelude::*;
use vstd::arithmetic::div_mod::{lemma_div_multiples_vanish_fancy, lemma_div_plus_one};

verus! {

/// Rows sent to the database in one bulk insert.
pub const BATCH_SIZE: usize = 10000;

/// `s` cut, in order, into pieces of `k` items, the last one holding what
/// is left (and no piece at all for an empty `s`).
pub open spec fn chunks<T>(s: Seq<T>, k: nat) -> Seq<Seq<T>>
    decreases s.len(),
{
    if s.len() == 0 || k == 0 {
        Seq::empty()
    } else if s.len() <= k {
        seq![s]
    } else {
        seq![s.take(k as int)] + chunks(s.skip(k as int), k)
    }
}

/// The batches that follow the full ones: the partial one, if any.
pub open spec fn trailing<T>(tail: Seq<T>) -> Seq<Seq<T>> {
    if tail.len() == 0 {
        Seq::empty()
    } else {
        seq![tail]
    }
}

/// What a finished load has sent: the full batches and the partial one.
pub open spec fn sent_with<T>(batches: Seq<Seq<T>>, last: Option<Batch<T>>) -> Seq<Seq<T>> {
    match last {
        Some(b) => batches.push(b.rows@),
        None => batches,
    }
}

/// Rows cut into batches and put back together in order are the rows
/// themselves: every row is inserted once, and in its place.
pub proof fn lemma_chunks_flatten<T>(s: Seq<T>, k: nat)
    requires
        k > 0,
    ensures
        chunks(s, k).flatten() == s,
    decreases s.len(),
{
    if s.len() == 0 {
    } else if s.len() <= k {
        let c = chunks(s, k);
        assert(c.drop_first() =~= Seq::<Seq<T>>::empty());
        assert(c.drop_first().flatten() == Seq::<T>::empty());
        assert(c.flatten() == c.first() + c.drop_first().flatten());
        assert(c.flatten() =~= s);
    } else {
        lemma_chunks_flatten(s.skip(k as int), k);
        let c = chunks(s, k);
        assert(c.drop_first() =~= chunks(s.skip(k as int), k));
        assert(s.take(k as int) + s.skip(k as int) =~= s);
    }
}

/// Loading `n` rows takes the ceiling of `n / k` batches: every batch but
/// the last holds `k` rows, the last between one and `k`.
pub proof fn lemma_chunks_shape<T>(s: Seq<T>, k: nat)
    requires
        k > 0,
    ensures
        chunks(s, k).len() == (s.len() + k - 1) / (k as int),
        forall|i: int| 0 <= i < chunks(s, k).len() - 1 ==> (#[trigger] chunks(s, k)[i]).len() == k,
        s.len() > 0 ==> 0 < chunks(s, k).last().len() <= k,
    decreases s.len(),
{
    if s.len() == 0 {
        lemma_div_multiples_vanish_fancy(0, k - 1, k as int);
    } else if s.len() <= k {
        lemma_div_multiples_vanish_fancy(1, s.len() - 1, k as int);
    } else {
        let rest = s.skip(k as int);
        lemma_chunks_shape(rest, k);
        lemma_div_plus_one(s.len() - 1, k as int);
        let c = chunks(s, k);
        assert(c.drop_first() =~= chunks(rest, k));
        assert forall|i: int| 0 <= i < c.len() - 1 implies (#[trigger] c[i]).len() == k by {
            if i > 0 {
                assert(c[i] == chunks(rest, k)[i - 1]);
            }
        }
        assert(c.last() == chunks(rest, k).last());
    }
}

/// A file with no rows issues no insert.
pub proof fn lemma_no_rows_no_batches<T>(s: Seq<T>, k: nat)
    requires
        s.len() == 0,
    ensures
        chunks(s, k).len() == 0,
{
}

/// Exactly one batch's worth of rows goes in one insert, with no partial
/// batch after it.
pub proof fn lemma_one_full_batch<T>(s: Seq<T>, k: nat)
    requires
        k > 0,
        s.len() == k,
    ensures
        chunks(s, k) == seq![s],
{
}

/// Full batches, put together in order and followed by fewer than `k`
/// rows, are cut back into the same batches and those rows.
proof fn lemma_chunks_of_full<T>(bs: Seq<Seq<T>>, tail: Seq<T>, k: nat)
    requires
        k > 0,
        tail.len() < k,
        forall|i: int| 0 <= i < bs.len() ==> (#[trigger] bs[i]).len() == k,
    ensures
        chunks(bs.flatten() + tail, k) == bs + trailing(tail),
    decreases bs.len(),
{
    if bs.len() == 0 {
        assert(bs.flatten() + tail =~= tail);
        assert(bs + trailing(tail) =~= trailing(tail));
    } else {
        let rest = bs.drop_first();
        assert forall|i: int| 0 <= i < rest.len() implies (#[trigger] rest[i]).len() == k by {
            assert(rest[i] == bs[i + 1]);
        }
        lemma_chunks_of_full(rest, tail, k);
        let s = bs.flatten() + tail;
        let r = rest.flatten() + tail;
        assert(s =~= bs[0] + r);
        if r.len() == 0 {
            if rest.len() > 0 {
                assert(rest.flatten().len() >= rest[0].len());
            }
            assert(rest =~= Seq::<Seq<T>>::empty());
            assert(s =~= bs[0]);
            assert(bs + trailing(tail) =~= seq![bs[0]]);
        } else {
            assert(s.take(k as int) =~= bs[0]);
            assert(s.skip(k as int) =~= r);
            assert(bs + trailing(tail) =~= seq![bs[0]] + (rest + trailing(tail)));
        }
    }
}

/// One bulk insert: its number, counted from one, and its rows.
pub struct Batch<T> {
    pub number: u64,
    pub rows: Vec<T>,
}

/// What the loader asks for after being handed one row.
pub enum LoadStep<T, E> {
    /// Insert this batch, then go on.
    Insert(Batch<T>),
    /// Go on with the next row.
    Continue,
    /// The row was bad: stop loading, with this error.
    Abort(E),
}

/// Collects rows and hands them out in batches of a fixed size.
pub struct Batcher<T> {
    buffer: Vec<T>,
    size: usize,
    sent: u64,
    pushed: Ghost<Seq<T>>,
    batches: Ghost<Seq<Seq<T>>>,
}

impl<T> Batcher<T> {
    /// Every row handed in so far, in order.
    pub closed spec fn pushed(&self) -> Seq<T> {
        self.pushed@
    }

    /// Every batch handed out so far, in order.
    pub closed spec fn batches(&self) -> Seq<Seq<T>> {
        self.batches@
    }

    /// The rows waiting for their batch.
    pub closed spec fn buffered(&self) -> Seq<T> {
        self.buffer@
    }

    pub closed spec fn batch_size(&self) -> nat {
        self.size as nat
    }

    /// The rows handed out and those waiting are the rows handed in; every
    /// batch handed out is full, and fewer than a batch wait.
    pub closed spec fn wf(&self) -> bool {
        &&& self.size > 0
        &&& self.buffer@.len() < self.size
        &&& self.sent == self.batches@.len()
        &&& self.pushed@ == self.batches@.flatten() + self.buffer@
        &&& forall|i: int| 0 <= i < self.batches@.len() ==> (#[trigger] self.batches@[i]).len() == self.size
    }

    pub fn new(size: usize) -> (b: Batcher<T>)
        requires
            size > 0,
        ensures
            b.wf(),
            b.batch_size() == size,
            b.pushed() == Seq::<T>::empty(),
            b.batches() == Seq::<Seq<T>>::empty(),
            b.buffered() == Seq::<T>::empty(),
    {
        let b = Batcher {
            buffer: Vec::new(),
            size,
            sent: 0,
            pushed: Ghost(Seq::empty()),
            batches: Ghost(Seq::empty()),
        };
        assert(b.batches@.flatten() + b.buffer@ =~= Seq::<T>::empty());
        b
    }

    /// The number of batches handed out so far.
    pub fn batches_sent(&self) -> (n: u64)
        requires
            self.wf(),
        ensures
            n == self.batches().len(),
    {
        self.sent
    }

    /// Takes one row; hands out a batch when the row fills one.
    pub fn push(&mut self, row: T) -> (r: Option<Batch<T>>)
        requires
            old(self).wf(),
            old(self).batches().len() < u64::MAX,
        ensures
            final(self).wf(),
            final(self).batch_size() == old(self).batch_size(),
            final(self).pushed() == old(self).pushed().push(row),
            if old(self).buffered().len() + 1 == old(self).batch_size() {
                &&& r matches Some(b)
                &&& b.rows@ == old(self).buffered().push(row)
                &&& b.number == old(self).batches().len() + 1
                &&& final(self).batches() == old(self).batches().push(b.rows@)
                &&& final(self).buffered() == Seq::<T>::empty()
            } else {
                &&& r is None
                &&& final(self).batches() == old(self).batches()
                &&& final(self).buffered() == old(self).buffered().push(row)
            },
    {
        let ghost old_batches = self.batches@;
        let ghost old_buffer = self.buffer@;
        self.buffer.push(row);
        self.pushed = Ghost(self.pushed@.push(row));
        if self.buffer.len() == self.size {
            let mut rows: Vec<T> = Vec::new();
            core::mem::swap(&mut rows, &mut self.buffer);
            self.sent = self.sent + 1;
            self.batches = Ghost(old_batches.push(rows@));
            proof {
                let bs = self.batches@;
                assert(bs.drop_last() == old_batches);
                old_batches.lemma_flatten_push(rows@);
                assert(self.pushed@ =~= bs.flatten() + self.buffer@);
            }
            Some(Batch { number: self.sent, rows })
        } else {
            assert(self.pushed@ =~= self.batches@.flatten() + self.buffer@);
            None
        }
    }

    /// Takes the outcome of reading one row. A good row is pushed; a bad
    /// one stops the load, and is in no batch: nothing is pushed.
    pub fn accept<E>(&mut self, row: Result<T, E>) -> (r: LoadStep<T, E>)
        requires
            old(self).wf(),
            old(self).batches().len() < u64::MAX,
        ensures
            final(self).wf(),
            final(self).batch_size() == old(self).batch_size(),
            match row {
                Err(e) => {
                    &&& r == LoadStep::<T, E>::Abort(e)
                    &&& *final(self) == *old(self)
                },
                Ok(x) => {
                    &&& final(self).pushed() == old(self).pushed().push(x)
                    &&& if old(self).buffered().len() + 1 == old(self).batch_size() {
                        &&& r matches LoadStep::Insert(b)
                        &&& b.rows@ == old(self).buffered().push(x)
                        &&& b.number == old(self).batches().len() + 1
                        &&& final(self).batches() == old(self).batches().push(b.rows@)
                        &&& final(self).buffered() == Seq::<T>::empty()
                    } else {
                        &&& r is Continue
                        &&& final(self).batches() == old(self).batches()
                        &&& final(self).buffered() == old(self).buffered().push(x)
                    }
                },
            },
    {
        match row {
            Err(e) => LoadStep::Abort(e),
            Ok(x) => match self.push(x) {
                Some(b) => LoadStep::Insert(b),
                None => LoadStep::Continue,
            },
        }
    }

    /// Ends the load: hands out the partial batch, if rows wait. All that
    /// was handed out is then the rows handed in, cut into batches.
    pub fn finish(self) -> (r: Option<Batch<T>>)
        requires
            self.wf(),
            self.batches().len() < u64::MAX,
        ensures
            match r {
                Some(b) => {
                    &&& self.buffered().len() > 0
                    &&& b.rows@ == self.buffered()
                    &&& b.number == self.batches().len() + 1
                },
                None => self.buffered().len() == 0,
            },
            sent_with(self.batches(), r) == chunks(self.pushed(), self.batch_size()),
    {
        proof {
            lemma_chunks_of_full(self.batches@, self.buffer@, self.size as nat);
        }
        if self.buffer.len() == 0 {
            assert(self.batches@ + trailing(self.buffer@) =~= self.batches@);
            None
        } else {
            let b = Batch { number: self.sent + 1, rows: self.buffer };
            assert(self.batches@ + trailing(b.rows@) =~= self.batches@.push(b.rows@));
            Some(b)
        }
    }
}

/// A load of all of `rows` in batches of `k` hands out exactly the batches
/// that cutting `rows` gives: their rows together are `rows`, in order,
/// and there are as many as the ceiling of `rows.len() / k`.
pub proof fn lemma_load_inserts_every_row<T>(rows: Seq<T>, k: nat)
    requires
        k > 0,
    ensures
        chunks(rows, k).flatten() == rows,
        chunks(rows, k).len() == (rows.len() + k - 1) / (k as int),
{
    lemma_chunks_flatten(rows, k);
    lemma_chunks_shape(rows, k);
}

} // verus!
