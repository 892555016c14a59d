//! The result ring: a vector that is written through a log of operations and
//! read from a buffer that only a refresh brings up to date.

use vstd::prelude::*;

verus! {

/// A vector that is changed one [`Operation`] at a time.
#[derive(Clone, Debug)]
pub struct EVec<T>(pub Vec<T>);

/// One change to an [`EVec`].
#[derive(Clone, Copy, Debug)]
pub enum Operation<T> {
    /// Append a value.
    Push(T),
    /// Take out the value at an index.
    Remove(usize),
    /// Take out every value.
    Clear,
}

impl<T> View for EVec<T> {
    type V = Seq<T>;

    open spec fn view(&self) -> Seq<T> {
        self.0@
    }
}

/// `op` can be applied to a vector that holds `s`.
pub open spec fn applicable<T>(s: Seq<T>, op: Operation<T>) -> bool {
    op matches Operation::Remove(index) ==> index < s.len()
}

/// What a vector that holds `s` holds after `op`.
pub open spec fn apply<T>(s: Seq<T>, op: Operation<T>) -> Seq<T> {
    match op {
        Operation::Push(value) => s.push(value),
        Operation::Remove(index) => s.remove(index as int),
        Operation::Clear => Seq::empty(),
    }
}

/// What a vector that holds `s` holds after the operations `ops`, first to last.
pub open spec fn replay<T>(s: Seq<T>, ops: Seq<Operation<T>>) -> Seq<T>
    decreases ops.len(),
{
    if ops.len() == 0 {
        s
    } else {
        apply(replay(s, ops.drop_last()), ops.last())
    }
}

/// Each of `ops` can be applied in its turn, starting from `s`.
pub open spec fn replayable<T>(s: Seq<T>, ops: Seq<Operation<T>>) -> bool
    decreases ops.len(),
{
    ops.len() == 0 || (replayable(s, ops.drop_last()) && applicable(
        replay(s, ops.drop_last()),
        ops.last(),
    ))
}

/// A log that can be replayed can be replayed up to any of its operations,
/// and that operation can then be applied.
pub proof fn lemma_replayable_prefix<T>(s: Seq<T>, ops: Seq<Operation<T>>, i: int)
    requires
        replayable(s, ops),
        0 <= i < ops.len(),
    ensures
        replayable(s, ops.take(i)),
        applicable(replay(s, ops.take(i)), ops[i]),
    decreases ops.len(),
{
    if i == ops.len() - 1 {
        assert(ops.take(i) =~= ops.drop_last());
    } else {
        lemma_replayable_prefix(s, ops.drop_last(), i);
        assert(ops.drop_last().take(i) =~= ops.take(i));
    }
}

/// Replaying a log in two parts gives what replaying it whole gives: where a
/// refresh falls between two writes does not change what is read in the end.
pub proof fn lemma_replay_concat<T>(s: Seq<T>, a: Seq<Operation<T>>, b: Seq<Operation<T>>)
    ensures
        replay(s, a + b) == replay(replay(s, a), b),
        replayable(s, a + b) <==> replayable(s, a) && replayable(replay(s, a), b),
    decreases b.len(),
{
    if b.len() == 0 {
        assert(a + b =~= a);
    } else {
        lemma_replay_concat(s, a, b.drop_last());
        assert((a + b).drop_last() =~= a + b.drop_last());
        assert((a + b).last() == b.last());
    }
}

impl<T> EVec<T> {
    /// An empty vector with room for `size` values.
    pub fn with_compacity(size: usize) -> (v: Self)
        ensures
            v@ == Seq::<T>::empty(),
    {
        EVec(Vec::with_capacity(size))
    }

    /// Applies one operation. A removal names an index that the vector holds.
    pub fn apply_operation(&mut self, operation: Operation<T>)
        requires
            applicable(old(self)@, operation),
        ensures
            final(self)@ == apply(old(self)@, operation),
    {
        match operation {
            Operation::Push(value) => self.0.push(value),
            Operation::Remove(index) => {
                self.0.remove(index);
            },
            Operation::Clear => self.0.clear(),
        }
    }
}

/// A double-buffered vector. Writers queue operations; a reader sees the
/// vector as the last refresh left it.
pub struct ResultRing<T> {
    front: EVec<T>,
    log: Vec<Operation<T>>,
}

impl<T> ResultRing<T> {
    /// What a reader sees.
    pub closed spec fn visible(&self) -> Seq<T> {
        self.front@
    }

    /// The operations written since the last refresh, oldest first.
    pub closed spec fn queued(&self) -> Seq<Operation<T>> {
        self.log@
    }

    /// What a reader would see after a refresh.
    pub open spec fn settled(&self) -> Seq<T> {
        replay(self.visible(), self.queued())
    }

    /// The queued operations can all be applied.
    pub open spec fn wf(&self) -> bool {
        replayable(self.visible(), self.queued())
    }

    /// An empty ring with room for `size` values.
    pub fn with_capacity(size: usize) -> (ring: Self)
        ensures
            ring.wf(),
            ring.visible() == Seq::<T>::empty(),
            ring.queued() == Seq::<Operation<T>>::empty(),
    {
        ResultRing { front: EVec::with_compacity(size), log: Vec::new() }
    }

    /// Queues an operation. Readers do not see it before the next refresh.
    pub fn write(&mut self, operation: Operation<T>)
        requires
            old(self).wf(),
            applicable(old(self).settled(), operation),
        ensures
            final(self).wf(),
            final(self).visible() == old(self).visible(),
            final(self).queued() == old(self).queued().push(operation),
            final(self).settled() == apply(old(self).settled(), operation),
    {
        self.log.push(operation);
        proof {
            assert(self.log@.drop_last() =~= old(self).log@);
        }
    }

    /// Applies the queued operations, oldest first, and so shows them to readers.
    pub fn refresh(&mut self)
        requires
            old(self).wf(),
        ensures
            final(self).wf(),
            final(self).visible() == old(self).settled(),
            final(self).queued() == Seq::<Operation<T>>::empty(),
    {
        let mut ops: Vec<Operation<T>> = Vec::new();
        core::mem::swap(&mut self.log, &mut ops);
        let ghost start = self.front@;
        let ghost all = ops@;
        for op in it: ops
            invariant
                it.seq() == all,
                replayable(start, all),
                self.log@ == Seq::<Operation<T>>::empty(),
                self.front@ == replay(start, all.take(it.index() as int)),
        {
            proof {
                lemma_replayable_prefix(start, all, it.index() as int);
                assert(all.take(it.index() + 1).drop_last() =~= all.take(it.index() as int));
            }
            self.front.apply_operation(op);
        }
        proof {
            assert(all.take(all.len() as int) =~= all);
        }
    }

    /// What a reader sees: the vector as the last refresh left it.
    pub fn read(&self) -> (seen: &Vec<T>)
        ensures
            seen@ == self.visible(),
    {
        &self.front.0
    }

    /// The number of operations written since the last refresh.
    pub fn backlog(&self) -> (n: usize)
        ensures
            n == self.queued().len(),
    {
        self.log.len()
    }

    /// Hands out what a reader sees and leaves the ring empty. Nothing may be
    /// queued: refresh first.
    pub fn take(&mut self) -> (seen: Vec<T>)
        requires
            old(self).queued().len() == 0,
        ensures
            final(self).wf(),
            seen@ == old(self).visible(),
            final(self).visible() == Seq::<T>::empty(),
            final(self).queued() == Seq::<Operation<T>>::empty(),
    {
        let mut seen: Vec<T> = Vec::new();
        core::mem::swap(&mut self.front.0, &mut seen);
        seen
    }
}

} // verus!
