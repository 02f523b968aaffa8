use std::marker::PhantomData;
use vstd::prelude::*;

verus! {

/// Tag of a sequence known to end.
#[derive(Debug)]
pub struct Finite;

/// Tag of a sequence known never to end.
#[derive(Debug)]
pub struct Infinite;

/// Tag of a sequence whose length is not known.
#[derive(Debug)]
pub struct Unknown;

/// Whether position `i` is still to come in a sequence of length `len` (`None`: endless).
pub open spec fn in_len(len: Option<nat>, i: nat) -> bool {
    match len {
        Some(n) => i < n,
        None => true,
    }
}

/// The length that remains after one element has been taken.
pub open spec fn len_after_step(len: Option<nat>) -> Option<nat> {
    match len {
        Some(n) => Some((n - 1) as nat),
        None => None,
    }
}

/// A lazily evaluated sequence of values, produced one at a time by `next`.
///
/// Its model is the number of elements still to come (`len`, `None` where the sequence
/// never ends) and the element at each position still to come (`peek`).
/// Once a sequence has ended it stays ended.
pub trait Sequence: Sized {
    type Item;

    /// The state in which `next` may be called.
    spec fn wf(&self) -> bool;

    /// The number of elements still to come; `None` where the sequence never ends.
    spec fn len(&self) -> Option<nat>;

    /// The element at position `i` from here on, for each position still to come.
    spec fn peek(&self, i: nat) -> Self::Item;

    /// Produces the next element, or `None` where the sequence has ended.
    fn next(&mut self) -> (r: Option<Self::Item>)
        requires
            old(self).wf(),
        ensures
            final(self).wf(),
            old(self).len() == Some(0nat) ==> r is None && final(self).len() == Some(0nat),
            old(self).len() != Some(0nat) ==> {
                &&& r == Some(old(self).peek(0))
                &&& final(self).len() == len_after_step(old(self).len())
                &&& forall|i: nat|
                    in_len(final(self).len(), i) ==> #[trigger] final(self).peek(i) == old(self).peek(
                        i + 1,
                    )
            },
    ;
}

/// The elements still to come of a sequence that ends.
pub open spec fn elements<S: Sequence>(s: S) -> Seq<S::Item>
    recommends
        s.len() is Some,
{
    Seq::new(s.len()->0, |i: int| s.peek(i as nat))
}

/// The sequence before one step is its first element followed by the sequence after it.
pub proof fn lemma_elements_step<S: Sequence>(before: S, after: S)
    requires
        before.len() is Some,
        before.len() != Some(0nat),
        after.len() == len_after_step(before.len()),
        forall|i: nat| in_len(after.len(), i) ==> #[trigger] after.peek(i) == before.peek(i + 1),
    ensures
        elements(before) == seq![before.peek(0)] + elements(after),
{
    assert(elements(before) =~= seq![before.peek(0)] + elements(after)) by {
        assert forall|i: int| 1 <= i < elements(before).len() implies elements(before)[i] == (seq![
            before.peek(0),
        ] + elements(after))[i] by {
            assert(after.peek((i - 1) as nat) == before.peek(i as nat));
        }
    }
}

/// `f` can be called on every value and always gives the same result for the same value.
pub open spec fn is_transform<A, B, Func: Fn(A) -> B>(f: Func) -> bool {
    &&& forall|x: A| #[trigger] f.requires((x,))
    &&& forall|x: A, y: B, z: B| #[trigger] f.ensures((x,), y) && #[trigger] f.ensures((x,), z) ==> y == z
}

/// What the transform `f` gives for `x`.
pub open spec fn image<A, B, Func: Fn(A) -> B>(f: Func, x: A) -> B {
    choose|y: B| f.ensures((x,), y)
}

/// `pred` can be called on every value and always gives the same verdict for the same value.
pub open spec fn is_test<A, Pred: Fn(&A) -> bool>(pred: Pred) -> bool {
    &&& forall|x: A| #[trigger] pred.requires((&x,))
    &&& forall|x: A, b: bool, c: bool|
        #[trigger] pred.ensures((&x,), b) && #[trigger] pred.ensures((&x,), c) ==> b == c
}

/// The verdict of the test `pred` on `x`.
pub open spec fn verdict<A, Pred: Fn(&A) -> bool>(pred: Pred, x: A) -> bool {
    choose|b: bool| pred.ensures((&x,), b)
}

/// The elements still to come of `s` that pass `pred`, in order.
pub open spec fn kept<S: Sequence, Pred: Fn(&S::Item) -> bool>(s: S, pred: Pred) -> Seq<S::Item> {
    elements(s).filter(|x: S::Item| verdict(pred, x))
}

/// At most `n` elements of `inner`, then the end.
#[derive(Debug)]
pub struct Take<I> {
    inner: I,
    n: usize,
}

impl<I: Sequence> Sequence for Take<I> {
    type Item = I::Item;

    closed spec fn wf(&self) -> bool {
        self.inner.wf()
    }

    closed spec fn len(&self) -> Option<nat> {
        match self.inner.len() {
            Some(m) => Some(if m < self.n { m } else { self.n as nat }),
            None => Some(self.n as nat),
        }
    }

    closed spec fn peek(&self, i: nat) -> I::Item {
        self.inner.peek(i)
    }

    fn next(&mut self) -> (r: Option<I::Item>) {
        if self.n == 0 {
            Option::None
        } else {
            self.n = self.n - 1;
            self.inner.next()
        }
    }
}

/// The elements of `inner`, each transformed by `f`.
pub struct Mapped<I, Func> {
    inner: I,
    f: Func,
}

impl<B, I: Sequence, Func: Fn(I::Item) -> B> Sequence for Mapped<I, Func> {
    type Item = B;

    closed spec fn wf(&self) -> bool {
        self.inner.wf() && is_transform(self.f)
    }

    closed spec fn len(&self) -> Option<nat> {
        self.inner.len()
    }

    closed spec fn peek(&self, i: nat) -> B {
        image(self.f, self.inner.peek(i))
    }

    fn next(&mut self) -> (r: Option<B>) {
        match self.inner.next() {
            Some(x) => {
                let y = (self.f)(x);
                Some(y)
            },
            Option::None => Option::None,
        }
    }
}

/// The elements of `inner` that pass `pred`. The inner sequence must end, for the search
/// for the next passing element to end.
pub struct Filtered<I, Pred> {
    inner: I,
    pred: Pred,
}

impl<I: Sequence, Pred: Fn(&I::Item) -> bool> Sequence for Filtered<I, Pred> {
    type Item = I::Item;

    closed spec fn wf(&self) -> bool {
        self.inner.wf() && self.inner.len() is Some && is_test(self.pred)
    }

    closed spec fn len(&self) -> Option<nat> {
        Some(kept(self.inner, self.pred).len())
    }

    closed spec fn peek(&self, i: nat) -> I::Item {
        kept(self.inner, self.pred)[i as int]
    }

    fn next(&mut self) -> (r: Option<I::Item>) {
        let ghost start = kept(self.inner, self.pred);
        loop
            invariant
                self.wf(),
                self.pred == old(self).pred,
                kept(self.inner, self.pred) == start,
                start == kept(old(self).inner, old(self).pred),
            decreases self.inner.len()->0,
        {
            let ghost before = self.inner;
            match self.inner.next() {
                Some(x) => {
                    proof {
                        lemma_elements_step(before, self.inner);
                        elements(self.inner).lemma_filter_prepend(
                            x,
                            |v: I::Item| verdict(self.pred, v),
                        );
                    }
                    if (self.pred)(&x) {
                        proof {
                            assert(kept(self.inner, self.pred) =~= start.drop_first());
                        }
                        return Some(x);
                    }
                    proof {
                        assert(kept(self.inner, self.pred) =~= start);
                    }
                },
                Option::None => {
                    return Option::None;
                },
            }
        }
    }
}

/// Wrapper of a sequence that records, in its type, what is known of its length.
#[derive(Debug)]
pub struct TrackedIterator<I, F> {
    pub(crate) inner: I,
    pub(crate) _marker: PhantomData<F>,
}

impl<I: Sequence, F> Sequence for TrackedIterator<I, F> {
    type Item = I::Item;

    closed spec fn wf(&self) -> bool {
        self.inner.wf()
    }

    closed spec fn len(&self) -> Option<nat> {
        self.inner.len()
    }

    closed spec fn peek(&self, i: nat) -> I::Item {
        self.inner.peek(i)
    }

    fn next(&mut self) -> (r: Option<I::Item>) {
        self.inner.next()
    }
}

/// The elements of a vector, handed out from the front.
pub struct VecSequence<T> {
    items: Vec<T>,
}

impl<T> Sequence for VecSequence<T> {
    type Item = T;

    closed spec fn wf(&self) -> bool {
        true
    }

    closed spec fn len(&self) -> Option<nat> {
        Some(self.items@.len())
    }

    closed spec fn peek(&self, i: nat) -> T {
        self.items@[i as int]
    }

    fn next(&mut self) -> (r: Option<T>) {
        if self.items.len() == 0 {
            Option::None
        } else {
            Some(self.items.remove(0))
        }
    }
}

/// References to the elements of a slice, in order.
pub struct SliceSequence<'a, T> {
    slice: &'a [T],
    pos: usize,
}

impl<'a, T> Sequence for SliceSequence<'a, T> {
    type Item = &'a T;

    closed spec fn wf(&self) -> bool {
        self.pos <= self.slice@.len()
    }

    closed spec fn len(&self) -> Option<nat> {
        Some((self.slice@.len() - self.pos) as nat)
    }

    closed spec fn peek(&self, i: nat) -> &'a T {
        &self.slice@[self.pos + i]
    }

    fn next(&mut self) -> (r: Option<&'a T>) {
        if self.pos >= self.slice.len() {
            Option::None
        } else {
            let item = &self.slice[self.pos];
            self.pos = self.pos + 1;
            Some(item)
        }
    }
}

/// Iteration over a vector is known to end.
impl<T> From<Vec<T>> for TrackedIterator<VecSequence<T>, Finite> {
    fn from(items: Vec<T>) -> (r: Self) {
        TrackedIterator { inner: VecSequence { items }, _marker: PhantomData }
    }
}

impl<T> vstd::std_specs::convert::FromSpecImpl<Vec<T>> for TrackedIterator<VecSequence<T>, Finite> {
    open spec fn obeys_from_spec() -> bool {
        true
    }

    closed spec fn from_spec(items: Vec<T>) -> Self {
        TrackedIterator { inner: VecSequence { items }, _marker: PhantomData }
    }
}

/// The sequence made from a vector hands out its elements, in order.
pub proof fn lemma_from_vec<T>(items: Vec<T>)
    ensures
        ({
            let r = <TrackedIterator<VecSequence<T>, Finite> as vstd::std_specs::convert::FromSpec<
                Vec<T>,
            >>::from_spec(items);
            r.wf() && r.len() is Some && elements(r) == items@
        }),
{
    let r = <TrackedIterator<VecSequence<T>, Finite> as vstd::std_specs::convert::FromSpec<
        Vec<T>,
    >>::from_spec(items);
    assert(elements(r) =~= items@);
}

/// Iteration over a slice is known to end.
impl<'a, T> From<&'a [T]> for TrackedIterator<SliceSequence<'a, T>, Finite> {
    fn from(slice: &'a [T]) -> (r: Self) {
        TrackedIterator { inner: SliceSequence { slice, pos: 0 }, _marker: PhantomData }
    }
}

impl<'a, T> vstd::std_specs::convert::FromSpecImpl<&'a [T]> for TrackedIterator<SliceSequence<'a, T>, Finite> {
    open spec fn obeys_from_spec() -> bool {
        true
    }

    closed spec fn from_spec(slice: &'a [T]) -> Self {
        TrackedIterator { inner: SliceSequence { slice, pos: 0 }, _marker: PhantomData }
    }
}

/// The sequence made from a slice hands out references to its elements, in order.
pub proof fn lemma_from_slice<'a, T>(slice: &'a [T])
    ensures
        ({
            let r = <TrackedIterator<SliceSequence<'a, T>, Finite> as vstd::std_specs::convert::FromSpec<
                &'a [T],
            >>::from_spec(slice);
            r.wf() && r.len() is Some && elements(r) == slice@.map_values(|x: T| &x)
        }),
{
    let r = <TrackedIterator<SliceSequence<'a, T>, Finite> as vstd::std_specs::convert::FromSpec<
        &'a [T],
    >>::from_spec(slice);
    assert(elements(r) =~= slice@.map_values(|x: T| &x));
}

/// Converts a sequence into a tracked one of unknown length.
pub trait IntoTrackedIterator: Sequence {
    fn into_tracked(self) -> (r: TrackedIterator<Self, Unknown>)
        ensures
            r.wf() == self.wf(),
            r.len() == self.len(),
            forall|i: nat| #[trigger] r.peek(i) == self.peek(i),
    ;
}

impl<I: Sequence> IntoTrackedIterator for I {
    fn into_tracked(self) -> (r: TrackedIterator<Self, Unknown>) {
        TrackedIterator { inner: self, _marker: PhantomData }
    }
}

impl<I: Sequence, F> TrackedIterator<I, F> {
    /// Each element transformed by `f`; what is known of the length stays as it was.
    pub fn map<B, Func: Fn(I::Item) -> B>(self, f: Func) -> (r: TrackedIterator<Mapped<I, Func>, F>)
        ensures
            r.wf() == (self.wf() && is_transform(f)),
            r.len() == self.len(),
            forall|i: nat| #[trigger] r.peek(i) == image(f, self.peek(i)),
    {
        TrackedIterator { inner: Mapped { inner: self.inner, f }, _marker: PhantomData }
    }

    /// The elements that pass `pred`; what is known of the length stays as it was.
    /// Elements can be drawn from it where this sequence ends.
    pub fn filter<Pred: Fn(&I::Item) -> bool>(self, pred: Pred) -> (r: TrackedIterator<
        Filtered<I, Pred>,
        F,
    >)
        ensures
            r.wf() == (self.wf() && self.len() is Some && is_test(pred)),
            self.len() is Some ==> elements(r) == kept(self, pred),
    {
        let r = TrackedIterator { inner: Filtered { inner: self.inner, pred }, _marker: PhantomData };
        proof {
            if self.len() is Some {
                assert(elements(self) =~= elements(self.inner));
                assert(elements(r) =~= kept(self, pred));
            }
        }
        r
    }

    /// The first `n` elements of this sequence (fewer where it ends before), known to end.
    pub fn take(self, n: usize) -> (r: TrackedIterator<Take<I>, Finite>)
        ensures
            r.wf() == self.wf(),
            r.len() == Some(
                match self.len() {
                    Some(m) => if m < n { m } else { n as nat },
                    None => n as nat,
                },
            ),
            forall|i: nat| #[trigger] r.peek(i) == self.peek(i),
    {
        TrackedIterator { inner: Take { inner: self.inner, n }, _marker: PhantomData }
    }
}

} // verus!
