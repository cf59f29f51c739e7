//! The bounded window of recent samples.
use std::collections::VecDeque;
use vstd::prelude::*;

verus! {

/// Samples retained for the plot. At one sample per second this is the last two minutes, enough
/// to see a climb build without an unbounded buffer.
pub const HISTORY_LEN: usize = 120;

/// The last `count` items of `items`, or all of them where there are no more than that.
pub open spec fn newest<T>(items: Seq<T>, count: nat) -> Seq<T> {
    if items.len() <= count {
        items
    } else {
        items.skip(items.len() - count)
    }
}

/// The newest items are as many as asked for, as far as there are so many, and they are those at
/// the end, in their order.
pub proof fn newest_is_the_tail<T>(items: Seq<T>, count: nat)
    ensures
        newest(items, count).len() == if items.len() < count {
            items.len()
        } else {
            count
        },
        forall|i: int|
            0 <= i < newest(items, count).len() ==> #[trigger] newest(items, count)[i]
                == items[items.len() - newest(items, count).len() + i],
        items.len() > 0 && count > 0 ==> newest(items, count).last() == items.last(),
{
}

/// The last [`HISTORY_LEN`] samples recorded, oldest first.
pub struct History<T> {
    samples: VecDeque<T>,
}

impl<T> View for History<T> {
    type V = Seq<T>;

    closed spec fn view(&self) -> Seq<T> {
        self.samples@
    }
}

/// `VecDeque::make_contiguous`: the items as one slice, in order; the deque keeps them.
#[verifier::external_body]
fn contiguous<T>(samples: &mut VecDeque<T>) -> (items: &[T])
    ensures
        items@ == old(samples)@,
        final(samples)@ == old(samples)@,
{
    samples.make_contiguous()
}

impl<T> History<T> {
    /// The window never holds more than [`HISTORY_LEN`] samples.
    pub open spec fn wf(&self) -> bool {
        self@.len() <= HISTORY_LEN
    }

    /// An empty window.
    pub fn new() -> (history: Self)
        ensures
            history.wf(),
            history@ == Seq::<T>::empty(),
    {
        History { samples: VecDeque::with_capacity(HISTORY_LEN) }
    }

    /// Appends `sample`; where the window is full, with two minutes' worth of samples, its oldest
    /// sample goes.
    pub fn record(&mut self, sample: T)
        requires
            old(self).wf(),
        ensures
            final(self).wf(),
            final(self)@ == newest(old(self)@.push(sample), HISTORY_LEN as nat),
            old(self)@.len() < 120 ==> final(self)@ == old(self)@.push(sample),
            old(self)@.len() == 120 ==> final(self)@ == old(self)@.subrange(1, 120).push(sample),
    {
        if self.samples.len() == HISTORY_LEN {
            self.samples.pop_front();
        }
        self.samples.push_back(sample);
        assert(self@ =~= newest(old(self)@.push(sample), HISTORY_LEN as nat));
        assert(old(self)@.len() == 120 ==> self@ =~= old(self)@.subrange(1, 120).push(sample));
    }

    /// The samples as one slice, oldest first.
    pub fn samples(&mut self) -> (items: &[T])
        ensures
            items@ == old(self)@,
            final(self)@ == old(self)@,
    {
        contiguous(&mut self.samples)
    }
}

/// The newest of a longer run are among the newest of what came before and the rest: trimming
/// early changes nothing.
pub proof fn newest_of_newest<T>(items: Seq<T>, more: Seq<T>, count: nat)
    ensures
        newest(newest(items, count) + more, count) == newest(items + more, count),
{
    assert(newest(newest(items, count) + more, count) =~= newest(items + more, count));
}

/// Recording `samples` one after another, from a window that shows `start`.
pub open spec fn recorded<T>(start: Seq<T>, samples: Seq<T>) -> Seq<T>
    decreases samples.len(),
{
    if samples.len() == 0 {
        start
    } else {
        newest(recorded(start, samples.drop_last()).push(samples.last()), HISTORY_LEN as nat)
    }
}

/// However many samples are recorded, the window shows the last [`HISTORY_LEN`] of everything
/// recorded, in the order of recording.
pub proof fn window_shows_the_newest<T>(start: Seq<T>, samples: Seq<T>)
    requires
        start.len() <= HISTORY_LEN,
    ensures
        recorded(start, samples) == newest(start + samples, HISTORY_LEN as nat),
        recorded(start, samples).len() <= HISTORY_LEN,
        recorded(start, samples).len() == if start.len() + samples.len() < 120 {
            start.len() + samples.len()
        } else {
            120
        },
        forall|i: int|
            0 <= i < recorded(start, samples).len() ==> #[trigger] recorded(start, samples)[i] == (
            start + samples)[start.len() + samples.len() - recorded(start, samples).len() + i],
    decreases samples.len(),
{
    if samples.len() == 0 {
        assert(start + samples =~= start);
    } else {
        window_shows_the_newest(start, samples.drop_last());
        newest_of_newest(start + samples.drop_last(), seq![samples.last()], HISTORY_LEN as nat);
        assert(recorded(start, samples.drop_last()).push(samples.last()) =~= newest(
            start + samples.drop_last(),
            HISTORY_LEN as nat,
        ) + seq![samples.last()]);
        assert(start + samples.drop_last() + seq![samples.last()] =~= start + samples);
    }
}

} // verus!
