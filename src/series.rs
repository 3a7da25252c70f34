use std::collections::VecDeque;
use vstd::prelude::*;

verus! {

/// One element of a [`TimeSeries`]: a payload and its timestamp.
#[derive(Debug)]
pub struct TimeSeriesDatum<T> {
    /// Nanoseconds since the Unix epoch.
    pub unix_timestamp_nanos: u64,
    pub data: T,
}

/// Timestamped payloads in arrival order: appended at the back, evicted
/// from the front.
#[derive(Debug)]
pub struct TimeSeries<T> {
    data: VecDeque<TimeSeriesDatum<T>>,
}

/// What remains of `s` once every leading element stamped strictly before
/// `cutoff` is removed; the scan stops at the first element at or after it.
pub open spec fn trimmed<T>(s: Seq<TimeSeriesDatum<T>>, cutoff: u64) -> Seq<TimeSeriesDatum<T>>
    decreases s.len(),
{
    if s.len() > 0 && s[0].unix_timestamp_nanos < cutoff {
        trimmed(s.drop_first(), cutoff)
    } else {
        s
    }
}

/// Trimming removes a prefix of elements all stamped before the cutoff, and
/// what remains is empty or starts at or after the cutoff.
pub proof fn lemma_trimmed_suffix<T>(s: Seq<TimeSeriesDatum<T>>, cutoff: u64)
    ensures
        trimmed(s, cutoff).len() <= s.len(),
        trimmed(s, cutoff) =~= s.subrange(s.len() - trimmed(s, cutoff).len(), s.len() as int),
        forall|j: int|
            0 <= j < s.len() - trimmed(s, cutoff).len() ==> s[j].unix_timestamp_nanos < cutoff,
        trimmed(s, cutoff).len() > 0 ==> trimmed(s, cutoff)[0].unix_timestamp_nanos >= cutoff,
    decreases s.len(),
{
    if s.len() > 0 && s[0].unix_timestamp_nanos < cutoff {
        lemma_trimmed_suffix(s.drop_first(), cutoff);
        assert forall|j: int|
            0 <= j < s.len() - trimmed(s, cutoff).len() implies s[j].unix_timestamp_nanos < cutoff by {
            if j > 0 {
                assert(s[j] == s.drop_first()[j - 1]);
            }
        }
    }
}

impl<T> View for TimeSeries<T> {
    type V = Seq<TimeSeriesDatum<T>>;

    closed spec fn view(&self) -> Seq<TimeSeriesDatum<T>> {
        self.data@
    }
}

impl<T> TimeSeries<T> {
    /// An empty series.
    pub fn new() -> (r: TimeSeries<T>)
        ensures
            r@ == Seq::<TimeSeriesDatum<T>>::empty(),
    {
        TimeSeries { data: VecDeque::new() }
    }

    /// Number of buffered elements.
    pub fn len(&self) -> (r: usize)
        ensures
            r == self@.len(),
    {
        self.data.len()
    }

    /// The element at position `i`, counted from the oldest arrival.
    pub fn get(&self, i: usize) -> (r: &TimeSeriesDatum<T>)
        requires
            i < self@.len(),
        ensures
            *r == self@[i as int],
    {
        &self.data[i]
    }

    /// Appends `data`, stamped `unix_timestamp_nanos`, at the back.
    pub fn push(&mut self, unix_timestamp_nanos: u64, data: T)
        ensures
            final(self)@ == old(self)@.push(TimeSeriesDatum { unix_timestamp_nanos, data }),
    {
        self.data.push_back(TimeSeriesDatum { unix_timestamp_nanos, data });
    }

    /// Evicts from the front every element stamped strictly before
    /// `unix_timestamp_nanos`, stopping at the first one that is not.
    pub fn trim_older_than(&mut self, unix_timestamp_nanos: u64)
        ensures
            final(self)@ == trimmed(old(self)@, unix_timestamp_nanos),
            final(self)@ =~= old(self)@.subrange(
                old(self)@.len() - final(self)@.len(),
                old(self)@.len() as int,
            ),
            forall|j: int|
                0 <= j < old(self)@.len() - final(self)@.len() ==> old(self)@[j].unix_timestamp_nanos
                    < unix_timestamp_nanos,
            final(self)@.len() > 0 ==> final(self)@[0].unix_timestamp_nanos >= unix_timestamp_nanos,
    {
        proof {
            lemma_trimmed_suffix(self@, unix_timestamp_nanos);
        }
        loop
            invariant
                trimmed(self@, unix_timestamp_nanos) == trimmed(old(self)@, unix_timestamp_nanos),
            ensures
                self@ == trimmed(old(self)@, unix_timestamp_nanos),
            decreases self@.len(),
        {
            if self.data.len() == 0 || self.data[0].unix_timestamp_nanos >= unix_timestamp_nanos {
                assert(trimmed(self@, unix_timestamp_nanos) == self@);
                break;
            }
            let ghost before = self@;
            self.data.pop_front();
            assert(self@ =~= before.drop_first());
        }
    }
}

} // verus!
