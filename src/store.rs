use crate::record::{first_field, has_tag, numeric_of, Numeric, OwnedParsedLine, RecordModel};
use crate::series::{trimmed, TimeSeries, TimeSeriesDatum};
use vstd::prelude::*;

verus! {

/// Nominal window length: sixty seconds, in nanoseconds.
pub const WINDOW_LENGTH_NANOS: u64 = 60_000_000_000;

/// The eviction cutoff: `now` less the window grown by a tenth, or the epoch
/// when that would lie before it.
pub open spec fn window_cutoff(now_nanos: u64, window_length_nanos: u64) -> u64 {
    let margin = window_length_nanos as int * 11 / 10;
    if now_nanos as int >= margin {
        (now_nanos as int - margin) as u64
    } else {
        0
    }
}

/// Computes [`window_cutoff`].
pub fn window_cutoff_nanos(now_nanos: u64, window_length_nanos: u64) -> (r: u64)
    ensures
        r == window_cutoff(now_nanos, window_length_nanos),
{
    let margin: u128 = window_length_nanos as u128 * 11 / 10;
    if now_nanos as u128 >= margin {
        (now_nanos as u128 - margin) as u64
    } else {
        0
    }
}

/// The series elements that a drained batch list appends: every record of
/// every batch, batches in drain order, records in batch order.
pub open spec fn drained_data<A>(batches: Seq<(A, Vec<OwnedParsedLine>)>) -> Seq<TimeSeriesDatum<OwnedParsedLine>>
    decreases batches.len(),
{
    if batches.len() == 0 {
        Seq::empty()
    } else {
        drained_data(batches.drop_last()) + as_data(batches.last().1@)
    }
}

/// Draining batches appends them batch after batch: the records of an
/// earlier batch come before those of a later one, each batch in its own
/// order, whichever connection pushed it.
pub proof fn lemma_drain_order<A>(first: (A, Vec<OwnedParsedLine>), second: (A, Vec<OwnedParsedLine>))
    ensures
        drained_data(seq![first, second]) == as_data(first.1@) + as_data(second.1@),
{
    let b = seq![first, second];
    assert(b.drop_last() =~= seq![first]);
    assert(seq![first].drop_last() =~= Seq::<(A, Vec<OwnedParsedLine>)>::empty());
    assert(seq![first].last() == first);
    assert(b.last() == second);
    assert(drained_data(Seq::<(A, Vec<OwnedParsedLine>)>::empty()) == Seq::<TimeSeriesDatum<OwnedParsedLine>>::empty());
    assert(drained_data(seq![first]) =~= as_data(first.1@));
}

/// Each record paired with its own timestamp.
pub open spec fn as_data(records: Seq<OwnedParsedLine>) -> Seq<TimeSeriesDatum<OwnedParsedLine>> {
    records.map_values(|r: OwnedParsedLine| TimeSeriesDatum { unix_timestamp_nanos: r.unix_timestamp_nanos, data: r })
}

/// Whether a record belongs to the series `measurement` with tag `key=value`.
pub open spec fn matches(r: RecordModel, measurement: Seq<char>, key: Seq<char>, value: Seq<char>) -> bool {
    r.measurement == measurement && has_tag(r.tags, key, value)
}

/// The chart point of one record: its offset from `now` and its field projection.
pub open spec fn point_of(r: RecordModel, field: Seq<char>, default: Numeric, now_nanos: u64) -> (int, Numeric) {
    (
        r.unix_timestamp_nanos as int - now_nanos as int,
        match first_field(r.fields, field) {
            Some(v) => numeric_of(v),
            None => default,
        },
    )
}

/// The chart points of the matching records of `s`, in series order.
pub open spec fn points_of(
    s: Seq<TimeSeriesDatum<OwnedParsedLine>>,
    measurement: Seq<char>,
    key: Seq<char>,
    value: Seq<char>,
    field: Seq<char>,
    default: Numeric,
    now_nanos: u64,
) -> Seq<(int, Numeric)>
    decreases s.len(),
{
    if s.len() == 0 {
        Seq::empty()
    } else {
        let rest = points_of(s.drop_last(), measurement, key, value, field, default, now_nanos);
        if matches(s.last().data@, measurement, key, value) {
            rest.push(point_of(s.last().data@, field, default, now_nanos))
        } else {
            rest
        }
    }
}

/// Positions in `s` of the records of `measurement` tagged `key=value`, in
/// increasing order.
pub open spec fn matching_positions(
    s: Seq<TimeSeriesDatum<OwnedParsedLine>>,
    measurement: Seq<char>,
    key: Seq<char>,
    value: Seq<char>,
) -> Seq<int>
    decreases s.len(),
{
    if s.len() == 0 {
        Seq::empty()
    } else {
        let rest = matching_positions(s.drop_last(), measurement, key, value);
        if matches(s.last().data@, measurement, key, value) {
            rest.push(s.len() - 1)
        } else {
            rest
        }
    }
}

/// The buffered window of records, owned by the single consumer.
pub struct MetricStore {
    pub time_series: TimeSeries<OwnedParsedLine>,
    pub window_length_nanos: u64,
}

impl MetricStore {
    /// An empty store with the given nominal window length.
    pub fn new(window_length_nanos: u64) -> (r: MetricStore)
        ensures
            r.time_series@ == Seq::<TimeSeriesDatum<OwnedParsedLine>>::empty(),
            r.window_length_nanos == window_length_nanos,
    {
        MetricStore { time_series: TimeSeries::new(), window_length_nanos }
    }

    /// Number of buffered records.
    pub fn len(&self) -> (r: usize)
        ensures
            r == self.time_series@.len(),
    {
        self.time_series.len()
    }

    /// Evicts the records older than the window, with its safety margin,
    /// ending at `now_nanos`.
    pub fn trim_time_series(&mut self, now_nanos: u64)
        ensures
            final(self).window_length_nanos == old(self).window_length_nanos,
            final(self).time_series@ == trimmed(
                old(self).time_series@,
                window_cutoff(now_nanos, old(self).window_length_nanos),
            ),
    {
        let cutoff = window_cutoff_nanos(now_nanos, self.window_length_nanos);
        self.time_series.trim_older_than(cutoff);
    }

    /// Appends every record of the drained batches, batches in drain order
    /// and records in batch order, each at its own timestamp.
    pub fn recv_metrics<A>(&mut self, batches: Vec<(A, Vec<OwnedParsedLine>)>)
        ensures
            final(self).window_length_nanos == old(self).window_length_nanos,
            final(self).time_series@ == old(self).time_series@ + drained_data(batches@),
    {
        let ghost all = batches@;
        for batch in it: batches.into_iter()
            invariant
                it.seq() == all,
                self.window_length_nanos == old(self).window_length_nanos,
                self.time_series@ == old(self).time_series@ + drained_data(all.take(it.index() as int)),
        {
            let ghost k = it.index();
            let ghost before = self.time_series@;
            assert(all.take(k + 1).drop_last() =~= all.take(k as int));
            let ghost recs = batch.1@;
            for line in lt: batch.1.into_iter()
                invariant
                    lt.seq() == recs,
                    self.window_length_nanos == old(self).window_length_nanos,
                    self.time_series@ == before + as_data(recs.take(lt.index() as int)),
            {
                let ghost j = lt.index();
                assert(as_data(recs.take(j + 1)) =~= as_data(recs.take(j as int)).push(
                    TimeSeriesDatum { unix_timestamp_nanos: line.unix_timestamp_nanos, data: line },
                ));
                self.time_series.push(line.unix_timestamp_nanos, line);
            }
            assert(recs.take(recs.len() as int) =~= recs);
            assert(self.time_series@ =~= old(self).time_series@ + drained_data(all.take(k + 1)));
        }
        assert(all.take(all.len() as int) =~= all);
    }

    /// Positions of the buffered records of `measurement` tagged
    /// `tag_key=tag_value`, oldest arrival first.
    pub fn query(&self, measurement: &str, tag_key: &str, tag_value: &str) -> (r: Vec<usize>)
        ensures
            r@.map_values(|i: usize| i as int) == matching_positions(
                self.time_series@,
                measurement@,
                tag_key@,
                tag_value@,
            ),
    {
        let measurement = measurement.to_owned();
        let key = tag_key.to_owned();
        let value = tag_value.to_owned();
        let ghost s = self.time_series@;
        let mut out: Vec<usize> = Vec::new();
        let mut i: usize = 0;
        while i < self.time_series.len()
            invariant
                i <= s.len(),
                s == self.time_series@,
                out@.map_values(|i: usize| i as int) == matching_positions(
                    s.take(i as int),
                    measurement@,
                    key@,
                    value@,
                ),
            decreases s.len() - i,
        {
            assert(s.take(i + 1).drop_last() =~= s.take(i as int));
            let d = self.time_series.get(i);
            let ghost before = out@;
            if d.data.measurement == measurement && d.data.has_tag(&key, &value) {
                out.push(i);
                assert(out@.map_values(|i: usize| i as int) =~= before.map_values(|i: usize| i as int).push(
                    i as int,
                ));
            }
            i = i + 1;
        }
        assert(s.take(s.len() as int) =~= s);
        out
    }

    /// The chart points of the buffered records of `measurement` tagged
    /// `tag_key=tag_value`, in buffer order: each record's offset from
    /// `now_nanos` and the projection of its field `field` (`default` where
    /// the field is absent).
    pub fn query_points(
        &self,
        measurement: &str,
        tag_key: &str,
        tag_value: &str,
        field: &str,
        default: Numeric,
        now_nanos: u64,
    ) -> (r: Vec<(i128, Numeric)>)
        ensures
            r@.map_values(|p: (i128, Numeric)| (p.0 as int, p.1)) == points_of(
                self.time_series@,
                measurement@,
                tag_key@,
                tag_value@,
                field@,
                default,
                now_nanos,
            ),
    {
        let measurement = measurement.to_owned();
        let key = tag_key.to_owned();
        let value = tag_value.to_owned();
        let ghost s = self.time_series@;
        let mut out: Vec<(i128, Numeric)> = Vec::new();
        let mut i: usize = 0;
        while i < self.time_series.len()
            invariant
                i <= s.len(),
                s == self.time_series@,
                out@.map_values(|p: (i128, Numeric)| (p.0 as int, p.1)) == points_of(
                    s.take(i as int),
                    measurement@,
                    key@,
                    value@,
                    field@,
                    default,
                    now_nanos,
                ),
            decreases s.len() - i,
        {
            assert(s.take(i + 1).drop_last() =~= s.take(i as int));
            let d = self.time_series.get(i);
            let ghost before = out@;
            if d.data.measurement == measurement && d.data.has_tag(&key, &value) {
                let offset = d.data.offset_timestamp_nanos(now_nanos);
                let y = d.data.get_field_numeric(field, default);
                out.push((offset, y));
                assert(out@.map_values(|p: (i128, Numeric)| (p.0 as int, p.1)) =~= before.map_values(
                    |p: (i128, Numeric)| (p.0 as int, p.1),
                ).push((offset as int, y)));
            }
            i = i + 1;
        }
        assert(s.take(s.len() as int) =~= s);
        out
    }
}

} // verus!
