use crate::record::{fields_model, tags_model, MeasurementValue, OwnedParsedLine, RecordModel, ValueModel};
use crate::record::MeasurementValue::{Boolean, F64Bits, I64, U64};
use influxdb_line_protocol::{parse_lines, FieldValue};
use vstd::prelude::*;

verus! {

/// One statement as the line-protocol parser reads it, before its timestamp
/// is resolved.
#[derive(Debug)]
pub struct WireLine {
    pub measurement: String,
    pub tags: Vec<(String, String)>,
    pub fields: Vec<(String, MeasurementValue)>,
    /// Nanoseconds since the Unix epoch, when the statement carries one.
    pub timestamp: Option<i64>,
}

/// Mathematical model of a [`WireLine`].
pub struct StatementModel {
    pub measurement: Seq<char>,
    pub tags: Seq<(Seq<char>, Seq<char>)>,
    pub fields: Seq<(Seq<char>, ValueModel)>,
    pub timestamp: Option<i64>,
}

impl View for WireLine {
    type V = StatementModel;

    open spec fn view(&self) -> StatementModel {
        StatementModel {
            measurement: self.measurement@,
            tags: tags_model(self.tags@),
            fields: fields_model(self.fields@),
            timestamp: self.timestamp,
        }
    }
}

/// Model of the parser's output: one entry per statement, `None` for a
/// statement that does not parse.
pub open spec fn statements_model(s: Seq<Option<WireLine>>) -> Seq<Option<StatementModel>> {
    s.map_values(|w: Option<WireLine>| match w {
        Some(w) => Some(w@),
        None => None,
    })
}

/// The statements that the line-protocol parser reads from `line`, in order.
pub uninterp spec fn line_protocol_statements(line: Seq<char>) -> Seq<Option<StatementModel>>;

/// Relies on `influxdb_line_protocol::parse_lines`: one result per
/// non-empty statement of `line`, in order, an error for one that does not
/// parse; an empty input holds no statement.
#[verifier::external_body]
fn parse_statements(line: &str) -> (r: Vec<Option<WireLine>>)
    ensures
        statements_model(r@) == line_protocol_statements(line@),
        line@.len() == 0 ==> r@.len() == 0,
{
    parse_lines(line).map(|p| p.ok().map(|p| WireLine {
        measurement: p.series.measurement.to_string(),
        tags: p.series.tag_set.into_iter().flatten().map(|(k, v)| (k.to_string(), v.to_string())).collect(),
        fields: p.field_set.into_iter().map(|(k, v)| (k.to_string(), match v {
            FieldValue::I64(i) => I64(i),
            FieldValue::U64(u) => U64(u),
            FieldValue::F64(f) => F64Bits(f.to_bits()),
            FieldValue::String(s) => MeasurementValue::String(s.to_string()),
            FieldValue::Boolean(b) => Boolean(b),
        })).collect(),
        timestamp: p.timestamp,
    })).collect()
}

/// The wire timestamp when it is a non-negative nanosecond count, else `now`.
pub open spec fn resolve_timestamp(timestamp: Option<i64>, now_nanos: u64) -> u64 {
    match timestamp {
        Some(ns) => if ns >= 0 { ns as u64 } else { now_nanos },
        None => now_nanos,
    }
}

/// The record that a parsed statement becomes.
pub open spec fn record_of(w: StatementModel, now_nanos: u64) -> RecordModel {
    RecordModel {
        measurement: w.measurement,
        tags: w.tags,
        fields: w.fields,
        unix_timestamp_nanos: resolve_timestamp(w.timestamp, now_nanos),
    }
}

/// The records of the statements that parsed, in order; the others are
/// skipped.
pub open spec fn records_of(s: Seq<Option<StatementModel>>, now_nanos: u64) -> Seq<RecordModel>
    decreases s.len(),
{
    if s.len() == 0 {
        Seq::empty()
    } else {
        let rest = records_of(s.drop_last(), now_nanos);
        match s.last() {
            Some(w) => rest.push(record_of(w, now_nanos)),
            None => rest,
        }
    }
}

/// The records of two runs of statements, one after the other, are the
/// records of the first run followed by those of the second.
pub proof fn lemma_records_concat(a: Seq<Option<StatementModel>>, b: Seq<Option<StatementModel>>, now_nanos: u64)
    ensures
        records_of(a + b, now_nanos) == records_of(a, now_nanos) + records_of(b, now_nanos),
    decreases b.len(),
{
    if b.len() == 0 {
        assert(a + b =~= a);
        assert(records_of(a, now_nanos) + records_of(b, now_nanos) =~= records_of(a, now_nanos));
    } else {
        lemma_records_concat(a, b.drop_last(), now_nanos);
        assert((a + b).drop_last() =~= a + b.drop_last());
        assert((a + b).last() == b.last());
        match b.last() {
            Some(w) => {
                assert(records_of(a, now_nanos) + records_of(b.drop_last(), now_nanos).push(record_of(w, now_nanos))
                    =~= (records_of(a, now_nanos) + records_of(b.drop_last(), now_nanos)).push(record_of(w, now_nanos)));
            },
            None => {},
        }
    }
}

/// A statement that does not parse contributes no record and leaves the
/// records of the statements around it as they are.
pub proof fn lemma_unparsed_statement_skipped(
    before: Seq<Option<StatementModel>>,
    after: Seq<Option<StatementModel>>,
    now_nanos: u64,
)
    ensures
        records_of(before + seq![None] + after, now_nanos) == records_of(before, now_nanos) + records_of(after, now_nanos),
{
    lemma_records_concat(before + seq![None], after, now_nanos);
    assert((before + seq![None]).drop_last() =~= before);
}

pub open spec fn records_model(r: Seq<OwnedParsedLine>) -> Seq<RecordModel> {
    r.map_values(|l: OwnedParsedLine| l@)
}

impl OwnedParsedLine {
    /// Takes over a parsed statement, stamping it `now_nanos` when it
    /// carries no usable timestamp.
    pub fn from_wire(w: WireLine, now_nanos: u64) -> (r: OwnedParsedLine)
        ensures
            r@ == record_of(w@, now_nanos),
            w.timestamp is None ==> r.unix_timestamp_nanos == now_nanos,
    {
        let unix_timestamp_nanos = match w.timestamp {
            Some(ns) => if ns >= 0 { ns as u64 } else { now_nanos },
            None => now_nanos,
        };
        OwnedParsedLine {
            measurement: w.measurement,
            tags: w.tags,
            fields: w.fields,
            unix_timestamp_nanos,
        }
    }
}

/// Converts the parser's output into records, skipping statements that did
/// not parse.
pub fn records_from_statements(statements: Vec<Option<WireLine>>, now_nanos: u64) -> (r: Vec<OwnedParsedLine>)
    ensures
        records_model(r@) == records_of(statements_model(statements@), now_nanos),
{
    let ghost all = statements@;
    let mut out: Vec<OwnedParsedLine> = Vec::new();
    for s in it: statements.into_iter()
        invariant
            it.seq() == all,
            records_model(out@) == records_of(statements_model(all.take(it.index() as int)), now_nanos),
    {
        let ghost k = it.index();
        assert(statements_model(all.take(k + 1)).drop_last() =~= statements_model(all.take(k as int)));
        match s {
            Some(w) => {
                out.push(OwnedParsedLine::from_wire(w, now_nanos));
            },
            None => {},
        }
        assert(records_model(out@) =~= records_of(statements_model(all.take(k + 1)), now_nanos));
    }
    assert(all.take(all.len() as int) =~= all);
    out
}

/// Parses one line of input into the records of its statements, stamping
/// `now_nanos` on those that carry no timestamp.
pub fn parse_records(line: &str, now_nanos: u64) -> (r: Vec<OwnedParsedLine>)
    ensures
        records_model(r@) == records_of(line_protocol_statements(line@), now_nanos),
{
    records_from_statements(parse_statements(line), now_nanos)
}

} // verus!
