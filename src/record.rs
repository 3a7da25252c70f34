use vstd::prelude::*;

verus! {

/// A typed field value of a record.
///
/// A floating-point field is held as its IEEE-754 bit pattern, so that the
/// value is carried through unchanged.
#[derive(Debug, Clone, PartialEq, Eq)]
pub enum MeasurementValue {
    I64(i64),
    U64(u64),
    F64Bits(u64),
    String(String),
    Boolean(bool),
}

/// Mathematical model of a [`MeasurementValue`].
pub enum ValueModel {
    I64(i64),
    U64(u64),
    F64Bits(u64),
    String(Seq<char>),
    Boolean(bool),
}

/// The numeric projection of a field value, before it is cast to a float:
/// a signed integer, an unsigned integer, or the bit pattern of a float.
#[derive(Debug, Clone, Copy, PartialEq, Eq, Structural)]
pub enum Numeric {
    I64(i64),
    U64(u64),
    F64Bits(u64),
}

impl View for MeasurementValue {
    type V = ValueModel;

    open spec fn view(&self) -> ValueModel {
        match self {
            MeasurementValue::I64(i) => ValueModel::I64(*i),
            MeasurementValue::U64(u) => ValueModel::U64(*u),
            MeasurementValue::F64Bits(b) => ValueModel::F64Bits(*b),
            MeasurementValue::String(s) => ValueModel::String(s@),
            MeasurementValue::Boolean(b) => ValueModel::Boolean(*b),
        }
    }
}

/// Numeric projection: text counts as zero, a boolean as one or zero, and
/// every numeric kind keeps its value.
pub open spec fn numeric_of(v: ValueModel) -> Numeric {
    match v {
        ValueModel::I64(i) => Numeric::I64(i),
        ValueModel::U64(u) => Numeric::U64(u),
        ValueModel::F64Bits(b) => Numeric::F64Bits(b),
        ValueModel::String(_) => Numeric::I64(0),
        ValueModel::Boolean(b) => Numeric::I64(if b { 1 } else { 0 }),
    }
}

impl MeasurementValue {
    /// The numeric projection of this value.
    pub fn numeric(&self) -> (r: Numeric)
        ensures
            r == numeric_of(self@),
    {
        match self {
            MeasurementValue::I64(i) => Numeric::I64(*i),
            MeasurementValue::U64(u) => Numeric::U64(*u),
            MeasurementValue::F64Bits(b) => Numeric::F64Bits(*b),
            MeasurementValue::String(_) => Numeric::I64(0),
            MeasurementValue::Boolean(b) => {
                if *b {
                    Numeric::I64(1)
                } else {
                    Numeric::I64(0)
                }
            },
        }
    }
}

/// An owned record decoded from one line-protocol statement.
#[derive(Debug, Clone)]
pub struct OwnedParsedLine {
    pub measurement: String,
    pub tags: Vec<(String, String)>,
    pub fields: Vec<(String, MeasurementValue)>,
    /// Nanoseconds since the Unix epoch.
    pub unix_timestamp_nanos: u64,
}

/// Mathematical model of an [`OwnedParsedLine`].
pub struct RecordModel {
    pub measurement: Seq<char>,
    pub tags: Seq<(Seq<char>, Seq<char>)>,
    pub fields: Seq<(Seq<char>, ValueModel)>,
    pub unix_timestamp_nanos: u64,
}

pub open spec fn tags_model(tags: Seq<(String, String)>) -> Seq<(Seq<char>, Seq<char>)> {
    tags.map_values(|t: (String, String)| (t.0@, t.1@))
}

pub open spec fn fields_model(fields: Seq<(String, MeasurementValue)>) -> Seq<(Seq<char>, ValueModel)> {
    fields.map_values(|f: (String, MeasurementValue)| (f.0@, f.1@))
}

impl View for OwnedParsedLine {
    type V = RecordModel;

    open spec fn view(&self) -> RecordModel {
        RecordModel {
            measurement: self.measurement@,
            tags: tags_model(self.tags@),
            fields: fields_model(self.fields@),
            unix_timestamp_nanos: self.unix_timestamp_nanos,
        }
    }
}

/// The value of the first field named `name`, if there is one.
pub open spec fn first_field(fields: Seq<(Seq<char>, ValueModel)>, name: Seq<char>) -> Option<ValueModel>
    decreases fields.len(),
{
    if fields.len() == 0 {
        None
    } else if fields[0].0 == name {
        Some(fields[0].1)
    } else {
        first_field(fields.drop_first(), name)
    }
}

/// Whether some tag has exactly this key and this value.
pub open spec fn has_tag(tags: Seq<(Seq<char>, Seq<char>)>, key: Seq<char>, value: Seq<char>) -> bool {
    exists|i: int| 0 <= i < tags.len() && tags[i].0 == key && tags[i].1 == value
}

impl OwnedParsedLine {
    /// Timestamp relative to `now_nanos`, in nanoseconds (negative for the past).
    pub fn offset_timestamp_nanos(&self, now_nanos: u64) -> (r: i128)
        ensures
            r == self.unix_timestamp_nanos as int - now_nanos as int,
    {
        self.unix_timestamp_nanos as i128 - now_nanos as i128
    }

    /// The first field named `name`.
    pub fn get_field(&self, name: &str) -> (r: Option<&MeasurementValue>)
        ensures
            match r {
                Some(v) => first_field(self@.fields, name@) == Some(v@),
                None => first_field(self@.fields, name@) is None,
            },
    {
        let key = name.to_owned();
        let mut i: usize = 0;
        assert(self@.fields.subrange(0, self@.fields.len() as int) =~= self@.fields);
        while i < self.fields.len()
            invariant
                i <= self.fields@.len(),
                key@ == name@,
                first_field(self@.fields, name@) == first_field(self@.fields.subrange(i as int, self@.fields.len() as int), name@),
            decreases self.fields@.len() - i,
        {
            let ghost rest = self@.fields.subrange(i as int, self@.fields.len() as int);
            assert(rest.drop_first() =~= self@.fields.subrange(i + 1, self@.fields.len() as int));
            assert(rest[0] == self@.fields[i as int]);
            if self.fields[i].0 == key {
                return Some(&self.fields[i].1);
            }
            i = i + 1;
        }
        None
    }

    /// The numeric projection of the first field named `name`, or `default`
    /// when there is no such field.
    pub fn get_field_numeric(&self, name: &str, default: Numeric) -> (r: Numeric)
        ensures
            r == match first_field(self@.fields, name@) {
                Some(v) => numeric_of(v),
                None => default,
            },
    {
        match self.get_field(name) {
            Some(v) => v.numeric(),
            None => default,
        }
    }

    /// Whether the record carries the tag `key=value`.
    pub fn has_tag(&self, key: &String, value: &String) -> (r: bool)
        ensures
            r == has_tag(self@.tags, key@, value@),
    {
        let mut i: usize = 0;
        while i < self.tags.len()
            invariant
                i <= self.tags@.len(),
                forall|j: int| 0 <= j < i ==> !(self@.tags[j].0 == key@ && self@.tags[j].1 == value@),
            decreases self.tags@.len() - i,
        {
            if self.tags[i].0 == *key && self.tags[i].1 == *value {
                assert(self@.tags[i as int].0 == key@);
                return true;
            }
            i = i + 1;
        }
        false
    }
}

} // verus!
