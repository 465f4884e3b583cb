use vstd::prelude::*;
use crate::contract::{EffectiveParameterRecord, ShardOutcomeRecord};
use crate::text::owned;

verus! {

/// The cells of one column of a table, row by row; `None` is a null cell.
pub enum ColumnValues {
    Text(Vec<Option<String>>),
    Unsigned(Vec<Option<u64>>),
}

/// One column of a record table: its name, whether it may hold nulls, and its cells.
pub struct RecordColumn {
    pub name: String,
    pub nullable: bool,
    pub values: ColumnValues,
}

pub open spec fn opt_text(v: Option<String>) -> Option<Seq<char>> {
    match v {
        Some(s) => Some(s@),
        None => None,
    }
}

/// Column `c` is the text column `name`, of one row holding `cell`.
pub open spec fn is_text_column(c: RecordColumn, name: Seq<char>, nullable: bool, cell: Option<Seq<char>>) -> bool {
    &&& c.name@ == name
    &&& c.nullable == nullable
    &&& c.values matches ColumnValues::Text(vs) && vs@.len() == 1 && opt_text(vs@[0]) == cell
}

/// Column `c` is the unsigned-integer column `name`, of one row holding `cell`.
pub open spec fn is_unsigned_column(c: RecordColumn, name: Seq<char>, nullable: bool, cell: Option<u64>) -> bool {
    &&& c.name@ == name
    &&& c.nullable == nullable
    &&& c.values matches ColumnValues::Unsigned(vs) && vs@.len() == 1 && vs@[0] == cell
}

fn text_column(name: &str, nullable: bool, cell: Option<String>) -> (c: RecordColumn)
    ensures
        is_text_column(c, name@, nullable, opt_text(cell)),
{
    let mut vs: Vec<Option<String>> = Vec::new();
    vs.push(cell);
    RecordColumn { name: owned(name), nullable, values: ColumnValues::Text(vs) }
}

fn unsigned_column(name: &str, nullable: bool, cell: Option<u64>) -> (c: RecordColumn)
    ensures
        is_unsigned_column(c, name@, nullable, cell),
{
    let mut vs: Vec<Option<u64>> = Vec::new();
    vs.push(cell);
    RecordColumn { name: owned(name), nullable, values: ColumnValues::Unsigned(vs) }
}

/// The one-row table of a shard's outcome record: the shard's fields, then its result
/// key, point count and format (null for a failure), then its error code and message
/// (null for a success).
pub fn outcome_columns(record: &ShardOutcomeRecord) -> (cols: Vec<RecordColumn>)
    ensures
        cols@.len() == 12,
        is_text_column(cols@[0], "run_id"@, false, Some(record.run_id@)),
        is_unsigned_column(cols@[1], "shard_id"@, false, Some(record.shard_id as u64)),
        is_text_column(cols@[2], "status"@, false, Some(record.status@)),
        is_unsigned_column(cols@[3], "start_index"@, false, Some(record.start_index as u64)),
        is_unsigned_column(cols@[4], "end_index_exclusive"@, false, Some(record.end_index_exclusive as u64)),
        is_text_column(cols@[5], "event_time"@, false, Some(record.event_time@)),
        is_text_column(cols@[6], "record_schema"@, false, Some(record.record_schema@)),
        is_text_column(cols@[7], "result_key"@, true, match record.output_metadata {
            Some(m) => Some(m.result_key@),
            None => None,
        }),
        is_unsigned_column(cols@[8], "points_processed"@, true, match record.output_metadata {
            Some(m) => Some(m.points_processed as u64),
            None => None,
        }),
        is_text_column(cols@[9], "format"@, true, match record.output_metadata {
            Some(m) => Some(m.format@),
            None => None,
        }),
        is_text_column(cols@[10], "error_code"@, true, match record.error {
            Some(e) => Some(e.error_code@),
            None => None,
        }),
        is_text_column(cols@[11], "error_message"@, true, match record.error {
            Some(e) => Some(e.error_message@),
            None => None,
        }),
{
    let (result_key, points_processed, format) = match &record.output_metadata {
        Some(m) => (Some(m.result_key.clone()), Some(m.points_processed as u64), Some(m.format.clone())),
        None => (None, None, None),
    };
    let (error_code, error_message) = match &record.error {
        Some(e) => (Some(e.error_code.clone()), Some(e.error_message.clone())),
        None => (None, None),
    };
    let mut cols: Vec<RecordColumn> = Vec::new();
    cols.push(text_column("run_id", false, Some(record.run_id.clone())));
    cols.push(unsigned_column("shard_id", false, Some(record.shard_id as u64)));
    cols.push(text_column("status", false, Some(record.status.clone())));
    cols.push(unsigned_column("start_index", false, Some(record.start_index as u64)));
    cols.push(unsigned_column("end_index_exclusive", false, Some(record.end_index_exclusive as u64)));
    cols.push(text_column("event_time", false, Some(record.event_time.clone())));
    cols.push(text_column("record_schema", false, Some(record.record_schema.clone())));
    cols.push(text_column("result_key", true, result_key));
    cols.push(unsigned_column("points_processed", true, points_processed));
    cols.push(text_column("format", true, format));
    cols.push(text_column("error_code", true, error_code));
    cols.push(text_column("error_message", true, error_message));
    cols
}

/// The one-row table of a point's effective-parameters record.
pub fn effective_parameter_columns(record: &EffectiveParameterRecord) -> (cols: Vec<RecordColumn>)
    ensures
        cols@.len() == 7,
        is_text_column(cols@[0], "run_id"@, false, Some(record.run_id@)),
        is_unsigned_column(cols@[1], "shard_id"@, false, Some(record.shard_id as u64)),
        is_unsigned_column(cols@[2], "point_index"@, false, Some(record.point_index as u64)),
        is_text_column(cols@[3], "status"@, false, Some(record.status@)),
        is_text_column(cols@[4], "record_schema"@, false, Some(record.record_schema@)),
        is_text_column(cols@[5], "parameter_fingerprint"@, false, Some(record.parameter_fingerprint@)),
        is_text_column(cols@[6], "effective_parameters_json"@, false, Some(record.effective_parameters_json@)),
{
    let mut cols: Vec<RecordColumn> = Vec::new();
    cols.push(text_column("run_id", false, Some(record.run_id.clone())));
    cols.push(unsigned_column("shard_id", false, Some(record.shard_id as u64)));
    cols.push(unsigned_column("point_index", false, Some(record.point_index as u64)));
    cols.push(text_column("status", false, Some(record.status.clone())));
    cols.push(text_column("record_schema", false, Some(record.record_schema.clone())));
    cols.push(text_column("parameter_fingerprint", false, Some(record.parameter_fingerprint.clone())));
    cols.push(text_column("effective_parameters_json", false, Some(record.effective_parameters_json.clone())));
    cols
}

} // verus!
