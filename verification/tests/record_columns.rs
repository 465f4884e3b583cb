use ridesim::contract::{OutcomeError, ShardOutcomeRecord, ShardOutputMetadata};
use ridesim::record_columns::{outcome_columns, ColumnValues, RecordColumn};

fn texts(c: &RecordColumn) -> Vec<Option<String>> {
    match &c.values {
        ColumnValues::Text(v) => v.clone(),
        ColumnValues::Unsigned(_) => panic!("{} is not a text column", c.name),
    }
}

fn numbers(c: &RecordColumn) -> Vec<Option<u64>> {
    match &c.values {
        ColumnValues::Unsigned(v) => v.clone(),
        ColumnValues::Text(_) => panic!("{} is not a number column", c.name),
    }
}

fn record(success: bool) -> ShardOutcomeRecord {
    ShardOutcomeRecord {
        run_id: "run".to_string(),
        shard_id: 3,
        status: if success { "success" } else { "failure" }.to_string(),
        start_index: 6,
        end_index_exclusive: 9,
        event_time: "2026-02-14T00:00:00Z".to_string(),
        record_schema: "v1".to_string(),
        output_metadata: if success {
            Some(ShardOutputMetadata {
                result_key: "k".to_string(),
                points_processed: 3,
                format: "parquet".to_string(),
            })
        } else {
            None
        },
        error: if success {
            None
        } else {
            Some(OutcomeError {
                error_code: "runtime_error".to_string(),
                error_message: "boom".to_string(),
            })
        },
    }
}

#[test]
fn outcome_table_has_the_record_columns_in_order() {
    let cols = outcome_columns(&record(true));
    let names: Vec<&str> = cols.iter().map(|c| c.name.as_str()).collect();
    assert_eq!(
        names,
        vec![
            "run_id", "shard_id", "status", "start_index", "end_index_exclusive", "event_time",
            "record_schema", "result_key", "points_processed", "format", "error_code",
            "error_message"
        ]
    );
    assert!(cols[..7].iter().all(|c| !c.nullable));
    assert!(cols[7..].iter().all(|c| c.nullable));
    assert_eq!(numbers(&cols[1]), vec![Some(3)]);
    assert_eq!(numbers(&cols[8]), vec![Some(3)]);
    assert_eq!(texts(&cols[7]), vec![Some("k".to_string())]);
    assert_eq!(texts(&cols[10]), vec![None]);
}

#[test]
fn failure_outcome_table_has_null_results_and_its_error() {
    let cols = outcome_columns(&record(false));
    assert_eq!(texts(&cols[7]), vec![None]);
    assert_eq!(numbers(&cols[8]), vec![None]);
    assert_eq!(texts(&cols[10]), vec![Some("runtime_error".to_string())]);
    assert_eq!(texts(&cols[11]), vec![Some("boom".to_string())]);
}
