use con_mon::throughput::{
    append_record, extend, extend_stored, load_collection, tick, ThroughputError, Tick,
    SAMPLING_INTERVAL_SECS,
};
use serde_json::Value;

#[test]
fn interval_is_half_an_hour() {
    assert_eq!(SAMPLING_INTERVAL_SECS, 30 * 60);
}

#[test]
fn first_record_starts_the_collection() {
    assert_eq!(
        append_record("", "{\"download\": 93.5, \"upload\": 10}"),
        Ok("[{\"download\":93.5,\"upload\":10}]".to_string())
    );
}

#[test]
fn record_goes_to_the_end() {
    assert_eq!(append_record("[1,2]", "3"), Ok("[1,2,3]".to_string()));
    assert_eq!(append_record("[]", "{\"a\":null}"), Ok("[{\"a\":null}]".to_string()));
}

#[test]
fn stored_elements_are_kept_as_they_are() {
    let stored = "[{\"a\":1,\"b\":[true,\"x\"]},\"two\",3.25]";
    let text = append_record(stored, "{\"ping\":12}").unwrap();
    assert_eq!(text, "[{\"a\":1,\"b\":[true,\"x\"]},\"two\",3.25,{\"ping\":12}]");
    let before = load_collection(stored).unwrap();
    let after = load_collection(&text).unwrap();
    assert_eq!(after.len(), before.len() + 1);
    assert_eq!(&after[..before.len()], &before[..]);
}

#[test]
fn valid_inputs_always_give_a_text() {
    assert_eq!(append_record("[{\"a\":1}]", "{\"b\":2}"), Ok("[{\"a\":1},{\"b\":2}]".to_string()));
    assert_eq!(append_record("", "{\"download\":1}"), Ok("[{\"download\":1}]".to_string()));
    assert_eq!(append_record("[ 1 , 2 ]", " {\"k\" : [ ] } "), Ok("[1,2,{\"k\":[]}]".to_string()));
}

#[test]
fn retried_tick_gives_the_same_text() {
    let first = tick(true, "{\"r\":1}", "[0]");
    let second = tick(true, "{\"r\":1}", "[0]");
    assert_eq!(first, second);
    assert_eq!(first, Ok(Tick::Rewrite("[0,{\"r\":1}]".to_string())));
}

#[test]
fn deeply_nested_text_is_rejected() {
    let deep = format!("{}{}", "[".repeat(200), "]".repeat(200));
    assert_eq!(append_record("[]", &deep), Err(ThroughputError::InvalidRecord));
    assert_eq!(append_record(&deep, "1"), Err(ThroughputError::CorruptCollection));
}

#[test]
fn collection_that_is_no_array_is_rejected() {
    assert_eq!(append_record("\"not an array\"", "{}"), Err(ThroughputError::CorruptCollection));
    assert_eq!(append_record("{\"a\":1}", "{}"), Err(ThroughputError::CorruptCollection));
    assert_eq!(append_record("17", "{}"), Err(ThroughputError::CorruptCollection));
}

#[test]
fn collection_that_is_no_json_is_rejected() {
    assert_eq!(append_record("[1,2", "{}"), Err(ThroughputError::CorruptCollection));
    assert_eq!(append_record(" ", "{}"), Err(ThroughputError::CorruptCollection));
}

#[test]
fn output_that_is_no_json_is_rejected() {
    assert_eq!(append_record("[1]", "speed: fast"), Err(ThroughputError::InvalidRecord));
    assert_eq!(append_record("[1]", ""), Err(ThroughputError::InvalidRecord));
    assert_eq!(append_record("\"not an array\"", "oops"), Err(ThroughputError::InvalidRecord));
}

#[test]
fn failed_measurement_is_skipped() {
    assert_eq!(tick(false, "{\"a\":1}", "[1]"), Ok(Tick::Skipped));
    assert_eq!(tick(false, "no json", "\"not an array\""), Ok(Tick::Skipped));
}

#[test]
fn successful_measurement_rewrites_the_file() {
    assert_eq!(tick(true, "{\"a\":1}", "[0]"), Ok(Tick::Rewrite("[0,{\"a\":1}]".to_string())));
    assert_eq!(tick(true, "{}", "\"not an array\""), Err(ThroughputError::CorruptCollection));
    assert_eq!(tick(true, "{", "[]"), Err(ThroughputError::InvalidRecord));
}

#[test]
fn extend_puts_the_record_last() {
    let elements = vec![Value::from(1), Value::from("two")];
    let extended = extend(elements.clone(), Value::Bool(true));
    assert_eq!(extended.len(), 3);
    assert_eq!(&extended[..2], &elements[..]);
    assert_eq!(extended[2], Value::Bool(true));
}

#[test]
fn load_collection_reads_arrays_only() {
    assert_eq!(load_collection(""), Ok(Vec::new()));
    assert_eq!(load_collection("[]"), Ok(Vec::new()));
    assert_eq!(load_collection("[1,\"a\"]"), Ok(vec![Value::from(1), Value::from("a")]));
    assert_eq!(load_collection("null"), Err(ThroughputError::CorruptCollection));
    assert_eq!(load_collection("nonsense"), Err(ThroughputError::CorruptCollection));
}

#[test]
fn extend_stored_gives_the_new_elements() {
    assert_eq!(extend_stored("[1]", "2"), Ok(vec![Value::from(1), Value::from(2)]));
    assert_eq!(extend_stored("", "2"), Ok(vec![Value::from(2)]));
    assert_eq!(extend_stored("1", "2"), Err(ThroughputError::CorruptCollection));
    assert_eq!(extend_stored("[1]", "+"), Err(ThroughputError::InvalidRecord));
}
