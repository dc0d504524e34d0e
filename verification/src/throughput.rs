//! The throughput collection: one JSON array, read whole, extended by one
//! record, and written whole.

use vstd::prelude::*;

verus! {

/// How long the sampler waits between two measurements.
pub const SAMPLING_INTERVAL_SECS: u64 = 1800;

/// A JSON value of `serde_json`, carried through as it is.
#[verifier::external_type_specification]
#[verifier::external_body]
pub struct ExValue(serde_json::Value);

/// The error of `serde_json`; nothing is read from it.
#[verifier::external_type_specification]
#[verifier::external_body]
pub struct ExJsonError(serde_json::Error);

/// The value that `serde_json`'s parser gives for a text; `None` where it
/// gives none: the text is not one JSON value, or nests deeper than the
/// parser goes.
pub uninterp spec fn json_value(text: Seq<char>) -> Option<serde_json::Value>;

/// The elements of a JSON array, in order; `None` for a value of another
/// kind.
pub uninterp spec fn array_elements(value: serde_json::Value) -> Option<Seq<serde_json::Value>>;

/// The compact JSON text of the array that holds these elements.
pub uninterp spec fn array_text(elements: Seq<serde_json::Value>) -> Seq<char>;

/// Why a tick wrote nothing.
#[derive(Debug, Clone, Copy, PartialEq, Eq)]
pub enum ThroughputError {
    /// The measurement's output is not a JSON value.
    InvalidRecord,
    /// The stored collection is not a JSON array.
    CorruptCollection,
}

/// What a tick does.
#[derive(Debug, Clone, PartialEq, Eq)]
pub enum Tick {
    /// The measurement failed: nothing is appended, the next tick proceeds.
    Skipped,
    /// The collection file is to be rewritten with this text.
    Rewrite(String),
}

/// `serde_json::from_str` at `serde_json::Value`. The contract names the
/// value that the parser gives for a text, and claims that the call fails
/// exactly where the parser gives none.
#[verifier::external_body]
fn read_json(text: &str) -> (r: Result<serde_json::Value, serde_json::Error>)
    ensures
        match r {
            Ok(value) => json_value(text@) == Some(value),
            Err(_) => json_value(text@) is None,
        },
{
    serde_json::from_str::<serde_json::Value>(text)
}

/// Takes the elements out of `serde_json::Value::Array`. The contract names
/// them, and claims that every other variant has none.
#[verifier::external_body]
fn into_elements(value: serde_json::Value) -> (r: Option<Vec<serde_json::Value>>)
    ensures
        match r {
            Some(elements) => array_elements(value) == Some(elements@),
            None => array_elements(value) is None,
        },
{
    match value {
        serde_json::Value::Array(elements) => Some(elements),
        _ => None,
    }
}

/// `serde_json::to_string` on a vector of values. The contract names the
/// text that the serializer gives for the elements, and claims that the call
/// succeeds: it writes into memory, and a value holds nothing that the
/// serializer refuses (the keys of its objects are strings).
#[verifier::external_body]
fn write_json(elements: &Vec<serde_json::Value>) -> (r: Result<String, serde_json::Error>)
    ensures
        r is Ok,
        r matches Ok(text) ==> text@ == array_text(elements@),
{
    serde_json::to_string(elements)
}

/// The elements that a stored text holds: none for an empty text, those of
/// the array for an array, and `None` for anything else.
pub open spec fn stored_elements(stored: Seq<char>) -> Option<Seq<serde_json::Value>> {
    if stored.len() == 0 {
        Some(Seq::empty())
    } else {
        match json_value(stored) {
            Some(value) => array_elements(value),
            None => None,
        }
    }
}

/// The collection after a tick with this output: the stored elements, then
/// the new record.
pub open spec fn next_elements(stored: Seq<char>, output: Seq<char>) -> Result<
    Seq<serde_json::Value>,
    ThroughputError,
> {
    match json_value(output) {
        None => Err(ThroughputError::InvalidRecord),
        Some(record) => match stored_elements(stored) {
            None => Err(ThroughputError::CorruptCollection),
            Some(elements) => Ok(elements.push(record)),
        },
    }
}

/// Puts a record at the end of a collection: what was there stays, in
/// order.
pub fn extend(elements: Vec<serde_json::Value>, record: serde_json::Value) -> (r: Vec<
    serde_json::Value,
>)
    ensures
        r@ == elements@.push(record),
{
    let mut r = elements;
    r.push(record);
    r
}

/// Reads a stored collection. An empty text is an empty collection; a text
/// that is not a JSON array is rejected.
pub fn load_collection(stored: &str) -> (r: Result<Vec<serde_json::Value>, ThroughputError>)
    ensures
        match r {
            Ok(elements) => stored_elements(stored@) == Some(elements@),
            Err(e) => e == ThroughputError::CorruptCollection && stored_elements(stored@) is None,
        },
{
    if stored.unicode_len() == 0 {
        return Ok(Vec::new());
    }
    match read_json(stored) {
        Err(_) => Err(ThroughputError::CorruptCollection),
        Ok(value) => match into_elements(value) {
            None => Err(ThroughputError::CorruptCollection),
            Some(elements) => Ok(elements),
        },
    }
}

/// The collection that a tick is to store: the stored elements and, after
/// them, the record that `output` denotes.
pub fn extend_stored(stored: &str, output: &str) -> (r: Result<
    Vec<serde_json::Value>,
    ThroughputError,
>)
    ensures
        match r {
            Ok(elements) => next_elements(stored@, output@) == Ok::<
                Seq<serde_json::Value>,
                ThroughputError,
            >(elements@),
            Err(e) => next_elements(stored@, output@) == Err::<
                Seq<serde_json::Value>,
                ThroughputError,
            >(e),
        },
{
    let record = match read_json(output) {
        Err(_) => {
            return Err(ThroughputError::InvalidRecord);
        },
        Ok(record) => record,
    };
    match load_collection(stored) {
        Err(e) => Err(e),
        Ok(elements) => Ok(extend(elements, record)),
    }
}

/// The new text of the collection file after one successful measurement.
///
/// Succeeds exactly where `output` is a JSON value and `stored` is empty or
/// a JSON array; the text is then that of the stored elements followed by
/// the record. Fails as `InvalidRecord` exactly where `output` is not a JSON
/// value, and otherwise as `CorruptCollection` exactly where `stored` is
/// neither empty nor a JSON array. On failure there is no text: the file is
/// left as it is.
///
/// The elements are kept as values: each is written as the serializer
/// writes it, which need not be the characters in which it was stored.
pub fn append_record(stored: &str, output: &str) -> (r: Result<String, ThroughputError>)
    ensures
        next_elements(stored@, output@) is Ok ==> r is Ok,
        match r {
            Ok(text) => next_elements(stored@, output@) matches Ok(elements) && text@
                == array_text(elements),
            Err(e) => next_elements(stored@, output@) == Err::<
                Seq<serde_json::Value>,
                ThroughputError,
            >(e),
        },
{
    match extend_stored(stored, output) {
        Err(e) => Err(e),
        Ok(elements) => match write_json(&elements) {
            Ok(text) => Ok(text),
            Err(_) => unreached(),
        },
    }
}

/// One tick of the sampler. A measurement that did not succeed is skipped,
/// whatever it printed; otherwise the collection is extended by its output,
/// and the tick fails exactly where [`append_record`] does.
pub fn tick(succeeded: bool, output: &str, stored: &str) -> (r: Result<Tick, ThroughputError>)
    ensures
        !succeeded ==> r == Ok::<Tick, ThroughputError>(Tick::Skipped),
        succeeded && next_elements(stored@, output@) is Ok ==> r is Ok,
        succeeded ==> match r {
            Ok(Tick::Skipped) => false,
            Ok(Tick::Rewrite(text)) => next_elements(stored@, output@) matches Ok(elements)
                && text@ == array_text(elements),
            Err(e) => next_elements(stored@, output@) == Err::<
                Seq<serde_json::Value>,
                ThroughputError,
            >(e),
        },
{
    if !succeeded {
        return Ok(Tick::Skipped);
    }
    match append_record(stored, output) {
        Ok(text) => Ok(Tick::Rewrite(text)),
        Err(e) => Err(e),
    }
}

/// A tick on a stored array of `k` elements gives a collection of `k + 1`:
/// the first `k` are the stored ones, unchanged and in order, and the last
/// is the new record.
pub proof fn law_tick_extends_collection(stored: Seq<char>, output: Seq<char>)
    requires
        stored_elements(stored) is Some,
        json_value(output) is Some,
    ensures
        next_elements(stored, output) is Ok,
        ({
            let before = stored_elements(stored)->Some_0;
            let after = next_elements(stored, output)->Ok_0;
            &&& after.len() == before.len() + 1
            &&& after.take(before.len() as int) == before
            &&& after.last() == json_value(output)->Some_0
        }),
{
    let before = stored_elements(stored)->Some_0;
    let after = next_elements(stored, output)->Ok_0;
    assert(after.take(before.len() as int) =~= before);
}

/// A stored text that is not empty and not a JSON array fails every tick as
/// `CorruptCollection`, whatever valid record comes.
pub proof fn law_corrupt_collection_is_rejected(stored: Seq<char>, output: Seq<char>)
    requires
        stored.len() > 0,
        json_value(stored) is None || array_elements(json_value(stored)->Some_0) is None,
        json_value(output) is Some,
    ensures
        next_elements(stored, output) == Err::<Seq<serde_json::Value>, ThroughputError>(
            ThroughputError::CorruptCollection,
        ),
{
}

} // verus!
