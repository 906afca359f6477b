//! The JSON wire format, through `serde_json`.
//!
//! What a JSON value holds is described by [`Json`]; how a value reads as text, and
//! which value an observation, an event list or a float turns into, is `serde_json`'s
//! own business and is named.
use crate::binary64::Binary64View;
use crate::engine::info_nav;
use serde_json::Value;
use sharpebench_protocol::{Decision, MarketObservation};
use sharpebench_sim::StepInfo;
use vstd::prelude::*;

verus! {

/// A JSON value of `serde_json`.
#[verifier::external_type_specification]
#[verifier::external_body]
pub struct ExValue(Value);

/// An error of `serde_json`.
#[verifier::external_type_specification]
#[verifier::external_body]
pub struct ExJsonError(serde_json::Error);

/// What a JSON value holds: a flag, a count, an array, an object, or any other scalar
/// by its text.
pub enum Json {
    Bool(bool),
    Count(nat),
    Scalar(Seq<char>),
    Array(Seq<Json>),
    Object(Map<Seq<char>, Json>),
}

/// The contents of a JSON value.
pub uninterp spec fn json_of(value: Value) -> Json;

/// The compact text of a JSON value, object keys in ascending order.
pub uninterp spec fn json_text(json: Json) -> Seq<char>;

/// The JSON value of a float: a number, or null for one that is not finite.
pub uninterp spec fn number_json(number: Binary64View) -> Json;

/// The JSON value of the events that a step's side channel carries.
pub uninterp spec fn events_json(info: StepInfo) -> Json;

/// The JSON value of an observation, or why there is none.
pub uninterp spec fn observation_json(observation: MarketObservation) -> Result<
    Json,
    serde_json::Error,
>;

/// The JSON text of an observation, fields in declaration order, or why there is none.
pub uninterp spec fn observation_text(observation: MarketObservation) -> Result<
    Seq<char>,
    serde_json::Error,
>;

/// The decision that a JSON text spells, or why it spells none.
pub uninterp spec fn decision_of_json(text: Seq<char>) -> Result<Decision, serde_json::Error>;

/// The decisions that a JSON array spells, or why it spells none.
pub uninterp spec fn decisions_of_json(text: Seq<char>) -> Result<
    Seq<Decision>,
    serde_json::Error,
>;

/// The text of a `serde_json` error.
pub uninterp spec fn json_error_text(error: serde_json::Error) -> Seq<char>;

/// The contents of a list of JSON values.
pub open spec fn jsons_of(values: Seq<Value>) -> Seq<Json> {
    values.map_values(|value: Value| json_of(value))
}

/// The members of an object that is filled entry by entry; a later entry replaces an
/// earlier one of the same key.
pub open spec fn members(entries: Seq<(String, Value)>) -> Map<Seq<char>, Json>
    decreases entries.len(),
{
    if entries.len() == 0 {
        Map::empty()
    } else {
        members(entries.drop_last()).insert(entries.last().0@, json_of(entries.last().1))
    }
}

/// `serde_json::from_str` into a decision.
#[verifier::external_body]
pub(crate) fn parse_decision(text: &str) -> (res: Result<Decision, serde_json::Error>)
    ensures
        res == decision_of_json(text@),
{
    serde_json::from_str(text)
}

/// `serde_json::from_str` into a list of decisions.
#[verifier::external_body]
pub(crate) fn parse_decisions(text: &str) -> (res: Result<Vec<Decision>, serde_json::Error>)
    ensures
        match res {
            Ok(decisions) => decisions_of_json(text@) == Ok::<Seq<Decision>, serde_json::Error>(
                decisions@,
            ),
            Err(error) => decisions_of_json(text@) == Err::<Seq<Decision>, serde_json::Error>(
                error,
            ),
        },
{
    serde_json::from_str(text)
}

/// The text of a `serde_json` error, as its `Display` writes it.
#[verifier::external_body]
pub(crate) fn error_text(error: &serde_json::Error) -> (text: String)
    ensures
        text@ == json_error_text(*error),
{
    error.to_string()
}

/// `serde_json::to_string` of an observation. It fails only for a `Serialize` of one's own
/// that fails or for map keys that are not strings; an observation has neither.
#[verifier::external_body]
pub(crate) fn observation_to_text(observation: &MarketObservation) -> (res: Result<
    String,
    serde_json::Error,
>)
    ensures
        res is Ok,
        match res {
            Ok(text) => observation_text(*observation) == Ok::<Seq<char>, serde_json::Error>(text@),
            Err(error) => observation_text(*observation) == Err::<Seq<char>, serde_json::Error>(
                error,
            ),
        },
{
    serde_json::to_string(observation)
}

/// `serde_json::to_value` of an observation, which fails no more than the text does.
#[verifier::external_body]
pub(crate) fn observation_to_value(observation: &MarketObservation) -> (res: Result<
    Value,
    serde_json::Error,
>)
    ensures
        res is Ok,
        match res {
            Ok(value) => observation_json(*observation) == Ok::<Json, serde_json::Error>(
                json_of(value),
            ),
            Err(error) => observation_json(*observation) == Err::<Json, serde_json::Error>(error),
        },
{
    serde_json::to_value(observation)
}

/// `serde_json::to_value` of a step's events. Events hold strings and flags only, so
/// there is always a value.
#[verifier::external_body]
pub(crate) fn events_to_value(info: &StepInfo) -> (value: Value)
    ensures
        json_of(value) == events_json(*info),
{
    serde_json::to_value(&info.events).unwrap()
}

/// `Value::from` of a step's net asset value.
#[verifier::external_body]
pub(crate) fn nav_to_value(info: &StepInfo) -> (value: Value)
    ensures
        json_of(value) == number_json(info_nav(*info)),
{
    Value::from(info.nav)
}

/// `Value::from` of a count.
#[verifier::external_body]
pub(crate) fn count_to_value(n: usize) -> (value: Value)
    ensures
        json_of(value) == Json::Count(n as nat),
{
    Value::from(n)
}

/// `Value::from` of a list of flags: an array of booleans.
#[verifier::external_body]
pub(crate) fn flags_to_value(flags: &Vec<bool>) -> (value: Value)
    ensures
        json_of(value) == Json::Array(flags@.map_values(|flag: bool| Json::Bool(flag))),
{
    Value::from(flags.as_slice())
}

/// `Value::from` of a list of values: an array.
#[verifier::external_body]
pub(crate) fn array_to_value(values: Vec<Value>) -> (value: Value)
    ensures
        json_of(value) == Json::Array(jsons_of(values@)),
{
    Value::from(values)
}

/// `Value::from_iter` of key-value pairs: an object, in which the last value of a key
/// stands.
#[verifier::external_body]
pub(crate) fn object_to_value(entries: Vec<(String, Value)>) -> (value: Value)
    ensures
        json_of(value) == Json::Object(members(entries@)),
{
    Value::from_iter(entries)
}

/// `Value::to_string`: the compact text. Objects are kept sorted by key, so the text is
/// a function of what the value holds.
#[verifier::external_body]
pub(crate) fn value_to_text(value: &Value) -> (text: String)
    ensures
        text@ == json_text(json_of(*value)),
{
    value.to_string()
}

/// Values are read one by one, and an entry that is put last stands under its key and leaves
/// the other keys alone.
pub proof fn law_entries_fill_an_object(
    values: Seq<Value>,
    i: int,
    entries: Seq<(String, Value)>,
    key: String,
    value: Value,
    other: Seq<char>,
)
    ensures
        jsons_of(values).len() == values.len(),
        0 <= i < values.len() ==> jsons_of(values)[i] == json_of(values[i]),
        members(Seq::empty()) == Map::<Seq<char>, Json>::empty(),
        members(entries.push((key, value))).dom() == members(entries).dom().insert(key@),
        members(entries.push((key, value)))[key@] == json_of(value),
        other != key@ && members(entries).dom().contains(other) ==> members(
            entries.push((key, value)),
        )[other] == members(entries)[other],
{
    assert(entries.push((key, value)).drop_last() =~= entries);
}

} // verus!
