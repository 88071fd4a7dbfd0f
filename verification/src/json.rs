//! Reading the objects of one array of a JSON document through `serde_json`.
use vstd::prelude::*;
use crate::social::opt_view;
use crate::text::views;

verus! {

/// A field of a JSON object as it is read: its text when it is a JSON string,
/// its value when it is an integer that fits in `u64`.
pub open spec fn field_view(f: (Option<String>, Option<u64>)) -> (Option<Seq<char>>, Option<u64>) {
    (opt_view(f.0), f.1)
}

/// The fields read from one object.
pub open spec fn row_view(r: Vec<(Option<String>, Option<u64>)>) -> Seq<(Option<Seq<char>>, Option<u64>)> {
    r@.map_values(|f: (Option<String>, Option<u64>)| field_view(f))
}

/// The fields read from each object of an array.
pub open spec fn rows_view(rs: Seq<Vec<(Option<String>, Option<u64>)>>) -> Seq<
    Seq<(Option<Seq<char>>, Option<u64>)>,
> {
    rs.map_values(|r: Vec<(Option<String>, Option<u64>)>| row_view(r))
}

/// The view of what `array_fields` returns.
pub open spec fn fields_result_view(
    r: Result<Option<Vec<Vec<(Option<String>, Option<u64>)>>>, String>,
) -> Result<Option<Seq<Seq<(Option<Seq<char>>, Option<u64>)>>>, Seq<char>> {
    match r {
        Ok(Some(rows)) => Ok(Some(rows_view(rows@))),
        Ok(None) => Ok(None),
        Err(e) => Err(e@),
    }
}

/// What `serde_json` reads from the document `text`: the message of its parse
/// error when it is not JSON; else, when its top-level value has an array under
/// `array_key`, for each element of that array in order and each key of `keys`
/// in order, the element's field under that key read as a string and as a
/// `u64`; and `None` when there is no such array.
pub uninterp spec fn json_array_fields(
    text: Seq<char>,
    array_key: Seq<char>,
    keys: Seq<Seq<char>>,
) -> Result<Option<Seq<Seq<(Option<Seq<char>>, Option<u64>)>>>, Seq<char>>;

/// `serde_json::from_str` into a `Value`, then `Value::get` of `array_key`,
/// `Value::as_array`, and for each element `Value::get` of each key with
/// `Value::as_str` and `Value::as_u64`. Claimed: the result is
/// `json_array_fields` of the arguments, and each element gives one field per
/// key.
#[verifier::external_body]
pub(crate) fn array_fields(text: &str, array_key: &str, keys: &Vec<String>) -> (r: Result<
    Option<Vec<Vec<(Option<String>, Option<u64>)>>>,
    String,
>)
    ensures
        fields_result_view(r) == json_array_fields(text@, array_key@, views(keys@)),
        r matches Ok(Some(rows)) ==> forall|i: int|
            0 <= i < rows@.len() ==> (#[trigger] rows@[i])@.len() == keys@.len(),
{
    let json: serde_json::Value = match serde_json::from_str(text) {
        Ok(v) => v,
        Err(e) => return Err(e.to_string()),
    };
    let items = match json.get(array_key).and_then(|v| v.as_array()) {
        Some(a) => a,
        None => return Ok(None),
    };
    Ok(Some(items.iter().map(|it| keys.iter().map(|k| {
        let f = it.get(k.as_str());
        (f.and_then(|v| v.as_str()).map(String::from), f.and_then(|v| v.as_u64()))
    }).collect()).collect()))
}

} // verus!
