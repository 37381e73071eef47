//! JSON texts that hold a map from strings to strings.
use crate::error::Error;
use crate::string_map::{keys_distinct, pairs_map, StringMap};
use vstd::prelude::*;

verus! {

/// The map that `serde_json::from_str` reads from a text, or the words in which it refuses the
/// text.
pub uninterp spec fn json_string_map(text: Seq<char>) -> Result<
    Map<Seq<char>, Seq<char>>,
    Seq<char>,
>;

/// The text that `serde_json::to_string` writes for a map.
pub uninterp spec fn string_map_json(map: Map<Seq<char>, Seq<char>>) -> Seq<char>;

/// Calls `serde_json::from_str` for a `HashMap<String, String>` and hands out its entries, or puts a
/// failure into words by its `Display`. Whether the text is accepted, which entries it holds and in
/// which words it is refused depends on the text alone. Each key comes once; the order in which the
/// entries come is left open.
#[verifier::external_body]
fn read_string_map(text: &str) -> (r: Result<Vec<(String, String)>, String>)
    ensures
        match r {
            Ok(pairs) => keys_distinct(pairs.deep_view()) && json_string_map(text@) == Ok::<
                Map<Seq<char>, Seq<char>>,
                Seq<char>,
            >(pairs_map(pairs.deep_view())),
            Err(words) => json_string_map(text@) == Err::<Map<Seq<char>, Seq<char>>, Seq<char>>(
                words@,
            ),
        },
{
    let read = serde_json::from_str::<std::collections::HashMap<String, String>>(text);
    read.map(|map| map.into_iter().collect()).map_err(|e| e.to_string())
}

/// Calls `serde_json::to_string` on the pairs as a `BTreeMap<String, String>`, which it can always
/// write. The text depends on the map alone, not on the order of the pairs.
#[verifier::external_body]
fn write_string_map(pairs: &Vec<(String, String)>) -> (r: String)
    requires
        keys_distinct(pairs.deep_view()),
    ensures
        r@ == string_map_json(pairs_map(pairs.deep_view())),
{
    let map: std::collections::BTreeMap<String, String> = pairs.iter().cloned().collect();
    serde_json::to_string(&map).unwrap()
}

/// Takes up the outcome of reading a map: its entries, or the failure.
pub fn string_map_from(read: Result<Vec<(String, String)>, String>) -> (r: Result<
    StringMap,
    Error,
>)
    ensures
        match read {
            Ok(pairs) => r matches Ok(map) && map@ == pairs_map(pairs.deep_view()),
            Err(source) => r == Err::<StringMap, Error>(Error::SerdeJson { source }),
        },
{
    match read {
        Ok(pairs) => Ok(StringMap::from_pairs(pairs)),
        Err(source) => Err(Error::SerdeJson { source }),
    }
}

/// Reads a JSON object whose values are strings.
pub fn parse_string_map(text: &str) -> (r: Result<StringMap, Error>)
    ensures
        match json_string_map(text@) {
            Ok(map) => r matches Ok(m) && m@ == map,
            Err(words) => r matches Err(Error::SerdeJson { source }) && source@ == words,
        },
{
    string_map_from(read_string_map(text))
}

/// Writes a map as a JSON object.
pub fn string_map_text(map: &StringMap) -> (r: String)
    ensures
        r@ == string_map_json(map@),
{
    write_string_map(map.pairs())
}

} // verus!
