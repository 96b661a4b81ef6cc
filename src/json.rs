use vstd::prelude::*;

verus! {

/// The plain form of a store's contents: topic identifiers with their items'
/// stored strings.
pub open spec fn entries_view(e: Seq<(String, Vec<String>)>) -> Seq<(Seq<char>, Seq<Seq<char>>)> {
    e.map_values(|p: (String, Vec<String>)| (p.0@, p.1@.map_values(|s: String| s@)))
}

/// The topic identifiers of a list of stored entries.
pub open spec fn keys_of(ev: Seq<(Seq<char>, Seq<Seq<char>>)>) -> Seq<Seq<char>> {
    ev.map_values(|p: (Seq<char>, Seq<Seq<char>>)| p.0)
}

/// The mapping that a list of (key, values) pairs with distinct keys stands for.
pub open spec fn entries_map(e: Seq<(Seq<char>, Seq<Seq<char>>)>) -> Map<Seq<char>, Seq<Seq<char>>> {
    Map::new(
        |k: Seq<char>| exists|i: int| 0 <= i < e.len() && e[i].0 == k,
        |k: Seq<char>| e[choose|i: int| 0 <= i < e.len() && e[i].0 == k].1,
    )
}

/// The JSON text that serde_json writes for an object with these members.
pub uninterp spec fn json_object_text(m: Map<Seq<char>, Seq<Seq<char>>>) -> Seq<char>;

/// What serde_json reads from a text as an object of string arrays, its
/// members listed in key order; `None` where the text is no such object.
pub uninterp spec fn json_object_members(s: Seq<char>) -> Option<Seq<(Seq<char>, Seq<Seq<char>>)>>;

/// Relies on `serde_json::to_string`: the text of a JSON object whose
/// members are the given pairs, which have distinct keys; its result depends
/// on the members alone. Serialization fails only for a `Serialize` impl
/// that chooses to fail or for a map with non-string keys, neither of which
/// a map from strings to string arrays has, so it succeeds.
#[verifier::external_body]
pub(crate) fn write_object(entries: &Vec<(String, Vec<String>)>) -> (r: Option<String>)
    requires
        keys_of(entries_view(entries@)).no_duplicates(),
    ensures
        r is Some,
        r matches Some(t) ==> t@ == json_object_text(entries_map(entries_view(entries@))),
{
    let m: std::collections::BTreeMap<&String, &Vec<String>> =
        entries.iter().map(|p| (&p.0, &p.1)).collect();
    serde_json::to_string(&m).ok()
}

/// Relies on `serde_json::from_str`: reads a JSON object whose values are
/// arrays of strings; the members come back in key order, so the result
/// depends on the text alone.
#[verifier::external_body]
pub(crate) fn read_object(text: &str) -> (r: Option<Vec<(String, Vec<String>)>>)
    ensures
        r matches Some(e) ==> json_object_members(text@) == Some(entries_view(e@)),
        r is None ==> json_object_members(text@) is None,
{
    serde_json::from_str::<std::collections::BTreeMap<String, Vec<String>>>(text)
        .ok()
        .map(|m| m.into_iter().collect())
}

} // verus!
