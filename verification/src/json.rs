//! JSON encodings of string lists and string maps, as stored in edge
//! properties, written and read with `serde_json`.

use vstd::prelude::*;
use crate::props::{map_of, PropertyMap};

verus! {

/// The JSON text that `serde_json::to_string` writes for a list of strings.
pub uninterp spec fn json_of_strings(items: Seq<Seq<char>>) -> Seq<char>;

/// What `serde_json::from_str::<Vec<String>>` reads from a text: the list, or
/// `None` when the text is not a JSON array of strings.
pub uninterp spec fn strings_of_json(text: Seq<char>) -> Option<Seq<Seq<char>>>;

/// The JSON object text that `serde_json::to_string` writes for a string
/// map (keys in ascending order).
pub uninterp spec fn json_of_string_map(m: Map<Seq<char>, Seq<char>>) -> Seq<char>;

/// What `serde_json::from_str::<BTreeMap<String, String>>` reads from a
/// text: the map, or `None` when the text is not a JSON object of strings.
pub uninterp spec fn string_map_of_json(text: Seq<char>) -> Option<Map<Seq<char>, Seq<char>>>;

/// Encode a list of strings as a JSON array with `serde_json::to_string`.
///
/// Trusted: the text is `json_of_strings` of the list, and `serde_json`
/// reads that text back as the same list (it escapes every string it writes
/// and unescapes it on reading; serialising a `Vec<String>` cannot fail).
#[verifier::external_body]
pub(crate) fn encode_strings(items: &Vec<String>) -> (r: String)
    ensures
        r@ == json_of_strings(items.deep_view()),
        strings_of_json(r@) == Some(items.deep_view()),
{
    serde_json::to_string(items).unwrap_or_default()
}

/// Decode a JSON array of strings with `serde_json::from_str`.
///
/// Trusted: the result is `strings_of_json` of the text.
#[verifier::external_body]
pub(crate) fn decode_strings(text: &str) -> (r: Option<Vec<String>>)
    ensures
        r is Some == strings_of_json(text@) is Some,
        r matches Some(v) ==> strings_of_json(text@) == Some(v.deep_view()),
{
    serde_json::from_str::<Vec<String>>(text).ok()
}

/// Encode key/value pairs as a JSON object with `serde_json::to_string`,
/// collected into a `BTreeMap` first (a later pair for a key overrides an
/// earlier one, and keys come out in ascending order).
///
/// Trusted: the text is `json_of_string_map` of the map the pairs denote,
/// and `serde_json` reads that text back as the same map (serialising a
/// map of strings cannot fail).
#[verifier::external_body]
fn encode_string_pairs(pairs: &Vec<(String, String)>) -> (r: String)
    ensures
        r@ == json_of_string_map(map_of(pairs@)),
        string_map_of_json(r@) == Some(map_of(pairs@)),
{
    let sorted: std::collections::BTreeMap<String, String> = pairs.iter().cloned().collect();
    serde_json::to_string(&sorted).unwrap_or_default()
}

/// Entries whose values agree with a map denote a part of that map: a key
/// occurs in what they denote exactly when some entry has it, with the
/// map's value.
proof fn lemma_map_of_agrees(s: Seq<(String, String)>, m: Map<Seq<char>, Seq<char>>)
    requires
        forall|i: int| 0 <= i < s.len() ==> m.contains_key((#[trigger] s[i]).0@) && m[s[i].0@] == s[i].1@,
    ensures
        forall|k: Seq<char>| #[trigger] map_of(s).contains_key(k) ==> m.contains_key(k) && map_of(s)[k] == m[k],
        forall|k: Seq<char>| #[trigger] map_of(s).contains_key(k) <==> exists|i: int| 0 <= i < s.len() && s[i].0@ == k,
    decreases s.len(),
{
    if s.len() > 0 {
        let p = s.drop_last();
        assert forall|i: int| 0 <= i < p.len() implies m.contains_key((#[trigger] p[i]).0@) && m[p[i].0@] == p[i].1@ by {
            assert(p[i] == s[i]);
        }
        lemma_map_of_agrees(p, m);
        assert(map_of(s) == map_of(p).insert(s.last().0@, s.last().1@));
        assert(s[s.len() - 1] == s.last());
        assert forall|k: Seq<char>| #[trigger] map_of(s).contains_key(k) implies m.contains_key(k) && map_of(s)[k] == m[k] by {
            if k != s.last().0@ {
                assert(map_of(p).contains_key(k));
            }
        }
        assert forall|k: Seq<char>| #[trigger] map_of(s).contains_key(k) <==> exists|i: int| 0 <= i < s.len() && s[i].0@ == k by {
            assert(map_of(s) == map_of(p).insert(s.last().0@, s.last().1@));
            if map_of(s).contains_key(k) {
                if k == s.last().0@ {
                    assert(s[s.len() - 1].0@ == k);
                } else {
                    assert(map_of(p).contains_key(k));
                    let j = choose|j: int| 0 <= j < p.len() && p[j].0@ == k;
                    assert(s[j] == p[j]);
                    assert(s[j].0@ == k);
                }
            }
            if exists|i: int| 0 <= i < s.len() && s[i].0@ == k {
                let j = choose|j: int| 0 <= j < s.len() && s[j].0@ == k;
                if j < p.len() {
                    assert(p[j] == s[j]);
                    assert(map_of(p).contains_key(k));
                }
            }
        }
    }
}

/// Encode a property map as a JSON object, keys in ascending order.
pub(crate) fn encode_string_map(m: &PropertyMap) -> (r: String)
    ensures
        r@ == json_of_string_map(m@),
        string_map_of_json(r@) == Some(m@),
{
    let pairs = m.to_pairs();
    proof {
        assert forall|i: int| 0 <= i < pairs@.len() implies m@.contains_key((#[trigger] pairs@[i]).0@)
            && m@[pairs@[i].0@] == pairs@[i].1@ by {
            assert(m@.contains_key(pairs@[i].0@));
        }
        lemma_map_of_agrees(pairs@, m@);
        assert forall|k: Seq<char>| #[trigger] m@.contains_key(k) implies map_of(pairs@).contains_key(k) by {
            let i = choose|i: int| 0 <= i < pairs@.len() && pairs@[i].0@ == k;
        }
        assert(map_of(pairs@) =~= m@);
    }
    encode_string_pairs(&pairs)
}

/// Decode a JSON object of strings with `serde_json::from_str`, as key/value
/// pairs.
///
/// Trusted: the pairs denote `string_map_of_json` of the text.
#[verifier::external_body]
fn decode_string_pairs(text: &str) -> (r: Option<Vec<(String, String)>>)
    ensures
        r is Some == string_map_of_json(text@) is Some,
        r matches Some(p) ==> string_map_of_json(text@) == Some(map_of(p@)),
{
    serde_json::from_str::<std::collections::BTreeMap<String, String>>(text)
        .ok()
        .map(|m| m.into_iter().collect())
}

/// Decode a JSON object of strings into a property map.
pub fn decode_string_map(text: &str) -> (r: Option<PropertyMap>)
    ensures
        r is Some == string_map_of_json(text@) is Some,
        r matches Some(m) ==> string_map_of_json(text@) == Some(m@),
{
    match decode_string_pairs(text) {
        Some(pairs) => Some(PropertyMap::from_pairs(pairs)),
        None => None,
    }
}

} // verus!
