//! Concurrent maps of `dashmap`, and what they hold.

use dashmap::DashMap;
use vstd::prelude::*;

verus! {

/// `dashmap::DashMap`.
#[verifier::external_type_specification]
#[verifier::external_body]
#[verifier::reject_recursive_types(K)]
#[verifier::reject_recursive_types(V)]
#[verifier::reject_recursive_types(S)]
pub struct ExDashMap<K, V, S>(DashMap<K, V, S>);

/// What a map from texts to texts holds.
pub uninterp spec fn texts_in(m: DashMap<String, String>) -> Map<Seq<char>, Seq<char>>;

/// What a map from texts to numbers holds.
pub uninterp spec fn numbers_in(m: DashMap<String, u64>) -> Map<Seq<char>, u64>;

/// What a map from texts to texts with a number holds.
pub uninterp spec fn stamped_in(m: DashMap<String, (String, u64)>) -> Map<
    Seq<char>,
    (Seq<char>, u64),
>;

/// `DashMap::new`: a map that holds nothing.
#[verifier::external_body]
pub(crate) fn new_texts() -> (r: DashMap<String, String>)
    ensures
        texts_in(r).dom() == Set::<Seq<char>>::empty(),
{
    DashMap::new()
}

/// `DashMap::new`: a map that holds nothing.
#[verifier::external_body]
pub(crate) fn new_numbers() -> (r: DashMap<String, u64>)
    ensures
        numbers_in(r).dom() == Set::<Seq<char>>::empty(),
{
    DashMap::new()
}

/// `DashMap::new`: a map that holds nothing.
#[verifier::external_body]
pub(crate) fn new_stamped() -> (r: DashMap<String, (String, u64)>)
    ensures
        stamped_in(r).dom() == Set::<Seq<char>>::empty(),
{
    DashMap::new()
}

/// `DashMap::insert`: puts a value under a key, in place of what was there. The
/// map is borrowed exclusively, so that nobody holds a reference into it.
#[verifier::external_body]
pub(crate) fn insert_text(m: &mut DashMap<String, String>, key: String, value: String)
    ensures
        texts_in(*final(m)) == texts_in(*old(m)).insert(key@, value@),
{
    m.insert(key, value);
}

/// `DashMap::insert`: puts a value under a key, in place of what was there. The
/// map is borrowed exclusively, so that nobody holds a reference into it.
#[verifier::external_body]
pub(crate) fn insert_number(m: &mut DashMap<String, u64>, key: String, value: u64)
    ensures
        numbers_in(*final(m)) == numbers_in(*old(m)).insert(key@, value),
{
    m.insert(key, value);
}

/// `DashMap::insert`: puts a value under a key, in place of what was there. The
/// map is borrowed exclusively, so that nobody holds a reference into it.
#[verifier::external_body]
pub(crate) fn insert_stamped(
    m: &mut DashMap<String, (String, u64)>,
    key: String,
    text: String,
    stamp: u64,
)
    ensures
        stamped_in(*final(m)) == stamped_in(*old(m)).insert(key@, (text@, stamp)),
{
    m.insert(key, (text, stamp));
}

/// `DashMap::get`: the value under a key, copied out of the map.
#[verifier::external_body]
pub(crate) fn get_text(m: &DashMap<String, String>, key: &str) -> (r: Option<String>)
    ensures
        match r {
            Some(v) => texts_in(*m).contains_key(key@) && v@ == texts_in(*m)[key@],
            None => !texts_in(*m).contains_key(key@),
        },
{
    m.get(key).map(|entry| entry.value().clone())
}

/// `DashMap::get`: the value under a key.
#[verifier::external_body]
pub(crate) fn get_number(m: &DashMap<String, u64>, key: &str) -> (r: Option<u64>)
    ensures
        match r {
            Some(v) => numbers_in(*m).contains_key(key@) && v == numbers_in(*m)[key@],
            None => !numbers_in(*m).contains_key(key@),
        },
{
    m.get(key).map(|entry| *entry.value())
}

/// `DashMap::get`: the value under a key, copied out of the map.
#[verifier::external_body]
pub(crate) fn get_stamped(m: &DashMap<String, (String, u64)>, key: &str) -> (r: Option<
    (String, u64),
>)
    ensures
        match r {
            Some(v) => stamped_in(*m).contains_key(key@) && (v.0@, v.1) == stamped_in(*m)[key@],
            None => !stamped_in(*m).contains_key(key@),
        },
{
    m.get(key).map(|entry| entry.value().clone())
}

}
