//! What holds of the icon cache along every sequence of requests.

use crate::icon::{remembered, Icons};
use vstd::prelude::*;

verus! {

/// What the cache holds for an application after a first request it holds
/// after every later one: the second request finds the entry, changes
/// nothing and hands out the same icon, whatever the lookup would answer
/// then, and whether the first lookup found an icon or not.
pub proof fn lemma_second_request_is_cached(
    cache: Icons,
    key: Seq<char>,
    first: Option<Seq<char>>,
    second: Option<Seq<char>>,
)
    ensures
        remembered(cache, key, first).contains_key(key),
        remembered(remembered(cache, key, first), key, second) == remembered(cache, key, first),
        !cache.contains_key(key) ==> remembered(cache, key, first)[key] == first,
        cache.contains_key(key) ==> remembered(cache, key, first) == cache,
{
}

/// A request for one application leaves what the cache holds for every
/// other application as it was.
pub proof fn lemma_request_keeps_others(
    cache: Icons,
    key: Seq<char>,
    value: Option<Seq<char>>,
    other: Seq<char>,
)
    requires
        other != key,
    ensures
        remembered(cache, key, value).contains_key(other) == cache.contains_key(other),
        cache.contains_key(other) ==> remembered(cache, key, value)[other] == cache[other],
{
}

} // verus!
