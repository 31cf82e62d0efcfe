//! Hash sets and hash maps that hash with the `fx` algorithm of `rustc_hash`.
//!
//! The collections are the standard library's, keyed by `usize`. Nothing here is
//! proved: each function makes one call and states what the standard library
//! documents of that call.

use rustc_hash::FxHashMap;
use rustc_hash::FxHashSet;
use rustc_hash::FxHasher;
use std::hash::BuildHasherDefault;
use vstd::prelude::*;

verus! {

/// The `fx` hasher of `rustc_hash`. Verified code only carries it around as
/// the hasher parameter of hash sets and hash maps.
#[verifier::external_type_specification]
#[verifier::external_body]
pub struct ExFxHasher(FxHasher);

/// The standard library's builder of default-constructed hashers, which is
/// the hasher parameter of `FxHashSet` and `FxHashMap`.
#[verifier::external_type_specification]
#[verifier::external_body]
#[verifier::reject_recursive_types(H)]
pub struct ExBuildHasherDefault<H>(BuildHasherDefault<H>);

/// Calls `FxHashSet::default`. Claims that the new hash set holds no key.
#[verifier::external_body]
pub(crate) fn fx_set_new() -> (set: FxHashSet<usize>)
    ensures
        set@ == Set::<usize>::empty(),
{
    FxHashSet::default()
}

/// Calls `HashSet::insert` on a set hashed with `fx`. Claims what the standard
/// library documents: afterwards the set holds the key besides what it held
/// before, and the result tells whether the key was absent before.
#[verifier::external_body]
pub(crate) fn fx_set_insert(set: &mut FxHashSet<usize>, key: usize) -> (fresh: bool)
    ensures
        final(set)@ == old(set)@.insert(key),
        fresh == !old(set)@.contains(key),
{
    set.insert(key)
}

/// Calls `HashSet::remove` on a set hashed with `fx`. Claims what the standard
/// library documents: afterwards the set holds what it held before without the
/// key, and the result tells whether the key was present before.
#[verifier::external_body]
pub(crate) fn fx_set_remove(set: &mut FxHashSet<usize>, key: usize) -> (present: bool)
    ensures
        final(set)@ == old(set)@.remove(key),
        present == old(set)@.contains(key),
{
    set.remove(&key)
}

/// Calls `HashSet::contains` on a set hashed with `fx`. Claims that the result
/// tells whether the set holds the key.
#[verifier::external_body]
pub(crate) fn fx_set_contains(set: &FxHashSet<usize>, key: usize) -> (found: bool)
    ensures
        found == set@.contains(key),
{
    set.contains(&key)
}

/// Calls `HashSet::clone` on a set hashed with `fx`. Claims that the copy holds
/// the keys of the set that was copied.
#[verifier::external_body]
pub(crate) fn fx_set_clone(set: &FxHashSet<usize>) -> (copy: FxHashSet<usize>)
    ensures
        copy@ == set@,
{
    set.clone()
}

/// Calls `FxHashMap::default`. Claims that the new hash map holds no key.
#[verifier::external_body]
pub(crate) fn fx_map_new<V>() -> (map: FxHashMap<usize, V>)
    ensures
        map@.dom() == Set::<usize>::empty(),
{
    FxHashMap::default()
}

/// Calls `HashMap::insert` on a map hashed with `fx`. Claims what the standard
/// library documents: afterwards the map gives the value for the key and is
/// otherwise as before, and the result is the value that the key had before.
#[verifier::external_body]
pub(crate) fn fx_map_insert<V>(map: &mut FxHashMap<usize, V>, key: usize, value: V) -> (previous:
    Option<V>)
    ensures
        final(map)@ == old(map)@.insert(key, value),
        previous == (if old(map)@.contains_key(key) {
            Some(old(map)@[key])
        } else {
            None
        }),
{
    map.insert(key, value)
}

/// Calls `HashMap::get` on a map hashed with `fx`. Claims that the result is
/// the value of the key, if the map has the key.
#[verifier::external_body]
pub(crate) fn fx_map_get<V>(map: &FxHashMap<usize, V>, key: usize) -> (value: Option<&V>)
    ensures
        value == (if map@.contains_key(key) {
            Some(&map@[key])
        } else {
            None
        }),
{
    map.get(&key)
}

/// Calls `HashMap::remove` on a map hashed with `fx`. Claims what the standard
/// library documents: afterwards the map lacks the key and is otherwise as
/// before, and the result is the value that the key had before.
#[verifier::external_body]
pub(crate) fn fx_map_remove<V>(map: &mut FxHashMap<usize, V>, key: usize) -> (previous: Option<V>)
    ensures
        final(map)@ == old(map)@.remove(key),
        previous == (if old(map)@.contains_key(key) {
            Some(old(map)@[key])
        } else {
            None
        }),
{
    map.remove(&key)
}

/// Calls `HashMap::drain` on a map hashed with `fx` and collects what it
/// yields. Claims what the standard library documents: the map is empty
/// afterwards, and the pairs are the entries that it held, each once, in no
/// stated order.
#[verifier::external_body]
pub(crate) fn fx_map_drain<V>(map: &mut FxHashMap<usize, V>) -> (pairs: Vec<(usize, V)>)
    ensures
        final(map)@.dom() == Set::<usize>::empty(),
        forall|i: int|
            0 <= i < pairs@.len() ==> old(map)@.contains_key((#[trigger] pairs@[i]).0) && old(
                map,
            )@[pairs@[i].0] == pairs@[i].1,
        forall|key: usize| #[trigger]
            old(map)@.contains_key(key) ==> exists|i: int|
                #![trigger pairs@[i]]
                0 <= i < pairs@.len() && pairs@[i].0 == key,
        forall|i: int, j: int|
            0 <= i < j < pairs@.len() ==> (#[trigger] pairs@[i]).0 != (#[trigger] pairs@[j]).0,
{
    map.drain().collect()
}

} // verus!
