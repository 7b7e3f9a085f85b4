//! The two insertion-ordered maps that the headers queue keeps, backed by
//! `linked_hash_map::LinkedHashMap`: the headers that wait for completion data
//! (with the time their data was last asked for), and the completion data that
//! waits to be sent to the target node.
//!
//! The contents of each map are named by a sequence of key-value pairs in
//! insertion order, front first.

use vstd::prelude::*;

use linked_hash_map::LinkedHashMap;

verus! {

#[verifier::external_type_specification]
#[verifier::external_body]
#[verifier::reject_recursive_types(K)]
#[verifier::reject_recursive_types(V)]
#[verifier::reject_recursive_types(S)]
pub struct ExLinkedHashMap<K, V, S>(LinkedHashMap<K, V, S>);

/// Contents of a map of fetch times: pairs of (header number, header hash) and
/// the time (nanoseconds) the completion data was last asked for, front first.
pub uninterp spec fn fetch_times(m: LinkedHashMap<(u64, u64), Option<u128>>) -> Seq<((u64, u64), Option<u128>)>;

/// Contents of a map of completion data: pairs of (header number, header hash)
/// and the encoded completion data, front first.
pub uninterp spec fn completions(m: LinkedHashMap<(u64, u64), Vec<u8>>) -> Seq<((u64, u64), Seq<u8>)>;

/// Keys of a sequence of pairs, in order.
pub open spec fn keys_of<V>(s: Seq<((u64, u64), V)>) -> Seq<(u64, u64)> {
    s.map_values(|p: ((u64, u64), V)| p.0)
}

/// The pairs whose key is not `k`, in order.
pub open spec fn without_key<V>(s: Seq<((u64, u64), V)>, k: (u64, u64)) -> Seq<((u64, u64), V)> {
    s.filter(|p: ((u64, u64), V)| p.0 != k)
}

/// Calls `LinkedHashMap::new`: the map is empty.
#[verifier::external_body]
pub(crate) fn fetch_times_new() -> (m: LinkedHashMap<(u64, u64), Option<u128>>)
    ensures
        fetch_times(m) == Seq::<((u64, u64), Option<u128>)>::empty(),
{
    LinkedHashMap::new()
}

/// Calls `LinkedHashMap::insert`: an existing entry of the key is dropped and
/// the pair goes to the back, as the crate's source does (it moves an existing
/// node to the back and replaces its value).
#[verifier::external_body]
pub(crate) fn fetch_times_insert(m: &mut LinkedHashMap<(u64, u64), Option<u128>>, k: (u64, u64), v: Option<u128>)
    ensures
        fetch_times(*final(m)) == without_key(fetch_times(*old(m)), k).push((k, v)),
{
    m.insert(k, v);
}

/// Calls `LinkedHashMap::remove`: the entry of the key is dropped; the result
/// tells whether there was one.
#[verifier::external_body]
pub(crate) fn fetch_times_remove(m: &mut LinkedHashMap<(u64, u64), Option<u128>>, k: (u64, u64)) -> (r: bool)
    ensures
        r == keys_of(fetch_times(*old(m))).contains(k),
        fetch_times(*final(m)) == without_key(fetch_times(*old(m)), k),
{
    m.remove(&k).is_some()
}

/// Calls `LinkedHashMap::contains_key`.
#[verifier::external_body]
pub(crate) fn fetch_times_contains(m: &LinkedHashMap<(u64, u64), Option<u128>>, k: (u64, u64)) -> (r: bool)
    ensures
        r == keys_of(fetch_times(*m)).contains(k),
{
    m.contains_key(&k)
}

/// Calls `LinkedHashMap::front`: the first pair, copied out.
#[verifier::external_body]
pub(crate) fn fetch_times_front(m: &LinkedHashMap<(u64, u64), Option<u128>>) -> (r: Option<((u64, u64), Option<u128>)>)
    ensures
        fetch_times(*m).len() == 0 ==> r is None,
        fetch_times(*m).len() > 0 ==> r == Some(fetch_times(*m)[0]),
{
    m.front().map(|(k, v)| (*k, *v))
}

/// Calls `LinkedHashMap::pop_front`: the first pair is dropped.
#[verifier::external_body]
pub(crate) fn fetch_times_pop_front(m: &mut LinkedHashMap<(u64, u64), Option<u128>>)
    ensures
        fetch_times(*old(m)).len() == 0 ==> fetch_times(*final(m)) == fetch_times(*old(m)),
        fetch_times(*old(m)).len() > 0 ==> fetch_times(*final(m)) == fetch_times(*old(m)).drop_first(),
{
    m.pop_front();
}

/// Calls `LinkedHashMap::keys`: the keys, front first.
#[verifier::external_body]
pub(crate) fn fetch_times_keys(m: &LinkedHashMap<(u64, u64), Option<u128>>) -> (r: Vec<(u64, u64)>)
    ensures
        r@ == keys_of(fetch_times(*m)),
{
    m.keys().cloned().collect()
}

/// Calls `LinkedHashMap::len`.
#[verifier::external_body]
pub(crate) fn fetch_times_len(m: &LinkedHashMap<(u64, u64), Option<u128>>) -> (r: usize)
    ensures
        r == fetch_times(*m).len(),
{
    m.len()
}

/// Calls `LinkedHashMap::new`: the map is empty.
#[verifier::external_body]
pub(crate) fn completions_new() -> (m: LinkedHashMap<(u64, u64), Vec<u8>>)
    ensures
        completions(m) == Seq::<((u64, u64), Seq<u8>)>::empty(),
{
    LinkedHashMap::new()
}

/// Calls `LinkedHashMap::insert`: an existing entry of the key is dropped and
/// the pair goes to the back, as the crate's source does.
#[verifier::external_body]
pub(crate) fn completions_insert(m: &mut LinkedHashMap<(u64, u64), Vec<u8>>, k: (u64, u64), v: Vec<u8>)
    ensures
        completions(*final(m)) == without_key(completions(*old(m)), k).push((k, v@)),
{
    m.insert(k, v);
}

/// Calls `LinkedHashMap::remove`: the entry of the key is dropped; the result
/// tells whether there was one.
#[verifier::external_body]
pub(crate) fn completions_remove(m: &mut LinkedHashMap<(u64, u64), Vec<u8>>, k: (u64, u64)) -> (r: bool)
    ensures
        r == keys_of(completions(*old(m))).contains(k),
        completions(*final(m)) == without_key(completions(*old(m)), k),
{
    m.remove(&k).is_some()
}

/// Calls `LinkedHashMap::contains_key`.
#[verifier::external_body]
pub(crate) fn completions_contains(m: &LinkedHashMap<(u64, u64), Vec<u8>>, k: (u64, u64)) -> (r: bool)
    ensures
        r == keys_of(completions(*m)).contains(k),
{
    m.contains_key(&k)
}

/// Calls `LinkedHashMap::pop_front`: the first pair is taken out.
#[verifier::external_body]
pub(crate) fn completions_pop_front(m: &mut LinkedHashMap<(u64, u64), Vec<u8>>) -> (r: Option<((u64, u64), Vec<u8>)>)
    ensures
        completions(*old(m)).len() == 0 ==> r is None && completions(*final(m)) == completions(*old(m)),
        completions(*old(m)).len() > 0 ==> r is Some && (r->0).0 == completions(*old(m))[0].0 && (r->0).1@
            == completions(*old(m))[0].1 && completions(*final(m)) == completions(*old(m)).drop_first(),
{
    m.pop_front()
}

/// Calls `LinkedHashMap::keys`: the keys, front first.
#[verifier::external_body]
pub(crate) fn completions_keys(m: &LinkedHashMap<(u64, u64), Vec<u8>>) -> (r: Vec<(u64, u64)>)
    ensures
        r@ == keys_of(completions(*m)),
{
    m.keys().cloned().collect()
}

/// Calls `LinkedHashMap::len`.
#[verifier::external_body]
pub(crate) fn completions_len(m: &LinkedHashMap<(u64, u64), Vec<u8>>) -> (r: usize)
    ensures
        r == completions(*m).len(),
{
    m.len()
}

} // verus!
