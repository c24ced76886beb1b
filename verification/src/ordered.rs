//! Maps from texts that keep the order in which their keys came.

use vstd::prelude::*;
use vstd::string::*;
use indexmap::IndexMap;

verus! {

/// `indexmap::IndexMap`, whose contents are named below for each use of it.
#[verifier::external_type_specification]
#[verifier::external_body]
#[verifier::reject_recursive_types(K)]
#[verifier::reject_recursive_types(V)]
#[verifier::reject_recursive_types(S)]
pub struct ExIndexMap<K, V, S>(indexmap::IndexMap<K, V, S>);

/// The value under a key.
pub open spec fn value_of<V>(pairs: Seq<(Seq<char>, V)>, key: Seq<char>) -> Option<V>
    decreases pairs.len(),
{
    if pairs.len() == 0 {
        None
    } else if pairs[0].0 == key {
        Some(pairs[0].1)
    } else {
        value_of(pairs.drop_first(), key)
    }
}

/// The pairs with a value put under a key: in its place where the key is there,
/// at the end where it is not.
pub open spec fn with_value<V>(pairs: Seq<(Seq<char>, V)>, key: Seq<char>, value: V) -> Seq<
    (Seq<char>, V),
>
    decreases pairs.len(),
{
    if pairs.len() == 0 {
        seq![(key, value)]
    } else if pairs[0].0 == key {
        pairs.update(0, (key, value))
    } else {
        seq![pairs[0]] + with_value(pairs.drop_first(), key, value)
    }
}

/// Whether no key occurs twice.
pub open spec fn keys_differ<V>(pairs: Seq<(Seq<char>, V)>) -> bool {
    forall|i: int, j: int|
        0 <= i < j < pairs.len() ==> (#[trigger] pairs[i]).0 != (#[trigger] pairs[j]).0
}

/// The pairs as a map, in no order.
pub open spec fn as_map<V>(pairs: Seq<(Seq<char>, V)>) -> Map<Seq<char>, V>
    decreases pairs.len(),
{
    if pairs.len() == 0 {
        Map::empty()
    } else {
        as_map(pairs.drop_first()).insert(pairs[0].0, pairs[0].1)
    }
}

/// A value goes in the place of the first one of its key.
pub proof fn lemma_with_value_at<V>(pairs: Seq<(Seq<char>, V)>, key: Seq<char>, value: V, i: int)
    requires
        0 <= i < pairs.len(),
        pairs[i].0 == key,
        forall|j: int| 0 <= j < i ==> (#[trigger] pairs[j]).0 != key,
    ensures
        with_value(pairs, key, value) == pairs.update(i, (key, value)),
    decreases pairs.len(),
{
    if i > 0 {
        let rest = pairs.drop_first();
        assert(pairs[0].0 != key);
        assert forall|j: int| 0 <= j < i - 1 implies (#[trigger] rest[j]).0 != key by {
            assert(rest[j] == pairs[j + 1]);
        }
        lemma_with_value_at(rest, key, value, i - 1);
        assert(with_value(pairs, key, value) =~= pairs.update(i, (key, value)));
    }
}

/// A value of a new key goes to the end.
pub proof fn lemma_with_value_new<V>(pairs: Seq<(Seq<char>, V)>, key: Seq<char>, value: V)
    requires
        forall|j: int| 0 <= j < pairs.len() ==> (#[trigger] pairs[j]).0 != key,
    ensures
        with_value(pairs, key, value) == pairs.push((key, value)),
    decreases pairs.len(),
{
    if pairs.len() == 0 {
        assert(pairs.push((key, value)) =~= seq![(key, value)]);
    } else {
        let rest = pairs.drop_first();
        assert forall|j: int| 0 <= j < rest.len() implies (#[trigger] rest[j]).0 != key by {
            assert(rest[j] == pairs[j + 1]);
        }
        assert(pairs[0].0 != key);
        lemma_with_value_new(rest, key, value);
        assert(with_value(pairs, key, value) =~= pairs.push((key, value)));
    }
}

/// A value that has been put under a key is found there, and no other key changes.
pub proof fn lemma_value_of_with<V>(
    pairs: Seq<(Seq<char>, V)>,
    key: Seq<char>,
    value: V,
    other: Seq<char>,
)
    ensures
        value_of(with_value(pairs, key, value), other) == if other == key {
            Some(value)
        } else {
            value_of(pairs, other)
        },
    decreases pairs.len(),
{
    let after = with_value(pairs, key, value);
    if pairs.len() == 0 {
        assert(after.drop_first() =~= pairs);
    } else if pairs[0].0 == key {
        assert(after.drop_first() =~= pairs.drop_first());
    } else {
        lemma_value_of_with(pairs.drop_first(), key, value, other);
        assert(after.drop_first() =~= with_value(pairs.drop_first(), key, value));
    }
}

/// What a map from texts to texts holds, in its order.
pub uninterp spec fn text_pairs(map: IndexMap<String, String>) -> Seq<(Seq<char>, Seq<char>)>;

/// No pairs at all.
pub open spec fn no_pairs() -> Seq<(Seq<char>, Seq<char>)> {
    Seq::empty()
}

/// `IndexMap::new`: a map that holds nothing.
#[verifier::external_body]
pub(crate) fn no_text_pairs() -> (r: IndexMap<String, String>)
    ensures
        text_pairs(r) == no_pairs(),
{
    IndexMap::new()
}

/// `IndexMap::insert`: the value under a key that is there is replaced in its
/// place; a new key goes to the end.
#[verifier::external_body]
pub(crate) fn insert_text(map: &mut IndexMap<String, String>, key: String, value: String)
    ensures
        text_pairs(*final(map)) == with_value(text_pairs(*old(map)), key@, value@),
{
    map.insert(key, value);
}

/// `IndexMap::clone`: a map that holds the same in the same order.
#[verifier::external_body]
pub(crate) fn copy_text_pairs(map: &IndexMap<String, String>) -> (r: IndexMap<String, String>)
    ensures
        text_pairs(r) == text_pairs(*map),
{
    map.clone()
}

/// `IndexMap::eq`: whether two maps hold the same values under the same keys, in
/// whatever order.
#[verifier::external_body]
pub(crate) fn same_text_pairs(a: &IndexMap<String, String>, b: &IndexMap<String, String>) -> (r:
    bool)
    ensures
        r == (as_map(text_pairs(*a)) == as_map(text_pairs(*b))),
{
    a == b
}

/// The items in the opposite order.
pub(crate) fn reversed<T>(items: Vec<T>) -> (r: Vec<T>)
    ensures
        r@ == items@.reverse(),
{
    let ghost all = items@;
    let mut rest = items;
    let mut out: Vec<T> = Vec::new();
    assert(all.skip(all.len() as int) =~= Seq::<T>::empty());
    while rest.len() > 0
        invariant
            rest@.len() <= all.len(),
            rest@ =~= all.take(rest@.len() as int),
            out@ =~= all.skip(rest@.len() as int).reverse(),
        decreases rest.len(),
    {
        if let Some(item) = rest.pop() {
            out.push(item);
        }
    }
    assert(all.skip(0) =~= all);
    out
}

/// Pairs that are put in one after the other: each pair that is there was put in,
/// or was there before.
pub proof fn lemma_with_value_contains<V>(
    pairs: Seq<(Seq<char>, V)>,
    key: Seq<char>,
    value: V,
    i: int,
)
    requires
        0 <= i < with_value(pairs, key, value).len(),
    ensures
        with_value(pairs, key, value)[i] == (key, value) || pairs.contains(
            with_value(pairs, key, value)[i],
        ),
    decreases pairs.len(),
{
    if pairs.len() > 0 && pairs[0].0 != key {
        let rest = pairs.drop_first();
        if i > 0 {
            lemma_with_value_contains(rest, key, value, i - 1);
            let found = with_value(pairs, key, value)[i];
            assert(found == with_value(rest, key, value)[i - 1]);
            if found != (key, value) {
                let k = choose|k: int| 0 <= k < rest.len() && rest[k] == found;
                assert(pairs[k + 1] == found);
            }
        } else {
            assert(pairs[0] == with_value(pairs, key, value)[0]);
        }
    } else if pairs.len() > 0 && i > 0 {
        assert(pairs[i] == with_value(pairs, key, value)[i]);
    }
}

/// No key occurs twice after a value has been put in, and the pairs that were
/// there keep their order.
pub proof fn lemma_with_value_keys<V>(pairs: Seq<(Seq<char>, V)>, key: Seq<char>, value: V)
    requires
        keys_differ(pairs),
    ensures
        keys_differ(with_value(pairs, key, value)),
        with_value(pairs, key, value).len() >= pairs.len(),
        forall|i: int|
            0 <= i < pairs.len() ==> (#[trigger] with_value(pairs, key, value)[i]).0 == pairs[i].0,
{
    if exists|i: int| 0 <= i < pairs.len() && (#[trigger] pairs[i]).0 == key {
        let i = choose|i: int| 0 <= i < pairs.len() && (#[trigger] pairs[i]).0 == key;
        lemma_with_value_at(pairs, key, value, i);
        let after = pairs.update(i, (key, value));
        assert forall|a: int, b: int| 0 <= a < b < after.len() implies (#[trigger] after[a]).0 != (
        #[trigger] after[b]).0 by {
            assert(pairs[a].0 != pairs[b].0);
        }
    } else {
        lemma_with_value_new(pairs, key, value);
    }
}

/// The value of a key that occurs once is the one that stands beside it.
pub proof fn lemma_value_of_at<V>(pairs: Seq<(Seq<char>, V)>, i: int)
    requires
        keys_differ(pairs),
        0 <= i < pairs.len(),
    ensures
        value_of(pairs, pairs[i].0) == Some(pairs[i].1),
    decreases pairs.len(),
{
    if i > 0 {
        let rest = pairs.drop_first();
        assert(pairs[0].0 != pairs[i].0);
        assert(keys_differ(rest)) by {
            assert forall|a: int, b: int| 0 <= a < b < rest.len() implies (#[trigger] rest[a]).0
                != (#[trigger] rest[b]).0 by {
                assert(pairs[a + 1].0 != pairs[b + 1].0);
            }
        }
        lemma_value_of_at(rest, i - 1);
        assert(rest[i - 1] == pairs[i]);
    }
}

/// Pairs as a map: under each key the value of its first pair.
pub proof fn law_map_of_pairs<V>(pairs: Seq<(Seq<char>, V)>, key: Seq<char>)
    ensures
        as_map(pairs).dom().contains(key) <==> value_of(pairs, key) is Some,
        value_of(pairs, key) matches Some(value) ==> as_map(pairs)[key] == value,
    decreases pairs.len(),
{
    if pairs.len() > 0 {
        law_map_of_pairs(pairs.drop_first(), key);
    }
}

/// Two lists of pairs make the same map exactly if they have the same value, or
/// none, under each key.
pub proof fn law_same_map_same_values<V>(a: Seq<(Seq<char>, V)>, b: Seq<(Seq<char>, V)>)
    ensures
        as_map(a) == as_map(b) <==> forall|key: Seq<char>| #[trigger]
            value_of(a, key) == value_of(b, key),
{
    assert forall|key: Seq<char>| #[trigger]
        value_of(a, key) == (if as_map(a).dom().contains(key) {
            Some(as_map(a)[key])
        } else {
            None
        }) by {
        law_map_of_pairs(a, key);
    }
    assert forall|key: Seq<char>| #[trigger]
        value_of(b, key) == (if as_map(b).dom().contains(key) {
            Some(as_map(b)[key])
        } else {
            None
        }) by {
        law_map_of_pairs(b, key);
    }
    if forall|key: Seq<char>| #[trigger] value_of(a, key) == value_of(b, key) {
        assert forall|key: Seq<char>| #[trigger]
            as_map(a).dom().contains(key) == as_map(b).dom().contains(key) by {
            assert(value_of(a, key) == value_of(b, key));
        }
        assert forall|key: Seq<char>| as_map(a).dom().contains(key) implies #[trigger] as_map(
            a,
        )[key] == as_map(b)[key] by {
            assert(value_of(a, key) == value_of(b, key));
        }
        assert(as_map(a) =~= as_map(b));
    }
}

} // verus!
