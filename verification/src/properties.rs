//! Property lists: the mapping from keys to values that is part of a block's
//! identity, kept as a list in the order of its keys, each key once.

use vstd::prelude::*;

use crate::text::{
    comes_before, lemma_order_is_strict, lemma_order_is_total, lemma_order_is_transitive, str_eq,
    str_lt,
};

verus! {

/// The characters of a list of pairs of strings.
pub open spec fn properties_view(properties: Seq<(String, String)>) -> Seq<(Seq<char>, Seq<char>)> {
    properties.map_values(|entry: (String, String)| (entry.0@, entry.1@))
}

/// Whether the keys of `list` go strictly upward, so that none is there
/// twice.
pub open spec fn ascending(list: Seq<(Seq<char>, Seq<char>)>) -> bool {
    forall|i: int, j: int|
        0 <= i < j < list.len() ==> comes_before((#[trigger] list[i]).0, (#[trigger] list[j]).0)
}

/// Whether `list` has an entry for `key`.
pub open spec fn has_key(list: Seq<(Seq<char>, Seq<char>)>, key: Seq<char>) -> bool {
    exists|i: int| 0 <= i < list.len() && (#[trigger] list[i]).0 == key
}

/// The value of the first entry of `list` whose key is `key`.
pub open spec fn lookup(list: Seq<(Seq<char>, Seq<char>)>, key: Seq<char>) -> Option<Seq<char>>
    decreases list.len(),
{
    if list.len() == 0 {
        None
    } else if list[0].0 == key {
        Some(list[0].1)
    } else {
        lookup(list.drop_first(), key)
    }
}

/// The value that the last pair of `pairs` with the key `key` gives it: what
/// a mapping built of the pairs one after the other holds for the key.
pub open spec fn last_value(pairs: Seq<(Seq<char>, Seq<char>)>, key: Seq<char>) -> Option<
    Seq<char>,
>
    decreases pairs.len(),
{
    if pairs.len() == 0 {
        None
    } else if pairs.last().0 == key {
        Some(pairs.last().1)
    } else {
        last_value(pairs.drop_last(), key)
    }
}

/// The list `list`, whose keys go upward, with `value` for `key`: in place
/// of the value that the key had, or at the key's place in the order.
pub open spec fn inserted(list: Seq<(Seq<char>, Seq<char>)>, key: Seq<char>, value: Seq<char>) -> Seq<
    (Seq<char>, Seq<char>),
>
    decreases list.len(),
{
    if list.len() == 0 {
        seq![(key, value)]
    } else if list[0].0 == key {
        seq![(key, value)] + list.drop_first()
    } else if comes_before(key, list[0].0) {
        seq![(key, value)] + list
    } else {
        seq![list[0]] + inserted(list.drop_first(), key, value)
    }
}

/// The mapping that `pairs` build, one after the other, as a list in the
/// order of its keys: a later pair takes the place of an earlier one with
/// the same key.
pub open spec fn canonical(pairs: Seq<(Seq<char>, Seq<char>)>) -> Seq<(Seq<char>, Seq<char>)>
    decreases pairs.len(),
{
    if pairs.len() == 0 {
        Seq::empty()
    } else {
        inserted(canonical(pairs.drop_last()), pairs.last().0, pairs.last().1)
    }
}

/// A list holds a value for exactly the keys that it has an entry for.
pub proof fn lemma_lookup_finds_keys(list: Seq<(Seq<char>, Seq<char>)>, key: Seq<char>)
    ensures
        lookup(list, key) is Some <==> has_key(list, key),
    decreases list.len(),
{
    if list.len() > 0 {
        let rest = list.drop_first();
        lemma_lookup_finds_keys(rest, key);
        if list[0].0 == key {
            assert(has_key(list, key));
        } else {
            if has_key(rest, key) {
                let i = choose|i: int| 0 <= i < rest.len() && (#[trigger] rest[i]).0 == key;
                assert(list[i + 1].0 == key);
            }
            if has_key(list, key) {
                let i = choose|i: int| 0 <= i < list.len() && (#[trigger] list[i]).0 == key;
                assert(rest[i - 1].0 == key);
            }
        }
    }
}

/// After a value was put in for a key, the list holds that value for the
/// key, and for every other key what it held before.
pub proof fn lemma_inserted_holds_the_value(
    list: Seq<(Seq<char>, Seq<char>)>,
    key: Seq<char>,
    value: Seq<char>,
    other: Seq<char>,
)
    ensures
        lookup(inserted(list, key, value), other) == if other == key {
            Some(value)
        } else {
            lookup(list, other)
        },
    decreases list.len(),
{
    let after = inserted(list, key, value);
    if list.len() == 0 {
        assert(after.drop_first() =~= list);
    } else if list[0].0 == key {
        assert(after.drop_first() =~= list.drop_first());
    } else if comes_before(key, list[0].0) {
        assert(after.drop_first() =~= list);
    } else {
        lemma_inserted_holds_the_value(list.drop_first(), key, value, other);
        assert(after.drop_first() =~= inserted(list.drop_first(), key, value));
    }
}

/// The keys of a list after a value was put in are the key of the value
/// and the keys that the list had.
proof fn lemma_inserted_keys(list: Seq<(Seq<char>, Seq<char>)>, key: Seq<char>, value: Seq<char>)
    ensures
        forall|i: int|
            0 <= i < inserted(list, key, value).len() ==> (#[trigger] inserted(
                list,
                key,
                value,
            )[i]).0 == key || has_key(list, inserted(list, key, value)[i].0),
    decreases list.len(),
{
    let after = inserted(list, key, value);
    assert forall|i: int| 0 <= i < after.len() implies (#[trigger] after[i]).0 == key || has_key(
        list,
        after[i].0,
    ) by {
        if list.len() == 0 {
        } else if list[0].0 == key {
            if i > 0 {
                assert(list[i].0 == after[i].0);
            }
        } else if comes_before(key, list[0].0) {
            if i > 0 {
                assert(list[i - 1].0 == after[i].0);
            }
        } else {
            let rest = list.drop_first();
            lemma_inserted_keys(rest, key, value);
            if i == 0 {
                assert(list[0].0 == after[0].0);
            } else {
                let inner = inserted(rest, key, value);
                assert(after[i] == inner[i - 1]);
                if inner[i - 1].0 != key {
                    let j = choose|j: int|
                        0 <= j < rest.len() && (#[trigger] rest[j]).0 == inner[i - 1].0;
                    assert(list[j + 1].0 == after[i].0);
                }
            }
        }
    }
}

/// Putting a value into a list whose keys go upward leaves them going
/// upward.
pub proof fn lemma_inserted_stays_ascending(
    list: Seq<(Seq<char>, Seq<char>)>,
    key: Seq<char>,
    value: Seq<char>,
)
    requires
        ascending(list),
    ensures
        ascending(inserted(list, key, value)),
    decreases list.len(),
{
    let after = inserted(list, key, value);
    if list.len() == 0 {
    } else if list[0].0 == key {
        assert forall|i: int, j: int| 0 <= i < j < after.len() implies comes_before(
            (#[trigger] after[i]).0,
            (#[trigger] after[j]).0,
        ) by {
            assert(after[i].0 == list[i].0 && after[j].0 == list[j].0);
        }
    } else if comes_before(key, list[0].0) {
        assert forall|i: int, j: int| 0 <= i < j < after.len() implies comes_before(
            (#[trigger] after[i]).0,
            (#[trigger] after[j]).0,
        ) by {
            assert(after[j] == list[j - 1]);
            if i == 0 {
                if j > 1 {
                    lemma_order_is_transitive(key, list[0].0, list[j - 1].0);
                }
            } else {
                assert(after[i] == list[i - 1]);
            }
        }
    } else {
        let rest = list.drop_first();
        let inner = inserted(rest, key, value);
        assert(ascending(rest)) by {
            assert forall|i: int, j: int| 0 <= i < j < rest.len() implies comes_before(
                (#[trigger] rest[i]).0,
                (#[trigger] rest[j]).0,
            ) by {
                assert(rest[i] == list[i + 1] && rest[j] == list[j + 1]);
            }
        }
        lemma_inserted_stays_ascending(rest, key, value);
        lemma_inserted_keys(rest, key, value);
        lemma_order_is_total(key, list[0].0);
        assert forall|i: int, j: int| 0 <= i < j < after.len() implies comes_before(
            (#[trigger] after[i]).0,
            (#[trigger] after[j]).0,
        ) by {
            assert(after[j] == inner[j - 1]);
            if i == 0 {
                if inner[j - 1].0 != key {
                    let k = choose|k: int|
                        0 <= k < rest.len() && (#[trigger] rest[k]).0 == inner[j - 1].0;
                    assert(rest[k] == list[k + 1]);
                }
            } else {
                assert(after[i] == inner[i - 1]);
            }
        }
    }
}

/// The keys of the list of a mapping go strictly upward.
pub proof fn lemma_canonical_is_ascending(pairs: Seq<(Seq<char>, Seq<char>)>)
    ensures
        ascending(canonical(pairs)),
    decreases pairs.len(),
{
    if pairs.len() > 0 {
        lemma_canonical_is_ascending(pairs.drop_last());
        lemma_inserted_stays_ascending(
            canonical(pairs.drop_last()),
            pairs.last().0,
            pairs.last().1,
        );
    }
}

/// The list of a mapping holds for every key what the mapping holds: the
/// value of the last pair with the key.
pub proof fn lemma_canonical_holds_the_mapping(pairs: Seq<(Seq<char>, Seq<char>)>, key: Seq<char>)
    ensures
        lookup(canonical(pairs), key) == last_value(pairs, key),
    decreases pairs.len(),
{
    if pairs.len() > 0 {
        lemma_canonical_holds_the_mapping(pairs.drop_last(), key);
        lemma_inserted_holds_the_value(
            canonical(pairs.drop_last()),
            pairs.last().0,
            pairs.last().1,
            key,
        );
    }
}

/// What is left of a list whose keys go upward, without its first entry,
/// has keys that go upward and has no entry for the first key.
proof fn lemma_rest_of_ascending(list: Seq<(Seq<char>, Seq<char>)>)
    requires
        ascending(list),
        list.len() > 0,
    ensures
        ascending(list.drop_first()),
        lookup(list.drop_first(), list[0].0) is None,
{
    let rest = list.drop_first();
    assert forall|i: int, j: int| 0 <= i < j < rest.len() implies comes_before(
        (#[trigger] rest[i]).0,
        (#[trigger] rest[j]).0,
    ) by {
        assert(rest[i] == list[i + 1] && rest[j] == list[j + 1]);
    }
    lemma_lookup_finds_keys(rest, list[0].0);
    if has_key(rest, list[0].0) {
        let i = choose|i: int| 0 <= i < rest.len() && (#[trigger] rest[i]).0 == list[0].0;
        assert(rest[i] == list[i + 1]);
        assert(comes_before(list[0].0, list[i + 1].0));
        lemma_order_is_strict(list[0].0, list[0].0);
    }
}

/// Where a list whose keys go upward holds a value for a key that comes
/// before its first key, there is a contradiction: it holds none.
proof fn lemma_nothing_before_the_first(list: Seq<(Seq<char>, Seq<char>)>, key: Seq<char>)
    requires
        ascending(list),
        list.len() > 0,
        comes_before(key, list[0].0),
    ensures
        lookup(list, key) is None,
{
    lemma_lookup_finds_keys(list, key);
    if has_key(list, key) {
        let i = choose|i: int| 0 <= i < list.len() && (#[trigger] list[i]).0 == key;
        lemma_order_is_strict(key, list[0].0);
        if i > 0 {
            assert(comes_before(list[0].0, list[i].0));
        }
    }
}

/// Two lists whose keys go upward and that hold the same value for every
/// key are the same list: a mapping has one list only.
pub proof fn lemma_ascending_list_is_unique(
    first: Seq<(Seq<char>, Seq<char>)>,
    second: Seq<(Seq<char>, Seq<char>)>,
)
    requires
        ascending(first),
        ascending(second),
        forall|key: Seq<char>| #[trigger] lookup(first, key) == lookup(second, key),
    ensures
        first == second,
    decreases first.len(),
{
    if first.len() == 0 {
        if second.len() > 0 {
            assert(lookup(first, second[0].0) == lookup(second, second[0].0));
        }
        assert(first =~= second);
    } else if second.len() == 0 {
        assert(lookup(first, first[0].0) == lookup(second, first[0].0));
    } else {
        let key = first[0].0;
        let other = second[0].0;
        assert(lookup(first, key) == lookup(second, key));
        assert(lookup(first, other) == lookup(second, other));
        if key != other {
            lemma_order_is_total(key, other);
            if comes_before(key, other) {
                lemma_nothing_before_the_first(second, key);
            } else {
                lemma_nothing_before_the_first(first, other);
            }
        }
        let rest = first.drop_first();
        let others = second.drop_first();
        lemma_rest_of_ascending(first);
        lemma_rest_of_ascending(second);
        assert forall|any: Seq<char>| #[trigger] lookup(rest, any) == lookup(others, any) by {
            assert(lookup(first, any) == lookup(second, any));
        }
        lemma_ascending_list_is_unique(rest, others);
        assert(first =~= seq![first[0]] + rest);
        assert(second =~= seq![second[0]] + others);
    }
}

/// Pairs build the same list exactly when they build the same mapping:
/// when the last pair with a key gives the same value, whatever the key.
pub proof fn lemma_same_mapping_same_list(
    pairs: Seq<(Seq<char>, Seq<char>)>,
    others: Seq<(Seq<char>, Seq<char>)>,
)
    ensures
        canonical(pairs) == canonical(others) <==> forall|key: Seq<char>| #[trigger]
            last_value(pairs, key) == last_value(others, key),
{
    lemma_canonical_is_ascending(pairs);
    lemma_canonical_is_ascending(others);
    assert forall|key: Seq<char>|
        lookup(canonical(pairs), key) == last_value(pairs, key) && lookup(canonical(others), key)
            == last_value(others, key) by {
        lemma_canonical_holds_the_mapping(pairs, key);
        lemma_canonical_holds_the_mapping(others, key);
    }
    if forall|key: Seq<char>| #[trigger] last_value(pairs, key) == last_value(others, key) {
        assert forall|key: Seq<char>| #[trigger] lookup(canonical(pairs), key) == lookup(
            canonical(others),
            key,
        ) by {
            assert(last_value(pairs, key) == last_value(others, key));
        }
        lemma_ascending_list_is_unique(canonical(pairs), canonical(others));
    }
}

/// Puts `value` for `key` into a list whose keys go upward.
fn insert_entry(list: &mut Vec<(String, String)>, key: String, value: String)
    ensures
        properties_view(final(list)@) == inserted(properties_view(old(list)@), key@, value@),
{
    let ghost before = properties_view(list@);
    let mut at: usize = 0;
    assert(before.skip(0) =~= before);
    assert(before.take(0) + inserted(before, key@, value@) =~= inserted(before, key@, value@));
    while at < list.len()
        invariant
            at <= list.len(),
            list@ == old(list)@,
            before == properties_view(list@),
            inserted(before, key@, value@) == before.take(at as int) + inserted(
                before.skip(at as int),
                key@,
                value@,
            ),
        decreases list.len() - at,
    {
        let ghost rest = before.skip(at as int);
        assert(rest[0] == before[at as int]);
        assert(rest.drop_first() =~= before.skip(at + 1));
        if str_eq(list[at].0.as_str(), key.as_str()) {
            list.set(at, (key, value));
            proof {
                assert(properties_view(list@) =~= before.take(at as int) + (seq![(key@, value@)]
                    + rest.drop_first()));
            }
            return ;
        }
        if str_lt(key.as_str(), list[at].0.as_str()) {
            list.insert(at, (key, value));
            proof {
                assert(properties_view(list@) =~= before.take(at as int) + (seq![(key@, value@)]
                    + rest));
            }
            return ;
        }
        proof {
            assert(before.take(at + 1) + inserted(before.skip(at + 1), key@, value@)
                =~= before.take(at as int) + (seq![rest[0]] + inserted(
                rest.drop_first(),
                key@,
                value@,
            )));
        }
        at = at + 1;
    }
    list.push((key, value));
    proof {
        assert(before.skip(at as int) =~= Seq::empty());
        assert(properties_view(list@) =~= before.take(at as int) + seq![(key@, value@)]);
    }
}

/// Computes [`canonical`].
pub fn canonical_of(pairs: &Vec<(String, String)>) -> (list: Vec<(String, String)>)
    ensures
        properties_view(list@) == canonical(properties_view(pairs@)),
        ascending(properties_view(list@)),
{
    let mut list: Vec<(String, String)> = Vec::new();
    let mut done: usize = 0;
    assert(properties_view(list@) =~= Seq::empty());
    assert(properties_view(pairs@).take(0) =~= Seq::empty());
    while done < pairs.len()
        invariant
            done <= pairs.len(),
            properties_view(list@) == canonical(properties_view(pairs@).take(done as int)),
        decreases pairs.len() - done,
    {
        let key = pairs[done].0.clone();
        let value = pairs[done].1.clone();
        proof {
            let all = properties_view(pairs@);
            assert(all.take(done + 1).drop_last() =~= all.take(done as int));
            assert(all.take(done + 1).last() == (key@, value@));
        }
        insert_entry(&mut list, key, value);
        done = done + 1;
    }
    proof {
        assert(properties_view(pairs@).take(done as int) =~= properties_view(pairs@));
        lemma_canonical_is_ascending(properties_view(pairs@));
    }
    list
}

} // verus!
