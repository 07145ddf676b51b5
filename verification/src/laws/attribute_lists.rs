//! Laws of lookup and update in attribute lists.

use crate::attributes::{
    at_most_one, first_index, first_value, has_key, last_value, lemma_first_exists,
    lemma_first_is, updated, AttributeView,
};
use crate::laws::vocabulary::{absent, differs_by, stands_first, stands_last};
use vstd::prelude::*;

verus! {

/// A lookup gives the value of the first attribute with the key, and nothing where there is none.
pub proof fn lookup_finds_the_first(list: Seq<AttributeView>, key: Seq<char>, i: int)
    ensures
        stands_first(list, key, i) ==> first_value(list, key) == Some(list[i].value),
        absent(list, key) <==> first_value(list, key) is None,
{
    if stands_first(list, key, i) {
        lemma_first_is(list, key, i);
    }
}

/// A pass over the list gives the value of the last attribute with the key, and nothing where
/// there is none.
pub proof fn pass_finds_the_last(list: Seq<AttributeView>, key: Seq<char>, i: int)
    ensures
        stands_last(list, key, i) ==> last_value(list, key) == Some(list[i].value),
        absent(list, key) <==> last_value(list, key) is None,
        last_value(list, key) is Some ==> exists|k: int|
            #![trigger stands_last(list, key, k)]
            stands_last(list, key, k) && last_value(list, key) == Some(list[k].value),
{
    lemma_last_value_stands(list, key);
    if stands_last(list, key, i) {
        lemma_last_value_is(list, key, i);
    }
}

/// An update sets the value of the first attribute with the key and touches nothing else; where
/// there is none, it adds one at the end.
pub proof fn update_sets_the_first(
    list: Seq<AttributeView>,
    key: Seq<char>,
    value: Seq<char>,
    i: int,
)
    ensures
        differs_by(list, updated(list, key, value), key, value),
        stands_first(list, key, i) ==> updated(list, key, value) == list.update(
            i,
            AttributeView { key, value },
        ),
        absent(list, key) ==> updated(list, key, value) == list.push(AttributeView { key, value }),
{
    if has_key(list, key) {
        lemma_first_exists(list, key);
        assert(stands_first(list, key, first_index(list, key)));
    } else {
        assert(absent(list, key));
    }
    if stands_first(list, key, i) {
        lemma_first_is(list, key, i);
    }
}

/// Where the last value of a key comes from.
proof fn lemma_last_value_stands(list: Seq<AttributeView>, key: Seq<char>)
    ensures
        match last_value(list, key) {
            Some(value) => exists|k: int|
                #![trigger stands_last(list, key, k)]
                stands_last(list, key, k) && value == list[k].value,
            None => absent(list, key),
        },
    decreases list.len(),
{
    if list.len() > 0 {
        let n = list.len() - 1;
        assert(list.last() == list[n]);
        if list[n].key == key {
            assert(stands_last(list, key, n));
        } else {
            let front = list.drop_last();
            lemma_last_value_stands(front, key);
            if last_value(front, key) is Some {
                let k = choose|k: int|
                    #![trigger stands_last(front, key, k)]
                    stands_last(front, key, k) && last_value(front, key) == Some(front[k].value);
                assert(front[k] == list[k]);
                assert forall|j: int| k < j < list.len() implies (#[trigger] list[j]).key
                    != key by {
                    if j < n {
                        assert(front[j] == list[j]);
                    }
                }
                assert(stands_last(list, key, k));
            } else {
                assert forall|j: int| 0 <= j < list.len() implies (#[trigger] list[j]).key
                    != key by {
                    if j < n {
                        assert(front[j] == list[j]);
                    }
                }
            }
        }
    }
}

/// A lookup finds what an update wrote.
pub proof fn lookup_finds_update(list: Seq<AttributeView>, key: Seq<char>, value: Seq<char>)
    ensures
        first_value(updated(list, key, value), key) == Some(value),
{
    let after = updated(list, key, value);
    let i = if has_key(list, key) {
        lemma_first_exists(list, key);
        first_index(list, key)
    } else {
        list.len() as int
    };
    assert forall|j: int| 0 <= j < i implies (#[trigger] after[j]).key != key by {
        assert(after[j] == list[j]);
    }
    lemma_first_is(after, key, i);
}

/// An update of one key leaves the lookup of every other key as it was.
pub proof fn update_leaves_other_keys(
    list: Seq<AttributeView>,
    key: Seq<char>,
    value: Seq<char>,
    other: Seq<char>,
)
    requires
        key != other,
    ensures
        first_value(updated(list, key, value), other) == first_value(list, other),
        last_value(updated(list, key, value), other) == last_value(list, other),
{
    let after = updated(list, key, value);
    if has_key(list, key) {
        lemma_first_exists(list, key);
        let k = first_index(list, key);
        assert forall|j: int| 0 <= j < list.len() && j != k implies after[j] == list[j] by {}
        lemma_last_value_agrees(list, after, other);
    } else {
        assert(after.drop_last() =~= list);
    }
    if has_key(list, other) {
        lemma_first_exists(list, other);
        let i = first_index(list, other);
        assert(after[i] == list[i]);
        assert forall|j: int| 0 <= j < i implies (#[trigger] after[j]).key != other by {
            assert(list[j].key != other);
        }
        lemma_first_is(after, other, i);
    } else {
        assert forall|j: int| 0 <= j < after.len() implies (#[trigger] after[j]).key != other by {
            if j < list.len() {
                assert(list[j].key != other);
            }
        }
    }
}

/// Of two updates of one key, the later one wins.
pub proof fn later_update_wins(
    list: Seq<AttributeView>,
    key: Seq<char>,
    earlier: Seq<char>,
    later: Seq<char>,
)
    ensures
        updated(updated(list, key, earlier), key, later) == updated(list, key, later),
{
    let once = updated(list, key, earlier);
    let i = if has_key(list, key) {
        lemma_first_exists(list, key);
        first_index(list, key)
    } else {
        list.len() as int
    };
    assert forall|j: int| 0 <= j < i implies (#[trigger] once[j]).key != key by {
        assert(once[j] == list[j]);
    }
    lemma_first_is(once, key, i);
    assert(updated(once, key, later) =~= updated(list, key, later));
}

/// An update changes no key and moves no attribute; it adds one exactly where the key was not
/// there.
pub proof fn update_keeps_keys(list: Seq<AttributeView>, key: Seq<char>, value: Seq<char>)
    ensures
        updated(list, key, value).len() == list.len() + (if has_key(list, key) {
            0int
        } else {
            1int
        }),
        forall|i: int|
            0 <= i < list.len() ==> (#[trigger] updated(list, key, value)[i]).key == list[i].key,
        forall|i: int|
            0 <= i < list.len() && list[i].key != key ==> #[trigger] updated(list, key, value)[i]
                == list[i],
{
    if has_key(list, key) {
        lemma_first_exists(list, key);
    }
}

/// An update that writes what is already there changes nothing.
pub proof fn same_update_changes_nothing(list: Seq<AttributeView>, key: Seq<char>)
    requires
        has_key(list, key),
    ensures
        updated(list, key, first_value(list, key)->0) == list,
{
    lemma_first_exists(list, key);
    assert(updated(list, key, first_value(list, key)->0) =~= list);
}

/// Where no two attributes share a key, a pass over the list finds what an update of that key
/// wrote, and no two attributes share it afterwards.
pub proof fn pass_finds_update(list: Seq<AttributeView>, key: Seq<char>, value: Seq<char>)
    requires
        at_most_one(list, key),
    ensures
        last_value(updated(list, key, value), key) == Some(value),
        at_most_one(updated(list, key, value), key),
{
    let after = updated(list, key, value);
    let i = if has_key(list, key) {
        lemma_first_exists(list, key);
        first_index(list, key)
    } else {
        list.len() as int
    };
    assert forall|j: int| 0 <= j < after.len() && j != i implies (#[trigger] after[j]).key
        != key by {
        assert(after[j] == list[j]);
        if i < list.len() {
            assert(list[i].key == key);
        }
    }
    lemma_last_value_is(after, key, i);
}

/// The value of the only attribute with a key is the last value.
pub(crate) proof fn lemma_last_value_is(list: Seq<AttributeView>, key: Seq<char>, i: int)
    requires
        0 <= i < list.len(),
        list[i].key == key,
        forall|j: int| i < j < list.len() ==> (#[trigger] list[j]).key != key,
    ensures
        last_value(list, key) == Some(list[i].value),
    decreases list.len(),
{
    if i < list.len() - 1 {
        let front = list.drop_last();
        assert forall|j: int| i < j < front.len() implies (#[trigger] front[j]).key != key by {
            assert(front[j] == list[j]);
        }
        lemma_last_value_is(front, key, i);
    }
}

/// Lists of one length that agree on the attributes with a key have the same last value of it.
proof fn lemma_last_value_agrees(a: Seq<AttributeView>, b: Seq<AttributeView>, key: Seq<char>)
    requires
        a.len() == b.len(),
        forall|j: int|
            #![trigger a[j]]
            #![trigger b[j]]
            0 <= j < a.len() ==> a[j] == b[j] || (a[j].key != key && b[j].key != key),
    ensures
        last_value(a, key) == last_value(b, key),
    decreases a.len(),
{
    if a.len() > 0 {
        assert(a.last() == a[a.len() - 1] && b.last() == b[b.len() - 1]);
        lemma_last_value_agrees(a.drop_last(), b.drop_last(), key);
    }
}

} // verus!
