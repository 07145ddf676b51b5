//! Attribute lists: the key and value pairs that an asset or a collection carries.
//!
//! A list may hold a key more than once. Lookups and updates by key go to the first attribute
//! with that key; a pass over the whole list lets the last one win.

use vstd::prelude::*;

verus! {

/// One attribute of an asset or a collection.
#[derive(Debug, PartialEq, Eq)]
pub struct Attribute {
    pub key: String,
    pub value: String,
}

/// The attributes of an asset or a collection, in the order in which they are stored.
#[derive(Debug, PartialEq, Eq)]
pub struct Attributes {
    pub attribute_list: Vec<Attribute>,
}

/// What an attribute says, as text.
pub struct AttributeView {
    pub key: Seq<char>,
    pub value: Seq<char>,
}

impl View for Attribute {
    type V = AttributeView;

    open spec fn view(&self) -> AttributeView {
        AttributeView { key: self.key@, value: self.value@ }
    }
}

impl Clone for Attribute {
    fn clone(&self) -> (r: Self)
        ensures
            r@ == self@,
    {
        Attribute { key: self.key.clone(), value: self.value.clone() }
    }
}

/// What a list of attributes says.
pub open spec fn list_view(list: Seq<Attribute>) -> Seq<AttributeView> {
    Seq::new(list.len(), |i: int| list[i]@)
}

impl View for Attributes {
    type V = Seq<AttributeView>;

    open spec fn view(&self) -> Seq<AttributeView> {
        list_view(self.attribute_list@)
    }
}

impl Clone for Attributes {
    fn clone(&self) -> (r: Self)
        ensures
            r@ == self@,
    {
        let list: &Vec<Attribute> = &self.attribute_list;
        let mut copy: Vec<Attribute> = Vec::with_capacity(list.len());
        let mut i: usize = 0;
        while i < list.len()
            invariant
                i <= list.len(),
                copy.len() == i,
                forall|j: int| 0 <= j < i ==> (#[trigger] copy[j])@ == list[j]@,
            decreases list.len() - i,
        {
            copy.push(list[i].clone());
            i += 1;
        }
        assert(list_view(copy@) =~= list_view(list@));
        Attributes { attribute_list: copy }
    }
}

/// What an optional list of attributes says.
pub open spec fn optional_view(attributes: Option<Attributes>) -> Option<Seq<AttributeView>> {
    match attributes {
        Some(a) => Some(a@),
        None => None,
    }
}

/// Whether some attribute has the key `key`.
pub open spec fn has_key(list: Seq<AttributeView>, key: Seq<char>) -> bool {
    exists|i: int| 0 <= i < list.len() && (#[trigger] list[i]).key == key
}

/// Whether `i` is the position of the first attribute with the key `key`.
pub open spec fn is_first(list: Seq<AttributeView>, key: Seq<char>, i: int) -> bool {
    &&& 0 <= i < list.len()
    &&& list[i].key == key
    &&& forall|j: int| 0 <= j < i ==> (#[trigger] list[j]).key != key
}

/// The position of the first attribute with the key `key`, where there is one.
pub open spec fn first_index(list: Seq<AttributeView>, key: Seq<char>) -> int {
    choose|i: int| is_first(list, key, i)
}

/// The value of the first attribute with the key `key`.
pub open spec fn first_value(list: Seq<AttributeView>, key: Seq<char>) -> Option<Seq<char>> {
    if has_key(list, key) {
        Some(list[first_index(list, key)].value)
    } else {
        None
    }
}

/// The value of the last attribute with the key `key`.
pub open spec fn last_value(list: Seq<AttributeView>, key: Seq<char>) -> Option<Seq<char>>
    decreases list.len(),
{
    if list.len() == 0 {
        None
    } else if list.last().key == key {
        Some(list.last().value)
    } else {
        last_value(list.drop_last(), key)
    }
}

/// The list in which the first attribute with the key `key` has the value `value`; where no
/// attribute has that key, a new one stands at the end.
pub open spec fn updated(
    list: Seq<AttributeView>,
    key: Seq<char>,
    value: Seq<char>,
) -> Seq<AttributeView> {
    let attribute = AttributeView { key, value };
    if has_key(list, key) {
        list.update(first_index(list, key), attribute)
    } else {
        list.push(attribute)
    }
}

/// Whether no two attributes have the key `key`.
pub open spec fn at_most_one(list: Seq<AttributeView>, key: Seq<char>) -> bool {
    forall|i: int, j: int|
        #![trigger list[i], list[j]]
        0 <= i < j < list.len() ==> !(list[i].key == key && list[j].key == key)
}

/// There is only one first attribute with a key.
pub(crate) proof fn lemma_first_is(list: Seq<AttributeView>, key: Seq<char>, i: int)
    requires
        is_first(list, key, i),
    ensures
        has_key(list, key),
        first_index(list, key) == i,
        first_value(list, key) == Some(list[i].value),
{
    let k = first_index(list, key);
    assert(is_first(list, key, k));
    assert(list[i].key == key && list[k].key == key);
}

/// Where some attribute has a key, one of them is the first.
pub(crate) proof fn lemma_first_exists(list: Seq<AttributeView>, key: Seq<char>)
    requires
        has_key(list, key),
    ensures
        is_first(list, key, first_index(list, key)),
    decreases list.len(),
{
    let i = choose|i: int| 0 <= i < list.len() && (#[trigger] list[i]).key == key;
    lemma_first_below(list, key, i);
}

/// Counts down from a position with the key to the first one.
proof fn lemma_first_below(list: Seq<AttributeView>, key: Seq<char>, i: int)
    requires
        0 <= i < list.len(),
        list[i].key == key,
    ensures
        exists|k: int| is_first(list, key, k),
    decreases i,
{
    if forall|j: int| 0 <= j < i ==> (#[trigger] list[j]).key != key {
        assert(is_first(list, key, i));
    } else {
        let j = choose|j: int| 0 <= j < i && (#[trigger] list[j]).key == key;
        lemma_first_below(list, key, j);
    }
}

} // verus!
