//! JSON documents as trees of plain values.

use vstd::prelude::*;

verus! {

/// A JSON value.
#[derive(Debug)]
pub enum Json {
    Null,
    Bool(bool),
    /// A number. `None` stands for any number that is no unsigned 64-bit
    /// integer; such a number is read, and never written.
    Number(Option<u64>),
    Text(String),
    Array(Vec<Json>),
    /// The fields of an object, in the order in which they are kept.
    Object(Vec<(String, Json)>),
}

/// The mathematical value of a [`Json`] tree.
pub ghost enum JsonView {
    Null,
    Bool(bool),
    Number(Option<u64>),
    Text(Seq<char>),
    Array(Seq<JsonView>),
    Object(Seq<(Seq<char>, JsonView)>),
}

impl View for Json {
    type V = JsonView;

    open spec fn view(&self) -> JsonView
        decreases self,
    {
        match self {
            Json::Null => JsonView::Null,
            Json::Bool(b) => JsonView::Bool(*b),
            Json::Number(n) => JsonView::Number(*n),
            Json::Text(s) => JsonView::Text(s@),
            Json::Array(items) => JsonView::Array(
                Seq::new(
                    items@.len(),
                    |i: int|
                        if 0 <= i < items@.len() {
                            items@[i].view()
                        } else {
                            JsonView::Null
                        },
                ),
            ),
            Json::Object(fields) => JsonView::Object(
                Seq::new(
                    fields@.len(),
                    |i: int|
                        if 0 <= i < fields@.len() {
                            (fields@[i].0@, fields@[i].1.view())
                        } else {
                            (Seq::empty(), JsonView::Null)
                        },
                ),
            ),
        }
    }
}

/// The view of a list of values: the views of its members.
pub open spec fn items_view(items: Seq<Json>) -> Seq<JsonView> {
    Seq::new(items.len(), |i: int| items[i]@)
}

/// The view of a list of fields: the views of their keys and values.
pub open spec fn fields_view(fields: Seq<(String, Json)>) -> Seq<(Seq<char>, JsonView)> {
    Seq::new(fields.len(), |i: int| (fields[i].0@, fields[i].1@))
}

/// The view of an array is the list of the views of its members, and the
/// view of an object the list of the views of its fields.
pub proof fn lemma_view_of_lists(tree: Json)
    ensures
        tree matches Json::Array(items) ==> tree@ == JsonView::Array(items_view(items@)),
        tree matches Json::Object(fields) ==> tree@ == JsonView::Object(fields_view(fields@)),
{
    reveal_with_fuel(<Json as View>::view, 2);
    match tree {
        Json::Array(items) => {
            assert(tree@->Array_0 =~= items_view(items@));
        },
        Json::Object(fields) => {
            assert(tree@->Object_0 =~= fields_view(fields@));
        },
        _ => {},
    }
}

/// `at` is the first position of `fields` that carries `key`.
pub open spec fn is_first_key(fields: Seq<(Seq<char>, JsonView)>, key: Seq<char>, at: int) -> bool {
    &&& 0 <= at < fields.len()
    &&& fields[at].0 == key
    &&& forall|j: int| 0 <= j < at ==> (#[trigger] fields[j]).0 != key
}

/// The value of the first field that carries `key`, if any field does.
pub open spec fn lookup(fields: Seq<(Seq<char>, JsonView)>, key: Seq<char>) -> Option<JsonView> {
    if exists|at: int| is_first_key(fields, key, at) {
        Some(fields[choose|at: int| is_first_key(fields, key, at)].1)
    } else {
        None
    }
}

/// The first field that carries a key is the one that `lookup` finds.
pub proof fn lemma_lookup_found(fields: Seq<(Seq<char>, JsonView)>, key: Seq<char>, at: int)
    requires
        is_first_key(fields, key, at),
    ensures
        lookup(fields, key) == Some(fields[at].1),
{
    let chosen = choose|i: int| is_first_key(fields, key, i);
    if chosen < at {
        assert(fields[chosen].0 == key);
    } else if at < chosen {
        assert(fields[at].0 == key);
    }
}

/// Where no field carries a key, `lookup` finds nothing.
pub proof fn lemma_lookup_missing(fields: Seq<(Seq<char>, JsonView)>, key: Seq<char>)
    requires
        forall|j: int| 0 <= j < fields.len() ==> (#[trigger] fields[j]).0 != key,
    ensures
        lookup(fields, key) is None,
{
    if exists|at: int| is_first_key(fields, key, at) {
        let at = choose|at: int| is_first_key(fields, key, at);
        assert(fields[at].0 == key);
    }
}

/// Finds the value of the first field that carries `key`.
pub fn field<'a>(fields: &'a Vec<(String, Json)>, key: &str) -> (value: Option<&'a Json>)
    ensures
        match value {
            Some(found) => lookup(fields_view(fields@), key@) == Some(found@),
            None => lookup(fields_view(fields@), key@) is None,
        },
{
    let ghost entries = fields_view(fields@);
    let wanted = key.to_owned();
    let count = fields.len();
    let mut i: usize = 0;
    while i < count
        invariant
            i <= count,
            count == fields@.len(),
            entries == fields_view(fields@),
            wanted@ == key@,
            forall|j: int| 0 <= j < i ==> (#[trigger] entries[j]).0 != key@,
        decreases count - i,
    {
        if fields[i].0 == wanted {
            proof {
                assert(is_first_key(entries, key@, i as int));
                lemma_lookup_found(entries, key@, i as int);
            }
            return Some(&fields[i].1);
        }
        i += 1;
    }
    proof {
        lemma_lookup_missing(entries, key@);
    }
    None
}

} // verus!
