//! The document tree that schemas, tool-call arguments and wire values are
//! built from.
//!
//! The remote service speaks JSON; this module models the JSON values the
//! library reasons about as a plain tree. One extra node kind, [`JsonValue::Ref`],
//! stands for a reference-indirection node inside a schema document: a pointer,
//! by definition name, into the document's shared sub-schema container. The
//! schema projector removes every such node before a document goes on the wire.

use vstd::prelude::*;

verus! {

/// A JSON-like document tree.
///
/// Numbers are modelled as signed integers, which covers every value this
/// layer produces (schema bounds, the keep-alive sentinels). An object is an
/// ordered list of key/value entries, mirroring the order in which the wire
/// document lists them.
#[derive(Debug, PartialEq, Eq)]
pub enum JsonValue {
    Null,
    Bool(bool),
    Int(i64),
    Text(String),
    Arr(Vec<JsonValue>),
    Obj(Vec<(String, JsonValue)>),
    /// A reference-indirection node naming a shared sub-schema definition.
    Ref(String),
}

/// The mathematical model of a [`JsonValue`].
#[verifier::ext_equal]
pub enum JsonView {
    Null,
    Bool(bool),
    Int(int),
    Text(Seq<char>),
    Arr(Seq<JsonView>),
    Obj(Seq<(Seq<char>, JsonView)>),
    Ref(Seq<char>),
}

impl View for JsonValue {
    type V = JsonView;

    open spec fn view(&self) -> JsonView
        decreases self,
    {
        match self {
            JsonValue::Null => JsonView::Null,
            JsonValue::Bool(b) => JsonView::Bool(*b),
            JsonValue::Int(i) => JsonView::Int(*i as int),
            JsonValue::Text(s) => JsonView::Text(s@),
            JsonValue::Arr(items) => {
                proof {
                    assert(decreases_to!(*self => *items));
                    assert(decreases_to!(*items => items@));
                }
                JsonView::Arr(items_view(items@))
            },
            JsonValue::Obj(entries) => {
                proof {
                    assert(decreases_to!(*self => *entries));
                    assert(decreases_to!(*entries => entries@));
                }
                JsonView::Obj(entries_view(entries@))
            },
            JsonValue::Ref(target) => JsonView::Ref(target@),
        }
    }
}

/// The model of a list of array items.
pub open spec fn items_view(items: Seq<JsonValue>) -> Seq<JsonView>
    decreases items,
{
    if items.len() == 0 {
        Seq::empty()
    } else {
        seq![items[0]@] + items_view(items.subrange(1, items.len() as int))
    }
}

/// The model of a list of object entries.
pub open spec fn entries_view(entries: Seq<(String, JsonValue)>) -> Seq<(Seq<char>, JsonView)>
    decreases entries,
{
    if entries.len() == 0 {
        Seq::empty()
    } else {
        seq![(entries[0].0@, entries[0].1@)] + entries_view(
            entries.subrange(1, entries.len() as int),
        )
    }
}

/// The model of an item list, item by item.
pub proof fn lemma_items_view(items: Seq<JsonValue>)
    ensures
        items_view(items).len() == items.len(),
        forall|i: int| 0 <= i < items.len() ==> #[trigger] items_view(items)[i] == items[i]@,
    decreases items.len(),
{
    if items.len() > 0 {
        let rest = items.subrange(1, items.len() as int);
        lemma_items_view(rest);
        assert(items_view(items) == seq![items[0]@] + items_view(rest));
        assert forall|i: int| 0 <= i < items.len() implies #[trigger] items_view(items)[i]
            == items[i]@ by {
            if i > 0 {
                assert(items_view(items)[i] == items_view(rest)[i - 1]);
                assert(rest[i - 1] == items[i]);
            }
        }
    }
}

/// The model of an entry list, entry by entry.
pub proof fn lemma_entries_view(entries: Seq<(String, JsonValue)>)
    ensures
        entries_view(entries).len() == entries.len(),
        forall|i: int|
            0 <= i < entries.len() ==> #[trigger] entries_view(entries)[i] == (
                entries[i].0@,
                entries[i].1@,
            ),
    decreases entries.len(),
{
    if entries.len() > 0 {
        let rest = entries.subrange(1, entries.len() as int);
        lemma_entries_view(rest);
        assert(entries_view(entries) == seq![(entries[0].0@, entries[0].1@)] + entries_view(
            rest,
        ));
        assert forall|i: int|
            0 <= i < entries.len() implies #[trigger] entries_view(entries)[i] == (
            entries[i].0@,
            entries[i].1@,
        ) by {
            if i > 0 {
                assert(entries_view(entries)[i] == entries_view(rest)[i - 1]);
                assert(rest[i - 1] == entries[i]);
            }
        }
    }
}

/// An array value is structurally larger than each of its elements.
pub(crate) proof fn lemma_arr_elem_decreases(v: JsonValue, i: int)
    requires
        v matches JsonValue::Arr(_),
        0 <= i < v->Arr_0@.len(),
    ensures
        decreases_to!(v => v->Arr_0@[i]),
{
    assert(decreases_to!(v => v->Arr_0));
    assert(decreases_to!(v->Arr_0 => v->Arr_0@));
    assert(decreases_to!(v->Arr_0@ => v->Arr_0@[i]));
}

/// An object value is structurally larger than each of its entry values.
pub(crate) proof fn lemma_obj_elem_decreases(v: JsonValue, i: int)
    requires
        v matches JsonValue::Obj(_),
        0 <= i < v->Obj_0@.len(),
    ensures
        decreases_to!(v => v->Obj_0@[i].1),
{
    assert(decreases_to!(v => v->Obj_0));
    assert(decreases_to!(v->Obj_0 => v->Obj_0@));
    assert(decreases_to!(v->Obj_0@ => v->Obj_0@[i]));
    assert(decreases_to!(v->Obj_0@[i] => v->Obj_0@[i].1));
}

impl JsonValue {
    /// Whether this value is an object (a key/value mapping).
    pub fn is_object(&self) -> (r: bool)
        ensures
            r == (self@ is Obj),
    {
        match self {
            JsonValue::Obj(_) => true,
            _ => false,
        }
    }

    /// A structurally equal copy of the value.
    #[verifier::loop_isolation(false)]
    pub fn deep_copy(&self) -> (r: JsonValue)
        ensures
            r@ == self@,
        decreases *self,
    {
        match self {
            JsonValue::Null => JsonValue::Null,
            JsonValue::Bool(b) => JsonValue::Bool(*b),
            JsonValue::Int(i) => JsonValue::Int(*i),
            JsonValue::Text(s) => JsonValue::Text(s.clone()),
            JsonValue::Ref(target) => JsonValue::Ref(target.clone()),
            JsonValue::Arr(items) => {
                let mut out: Vec<JsonValue> = Vec::new();
                let n = items.len();
                let mut i: usize = 0;
                while i < n
                    invariant
                        i <= n,
                        out@.len() == i,
                        forall|j: int| 0 <= j < i ==> out@[j]@ == items@[j]@,
                    decreases n - i,
                {
                    proof {
                        lemma_arr_elem_decreases(*self, i as int);
                    }
                    let child = items[i].deep_copy();
                    out.push(child);
                    i = i + 1;
                }
                let r = JsonValue::Arr(out);
                proof {
                    lemma_items_view(out@);
                    lemma_items_view(items@);
                    assert(items_view(out@) =~= items_view(items@));
                }
                r
            },
            JsonValue::Obj(entries) => {
                let mut out: Vec<(String, JsonValue)> = Vec::new();
                let n = entries.len();
                let mut i: usize = 0;
                while i < n
                    invariant
                        i <= n,
                        out@.len() == i,
                        forall|j: int| 0 <= j < i ==> out@[j].0@ == entries@[j].0@
                            && out@[j].1@ == entries@[j].1@,
                    decreases n - i,
                {
                    proof {
                        lemma_obj_elem_decreases(*self, i as int);
                    }
                    let key = entries[i].0.clone();
                    let child = entries[i].1.deep_copy();
                    out.push((key, child));
                    i = i + 1;
                }
                let r = JsonValue::Obj(out);
                proof {
                    lemma_entries_view(out@);
                    lemma_entries_view(entries@);
                    assert(entries_view(out@) =~= entries_view(entries@));
                }
                r
            },
        }
    }
}

} // verus!
