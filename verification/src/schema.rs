//! The schema projector.
//!
//! A schema document advertised to the remote service must be self-contained:
//! the service cannot dereference pointers-by-name inside a schema, so every
//! reference-indirection node is replaced by a copy of the definition it
//! names, and the container of shared sub-definitions is renamed from the
//! schema standard's `definitions` key to the `$defs` key the service
//! recognizes.
//!
//! Inlining is a tree walk with a fuel bound of one unit per held definition,
//! which fully resolves every acyclic reference chain. A reference that names
//! no held definition, or that can only be reached by expanding a definition
//! through itself (recursive shapes are unsupported), is replaced by the
//! empty, unconstraining schema object.

use vstd::prelude::*;

use crate::json::{
    entries_view, items_view, lemma_entries_view, lemma_items_view, JsonValue, JsonView,
};

verus! {

/// Failure of schema validation at construction time.
///
/// A schema document's root must be an object; anything else indicates a bug
/// in the shape definition handed in, and construction is refused.
#[derive(Debug, Clone, Copy, PartialEq, Eq)]
pub enum SchemaError {
    RootNotObject,
}

/// Whether a document contains no reference-indirection nodes.
pub open spec fn spec_ref_free(v: JsonView) -> bool
    decreases v,
{
    match v {
        JsonView::Ref(_) => false,
        JsonView::Arr(items) => forall|i: int|
            0 <= i < items.len() ==> spec_ref_free(#[trigger] items[i]),
        JsonView::Obj(entries) => forall|i: int|
            0 <= i < entries.len() ==> spec_ref_free(#[trigger] entries[i].1),
        _ => true,
    }
}

/// Whether an entry list holds the key.
pub open spec fn spec_has_key(entries: Seq<(Seq<char>, JsonView)>, key: Seq<char>) -> bool {
    exists|i: int| 0 <= i < entries.len() && entries[i].0 == key
}

/// The value under the first entry with the key, if any.
pub open spec fn spec_lookup(entries: Seq<(Seq<char>, JsonView)>, key: Seq<char>) -> Option<
    JsonView,
>
    decreases entries.len(),
{
    if entries.len() == 0 {
        None
    } else if entries[0].0 == key {
        Some(entries[0].1)
    } else {
        spec_lookup(entries.subrange(1, entries.len() as int), key)
    }
}

/// A prefix holding no match does not change the lookup's result.
proof fn lemma_lookup_skip(entries: Seq<(Seq<char>, JsonView)>, key: Seq<char>, n: int)
    requires
        0 <= n <= entries.len(),
        forall|j: int| 0 <= j < n ==> entries[j].0 != key,
    ensures
        spec_lookup(entries, key) == spec_lookup(
            entries.subrange(n, entries.len() as int),
            key,
        ),
    decreases n,
{
    if n == 0 {
        assert(entries.subrange(0, entries.len() as int) =~= entries);
    } else {
        let rest = entries.subrange(1, entries.len() as int);
        assert(entries[0].0 != key);
        assert forall|j: int| 0 <= j < n - 1 implies rest[j].0 != key by {
            assert(rest[j] == entries[j + 1]);
        }
        lemma_lookup_skip(rest, key, n - 1);
        assert(rest.subrange(n - 1, rest.len() as int) =~= entries.subrange(
            n,
            entries.len() as int,
        ));
    }
}

/// The document with every reference-indirection node resolved, spending one
/// unit of fuel per expansion. A reference that names no definition, or that
/// is reached with no fuel left, becomes the empty schema object.
pub open spec fn spec_inline(
    v: JsonView,
    defs: Seq<(Seq<char>, JsonView)>,
    fuel: nat,
) -> JsonView
    decreases fuel, v,
{
    match v {
        JsonView::Ref(name) => {
            if fuel > 0 {
                match spec_lookup(defs, name) {
                    Some(d) => spec_inline(d, defs, (fuel - 1) as nat),
                    None => JsonView::Obj(Seq::empty()),
                }
            } else {
                JsonView::Obj(Seq::empty())
            }
        },
        JsonView::Arr(items) => JsonView::Arr(spec_inline_seq(items, defs, fuel)),
        JsonView::Obj(entries) => JsonView::Obj(spec_inline_entries(entries, defs, fuel)),
        _ => v,
    }
}

/// Element-wise inlining of an array's items.
pub open spec fn spec_inline_seq(
    items: Seq<JsonView>,
    defs: Seq<(Seq<char>, JsonView)>,
    fuel: nat,
) -> Seq<JsonView>
    decreases fuel, items,
{
    if items.len() == 0 {
        Seq::empty()
    } else {
        seq![spec_inline(items[0], defs, fuel)] + spec_inline_seq(
            items.subrange(1, items.len() as int),
            defs,
            fuel,
        )
    }
}

/// Entry-wise inlining of an object's values; keys are kept.
pub open spec fn spec_inline_entries(
    entries: Seq<(Seq<char>, JsonView)>,
    defs: Seq<(Seq<char>, JsonView)>,
    fuel: nat,
) -> Seq<(Seq<char>, JsonView)>
    decreases fuel, entries,
{
    if entries.len() == 0 {
        Seq::empty()
    } else {
        seq![(entries[0].0, spec_inline(entries[0].1, defs, fuel))] + spec_inline_entries(
            entries.subrange(1, entries.len() as int),
            defs,
            fuel,
        )
    }
}

/// Inlined items, element by element.
pub proof fn lemma_inline_seq_props(
    items: Seq<JsonView>,
    defs: Seq<(Seq<char>, JsonView)>,
    fuel: nat,
)
    ensures
        spec_inline_seq(items, defs, fuel).len() == items.len(),
        forall|i: int|
            0 <= i < items.len() ==> #[trigger] spec_inline_seq(items, defs, fuel)[i]
                == spec_inline(items[i], defs, fuel),
    decreases items.len(),
{
    if items.len() > 0 {
        let rest = items.subrange(1, items.len() as int);
        lemma_inline_seq_props(rest, defs, fuel);
        let out = spec_inline_seq(items, defs, fuel);
        assert(out == seq![spec_inline(items[0], defs, fuel)] + spec_inline_seq(
            rest,
            defs,
            fuel,
        ));
        assert forall|i: int| 0 <= i < items.len() implies #[trigger] out[i] == spec_inline(
            items[i],
            defs,
            fuel,
        ) by {
            if i > 0 {
                assert(out[i] == spec_inline_seq(rest, defs, fuel)[i - 1]);
                assert(rest[i - 1] == items[i]);
            }
        }
    }
}

/// Inlined entries, entry by entry: keys kept, values inlined.
pub proof fn lemma_inline_entries_props(
    entries: Seq<(Seq<char>, JsonView)>,
    defs: Seq<(Seq<char>, JsonView)>,
    fuel: nat,
)
    ensures
        spec_inline_entries(entries, defs, fuel).len() == entries.len(),
        forall|i: int|
            0 <= i < entries.len() ==> #[trigger] spec_inline_entries(entries, defs, fuel)[i]
                == (entries[i].0, spec_inline(entries[i].1, defs, fuel)),
    decreases entries.len(),
{
    if entries.len() > 0 {
        let rest = entries.subrange(1, entries.len() as int);
        lemma_inline_entries_props(rest, defs, fuel);
        let out = spec_inline_entries(entries, defs, fuel);
        assert(out == seq![(entries[0].0, spec_inline(entries[0].1, defs, fuel))]
            + spec_inline_entries(rest, defs, fuel));
        assert forall|i: int| 0 <= i < entries.len() implies #[trigger] out[i] == (
            entries[i].0,
            spec_inline(entries[i].1, defs, fuel),
        ) by {
            if i > 0 {
                assert(out[i] == spec_inline_entries(rest, defs, fuel)[i - 1]);
                assert(rest[i - 1] == entries[i]);
            }
        }
    }
}

/// Inlining leaves no reference-indirection node behind, whatever the
/// document, the definitions and the fuel.
pub proof fn lemma_inline_ref_free(v: JsonView, defs: Seq<(Seq<char>, JsonView)>, fuel: nat)
    ensures
        spec_ref_free(spec_inline(v, defs, fuel)),
    decreases fuel, v,
{
    match v {
        JsonView::Ref(name) => {
            if fuel > 0 {
                match spec_lookup(defs, name) {
                    Some(d) => {
                        lemma_inline_ref_free(d, defs, (fuel - 1) as nat);
                    },
                    None => {
                        assert(spec_ref_free(JsonView::Obj(Seq::empty())));
                    },
                }
            } else {
                assert(spec_ref_free(JsonView::Obj(Seq::empty())));
            }
        },
        JsonView::Arr(items) => {
            lemma_inline_seq_props(items, defs, fuel);
            let out = spec_inline_seq(items, defs, fuel);
            assert forall|i: int| 0 <= i < out.len() implies spec_ref_free(#[trigger] out[i]) by {
                assert(decreases_to!(v => items));
                assert(decreases_to!(items => items[i]));
                lemma_inline_ref_free(items[i], defs, fuel);
            }
        },
        JsonView::Obj(entries) => {
            lemma_inline_entries_props(entries, defs, fuel);
            let out = spec_inline_entries(entries, defs, fuel);
            assert forall|i: int| 0 <= i < out.len() implies spec_ref_free(
                #[trigger] out[i].1,
            ) by {
                assert(decreases_to!(v => entries));
                assert(decreases_to!(entries => entries[i]));
                assert(decreases_to!(entries[i] => entries[i].1));
                lemma_inline_ref_free(entries[i].1, defs, fuel);
            }
        },
        _ => {},
    }
}

/// The shared sub-definitions held by a document: the entries of the object
/// under the root's `definitions` key, if there is one.
pub open spec fn spec_definitions(doc: JsonView) -> Seq<(Seq<char>, JsonView)> {
    match doc {
        JsonView::Obj(entries) => match spec_lookup(entries, "definitions"@) {
            Some(JsonView::Obj(defs)) => defs,
            _ => Seq::empty(),
        },
        _ => Seq::empty(),
    }
}

/// The whole document inlined against its own definitions, with one unit of
/// fuel per held definition.
pub open spec fn spec_inline_document(doc: JsonView) -> JsonView {
    spec_inline(doc, spec_definitions(doc), spec_definitions(doc).len())
}

/// The key under which a root entry goes on the wire.
pub open spec fn spec_rename_key(key: Seq<char>) -> Seq<char> {
    if key == "definitions"@ {
        "$defs"@
    } else {
        key
    }
}

/// Root entries with the definitions container renamed.
pub open spec fn spec_rename_entries(entries: Seq<(Seq<char>, JsonView)>) -> Seq<
    (Seq<char>, JsonView),
> {
    entries.map_values(|e: (Seq<char>, JsonView)| (spec_rename_key(e.0), e.1))
}

/// The document as transmitted: its root `definitions` key renamed to `$defs`.
/// A document whose root is not an object is left as it stands.
pub open spec fn spec_rename_root(doc: JsonView) -> JsonView {
    match doc {
        JsonView::Obj(entries) => JsonView::Obj(spec_rename_entries(entries)),
        _ => doc,
    }
}

/// The full projection of a schema document: inlined, then renamed.
pub open spec fn spec_project(doc: JsonView) -> JsonView {
    spec_rename_root(spec_inline_document(doc))
}

/// The value under the first entry with the key, if any.
fn lookup_value<'a>(entries: &'a Vec<(String, JsonValue)>, key: &String) -> (r: Option<
    &'a JsonValue,
>)
    ensures
        ({
            match r {
                Some(v) => spec_lookup(entries_view(entries@), key@) == Some(v@),
                None => spec_lookup(entries_view(entries@), key@) is None,
            }
        }),
{
    let n = entries.len();
    let mut i: usize = 0;
    while i < n
        invariant
            i <= n,
            n == entries@.len(),
            forall|j: int| 0 <= j < i ==> entries@[j].0@ != key@,
        decreases n - i,
    {
        if entries[i].0 == *key {
            proof {
                let ev = entries_view(entries@);
                lemma_entries_view(entries@);
                lemma_lookup_skip(ev, key@, i as int);
                assert(ev.subrange(i as int, ev.len() as int)[0] == ev[i as int]);
            }
            return Some(&entries[i].1);
        }
        i = i + 1;
    }
    proof {
        let ev = entries_view(entries@);
        lemma_entries_view(entries@);
        lemma_lookup_skip(ev, key@, n as int);
        assert(ev.subrange(n as int, ev.len() as int).len() == 0);
    }
    None
}

/// A copy of `v` with every reference-indirection node resolved against
/// `defs`, spending one unit of fuel per expansion.
#[verifier::loop_isolation(false)]
fn inline_value(v: &JsonValue, defs: &Vec<(String, JsonValue)>, fuel: usize) -> (r: JsonValue)
    ensures
        r@ == spec_inline(v@, entries_view(defs@), fuel as nat),
    decreases fuel, *v,
{
    let ghost dv = entries_view(defs@);
    match v {
        JsonValue::Null => JsonValue::Null,
        JsonValue::Bool(b) => JsonValue::Bool(*b),
        JsonValue::Int(i) => JsonValue::Int(*i),
        JsonValue::Text(s) => JsonValue::Text(s.clone()),
        JsonValue::Ref(name) => {
            if fuel > 0 {
                match lookup_value(defs, name) {
                    Some(d) => inline_value(d, defs, fuel - 1),
                    None => JsonValue::Obj(Vec::new()),
                }
            } else {
                JsonValue::Obj(Vec::new())
            }
        },
        JsonValue::Arr(items) => {
            let mut out: Vec<JsonValue> = Vec::new();
            let n = items.len();
            let mut i: usize = 0;
            while i < n
                invariant
                    i <= n,
                    n == items@.len(),
                    out@.len() == i,
                    dv == entries_view(defs@),
                    forall|j: int|
                        0 <= j < i ==> out@[j]@ == spec_inline(items@[j]@, dv, fuel as nat),
                decreases n - i,
            {
                proof {
                    crate::json::lemma_arr_elem_decreases(*v, i as int);
                }
                let child = inline_value(&items[i], defs, fuel);
                out.push(child);
                i = i + 1;
            }
            let r = JsonValue::Arr(out);
            proof {
                lemma_items_view(out@);
                lemma_items_view(items@);
                lemma_inline_seq_props(items_view(items@), dv, fuel as nat);
                assert(items_view(out@) =~= spec_inline_seq(
                    items_view(items@),
                    dv,
                    fuel as nat,
                ));
            }
            r
        },
        JsonValue::Obj(entries) => {
            let mut out: Vec<(String, JsonValue)> = Vec::new();
            let n = entries.len();
            let mut i: usize = 0;
            while i < n
                invariant
                    i <= n,
                    n == entries@.len(),
                    out@.len() == i,
                    dv == entries_view(defs@),
                    forall|j: int|
                        0 <= j < i ==> out@[j].0@ == entries@[j].0@ && out@[j].1@ == spec_inline(
                            entries@[j].1@,
                            dv,
                            fuel as nat,
                        ),
                decreases n - i,
            {
                proof {
                    crate::json::lemma_obj_elem_decreases(*v, i as int);
                }
                let key = entries[i].0.clone();
                let child = inline_value(&entries[i].1, defs, fuel);
                out.push((key, child));
                i = i + 1;
            }
            let r = JsonValue::Obj(out);
            proof {
                lemma_entries_view(out@);
                lemma_entries_view(entries@);
                lemma_inline_entries_props(entries_view(entries@), dv, fuel as nat);
                assert(entries_view(out@) =~= spec_inline_entries(
                    entries_view(entries@),
                    dv,
                    fuel as nat,
                ));
            }
            r
        },
    }
}

/// A copy of an object-rooted document with every reference-indirection node
/// resolved against the document's own definitions container.
pub(crate) fn inline_document(schema: &JsonValue) -> (r: JsonValue)
    requires
        schema@ is Obj,
    ensures
        r@ == spec_inline_document(schema@),
{
    match schema {
        JsonValue::Obj(entries) => {
            let defs_key: String = "definitions".to_owned();
            let empty_defs: Vec<(String, JsonValue)> = Vec::new();
            let defs: &Vec<(String, JsonValue)> = match lookup_value(entries, &defs_key) {
                Some(v) => match v {
                    JsonValue::Obj(d) => {
                        proof {
                            assert(entries_view(d@) == spec_definitions(schema@));
                        }
                        d
                    },
                    _ => {
                        proof {
                            assert(!(v@ is Obj));
                            assert(entries_view(empty_defs@) == spec_definitions(schema@));
                        }
                        &empty_defs
                    },
                },
                None => {
                    proof {
                        assert(entries_view(empty_defs@) == spec_definitions(schema@));
                    }
                    &empty_defs
                },
            };
            proof {
                assert(entries_view(defs@) == spec_definitions(schema@));
            }
            let fuel = defs.len();
            proof {
                lemma_entries_view(defs@);
                assert(fuel as nat == spec_definitions(schema@).len());
            }
            inline_value(schema, defs, fuel)
        },
        _ => {
            proof {
                assert(false);
            }
            JsonValue::Null
        },
    }
}

/// A schema document validated for transmission: its root is an object.
///
/// Built either by [`JsonStructure::new`], which resolves every reference
/// node (the wire document is then fully self-contained), or by
/// [`JsonStructure::from_schema`], which holds a pre-built document exactly
/// as given.
#[derive(Debug, PartialEq, Eq)]
pub struct JsonStructure {
    schema: JsonValue,
}

impl View for JsonStructure {
    type V = JsonView;

    closed spec fn view(&self) -> JsonView {
        self.schema@
    }
}

impl JsonStructure {
    #[verifier::type_invariant]
    spec fn wf(&self) -> bool {
        self.schema@ is Obj
    }

    /// Validates and projects a schema document: the root must be an object,
    /// and every reference-indirection node is resolved in place.
    pub fn new(schema: JsonValue) -> (r: Result<JsonStructure, SchemaError>)
        ensures
            schema@ is Obj <==> r is Ok,
            r matches Ok(js) ==> js@ == spec_inline_document(schema@),
            r matches Err(e) ==> e == SchemaError::RootNotObject,
    {
        if schema.is_object() {
            let inlined = inline_document(&schema);
            proof {
                assert(inlined@ is Obj);
            }
            Ok(JsonStructure { schema: inlined })
        } else {
            Err(SchemaError::RootNotObject)
        }
    }

    /// Holds a pre-built schema document exactly as given, bypassing
    /// projection; only the root is validated to be an object.
    pub fn from_schema(schema: JsonValue) -> (r: Result<JsonStructure, SchemaError>)
        ensures
            schema@ is Obj <==> r is Ok,
            r matches Ok(js) ==> js@ == schema@,
            r matches Err(e) ==> e == SchemaError::RootNotObject,
    {
        match &schema {
            JsonValue::Obj(_) => Ok(JsonStructure { schema }),
            _ => Err(SchemaError::RootNotObject),
        }
    }

    /// The document as transmitted: the held schema with its root
    /// `definitions` key renamed to `$defs`.
    pub open spec fn spec_wire_value(&self) -> JsonView {
        spec_rename_root(self@)
    }

    /// The wire form of the held schema document.
    pub fn wire_value(&self) -> (r: JsonValue)
        ensures
            r@ == self.spec_wire_value(),
    {
        rename_document(&self.schema)
    }
}

/// A copy of the document with its root `definitions` key renamed to
/// `$defs`; a document whose root is not an object is copied as it stands.
#[verifier::loop_isolation(false)]
pub fn rename_document(doc: &JsonValue) -> (r: JsonValue)
    ensures
        r@ == spec_rename_root(doc@),
{
    match doc {
        JsonValue::Obj(entries) => {
            let defs_key: String = "definitions".to_owned();
            let mut out: Vec<(String, JsonValue)> = Vec::new();
            let n = entries.len();
            let mut i: usize = 0;
            while i < n
                invariant
                    i <= n,
                    n == entries@.len(),
                    out@.len() == i,
                    defs_key@ == "definitions"@,
                    forall|j: int|
                        0 <= j < i ==> out@[j].0@ == spec_rename_key(entries@[j].0@)
                            && out@[j].1@ == entries@[j].1@,
                decreases n - i,
            {
                let key: String = if entries[i].0 == defs_key {
                    "$defs".to_owned()
                } else {
                    entries[i].0.clone()
                };
                let child = entries[i].1.deep_copy();
                out.push((key, child));
                i = i + 1;
            }
            let r = JsonValue::Obj(out);
            proof {
                lemma_entries_view(out@);
                lemma_entries_view(entries@);
                assert(entries_view(out@) =~= spec_rename_entries(entries_view(entries@)));
            }
            r
        },
        _ => doc.deep_copy(),
    }
}

/// Law: projecting any object-rooted schema document yields a wire document
/// with zero reference-indirection nodes, whose root never holds a
/// `definitions` key, and holds a `$defs` key wherever the input held a
/// `definitions` key.
pub proof fn lemma_projection_shape(doc: JsonView)
    requires
        doc is Obj,
    ensures
        spec_ref_free(spec_project(doc)),
        spec_project(doc) is Obj,
        !spec_has_key(spec_project(doc)->Obj_0, "definitions"@),
        spec_has_key(doc->Obj_0, "definitions"@) ==> spec_has_key(
            spec_project(doc)->Obj_0,
            "$defs"@,
        ),
{
    let defs = spec_definitions(doc);
    let inlined = spec_inline_document(doc);
    lemma_inline_ref_free(doc, defs, defs.len());
    lemma_inline_entries_props(doc->Obj_0, defs, defs.len());
    let ie = inlined->Obj_0;
    let w = spec_project(doc);
    let we = w->Obj_0;
    reveal_strlit("definitions");
    reveal_strlit("$defs");
    assert("$defs"@.len() != "definitions"@.len());
    assert(we.len() == ie.len());
    assert forall|i: int| 0 <= i < we.len() implies we[i].0 != "definitions"@ by {
        assert(we[i] == (spec_rename_key(ie[i].0), ie[i].1));
    }
    assert(spec_ref_free(w)) by {
        assert forall|i: int| 0 <= i < we.len() implies spec_ref_free(#[trigger] we[i].1) by {
            assert(we[i] == (spec_rename_key(ie[i].0), ie[i].1));
            assert(spec_ref_free(ie[i].1));
        }
    }
    if spec_has_key(doc->Obj_0, "definitions"@) {
        let i = choose|i: int|
            0 <= i < doc->Obj_0.len() && doc->Obj_0[i].0 == "definitions"@;
        assert(ie[i].0 == "definitions"@);
        assert(we[i] == (spec_rename_key(ie[i].0), ie[i].1));
        assert(we[i].0 == "$defs"@);
    }
}

} // verus!
