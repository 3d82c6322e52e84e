//! Tool capabilities, their descriptors, and the capability registry that
//! routes an incoming call-by-name request to the matching capability.
//!
//! A capability is registered once, advertised through its descriptor, and
//! called by name: the registry compares the requested name against each held
//! capability in registration order, and the first match is authoritative —
//! a decode failure of the matched capability is reported as such and never
//! falls through to a later capability, even one with the same name.

use vstd::prelude::*;

use crate::json::{entries_view, lemma_entries_view, JsonValue, JsonView};
use crate::schema::{
    inline_document, rename_document, spec_inline_document, spec_rename_root, SchemaError,
};

verus! {

/// A callable capability: a name, a description, a typed parameter shape
/// described by a schema document, and a call operation.
///
/// Implementors decode the untyped argument payload themselves (the payload
/// shape is theirs to define), so the trait carries the decode step next to
/// the call step; the registry drives both and classifies their failures.
pub trait Tool {
    /// The typed parameter shape consumed by the call operation.
    type Params;

    /// The capability's name, fixed for the capability's lifetime.
    ///
    /// A verified implementor overrides this ghost function (and its two
    /// siblings) to state the capability's identity; the default describes
    /// a nameless capability with an empty schema, which no overridden
    /// executable method can honour.
    open spec fn spec_name(&self) -> Seq<char> {
        Seq::empty()
    }

    /// The capability's description, fixed for the capability's lifetime.
    open spec fn spec_description(&self) -> Seq<char> {
        Seq::empty()
    }

    /// The schema document describing the parameter shape.
    open spec fn spec_parameters(&self) -> JsonView {
        JsonView::Obj(Seq::empty())
    }

    /// The name under which the capability is advertised and called.
    fn name(&self) -> (r: String)
        ensures
            r@ == self.spec_name(),
    ;

    /// The description advertised to the remote model.
    fn description(&self) -> (r: String)
        ensures
            r@ == self.spec_description(),
    ;

    /// The schema document for the parameter shape. Every parameter shape
    /// must be describable as a schema, whose root is always an object.
    fn parameters_schema(&self) -> (r: JsonValue)
        ensures
            r@ == self.spec_parameters(),
            r@ is Obj,
    ;

    /// Decodes the untyped argument payload into the parameter shape, or
    /// describes why the payload does not conform.
    fn decode(&self, arguments: &JsonValue) -> Result<Self::Params, String>;

    /// Executes the capability with decoded parameters, yielding a textual
    /// result for the model, or the capability's own failure.
    fn call(&mut self, parameters: Self::Params) -> Result<String, String>;
}

/// The advertised kind of a capability. The remote service knows one kind.
#[derive(Debug, Clone, Copy, PartialEq, Eq)]
pub enum ToolType {
    Function,
}

/// The advertised core of a descriptor: name, description and parameter
/// schema document.
#[derive(Debug, PartialEq, Eq)]
pub struct ToolFunctionInfo {
    pub name: String,
    pub description: String,
    pub parameters: JsonValue,
}

/// The model of a [`ToolFunctionInfo`].
pub struct ToolFunctionInfoView {
    pub name: Seq<char>,
    pub description: Seq<char>,
    pub parameters: JsonView,
}

impl View for ToolFunctionInfo {
    type V = ToolFunctionInfoView;

    open spec fn view(&self) -> ToolFunctionInfoView {
        ToolFunctionInfoView {
            name: self.name@,
            description: self.description@,
            parameters: self.parameters@,
        }
    }
}

/// A named, described, schema-bearing advertisement of one capability.
#[derive(Debug, PartialEq, Eq)]
pub struct ToolInfo {
    tool_type: ToolType,
    function: ToolFunctionInfo,
}

/// The model of a [`ToolInfo`].
pub struct ToolInfoView {
    pub tool_type: ToolType,
    pub function: ToolFunctionInfoView,
}

impl View for ToolInfo {
    type V = ToolInfoView;

    closed spec fn view(&self) -> ToolInfoView {
        ToolInfoView { tool_type: self.tool_type, function: self.function@ }
    }
}

/// The descriptor a capability is advertised under: its name, its
/// description, and its parameter schema with every reference inlined.
pub open spec fn spec_descriptor<T: Tool>(tool: T) -> ToolInfoView {
    ToolInfoView {
        tool_type: ToolType::Function,
        function: ToolFunctionInfoView {
            name: tool.spec_name(),
            description: tool.spec_description(),
            parameters: spec_inline_document(tool.spec_parameters()),
        },
    }
}

/// The descriptors of a list of capabilities, in order.
pub open spec fn spec_descriptors<T: Tool>(tools: Seq<T>) -> Seq<ToolInfoView> {
    tools.map_values(|t: T| spec_descriptor(t))
}

impl ToolInfo {
    /// Builds the descriptor of a capability: its parameter schema is
    /// projected so that the advertisement is self-contained.
    pub fn new<T: Tool>(tool: &T) -> (r: ToolInfo)
        ensures
            r@ == spec_descriptor(*tool),
    {
        let schema = tool.parameters_schema();
        let parameters = inline_document(&schema);
        ToolInfo {
            tool_type: ToolType::Function,
            function: ToolFunctionInfo {
                name: tool.name(),
                description: tool.description(),
                parameters,
            },
        }
    }

    /// Builds a descriptor around a pre-built schema document, bypassing
    /// projection; only the document's root is validated to be an object.
    pub fn from_schema(name: String, description: String, schema: JsonValue) -> (r: Result<
        ToolInfo,
        SchemaError,
    >)
        ensures
            schema@ is Obj <==> r is Ok,
            r matches Ok(info) ==> info@ == (ToolInfoView {
                tool_type: ToolType::Function,
                function: ToolFunctionInfoView {
                    name: name@,
                    description: description@,
                    parameters: schema@,
                },
            }),
            r matches Err(e) ==> e == SchemaError::RootNotObject,
    {
        if schema.is_object() {
            Ok(
                ToolInfo {
                    tool_type: ToolType::Function,
                    function: ToolFunctionInfo { name, description, parameters: schema },
                },
            )
        } else {
            Err(SchemaError::RootNotObject)
        }
    }

    /// The advertised core of the descriptor.
    pub fn function(&self) -> (r: &ToolFunctionInfo)
        ensures
            r@ == self@.function,
    {
        &self.function
    }

    /// The advertised name.
    pub fn name(&self) -> (r: &str)
        ensures
            r@ == self@.function.name,
    {
        self.function.name.as_str()
    }

    /// The advertised description.
    pub fn description(&self) -> (r: &str)
        ensures
            r@ == self@.function.description,
    {
        self.function.description.as_str()
    }

    /// The advertised parameter schema document.
    pub fn parameters(&self) -> (r: &JsonValue)
        ensures
            r@ == self@.function.parameters,
    {
        &self.function.parameters
    }

    /// The exact JSON value the descriptor is transmitted as.
    pub fn wire_value(&self) -> (r: JsonValue)
        ensures
            r@ == spec_descriptor_wire(self@),
    {
        let params = rename_document(&self.function.parameters);
        let mut inner: Vec<(String, JsonValue)> = Vec::new();
        inner.push(("name".to_owned(), JsonValue::Text(self.function.name.clone())));
        inner.push(
            ("description".to_owned(), JsonValue::Text(self.function.description.clone())),
        );
        inner.push(("parameters".to_owned(), params));
        let mut outer: Vec<(String, JsonValue)> = Vec::new();
        outer.push(("type".to_owned(), JsonValue::Text("function".to_owned())));
        outer.push(("function".to_owned(), JsonValue::Obj(inner)));
        let r = JsonValue::Obj(outer);
        proof {
            let iv = spec_descriptor_wire(self@)->Obj_0[1].1->Obj_0;
            lemma_entries_view(outer@);
            lemma_entries_view(outer@[1].1->Obj_0@);
            assert(entries_view(outer@[1].1->Obj_0@) =~= iv);
            assert(entries_view(outer@) =~= spec_descriptor_wire(self@)->Obj_0);
        }
        r
    }
}

/// The wire form of a descriptor: the advertised kind, then the name, the
/// description and the parameter schema (its definitions container renamed).
pub open spec fn spec_descriptor_wire(info: ToolInfoView) -> JsonView {
    JsonView::Obj(
        seq![
            ("type"@, JsonView::Text("function"@)),
            (
                "function"@,
                JsonView::Obj(
                    seq![
                        ("name"@, JsonView::Text(info.function.name)),
                        ("description"@, JsonView::Text(info.function.description)),
                        ("parameters"@, spec_rename_root(info.function.parameters)),
                    ],
                ),
            ),
        ],
    )
}

/// An incoming call-by-name request, as handed over by the transport layer.
#[derive(Debug, PartialEq, Eq)]
pub struct ToolCall {
    pub function: ToolCallFunction,
}

/// The name and untyped argument payload of an incoming call.
#[derive(Debug, PartialEq, Eq)]
pub struct ToolCallFunction {
    pub name: String,
    pub arguments: JsonValue,
}

/// Why a dispatch did not produce a capability's textual result.
#[derive(Debug, PartialEq, Eq)]
pub enum DispatchError {
    /// No held capability matches the requested name.
    UnknownToolName,
    /// The argument payload does not conform to the matched capability's
    /// parameter shape; the underlying decode problem is preserved.
    ArgumentDecodeFailed(String),
    /// The matched capability's own logic failed; the cause is preserved.
    ExecutionFailed(String),
}

/// Whether some capability in the list bears the name.
pub open spec fn spec_has_tool<T: Tool>(tools: Seq<T>, name: Seq<char>) -> bool {
    exists|i: int| 0 <= i < tools.len() && tools[i].spec_name() == name
}

/// The position of the first capability bearing the name (the list's length
/// where none does).
pub open spec fn spec_match_index<T: Tool>(tools: Seq<T>, name: Seq<char>) -> int
    decreases tools.len(),
{
    if tools.len() == 0 {
        0
    } else if tools[0].spec_name() == name {
        0
    } else {
        1 + spec_match_index(tools.subrange(1, tools.len() as int), name)
    }
}

/// Where a name is held, the first match is a proper position, bears the
/// name, and no earlier capability does.
pub proof fn lemma_match_index<T: Tool>(tools: Seq<T>, name: Seq<char>)
    requires
        spec_has_tool(tools, name),
    ensures
        ({
            let i = spec_match_index(tools, name);
            &&& 0 <= i < tools.len()
            &&& tools[i].spec_name() == name
            &&& forall|j: int| 0 <= j < i ==> tools[j].spec_name() != name
        }),
    decreases tools.len(),
{
    if tools.len() > 0 && tools[0].spec_name() != name {
        let rest = tools.subrange(1, tools.len() as int);
        let w = choose|w: int| 0 <= w < tools.len() && tools[w].spec_name() == name;
        assert(rest[w - 1] == tools[w]);
        assert(spec_has_tool(rest, name));
        lemma_match_index(rest, name);
        let i = spec_match_index(tools, name);
        assert(tools[i] == rest[i - 1]);
        assert forall|j: int| 0 <= j < i implies tools[j].spec_name() != name by {
            if j > 0 {
                assert(rest[j - 1] == tools[j]);
            }
        }
    }
}

/// Classifies what a matched capability's decode step produced: a conforming
/// payload passes through, a nonconforming one is an argument-decode failure.
pub fn decode_outcome<P>(r: Result<P, String>) -> (out: Result<P, DispatchError>)
    ensures
        r is Ok <==> out is Ok,
        r matches Ok(p) ==> out matches Ok(q) && q == p,
        r matches Err(m) ==> out == Err::<P, DispatchError>(
            DispatchError::ArgumentDecodeFailed(m),
        ),
{
    match r {
        Ok(p) => Ok(p),
        Err(m) => Err(DispatchError::ArgumentDecodeFailed(m)),
    }
}

/// Classifies what a matched capability's call operation produced: a textual
/// result passes through, the capability's own failure is an execution
/// failure — never an unknown name, and never a fallthrough.
pub fn call_outcome(r: Result<String, String>) -> (out: Result<String, DispatchError>)
    ensures
        r is Ok <==> out is Ok,
        r matches Ok(s) ==> out matches Ok(t) && t == s,
        r matches Err(m) ==> out == Err::<String, DispatchError>(
            DispatchError::ExecutionFailed(m),
        ),
{
    match r {
        Ok(s) => Ok(s),
        Err(m) => Err(DispatchError::ExecutionFailed(m)),
    }
}

/// A composable collection of capabilities that advertises descriptors and
/// routes incoming calls by name, first match first.
pub struct Registry<T: Tool> {
    tools: Vec<T>,
}

impl<T: Tool> View for Registry<T> {
    type V = Seq<T>;

    closed spec fn view(&self) -> Seq<T> {
        self.tools@
    }
}

impl<T: Tool> Registry<T> {
    /// The empty registry: it knows no name.
    pub fn new() -> (r: Self)
        ensures
            r@ == Seq::<T>::empty(),
    {
        Registry { tools: Vec::new() }
    }

    /// Registers one capability behind all already-held ones.
    pub fn register(&mut self, tool: T)
        ensures
            final(self)@ == old(self)@.push(tool),
    {
        self.tools.push(tool);
    }

    /// Composes another registry onto this one: the other's capabilities are
    /// held behind this one's, so this side takes call-matching precedence.
    pub fn compose(&mut self, other: Registry<T>)
        ensures
            final(self)@ == old(self)@ + other@,
    {
        let mut o = other;
        self.tools.append(&mut o.tools);
    }

    /// Appends every held capability's descriptor to `out`, in composition
    /// order.
    #[verifier::loop_isolation(false)]
    pub fn enumerate(&self, out: &mut Vec<ToolInfo>)
        ensures
            final(out)@.len() == old(out)@.len() + self@.len(),
            forall|k: int| 0 <= k < old(out)@.len() ==> final(out)@[k] == old(out)@[k],
            forall|k: int|
                #![trigger final(out)@[old(out)@.len() + k]]
                0 <= k < self@.len() ==> final(out)@[old(out)@.len() + k]@ == spec_descriptors(
                    self@,
                )[k],
    {
        let n = self.tools.len();
        let mut i: usize = 0;
        while i < n
            invariant
                i <= n,
                out@.len() == old(out)@.len() + i,
                forall|k: int| 0 <= k < old(out)@.len() ==> out@[k] == old(out)@[k],
                forall|k: int|
                    #![trigger out@[old(out)@.len() + k]]
                    0 <= k < i ==> out@[old(out)@.len() + k]@ == spec_descriptor(self@[k]),
            decreases n - i,
        {
            let info = ToolInfo::new(&self.tools[i]);
            out.push(info);
            i = i + 1;
        }
    }

    /// Routes an incoming call to the first capability bearing its name.
    ///
    /// The requested name is compared against each held capability in
    /// composition order. The first match is authoritative: its decode
    /// failure surfaces as [`DispatchError::ArgumentDecodeFailed`] and its
    /// call failure as [`DispatchError::ExecutionFailed`], with no
    /// fallthrough to any later capability; every other capability is left
    /// untouched. [`DispatchError::UnknownToolName`] comes back exactly when
    /// no held capability bears the name.
    #[verifier::loop_isolation(false)]
    pub fn dispatch(&mut self, call: &ToolCall) -> (r: Result<String, DispatchError>)
        ensures
            final(self)@.len() == old(self)@.len(),
            !spec_has_tool(old(self)@, call.function.name@) ==> r == Err::<
                String,
                DispatchError,
            >(DispatchError::UnknownToolName) && final(self)@ == old(self)@,
            spec_has_tool(old(self)@, call.function.name@) ==> ({
                let i = spec_match_index(old(self)@, call.function.name@);
                &&& !(r matches Err(DispatchError::UnknownToolName))
                &&& forall|j: int|
                    0 <= j < old(self)@.len() && j != i ==> final(self)@[j] == old(self)@[j]
            }),
    {
        let ghost ts = self.tools@;
        let ghost nm = call.function.name@;
        let n = self.tools.len();
        let mut i: usize = 0;
        while i < n
            invariant
                i <= n,
                self.tools@ == ts,
                forall|j: int| 0 <= j < i ==> ts[j].spec_name() != nm,
            decreases n - i,
        {
            let tool_name = self.tools[i].name();
            if tool_name == call.function.name {
                proof {
                    assert(spec_has_tool(ts, nm));
                    lemma_match_index(ts, nm);
                    let mi = spec_match_index(ts, nm);
                    assert(mi == i as int) by {
                        if mi < i as int {
                            assert(ts[mi].spec_name() != nm);
                        }
                        if mi > i as int {
                            assert(ts[i as int].spec_name() != nm);
                        }
                    }
                }
                let decoded = decode_outcome(self.tools[i].decode(&call.function.arguments));
                match decoded {
                    Err(e) => {
                        return Err(e);
                    },
                    Ok(params) => {
                        let tool = &mut self.tools[i];
                        let out = call_outcome(tool.call(params));
                        return out;
                    },
                }
            }
            i = i + 1;
        }
        proof {
            assert(!spec_has_tool(ts, nm));
        }
        Err(DispatchError::UnknownToolName)
    }
}

/// Law: in a registry of capabilities with pairwise-distinct names, a call
/// bearing capability `i`'s name matches exactly capability `i`, wherever it
/// stands among the others.
pub proof fn lemma_dispatch_routes_to_named<T: Tool>(tools: Seq<T>, i: int)
    requires
        0 <= i < tools.len(),
        forall|a: int, b: int|
            0 <= a < b < tools.len() ==> tools[a].spec_name() != tools[b].spec_name(),
    ensures
        spec_has_tool(tools, tools[i].spec_name()),
        spec_match_index(tools, tools[i].spec_name()) == i,
{
    let name = tools[i].spec_name();
    assert(spec_has_tool(tools, name));
    lemma_match_index(tools, name);
    let mi = spec_match_index(tools, name);
    if mi < i {
        assert(tools[mi].spec_name() != tools[i].spec_name());
    }
    if mi > i {
        assert(tools[i].spec_name() != name);
    }
}

/// Law: a name held by no capability of either side is unknown to their
/// composition.
pub proof fn lemma_compose_unknown<T: Tool>(a: Seq<T>, b: Seq<T>, name: Seq<char>)
    requires
        !spec_has_tool(a, name),
        !spec_has_tool(b, name),
    ensures
        !spec_has_tool(a + b, name),
{
    assert forall|i: int| 0 <= i < (a + b).len() implies (a + b)[i].spec_name() != name by {
        if i < a.len() {
            assert((a + b)[i] == a[i]);
        } else {
            assert((a + b)[i] == b[i - a.len()]);
        }
    }
}

/// Law: composition order defines call-matching precedence. A name held on
/// the left side matches where it matched there; the right side is reached
/// exactly where the left side would have reported an unknown name.
pub proof fn lemma_compose_precedence<T: Tool>(a: Seq<T>, b: Seq<T>, name: Seq<char>)
    ensures
        spec_has_tool(a + b, name) == (spec_has_tool(a, name) || spec_has_tool(b, name)),
        spec_has_tool(a, name) ==> spec_match_index(a + b, name) == spec_match_index(a, name),
        !spec_has_tool(a, name) && spec_has_tool(b, name) ==> spec_match_index(a + b, name)
            == a.len() + spec_match_index(b, name),
{
    assert(spec_has_tool(a + b, name) == (spec_has_tool(a, name) || spec_has_tool(b, name)))
        by {
        if spec_has_tool(a, name) {
            let i = choose|i: int| 0 <= i < a.len() && a[i].spec_name() == name;
            assert((a + b)[i] == a[i]);
        }
        if spec_has_tool(b, name) {
            let i = choose|i: int| 0 <= i < b.len() && b[i].spec_name() == name;
            assert((a + b)[a.len() + i] == b[i]);
        }
        if spec_has_tool(a + b, name) {
            let i = choose|i: int| 0 <= i < (a + b).len() && (a + b)[i].spec_name() == name;
            if i < a.len() {
                assert(a[i] == (a + b)[i]);
            } else {
                assert(b[i - a.len()] == (a + b)[i]);
            }
        }
    }
    if spec_has_tool(a, name) {
        lemma_match_index(a, name);
        lemma_match_index(a + b, name);
        let i = spec_match_index(a, name);
        let m = spec_match_index(a + b, name);
        assert((a + b)[i] == a[i]);
        if m < i {
            assert(a[m] == (a + b)[m]);
        }
    } else if spec_has_tool(b, name) {
        lemma_match_index(b, name);
        lemma_match_index(a + b, name);
        let i = spec_match_index(b, name);
        let m = spec_match_index(a + b, name);
        assert((a + b)[a.len() + i] == b[i]);
        if m < a.len() {
            assert(a[m] == (a + b)[m]);
        } else {
            assert(b[m - a.len()] == (a + b)[m]);
            if m - a.len() < i {
                assert(b[m - a.len()].spec_name() != name);
            }
            if m - a.len() > i {
                assert((a + b)[a.len() + i].spec_name() != name);
            }
        }
    }
}

/// Law: the descriptors of a composition are the concatenation, in
/// composition order, of the sides' descriptors.
pub proof fn lemma_descriptors_compose<T: Tool>(a: Seq<T>, b: Seq<T>)
    ensures
        spec_descriptors(a + b) == spec_descriptors(a) + spec_descriptors(b),
{
    assert(spec_descriptors(a + b) =~= spec_descriptors(a) + spec_descriptors(b));
}

} // verus!
