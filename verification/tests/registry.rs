use std::cell::Cell;
use std::rc::Rc;

use ollama_tools::json::JsonValue;
use ollama_tools::schema::SchemaError;
use ollama_tools::tools::{
    DispatchError, Registry, Tool, ToolCall, ToolCallFunction, ToolInfo,
};

/// A capability for exercising the registry: it counts its invocations
/// through a shared cell, replies with a fixed result, and (optionally)
/// rejects any argument payload that is not an object.
struct ProbeTool {
    name: String,
    reply: Result<String, String>,
    calls: Rc<Cell<usize>>,
    strict: bool,
}

impl ProbeTool {
    fn new(name: &str, reply: &str) -> (Self, Rc<Cell<usize>>) {
        let calls = Rc::new(Cell::new(0));
        let tool = ProbeTool {
            name: name.to_string(),
            reply: Ok(reply.to_string()),
            calls: calls.clone(),
            strict: false,
        };
        (tool, calls)
    }

    fn failing(name: &str, message: &str) -> (Self, Rc<Cell<usize>>) {
        let calls = Rc::new(Cell::new(0));
        let tool = ProbeTool {
            name: name.to_string(),
            reply: Err(message.to_string()),
            calls: calls.clone(),
            strict: false,
        };
        (tool, calls)
    }

    fn strict(name: &str, reply: &str) -> (Self, Rc<Cell<usize>>) {
        let calls = Rc::new(Cell::new(0));
        let tool = ProbeTool {
            name: name.to_string(),
            reply: Ok(reply.to_string()),
            calls: calls.clone(),
            strict: true,
        };
        (tool, calls)
    }
}

impl Tool for ProbeTool {
    type Params = JsonValue;

    fn name(&self) -> String {
        self.name.clone()
    }

    fn description(&self) -> String {
        format!("probe capability {}", self.name)
    }

    fn parameters_schema(&self) -> JsonValue {
        JsonValue::Obj(vec![(
            "type".to_string(),
            JsonValue::Text("object".to_string()),
        )])
    }

    fn decode(&self, arguments: &JsonValue) -> Result<JsonValue, String> {
        if self.strict && !matches!(arguments, JsonValue::Obj(_)) {
            Err("arguments must be an object".to_string())
        } else {
            Ok(arguments.deep_copy())
        }
    }

    fn call(&mut self, _parameters: JsonValue) -> Result<String, String> {
        self.calls.set(self.calls.get() + 1);
        self.reply.clone()
    }
}

fn call_named(name: &str) -> ToolCall {
    ToolCall {
        function: ToolCallFunction {
            name: name.to_string(),
            arguments: JsonValue::Obj(vec![]),
        },
    }
}

#[test]
fn dispatch_routes_only_to_named_capability() {
    let (weather, weather_calls) = ProbeTool::new("get_weather", "sunny");
    let (time, time_calls) = ProbeTool::new("get_time", "12:00");
    let mut registry = Registry::new();
    registry.register(weather);
    let mut right = Registry::new();
    right.register(time);
    registry.compose(right);

    let result = registry.dispatch(&call_named("get_time"));
    assert_eq!(result, Ok("12:00".to_string()));
    assert_eq!(time_calls.get(), 1);
    assert_eq!(weather_calls.get(), 0);

    let result = registry.dispatch(&call_named("get_weather"));
    assert_eq!(result, Ok("sunny".to_string()));
    assert_eq!(time_calls.get(), 1);
    assert_eq!(weather_calls.get(), 1);
}

#[test]
fn dispatch_unknown_name_on_empty_registry() {
    let mut registry: Registry<ProbeTool> = Registry::new();
    let result = registry.dispatch(&call_named("anything"));
    assert_eq!(result, Err(DispatchError::UnknownToolName));
}

#[test]
fn dispatch_unknown_name_on_composed_registry() {
    let (weather, weather_calls) = ProbeTool::new("get_weather", "sunny");
    let (time, time_calls) = ProbeTool::new("get_time", "12:00");
    let mut registry = Registry::new();
    registry.register(weather);
    let mut right = Registry::new();
    right.register(time);
    registry.compose(right);

    let result = registry.dispatch(&call_named("unknown"));
    assert_eq!(result, Err(DispatchError::UnknownToolName));
    assert_eq!(weather_calls.get(), 0);
    assert_eq!(time_calls.get(), 0);
}

#[test]
fn dispatch_first_match_wins() {
    let (first, first_calls) = ProbeTool::new("twin", "first");
    let (second, second_calls) = ProbeTool::new("twin", "second");
    let mut registry = Registry::new();
    registry.register(first);
    registry.register(second);

    let result = registry.dispatch(&call_named("twin"));
    assert_eq!(result, Ok("first".to_string()));
    assert_eq!(first_calls.get(), 1);
    assert_eq!(second_calls.get(), 0);
}

#[test]
fn decode_failure_does_not_fall_through() {
    // "alpha" rejects non-object arguments; "omnivore" would accept them.
    // The name match on "alpha" is authoritative: the decode failure
    // surfaces and "omnivore" is never consulted.
    let (alpha, alpha_calls) = ProbeTool::strict("alpha", "typed");
    let (omnivore, omnivore_calls) = ProbeTool::new("omnivore", "anything");
    let mut registry = Registry::new();
    registry.register(alpha);
    registry.register(omnivore);

    let call = ToolCall {
        function: ToolCallFunction {
            name: "alpha".to_string(),
            arguments: JsonValue::Int(3),
        },
    };
    let result = registry.dispatch(&call);
    assert_eq!(
        result,
        Err(DispatchError::ArgumentDecodeFailed(
            "arguments must be an object".to_string()
        ))
    );
    assert_eq!(alpha_calls.get(), 0);
    assert_eq!(omnivore_calls.get(), 0);
}

#[test]
fn execution_failure_is_wrapped_and_preserved() {
    let (broken, broken_calls) = ProbeTool::failing("broken", "backend unreachable");
    let mut registry = Registry::new();
    registry.register(broken);

    let result = registry.dispatch(&call_named("broken"));
    assert_eq!(
        result,
        Err(DispatchError::ExecutionFailed("backend unreachable".to_string()))
    );
    assert_eq!(broken_calls.get(), 1);
}

#[test]
fn enumerate_concatenates_in_composition_order() {
    let (weather, _) = ProbeTool::new("get_weather", "sunny");
    let (time, _) = ProbeTool::new("get_time", "12:00");
    let (stock, _) = ProbeTool::new("get_stock", "flat");
    let mut registry = Registry::new();
    registry.register(weather);
    let mut right = Registry::new();
    right.register(time);
    right.register(stock);
    registry.compose(right);

    let mut infos: Vec<ToolInfo> = Vec::new();
    registry.enumerate(&mut infos);
    let names: Vec<&str> = infos.iter().map(|i| i.name()).collect();
    assert_eq!(names, vec!["get_weather", "get_time", "get_stock"]);

    // Enumerating again appends the same descriptors: no hidden state moved.
    let mut again: Vec<ToolInfo> = Vec::new();
    registry.enumerate(&mut again);
    assert_eq!(infos, again);

    // Enumerate appends, keeping what the list already held.
    registry.enumerate(&mut infos);
    assert_eq!(infos.len(), 6);
    assert_eq!(infos[..3], infos[3..]);
}

#[test]
fn descriptor_carries_name_description_and_schema() {
    let (weather, _) = ProbeTool::new("get_weather", "sunny");
    let info = ToolInfo::new(&weather);
    assert_eq!(info.name(), "get_weather");
    assert_eq!(info.description(), "probe capability get_weather");
    assert_eq!(
        info.parameters(),
        &JsonValue::Obj(vec![(
            "type".to_string(),
            JsonValue::Text("object".to_string()),
        )])
    );
    assert_eq!(info.function().name, "get_weather");
}

#[test]
fn descriptor_from_schema_requires_object_root() {
    let ok = ToolInfo::from_schema(
        "lookup".to_string(),
        "looks things up".to_string(),
        JsonValue::Obj(vec![]),
    );
    assert!(ok.is_ok());
    let err = ToolInfo::from_schema(
        "lookup".to_string(),
        "looks things up".to_string(),
        JsonValue::Text("not a schema".to_string()),
    );
    assert_eq!(err, Err(SchemaError::RootNotObject));
}

/// A capability whose schema shares a sub-shape through a reference node.
struct RefTool;

impl Tool for RefTool {
    type Params = JsonValue;

    fn name(&self) -> String {
        "with_refs".to_string()
    }

    fn description(&self) -> String {
        "a capability whose schema shares a sub-shape".to_string()
    }

    fn parameters_schema(&self) -> JsonValue {
        JsonValue::Obj(vec![
            (
                "definitions".to_string(),
                JsonValue::Obj(vec![("unit".to_string(), JsonValue::Obj(vec![]))]),
            ),
            ("unit".to_string(), JsonValue::Ref("unit".to_string())),
        ])
    }

    fn decode(&self, arguments: &JsonValue) -> Result<JsonValue, String> {
        Ok(arguments.deep_copy())
    }

    fn call(&mut self, _parameters: JsonValue) -> Result<String, String> {
        Ok("ok".to_string())
    }
}

fn contains_ref(v: &JsonValue) -> bool {
    match v {
        JsonValue::Ref(_) => true,
        JsonValue::Arr(items) => items.iter().any(contains_ref),
        JsonValue::Obj(entries) => entries.iter().any(|(_, c)| contains_ref(c)),
        _ => false,
    }
}

#[test]
fn descriptor_schema_is_inlined() {
    let info = ToolInfo::new(&RefTool);
    assert!(!contains_ref(info.parameters()));
}
