//! MCP tools: what is served to coding agents (names, descriptions, input
//! parameters), which tool a call asks for, the parameters it requires,
//! and the result envelope (text, flagged as an error or not).
use vstd::prelude::*;
use crate::text::str_eq;

verus! {

/// A tool-call result: one text block, flagged when it reports a failure.
pub struct ToolResponse {
    pub text: String,
    pub is_error: bool,
}

/// Wraps a payload (already rendered as text) as a successful result.
pub fn tool_result(text: String) -> (r: ToolResponse)
    ensures
        r.text == text,
        !r.is_error,
{
    ToolResponse { text, is_error: false }
}

/// Wraps an error message as a failed result.
pub fn tool_error(message: &str) -> (r: ToolResponse)
    ensures
        r.text@ == message@,
        r.is_error,
{
    ToolResponse { text: String::from_str(message), is_error: true }
}

/// The three tools served to coding agents.
#[derive(PartialEq, Eq, Structural, Debug, Clone, Copy)]
pub enum ToolName {
    GetContext,
    CheckPattern,
    GetArchitecture,
}

pub open spec fn tool_name_text(t: ToolName) -> Seq<char> {
    match t {
        ToolName::GetContext => "get_context"@,
        ToolName::CheckPattern => "check_pattern"@,
        ToolName::GetArchitecture => "get_architecture"@,
    }
}

pub const GET_CONTEXT_DESCRIPTION: &'static str = "Get architectural decisions and constraints for a component. \
     Returns the component's decisions, project-wide rules, related \
     decisions from connected components, and a pre-assembled \
     authoritative brief. Use before generating code for any component.";

pub const COMPONENT_PARAM_DESCRIPTION: &'static str = "Component name, or \"project\" for project-wide context";

pub const TASK_PARAM_DESCRIPTION: &'static str = "What you are about to implement (included in the brief for context)";

pub const CHECK_PATTERN_DESCRIPTION: &'static str = "Check whether a pattern or approach is covered by existing \
     architectural decisions before introducing it. Returns \
     'covered' with relevant constraints, or 'not_covered' with a \
     suggestion to run `trurl design` first.";

pub const PATTERN_PARAM_DESCRIPTION: &'static str = "The pattern or approach to check \
     (e.g. \"adding Redis pub/sub for real-time notifications\")";

pub const GET_ARCHITECTURE_DESCRIPTION: &'static str = "Get a full overview of the system architecture: all components, \
     their connections, project-wide decisions, and decision counts.";

/// One input parameter of a tool: a string with a description.
pub struct ToolParam {
    pub name: String,
    pub description: String,
}

/// The JSON Schema type of every tool's input.
pub const INPUT_SCHEMA_TYPE: &'static str = "object";

/// A tool as listed to agents: its input (of JSON Schema type
/// `input_type`) is an object of string parameters, of which those in
/// `required` must be given.
pub struct ToolSpec {
    pub name: String,
    pub description: String,
    pub input_type: &'static str,
    pub params: Vec<ToolParam>,
    pub required: Vec<String>,
}

/// `spec` has the given name, description, parameters (name and
/// description, in order) and required parameter names.
pub open spec fn spec_is(
    spec: ToolSpec,
    name: Seq<char>,
    description: Seq<char>,
    params: Seq<(Seq<char>, Seq<char>)>,
    required: Seq<Seq<char>>,
) -> bool {
    &&& spec.name@ == name
    &&& spec.description@ == description
    &&& spec.input_type@ == INPUT_SCHEMA_TYPE@
    &&& spec.params@.len() == params.len()
    &&& forall|i: int| 0 <= i < params.len() ==> (#[trigger] spec.params@[i]).name@ == params[i].0
        && spec.params@[i].description@ == params[i].1
    &&& spec.required@.len() == required.len()
    &&& forall|i: int| 0 <= i < required.len() ==> (#[trigger] spec.required@[i])@ == required[i]
}

/// The tool of `tool_list` in position `i`: the three tools in the order
/// `get_context`, `check_pattern`, `get_architecture`.
pub open spec fn listed_tool(i: int) -> ToolName {
    if i == 0 {
        ToolName::GetContext
    } else if i == 1 {
        ToolName::CheckPattern
    } else {
        ToolName::GetArchitecture
    }
}

fn param(name: &str, description: &str) -> (p: ToolParam)
    ensures
        p.name@ == name@,
        p.description@ == description@,
{
    ToolParam { name: String::from_str(name), description: String::from_str(description) }
}

/// The tools served to coding agents, with their input parameters.
pub fn tool_list() -> (r: Vec<ToolSpec>)
    ensures
        r@.len() == 3,
        forall|i: int| 0 <= i < 3 ==> (#[trigger] r@[i]).name@ == tool_name_text(listed_tool(i)),
        spec_is(
            r@[0],
            "get_context"@,
            GET_CONTEXT_DESCRIPTION@,
            seq![("component"@, COMPONENT_PARAM_DESCRIPTION@), ("task_description"@, TASK_PARAM_DESCRIPTION@)],
            seq!["component"@],
        ),
        spec_is(
            r@[1],
            "check_pattern"@,
            CHECK_PATTERN_DESCRIPTION@,
            seq![("description"@, PATTERN_PARAM_DESCRIPTION@)],
            seq!["description"@],
        ),
        spec_is(r@[2], "get_architecture"@, GET_ARCHITECTURE_DESCRIPTION@, seq![], seq![]),
{
    let mut ctx_params: Vec<ToolParam> = Vec::new();
    ctx_params.push(param("component", COMPONENT_PARAM_DESCRIPTION));
    ctx_params.push(param("task_description", TASK_PARAM_DESCRIPTION));
    let mut ctx_required: Vec<String> = Vec::new();
    ctx_required.push(String::from_str("component"));
    let get_context = ToolSpec {
        name: String::from_str("get_context"),
        description: String::from_str(GET_CONTEXT_DESCRIPTION),
        input_type: INPUT_SCHEMA_TYPE,
        params: ctx_params,
        required: ctx_required,
    };
    let mut pattern_params: Vec<ToolParam> = Vec::new();
    pattern_params.push(param("description", PATTERN_PARAM_DESCRIPTION));
    let mut pattern_required: Vec<String> = Vec::new();
    pattern_required.push(String::from_str("description"));
    let check_pattern = ToolSpec {
        name: String::from_str("check_pattern"),
        description: String::from_str(CHECK_PATTERN_DESCRIPTION),
        input_type: INPUT_SCHEMA_TYPE,
        params: pattern_params,
        required: pattern_required,
    };
    let get_architecture = ToolSpec {
        name: String::from_str("get_architecture"),
        description: String::from_str(GET_ARCHITECTURE_DESCRIPTION),
        input_type: INPUT_SCHEMA_TYPE,
        params: Vec::new(),
        required: Vec::new(),
    };
    let mut r: Vec<ToolSpec> = Vec::new();
    r.push(get_context);
    r.push(check_pattern);
    r.push(get_architecture);
    let ghost p0 = seq![("component"@, COMPONENT_PARAM_DESCRIPTION@), ("task_description"@, TASK_PARAM_DESCRIPTION@)];
    assert(spec_is(r@[0], "get_context"@, GET_CONTEXT_DESCRIPTION@, p0, seq!["component"@]));
    r
}

/// The position of a tool in `tool_list`.
pub open spec fn listed_index(t: ToolName) -> int {
    match t {
        ToolName::GetContext => 0,
        ToolName::CheckPattern => 1,
        ToolName::GetArchitecture => 2,
    }
}

/// The tools listed to agents are exactly the tools a call can name: each
/// tool is listed once, and a name is accepted by `select_tool` iff some
/// listed tool carries it.
pub proof fn lemma_listed_tools_are_the_dispatched_ones(name: Seq<char>)
    ensures
        forall|t: ToolName| 0 <= #[trigger] listed_index(t) < 3 && listed_tool(listed_index(t)) == t,
        forall|i: int, j: int|
            0 <= i < 3 && 0 <= j < 3 && i != j ==> #[trigger] listed_tool(i) != #[trigger] listed_tool(j),
        (exists|t: ToolName| #[trigger] tool_name_text(t) == name) <==> (exists|i: int|
            0 <= i < 3 && tool_name_text(#[trigger] listed_tool(i)) == name),
{
    if exists|t: ToolName| #[trigger] tool_name_text(t) == name {
        let t = choose|t: ToolName| #[trigger] tool_name_text(t) == name;
        assert(tool_name_text(listed_tool(listed_index(t))) == name);
    }
}

pub open spec fn unknown_tool_message(name: Seq<char>) -> Seq<char> {
    "unknown tool: "@ + name
}

/// The tool a call names, or the error result for an unknown name.
pub fn select_tool(name: &str) -> (r: Result<ToolName, ToolResponse>)
    ensures
        r matches Ok(t) ==> tool_name_text(t) == name@,
        r matches Err(e) ==> e.is_error && e.text@ == unknown_tool_message(name@) && (forall|t: ToolName| tool_name_text(t) != name@),
{
    if str_eq(name, "get_context") {
        Ok(ToolName::GetContext)
    } else if str_eq(name, "check_pattern") {
        Ok(ToolName::CheckPattern)
    } else if str_eq(name, "get_architecture") {
        Ok(ToolName::GetArchitecture)
    } else {
        let mut m = String::new();
        m.append("unknown tool: ");
        m.append(name);
        Err(ToolResponse { text: m, is_error: true })
    }
}

pub open spec fn missing_param_message(param: Seq<char>) -> Seq<char> {
    "missing required parameter: "@ + param
}

/// A required string parameter, or the error result when it is absent.
pub fn require_param(value: Option<&str>, param: &str) -> (r: Result<String, ToolResponse>)
    ensures
        r is Ok <==> value is Some,
        r matches Ok(v) ==> value matches Some(x) && v@ == x@,
        r matches Err(e) ==> e.is_error && e.text@ == missing_param_message(param@),
{
    match value {
        Some(v) => Ok(String::from_str(v)),
        None => {
            let mut m = String::new();
            m.append("missing required parameter: ");
            m.append(param);
            Err(ToolResponse { text: m, is_error: true })
        },
    }
}

pub open spec fn load_failure_message(cause: Seq<char>) -> Seq<char> {
    "failed to load .trurl/ state: "@ + cause
}

/// The error result when `.trurl/` cannot be loaded.
pub fn load_failure(cause: &str) -> (r: ToolResponse)
    ensures
        r.is_error,
        r.text@ == load_failure_message(cause@),
{
    let mut m = String::new();
    m.append("failed to load .trurl/ state: ");
    m.append(cause);
    ToolResponse { text: m, is_error: true }
}

} // verus!
