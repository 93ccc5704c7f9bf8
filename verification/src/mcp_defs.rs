//! MCP tool definitions for the scheduler.

use vstd::prelude::*;

use crate::types::strs;

verus! {

/// A tool that an MCP client can call: an HTTP endpoint and the JSON
/// schema of its input, given as JSON text.
#[derive(Debug, Clone)]
pub struct McpToolDef {
    pub name: String,
    pub description: String,
    pub method: String,
    pub path: String,
    pub input_schema: String,
    pub min_ring: String,
    pub path_params: Vec<String>,
}

/// The mathematical content of an [`McpToolDef`].
pub struct McpToolView {
    pub name: Seq<char>,
    pub description: Seq<char>,
    pub method: Seq<char>,
    pub path: Seq<char>,
    pub input_schema: Seq<char>,
    pub min_ring: Seq<char>,
    pub path_params: Seq<Seq<char>>,
}

impl View for McpToolDef {
    type V = McpToolView;

    open spec fn view(&self) -> McpToolView {
        McpToolView {
            name: self.name@,
            description: self.description@,
            method: self.method@,
            path: self.path@,
            input_schema: self.input_schema@,
            min_ring: self.min_ring@,
            path_params: strs(self.path_params@),
        }
    }
}

/// The input schema of the decision tool.
pub const DECIDE_SCHEMA: &'static str = "{\"type\":\"object\",\"properties\":{\"task_id\":{\"type\":\"string\"},\"constraints\":{\"type\":\"object\"}},\"required\":[\"task_id\"]}";

/// The input schema of the tools that take no input.
pub const EMPTY_SCHEMA: &'static str = "{\"type\":\"object\",\"properties\":{}}";

/// The definition of one tool, as a view.
pub open spec fn tool_view(
    name: &str,
    description: &str,
    method: &str,
    path: &str,
    input_schema: &str,
    min_ring: &str,
) -> McpToolView {
    McpToolView {
        name: name@,
        description: description@,
        method: method@,
        path: path@,
        input_schema: input_schema@,
        min_ring: min_ring@,
        path_params: Seq::empty(),
    }
}

/// The scheduler's tools, as views.
pub open spec fn scheduler_tools_view() -> Seq<McpToolView> {
    seq![
        tool_view(
            "cvg_scheduler_decide",
            "Request a scheduling decision.",
            "POST",
            "/api/scheduler/decide",
            DECIDE_SCHEMA,
            "trusted",
        ),
        tool_view(
            "cvg_scheduler_get_policy",
            "Get current scheduling policy.",
            "GET",
            "/api/scheduler/policy",
            EMPTY_SCHEMA,
            "community",
        ),
        tool_view(
            "cvg_scheduler_history",
            "Get scheduling decision history.",
            "GET",
            "/api/scheduler/history",
            EMPTY_SCHEMA,
            "community",
        ),
    ]
}

/// Build one tool definition.
fn tool(
    name: &str,
    description: &str,
    method: &str,
    path: &str,
    input_schema: &str,
    min_ring: &str,
) -> (t: McpToolDef)
    ensures
        t@ == tool_view(name, description, method, path, input_schema, min_ring),
{
    let t = McpToolDef {
        name: String::from_str(name),
        description: String::from_str(description),
        method: String::from_str(method),
        path: String::from_str(path),
        input_schema: String::from_str(input_schema),
        min_ring: String::from_str(min_ring),
        path_params: Vec::new(),
    };
    assert(t@.path_params =~= Seq::<Seq<char>>::empty());
    t
}

/// The MCP tools of the scheduler: decide, read the policy, read the history.
pub fn scheduler_tools() -> (tools: Vec<McpToolDef>)
    ensures
        tools@.map_values(|t: McpToolDef| t@) == scheduler_tools_view(),
{
    let mut tools: Vec<McpToolDef> = Vec::new();
    tools.push(
        tool(
            "cvg_scheduler_decide",
            "Request a scheduling decision.",
            "POST",
            "/api/scheduler/decide",
            DECIDE_SCHEMA,
            "trusted",
        ),
    );
    tools.push(
        tool(
            "cvg_scheduler_get_policy",
            "Get current scheduling policy.",
            "GET",
            "/api/scheduler/policy",
            EMPTY_SCHEMA,
            "community",
        ),
    );
    tools.push(
        tool(
            "cvg_scheduler_history",
            "Get scheduling decision history.",
            "GET",
            "/api/scheduler/history",
            EMPTY_SCHEMA,
            "community",
        ),
    );
    assert(tools@.map_values(|t: McpToolDef| t@) =~= scheduler_tools_view());
    tools
}

} // verus!
