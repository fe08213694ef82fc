//! The batch dispatcher: it runs a set of tool invocations independently
//! and produces a result collection that is positionally aligned with the
//! input, whatever order the executions finish in.
//!
//! The dispatcher is itself exposed as a tool, so the model can request a
//! parallel fan-out explicitly. Running the individual tools is the
//! caller's business; every decision — resolution, isolation of failures,
//! pairing of results — is made here.

use vstd::prelude::*;
use vstd::string::StringExecFns;

use crate::jsonio::json_entry_list;
use crate::jsonio::json_get_entry_list;
use crate::jsonout::quote_json;
use crate::jsonout::quoted;
use crate::registry::Registry;
use crate::registry::ParamSpec;
use crate::registry::SchemaModel;
use crate::registry::Tool;
use crate::registry::ToolSchema;

verus! {

/// One invocation of the batch: a tool name and the raw text of its
/// parameter object.
#[derive(Debug)]
pub struct BatchInvocation {
    pub name: String,
    pub params: String,
}

/// The mathematical shape of one batch invocation.
pub ghost struct InvocationModel {
    pub name: Seq<char>,
    pub params: Seq<char>,
}

impl View for BatchInvocation {
    type V = InvocationModel;

    open spec fn view(&self) -> InvocationModel {
        InvocationModel { name: self.name@, params: self.params@ }
    }
}

/// Whether an invocation succeeded or failed; a failure never aborts its
/// siblings.
#[derive(Clone, Copy, PartialEq, Eq, Structural, Debug)]
pub enum ToolStatus {
    Success,
    Error,
}

/// The outcome of one invocation: the tool's name, whether it succeeded,
/// and its output or its rendered error. A result is produced for every
/// invocation, never discarded.
#[derive(Debug)]
pub struct ToolResult {
    pub tool_name: String,
    pub status: ToolStatus,
    pub output: String,
}

/// The mathematical shape of one tool result.
pub ghost struct ToolResultModel {
    pub tool_name: Seq<char>,
    pub status: ToolStatus,
    pub output: Seq<char>,
}

impl View for ToolResult {
    type V = ToolResultModel;

    open spec fn view(&self) -> ToolResultModel {
        ToolResultModel { tool_name: self.tool_name@, status: self.status, output: self.output@ }
    }
}

/// The error text for an invocation that names no registered tool.
pub open spec fn not_found_message(name: Seq<char>) -> Seq<char> {
    "Tool '"@ + name + "' not found"@
}

/// Renders the not-found error text for `name`.
pub fn render_not_found(name: &str) -> (r: String)
    ensures
        r@ == not_found_message(name@),
{
    let mut s = "Tool '".to_owned();
    s.append(name);
    s.append("' not found");
    proof {
        assert(s@ =~= not_found_message(name@));
    }
    s
}

/// The mathematical shape of one execution outcome, as the caller reports
/// it: `None` where the tool was never run.
pub open spec fn outcome_model(o: Option<Result<String, String>>) -> Option<
    Result<Seq<char>, Seq<char>>,
> {
    match o {
        Option::Some(Result::Ok(t)) => Option::Some(Result::Ok(t@)),
        Option::Some(Result::Err(e)) => Option::Some(Result::Err(e@)),
        Option::None => Option::None,
    }
}

/// The result owed to one invocation: an unregistered name yields the
/// not-found error and its outcome is ignored; otherwise the execution
/// outcome decides. A registered invocation always carries an outcome.
pub open spec fn batch_entry_model(
    name: Seq<char>,
    registered: bool,
    outcome: Option<Result<Seq<char>, Seq<char>>>,
) -> ToolResultModel {
    if !registered {
        ToolResultModel { tool_name: name, status: ToolStatus::Error, output: not_found_message(name) }
    } else {
        match outcome {
            Option::Some(Result::Ok(o)) => ToolResultModel {
                tool_name: name,
                status: ToolStatus::Success,
                output: o,
            },
            Option::Some(Result::Err(e)) => ToolResultModel {
                tool_name: name,
                status: ToolStatus::Error,
                output: e,
            },
            Option::None => ToolResultModel {
                tool_name: name,
                status: ToolStatus::Error,
                output: not_found_message(name),
            },
        }
    }
}

/// One batch position: the invocation's name, whether it resolved, and its
/// outcome.
pub ghost struct BatchEntry {
    pub name: Seq<char>,
    pub registered: bool,
    pub outcome: Option<Result<Seq<char>, Seq<char>>>,
}

/// The whole result collection, position by position.
pub open spec fn batch_results_model(entries: Seq<BatchEntry>) -> Seq<ToolResultModel> {
    Seq::new(entries.len(), |i: int| batch_entry_model(
        entries[i].name,
        entries[i].registered,
        entries[i].outcome,
    ))
}

/// The output collection has one result per invocation, positionally
/// aligned: each position is a function of that position's invocation and
/// outcome alone, so the order in which executions finish cannot reorder
/// or change it.
pub proof fn lemma_batch_positional(entries: Seq<BatchEntry>)
    ensures
        batch_results_model(entries).len() == entries.len(),
        forall|i: int|
            0 <= i < entries.len() ==> batch_results_model(entries)[i] == batch_entry_model(
                entries[i].name,
                entries[i].registered,
                entries[i].outcome,
            ),
{
}

/// An invocation naming an unregistered tool yields an error result with
/// the not-found text, and replacing that position by anything else leaves
/// every sibling result exactly as it was.
pub proof fn lemma_unregistered_isolated(entries: Seq<BatchEntry>, i: int, other: BatchEntry)
    requires
        0 <= i < entries.len(),
        !entries[i].registered,
    ensures
        batch_results_model(entries)[i].status is Error,
        batch_results_model(entries)[i].output == not_found_message(entries[i].name),
        forall|j: int|
            0 <= j < entries.len() && j != i ==> batch_results_model(entries.update(i, other))[j]
                == batch_results_model(entries)[j],
{
}

/// Produces the result collection for a batch: the caller reports, for
/// each position, the outcome of running that invocation, or `None` where
/// the tool is not registered and was never run.
pub fn execute_batch(
    reg: &Registry,
    invs: &Vec<BatchInvocation>,
    outcomes: Vec<Option<Result<String, String>>>,
) -> (rs: Vec<ToolResult>)
    requires
        invs@.len() == outcomes@.len(),
        forall|i: int|
            0 <= i < invs@.len() && reg.spec_has((#[trigger] invs@[i])@.name) ==> outcomes@[i] is Some,
    ensures
        rs@.len() == invs@.len(),
        forall|i: int|
            0 <= i < invs@.len() ==> (#[trigger] rs@[i])@ == batch_entry_model(
                invs@[i]@.name,
                reg.spec_has(invs@[i]@.name),
                outcome_model(outcomes@[i]),
            ),
{
    let n = invs.len();
    let mut rs: Vec<ToolResult> = Vec::new();
    let mut rest = outcomes;
    let mut i: usize = 0;
    while i < n
        invariant
            i <= n,
            n == invs@.len(),
            rest@.len() == n - i,
            forall|k: int| 0 <= k < rest@.len() ==> rest@[k] == outcomes@[i + k],
            rs@.len() == i,
            forall|k: int|
                0 <= k < i ==> (#[trigger] rs@[k])@ == batch_entry_model(
                    invs@[k]@.name,
                    reg.spec_has(invs@[k]@.name),
                    outcome_model(outcomes@[k]),
                ),
        decreases n - i,
    {
        let inv = &invs[i];
        let outcome = rest.remove(0);
        let registered = reg.has_tool(inv.name.as_str());
        let r = if !registered {
            ToolResult {
                tool_name: inv.name.clone(),
                status: ToolStatus::Error,
                output: render_not_found(inv.name.as_str()),
            }
        } else {
            match outcome {
                Option::Some(Result::Ok(o)) => ToolResult {
                    tool_name: inv.name.clone(),
                    status: ToolStatus::Success,
                    output: o,
                },
                Option::Some(Result::Err(e)) => ToolResult {
                    tool_name: inv.name.clone(),
                    status: ToolStatus::Error,
                    output: e,
                },
                Option::None => ToolResult {
                    tool_name: inv.name.clone(),
                    status: ToolStatus::Error,
                    output: render_not_found(inv.name.as_str()),
                },
            }
        };
        rs.push(r);
        i = i + 1;
    }
    rs
}

/// The JSON rendering of one result, as it is reported back to the model.
pub open spec fn result_json(r: ToolResultModel) -> Seq<char> {
    "{\"tool\":"@ + quoted(r.tool_name) + (if r.status is Success {
        ",\"status\":\"success\",\"output\":"@
    } else {
        ",\"status\":\"error\",\"error\":"@
    }) + quoted(r.output) + "}"@
}

/// The comma-separated renderings of a result sequence.
pub open spec fn results_json_inner(rs: Seq<ToolResultModel>) -> Seq<char>
    decreases rs.len(),
{
    if rs.len() == 0 {
        Seq::empty()
    } else if rs.len() == 1 {
        result_json(rs[0])
    } else {
        results_json_inner(rs.drop_last()) + ","@ + result_json(rs.last())
    }
}

/// The JSON array rendering of a whole result collection.
pub open spec fn results_json(rs: Seq<ToolResultModel>) -> Seq<char> {
    "["@ + results_json_inner(rs) + "]"@
}

/// Renders one result as JSON.
fn render_result(r: &ToolResult) -> (s: String)
    ensures
        s@ == result_json(r@),
{
    let mut s = "{\"tool\":".to_owned();
    let name = quote_json(r.tool_name.as_str());
    s.append(name.as_str());
    match r.status {
        ToolStatus::Success => {
            s.append(",\"status\":\"success\",\"output\":");
        },
        ToolStatus::Error => {
            s.append(",\"status\":\"error\",\"error\":");
        },
    }
    let out = quote_json(r.output.as_str());
    s.append(out.as_str());
    s.append("}");
    proof {
        assert(s@ =~= result_json(r@));
    }
    s
}

/// Renders the whole result collection as a JSON array, in order.
pub fn render_batch_results(rs: &Vec<ToolResult>) -> (s: String)
    ensures
        s@ == results_json(rs@.map_values(|r: ToolResult| r@)),
{
    let ghost models = rs@.map_values(|r: ToolResult| r@);
    let mut s = "[".to_owned();
    let n = rs.len();
    let mut i: usize = 0;
    proof {
        assert(models.subrange(0, 0) =~= Seq::<ToolResultModel>::empty());
        assert(s@ =~= "["@ + results_json_inner(models.subrange(0, 0)));
    }
    while i < n
        invariant
            i <= n,
            n == models.len(),
            models == rs@.map_values(|r: ToolResult| r@),
            s@ == "["@ + results_json_inner(models.subrange(0, i as int)),
        decreases n - i,
    {
        if i > 0 {
            s.append(",");
        }
        let piece = render_result(&rs[i]);
        s.append(piece.as_str());
        proof {
            assert(models.subrange(0, i as int + 1).drop_last() =~= models.subrange(0, i as int));
            assert(models.subrange(0, i as int + 1).last() == models[i as int]);
            assert(s@ =~= "["@ + results_json_inner(models.subrange(0, i as int + 1)));
        }
        i = i + 1;
    }
    s.append("]");
    proof {
        assert(models.subrange(0, n as int) =~= models);
        assert(s@ =~= results_json(models));
    }
    s
}

/// Parses the arguments of a `batch_run` invocation: the entries of its
/// `tools` array, a missing name falling back to `unknown` and missing
/// parameters to the empty object.
pub fn parse_batch_invocations(args: &str) -> (r: Result<Vec<BatchInvocation>, String>)
    ensures
        match r {
            Result::Ok(v) => {
                json_entry_list(args@, "tools"@, "tool"@, "parameters"@) matches Option::Some(m) && {
                    &&& v@.len() == m.len()
                    &&& forall|i: int|
                        0 <= i < m.len() ==> (#[trigger] v@[i])@.name == (match m[i].0 {
                            Option::Some(t) => t,
                            Option::None => "unknown"@,
                        }) && v@[i]@.params == (match m[i].1 {
                            Option::Some(p) => p,
                            Option::None => "{}"@,
                        })
                }
            },
            Result::Err(e) => {
                json_entry_list(args@, "tools"@, "tool"@, "parameters"@) is None && e@
                    == "Missing or invalid 'tools' argument"@
            },
        },
{
    let entries = match json_get_entry_list(args, "tools", "tool", "parameters") {
        Option::Some(v) => v,
        Option::None => {
            return Result::Err("Missing or invalid 'tools' argument".to_owned());
        },
    };
    let ghost m = json_entry_list(args@, "tools"@, "tool"@, "parameters"@)->0;
    let mut invs: Vec<BatchInvocation> = Vec::new();
    let mut rest = entries;
    let n = rest.len();
    let mut i: usize = 0;
    while i < n
        invariant
            i <= n,
            n == m.len(),
            rest@.len() == n - i,
            forall|k: int|
                0 <= k < rest@.len() ==> (#[trigger] rest@[k]).0.deep_view() == m[i + k].0
                    && rest@[k].1.deep_view() == m[i + k].1,
            invs@.len() == i,
            forall|k: int|
                0 <= k < i ==> (#[trigger] invs@[k])@.name == (match m[k].0 {
                    Option::Some(t) => t,
                    Option::None => "unknown"@,
                }) && invs@[k]@.params == (match m[k].1 {
                    Option::Some(p) => p,
                    Option::None => "{}"@,
                }),
        decreases n - i,
    {
        let (name_opt, params_opt) = rest.remove(0);
        let name = match name_opt {
            Option::Some(t) => t,
            Option::None => "unknown".to_owned(),
        };
        let params = match params_opt {
            Option::Some(p) => p,
            Option::None => "{}".to_owned(),
        };
        invs.push(BatchInvocation { name, params });
        i = i + 1;
    }
    Result::Ok(invs)
}

/// Runs a set of tool invocations concurrently and reports one result per
/// invocation, in input order.
pub struct BatchTool;

impl BatchTool {
    /// A fresh batch tool.
    pub fn new() -> (t: BatchTool) {
        BatchTool
    }
}

impl Tool for BatchTool {
    open spec fn spec_name(&self) -> Seq<char> {
        "batch_run"@
    }

    open spec fn spec_description(&self) -> Seq<char> {
        "Execute multiple tools in parallel (especially useful for spawning multiple sub-agents)."@
    }

    open spec fn spec_schema(&self) -> SchemaModel {
        SchemaModel {
            name: "batch_run"@,
            description: "Execute multiple tools in parallel. Use this to spawn multiple 'task' agents simultaneously."@,
            params: seq![
                crate::bevy::param_model(
                    "tools"@,
                    "array"@,
                    "The tool invocations to run, each naming a tool and its parameters."@,
                    true,
                ),
            ],
        }
    }

    fn name(&self) -> (r: String) {
        "batch_run".to_owned()
    }

    fn description(&self) -> (r: String) {
        "Execute multiple tools in parallel (especially useful for spawning multiple sub-agents).".to_owned()
    }

    fn schema(&self) -> (r: ToolSchema) {
        let mut params: Vec<ParamSpec> = Vec::new();
        params.push(
            ParamSpec {
                name: "tools".to_owned(),
                kind: "array".to_owned(),
                description: "The tool invocations to run, each naming a tool and its parameters.".to_owned(),
                required: true,
            },
        );
        let r = ToolSchema {
            name: "batch_run".to_owned(),
            description: "Execute multiple tools in parallel. Use this to spawn multiple 'task' agents simultaneously.".to_owned(),
            params,
        };
        proof {
            assert(r@.params =~= self.spec_schema().params);
        }
        r
    }
}

} // verus!
