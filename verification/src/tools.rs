//! The standard file tools and the profile-scoped tool sets.
//!
//! Each tool's verified half validates its arguments, applies its text
//! logic, and renders its result or error messages; reading and writing
//! the filesystem itself stays with the caller.

use vstd::prelude::*;
use vstd::string::StringExecFns;

use crate::batch::BatchTool;
use crate::bevy::param_model;
use crate::bevy::BevyClearSceneTool;
use crate::bevy::BevyRpcTool;
use crate::bevy::BevySpawnSceneTool;
use crate::bevy::BevyUploadAssetTool;
use crate::jsonio::json_get_str;
use crate::jsonio::json_str_field;
use crate::registry::ParamSpec;
use crate::registry::Registry;
use crate::registry::SchemaModel;
use crate::registry::Tool;
use crate::registry::ToolSchema;
use crate::text::contains_seq;
use crate::text::contains_str;
use crate::text::replace_seq;
use crate::text::replace_str;
use crate::text::str_eq;

verus! {

/// Reads a file from the local filesystem.
pub struct ReadFileTool;

impl Tool for ReadFileTool {
    open spec fn spec_name(&self) -> Seq<char> {
        "read_file"@
    }

    open spec fn spec_description(&self) -> Seq<char> {
        "Reads a file from the local filesystem."@
    }

    open spec fn spec_schema(&self) -> SchemaModel {
        SchemaModel {
            name: "read_file"@,
            description: "Reads a file from the local filesystem."@,
            params: seq![
                param_model("path"@, "string"@, "The path to the file to read"@, true),
            ],
        }
    }

    fn name(&self) -> (r: String) {
        "read_file".to_owned()
    }

    fn description(&self) -> (r: String) {
        "Reads a file from the local filesystem.".to_owned()
    }

    fn schema(&self) -> (r: ToolSchema) {
        let mut params: Vec<ParamSpec> = Vec::new();
        params.push(
            ParamSpec {
                name: "path".to_owned(),
                kind: "string".to_owned(),
                description: "The path to the file to read".to_owned(),
                required: true,
            },
        );
        let r = ToolSchema {
            name: "read_file".to_owned(),
            description: "Reads a file from the local filesystem.".to_owned(),
            params,
        };
        proof {
            assert(r@.params =~= self.spec_schema().params);
        }
        r
    }
}

/// Validates the arguments of `read_file`: the path to read.
pub fn read_file_plan(args: &str) -> (r: Result<String, String>)
    ensures
        match r {
            Result::Ok(p) => json_str_field(args@, "path"@) == Option::Some(p@),
            Result::Err(e) => json_str_field(args@, "path"@) is None && e@ == "Missing path"@,
        },
{
    match json_get_str(args, "path") {
        Option::Some(p) => Result::Ok(p),
        Option::None => Result::Err("Missing path".to_owned()),
    }
}

/// The error reported when the file cannot be read.
pub fn read_file_error(e: &str) -> (r: String)
    ensures
        r@ == "Failed to read file: "@ + e@,
{
    let mut s = "Failed to read file: ".to_owned();
    s.append(e);
    proof {
        assert(s@ =~= "Failed to read file: "@ + e@);
    }
    s
}

/// Writes content to a file.
pub struct WriteFileTool;

impl Tool for WriteFileTool {
    open spec fn spec_name(&self) -> Seq<char> {
        "write_file"@
    }

    open spec fn spec_description(&self) -> Seq<char> {
        "Write content to a file."@
    }

    open spec fn spec_schema(&self) -> SchemaModel {
        SchemaModel {
            name: "write_file"@,
            description: "Write content to a file."@,
            params: seq![
                param_model("path"@, "string"@, "The path to the file"@, true),
                param_model("content"@, "string"@, "The content"@, true),
            ],
        }
    }

    fn name(&self) -> (r: String) {
        "write_file".to_owned()
    }

    fn description(&self) -> (r: String) {
        "Write content to a file.".to_owned()
    }

    fn schema(&self) -> (r: ToolSchema) {
        let mut params: Vec<ParamSpec> = Vec::new();
        params.push(
            ParamSpec {
                name: "path".to_owned(),
                kind: "string".to_owned(),
                description: "The path to the file".to_owned(),
                required: true,
            },
        );
        params.push(
            ParamSpec {
                name: "content".to_owned(),
                kind: "string".to_owned(),
                description: "The content".to_owned(),
                required: true,
            },
        );
        let r = ToolSchema {
            name: "write_file".to_owned(),
            description: "Write content to a file.".to_owned(),
            params,
        };
        proof {
            assert(r@.params =~= self.spec_schema().params);
        }
        r
    }
}

/// Validates the arguments of `write_file`: the path and the content.
pub fn write_file_plan(args: &str) -> (r: Result<(String, String), String>)
    ensures
        match r {
            Result::Ok(pc) => {
                &&& json_str_field(args@, "path"@) == Option::Some(pc.0@)
                &&& json_str_field(args@, "content"@) == Option::Some(pc.1@)
            },
            Result::Err(e) => {
                if json_str_field(args@, "path"@) is None {
                    e@ == "Missing path"@
                } else {
                    json_str_field(args@, "content"@) is None && e@ == "Missing content"@
                }
            },
        },
{
    let path = match json_get_str(args, "path") {
        Option::Some(p) => p,
        Option::None => {
            return Result::Err("Missing path".to_owned());
        },
    };
    let content = match json_get_str(args, "content") {
        Option::Some(c) => c,
        Option::None => {
            return Result::Err("Missing content".to_owned());
        },
    };
    Result::Ok((path, content))
}

/// The result reported after a successful write.
pub fn write_file_message(path: &str) -> (r: String)
    ensures
        r@ == "File written to "@ + path@,
{
    let mut s = "File written to ".to_owned();
    s.append(path);
    proof {
        assert(s@ =~= "File written to "@ + path@);
    }
    s
}

/// The error reported when the file cannot be written.
pub fn write_file_error(e: &str) -> (r: String)
    ensures
        r@ == "Failed to write: "@ + e@,
{
    let mut s = "Failed to write: ".to_owned();
    s.append(e);
    proof {
        assert(s@ =~= "Failed to write: "@ + e@);
    }
    s
}

/// Replaces a string in a file.
pub struct EditFileTool;

impl Tool for EditFileTool {
    open spec fn spec_name(&self) -> Seq<char> {
        "edit_file"@
    }

    open spec fn spec_description(&self) -> Seq<char> {
        "Replace a string in a file."@
    }

    open spec fn spec_schema(&self) -> SchemaModel {
        SchemaModel {
            name: "edit_file"@,
            description: "Replace a string in a file."@,
            params: seq![
                param_model("path"@, "string"@, "Path"@, true),
                param_model("old_string"@, "string"@, "Find"@, true),
                param_model("new_string"@, "string"@, "Replace"@, true),
            ],
        }
    }

    fn name(&self) -> (r: String) {
        "edit_file".to_owned()
    }

    fn description(&self) -> (r: String) {
        "Replace a string in a file.".to_owned()
    }

    fn schema(&self) -> (r: ToolSchema) {
        let mut params: Vec<ParamSpec> = Vec::new();
        params.push(
            ParamSpec {
                name: "path".to_owned(),
                kind: "string".to_owned(),
                description: "Path".to_owned(),
                required: true,
            },
        );
        params.push(
            ParamSpec {
                name: "old_string".to_owned(),
                kind: "string".to_owned(),
                description: "Find".to_owned(),
                required: true,
            },
        );
        params.push(
            ParamSpec {
                name: "new_string".to_owned(),
                kind: "string".to_owned(),
                description: "Replace".to_owned(),
                required: true,
            },
        );
        let r = ToolSchema {
            name: "edit_file".to_owned(),
            description: "Replace a string in a file.".to_owned(),
            params,
        };
        proof {
            assert(r@.params =~= self.spec_schema().params);
        }
        r
    }
}

/// Validates the arguments of `edit_file`: the path, the text to find, and
/// the text to put in its place.
pub fn edit_file_plan(args: &str) -> (r: Result<(String, String, String), String>)
    ensures
        match r {
            Result::Ok(t) => {
                &&& json_str_field(args@, "path"@) == Option::Some(t.0@)
                &&& json_str_field(args@, "old_string"@) == Option::Some(t.1@)
                &&& json_str_field(args@, "new_string"@) == Option::Some(t.2@)
            },
            Result::Err(e) => {
                if json_str_field(args@, "path"@) is None {
                    e@ == "Missing path"@
                } else if json_str_field(args@, "old_string"@) is None {
                    e@ == "Missing old_string"@
                } else {
                    json_str_field(args@, "new_string"@) is None && e@ == "Missing new_string"@
                }
            },
        },
{
    let path = match json_get_str(args, "path") {
        Option::Some(p) => p,
        Option::None => {
            return Result::Err("Missing path".to_owned());
        },
    };
    let old_s = match json_get_str(args, "old_string") {
        Option::Some(o) => o,
        Option::None => {
            return Result::Err("Missing old_string".to_owned());
        },
    };
    let new_s = match json_get_str(args, "new_string") {
        Option::Some(x) => x,
        Option::None => {
            return Result::Err("Missing new_string".to_owned());
        },
    };
    Result::Ok((path, old_s, new_s))
}

/// The edit itself: every occurrence of `old_s` in `content` is replaced
/// by `new_s`; a `content` without any occurrence is rejected unchanged.
pub fn apply_edit(content: &str, old_s: &str, new_s: &str) -> (r: Result<String, String>)
    ensures
        match r {
            Result::Ok(out) => {
                &&& contains_seq(content@, old_s@)
                &&& out@ == replace_seq(content@, old_s@, new_s@)
            },
            Result::Err(e) => {
                !contains_seq(content@, old_s@) && e@ == "old_string not found"@
            },
        },
{
    if contains_str(content, old_s) {
        Result::Ok(replace_str(content, old_s, new_s))
    } else {
        Result::Err("old_string not found".to_owned())
    }
}

/// The result reported after a successful edit.
pub fn edit_file_message(path: &str) -> (r: String)
    ensures
        r@ == "Edited "@ + path@,
{
    let mut s = "Edited ".to_owned();
    s.append(path);
    proof {
        assert(s@ =~= "Edited "@ + path@);
    }
    s
}

/// The error reported when the file to edit cannot be read.
pub fn edit_read_error(e: &str) -> (r: String)
    ensures
        r@ == "Read fail: "@ + e@,
{
    let mut s = "Read fail: ".to_owned();
    s.append(e);
    proof {
        assert(s@ =~= "Read fail: "@ + e@);
    }
    s
}

/// The error reported when the edited file cannot be written back.
pub fn edit_write_error(e: &str) -> (r: String)
    ensures
        r@ == "Write fail: "@ + e@,
{
    let mut s = "Write fail: ".to_owned();
    s.append(e);
    proof {
        assert(s@ =~= "Write fail: "@ + e@);
    }
    s
}

/// The names of the base tool set, available to every profile.
pub open spec fn base_tool_names() -> Seq<Seq<char>> {
    seq![
        "read_file"@,
        "write_file"@,
        "edit_file"@,
        "batch_run"@,
        "bevy_upload_asset"@,
        "bevy_clear_scene"@,
    ]
}

/// The names of the tools a profile receives: the base set, and for the
/// engine-companion profile also the raw RPC and scene-spawning tools.
pub open spec fn profile_tool_names(profile: Seq<char>) -> Seq<Seq<char>> {
    if profile == "Bevy Editor Companion"@ {
        base_tool_names() + seq!["bevy_rpc"@, "bevy_spawn_scene"@]
    } else {
        base_tool_names()
    }
}

/// Builds the registry for one profile: a fresh snapshot per call, so
/// parallel executions never share mutable state.
pub fn get_tools_for_profile(profile_name: &str) -> (reg: Registry)
    ensures
        reg.names() == profile_tool_names(profile_name@),
{
    let mut reg = Registry::new();
    reg.register((ReadFileTool {}).schema());
    reg.register((WriteFileTool {}).schema());
    reg.register((EditFileTool {}).schema());
    reg.register((BatchTool {}).schema());
    reg.register((BevyUploadAssetTool {}).schema());
    reg.register((BevyClearSceneTool {}).schema());
    if str_eq(profile_name, "Bevy Editor Companion") {
        reg.register((BevyRpcTool {}).schema());
        reg.register((BevySpawnSceneTool {}).schema());
        proof {
            assert(reg.names() =~= profile_tool_names(profile_name@));
        }
    } else {
        proof {
            assert(reg.names() =~= profile_tool_names(profile_name@));
        }
    }
    reg
}

/// The full tool set, as handed to a batch dispatch.
pub fn get_all_tools() -> (reg: Registry)
    ensures
        reg.names() == profile_tool_names("General"@),
{
    let reg = get_tools_for_profile("General");
    proof {
        reveal_strlit("General");
        reveal_strlit("Bevy Editor Companion");
        assert("General"@.len() != "Bevy Editor Companion"@.len());
    }
    reg
}

} // verus!
