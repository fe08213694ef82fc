//! Tools that drive a running engine over its JSON-RPC remote protocol.
//!
//! The verified half lives here: argument validation, payload text
//! construction, and response interpretation. Transport, file reading and
//! the floating-point transform math stay outside the library and receive
//! plain values from these functions.

use vstd::prelude::*;
use vstd::string::StringExecFns;

use crate::decimal::dec_str;
use crate::decimal::u64_to_string;
use crate::jsonio::json_array_len;
use crate::jsonio::json_field_text;
use crate::jsonio::json_field_text_pretty;
use crate::jsonio::json_get_array_len;
use crate::jsonio::json_get_field_text;
use crate::jsonio::json_get_field_text_pretty;
use crate::jsonio::json_get_str;
use crate::jsonio::json_has_key;
use crate::jsonio::json_str_field;
use crate::jsonout::quote_json;
use crate::jsonout::quoted;
use crate::registry::ParamSpec;
use crate::registry::SchemaModel;
use crate::registry::Tool;
use crate::registry::ToolSchema;
use crate::text::str_eq;

verus! {

/// Builds one schema parameter.
fn param(name: &str, kind: &str, description: &str, required: bool) -> (p: ParamSpec)
    ensures
        p@.name == name@,
        p@.kind == kind@,
        p@.description == description@,
        p@.required == required,
{
    ParamSpec {
        name: name.to_owned(),
        kind: kind.to_owned(),
        description: description.to_owned(),
        required,
    }
}

/// Uploads a local asset file to the engine and spawns it.
pub struct BevyUploadAssetTool;

impl Tool for BevyUploadAssetTool {
    open spec fn spec_name(&self) -> Seq<char> {
        "bevy_upload_asset"@
    }

    open spec fn spec_description(&self) -> Seq<char> {
        "Upload a local asset file (e.g., .glb) to Bevy and spawn it. Encodes file as Base64 and sends via 'AxiomRemoteAsset'."@
    }

    open spec fn spec_schema(&self) -> SchemaModel {
        SchemaModel {
            name: "bevy_upload_asset"@,
            description: "Upload and spawn a local asset file."@,
            params: seq![
                param_model(
                    "local_path"@,
                    "string"@,
                    "Absolute path to the local file on the editor machine."@,
                    true,
                ),
                param_model(
                    "relative_path"@,
                    "string"@,
                    "Optional relative subdirectory in the game's asset cache (e.g. 'Textures')."@,
                    false,
                ),
                param_model("translation"@, "array"@, "[x, y, z] position"@, true),
                param_model(
                    "rotation"@,
                    "array"@,
                    "[x, y, z] rotation in Euler angles (Degrees). e.g. [0, 90, 0] to rotate 90 deg around Y axis."@,
                    false,
                ),
            ],
        }
    }

    fn name(&self) -> (r: String) {
        "bevy_upload_asset".to_owned()
    }

    fn description(&self) -> (r: String) {
        "Upload a local asset file (e.g., .glb) to Bevy and spawn it. Encodes file as Base64 and sends via 'AxiomRemoteAsset'.".to_owned()
    }

    fn schema(&self) -> (r: ToolSchema) {
        let mut params: Vec<ParamSpec> = Vec::new();
        params.push(
            param(
                "local_path",
                "string",
                "Absolute path to the local file on the editor machine.",
                true,
            ),
        );
        params.push(
            param(
                "relative_path",
                "string",
                "Optional relative subdirectory in the game's asset cache (e.g. 'Textures').",
                false,
            ),
        );
        params.push(param("translation", "array", "[x, y, z] position", true));
        params.push(
            param(
                "rotation",
                "array",
                "[x, y, z] rotation in Euler angles (Degrees). e.g. [0, 90, 0] to rotate 90 deg around Y axis.",
                false,
            ),
        );
        let r = ToolSchema {
            name: "bevy_upload_asset".to_owned(),
            description: "Upload and spawn a local asset file.".to_owned(),
            params,
        };
        proof {
            assert(r@.params =~= self.spec_schema().params);
        }
        r
    }
}

/// The mathematical shape of one schema parameter, by fields.
pub open spec fn param_model(
    name: Seq<char>,
    kind: Seq<char>,
    description: Seq<char>,
    required: bool,
) -> crate::registry::ParamModel {
    crate::registry::ParamModel { name, kind, description, required }
}

/// What an upload invocation asks for: the local file and an optional
/// subdirectory of the asset cache. Position and rotation stay with the
/// caller, which owns the transform math.
#[derive(Debug)]
pub struct UploadRequest {
    pub local_path: String,
    pub relative_path: Option<String>,
}

/// Validates the arguments of `bevy_upload_asset`: the local path must be a
/// string field and the translation an array field.
pub fn upload_asset_plan(args: &str) -> (r: Result<UploadRequest, String>)
    ensures
        match r {
            Result::Ok(u) => {
                &&& json_str_field(args@, "local_path"@) == Option::Some(u.local_path@)
                &&& u.relative_path.deep_view() == json_str_field(args@, "relative_path"@)
                &&& json_array_len(args@, "translation"@) is Some
            },
            Result::Err(e) => {
                if json_str_field(args@, "local_path"@) is None {
                    e@ == "Missing local_path"@
                } else {
                    json_array_len(args@, "translation"@) is None && e@ == "Missing translation"@
                }
            },
        },
{
    let local_path = match json_get_str(args, "local_path") {
        Option::Some(p) => p,
        Option::None => {
            return Result::Err("Missing local_path".to_owned());
        },
    };
    let relative_path = json_get_str(args, "relative_path");
    match json_get_array_len(args, "translation") {
        Option::Some(_) => Result::Ok(UploadRequest { local_path, relative_path }),
        Option::None => Result::Err("Missing translation".to_owned()),
    }
}

/// The result text reported after a successful upload: the engine's status
/// code is rendered by the caller.
pub fn upload_success_message(filename: &str, status: &str) -> (r: String)
    ensures
        r@ == "Uploaded and Spawned "@ + filename@ + ". Response: "@ + status@,
{
    let mut s = "Uploaded and Spawned ".to_owned();
    s.append(filename);
    s.append(". Response: ");
    s.append(status);
    proof {
        assert(s@ =~= "Uploaded and Spawned "@ + filename@ + ". Response: "@ + status@);
    }
    s
}

/// The error reported when the upload transport fails.
pub fn upload_error_message(e: &str) -> (r: String)
    ensures
        r@ == "Failed to upload asset: "@ + e@,
{
    let mut s = "Failed to upload asset: ".to_owned();
    s.append(e);
    proof {
        assert(s@ =~= "Failed to upload asset: "@ + e@);
    }
    s
}

/// Sends one raw JSON-RPC request to the engine.
pub struct BevyRpcTool;

impl Tool for BevyRpcTool {
    open spec fn spec_name(&self) -> Seq<char> {
        "bevy_rpc"@
    }

    open spec fn spec_description(&self) -> Seq<char> {
        "Send a raw JSON-RPC request to the running Bevy engine (bevy_remote). Methods: bevy/spawn, bevy/get, bevy/list, etc."@
    }

    open spec fn spec_schema(&self) -> SchemaModel {
        SchemaModel {
            name: "bevy_rpc"@,
            description: "Send a raw JSON-RPC request to Bevy."@,
            params: seq![
                param_model(
                    "method"@,
                    "string"@,
                    "The RPC method (e.g., 'bevy/spawn', 'bevy/query', 'bevy/list')."@,
                    true,
                ),
                param_model("params"@, "object"@, "The parameters for the RPC method."@, true),
            ],
        }
    }

    fn name(&self) -> (r: String) {
        "bevy_rpc".to_owned()
    }

    fn description(&self) -> (r: String) {
        "Send a raw JSON-RPC request to the running Bevy engine (bevy_remote). Methods: bevy/spawn, bevy/get, bevy/list, etc.".to_owned()
    }

    fn schema(&self) -> (r: ToolSchema) {
        let mut params: Vec<ParamSpec> = Vec::new();
        params.push(
            param(
                "method",
                "string",
                "The RPC method (e.g., 'bevy/spawn', 'bevy/query', 'bevy/list').",
                true,
            ),
        );
        params.push(param("params", "object", "The parameters for the RPC method.", true));
        let r = ToolSchema {
            name: "bevy_rpc".to_owned(),
            description: "Send a raw JSON-RPC request to Bevy.".to_owned(),
            params,
        };
        proof {
            assert(r@.params =~= self.spec_schema().params);
        }
        r
    }
}

/// One planned JSON-RPC request: the method, the parameter object's text,
/// and whether the parameters must be wrapped in a `data` envelope, which
/// the engine's world-query endpoint expects.
#[derive(Debug)]
pub struct RpcRequest {
    pub method: String,
    pub params: String,
    pub wrap_in_data: bool,
}

/// The default parameter object when an invocation names none.
pub fn empty_params() -> (r: String)
    ensures
        r@ == "{}"@,
{
    "{}".to_owned()
}

/// Validates the arguments of `bevy_rpc` and decides the envelope: a
/// `world.query` whose parameters carry `components` but no `data` is
/// wrapped for the engine.
pub fn rpc_plan(args: &str) -> (r: Result<RpcRequest, String>)
    ensures
        match r {
            Result::Ok(q) => {
                &&& json_str_field(args@, "method"@) == Option::Some(q.method@)
                &&& q.params@ == (match json_field_text(args@, "params"@) {
                    Option::Some(p) => p,
                    Option::None => "{}"@,
                })
                &&& q.wrap_in_data == (q.method@ == "world.query"@ && !crate::jsonio::json_has_field(
                    q.params@,
                    "data"@,
                ) && crate::jsonio::json_has_field(q.params@, "components"@))
            },
            Result::Err(e) => {
                json_str_field(args@, "method"@) is None && e@ == "Missing 'method' argument"@
            },
        },
{
    let method = match json_get_str(args, "method") {
        Option::Some(m) => m,
        Option::None => {
            return Result::Err("Missing 'method' argument".to_owned());
        },
    };
    let params = match json_get_field_text(args, "params") {
        Option::Some(p) => p,
        Option::None => empty_params(),
    };
    let is_query = str_eq(method.as_str(), "world.query");
    let wrap_in_data = is_query && !json_has_key(params.as_str(), "data") && json_has_key(
        params.as_str(),
        "components",
    );
    Result::Ok(RpcRequest { method, params, wrap_in_data })
}

/// The JSON-RPC payload text for a planned request.
pub open spec fn rpc_payload_model(method: Seq<char>, params: Seq<char>, wrap: bool) -> Seq<char> {
    "{\"jsonrpc\":\"2.0\",\"method\":"@ + quoted(method) + ",\"id\":1,\"params\":"@ + (if wrap {
        "{\"data\":"@ + params + "}"@
    } else {
        params
    }) + "}"@
}

/// Renders the JSON-RPC payload for a planned request.
pub fn render_rpc_payload(q: &RpcRequest) -> (r: String)
    ensures
        r@ == rpc_payload_model(q.method@, q.params@, q.wrap_in_data),
{
    let mut s = "{\"jsonrpc\":\"2.0\",\"method\":".to_owned();
    let quoted_method = quote_json(q.method.as_str());
    s.append(quoted_method.as_str());
    s.append(",\"id\":1,\"params\":");
    if q.wrap_in_data {
        s.append("{\"data\":");
        s.append(q.params.as_str());
        s.append("}");
    } else {
        s.append(q.params.as_str());
    }
    s.append("}");
    proof {
        assert(s@ =~= rpc_payload_model(q.method@, q.params@, q.wrap_in_data));
    }
    s
}

/// Interprets a JSON-RPC response body: an `error` member fails the call,
/// a `result` member is reported pretty-printed, and an empty response is
/// acknowledged.
pub fn interpret_rpc_response(body: &str) -> (r: Result<String, String>)
    ensures
        match r {
            Result::Err(e) => {
                json_field_text(body@, "error"@) matches Option::Some(t) && e@ == "Bevy RPC Error: "@
                    + t
            },
            Result::Ok(o) => {
                &&& json_field_text(body@, "error"@) is None
                &&& (match json_field_text_pretty(body@, "result"@) {
                    Option::Some(t) => o@ == t,
                    Option::None => o@ == "Success (No result)"@,
                })
            },
        },
{
    match json_get_field_text(body, "error") {
        Option::Some(t) => {
            let mut e = "Bevy RPC Error: ".to_owned();
            e.append(t.as_str());
            proof {
                assert(e@ =~= "Bevy RPC Error: "@ + t@);
            }
            Result::Err(e)
        },
        Option::None => {
            match json_get_field_text_pretty(body, "result") {
                Option::Some(t) => Result::Ok(t),
                Option::None => Result::Ok("Success (No result)".to_owned()),
            }
        },
    }
}

/// The error reported when the engine cannot be reached.
pub fn rpc_connect_error(e: &str) -> (r: String)
    ensures
        r@ == "Failed to connect to Bevy (is bevy_remote feature enabled and app running?): "@ + e@,
{
    let mut s = "Failed to connect to Bevy (is bevy_remote feature enabled and app running?): ".to_owned();
    s.append(e);
    proof {
        assert(s@ =~= "Failed to connect to Bevy (is bevy_remote feature enabled and app running?): "@
            + e@);
    }
    s
}

/// Spawns a glTF scene in the engine.
pub struct BevySpawnSceneTool;

impl Tool for BevySpawnSceneTool {
    open spec fn spec_name(&self) -> Seq<char> {
        "bevy_spawn_scene"@
    }

    open spec fn spec_description(&self) -> Seq<char> {
        "Spawn a glTF scene in Bevy. Handles Transform and SceneRoot components automatically."@
    }

    open spec fn spec_schema(&self) -> SchemaModel {
        SchemaModel {
            name: "bevy_spawn_scene"@,
            description: "Spawn a glTF scene in Bevy."@,
            params: seq![
                param_model(
                    "asset_path"@,
                    "string"@,
                    "Path to the glTF asset (relative to assets folder, e.g., 'models/cube.glb#Scene0')"@,
                    true,
                ),
                param_model("translation"@, "array"@, "[x, y, z] position"@, true),
                param_model("scale"@, "array"@, "[x, y, z] scale (default [1,1,1])"@, false),
            ],
        }
    }

    fn name(&self) -> (r: String) {
        "bevy_spawn_scene".to_owned()
    }

    fn description(&self) -> (r: String) {
        "Spawn a glTF scene in Bevy. Handles Transform and SceneRoot components automatically.".to_owned()
    }

    fn schema(&self) -> (r: ToolSchema) {
        let mut params: Vec<ParamSpec> = Vec::new();
        params.push(
            param(
                "asset_path",
                "string",
                "Path to the glTF asset (relative to assets folder, e.g., 'models/cube.glb#Scene0')",
                true,
            ),
        );
        params.push(param("translation", "array", "[x, y, z] position", true));
        params.push(param("scale", "array", "[x, y, z] scale (default [1,1,1])", false));
        let r = ToolSchema {
            name: "bevy_spawn_scene".to_owned(),
            description: "Spawn a glTF scene in Bevy.".to_owned(),
            params,
        };
        proof {
            assert(r@.params =~= self.spec_schema().params);
        }
        r
    }
}

/// Validates the arguments of `bevy_spawn_scene`: the asset path must be a
/// string field and the translation an array field.
pub fn spawn_scene_plan(args: &str) -> (r: Result<String, String>)
    ensures
        match r {
            Result::Ok(p) => {
                &&& json_str_field(args@, "asset_path"@) == Option::Some(p@)
                &&& json_array_len(args@, "translation"@) is Some
            },
            Result::Err(e) => {
                if json_str_field(args@, "asset_path"@) is None {
                    e@ == "Missing asset_path"@
                } else {
                    json_array_len(args@, "translation"@) is None && e@ == "Missing translation"@
                }
            },
        },
{
    let asset_path = match json_get_str(args, "asset_path") {
        Option::Some(p) => p,
        Option::None => {
            return Result::Err("Missing asset_path".to_owned());
        },
    };
    match json_get_array_len(args, "translation") {
        Option::Some(_) => Result::Ok(asset_path),
        Option::None => Result::Err("Missing translation".to_owned()),
    }
}

/// The error reported when the scene spawn transport fails.
pub fn spawn_scene_error(e: &str) -> (r: String)
    ensures
        r@ == "Failed to spawn scene via bevy_remote: "@ + e@,
{
    let mut s = "Failed to spawn scene via bevy_remote: ".to_owned();
    s.append(e);
    proof {
        assert(s@ =~= "Failed to spawn scene via bevy_remote: "@ + e@);
    }
    s
}

/// Despawns every listed entity to clear the engine's scene.
pub struct BevyClearSceneTool;

impl Tool for BevyClearSceneTool {
    open spec fn spec_name(&self) -> Seq<char> {
        "bevy_clear_scene"@
    }

    open spec fn spec_description(&self) -> Seq<char> {
        "Despawn all entities in the Bevy scene to start fresh."@
    }

    open spec fn spec_schema(&self) -> SchemaModel {
        SchemaModel {
            name: "bevy_clear_scene"@,
            description: "Clear the scene by despawning all entities."@,
            params: Seq::empty(),
        }
    }

    fn name(&self) -> (r: String) {
        "bevy_clear_scene".to_owned()
    }

    fn description(&self) -> (r: String) {
        "Despawn all entities in the Bevy scene to start fresh.".to_owned()
    }

    fn schema(&self) -> (r: ToolSchema) {
        let r = ToolSchema {
            name: "bevy_clear_scene".to_owned(),
            description: "Clear the scene by despawning all entities.".to_owned(),
            params: Vec::new(),
        };
        proof {
            assert(r@.params =~= self.spec_schema().params);
        }
        r
    }
}

/// One entity of the engine's listing, reduced to what the clearing logic
/// reads: its id, if the listing carried one.
#[derive(Debug)]
pub struct EntityRecord {
    pub entity: Option<u64>,
}

/// The ids to despawn: every listed entity that carries an id, in order.
pub open spec fn despawn_ids(s: Seq<Option<u64>>) -> Seq<u64>
    decreases s.len(),
{
    if s.len() == 0 {
        Seq::empty()
    } else {
        despawn_ids(s.drop_last()) + (match s.last() {
            Option::Some(id) => seq![id],
            Option::None => Seq::empty(),
        })
    }
}

/// Plans a scene clearing: which entities of the listing to despawn.
pub fn clear_scene_plan(entities: &Vec<EntityRecord>) -> (ids: Vec<u64>)
    ensures
        ids@ == despawn_ids(entities@.map_values(|e: EntityRecord| e.entity)),
{
    let ghost models = entities@.map_values(|e: EntityRecord| e.entity);
    let mut ids: Vec<u64> = Vec::new();
    let n = entities.len();
    let mut i: usize = 0;
    proof {
        assert(models.subrange(0, 0) =~= Seq::<Option<u64>>::empty());
        assert(ids@ =~= despawn_ids(models.subrange(0, 0)));
    }
    while i < n
        invariant
            i <= n,
            n == entities@.len(),
            models == entities@.map_values(|e: EntityRecord| e.entity),
            ids@ == despawn_ids(models.subrange(0, i as int)),
        decreases n - i,
    {
        proof {
            assert(models.subrange(0, i as int + 1).drop_last() =~= models.subrange(0, i as int));
            assert(models.subrange(0, i as int + 1).last() == models[i as int]);
        }
        match entities[i].entity {
            Option::Some(id) => {
                ids.push(id);
                proof {
                    assert(ids@ =~= despawn_ids(models.subrange(0, i as int + 1)));
                }
            },
            Option::None => {
                proof {
                    assert(despawn_ids(models.subrange(0, i as int + 1)) =~= ids@);
                }
            },
        }
        i = i + 1;
    }
    proof {
        assert(models.subrange(0, n as int) =~= models);
    }
    ids
}

/// The payload that despawns one entity.
pub fn render_despawn_payload(id: u64) -> (r: String)
    ensures
        r@ == "{\"jsonrpc\":\"2.0\",\"method\":\"bevy/despawn\",\"id\":1,\"params\":{\"entity\":"@
            + dec_str(id as nat) + "}}"@,
{
    let mut s = "{\"jsonrpc\":\"2.0\",\"method\":\"bevy/despawn\",\"id\":1,\"params\":{\"entity\":".to_owned();
    s.append(u64_to_string(id).as_str());
    s.append("}}");
    proof {
        assert(s@ =~= "{\"jsonrpc\":\"2.0\",\"method\":\"bevy/despawn\",\"id\":1,\"params\":{\"entity\":"@
            + dec_str(id as nat) + "}}"@);
    }
    s
}

/// The payload that lists all entities.
pub fn render_list_payload() -> (r: String)
    ensures
        r@ == "{\"jsonrpc\":\"2.0\",\"method\":\"bevy/list\",\"id\":1,\"params\":{}}"@,
{
    "{\"jsonrpc\":\"2.0\",\"method\":\"bevy/list\",\"id\":1,\"params\":{}}".to_owned()
}

/// The result text after clearing: how many entities were despawned.
pub fn clear_scene_message(n: u64) -> (r: String)
    ensures
        r@ == "Cleared "@ + dec_str(n as nat) + " entities."@,
{
    let mut s = "Cleared ".to_owned();
    s.append(u64_to_string(n).as_str());
    s.append(" entities.");
    proof {
        assert(s@ =~= "Cleared "@ + dec_str(n as nat) + " entities."@);
    }
    s
}

/// Spawns a primitive shape in the engine from a pre-existing asset.
pub struct BevySpawnPrimitiveTool;

impl Tool for BevySpawnPrimitiveTool {
    open spec fn spec_name(&self) -> Seq<char> {
        "bevy_spawn_primitive"@
    }

    open spec fn spec_description(&self) -> Seq<char> {
        "Spawn a primitive 3D object (currently just a cube) at a specific location via Bevy Remote using a pre-existing glTF asset 'cube.glb'."@
    }

    open spec fn spec_schema(&self) -> SchemaModel {
        SchemaModel {
            name: "bevy_spawn_primitive"@,
            description: "Spawn a primitive 3D object using assets/cube.glb."@,
            params: seq![
                param_model("type"@, "string"@, "Type of primitive to spawn."@, true),
                param_model("translation"@, "array"@, "[x, y, z] position"@, true),
            ],
        }
    }

    fn name(&self) -> (r: String) {
        "bevy_spawn_primitive".to_owned()
    }

    fn description(&self) -> (r: String) {
        "Spawn a primitive 3D object (currently just a cube) at a specific location via Bevy Remote using a pre-existing glTF asset 'cube.glb'.".to_owned()
    }

    fn schema(&self) -> (r: ToolSchema) {
        let mut params: Vec<ParamSpec> = Vec::new();
        params.push(param("type", "string", "Type of primitive to spawn.", true));
        params.push(param("translation", "array", "[x, y, z] position", true));
        let r = ToolSchema {
            name: "bevy_spawn_primitive".to_owned(),
            description: "Spawn a primitive 3D object using assets/cube.glb.".to_owned(),
            params,
        };
        proof {
            assert(r@.params =~= self.spec_schema().params);
        }
        r
    }
}

/// Validates the arguments of `bevy_spawn_primitive`: the translation must
/// be an array field.
pub fn spawn_primitive_plan(args: &str) -> (r: Result<(), String>)
    ensures
        match r {
            Result::Ok(u) => json_array_len(args@, "translation"@) is Some,
            Result::Err(e) => {
                json_array_len(args@, "translation"@) is None && e@ == "Missing translation"@
            },
        },
{
    match json_get_array_len(args, "translation") {
        Option::Some(_) => Result::Ok(()),
        Option::None => Result::Err("Missing translation".to_owned()),
    }
}

/// The error reported when the primitive spawn transport fails.
pub fn spawn_primitive_error(e: &str) -> (r: String)
    ensures
        r@ == "Failed to spawn primitive via bevy_remote: "@ + e@
            + ". Is Bevy running on port 15721?"@,
{
    let mut s = "Failed to spawn primitive via bevy_remote: ".to_owned();
    s.append(e);
    s.append(". Is Bevy running on port 15721?");
    proof {
        assert(s@ =~= "Failed to spawn primitive via bevy_remote: "@ + e@
            + ". Is Bevy running on port 15721?"@);
    }
    s
}

} // verus!
