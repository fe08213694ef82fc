use agent_core::bevy::clear_scene_message;
use agent_core::bevy::clear_scene_plan;
use agent_core::bevy::interpret_rpc_response;
use agent_core::bevy::render_despawn_payload;
use agent_core::bevy::render_list_payload;
use agent_core::bevy::render_rpc_payload;
use agent_core::bevy::rpc_connect_error;
use agent_core::bevy::rpc_plan;
use agent_core::bevy::spawn_primitive_plan;
use agent_core::bevy::spawn_scene_plan;
use agent_core::bevy::upload_asset_plan;
use agent_core::bevy::upload_error_message;
use agent_core::bevy::upload_success_message;
use agent_core::bevy::EntityRecord;
use agent_core::registry::Tool;
use agent_core::bevy::BevyClearSceneTool;
use agent_core::bevy::BevyRpcTool;
use agent_core::bevy::BevySpawnPrimitiveTool;
use agent_core::bevy::BevySpawnSceneTool;
use agent_core::bevy::BevyUploadAssetTool;

#[test]
fn engine_tool_names_are_declared() {
    assert_eq!(BevyUploadAssetTool.name(), "bevy_upload_asset");
    assert_eq!(BevyRpcTool.name(), "bevy_rpc");
    assert_eq!(BevySpawnSceneTool.name(), "bevy_spawn_scene");
    assert_eq!(BevyClearSceneTool.name(), "bevy_clear_scene");
    assert_eq!(BevySpawnPrimitiveTool.name(), "bevy_spawn_primitive");
    assert_eq!(BevyClearSceneTool.schema().params.len(), 0);
    assert_eq!(BevyUploadAssetTool.schema().params.len(), 4);
}

#[test]
fn upload_plan_validates_its_arguments() {
    let u = upload_asset_plan(
        "{\"local_path\":\"/tmp/m.glb\",\"relative_path\":\"models\",\"translation\":[0,1,2]}",
    )
    .unwrap();
    assert_eq!(u.local_path, "/tmp/m.glb");
    assert_eq!(u.relative_path.as_deref(), Some("models"));
    assert_eq!(
        upload_asset_plan("{\"translation\":[0,1,2]}").unwrap_err(),
        "Missing local_path"
    );
    assert_eq!(
        upload_asset_plan("{\"local_path\":\"x\"}").unwrap_err(),
        "Missing translation"
    );
    assert_eq!(
        upload_asset_plan("{\"local_path\":\"x\",\"translation\":3}").unwrap_err(),
        "Missing translation"
    );
}

#[test]
fn rpc_plan_wraps_a_bare_world_query() {
    let q = rpc_plan(
        "{\"method\":\"world.query\",\"params\":{\"components\":[\"Transform\"]}}",
    )
    .unwrap();
    assert_eq!(q.method, "world.query");
    assert!(q.wrap_in_data);
    assert_eq!(
        render_rpc_payload(&q),
        "{\"jsonrpc\":\"2.0\",\"method\":\"world.query\",\"id\":1,\"params\":{\"data\":{\"components\":[\"Transform\"]}}}"
    );
}

#[test]
fn rpc_plan_leaves_enveloped_queries_alone() {
    let q = rpc_plan(
        "{\"method\":\"world.query\",\"params\":{\"data\":{\"components\":[]}}}",
    )
    .unwrap();
    assert!(!q.wrap_in_data);
    let other = rpc_plan("{\"method\":\"bevy/list\",\"params\":{\"components\":[]}}").unwrap();
    assert!(!other.wrap_in_data);
}

#[test]
fn rpc_plan_defaults_missing_params() {
    let q = rpc_plan("{\"method\":\"bevy/list\"}").unwrap();
    assert_eq!(q.params, "{}");
    assert_eq!(
        render_rpc_payload(&q),
        "{\"jsonrpc\":\"2.0\",\"method\":\"bevy/list\",\"id\":1,\"params\":{}}"
    );
    assert_eq!(rpc_plan("{\"params\":{}}").unwrap_err(), "Missing 'method' argument");
}

#[test]
fn rpc_payloads_are_wellformed_json() {
    let q = rpc_plan("{\"method\":\"a\\\"b\",\"params\":{}}").unwrap();
    let payload = render_rpc_payload(&q);
    let v: serde_json::Value = serde_json::from_str(&payload).unwrap();
    assert_eq!(v["method"], serde_json::Value::String("a\"b".to_string()));
    let lp: serde_json::Value = serde_json::from_str(&render_list_payload()).unwrap();
    assert_eq!(lp["method"], "bevy/list");
    let dp: serde_json::Value = serde_json::from_str(&render_despawn_payload(42)).unwrap();
    assert_eq!(dp["params"]["entity"], 42);
}

#[test]
fn rpc_responses_are_interpreted() {
    let err = interpret_rpc_response("{\"error\":{\"code\":-1}}").unwrap_err();
    assert_eq!(err, "Bevy RPC Error: {\"code\":-1}");
    // The result member is reported pretty-printed, exactly as serde_json
    // renders it.
    let ok = interpret_rpc_response("{\"result\":{\"entity\":7}}").unwrap();
    let direct = serde_json::to_string_pretty(
        &serde_json::from_str::<serde_json::Value>("{\"result\":{\"entity\":7}}").unwrap()
            ["result"],
    )
    .unwrap();
    assert_eq!(ok, direct);
    let empty = interpret_rpc_response("{}").unwrap();
    assert_eq!(empty, "Success (No result)");
}

#[test]
fn spawn_plans_validate_their_arguments() {
    assert_eq!(
        spawn_scene_plan("{\"asset_path\":\"m.glb\",\"translation\":[0,0,0]}").unwrap(),
        "m.glb"
    );
    assert_eq!(spawn_scene_plan("{\"translation\":[0,0,0]}").unwrap_err(), "Missing asset_path");
    assert_eq!(spawn_scene_plan("{\"asset_path\":\"m\"}").unwrap_err(), "Missing translation");
    assert!(spawn_primitive_plan("{\"type\":\"cube\",\"translation\":[1,2,3]}").is_ok());
    assert_eq!(spawn_primitive_plan("{\"type\":\"cube\"}").unwrap_err(), "Missing translation");
}

#[test]
fn clearing_despawns_every_listed_entity() {
    let entities = vec![
        EntityRecord { entity: Some(4) },
        EntityRecord { entity: None },
        EntityRecord { entity: Some(9) },
    ];
    let ids = clear_scene_plan(&entities);
    assert_eq!(ids, vec![4, 9]);
    assert_eq!(clear_scene_message(ids.len() as u64), "Cleared 2 entities.");
    assert_eq!(clear_scene_message(0), "Cleared 0 entities.");
}

#[test]
fn transport_errors_render_the_fixed_texts() {
    assert_eq!(
        upload_error_message("timed out"),
        "Failed to upload asset: timed out"
    );
    assert_eq!(
        upload_success_message("m.glb", "200"),
        "Uploaded and Spawned m.glb. Response: 200"
    );
    assert_eq!(
        rpc_connect_error("refused"),
        "Failed to connect to Bevy (is bevy_remote feature enabled and app running?): refused"
    );
}
