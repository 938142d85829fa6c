use cloudmapper::json::{json_text, JsonValue};
use cloudmapper::terraform_state::{
    import_state_id, state_id_for, terraform_address, terraform_records, TerraformInstance,
    TerraformResource, TerraformState,
};

fn to_json(value: &serde_json::Value) -> JsonValue {
    match value {
        serde_json::Value::Null => JsonValue::Null,
        serde_json::Value::Bool(b) => JsonValue::Bool(*b),
        serde_json::Value::Number(n) => JsonValue::Number(n.to_string()),
        serde_json::Value::String(s) => JsonValue::Str(s.clone()),
        serde_json::Value::Array(items) => JsonValue::Array(items.iter().map(to_json).collect()),
        serde_json::Value::Object(map) => {
            JsonValue::Object(map.iter().map(|(k, v)| (k.clone(), to_json(v))).collect())
        }
    }
}

fn extra(map: &serde_json::Map<String, serde_json::Value>, known: &[&str]) -> Vec<(String, JsonValue)> {
    map.iter()
        .filter(|(k, _)| !known.contains(&k.as_str()))
        .map(|(k, v)| (k.clone(), to_json(v)))
        .collect()
}

fn text(map: &serde_json::Map<String, serde_json::Value>, key: &str) -> Option<String> {
    map.get(key).and_then(|v| v.as_str()).map(|s| s.to_string())
}

fn member(map: &serde_json::Map<String, serde_json::Value>, key: &str) -> JsonValue {
    map.get(key).map(to_json).unwrap_or(JsonValue::Null)
}

fn instance_from(value: &serde_json::Value) -> TerraformInstance {
    let map = value.as_object().unwrap();
    let key = map.get("index_key").filter(|k| !k.is_null());
    TerraformInstance {
        index_key: key.map(to_json),
        schema_version: map.get("schema_version").and_then(|v| v.as_i64()),
        attributes: member(map, "attributes"),
        sensitive_attributes: member(map, "sensitive_attributes"),
        dependencies: member(map, "dependencies"),
        extra: extra(
            map,
            &["index_key", "schema_version", "attributes", "sensitive_attributes", "dependencies"],
        ),
    }
}

fn resource_from(value: &serde_json::Value) -> TerraformResource {
    let map = value.as_object().unwrap();
    TerraformResource {
        module: text(map, "module"),
        mode: text(map, "mode").unwrap(),
        resource_type: text(map, "type").unwrap(),
        name: text(map, "name").unwrap(),
        provider: text(map, "provider"),
        instances: map
            .get("instances")
            .and_then(|v| v.as_array())
            .map(|items| items.iter().map(instance_from).collect())
            .unwrap_or_default(),
        extra: extra(map, &["module", "mode", "type", "name", "provider", "instances"]),
    }
}

fn state_from(text_value: &str) -> TerraformState {
    let value: serde_json::Value = serde_json::from_str(text_value).unwrap();
    let map = value.as_object().unwrap();
    TerraformState {
        version: map.get("version").and_then(|v| v.as_i64()),
        terraform_version: text(map, "terraform_version"),
        serial: map.get("serial").and_then(|v| v.as_i64()),
        lineage: text(map, "lineage"),
        resources: map
            .get("resources")
            .and_then(|v| v.as_array())
            .map(|items| items.iter().map(resource_from).collect())
            .unwrap_or_default(),
        extra: extra(map, &["version", "terraform_version", "serial", "lineage", "resources"]),
    }
}

const SAMPLE_TFSTATE: &str = r#"
{
  "version": 4,
  "terraform_version": "1.8.0",
  "serial": 42,
  "lineage": "test-lineage",
  "outputs": {},
  "resources": [
    {
      "mode": "managed",
      "type": "aws_security_group",
      "name": "web",
      "provider": "provider[\"registry.terraform.io/hashicorp/aws\"]",
      "instances": [
        {
          "schema_version": 1,
          "attributes": {
            "id": "sg-123",
            "arn": "arn:aws:ec2:us-east-1:123456789012:security-group/sg-123",
            "name": "web"
          },
          "sensitive_attributes": [],
          "dependencies": []
        }
      ]
    },
    {
      "mode": "managed",
      "type": "aws_instance",
      "name": "web",
      "provider": "provider[\"registry.terraform.io/hashicorp/aws\"]",
      "instances": [
        {
          "index_key": 0,
          "schema_version": 1,
          "attributes": {
            "id": "i-123",
            "arn": "arn:aws:ec2:us-east-1:123456789012:instance/i-123"
          },
          "sensitive_attributes": [],
          "dependencies": ["aws_security_group.web"]
        }
      ]
    },
    {
      "module": "module.app",
      "mode": "managed",
      "type": "aws_lambda_function",
      "name": "handler",
      "provider": "provider[\"registry.terraform.io/hashicorp/aws\"]",
      "instances": [
        {
          "index_key": "blue",
          "schema_version": 1,
          "attributes": {
            "id": "handler-blue",
            "arn": "arn:aws:lambda:us-east-1:123456789012:function:handler-blue"
          },
          "sensitive_attributes": [],
          "dependencies": ["aws_iam_role.lambda"]
        }
      ]
    }
  ]
}
"#;

#[test]
fn builds_terraform_addresses() {
    let state = state_from(SAMPLE_TFSTATE);
    let records = terraform_records(&state);

    assert_eq!(records[0].address, "aws_security_group.web");
    assert_eq!(records[1].address, "aws_instance.web[0]");
    assert_eq!(
        records[2].address,
        "module.app.aws_lambda_function.handler[\"blue\"]"
    );
}

#[test]
fn records_infer_aws_uids_from_arns() {
    let state = state_from(SAMPLE_TFSTATE);
    let records = terraform_records(&state);

    assert_eq!(records.len(), 3);
    assert_eq!(
        records[0].aws_uid.as_deref(),
        Some("aws:123456789012:us-east-1:ec2:security-group:sg-123")
    );
    assert_eq!(
        records[1].aws_uid.as_deref(),
        Some("aws:123456789012:us-east-1:ec2:instance:i-123")
    );
    assert!(matches!(&records[1].index_key, Some(JsonValue::Number(n)) if n == "0"));
    assert_eq!(records[2].module.as_deref(), Some("module.app"));
}

#[test]
fn records_normalize_missing_attributes() {
    let state = state_from(
        r#"{"resources": [{"mode": "data", "type": "aws_caller_identity", "name": "me",
            "instances": [{"attributes": null}]}]}"#,
    );
    let records = terraform_records(&state);
    assert_eq!(records.len(), 1);
    assert_eq!(records[0].address, "aws_caller_identity.me");
    assert!(matches!(&records[0].attributes, JsonValue::Object(m) if m.is_empty()));
    assert!(matches!(&records[0].sensitive_attributes, JsonValue::Array(a) if a.is_empty()));
    assert!(matches!(&records[0].dependencies, JsonValue::Array(a) if a.is_empty()));
    assert!(records[0].aws_uid.is_none());
    let raw_instance = records[0].raw.get("instance").unwrap();
    assert!(matches!(raw_instance.get("attributes"), Some(JsonValue::Null)));
}

#[test]
fn default_state_ids() {
    let lineage = "test-lineage".to_string();
    let stem = "prod".to_string();
    assert_eq!(
        state_id_for(Some(&lineage), Some(42), Some(&stem)),
        "terraform:test-lineage:42"
    );
    assert_eq!(state_id_for(Some(&lineage), None, Some(&stem)), "terraform:test-lineage");
    assert_eq!(state_id_for(None, Some(42), Some(&stem)), "terraform:prod");
    assert_eq!(state_id_for(None, None, None), "terraform:state");
}

#[test]
fn import_state_id_prefers_the_requested_id() {
    let state = state_from(SAMPLE_TFSTATE);
    assert_eq!(
        import_state_id("terraform.tfstate", Some("terraform:demo".to_string()), &state),
        "terraform:demo"
    );
    assert_eq!(
        import_state_id("terraform.tfstate", None, &state),
        "terraform:test-lineage:42"
    );
    let bare = state_from(r#"{"resources": []}"#);
    assert_eq!(import_state_id("/tmp/envs/prod.tfstate", None, &bare), "terraform:prod");
}

#[test]
fn addresses_without_module_or_key() {
    let state = state_from(SAMPLE_TFSTATE);
    assert_eq!(
        terraform_address(&state.resources[0], None),
        "aws_security_group.web"
    );
    let key = JsonValue::Str("blue".to_string());
    assert_eq!(
        terraform_address(&state.resources[2], Some(&key)),
        "module.app.aws_lambda_function.handler[\"blue\"]"
    );
}

#[test]
fn json_text_writes_compact_serde_json_text() {
    assert_eq!(json_text(&JsonValue::Str("blue".to_string())), "\"blue\"");
    assert_eq!(json_text(&JsonValue::Number("0".to_string())), "0");
    let object = JsonValue::Object(vec![
        ("b".to_string(), JsonValue::Number("1".to_string())),
        ("a".to_string(), JsonValue::Str("x\"y".to_string())),
    ]);
    assert_eq!(json_text(&object), "{\"a\":\"x\\\"y\",\"b\":1}");
}

#[test]
fn addresses_quote_string_index_keys() {
    let state = state_from(
        r#"{"resources": [{"module": "module.net", "mode": "managed", "type": "aws_subnet", "name": "private",
            "instances": [{"index_key": "us-east-1a", "attributes": {}}, {"index_key": 2, "attributes": {}}]}]}"#,
    );
    let records = terraform_records(&state);
    assert_eq!(records[0].address, "module.net.aws_subnet.private[\"us-east-1a\"]");
    assert_eq!(records[1].address, "module.net.aws_subnet.private[2]");
    let resource = &state.resources[0];
    assert_eq!(terraform_address(resource, None), "module.net.aws_subnet.private");
}
