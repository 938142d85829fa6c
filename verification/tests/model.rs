use cloudmapper::json::JsonValue;
use cloudmapper::model::{
    empty_to_global, is_cloudmapper_manifest, parse_arn, provider_resource_uid, relationship_uid,
    resource_uid, scan_id, uid_for_arn, Generator, Inventory,
};
use cloudmapper::model::{output_dir_action, OutputDirAction};

#[test]
fn parses_s3_bucket_arn_as_global_resource() {
    let parsed = parse_arn("arn:aws:s3:::example-bucket").unwrap();

    assert_eq!(parsed.partition, "aws");
    assert_eq!(parsed.service, "s3");
    assert_eq!(parsed.region, "global");
    assert_eq!(parsed.resource_type, "bucket");
    assert_eq!(parsed.resource_id, "example-bucket");
}

#[test]
fn uid_for_arn_fills_missing_account() {
    let uid = uid_for_arn("123456789012", "arn:aws:s3:::example-bucket").unwrap();

    assert_eq!(uid, "aws:123456789012:global:s3:bucket:example-bucket");
}

#[test]
fn uid_for_arn_keeps_the_arn_account() {
    let uid = uid_for_arn(
        "999999999999",
        "arn:aws:ec2:us-east-1:123456789012:security-group/sg-123",
    )
    .unwrap();
    assert_eq!(uid, "aws:123456789012:us-east-1:ec2:security-group:sg-123");
}

#[test]
fn parse_arn_refuses_text_that_is_not_an_arn() {
    assert!(parse_arn("not-an-arn").is_none());
    assert!(uid_for_arn("1", "arn:aws").is_none());
}

#[test]
fn resource_uids_join_sanitized_segments() {
    assert_eq!(
        resource_uid("123", "us-east-1", "ec2", "vpc", "vpc-1"),
        "aws:123:us-east-1:ec2:vpc:vpc-1"
    );
    assert_eq!(
        resource_uid("123", "", "iam", "role", "a b"),
        "aws:123::iam:role:a_b"
    );
}

#[test]
fn provider_uids_use_the_provider_word() {
    assert_eq!(
        provider_resource_uid("k8s", "c1", "prod", "core", "pod", "prod/api"),
        "k8s:c1:prod:core:pod:prod/api"
    );
}

#[test]
fn relationship_uids_name_both_ends() {
    assert_eq!(relationship_uid("a", "in_vpc", "b"), "a->in_vpc->b");
}

#[test]
fn empty_region_becomes_global() {
    assert_eq!(empty_to_global(String::new()), "global");
    assert_eq!(empty_to_global("eu-west-1".to_string()), "eu-west-1");
}

#[test]
fn recognizes_manifests_by_generator_name() {
    let manifest = |name: JsonValue| {
        JsonValue::Object(vec![
            ("schema_version".to_string(), JsonValue::Str("v".to_string())),
            ("generator".to_string(), JsonValue::Object(vec![("name".to_string(), name)])),
        ])
    };
    assert!(is_cloudmapper_manifest(&manifest(JsonValue::Str("cloudmapper".to_string()))));
    assert!(!is_cloudmapper_manifest(&manifest(JsonValue::Str("other-tool".to_string()))));
    assert!(!is_cloudmapper_manifest(&manifest(JsonValue::Bool(true))));
    assert!(!is_cloudmapper_manifest(&JsonValue::Object(Vec::new())));
}

fn empty_inventory(account_id: &str) -> Inventory {
    Inventory {
        schema_version: "v1".to_string(),
        generator: Generator { name: "cloudmapper".to_string(), version: "0.1.0".to_string() },
        account_id: account_id.to_string(),
        partition: "aws".to_string(),
        home_region: "us-east-1".to_string(),
        regions: vec!["us-east-1".to_string()],
        collected_at: "2026-01-01T00:00:00Z".to_string(),
        resources: Vec::new(),
        relationships: Vec::new(),
        errors: Vec::new(),
    }
}

#[test]
fn scan_ids_name_provider_account_and_time() {
    let inventory = empty_inventory("123456789012");
    assert_eq!(scan_id(&inventory, "2026-01-01T00:00:00+00:00"), "aws:123456789012:2026-01-01T00:00:00+00:00");
    let cluster = cloudmapper::k8s_demo::k8s_demo_output().inventory;
    assert_eq!(scan_id(&cluster, "t"), format!("k8s:{}:t", cluster.account_id));
}

#[test]
fn arns_parse_exactly_with_the_prefix_and_five_colons() {
    assert!(parse_arn("arn:aws:s3:::bucket").is_some());
    assert!(parse_arn("arn:aws:s3::bucket").is_none());
    assert!(parse_arn("urn:aws:s3:::bucket").is_none());
    assert!(parse_arn("arnx:aws:s3:::bucket").is_none());
    let parsed = parse_arn("arn:aws-cn:iam::123:role/a:b:c").unwrap();
    assert_eq!(parsed.partition, "aws-cn");
    assert_eq!(parsed.service, "iam");
    assert_eq!(parsed.region, "global");
    assert_eq!(parsed.account_id, "123");
}

#[test]
fn output_directories_are_checked_before_writing() {
    assert!(output_dir_action(false, false, false, false, false) == OutputDirAction::Create);
    assert!(output_dir_action(true, false, true, true, true) == OutputDirAction::NotADirectory);
    assert!(output_dir_action(true, true, false, false, true) == OutputDirAction::Write);
    assert!(output_dir_action(true, true, false, true, false) == OutputDirAction::Write);
    assert!(output_dir_action(true, true, true, false, false) == OutputDirAction::Write);
    assert!(output_dir_action(true, true, false, false, false) == OutputDirAction::NonEmpty);
}
