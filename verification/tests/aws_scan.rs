use cloudmapper::aws_scan::{
    dedupe_regions, ec2_target_uid, merge_attributes, normalize_s3_region, scan_plan, InstanceRecord,
    InventoryBuilder, RouteAssociationRecord, RouteRecord, RouteTableRecord, ScanStage,
};
use cloudmapper::json::JsonValue;

fn to_json(value: &serde_json::Value) -> JsonValue {
    match value {
        serde_json::Value::Null => JsonValue::Null,
        serde_json::Value::Bool(b) => JsonValue::Bool(*b),
        serde_json::Value::Number(n) => JsonValue::Number(n.to_string()),
        serde_json::Value::String(s) => JsonValue::Str(s.clone()),
        serde_json::Value::Array(items) => JsonValue::Array(items.iter().map(to_json).collect()),
        serde_json::Value::Object(map) => {
            JsonValue::Object(map.iter().map(|(k, v)| (k.clone(), to_json(v))).collect())
        }
    }
}

fn parse(text: &str) -> JsonValue {
    to_json(&serde_json::from_str::<serde_json::Value>(text).unwrap())
}

fn str_member(value: &JsonValue, key: &str) -> Option<String> {
    value.get(key).and_then(|v| v.as_str()).cloned()
}

#[test]
fn normalizes_legacy_s3_eu_region() {
    assert_eq!(normalize_s3_region(Some("EU")), "eu-west-1");
}

#[test]
fn infers_route_targets() {
    assert_eq!(
        ec2_target_uid("123456789012", "us-east-1", "igw-123"),
        "aws:123456789012:us-east-1:ec2:internet-gateway:igw-123"
    );
}

#[test]
fn merge_attributes_preserves_existing_detail() {
    let mut existing = parse(r#"{"cidr_block": "10.0.0.0/16", "discovered_by": "ec2"}"#);

    merge_attributes(
        &mut existing,
        parse(r#"{"discovered_by": "resourcegroupstagging", "owner": "team-a"}"#),
    );

    assert_eq!(str_member(&existing, "cidr_block").as_deref(), Some("10.0.0.0/16"));
    assert_eq!(str_member(&existing, "discovered_by").as_deref(), Some("ec2"));
    assert_eq!(str_member(&existing, "owner").as_deref(), Some("team-a"));
}

#[test]
fn s3_region_defaults_to_us_east_1_without_constraint() {
    assert_eq!(normalize_s3_region(None), "us-east-1");
    assert_eq!(normalize_s3_region(Some("")), "us-east-1");
    assert_eq!(normalize_s3_region(Some("ap-southeast-2")), "ap-southeast-2");
}

#[test]
fn route_targets_by_prefix() {
    assert_eq!(
        ec2_target_uid("1", "r", "nat-9"),
        "aws:1:r:ec2:nat-gateway:nat-9"
    );
    assert_eq!(
        ec2_target_uid("1", "r", "tgw-9"),
        "aws:1:r:ec2:transit-gateway:tgw-9"
    );
}

#[test]
fn dedupe_regions_sorts_and_removes_repeats() {
    let regions = dedupe_regions(vec![
        "us-west-2".to_string(),
        "eu-west-1".to_string(),
        "us-west-2".to_string(),
    ]);
    assert_eq!(regions, vec!["eu-west-1".to_string(), "us-west-2".to_string()]);
}

#[test]
fn merge_attributes_fills_empty_existing_object() {
    let mut existing = parse("{}");
    merge_attributes(&mut existing, parse(r#"{"owner": "team-b"}"#));
    assert_eq!(str_member(&existing, "owner").as_deref(), Some("team-b"));
}

fn route(gateway: Option<&str>, nat: Option<&str>) -> RouteRecord {
    RouteRecord {
        destination_cidr_block: Some("0.0.0.0/0".to_string()),
        destination_ipv6_cidr_block: None,
        gateway_id: gateway.map(str::to_string),
        nat_gateway_id: nat.map(str::to_string),
        transit_gateway_id: None,
        vpc_peering_connection_id: None,
        egress_only_internet_gateway_id: None,
        state: Some("active".to_string()),
    }
}

#[test]
fn route_tables_record_their_edges() {
    let mut builder = InventoryBuilder::new(
        "123456789012".to_string(),
        "aws".to_string(),
        "us-east-1".to_string(),
        "2026-01-01T00:00:00Z".to_string(),
        false,
    );
    let table = RouteTableRecord {
        route_table_id: Some("rtb-1".to_string()),
        vpc_id: Some("vpc-1".to_string()),
        routes: vec![route(Some("local"), None), route(Some("igw-1"), None), route(None, Some("nat-1"))],
        associations: vec![RouteAssociationRecord {
            route_table_association_id: Some("rtbassoc-1".to_string()),
            subnet_id: Some("subnet-1".to_string()),
            gateway_id: None,
            main: Some(false),
        }],
        tags: vec![],
    };
    builder.add_route_table("us-east-1", &table);
    let rt = "aws:123456789012:us-east-1:ec2:route-table:rtb-1";
    let find = |from: &str, kind: &str, to: &str| {
        builder
            .relationships
            .iter()
            .find(|r| r.from == from && r.relationship_type == kind && r.to == to)
            .unwrap_or_else(|| panic!("missing {from} {kind} {to}"))
    };
    let in_vpc = find(rt, "in_vpc", "aws:123456789012:us-east-1:ec2:vpc:vpc-1");
    assert!(matches!(in_vpc.attributes, JsonValue::Null));
    assert_eq!(in_vpc.evidence[0].path, "$.RouteTables[].VpcId");
    find("aws:123456789012:us-east-1:ec2:subnet:subnet-1", "uses_route_table", rt);
    let igw = find(rt, "routes_to", "aws:123456789012:us-east-1:ec2:internet-gateway:igw-1");
    assert_eq!(str_member(&igw.attributes, "target_id").as_deref(), Some("igw-1"));
    let nat = find(rt, "routes_to", "aws:123456789012:us-east-1:ec2:nat-gateway:nat-1");
    assert_eq!(str_member(&nat.attributes, "target_id").as_deref(), Some("nat-1"));
    assert_eq!(builder.relationships.len(), 4);
}

#[test]
fn a_failed_step_is_recorded_and_every_step_is_planned() {
    let regions = vec!["us-east-1".to_string(), "eu-west-1".to_string()];
    let plan = scan_plan("us-east-1", &regions);
    assert_eq!(plan.len(), 8);
    assert!(plan[0].stage == ScanStage::S3 && plan[0].region == "us-east-1" && plan[0].operation == "ListBuckets");
    assert!(plan[1].stage == ScanStage::Iam && plan[1].region == "global");
    assert!(plan[5].stage == ScanStage::Ec2 && plan[5].region == "eu-west-1" && plan[5].operation == "regional scan");
    assert!(plan[6].stage == ScanStage::Lambda && plan[6].service == "lambda");
    assert!(plan[7].stage == ScanStage::TaggedResources && plan[7].service == "resourcegroupstagging");

    let mut builder = InventoryBuilder::new(
        "123456789012".to_string(),
        "aws".to_string(),
        "us-east-1".to_string(),
        "2026-01-01T00:00:00Z".to_string(),
        false,
    );
    builder.record_failure(&plan[6], "AccessDenied".to_string());
    assert_eq!(builder.errors.len(), 1);
    assert_eq!(builder.errors[0].service, "lambda");
    assert_eq!(builder.errors[0].region, "eu-west-1");
    assert_eq!(builder.errors[0].operation, "ListFunctions");
    assert_eq!(builder.errors[0].message, "AccessDenied");
}

fn instance(id: Option<&str>, subnet: &str) -> InstanceRecord {
    InstanceRecord {
        instance_id: id.map(str::to_string),
        instance_type: Some("t3.small".to_string()),
        state: Some("running".to_string()),
        image_id: None,
        vpc_id: Some("vpc-1".to_string()),
        subnet_id: Some(subnet.to_string()),
        private_ip_address: None,
        public_ip_address: None,
        availability_zone: None,
        launch_time: None,
        security_group_ids: vec![Some("sg-1".to_string()), None],
        iam_instance_profile_arn: Some("arn:aws:iam::123456789012:instance-profile/web".to_string()),
        tags: vec![],
    }
}

#[test]
fn a_page_of_instances_is_added_with_its_edges() {
    let mut builder = InventoryBuilder::new(
        "123456789012".to_string(),
        "aws".to_string(),
        "us-east-1".to_string(),
        "2026-01-01T00:00:00Z".to_string(),
        false,
    );
    let page = vec![instance(Some("i-1"), "subnet-1"), instance(None, "subnet-9"), instance(Some("i-2"), "subnet-2")];
    builder.add_instances("us-east-1", &page);
    assert_eq!(builder.resources.len(), 2);
    let first = builder
        .resources
        .iter()
        .find(|r| r.uid == "aws:123456789012:us-east-1:ec2:instance:i-1")
        .unwrap();
    assert_eq!(first.arn.as_deref(), Some("arn:aws:ec2:us-east-1:123456789012:instance/i-1"));
    let has = |from: &str, kind: &str, to: &str| {
        builder.relationships.iter().any(|r| r.from == from && r.relationship_type == kind && r.to == to)
    };
    let i2 = "aws:123456789012:us-east-1:ec2:instance:i-2";
    assert!(has(i2, "in_vpc", "aws:123456789012:us-east-1:ec2:vpc:vpc-1"));
    assert!(has(i2, "in_subnet", "aws:123456789012:us-east-1:ec2:subnet:subnet-2"));
    assert!(has(i2, "uses_security_group", "aws:123456789012:us-east-1:ec2:security-group:sg-1"));
    assert!(builder.relationships.iter().all(|r| !r.to.contains("subnet-9")));
    assert_eq!(builder.relationships.len(), 8);
}
