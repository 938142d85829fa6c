use cloudmapper::compare::{compare_report_at, AwsResource, Severity, TerraformResource};
use cloudmapper::demo::{
    app_tags, apps, cost_center, demo_inventory, demo_tfstate, ec2_arn, environments,
    instance_id, instance_type, regions, security_group_id, terraform_manages_instance,
    terraform_manages_security_group, volume_id, volume_size, ACCOUNT_ID,
};
use cloudmapper::model::{relationship_uid, resource_uid};
use cloudmapper::terraform_state::terraform_records;

#[test]
fn demo_inventory_has_the_expected_size() {
    let inventory = demo_inventory();
    assert_eq!(inventory.resources.len(), 414);
    assert_eq!(inventory.relationships.len(), 528);
    assert_eq!(inventory.account_id, ACCOUNT_ID);
    assert_eq!(inventory.regions, vec!["us-east-1", "eu-west-1", "ap-southeast-2"]);
    assert_eq!(inventory.errors.len(), 2);
}

#[test]
fn demo_relationships_connect_demo_resources() {
    let inventory = demo_inventory();
    let uids: std::collections::BTreeSet<&str> =
        inventory.resources.iter().map(|r| r.uid.as_str()).collect();
    assert_eq!(uids.len(), inventory.resources.len());
    for relationship in &inventory.relationships {
        assert!(uids.contains(relationship.from.as_str()));
        assert!(uids.contains(relationship.to.as_str()));
    }
}

#[test]
fn demo_state_and_compare_findings() {
    let inventory = demo_inventory();
    let state = demo_tfstate();
    let records = terraform_records(&state);
    assert_eq!(records.len(), 100);

    let scan: Vec<AwsResource> = inventory
        .resources
        .iter()
        .map(|r| AwsResource {
            uid: r.uid.clone(),
            provider: r.provider.clone(),
            account_id: r.account_id.clone(),
            partition: r.partition.clone(),
            region: r.region.clone(),
            service: r.service.clone(),
            resource_type: r.resource_type.clone(),
            id: r.id.clone(),
            arn: r.arn.clone(),
            name: r.name.clone(),
            tags: r.tags.clone(),
            attributes: r.attributes.clone(),
            evidence: Vec::new(),
        })
        .collect();
    let terraform: Vec<TerraformResource> = records
        .iter()
        .map(|record| TerraformResource {
            address: record.address.clone(),
            resource_type: record.resource_type.clone(),
            aws_uid: record.aws_uid.clone(),
            attributes: record.attributes.clone(),
        })
        .collect();
    let relationships: Vec<(String, String)> = inventory
        .relationships
        .iter()
        .map(|r| (r.from.clone(), r.to.clone()))
        .collect();
    let report = compare_report_at(
        "scan",
        "terraform:demo",
        "2026-05-16T00:00:00+00:00".to_string(),
        scan,
        &terraform,
        &relationships,
        &Vec::new(),
    );
    assert_eq!(report.findings.len(), 327);
    let critical = report.findings.iter().filter(|f| f.severity == Severity::Critical).count();
    let high = report.findings.iter().filter(|f| f.severity == Severity::High).count();
    assert_eq!(critical, 15);
    assert_eq!(high, 3);
}

#[test]
fn demo_ids_and_names() {
    let region = regions()[0];
    let env = environments()[0];
    let pay = apps()[0];
    assert_eq!(security_group_id(region, env, pay), "sg-use1prodpay");
    assert_eq!(instance_id(region, env, pay, 0), "i-use1prodpay01");
    assert_eq!(volume_id(region, env, pay, 2), "vol-use1prodpay03");
    assert_eq!(
        ec2_arn("us-east-1", "vpc", "vpc-1"),
        "arn:aws:ec2:us-east-1:804977871902:vpc/vpc-1"
    );
}

#[test]
fn demo_sizes_types_and_ownership() {
    let envs = environments();
    let all = apps();
    let (prod, stage, dev) = (envs[0], envs[1], envs[2]);
    let ana = all[4];
    let pay = all[0];
    let orders = all[2];
    assert_eq!(instance_type(prod, ana), "m7i.2xlarge");
    assert_eq!(instance_type(prod, pay), "m7i.large");
    assert_eq!(instance_type(stage, pay), "t3.medium");
    assert_eq!(instance_type(dev, pay), "t3.small");
    assert_eq!(volume_size(prod, ana), 1024);
    assert_eq!(volume_size(prod, pay), 500);
    assert_eq!(volume_size(dev, pay), 50);
    assert_eq!(cost_center(pay), "cc-110-payments");
    assert!(terraform_manages_security_group(prod, orders));
    assert!(!terraform_manages_instance(prod, orders));
    assert!(!terraform_manages_security_group(stage, pay));
    let tags = app_tags(prod, pay, "terraform");
    let keys: Vec<&str> = tags.iter().map(|(k, _)| k.as_str()).collect();
    assert_eq!(keys, vec!["Application", "CostCenter", "Environment", "ManagedBy", "Owner"]);
}

#[test]
fn demo_uids_are_derived_from_their_fields() {
    let inventory = demo_inventory();
    for r in &inventory.resources {
        assert_eq!(r.provider, "aws");
        assert_eq!(r.account_id, ACCOUNT_ID);
        assert_eq!(r.uid, resource_uid(&r.account_id, &r.region, &r.service, &r.resource_type, &r.id));
    }
    for rel in &inventory.relationships {
        assert_eq!(rel.uid, relationship_uid(&rel.from, &rel.relationship_type, &rel.to));
    }
}

#[test]
fn demo_state_and_inventory_start_and_end_as_listed() {
    let state = demo_tfstate();
    assert_eq!(state.resources[0].resource_type, "aws_vpc");
    assert_eq!(state.resources[0].name, "prod_use1");
    assert_eq!(state.resources[1].name, "prod_use1_app_1");
    let last = state.resources.last().unwrap();
    assert_eq!((last.resource_type.as_str(), last.name.as_str()), ("aws_ebs_volume", "deleted_batch_cache"));
    let inventory = demo_inventory();
    assert_eq!(inventory.resources[0].id, "cloudmapper-demo-pay-runtime");
    assert_eq!(inventory.resources[0].resource_type, "role");
    assert_eq!(inventory.relationships[0].relationship_type, "in_vpc");
}

fn demo_resource<'a>(
    inventory: &'a cloudmapper::model::Inventory,
    id: &str,
) -> &'a cloudmapper::model::Resource {
    inventory.resources.iter().find(|r| r.id == id).unwrap()
}

#[test]
fn demo_network_and_security_group_contents() {
    let inventory = demo_inventory();
    let vpc = demo_resource(&inventory, "vpc-use1prod");
    assert_eq!(vpc.arn.as_deref(), Some("arn:aws:ec2:us-east-1:804977871902:vpc/vpc-use1prod"));
    assert_eq!(vpc.name.as_deref(), Some("prod-use1-shared-vpc"));
    assert_eq!(vpc.attributes.get_str("cidr_block").map(String::as_str), Some("10.10.0.0/16"));
    let subnet = demo_resource(&inventory, "subnet-use1prod2");
    assert_eq!(subnet.attributes.get_str("cidr_block").map(String::as_str), Some("10.10.11.0/24"));
    assert_eq!(subnet.attributes.get_str("availability_zone").map(String::as_str), Some("us-east-1b"));
    let edge = demo_resource(&inventory, "sg-use1prodedge");
    let ingress = format!("{:?}", edge.attributes.get("ingress").unwrap());
    assert!(ingress.contains("0.0.0.0/0"));
    assert!(ingress.contains("::/0"));
    let payments = demo_resource(&inventory, "sg-use1prodpay");
    let ingress = format!("{:?}", payments.attributes.get("ingress").unwrap());
    assert!(ingress.contains("10.0.0.0/8"));
    assert!(!ingress.contains("0.0.0.0/0"));
}

#[test]
fn demo_inventory_is_the_same_on_every_call() {
    assert_eq!(format!("{:?}", demo_inventory()), format!("{:?}", demo_inventory()));
}

#[test]
fn demo_state_blocks_hold_attributes_and_dependencies() {
    let state = demo_tfstate();
    let vpc = &state.resources[0];
    assert_eq!(vpc.resource_type, "aws_vpc");
    assert_eq!(vpc.name, "prod_use1");
    let attributes = &vpc.instances[0].attributes;
    assert_eq!(attributes.get_str("cidr_block").map(String::as_str), Some("10.10.0.0/16"));
    let subnet = &state.resources[1];
    assert_eq!(subnet.name, "prod_use1_app_1");
    assert_eq!(
        format!("{:?}", subnet.instances[0].dependencies),
        format!("{:?}", cloudmapper::json::JsonValue::Array(vec![cloudmapper::json::JsonValue::Str("aws_vpc.prod_use1".to_string())]))
    );
    let last = state.resources.last().unwrap();
    assert_eq!(last.resource_type, "aws_ebs_volume");
    assert_eq!(last.instances[0].attributes.get_str("id").map(String::as_str), Some("vol-deleted-batch-cache"));
}
