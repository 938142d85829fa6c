use cloudmapper::cost::{
    basis_confidence, cost_basis, CostBasis,
    cost_explorer_services, dedupe_tags, default_cost_metric, default_cost_tags,
    normalize_cost_explorer_tag_value, tag_value, COST_MODE_ACTUAL, COST_MODE_ESTIMATED,
};

#[test]
fn parses_cost_explorer_tag_key_prefix() {
    assert_eq!(
        normalize_cost_explorer_tag_value("Environment", "Environment$prod").as_deref(),
        Some("prod")
    );
    assert!(normalize_cost_explorer_tag_value("Environment", "Environment$").is_none());
}

#[test]
fn tag_values_without_prefix_are_trimmed() {
    assert_eq!(
        normalize_cost_explorer_tag_value("Owner", "  team-a ").as_deref(),
        Some("team-a")
    );
    assert!(normalize_cost_explorer_tag_value("Owner", "   ").is_none());
}

#[test]
fn default_tags_and_metric() {
    assert_eq!(
        default_cost_tags(),
        vec!["Environment", "Application", "Owner", "Name"]
    );
    assert_eq!(default_cost_metric(), "UnblendedCost");
    assert_eq!(COST_MODE_ESTIMATED, "estimated");
    assert_eq!(COST_MODE_ACTUAL, "actual");
}

#[test]
fn services_billed_per_resource_kind() {
    assert_eq!(
        cost_explorer_services("ec2", "instance"),
        vec!["Amazon Elastic Compute Cloud - Compute"]
    );
    assert_eq!(
        cost_explorer_services("ec2", "nat-gateway"),
        vec!["Amazon Virtual Private Cloud", "EC2 - Other"]
    );
    assert_eq!(cost_explorer_services("s3", "bucket"), vec!["Amazon Simple Storage Service"]);
    assert!(cost_explorer_services("ec2", "vpc").is_empty());
}

#[test]
fn tag_lookup_ignores_ascii_case_and_trims() {
    let tags = vec![
        ("environment".to_string(), " prod ".to_string()),
        ("Owner".to_string(), "".to_string()),
    ];
    assert_eq!(tag_value(&tags, "Environment").as_deref(), Some("prod"));
    assert!(tag_value(&tags, "owner").is_none());
    assert!(tag_value(&tags, "Name").is_none());
}

#[test]
fn dedupes_tags_keeping_first_occurrence() {
    let tags = dedupe_tags(vec![
        " Environment".to_string(),
        "Owner".to_string(),
        "Environment ".to_string(),
        "  ".to_string(),
        "Name".to_string(),
    ]);
    assert_eq!(tags, vec!["Environment", "Owner", "Name"]);
}

#[test]
fn resources_are_priced_by_kind_and_state() {
    assert_eq!(cost_basis("aws", "ec2", "instance", Some("running")), Some(CostBasis::Ec2Instance));
    assert_eq!(cost_basis("aws", "ec2", "instance", None), Some(CostBasis::Ec2Instance));
    assert_eq!(cost_basis("aws", "ec2", "instance", Some("stopped")), Some(CostBasis::StoppedInstance));
    assert_eq!(cost_basis("aws", "ec2", "instance", Some("terminated")), Some(CostBasis::StoppedInstance));
    assert_eq!(cost_basis("aws", "ec2", "volume", Some("stopped")), Some(CostBasis::EbsVolume));
    assert_eq!(cost_basis("aws", "ec2", "nat-gateway", None), Some(CostBasis::NatGateway));
    assert_eq!(cost_basis("aws", "rds", "db-instance", None), Some(CostBasis::RdsInstance));
    assert_eq!(cost_basis("aws", "s3", "bucket", None), Some(CostBasis::S3Bucket));
    assert_eq!(cost_basis("aws", "kms", "key", None), Some(CostBasis::KmsKey));
    assert_eq!(cost_basis("aws", "iam", "role", None), Some(CostBasis::NoCharge));
    assert_eq!(cost_basis("aws", "ec2", "security-group", None), Some(CostBasis::NoCharge));
    assert_eq!(cost_basis("aws", "lambda", "function", None), None);
    assert_eq!(cost_basis("k8s", "ec2", "instance", None), None);
    assert_eq!(basis_confidence(CostBasis::NoCharge), "high");
    assert_eq!(basis_confidence(CostBasis::StoppedInstance), "medium");
}
