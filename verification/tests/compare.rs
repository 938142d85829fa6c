use cloudmapper::compare::{
    compare_report_at, finding_id, reverse_neighbors, severity_name, sort_findings, AwsResource,
    DriftCost, Finding, ResourceCosts, Severity, TerraformResource,
};
use cloudmapper::json::JsonValue;

fn to_json(value: &serde_json::Value) -> JsonValue {
    match value {
        serde_json::Value::Null => JsonValue::Null,
        serde_json::Value::Bool(b) => JsonValue::Bool(*b),
        serde_json::Value::Number(n) => JsonValue::Number(n.to_string()),
        serde_json::Value::String(s) => JsonValue::Str(s.clone()),
        serde_json::Value::Array(items) => JsonValue::Array(items.iter().map(to_json).collect()),
        serde_json::Value::Object(map) => {
            JsonValue::Object(map.iter().map(|(k, v)| (k.clone(), to_json(v))).collect())
        }
    }
}

fn parse(text: &str) -> JsonValue {
    to_json(&serde_json::from_str::<serde_json::Value>(text).unwrap())
}

fn text_at(value: &JsonValue, path: &[&str]) -> Option<String> {
    value.pointer(path).and_then(|v| v.as_str()).cloned()
}

fn aws(uid: &str, resource_type: &str, id: &str, name: &str, attributes: &str) -> AwsResource {
    AwsResource {
        uid: uid.to_string(),
        provider: "aws".to_string(),
        account_id: "123456789012".to_string(),
        partition: "aws".to_string(),
        region: "us-east-1".to_string(),
        service: "ec2".to_string(),
        resource_type: resource_type.to_string(),
        id: id.to_string(),
        arn: Some(format!("arn:aws:ec2:us-east-1:123456789012:{resource_type}/{id}")),
        name: Some(name.to_string()),
        tags: Vec::new(),
        attributes: parse(attributes),
        evidence: Vec::new(),
    }
}

fn terraform(address: &str, resource_type: &str, aws_uid: &str, attributes: &str) -> TerraformResource {
    TerraformResource {
        address: address.to_string(),
        resource_type: resource_type.to_string(),
        aws_uid: Some(aws_uid.to_string()),
        attributes: parse(attributes),
    }
}

const PUBLIC_SG: &str = "aws:123456789012:us-east-1:ec2:security-group:sg-public";
const MANAGED_SG: &str = "aws:123456789012:us-east-1:ec2:security-group:sg-managed";
const INSTANCE: &str = "aws:123456789012:us-east-1:ec2:instance:i-public";

fn sample_scan() -> Vec<AwsResource> {
    vec![
        aws(
            PUBLIC_SG,
            "security-group",
            "sg-public",
            "public",
            r#"{"ingress": [{"ip_protocol": "tcp", "from_port": 22, "to_port": 22,
                "ipv4_ranges": ["0.0.0.0/0"], "ipv6_ranges": []}]}"#,
        ),
        aws(MANAGED_SG, "security-group", "sg-managed", "managed", r#"{"ingress": []}"#),
        aws(INSTANCE, "instance", "i-public", "public-instance", "{}"),
    ]
}

fn sample_state() -> Vec<TerraformResource> {
    vec![
        terraform(
            "aws_security_group.managed",
            "aws_security_group",
            MANAGED_SG,
            r#"{"id": "sg-managed"}"#,
        ),
        terraform(
            "aws_instance.missing",
            "aws_instance",
            "aws:123456789012:us-east-1:ec2:instance:i-missing",
            r#"{"id": "i-missing"}"#,
        ),
    ]
}

fn find<'a>(findings: &'a [Finding], finding_type: &str) -> &'a Finding {
    findings
        .iter()
        .find(|finding| finding.finding_type == finding_type)
        .unwrap()
}

#[test]
fn compare_reports_unmanaged_public_resource_with_blast_radius() {
    let relationships = vec![(INSTANCE.to_string(), PUBLIC_SG.to_string())];
    let report = compare_report_at(
        "scan-1",
        "terraform:compare-test:42",
        "2026-05-16T00:00:00+00:00".to_string(),
        sample_scan(),
        &sample_state(),
        &relationships,
        &Vec::new(),
    );

    let public = find(&report.findings, "unmanaged_public_resource");
    assert_eq!(public.severity, Severity::Critical);
    assert_eq!(public.aws_uid.as_deref(), Some(PUBLIC_SG));
    assert_eq!(public.blast_radius, vec![INSTANCE]);
    assert_eq!(report.run_id, "compare:scan-1:terraform:compare-test:42");
    assert_eq!(report.schema_version, "cloudmapper.infra.v1.compare.v1");
}

#[test]
fn compare_reports_state_only_resource() {
    let report = compare_report_at(
        "scan-1",
        "state-1",
        "now".to_string(),
        sample_scan(),
        &sample_state(),
        &Vec::new(),
        &Vec::new(),
    );
    let state_only = find(&report.findings, "state_only_resource");

    assert_eq!(
        state_only.terraform_address.as_deref(),
        Some("aws_instance.missing")
    );
    assert_eq!(state_only.id, "state_only_resource:aws_instance.missing");
}

#[test]
fn compare_reports_costed_ec2_instance_type_drift() {
    let uid = "aws:123456789012:us-east-1:ec2:instance:i-worker";
    let scan = vec![aws(
        uid,
        "instance",
        "i-worker",
        "worker",
        r#"{"instance_type": "t3.2xlarge", "state": "running"}"#,
    )];
    let state = vec![terraform(
        "aws_instance.worker",
        "aws_instance",
        uid,
        r#"{"id": "i-worker", "instance_type": "t3.small"}"#,
    )];
    let costs = vec![ResourceCosts {
        uid: uid.to_string(),
        current: None,
        drift: Some(DriftCost {
            high_impact: true,
            monthly_delta: "+227.76".to_string(),
            cost: parse(r#"{"estimated_delta_monthly_usd": 227.76}"#),
        }),
    }];
    let report = compare_report_at("s", "t", "now".to_string(), scan, &state, &Vec::new(), &costs);

    let drift = find(&report.findings, "terraform_instance_type_drift");
    assert_eq!(drift.severity, Severity::High);
    assert_eq!(drift.terraform_address.as_deref(), Some("aws_instance.worker"));
    assert_eq!(
        text_at(&drift.attributes, &["drift", "terraform_value"]).as_deref(),
        Some("t3.small")
    );
    assert_eq!(
        text_at(&drift.attributes, &["drift", "aws_value"]).as_deref(),
        Some("t3.2xlarge")
    );
    assert!(drift.reason.contains("(estimated +227.76 USD/month)"));
    assert_eq!(report.findings.len(), 1);
}

#[test]
fn drift_without_cost_estimate_is_not_reported() {
    let uid = "aws:1:r:ec2:instance:i-1";
    let scan = vec![aws(uid, "instance", "i-1", "w", r#"{"instance_type": "m5.large"}"#)];
    let state = vec![terraform("aws_instance.w", "aws_instance", uid, r#"{"instance_type": "m5.xlarge"}"#)];
    let report = compare_report_at("s", "t", "now".to_string(), scan, &state, &Vec::new(), &Vec::new());
    assert!(report.findings.is_empty());
}

#[test]
fn managed_public_security_group_is_high() {
    let state = vec![terraform(
        "aws_security_group.public",
        "aws_security_group",
        PUBLIC_SG,
        "{}",
    )];
    let report = compare_report_at(
        "s",
        "t",
        "now".to_string(),
        sample_scan(),
        &state,
        &Vec::new(),
        &Vec::new(),
    );
    let owned = find(&report.findings, "terraform_owned_public_ingress");
    assert_eq!(owned.severity, Severity::High);
    assert_eq!(owned.terraform_address.as_deref(), Some("aws_security_group.public"));
    assert_eq!(
        owned.reason,
        "ec2 security-group public is managed by Terraform but allows public ingress."
    );
    let managed = report
        .findings
        .iter()
        .filter(|f| f.aws_uid.as_deref() == Some(MANAGED_SG))
        .count();
    assert_eq!(managed, 1);
}

#[test]
fn unmanaged_resource_carries_current_cost() {
    let costs = vec![ResourceCosts {
        uid: INSTANCE.to_string(),
        current: Some(parse(r#"{"currency": "USD"}"#)),
        drift: None,
    }];
    let report = compare_report_at(
        "s",
        "t",
        "now".to_string(),
        sample_scan(),
        &Vec::new(),
        &Vec::new(),
        &costs,
    );
    let unmanaged = report
        .findings
        .iter()
        .find(|f| f.aws_uid.as_deref() == Some(INSTANCE))
        .unwrap();
    assert_eq!(unmanaged.finding_type, "unmanaged_resource");
    assert_eq!(text_at(&unmanaged.attributes, &["cost", "currency"]).as_deref(), Some("USD"));
    assert_eq!(text_at(&unmanaged.attributes, &["id"]).as_deref(), Some("i-public"));
}

#[test]
fn report_sort_puts_most_severe_first() {
    let relationships = vec![(INSTANCE.to_string(), PUBLIC_SG.to_string())];
    let report = compare_report_at(
        "s",
        "t",
        "now".to_string(),
        sample_scan(),
        &sample_state(),
        &relationships,
        &Vec::new(),
    );
    let count = report.findings.len();
    let sorted = sort_findings(report.findings);
    assert_eq!(sorted.len(), count);
    assert_eq!(sorted[0].severity, Severity::Critical);
    for pair in sorted.windows(2) {
        let rank = |s: Severity| match s {
            Severity::Critical => 2,
            Severity::High => 1,
            Severity::Medium => 0,
        };
        assert!(rank(pair[0].severity) >= rank(pair[1].severity));
    }
}

#[test]
fn finding_ids_replace_whitespace() {
    assert_eq!(finding_id("state_only_resource", "a b\tc\nd"), "state_only_resource:a_b_c_d");
    assert_eq!(severity_name(Severity::Critical), "critical");
    assert_eq!(severity_name(Severity::Medium), "medium");
}

#[test]
fn blast_radius_is_sorted_and_distinct() {
    let rels = vec![
        ("z".to_string(), "t".to_string()),
        ("a".to_string(), "t".to_string()),
        ("z".to_string(), "t".to_string()),
        ("m".to_string(), "other".to_string()),
    ];
    assert_eq!(reverse_neighbors(&rels, "t"), vec!["a", "z"]);
    assert!(reverse_neighbors(&rels, "nobody").is_empty());
}

#[test]
fn later_scan_row_with_same_uid_wins() {
    let mut scan = sample_scan();
    scan.push(aws(PUBLIC_SG, "security-group", "sg-public", "renamed", r#"{"ingress": []}"#));
    let report = compare_report_at("s", "t", "now".to_string(), scan, &Vec::new(), &Vec::new(), &Vec::new());
    let sg = report
        .findings
        .iter()
        .find(|f| f.aws_uid.as_deref() == Some(PUBLIC_SG))
        .unwrap();
    assert_eq!(sg.finding_type, "unmanaged_resource");
    assert_eq!(report.findings.len(), 3);
}

fn plain_finding(id: &str, finding_type: &str, severity: Severity, uid: Option<&str>, address: Option<&str>) -> Finding {
    Finding {
        id: id.to_string(),
        finding_type: finding_type.to_string(),
        severity,
        aws_uid: uid.map(|u| u.to_string()),
        terraform_address: address.map(|a| a.to_string()),
        reason: String::new(),
        recommended_action: String::new(),
        blast_radius: Vec::new(),
        evidence: Vec::new(),
        attributes: JsonValue::Null,
    }
}

#[test]
fn sort_keeps_order_of_equal_keys() {
    let findings = vec![
        plain_finding("first", "unmanaged_resource", Severity::Medium, Some("aws:x"), None),
        plain_finding("crit", "unmanaged_public_resource", Severity::Critical, Some("aws:z"), None),
        plain_finding("second", "unmanaged_resource", Severity::Medium, Some("aws:x"), None),
        plain_finding("by-address", "state_only_resource", Severity::Medium, None, Some("aws_vpc.a")),
        plain_finding("third", "unmanaged_resource", Severity::Medium, Some("aws:x"), None),
        plain_finding("earlier-uid", "unmanaged_resource", Severity::Medium, Some("aws:a"), None),
    ];
    let ids: Vec<String> = sort_findings(findings).into_iter().map(|f| f.id).collect();
    assert_eq!(ids, vec!["crit", "by-address", "earlier-uid", "first", "second", "third"]);
}

#[test]
fn sorting_sorted_findings_changes_nothing() {
    let make = || {
        vec![
            plain_finding("b", "unmanaged_resource", Severity::Medium, Some("aws:b"), None),
            plain_finding("a", "unmanaged_resource", Severity::Medium, Some("aws:a"), None),
            plain_finding("c", "terraform_managed_public_resource", Severity::High, Some("aws:c"), Some("aws_security_group.c")),
            plain_finding("d", "unmanaged_resource", Severity::Medium, Some("aws:a"), None),
        ]
    };
    let once: Vec<String> = sort_findings(make()).into_iter().map(|f| f.id).collect();
    let twice: Vec<String> = sort_findings(sort_findings(make())).into_iter().map(|f| f.id).collect();
    assert_eq!(once, vec!["c", "a", "d", "b"]);
    assert_eq!(twice, once);
}
