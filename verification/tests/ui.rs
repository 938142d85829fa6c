use cloudmapper::json::JsonValue;
use cloudmapper::ui::{edges_between, finding_overlays, max_severity, namespace_value, severity_rank, tag_value};

fn tags(pairs: &[(&str, &str)]) -> JsonValue {
    JsonValue::Object(
        pairs
            .iter()
            .map(|(k, v)| (k.to_string(), JsonValue::Str(v.to_string())))
            .collect(),
    )
}

#[test]
fn severity_ranks() {
    assert_eq!(severity_rank("critical"), 3);
    assert_eq!(severity_rank("high"), 2);
    assert_eq!(severity_rank("medium"), 1);
    assert_eq!(severity_rank("low"), 0);
}

#[test]
fn max_severity_keeps_the_more_severe() {
    assert_eq!(max_severity(None, "high").as_deref(), Some("high"));
    assert_eq!(max_severity(Some("high"), "critical").as_deref(), Some("critical"));
    assert_eq!(max_severity(Some("critical"), "medium").as_deref(), Some("critical"));
    assert_eq!(max_severity(None, "none"), None);
}

#[test]
fn tag_values_ignore_key_case() {
    let t = tags(&[("environment", "prod"), ("Owner", "")]);
    assert_eq!(tag_value(&t, "Environment").as_deref(), Some("prod"));
    assert_eq!(tag_value(&t, "owner"), None);
    assert_eq!(tag_value(&JsonValue::Null, "owner"), None);
}

#[test]
fn namespace_falls_back_to_kubernetes_region() {
    let empty = tags(&[]);
    assert_eq!(namespace_value("k8s", "prod", &empty).as_deref(), Some("prod"));
    assert_eq!(namespace_value("k8s", "cluster", &empty), None);
    assert_eq!(namespace_value("aws", "us-east-1", &empty), None);
    let t = tags(&[("Namespace", "payments")]);
    assert_eq!(namespace_value("aws", "us-east-1", &t).as_deref(), Some("payments"));
}

#[test]
fn overlays_collect_findings_per_resource() {
    let rows = vec![
        ("b".to_string(), "unmanaged_resource".to_string(), "medium".to_string()),
        ("a".to_string(), "unmanaged_public_resource".to_string(), "critical".to_string()),
        ("b".to_string(), "terraform_owned_public_ingress".to_string(), "high".to_string()),
    ];
    let overlays = finding_overlays(&rows);
    assert_eq!(overlays.len(), 2);
    assert_eq!(overlays[0].uid, "a");
    assert_eq!(overlays[0].severity.as_deref(), Some("critical"));
    assert_eq!(overlays[1].uid, "b");
    assert_eq!(overlays[1].severity.as_deref(), Some("high"));
    assert_eq!(
        overlays[1].finding_types,
        vec!["unmanaged_resource", "terraform_owned_public_ingress"]
    );
}

#[test]
fn graph_keeps_edges_between_known_nodes() {
    let nodes = vec!["a".to_string(), "b".to_string(), "c".to_string()];
    let pair = |x: &str, y: &str| (x.to_string(), y.to_string());
    let edges = vec![pair("a", "b"), pair("a", "zz"), pair("c", "a"), pair("yy", "b"), pair("b", "b")];
    assert_eq!(edges_between(&nodes, &edges), vec![0, 2, 4]);
    assert!(edges_between(&Vec::new(), &edges).is_empty());
}
