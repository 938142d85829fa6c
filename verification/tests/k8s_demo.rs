use cloudmapper::json::JsonValue;
use cloudmapper::k8s_demo::{
    k8s_demo_output, namespaces, profiles, replicas_for, replicaset_name, uid,
    workloads_for_namespace, CLUSTER_ID,
};

#[test]
fn k8s_demo_redacts_secret_and_configmap_raw() {
    let output = k8s_demo_output();

    assert!(output.inventory.resources.iter().any(|resource| {
        matches!(resource.resource_type.as_str(), "secret" | "configmap")
            && resource.raw.is_none()
            && matches!(resource.attributes.get("redacted"), Some(JsonValue::Bool(true)))
    }));
    assert!(output.findings.iter().any(|finding| {
        finding.finding_type == "cluster_admin_binding"
            && finding.resource_uid.contains("legacy-admin-default")
    }));
}

#[test]
fn k8s_demo_has_the_expected_shape() {
    let output = k8s_demo_output();
    assert_eq!(output.inventory.account_id, CLUSTER_ID);
    assert_eq!(output.inventory.resources.len(), 430);
    assert_eq!(output.inventory.relationships.len(), 567);
    assert_eq!(output.findings.len(), 69);
    let critical = output.findings.iter().filter(|f| f.severity == "critical").count();
    let high = output.findings.iter().filter(|f| f.severity == "high").count();
    assert_eq!(critical, 10);
    assert_eq!(high, 36);
}

#[test]
fn demo_secrets_never_keep_raw() {
    let output = k8s_demo_output();
    for resource in &output.inventory.resources {
        if matches!(resource.resource_type.as_str(), "secret" | "configmap") {
            assert!(resource.raw.is_none());
        }
    }
}

#[test]
fn demo_replicas_and_names() {
    let all = namespaces();
    let payments = all.iter().find(|n| n.name == "prod-payments").unwrap();
    let stage = all.iter().find(|n| n.name == "stage-apps").unwrap();
    let dev = all.iter().find(|n| n.name == "dev-apps").unwrap();
    let edge = profiles(&["customer-edge"])[0];
    let pay = profiles(&["payments-api"])[0];
    assert_eq!(replicas_for(*payments, edge), 4);
    assert_eq!(replicas_for(*payments, pay), 3);
    assert_eq!(replicas_for(*stage, pay), 2);
    assert_eq!(replicas_for(*dev, pay), 1);
    assert_eq!(replicaset_name(pay), "payments-api-7c9d88f7d9");
    assert_eq!(uid("sa", "prod payments/default_x"), "sa-prod-payments-default-x");
}

#[test]
fn demo_workloads_per_namespace() {
    let all = namespaces();
    let names = |ns: &str| {
        let namespace = all.iter().find(|n| n.name == ns).unwrap();
        workloads_for_namespace(namespace)
            .iter()
            .map(|w| w.name)
            .collect::<Vec<_>>()
    };
    assert_eq!(
        names("prod-payments"),
        vec!["payments-api", "billing-api", "identity-api", "fraud-detector"]
    );
    assert_eq!(names("stage-apps").len(), 10);
    assert!(names("legacy-admin").is_empty());
    assert!(profiles(&["no-such-workload"]).is_empty());
}

#[test]
fn demo_namespaces_deploy_their_workloads() {
    let all = namespaces();
    assert_eq!(all.len(), 9);
    let names = |ns: &str| -> Vec<&'static str> {
        let profile = all.iter().find(|n| n.name == ns).unwrap();
        workloads_for_namespace(profile).iter().map(|w| w.name).collect()
    };
    assert_eq!(names("prod-payments"), vec!["payments-api", "billing-api", "identity-api", "fraud-detector"]);
    assert_eq!(names("data-platform"), vec!["analytics-api", "fraud-detector"]);
    assert_eq!(names("stage-apps").len(), 10);
    assert!(names("legacy-admin").is_empty());
    let skipped: Vec<&str> = profiles(&["search-api", "no-such-api", "customer-edge"]).iter().map(|w| w.name).collect();
    assert_eq!(skipped, vec!["search-api", "customer-edge"]);
}
