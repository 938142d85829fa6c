use std::collections::BTreeSet;

use cloudmapper::json::JsonValue;
use cloudmapper::k8s_scan::{
    build_scan_output, cluster_id, kebab_case, sanitize_cluster_id, sort_findings, K8sFinding,
};

fn to_json(value: &serde_json::Value) -> JsonValue {
    match value {
        serde_json::Value::Null => JsonValue::Null,
        serde_json::Value::Bool(b) => JsonValue::Bool(*b),
        serde_json::Value::Number(n) => JsonValue::Number(n.to_string()),
        serde_json::Value::String(s) => JsonValue::Str(s.clone()),
        serde_json::Value::Array(items) => JsonValue::Array(items.iter().map(to_json).collect()),
        serde_json::Value::Object(map) => {
            JsonValue::Object(map.iter().map(|(k, v)| (k.clone(), to_json(v))).collect())
        }
    }
}

const SAMPLE_OBJECTS: &str = r#"[
  {"apiVersion": "v1", "kind": "Namespace", "metadata": { "name": "prod", "uid": "ns-prod" }},
  {"apiVersion": "v1", "kind": "ServiceAccount",
   "metadata": { "namespace": "prod", "name": "default", "uid": "sa-default" }},
  {"apiVersion": "apps/v1", "kind": "Deployment",
   "metadata": { "namespace": "prod", "name": "payments", "uid": "deploy-payments",
                 "labels": { "app": "payments", "team": "payments-platform" } },
   "spec": {
     "selector": { "matchLabels": { "app": "payments" } },
     "template": {
       "metadata": { "labels": { "app": "payments" } },
       "spec": {
         "hostNetwork": true,
         "containers": [{ "name": "api", "image": "payments:v1", "securityContext": { "privileged": true } }],
         "volumes": [{ "name": "host", "hostPath": { "path": "/var/run" } }]
       }
     }
   }},
  {"apiVersion": "apps/v1", "kind": "ReplicaSet",
   "metadata": { "namespace": "prod", "name": "payments-abc", "uid": "rs-payments",
                 "ownerReferences": [{ "kind": "Deployment", "name": "payments", "uid": "deploy-payments" }] }},
  {"apiVersion": "v1", "kind": "Pod",
   "metadata": { "namespace": "prod", "name": "payments-abc-1", "uid": "pod-payments",
                 "labels": { "app": "payments" },
                 "ownerReferences": [{ "kind": "ReplicaSet", "name": "payments-abc", "uid": "rs-payments" }] },
   "spec": {
     "hostPID": true,
     "containers": [{ "name": "api", "image": "payments:v1",
                      "envFrom": [{ "secretRef": { "name": "legacy-token" } }] }],
     "volumes": [
       { "name": "config", "configMap": { "name": "payments-config" } },
       { "name": "secret", "secret": { "secretName": "legacy-token" } },
       { "name": "data", "persistentVolumeClaim": { "claimName": "payments-data" } }
     ]
   }},
  {"apiVersion": "v1", "kind": "Service",
   "metadata": { "namespace": "prod", "name": "payments", "uid": "svc-payments" },
   "spec": { "type": "LoadBalancer", "selector": { "app": "payments" },
             "ports": [{ "port": 443, "targetPort": 8443 }] }},
  {"apiVersion": "networking.k8s.io/v1", "kind": "Ingress",
   "metadata": { "namespace": "prod", "name": "payments", "uid": "ing-payments" },
   "spec": { "rules": [{ "host": "payments.example.com",
                         "http": { "paths": [{ "backend": { "service": { "name": "payments" } } }] } }] }},
  {"apiVersion": "v1", "kind": "Secret",
   "metadata": { "namespace": "prod", "name": "legacy-token", "uid": "secret-token" },
   "type": "kubernetes.io/service-account-token", "data": { "token": "redacted" }},
  {"apiVersion": "v1", "kind": "ConfigMap",
   "metadata": { "namespace": "prod", "name": "payments-config", "uid": "cm-payments" },
   "data": { "config.yaml": "value" }},
  {"apiVersion": "v1", "kind": "PersistentVolumeClaim",
   "metadata": { "namespace": "prod", "name": "payments-data", "uid": "pvc-payments" },
   "spec": { "volumeName": "pv-payments" }},
  {"apiVersion": "v1", "kind": "PersistentVolume", "metadata": { "name": "pv-payments", "uid": "pv-payments" }},
  {"apiVersion": "rbac.authorization.k8s.io/v1", "kind": "ClusterRole",
   "metadata": { "name": "cluster-admin", "uid": "cr-admin" },
   "rules": [{ "apiGroups": ["*"], "resources": ["*"], "verbs": ["*"] }]},
  {"apiVersion": "rbac.authorization.k8s.io/v1", "kind": "ClusterRoleBinding",
   "metadata": { "name": "default-admin", "uid": "crb-admin" },
   "roleRef": { "kind": "ClusterRole", "name": "cluster-admin" },
   "subjects": [{ "kind": "ServiceAccount", "namespace": "prod", "name": "default" }]}
]"#;

fn sample_objects() -> Vec<JsonValue> {
    let value: serde_json::Value = serde_json::from_str(SAMPLE_OBJECTS).unwrap();
    value.as_array().unwrap().iter().map(to_json).collect()
}

fn is_true(value: Option<&JsonValue>) -> bool {
    matches!(value, Some(JsonValue::Bool(true)))
}

#[test]
fn builds_kubernetes_inventory_relationships_and_findings() {
    let output = build_scan_output(
        "kind-demo",
        "2026-05-16T00:00:00+00:00",
        true,
        sample_objects(),
        Vec::new(),
    );

    assert!(output.inventory.resources.iter().any(|resource| {
        resource.provider == "k8s"
            && resource.service == "apps"
            && resource.resource_type == "deployment"
            && resource.id == "prod/payments"
    }));
    assert!(output.inventory.resources.iter().any(|resource| {
        resource.resource_type == "secret"
            && resource.name.as_deref() == Some("legacy-token")
            && resource.raw.is_none()
            && is_true(resource.attributes.get("redacted"))
    }));
    assert!(output.inventory.relationships.iter().any(|relationship| {
        relationship.relationship_type == "owns"
            && relationship.from.contains(":deployment:prod/payments")
            && relationship.to.contains(":pod:prod/payments-abc-1")
    }));
    assert!(output.inventory.relationships.iter().any(|relationship| {
        relationship.relationship_type == "uses_service_account"
            && relationship.from.contains(":pod:prod/payments-abc-1")
            && relationship.to.contains(":service-account:prod/default")
    }));
    assert!(output.inventory.relationships.iter().any(|relationship| {
        relationship.relationship_type == "routes_to"
            && relationship.from.contains(":ingress:prod/payments")
            && relationship.to.contains(":service:prod/payments")
    }));
    assert!(output.inventory.relationships.iter().any(|relationship| {
        relationship.relationship_type == "mounts"
            && relationship.from.contains(":pod:prod/payments-abc-1")
            && relationship.to.contains(":secret:prod/legacy-token")
    }));

    let finding_types = output
        .findings
        .iter()
        .map(|finding| finding.finding_type.as_str())
        .collect::<BTreeSet<_>>();
    for expected in [
        "privileged_container",
        "host_path_mount",
        "host_namespace_enabled",
        "default_service_account_used",
        "public_service",
        "public_ingress",
        "overbroad_rbac",
        "cluster_admin_binding",
        "legacy_service_account_token_secret",
        "missing_network_policy",
        "unmanaged_kubernetes_resource",
    ] {
        assert!(finding_types.contains(expected), "missing {expected}");
    }
}

#[test]
fn config_maps_keep_no_raw_even_when_raw_is_kept() {
    let output = build_scan_output("kind-demo", "now", true, sample_objects(), Vec::new());
    let config_map = output
        .inventory
        .resources
        .iter()
        .find(|resource| resource.resource_type == "configmap")
        .unwrap();
    assert!(config_map.raw.is_none());
    assert!(is_true(config_map.attributes.get("redacted")));
    let pod = output
        .inventory
        .resources
        .iter()
        .find(|resource| resource.resource_type == "pod")
        .unwrap();
    assert!(pod.raw.is_some());
}

#[test]
fn raw_objects_are_dropped_when_not_asked_for() {
    let output = build_scan_output("kind-demo", "now", false, sample_objects(), Vec::new());
    assert!(output.inventory.resources.iter().all(|resource| resource.raw.is_none()));
    assert_eq!(output.inventory.account_id, "kind-demo");
    assert_eq!(output.inventory.partition, "kubernetes");
}

#[test]
fn findings_are_sorted_by_severity() {
    let output = build_scan_output("kind-demo", "now", false, sample_objects(), Vec::new());
    let rank = |s: &str| match s {
        "critical" => 0,
        "high" => 1,
        _ => 2,
    };
    for pair in output.findings.windows(2) {
        assert!(rank(&pair[0].severity) <= rank(&pair[1].severity));
    }
}

#[test]
fn cluster_ids_are_sanitized() {
    assert_eq!(sanitize_cluster_id("arn:aws:eks/prod cluster"), "arn_aws_eks_prod_cluster");
    assert_eq!(kebab_case("ServiceAccount"), "service-account");
    assert_eq!(kebab_case("Pod"), "pod");
    assert_eq!(cluster_id(Some("kind:demo"), None), "kind_demo");
    assert_eq!(cluster_id(None, Some("  ctx/a \n".to_string())), "ctx_a");
    assert_eq!(cluster_id(None, Some("   ".to_string())), "kubernetes");
    assert_eq!(cluster_id(None, None), "kubernetes");
}

fn k8s_finding(id: &str, finding_type: &str, severity: &str, uid: &str) -> K8sFinding {
    K8sFinding {
        id: id.to_string(),
        finding_type: finding_type.to_string(),
        severity: severity.to_string(),
        resource_uid: uid.to_string(),
        reason: String::new(),
        recommended_action: String::new(),
        blast_radius: Vec::new(),
        evidence: Vec::new(),
        attributes: JsonValue::Null,
    }
}

#[test]
fn k8s_sort_keeps_order_of_equal_keys() {
    let findings = vec![
        k8s_finding("first", "public_service", "high", "kube:svc"),
        k8s_finding("low", "missing_network_policy", "medium", "kube:ns"),
        k8s_finding("second", "public_service", "high", "kube:svc"),
        k8s_finding("crit", "privileged_container", "critical", "kube:pod"),
        k8s_finding("earlier-type", "host_path_mount", "high", "kube:zzz"),
        k8s_finding("third", "public_service", "high", "kube:svc"),
        k8s_finding("earlier-uid", "public_service", "high", "kube:aaa"),
    ];
    let ids: Vec<String> = sort_findings(findings).into_iter().map(|f| f.id).collect();
    assert_eq!(ids, vec!["crit", "earlier-type", "earlier-uid", "first", "second", "third", "low"]);
}

#[test]
fn k8s_sorting_sorted_findings_changes_nothing() {
    let make = || {
        vec![
            k8s_finding("m", "missing_network_policy", "medium", "kube:ns"),
            k8s_finding("h2", "public_service", "high", "kube:b"),
            k8s_finding("h1", "public_service", "high", "kube:a"),
            k8s_finding("c", "cluster_admin_binding", "critical", "kube:crb"),
        ]
    };
    let once: Vec<String> = sort_findings(make()).into_iter().map(|f| f.id).collect();
    let twice: Vec<String> = sort_findings(sort_findings(make())).into_iter().map(|f| f.id).collect();
    assert_eq!(once, vec!["c", "h1", "h2", "m"]);
    assert_eq!(twice, once);
}

#[test]
fn secret_data_keys_are_sorted_and_distinct() {
    let secret = JsonValue::Object(vec![
        ("apiVersion".to_string(), JsonValue::Str("v1".to_string())),
        ("kind".to_string(), JsonValue::Str("Secret".to_string())),
        (
            "metadata".to_string(),
            JsonValue::Object(vec![
                ("name".to_string(), JsonValue::Str("app".to_string())),
                ("namespace".to_string(), JsonValue::Str("prod".to_string())),
            ]),
        ),
        ("type".to_string(), JsonValue::Str("Opaque".to_string())),
        (
            "data".to_string(),
            JsonValue::Object(vec![
                ("TOKEN".to_string(), JsonValue::Str("eA==".to_string())),
                ("API_KEY".to_string(), JsonValue::Str("eQ==".to_string())),
                ("TOKEN".to_string(), JsonValue::Str("eg==".to_string())),
            ]),
        ),
    ]);
    let output = build_scan_output("kind-demo", "now", false, vec![secret], Vec::new());
    let resource = &output.inventory.resources[0];
    let keys = format!("{:?}", resource.attributes.get("data_keys").unwrap());
    assert_eq!(keys, format!("{:?}", JsonValue::Array(vec![
        JsonValue::Str("API_KEY".to_string()),
        JsonValue::Str("TOKEN".to_string()),
    ])));
}

#[test]
fn relationships_of_each_kind_are_derived() {
    let output = build_scan_output("kind-demo", "now", false, sample_objects(), Vec::new());
    let has = |kind: &str, from: &str, to: &str| {
        output
            .inventory
            .relationships
            .iter()
            .any(|r| r.relationship_type == kind && r.from.contains(from) && r.to.contains(to))
    };
    let pod = ":pod:prod/payments-abc-1";
    assert!(has("owns", ":deployment:prod/payments", pod));
    assert!(has("uses_service_account", pod, ":service-account:prod/default"));
    assert!(has("routes_to", ":ingress:prod/payments", ":service:prod/payments"));
    assert!(has("mounts", pod, ":secret:prod/legacy-token"));
    assert!(has("selects", ":service:prod/payments", pod));
}

#[test]
fn derived_relationships_carry_their_attributes_and_evidence() {
    let output = build_scan_output("kind-demo", "now", false, sample_objects(), Vec::new());
    let find = |kind: &str, from: &str, to: &str| {
        output
            .inventory
            .relationships
            .iter()
            .find(|r| r.relationship_type == kind && r.from.contains(from) && r.to.contains(to))
            .unwrap()
    };
    let pod = ":pod:prod/payments-abc-1";
    let owns = find("owns", ":deployment:prod/payments", pod);
    let through = owns.attributes.get_str("through").unwrap();
    let replica_set = output.inventory.resources.iter().find(|r| &r.uid == through).unwrap();
    assert_eq!(replica_set.id, "prod/payments-abc");
    let selects = find("selects", ":service:prod/payments", pod);
    assert!(selects.attributes.get("selector").is_some());
    let routes = find("routes_to", ":ingress:prod/payments", ":service:prod/payments");
    assert!(matches!(routes.attributes, JsonValue::Null));
    for relationship in &output.inventory.relationships {
        assert_eq!(relationship.evidence.len(), 1);
        assert_eq!(relationship.evidence[0].collected_at, "now");
        assert_eq!(relationship.evidence[0].operation, "derived graph relationship");
    }
}

fn secret_with(values: (&str, &str)) -> JsonValue {
    JsonValue::Object(vec![
        ("apiVersion".to_string(), JsonValue::Str("v1".to_string())),
        ("kind".to_string(), JsonValue::Str("Secret".to_string())),
        (
            "metadata".to_string(),
            JsonValue::Object(vec![
                ("name".to_string(), JsonValue::Str("db".to_string())),
                ("namespace".to_string(), JsonValue::Str("prod".to_string())),
            ]),
        ),
        (
            "data".to_string(),
            JsonValue::Object(vec![
                ("password".to_string(), JsonValue::Str(values.0.to_string())),
                ("user".to_string(), JsonValue::Str(values.1.to_string())),
            ]),
        ),
        (
            "stringData".to_string(),
            JsonValue::Object(vec![("note".to_string(), JsonValue::Str(values.1.to_string()))]),
        ),
    ])
}

#[test]
fn secret_values_never_reach_attributes() {
    let a = build_scan_output("kind-demo", "now", true, vec![secret_with(("czNjcjN0", "YWRtaW4="))], Vec::new());
    let b = build_scan_output("kind-demo", "now", true, vec![secret_with(("b3RoZXI=", "cm9vdA=="))], Vec::new());
    let attributes_a = format!("{:?}", a.inventory.resources[0].attributes);
    let attributes_b = format!("{:?}", b.inventory.resources[0].attributes);
    assert_eq!(attributes_a, attributes_b);
    assert!(!attributes_a.contains("czNjcjN0"));
    assert!(a.inventory.resources[0].raw.is_none());
}

const POLICY_OBJECTS: &str = r#"[
  {"apiVersion": "v1", "kind": "Namespace", "metadata": { "name": "prod", "uid": "ns-prod" }},
  {"apiVersion": "v1", "kind": "Namespace", "metadata": { "name": "staging", "uid": "ns-staging" }},
  {"apiVersion": "v1", "kind": "Namespace", "metadata": { "name": "kube-system", "uid": "ns-system" }},
  {"apiVersion": "v1", "kind": "Pod", "metadata": { "namespace": "prod", "name": "a", "uid": "pod-a" }},
  {"apiVersion": "v1", "kind": "Pod", "metadata": { "namespace": "prod", "name": "b", "uid": "pod-b" }},
  {"apiVersion": "v1", "kind": "Pod", "metadata": { "namespace": "staging", "name": "c", "uid": "pod-c" }},
  {"apiVersion": "networking.k8s.io/v1", "kind": "NetworkPolicy",
   "metadata": { "namespace": "staging", "name": "deny", "uid": "np-deny" }},
  {"apiVersion": "v1", "kind": "Pod", "metadata": { "namespace": "kube-system", "name": "d", "uid": "pod-d" }},
  {"apiVersion": "v1", "kind": "Pod", "metadata": { "namespace": "orphan", "name": "e", "uid": "pod-e" }}
]"#;

#[test]
fn only_namespaces_with_pods_and_no_policy_are_reported() {
    let value: serde_json::Value = serde_json::from_str(POLICY_OBJECTS).unwrap();
    let objects = value.as_array().unwrap().iter().map(to_json).collect();
    let output = build_scan_output("kind-demo", "now", false, objects, Vec::new());
    let reported: Vec<&K8sFinding> = output
        .findings
        .iter()
        .filter(|finding| finding.finding_type == "missing_network_policy")
        .collect();
    assert_eq!(reported.len(), 1);
    assert_eq!(reported[0].attributes.get_str("namespace"), Some(&"prod".to_string()));
    let namespace = output.inventory.resources.iter().find(|r| r.uid == reported[0].resource_uid).unwrap();
    assert_eq!(namespace.resource_type, "namespace");
    assert_eq!(namespace.name.as_deref(), Some("prod"));
}
