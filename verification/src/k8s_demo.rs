//! A demo cluster: a platform with several teams' namespaces, workloads
//! with their config, secrets, storage and RBAC, and a handful of risky
//! leftovers, run through the Kubernetes scan so that every rule fires.
use vstd::prelude::*;
use vstd::string::*;

use crate::json::{int_json, json_record, Json, JsonValue};
use crate::k8s_scan::{build_scan_output, scan_output_of, K8sScanOutput};
use crate::model::ScanError;
use crate::text::{push_two_digits, replace_chars, replace_chars_spec, str_eq};

verus! {

/// The demo cluster's id.
pub const CLUSTER_ID: &'static str = "prod-platform-us-east-1";

/// When the demo cluster was scanned.
pub const DEMO_COLLECTED_AT: &'static str = "2026-05-16T00:00:00Z";

/// What the demo bundle holds.
#[derive(Clone, Debug)]
pub struct K8sDemoSummary {
    pub out: String,
    pub db_path: String,
    pub findings_path: String,
    pub resources: usize,
    pub relationships: usize,
    pub findings: usize,
    pub run_id: String,
}

/// A team namespace of the demo cluster.
#[derive(Clone, Copy, Debug)]
pub struct NamespaceProfile {
    pub name: &'static str,
    pub environment: &'static str,
    pub owner: &'static str,
    pub network_policy: bool,
}

/// A workload deployed in the demo cluster.
#[derive(Clone, Copy, Debug)]
pub struct WorkloadProfile {
    pub name: &'static str,
    pub short: &'static str,
    pub owner: &'static str,
    pub port: i64,
    pub public: bool,
    pub storage: bool,
    pub sensitive_config: bool,
}

fn ns(name: &'static str, environment: &'static str, owner: &'static str, network_policy: bool) -> (r:
    NamespaceProfile)
    ensures
        r == (NamespaceProfile { name, environment, owner, network_policy }),
{
    NamespaceProfile { name, environment, owner, network_policy }
}

/// The team namespaces of the demo cluster: name, environment, owner, and
/// whether a network policy guards it.
pub open spec fn namespaces_spec() -> Seq<NamespaceProfile> {
    seq![
        NamespaceProfile { name: "prod-payments", environment: "prod", owner: "payments-platform", network_policy: true },
        NamespaceProfile { name: "prod-commerce", environment: "prod", owner: "commerce-platform", network_policy: true },
        NamespaceProfile { name: "prod-edge", environment: "prod", owner: "edge-platform", network_policy: true },
        NamespaceProfile { name: "stage-apps", environment: "stage", owner: "platform-engineering", network_policy: true },
        NamespaceProfile { name: "dev-apps", environment: "dev", owner: "developer-experience", network_policy: false },
        NamespaceProfile { name: "data-platform", environment: "prod", owner: "data-platform", network_policy: true },
        NamespaceProfile { name: "observability", environment: "shared", owner: "sre", network_policy: true },
        NamespaceProfile { name: "security", environment: "shared", owner: "security", network_policy: true },
        NamespaceProfile { name: "legacy-admin", environment: "prod", owner: "corporate-it", network_policy: false },
    ]
}

/// The team namespaces of the demo cluster.
pub fn namespaces() -> (r: Vec<NamespaceProfile>)
    ensures
        r@ == namespaces_spec(),
        r@.len() == 9,
{
    let r = vec![
        ns("prod-payments", "prod", "payments-platform", true),
        ns("prod-commerce", "prod", "commerce-platform", true),
        ns("prod-edge", "prod", "edge-platform", true),
        ns("stage-apps", "stage", "platform-engineering", true),
        ns("dev-apps", "dev", "developer-experience", false),
        ns("data-platform", "prod", "data-platform", true),
        ns("observability", "shared", "sre", true),
        ns("security", "shared", "security", true),
        ns("legacy-admin", "prod", "corporate-it", false),
    ];
    assert(r@ =~= namespaces_spec());
    r
}

fn wl(
    name: &'static str,
    short: &'static str,
    owner: &'static str,
    port: i64,
    public: bool,
    storage: bool,
    sensitive_config: bool,
) -> (r: WorkloadProfile)
    ensures
        r == (WorkloadProfile { name, short, owner, port, public, storage, sensitive_config }),
{
    WorkloadProfile { name, short, owner, port, public, storage, sensitive_config }
}

/// The workload catalogue of the demo cluster: name, short name, owner,
/// port, and whether it is public, keeps storage and holds sensitive
/// configuration.
pub open spec fn workloads_spec() -> Seq<WorkloadProfile> {
    seq![
        WorkloadProfile { name: "payments-api", short: "pay", owner: "payments-platform", port: 8443, public: true, storage: true, sensitive_config: true },
        WorkloadProfile { name: "billing-api", short: "bill", owner: "payments-platform", port: 8444, public: false, storage: true, sensitive_config: true },
        WorkloadProfile { name: "fraud-detector", short: "fraud", owner: "risk-platform", port: 8088, public: false, storage: true, sensitive_config: true },
        WorkloadProfile { name: "checkout-api", short: "chk", owner: "commerce-platform", port: 8080, public: true, storage: false, sensitive_config: false },
        WorkloadProfile { name: "notifications-api", short: "notif", owner: "communications-platform", port: 8081, public: false, storage: false, sensitive_config: false },
        WorkloadProfile { name: "search-api", short: "search", owner: "search-platform", port: 8082, public: true, storage: true, sensitive_config: false },
        WorkloadProfile { name: "identity-api", short: "id", owner: "identity-platform", port: 9443, public: false, storage: true, sensitive_config: true },
        WorkloadProfile { name: "customer-edge", short: "edge", owner: "edge-platform", port: 443, public: true, storage: false, sensitive_config: false },
        WorkloadProfile { name: "orders-worker", short: "ord", owner: "commerce-platform", port: 9090, public: false, storage: true, sensitive_config: false },
        WorkloadProfile { name: "analytics-api", short: "ana", owner: "data-platform", port: 9000, public: false, storage: true, sensitive_config: true },
    ]
}

/// The workloads of the demo cluster's catalogue.
pub fn workloads() -> (r: Vec<WorkloadProfile>)
    ensures
        r@ == workloads_spec(),
        r@.len() == 10,
        forall|i: int| 0 <= i < r@.len() ==> 0 < #[trigger] r@[i].port <= 65535,
{
    let r = vec![
        wl("payments-api", "pay", "payments-platform", 8443, true, true, true),
        wl("billing-api", "bill", "payments-platform", 8444, false, true, true),
        wl("fraud-detector", "fraud", "risk-platform", 8088, false, true, true),
        wl("checkout-api", "chk", "commerce-platform", 8080, true, false, false),
        wl("notifications-api", "notif", "communications-platform", 8081, false, false, false),
        wl("search-api", "search", "search-platform", 8082, true, true, false),
        wl("identity-api", "id", "identity-platform", 9443, false, true, true),
        wl("customer-edge", "edge", "edge-platform", 443, true, false, false),
        wl("orders-worker", "ord", "commerce-platform", 9090, false, true, false),
        wl("analytics-api", "ana", "data-platform", 9000, false, true, true),
    ];
    assert(r@ =~= workloads_spec());
    r
}

/// The first catalogue workload with a name.
pub open spec fn catalogue_find(catalogue: Seq<WorkloadProfile>, name: Seq<char>) -> Option<WorkloadProfile>
    decreases catalogue.len(),
{
    if catalogue.len() == 0 {
        None
    } else if catalogue[0].name@ == name {
        Some(catalogue[0])
    } else {
        catalogue_find(catalogue.drop_first(), name)
    }
}

/// The catalogue workloads named by `names`, in the order of `names`;
/// names the catalogue lacks are skipped.
pub open spec fn profiles_spec(names: Seq<Seq<char>>, catalogue: Seq<WorkloadProfile>) -> Seq<WorkloadProfile>
    decreases names.len(),
{
    if names.len() == 0 {
        Seq::empty()
    } else {
        let prev = profiles_spec(names.drop_last(), catalogue);
        match catalogue_find(catalogue, names.last()) {
            Some(w) => prev.push(w),
            None => prev,
        }
    }
}

/// The views of some texts.
pub open spec fn str_views(names: Seq<&str>) -> Seq<Seq<char>> {
    names.map_values(|n: &str| n@)
}

/// The catalogue workloads named by `names`, in the order of `names`;
/// names the catalogue lacks are skipped.
pub fn profiles(names: &[&str]) -> (r: Vec<WorkloadProfile>)
    ensures
        r@ == profiles_spec(str_views(names@), workloads_spec()),
        forall|i: int| 0 <= i < r@.len() ==> 0 < #[trigger] r@[i].port <= 65535,
{
    let catalogue = workloads();
    let ghost nv = str_views(names@);
    let mut out: Vec<WorkloadProfile> = Vec::new();
    let mut i: usize = 0;
    while i < names.len()
        invariant
            i <= names@.len(),
            nv == str_views(names@),
            catalogue@ == workloads_spec(),
            catalogue@.len() == 10,
            forall|k: int| 0 <= k < catalogue@.len() ==> 0 < #[trigger] catalogue@[k].port <= 65535,
            forall|k: int| 0 <= k < out@.len() ==> 0 < #[trigger] out@[k].port <= 65535,
            out@ == profiles_spec(nv.take(i as int), catalogue@),
        decreases names@.len() - i,
    {
        let mut j: usize = 0;
        let mut hit: Option<usize> = None;
        assert(catalogue@.skip(0) =~= catalogue@);
        while j < catalogue.len() && hit.is_none()
            invariant
                j <= catalogue@.len(),
                i < names@.len(),
                nv == str_views(names@),
                catalogue@.len() == 10,
                match hit {
                    Some(h) => h < catalogue@.len() && catalogue_find(catalogue@, nv[i as int]) == Some(
                        catalogue@[h as int],
                    ),
                    None => catalogue_find(catalogue@, nv[i as int]) == catalogue_find(
                        catalogue@.skip(j as int),
                        nv[i as int],
                    ),
                },
            decreases catalogue@.len() - j,
        {
            assert(catalogue@.skip(j as int).drop_first() =~= catalogue@.skip(j + 1));
            if str_eq(catalogue[j].name, names[i]) {
                hit = Some(j);
            }
            j += 1;
        }
        proof {
            if hit is None {
                assert(catalogue@.skip(j as int).len() == 0);
            }
            assert(nv.take(i + 1).drop_last() =~= nv.take(i as int));
        }
        match hit {
            Some(h) => {
                out.push(catalogue[h]);
            },
            None => {},
        }
        i += 1;
    }
    assert(nv.take(i as int) =~= nv);
    out
}

/// The catalogue workloads deployed in the namespace `name`: a chosen few
/// in the production and development namespaces, the whole catalogue in
/// staging, none elsewhere.
pub open spec fn namespace_workloads_spec(name: Seq<char>) -> Seq<WorkloadProfile> {
    let cat = workloads_spec();
    if name == "prod-payments"@ {
        profiles_spec(seq!["payments-api"@, "billing-api"@, "identity-api"@, "fraud-detector"@], cat)
    } else if name == "prod-commerce"@ {
        profiles_spec(seq!["checkout-api"@, "orders-worker"@, "notifications-api"@, "search-api"@], cat)
    } else if name == "prod-edge"@ {
        profiles_spec(seq!["customer-edge"@], cat)
    } else if name == "data-platform"@ {
        profiles_spec(seq!["analytics-api"@, "fraud-detector"@], cat)
    } else if name == "stage-apps"@ {
        cat
    } else if name == "dev-apps"@ {
        profiles_spec(seq!["payments-api"@, "billing-api"@, "checkout-api"@, "orders-worker"@, "search-api"@], cat)
    } else {
        Seq::empty()
    }
}

/// The catalogue workloads deployed in a namespace.
pub fn workloads_for_namespace(namespace: &NamespaceProfile) -> (r: Vec<WorkloadProfile>)
    ensures
        r@ == namespace_workloads_spec(namespace.name@),
        forall|i: int| 0 <= i < r@.len() ==> 0 < #[trigger] r@[i].port <= 65535,
{
    let name = namespace.name;
    if str_eq(name, "prod-payments") {
        let names = ["payments-api", "billing-api", "identity-api", "fraud-detector"];
        assert(str_views(names@) =~= seq!["payments-api"@, "billing-api"@, "identity-api"@, "fraud-detector"@]);
        profiles(&names)
    } else if str_eq(name, "prod-commerce") {
        let names = ["checkout-api", "orders-worker", "notifications-api", "search-api"];
        assert(str_views(names@) =~= seq!["checkout-api"@, "orders-worker"@, "notifications-api"@, "search-api"@]);
        profiles(&names)
    } else if str_eq(name, "prod-edge") {
        let names = ["customer-edge"];
        assert(str_views(names@) =~= seq!["customer-edge"@]);
        profiles(&names)
    } else if str_eq(name, "data-platform") {
        let names = ["analytics-api", "fraud-detector"];
        assert(str_views(names@) =~= seq!["analytics-api"@, "fraud-detector"@]);
        profiles(&names)
    } else if str_eq(name, "stage-apps") {
        workloads()
    } else if str_eq(name, "dev-apps") {
        let names = ["payments-api", "billing-api", "checkout-api", "orders-worker", "search-api"];
        assert(str_views(names@) =~= seq![
            "payments-api"@,
            "billing-api"@,
            "checkout-api"@,
            "orders-worker"@,
            "search-api"@,
        ]);
        profiles(&names)
    } else {
        Vec::new()
    }
}

/// How many pods a workload runs: four for the production edge, three for
/// other production workloads, two in staging, one elsewhere.
pub open spec fn replicas_spec(environment: Seq<char>, short: Seq<char>) -> usize {
    if environment == "prod"@ && short == "edge"@ {
        4
    } else if environment == "prod"@ {
        3
    } else if environment == "stage"@ {
        2
    } else {
        1
    }
}

/// How many pods a workload runs in a namespace.
pub fn replicas_for(namespace: NamespaceProfile, workload: WorkloadProfile) -> (r: usize)
    ensures
        r == replicas_spec(namespace.environment@, workload.short@),
        1 <= r <= 4,
{
    if str_eq(namespace.environment, "prod") && str_eq(workload.short, "edge") {
        4
    } else if str_eq(namespace.environment, "prod") {
        3
    } else if str_eq(namespace.environment, "stage") {
        2
    } else {
        1
    }
}

/// The name of a workload's replica set.
pub fn replicaset_name(workload: WorkloadProfile) -> (r: String)
    ensures
        r@ == workload.name@ + "-7c9d88f7d9"@,
{
    let mut r = workload.name.to_owned();
    r.append("-7c9d88f7d9");
    r
}

/// The characters a demo object uid replaces.
pub open spec fn demo_uid_unsafe_chars() -> Seq<char> {
    seq!['/', '_', ' ']
}

/// The uid of a demo object with a prefix and a value.
pub open spec fn uid_spec(prefix: Seq<char>, value: Seq<char>) -> Seq<char> {
    prefix + seq!['-'] + replace_chars_spec(value, demo_uid_unsafe_chars(), '-')
}

/// A JSON string.
pub open spec fn js(t: Seq<char>) -> Json {
    Json::Str(t)
}

/// A JSON array of strings.
pub open spec fn str_array(items: Seq<Seq<char>>) -> Json {
    Json::Array(items.map_values(|t: Seq<char>| Json::Str(t)))
}

/// The `app.kubernetes.io/managed-by` label object.
pub open spec fn managed_by_json(by: Seq<char>) -> Json {
    Json::Object(seq![("app.kubernetes.io/managed-by"@, js(by))])
}

/// The availability-zone letter of a position: `a`, `b`, `c` in turn.
pub open spec fn zone_spec(index: int) -> Seq<char> {
    if index % 3 == 0 {
        "a"@
    } else if index % 3 == 1 {
        "b"@
    } else {
        "c"@
    }
}

/// An RBAC rule over API groups, resources and verbs.
pub open spec fn rule_json(api_groups: Seq<Seq<char>>, resources: Seq<Seq<char>>, verbs: Seq<Seq<char>>) -> Json {
    Json::Object(
        seq![
            ("apiGroups"@, str_array(api_groups)),
            ("resources"@, str_array(resources)),
            ("verbs"@, str_array(verbs)),
        ],
    )
}

/// A cluster role managed by Terraform with the given rules.
pub open spec fn cluster_role_json(name: Seq<char>, rules: Json) -> Json {
    Json::Object(
        seq![
            ("apiVersion"@, js("rbac.authorization.k8s.io/v1"@)),
            ("kind"@, js("ClusterRole"@)),
            (
                "metadata"@,
                Json::Object(
                    seq![
                        ("name"@, js(name)),
                        ("uid"@, js(uid_spec("clusterrole"@, name))),
                        ("labels"@, managed_by_json("Terraform"@)),
                    ],
                ),
            ),
            ("rules"@, rules),
        ],
    )
}

/// A service account as an RBAC subject.
pub open spec fn subject_json(namespace: Seq<char>, name: Seq<char>) -> Json {
    Json::Object(seq![("kind"@, js("ServiceAccount"@)), ("namespace"@, js(namespace)), ("name"@, js(name))])
}

/// The labels of a workload's objects and pods.
pub open spec fn pod_labels_json(namespace: NamespaceProfile, workload: WorkloadProfile, managed_by: Seq<char>) -> Json {
    Json::Object(
        seq![
            ("app"@, js(workload.name@)),
            ("app.kubernetes.io/name"@, js(workload.name@)),
            ("app.kubernetes.io/part-of"@, js(workload.owner@)),
            ("app.kubernetes.io/managed-by"@, js(managed_by)),
            ("environment"@, js(namespace.environment@)),
            ("team"@, js(workload.owner@)),
        ],
    )
}

/// The pod selector of a workload.
pub open spec fn selector_json(workload: WorkloadProfile) -> Json {
    Json::Object(seq![("app"@, js(workload.name@))])
}

/// The metadata of a workload object: namespace, name, uid, labels, and
/// the Helm release annotations when Helm manages it.
pub open spec fn metadata_json(
    namespace: NamespaceProfile,
    workload: WorkloadProfile,
    prefix: Seq<char>,
    name: Seq<char>,
    managed_by: Seq<char>,
) -> Json {
    Json::Object(
        seq![
            ("namespace"@, js(namespace.name@)),
            ("name"@, js(name)),
            ("uid"@, js(uid_spec(prefix, namespace.name@ + "-"@ + name))),
            ("labels"@, pod_labels_json(namespace, workload, managed_by)),
            (
                "annotations"@,
                if managed_by == "Helm"@ {
                    Json::Object(
                        seq![
                            ("meta.helm.sh/release-name"@, js(workload.name@)),
                            ("meta.helm.sh/release-namespace"@, js(namespace.name@)),
                        ],
                    )
                } else {
                    Json::Object(seq![])
                },
            ),
        ],
    )
}

/// A controlling owner reference.
pub open spec fn owner_reference_json(kind: Seq<char>, name: Seq<char>, owner_uid: Seq<char>) -> Json {
    Json::Object(
        seq![
            ("apiVersion"@, js("apps/v1"@)),
            ("kind"@, js(kind)),
            ("name"@, js(name)),
            ("uid"@, js(owner_uid)),
            ("controller"@, Json::Bool(true)),
        ],
    )
}

/// The uid of a demo object: `prefix-value`, with `/`, `_` and spaces in
/// the value replaced by `-`.
pub fn uid(prefix: &str, value: &str) -> (r: String)
    ensures
        r@ == uid_spec(prefix@, value@),
{
    let targets = ['/', '_', ' '];
    assert(targets@ =~= demo_uid_unsafe_chars());
    let mut r = prefix.to_owned();
    crate::text::push_char(&mut r, '-');
    let safe = replace_chars(value, &targets, '-');
    r.append(safe.as_str());
    r
}

/// The concatenation of some texts.
pub open spec fn concat_spec(parts: Seq<&str>) -> Seq<char>
    decreases parts.len(),
{
    if parts.len() == 0 {
        Seq::empty()
    } else {
        concat_spec(parts.drop_last()) + parts.last()@
    }
}

/// The concatenation of some texts.
pub fn cat(parts: &[&str]) -> (r: String)
    ensures
        r@ == concat_spec(parts@),
{
    let mut out = String::new();
    let mut i: usize = 0;
    while i < parts.len()
        invariant
            i <= parts@.len(),
            out@ == concat_spec(parts@.take(i as int)),
        decreases parts@.len() - i,
    {
        assert(parts@.take(i + 1).drop_last() =~= parts@.take(i as int));
        out.append(parts[i]);
        i += 1;
    }
    assert(parts@.take(i as int) =~= parts@);
    out
}

pub(crate) fn s(v: &str) -> (r: JsonValue)
    ensures
        r@ == crate::json::Json::Str(v@),
{
    JsonValue::Str(v.to_owned())
}

pub(crate) fn st(v: String) -> (r: JsonValue)
    ensures
        r@ == crate::json::Json::Str(v@),
{
    JsonValue::Str(v)
}

fn arr(items: Vec<JsonValue>) -> (r: JsonValue)
    ensures
        r@ == Json::Array(crate::json::items_view(items@)),
{
    JsonValue::Array(items)
}

pub(crate) fn strs(items: &[&str]) -> (r: JsonValue)
    ensures
        r@ == str_array(str_views(items@)),
{
    broadcast use crate::json::group_json_view;

    let mut out: Vec<JsonValue> = Vec::new();
    let mut i: usize = 0;
    while i < items.len()
        invariant
            i <= items@.len(),
            crate::json::items_view(out@) == str_views(items@).take(i as int).map_values(
                |t: Seq<char>| Json::Str(t),
            ),
        decreases items@.len() - i,
    {
        let ghost before = out@;
        out.push(s(items[i]));
        proof {
            assert(out@.drop_last() == before);
            assert(crate::json::items_view(out@) =~= str_views(items@).take(i + 1).map_values(
                |t: Seq<char>| Json::Str(t),
            ));
        }
        i += 1;
    }
    assert(str_views(items@).take(i as int) =~= str_views(items@));
    JsonValue::Array(out)
}

pub(crate) fn obj(entries: Vec<(&str, JsonValue)>) -> (r: JsonValue)
    ensures
        r@ == Json::Object(crate::json::pairs_model(entries@)),
{
    json_record(entries)
}

pub(crate) fn empty_obj() -> (r: JsonValue)
    ensures
        r@ == Json::Object(seq![]),
{
    let members: Vec<(String, JsonValue)> = Vec::new();
    assert(crate::json::entries_view(members@) =~= seq![]);
    JsonValue::Object(members)
}

pub(crate) fn obj1(k1: &str, v1: JsonValue) -> (r: JsonValue)
    ensures
        r@ == Json::Object(seq![(k1@, v1@)]),
{
    let ghost g1 = v1@;
    let entries = vec![(k1, v1)];
    assert(crate::json::pairs_model(entries@) =~= seq![(k1@, g1)]);
    obj(entries)
}

pub(crate) fn obj2(k1: &str, v1: JsonValue, k2: &str, v2: JsonValue) -> (r: JsonValue)
    ensures
        r@ == Json::Object(seq![(k1@, v1@), (k2@, v2@)]),
{
    let ghost g1 = v1@;
    let ghost g2 = v2@;
    let entries = vec![(k1, v1), (k2, v2)];
    assert(crate::json::pairs_model(entries@) =~= seq![(k1@, g1), (k2@, g2)]);
    obj(entries)
}

pub(crate) fn obj3(k1: &str, v1: JsonValue, k2: &str, v2: JsonValue, k3: &str, v3: JsonValue) -> (r: JsonValue)
    ensures
        r@ == Json::Object(seq![(k1@, v1@), (k2@, v2@), (k3@, v3@)]),
{
    let ghost g1 = v1@;
    let ghost g2 = v2@;
    let ghost g3 = v3@;
    let entries = vec![(k1, v1), (k2, v2), (k3, v3)];
    assert(crate::json::pairs_model(entries@) =~= seq![(k1@, g1), (k2@, g2), (k3@, g3)]);
    obj(entries)
}

pub(crate) fn obj4(k1: &str, v1: JsonValue, k2: &str, v2: JsonValue, k3: &str, v3: JsonValue, k4: &str, v4: JsonValue) -> (r: JsonValue)
    ensures
        r@ == Json::Object(seq![(k1@, v1@), (k2@, v2@), (k3@, v3@), (k4@, v4@)]),
{
    let ghost g1 = v1@;
    let ghost g2 = v2@;
    let ghost g3 = v3@;
    let ghost g4 = v4@;
    let entries = vec![(k1, v1), (k2, v2), (k3, v3), (k4, v4)];
    assert(crate::json::pairs_model(entries@) =~= seq![(k1@, g1), (k2@, g2), (k3@, g3), (k4@, g4)]);
    obj(entries)
}

pub(crate) fn obj5(k1: &str, v1: JsonValue, k2: &str, v2: JsonValue, k3: &str, v3: JsonValue, k4: &str, v4: JsonValue, k5: &str, v5: JsonValue) -> (r: JsonValue)
    ensures
        r@ == Json::Object(seq![(k1@, v1@), (k2@, v2@), (k3@, v3@), (k4@, v4@), (k5@, v5@)]),
{
    let ghost g1 = v1@;
    let ghost g2 = v2@;
    let ghost g3 = v3@;
    let ghost g4 = v4@;
    let ghost g5 = v5@;
    let entries = vec![(k1, v1), (k2, v2), (k3, v3), (k4, v4), (k5, v5)];
    assert(crate::json::pairs_model(entries@) =~= seq![(k1@, g1), (k2@, g2), (k3@, g3), (k4@, g4), (k5@, g5)]);
    obj(entries)
}

pub(crate) fn obj6(k1: &str, v1: JsonValue, k2: &str, v2: JsonValue, k3: &str, v3: JsonValue, k4: &str, v4: JsonValue, k5: &str, v5: JsonValue, k6: &str, v6: JsonValue) -> (r: JsonValue)
    ensures
        r@ == Json::Object(seq![(k1@, v1@), (k2@, v2@), (k3@, v3@), (k4@, v4@), (k5@, v5@), (k6@, v6@)]),
{
    let ghost g1 = v1@;
    let ghost g2 = v2@;
    let ghost g3 = v3@;
    let ghost g4 = v4@;
    let ghost g5 = v5@;
    let ghost g6 = v6@;
    let entries = vec![(k1, v1), (k2, v2), (k3, v3), (k4, v4), (k5, v5), (k6, v6)];
    assert(crate::json::pairs_model(entries@) =~= seq![(k1@, g1), (k2@, g2), (k3@, g3), (k4@, g4), (k5@, g5), (k6@, g6)]);
    obj(entries)
}

pub(crate) fn obj7(k1: &str, v1: JsonValue, k2: &str, v2: JsonValue, k3: &str, v3: JsonValue, k4: &str, v4: JsonValue, k5: &str, v5: JsonValue, k6: &str, v6: JsonValue, k7: &str, v7: JsonValue) -> (r: JsonValue)
    ensures
        r@ == Json::Object(seq![(k1@, v1@), (k2@, v2@), (k3@, v3@), (k4@, v4@), (k5@, v5@), (k6@, v6@), (k7@, v7@)]),
{
    let ghost g1 = v1@;
    let ghost g2 = v2@;
    let ghost g3 = v3@;
    let ghost g4 = v4@;
    let ghost g5 = v5@;
    let ghost g6 = v6@;
    let ghost g7 = v7@;
    let entries = vec![(k1, v1), (k2, v2), (k3, v3), (k4, v4), (k5, v5), (k6, v6), (k7, v7)];
    assert(crate::json::pairs_model(entries@) =~= seq![(k1@, g1), (k2@, g2), (k3@, g3), (k4@, g4), (k5@, g5), (k6@, g6), (k7@, g7)]);
    obj(entries)
}

pub(crate) fn cat2(p1: &str, p2: &str) -> (r: String)
    ensures
        r@ == p1@ + p2@,
{
    let parts = [p1, p2];
    proof {
        reveal_with_fuel(concat_spec, 3);
        assert(concat_spec(parts@) =~= p1@ + p2@);
    }
    cat(&parts)
}

pub(crate) fn cat3(p1: &str, p2: &str, p3: &str) -> (r: String)
    ensures
        r@ == p1@ + p2@ + p3@,
{
    let parts = [p1, p2, p3];
    proof {
        reveal_with_fuel(concat_spec, 4);
        assert(concat_spec(parts@) =~= p1@ + p2@ + p3@);
    }
    cat(&parts)
}

pub(crate) fn cat4(p1: &str, p2: &str, p3: &str, p4: &str) -> (r: String)
    ensures
        r@ == p1@ + p2@ + p3@ + p4@,
{
    let parts = [p1, p2, p3, p4];
    proof {
        reveal_with_fuel(concat_spec, 5);
        assert(concat_spec(parts@) =~= p1@ + p2@ + p3@ + p4@);
    }
    cat(&parts)
}

pub(crate) fn cat5(p1: &str, p2: &str, p3: &str, p4: &str, p5: &str) -> (r: String)
    ensures
        r@ == p1@ + p2@ + p3@ + p4@ + p5@,
{
    let parts = [p1, p2, p3, p4, p5];
    proof {
        reveal_with_fuel(concat_spec, 6);
        assert(concat_spec(parts@) =~= p1@ + p2@ + p3@ + p4@ + p5@);
    }
    cat(&parts)
}

pub(crate) fn strs1(a: &str) -> (r: JsonValue)
    ensures
        r@ == str_array(seq![a@]),
{
    let items = [a];
    assert(str_views(items@) =~= seq![a@]);
    strs(&items)
}

pub(crate) fn cat6(p1: &str, p2: &str, p3: &str, p4: &str, p5: &str, p6: &str) -> (r: String)
    ensures
        r@ == p1@ + p2@ + p3@ + p4@ + p5@ + p6@,
{
    let parts = [p1, p2, p3, p4, p5, p6];
    proof {
        reveal_with_fuel(concat_spec, 7);
        assert(concat_spec(parts@) =~= p1@ + p2@ + p3@ + p4@ + p5@ + p6@);
    }
    cat(&parts)
}

pub(crate) fn arr0() -> (r: JsonValue)
    ensures
        r@ == Json::Array(seq![]),
{
    let items: Vec<JsonValue> = Vec::new();
    assert(crate::json::items_view(items@) =~= seq![]);
    arr(items)
}

pub(crate) fn arr1(v1: JsonValue) -> (r: JsonValue)
    ensures
        r@ == Json::Array(seq![v1@]),
{
    broadcast use crate::json::group_json_view;

    let ghost g1 = v1@;
    let items = vec![v1];
    assert(crate::json::items_view(items@) =~= seq![g1]);
    arr(items)
}

pub(crate) fn arr2(v1: JsonValue, v2: JsonValue) -> (r: JsonValue)
    ensures
        r@ == Json::Array(seq![v1@, v2@]),
{
    broadcast use crate::json::group_json_view;

    let ghost (g1, g2) = (v1@, v2@);
    let items = vec![v1, v2];
    assert(crate::json::items_view(items@) =~= seq![g1, g2]);
    arr(items)
}

/// Appends one object to the list.
fn push_obj(objects: &mut Vec<JsonValue>, v: JsonValue)
    ensures
        crate::json::items_view(final(objects)@) == crate::json::items_view(old(objects)@).push(v@),
{
    let ghost before = objects@;
    objects.push(v);
    assert(objects@.drop_last() == before);
}

fn managed_by_label(by: &str) -> (r: JsonValue)
    ensures
        r@ == managed_by_json(by@),
{
    let entries = vec![("app.kubernetes.io/managed-by", s(by))];
    assert(crate::json::pairs_model(entries@) =~= seq![("app.kubernetes.io/managed-by"@, js(by@))]);
    obj(entries)
}

/// A JSON integer.
pub open spec fn jn(n: int) -> Json {
    Json::Number(crate::json::int_text(n))
}

/// The pod spec of a workload: one container with its image, port, config
/// and secret, run privileged and as the default service account when
/// risky (with the host network in the legacy namespace), and its volumes:
/// the config map, the secret, the data claim when it keeps storage, and
/// the docker socket when risky.
pub open spec fn pod_spec_json(namespace: NamespaceProfile, workload: WorkloadProfile, risky: bool) -> Json {
    let config_name = workload.name@ + "-config"@;
    let secret_name = workload.name@ + "-runtime"@;
    let volumes = seq![
        Json::Object(seq![("name"@, js("config"@)), ("configMap"@, Json::Object(seq![("name"@, js(config_name))]))]),
        Json::Object(
            seq![("name"@, js("runtime-secret"@)), ("secret"@, Json::Object(seq![("secretName"@, js(secret_name))]))],
        ),
    ] + (if workload.storage {
        seq![
            Json::Object(
                seq![
                    ("name"@, js("data"@)),
                    ("persistentVolumeClaim"@, Json::Object(seq![("claimName"@, js(workload.name@ + "-data"@))])),
                ],
            ),
        ]
    } else {
        seq![]
    }) + (if risky {
        seq![
            Json::Object(
                seq![
                    ("name"@, js("host-docker"@)),
                    (
                        "hostPath"@,
                        Json::Object(seq![("path"@, js("/var/run/docker.sock"@)), ("type"@, js("Socket"@))]),
                    ),
                ],
            ),
        ]
    } else {
        seq![]
    });
    let image = "registry.example.com/"@ + namespace.environment@ + "/"@ + workload.name@ + ":2026.05.16"@;
    let container = Json::Object(
        seq![
            ("name"@, js(workload.short@)),
            ("image"@, js(image)),
            ("ports"@, Json::Array(seq![Json::Object(seq![("containerPort"@, jn(workload.port as int))])])),
            (
                "envFrom"@,
                Json::Array(
                    seq![
                        Json::Object(seq![("configMapRef"@, Json::Object(seq![("name"@, js(config_name))]))]),
                        Json::Object(seq![("secretRef"@, Json::Object(seq![("name"@, js(secret_name))]))]),
                    ],
                ),
            ),
            (
                "securityContext"@,
                Json::Object(
                    seq![
                        ("privileged"@, Json::Bool(risky)),
                        ("allowPrivilegeEscalation"@, Json::Bool(risky)),
                        ("readOnlyRootFilesystem"@, Json::Bool(!risky)),
                    ],
                ),
            ),
            (
                "resources"@,
                Json::Object(
                    seq![
                        ("requests"@, Json::Object(seq![("cpu"@, js("250m"@)), ("memory"@, js("256Mi"@))])),
                        ("limits"@, Json::Object(seq![("cpu"@, js("1"@)), ("memory"@, js("1Gi"@))])),
                    ],
                ),
            ),
        ],
    );
    Json::Object(
        seq![
            ("serviceAccountName"@, js(if risky { "default"@ } else { workload.name@ })),
            ("hostNetwork"@, Json::Bool(risky && namespace.name@ == "legacy-admin"@)),
            ("hostPID"@, Json::Bool(risky)),
            ("containers"@, Json::Array(seq![container])),
            ("volumes"@, Json::Array(volumes)),
        ],
    )
}

/// A workload's service account.
pub open spec fn service_account_json(namespace: NamespaceProfile, workload: WorkloadProfile, managed_by: Seq<char>) -> Json {
    Json::Object(
        seq![
            ("apiVersion"@, js("v1"@)),
            ("kind"@, js("ServiceAccount"@)),
            ("metadata"@, metadata_json(namespace, workload, "sa"@, workload.name@, managed_by)),
        ],
    )
}

/// A workload's config map: info logging in production, debug elsewhere.
pub open spec fn config_map_json(namespace: NamespaceProfile, workload: WorkloadProfile, managed_by: Seq<char>) -> Json {
    Json::Object(
        seq![
            ("apiVersion"@, js("v1"@)),
            ("kind"@, js("ConfigMap"@)),
            ("metadata"@, metadata_json(namespace, workload, "cm"@, workload.name@ + "-config"@, managed_by)),
            (
                "data"@,
                Json::Object(
                    seq![
                        ("LOG_LEVEL"@, js(if namespace.environment@ == "prod"@ { "info"@ } else { "debug"@ })),
                        ("FEATURE_FLAGS"@, js("risk-ui,billing-v2"@)),
                    ],
                ),
            ),
        ],
    )
}

/// A workload's runtime secret: opaque when its configuration is
/// sensitive, basic-auth otherwise, with redacted data.
pub open spec fn secret_json(namespace: NamespaceProfile, workload: WorkloadProfile, managed_by: Seq<char>) -> Json {
    Json::Object(
        seq![
            ("apiVersion"@, js("v1"@)),
            ("kind"@, js("Secret"@)),
            ("metadata"@, metadata_json(namespace, workload, "secret"@, workload.name@ + "-runtime"@, managed_by)),
            ("type"@, js(if workload.sensitive_config { "Opaque"@ } else { "kubernetes.io/basic-auth"@ })),
            (
                "data"@,
                Json::Object(seq![("DATABASE_URL"@, js("cmVkYWN0ZWQ="@)), ("API_TOKEN"@, js("cmVkYWN0ZWQ="@))]),
            ),
        ],
    )
}

/// A workload's data claim and the volume bound to it: `io2-retain` in
/// production, `gp3-encrypted` elsewhere, 2Ti for analytics, 200Gi for others.
pub open spec fn storage_json(namespace: NamespaceProfile, workload: WorkloadProfile, managed_by: Seq<char>) -> Seq<Json> {
    let pv = "pv-"@ + namespace.name@ + "-"@ + workload.short@;
    let class = if namespace.environment@ == "prod"@ { "io2-retain"@ } else { "gp3-encrypted"@ };
    let size = if workload.short@ == "ana"@ { "2Ti"@ } else { "200Gi"@ };
    seq![
        Json::Object(
            seq![
                ("apiVersion"@, js("v1"@)),
                ("kind"@, js("PersistentVolumeClaim"@)),
                ("metadata"@, metadata_json(namespace, workload, "pvc"@, workload.name@ + "-data"@, managed_by)),
                (
                    "spec"@,
                    Json::Object(
                        seq![
                            ("storageClassName"@, js(class)),
                            ("volumeName"@, js(pv)),
                            ("accessModes"@, str_array(seq!["ReadWriteOnce"@])),
                            (
                                "resources"@,
                                Json::Object(seq![("requests"@, Json::Object(seq![("storage"@, js(size))]))]),
                            ),
                        ],
                    ),
                ),
                ("status"@, Json::Object(seq![("phase"@, js("Bound"@))])),
            ],
        ),
        Json::Object(
            seq![
                ("apiVersion"@, js("v1"@)),
                ("kind"@, js("PersistentVolume"@)),
                (
                    "metadata"@,
                    Json::Object(
                        seq![
                            ("name"@, js(pv)),
                            ("uid"@, js(uid_spec("pv"@, pv))),
                            (
                                "labels"@,
                                Json::Object(
                                    seq![
                                        ("environment"@, js(namespace.environment@)),
                                        ("team"@, js(workload.owner@)),
                                        ("app"@, js(workload.name@)),
                                        ("app.kubernetes.io/managed-by"@, js(managed_by)),
                                    ],
                                ),
                            ),
                        ],
                    ),
                ),
                (
                    "spec"@,
                    Json::Object(
                        seq![
                            ("storageClassName"@, js(class)),
                            ("capacity"@, Json::Object(seq![("storage"@, js(size))])),
                            ("accessModes"@, str_array(seq!["ReadWriteOnce"@])),
                        ],
                    ),
                ),
                ("status"@, Json::Object(seq![("phase"@, js("Bound"@))])),
            ],
        ),
    ]
}

/// A workload's role and its binding to the workload's service account:
/// every verb on every resource for the orders worker in development, read
/// access to config maps and secrets otherwise.
pub open spec fn role_and_binding_json(namespace: NamespaceProfile, workload: WorkloadProfile, managed_by: Seq<char>) -> Seq<Json> {
    let name = workload.name@ + "-runtime"@;
    let rules = if namespace.name@ == "dev-apps"@ && workload.short@ == "ord"@ {
        Json::Array(seq![rule_json(seq!["*"@], seq!["*"@], seq!["*"@])])
    } else {
        Json::Array(seq![rule_json(seq![""@], seq!["configmaps"@, "secrets"@], seq!["get"@])])
    };
    seq![
        Json::Object(
            seq![
                ("apiVersion"@, js("rbac.authorization.k8s.io/v1"@)),
                ("kind"@, js("Role"@)),
                ("metadata"@, metadata_json(namespace, workload, "role"@, name, managed_by)),
                ("rules"@, rules),
            ],
        ),
        Json::Object(
            seq![
                ("apiVersion"@, js("rbac.authorization.k8s.io/v1"@)),
                ("kind"@, js("RoleBinding"@)),
                ("metadata"@, metadata_json(namespace, workload, "rb"@, name, managed_by)),
                (
                    "roleRef"@,
                    Json::Object(
                        seq![
                            ("apiGroup"@, js("rbac.authorization.k8s.io"@)),
                            ("kind"@, js("Role"@)),
                            ("name"@, js(name)),
                        ],
                    ),
                ),
                ("subjects"@, Json::Array(seq![subject_json(namespace.name@, workload.name@)])),
            ],
        ),
    ]
}

/// A workload's deployment.
pub open spec fn deployment_json(
    namespace: NamespaceProfile,
    workload: WorkloadProfile,
    replicas: usize,
    managed_by: Seq<char>,
    risky: bool,
) -> Json {
    Json::Object(
        seq![
            ("apiVersion"@, js("apps/v1"@)),
            ("kind"@, js("Deployment"@)),
            ("metadata"@, metadata_json(namespace, workload, "deploy"@, workload.name@, managed_by)),
            (
                "spec"@,
                Json::Object(
                    seq![
                        ("replicas"@, jn((replicas as i64) as int)),
                        ("selector"@, Json::Object(seq![("matchLabels"@, selector_json(workload))])),
                        (
                            "template"@,
                            Json::Object(
                                seq![
                                    (
                                        "metadata"@,
                                        Json::Object(seq![("labels"@, pod_labels_json(namespace, workload, managed_by))]),
                                    ),
                                    ("spec"@, pod_spec_json(namespace, workload, risky)),
                                ],
                            ),
                        ),
                    ],
                ),
            ),
        ],
    )
}

/// The uid of a workload's replica set.
pub open spec fn replicaset_uid(namespace: NamespaceProfile, workload: WorkloadProfile) -> Seq<char> {
    uid_spec("rs"@, namespace.name@ + "-"@ + workload.short@)
}

/// A workload's replica set, owned by its deployment.
pub open spec fn replicaset_json(namespace: NamespaceProfile, workload: WorkloadProfile, replicas: usize) -> Json {
    Json::Object(
        seq![
            ("apiVersion"@, js("apps/v1"@)),
            ("kind"@, js("ReplicaSet"@)),
            (
                "metadata"@,
                Json::Object(
                    seq![
                        ("namespace"@, js(namespace.name@)),
                        ("name"@, js(workload.name@ + "-7c9d88f7d9"@)),
                        ("uid"@, js(replicaset_uid(namespace, workload))),
                        ("labels"@, pod_labels_json(namespace, workload, "Helm"@)),
                        (
                            "ownerReferences"@,
                            Json::Array(
                                seq![
                                    owner_reference_json(
                                        "Deployment"@,
                                        workload.name@,
                                        uid_spec("deploy"@, namespace.name@ + "-"@ + workload.name@),
                                    ),
                                ],
                            ),
                        ),
                    ],
                ),
            ),
            (
                "spec"@,
                Json::Object(
                    seq![
                        ("replicas"@, jn((replicas as i64) as int)),
                        ("selector"@, Json::Object(seq![("matchLabels"@, selector_json(workload))])),
                    ],
                ),
            ),
        ],
    )
}

/// The name of a workload's pod at a position.
pub open spec fn pod_name(workload: WorkloadProfile, index: int) -> Seq<char> {
    workload.name@ + "-"@ + workload.short@ + "-"@ + crate::text::zero_padded_spec((index + 1) as nat, 2)
}

/// A workload's running pod at a position, owned by its replica set.
pub open spec fn pod_json(
    namespace: NamespaceProfile,
    workload: WorkloadProfile,
    index: int,
    managed_by: Seq<char>,
    risky: bool,
) -> Json {
    let name = pod_name(workload, index);
    Json::Object(
        seq![
            ("apiVersion"@, js("v1"@)),
            ("kind"@, js("Pod"@)),
            (
                "metadata"@,
                Json::Object(
                    seq![
                        ("namespace"@, js(namespace.name@)),
                        ("name"@, js(name)),
                        ("uid"@, js(uid_spec("pod"@, namespace.name@ + "-"@ + name))),
                        (
                            "labels"@,
                            Json::Object(
                                seq![
                                    ("app"@, js(workload.name@)),
                                    ("app.kubernetes.io/name"@, js(workload.name@)),
                                    ("app.kubernetes.io/part-of"@, js(workload.owner@)),
                                    ("app.kubernetes.io/managed-by"@, js(managed_by)),
                                    ("environment"@, js(namespace.environment@)),
                                    ("team"@, js(workload.owner@)),
                                    ("pod-template-hash"@, js("demo"@)),
                                ],
                            ),
                        ),
                        (
                            "ownerReferences"@,
                            Json::Array(
                                seq![
                                    owner_reference_json(
                                        "ReplicaSet"@,
                                        workload.name@ + "-7c9d88f7d9"@,
                                        replicaset_uid(namespace, workload),
                                    ),
                                ],
                            ),
                        ),
                    ],
                ),
            ),
            ("spec"@, pod_spec_json(namespace, workload, risky)),
            ("status"@, Json::Object(seq![("phase"@, js("Running"@))])),
        ],
    )
}

/// A workload's service: a local-traffic load balancer on port 443 for a
/// public production workload, a cluster-internal service on its own port
/// otherwise.
pub open spec fn service_json(namespace: NamespaceProfile, workload: WorkloadProfile, managed_by: Seq<char>) -> Json {
    let public_lb = workload.public && namespace.environment@ == "prod"@;
    Json::Object(
        seq![
            ("apiVersion"@, js("v1"@)),
            ("kind"@, js("Service"@)),
            ("metadata"@, metadata_json(namespace, workload, "svc"@, workload.name@, managed_by)),
            (
                "spec"@,
                Json::Object(
                    seq![
                        ("type"@, js(if public_lb { "LoadBalancer"@ } else { "ClusterIP"@ })),
                        ("selector"@, selector_json(workload)),
                        (
                            "ports"@,
                            Json::Array(
                                seq![
                                    Json::Object(
                                        seq![
                                            ("name"@, js("http"@)),
                                            ("port"@, jn(if public_lb { 443 } else { workload.port as int })),
                                            ("targetPort"@, jn(workload.port as int)),
                                        ],
                                    ),
                                ],
                            ),
                        ),
                        ("externalTrafficPolicy"@, js(if public_lb { "Local"@ } else { "Cluster"@ })),
                    ],
                ),
            ),
            (
                "status"@,
                Json::Object(
                    seq![
                        (
                            "loadBalancer"@,
                            if public_lb {
                                Json::Object(
                                    seq![
                                        (
                                            "ingress"@,
                                            Json::Array(
                                                seq![
                                                    Json::Object(
                                                        seq![
                                                            (
                                                                "hostname"@,
                                                                js(workload.short@ + "-"@ + namespace.name@ + ".elb.amazonaws.com"@),
                                                            ),
                                                        ],
                                                    ),
                                                ],
                                            ),
                                        ),
                                    ],
                                )
                            } else {
                                Json::Object(seq![])
                            },
                        ),
                    ],
                ),
            ),
        ],
    )
}

/// A workload's ingress: the internet class in production, internal
/// elsewhere, routing `/` to its service on 443 when public, its own port
/// otherwise.
pub open spec fn ingress_json(namespace: NamespaceProfile, workload: WorkloadProfile, managed_by: Seq<char>) -> Json {
    let port = if workload.public { 443 } else { workload.port as int };
    let backend = Json::Object(
        seq![
            (
                "service"@,
                Json::Object(seq![("name"@, js(workload.name@)), ("port"@, Json::Object(seq![("number"@, jn(port))]))]),
            ),
        ],
    );
    let path = Json::Object(seq![("path"@, js("/"@)), ("pathType"@, js("Prefix"@)), ("backend"@, backend)]);
    Json::Object(
        seq![
            ("apiVersion"@, js("networking.k8s.io/v1"@)),
            ("kind"@, js("Ingress"@)),
            ("metadata"@, metadata_json(namespace, workload, "ing"@, workload.name@, managed_by)),
            (
                "spec"@,
                Json::Object(
                    seq![
                        ("ingressClassName"@, js(if namespace.environment@ == "prod"@ { "internet"@ } else { "internal"@ })),
                        (
                            "rules"@,
                            Json::Array(
                                seq![
                                    Json::Object(
                                        seq![
                                            (
                                                "host"@,
                                                js(workload.short@ + "-"@ + namespace.environment@ + ".demo.example.com"@),
                                            ),
                                            ("http"@, Json::Object(seq![("paths"@, Json::Array(seq![path]))])),
                                        ],
                                    ),
                                ],
                            ),
                        ),
                    ],
                ),
            ),
        ],
    )
}

/// A team namespace, with its environment, team and Terraform labels.
pub open spec fn namespace_json(namespace: NamespaceProfile) -> Json {
    Json::Object(
        seq![
            ("apiVersion"@, js("v1"@)),
            ("kind"@, js("Namespace"@)),
            (
                "metadata"@,
                Json::Object(
                    seq![
                        ("name"@, js(namespace.name@)),
                        ("uid"@, js(uid_spec("ns"@, namespace.name@))),
                        (
                            "labels"@,
                            Json::Object(
                                seq![
                                    ("environment"@, js(namespace.environment@)),
                                    ("team"@, js(namespace.owner@)),
                                    ("app.kubernetes.io/managed-by"@, js("Terraform"@)),
                                ],
                            ),
                        ),
                    ],
                ),
            ),
        ],
    )
}

/// The cluster's namespaces: `kube-system`, then each team namespace.
pub open spec fn namespaces_json() -> Seq<Json> {
    seq![
        Json::Object(
            seq![
                ("apiVersion"@, js("v1"@)),
                ("kind"@, js("Namespace"@)),
                (
                    "metadata"@,
                    Json::Object(
                        seq![
                            ("name"@, js("kube-system"@)),
                            ("uid"@, js("ns-kube-system"@)),
                            ("labels"@, Json::Object(seq![("kubernetes.io/metadata.name"@, js("kube-system"@))])),
                        ],
                    ),
                ),
            ],
        ),
    ] + namespaces_spec().map_values(|n: NamespaceProfile| namespace_json(n))
}

/// The node at a position of a node pool.
pub open spec fn node_json(pool: Seq<char>, instance_type: Seq<char>, index: int) -> Json {
    let number = crate::text::decimal_spec((index + 10) as nat);
    let position = crate::text::decimal_spec(index as nat);
    let zone = zone_spec(index);
    Json::Object(
        seq![
            ("apiVersion"@, js("v1"@)),
            ("kind"@, js("Node"@)),
            (
                "metadata"@,
                Json::Object(
                    seq![
                        ("name"@, js("ip-10-42-"@ + pool + "-"@ + number)),
                        ("uid"@, js(uid_spec("node"@, pool + "-"@ + position))),
                        (
                            "labels"@,
                            Json::Object(
                                seq![
                                    ("node.kubernetes.io/instance-type"@, js(instance_type)),
                                    ("topology.kubernetes.io/region"@, js("us-east-1"@)),
                                    ("topology.kubernetes.io/zone"@, js("us-east-1"@ + zone)),
                                    ("cloudmapper.io/node-pool"@, js(pool)),
                                    ("app.kubernetes.io/managed-by"@, js("EKS"@)),
                                ],
                            ),
                        ),
                    ],
                ),
            ),
            (
                "spec"@,
                Json::Object(
                    seq![
                        ("providerID"@, js("aws:///us-east-1"@ + zone + "/i-demo"@ + pool + position)),
                        (
                            "taints"@,
                            if pool == "gpu"@ {
                                Json::Array(
                                    seq![
                                        Json::Object(
                                            seq![
                                                ("key"@, js("workload"@)),
                                                ("value"@, js("gpu"@)),
                                                ("effect"@, js("NoSchedule"@)),
                                            ],
                                        ),
                                    ],
                                )
                            } else {
                                Json::Array(seq![])
                            },
                        ),
                    ],
                ),
            ),
            (
                "status"@,
                Json::Object(
                    seq![
                        (
                            "capacity"@,
                            Json::Object(seq![("cpu"@, js("8"@)), ("memory"@, js("32Gi"@)), ("pods"@, js("110"@))]),
                        ),
                        (
                            "allocatable"@,
                            Json::Object(seq![("cpu"@, js("7600m"@)), ("memory"@, js("29Gi"@)), ("pods"@, js("100"@))]),
                        ),
                    ],
                ),
            ),
        ],
    )
}

/// The first `count` nodes of a pool.
pub open spec fn pool_nodes(pool: Seq<char>, instance_type: Seq<char>, count: nat) -> Seq<Json>
    decreases count,
{
    if count == 0 {
        seq![]
    } else {
        pool_nodes(pool, instance_type, (count - 1) as nat).push(node_json(pool, instance_type, count - 1))
    }
}

/// The node pools: name, instance type and size.
pub open spec fn node_pools() -> Seq<(Seq<char>, Seq<char>, nat)> {
    seq![("core"@, "m7i.large"@, 4), ("memory"@, "r7g.xlarge"@, 4), ("gpu"@, "g5.xlarge"@, 2), ("legacy"@, "m5.large"@, 2)]
}

/// The nodes of some pools, pool by pool.
pub open spec fn pools_nodes(pools: Seq<(Seq<char>, Seq<char>, nat)>) -> Seq<Json>
    decreases pools.len(),
{
    if pools.len() == 0 {
        seq![]
    } else {
        pools_nodes(pools.drop_last()) + pool_nodes(pools.last().0, pools.last().1, pools.last().2)
    }
}

/// A storage class managed by Terraform.
pub open spec fn storage_class_json(name: Seq<char>, provisioner: Seq<char>, reclaim: Seq<char>, binding: Seq<char>) -> Json {
    Json::Object(
        seq![
            ("apiVersion"@, js("storage.k8s.io/v1"@)),
            ("kind"@, js("StorageClass"@)),
            (
                "metadata"@,
                Json::Object(
                    seq![
                        ("name"@, js(name)),
                        ("uid"@, js(uid_spec("sc"@, name))),
                        ("labels"@, managed_by_json("Terraform"@)),
                    ],
                ),
            ),
            ("provisioner"@, js(provisioner)),
            ("reclaimPolicy"@, js(reclaim)),
            ("volumeBindingMode"@, js(binding)),
        ],
    )
}

/// The cluster's storage classes.
pub open spec fn storage_classes_json() -> Seq<Json> {
    seq![
        storage_class_json("gp3-encrypted"@, "ebs.csi.aws.com"@, "Delete"@, "WaitForFirstConsumer"@),
        storage_class_json("io2-retain"@, "ebs.csi.aws.com"@, "Retain"@, "WaitForFirstConsumer"@),
        storage_class_json("efs-shared"@, "efs.csi.aws.com"@, "Retain"@, "Immediate"@),
    ]
}

/// A binding of the `cluster-admin` role to one service account.
pub open spec fn admin_binding_json(metadata: Json, subject: Json) -> Json {
    Json::Object(
        seq![
            ("apiVersion"@, js("rbac.authorization.k8s.io/v1"@)),
            ("kind"@, js("ClusterRoleBinding"@)),
            ("metadata"@, metadata),
            (
                "roleRef"@,
                Json::Object(
                    seq![
                        ("apiGroup"@, js("rbac.authorization.k8s.io"@)),
                        ("kind"@, js("ClusterRole"@)),
                        ("name"@, js("cluster-admin"@)),
                    ],
                ),
            ),
            ("subjects"@, Json::Array(seq![subject])),
        ],
    )
}

/// The cluster roles (read-only, namespace admin, secret reader, cluster
/// admin) and the two cluster-admin bindings: incident response, managed by
/// Terraform, and the legacy default service account.
pub open spec fn cluster_rbac_json() -> Seq<Json> {
    seq![
        cluster_role_json(
            "platform-readonly"@,
            Json::Array(
                seq![
                    rule_json(
                        seq![""@, "apps"@, "networking.k8s.io"@],
                        seq!["pods"@, "services"@, "deployments"@, "ingresses"@],
                        seq!["get"@, "list"@, "watch"@],
                    ),
                ],
            ),
        ),
        cluster_role_json(
            "namespace-admin"@,
            Json::Array(seq![rule_json(seq![""@, "apps"@], seq!["pods"@, "services"@, "deployments"@], seq!["*"@])]),
        ),
        cluster_role_json(
            "secret-reader"@,
            Json::Array(seq![rule_json(seq![""@], seq!["secrets"@], seq!["get"@, "list"@])]),
        ),
        cluster_role_json("cluster-admin"@, Json::Array(seq![rule_json(seq!["*"@], seq!["*"@], seq!["*"@])])),
        admin_binding_json(
            Json::Object(
                seq![
                    ("name"@, js("incident-response-admin"@)),
                    ("uid"@, js("crb-incident-response-admin"@)),
                    ("labels"@, managed_by_json("Terraform"@)),
                ],
            ),
            subject_json("security"@, "incident-response"@),
        ),
        admin_binding_json(
            Json::Object(seq![("name"@, js("legacy-admin-default"@)), ("uid"@, js("crb-legacy-admin-default"@))]),
            subject_json("legacy-admin"@, "default"@),
        ),
    ]
}

/// A service account of a team namespace, labelled with the namespace's
/// environment and team, managed from the console in the legacy namespace
/// and by Terraform elsewhere.
pub open spec fn namespace_account_json(namespace: NamespaceProfile, name: Seq<char>) -> Json {
    Json::Object(
        seq![
            ("apiVersion"@, js("v1"@)),
            ("kind"@, js("ServiceAccount"@)),
            (
                "metadata"@,
                Json::Object(
                    seq![
                        ("namespace"@, js(namespace.name@)),
                        ("name"@, js(name)),
                        ("uid"@, js(uid_spec("sa"@, namespace.name@ + "-"@ + name))),
                        (
                            "labels"@,
                            Json::Object(
                                seq![
                                    ("environment"@, js(namespace.environment@)),
                                    ("team"@, js(namespace.owner@)),
                                    (
                                        "app.kubernetes.io/managed-by"@,
                                        js(if namespace.name@ == "legacy-admin"@ { "console"@ } else { "Terraform"@ }),
                                    ),
                                ],
                            ),
                        ),
                    ],
                ),
            ),
        ],
    )
}

/// The basics of a team namespace: the `default`, `deployer` and `reader`
/// service accounts, a read-only role, and its binding to `reader`.
pub open spec fn namespace_basics_json(namespace: NamespaceProfile) -> Seq<Json> {
    let reader_key = namespace.name@ + "-reader"@;
    seq![
        namespace_account_json(namespace, "default"@),
        namespace_account_json(namespace, "deployer"@),
        namespace_account_json(namespace, "reader"@),
        Json::Object(
            seq![
                ("apiVersion"@, js("rbac.authorization.k8s.io/v1"@)),
                ("kind"@, js("Role"@)),
                (
                    "metadata"@,
                    Json::Object(
                        seq![
                            ("namespace"@, js(namespace.name@)),
                            ("name"@, js("namespace-reader"@)),
                            ("uid"@, js(uid_spec("role"@, reader_key))),
                            ("labels"@, managed_by_json("Terraform"@)),
                        ],
                    ),
                ),
                (
                    "rules"@,
                    Json::Array(
                        seq![
                            rule_json(seq![""@, "apps"@], seq!["pods"@, "services"@, "deployments"@], seq!["get"@, "list"@, "watch"@]),
                        ],
                    ),
                ),
            ],
        ),
        Json::Object(
            seq![
                ("apiVersion"@, js("rbac.authorization.k8s.io/v1"@)),
                ("kind"@, js("RoleBinding"@)),
                (
                    "metadata"@,
                    Json::Object(
                        seq![
                            ("namespace"@, js(namespace.name@)),
                            ("name"@, js("reader-binding"@)),
                            ("uid"@, js(uid_spec("rb"@, reader_key))),
                            ("labels"@, managed_by_json("Terraform"@)),
                        ],
                    ),
                ),
                (
                    "roleRef"@,
                    Json::Object(
                        seq![
                            ("apiGroup"@, js("rbac.authorization.k8s.io"@)),
                            ("kind"@, js("Role"@)),
                            ("name"@, js("namespace-reader"@)),
                        ],
                    ),
                ),
                ("subjects"@, Json::Array(seq![subject_json(namespace.name@, "reader"@)])),
            ],
        ),
    ]
}

/// A namespace's default-deny network policy: no ingress, egress to
/// `kube-system` only.
pub open spec fn network_policy_json(namespace: NamespaceProfile) -> Json {
    let egress_to = Json::Object(
        seq![
            (
                "namespaceSelector"@,
                Json::Object(
                    seq![("matchLabels"@, Json::Object(seq![("kubernetes.io/metadata.name"@, js("kube-system"@))]))],
                ),
            ),
        ],
    );
    Json::Object(
        seq![
            ("apiVersion"@, js("networking.k8s.io/v1"@)),
            ("kind"@, js("NetworkPolicy"@)),
            (
                "metadata"@,
                Json::Object(
                    seq![
                        ("namespace"@, js(namespace.name@)),
                        ("name"@, js("default-deny"@)),
                        ("uid"@, js(uid_spec("netpol"@, namespace.name@ + "-default-deny"@))),
                        (
                            "labels"@,
                            Json::Object(
                                seq![
                                    ("environment"@, js(namespace.environment@)),
                                    ("team"@, js(namespace.owner@)),
                                    ("app.kubernetes.io/managed-by"@, js("Terraform"@)),
                                ],
                            ),
                        ),
                    ],
                ),
            ),
            (
                "spec"@,
                Json::Object(
                    seq![
                        ("podSelector"@, Json::Object(seq![])),
                        ("policyTypes"@, str_array(seq!["Ingress"@, "Egress"@])),
                        ("ingress"@, Json::Array(seq![])),
                        ("egress"@, Json::Array(seq![Json::Object(seq![("to"@, Json::Array(seq![egress_to]))])])),
                    ],
                ),
            ),
        ],
    )
}

/// The first `count` pods of a workload.
pub open spec fn pods_json(
    namespace: NamespaceProfile,
    workload: WorkloadProfile,
    count: nat,
    managed_by: Seq<char>,
    risky: bool,
) -> Seq<Json>
    decreases count,
{
    if count == 0 {
        seq![]
    } else {
        pods_json(namespace, workload, (count - 1) as nat, managed_by, risky).push(
            pod_json(namespace, workload, count - 1, managed_by, risky),
        )
    }
}

/// Whether a workload is the orders worker of the development namespace,
/// deployed by hand.
pub open spec fn dev_orders(namespace: NamespaceProfile, workload: WorkloadProfile) -> bool {
    namespace.name@ == "dev-apps"@ && workload.short@ == "ord"@
}

/// What deploys a workload: `kubectl` for the development orders worker,
/// Helm otherwise.
pub open spec fn stack_manager(namespace: NamespaceProfile, workload: WorkloadProfile) -> Seq<char> {
    if dev_orders(namespace, workload) { "kubectl"@ } else { "Helm"@ }
}

/// Whether a workload runs with risky pod settings: in the legacy
/// namespace, or the development orders worker.
pub open spec fn stack_risky(namespace: NamespaceProfile, workload: WorkloadProfile) -> bool {
    namespace.name@ == "legacy-admin"@ || dev_orders(namespace, workload)
}

/// The objects of a workload in a namespace: service account, config map,
/// secret, storage when it keeps data, role and binding, deployment,
/// replica set, its pods, service, and an ingress when it is public or in
/// staging.
pub open spec fn workload_stack_json(namespace: NamespaceProfile, workload: WorkloadProfile) -> Seq<Json> {
    let m = stack_manager(namespace, workload);
    let risky = stack_risky(namespace, workload);
    let replicas = replicas_spec(namespace.environment@, workload.short@);
    seq![
        service_account_json(namespace, workload, m),
        config_map_json(namespace, workload, m),
        secret_json(namespace, workload, m),
    ] + (if workload.storage { storage_json(namespace, workload, m) } else { seq![] }) + role_and_binding_json(
        namespace,
        workload,
        m,
    ) + seq![deployment_json(namespace, workload, replicas, m, risky), replicaset_json(namespace, workload, replicas)]
        + pods_json(namespace, workload, replicas as nat, m, risky) + seq![service_json(namespace, workload, m)] + (
    if workload.public || namespace.environment@ == "stage"@ {
        seq![ingress_json(namespace, workload, m)]
    } else {
        seq![]
    })
}

/// The legacy administration namespace's console and its workloads.
pub open spec fn legacy_namespace() -> NamespaceProfile {
    NamespaceProfile { name: "legacy-admin", environment: "prod", owner: "corporate-it", network_policy: false }
}

/// The legacy break-glass console.
pub open spec fn legacy_workload() -> WorkloadProfile {
    WorkloadProfile {
        name: "breakglass-console",
        short: "legacy",
        owner: "corporate-it",
        port: 8443,
        public: true,
        storage: true,
        sensitive_config: true,
    }
}

/// The legacy console's stack and a long-lived service account token.
pub open spec fn legacy_stack_json() -> Seq<Json> {
    workload_stack_json(legacy_namespace(), legacy_workload()).push(
        Json::Object(
            seq![
                ("apiVersion"@, js("v1"@)),
                ("kind"@, js("Secret"@)),
                (
                    "metadata"@,
                    Json::Object(
                        seq![
                            ("namespace"@, js("legacy-admin"@)),
                            ("name"@, js("default-token-legacy"@)),
                            ("uid"@, js("secret-default-token-legacy"@)),
                        ],
                    ),
                ),
                ("type"@, js("kubernetes.io/service-account-token"@)),
                ("data"@, Json::Object(seq![("token"@, js("cmVkYWN0ZWQ="@))])),
            ],
        ),
    )
}

/// The basics of each namespace, and its network policy when it has one.
pub open spec fn namespaces_basics_json(list: Seq<NamespaceProfile>) -> Seq<Json>
    decreases list.len(),
{
    if list.len() == 0 {
        seq![]
    } else {
        let n = list.last();
        namespaces_basics_json(list.drop_last()) + namespace_basics_json(n) + (if n.network_policy {
            seq![network_policy_json(n)]
        } else {
            seq![]
        })
    }
}

/// The stacks of some workloads in a namespace.
pub open spec fn stacks_json(namespace: NamespaceProfile, list: Seq<WorkloadProfile>) -> Seq<Json>
    decreases list.len(),
{
    if list.len() == 0 {
        seq![]
    } else {
        stacks_json(namespace, list.drop_last()) + workload_stack_json(namespace, list.last())
    }
}

/// The workload stacks of each namespace but the security and observability ones.
pub open spec fn namespaces_stacks_json(list: Seq<NamespaceProfile>) -> Seq<Json>
    decreases list.len(),
{
    if list.len() == 0 {
        seq![]
    } else {
        let n = list.last();
        namespaces_stacks_json(list.drop_last()) + (if n.name@ != "security"@ && n.name@ != "observability"@ {
            stacks_json(n, namespace_workloads_spec(n.name@))
        } else {
            seq![]
        })
    }
}

/// The observability namespace.
pub open spec fn observability_namespace() -> NamespaceProfile {
    NamespaceProfile { name: "observability", environment: "shared", owner: "sre", network_policy: true }
}

/// The collector running in the observability namespace.
pub open spec fn otel_workload() -> WorkloadProfile {
    WorkloadProfile { name: "otel-collector", short: "otel", owner: "sre", port: 4317, public: false, storage: false, sensitive_config: false }
}

/// The security namespace.
pub open spec fn security_namespace() -> NamespaceProfile {
    NamespaceProfile { name: "security", environment: "shared", owner: "security", network_policy: true }
}

/// The incident-response account of the security namespace.
pub open spec fn incident_response_workload() -> WorkloadProfile {
    WorkloadProfile { name: "incident-response", short: "ir", owner: "security", port: 9443, public: false, storage: false, sensitive_config: true }
}

/// The objects of the demo cluster, in listing order: namespaces, nodes,
/// storage classes, cluster RBAC, each namespace's basics and policy, the
/// workload stacks, the observability collector, the incident-response
/// account, and the legacy stack.
pub open spec fn demo_objects_spec() -> Seq<Json> {
    namespaces_json() + pools_nodes(node_pools()) + storage_classes_json() + cluster_rbac_json()
        + namespaces_basics_json(namespaces_spec()) + namespaces_stacks_json(namespaces_spec()) + workload_stack_json(
        observability_namespace(),
        otel_workload(),
    ) + seq![service_account_json(security_namespace(), incident_response_workload(), "Terraform"@)]
        + legacy_stack_json()
}

fn add_namespaces(objects: &mut Vec<JsonValue>)
    ensures
        crate::json::items_view(final(objects)@) == crate::json::items_view(old(objects)@) + namespaces_json(),
{
    let ghost start = crate::json::items_view(objects@);
    push_obj(
        objects,
        obj3(
            "apiVersion",
            s("v1"),
            "kind",
            s("Namespace"),
            "metadata",
            obj3(
                "name",
                s("kube-system"),
                "uid",
                s("ns-kube-system"),
                "labels",
                obj1("kubernetes.io/metadata.name", s("kube-system")),
            ),
        ),
    );
    let ghost first = crate::json::items_view(objects@).last();
    let all = namespaces();
    let mut i: usize = 0;
    while i < all.len()
        invariant
            i <= all@.len(),
            all@ == namespaces_spec(),
            crate::json::items_view(objects@) == start + seq![first] + all@.take(i as int).map_values(
                |n: NamespaceProfile| namespace_json(n),
            ),
        decreases all@.len() - i,
    {
        let namespace = all[i];
        push_obj(
            objects,
            obj3(
                "apiVersion",
                s("v1"),
                "kind",
                s("Namespace"),
                "metadata",
                obj3(
                    "name",
                    s(namespace.name),
                    "uid",
                    st(uid("ns", namespace.name)),
                    "labels",
                    obj3(
                        "environment",
                        s(namespace.environment),
                        "team",
                        s(namespace.owner),
                        "app.kubernetes.io/managed-by",
                        s("Terraform"),
                    ),
                ),
            ),
        );
        assert(all@.take(i + 1).map_values(|n: NamespaceProfile| namespace_json(n)) =~= all@.take(
            i as int,
        ).map_values(|n: NamespaceProfile| namespace_json(n)).push(namespace_json(namespace)));
        i += 1;
    }
    assert(all@.take(i as int) =~= all@);
    assert(crate::json::items_view(objects@) =~= start + namespaces_json());
}

fn zone_suffix(index: usize) -> (r: &'static str)
    ensures
        r@ == zone_spec(index as int),
{
    if index % 3 == 0 {
        "a"
    } else if index % 3 == 1 {
        "b"
    } else {
        "c"
    }
}

fn add_nodes(objects: &mut Vec<JsonValue>)
    ensures
        crate::json::items_view(final(objects)@) == crate::json::items_view(old(objects)@) + pools_nodes(node_pools()),
{
    let ghost start = crate::json::items_view(objects@);
    let pools: [(&str, &str, usize); 4] = [
        ("core", "m7i.large", 4),
        ("memory", "r7g.xlarge", 4),
        ("gpu", "g5.xlarge", 2),
        ("legacy", "m5.large", 2),
    ];
    let ghost views = pools@.map_values(|t: (&str, &str, usize)| (t.0@, t.1@, t.2 as nat));
    assert(views =~= node_pools());
    let mut p: usize = 0;
    while p < 4
        invariant
            p <= 4,
            pools@.len() == 4,
            views == pools@.map_values(|t: (&str, &str, usize)| (t.0@, t.1@, t.2 as nat)),
            forall|k: int| 0 <= k < 4 ==> #[trigger] pools@[k].2 <= 4,
            crate::json::items_view(objects@) == start + pools_nodes(views.take(p as int)),
        decreases 4 - p,
    {
        let (pool, instance_type, count) = pools[p];
        let ghost before = crate::json::items_view(objects@);
        let mut index: usize = 0;
        while index < count
            invariant
                index <= count,
                count <= 4,
                crate::json::items_view(objects@) == before + pool_nodes(pool@, instance_type@, index as nat),
            decreases count - index,
        {
            let number = crate::text::decimal((index + 10) as u64);
            let position = crate::text::decimal(index as u64);
            let zone = zone_suffix(index);
            let name = cat4("ip-10-42-", pool, "-", number.as_str());
            let node_key = cat3(pool, "-", position.as_str());
            let taints = if str_eq(pool, "gpu") {
                arr1(obj3("key", s("workload"), "value", s("gpu"), "effect", s("NoSchedule")))
            } else {
                arr0()
            };
            push_obj(
                objects,
                obj5(
                    "apiVersion",
                    s("v1"),
                    "kind",
                    s("Node"),
                    "metadata",
                    obj3(
                        "name",
                        st(name),
                        "uid",
                        st(uid("node", node_key.as_str())),
                        "labels",
                        obj5(
                            "node.kubernetes.io/instance-type",
                            s(instance_type),
                            "topology.kubernetes.io/region",
                            s("us-east-1"),
                            "topology.kubernetes.io/zone",
                            st(cat2("us-east-1", zone)),
                            "cloudmapper.io/node-pool",
                            s(pool),
                            "app.kubernetes.io/managed-by",
                            s("EKS"),
                        ),
                    ),
                    "spec",
                    obj2(
                        "providerID",
                        st(cat5("aws:///us-east-1", zone, "/i-demo", pool, position.as_str())),
                        "taints",
                        taints,
                    ),
                    "status",
                    obj2(
                        "capacity",
                        obj3("cpu", s("8"), "memory", s("32Gi"), "pods", s("110")),
                        "allocatable",
                        obj3("cpu", s("7600m"), "memory", s("29Gi"), "pods", s("100")),
                    ),
                ),
            );
            assert(crate::json::items_view(objects@) =~= before + pool_nodes(pool@, instance_type@, (index + 1) as nat));
            index += 1;
        }
        proof {
            assert(views.take(p + 1).drop_last() =~= views.take(p as int));
            assert(views.take(p + 1).last() == (pool@, instance_type@, count as nat));
            assert(crate::json::items_view(objects@) =~= start + pools_nodes(views.take(p + 1)));
        }
        p += 1;
    }
    assert(views.take(4) =~= views);
}

fn add_storage_classes(objects: &mut Vec<JsonValue>)
    ensures
        crate::json::items_view(final(objects)@) == crate::json::items_view(old(objects)@) + storage_classes_json(),
{
    let ghost start = crate::json::items_view(objects@);
    let classes: [(&str, &str, &str, &str); 3] = [
        ("gp3-encrypted", "ebs.csi.aws.com", "Delete", "WaitForFirstConsumer"),
        ("io2-retain", "ebs.csi.aws.com", "Retain", "WaitForFirstConsumer"),
        ("efs-shared", "efs.csi.aws.com", "Retain", "Immediate"),
    ];
    let ghost expected = classes@.map_values(
        |c: (&str, &str, &str, &str)| storage_class_json(c.0@, c.1@, c.2@, c.3@),
    );
    assert(expected =~= storage_classes_json());
    let mut i: usize = 0;
    while i < 3
        invariant
            i <= 3,
            classes@.len() == 3,
            expected == classes@.map_values(
                |c: (&str, &str, &str, &str)| storage_class_json(c.0@, c.1@, c.2@, c.3@),
            ),
            crate::json::items_view(objects@) == start + expected.take(i as int),
        decreases 3 - i,
    {
        let (name, provisioner, reclaim_policy, binding_mode) = classes[i];
        push_obj(
            objects,
            obj6(
                "apiVersion",
                s("storage.k8s.io/v1"),
                "kind",
                s("StorageClass"),
                "metadata",
                obj3("name", s(name), "uid", st(uid("sc", name)), "labels", managed_by_label("Terraform")),
                "provisioner",
                s(provisioner),
                "reclaimPolicy",
                s(reclaim_policy),
                "volumeBindingMode",
                s(binding_mode),
            ),
        );
        assert(expected.take(i + 1) =~= expected.take(i as int).push(expected[i as int]));
        i += 1;
    }
    assert(expected.take(3) =~= expected);
}

fn rule(api_groups: &[&str], resources: &[&str], verbs: &[&str]) -> (r: JsonValue)
    ensures
        r@ == rule_json(str_views(api_groups@), str_views(resources@), str_views(verbs@)),
{
    let entries = vec![("apiGroups", strs(api_groups)), ("resources", strs(resources)), ("verbs", strs(verbs))];
    assert(crate::json::pairs_model(entries@) =~= seq![
        ("apiGroups"@, str_array(str_views(api_groups@))),
        ("resources"@, str_array(str_views(resources@))),
        ("verbs"@, str_array(str_views(verbs@))),
    ]);
    obj(entries)
}

fn cluster_role(name: &str, rules: JsonValue) -> (r: JsonValue)
    ensures
        r@ == cluster_role_json(name@, rules@),
{
    let meta = vec![
        ("name", s(name)),
        ("uid", st(uid("clusterrole", name))),
        ("labels", managed_by_label("Terraform")),
    ];
    assert(crate::json::pairs_model(meta@) =~= seq![
        ("name"@, js(name@)),
        ("uid"@, js(uid_spec("clusterrole"@, name@))),
        ("labels"@, managed_by_json("Terraform"@)),
    ]);
    let ghost rv = rules@;
    let entries = vec![
        ("apiVersion", s("rbac.authorization.k8s.io/v1")),
        ("kind", s("ClusterRole")),
        ("metadata", obj(meta)),
        ("rules", rules),
    ];
    assert(crate::json::pairs_model(entries@) =~= seq![
        ("apiVersion"@, js("rbac.authorization.k8s.io/v1"@)),
        ("kind"@, js("ClusterRole"@)),
        ("metadata"@, Json::Object(seq![
            ("name"@, js(name@)),
            ("uid"@, js(uid_spec("clusterrole"@, name@))),
            ("labels"@, managed_by_json("Terraform"@)),
        ])),
        ("rules"@, rv),
    ]);
    obj(entries)
}

fn service_account_subject(namespace: &str, name: &str) -> (r: JsonValue)
    ensures
        r@ == subject_json(namespace@, name@),
{
    let entries = vec![("kind", s("ServiceAccount")), ("namespace", s(namespace)), ("name", s(name))];
    assert(crate::json::pairs_model(entries@) =~= seq![
        ("kind"@, js("ServiceAccount"@)),
        ("namespace"@, js(namespace@)),
        ("name"@, js(name@)),
    ]);
    obj(entries)
}

fn add_cluster_rbac(objects: &mut Vec<JsonValue>)
    ensures
        crate::json::items_view(final(objects)@) == crate::json::items_view(old(objects)@) + cluster_rbac_json(),
{
    let ghost start = crate::json::items_view(objects@);
    let g1 = ["", "apps", "networking.k8s.io"];
    let r1 = ["pods", "services", "deployments", "ingresses"];
    let v1 = ["get", "list", "watch"];
    let g2 = ["", "apps"];
    let r2 = ["pods", "services", "deployments"];
    let all = ["*"];
    let g3 = [""];
    let r3 = ["secrets"];
    let v3 = ["get", "list"];
    assert(str_views(g1@) =~= seq![""@, "apps"@, "networking.k8s.io"@]);
    assert(str_views(r1@) =~= seq!["pods"@, "services"@, "deployments"@, "ingresses"@]);
    assert(str_views(v1@) =~= seq!["get"@, "list"@, "watch"@]);
    assert(str_views(g2@) =~= seq![""@, "apps"@]);
    assert(str_views(r2@) =~= seq!["pods"@, "services"@, "deployments"@]);
    assert(str_views(all@) =~= seq!["*"@]);
    assert(str_views(g3@) =~= seq![""@]);
    assert(str_views(r3@) =~= seq!["secrets"@]);
    assert(str_views(v3@) =~= seq!["get"@, "list"@]);
    push_obj(objects, cluster_role("platform-readonly", arr1(rule(&g1, &r1, &v1))));
    push_obj(objects, cluster_role("namespace-admin", arr1(rule(&g2, &r2, &all))));
    push_obj(objects, cluster_role("secret-reader", arr1(rule(&g3, &r3, &v3))));
    push_obj(objects, cluster_role("cluster-admin", arr1(rule(&all, &all, &all))));
    let admin_ref = obj3(
        "apiGroup",
        s("rbac.authorization.k8s.io"),
        "kind",
        s("ClusterRole"),
        "name",
        s("cluster-admin"),
    );
    push_obj(
        objects,
        obj5(
            "apiVersion",
            s("rbac.authorization.k8s.io/v1"),
            "kind",
            s("ClusterRoleBinding"),
            "metadata",
            obj3(
                "name",
                s("incident-response-admin"),
                "uid",
                s("crb-incident-response-admin"),
                "labels",
                managed_by_label("Terraform"),
            ),
            "roleRef",
            admin_ref,
            "subjects",
            arr1(service_account_subject("security", "incident-response")),
        ),
    );
    let legacy_ref = obj3(
        "apiGroup",
        s("rbac.authorization.k8s.io"),
        "kind",
        s("ClusterRole"),
        "name",
        s("cluster-admin"),
    );
    push_obj(
        objects,
        obj5(
            "apiVersion",
            s("rbac.authorization.k8s.io/v1"),
            "kind",
            s("ClusterRoleBinding"),
            "metadata",
            obj2("name", s("legacy-admin-default"), "uid", s("crb-legacy-admin-default")),
            "roleRef",
            legacy_ref,
            "subjects",
            arr1(service_account_subject("legacy-admin", "default")),
        ),
    );
    assert(crate::json::items_view(objects@) =~= start + cluster_rbac_json());
}

fn add_namespace_basics(objects: &mut Vec<JsonValue>, namespace: NamespaceProfile)
    ensures
        crate::json::items_view(final(objects)@) == crate::json::items_view(old(objects)@) + namespace_basics_json(
            namespace,
        ),
{
    let ghost start = crate::json::items_view(objects@);
    let names: [&str; 3] = ["default", "deployer", "reader"];
    let ghost accounts = names@.map_values(|n: &str| namespace_account_json(namespace, n@));
    let managed = if str_eq(namespace.name, "legacy-admin") {
        "console"
    } else {
        "Terraform"
    };
    let mut i: usize = 0;
    while i < 3
        invariant
            i <= 3,
            names@.len() == 3,
            accounts == names@.map_values(|n: &str| namespace_account_json(namespace, n@)),
            managed@ == (if namespace.name@ == "legacy-admin"@ { "console"@ } else { "Terraform"@ }),
            crate::json::items_view(objects@) == start + accounts.take(i as int),
        decreases 3 - i,
    {
        let name = names[i];
        let key = cat3(namespace.name, "-", name);
        push_obj(
            objects,
            obj3(
                "apiVersion",
                s("v1"),
                "kind",
                s("ServiceAccount"),
                "metadata",
                obj4(
                    "namespace",
                    s(namespace.name),
                    "name",
                    s(name),
                    "uid",
                    st(uid("sa", key.as_str())),
                    "labels",
                    obj3(
                        "environment",
                        s(namespace.environment),
                        "team",
                        s(namespace.owner),
                        "app.kubernetes.io/managed-by",
                        s(managed),
                    ),
                ),
            ),
        );
        assert(accounts.take(i + 1) =~= accounts.take(i as int).push(accounts[i as int]));
        i += 1;
    }
    assert(accounts.take(3) =~= accounts);
    let reader_key = cat2(namespace.name, "-reader");
    let groups = ["", "apps"];
    let resources = ["pods", "services", "deployments"];
    let verbs = ["get", "list", "watch"];
    assert(str_views(groups@) =~= seq![""@, "apps"@]);
    assert(str_views(resources@) =~= seq!["pods"@, "services"@, "deployments"@]);
    assert(str_views(verbs@) =~= seq!["get"@, "list"@, "watch"@]);
    push_obj(
        objects,
        obj4(
            "apiVersion",
            s("rbac.authorization.k8s.io/v1"),
            "kind",
            s("Role"),
            "metadata",
            obj4(
                "namespace",
                s(namespace.name),
                "name",
                s("namespace-reader"),
                "uid",
                st(uid("role", reader_key.as_str())),
                "labels",
                managed_by_label("Terraform"),
            ),
            "rules",
            arr1(rule(&groups, &resources, &verbs)),
        ),
    );
    push_obj(
        objects,
        obj5(
            "apiVersion",
            s("rbac.authorization.k8s.io/v1"),
            "kind",
            s("RoleBinding"),
            "metadata",
            obj4(
                "namespace",
                s(namespace.name),
                "name",
                s("reader-binding"),
                "uid",
                st(uid("rb", reader_key.as_str())),
                "labels",
                managed_by_label("Terraform"),
            ),
            "roleRef",
            obj3("apiGroup", s("rbac.authorization.k8s.io"), "kind", s("Role"), "name", s("namespace-reader")),
            "subjects",
            arr1(service_account_subject(namespace.name, "reader")),
        ),
    );
    assert(crate::json::items_view(objects@) =~= start + namespace_basics_json(namespace));
}

fn add_network_policy(objects: &mut Vec<JsonValue>, namespace: NamespaceProfile)
    ensures
        crate::json::items_view(final(objects)@) == crate::json::items_view(old(objects)@).push(
            network_policy_json(namespace),
        ),
{
    let key = cat2(namespace.name, "-default-deny");
    let egress_to = obj1(
        "namespaceSelector",
        obj1("matchLabels", obj1("kubernetes.io/metadata.name", s("kube-system"))),
    );
    let types = ["Ingress", "Egress"];
    assert(str_views(types@) =~= seq!["Ingress"@, "Egress"@]);
    push_obj(
        objects,
        obj4(
            "apiVersion",
            s("networking.k8s.io/v1"),
            "kind",
            s("NetworkPolicy"),
            "metadata",
            obj4(
                "namespace",
                s(namespace.name),
                "name",
                s("default-deny"),
                "uid",
                st(uid("netpol", key.as_str())),
                "labels",
                obj3(
                    "environment",
                    s(namespace.environment),
                    "team",
                    s(namespace.owner),
                    "app.kubernetes.io/managed-by",
                    s("Terraform"),
                ),
            ),
            "spec",
            obj4(
                "podSelector",
                empty_obj(),
                "policyTypes",
                strs(&types),
                "ingress",
                arr0(),
                "egress",
                arr1(obj1("to", arr1(egress_to))),
            ),
        ),
    );
}

fn metadata(
    namespace: NamespaceProfile,
    workload: WorkloadProfile,
    prefix: &str,
    name: &str,
    managed_by: &str,
) -> (r: JsonValue)
    ensures
        r@ == metadata_json(namespace, workload, prefix@, name@, managed_by@),
{
    let parts = [namespace.name, "-", name];
    proof {
        reveal_with_fuel(concat_spec, 4);
        assert(concat_spec(parts@) =~= namespace.name@ + "-"@ + name@);
    }
    let key = cat(&parts);
    let annotations = if str_eq(managed_by, "Helm") {
        let a = vec![
            ("meta.helm.sh/release-name", s(workload.name)),
            ("meta.helm.sh/release-namespace", s(namespace.name)),
        ];
        assert(crate::json::pairs_model(a@) =~= seq![
            ("meta.helm.sh/release-name"@, js(workload.name@)),
            ("meta.helm.sh/release-namespace"@, js(namespace.name@)),
        ]);
        obj(a)
    } else {
        empty_obj()
    };
    let ghost av = annotations@;
    let entries = vec![
        ("namespace", s(namespace.name)),
        ("name", s(name)),
        ("uid", st(uid(prefix, key.as_str()))),
        ("labels", pod_labels(namespace, workload, managed_by)),
        ("annotations", annotations),
    ];
    assert(crate::json::pairs_model(entries@) =~= seq![
        ("namespace"@, js(namespace.name@)),
        ("name"@, js(name@)),
        ("uid"@, js(uid_spec(prefix@, namespace.name@ + "-"@ + name@))),
        ("labels"@, pod_labels_json(namespace, workload, managed_by@)),
        ("annotations"@, av),
    ]);
    obj(entries)
}

fn pod_labels(namespace: NamespaceProfile, workload: WorkloadProfile, managed_by: &str) -> (r: JsonValue)
    ensures
        r@ == pod_labels_json(namespace, workload, managed_by@),
{
    let entries = vec![
        ("app", s(workload.name)),
        ("app.kubernetes.io/name", s(workload.name)),
        ("app.kubernetes.io/part-of", s(workload.owner)),
        ("app.kubernetes.io/managed-by", s(managed_by)),
        ("environment", s(namespace.environment)),
        ("team", s(workload.owner)),
    ];
    assert(crate::json::pairs_model(entries@) =~= seq![
        ("app"@, js(workload.name@)),
        ("app.kubernetes.io/name"@, js(workload.name@)),
        ("app.kubernetes.io/part-of"@, js(workload.owner@)),
        ("app.kubernetes.io/managed-by"@, js(managed_by@)),
        ("environment"@, js(namespace.environment@)),
        ("team"@, js(workload.owner@)),
    ]);
    obj(entries)
}

fn selector(workload: WorkloadProfile) -> (r: JsonValue)
    ensures
        r@ == selector_json(workload),
{
    obj1("app", s(workload.name))
}

fn pod_spec(namespace: NamespaceProfile, workload: WorkloadProfile, risky: bool) -> (r: JsonValue)
    ensures
        r@ == pod_spec_json(namespace, workload, risky),
{
    broadcast use crate::json::group_json_view;

    let config_name = cat2(workload.name, "-config");
    let secret_name = cat2(workload.name, "-runtime");
    let mut volumes: Vec<JsonValue> = vec![
        obj2("name", s("config"), "configMap", obj1("name", st(config_name.clone()))),
        obj2("name", s("runtime-secret"), "secret", obj1("secretName", st(secret_name.clone()))),
    ];
    let ghost base = crate::json::items_view(volumes@);
    let ghost data_part: Seq<Json> = seq![];
    if workload.storage {
        let claim = cat2(workload.name, "-data");
        let v = obj2("name", s("data"), "persistentVolumeClaim", obj1("claimName", st(claim)));
        proof {
            data_part = seq![v@];
        }
        let ghost before = volumes@;
        volumes.push(v);
        assert(volumes@.drop_last() == before);
    }
    let ghost mid = crate::json::items_view(volumes@);
    let ghost risky_part: Seq<Json> = seq![];
    if risky {
        let v = obj2(
            "name",
            s("host-docker"),
            "hostPath",
            obj2("path", s("/var/run/docker.sock"), "type", s("Socket")),
        );
        proof {
            risky_part = seq![v@];
        }
        let ghost before = volumes@;
        volumes.push(v);
        assert(volumes@.drop_last() == before);
    }
    let image = cat5("registry.example.com/", namespace.environment, "/", workload.name, ":2026.05.16");
    let container = obj6(
        "name",
        s(workload.short),
        "image",
        st(image),
        "ports",
        arr1(obj1("containerPort", int_json(workload.port))),
        "envFrom",
        arr2(
            obj1("configMapRef", obj1("name", st(config_name))),
            obj1("secretRef", obj1("name", st(secret_name))),
        ),
        "securityContext",
        obj3(
            "privileged",
            JsonValue::Bool(risky),
            "allowPrivilegeEscalation",
            JsonValue::Bool(risky),
            "readOnlyRootFilesystem",
            JsonValue::Bool(!risky),
        ),
        "resources",
        obj2(
            "requests",
            obj2("cpu", s("250m"), "memory", s("256Mi")),
            "limits",
            obj2("cpu", s("1"), "memory", s("1Gi")),
        ),
    );
    let account = if risky {
        "default"
    } else {
        workload.name
    };
    let host_network = risky && str_eq(namespace.name, "legacy-admin");
    proof {
        assert(base =~= seq![
            Json::Object(seq![("name"@, js("config"@)), ("configMap"@, Json::Object(seq![("name"@, js(workload.name@ + "-config"@))]))]),
            Json::Object(seq![("name"@, js("runtime-secret"@)), ("secret"@, Json::Object(seq![("secretName"@, js(workload.name@ + "-runtime"@))]))]),
        ]);
        assert(mid =~= base + data_part);
        assert(crate::json::items_view(volumes@) =~= base + data_part + risky_part);
    }
    obj5(
        "serviceAccountName",
        s(account),
        "hostNetwork",
        JsonValue::Bool(host_network),
        "hostPID",
        JsonValue::Bool(risky),
        "containers",
        arr1(container),
        "volumes",
        arr(volumes),
    )
}

fn add_service_account(objects: &mut Vec<JsonValue>, namespace: NamespaceProfile, workload: WorkloadProfile, managed_by: &str)
    ensures
        crate::json::items_view(final(objects)@) == crate::json::items_view(old(objects)@).push(
            service_account_json(namespace, workload, managed_by@),
        ),
{
    push_obj(
        objects,
        obj3("apiVersion", s("v1"), "kind", s("ServiceAccount"), "metadata", metadata(namespace, workload, "sa", workload.name, managed_by)),
    );
}

fn add_config_map(objects: &mut Vec<JsonValue>, namespace: NamespaceProfile, workload: WorkloadProfile, managed_by: &str)
    ensures
        crate::json::items_view(final(objects)@) == crate::json::items_view(old(objects)@).push(
            config_map_json(namespace, workload, managed_by@),
        ),
{
    let name = cat2(workload.name, "-config");
    let level = if str_eq(namespace.environment, "prod") {
        "info"
    } else {
        "debug"
    };
    push_obj(
        objects,
        obj4(
            "apiVersion",
            s("v1"),
            "kind",
            s("ConfigMap"),
            "metadata",
            metadata(namespace, workload, "cm", name.as_str(), managed_by),
            "data",
            obj2("LOG_LEVEL", s(level), "FEATURE_FLAGS", s("risk-ui,billing-v2")),
        ),
    );
}

fn add_secret(objects: &mut Vec<JsonValue>, namespace: NamespaceProfile, workload: WorkloadProfile, managed_by: &str)
    ensures
        crate::json::items_view(final(objects)@) == crate::json::items_view(old(objects)@).push(
            secret_json(namespace, workload, managed_by@),
        ),
{
    let name = cat2(workload.name, "-runtime");
    let secret_type = if workload.sensitive_config {
        "Opaque"
    } else {
        "kubernetes.io/basic-auth"
    };
    push_obj(
        objects,
        obj5(
            "apiVersion",
            s("v1"),
            "kind",
            s("Secret"),
            "metadata",
            metadata(namespace, workload, "secret", name.as_str(), managed_by),
            "type",
            s(secret_type),
            "data",
            obj2("DATABASE_URL", s("cmVkYWN0ZWQ="), "API_TOKEN", s("cmVkYWN0ZWQ=")),
        ),
    );
}

fn add_storage(objects: &mut Vec<JsonValue>, namespace: NamespaceProfile, workload: WorkloadProfile, managed_by: &str)
    ensures
        crate::json::items_view(final(objects)@) == crate::json::items_view(old(objects)@) + storage_json(
            namespace,
            workload,
            managed_by@,
        ),
{
    let ghost start = crate::json::items_view(objects@);
    let pvc = cat2(workload.name, "-data");
    let pv = cat4("pv-", namespace.name, "-", workload.short);
    let prod = str_eq(namespace.environment, "prod");
    let class = if prod {
        "io2-retain"
    } else {
        "gp3-encrypted"
    };
    let size = if str_eq(workload.short, "ana") {
        "2Ti"
    } else {
        "200Gi"
    };
    push_obj(
        objects,
        obj5(
            "apiVersion",
            s("v1"),
            "kind",
            s("PersistentVolumeClaim"),
            "metadata",
            metadata(namespace, workload, "pvc", pvc.as_str(), managed_by),
            "spec",
            obj4(
                "storageClassName",
                s(class),
                "volumeName",
                st(pv.clone()),
                "accessModes",
                strs1("ReadWriteOnce"),
                "resources",
                obj1("requests", obj1("storage", s(size))),
            ),
            "status",
            obj1("phase", s("Bound")),
        ),
    );
    push_obj(
        objects,
        obj5(
            "apiVersion",
            s("v1"),
            "kind",
            s("PersistentVolume"),
            "metadata",
            obj3(
                "name",
                st(pv.clone()),
                "uid",
                st(uid("pv", pv.as_str())),
                "labels",
                obj4(
                    "environment",
                    s(namespace.environment),
                    "team",
                    s(workload.owner),
                    "app",
                    s(workload.name),
                    "app.kubernetes.io/managed-by",
                    s(managed_by),
                ),
            ),
            "spec",
            obj3(
                "storageClassName",
                s(class),
                "capacity",
                obj1("storage", s(size)),
                "accessModes",
                strs1("ReadWriteOnce"),
            ),
            "status",
            obj1("phase", s("Bound")),
        ),
    );
    assert(crate::json::items_view(objects@) =~= start + storage_json(namespace, workload, managed_by@));
}

fn add_role_and_binding(objects: &mut Vec<JsonValue>, namespace: NamespaceProfile, workload: WorkloadProfile, managed_by: &str)
    ensures
        crate::json::items_view(final(objects)@) == crate::json::items_view(old(objects)@) + role_and_binding_json(
            namespace,
            workload,
            managed_by@,
        ),
{
    let ghost start = crate::json::items_view(objects@);
    let broad = str_eq(namespace.name, "dev-apps") && str_eq(workload.short, "ord");
    let name = cat2(workload.name, "-runtime");
    let rules = if broad {
        let all = ["*"];
        assert(str_views(all@) =~= seq!["*"@]);
        arr1(rule(&all, &all, &all))
    } else {
        let groups = [""];
        let resources = ["configmaps", "secrets"];
        let verbs = ["get"];
        assert(str_views(groups@) =~= seq![""@]);
        assert(str_views(resources@) =~= seq!["configmaps"@, "secrets"@]);
        assert(str_views(verbs@) =~= seq!["get"@]);
        arr1(rule(&groups, &resources, &verbs))
    };
    push_obj(
        objects,
        obj4(
            "apiVersion",
            s("rbac.authorization.k8s.io/v1"),
            "kind",
            s("Role"),
            "metadata",
            metadata(namespace, workload, "role", name.as_str(), managed_by),
            "rules",
            rules,
        ),
    );
    push_obj(
        objects,
        obj5(
            "apiVersion",
            s("rbac.authorization.k8s.io/v1"),
            "kind",
            s("RoleBinding"),
            "metadata",
            metadata(namespace, workload, "rb", name.as_str(), managed_by),
            "roleRef",
            obj3("apiGroup", s("rbac.authorization.k8s.io"), "kind", s("Role"), "name", st(name.clone())),
            "subjects",
            arr1(service_account_subject(namespace.name, workload.name)),
        ),
    );
    assert(crate::json::items_view(objects@) =~= start + role_and_binding_json(namespace, workload, managed_by@));
}

fn add_deployment(
    objects: &mut Vec<JsonValue>,
    namespace: NamespaceProfile,
    workload: WorkloadProfile,
    replicas: usize,
    managed_by: &str,
    risky: bool,
)
    ensures
        crate::json::items_view(final(objects)@) == crate::json::items_view(old(objects)@).push(
            deployment_json(namespace, workload, replicas, managed_by@, risky),
        ),
{
    push_obj(
        objects,
        obj4(
            "apiVersion",
            s("apps/v1"),
            "kind",
            s("Deployment"),
            "metadata",
            metadata(namespace, workload, "deploy", workload.name, managed_by),
            "spec",
            obj3(
                "replicas",
                int_json(replicas as i64),
                "selector",
                obj1("matchLabels", selector(workload)),
                "template",
                obj2(
                    "metadata",
                    obj1("labels", pod_labels(namespace, workload, managed_by)),
                    "spec",
                    pod_spec(namespace, workload, risky),
                ),
            ),
        ),
    );
}

fn owner_reference(kind: &str, name: String, owner_uid: String) -> (r: JsonValue)
    ensures
        r@ == owner_reference_json(kind@, name@, owner_uid@),
{
    let ghost (nv, uv) = (name@, owner_uid@);
    let entries = vec![
        ("apiVersion", s("apps/v1")),
        ("kind", s(kind)),
        ("name", st(name)),
        ("uid", st(owner_uid)),
        ("controller", JsonValue::Bool(true)),
    ];
    assert(crate::json::pairs_model(entries@) =~= seq![
        ("apiVersion"@, js("apps/v1"@)),
        ("kind"@, js(kind@)),
        ("name"@, js(nv)),
        ("uid"@, js(uv)),
        ("controller"@, Json::Bool(true)),
    ]);
    obj(entries)
}

fn add_replicaset(objects: &mut Vec<JsonValue>, namespace: NamespaceProfile, workload: WorkloadProfile, replicas: usize)
    ensures
        crate::json::items_view(final(objects)@) == crate::json::items_view(old(objects)@).push(
            replicaset_json(namespace, workload, replicas),
        ),
{
    let rs_key = cat3(namespace.name, "-", workload.short);
    let deploy_key = cat3(namespace.name, "-", workload.name);
    push_obj(
        objects,
        obj4(
            "apiVersion",
            s("apps/v1"),
            "kind",
            s("ReplicaSet"),
            "metadata",
            obj5(
                "namespace",
                s(namespace.name),
                "name",
                st(replicaset_name(workload)),
                "uid",
                st(uid("rs", rs_key.as_str())),
                "labels",
                pod_labels(namespace, workload, "Helm"),
                "ownerReferences",
                arr1(owner_reference("Deployment", workload.name.to_owned(), uid("deploy", deploy_key.as_str()))),
            ),
            "spec",
            obj2("replicas", int_json(replicas as i64), "selector", obj1("matchLabels", selector(workload))),
        ),
    );
}

fn add_pod(
    objects: &mut Vec<JsonValue>,
    namespace: NamespaceProfile,
    workload: WorkloadProfile,
    index: usize,
    managed_by: &str,
    risky: bool,
)
    requires
        index < 4,
    ensures
        crate::json::items_view(final(objects)@) == crate::json::items_view(old(objects)@).push(
            pod_json(namespace, workload, index as int, managed_by@, risky),
        ),
{
    let mut name = cat4(workload.name, "-", workload.short, "-");
    push_two_digits(&mut name, (index + 1) as u64);
    let pod_key = cat3(namespace.name, "-", name.as_str());
    let rs_key = cat3(namespace.name, "-", workload.short);
    let labels = obj7(
        "app",
        s(workload.name),
        "app.kubernetes.io/name",
        s(workload.name),
        "app.kubernetes.io/part-of",
        s(workload.owner),
        "app.kubernetes.io/managed-by",
        s(managed_by),
        "environment",
        s(namespace.environment),
        "team",
        s(workload.owner),
        "pod-template-hash",
        s("demo"),
    );
    push_obj(
        objects,
        obj5(
            "apiVersion",
            s("v1"),
            "kind",
            s("Pod"),
            "metadata",
            obj5(
                "namespace",
                s(namespace.name),
                "name",
                st(name),
                "uid",
                st(uid("pod", pod_key.as_str())),
                "labels",
                labels,
                "ownerReferences",
                arr1(owner_reference("ReplicaSet", replicaset_name(workload), uid("rs", rs_key.as_str()))),
            ),
            "spec",
            pod_spec(namespace, workload, risky),
            "status",
            obj1("phase", s("Running")),
        ),
    );
}

fn add_service(objects: &mut Vec<JsonValue>, namespace: NamespaceProfile, workload: WorkloadProfile, managed_by: &str)
    ensures
        crate::json::items_view(final(objects)@) == crate::json::items_view(old(objects)@).push(
            service_json(namespace, workload, managed_by@),
        ),
{
    let public_lb = workload.public && str_eq(namespace.environment, "prod");
    let port = if public_lb {
        443
    } else {
        workload.port
    };
    let load_balancer = if public_lb {
        let host = cat4(workload.short, "-", namespace.name, ".elb.amazonaws.com");
        obj1("ingress", arr1(obj1("hostname", st(host))))
    } else {
        empty_obj()
    };
    let service_type = if public_lb {
        "LoadBalancer"
    } else {
        "ClusterIP"
    };
    let traffic_policy = if public_lb {
        "Local"
    } else {
        "Cluster"
    };
    push_obj(
        objects,
        obj5(
            "apiVersion",
            s("v1"),
            "kind",
            s("Service"),
            "metadata",
            metadata(namespace, workload, "svc", workload.name, managed_by),
            "spec",
            obj4(
                "type",
                s(service_type),
                "selector",
                selector(workload),
                "ports",
                arr1(obj3("name", s("http"), "port", int_json(port), "targetPort", int_json(workload.port))),
                "externalTrafficPolicy",
                s(traffic_policy),
            ),
            "status",
            obj1("loadBalancer", load_balancer),
        ),
    );
}

fn add_ingress(objects: &mut Vec<JsonValue>, namespace: NamespaceProfile, workload: WorkloadProfile, managed_by: &str)
    ensures
        crate::json::items_view(final(objects)@) == crate::json::items_view(old(objects)@).push(
            ingress_json(namespace, workload, managed_by@),
        ),
{
    let class = if str_eq(namespace.environment, "prod") {
        "internet"
    } else {
        "internal"
    };
    let host = cat4(workload.short, "-", namespace.environment, ".demo.example.com");
    let port = if workload.public {
        443
    } else {
        workload.port
    };
    let backend = obj1("service", obj2("name", s(workload.name), "port", obj1("number", int_json(port))));
    let path = obj3("path", s("/"), "pathType", s("Prefix"), "backend", backend);
    push_obj(
        objects,
        obj4(
            "apiVersion",
            s("networking.k8s.io/v1"),
            "kind",
            s("Ingress"),
            "metadata",
            metadata(namespace, workload, "ing", workload.name, managed_by),
            "spec",
            obj2(
                "ingressClassName",
                s(class),
                "rules",
                arr1(obj2("host", st(host), "http", obj1("paths", arr1(path)))),
            ),
        ),
    );
}

#[verifier::rlimit(40)]
#[verifier::spinoff_prover]
fn add_workload_stack(objects: &mut Vec<JsonValue>, namespace: NamespaceProfile, workload: WorkloadProfile)
    ensures
        crate::json::items_view(final(objects)@) == crate::json::items_view(old(objects)@) + workload_stack_json(
            namespace,
            workload,
        ),
{
    let ghost start = crate::json::items_view(objects@);
    let replicas = replicas_for(namespace, workload);
    let dev_orders = str_eq(namespace.name, "dev-apps") && str_eq(workload.short, "ord");
    let managed_by = if dev_orders {
        "kubectl"
    } else {
        "Helm"
    };
    let risky = str_eq(namespace.name, "legacy-admin") || dev_orders;
    let ghost m = managed_by@;
    assert(m == stack_manager(namespace, workload));
    assert(risky == stack_risky(namespace, workload));
    add_service_account(objects, namespace, workload, managed_by);
    add_config_map(objects, namespace, workload, managed_by);
    add_secret(objects, namespace, workload, managed_by);
    let ghost a = start + seq![
        service_account_json(namespace, workload, m),
        config_map_json(namespace, workload, m),
        secret_json(namespace, workload, m),
    ];
    assert(crate::json::items_view(objects@) =~= a);
    if workload.storage {
        add_storage(objects, namespace, workload, managed_by);
    }
    let ghost b = a + (if workload.storage { storage_json(namespace, workload, m) } else { seq![] });
    assert(crate::json::items_view(objects@) =~= b);
    add_role_and_binding(objects, namespace, workload, managed_by);
    add_deployment(objects, namespace, workload, replicas, managed_by, risky);
    add_replicaset(objects, namespace, workload, replicas);
    let ghost c = b + role_and_binding_json(namespace, workload, m) + seq![
        deployment_json(namespace, workload, replicas, m, risky),
        replicaset_json(namespace, workload, replicas),
    ];
    assert(crate::json::items_view(objects@) =~= c);
    let mut index: usize = 0;
    while index < replicas
        invariant
            index <= replicas,
            replicas <= 4,
            managed_by@ == m,
            crate::json::items_view(objects@) == c + pods_json(namespace, workload, index as nat, m, risky),
        decreases replicas - index,
    {
        add_pod(objects, namespace, workload, index, managed_by, risky);
        assert(crate::json::items_view(objects@) =~= c + pods_json(namespace, workload, (index + 1) as nat, m, risky));
        index += 1;
    }
    add_service(objects, namespace, workload, managed_by);
    let ghost d = c + pods_json(namespace, workload, replicas as nat, m, risky) + seq![service_json(namespace, workload, m)];
    assert(crate::json::items_view(objects@) =~= d);
    if workload.public || str_eq(namespace.environment, "stage") {
        add_ingress(objects, namespace, workload, managed_by);
    }
    assert(crate::json::items_view(objects@) =~= start + workload_stack_json(namespace, workload));
}

fn add_legacy_stack(objects: &mut Vec<JsonValue>)
    ensures
        crate::json::items_view(final(objects)@) == crate::json::items_view(old(objects)@) + legacy_stack_json(),
{
    let ghost start = crate::json::items_view(objects@);
    let namespace = ns("legacy-admin", "prod", "corporate-it", false);
    let workload = wl("breakglass-console", "legacy", "corporate-it", 8443, true, true, true);
    add_workload_stack(objects, namespace, workload);
    push_obj(
        objects,
        obj5(
            "apiVersion",
            s("v1"),
            "kind",
            s("Secret"),
            "metadata",
            obj3(
                "namespace",
                s(namespace.name),
                "name",
                s("default-token-legacy"),
                "uid",
                s("secret-default-token-legacy"),
            ),
            "type",
            s("kubernetes.io/service-account-token"),
            "data",
            obj1("token", s("cmVkYWN0ZWQ=")),
        ),
    );
    assert(crate::json::items_view(objects@) =~= start + legacy_stack_json());
}

/// The objects of the demo cluster, as `kubectl get -o json` lists them.
fn demo_objects() -> (r: Vec<JsonValue>)
    ensures
        crate::json::items_view(r@) == demo_objects_spec(),
{
    let mut objects: Vec<JsonValue> = Vec::new();
    assert(crate::json::items_view(objects@) =~= seq![]);
    add_namespaces(&mut objects);
    add_nodes(&mut objects);
    add_storage_classes(&mut objects);
    add_cluster_rbac(&mut objects);
    let ghost head = namespaces_json() + pools_nodes(node_pools()) + storage_classes_json() + cluster_rbac_json();
    assert(crate::json::items_view(objects@) =~= head);
    let all = namespaces();
    let mut i: usize = 0;
    while i < all.len()
        invariant
            i <= all@.len(),
            all@ == namespaces_spec(),
            crate::json::items_view(objects@) == head + namespaces_basics_json(all@.take(i as int)),
        decreases all@.len() - i,
    {
        add_namespace_basics(&mut objects, all[i]);
        if all[i].network_policy {
            add_network_policy(&mut objects, all[i]);
        }
        proof {
            assert(all@.take(i + 1).drop_last() =~= all@.take(i as int));
            assert(all@.take(i + 1).last() == all@[i as int]);
            assert(crate::json::items_view(objects@) =~= head + namespaces_basics_json(all@.take(i + 1)));
        }
        i += 1;
    }
    assert(all@.take(i as int) =~= all@);
    let ghost mid = head + namespaces_basics_json(namespaces_spec());
    let mut k: usize = 0;
    while k < all.len()
        invariant
            k <= all@.len(),
            all@ == namespaces_spec(),
            crate::json::items_view(objects@) == mid + namespaces_stacks_json(all@.take(k as int)),
        decreases all@.len() - k,
    {
        let namespace = all[k];
        let ghost before = crate::json::items_view(objects@);
        if !str_eq(namespace.name, "security") && !str_eq(namespace.name, "observability") {
            let stack = workloads_for_namespace(&namespace);
            let mut w: usize = 0;
            while w < stack.len()
                invariant
                    w <= stack@.len(),
                    stack@ == namespace_workloads_spec(namespace.name@),
                    crate::json::items_view(objects@) == before + stacks_json(namespace, stack@.take(w as int)),
                decreases stack@.len() - w,
            {
                add_workload_stack(&mut objects, namespace, stack[w]);
                proof {
                    assert(stack@.take(w + 1).drop_last() =~= stack@.take(w as int));
                    assert(stack@.take(w + 1).last() == stack@[w as int]);
                    assert(crate::json::items_view(objects@) =~= before + stacks_json(namespace, stack@.take(w + 1)));
                }
                w += 1;
            }
            assert(stack@.take(w as int) =~= stack@);
        }
        proof {
            assert(all@.take(k + 1).drop_last() =~= all@.take(k as int));
            assert(all@.take(k + 1).last() == all@[k as int]);
            assert(crate::json::items_view(objects@) =~= mid + namespaces_stacks_json(all@.take(k + 1)));
        }
        k += 1;
    }
    assert(all@.take(k as int) =~= all@);
    add_workload_stack(
        &mut objects,
        ns("observability", "shared", "sre", true),
        wl("otel-collector", "otel", "sre", 4317, false, false, false),
    );
    add_service_account(
        &mut objects,
        ns("security", "shared", "security", true),
        wl("incident-response", "ir", "security", 9443, false, false, true),
        "Terraform",
    );
    add_legacy_stack(&mut objects);
    assert(crate::json::items_view(objects@) =~= demo_objects_spec());
    objects
}

/// The errors the demo cluster scan met, as service, region, operation and
/// message.
pub open spec fn demo_errors_spec() -> Seq<(Seq<char>, Seq<char>, Seq<char>, Seq<char>)> {
    seq![
        ("kubernetes"@, "dev-apps"@, "get events"@, "demo RBAC denies event listing in one development namespace"@),
        ("kubernetes"@, "cluster"@, "get customresourcedefinitions"@,
            "demo scanner skipped CRDs that are outside normalized coverage"@),
    ]
}

/// The errors the demo scan met.
pub fn demo_errors() -> (r: Vec<ScanError>)
    ensures
        r@.map_values(|e: ScanError| crate::model::error_view(e)) == demo_errors_spec(),
{
    let r = vec![
        ScanError {
            service: "kubernetes".to_owned(),
            region: "dev-apps".to_owned(),
            operation: "get events".to_owned(),
            message: "demo RBAC denies event listing in one development namespace".to_owned(),
        },
        ScanError {
            service: "kubernetes".to_owned(),
            region: "cluster".to_owned(),
            operation: "get customresourcedefinitions".to_owned(),
            message: "demo scanner skipped CRDs that are outside normalized coverage".to_owned(),
        },
    ];
    assert(r@.map_values(|e: ScanError| crate::model::error_view(e)) =~= demo_errors_spec());
    r
}

/// The inventory and findings of the demo cluster: its objects scanned
/// with raw objects kept, at the demo's fixed time.
pub fn k8s_demo_output() -> (out: K8sScanOutput)
    ensures
        scan_output_of(out, CLUSTER_ID@, DEMO_COLLECTED_AT@, true, demo_objects_spec(), out.inventory.errors@),
        out.inventory.errors@.map_values(|e: ScanError| crate::model::error_view(e)) == demo_errors_spec(),
{
    let errors = demo_errors();
    build_scan_output(CLUSTER_ID, DEMO_COLLECTED_AT, true, demo_objects(), errors)
}

} // verus!
