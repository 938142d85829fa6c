//! Kubernetes objects as an inventory: normalizing `kubectl get -o json`
//! objects into resources, deriving their relationships, and checking them
//! against posture rules.
use vstd::prelude::*;
use vstd::string::*;

use crate::json::{
    clone_json, entries_view, json_get, json_object, json_pointer, json_record, json_str, lookup,
    pairs_model, Json, JsonValue,
};
use crate::aws_scan::{has_relationship, new_relationship};
use crate::model::{
    provider_resource_uid, provider_uid_spec, relationship_uid, relationship_uid_spec, Evidence,
    Relationship,
};
use crate::order::{
    keyed_map, lemma_insert_sorted, lemma_keyed_map, lemma_keyed_map_insert, lemma_lt_irreflexive,
    locate, seq_lt, Keyed,
};
use crate::order::{insertion_point, keys_sorted, sorted_set_of, stable_sort_by};
use crate::tags::{pairs_get, pairs_insert, pairs_insert_if_absent, pairs_map};
use crate::text::{
    char_is_uppercase, char_lowercase, char_to_lowercase, is_uppercase, push_char, replace_chars,
    replace_chars_spec, split_once, split_once_spec, str_eq,
};

verus! {

/// The region of cluster-scoped objects.
pub const CLUSTER_REGION: &'static str = "cluster";

/// What to scan: the kubeconfig context and file, the namespace (or
/// `all`), the kubectl program, and whether to keep raw objects.
#[derive(Clone, Debug)]
pub struct K8sScanOptions {
    pub context: Option<String>,
    pub kubeconfig: Option<String>,
    pub namespace: String,
    pub kubectl: String,
    pub include_raw: bool,
}

/// A posture finding about one Kubernetes object.
#[derive(Clone, Debug)]
pub struct K8sFinding {
    pub id: String,
    pub finding_type: String,
    pub severity: String,
    pub resource_uid: String,
    pub reason: String,
    pub recommended_action: String,
    pub blast_radius: Vec<String>,
    pub evidence: Vec<JsonValue>,
    pub attributes: JsonValue,
}

/// The characters a cluster id may not hold.
pub open spec fn cluster_id_unsafe_chars() -> Seq<char> {
    seq![':', '/', '\\', ' ', '\n', '\t']
}

/// A kubeconfig context name made safe for use inside uids.
pub fn sanitize_cluster_id(value: &str) -> (r: String)
    ensures
        r@ == replace_chars_spec(value@, cluster_id_unsafe_chars(), '_'),
{
    let targets = [':', '/', '\\', ' ', '\n', '\t'];
    let r = replace_chars(value, &targets, '_');
    assert(targets@ =~= cluster_id_unsafe_chars());
    r
}

/// `value` with each upper-case character after the first preceded by `-`,
/// and every upper-case character lower-cased.
pub open spec fn kebab_spec(value: Seq<char>) -> Seq<char>
    decreases value.len(),
{
    if value.len() == 0 {
        Seq::empty()
    } else {
        let prev = kebab_spec(value.drop_last());
        let c = value.last();
        if char_is_uppercase(c) {
            if value.len() > 1 {
                prev + seq!['-'] + char_lowercase(c)
            } else {
                prev + char_lowercase(c)
            }
        } else {
            prev.push(c)
        }
    }
}

/// A CamelCase kind in kebab-case.
pub fn kebab_case(value: &str) -> (r: String)
    ensures
        r@ == kebab_spec(value@),
{
    let mut output = String::new();
    let n = value.unicode_len();
    let mut i: usize = 0;
    while i < n
        invariant
            i <= n,
            n == value@.len(),
            output@ == kebab_spec(value@.take(i as int)),
        decreases n - i,
    {
        assert(value@.take(i + 1).drop_last() =~= value@.take(i as int));
        let c = value.get_char(i);
        assert(value@.take(i + 1).last() == c);
        if is_uppercase(c) {
            if i > 0 {
                push_char(&mut output, '-');
            }
            let lower = char_to_lowercase(c);
            output.append(lower.as_str());
        } else {
            push_char(&mut output, c);
        }
        i += 1;
    }
    assert(value@.take(n as int) =~= value@);
    output
}

/// The resource type of a kind: fixed names for the kinds whose kebab-case
/// form reads badly, kebab-case for the rest.
pub open spec fn resource_type_spec(kind: Seq<char>) -> Seq<char> {
    if kind == "ConfigMap"@ {
        "configmap"@
    } else if kind == "ClusterRole"@ {
        "cluster-role"@
    } else if kind == "ClusterRoleBinding"@ {
        "cluster-role-binding"@
    } else if kind == "NetworkPolicy"@ {
        "network-policy"@
    } else if kind == "PersistentVolume"@ {
        "persistent-volume"@
    } else if kind == "PersistentVolumeClaim"@ {
        "persistent-volume-claim"@
    } else if kind == "ReplicaSet"@ {
        "replica-set"@
    } else if kind == "RoleBinding"@ {
        "role-binding"@
    } else if kind == "ServiceAccount"@ {
        "service-account"@
    } else if kind == "StatefulSet"@ {
        "stateful-set"@
    } else if kind == "StorageClass"@ {
        "storage-class"@
    } else {
        kebab_spec(kind)
    }
}

/// The resource type of a kind.
pub fn resource_type_for(kind: &str) -> (r: String)
    ensures
        r@ == resource_type_spec(kind@),
{
    if str_eq(kind, "ConfigMap") {
        "configmap".to_owned()
    } else if str_eq(kind, "ClusterRole") {
        "cluster-role".to_owned()
    } else if str_eq(kind, "ClusterRoleBinding") {
        "cluster-role-binding".to_owned()
    } else if str_eq(kind, "NetworkPolicy") {
        "network-policy".to_owned()
    } else if str_eq(kind, "PersistentVolume") {
        "persistent-volume".to_owned()
    } else if str_eq(kind, "PersistentVolumeClaim") {
        "persistent-volume-claim".to_owned()
    } else if str_eq(kind, "ReplicaSet") {
        "replica-set".to_owned()
    } else if str_eq(kind, "RoleBinding") {
        "role-binding".to_owned()
    } else if str_eq(kind, "ServiceAccount") {
        "service-account".to_owned()
    } else if str_eq(kind, "StatefulSet") {
        "stateful-set".to_owned()
    } else if str_eq(kind, "StorageClass") {
        "storage-class".to_owned()
    } else {
        kebab_case(kind)
    }
}

/// The API group of an `apiVersion`: the text before its first `/`.
pub open spec fn api_group(api_version: Seq<char>) -> Seq<char> {
    match split_once_spec(api_version, '/') {
        Some(parts) => parts.0,
        None => api_version,
    }
}

/// The service of an object: named for its API group, `core` for `v1`.
pub open spec fn service_spec(api_version: Seq<char>, kind: Seq<char>) -> Seq<char> {
    let group = api_group(api_version);
    if group == "v1"@ {
        "core"@
    } else if group == "apps"@ {
        "apps"@
    } else if group == "networking.k8s.io"@ {
        "networking"@
    } else if group == "rbac.authorization.k8s.io"@ {
        "rbac"@
    } else if group == "storage.k8s.io"@ {
        "storage"@
    } else if kind == "StorageClass"@ {
        "storage"@
    } else {
        group
    }
}

/// The service of an object.
pub fn service_for(api_version: &str, kind: &str) -> (r: String)
    ensures
        r@ == service_spec(api_version@, kind@),
{
    let group = match split_once(api_version, '/') {
        Some(parts) => parts.0,
        None => api_version.to_owned(),
    };
    if str_eq(group.as_str(), "v1") {
        "core".to_owned()
    } else if str_eq(group.as_str(), "apps") {
        "apps".to_owned()
    } else if str_eq(group.as_str(), "networking.k8s.io") {
        "networking".to_owned()
    } else if str_eq(group.as_str(), "rbac.authorization.k8s.io") {
        "rbac".to_owned()
    } else if str_eq(group.as_str(), "storage.k8s.io") {
        "storage".to_owned()
    } else if str_eq(kind, "StorageClass") {
        "storage".to_owned()
    } else {
        group
    }
}

/// `namespace/name`, or the name of a cluster-scoped object.
pub open spec fn object_id_spec(namespace: Option<Seq<char>>, name: Seq<char>) -> Seq<char> {
    match namespace {
        Some(ns) => ns + seq!['/'] + name,
        None => name,
    }
}

/// The id of an object.
pub fn object_id(namespace: Option<&str>, name: &str) -> (r: String)
    ensures
        r@ == object_id_spec(
            match namespace {
                Some(n) => Some(n@),
                None => None,
            },
            name@,
        ),
{
    match namespace {
        Some(ns) => {
            let mut out = ns.to_owned();
            push_char(&mut out, '/');
            out.append(name);
            out
        },
        None => name.to_owned(),
    }
}

/// `Kind namespace/name`, or `Kind name` for a cluster-scoped object.
pub open spec fn object_label_spec(kind: Seq<char>, namespace: Option<Seq<char>>, name: Seq<char>) -> Seq<char> {
    kind + seq![' '] + object_id_spec(namespace, name)
}

/// The namespaces the system itself runs in.
pub open spec fn system_namespace_spec(namespace: Seq<char>) -> bool {
    namespace == "kube-system"@ || namespace == "kube-public"@ || namespace == "kube-node-lease"@
}

/// Whether a namespace belongs to the system.
pub fn system_namespace(namespace: &str) -> (r: bool)
    ensures
        r == system_namespace_spec(namespace@),
{
    str_eq(namespace, "kube-system") || str_eq(namespace, "kube-public") || str_eq(
        namespace,
        "kube-node-lease",
    )
}

/// The sort rank of a severity: critical first, then high, then the rest.
pub open spec fn severity_rank_spec(severity: Seq<char>) -> int {
    if severity == "critical"@ {
        0
    } else if severity == "high"@ {
        1
    } else {
        2
    }
}

/// The sort rank of a severity.
pub fn severity_sort_rank(severity: &str) -> (r: i32)
    ensures
        r == severity_rank_spec(severity@),
{
    if str_eq(severity, "critical") {
        0
    } else if str_eq(severity, "high") {
        1
    } else {
        2
    }
}

/// The members of an object whose values are strings, later members winning.
pub open spec fn string_members(entries: Seq<(Seq<char>, Json)>) -> Map<Seq<char>, Seq<char>>
    decreases entries.len(),
{
    if entries.len() == 0 {
        Map::empty()
    } else {
        let prev = string_members(entries.drop_last());
        match entries.last().1 {
            Json::Str(v) => prev.insert(entries.last().0, v),
            _ => prev,
        }
    }
}

/// The string members of an object value; none for anything else.
pub open spec fn string_map_spec(value: Option<Json>) -> Map<Seq<char>, Seq<char>> {
    match value {
        Some(Json::Object(entries)) => string_members(entries),
        _ => Map::empty(),
    }
}

/// The string members of an object value, sorted by key.
pub fn string_map(value: Option<&JsonValue>) -> (r: Vec<(String, String)>)
    ensures
        keys_sorted(r@),
        pairs_map(r@) == string_map_spec(
            match value {
                Some(v) => Some(v@),
                None => None,
            },
        ),
{
    broadcast use crate::json::group_json_view;

    let mut out: Vec<(String, String)> = Vec::new();
    assert(pairs_map(out@) =~= Map::<Seq<char>, Seq<char>>::empty());
    match value {
        Some(JsonValue::Object(entries)) => {
            let ghost ev = entries_view(entries@);
            let mut i: usize = 0;
            while i < entries.len()
                invariant
                    i <= entries@.len(),
                    ev == entries_view(entries@),
                    ev.len() == entries@.len(),
                    keys_sorted(out@),
                    pairs_map(out@) == string_members(ev.take(i as int)),
                decreases entries@.len() - i,
            {
                assert(ev.take(i + 1).drop_last() =~= ev.take(i as int));
                proof {
                    crate::json::lemma_entries_view_index(entries@, i as int);
                }
                assert(ev.take(i + 1).last() == ev[i as int]);
                match &entries[i].1 {
                    JsonValue::Str(v) => {
                        pairs_insert(&mut out, entries[i].0.clone(), v.clone());
                    },
                    _ => {},
                }
                i += 1;
            }
            assert(ev.take(i as int) =~= ev);
        },
        _ => {},
    }
    out
}

/// The text of member `field` when it is a string.
pub open spec fn str_field_spec(value: Json, field: Seq<char>) -> Option<Seq<char>> {
    json_str(json_get(value, field))
}

/// The text at a path when it is a string.
pub open spec fn pointer_str_spec(value: Json, path: Seq<Seq<char>>) -> Option<Seq<char>> {
    json_str(json_pointer(value, path))
}

/// A JSON string for a present text, JSON null for an absent one.
pub open spec fn opt_json(o: Option<Seq<char>>) -> Json {
    crate::json::opt_seq_text(o)
}


/// One Kubernetes object, with the fields the inventory reads from it.
#[derive(Clone, Debug)]
pub struct K8sObject {
    pub value: JsonValue,
    pub api_version: String,
    pub kind: String,
    pub namespace: Option<String>,
    pub name: String,
    pub kube_uid: Option<String>,
    pub cloud_uid: String,
    pub service: String,
    pub resource_type: String,
    /// Sorted by key.
    pub labels: Vec<(String, String)>,
    /// Sorted by key.
    pub annotations: Vec<(String, String)>,
}

/// The path of a member nested in `metadata`.
pub open spec fn metadata_path(field: Seq<char>) -> Seq<Seq<char>> {
    seq!["metadata"@, field]
}

/// The region of an object: its namespace, or `cluster`.
pub open spec fn object_region(namespace: Option<Seq<char>>) -> Seq<char> {
    match namespace {
        Some(ns) => ns,
        None => "cluster"@,
    }
}

/// The uid of a Kubernetes object in the inventory.
pub open spec fn k8s_uid_spec(
    cluster_id: Seq<char>,
    namespace: Option<Seq<char>>,
    service: Seq<char>,
    resource_type: Seq<char>,
    name: Seq<char>,
) -> Seq<char> {
    provider_uid_spec(
        "k8s"@,
        cluster_id,
        object_region(namespace),
        service,
        resource_type,
        object_id_spec(namespace, name),
    )
}

/// `o` is the object read from `value` of the cluster `cluster_id`.
pub open spec fn object_from(cluster_id: Seq<char>, value: Json, o: K8sObject) -> bool {
    let kind = str_field_spec(value, "kind"@);
    let name = pointer_str_spec(value, metadata_path("name"@));
    let api = match str_field_spec(value, "apiVersion"@) {
        Some(v) => v,
        None => "v1"@,
    };
    let namespace = pointer_str_spec(value, metadata_path("namespace"@));
    &&& kind is Some
    &&& name is Some
    &&& o.value@ == value
    &&& o.kind@ == kind->0
    &&& o.api_version@ == api
    &&& o.name@ == name->0
    &&& crate::aws_scan::opt_view(o.namespace) == namespace
    &&& o.service@ == service_spec(api, kind->0)
    &&& o.resource_type@ == resource_type_spec(kind->0)
    &&& o.cloud_uid@ == k8s_uid_spec(cluster_id, namespace, service_spec(api, kind->0), resource_type_spec(kind->0), name->0)
    &&& crate::aws_scan::opt_view(o.kube_uid) == pointer_str_spec(value, metadata_path("uid"@))
    &&& keys_sorted(o.labels@)
    &&& pairs_map(o.labels@) == string_map_spec(json_pointer(value, metadata_path("labels"@)))
    &&& keys_sorted(o.annotations@)
    &&& pairs_map(o.annotations@) == string_map_spec(json_pointer(value, metadata_path("annotations"@)))
}

/// Labels and annotations are sorted by key.
pub open spec fn object_wf(o: K8sObject) -> bool {
    keys_sorted(o.labels@) && keys_sorted(o.annotations@)
}

fn metadata_str(value: &JsonValue, field: &str) -> (r: Option<String>)
    ensures
        crate::aws_scan::opt_view(r) == pointer_str_spec(value@, metadata_path(field@)),
{
    let path = ["metadata", field];
    proof {
        reveal_strlit("metadata");
        assert(path@.map_values(|p: &str| p@) =~= metadata_path(field@));
    }
    match value.pointer_str(&path) {
        Some(s) => Some(s.clone()),
        None => None,
    }
}

fn metadata_value<'a>(value: &'a JsonValue, field: &str) -> (r: Option<&'a JsonValue>)
    ensures
        match r {
            Some(v) => json_pointer(value@, metadata_path(field@)) == Some(v@),
            None => json_pointer(value@, metadata_path(field@)) is None,
        },
{
    let path = ["metadata", field];
    proof {
        assert(path@.map_values(|p: &str| p@) =~= metadata_path(field@));
    }
    value.pointer(&path)
}

impl K8sObject {
    /// Reads an object of the cluster `cluster_id`; `None` when it has no
    /// kind or no name.
    pub fn from_value(cluster_id: &str, value: JsonValue) -> (r: Option<K8sObject>)
        ensures
            match r {
                Some(o) => object_from(cluster_id@, value@, o),
                None => str_field_spec(value@, "kind"@) is None || pointer_str_spec(
                    value@,
                    metadata_path("name"@),
                ) is None,
            },
    {
        let kind = match value.get_str("kind") {
            Some(k) => k.clone(),
            None => {
                return None;
            },
        };
        let api_version = match value.get_str("apiVersion") {
            Some(v) => v.clone(),
            None => "v1".to_owned(),
        };
        let name = match metadata_str(&value, "name") {
            Some(n) => n,
            None => {
                return None;
            },
        };
        let namespace = metadata_str(&value, "namespace");
        let region: &str = match &namespace {
            Some(ns) => ns.as_str(),
            None => CLUSTER_REGION,
        };
        proof {
            reveal_strlit("cluster");
        }
        let resource_type = resource_type_for(kind.as_str());
        let service = service_for(api_version.as_str(), kind.as_str());
        let id = match &namespace {
            Some(ns) => object_id(Some(ns.as_str()), name.as_str()),
            None => object_id(None, name.as_str()),
        };
        let cloud_uid = provider_resource_uid(
            "k8s",
            cluster_id,
            region,
            service.as_str(),
            resource_type.as_str(),
            id.as_str(),
        );
        let kube_uid = metadata_str(&value, "uid");
        let labels = string_map(metadata_value(&value, "labels"));
        let annotations = string_map(metadata_value(&value, "annotations"));
        Some(
            K8sObject {
                value,
                api_version,
                kind,
                namespace,
                name,
                kube_uid,
                cloud_uid,
                service,
                resource_type,
                labels,
                annotations,
            },
        )
    }
}

/// The first of `keys` that `labels` holds, with its value.
pub open spec fn first_label_spec(labels: Map<Seq<char>, Seq<char>>, keys: Seq<Seq<char>>) -> Option<Seq<char>>
    decreases keys.len(),
{
    if keys.len() == 0 {
        None
    } else if labels.contains_key(keys[0]) {
        Some(labels[keys[0]])
    } else {
        first_label_spec(labels, keys.drop_first())
    }
}

/// The value of the first of `keys` that `labels` holds.
pub fn first_label(labels: &Vec<(String, String)>, keys: &[&str]) -> (r: Option<String>)
    requires
        keys_sorted(labels@),
    ensures
        crate::aws_scan::opt_view(r) == first_label_spec(pairs_map(labels@), keys@.map_values(|k: &str| k@)),
{
    let ghost ks = keys@.map_values(|k: &str| k@);
    let mut i: usize = 0;
    assert(ks.skip(0) =~= ks);
    while i < keys.len()
        invariant
            i <= keys@.len(),
            ks == keys@.map_values(|k: &str| k@),
            keys_sorted(labels@),
            first_label_spec(pairs_map(labels@), ks) == first_label_spec(pairs_map(labels@), ks.skip(i as int)),
        decreases keys@.len() - i,
    {
        assert(ks.skip(i as int).drop_first() =~= ks.skip(i + 1));
        assert(ks.skip(i as int)[0] == keys@[i as int]@);
        match pairs_get(labels, keys[i]) {
            Some(v) => {
                return Some(v.clone());
            },
            None => {},
        }
        i += 1;
    }
    None
}

/// `m` with `key` set to `value` unless `key` is present.
pub open spec fn insert_if_absent(m: Map<Seq<char>, Seq<char>>, key: Seq<char>, value: Seq<char>) -> Map<Seq<char>, Seq<char>> {
    if m.contains_key(key) {
        m
    } else {
        m.insert(key, value)
    }
}

/// The label keys that name an environment, an application and an owner.
pub open spec fn environment_keys() -> Seq<Seq<char>> {
    seq!["environment"@, "env"@, "stage"@]
}

pub open spec fn application_keys() -> Seq<Seq<char>> {
    seq!["app.kubernetes.io/name"@, "app"@, "k8s-app"@, "application"@]
}

pub open spec fn owner_keys() -> Seq<Seq<char>> {
    seq!["owner"@, "team"@, "app.kubernetes.io/part-of"@]
}

/// The tags of an object: its labels, plus `Namespace`, `Environment`,
/// `Application` and `Owner` where the labels do not set them already.
pub open spec fn tags_spec(labels: Map<Seq<char>, Seq<char>>, namespace: Option<Seq<char>>) -> Map<Seq<char>, Seq<char>> {
    let t1 = match namespace {
        Some(ns) => insert_if_absent(
            insert_if_absent(labels, "Namespace"@, ns),
            "Environment"@,
            match first_label_spec(labels, environment_keys()) {
                Some(e) => e,
                None => ns,
            },
        ),
        None => labels,
    };
    let t2 = match first_label_spec(labels, application_keys()) {
        Some(a) => insert_if_absent(t1, "Application"@, a),
        None => t1,
    };
    match first_label_spec(labels, owner_keys()) {
        Some(o) => insert_if_absent(t2, "Owner"@, o),
        None => t2,
    }
}

/// The tags of an object.
pub fn tags_for(object: &K8sObject) -> (r: Vec<(String, String)>)
    requires
        object_wf(*object),
    ensures
        keys_sorted(r@),
        pairs_map(r@) == tags_spec(pairs_map(object.labels@), crate::aws_scan::opt_view(object.namespace)),
{
    let mut tags = crate::model::clone_pairs(&object.labels);
    let ghost labels = pairs_map(object.labels@);
    let env_keys = ["environment", "env", "stage"];
    let app_keys = ["app.kubernetes.io/name", "app", "k8s-app", "application"];
    let owner_key_list = ["owner", "team", "app.kubernetes.io/part-of"];
    assert(env_keys@.map_values(|k: &str| k@) =~= environment_keys());
    assert(app_keys@.map_values(|k: &str| k@) =~= application_keys());
    assert(owner_key_list@.map_values(|k: &str| k@) =~= owner_keys());
    match &object.namespace {
        Some(ns) => {
            pairs_insert_if_absent(&mut tags, "Namespace".to_owned(), ns.clone());
            let environment = match first_label(&object.labels, &env_keys) {
                Some(e) => e,
                None => ns.clone(),
            };
            pairs_insert_if_absent(&mut tags, "Environment".to_owned(), environment);
        },
        None => {},
    }
    match first_label(&object.labels, &app_keys) {
        Some(a) => {
            pairs_insert_if_absent(&mut tags, "Application".to_owned(), a);
        },
        None => {},
    }
    match first_label(&object.labels, &owner_key_list) {
        Some(o) => {
            pairs_insert_if_absent(&mut tags, "Owner".to_owned(), o);
        },
        None => {},
    }
    tags
}

/// The raw object kept in the inventory: none for secrets and config maps,
/// or when raw objects are not kept.
pub open spec fn raw_spec(kind: Seq<char>, value: Json, include_raw: bool) -> Option<Json> {
    if !include_raw || kind == "Secret"@ || kind == "ConfigMap"@ {
        None
    } else {
        Some(value)
    }
}

/// The raw object kept in the inventory.
pub fn raw_for(object: &K8sObject, include_raw: bool) -> (r: Option<JsonValue>)
    ensures
        match raw_spec(object.kind@, object.value@, include_raw) {
            Some(v) => r is Some && r->0@ == v,
            None => r is None,
        },
{
    if !include_raw || str_eq(object.kind.as_str(), "Secret") || str_eq(object.kind.as_str(), "ConfigMap") {
        None
    } else {
        Some(clone_json(&object.value))
    }
}

/// The path of evidence for an object: `Kind/namespace`, or the kind.
pub open spec fn evidence_path(kind: Seq<char>, namespace: Option<Seq<char>>) -> Seq<char> {
    match namespace {
        Some(ns) => kind + seq!['/'] + ns,
        None => kind,
    }
}

/// Evidence of a Kubernetes observation.
pub fn k8s_evidence(collected_at: &str, operation: &str, kind: &str, namespace: Option<&str>) -> (e: crate::model::Evidence)
    ensures
        e.service@ == "kubernetes"@,
        e.operation@ == operation@,
        e.path@ == evidence_path(
            kind@,
            match namespace {
                Some(n) => Some(n@),
                None => None,
            },
        ),
        e.collected_at@ == collected_at@,
{
    let path = match namespace {
        Some(ns) => {
            let mut p = kind.to_owned();
            push_char(&mut p, '/');
            p.append(ns);
            p
        },
        None => kind.to_owned(),
    };
    crate::model::Evidence {
        service: "kubernetes".to_owned(),
        operation: operation.to_owned(),
        path,
        collected_at: collected_at.to_owned(),
    }
}


/// The namespace part of an index key: the namespace, or empty.
pub open spec fn ns_key(namespace: Option<Seq<char>>) -> Seq<char> {
    match namespace {
        Some(ns) => ns,
        None => Seq::empty(),
    }
}

/// Whether `o` has this kind, namespace key and name.
pub open spec fn has_key(o: K8sObject, kind: Seq<char>, namespace: Seq<char>, name: Seq<char>) -> bool {
    o.kind@ == kind && ns_key(crate::aws_scan::opt_view(o.namespace)) == namespace && o.name@ == name
}

/// The uid of the last object with this kind, namespace key and name.
pub open spec fn lookup_key_spec(objects: Seq<K8sObject>, kind: Seq<char>, namespace: Seq<char>, name: Seq<char>) -> Option<Seq<char>>
    decreases objects.len(),
{
    if objects.len() == 0 {
        None
    } else if has_key(objects.last(), kind, namespace, name) {
        Some(objects.last().cloud_uid@)
    } else {
        lookup_key_spec(objects.drop_last(), kind, namespace, name)
    }
}

/// The uid of the last object whose Kubernetes uid is `kube_uid`.
pub open spec fn lookup_kube_uid_spec(objects: Seq<K8sObject>, kube_uid: Seq<char>) -> Option<Seq<char>>
    decreases objects.len(),
{
    if objects.len() == 0 {
        None
    } else if crate::aws_scan::opt_view(objects.last().kube_uid) == Some(kube_uid) {
        Some(objects.last().cloud_uid@)
    } else {
        lookup_kube_uid_spec(objects.drop_last(), kube_uid)
    }
}

/// Whether `uid` is the uid of one of `objects`.
pub open spec fn is_object_uid(objects: Seq<K8sObject>, uid: Seq<char>) -> bool {
    exists|i: int| 0 <= i < objects.len() && #[trigger] objects[i].cloud_uid@ == uid
}

/// A uid found by key names one of the objects.
#[verifier::spinoff_prover]
pub proof fn lemma_lookup_key_found(objects: Seq<K8sObject>, kind: Seq<char>, namespace: Seq<char>, name: Seq<char>)
    ensures
        lookup_key_spec(objects, kind, namespace, name) matches Some(u) ==> is_object_uid(objects, u),
    decreases objects.len(),
{
    if objects.len() > 0 {
        lemma_lookup_key_found(objects.drop_last(), kind, namespace, name);
        if has_key(objects.last(), kind, namespace, name) {
            assert(objects[objects.len() - 1].cloud_uid@ == objects.last().cloud_uid@);
        } else if let Some(u) = lookup_key_spec(objects.drop_last(), kind, namespace, name) {
            let i = choose|i: int| 0 <= i < objects.drop_last().len() && #[trigger] objects.drop_last()[i].cloud_uid@ == u;
            assert(objects[i] == objects.drop_last()[i]);
        }
    }
}

/// A uid found by Kubernetes uid names one of the objects.
#[verifier::spinoff_prover]
pub proof fn lemma_lookup_kube_uid_found(objects: Seq<K8sObject>, kube_uid: Seq<char>)
    ensures
        lookup_kube_uid_spec(objects, kube_uid) matches Some(u) ==> is_object_uid(objects, u),
    decreases objects.len(),
{
    if objects.len() > 0 {
        lemma_lookup_kube_uid_found(objects.drop_last(), kube_uid);
        if crate::aws_scan::opt_view(objects.last().kube_uid) == Some(kube_uid) {
            assert(objects[objects.len() - 1].cloud_uid@ == objects.last().cloud_uid@);
        } else if let Some(u) = lookup_kube_uid_spec(objects.drop_last(), kube_uid) {
            let i = choose|i: int| 0 <= i < objects.drop_last().len() && #[trigger] objects.drop_last()[i].cloud_uid@ == u;
            assert(objects[i] == objects.drop_last()[i]);
        }
    }
}

fn opt_str_eq(o: &Option<String>, s: &str) -> (r: bool)
    ensures
        r == (crate::aws_scan::opt_view(*o) == Some(s@)),
{
    match o {
        Some(v) => str_eq(v.as_str(), s),
        None => false,
    }
}

fn ns_key_eq(o: &Option<String>, namespace: &str) -> (r: bool)
    ensures
        r == (ns_key(crate::aws_scan::opt_view(*o)) == namespace@),
{
    match o {
        Some(v) => str_eq(v.as_str(), namespace),
        None => {
            assert(namespace@.len() == 0 ==> namespace@ =~= Seq::<char>::empty());
            namespace.unicode_len() == 0
        },
    }
}

/// The uid of the last object with this kind, namespace and name.
pub fn lookup_object(objects: &Vec<K8sObject>, kind: &str, namespace: Option<&str>, name: &str) -> (r: Option<String>)
    ensures
        crate::aws_scan::opt_view(r) == lookup_key_spec(
            objects@,
            kind@,
            match namespace {
                Some(n) => n@,
                None => Seq::empty(),
            },
            name@,
        ),
{
    let ns: &str = match namespace {
        Some(n) => n,
        None => "",
    };
    proof {
        reveal_strlit("");
    }
    let ghost ns_view = ns@;
    assert(ns_view == match namespace {
        Some(n) => n@,
        None => Seq::<char>::empty(),
    });
    let mut i: usize = objects.len();
    assert(objects@.take(i as int) =~= objects@);
    while i > 0
        invariant
            i <= objects@.len(),
            ns@ == ns_view,
            ns_view == match namespace {
                Some(n) => n@,
                None => Seq::<char>::empty(),
            },
            lookup_key_spec(objects@, kind@, ns_view, name@) == lookup_key_spec(objects@.take(i as int), kind@, ns_view, name@),
        decreases i,
    {
        let o = &objects[i - 1];
        assert(objects@.take(i as int).drop_last() =~= objects@.take(i - 1));
        assert(objects@.take(i as int).last() == objects@[i - 1]);
        if str_eq(o.kind.as_str(), kind) && ns_key_eq(&o.namespace, ns) && str_eq(o.name.as_str(), name) {
            return Some(o.cloud_uid.clone());
        }
        i -= 1;
    }
    assert(objects@.take(0) =~= Seq::<K8sObject>::empty());
    None
}

/// The uid of the last object whose Kubernetes uid is `kube_uid`.
pub fn lookup_kube_uid(objects: &Vec<K8sObject>, kube_uid: &str) -> (r: Option<String>)
    ensures
        crate::aws_scan::opt_view(r) == lookup_kube_uid_spec(objects@, kube_uid@),
{
    let mut i: usize = objects.len();
    assert(objects@.take(i as int) =~= objects@);
    while i > 0
        invariant
            i <= objects@.len(),
            lookup_kube_uid_spec(objects@, kube_uid@) == lookup_kube_uid_spec(objects@.take(i as int), kube_uid@),
        decreases i,
    {
        let o = &objects[i - 1];
        assert(objects@.take(i as int).drop_last() =~= objects@.take(i - 1));
        assert(objects@.take(i as int).last() == objects@[i - 1]);
        if opt_str_eq(&o.kube_uid, kube_uid) {
            return Some(o.cloud_uid.clone());
        }
        i -= 1;
    }
    assert(objects@.take(0) =~= Seq::<K8sObject>::empty());
    None
}

/// The owner an owner reference names: by its uid when that is known,
/// else by its kind and name in `namespace`.
pub open spec fn lookup_owner_spec(objects: Seq<K8sObject>, owner: Json, namespace: Option<Seq<char>>) -> Option<Seq<char>> {
    let by_uid = match str_field_spec(owner, "uid"@) {
        Some(u) => lookup_kube_uid_spec(objects, u),
        None => None,
    };
    if by_uid is Some {
        by_uid
    } else {
        match (str_field_spec(owner, "kind"@), str_field_spec(owner, "name"@)) {
            (Some(k), Some(n)) => lookup_key_spec(objects, k, ns_key(namespace), n),
            _ => None,
        }
    }
}

/// The uid of the object an owner reference names.
pub fn lookup_owner(objects: &Vec<K8sObject>, owner: &JsonValue, namespace: Option<&str>) -> (r: Option<String>)
    ensures
        crate::aws_scan::opt_view(r) == lookup_owner_spec(
            objects@,
            owner@,
            match namespace {
                Some(n) => Some(n@),
                None => None,
            },
        ),
        r matches Some(u) ==> is_object_uid(objects@, u@),
{
    let ghost ns_view: Option<Seq<char>> = match namespace {
        Some(n) => Some(n@),
        None => None,
    };
    match owner.get_str("uid") {
        Some(u) => {
            proof {
                lemma_lookup_kube_uid_found(objects@, u@);
            }
            match lookup_kube_uid(objects, u.as_str()) {
                Some(found) => {
                    return Some(found);
                },
                None => {},
            }
        },
        None => {},
    }
    let kind = match owner.get_str("kind") {
        Some(k) => k,
        None => {
            return None;
        },
    };
    let name = match owner.get_str("name") {
        Some(n) => n,
        None => {
            return None;
        },
    };
    proof {
        lemma_lookup_key_found(objects@, kind@, ns_key(ns_view), name@);
    }
    lookup_object(objects, kind.as_str(), namespace, name.as_str())
}


/// The elements of a JSON array value; none for anything else.
pub open spec fn arr(j: Option<Json>) -> Seq<Json> {
    match crate::json::json_array(j) {
        Some(a) => a,
        None => Seq::empty(),
    }
}

/// A reference from a pod to a secret, config map or claim it uses.
#[derive(Clone, Debug)]
pub struct VolumeReference {
    pub kind: String,
    pub name: String,
    pub relationship_type: String,
    pub source: String,
}

/// The texts of a reference: kind, name, relationship type and source.
pub open spec fn ref_view(r: VolumeReference) -> (Seq<char>, Seq<char>, Seq<char>, Seq<char>) {
    (r.kind@, r.name@, r.relationship_type@, r.source@)
}

/// The texts of each reference.
pub open spec fn refs_view(s: Seq<VolumeReference>) -> Seq<(Seq<char>, Seq<char>, Seq<char>, Seq<char>)> {
    s.map_values(|r: VolumeReference| ref_view(r))
}

/// A reference to the object `name`, when there is one.
pub open spec fn opt_ref(name: Option<Seq<char>>, kind: Seq<char>, relationship_type: Seq<char>, source: Seq<char>) -> Seq<(Seq<char>, Seq<char>, Seq<char>, Seq<char>)> {
    match name {
        Some(n) => seq![(kind, n, relationship_type, source)],
        None => Seq::empty(),
    }
}

/// Two keys as a path.
pub open spec fn path2(a: Seq<char>, b: Seq<char>) -> Seq<Seq<char>> {
    seq![a, b]
}

/// Three keys as a path.
pub open spec fn path3(a: Seq<char>, b: Seq<char>, c: Seq<char>) -> Seq<Seq<char>> {
    seq![a, b, c]
}

/// The references of one pod volume.
pub open spec fn volume_refs_one(vol: Json) -> Seq<(Seq<char>, Seq<char>, Seq<char>, Seq<char>)> {
    opt_ref(pointer_str_spec(vol, path2("secret"@, "secretName"@)), "Secret"@, "mounts"@, "volume"@)
        + opt_ref(pointer_str_spec(vol, path2("configMap"@, "name"@)), "ConfigMap"@, "mounts"@, "volume"@)
        + opt_ref(
            pointer_str_spec(vol, path2("persistentVolumeClaim"@, "claimName"@)),
            "PersistentVolumeClaim"@,
            "mounts_persistent_volume_claim"@,
            "volume"@,
        )
}

/// The references of pod volumes, in order.
pub open spec fn volumes_refs(vols: Seq<Json>) -> Seq<(Seq<char>, Seq<char>, Seq<char>, Seq<char>)>
    decreases vols.len(),
{
    if vols.len() == 0 {
        Seq::empty()
    } else {
        volumes_refs(vols.drop_last()) + volume_refs_one(vols.last())
    }
}

/// The references of `envFrom` entries, in order.
pub open spec fn env_from_refs(entries: Seq<Json>) -> Seq<(Seq<char>, Seq<char>, Seq<char>, Seq<char>)>
    decreases entries.len(),
{
    if entries.len() == 0 {
        Seq::empty()
    } else {
        let e = entries.last();
        env_from_refs(entries.drop_last())
            + opt_ref(pointer_str_spec(e, path2("secretRef"@, "name"@)), "Secret"@, "mounts"@, "envFrom"@)
            + opt_ref(pointer_str_spec(e, path2("configMapRef"@, "name"@)), "ConfigMap"@, "mounts"@, "envFrom"@)
    }
}

/// The references of `env` entries, in order.
pub open spec fn env_refs(entries: Seq<Json>) -> Seq<(Seq<char>, Seq<char>, Seq<char>, Seq<char>)>
    decreases entries.len(),
{
    if entries.len() == 0 {
        Seq::empty()
    } else {
        let e = entries.last();
        env_refs(entries.drop_last())
            + opt_ref(pointer_str_spec(e, path3("valueFrom"@, "secretKeyRef"@, "name"@)), "Secret"@, "mounts"@, "env"@)
            + opt_ref(pointer_str_spec(e, path3("valueFrom"@, "configMapKeyRef"@, "name"@)), "ConfigMap"@, "mounts"@, "env"@)
    }
}

/// The references of containers, in order: each container's `envFrom`, then its `env`.
pub open spec fn containers_refs(cs: Seq<Json>) -> Seq<(Seq<char>, Seq<char>, Seq<char>, Seq<char>)>
    decreases cs.len(),
{
    if cs.len() == 0 {
        Seq::empty()
    } else {
        let c = cs.last();
        containers_refs(cs.drop_last()) + env_from_refs(arr(json_get(c, "envFrom"@))) + env_refs(arr(json_get(c, "env"@)))
    }
}

/// The init, regular and ephemeral containers of a pod spec, in that order.
pub open spec fn all_containers_spec(spec: Json) -> Seq<Json> {
    arr(json_get(spec, "initContainers"@)) + arr(json_get(spec, "containers"@)) + arr(json_get(spec, "ephemeralContainers"@))
}

/// The references of a pod: those of its volumes, then those of its containers.
pub open spec fn pod_refs_spec(value: Json) -> Seq<(Seq<char>, Seq<char>, Seq<char>, Seq<char>)> {
    match json_get(value, "spec"@) {
        Some(spec) => volumes_refs(arr(json_get(spec, "volumes"@))) + containers_refs(all_containers_spec(spec)),
        None => Seq::empty(),
    }
}

/// The references of containers listed in parts are those of the parts in order.
#[verifier::spinoff_prover]
#[verifier::rlimit(40)]
pub proof fn lemma_containers_refs_concat(a: Seq<Json>, b: Seq<Json>)
    ensures
        containers_refs(a + b) == containers_refs(a) + containers_refs(b),
    decreases b.len(),
{
    if b.len() == 0 {
        assert(a + b =~= a);
        assert(containers_refs(a) + containers_refs(b) =~= containers_refs(a));
    } else {
        lemma_containers_refs_concat(a, b.drop_last());
        assert((a + b).drop_last() =~= a + b.drop_last());
        assert((a + b).last() == b.last());
        let c = b.last();
        let t = env_from_refs(arr(json_get(c, "envFrom"@))) + env_refs(arr(json_get(c, "env"@)));
        assert(containers_refs(a) + containers_refs(b) =~= containers_refs(a) + containers_refs(b.drop_last()) + t);
    }
}

fn ptr_str2<'a>(v: &'a JsonValue, a: &str, b: &str) -> (r: Option<&'a String>)
    ensures
        match r {
            Some(s) => pointer_str_spec(v@, path2(a@, b@)) == Some(s@),
            None => pointer_str_spec(v@, path2(a@, b@)) is None,
        },
{
    let path = [a, b];
    assert(path@.map_values(|p: &str| p@) =~= path2(a@, b@));
    v.pointer_str(&path)
}

fn ptr_str3<'a>(v: &'a JsonValue, a: &str, b: &str, c: &str) -> (r: Option<&'a String>)
    ensures
        match r {
            Some(s) => pointer_str_spec(v@, path3(a@, b@, c@)) == Some(s@),
            None => pointer_str_spec(v@, path3(a@, b@, c@)) is None,
        },
{
    let path = [a, b, c];
    assert(path@.map_values(|p: &str| p@) =~= path3(a@, b@, c@));
    v.pointer_str(&path)
}

fn push_ref(out: &mut Vec<VolumeReference>, name: Option<&String>, kind: &str, relationship_type: &str, source: &str)
    ensures
        refs_view(final(out)@) == refs_view(old(out)@) + opt_ref(
            match name {
                Some(n) => Some(n@),
                None => None,
            },
            kind@,
            relationship_type@,
            source@,
        ),
{
    match name {
        Some(n) => {
            let ghost before = out@;
            out.push(VolumeReference {
                kind: kind.to_owned(),
                name: n.clone(),
                relationship_type: relationship_type.to_owned(),
                source: source.to_owned(),
            });
            assert(refs_view(out@) =~= refs_view(before) + seq![(kind@, n@, relationship_type@, source@)]);
        },
        None => {
            assert(refs_view(out@) =~= refs_view(out@) + Seq::<(Seq<char>, Seq<char>, Seq<char>, Seq<char>)>::empty());
        },
    }
}

/// The items of an optional array value.
fn items_of<'a>(v: Option<&'a JsonValue>) -> (r: Option<&'a Vec<JsonValue>>)
    ensures
        match r {
            Some(items) => crate::json::items_view(items@) == arr(
                match v {
                    Some(x) => Some(x@),
                    None => None,
                },
            ),
            None => arr(
                match v {
                    Some(x) => Some(x@),
                    None => None,
                },
            ) == Seq::<Json>::empty(),
        },
{
    match v {
        Some(x) => x.as_array(),
        None => None,
    }
}

fn push_container_refs(out: &mut Vec<VolumeReference>, containers: Option<&Vec<JsonValue>>)
    ensures
        refs_view(final(out)@) == refs_view(old(out)@) + containers_refs(
            match containers {
                Some(c) => crate::json::items_view(c@),
                None => Seq::empty(),
            },
        ),
{
    broadcast use crate::json::group_json_view;

    let cs = match containers {
        Some(c) => c,
        None => {
            assert(refs_view(out@) =~= refs_view(out@) + containers_refs(Seq::<Json>::empty()));
            return;
        },
    };
    let ghost start = refs_view(out@);
    let ghost cv = crate::json::items_view(cs@);
    let mut i: usize = 0;
    assert(cv.take(0) =~= Seq::<Json>::empty());
    assert(refs_view(out@) =~= start + containers_refs(cv.take(0)));
    while i < cs.len()
        invariant
            i <= cs@.len(),
            cv == crate::json::items_view(cs@),
            cv.len() == cs@.len(),
            refs_view(out@) == start + containers_refs(cv.take(i as int)),
        decreases cs@.len() - i,
    {
        let c = &cs[i];
        proof {
            crate::json::lemma_items_view_index(cs@, i as int);
        }
        assert(cv.take(i + 1).drop_last() =~= cv.take(i as int));
        assert(cv.take(i + 1).last() == c@);
        let ghost mid = refs_view(out@);
        match items_of(c.get("envFrom")) {
            Some(entries) => {
                let ghost ev = crate::json::items_view(entries@);
                proof {
                    crate::json::lemma_items_view_len(entries@);
                }
                let mut j: usize = 0;
                assert(ev.take(0) =~= Seq::<Json>::empty());
                assert(refs_view(out@) =~= mid + env_from_refs(ev.take(0)));
                while j < entries.len()
                    invariant
                        j <= entries@.len(),
                        ev == crate::json::items_view(entries@),
                        ev.len() == entries@.len(),
                        refs_view(out@) == mid + env_from_refs(ev.take(j as int)),
                    decreases entries@.len() - j,
                {
                    let e = &entries[j];
                    proof {
                        crate::json::lemma_items_view_index(entries@, j as int);
                    }
                    assert(ev.take(j + 1).drop_last() =~= ev.take(j as int));
                    assert(ev.take(j + 1).last() == e@);
                    push_ref(out, ptr_str2(e, "secretRef", "name"), "Secret", "mounts", "envFrom");
                    push_ref(out, ptr_str2(e, "configMapRef", "name"), "ConfigMap", "mounts", "envFrom");
                    proof {
                        reveal_strlit("envFrom");
                    }
                    assert(refs_view(out@) =~= mid + env_from_refs(ev.take(j + 1)));
                    j += 1;
                }
                assert(ev.take(j as int) =~= ev);
            },
            None => {
                assert(refs_view(out@) =~= mid + env_from_refs(Seq::<Json>::empty()));
            },
        }
        let ghost mid2 = refs_view(out@);
        match items_of(c.get("env")) {
            Some(entries) => {
                let ghost ev = crate::json::items_view(entries@);
                proof {
                    crate::json::lemma_items_view_len(entries@);
                }
                let mut j: usize = 0;
                assert(ev.take(0) =~= Seq::<Json>::empty());
                assert(refs_view(out@) =~= mid2 + env_refs(ev.take(0)));
                while j < entries.len()
                    invariant
                        j <= entries@.len(),
                        ev == crate::json::items_view(entries@),
                        ev.len() == entries@.len(),
                        refs_view(out@) == mid2 + env_refs(ev.take(j as int)),
                    decreases entries@.len() - j,
                {
                    let e = &entries[j];
                    proof {
                        crate::json::lemma_items_view_index(entries@, j as int);
                    }
                    assert(ev.take(j + 1).drop_last() =~= ev.take(j as int));
                    assert(ev.take(j + 1).last() == e@);
                    push_ref(out, ptr_str3(e, "valueFrom", "secretKeyRef", "name"), "Secret", "mounts", "env");
                    push_ref(out, ptr_str3(e, "valueFrom", "configMapKeyRef", "name"), "ConfigMap", "mounts", "env");
                    assert(refs_view(out@) =~= mid2 + env_refs(ev.take(j + 1)));
                    j += 1;
                }
                assert(ev.take(j as int) =~= ev);
            },
            None => {
                assert(refs_view(out@) =~= mid2 + env_refs(Seq::<Json>::empty()));
            },
        }
        assert(refs_view(out@) =~= start + containers_refs(cv.take(i + 1)));
        i += 1;
    }
    assert(cv.take(i as int) =~= cv);
}

/// The secrets, config maps and claims a pod refers to, in order.
pub fn pod_volume_references(pod: &K8sObject) -> (r: Vec<VolumeReference>)
    ensures
        refs_view(r@) == pod_refs_spec(pod.value@),
{
    broadcast use crate::json::group_json_view;

    let mut out: Vec<VolumeReference> = Vec::new();
    assert(refs_view(out@) =~= Seq::<(Seq<char>, Seq<char>, Seq<char>, Seq<char>)>::empty());
    let spec = match pod.value.get("spec") {
        Some(s) => s,
        None => {
            return out;
        },
    };
    match items_of(spec.get("volumes")) {
        Some(vols) => {
            let ghost vv = crate::json::items_view(vols@);
            let mut i: usize = 0;
            assert(vv.take(0) =~= Seq::<Json>::empty());
            while i < vols.len()
                invariant
                    i <= vols@.len(),
                    vv == crate::json::items_view(vols@),
                    vv.len() == vols@.len(),
                    refs_view(out@) == volumes_refs(vv.take(i as int)),
                decreases vols@.len() - i,
            {
                let v = &vols[i];
                proof {
                    crate::json::lemma_items_view_index(vols@, i as int);
                }
                assert(vv.take(i + 1).drop_last() =~= vv.take(i as int));
                assert(vv.take(i + 1).last() == v@);
                push_ref(&mut out, ptr_str2(v, "secret", "secretName"), "Secret", "mounts", "volume");
                push_ref(&mut out, ptr_str2(v, "configMap", "name"), "ConfigMap", "mounts", "volume");
                push_ref(
                    &mut out,
                    ptr_str2(v, "persistentVolumeClaim", "claimName"),
                    "PersistentVolumeClaim",
                    "mounts_persistent_volume_claim",
                    "volume",
                );
                assert(refs_view(out@) =~= volumes_refs(vv.take(i + 1)));
                i += 1;
            }
            assert(vv.take(i as int) =~= vv);
        },
        None => {
            assert(refs_view(out@) =~= volumes_refs(Seq::<Json>::empty()));
        },
    }
    let ghost after_volumes = refs_view(out@);
    let init = items_of(spec.get("initContainers"));
    let main = items_of(spec.get("containers"));
    let ephemeral = items_of(spec.get("ephemeralContainers"));
    push_container_refs(&mut out, init);
    push_container_refs(&mut out, main);
    push_container_refs(&mut out, ephemeral);
    proof {
        let a = arr(json_get(spec@, "initContainers"@));
        let b = arr(json_get(spec@, "containers"@));
        let c = arr(json_get(spec@, "ephemeralContainers"@));
        lemma_containers_refs_concat(a, b);
        lemma_containers_refs_concat(a + b, c);
        assert(refs_view(out@) =~= pod_refs_spec(pod.value@));
    }
    out
}


/// Whether every member of a label selector is a string that the labels
/// hold under the same key.
pub open spec fn selector_matches_spec(selector: Seq<(Seq<char>, Json)>, labels: Map<Seq<char>, Seq<char>>) -> bool {
    forall|i: int|
        0 <= i < selector.len() ==> match #[trigger] selector[i].1 {
            Json::Str(v) => labels.contains_key(selector[i].0) && labels[selector[i].0] == v,
            _ => false,
        }
}

/// Whether the labels satisfy a label selector.
pub fn selector_matches(selector: &Vec<(String, JsonValue)>, labels: &Vec<(String, String)>) -> (r: bool)
    requires
        keys_sorted(labels@),
    ensures
        r == selector_matches_spec(entries_view(selector@), pairs_map(labels@)),
{
    broadcast use crate::json::group_json_view;

    let ghost sv = entries_view(selector@);
    let mut i: usize = 0;
    while i < selector.len()
        invariant
            i <= selector@.len(),
            sv == entries_view(selector@),
            sv.len() == selector@.len(),
            keys_sorted(labels@),
            forall|j: int|
                0 <= j < i ==> match #[trigger] sv[j].1 {
                    Json::Str(v) => pairs_map(labels@).contains_key(sv[j].0) && pairs_map(labels@)[sv[j].0] == v,
                    _ => false,
                },
        decreases selector@.len() - i,
    {
        proof {
            crate::json::lemma_entries_view_index(selector@, i as int);
        }
        let ok = match &selector[i].1 {
            JsonValue::Str(expected) => match pairs_get(labels, selector[i].0.as_str()) {
                Some(actual) => str_eq(actual.as_str(), expected.as_str()),
                None => false,
            },
            _ => false,
        };
        assert(ok == match sv[i as int].1 {
            Json::Str(v) => pairs_map(labels@).contains_key(sv[i as int].0) && pairs_map(labels@)[sv[i as int].0] == v,
            _ => false,
        });
        if !ok {
            return false;
        }
        i += 1;
    }
    true
}

/// The service names an ingress's default backend and path backends name, in order.
pub open spec fn ingress_names(value: Json) -> Seq<Seq<char>> {
    (match pointer_str_spec(value, seq!["spec"@, "defaultBackend"@, "service"@, "name"@]) {
        Some(n) => seq![n],
        None => Seq::empty(),
    }) + rules_names(arr(json_pointer(value, path2("spec"@, "rules"@))))
}

/// The backend service names of ingress rules, in order.
pub open spec fn rules_names(rules: Seq<Json>) -> Seq<Seq<char>>
    decreases rules.len(),
{
    if rules.len() == 0 {
        Seq::empty()
    } else {
        rules_names(rules.drop_last()) + paths_names(arr(json_pointer(rules.last(), path2("http"@, "paths"@))))
    }
}

/// The backend service names of ingress paths, in order.
pub open spec fn paths_names(paths: Seq<Json>) -> Seq<Seq<char>>
    decreases paths.len(),
{
    if paths.len() == 0 {
        Seq::empty()
    } else {
        paths_names(paths.drop_last()) + (match pointer_str_spec(paths.last(), path3("backend"@, "service"@, "name"@)) {
            Some(n) => seq![n],
            None => Seq::empty(),
        })
    }
}

fn ptr2<'a>(v: &'a JsonValue, a: &str, b: &str) -> (r: Option<&'a JsonValue>)
    ensures
        match r {
            Some(x) => json_pointer(v@, path2(a@, b@)) == Some(x@),
            None => json_pointer(v@, path2(a@, b@)) is None,
        },
{
    let path = [a, b];
    assert(path@.map_values(|p: &str| p@) =~= path2(a@, b@));
    v.pointer(&path)
}

fn push_opt_name(out: &mut Vec<String>, name: Option<&String>)
    ensures
        crate::order::texts(final(out)@) == crate::order::texts(old(out)@) + match name {
            Some(n) => seq![n@],
            None => Seq::<Seq<char>>::empty(),
        },
{
    match name {
        Some(n) => {
            let ghost before = out@;
            out.push(n.clone());
            assert(crate::order::texts(out@) =~= crate::order::texts(before) + seq![n@]);
        },
        None => {
            assert(crate::order::texts(out@) =~= crate::order::texts(out@) + Seq::<Seq<char>>::empty());
        },
    }
}

/// The distinct service names an ingress routes to, sorted.
pub fn ingress_backend_services(value: &JsonValue) -> (r: Vec<String>)
    ensures
        keys_sorted(r@),
        forall|x: Seq<char>| crate::order::seq_has(crate::order::texts(r@), x) <==> crate::order::seq_has(ingress_names(value@), x),
{
    broadcast use crate::json::group_json_view;

    let mut names: Vec<String> = Vec::new();
    let path = ["spec", "defaultBackend", "service", "name"];
    assert(path@.map_values(|p: &str| p@) =~= seq!["spec"@, "defaultBackend"@, "service"@, "name"@]);
    assert(crate::order::texts(names@) =~= Seq::<Seq<char>>::empty());
    push_opt_name(&mut names, value.pointer_str(&path));
    let ghost head = crate::order::texts(names@);
    match items_of(ptr2(value, "spec", "rules")) {
        Some(rules) => {
            let ghost rv = crate::json::items_view(rules@);
            proof {
                crate::json::lemma_items_view_len(rules@);
            }
            let mut i: usize = 0;
            assert(rv.take(0) =~= Seq::<Json>::empty());
            assert(crate::order::texts(names@) =~= head + rules_names(rv.take(0)));
            while i < rules.len()
                invariant
                    i <= rules@.len(),
                    rv == crate::json::items_view(rules@),
                    rv.len() == rules@.len(),
                    crate::order::texts(names@) == head + rules_names(rv.take(i as int)),
                decreases rules@.len() - i,
            {
                let rule = &rules[i];
                proof {
                    crate::json::lemma_items_view_index(rules@, i as int);
                }
                assert(rv.take(i + 1).drop_last() =~= rv.take(i as int));
                assert(rv.take(i + 1).last() == rule@);
                let ghost mid = crate::order::texts(names@);
                match items_of(ptr2(rule, "http", "paths")) {
                    Some(paths) => {
                        let ghost pv = crate::json::items_view(paths@);
                        proof {
                            crate::json::lemma_items_view_len(paths@);
                        }
                        let mut j: usize = 0;
                        assert(pv.take(0) =~= Seq::<Json>::empty());
                        assert(crate::order::texts(names@) =~= mid + paths_names(pv.take(0)));
                        while j < paths.len()
                            invariant
                                j <= paths@.len(),
                                pv == crate::json::items_view(paths@),
                                pv.len() == paths@.len(),
                                crate::order::texts(names@) == mid + paths_names(pv.take(j as int)),
                            decreases paths@.len() - j,
                        {
                            let p = &paths[j];
                            proof {
                                crate::json::lemma_items_view_index(paths@, j as int);
                            }
                            assert(pv.take(j + 1).drop_last() =~= pv.take(j as int));
                            assert(pv.take(j + 1).last() == p@);
                            push_opt_name(&mut names, ptr_str3(p, "backend", "service", "name"));
                            assert(crate::order::texts(names@) =~= mid + paths_names(pv.take(j + 1)));
                            j += 1;
                        }
                        assert(pv.take(j as int) =~= pv);
                    },
                    None => {
                        assert(crate::order::texts(names@) =~= mid + paths_names(Seq::<Json>::empty()));
                    },
                }
                assert(crate::order::texts(names@) =~= head + rules_names(rv.take(i + 1)));
                i += 1;
            }
            assert(rv.take(i as int) =~= rv);
        },
        None => {
            assert(crate::order::texts(names@) =~= head + rules_names(Seq::<Json>::empty()));
        },
    }
    assert(crate::order::texts(names@) =~= ingress_names(value@));
    crate::order::sorted_distinct(names)
}


/// `after` is `before` with the relationship `from -type-> to` added when
/// its uid is new; a known uid keeps the relationship it has.
pub open spec fn k8s_relationship_added(
    before: Map<Seq<char>, Relationship>,
    after: Map<Seq<char>, Relationship>,
    from: Seq<char>,
    relationship_type: Seq<char>,
    to: Seq<char>,
    evidence: Evidence,
    attributes: JsonValue,
) -> bool {
    let uid = relationship_uid_spec(from, relationship_type, to);
    if before.contains_key(uid) {
        after == before
    } else {
        exists|r: Relationship|
            after == before.insert(uid, r) && new_relationship(r, uid, from, relationship_type, to, evidence, attributes)
    }
}

/// Every relationship joins two of the objects.
pub open spec fn endpoints_within(m: Map<Seq<char>, Relationship>, objects: Seq<K8sObject>) -> bool {
    forall|k: Seq<char>|
        #[trigger] m.contains_key(k) ==> is_object_uid(objects, m[k].from@) && is_object_uid(objects, m[k].to@)
}

/// Every relationship of `before` is in `after`, unchanged.
pub open spec fn preserved(before: Map<Seq<char>, Relationship>, after: Map<Seq<char>, Relationship>) -> bool {
    forall|k: Seq<char>| #[trigger] before.contains_key(k) ==> after.contains_key(k) && after[k] == before[k]
}

/// Every relationship of `after` that `before` lacks joins a source to a
/// target with a type that `allowed` admits.
pub open spec fn added_within(
    before: Map<Seq<char>, Relationship>,
    after: Map<Seq<char>, Relationship>,
    allowed: spec_fn(Seq<char>, Seq<char>, Seq<char>, Json) -> bool,
) -> bool {
    forall|k: Seq<char>|
        #[trigger] after.contains_key(k) && !before.contains_key(k) ==> allowed(
            after[k].from@,
            after[k].relationship_type@,
            after[k].to@,
            after[k].attributes@,
        )
}

/// Admits the one relationship `from -type-> to` with the given attributes.
pub open spec fn is_edge(from: Seq<char>, relationship_type: Seq<char>, to: Seq<char>, attributes: Json) -> spec_fn(
    Seq<char>,
    Seq<char>,
    Seq<char>,
    Json,
) -> bool {
    |f: Seq<char>, t: Seq<char>, x: Seq<char>, a: Json| f == from && t == relationship_type && x == to && a == attributes
}

/// Two steps that each add only what `r` admits add only what `r` admits.
pub proof fn lemma_within_chain(
    m0: Map<Seq<char>, Relationship>,
    m1: Map<Seq<char>, Relationship>,
    m2: Map<Seq<char>, Relationship>,
    p: spec_fn(Seq<char>, Seq<char>, Seq<char>, Json) -> bool,
    q: spec_fn(Seq<char>, Seq<char>, Seq<char>, Json) -> bool,
    r: spec_fn(Seq<char>, Seq<char>, Seq<char>, Json) -> bool,
)
    requires
        preserved(m0, m1),
        preserved(m1, m2),
        added_within(m0, m1, p),
        added_within(m1, m2, q),
        forall|f: Seq<char>, t: Seq<char>, x: Seq<char>, a: Json| #[trigger] p(f, t, x, a) ==> r(f, t, x, a),
        forall|f: Seq<char>, t: Seq<char>, x: Seq<char>, a: Json| #[trigger] q(f, t, x, a) ==> r(f, t, x, a),
    ensures
        preserved(m0, m2),
        added_within(m0, m2, r),
{
    assert forall|k: Seq<char>| #[trigger] m2.contains_key(k) && !m0.contains_key(k) implies r(
        m2[k].from@,
        m2[k].relationship_type@,
        m2[k].to@,
        m2[k].attributes@,
    ) by {
        if m1.contains_key(k) {
            assert(m2[k] == m1[k]);
            assert(p(m1[k].from@, m1[k].relationship_type@, m1[k].to@, m1[k].attributes@));
        } else {
            assert(q(m2[k].from@, m2[k].relationship_type@, m2[k].to@, m2[k].attributes@));
        }
    }
}

/// A step that adds only what `q` admits adds only what any `r` admitting as much admits.
pub proof fn lemma_within_weaken(
    m0: Map<Seq<char>, Relationship>,
    m1: Map<Seq<char>, Relationship>,
    q: spec_fn(Seq<char>, Seq<char>, Seq<char>, Json) -> bool,
    r: spec_fn(Seq<char>, Seq<char>, Seq<char>, Json) -> bool,
)
    requires
        added_within(m0, m1, q),
        forall|f: Seq<char>, t: Seq<char>, x: Seq<char>, a: Json| #[trigger] q(f, t, x, a) ==> r(f, t, x, a),
    ensures
        added_within(m0, m1, r),
{
    assert forall|k: Seq<char>| #[trigger] m1.contains_key(k) && !m0.contains_key(k) implies r(
        m1[k].from@,
        m1[k].relationship_type@,
        m1[k].to@,
        m1[k].attributes@,
    ) by {
        assert(q(m1[k].from@, m1[k].relationship_type@, m1[k].to@, m1[k].attributes@));
    }
}

/// Every relationship has one evidence entry: derived from the objects at
/// the scan's time.
pub open spec fn evidenced(m: Map<Seq<char>, Relationship>, collected_at: Seq<char>) -> bool {
    forall|k: Seq<char>|
        #[trigger] m.contains_key(k) ==> m[k].evidence@.len() == 1 && relationship_evidence_is(m[k].evidence@[0], collected_at)
}

/// The relationships are sorted by uid and join objects only.
pub open spec fn rels_ok(rels: Seq<Relationship>, objects: Seq<K8sObject>) -> bool {
    keys_sorted(rels) && endpoints_within(keyed_map(rels), objects)
}

/// Adds the relationship `from -type-> to` unless its uid is known.
pub fn add_k8s_relationship(
    rels: &mut Vec<Relationship>,
    from: &str,
    relationship_type: &str,
    to: &str,
    evidence: Evidence,
    attributes: JsonValue,
)
    requires
        keys_sorted(old(rels)@),
    ensures
        keys_sorted(final(rels)@),
        k8s_relationship_added(
            keyed_map(old(rels)@),
            keyed_map(final(rels)@),
            from@,
            relationship_type@,
            to@,
            evidence,
            attributes,
        ),
{
    let uid = relationship_uid(from, relationship_type, to);
    let ghost before = rels@;
    proof {
        lemma_keyed_map(before);
    }
    match locate(rels, uid.as_str()) {
        Ok(_) => {},
        Err(i) => {
            let relationship = Relationship {
                uid,
                from: from.to_owned(),
                to: to.to_owned(),
                relationship_type: relationship_type.to_owned(),
                attributes,
                evidence: vec![evidence],
            };
            proof {
                assert(relationship.evidence@ =~= seq![evidence]);
                lemma_insert_sorted(before, i as int, relationship);
                lemma_keyed_map_insert(before, i as int, relationship);
                if keyed_map(before).contains_key(relationship.uid@) {
                    let j = choose|j: int| 0 <= j < before.len() && before[j].key_spec() == relationship.uid@;
                    lemma_lt_irreflexive(relationship.uid@);
                    if j < i {
                        assert(seq_lt(before[j].key_spec(), relationship.uid@));
                    } else {
                        assert(seq_lt(relationship.uid@, before[j].key_spec()));
                    }
                }
            }
            rels.insert(i, relationship);
        },
    }
}

/// Adding a relationship between two objects keeps every relationship
/// between objects, and the relationship is then held.
pub proof fn lemma_added_within(
    before: Map<Seq<char>, Relationship>,
    after: Map<Seq<char>, Relationship>,
    objects: Seq<K8sObject>,
    from: Seq<char>,
    relationship_type: Seq<char>,
    to: Seq<char>,
    evidence: Evidence,
    attributes: JsonValue,
)
    requires
        k8s_relationship_added(before, after, from, relationship_type, to, evidence, attributes),
        endpoints_within(before, objects),
        is_object_uid(objects, from),
        is_object_uid(objects, to),
    ensures
        endpoints_within(after, objects),
        crate::aws_scan::grew(before, after),
        has_relationship(after, from, relationship_type, to),
        preserved(before, after),
        added_within(before, after, is_edge(from, relationship_type, to, attributes@)),
        forall|k: Seq<char>| #[trigger] after.contains_key(k) && !before.contains_key(k) ==> after[k].evidence@ == seq![evidence],
{
    let uid = relationship_uid_spec(from, relationship_type, to);
    if !before.contains_key(uid) {
        let r = choose|r: Relationship|
            after == before.insert(uid, r) && new_relationship(r, uid, from, relationship_type, to, evidence, attributes);
        assert forall|k: Seq<char>| #[trigger] after.contains_key(k) implies is_object_uid(objects, after[k].from@)
            && is_object_uid(objects, after[k].to@) by {
            if k != uid {
                assert(before.contains_key(k));
            }
        }
    }
}

/// The owner references of an object.
pub open spec fn owner_refs_spec(value: Json) -> Seq<Json> {
    arr(json_pointer(value, metadata_path("ownerReferences"@)))
}

/// Evidence of a relationship derived from the objects.
pub open spec fn relationship_evidence_is(e: Evidence, collected_at: Seq<char>) -> bool {
    crate::aws_scan::evidence_is(e, "kubernetes"@, "derived graph relationship"@, "Object"@, collected_at)
}

fn relationship_evidence(collected_at: &str) -> (e: Evidence)
    ensures
        relationship_evidence_is(e, collected_at@),
{
    k8s_evidence(collected_at, "derived graph relationship", "Object", None)
}

fn opt_as_str(o: &Option<String>) -> (r: Option<&str>)
    ensures
        match r {
            Some(s) => crate::aws_scan::opt_view(*o) == Some(s@),
            None => o is None,
        },
{
    match o {
        Some(s) => Some(s.as_str()),
        None => None,
    }
}

/// The requirements every relationship step keeps.
pub open spec fn step_pre(rels: Seq<Relationship>, objects: Seq<K8sObject>, subject: K8sObject) -> bool {
    &&& rels_ok(rels, objects)
    &&& is_object_uid(objects, subject.cloud_uid@)
}

/// A relationship step kept the relationships sorted and between objects,
/// and removed none.
pub open spec fn step_post(before: Seq<Relationship>, after: Seq<Relationship>, objects: Seq<K8sObject>) -> bool {
    &&& rels_ok(after, objects)
    &&& crate::aws_scan::grew(keyed_map(before), keyed_map(after))
    &&& preserved(keyed_map(before), keyed_map(after))
}

/// The relationship a claim gives: it binds the volume it names, with no attributes.
pub open spec fn pvc_edges(objects: Seq<K8sObject>, pvc: K8sObject) -> spec_fn(Seq<char>, Seq<char>, Seq<char>, Json) -> bool {
    |f: Seq<char>, t: Seq<char>, x: Seq<char>, a: Json|
        f == pvc.cloud_uid@ && t == "binds"@ && a == Json::Null && (pointer_str_spec(pvc.value@, path2("spec"@, "volumeName"@)) matches Some(v)
            && lookup_key_spec(objects, "PersistentVolume"@, Seq::empty(), v) == Some(x))
}

/// The relationships an Ingress gives: it routes to each Service of its
/// namespace that a backend names.
pub open spec fn ingress_edges(objects: Seq<K8sObject>, ingress: K8sObject) -> spec_fn(Seq<char>, Seq<char>, Seq<char>, Json) -> bool {
    |f: Seq<char>, t: Seq<char>, x: Seq<char>, a: Json|
        f == ingress.cloud_uid@ && t == "routes_to"@ && a == Json::Null && exists|name: Seq<char>|
            crate::order::seq_has(ingress_names(ingress.value@), name) && #[trigger] lookup_key_spec(
                objects,
                "Service"@,
                ns_key(ns_of(ingress)),
                name,
            ) == Some(x)
}

/// The service account a binding subject names, when it names one that exists.
pub open spec fn subject_account(objects: Seq<K8sObject>, binding: K8sObject, sub: Json) -> Option<Seq<char>> {
    if str_field_spec(sub, "kind"@) == Some("ServiceAccount"@) && str_field_spec(sub, "name"@) is Some {
        lookup_key_spec(objects, "ServiceAccount"@, subject_ns(binding, sub), str_field_spec(sub, "name"@)->0)
    } else {
        None
    }
}

/// The relationships a role binding gives: to the role it grants, and to
/// each service account it grants it to.
pub open spec fn binding_edges(objects: Seq<K8sObject>, binding: K8sObject) -> spec_fn(Seq<char>, Seq<char>, Seq<char>, Json) -> bool {
    |f: Seq<char>, t: Seq<char>, x: Seq<char>, a: Json|
        f == binding.cloud_uid@ && a == Json::Null && ((t == "grants_role"@ && (json_get(binding.value@, "roleRef"@) matches Some(rr)
            && lookup_key_spec(objects, str_or_empty(rr, "kind"@), role_ns(binding, str_or_empty(rr, "kind"@)), str_or_empty(rr, "name"@))
            == Some(x))) || (t == "grants_to"@ && exists|j: int|
            0 <= j < arr(json_get(binding.value@, "subjects"@)).len() && subject_account(
                objects,
                binding,
                #[trigger] arr(json_get(binding.value@, "subjects"@))[j],
            ) == Some(x)))
}

/// The relationships a Service gives: it selects each pod its selector matches.
pub open spec fn service_edges(objects: Seq<K8sObject>, service: K8sObject) -> spec_fn(Seq<char>, Seq<char>, Seq<char>, Json) -> bool {
    |f: Seq<char>, t: Seq<char>, x: Seq<char>, a: Json|
        f == service.cloud_uid@ && t == "selects"@ && (selector_spec(service) matches Some(sel) && a == Json::Object(
            seq![("selector"@, Json::Object(sel))],
        )) && exists|j: int| 0 <= j < objects.len() && selects(service, #[trigger] objects[j]) && x == objects[j].cloud_uid@
}

/// The relationships a pod gives: to its service account, from the
/// deployment its replica set is mapped to, and to what it references.
pub open spec fn pod_edges(
    objects: Seq<K8sObject>,
    pod: K8sObject,
    rsd: Map<Seq<char>, Seq<char>>,
) -> spec_fn(Seq<char>, Seq<char>, Seq<char>, Json) -> bool {
    |f: Seq<char>, t: Seq<char>, x: Seq<char>, a: Json|
        {
            let nsk = ns_key(ns_of(pod));
            let owners = owner_refs_spec(pod.value@);
            let refs = pod_refs_spec(pod.value@);
            ||| f == pod.cloud_uid@ && t == "uses_service_account"@ && a == Json::Null && lookup_key_spec(
                objects,
                "ServiceAccount"@,
                nsk,
                service_account_spec(json_get(pod.value@, "spec"@)),
            ) == Some(x)
            ||| t == "owns"@ && x == pod.cloud_uid@ && exists|j: int|
                0 <= j < owners.len() && str_field_spec(#[trigger] owners[j], "kind"@) == Some("ReplicaSet"@) && (
                lookup_owner_spec(objects, owners[j], ns_of(pod)) matches Some(rs) && rsd.contains_key(rs) && f == rsd[rs]
                    && a == Json::Object(seq![("through"@, Json::Str(rs))]))
            ||| f == pod.cloud_uid@ && exists|j: int|
                0 <= j < refs.len() && t == (#[trigger] refs[j]).2 && lookup_key_spec(objects, refs[j].0, nsk, refs[j].1)
                    == Some(x) && a == Json::Object(seq![("source"@, Json::Str(refs[j].3))])
        }
}

/// The namespace of an object, as an optional text.
pub open spec fn ns_of(o: K8sObject) -> Option<Seq<char>> {
    crate::aws_scan::opt_view(o.namespace)
}

/// Adds `from -type-> to` between two objects and records that it is held.
fn relate_objects(
    rels: &mut Vec<Relationship>,
    objects: &Vec<K8sObject>,
    from: &str,
    relationship_type: &str,
    to: &str,
    collected_at: &str,
    attributes: JsonValue,
)
    requires
        rels_ok(old(rels)@, objects@),
        evidenced(keyed_map(old(rels)@), collected_at@),
        is_object_uid(objects@, from@),
        is_object_uid(objects@, to@),
    ensures
        evidenced(keyed_map(final(rels)@), collected_at@),
        step_post(old(rels)@, final(rels)@, objects@),
        has_relationship(keyed_map(final(rels)@), from@, relationship_type@, to@),
        added_within(keyed_map(old(rels)@), keyed_map(final(rels)@), is_edge(from@, relationship_type@, to@, attributes@)),
{
    let ghost before = rels@;
    let evidence = relationship_evidence(collected_at);
    let ghost attrs = attributes;
    add_k8s_relationship(rels, from, relationship_type, to, evidence, attributes);
    proof {
        lemma_added_within(keyed_map(before), keyed_map(rels@), objects@, from@, relationship_type@, to@, evidence, attrs);
    }
}

/// Relates a PersistentVolumeClaim to the PersistentVolume it is bound to.
pub fn add_pvc_relationships(rels: &mut Vec<Relationship>, objects: &Vec<K8sObject>, pvc: &K8sObject, collected_at: &str)
    requires
        step_pre(old(rels)@, objects@, *pvc),
        evidenced(keyed_map(old(rels)@), collected_at@),
    ensures
        step_post(old(rels)@, final(rels)@, objects@),
        evidenced(keyed_map(final(rels)@), collected_at@),
        match pointer_str_spec(pvc.value@, path2("spec"@, "volumeName"@)) {
            Some(v) => match lookup_key_spec(objects@, "PersistentVolume"@, Seq::empty(), v) {
                Some(pv) => has_relationship(keyed_map(final(rels)@), pvc.cloud_uid@, "binds"@, pv),
                None => final(rels)@ == old(rels)@,
            },
            None => final(rels)@ == old(rels)@,
        },
        pvc_related(keyed_map(final(rels)@), objects@, *pvc),
        added_within(keyed_map(old(rels)@), keyed_map(final(rels)@), pvc_edges(objects@, *pvc)),
{
    let volume_name = match ptr_str2(&pvc.value, "spec", "volumeName") {
        Some(v) => v,
        None => {
            return;
        },
    };
    proof {
        lemma_lookup_key_found(objects@, "PersistentVolume"@, Seq::empty(), volume_name@);
    }
    match lookup_object(objects, "PersistentVolume", None, volume_name.as_str()) {
        Some(pv) => {
            let ghost before = rels@;
            relate_objects(rels, objects, pvc.cloud_uid.as_str(), "binds", pv.as_str(), collected_at, JsonValue::Null);
            proof {
                let p = pvc_edges(objects@, *pvc);
                assert(p(pvc.cloud_uid@, "binds"@, pv@, Json::Null));
                lemma_within_weaken(keyed_map(before), keyed_map(rels@), is_edge(pvc.cloud_uid@, "binds"@, pv@, Json::Null), p);
            }
        },
        None => {},
    }
}

/// Relates an Ingress to each Service it routes to.
pub fn add_ingress_relationships(rels: &mut Vec<Relationship>, objects: &Vec<K8sObject>, ingress: &K8sObject, collected_at: &str)
    requires
        step_pre(old(rels)@, objects@, *ingress),
        evidenced(keyed_map(old(rels)@), collected_at@),
    ensures
        step_post(old(rels)@, final(rels)@, objects@),
        evidenced(keyed_map(final(rels)@), collected_at@),
        ingress_related(keyed_map(final(rels)@), objects@, *ingress),
        added_within(keyed_map(old(rels)@), keyed_map(final(rels)@), ingress_edges(objects@, *ingress)),
{
    let names = ingress_backend_services(&ingress.value);
    let ghost start = rels@;
    let ns = opt_as_str(&ingress.namespace);
    let ghost nsk = ns_key(ns_of(*ingress));
    assert(nsk == match ns {
        Some(n) => n@,
        None => Seq::<char>::empty(),
    });
    let mut i: usize = 0;
    while i < names.len()
        invariant
            i <= names@.len(),
            step_pre(rels@, objects@, *ingress),
            evidenced(keyed_map(rels@), collected_at@),
            crate::aws_scan::grew(keyed_map(start), keyed_map(rels@)),
            nsk == match ns {
                Some(n) => n@,
                None => Seq::<char>::empty(),
            },
            nsk == ns_key(ns_of(*ingress)),
            forall|j: int|
                0 <= j < i ==> (#[trigger] lookup_key_spec(objects@, "Service"@, nsk, names@[j]@) matches Some(svc)
                    ==> has_relationship(keyed_map(rels@), ingress.cloud_uid@, "routes_to"@, svc)),
            forall|x: Seq<char>| crate::order::seq_has(crate::order::texts(names@), x) <==> crate::order::seq_has(ingress_names(ingress.value@), x),
            preserved(keyed_map(start), keyed_map(rels@)),
            added_within(keyed_map(start), keyed_map(rels@), ingress_edges(objects@, *ingress)),
        decreases names@.len() - i,
    {
        proof {
            lemma_lookup_key_found(objects@, "Service"@, nsk, names@[i as int]@);
        }
        let ghost before = rels@;
        match lookup_object(objects, "Service", ns, names[i].as_str()) {
            Some(svc) => {
                relate_objects(rels, objects, ingress.cloud_uid.as_str(), "routes_to", svc.as_str(), collected_at, JsonValue::Null);
                proof {
                    let p = ingress_edges(objects@, *ingress);
                    let name = names@[i as int]@;
                    assert(crate::order::texts(names@)[i as int] == name);
                    assert(crate::order::seq_has(crate::order::texts(names@), name));
                    assert(crate::order::seq_has(ingress_names(ingress.value@), name));
                    assert(lookup_key_spec(objects@, "Service"@, ns_key(ns_of(*ingress)), name) == Some(svc@));
                    assert(p(ingress.cloud_uid@, "routes_to"@, svc@, Json::Null));
                    lemma_within_chain(
                        keyed_map(start),
                        keyed_map(before),
                        keyed_map(rels@),
                        p,
                        is_edge(ingress.cloud_uid@, "routes_to"@, svc@, Json::Null),
                        p,
                    );
                }
            },
            None => {},
        }
        assert forall|j: int| 0 <= j < i + 1 implies (#[trigger] lookup_key_spec(objects@, "Service"@, nsk, names@[j]@) matches Some(svc)
            ==> has_relationship(keyed_map(rels@), ingress.cloud_uid@, "routes_to"@, svc)) by {
            if j < i {
                if let Some(svc) = lookup_key_spec(objects@, "Service"@, nsk, names@[j]@) {
                    assert(keyed_map(before).contains_key(relationship_uid_spec(ingress.cloud_uid@, "routes_to"@, svc)));
                }
            }
        }
        i += 1;
    }
    assert forall|name: Seq<char>|
        crate::order::seq_has(ingress_names(ingress.value@), name) implies (
        #[trigger] lookup_key_spec(objects@, "Service"@, ns_key(ns_of(*ingress)), name) matches Some(svc)
            ==> has_relationship(keyed_map(rels@), ingress.cloud_uid@, "routes_to"@, svc)) by {
        assert(crate::order::seq_has(crate::order::texts(names@), name));
        let j = choose|j: int| 0 <= j < crate::order::texts(names@).len() && crate::order::texts(names@)[j] == name;
        assert(names@[j]@ == name);
    }
}


/// The text of member `field` when it is a string, else empty.
pub open spec fn str_or_empty(value: Json, field: Seq<char>) -> Seq<char> {
    match str_field_spec(value, field) {
        Some(s) => s,
        None => Seq::empty(),
    }
}

/// The namespace key under which a binding's role is looked up: the
/// binding's namespace for a `Role`, none for a `ClusterRole`.
pub open spec fn role_ns(binding: K8sObject, role_kind: Seq<char>) -> Seq<char> {
    if role_kind == "Role"@ {
        ns_key(ns_of(binding))
    } else {
        Seq::empty()
    }
}

/// The namespace key of a binding subject: its own namespace, else the binding's.
pub open spec fn subject_ns(binding: K8sObject, subject: Json) -> Seq<char> {
    match str_field_spec(subject, "namespace"@) {
        Some(ns) => ns,
        None => ns_key(ns_of(binding)),
    }
}

/// The relationships a binding's subjects give are held.
pub open spec fn subjects_related(m: Map<Seq<char>, Relationship>, objects: Seq<K8sObject>, binding: K8sObject, subjects: Seq<Json>, upto: int) -> bool {
    forall|j: int|
        0 <= j < upto ==> {
            let sub = #[trigger] subjects[j];
            str_field_spec(sub, "kind"@) == Some("ServiceAccount"@) && str_field_spec(sub, "name"@) is Some ==> (
            lookup_key_spec(objects, "ServiceAccount"@, subject_ns(binding, sub), str_field_spec(sub, "name"@)->0) matches Some(u)
                ==> has_relationship(m, binding.cloud_uid@, "grants_to"@, u))
        }
}

fn str_field_or_empty(value: &JsonValue, field: &str) -> (r: String)
    ensures
        r@ == str_or_empty(value@, field@),
{
    match value.get_str(field) {
        Some(s) => s.clone(),
        None => String::new(),
    }
}

/// Relates a RoleBinding or ClusterRoleBinding to the role it grants and
/// to the service accounts it grants it to.
#[verifier::rlimit(40)]
#[verifier::spinoff_prover]
pub fn add_rbac_binding_relationships(rels: &mut Vec<Relationship>, objects: &Vec<K8sObject>, binding: &K8sObject, collected_at: &str)
    requires
        step_pre(old(rels)@, objects@, *binding),
        evidenced(keyed_map(old(rels)@), collected_at@),
    ensures
        step_post(old(rels)@, final(rels)@, objects@),
        evidenced(keyed_map(final(rels)@), collected_at@),
        binding_related(keyed_map(final(rels)@), objects@, *binding),
        added_within(keyed_map(old(rels)@), keyed_map(final(rels)@), binding_edges(objects@, *binding)),
{
    broadcast use crate::json::group_json_view;

    let ghost start = rels@;
    let binding_ns = opt_as_str(&binding.namespace);
    proof {
        reveal_strlit("Role");
    }
    match binding.value.get("roleRef") {
        Some(role_ref) => {
            let kind = str_field_or_empty(role_ref, "kind");
            let name = str_field_or_empty(role_ref, "name");
            let role_namespace = if str_eq(kind.as_str(), "Role") {
                binding_ns
            } else {
                None
            };
            proof {
                lemma_lookup_key_found(objects@, kind@, role_ns(*binding, kind@), name@);
            }
            match lookup_object(objects, kind.as_str(), role_namespace, name.as_str()) {
                Some(role) => {
                    relate_objects(rels, objects, binding.cloud_uid.as_str(), "grants_role", role.as_str(), collected_at, JsonValue::Null);
                    proof {
                        let p = binding_edges(objects@, *binding);
                        assert(p(binding.cloud_uid@, "grants_role"@, role@, Json::Null));
                        lemma_within_weaken(keyed_map(start), keyed_map(rels@), is_edge(binding.cloud_uid@, "grants_role"@, role@, Json::Null), p);
                    }
                },
                None => {},
            }
        },
        None => {},
    }
    let ghost after_role = rels@;
    match items_of(binding.value.get("subjects")) {
        Some(subjects) => {
            let ghost sv = crate::json::items_view(subjects@);
            proof {
                crate::json::lemma_items_view_len(subjects@);
            }
            let mut i: usize = 0;
            while i < subjects.len()
                invariant
                    i <= subjects@.len(),
                    sv == crate::json::items_view(subjects@),
                    sv.len() == subjects@.len(),
                    sv == arr(json_get(binding.value@, "subjects"@)),
                    step_pre(rels@, objects@, *binding),
                    evidenced(keyed_map(rels@), collected_at@),
                    crate::aws_scan::grew(keyed_map(after_role), keyed_map(rels@)),
                    binding_ns matches Some(n) ==> ns_of(*binding) == Some(n@),
                    binding_ns is None ==> binding.namespace is None,
                    subjects_related(keyed_map(rels@), objects@, *binding, sv, i as int),
                    preserved(keyed_map(start), keyed_map(rels@)),
                    added_within(keyed_map(start), keyed_map(rels@), binding_edges(objects@, *binding)),
                decreases subjects@.len() - i,
            {
                let subject = &subjects[i];
                proof {
                    crate::json::lemma_items_view_index(subjects@, i as int);
                }
                let ghost before = rels@;
                let is_service_account = match subject.get_str("kind") {
                    Some(k) => str_eq(k.as_str(), "ServiceAccount"),
                    None => false,
                };
                if is_service_account {
                    match subject.get_str("name") {
                        Some(name) => {
                            let namespace: Option<&str> = match subject.get_str("namespace") {
                                Some(ns) => Some(ns.as_str()),
                                None => binding_ns,
                            };
                            proof {
                                lemma_lookup_key_found(objects@, "ServiceAccount"@, subject_ns(*binding, sv[i as int]), name@);
                            }
                            match lookup_object(objects, "ServiceAccount", namespace, name.as_str()) {
                                Some(account) => {
                                    relate_objects(rels, objects, binding.cloud_uid.as_str(), "grants_to", account.as_str(), collected_at, JsonValue::Null);
                                    proof {
                                        let p = binding_edges(objects@, *binding);
                                        assert(subject_account(objects@, *binding, sv[i as int]) == Some(account@));
                                        assert(p(binding.cloud_uid@, "grants_to"@, account@, Json::Null));
                                        lemma_within_chain(
                                            keyed_map(start),
                                            keyed_map(before),
                                            keyed_map(rels@),
                                            p,
                                            is_edge(binding.cloud_uid@, "grants_to"@, account@, Json::Null),
                                            p,
                                        );
                                    }
                                },
                                None => {},
                            }
                        },
                        None => {},
                    }
                }
                assert forall|j: int| 0 <= j < i + 1 implies {
                    let sub = #[trigger] sv[j];
                    str_field_spec(sub, "kind"@) == Some("ServiceAccount"@) && str_field_spec(sub, "name"@) is Some ==> (
                    lookup_key_spec(objects@, "ServiceAccount"@, subject_ns(*binding, sub), str_field_spec(sub, "name"@)->0) matches Some(u)
                        ==> has_relationship(keyed_map(rels@), binding.cloud_uid@, "grants_to"@, u))
                } by {
                    if j < i {
                        let sub = sv[j];
                        if str_field_spec(sub, "kind"@) == Some("ServiceAccount"@) && str_field_spec(sub, "name"@) is Some {
                            if let Some(u) = lookup_key_spec(objects@, "ServiceAccount"@, subject_ns(*binding, sub), str_field_spec(sub, "name"@)->0) {
                                assert(keyed_map(before).contains_key(relationship_uid_spec(binding.cloud_uid@, "grants_to"@, u)));
                            }
                        }
                    }
                }
                i += 1;
            }
        },
        None => {},
    }
    proof {
        if let Some(rr) = json_get(binding.value@, "roleRef"@) {
            let k = str_or_empty(rr, "kind"@);
            if let Some(role) = lookup_key_spec(objects@, k, role_ns(*binding, k), str_or_empty(rr, "name"@)) {
                assert(keyed_map(after_role).contains_key(relationship_uid_spec(binding.cloud_uid@, "grants_role"@, role)));
            }
        }
    }
}


/// The service account a pod spec names, `default` when it names none.
pub open spec fn service_account_spec(spec_value: Option<Json>) -> Seq<char> {
    match spec_value {
        Some(spec) => match str_field_spec(spec, "serviceAccountName"@) {
            Some(s) => s,
            None => "default"@,
        },
        None => "default"@,
    }
}

/// Whether every uid in a map's values names one of the objects.
pub open spec fn values_are_objects(m: Map<Seq<char>, Seq<char>>, objects: Seq<K8sObject>) -> bool {
    forall|k: Seq<char>| #[trigger] m.contains_key(k) ==> is_object_uid(objects, m[k])
}

/// The pod relationships are held: to its service account, from the
/// deployment that owns its replica set, and to what it references.
pub open spec fn pod_related(
    m: Map<Seq<char>, Relationship>,
    objects: Seq<K8sObject>,
    pod: K8sObject,
    replica_set_to_deployment: Map<Seq<char>, Seq<char>>,
) -> bool {
    let nsk = ns_key(ns_of(pod));
    let refs = pod_refs_spec(pod.value@);
    let owners = owner_refs_spec(pod.value@);
    &&& lookup_key_spec(objects, "ServiceAccount"@, nsk, service_account_spec(json_get(pod.value@, "spec"@))) matches Some(sa)
        ==> has_relationship(m, pod.cloud_uid@, "uses_service_account"@, sa)
    &&& forall|j: int|
        0 <= j < owners.len() && str_field_spec(#[trigger] owners[j], "kind"@) == Some("ReplicaSet"@) ==> (
        lookup_owner_spec(objects, owners[j], ns_of(pod)) matches Some(rs) ==> (replica_set_to_deployment.contains_key(rs)
            ==> has_relationship(m, replica_set_to_deployment[rs], "owns"@, pod.cloud_uid@)))
    &&& forall|j: int|
        0 <= j < refs.len() ==> (lookup_key_spec(objects, (#[trigger] refs[j]).0, nsk, refs[j].1) matches Some(t)
            ==> has_relationship(m, pod.cloud_uid@, refs[j].2, t))
}

/// Relates a pod to its service account, to the deployment that owns it
/// through a replica set, and to the secrets, config maps and claims it uses.
#[verifier::rlimit(40)]
#[verifier::spinoff_prover]
pub fn add_pod_relationships(
    rels: &mut Vec<Relationship>,
    objects: &Vec<K8sObject>,
    pod: &K8sObject,
    replica_set_to_deployment: &Vec<(String, String)>,
    collected_at: &str,
)
    requires
        step_pre(old(rels)@, objects@, *pod),
        evidenced(keyed_map(old(rels)@), collected_at@),
        keys_sorted(replica_set_to_deployment@),
        values_are_objects(pairs_map(replica_set_to_deployment@), objects@),
    ensures
        step_post(old(rels)@, final(rels)@, objects@),
        evidenced(keyed_map(final(rels)@), collected_at@),
        pod_related(keyed_map(final(rels)@), objects@, *pod, pairs_map(replica_set_to_deployment@)),
        added_within(
            keyed_map(old(rels)@),
            keyed_map(final(rels)@),
            pod_edges(objects@, *pod, pairs_map(replica_set_to_deployment@)),
        ),
{
    broadcast use crate::json::group_json_view;

    let ghost start = rels@;
    let ns = opt_as_str(&pod.namespace);
    let ghost nsk = ns_key(ns_of(*pod));
    let ghost rsd = pairs_map(replica_set_to_deployment@);
    let account: String = match pod.value.get("spec") {
        Some(spec) => match spec.get_str("serviceAccountName") {
            Some(a) => a.clone(),
            None => "default".to_owned(),
        },
        None => "default".to_owned(),
    };
    proof {
        lemma_lookup_key_found(objects@, "ServiceAccount"@, nsk, account@);
    }
    let ghost p = pod_edges(objects@, *pod, rsd);
    match lookup_object(objects, "ServiceAccount", ns, account.as_str()) {
        Some(sa) => {
            relate_objects(rels, objects, pod.cloud_uid.as_str(), "uses_service_account", sa.as_str(), collected_at, JsonValue::Null);
            proof {
                assert(p(pod.cloud_uid@, "uses_service_account"@, sa@, Json::Null));
                lemma_within_weaken(keyed_map(start), keyed_map(rels@), is_edge(pod.cloud_uid@, "uses_service_account"@, sa@, Json::Null), p);
            }
        },
        None => {},
    }
    let ghost after_sa = rels@;
    let ghost owners = owner_refs_spec(pod.value@);
    match items_of(metadata_value(&pod.value, "ownerReferences")) {
        Some(list) => {
            proof {
                crate::json::lemma_items_view_len(list@);
            }
            let mut i: usize = 0;
            while i < list.len()
                invariant
                    i <= list@.len(),
                    owners == crate::json::items_view(list@),
                    owners.len() == list@.len(),
                    owners == owner_refs_spec(pod.value@),
                    rsd == pairs_map(replica_set_to_deployment@),
                    keys_sorted(replica_set_to_deployment@),
                    values_are_objects(rsd, objects@),
                    step_pre(rels@, objects@, *pod),
                    evidenced(keyed_map(rels@), collected_at@),
                    crate::aws_scan::grew(keyed_map(after_sa), keyed_map(rels@)),
                    ns matches Some(n) ==> ns_of(*pod) == Some(n@),
                    ns is None ==> pod.namespace is None,
                    forall|j: int|
                        0 <= j < i && str_field_spec(#[trigger] owners[j], "kind"@) == Some("ReplicaSet"@) ==> (
                        lookup_owner_spec(objects@, owners[j], ns_of(*pod)) matches Some(rs) ==> (rsd.contains_key(rs)
                            ==> has_relationship(keyed_map(rels@), rsd[rs], "owns"@, pod.cloud_uid@))),
                    p == pod_edges(objects@, *pod, rsd),
                    preserved(keyed_map(start), keyed_map(rels@)),
                    added_within(keyed_map(start), keyed_map(rels@), p),
                decreases list@.len() - i,
            {
                let owner = &list[i];
                proof {
                    crate::json::lemma_items_view_index(list@, i as int);
                }
                let ghost before = rels@;
                let is_replica_set = match owner.get_str("kind") {
                    Some(k) => str_eq(k.as_str(), "ReplicaSet"),
                    None => false,
                };
                if is_replica_set {
                    match lookup_owner(objects, owner, ns) {
                        Some(rs) => {
                            match pairs_get(replica_set_to_deployment, rs.as_str()) {
                                Some(deployment) => {
                                    let through = vec![("through", JsonValue::Str(rs.clone()))];
                                    assert(crate::json::pairs_model(through@) =~= seq![("through"@, Json::Str(rs@))]);
                                    let attributes = json_record(through);
                                    relate_objects(rels, objects, deployment.as_str(), "owns", pod.cloud_uid.as_str(), collected_at, attributes);
                                    proof {
                                        assert(str_field_spec(owners[i as int], "kind"@) == Some("ReplicaSet"@));
                                        assert(lookup_owner_spec(objects@, owners[i as int], ns_of(*pod)) == Some(rs@));
                                        assert(p(deployment@, "owns"@, pod.cloud_uid@, Json::Object(seq![("through"@, Json::Str(rs@))])));
                                        lemma_within_chain(
                                            keyed_map(start),
                                            keyed_map(before),
                                            keyed_map(rels@),
                                            p,
                                            is_edge(deployment@, "owns"@, pod.cloud_uid@, Json::Object(seq![("through"@, Json::Str(rs@))])),
                                            p,
                                        );
                                    }
                                },
                                None => {},
                            }
                        },
                        None => {},
                    }
                }
                assert forall|j: int|
                    0 <= j < i + 1 && str_field_spec(#[trigger] owners[j], "kind"@) == Some("ReplicaSet"@) implies (
                    lookup_owner_spec(objects@, owners[j], ns_of(*pod)) matches Some(rs) ==> (rsd.contains_key(rs)
                        ==> has_relationship(keyed_map(rels@), rsd[rs], "owns"@, pod.cloud_uid@))) by {
                    if j < i {
                        if let Some(rs) = lookup_owner_spec(objects@, owners[j], ns_of(*pod)) {
                            if rsd.contains_key(rs) {
                                assert(keyed_map(before).contains_key(relationship_uid_spec(rsd[rs], "owns"@, pod.cloud_uid@)));
                            }
                        }
                    }
                }
                i += 1;
            }
        },
        None => {},
    }
    let ghost after_owners = rels@;
    let refs = pod_volume_references(pod);
    let ghost rv = refs_view(refs@);
    let mut i: usize = 0;
    while i < refs.len()
        invariant
            i <= refs@.len(),
            rv == refs_view(refs@),
            rv == pod_refs_spec(pod.value@),
            nsk == ns_key(ns_of(*pod)),
            ns matches Some(n) ==> ns_of(*pod) == Some(n@),
            ns is None ==> pod.namespace is None,
            step_pre(rels@, objects@, *pod),
            evidenced(keyed_map(rels@), collected_at@),
            crate::aws_scan::grew(keyed_map(after_owners), keyed_map(rels@)),
            forall|j: int|
                0 <= j < i ==> (lookup_key_spec(objects@, (#[trigger] rv[j]).0, nsk, rv[j].1) matches Some(t)
                    ==> has_relationship(keyed_map(rels@), pod.cloud_uid@, rv[j].2, t)),
            p == pod_edges(objects@, *pod, rsd),
            preserved(keyed_map(start), keyed_map(rels@)),
            added_within(keyed_map(start), keyed_map(rels@), p),
        decreases refs@.len() - i,
    {
        let r = &refs[i];
        assert(rv[i as int] == ref_view(*r));
        let ghost before = rels@;
        proof {
            lemma_lookup_key_found(objects@, r.kind@, nsk, r.name@);
        }
        match lookup_object(objects, r.kind.as_str(), ns, r.name.as_str()) {
            Some(target) => {
                let source = vec![("source", JsonValue::Str(r.source.clone()))];
                assert(crate::json::pairs_model(source@) =~= seq![("source"@, Json::Str(r.source@))]);
                let attributes = json_record(source);
                relate_objects(rels, objects, pod.cloud_uid.as_str(), r.relationship_type.as_str(), target.as_str(), collected_at, attributes);
                proof {
                    assert(rv[i as int].2 == r.relationship_type@);
                    assert(rv[i as int].3 == r.source@);
                    assert(p(pod.cloud_uid@, r.relationship_type@, target@, Json::Object(seq![("source"@, Json::Str(r.source@))])));
                    lemma_within_chain(
                        keyed_map(start),
                        keyed_map(before),
                        keyed_map(rels@),
                        p,
                        is_edge(pod.cloud_uid@, r.relationship_type@, target@, Json::Object(seq![("source"@, Json::Str(r.source@))])),
                        p,
                    );
                }
            },
            None => {},
        }
        assert forall|j: int| 0 <= j < i + 1 implies (lookup_key_spec(objects@, (#[trigger] rv[j]).0, nsk, rv[j].1) matches Some(t)
            ==> has_relationship(keyed_map(rels@), pod.cloud_uid@, rv[j].2, t)) by {
            if j < i {
                if let Some(t) = lookup_key_spec(objects@, rv[j].0, nsk, rv[j].1) {
                    assert(keyed_map(before).contains_key(relationship_uid_spec(pod.cloud_uid@, rv[j].2, t)));
                }
            }
        }
        i += 1;
    }
    proof {
        if let Some(sa) = lookup_key_spec(objects@, "ServiceAccount"@, nsk, service_account_spec(json_get(pod.value@, "spec"@))) {
            assert(keyed_map(after_sa).contains_key(relationship_uid_spec(pod.cloud_uid@, "uses_service_account"@, sa)));
        }
        assert forall|j: int|
            0 <= j < owners.len() && str_field_spec(#[trigger] owners[j], "kind"@) == Some("ReplicaSet"@) implies (
            lookup_owner_spec(objects@, owners[j], ns_of(*pod)) matches Some(rs) ==> (rsd.contains_key(rs)
                ==> has_relationship(keyed_map(rels@), rsd[rs], "owns"@, pod.cloud_uid@))) by {
            if let Some(rs) = lookup_owner_spec(objects@, owners[j], ns_of(*pod)) {
                if rsd.contains_key(rs) {
                    if owners.len() > 0 {
                        assert(keyed_map(after_owners).contains_key(relationship_uid_spec(rsd[rs], "owns"@, pod.cloud_uid@)));
                    }
                }
            }
        }
    }
}


/// Every object keeps its labels and annotations sorted.
pub open spec fn all_wf(objects: Seq<K8sObject>) -> bool {
    forall|i: int| 0 <= i < objects.len() ==> object_wf(#[trigger] objects[i])
}

/// The members of a service's selector, when it has one.
pub open spec fn selector_spec(service: K8sObject) -> Option<Seq<(Seq<char>, Json)>> {
    crate::json::json_members(json_pointer(service.value@, path2("spec"@, "selector"@)))
}

/// The pod `p` is one that `service` selects.
pub open spec fn selects(service: K8sObject, p: K8sObject) -> bool {
    match selector_spec(service) {
        Some(sel) => sel.len() > 0 && p.kind@ == "Pod"@ && ns_of(p) == ns_of(service) && selector_matches_spec(sel, pairs_map(p.labels@)),
        None => false,
    }
}

fn same_namespace(a: &Option<String>, b: &Option<String>) -> (r: bool)
    ensures
        r == (crate::aws_scan::opt_view(*a) == crate::aws_scan::opt_view(*b)),
{
    match (a, b) {
        (Some(x), Some(y)) => str_eq(x.as_str(), y.as_str()),
        (None, None) => true,
        _ => false,
    }
}

/// Relates a Service to each pod of its namespace that its selector selects.
pub fn add_service_relationships(rels: &mut Vec<Relationship>, objects: &Vec<K8sObject>, service: &K8sObject, collected_at: &str)
    requires
        step_pre(old(rels)@, objects@, *service),
        evidenced(keyed_map(old(rels)@), collected_at@),
        all_wf(objects@),
    ensures
        step_post(old(rels)@, final(rels)@, objects@),
        evidenced(keyed_map(final(rels)@), collected_at@),
        service_related(keyed_map(final(rels)@), objects@, *service),
        added_within(keyed_map(old(rels)@), keyed_map(final(rels)@), service_edges(objects@, *service)),
{
    broadcast use crate::json::group_json_view;

    let selector = match ptr2(&service.value, "spec", "selector") {
        Some(v) => match v.as_object() {
            Some(entries) => entries,
            None => {
                return;
            },
        },
        None => {
            return;
        },
    };
    proof {
        crate::json::lemma_entries_view_len(selector@);
    }
    if selector.len() == 0 {
        return;
    }
    let ghost start = rels@;
    let mut i: usize = 0;
    while i < objects.len()
        invariant
            i <= objects@.len(),
            all_wf(objects@),
            selector_spec(*service) == Some(entries_view(selector@)),
            entries_view(selector@).len() > 0,
            step_pre(rels@, objects@, *service),
            evidenced(keyed_map(rels@), collected_at@),
            crate::aws_scan::grew(keyed_map(start), keyed_map(rels@)),
            forall|j: int|
                0 <= j < i && selects(*service, #[trigger] objects@[j]) ==> has_relationship(
                    keyed_map(rels@),
                    service.cloud_uid@,
                    "selects"@,
                    objects@[j].cloud_uid@,
                ),
            preserved(keyed_map(start), keyed_map(rels@)),
            added_within(keyed_map(start), keyed_map(rels@), service_edges(objects@, *service)),
        decreases objects@.len() - i,
    {
        let candidate = &objects[i];
        assert(object_wf(objects@[i as int]));
        let ghost before = rels@;
        if str_eq(candidate.kind.as_str(), "Pod") && same_namespace(&candidate.namespace, &service.namespace)
            && selector_matches(selector, &candidate.labels) {
            assert(is_object_uid(objects@, objects@[i as int].cloud_uid@));
            let members = crate::json::clone_entries(selector);
            let selector_members = vec![("selector", JsonValue::Object(members))];
            assert(crate::json::pairs_model(selector_members@) =~= seq![
                ("selector"@, Json::Object(entries_view(selector@))),
            ]);
            let attributes = json_record(selector_members);
            relate_objects(rels, objects, service.cloud_uid.as_str(), "selects", candidate.cloud_uid.as_str(), collected_at, attributes);
            proof {
                let p = service_edges(objects@, *service);
                assert(selects(*service, objects@[i as int]));
                assert(p(service.cloud_uid@, "selects"@, candidate.cloud_uid@, Json::Object(seq![("selector"@, Json::Object(entries_view(selector@)))])));
                lemma_within_chain(
                    keyed_map(start),
                    keyed_map(before),
                    keyed_map(rels@),
                    p,
                    is_edge(service.cloud_uid@, "selects"@, candidate.cloud_uid@, Json::Object(seq![("selector"@, Json::Object(entries_view(selector@)))])),
                    p,
                );
            }
        }
        assert forall|j: int|
            0 <= j < i + 1 && selects(*service, #[trigger] objects@[j]) implies has_relationship(
                keyed_map(rels@),
                service.cloud_uid@,
                "selects"@,
                objects@[j].cloud_uid@,
            ) by {
            if j < i {
                assert(keyed_map(before).contains_key(relationship_uid_spec(service.cloud_uid@, "selects"@, objects@[j].cloud_uid@)));
            }
        }
        i += 1;
    }
}

/// Every resolvable owner reference gives an `owns` relationship from the
/// owner to the object.
pub open spec fn owners_related(m: Map<Seq<char>, Relationship>, objects: Seq<K8sObject>, upto: int) -> bool {
    forall|i: int, j: int|
        0 <= i < upto && 0 <= j < owner_refs_spec(objects[i].value@).len() ==> (lookup_owner_spec(
            objects,
            #[trigger] owner_refs_spec(objects[i].value@)[j],
            ns_of(objects[i]),
        ) matches Some(o) ==> has_relationship(m, o, "owns"@, objects[i].cloud_uid@))
}

/// A Service selects each pod of its namespace that its selector matches.
pub open spec fn service_related(m: Map<Seq<char>, Relationship>, objects: Seq<K8sObject>, service: K8sObject) -> bool {
    forall|j: int|
        0 <= j < objects.len() && selects(service, #[trigger] objects[j]) ==> has_relationship(
            m,
            service.cloud_uid@,
            "selects"@,
            objects[j].cloud_uid@,
        )
}

/// An Ingress routes to each Service of its namespace that a backend names.
pub open spec fn ingress_related(m: Map<Seq<char>, Relationship>, objects: Seq<K8sObject>, ingress: K8sObject) -> bool {
    forall|name: Seq<char>|
        crate::order::seq_has(ingress_names(ingress.value@), name) ==> (
        #[trigger] lookup_key_spec(objects, "Service"@, ns_key(ns_of(ingress)), name) matches Some(svc)
            ==> has_relationship(m, ingress.cloud_uid@, "routes_to"@, svc))
}

/// A binding grants the role it names, and grants it to each service
/// account subject.
pub open spec fn binding_related(m: Map<Seq<char>, Relationship>, objects: Seq<K8sObject>, binding: K8sObject) -> bool {
    &&& match json_get(binding.value@, "roleRef"@) {
        Some(rr) => {
            let k = str_or_empty(rr, "kind"@);
            lookup_key_spec(objects, k, role_ns(binding, k), str_or_empty(rr, "name"@)) matches Some(role)
                ==> has_relationship(m, binding.cloud_uid@, "grants_role"@, role)
        },
        None => true,
    }
    &&& subjects_related(
        m,
        objects,
        binding,
        arr(json_get(binding.value@, "subjects"@)),
        arr(json_get(binding.value@, "subjects"@)).len() as int,
    )
}

/// A claim binds the volume it names.
pub open spec fn pvc_related(m: Map<Seq<char>, Relationship>, objects: Seq<K8sObject>, pvc: K8sObject) -> bool {
    match pointer_str_spec(pvc.value@, path2("spec"@, "volumeName"@)) {
        Some(v) => match lookup_key_spec(objects, "PersistentVolume"@, Seq::empty(), v) {
            Some(pv) => has_relationship(m, pvc.cloud_uid@, "binds"@, pv),
            None => true,
        },
        None => true,
    }
}

/// The relationships the kind of `o` gives are held: those of a pod, a
/// Service, an Ingress, a role binding or a claim; other kinds give none.
pub open spec fn object_related(
    m: Map<Seq<char>, Relationship>,
    objects: Seq<K8sObject>,
    o: K8sObject,
    replica_set_to_deployment: Map<Seq<char>, Seq<char>>,
) -> bool {
    let kind = o.kind@;
    if kind == "Pod"@ {
        pod_related(m, objects, o, replica_set_to_deployment)
    } else if kind == "Service"@ {
        service_related(m, objects, o)
    } else if kind == "Ingress"@ {
        ingress_related(m, objects, o)
    } else if kind == "RoleBinding"@ || kind == "ClusterRoleBinding"@ {
        binding_related(m, objects, o)
    } else if kind == "PersistentVolumeClaim"@ {
        pvc_related(m, objects, o)
    } else {
        true
    }
}

/// Every ReplicaSet among the first `upto` objects with a resolvable
/// Deployment owner is mapped to a deployment.
pub open spec fn deployments_known(rsd: Map<Seq<char>, Seq<char>>, objects: Seq<K8sObject>, upto: int) -> bool {
    forall|a: int, b: int|
        0 <= a < upto && 0 <= b < owner_refs_spec(objects[a].value@).len() && objects[a].kind@ == "ReplicaSet"@
            && str_field_spec(#[trigger] owner_refs_spec(objects[a].value@)[b], "kind"@) == Some("Deployment"@)
            && lookup_owner_spec(objects, owner_refs_spec(objects[a].value@)[b], ns_of(objects[a])) is Some
            ==> rsd.contains_key(objects[a].cloud_uid@)
}

/// The deployment a ReplicaSet is mapped to owns it.
pub open spec fn deployments_owned(m: Map<Seq<char>, Relationship>, rsd: Map<Seq<char>, Seq<char>>) -> bool {
    forall|rs: Seq<char>| #[trigger] rsd.contains_key(rs) ==> has_relationship(m, rsd[rs], "owns"@, rs)
}

/// The relationships derived from the objects are held, and no others:
/// ownership from every owner reference, and for some map of ReplicaSets to
/// the Deployments that own them (holding each ReplicaSet with a Deployment
/// owner), what each object's kind gives.
pub open spec fn relationships_derived(m: Map<Seq<char>, Relationship>, objects: Seq<K8sObject>) -> bool {
    &&& owners_related(m, objects, objects.len() as int)
    &&& exists|rsd: Map<Seq<char>, Seq<char>>|
        {
            &&& deployments_known(rsd, objects, objects.len() as int)
            &&& deployments_owned(m, rsd)
            &&& forall|i: int| 0 <= i < objects.len() ==> object_related(m, objects, #[trigger] objects[i], rsd)
            &&& added_within(Map::empty(), m, derived_edges(objects, rsd))
        }
}

/// The ownership relationships an object's owner references give.
pub open spec fn owner_edges(objects: Seq<K8sObject>, o: K8sObject) -> spec_fn(Seq<char>, Seq<char>, Seq<char>, Json) -> bool {
    |f: Seq<char>, t: Seq<char>, x: Seq<char>, a: Json|
        t == "owns"@ && x == o.cloud_uid@ && exists|j: int|
            0 <= j < owner_refs_spec(o.value@).len() && lookup_owner_spec(
                objects,
                #[trigger] owner_refs_spec(o.value@)[j],
                ns_of(o),
            ) == Some(f) && a == Json::Object(
                seq![
                    ("owner_kind"@, opt_json(str_field_spec(owner_refs_spec(o.value@)[j], "kind"@))),
                    ("owner_name"@, opt_json(str_field_spec(owner_refs_spec(o.value@)[j], "name"@))),
                ],
            )
}

/// The relationships an object's kind gives; other kinds give none.
pub open spec fn object_edges(
    objects: Seq<K8sObject>,
    o: K8sObject,
    rsd: Map<Seq<char>, Seq<char>>,
) -> spec_fn(Seq<char>, Seq<char>, Seq<char>, Json) -> bool {
    let kind = o.kind@;
    if kind == "Pod"@ {
        pod_edges(objects, o, rsd)
    } else if kind == "Service"@ {
        service_edges(objects, o)
    } else if kind == "Ingress"@ {
        ingress_edges(objects, o)
    } else if kind == "RoleBinding"@ || kind == "ClusterRoleBinding"@ {
        binding_edges(objects, o)
    } else if kind == "PersistentVolumeClaim"@ {
        pvc_edges(objects, o)
    } else {
        |f: Seq<char>, t: Seq<char>, x: Seq<char>, a: Json| false
    }
}

/// The ownership relationships of the first `upto` objects.
pub open spec fn owners_upto(objects: Seq<K8sObject>, upto: int) -> spec_fn(Seq<char>, Seq<char>, Seq<char>, Json) -> bool {
    |f: Seq<char>, t: Seq<char>, x: Seq<char>, a: Json|
        exists|i: int| 0 <= i < upto && owner_edges(objects, #[trigger] objects[i])(f, t, x, a)
}

/// The relationships some object gives, by its owner references or its kind.
pub open spec fn derived_edges(objects: Seq<K8sObject>, rsd: Map<Seq<char>, Seq<char>>) -> spec_fn(Seq<char>, Seq<char>, Seq<char>, Json) -> bool {
    |f: Seq<char>, t: Seq<char>, x: Seq<char>, a: Json|
        exists|i: int|
            0 <= i < objects.len() && (owner_edges(objects, #[trigger] objects[i])(f, t, x, a) || object_edges(
                objects,
                objects[i],
                rsd,
            )(f, t, x, a))
}

/// What an object's kind gives is derived from the objects.
pub proof fn lemma_object_edges_derived(objects: Seq<K8sObject>, rsd: Map<Seq<char>, Seq<char>>, i: int)
    requires
        0 <= i < objects.len(),
    ensures
        forall|f: Seq<char>, t: Seq<char>, x: Seq<char>, a: Json|
            #[trigger] object_edges(objects, objects[i], rsd)(f, t, x, a) ==> derived_edges(objects, rsd)(f, t, x, a),
{
    assert forall|f: Seq<char>, t: Seq<char>, x: Seq<char>, a: Json|
        #[trigger] object_edges(objects, objects[i], rsd)(f, t, x, a) implies derived_edges(objects, rsd)(f, t, x, a) by {
        assert(owner_edges(objects, objects[i])(f, t, x, a) || object_edges(objects, objects[i], rsd)(f, t, x, a));
    }
}

/// What an object's kind gives stays held as relationships are added.
pub proof fn lemma_object_related_grows(
    m1: Map<Seq<char>, Relationship>,
    m2: Map<Seq<char>, Relationship>,
    objects: Seq<K8sObject>,
    o: K8sObject,
    rsd: Map<Seq<char>, Seq<char>>,
)
    requires
        object_related(m1, objects, o, rsd),
        crate::aws_scan::grew(m1, m2),
    ensures
        object_related(m2, objects, o, rsd),
{
    let kind = o.kind@;
    if kind == "Pod"@ {
        let nsk = ns_key(ns_of(o));
        let refs = pod_refs_spec(o.value@);
        let owners = owner_refs_spec(o.value@);
        assert forall|j: int|
            0 <= j < owners.len() && str_field_spec(#[trigger] owners[j], "kind"@) == Some("ReplicaSet"@) implies (
            lookup_owner_spec(objects, owners[j], ns_of(o)) matches Some(rs) ==> (rsd.contains_key(rs)
                ==> has_relationship(m2, rsd[rs], "owns"@, o.cloud_uid@))) by {
            if let Some(rs) = lookup_owner_spec(objects, owners[j], ns_of(o)) {
                if rsd.contains_key(rs) {
                    assert(has_relationship(m1, rsd[rs], "owns"@, o.cloud_uid@));
                }
            }
        }
        assert forall|j: int|
            0 <= j < refs.len() implies (lookup_key_spec(objects, (#[trigger] refs[j]).0, nsk, refs[j].1) matches Some(t)
                ==> has_relationship(m2, o.cloud_uid@, refs[j].2, t)) by {
            if let Some(t) = lookup_key_spec(objects, refs[j].0, nsk, refs[j].1) {
                assert(has_relationship(m1, o.cloud_uid@, refs[j].2, t));
            }
        }
        if let Some(sa) = lookup_key_spec(objects, "ServiceAccount"@, nsk, service_account_spec(json_get(o.value@, "spec"@))) {
            assert(has_relationship(m1, o.cloud_uid@, "uses_service_account"@, sa));
        }
    } else if kind == "Service"@ {
        assert forall|j: int|
            0 <= j < objects.len() && selects(o, #[trigger] objects[j]) implies has_relationship(
                m2,
                o.cloud_uid@,
                "selects"@,
                objects[j].cloud_uid@,
            ) by {
            assert(has_relationship(m1, o.cloud_uid@, "selects"@, objects[j].cloud_uid@));
        }
    } else if kind == "Ingress"@ {
        assert forall|name: Seq<char>|
            crate::order::seq_has(ingress_names(o.value@), name) implies (
            #[trigger] lookup_key_spec(objects, "Service"@, ns_key(ns_of(o)), name) matches Some(svc)
                ==> has_relationship(m2, o.cloud_uid@, "routes_to"@, svc)) by {
            if let Some(svc) = lookup_key_spec(objects, "Service"@, ns_key(ns_of(o)), name) {
                assert(has_relationship(m1, o.cloud_uid@, "routes_to"@, svc));
            }
        }
    } else if kind == "RoleBinding"@ || kind == "ClusterRoleBinding"@ {
        let subjects = arr(json_get(o.value@, "subjects"@));
        assert forall|j: int| 0 <= j < subjects.len() implies {
            let sub = #[trigger] subjects[j];
            str_field_spec(sub, "kind"@) == Some("ServiceAccount"@) && str_field_spec(sub, "name"@) is Some ==> (
            lookup_key_spec(objects, "ServiceAccount"@, subject_ns(o, sub), str_field_spec(sub, "name"@)->0) matches Some(u)
                ==> has_relationship(m2, o.cloud_uid@, "grants_to"@, u))
        } by {
            let sub = subjects[j];
            if str_field_spec(sub, "kind"@) == Some("ServiceAccount"@) && str_field_spec(sub, "name"@) is Some {
                if let Some(u) = lookup_key_spec(objects, "ServiceAccount"@, subject_ns(o, sub), str_field_spec(sub, "name"@)->0) {
                    assert(has_relationship(m1, o.cloud_uid@, "grants_to"@, u));
                }
            }
        }
        if let Some(rr) = json_get(o.value@, "roleRef"@) {
            let k = str_or_empty(rr, "kind"@);
            if let Some(role) = lookup_key_spec(objects, k, role_ns(o, k), str_or_empty(rr, "name"@)) {
                assert(has_relationship(m1, o.cloud_uid@, "grants_role"@, role));
            }
        }
    } else if kind == "PersistentVolumeClaim"@ {
        if let Some(v) = pointer_str_spec(o.value@, path2("spec"@, "volumeName"@)) {
            if let Some(pv) = lookup_key_spec(objects, "PersistentVolume"@, Seq::empty(), v) {
                assert(has_relationship(m1, o.cloud_uid@, "binds"@, pv));
            }
        }
    }
}

/// The relationships derived from the objects, sorted by uid: ownership
/// from owner references, then those each kind of object gives.
#[verifier::rlimit(40)]
#[verifier::spinoff_prover]
pub fn build_relationships(objects: &Vec<K8sObject>, collected_at: &str) -> (r: Vec<Relationship>)
    requires
        all_wf(objects@),
    ensures
        rels_ok(r@, objects@),
        relationships_derived(keyed_map(r@), objects@),
        evidenced(keyed_map(r@), collected_at@),
{
    broadcast use crate::json::group_json_view;

    let mut rels: Vec<Relationship> = Vec::new();
    let mut replica_set_to_deployment: Vec<(String, String)> = Vec::new();
    proof {
        assert(keyed_map(rels@) =~= Map::<Seq<char>, Relationship>::empty());
        assert(pairs_map(replica_set_to_deployment@) =~= Map::<Seq<char>, Seq<char>>::empty());
    }
    let mut i: usize = 0;
    while i < objects.len()
        invariant
            i <= objects@.len(),
            all_wf(objects@),
            rels_ok(rels@, objects@),
            evidenced(keyed_map(rels@), collected_at@),
            keys_sorted(replica_set_to_deployment@),
            values_are_objects(pairs_map(replica_set_to_deployment@), objects@),
            owners_related(keyed_map(rels@), objects@, i as int),
            deployments_known(pairs_map(replica_set_to_deployment@), objects@, i as int),
            deployments_owned(keyed_map(rels@), pairs_map(replica_set_to_deployment@)),
            added_within(Map::empty(), keyed_map(rels@), owners_upto(objects@, i as int)),
        decreases objects@.len() - i,
    {
        let object = &objects[i];
        assert(is_object_uid(objects@, objects@[i as int].cloud_uid@));
        let ns = opt_as_str(&object.namespace);
        let ghost owners = owner_refs_spec(object.value@);
        let ghost start = rels@;
        let ghost rsd_start = pairs_map(replica_set_to_deployment@);
        match items_of(metadata_value(&object.value, "ownerReferences")) {
            Some(list) => {
                proof {
                    crate::json::lemma_items_view_len(list@);
                }
                let mut j: usize = 0;
                while j < list.len()
                    invariant
                        j <= list@.len(),
                        owners == crate::json::items_view(list@),
                        owners.len() == list@.len(),
                        owners == owner_refs_spec(objects@[i as int].value@),
                        *object == objects@[i as int],
                        i < objects@.len(),
                        is_object_uid(objects@, objects@[i as int].cloud_uid@),
                        ns matches Some(n) ==> ns_of(*object) == Some(n@),
                        ns is None ==> object.namespace is None,
                        rels_ok(rels@, objects@),
                        evidenced(keyed_map(rels@), collected_at@),
                        keys_sorted(replica_set_to_deployment@),
                        values_are_objects(pairs_map(replica_set_to_deployment@), objects@),
                        crate::aws_scan::grew(keyed_map(start), keyed_map(rels@)),
                        forall|k: int|
                            0 <= k < j ==> (lookup_owner_spec(objects@, #[trigger] owners[k], ns_of(*object)) matches Some(o)
                                ==> has_relationship(keyed_map(rels@), o, "owns"@, object.cloud_uid@)),
                        deployments_owned(keyed_map(rels@), pairs_map(replica_set_to_deployment@)),
                        forall|key: Seq<char>| #[trigger] rsd_start.contains_key(key) ==> pairs_map(replica_set_to_deployment@).contains_key(key),
                        forall|k: int|
                            0 <= k < j && object.kind@ == "ReplicaSet"@ && str_field_spec(#[trigger] owners[k], "kind"@) == Some("Deployment"@)
                                && lookup_owner_spec(objects@, owners[k], ns_of(*object)) is Some
                                ==> pairs_map(replica_set_to_deployment@).contains_key(object.cloud_uid@),
                        preserved(keyed_map(start), keyed_map(rels@)),
                        added_within(keyed_map(start), keyed_map(rels@), owner_edges(objects@, objects@[i as int])),
                    decreases list@.len() - j,
                {
                    let owner = &list[j];
                    proof {
                        crate::json::lemma_items_view_index(list@, j as int);
                    }
                    let ghost before = rels@;
                    let ghost rsd_before = pairs_map(replica_set_to_deployment@);
                    match lookup_owner(objects, owner, ns) {
                        Some(owner_uid) => {
                            let owner_kind = match owner.get_str("kind") {
                                Some(k) => JsonValue::Str(k.clone()),
                                None => JsonValue::Null,
                            };
                            let owner_name = match owner.get_str("name") {
                                Some(n) => JsonValue::Str(n.clone()),
                                None => JsonValue::Null,
                            };
                            let owner_members = vec![("owner_kind", owner_kind), ("owner_name", owner_name)];
                            let ghost owner_attributes = Json::Object(
                                seq![
                                    ("owner_kind"@, opt_json(str_field_spec(owners[j as int], "kind"@))),
                                    ("owner_name"@, opt_json(str_field_spec(owners[j as int], "name"@))),
                                ],
                            );
                            assert(owner@ == owners[j as int]);
                            assert(crate::json::pairs_model(owner_members@) =~= seq![
                                ("owner_kind"@, opt_json(str_field_spec(owners[j as int], "kind"@))),
                                ("owner_name"@, opt_json(str_field_spec(owners[j as int], "name"@))),
                            ]);
                            let attributes = json_record(owner_members);
                            relate_objects(&mut rels, objects, owner_uid.as_str(), "owns", object.cloud_uid.as_str(), collected_at, attributes);
                            proof {
                                let p = owner_edges(objects@, objects@[i as int]);
                                assert(owners[j as int] == owner_refs_spec(objects@[i as int].value@)[j as int]);
                                assert(p(owner_uid@, "owns"@, object.cloud_uid@, owner_attributes));
                                lemma_within_chain(
                                    keyed_map(start),
                                    keyed_map(before),
                                    keyed_map(rels@),
                                    p,
                                    is_edge(owner_uid@, "owns"@, object.cloud_uid@, owner_attributes),
                                    p,
                                );
                            }
                            assert(deployments_owned(keyed_map(rels@), rsd_before)) by {
                                assert forall|rs: Seq<char>| #[trigger] rsd_before.contains_key(rs) implies has_relationship(keyed_map(rels@), rsd_before[rs], "owns"@, rs) by {
                                    assert(has_relationship(keyed_map(before), rsd_before[rs], "owns"@, rs));
                                }
                            }
                            let is_deployment = match owner.get_str("kind") {
                                Some(k) => str_eq(k.as_str(), "Deployment"),
                                None => false,
                            };
                            if str_eq(object.kind.as_str(), "ReplicaSet") && is_deployment {
                                let ghost m0 = pairs_map(replica_set_to_deployment@);
                                let ghost ou = owner_uid@;
                                pairs_insert(&mut replica_set_to_deployment, object.cloud_uid.clone(), owner_uid);
                                assert forall|k: Seq<char>| #[trigger] pairs_map(replica_set_to_deployment@).contains_key(k)
                                    implies is_object_uid(objects@, pairs_map(replica_set_to_deployment@)[k]) by {
                                    if k != object.cloud_uid@ {
                                        assert(m0.contains_key(k));
                                    }
                                }
                                assert forall|rs: Seq<char>| #[trigger] pairs_map(replica_set_to_deployment@).contains_key(rs)
                                    implies has_relationship(keyed_map(rels@), pairs_map(replica_set_to_deployment@)[rs], "owns"@, rs) by {
                                    if rs != object.cloud_uid@ {
                                        assert(m0.contains_key(rs));
                                    } else {
                                        assert(pairs_map(replica_set_to_deployment@)[rs] == ou);
                                    }
                                }
                            }
                        },
                        None => {},
                    }
                    assert forall|k: int|
                        0 <= k < j + 1 implies (lookup_owner_spec(objects@, #[trigger] owners[k], ns_of(*object)) matches Some(o)
                            ==> has_relationship(keyed_map(rels@), o, "owns"@, object.cloud_uid@)) by {
                        if k < j {
                            if let Some(o) = lookup_owner_spec(objects@, owners[k], ns_of(*object)) {
                                assert(keyed_map(before).contains_key(relationship_uid_spec(o, "owns"@, object.cloud_uid@)));
                            }
                        }
                    }
                    assert forall|key: Seq<char>| #[trigger] rsd_start.contains_key(key) implies pairs_map(replica_set_to_deployment@).contains_key(key) by {
                        assert(rsd_before.contains_key(key));
                    }
                    assert forall|k: int|
                        0 <= k < j + 1 && object.kind@ == "ReplicaSet"@ && str_field_spec(#[trigger] owners[k], "kind"@) == Some("Deployment"@)
                            && lookup_owner_spec(objects@, owners[k], ns_of(*object)) is Some
                            implies pairs_map(replica_set_to_deployment@).contains_key(object.cloud_uid@) by {
                        if k < j {
                            assert(rsd_before.contains_key(object.cloud_uid@));
                        }
                    }
                    j += 1;
                }
            },
            None => {},
        }
        assert forall|a: int, b: int|
            0 <= a < i + 1 && 0 <= b < owner_refs_spec(objects@[a].value@).len() implies (lookup_owner_spec(
                objects@,
                #[trigger] owner_refs_spec(objects@[a].value@)[b],
                ns_of(objects@[a]),
            ) matches Some(o) ==> has_relationship(keyed_map(rels@), o, "owns"@, objects@[a].cloud_uid@)) by {
            if a < i {
                if let Some(o) = lookup_owner_spec(objects@, owner_refs_spec(objects@[a].value@)[b], ns_of(objects@[a])) {
                    assert(keyed_map(start).contains_key(relationship_uid_spec(o, "owns"@, objects@[a].cloud_uid@)));
                }
            } else {
                assert(owners[b] == owner_refs_spec(objects@[a].value@)[b]);
            }
        }
        proof {
            let up = owners_upto(objects@, i as int);
            let one = owner_edges(objects@, objects@[i as int]);
            let next = owners_upto(objects@, i + 1);
            assert forall|f: Seq<char>, t: Seq<char>, x: Seq<char>, a: Json| #[trigger] up(f, t, x, a) implies next(f, t, x, a) by {
                let w = choose|w: int| 0 <= w < i && owner_edges(objects@, #[trigger] objects@[w])(f, t, x, a);
                assert(owner_edges(objects@, objects@[w])(f, t, x, a));
            }
            assert forall|f: Seq<char>, t: Seq<char>, x: Seq<char>, a: Json| #[trigger] one(f, t, x, a) implies next(f, t, x, a) by {
                assert(owner_edges(objects@, objects@[i as int])(f, t, x, a));
            }
            lemma_within_chain(Map::empty(), keyed_map(start), keyed_map(rels@), up, one, next);
        }
        assert forall|a: int, b: int|
            0 <= a < i + 1 && 0 <= b < owner_refs_spec(objects@[a].value@).len() && objects@[a].kind@ == "ReplicaSet"@
                && str_field_spec(#[trigger] owner_refs_spec(objects@[a].value@)[b], "kind"@) == Some("Deployment"@)
                && lookup_owner_spec(objects@, owner_refs_spec(objects@[a].value@)[b], ns_of(objects@[a])) is Some
                implies pairs_map(replica_set_to_deployment@).contains_key(objects@[a].cloud_uid@) by {
            if a < i {
                assert(rsd_start.contains_key(objects@[a].cloud_uid@));
            } else {
                assert(owners[b] == owner_refs_spec(objects@[a].value@)[b]);
            }
        }
        i += 1;
    }
    let ghost after_owners = rels@;
    let ghost rsd = pairs_map(replica_set_to_deployment@);
    proof {
        let up = owners_upto(objects@, objects@.len() as int);
        let all = derived_edges(objects@, rsd);
        assert forall|f: Seq<char>, t: Seq<char>, x: Seq<char>, a: Json| #[trigger] up(f, t, x, a) implies all(f, t, x, a) by {
            let w = choose|w: int| 0 <= w < objects@.len() && owner_edges(objects@, #[trigger] objects@[w])(f, t, x, a);
            assert(owner_edges(objects@, objects@[w])(f, t, x, a) || object_edges(objects@, objects@[w], rsd)(f, t, x, a));
        }
        lemma_within_weaken(Map::empty(), keyed_map(rels@), up, all);
    }
    let mut i: usize = 0;
    while i < objects.len()
        invariant
            i <= objects@.len(),
            all_wf(objects@),
            rels_ok(rels@, objects@),
            evidenced(keyed_map(rels@), collected_at@),
            keys_sorted(replica_set_to_deployment@),
            values_are_objects(pairs_map(replica_set_to_deployment@), objects@),
            crate::aws_scan::grew(keyed_map(after_owners), keyed_map(rels@)),
            rsd == pairs_map(replica_set_to_deployment@),
            deployments_owned(keyed_map(rels@), rsd),
            forall|k: int| 0 <= k < i ==> object_related(keyed_map(rels@), objects@, #[trigger] objects@[k], rsd),
            added_within(Map::empty(), keyed_map(rels@), derived_edges(objects@, rsd)),
        decreases objects@.len() - i,
    {
        let object = &objects[i];
        assert(is_object_uid(objects@, objects@[i as int].cloud_uid@));
        let kind = object.kind.as_str();
        let ghost before = rels@;
        proof {
            reveal_strlit("Pod");
            reveal_strlit("Service");
            reveal_strlit("Ingress");
            reveal_strlit("RoleBinding");
            reveal_strlit("ClusterRoleBinding");
            reveal_strlit("PersistentVolumeClaim");
        }
        let ghost q = object_edges(objects@, objects@[i as int], rsd);
        if str_eq(kind, "Pod") {
            add_pod_relationships(&mut rels, objects, object, &replica_set_to_deployment, collected_at);
            assert(q == pod_edges(objects@, *object, rsd));
        } else if str_eq(kind, "Service") {
            add_service_relationships(&mut rels, objects, object, collected_at);
            assert(q == service_edges(objects@, *object));
        } else if str_eq(kind, "Ingress") {
            add_ingress_relationships(&mut rels, objects, object, collected_at);
            assert(q == ingress_edges(objects@, *object));
        } else if str_eq(kind, "RoleBinding") || str_eq(kind, "ClusterRoleBinding") {
            add_rbac_binding_relationships(&mut rels, objects, object, collected_at);
            assert(q == binding_edges(objects@, *object));
        } else if str_eq(kind, "PersistentVolumeClaim") {
            add_pvc_relationships(&mut rels, objects, object, collected_at);
            assert(q == pvc_edges(objects@, *object));
        }
        proof {
            assert(preserved(keyed_map(before), keyed_map(rels@)));
            assert(added_within(keyed_map(before), keyed_map(rels@), q));
            lemma_object_edges_derived(objects@, rsd, i as int);
            lemma_within_chain(
                Map::empty(),
                keyed_map(before),
                keyed_map(rels@),
                derived_edges(objects@, rsd),
                q,
                derived_edges(objects@, rsd),
            );
        }
        assert forall|k: int| 0 <= k < i + 1 implies object_related(keyed_map(rels@), objects@, #[trigger] objects@[k], rsd) by {
            if k < i {
                lemma_object_related_grows(keyed_map(before), keyed_map(rels@), objects@, objects@[k], rsd);
            }
        }
        assert forall|rs: Seq<char>| #[trigger] rsd.contains_key(rs) implies has_relationship(keyed_map(rels@), rsd[rs], "owns"@, rs) by {
            assert(has_relationship(keyed_map(before), rsd[rs], "owns"@, rs));
        }
        i += 1;
    }
    proof {
        assert forall|a: int, b: int|
            0 <= a < objects@.len() && 0 <= b < owner_refs_spec(objects@[a].value@).len() implies (lookup_owner_spec(
                objects@,
                #[trigger] owner_refs_spec(objects@[a].value@)[b],
                ns_of(objects@[a]),
            ) matches Some(o) ==> has_relationship(keyed_map(rels@), o, "owns"@, objects@[a].cloud_uid@)) by {
            if let Some(o) = lookup_owner_spec(objects@, owner_refs_spec(objects@[a].value@)[b], ns_of(objects@[a])) {
                assert(keyed_map(after_owners).contains_key(relationship_uid_spec(o, "owns"@, objects@[a].cloud_uid@)));
            }
        }
        assert(deployments_known(rsd, objects@, objects@.len() as int));
    }
    rels
}


/// The characters a finding id replaces in a uid.
pub open spec fn finding_id_unsafe_chars() -> Seq<char> {
    seq![' ', '\n', '\t', '/', ':']
}

/// The id of a finding: its type, `:`, and the uid with unsafe characters replaced.
pub open spec fn finding_id_spec(finding_type: Seq<char>, uid: Seq<char>) -> Seq<char> {
    finding_type + seq![':'] + replace_chars_spec(uid, finding_id_unsafe_chars(), '_')
}

/// The evidence recorded for a finding about `o`.
pub open spec fn finding_evidence(o: K8sObject) -> Json {
    Json::Object(
        seq![
            ("service"@, Json::Str("kubernetes"@)),
            ("operation"@, Json::Str("get"@)),
            ("kind"@, Json::Str(o.kind@)),
            ("namespace"@, opt_json(ns_of(o))),
            ("name"@, Json::Str(o.name@)),
        ],
    )
}

/// What a finding holds.
pub struct FindingView {
    pub id: Seq<char>,
    pub finding_type: Seq<char>,
    pub severity: Seq<char>,
    pub resource_uid: Seq<char>,
    pub reason: Seq<char>,
    pub recommended_action: Seq<char>,
    pub blast_radius: Seq<Seq<char>>,
    pub evidence: Seq<Json>,
    pub attributes: Json,
}

impl View for K8sFinding {
    type V = FindingView;

    open spec fn view(&self) -> FindingView {
        FindingView {
            id: self.id@,
            finding_type: self.finding_type@,
            severity: self.severity@,
            resource_uid: self.resource_uid@,
            reason: self.reason@,
            recommended_action: self.recommended_action@,
            blast_radius: crate::order::texts(self.blast_radius@),
            evidence: crate::json::items_view(self.evidence@),
            attributes: self.attributes@,
        }
    }
}

/// The finding of type `finding_type` about `o`.
pub open spec fn finding_view(
    finding_type: Seq<char>,
    severity: Seq<char>,
    o: K8sObject,
    reason: Seq<char>,
    action: Seq<char>,
    attributes: Json,
    blast_radius: Seq<Seq<char>>,
) -> FindingView {
    FindingView {
        id: finding_id_spec(finding_type, o.cloud_uid@),
        finding_type,
        severity,
        resource_uid: o.cloud_uid@,
        reason,
        recommended_action: action,
        blast_radius,
        evidence: seq![finding_evidence(o)],
        attributes,
    }
}

/// Builds a finding about `o`.
pub fn finding(
    finding_type: &str,
    severity: &str,
    o: &K8sObject,
    reason: String,
    action: &str,
    attributes: JsonValue,
    blast_radius: Vec<String>,
) -> (f: K8sFinding)
    ensures
        f@ == finding_view(finding_type@, severity@, *o, reason@, action@, attributes@, crate::order::texts(blast_radius@)),
{
    broadcast use crate::json::group_json_view;

    let targets = [' ', '\n', '\t', '/', ':'];
    assert(targets@ =~= finding_id_unsafe_chars());
    let mut id = finding_type.to_owned();
    push_char(&mut id, ':');
    let safe = replace_chars(o.cloud_uid.as_str(), &targets, '_');
    id.append(safe.as_str());
    assert(id@ =~= finding_id_spec(finding_type@, o.cloud_uid@));
    let namespace = match &o.namespace {
        Some(ns) => JsonValue::Str(ns.clone()),
        None => JsonValue::Null,
    };
    let entries = vec![
        ("service", JsonValue::Str("kubernetes".to_owned())),
        ("operation", JsonValue::Str("get".to_owned())),
        ("kind", JsonValue::Str(o.kind.clone())),
        ("namespace", namespace),
        ("name", JsonValue::Str(o.name.clone())),
    ];
    assert(pairs_model(entries@) =~= seq![
        ("service"@, Json::Str("kubernetes"@)),
        ("operation"@, Json::Str("get"@)),
        ("kind"@, Json::Str(o.kind@)),
        ("namespace"@, opt_json(ns_of(*o))),
        ("name"@, Json::Str(o.name@)),
    ]);
    let evidence = json_record(entries);
    let f = K8sFinding {
        id,
        finding_type: finding_type.to_owned(),
        severity: severity.to_owned(),
        resource_uid: o.cloud_uid.clone(),
        reason,
        recommended_action: action.to_owned(),
        blast_radius,
        evidence: vec![evidence],
        attributes,
    };
    assert(f.evidence@[0] == evidence);
    assert(crate::json::items_view(f.evidence@) =~= seq![finding_evidence(*o)]);
    f
}

/// The label of an object in messages.
pub fn object_label(o: &K8sObject) -> (r: String)
    ensures
        r@ == object_label_spec(o.kind@, ns_of(*o), o.name@),
{
    let mut out = o.kind.clone();
    push_char(&mut out, ' ');
    let id = match &o.namespace {
        Some(ns) => object_id(Some(ns.as_str()), o.name.as_str()),
        None => object_id(None, o.name.as_str()),
    };
    out.append(id.as_str());
    out
}

fn label_then(o: &K8sObject, prefix: &str, suffix: &str) -> (r: String)
    ensures
        r@ == prefix@ + object_label_spec(o.kind@, ns_of(*o), o.name@) + suffix@,
{
    let mut out = prefix.to_owned();
    let label = object_label(o);
    out.append(label.as_str());
    out.append(suffix);
    out
}

/// Whether a container is privileged.
pub open spec fn container_privileged(c: Json) -> bool {
    crate::json::json_bool(json_pointer(c, path2("securityContext"@, "privileged"@))) == Some(true)
}

/// The name and image of a container.
pub open spec fn container_name_image(c: Json) -> Json {
    Json::Object(seq![("name"@, opt_json(str_field_spec(c, "name"@))), ("image"@, opt_json(str_field_spec(c, "image"@)))])
}

/// The name and image of each privileged container, in order.
pub open spec fn privileged_spec(cs: Seq<Json>) -> Seq<Json>
    decreases cs.len(),
{
    if cs.len() == 0 {
        Seq::empty()
    } else {
        let prev = privileged_spec(cs.drop_last());
        if container_privileged(cs.last()) {
            prev.push(container_name_image(cs.last()))
        } else {
            prev
        }
    }
}

/// The name, path and type of each hostPath volume, in order.
pub open spec fn host_paths_spec(vols: Seq<Json>) -> Seq<Json>
    decreases vols.len(),
{
    if vols.len() == 0 {
        Seq::empty()
    } else {
        let prev = host_paths_spec(vols.drop_last());
        let v = vols.last();
        match json_get(v, "hostPath"@) {
            Some(hp) => prev.push(
                Json::Object(
                    seq![
                        ("name"@, opt_json(str_field_spec(v, "name"@))),
                        ("path"@, opt_json(str_field_spec(hp, "path"@))),
                        ("type"@, opt_json(str_field_spec(hp, "type"@))),
                    ],
                ),
            ),
            None => prev,
        }
    }
}

/// Whether a pod spec sets a flag to true.
pub open spec fn flag_set(spec: Json, field: Seq<char>) -> bool {
    crate::json::json_bool(json_get(spec, field)) == Some(true)
}

/// The host namespaces a pod spec enables, in the order network, PID, IPC.
pub open spec fn host_namespaces_spec(spec: Json) -> Seq<Seq<char>> {
    (if flag_set(spec, "hostNetwork"@) { seq!["hostNetwork"@] } else { Seq::empty() })
        + (if flag_set(spec, "hostPID"@) { seq!["hostPID"@] } else { Seq::empty() })
        + (if flag_set(spec, "hostIPC"@) { seq!["hostIPC"@] } else { Seq::empty() })
}

/// Whether an optional namespace is a system namespace.
pub open spec fn system_namespace_opt(namespace: Option<Seq<char>>) -> bool {
    match namespace {
        Some(ns) => system_namespace_spec(ns),
        None => false,
    }
}

fn flag_true(spec: &JsonValue, field: &str) -> (r: bool)
    ensures
        r == flag_set(spec@, field@),
{
    match spec.get(field) {
        Some(v) => match v.as_bool() {
            Some(b) => b,
            None => false,
        },
        None => false,
    }
}

fn push_containers_privileged(out: &mut Vec<JsonValue>, containers: Option<&Vec<JsonValue>>)
    ensures
        crate::json::items_view(final(out)@) == crate::json::items_view(old(out)@) + privileged_spec(
            match containers {
                Some(c) => crate::json::items_view(c@),
                None => Seq::empty(),
            },
        ),
{
    broadcast use crate::json::group_json_view;

    let cs = match containers {
        Some(c) => c,
        None => {
            assert(crate::json::items_view(out@) =~= crate::json::items_view(out@) + privileged_spec(Seq::<Json>::empty()));
            return;
        },
    };
    let ghost start = crate::json::items_view(out@);
    let ghost cv = crate::json::items_view(cs@);
    proof {
        crate::json::lemma_items_view_len(cs@);
    }
    let mut i: usize = 0;
    assert(cv.take(0) =~= Seq::<Json>::empty());
    assert(crate::json::items_view(out@) =~= start + privileged_spec(cv.take(0)));
    while i < cs.len()
        invariant
            i <= cs@.len(),
            cv == crate::json::items_view(cs@),
            cv.len() == cs@.len(),
            crate::json::items_view(out@) == start + privileged_spec(cv.take(i as int)),
        decreases cs@.len() - i,
    {
        let c = &cs[i];
        proof {
            crate::json::lemma_items_view_index(cs@, i as int);
        }
        assert(cv.take(i + 1).drop_last() =~= cv.take(i as int));
        assert(cv.take(i + 1).last() == c@);
        let path = ["securityContext", "privileged"];
        assert(path@.map_values(|p: &str| p@) =~= path2("securityContext"@, "privileged"@));
        let privileged = match c.pointer(&path) {
            Some(v) => match v.as_bool() {
                Some(b) => b,
                None => false,
            },
            None => false,
        };
        if privileged {
            let name = match c.get_str("name") {
                Some(n) => JsonValue::Str(n.clone()),
                None => JsonValue::Null,
            };
            let image = match c.get_str("image") {
                Some(n) => JsonValue::Str(n.clone()),
                None => JsonValue::Null,
            };
            let entries = vec![("name", name), ("image", image)];
            assert(pairs_model(entries@) =~= seq![("name"@, opt_json(str_field_spec(c@, "name"@))), ("image"@, opt_json(str_field_spec(c@, "image"@)))]);
            let item = json_record(entries);
            let ghost before = out@;
            out.push(item);
            assert(out@.drop_last() =~= before);
            assert(crate::json::items_view(out@) == crate::json::items_view(before).push(item@));
        }
        assert(crate::json::items_view(out@) =~= start + privileged_spec(cv.take(i + 1)));
        i += 1;
    }
    assert(cv.take(i as int) =~= cv);
}

/// The name and image of each privileged container of a pod spec.
pub fn privileged_containers(spec: &JsonValue) -> (r: Vec<JsonValue>)
    ensures
        crate::json::items_view(r@) == privileged_spec(all_containers_spec(spec@)),
{
    broadcast use crate::json::group_json_view;

    let mut out: Vec<JsonValue> = Vec::new();
    assert(crate::json::items_view(out@) =~= Seq::<Json>::empty());
    push_containers_privileged(&mut out, items_of(spec.get("initContainers")));
    push_containers_privileged(&mut out, items_of(spec.get("containers")));
    push_containers_privileged(&mut out, items_of(spec.get("ephemeralContainers")));
    proof {
        let a = arr(json_get(spec@, "initContainers"@));
        let b = arr(json_get(spec@, "containers"@));
        let c = arr(json_get(spec@, "ephemeralContainers"@));
        lemma_privileged_concat(a, b);
        lemma_privileged_concat(a + b, c);
        assert(crate::json::items_view(out@) =~= privileged_spec(all_containers_spec(spec@)));
    }
    out
}

/// The privileged containers of containers listed in parts are those of the parts in order.
pub proof fn lemma_privileged_concat(a: Seq<Json>, b: Seq<Json>)
    ensures
        privileged_spec(a + b) == privileged_spec(a) + privileged_spec(b),
    decreases b.len(),
{
    if b.len() == 0 {
        assert(a + b =~= a);
        assert(privileged_spec(a) + privileged_spec(b) =~= privileged_spec(a));
    } else {
        lemma_privileged_concat(a, b.drop_last());
        assert((a + b).drop_last() =~= a + b.drop_last());
        assert((a + b).last() == b.last());
        if container_privileged(b.last()) {
            assert(privileged_spec(a) + privileged_spec(b) =~= (privileged_spec(a) + privileged_spec(b.drop_last())).push(container_name_image(b.last())));
        } else {
            assert(privileged_spec(a) + privileged_spec(b) =~= privileged_spec(a) + privileged_spec(b.drop_last()));
        }
    }
}

/// The name, path and type of each hostPath volume of a pod spec.
pub fn host_path_volumes(spec: &JsonValue) -> (r: Vec<JsonValue>)
    ensures
        crate::json::items_view(r@) == host_paths_spec(arr(json_get(spec@, "volumes"@))),
{
    broadcast use crate::json::group_json_view;

    let mut out: Vec<JsonValue> = Vec::new();
    let vols = match items_of(spec.get("volumes")) {
        Some(v) => v,
        None => {
            assert(crate::json::items_view(out@) =~= host_paths_spec(Seq::<Json>::empty()));
            return out;
        },
    };
    let ghost vv = crate::json::items_view(vols@);
    proof {
        crate::json::lemma_items_view_len(vols@);
    }
    let mut i: usize = 0;
    assert(vv.take(0) =~= Seq::<Json>::empty());
    assert(crate::json::items_view(out@) =~= host_paths_spec(vv.take(0)));
    while i < vols.len()
        invariant
            i <= vols@.len(),
            vv == crate::json::items_view(vols@),
            vv.len() == vols@.len(),
            crate::json::items_view(out@) == host_paths_spec(vv.take(i as int)),
        decreases vols@.len() - i,
    {
        let v = &vols[i];
        proof {
            crate::json::lemma_items_view_index(vols@, i as int);
        }
        assert(vv.take(i + 1).drop_last() =~= vv.take(i as int));
        assert(vv.take(i + 1).last() == v@);
        match v.get("hostPath") {
            Some(hp) => {
                let name = match v.get_str("name") {
                    Some(n) => JsonValue::Str(n.clone()),
                    None => JsonValue::Null,
                };
                let path = match hp.get_str("path") {
                    Some(n) => JsonValue::Str(n.clone()),
                    None => JsonValue::Null,
                };
                let kind = match hp.get_str("type") {
                    Some(n) => JsonValue::Str(n.clone()),
                    None => JsonValue::Null,
                };
                let entries = vec![("name", name), ("path", path), ("type", kind)];
                assert(pairs_model(entries@) =~= seq![
                    ("name"@, opt_json(str_field_spec(v@, "name"@))),
                    ("path"@, opt_json(str_field_spec(hp@, "path"@))),
                    ("type"@, opt_json(str_field_spec(hp@, "type"@))),
                ]);
                let item = json_record(entries);
                let ghost before = out@;
                out.push(item);
                assert(out@.drop_last() =~= before);
                assert(crate::json::items_view(out@) == crate::json::items_view(before).push(item@));
            },
            None => {},
        }
        assert(crate::json::items_view(out@) =~= host_paths_spec(vv.take(i + 1)));
        i += 1;
    }
    assert(vv.take(i as int) =~= vv);
    out
}

/// The host namespaces a pod spec enables.
pub fn host_namespace_flags(spec: &JsonValue) -> (r: Vec<String>)
    ensures
        crate::order::texts(r@) == host_namespaces_spec(spec@),
{
    let mut flags: Vec<String> = Vec::new();
    if flag_true(spec, "hostNetwork") {
        flags.push("hostNetwork".to_owned());
    }
    let ghost a = crate::order::texts(flags@);
    if flag_true(spec, "hostPID") {
        flags.push("hostPID".to_owned());
    }
    let ghost b = crate::order::texts(flags@);
    if flag_true(spec, "hostIPC") {
        flags.push("hostIPC".to_owned());
    }
    assert(crate::order::texts(flags@) =~= host_namespaces_spec(spec@));
    flags
}


/// One finding when `cond` holds, none otherwise.
pub open spec fn opt_finding(cond: bool, f: FindingView) -> Seq<FindingView> {
    if cond {
        seq![f]
    } else {
        Seq::empty()
    }
}

/// What each finding holds, in order.
pub open spec fn views(s: Seq<K8sFinding>) -> Seq<FindingView> {
    s.map_values(|f: K8sFinding| f@)
}

/// The label of `o` in messages.
pub open spec fn label(o: K8sObject) -> Seq<char> {
    object_label_spec(o.kind@, ns_of(o), o.name@)
}

/// The service account a pod spec runs as.
pub open spec fn spec_account(spec: Json) -> Seq<char> {
    match str_field_spec(spec, "serviceAccountName"@) {
        Some(s) => s,
        None => "default"@,
    }
}

/// The JSON array of texts.
pub open spec fn text_array(s: Seq<Seq<char>>) -> Json {
    Json::Array(s.map_values(|t: Seq<char>| Json::Str(t)))
}

/// The findings about a pod spec: privileged containers, hostPath mounts,
/// host namespaces, and the default service account outside system namespaces.
pub open spec fn pod_expected(o: K8sObject, spec: Json) -> Seq<FindingView> {
    let privileged = privileged_spec(all_containers_spec(spec));
    let host_paths = host_paths_spec(arr(json_get(spec, "volumes"@)));
    let host_namespaces = host_namespaces_spec(spec);
    let account = spec_account(spec);
    opt_finding(
        privileged.len() > 0,
        finding_view(
            "privileged_container"@,
            "critical"@,
            o,
            label(o) + " runs privileged containers."@,
            "Remove privileged mode or isolate this workload onto a hardened node pool with a documented exception."@,
            Json::Object(seq![("containers"@, Json::Array(privileged))]),
            Seq::empty(),
        ),
    ) + opt_finding(
        host_paths.len() > 0,
        finding_view(
            "host_path_mount"@,
            "high"@,
            o,
            label(o) + " mounts hostPath volumes."@,
            "Replace hostPath mounts with scoped PersistentVolumes or remove host filesystem access."@,
            Json::Object(seq![("volumes"@, Json::Array(host_paths))]),
            Seq::empty(),
        ),
    ) + opt_finding(
        host_namespaces.len() > 0,
        finding_view(
            "host_namespace_enabled"@,
            "high"@,
            o,
            label(o) + " enables host namespace access."@,
            "Disable hostNetwork, hostPID, and hostIPC unless the workload is a tightly controlled system daemon."@,
            Json::Object(seq![("enabled"@, text_array(host_namespaces))]),
            Seq::empty(),
        ),
    ) + opt_finding(
        account == "default"@ && !system_namespace_opt(ns_of(o)),
        finding_view(
            "default_service_account_used"@,
            "medium"@,
            o,
            label(o) + " uses the default service account."@,
            "Create a workload-specific service account with only the RBAC permissions this workload needs."@,
            Json::Object(seq![("service_account"@, Json::Str(account))]),
            Seq::empty(),
        ),
    )
}

fn push_finding_if(out: &mut Vec<K8sFinding>, cond: bool, f: K8sFinding)
    ensures
        views(final(out)@) == views(old(out)@) + opt_finding(cond, f@),
{
    if cond {
        let ghost before = out@;
        out.push(f);
        assert(views(out@) =~= views(before) + seq![f@]);
    } else {
        assert(views(out@) =~= views(out@) + Seq::<FindingView>::empty());
    }
}

fn strings_json(v: &Vec<String>) -> (r: JsonValue)
    ensures
        r@ == text_array(crate::order::texts(v@)),
{
    let r = crate::json::json_string_array(v);
    assert(Seq::new(v@.len(), |i: int| Json::Str(v@[i]@)) =~= crate::order::texts(v@).map_values(|t: Seq<char>| Json::Str(t)));
    r
}

/// The findings about the pod spec `spec` of `o`.
pub fn pod_spec_findings(o: &K8sObject, spec: &JsonValue) -> (r: Vec<K8sFinding>)
    ensures
        views(r@) == pod_expected(*o, spec@),
{
    broadcast use crate::json::group_json_view;

    let mut out: Vec<K8sFinding> = Vec::new();
    assert(views(out@) =~= Seq::<FindingView>::empty());
    let privileged = privileged_containers(spec);
    let has_privileged = privileged.len() > 0;
    proof {
        crate::json::lemma_items_view_len(privileged@);
    }
    let entries_f1 = vec![("containers", JsonValue::Array(privileged))];
    assert(pairs_model(entries_f1@) =~= seq![("containers"@, Json::Array(privileged_spec(all_containers_spec(spec@))))]);
    let attributes_f1 = json_record(entries_f1);
    let f1 = finding(
        "privileged_container",
        "critical",
        o,
        label_then(o, "", " runs privileged containers."),
        "Remove privileged mode or isolate this workload onto a hardened node pool with a documented exception.",
        attributes_f1,
        Vec::new(),
    );
    proof {
        reveal_strlit("");
    }
    assert(f1@.reason =~= label(*o) + " runs privileged containers."@);
    assert(f1@.blast_radius =~= Seq::<Seq<char>>::empty());
    push_finding_if(&mut out, has_privileged, f1);
    let host_paths = host_path_volumes(spec);
    let has_paths = host_paths.len() > 0;
    proof {
        crate::json::lemma_items_view_len(host_paths@);
    }
    let entries_f2 = vec![("volumes", JsonValue::Array(host_paths))];
    assert(pairs_model(entries_f2@) =~= seq![("volumes"@, Json::Array(host_paths_spec(arr(json_get(spec@, "volumes"@)))))]);
    let attributes_f2 = json_record(entries_f2);
    let f2 = finding(
        "host_path_mount",
        "high",
        o,
        label_then(o, "", " mounts hostPath volumes."),
        "Replace hostPath mounts with scoped PersistentVolumes or remove host filesystem access.",
        attributes_f2,
        Vec::new(),
    );
    assert(f2@.reason =~= label(*o) + " mounts hostPath volumes."@);
    assert(f2@.blast_radius =~= Seq::<Seq<char>>::empty());
    push_finding_if(&mut out, has_paths, f2);
    let flags = host_namespace_flags(spec);
    let has_flags = flags.len() > 0;
    let flags_json = strings_json(&flags);
    let entries_f3 = vec![("enabled", flags_json)];
    assert(pairs_model(entries_f3@) =~= seq![("enabled"@, text_array(host_namespaces_spec(spec@)))]);
    let attributes_f3 = json_record(entries_f3);
    let f3 = finding(
        "host_namespace_enabled",
        "high",
        o,
        label_then(o, "", " enables host namespace access."),
        "Disable hostNetwork, hostPID, and hostIPC unless the workload is a tightly controlled system daemon.",
        attributes_f3,
        Vec::new(),
    );
    assert(f3@.reason =~= label(*o) + " enables host namespace access."@);
    assert(f3@.blast_radius =~= Seq::<Seq<char>>::empty());
    push_finding_if(&mut out, has_flags, f3);
    let account: String = match spec.get_str("serviceAccountName") {
        Some(a) => a.clone(),
        None => "default".to_owned(),
    };
    let system = match &o.namespace {
        Some(ns) => system_namespace(ns.as_str()),
        None => false,
    };
    let uses_default = str_eq(account.as_str(), "default") && !system;
    assert(account@ == spec_account(spec@));
    assert(uses_default == (spec_account(spec@) == "default"@ && !system_namespace_opt(ns_of(*o))));
    let entries_f4 = vec![("service_account", JsonValue::Str(account))];
    assert(pairs_model(entries_f4@) =~= seq![("service_account"@, Json::Str(spec_account(spec@)))]);
    let attributes_f4 = json_record(entries_f4);
    let f4 = finding(
        "default_service_account_used",
        "medium",
        o,
        label_then(o, "", " uses the default service account."),
        "Create a workload-specific service account with only the RBAC permissions this workload needs.",
        attributes_f4,
        Vec::new(),
    );
    assert(f4@.reason =~= label(*o) + " uses the default service account."@);
    assert(f4@.blast_radius =~= Seq::<Seq<char>>::empty());
    push_finding_if(&mut out, uses_default, f4);
    assert(views(out@) =~= pod_expected(*o, spec@));
    out
}


/// `j` itself, or JSON null when absent.
pub open spec fn or_null(j: Option<Json>) -> Json {
    crate::json::or_null(j)
}

/// The pods of `objects` that a service's selector selects, by uid, in
/// order; a service without a selector selects none.
pub open spec fn selected_uids(objects: Seq<K8sObject>, service: K8sObject) -> Seq<Seq<char>>
    decreases objects.len(),
{
    if objects.len() == 0 {
        Seq::empty()
    } else {
        let prev = selected_uids(objects.drop_last(), service);
        let p = objects.last();
        let chosen = match selector_spec(service) {
            Some(sel) => p.kind@ == "Pod"@ && ns_of(p) == ns_of(service) && selector_matches_spec(sel, pairs_map(p.labels@)),
            None => false,
        };
        if chosen {
            prev.push(p.cloud_uid@)
        } else {
            prev
        }
    }
}

/// The type of a service, `ClusterIP` when it sets none.
pub open spec fn service_type(o: K8sObject) -> Seq<char> {
    match pointer_str_spec(o.value@, path2("spec"@, "type"@)) {
        Some(t) => t,
        None => "ClusterIP"@,
    }
}

/// A LoadBalancer or NodePort service is reachable from outside the cluster.
pub open spec fn service_expected(objects: Seq<K8sObject>, o: K8sObject) -> Seq<FindingView> {
    let t = service_type(o);
    opt_finding(
        t == "LoadBalancer"@ || t == "NodePort"@,
        finding_view(
            "public_service"@,
            if t == "LoadBalancer"@ { "high"@ } else { "medium"@ },
            o,
            "Service "@ + label(o) + " is type "@ + t + "."@,
            "Confirm the service is intentionally reachable outside the cluster and restrict source ranges where supported."@,
            Json::Object(seq![("type"@, Json::Str(t)), ("ports"@, or_null(json_pointer(o.value@, path2("spec"@, "ports"@))))]),
            selected_uids(objects, o),
        ),
    )
}

/// The findings about a service.
pub fn service_findings(objects: &Vec<K8sObject>, o: &K8sObject) -> (r: Vec<K8sFinding>)
    requires
        all_wf(objects@),
    ensures
        views(r@) == service_expected(objects@, *o),
{
    broadcast use crate::json::group_json_view;

    let mut out: Vec<K8sFinding> = Vec::new();
    assert(views(out@) =~= Seq::<FindingView>::empty());
    let service_type_text: String = match ptr_str2(&o.value, "spec", "type") {
        Some(t) => t.clone(),
        None => "ClusterIP".to_owned(),
    };
    let is_lb = str_eq(service_type_text.as_str(), "LoadBalancer");
    let public = is_lb || str_eq(service_type_text.as_str(), "NodePort");
    if !public {
        assert(views(out@) =~= service_expected(objects@, *o));
        return out;
    }
    let selector: Option<&Vec<(String, JsonValue)>> = match ptr2(&o.value, "spec", "selector") {
        Some(v) => v.as_object(),
        None => None,
    };
    let mut blast: Vec<String> = Vec::new();
    let mut i: usize = 0;
    assert(objects@.take(0) =~= Seq::<K8sObject>::empty());
    while i < objects.len()
        invariant
            i <= objects@.len(),
            all_wf(objects@),
            match selector {
                Some(sel) => selector_spec(*o) == Some(entries_view(sel@)),
                None => selector_spec(*o) is None,
            },
            crate::order::texts(blast@) == selected_uids(objects@.take(i as int), *o),
        decreases objects@.len() - i,
    {
        let p = &objects[i];
        assert(objects@.take(i + 1).drop_last() =~= objects@.take(i as int));
        assert(objects@.take(i + 1).last() == objects@[i as int]);
        assert(object_wf(objects@[i as int]));
        let chosen = match selector {
            Some(sel) => str_eq(p.kind.as_str(), "Pod") && same_namespace(&p.namespace, &o.namespace)
                && selector_matches(sel, &p.labels),
            None => false,
        };
        if chosen {
            let ghost before = blast@;
            blast.push(p.cloud_uid.clone());
            assert(crate::order::texts(blast@) =~= crate::order::texts(before).push(p.cloud_uid@));
        }
        i += 1;
    }
    assert(objects@.take(i as int) =~= objects@);
    let ports = match ptr2(&o.value, "spec", "ports") {
        Some(v) => clone_json(v),
        None => JsonValue::Null,
    };
    let entries = vec![("type", JsonValue::Str(service_type_text.clone())), ("ports", ports)];
    assert(pairs_model(entries@) =~= seq![("type"@, Json::Str(service_type(*o))), ("ports"@, or_null(json_pointer(o.value@, path2("spec"@, "ports"@))))]);
    let attributes = json_record(entries);
    let mut reason = "Service ".to_owned();
    let lbl = object_label(o);
    reason.append(lbl.as_str());
    reason.append(" is type ");
    reason.append(service_type_text.as_str());
    reason.append(".");
    let f = finding(
        "public_service",
        if is_lb { "high" } else { "medium" },
        o,
        reason,
        "Confirm the service is intentionally reachable outside the cluster and restrict source ranges where supported.",
        attributes,
        blast,
    );
    out.push(f);
    assert(views(out@) =~= service_expected(objects@, *o));
    out
}

/// An ingress can expose workloads outside the cluster.
pub open spec fn ingress_expected(o: K8sObject) -> Seq<FindingView> {
    seq![
        finding_view(
            "public_ingress"@,
            "high"@,
            o,
            "Ingress "@ + label(o) + " can expose cluster workloads externally."@,
            "Review ingress class, hosts, and upstream services; restrict public exposure if not intended."@,
            Json::Object(seq![("rules"@, or_null(json_pointer(o.value@, path2("spec"@, "rules"@))))]),
            Seq::empty(),
        ),
    ]
}

/// The finding about an ingress.
pub fn ingress_findings(o: &K8sObject) -> (r: Vec<K8sFinding>)
    ensures
        views(r@) == ingress_expected(*o),
{
    let rules = match ptr2(&o.value, "spec", "rules") {
        Some(v) => clone_json(v),
        None => JsonValue::Null,
    };
    let entries = vec![("rules", rules)];
    assert(pairs_model(entries@) =~= seq![("rules"@, or_null(json_pointer(o.value@, path2("spec"@, "rules"@))))]);
    let attributes = json_record(entries);
    let reason = label_then(o, "Ingress ", " can expose cluster workloads externally.");
    let f = finding(
        "public_ingress",
        "high",
        o,
        reason,
        "Review ingress class, hosts, and upstream services; restrict public exposure if not intended.",
        attributes,
        Vec::new(),
    );
    assert(f@.blast_radius =~= Seq::<Seq<char>>::empty());
    let out = vec![f];
    assert(views(out@) =~= ingress_expected(*o));
    out
}

/// A rule grants every verb on every resource.
pub open spec fn admin_like(rule: Json) -> bool {
    crate::json::array_contains_spec(rule, "verbs"@, "*"@) && crate::json::array_contains_spec(rule, "resources"@, "*"@)
}

/// A rule grants every verb or every resource.
pub open spec fn overbroad(rule: Json) -> bool {
    admin_like(rule) || crate::json::array_contains_spec(rule, "verbs"@, "*"@) || crate::json::array_contains_spec(
        rule,
        "resources"@,
        "*"@,
    )
}

/// The overbroad rules, in order.
pub open spec fn wildcard_rules(rules: Seq<Json>) -> Seq<Json>
    decreases rules.len(),
{
    if rules.len() == 0 {
        Seq::empty()
    } else {
        let prev = wildcard_rules(rules.drop_last());
        if overbroad(rules.last()) {
            prev.push(rules.last())
        } else {
            prev
        }
    }
}

/// Whether one of the rules is admin-like.
pub open spec fn any_admin_like(rules: Seq<Json>) -> bool {
    exists|i: int| 0 <= i < rules.len() && admin_like(#[trigger] rules[i])
}

/// A role with wildcard rules; critical when one of them grants everything.
pub open spec fn role_expected(o: K8sObject) -> Seq<FindingView> {
    match crate::json::json_array(json_get(o.value@, "rules"@)) {
        Some(rules) => {
            let wild = wildcard_rules(rules);
            opt_finding(
                wild.len() > 0,
                finding_view(
                    "overbroad_rbac"@,
                    if any_admin_like(wild) { "critical"@ } else { "high"@ },
                    o,
                    label(o) + " grants wildcard RBAC permissions."@,
                    "Replace wildcard verbs/resources with the minimum API groups, resources, verbs, and resource names required."@,
                    Json::Object(seq![("rules"@, Json::Array(wild))]),
                    Seq::empty(),
                ),
            )
        },
        None => Seq::empty(),
    }
}

/// The findings about a Role or ClusterRole.
pub fn rbac_role_findings(o: &K8sObject) -> (r: Vec<K8sFinding>)
    ensures
        views(r@) == role_expected(*o),
{
    broadcast use crate::json::group_json_view;

    let mut out: Vec<K8sFinding> = Vec::new();
    assert(views(out@) =~= Seq::<FindingView>::empty());
    let rules = match o.value.get("rules") {
        Some(v) => match v.as_array() {
            Some(items) => items,
            None => {
                return out;
            },
        },
        None => {
            return out;
        },
    };
    let ghost rv = crate::json::items_view(rules@);
    proof {
        crate::json::lemma_items_view_len(rules@);
    }
    let mut wild: Vec<JsonValue> = Vec::new();
    let mut critical = false;
    let mut i: usize = 0;
    assert(rv.take(0) =~= Seq::<Json>::empty());
    assert(crate::json::items_view(wild@) =~= wildcard_rules(rv.take(0)));
    while i < rules.len()
        invariant
            i <= rules@.len(),
            rv == crate::json::items_view(rules@),
            rv.len() == rules@.len(),
            crate::json::items_view(wild@) == wildcard_rules(rv.take(i as int)),
            critical == any_admin_like(wildcard_rules(rv.take(i as int))),
        decreases rules@.len() - i,
    {
        let rule = &rules[i];
        proof {
            crate::json::lemma_items_view_index(rules@, i as int);
        }
        assert(rv.take(i + 1).drop_last() =~= rv.take(i as int));
        assert(rv.take(i + 1).last() == rule@);
        let verbs = crate::json::array_contains(rule, "verbs", "*");
        let resources = crate::json::array_contains(rule, "resources", "*");
        let ghost prev = wildcard_rules(rv.take(i as int));
        if verbs || resources {
            let ghost before = wild@;
            wild.push(clone_json(rule));
            assert(wild@.drop_last() =~= before);
            assert(crate::json::items_view(wild@) == crate::json::items_view(before).push(rule@));
            let ghost now = wildcard_rules(rv.take(i + 1));
            assert(now == prev.push(rule@));
            if verbs && resources {
                assert(now[now.len() - 1] == rule@);
                assert(admin_like(now[now.len() - 1]));
                critical = true;
            } else {
                assert forall|k: int| 0 <= k < now.len() && admin_like(#[trigger] now[k]) implies any_admin_like(prev) by {
                    if k < prev.len() {
                        assert(now[k] == prev[k]);
                    }
                }
                proof {
                    if any_admin_like(prev) {
                        let k = choose|k: int| 0 <= k < prev.len() && admin_like(#[trigger] prev[k]);
                        assert(now[k] == prev[k]);
                    }
                }
            }
        } else {
            assert(wildcard_rules(rv.take(i + 1)) == prev);
        }
        i += 1;
    }
    assert(rv.take(i as int) =~= rv);
    if wild.len() == 0 {
        proof {
            crate::json::lemma_items_view_len(wild@);
        }
        assert(views(out@) =~= role_expected(*o));
        return out;
    }
    proof {
        crate::json::lemma_items_view_len(wild@);
    }
    let entries = vec![("rules", JsonValue::Array(wild))];
    assert(pairs_model(entries@) =~= seq![("rules"@, Json::Array(wildcard_rules(rv)))]);
    let attributes = json_record(entries);
    let reason = label_then(o, "", " grants wildcard RBAC permissions.");
    proof {
        reveal_strlit("");
    }
    let f = finding(
        "overbroad_rbac",
        if critical { "critical" } else { "high" },
        o,
        reason,
        "Replace wildcard verbs/resources with the minimum API groups, resources, verbs, and resource names required.",
        attributes,
        Vec::new(),
    );
    assert(f@.blast_radius =~= Seq::<Seq<char>>::empty());
    assert(f@.reason =~= label(*o) + " grants wildcard RBAC permissions."@);
    out.push(f);
    assert(views(out@) =~= role_expected(*o));
    out
}

/// The service accounts a binding's subjects name that are found, by uid, in order.
pub open spec fn binding_blast(objects: Seq<K8sObject>, binding: K8sObject, subjects: Seq<Json>) -> Seq<Seq<char>>
    decreases subjects.len(),
{
    if subjects.len() == 0 {
        Seq::empty()
    } else {
        let prev = binding_blast(objects, binding, subjects.drop_last());
        let sub = subjects.last();
        if str_field_spec(sub, "kind"@) == Some("ServiceAccount"@) && str_field_spec(sub, "name"@) is Some {
            match lookup_key_spec(objects, "ServiceAccount"@, subject_ns(binding, sub), str_field_spec(sub, "name"@)->0) {
                Some(u) => prev.push(u),
                None => prev,
            }
        } else {
            prev
        }
    }
}

/// A binding to `cluster-admin`; its blast radius is the service accounts it binds.
pub open spec fn binding_expected(objects: Seq<K8sObject>, o: K8sObject) -> Seq<FindingView> {
    let role_name = match pointer_str_spec(o.value@, path2("roleRef"@, "name"@)) {
        Some(n) => n,
        None => Seq::empty(),
    };
    opt_finding(
        role_name == "cluster-admin"@,
        finding_view(
            "cluster_admin_binding"@,
            "critical"@,
            o,
            label(o) + " binds subjects to cluster-admin."@,
            "Remove cluster-admin from workload identities and bind narrow roles to explicit service accounts."@,
            Json::Object(seq![("role_ref"@, or_null(json_get(o.value@, "roleRef"@))), ("subjects"@, or_null(json_get(o.value@, "subjects"@)))]),
            binding_blast(objects, o, arr(json_get(o.value@, "subjects"@))),
        ),
    )
}

/// The findings about a RoleBinding or ClusterRoleBinding.
pub fn rbac_binding_findings(objects: &Vec<K8sObject>, o: &K8sObject) -> (r: Vec<K8sFinding>)
    ensures
        views(r@) == binding_expected(objects@, *o),
{
    broadcast use crate::json::group_json_view;

    let mut out: Vec<K8sFinding> = Vec::new();
    assert(views(out@) =~= Seq::<FindingView>::empty());
    let role_name: String = match ptr_str2(&o.value, "roleRef", "name") {
        Some(n) => n.clone(),
        None => String::new(),
    };
    if !str_eq(role_name.as_str(), "cluster-admin") {
        assert(views(out@) =~= binding_expected(objects@, *o));
        return out;
    }
    let binding_ns = opt_as_str(&o.namespace);
    let mut blast: Vec<String> = Vec::new();
    match items_of(o.value.get("subjects")) {
        Some(subjects) => {
            let ghost sv = crate::json::items_view(subjects@);
            proof {
                crate::json::lemma_items_view_len(subjects@);
            }
            let mut i: usize = 0;
            assert(sv.take(0) =~= Seq::<Json>::empty());
            assert(crate::order::texts(blast@) =~= binding_blast(objects@, *o, sv.take(0)));
            while i < subjects.len()
                invariant
                    i <= subjects@.len(),
                    sv == crate::json::items_view(subjects@),
                    sv.len() == subjects@.len(),
                    sv == arr(json_get(o.value@, "subjects"@)),
                    binding_ns matches Some(n) ==> ns_of(*o) == Some(n@),
                    binding_ns is None ==> o.namespace is None,
                    crate::order::texts(blast@) == binding_blast(objects@, *o, sv.take(i as int)),
                decreases subjects@.len() - i,
            {
                let subject = &subjects[i];
                proof {
                    crate::json::lemma_items_view_index(subjects@, i as int);
                }
                assert(sv.take(i + 1).drop_last() =~= sv.take(i as int));
                assert(sv.take(i + 1).last() == subject@);
                let is_service_account = match subject.get_str("kind") {
                    Some(k) => str_eq(k.as_str(), "ServiceAccount"),
                    None => false,
                };
                if is_service_account {
                    match subject.get_str("name") {
                        Some(name) => {
                            let namespace: Option<&str> = match subject.get_str("namespace") {
                                Some(ns) => Some(ns.as_str()),
                                None => binding_ns,
                            };
                            match lookup_object(objects, "ServiceAccount", namespace, name.as_str()) {
                                Some(u) => {
                                    let ghost before = blast@;
                                    blast.push(u);
                                    assert(crate::order::texts(blast@) =~= crate::order::texts(before).push(blast@.last()@));
                                },
                                None => {},
                            }
                        },
                        None => {},
                    }
                }
                i += 1;
            }
            assert(sv.take(i as int) =~= sv);
        },
        None => {
            assert(crate::order::texts(blast@) =~= binding_blast(objects@, *o, Seq::<Json>::empty()));
        },
    }
    let role_ref = match o.value.get("roleRef") {
        Some(v) => clone_json(v),
        None => JsonValue::Null,
    };
    let subjects_json = match o.value.get("subjects") {
        Some(v) => clone_json(v),
        None => JsonValue::Null,
    };
    let entries = vec![("role_ref", role_ref), ("subjects", subjects_json)];
    assert(pairs_model(entries@) =~= seq![("role_ref"@, or_null(json_get(o.value@, "roleRef"@))), ("subjects"@, or_null(json_get(o.value@, "subjects"@)))]);
    let attributes = json_record(entries);
    let reason = label_then(o, "", " binds subjects to cluster-admin.");
    proof {
        reveal_strlit("");
    }
    let f = finding(
        "cluster_admin_binding",
        "critical",
        o,
        reason,
        "Remove cluster-admin from workload identities and bind narrow roles to explicit service accounts.",
        attributes,
        blast,
    );
    assert(f@.reason =~= label(*o) + " binds subjects to cluster-admin."@);
    out.push(f);
    assert(views(out@) =~= binding_expected(objects@, *o));
    out
}

/// The type of a secret, `Opaque` when it sets none.
pub open spec fn secret_type(o: K8sObject) -> Seq<char> {
    match str_field_spec(o.value@, "type"@) {
        Some(t) => t,
        None => "Opaque"@,
    }
}

/// A persisted service-account token secret.
pub open spec fn secret_expected(o: K8sObject) -> Seq<FindingView> {
    opt_finding(
        secret_type(o) == "kubernetes.io/service-account-token"@,
        finding_view(
            "legacy_service_account_token_secret"@,
            "medium"@,
            o,
            label(o) + " is a persisted service-account token Secret."@,
            "Prefer projected bound service-account tokens and verify Secret encryption at rest and RBAC access."@,
            Json::Object(seq![("type"@, Json::Str(secret_type(o)))]),
            Seq::empty(),
        ),
    )
}

/// The findings about a secret.
pub fn secret_findings(o: &K8sObject) -> (r: Vec<K8sFinding>)
    ensures
        views(r@) == secret_expected(*o),
{
    let mut out: Vec<K8sFinding> = Vec::new();
    assert(views(out@) =~= Seq::<FindingView>::empty());
    let secret_type_text: String = match o.value.get_str("type") {
        Some(t) => t.clone(),
        None => "Opaque".to_owned(),
    };
    if !str_eq(secret_type_text.as_str(), "kubernetes.io/service-account-token") {
        assert(views(out@) =~= secret_expected(*o));
        return out;
    }
    let entries = vec![("type", JsonValue::Str(secret_type_text))];
    assert(pairs_model(entries@) =~= seq![("type"@, Json::Str(secret_type(*o)))]);
    let attributes = json_record(entries);
    let reason = label_then(o, "", " is a persisted service-account token Secret.");
    proof {
        reveal_strlit("");
    }
    let f = finding(
        "legacy_service_account_token_secret",
        "medium",
        o,
        reason,
        "Prefer projected bound service-account tokens and verify Secret encryption at rest and RBAC access.",
        attributes,
        Vec::new(),
    );
    assert(f@.blast_radius =~= Seq::<Seq<char>>::empty());
    assert(f@.reason =~= label(*o) + " is a persisted service-account token Secret."@);
    out.push(f);
    assert(views(out@) =~= secret_expected(*o));
    out
}


/// The kinds that should carry ownership metadata outside system namespaces.
pub open spec fn unmanaged_candidate(o: K8sObject) -> bool {
    let k = o.kind@;
    &&& !system_namespace_opt(ns_of(o))
    &&& (k == "Namespace"@ || k == "Deployment"@ || k == "DaemonSet"@ || k == "StatefulSet"@ || k == "Service"@
        || k == "Ingress"@ || k == "NetworkPolicy"@ || k == "ServiceAccount"@ || k == "Role"@ || k == "RoleBinding"@
        || k == "ClusterRoleBinding"@ || k == "Secret"@ || k == "ConfigMap"@ || k == "PersistentVolumeClaim"@
        || k == "StorageClass"@)
}

/// The label keys that name the tool managing an object.
pub open spec fn managed_by_keys() -> Seq<Seq<char>> {
    seq!["app.kubernetes.io/managed-by"@, "managed-by"@, "ManagedBy"@]
}

/// Whether an object carries Helm, Kustomize, Terraform or GitOps ownership metadata.
pub open spec fn iac_managed(o: K8sObject) -> bool {
    let managed_by = match first_label_spec(pairs_map(o.labels@), managed_by_keys()) {
        Some(m) => m,
        None => Seq::empty(),
    };
    let annotations = pairs_map(o.annotations@);
    managed_by == "Helm"@ || managed_by == "helm"@ || managed_by == "Terraform"@ || managed_by == "terraform"@
        || managed_by == "Kustomize"@ || managed_by == "kustomize"@ || annotations.contains_key("meta.helm.sh/release-name"@)
        || annotations.contains_key("kustomize.toolkit.fluxcd.io/name"@) || annotations.contains_key(
        "config.kubernetes.io/owning-inventory"@,
    )
}

/// Whether an object is a candidate for the ownership check.
pub fn is_unmanaged_candidate(o: &K8sObject) -> (r: bool)
    ensures
        r == unmanaged_candidate(*o),
{
    let system = match &o.namespace {
        Some(ns) => system_namespace(ns.as_str()),
        None => false,
    };
    if system {
        return false;
    }
    let k = o.kind.as_str();
    str_eq(k, "Namespace") || str_eq(k, "Deployment") || str_eq(k, "DaemonSet") || str_eq(k, "StatefulSet")
        || str_eq(k, "Service") || str_eq(k, "Ingress") || str_eq(k, "NetworkPolicy") || str_eq(k, "ServiceAccount")
        || str_eq(k, "Role") || str_eq(k, "RoleBinding") || str_eq(k, "ClusterRoleBinding") || str_eq(k, "Secret")
        || str_eq(k, "ConfigMap") || str_eq(k, "PersistentVolumeClaim") || str_eq(k, "StorageClass")
}

/// Whether an object carries ownership metadata.
pub fn has_iac_manager(o: &K8sObject) -> (r: bool)
    requires
        object_wf(*o),
    ensures
        r == iac_managed(*o),
{
    let keys = ["app.kubernetes.io/managed-by", "managed-by", "ManagedBy"];
    assert(keys@.map_values(|k: &str| k@) =~= managed_by_keys());
    let managed_by: String = match first_label(&o.labels, &keys) {
        Some(m) => m,
        None => String::new(),
    };
    proof {
        reveal_strlit("");
    }
    let m = managed_by.as_str();
    str_eq(m, "Helm") || str_eq(m, "helm") || str_eq(m, "Terraform") || str_eq(m, "terraform") || str_eq(m, "Kustomize")
        || str_eq(m, "kustomize") || pairs_get(&o.annotations, "meta.helm.sh/release-name").is_some()
        || pairs_get(&o.annotations, "kustomize.toolkit.fluxcd.io/name").is_some() || pairs_get(
        &o.annotations,
        "config.kubernetes.io/owning-inventory",
    ).is_some()
}

/// The labels of an object as a JSON object.
pub open spec fn labels_json(labels: Seq<(String, String)>) -> Json {
    Json::Object(labels.map_values(|p: (String, String)| (p.0@, Json::Str(p.1@))))
}

/// The keys of an object's annotations, in order.
pub open spec fn annotation_keys_spec(annotations: Seq<(String, String)>) -> Seq<Seq<char>> {
    annotations.map_values(|p: (String, String)| p.0@)
}

/// An object without ownership metadata.
pub open spec fn unmanaged_expected(o: K8sObject) -> Seq<FindingView> {
    opt_finding(
        unmanaged_candidate(o) && !iac_managed(o),
        finding_view(
            "unmanaged_kubernetes_resource"@,
            "medium"@,
            o,
            label(o) + " has no Helm, Kustomize, Terraform, or GitOps ownership metadata."@,
            "Add ownership labels/annotations or reconcile this resource into the intended deployment system."@,
            Json::Object(seq![("labels"@, labels_json(o.labels@)), ("annotations"@, text_array(annotation_keys_spec(o.annotations@)))]),
            Seq::empty(),
        ),
    )
}

/// The labels of an object as a JSON object.
pub fn labels_value(labels: &Vec<(String, String)>) -> (r: JsonValue)
    ensures
        r@ == labels_json(labels@),
{
    broadcast use crate::json::group_json_view;

    let mut out: Vec<(String, JsonValue)> = Vec::new();
    let mut i: usize = 0;
    while i < labels.len()
        invariant
            i <= labels@.len(),
            out@.len() == i,
            forall|j: int| 0 <= j < i ==> (#[trigger] out@[j]).0@ == labels@[j].0@ && out@[j].1@ == Json::Str(labels@[j].1@),
        decreases labels@.len() - i,
    {
        out.push((labels[i].0.clone(), JsonValue::Str(labels[i].1.clone())));
        i += 1;
    }
    assert(entries_view(out@) =~= labels@.map_values(|p: (String, String)| (p.0@, Json::Str(p.1@))));
    JsonValue::Object(out)
}

/// The keys of an object's annotations.
pub fn annotation_keys(annotations: &Vec<(String, String)>) -> (r: Vec<String>)
    ensures
        crate::order::texts(r@) == annotation_keys_spec(annotations@),
{
    let mut out: Vec<String> = Vec::new();
    let mut i: usize = 0;
    while i < annotations.len()
        invariant
            i <= annotations@.len(),
            out@.len() == i,
            forall|j: int| 0 <= j < i ==> (#[trigger] out@[j])@ == annotations@[j].0@,
        decreases annotations@.len() - i,
    {
        out.push(annotations[i].0.clone());
        i += 1;
    }
    assert(crate::order::texts(out@) =~= annotation_keys_spec(annotations@));
    out
}

/// The findings about an object without ownership metadata.
pub fn unmanaged_findings(o: &K8sObject) -> (r: Vec<K8sFinding>)
    requires
        object_wf(*o),
    ensures
        views(r@) == unmanaged_expected(*o),
{
    let mut out: Vec<K8sFinding> = Vec::new();
    assert(views(out@) =~= Seq::<FindingView>::empty());
    if !is_unmanaged_candidate(o) || has_iac_manager(o) {
        assert(views(out@) =~= unmanaged_expected(*o));
        return out;
    }
    let keys = annotation_keys(&o.annotations);
    let keys_json = strings_json(&keys);
    let entries = vec![("labels", labels_value(&o.labels)), ("annotations", keys_json)];
    assert(pairs_model(entries@) =~= seq![("labels"@, labels_json(o.labels@)), ("annotations"@, text_array(annotation_keys_spec(o.annotations@)))]);
    let attributes = json_record(entries);
    let reason = label_then(o, "", " has no Helm, Kustomize, Terraform, or GitOps ownership metadata.");
    proof {
        reveal_strlit("");
    }
    let f = finding(
        "unmanaged_kubernetes_resource",
        "medium",
        o,
        reason,
        "Add ownership labels/annotations or reconcile this resource into the intended deployment system.",
        attributes,
        Vec::new(),
    );
    assert(f@.blast_radius =~= Seq::<Seq<char>>::empty());
    assert(f@.reason =~= label(*o) + " has no Helm, Kustomize, Terraform, or GitOps ownership metadata."@);
    out.push(f);
    assert(views(out@) =~= unmanaged_expected(*o));
    out
}

/// The kinds whose objects carry a pod template.
pub open spec fn is_workload_kind(kind: Seq<char>) -> bool {
    kind == "Deployment"@ || kind == "DaemonSet"@ || kind == "StatefulSet"@ || kind == "ReplicaSet"@
}

/// The pod spec of a pod or of a workload's pod template.
pub open spec fn pod_spec_of(o: K8sObject) -> Option<Json> {
    if o.kind@ == "Pod"@ {
        json_get(o.value@, "spec"@)
    } else if is_workload_kind(o.kind@) {
        json_pointer(o.value@, path3("spec"@, "template"@, "spec"@))
    } else {
        None
    }
}

/// The pod spec of a pod or of a workload's pod template.
pub fn pod_spec(o: &K8sObject) -> (r: Option<&JsonValue>)
    ensures
        match r {
            Some(v) => pod_spec_of(*o) == Some(v@),
            None => pod_spec_of(*o) is None,
        },
{
    let k = o.kind.as_str();
    if str_eq(k, "Pod") {
        return o.value.get("spec");
    }
    if str_eq(k, "Deployment") || str_eq(k, "DaemonSet") || str_eq(k, "StatefulSet") || str_eq(k, "ReplicaSet") {
        let path = ["spec", "template", "spec"];
        assert(path@.map_values(|p: &str| p@) =~= path3("spec"@, "template"@, "spec"@));
        return o.value.pointer(&path);
    }
    None
}

/// The findings a kind of object gives by itself.
pub open spec fn kind_expected(objects: Seq<K8sObject>, o: K8sObject) -> Seq<FindingView> {
    let k = o.kind@;
    if k == "Service"@ {
        service_expected(objects, o)
    } else if k == "Ingress"@ {
        ingress_expected(o)
    } else if k == "Role"@ || k == "ClusterRole"@ {
        role_expected(o)
    } else if k == "RoleBinding"@ || k == "ClusterRoleBinding"@ {
        binding_expected(objects, o)
    } else if k == "Secret"@ {
        secret_expected(o)
    } else {
        Seq::empty()
    }
}

/// The findings about one object: its pod spec, its kind, and its ownership.
pub open spec fn object_expected(objects: Seq<K8sObject>, o: K8sObject) -> Seq<FindingView> {
    (match pod_spec_of(o) {
        Some(spec) => pod_expected(o, spec),
        None => Seq::empty(),
    }) + kind_expected(objects, o) + unmanaged_expected(o)
}

/// The findings about each object of `prefix`, in order.
pub open spec fn objects_expected(objects: Seq<K8sObject>, prefix: Seq<K8sObject>) -> Seq<FindingView>
    decreases prefix.len(),
{
    if prefix.len() == 0 {
        Seq::empty()
    } else {
        objects_expected(objects, prefix.drop_last()) + object_expected(objects, prefix.last())
    }
}

fn append_findings(out: &mut Vec<K8sFinding>, more: Vec<K8sFinding>)
    ensures
        views(final(out)@) == views(old(out)@) + views(more@),
{
    let mut more = more;
    let ghost a = views(out@);
    let ghost b = views(more@);
    out.append(&mut more);
    assert(views(out@) =~= a + b);
}

/// The findings about each object, in order.
#[verifier::spinoff_prover]
#[verifier::rlimit(40)]
pub fn object_findings(objects: &Vec<K8sObject>) -> (r: Vec<K8sFinding>)
    requires
        all_wf(objects@),
    ensures
        views(r@) == objects_expected(objects@, objects@),
{
    let mut out: Vec<K8sFinding> = Vec::new();
    let mut i: usize = 0;
    assert(objects@.take(0) =~= Seq::<K8sObject>::empty());
    assert(views(out@) =~= objects_expected(objects@, objects@.take(0)));
    while i < objects.len()
        invariant
            i <= objects@.len(),
            all_wf(objects@),
            views(out@) == objects_expected(objects@, objects@.take(i as int)),
        decreases objects@.len() - i,
    {
        let o = &objects[i];
        assert(objects@.take(i + 1).drop_last() =~= objects@.take(i as int));
        assert(objects@.take(i + 1).last() == objects@[i as int]);
        assert(object_wf(objects@[i as int]));
        let ghost start = views(out@);
        match pod_spec(o) {
            Some(spec) => {
                append_findings(&mut out, pod_spec_findings(o, spec));
            },
            None => {
                assert(views(out@) =~= start + Seq::<FindingView>::empty());
            },
        }
        let ghost mid = views(out@);
        let k = o.kind.as_str();
        if str_eq(k, "Service") {
            append_findings(&mut out, service_findings(objects, o));
        } else if str_eq(k, "Ingress") {
            append_findings(&mut out, ingress_findings(o));
        } else if str_eq(k, "Role") || str_eq(k, "ClusterRole") {
            append_findings(&mut out, rbac_role_findings(o));
        } else if str_eq(k, "RoleBinding") || str_eq(k, "ClusterRoleBinding") {
            append_findings(&mut out, rbac_binding_findings(objects, o));
        } else if str_eq(k, "Secret") {
            append_findings(&mut out, secret_findings(o));
        } else {
            assert(views(out@) =~= mid + Seq::<FindingView>::empty());
        }
        append_findings(&mut out, unmanaged_findings(o));
        assert(views(out@) =~= objects_expected(objects@, objects@.take(i + 1)));
        i += 1;
    }
    assert(objects@.take(i as int) =~= objects@);
    out
}


/// The namespaces that hold a pod.
pub open spec fn pod_namespaces(objects: Seq<K8sObject>) -> Set<Seq<char>> {
    Set::new(|ns: Seq<char>| exists|i: int| 0 <= i < objects.len() && #[trigger] objects[i].kind@ == "Pod"@ && ns_of(objects[i]) == Some(ns))
}

/// The namespaces that hold a NetworkPolicy.
pub open spec fn policy_namespaces(objects: Seq<K8sObject>) -> Set<Seq<char>> {
    Set::new(|ns: Seq<char>| exists|i: int| 0 <= i < objects.len() && #[trigger] objects[i].kind@ == "NetworkPolicy"@ && ns_of(objects[i]) == Some(ns))
}

/// The last object with the uid `uid`.
pub open spec fn last_with_uid(objects: Seq<K8sObject>, uid: Seq<char>) -> Option<K8sObject>
    decreases objects.len(),
{
    if objects.len() == 0 {
        None
    } else if objects.last().cloud_uid@ == uid {
        Some(objects.last())
    } else {
        last_with_uid(objects.drop_last(), uid)
    }
}

/// A namespace with pods but no NetworkPolicy, reported on its Namespace object.
pub open spec fn namespace_expected(objects: Seq<K8sObject>, ns: Seq<char>) -> Seq<FindingView> {
    if system_namespace_spec(ns) || policy_namespaces(objects).contains(ns) {
        Seq::empty()
    } else {
        match lookup_key_spec(objects, "Namespace"@, Seq::empty(), ns) {
            Some(uid) => match last_with_uid(objects, uid) {
                Some(o) => seq![
                    finding_view(
                        "missing_network_policy"@,
                        "medium"@,
                        o,
                        "Namespace "@ + ns + " has pods but no NetworkPolicy resources."@,
                        "Add default-deny and workload-specific NetworkPolicy resources for this namespace."@,
                        Json::Object(seq![("namespace"@, Json::Str(ns))]),
                        Seq::empty(),
                    ),
                ],
                None => Seq::empty(),
            },
            None => Seq::empty(),
        }
    }
}

/// The namespace findings for each namespace of `list`, in order.
pub open spec fn namespaces_expected(objects: Seq<K8sObject>, list: Seq<Seq<char>>) -> Seq<FindingView>
    decreases list.len(),
{
    if list.len() == 0 {
        Seq::empty()
    } else {
        namespaces_expected(objects, list.drop_last()) + namespace_expected(objects, list.last())
    }
}

/// The namespaces of the objects of kind `kind`, each once, sorted.
fn namespaces_of_kind(objects: &Vec<K8sObject>, kind: &str) -> (r: Vec<String>)
    ensures
        keys_sorted(r@),
        forall|x: Seq<char>| crate::order::seq_has(crate::order::texts(r@), x) <==> exists|i: int|
            0 <= i < objects@.len() && #[trigger] objects@[i].kind@ == kind@ && ns_of(objects@[i]) == Some(x),
{
    let mut found: Vec<String> = Vec::new();
    let mut i: usize = 0;
    while i < objects.len()
        invariant
            i <= objects@.len(),
            forall|x: Seq<char>| crate::order::seq_has(crate::order::texts(found@), x) <==> exists|j: int|
                0 <= j < i && #[trigger] objects@[j].kind@ == kind@ && ns_of(objects@[j]) == Some(x),
        decreases objects@.len() - i,
    {
        let o = &objects[i];
        let ghost before = found@;
        let ghost qualifies: Option<Seq<char>> = if o.kind@ == kind@ { ns_of(*o) } else { None };
        assert(forall|x: Seq<char>| crate::order::seq_has(crate::order::texts(before), x) <==> exists|j: int|
            0 <= j < i && #[trigger] objects@[j].kind@ == kind@ && ns_of(objects@[j]) == Some(x));
        if str_eq(o.kind.as_str(), kind) {
            match &o.namespace {
                Some(ns) => {
                    found.push(ns.clone());
                    assert(crate::order::texts(found@) =~= crate::order::texts(before).push(ns@));
                },
                None => {},
            }
        }
        proof {
            assert forall|x: Seq<char>| crate::order::seq_has(crate::order::texts(found@), x) <==> exists|j: int|
                0 <= j < i + 1 && #[trigger] objects@[j].kind@ == kind@ && ns_of(objects@[j]) == Some(x) by {
                let t = crate::order::texts(found@);
                let tb = crate::order::texts(before);
                if crate::order::seq_has(t, x) {
                    let k = choose|k: int| 0 <= k < t.len() && t[k] == x;
                    if k < tb.len() {
                        assert(tb[k] == x);
                        assert(crate::order::seq_has(tb, x));
                        let j = choose|j: int| 0 <= j < i && #[trigger] objects@[j].kind@ == kind@ && ns_of(objects@[j]) == Some(x);
                        assert(objects@[j].kind@ == kind@);
                    } else {
                        assert(qualifies == Some(x));
                        assert(objects@[i as int].kind@ == kind@);
                    }
                }
                if exists|j: int| 0 <= j < i + 1 && #[trigger] objects@[j].kind@ == kind@ && ns_of(objects@[j]) == Some(x) {
                    let j = choose|j: int| 0 <= j < i + 1 && #[trigger] objects@[j].kind@ == kind@ && ns_of(objects@[j]) == Some(x);
                    if j < i {
                        assert(objects@[j].kind@ == kind@);
                        assert(crate::order::seq_has(tb, x));
                        let k = choose|k: int| 0 <= k < tb.len() && tb[k] == x;
                        assert(t[k] == x);
                    } else {
                        assert(t[tb.len() as int] == x);
                    }
                }
            }
        }
        i += 1;
    }
    crate::order::sorted_distinct(found)
}

/// Whether a sorted list of texts holds `x`.
fn sorted_contains(list: &Vec<String>, x: &str) -> (r: bool)
    requires
        keys_sorted(list@),
    ensures
        r == crate::order::seq_has(crate::order::texts(list@), x@),
{
    match locate(list, x) {
        Ok(k) => {
            assert(crate::order::texts(list@)[k as int] == x@);
            true
        },
        Err(k) => {
            proof {
                if crate::order::seq_has(crate::order::texts(list@), x@) {
                    let j = choose|j: int| 0 <= j < crate::order::texts(list@).len() && crate::order::texts(list@)[j] == x@;
                    lemma_lt_irreflexive(x@);
                    if j < k {
                        assert(seq_lt(list@[j].key_spec(), x@));
                    } else {
                        assert(seq_lt(x@, list@[j].key_spec()));
                    }
                }
            }
            false
        },
    }
}

/// The last object with the uid `uid`.
fn find_last_with_uid(objects: &Vec<K8sObject>, uid: &str) -> (r: Option<usize>)
    ensures
        match r {
            Some(i) => i < objects@.len() && last_with_uid(objects@, uid@) == Some(objects@[i as int]),
            None => last_with_uid(objects@, uid@) is None,
        },
{
    let mut i: usize = objects.len();
    assert(objects@.take(i as int) =~= objects@);
    while i > 0
        invariant
            i <= objects@.len(),
            last_with_uid(objects@, uid@) == last_with_uid(objects@.take(i as int), uid@),
        decreases i,
    {
        assert(objects@.take(i as int).drop_last() =~= objects@.take(i - 1));
        assert(objects@.take(i as int).last() == objects@[i - 1]);
        if str_eq(objects[i - 1].cloud_uid.as_str(), uid) {
            return Some(i - 1);
        }
        i -= 1;
    }
    assert(objects@.take(0) =~= Seq::<K8sObject>::empty());
    None
}

/// The namespaces that hold pods but no NetworkPolicy, as findings in namespace order.
pub fn namespace_findings(objects: &Vec<K8sObject>) -> (r: Vec<K8sFinding>)
    ensures
        exists|l: Seq<Seq<char>>| sorted_set_of(l, pod_namespaces(objects@)) && views(r@) == namespaces_expected(objects@, l),
{
    let pods = namespaces_of_kind(objects, "Pod");
    let policies = namespaces_of_kind(objects, "NetworkPolicy");
    let ghost l = crate::order::texts(pods@);
    proof {
        assert forall|x: Seq<char>| crate::order::seq_has(l, x) <==> pod_namespaces(objects@).contains(x) by {
            if crate::order::seq_has(l, x) {
                let i = choose|i: int| 0 <= i < objects@.len() && #[trigger] objects@[i].kind@ == "Pod"@ && ns_of(objects@[i]) == Some(x);
            }
        }
        assert forall|x: Seq<char>| crate::order::seq_has(crate::order::texts(policies@), x) <==> policy_namespaces(objects@).contains(x) by {
            if crate::order::seq_has(crate::order::texts(policies@), x) {
                let i = choose|i: int| 0 <= i < objects@.len() && #[trigger] objects@[i].kind@ == "NetworkPolicy"@ && ns_of(objects@[i]) == Some(x);
            }
        }
    }
    let mut out: Vec<K8sFinding> = Vec::new();
    let mut i: usize = 0;
    assert(l.take(0) =~= Seq::<Seq<char>>::empty());
    assert(views(out@) =~= namespaces_expected(objects@, l.take(0)));
    while i < pods.len()
        invariant
            i <= pods@.len(),
            l == crate::order::texts(pods@),
            keys_sorted(policies@),
            forall|x: Seq<char>| crate::order::seq_has(crate::order::texts(policies@), x) <==> policy_namespaces(objects@).contains(x),
            views(out@) == namespaces_expected(objects@, l.take(i as int)),
        decreases pods@.len() - i,
    {
        let ns = &pods[i];
        assert(l.take(i + 1).drop_last() =~= l.take(i as int));
        assert(l.take(i + 1).last() == ns@);
        let ghost before = views(out@);
        if !system_namespace(ns.as_str()) && !sorted_contains(&policies, ns.as_str()) {
            match lookup_object(objects, "Namespace", None, ns.as_str()) {
                Some(uid) => match find_last_with_uid(objects, uid.as_str()) {
                    Some(k) => {
                        let o = &objects[k];
                        let mut reason = "Namespace ".to_owned();
                        reason.append(ns.as_str());
                        reason.append(" has pods but no NetworkPolicy resources.");
                        let entries = vec![("namespace", JsonValue::Str(ns.clone()))];
                        assert(pairs_model(entries@) =~= seq![("namespace"@, Json::Str(ns@))]);
                        let attributes = json_record(entries);
                        let f = finding(
                            "missing_network_policy",
                            "medium",
                            o,
                            reason,
                            "Add default-deny and workload-specific NetworkPolicy resources for this namespace.",
                            attributes,
                            Vec::new(),
                        );
                        assert(f@.blast_radius =~= Seq::<Seq<char>>::empty());
                        assert(f@.reason =~= "Namespace "@ + ns@ + " has pods but no NetworkPolicy resources."@);
                        out.push(f);
                        assert(views(out@) =~= before + seq![f@]);
                    },
                    None => {},
                },
                None => {},
            }
        }
        assert(views(out@) =~= namespaces_expected(objects@, l.take(i + 1)));
        i += 1;
    }
    assert(l.take(i as int) =~= l);
    assert forall|a: int, b: int| 0 <= a < b < l.len() implies seq_lt(l[a], l[b]) by {
        assert(l[a] == pods@[a].key_spec());
        assert(l[b] == pods@[b].key_spec());
    }
    assert(sorted_set_of(l, pod_namespaces(objects@)));
    out
}

/// `a` sorts no later than `b`: by severity rank, then type, then resource uid.
pub open spec fn fkey_le(a: FindingView, b: FindingView) -> bool {
    let ra = severity_rank_spec(a.severity);
    let rb = severity_rank_spec(b.severity);
    ra < rb || (ra == rb && (seq_lt(a.finding_type, b.finding_type) || (a.finding_type == b.finding_type
        && !seq_lt(b.resource_uid, a.resource_uid))))
}

/// The sort order of findings as a relation.
pub open spec fn finding_order() -> spec_fn(FindingView, FindingView) -> bool {
    |a: FindingView, b: FindingView| fkey_le(a, b)
}

/// Whether findings are in sort order.
pub open spec fn findings_sorted(s: Seq<FindingView>) -> bool {
    forall|i: int, j: int| 0 <= i < j < s.len() ==> fkey_le(s[i], s[j])
}

/// The sort order is total.
pub proof fn lemma_fkey_total(a: FindingView, b: FindingView)
    ensures
        fkey_le(a, b) || fkey_le(b, a),
{
    crate::order::lemma_lt_total(a.finding_type, b.finding_type);
    crate::order::lemma_lt_total(a.resource_uid, b.resource_uid);
}

/// The sort order is transitive.
pub proof fn lemma_fkey_transitive(a: FindingView, b: FindingView, c: FindingView)
    requires
        fkey_le(a, b),
        fkey_le(b, c),
    ensures
        fkey_le(a, c),
{
    crate::order::lemma_lt_total(a.finding_type, b.finding_type);
    crate::order::lemma_lt_total(b.finding_type, c.finding_type);
    crate::order::lemma_lt_total(a.finding_type, c.finding_type);
    crate::order::lemma_lt_total(a.resource_uid, b.resource_uid);
    crate::order::lemma_lt_total(b.resource_uid, c.resource_uid);
    crate::order::lemma_lt_total(a.resource_uid, c.resource_uid);
    if seq_lt(a.finding_type, b.finding_type) && seq_lt(b.finding_type, c.finding_type) {
        crate::order::lemma_lt_transitive(a.finding_type, b.finding_type, c.finding_type);
    }
    if seq_lt(c.resource_uid, b.resource_uid) && seq_lt(b.resource_uid, a.resource_uid) {
        crate::order::lemma_lt_transitive(c.resource_uid, b.resource_uid, a.resource_uid);
    }
    if seq_lt(a.resource_uid, b.resource_uid) && seq_lt(b.resource_uid, c.resource_uid) {
        crate::order::lemma_lt_transitive(a.resource_uid, b.resource_uid, c.resource_uid);
        crate::order::lemma_lt_irreflexive(a.resource_uid);
    }
    if seq_lt(c.resource_uid, a.resource_uid) {
        if a.resource_uid != b.resource_uid && b.resource_uid != c.resource_uid {
            if seq_lt(a.resource_uid, b.resource_uid) && seq_lt(b.resource_uid, c.resource_uid) {
                crate::order::lemma_lt_transitive(a.resource_uid, b.resource_uid, c.resource_uid);
            }
        }
    }
}

fn fkey_gt(a: &K8sFinding, b: &K8sFinding) -> (r: bool)
    ensures
        r == !fkey_le(a@, b@),
{
    let ra = severity_sort_rank(a.severity.as_str());
    let rb = severity_sort_rank(b.severity.as_str());
    if ra != rb {
        return ra > rb;
    }
    match crate::order::compare_str(a.finding_type.as_str(), b.finding_type.as_str()) {
        crate::order::Cmp::Less => false,
        crate::order::Cmp::Greater => {
            proof {
                crate::order::lemma_lt_total(a.finding_type@, b.finding_type@);
            }
            true
        },
        crate::order::Cmp::Equal => {
            match crate::order::compare_str(b.resource_uid.as_str(), a.resource_uid.as_str()) {
                crate::order::Cmp::Less => true,
                _ => false,
            }
        },
    }
}

/// The findings in sort order: by severity, then type, then resource uid,
/// findings with equal keys keeping their order.
pub fn sort_findings(findings: Vec<K8sFinding>) -> (r: Vec<K8sFinding>)
    ensures
        views(r@) == stable_sort_by(views(findings@), finding_order()),
        findings_sorted(views(r@)),
        views(r@).to_multiset() == views(findings@).to_multiset(),
{
    broadcast use vstd::seq_lib::group_to_multiset_ensures;
    broadcast use vstd::multiset::group_multiset_axioms;

    let mut input = findings;
    let ghost all = views(input@);
    let ghost mut done: int = 0;
    let mut out: Vec<K8sFinding> = Vec::new();
    assert(views(out@) =~= Seq::<FindingView>::empty());
    assert(all.skip(0) =~= all);
    while input.len() > 0
        invariant
            0 <= done <= all.len(),
            views(input@) == all.skip(done),
            views(out@) == stable_sort_by(all.take(done), finding_order()),
            findings_sorted(views(out@)),
            views(out@).to_multiset().add(views(input@).to_multiset()) == all.to_multiset(),
        decreases input@.len(),
    {
        let ghost in_before = views(input@);
        let x = input.remove(0);
        assert(views(input@) =~= in_before.remove(0));
        let ghost out_before = views(out@);
        let mut k: usize = out.len();
        assert(out_before.take(k as int) =~= out_before);
        while k > 0 && fkey_gt(&out[k - 1], &x)
            invariant
                k <= out@.len(),
                views(out@) == out_before,
                findings_sorted(out_before),
                forall|j: int| k <= j < out_before.len() ==> !fkey_le(#[trigger] out_before[j], x@),
                insertion_point(out_before, x@, finding_order()) == insertion_point(
                    out_before.take(k as int),
                    x@,
                    finding_order(),
                ),
            decreases k,
        {
            assert(out_before.take(k as int).drop_last() =~= out_before.take(k - 1));
            k -= 1;
        }
        proof {
            assert(out_before.take(k as int).len() == k);
            if k > 0 {
                assert(out_before.take(k as int).last() == out_before[k - 1]);
            }
            assert(insertion_point(out_before, x@, finding_order()) == k);
            assert(in_before[0] == all[done]);
            assert(all.take(done + 1).drop_last() =~= all.take(done));
            assert(all.take(done + 1).last() == all[done]);
            assert(all.skip(done).remove(0) =~= all.skip(done + 1));
        }
        proof {
            assert forall|j: int| 0 <= j < k implies fkey_le(#[trigger] out_before[j], x@) by {
                if k > 0 {
                    lemma_fkey_total(out_before[k - 1], x@);
                    if j < k - 1 {
                        lemma_fkey_transitive(out_before[j], out_before[k - 1], x@);
                    }
                }
            }
            assert forall|j: int| k <= j < out_before.len() implies fkey_le(x@, #[trigger] out_before[j]) by {
                lemma_fkey_total(out_before[j], x@);
            }
        }
        out.insert(k, x);
        proof {
            let now = views(out@);
            assert(now =~= out_before.insert(k as int, x@));
            assert forall|a: int, b: int| 0 <= a < b < now.len() implies fkey_le(now[a], now[b]) by {
                if a < k && b < k {
                } else if a < k && b == k {
                } else if a < k && b > k {
                    assert(now[b] == out_before[b - 1]);
                } else if a == k {
                    assert(now[b] == out_before[b - 1]);
                } else {
                    assert(now[a] == out_before[a - 1]);
                    assert(now[b] == out_before[b - 1]);
                }
            }
            assert(now.remove(k as int) =~= out_before);
            assert(now[k as int] == x@);
            now.to_multiset_ensures();
            in_before.to_multiset_ensures();
            assert(now.contains(x@));
            assert(now.to_multiset().count(x@) > 0);
            assert(out_before.to_multiset() == now.to_multiset().remove(x@));
            assert(now.to_multiset() =~= out_before.to_multiset().insert(x@));
            assert(in_before[0] == x@);
            assert(in_before.contains(x@));
            assert(in_before.to_multiset().count(x@) > 0);
            assert(views(input@).to_multiset() == in_before.to_multiset().remove(x@));
            assert(in_before.to_multiset() =~= views(input@).to_multiset().insert(x@));
            assert(now.to_multiset().add(views(input@).to_multiset()) =~= all.to_multiset());
            done = done + 1;
        }
    }
    assert(views(input@) =~= Seq::<FindingView>::empty());
    assert(all.take(done) =~= all);
    assert(views(out@).to_multiset() =~= all.to_multiset());
    out
}


/// The findings about the objects, in sort order: those about each object,
/// then the namespaces that lack network policies.
pub fn build_findings(objects: &Vec<K8sObject>) -> (r: Vec<K8sFinding>)
    requires
        all_wf(objects@),
    ensures
        findings_sorted(views(r@)),
        exists|l: Seq<Seq<char>>|
            {
                &&& sorted_set_of(l, pod_namespaces(objects@))
                &&& views(r@) == stable_sort_by(
                    objects_expected(objects@, objects@) + namespaces_expected(objects@, l),
                    finding_order(),
                )
                &&& views(r@).to_multiset() == (objects_expected(objects@, objects@) + namespaces_expected(
                    objects@,
                    l,
                )).to_multiset()
            },
        forall|ns: Seq<char>|
            (exists|i: int| 0 <= i < r@.len() && reports_missing_policy(#[trigger] views(r@)[i], ns))
                <==> lacks_network_policy(objects@, ns),
{
    let mut all = object_findings(objects);
    let more = namespace_findings(objects);
    let ghost l = choose|l: Seq<Seq<char>>|
        sorted_set_of(l, pod_namespaces(objects@)) && views(more@) == namespaces_expected(objects@, l);
    append_findings(&mut all, more);
    let r = sort_findings(all);
    proof {
        broadcast use vstd::seq_lib::group_to_multiset_ensures;

        let whole = views(all@);
        let out = views(r@);
        assert forall|ns: Seq<char>|
            (exists|i: int| 0 <= i < r@.len() && reports_missing_policy(#[trigger] views(r@)[i], ns))
                <==> lacks_network_policy(objects@, ns) by {
            law_missing_network_policy(objects@, l, ns);
            if exists|i: int| 0 <= i < r@.len() && reports_missing_policy(#[trigger] views(r@)[i], ns) {
                let i = choose|i: int| 0 <= i < r@.len() && reports_missing_policy(#[trigger] views(r@)[i], ns);
                assert(out.contains(out[i]));
                assert(whole.to_multiset().count(out[i]) > 0);
                assert(whole.contains(out[i]));
                let j = choose|j: int| 0 <= j < whole.len() && whole[j] == out[i];
                assert(reports_missing_policy(whole[j], ns));
            }
            if lacks_network_policy(objects@, ns) {
                let j = choose|j: int| 0 <= j < whole.len() && reports_missing_policy(#[trigger] whole[j], ns);
                assert(whole.contains(whole[j]));
                assert(out.to_multiset().count(whole[j]) > 0);
                assert(out.contains(whole[j]));
                let i = choose|i: int| 0 <= i < out.len() && out[i] == whole[j];
                assert(reports_missing_policy(views(r@)[i], ns));
            }
        }
    }
    r
}

/// A copy of a member, or JSON null when absent.
fn get_or_null(v: &JsonValue, key: &str) -> (r: JsonValue)
    ensures
        r@ == or_null(json_get(v@, key@)),
{
    match v.get(key) {
        Some(x) => clone_json(x),
        None => JsonValue::Null,
    }
}

/// A copy of the value at a two-key path, or JSON null when absent.
fn ptr_or_null2(v: &JsonValue, a: &str, b: &str) -> (r: JsonValue)
    ensures
        r@ == or_null(json_pointer(v@, path2(a@, b@))),
{
    match ptr2(v, a, b) {
        Some(x) => clone_json(x),
        None => JsonValue::Null,
    }
}

/// A copy of the value at a three-key path, or JSON null when absent.
fn ptr_or_null3(v: &JsonValue, a: &str, b: &str, c: &str) -> (r: JsonValue)
    ensures
        r@ == or_null(json_pointer(v@, path3(a@, b@, c@))),
{
    let path = [a, b, c];
    assert(path@.map_values(|p: &str| p@) =~= path3(a@, b@, c@));
    match v.pointer(&path) {
        Some(x) => clone_json(x),
        None => JsonValue::Null,
    }
}

/// The number of elements of an array value, zero for anything else.
pub open spec fn count_json(j: Option<Json>) -> Json {
    Json::Number(crate::json::int_text(arr(j).len() as int))
}

fn count_of(v: Option<&JsonValue>) -> (r: JsonValue)
    ensures
        r@ == count_json(
            match v {
                Some(x) => Some(x@),
                None => None,
            },
        ),
{
    broadcast use crate::json::group_json_view;

    match items_of(v) {
        Some(items) => {
            proof {
                crate::json::lemma_items_view_len(items@);
            }
            let n = items.len();
            let text = crate::text::decimal(n as u64);
            JsonValue::Number(text)
        },
        None => {
            let text = crate::text::decimal(0);
            JsonValue::Number(text)
        },
    }
}

/// The keys of an object value, in member order; none for anything else.
pub open spec fn member_keys(j: Option<Json>) -> Seq<Seq<char>> {
    match crate::json::json_members(j) {
        Some(entries) => entries.map_values(|e: (Seq<char>, Json)| e.0),
        None => Seq::empty(),
    }
}

/// The keys of an object value, each once and in sorted order, as a JSON
/// map lists them; none for anything else.
pub open spec fn object_keys(j: Option<Json>) -> Seq<Seq<char>> {
    crate::order::sorted_list(Set::new(|k: Seq<char>| crate::order::seq_has(member_keys(j), k)))
}

fn keys_json(v: Option<&JsonValue>) -> (r: JsonValue)
    ensures
        r@ == text_array(
            object_keys(
                match v {
                    Some(x) => Some(x@),
                    None => None,
                },
            ),
        ),
{
    broadcast use crate::json::group_json_view;

    let mut keys: Vec<String> = Vec::new();
    match v {
        Some(JsonValue::Object(entries)) => {
            let mut i: usize = 0;
            while i < entries.len()
                invariant
                    i <= entries@.len(),
                    keys@.len() == i,
                    forall|j: int| 0 <= j < i ==> (#[trigger] keys@[j])@ == entries@[j].0@,
                decreases entries@.len() - i,
            {
                keys.push(entries[i].0.clone());
                i += 1;
            }
            proof {
                crate::json::lemma_entries_view_len(entries@);
                assert forall|j: int| 0 <= j < entries@.len() implies crate::order::texts(keys@)[j] == entries_view(entries@).map_values(|e: (Seq<char>, Json)| e.0)[j] by {
                    crate::json::lemma_entries_view_index(entries@, j);
                }
            }
            assert(crate::order::texts(keys@) =~= member_keys(Some(v.unwrap()@)));
        },
        _ => {
            assert(crate::order::texts(keys@) =~= Seq::<Seq<char>>::empty());
        },
    }
    let ghost members = crate::order::texts(keys@);
    assert(members == member_keys(
        match v {
            Some(x) => Some(x@),
            None => None,
        },
    ));
    let sorted = crate::order::sorted_distinct(keys);
    proof {
        let set = Set::new(|k: Seq<char>| crate::order::seq_has(members, k));
        let l = crate::order::texts(sorted@);
        assert forall|a: int, b: int| 0 <= a < b < l.len() implies crate::order::seq_lt(l[a], l[b]) by {
            assert(sorted@[a].key_spec() == l[a]);
            assert(sorted@[b].key_spec() == l[b]);
        }
        assert forall|x: Seq<char>| crate::order::seq_has(l, x) <==> set.contains(x) by {}
        crate::order::lemma_sorted_list(l, set);
    }
    strings_json(&sorted)
}

/// The members every object's attributes start with.
pub open spec fn base_attributes(o: K8sObject) -> Json {
    Json::Object(
        seq![
            ("api_version"@, Json::Str(o.api_version@)),
            ("kind"@, Json::Str(o.kind@)),
            ("namespace"@, opt_json(ns_of(o))),
            ("owner_references"@, Json::Array(owner_refs_spec(o.value@))),
            ("labels"@, labels_json(o.labels@)),
            ("annotation_keys"@, text_array(annotation_keys_spec(o.annotations@))),
        ],
    )
}

/// The summary of a container.
pub open spec fn container_summary(c: Json) -> Json {
    Json::Object(
        seq![
            ("name"@, opt_json(str_field_spec(c, "name"@))),
            ("image"@, opt_json(str_field_spec(c, "image"@))),
            ("ports"@, or_null(json_get(c, "ports"@))),
            ("env_keys"@, text_array(env_names(arr(json_get(c, "env"@))))),
            ("security_context"@, or_null(json_get(c, "securityContext"@))),
        ],
    )
}

/// The names of environment entries that have one, in order.
pub open spec fn env_names(entries: Seq<Json>) -> Seq<Seq<char>>
    decreases entries.len(),
{
    if entries.len() == 0 {
        Seq::empty()
    } else {
        let prev = env_names(entries.drop_last());
        match str_field_spec(entries.last(), "name"@) {
            Some(n) => prev.push(n),
            None => prev,
        }
    }
}

/// The first key of a volume other than `name`: its type.
pub open spec fn volume_type_spec(entries: Seq<(Seq<char>, Json)>) -> Option<Seq<char>>
    decreases entries.len(),
{
    if entries.len() == 0 {
        None
    } else if entries[0].0 != "name"@ {
        Some(entries[0].0)
    } else {
        volume_type_spec(entries.drop_first())
    }
}

/// The summary of a volume: its name and type.
pub open spec fn volume_summary(v: Json) -> Json {
    Json::Object(seq![("name"@, opt_json(str_field_spec(v, "name"@))), ("type"@, opt_json(volume_type_of(v)))])
}

/// The type of a volume value.
pub open spec fn volume_type_of(v: Json) -> Option<Seq<char>> {
    match v {
        Json::Object(entries) => volume_type_spec(entries),
        _ => None,
    }
}


/// A reference summary: kind, name, source, and one more labelled member.
pub open spec fn ref_json(kind: Seq<char>, name: Seq<char>, source: Seq<char>, extra: Seq<(Seq<char>, Json)>) -> Json {
    Json::Object(seq![("kind"@, Json::Str(kind)), ("name"@, Json::Str(name)), ("source"@, Json::Str(source))] + extra)
}

/// A summary for a present reference name.
pub open spec fn opt_ref_json(name: Option<Seq<char>>, kind: Seq<char>, source: Seq<char>, extra: Seq<(Seq<char>, Json)>) -> Seq<Json> {
    match name {
        Some(n) => seq![ref_json(kind, n, source, extra)],
        None => Seq::empty(),
    }
}

/// The reference summaries of one volume.
pub open spec fn volume_ref_json(vol: Json) -> Seq<Json> {
    let extra = seq![("volume"@, opt_json(str_field_spec(vol, "name"@)))];
    opt_ref_json(pointer_str_spec(vol, path2("secret"@, "secretName"@)), "Secret"@, "volume"@, extra)
        + opt_ref_json(pointer_str_spec(vol, path2("configMap"@, "name"@)), "ConfigMap"@, "volume"@, extra)
        + opt_ref_json(pointer_str_spec(vol, path2("persistentVolumeClaim"@, "claimName"@)), "PersistentVolumeClaim"@, "volume"@, extra)
}

/// The reference summaries of volumes, in order.
pub open spec fn volumes_ref_json(vols: Seq<Json>) -> Seq<Json>
    decreases vols.len(),
{
    if vols.len() == 0 {
        Seq::empty()
    } else {
        volumes_ref_json(vols.drop_last()) + volume_ref_json(vols.last())
    }
}

/// The reference summaries of `envFrom` entries of the container `cname`.
pub open spec fn env_from_ref_json(entries: Seq<Json>, cname: Option<Seq<char>>) -> Seq<Json>
    decreases entries.len(),
{
    if entries.len() == 0 {
        Seq::empty()
    } else {
        let e = entries.last();
        let extra = seq![("container"@, opt_json(cname))];
        env_from_ref_json(entries.drop_last(), cname)
            + opt_ref_json(pointer_str_spec(e, path2("secretRef"@, "name"@)), "Secret"@, "envFrom"@, extra)
            + opt_ref_json(pointer_str_spec(e, path2("configMapRef"@, "name"@)), "ConfigMap"@, "envFrom"@, extra)
    }
}

/// The reference summaries of `env` entries of the container `cname`.
pub open spec fn env_ref_json(entries: Seq<Json>, cname: Option<Seq<char>>) -> Seq<Json>
    decreases entries.len(),
{
    if entries.len() == 0 {
        Seq::empty()
    } else {
        let e = entries.last();
        let extra = seq![("container"@, opt_json(cname)), ("env"@, opt_json(str_field_spec(e, "name"@)))];
        env_ref_json(entries.drop_last(), cname)
            + opt_ref_json(pointer_str_spec(e, path3("valueFrom"@, "secretKeyRef"@, "name"@)), "Secret"@, "env"@, extra)
            + opt_ref_json(pointer_str_spec(e, path3("valueFrom"@, "configMapKeyRef"@, "name"@)), "ConfigMap"@, "env"@, extra)
    }
}

/// The reference summaries of containers, in order.
pub open spec fn containers_ref_json(cs: Seq<Json>) -> Seq<Json>
    decreases cs.len(),
{
    if cs.len() == 0 {
        Seq::empty()
    } else {
        let c = cs.last();
        let cname = str_field_spec(c, "name"@);
        containers_ref_json(cs.drop_last()) + env_from_ref_json(arr(json_get(c, "envFrom"@)), cname) + env_ref_json(
            arr(json_get(c, "env"@)),
            cname,
        )
    }
}

/// The reference summaries of a pod spec: volumes first, then containers.
pub open spec fn mounts_spec(spec: Json) -> Seq<Json> {
    volumes_ref_json(arr(json_get(spec, "volumes"@))) + containers_ref_json(all_containers_spec(spec))
}

/// The reference summaries of containers listed in parts are those of the parts in order.
#[verifier::spinoff_prover]
#[verifier::rlimit(40)]
pub proof fn lemma_containers_ref_json_concat(a: Seq<Json>, b: Seq<Json>)
    ensures
        containers_ref_json(a + b) == containers_ref_json(a) + containers_ref_json(b),
    decreases b.len(),
{
    if b.len() == 0 {
        assert(a + b =~= a);
        assert(containers_ref_json(a) + containers_ref_json(b) =~= containers_ref_json(a));
    } else {
        lemma_containers_ref_json_concat(a, b.drop_last());
        assert((a + b).drop_last() =~= a + b.drop_last());
        assert((a + b).last() == b.last());
        let c = b.last();
        let cname = str_field_spec(c, "name"@);
        let t = env_from_ref_json(arr(json_get(c, "envFrom"@)), cname) + env_ref_json(arr(json_get(c, "env"@)), cname);
        assert(containers_ref_json(a) + containers_ref_json(b) =~= containers_ref_json(a) + containers_ref_json(b.drop_last()) + t);
    }
}

fn push_ref_json(out: &mut Vec<JsonValue>, name: Option<&String>, kind: &str, source: &str, extra: &Vec<(String, JsonValue)>)
    ensures
        crate::json::items_view(final(out)@) == crate::json::items_view(old(out)@) + opt_ref_json(
            match name {
                Some(n) => Some(n@),
                None => None,
            },
            kind@,
            source@,
            entries_view(extra@),
        ),
{
    broadcast use crate::json::group_json_view;

    match name {
        Some(n) => {
            let mut members: Vec<(String, JsonValue)> = Vec::new();
            members.push(("kind".to_owned(), JsonValue::Str(kind.to_owned())));
            members.push(("name".to_owned(), JsonValue::Str(n.clone())));
            members.push(("source".to_owned(), JsonValue::Str(source.to_owned())));
            let ghost head = members@;
            assert(head[0].0@ == "kind"@ && head[0].1@ == Json::Str(kind@));
            assert(head[1].0@ == "name"@ && head[1].1@ == Json::Str(n@));
            assert(head[2].0@ == "source"@ && head[2].1@ == Json::Str(source@));
            let mut i: usize = 0;
            while i < extra.len()
                invariant
                    i <= extra@.len(),
                    members@.len() == 3 + i,
                    members@.take(3) == head,
                    forall|j: int| 0 <= j < i ==> (#[trigger] members@[3 + j]).0@ == extra@[j].0@ && members@[3 + j].1@ == extra@[j].1@,
                decreases extra@.len() - i,
            {
                let ghost before = members@;
                members.push((extra[i].0.clone(), clone_json(&extra[i].1)));
                assert(members@.take(3) =~= before.take(3));
                i += 1;
            }
            proof {
                crate::json::lemma_entries_view_len(members@);
                crate::json::lemma_entries_view_len(extra@);
                let want = seq![("kind"@, Json::Str(kind@)), ("name"@, Json::Str(n@)), ("source"@, Json::Str(source@))] + entries_view(extra@);
                assert forall|j: int| 0 <= j < members@.len() implies entries_view(members@)[j] == want[j] by {
                    crate::json::lemma_entries_view_index(members@, j);
                    if j >= 3 {
                        crate::json::lemma_entries_view_index(extra@, j - 3);
                        let k = j - 3;
                        assert(members@[3 + k].0@ == extra@[k].0@ && members@[3 + k].1@ == extra@[k].1@);
                        assert(3 + k == j);
                    } else {
                        assert(members@.take(3)[j] == members@[j]);
                        assert(members@[j] == head[j]);
                    }
                }
                assert(entries_view(members@) =~= want);
            }
            let item = JsonValue::Object(members);
            let ghost before = out@;
            out.push(item);
            assert(out@.drop_last() =~= before);
            assert(crate::json::items_view(out@) == crate::json::items_view(before).push(item@));
            assert(crate::json::items_view(out@) =~= crate::json::items_view(before) + seq![item@]);
        },
        None => {
            assert(crate::json::items_view(out@) =~= crate::json::items_view(out@) + Seq::<Json>::empty());
        },
    }
}

fn opt_string_json(o: Option<&String>) -> (r: JsonValue)
    ensures
        r@ == opt_json(
            match o {
                Some(s) => Some(s@),
                None => None,
            },
        ),
{
    match o {
        Some(s) => JsonValue::Str(s.clone()),
        None => JsonValue::Null,
    }
}

fn push_container_ref_json(out: &mut Vec<JsonValue>, containers: Option<&Vec<JsonValue>>)
    ensures
        crate::json::items_view(final(out)@) == crate::json::items_view(old(out)@) + containers_ref_json(
            match containers {
                Some(c) => crate::json::items_view(c@),
                None => Seq::empty(),
            },
        ),
{
    broadcast use crate::json::group_json_view;

    let cs = match containers {
        Some(c) => c,
        None => {
            assert(crate::json::items_view(out@) =~= crate::json::items_view(out@) + containers_ref_json(Seq::<Json>::empty()));
            return;
        },
    };
    let ghost start = crate::json::items_view(out@);
    let ghost cv = crate::json::items_view(cs@);
    proof {
        crate::json::lemma_items_view_len(cs@);
    }
    let mut i: usize = 0;
    assert(cv.take(0) =~= Seq::<Json>::empty());
    assert(crate::json::items_view(out@) =~= start + containers_ref_json(cv.take(0)));
    while i < cs.len()
        invariant
            i <= cs@.len(),
            cv == crate::json::items_view(cs@),
            cv.len() == cs@.len(),
            crate::json::items_view(out@) == start + containers_ref_json(cv.take(i as int)),
        decreases cs@.len() - i,
    {
        let c = &cs[i];
        proof {
            crate::json::lemma_items_view_index(cs@, i as int);
        }
        assert(cv.take(i + 1).drop_last() =~= cv.take(i as int));
        assert(cv.take(i + 1).last() == c@);
        let ghost cname = str_field_spec(c@, "name"@);
        let container_name = opt_string_json(c.get_str("name"));
        let ghost mid = crate::json::items_view(out@);
        match items_of(c.get("envFrom")) {
            Some(entries) => {
                let ghost ev = crate::json::items_view(entries@);
                proof {
                    crate::json::lemma_items_view_len(entries@);
                }
                let extra = vec![("container".to_owned(), clone_json(&container_name))];
                proof {
                    crate::json::lemma_entries_view_len(extra@);
                    crate::json::lemma_entries_view_index(extra@, 0);
                    assert(entries_view(extra@) =~= seq![("container"@, opt_json(cname))]);
                }
                let mut j: usize = 0;
                assert(ev.take(0) =~= Seq::<Json>::empty());
                assert(crate::json::items_view(out@) =~= mid + env_from_ref_json(ev.take(0), cname));
                while j < entries.len()
                    invariant
                        j <= entries@.len(),
                        ev == crate::json::items_view(entries@),
                        ev.len() == entries@.len(),
                        entries_view(extra@) == seq![("container"@, opt_json(cname))],
                        crate::json::items_view(out@) == mid + env_from_ref_json(ev.take(j as int), cname),
                    decreases entries@.len() - j,
                {
                    let e = &entries[j];
                    proof {
                        crate::json::lemma_items_view_index(entries@, j as int);
                    }
                    assert(ev.take(j + 1).drop_last() =~= ev.take(j as int));
                    assert(ev.take(j + 1).last() == e@);
                    push_ref_json(out, ptr_str2(e, "secretRef", "name"), "Secret", "envFrom", &extra);
                    push_ref_json(out, ptr_str2(e, "configMapRef", "name"), "ConfigMap", "envFrom", &extra);
                    assert(crate::json::items_view(out@) =~= mid + env_from_ref_json(ev.take(j + 1), cname));
                    j += 1;
                }
                assert(ev.take(j as int) =~= ev);
            },
            None => {
                assert(crate::json::items_view(out@) =~= mid + env_from_ref_json(Seq::<Json>::empty(), cname));
            },
        }
        let ghost mid2 = crate::json::items_view(out@);
        match items_of(c.get("env")) {
            Some(entries) => {
                let ghost ev = crate::json::items_view(entries@);
                proof {
                    crate::json::lemma_items_view_len(entries@);
                }
                let mut j: usize = 0;
                assert(ev.take(0) =~= Seq::<Json>::empty());
                assert(crate::json::items_view(out@) =~= mid2 + env_ref_json(ev.take(0), cname));
                while j < entries.len()
                    invariant
                        j <= entries@.len(),
                        ev == crate::json::items_view(entries@),
                        ev.len() == entries@.len(),
                        container_name@ == opt_json(cname),
                        crate::json::items_view(out@) == mid2 + env_ref_json(ev.take(j as int), cname),
                    decreases entries@.len() - j,
                {
                    let e = &entries[j];
                    proof {
                        crate::json::lemma_items_view_index(entries@, j as int);
                    }
                    assert(ev.take(j + 1).drop_last() =~= ev.take(j as int));
                    assert(ev.take(j + 1).last() == e@);
                    let extra = vec![
                        ("container".to_owned(), clone_json(&container_name)),
                        ("env".to_owned(), opt_string_json(e.get_str("name"))),
                    ];
                    proof {
                        crate::json::lemma_entries_view_len(extra@);
                        crate::json::lemma_entries_view_index(extra@, 0);
                        crate::json::lemma_entries_view_index(extra@, 1);
                        assert(entries_view(extra@) =~= seq![("container"@, opt_json(cname)), ("env"@, opt_json(str_field_spec(e@, "name"@)))]);
                    }
                    push_ref_json(out, ptr_str3(e, "valueFrom", "secretKeyRef", "name"), "Secret", "env", &extra);
                    push_ref_json(out, ptr_str3(e, "valueFrom", "configMapKeyRef", "name"), "ConfigMap", "env", &extra);
                    assert(crate::json::items_view(out@) =~= mid2 + env_ref_json(ev.take(j + 1), cname));
                    j += 1;
                }
                assert(ev.take(j as int) =~= ev);
            },
            None => {
                assert(crate::json::items_view(out@) =~= mid2 + env_ref_json(Seq::<Json>::empty(), cname));
            },
        }
        assert(crate::json::items_view(out@) =~= start + containers_ref_json(cv.take(i + 1)));
        i += 1;
    }
    assert(cv.take(i as int) =~= cv);
}

/// The reference summaries of a pod spec.
pub fn pod_reference_summaries(spec: &JsonValue) -> (r: Vec<JsonValue>)
    ensures
        crate::json::items_view(r@) == mounts_spec(spec@),
{
    broadcast use crate::json::group_json_view;

    let mut out: Vec<JsonValue> = Vec::new();
    assert(crate::json::items_view(out@) =~= Seq::<Json>::empty());
    match items_of(spec.get("volumes")) {
        Some(vols) => {
            let ghost vv = crate::json::items_view(vols@);
            proof {
                crate::json::lemma_items_view_len(vols@);
            }
            let mut i: usize = 0;
            assert(vv.take(0) =~= Seq::<Json>::empty());
            while i < vols.len()
                invariant
                    i <= vols@.len(),
                    vv == crate::json::items_view(vols@),
                    vv.len() == vols@.len(),
                    crate::json::items_view(out@) == volumes_ref_json(vv.take(i as int)),
                decreases vols@.len() - i,
            {
                let v = &vols[i];
                proof {
                    crate::json::lemma_items_view_index(vols@, i as int);
                }
                assert(vv.take(i + 1).drop_last() =~= vv.take(i as int));
                assert(vv.take(i + 1).last() == v@);
                let extra = vec![("volume".to_owned(), opt_string_json(v.get_str("name")))];
                proof {
                    crate::json::lemma_entries_view_len(extra@);
                    crate::json::lemma_entries_view_index(extra@, 0);
                    assert(entries_view(extra@) =~= seq![("volume"@, opt_json(str_field_spec(v@, "name"@)))]);
                }
                push_ref_json(&mut out, ptr_str2(v, "secret", "secretName"), "Secret", "volume", &extra);
                push_ref_json(&mut out, ptr_str2(v, "configMap", "name"), "ConfigMap", "volume", &extra);
                push_ref_json(&mut out, ptr_str2(v, "persistentVolumeClaim", "claimName"), "PersistentVolumeClaim", "volume", &extra);
                assert(crate::json::items_view(out@) =~= volumes_ref_json(vv.take(i + 1)));
                i += 1;
            }
            assert(vv.take(i as int) =~= vv);
        },
        None => {
            assert(crate::json::items_view(out@) =~= volumes_ref_json(Seq::<Json>::empty()));
        },
    }
    push_container_ref_json(&mut out, items_of(spec.get("initContainers")));
    push_container_ref_json(&mut out, items_of(spec.get("containers")));
    push_container_ref_json(&mut out, items_of(spec.get("ephemeralContainers")));
    proof {
        let a = arr(json_get(spec@, "initContainers"@));
        let b = arr(json_get(spec@, "containers"@));
        let c = arr(json_get(spec@, "ephemeralContainers"@));
        lemma_containers_ref_json_concat(a, b);
        lemma_containers_ref_json_concat(a + b, c);
        assert(crate::json::items_view(out@) =~= mounts_spec(spec@));
    }
    out
}


/// The names of environment entries that have one.
fn env_name_list(entries: Option<&Vec<JsonValue>>) -> (r: Vec<String>)
    ensures
        crate::order::texts(r@) == env_names(
            match entries {
                Some(e) => crate::json::items_view(e@),
                None => Seq::empty(),
            },
        ),
{
    broadcast use crate::json::group_json_view;

    let mut out: Vec<String> = Vec::new();
    let list = match entries {
        Some(e) => e,
        None => {
            assert(crate::order::texts(out@) =~= env_names(Seq::<Json>::empty()));
            return out;
        },
    };
    let ghost ev = crate::json::items_view(list@);
    proof {
        crate::json::lemma_items_view_len(list@);
    }
    let mut i: usize = 0;
    assert(ev.take(0) =~= Seq::<Json>::empty());
    assert(crate::order::texts(out@) =~= env_names(ev.take(0)));
    while i < list.len()
        invariant
            i <= list@.len(),
            ev == crate::json::items_view(list@),
            ev.len() == list@.len(),
            crate::order::texts(out@) == env_names(ev.take(i as int)),
        decreases list@.len() - i,
    {
        proof {
            crate::json::lemma_items_view_index(list@, i as int);
        }
        assert(ev.take(i + 1).drop_last() =~= ev.take(i as int));
        assert(ev.take(i + 1).last() == list@[i as int]@);
        match list[i].get_str("name") {
            Some(n) => {
                let ghost before = out@;
                out.push(n.clone());
                assert(crate::order::texts(out@) =~= crate::order::texts(before).push(n@));
            },
            None => {},
        }
        i += 1;
    }
    assert(ev.take(i as int) =~= ev);
    out
}

fn push_container_summaries(out: &mut Vec<JsonValue>, containers: Option<&Vec<JsonValue>>)
    ensures
        crate::json::items_view(final(out)@) == crate::json::items_view(old(out)@) + (match containers {
            Some(c) => crate::json::items_view(c@),
            None => Seq::empty(),
        }).map_values(|c: Json| container_summary(c)),
{
    broadcast use crate::json::group_json_view;

    let cs = match containers {
        Some(c) => c,
        None => {
            assert(crate::json::items_view(out@) =~= crate::json::items_view(out@) + Seq::<Json>::empty().map_values(|c: Json| container_summary(c)));
            return;
        },
    };
    let ghost start = crate::json::items_view(out@);
    let ghost cv = crate::json::items_view(cs@);
    proof {
        crate::json::lemma_items_view_len(cs@);
    }
    let mut i: usize = 0;
    assert(cv.take(0).map_values(|c: Json| container_summary(c)) =~= Seq::<Json>::empty());
    assert(crate::json::items_view(out@) =~= start + cv.take(0).map_values(|c: Json| container_summary(c)));
    while i < cs.len()
        invariant
            i <= cs@.len(),
            cv == crate::json::items_view(cs@),
            cv.len() == cs@.len(),
            crate::json::items_view(out@) == start + cv.take(i as int).map_values(|c: Json| container_summary(c)),
        decreases cs@.len() - i,
    {
        let c = &cs[i];
        proof {
            crate::json::lemma_items_view_index(cs@, i as int);
        }
        let names = env_name_list(items_of(c.get("env")));
        let entries = vec![
            ("name", opt_string_json(c.get_str("name"))),
            ("image", opt_string_json(c.get_str("image"))),
            ("ports", get_or_null(c, "ports")),
            ("env_keys", strings_json(&names)),
            ("security_context", get_or_null(c, "securityContext")),
        ];
        assert(pairs_model(entries@) =~= seq![
            ("name"@, opt_json(str_field_spec(c@, "name"@))),
            ("image"@, opt_json(str_field_spec(c@, "image"@))),
            ("ports"@, or_null(json_get(c@, "ports"@))),
            ("env_keys"@, text_array(env_names(arr(json_get(c@, "env"@))))),
            ("security_context"@, or_null(json_get(c@, "securityContext"@))),
        ]);
        let item = json_record(entries);
        let ghost before = out@;
        out.push(item);
        assert(out@.drop_last() =~= before);
        assert(crate::json::items_view(out@) == crate::json::items_view(before).push(item@));
        assert(cv.take(i + 1).map_values(|c: Json| container_summary(c)) =~= cv.take(i as int).map_values(|c: Json| container_summary(c)).push(container_summary(c@)));
        assert(crate::json::items_view(out@) =~= start + cv.take(i + 1).map_values(|c: Json| container_summary(c)));
        i += 1;
    }
    assert(cv.take(i as int) =~= cv);
}

/// The summary of each container of a pod spec.
pub fn container_summaries(spec: &JsonValue) -> (r: Vec<JsonValue>)
    ensures
        crate::json::items_view(r@) == all_containers_spec(spec@).map_values(|c: Json| container_summary(c)),
{
    broadcast use crate::json::group_json_view;

    let mut out: Vec<JsonValue> = Vec::new();
    assert(crate::json::items_view(out@) =~= Seq::<Json>::empty());
    push_container_summaries(&mut out, items_of(spec.get("initContainers")));
    push_container_summaries(&mut out, items_of(spec.get("containers")));
    push_container_summaries(&mut out, items_of(spec.get("ephemeralContainers")));
    proof {
        let a = arr(json_get(spec@, "initContainers"@));
        let b = arr(json_get(spec@, "containers"@));
        let c = arr(json_get(spec@, "ephemeralContainers"@));
        assert((a + b + c).map_values(|x: Json| container_summary(x)) =~= a.map_values(|x: Json| container_summary(x)) + b.map_values(|x: Json| container_summary(x)) + c.map_values(|x: Json| container_summary(x)));
        assert(crate::json::items_view(out@) =~= all_containers_spec(spec@).map_values(|c: Json| container_summary(c)));
    }
    out
}

/// The type of a volume: its first key other than `name`.
fn volume_type(v: &JsonValue) -> (r: Option<String>)
    ensures
        crate::aws_scan::opt_view(r) == volume_type_of(v@),
{
    broadcast use crate::json::group_json_view;

    match v {
        JsonValue::Object(entries) => {
            let ghost ev = entries_view(entries@);
            proof {
                crate::json::lemma_entries_view_len(entries@);
            }
            let mut i: usize = 0;
            assert(ev.skip(0) =~= ev);
            while i < entries.len()
                invariant
                    *v == JsonValue::Object(*entries),
                    i <= entries@.len(),
                    ev == entries_view(entries@),
                    ev.len() == entries@.len(),
                    volume_type_spec(ev) == volume_type_spec(ev.skip(i as int)),
                decreases entries@.len() - i,
            {
                proof {
                    crate::json::lemma_entries_view_index(entries@, i as int);
                }
                assert(ev.skip(i as int).len() > 0);
                assert(ev.skip(i as int)[0] == ev[i as int]);
                assert(ev[i as int].0 == entries@[i as int].0@);
                assert(ev.skip(i as int).drop_first() =~= ev.skip(i + 1));
                if !str_eq(entries[i].0.as_str(), "name") {
                    assert(v@ == Json::Object(ev));
                    assert(volume_type_spec(ev.skip(i as int)) == Some(ev[i as int].0));
                    return Some(entries[i].0.clone());
                }
                i += 1;
            }
            assert(ev.skip(i as int) =~= Seq::<(Seq<char>, Json)>::empty());
            None
        },
        _ => None,
    }
}

/// The name and type of each volume of a pod spec.
pub fn volume_summaries(spec: &JsonValue) -> (r: Vec<JsonValue>)
    ensures
        crate::json::items_view(r@) == arr(json_get(spec@, "volumes"@)).map_values(|v: Json| volume_summary(v)),
{
    broadcast use crate::json::group_json_view;

    let mut out: Vec<JsonValue> = Vec::new();
    let vols = match items_of(spec.get("volumes")) {
        Some(v) => v,
        None => {
            assert(crate::json::items_view(out@) =~= Seq::<Json>::empty().map_values(|v: Json| volume_summary(v)));
            return out;
        },
    };
    let ghost vv = crate::json::items_view(vols@);
    proof {
        crate::json::lemma_items_view_len(vols@);
    }
    let mut i: usize = 0;
    while i < vols.len()
        invariant
            i <= vols@.len(),
            vv == crate::json::items_view(vols@),
            vv.len() == vols@.len(),
            out@.len() == i,
            forall|j: int| 0 <= j < i ==> (#[trigger] out@[j])@ == volume_summary(vv[j]),
        decreases vols@.len() - i,
    {
        let v = &vols[i];
        proof {
            crate::json::lemma_items_view_index(vols@, i as int);
        }
        let kind = volume_type(v);
        let kind_json = match &kind {
            Some(k) => JsonValue::Str(k.clone()),
            None => JsonValue::Null,
        };
        let entries = vec![("name", opt_string_json(v.get_str("name"))), ("type", kind_json)];
        assert(pairs_model(entries@) =~= seq![("name"@, opt_json(str_field_spec(v@, "name"@))), ("type"@, opt_json(volume_type_of(v@)))]);
        let item = json_record(entries);
        assert(vv[i as int] == v@);
        out.push(item);
        i += 1;
    }
    assert(crate::json::items_view(out@) =~= vv.map_values(|v: Json| volume_summary(v)));
    out
}

/// The attributes of a pod spec; an empty object when there is none.
pub open spec fn pod_attributes_spec(spec: Option<Json>) -> Json {
    match spec {
        Some(sp) => Json::Object(
            seq![
                ("node_name"@, or_null(json_get(sp, "nodeName"@))),
                ("service_account"@, Json::Str(spec_account(sp))),
                ("host_network"@, Json::Bool(flag_set(sp, "hostNetwork"@))),
                ("host_pid"@, Json::Bool(flag_set(sp, "hostPID"@))),
                ("host_ipc"@, Json::Bool(flag_set(sp, "hostIPC"@))),
                ("containers"@, Json::Array(all_containers_spec(sp).map_values(|c: Json| container_summary(c)))),
                ("volumes"@, Json::Array(arr(json_get(sp, "volumes"@)).map_values(|v: Json| volume_summary(v)))),
                ("mounts"@, Json::Array(mounts_spec(sp))),
            ],
        ),
        None => Json::Object(Seq::empty()),
    }
}

/// The attributes of a pod spec.
pub fn pod_attributes(spec: Option<&JsonValue>) -> (r: JsonValue)
    ensures
        r@ == pod_attributes_spec(
            match spec {
                Some(s) => Some(s@),
                None => None,
            },
        ),
{
    broadcast use crate::json::group_json_view;

    let sp = match spec {
        Some(s) => s,
        None => {
            let empty: Vec<(String, JsonValue)> = Vec::new();
            assert(entries_view(empty@) =~= Seq::<(Seq<char>, Json)>::empty());
            return JsonValue::Object(empty);
        },
    };
    let account: String = match sp.get_str("serviceAccountName") {
        Some(a) => a.clone(),
        None => "default".to_owned(),
    };
    let containers = container_summaries(sp);
    let volumes = volume_summaries(sp);
    let mounts = pod_reference_summaries(sp);
    let entries = vec![
        ("node_name", get_or_null(sp, "nodeName")),
        ("service_account", JsonValue::Str(account)),
        ("host_network", JsonValue::Bool(flag_true(sp, "hostNetwork"))),
        ("host_pid", JsonValue::Bool(flag_true(sp, "hostPID"))),
        ("host_ipc", JsonValue::Bool(flag_true(sp, "hostIPC"))),
        ("containers", JsonValue::Array(containers)),
        ("volumes", JsonValue::Array(volumes)),
        ("mounts", JsonValue::Array(mounts)),
    ];
    assert(pairs_model(entries@) =~= seq![
        ("node_name"@, or_null(json_get(sp@, "nodeName"@))),
        ("service_account"@, Json::Str(spec_account(sp@))),
        ("host_network"@, Json::Bool(flag_set(sp@, "hostNetwork"@))),
        ("host_pid"@, Json::Bool(flag_set(sp@, "hostPID"@))),
        ("host_ipc"@, Json::Bool(flag_set(sp@, "hostIPC"@))),
        ("containers"@, Json::Array(all_containers_spec(sp@).map_values(|c: Json| container_summary(c)))),
        ("volumes"@, Json::Array(arr(json_get(sp@, "volumes"@)).map_values(|v: Json| volume_summary(v)))),
        ("mounts"@, Json::Array(mounts_spec(sp@))),
    ]);
    json_record(entries)
}


/// The two-key path value of an object, or null.
pub open spec fn at2(o: K8sObject, a: Seq<char>, b: Seq<char>) -> Json {
    or_null(json_pointer(o.value@, path2(a, b)))
}

/// The three-key path value of an object, or null.
pub open spec fn at3(o: K8sObject, a: Seq<char>, b: Seq<char>, c: Seq<char>) -> Json {
    or_null(json_pointer(o.value@, path3(a, b, c)))
}

/// A member of an object, or null.
pub open spec fn at1(o: K8sObject, a: Seq<char>) -> Json {
    or_null(json_get(o.value@, a))
}

/// The attributes of a workload: replicas, selector and its pod template.
pub open spec fn workload_attributes_spec(o: K8sObject) -> Json {
    Json::Object(
        seq![
            ("replicas"@, at2(o, "spec"@, "replicas"@)),
            ("selector"@, at2(o, "spec"@, "selector"@)),
            ("template"@, pod_attributes_spec(json_pointer(o.value@, path3("spec"@, "template"@, "spec"@)))),
        ],
    )
}

/// The members each kind adds to the base attributes; `backends` are the
/// distinct backend services of an ingress.
pub open spec fn overlay_spec(o: K8sObject, backends: Seq<Seq<char>>) -> Option<Json> {
    let k = o.kind@;
    if k == "Pod"@ {
        Some(pod_attributes_spec(json_get(o.value@, "spec"@)))
    } else if is_workload_kind(k) {
        Some(workload_attributes_spec(o))
    } else if k == "Service"@ {
        Some(Json::Object(seq![
            ("type"@, Json::Str(service_type(o))),
            ("selector"@, at2(o, "spec"@, "selector"@)),
            ("ports"@, at2(o, "spec"@, "ports"@)),
            ("external_ips"@, at2(o, "spec"@, "externalIPs"@)),
            ("load_balancer"@, at3(o, "status"@, "loadBalancer"@, "ingress"@)),
        ]))
    } else if k == "Ingress"@ {
        Some(Json::Object(seq![
            ("ingress_class_name"@, at2(o, "spec"@, "ingressClassName"@)),
            ("rules"@, at2(o, "spec"@, "rules"@)),
            ("backend_services"@, text_array(backends)),
        ]))
    } else if k == "NetworkPolicy"@ {
        Some(Json::Object(seq![
            ("pod_selector"@, at2(o, "spec"@, "podSelector"@)),
            ("policy_types"@, at2(o, "spec"@, "policyTypes"@)),
            ("ingress_rule_count"@, count_json(json_pointer(o.value@, path2("spec"@, "ingress"@)))),
            ("egress_rule_count"@, count_json(json_pointer(o.value@, path2("spec"@, "egress"@)))),
        ]))
    } else if k == "ServiceAccount"@ {
        Some(Json::Object(seq![
            ("automount_service_account_token"@, at1(o, "automountServiceAccountToken"@)),
            ("secrets"@, count_json(json_get(o.value@, "secrets"@))),
            ("image_pull_secrets"@, count_json(json_get(o.value@, "imagePullSecrets"@))),
        ]))
    } else if k == "Role"@ || k == "ClusterRole"@ {
        Some(Json::Object(seq![("rules"@, at1(o, "rules"@))]))
    } else if k == "RoleBinding"@ || k == "ClusterRoleBinding"@ {
        Some(Json::Object(seq![("role_ref"@, at1(o, "roleRef"@)), ("subjects"@, at1(o, "subjects"@))]))
    } else if k == "Secret"@ {
        Some(Json::Object(seq![
            ("type"@, Json::Str(secret_type(o))),
            ("data_keys"@, text_array(object_keys(json_get(o.value@, "data"@)))),
            ("redacted"@, Json::Bool(true)),
        ]))
    } else if k == "ConfigMap"@ {
        Some(Json::Object(seq![
            ("data_keys"@, text_array(object_keys(json_get(o.value@, "data"@)))),
            ("binary_data_keys"@, text_array(object_keys(json_get(o.value@, "binaryData"@)))),
            ("redacted"@, Json::Bool(true)),
        ]))
    } else if k == "PersistentVolumeClaim"@ {
        Some(Json::Object(seq![
            ("storage_class_name"@, at2(o, "spec"@, "storageClassName"@)),
            ("volume_name"@, at2(o, "spec"@, "volumeName"@)),
            ("access_modes"@, at2(o, "spec"@, "accessModes"@)),
            ("requests"@, at3(o, "spec"@, "resources"@, "requests"@)),
            ("phase"@, at2(o, "status"@, "phase"@)),
        ]))
    } else if k == "PersistentVolume"@ {
        Some(Json::Object(seq![
            ("storage_class_name"@, at2(o, "spec"@, "storageClassName"@)),
            ("capacity"@, at2(o, "spec"@, "capacity"@)),
            ("access_modes"@, at2(o, "spec"@, "accessModes"@)),
            ("phase"@, at2(o, "status"@, "phase"@)),
        ]))
    } else if k == "StorageClass"@ {
        Some(Json::Object(seq![
            ("provisioner"@, at1(o, "provisioner"@)),
            ("reclaim_policy"@, at1(o, "reclaimPolicy"@)),
            ("volume_binding_mode"@, at1(o, "volumeBindingMode"@)),
        ]))
    } else if k == "Node"@ {
        Some(Json::Object(seq![
            ("provider_id"@, at2(o, "spec"@, "providerID"@)),
            ("taints"@, at2(o, "spec"@, "taints"@)),
            ("capacity"@, at2(o, "status"@, "capacity"@)),
            ("allocatable"@, at2(o, "status"@, "allocatable"@)),
        ]))
    } else {
        None
    }
}

/// The attributes of an object: the base members, with the members of its kind merged in.
pub open spec fn attributes_spec(o: K8sObject, backends: Seq<Seq<char>>) -> Json {
    match overlay_spec(o, backends) {
        Some(overlay) => crate::json::merge_json_spec(base_attributes(o), overlay),
        None => base_attributes(o),
    }
}

fn owner_refs_value(o: &K8sObject) -> (r: JsonValue)
    ensures
        r@ == Json::Array(owner_refs_spec(o.value@)),
{
    broadcast use crate::json::group_json_view;

    match items_of(metadata_value(&o.value, "ownerReferences")) {
        Some(items) => {
            let mut out: Vec<JsonValue> = Vec::new();
            let mut i: usize = 0;
            while i < items.len()
                invariant
                    i <= items@.len(),
                    out@.len() == i,
                    forall|j: int| 0 <= j < i ==> (#[trigger] out@[j])@ == items@[j]@,
                decreases items@.len() - i,
            {
                out.push(clone_json(&items[i]));
                i += 1;
            }
            assert(crate::json::items_view(out@) =~= crate::json::items_view(items@));
            JsonValue::Array(out)
        },
        None => {
            let out: Vec<JsonValue> = Vec::new();
            assert(crate::json::items_view(out@) =~= Seq::<Json>::empty());
            JsonValue::Array(out)
        },
    }
}

fn base_value(o: &K8sObject) -> (r: JsonValue)
    ensures
        r@ == base_attributes(*o),
{
    let namespace = match &o.namespace {
        Some(ns) => JsonValue::Str(ns.clone()),
        None => JsonValue::Null,
    };
    let keys = annotation_keys(&o.annotations);
    let entries = vec![
        ("api_version", JsonValue::Str(o.api_version.clone())),
        ("kind", JsonValue::Str(o.kind.clone())),
        ("namespace", namespace),
        ("owner_references", owner_refs_value(o)),
        ("labels", labels_value(&o.labels)),
        ("annotation_keys", strings_json(&keys)),
    ];
    assert(pairs_model(entries@) =~= seq![
        ("api_version"@, Json::Str(o.api_version@)),
        ("kind"@, Json::Str(o.kind@)),
        ("namespace"@, opt_json(ns_of(*o))),
        ("owner_references"@, Json::Array(owner_refs_spec(o.value@))),
        ("labels"@, labels_json(o.labels@)),
        ("annotation_keys"@, text_array(annotation_keys_spec(o.annotations@))),
    ]);
    json_record(entries)
}

fn get_value(o: &K8sObject, key: &str) -> (r: JsonValue)
    ensures
        r@ == at1(*o, key@),
{
    get_or_null(&o.value, key)
}

fn at2_value(o: &K8sObject, a: &str, b: &str) -> (r: JsonValue)
    ensures
        r@ == at2(*o, a@, b@),
{
    ptr_or_null2(&o.value, a, b)
}

fn at3_value(o: &K8sObject, a: &str, b: &str, c: &str) -> (r: JsonValue)
    ensures
        r@ == at3(*o, a@, b@, c@),
{
    ptr_or_null3(&o.value, a, b, c)
}

/// The members an object's kind adds to its base attributes.
fn overlay_value(o: &K8sObject) -> (r: Option<JsonValue>)
    ensures
        exists|l: Seq<Seq<char>>|
            #![trigger overlay_spec(*o, l)]
            sorted_set_of(l, Set::new(|x: Seq<char>| crate::order::seq_has(ingress_names(o.value@), x))) && match overlay_spec(*o, l) {
                Some(v) => r is Some && r->0@ == v,
                None => r is None,
            },
{
    let backends = ingress_backend_services(&o.value);
    let ghost l = crate::order::texts(backends@);
    proof {
        assert forall|a: int, b: int| 0 <= a < b < l.len() implies seq_lt(l[a], l[b]) by {
            assert(l[a] == backends@[a].key_spec());
            assert(l[b] == backends@[b].key_spec());
        }
        assert(sorted_set_of(l, Set::new(|x: Seq<char>| crate::order::seq_has(ingress_names(o.value@), x))));
    }
    let k = o.kind.as_str();
    let r = if str_eq(k, "Pod") {
        Some(pod_attributes(o.value.get("spec")))
    } else if str_eq(k, "Deployment") || str_eq(k, "DaemonSet") || str_eq(k, "StatefulSet") || str_eq(k, "ReplicaSet") {
        let path = ["spec", "template", "spec"];
        assert(path@.map_values(|p: &str| p@) =~= path3("spec"@, "template"@, "spec"@));
        let entries = vec![
            ("replicas", at2_value(o, "spec", "replicas")),
            ("selector", at2_value(o, "spec", "selector")),
            ("template", pod_attributes(o.value.pointer(&path))),
        ];
        assert(pairs_model(entries@) =~= seq![
            ("replicas"@, at2(*o, "spec"@, "replicas"@)),
            ("selector"@, at2(*o, "spec"@, "selector"@)),
            ("template"@, pod_attributes_spec(json_pointer(o.value@, path3("spec"@, "template"@, "spec"@)))),
        ]);
        Some(json_record(entries))
    } else if str_eq(k, "Service") {
        let service_type_text: String = match ptr_str2(&o.value, "spec", "type") {
            Some(t) => t.clone(),
            None => "ClusterIP".to_owned(),
        };
        let entries = vec![
            ("type", JsonValue::Str(service_type_text)),
            ("selector", at2_value(o, "spec", "selector")),
            ("ports", at2_value(o, "spec", "ports")),
            ("external_ips", at2_value(o, "spec", "externalIPs")),
            ("load_balancer", at3_value(o, "status", "loadBalancer", "ingress")),
        ];
        assert(pairs_model(entries@) =~= seq![
            ("type"@, Json::Str(service_type(*o))),
            ("selector"@, at2(*o, "spec"@, "selector"@)),
            ("ports"@, at2(*o, "spec"@, "ports"@)),
            ("external_ips"@, at2(*o, "spec"@, "externalIPs"@)),
            ("load_balancer"@, at3(*o, "status"@, "loadBalancer"@, "ingress"@)),
        ]);
        Some(json_record(entries))
    } else if str_eq(k, "Ingress") {
        let entries = vec![
            ("ingress_class_name", at2_value(o, "spec", "ingressClassName")),
            ("rules", at2_value(o, "spec", "rules")),
            ("backend_services", strings_json(&backends)),
        ];
        assert(pairs_model(entries@) =~= seq![
            ("ingress_class_name"@, at2(*o, "spec"@, "ingressClassName"@)),
            ("rules"@, at2(*o, "spec"@, "rules"@)),
            ("backend_services"@, text_array(l)),
        ]);
        Some(json_record(entries))
    } else if str_eq(k, "NetworkPolicy") {
        let entries = vec![
            ("pod_selector", at2_value(o, "spec", "podSelector")),
            ("policy_types", at2_value(o, "spec", "policyTypes")),
            ("ingress_rule_count", count_of(ptr2(&o.value, "spec", "ingress"))),
            ("egress_rule_count", count_of(ptr2(&o.value, "spec", "egress"))),
        ];
        assert(pairs_model(entries@) =~= seq![
            ("pod_selector"@, at2(*o, "spec"@, "podSelector"@)),
            ("policy_types"@, at2(*o, "spec"@, "policyTypes"@)),
            ("ingress_rule_count"@, count_json(json_pointer(o.value@, path2("spec"@, "ingress"@)))),
            ("egress_rule_count"@, count_json(json_pointer(o.value@, path2("spec"@, "egress"@)))),
        ]);
        Some(json_record(entries))
    } else if str_eq(k, "ServiceAccount") {
        let entries = vec![
            ("automount_service_account_token", get_value(o, "automountServiceAccountToken")),
            ("secrets", count_of(o.value.get("secrets"))),
            ("image_pull_secrets", count_of(o.value.get("imagePullSecrets"))),
        ];
        assert(pairs_model(entries@) =~= seq![
            ("automount_service_account_token"@, at1(*o, "automountServiceAccountToken"@)),
            ("secrets"@, count_json(json_get(o.value@, "secrets"@))),
            ("image_pull_secrets"@, count_json(json_get(o.value@, "imagePullSecrets"@))),
        ]);
        Some(json_record(entries))
    } else if str_eq(k, "Role") || str_eq(k, "ClusterRole") {
        let entries = vec![("rules", get_value(o, "rules"))];
        assert(pairs_model(entries@) =~= seq![("rules"@, at1(*o, "rules"@))]);
        Some(json_record(entries))
    } else if str_eq(k, "RoleBinding") || str_eq(k, "ClusterRoleBinding") {
        let entries = vec![("role_ref", get_value(o, "roleRef")), ("subjects", get_value(o, "subjects"))];
        assert(pairs_model(entries@) =~= seq![("role_ref"@, at1(*o, "roleRef"@)), ("subjects"@, at1(*o, "subjects"@))]);
        Some(json_record(entries))
    } else if str_eq(k, "Secret") {
        let secret_type_text: String = match o.value.get_str("type") {
            Some(t) => t.clone(),
            None => "Opaque".to_owned(),
        };
        let entries = vec![
            ("type", JsonValue::Str(secret_type_text)),
            ("data_keys", keys_json(o.value.get("data"))),
            ("redacted", JsonValue::Bool(true)),
        ];
        assert(pairs_model(entries@) =~= seq![
            ("type"@, Json::Str(secret_type(*o))),
            ("data_keys"@, text_array(object_keys(json_get(o.value@, "data"@)))),
            ("redacted"@, Json::Bool(true)),
        ]);
        Some(json_record(entries))
    } else if str_eq(k, "ConfigMap") {
        let entries = vec![
            ("data_keys", keys_json(o.value.get("data"))),
            ("binary_data_keys", keys_json(o.value.get("binaryData"))),
            ("redacted", JsonValue::Bool(true)),
        ];
        assert(pairs_model(entries@) =~= seq![
            ("data_keys"@, text_array(object_keys(json_get(o.value@, "data"@)))),
            ("binary_data_keys"@, text_array(object_keys(json_get(o.value@, "binaryData"@)))),
            ("redacted"@, Json::Bool(true)),
        ]);
        Some(json_record(entries))
    } else if str_eq(k, "PersistentVolumeClaim") {
        let entries = vec![
            ("storage_class_name", at2_value(o, "spec", "storageClassName")),
            ("volume_name", at2_value(o, "spec", "volumeName")),
            ("access_modes", at2_value(o, "spec", "accessModes")),
            ("requests", at3_value(o, "spec", "resources", "requests")),
            ("phase", at2_value(o, "status", "phase")),
        ];
        assert(pairs_model(entries@) =~= seq![
            ("storage_class_name"@, at2(*o, "spec"@, "storageClassName"@)),
            ("volume_name"@, at2(*o, "spec"@, "volumeName"@)),
            ("access_modes"@, at2(*o, "spec"@, "accessModes"@)),
            ("requests"@, at3(*o, "spec"@, "resources"@, "requests"@)),
            ("phase"@, at2(*o, "status"@, "phase"@)),
        ]);
        Some(json_record(entries))
    } else if str_eq(k, "PersistentVolume") {
        let entries = vec![
            ("storage_class_name", at2_value(o, "spec", "storageClassName")),
            ("capacity", at2_value(o, "spec", "capacity")),
            ("access_modes", at2_value(o, "spec", "accessModes")),
            ("phase", at2_value(o, "status", "phase")),
        ];
        assert(pairs_model(entries@) =~= seq![
            ("storage_class_name"@, at2(*o, "spec"@, "storageClassName"@)),
            ("capacity"@, at2(*o, "spec"@, "capacity"@)),
            ("access_modes"@, at2(*o, "spec"@, "accessModes"@)),
            ("phase"@, at2(*o, "status"@, "phase"@)),
        ]);
        Some(json_record(entries))
    } else if str_eq(k, "StorageClass") {
        let entries = vec![
            ("provisioner", get_value(o, "provisioner")),
            ("reclaim_policy", get_value(o, "reclaimPolicy")),
            ("volume_binding_mode", get_value(o, "volumeBindingMode")),
        ];
        assert(pairs_model(entries@) =~= seq![
            ("provisioner"@, at1(*o, "provisioner"@)),
            ("reclaim_policy"@, at1(*o, "reclaimPolicy"@)),
            ("volume_binding_mode"@, at1(*o, "volumeBindingMode"@)),
        ]);
        Some(json_record(entries))
    } else if str_eq(k, "Node") {
        let entries = vec![
            ("provider_id", at2_value(o, "spec", "providerID")),
            ("taints", at2_value(o, "spec", "taints")),
            ("capacity", at2_value(o, "status", "capacity")),
            ("allocatable", at2_value(o, "status", "allocatable")),
        ];
        assert(pairs_model(entries@) =~= seq![
            ("provider_id"@, at2(*o, "spec"@, "providerID"@)),
            ("taints"@, at2(*o, "spec"@, "taints"@)),
            ("capacity"@, at2(*o, "status"@, "capacity"@)),
            ("allocatable"@, at2(*o, "status"@, "allocatable"@)),
        ]);
        Some(json_record(entries))
    } else {
        None
    };
    assert(match overlay_spec(*o, l) {
        Some(v) => r is Some && r->0@ == v,
        None => r is None,
    });
    r
}

/// The attributes of an object.
pub fn attributes_for(o: &K8sObject) -> (r: JsonValue)
    ensures
        exists|l: Seq<Seq<char>>|
            #![trigger attributes_spec(*o, l)]
            sorted_set_of(l, Set::new(|x: Seq<char>| crate::order::seq_has(ingress_names(o.value@), x))) && r@
                == attributes_spec(*o, l),
{
    let base = base_value(o);
    let overlay = overlay_value(o);
    let ghost l = choose|l: Seq<Seq<char>>|
        #![trigger overlay_spec(*o, l)]
        sorted_set_of(l, Set::new(|x: Seq<char>| crate::order::seq_has(ingress_names(o.value@), x))) && match overlay_spec(*o, l) {
            Some(v) => overlay is Some && overlay->0@ == v,
            None => overlay is None,
        };
    let r = match overlay {
        Some(v) => crate::json::merge_json(base, &v),
        None => base,
    };
    assert(r@ == attributes_spec(*o, l));
    r
}


/// `r` is the inventory resource of `o`, of cluster `cluster_id`, observed at `collected_at`.
pub open spec fn resource_of(r: crate::model::Resource, o: K8sObject, cluster_id: Seq<char>, collected_at: Seq<char>, include_raw: bool) -> bool {
    &&& r.uid@ == o.cloud_uid@
    &&& r.provider@ == "k8s"@
    &&& r.account_id@ == cluster_id
    &&& r.partition@ == "kubernetes"@
    &&& r.region@ == object_region(ns_of(o))
    &&& r.service@ == o.service@
    &&& r.resource_type@ == o.resource_type@
    &&& r.id@ == object_id_spec(ns_of(o), o.name@)
    &&& r.arn is None
    &&& crate::aws_scan::opt_view(r.name) == Some(o.name@)
    &&& keys_sorted(r.tags@)
    &&& pairs_map(r.tags@) == tags_spec(pairs_map(o.labels@), ns_of(o))
    &&& exists|l: Seq<Seq<char>>|
        #![trigger attributes_spec(o, l)]
        sorted_set_of(l, Set::new(|x: Seq<char>| crate::order::seq_has(ingress_names(o.value@), x))) && r.attributes@
            == attributes_spec(o, l)
    &&& r.evidence@.len() == 1
    &&& crate::aws_scan::evidence_is(r.evidence@[0], "kubernetes"@, "get"@, evidence_path(o.kind@, ns_of(o)), collected_at)
    &&& match raw_spec(o.kind@, o.value@, include_raw) {
        Some(v) => r.raw is Some && r.raw->0@ == v,
        None => r.raw is None,
    }
}

impl K8sObject {
    /// The inventory resource of this object.
    pub fn resource(&self, cluster_id: &str, collected_at: &str, include_raw: bool) -> (r: crate::model::Resource)
        requires
            object_wf(*self),
        ensures
            resource_of(r, *self, cluster_id@, collected_at@, include_raw),
    {
        let region = match &self.namespace {
            Some(ns) => ns.clone(),
            None => CLUSTER_REGION.to_owned(),
        };
        proof {
            reveal_strlit("cluster");
        }
        let id = match &self.namespace {
            Some(ns) => object_id(Some(ns.as_str()), self.name.as_str()),
            None => object_id(None, self.name.as_str()),
        };
        let evidence = k8s_evidence(collected_at, "get", self.kind.as_str(), opt_as_str(&self.namespace));
        let r = crate::model::Resource {
            uid: self.cloud_uid.clone(),
            provider: "k8s".to_owned(),
            account_id: cluster_id.to_owned(),
            partition: "kubernetes".to_owned(),
            region,
            service: self.service.clone(),
            resource_type: self.resource_type.clone(),
            id,
            arn: None,
            name: Some(self.name.clone()),
            tags: tags_for(self),
            attributes: attributes_for(self),
            evidence: vec![evidence],
            raw: raw_for(self, include_raw),
        };
        assert(r.evidence@[0] == evidence);
        r
    }
}

/// The objects of a `kubectl get -o json` result: the items of a `List`,
/// the value itself when it has a kind, else none.
pub open spec fn list_items_spec(value: Json) -> Seq<Json> {
    if str_field_spec(value, "kind"@) == Some("List"@) {
        arr(json_get(value, "items"@))
    } else if str_field_spec(value, "kind"@) is Some {
        seq![value]
    } else {
        Seq::empty()
    }
}

/// The objects of a `kubectl get -o json` result.
pub fn list_items(value: JsonValue) -> (r: Vec<JsonValue>)
    ensures
        crate::json::items_view(r@) == list_items_spec(value@),
{
    broadcast use crate::json::group_json_view;

    let is_list = match value.get_str("kind") {
        Some(k) => str_eq(k.as_str(), "List"),
        None => false,
    };
    if is_list {
        let out = match items_of(value.get("items")) {
            Some(items) => {
                let mut out: Vec<JsonValue> = Vec::new();
                let mut i: usize = 0;
                while i < items.len()
                    invariant
                        i <= items@.len(),
                        out@.len() == i,
                        forall|j: int| 0 <= j < i ==> (#[trigger] out@[j])@ == items@[j]@,
                    decreases items@.len() - i,
                {
                    out.push(clone_json(&items[i]));
                    i += 1;
                }
                assert(crate::json::items_view(out@) =~= crate::json::items_view(items@));
                out
            },
            None => {
                let out: Vec<JsonValue> = Vec::new();
                assert(crate::json::items_view(out@) =~= Seq::<Json>::empty());
                out
            },
        };
        return out;
    }
    if value.get_str("kind").is_some() {
        let out = vec![value];
        assert(crate::json::items_view(out@) =~= seq![out@[0]@]);
        return out;
    }
    let out: Vec<JsonValue> = Vec::new();
    assert(crate::json::items_view(out@) =~= Seq::<Json>::empty());
    out
}

/// `objects` are the objects read, in order, from those of `values` that
/// have a kind and a name.
pub open spec fn objects_from(cluster_id: Seq<char>, values: Seq<Json>, objects: Seq<K8sObject>) -> bool
    decreases values.len(),
{
    if values.len() == 0 {
        objects.len() == 0
    } else {
        let v = values.last();
        if str_field_spec(v, "kind"@) is Some && pointer_str_spec(v, metadata_path("name"@)) is Some {
            objects.len() > 0 && object_from(cluster_id, v, objects.last()) && objects_from(
                cluster_id,
                values.drop_last(),
                objects.drop_last(),
            )
        } else {
            objects_from(cluster_id, values.drop_last(), objects)
        }
    }
}

/// The inventory and findings of a cluster scan.
#[derive(Debug)]
pub struct K8sScanOutput {
    pub inventory: crate::model::Inventory,
    pub findings: Vec<K8sFinding>,
}

/// The namespaces of the objects, each once.
pub open spec fn object_namespaces(objects: Seq<K8sObject>) -> Set<Seq<char>> {
    Set::new(|ns: Seq<char>| exists|i: int| 0 <= i < objects.len() && ns_of(#[trigger] objects[i]) == Some(ns))
}

/// What a scan of the objects `values`, met with `errors`, gives: the
/// inventory header, one resource per object in order, the relationships
/// between them, the sorted findings, and the namespaces as regions.
pub open spec fn scan_output_of(
    out: K8sScanOutput,
    cluster_id: Seq<char>,
    collected_at: Seq<char>,
    include_raw: bool,
    values: Seq<Json>,
    errors: Seq<crate::model::ScanError>,
) -> bool {
    &&& out.inventory.schema_version@ == crate::model::SCHEMA_VERSION@
    &&& out.inventory.generator.name@ == crate::model::GENERATOR_NAME@
    &&& out.inventory.generator.version@ == crate::model::GENERATOR_VERSION@
    &&& out.inventory.account_id@ == cluster_id
    &&& out.inventory.partition@ == "kubernetes"@
    &&& out.inventory.home_region@ == "cluster"@
    &&& out.inventory.collected_at@ == collected_at
    &&& out.inventory.errors@ == errors
    &&& exists|objects: Seq<K8sObject>|
        {
            &&& objects_from(cluster_id, values, objects)
            &&& all_wf(objects)
            &&& out.inventory.resources@.len() == objects.len()
            &&& forall|i: int|
                0 <= i < objects.len() ==> resource_of(
                    #[trigger] out.inventory.resources@[i],
                    objects[i],
                    cluster_id,
                    collected_at,
                    include_raw,
                )
            &&& rels_ok(out.inventory.relationships@, objects)
            &&& relationships_derived(keyed_map(out.inventory.relationships@), objects)
            &&& evidenced(keyed_map(out.inventory.relationships@), collected_at)
            &&& findings_sorted(views(out.findings@))
            &&& exists|l: Seq<Seq<char>>|
                {
                    &&& sorted_set_of(l, pod_namespaces(objects))
                    &&& views(out.findings@) == stable_sort_by(
                        objects_expected(objects, objects) + namespaces_expected(objects, l),
                        finding_order(),
                    )
                    &&& views(out.findings@).to_multiset() == (objects_expected(objects, objects)
                        + namespaces_expected(objects, l)).to_multiset()
                }
            &&& keys_sorted(out.inventory.regions@)
            &&& forall|x: Seq<char>|
                crate::order::seq_has(crate::order::texts(out.inventory.regions@), x) <==> object_namespaces(
                    objects,
                ).contains(x)
        }
}

/// Builds the inventory and findings of a cluster from the objects kubectl
/// returned and the errors met while asking for them.
#[verifier::rlimit(40)]
#[verifier::spinoff_prover]
pub fn build_scan_output(
    cluster_id: &str,
    collected_at: &str,
    include_raw: bool,
    values: Vec<JsonValue>,
    errors: Vec<crate::model::ScanError>,
) -> (out: K8sScanOutput)
    ensures
        scan_output_of(out, cluster_id@, collected_at@, include_raw, crate::json::items_view(values@), errors@),
{
    broadcast use crate::json::group_json_view;

    let ghost vv = crate::json::items_view(values@);
    let mut objects: Vec<K8sObject> = Vec::new();
    let mut values = values;
    let ghost all = values@;
    proof {
        crate::json::lemma_items_view_len(all);
    }
    let mut i: usize = 0;
    let n = values.len();
    let mut rest: Vec<JsonValue> = Vec::new();
    while values.len() > 0
        invariant
            values@.len() + i == n,
            n == all.len(),
            vv == crate::json::items_view(all),
            vv.len() == all.len(),
            values@ == all.skip(i as int),
            objects_from(cluster_id@, vv.take(i as int), objects@),
            all_wf(objects@),
        decreases values@.len(),
    {
        let ghost before = values@;
        let v = values.remove(0);
        assert(values@ =~= all.skip(i + 1));
        assert(v == all[i as int]);
        proof {
            crate::json::lemma_items_view_index(all, i as int);
        }
        assert(vv.take(i + 1).drop_last() =~= vv.take(i as int));
        assert(vv.take(i + 1).last() == v@);
        let ghost objects_before = objects@;
        match K8sObject::from_value(cluster_id, v) {
            Some(o) => {
                objects.push(o);
                assert(objects@.drop_last() =~= objects_before);
                assert(all_wf(objects@)) by {
                    assert forall|j: int| 0 <= j < objects@.len() implies object_wf(#[trigger] objects@[j]) by {
                        if j < objects_before.len() {
                            assert(objects@[j] == objects_before[j]);
                        }
                    }
                }
            },
            None => {},
        }
        i += 1;
    }
    assert(vv.take(i as int) =~= vv);
    let mut resources: Vec<crate::model::Resource> = Vec::new();
    let mut k: usize = 0;
    while k < objects.len()
        invariant
            k <= objects@.len(),
            all_wf(objects@),
            resources@.len() == k,
            forall|j: int|
                0 <= j < k ==> resource_of(#[trigger] resources@[j], objects@[j], cluster_id@, collected_at@, include_raw),
        decreases objects@.len() - k,
    {
        assert(object_wf(objects@[k as int]));
        resources.push(objects[k].resource(cluster_id, collected_at, include_raw));
        k += 1;
    }
    let relationships = build_relationships(&objects, collected_at);
    let findings = build_findings(&objects);
    let mut namespaces: Vec<String> = Vec::new();
    let mut k: usize = 0;
    while k < objects.len()
        invariant
            k <= objects@.len(),
            forall|x: Seq<char>| crate::order::seq_has(crate::order::texts(namespaces@), x) <==> exists|j: int|
                0 <= j < k && ns_of(#[trigger] objects@[j]) == Some(x),
        decreases objects@.len() - k,
    {
        let ghost before = namespaces@;
        match &objects[k].namespace {
            Some(ns) => {
                namespaces.push(ns.clone());
                assert(crate::order::texts(namespaces@) =~= crate::order::texts(before).push(ns@));
            },
            None => {},
        }
        proof {
            assert forall|x: Seq<char>| crate::order::seq_has(crate::order::texts(namespaces@), x) <==> exists|j: int|
                0 <= j < k + 1 && ns_of(#[trigger] objects@[j]) == Some(x) by {
                let t = crate::order::texts(namespaces@);
                let tb = crate::order::texts(before);
                if crate::order::seq_has(t, x) {
                    let m = choose|m: int| 0 <= m < t.len() && t[m] == x;
                    if m < tb.len() {
                        assert(tb[m] == x);
                        assert(crate::order::seq_has(tb, x));
                        let j = choose|j: int| 0 <= j < k && ns_of(#[trigger] objects@[j]) == Some(x);
                        assert(ns_of(objects@[j]) == Some(x));
                    } else {
                        assert(ns_of(objects@[k as int]) == Some(x));
                    }
                }
                if exists|j: int| 0 <= j < k + 1 && ns_of(#[trigger] objects@[j]) == Some(x) {
                    let j = choose|j: int| 0 <= j < k + 1 && ns_of(#[trigger] objects@[j]) == Some(x);
                    if j < k {
                        assert(ns_of(objects@[j]) == Some(x));
                        assert(crate::order::seq_has(tb, x));
                        let m = choose|m: int| 0 <= m < tb.len() && tb[m] == x;
                        assert(t[m] == x);
                    } else {
                        assert(t[tb.len() as int] == x);
                    }
                }
            }
        }
        k += 1;
    }
    let regions = crate::order::sorted_distinct(namespaces);
    proof {
        assert forall|x: Seq<char>| crate::order::seq_has(crate::order::texts(regions@), x) <==> object_namespaces(objects@).contains(x) by {
            if crate::order::seq_has(crate::order::texts(regions@), x) {
                let j = choose|j: int| 0 <= j < objects@.len() && ns_of(#[trigger] objects@[j]) == Some(x);
            }
        }
    }
    proof {
        reveal_strlit("cluster");
    }
    K8sScanOutput {
        inventory: crate::model::Inventory {
            schema_version: crate::model::SCHEMA_VERSION.to_owned(),
            generator: crate::model::Generator {
                name: crate::model::GENERATOR_NAME.to_owned(),
                version: crate::model::GENERATOR_VERSION.to_owned(),
            },
            account_id: cluster_id.to_owned(),
            partition: "kubernetes".to_owned(),
            home_region: CLUSTER_REGION.to_owned(),
            regions,
            collected_at: collected_at.to_owned(),
            resources,
            relationships,
            errors,
        },
        findings,
    }
}


/// A kind of object the scan asks kubectl for.
#[derive(Clone, Debug)]
pub struct K8sTarget {
    pub name: String,
    pub namespaced: bool,
    pub operation: String,
}

/// The resource names the scan asks for, in order, and whether each is namespaced.
pub open spec fn targets_spec() -> Seq<(Seq<char>, bool)> {
    seq![
        ("namespaces"@, false),
        ("nodes"@, false),
        ("deployments.apps"@, true),
        ("daemonsets.apps"@, true),
        ("statefulsets.apps"@, true),
        ("replicasets.apps"@, true),
        ("pods"@, true),
        ("services"@, true),
        ("ingresses.networking.k8s.io"@, true),
        ("networkpolicies.networking.k8s.io"@, true),
        ("serviceaccounts"@, true),
        ("roles.rbac.authorization.k8s.io"@, true),
        ("rolebindings.rbac.authorization.k8s.io"@, true),
        ("clusterroles.rbac.authorization.k8s.io"@, false),
        ("clusterrolebindings.rbac.authorization.k8s.io"@, false),
        ("secrets"@, true),
        ("configmaps"@, true),
        ("persistentvolumeclaims"@, true),
        ("persistentvolumes"@, false),
        ("storageclasses.storage.k8s.io"@, false)
    ]
}

fn target(name: &str, namespaced: bool) -> (t: K8sTarget)
    ensures
        t.name@ == name@,
        t.namespaced == namespaced,
        t.operation@ == "get "@ + name@,
{
    let mut operation = "get ".to_owned();
    operation.append(name);
    K8sTarget { name: name.to_owned(), namespaced, operation }
}

/// The kinds of object the scan asks for, in order; the operation of each is `get` and its name.
pub fn targets() -> (r: Vec<K8sTarget>)
    ensures
        r@.len() == targets_spec().len(),
        forall|i: int|
            0 <= i < r@.len() ==> (#[trigger] r@[i]).name@ == targets_spec()[i].0 && r@[i].namespaced
                == targets_spec()[i].1 && r@[i].operation@ == "get "@ + targets_spec()[i].0,
{
    let mut out: Vec<K8sTarget> = Vec::new();
    out.push(target("namespaces", false));
    out.push(target("nodes", false));
    out.push(target("deployments.apps", true));
    out.push(target("daemonsets.apps", true));
    out.push(target("statefulsets.apps", true));
    out.push(target("replicasets.apps", true));
    out.push(target("pods", true));
    out.push(target("services", true));
    out.push(target("ingresses.networking.k8s.io", true));
    out.push(target("networkpolicies.networking.k8s.io", true));
    out.push(target("serviceaccounts", true));
    out.push(target("roles.rbac.authorization.k8s.io", true));
    out.push(target("rolebindings.rbac.authorization.k8s.io", true));
    out.push(target("clusterroles.rbac.authorization.k8s.io", false));
    out.push(target("clusterrolebindings.rbac.authorization.k8s.io", false));
    out.push(target("secrets", true));
    out.push(target("configmaps", true));
    out.push(target("persistentvolumeclaims", true));
    out.push(target("persistentvolumes", false));
    out.push(target("storageclasses.storage.k8s.io", false));
    out
}

/// The arguments that pick the kubeconfig file and context.
pub open spec fn base_args_spec(kubeconfig: Option<Seq<char>>, context: Option<Seq<char>>) -> Seq<Seq<char>> {
    (match kubeconfig {
        Some(k) => seq!["--kubeconfig"@, k],
        None => Seq::empty(),
    }) + (match context {
        Some(c) => seq!["--context"@, c],
        None => Seq::empty(),
    })
}

/// The kubectl arguments that fetch a target as JSON.
pub open spec fn kubectl_args_spec(
    kubeconfig: Option<Seq<char>>,
    context: Option<Seq<char>>,
    namespace: Seq<char>,
    name: Seq<char>,
    namespaced: bool,
) -> Seq<Seq<char>> {
    base_args_spec(kubeconfig, context) + seq!["get"@, name] + (if namespaced {
        if namespace == "all"@ {
            seq!["--all-namespaces"@]
        } else {
            seq!["--namespace"@, namespace]
        }
    } else {
        Seq::empty()
    }) + seq!["-o"@, "json"@]
}

fn push_text(out: &mut Vec<String>, s: &str)
    ensures
        crate::order::texts(final(out)@) == crate::order::texts(old(out)@).push(s@),
{
    let ghost before = out@;
    out.push(s.to_owned());
    assert(crate::order::texts(out@) =~= crate::order::texts(before).push(s@));
}

/// The kubectl arguments that fetch a target as JSON.
pub fn kubectl_args(options: &K8sScanOptions, target: &K8sTarget) -> (r: Vec<String>)
    ensures
        crate::order::texts(r@) == kubectl_args_spec(
            crate::aws_scan::opt_view(options.kubeconfig),
            crate::aws_scan::opt_view(options.context),
            options.namespace@,
            target.name@,
            target.namespaced,
        ),
{
    let mut out: Vec<String> = Vec::new();
    assert(crate::order::texts(out@) =~= Seq::<Seq<char>>::empty());
    match &options.kubeconfig {
        Some(k) => {
            push_text(&mut out, "--kubeconfig");
            push_text(&mut out, k.as_str());
        },
        None => {},
    }
    match &options.context {
        Some(c) => {
            push_text(&mut out, "--context");
            push_text(&mut out, c.as_str());
        },
        None => {},
    }
    assert(crate::order::texts(out@) =~= base_args_spec(crate::aws_scan::opt_view(options.kubeconfig), crate::aws_scan::opt_view(options.context)));
    push_text(&mut out, "get");
    push_text(&mut out, target.name.as_str());
    if target.namespaced {
        if str_eq(options.namespace.as_str(), "all") {
            push_text(&mut out, "--all-namespaces");
        } else {
            push_text(&mut out, "--namespace");
            push_text(&mut out, options.namespace.as_str());
        }
    }
    push_text(&mut out, "-o");
    push_text(&mut out, "json");
    assert(crate::order::texts(out@) =~= kubectl_args_spec(
        crate::aws_scan::opt_view(options.kubeconfig),
        crate::aws_scan::opt_view(options.context),
        options.namespace@,
        target.name@,
        target.namespaced,
    ));
    out
}

/// The error recorded when a target could not be fetched: in the scanned
/// namespace for a namespaced target, else in the cluster region.
pub fn target_error(options: &K8sScanOptions, target: &K8sTarget, message: String) -> (e: crate::model::ScanError)
    ensures
        e.service@ == "kubernetes"@,
        e.region@ == (if target.namespaced { options.namespace@ } else { "cluster"@ }),
        e.operation@ == target.operation@,
        e.message == message,
{
    proof {
        reveal_strlit("cluster");
    }
    crate::model::ScanError {
        service: "kubernetes".to_owned(),
        region: if target.namespaced { options.namespace.clone() } else { CLUSTER_REGION.to_owned() },
        operation: target.operation.clone(),
        message,
    }
}

/// The cluster id: the sanitized context when one is given, else the
/// sanitized trimmed current context, else `kubernetes` when that is empty
/// or unknown.
pub open spec fn cluster_id_spec(context: Option<Seq<char>>, current_context: Option<Seq<char>>) -> Seq<char> {
    match context {
        Some(c) => replace_chars_spec(c, cluster_id_unsafe_chars(), '_'),
        None => match current_context {
            Some(cur) => {
                let id = replace_chars_spec(crate::text::trim_spec(cur), cluster_id_unsafe_chars(), '_');
                if id.len() == 0 {
                    "kubernetes"@
                } else {
                    id
                }
            },
            None => "kubernetes"@,
        },
    }
}

/// The cluster id from the requested context, or from the current context
/// kubectl reports.
pub fn cluster_id(context: Option<&str>, current_context: Option<String>) -> (r: String)
    ensures
        r@ == cluster_id_spec(
            match context {
                Some(c) => Some(c@),
                None => None,
            },
            crate::aws_scan::opt_view(current_context),
        ),
{
    match context {
        Some(c) => sanitize_cluster_id(c),
        None => match current_context {
            Some(cur) => {
                let trimmed = crate::text::trim(cur.as_str());
                let id = sanitize_cluster_id(trimmed.as_str());
                if id.unicode_len() == 0 {
                    "kubernetes".to_owned()
                } else {
                    id
                }
            },
            None => "kubernetes".to_owned(),
        },
    }
}

/// Sorting findings twice gives what sorting once gives: findings already
/// in sort order stay as they are.
pub proof fn law_sort_findings_idempotent(findings: Seq<FindingView>)
    ensures
        stable_sort_by(stable_sort_by(findings, finding_order()), finding_order()) == stable_sort_by(
            findings,
            finding_order(),
        ),
{
    let le = finding_order();
    assert forall|a: FindingView, b: FindingView| #[trigger] le(a, b) || le(b, a) by {
        lemma_fkey_total(a, b);
    }
    assert forall|a: FindingView, b: FindingView, c: FindingView|
        #[trigger] le(a, b) && #[trigger] le(b, c) implies le(a, c) by {
        lemma_fkey_transitive(a, b, c);
    }
    crate::order::lemma_stable_sort_sorted(findings, le);
    crate::order::lemma_stable_sort_of_sorted(stable_sort_by(findings, le), le);
}

/// Secrets and config maps never keep their raw object in the inventory,
/// and their attributes are marked `redacted: true`.
pub proof fn law_secrets_and_config_maps_redacted(
    r: crate::model::Resource,
    o: K8sObject,
    cluster_id: Seq<char>,
    collected_at: Seq<char>,
    include_raw: bool,
)
    requires
        resource_of(r, o, cluster_id, collected_at, include_raw),
        o.kind@ == "Secret"@ || o.kind@ == "ConfigMap"@,
    ensures
        r.raw is None,
        json_get(r.attributes@, "redacted"@) == Some(Json::Bool(true)),
{
    reveal_strlit("Secret");
    reveal_strlit("ConfigMap");
    reveal_strlit("Pod");
    reveal_strlit("Deployment");
    reveal_strlit("DaemonSet");
    reveal_strlit("StatefulSet");
    reveal_strlit("ReplicaSet");
    reveal_strlit("Service");
    reveal_strlit("Ingress");
    reveal_strlit("NetworkPolicy");
    reveal_strlit("ServiceAccount");
    reveal_strlit("Role");
    reveal_strlit("ClusterRole");
    reveal_strlit("RoleBinding");
    reveal_strlit("ClusterRoleBinding");
    let l = choose|l: Seq<Seq<char>>|
        #![trigger attributes_spec(o, l)]
        sorted_set_of(l, Set::new(|x: Seq<char>| crate::order::seq_has(ingress_names(o.value@), x)))
            && r.attributes@ == attributes_spec(o, l);
    let base = seq![
        ("api_version"@, Json::Str(o.api_version@)),
        ("kind"@, Json::Str(o.kind@)),
        ("namespace"@, opt_json(ns_of(o))),
        ("owner_references"@, Json::Array(owner_refs_spec(o.value@))),
        ("labels"@, labels_json(o.labels@)),
        ("annotation_keys"@, text_array(annotation_keys_spec(o.annotations@))),
    ];
    assert(base_attributes(o) == Json::Object(base));
    let k = o.kind@;
    assert("Pod"@.len() == 3 && "Deployment"@.len() == 10 && "DaemonSet"@.len() == 9
        && "StatefulSet"@.len() == 11 && "ReplicaSet"@.len() == 10 && "Service"@.len() == 7
        && "Ingress"@.len() == 7 && "NetworkPolicy"@.len() == 13 && "ServiceAccount"@.len() == 14
        && "Role"@.len() == 4 && "ClusterRole"@.len() == 11 && "RoleBinding"@.len() == 11
        && "ClusterRoleBinding"@.len() == 18 && "Secret"@.len() == 6 && "ConfigMap"@.len() == 9);
    assert("DaemonSet"@[0] == 'D' && "ConfigMap"@[0] == 'C');
    assert(k != "Pod"@ && !is_workload_kind(k) && k != "Service"@ && k != "Ingress"@ && k
        != "NetworkPolicy"@ && k != "ServiceAccount"@ && k != "Role"@ && k != "ClusterRole"@ && k
        != "RoleBinding"@ && k != "ClusterRoleBinding"@);
    if o.kind@ == "Secret"@ {
        let ov = seq![
            ("type"@, Json::Str(secret_type(o))),
            ("data_keys"@, text_array(object_keys(json_get(o.value@, "data"@)))),
            ("redacted"@, Json::Bool(true)),
        ];
        assert(overlay_spec(o, l) == Some(Json::Object(ov)));
        crate::json::lemma_merge_last_member(base, ov);
    } else {
        let ov = seq![
            ("data_keys"@, text_array(object_keys(json_get(o.value@, "data"@)))),
            ("binary_data_keys"@, text_array(object_keys(json_get(o.value@, "binaryData"@)))),
            ("redacted"@, Json::Bool(true)),
        ];
        assert(overlay_spec(o, l) == Some(Json::Object(ov)));
        crate::json::lemma_merge_last_member(base, ov);
    }
}

/// The two JSON values are objects with the same member keys, or neither
/// is an object.
pub open spec fn same_member_keys(a: Option<Json>, b: Option<Json>) -> bool {
    &&& (crate::json::json_members(a) is Some <==> crate::json::json_members(b) is Some)
    &&& forall|k: Seq<char>| crate::order::seq_has(member_keys(a), k) <==> crate::order::seq_has(member_keys(b), k)
}

/// No secret or config value reaches a resource's attributes: two Secrets
/// (or two ConfigMaps) that differ only in the values under `data`,
/// `binaryData` and `stringData`, keeping the keys of `data` and
/// `binaryData`, get the same attributes.
pub proof fn law_secret_values_do_not_reach_attributes(
    o1: K8sObject,
    o2: K8sObject,
    backends1: Seq<Seq<char>>,
    backends2: Seq<Seq<char>>,
)
    requires
        o1.kind@ == "Secret"@ || o1.kind@ == "ConfigMap"@,
        o1.kind == o2.kind,
        o1.api_version == o2.api_version,
        o1.namespace == o2.namespace,
        o1.labels == o2.labels,
        o1.annotations == o2.annotations,
        forall|k: Seq<char>|
            k != "data"@ && k != "binaryData"@ && k != "stringData"@ ==> #[trigger] json_get(o1.value@, k) == json_get(
                o2.value@,
                k,
            ),
        same_member_keys(json_get(o1.value@, "data"@), json_get(o2.value@, "data"@)),
        same_member_keys(json_get(o1.value@, "binaryData"@), json_get(o2.value@, "binaryData"@)),
    ensures
        attributes_spec(o1, backends1) == attributes_spec(o2, backends2),
{
    reveal_strlit("data");
    reveal_strlit("binaryData");
    reveal_strlit("stringData");
    reveal_strlit("metadata");
    reveal_strlit("type");
    assert("metadata"@ != "data"@ && "metadata"@ != "binaryData"@ && "metadata"@ != "stringData"@) by {
        assert("metadata"@[0] != "data"@[0]);
        assert("metadata"@[0] != "binaryData"@[0]);
        assert("metadata"@[0] != "stringData"@[0]);
    }
    assert("type"@ != "data"@ && "type"@ != "binaryData"@ && "type"@ != "stringData"@) by {
        assert("type"@[0] != "data"@[0]);
        assert("type"@[0] != "binaryData"@[0]);
        assert("type"@[0] != "stringData"@[0]);
    }
    assert(json_get(o1.value@, "metadata"@) == json_get(o2.value@, "metadata"@));
    assert(json_get(o1.value@, "type"@) == json_get(o2.value@, "type"@));
    assert(owner_refs_spec(o1.value@) == owner_refs_spec(o2.value@));
    assert(secret_type(o1) == secret_type(o2));
    let d1 = Set::new(|k: Seq<char>| crate::order::seq_has(member_keys(json_get(o1.value@, "data"@)), k));
    let d2 = Set::new(|k: Seq<char>| crate::order::seq_has(member_keys(json_get(o2.value@, "data"@)), k));
    assert(d1 =~= d2);
    let b1 = Set::new(|k: Seq<char>| crate::order::seq_has(member_keys(json_get(o1.value@, "binaryData"@)), k));
    let b2 = Set::new(|k: Seq<char>| crate::order::seq_has(member_keys(json_get(o2.value@, "binaryData"@)), k));
    assert(b1 =~= b2);
    assert(object_keys(json_get(o1.value@, "data"@)) == object_keys(json_get(o2.value@, "data"@)));
    assert(object_keys(json_get(o1.value@, "binaryData"@)) == object_keys(json_get(o2.value@, "binaryData"@)));
    assert(base_attributes(o1) == base_attributes(o2));
    reveal_strlit("Secret");
    reveal_strlit("ConfigMap");
    reveal_strlit("Pod");
    reveal_strlit("Deployment");
    reveal_strlit("DaemonSet");
    reveal_strlit("StatefulSet");
    reveal_strlit("ReplicaSet");
    reveal_strlit("Service");
    reveal_strlit("Ingress");
    reveal_strlit("NetworkPolicy");
    reveal_strlit("ServiceAccount");
    reveal_strlit("Role");
    reveal_strlit("ClusterRole");
    reveal_strlit("RoleBinding");
    reveal_strlit("ClusterRoleBinding");
    let k = o1.kind@;
    assert("Pod"@.len() == 3 && "Deployment"@.len() == 10 && "DaemonSet"@.len() == 9
        && "StatefulSet"@.len() == 11 && "ReplicaSet"@.len() == 10 && "Service"@.len() == 7
        && "Ingress"@.len() == 7 && "NetworkPolicy"@.len() == 13 && "ServiceAccount"@.len() == 14
        && "Role"@.len() == 4 && "ClusterRole"@.len() == 11 && "RoleBinding"@.len() == 11
        && "ClusterRoleBinding"@.len() == 18 && "Secret"@.len() == 6 && "ConfigMap"@.len() == 9);
    assert("DaemonSet"@[0] == 'D' && "ConfigMap"@[0] == 'C');
    assert(k != "Pod"@ && !is_workload_kind(k) && k != "Service"@ && k != "Ingress"@ && k
        != "NetworkPolicy"@ && k != "ServiceAccount"@ && k != "Role"@ && k != "ClusterRole"@ && k
        != "RoleBinding"@ && k != "ClusterRoleBinding"@);
    assert(overlay_spec(o1, backends1) == overlay_spec(o2, backends2));
}


/// Whether no finding of `s` is of type `t`.
pub open spec fn lacks_type(s: Seq<FindingView>, t: Seq<char>) -> bool {
    forall|i: int| 0 <= i < s.len() ==> #[trigger] s[i].finding_type != t
}

/// Whether `f` reports that namespace `ns` holds pods but no NetworkPolicy.
pub open spec fn reports_missing_policy(f: FindingView, ns: Seq<char>) -> bool {
    &&& f.finding_type == "missing_network_policy"@
    &&& f.attributes == Json::Object(seq![("namespace"@, Json::Str(ns))])
}

/// Whether namespace `ns` holds pods, is no system namespace, holds no
/// NetworkPolicy, and has a Namespace object.
pub open spec fn lacks_network_policy(objects: Seq<K8sObject>, ns: Seq<char>) -> bool {
    &&& pod_namespaces(objects).contains(ns)
    &&& !system_namespace_spec(ns)
    &&& !policy_namespaces(objects).contains(ns)
    &&& lookup_key_spec(objects, "Namespace"@, Seq::empty(), ns) is Some
}

proof fn lemma_concat_lacks(a: Seq<FindingView>, b: Seq<FindingView>, t: Seq<char>)
    requires
        lacks_type(a, t),
        lacks_type(b, t),
    ensures
        lacks_type(a + b, t),
{
    assert forall|i: int| 0 <= i < (a + b).len() implies #[trigger] (a + b)[i].finding_type != t by {
        if i < a.len() {
            assert((a + b)[i] == a[i]);
        } else {
            assert((a + b)[i] == b[i - a.len()]);
        }
    }
}

/// No finding about a single object is a missing-network-policy finding.
proof fn lemma_object_expected_lacks_policy(objects: Seq<K8sObject>, o: K8sObject)
    ensures
        lacks_type(object_expected(objects, o), "missing_network_policy"@),
{
    let t = "missing_network_policy"@;
    reveal_strlit("missing_network_policy");
    reveal_strlit("privileged_container");
    reveal_strlit("host_path_mount");
    reveal_strlit("host_namespace_enabled");
    reveal_strlit("default_service_account_used");
    reveal_strlit("public_service");
    reveal_strlit("public_ingress");
    reveal_strlit("overbroad_rbac");
    reveal_strlit("cluster_admin_binding");
    reveal_strlit("legacy_service_account_token_secret");
    reveal_strlit("unmanaged_kubernetes_resource");
    assert(t[0] != "privileged_container"@[0] && t[0] != "host_path_mount"@[0] && t[0]
        != "host_namespace_enabled"@[0] && t[0] != "default_service_account_used"@[0] && t[0]
        != "public_service"@[0] && t[0] != "public_ingress"@[0] && t[0] != "overbroad_rbac"@[0]
        && t[0] != "cluster_admin_binding"@[0] && t[0] != "legacy_service_account_token_secret"@[0]
        && t[0] != "unmanaged_kubernetes_resource"@[0]);
    let pod = match pod_spec_of(o) {
        Some(spec) => pod_expected(o, spec),
        None => Seq::empty(),
    };
    match pod_spec_of(o) {
        Some(spec) => {
            let p = pod_expected(o, spec);
            assert(lacks_type(p, t));
        },
        None => {},
    }
    assert(lacks_type(pod, t));
    let k = kind_expected(objects, o);
    assert(lacks_type(k, t));
    let u = unmanaged_expected(o);
    assert(lacks_type(u, t));
    lemma_concat_lacks(pod, k, t);
    lemma_concat_lacks(pod + k, u, t);
}

/// No finding about the objects themselves is a missing-network-policy finding.
proof fn lemma_objects_expected_lacks_policy(objects: Seq<K8sObject>, prefix: Seq<K8sObject>)
    ensures
        lacks_type(objects_expected(objects, prefix), "missing_network_policy"@),
    decreases prefix.len(),
{
    if prefix.len() > 0 {
        lemma_objects_expected_lacks_policy(objects, prefix.drop_last());
        lemma_object_expected_lacks_policy(objects, prefix.last());
        lemma_concat_lacks(
            objects_expected(objects, prefix.drop_last()),
            object_expected(objects, prefix.last()),
            "missing_network_policy"@,
        );
    }
}

/// The object a uid was found by has a last holder of that uid.
proof fn lemma_lookup_key_last(objects: Seq<K8sObject>, kind: Seq<char>, namespace: Seq<char>, name: Seq<char>)
    requires
        lookup_key_spec(objects, kind, namespace, name) is Some,
    ensures
        last_with_uid(objects, lookup_key_spec(objects, kind, namespace, name)->0) is Some,
    decreases objects.len(),
{
    if !has_key(objects.last(), kind, namespace, name) {
        lemma_lookup_key_last(objects.drop_last(), kind, namespace, name);
    }
}

/// The finding for one namespace, when there is one, reports that namespace.
proof fn lemma_namespace_expected(objects: Seq<K8sObject>, m: Seq<char>, ns: Seq<char>)
    ensures
        namespace_expected(objects, m).len() <= 1,
        forall|i: int| 0 <= i < namespace_expected(objects, m).len()
            ==> #[trigger] namespace_expected(objects, m)[i].finding_type == "missing_network_policy"@,
        (exists|i: int| 0 <= i < namespace_expected(objects, m).len()
            && reports_missing_policy(#[trigger] namespace_expected(objects, m)[i], ns))
            <==> (m == ns && namespace_expected(objects, m).len() == 1),
        namespace_expected(objects, m).len() == 1 <==> (!system_namespace_spec(m)
            && !policy_namespaces(objects).contains(m)
            && lookup_key_spec(objects, "Namespace"@, Seq::empty(), m) is Some),
{
    let e = namespace_expected(objects, m);
    if lookup_key_spec(objects, "Namespace"@, Seq::empty(), m) is Some {
        lemma_lookup_key_last(objects, "Namespace"@, Seq::empty(), m);
    }
    if e.len() == 1 {
        let a = Json::Object(seq![("namespace"@, Json::Str(m))]);
        let b = Json::Object(seq![("namespace"@, Json::Str(ns))]);
        assert(e[0].attributes == a);
        if a == b {
            let sa: Seq<(Seq<char>, Json)> = seq![("namespace"@, Json::Str(m))];
            let sb: Seq<(Seq<char>, Json)> = seq![("namespace"@, Json::Str(ns))];
            assert(sa[0] == sb[0]);
        }
        if m == ns {
            assert(reports_missing_policy(e[0], ns));
        }
    }
}

/// Over a list of namespaces, a finding reports `ns` exactly when `ns` is
/// listed and has its finding; over a list without repeats, at most one does.
proof fn lemma_namespaces_expected(objects: Seq<K8sObject>, list: Seq<Seq<char>>, ns: Seq<char>)
    ensures
        (exists|i: int| 0 <= i < namespaces_expected(objects, list).len()
            && reports_missing_policy(#[trigger] namespaces_expected(objects, list)[i], ns))
            <==> (crate::order::seq_has(list, ns) && namespace_expected(objects, ns).len() == 1),
        (forall|a: int, b: int| 0 <= a < b < list.len() ==> list[a] != list[b]) ==> forall|i: int, j: int|
            0 <= i < namespaces_expected(objects, list).len() && 0 <= j < namespaces_expected(
                objects,
                list,
            ).len() && reports_missing_policy(#[trigger] namespaces_expected(objects, list)[i], ns)
                && reports_missing_policy(#[trigger] namespaces_expected(objects, list)[j], ns) ==> i == j,
    decreases list.len(),
{
    let all = namespaces_expected(objects, list);
    if list.len() == 0 {
        assert(!crate::order::seq_has(list, ns));
    } else {
        let init = list.drop_last();
        let m = list.last();
        let a = namespaces_expected(objects, init);
        let e = namespace_expected(objects, m);
        lemma_namespaces_expected(objects, init, ns);
        lemma_namespace_expected(objects, m, ns);
        assert(all == a + e);
        if exists|i: int| 0 <= i < all.len() && reports_missing_policy(#[trigger] all[i], ns) {
            let i = choose|i: int| 0 <= i < all.len() && reports_missing_policy(#[trigger] all[i], ns);
            if i < a.len() {
                assert(all[i] == a[i]);
                let k = choose|k: int| 0 <= k < init.len() && init[k] == ns;
                assert(list[k] == ns);
            } else {
                assert(all[i] == e[i - a.len()]);
                assert(list[list.len() - 1] == ns);
            }
        }
        if crate::order::seq_has(list, ns) && namespace_expected(objects, ns).len() == 1 {
            let k = choose|k: int| 0 <= k < list.len() && list[k] == ns;
            if k < init.len() {
                assert(init[k] == ns);
                let i = choose|i: int| 0 <= i < a.len() && reports_missing_policy(#[trigger] a[i], ns);
                assert(all[i] == a[i]);
            } else {
                assert(m == ns);
                assert(reports_missing_policy(e[0], ns));
                assert(all[a.len() as int] == e[0]);
            }
        }
        if forall|x: int, y: int| 0 <= x < y < list.len() ==> list[x] != list[y] {
            assert forall|i: int, j: int|
                0 <= i < all.len() && 0 <= j < all.len() && reports_missing_policy(#[trigger] all[i], ns)
                    && reports_missing_policy(#[trigger] all[j], ns) implies i == j by {
                assert(forall|x: int, y: int| 0 <= x < y < init.len() ==> init[x] != init[y] ) by {
                    assert forall|x: int, y: int| 0 <= x < y < init.len() implies init[x] != init[y] by {
                        assert(init[x] == list[x] && init[y] == list[y]);
                    }
                }
                if i < a.len() && j < a.len() {
                    assert(all[i] == a[i] && all[j] == a[j]);
                } else if i >= a.len() && j >= a.len() {
                } else {
                    let p = if i < a.len() { i } else { j };
                    assert(all[p] == a[p]);
                    assert(reports_missing_policy(a[p], ns));
                    let q = if i < a.len() { j } else { i };
                    assert(all[q] == e[q - a.len()]);
                    assert(m == ns);
                    let k = choose|k: int| 0 <= k < init.len() && init[k] == ns;
                    assert(list[k] == list[list.len() - 1]);
                }
            }
        }
    }
}

/// A namespace that holds pods but no NetworkPolicy is reported once, and no
/// other namespace is: among the findings about the objects
/// and their namespaces (`l` lists the namespaces that hold pods), one reports
/// namespace `ns` exactly when `ns` holds pods, is no system namespace
/// (kube-system, kube-public, kube-node-lease), holds no NetworkPolicy and has
/// a Namespace object; and no two do.
pub proof fn law_missing_network_policy(objects: Seq<K8sObject>, l: Seq<Seq<char>>, ns: Seq<char>)
    requires
        sorted_set_of(l, pod_namespaces(objects)),
    ensures
        ({
            let all = objects_expected(objects, objects) + namespaces_expected(objects, l);
            &&& (exists|i: int| 0 <= i < all.len() && reports_missing_policy(#[trigger] all[i], ns))
                <==> lacks_network_policy(objects, ns)
            &&& forall|i: int, j: int|
                0 <= i < all.len() && 0 <= j < all.len() && reports_missing_policy(#[trigger] all[i], ns)
                    && reports_missing_policy(#[trigger] all[j], ns) ==> i == j
        }),
{
    let o = objects_expected(objects, objects);
    let n = namespaces_expected(objects, l);
    let all = o + n;
    let t = "missing_network_policy"@;
    lemma_objects_expected_lacks_policy(objects, objects);
    lemma_namespaces_expected(objects, l, ns);
    lemma_namespace_expected(objects, ns, ns);
    assert forall|a: int, b: int| 0 <= a < b < l.len() implies l[a] != l[b] by {
        lemma_lt_irreflexive(l[a]);
    }
    assert forall|i: int| 0 <= i < all.len() && reports_missing_policy(#[trigger] all[i], ns) implies i >= o.len()
        && reports_missing_policy(n[i - o.len()], ns) by {
        if i < o.len() {
            assert(all[i] == o[i]);
            assert(o[i].finding_type != t);
        } else {
            assert(all[i] == n[i - o.len()]);
        }
    }
    if exists|i: int| 0 <= i < n.len() && reports_missing_policy(#[trigger] n[i], ns) {
        let i = choose|i: int| 0 <= i < n.len() && reports_missing_policy(#[trigger] n[i], ns);
        assert(all[o.len() + i] == n[i]);
    }
    if exists|i: int| 0 <= i < all.len() && reports_missing_policy(#[trigger] all[i], ns) {
        let i = choose|i: int| 0 <= i < all.len() && reports_missing_policy(#[trigger] all[i], ns);
        assert(reports_missing_policy(n[i - o.len()], ns));
    }
    assert forall|i: int, j: int|
        0 <= i < all.len() && 0 <= j < all.len() && reports_missing_policy(#[trigger] all[i], ns)
            && reports_missing_policy(#[trigger] all[j], ns) implies i == j by {
        assert(reports_missing_policy(n[i - o.len()], ns));
        assert(reports_missing_policy(n[j - o.len()], ns));
    }
}

/// A Service reachable from outside the cluster is reported once: among the
/// findings about a Service, one of type `public_service`, on the Service,
/// comes exactly when its `spec.type` is `NodePort` (severity medium) or
/// `LoadBalancer` (severity high); no other finding has that type.
pub proof fn law_public_service(objects: Seq<K8sObject>, o: K8sObject)
    requires
        o.kind@ == "Service"@,
    ensures
        ({
            let f = object_expected(objects, o);
            let t = json_str(json_pointer(o.value@, seq!["spec"@, "type"@]));
            &&& t == Some("NodePort"@) ==> exists|i: int|
                0 <= i < f.len() && #[trigger] f[i].finding_type == "public_service"@ && f[i].severity == "medium"@
                    && f[i].resource_uid == o.cloud_uid@
            &&& t == Some("LoadBalancer"@) ==> exists|i: int|
                0 <= i < f.len() && #[trigger] f[i].finding_type == "public_service"@ && f[i].severity == "high"@
                    && f[i].resource_uid == o.cloud_uid@
            &&& t != Some("NodePort"@) && t != Some("LoadBalancer"@) ==> forall|i: int|
                0 <= i < f.len() ==> #[trigger] f[i].finding_type != "public_service"@
            &&& forall|i: int, j: int|
                0 <= i < f.len() && 0 <= j < f.len() && #[trigger] f[i].finding_type == "public_service"@
                    && #[trigger] f[j].finding_type == "public_service"@ ==> i == j
        }),
{
    reveal_strlit("Service");
    reveal_strlit("Pod");
    reveal_strlit("Deployment");
    reveal_strlit("DaemonSet");
    reveal_strlit("StatefulSet");
    reveal_strlit("ReplicaSet");
    reveal_strlit("Ingress");
    reveal_strlit("public_service");
    reveal_strlit("unmanaged_kubernetes_resource");
    reveal_strlit("NodePort");
    reveal_strlit("LoadBalancer");
    reveal_strlit("ClusterIP");
    assert("Service"@[0] != "Pod"@[0] && "Service"@[0] != "Deployment"@[0] && "Service"@[0]
        != "DaemonSet"@[0] && "Service"@[0] != "ReplicaSet"@[0] && "Service"@[0] != "Ingress"@[0]);
    assert("Service"@.len() != "StatefulSet"@.len());
    assert("public_service"@[0] != "unmanaged_kubernetes_resource"@[0]);
    assert("NodePort"@[0] != "LoadBalancer"@[0] && "ClusterIP"@[0] != "LoadBalancer"@[0] && "ClusterIP"@[0]
        != "NodePort"@[0]);
    assert(pod_spec_of(o) is None);
    assert(kind_expected(objects, o) == service_expected(objects, o));
    let f = object_expected(objects, o);
    let svc = service_expected(objects, o);
    let u = unmanaged_expected(o);
    assert(f == Seq::<FindingView>::empty() + svc + u);
    assert(f =~= svc + u);
    assert(json_str(json_pointer(o.value@, seq!["spec"@, "type"@])) == pointer_str_spec(o.value@, path2("spec"@, "type"@)));
    let st = service_type(o);
    let t = json_str(json_pointer(o.value@, seq!["spec"@, "type"@]));
    assert(t == Some("NodePort"@) ==> st == "NodePort"@);
    assert(t == Some("LoadBalancer"@) ==> st == "LoadBalancer"@);
    assert(t != Some("NodePort"@) && t != Some("LoadBalancer"@) ==> st != "NodePort"@ && st != "LoadBalancer"@);
    assert forall|i: int| 0 <= i < u.len() implies #[trigger] u[i].finding_type != "public_service"@ by {}
    assert forall|i: int| svc.len() <= i < f.len() implies #[trigger] f[i].finding_type != "public_service"@ by {
        assert(f[i] == u[i - svc.len()]);
    }
    if st == "LoadBalancer"@ || st == "NodePort"@ {
        assert(svc.len() == 1);
        assert(f[0] == svc[0]);
        assert(f[0].finding_type == "public_service"@);
        assert(f[0].resource_uid == o.cloud_uid@);
        assert(st == "NodePort"@ ==> f[0].severity == "medium"@);
        assert(st == "LoadBalancer"@ ==> f[0].severity == "high"@);
    } else {
        assert(svc.len() == 0);
        assert forall|i: int| 0 <= i < f.len() implies #[trigger] f[i].finding_type != "public_service"@ by {
            assert(f[i] == u[i]);
        }
    }
}

} // verus!
