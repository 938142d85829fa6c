//! A demo AWS organisation: three regions, three environments and six
//! applications with their networks, instances, volumes, functions,
//! databases, buckets and IAM, plus the Terraform state that manages part
//! of it, so that every kind of drift shows.
use vstd::prelude::*;
use vstd::string::*;

use crate::json::{int_json, json_record, Json, JsonValue};
use crate::k8s_demo::{arr0, arr1, obj5, str_array, str_views, strs1};
use crate::model::{
    aws_uid_spec, relationship_uid, relationship_uid_spec, resource_uid, Evidence, Generator, Inventory, Relationship, Resource,
    ScanError, GENERATOR_NAME, GENERATOR_VERSION, SCHEMA_VERSION,
};
use crate::tags::{pairs_from, pairs_get};
use crate::terraform_state::{TerraformInstance, TerraformResource, TerraformState};
use crate::text::{decimal, push_two_digits, str_eq};

verus! {

/// The demo account.
pub const ACCOUNT_ID: &'static str = "804977871902";

/// The demo account's home region.
pub const HOME_REGION: &'static str = "us-east-1";

/// When the demo account was scanned.
pub const DEMO_TIME: &'static str = "2026-05-16T00:00:00Z";

/// What the demo bundle holds.
#[derive(Clone, Debug)]
pub struct DemoSummary {
    pub out: String,
    pub db_path: String,
    pub state_path: String,
    pub findings_path: String,
    pub resources: usize,
    pub relationships: usize,
    pub findings: usize,
    pub terraform_state_id: String,
}

/// A region of the demo organisation.
#[derive(Clone, Copy, Debug)]
pub struct RegionProfile {
    pub name: &'static str,
    pub short: &'static str,
    pub cidr_octet: u8,
}

/// An environment of the demo organisation.
#[derive(Clone, Copy, Debug)]
pub struct EnvironmentProfile {
    pub name: &'static str,
    pub cidr_offset: u8,
    pub instances_per_app: usize,
}

/// An application of the demo organisation.
#[derive(Clone, Copy, Debug)]
pub struct AppProfile {
    pub name: &'static str,
    pub short: &'static str,
    pub owner: &'static str,
    pub port: i64,
    pub managed_prod: bool,
    pub managed_instances: bool,
    pub lambda: bool,
}

/// The regions of the demo organisation.
pub open spec fn regions_spec() -> Seq<RegionProfile> {
    seq![
        RegionProfile { name: "us-east-1", short: "use1", cidr_octet: 10 },
        RegionProfile { name: "eu-west-1", short: "euw1", cidr_octet: 20 },
        RegionProfile { name: "ap-southeast-2", short: "apse2", cidr_octet: 30 },
    ]
}

/// The regions of the demo organisation.
pub fn regions() -> (r: Vec<RegionProfile>)
    ensures
        r@ == regions_spec(),
        r@.len() == 3,
        forall|i: int| 0 <= i < r@.len() ==> #[trigger] r@[i].cidr_octet <= 30,
{
    let r = vec![
        RegionProfile { name: "us-east-1", short: "use1", cidr_octet: 10 },
        RegionProfile { name: "eu-west-1", short: "euw1", cidr_octet: 20 },
        RegionProfile { name: "ap-southeast-2", short: "apse2", cidr_octet: 30 },
    ];
    assert(r@ =~= regions_spec());
    r
}

/// The environments of the demo organisation.
pub open spec fn environments_spec() -> Seq<EnvironmentProfile> {
    seq![
        EnvironmentProfile { name: "prod", cidr_offset: 0, instances_per_app: 3 },
        EnvironmentProfile { name: "stage", cidr_offset: 20, instances_per_app: 2 },
        EnvironmentProfile { name: "dev", cidr_offset: 40, instances_per_app: 1 },
    ]
}

/// The environments of the demo organisation.
pub fn environments() -> (r: Vec<EnvironmentProfile>)
    ensures
        r@ == environments_spec(),
        r@.len() == 3,
        forall|i: int| 0 <= i < r@.len() ==> #[trigger] r@[i].cidr_offset <= 40 && r@[i].instances_per_app <= 3,
{
    let r = vec![
        EnvironmentProfile { name: "prod", cidr_offset: 0, instances_per_app: 3 },
        EnvironmentProfile { name: "stage", cidr_offset: 20, instances_per_app: 2 },
        EnvironmentProfile { name: "dev", cidr_offset: 40, instances_per_app: 1 },
    ];
    assert(r@ =~= environments_spec());
    r
}

fn app(
    name: &'static str,
    short: &'static str,
    owner: &'static str,
    port: i64,
    managed_prod: bool,
    managed_instances: bool,
    lambda: bool,
) -> (r: AppProfile)
    ensures
        r == (AppProfile { name, short, owner, port, managed_prod, managed_instances, lambda }),
{
    AppProfile { name, short, owner, port, managed_prod, managed_instances, lambda }
}

/// The applications of the demo organisation: name, short name, owner,
/// port, and whether Terraform manages it in production, manages its
/// instances, and whether it runs a function.
pub open spec fn apps_spec() -> Seq<AppProfile> {
    seq![
        AppProfile { name: "payments", short: "pay", owner: "payments-platform", port: 8443, managed_prod: true, managed_instances: true, lambda: true },
        AppProfile { name: "identity", short: "id", owner: "identity-platform", port: 9443, managed_prod: true, managed_instances: true, lambda: true },
        AppProfile { name: "orders", short: "ord", owner: "commerce-platform", port: 8080, managed_prod: true, managed_instances: false, lambda: true },
        AppProfile { name: "customer-edge", short: "edge", owner: "edge-platform", port: 443, managed_prod: true, managed_instances: false, lambda: false },
        AppProfile { name: "analytics", short: "ana", owner: "data-platform", port: 9000, managed_prod: false, managed_instances: false, lambda: true },
        AppProfile { name: "legacy-admin", short: "legacy", owner: "corporate-it", port: 22, managed_prod: false, managed_instances: false, lambda: false },
    ]
}

/// The applications of the demo organisation.
pub fn apps() -> (r: Vec<AppProfile>)
    ensures
        r@ == apps_spec(),
        r@.len() == 6,
        forall|i: int| 0 <= i < r@.len() ==> 0 < #[trigger] r@[i].port <= 65535,
{
    let r = vec![
        app("payments", "pay", "payments-platform", 8443, true, true, true),
        app("identity", "id", "identity-platform", 9443, true, true, true),
        app("orders", "ord", "commerce-platform", 8080, true, false, true),
        app("customer-edge", "edge", "edge-platform", 443, true, false, false),
        app("analytics", "ana", "data-platform", 9000, false, false, true),
        app("legacy-admin", "legacy", "corporate-it", 22, false, false, false),
    ];
    assert(r@ =~= apps_spec());
    r
}

/// Whether Terraform manages an application's security group: in
/// production, for the applications it manages there.
pub fn terraform_manages_security_group(env: EnvironmentProfile, app: AppProfile) -> (r: bool)
    ensures
        r == (env.name@ == "prod"@ && app.managed_prod),
{
    str_eq(env.name, "prod") && app.managed_prod
}

/// Whether Terraform manages an application's instances: in production,
/// for the applications whose instances it manages.
pub fn terraform_manages_instance(env: EnvironmentProfile, app: AppProfile) -> (r: bool)
    ensures
        r == (env.name@ == "prod"@ && app.managed_instances),
{
    str_eq(env.name, "prod") && app.managed_instances
}

/// The security group id of an application: `sg-<region><env><app>`.
pub fn security_group_id(region: RegionProfile, env: EnvironmentProfile, app: AppProfile) -> (r: String)
    ensures
        r@ == "sg-"@ + region.short@ + env.name@ + app.short@,
{
    let mut r = "sg-".to_owned();
    r.append(region.short);
    r.append(env.name);
    r.append(app.short);
    r
}

/// The id of an application's instance: `i-<region><env><app><nn>`, `nn`
/// counting from 01.
pub fn instance_id(region: RegionProfile, env: EnvironmentProfile, app: AppProfile, instance_index: usize) -> (r: String)
    requires
        instance_index < usize::MAX,
    ensures
        r@ == "i-"@ + region.short@ + env.name@ + app.short@ + crate::text::zero_padded_spec(
            (instance_index + 1) as nat,
            2,
        ),
{
    let mut r = "i-".to_owned();
    r.append(region.short);
    r.append(env.name);
    r.append(app.short);
    push_two_digits(&mut r, (instance_index + 1) as u64);
    r
}

/// The id of an instance's data volume: `vol-<region><env><app><nn>`.
pub fn volume_id(region: RegionProfile, env: EnvironmentProfile, app: AppProfile, instance_index: usize) -> (r: String)
    requires
        instance_index < usize::MAX,
    ensures
        r@ == "vol-"@ + region.short@ + env.name@ + app.short@ + crate::text::zero_padded_spec(
            (instance_index + 1) as nat,
            2,
        ),
{
    let mut r = "vol-".to_owned();
    r.append(region.short);
    r.append(env.name);
    r.append(app.short);
    push_two_digits(&mut r, (instance_index + 1) as u64);
    r
}

/// The ARN of an EC2 resource of the demo account.
pub fn ec2_arn(region: &str, resource_type: &str, id: &str) -> (r: String)
    ensures
        r@ == "arn:aws:ec2:"@ + region@ + ":"@ + ACCOUNT_ID@ + ":"@ + resource_type@ + "/"@ + id@,
{
    let mut r = "arn:aws:ec2:".to_owned();
    r.append(region);
    r.append(":");
    r.append(ACCOUNT_ID);
    r.append(":");
    r.append(resource_type);
    r.append("/");
    r.append(id);
    r
}

/// The instance type an application runs in an environment.
pub open spec fn instance_type_spec(env: Seq<char>, app: Seq<char>) -> Seq<char> {
    if env == "prod"@ && app == "ana"@ {
        "m7i.2xlarge"@
    } else if env == "prod"@ && (app == "pay"@ || app == "id"@ || app == "ord"@) {
        "m7i.large"@
    } else if env == "prod"@ {
        "t3.large"@
    } else if env == "stage"@ {
        "t3.medium"@
    } else {
        "t3.small"@
    }
}

/// The instance type an application runs in an environment.
pub fn instance_type(env: EnvironmentProfile, app: AppProfile) -> (r: &'static str)
    ensures
        r@ == instance_type_spec(env.name@, app.short@),
{
    let prod = str_eq(env.name, "prod");
    if prod && str_eq(app.short, "ana") {
        "m7i.2xlarge"
    } else if prod && (str_eq(app.short, "pay") || str_eq(app.short, "id") || str_eq(app.short, "ord")) {
        "m7i.large"
    } else if prod {
        "t3.large"
    } else if str_eq(env.name, "stage") {
        "t3.medium"
    } else {
        "t3.small"
    }
}

/// The data volume size, in GiB, of an application's instances.
pub open spec fn volume_size_spec(env: Seq<char>, app: Seq<char>) -> i64 {
    if env == "prod"@ && app == "ana"@ {
        1024
    } else if env == "prod"@ && (app == "pay"@ || app == "id"@) {
        500
    } else if env == "prod"@ {
        200
    } else if env == "stage"@ {
        100
    } else {
        50
    }
}

/// The data volume size, in GiB, of an application's instances.
pub fn volume_size(env: EnvironmentProfile, app: AppProfile) -> (r: i64)
    ensures
        r == volume_size_spec(env.name@, app.short@),
{
    let prod = str_eq(env.name, "prod");
    if prod && str_eq(app.short, "ana") {
        1024
    } else if prod && (str_eq(app.short, "pay") || str_eq(app.short, "id")) {
        500
    } else if prod {
        200
    } else if str_eq(env.name, "stage") {
        100
    } else {
        50
    }
}

/// The cost center of an application.
pub open spec fn cost_center_spec(app: Seq<char>) -> Seq<char> {
    if app == "pay"@ {
        "cc-110-payments"@
    } else if app == "id"@ {
        "cc-120-identity"@
    } else if app == "ord"@ {
        "cc-130-commerce"@
    } else if app == "edge"@ {
        "cc-140-edge"@
    } else if app == "ana"@ {
        "cc-210-data"@
    } else {
        "cc-900-corp-it"@
    }
}

/// The cost center of an application.
pub fn cost_center(app: AppProfile) -> (r: &'static str)
    ensures
        r@ == cost_center_spec(app.short@),
{
    if str_eq(app.short, "pay") {
        "cc-110-payments"
    } else if str_eq(app.short, "id") {
        "cc-120-identity"
    } else if str_eq(app.short, "ord") {
        "cc-130-commerce"
    } else if str_eq(app.short, "edge") {
        "cc-140-edge"
    } else if str_eq(app.short, "ana") {
        "cc-210-data"
    } else {
        "cc-900-corp-it"
    }
}

/// Tags from a list of pairs, sorted by key, a later pair winning.
pub fn tags(entries: &[(&str, &str)]) -> (r: Vec<(String, String)>)
    ensures
        crate::order::keys_sorted(r@),
        crate::tags::pairs_map(r@) == crate::tags::str_pairs_map(entries@),
{
    pairs_from(entries)
}

/// The tags of an application's resources in an environment.
pub fn app_tags(env: EnvironmentProfile, app: AppProfile, managed_by: &str) -> (r: Vec<(String, String)>)
    ensures
        crate::order::keys_sorted(r@),
        crate::tags::pairs_map(r@) == Map::<Seq<char>, Seq<char>>::empty().insert(
            "Environment"@,
            env.name@,
        ).insert("Application"@, app.name@).insert("Owner"@, app.owner@).insert(
            "CostCenter"@,
            cost_center_spec(app.short@),
        ).insert("ManagedBy"@, managed_by@),
{
    let center = cost_center(app);
    let entries = [
        ("Environment", env.name),
        ("Application", app.name),
        ("Owner", app.owner),
        ("CostCenter", center),
        ("ManagedBy", managed_by),
    ];
    let r = pairs_from(&entries);
    proof {
        reveal_with_fuel(crate::tags::str_pairs_map, 6);
        assert(entries@ =~= seq![
            ("Environment", env.name),
            ("Application", app.name),
            ("Owner", app.owner),
            ("CostCenter", center),
            ("ManagedBy", managed_by),
        ]);
        assert(entries@.drop_last().drop_last().drop_last().drop_last().drop_last() =~= Seq::<(&str, &str)>::empty());
    }
    r
}

fn s(v: &str) -> (r: JsonValue)
    ensures
        r@ == Json::Str(v@),
{
    JsonValue::Str(v.to_owned())
}

fn st(v: String) -> (r: JsonValue)
    ensures
        r@ == Json::Str(v@),
{
    JsonValue::Str(v)
}

fn obj(entries: Vec<(&str, JsonValue)>) -> (r: JsonValue)
    ensures
        r@ == Json::Object(crate::json::pairs_model(entries@)),
{
    json_record(entries)
}

fn strs(items: &[&str]) -> (r: JsonValue)
    ensures
        r@ == str_array(str_views(items@)),
{
    broadcast use crate::json::group_json_view;

    let mut out: Vec<JsonValue> = Vec::new();
    let mut i: usize = 0;
    while i < items.len()
        invariant
            i <= items@.len(),
            crate::json::items_view(out@) == str_views(items@).take(i as int).map_values(|t: Seq<char>| Json::Str(t)),
        decreases items@.len() - i,
    {
        let ghost before = out@;
        out.push(s(items[i]));
        proof {
            assert(out@.drop_last() == before);
            assert(crate::json::items_view(out@) =~= str_views(items@).take(i + 1).map_values(
                |t: Seq<char>| Json::Str(t),
            ));
        }
        i += 1;
    }
    assert(str_views(items@).take(i as int) =~= str_views(items@));
    JsonValue::Array(out)
}

/// A JSON array of the texts.
pub open spec fn texts_array(items: Seq<String>) -> Json {
    str_array(crate::order::texts(items))
}

fn texts_json(items: &Vec<String>) -> (r: JsonValue)
    ensures
        r@ == texts_array(items@),
{
    broadcast use crate::json::group_json_view;

    let mut out: Vec<JsonValue> = Vec::new();
    let mut i: usize = 0;
    while i < items.len()
        invariant
            i <= items@.len(),
            crate::json::items_view(out@) == crate::order::texts(items@).take(i as int).map_values(
                |t: Seq<char>| Json::Str(t),
            ),
        decreases items@.len() - i,
    {
        let ghost before = out@;
        let item = items[i].clone();
        assert(item@ == crate::order::texts(items@)[i as int]);
        out.push(st(item));
        proof {
            assert(out@.drop_last() == before);
            assert(crate::json::items_view(out@) =~= crate::order::texts(items@).take(i + 1).map_values(
                |t: Seq<char>| Json::Str(t),
            ));
        }
        i += 1;
    }
    assert(crate::order::texts(items@).take(i as int) =~= crate::order::texts(items@));
    JsonValue::Array(out)
}

fn evidence(service: &str, operation: &str, path: &str) -> (e: Evidence)
    ensures
        e.service@ == service@,
        e.operation@ == operation@,
        e.path@ == path@,
        e.collected_at@ == DEMO_TIME@,
{
    Evidence {
        service: service.to_owned(),
        operation: operation.to_owned(),
        path: path.to_owned(),
        collected_at: DEMO_TIME.to_owned(),
    }
}

/// A resource of the demo account: an AWS resource whose uid is the stable
/// `aws:<account>:<region>:<service>:<type>:<id>` of its own fields.
pub open spec fn demo_resource_ok(r: Resource) -> bool {
    &&& r.provider@ == "aws"@
    &&& r.account_id@ == ACCOUNT_ID@
    &&& r.partition@ == "aws"@
    &&& r.uid@ == aws_uid_spec(r.account_id@, r.region@, r.service@, r.resource_type@, r.id@)
    &&& crate::order::keys_sorted(r.tags@)
}

/// A demo relationship: its uid is made of its endpoints and type, it has
/// no attributes, and the demo itself is its one evidence.
pub open spec fn demo_relationship_ok(r: Relationship) -> bool {
    &&& r.uid@ == relationship_uid_spec(r.from@, r.relationship_type@, r.to@)
    &&& r.attributes@ == Json::Object(seq![])
    &&& r.evidence@.map_values(|e: Evidence| (e.service@, e.operation@, e.path@, e.collected_at@)) == seq![
        ("cloudmapper"@, "demo"@, "$"@, DEMO_TIME@),
    ]
}

/// Whether every resource is a demo account resource with its stable uid.
pub open spec fn resources_ok(s: Seq<Resource>) -> bool {
    forall|i: int| 0 <= i < s.len() ==> demo_resource_ok(#[trigger] s[i])
}

/// Whether every relationship's uid is made of its endpoints and type.
pub open spec fn relationships_ok(s: Seq<Relationship>) -> bool {
    forall|i: int| 0 <= i < s.len() ==> demo_relationship_ok(#[trigger] s[i])
}

fn relationship(from: &str, relationship_type: &str, to: &str) -> (r: Relationship)
    ensures
        demo_relationship_ok(r),
        relationship_key(r) == (from@, relationship_type@, to@),
{
    let r = Relationship {
        uid: relationship_uid(from, relationship_type, to),
        from: from.to_owned(),
        to: to.to_owned(),
        relationship_type: relationship_type.to_owned(),
        attributes: JsonValue::Object(Vec::new()),
        evidence: vec![evidence("cloudmapper", "demo", "$")],
    };
    proof {
        broadcast use crate::json::group_json_view;

        assert(crate::json::entries_view(Seq::<(String, JsonValue)>::empty()) =~= seq![]);
        assert(r.evidence@.map_values(|e: Evidence| (e.service@, e.operation@, e.path@, e.collected_at@)) =~= seq![
            ("cloudmapper"@, "demo"@, "$"@, DEMO_TIME@),
        ]);
    }
    r
}

fn resource(
    uid: String,
    region: &str,
    service: &str,
    resource_type: &str,
    id: String,
    arn: String,
    name: String,
    tags: Vec<(String, String)>,
    attributes: JsonValue,
    evidence: Evidence,
    raw: Option<JsonValue>,
) -> (r: Resource)
    requires
        uid@ == aws_uid_spec(ACCOUNT_ID@, region@, service@, resource_type@, id@),
        crate::order::keys_sorted(tags@),
        evidence.collected_at@ == DEMO_TIME@,
    ensures
        demo_resource_ok(r),
        r.region@ == region@,
        r.service@ == service@,
        r.resource_type@ == resource_type@,
        r.id == id,
        resource_item(r) == item(
            region@,
            service@,
            resource_type@,
            id@,
            arn@,
            name@,
            crate::tags::pairs_map(tags@),
            attributes@,
            (evidence.service@, evidence.operation@, evidence.path@),
            crate::terraform_state::opt_json_view(raw),
        ),
{
    let r = Resource {
        uid,
        provider: "aws".to_owned(),
        account_id: ACCOUNT_ID.to_owned(),
        partition: "aws".to_owned(),
        region: region.to_owned(),
        service: service.to_owned(),
        resource_type: resource_type.to_owned(),
        id,
        arn: Some(arn),
        name: Some(name),
        tags,
        attributes,
        evidence: vec![evidence],
        raw,
    };
    assert(r.evidence@.map_values(|e: Evidence| (e.service@, e.operation@, e.path@, e.collected_at@)) =~= seq![
        (evidence.service@, evidence.operation@, evidence.path@, DEMO_TIME@),
    ]);
    r
}

/// The ids and uids of one environment's network in one region.
#[derive(Clone, Debug)]
pub struct NetworkRefs {
    pub vpc_id: String,
    pub vpc_uid: String,
    pub subnet_ids: Vec<String>,
    pub subnet_uids: Vec<String>,
}

fn zone_suffix(index: usize) -> (r: &'static str)
    ensures
        r@ == (if index == 0 {
            "a"@
        } else if index == 1 {
            "b"@
        } else {
            "c"@
        }),
{
    if index == 0 {
        "a"
    } else if index == 1 {
        "b"
    } else {
        "c"
    }
}

/// The id of an environment's network resource of a kind in a region,
/// such as `vpc-use1prod`.
pub open spec fn network_id(prefix: Seq<char>, region: RegionProfile, env: EnvironmentProfile) -> Seq<char> {
    prefix + region.short@ + env.name@
}

/// The id of an environment's subnet at a position in a region.
pub open spec fn subnet_id_spec(region: RegionProfile, env: EnvironmentProfile, k: int) -> Seq<char> {
    "subnet-"@ + region.short@ + env.name@ + crate::text::decimal_spec((k + 1) as nat)
}

/// The second octet of an environment's network in a region, in decimal.
pub open spec fn cidr_base_spec(region: RegionProfile, env: EnvironmentProfile) -> Seq<char> {
    crate::text::decimal_spec((region.cidr_octet + env.cidr_offset) as nat)
}

/// The zone letter of the subnet at a position.
pub open spec fn zone_spec(k: int) -> Seq<char> {
    if k == 0 {
        "a"@
    } else if k == 1 {
        "b"@
    } else {
        "c"@
    }
}

/// The tags of an environment's network resources.
pub open spec fn network_tags(env: EnvironmentProfile) -> Map<Seq<char>, Seq<char>> {
    crate::tags::str_pairs_map(seq![("Environment", env.name), ("Owner", "network-platform"), ("ManagedBy", "terraform")])
}

/// An environment's VPC in a region: `10.<base>.0.0/16`, not the default.
pub open spec fn vpc_item(region: RegionProfile, env: EnvironmentProfile) -> DemoItem {
    let id = network_id("vpc-"@, region, env);
    let cidr = "10."@ + cidr_base_spec(region, env) + ".0.0/16"@;
    item(
        region.name@,
        "ec2"@,
        "vpc"@,
        id,
        ec2_arn_spec(region.name@, "vpc"@, id),
        env.name@ + "-"@ + region.short@ + "-shared-vpc"@,
        crate::tags::str_pairs_map(
            seq![("Environment", env.name), ("Owner", "network-platform"), ("CostCenter", "cc-network"), ("ManagedBy", "terraform")],
        ),
        Json::Object(
            seq![
                ("cidr_block"@, Json::Str(cidr)),
                ("is_default"@, Json::Bool(false)),
                ("dns_hostnames"@, Json::Bool(true)),
                ("dns_support"@, Json::Bool(true)),
            ],
        ),
        ("ec2"@, "DescribeVpcs"@, "$.Vpcs[*]"@),
        Some(Json::Object(seq![("VpcId"@, Json::Str(id)), ("CidrBlock"@, Json::Str(cidr))])),
    )
}

/// An environment's subnet at a position in a region: `10.<base>.<10+k>.0/24`
/// in the region's zone of that position.
pub open spec fn subnet_item(region: RegionProfile, env: EnvironmentProfile, k: int) -> DemoItem {
    let id = subnet_id_spec(region, env, k);
    item(
        region.name@,
        "ec2"@,
        "subnet"@,
        id,
        ec2_arn_spec(region.name@, "subnet"@, id),
        env.name@ + "-"@ + region.short@ + "-app-"@ + crate::text::decimal_spec((k + 1) as nat),
        crate::tags::str_pairs_map(
            seq![("Environment", env.name), ("Tier", "application"), ("Owner", "network-platform"), ("ManagedBy", "terraform")],
        ),
        Json::Object(
            seq![
                ("cidr_block"@, Json::Str("10."@ + cidr_base_spec(region, env) + "."@ + crate::text::decimal_spec((k + 10) as nat) + ".0/24"@)),
                ("availability_zone"@, Json::Str(region.name@ + zone_spec(k))),
                ("vpc_id"@, Json::Str(network_id("vpc-"@, region, env))),
            ],
        ),
        ("ec2"@, "DescribeSubnets"@, "$.Subnets[*]"@),
        None,
    )
}

/// An environment's private route table: local traffic, and everything
/// else through the NAT gateway.
pub open spec fn route_table_item(region: RegionProfile, env: EnvironmentProfile) -> DemoItem {
    let id = network_id("rtb-"@, region, env);
    item(
        region.name@,
        "ec2"@,
        "route-table"@,
        id,
        ec2_arn_spec(region.name@, "route-table"@, id),
        env.name@ + "-"@ + region.short@ + "-private"@,
        network_tags(env),
        Json::Object(
            seq![
                ("routes"@, Json::Array(seq![
                    Json::Object(seq![("destination"@, Json::Str("10.0.0.0/8"@)), ("target"@, Json::Str("local"@))]),
                    Json::Object(seq![("destination"@, Json::Str("0.0.0.0/0"@)), ("target"@, Json::Str(network_id("nat-"@, region, env)))]),
                ])),
            ],
        ),
        ("ec2"@, "DescribeRouteTables"@, "$.RouteTables[*]"@),
        None,
    )
}

/// An environment's internet gateway, attached to its VPC.
pub open spec fn igw_item(region: RegionProfile, env: EnvironmentProfile) -> DemoItem {
    let id = network_id("igw-"@, region, env);
    item(
        region.name@,
        "ec2"@,
        "internet-gateway"@,
        id,
        ec2_arn_spec(region.name@, "internet-gateway"@, id),
        env.name@ + "-"@ + region.short@ + "-igw"@,
        network_tags(env),
        Json::Object(
            seq![
                ("attachments"@, Json::Array(seq![
                    Json::Object(seq![("vpc_id"@, Json::Str(network_id("vpc-"@, region, env))), ("state"@, Json::Str("available"@))]),
                ])),
            ],
        ),
        ("ec2"@, "DescribeInternetGateways"@, "$.InternetGateways[*]"@),
        None,
    )
}

/// An environment's public NAT gateway, in its first subnet.
pub open spec fn nat_item(region: RegionProfile, env: EnvironmentProfile) -> DemoItem {
    let id = network_id("nat-"@, region, env);
    item(
        region.name@,
        "ec2"@,
        "nat-gateway"@,
        id,
        ec2_arn_spec(region.name@, "natgateway"@, id),
        env.name@ + "-"@ + region.short@ + "-nat-a"@,
        network_tags(env),
        Json::Object(
            seq![
                ("state"@, Json::Str("available"@)),
                ("subnet_id"@, Json::Str(subnet_id_spec(region, env, 0))),
                ("connectivity_type"@, Json::Str("public"@)),
            ],
        ),
        ("ec2"@, "DescribeNatGateways"@, "$.NatGateways[*]"@),
        None,
    )
}

/// The network of an environment in a region: its VPC, three subnets, a
/// private route table, an internet gateway and a NAT gateway.
pub open spec fn network_items(region: RegionProfile, env: EnvironmentProfile) -> Seq<DemoItem> {
    seq![vpc_item(region, env)] + Seq::new(3, |k: int| subnet_item(region, env, k)) + seq![
        route_table_item(region, env),
        igw_item(region, env),
        nat_item(region, env),
    ]
}

/// The network's relationships: each subnet and the route table in the
/// VPC, the internet gateway attached to it, the NAT gateway in the first subnet.
pub open spec fn network_relationship_keys(region: RegionProfile, env: EnvironmentProfile) -> Seq<
    (Seq<char>, Seq<char>, Seq<char>),
> {
    let vpc = ec2_uid(region, "vpc"@, network_id("vpc-"@, region, env));
    Seq::new(3, |k: int| (ec2_uid(region, "subnet"@, subnet_id_spec(region, env, k)), "in_vpc"@, vpc)) + seq![
        (ec2_uid(region, "route-table"@, network_id("rtb-"@, region, env)), "in_vpc"@, vpc),
        (ec2_uid(region, "internet-gateway"@, network_id("igw-"@, region, env)), "attached_to_vpc"@, vpc),
        (
            ec2_uid(region, "nat-gateway"@, network_id("nat-"@, region, env)),
            "in_subnet"@,
            ec2_uid(region, "subnet"@, subnet_id_spec(region, env, 0)),
        ),
    ]
}

#[verifier::rlimit(40)]
#[verifier::spinoff_prover]
fn add_network_resources(
    resources: &mut Vec<Resource>,
    relationships: &mut Vec<Relationship>,
    region: RegionProfile,
    env: EnvironmentProfile,
) -> (r: NetworkRefs)
    requires
        region.cidr_octet <= 30,
        env.cidr_offset <= 40,
        resources_ok(old(resources)@),
        relationships_ok(old(relationships)@),
    ensures
        r.subnet_ids@.len() == 3,
        r.subnet_uids@.len() == 3,
        r.vpc_id@ == network_id("vpc-"@, region, env),
        r.vpc_uid@ == ec2_uid(region, "vpc"@, network_id("vpc-"@, region, env)),
        forall|k: int| 0 <= k < 3 ==> #[trigger] r.subnet_ids@[k]@ == subnet_id_spec(region, env, k),
        forall|k: int|
            0 <= k < 3 ==> #[trigger] r.subnet_uids@[k]@ == ec2_uid(region, "subnet"@, subnet_id_spec(region, env, k)),
        resources_ok(final(resources)@),
        relationships_ok(final(relationships)@),
        keeps(old(resources)@, final(resources)@),
        keeps(old(relationships)@, final(relationships)@),
        resource_items(final(resources)@) == resource_items(old(resources)@) + network_items(region, env),
        relationship_keys(final(relationships)@) == relationship_keys(old(relationships)@) + network_relationship_keys(
            region,
            env,
        ),
{
    broadcast use crate::json::group_json_view;

    let ghost old_res = resources@;
    let ghost old_rel = relationships@;
    let vpc_id = crate::k8s_demo::cat3("vpc-", region.short, env.name);
    let vpc_uid = resource_uid(ACCOUNT_ID, region.name, "ec2", "vpc", vpc_id.as_str());
    let cidr_base = decimal((region.cidr_octet + env.cidr_offset) as u64);
    let vpc_cidr = crate::k8s_demo::cat3("10.", cidr_base.as_str(), ".0.0/16");
    let vpc_tags = [
        ("Environment", env.name),
        ("Owner", "network-platform"),
        ("CostCenter", "cc-network"),
        ("ManagedBy", "terraform"),
    ];
    assert(vpc_tags@ =~= seq![("Environment", env.name), ("Owner", "network-platform"), ("CostCenter", "cc-network"), ("ManagedBy", "terraform")]);
    let vpc_attributes = vec![
        ("cidr_block", st(vpc_cidr.clone())),
        ("is_default", JsonValue::Bool(false)),
        ("dns_hostnames", JsonValue::Bool(true)),
        ("dns_support", JsonValue::Bool(true)),
    ];
    assert(crate::json::pairs_model(vpc_attributes@) =~= seq![
        ("cidr_block"@, Json::Str(vpc_cidr@)),
        ("is_default"@, Json::Bool(false)),
        ("dns_hostnames"@, Json::Bool(true)),
        ("dns_support"@, Json::Bool(true)),
    ]);
    let vpc_raw = vec![("VpcId", st(vpc_id.clone())), ("CidrBlock", st(vpc_cidr))];
    assert(crate::json::pairs_model(vpc_raw@) =~= seq![("VpcId"@, Json::Str(vpc_id@)), ("CidrBlock"@, Json::Str(vpc_cidr@))]);
    let ghost before_vpc = resources@;
    push_resource(resources, resource(
        vpc_uid.clone(),
        region.name,
        "ec2",
        "vpc",
        vpc_id.clone(),
        ec2_arn(region.name, "vpc", vpc_id.as_str()),
        crate::k8s_demo::cat4(env.name, "-", region.short, "-shared-vpc"),
        tags(&vpc_tags),
        obj(vpc_attributes),
        evidence("ec2", "DescribeVpcs", "$.Vpcs[*]"),
        Some(obj(vpc_raw)),
    ));
    assert(resource_item(resources@.last()) == vpc_item(region, env));

    let ghost vpc_u = ec2_uid(region, "vpc"@, network_id("vpc-"@, region, env));
    let ghost res_key = |k: int| subnet_item(region, env, k);
    let ghost rel_key = |k: int| (ec2_uid(region, "subnet"@, subnet_id_spec(region, env, k)), "in_vpc"@, vpc_u);
    let ghost res0 = resource_items(old_res) + seq![vpc_item(region, env)];
    assert(resource_items(resources@) =~= res0);
    assert(relationship_keys(relationships@) =~= relationship_keys(old_rel) + Seq::new(0, rel_key));
    let mut subnet_ids: Vec<String> = Vec::new();
    let mut subnet_uids: Vec<String> = Vec::new();
    let mut az_index: usize = 0;
    while az_index < 3
        invariant
            az_index <= 3,
            subnet_ids@.len() == az_index,
            subnet_uids@.len() == az_index,
            vpc_uid@ == vpc_u,
            vpc_id@ == network_id("vpc-"@, region, env),
            cidr_base@ == cidr_base_spec(region, env),
            vpc_u == ec2_uid(region, "vpc"@, network_id("vpc-"@, region, env)),
            forall|k: int| 0 <= k < az_index ==> #[trigger] subnet_ids@[k]@ == subnet_id_spec(region, env, k),
            forall|k: int|
                0 <= k < az_index ==> #[trigger] subnet_uids@[k]@ == ec2_uid(region, "subnet"@, subnet_id_spec(region, env, k)),
            resources_ok(resources@),
            relationships_ok(relationships@),
            keeps(old_res, resources@),
            keeps(old_rel, relationships@),
            res_key == (|k: int| subnet_item(region, env, k)),
            rel_key == (|k: int| (ec2_uid(region, "subnet"@, subnet_id_spec(region, env, k)), "in_vpc"@, vpc_u)),
            resource_items(resources@) == res0 + Seq::new(az_index as nat, res_key),
            relationship_keys(relationships@) == relationship_keys(old_rel) + Seq::new(az_index as nat, rel_key),
        decreases 3 - az_index,
    {
        let number = decimal((az_index + 1) as u64);
        let subnet_id = crate::k8s_demo::cat4("subnet-", region.short, env.name, number.as_str());
        let subnet_uid = resource_uid(ACCOUNT_ID, region.name, "ec2", "subnet", subnet_id.as_str());
        subnet_ids.push(subnet_id.clone());
        subnet_uids.push(subnet_uid.clone());
        let third = decimal((az_index + 10) as u64);
        let subnet_tags = [
            ("Environment", env.name),
            ("Tier", "application"),
            ("Owner", "network-platform"),
            ("ManagedBy", "terraform"),
        ];
        assert(subnet_tags@ =~= seq![("Environment", env.name), ("Tier", "application"), ("Owner", "network-platform"), ("ManagedBy", "terraform")]);
        let cidr = crate::k8s_demo::cat5("10.", cidr_base.as_str(), ".", third.as_str(), ".0/24");
        let zone = crate::k8s_demo::cat2(region.name, zone_suffix(az_index));
        let attributes = vec![
            ("cidr_block", st(cidr)),
            ("availability_zone", st(zone)),
            ("vpc_id", st(vpc_id.clone())),
        ];
        assert(crate::json::pairs_model(attributes@) =~= seq![
            ("cidr_block"@, Json::Str("10."@ + cidr_base_spec(region, env) + "."@ + crate::text::decimal_spec((az_index + 10) as nat) + ".0/24"@)),
            ("availability_zone"@, Json::Str(region.name@ + zone_spec(az_index as int))),
            ("vpc_id"@, Json::Str(network_id("vpc-"@, region, env))),
        ]);
        push_resource(resources, resource(
            subnet_uid.clone(),
            region.name,
            "ec2",
            "subnet",
            subnet_id.clone(),
            ec2_arn(region.name, "subnet", subnet_id.as_str()),
            crate::k8s_demo::cat5(env.name, "-", region.short, "-app-", number.as_str()),
            tags(&subnet_tags),
            obj(attributes),
            evidence("ec2", "DescribeSubnets", "$.Subnets[*]"),
            None,
        ));
        assert(resource_item(resources@.last()) == subnet_item(region, env, az_index as int));
        push_relationship(relationships, relationship(subnet_uid.as_str(), "in_vpc", vpc_uid.as_str()));
        proof {
            assert(Seq::new((az_index + 1) as nat, res_key) =~= Seq::new(az_index as nat, res_key).push(res_key(az_index as int)));
            assert(Seq::new((az_index + 1) as nat, rel_key) =~= Seq::new(az_index as nat, rel_key).push(rel_key(az_index as int)));
        }
        az_index += 1;
    }

    let route_table_id = crate::k8s_demo::cat3("rtb-", region.short, env.name);
    let route_table_uid = resource_uid(ACCOUNT_ID, region.name, "ec2", "route-table", route_table_id.as_str());
    let nat_id = crate::k8s_demo::cat3("nat-", region.short, env.name);
    let net_tags = [("Environment", env.name), ("Owner", "network-platform"), ("ManagedBy", "terraform")];
    assert(net_tags@ =~= seq![("Environment", env.name), ("Owner", "network-platform"), ("ManagedBy", "terraform")]);
    let local_route = vec![("destination", s("10.0.0.0/8")), ("target", s("local"))];
    let nat_route = vec![("destination", s("0.0.0.0/0")), ("target", st(nat_id.clone()))];
    assert(crate::json::pairs_model(local_route@) =~= seq![("destination"@, Json::Str("10.0.0.0/8"@)), ("target"@, Json::Str("local"@))]);
    assert(crate::json::pairs_model(nat_route@) =~= seq![("destination"@, Json::Str("0.0.0.0/0"@)), ("target"@, Json::Str(nat_id@))]);
    let routes = vec![obj(local_route), obj(nat_route)];
    assert(crate::json::items_view(routes@) =~= seq![
        Json::Object(seq![("destination"@, Json::Str("10.0.0.0/8"@)), ("target"@, Json::Str("local"@))]),
        Json::Object(seq![("destination"@, Json::Str("0.0.0.0/0"@)), ("target"@, Json::Str(nat_id@))]),
    ]);
    let route_attributes = vec![("routes", JsonValue::Array(routes))];
    assert(crate::json::pairs_model(route_attributes@) =~= seq![
        ("routes"@, Json::Array(seq![
            Json::Object(seq![("destination"@, Json::Str("10.0.0.0/8"@)), ("target"@, Json::Str("local"@))]),
            Json::Object(seq![("destination"@, Json::Str("0.0.0.0/0"@)), ("target"@, Json::Str(nat_id@))]),
        ])),
    ]);
    push_resource(resources, resource(
        route_table_uid.clone(),
        region.name,
        "ec2",
        "route-table",
        route_table_id.clone(),
        ec2_arn(region.name, "route-table", route_table_id.as_str()),
        crate::k8s_demo::cat4(env.name, "-", region.short, "-private"),
        tags(&net_tags),
        obj(route_attributes),
        evidence("ec2", "DescribeRouteTables", "$.RouteTables[*]"),
        None,
    ));
    assert(resource_item(resources@.last()) == route_table_item(region, env));
    push_relationship(relationships, relationship(route_table_uid.as_str(), "in_vpc", vpc_uid.as_str()));

    let igw_id = crate::k8s_demo::cat3("igw-", region.short, env.name);
    let igw_uid = resource_uid(ACCOUNT_ID, region.name, "ec2", "internet-gateway", igw_id.as_str());
    let attachment = vec![("vpc_id", st(vpc_id.clone())), ("state", s("available"))];
    assert(crate::json::pairs_model(attachment@) =~= seq![("vpc_id"@, Json::Str(vpc_id@)), ("state"@, Json::Str("available"@))]);
    let attachments = vec![obj(attachment)];
    assert(crate::json::items_view(attachments@) =~= seq![
        Json::Object(seq![("vpc_id"@, Json::Str(vpc_id@)), ("state"@, Json::Str("available"@))]),
    ]);
    let igw_attributes = vec![("attachments", JsonValue::Array(attachments))];
    assert(crate::json::pairs_model(igw_attributes@) =~= seq![
        ("attachments"@, Json::Array(seq![
            Json::Object(seq![("vpc_id"@, Json::Str(vpc_id@)), ("state"@, Json::Str("available"@))]),
        ])),
    ]);
    push_resource(resources, resource(
        igw_uid.clone(),
        region.name,
        "ec2",
        "internet-gateway",
        igw_id.clone(),
        ec2_arn(region.name, "internet-gateway", igw_id.as_str()),
        crate::k8s_demo::cat4(env.name, "-", region.short, "-igw"),
        tags(&net_tags),
        obj(igw_attributes),
        evidence("ec2", "DescribeInternetGateways", "$.InternetGateways[*]"),
        None,
    ));
    assert(resource_item(resources@.last()) == igw_item(region, env));
    push_relationship(relationships, relationship(igw_uid.as_str(), "attached_to_vpc", vpc_uid.as_str()));

    let nat_uid = resource_uid(ACCOUNT_ID, region.name, "ec2", "nat-gateway", nat_id.as_str());
    let nat_attributes = vec![
        ("state", s("available")),
        ("subnet_id", st(subnet_ids[0].clone())),
        ("connectivity_type", s("public")),
    ];
    assert(crate::json::pairs_model(nat_attributes@) =~= seq![
        ("state"@, Json::Str("available"@)),
        ("subnet_id"@, Json::Str(subnet_id_spec(region, env, 0))),
        ("connectivity_type"@, Json::Str("public"@)),
    ]);
    push_resource(resources, resource(
        nat_uid.clone(),
        region.name,
        "ec2",
        "nat-gateway",
        nat_id.clone(),
        ec2_arn(region.name, "natgateway", nat_id.as_str()),
        crate::k8s_demo::cat4(env.name, "-", region.short, "-nat-a"),
        tags(&net_tags),
        obj(nat_attributes),
        evidence("ec2", "DescribeNatGateways", "$.NatGateways[*]"),
        None,
    ));
    assert(resource_item(resources@.last()) == nat_item(region, env));
    push_relationship(relationships, relationship(nat_uid.as_str(), "in_subnet", subnet_uids[0].as_str()));

    assert(resource_items(resources@) =~= resource_items(old_res) + network_items(region, env));
    assert(relationship_keys(relationships@) =~= relationship_keys(old_rel) + network_relationship_keys(region, env));
    NetworkRefs { vpc_id, vpc_uid, subnet_ids, subnet_uids }
}

/// A TCP ingress rule on one port from some IPv4 and IPv6 ranges.
pub open spec fn ingress_rule_json(port: int, ipv4: Seq<Seq<char>>, ipv6: Seq<Seq<char>>) -> Json {
    Json::Object(
        seq![
            ("ip_protocol"@, Json::Str("tcp"@)),
            ("from_port"@, crate::k8s_demo::jn(port)),
            ("to_port"@, crate::k8s_demo::jn(port)),
            ("ipv4_ranges"@, str_array(ipv4)),
            ("ipv6_ranges"@, str_array(ipv6)),
        ],
    )
}

/// The ingress of an application's security group: HTTPS from anywhere
/// for the edge, SSH from anywhere for the legacy admin host, and the
/// application's port from the private ranges otherwise (only `10.0.0.0/8`
/// in production).
pub open spec fn ingress_rules_spec(env: EnvironmentProfile, app: AppProfile) -> Json {
    Json::Array(
        seq![
            if app.short@ == "edge"@ {
                ingress_rule_json(443, seq!["0.0.0.0/0"@], seq!["::/0"@])
            } else if app.short@ == "legacy"@ {
                ingress_rule_json(22, seq!["0.0.0.0/0"@], seq![])
            } else if env.name@ == "prod"@ {
                ingress_rule_json(app.port as int, seq!["10.0.0.0/8"@], seq![])
            } else {
                ingress_rule_json(app.port as int, seq!["10.0.0.0/8"@, "172.16.0.0/12"@], seq![])
            },
        ],
    )
}

fn ingress_rules(env: EnvironmentProfile, app: AppProfile) -> (r: JsonValue)
    ensures
        r@ == ingress_rules_spec(env, app),
{
    assert(seq![].map_values(|t: Seq<char>| Json::Str(t)) =~= Seq::<Json>::empty());
    if str_eq(app.short, "edge") {
        return arr1(obj5(
            "ip_protocol",
            s("tcp"),
            "from_port",
            int_json(443),
            "to_port",
            int_json(443),
            "ipv4_ranges",
            strs1("0.0.0.0/0"),
            "ipv6_ranges",
            strs1("::/0"),
        ));
    }
    if str_eq(app.short, "legacy") {
        return arr1(obj5(
            "ip_protocol",
            s("tcp"),
            "from_port",
            int_json(22),
            "to_port",
            int_json(22),
            "ipv4_ranges",
            strs1("0.0.0.0/0"),
            "ipv6_ranges",
            arr0(),
        ));
    }
    let ranges = if str_eq(env.name, "prod") {
        strs1("10.0.0.0/8")
    } else {
        let both = ["10.0.0.0/8", "172.16.0.0/12"];
        assert(str_views(both@) =~= seq!["10.0.0.0/8"@, "172.16.0.0/12"@]);
        strs(&both)
    };
    arr1(obj5(
        "ip_protocol",
        s("tcp"),
        "from_port",
        int_json(app.port),
        "to_port",
        int_json(app.port),
        "ipv4_ranges",
        ranges,
        "ipv6_ranges",
        arr0(),
    ))
}

/// The id of an application's security group in a region and environment.
pub open spec fn sg_id_spec(region: RegionProfile, env: EnvironmentProfile, app: AppProfile) -> Seq<char> {
    "sg-"@ + region.short@ + env.name@ + app.short@
}

/// The uid of an EC2 resource of the demo in a region.
pub open spec fn ec2_uid(region: RegionProfile, resource_type: Seq<char>, id: Seq<char>) -> Seq<char> {
    aws_uid_spec(ACCOUNT_ID@, region.name@, "ec2"@, resource_type, id)
}

/// The id of an application's instance at a position.
pub open spec fn instance_id_spec(region: RegionProfile, env: EnvironmentProfile, app: AppProfile, i: int) -> Seq<char> {
    "i-"@ + region.short@ + env.name@ + app.short@ + crate::text::zero_padded_spec((i + 1) as nat, 2)
}

/// The id of the volume of an application's instance at a position.
pub open spec fn volume_id_spec(region: RegionProfile, env: EnvironmentProfile, app: AppProfile, i: int) -> Seq<char> {
    "vol-"@ + region.short@ + env.name@ + app.short@ + crate::text::zero_padded_spec((i + 1) as nat, 2)
}

/// The name of an application's worker function.
pub open spec fn function_id_spec(region: RegionProfile, env: EnvironmentProfile, app: AppProfile) -> Seq<char> {
    env.name@ + "-"@ + region.short@ + "-"@ + app.name@ + "-worker"@
}

/// The id of an application's database.
pub open spec fn db_id_spec(region: RegionProfile, env: EnvironmentProfile, app: AppProfile) -> Seq<char> {
    env.name@ + "-"@ + region.short@ + "-"@ + app.short@ + "-db"@
}

/// Whether an application keeps a database: payments, identity, orders and analytics.
pub open spec fn has_db_spec(app: AppProfile) -> bool {
    app.short@ == "pay"@ || app.short@ == "id"@ || app.short@ == "ord"@ || app.short@ == "ana"@
}

/// The tags of an application's resources, managed by `managed_by`.
pub open spec fn app_tag_map(env: EnvironmentProfile, app: AppProfile, managed_by: Seq<char>) -> Map<Seq<char>, Seq<char>> {
    Map::<Seq<char>, Seq<char>>::empty().insert("Environment"@, env.name@).insert("Application"@, app.name@).insert(
        "Owner"@,
        app.owner@,
    ).insert("CostCenter"@, cost_center_spec(app.short@)).insert("ManagedBy"@, managed_by)
}

/// The name prefix of an application's resources: `<env>-<region>-<app>`.
pub open spec fn app_prefix(region: RegionProfile, env: EnvironmentProfile, app: AppProfile) -> Seq<char> {
    env.name@ + "-"@ + region.short@ + "-"@ + app.name@
}

/// An application's security group: its ingress rules and egress to anywhere.
pub open spec fn sg_item(region: RegionProfile, env: EnvironmentProfile, app: AppProfile) -> DemoItem {
    let id = sg_id_spec(region, env, app);
    let name = app_prefix(region, env, app) + "-sg"@;
    let managed = if env.name@ == "prod"@ && app.managed_prod {
        "terraform"@
    } else {
        "console"@
    };
    item(
        region.name@,
        "ec2"@,
        "security-group"@,
        id,
        ec2_arn_spec(region.name@, "security-group"@, id),
        name,
        app_tag_map(env, app, managed),
        Json::Object(
            seq![
                ("description"@, Json::Str(env.name@ + " "@ + app.name@ + " workload ingress"@)),
                ("vpc_id"@, Json::Str(network_id("vpc-"@, region, env))),
                ("ingress"@, ingress_rules_spec(env, app)),
                ("egress"@, Json::Array(seq![
                    Json::Object(seq![
                        ("ip_protocol"@, Json::Str("-1"@)),
                        ("ipv4_ranges"@, str_array(seq!["0.0.0.0/0"@])),
                        ("ipv6_ranges"@, Json::Array(seq![])),
                    ]),
                ])),
            ],
        ),
        ("ec2"@, "DescribeSecurityGroups"@, "$.SecurityGroups[*]"@),
        Some(Json::Object(seq![("GroupId"@, Json::Str(id)), ("GroupName"@, Json::Str(name))])),
    )
}

/// An application's instance at a position: in the subnet of that position
/// (the subnets in turn), with the application's runtime profile.
pub open spec fn instance_item(region: RegionProfile, env: EnvironmentProfile, app: AppProfile, i: int) -> DemoItem {
    let id = instance_id_spec(region, env, app, i);
    let managed = if env.name@ == "prod"@ && app.managed_instances {
        "terraform"@
    } else {
        "autoscaling"@
    };
    item(
        region.name@,
        "ec2"@,
        "instance"@,
        id,
        ec2_arn_spec(region.name@, "instance"@, id),
        app_prefix(region, env, app) + "-"@ + crate::text::zero_padded_spec((i + 1) as nat, 2),
        app_tag_map(env, app, managed),
        Json::Object(
            seq![
                ("instance_type"@, Json::Str(instance_type_spec(env.name@, app.short@))),
                ("state"@, Json::Str("running"@)),
                ("private_ip_address"@, Json::Str(
                    "10."@ + cidr_base_spec(region, env) + "."@ + crate::text::decimal_spec((i % 3 + 10) as nat) + "."@
                        + crate::text::decimal_spec((i + 20) as nat),
                )),
                ("subnet_id"@, Json::Str(subnet_id_spec(region, env, i % 3))),
                ("vpc_id"@, Json::Str(network_id("vpc-"@, region, env))),
                ("iam_instance_profile"@, Json::Str("cloudmapper-demo-"@ + app.short@ + "-runtime"@)),
            ],
        ),
        ("ec2"@, "DescribeInstances"@, "$.Reservations[*]"@),
        None,
    )
}

/// The encrypted data volume of an application's instance at a position, attached to it.
pub open spec fn volume_item(region: RegionProfile, env: EnvironmentProfile, app: AppProfile, i: int) -> DemoItem {
    let id = volume_id_spec(region, env, app, i);
    item(
        region.name@,
        "ec2"@,
        "volume"@,
        id,
        ec2_arn_spec(region.name@, "volume"@, id),
        app_prefix(region, env, app) + "-data-"@ + crate::text::zero_padded_spec((i + 1) as nat, 2),
        app_tag_map(env, app, "autoscaling"@),
        Json::Object(
            seq![
                ("availability_zone"@, Json::Str(region.name@ + zone_spec(i % 3))),
                ("size_gib"@, Json::Number(crate::json::int_text(volume_size_spec(env.name@, app.short@) as int))),
                ("volume_type"@, Json::Str("gp3"@)),
                ("encrypted"@, Json::Bool(true)),
                ("attachments"@, Json::Array(seq![
                    Json::Object(seq![
                        ("instance_id"@, Json::Str(instance_id_spec(region, env, app, i))),
                        ("state"@, Json::Str("attached"@)),
                    ]),
                ])),
            ],
        ),
        ("ec2"@, "DescribeVolumes"@, "$.Volumes[*]"@),
        None,
    )
}

/// An application's worker function: in the environment's subnets, behind
/// the security group, assuming the application's runtime role.
pub open spec fn function_item(region: RegionProfile, env: EnvironmentProfile, app: AppProfile) -> DemoItem {
    let id = function_id_spec(region, env, app);
    item(
        region.name@,
        "lambda"@,
        "function"@,
        id,
        "arn:aws:lambda:"@ + region.name@ + ":"@ + ACCOUNT_ID@ + ":function:"@ + id,
        id,
        app_tag_map(env, app, "terraform"@),
        Json::Object(
            seq![
                ("runtime"@, Json::Str("provided.al2023"@)),
                ("memory_size"@, Json::Number(crate::json::int_text(1024))),
                ("timeout"@, Json::Number(crate::json::int_text(30))),
                ("vpc_config"@, Json::Object(seq![
                    ("subnet_ids"@, str_array(Seq::new(3, |k: int| subnet_id_spec(region, env, k)))),
                    ("security_group_ids"@, Json::Array(seq![Json::Str(sg_id_spec(region, env, app))])),
                ])),
                ("role"@, Json::Str("arn:aws:iam::"@ + ACCOUNT_ID@ + ":role/cloudmapper-demo-"@ + app.short@ + "-runtime"@)),
            ],
        ),
        ("lambda"@, "ListFunctions"@, "$.Functions[*]"@),
        None,
    )
}

/// An application's encrypted database: multi-AZ in production, PostgreSQL
/// for analytics and Aurora otherwise.
pub open spec fn db_item(region: RegionProfile, env: EnvironmentProfile, app: AppProfile) -> DemoItem {
    let id = db_id_spec(region, env, app);
    let prod = env.name@ == "prod"@;
    item(
        region.name@,
        "rds"@,
        "db-instance"@,
        id,
        "arn:aws:rds:"@ + region.name@ + ":"@ + ACCOUNT_ID@ + ":db:"@ + id,
        id,
        app_tag_map(env, app, if prod && app.managed_prod {
            "terraform"@
        } else {
            "console"@
        }),
        Json::Object(
            seq![
                ("engine"@, Json::Str(if app.short@ == "ana"@ {
                    "postgres"@
                } else {
                    "aurora-postgresql"@
                })),
                ("instance_class"@, Json::Str(if prod {
                    "db.r7g.large"@
                } else {
                    "db.t4g.medium"@
                })),
                ("multi_az"@, Json::Bool(prod)),
                ("storage_encrypted"@, Json::Bool(true)),
                ("vpc_id"@, Json::Str(network_id("vpc-"@, region, env))),
                ("db_subnet_group"@, Json::Str(env.name@ + "-"@ + region.short@ + "-db"@)),
            ],
        ),
        ("rds"@, "DescribeDBInstances"@, "$.DBInstances[*]"@),
        None,
    )
}

/// The first `n` instances of an application, each followed by its volume.
pub open spec fn instance_items(region: RegionProfile, env: EnvironmentProfile, app: AppProfile, n: nat) -> Seq<DemoItem>
    decreases n,
{
    if n == 0 {
        seq![]
    } else {
        let i = n - 1;
        instance_items(region, env, app, (n - 1) as nat) + seq![
            instance_item(region, env, app, i),
            volume_item(region, env, app, i),
        ]
    }
}

/// The resources of an application in a region and environment: its
/// security group, its instances with their volumes, its worker function
/// outside development, and its database outside development when it keeps one.
pub open spec fn app_items(region: RegionProfile, env: EnvironmentProfile, app: AppProfile) -> Seq<DemoItem> {
    let not_dev = env.name@ != "dev"@;
    seq![sg_item(region, env, app)] + instance_items(
        region,
        env,
        app,
        env.instances_per_app as nat,
    ) + (if app.lambda && not_dev {
        seq![function_item(region, env, app)]
    } else {
        seq![]
    }) + (if has_db_spec(app) && not_dev {
        seq![db_item(region, env, app)]
    } else {
        seq![]
    })
}

/// The relationships of the first `n` instances: each in its subnet (the
/// subnets in turn) and using the security group, and its volume attached.
pub open spec fn instance_relationship_keys(
    region: RegionProfile,
    env: EnvironmentProfile,
    app: AppProfile,
    subnet_uids: Seq<Seq<char>>,
    n: nat,
) -> Seq<(Seq<char>, Seq<char>, Seq<char>)>
    decreases n,
{
    if n == 0 {
        seq![]
    } else {
        let i = n - 1;
        let instance = ec2_uid(region, "instance"@, instance_id_spec(region, env, app, i));
        instance_relationship_keys(region, env, app, subnet_uids, (n - 1) as nat) + seq![
            (instance, "in_subnet"@, subnet_uids[i % 3]),
            (instance, "uses_security_group"@, ec2_uid(region, "security-group"@, sg_id_spec(region, env, app))),
            (ec2_uid(region, "volume"@, volume_id_spec(region, env, app, i)), "attached_to"@, instance),
        ]
    }
}

/// The relationships of an application's resources: the security group in
/// the VPC, the instances', the function using the security group and
/// assuming the application's runtime role when there is one, the database
/// using the security group and in the VPC.
pub open spec fn app_relationship_keys(
    region: RegionProfile,
    env: EnvironmentProfile,
    app: AppProfile,
    vpc_uid: Seq<char>,
    subnet_uids: Seq<Seq<char>>,
    roles: Map<Seq<char>, Seq<char>>,
) -> Seq<(Seq<char>, Seq<char>, Seq<char>)> {
    let not_dev = env.name@ != "dev"@;
    let sg = ec2_uid(region, "security-group"@, sg_id_spec(region, env, app));
    let function = aws_uid_spec(ACCOUNT_ID@, region.name@, "lambda"@, "function"@, function_id_spec(region, env, app));
    let db = aws_uid_spec(ACCOUNT_ID@, region.name@, "rds"@, "db-instance"@, db_id_spec(region, env, app));
    seq![(sg, "in_vpc"@, vpc_uid)] + instance_relationship_keys(
        region,
        env,
        app,
        subnet_uids,
        env.instances_per_app as nat,
    ) + (if app.lambda && not_dev {
        seq![(function, "uses_security_group"@, sg)] + (if roles.contains_key(app.short@) {
            seq![(function, "assumes_role"@, roles[app.short@])]
        } else {
            seq![]
        })
    } else {
        seq![]
    }) + (if has_db_spec(app) && not_dev {
        seq![(db, "uses_security_group"@, sg), (db, "in_vpc"@, vpc_uid)]
    } else {
        seq![]
    })
}

#[verifier::rlimit(40)]
#[verifier::spinoff_prover]
fn sg_resource(region: RegionProfile, env: EnvironmentProfile, app: AppProfile, vpc_id: &String) -> (r: Resource)
    requires
        vpc_id@ == network_id("vpc-"@, region, env),
    ensures
        demo_resource_ok(r),
        resource_item(r) == sg_item(region, env, app),
        r.uid@ == ec2_uid(region, "security-group"@, sg_id_spec(region, env, app)),
{
    broadcast use crate::json::group_json_view;

    let sg_id = security_group_id(region, env, app);
    let sg_uid = resource_uid(ACCOUNT_ID, region.name, "ec2", "security-group", sg_id.as_str());
    let sg_managed = if terraform_manages_security_group(env, app) {
        "terraform"
    } else {
        "console"
    };
    let sg_name = crate::k8s_demo::cat6(env.name, "-", region.short, "-", app.name, "-sg");
    let any = ["0.0.0.0/0"];
    assert(str_views(any@) =~= seq!["0.0.0.0/0"@]);
    let egress_rule = vec![
        ("ip_protocol", s("-1")),
        ("ipv4_ranges", strs(&any)),
        ("ipv6_ranges", JsonValue::Array(Vec::new())),
    ];
    assert(crate::json::items_view(Seq::<JsonValue>::empty()) =~= seq![]);
    assert(crate::json::pairs_model(egress_rule@) =~= seq![
        ("ip_protocol"@, Json::Str("-1"@)),
        ("ipv4_ranges"@, str_array(seq!["0.0.0.0/0"@])),
        ("ipv6_ranges"@, Json::Array(seq![])),
    ]);
    let egress = vec![obj(egress_rule)];
    assert(crate::json::items_view(egress@) =~= seq![
        Json::Object(seq![
            ("ip_protocol"@, Json::Str("-1"@)),
            ("ipv4_ranges"@, str_array(seq!["0.0.0.0/0"@])),
            ("ipv6_ranges"@, Json::Array(seq![])),
        ]),
    ]);
    let sg_attributes = vec![
        ("description", st(crate::k8s_demo::cat4(env.name, " ", app.name, " workload ingress"))),
        ("vpc_id", st(vpc_id.clone())),
        ("ingress", ingress_rules(env, app)),
        ("egress", JsonValue::Array(egress)),
    ];
    assert(crate::json::pairs_model(sg_attributes@) =~= seq![
        ("description"@, Json::Str(env.name@ + " "@ + app.name@ + " workload ingress"@)),
        ("vpc_id"@, Json::Str(network_id("vpc-"@, region, env))),
        ("ingress"@, ingress_rules_spec(env, app)),
        ("egress"@, Json::Array(seq![
            Json::Object(seq![
                ("ip_protocol"@, Json::Str("-1"@)),
                ("ipv4_ranges"@, str_array(seq!["0.0.0.0/0"@])),
                ("ipv6_ranges"@, Json::Array(seq![])),
            ]),
        ])),
    ]);
    let sg_raw = vec![("GroupId", st(sg_id.clone())), ("GroupName", st(sg_name.clone()))];
    assert(crate::json::pairs_model(sg_raw@) =~= seq![("GroupId"@, Json::Str(sg_id@)), ("GroupName"@, Json::Str(sg_name@))]);
    resource(
        sg_uid,
        region.name,
        "ec2",
        "security-group",
        sg_id.clone(),
        ec2_arn(region.name, "security-group", sg_id.as_str()),
        sg_name,
        app_tags(env, app, sg_managed),
        obj(sg_attributes),
        evidence("ec2", "DescribeSecurityGroups", "$.SecurityGroups[*]"),
        Some(obj(sg_raw)),
    )
}

#[verifier::rlimit(40)]
#[verifier::spinoff_prover]
fn instance_resource(
    region: RegionProfile,
    env: EnvironmentProfile,
    app: AppProfile,
    instance_index: usize,
    subnet_id: &String,
    vpc_id: &String,
) -> (r: Resource)
    requires
        region.cidr_octet <= 30,
        env.cidr_offset <= 40,
        instance_index < 3,
        subnet_id@ == subnet_id_spec(region, env, (instance_index % 3) as int),
        vpc_id@ == network_id("vpc-"@, region, env),
    ensures
        demo_resource_ok(r),
        resource_item(r) == instance_item(region, env, app, instance_index as int),
        r.uid@ == ec2_uid(region, "instance"@, instance_id_spec(region, env, app, instance_index as int)),
{
    let ghost i = instance_index as int;
    let instance_managed = if terraform_manages_instance(env, app) {
        "terraform"
    } else {
        "autoscaling"
    };
    let cidr_base = decimal((region.cidr_octet + env.cidr_offset) as u64);
    let instance_id = instance_id(region, env, app, instance_index);
    let instance_uid = resource_uid(ACCOUNT_ID, region.name, "ec2", "instance", instance_id.as_str());
    let subnet_index = instance_index % 3;
    let mut instance_name = crate::k8s_demo::cat6(env.name, "-", region.short, "-", app.name, "-");
    push_two_digits(&mut instance_name, (instance_index + 1) as u64);
    let subnet_third = decimal((subnet_index + 10) as u64);
    let host = decimal((instance_index + 20) as u64);
    let address = crate::k8s_demo::cat6("10.", cidr_base.as_str(), ".", subnet_third.as_str(), ".", host.as_str());
    let profile = crate::k8s_demo::cat3("cloudmapper-demo-", app.short, "-runtime");
    let instance_attributes = vec![
        ("instance_type", s(instance_type(env, app))),
        ("state", s("running")),
        ("private_ip_address", st(address)),
        ("subnet_id", st(subnet_id.clone())),
        ("vpc_id", st(vpc_id.clone())),
        ("iam_instance_profile", st(profile)),
    ];
    assert(crate::json::pairs_model(instance_attributes@) =~= seq![
        ("instance_type"@, Json::Str(instance_type_spec(env.name@, app.short@))),
        ("state"@, Json::Str("running"@)),
        ("private_ip_address"@, Json::Str(
            "10."@ + cidr_base_spec(region, env) + "."@ + crate::text::decimal_spec((i % 3 + 10) as nat) + "."@
                + crate::text::decimal_spec((i + 20) as nat),
        )),
        ("subnet_id"@, Json::Str(subnet_id_spec(region, env, i % 3))),
        ("vpc_id"@, Json::Str(network_id("vpc-"@, region, env))),
        ("iam_instance_profile"@, Json::Str("cloudmapper-demo-"@ + app.short@ + "-runtime"@)),
    ]);
    resource(
        instance_uid,
        region.name,
        "ec2",
        "instance",
        instance_id.clone(),
        ec2_arn(region.name, "instance", instance_id.as_str()),
        instance_name,
        app_tags(env, app, instance_managed),
        obj(instance_attributes),
        evidence("ec2", "DescribeInstances", "$.Reservations[*]"),
        None,
    )
}

#[verifier::rlimit(40)]
#[verifier::spinoff_prover]
fn volume_resource(region: RegionProfile, env: EnvironmentProfile, app: AppProfile, instance_index: usize) -> (r: Resource)
    requires
        instance_index < 3,
    ensures
        demo_resource_ok(r),
        resource_item(r) == volume_item(region, env, app, instance_index as int),
        r.uid@ == ec2_uid(region, "volume"@, volume_id_spec(region, env, app, instance_index as int)),
{
    broadcast use crate::json::group_json_view;

    let ghost i = instance_index as int;
    let instance_id = instance_id(region, env, app, instance_index);
    let volume_id = volume_id(region, env, app, instance_index);
    let volume_uid = resource_uid(ACCOUNT_ID, region.name, "ec2", "volume", volume_id.as_str());
    let mut volume_name = crate::k8s_demo::cat6(env.name, "-", region.short, "-", app.name, "-data-");
    push_two_digits(&mut volume_name, (instance_index + 1) as u64);
    let attachment = vec![("instance_id", st(instance_id)), ("state", s("attached"))];
    let ghost attachment_json = Json::Object(seq![
        ("instance_id"@, Json::Str(instance_id_spec(region, env, app, i))),
        ("state"@, Json::Str("attached"@)),
    ]);
    assert(crate::json::pairs_model(attachment@) =~= seq![
        ("instance_id"@, Json::Str(instance_id_spec(region, env, app, i))),
        ("state"@, Json::Str("attached"@)),
    ]);
    let attachment_value = obj(attachment);
    assert(attachment_value@ == attachment_json);
    let attachments = vec![attachment_value];
    assert(crate::json::items_view(attachments@) =~= seq![attachment_json]);
    let volume_attributes = vec![
        ("availability_zone", st(crate::k8s_demo::cat2(region.name, zone_suffix(instance_index % 3)))),
        ("size_gib", int_json(volume_size(env, app))),
        ("volume_type", s("gp3")),
        ("encrypted", JsonValue::Bool(true)),
        ("attachments", JsonValue::Array(attachments)),
    ];
    assert(crate::json::pairs_model(volume_attributes@) =~= seq![
        ("availability_zone"@, Json::Str(region.name@ + zone_spec(i % 3))),
        ("size_gib"@, Json::Number(crate::json::int_text(volume_size_spec(env.name@, app.short@) as int))),
        ("volume_type"@, Json::Str("gp3"@)),
        ("encrypted"@, Json::Bool(true)),
        ("attachments"@, Json::Array(seq![attachment_json])),
    ]);
    resource(
        volume_uid,
        region.name,
        "ec2",
        "volume",
        volume_id.clone(),
        ec2_arn(region.name, "volume", volume_id.as_str()),
        volume_name,
        app_tags(env, app, "autoscaling"),
        obj(volume_attributes),
        evidence("ec2", "DescribeVolumes", "$.Volumes[*]"),
        None,
    )
}

#[verifier::rlimit(40)]
#[verifier::spinoff_prover]
fn function_resource(region: RegionProfile, env: EnvironmentProfile, app: AppProfile, subnet_ids: &Vec<String>) -> (r: Resource)
    requires
        subnet_ids@.len() == 3,
        forall|k: int| 0 <= k < 3 ==> #[trigger] subnet_ids@[k]@ == subnet_id_spec(region, env, k),
    ensures
        demo_resource_ok(r),
        resource_item(r) == function_item(region, env, app),
        r.uid@ == aws_uid_spec(ACCOUNT_ID@, region.name@, "lambda"@, "function"@, function_id_spec(region, env, app)),
{
    broadcast use crate::json::group_json_view;

    let sg_id = security_group_id(region, env, app);
    let function_id = crate::k8s_demo::cat6(env.name, "-", region.short, "-", app.name, "-worker");
    let function_uid = resource_uid(ACCOUNT_ID, region.name, "lambda", "function", function_id.as_str());
    let group_ids = vec![st(sg_id)];
    assert(crate::json::items_view(group_ids@) =~= seq![Json::Str(sg_id_spec(region, env, app))]);
    let subnets = texts_json(subnet_ids);
    assert(crate::order::texts(subnet_ids@) =~= Seq::new(3, |k: int| subnet_id_spec(region, env, k)));
    let vpc_config = vec![("subnet_ids", subnets), ("security_group_ids", JsonValue::Array(group_ids))];
    assert(crate::json::pairs_model(vpc_config@) =~= seq![
        ("subnet_ids"@, str_array(Seq::new(3, |k: int| subnet_id_spec(region, env, k)))),
        ("security_group_ids"@, Json::Array(seq![Json::Str(sg_id_spec(region, env, app))])),
    ]);
    let role = crate::k8s_demo::cat5("arn:aws:iam::", ACCOUNT_ID, ":role/cloudmapper-demo-", app.short, "-runtime");
    let function_attributes = vec![
        ("runtime", s("provided.al2023")),
        ("memory_size", int_json(1024)),
        ("timeout", int_json(30)),
        ("vpc_config", obj(vpc_config)),
        ("role", st(role)),
    ];
    assert(crate::json::pairs_model(function_attributes@) =~= seq![
        ("runtime"@, Json::Str("provided.al2023"@)),
        ("memory_size"@, Json::Number(crate::json::int_text(1024))),
        ("timeout"@, Json::Number(crate::json::int_text(30))),
        ("vpc_config"@, Json::Object(seq![
            ("subnet_ids"@, str_array(Seq::new(3, |k: int| subnet_id_spec(region, env, k)))),
            ("security_group_ids"@, Json::Array(seq![Json::Str(sg_id_spec(region, env, app))])),
        ])),
        ("role"@, Json::Str("arn:aws:iam::"@ + ACCOUNT_ID@ + ":role/cloudmapper-demo-"@ + app.short@ + "-runtime"@)),
    ]);
    resource(
        function_uid,
        region.name,
        "lambda",
        "function",
        function_id.clone(),
        crate::k8s_demo::cat6("arn:aws:lambda:", region.name, ":", ACCOUNT_ID, ":function:", function_id.as_str()),
        function_id.clone(),
        app_tags(env, app, "terraform"),
        obj(function_attributes),
        evidence("lambda", "ListFunctions", "$.Functions[*]"),
        None,
    )
}

fn db_resource(region: RegionProfile, env: EnvironmentProfile, app: AppProfile, vpc_id: &String) -> (r: Resource)
    requires
        vpc_id@ == network_id("vpc-"@, region, env),
    ensures
        demo_resource_ok(r),
        resource_item(r) == db_item(region, env, app),
        r.uid@ == aws_uid_spec(ACCOUNT_ID@, region.name@, "rds"@, "db-instance"@, db_id_spec(region, env, app)),
{
    let prod = str_eq(env.name, "prod");
    let db_id = crate::k8s_demo::cat6(env.name, "-", region.short, "-", app.short, "-db");
    let db_uid = resource_uid(ACCOUNT_ID, region.name, "rds", "db-instance", db_id.as_str());
    let db_managed = if prod && app.managed_prod {
        "terraform"
    } else {
        "console"
    };
    let engine = if str_eq(app.short, "ana") {
        "postgres"
    } else {
        "aurora-postgresql"
    };
    let class = if prod {
        "db.r7g.large"
    } else {
        "db.t4g.medium"
    };
    let db_attributes = vec![
        ("engine", s(engine)),
        ("instance_class", s(class)),
        ("multi_az", JsonValue::Bool(prod)),
        ("storage_encrypted", JsonValue::Bool(true)),
        ("vpc_id", st(vpc_id.clone())),
        ("db_subnet_group", st(crate::k8s_demo::cat4(env.name, "-", region.short, "-db"))),
    ];
    assert(crate::json::pairs_model(db_attributes@) =~= seq![
        ("engine"@, Json::Str(if app.short@ == "ana"@ {
            "postgres"@
        } else {
            "aurora-postgresql"@
        })),
        ("instance_class"@, Json::Str(if env.name@ == "prod"@ {
            "db.r7g.large"@
        } else {
            "db.t4g.medium"@
        })),
        ("multi_az"@, Json::Bool(env.name@ == "prod"@)),
        ("storage_encrypted"@, Json::Bool(true)),
        ("vpc_id"@, Json::Str(network_id("vpc-"@, region, env))),
        ("db_subnet_group"@, Json::Str(env.name@ + "-"@ + region.short@ + "-db"@)),
    ]);
    resource(
        db_uid,
        region.name,
        "rds",
        "db-instance",
        db_id.clone(),
        crate::k8s_demo::cat6("arn:aws:rds:", region.name, ":", ACCOUNT_ID, ":db:", db_id.as_str()),
        db_id.clone(),
        app_tags(env, app, db_managed),
        obj(db_attributes),
        evidence("rds", "DescribeDBInstances", "$.DBInstances[*]"),
        None,
    )
}

#[verifier::rlimit(40)]
#[verifier::spinoff_prover]
fn add_app_resources(
    resources: &mut Vec<Resource>,
    relationships: &mut Vec<Relationship>,
    role_uids: &Vec<(String, String)>,
    region: RegionProfile,
    env: EnvironmentProfile,
    app: AppProfile,
    network: &NetworkRefs,
)
    requires
        region.cidr_octet <= 30,
        env.cidr_offset <= 40,
        env.instances_per_app <= 3,
        network.subnet_ids@.len() == 3,
        network.subnet_uids@.len() == 3,
        network.vpc_id@ == network_id("vpc-"@, region, env),
        forall|k: int| 0 <= k < 3 ==> #[trigger] network.subnet_ids@[k]@ == subnet_id_spec(region, env, k),
        crate::order::keys_sorted(role_uids@),
        resources_ok(old(resources)@),
        relationships_ok(old(relationships)@),
    ensures
        resources_ok(final(resources)@),
        relationships_ok(final(relationships)@),
        keeps(old(resources)@, final(resources)@),
        keeps(old(relationships)@, final(relationships)@),
        resource_items(final(resources)@) == resource_items(old(resources)@) + app_items(region, env, app),
        relationship_keys(final(relationships)@) == relationship_keys(old(relationships)@) + app_relationship_keys(
            region,
            env,
            app,
            network.vpc_uid@,
            crate::order::texts(network.subnet_uids@),
            crate::tags::pairs_map(role_uids@),
        ),
{
    let ghost old_res = resources@;
    let ghost old_rel = relationships@;
    let ghost subnets = crate::order::texts(network.subnet_uids@);
    let sg = sg_resource(region, env, app, &network.vpc_id);
    let sg_uid = sg.uid.clone();
    push_resource(resources, sg);
    push_relationship(relationships, relationship(sg_uid.as_str(), "in_vpc", network.vpc_uid.as_str()));
    let ghost res0 = resource_items(old_res) + seq![sg_item(region, env, app)];
    let ghost rel0 = relationship_keys(old_rel) + seq![
        (ec2_uid(region, "security-group"@, sg_id_spec(region, env, app)), "in_vpc"@, network.vpc_uid@),
    ];
    assert(resource_items(resources@) =~= res0);
    assert(relationship_keys(relationships@) =~= rel0);
    let mut instance_index: usize = 0;
    while instance_index < env.instances_per_app
        invariant
            instance_index <= env.instances_per_app,
            env.instances_per_app <= 3,
            region.cidr_octet <= 30,
            env.cidr_offset <= 40,
            network.subnet_ids@.len() == 3,
            network.subnet_uids@.len() == 3,
            network.vpc_id@ == network_id("vpc-"@, region, env),
            forall|k: int| 0 <= k < 3 ==> #[trigger] network.subnet_ids@[k]@ == subnet_id_spec(region, env, k),
            subnets == crate::order::texts(network.subnet_uids@),
            sg_uid@ == ec2_uid(region, "security-group"@, sg_id_spec(region, env, app)),
            resources_ok(resources@),
            relationships_ok(relationships@),
            keeps(old_res, resources@),
            keeps(old_rel, relationships@),
            resource_items(resources@) == res0 + instance_items(region, env, app, instance_index as nat),
            relationship_keys(relationships@) == rel0 + instance_relationship_keys(
                region,
                env,
                app,
                subnets,
                instance_index as nat,
            ),
        decreases env.instances_per_app - instance_index,
    {
        let subnet_index = instance_index % 3;
        let instance = instance_resource(
            region,
            env,
            app,
            instance_index,
            &network.subnet_ids[subnet_index],
            &network.vpc_id,
        );
        let instance_uid = instance.uid.clone();
        push_resource(resources, instance);
        push_relationship(relationships, relationship(instance_uid.as_str(), "in_subnet", network.subnet_uids[subnet_index].as_str()));
        push_relationship(relationships, relationship(instance_uid.as_str(), "uses_security_group", sg_uid.as_str()));
        let volume = volume_resource(region, env, app, instance_index);
        let volume_uid = volume.uid.clone();
        push_resource(resources, volume);
        push_relationship(relationships, relationship(volume_uid.as_str(), "attached_to", instance_uid.as_str()));
        proof {
            assert(subnets[(instance_index % 3) as int] == network.subnet_uids@[(instance_index % 3) as int]@);
            assert(resource_items(resources@) =~= res0 + instance_items(region, env, app, (instance_index + 1) as nat));
            assert(relationship_keys(relationships@) =~= rel0 + instance_relationship_keys(
                region,
                env,
                app,
                subnets,
                (instance_index + 1) as nat,
            ));
        }
        instance_index += 1;
    }

    let not_dev = !str_eq(env.name, "dev");
    if app.lambda && not_dev {
        let function = function_resource(region, env, app, &network.subnet_ids);
        let function_uid = function.uid.clone();
        push_resource(resources, function);
        push_relationship(relationships, relationship(function_uid.as_str(), "uses_security_group", sg_uid.as_str()));
        match pairs_get(role_uids, app.short) {
            Some(role_uid) => {
                push_relationship(relationships, relationship(function_uid.as_str(), "assumes_role", role_uid.as_str()));
            },
            None => {},
        }
    }

    let has_db = str_eq(app.short, "pay") || str_eq(app.short, "id") || str_eq(app.short, "ord") || str_eq(app.short, "ana");
    if has_db && not_dev {
        let db = db_resource(region, env, app, &network.vpc_id);
        let db_uid = db.uid.clone();
        push_resource(resources, db);
        push_relationship(relationships, relationship(db_uid.as_str(), "uses_security_group", sg_uid.as_str()));
        push_relationship(relationships, relationship(db_uid.as_str(), "in_vpc", network.vpc_uid.as_str()));
    }
    assert(resource_items(resources@) =~= resource_items(old_res) + app_items(region, env, app));
    assert(relationship_keys(relationships@) =~= relationship_keys(old_rel) + app_relationship_keys(
        region,
        env,
        app,
        network.vpc_uid@,
        subnets,
        crate::tags::pairs_map(role_uids@),
    ));
}

/// What the demo says of a resource beyond its account: where and what it
/// is, its ARN, name, tags, attributes, evidence and raw form.
pub struct DemoItem {
    pub region: Seq<char>,
    pub service: Seq<char>,
    pub resource_type: Seq<char>,
    pub id: Seq<char>,
    pub arn: Option<Seq<char>>,
    pub name: Option<Seq<char>>,
    pub tags: Map<Seq<char>, Seq<char>>,
    pub attributes: Json,
    pub evidence: Seq<(Seq<char>, Seq<char>, Seq<char>, Seq<char>)>,
    pub raw: Option<Json>,
}

/// What the demo says of a resource.
pub open spec fn resource_item(r: Resource) -> DemoItem {
    DemoItem {
        region: r.region@,
        service: r.service@,
        resource_type: r.resource_type@,
        id: r.id@,
        arn: crate::aws_scan::opt_view(r.arn),
        name: crate::aws_scan::opt_view(r.name),
        tags: crate::tags::pairs_map(r.tags@),
        attributes: r.attributes@,
        evidence: r.evidence@.map_values(|e: Evidence| (e.service@, e.operation@, e.path@, e.collected_at@)),
        raw: crate::terraform_state::opt_json_view(r.raw),
    }
}

/// A demo resource observed by one call at the demo's scan time.
pub open spec fn item(
    region: Seq<char>,
    service: Seq<char>,
    resource_type: Seq<char>,
    id: Seq<char>,
    arn: Seq<char>,
    name: Seq<char>,
    tags: Map<Seq<char>, Seq<char>>,
    attributes: Json,
    seen: (Seq<char>, Seq<char>, Seq<char>),
    raw: Option<Json>,
) -> DemoItem {
    DemoItem {
        region,
        service,
        resource_type,
        id,
        arn: Some(arn),
        name: Some(name),
        tags,
        attributes,
        evidence: seq![(seen.0, seen.1, seen.2, DEMO_TIME@)],
        raw,
    }
}

/// The ARN of an EC2 resource of the demo account.
pub open spec fn ec2_arn_spec(region: Seq<char>, resource_type: Seq<char>, id: Seq<char>) -> Seq<char> {
    "arn:aws:ec2:"@ + region + ":"@ + ACCOUNT_ID@ + ":"@ + resource_type + "/"@ + id
}

/// The keys of some resources, in order.
pub open spec fn resource_items(s: Seq<Resource>) -> Seq<DemoItem> {
    s.map_values(|r: Resource| resource_item(r))
}

/// What a relationship joins: its source, type and target.
pub open spec fn relationship_key(r: Relationship) -> (Seq<char>, Seq<char>, Seq<char>) {
    (r.from@, r.relationship_type@, r.to@)
}

/// The keys of some relationships, in order.
pub open spec fn relationship_keys(s: Seq<Relationship>) -> Seq<(Seq<char>, Seq<char>, Seq<char>)> {
    s.map_values(|r: Relationship| relationship_key(r))
}

/// Whether `after` keeps every element of `before` in place.
pub open spec fn keeps<A>(before: Seq<A>, after: Seq<A>) -> bool {
    before.len() <= after.len() && forall|i: int| 0 <= i < before.len() ==> after[i] == before[i]
}

/// Appends a resource.
fn push_resource(resources: &mut Vec<Resource>, r: Resource)
    ensures
        final(resources)@ == old(resources)@.push(r),
        resource_items(final(resources)@) == resource_items(old(resources)@).push(resource_item(r)),
{
    resources.push(r);
    assert(resource_items(resources@) =~= resource_items(old(resources)@).push(resource_item(r)));
}

/// Appends a relationship.
fn push_relationship(relationships: &mut Vec<Relationship>, r: Relationship)
    ensures
        final(relationships)@ == old(relationships)@.push(r),
        relationship_keys(final(relationships)@) == relationship_keys(old(relationships)@).push(relationship_key(r)),
{
    relationships.push(r);
    assert(relationship_keys(relationships@) =~= relationship_keys(old(relationships)@).push(relationship_key(r)));
}

/// Appending to a prefix of a mapped sequence.
proof fn lemma_take_map_push<A, B>(s: Seq<A>, i: int, f: spec_fn(A) -> B)
    requires
        0 <= i < s.len(),
    ensures
        s.take(i + 1).map_values(f) == s.take(i).map_values(f).push(f(s[i])),
{
    assert(s.take(i + 1).map_values(f) =~= s.take(i).map_values(f).push(f(s[i])));
}

/// The name of an application's runtime role.
pub open spec fn role_name_spec(app: AppProfile) -> Seq<char> {
    "cloudmapper-demo-"@ + app.short@ + "-runtime"@
}

/// The runtime roles of the applications, by short name.
pub open spec fn role_uid_map(apps: Seq<AppProfile>) -> Map<Seq<char>, Seq<char>>
    decreases apps.len(),
{
    if apps.len() == 0 {
        Map::empty()
    } else {
        role_uid_map(apps.drop_last()).insert(
            apps.last().short@,
            aws_uid_spec(ACCOUNT_ID@, "global"@, "iam"@, "role"@, role_name_spec(apps.last())),
        )
    }
}

/// The runtime role of an application.
pub open spec fn role_item(a: AppProfile) -> DemoItem {
    let name = role_name_spec(a);
    item(
        "global"@,
        "iam"@,
        "role"@,
        name,
        "arn:aws:iam::"@ + ACCOUNT_ID@ + ":role/"@ + name,
        name,
        crate::tags::str_pairs_map(seq![("Environment", "shared"), ("Owner", a.owner), ("ManagedBy", "terraform")]),
        Json::Object(
            seq![
                ("path"@, Json::Str("/application/"@)),
                ("attached_policies"@, str_array(seq![
                    "arn:aws:iam::aws:policy/service-role/AWSLambdaVPCAccessExecutionRole"@,
                    "arn:aws:iam::aws:policy/CloudWatchAgentServerPolicy"@,
                ])),
            ],
        ),
        ("iam"@, "ListRoles"@, "$.Roles[*]"@),
        None,
    )
}

/// The tags of the demo's shared security resources.
pub open spec fn security_tags() -> Map<Seq<char>, Seq<char>> {
    crate::tags::str_pairs_map(seq![("Environment", "shared"), ("Owner", "security")])
}

/// An IAM group of twelve users; all but the auditors require MFA.
pub open spec fn group_item(n: Seq<char>) -> DemoItem {
    item(
        "global"@,
        "iam"@,
        "group"@,
        n,
        "arn:aws:iam::"@ + ACCOUNT_ID@ + ":group/"@ + n,
        n,
        security_tags(),
        Json::Object(
            seq![
                ("users"@, Json::Number(crate::json::int_text(12))),
                ("mfa_required"@, Json::Bool(n != "read-only-auditors"@)),
            ],
        ),
        ("iam"@, "ListGroups"@, "$.Groups[*]"@),
        None,
    )
}

/// An IAM user; the deploy bot has no MFA and an access key last rotated
/// 412 days ago, the others MFA and a key rotated 32 days ago.
pub open spec fn user_item(n: Seq<char>) -> DemoItem {
    let bot = n == "ci-deploy-bot"@;
    item(
        "global"@,
        "iam"@,
        "user"@,
        n,
        "arn:aws:iam::"@ + ACCOUNT_ID@ + ":user/"@ + n,
        n,
        security_tags(),
        Json::Object(
            seq![
                ("mfa_active"@, Json::Bool(!bot)),
                ("access_key_1_last_rotated_days"@, Json::Number(crate::json::int_text(if bot {
                    412
                } else {
                    32
                }))),
            ],
        ),
        ("iam"@, "ListUsers"@, "$.Users[*]"@),
        None,
    )
}

/// The IAM resources of the demo: each application's runtime role, then
/// three groups and three users.
pub open spec fn iam_items() -> Seq<DemoItem> {
    apps_spec().map_values(|a: AppProfile| role_item(a)) + seq![
        group_item("platform-admins"@),
        group_item("read-only-auditors"@),
        group_item("incident-response"@),
        user_item("breakglass-ops"@),
        user_item("ci-deploy-bot"@),
        user_item("auditor-tableau"@),
    ]
}

/// The data bucket of an application in an environment.
pub open spec fn data_bucket(app: AppProfile, env: EnvironmentProfile) -> Seq<char> {
    "cm-demo-"@ + app.short@ + "-"@ + env.name@ + "-data-"@ + ACCOUNT_ID@
}

/// The data bucket of an application in an environment: encrypted, its
/// public access blocked, versioned in production.
pub open spec fn data_bucket_item(app: AppProfile, env: EnvironmentProfile) -> DemoItem {
    let name = data_bucket(app, env);
    let prod = env.name@ == "prod"@;
    item(
        "global"@,
        "s3"@,
        "bucket"@,
        name,
        "arn:aws:s3:::"@ + name,
        name,
        app_tag_map(env, app, if prod && app.managed_prod {
            "terraform"@
        } else {
            "console"@
        }),
        Json::Object(
            seq![
                ("bucket_location"@, Json::Str(HOME_REGION@)),
                ("versioning"@, Json::Bool(prod)),
                ("public_access_block"@, Json::Object(seq![
                    ("block_public_acls"@, Json::Bool(true)),
                    ("block_public_policy"@, Json::Bool(true)),
                    ("ignore_public_acls"@, Json::Bool(true)),
                    ("restrict_public_buckets"@, Json::Bool(true)),
                ])),
                ("encryption"@, Json::Str("aws:kms"@)),
            ],
        ),
        ("s3"@, "ListBuckets"@, "$.Buckets[*]"@),
        None,
    )
}

/// The audit-log bucket of a region: versioned, object-locked, kept a year.
pub open spec fn audit_bucket_item(r: RegionProfile) -> DemoItem {
    let name = "cm-demo-audit-logs-"@ + r.short@ + "-"@ + ACCOUNT_ID@;
    item(
        "global"@,
        "s3"@,
        "bucket"@,
        name,
        "arn:aws:s3:::"@ + name,
        name,
        crate::tags::str_pairs_map(
            seq![("Environment", "shared"), ("Owner", "security"), ("DataClass", "audit"), ("ManagedBy", "terraform")],
        ),
        Json::Object(
            seq![
                ("bucket_location"@, Json::Str(r.name@)),
                ("versioning"@, Json::Bool(true)),
                ("object_lock"@, Json::Bool(true)),
                ("retention_days"@, Json::Number(crate::json::int_text(365))),
            ],
        ),
        ("s3"@, "ListBuckets"@, "$.Buckets[*]"@),
        None,
    )
}

/// The data buckets of some applications, each in every environment.
pub open spec fn data_bucket_items(apps: Seq<AppProfile>) -> Seq<DemoItem>
    decreases apps.len(),
{
    if apps.len() == 0 {
        seq![]
    } else {
        data_bucket_items(apps.drop_last()) + environments_spec().map_values(
            |e: EnvironmentProfile| data_bucket_item(apps.last(), e),
        )
    }
}

/// The S3 buckets of the demo: the data buckets, then one audit-log bucket
/// per region.
pub open spec fn s3_items() -> Seq<DemoItem> {
    data_bucket_items(apps_spec()) + regions_spec().map_values(|r: RegionProfile| audit_bucket_item(r))
}

#[verifier::rlimit(40)]
#[verifier::spinoff_prover]
fn add_iam_resources(resources: &mut Vec<Resource>) -> (r: Vec<(String, String)>)
    requires
        resources_ok(old(resources)@),
    ensures
        crate::order::keys_sorted(r@),
        crate::tags::pairs_map(r@) == role_uid_map(apps_spec()),
        resources_ok(final(resources)@),
        keeps(old(resources)@, final(resources)@),
        resource_items(final(resources)@) == resource_items(old(resources)@) + iam_items(),
{
    broadcast use crate::json::group_json_view;

    let ghost old0 = resources@;
    let ghost role_key = |a: AppProfile| role_item(a);
    let mut role_uids: Vec<(String, String)> = Vec::new();
    let all = apps();
    assert(crate::tags::pairs_map(role_uids@) =~= role_uid_map(all@.take(0)));
    let mut i: usize = 0;
    while i < all.len()
        invariant
            i <= all@.len(),
            all@ == apps_spec(),
            role_key == (|a: AppProfile| role_item(a)),
            crate::order::keys_sorted(role_uids@),
            crate::tags::pairs_map(role_uids@) == role_uid_map(all@.take(i as int)),
            resources_ok(resources@),
            keeps(old0, resources@),
            resource_items(resources@) == resource_items(old0) + all@.take(i as int).map_values(role_key),
        decreases all@.len() - i,
    {
        let app = all[i];
        let role_name = crate::k8s_demo::cat3("cloudmapper-demo-", app.short, "-runtime");
        let role_uid = resource_uid(ACCOUNT_ID, "global", "iam", "role", role_name.as_str());
        crate::tags::pairs_insert(&mut role_uids, app.short.to_owned(), role_uid.clone());
        let role_tags = [("Environment", "shared"), ("Owner", app.owner), ("ManagedBy", "terraform")];
        assert(role_tags@ =~= seq![("Environment", "shared"), ("Owner", app.owner), ("ManagedBy", "terraform")]);
        let policies = [
            "arn:aws:iam::aws:policy/service-role/AWSLambdaVPCAccessExecutionRole",
            "arn:aws:iam::aws:policy/CloudWatchAgentServerPolicy",
        ];
        assert(str_views(policies@) =~= seq![
            "arn:aws:iam::aws:policy/service-role/AWSLambdaVPCAccessExecutionRole"@,
            "arn:aws:iam::aws:policy/CloudWatchAgentServerPolicy"@,
        ]);
        let role_attributes = vec![("path", s("/application/")), ("attached_policies", strs(&policies))];
        assert(crate::json::pairs_model(role_attributes@) =~= seq![
            ("path"@, Json::Str("/application/"@)),
            ("attached_policies"@, str_array(seq![
                "arn:aws:iam::aws:policy/service-role/AWSLambdaVPCAccessExecutionRole"@,
                "arn:aws:iam::aws:policy/CloudWatchAgentServerPolicy"@,
            ])),
        ]);
        push_resource(resources, resource(
            role_uid,
            "global",
            "iam",
            "role",
            role_name.clone(),
            crate::k8s_demo::cat4("arn:aws:iam::", ACCOUNT_ID, ":role/", role_name.as_str()),
            role_name.clone(),
            tags(&role_tags),
            obj(role_attributes),
            evidence("iam", "ListRoles", "$.Roles[*]"),
            None,
        ));
        assert(resource_item(resources@.last()) == role_item(app));
        proof {
            lemma_take_map_push(all@, i as int, role_key);
            assert(all@[i as int] == app);
            assert(all@.take(i + 1).drop_last() =~= all@.take(i as int));
            assert(all@.take(i + 1).last() == app);
        }
        i += 1;
    }
    assert(all@.take(i as int) =~= all@);
    let ghost after_roles = resource_items(old0) + apps_spec().map_values(role_key);
    let groups: [&str; 3] = ["platform-admins", "read-only-auditors", "incident-response"];
    let ghost group_key = |n: &str| group_item(n@);
    let security = [("Environment", "shared"), ("Owner", "security")];
    assert(security@ =~= seq![("Environment", "shared"), ("Owner", "security")]);
    let mut g: usize = 0;
    while g < 3
        invariant
            g <= 3,
            groups@.len() == 3,
            security@ == seq![("Environment", "shared"), ("Owner", "security")],
            resources_ok(resources@),
            keeps(old0, resources@),
            group_key == (|n: &str| group_item(n@)),
            resource_items(resources@) == after_roles + groups@.take(g as int).map_values(group_key),
        decreases 3 - g,
    {
        let group = groups[g];
        let group_attributes = vec![
            ("users", int_json(12)),
            ("mfa_required", JsonValue::Bool(!str_eq(group, "read-only-auditors"))),
        ];
        assert(crate::json::pairs_model(group_attributes@) =~= seq![
            ("users"@, Json::Number(crate::json::int_text(12))),
            ("mfa_required"@, Json::Bool(group@ != "read-only-auditors"@)),
        ]);
        push_resource(resources, resource(
            resource_uid(ACCOUNT_ID, "global", "iam", "group", group),
            "global",
            "iam",
            "group",
            group.to_owned(),
            crate::k8s_demo::cat4("arn:aws:iam::", ACCOUNT_ID, ":group/", group),
            group.to_owned(),
            tags(&security),
            obj(group_attributes),
            evidence("iam", "ListGroups", "$.Groups[*]"),
            None,
        ));
        assert(resource_item(resources@.last()) == group_item(group@));
        proof {
            lemma_take_map_push(groups@, g as int, group_key);
        }
        g += 1;
    }
    let ghost after_groups = after_roles + groups@.map_values(group_key);
    assert(groups@.take(3) =~= groups@);
    let users: [&str; 3] = ["breakglass-ops", "ci-deploy-bot", "auditor-tableau"];
    let ghost user_key = |n: &str| user_item(n@);
    let mut u: usize = 0;
    while u < 3
        invariant
            u <= 3,
            users@.len() == 3,
            security@ == seq![("Environment", "shared"), ("Owner", "security")],
            resources_ok(resources@),
            keeps(old0, resources@),
            user_key == (|n: &str| user_item(n@)),
            resource_items(resources@) == after_groups + users@.take(u as int).map_values(user_key),
        decreases 3 - u,
    {
        let user = users[u];
        let bot = str_eq(user, "ci-deploy-bot");
        let rotated: i64 = if bot {
            412
        } else {
            32
        };
        let user_attributes = vec![
            ("mfa_active", JsonValue::Bool(!bot)),
            ("access_key_1_last_rotated_days", int_json(rotated)),
        ];
        assert(crate::json::pairs_model(user_attributes@) =~= seq![
            ("mfa_active"@, Json::Bool(!(user@ == "ci-deploy-bot"@))),
            ("access_key_1_last_rotated_days"@, Json::Number(crate::json::int_text(if user@ == "ci-deploy-bot"@ {
                412
            } else {
                32
            }))),
        ]);
        push_resource(resources, resource(
            resource_uid(ACCOUNT_ID, "global", "iam", "user", user),
            "global",
            "iam",
            "user",
            user.to_owned(),
            crate::k8s_demo::cat4("arn:aws:iam::", ACCOUNT_ID, ":user/", user),
            user.to_owned(),
            tags(&security),
            obj(user_attributes),
            evidence("iam", "ListUsers", "$.Users[*]"),
            None,
        ));
        assert(resource_item(resources@.last()) == user_item(user@));
        proof {
            lemma_take_map_push(users@, u as int, user_key);
        }
        u += 1;
    }
    assert(users@.take(3) =~= users@);
    assert(resource_items(resources@) =~= resource_items(old0) + iam_items());
    role_uids
}

#[verifier::rlimit(40)]
#[verifier::spinoff_prover]
fn add_s3_resources(resources: &mut Vec<Resource>)
    requires
        resources_ok(old(resources)@),
    ensures
        resources_ok(final(resources)@),
        keeps(old(resources)@, final(resources)@),
        resource_items(final(resources)@) == resource_items(old(resources)@) + s3_items(),
{
    broadcast use crate::json::group_json_view;

    let ghost old0 = resources@;
    let all_apps = apps();
    let all_envs = environments();
    let mut a: usize = 0;
    while a < all_apps.len()
        invariant
            a <= all_apps@.len(),
            all_apps@ == apps_spec(),
            all_envs@ == environments_spec(),
            all_envs@.len() == 3,
            resources_ok(resources@),
            keeps(old0, resources@),
            resource_items(resources@) == resource_items(old0) + data_bucket_items(all_apps@.take(a as int)),
        decreases all_apps@.len() - a,
    {
        let app = all_apps[a];
        let ghost before = resource_items(resources@);
        let ghost bucket_key = |e: EnvironmentProfile| data_bucket_item(app, e);
        let mut e: usize = 0;
        while e < 3
            invariant
                e <= 3,
                all_envs@.len() == 3,
                resources_ok(resources@),
                keeps(old0, resources@),
                bucket_key == (|e: EnvironmentProfile| data_bucket_item(app, e)),
                resource_items(resources@) == before + all_envs@.take(e as int).map_values(bucket_key),
            decreases 3 - e,
        {
            let env = all_envs[e];
            let prod = str_eq(env.name, "prod");
            let bucket_name = crate::k8s_demo::cat6("cm-demo-", app.short, "-", env.name, "-data-", ACCOUNT_ID);
            let managed = if prod && app.managed_prod {
                "terraform"
            } else {
                "console"
            };
            let block = vec![
                ("block_public_acls", JsonValue::Bool(true)),
                ("block_public_policy", JsonValue::Bool(true)),
                ("ignore_public_acls", JsonValue::Bool(true)),
                ("restrict_public_buckets", JsonValue::Bool(true)),
            ];
            assert(crate::json::pairs_model(block@) =~= seq![
                ("block_public_acls"@, Json::Bool(true)),
                ("block_public_policy"@, Json::Bool(true)),
                ("ignore_public_acls"@, Json::Bool(true)),
                ("restrict_public_buckets"@, Json::Bool(true)),
            ]);
            let bucket_attributes = vec![
                ("bucket_location", s(HOME_REGION)),
                ("versioning", JsonValue::Bool(prod)),
                ("public_access_block", obj(block)),
                ("encryption", s("aws:kms")),
            ];
            assert(crate::json::pairs_model(bucket_attributes@) =~= seq![
                ("bucket_location"@, Json::Str(HOME_REGION@)),
                ("versioning"@, Json::Bool(env.name@ == "prod"@)),
                ("public_access_block"@, Json::Object(seq![
                    ("block_public_acls"@, Json::Bool(true)),
                    ("block_public_policy"@, Json::Bool(true)),
                    ("ignore_public_acls"@, Json::Bool(true)),
                    ("restrict_public_buckets"@, Json::Bool(true)),
                ])),
                ("encryption"@, Json::Str("aws:kms"@)),
            ]);
            push_resource(resources, resource(
                resource_uid(ACCOUNT_ID, "global", "s3", "bucket", bucket_name.as_str()),
                "global",
                "s3",
                "bucket",
                bucket_name.clone(),
                crate::k8s_demo::cat2("arn:aws:s3:::", bucket_name.as_str()),
                bucket_name.clone(),
                app_tags(env, app, managed),
                obj(bucket_attributes),
                evidence("s3", "ListBuckets", "$.Buckets[*]"),
                None,
            ));
            assert(resource_item(resources@.last()) == data_bucket_item(app, env));
            proof {
                lemma_take_map_push(all_envs@, e as int, bucket_key);
                assert(all_envs@[e as int] == env);
            }
            e += 1;
        }
        proof {
            assert(all_envs@.take(3) =~= all_envs@);
            assert(all_apps@.take(a + 1).drop_last() =~= all_apps@.take(a as int));
            assert(all_apps@.take(a + 1).last() == app);
            assert(resource_items(resources@) =~= resource_items(old0) + data_bucket_items(all_apps@.take(a + 1)));
        }
        a += 1;
    }
    assert(all_apps@.take(a as int) =~= all_apps@);
    let ghost after_data = resource_items(old0) + data_bucket_items(apps_spec());
    let all_regions = regions();
    let ghost audit_key = |r: RegionProfile| audit_bucket_item(r);
    let audit_tags = [
        ("Environment", "shared"),
        ("Owner", "security"),
        ("DataClass", "audit"),
        ("ManagedBy", "terraform"),
    ];
    assert(audit_tags@ =~= seq![("Environment", "shared"), ("Owner", "security"), ("DataClass", "audit"), ("ManagedBy", "terraform")]);
    let mut r: usize = 0;
    while r < all_regions.len()
        invariant
            r <= all_regions@.len(),
            all_regions@ == regions_spec(),
            audit_tags@ == seq![("Environment", "shared"), ("Owner", "security"), ("DataClass", "audit"), ("ManagedBy", "terraform")],
            resources_ok(resources@),
            keeps(old0, resources@),
            audit_key == (|r: RegionProfile| audit_bucket_item(r)),
            resource_items(resources@) == after_data + all_regions@.take(r as int).map_values(audit_key),
        decreases all_regions@.len() - r,
    {
        let region = all_regions[r];
        let bucket_name = crate::k8s_demo::cat4("cm-demo-audit-logs-", region.short, "-", ACCOUNT_ID);
        let audit_attributes = vec![
            ("bucket_location", s(region.name)),
            ("versioning", JsonValue::Bool(true)),
            ("object_lock", JsonValue::Bool(true)),
            ("retention_days", int_json(365)),
        ];
        assert(crate::json::pairs_model(audit_attributes@) =~= seq![
            ("bucket_location"@, Json::Str(region.name@)),
            ("versioning"@, Json::Bool(true)),
            ("object_lock"@, Json::Bool(true)),
            ("retention_days"@, Json::Number(crate::json::int_text(365))),
        ]);
        push_resource(resources, resource(
            resource_uid(ACCOUNT_ID, "global", "s3", "bucket", bucket_name.as_str()),
            "global",
            "s3",
            "bucket",
            bucket_name.clone(),
            crate::k8s_demo::cat2("arn:aws:s3:::", bucket_name.as_str()),
            bucket_name.clone(),
            tags(&audit_tags),
            obj(audit_attributes),
            evidence("s3", "ListBuckets", "$.Buckets[*]"),
            None,
        ));
        assert(resource_item(resources@.last()) == audit_bucket_item(region));
        proof {
            lemma_take_map_push(all_regions@, r as int, audit_key);
            assert(all_regions@[r as int] == region);
        }
        r += 1;
    }
    assert(all_regions@.take(r as int) =~= all_regions@);
    assert(resource_items(resources@) =~= resource_items(old0) + s3_items());
}

/// The errors the demo scan met.
fn demo_errors() -> (r: Vec<ScanError>)
    ensures
        r@.map_values(|e: ScanError| crate::model::error_view(e)) == seq![
            ("resourcegroupstaggingapi"@, "ap-southeast-2"@, "GetResources"@,
                "demo recoverable throttling event while listing tagged resources"@),
            ("lambda"@, "eu-west-1"@, "ListTags"@, "demo access gap for one legacy function tag read"@),
        ],
{
    let r = vec![
        ScanError {
            service: "resourcegroupstaggingapi".to_owned(),
            region: "ap-southeast-2".to_owned(),
            operation: "GetResources".to_owned(),
            message: "demo recoverable throttling event while listing tagged resources".to_owned(),
        },
        ScanError {
            service: "lambda".to_owned(),
            region: "eu-west-1".to_owned(),
            operation: "ListTags".to_owned(),
            message: "demo access gap for one legacy function tag read".to_owned(),
        },
    ];
    assert(r@.map_values(|e: ScanError| crate::model::error_view(e)) =~= seq![
        ("resourcegroupstaggingapi"@, "ap-southeast-2"@, "GetResources"@,
            "demo recoverable throttling event while listing tagged resources"@),
        ("lambda"@, "eu-west-1"@, "ListTags"@, "demo access gap for one legacy function tag read"@),
    ]);
    r
}

/// The resources of some applications in an environment of a region.
pub open spec fn apps_items(region: RegionProfile, env: EnvironmentProfile, apps: Seq<AppProfile>) -> Seq<DemoItem>
    decreases apps.len(),
{
    if apps.len() == 0 {
        seq![]
    } else {
        apps_items(region, env, apps.drop_last()) + app_items(region, env, apps.last())
    }
}

/// The uids of an environment's subnets in a region.
pub open spec fn subnet_uids_spec(region: RegionProfile, env: EnvironmentProfile) -> Seq<Seq<char>> {
    Seq::new(3, |k: int| ec2_uid(region, "subnet"@, subnet_id_spec(region, env, k)))
}

/// The relationships of some applications in an environment of a region.
pub open spec fn apps_relationship_keys(region: RegionProfile, env: EnvironmentProfile, apps: Seq<AppProfile>) -> Seq<
    (Seq<char>, Seq<char>, Seq<char>),
>
    decreases apps.len(),
{
    if apps.len() == 0 {
        seq![]
    } else {
        apps_relationship_keys(region, env, apps.drop_last()) + app_relationship_keys(
            region,
            env,
            apps.last(),
            ec2_uid(region, "vpc"@, network_id("vpc-"@, region, env)),
            subnet_uids_spec(region, env),
            role_uid_map(apps_spec()),
        )
    }
}

/// The resources of some environments of a region: each one's network, then its applications'.
pub open spec fn envs_items(region: RegionProfile, envs: Seq<EnvironmentProfile>) -> Seq<DemoItem>
    decreases envs.len(),
{
    if envs.len() == 0 {
        seq![]
    } else {
        envs_items(region, envs.drop_last()) + network_items(region, envs.last()) + apps_items(
            region,
            envs.last(),
            apps_spec(),
        )
    }
}

/// The relationships of some environments of a region.
pub open spec fn envs_relationship_keys(region: RegionProfile, envs: Seq<EnvironmentProfile>) -> Seq<
    (Seq<char>, Seq<char>, Seq<char>),
>
    decreases envs.len(),
{
    if envs.len() == 0 {
        seq![]
    } else {
        envs_relationship_keys(region, envs.drop_last()) + network_relationship_keys(region, envs.last())
            + apps_relationship_keys(region, envs.last(), apps_spec())
    }
}

/// The regional resources of some regions, each with every environment.
pub open spec fn regions_items(regions: Seq<RegionProfile>) -> Seq<DemoItem>
    decreases regions.len(),
{
    if regions.len() == 0 {
        seq![]
    } else {
        regions_items(regions.drop_last()) + envs_items(regions.last(), environments_spec())
    }
}

/// The regional relationships of some regions.
pub open spec fn regions_relationship_keys(regions: Seq<RegionProfile>) -> Seq<(Seq<char>, Seq<char>, Seq<char>)>
    decreases regions.len(),
{
    if regions.len() == 0 {
        seq![]
    } else {
        regions_relationship_keys(regions.drop_last()) + envs_relationship_keys(regions.last(), environments_spec())
    }
}

/// The inventory of the demo organisation.
#[verifier::rlimit(40)]
#[verifier::spinoff_prover]
pub fn demo_inventory() -> (inv: Inventory)
    ensures
        inv.schema_version@ == SCHEMA_VERSION@,
        inv.generator.name@ == GENERATOR_NAME@,
        inv.generator.version@ == GENERATOR_VERSION@,
        inv.account_id@ == ACCOUNT_ID@,
        inv.partition@ == "aws"@,
        inv.home_region@ == HOME_REGION@,
        inv.collected_at@ == DEMO_TIME@,
        resources_ok(inv.resources@),
        relationships_ok(inv.relationships@),
        resource_items(inv.resources@) == iam_items() + s3_items() + regions_items(regions_spec()),
        relationship_keys(inv.relationships@) == regions_relationship_keys(regions_spec()),
        inv.regions@.map_values(|r: String| r@) == regions_spec().map_values(|r: RegionProfile| r.name@),
        inv.errors@.map_values(|e: ScanError| crate::model::error_view(e)) == seq![
            ("resourcegroupstaggingapi"@, "ap-southeast-2"@, "GetResources"@,
                "demo recoverable throttling event while listing tagged resources"@),
            ("lambda"@, "eu-west-1"@, "ListTags"@, "demo access gap for one legacy function tag read"@),
        ],
{
    let mut resources: Vec<Resource> = Vec::new();
    let mut relationships: Vec<Relationship> = Vec::new();
    assert(resource_items(resources@) =~= seq![]);
    assert(relationship_keys(relationships@) =~= seq![]);
    let role_uids = add_iam_resources(&mut resources);
    add_s3_resources(&mut resources);
    let ghost head = iam_items() + s3_items();
    assert(resource_items(resources@) =~= head);
    let all_regions = regions();
    let all_envs = environments();
    let all_apps = apps();
    let mut r: usize = 0;
    while r < 3
        invariant
            r <= 3,
            all_regions@ == regions_spec(),
            all_envs@ == environments_spec(),
            all_apps@ == apps_spec(),
            all_regions@.len() == 3,
            all_envs@.len() == 3,
            crate::order::keys_sorted(role_uids@),
            crate::tags::pairs_map(role_uids@) == role_uid_map(apps_spec()),
            resources_ok(resources@),
            relationships_ok(relationships@),
            forall|i: int| 0 <= i < all_regions@.len() ==> #[trigger] all_regions@[i].cidr_octet <= 30,
            forall|i: int| 0 <= i < all_envs@.len() ==> #[trigger] all_envs@[i].cidr_offset <= 40 && all_envs@[i].instances_per_app <= 3,
            resource_items(resources@) == head + regions_items(all_regions@.take(r as int)),
            relationship_keys(relationships@) == regions_relationship_keys(all_regions@.take(r as int)),
        decreases 3 - r,
    {
        let region = all_regions[r];
        let ghost res_r = resource_items(resources@);
        let ghost rel_r = relationship_keys(relationships@);
        let mut e: usize = 0;
        while e < 3
            invariant
                e <= 3,
                r < 3,
                region == all_regions@[r as int],
                all_regions@ == regions_spec(),
                all_envs@ == environments_spec(),
                all_apps@ == apps_spec(),
                all_regions@.len() == 3,
                all_envs@.len() == 3,
                crate::order::keys_sorted(role_uids@),
                crate::tags::pairs_map(role_uids@) == role_uid_map(apps_spec()),
                resources_ok(resources@),
                relationships_ok(relationships@),
                forall|i: int| 0 <= i < all_regions@.len() ==> #[trigger] all_regions@[i].cidr_octet <= 30,
                forall|i: int| 0 <= i < all_envs@.len() ==> #[trigger] all_envs@[i].cidr_offset <= 40 && all_envs@[i].instances_per_app <= 3,
                resource_items(resources@) == res_r + envs_items(region, all_envs@.take(e as int)),
                relationship_keys(relationships@) == rel_r + envs_relationship_keys(region, all_envs@.take(e as int)),
            decreases 3 - e,
        {
            let env = all_envs[e];
            let network = add_network_resources(&mut resources, &mut relationships, region, env);
            proof {
                assert(crate::order::texts(network.subnet_uids@) =~= subnet_uids_spec(region, env));
            }
            let ghost res_e = resource_items(resources@);
            let ghost rel_e = relationship_keys(relationships@);
            let mut a: usize = 0;
            while a < all_apps.len()
                invariant
                    a <= all_apps@.len(),
                    all_apps@ == apps_spec(),
                    region.cidr_octet <= 30,
                    env.cidr_offset <= 40,
                    env.instances_per_app <= 3,
                    network.subnet_ids@.len() == 3,
                    network.subnet_uids@.len() == 3,
                    network.vpc_uid@ == ec2_uid(region, "vpc"@, network_id("vpc-"@, region, env)),
                    network.vpc_id@ == network_id("vpc-"@, region, env),
                    forall|k: int| 0 <= k < 3 ==> #[trigger] network.subnet_ids@[k]@ == subnet_id_spec(region, env, k),
                    crate::order::texts(network.subnet_uids@) == subnet_uids_spec(region, env),
                    crate::order::keys_sorted(role_uids@),
                    crate::tags::pairs_map(role_uids@) == role_uid_map(apps_spec()),
                    resources_ok(resources@),
                    relationships_ok(relationships@),
                    resource_items(resources@) == res_e + apps_items(region, env, all_apps@.take(a as int)),
                    relationship_keys(relationships@) == rel_e + apps_relationship_keys(
                        region,
                        env,
                        all_apps@.take(a as int),
                    ),
                decreases all_apps@.len() - a,
            {
                add_app_resources(&mut resources, &mut relationships, &role_uids, region, env, all_apps[a], &network);
                proof {
                    assert(all_apps@.take(a + 1).drop_last() =~= all_apps@.take(a as int));
                    assert(all_apps@.take(a + 1).last() == all_apps@[a as int]);
                    assert(resource_items(resources@) =~= res_e + apps_items(region, env, all_apps@.take(a + 1)));
                    assert(relationship_keys(relationships@) =~= rel_e + apps_relationship_keys(
                        region,
                        env,
                        all_apps@.take(a + 1),
                    ));
                }
                a += 1;
            }
            proof {
                assert(all_apps@.take(a as int) =~= all_apps@);
                assert(all_envs@.take(e + 1).drop_last() =~= all_envs@.take(e as int));
                assert(all_envs@.take(e + 1).last() == env);
                assert(resource_items(resources@) =~= res_r + envs_items(region, all_envs@.take(e + 1)));
                assert(relationship_keys(relationships@) =~= rel_r + envs_relationship_keys(region, all_envs@.take(e + 1)));
            }
            e += 1;
        }
        proof {
            assert(all_envs@.take(3) =~= all_envs@);
            assert(all_regions@.take(r + 1).drop_last() =~= all_regions@.take(r as int));
            assert(all_regions@.take(r + 1).last() == region);
            assert(resource_items(resources@) =~= head + regions_items(all_regions@.take(r + 1)));
            assert(relationship_keys(relationships@) =~= regions_relationship_keys(all_regions@.take(r + 1)));
        }
        r += 1;
    }
    assert(all_regions@.take(3) =~= all_regions@);
    let region_names = vec![
        all_regions[0].name.to_owned(),
        all_regions[1].name.to_owned(),
        all_regions[2].name.to_owned(),
    ];
    assert(region_names@.map_values(|r: String| r@) =~= regions_spec().map_values(|r: RegionProfile| r.name@));
    let errors = demo_errors();
    Inventory {
        schema_version: SCHEMA_VERSION.to_owned(),
        generator: Generator { name: GENERATOR_NAME.to_owned(), version: GENERATOR_VERSION.to_owned() },
        account_id: ACCOUNT_ID.to_owned(),
        partition: "aws".to_owned(),
        home_region: HOME_REGION.to_owned(),
        regions: region_names,
        collected_at: DEMO_TIME.to_owned(),
        resources,
        relationships,
        errors,
    }
}

/// The provider of the demo state's blocks.
pub open spec fn aws_provider() -> Seq<char> {
    "provider[\"registry.terraform.io/hashicorp/aws\"]"@
}

/// Whether a block is a managed AWS block with one unkeyed instance of
/// schema version 1, no sensitive attributes and no other members.
pub open spec fn demo_block(b: TerraformResource) -> bool {
    &&& b.module is None
    &&& b.mode@ == "managed"@
    &&& crate::aws_scan::opt_view(b.provider) == Some(aws_provider())
    &&& b.extra@.len() == 0
    &&& b.instances@.len() == 1
    &&& b.instances@[0].index_key is None
    &&& b.instances@[0].schema_version == Some(1i64)
    &&& b.instances@[0].sensitive_attributes@ == Json::Array(seq![])
    &&& b.instances@[0].extra@.len() == 0
}

fn terraform_resource(resource_type: &str, name: String, attributes: JsonValue, dependencies: JsonValue) -> (r:
    TerraformResource)
    ensures
        demo_block(r),
        r.resource_type@ == resource_type@,
        r.name == name,
        r.instances@[0].attributes == attributes,
        r.instances@[0].dependencies == dependencies,
{
    broadcast use crate::json::group_json_view;

    let empty: Vec<JsonValue> = Vec::new();
    assert(crate::json::items_view(empty@) =~= seq![]);
    TerraformResource {
        module: None,
        mode: "managed".to_owned(),
        resource_type: resource_type.to_owned(),
        name,
        provider: Some("provider[\"registry.terraform.io/hashicorp/aws\"]".to_owned()),
        instances: vec![TerraformInstance {
            index_key: None,
            schema_version: Some(1),
            attributes,
            sensitive_attributes: JsonValue::Array(empty),
            dependencies,
            extra: Vec::new(),
        }],
        extra: Vec::new(),
    }
}

fn deps(items: Vec<String>) -> (r: JsonValue)
    ensures
        r@ == texts_array(items@),
{
    texts_json(&items)
}

/// What the demo says of a state block: its type, name, attributes and
/// dependencies.
pub struct BlockItem {
    pub resource_type: Seq<char>,
    pub name: Seq<char>,
    pub attributes: Json,
    pub dependencies: Json,
}

/// What the demo says of a state block.
pub open spec fn block_item(b: TerraformResource) -> BlockItem {
    BlockItem {
        resource_type: b.resource_type@,
        name: b.name@,
        attributes: b.instances@[0].attributes@,
        dependencies: b.instances@[0].dependencies@,
    }
}

/// The name of an environment's blocks in a region: `<env>_<region>`.
pub open spec fn block_base(region: RegionProfile, env: EnvironmentProfile) -> Seq<char> {
    env.name@ + "_"@ + region.short@
}

/// The name of an application's blocks: `<env>_<region>_<app>`.
pub open spec fn app_block_prefix(region: RegionProfile, env: EnvironmentProfile, app: AppProfile) -> Seq<char> {
    block_base(region, env) + "_"@ + app.short@
}

/// No dependencies.
pub open spec fn no_deps() -> Json {
    Json::Array(seq![])
}

/// An environment's VPC block.
pub open spec fn vpc_block(region: RegionProfile, env: EnvironmentProfile) -> BlockItem {
    let id = network_id("vpc-"@, region, env);
    BlockItem {
        resource_type: "aws_vpc"@,
        name: block_base(region, env),
        attributes: Json::Object(
            seq![
                ("id"@, Json::Str(id)),
                ("arn"@, Json::Str(ec2_arn_spec(region.name@, "vpc"@, id))),
                ("cidr_block"@, Json::Str("10."@ + cidr_base_spec(region, env) + ".0.0/16"@)),
                ("tags"@, Json::Object(seq![("Environment"@, Json::Str(env.name@)), ("Owner"@, Json::Str("network-platform"@))])),
            ],
        ),
        dependencies: no_deps(),
    }
}

/// An environment's subnet block at a position, depending on its VPC.
pub open spec fn subnet_block(region: RegionProfile, env: EnvironmentProfile, k: int) -> BlockItem {
    let id = subnet_id_spec(region, env, k);
    BlockItem {
        resource_type: "aws_subnet"@,
        name: block_base(region, env) + "_app_"@ + crate::text::decimal_spec((k + 1) as nat),
        attributes: Json::Object(
            seq![
                ("id"@, Json::Str(id)),
                ("arn"@, Json::Str(ec2_arn_spec(region.name@, "subnet"@, id))),
                ("availability_zone"@, Json::Str(region.name@ + zone_spec(k))),
                ("cidr_block"@, Json::Str("10."@ + cidr_base_spec(region, env) + "."@ + crate::text::decimal_spec((k + 10) as nat) + ".0/24"@)),
                ("vpc_id"@, Json::Str(network_id("vpc-"@, region, env))),
            ],
        ),
        dependencies: str_array(seq!["aws_vpc."@ + block_base(region, env)]),
    }
}

/// An application's security group block, depending on the VPC.
pub open spec fn sg_block(region: RegionProfile, env: EnvironmentProfile, app: AppProfile) -> BlockItem {
    let id = sg_id_spec(region, env, app);
    BlockItem {
        resource_type: "aws_security_group"@,
        name: app_block_prefix(region, env, app),
        attributes: Json::Object(
            seq![
                ("id"@, Json::Str(id)),
                ("arn"@, Json::Str(ec2_arn_spec(region.name@, "security-group"@, id))),
                ("name"@, Json::Str(app_prefix(region, env, app) + "-sg"@)),
                ("vpc_id"@, Json::Str(network_id("vpc-"@, region, env))),
            ],
        ),
        dependencies: str_array(seq!["aws_vpc."@ + block_base(region, env)]),
    }
}

/// The block of an application's `n`th instance, depending on its security group.
pub open spec fn instance_block(region: RegionProfile, env: EnvironmentProfile, app: AppProfile, n: nat) -> BlockItem {
    let id = instance_id_spec(region, env, app, n - 1);
    BlockItem {
        resource_type: "aws_instance"@,
        name: app_block_prefix(region, env, app) + "_"@ + crate::text::zero_padded_spec(n, 2),
        attributes: Json::Object(
            seq![
                ("id"@, Json::Str(id)),
                ("arn"@, Json::Str(ec2_arn_spec(region.name@, "instance"@, id))),
                ("instance_type"@, Json::Str(instance_type_spec(env.name@, app.short@))),
                ("subnet_id"@, Json::Str(subnet_id_spec(region, env, (n - 1) % 3))),
            ],
        ),
        dependencies: str_array(seq!["aws_security_group."@ + app_block_prefix(region, env, app)]),
    }
}

/// An application's worker function block, depending on its role and security group.
pub open spec fn function_block(region: RegionProfile, env: EnvironmentProfile, app: AppProfile) -> BlockItem {
    let id = function_id_spec(region, env, app);
    BlockItem {
        resource_type: "aws_lambda_function"@,
        name: app_block_prefix(region, env, app) + "_worker"@,
        attributes: Json::Object(
            seq![
                ("id"@, Json::Str(id)),
                ("arn"@, Json::Str("arn:aws:lambda:"@ + region.name@ + ":"@ + ACCOUNT_ID@ + ":function:"@ + id)),
                ("function_name"@, Json::Str(id)),
                ("runtime"@, Json::Str("provided.al2023"@)),
                ("role"@, Json::Str("arn:aws:iam::"@ + ACCOUNT_ID@ + ":role/cloudmapper-demo-"@ + app.short@ + "-runtime"@)),
            ],
        ),
        dependencies: str_array(
            seq!["aws_iam_role."@ + app.short@ + "_runtime"@, "aws_security_group."@ + app_block_prefix(region, env, app)],
        ),
    }
}

/// An application's production data bucket block.
pub open spec fn bucket_block(app: AppProfile) -> BlockItem {
    let name = "cm-demo-"@ + app.short@ + "-prod-data-"@ + ACCOUNT_ID@;
    BlockItem {
        resource_type: "aws_s3_bucket"@,
        name: app.short@ + "_prod_data"@,
        attributes: Json::Object(
            seq![("id"@, Json::Str(name)), ("arn"@, Json::Str("arn:aws:s3:::"@ + name)), ("bucket"@, Json::Str(name))],
        ),
        dependencies: no_deps(),
    }
}

/// An application's runtime role block.
pub open spec fn role_block(app: AppProfile) -> BlockItem {
    let name = role_name_spec(app);
    BlockItem {
        resource_type: "aws_iam_role"@,
        name: app.short@ + "_runtime"@,
        attributes: Json::Object(
            seq![
                ("id"@, Json::Str(name)),
                ("arn"@, Json::Str("arn:aws:iam::"@ + ACCOUNT_ID@ + ":role/"@ + name)),
                ("name"@, Json::Str(name)),
            ],
        ),
        dependencies: no_deps(),
    }
}

/// The block of a batch cache volume deleted since the state was written.
pub open spec fn deleted_volume_block() -> BlockItem {
    BlockItem {
        resource_type: "aws_ebs_volume"@,
        name: "deleted_batch_cache"@,
        attributes: Json::Object(
            seq![
                ("id"@, Json::Str("vol-deleted-batch-cache"@)),
                ("arn"@, Json::Str(ec2_arn_spec("us-east-1"@, "volume"@, "vol-deleted-batch-cache"@))),
                ("availability_zone"@, Json::Str("us-east-1a"@)),
                ("size"@, Json::Number(crate::json::int_text(500))),
            ],
        ),
        dependencies: no_deps(),
    }
}

/// The address parts of some blocks, in order.
pub open spec fn block_items(s: Seq<TerraformResource>) -> Seq<BlockItem> {
    s.map_values(|b: TerraformResource| block_item(b))
}

/// Whether every block has the demo's fixed shape.
pub open spec fn demo_blocks(s: Seq<TerraformResource>) -> bool {
    forall|i: int| 0 <= i < s.len() ==> demo_block(#[trigger] s[i])
}

/// The instance blocks of the first `n` instances of an application.
pub open spec fn instance_block_items(region: RegionProfile, env: EnvironmentProfile, app: AppProfile, n: nat) -> Seq<BlockItem>
    decreases n,
{
    if n == 0 {
        seq![]
    } else {
        instance_block_items(region, env, app, (n - 1) as nat).push(instance_block(region, env, app, n))
    }
}

/// The blocks Terraform holds for an application in a region and
/// environment: its security group and instances where it manages them,
/// and its worker function outside development.
pub open spec fn app_block_items(region: RegionProfile, env: EnvironmentProfile, app: AppProfile) -> Seq<BlockItem> {
    (if env.name@ == "prod"@ && app.managed_prod {
        seq![sg_block(region, env, app)]
    } else {
        seq![]
    }) + (if env.name@ == "prod"@ && app.managed_instances {
        instance_block_items(region, env, app, env.instances_per_app as nat)
    } else {
        seq![]
    }) + (if app.lambda && env.name@ != "dev"@ {
        seq![function_block(region, env, app)]
    } else {
        seq![]
    })
}

/// The blocks of some applications, application by application.
pub open spec fn apps_block_items(region: RegionProfile, env: EnvironmentProfile, apps: Seq<AppProfile>) -> Seq<BlockItem>
    decreases apps.len(),
{
    if apps.len() == 0 {
        seq![]
    } else {
        apps_block_items(region, env, apps.drop_last()) + app_block_items(region, env, apps.last())
    }
}

/// The blocks of one environment in one region: its VPC, its three
/// subnets, and the applications' blocks.
pub open spec fn environment_block_items(region: RegionProfile, env: EnvironmentProfile) -> Seq<BlockItem> {
    seq![vpc_block(region, env)] + Seq::new(3, |k: int| subnet_block(region, env, k)) + apps_block_items(
        region,
        env,
        apps_spec(),
    )
}

/// Appends a state block.
fn push_block(blocks: &mut Vec<TerraformResource>, b: TerraformResource)
    ensures
        final(blocks)@ == old(blocks)@.push(b),
        block_items(final(blocks)@) == block_items(old(blocks)@).push(block_item(b)),
{
    blocks.push(b);
    assert(block_items(blocks@) =~= block_items(old(blocks)@).push(block_item(b)));
}

fn vpc_state_block(region: RegionProfile, env: EnvironmentProfile) -> (r: TerraformResource)
    requires
        region.cidr_octet <= 30,
        env.cidr_offset <= 40,
    ensures
        demo_block(r),
        block_item(r) == vpc_block(region, env),
{
    broadcast use crate::json::group_json_view;

    let vpc_id = crate::k8s_demo::cat3("vpc-", region.short, env.name);
    let cidr_base = decimal((region.cidr_octet + env.cidr_offset) as u64);
    let tag_entries = vec![("Environment", s(env.name)), ("Owner", s("network-platform"))];
    assert(crate::json::pairs_model(tag_entries@) =~= seq![("Environment"@, Json::Str(env.name@)), ("Owner"@, Json::Str("network-platform"@))]);
    let attributes = vec![
        ("id", st(vpc_id.clone())),
        ("arn", st(ec2_arn(region.name, "vpc", vpc_id.as_str()))),
        ("cidr_block", st(crate::k8s_demo::cat3("10.", cidr_base.as_str(), ".0.0/16"))),
        ("tags", obj(tag_entries)),
    ];
    assert(crate::json::pairs_model(attributes@) =~= seq![
        ("id"@, Json::Str(network_id("vpc-"@, region, env))),
        ("arn"@, Json::Str(ec2_arn_spec(region.name@, "vpc"@, network_id("vpc-"@, region, env)))),
        ("cidr_block"@, Json::Str("10."@ + cidr_base_spec(region, env) + ".0.0/16"@)),
        ("tags"@, Json::Object(seq![("Environment"@, Json::Str(env.name@)), ("Owner"@, Json::Str("network-platform"@))])),
    ]);
    assert(crate::json::items_view(Seq::<JsonValue>::empty()) =~= seq![]);
    terraform_resource("aws_vpc", crate::k8s_demo::cat3(env.name, "_", region.short), obj(attributes), JsonValue::Array(Vec::new()))
}

fn one_dependency(address: String) -> (r: JsonValue)
    ensures
        r@ == str_array(seq![address@]),
{
    let items = vec![address];
    assert(crate::order::texts(items@) =~= seq![items@[0]@]);
    deps(items)
}

fn subnet_state_block(region: RegionProfile, env: EnvironmentProfile, k: usize) -> (r: TerraformResource)
    requires
        region.cidr_octet <= 30,
        env.cidr_offset <= 40,
        k < 3,
    ensures
        demo_block(r),
        block_item(r) == subnet_block(region, env, k as int),
{
    let vpc_id = crate::k8s_demo::cat3("vpc-", region.short, env.name);
    let cidr_base = decimal((region.cidr_octet + env.cidr_offset) as u64);
    let number = decimal((k + 1) as u64);
    let third = decimal((k + 10) as u64);
    let subnet_id = crate::k8s_demo::cat4("subnet-", region.short, env.name, number.as_str());
    let attributes = vec![
        ("id", st(subnet_id.clone())),
        ("arn", st(ec2_arn(region.name, "subnet", subnet_id.as_str()))),
        ("availability_zone", st(crate::k8s_demo::cat2(region.name, zone_suffix(k)))),
        ("cidr_block", st(crate::k8s_demo::cat5("10.", cidr_base.as_str(), ".", third.as_str(), ".0/24"))),
        ("vpc_id", st(vpc_id)),
    ];
    assert(crate::json::pairs_model(attributes@) =~= seq![
        ("id"@, Json::Str(subnet_id_spec(region, env, k as int))),
        ("arn"@, Json::Str(ec2_arn_spec(region.name@, "subnet"@, subnet_id_spec(region, env, k as int)))),
        ("availability_zone"@, Json::Str(region.name@ + zone_spec(k as int))),
        ("cidr_block"@, Json::Str("10."@ + cidr_base_spec(region, env) + "."@ + crate::text::decimal_spec((k + 10) as nat) + ".0/24"@)),
        ("vpc_id"@, Json::Str(network_id("vpc-"@, region, env))),
    ]);
    let vpc_address = crate::k8s_demo::cat4("aws_vpc.", env.name, "_", region.short);
    assert(vpc_address@ =~= "aws_vpc."@ + block_base(region, env));
    terraform_resource(
        "aws_subnet",
        crate::k8s_demo::cat5(env.name, "_", region.short, "_app_", number.as_str()),
        obj(attributes),
        one_dependency(vpc_address),
    )
}

fn sg_state_block(region: RegionProfile, env: EnvironmentProfile, app: AppProfile) -> (r: TerraformResource)
    ensures
        demo_block(r),
        block_item(r) == sg_block(region, env, app),
{
    let sg_id = security_group_id(region, env, app);
    let attributes = vec![
        ("id", st(sg_id.clone())),
        ("arn", st(ec2_arn(region.name, "security-group", sg_id.as_str()))),
        ("name", st(crate::k8s_demo::cat6(env.name, "-", region.short, "-", app.name, "-sg"))),
        ("vpc_id", st(crate::k8s_demo::cat3("vpc-", region.short, env.name))),
    ];
    assert(crate::json::pairs_model(attributes@) =~= seq![
        ("id"@, Json::Str(sg_id_spec(region, env, app))),
        ("arn"@, Json::Str(ec2_arn_spec(region.name@, "security-group"@, sg_id_spec(region, env, app)))),
        ("name"@, Json::Str(app_prefix(region, env, app) + "-sg"@)),
        ("vpc_id"@, Json::Str(network_id("vpc-"@, region, env))),
    ]);
    let vpc_address = crate::k8s_demo::cat4("aws_vpc.", env.name, "_", region.short);
    assert(vpc_address@ =~= "aws_vpc."@ + block_base(region, env));
    terraform_resource(
        "aws_security_group",
        crate::k8s_demo::cat5(env.name, "_", region.short, "_", app.short),
        obj(attributes),
        one_dependency(vpc_address),
    )
}

fn instance_state_block(region: RegionProfile, env: EnvironmentProfile, app: AppProfile, instance_index: usize) -> (r:
    TerraformResource)
    requires
        instance_index < 3,
    ensures
        demo_block(r),
        block_item(r) == instance_block(region, env, app, (instance_index + 1) as nat),
{
    let instance_id = instance_id(region, env, app, instance_index);
    let mut block = crate::k8s_demo::cat6(env.name, "_", region.short, "_", app.short, "_");
    push_two_digits(&mut block, (instance_index + 1) as u64);
    let subnet_number = decimal(((instance_index % 3) + 1) as u64);
    let attributes = vec![
        ("id", st(instance_id.clone())),
        ("arn", st(ec2_arn(region.name, "instance", instance_id.as_str()))),
        ("instance_type", s(instance_type(env, app))),
        ("subnet_id", st(crate::k8s_demo::cat4("subnet-", region.short, env.name, subnet_number.as_str()))),
    ];
    assert(crate::json::pairs_model(attributes@) =~= seq![
        ("id"@, Json::Str(instance_id_spec(region, env, app, instance_index as int))),
        ("arn"@, Json::Str(ec2_arn_spec(region.name@, "instance"@, instance_id_spec(region, env, app, instance_index as int)))),
        ("instance_type"@, Json::Str(instance_type_spec(env.name@, app.short@))),
        ("subnet_id"@, Json::Str(subnet_id_spec(region, env, (instance_index as int) % 3))),
    ]);
    let sg_address = crate::k8s_demo::cat6("aws_security_group.", env.name, "_", region.short, "_", app.short);
    assert(sg_address@ =~= "aws_security_group."@ + app_block_prefix(region, env, app));
    terraform_resource(
        "aws_instance",
        block,
        obj(attributes),
        one_dependency(sg_address),
    )
}

fn function_state_block(region: RegionProfile, env: EnvironmentProfile, app: AppProfile) -> (r: TerraformResource)
    ensures
        demo_block(r),
        block_item(r) == function_block(region, env, app),
{
    let function_id = crate::k8s_demo::cat6(env.name, "-", region.short, "-", app.name, "-worker");
    let attributes = vec![
        ("id", st(function_id.clone())),
        ("arn", st(crate::k8s_demo::cat6("arn:aws:lambda:", region.name, ":", ACCOUNT_ID, ":function:", function_id.as_str()))),
        ("function_name", st(function_id.clone())),
        ("runtime", s("provided.al2023")),
        ("role", st(crate::k8s_demo::cat5("arn:aws:iam::", ACCOUNT_ID, ":role/cloudmapper-demo-", app.short, "-runtime"))),
    ];
    assert(crate::json::pairs_model(attributes@) =~= seq![
        ("id"@, Json::Str(function_id_spec(region, env, app))),
        ("arn"@, Json::Str("arn:aws:lambda:"@ + region.name@ + ":"@ + ACCOUNT_ID@ + ":function:"@ + function_id_spec(region, env, app))),
        ("function_name"@, Json::Str(function_id_spec(region, env, app))),
        ("runtime"@, Json::Str("provided.al2023"@)),
        ("role"@, Json::Str("arn:aws:iam::"@ + ACCOUNT_ID@ + ":role/cloudmapper-demo-"@ + app.short@ + "-runtime"@)),
    ]);
    let role_address = crate::k8s_demo::cat3("aws_iam_role.", app.short, "_runtime");
    let sg_address = crate::k8s_demo::cat6("aws_security_group.", env.name, "_", region.short, "_", app.short);
    assert(sg_address@ =~= "aws_security_group."@ + app_block_prefix(region, env, app));
    let dependencies = vec![role_address, sg_address];
    assert(crate::order::texts(dependencies@) =~= seq![
        "aws_iam_role."@ + app.short@ + "_runtime"@,
        "aws_security_group."@ + app_block_prefix(region, env, app),
    ]);
    terraform_resource(
        "aws_lambda_function",
        crate::k8s_demo::cat6(env.name, "_", region.short, "_", app.short, "_worker"),
        obj(attributes),
        deps(dependencies),
    )
}

#[verifier::rlimit(40)]
#[verifier::spinoff_prover]
fn add_environment_state(blocks: &mut Vec<TerraformResource>, region: RegionProfile, env: EnvironmentProfile)
    requires
        region.cidr_octet <= 30,
        env.cidr_offset <= 40,
        env.instances_per_app <= 3,
    ensures
        keeps(old(blocks)@, final(blocks)@),
        demo_blocks(old(blocks)@) ==> demo_blocks(final(blocks)@),
        block_items(final(blocks)@) == block_items(old(blocks)@) + environment_block_items(region, env),
{
    let ghost old0 = blocks@;
    let ghost all_demo = demo_blocks(old0);
    push_block(blocks, vpc_state_block(region, env));
    let ghost subnet_key = |k: int| subnet_block(region, env, k);
    let ghost start = block_items(old0) + seq![vpc_block(region, env)];
    assert(block_items(blocks@) =~= start);
    let mut subnet_index: usize = 0;
    while subnet_index < 3
        invariant
            subnet_index <= 3,
            region.cidr_octet <= 30,
            env.cidr_offset <= 40,
            keeps(old0, blocks@),
            all_demo ==> demo_blocks(blocks@),
            all_demo == demo_blocks(old0),
            subnet_key == (|k: int| subnet_block(region, env, k)),
            block_items(blocks@) == start + Seq::new(subnet_index as nat, subnet_key),
        decreases 3 - subnet_index,
    {
        push_block(blocks, subnet_state_block(region, env, subnet_index));
        assert(Seq::new((subnet_index + 1) as nat, subnet_key) =~= Seq::new(subnet_index as nat, subnet_key).push(
            subnet_key(subnet_index as int),
        ));
        subnet_index += 1;
    }
    let ghost after_net = start + Seq::new(3, subnet_key);
    let all_apps = apps();
    let mut a: usize = 0;
    while a < all_apps.len()
        invariant
            a <= all_apps@.len(),
            all_apps@ == apps_spec(),
            env.instances_per_app <= 3,
            keeps(old0, blocks@),
            all_demo ==> demo_blocks(blocks@),
            all_demo == demo_blocks(old0),
            block_items(blocks@) == after_net + apps_block_items(region, env, all_apps@.take(a as int)),
        decreases all_apps@.len() - a,
    {
        let app = all_apps[a];
        let ghost app_start = block_items(blocks@);
        if terraform_manages_security_group(env, app) {
            push_block(blocks, sg_state_block(region, env, app));
        }
        let ghost after_sg = app_start + (if env.name@ == "prod"@ && app.managed_prod {
            seq![sg_block(region, env, app)]
        } else {
            seq![]
        });
        assert(block_items(blocks@) =~= after_sg);
        if terraform_manages_instance(env, app) {
            let mut instance_index: usize = 0;
            while instance_index < env.instances_per_app
                invariant
                    instance_index <= env.instances_per_app,
                    env.instances_per_app <= 3,
                    keeps(old0, blocks@),
                    all_demo ==> demo_blocks(blocks@),
                    all_demo == demo_blocks(old0),
                    block_items(blocks@) == after_sg + instance_block_items(region, env, app, instance_index as nat),
                decreases env.instances_per_app - instance_index,
            {
                push_block(blocks, instance_state_block(region, env, app, instance_index));
                instance_index += 1;
            }
        }
        let ghost after_inst = after_sg + (if env.name@ == "prod"@ && app.managed_instances {
            instance_block_items(region, env, app, env.instances_per_app as nat)
        } else {
            seq![]
        });
        assert(block_items(blocks@) =~= after_inst);
        if app.lambda && !str_eq(env.name, "dev") {
            push_block(blocks, function_state_block(region, env, app));
        }
        proof {
            assert(block_items(blocks@) =~= app_start + app_block_items(region, env, app));
            assert(all_apps@.take(a + 1).drop_last() =~= all_apps@.take(a as int));
            assert(all_apps@.take(a + 1).last() == app);
            assert(block_items(blocks@) =~= after_net + apps_block_items(region, env, all_apps@.take(a + 1)));
        }
        a += 1;
    }
    assert(all_apps@.take(a as int) =~= all_apps@);
    assert(block_items(blocks@) =~= block_items(old0) + environment_block_items(region, env));
}

/// The state blocks of some environments of a region.
pub open spec fn envs_block_items(region: RegionProfile, envs: Seq<EnvironmentProfile>) -> Seq<BlockItem>
    decreases envs.len(),
{
    if envs.len() == 0 {
        seq![]
    } else {
        envs_block_items(region, envs.drop_last()) + environment_block_items(region, envs.last())
    }
}

/// The state blocks of some regions, each with every environment.
pub open spec fn regions_block_items(regions: Seq<RegionProfile>) -> Seq<BlockItem>
    decreases regions.len(),
{
    if regions.len() == 0 {
        seq![]
    } else {
        regions_block_items(regions.drop_last()) + envs_block_items(regions.last(), environments_spec())
    }
}

/// The production data buckets Terraform manages.
pub open spec fn bucket_block_items(apps: Seq<AppProfile>) -> Seq<BlockItem>
    decreases apps.len(),
{
    if apps.len() == 0 {
        seq![]
    } else {
        bucket_block_items(apps.drop_last()) + (if apps.last().managed_prod {
            seq![bucket_block(apps.last())]
        } else {
            seq![]
        })
    }
}

/// The runtime roles Terraform manages: those of the applications it
/// manages in production or that run a function.
pub open spec fn role_block_items(apps: Seq<AppProfile>) -> Seq<BlockItem>
    decreases apps.len(),
{
    if apps.len() == 0 {
        seq![]
    } else {
        role_block_items(apps.drop_last()) + (if apps.last().managed_prod || apps.last().lambda {
            seq![role_block(apps.last())]
        } else {
            seq![]
        })
    }
}

/// The blocks of the demo state: every region's environments, the
/// production buckets, the runtime roles, and one deleted volume.
pub open spec fn tfstate_block_items() -> Seq<BlockItem> {
    regions_block_items(regions_spec()) + bucket_block_items(apps_spec()) + role_block_items(apps_spec()) + seq![
        deleted_volume_block(),
    ]
}

/// The Terraform state of the demo organisation: the network of every
/// region and environment, the production security groups and instances
/// Terraform manages, the functions outside development, the managed
/// production buckets, the runtime roles, and one volume deleted since.
#[verifier::rlimit(40)]
#[verifier::spinoff_prover]
pub fn demo_tfstate() -> (state: TerraformState)
    ensures
        state.version == Some(4i64),
        crate::aws_scan::opt_view(state.terraform_version) == Some("1.8.0"@),
        state.serial == Some(42i64),
        crate::aws_scan::opt_view(state.lineage) == Some("cloudmapper-large-org-demo"@),
        state.extra@.len() == 0,
        demo_blocks(state.resources@),
        block_items(state.resources@) == tfstate_block_items(),
{
    let mut blocks: Vec<TerraformResource> = Vec::new();
    assert(block_items(blocks@) =~= seq![]);
    let all_regions = regions();
    let all_envs = environments();
    let mut r: usize = 0;
    while r < 3
        invariant
            r <= 3,
            all_regions@ == regions_spec(),
            all_envs@ == environments_spec(),
            all_regions@.len() == 3,
            all_envs@.len() == 3,
            forall|i: int| 0 <= i < all_regions@.len() ==> #[trigger] all_regions@[i].cidr_octet <= 30,
            forall|i: int| 0 <= i < all_envs@.len() ==> #[trigger] all_envs@[i].cidr_offset <= 40 && all_envs@[i].instances_per_app <= 3,
            demo_blocks(blocks@),
            block_items(blocks@) == regions_block_items(all_regions@.take(r as int)),
        decreases 3 - r,
    {
        let ghost before = block_items(blocks@);
        let mut e: usize = 0;
        while e < 3
            invariant
                e <= 3,
                r < 3,
                all_regions@ == regions_spec(),
                all_envs@ == environments_spec(),
                all_regions@.len() == 3,
                all_envs@.len() == 3,
                forall|i: int| 0 <= i < all_regions@.len() ==> #[trigger] all_regions@[i].cidr_octet <= 30,
                forall|i: int| 0 <= i < all_envs@.len() ==> #[trigger] all_envs@[i].cidr_offset <= 40 && all_envs@[i].instances_per_app <= 3,
                demo_blocks(blocks@),
                block_items(blocks@) == before + envs_block_items(all_regions@[r as int], all_envs@.take(e as int)),
            decreases 3 - e,
        {
            add_environment_state(&mut blocks, all_regions[r], all_envs[e]);
            proof {
                assert(all_envs@.take(e + 1).drop_last() =~= all_envs@.take(e as int));
                assert(all_envs@.take(e + 1).last() == all_envs@[e as int]);
                assert(block_items(blocks@) =~= before + envs_block_items(all_regions@[r as int], all_envs@.take(e + 1)));
            }
            e += 1;
        }
        proof {
            assert(all_envs@.take(3) =~= all_envs@);
            assert(all_regions@.take(r + 1).drop_last() =~= all_regions@.take(r as int));
            assert(all_regions@.take(r + 1).last() == all_regions@[r as int]);
            assert(block_items(blocks@) =~= regions_block_items(all_regions@.take(r + 1)));
        }
        r += 1;
    }
    assert(all_regions@.take(3) =~= all_regions@);
    let ghost after_regions = regions_block_items(regions_spec());
    let all_apps = apps();
    let mut a: usize = 0;
    while a < all_apps.len()
        invariant
            a <= all_apps@.len(),
            all_apps@ == apps_spec(),
            demo_blocks(blocks@),
            block_items(blocks@) == after_regions + bucket_block_items(all_apps@.take(a as int)),
        decreases all_apps@.len() - a,
    {
        let app = all_apps[a];
        if app.managed_prod {
            let bucket_name = crate::k8s_demo::cat4("cm-demo-", app.short, "-prod-data-", ACCOUNT_ID);
            let attributes = vec![
                ("id", st(bucket_name.clone())),
                ("arn", st(crate::k8s_demo::cat2("arn:aws:s3:::", bucket_name.as_str()))),
                ("bucket", st(bucket_name.clone())),
            ];
            assert(crate::json::pairs_model(attributes@) =~= seq![
                ("id"@, Json::Str(bucket_name@)),
                ("arn"@, Json::Str("arn:aws:s3:::"@ + bucket_name@)),
                ("bucket"@, Json::Str(bucket_name@)),
            ]);
            push_block(&mut blocks, terraform_resource(
                "aws_s3_bucket",
                crate::k8s_demo::cat2(app.short, "_prod_data"),
                obj(attributes),
                JsonValue::Array(Vec::new()),
            ));
        }
        proof {
            assert(all_apps@.take(a + 1).drop_last() =~= all_apps@.take(a as int));
            assert(all_apps@.take(a + 1).last() == app);
            assert(block_items(blocks@) =~= after_regions + bucket_block_items(all_apps@.take(a + 1)));
        }
        a += 1;
    }
    assert(all_apps@.take(a as int) =~= all_apps@);
    let ghost after_buckets = after_regions + bucket_block_items(apps_spec());
    let mut b: usize = 0;
    while b < all_apps.len()
        invariant
            b <= all_apps@.len(),
            all_apps@ == apps_spec(),
            demo_blocks(blocks@),
            block_items(blocks@) == after_buckets + role_block_items(all_apps@.take(b as int)),
        decreases all_apps@.len() - b,
    {
        let app = all_apps[b];
        if app.managed_prod || app.lambda {
            let role_name = crate::k8s_demo::cat3("cloudmapper-demo-", app.short, "-runtime");
            let attributes = vec![
                ("id", st(role_name.clone())),
                ("arn", st(crate::k8s_demo::cat4("arn:aws:iam::", ACCOUNT_ID, ":role/", role_name.as_str()))),
                ("name", st(role_name.clone())),
            ];
            assert(crate::json::pairs_model(attributes@) =~= seq![
                ("id"@, Json::Str(role_name@)),
                ("arn"@, Json::Str("arn:aws:iam::"@ + ACCOUNT_ID@ + ":role/"@ + role_name@)),
                ("name"@, Json::Str(role_name@)),
            ]);
            push_block(&mut blocks, terraform_resource(
                "aws_iam_role",
                crate::k8s_demo::cat2(app.short, "_runtime"),
                obj(attributes),
                JsonValue::Array(Vec::new()),
            ));
        }
        proof {
            assert(all_apps@.take(b + 1).drop_last() =~= all_apps@.take(b as int));
            assert(all_apps@.take(b + 1).last() == app);
            assert(block_items(blocks@) =~= after_buckets + role_block_items(all_apps@.take(b + 1)));
        }
        b += 1;
    }
    assert(all_apps@.take(b as int) =~= all_apps@);
    let volume_attributes = vec![
        ("id", s("vol-deleted-batch-cache")),
        ("arn", st(ec2_arn("us-east-1", "volume", "vol-deleted-batch-cache"))),
        ("availability_zone", s("us-east-1a")),
        ("size", int_json(500)),
    ];
    assert(crate::json::pairs_model(volume_attributes@) =~= seq![
        ("id"@, Json::Str("vol-deleted-batch-cache"@)),
        ("arn"@, Json::Str(ec2_arn_spec("us-east-1"@, "volume"@, "vol-deleted-batch-cache"@))),
        ("availability_zone"@, Json::Str("us-east-1a"@)),
        ("size"@, Json::Number(crate::json::int_text(500))),
    ]);
    push_block(&mut blocks, terraform_resource(
        "aws_ebs_volume",
        "deleted_batch_cache".to_owned(),
        obj(volume_attributes),
        JsonValue::Array(Vec::new()),
    ));
    assert(block_items(blocks@) =~= tfstate_block_items());
    let lineage = "cloudmapper-large-org-demo".to_owned();
    let extra: Vec<(String, JsonValue)> = Vec::new();
    TerraformState {
        version: Some(4),
        terraform_version: Some("1.8.0".to_owned()),
        serial: Some(42),
        lineage: Some(lineage),
        resources: blocks,
        extra,
    }
}

} // verus!
