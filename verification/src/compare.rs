//! Drift between a scanned AWS inventory and imported Terraform state: which
//! resources are unmanaged, publicly reachable, missing from AWS, or running
//! a different instance type than Terraform declares.
use vstd::prelude::*;
use vstd::string::*;

use crate::json::{clone_json, entries_view, items_view, json_get, Json, JsonValue};
use crate::order::{
    index_by_key, key_index, keyed_map, keys_sorted, lemma_keyed_map, lemma_lt_irreflexive,
    lemma_sorted_list, locate, seq_has, seq_lt, sorted_distinct, sorted_list, sorted_set_of, texts,
    insertion_point, stable_sort_by,
    Keyed,
};
use crate::text::{push_char, replace_chars, replace_chars_spec, str_eq};

verus! {

/// How severe a finding is.
#[derive(Clone, Copy, Debug, PartialEq, Eq, Structural)]
pub enum Severity {
    Medium,
    High,
    Critical,
}

/// The rank of a severity, higher being more severe.
pub open spec fn severity_level(s: Severity) -> int {
    match s {
        Severity::Medium => 0,
        Severity::High => 1,
        Severity::Critical => 2,
    }
}

/// The lower-case name of a severity.
pub open spec fn severity_name_spec(s: Severity) -> Seq<char> {
    match s {
        Severity::Medium => "medium"@,
        Severity::High => "high"@,
        Severity::Critical => "critical"@,
    }
}

/// The lower-case name of a severity.
pub fn severity_name(severity: Severity) -> (r: &'static str)
    ensures
        r@ == severity_name_spec(severity),
{
    match severity {
        Severity::Medium => "medium",
        Severity::High => "high",
        Severity::Critical => "critical",
    }
}

/// A drift finding.
#[derive(Clone, Debug)]
pub struct Finding {
    pub id: String,
    pub finding_type: String,
    pub severity: Severity,
    pub aws_uid: Option<String>,
    pub terraform_address: Option<String>,
    pub reason: String,
    pub recommended_action: String,
    pub blast_radius: Vec<String>,
    pub evidence: Vec<JsonValue>,
    pub attributes: JsonValue,
}

/// What a finding holds.
pub struct FindingModel {
    pub id: Seq<char>,
    pub finding_type: Seq<char>,
    pub severity: Severity,
    pub aws_uid: Option<Seq<char>>,
    pub terraform_address: Option<Seq<char>>,
    pub reason: Seq<char>,
    pub recommended_action: Seq<char>,
    pub blast_radius: Seq<Seq<char>>,
    pub evidence: Seq<Json>,
    pub attributes: Json,
}

impl View for Finding {
    type V = FindingModel;

    open spec fn view(&self) -> FindingModel {
        FindingModel {
            id: self.id@,
            finding_type: self.finding_type@,
            severity: self.severity,
            aws_uid: crate::aws_scan::opt_view(self.aws_uid),
            terraform_address: crate::aws_scan::opt_view(self.terraform_address),
            reason: self.reason@,
            recommended_action: self.recommended_action@,
            blast_radius: crate::order::texts(self.blast_radius@),
            evidence: crate::json::items_view(self.evidence@),
            attributes: self.attributes@,
        }
    }
}

/// A drift comparison run.
#[derive(Debug)]
pub struct CompareReport {
    pub schema_version: String,
    pub run_id: String,
    pub scan_id: String,
    pub terraform_state_id: String,
    /// RFC 3339 timestamp.
    pub generated_at: String,
    pub findings: Vec<Finding>,
}

/// A resource of a stored AWS scan.
#[derive(Clone, Debug)]
pub struct AwsResource {
    pub uid: String,
    pub provider: String,
    pub account_id: String,
    pub partition: String,
    pub region: String,
    pub service: String,
    pub resource_type: String,
    pub id: String,
    pub arn: Option<String>,
    pub name: Option<String>,
    pub tags: Vec<(String, String)>,
    pub attributes: JsonValue,
    pub evidence: Vec<JsonValue>,
}

/// A resource instance of imported Terraform state.
#[derive(Clone, Debug)]
pub struct TerraformResource {
    pub address: String,
    pub resource_type: String,
    pub aws_uid: Option<String>,
    pub attributes: JsonValue,
}

impl Keyed for AwsResource {
    open spec fn key_spec(&self) -> Seq<char> {
        self.uid@
    }

    fn key(&self) -> (r: &str) {
        self.uid.as_str()
    }
}

/// The characters a finding id replaces in its key.
pub open spec fn id_unsafe_chars() -> Seq<char> {
    seq![' ', '\n', '\t']
}

/// The id of a finding: its type, `:`, and the key with spaces, newlines
/// and tabs replaced by `_`.
pub open spec fn finding_id_spec(finding_type: Seq<char>, key: Seq<char>) -> Seq<char> {
    finding_type + seq![':'] + replace_chars_spec(key, id_unsafe_chars(), '_')
}

/// The id of a finding.
pub fn finding_id(finding_type: &str, key: &str) -> (r: String)
    ensures
        r@ == finding_id_spec(finding_type@, key@),
{
    let targets = [' ', '\n', '\t'];
    assert(targets@ =~= id_unsafe_chars());
    let mut out = finding_type.to_owned();
    push_char(&mut out, ':');
    let safe = replace_chars(key, &targets, '_');
    out.append(safe.as_str());
    assert(out@ =~= finding_id_spec(finding_type@, key@));
    out
}

/// The name a resource is shown by: its name when non-empty, else its id.
pub open spec fn display_name(r: AwsResource) -> Seq<char> {
    match r.name {
        Some(n) => if n@.len() > 0 {
            n@
        } else {
            r.id@
        },
        None => r.id@,
    }
}

/// `service type name` of a resource.
pub open spec fn resource_label_spec(r: AwsResource) -> Seq<char> {
    r.service@ + seq![' '] + r.resource_type@ + seq![' '] + display_name(r)
}

/// The label of a resource in messages.
pub fn resource_label(r: &AwsResource) -> (s: String)
    ensures
        s@ == resource_label_spec(*r),
{
    let name: &str = match &r.name {
        Some(n) => if n.unicode_len() > 0 {
            n.as_str()
        } else {
            r.id.as_str()
        },
        None => r.id.as_str(),
    };
    let mut out = r.service.clone();
    push_char(&mut out, ' ');
    out.append(r.resource_type.as_str());
    push_char(&mut out, ' ');
    out.append(name);
    assert(out@ =~= resource_label_spec(*r));
    out
}

/// Whether an ingress rule is open to the whole IPv4 or IPv6 internet.
pub open spec fn public_cidr(rule: Json) -> bool {
    crate::json::array_contains_spec(rule, "ipv4_ranges"@, "0.0.0.0/0"@) || crate::json::array_contains_spec(
        rule,
        "ipv6_ranges"@,
        "::/0"@,
    )
}

/// The ingress rules of a security group open to the internet, in order.
pub open spec fn public_rules_of(rules: Seq<Json>) -> Seq<Json>
    decreases rules.len(),
{
    if rules.len() == 0 {
        Seq::empty()
    } else {
        let prev = public_rules_of(rules.drop_last());
        if public_cidr(rules.last()) {
            prev.push(rules.last())
        } else {
            prev
        }
    }
}

/// The public ingress rules of a resource's attributes.
pub open spec fn public_ingress_spec(r: AwsResource) -> Seq<Json> {
    match crate::json::json_array(json_get(r.attributes@, "ingress"@)) {
        Some(rules) => public_rules_of(rules),
        None => Seq::empty(),
    }
}

/// The ingress rules of a resource open to the internet.
pub fn public_ingress_rules(r: &AwsResource) -> (v: Vec<JsonValue>)
    ensures
        crate::json::items_view(v@) == public_ingress_spec(*r),
{
    broadcast use crate::json::group_json_view;

    let mut out: Vec<JsonValue> = Vec::new();
    let rules = match r.attributes.get("ingress") {
        Some(v) => match v.as_array() {
            Some(items) => items,
            None => {
                assert(crate::json::items_view(out@) =~= Seq::<Json>::empty());
                return out;
            },
        },
        None => {
            assert(crate::json::items_view(out@) =~= Seq::<Json>::empty());
            return out;
        },
    };
    let ghost rv = crate::json::items_view(rules@);
    proof {
        crate::json::lemma_items_view_len(rules@);
    }
    let mut i: usize = 0;
    assert(rv.take(0) =~= Seq::<Json>::empty());
    assert(crate::json::items_view(out@) =~= public_rules_of(rv.take(0)));
    while i < rules.len()
        invariant
            i <= rules@.len(),
            rv == crate::json::items_view(rules@),
            rv.len() == rules@.len(),
            crate::json::items_view(out@) == public_rules_of(rv.take(i as int)),
        decreases rules@.len() - i,
    {
        let rule = &rules[i];
        proof {
            crate::json::lemma_items_view_index(rules@, i as int);
        }
        assert(rv.take(i + 1).drop_last() =~= rv.take(i as int));
        assert(rv.take(i + 1).last() == rule@);
        if crate::json::array_contains(rule, "ipv4_ranges", "0.0.0.0/0") || crate::json::array_contains(
            rule,
            "ipv6_ranges",
            "::/0",
        ) {
            let ghost before = out@;
            out.push(clone_json(rule));
            assert(out@.drop_last() =~= before);
            assert(crate::json::items_view(out@) == crate::json::items_view(before).push(rule@));
        }
        i += 1;
    }
    assert(rv.take(i as int) =~= rv);
    out
}

/// A security group that allows ingress from the internet.
pub open spec fn public_security_group(r: AwsResource) -> bool {
    r.service@ == "ec2"@ && r.resource_type@ == "security-group"@ && public_ingress_spec(r).len() > 0
}

/// Whether a resource is a security group that allows ingress from the internet.
pub fn is_public_security_group(r: &AwsResource) -> (b: bool)
    ensures
        b == public_security_group(*r),
{
    broadcast use crate::json::group_json_view;

    if !str_eq(r.service.as_str(), "ec2") || !str_eq(r.resource_type.as_str(), "security-group") {
        return false;
    }
    let rules = public_ingress_rules(r);
    proof {
        crate::json::lemma_items_view_len(rules@);
    }
    rules.len() > 0
}

/// The identity members of a resource's finding attributes.
pub open spec fn identity_members(r: AwsResource) -> Seq<(Seq<char>, Json)> {
    seq![
        ("service"@, Json::Str(r.service@)),
        ("type"@, Json::Str(r.resource_type@)),
        ("id"@, Json::Str(r.id@)),
        ("arn"@, crate::json::opt_text(r.arn)),
    ]
}

/// The attributes of a public ingress finding.
pub open spec fn public_ingress_attributes_spec(r: AwsResource) -> Json {
    Json::Object(seq![("public_ingress"@, Json::Array(public_ingress_spec(r)))] + identity_members(r))
}

fn identity_entries(r: &AwsResource) -> (v: Vec<(String, JsonValue)>)
    ensures
        crate::json::entries_view(v@) == identity_members(*r),
{
    broadcast use crate::json::group_json_view;

    let arn = crate::json::opt_str_json(&r.arn);
    let v = vec![
        ("service".to_owned(), JsonValue::Str(r.service.clone())),
        ("type".to_owned(), JsonValue::Str(r.resource_type.clone())),
        ("id".to_owned(), JsonValue::Str(r.id.clone())),
        ("arn".to_owned(), arn),
    ];
    proof {
        crate::json::lemma_entries_view_len(v@);
        crate::json::lemma_entries_view_index(v@, 0);
        crate::json::lemma_entries_view_index(v@, 1);
        crate::json::lemma_entries_view_index(v@, 2);
        crate::json::lemma_entries_view_index(v@, 3);
    }
    assert(crate::json::entries_view(v@) =~= identity_members(*r));
    v
}

/// The attributes of a public ingress finding.
pub fn public_ingress_attributes(r: &AwsResource) -> (v: JsonValue)
    ensures
        v@ == public_ingress_attributes_spec(*r),
{
    broadcast use crate::json::group_json_view;

    let rules = public_ingress_rules(r);
    let mut members: Vec<(String, JsonValue)> = Vec::new();
    members.push(("public_ingress".to_owned(), JsonValue::Array(rules)));
    let mut rest = identity_entries(r);
    let ghost head = crate::json::entries_view(members@);
    let ghost tail = crate::json::entries_view(rest@);
    proof {
        crate::json::lemma_entries_view_len(members@);
        crate::json::lemma_entries_view_index(members@, 0);
        assert(head =~= seq![("public_ingress"@, Json::Array(public_ingress_spec(*r)))]);
    }
    let ghost a = members@;
    let ghost b = rest@;
    members.append(&mut rest);
    proof {
        lemma_entries_view_concat(a, b);
    }
    assert(members@ =~= a + b);
    JsonValue::Object(members)
}

/// The model of members listed in parts is that of the parts in order.
pub proof fn lemma_entries_view_concat(a: Seq<(String, JsonValue)>, b: Seq<(String, JsonValue)>)
    ensures
        crate::json::entries_view(a + b) == crate::json::entries_view(a) + crate::json::entries_view(b),
    decreases b.len(),
{
    if b.len() == 0 {
        assert(a + b =~= a);
        assert(crate::json::entries_view(a) + crate::json::entries_view(b) =~= crate::json::entries_view(a));
    } else {
        lemma_entries_view_concat(a, b.drop_last());
        assert((a + b).drop_last() =~= a + b.drop_last());
        assert((a + b).last() == b.last());
        assert(crate::json::entries_view(a) + crate::json::entries_view(b) =~= (crate::json::entries_view(a)
            + crate::json::entries_view(b.drop_last())).push((b.last().0@, b.last().1@)));
    }
}

/// A non-empty string member of an attributes object.
pub open spec fn string_attr_spec(attributes: Json, key: Seq<char>) -> Option<Seq<char>> {
    match crate::json::json_str(json_get(attributes, key)) {
        Some(s) => if s.len() > 0 {
            Some(s)
        } else {
            None
        },
        None => None,
    }
}

/// A non-empty string member of an attributes object.
pub fn string_attr(attributes: &JsonValue, key: &str) -> (r: Option<String>)
    ensures
        crate::aws_scan::opt_view(r) == string_attr_spec(attributes@, key@),
{
    match attributes.get_str(key) {
        Some(s) => if s.unicode_len() > 0 {
            Some(s.clone())
        } else {
            None
        },
        None => None,
    }
}

fn clone_values(v: &Vec<JsonValue>) -> (r: Vec<JsonValue>)
    ensures
        crate::json::items_view(r@) == crate::json::items_view(v@),
{
    broadcast use crate::json::group_json_view;

    let mut out: Vec<JsonValue> = Vec::new();
    let mut i: usize = 0;
    while i < v.len()
        invariant
            i <= v@.len(),
            out@.len() == i,
            forall|j: int| 0 <= j < i ==> (#[trigger] out@[j])@ == v@[j]@,
        decreases v@.len() - i,
    {
        out.push(clone_json(&v[i]));
        i += 1;
    }
    assert(crate::json::items_view(out@) =~= crate::json::items_view(v@));
    out
}


/// The last Terraform resource instance that names `uid` as its AWS uid.
pub open spec fn terraform_owner(tfs: Seq<TerraformResource>, uid: Seq<char>) -> Option<
    TerraformResource,
>
    decreases tfs.len(),
{
    if tfs.len() == 0 {
        None
    } else {
        match tfs.last().aws_uid {
            Some(u) => if u@ == uid {
                Some(tfs.last())
            } else {
                terraform_owner(tfs.drop_last(), uid)
            },
            None => terraform_owner(tfs.drop_last(), uid),
        }
    }
}

/// The position of the last Terraform resource instance that names `uid`
/// as its AWS uid.
pub fn terraform_owner_index(tfs: &Vec<TerraformResource>, uid: &str) -> (r: Option<usize>)
    ensures
        match r {
            Some(i) => i < tfs@.len() && terraform_owner(tfs@, uid@) == Some(tfs@[i as int]),
            None => terraform_owner(tfs@, uid@) is None,
        },
{
    let mut k: usize = tfs.len();
    assert(tfs@.take(k as int) =~= tfs@);
    while k > 0
        invariant
            k <= tfs@.len(),
            terraform_owner(tfs@, uid@) == terraform_owner(tfs@.take(k as int), uid@),
        decreases k,
    {
        let ghost t = tfs@.take(k as int);
        assert(t.drop_last() =~= tfs@.take(k - 1));
        assert(t.last() == tfs@[k - 1]);
        match &tfs[k - 1].aws_uid {
            Some(u) => {
                if str_eq(u.as_str(), uid) {
                    return Some(k - 1);
                }
            },
            None => {},
        }
        k -= 1;
    }
    None
}

/// What the cost estimates say of an instance whose type drifted from
/// Terraform.
#[derive(Clone, Debug)]
pub struct DriftCost {
    /// Whether the estimated monthly cost differs by at least 100 USD either way.
    pub high_impact: bool,
    /// The estimated monthly difference, signed, with two decimals (`+123.45`).
    pub monthly_delta: String,
    /// The cost object of the finding's attributes.
    pub cost: JsonValue,
}

/// The cost estimates of one AWS resource.
#[derive(Clone, Debug)]
pub struct ResourceCosts {
    /// The resource's uid.
    pub uid: String,
    /// The cost object of its current configuration, where an estimate
    /// exists and is positive.
    pub current: Option<JsonValue>,
    /// Its drift cost against the Terraform configuration, where both
    /// configurations can be estimated.
    pub drift: Option<DriftCost>,
}

/// The first cost estimates given for `uid`.
pub open spec fn costs_for(costs: Seq<ResourceCosts>, uid: Seq<char>) -> Option<ResourceCosts>
    decreases costs.len(),
{
    if costs.len() == 0 {
        None
    } else if costs[0].uid@ == uid {
        Some(costs[0])
    } else {
        costs_for(costs.drop_first(), uid)
    }
}

/// The position of the first cost estimates given for `uid`.
pub fn costs_index(costs: &Vec<ResourceCosts>, uid: &str) -> (r: Option<usize>)
    ensures
        match r {
            Some(i) => i < costs@.len() && costs_for(costs@, uid@) == Some(costs@[i as int]),
            None => costs_for(costs@, uid@) is None,
        },
{
    let mut i: usize = 0;
    assert(costs@.skip(0) =~= costs@);
    while i < costs.len()
        invariant
            i <= costs@.len(),
            costs_for(costs@, uid@) == costs_for(costs@.skip(i as int), uid@),
        decreases costs@.len() - i,
    {
        let ghost t = costs@.skip(i as int);
        assert(t.drop_first() =~= costs@.skip(i + 1));
        assert(t[0] == costs@[i as int]);
        if str_eq(costs[i].uid.as_str(), uid) {
            return Some(i);
        }
        i += 1;
    }
    None
}

/// The uids of the resources with a relationship to `uid`.
pub open spec fn incoming(rels: Seq<(String, String)>, uid: Seq<char>) -> Set<Seq<char>> {
    Set::new(
        |f: Seq<char>| exists|i: int| 0 <= i < rels.len() && #[trigger] rels[i].0@ == f && rels[i].1@ == uid,
    )
}

/// The blast radius of a resource: the uids of the resources with a
/// relationship to it, each once, sorted.
pub open spec fn blast_radius_spec(rels: Seq<(String, String)>, uid: Seq<char>) -> Seq<Seq<char>> {
    sorted_list(incoming(rels, uid))
}

/// The uids of the resources with a relationship (`from`, `to`) to `uid`,
/// each once, sorted.
pub fn reverse_neighbors(rels: &Vec<(String, String)>, uid: &str) -> (r: Vec<String>)
    ensures
        texts(r@) == blast_radius_spec(rels@, uid@),
        sorted_set_of(texts(r@), incoming(rels@, uid@)),
{
    let mut found: Vec<String> = Vec::new();
    let mut i: usize = 0;
    while i < rels.len()
        invariant
            i <= rels@.len(),
            forall|x: Seq<char>|
                seq_has(texts(found@), x) <==> exists|j: int|
                    0 <= j < i && #[trigger] rels@[j].0@ == x && rels@[j].1@ == uid@,
        decreases rels@.len() - i,
    {
        if str_eq(rels[i].1.as_str(), uid) {
            let ghost before = found@;
            found.push(rels[i].0.clone());
            assert(texts(found@) =~= texts(before).push(rels@[i as int].0@));
            assert forall|x: Seq<char>|
                seq_has(texts(found@), x) <==> exists|j: int|
                    0 <= j < i + 1 && #[trigger] rels@[j].0@ == x && rels@[j].1@ == uid@ by {
                if seq_has(texts(found@), x) {
                    let k = choose|k: int| 0 <= k < texts(found@).len() && texts(found@)[k] == x;
                    if k < texts(before).len() {
                        assert(texts(before)[k] == x);
                        assert(seq_has(texts(before), x));
                    } else {
                        assert(rels@[i as int].0@ == x);
                    }
                }
                if exists|j: int| 0 <= j < i + 1 && #[trigger] rels@[j].0@ == x && rels@[j].1@ == uid@ {
                    let j = choose|j: int|
                        0 <= j < i + 1 && #[trigger] rels@[j].0@ == x && rels@[j].1@ == uid@;
                    if j < i {
                        assert(exists|j2: int|
                            0 <= j2 < i && #[trigger] rels@[j2].0@ == x && rels@[j2].1@ == uid@);
                        assert(seq_has(texts(before), x));
                        let k = choose|k: int| 0 <= k < texts(before).len() && texts(before)[k] == x;
                        assert(texts(found@)[k] == x);
                    } else {
                        assert(texts(found@)[texts(before).len() as int] == x);
                    }
                }
            }
        }
        i += 1;
    }
    let out = sorted_distinct(found);
    proof {
        let l = texts(out@);
        let s = incoming(rels@, uid@);
        assert forall|a: int, b: int| 0 <= a < b < l.len() implies seq_lt(l[a], l[b]) by {
            assert(l[a] == out@[a].key_spec() && l[b] == out@[b].key_spec());
        }
        assert forall|x: Seq<char>| seq_has(l, x) <==> s.contains(x) by {
            if seq_has(l, x) {
                let j = choose|j: int|
                    0 <= j < rels@.len() && #[trigger] rels@[j].0@ == x && rels@[j].1@ == uid@;
            }
        }
        assert(sorted_set_of(l, s));
        lemma_sorted_list(l, s);
    }
    out
}

/// The finding models of a list of findings.
pub open spec fn findings_view(s: Seq<Finding>) -> Seq<FindingModel> {
    s.map_values(|f: Finding| f@)
}

/// A finding with no blast radius.
pub open spec fn finding_model(
    finding_type: Seq<char>,
    key: Seq<char>,
    severity: Severity,
    aws_uid: Option<Seq<char>>,
    terraform_address: Option<Seq<char>>,
    reason: Seq<char>,
    recommended_action: Seq<char>,
    evidence: Seq<Json>,
    attributes: Json,
) -> FindingModel {
    FindingModel {
        id: finding_id_spec(finding_type, key),
        finding_type,
        severity,
        aws_uid,
        terraform_address,
        reason,
        recommended_action,
        blast_radius: Seq::empty(),
        evidence,
        attributes,
    }
}

/// The finding on a Terraform-managed security group that allows public ingress.
pub open spec fn owned_public_ingress_spec(r: AwsResource, tf: TerraformResource) -> FindingModel {
    finding_model(
        "terraform_owned_public_ingress"@,
        r.uid@,
        Severity::High,
        Some(r.uid@),
        Some(tf.address@),
        resource_label_spec(r) + " is managed by Terraform but allows public ingress."@,
        "Restrict public ingress in Terraform unless this exposure is intentional."@,
        items_view(r.evidence@),
        public_ingress_attributes_spec(r),
    )
}

/// The finding on a Terraform-managed resource that allows public ingress:
/// when it is a public security group.
pub fn terraform_owned_public_ingress(r: &AwsResource, tf: &TerraformResource) -> (f: Option<Finding>)
    ensures
        match f {
            Some(f) => public_security_group(*r) && f@ == owned_public_ingress_spec(*r, *tf),
            None => !public_security_group(*r),
        },
{
    if !is_public_security_group(r) {
        return None;
    }
    let mut reason = resource_label(r);
    reason.append(" is managed by Terraform but allows public ingress.");
    let f = Finding {
        id: finding_id("terraform_owned_public_ingress", r.uid.as_str()),
        finding_type: "terraform_owned_public_ingress".to_owned(),
        severity: Severity::High,
        aws_uid: Some(r.uid.clone()),
        terraform_address: Some(tf.address.clone()),
        reason,
        recommended_action: "Restrict public ingress in Terraform unless this exposure is intentional.".to_owned(),
        blast_radius: Vec::new(),
        evidence: clone_values(&r.evidence),
        attributes: public_ingress_attributes(r),
    };
    assert(f@.blast_radius =~= Seq::<Seq<char>>::empty());
    Some(f)
}

/// The attributes object of a finding: the resource's identity members,
/// then `extra`.
pub open spec fn identity_object(r: AwsResource, extra: Seq<(Seq<char>, Json)>) -> Json {
    Json::Object(identity_members(r) + extra)
}

fn identity_object_with(r: &AwsResource, extra: Vec<(String, JsonValue)>) -> (v: JsonValue)
    ensures
        v@ == identity_object(*r, entries_view(extra@)),
{
    let mut members = identity_entries(r);
    let mut rest = extra;
    let ghost a = members@;
    let ghost b = rest@;
    members.append(&mut rest);
    proof {
        lemma_entries_view_concat(a, b);
    }
    assert(members@ =~= a + b);
    JsonValue::Object(members)
}

/// The `drift` member of an instance type drift finding.
pub open spec fn drift_members(current: Seq<char>, wanted: Seq<char>, cost: Json) -> Seq<
    (Seq<char>, Json),
> {
    seq![
        ("drift"@, Json::Object(
            seq![
                ("attribute"@, Json::Str("instance_type"@)),
                ("terraform_value"@, Json::Str(wanted)),
                ("aws_value"@, Json::Str(current)),
            ],
        )),
        ("cost"@, cost),
    ]
}

/// The finding on an instance running another type than Terraform declares.
pub open spec fn drift_finding_spec(
    r: AwsResource,
    tf: TerraformResource,
    current: Seq<char>,
    wanted: Seq<char>,
    cost: DriftCost,
) -> FindingModel {
    finding_model(
        "terraform_instance_type_drift"@,
        r.uid@,
        if cost.high_impact {
            Severity::High
        } else {
            Severity::Medium
        },
        Some(r.uid@),
        Some(tf.address@),
        resource_label_spec(r) + " is managed by Terraform as "@ + wanted + " but AWS is running "@
            + current + " (estimated "@ + cost.monthly_delta@ + " USD/month)."@,
        "Run Terraform plan/apply to return the instance to "@ + wanted
            + ", or update Terraform to "@ + current + " if the resize is intentional."@,
        items_view(r.evidence@),
        identity_object(r, drift_members(current, wanted, cost.cost@)),
    )
}

/// The instance types of a managed EC2 instance, current and declared, when
/// both are known and they differ.
pub open spec fn type_drift(r: AwsResource, tf: TerraformResource) -> Option<(Seq<char>, Seq<char>)> {
    if r.service@ == "ec2"@ && r.resource_type@ == "instance"@ && tf.resource_type@
        == "aws_instance"@ {
        match (
            string_attr_spec(r.attributes@, "instance_type"@),
            string_attr_spec(tf.attributes@, "instance_type"@),
        ) {
            (Some(current), Some(wanted)) => if current != wanted {
                Some((current, wanted))
            } else {
                None
            },
            _ => None,
        }
    } else {
        None
    }
}

/// The instance type drift finding on a managed resource, if any.
pub open spec fn drift_spec(r: AwsResource, tf: TerraformResource, cost: Option<DriftCost>) -> Option<
    FindingModel,
> {
    match type_drift(r, tf) {
        Some(types) => match cost {
            Some(c) => Some(drift_finding_spec(r, tf, types.0, types.1, c)),
            None => None,
        },
        None => None,
    }
}

/// The instance types of a managed EC2 instance, current and declared, when
/// both are known and they differ.
pub fn instance_type_drift(r: &AwsResource, tf: &TerraformResource) -> (d: Option<(String, String)>)
    ensures
        match d {
            Some(p) => type_drift(*r, *tf) == Some((p.0@, p.1@)),
            None => type_drift(*r, *tf) is None,
        },
{
    if !str_eq(r.service.as_str(), "ec2") || !str_eq(r.resource_type.as_str(), "instance")
        || !str_eq(tf.resource_type.as_str(), "aws_instance") {
        return None;
    }
    let current = match string_attr(&r.attributes, "instance_type") {
        Some(c) => c,
        None => return None,
    };
    let wanted = match string_attr(&tf.attributes, "instance_type") {
        Some(w) => w,
        None => return None,
    };
    if str_eq(current.as_str(), wanted.as_str()) {
        return None;
    }
    Some((current, wanted))
}

/// The finding on an instance whose type drifted, given what the cost
/// estimates say of it.
pub fn costed_instance_type_drift(
    r: &AwsResource,
    tf: &TerraformResource,
    cost: Option<&DriftCost>,
) -> (f: Option<Finding>)
    ensures
        match f {
            Some(f) => drift_spec(*r, *tf, match cost {
                Some(c) => Some(*c),
                None => None,
            }) == Some(f@),
            None => drift_spec(*r, *tf, match cost {
                Some(c) => Some(*c),
                None => None,
            }) is None,
        },
{
    let (current, wanted) = match instance_type_drift(r, tf) {
        Some(p) => p,
        None => return None,
    };
    let c = match cost {
        Some(c) => c,
        None => return None,
    };
    let mut reason = resource_label(r);
    reason.append(" is managed by Terraform as ");
    reason.append(wanted.as_str());
    reason.append(" but AWS is running ");
    reason.append(current.as_str());
    reason.append(" (estimated ");
    reason.append(c.monthly_delta.as_str());
    reason.append(" USD/month).");
    let mut action = "Run Terraform plan/apply to return the instance to ".to_owned();
    action.append(wanted.as_str());
    action.append(", or update Terraform to ");
    action.append(current.as_str());
    action.append(" if the resize is intentional.");
    let drift = vec![
        ("attribute".to_owned(), JsonValue::Str("instance_type".to_owned())),
        ("terraform_value".to_owned(), JsonValue::Str(wanted.clone())),
        ("aws_value".to_owned(), JsonValue::Str(current.clone())),
    ];
    proof {
        crate::json::lemma_entries_view_len(drift@);
        crate::json::lemma_entries_view_index(drift@, 0);
        crate::json::lemma_entries_view_index(drift@, 1);
        crate::json::lemma_entries_view_index(drift@, 2);
        assert(entries_view(drift@) =~= seq![
            ("attribute"@, Json::Str("instance_type"@)),
            ("terraform_value"@, Json::Str(wanted@)),
            ("aws_value"@, Json::Str(current@)),
        ]);
    }
    let extra = vec![
        ("drift".to_owned(), JsonValue::Object(drift)),
        ("cost".to_owned(), clone_json(&c.cost)),
    ];
    proof {
        crate::json::lemma_entries_view_len(extra@);
        crate::json::lemma_entries_view_index(extra@, 0);
        crate::json::lemma_entries_view_index(extra@, 1);
        assert(entries_view(extra@) =~= drift_members(current@, wanted@, c.cost@));
    }
    let severity = if c.high_impact {
        Severity::High
    } else {
        Severity::Medium
    };
    let f = Finding {
        id: finding_id("terraform_instance_type_drift", r.uid.as_str()),
        finding_type: "terraform_instance_type_drift".to_owned(),
        severity,
        aws_uid: Some(r.uid.clone()),
        terraform_address: Some(tf.address.clone()),
        reason,
        recommended_action: action,
        blast_radius: Vec::new(),
        evidence: clone_values(&r.evidence),
        attributes: identity_object_with(r, extra),
    };
    assert(f@.blast_radius =~= Seq::<Seq<char>>::empty());
    assert(f@ == drift_finding_spec(*r, *tf, current@, wanted@, *c));
    Some(f)
}

/// The finding on a public security group absent from Terraform state.
pub open spec fn unmanaged_public_spec(r: AwsResource, blast: Seq<Seq<char>>) -> FindingModel {
    FindingModel {
        blast_radius: blast,
        ..finding_model(
            "unmanaged_public_resource"@,
            r.uid@,
            Severity::Critical,
            Some(r.uid@),
            None,
            resource_label_spec(r)
                + " exists in AWS, is absent from Terraform state, and allows public ingress."@,
            "Import into Terraform or remove the public ingress rule."@,
            items_view(r.evidence@),
            public_ingress_attributes_spec(r),
        )
    }
}

/// The finding on a resource absent from Terraform state that allows public
/// ingress, with the resources related to it as its blast radius: when it
/// is a public security group.
pub fn unmanaged_public_resource(r: &AwsResource, rels: &Vec<(String, String)>) -> (f: Option<
    Finding,
>)
    ensures
        match f {
            Some(f) => public_security_group(*r) && f@ == unmanaged_public_spec(
                *r,
                blast_radius_spec(rels@, r.uid@),
            ),
            None => !public_security_group(*r),
        },
{
    if !is_public_security_group(r) {
        return None;
    }
    let blast = reverse_neighbors(rels, r.uid.as_str());
    let mut reason = resource_label(r);
    reason.append(" exists in AWS, is absent from Terraform state, and allows public ingress.");
    let f = Finding {
        id: finding_id("unmanaged_public_resource", r.uid.as_str()),
        finding_type: "unmanaged_public_resource".to_owned(),
        severity: Severity::Critical,
        aws_uid: Some(r.uid.clone()),
        terraform_address: None,
        reason,
        recommended_action: "Import into Terraform or remove the public ingress rule.".to_owned(),
        blast_radius: blast,
        evidence: clone_values(&r.evidence),
        attributes: public_ingress_attributes(r),
    };
    assert(f@ == unmanaged_public_spec(*r, blast_radius_spec(rels@, r.uid@)));
    Some(f)
}

/// The `cost` member of an unmanaged resource's attributes, when its
/// current cost is known.
pub open spec fn current_cost_members(cost: Option<ResourceCosts>) -> Seq<(Seq<char>, Json)> {
    match cost {
        Some(c) => match c.current {
            Some(v) => seq![("cost"@, v@)],
            None => Seq::empty(),
        },
        None => Seq::empty(),
    }
}

/// The finding on a resource absent from Terraform state.
pub open spec fn unmanaged_spec(r: AwsResource, cost: Option<ResourceCosts>) -> FindingModel {
    finding_model(
        "unmanaged_resource"@,
        r.uid@,
        Severity::Medium,
        Some(r.uid@),
        None,
        resource_label_spec(r) + " exists in AWS but is absent from Terraform state."@,
        "Import into Terraform, add to the intended IaC stack, or delete if unused."@,
        items_view(r.evidence@),
        identity_object(r, current_cost_members(cost)),
    )
}

/// The finding on a resource absent from Terraform state, with its current
/// cost where that is known.
pub fn unmanaged_resource(r: &AwsResource, cost: Option<&ResourceCosts>) -> (f: Finding)
    ensures
        f@ == unmanaged_spec(*r, match cost {
            Some(c) => Some(*c),
            None => None,
        }),
{
    let mut extra: Vec<(String, JsonValue)> = Vec::new();
    match cost {
        Some(c) => match &c.current {
            Some(v) => {
                extra.push(("cost".to_owned(), clone_json(v)));
            },
            None => {},
        },
        None => {},
    }
    proof {
        crate::json::lemma_entries_view_len(extra@);
        if extra@.len() > 0 {
            crate::json::lemma_entries_view_index(extra@, 0);
        }
        assert(entries_view(extra@) =~= current_cost_members(match cost {
            Some(c) => Some(*c),
            None => None,
        }));
    }
    let mut reason = resource_label(r);
    reason.append(" exists in AWS but is absent from Terraform state.");
    let f = Finding {
        id: finding_id("unmanaged_resource", r.uid.as_str()),
        finding_type: "unmanaged_resource".to_owned(),
        severity: Severity::Medium,
        aws_uid: Some(r.uid.clone()),
        terraform_address: None,
        reason,
        recommended_action: "Import into Terraform, add to the intended IaC stack, or delete if unused.".to_owned(),
        blast_radius: Vec::new(),
        evidence: clone_values(&r.evidence),
        attributes: identity_object_with(r, extra),
    };
    assert(f@.blast_radius =~= Seq::<Seq<char>>::empty());
    f
}

/// The finding on a Terraform resource instance missing from the AWS scan.
pub open spec fn state_only_spec(tf: TerraformResource) -> FindingModel {
    finding_model(
        "state_only_resource"@,
        tf.address@,
        Severity::Medium,
        crate::aws_scan::opt_view(tf.aws_uid),
        Some(tf.address@),
        tf.address@ + " exists in Terraform state but was not found in the AWS scan."@,
        "Run Terraform refresh/plan and verify whether the resource was deleted or scan coverage is missing."@,
        Seq::empty(),
        Json::Object(seq![("terraform_type"@, Json::Str(tf.resource_type@))]),
    )
}

/// The finding on a Terraform resource instance missing from the AWS scan.
pub fn state_only_resource(tf: &TerraformResource) -> (f: Finding)
    ensures
        f@ == state_only_spec(*tf),
{
    let mut reason = tf.address.clone();
    reason.append(" exists in Terraform state but was not found in the AWS scan.");
    let members = vec![("terraform_type".to_owned(), JsonValue::Str(tf.resource_type.clone()))];
    proof {
        crate::json::lemma_entries_view_len(members@);
        crate::json::lemma_entries_view_index(members@, 0);
        assert(entries_view(members@) =~= seq![("terraform_type"@, Json::Str(tf.resource_type@))]);
    }
    let f = Finding {
        id: finding_id("state_only_resource", tf.address.as_str()),
        finding_type: "state_only_resource".to_owned(),
        severity: Severity::Medium,
        aws_uid: crate::model::clone_opt_string(&tf.aws_uid),
        terraform_address: Some(tf.address.clone()),
        reason,
        recommended_action: "Run Terraform refresh/plan and verify whether the resource was deleted or scan coverage is missing.".to_owned(),
        blast_radius: Vec::new(),
        evidence: Vec::new(),
        attributes: JsonValue::Object(members),
    };
    assert(f@.blast_radius =~= Seq::<Seq<char>>::empty());
    assert(f@.evidence =~= Seq::<Json>::empty());
    assert(f@.attributes == Json::Object(seq![("terraform_type"@, Json::Str(tf.resource_type@))]));
    f
}

/// A finding, if any, as a list.
pub open spec fn opt_finding(f: Option<FindingModel>) -> Seq<FindingModel> {
    match f {
        Some(f) => seq![f],
        None => Seq::empty(),
    }
}

/// The drift cost among a resource's cost estimates.
pub open spec fn drift_cost_of(c: Option<ResourceCosts>) -> Option<DriftCost> {
    match c {
        Some(c) => c.drift,
        None => None,
    }
}

/// The public ingress finding on a managed resource, if any.
pub open spec fn owned_public_spec(r: AwsResource, tf: TerraformResource) -> Option<FindingModel> {
    if public_security_group(r) {
        Some(owned_public_ingress_spec(r, tf))
    } else {
        None
    }
}

/// The finding on an unmanaged resource: a public security group is
/// reported with its blast radius, anything else as unmanaged.
pub open spec fn unmanaged_finding(
    r: AwsResource,
    rels: Seq<(String, String)>,
    costs: Seq<ResourceCosts>,
) -> FindingModel {
    if public_security_group(r) {
        unmanaged_public_spec(r, blast_radius_spec(rels, r.uid@))
    } else {
        unmanaged_spec(r, costs_for(costs, r.uid@))
    }
}

/// The findings on one scanned AWS resource: for one that Terraform
/// manages, public ingress and then instance type drift; for one it does
/// not, one unmanaged finding.
pub open spec fn resource_findings(
    r: AwsResource,
    tfs: Seq<TerraformResource>,
    rels: Seq<(String, String)>,
    costs: Seq<ResourceCosts>,
) -> Seq<FindingModel> {
    match terraform_owner(tfs, r.uid@) {
        Some(tf) => opt_finding(owned_public_spec(r, tf)) + opt_finding(
            drift_spec(r, tf, drift_cost_of(costs_for(costs, r.uid@))),
        ),
        None => seq![unmanaged_finding(r, rels, costs)],
    }
}

/// The findings on the scanned resources, in order.
pub open spec fn aws_findings(
    scanned: Seq<AwsResource>,
    tfs: Seq<TerraformResource>,
    rels: Seq<(String, String)>,
    costs: Seq<ResourceCosts>,
) -> Seq<FindingModel>
    decreases scanned.len(),
{
    if scanned.len() == 0 {
        Seq::empty()
    } else {
        aws_findings(scanned.drop_last(), tfs, rels, costs) + resource_findings(
            scanned.last(),
            tfs,
            rels,
            costs,
        )
    }
}

/// The findings on the Terraform resource instances whose AWS uid is not
/// among `scanned`, in order.
pub open spec fn state_only_findings(tfs: Seq<TerraformResource>, scanned: Set<Seq<char>>) -> Seq<
    FindingModel,
>
    decreases tfs.len(),
{
    if tfs.len() == 0 {
        Seq::empty()
    } else {
        let prev = state_only_findings(tfs.drop_last(), scanned);
        match tfs.last().aws_uid {
            Some(u) => if scanned.contains(u@) {
                prev
            } else {
                prev.push(state_only_spec(tfs.last()))
            },
            None => prev,
        }
    }
}

/// The findings of comparing a scan with Terraform state: those on each
/// scanned resource, by uid (a later row with the same uid replacing an
/// earlier one), then those on the Terraform instances missing from the scan.
pub open spec fn compare_spec(
    aws: Seq<AwsResource>,
    tfs: Seq<TerraformResource>,
    rels: Seq<(String, String)>,
    costs: Seq<ResourceCosts>,
) -> Seq<FindingModel> {
    aws_findings(key_index(aws), tfs, rels, costs) + state_only_findings(tfs, keyed_map(aws).dom())
}

fn push_finding(out: &mut Vec<Finding>, f: Finding)
    ensures
        findings_view(final(out)@) == findings_view(old(out)@).push(f@),
{
    let ghost before = out@;
    out.push(f);
    assert(findings_view(out@) =~= findings_view(before).push(f@));
}

/// Adds the findings on one scanned resource.
fn add_resource_findings(
    out: &mut Vec<Finding>,
    r: &AwsResource,
    tfs: &Vec<TerraformResource>,
    rels: &Vec<(String, String)>,
    costs: &Vec<ResourceCosts>,
)
    ensures
        findings_view(final(out)@) == findings_view(old(out)@) + resource_findings(
            *r,
            tfs@,
            rels@,
            costs@,
        ),
{
    let ghost before = findings_view(out@);
    let cost = match costs_index(costs, r.uid.as_str()) {
        Some(k) => Some(&costs[k]),
        None => None,
    };
    match terraform_owner_index(tfs, r.uid.as_str()) {
        Some(t) => {
            let tf = &tfs[t];
            match terraform_owned_public_ingress(r, tf) {
                Some(f) => push_finding(out, f),
                None => {},
            }
            let ghost mid = findings_view(out@);
            assert(mid =~= before + opt_finding(owned_public_spec(*r, *tf)));
            let drift_cost = match cost {
                Some(c) => match &c.drift {
                    Some(d) => Some(d),
                    None => None,
                },
                None => None,
            };
            match costed_instance_type_drift(r, tf, drift_cost) {
                Some(f) => push_finding(out, f),
                None => {},
            }
            assert(findings_view(out@) =~= mid + opt_finding(
                drift_spec(*r, *tf, drift_cost_of(costs_for(costs@, r.uid@))),
            ));
        },
        None => {
            match unmanaged_public_resource(r, rels) {
                Some(f) => push_finding(out, f),
                None => {
                    let f = unmanaged_resource(r, cost);
                    push_finding(out, f);
                },
            }
            assert(findings_view(out@) =~= before + seq![unmanaged_finding(*r, rels@, costs@)]);
        },
    }
}

/// The findings of comparing a scan's AWS resources with Terraform state:
/// `relationships` are the scan's `(from, to)` uid pairs, `costs` the cost
/// estimates of its resources.
pub fn compare_findings(
    aws: Vec<AwsResource>,
    terraform: &Vec<TerraformResource>,
    relationships: &Vec<(String, String)>,
    costs: &Vec<ResourceCosts>,
) -> (r: Vec<Finding>)
    ensures
        findings_view(r@) == compare_spec(aws@, terraform@, relationships@, costs@),
{
    let ghost all = aws@;
    let scanned = index_by_key(aws);
    let ghost idx = scanned@;
    let mut out: Vec<Finding> = Vec::new();
    let mut i: usize = 0;
    assert(findings_view(out@) =~= aws_findings(idx.take(0), terraform@, relationships@, costs@));
    while i < scanned.len()
        invariant
            i <= idx.len(),
            idx == scanned@,
            findings_view(out@) == aws_findings(idx.take(i as int), terraform@, relationships@, costs@),
        decreases idx.len() - i,
    {
        assert(idx.take(i + 1).drop_last() =~= idx.take(i as int));
        assert(idx.take(i + 1).last() == idx[i as int]);
        add_resource_findings(&mut out, &scanned[i], terraform, relationships, costs);
        i += 1;
    }
    assert(idx.take(i as int) =~= idx);
    let ghost head = findings_view(out@);
    let ghost present = keyed_map(all).dom();
    proof {
        lemma_keyed_map(idx);
    }
    let mut k: usize = 0;
    assert(terraform@.take(0) =~= Seq::<TerraformResource>::empty());
    while k < terraform.len()
        invariant
            k <= terraform@.len(),
            idx == scanned@,
            keys_sorted(idx),
            keyed_map(idx) == keyed_map(all),
            present == keyed_map(all).dom(),
            forall|q: Seq<char>|
                #![trigger keyed_map(idx).contains_key(q)]
                keyed_map(idx).contains_key(q) <==> exists|j: int|
                    0 <= j < idx.len() && idx[j].key_spec() == q,
            findings_view(out@) == head + state_only_findings(terraform@.take(k as int), present),
        decreases terraform@.len() - k,
    {
        let ghost t = terraform@.take(k + 1);
        assert(t.drop_last() =~= terraform@.take(k as int));
        assert(t.last() == terraform@[k as int]);
        let tf = &terraform[k];
        match &tf.aws_uid {
            Some(u) => {
                match locate(&scanned, u.as_str()) {
                    Ok(j) => {
                        assert(idx[j as int].key_spec() == u@);
                        assert(keyed_map(idx).contains_key(u@));
                    },
                    Err(j) => {
                        assert(!keyed_map(idx).contains_key(u@)) by {
                            if keyed_map(idx).contains_key(u@) {
                                let m = choose|m: int| 0 <= m < idx.len() && idx[m].key_spec() == u@;
                                lemma_lt_irreflexive(u@);
                            }
                        }
                        let f = state_only_resource(tf);
                        push_finding(&mut out, f);
                    },
                }
            },
            None => {},
        }
        k += 1;
    }
    assert(terraform@.take(k as int) =~= terraform@);
    out
}

/// What a finding is sorted by after severity and type: its AWS uid, else
/// its Terraform address, else nothing.
pub open spec fn sort_subject(f: FindingModel) -> Seq<char> {
    match f.aws_uid {
        Some(u) => u,
        None => match f.terraform_address {
            Some(a) => a,
            None => Seq::empty(),
        },
    }
}

/// `a` sorts no later than `b`: by severity, most severe first, then type,
/// then subject.
pub open spec fn finding_le(a: FindingModel, b: FindingModel) -> bool {
    let sa = severity_level(a.severity);
    let sb = severity_level(b.severity);
    sa > sb || (sa == sb && (seq_lt(a.finding_type, b.finding_type) || (a.finding_type
        == b.finding_type && !seq_lt(sort_subject(b), sort_subject(a)))))
}

/// The report order of findings as a relation.
pub open spec fn report_order() -> spec_fn(FindingModel, FindingModel) -> bool {
    |a: FindingModel, b: FindingModel| finding_le(a, b)
}

/// Whether findings are in sort order.
pub open spec fn report_sorted(s: Seq<FindingModel>) -> bool {
    forall|i: int, j: int| 0 <= i < j < s.len() ==> finding_le(s[i], s[j])
}

/// The sort order is total.
pub proof fn lemma_finding_le_total(a: FindingModel, b: FindingModel)
    ensures
        finding_le(a, b) || finding_le(b, a),
{
    crate::order::lemma_lt_total(a.finding_type, b.finding_type);
    crate::order::lemma_lt_total(sort_subject(a), sort_subject(b));
}

/// The sort order is transitive.
pub proof fn lemma_finding_le_transitive(a: FindingModel, b: FindingModel, c: FindingModel)
    requires
        finding_le(a, b),
        finding_le(b, c),
    ensures
        finding_le(a, c),
{
    let (ta, tb, tc) = (a.finding_type, b.finding_type, c.finding_type);
    let (ua, ub, uc) = (sort_subject(a), sort_subject(b), sort_subject(c));
    crate::order::lemma_lt_total(ta, tb);
    crate::order::lemma_lt_total(tb, tc);
    crate::order::lemma_lt_total(ta, tc);
    crate::order::lemma_lt_total(ua, ub);
    crate::order::lemma_lt_total(ub, uc);
    crate::order::lemma_lt_total(ua, uc);
    if seq_lt(ta, tb) && seq_lt(tb, tc) {
        crate::order::lemma_lt_transitive(ta, tb, tc);
    }
    if seq_lt(uc, ub) && seq_lt(ub, ua) {
        crate::order::lemma_lt_transitive(uc, ub, ua);
    }
    if seq_lt(ua, ub) && seq_lt(ub, uc) {
        crate::order::lemma_lt_transitive(ua, ub, uc);
        lemma_lt_irreflexive(ua);
    }
}

fn severity_rank(s: Severity) -> (r: u8)
    ensures
        r == severity_level(s),
{
    match s {
        Severity::Medium => 0,
        Severity::High => 1,
        Severity::Critical => 2,
    }
}

fn subject_of(f: &Finding) -> (r: &str)
    ensures
        r@ == sort_subject(f@),
{
    match &f.aws_uid {
        Some(u) => u.as_str(),
        None => match &f.terraform_address {
            Some(a) => a.as_str(),
            None => {
                proof {
                    reveal_strlit("");
                }
                ""
            },
        },
    }
}

fn sorts_after(a: &Finding, b: &Finding) -> (r: bool)
    ensures
        r == !finding_le(a@, b@),
{
    let ra = severity_rank(a.severity);
    let rb = severity_rank(b.severity);
    if ra != rb {
        return ra < rb;
    }
    match crate::order::compare_str(a.finding_type.as_str(), b.finding_type.as_str()) {
        crate::order::Cmp::Less => false,
        crate::order::Cmp::Greater => {
            proof {
                crate::order::lemma_lt_total(a.finding_type@, b.finding_type@);
            }
            true
        },
        crate::order::Cmp::Equal => {
            match crate::order::compare_str(subject_of(b), subject_of(a)) {
                crate::order::Cmp::Less => true,
                _ => false,
            }
        },
    }
}

/// The findings in report order: most severe first, then by type, then by
/// AWS uid or Terraform address, findings with equal keys keeping their order.
pub fn sort_findings(findings: Vec<Finding>) -> (r: Vec<Finding>)
    ensures
        findings_view(r@) == stable_sort_by(findings_view(findings@), report_order()),
        report_sorted(findings_view(r@)),
        findings_view(r@).to_multiset() == findings_view(findings@).to_multiset(),
{
    broadcast use vstd::seq_lib::group_to_multiset_ensures;
    broadcast use vstd::multiset::group_multiset_axioms;

    let mut input = findings;
    let ghost all = findings_view(input@);
    let ghost mut done: int = 0;
    let mut out: Vec<Finding> = Vec::new();
    assert(findings_view(out@) =~= Seq::<FindingModel>::empty());
    assert(all.skip(0) =~= all);
    while input.len() > 0
        invariant
            0 <= done <= all.len(),
            findings_view(input@) == all.skip(done),
            findings_view(out@) == stable_sort_by(all.take(done), report_order()),
            report_sorted(findings_view(out@)),
            findings_view(out@).to_multiset().add(findings_view(input@).to_multiset())
                == all.to_multiset(),
        decreases input@.len(),
    {
        let ghost in_before = findings_view(input@);
        let x = input.remove(0);
        assert(findings_view(input@) =~= in_before.remove(0));
        let ghost out_before = findings_view(out@);
        let mut k: usize = out.len();
        assert(out_before.take(k as int) =~= out_before);
        while k > 0 && sorts_after(&out[k - 1], &x)
            invariant
                k <= out@.len(),
                findings_view(out@) == out_before,
                report_sorted(out_before),
                forall|j: int| k <= j < out_before.len() ==> !finding_le(#[trigger] out_before[j], x@),
                insertion_point(out_before, x@, report_order()) == insertion_point(
                    out_before.take(k as int),
                    x@,
                    report_order(),
                ),
            decreases k,
        {
            assert(out_before.take(k as int).drop_last() =~= out_before.take(k - 1));
            k -= 1;
        }
        proof {
            assert(out_before.take(k as int).len() == k);
            if k > 0 {
                assert(out_before.take(k as int).last() == out_before[k - 1]);
            }
            assert(insertion_point(out_before, x@, report_order()) == k);
            assert(in_before[0] == all[done]);
            assert(all.take(done + 1).drop_last() =~= all.take(done));
            assert(all.take(done + 1).last() == all[done]);
            assert(all.skip(done).remove(0) =~= all.skip(done + 1));
        }
        proof {
            assert forall|j: int| 0 <= j < k implies finding_le(#[trigger] out_before[j], x@) by {
                if k > 0 {
                    lemma_finding_le_total(out_before[k - 1], x@);
                    if j < k - 1 {
                        lemma_finding_le_transitive(out_before[j], out_before[k - 1], x@);
                    }
                }
            }
            assert forall|j: int| k <= j < out_before.len() implies finding_le(
                x@,
                #[trigger] out_before[j],
            ) by {
                lemma_finding_le_total(out_before[j], x@);
            }
        }
        out.insert(k, x);
        proof {
            let now = findings_view(out@);
            assert(now =~= out_before.insert(k as int, x@));
            assert forall|a: int, b: int| 0 <= a < b < now.len() implies finding_le(
                now[a],
                now[b],
            ) by {
                if a < k && b < k {
                } else if a < k && b == k {
                } else if a < k && b > k {
                    assert(now[b] == out_before[b - 1]);
                } else if a == k {
                    assert(now[b] == out_before[b - 1]);
                } else {
                    assert(now[a] == out_before[a - 1]);
                    assert(now[b] == out_before[b - 1]);
                }
            }
            assert(now.remove(k as int) =~= out_before);
            assert(now[k as int] == x@);
            now.to_multiset_ensures();
            in_before.to_multiset_ensures();
            assert(now.contains(x@));
            assert(now.to_multiset().count(x@) > 0);
            assert(out_before.to_multiset() == now.to_multiset().remove(x@));
            assert(now.to_multiset() =~= out_before.to_multiset().insert(x@));
            assert(in_before[0] == x@);
            assert(in_before.contains(x@));
            assert(in_before.to_multiset().count(x@) > 0);
            assert(findings_view(input@).to_multiset() == in_before.to_multiset().remove(x@));
            assert(in_before.to_multiset() =~= findings_view(input@).to_multiset().insert(x@));
            assert(now.to_multiset().add(findings_view(input@).to_multiset()) =~= all.to_multiset());
            done = done + 1;
        }
    }
    assert(findings_view(input@) =~= Seq::<FindingModel>::empty());
    assert(all.take(done) =~= all);
    assert(findings_view(out@).to_multiset() =~= all.to_multiset());
    out
}

/// The schema version of a comparison report.
pub open spec fn compare_schema_spec() -> Seq<char> {
    crate::model::SCHEMA_VERSION@ + ".compare.v1"@
}

/// The run id of a comparison: `compare:<scan>:<state>`.
pub open spec fn compare_run_id(scan_id: Seq<char>, terraform_state_id: Seq<char>) -> Seq<char> {
    "compare:"@ + scan_id + ":"@ + terraform_state_id
}

/// The report of comparing a scan with a Terraform state, generated at
/// `generated_at`; its findings are in the order they were found.
pub fn compare_report_at(
    scan_id: &str,
    terraform_state_id: &str,
    generated_at: String,
    aws: Vec<AwsResource>,
    terraform: &Vec<TerraformResource>,
    relationships: &Vec<(String, String)>,
    costs: &Vec<ResourceCosts>,
) -> (r: CompareReport)
    ensures
        r.schema_version@ == compare_schema_spec(),
        r.run_id@ == compare_run_id(scan_id@, terraform_state_id@),
        r.scan_id@ == scan_id@,
        r.terraform_state_id@ == terraform_state_id@,
        r.generated_at == generated_at,
        findings_view(r.findings@) == compare_spec(aws@, terraform@, relationships@, costs@),
{
    let mut schema = crate::model::SCHEMA_VERSION.to_owned();
    schema.append(".compare.v1");
    let mut run_id = "compare:".to_owned();
    run_id.append(scan_id);
    push_char(&mut run_id, ':');
    run_id.append(terraform_state_id);
    assert(run_id@ =~= compare_run_id(scan_id@, terraform_state_id@)) by {
        reveal_strlit(":");
    }
    let findings = compare_findings(aws, terraform, relationships, costs);
    CompareReport {
        schema_version: schema,
        run_id,
        scan_id: scan_id.to_owned(),
        terraform_state_id: terraform_state_id.to_owned(),
        generated_at,
        findings,
    }
}

/// Sorting findings into report order twice gives what sorting once gives:
/// findings already in report order stay as they are.
pub proof fn law_sort_findings_idempotent(findings: Seq<FindingModel>)
    ensures
        stable_sort_by(stable_sort_by(findings, report_order()), report_order()) == stable_sort_by(
            findings,
            report_order(),
        ),
{
    let le = report_order();
    assert forall|a: FindingModel, b: FindingModel| #[trigger] le(a, b) || le(b, a) by {
        lemma_finding_le_total(a, b);
    }
    assert forall|a: FindingModel, b: FindingModel, c: FindingModel|
        #[trigger] le(a, b) && #[trigger] le(b, c) implies le(a, c) by {
        lemma_finding_le_transitive(a, b, c);
    }
    crate::order::lemma_stable_sort_sorted(findings, le);
    crate::order::lemma_stable_sort_of_sorted(stable_sort_by(findings, le), le);
}

/// The rules open to the internet are exactly the ingress rules kept.
proof fn lemma_public_rules_of_has(rules: Seq<Json>, x: Json)
    ensures
        public_rules_of(rules).contains(x) <==> (rules.contains(x) && public_cidr(x)),
    decreases rules.len(),
{
    if rules.len() > 0 {
        let init = rules.drop_last();
        let prev = public_rules_of(init);
        lemma_public_rules_of_has(init, x);
        if rules.contains(x) {
            let i = choose|i: int| 0 <= i < rules.len() && rules[i] == x;
            if i < init.len() {
                assert(init[i] == x);
            }
        }
        if init.contains(x) {
            let i = choose|i: int| 0 <= i < init.len() && init[i] == x;
            assert(rules[i] == x);
        }
        if public_cidr(rules.last()) {
            let next = prev.push(rules.last());
            assert(next[prev.len() as int] == rules.last());
            if next.contains(x) {
                let i = choose|i: int| 0 <= i < next.len() && next[i] == x;
                if i < prev.len() {
                    assert(prev[i] == x);
                }
            }
            if prev.contains(x) {
                let i = choose|i: int| 0 <= i < prev.len() && prev[i] == x;
                assert(next[i] == x);
            }
        }
    }
}

/// An ingress rule whose `ipv4_ranges` holds `0.0.0.0/0`, or whose
/// `ipv6_ranges` holds `::/0`, is open to the internet: it is one of the
/// resource's public ingress rules, a security group with it is public, and
/// such a group that Terraform does not manage gets the critical
/// `unmanaged_public_resource` finding.
pub proof fn law_open_rule_is_public_ingress(
    r: AwsResource,
    rules: Seq<Json>,
    rule: Json,
    ranges: Seq<Json>,
    ipv6: bool,
    tfs: Seq<TerraformResource>,
    rels: Seq<(String, String)>,
    costs: Seq<ResourceCosts>,
)
    requires
        json_get(r.attributes@, "ingress"@) == Some(Json::Array(rules)),
        rules.contains(rule),
        json_get(rule, if ipv6 { "ipv6_ranges"@ } else { "ipv4_ranges"@ }) == Some(Json::Array(ranges)),
        ranges.contains(Json::Str(if ipv6 { "::/0"@ } else { "0.0.0.0/0"@ })),
    ensures
        public_ingress_spec(r).contains(rule),
        r.service@ == "ec2"@ && r.resource_type@ == "security-group"@ ==> public_security_group(r),
        r.service@ == "ec2"@ && r.resource_type@ == "security-group"@ && terraform_owner(tfs, r.uid@) is None
            ==> resource_findings(r, tfs, rels, costs)[0].finding_type == "unmanaged_public_resource"@
            && resource_findings(r, tfs, rels, costs)[0].severity == Severity::Critical,
{
    assert(public_cidr(rule));
    lemma_public_rules_of_has(rules, rule);
    if r.service@ == "ec2"@ && r.resource_type@ == "security-group"@ {
        assert(public_ingress_spec(r).len() > 0);
        if terraform_owner(tfs, r.uid@) is None {
            law_unmanaged_resource_single_finding(r, tfs, rels, costs);
        }
    }
}

/// Only rules open to the internet count as public ingress: each public
/// ingress rule of a resource is one of its ingress rules, and its
/// `ipv4_ranges` holds `0.0.0.0/0` or its `ipv6_ranges` holds `::/0`.
pub proof fn law_public_ingress_only_open_rules(r: AwsResource, rule: Json)
    requires
        public_ingress_spec(r).contains(rule),
    ensures
        exists|rules: Seq<Json>| json_get(r.attributes@, "ingress"@) == Some(Json::Array(rules)) && rules.contains(rule),
        crate::json::array_contains_spec(rule, "ipv4_ranges"@, "0.0.0.0/0"@)
            || crate::json::array_contains_spec(rule, "ipv6_ranges"@, "::/0"@),
{
    match crate::json::json_array(json_get(r.attributes@, "ingress"@)) {
        Some(rules) => {
            lemma_public_rules_of_has(rules, rule);
            assert(json_get(r.attributes@, "ingress"@) == Some(Json::Array(rules)));
        },
        None => {},
    }
}

/// A scanned resource that Terraform does not manage gets exactly one
/// finding, about it and no Terraform address: a critical
/// `unmanaged_public_resource` when it is a security group open to the
/// internet, a medium `unmanaged_resource` otherwise.
pub proof fn law_unmanaged_resource_single_finding(
    r: AwsResource,
    tfs: Seq<TerraformResource>,
    rels: Seq<(String, String)>,
    costs: Seq<ResourceCosts>,
)
    requires
        terraform_owner(tfs, r.uid@) is None,
    ensures
        resource_findings(r, tfs, rels, costs).len() == 1,
        resource_findings(r, tfs, rels, costs)[0].aws_uid == Some(r.uid@),
        resource_findings(r, tfs, rels, costs)[0].terraform_address is None,
        public_security_group(r) ==> resource_findings(r, tfs, rels, costs)[0].finding_type
            == "unmanaged_public_resource"@ && resource_findings(r, tfs, rels, costs)[0].severity
            == Severity::Critical,
        !public_security_group(r) ==> resource_findings(r, tfs, rels, costs)[0].finding_type
            == "unmanaged_resource"@ && resource_findings(r, tfs, rels, costs)[0].severity
            == Severity::Medium,
{
}

/// Every finding on a resource that Terraform manages names it and the
/// managing instance's address; there are at most two, a public ingress
/// finding first, then an instance type drift.
pub proof fn law_managed_resource_findings(
    r: AwsResource,
    tf: TerraformResource,
    tfs: Seq<TerraformResource>,
    rels: Seq<(String, String)>,
    costs: Seq<ResourceCosts>,
)
    requires
        terraform_owner(tfs, r.uid@) == Some(tf),
    ensures
        resource_findings(r, tfs, rels, costs).len() <= 2,
        forall|i: int|
            0 <= i < resource_findings(r, tfs, rels, costs).len() ==> (#[trigger] resource_findings(
                r,
                tfs,
                rels,
                costs,
            )[i]).aws_uid == Some(r.uid@) && resource_findings(r, tfs, rels, costs)[i].terraform_address
                == Some(tf.address@),
        forall|i: int|
            0 <= i < resource_findings(r, tfs, rels, costs).len() ==> (#[trigger] resource_findings(
                r,
                tfs,
                rels,
                costs,
            )[i]).finding_type == "terraform_owned_public_ingress"@ || resource_findings(
                r,
                tfs,
                rels,
                costs,
            )[i].finding_type == "terraform_instance_type_drift"@,
{
}

/// The state-only findings are exactly those on the Terraform instances
/// whose AWS uid the scan lacks, in the instances' order.
pub proof fn law_state_only_exact(tfs: Seq<TerraformResource>, scanned: Set<Seq<char>>)
    ensures
        forall|f: FindingModel|
            state_only_findings(tfs, scanned).contains(f) ==> exists|i: int|
                0 <= i < tfs.len() && (#[trigger] tfs[i]).aws_uid is Some && !scanned.contains(
                    tfs[i].aws_uid->0@,
                ) && f == state_only_spec(tfs[i]),
        forall|i: int|
            0 <= i < tfs.len() && (#[trigger] tfs[i]).aws_uid is Some && !scanned.contains(
                tfs[i].aws_uid->0@,
            ) ==> state_only_findings(tfs, scanned).contains(state_only_spec(tfs[i])),
    decreases tfs.len(),
{
    if tfs.len() > 0 {
        let t = tfs.drop_last();
        law_state_only_exact(t, scanned);
        let prev = state_only_findings(t, scanned);
        let now = state_only_findings(tfs, scanned);
        let n = tfs.len() - 1;
        assert forall|f: FindingModel| now.contains(f) implies exists|i: int|
            0 <= i < tfs.len() && (#[trigger] tfs[i]).aws_uid is Some && !scanned.contains(
                tfs[i].aws_uid->0@,
            ) && f == state_only_spec(tfs[i]) by {
            let k = choose|k: int| 0 <= k < now.len() && now[k] == f;
            if k < prev.len() {
                assert(now[k] == prev[k]);
                assert(prev.contains(f));
                let i = choose|i: int|
                    0 <= i < t.len() && (#[trigger] t[i]).aws_uid is Some && !scanned.contains(
                        t[i].aws_uid->0@,
                    ) && f == state_only_spec(t[i]);
                assert(tfs[i] == t[i]);
            } else {
                assert(tfs[n] == tfs.last());
            }
        }
        assert forall|i: int|
            0 <= i < tfs.len() && (#[trigger] tfs[i]).aws_uid is Some && !scanned.contains(
                tfs[i].aws_uid->0@,
            ) implies now.contains(state_only_spec(tfs[i])) by {
            if i < n {
                assert(t[i] == tfs[i]);
                assert(prev.contains(state_only_spec(tfs[i])));
                let k = choose|k: int| 0 <= k < prev.len() && prev[k] == state_only_spec(tfs[i]);
                assert(now[k] == prev[k]);
            } else {
                assert(now[now.len() - 1] == state_only_spec(tfs[i]));
            }
        }
    }
}

/// The findings depend on the scan only through which row each uid has
/// last: two scans that agree on that give the same findings, whatever
/// order their rows come in.
pub proof fn law_findings_ignore_row_order(
    aws1: Seq<AwsResource>,
    aws2: Seq<AwsResource>,
    tfs: Seq<TerraformResource>,
    rels: Seq<(String, String)>,
    costs: Seq<ResourceCosts>,
)
    requires
        keyed_map(aws1) == keyed_map(aws2),
    ensures
        compare_spec(aws1, tfs, rels, costs) == compare_spec(aws2, tfs, rels, costs),
{
    assert(key_index(aws1) == key_index(aws2));
}

} // verus!
