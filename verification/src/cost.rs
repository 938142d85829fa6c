//! The parts of cost reporting that are text and choice rather than
//! arithmetic: which tags and metric a Cost Explorer query uses, how its tag
//! values read, and which of its services a resource is billed under.
use vstd::prelude::*;
use vstd::string::*;

use crate::order::texts;
use crate::tags::{find_ignore_case, pairs_find_ignore_case};
use crate::text::{
    starts_with, starts_with_spec, str_eq, trim, trim_spec, push_char,
};

verus! {

/// The cost mode of an estimate from list prices.
pub const COST_MODE_ESTIMATED: &'static str = "estimated";

/// The cost mode of an amount Cost Explorer reported.
pub const COST_MODE_ACTUAL: &'static str = "actual";

/// What an actual-cost import asks Cost Explorer for.
#[derive(Clone, Debug)]
pub struct CostActualOptions {
    /// The map database.
    pub db: String,
    pub scan_id: Option<String>,
    pub profile: Option<String>,
    pub billing_region: String,
    pub days: i64,
    pub tags: Vec<String>,
    pub metric: String,
}

/// The tags costs are grouped by unless others are asked for.
pub open spec fn default_cost_tags_spec() -> Seq<Seq<char>> {
    seq!["Environment"@, "Application"@, "Owner"@, "Name"@]
}

/// The tags costs are grouped by unless others are asked for.
pub fn default_cost_tags() -> (r: Vec<String>)
    ensures
        texts(r@) == default_cost_tags_spec(),
{
    let r = vec![
        "Environment".to_owned(),
        "Application".to_owned(),
        "Owner".to_owned(),
        "Name".to_owned(),
    ];
    assert(texts(r@) =~= default_cost_tags_spec());
    r
}

/// The Cost Explorer metric used unless another is asked for.
pub fn default_cost_metric() -> (r: &'static str)
    ensures
        r@ == "UnblendedCost"@,
{
    "UnblendedCost"
}

/// A Cost Explorer tag value read as text: `raw` without a leading
/// `<tag_key>$`, trimmed; none when nothing is left.
pub open spec fn tag_value_text(tag_key: Seq<char>, raw: Seq<char>) -> Option<Seq<char>> {
    let prefix = tag_key.push('$');
    let rest = if starts_with_spec(raw, prefix) {
        raw.subrange(prefix.len() as int, raw.len() as int)
    } else {
        raw
    };
    let value = trim_spec(rest);
    if value.len() > 0 {
        Some(value)
    } else {
        None
    }
}

/// A Cost Explorer tag value read as text: Cost Explorer reports a tag
/// group as `<tag_key>$<value>`.
pub fn normalize_cost_explorer_tag_value(tag_key: &str, raw: &str) -> (r: Option<String>)
    ensures
        crate::aws_scan::opt_view(r) == tag_value_text(tag_key@, raw@),
{
    let mut prefix = tag_key.to_owned();
    push_char(&mut prefix, '$');
    let n = raw.unicode_len();
    let value = if starts_with(raw, prefix.as_str()) {
        let rest = raw.substring_char(prefix.unicode_len(), n);
        trim(rest)
    } else {
        trim(raw)
    };
    if value.unicode_len() > 0 {
        Some(value)
    } else {
        None
    }
}

/// The Cost Explorer services a resource is billed under.
pub open spec fn cost_explorer_services_spec(service: Seq<char>, resource_type: Seq<char>) -> Seq<
    Seq<char>,
> {
    if service == "ec2"@ && resource_type == "instance"@ {
        seq!["Amazon Elastic Compute Cloud - Compute"@]
    } else if service == "ec2"@ && resource_type == "volume"@ {
        seq!["EC2 - Other"@]
    } else if service == "ec2"@ && resource_type == "nat-gateway"@ {
        seq!["Amazon Virtual Private Cloud"@, "EC2 - Other"@]
    } else if service == "s3"@ {
        seq!["Amazon Simple Storage Service"@]
    } else if service == "lambda"@ {
        seq!["AWS Lambda"@]
    } else if service == "rds"@ {
        seq!["Amazon Relational Database Service"@]
    } else if service == "kms"@ {
        seq!["AWS Key Management Service"@]
    } else {
        Seq::empty()
    }
}

/// Spend on S3, Lambda, RDS and KMS is allocated by service alone: every
/// resource of one of these services, whatever its type, is billed under
/// exactly that service's one Cost Explorer service; and a resource of a
/// service with no Cost Explorer service here is billed under none.
pub proof fn law_cost_explorer_services_by_service(resource_type: Seq<char>, other: Seq<char>)
    ensures
        cost_explorer_services_spec("s3"@, resource_type) == seq!["Amazon Simple Storage Service"@],
        cost_explorer_services_spec("lambda"@, resource_type) == seq!["AWS Lambda"@],
        cost_explorer_services_spec("rds"@, resource_type) == seq!["Amazon Relational Database Service"@],
        cost_explorer_services_spec("kms"@, resource_type) == seq!["AWS Key Management Service"@],
        other != "ec2"@ && other != "s3"@ && other != "lambda"@ && other != "rds"@ && other != "kms"@
            ==> cost_explorer_services_spec(other, resource_type).len() == 0,
{
    reveal_strlit("ec2");
    reveal_strlit("s3");
    reveal_strlit("lambda");
    reveal_strlit("rds");
    reveal_strlit("kms");
    assert("s3"@[0] != "ec2"@[0]);
    assert("lambda"@[0] != "ec2"@[0] && "lambda"@[0] != "s3"@[0]);
    assert("rds"@[0] != "ec2"@[0] && "rds"@[0] != "s3"@[0] && "rds"@[0] != "lambda"@[0]);
    assert("kms"@[0] != "ec2"@[0] && "kms"@[0] != "s3"@[0] && "kms"@[0] != "lambda"@[0] && "kms"@[0]
        != "rds"@[0]);
}

/// EC2 spend is split by what the resource is: instances under compute, volumes
/// under "EC2 - Other", NAT gateways under both VPC and "EC2 - Other"; any other
/// EC2 resource is billed under none.
pub proof fn law_cost_explorer_services_ec2(resource_type: Seq<char>)
    ensures
        cost_explorer_services_spec("ec2"@, "instance"@) == seq!["Amazon Elastic Compute Cloud - Compute"@],
        cost_explorer_services_spec("ec2"@, "volume"@) == seq!["EC2 - Other"@],
        cost_explorer_services_spec("ec2"@, "nat-gateway"@) == seq!["Amazon Virtual Private Cloud"@, "EC2 - Other"@],
        resource_type != "instance"@ && resource_type != "volume"@ && resource_type != "nat-gateway"@
            ==> cost_explorer_services_spec("ec2"@, resource_type).len() == 0,
{
    reveal_strlit("ec2");
    reveal_strlit("s3");
    reveal_strlit("lambda");
    reveal_strlit("rds");
    reveal_strlit("kms");
    assert("s3"@[0] != "ec2"@[0] && "lambda"@[0] != "ec2"@[0] && "rds"@[0] != "ec2"@[0] && "kms"@[0] != "ec2"@[0]);
    reveal_strlit("instance");
    reveal_strlit("volume");
    reveal_strlit("nat-gateway");
    assert("volume"@[0] != "instance"@[0] && "nat-gateway"@[0] != "instance"@[0] && "nat-gateway"@[0]
        != "volume"@[0]);
}

/// The Cost Explorer services a resource of `service` and `resource_type`
/// is billed under.
pub fn cost_explorer_services(service: &str, resource_type: &str) -> (r: Vec<&'static str>)
    ensures
        r@.map_values(|s: &str| s@) == cost_explorer_services_spec(service@, resource_type@),
{
    let ec2 = str_eq(service, "ec2");
    let r: Vec<&'static str> = if ec2 && str_eq(resource_type, "instance") {
        vec!["Amazon Elastic Compute Cloud - Compute"]
    } else if ec2 && str_eq(resource_type, "volume") {
        vec!["EC2 - Other"]
    } else if ec2 && str_eq(resource_type, "nat-gateway") {
        vec!["Amazon Virtual Private Cloud", "EC2 - Other"]
    } else if str_eq(service, "s3") {
        vec!["Amazon Simple Storage Service"]
    } else if str_eq(service, "lambda") {
        vec!["AWS Lambda"]
    } else if str_eq(service, "rds") {
        vec!["Amazon Relational Database Service"]
    } else if str_eq(service, "kms") {
        vec!["AWS Key Management Service"]
    } else {
        Vec::new()
    };
    assert(r@.map_values(|s: &str| s@) =~= cost_explorer_services_spec(service@, resource_type@));
    r
}

/// How a resource is priced from list prices.
#[derive(Clone, Copy, Debug, PartialEq, Eq, Structural)]
pub enum CostBasis {
    /// A stopped or terminated EC2 instance: nothing is charged.
    StoppedInstance,
    /// A running EC2 instance, by its instance type.
    Ec2Instance,
    /// An EBS volume, by its size and volume type.
    EbsVolume,
    /// A NAT gateway's hourly charge.
    NatGateway,
    /// An RDS instance, by its instance class and Multi-AZ setting.
    RdsInstance,
    /// An S3 bucket's standard storage.
    S3Bucket,
    /// A customer-managed KMS key's monthly charge.
    KmsKey,
    /// A resource with no direct charge: IAM, and VPC plumbing.
    NoCharge,
}

/// The pricing of an AWS resource of `service` and `resource_type` whose
/// recorded `state` attribute is `state`; none for other providers and for
/// kinds of resources no price is modeled for.
pub open spec fn cost_basis_spec(
    provider: Seq<char>,
    service: Seq<char>,
    resource_type: Seq<char>,
    state: Option<Seq<char>>,
) -> Option<CostBasis> {
    if provider != "aws"@ {
        None
    } else if service == "ec2"@ && resource_type == "instance"@ {
        if state == Some("stopped"@) || state == Some("terminated"@) {
            Some(CostBasis::StoppedInstance)
        } else {
            Some(CostBasis::Ec2Instance)
        }
    } else if service == "ec2"@ && resource_type == "volume"@ {
        Some(CostBasis::EbsVolume)
    } else if service == "ec2"@ && resource_type == "nat-gateway"@ {
        Some(CostBasis::NatGateway)
    } else if service == "rds"@ && resource_type == "db-instance"@ {
        Some(CostBasis::RdsInstance)
    } else if service == "s3"@ && resource_type == "bucket"@ {
        Some(CostBasis::S3Bucket)
    } else if service == "kms"@ && resource_type == "key"@ {
        Some(CostBasis::KmsKey)
    } else if service == "iam"@ || (service == "ec2"@ && (resource_type == "vpc"@ || resource_type
        == "subnet"@ || resource_type == "security-group"@ || resource_type == "route-table"@
        || resource_type == "internet-gateway"@)) {
        Some(CostBasis::NoCharge)
    } else {
        None
    }
}

/// How a resource is priced from list prices (see `cost_basis_spec`).
pub fn cost_basis(provider: &str, service: &str, resource_type: &str, state: Option<&str>) -> (r: Option<CostBasis>)
    ensures
        r == cost_basis_spec(provider@, service@, resource_type@, match state {
            Some(s) => Some(s@),
            None => None,
        }),
{
    if !str_eq(provider, "aws") {
        return None;
    }
    let ec2 = str_eq(service, "ec2");
    if ec2 && str_eq(resource_type, "instance") {
        let stopped = match state {
            Some(s) => str_eq(s, "stopped") || str_eq(s, "terminated"),
            None => false,
        };
        if stopped {
            Some(CostBasis::StoppedInstance)
        } else {
            Some(CostBasis::Ec2Instance)
        }
    } else if ec2 && str_eq(resource_type, "volume") {
        Some(CostBasis::EbsVolume)
    } else if ec2 && str_eq(resource_type, "nat-gateway") {
        Some(CostBasis::NatGateway)
    } else if str_eq(service, "rds") && str_eq(resource_type, "db-instance") {
        Some(CostBasis::RdsInstance)
    } else if str_eq(service, "s3") && str_eq(resource_type, "bucket") {
        Some(CostBasis::S3Bucket)
    } else if str_eq(service, "kms") && str_eq(resource_type, "key") {
        Some(CostBasis::KmsKey)
    } else if str_eq(service, "iam") || (ec2 && (str_eq(resource_type, "vpc") || str_eq(resource_type, "subnet")
        || str_eq(resource_type, "security-group") || str_eq(resource_type, "route-table")
        || str_eq(resource_type, "internet-gateway"))) {
        Some(CostBasis::NoCharge)
    } else {
        None
    }
}

/// The confidence of an estimate on each basis: high where nothing is
/// charged for the kind of resource, medium otherwise.
pub open spec fn basis_confidence_spec(basis: CostBasis) -> Seq<char> {
    match basis {
        CostBasis::NoCharge => "high"@,
        _ => "medium"@,
    }
}

/// The confidence of an estimate on `basis` (see `basis_confidence_spec`).
pub fn basis_confidence(basis: CostBasis) -> (r: &'static str)
    ensures
        r@ == basis_confidence_spec(basis),
{
    match basis {
        CostBasis::NoCharge => "high",
        _ => "medium",
    }
}

/// The value of the first tag, in key order, whose key equals `key` ignoring
/// ASCII case, trimmed; none when it is blank or there is no such tag.
pub open spec fn tag_value_spec(tags: Seq<(String, String)>, key: Seq<char>) -> Option<Seq<char>> {
    match find_ignore_case(tags, key) {
        Some(v) => if trim_spec(v).len() > 0 {
            Some(trim_spec(v))
        } else {
            None
        },
        None => None,
    }
}

/// The value of a resource's tag, its key compared ignoring ASCII case.
pub fn tag_value(tags: &Vec<(String, String)>, key: &str) -> (r: Option<String>)
    ensures
        crate::aws_scan::opt_view(r) == tag_value_spec(tags@, key@),
{
    match pairs_find_ignore_case(tags, key) {
        Some(v) => {
            let t = trim(v.as_str());
            if t.unicode_len() > 0 {
                Some(t)
            } else {
                None
            }
        },
        None => None,
    }
}

/// The trimmed, non-blank tags of `tags`, each once, in the order they
/// first occur.
pub open spec fn dedupe_tags_spec(tags: Seq<Seq<char>>) -> Seq<Seq<char>>
    decreases tags.len(),
{
    if tags.len() == 0 {
        Seq::empty()
    } else {
        let prev = dedupe_tags_spec(tags.drop_last());
        let t = trim_spec(tags.last());
        if t.len() == 0 || prev.contains(t) {
            prev
        } else {
            prev.push(t)
        }
    }
}

/// The deduplicated tags hold no blank tag and no tag twice.
pub proof fn lemma_dedupe_tags_distinct(tags: Seq<Seq<char>>)
    ensures
        forall|i: int, j: int|
            0 <= i < j < dedupe_tags_spec(tags).len() ==> dedupe_tags_spec(tags)[i]
                != dedupe_tags_spec(tags)[j],
        forall|i: int| 0 <= i < dedupe_tags_spec(tags).len() ==> dedupe_tags_spec(tags)[i].len() > 0,
    decreases tags.len(),
{
    if tags.len() > 0 {
        lemma_dedupe_tags_distinct(tags.drop_last());
        let prev = dedupe_tags_spec(tags.drop_last());
        let t = trim_spec(tags.last());
        if !(t.len() == 0 || prev.contains(t)) {
            let d = prev.push(t);
            assert forall|i: int, j: int| 0 <= i < j < d.len() implies d[i] != d[j] by {
                if j == prev.len() {
                    assert(d[i] == prev[i]);
                    if d[i] == d[j] {
                        assert(prev.contains(t));
                    }
                }
            }
        }
    }
}

/// The trimmed, non-blank tags, each once, in the order they first occur.
pub fn dedupe_tags(tags: Vec<String>) -> (r: Vec<String>)
    ensures
        texts(r@) == dedupe_tags_spec(texts(tags@)),
        forall|i: int, j: int| 0 <= i < j < r@.len() ==> r@[i]@ != r@[j]@,
        forall|i: int| 0 <= i < r@.len() ==> r@[i]@.len() > 0,
{
    let ghost all = texts(tags@);
    let mut out: Vec<String> = Vec::new();
    let mut i: usize = 0;
    assert(texts(out@) =~= dedupe_tags_spec(all.take(0)));
    while i < tags.len()
        invariant
            i <= tags@.len(),
            all == texts(tags@),
            texts(out@) == dedupe_tags_spec(all.take(i as int)),
        decreases tags@.len() - i,
    {
        assert(all.take(i + 1).drop_last() =~= all.take(i as int));
        assert(all.take(i + 1).last() == tags@[i as int]@);
        let t = trim(tags[i].as_str());
        let ghost prev = texts(out@);
        let mut seen = false;
        let mut j: usize = 0;
        while j < out.len()
            invariant
                j <= out@.len(),
                prev == texts(out@),
                seen == (exists|k: int| 0 <= k < j && prev[k] == t@),
            decreases out@.len() - j,
        {
            let same = str_eq(out[j].as_str(), t.as_str());
            assert(prev[j as int] == out@[j as int]@);
            if same {
                seen = true;
            }
            assert(seen == (exists|k: int| 0 <= k < j + 1 && prev[k] == t@)) by {
                if exists|k: int| 0 <= k < j + 1 && prev[k] == t@ {
                    let k = choose|k: int| 0 <= k < j + 1 && prev[k] == t@;
                    if k < j {
                        assert(exists|k2: int| 0 <= k2 < j && prev[k2] == t@);
                    }
                }
            }
            j += 1;
        }
        assert(seen == prev.contains(t@));
        if t.unicode_len() > 0 && !seen {
            out.push(t);
            assert(texts(out@) =~= prev.push(t@));
        }
        i += 1;
    }
    assert(all.take(i as int) =~= all);
    proof {
        lemma_dedupe_tags_distinct(all);
        assert forall|a: int, b: int| 0 <= a < b < out@.len() implies out@[a]@ != out@[b]@ by {
            assert(texts(out@)[a] == out@[a]@ && texts(out@)[b] == out@[b]@);
        }
        assert forall|a: int| 0 <= a < out@.len() implies out@[a]@.len() > 0 by {
            assert(texts(out@)[a] == out@[a]@);
        }
    }
    out
}

} // verus!
