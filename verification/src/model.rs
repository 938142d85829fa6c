//! The inventory document: resources, relationships, scan errors, their
//! stable identifiers, ARN parsing, and the manifest and graph derived from
//! an inventory.
use vstd::prelude::*;
use vstd::string::*;

use crate::json::{clone_json, clone_strings, JsonValue};
use crate::text::{
    push_char, replace_chars, replace_chars_spec, split_n, split_n_spec, split_once,
    split_once_spec, str_eq, str_has_char,
};

pub use crate::json::json_object;

verus! {

/// Schema identifier written into every inventory.
pub const SCHEMA_VERSION: &'static str = "cloudmapper.infra.v1";

/// Generator name written into every inventory.
pub const GENERATOR_NAME: &'static str = "cloudmapper";

/// Generator version written into every inventory.
pub const GENERATOR_VERSION: &'static str = "0.1.0";

/// The tool that produced a document.
#[derive(Clone, Debug)]
pub struct Generator {
    pub name: String,
    pub version: String,
}

/// Where a fact was observed: the API operation and the path in its response.
#[derive(Clone, Debug)]
pub struct Evidence {
    pub service: String,
    pub operation: String,
    pub path: String,
    /// RFC 3339 timestamp.
    pub collected_at: String,
}

/// One normalized resource. `tags` holds distinct keys, in key order when
/// the tags come from a keyed map.
#[derive(Clone, Debug)]
pub struct Resource {
    pub uid: String,
    pub provider: String,
    pub account_id: String,
    pub partition: String,
    pub region: String,
    pub service: String,
    pub resource_type: String,
    pub id: String,
    pub arn: Option<String>,
    pub name: Option<String>,
    pub tags: Vec<(String, String)>,
    pub attributes: JsonValue,
    pub evidence: Vec<Evidence>,
    pub raw: Option<JsonValue>,
}

/// A directed relationship fact between two resources.
#[derive(Clone, Debug)]
pub struct Relationship {
    pub uid: String,
    pub from: String,
    pub to: String,
    pub relationship_type: String,
    pub attributes: JsonValue,
    pub evidence: Vec<Evidence>,
}

/// A recoverable failure met while scanning.
#[derive(Clone, Debug)]
pub struct ScanError {
    pub service: String,
    pub region: String,
    pub operation: String,
    pub message: String,
}

/// A scan error as its service, region, operation and message.
pub open spec fn error_view(e: ScanError) -> (Seq<char>, Seq<char>, Seq<char>, Seq<char>) {
    (e.service@, e.region@, e.operation@, e.message@)
}

/// The complete inventory document.
#[derive(Clone, Debug)]
pub struct Inventory {
    pub schema_version: String,
    pub generator: Generator,
    pub account_id: String,
    pub partition: String,
    pub home_region: String,
    pub regions: Vec<String>,
    /// RFC 3339 timestamp.
    pub collected_at: String,
    pub resources: Vec<Resource>,
    pub relationships: Vec<Relationship>,
    pub errors: Vec<ScanError>,
}

/// One file of the bundle, as the manifest lists it.
#[derive(Clone, Debug)]
pub struct ManifestFile {
    pub path: String,
    pub description: String,
}

/// Item counts of an inventory.
#[derive(Clone, Debug)]
pub struct ManifestCounts {
    pub resources: usize,
    pub relationships: usize,
    pub errors: usize,
}

/// The bundle manifest.
#[derive(Clone, Debug)]
pub struct Manifest {
    pub schema_version: String,
    pub generator: Generator,
    pub account_id: String,
    pub partition: String,
    pub home_region: String,
    pub regions: Vec<String>,
    pub collected_at: String,
    pub files: Vec<ManifestFile>,
    pub counts: ManifestCounts,
}

/// A graph node derived from a resource.
#[derive(Clone, Debug)]
pub struct GraphNode {
    pub id: String,
    pub label: String,
    pub service: String,
    pub resource_type: String,
    pub region: String,
    pub arn: Option<String>,
    pub tags: Vec<(String, String)>,
}

/// A graph edge derived from a relationship.
#[derive(Clone, Debug)]
pub struct GraphEdge {
    pub id: String,
    pub from: String,
    pub to: String,
    pub relationship_type: String,
}

/// The node and edge graph of an inventory.
#[derive(Clone, Debug)]
pub struct Graph {
    pub schema_version: String,
    pub nodes: Vec<GraphNode>,
    pub edges: Vec<GraphEdge>,
}

/// The parts of an Amazon Resource Name.
#[derive(Clone, Debug)]
pub struct ParsedArn {
    pub partition: String,
    pub service: String,
    pub region: String,
    pub account_id: String,
    pub resource_type: String,
    pub resource_id: String,
}

/// The model of a parsed ARN.
pub struct ArnModel {
    pub partition: Seq<char>,
    pub service: Seq<char>,
    pub region: Seq<char>,
    pub account_id: Seq<char>,
    pub resource_type: Seq<char>,
    pub resource_id: Seq<char>,
}

impl View for ParsedArn {
    type V = ArnModel;

    open spec fn view(&self) -> ArnModel {
        ArnModel {
            partition: self.partition@,
            service: self.service@,
            region: self.region@,
            account_id: self.account_id@,
            resource_type: self.resource_type@,
            resource_id: self.resource_id@,
        }
    }
}

/// The characters a uid segment may not hold.
pub open spec fn uid_unsafe_chars() -> Seq<char> {
    seq![' ', '\n', '\t']
}

/// A uid segment with spaces, newlines and tabs replaced by `_`.
pub open spec fn sanitize_uid_spec(value: Seq<char>) -> Seq<char> {
    replace_chars_spec(value, uid_unsafe_chars(), '_')
}

/// `provider:account:region:service:type:id`, with the id sanitized.
pub open spec fn provider_uid_spec(
    provider: Seq<char>,
    account_id: Seq<char>,
    region: Seq<char>,
    service: Seq<char>,
    resource_type: Seq<char>,
    id: Seq<char>,
) -> Seq<char> {
    provider + seq![':'] + account_id + seq![':'] + region + seq![':'] + service + seq![':']
        + resource_type + seq![':'] + sanitize_uid_spec(id)
}

/// The provider name of AWS resources.
pub open spec fn aws_word() -> Seq<char> {
    seq!['a', 'w', 's']
}

/// The uid of an AWS resource.
pub open spec fn aws_uid_spec(
    account_id: Seq<char>,
    region: Seq<char>,
    service: Seq<char>,
    resource_type: Seq<char>,
    id: Seq<char>,
) -> Seq<char> {
    provider_uid_spec(aws_word(), account_id, region, service, resource_type, id)
}

/// `from->type->to`, with `to` sanitized.
pub open spec fn relationship_uid_spec(
    from: Seq<char>,
    relationship_type: Seq<char>,
    to: Seq<char>,
) -> Seq<char> {
    from + seq!['-', '>'] + relationship_type + seq!['-', '>'] + sanitize_uid_spec(to)
}

/// Replaces spaces, newlines and tabs by `_`.
pub fn sanitize_uid_segment(value: &str) -> (r: String)
    ensures
        r@ == sanitize_uid_spec(value@),
{
    let targets = [' ', '\n', '\t'];
    let r = replace_chars(value, &targets, '_');
    assert(targets@ =~= uid_unsafe_chars());
    r
}

/// The uid of a resource of any provider.
pub fn provider_resource_uid(
    provider: &str,
    account_id: &str,
    region: &str,
    service: &str,
    resource_type: &str,
    id: &str,
) -> (r: String)
    ensures
        r@ == provider_uid_spec(provider@, account_id@, region@, service@, resource_type@, id@),
{
    let mut out = provider.to_owned();
    push_char(&mut out, ':');
    out.append(account_id);
    push_char(&mut out, ':');
    out.append(region);
    push_char(&mut out, ':');
    out.append(service);
    push_char(&mut out, ':');
    out.append(resource_type);
    push_char(&mut out, ':');
    let id = sanitize_uid_segment(id);
    out.append(id.as_str());
    assert(out@ =~= provider_uid_spec(
        provider@,
        account_id@,
        region@,
        service@,
        resource_type@,
        id@,
    ));
    out
}

/// The uid of an AWS resource.
pub fn resource_uid(
    account_id: &str,
    region: &str,
    service: &str,
    resource_type: &str,
    id: &str,
) -> (r: String)
    ensures
        r@ == aws_uid_spec(account_id@, region@, service@, resource_type@, id@),
{
    proof {
        reveal_strlit("aws");
        assert("aws"@ =~= aws_word());
    }
    provider_resource_uid("aws", account_id, region, service, resource_type, id)
}

/// The uid of a relationship.
pub fn relationship_uid(from: &str, relationship_type: &str, to: &str) -> (r: String)
    ensures
        r@ == relationship_uid_spec(from@, relationship_type@, to@),
{
    let mut out = from.to_owned();
    push_char(&mut out, '-');
    push_char(&mut out, '>');
    out.append(relationship_type);
    push_char(&mut out, '-');
    push_char(&mut out, '>');
    let to = sanitize_uid_segment(to);
    out.append(to.as_str());
    assert(out@ =~= relationship_uid_spec(from@, relationship_type@, to@));
    out
}

/// The region name used for resources that belong to no region.
pub open spec fn global_word() -> Seq<char> {
    seq!['g', 'l', 'o', 'b', 'a', 'l']
}

/// `region`, or `global` when it is empty.
pub open spec fn empty_to_global_spec(region: Seq<char>) -> Seq<char> {
    if region.len() == 0 {
        global_word()
    } else {
        region
    }
}

/// `region`, or `global` when it is empty.
pub fn empty_to_global(region: String) -> (r: String)
    ensures
        r@ == empty_to_global_spec(region@),
{
    if region.unicode_len() == 0 {
        proof {
            reveal_strlit("global");
            assert("global"@ =~= global_word());
        }
        "global".to_owned()
    } else {
        region
    }
}

/// The resource type of an S3 bucket ARN.
pub open spec fn bucket_word() -> Seq<char> {
    seq!['b', 'u', 'c', 'k', 'e', 't']
}

/// The resource type used when an ARN names none.
pub open spec fn resource_word() -> Seq<char> {
    seq!['r', 'e', 's', 'o', 'u', 'r', 'c', 'e']
}

/// The service name of S3.
pub open spec fn s3_word() -> Seq<char> {
    seq!['s', '3']
}

/// The resource type and id of the resource part of an ARN: a bare S3 name is
/// a bucket; otherwise the text before the first `/`, else before the first
/// `:`, is the type; else the type is `resource`.
pub open spec fn split_arn_resource_spec(service: Seq<char>, resource: Seq<char>) -> (
    Seq<char>,
    Seq<char>,
) {
    if service == s3_word() && !resource.contains('/') && !resource.contains(':') {
        (bucket_word(), resource)
    } else {
        match split_once_spec(resource, '/') {
            Some(parts) => parts,
            None => match split_once_spec(resource, ':') {
                Some(parts) => parts,
                None => (resource_word(), resource),
            },
        }
    }
}

/// The resource part of an ARN is split at its first `/` when it holds one:
/// the type is what comes before that `/` and the id everything after it,
/// whatever `:` the part also holds. Without a `/`, it is split at its first
/// `:`. A part with neither is an S3 bucket's name (type `bucket`) or, for
/// another service, an id of type `resource`.
pub proof fn law_arn_resource_split(service: Seq<char>, resource: Seq<char>, k: int)
    ensures
        0 <= k < resource.len() && resource[k] == '/' && (forall|j: int| 0 <= j < k ==> resource[j] != '/')
            ==> split_arn_resource_spec(service, resource) == (resource.take(k), resource.skip(k + 1)),
        0 <= k < resource.len() && resource[k] == ':' && (forall|j: int| 0 <= j < k ==> resource[j] != ':')
            && (forall|j: int| 0 <= j < resource.len() ==> resource[j] != '/')
            ==> split_arn_resource_spec(service, resource) == (resource.take(k), resource.skip(k + 1)),
        (forall|j: int| 0 <= j < resource.len() ==> resource[j] != '/' && resource[j] != ':')
            ==> split_arn_resource_spec(service, resource) == (
                if service == seq!['s', '3'] {
                    seq!['b', 'u', 'c', 'k', 'e', 't']
                } else {
                    seq!['r', 'e', 's', 'o', 'u', 'r', 'c', 'e']
                },
                resource,
            ),
{
    if 0 <= k < resource.len() && resource[k] == '/' && (forall|j: int| 0 <= j < k ==> resource[j] != '/') {
        crate::text::lemma_first_index_at(resource, '/', k);
        assert(resource.contains('/'));
    }
    if forall|j: int| 0 <= j < resource.len() ==> resource[j] != '/' {
        crate::text::lemma_first_index_at(resource, '/', resource.len() as int);
        assert(!resource.contains('/'));
        if 0 <= k < resource.len() && resource[k] == ':' && (forall|j: int| 0 <= j < k ==> resource[j] != ':') {
            crate::text::lemma_first_index_at(resource, ':', k);
            assert(resource.contains(':'));
        }
        if forall|j: int| 0 <= j < resource.len() ==> resource[j] != ':' {
            crate::text::lemma_first_index_at(resource, ':', resource.len() as int);
            assert(!resource.contains(':'));
        }
    }
}

fn split_arn_resource(service: &str, resource: &str) -> (r: (String, String))
    ensures
        (r.0@, r.1@) == split_arn_resource_spec(service@, resource@),
{
    proof {
        reveal_strlit("s3");
        reveal_strlit("bucket");
        reveal_strlit("resource");
        assert("s3"@ =~= s3_word());
        assert("bucket"@ =~= bucket_word());
        assert("resource"@ =~= resource_word());
    }
    if str_eq(service, "s3") && !str_has_char(resource, '/') && !str_has_char(resource, ':') {
        return ("bucket".to_owned(), resource.to_owned());
    }
    match split_once(resource, '/') {
        Some(parts) => {
            return parts;
        },
        None => {},
    }
    match split_once(resource, ':') {
        Some(parts) => parts,
        None => ("resource".to_owned(), resource.to_owned()),
    }
}

/// The word an ARN starts with.
pub open spec fn arn_word() -> Seq<char> {
    seq!['a', 'r', 'n']
}

/// The parts of `arn`: it must split at `:` into six pieces, the first being
/// `arn`; an empty region becomes `global`.
pub open spec fn parse_arn_spec(arn: Seq<char>) -> Option<ArnModel> {
    let parts = split_n_spec(arn, ':', 6);
    if parts.len() == 6 && parts[0] == arn_word() {
        let typed = split_arn_resource_spec(parts[2], parts[5]);
        Some(
            ArnModel {
                partition: parts[1],
                service: parts[2],
                region: empty_to_global_spec(parts[3]),
                account_id: parts[4],
                resource_type: typed.0,
                resource_id: typed.1,
            },
        )
    } else {
        None
    }
}

/// An ARN parses exactly when it starts with `arn:` and holds at least five
/// colons; its partition, service and account are then the second, third and
/// fifth pieces of splitting it at its first five colons, its region the
/// fourth (`global` when empty).
pub proof fn lemma_parse_arn_iff(arn: Seq<char>)
    ensures
        parse_arn_spec(arn) is Some <==> (arn.len() >= 4 && arn.take(4) == seq!['a', 'r', 'n', ':']
            && crate::text::count_char(arn, ':') >= 5),
        parse_arn_spec(arn) matches Some(p) ==> {
            let v = crate::text::split_n_spec(arn, ':', 6);
            &&& p.partition == v[1]
            &&& p.service == v[2]
            &&& p.account_id == v[4]
            &&& p.region == empty_to_global_spec(v[3])
        },
{
    let parts = crate::text::split_n_spec(arn, ':', 6);
    crate::text::lemma_split_n_len(arn, ':', 6);
    crate::text::lemma_first_index(arn, ':');
    let k = crate::text::first_index(arn, ':');
    if k < arn.len() {
        crate::text::lemma_first_index(arn.skip(k + 1), ':');
        assert(parts[0] == arn.take(k));
    } else {
        crate::text::lemma_count_none(arn, ':');
    }
    if arn.len() >= 4 && arn.take(4) == seq!['a', 'r', 'n', ':'] {
        assert(arn[3] == ':');
        assert(arn[0] != ':' && arn[1] != ':' && arn[2] != ':') by {
            assert(arn[0] == arn.take(4)[0]);
            assert(arn[1] == arn.take(4)[1]);
            assert(arn[2] == arn.take(4)[2]);
        }
        crate::text::lemma_first_index_at(arn, ':', 3);
        assert(arn.take(3) =~= arn_word());
    }
    if parse_arn_spec(arn) is Some {
        assert(k < arn.len());
        assert(arn.take(k) == arn_word());
        assert(k == 3);
        assert(arn.take(4) =~= seq!['a', 'r', 'n', ':']);
    }
}

/// Parses an Amazon Resource Name.
pub fn parse_arn(arn: &str) -> (r: Option<ParsedArn>)
    ensures
        match r {
            Some(p) => parse_arn_spec(arn@) == Some(p@),
            None => parse_arn_spec(arn@) is None,
        },
{
    let parts = split_n(arn, ':', 6);
    let ghost pv = parts.deep_view();
    if parts.len() != 6 {
        return None;
    }
    assert(pv[0] == parts@[0]@);
    proof {
        reveal_strlit("arn");
        assert("arn"@ =~= arn_word());
    }
    if !str_eq(parts[0].as_str(), "arn") {
        return None;
    }
    let typed = split_arn_resource(parts[2].as_str(), parts[5].as_str());
    let region = empty_to_global(parts[3].clone());
    assert(pv[1] == parts@[1]@ && pv[2] == parts@[2]@ && pv[3] == parts@[3]@ && pv[4] == parts@[4]@
        && pv[5] == parts@[5]@);
    Some(
        ParsedArn {
            partition: parts[1].clone(),
            service: parts[2].clone(),
            region,
            account_id: parts[4].clone(),
            resource_type: typed.0,
            resource_id: typed.1,
        },
    )
}

/// The uid of the resource an ARN names; an ARN without an account falls
/// back to `default_account_id`.
pub open spec fn uid_for_arn_spec(default_account_id: Seq<char>, arn: Seq<char>) -> Option<
    Seq<char>,
> {
    match parse_arn_spec(arn) {
        Some(p) => Some(
            aws_uid_spec(
                if p.account_id.len() == 0 {
                    default_account_id
                } else {
                    p.account_id
                },
                p.region,
                p.service,
                p.resource_type,
                p.resource_id,
            ),
        ),
        None => None,
    }
}

/// The uid of the resource an ARN names.
pub fn uid_for_arn(default_account_id: &str, arn: &str) -> (r: Option<String>)
    ensures
        match r {
            Some(u) => uid_for_arn_spec(default_account_id@, arn@) == Some(u@),
            None => uid_for_arn_spec(default_account_id@, arn@) is None,
        },
{
    let parsed = match parse_arn(arn) {
        Some(p) => p,
        None => {
            return None;
        },
    };
    let account_id: &str = if parsed.account_id.unicode_len() == 0 {
        default_account_id
    } else {
        parsed.account_id.as_str()
    };
    Some(
        resource_uid(
            account_id,
            parsed.region.as_str(),
            parsed.service.as_str(),
            parsed.resource_type.as_str(),
            parsed.resource_id.as_str(),
        ),
    )
}

/// A copy of an optional string.
pub fn clone_opt_string(value: &Option<String>) -> (r: Option<String>)
    ensures
        r == *value,
{
    match value {
        Some(s) => Some(s.clone()),
        None => None,
    }
}

/// A copy of a list of string pairs.
pub fn clone_pairs(pairs: &Vec<(String, String)>) -> (r: Vec<(String, String)>)
    ensures
        r@ == pairs@,
{
    let mut out: Vec<(String, String)> = Vec::new();
    let mut i: usize = 0;
    while i < pairs.len()
        invariant
            i <= pairs@.len(),
            out@ == pairs@.take(i as int),
        decreases pairs@.len() - i,
    {
        out.push((pairs[i].0.clone(), pairs[i].1.clone()));
        assert(out@ =~= pairs@.take(i + 1));
        i += 1;
    }
    assert(pairs@.take(i as int) =~= pairs@);
    out
}

/// A copy of a generator record.
pub fn clone_generator(g: &Generator) -> (r: Generator)
    ensures
        r == *g,
{
    Generator { name: g.name.clone(), version: g.version.clone() }
}

/// The paths the manifest lists, in order.
pub open spec fn manifest_paths() -> Seq<Seq<char>> {
    seq![
        "inventory.json"@,
        "resources.jsonl"@,
        "relationships.jsonl"@,
        "errors.jsonl"@,
        "graph.json"@,
        "map.db"@,
    ]
}

/// What each bundle file of the manifest holds, in the order of
/// `manifest_paths`.
pub open spec fn manifest_descriptions() -> Seq<Seq<char>> {
    seq![
        "Complete inventory, relationship, and scan-error document."@,
        "One normalized resource per line for embedding and agent ingestion."@,
        "One relationship fact per line with evidence pointers."@,
        "Recoverable service or region scan failures."@,
        "Node and edge graph derived from resources and relationships."@,
        "Cloudmapper map database for resources, relationships, scan errors, imported Terraform state, findings, and UI/API workflows."@,
    ]
}

/// The label of a graph node: the resource name, else its id.
pub open spec fn node_label_spec(r: Resource) -> Seq<char> {
    match r.name {
        Some(n) => n@,
        None => r.id@,
    }
}

/// `node` is the graph node of `r`.
pub open spec fn is_node_of(node: GraphNode, r: Resource) -> bool {
    &&& node.id@ == r.uid@
    &&& node.label@ == node_label_spec(r)
    &&& node.service@ == r.service@
    &&& node.resource_type@ == r.resource_type@
    &&& node.region@ == r.region@
    &&& node.arn == r.arn
    &&& node.tags@ == r.tags@
}

/// `edge` is the graph edge of `rel`.
pub open spec fn is_edge_of(edge: GraphEdge, rel: Relationship) -> bool {
    &&& edge.id@ == rel.uid@
    &&& edge.from@ == rel.from@
    &&& edge.to@ == rel.to@
    &&& edge.relationship_type@ == rel.relationship_type@
}

fn manifest_file(path: &str, description: &str) -> (r: ManifestFile)
    ensures
        r.path@ == path@,
        r.description@ == description@,
{
    ManifestFile { path: path.to_owned(), description: description.to_owned() }
}

/// The id of a scan: `<provider>:<account>:<time>`, the provider being that
/// of the first resource, `aws` when there is none.
pub open spec fn scan_id_spec(resources: Seq<Resource>, account_id: Seq<char>, time: Seq<char>) -> Seq<char> {
    let provider = if resources.len() > 0 {
        resources[0].provider@
    } else {
        aws_word()
    };
    provider + seq![':'] + account_id + seq![':'] + time
}

/// The id of an inventory's scan, with `collected_at` its collection time
/// as RFC 3339 text.
pub fn scan_id(inventory: &Inventory, collected_at: &str) -> (r: String)
    ensures
        r@ == scan_id_spec(inventory.resources@, inventory.account_id@, collected_at@),
{
    let mut out = if inventory.resources.len() > 0 {
        inventory.resources[0].provider.clone()
    } else {
        proof {
            reveal_strlit("aws");
            assert("aws"@ =~= aws_word());
        }
        "aws".to_owned()
    };
    push_char(&mut out, ':');
    out.append(inventory.account_id.as_str());
    push_char(&mut out, ':');
    out.append(collected_at);
    out
}

/// Whether a parsed manifest document was written by this generator: its
/// `generator.name` is the text `GENERATOR_NAME`.
pub fn is_cloudmapper_manifest(manifest: &JsonValue) -> (r: bool)
    ensures
        r == (crate::json::json_str(crate::json::json_pointer(manifest@, seq!["generator"@, "name"@]))
            == Some(GENERATOR_NAME@)),
{
    let path = ["generator", "name"];
    assert(path@.map_values(|p: &str| p@) =~= seq!["generator"@, "name"@]);
    match manifest.pointer_str(&path) {
        Some(name) => crate::text::str_eq(name.as_str(), GENERATOR_NAME),
        None => false,
    }
}

impl Inventory {
    /// The manifest of this inventory: its header, the six bundle files, and
    /// its item counts.
    pub fn manifest(&self) -> (m: Manifest)
        ensures
            m.schema_version == self.schema_version,
            m.generator == self.generator,
            m.account_id == self.account_id,
            m.partition == self.partition,
            m.home_region == self.home_region,
            m.regions.deep_view() == self.regions.deep_view(),
            m.collected_at == self.collected_at,
            m.files@.len() == 6,
            forall|i: int| 0 <= i < 6 ==> #[trigger] m.files@[i].path@ == manifest_paths()[i],
            forall|i: int| 0 <= i < 6 ==> #[trigger] m.files@[i].description@ == manifest_descriptions()[i],
            m.counts.resources == self.resources@.len(),
            m.counts.relationships == self.relationships@.len(),
            m.counts.errors == self.errors@.len(),
    {
        let files = vec![
            manifest_file(
                "inventory.json",
                "Complete inventory, relationship, and scan-error document.",
            ),
            manifest_file(
                "resources.jsonl",
                "One normalized resource per line for embedding and agent ingestion.",
            ),
            manifest_file(
                "relationships.jsonl",
                "One relationship fact per line with evidence pointers.",
            ),
            manifest_file("errors.jsonl", "Recoverable service or region scan failures."),
            manifest_file(
                "graph.json",
                "Node and edge graph derived from resources and relationships.",
            ),
            manifest_file(
                "map.db",
                "Cloudmapper map database for resources, relationships, scan errors, imported Terraform state, findings, and UI/API workflows.",
            ),
        ];
        Manifest {
            schema_version: self.schema_version.clone(),
            generator: clone_generator(&self.generator),
            account_id: self.account_id.clone(),
            partition: self.partition.clone(),
            home_region: self.home_region.clone(),
            regions: clone_strings(&self.regions),
            collected_at: self.collected_at.clone(),
            files,
            counts: ManifestCounts {
                resources: self.resources.len(),
                relationships: self.relationships.len(),
                errors: self.errors.len(),
            },
        }
    }

    /// The graph of this inventory: one node per resource and one edge per
    /// relationship, in the same order.
    pub fn graph(&self) -> (g: Graph)
        ensures
            g.schema_version == self.schema_version,
            g.nodes@.len() == self.resources@.len(),
            forall|i: int|
                0 <= i < g.nodes@.len() ==> is_node_of(#[trigger] g.nodes@[i], self.resources@[i]),
            g.edges@.len() == self.relationships@.len(),
            forall|i: int|
                0 <= i < g.edges@.len() ==> is_edge_of(
                    #[trigger] g.edges@[i],
                    self.relationships@[i],
                ),
    {
        let mut nodes: Vec<GraphNode> = Vec::new();
        let mut i: usize = 0;
        while i < self.resources.len()
            invariant
                i <= self.resources@.len(),
                nodes@.len() == i,
                forall|j: int| 0 <= j < i ==> is_node_of(#[trigger] nodes@[j], self.resources@[j]),
            decreases self.resources@.len() - i,
        {
            let resource = &self.resources[i];
            let label = match &resource.name {
                Some(n) => n.clone(),
                None => resource.id.clone(),
            };
            nodes.push(
                GraphNode {
                    id: resource.uid.clone(),
                    label,
                    service: resource.service.clone(),
                    resource_type: resource.resource_type.clone(),
                    region: resource.region.clone(),
                    arn: clone_opt_string(&resource.arn),
                    tags: clone_pairs(&resource.tags),
                },
            );
            i += 1;
        }
        let mut edges: Vec<GraphEdge> = Vec::new();
        let mut k: usize = 0;
        while k < self.relationships.len()
            invariant
                k <= self.relationships@.len(),
                edges@.len() == k,
                forall|j: int|
                    0 <= j < k ==> is_edge_of(#[trigger] edges@[j], self.relationships@[j]),
            decreases self.relationships@.len() - k,
        {
            let rel = &self.relationships[k];
            edges.push(
                GraphEdge {
                    id: rel.uid.clone(),
                    from: rel.from.clone(),
                    to: rel.to.clone(),
                    relationship_type: rel.relationship_type.clone(),
                },
            );
            k += 1;
        }
        Graph { schema_version: self.schema_version.clone(), nodes, edges }
    }
}

/// What to do with the output directory of a bundle.
#[derive(Clone, Copy, Debug, PartialEq, Eq, Structural)]
pub enum OutputDirAction {
    /// It does not exist: create it.
    Create,
    /// Write into it.
    Write,
    /// Refuse: the path exists and is not a directory.
    NotADirectory,
    /// Refuse: the directory holds other files and no cloudmapper manifest.
    NonEmpty,
}

/// Whether a bundle may be written to an output path: a missing path is
/// created; an existing one must be a directory that is empty, holds a
/// manifest this generator wrote, or was allowed to hold anything. The
/// manifest and emptiness are only asked about where they decide.
pub fn output_dir_action(
    exists: bool,
    is_dir: bool,
    allow_non_empty: bool,
    has_cloudmapper_manifest: bool,
    is_empty: bool,
) -> (r: OutputDirAction)
    ensures
        r == (if !exists {
            OutputDirAction::Create
        } else if !is_dir {
            OutputDirAction::NotADirectory
        } else if allow_non_empty || has_cloudmapper_manifest || is_empty {
            OutputDirAction::Write
        } else {
            OutputDirAction::NonEmpty
        }),
{
    if !exists {
        OutputDirAction::Create
    } else if !is_dir {
        OutputDirAction::NotADirectory
    } else if allow_non_empty || has_cloudmapper_manifest || is_empty {
        OutputDirAction::Write
    } else {
        OutputDirAction::NonEmpty
    }
}

} // verus!
