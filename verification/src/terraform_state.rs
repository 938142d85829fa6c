//! Terraform state as resource instance records: the address of each
//! instance, its normalized attributes and the AWS uid its ARN names.
use vstd::prelude::*;
use vstd::string::*;

use crate::aws_scan::opt_view;
use crate::json::{
    clone_entries, clone_json, entries_view, int_string, int_text, json_get, json_str, json_text,
    json_text_of, opt_text, Json, JsonValue,
};
use crate::model::{uid_for_arn, uid_for_arn_spec};
use crate::text::push_char;

verus! {

/// The outcome of importing a Terraform state file.
#[derive(Clone, Debug)]
pub struct TerraformImportSummary {
    pub state_id: String,
    pub resource_instances: usize,
}

/// A Terraform state document.
#[derive(Clone, Debug)]
pub struct TerraformState {
    pub version: Option<i64>,
    pub terraform_version: Option<String>,
    pub serial: Option<i64>,
    pub lineage: Option<String>,
    pub resources: Vec<TerraformResource>,
    /// The document's other members.
    pub extra: Vec<(String, JsonValue)>,
}

/// A resource block of Terraform state.
#[derive(Clone, Debug)]
pub struct TerraformResource {
    pub module: Option<String>,
    pub mode: String,
    pub resource_type: String,
    pub name: String,
    pub provider: Option<String>,
    pub instances: Vec<TerraformInstance>,
    /// The block's other members.
    pub extra: Vec<(String, JsonValue)>,
}

/// An instance of a Terraform resource block.
#[derive(Clone, Debug)]
pub struct TerraformInstance {
    pub index_key: Option<JsonValue>,
    pub schema_version: Option<i64>,
    /// The instance's attributes; null when the state has none.
    pub attributes: JsonValue,
    pub sensitive_attributes: JsonValue,
    pub dependencies: JsonValue,
    /// The instance's other members.
    pub extra: Vec<(String, JsonValue)>,
}

/// A resource instance as it is stored.
#[derive(Clone, Debug)]
pub struct TerraformImportRecord {
    pub address: String,
    pub module: Option<String>,
    pub mode: String,
    pub resource_type: String,
    pub name: String,
    pub provider: Option<String>,
    pub index_key: Option<JsonValue>,
    pub schema_version: Option<i64>,
    pub attributes: JsonValue,
    pub sensitive_attributes: JsonValue,
    pub dependencies: JsonValue,
    /// The resource block and the instance as the state holds them.
    pub raw: JsonValue,
    pub aws_uid: Option<String>,
}

/// What a stored resource instance holds.
pub struct RecordModel {
    pub address: Seq<char>,
    pub module: Option<Seq<char>>,
    pub mode: Seq<char>,
    pub resource_type: Seq<char>,
    pub name: Seq<char>,
    pub provider: Option<Seq<char>>,
    pub index_key: Option<Json>,
    pub schema_version: Option<i64>,
    pub attributes: Json,
    pub sensitive_attributes: Json,
    pub dependencies: Json,
    pub raw: Json,
    pub aws_uid: Option<Seq<char>>,
}

/// The model of an optional JSON value.
pub open spec fn opt_json_view(o: Option<JsonValue>) -> Option<Json> {
    match o {
        Some(v) => Some(v@),
        None => None,
    }
}

impl View for TerraformImportRecord {
    type V = RecordModel;

    open spec fn view(&self) -> RecordModel {
        RecordModel {
            address: self.address@,
            module: opt_view(self.module),
            mode: self.mode@,
            resource_type: self.resource_type@,
            name: self.name@,
            provider: opt_view(self.provider),
            index_key: opt_json_view(self.index_key),
            schema_version: self.schema_version,
            attributes: self.attributes@,
            sensitive_attributes: self.sensitive_attributes@,
            dependencies: self.dependencies@,
            raw: self.raw@,
            aws_uid: opt_view(self.aws_uid),
        }
    }
}

/// `module.` before an address, for a resource in a module.
pub open spec fn module_prefix(module: Option<String>) -> Seq<char> {
    match module {
        Some(m) => m@ + seq!['.'],
        None => Seq::empty(),
    }
}

/// `[key]` after an address, for an instance with an index key: the key's
/// JSON text in brackets.
pub open spec fn index_suffix(index_key: Option<Json>) -> Seq<char> {
    match index_key {
        Some(k) => seq!['['] + json_text_of(k) + seq![']'],
        None => Seq::empty(),
    }
}

/// The address of an instance: `[module.]type.name[[key]]`.
pub open spec fn address_spec(r: TerraformResource, index_key: Option<Json>) -> Seq<char> {
    module_prefix(r.module) + r.resource_type@ + seq!['.'] + r.name@ + index_suffix(index_key)
}

/// The address of an instance of a resource block with the given index key.
pub fn terraform_address(resource: &TerraformResource, index_key: Option<&JsonValue>) -> (r: String)
    ensures
        r@ == address_spec(*resource, match index_key {
            Some(k) => Some(k@),
            None => None,
        }),
{
    let mut address = String::new();
    match &resource.module {
        Some(module) => {
            address.append(module.as_str());
            push_char(&mut address, '.');
        },
        None => {},
    }
    address.append(resource.resource_type.as_str());
    push_char(&mut address, '.');
    address.append(resource.name.as_str());
    match index_key {
        Some(key) => {
            push_char(&mut address, '[');
            let text = json_text(key);
            address.append(text.as_str());
            push_char(&mut address, ']');
        },
        None => {},
    }
    assert(address@ =~= address_spec(*resource, match index_key {
        Some(k) => Some(k@),
        None => None,
    }));
    address
}

/// `value`, or `default` when it is null.
pub open spec fn normalize_spec(value: Json, default: Json) -> Json {
    if value is Null {
        default
    } else {
        value
    }
}

/// `value`, or `default` when it is null.
pub fn normalize_json(value: JsonValue, default: JsonValue) -> (r: JsonValue)
    ensures
        r@ == normalize_spec(value@, default@),
{
    if value.is_null() {
        default
    } else {
        value
    }
}

/// The AWS uid named by the `arn` member of an instance's attributes.
pub open spec fn aws_uid_of(attributes: Json) -> Option<Seq<char>> {
    match json_str(json_get(attributes, "arn"@)) {
        Some(arn) => uid_for_arn_spec(Seq::empty(), arn),
        None => None,
    }
}

/// The AWS uid named by the `arn` member of an instance's attributes.
pub fn infer_aws_uid(attributes: &JsonValue) -> (r: Option<String>)
    ensures
        opt_view(r) == aws_uid_of(attributes@),
{
    match attributes.get_str("arn") {
        Some(arn) => {
            let r = uid_for_arn("", arn.as_str());
            proof {
                reveal_strlit("");
            }
            r
        },
        None => None,
    }
}

/// A JSON number for a present integer, JSON null for an absent one.
pub open spec fn opt_int_json(o: Option<i64>) -> Json {
    match o {
        Some(n) => Json::Number(int_text(n as int)),
        None => Json::Null,
    }
}

fn opt_int_value(o: Option<i64>) -> (r: JsonValue)
    ensures
        r@ == opt_int_json(o),
{
    match o {
        Some(n) => crate::json::int_json(n),
        None => JsonValue::Null,
    }
}

/// An instance as the state holds it.
pub open spec fn instance_json(i: TerraformInstance) -> Json {
    Json::Object(
        seq![
            ("index_key"@, crate::json::or_null(opt_json_view(i.index_key))),
            ("schema_version"@, opt_int_json(i.schema_version)),
            ("attributes"@, i.attributes@),
            ("sensitive_attributes"@, i.sensitive_attributes@),
            ("dependencies"@, i.dependencies@),
        ] + entries_view(i.extra@),
    )
}

/// A resource block as the state holds it.
pub open spec fn resource_json(r: TerraformResource) -> Json {
    Json::Object(
        seq![
            ("module"@, opt_text(r.module)),
            ("mode"@, Json::Str(r.mode@)),
            ("type"@, Json::Str(r.resource_type@)),
            ("name"@, Json::Str(r.name@)),
            ("provider"@, opt_text(r.provider)),
            ("instances"@, Json::Array(r.instances@.map_values(|i: TerraformInstance| instance_json(i)))),
        ] + entries_view(r.extra@),
    )
}

fn with_members(head: Vec<(String, JsonValue)>, extra: &Vec<(String, JsonValue)>) -> (r: JsonValue)
    ensures
        r@ == Json::Object(entries_view(head@) + entries_view(extra@)),
{
    let mut members = head;
    let mut rest = clone_entries(extra);
    let ghost a = members@;
    let ghost b = rest@;
    members.append(&mut rest);
    proof {
        crate::compare::lemma_entries_view_concat(a, b);
    }
    assert(members@ =~= a + b);
    JsonValue::Object(members)
}

/// An instance as the state holds it.
pub fn instance_value(i: &TerraformInstance) -> (r: JsonValue)
    ensures
        r@ == instance_json(*i),
{
    let key = match &i.index_key {
        Some(k) => clone_json(k),
        None => JsonValue::Null,
    };
    let head = vec![
        ("index_key".to_owned(), key),
        ("schema_version".to_owned(), opt_int_value(i.schema_version)),
        ("attributes".to_owned(), clone_json(&i.attributes)),
        ("sensitive_attributes".to_owned(), clone_json(&i.sensitive_attributes)),
        ("dependencies".to_owned(), clone_json(&i.dependencies)),
    ];
    proof {
        crate::json::lemma_entries_view_len(head@);
        crate::json::lemma_entries_view_index(head@, 0);
        crate::json::lemma_entries_view_index(head@, 1);
        crate::json::lemma_entries_view_index(head@, 2);
        crate::json::lemma_entries_view_index(head@, 3);
        crate::json::lemma_entries_view_index(head@, 4);
        assert(entries_view(head@) =~= seq![
            ("index_key"@, crate::json::or_null(opt_json_view(i.index_key))),
            ("schema_version"@, opt_int_json(i.schema_version)),
            ("attributes"@, i.attributes@),
            ("sensitive_attributes"@, i.sensitive_attributes@),
            ("dependencies"@, i.dependencies@),
        ]);
    }
    with_members(head, &i.extra)
}

/// A resource block as the state holds it.
pub fn resource_value(r: &TerraformResource) -> (v: JsonValue)
    ensures
        v@ == resource_json(*r),
{
    broadcast use crate::json::group_json_view;

    let mut instances: Vec<JsonValue> = Vec::new();
    let mut k: usize = 0;
    while k < r.instances.len()
        invariant
            k <= r.instances@.len(),
            instances@.len() == k,
            forall|j: int| 0 <= j < k ==> (#[trigger] instances@[j])@ == instance_json(r.instances@[j]),
        decreases r.instances@.len() - k,
    {
        instances.push(instance_value(&r.instances[k]));
        k += 1;
    }
    proof {
        crate::json::lemma_items_view_len(instances@);
        assert forall|j: int| 0 <= j < instances@.len() implies crate::json::items_view(instances@)[j]
            == r.instances@.map_values(|i: TerraformInstance| instance_json(i))[j] by {
            crate::json::lemma_items_view_index(instances@, j);
        }
        assert(crate::json::items_view(instances@) =~= r.instances@.map_values(
            |i: TerraformInstance| instance_json(i),
        ));
    }
    let head = vec![
        ("module".to_owned(), crate::json::opt_str_json(&r.module)),
        ("mode".to_owned(), JsonValue::Str(r.mode.clone())),
        ("type".to_owned(), JsonValue::Str(r.resource_type.clone())),
        ("name".to_owned(), JsonValue::Str(r.name.clone())),
        ("provider".to_owned(), crate::json::opt_str_json(&r.provider)),
        ("instances".to_owned(), JsonValue::Array(instances)),
    ];
    proof {
        crate::json::lemma_entries_view_len(head@);
        crate::json::lemma_entries_view_index(head@, 0);
        crate::json::lemma_entries_view_index(head@, 1);
        crate::json::lemma_entries_view_index(head@, 2);
        crate::json::lemma_entries_view_index(head@, 3);
        crate::json::lemma_entries_view_index(head@, 4);
        crate::json::lemma_entries_view_index(head@, 5);
        assert(entries_view(head@) =~= seq![
            ("module"@, opt_text(r.module)),
            ("mode"@, Json::Str(r.mode@)),
            ("type"@, Json::Str(r.resource_type@)),
            ("name"@, Json::Str(r.name@)),
            ("provider"@, opt_text(r.provider)),
            ("instances"@, Json::Array(r.instances@.map_values(|i: TerraformInstance| instance_json(i)))),
        ]);
    }
    with_members(head, &r.extra)
}

/// The stored record of an instance of a resource block.
pub open spec fn record_spec(r: TerraformResource, i: TerraformInstance) -> RecordModel {
    let attributes = normalize_spec(i.attributes@, Json::Object(Seq::empty()));
    RecordModel {
        address: address_spec(r, opt_json_view(i.index_key)),
        module: opt_view(r.module),
        mode: r.mode@,
        resource_type: r.resource_type@,
        name: r.name@,
        provider: opt_view(r.provider),
        index_key: opt_json_view(i.index_key),
        schema_version: i.schema_version,
        attributes,
        sensitive_attributes: normalize_spec(i.sensitive_attributes@, Json::Array(Seq::empty())),
        dependencies: normalize_spec(i.dependencies@, Json::Array(Seq::empty())),
        raw: Json::Object(seq![("resource"@, resource_json(r)), ("instance"@, instance_json(i))]),
        aws_uid: aws_uid_of(attributes),
    }
}

/// The records of a resource block's instances, in order.
pub open spec fn resource_records(r: TerraformResource) -> Seq<RecordModel> {
    r.instances@.map_values(|i: TerraformInstance| record_spec(r, i))
}

/// The records of the instances of the resource blocks, block by block.
pub open spec fn records_spec(resources: Seq<TerraformResource>) -> Seq<RecordModel>
    decreases resources.len(),
{
    if resources.len() == 0 {
        Seq::empty()
    } else {
        records_spec(resources.drop_last()) + resource_records(resources.last())
    }
}

/// The models of a list of records.
pub open spec fn records_view(v: Seq<TerraformImportRecord>) -> Seq<RecordModel> {
    v.map_values(|r: TerraformImportRecord| r@)
}

/// The record of one instance of a resource block.
pub fn instance_record(resource: &TerraformResource, instance: &TerraformInstance) -> (r: TerraformImportRecord)
    ensures
        r@ == record_spec(*resource, *instance),
{
    let address = terraform_address(resource, instance.index_key.as_ref());
    let attributes = normalize_json(clone_json(&instance.attributes), JsonValue::Object(Vec::new()));
    let sensitive_attributes = normalize_json(
        clone_json(&instance.sensitive_attributes),
        JsonValue::Array(Vec::new()),
    );
    let dependencies = normalize_json(clone_json(&instance.dependencies), JsonValue::Array(Vec::new()));
    let raw_members = vec![
        ("resource".to_owned(), resource_value(resource)),
        ("instance".to_owned(), instance_value(instance)),
    ];
    proof {
        crate::json::lemma_entries_view_len(raw_members@);
        crate::json::lemma_entries_view_index(raw_members@, 0);
        crate::json::lemma_entries_view_index(raw_members@, 1);
        assert(entries_view(raw_members@) =~= seq![
            ("resource"@, resource_json(*resource)),
            ("instance"@, instance_json(*instance)),
        ]);
        assert(entries_view(Seq::<(String, JsonValue)>::empty()) =~= Seq::<(Seq<char>, Json)>::empty());
        assert(crate::json::items_view(Seq::<JsonValue>::empty()) =~= Seq::<Json>::empty());
    }
    let aws_uid = infer_aws_uid(&attributes);
    let index_key = match &instance.index_key {
        Some(k) => Some(clone_json(k)),
        None => None,
    };
    let r = TerraformImportRecord {
        address,
        module: crate::model::clone_opt_string(&resource.module),
        mode: resource.mode.clone(),
        resource_type: resource.resource_type.clone(),
        name: resource.name.clone(),
        provider: crate::model::clone_opt_string(&resource.provider),
        index_key,
        schema_version: instance.schema_version,
        attributes,
        sensitive_attributes,
        dependencies,
        raw: JsonValue::Object(raw_members),
        aws_uid,
    };
    r
}

/// The records of every instance of every resource block of a state, in
/// the state's order.
pub fn terraform_records(state: &TerraformState) -> (r: Vec<TerraformImportRecord>)
    ensures
        records_view(r@) == records_spec(state.resources@),
{
    let ghost blocks = state.resources@;
    let mut records: Vec<TerraformImportRecord> = Vec::new();
    let mut b: usize = 0;
    assert(records_view(records@) =~= records_spec(blocks.take(0)));
    while b < state.resources.len()
        invariant
            b <= blocks.len(),
            blocks == state.resources@,
            records_view(records@) == records_spec(blocks.take(b as int)),
        decreases blocks.len() - b,
    {
        let resource = &state.resources[b];
        let ghost before = records_view(records@);
        let mut k: usize = 0;
        while k < resource.instances.len()
            invariant
                k <= resource.instances@.len(),
                records_view(records@) == before + resource_records(*resource).take(k as int),
            decreases resource.instances@.len() - k,
        {
            let record = instance_record(resource, &resource.instances[k]);
            let ghost prev = records@;
            records.push(record);
            assert(records_view(records@) =~= records_view(prev).push(record@));
            assert(resource_records(*resource).take(k + 1) =~= resource_records(*resource).take(
                k as int,
            ).push(record_spec(*resource, resource.instances@[k as int])));
            k += 1;
        }
        assert(resource_records(*resource).take(k as int) =~= resource_records(*resource));
        assert(blocks.take(b + 1).drop_last() =~= blocks.take(b as int));
        assert(blocks.take(b + 1).last() == blocks[b as int]);
        b += 1;
    }
    assert(blocks.take(b as int) =~= blocks);
    records
}

/// The file stem of a path, as `std::path::Path::file_stem` gives it.
pub uninterp spec fn file_stem_of(path: Seq<char>) -> Option<Seq<char>>;

/// `std::path::Path::new(path).file_stem()`, as text. The stem of a path
/// built from text is always valid text; what the stem is depends on how
/// std splits the path into components, which is left to `file_stem_of`.
#[verifier::external_body]
fn file_stem(path: &str) -> (r: Option<String>)
    ensures
        opt_view(r) == file_stem_of(path@),
{
    std::path::Path::new(path).file_stem().and_then(|stem| stem.to_str()).map(|stem| stem.to_string())
}

/// The default id of an imported state: `terraform:<lineage>:<serial>`,
/// `terraform:<lineage>` without a serial, else `terraform:` and the state
/// file's stem (`state` without one).
pub open spec fn state_id_spec(
    lineage: Option<Seq<char>>,
    serial: Option<i64>,
    stem: Option<Seq<char>>,
) -> Seq<char> {
    match lineage {
        Some(l) => match serial {
            Some(n) => "terraform:"@ + l + seq![':'] + int_text(n as int),
            None => "terraform:"@ + l,
        },
        None => "terraform:"@ + match stem {
            Some(s) => s,
            None => "state"@,
        },
    }
}

/// The default id of an imported state, given the state file's stem.
pub fn state_id_for(lineage: Option<&String>, serial: Option<i64>, stem: Option<&String>) -> (r: String)
    ensures
        r@ == state_id_spec(
            match lineage {
                Some(l) => Some(l@),
                None => None,
            },
            serial,
            match stem {
                Some(s) => Some(s@),
                None => None,
            },
        ),
{
    let mut id = "terraform:".to_owned();
    match lineage {
        Some(l) => {
            id.append(l.as_str());
            match serial {
                Some(n) => {
                    push_char(&mut id, ':');
                    let digits = int_string(n);
                    id.append(digits.as_str());
                },
                None => {},
            }
        },
        None => match stem {
            Some(s) => id.append(s.as_str()),
            None => id.append("state"),
        },
    }
    id
}

/// The default id of a state read from `path`.
pub fn default_state_id(path: &str, state: &TerraformState) -> (r: String)
    ensures
        r@ == state_id_spec(opt_view(state.lineage), state.serial, file_stem_of(path@)),
{
    let stem = file_stem(path);
    state_id_for(state.lineage.as_ref(), state.serial, stem.as_ref())
}

/// The id an import uses: the one asked for, else the default.
pub fn import_state_id(path: &str, state_id: Option<String>, state: &TerraformState) -> (r: String)
    ensures
        match state_id {
            Some(id) => r == id,
            None => r@ == state_id_spec(opt_view(state.lineage), state.serial, file_stem_of(path@)),
        },
{
    match state_id {
        Some(id) => id,
        None => default_state_id(path, state),
    }
}

} // verus!
