//! Building an account inventory from scanned AWS records: the merging
//! inventory builder, region selection, and the mapping of each kind of
//! scanned record to resources and relationships.
use vstd::prelude::*;
use vstd::string::*;

use crate::json::{
    clone_json, entries_view, find_member, json_object, lookup, object_of, opt_bool_json, opt_flag,
    opt_i32_json, opt_number, opt_str_json, opt_text, pairs_model, Json, JsonValue,
};
use crate::model::{
    relationship_uid, relationship_uid_spec, Evidence, Generator, Inventory, Relationship,
    Resource, ScanError, GENERATOR_NAME, GENERATOR_VERSION, SCHEMA_VERSION,
};
use crate::order::{
    keyed_map, keys_sorted, lemma_insert_sorted, lemma_keyed_map, lemma_keyed_map_insert,
    lemma_keyed_map_update, lemma_lt_irreflexive, locate, seq_has, seq_lt, sorted_distinct, texts,
    Keyed,
};
use crate::model::{aws_uid_spec, resource_uid, uid_for_arn, uid_for_arn_spec};
use crate::tags::{pairs_extend, pairs_get, pairs_insert, pairs_map};
use crate::text::{
    split_all, split_all_spec, starts_with, starts_with_spec, str_eq, trim, trim_spec,
};

verus! {

/// What to scan: the credentials profile, the regions (a comma-separated
/// list, or `all`), the home region, and whether to keep raw attributes.
#[derive(Clone, Debug)]
pub struct ScanOptions {
    pub profile: Option<String>,
    pub regions: String,
    pub home_region: String,
    pub include_raw: bool,
}

impl Keyed for Resource {
    open spec fn key_spec(&self) -> Seq<char> {
        self.uid@
    }

    fn key(&self) -> (r: &str) {
        self.uid.as_str()
    }
}

impl Keyed for Relationship {
    open spec fn key_spec(&self) -> Seq<char> {
        self.uid@
    }

    fn key(&self) -> (r: &str) {
        self.uid.as_str()
    }
}

/// Whether `j` is the empty JSON object.
pub open spec fn is_empty_object(j: Json) -> bool {
    j == Json::Object(Seq::empty())
}

/// `existing` followed by each member of `incoming` whose key it does not hold yet.
pub open spec fn add_missing(
    existing: Seq<(Seq<char>, Json)>,
    incoming: Seq<(Seq<char>, Json)>,
) -> Seq<(Seq<char>, Json)>
    decreases incoming.len(),
{
    if incoming.len() == 0 {
        existing
    } else {
        let prev = add_missing(existing, incoming.drop_last());
        if lookup(prev, incoming.last().0) is Some {
            prev
        } else {
            prev.push(incoming.last())
        }
    }
}

/// The attributes of a resource seen twice: null or empty incoming
/// attributes change nothing; null or empty existing attributes are
/// replaced; two objects are merged with the existing members winning;
/// anything else keeps the existing value.
pub open spec fn merge_attributes_spec(existing: Json, incoming: Json) -> Json {
    if incoming is Null || is_empty_object(incoming) {
        existing
    } else if existing is Null || is_empty_object(existing) {
        incoming
    } else {
        match (existing, incoming) {
            (Json::Object(e), Json::Object(i)) => Json::Object(add_missing(e, i)),
            _ => existing,
        }
    }
}

fn is_empty_object_value(v: &JsonValue) -> (r: bool)
    ensures
        r == is_empty_object(v@),
{
    broadcast use crate::json::group_json_view;

    match v {
        JsonValue::Object(entries) => {
            if entries.len() == 0 {
                assert(entries_view(entries@) =~= Seq::<(Seq<char>, Json)>::empty());
                true
            } else {
                assert(entries_view(entries@).len() == entries@.len());
                false
            }
        },
        _ => false,
    }
}

fn add_missing_members(existing: &mut Vec<(String, JsonValue)>, incoming: &Vec<(String, JsonValue)>)
    ensures
        entries_view(final(existing)@) == add_missing(
            entries_view(old(existing)@),
            entries_view(incoming@),
        ),
{
    broadcast use crate::json::group_json_view;

    let ghost e0 = entries_view(existing@);
    let ghost inc = entries_view(incoming@);
    let mut i: usize = 0;
    while i < incoming.len()
        invariant
            i <= incoming@.len(),
            inc == entries_view(incoming@),
            inc.len() == incoming@.len(),
            entries_view(existing@) == add_missing(e0, inc.take(i as int)),
        decreases incoming@.len() - i,
    {
        assert(inc.take(i + 1).drop_last() =~= inc.take(i as int));
        assert(inc.take(i + 1).last() == inc[i as int]);
        let found = find_member(existing, incoming[i].0.as_str());
        proof {
            let ev = entries_view(existing@);
            crate::json::lemma_entries_view_len(existing@);
            crate::json::lemma_entries_view_index(incoming@, i as int);
            match found {
                Some(k) => {
                    assert forall|j: int| 0 <= j < k implies ev[j].0 != inc[i as int].0 by {
                        crate::json::lemma_entries_view_index(existing@, j);
                    }
                    crate::json::lemma_entries_view_index(existing@, k as int);
                    crate::json::lemma_lookup_found(ev, inc[i as int].0, k as int);
                },
                None => {
                    assert forall|j: int| 0 <= j < ev.len() implies ev[j].0 != inc[i as int].0 by {
                        crate::json::lemma_entries_view_index(existing@, j);
                    }
                    crate::json::lemma_lookup_missing(ev, inc[i as int].0);
                },
            }
        }
        if found.is_none() {
            let key = incoming[i].0.clone();
            let value = clone_json(&incoming[i].1);
            let ghost before = existing@;
            existing.push((key, value));
            assert(existing@.drop_last() =~= before);
        }
        i += 1;
    }
    assert(inc.take(i as int) =~= inc);
}

/// Merges the attributes of a resource seen again into those it has.
pub fn merge_attributes(existing: &mut JsonValue, incoming: JsonValue)
    ensures
        final(existing)@ == merge_attributes_spec(old(existing)@, incoming@),
{
    broadcast use crate::json::group_json_view;

    if incoming.is_null() || is_empty_object_value(&incoming) {
        return;
    }
    if existing.is_null() || is_empty_object_value(existing) {
        *existing = incoming;
        return;
    }
    let mut current = JsonValue::Null;
    std::mem::swap(&mut current, existing);
    match current {
        JsonValue::Object(mut entries) => {
            match &incoming {
                JsonValue::Object(more) => {
                    add_missing_members(&mut entries, more);
                },
                _ => {},
            }
            *existing = JsonValue::Object(entries);
        },
        other => {
            *existing = other;
        },
    }
}

/// `a` when it holds a value, else `b`.
pub open spec fn first_some<T>(a: Option<T>, b: Option<T>) -> Option<T> {
    if a is Some {
        a
    } else {
        b
    }
}

/// `r` is `existing` with `incoming` merged into it: the identity fields
/// stay, the first known ARN, name and raw value win, incoming tags
/// override, attributes merge, and evidence accumulates.
pub open spec fn merged_resource(r: Resource, existing: Resource, incoming: Resource) -> bool {
    &&& r.uid == existing.uid
    &&& r.provider == existing.provider
    &&& r.account_id == existing.account_id
    &&& r.partition == existing.partition
    &&& r.region == existing.region
    &&& r.service == existing.service
    &&& r.resource_type == existing.resource_type
    &&& r.id == existing.id
    &&& r.arn == first_some(existing.arn, incoming.arn)
    &&& r.name == first_some(existing.name, incoming.name)
    &&& keys_sorted(r.tags@)
    &&& pairs_map(r.tags@) == pairs_map(existing.tags@).union_prefer_right(pairs_map(incoming.tags@))
    &&& r.attributes@ == merge_attributes_spec(existing.attributes@, incoming.attributes@)
    &&& r.evidence@ == existing.evidence@ + incoming.evidence@
    &&& r.raw == first_some(existing.raw, incoming.raw)
}

/// Merges a resource seen again into the one already held.
pub fn merge_resource(existing: Resource, incoming: Resource) -> (r: Resource)
    requires
        keys_sorted(existing.tags@),
    ensures
        merged_resource(r, existing, incoming),
{
    let mut r = existing;
    let incoming = incoming;
    if r.arn.is_none() {
        r.arn = incoming.arn;
    }
    if r.name.is_none() {
        r.name = incoming.name;
    }
    pairs_extend(&mut r.tags, incoming.tags);
    merge_attributes(&mut r.attributes, incoming.attributes);
    let mut extra = incoming.evidence;
    r.evidence.append(&mut extra);
    if r.raw.is_none() {
        r.raw = incoming.raw;
    }
    r
}

/// `after` is `before` with `r` added: a new uid maps to `r`, a known uid
/// to the merge of the held resource and `r`; all other uids keep theirs.
pub open spec fn resource_added(
    before: Map<Seq<char>, Resource>,
    after: Map<Seq<char>, Resource>,
    r: Resource,
) -> bool {
    &&& after.dom() == before.dom().insert(r.uid@)
    &&& forall|k: Seq<char>|
        before.contains_key(k) && k != r.uid@ ==> #[trigger] after[k] == before[k]
    &&& if before.contains_key(r.uid@) {
        merged_resource(after[r.uid@], before[r.uid@], r)
    } else {
        after[r.uid@] == r
    }
}

/// A new relationship holding one piece of evidence.
pub open spec fn new_relationship(
    r: Relationship,
    uid: Seq<char>,
    from: Seq<char>,
    relationship_type: Seq<char>,
    to: Seq<char>,
    evidence: Evidence,
    attributes: JsonValue,
) -> bool {
    &&& r.uid@ == uid
    &&& r.from@ == from
    &&& r.relationship_type@ == relationship_type
    &&& r.to@ == to
    &&& r.attributes == attributes
    &&& r.evidence@ == seq![evidence]
}

/// `r` is `held` with one more piece of evidence and nothing else changed.
pub open spec fn extended_relationship(r: Relationship, held: Relationship, evidence: Evidence) -> bool {
    &&& r.uid == held.uid
    &&& r.from == held.from
    &&& r.relationship_type == held.relationship_type
    &&& r.to == held.to
    &&& r.attributes == held.attributes
    &&& r.evidence@ == held.evidence@.push(evidence)
}

/// `after` is `before` with the relationship `from -type-> to` added: a
/// known uid gains the evidence, a new uid holds a new relationship.
pub open spec fn relationship_added(
    before: Map<Seq<char>, Relationship>,
    after: Map<Seq<char>, Relationship>,
    from: Seq<char>,
    relationship_type: Seq<char>,
    to: Seq<char>,
    evidence: Evidence,
    attributes: JsonValue,
) -> bool {
    let uid = relationship_uid_spec(from, relationship_type, to);
    &&& after.dom() == before.dom().insert(uid)
    &&& forall|k: Seq<char>|
        before.contains_key(k) && k != uid ==> #[trigger] after[k] == before[k]
    &&& if before.contains_key(uid) {
        extended_relationship(after[uid], before[uid], evidence)
    } else {
        new_relationship(after[uid], uid, from, relationship_type, to, evidence, attributes)
    }
}

/// A relationship a scan step records: its source, type, target and
/// attributes, and the observation that shows it.
pub struct Edge {
    pub from: Seq<char>,
    pub relationship_type: Seq<char>,
    pub to: Seq<char>,
    pub attributes: Json,
    pub seen: Observation,
}

/// The uid of an edge's relationship.
pub open spec fn edge_uid(e: Edge) -> Seq<char> {
    relationship_uid_spec(e.from, e.relationship_type, e.to)
}

/// Whether `r` joins the edge's source to its target with its type and attributes.
pub open spec fn holds_edge(r: Relationship, e: Edge) -> bool {
    &&& r.uid@ == edge_uid(e)
    &&& r.from@ == e.from
    &&& r.relationship_type@ == e.relationship_type
    &&& r.to@ == e.to
    &&& r.attributes@ == e.attributes
}

/// Whether one of `r`'s evidence entries records the observation.
pub open spec fn observed(r: Relationship, seen: Observation) -> bool {
    exists|i: int|
        0 <= i < r.evidence@.len() && evidence_is(
            #[trigger] r.evidence@[i],
            seen.service,
            seen.operation,
            seen.path,
            seen.collected_at,
        )
}

/// `a` is `b` with possibly more evidence appended.
pub open spec fn kept_relationship(b: Relationship, a: Relationship) -> bool {
    &&& a.uid == b.uid
    &&& a.from == b.from
    &&& a.relationship_type == b.relationship_type
    &&& a.to == b.to
    &&& a.attributes == b.attributes
    &&& b.evidence@.len() <= a.evidence@.len()
    &&& forall|i: int| 0 <= i < b.evidence@.len() ==> #[trigger] a.evidence@[i] == b.evidence@[i]
}

/// Every relationship of `b` is kept in `a`, gaining evidence at most.
pub open spec fn grows(b: Map<Seq<char>, Relationship>, a: Map<Seq<char>, Relationship>) -> bool {
    forall|k: Seq<char>| #[trigger] b.contains_key(k) ==> a.contains_key(k) && kept_relationship(b[k], a[k])
}

/// `a` is `b` after a step that records the given edges: what was held
/// only gains evidence, every edge is held with its observation, and every
/// new relationship is one of the edges, with its source, type, target and
/// attributes.
pub open spec fn edges_recorded(b: Map<Seq<char>, Relationship>, a: Map<Seq<char>, Relationship>, edges: Set<Edge>) -> bool {
    &&& grows(b, a)
    &&& forall|e: Edge| #[trigger] edges.contains(e) ==> a.contains_key(edge_uid(e)) && observed(a[edge_uid(e)], e.seen)
    &&& forall|k: Seq<char>|
        #[trigger] a.contains_key(k) && !b.contains_key(k) ==> exists|e: Edge|
            #[trigger] edges.contains(e) && edge_uid(e) == k && holds_edge(a[k], e)
}

/// A step that changes no relationship records no edge.
pub proof fn lemma_edges_none(m: Map<Seq<char>, Relationship>)
    ensures
        edges_recorded(m, m, Set::empty()),
{
}

/// Recording edges in two steps records the edges of both.
pub proof fn lemma_edges_chain(
    m0: Map<Seq<char>, Relationship>,
    m1: Map<Seq<char>, Relationship>,
    m2: Map<Seq<char>, Relationship>,
    a: Set<Edge>,
    b: Set<Edge>,
)
    requires
        edges_recorded(m0, m1, a),
        edges_recorded(m1, m2, b),
    ensures
        edges_recorded(m0, m2, a.union(b)),
{
    assert forall|k: Seq<char>| #[trigger] m0.contains_key(k) implies m2.contains_key(k) && kept_relationship(m0[k], m2[k]) by {
        assert(m1.contains_key(k));
        assert forall|i: int| 0 <= i < m0[k].evidence@.len() implies #[trigger] m2[k].evidence@[i] == m0[k].evidence@[i] by {
            assert(m1[k].evidence@[i] == m0[k].evidence@[i]);
        }
    }
    assert forall|e: Edge| #[trigger] a.union(b).contains(e) implies m2.contains_key(edge_uid(e)) && observed(m2[edge_uid(e)], e.seen) by {
        if a.contains(e) {
            let k = edge_uid(e);
            assert(m1.contains_key(k));
            let i = choose|i: int|
                0 <= i < m1[k].evidence@.len() && evidence_is(
                    #[trigger] m1[k].evidence@[i],
                    e.seen.service,
                    e.seen.operation,
                    e.seen.path,
                    e.seen.collected_at,
                );
            assert(m2[k].evidence@[i] == m1[k].evidence@[i]);
        } else {
            assert(b.contains(e));
        }
    }
    assert forall|k: Seq<char>| #[trigger] m2.contains_key(k) && !m0.contains_key(k) implies exists|e: Edge|
        #[trigger] a.union(b).contains(e) && edge_uid(e) == k && holds_edge(m2[k], e) by {
        if m1.contains_key(k) {
            let e = choose|e: Edge| #[trigger] a.contains(e) && edge_uid(e) == k && holds_edge(m1[k], e);
            assert(a.union(b).contains(e));
        } else {
            let e = choose|e: Edge| #[trigger] b.contains(e) && edge_uid(e) == k && holds_edge(m2[k], e);
            assert(a.union(b).contains(e));
        }
    }
}

/// A relationship added as `relationship_added` describes records its edge.
pub proof fn lemma_edge_added(
    before: Map<Seq<char>, Relationship>,
    after: Map<Seq<char>, Relationship>,
    from: Seq<char>,
    relationship_type: Seq<char>,
    to: Seq<char>,
    evidence: Evidence,
    attributes: JsonValue,
    seen: Observation,
)
    requires
        relationship_added(before, after, from, relationship_type, to, evidence, attributes),
        evidence_is(evidence, seen.service, seen.operation, seen.path, seen.collected_at),
    ensures
        edges_recorded(
            before,
            after,
            set![Edge { from, relationship_type, to, attributes: attributes@, seen }],
        ),
{
    let e = Edge { from, relationship_type, to, attributes: attributes@, seen };
    let uid = relationship_uid_spec(from, relationship_type, to);
    assert(after.contains_key(uid));
    if before.contains_key(uid) {
        let n = before[uid].evidence@.len() as int;
        assert(after[uid].evidence@[n] == evidence);
    } else {
        assert(after[uid].evidence@[0] == evidence);
    }
    assert forall|k: Seq<char>| #[trigger] after.contains_key(k) && !before.contains_key(k) implies exists|x: Edge|
        #[trigger] set![e].contains(x) && edge_uid(x) == k && holds_edge(after[k], x) by {
        assert(set![e].contains(e));
    }
}

/// Whether every resource keeps its tags sorted by key.
pub open spec fn tags_sorted(resources: Seq<Resource>) -> bool {
    forall|i: int| 0 <= i < resources.len() ==> keys_sorted(#[trigger] resources[i].tags@)
}

/// The observation of a step at the given time.
pub open spec fn observation(seen: (&str, &str, &str), collected_at: Seq<char>) -> Observation {
    Observation { service: seen.0@, operation: seen.1@, path: seen.2@, collected_at }
}

/// An edge without attributes.
pub open spec fn null_edge(from: Seq<char>, relationship_type: Seq<char>, to: Seq<char>, seen: Observation) -> Edge {
    Edge { from, relationship_type, to, attributes: Json::Null, seen }
}

/// Collects resources, relationships and errors while an account is
/// scanned. Resources and relationships are kept in uid order, each uid once.
pub struct InventoryBuilder {
    pub account_id: String,
    pub partition: String,
    pub home_region: String,
    pub regions: Vec<String>,
    /// RFC 3339 timestamp of the scan.
    pub collected_at: String,
    pub include_raw: bool,
    pub resources: Vec<Resource>,
    pub relationships: Vec<Relationship>,
    pub errors: Vec<ScanError>,
}

impl InventoryBuilder {
    /// Resources and relationships are sorted by uid; tags by key.
    pub open spec fn wf(&self) -> bool {
        &&& keys_sorted(self.resources@)
        &&& keys_sorted(self.relationships@)
        &&& tags_sorted(self.resources@)
    }

    /// The resources by uid.
    pub open spec fn resource_map(&self) -> Map<Seq<char>, Resource> {
        keyed_map(self.resources@)
    }

    /// The relationships by uid.
    pub open spec fn relationship_map(&self) -> Map<Seq<char>, Relationship> {
        keyed_map(self.relationships@)
    }

    /// The account-level fields, unchanged between `self` and `other`.
    pub open spec fn same_header(&self, other: &Self) -> bool {
        &&& self.account_id == other.account_id
        &&& self.partition == other.partition
        &&& self.home_region == other.home_region
        &&& self.regions == other.regions
        &&& self.collected_at == other.collected_at
        &&& self.include_raw == other.include_raw
    }

    /// An empty builder.
    pub fn new(
        account_id: String,
        partition: String,
        home_region: String,
        collected_at: String,
        include_raw: bool,
    ) -> (b: Self)
        ensures
            b.wf(),
            b.account_id == account_id,
            b.partition == partition,
            b.home_region == home_region,
            b.collected_at == collected_at,
            b.include_raw == include_raw,
            b.regions@.len() == 0,
            b.resources@.len() == 0,
            b.relationships@.len() == 0,
            b.errors@.len() == 0,
    {
        InventoryBuilder {
            account_id,
            partition,
            home_region,
            regions: Vec::new(),
            collected_at,
            include_raw,
            resources: Vec::new(),
            relationships: Vec::new(),
            errors: Vec::new(),
        }
    }

    /// Evidence of an observation made during this scan.
    pub fn evidence(&self, service: &str, operation: &str, path: &str) -> (e: Evidence)
        ensures
            e.service@ == service@,
            e.operation@ == operation@,
            e.path@ == path@,
            e.collected_at@ == self.collected_at@,
    {
        Evidence {
            service: service.to_owned(),
            operation: operation.to_owned(),
            path: path.to_owned(),
            collected_at: self.collected_at.clone(),
        }
    }

    /// Adds a resource, merging it into the one with the same uid if there is one.
    pub fn add_resource(&mut self, resource: Resource)
        requires
            old(self).wf(),
            keys_sorted(resource.tags@),
        ensures
            final(self).wf(),
            final(self).same_header(old(self)),
            final(self).relationships == old(self).relationships,
            final(self).errors == old(self).errors,
            resource_added(old(self).resource_map(), final(self).resource_map(), resource),
    {
        let ghost before = self.resources@;
        proof {
            lemma_keyed_map(before);
        }
        match locate(&self.resources, resource.uid.as_str()) {
            Ok(i) => {
                let existing = self.resources.remove(i);
                assert(existing == before[i as int]);
                let merged = merge_resource(existing, resource);
                self.resources.insert(i, merged);
                proof {
                    assert(self.resources@ =~= before.update(i as int, merged));
                    lemma_keyed_map_update(before, i as int, merged);
                    assert forall|j: int| 0 <= j < self.resources@.len() implies keys_sorted(
                        #[trigger] self.resources@[j].tags@,
                    ) by {
                        if j != i {
                            assert(self.resources@[j] == before[j]);
                        }
                    }
                }
            },
            Err(i) => {
                proof {
                    lemma_insert_sorted(before, i as int, resource);
                    lemma_keyed_map_insert(before, i as int, resource);
                    if keyed_map(before).contains_key(resource.uid@) {
                        let j = choose|j: int|
                            0 <= j < before.len() && before[j].key_spec() == resource.uid@;
                        lemma_lt_irreflexive(resource.uid@);
                        if j < i {
                            assert(seq_lt(before[j].key_spec(), resource.uid@));
                        } else {
                            assert(seq_lt(resource.uid@, before[j].key_spec()));
                        }
                    }
                }
                self.resources.insert(i, resource);
                proof {
                    assert forall|j: int| 0 <= j < self.resources@.len() implies keys_sorted(
                        #[trigger] self.resources@[j].tags@,
                    ) by {
                        if j < i {
                            assert(self.resources@[j] == before[j]);
                        } else if j > i {
                            assert(self.resources@[j] == before[j - 1]);
                        }
                    }
                }
            },
        }
    }

    /// Adds the relationship `from -type-> to`, or, when it is known
    /// already, adds the evidence to it.
    pub fn add_relationship(
        &mut self,
        from: &str,
        relationship_type: &str,
        to: &str,
        evidence: Evidence,
        attributes: JsonValue,
    )
        requires
            old(self).wf(),
        ensures
            final(self).wf(),
            final(self).same_header(old(self)),
            final(self).resources == old(self).resources,
            final(self).errors == old(self).errors,
            relationship_added(
                old(self).relationship_map(),
                final(self).relationship_map(),
                from@,
                relationship_type@,
                to@,
                evidence,
                attributes,
            ),
    {
        let uid = relationship_uid(from, relationship_type, to);
        let ghost before = self.relationships@;
        proof {
            lemma_keyed_map(before);
        }
        match locate(&self.relationships, uid.as_str()) {
            Ok(i) => {
                let mut held = self.relationships.remove(i);
                assert(held == before[i as int]);
                let ghost held0 = held;
                held.evidence.push(evidence);
                assert(extended_relationship(held, held0, evidence));
                self.relationships.insert(i, held);
                proof {
                    assert(self.relationships@ =~= before.update(i as int, held));
                    lemma_keyed_map_update(before, i as int, held);
                }
            },
            Err(i) => {
                let relationship = Relationship {
                    uid,
                    from: from.to_owned(),
                    to: to.to_owned(),
                    relationship_type: relationship_type.to_owned(),
                    attributes,
                    evidence: vec![evidence],
                };
                proof {
                    assert(relationship.evidence@ =~= seq![evidence]);
                    lemma_insert_sorted(before, i as int, relationship);
                    lemma_keyed_map_insert(before, i as int, relationship);
                    if keyed_map(before).contains_key(relationship.uid@) {
                        let j = choose|j: int|
                            0 <= j < before.len() && before[j].key_spec() == relationship.uid@;
                        lemma_lt_irreflexive(relationship.uid@);
                        if j < i {
                            assert(seq_lt(before[j].key_spec(), relationship.uid@));
                        } else {
                            assert(seq_lt(relationship.uid@, before[j].key_spec()));
                        }
                    }
                }
                self.relationships.insert(i, relationship);
            },
        }
    }

    /// Records a failed scan step.
    pub fn add_error(&mut self, service: &str, region: &str, operation: &str, message: String)
        requires
            old(self).wf(),
        ensures
            final(self).wf(),
            final(self).same_header(old(self)),
            final(self).resources == old(self).resources,
            final(self).relationships == old(self).relationships,
            final(self).errors@.len() == old(self).errors@.len() + 1,
            final(self).errors@.drop_last() == old(self).errors@,
            final(self).errors@.last().service@ == service@,
            final(self).errors@.last().region@ == region@,
            final(self).errors@.last().operation@ == operation@,
            final(self).errors@.last().message == message,
    {
        self.errors.push(
            ScanError {
                service: service.to_owned(),
                region: region.to_owned(),
                operation: operation.to_owned(),
                message,
            },
        );
    }

    /// The finished inventory: resources and relationships in uid order.
    pub fn finish(self) -> (inv: Inventory)
        requires
            self.wf(),
        ensures
            inv.schema_version@ == SCHEMA_VERSION@,
            inv.generator.name@ == GENERATOR_NAME@,
            inv.generator.version@ == GENERATOR_VERSION@,
            inv.account_id == self.account_id,
            inv.partition == self.partition,
            inv.home_region == self.home_region,
            inv.regions == self.regions,
            inv.collected_at == self.collected_at,
            inv.resources == self.resources,
            inv.relationships == self.relationships,
            inv.errors == self.errors,
            keys_sorted(inv.resources@),
            keys_sorted(inv.relationships@),
    {
        Inventory {
            schema_version: SCHEMA_VERSION.to_owned(),
            generator: Generator {
                name: GENERATOR_NAME.to_owned(),
                version: GENERATOR_VERSION.to_owned(),
            },
            account_id: self.account_id,
            partition: self.partition,
            home_region: self.home_region,
            regions: self.regions,
            collected_at: self.collected_at,
            resources: self.resources,
            relationships: self.relationships,
            errors: self.errors,
        }
    }
}


/// The distinct regions of `regions`, in sorted order.
pub fn dedupe_regions(regions: Vec<String>) -> (r: Vec<String>)
    ensures
        keys_sorted(r@),
        forall|x: Seq<char>| seq_has(texts(r@), x) <==> seq_has(texts(regions@), x),
{
    sorted_distinct(regions)
}

/// The non-empty trimmed pieces of a list, in order.
pub open spec fn nonempty_trimmed(pieces: Seq<Seq<char>>) -> Seq<Seq<char>>
    decreases pieces.len(),
{
    if pieces.len() == 0 {
        Seq::empty()
    } else {
        let prev = nonempty_trimmed(pieces.drop_last());
        let t = trim_spec(pieces.last());
        if t.len() == 0 {
            prev
        } else {
            prev.push(t)
        }
    }
}

/// The word that asks for every enabled region.
pub open spec fn all_word() -> Seq<char> {
    seq!['a', 'l', 'l']
}

/// The regions the options name: `None` when they ask for all enabled
/// regions, else the distinct non-empty trimmed entries of the
/// comma-separated list, sorted.
pub fn requested_regions(options: &ScanOptions) -> (r: Option<Vec<String>>)
    ensures
        match r {
            None => trim_spec(options.regions@) == all_word(),
            Some(v) => trim_spec(options.regions@) != all_word() && keys_sorted(v@) && forall|
                x: Seq<char>,
            |
                seq_has(texts(v@), x) <==> seq_has(
                    nonempty_trimmed(split_all_spec(options.regions@, ',')),
                    x,
                ),
        },
{
    let trimmed = trim(options.regions.as_str());
    proof {
        reveal_strlit("all");
        assert("all"@ =~= all_word());
    }
    if str_eq(trimmed.as_str(), "all") {
        return None;
    }
    let pieces = split_all(options.regions.as_str(), ',');
    let ghost pv = pieces.deep_view();
    let mut listed: Vec<String> = Vec::new();
    let mut i: usize = 0;
    while i < pieces.len()
        invariant
            i <= pieces@.len(),
            pv == pieces.deep_view(),
            pv.len() == pieces@.len(),
            texts(listed@) == nonempty_trimmed(pv.take(i as int)),
        decreases pieces@.len() - i,
    {
        assert(pv.take(i + 1).drop_last() =~= pv.take(i as int));
        assert(pv.take(i + 1).last() == pieces@[i as int]@);
        let t = trim(pieces[i].as_str());
        if t.unicode_len() > 0 {
            let ghost before = listed@;
            listed.push(t);
            assert(texts(listed@) =~= texts(before).push(t@));
        }
        i += 1;
    }
    assert(pv.take(i as int) =~= pv);
    Some(dedupe_regions(listed))
}

/// The regions to scan when every enabled region was asked for: the
/// distinct discovered regions, or the home region when discovery found
/// none or failed; a failure is recorded.
pub fn regions_from_discovery(
    builder: &mut InventoryBuilder,
    discovered: Result<Vec<String>, String>,
) -> (r: Vec<String>)
    requires
        old(builder).wf(),
    ensures
        final(builder).wf(),
        final(builder).same_header(old(builder)),
        final(builder).resources == old(builder).resources,
        final(builder).relationships == old(builder).relationships,
        match discovered {
            Ok(found) => final(builder).errors == old(builder).errors && (if found@.len() == 0 {
                texts(r@) == seq![old(builder).home_region@]
            } else {
                keys_sorted(r@) && forall|x: Seq<char>|
                    seq_has(texts(r@), x) <==> seq_has(texts(found@), x)
            }),
            Err(message) => texts(r@) == seq![old(builder).home_region@]
                && final(builder).errors@.len() == old(builder).errors@.len() + 1
                && final(builder).errors@.drop_last() == old(builder).errors@
                && final(builder).errors@.last().service@ == "ec2"@
                && final(builder).errors@.last().region@ == old(builder).home_region@
                && final(builder).errors@.last().operation@ == "DescribeRegions"@
                && final(builder).errors@.last().message == message,
        },
{
    match discovered {
        Ok(found) => {
            if found.len() == 0 {
                let r = vec![builder.home_region.clone()];
                assert(texts(r@) =~= seq![builder.home_region@]);
                r
            } else {
                dedupe_regions(found)
            }
        },
        Err(message) => {
            let home = builder.home_region.clone();
            builder.add_error("ec2", home.as_str(), "DescribeRegions", message);
            let r = vec![home];
            assert(texts(r@) =~= seq![builder.home_region@]);
            r
        },
    }
}

/// The region of an S3 bucket from its location constraint: none or empty
/// means `us-east-1`, the legacy `EU` means `eu-west-1`.
pub open spec fn normalize_s3_region_spec(location_constraint: Option<Seq<char>>) -> Seq<char> {
    match location_constraint {
        None => "us-east-1"@,
        Some(c) => if c.len() == 0 {
            "us-east-1"@
        } else if c == "EU"@ {
            "eu-west-1"@
        } else {
            c
        },
    }
}

/// The region of an S3 bucket from its location constraint.
pub fn normalize_s3_region(location_constraint: Option<&str>) -> (r: String)
    ensures
        r@ == normalize_s3_region_spec(
            match location_constraint {
                Some(c) => Some(c@),
                None => None,
            },
        ),
{
    match location_constraint {
        None => "us-east-1".to_owned(),
        Some(c) => {
            if c.unicode_len() == 0 {
                "us-east-1".to_owned()
            } else if str_eq(c, "EU") {
                "eu-west-1".to_owned()
            } else {
                c.to_owned()
            }
        },
    }
}

/// The resource type a route target id names, by its prefix.
pub open spec fn route_target_type(target_id: Seq<char>) -> Seq<char> {
    if starts_with_spec(target_id, "igw-"@) {
        "internet-gateway"@
    } else if starts_with_spec(target_id, "nat-"@) {
        "nat-gateway"@
    } else if starts_with_spec(target_id, "tgw-"@) {
        "transit-gateway"@
    } else if starts_with_spec(target_id, "pcx-"@) {
        "vpc-peering-connection"@
    } else if starts_with_spec(target_id, "eigw-"@) {
        "egress-only-internet-gateway"@
    } else {
        "route-target"@
    }
}

/// A route target is typed by the prefix of its id: `igw-` an internet gateway,
/// `nat-` a NAT gateway, `tgw-` a transit gateway, `pcx-` a VPC peering
/// connection, `eigw-` an egress-only internet gateway; any other id is a
/// plain route target (the type that `ec2_target_uid` puts in its uid).
pub proof fn law_route_target_type(t: Seq<char>)
    ensures
        t.len() >= 4 && t.take(4) == seq!['i', 'g', 'w', '-'] ==> route_target_type(t) == "internet-gateway"@,
        t.len() >= 4 && t.take(4) == seq!['n', 'a', 't', '-'] ==> route_target_type(t) == "nat-gateway"@,
        t.len() >= 4 && t.take(4) == seq!['t', 'g', 'w', '-'] ==> route_target_type(t) == "transit-gateway"@,
        t.len() >= 4 && t.take(4) == seq!['p', 'c', 'x', '-'] ==> route_target_type(t) == "vpc-peering-connection"@,
        t.len() >= 5 && t.take(5) == seq!['e', 'i', 'g', 'w', '-'] ==> route_target_type(t)
            == "egress-only-internet-gateway"@,
        (t.len() < 4 || (t[0] != 'i' && t[0] != 'n' && t[0] != 't' && t[0] != 'p' && t[0] != 'e'))
            ==> route_target_type(t) == "route-target"@,
{
    reveal_strlit("igw-");
    reveal_strlit("nat-");
    reveal_strlit("tgw-");
    reveal_strlit("pcx-");
    reveal_strlit("eigw-");
    assert("igw-"@ =~= seq!['i', 'g', 'w', '-']);
    assert("nat-"@ =~= seq!['n', 'a', 't', '-']);
    assert("tgw-"@ =~= seq!['t', 'g', 'w', '-']);
    assert("pcx-"@ =~= seq!['p', 'c', 'x', '-']);
    assert("eigw-"@ =~= seq!['e', 'i', 'g', 'w', '-']);
    if t.len() >= 4 {
        assert(t.take(4)[0] == t[0]);
        assert(t.subrange(0, 4) == t.take(4));
    }
    if t.len() >= 5 {
        assert(t.take(5)[0] == t[0]);
        assert(t.subrange(0, 5) == t.take(5));
    }
}

/// The uid of the EC2 resource a route points at.
pub fn ec2_target_uid(account_id: &str, region: &str, target_id: &str) -> (r: String)
    ensures
        r@ == aws_uid_spec(account_id@, region@, "ec2"@, route_target_type(target_id@), target_id@),
{
    let resource_type = if starts_with(target_id, "igw-") {
        "internet-gateway"
    } else if starts_with(target_id, "nat-") {
        "nat-gateway"
    } else if starts_with(target_id, "tgw-") {
        "transit-gateway"
    } else if starts_with(target_id, "pcx-") {
        "vpc-peering-connection"
    } else if starts_with(target_id, "eigw-") {
        "egress-only-internet-gateway"
    } else {
        "route-target"
    };
    resource_uid(account_id, region, "ec2", resource_type, target_id)
}

/// A copy of `value` when raw attributes are kept.
pub fn maybe_raw(include_raw: bool, value: &JsonValue) -> (r: Option<JsonValue>)
    ensures
        r is Some <==> include_raw,
        r is Some ==> r->0@ == value@,
{
    if include_raw {
        Some(clone_json(value))
    } else {
        None
    }
}


/// A tag of an EC2 resource; EC2 may leave out the key or the value.
#[derive(Clone, Debug)]
pub struct Ec2Tag {
    pub key: Option<String>,
    pub value: Option<String>,
}

/// The tags of an EC2 resource that have both a key and a value, later
/// tags winning on a repeated key.
pub open spec fn ec2_tags_spec(tags: Seq<Ec2Tag>) -> Map<Seq<char>, Seq<char>>
    decreases tags.len(),
{
    if tags.len() == 0 {
        Map::empty()
    } else {
        let prev = ec2_tags_spec(tags.drop_last());
        match (tags.last().key, tags.last().value) {
            (Some(k), Some(v)) => prev.insert(k@, v@),
            _ => prev,
        }
    }
}

/// The tags of an EC2 resource that have both a key and a value.
pub fn ec2_tags(tags: &Vec<Ec2Tag>) -> (r: Vec<(String, String)>)
    ensures
        keys_sorted(r@),
        pairs_map(r@) == ec2_tags_spec(tags@),
{
    let mut out: Vec<(String, String)> = Vec::new();
    let mut i: usize = 0;
    assert(pairs_map(out@) =~= ec2_tags_spec(tags@.take(0)));
    while i < tags.len()
        invariant
            i <= tags@.len(),
            keys_sorted(out@),
            pairs_map(out@) == ec2_tags_spec(tags@.take(i as int)),
        decreases tags@.len() - i,
    {
        assert(tags@.take(i + 1).drop_last() =~= tags@.take(i as int));
        match (&tags[i].key, &tags[i].value) {
            (Some(k), Some(v)) => {
                pairs_insert(&mut out, k.clone(), v.clone());
            },
            _ => {},
        }
        i += 1;
    }
    assert(tags@.take(i as int) =~= tags@);
    out
}

/// The value of `key` in a map, when present.
pub open spec fn map_get(m: Map<Seq<char>, Seq<char>>, key: Seq<char>) -> Option<Seq<char>> {
    if m.contains_key(key) {
        Some(m[key])
    } else {
        None
    }
}

/// The text of a present string.
pub open spec fn opt_view(o: Option<String>) -> Option<Seq<char>> {
    match o {
        Some(s) => Some(s@),
        None => None,
    }
}

/// The value of the `Name` tag, when there is one.
fn name_tag(tags: &Vec<(String, String)>) -> (r: Option<String>)
    requires
        keys_sorted(tags@),
    ensures
        opt_view(r) == map_get(pairs_map(tags@), "Name"@),
{
    match pairs_get(tags, "Name") {
        Some(v) => Some(v.clone()),
        None => None,
    }
}

/// `e` records the given observation.
pub open spec fn evidence_is(
    e: Evidence,
    service: Seq<char>,
    operation: Seq<char>,
    path: Seq<char>,
    collected_at: Seq<char>,
) -> bool {
    &&& e.service@ == service
    &&& e.operation@ == operation
    &&& e.path@ == path
    &&& e.collected_at@ == collected_at
}

/// Where and when a resource was observed.
pub struct Observation {
    pub service: Seq<char>,
    pub operation: Seq<char>,
    pub path: Seq<char>,
    pub collected_at: Seq<char>,
}

/// The fields that make up an AWS resource.
pub struct AwsFields {
    pub uid: Seq<char>,
    pub account_id: Seq<char>,
    pub partition: Seq<char>,
    pub region: Seq<char>,
    pub service: Seq<char>,
    pub resource_type: Seq<char>,
    pub id: Seq<char>,
    pub arn: Option<Seq<char>>,
    pub name: Option<Seq<char>>,
    pub tags: Map<Seq<char>, Seq<char>>,
    pub attributes: Json,
    pub keep_raw: bool,
}

/// `r` is the AWS resource with the given fields, observed once.
pub open spec fn aws_resource_is(r: Resource, f: AwsFields, seen: Observation) -> bool {
    &&& r.uid@ == f.uid
    &&& r.provider@ == "aws"@
    &&& r.account_id@ == f.account_id
    &&& r.partition@ == f.partition
    &&& r.region@ == f.region
    &&& r.service@ == f.service
    &&& r.resource_type@ == f.resource_type
    &&& r.id@ == f.id
    &&& opt_view(r.arn) == f.arn
    &&& opt_view(r.name) == f.name
    &&& keys_sorted(r.tags@)
    &&& pairs_map(r.tags@) == f.tags
    &&& r.attributes@ == f.attributes
    &&& r.evidence@.len() == 1
    &&& evidence_is(r.evidence@[0], seen.service, seen.operation, seen.path, seen.collected_at)
    &&& (r.raw is Some <==> f.keep_raw)
    &&& (r.raw is Some ==> r.raw->0@ == f.attributes)
}

/// The ARN of an EC2 resource: `arn:partition:ec2:region:account:kind/id`.
pub open spec fn ec2_arn_spec(
    partition: Seq<char>,
    region: Seq<char>,
    account_id: Seq<char>,
    kind: Seq<char>,
    id: Seq<char>,
) -> Seq<char> {
    "arn:"@ + partition + ":ec2:"@ + region + ":"@ + account_id + ":"@ + kind + "/"@ + id
}

/// The ARN of an EC2 resource.
pub fn ec2_arn(partition: &str, region: &str, account_id: &str, kind: &str, id: &str) -> (r: String)
    ensures
        r@ == ec2_arn_spec(partition@, region@, account_id@, kind@, id@),
{
    let mut out = "arn:".to_owned();
    out.append(partition);
    out.append(":ec2:");
    out.append(region);
    out.append(":");
    out.append(account_id);
    out.append(":");
    out.append(kind);
    out.append("/");
    out.append(id);
    out
}

impl InventoryBuilder {
    /// Adds the AWS resource with the given fields, observed now.
    pub fn add_aws_resource(
        &mut self,
        uid: String,
        account_id: String,
        partition: String,
        region: &str,
        service: &str,
        resource_type: &str,
        id: &str,
        arn: Option<String>,
        name: Option<String>,
        tags: Vec<(String, String)>,
        attributes: JsonValue,
        keep_raw: bool,
        seen: (&str, &str, &str),
    )
        requires
            old(self).wf(),
            keys_sorted(tags@),
        ensures
            final(self).wf(),
            final(self).same_header(old(self)),
            final(self).relationships == old(self).relationships,
            final(self).errors == old(self).errors,
            exists|r: Resource|
                resource_added(old(self).resource_map(), final(self).resource_map(), r)
                    && aws_resource_is(
                    r,
                    AwsFields {
                        uid: uid@,
                        account_id: account_id@,
                        partition: partition@,
                        region: region@,
                        service: service@,
                        resource_type: resource_type@,
                        id: id@,
                        arn: opt_view(arn),
                        name: opt_view(name),
                        tags: pairs_map(tags@),
                        attributes: attributes@,
                        keep_raw,
                    },
                    Observation {
                        service: seen.0@,
                        operation: seen.1@,
                        path: seen.2@,
                        collected_at: old(self).collected_at@,
                    },
                ),
    {
        let raw = maybe_raw(keep_raw, &attributes);
        let evidence = self.evidence(seen.0, seen.1, seen.2);
        let resource = Resource {
            uid,
            provider: "aws".to_owned(),
            account_id,
            partition,
            region: region.to_owned(),
            service: service.to_owned(),
            resource_type: resource_type.to_owned(),
            id: id.to_owned(),
            arn,
            name,
            tags,
            attributes,
            evidence: vec![evidence],
            raw,
        };
        let ghost r = resource;
        self.add_resource(resource);
        assert(r.evidence@[0] == evidence);
    }

    /// Adds the relationship `from -type-> to` observed now, with no attributes.
    pub fn relate(&mut self, from: &str, relationship_type: &str, to: &str, seen: (&str, &str, &str))
        requires
            old(self).wf(),
        ensures
            final(self).wf(),
            final(self).same_header(old(self)),
            final(self).resources == old(self).resources,
            final(self).errors == old(self).errors,
            exists|e: Evidence|
                relationship_added(
                    old(self).relationship_map(),
                    final(self).relationship_map(),
                    from@,
                    relationship_type@,
                    to@,
                    e,
                    JsonValue::Null,
                ) && evidence_is(e, seen.0@, seen.1@, seen.2@, old(self).collected_at@),
            edges_recorded(
                old(self).relationship_map(),
                final(self).relationship_map(),
                set![null_edge(from@, relationship_type@, to@, observation(seen, old(self).collected_at@))],
            ),
    {
        let e = self.evidence(seen.0, seen.1, seen.2);
        let ghost before = self.relationship_map();
        self.add_relationship(from, relationship_type, to, e, JsonValue::Null);
        proof {
            lemma_edge_added(
                before,
                self.relationship_map(),
                from@,
                relationship_type@,
                to@,
                e,
                JsonValue::Null,
                observation(seen, old(self).collected_at@),
            );
        }
    }
}


/// A VPC as EC2 describes it.
#[derive(Clone, Debug)]
pub struct VpcRecord {
    pub vpc_id: Option<String>,
    pub cidr_block: Option<String>,
    pub state: Option<String>,
    pub is_default: Option<bool>,
    pub owner_id: Option<String>,
    pub tags: Vec<Ec2Tag>,
}

/// The attributes kept for a VPC.
pub open spec fn vpc_attributes(v: VpcRecord) -> Json {
    object_of(
        seq![
            ("cidr_block"@, opt_text(v.cidr_block)),
            ("state"@, opt_text(v.state)),
            ("is_default"@, opt_flag(v.is_default)),
            ("owner_id"@, opt_text(v.owner_id)),
        ],
    )
}

/// The fields of the EC2 resource of kind `resource_type` (ARN kind
/// `arn_kind`) with id `id` in `region`, named by its `Name` tag.
pub open spec fn ec2_fields(
    b: InventoryBuilder,
    region: Seq<char>,
    resource_type: Seq<char>,
    arn_kind: Seq<char>,
    id: Seq<char>,
    tags: Map<Seq<char>, Seq<char>>,
    name: Option<Seq<char>>,
    attributes: Json,
) -> AwsFields {
    AwsFields {
        uid: ec2_uid(b.account_id@, region, resource_type, id),
        account_id: b.account_id@,
        partition: b.partition@,
        region,
        service: "ec2"@,
        resource_type,
        id,
        arn: Some(ec2_arn_spec(b.partition@, region, b.account_id@, arn_kind, id)),
        name,
        tags,
        attributes,
        keep_raw: b.include_raw,
    }
}

/// An observation made by this builder's scan.
pub open spec fn seen_by(
    b: InventoryBuilder,
    service: Seq<char>,
    operation: Seq<char>,
    path: Seq<char>,
) -> Observation {
    Observation { service, operation, path, collected_at: b.collected_at@ }
}

/// The uid of an EC2 resource of this builder's account.
pub open spec fn ec2_uid(account_id: Seq<char>, region: Seq<char>, kind: Seq<char>, id: Seq<char>) -> Seq<
    char,
> {
    aws_uid_spec(account_id, region, "ec2"@, kind, id)
}

/// Nothing but the resources and relationships changed.
pub open spec fn only_graph_changed(after: InventoryBuilder, before: InventoryBuilder) -> bool {
    &&& after.wf()
    &&& after.same_header(&before)
    &&& after.errors == before.errors
}

impl InventoryBuilder {
    /// Adds a described VPC; one without an id is skipped.
    pub fn add_vpc(&mut self, region: &str, vpc: &VpcRecord)
        requires
            old(self).wf(),
        ensures
            only_graph_changed(*final(self), *old(self)),
            final(self).relationships == old(self).relationships,
            match vpc.vpc_id {
                None => final(self).resources == old(self).resources,
                Some(id) => exists|r: Resource|
                    resource_added(old(self).resource_map(), final(self).resource_map(), r)
                        && aws_resource_is(
                        r,
                        ec2_fields(
                            *old(self),
                            region@,
                            "vpc"@,
                            "vpc"@,
                            id@,
                            ec2_tags_spec(vpc.tags@),
                            map_get(ec2_tags_spec(vpc.tags@), "Name"@),
                            vpc_attributes(*vpc),
                        ),
                        seen_by(*old(self), "ec2"@, "DescribeVpcs"@, "$.Vpcs[]"@),
                    ),
            },
    {
        let id = match &vpc.vpc_id {
            Some(id) => id,
            None => {
                return;
            },
        };
        let tags = ec2_tags(&vpc.tags);
        let name = name_tag(&tags);
        let entries = vec![
            ("cidr_block", opt_str_json(&vpc.cidr_block)),
            ("state", opt_str_json(&vpc.state)),
            ("is_default", opt_bool_json(vpc.is_default)),
            ("owner_id", opt_str_json(&vpc.owner_id)),
        ];
        assert(pairs_model(entries@) =~= seq![
            ("cidr_block"@, opt_text(vpc.cidr_block)),
            ("state"@, opt_text(vpc.state)),
            ("is_default"@, opt_flag(vpc.is_default)),
            ("owner_id"@, opt_text(vpc.owner_id)),
        ]);
        let attributes = json_object(entries);
        let arn = ec2_arn(self.partition.as_str(), region, self.account_id.as_str(), "vpc", id.as_str());
        let uid = resource_uid(self.account_id.as_str(), region, "ec2", "vpc", id.as_str());
        let account_id = self.account_id.clone();
        let partition = self.partition.clone();
        let keep_raw = self.include_raw;
        self.add_aws_resource(
            uid,
            account_id,
            partition,
            region,
            "ec2",
            "vpc",
            id.as_str(),
            Some(arn),
            name,
            tags,
            attributes,
            keep_raw,
            ("ec2", "DescribeVpcs", "$.Vpcs[]"),
        );
    }
}


/// The relationship keys of `before` are all kept in `after`.
pub open spec fn grew(before: Map<Seq<char>, Relationship>, after: Map<Seq<char>, Relationship>) -> bool {
    forall|k: Seq<char>| before.contains_key(k) ==> #[trigger] after.contains_key(k)
}

/// Whether the relationship `from -type-> to` is held.
pub open spec fn has_relationship(
    m: Map<Seq<char>, Relationship>,
    from: Seq<char>,
    relationship_type: Seq<char>,
    to: Seq<char>,
) -> bool {
    m.contains_key(relationship_uid_spec(from, relationship_type, to))
}

/// The relationship `from -type-> to` was added to `before`, giving
/// `after`, with the given evidence and no attributes.
pub open spec fn related(
    before: Map<Seq<char>, Relationship>,
    after: Map<Seq<char>, Relationship>,
    from: Seq<char>,
    relationship_type: Seq<char>,
    to: Seq<char>,
    seen: Observation,
) -> bool {
    exists|e: Evidence|
        relationship_added(before, after, from, relationship_type, to, e, JsonValue::Null)
            && evidence_is(e, seen.service, seen.operation, seen.path, seen.collected_at)
}

impl InventoryBuilder {
    /// Adds an EC2 resource of this builder's account, observed now.
    pub fn add_ec2_resource(
        &mut self,
        region: &str,
        resource_type: &str,
        arn_kind: &str,
        id: &str,
        tags: Vec<(String, String)>,
        name: Option<String>,
        attributes: JsonValue,
        seen: (&str, &str),
    ) -> (uid: String)
        requires
            old(self).wf(),
            keys_sorted(tags@),
        ensures
            only_graph_changed(*final(self), *old(self)),
            final(self).relationships == old(self).relationships,
            uid@ == ec2_uid(old(self).account_id@, region@, resource_type@, id@),
            exists|r: Resource|
                resource_added(old(self).resource_map(), final(self).resource_map(), r)
                    && aws_resource_is(
                    r,
                    ec2_fields(
                        *old(self),
                        region@,
                        resource_type@,
                        arn_kind@,
                        id@,
                        pairs_map(tags@),
                        opt_view(name),
                        attributes@,
                    ),
                    seen_by(*old(self), "ec2"@, seen.0@, seen.1@),
                ),
    {
        let arn = ec2_arn(self.partition.as_str(), region, self.account_id.as_str(), arn_kind, id);
        let uid = resource_uid(self.account_id.as_str(), region, "ec2", resource_type, id);
        let account_id = self.account_id.clone();
        let partition = self.partition.clone();
        let keep_raw = self.include_raw;
        self.add_aws_resource(
            uid.clone(),
            account_id,
            partition,
            region,
            "ec2",
            resource_type,
            id,
            Some(arn),
            name,
            tags,
            attributes,
            keep_raw,
            ("ec2", seen.0, seen.1),
        );
        uid
    }
}

/// A subnet as EC2 describes it.
#[derive(Clone, Debug)]
pub struct SubnetRecord {
    pub subnet_id: Option<String>,
    pub vpc_id: Option<String>,
    pub cidr_block: Option<String>,
    pub availability_zone: Option<String>,
    pub availability_zone_id: Option<String>,
    pub map_public_ip_on_launch: Option<bool>,
    pub available_ip_address_count: Option<i32>,
    pub tags: Vec<Ec2Tag>,
}

/// The attributes kept for a subnet.
pub open spec fn subnet_attributes(v: SubnetRecord) -> Json {
    object_of(
        seq![
            ("vpc_id"@, opt_text(v.vpc_id)),
            ("cidr_block"@, opt_text(v.cidr_block)),
            ("availability_zone"@, opt_text(v.availability_zone)),
            ("availability_zone_id"@, opt_text(v.availability_zone_id)),
            ("map_public_ip_on_launch"@, opt_flag(v.map_public_ip_on_launch)),
            ("available_ip_address_count"@, opt_number(v.available_ip_address_count)),
        ],
    )
}

/// The relationship from `from` to the VPC `vpc_id`, when there is one, was added.
pub open spec fn vpc_related(
    before: InventoryBuilder,
    after: InventoryBuilder,
    region: Seq<char>,
    from: Seq<char>,
    vpc_id: Option<String>,
    seen: Observation,
) -> bool {
    match vpc_id {
        None => after.relationships == before.relationships,
        Some(v) => related(
            before.relationship_map(),
            after.relationship_map(),
            from,
            "in_vpc"@,
            ec2_uid(before.account_id@, region, "vpc"@, v@),
            seen,
        ),
    }
}

impl InventoryBuilder {
    /// Adds a described subnet and its VPC relationship; one without an id is skipped.
    pub fn add_subnet(&mut self, region: &str, subnet: &SubnetRecord)
        requires
            old(self).wf(),
        ensures
            only_graph_changed(*final(self), *old(self)),
            match subnet.subnet_id {
                None => final(self).resources == old(self).resources && final(self).relationships
                    == old(self).relationships,
                Some(id) => (exists|mid: InventoryBuilder|
                    {
                        &&& mid.relationships == old(self).relationships
                        &&& mid.same_header(old(self))
                        &&& final(self).resources == mid.resources
                        &&& exists|r: Resource|
                            resource_added(old(self).resource_map(), mid.resource_map(), r)
                                && aws_resource_is(
                                r,
                                ec2_fields(
                                    *old(self),
                                    region@,
                                    "subnet"@,
                                    "subnet"@,
                                    id@,
                                    ec2_tags_spec(subnet.tags@),
                                    map_get(ec2_tags_spec(subnet.tags@), "Name"@),
                                    subnet_attributes(*subnet),
                                ),
                                seen_by(*old(self), "ec2"@, "DescribeSubnets"@, "$.Subnets[]"@),
                            )
                        &&& vpc_related(
                            mid,
                            *final(self),
                            region@,
                            ec2_uid(old(self).account_id@, region@, "subnet"@, id@),
                            subnet.vpc_id,
                            seen_by(*old(self), "ec2"@, "DescribeSubnets"@, "$.Subnets[].VpcId"@),
                        )
                    }),
            },
            edges_recorded(
                old(self).relationship_map(),
                final(self).relationship_map(),
                match subnet.subnet_id {
                    Some(id) => opt_edge(
                        ec2_uid(old(self).account_id@, region@, "subnet"@, id@),
                        "in_vpc"@,
                        old(self).account_id@,
                        region@,
                        "vpc"@,
                        subnet.vpc_id,
                        seen_by(*old(self), "ec2"@, "DescribeSubnets"@, "$.Subnets[].VpcId"@),
                    ),
                    None => Set::empty(),
                },
            ),
    {
        let id = match &subnet.subnet_id {
            Some(id) => id,
            None => {
                proof {
                    lemma_edges_none(self.relationship_map());
                }
                return;
            },
        };
        let tags = ec2_tags(&subnet.tags);
        let name = name_tag(&tags);
        let entries = vec![
            ("vpc_id", opt_str_json(&subnet.vpc_id)),
            ("cidr_block", opt_str_json(&subnet.cidr_block)),
            ("availability_zone", opt_str_json(&subnet.availability_zone)),
            ("availability_zone_id", opt_str_json(&subnet.availability_zone_id)),
            ("map_public_ip_on_launch", opt_bool_json(subnet.map_public_ip_on_launch)),
            ("available_ip_address_count", opt_i32_json(subnet.available_ip_address_count)),
        ];
        assert(pairs_model(entries@) =~= seq![
            ("vpc_id"@, opt_text(subnet.vpc_id)),
            ("cidr_block"@, opt_text(subnet.cidr_block)),
            ("availability_zone"@, opt_text(subnet.availability_zone)),
            ("availability_zone_id"@, opt_text(subnet.availability_zone_id)),
            ("map_public_ip_on_launch"@, opt_flag(subnet.map_public_ip_on_launch)),
            ("available_ip_address_count"@, opt_number(subnet.available_ip_address_count)),
        ]);
        let attributes = json_object(entries);
        let uid = self.add_ec2_resource(
            region,
            "subnet",
            "subnet",
            id.as_str(),
            tags,
            name,
            attributes,
            ("DescribeSubnets", "$.Subnets[]"),
        );
        let ghost mid = *self;
        self.relate_vpc(region, uid.as_str(), &subnet.vpc_id, ("ec2", "DescribeSubnets", "$.Subnets[].VpcId"));
        assert(mid.same_header(old(self)));
    }

    /// Relates `from` to the VPC `vpc_id` of this account, when there is one.
    pub fn relate_vpc(&mut self, region: &str, from: &str, vpc_id: &Option<String>, seen: (&str, &str, &str))
        requires
            old(self).wf(),
        ensures
            only_graph_changed(*final(self), *old(self)),
            final(self).resources == old(self).resources,
            vpc_related(
                *old(self),
                *final(self),
                region@,
                from@,
                *vpc_id,
                Observation {
                    service: seen.0@,
                    operation: seen.1@,
                    path: seen.2@,
                    collected_at: old(self).collected_at@,
                },
            ),
            edges_recorded(
                old(self).relationship_map(),
                final(self).relationship_map(),
                opt_edge(from@, "in_vpc"@, old(self).account_id@, region@, "vpc"@, *vpc_id, observation(seen, old(self).collected_at@)),
            ),
    {
        match vpc_id {
            Some(v) => {
                let vpc_uid = resource_uid(self.account_id.as_str(), region, "ec2", "vpc", v.as_str());
                self.relate(from, "in_vpc", vpc_uid.as_str(), seen);
            },
            None => {
                proof {
                    lemma_edges_none(self.relationship_map());
                }
            },
        }
    }
}


/// The EC2 resource with these fields was added to `before`, giving the
/// resources `after`.
pub open spec fn ec2_added(
    before: InventoryBuilder,
    after: Seq<Resource>,
    region: Seq<char>,
    kind: Seq<char>,
    arn_kind: Seq<char>,
    id: Seq<char>,
    tags: Map<Seq<char>, Seq<char>>,
    name: Option<Seq<char>>,
    attributes: Json,
    operation: Seq<char>,
    path: Seq<char>,
) -> bool {
    exists|r: Resource|
        resource_added(before.resource_map(), keyed_map(after), r) && aws_resource_is(
            r,
            ec2_fields(before, region, kind, arn_kind, id, tags, name, attributes),
            seen_by(before, "ec2"@, operation, path),
        )
}

/// The JSON strings of the present texts of `s`, in order.
pub open spec fn present_texts(s: Seq<Option<String>>) -> Seq<Json>
    decreases s.len(),
{
    if s.len() == 0 {
        Seq::empty()
    } else {
        let prev = present_texts(s.drop_last());
        match s.last() {
            Some(t) => prev.push(Json::Str(t@)),
            None => prev,
        }
    }
}

/// A JSON array of the present texts of `v`.
pub fn present_texts_json(v: &Vec<Option<String>>) -> (r: JsonValue)
    ensures
        r@ == Json::Array(present_texts(v@)),
{
    broadcast use crate::json::group_json_view;

    let mut out: Vec<JsonValue> = Vec::new();
    let mut i: usize = 0;
    while i < v.len()
        invariant
            i <= v@.len(),
            crate::json::items_view(out@) == present_texts(v@.take(i as int)),
        decreases v@.len() - i,
    {
        assert(v@.take(i + 1).drop_last() =~= v@.take(i as int));
        assert(v@.take(i + 1).last() == v@[i as int]);
        let ghost prev = present_texts(v@.take(i as int));
        match &v[i] {
            Some(t) => {
                let ghost before = out@;
                out.push(JsonValue::Str(t.clone()));
                assert(out@.drop_last() =~= before);
                assert(crate::json::items_view(out@) == crate::json::items_view(before).push(
                    crate::json::json_view(out@.last()),
                ));
                assert(present_texts(v@.take(i + 1)) == prev.push(Json::Str(t@)));
            },
            None => {
                assert(present_texts(v@.take(i + 1)) == prev);
            },
        }
        i += 1;
    }
    assert(v@.take(i as int) =~= v@);
    JsonValue::Array(out)
}

/// An ingress or egress rule of a security group.
#[derive(Clone, Debug)]
pub struct IpPermissionRecord {
    pub ip_protocol: Option<String>,
    pub from_port: Option<i32>,
    pub to_port: Option<i32>,
    pub ipv4_ranges: Vec<Option<String>>,
    pub ipv6_ranges: Vec<Option<String>>,
    pub group_refs: Vec<Option<String>>,
}

/// The JSON form of a security group rule.
pub open spec fn permission_json(p: IpPermissionRecord) -> Json {
    object_of(
        seq![
            ("ip_protocol"@, opt_text(p.ip_protocol)),
            ("from_port"@, opt_number(p.from_port)),
            ("to_port"@, opt_number(p.to_port)),
            ("ipv4_ranges"@, Json::Array(present_texts(p.ipv4_ranges@))),
            ("ipv6_ranges"@, Json::Array(present_texts(p.ipv6_ranges@))),
            ("security_group_refs"@, Json::Array(present_texts(p.group_refs@))),
        ],
    )
}

/// The JSON array of security group rules.
pub fn security_permissions(ps: &Vec<IpPermissionRecord>) -> (r: JsonValue)
    ensures
        r@ == Json::Array(Seq::new(ps@.len(), |i: int| permission_json(ps@[i]))),
{
    broadcast use crate::json::group_json_view;

    let mut out: Vec<JsonValue> = Vec::new();
    let mut i: usize = 0;
    while i < ps.len()
        invariant
            i <= ps@.len(),
            out@.len() == i,
            forall|j: int| 0 <= j < i ==> (#[trigger] out@[j])@ == permission_json(ps@[j]),
        decreases ps@.len() - i,
    {
        let p = &ps[i];
        let entries = vec![
            ("ip_protocol", opt_str_json(&p.ip_protocol)),
            ("from_port", opt_i32_json(p.from_port)),
            ("to_port", opt_i32_json(p.to_port)),
            ("ipv4_ranges", present_texts_json(&p.ipv4_ranges)),
            ("ipv6_ranges", present_texts_json(&p.ipv6_ranges)),
            ("security_group_refs", present_texts_json(&p.group_refs)),
        ];
        assert(pairs_model(entries@) =~= seq![
            ("ip_protocol"@, opt_text(p.ip_protocol)),
            ("from_port"@, opt_number(p.from_port)),
            ("to_port"@, opt_number(p.to_port)),
            ("ipv4_ranges"@, Json::Array(present_texts(p.ipv4_ranges@))),
            ("ipv6_ranges"@, Json::Array(present_texts(p.ipv6_ranges@))),
            ("security_group_refs"@, Json::Array(present_texts(p.group_refs@))),
        ]);
        out.push(json_object(entries));
        i += 1;
    }
    assert(crate::json::items_view(out@) =~= Seq::new(ps@.len(), |i: int| permission_json(ps@[i])));
    JsonValue::Array(out)
}

/// A security group as EC2 describes it.
#[derive(Clone, Debug)]
pub struct SecurityGroupRecord {
    pub group_id: Option<String>,
    pub group_name: Option<String>,
    pub description: Option<String>,
    pub vpc_id: Option<String>,
    pub owner_id: Option<String>,
    pub ingress: Vec<IpPermissionRecord>,
    pub egress: Vec<IpPermissionRecord>,
    pub tags: Vec<Ec2Tag>,
}

/// The attributes kept for a security group.
pub open spec fn security_group_attributes(g: SecurityGroupRecord) -> Json {
    object_of(
        seq![
            ("group_name"@, opt_text(g.group_name)),
            ("description"@, opt_text(g.description)),
            ("vpc_id"@, opt_text(g.vpc_id)),
            ("owner_id"@, opt_text(g.owner_id)),
            ("ingress"@, Json::Array(Seq::new(g.ingress@.len(), |i: int| permission_json(g.ingress@[i])))),
            ("egress"@, Json::Array(Seq::new(g.egress@.len(), |i: int| permission_json(g.egress@[i])))),
        ],
    )
}

/// The group name, or else the `Name` tag.
pub open spec fn security_group_name(g: SecurityGroupRecord) -> Option<Seq<char>> {
    match g.group_name {
        Some(n) => Some(n@),
        None => map_get(ec2_tags_spec(g.tags@), "Name"@),
    }
}

impl InventoryBuilder {
    /// Adds a described security group and its VPC relationship; one
    /// without an id is skipped.
    pub fn add_security_group(&mut self, region: &str, group: &SecurityGroupRecord)
        requires
            old(self).wf(),
        ensures
            only_graph_changed(*final(self), *old(self)),
            match group.group_id {
                None => final(self).resources == old(self).resources && final(self).relationships
                    == old(self).relationships,
                Some(id) => (exists|mid: InventoryBuilder|
                    {
                        &&& mid.relationships == old(self).relationships
                        &&& mid.same_header(old(self))
                        &&& final(self).resources == mid.resources
                        &&& ec2_added(
                            *old(self),
                            mid.resources@,
                            region@,
                            "security-group"@,
                            "security-group"@,
                            id@,
                            ec2_tags_spec(group.tags@),
                            security_group_name(*group),
                            security_group_attributes(*group),
                            "DescribeSecurityGroups"@,
                            "$.SecurityGroups[]"@,
                        )
                        &&& vpc_related(
                            mid,
                            *final(self),
                            region@,
                            ec2_uid(old(self).account_id@, region@, "security-group"@, id@),
                            group.vpc_id,
                            seen_by(
                                *old(self),
                                "ec2"@,
                                "DescribeSecurityGroups"@,
                                "$.SecurityGroups[].VpcId"@,
                            ),
                        )
                    }),
            },
            edges_recorded(
                old(self).relationship_map(),
                final(self).relationship_map(),
                match group.group_id {
                    Some(id) => opt_edge(
                        ec2_uid(old(self).account_id@, region@, "security-group"@, id@),
                        "in_vpc"@,
                        old(self).account_id@,
                        region@,
                        "vpc"@,
                        group.vpc_id,
                        seen_by(*old(self), "ec2"@, "DescribeSecurityGroups"@, "$.SecurityGroups[].VpcId"@),
                    ),
                    None => Set::empty(),
                },
            ),
    {
        let id = match &group.group_id {
            Some(id) => id,
            None => {
                proof {
                    lemma_edges_none(self.relationship_map());
                }
                return;
            },
        };
        let tags = ec2_tags(&group.tags);
        let name = match &group.group_name {
            Some(n) => Some(n.clone()),
            None => name_tag(&tags),
        };
        let entries = vec![
            ("group_name", opt_str_json(&group.group_name)),
            ("description", opt_str_json(&group.description)),
            ("vpc_id", opt_str_json(&group.vpc_id)),
            ("owner_id", opt_str_json(&group.owner_id)),
            ("ingress", security_permissions(&group.ingress)),
            ("egress", security_permissions(&group.egress)),
        ];
        assert(pairs_model(entries@) =~= seq![
            ("group_name"@, opt_text(group.group_name)),
            ("description"@, opt_text(group.description)),
            ("vpc_id"@, opt_text(group.vpc_id)),
            ("owner_id"@, opt_text(group.owner_id)),
            ("ingress"@, Json::Array(Seq::new(group.ingress@.len(), |i: int| permission_json(group.ingress@[i])))),
            ("egress"@, Json::Array(Seq::new(group.egress@.len(), |i: int| permission_json(group.egress@[i])))),
        ]);
        let attributes = json_object(entries);
        let uid = self.add_ec2_resource(
            region,
            "security-group",
            "security-group",
            id.as_str(),
            tags,
            name,
            attributes,
            ("DescribeSecurityGroups", "$.SecurityGroups[]"),
        );
        let ghost mid = *self;
        self.relate_vpc(
            region,
            uid.as_str(),
            &group.vpc_id,
            ("ec2", "DescribeSecurityGroups", "$.SecurityGroups[].VpcId"),
        );
    }
}

/// The uid of the relationship from `from` of type `relationship_type` to
/// the EC2 resource `id` of kind `kind`, as a set, or the empty set when
/// there is no id.
pub open spec fn opt_relationship(
    from: Seq<char>,
    relationship_type: Seq<char>,
    account_id: Seq<char>,
    region: Seq<char>,
    kind: Seq<char>,
    id: Option<String>,
) -> Set<Seq<char>> {
    match id {
        Some(v) => set![relationship_uid_spec(from, relationship_type, ec2_uid(account_id, region, kind, v@))],
        None => Set::empty(),
    }
}

/// `after` holds every relationship of `before`, unchanged unless its uid
/// is in `added`, and holds exactly the uids of `before` and `added`.
pub open spec fn relationships_added(
    before: Map<Seq<char>, Relationship>,
    after: Map<Seq<char>, Relationship>,
    added: Set<Seq<char>>,
) -> bool {
    &&& after.dom() == before.dom().union(added)
    &&& forall|k: Seq<char>|
        before.contains_key(k) && !added.contains(k) ==> #[trigger] after[k] == before[k]
}

/// Adding relationships in two steps adds the union of what each step adds.
pub proof fn lemma_relationships_added_chain(
    m0: Map<Seq<char>, Relationship>,
    m1: Map<Seq<char>, Relationship>,
    m2: Map<Seq<char>, Relationship>,
    a: Set<Seq<char>>,
    b: Set<Seq<char>>,
)
    requires
        relationships_added(m0, m1, a),
        relationships_added(m1, m2, b),
    ensures
        relationships_added(m0, m2, a.union(b)),
{
    assert(m2.dom() =~= m0.dom().union(a.union(b)));
}

/// A relationship that `vpc_related` describes is one that `opt_relationship` names.
pub proof fn lemma_vpc_related_adds(
    before: InventoryBuilder,
    after: InventoryBuilder,
    region: Seq<char>,
    from: Seq<char>,
    vpc_id: Option<String>,
    seen: Observation,
)
    requires
        vpc_related(before, after, region, from, vpc_id, seen),
    ensures
        relationships_added(
            before.relationship_map(),
            after.relationship_map(),
            opt_relationship(from, "in_vpc"@, before.account_id@, region, "vpc"@, vpc_id),
        ),
{
    match vpc_id {
        Some(v) => {
            let e = choose|e: Evidence|
                relationship_added(
                    before.relationship_map(),
                    after.relationship_map(),
                    from,
                    "in_vpc"@,
                    ec2_uid(before.account_id@, region, "vpc"@, v@),
                    e,
                    JsonValue::Null,
                ) && evidence_is(e, seen.service, seen.operation, seen.path, seen.collected_at);
            assert(after.relationship_map().dom() =~= before.relationship_map().dom().union(
                opt_relationship(from, "in_vpc"@, before.account_id@, region, "vpc"@, vpc_id),
            ));
        },
        None => {
            assert(after.relationship_map().dom() =~= before.relationship_map().dom().union(
                opt_relationship(from, "in_vpc"@, before.account_id@, region, "vpc"@, vpc_id),
            ));
        },
    }
}

/// A relationship that `subnet_related` describes is one that `opt_relationship` names.
pub proof fn lemma_subnet_related_adds(
    before: InventoryBuilder,
    after: InventoryBuilder,
    region: Seq<char>,
    from: Seq<char>,
    relationship_type: Seq<char>,
    subnet_id: Option<String>,
    seen: Observation,
)
    requires
        subnet_related(before, after, region, from, relationship_type, subnet_id, seen),
    ensures
        relationships_added(
            before.relationship_map(),
            after.relationship_map(),
            opt_relationship(from, relationship_type, before.account_id@, region, "subnet"@, subnet_id),
        ),
{
    match subnet_id {
        Some(v) => {
            let e = choose|e: Evidence|
                relationship_added(
                    before.relationship_map(),
                    after.relationship_map(),
                    from,
                    relationship_type,
                    ec2_uid(before.account_id@, region, "subnet"@, v@),
                    e,
                    JsonValue::Null,
                ) && evidence_is(e, seen.service, seen.operation, seen.path, seen.collected_at);
            assert(after.relationship_map().dom() =~= before.relationship_map().dom().union(
                opt_relationship(from, relationship_type, before.account_id@, region, "subnet"@, subnet_id),
            ));
        },
        None => {
            assert(after.relationship_map().dom() =~= before.relationship_map().dom().union(
                opt_relationship(from, relationship_type, before.account_id@, region, "subnet"@, subnet_id),
            ));
        },
    }
}

/// A NAT gateway as EC2 describes it.
#[derive(Clone, Debug)]
pub struct NatGatewayRecord {
    pub nat_gateway_id: Option<String>,
    pub vpc_id: Option<String>,
    pub subnet_id: Option<String>,
    pub state: Option<String>,
    pub connectivity_type: Option<String>,
    pub tags: Vec<Ec2Tag>,
}

/// The attributes kept for a NAT gateway.
pub open spec fn nat_gateway_attributes(g: NatGatewayRecord) -> Json {
    object_of(
        seq![
            ("vpc_id"@, opt_text(g.vpc_id)),
            ("subnet_id"@, opt_text(g.subnet_id)),
            ("state"@, opt_text(g.state)),
            ("connectivity_type"@, opt_text(g.connectivity_type)),
        ],
    )
}

/// The relationship from `from` to the subnet `subnet_id`, when there is
/// one, was added with the given type.
pub open spec fn subnet_related(
    before: InventoryBuilder,
    after: InventoryBuilder,
    region: Seq<char>,
    from: Seq<char>,
    relationship_type: Seq<char>,
    subnet_id: Option<String>,
    seen: Observation,
) -> bool {
    match subnet_id {
        None => after.relationships == before.relationships,
        Some(v) => related(
            before.relationship_map(),
            after.relationship_map(),
            from,
            relationship_type,
            ec2_uid(before.account_id@, region, "subnet"@, v@),
            seen,
        ),
    }
}

impl InventoryBuilder {
    /// Relates `from` to the subnet `subnet_id` of this account, when there is one.
    pub fn relate_subnet(
        &mut self,
        region: &str,
        from: &str,
        relationship_type: &str,
        subnet_id: &Option<String>,
        seen: (&str, &str, &str),
    )
        requires
            old(self).wf(),
        ensures
            only_graph_changed(*final(self), *old(self)),
            final(self).resources == old(self).resources,
            subnet_related(
                *old(self),
                *final(self),
                region@,
                from@,
                relationship_type@,
                *subnet_id,
                Observation {
                    service: seen.0@,
                    operation: seen.1@,
                    path: seen.2@,
                    collected_at: old(self).collected_at@,
                },
            ),
            edges_recorded(
                old(self).relationship_map(),
                final(self).relationship_map(),
                opt_edge(
                    from@,
                    relationship_type@,
                    old(self).account_id@,
                    region@,
                    "subnet"@,
                    *subnet_id,
                    observation(seen, old(self).collected_at@),
                ),
            ),
    {
        match subnet_id {
            Some(v) => {
                let subnet_uid = resource_uid(self.account_id.as_str(), region, "ec2", "subnet", v.as_str());
                self.relate(from, relationship_type, subnet_uid.as_str(), seen);
            },
            None => {
                proof {
                    lemma_edges_none(self.relationship_map());
                }
            },
        }
    }

    /// Adds a described NAT gateway with its VPC and subnet relationships;
    /// one without an id is skipped.
    pub fn add_nat_gateway(&mut self, region: &str, gateway: &NatGatewayRecord)
        requires
            old(self).wf(),
        ensures
            only_graph_changed(*final(self), *old(self)),
            match gateway.nat_gateway_id {
                None => final(self).resources == old(self).resources && final(self).relationships
                    == old(self).relationships,
                Some(id) => {
                    let uid = ec2_uid(old(self).account_id@, region@, "nat-gateway"@, id@);
                    &&& ec2_added(
                        *old(self),
                        final(self).resources@,
                        region@,
                        "nat-gateway"@,
                        "natgateway"@,
                        id@,
                        ec2_tags_spec(gateway.tags@),
                        map_get(ec2_tags_spec(gateway.tags@), "Name"@),
                        nat_gateway_attributes(*gateway),
                        "DescribeNatGateways"@,
                        "$.NatGateways[]"@,
                    )
                    &&& relationships_added(
                        old(self).relationship_map(),
                        final(self).relationship_map(),
                        opt_relationship(uid, "in_vpc"@, old(self).account_id@, region@, "vpc"@, gateway.vpc_id).union(
                            opt_relationship(uid, "in_subnet"@, old(self).account_id@, region@, "subnet"@, gateway.subnet_id),
                        ),
                    )
                },
            },
            edges_recorded(
                old(self).relationship_map(),
                final(self).relationship_map(),
                match gateway.nat_gateway_id {
                    Some(id) => opt_edge(
                        ec2_uid(old(self).account_id@, region@, "nat-gateway"@, id@),
                        "in_vpc"@,
                        old(self).account_id@,
                        region@,
                        "vpc"@,
                        gateway.vpc_id,
                        seen_by(*old(self), "ec2"@, "DescribeNatGateways"@, "$.NatGateways[].VpcId"@),
                    ).union(opt_edge(
                        ec2_uid(old(self).account_id@, region@, "nat-gateway"@, id@),
                        "in_subnet"@,
                        old(self).account_id@,
                        region@,
                        "subnet"@,
                        gateway.subnet_id,
                        seen_by(*old(self), "ec2"@, "DescribeNatGateways"@, "$.NatGateways[].SubnetId"@),
                    )),
                    None => Set::empty(),
                },
            ),
    {
        let id = match &gateway.nat_gateway_id {
            Some(id) => id,
            None => {
                proof {
                    lemma_edges_none(self.relationship_map());
                }
                return;
            },
        };
        let tags = ec2_tags(&gateway.tags);
        let name = name_tag(&tags);
        let entries = vec![
            ("vpc_id", opt_str_json(&gateway.vpc_id)),
            ("subnet_id", opt_str_json(&gateway.subnet_id)),
            ("state", opt_str_json(&gateway.state)),
            ("connectivity_type", opt_str_json(&gateway.connectivity_type)),
        ];
        assert(pairs_model(entries@) =~= seq![
            ("vpc_id"@, opt_text(gateway.vpc_id)),
            ("subnet_id"@, opt_text(gateway.subnet_id)),
            ("state"@, opt_text(gateway.state)),
            ("connectivity_type"@, opt_text(gateway.connectivity_type)),
        ]);
        let attributes = json_object(entries);
        let uid = self.add_ec2_resource(
            region,
            "nat-gateway",
            "natgateway",
            id.as_str(),
            tags,
            name,
            attributes,
            ("DescribeNatGateways", "$.NatGateways[]"),
        );
        let ghost mid = *self;
        self.relate_vpc(region, uid.as_str(), &gateway.vpc_id, ("ec2", "DescribeNatGateways", "$.NatGateways[].VpcId"));
        let ghost mid2 = *self;
        self.relate_subnet(
            region,
            uid.as_str(),
            "in_subnet",
            &gateway.subnet_id,
            ("ec2", "DescribeNatGateways", "$.NatGateways[].SubnetId"),
        );
        proof {
            let a = opt_relationship(uid@, "in_vpc"@, mid.account_id@, region@, "vpc"@, gateway.vpc_id);
            let b = opt_relationship(uid@, "in_subnet"@, mid.account_id@, region@, "subnet"@, gateway.subnet_id);
            lemma_vpc_related_adds(mid, mid2, region@, uid@, gateway.vpc_id, seen_by(mid, "ec2"@, "DescribeNatGateways"@, "$.NatGateways[].VpcId"@));
            lemma_subnet_related_adds(mid2, *self, region@, uid@, "in_subnet"@, gateway.subnet_id, seen_by(mid, "ec2"@, "DescribeNatGateways"@, "$.NatGateways[].SubnetId"@));
            lemma_relationships_added_chain(mid.relationship_map(), mid2.relationship_map(), self.relationship_map(), a, b);
            lemma_edges_chain(
                mid.relationship_map(),
                mid2.relationship_map(),
                self.relationship_map(),
                opt_edge(uid@, "in_vpc"@, mid.account_id@, region@, "vpc"@, gateway.vpc_id, observation(("ec2", "DescribeNatGateways", "$.NatGateways[].VpcId"), mid.collected_at@)),
                opt_edge(uid@, "in_subnet"@, mid.account_id@, region@, "subnet"@, gateway.subnet_id, observation(("ec2", "DescribeNatGateways", "$.NatGateways[].SubnetId"), mid.collected_at@)),
            );
        }
    }
}


/// A relationship added as `relationship_added` describes it is the one
/// `relationships_added` names.
pub proof fn lemma_relationship_added_adds(
    before: Map<Seq<char>, Relationship>,
    after: Map<Seq<char>, Relationship>,
    from: Seq<char>,
    relationship_type: Seq<char>,
    to: Seq<char>,
    evidence: Evidence,
    attributes: JsonValue,
)
    requires
        relationship_added(before, after, from, relationship_type, to, evidence, attributes),
    ensures
        relationships_added(before, after, set![relationship_uid_spec(from, relationship_type, to)]),
{
    assert(after.dom() =~= before.dom().union(set![relationship_uid_spec(from, relationship_type, to)]));
}

/// Nothing added is adding the empty set.
pub proof fn lemma_relationships_added_none(m: Map<Seq<char>, Relationship>)
    ensures
        relationships_added(m, m, Set::empty()),
{
    assert(m.dom() =~= m.dom().union(Set::empty()));
}

/// The relationships from `from` of the given type to the EC2 resources
/// of kind `kind` with the present ids of `ids`.
pub open spec fn rels_to_each(
    from: Seq<char>,
    relationship_type: Seq<char>,
    account_id: Seq<char>,
    region: Seq<char>,
    kind: Seq<char>,
    ids: Seq<Option<String>>,
) -> Set<Seq<char>>
    decreases ids.len(),
{
    if ids.len() == 0 {
        Set::empty()
    } else {
        rels_to_each(from, relationship_type, account_id, region, kind, ids.drop_last()).union(
            opt_relationship(from, relationship_type, account_id, region, kind, ids.last()),
        )
    }
}

/// The relationships of the given type from the EC2 resources of kind
/// `kind` with the present ids of `ids` to `to`.
pub open spec fn rels_from_each(
    account_id: Seq<char>,
    region: Seq<char>,
    kind: Seq<char>,
    ids: Seq<Option<String>>,
    relationship_type: Seq<char>,
    to: Seq<char>,
) -> Set<Seq<char>>
    decreases ids.len(),
{
    if ids.len() == 0 {
        Set::empty()
    } else {
        let prev = rels_from_each(account_id, region, kind, ids.drop_last(), relationship_type, to);
        match ids.last() {
            Some(v) => prev.insert(
                relationship_uid_spec(ec2_uid(account_id, region, kind, v@), relationship_type, to),
            ),
            None => prev,
        }
    }
}

impl InventoryBuilder {
    /// Relates `from` to each EC2 resource of kind `kind` whose id is present in `ids`.
    pub fn relate_to_each(
        &mut self,
        region: &str,
        from: &str,
        relationship_type: &str,
        kind: &str,
        ids: &Vec<Option<String>>,
        seen: (&str, &str, &str),
    )
        requires
            old(self).wf(),
        ensures
            only_graph_changed(*final(self), *old(self)),
            final(self).resources == old(self).resources,
            relationships_added(
                old(self).relationship_map(),
                final(self).relationship_map(),
                rels_to_each(from@, relationship_type@, old(self).account_id@, region@, kind@, ids@),
            ),
            edges_recorded(
                old(self).relationship_map(),
                final(self).relationship_map(),
                edges_to_each(
                    from@,
                    relationship_type@,
                    old(self).account_id@,
                    region@,
                    kind@,
                    ids@,
                    observation(seen, old(self).collected_at@),
                ),
            ),
    {
        let ghost start = *self;
        let ghost obs = observation(seen, start.collected_at@);
        proof {
            lemma_relationships_added_none(start.relationship_map());
            lemma_edges_none(start.relationship_map());
        }
        let mut i: usize = 0;
        while i < ids.len()
            invariant
                i <= ids@.len(),
                only_graph_changed(*self, start),
                self.resources == start.resources,
                relationships_added(
                    start.relationship_map(),
                    self.relationship_map(),
                    rels_to_each(from@, relationship_type@, start.account_id@, region@, kind@, ids@.take(i as int)),
                ),
                obs == observation(seen, start.collected_at@),
                edges_recorded(
                    start.relationship_map(),
                    self.relationship_map(),
                    edges_to_each(from@, relationship_type@, start.account_id@, region@, kind@, ids@.take(i as int), obs),
                ),
            decreases ids@.len() - i,
        {
            assert(ids@.take(i + 1).drop_last() =~= ids@.take(i as int));
            assert(ids@.take(i + 1).last() == ids@[i as int]);
            let ghost mid = *self;
            match &ids[i] {
                Some(v) => {
                    let target = resource_uid(self.account_id.as_str(), region, "ec2", kind, v.as_str());
                    self.relate(from, relationship_type, target.as_str(), seen);
                    proof {
                        let e = choose|e: Evidence|
                            relationship_added(
                                mid.relationship_map(),
                                self.relationship_map(),
                                from@,
                                relationship_type@,
                                target@,
                                e,
                                JsonValue::Null,
                            ) && evidence_is(e, seen.0@, seen.1@, seen.2@, mid.collected_at@);
                        lemma_relationship_added_adds(
                            mid.relationship_map(),
                            self.relationship_map(),
                            from@,
                            relationship_type@,
                            target@,
                            e,
                            JsonValue::Null,
                        );
                    }
                },
                None => {
                    proof {
                        lemma_relationships_added_none(mid.relationship_map());
                        lemma_edges_none(mid.relationship_map());
                    }
                },
            }
            proof {
                lemma_relationships_added_chain(
                    start.relationship_map(),
                    mid.relationship_map(),
                    self.relationship_map(),
                    rels_to_each(from@, relationship_type@, start.account_id@, region@, kind@, ids@.take(i as int)),
                    opt_relationship(from@, relationship_type@, start.account_id@, region@, kind@, ids@[i as int]),
                );
                lemma_edges_chain(
                    start.relationship_map(),
                    mid.relationship_map(),
                    self.relationship_map(),
                    edges_to_each(from@, relationship_type@, start.account_id@, region@, kind@, ids@.take(i as int), obs),
                    opt_edge(from@, relationship_type@, start.account_id@, region@, kind@, ids@[i as int], obs),
                );
            }
            i += 1;
        }
        assert(ids@.take(i as int) =~= ids@);
    }

    /// Relates each EC2 resource of kind `kind` whose id is present in `ids` to `to`.
    pub fn relate_from_each(
        &mut self,
        region: &str,
        kind: &str,
        ids: &Vec<Option<String>>,
        relationship_type: &str,
        to: &str,
        seen: (&str, &str, &str),
    )
        requires
            old(self).wf(),
        ensures
            only_graph_changed(*final(self), *old(self)),
            final(self).resources == old(self).resources,
            relationships_added(
                old(self).relationship_map(),
                final(self).relationship_map(),
                rels_from_each(old(self).account_id@, region@, kind@, ids@, relationship_type@, to@),
            ),
            edges_recorded(
                old(self).relationship_map(),
                final(self).relationship_map(),
                edges_from_each(
                    old(self).account_id@,
                    region@,
                    kind@,
                    ids@,
                    relationship_type@,
                    to@,
                    observation(seen, old(self).collected_at@),
                ),
            ),
    {
        let ghost start = *self;
        let ghost obs = observation(seen, start.collected_at@);
        proof {
            lemma_relationships_added_none(start.relationship_map());
            lemma_edges_none(start.relationship_map());
        }
        let mut i: usize = 0;
        while i < ids.len()
            invariant
                i <= ids@.len(),
                only_graph_changed(*self, start),
                self.resources == start.resources,
                relationships_added(
                    start.relationship_map(),
                    self.relationship_map(),
                    rels_from_each(start.account_id@, region@, kind@, ids@.take(i as int), relationship_type@, to@),
                ),
                obs == observation(seen, start.collected_at@),
                edges_recorded(
                    start.relationship_map(),
                    self.relationship_map(),
                    edges_from_each(start.account_id@, region@, kind@, ids@.take(i as int), relationship_type@, to@, obs),
                ),
            decreases ids@.len() - i,
        {
            assert(ids@.take(i + 1).drop_last() =~= ids@.take(i as int));
            assert(ids@.take(i + 1).last() == ids@[i as int]);
            let ghost mid = *self;
            let ghost prev = rels_from_each(start.account_id@, region@, kind@, ids@.take(i as int), relationship_type@, to@);
            match &ids[i] {
                Some(v) => {
                    let source = resource_uid(self.account_id.as_str(), region, "ec2", kind, v.as_str());
                    self.relate(source.as_str(), relationship_type, to, seen);
                    proof {
                        let e = choose|e: Evidence|
                            relationship_added(
                                mid.relationship_map(),
                                self.relationship_map(),
                                source@,
                                relationship_type@,
                                to@,
                                e,
                                JsonValue::Null,
                            ) && evidence_is(e, seen.0@, seen.1@, seen.2@, mid.collected_at@);
                        lemma_relationship_added_adds(
                            mid.relationship_map(),
                            self.relationship_map(),
                            source@,
                            relationship_type@,
                            to@,
                            e,
                            JsonValue::Null,
                        );
                        let one = set![relationship_uid_spec(source@, relationship_type@, to@)];
                        lemma_relationships_added_chain(
                            start.relationship_map(),
                            mid.relationship_map(),
                            self.relationship_map(),
                            prev,
                            one,
                        );
                        assert(prev.union(one) =~= prev.insert(
                            relationship_uid_spec(source@, relationship_type@, to@),
                        ));
                        let eprev = edges_from_each(start.account_id@, region@, kind@, ids@.take(i as int), relationship_type@, to@, obs);
                        let eone = set![null_edge(source@, relationship_type@, to@, obs)];
                        lemma_edges_chain(start.relationship_map(), mid.relationship_map(), self.relationship_map(), eprev, eone);
                        assert(eprev.union(eone) =~= eprev.insert(null_edge(source@, relationship_type@, to@, obs)));
                    }
                },
                None => {},
            }
            i += 1;
        }
        assert(ids@.take(i as int) =~= ids@);
    }
}

/// A route of a route table.
#[derive(Clone, Debug)]
pub struct RouteRecord {
    pub destination_cidr_block: Option<String>,
    pub destination_ipv6_cidr_block: Option<String>,
    pub gateway_id: Option<String>,
    pub nat_gateway_id: Option<String>,
    pub transit_gateway_id: Option<String>,
    pub vpc_peering_connection_id: Option<String>,
    pub egress_only_internet_gateway_id: Option<String>,
    pub state: Option<String>,
}

/// A present target id other than `local`.
pub open spec fn opt_target(o: Option<String>) -> Seq<Seq<char>> {
    match o {
        Some(t) => if t@ == "local"@ {
            Seq::empty()
        } else {
            seq![t@]
        },
        None => Seq::empty(),
    }
}

/// The targets of a route: its gateway, NAT gateway, transit gateway,
/// peering connection and egress-only gateway ids, leaving out `local`.
pub open spec fn route_targets_spec(r: RouteRecord) -> Seq<Seq<char>> {
    opt_target(r.gateway_id) + opt_target(r.nat_gateway_id) + opt_target(r.transit_gateway_id)
        + opt_target(r.vpc_peering_connection_id) + opt_target(
        r.egress_only_internet_gateway_id,
    )
}

fn push_target(out: &mut Vec<String>, o: &Option<String>)
    ensures
        texts(final(out)@) == texts(old(out)@) + opt_target(*o),
{
    match o {
        Some(t) => {
            if !str_eq(t.as_str(), "local") {
                let ghost before = out@;
                out.push(t.clone());
                assert(texts(out@) =~= texts(before) + seq![t@]);
            } else {
                assert(texts(out@) =~= texts(out@) + Seq::<Seq<char>>::empty());
            }
        },
        None => {
            assert(texts(out@) =~= texts(out@) + Seq::<Seq<char>>::empty());
        },
    }
}

/// The targets of a route.
pub fn route_targets(route: &RouteRecord) -> (r: Vec<String>)
    ensures
        texts(r@) == route_targets_spec(*route),
{
    let mut out: Vec<String> = Vec::new();
    assert(texts(out@) =~= Seq::<Seq<char>>::empty());
    push_target(&mut out, &route.gateway_id);
    push_target(&mut out, &route.nat_gateway_id);
    push_target(&mut out, &route.transit_gateway_id);
    push_target(&mut out, &route.vpc_peering_connection_id);
    push_target(&mut out, &route.egress_only_internet_gateway_id);
    assert(texts(out@) =~= route_targets_spec(*route));
    out
}


/// The JSON form of a route.
pub open spec fn route_json(r: RouteRecord) -> Json {
    object_of(
        seq![
            ("destination_cidr_block"@, opt_text(r.destination_cidr_block)),
            ("destination_ipv6_cidr_block"@, opt_text(r.destination_ipv6_cidr_block)),
            ("gateway_id"@, opt_text(r.gateway_id)),
            ("nat_gateway_id"@, opt_text(r.nat_gateway_id)),
            ("transit_gateway_id"@, opt_text(r.transit_gateway_id)),
            ("vpc_peering_connection_id"@, opt_text(r.vpc_peering_connection_id)),
            ("state"@, opt_text(r.state)),
        ],
    )
}

/// The association of a route table with a subnet or gateway.
#[derive(Clone, Debug)]
pub struct RouteAssociationRecord {
    pub route_table_association_id: Option<String>,
    pub subnet_id: Option<String>,
    pub gateway_id: Option<String>,
    pub main: Option<bool>,
}

/// The JSON form of a route table association.
pub open spec fn association_json(a: RouteAssociationRecord) -> Json {
    object_of(
        seq![
            ("route_table_association_id"@, opt_text(a.route_table_association_id)),
            ("subnet_id"@, opt_text(a.subnet_id)),
            ("gateway_id"@, opt_text(a.gateway_id)),
            ("main"@, opt_flag(a.main)),
        ],
    )
}

/// A route table as EC2 describes it.
#[derive(Clone, Debug)]
pub struct RouteTableRecord {
    pub route_table_id: Option<String>,
    pub vpc_id: Option<String>,
    pub routes: Vec<RouteRecord>,
    pub associations: Vec<RouteAssociationRecord>,
    pub tags: Vec<Ec2Tag>,
}

/// The attributes kept for a route table.
pub open spec fn route_table_attributes(t: RouteTableRecord) -> Json {
    object_of(
        seq![
            ("vpc_id"@, opt_text(t.vpc_id)),
            ("routes"@, Json::Array(Seq::new(t.routes@.len(), |i: int| route_json(t.routes@[i])))),
            ("associations"@, Json::Array(Seq::new(t.associations@.len(), |i: int| association_json(t.associations@[i])))),
        ],
    )
}

/// The edge from `from` to the EC2 resource of kind `kind` with id `id`, when there is one.
pub open spec fn opt_edge(
    from: Seq<char>,
    relationship_type: Seq<char>,
    account_id: Seq<char>,
    region: Seq<char>,
    kind: Seq<char>,
    id: Option<String>,
    seen: Observation,
) -> Set<Edge> {
    match id {
        Some(v) => set![null_edge(from, relationship_type, ec2_uid(account_id, region, kind, v@), seen)],
        None => Set::empty(),
    }
}

/// The edges from `from` to the EC2 resources of kind `kind` with the present ids of `ids`.
pub open spec fn edges_to_each(
    from: Seq<char>,
    relationship_type: Seq<char>,
    account_id: Seq<char>,
    region: Seq<char>,
    kind: Seq<char>,
    ids: Seq<Option<String>>,
    seen: Observation,
) -> Set<Edge>
    decreases ids.len(),
{
    if ids.len() == 0 {
        Set::empty()
    } else {
        edges_to_each(from, relationship_type, account_id, region, kind, ids.drop_last(), seen).union(
            opt_edge(from, relationship_type, account_id, region, kind, ids.last(), seen),
        )
    }
}

/// The edges to `to` from the EC2 resources of kind `kind` with the present ids of `ids`.
pub open spec fn edges_from_each(
    account_id: Seq<char>,
    region: Seq<char>,
    kind: Seq<char>,
    ids: Seq<Option<String>>,
    relationship_type: Seq<char>,
    to: Seq<char>,
    seen: Observation,
) -> Set<Edge>
    decreases ids.len(),
{
    if ids.len() == 0 {
        Set::empty()
    } else {
        let prev = edges_from_each(account_id, region, kind, ids.drop_last(), relationship_type, to, seen);
        match ids.last() {
            Some(v) => prev.insert(null_edge(ec2_uid(account_id, region, kind, v@), relationship_type, to, seen)),
            None => prev,
        }
    }
}

/// The `routes_to` edge from `uid` to a route target, with the target's id as its attribute.
pub open spec fn route_edge(account_id: Seq<char>, region: Seq<char>, uid: Seq<char>, t: Seq<char>, seen: Observation) -> Edge {
    Edge {
        from: uid,
        relationship_type: "routes_to"@,
        to: aws_uid_spec(account_id, region, "ec2"@, route_target_type(t), t),
        attributes: Json::Object(seq![("target_id"@, Json::Str(t))]),
        seen,
    }
}

/// The `routes_to` edges from `uid` to each target.
pub open spec fn target_edges(
    account_id: Seq<char>,
    region: Seq<char>,
    uid: Seq<char>,
    targets: Seq<Seq<char>>,
    seen: Observation,
) -> Set<Edge>
    decreases targets.len(),
{
    if targets.len() == 0 {
        Set::empty()
    } else {
        target_edges(account_id, region, uid, targets.drop_last(), seen).insert(
            route_edge(account_id, region, uid, targets.last(), seen),
        )
    }
}

/// The `routes_to` relationships from `uid` to the given targets.
pub open spec fn target_rels(account_id: Seq<char>, region: Seq<char>, uid: Seq<char>, targets: Seq<Seq<char>>) -> Set<Seq<char>>
    decreases targets.len(),
{
    if targets.len() == 0 {
        Set::empty()
    } else {
        let t = targets.last();
        target_rels(account_id, region, uid, targets.drop_last()).insert(
            relationship_uid_spec(uid, "routes_to"@, aws_uid_spec(account_id, region, "ec2"@, route_target_type(t), t)),
        )
    }
}

/// The `routes_to` relationships from `uid` to the targets of each route.
pub open spec fn route_rels(account_id: Seq<char>, region: Seq<char>, uid: Seq<char>, routes: Seq<RouteRecord>) -> Set<Seq<char>>
    decreases routes.len(),
{
    if routes.len() == 0 {
        Set::empty()
    } else {
        route_rels(account_id, region, uid, routes.drop_last()).union(
            target_rels(account_id, region, uid, route_targets_spec(routes.last())),
        )
    }
}

/// The `routes_to` edges from `uid` to the targets of each route.
pub open spec fn route_edges(
    account_id: Seq<char>,
    region: Seq<char>,
    uid: Seq<char>,
    routes: Seq<RouteRecord>,
    seen: Observation,
) -> Set<Edge>
    decreases routes.len(),
{
    if routes.len() == 0 {
        Set::empty()
    } else {
        route_edges(account_id, region, uid, routes.drop_last(), seen).union(
            target_edges(account_id, region, uid, route_targets_spec(routes.last()), seen),
        )
    }
}

/// The subnet ids of route table associations.
pub open spec fn association_subnets(s: Seq<RouteAssociationRecord>) -> Seq<Option<String>> {
    s.map_values(|a: RouteAssociationRecord| a.subnet_id)
}

fn association_subnet_ids(assocs: &Vec<RouteAssociationRecord>) -> (r: Vec<Option<String>>)
    ensures
        r@ == association_subnets(assocs@),
{
    let mut out: Vec<Option<String>> = Vec::new();
    let mut i: usize = 0;
    while i < assocs.len()
        invariant
            i <= assocs@.len(),
            out@ == association_subnets(assocs@.take(i as int)),
        decreases assocs@.len() - i,
    {
        out.push(crate::model::clone_opt_string(&assocs[i].subnet_id));
        assert(association_subnets(assocs@.take(i + 1)) =~= association_subnets(assocs@.take(i as int)).push(assocs@[i as int].subnet_id));
        i += 1;
    }
    assert(assocs@.take(i as int) =~= assocs@);
    out
}

fn routes_json(routes: &Vec<RouteRecord>) -> (r: JsonValue)
    ensures
        r@ == Json::Array(Seq::new(routes@.len(), |i: int| route_json(routes@[i]))),
{
    broadcast use crate::json::group_json_view;

    let mut out: Vec<JsonValue> = Vec::new();
    let mut i: usize = 0;
    while i < routes.len()
        invariant
            i <= routes@.len(),
            out@.len() == i,
            forall|j: int| 0 <= j < i ==> (#[trigger] out@[j])@ == route_json(routes@[j]),
        decreases routes@.len() - i,
    {
        let r = &routes[i];
        let entries = vec![
            ("destination_cidr_block", opt_str_json(&r.destination_cidr_block)),
            ("destination_ipv6_cidr_block", opt_str_json(&r.destination_ipv6_cidr_block)),
            ("gateway_id", opt_str_json(&r.gateway_id)),
            ("nat_gateway_id", opt_str_json(&r.nat_gateway_id)),
            ("transit_gateway_id", opt_str_json(&r.transit_gateway_id)),
            ("vpc_peering_connection_id", opt_str_json(&r.vpc_peering_connection_id)),
            ("state", opt_str_json(&r.state)),
        ];
        assert(pairs_model(entries@) =~= seq![
            ("destination_cidr_block"@, opt_text(r.destination_cidr_block)),
            ("destination_ipv6_cidr_block"@, opt_text(r.destination_ipv6_cidr_block)),
            ("gateway_id"@, opt_text(r.gateway_id)),
            ("nat_gateway_id"@, opt_text(r.nat_gateway_id)),
            ("transit_gateway_id"@, opt_text(r.transit_gateway_id)),
            ("vpc_peering_connection_id"@, opt_text(r.vpc_peering_connection_id)),
            ("state"@, opt_text(r.state)),
        ]);
        out.push(json_object(entries));
        i += 1;
    }
    assert(crate::json::items_view(out@) =~= Seq::new(routes@.len(), |i: int| route_json(routes@[i])));
    JsonValue::Array(out)
}

fn associations_json(assocs: &Vec<RouteAssociationRecord>) -> (r: JsonValue)
    ensures
        r@ == Json::Array(Seq::new(assocs@.len(), |i: int| association_json(assocs@[i]))),
{
    broadcast use crate::json::group_json_view;

    let mut out: Vec<JsonValue> = Vec::new();
    let mut i: usize = 0;
    while i < assocs.len()
        invariant
            i <= assocs@.len(),
            out@.len() == i,
            forall|j: int| 0 <= j < i ==> (#[trigger] out@[j])@ == association_json(assocs@[j]),
        decreases assocs@.len() - i,
    {
        let a = &assocs[i];
        let entries = vec![
            ("route_table_association_id", opt_str_json(&a.route_table_association_id)),
            ("subnet_id", opt_str_json(&a.subnet_id)),
            ("gateway_id", opt_str_json(&a.gateway_id)),
            ("main", opt_bool_json(a.main)),
        ];
        assert(pairs_model(entries@) =~= seq![
            ("route_table_association_id"@, opt_text(a.route_table_association_id)),
            ("subnet_id"@, opt_text(a.subnet_id)),
            ("gateway_id"@, opt_text(a.gateway_id)),
            ("main"@, opt_flag(a.main)),
        ]);
        out.push(json_object(entries));
        i += 1;
    }
    assert(crate::json::items_view(out@) =~= Seq::new(assocs@.len(), |i: int| association_json(assocs@[i])));
    JsonValue::Array(out)
}

impl InventoryBuilder {
    /// Adds a `routes_to` relationship from `uid` to each target of `route`.
    fn relate_route_targets(&mut self, region: &str, uid: &str, route: &RouteRecord)
        requires
            old(self).wf(),
        ensures
            only_graph_changed(*final(self), *old(self)),
            final(self).resources == old(self).resources,
            relationships_added(
                old(self).relationship_map(),
                final(self).relationship_map(),
                target_rels(old(self).account_id@, region@, uid@, route_targets_spec(*route)),
            ),
            edges_recorded(
                old(self).relationship_map(),
                final(self).relationship_map(),
                target_edges(
                    old(self).account_id@,
                    region@,
                    uid@,
                    route_targets_spec(*route),
                    observation(("ec2", "DescribeRouteTables", "$.RouteTables[].Routes[]"), old(self).collected_at@),
                ),
            ),
    {
        let targets = route_targets(route);
        let ghost ts = texts(targets@);
        let ghost start = *self;
        let ghost obs = observation(("ec2", "DescribeRouteTables", "$.RouteTables[].Routes[]"), start.collected_at@);
        proof {
            lemma_relationships_added_none(start.relationship_map());
            lemma_edges_none(start.relationship_map());
        }
        let mut j: usize = 0;
        while j < targets.len()
            invariant
                j <= targets@.len(),
                ts == texts(targets@),
                ts == route_targets_spec(*route),
                only_graph_changed(*self, start),
                self.resources == start.resources,
                relationships_added(
                    start.relationship_map(),
                    self.relationship_map(),
                    target_rels(start.account_id@, region@, uid@, ts.take(j as int)),
                ),
                obs == observation(("ec2", "DescribeRouteTables", "$.RouteTables[].Routes[]"), start.collected_at@),
                edges_recorded(
                    start.relationship_map(),
                    self.relationship_map(),
                    target_edges(start.account_id@, region@, uid@, ts.take(j as int), obs),
                ),
            decreases targets@.len() - j,
        {
            assert(ts.take(j + 1).drop_last() =~= ts.take(j as int));
            assert(ts.take(j + 1).last() == targets@[j as int]@);
            let ghost mid = *self;
            let target = &targets[j];
            let target_uid = ec2_target_uid(self.account_id.as_str(), region, target.as_str());
            let evidence = self.evidence("ec2", "DescribeRouteTables", "$.RouteTables[].Routes[]");
            let members = vec![("target_id", JsonValue::Str(target.clone()))];
            proof {
                reveal_with_fuel(crate::json::non_null_members, 2);
                assert(pairs_model(members@) =~= seq![("target_id"@, Json::Str(target@))]);
                assert(crate::json::non_null_members(seq![("target_id"@, Json::Str(target@))]) =~= seq![
                    ("target_id"@, Json::Str(target@)),
                ]);
            }
            let attributes = json_object(members);
            assert(attributes@ == Json::Object(seq![("target_id"@, Json::Str(target@))]));
            self.add_relationship(uid, "routes_to", target_uid.as_str(), evidence, attributes);
            proof {
                lemma_edge_added(
                    mid.relationship_map(),
                    self.relationship_map(),
                    uid@,
                    "routes_to"@,
                    target_uid@,
                    evidence,
                    attributes,
                    obs,
                );
                let eprev = target_edges(start.account_id@, region@, uid@, ts.take(j as int), obs);
                let eone = set![route_edge(start.account_id@, region@, uid@, target@, obs)];
                lemma_edges_chain(start.relationship_map(), mid.relationship_map(), self.relationship_map(), eprev, eone);
                assert(eprev.union(eone) =~= eprev.insert(route_edge(start.account_id@, region@, uid@, target@, obs)));
                lemma_relationship_added_adds(
                    mid.relationship_map(),
                    self.relationship_map(),
                    uid@,
                    "routes_to"@,
                    target_uid@,
                    evidence,
                    attributes,
                );
                let one = set![relationship_uid_spec(uid@, "routes_to"@, target_uid@)];
                let prev = target_rels(start.account_id@, region@, uid@, ts.take(j as int));
                lemma_relationships_added_chain(start.relationship_map(), mid.relationship_map(), self.relationship_map(), prev, one);
                assert(prev.union(one) =~= prev.insert(relationship_uid_spec(uid@, "routes_to"@, target_uid@)));
            }
            j += 1;
        }
        assert(ts.take(j as int) =~= ts);
    }

    /// Adds a described route table with its VPC, subnet association and
    /// route target relationships; one without an id is skipped.
    #[verifier::rlimit(40)]
    #[verifier::spinoff_prover]
    pub fn add_route_table(&mut self, region: &str, table: &RouteTableRecord)
        requires
            old(self).wf(),
        ensures
            only_graph_changed(*final(self), *old(self)),
            match table.route_table_id {
                None => final(self).resources == old(self).resources && final(self).relationships
                    == old(self).relationships,
                Some(id) => {
                    let uid = ec2_uid(old(self).account_id@, region@, "route-table"@, id@);
                    &&& ec2_added(
                        *old(self),
                        final(self).resources@,
                        region@,
                        "route-table"@,
                        "route-table"@,
                        id@,
                        ec2_tags_spec(table.tags@),
                        map_get(ec2_tags_spec(table.tags@), "Name"@),
                        route_table_attributes(*table),
                        "DescribeRouteTables"@,
                        "$.RouteTables[]"@,
                    )
                    &&& relationships_added(
                        old(self).relationship_map(),
                        final(self).relationship_map(),
                        opt_relationship(uid, "in_vpc"@, old(self).account_id@, region@, "vpc"@, table.vpc_id).union(
                            rels_from_each(old(self).account_id@, region@, "subnet"@, association_subnets(table.associations@), "uses_route_table"@, uid),
                        ).union(route_rels(old(self).account_id@, region@, uid, table.routes@)),
                    )
                },
            },
            edges_recorded(
                old(self).relationship_map(),
                final(self).relationship_map(),
                match table.route_table_id {
                    Some(id) => {
                        let uid = ec2_uid(old(self).account_id@, region@, "route-table"@, id@);
                        opt_edge(uid, "in_vpc"@, old(self).account_id@, region@, "vpc"@, table.vpc_id, seen_by(*old(self), "ec2"@, "DescribeRouteTables"@, "$.RouteTables[].VpcId"@)).union(
                            edges_from_each(
                                old(self).account_id@,
                                region@,
                                "subnet"@,
                                association_subnets(table.associations@),
                                "uses_route_table"@,
                                uid,
                                seen_by(*old(self), "ec2"@, "DescribeRouteTables"@, "$.RouteTables[].Associations[].SubnetId"@),
                            ),
                        ).union(route_edges(old(self).account_id@, region@, uid, table.routes@, seen_by(*old(self), "ec2"@, "DescribeRouteTables"@, "$.RouteTables[].Routes[]"@)))
                    },
                    None => Set::empty(),
                },
            ),
    {
        let id = match &table.route_table_id {
            Some(id) => id,
            None => {
                proof {
                    lemma_edges_none(self.relationship_map());
                }
                return;
            },
        };
        let tags = ec2_tags(&table.tags);
        let name = name_tag(&tags);
        let entries = vec![
            ("vpc_id", opt_str_json(&table.vpc_id)),
            ("routes", routes_json(&table.routes)),
            ("associations", associations_json(&table.associations)),
        ];
        assert(pairs_model(entries@) =~= seq![
            ("vpc_id"@, opt_text(table.vpc_id)),
            ("routes"@, Json::Array(Seq::new(table.routes@.len(), |i: int| route_json(table.routes@[i])))),
            ("associations"@, Json::Array(Seq::new(table.associations@.len(), |i: int| association_json(table.associations@[i])))),
        ]);
        let attributes = json_object(entries);
        let uid = self.add_ec2_resource(
            region,
            "route-table",
            "route-table",
            id.as_str(),
            tags,
            name,
            attributes,
            ("DescribeRouteTables", "$.RouteTables[]"),
        );
        let ghost m0 = *self;
        let ghost obs_vpc = observation(("ec2", "DescribeRouteTables", "$.RouteTables[].VpcId"), m0.collected_at@);
        let ghost obs_assoc = observation(("ec2", "DescribeRouteTables", "$.RouteTables[].Associations[].SubnetId"), m0.collected_at@);
        let ghost obs_route = observation(("ec2", "DescribeRouteTables", "$.RouteTables[].Routes[]"), m0.collected_at@);
        self.relate_vpc(region, uid.as_str(), &table.vpc_id, ("ec2", "DescribeRouteTables", "$.RouteTables[].VpcId"));
        let ghost m1 = *self;
        proof {
            lemma_vpc_related_adds(m0, m1, region@, uid@, table.vpc_id, seen_by(m0, "ec2"@, "DescribeRouteTables"@, "$.RouteTables[].VpcId"@));
        }
        let subnets = association_subnet_ids(&table.associations);
        self.relate_from_each(
            region,
            "subnet",
            &subnets,
            "uses_route_table",
            uid.as_str(),
            ("ec2", "DescribeRouteTables", "$.RouteTables[].Associations[].SubnetId"),
        );
        let ghost m2 = *self;
        proof {
            lemma_relationships_added_chain(
                m0.relationship_map(),
                m1.relationship_map(),
                m2.relationship_map(),
                opt_relationship(uid@, "in_vpc"@, m0.account_id@, region@, "vpc"@, table.vpc_id),
                rels_from_each(m1.account_id@, region@, "subnet"@, association_subnets(table.associations@), "uses_route_table"@, uid@),
            );
            lemma_relationships_added_none(m2.relationship_map());
            lemma_edges_chain(
                m0.relationship_map(),
                m1.relationship_map(),
                m2.relationship_map(),
                opt_edge(uid@, "in_vpc"@, m0.account_id@, region@, "vpc"@, table.vpc_id, obs_vpc),
                edges_from_each(m1.account_id@, region@, "subnet"@, association_subnets(table.associations@), "uses_route_table"@, uid@, obs_assoc),
            );
            lemma_edges_none(m2.relationship_map());
        }
        let mut i: usize = 0;
        while i < table.routes.len()
            invariant
                i <= table.routes@.len(),
                only_graph_changed(*self, m2),
                self.resources == m2.resources,
                relationships_added(
                    m2.relationship_map(),
                    self.relationship_map(),
                    route_rels(m2.account_id@, region@, uid@, table.routes@.take(i as int)),
                ),
                obs_route == observation(("ec2", "DescribeRouteTables", "$.RouteTables[].Routes[]"), m2.collected_at@),
                edges_recorded(
                    m2.relationship_map(),
                    self.relationship_map(),
                    route_edges(m2.account_id@, region@, uid@, table.routes@.take(i as int), obs_route),
                ),
            decreases table.routes@.len() - i,
        {
            assert(table.routes@.take(i + 1).drop_last() =~= table.routes@.take(i as int));
            assert(table.routes@.take(i + 1).last() == table.routes@[i as int]);
            let ghost mid = *self;
            self.relate_route_targets(region, uid.as_str(), &table.routes[i]);
            proof {
                lemma_relationships_added_chain(
                    m2.relationship_map(),
                    mid.relationship_map(),
                    self.relationship_map(),
                    route_rels(m2.account_id@, region@, uid@, table.routes@.take(i as int)),
                    target_rels(m2.account_id@, region@, uid@, route_targets_spec(table.routes@[i as int])),
                );
                lemma_edges_chain(
                    m2.relationship_map(),
                    mid.relationship_map(),
                    self.relationship_map(),
                    route_edges(m2.account_id@, region@, uid@, table.routes@.take(i as int), obs_route),
                    target_edges(m2.account_id@, region@, uid@, route_targets_spec(table.routes@[i as int]), obs_route),
                );
            }
            i += 1;
        }
        proof {
            assert(table.routes@.take(i as int) =~= table.routes@);
            lemma_edges_chain(
                m0.relationship_map(),
                m2.relationship_map(),
                self.relationship_map(),
                opt_edge(uid@, "in_vpc"@, m0.account_id@, region@, "vpc"@, table.vpc_id, obs_vpc).union(
                    edges_from_each(m1.account_id@, region@, "subnet"@, association_subnets(table.associations@), "uses_route_table"@, uid@, obs_assoc),
                ),
                route_edges(m2.account_id@, region@, uid@, table.routes@, obs_route),
            );
            lemma_relationships_added_chain(
                m0.relationship_map(),
                m2.relationship_map(),
                self.relationship_map(),
                opt_relationship(uid@, "in_vpc"@, m0.account_id@, region@, "vpc"@, table.vpc_id).union(
                    rels_from_each(m1.account_id@, region@, "subnet"@, association_subnets(table.associations@), "uses_route_table"@, uid@),
                ),
                route_rels(m2.account_id@, region@, uid@, table.routes@),
            );
        }
    }
}


/// The resource with these fields was added to `before`, giving the resources `after`.
pub open spec fn aws_added(
    before: InventoryBuilder,
    after: Seq<Resource>,
    fields: AwsFields,
    seen: Observation,
) -> bool {
    exists|r: Resource|
        resource_added(before.resource_map(), keyed_map(after), r) && aws_resource_is(r, fields, seen)
}

/// The attachment of an internet gateway to a VPC.
#[derive(Clone, Debug)]
pub struct GatewayAttachmentRecord {
    pub vpc_id: Option<String>,
    pub state: Option<String>,
}

/// The JSON form of an internet gateway attachment.
pub open spec fn gateway_attachment_json(a: GatewayAttachmentRecord) -> Json {
    object_of(seq![("vpc_id"@, opt_text(a.vpc_id)), ("state"@, opt_text(a.state))])
}

/// An internet gateway as EC2 describes it.
#[derive(Clone, Debug)]
pub struct InternetGatewayRecord {
    pub internet_gateway_id: Option<String>,
    pub attachments: Vec<GatewayAttachmentRecord>,
    pub tags: Vec<Ec2Tag>,
}

/// The attributes kept for an internet gateway.
pub open spec fn internet_gateway_attributes(g: InternetGatewayRecord) -> Json {
    object_of(
        seq![
            ("attachments"@, Json::Array(Seq::new(g.attachments@.len(), |i: int| gateway_attachment_json(g.attachments@[i])))),
        ],
    )
}

/// The VPC ids of gateway attachments.
pub open spec fn attachment_vpcs(s: Seq<GatewayAttachmentRecord>) -> Seq<Option<String>> {
    s.map_values(|a: GatewayAttachmentRecord| a.vpc_id)
}

impl InventoryBuilder {
    /// Adds a described internet gateway and its VPC attachments; one
    /// without an id is skipped.
    pub fn add_internet_gateway(&mut self, region: &str, gateway: &InternetGatewayRecord)
        requires
            old(self).wf(),
        ensures
            only_graph_changed(*final(self), *old(self)),
            match gateway.internet_gateway_id {
                None => final(self).resources == old(self).resources && final(self).relationships
                    == old(self).relationships,
                Some(id) => {
                    &&& ec2_added(
                        *old(self),
                        final(self).resources@,
                        region@,
                        "internet-gateway"@,
                        "internet-gateway"@,
                        id@,
                        ec2_tags_spec(gateway.tags@),
                        map_get(ec2_tags_spec(gateway.tags@), "Name"@),
                        internet_gateway_attributes(*gateway),
                        "DescribeInternetGateways"@,
                        "$.InternetGateways[]"@,
                    )
                    &&& relationships_added(
                        old(self).relationship_map(),
                        final(self).relationship_map(),
                        rels_to_each(
                            ec2_uid(old(self).account_id@, region@, "internet-gateway"@, id@),
                            "attached_to_vpc"@,
                            old(self).account_id@,
                            region@,
                            "vpc"@,
                            attachment_vpcs(gateway.attachments@),
                        ),
                    )
                },
            },
            edges_recorded(
                old(self).relationship_map(),
                final(self).relationship_map(),
                match gateway.internet_gateway_id {
                    Some(id) => edges_to_each(
                        ec2_uid(old(self).account_id@, region@, "internet-gateway"@, id@),
                        "attached_to_vpc"@,
                        old(self).account_id@,
                        region@,
                        "vpc"@,
                        attachment_vpcs(gateway.attachments@),
                        seen_by(*old(self), "ec2"@, "DescribeInternetGateways"@, "$.InternetGateways[].Attachments[].VpcId"@),
                    ),
                    None => Set::empty(),
                },
            ),
    {
        broadcast use crate::json::group_json_view;

        let id = match &gateway.internet_gateway_id {
            Some(id) => id,
            None => {
                proof {
                    lemma_edges_none(self.relationship_map());
                }
                return;
            },
        };
        let tags = ec2_tags(&gateway.tags);
        let name = name_tag(&tags);
        let mut items: Vec<JsonValue> = Vec::new();
        let mut vpcs: Vec<Option<String>> = Vec::new();
        let mut i: usize = 0;
        while i < gateway.attachments.len()
            invariant
                i <= gateway.attachments@.len(),
                items@.len() == i,
                forall|j: int| 0 <= j < i ==> (#[trigger] items@[j])@ == gateway_attachment_json(gateway.attachments@[j]),
                vpcs@ == attachment_vpcs(gateway.attachments@.take(i as int)),
            decreases gateway.attachments@.len() - i,
        {
            let a = &gateway.attachments[i];
            let entries = vec![("vpc_id", opt_str_json(&a.vpc_id)), ("state", opt_str_json(&a.state))];
            assert(pairs_model(entries@) =~= seq![("vpc_id"@, opt_text(a.vpc_id)), ("state"@, opt_text(a.state))]);
            items.push(json_object(entries));
            vpcs.push(crate::model::clone_opt_string(&a.vpc_id));
            assert(attachment_vpcs(gateway.attachments@.take(i + 1)) =~= attachment_vpcs(gateway.attachments@.take(i as int)).push(a.vpc_id));
            i += 1;
        }
        assert(gateway.attachments@.take(i as int) =~= gateway.attachments@);
        assert(crate::json::items_view(items@) =~= Seq::new(gateway.attachments@.len(), |i: int| gateway_attachment_json(gateway.attachments@[i])));
        let entries = vec![("attachments", JsonValue::Array(items))];
        assert(pairs_model(entries@) =~= seq![
            ("attachments"@, Json::Array(Seq::new(gateway.attachments@.len(), |i: int| gateway_attachment_json(gateway.attachments@[i])))),
        ]);
        let attributes = json_object(entries);
        let uid = self.add_ec2_resource(
            region,
            "internet-gateway",
            "internet-gateway",
            id.as_str(),
            tags,
            name,
            attributes,
            ("DescribeInternetGateways", "$.InternetGateways[]"),
        );
        self.relate_to_each(
            region,
            uid.as_str(),
            "attached_to_vpc",
            "vpc",
            &vpcs,
            ("ec2", "DescribeInternetGateways", "$.InternetGateways[].Attachments[].VpcId"),
        );
    }
}

/// The attachment of a volume to an instance.
#[derive(Clone, Debug)]
pub struct VolumeAttachmentRecord {
    pub instance_id: Option<String>,
    pub device: Option<String>,
    pub state: Option<String>,
    pub attach_time: Option<String>,
}

/// The JSON form of a volume attachment.
pub open spec fn volume_attachment_json(a: VolumeAttachmentRecord) -> Json {
    object_of(
        seq![
            ("instance_id"@, opt_text(a.instance_id)),
            ("device"@, opt_text(a.device)),
            ("state"@, opt_text(a.state)),
            ("attach_time"@, opt_text(a.attach_time)),
        ],
    )
}

/// A volume as EC2 describes it.
#[derive(Clone, Debug)]
pub struct VolumeRecord {
    pub volume_id: Option<String>,
    pub availability_zone: Option<String>,
    pub size: Option<i32>,
    pub encrypted: Option<bool>,
    pub state: Option<String>,
    pub volume_type: Option<String>,
    pub attachments: Vec<VolumeAttachmentRecord>,
    pub tags: Vec<Ec2Tag>,
}

/// The attributes kept for a volume.
pub open spec fn volume_attributes(v: VolumeRecord) -> Json {
    object_of(
        seq![
            ("availability_zone"@, opt_text(v.availability_zone)),
            ("size_gib"@, opt_number(v.size)),
            ("encrypted"@, opt_flag(v.encrypted)),
            ("state"@, opt_text(v.state)),
            ("volume_type"@, opt_text(v.volume_type)),
            ("attachments"@, Json::Array(Seq::new(v.attachments@.len(), |i: int| volume_attachment_json(v.attachments@[i])))),
        ],
    )
}

/// The instance ids of volume attachments.
pub open spec fn attachment_instances(s: Seq<VolumeAttachmentRecord>) -> Seq<Option<String>> {
    s.map_values(|a: VolumeAttachmentRecord| a.instance_id)
}

impl InventoryBuilder {
    /// Adds a described volume and the instances it is attached to; one
    /// without an id is skipped.
    pub fn add_volume(&mut self, region: &str, volume: &VolumeRecord)
        requires
            old(self).wf(),
        ensures
            only_graph_changed(*final(self), *old(self)),
            match volume.volume_id {
                None => final(self).resources == old(self).resources && final(self).relationships
                    == old(self).relationships,
                Some(id) => {
                    &&& ec2_added(
                        *old(self),
                        final(self).resources@,
                        region@,
                        "volume"@,
                        "volume"@,
                        id@,
                        ec2_tags_spec(volume.tags@),
                        map_get(ec2_tags_spec(volume.tags@), "Name"@),
                        volume_attributes(*volume),
                        "DescribeVolumes"@,
                        "$.Volumes[]"@,
                    )
                    &&& relationships_added(
                        old(self).relationship_map(),
                        final(self).relationship_map(),
                        rels_from_each(
                            old(self).account_id@,
                            region@,
                            "instance"@,
                            attachment_instances(volume.attachments@),
                            "attaches_volume"@,
                            ec2_uid(old(self).account_id@, region@, "volume"@, id@),
                        ),
                    )
                },
            },
            edges_recorded(
                old(self).relationship_map(),
                final(self).relationship_map(),
                match volume.volume_id {
                    Some(id) => edges_from_each(
                        old(self).account_id@,
                        region@,
                        "instance"@,
                        attachment_instances(volume.attachments@),
                        "attaches_volume"@,
                        ec2_uid(old(self).account_id@, region@, "volume"@, id@),
                        seen_by(*old(self), "ec2"@, "DescribeVolumes"@, "$.Volumes[].Attachments[]"@),
                    ),
                    None => Set::empty(),
                },
            ),
    {
        broadcast use crate::json::group_json_view;

        let id = match &volume.volume_id {
            Some(id) => id,
            None => {
                proof {
                    lemma_edges_none(self.relationship_map());
                }
                return;
            },
        };
        let tags = ec2_tags(&volume.tags);
        let name = name_tag(&tags);
        let mut items: Vec<JsonValue> = Vec::new();
        let mut instances: Vec<Option<String>> = Vec::new();
        let mut i: usize = 0;
        while i < volume.attachments.len()
            invariant
                i <= volume.attachments@.len(),
                items@.len() == i,
                forall|j: int| 0 <= j < i ==> (#[trigger] items@[j])@ == volume_attachment_json(volume.attachments@[j]),
                instances@ == attachment_instances(volume.attachments@.take(i as int)),
            decreases volume.attachments@.len() - i,
        {
            let a = &volume.attachments[i];
            let entries = vec![
                ("instance_id", opt_str_json(&a.instance_id)),
                ("device", opt_str_json(&a.device)),
                ("state", opt_str_json(&a.state)),
                ("attach_time", opt_str_json(&a.attach_time)),
            ];
            assert(pairs_model(entries@) =~= seq![
                ("instance_id"@, opt_text(a.instance_id)),
                ("device"@, opt_text(a.device)),
                ("state"@, opt_text(a.state)),
                ("attach_time"@, opt_text(a.attach_time)),
            ]);
            items.push(json_object(entries));
            instances.push(crate::model::clone_opt_string(&a.instance_id));
            assert(attachment_instances(volume.attachments@.take(i + 1)) =~= attachment_instances(volume.attachments@.take(i as int)).push(a.instance_id));
            i += 1;
        }
        assert(volume.attachments@.take(i as int) =~= volume.attachments@);
        assert(crate::json::items_view(items@) =~= Seq::new(volume.attachments@.len(), |i: int| volume_attachment_json(volume.attachments@[i])));
        let entries = vec![
            ("availability_zone", opt_str_json(&volume.availability_zone)),
            ("size_gib", opt_i32_json(volume.size)),
            ("encrypted", opt_bool_json(volume.encrypted)),
            ("state", opt_str_json(&volume.state)),
            ("volume_type", opt_str_json(&volume.volume_type)),
            ("attachments", JsonValue::Array(items)),
        ];
        assert(pairs_model(entries@) =~= seq![
            ("availability_zone"@, opt_text(volume.availability_zone)),
            ("size_gib"@, opt_number(volume.size)),
            ("encrypted"@, opt_flag(volume.encrypted)),
            ("state"@, opt_text(volume.state)),
            ("volume_type"@, opt_text(volume.volume_type)),
            ("attachments"@, Json::Array(Seq::new(volume.attachments@.len(), |i: int| volume_attachment_json(volume.attachments@[i])))),
        ]);
        let attributes = json_object(entries);
        let uid = self.add_ec2_resource(
            region,
            "volume",
            "volume",
            id.as_str(),
            tags,
            name,
            attributes,
            ("DescribeVolumes", "$.Volumes[]"),
        );
        self.relate_from_each(
            region,
            "instance",
            &instances,
            "attaches_volume",
            uid.as_str(),
            ("ec2", "DescribeVolumes", "$.Volumes[].Attachments[]"),
        );
    }
}

/// An instance as EC2 describes it.
#[derive(Clone, Debug)]
pub struct InstanceRecord {
    pub instance_id: Option<String>,
    pub instance_type: Option<String>,
    pub state: Option<String>,
    pub image_id: Option<String>,
    pub vpc_id: Option<String>,
    pub subnet_id: Option<String>,
    pub private_ip_address: Option<String>,
    pub public_ip_address: Option<String>,
    pub availability_zone: Option<String>,
    pub launch_time: Option<String>,
    pub security_group_ids: Vec<Option<String>>,
    pub iam_instance_profile_arn: Option<String>,
    pub tags: Vec<Ec2Tag>,
}

/// The attributes kept for an instance.
pub open spec fn instance_attributes(v: InstanceRecord) -> Json {
    object_of(
        seq![
            ("instance_type"@, opt_text(v.instance_type)),
            ("state"@, opt_text(v.state)),
            ("image_id"@, opt_text(v.image_id)),
            ("vpc_id"@, opt_text(v.vpc_id)),
            ("subnet_id"@, opt_text(v.subnet_id)),
            ("private_ip_address"@, opt_text(v.private_ip_address)),
            ("public_ip_address"@, opt_text(v.public_ip_address)),
            ("availability_zone"@, opt_text(v.availability_zone)),
            ("launch_time"@, opt_text(v.launch_time)),
        ],
    )
}

/// The relationship from `from` of the given type to the resource an ARN
/// names, when the ARN is present and parses.
pub open spec fn arn_relationship(
    from: Seq<char>,
    relationship_type: Seq<char>,
    account_id: Seq<char>,
    arn: Option<String>,
) -> Set<Seq<char>> {
    match arn {
        Some(a) => match uid_for_arn_spec(account_id, a@) {
            Some(u) => set![relationship_uid_spec(from, relationship_type, u)],
            None => Set::empty(),
        },
        None => Set::empty(),
    }
}

/// The edge from `from` to the resource an ARN names, when the ARN is present and parses.
pub open spec fn arn_edge(
    from: Seq<char>,
    relationship_type: Seq<char>,
    account_id: Seq<char>,
    arn: Option<String>,
    seen: Observation,
) -> Set<Edge> {
    match arn {
        Some(a) => match uid_for_arn_spec(account_id, a@) {
            Some(u) => set![null_edge(from, relationship_type, u, seen)],
            None => Set::empty(),
        },
        None => Set::empty(),
    }
}

/// The edges a described instance records: to its VPC, its subnet, each
/// security group and its instance profile.
pub open spec fn instance_edges(
    uid: Seq<char>,
    account_id: Seq<char>,
    region: Seq<char>,
    instance: InstanceRecord,
    collected_at: Seq<char>,
) -> Set<Edge> {
    let seen = |path: Seq<char>| Observation { service: "ec2"@, operation: "DescribeInstances"@, path, collected_at };
    opt_edge(uid, "in_vpc"@, account_id, region, "vpc"@, instance.vpc_id, seen("$.Reservations[].Instances[].VpcId"@))
        .union(opt_edge(uid, "in_subnet"@, account_id, region, "subnet"@, instance.subnet_id, seen("$.Reservations[].Instances[].SubnetId"@)))
        .union(edges_to_each(uid, "uses_security_group"@, account_id, region, "security-group"@, instance.security_group_ids@, seen("$.Reservations[].Instances[].SecurityGroups[]"@)))
        .union(arn_edge(uid, "uses_iam_instance_profile"@, account_id, instance.iam_instance_profile_arn, seen("$.Reservations[].Instances[].IamInstanceProfile.Arn"@)))
}

impl InventoryBuilder {
    /// Relates `from` to the resource an ARN names, when the ARN is present and parses.
    pub fn relate_arn(&mut self, from: &str, relationship_type: &str, arn: &Option<String>, seen: (&str, &str, &str))
        requires
            old(self).wf(),
        ensures
            only_graph_changed(*final(self), *old(self)),
            final(self).resources == old(self).resources,
            relationships_added(
                old(self).relationship_map(),
                final(self).relationship_map(),
                arn_relationship(from@, relationship_type@, old(self).account_id@, *arn),
            ),
            edges_recorded(
                old(self).relationship_map(),
                final(self).relationship_map(),
                arn_edge(from@, relationship_type@, old(self).account_id@, *arn, observation(seen, old(self).collected_at@)),
            ),
    {
        let ghost start = *self;
        proof {
            lemma_relationships_added_none(start.relationship_map());
            lemma_edges_none(start.relationship_map());
        }
        match arn {
            Some(a) => {
                match uid_for_arn(self.account_id.as_str(), a.as_str()) {
                    Some(target) => {
                        self.relate(from, relationship_type, target.as_str(), seen);
                        proof {
                            let e = choose|e: Evidence|
                                relationship_added(
                                    start.relationship_map(),
                                    self.relationship_map(),
                                    from@,
                                    relationship_type@,
                                    target@,
                                    e,
                                    JsonValue::Null,
                                ) && evidence_is(e, seen.0@, seen.1@, seen.2@, start.collected_at@);
                            lemma_relationship_added_adds(
                                start.relationship_map(),
                                self.relationship_map(),
                                from@,
                                relationship_type@,
                                target@,
                                e,
                                JsonValue::Null,
                            );
                        }
                    },
                    None => {},
                }
            },
            None => {},
        }
    }

    /// Adds a described instance with its VPC, subnet, security group and
    /// instance profile relationships; one without an id is skipped.
    #[verifier::rlimit(40)]
    #[verifier::spinoff_prover]
    pub fn add_instance(&mut self, region: &str, instance: &InstanceRecord)
        requires
            old(self).wf(),
        ensures
            only_graph_changed(*final(self), *old(self)),
            match instance.instance_id {
                None => final(self).resources == old(self).resources && final(self).relationships
                    == old(self).relationships,
                Some(id) => {
                    let uid = ec2_uid(old(self).account_id@, region@, "instance"@, id@);
                    &&& ec2_added(
                        *old(self),
                        final(self).resources@,
                        region@,
                        "instance"@,
                        "instance"@,
                        id@,
                        ec2_tags_spec(instance.tags@),
                        map_get(ec2_tags_spec(instance.tags@), "Name"@),
                        instance_attributes(*instance),
                        "DescribeInstances"@,
                        "$.Reservations[].Instances[]"@,
                    )
                    &&& relationships_added(
                        old(self).relationship_map(),
                        final(self).relationship_map(),
                        opt_relationship(uid, "in_vpc"@, old(self).account_id@, region@, "vpc"@, instance.vpc_id)
                            .union(opt_relationship(uid, "in_subnet"@, old(self).account_id@, region@, "subnet"@, instance.subnet_id))
                            .union(rels_to_each(uid, "uses_security_group"@, old(self).account_id@, region@, "security-group"@, instance.security_group_ids@))
                            .union(arn_relationship(uid, "uses_iam_instance_profile"@, old(self).account_id@, instance.iam_instance_profile_arn)),
                    )
                },
            },
            edges_recorded(
                old(self).relationship_map(),
                final(self).relationship_map(),
                match instance.instance_id {
                    Some(id) => instance_edges(
                        ec2_uid(old(self).account_id@, region@, "instance"@, id@),
                        old(self).account_id@,
                        region@,
                        *instance,
                        old(self).collected_at@,
                    ),
                    None => Set::empty(),
                },
            ),
    {
        let id = match &instance.instance_id {
            Some(id) => id,
            None => {
                proof {
                    lemma_edges_none(self.relationship_map());
                }
                return;
            },
        };
        let tags = ec2_tags(&instance.tags);
        let name = name_tag(&tags);
        let entries = vec![
            ("instance_type", opt_str_json(&instance.instance_type)),
            ("state", opt_str_json(&instance.state)),
            ("image_id", opt_str_json(&instance.image_id)),
            ("vpc_id", opt_str_json(&instance.vpc_id)),
            ("subnet_id", opt_str_json(&instance.subnet_id)),
            ("private_ip_address", opt_str_json(&instance.private_ip_address)),
            ("public_ip_address", opt_str_json(&instance.public_ip_address)),
            ("availability_zone", opt_str_json(&instance.availability_zone)),
            ("launch_time", opt_str_json(&instance.launch_time)),
        ];
        assert(pairs_model(entries@) =~= seq![
            ("instance_type"@, opt_text(instance.instance_type)),
            ("state"@, opt_text(instance.state)),
            ("image_id"@, opt_text(instance.image_id)),
            ("vpc_id"@, opt_text(instance.vpc_id)),
            ("subnet_id"@, opt_text(instance.subnet_id)),
            ("private_ip_address"@, opt_text(instance.private_ip_address)),
            ("public_ip_address"@, opt_text(instance.public_ip_address)),
            ("availability_zone"@, opt_text(instance.availability_zone)),
            ("launch_time"@, opt_text(instance.launch_time)),
        ]);
        let attributes = json_object(entries);
        let uid = self.add_ec2_resource(
            region,
            "instance",
            "instance",
            id.as_str(),
            tags,
            name,
            attributes,
            ("DescribeInstances", "$.Reservations[].Instances[]"),
        );
        let ghost m0 = *self;
        self.relate_vpc(region, uid.as_str(), &instance.vpc_id, ("ec2", "DescribeInstances", "$.Reservations[].Instances[].VpcId"));
        let ghost m1 = *self;
        self.relate_subnet(region, uid.as_str(), "in_subnet", &instance.subnet_id, ("ec2", "DescribeInstances", "$.Reservations[].Instances[].SubnetId"));
        let ghost m2 = *self;
        self.relate_to_each(
            region,
            uid.as_str(),
            "uses_security_group",
            "security-group",
            &instance.security_group_ids,
            ("ec2", "DescribeInstances", "$.Reservations[].Instances[].SecurityGroups[]"),
        );
        let ghost m3 = *self;
        self.relate_arn(
            uid.as_str(),
            "uses_iam_instance_profile",
            &instance.iam_instance_profile_arn,
            ("ec2", "DescribeInstances", "$.Reservations[].Instances[].IamInstanceProfile.Arn"),
        );
        proof {
            let acct = m0.account_id@;
            let a = opt_relationship(uid@, "in_vpc"@, acct, region@, "vpc"@, instance.vpc_id);
            let b = opt_relationship(uid@, "in_subnet"@, acct, region@, "subnet"@, instance.subnet_id);
            let c = rels_to_each(uid@, "uses_security_group"@, acct, region@, "security-group"@, instance.security_group_ids@);
            let d = arn_relationship(uid@, "uses_iam_instance_profile"@, acct, instance.iam_instance_profile_arn);
            lemma_vpc_related_adds(m0, m1, region@, uid@, instance.vpc_id, seen_by(m0, "ec2"@, "DescribeInstances"@, "$.Reservations[].Instances[].VpcId"@));
            lemma_subnet_related_adds(m1, m2, region@, uid@, "in_subnet"@, instance.subnet_id, seen_by(m0, "ec2"@, "DescribeInstances"@, "$.Reservations[].Instances[].SubnetId"@));
            lemma_relationships_added_chain(m0.relationship_map(), m1.relationship_map(), m2.relationship_map(), a, b);
            lemma_relationships_added_chain(m0.relationship_map(), m2.relationship_map(), m3.relationship_map(), a.union(b), c);
            lemma_relationships_added_chain(m0.relationship_map(), m3.relationship_map(), self.relationship_map(), a.union(b).union(c), d);
            let col = m0.collected_at@;
            let ea = opt_edge(uid@, "in_vpc"@, acct, region@, "vpc"@, instance.vpc_id, observation(("ec2", "DescribeInstances", "$.Reservations[].Instances[].VpcId"), col));
            let eb = opt_edge(uid@, "in_subnet"@, acct, region@, "subnet"@, instance.subnet_id, observation(("ec2", "DescribeInstances", "$.Reservations[].Instances[].SubnetId"), col));
            let ec = edges_to_each(uid@, "uses_security_group"@, acct, region@, "security-group"@, instance.security_group_ids@, observation(("ec2", "DescribeInstances", "$.Reservations[].Instances[].SecurityGroups[]"), col));
            let ed = arn_edge(uid@, "uses_iam_instance_profile"@, acct, instance.iam_instance_profile_arn, observation(("ec2", "DescribeInstances", "$.Reservations[].Instances[].IamInstanceProfile.Arn"), col));
            lemma_edges_chain(m0.relationship_map(), m1.relationship_map(), m2.relationship_map(), ea, eb);
            lemma_edges_chain(m0.relationship_map(), m2.relationship_map(), m3.relationship_map(), ea.union(eb), ec);
            lemma_edges_chain(m0.relationship_map(), m3.relationship_map(), self.relationship_map(), ea.union(eb).union(ec), ed);
            assert(ea.union(eb).union(ec).union(ed) == instance_edges(uid@, acct, region@, *instance, col));
        }
    }
}


/// The VPC placement of a Lambda function.
#[derive(Clone, Debug)]
pub struct LambdaVpcRecord {
    pub vpc_id: Option<String>,
    pub subnet_ids: Vec<String>,
    pub security_group_ids: Vec<String>,
}

/// A Lambda function as Lambda lists it.
#[derive(Clone, Debug)]
pub struct LambdaFunctionRecord {
    pub function_name: Option<String>,
    pub function_arn: Option<String>,
    pub runtime: Option<String>,
    pub role: Option<String>,
    pub handler: Option<String>,
    pub memory_size: Option<i32>,
    pub timeout: Option<i32>,
    pub last_modified: Option<String>,
    pub state: Option<String>,
    pub vpc: Option<LambdaVpcRecord>,
}

/// The JSON array of the texts of a list, empty when there is no list.
pub open spec fn opt_text_list(v: Option<Seq<String>>) -> Json {
    match v {
        Some(items) => Json::Array(Seq::new(items.len(), |i: int| Json::Str(items[i]@))),
        None => Json::Array(Seq::empty()),
    }
}

/// The attributes kept for a Lambda function.
pub open spec fn lambda_attributes(f: LambdaFunctionRecord) -> Json {
    object_of(
        seq![
            ("runtime"@, opt_text(f.runtime)),
            ("role"@, opt_text(f.role)),
            ("handler"@, opt_text(f.handler)),
            ("memory_size"@, opt_number(f.memory_size)),
            ("timeout"@, opt_number(f.timeout)),
            ("last_modified"@, opt_text(f.last_modified)),
            ("state"@, opt_text(f.state)),
            ("vpc_id"@, opt_text(
                match f.vpc {
                    Some(v) => v.vpc_id,
                    None => None,
                },
            )),
            ("subnet_ids"@, opt_text_list(
                match f.vpc {
                    Some(v) => Some(v.subnet_ids@),
                    None => None,
                },
            )),
            ("security_group_ids"@, opt_text_list(
                match f.vpc {
                    Some(v) => Some(v.security_group_ids@),
                    None => None,
                },
            )),
        ],
    )
}

/// The uid of a resource named by an ARN, or else `fallback`.
pub open spec fn uid_or(account_id: Seq<char>, arn: Option<String>, fallback: Seq<char>) -> Seq<char> {
    match arn {
        Some(a) => match uid_for_arn_spec(account_id, a@) {
            Some(u) => u,
            None => fallback,
        },
        None => fallback,
    }
}

/// Each text of a list, as a present id.
pub open spec fn present_ids(v: Seq<String>) -> Seq<Option<String>> {
    v.map_values(|s: String| Some(s))
}

fn as_present_ids(v: &Vec<String>) -> (r: Vec<Option<String>>)
    ensures
        r@ == present_ids(v@),
{
    let mut out: Vec<Option<String>> = Vec::new();
    let mut i: usize = 0;
    while i < v.len()
        invariant
            i <= v@.len(),
            out@ == present_ids(v@.take(i as int)),
        decreases v@.len() - i,
    {
        out.push(Some(v[i].clone()));
        assert(present_ids(v@.take(i + 1)) =~= present_ids(v@.take(i as int)).push(Some(v@[i as int])));
        i += 1;
    }
    assert(v@.take(i as int) =~= v@);
    out
}

fn uid_from_arn_or(account_id: &str, arn: &Option<String>, fallback: String) -> (r: String)
    ensures
        r@ == uid_or(account_id@, *arn, fallback@),
{
    match arn {
        Some(a) => match uid_for_arn(account_id, a.as_str()) {
            Some(u) => u,
            None => fallback,
        },
        None => fallback,
    }
}

/// The relationships of a Lambda function in a VPC: to the VPC, its subnets and its security groups.
pub open spec fn lambda_vpc_rels(uid: Seq<char>, account_id: Seq<char>, region: Seq<char>, vpc: Option<LambdaVpcRecord>) -> Set<Seq<char>> {
    match vpc {
        Some(v) => opt_relationship(uid, "in_vpc"@, account_id, region, "vpc"@, v.vpc_id)
            .union(rels_to_each(uid, "uses_subnet"@, account_id, region, "subnet"@, present_ids(v.subnet_ids@)))
            .union(rels_to_each(uid, "uses_security_group"@, account_id, region, "security-group"@, present_ids(v.security_group_ids@))),
        None => Set::empty(),
    }
}

/// The edges a listed Lambda function records: to its role and, in a VPC,
/// to the VPC, each subnet and each security group.
pub open spec fn lambda_edges(
    uid: Seq<char>,
    account_id: Seq<char>,
    region: Seq<char>,
    function: LambdaFunctionRecord,
    collected_at: Seq<char>,
) -> Set<Edge> {
    let seen = |path: Seq<char>| Observation { service: "lambda"@, operation: "ListFunctions"@, path, collected_at };
    arn_edge(uid, "assumes_role"@, account_id, function.role, seen("$.Functions[].Role"@)).union(
        match function.vpc {
            Some(v) => opt_edge(uid, "in_vpc"@, account_id, region, "vpc"@, v.vpc_id, seen("$.Functions[].VpcConfig.VpcId"@))
                .union(edges_to_each(uid, "uses_subnet"@, account_id, region, "subnet"@, present_ids(v.subnet_ids@), seen("$.Functions[].VpcConfig.SubnetIds[]"@)))
                .union(edges_to_each(uid, "uses_security_group"@, account_id, region, "security-group"@, present_ids(v.security_group_ids@), seen("$.Functions[].VpcConfig.SecurityGroupIds[]"@))),
            None => Set::empty(),
        },
    )
}

impl InventoryBuilder {
    /// Adds a listed Lambda function with its role and VPC relationships;
    /// one without a name is skipped.
    #[verifier::rlimit(40)]
    #[verifier::spinoff_prover]
    pub fn add_lambda_function(&mut self, region: &str, function: &LambdaFunctionRecord)
        requires
            old(self).wf(),
        ensures
            only_graph_changed(*final(self), *old(self)),
            match function.function_name {
                None => final(self).resources == old(self).resources && final(self).relationships
                    == old(self).relationships,
                Some(name) => {
                    let acct = old(self).account_id@;
                    let uid = uid_or(acct, function.function_arn, aws_uid_spec(acct, region@, "lambda"@, "function"@, name@));
                    &&& aws_added(
                        *old(self),
                        final(self).resources@,
                        AwsFields {
                            uid,
                            account_id: acct,
                            partition: old(self).partition@,
                            region: region@,
                            service: "lambda"@,
                            resource_type: "function"@,
                            id: name@,
                            arn: opt_view(function.function_arn),
                            name: Some(name@),
                            tags: Map::empty(),
                            attributes: lambda_attributes(*function),
                            keep_raw: old(self).include_raw,
                        },
                        seen_by(*old(self), "lambda"@, "ListFunctions"@, "$.Functions[]"@),
                    )
                    &&& relationships_added(
                        old(self).relationship_map(),
                        final(self).relationship_map(),
                        arn_relationship(uid, "assumes_role"@, acct, function.role).union(
                            lambda_vpc_rels(uid, acct, region@, function.vpc),
                        ),
                    )
                },
            },
            edges_recorded(
                old(self).relationship_map(),
                final(self).relationship_map(),
                match function.function_name {
                    Some(name) => {
                        let acct = old(self).account_id@;
                        let uid = uid_or(acct, function.function_arn, aws_uid_spec(acct, region@, "lambda"@, "function"@, name@));
                        lambda_edges(uid, acct, region@, *function, old(self).collected_at@)
                    },
                    None => Set::empty(),
                },
            ),
    {
        let name = match &function.function_name {
            Some(n) => n,
            None => {
                proof {
                    lemma_edges_none(self.relationship_map());
                }
                return;
            },
        };
        let fallback = resource_uid(self.account_id.as_str(), region, "lambda", "function", name.as_str());
        let uid = uid_from_arn_or(self.account_id.as_str(), &function.function_arn, fallback);
        let (vpc_id, subnet_ids, group_ids) = match &function.vpc {
            Some(v) => (
                opt_str_json(&v.vpc_id),
                crate::json::json_string_array(&v.subnet_ids),
                crate::json::json_string_array(&v.security_group_ids),
            ),
            None => (JsonValue::Null, JsonValue::Array(Vec::new()), JsonValue::Array(Vec::new())),
        };
        proof {
            broadcast use crate::json::group_json_view;

            if function.vpc is None {
                assert(crate::json::items_view(Seq::<JsonValue>::empty()) =~= Seq::<Json>::empty());
            }
        }
        let entries = vec![
            ("runtime", opt_str_json(&function.runtime)),
            ("role", opt_str_json(&function.role)),
            ("handler", opt_str_json(&function.handler)),
            ("memory_size", opt_i32_json(function.memory_size)),
            ("timeout", opt_i32_json(function.timeout)),
            ("last_modified", opt_str_json(&function.last_modified)),
            ("state", opt_str_json(&function.state)),
            ("vpc_id", vpc_id),
            ("subnet_ids", subnet_ids),
            ("security_group_ids", group_ids),
        ];
        assert(pairs_model(entries@) =~= seq![
            ("runtime"@, opt_text(function.runtime)),
            ("role"@, opt_text(function.role)),
            ("handler"@, opt_text(function.handler)),
            ("memory_size"@, opt_number(function.memory_size)),
            ("timeout"@, opt_number(function.timeout)),
            ("last_modified"@, opt_text(function.last_modified)),
            ("state"@, opt_text(function.state)),
            ("vpc_id"@, opt_text(
                match function.vpc {
                    Some(v) => v.vpc_id,
                    None => None,
                },
            )),
            ("subnet_ids"@, opt_text_list(
                match function.vpc {
                    Some(v) => Some(v.subnet_ids@),
                    None => None,
                },
            )),
            ("security_group_ids"@, opt_text_list(
                match function.vpc {
                    Some(v) => Some(v.security_group_ids@),
                    None => None,
                },
            )),
        ]);
        let attributes = json_object(entries);
        let account_id = self.account_id.clone();
        let partition = self.partition.clone();
        let keep_raw = self.include_raw;
        self.add_aws_resource(
            uid.clone(),
            account_id,
            partition,
            region,
            "lambda",
            "function",
            name.as_str(),
            crate::model::clone_opt_string(&function.function_arn),
            Some(name.clone()),
            Vec::new(),
            attributes,
            keep_raw,
            ("lambda", "ListFunctions", "$.Functions[]"),
        );
        proof {
            assert(pairs_map(Seq::<(String, String)>::empty()) =~= Map::<Seq<char>, Seq<char>>::empty());
        }
        let ghost m0 = *self;
        self.relate_arn(uid.as_str(), "assumes_role", &function.role, ("lambda", "ListFunctions", "$.Functions[].Role"));
        let ghost m1 = *self;
        match &function.vpc {
            Some(v) => {
                self.relate_vpc(region, uid.as_str(), &v.vpc_id, ("lambda", "ListFunctions", "$.Functions[].VpcConfig.VpcId"));
                let ghost m2 = *self;
                let subnets = as_present_ids(&v.subnet_ids);
                self.relate_to_each(
                    region,
                    uid.as_str(),
                    "uses_subnet",
                    "subnet",
                    &subnets,
                    ("lambda", "ListFunctions", "$.Functions[].VpcConfig.SubnetIds[]"),
                );
                let ghost m3 = *self;
                let groups = as_present_ids(&v.security_group_ids);
                self.relate_to_each(
                    region,
                    uid.as_str(),
                    "uses_security_group",
                    "security-group",
                    &groups,
                    ("lambda", "ListFunctions", "$.Functions[].VpcConfig.SecurityGroupIds[]"),
                );
                proof {
                    let acct = m0.account_id@;
                    let a = opt_relationship(uid@, "in_vpc"@, acct, region@, "vpc"@, v.vpc_id);
                    let b = rels_to_each(uid@, "uses_subnet"@, acct, region@, "subnet"@, present_ids(v.subnet_ids@));
                    let c = rels_to_each(uid@, "uses_security_group"@, acct, region@, "security-group"@, present_ids(v.security_group_ids@));
                    lemma_vpc_related_adds(m1, m2, region@, uid@, v.vpc_id, seen_by(m0, "lambda"@, "ListFunctions"@, "$.Functions[].VpcConfig.VpcId"@));
                    lemma_relationships_added_chain(m1.relationship_map(), m2.relationship_map(), m3.relationship_map(), a, b);
                    lemma_relationships_added_chain(m1.relationship_map(), m3.relationship_map(), self.relationship_map(), a.union(b), c);
                    lemma_relationships_added_chain(
                        m0.relationship_map(),
                        m1.relationship_map(),
                        self.relationship_map(),
                        arn_relationship(uid@, "assumes_role"@, acct, function.role),
                        a.union(b).union(c),
                    );
                    let col = m0.collected_at@;
                    let er = arn_edge(uid@, "assumes_role"@, acct, function.role, observation(("lambda", "ListFunctions", "$.Functions[].Role"), col));
                    let ea = opt_edge(uid@, "in_vpc"@, acct, region@, "vpc"@, v.vpc_id, observation(("lambda", "ListFunctions", "$.Functions[].VpcConfig.VpcId"), col));
                    let eb = edges_to_each(uid@, "uses_subnet"@, acct, region@, "subnet"@, present_ids(v.subnet_ids@), observation(("lambda", "ListFunctions", "$.Functions[].VpcConfig.SubnetIds[]"), col));
                    let ec = edges_to_each(uid@, "uses_security_group"@, acct, region@, "security-group"@, present_ids(v.security_group_ids@), observation(("lambda", "ListFunctions", "$.Functions[].VpcConfig.SecurityGroupIds[]"), col));
                    lemma_edges_chain(m1.relationship_map(), m2.relationship_map(), m3.relationship_map(), ea, eb);
                    lemma_edges_chain(m1.relationship_map(), m3.relationship_map(), self.relationship_map(), ea.union(eb), ec);
                    lemma_edges_chain(m0.relationship_map(), m1.relationship_map(), self.relationship_map(), er, ea.union(eb).union(ec));
                }
            },
            None => {
                proof {
                    lemma_relationships_added_none(m1.relationship_map());
                    lemma_relationships_added_chain(
                        m0.relationship_map(),
                        m1.relationship_map(),
                        self.relationship_map(),
                        arn_relationship(uid@, "assumes_role"@, m0.account_id@, function.role),
                        Set::empty(),
                    );
                    let er = arn_edge(uid@, "assumes_role"@, m0.account_id@, function.role, observation(("lambda", "ListFunctions", "$.Functions[].Role"), m0.collected_at@));
                    lemma_edges_none(m1.relationship_map());
                    lemma_edges_chain(m0.relationship_map(), m1.relationship_map(), self.relationship_map(), er, Set::empty());
                    assert(er.union(Set::empty()) =~= er);
                }
            },
        }
    }
}


/// An IAM role, user or group as IAM lists it.
#[derive(Clone, Debug)]
pub struct IamPrincipalRecord {
    pub name: String,
    pub arn: String,
    pub principal_id: String,
    pub path: String,
    pub created_at: String,
    pub max_session_duration: Option<i32>,
}

/// The fields of an IAM principal of kind `kind`.
pub open spec fn iam_fields(b: InventoryBuilder, kind: Seq<char>, p: IamPrincipalRecord, attributes: Json) -> AwsFields {
    AwsFields {
        uid: uid_or(b.account_id@, Some(p.arn), aws_uid_spec(b.account_id@, "global"@, "iam"@, kind, p.name@)),
        account_id: b.account_id@,
        partition: b.partition@,
        region: "global"@,
        service: "iam"@,
        resource_type: kind,
        id: p.name@,
        arn: Some(p.arn@),
        name: Some(p.name@),
        tags: Map::empty(),
        attributes,
        keep_raw: b.include_raw,
    }
}

/// The attributes kept for an IAM role.
pub open spec fn role_attributes(p: IamPrincipalRecord) -> Json {
    object_of(
        seq![
            ("role_id"@, Json::Str(p.principal_id@)),
            ("path"@, Json::Str(p.path@)),
            ("created_at"@, Json::Str(p.created_at@)),
            ("max_session_duration"@, opt_number(p.max_session_duration)),
        ],
    )
}

/// The attributes kept for an IAM user or group, whose id member is `id_key`.
pub open spec fn principal_attributes(id_key: Seq<char>, p: IamPrincipalRecord) -> Json {
    object_of(
        seq![
            (id_key, Json::Str(p.principal_id@)),
            ("path"@, Json::Str(p.path@)),
            ("created_at"@, Json::Str(p.created_at@)),
        ],
    )
}

/// The last piece of `s` after its final `c`, the whole of `s` when it has none.
pub open spec fn after_last(s: Seq<char>, c: char) -> Seq<char>
    decreases s.len(),
{
    let k = crate::text::first_index(s, c);
    if 0 <= k < s.len() {
        after_last(s.skip(k + 1), c)
    } else {
        s
    }
}

/// The last piece of `s` after its final `c`.
pub fn last_piece(s: &str, c: char) -> (r: String)
    ensures
        r@ == after_last(s@, c),
    decreases s@.len(),
{
    let len = s.unicode_len();
    let k = crate::text::find_char(s, c);
    proof {
        crate::text::lemma_first_index(s@, c);
    }
    if k < len {
        let tail = s.substring_char(k + 1, len);
        assert(tail@ =~= s@.skip(k + 1));
        last_piece(tail, c)
    } else {
        s.to_owned()
    }
}

/// A managed policy attached to a role.
#[derive(Clone, Debug)]
pub struct AttachedPolicyRecord {
    pub policy_arn: Option<String>,
    pub policy_name: Option<String>,
}

impl InventoryBuilder {
    fn add_iam_principal(&mut self, kind: &str, principal: &IamPrincipalRecord, attributes: JsonValue, seen: (&str, &str)) -> (uid: String)
        requires
            old(self).wf(),
        ensures
            only_graph_changed(*final(self), *old(self)),
            final(self).relationships == old(self).relationships,
            uid@ == iam_fields(*old(self), kind@, *principal, attributes@).uid,
            aws_added(*old(self), final(self).resources@, iam_fields(*old(self), kind@, *principal, attributes@), seen_by(*old(self), "iam"@, seen.0@, seen.1@)),
    {
        let fallback = resource_uid(self.account_id.as_str(), "global", "iam", kind, principal.name.as_str());
        let arn = Some(principal.arn.clone());
        let uid = uid_from_arn_or(self.account_id.as_str(), &arn, fallback);
        let account_id = self.account_id.clone();
        let partition = self.partition.clone();
        let keep_raw = self.include_raw;
        self.add_aws_resource(
            uid.clone(),
            account_id,
            partition,
            "global",
            "iam",
            kind,
            principal.name.as_str(),
            arn,
            Some(principal.name.clone()),
            Vec::new(),
            attributes,
            keep_raw,
            ("iam", seen.0, seen.1),
        );
        proof {
            assert(pairs_map(Seq::<(String, String)>::empty()) =~= Map::<Seq<char>, Seq<char>>::empty());
        }
        uid
    }

    /// Adds a listed IAM role and returns its uid.
    pub fn add_iam_role(&mut self, role: &IamPrincipalRecord) -> (uid: String)
        requires
            old(self).wf(),
        ensures
            only_graph_changed(*final(self), *old(self)),
            final(self).relationships == old(self).relationships,
            uid@ == iam_fields(*old(self), "role"@, *role, role_attributes(*role)).uid,
            aws_added(*old(self), final(self).resources@, iam_fields(*old(self), "role"@, *role, role_attributes(*role)), seen_by(*old(self), "iam"@, "ListRoles"@, "$.Roles[]"@)),
    {
        let entries = vec![
            ("role_id", JsonValue::Str(role.principal_id.clone())),
            ("path", JsonValue::Str(role.path.clone())),
            ("created_at", JsonValue::Str(role.created_at.clone())),
            ("max_session_duration", opt_i32_json(role.max_session_duration)),
        ];
        assert(pairs_model(entries@) =~= seq![
            ("role_id"@, Json::Str(role.principal_id@)),
            ("path"@, Json::Str(role.path@)),
            ("created_at"@, Json::Str(role.created_at@)),
            ("max_session_duration"@, opt_number(role.max_session_duration)),
        ]);
        let attributes = json_object(entries);
        self.add_iam_principal("role", role, attributes, ("ListRoles", "$.Roles[]"))
    }

    /// Adds a listed IAM user.
    pub fn add_iam_user(&mut self, user: &IamPrincipalRecord)
        requires
            old(self).wf(),
        ensures
            only_graph_changed(*final(self), *old(self)),
            final(self).relationships == old(self).relationships,
            aws_added(*old(self), final(self).resources@, iam_fields(*old(self), "user"@, *user, principal_attributes("user_id"@, *user)), seen_by(*old(self), "iam"@, "ListUsers"@, "$.Users[]"@)),
    {
        let entries = vec![
            ("user_id", JsonValue::Str(user.principal_id.clone())),
            ("path", JsonValue::Str(user.path.clone())),
            ("created_at", JsonValue::Str(user.created_at.clone())),
        ];
        assert(pairs_model(entries@) =~= seq![
            ("user_id"@, Json::Str(user.principal_id@)),
            ("path"@, Json::Str(user.path@)),
            ("created_at"@, Json::Str(user.created_at@)),
        ]);
        let attributes = json_object(entries);
        self.add_iam_principal("user", user, attributes, ("ListUsers", "$.Users[]"));
    }

    /// Adds a listed IAM group.
    pub fn add_iam_group(&mut self, group: &IamPrincipalRecord)
        requires
            old(self).wf(),
        ensures
            only_graph_changed(*final(self), *old(self)),
            final(self).relationships == old(self).relationships,
            aws_added(*old(self), final(self).resources@, iam_fields(*old(self), "group"@, *group, principal_attributes("group_id"@, *group)), seen_by(*old(self), "iam"@, "ListGroups"@, "$.Groups[]"@)),
    {
        let entries = vec![
            ("group_id", JsonValue::Str(group.principal_id.clone())),
            ("path", JsonValue::Str(group.path.clone())),
            ("created_at", JsonValue::Str(group.created_at.clone())),
        ];
        assert(pairs_model(entries@) =~= seq![
            ("group_id"@, Json::Str(group.principal_id@)),
            ("path"@, Json::Str(group.path@)),
            ("created_at"@, Json::Str(group.created_at@)),
        ]);
        let attributes = json_object(entries);
        self.add_iam_principal("group", group, attributes, ("ListGroups", "$.Groups[]"));
    }

    /// Adds a managed policy attached to the role `role_uid`, and the
    /// relationship between them; one without an ARN is skipped.
    pub fn add_attached_policy(&mut self, role_uid: &str, policy: &AttachedPolicyRecord)
        requires
            old(self).wf(),
        ensures
            only_graph_changed(*final(self), *old(self)),
            match policy.policy_arn {
                None => final(self).resources == old(self).resources && final(self).relationships
                    == old(self).relationships,
                Some(arn) => {
                    let acct = old(self).account_id@;
                    let uid = uid_or(acct, Some(arn), aws_uid_spec(acct, "global"@, "iam"@, "policy"@, after_last(arn@, '/')));
                    &&& aws_added(
                        *old(self),
                        final(self).resources@,
                        AwsFields {
                            uid,
                            account_id: acct,
                            partition: old(self).partition@,
                            region: "global"@,
                            service: "iam"@,
                            resource_type: "policy"@,
                            id: arn@,
                            arn: Some(arn@),
                            name: opt_view(policy.policy_name),
                            tags: Map::empty(),
                            attributes: object_of(seq![("attached_policy"@, Json::Bool(true))]),
                            keep_raw: false,
                        },
                        seen_by(*old(self), "iam"@, "ListAttachedRolePolicies"@, "$.AttachedPolicies[]"@),
                    )
                    &&& related(
                        old(self).relationship_map(),
                        final(self).relationship_map(),
                        role_uid@,
                        "has_attached_policy"@,
                        uid,
                        seen_by(*old(self), "iam"@, "ListAttachedRolePolicies"@, "$.AttachedPolicies[]"@),
                    )
                },
            },
    {
        let arn = match &policy.policy_arn {
            Some(a) => a,
            None => {
                return;
            },
        };
        let segment = last_piece(arn.as_str(), '/');
        let fallback = resource_uid(self.account_id.as_str(), "global", "iam", "policy", segment.as_str());
        let uid = uid_from_arn_or(self.account_id.as_str(), &policy.policy_arn, fallback);
        let entries = vec![("attached_policy", JsonValue::Bool(true))];
        assert(pairs_model(entries@) =~= seq![("attached_policy"@, Json::Bool(true))]);
        let attributes = json_object(entries);
        let account_id = self.account_id.clone();
        let partition = self.partition.clone();
        self.add_aws_resource(
            uid.clone(),
            account_id,
            partition,
            "global",
            "iam",
            "policy",
            arn.as_str(),
            Some(arn.clone()),
            crate::model::clone_opt_string(&policy.policy_name),
            Vec::new(),
            attributes,
            false,
            ("iam", "ListAttachedRolePolicies", "$.AttachedPolicies[]"),
        );
        proof {
            assert(pairs_map(Seq::<(String, String)>::empty()) =~= Map::<Seq<char>, Seq<char>>::empty());
        }
        self.relate(role_uid, "has_attached_policy", uid.as_str(), ("iam", "ListAttachedRolePolicies", "$.AttachedPolicies[]"));
    }
}

/// A resource the tagging API lists: its ARN and its tags.
#[derive(Clone, Debug)]
pub struct TaggedResourceRecord {
    pub resource_arn: Option<String>,
    pub tags: Vec<(String, String)>,
}

/// The region of a tagged resource: the scanned region for a global ARN,
/// else the ARN's region, `global` when empty.
pub open spec fn tagged_region(scanned: Seq<char>, arn_region: Seq<char>) -> Seq<char> {
    crate::model::empty_to_global_spec(if arn_region == "global"@ { scanned } else { arn_region })
}

/// The fields of a resource that the tagging API lists.
pub open spec fn tagged_fields(b: InventoryBuilder, region: Seq<char>, arn: Seq<char>, p: crate::model::ArnModel, tags: Seq<(String, String)>) -> AwsFields {
    let account_id = if p.account_id.len() == 0 { b.account_id@ } else { p.account_id };
    let resource_region = tagged_region(region, p.region);
    AwsFields {
        uid: aws_uid_spec(account_id, resource_region, p.service, p.resource_type, p.resource_id),
        account_id,
        partition: p.partition,
        region: resource_region,
        service: p.service,
        resource_type: p.resource_type,
        id: p.resource_id,
        arn: Some(arn),
        name: map_get(pairs_map(tags), "Name"@),
        tags: pairs_map(tags),
        attributes: object_of(seq![("discovered_by"@, Json::Str("resourcegroupstagging"@))]),
        keep_raw: false,
    }
}

impl InventoryBuilder {
    /// Adds a resource the tagging API lists; one without an ARN, or whose
    /// ARN does not parse, is skipped.
    pub fn add_tagged_resource(&mut self, region: &str, tagged: &TaggedResourceRecord)
        requires
            old(self).wf(),
        ensures
            only_graph_changed(*final(self), *old(self)),
            final(self).relationships == old(self).relationships,
            match tagged.resource_arn {
                Some(arn) => match crate::model::parse_arn_spec(arn@) {
                    Some(p) => aws_added(
                        *old(self),
                        final(self).resources@,
                        tagged_fields(*old(self), region@, arn@, p, tagged.tags@),
                        seen_by(*old(self), "resourcegroupstagging"@, "GetResources"@, "$.ResourceTagMappingList[]"@),
                    ),
                    None => final(self).resources == old(self).resources,
                },
                None => final(self).resources == old(self).resources,
            },
    {
        let arn = match &tagged.resource_arn {
            Some(a) => a,
            None => {
                return;
            },
        };
        let parsed = match crate::model::parse_arn(arn.as_str()) {
            Some(p) => p,
            None => {
                return;
            },
        };
        let account_id = if parsed.account_id.unicode_len() == 0 {
            self.account_id.clone()
        } else {
            parsed.account_id.clone()
        };
        let region_text = if str_eq(parsed.region.as_str(), "global") {
            region.to_owned()
        } else {
            parsed.region.clone()
        };
        let resource_region = crate::model::empty_to_global(region_text);
        let mut tags: Vec<(String, String)> = Vec::new();
        assert(pairs_map(tags@) =~= Map::<Seq<char>, Seq<char>>::empty());
        pairs_extend(&mut tags, crate::model::clone_pairs(&tagged.tags));
        assert(pairs_map(tags@) =~= pairs_map(tagged.tags@));
        let name = name_tag(&tags);
        let uid = resource_uid(
            account_id.as_str(),
            resource_region.as_str(),
            parsed.service.as_str(),
            parsed.resource_type.as_str(),
            parsed.resource_id.as_str(),
        );
        let entries = vec![("discovered_by", JsonValue::Str("resourcegroupstagging".to_owned()))];
        assert(pairs_model(entries@) =~= seq![("discovered_by"@, Json::Str("resourcegroupstagging"@))]);
        let attributes = json_object(entries);
        self.add_aws_resource(
            uid,
            account_id,
            parsed.partition.clone(),
            resource_region.as_str(),
            parsed.service.as_str(),
            parsed.resource_type.as_str(),
            parsed.resource_id.as_str(),
            Some(arn.clone()),
            name,
            tags,
            attributes,
            false,
            ("resourcegroupstagging", "GetResources", "$.ResourceTagMappingList[]"),
        );
    }
}

/// The public access block settings of a bucket.
#[derive(Clone, Debug)]
pub struct PublicAccessBlockRecord {
    pub block_public_acls: Option<bool>,
    pub ignore_public_acls: Option<bool>,
    pub block_public_policy: Option<bool>,
    pub restrict_public_buckets: Option<bool>,
}

/// A bucket as S3 lists it.
#[derive(Clone, Debug)]
pub struct S3BucketRecord {
    pub name: Option<String>,
    pub created_at: Option<String>,
}

/// The JSON form of the public access block lookup: the four settings
/// (null where unset) when there is a configuration, else null.
pub open spec fn public_access_block_json(result: Result<Option<PublicAccessBlockRecord>, String>) -> Json {
    match result {
        Ok(Some(c)) => Json::Object(
            seq![
                ("block_public_acls"@, opt_flag(c.block_public_acls)),
                ("ignore_public_acls"@, opt_flag(c.ignore_public_acls)),
                ("block_public_policy"@, opt_flag(c.block_public_policy)),
                ("restrict_public_buckets"@, opt_flag(c.restrict_public_buckets)),
            ],
        ),
        _ => Json::Null,
    }
}

/// Whether a lookup failure means only that the setting is absent.
pub open spec fn benign_s3_error(message: Seq<char>, missing: Seq<char>) -> bool {
    crate::text::contains_seq(message, missing) || crate::text::contains_seq(message, "NoSuchBucket"@)
}

/// The errors a bucket's lookups record, as `(operation, message)` pairs, in order.
pub open spec fn s3_errors(
    location: Result<Option<String>, String>,
    tags: Result<Vec<(String, String)>, String>,
    public_access_block: Result<Option<PublicAccessBlockRecord>, String>,
) -> Seq<(Seq<char>, String)> {
    (match location {
        Err(m) => seq![("GetBucketLocation"@, m)],
        Ok(_) => Seq::empty(),
    }) + (match tags {
        Err(m) => if benign_s3_error(m@, "NoSuchTagSet"@) {
            Seq::empty()
        } else {
            seq![("GetBucketTagging"@, m)]
        },
        Ok(_) => Seq::empty(),
    }) + (match public_access_block {
        Err(m) => if benign_s3_error(m@, "NoSuchPublicAccessBlockConfiguration"@) {
            Seq::empty()
        } else {
            seq![("GetPublicAccessBlock"@, m)]
        },
        Ok(_) => Seq::empty(),
    })
}

/// The region of a bucket from its location lookup; `unknown` when it failed.
pub open spec fn bucket_region(location: Result<Option<String>, String>) -> Seq<char> {
    match location {
        Ok(c) => normalize_s3_region_spec(opt_view(c)),
        Err(_) => "unknown"@,
    }
}

/// The tags of a bucket from its tagging lookup; none when it failed.
pub open spec fn bucket_tags(tags: Result<Vec<(String, String)>, String>) -> Map<Seq<char>, Seq<char>> {
    match tags {
        Ok(t) => pairs_map(t@),
        Err(_) => Map::empty(),
    }
}

/// `after` is `before` with the S3 errors of `errors` appended.
pub open spec fn s3_errors_appended(before: Seq<ScanError>, after: Seq<ScanError>, errors: Seq<(Seq<char>, String)>) -> bool {
    &&& after.len() == before.len() + errors.len()
    &&& after.take(before.len() as int) == before
    &&& forall|i: int|
        0 <= i < errors.len() ==> {
            let e = #[trigger] after[before.len() + i];
            &&& e.service@ == "s3"@
            &&& e.region@ == "global"@
            &&& e.operation@ == errors[i].0
            &&& e.message == errors[i].1
        }
}

impl InventoryBuilder {
    fn record_s3_error(&mut self, operation: &str, message: String)
        requires
            old(self).wf(),
        ensures
            final(self).wf(),
            final(self).same_header(old(self)),
            final(self).resources == old(self).resources,
            final(self).relationships == old(self).relationships,
            s3_errors_appended(old(self).errors@, final(self).errors@, seq![(operation@, message)]),
    {
        self.add_error("s3", "global", operation, message);
        assert(self.errors@.take(old(self).errors@.len() as int) =~= self.errors@.drop_last());
    }

    /// Adds a listed bucket, given the results of looking up its location,
    /// tags and public access block; failed lookups are recorded as errors,
    /// except a missing tag set or access block. A bucket without a name is skipped.
    pub fn add_s3_bucket(
        &mut self,
        bucket: &S3BucketRecord,
        location: Result<Option<String>, String>,
        tags: Result<Vec<(String, String)>, String>,
        public_access_block: Result<Option<PublicAccessBlockRecord>, String>,
    )
        requires
            old(self).wf(),
        ensures
            final(self).wf(),
            final(self).same_header(old(self)),
            final(self).relationships == old(self).relationships,
            match bucket.name {
                None => final(self).resources == old(self).resources && final(self).errors == old(self).errors,
                Some(name) => {
                    let region = bucket_region(location);
                    &&& s3_errors_appended(old(self).errors@, final(self).errors@, s3_errors(location, tags, public_access_block))
                    &&& aws_added(
                        *old(self),
                        final(self).resources@,
                        AwsFields {
                            uid: aws_uid_spec(old(self).account_id@, region, "s3"@, "bucket"@, name@),
                            account_id: old(self).account_id@,
                            partition: old(self).partition@,
                            region,
                            service: "s3"@,
                            resource_type: "bucket"@,
                            id: name@,
                            arn: Some("arn:"@ + old(self).partition@ + ":s3:::"@ + name@),
                            name: Some(name@),
                            tags: bucket_tags(tags),
                            attributes: object_of(
                                seq![
                                    ("created_at"@, opt_text(bucket.created_at)),
                                    ("public_access_block"@, public_access_block_json(public_access_block)),
                                ],
                            ),
                            keep_raw: old(self).include_raw,
                        },
                        seen_by(*old(self), "s3"@, "ListBuckets"@, "$.Buckets[]"@),
                    )
                },
            },
    {
        let name = match &bucket.name {
            Some(n) => n,
            None => {
                return;
            },
        };
        let ghost e0 = self.errors@;
        let ghost spec_location = location;
        let ghost spec_tags = tags;
        let ghost spec_block = public_access_block;
        let ghost expected = s3_errors(spec_location, spec_tags, spec_block);
        let ghost loc_errors: Seq<(Seq<char>, String)> = match spec_location {
            Err(m) => seq![("GetBucketLocation"@, m)],
            Ok(_) => Seq::empty(),
        };
        let region = match location {
            Ok(constraint) => {
                let r = match &constraint {
                    Some(c) => normalize_s3_region(Some(c.as_str())),
                    None => normalize_s3_region(None),
                };
                assert(r@ == normalize_s3_region_spec(opt_view(constraint)));
                assert(self.errors@.take(e0.len() as int) =~= e0);
                r
            },
            Err(message) => {
                self.record_s3_error("GetBucketLocation", message);
                "unknown".to_owned()
            },
        };
        assert(s3_errors_appended(e0, self.errors@, loc_errors));
        let ghost e1 = self.errors@;
        let ghost tag_errors: Seq<(Seq<char>, String)> = match spec_tags {
            Err(m) => if benign_s3_error(m@, "NoSuchTagSet"@) {
                Seq::empty()
            } else {
                seq![("GetBucketTagging"@, m)]
            },
            Ok(_) => Seq::empty(),
        };
        let mut tag_pairs: Vec<(String, String)> = Vec::new();
        assert(pairs_map(tag_pairs@) =~= Map::<Seq<char>, Seq<char>>::empty());
        match tags {
            Ok(t) => {
                pairs_extend(&mut tag_pairs, t);
                assert(pairs_map(tag_pairs@) =~= bucket_tags(spec_tags));
                assert(self.errors@.take(e1.len() as int) =~= e1);
                assert(tag_errors =~= Seq::<(Seq<char>, String)>::empty());
            },
            Err(message) => {
                if !crate::text::contains_str(message.as_str(), "NoSuchTagSet")
                    && !crate::text::contains_str(message.as_str(), "NoSuchBucket") {
                    self.record_s3_error("GetBucketTagging", message);
                } else {
                    assert(self.errors@.take(e1.len() as int) =~= e1);
                    assert(tag_errors =~= Seq::<(Seq<char>, String)>::empty());
                }
            },
        }
        assert(s3_errors_appended(e1, self.errors@, tag_errors));
        let ghost e2 = self.errors@;
        let ghost block_errors: Seq<(Seq<char>, String)> = match spec_block {
            Err(m) => if benign_s3_error(m@, "NoSuchPublicAccessBlockConfiguration"@) {
                Seq::empty()
            } else {
                seq![("GetPublicAccessBlock"@, m)]
            },
            Ok(_) => Seq::empty(),
        };
        let block = match public_access_block {
            Ok(Some(c)) => {
                let members = vec![
                    ("block_public_acls".to_owned(), opt_bool_json(c.block_public_acls)),
                    ("ignore_public_acls".to_owned(), opt_bool_json(c.ignore_public_acls)),
                    ("block_public_policy".to_owned(), opt_bool_json(c.block_public_policy)),
                    ("restrict_public_buckets".to_owned(), opt_bool_json(c.restrict_public_buckets)),
                ];
                proof {
                    broadcast use crate::json::group_json_view;

                    assert(entries_view(members@) =~= seq![
                        ("block_public_acls"@, opt_flag(c.block_public_acls)),
                        ("ignore_public_acls"@, opt_flag(c.ignore_public_acls)),
                        ("block_public_policy"@, opt_flag(c.block_public_policy)),
                        ("restrict_public_buckets"@, opt_flag(c.restrict_public_buckets)),
                    ]);
                }
                JsonValue::Object(members)
            },
            Ok(None) => JsonValue::Null,
            Err(message) => {
                if !crate::text::contains_str(message.as_str(), "NoSuchPublicAccessBlockConfiguration")
                    && !crate::text::contains_str(message.as_str(), "NoSuchBucket") {
                    self.record_s3_error("GetPublicAccessBlock", message);
                } else {
                    assert(block_errors =~= Seq::<(Seq<char>, String)>::empty());
                }
                JsonValue::Null
            },
        };
        proof {
            if spec_block is Ok {
                assert(block_errors =~= Seq::<(Seq<char>, String)>::empty());
            }
            if self.errors@ == e2 {
                assert(self.errors@.take(e2.len() as int) =~= e2);
            }
        }
        assert(s3_errors_appended(e2, self.errors@, block_errors));
        proof {
            let e3 = self.errors@;
            assert(expected =~= loc_errors + tag_errors + block_errors);
            assert(e3.take(e0.len() as int) =~= e0) by {
                assert(e3.take(e1.len() as int) == e1);
                assert(e3.take(e2.len() as int) == e2);
            }
            assert forall|i: int| 0 <= i < expected.len() implies {
                let e = #[trigger] e3[e0.len() + i];
                &&& e.service@ == "s3"@
                &&& e.region@ == "global"@
                &&& e.operation@ == expected[i].0
                &&& e.message == expected[i].1
            } by {
                if i < loc_errors.len() {
                    assert(e1[e0.len() + i] == e3[e0.len() + i]) by {
                        assert(e3.take(e1.len() as int) == e1);
                        assert(e3.take(e1.len() as int)[e0.len() + i] == e3[e0.len() + i]);
                    }
                } else if i < loc_errors.len() + tag_errors.len() {
                    let k = i - loc_errors.len();
                    assert(e2[e1.len() + k] == e3[e0.len() + i]) by {
                        assert(e3.take(e2.len() as int) == e2);
                        assert(e3.take(e2.len() as int)[e1.len() + k] == e3[e1.len() + k]);
                    }
                } else {
                    let k = i - loc_errors.len() - tag_errors.len();
                    assert(e3[e2.len() + k] == e3[e0.len() + i]);
                }
            }
        }
        let mut arn = "arn:".to_owned();
        arn.append(self.partition.as_str());
        arn.append(":s3:::");
        arn.append(name.as_str());
        let uid = resource_uid(self.account_id.as_str(), region.as_str(), "s3", "bucket", name.as_str());
        let entries = vec![("created_at", opt_str_json(&bucket.created_at)), ("public_access_block", block)];
        assert(pairs_model(entries@) =~= seq![
            ("created_at"@, opt_text(bucket.created_at)),
            ("public_access_block"@, public_access_block_json(spec_block)),
        ]);
        let attributes = json_object(entries);
        let account_id = self.account_id.clone();
        let partition = self.partition.clone();
        let keep_raw = self.include_raw;
        let ghost before_resource = *self;
        self.add_aws_resource(
            uid,
            account_id,
            partition,
            region.as_str(),
            "s3",
            "bucket",
            name.as_str(),
            Some(arn),
            Some(name.clone()),
            tag_pairs,
            attributes,
            keep_raw,
            ("s3", "ListBuckets", "$.Buckets[]"),
        );
    }

    /// Adds the account itself, as the caller identity names it.
    pub fn add_account_resource(&mut self, caller_arn: Option<&str>)
        requires
            old(self).wf(),
        ensures
            only_graph_changed(*final(self), *old(self)),
            final(self).relationships == old(self).relationships,
            aws_added(
                *old(self),
                final(self).resources@,
                AwsFields {
                    uid: aws_uid_spec(old(self).account_id@, "global"@, "iam"@, "account"@, old(self).account_id@),
                    account_id: old(self).account_id@,
                    partition: old(self).partition@,
                    region: "global"@,
                    service: "iam"@,
                    resource_type: "account"@,
                    id: old(self).account_id@,
                    arn: match caller_arn {
                        Some(a) => Some(a@),
                        None => None,
                    },
                    name: None,
                    tags: Map::empty(),
                    attributes: object_of(
                        seq![
                            ("caller_arn"@, match caller_arn {
                                Some(a) => Json::Str(a@),
                                None => Json::Null,
                            }),
                        ],
                    ),
                    keep_raw: false,
                },
                seen_by(*old(self), "sts"@, "GetCallerIdentity"@, "$"@),
            ),
    {
        let uid = resource_uid(self.account_id.as_str(), "global", "iam", "account", self.account_id.as_str());
        let arn: Option<String> = match caller_arn {
            Some(a) => Some(a.to_owned()),
            None => None,
        };
        let entries = vec![("caller_arn", opt_str_json(&arn))];
        assert(pairs_model(entries@) =~= seq![
            ("caller_arn"@, match caller_arn {
                Some(a) => Json::Str(a@),
                None => Json::Null,
            }),
        ]);
        let attributes = json_object(entries);
        let account_id = self.account_id.clone();
        let partition = self.partition.clone();
        let id = self.account_id.clone();
        self.add_aws_resource(
            uid,
            account_id,
            partition,
            "global",
            "iam",
            "account",
            id.as_str(),
            arn,
            None,
            Vec::new(),
            attributes,
            false,
            ("sts", "GetCallerIdentity", "$"),
        );
        proof {
            assert(pairs_map(Seq::<(String, String)>::empty()) =~= Map::<Seq<char>, Seq<char>>::empty());
        }
    }
}

/// The partition of the caller's ARN: its second `:`-separated piece, `aws` when it has none.
pub open spec fn caller_partition(arn: Option<Seq<char>>) -> Seq<char> {
    match arn {
        Some(a) => if split_all_spec(a, ':').len() > 1 {
            split_all_spec(a, ':')[1]
        } else {
            "aws"@
        },
        None => "aws"@,
    }
}

/// The partition of the caller's ARN.
pub fn partition_from_caller_arn(arn: Option<&str>) -> (r: String)
    ensures
        r@ == caller_partition(
            match arn {
                Some(a) => Some(a@),
                None => None,
            },
        ),
{
    match arn {
        Some(a) => {
            let pieces = split_all(a, ':');
            if pieces.len() > 1 {
                assert(pieces.deep_view()[1] == pieces@[1]@);
                pieces[1].clone()
            } else {
                "aws".to_owned()
            }
        },
        None => "aws".to_owned(),
    }
}


/// Looking a key up after appending a member finds the earlier member first.
proof fn lemma_lookup_push(p: Seq<(Seq<char>, Json)>, x: (Seq<char>, Json), k: Seq<char>)
    ensures
        lookup(p.push(x), k) == (if lookup(p, k) is Some {
            lookup(p, k)
        } else if x.0 == k {
            Some(x.1)
        } else {
            None
        }),
    decreases p.len(),
{
    let q = p.push(x);
    if p.len() > 0 {
        assert(q[0] == p[0]);
        assert(q.drop_first() =~= p.drop_first().push(x));
        lemma_lookup_push(p.drop_first(), x, k);
        if p[0].0 == k {
            assert(lookup(q, k) == Some(p[0].1));
            assert(lookup(p, k) == Some(p[0].1));
        } else {
            assert(lookup(q, k) == lookup(q.drop_first(), k));
            assert(lookup(p, k) == lookup(p.drop_first(), k));
        }
    } else {
        assert(q[0] == x);
        assert(q.drop_first() =~= Seq::<(Seq<char>, Json)>::empty());
        assert(lookup(q.drop_first(), k) is None);
        assert(lookup(p, k) is None);
    }
}

/// Members already held keep their values; a key held only by the
/// incoming members gets its first incoming value.
proof fn lemma_add_missing_lookup(e: Seq<(Seq<char>, Json)>, i: Seq<(Seq<char>, Json)>, k: Seq<char>)
    ensures
        lookup(e, k) is Some ==> lookup(add_missing(e, i), k) == lookup(e, k),
        lookup(e, k) is None ==> lookup(add_missing(e, i), k) == lookup(i, k),
    decreases i.len(),
{
    if i.len() > 0 {
        let prev = add_missing(e, i.drop_last());
        lemma_add_missing_lookup(e, i.drop_last(), k);
        lemma_lookup_push(prev, i.last(), k);
        assert(i.drop_last().push(i.last()) =~= i);
        lemma_lookup_push(i.drop_last(), i.last(), k);
    }
}

/// Merging attributes never overwrites what a resource already has: when
/// both sides are non-empty objects, every member already held keeps its
/// value, and every other key of the incoming object is added with its value.
pub proof fn law_merge_preserves_existing(existing: Json, incoming: Json, key: Seq<char>)
    requires
        existing is Object,
        incoming is Object,
        !is_empty_object(existing),
        !is_empty_object(incoming),
    ensures
        crate::json::json_get(existing, key) is Some ==> crate::json::json_get(
            merge_attributes_spec(existing, incoming),
            key,
        ) == crate::json::json_get(existing, key),
        crate::json::json_get(existing, key) is None ==> crate::json::json_get(
            merge_attributes_spec(existing, incoming),
            key,
        ) == crate::json::json_get(incoming, key),
{
    match (existing, incoming) {
        (Json::Object(e), Json::Object(i)) => {
            lemma_add_missing_lookup(e, i, key);
        },
        _ => {},
    }
}

/// Observing the same relationship again keeps one relationship: the
/// second observation adds no uid, keeps the endpoints and attributes of
/// the first, and appends its evidence, so a relationship first seen with
/// `e1` and then with `e2` holds exactly `[e1, e2]`.
pub proof fn law_repeated_relationship(
    m0: Map<Seq<char>, Relationship>,
    m1: Map<Seq<char>, Relationship>,
    m2: Map<Seq<char>, Relationship>,
    from: Seq<char>,
    relationship_type: Seq<char>,
    to: Seq<char>,
    e1: Evidence,
    e2: Evidence,
    a1: JsonValue,
    a2: JsonValue,
)
    requires
        relationship_added(m0, m1, from, relationship_type, to, e1, a1),
        relationship_added(m1, m2, from, relationship_type, to, e2, a2),
    ensures
        m2.dom() == m1.dom(),
        ({
            let uid = relationship_uid_spec(from, relationship_type, to);
            &&& m2[uid].evidence@ == m1[uid].evidence@.push(e2)
            &&& m2[uid].attributes == m1[uid].attributes
            &&& !m0.contains_key(uid) ==> m2[uid].evidence@ == seq![e1, e2] && m2[uid].attributes == a1
        }),
{
    let uid = relationship_uid_spec(from, relationship_type, to);
    assert(m1.contains_key(uid));
    assert(m2.dom() =~= m1.dom());
    if !m0.contains_key(uid) {
        assert(m2[uid].evidence@ =~= seq![e1, e2]);
    }
}

/// What a step of an account scan asks AWS for.
#[derive(Clone, Copy, Debug, PartialEq, Eq, Structural)]
pub enum ScanStage {
    S3,
    Iam,
    Ec2,
    Lambda,
    TaggedResources,
}

/// A step of an account scan: what it asks for, in which region, and the
/// service and operation an error of the step is recorded under.
#[derive(Clone, Debug)]
pub struct ScanStep {
    pub stage: ScanStage,
    pub service: String,
    pub region: String,
    pub operation: String,
}

/// What a step is.
pub open spec fn step_view(s: ScanStep) -> (ScanStage, Seq<char>, Seq<char>, Seq<char>) {
    (s.stage, s.service@, s.region@, s.operation@)
}

/// The steps of each region, region by region: EC2, Lambda, then the
/// tagging API.
pub open spec fn regional_steps(regions: Seq<Seq<char>>) -> Seq<(ScanStage, Seq<char>, Seq<char>, Seq<char>)>
    decreases regions.len(),
{
    if regions.len() == 0 {
        seq![]
    } else {
        let r = regions.last();
        regional_steps(regions.drop_last()) + seq![
            (ScanStage::Ec2, "ec2"@, r, "regional scan"@),
            (ScanStage::Lambda, "lambda"@, r, "ListFunctions"@),
            (ScanStage::TaggedResources, "resourcegroupstagging"@, r, "GetResources"@),
        ]
    }
}

/// The steps of an account scan: S3 from the home region, IAM, then each
/// region's steps. Every step is taken whatever the earlier ones gave.
pub open spec fn scan_plan_spec(home_region: Seq<char>, regions: Seq<Seq<char>>) -> Seq<
    (ScanStage, Seq<char>, Seq<char>, Seq<char>),
> {
    seq![
        (ScanStage::S3, "s3"@, home_region, "ListBuckets"@),
        (ScanStage::Iam, "iam"@, "global"@, "ListRoles/ListUsers/ListGroups"@),
    ] + regional_steps(regions)
}

fn scan_step(stage: ScanStage, service: &str, region: &str, operation: &str) -> (r: ScanStep)
    ensures
        step_view(r) == (stage, service@, region@, operation@),
{
    ScanStep { stage, service: service.to_owned(), region: region.to_owned(), operation: operation.to_owned() }
}

/// The steps of a scan of the given regions.
pub fn scan_plan(home_region: &str, regions: &Vec<String>) -> (r: Vec<ScanStep>)
    ensures
        r@.map_values(|s: ScanStep| step_view(s)) == scan_plan_spec(home_region@, crate::order::texts(regions@)),
{
    let mut steps = vec![
        scan_step(ScanStage::S3, "s3", home_region, "ListBuckets"),
        scan_step(ScanStage::Iam, "iam", "global", "ListRoles/ListUsers/ListGroups"),
    ];
    let ghost head = seq![
        (ScanStage::S3, "s3"@, home_region@, "ListBuckets"@),
        (ScanStage::Iam, "iam"@, "global"@, "ListRoles/ListUsers/ListGroups"@),
    ];
    assert(steps@.map_values(|s: ScanStep| step_view(s)) =~= head + regional_steps(crate::order::texts(regions@).take(0)));
    let mut i: usize = 0;
    while i < regions.len()
        invariant
            i <= regions@.len(),
            head == seq![
                (ScanStage::S3, "s3"@, home_region@, "ListBuckets"@),
                (ScanStage::Iam, "iam"@, "global"@, "ListRoles/ListUsers/ListGroups"@),
            ],
            steps@.map_values(|s: ScanStep| step_view(s)) == head + regional_steps(crate::order::texts(regions@).take(i as int)),
        decreases regions@.len() - i,
    {
        let region = regions[i].as_str();
        let ghost before = steps@;
        steps.push(scan_step(ScanStage::Ec2, "ec2", region, "regional scan"));
        steps.push(scan_step(ScanStage::Lambda, "lambda", region, "ListFunctions"));
        steps.push(scan_step(ScanStage::TaggedResources, "resourcegroupstagging", region, "GetResources"));
        proof {
            let t = crate::order::texts(regions@);
            assert(t.take(i + 1).drop_last() =~= t.take(i as int));
            assert(t.take(i + 1).last() == region@);
            assert(steps@.map_values(|s: ScanStep| step_view(s)) =~= before.map_values(|s: ScanStep| step_view(s)) + seq![
                (ScanStage::Ec2, "ec2"@, region@, "regional scan"@),
                (ScanStage::Lambda, "lambda"@, region@, "ListFunctions"@),
                (ScanStage::TaggedResources, "resourcegroupstagging"@, region@, "GetResources"@),
            ]);
        }
        i += 1;
    }
    assert(crate::order::texts(regions@).take(i as int) =~= crate::order::texts(regions@));
    steps
}

/// A scan takes S3 and IAM and, for each region, its EC2, Lambda and tagging
/// steps: three steps a region after the two global ones.
pub proof fn lemma_scan_plan_covers(home_region: Seq<char>, regions: Seq<Seq<char>>)
    ensures
        scan_plan_spec(home_region, regions).len() == 2 + 3 * regions.len(),
        forall|k: int|
            0 <= k < regions.len() ==> {
                let plan = scan_plan_spec(home_region, regions);
                &&& plan[2 + 3 * k] == (ScanStage::Ec2, "ec2"@, #[trigger] regions[k], "regional scan"@)
                &&& plan[3 + 3 * k] == (ScanStage::Lambda, "lambda"@, regions[k], "ListFunctions"@)
                &&& plan[4 + 3 * k] == (ScanStage::TaggedResources, "resourcegroupstagging"@, regions[k], "GetResources"@)
            },
    decreases regions.len(),
{
    if regions.len() > 0 {
        let prev = regions.drop_last();
        lemma_scan_plan_covers(home_region, prev);
        assert forall|k: int| 0 <= k < regions.len() implies {
            let plan = scan_plan_spec(home_region, regions);
            &&& plan[2 + 3 * k] == (ScanStage::Ec2, "ec2"@, #[trigger] regions[k], "regional scan"@)
            &&& plan[3 + 3 * k] == (ScanStage::Lambda, "lambda"@, regions[k], "ListFunctions"@)
            &&& plan[4 + 3 * k] == (ScanStage::TaggedResources, "resourcegroupstagging"@, regions[k], "GetResources"@)
        } by {
            if k < prev.len() {
                assert(prev[k] == regions[k]);
            }
        }
    }
}

impl InventoryBuilder {
    /// Records that a scan step failed and the scan goes on: the step's
    /// error is added, and the resources and relationships found so far are kept.
    pub fn record_failure(&mut self, step: &ScanStep, message: String)
        requires
            old(self).wf(),
        ensures
            final(self).wf(),
            final(self).same_header(old(self)),
            final(self).resources == old(self).resources,
            final(self).relationships == old(self).relationships,
            final(self).errors@.drop_last() == old(self).errors@,
            final(self).errors@.len() == old(self).errors@.len() + 1,
            crate::model::error_view(final(self).errors@.last()) == (step.service@, step.region@, step.operation@, message@),
            error_views(*final(self)) == error_views(*old(self)).push(step_error(step_view(*step), message@)),
    {
        self.add_error(step.service.as_str(), step.region.as_str(), step.operation.as_str(), message);
        assert(error_views(*self) =~= error_views(*old(self)).push(step_error(step_view(*step), message@)));
    }
}

/// `a` is `b` seen again: the same resource of the same account, service,
/// type and id, keeping its ARN once it has one.
pub open spec fn kept_resource(b: Resource, a: Resource) -> bool {
    &&& a.uid == b.uid
    &&& a.provider == b.provider
    &&& a.account_id == b.account_id
    &&& a.partition == b.partition
    &&& a.region == b.region
    &&& a.service == b.service
    &&& a.resource_type == b.resource_type
    &&& a.id == b.id
    &&& (b.arn is Some ==> a.arn == b.arn)
}

/// Every resource of `b` is still in `a`, kept.
pub open spec fn resources_kept(b: Map<Seq<char>, Resource>, a: Map<Seq<char>, Resource>) -> bool {
    forall|k: Seq<char>| #[trigger] b.contains_key(k) ==> a.contains_key(k) && kept_resource(b[k], a[k])
}

/// `m` holds, under the uid of `f`, a resource with the account, partition,
/// region, service, type and id of `f`, and its ARN where `f` has one.
pub open spec fn fields_at(m: Map<Seq<char>, Resource>, f: AwsFields) -> bool {
    &&& m.contains_key(f.uid)
    &&& m[f.uid].uid@ == f.uid
    &&& m[f.uid].provider@ == "aws"@
    &&& m[f.uid].account_id@ == f.account_id
    &&& m[f.uid].partition@ == f.partition
    &&& m[f.uid].region@ == f.region
    &&& m[f.uid].service@ == f.service
    &&& m[f.uid].resource_type@ == f.resource_type
    &&& m[f.uid].id@ == f.id
    &&& (f.arn is Some ==> opt_view(m[f.uid].arn) == f.arn)
}

/// Adding a resource keeps every resource held.
pub proof fn lemma_resource_added_kept(before: Map<Seq<char>, Resource>, after: Map<Seq<char>, Resource>, r: Resource)
    requires
        resource_added(before, after, r),
    ensures
        resources_kept(before, after),
{
    assert forall|k: Seq<char>| #[trigger] before.contains_key(k) implies after.contains_key(k) && kept_resource(before[k], after[k]) by {
        if k != r.uid@ {
            assert(after[k] == before[k]);
        }
    }
}

/// Adding the resource with fields `f` leaves it held with those fields,
/// where what was held under its uid already had them.
pub proof fn lemma_added_fields(
    before: Map<Seq<char>, Resource>,
    after: Map<Seq<char>, Resource>,
    r: Resource,
    f: AwsFields,
    seen: Observation,
)
    requires
        resource_added(before, after, r),
        aws_resource_is(r, f, seen),
        before.contains_key(f.uid) ==> fields_at(before, f),
    ensures
        fields_at(after, f),
        resources_kept(before, after),
{
    lemma_resource_added_kept(before, after, r);
}

/// Kept resources keep their fields.
pub proof fn lemma_kept_fields(before: Map<Seq<char>, Resource>, after: Map<Seq<char>, Resource>, f: AwsFields)
    requires
        resources_kept(before, after),
        fields_at(before, f),
    ensures
        fields_at(after, f),
{
    assert(kept_resource(before[f.uid], after[f.uid]));
}

/// Keeping resources in two steps keeps them.
pub proof fn lemma_kept_chain(m0: Map<Seq<char>, Resource>, m1: Map<Seq<char>, Resource>, m2: Map<Seq<char>, Resource>)
    requires
        resources_kept(m0, m1),
        resources_kept(m1, m2),
    ensures
        resources_kept(m0, m2),
{
    assert forall|k: Seq<char>| #[trigger] m0.contains_key(k) implies m2.contains_key(k) && kept_resource(m0[k], m2[k]) by {
        assert(m1.contains_key(k));
        assert(kept_resource(m1[k], m2[k]));
    }
}

/// The fields of the instance of a record with an id.
pub open spec fn instance_fields(b: InventoryBuilder, region: Seq<char>, instance: InstanceRecord) -> AwsFields {
    ec2_fields(
        b,
        region,
        "instance"@,
        "instance"@,
        instance.instance_id->0@,
        ec2_tags_spec(instance.tags@),
        map_get(ec2_tags_spec(instance.tags@), "Name"@),
        instance_attributes(instance),
    )
}

/// The edges the described instances record, record by record.
pub open spec fn instances_edges(
    account_id: Seq<char>,
    region: Seq<char>,
    instances: Seq<InstanceRecord>,
    collected_at: Seq<char>,
) -> Set<Edge>
    decreases instances.len(),
{
    if instances.len() == 0 {
        Set::empty()
    } else {
        let prev = instances_edges(account_id, region, instances.drop_last(), collected_at);
        match instances.last().instance_id {
            Some(id) => prev.union(
                instance_edges(ec2_uid(account_id, region, "instance"@, id@), account_id, region, instances.last(), collected_at),
            ),
            None => prev,
        }
    }
}

/// No other record of the list names a different resource with the same uid
/// as the record at `i`.
pub open spec fn uid_unshared<K>(uids: Seq<Option<Seq<char>>>, keys: Seq<K>, i: int) -> bool {
    forall|j: int|
        0 <= j < uids.len() && #[trigger] uids[j] == uids[i] ==> keys[j] == keys[i]
}

/// The uids of the records with an id, `None` for the others.
pub open spec fn instance_uids(account_id: Seq<char>, region: Seq<char>, instances: Seq<InstanceRecord>) -> Seq<Option<Seq<char>>> {
    instances.map_values(
        |r: InstanceRecord| match r.instance_id {
            Some(id) => Some(ec2_uid(account_id, region, "instance"@, id@)),
            None => None,
        },
    )
}

/// The ids of the records, empty for those without one.
pub open spec fn instance_keys(instances: Seq<InstanceRecord>) -> Seq<Seq<char>> {
    instances.map_values(
        |r: InstanceRecord| match r.instance_id {
            Some(id) => id@,
            None => Seq::empty(),
        },
    )
}

impl InventoryBuilder {
    /// Adds every described instance of a region, page after page. Each
    /// instance with an id is then held; where the builder held nothing
    /// under its uid before and no other instance shares that uid, it is
    /// held as that EC2 instance with its ARN; and every instance's VPC,
    /// subnet, security group and instance profile edges are recorded.
    pub fn add_instances(&mut self, region: &str, instances: &Vec<InstanceRecord>)
        requires
            old(self).wf(),
        ensures
            only_graph_changed(*final(self), *old(self)),
            resources_kept(old(self).resource_map(), final(self).resource_map()),
            forall|i: int|
                0 <= i < instances@.len() && (#[trigger] instances@[i]).instance_id is Some ==> {
                    let f = instance_fields(*old(self), region@, instances@[i]);
                    &&& final(self).resource_map().contains_key(f.uid)
                    &&& !old(self).resource_map().contains_key(f.uid) && uid_unshared(
                        instance_uids(old(self).account_id@, region@, instances@),
                        instance_keys(instances@),
                        i,
                    ) ==> fields_at(final(self).resource_map(), f)
                },
            edges_recorded(
                old(self).relationship_map(),
                final(self).relationship_map(),
                instances_edges(old(self).account_id@, region@, instances@, old(self).collected_at@),
            ),
    {
        let ghost start = *self;
        let ghost recs = instances@;
        let ghost uids = instance_uids(start.account_id@, region@, recs);
        let ghost keys = instance_keys(recs);
        proof {
            lemma_edges_none(start.relationship_map());
            assert(instances_edges(start.account_id@, region@, recs.take(0), start.collected_at@) =~= Set::empty());
        }
        let mut i: usize = 0;
        while i < instances.len()
            invariant
                i <= recs.len(),
                recs == instances@,
                uids == instance_uids(start.account_id@, region@, recs),
                keys == instance_keys(recs),
                only_graph_changed(*self, start),
                resources_kept(start.resource_map(), self.resource_map()),
                forall|j: int|
                    0 <= j < i && (#[trigger] recs[j]).instance_id is Some ==> {
                        let f = instance_fields(start, region@, recs[j]);
                        &&& self.resource_map().contains_key(f.uid)
                        &&& !start.resource_map().contains_key(f.uid) && uid_unshared(uids, keys, j) ==> fields_at(
                            self.resource_map(),
                            f,
                        )
                    },
                forall|k: Seq<char>|
                    #[trigger] self.resource_map().contains_key(k) && !start.resource_map().contains_key(k) ==> exists|j: int|
                        0 <= j < i && uids[j] == Some(k),
                edges_recorded(
                    start.relationship_map(),
                    self.relationship_map(),
                    instances_edges(start.account_id@, region@, recs.take(i as int), start.collected_at@),
                ),
            decreases recs.len() - i,
        {
            let ghost mid = *self;
            self.add_instance(region, &instances[i]);
            proof {
                let rec = recs[i as int];
                assert(recs.take(i + 1).drop_last() =~= recs.take(i as int));
                assert(recs.take(i + 1).last() == rec);
                match rec.instance_id {
                    Some(id) => {
                        let f = instance_fields(start, region@, rec);
                        assert(f == instance_fields(mid, region@, rec));
                        let seen = seen_by(mid, "ec2"@, "DescribeInstances"@, "$.Reservations[].Instances[]"@);
                        let r = choose|r: Resource|
                            resource_added(mid.resource_map(), keyed_map(self.resources@), r) && aws_resource_is(r, f, seen);
                        assert(uids[i as int] == Some(f.uid));
                        lemma_resource_added_kept(mid.resource_map(), self.resource_map(), r);
                        if !start.resource_map().contains_key(f.uid) && uid_unshared(uids, keys, i as int) {
                            if mid.resource_map().contains_key(f.uid) {
                                let j = choose|j: int| 0 <= j < i && uids[j] == Some(f.uid);
                                assert(uids[j] == uids[i as int]);
                                assert(keys[j] == keys[i as int]);
                                assert(recs[j].instance_id is Some);
                                assert(uid_unshared(uids, keys, j)) by {
                                    assert forall|l: int| 0 <= l < uids.len() && #[trigger] uids[l] == uids[j] implies keys[l] == keys[j] by {
                                        assert(uids[l] == uids[i as int]);
                                    }
                                }
                                let g = instance_fields(start, region@, recs[j]);
                                assert(fields_at(mid.resource_map(), g));
                                assert(fields_at(mid.resource_map(), f));
                            }
                            lemma_added_fields(mid.resource_map(), self.resource_map(), r, f, seen);
                        }
                        assert forall|j: int|
                            0 <= j < i + 1 && (#[trigger] recs[j]).instance_id is Some implies {
                                let g = instance_fields(start, region@, recs[j]);
                                &&& self.resource_map().contains_key(g.uid)
                                &&& !start.resource_map().contains_key(g.uid) && uid_unshared(uids, keys, j) ==> fields_at(
                                    self.resource_map(),
                                    g,
                                )
                            } by {
                            if j < i {
                                let g = instance_fields(start, region@, recs[j]);
                                assert(mid.resource_map().contains_key(g.uid));
                                if !start.resource_map().contains_key(g.uid) && uid_unshared(uids, keys, j) {
                                    lemma_kept_fields(mid.resource_map(), self.resource_map(), g);
                                }
                            }
                        }
                        assert forall|k: Seq<char>|
                            #[trigger] self.resource_map().contains_key(k) && !start.resource_map().contains_key(k) implies exists|j: int|
                                0 <= j < i + 1 && uids[j] == Some(k) by {
                            if k != f.uid {
                                assert(mid.resource_map().contains_key(k));
                                let j = choose|j: int| 0 <= j < i && uids[j] == Some(k);
                                assert(uids[j] == Some(k));
                            } else {
                                assert(uids[i as int] == Some(k));
                            }
                        }
                    },
                    None => {
                        assert(self.resources == mid.resources);
                    },
                }
                lemma_kept_chain(start.resource_map(), mid.resource_map(), self.resource_map());
                lemma_edges_chain(
                    start.relationship_map(),
                    mid.relationship_map(),
                    self.relationship_map(),
                    instances_edges(start.account_id@, region@, recs.take(i as int), start.collected_at@),
                    match rec.instance_id {
                        Some(id) => instance_edges(ec2_uid(start.account_id@, region@, "instance"@, id@), start.account_id@, region@, rec, start.collected_at@),
                        None => Set::empty(),
                    },
                );
            }
            i += 1;
        }
        assert(recs.take(i as int) =~= recs);
    }
}

/// The fields of the route table of a record with an id.
pub open spec fn route_table_fields(b: InventoryBuilder, region: Seq<char>, table: RouteTableRecord) -> AwsFields {
    ec2_fields(
        b,
        region,
        "route-table"@,
        "route-table"@,
        table.route_table_id->0@,
        ec2_tags_spec(table.tags@),
        map_get(ec2_tags_spec(table.tags@), "Name"@),
        route_table_attributes(table),
    )
}

/// The edges a described route table records: to its VPC, from each
/// associated subnet, and to each route target.
pub open spec fn route_table_edges(
    account_id: Seq<char>,
    region: Seq<char>,
    uid: Seq<char>,
    table: RouteTableRecord,
    collected_at: Seq<char>,
) -> Set<Edge> {
    let seen = |path: Seq<char>| Observation { service: "ec2"@, operation: "DescribeRouteTables"@, path, collected_at };
    opt_edge(uid, "in_vpc"@, account_id, region, "vpc"@, table.vpc_id, seen("$.RouteTables[].VpcId"@)).union(
        edges_from_each(
            account_id,
            region,
            "subnet"@,
            association_subnets(table.associations@),
            "uses_route_table"@,
            uid,
            seen("$.RouteTables[].Associations[].SubnetId"@),
        ),
    ).union(route_edges(account_id, region, uid, table.routes@, seen("$.RouteTables[].Routes[]"@)))
}

/// The edges the described route tables record, table by table.
pub open spec fn route_tables_edges(
    account_id: Seq<char>,
    region: Seq<char>,
    tables: Seq<RouteTableRecord>,
    collected_at: Seq<char>,
) -> Set<Edge>
    decreases tables.len(),
{
    if tables.len() == 0 {
        Set::empty()
    } else {
        let prev = route_tables_edges(account_id, region, tables.drop_last(), collected_at);
        match tables.last().route_table_id {
            Some(id) => prev.union(
                route_table_edges(account_id, region, ec2_uid(account_id, region, "route-table"@, id@), tables.last(), collected_at),
            ),
            None => prev,
        }
    }
}

/// The uids of the route tables with an id, `None` for the others.
pub open spec fn route_table_uids(account_id: Seq<char>, region: Seq<char>, tables: Seq<RouteTableRecord>) -> Seq<Option<Seq<char>>> {
    tables.map_values(
        |r: RouteTableRecord| match r.route_table_id {
            Some(id) => Some(ec2_uid(account_id, region, "route-table"@, id@)),
            None => None,
        },
    )
}

/// The ids of the route tables, empty for those without one.
pub open spec fn route_table_keys(tables: Seq<RouteTableRecord>) -> Seq<Seq<char>> {
    tables.map_values(
        |r: RouteTableRecord| match r.route_table_id {
            Some(id) => id@,
            None => Seq::empty(),
        },
    )
}

/// The uid of a listed function: the one its ARN names, else that of its name.
pub open spec fn function_uid(account_id: Seq<char>, region: Seq<char>, function: LambdaFunctionRecord) -> Seq<char> {
    uid_or(account_id, function.function_arn, aws_uid_spec(account_id, region, "lambda"@, "function"@, function.function_name->0@))
}

/// The fields of the function of a record with a name.
pub open spec fn function_fields(b: InventoryBuilder, region: Seq<char>, function: LambdaFunctionRecord) -> AwsFields {
    AwsFields {
        uid: function_uid(b.account_id@, region, function),
        account_id: b.account_id@,
        partition: b.partition@,
        region,
        service: "lambda"@,
        resource_type: "function"@,
        id: function.function_name->0@,
        arn: opt_view(function.function_arn),
        name: Some(function.function_name->0@),
        tags: Map::empty(),
        attributes: lambda_attributes(function),
        keep_raw: b.include_raw,
    }
}

/// The edges the listed functions record, function by function.
pub open spec fn functions_edges(
    account_id: Seq<char>,
    region: Seq<char>,
    functions: Seq<LambdaFunctionRecord>,
    collected_at: Seq<char>,
) -> Set<Edge>
    decreases functions.len(),
{
    if functions.len() == 0 {
        Set::empty()
    } else {
        let prev = functions_edges(account_id, region, functions.drop_last(), collected_at);
        match functions.last().function_name {
            Some(name) => prev.union(
                lambda_edges(function_uid(account_id, region, functions.last()), account_id, region, functions.last(), collected_at),
            ),
            None => prev,
        }
    }
}

/// The uids of the functions with a name, `None` for the others.
pub open spec fn function_uids(account_id: Seq<char>, region: Seq<char>, functions: Seq<LambdaFunctionRecord>) -> Seq<Option<Seq<char>>> {
    functions.map_values(
        |r: LambdaFunctionRecord| match r.function_name {
            Some(name) => Some(function_uid(account_id, region, r)),
            None => None,
        },
    )
}

/// The name and ARN of each function.
pub open spec fn function_keys(functions: Seq<LambdaFunctionRecord>) -> Seq<(Option<Seq<char>>, Option<Seq<char>>)> {
    functions.map_values(|r: LambdaFunctionRecord| (opt_view(r.function_name), opt_view(r.function_arn)))
}

impl InventoryBuilder {
    /// Adds every described route table of a region, page after page. Each
    /// table with an id is then held; where the builder held nothing under
    /// its uid before and no other table shares that uid, it is held as that
    /// EC2 route table with its ARN; and every table's VPC, subnet
    /// association and route target edges are recorded.
    pub fn add_route_tables(&mut self, region: &str, tables: &Vec<RouteTableRecord>)
        requires
            old(self).wf(),
        ensures
            only_graph_changed(*final(self), *old(self)),
            resources_kept(old(self).resource_map(), final(self).resource_map()),
            forall|i: int|
                0 <= i < tables@.len() && (#[trigger] tables@[i]).route_table_id is Some ==> {
                    let f = route_table_fields(*old(self), region@, tables@[i]);
                    &&& final(self).resource_map().contains_key(f.uid)
                    &&& !old(self).resource_map().contains_key(f.uid) && uid_unshared(
                        route_table_uids(old(self).account_id@, region@, tables@),
                        route_table_keys(tables@),
                        i,
                    ) ==> fields_at(final(self).resource_map(), f)
                },
            edges_recorded(
                old(self).relationship_map(),
                final(self).relationship_map(),
                route_tables_edges(old(self).account_id@, region@, tables@, old(self).collected_at@),
            ),
    {
        let ghost start = *self;
        let ghost recs = tables@;
        let ghost uids = route_table_uids(start.account_id@, region@, recs);
        let ghost keys = route_table_keys(recs);
        proof {
            lemma_edges_none(start.relationship_map());
            assert(route_tables_edges(start.account_id@, region@, recs.take(0), start.collected_at@) =~= Set::empty());
        }
        let mut i: usize = 0;
        while i < tables.len()
            invariant
                i <= recs.len(),
                recs == tables@,
                uids == route_table_uids(start.account_id@, region@, recs),
                keys == route_table_keys(recs),
                only_graph_changed(*self, start),
                resources_kept(start.resource_map(), self.resource_map()),
                forall|j: int|
                    0 <= j < i && (#[trigger] recs[j]).route_table_id is Some ==> {
                        let f = route_table_fields(start, region@, recs[j]);
                        &&& self.resource_map().contains_key(f.uid)
                        &&& !start.resource_map().contains_key(f.uid) && uid_unshared(uids, keys, j) ==> fields_at(
                            self.resource_map(),
                            f,
                        )
                    },
                forall|k: Seq<char>|
                    #[trigger] self.resource_map().contains_key(k) && !start.resource_map().contains_key(k) ==> exists|j: int|
                        0 <= j < i && uids[j] == Some(k),
                edges_recorded(
                    start.relationship_map(),
                    self.relationship_map(),
                    route_tables_edges(start.account_id@, region@, recs.take(i as int), start.collected_at@),
                ),
            decreases recs.len() - i,
        {
            let ghost mid = *self;
            self.add_route_table(region, &tables[i]);
            proof {
                let rec = recs[i as int];
                assert(recs.take(i + 1).drop_last() =~= recs.take(i as int));
                assert(recs.take(i + 1).last() == rec);
                match rec.route_table_id {
                    Some(id) => {
                        let f = route_table_fields(start, region@, rec);
                        assert(f == route_table_fields(mid, region@, rec));
                        let seen = seen_by(mid, "ec2"@, "DescribeRouteTables"@, "$.RouteTables[]"@);
                        let r = choose|r: Resource|
                            resource_added(mid.resource_map(), keyed_map(self.resources@), r) && aws_resource_is(r, f, seen);
                        assert(uids[i as int] == Some(f.uid));
                        lemma_resource_added_kept(mid.resource_map(), self.resource_map(), r);
                        if !start.resource_map().contains_key(f.uid) && uid_unshared(uids, keys, i as int) {
                            if mid.resource_map().contains_key(f.uid) {
                                let j = choose|j: int| 0 <= j < i && uids[j] == Some(f.uid);
                                assert(uids[j] == uids[i as int]);
                                assert(keys[j] == keys[i as int]);
                                assert(recs[j].route_table_id is Some);
                                assert(uid_unshared(uids, keys, j)) by {
                                    assert forall|l: int| 0 <= l < uids.len() && #[trigger] uids[l] == uids[j] implies keys[l] == keys[j] by {
                                        assert(uids[l] == uids[i as int]);
                                    }
                                }
                                let g = route_table_fields(start, region@, recs[j]);
                                assert(fields_at(mid.resource_map(), g));
                                assert(fields_at(mid.resource_map(), f));
                            }
                            lemma_added_fields(mid.resource_map(), self.resource_map(), r, f, seen);
                        }
                        assert forall|j: int|
                            0 <= j < i + 1 && (#[trigger] recs[j]).route_table_id is Some implies {
                                let g = route_table_fields(start, region@, recs[j]);
                                &&& self.resource_map().contains_key(g.uid)
                                &&& !start.resource_map().contains_key(g.uid) && uid_unshared(uids, keys, j) ==> fields_at(
                                    self.resource_map(),
                                    g,
                                )
                            } by {
                            if j < i {
                                let g = route_table_fields(start, region@, recs[j]);
                                assert(mid.resource_map().contains_key(g.uid));
                                if !start.resource_map().contains_key(g.uid) && uid_unshared(uids, keys, j) {
                                    lemma_kept_fields(mid.resource_map(), self.resource_map(), g);
                                }
                            }
                        }
                        assert forall|k: Seq<char>|
                            #[trigger] self.resource_map().contains_key(k) && !start.resource_map().contains_key(k) implies exists|j: int|
                                0 <= j < i + 1 && uids[j] == Some(k) by {
                            if k != f.uid {
                                assert(mid.resource_map().contains_key(k));
                                let j = choose|j: int| 0 <= j < i && uids[j] == Some(k);
                                assert(uids[j] == Some(k));
                            } else {
                                assert(uids[i as int] == Some(k));
                            }
                        }
                    },
                    None => {
                        assert(self.resources == mid.resources);
                    },
                }
                lemma_kept_chain(start.resource_map(), mid.resource_map(), self.resource_map());
                lemma_edges_chain(
                    start.relationship_map(),
                    mid.relationship_map(),
                    self.relationship_map(),
                    route_tables_edges(start.account_id@, region@, recs.take(i as int), start.collected_at@),
                    match rec.route_table_id {
                        Some(id) => route_table_edges(start.account_id@, region@, ec2_uid(start.account_id@, region@, "route-table"@, id@), rec, start.collected_at@),
                        None => Set::empty(),
                    },
                );
            }
            i += 1;
        }
        assert(recs.take(i as int) =~= recs);
    }
}

impl InventoryBuilder {
    /// Adds every listed function of a region, page after page. Each
    /// function with a name is then held; where the builder held nothing
    /// under its uid before and no other function with another name or ARN
    /// shares that uid, it is held as that Lambda function, with its ARN when
    /// it has one; and every function's role and VPC edges are recorded.
    pub fn add_lambda_functions(&mut self, region: &str, functions: &Vec<LambdaFunctionRecord>)
        requires
            old(self).wf(),
        ensures
            only_graph_changed(*final(self), *old(self)),
            resources_kept(old(self).resource_map(), final(self).resource_map()),
            forall|i: int|
                0 <= i < functions@.len() && (#[trigger] functions@[i]).function_name is Some ==> {
                    let f = function_fields(*old(self), region@, functions@[i]);
                    &&& final(self).resource_map().contains_key(f.uid)
                    &&& !old(self).resource_map().contains_key(f.uid) && uid_unshared(
                        function_uids(old(self).account_id@, region@, functions@),
                        function_keys(functions@),
                        i,
                    ) ==> fields_at(final(self).resource_map(), f)
                },
            edges_recorded(
                old(self).relationship_map(),
                final(self).relationship_map(),
                functions_edges(old(self).account_id@, region@, functions@, old(self).collected_at@),
            ),
    {
        let ghost start = *self;
        let ghost recs = functions@;
        let ghost uids = function_uids(start.account_id@, region@, recs);
        let ghost keys = function_keys(recs);
        proof {
            lemma_edges_none(start.relationship_map());
            assert(functions_edges(start.account_id@, region@, recs.take(0), start.collected_at@) =~= Set::empty());
        }
        let mut i: usize = 0;
        while i < functions.len()
            invariant
                i <= recs.len(),
                recs == functions@,
                uids == function_uids(start.account_id@, region@, recs),
                keys == function_keys(recs),
                only_graph_changed(*self, start),
                resources_kept(start.resource_map(), self.resource_map()),
                forall|j: int|
                    0 <= j < i && (#[trigger] recs[j]).function_name is Some ==> {
                        let f = function_fields(start, region@, recs[j]);
                        &&& self.resource_map().contains_key(f.uid)
                        &&& !start.resource_map().contains_key(f.uid) && uid_unshared(uids, keys, j) ==> fields_at(
                            self.resource_map(),
                            f,
                        )
                    },
                forall|k: Seq<char>|
                    #[trigger] self.resource_map().contains_key(k) && !start.resource_map().contains_key(k) ==> exists|j: int|
                        0 <= j < i && uids[j] == Some(k),
                edges_recorded(
                    start.relationship_map(),
                    self.relationship_map(),
                    functions_edges(start.account_id@, region@, recs.take(i as int), start.collected_at@),
                ),
            decreases recs.len() - i,
        {
            let ghost mid = *self;
            self.add_lambda_function(region, &functions[i]);
            proof {
                let rec = recs[i as int];
                assert(recs.take(i + 1).drop_last() =~= recs.take(i as int));
                assert(recs.take(i + 1).last() == rec);
                match rec.function_name {
                    Some(id) => {
                        let f = function_fields(start, region@, rec);
                        assert(f == function_fields(mid, region@, rec));
                        let seen = seen_by(mid, "lambda"@, "ListFunctions"@, "$.Functions[]"@);
                        let r = choose|r: Resource|
                            resource_added(mid.resource_map(), keyed_map(self.resources@), r) && aws_resource_is(r, f, seen);
                        assert(resource_added(mid.resource_map(), self.resource_map(), r));
                        assert(uids[i as int] == Some(f.uid));
                        lemma_resource_added_kept(mid.resource_map(), self.resource_map(), r);
                        if !start.resource_map().contains_key(f.uid) && uid_unshared(uids, keys, i as int) {
                            if mid.resource_map().contains_key(f.uid) {
                                let j = choose|j: int| 0 <= j < i && uids[j] == Some(f.uid);
                                assert(uids[j] == uids[i as int]);
                                assert(keys[j] == keys[i as int]);
                                assert(recs[j].function_name is Some);
                                assert(uid_unshared(uids, keys, j)) by {
                                    assert forall|l: int| 0 <= l < uids.len() && #[trigger] uids[l] == uids[j] implies keys[l] == keys[j] by {
                                        assert(uids[l] == uids[i as int]);
                                    }
                                }
                                let g = function_fields(start, region@, recs[j]);
                                assert(fields_at(mid.resource_map(), g));
                                assert(fields_at(mid.resource_map(), f));
                            }
                            lemma_added_fields(mid.resource_map(), self.resource_map(), r, f, seen);
                        }
                        assert forall|j: int|
                            0 <= j < i + 1 && (#[trigger] recs[j]).function_name is Some implies {
                                let g = function_fields(start, region@, recs[j]);
                                &&& self.resource_map().contains_key(g.uid)
                                &&& !start.resource_map().contains_key(g.uid) && uid_unshared(uids, keys, j) ==> fields_at(
                                    self.resource_map(),
                                    g,
                                )
                            } by {
                            if j < i {
                                let g = function_fields(start, region@, recs[j]);
                                assert(mid.resource_map().contains_key(g.uid));
                                if !start.resource_map().contains_key(g.uid) && uid_unshared(uids, keys, j) {
                                    lemma_kept_fields(mid.resource_map(), self.resource_map(), g);
                                }
                            }
                        }
                        assert forall|k: Seq<char>|
                            #[trigger] self.resource_map().contains_key(k) && !start.resource_map().contains_key(k) implies exists|j: int|
                                0 <= j < i + 1 && uids[j] == Some(k) by {
                            if k != f.uid {
                                assert(mid.resource_map().contains_key(k));
                                let j = choose|j: int| 0 <= j < i && uids[j] == Some(k);
                                assert(uids[j] == Some(k));
                            } else {
                                assert(uids[i as int] == Some(k));
                            }
                        }
                    },
                    None => {
                        assert(self.resources == mid.resources);
                    },
                }
                lemma_kept_chain(start.resource_map(), mid.resource_map(), self.resource_map());
                lemma_edges_chain(
                    start.relationship_map(),
                    mid.relationship_map(),
                    self.relationship_map(),
                    functions_edges(start.account_id@, region@, recs.take(i as int), start.collected_at@),
                    match rec.function_name {
                        Some(id) => lambda_edges(function_uid(start.account_id@, region@, rec), start.account_id@, region@, rec, start.collected_at@),
                        None => Set::empty(),
                    },
                );
            }
            i += 1;
        }
        assert(recs.take(i as int) =~= recs);
    }
}

/// The errors of a builder, as service, region, operation and message.
pub open spec fn error_views(b: InventoryBuilder) -> Seq<(Seq<char>, Seq<char>, Seq<char>, Seq<char>)> {
    b.errors@.map_values(|e: ScanError| crate::model::error_view(e))
}

/// The error a failed step records.
pub open spec fn step_error(step: (ScanStage, Seq<char>, Seq<char>, Seq<char>), message: Seq<char>) -> (
    Seq<char>,
    Seq<char>,
    Seq<char>,
    Seq<char>,
) {
    (step.1, step.2, step.3, message)
}

/// The errors of the failed steps, in the order of the steps; an outcome
/// of `Some(message)` is a failure.
pub open spec fn failure_errors(
    steps: Seq<(ScanStage, Seq<char>, Seq<char>, Seq<char>)>,
    outcomes: Seq<Option<Seq<char>>>,
) -> Seq<(Seq<char>, Seq<char>, Seq<char>, Seq<char>)>
    decreases steps.len(),
{
    if steps.len() == 0 || outcomes.len() == 0 {
        seq![]
    } else {
        let prev = failure_errors(steps.drop_last(), outcomes.take(steps.len() - 1));
        match outcomes[steps.len() - 1] {
            Some(m) => prev.push(step_error(steps.last(), m)),
            None => prev,
        }
    }
}

/// One step of a scan, from `before` to `after`: resources and
/// relationships found so far are kept, and the step's error is recorded
/// when it failed and only then.
pub open spec fn step_taken(
    before: InventoryBuilder,
    after: InventoryBuilder,
    step: (ScanStage, Seq<char>, Seq<char>, Seq<char>),
    outcome: Option<Seq<char>>,
) -> bool {
    &&& after.wf()
    &&& after.same_header(&before)
    &&& resources_kept(before.resource_map(), after.resource_map())
    &&& grows(before.relationship_map(), after.relationship_map())
    &&& error_views(after) == error_views(before) + match outcome {
        Some(m) => seq![step_error(step, m)],
        None => seq![],
    }
}

/// A scan goes on after a failed step: when each step of the plan is taken
/// in turn, the builder ends with every resource and relationship it held
/// at the start (the account resource among them), and with the errors it
/// had followed by exactly one error for each failed step, in step order,
/// naming the step's service, region and operation and the failure's message.
pub proof fn law_scan_goes_on_after_failures(
    steps: Seq<(ScanStage, Seq<char>, Seq<char>, Seq<char>)>,
    outcomes: Seq<Option<Seq<char>>>,
    states: Seq<InventoryBuilder>,
)
    requires
        outcomes.len() == steps.len(),
        states.len() == steps.len() + 1,
        forall|i: int| 0 <= i < steps.len() ==> step_taken(#[trigger] states[i], states[i + 1], steps[i], outcomes[i]),
    ensures
        resources_kept(states[0].resource_map(), states.last().resource_map()),
        grows(states[0].relationship_map(), states.last().relationship_map()),
        error_views(states.last()) == error_views(states[0]) + failure_errors(steps, outcomes),
        forall|i: int|
            0 <= i < steps.len() && #[trigger] outcomes[i] is Some ==> failure_errors(steps, outcomes).contains(
                step_error(steps[i], outcomes[i]->0),
            ),
    decreases steps.len(),
{
    if steps.len() == 0 {
        assert(resources_kept(states[0].resource_map(), states[0].resource_map()));
        assert(error_views(states[0]) + failure_errors(steps, outcomes) =~= error_views(states[0]));
    } else {
        let n = steps.len() - 1;
        let s2 = steps.drop_last();
        let o2 = outcomes.take(n);
        let t2 = states.take(n + 1);
        assert forall|i: int| 0 <= i < s2.len() implies step_taken(#[trigger] t2[i], t2[i + 1], s2[i], o2[i]) by {
            assert(step_taken(states[i], states[i + 1], steps[i], outcomes[i]));
        }
        law_scan_goes_on_after_failures(s2, o2, t2);
        assert(t2.last() == states[n]);
        assert(t2[0] == states[0]);
        assert(step_taken(states[n], states[n + 1], steps[n], outcomes[n]));
        assert(states.last() == states[n + 1]);
        lemma_kept_chain(states[0].resource_map(), states[n].resource_map(), states[n + 1].resource_map());
        assert forall|k: Seq<char>| #[trigger] states[0].relationship_map().contains_key(k) implies states[n + 1].relationship_map().contains_key(k)
            && kept_relationship(states[0].relationship_map()[k], states[n + 1].relationship_map()[k]) by {
            assert(states[n].relationship_map().contains_key(k));
            let a = states[0].relationship_map()[k];
            let b = states[n].relationship_map()[k];
            let c = states[n + 1].relationship_map()[k];
            assert(kept_relationship(a, b));
            assert(kept_relationship(b, c));
            assert forall|i: int| 0 <= i < a.evidence@.len() implies #[trigger] c.evidence@[i] == a.evidence@[i] by {
                assert(c.evidence@[i] == b.evidence@[i]);
            }
        }
        let prev = failure_errors(s2, o2);
        assert(failure_errors(steps, outcomes) == match outcomes[n] {
            Some(m) => prev.push(step_error(steps[n], m)),
            None => prev,
        });
        match outcomes[n] {
            Some(m) => {
                assert(error_views(states[n + 1]) =~= error_views(states[0]) + prev.push(step_error(steps[n], m)));
            },
            None => {
                assert(error_views(states[n + 1]) =~= error_views(states[0]) + prev);
            },
        }
        assert forall|i: int|
            0 <= i < steps.len() && #[trigger] outcomes[i] is Some implies failure_errors(steps, outcomes).contains(
                step_error(steps[i], outcomes[i]->0),
            ) by {
            if i < n {
                assert(o2[i] == outcomes[i]);
                assert(s2[i] == steps[i]);
                assert(prev.contains(step_error(s2[i], o2[i]->0)));
                let w = choose|w: int| 0 <= w < prev.len() && prev[w] == step_error(s2[i], o2[i]->0);
                if outcomes[n] is Some {
                    assert(failure_errors(steps, outcomes)[w] == prev[w]);
                }
            } else {
                let f = failure_errors(steps, outcomes);
                assert(f[f.len() - 1] == step_error(steps[i], outcomes[i]->0));
            }
        }
    }
}

/// A step that only adds to the graph, as the builder's record steps do,
/// is a step taken without failure.
pub proof fn lemma_graph_step(
    before: InventoryBuilder,
    after: InventoryBuilder,
    step: (ScanStage, Seq<char>, Seq<char>, Seq<char>),
)
    requires
        only_graph_changed(after, before),
        resources_kept(before.resource_map(), after.resource_map()),
        grows(before.relationship_map(), after.relationship_map()),
    ensures
        step_taken(before, after, step, None),
{
    assert(error_views(after) =~= error_views(before) + seq![]);
}

/// A step that records nothing but keeps the graph growing was taken
/// successfully; a failed step's error recorded after it makes it a failed step.
pub proof fn lemma_failed_step(
    before: InventoryBuilder,
    mid: InventoryBuilder,
    after: InventoryBuilder,
    step: (ScanStage, Seq<char>, Seq<char>, Seq<char>),
    message: Seq<char>,
)
    requires
        step_taken(before, mid, step, None),
        after.wf(),
        after.same_header(&mid),
        after.resources == mid.resources,
        after.relationships == mid.relationships,
        error_views(after) == error_views(mid).push(step_error(step, message)),
    ensures
        step_taken(before, after, step, Some(message)),
{
    assert(error_views(after) =~= error_views(before) + seq![step_error(step, message)]);
}

} // verus!
