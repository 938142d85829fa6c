//! What the graph view shows of the map: the severity a node is marked
//! with, the findings overlaid on each resource, and the facets read from
//! its tags.
use vstd::prelude::*;
use vstd::string::*;

use crate::json::{entries_view, Json, JsonValue};
use crate::order::{
    keyed_map, keys_sorted, lemma_insert_sorted, lemma_keyed_map_insert, lemma_keyed_map_update, locate, seq_has,
    texts, Keyed,
};
use crate::text::{eq_ignore_ascii_case, eq_ignore_ascii_case_spec, str_eq};

verus! {

/// The rank of a severity name: critical 3, high 2, medium 1, anything else 0.
pub open spec fn severity_rank_spec(severity: Seq<char>) -> int {
    if severity == "critical"@ {
        3
    } else if severity == "high"@ {
        2
    } else if severity == "medium"@ {
        1
    } else {
        0
    }
}

/// The rank of a severity name.
pub fn severity_rank(severity: &str) -> (r: i32)
    ensures
        r == severity_rank_spec(severity@),
{
    if str_eq(severity, "critical") {
        3
    } else if str_eq(severity, "high") {
        2
    } else if str_eq(severity, "medium") {
        1
    } else {
        0
    }
}

/// The more severe of a node's current severity and another, the current
/// one winning ties; none when that is `none`.
pub open spec fn max_severity_spec(current: Option<Seq<char>>, next: Seq<char>) -> Option<Seq<char>> {
    let cur = match current {
        Some(c) => c,
        None => "none"@,
    };
    let selected = if severity_rank_spec(cur) >= severity_rank_spec(next) {
        match current {
            Some(c) => c,
            None => next,
        }
    } else {
        next
    };
    if selected == "none"@ {
        None
    } else {
        Some(selected)
    }
}

/// The more severe of a node's current severity and another.
pub fn max_severity(current: Option<&str>, next: &str) -> (r: Option<String>)
    ensures
        crate::aws_scan::opt_view(r) == max_severity_spec(
            match current {
                Some(c) => Some(c@),
                None => None,
            },
            next@,
        ),
{
    let cur = match current {
        Some(c) => c,
        None => "none",
    };
    let selected = if severity_rank(cur) >= severity_rank(next) {
        match current {
            Some(c) => c,
            None => next,
        }
    } else {
        next
    };
    if str_eq(selected, "none") {
        None
    } else {
        Some(selected.to_owned())
    }
}

/// The first member of a tags object, in member order, whose key equals
/// `key` ignoring ASCII case.
pub open spec fn tag_member(members: Seq<(Seq<char>, Json)>, key: Seq<char>) -> Option<Json>
    decreases members.len(),
{
    if members.len() == 0 {
        None
    } else if eq_ignore_ascii_case_spec(members[0].0, key) {
        Some(members[0].1)
    } else {
        tag_member(members.drop_first(), key)
    }
}

/// A tag of a node as text: the first tag whose key equals `key` ignoring
/// ASCII case, when it is a non-empty string.
pub open spec fn tag_value_spec(tags: Json, key: Seq<char>) -> Option<Seq<char>> {
    match tags {
        Json::Object(members) => match tag_member(members, key) {
            Some(Json::Str(s)) => if s.len() > 0 {
                Some(s)
            } else {
                None
            },
            _ => None,
        },
        _ => None,
    }
}

/// A tag of a node as text.
pub fn tag_value(tags: &JsonValue, key: &str) -> (r: Option<String>)
    ensures
        crate::aws_scan::opt_view(r) == tag_value_spec(tags@, key@),
{
    broadcast use crate::json::group_json_view;

    let members = match tags.as_object() {
        Some(m) => m,
        None => return None,
    };
    let ghost ev = entries_view(members@);
    proof {
        crate::json::lemma_entries_view_len(members@);
    }
    let mut i: usize = 0;
    assert(ev.subrange(0, ev.len() as int) =~= ev);
    while i < members.len()
        invariant
            i <= members@.len(),
            ev == entries_view(members@),
            tags@ == Json::Object(ev),
            ev.len() == members@.len(),
            tag_member(ev, key@) == tag_member(ev.subrange(i as int, ev.len() as int), key@),
        decreases members@.len() - i,
    {
        let ghost rest = ev.subrange(i as int, ev.len() as int);
        proof {
            crate::json::lemma_entries_view_index(members@, i as int);
        }
        assert(rest.drop_first() =~= ev.subrange(i + 1, ev.len() as int));
        assert(rest[0] == ev[i as int]);
        if eq_ignore_ascii_case(members[i].0.as_str(), key) {
            assert(tag_member(rest, key@) == Some(members@[i as int].1@));
            assert(tags@ == Json::Object(ev));
            assert(tag_member(ev, key@) == Some(members@[i as int].1@));
            let r = match members[i].1.as_str() {
                Some(s) => if s.unicode_len() > 0 {
                    Some(s.clone())
                } else {
                    None
                },
                None => None,
            };
            return r;
        }
        i += 1;
    }
    None
}

/// The namespace facet of a node: its `Namespace` tag, else the region of
/// a Kubernetes object outside the cluster and global scopes.
pub open spec fn namespace_value_spec(provider: Seq<char>, region: Seq<char>, tags: Json) -> Option<
    Seq<char>,
> {
    match tag_value_spec(tags, "Namespace"@) {
        Some(ns) => Some(ns),
        None => if provider == "k8s"@ && region != "cluster"@ && region != "global"@ {
            Some(region)
        } else {
            None
        },
    }
}

/// The namespace facet of a node.
pub fn namespace_value(provider: &str, region: &str, tags: &JsonValue) -> (r: Option<String>)
    ensures
        crate::aws_scan::opt_view(r) == namespace_value_spec(provider@, region@, tags@),
{
    match tag_value(tags, "Namespace") {
        Some(ns) => Some(ns),
        None => if str_eq(provider, "k8s") && !str_eq(region, "cluster") && !str_eq(region, "global") {
            Some(region.to_owned())
        } else {
            None
        },
    }
}

/// The findings overlaid on one resource of the graph.
#[derive(Clone, Debug)]
pub struct FindingOverlay {
    /// The resource's uid.
    pub uid: String,
    /// The most severe severity of its findings.
    pub severity: Option<String>,
    /// The types of its findings, in the order they were stored.
    pub finding_types: Vec<String>,
}

impl Keyed for FindingOverlay {
    open spec fn key_spec(&self) -> Seq<char> {
        self.uid@
    }

    fn key(&self) -> (r: &str) {
        self.uid.as_str()
    }
}

/// What is overlaid on a resource, from the stored `(uid, type, severity)`
/// rows of a compare run: the types of its rows in order, and the severity
/// `max_severity` folds from theirs.
pub open spec fn overlay_of(rows: Seq<(String, String, String)>, uid: Seq<char>) -> (
    Option<Seq<char>>,
    Seq<Seq<char>>,
)
    decreases rows.len(),
{
    if rows.len() == 0 {
        (None, Seq::empty())
    } else {
        let prev = overlay_of(rows.drop_last(), uid);
        let row = rows.last();
        if row.0@ == uid {
            (max_severity_spec(prev.0, row.2@), prev.1.push(row.1@))
        } else {
            prev
        }
    }
}

/// Whether some row is about `uid`.
pub open spec fn has_row(rows: Seq<(String, String, String)>, uid: Seq<char>) -> bool {
    exists|i: int| 0 <= i < rows.len() && #[trigger] rows[i].0@ == uid
}

/// What an overlay holds.
pub open spec fn overlay_view(o: FindingOverlay) -> (Option<Seq<char>>, Seq<Seq<char>>) {
    (crate::aws_scan::opt_view(o.severity), texts(o.finding_types@))
}

/// The overlays of the resources named by the stored finding rows of a
/// compare run, one per resource, sorted by uid.
pub fn finding_overlays(rows: &Vec<(String, String, String)>) -> (r: Vec<FindingOverlay>)
    ensures
        keys_sorted(r@),
        forall|u: Seq<char>| #[trigger] keyed_map(r@).contains_key(u) <==> has_row(rows@, u),
        forall|u: Seq<char>|
            #[trigger] keyed_map(r@).contains_key(u) ==> overlay_view(keyed_map(r@)[u]) == overlay_of(
                rows@,
                u,
            ),
{
    let mut out: Vec<FindingOverlay> = Vec::new();
    let mut i: usize = 0;
    while i < rows.len()
        invariant
            i <= rows@.len(),
            keys_sorted(out@),
            forall|u: Seq<char>|
                #[trigger] keyed_map(out@).contains_key(u) <==> has_row(rows@.take(i as int), u),
            forall|u: Seq<char>|
                #[trigger] keyed_map(out@).contains_key(u) ==> overlay_view(keyed_map(out@)[u])
                    == overlay_of(rows@.take(i as int), u),
        decreases rows@.len() - i,
    {
        let ghost before = out@;
        let ghost t = rows@.take(i + 1);
        assert(t.drop_last() =~= rows@.take(i as int));
        assert(t.last() == rows@[i as int]);
        let row = &rows[i];
        let uid = row.0.as_str();
        proof {
            crate::order::lemma_keyed_map(before);
            assert forall|u: Seq<char>| u != uid@ implies overlay_of(t, u) == overlay_of(
                rows@.take(i as int),
                u,
            ) by {}
            assert forall|u: Seq<char>| #[trigger] has_row(t, u) <==> has_row(rows@.take(i as int), u)
                || u == uid@ by {
                if has_row(t, u) {
                    let k = choose|k: int| 0 <= k < t.len() && #[trigger] t[k].0@ == u;
                    if k < i {
                        assert(rows@.take(i as int)[k] == t[k]);
                    }
                }
                if has_row(rows@.take(i as int), u) {
                    let k = choose|k: int| 0 <= k < i && #[trigger] rows@.take(i as int)[k].0@ == u;
                    assert(t[k] == rows@.take(i as int)[k]);
                }
                if u == uid@ {
                    assert(t[i as int].0@ == u);
                }
            }
        }
        match locate(&out, uid) {
            Ok(k) => {
                let current = crate::model::clone_opt_string(&out[k].severity);
                let severity = match &current {
                    Some(c) => max_severity(Some(c.as_str()), row.2.as_str()),
                    None => max_severity(None, row.2.as_str()),
                };
                let mut types = crate::order::clone_texts(&out[k].finding_types);
                let ghost old_types = types@;
                types.push(row.1.clone());
                let updated = FindingOverlay { uid: row.0.clone(), severity, finding_types: types };
                proof {
                    crate::order::lemma_keyed_map(before);
                    assert(keyed_map(before)[uid@] == before[k as int]);
                    assert(keyed_map(before).contains_key(uid@));
                    let p = overlay_of(rows@.take(i as int), uid@);
                    assert(overlay_view(before[k as int]) == p);
                    assert(overlay_of(t, uid@) == (max_severity_spec(p.0, row.2@), p.1.push(row.1@)));
                    assert(crate::aws_scan::opt_view(current) == p.0);
                    assert(texts(updated.finding_types@) =~= texts(old_types).push(row.1@));
                    lemma_keyed_map_update(before, k as int, updated);
                }
                out.set(k, updated);
                assert(out@ =~= before.update(k as int, updated));
                assert(overlay_view(updated) == overlay_of(t, uid@));
            },
            Err(k) => {
                let severity = max_severity(None, row.2.as_str());
                let mut types: Vec<String> = Vec::new();
                types.push(row.1.clone());
                let created = FindingOverlay { uid: row.0.clone(), severity, finding_types: types };
                proof {
                    assert(!keyed_map(before).contains_key(uid@)) by {
                        if keyed_map(before).contains_key(uid@) {
                            let m = choose|m: int| 0 <= m < before.len() && before[m].key_spec() == uid@;
                            crate::order::lemma_lt_irreflexive(uid@);
                        }
                    }
                    assert(!has_row(rows@.take(i as int), uid@));
                    assert(overlay_of(rows@.take(i as int), uid@) == (None::<Seq<char>>, Seq::<Seq<char>>::empty())) by {
                        lemma_overlay_absent(rows@.take(i as int), uid@);
                    }
                    assert(texts(created.finding_types@) =~= Seq::<Seq<char>>::empty().push(row.1@));
                    lemma_insert_sorted(before, k as int, created);
                    lemma_keyed_map_insert(before, k as int, created);
                }
                out.insert(k, created);
                assert(overlay_view(created) == overlay_of(t, uid@));
            },
        }
        i += 1;
    }
    assert(rows@.take(i as int) =~= rows@);
    out
}

/// A resource no row names has nothing overlaid.
pub proof fn lemma_overlay_absent(rows: Seq<(String, String, String)>, uid: Seq<char>)
    requires
        !has_row(rows, uid),
    ensures
        overlay_of(rows, uid) == (None::<Seq<char>>, Seq::<Seq<char>>::empty()),
    decreases rows.len(),
{
    if rows.len() > 0 {
        let t = rows.drop_last();
        assert(!has_row(t, uid)) by {
            if has_row(t, uid) {
                let k = choose|k: int| 0 <= k < t.len() && #[trigger] t[k].0@ == uid;
                assert(rows[k] == t[k]);
            }
        }
        assert(rows[rows.len() - 1].0@ != uid);
        lemma_overlay_absent(t, uid);
    }
}

/// The severity a node keeps is at least as severe as the one it had and
/// the one added.
pub proof fn law_max_severity_dominates(current: Option<Seq<char>>, next: Seq<char>)
    ensures
        match max_severity_spec(current, next) {
            Some(s) => severity_rank_spec(s) >= severity_rank_spec(next) && match current {
                Some(c) => severity_rank_spec(s) >= severity_rank_spec(c),
                None => true,
            },
            None => true,
        },
{
}

/// Whether `s` is one of the texts of `v`.
fn text_in(v: &Vec<String>, s: &str) -> (r: bool)
    ensures
        r == seq_has(texts(v@), s@),
{
    let mut i: usize = 0;
    while i < v.len()
        invariant
            i <= v@.len(),
            forall|j: int| 0 <= j < i ==> v@[j]@ != s@,
        decreases v@.len() - i,
    {
        if str_eq(v[i].as_str(), s) {
            assert(texts(v@)[i as int] == s@);
            return true;
        }
        i += 1;
    }
    proof {
        if seq_has(texts(v@), s@) {
            let j = choose|j: int| 0 <= j < texts(v@).len() && texts(v@)[j] == s@;
            assert(v@[j]@ == s@);
        }
    }
    false
}

/// Whether both ends of an edge are among the node ids.
pub open spec fn edge_between(node_ids: Seq<Seq<char>>, edge: (String, String)) -> bool {
    seq_has(node_ids, edge.0@) && seq_has(node_ids, edge.1@)
}

/// The positions, in order, of the edges (source, target) whose both ends
/// are among the graph's node ids; the graph drops the other edges.
pub fn edges_between(node_ids: &Vec<String>, edges: &Vec<(String, String)>) -> (r: Vec<usize>)
    ensures
        forall|k: int| 0 <= k < r@.len() ==> #[trigger] r@[k] < edges@.len() && edge_between(
            texts(node_ids@),
            edges@[r@[k] as int],
        ),
        forall|a: int, b: int| 0 <= a < b < r@.len() ==> r@[a] < r@[b],
        forall|i: int|
            0 <= i < edges@.len() && edge_between(texts(node_ids@), #[trigger] edges@[i]) ==> exists|k: int|
                0 <= k < r@.len() && r@[k] == i,
{
    let mut out: Vec<usize> = Vec::new();
    let mut i: usize = 0;
    while i < edges.len()
        invariant
            i <= edges@.len(),
            forall|k: int| 0 <= k < out@.len() ==> #[trigger] out@[k] < i && edge_between(
                texts(node_ids@),
                edges@[out@[k] as int],
            ),
            forall|a: int, b: int| 0 <= a < b < out@.len() ==> out@[a] < out@[b],
            forall|j: int|
                0 <= j < i && edge_between(texts(node_ids@), #[trigger] edges@[j]) ==> exists|k: int|
                    0 <= k < out@.len() && out@[k] == j,
        decreases edges@.len() - i,
    {
        let keep = text_in(node_ids, edges[i].0.as_str()) && text_in(node_ids, edges[i].1.as_str());
        if keep {
            let ghost before = out@;
            out.push(i);
            assert forall|j: int|
                0 <= j < i + 1 && edge_between(texts(node_ids@), #[trigger] edges@[j]) implies exists|k: int|
                    0 <= k < out@.len() && out@[k] == j by {
                if j < i {
                    let k = choose|k: int| 0 <= k < before.len() && before[k] == j;
                    assert(out@[k] == j);
                } else {
                    assert(out@[before.len() as int] == j);
                }
            }
        }
        i += 1;
    }
    out
}

} // verus!
