//! String-keyed maps kept as vectors of pairs sorted by key, as the tags and
//! labels of resources are.
use vstd::prelude::*;

use crate::order::{keys_sorted, lemma_insert_sorted, lemma_sorted_distinct, locate, Keyed};
use crate::text::eq_ignore_ascii_case;

verus! {

/// The map a sequence of pairs describes, later pairs winning.
pub open spec fn pairs_map(s: Seq<(String, String)>) -> Map<Seq<char>, Seq<char>>
    decreases s.len(),
{
    if s.len() == 0 {
        Map::empty()
    } else {
        pairs_map(s.drop_last()).insert(s.last().0@, s.last().1@)
    }
}

/// Whether the keys of `s` are pairwise different.
pub open spec fn keys_distinct(s: Seq<(String, String)>) -> bool {
    forall|i: int, j: int| 0 <= i < s.len() && 0 <= j < s.len() && i != j ==> s[i].0@ != s[j].0@
}

/// For pairs with distinct keys, the map holds exactly the keys of the
/// pairs, each with the value of its pair.
pub proof fn lemma_pairs_map(s: Seq<(String, String)>)
    requires
        keys_distinct(s),
    ensures
        forall|q: Seq<char>|
            #![trigger pairs_map(s).contains_key(q)]
            pairs_map(s).contains_key(q) <==> exists|i: int| 0 <= i < s.len() && s[i].0@ == q,
        forall|i: int| 0 <= i < s.len() ==> #[trigger] pairs_map(s)[s[i].0@] == s[i].1@,
    decreases s.len(),
{
    if s.len() > 0 {
        let t = s.drop_last();
        assert(keys_distinct(t));
        lemma_pairs_map(t);
        let n = s.len() - 1;
        assert forall|q: Seq<char>|
            #![trigger pairs_map(s).contains_key(q)]
            pairs_map(s).contains_key(q) <==> exists|i: int| 0 <= i < s.len() && s[i].0@ == q by {
            if pairs_map(s).contains_key(q) {
                if q == s[n].0@ {
                } else {
                    assert(pairs_map(t).contains_key(q));
                    let i = choose|i: int| 0 <= i < t.len() && t[i].0@ == q;
                    assert(s[i] == t[i]);
                }
            }
            if exists|i: int| 0 <= i < s.len() && s[i].0@ == q {
                let i = choose|i: int| 0 <= i < s.len() && s[i].0@ == q;
                if i < n {
                    assert(t[i] == s[i]);
                    assert(pairs_map(t).contains_key(q));
                }
            }
        }
        assert forall|i: int| 0 <= i < s.len() implies #[trigger] pairs_map(s)[s[i].0@]
            == s[i].1@ by {
            if i < n {
                assert(t[i] == s[i]);
                assert(s[i].0@ != s[n].0@);
                assert(pairs_map(t)[t[i].0@] == t[i].1@);
            }
        }
    }
}

/// The value of `key`.
pub fn pairs_get<'a>(pairs: &'a Vec<(String, String)>, key: &str) -> (r: Option<&'a String>)
    requires
        keys_sorted(pairs@),
    ensures
        match r {
            Some(v) => pairs_map(pairs@).contains_key(key@) && pairs_map(pairs@)[key@] == v@,
            None => !pairs_map(pairs@).contains_key(key@),
        },
{
    proof {
        lemma_sorted_distinct(pairs@);
        assert(keys_distinct(pairs@));
        lemma_pairs_map(pairs@);
    }
    match locate(pairs, key) {
        Ok(i) => {
            assert(pairs@[i as int].0@ == key@);
            Some(&pairs[i].1)
        },
        Err(i) => {
            proof {
                if pairs_map(pairs@).contains_key(key@) {
                    let j = choose|j: int| 0 <= j < pairs@.len() && pairs@[j].0@ == key@;
                    if j < i {
                        crate::order::lemma_lt_irreflexive(key@);
                        assert(crate::order::seq_lt(pairs@[j].key_spec(), key@));
                    } else {
                        crate::order::lemma_lt_irreflexive(key@);
                        assert(crate::order::seq_lt(key@, pairs@[j].key_spec()));
                    }
                }
            }
            None
        },
    }
}

/// Sets `key` to `value`, keeping the pairs sorted by key.
pub fn pairs_insert(pairs: &mut Vec<(String, String)>, key: String, value: String)
    requires
        keys_sorted(old(pairs)@),
    ensures
        keys_sorted(final(pairs)@),
        pairs_map(final(pairs)@) == pairs_map(old(pairs)@).insert(key@, value@),
{
    proof {
        lemma_sorted_distinct(pairs@);
        lemma_pairs_map(pairs@);
    }
    let ghost before = pairs@;
    match locate(pairs, key.as_str()) {
        Ok(i) => {
            let k = pairs[i].0.clone();
            pairs.set(i, (k, value));
            proof {
                crate::order::lemma_update_sorted(before, i as int, pairs@[i as int]);
                assert(pairs@ == before.update(i as int, pairs@[i as int]));
                lemma_sorted_distinct(pairs@);
                lemma_pairs_map(pairs@);
                assert forall|q: Seq<char>| #[trigger]
                    pairs_map(pairs@).contains_key(q) == pairs_map(before).insert(
                        key@,
                        value@,
                    ).contains_key(q) by {
                    if pairs_map(pairs@).contains_key(q) {
                        let j = choose|j: int| 0 <= j < pairs@.len() && pairs@[j].0@ == q;
                        if j != i {
                            assert(before[j] == pairs@[j]);
                        }
                    }
                    if pairs_map(before).contains_key(q) {
                        let j = choose|j: int| 0 <= j < before.len() && before[j].0@ == q;
                        assert(pairs@[j].0@ == q);
                    }
                    if q == key@ {
                        assert(pairs@[i as int].0@ == q);
                    }
                }
                assert forall|q: Seq<char>| #[trigger]
                    pairs_map(pairs@).contains_key(q) implies pairs_map(pairs@)[q] == pairs_map(
                    before,
                ).insert(key@, value@)[q] by {
                    let j = choose|j: int| 0 <= j < pairs@.len() && pairs@[j].0@ == q;
                    assert(pairs_map(pairs@)[pairs@[j].0@] == pairs@[j].1@);
                    if j != i {
                        assert(before[j] == pairs@[j]);
                        assert(pairs@[j].0@ != pairs@[i as int].0@);
                        assert(pairs_map(before)[before[j].0@] == before[j].1@);
                    }
                }
                assert(pairs_map(pairs@) =~= pairs_map(before).insert(key@, value@));
            }
        },
        Err(i) => {
            let ghost x = (key, value);
            pairs.insert(i, (key, value));
            proof {
                lemma_insert_sorted(before, i as int, x);
                lemma_sorted_distinct(pairs@);
                lemma_pairs_map(pairs@);
                assert forall|q: Seq<char>| #[trigger]
                    pairs_map(pairs@).contains_key(q) == pairs_map(before).insert(
                        key@,
                        value@,
                    ).contains_key(q) by {
                    if pairs_map(pairs@).contains_key(q) {
                        let j = choose|j: int| 0 <= j < pairs@.len() && pairs@[j].0@ == q;
                        if j < i {
                            assert(before[j] == pairs@[j]);
                        } else if j > i {
                            assert(before[j - 1] == pairs@[j]);
                        }
                    }
                    if pairs_map(before).contains_key(q) {
                        let j = choose|j: int| 0 <= j < before.len() && before[j].0@ == q;
                        if j < i {
                            assert(pairs@[j] == before[j]);
                        } else {
                            assert(pairs@[j + 1] == before[j]);
                        }
                    }
                    if q == key@ {
                        assert(pairs@[i as int].0@ == q);
                    }
                }
                assert forall|q: Seq<char>| #[trigger]
                    pairs_map(pairs@).contains_key(q) implies pairs_map(pairs@)[q] == pairs_map(
                    before,
                ).insert(key@, value@)[q] by {
                    let j = choose|j: int| 0 <= j < pairs@.len() && pairs@[j].0@ == q;
                    assert(pairs_map(pairs@)[pairs@[j].0@] == pairs@[j].1@);
                    if j < i {
                        assert(before[j] == pairs@[j]);
                        assert(pairs@[j].0@ != pairs@[i as int].0@);
                        assert(pairs_map(before)[before[j].0@] == before[j].1@);
                    } else if j > i {
                        assert(before[j - 1] == pairs@[j]);
                        assert(pairs@[j].0@ != pairs@[i as int].0@);
                        assert(pairs_map(before)[before[j - 1].0@] == before[j - 1].1@);
                    }
                }
                assert(pairs_map(pairs@) =~= pairs_map(before).insert(key@, value@));
            }
        },
    }
}

/// Sets `key` to `value` unless `key` is present already.
pub fn pairs_insert_if_absent(pairs: &mut Vec<(String, String)>, key: String, value: String)
    requires
        keys_sorted(old(pairs)@),
    ensures
        keys_sorted(final(pairs)@),
        pairs_map(final(pairs)@) == (if pairs_map(old(pairs)@).contains_key(key@) {
            pairs_map(old(pairs)@)
        } else {
            pairs_map(old(pairs)@).insert(key@, value@)
        }),
{
    match pairs_get(pairs, key.as_str()) {
        Some(_) => {},
        None => {
            pairs_insert(pairs, key, value);
        },
    }
}

/// Sets every pair of `incoming` in `pairs`, the incoming values winning.
pub fn pairs_extend(pairs: &mut Vec<(String, String)>, incoming: Vec<(String, String)>)
    requires
        keys_sorted(old(pairs)@),
    ensures
        keys_sorted(final(pairs)@),
        pairs_map(final(pairs)@) == pairs_map(old(pairs)@).union_prefer_right(
            pairs_map(incoming@),
        ),
{
    let ghost start = pairs_map(pairs@);
    let mut i: usize = 0;
    while i < incoming.len()
        invariant
            i <= incoming@.len(),
            keys_sorted(pairs@),
            pairs_map(pairs@) == start.union_prefer_right(pairs_map(incoming@.take(i as int))),
        decreases incoming@.len() - i,
    {
        assert(incoming@.take(i + 1).drop_last() =~= incoming@.take(i as int));
        let k = incoming[i].0.clone();
        let v = incoming[i].1.clone();
        pairs_insert(pairs, k, v);
        assert(pairs_map(pairs@) =~= start.union_prefer_right(pairs_map(incoming@.take(i + 1))));
        i += 1;
    }
    assert(incoming@.take(i as int) =~= incoming@);
}

/// The map a list of text pairs describes, later pairs winning.
pub open spec fn str_pairs_map(s: Seq<(&str, &str)>) -> Map<Seq<char>, Seq<char>>
    decreases s.len(),
{
    if s.len() == 0 {
        Map::empty()
    } else {
        str_pairs_map(s.drop_last()).insert(s.last().0@, s.last().1@)
    }
}

/// Builds sorted pairs from a list, later pairs winning on a repeated key.
pub fn pairs_from(entries: &[(&str, &str)]) -> (r: Vec<(String, String)>)
    ensures
        keys_sorted(r@),
        pairs_map(r@) == str_pairs_map(entries@),
{
    let mut out: Vec<(String, String)> = Vec::new();
    let mut i: usize = 0;
    assert(pairs_map(out@) =~= str_pairs_map(entries@.take(0)));
    while i < entries.len()
        invariant
            i <= entries@.len(),
            keys_sorted(out@),
            pairs_map(out@) == str_pairs_map(entries@.take(i as int)),
        decreases entries@.len() - i,
    {
        assert(entries@.take(i + 1).drop_last() =~= entries@.take(i as int));
        pairs_insert(&mut out, entries[i].0.to_owned(), entries[i].1.to_owned());
        i += 1;
    }
    assert(entries@.take(i as int) =~= entries@);
    out
}

/// The first value, in pair order, whose key equals `key` ignoring ASCII case.
pub open spec fn find_ignore_case(s: Seq<(String, String)>, key: Seq<char>) -> Option<Seq<char>>
    decreases s.len(),
{
    if s.len() == 0 {
        None
    } else if crate::text::eq_ignore_ascii_case_spec(s[0].0@, key) {
        Some(s[0].1@)
    } else {
        find_ignore_case(s.drop_first(), key)
    }
}

/// The first value, in pair order, whose key equals `key` ignoring ASCII case.
pub fn pairs_find_ignore_case<'a>(pairs: &'a Vec<(String, String)>, key: &str) -> (r: Option<
    &'a String,
>)
    ensures
        match r {
            Some(v) => find_ignore_case(pairs@, key@) == Some(v@),
            None => find_ignore_case(pairs@, key@) is None,
        },
{
    let mut i: usize = 0;
    assert(pairs@.subrange(0, pairs@.len() as int) =~= pairs@);
    while i < pairs.len()
        invariant
            i <= pairs@.len(),
            find_ignore_case(pairs@, key@) == find_ignore_case(
                pairs@.subrange(i as int, pairs@.len() as int),
                key@,
            ),
        decreases pairs@.len() - i,
    {
        let ghost rest = pairs@.subrange(i as int, pairs@.len() as int);
        assert(rest.drop_first() =~= pairs@.subrange(i + 1, pairs@.len() as int));
        assert(rest[0] == pairs@[i as int]);
        if eq_ignore_ascii_case(pairs[i].0.as_str(), key) {
            return Some(&pairs[i].1);
        }
        i += 1;
    }
    None
}

} // verus!
