//! Lexicographic order on texts, and collections kept sorted and free of
//! duplicate keys by that order (the order `String` has in std, since UTF-8
//! preserves code point order).
use vstd::prelude::*;
use vstd::string::*;

verus! {

/// Whether `a` comes strictly before `b`, comparing code points from the start.
pub open spec fn seq_lt(a: Seq<char>, b: Seq<char>) -> bool
    decreases a.len(),
{
    if b.len() == 0 {
        false
    } else if a.len() == 0 {
        true
    } else if a[0] != b[0] {
        (a[0] as int) < (b[0] as int)
    } else {
        seq_lt(a.drop_first(), b.drop_first())
    }
}

/// No text comes before itself.
pub proof fn lemma_lt_irreflexive(a: Seq<char>)
    ensures
        !seq_lt(a, a),
    decreases a.len(),
{
    if a.len() > 0 {
        lemma_lt_irreflexive(a.drop_first());
    }
}

/// Of two different texts, exactly one comes first.
pub proof fn lemma_lt_total(a: Seq<char>, b: Seq<char>)
    ensures
        a != b ==> (seq_lt(a, b) || seq_lt(b, a)),
        !(seq_lt(a, b) && seq_lt(b, a)),
    decreases a.len(),
{
    if a.len() > 0 && b.len() > 0 && a[0] == b[0] {
        lemma_lt_total(a.drop_first(), b.drop_first());
        if a.drop_first() == b.drop_first() {
            assert forall|k: int| 0 <= k < a.len() implies a[k] == b[k] by {
                if k > 0 {
                    assert(a[k] == a.drop_first()[k - 1]);
                    assert(b[k] == b.drop_first()[k - 1]);
                }
            }
            assert(a =~= b);
        }
    } else if a.len() == 0 && b.len() == 0 {
        assert(a =~= b);
    } else if a.len() > 0 && b.len() > 0 {
        assert((a[0] as int) != (b[0] as int));
    }
}

/// The order is transitive.
pub proof fn lemma_lt_transitive(a: Seq<char>, b: Seq<char>, c: Seq<char>)
    requires
        seq_lt(a, b),
        seq_lt(b, c),
    ensures
        seq_lt(a, c),
    decreases a.len(),
{
    if a.len() > 0 && b.len() > 0 && c.len() > 0 && a[0] == b[0] && b[0] == c[0] {
        lemma_lt_transitive(a.drop_first(), b.drop_first(), c.drop_first());
    }
}

proof fn lemma_lt_common_prefix(a: Seq<char>, b: Seq<char>, i: int)
    requires
        0 <= i <= a.len(),
        i <= b.len(),
        a.take(i) == b.take(i),
    ensures
        seq_lt(a, b) == seq_lt(a.skip(i), b.skip(i)),
    decreases i,
{
    if i > 0 {
        assert(a[0] == a.take(i)[0]);
        assert(b[0] == b.take(i)[0]);
        assert(a.drop_first().take(i - 1) =~= a.take(i).drop_first());
        assert(b.drop_first().take(i - 1) =~= b.take(i).drop_first());
        lemma_lt_common_prefix(a.drop_first(), b.drop_first(), i - 1);
        assert(a.drop_first().skip(i - 1) =~= a.skip(i));
        assert(b.drop_first().skip(i - 1) =~= b.skip(i));
    } else {
        assert(a.skip(0) =~= a);
        assert(b.skip(0) =~= b);
    }
}

/// The outcome of comparing two texts.
#[derive(Clone, Copy, Debug, PartialEq, Eq)]
pub enum Cmp {
    Less,
    Equal,
    Greater,
}

/// Compares two texts in lexicographic code point order.
pub fn compare_str(a: &str, b: &str) -> (r: Cmp)
    ensures
        (r == Cmp::Less) == seq_lt(a@, b@),
        (r == Cmp::Equal) == (a@ == b@),
        (r == Cmp::Greater) == seq_lt(b@, a@),
{
    proof {
        lemma_lt_total(a@, b@);
        lemma_lt_irreflexive(a@);
    }
    let n = a.unicode_len();
    let m = b.unicode_len();
    let mut i: usize = 0;
    while i < n && i < m && a.get_char(i) == b.get_char(i)
        invariant
            n == a@.len(),
            m == b@.len(),
            i <= n,
            i <= m,
            a@.take(i as int) == b@.take(i as int),
        decreases n - i,
    {
        assert(a@.take(i + 1) =~= a@.take(i as int).push(a@[i as int]));
        assert(b@.take(i + 1) =~= b@.take(i as int).push(b@[i as int]));
        i += 1;
    }
    proof {
        lemma_lt_common_prefix(a@, b@, i as int);
        lemma_lt_common_prefix(b@, a@, i as int);
    }
    if i == n && i == m {
        assert(a@ =~= a@.take(i as int));
        assert(b@ =~= b@.take(i as int));
        return Cmp::Equal;
    }
    if i == n {
        assert(a@.skip(i as int).len() == 0);
        return Cmp::Less;
    }
    if i == m {
        assert(b@.skip(i as int).len() == 0);
        return Cmp::Greater;
    }
    let ca = a.get_char(i);
    let cb = b.get_char(i);
    assert(a@.skip(i as int)[0] == ca);
    assert(b@.skip(i as int)[0] == cb);
    if (ca as u32) < (cb as u32) {
        Cmp::Less
    } else {
        Cmp::Greater
    }
}

/// Something with a text key.
pub trait Keyed {
    /// The key.
    spec fn key_spec(&self) -> Seq<char>;

    /// The key.
    fn key(&self) -> (r: &str)
        ensures
            r@ == self.key_spec(),
    ;
}

impl Keyed for (String, String) {
    open spec fn key_spec(&self) -> Seq<char> {
        self.0@
    }

    fn key(&self) -> (r: &str) {
        self.0.as_str()
    }
}

impl Keyed for String {
    open spec fn key_spec(&self) -> Seq<char> {
        self@
    }

    fn key(&self) -> (r: &str) {
        self.as_str()
    }
}

/// Whether the keys of `s` strictly increase.
pub open spec fn keys_sorted<T: Keyed>(s: Seq<T>) -> bool {
    forall|i: int, j: int| 0 <= i < j < s.len() ==> seq_lt(s[i].key_spec(), s[j].key_spec())
}

/// The keys of `s`, in order.
pub open spec fn keys_of<T: Keyed>(s: Seq<T>) -> Seq<Seq<char>> {
    Seq::new(s.len(), |i: int| s[i].key_spec())
}

/// Where `key` stands in a sorted sequence: `Ok(i)` when the element at `i`
/// has that key, `Err(i)` when it belongs before position `i`.
pub fn locate<T: Keyed>(v: &Vec<T>, key: &str) -> (r: Result<usize, usize>)
    requires
        keys_sorted(v@),
    ensures
        match r {
            Ok(i) => i < v@.len() && v@[i as int].key_spec() == key@,
            Err(i) => i <= v@.len() && (forall|j: int|
                0 <= j < i ==> seq_lt(#[trigger] v@[j].key_spec(), key@)) && (forall|j: int|
                i <= j < v@.len() ==> seq_lt(key@, #[trigger] v@[j].key_spec())),
        },
{
    let mut lo: usize = 0;
    let mut hi: usize = v.len();
    while lo < hi
        invariant
            lo <= hi <= v@.len(),
            keys_sorted(v@),
            forall|j: int| 0 <= j < lo ==> seq_lt(#[trigger] v@[j].key_spec(), key@),
            forall|j: int| hi <= j < v@.len() ==> seq_lt(key@, #[trigger] v@[j].key_spec()),
        decreases hi - lo,
    {
        let mid = lo + (hi - lo) / 2;
        let c = compare_str(v[mid].key(), key);
        match c {
            Cmp::Equal => {
                return Ok(mid);
            },
            Cmp::Less => {
                assert forall|j: int| 0 <= j < mid + 1 implies seq_lt(
                    #[trigger] v@[j].key_spec(),
                    key@,
                ) by {
                    if j < mid {
                        lemma_lt_transitive(v@[j].key_spec(), v@[mid as int].key_spec(), key@);
                    }
                }
                lo = mid + 1;
            },
            Cmp::Greater => {
                assert forall|j: int| mid <= j < v@.len() implies seq_lt(
                    key@,
                    #[trigger] v@[j].key_spec(),
                ) by {
                    if j > mid {
                        lemma_lt_transitive(key@, v@[mid as int].key_spec(), v@[j].key_spec());
                    }
                }
                hi = mid;
            },
        }
    }
    Err(lo)
}

/// Inserting at the position `locate` gives keeps the keys sorted.
pub proof fn lemma_insert_sorted<T: Keyed>(s: Seq<T>, i: int, x: T)
    requires
        keys_sorted(s),
        0 <= i <= s.len(),
        forall|j: int| 0 <= j < i ==> seq_lt(#[trigger] s[j].key_spec(), x.key_spec()),
        forall|j: int| i <= j < s.len() ==> seq_lt(x.key_spec(), #[trigger] s[j].key_spec()),
    ensures
        keys_sorted(s.insert(i, x)),
{
    let t = s.insert(i, x);
    assert forall|a: int, b: int| 0 <= a < b < t.len() implies seq_lt(
        t[a].key_spec(),
        t[b].key_spec(),
    ) by {
        if a < i && b < i {
        } else if a < i && b == i {
        } else if a < i && b > i {
            assert(t[b] == s[b - 1]);
        } else if a == i {
            assert(t[b] == s[b - 1]);
        } else {
            assert(t[a] == s[a - 1]);
            assert(t[b] == s[b - 1]);
        }
    }
}

/// Replacing an element by one with the same key keeps the keys sorted.
pub proof fn lemma_update_sorted<T: Keyed>(s: Seq<T>, i: int, x: T)
    requires
        keys_sorted(s),
        0 <= i < s.len(),
        x.key_spec() == s[i].key_spec(),
    ensures
        keys_sorted(s.update(i, x)),
        keys_of(s.update(i, x)) == keys_of(s),
{
    assert(keys_of(s.update(i, x)) =~= keys_of(s));
}

/// A sorted sequence holds no key twice.
pub proof fn lemma_sorted_distinct<T: Keyed>(s: Seq<T>)
    requires
        keys_sorted(s),
    ensures
        forall|i: int, j: int|
            0 <= i < s.len() && 0 <= j < s.len() && i != j ==> s[i].key_spec() != s[j].key_spec(),
{
    assert forall|i: int, j: int|
        0 <= i < s.len() && 0 <= j < s.len() && i != j implies s[i].key_spec()
        != s[j].key_spec() by {
        if i < j {
            lemma_lt_irreflexive(s[i].key_spec());
        } else {
            lemma_lt_irreflexive(s[j].key_spec());
        }
    }
}


/// The map from key to element that a sequence describes, later elements winning.
pub open spec fn keyed_map<T: Keyed>(s: Seq<T>) -> Map<Seq<char>, T>
    decreases s.len(),
{
    if s.len() == 0 {
        Map::empty()
    } else {
        keyed_map(s.drop_last()).insert(s.last().key_spec(), s.last())
    }
}

/// For a sorted sequence, the map holds exactly the keys of its elements,
/// each with its element.
pub proof fn lemma_keyed_map<T: Keyed>(s: Seq<T>)
    requires
        keys_sorted(s),
    ensures
        forall|q: Seq<char>|
            #![trigger keyed_map(s).contains_key(q)]
            keyed_map(s).contains_key(q) <==> exists|i: int|
                0 <= i < s.len() && s[i].key_spec() == q,
        forall|i: int| 0 <= i < s.len() ==> #[trigger] keyed_map(s)[s[i].key_spec()] == s[i],
    decreases s.len(),
{
    if s.len() > 0 {
        let t = s.drop_last();
        assert(keys_sorted(t));
        lemma_keyed_map(t);
        lemma_sorted_distinct(s);
        let n = s.len() - 1;
        assert forall|q: Seq<char>|
            #![trigger keyed_map(s).contains_key(q)]
            keyed_map(s).contains_key(q) <==> exists|i: int|
                0 <= i < s.len() && s[i].key_spec() == q by {
            if keyed_map(s).contains_key(q) {
                if q == s[n].key_spec() {
                } else {
                    assert(keyed_map(t).contains_key(q));
                    let i = choose|i: int| 0 <= i < t.len() && t[i].key_spec() == q;
                    assert(s[i] == t[i]);
                }
            }
            if exists|i: int| 0 <= i < s.len() && s[i].key_spec() == q {
                let i = choose|i: int| 0 <= i < s.len() && s[i].key_spec() == q;
                if i < n {
                    assert(t[i] == s[i]);
                    assert(keyed_map(t).contains_key(q));
                }
            }
        }
        assert forall|i: int| 0 <= i < s.len() implies #[trigger] keyed_map(s)[s[i].key_spec()]
            == s[i] by {
            if i < n {
                assert(t[i] == s[i]);
                assert(s[i].key_spec() != s[n].key_spec());
                assert(keyed_map(t)[t[i].key_spec()] == t[i]);
            }
        }
    }
}

/// Inserting an element with a new key into a sorted sequence adds that key to its map.
pub proof fn lemma_keyed_map_insert<T: Keyed>(s: Seq<T>, i: int, x: T)
    requires
        keys_sorted(s),
        0 <= i <= s.len(),
        keys_sorted(s.insert(i, x)),
    ensures
        keyed_map(s.insert(i, x)) == keyed_map(s).insert(x.key_spec(), x),
{
    let t = s.insert(i, x);
    lemma_keyed_map(s);
    lemma_keyed_map(t);
    lemma_sorted_distinct(t);
    assert(t[i] == x);
    assert forall|q: Seq<char>| #[trigger]
        keyed_map(t).contains_key(q) <==> keyed_map(s).insert(x.key_spec(), x).contains_key(q) by {
        if keyed_map(t).contains_key(q) {
            let j = choose|j: int| 0 <= j < t.len() && t[j].key_spec() == q;
            if j < i {
                assert(t[j] == s[j]);
            } else if j > i {
                assert(t[j] == s[j - 1]);
            }
        }
        if keyed_map(s).contains_key(q) {
            let j = choose|j: int| 0 <= j < s.len() && s[j].key_spec() == q;
            if j < i {
                assert(t[j] == s[j]);
            } else {
                assert(t[j + 1] == s[j]);
            }
        }
    }
    assert forall|q: Seq<char>| #[trigger] keyed_map(t).contains_key(q) implies keyed_map(t)[q]
        == keyed_map(s).insert(x.key_spec(), x)[q] by {
        let j = choose|j: int| 0 <= j < t.len() && t[j].key_spec() == q;
        if j < i {
            assert(t[j] == s[j]);
            assert(keyed_map(s)[s[j].key_spec()] == s[j]);
        } else if j > i {
            assert(t[j] == s[j - 1]);
            assert(keyed_map(s)[s[j - 1].key_spec()] == s[j - 1]);
        }
    }
    assert(keyed_map(t) =~= keyed_map(s).insert(x.key_spec(), x));
}

/// Replacing an element of a sorted sequence by one with the same key
/// replaces the key's entry in its map.
pub proof fn lemma_keyed_map_update<T: Keyed>(s: Seq<T>, i: int, x: T)
    requires
        keys_sorted(s),
        0 <= i < s.len(),
        x.key_spec() == s[i].key_spec(),
    ensures
        keys_sorted(s.update(i, x)),
        keyed_map(s.update(i, x)) == keyed_map(s).insert(x.key_spec(), x),
{
    let t = s.update(i, x);
    lemma_update_sorted(s, i, x);
    lemma_keyed_map(s);
    lemma_keyed_map(t);
    lemma_sorted_distinct(s);
    assert(t[i] == x);
    assert forall|q: Seq<char>| #[trigger]
        keyed_map(t).contains_key(q) <==> keyed_map(s).insert(x.key_spec(), x).contains_key(q) by {
        if q == x.key_spec() {
            assert(t[i].key_spec() == q);
            assert(s[i].key_spec() == q);
        }
        if keyed_map(t).contains_key(q) {
            let j = choose|j: int| 0 <= j < t.len() && t[j].key_spec() == q;
            if j != i {
                assert(t[j] == s[j]);
            }
        }
        if keyed_map(s).contains_key(q) {
            let j = choose|j: int| 0 <= j < s.len() && s[j].key_spec() == q;
            if j != i {
                assert(t[j] == s[j]);
            }
        }
    }
    assert forall|q: Seq<char>| #[trigger] keyed_map(t).contains_key(q) implies keyed_map(t)[q]
        == keyed_map(s).insert(x.key_spec(), x)[q] by {
        let j = choose|j: int| 0 <= j < t.len() && t[j].key_spec() == q;
        if j != i {
            assert(t[j] == s[j]);
            assert(keyed_map(s)[s[j].key_spec()] == s[j]);
        }
    }
    assert(keyed_map(t) =~= keyed_map(s).insert(x.key_spec(), x));
}

/// Whether `s` holds `x`.
pub open spec fn seq_has(s: Seq<Seq<char>>, x: Seq<char>) -> bool {
    exists|i: int| 0 <= i < s.len() && s[i] == x
}

/// The text of each string of `v`.
pub open spec fn texts(v: Seq<String>) -> Seq<Seq<char>> {
    v.map_values(|s: String| s@)
}

/// The distinct texts of `regions`, in sorted order.
pub fn sorted_distinct(regions: Vec<String>) -> (r: Vec<String>)
    ensures
        keys_sorted(r@),
        forall|x: Seq<char>| seq_has(texts(r@), x) <==> seq_has(texts(regions@), x),
{
    let mut out: Vec<String> = Vec::new();
    let mut i: usize = 0;
    while i < regions.len()
        invariant
            i <= regions@.len(),
            keys_sorted(out@),
            forall|x: Seq<char>|
                seq_has(texts(out@), x) <==> seq_has(texts(regions@.take(i as int)), x),
        decreases regions@.len() - i,
    {
        let ghost before = out@;
        assert(texts(regions@.take(i + 1)) =~= texts(regions@.take(i as int)).push(regions@[i as int]@));
        match locate(&out, regions[i].as_str()) {
            Ok(k) => {
                assert(texts(out@)[k as int] == regions@[i as int]@);
                assert(seq_has(texts(before), regions@[i as int]@));
                assert forall|x: Seq<char>|
                    #[trigger] seq_has(texts(out@), x) <==> seq_has(texts(before), x) || x
                        == regions@[i as int]@ by {
                    assert(out@ == before);
                }
            },
            Err(k) => {
                let item = regions[i].clone();
                proof {
                    lemma_insert_sorted(before, k as int, item);
                }
                out.insert(k, item);
                proof {
                    assert forall|x: Seq<char>|
                        #[trigger] seq_has(texts(out@), x) <== seq_has(texts(before), x) || x == item@ by {
                        if x == item@ {
                            assert(texts(out@)[k as int] == x);
                        } else if seq_has(texts(before), x) {
                            let j = choose|j: int| 0 <= j < texts(before).len() && texts(before)[j] == x;
                            if j < k {
                                assert(texts(out@)[j] == x);
                            } else {
                                assert(texts(out@)[j + 1] == x);
                            }
                        }
                    }
                    assert forall|x: Seq<char>|
                        #[trigger] seq_has(texts(out@), x) ==> seq_has(texts(before), x) || x == item@ by {
                        if seq_has(texts(out@), x) {
                            let j = choose|j: int| 0 <= j < texts(out@).len() && texts(out@)[j] == x;
                            if j < k {
                                assert(texts(before)[j] == x);
                            } else if j > k {
                                assert(texts(before)[j - 1] == x);
                            }
                        }
                    }
                }
            },
        }
        assert(forall|x: Seq<char>|
            #[trigger] seq_has(texts(out@), x) <==> seq_has(texts(before), x) || x
                == regions@[i as int]@);
        proof {
            let t = texts(regions@.take(i + 1));
            assert forall|x: Seq<char>| seq_has(texts(out@), x) <==> seq_has(t, x) by {
                if seq_has(t, x) {
                    let j = choose|j: int| 0 <= j < t.len() && t[j] == x;
                    if j < i {
                        assert(texts(regions@.take(i as int))[j] == x);
                    }
                }
                if seq_has(texts(regions@.take(i as int)), x) {
                    let j = choose|j: int|
                        0 <= j < texts(regions@.take(i as int)).len() && texts(
                            regions@.take(i as int),
                        )[j] == x;
                    assert(t[j] == x);
                }
                if x == regions@[i as int]@ {
                    assert(t[i as int] == x);
                }
            }
        }
        i += 1;
    }
    assert(regions@.take(i as int) =~= regions@);
    out
}

/// `l` lists the members of `s` in strictly increasing order.
pub open spec fn sorted_set_of(l: Seq<Seq<char>>, s: Set<Seq<char>>) -> bool {
    &&& forall|i: int, j: int| 0 <= i < j < l.len() ==> seq_lt(l[i], l[j])
    &&& forall|x: Seq<char>| seq_has(l, x) <==> s.contains(x)
}

/// The members of `s` in strictly increasing order (meaningful where some
/// list holds them so).
pub open spec fn sorted_list(s: Set<Seq<char>>) -> Seq<Seq<char>> {
    choose|l: Seq<Seq<char>>| sorted_set_of(l, s)
}

/// A set has at most one strictly increasing list of its members.
pub proof fn lemma_sorted_set_unique(l1: Seq<Seq<char>>, l2: Seq<Seq<char>>, s: Set<Seq<char>>)
    requires
        sorted_set_of(l1, s),
        sorted_set_of(l2, s),
    ensures
        l1 == l2,
    decreases l1.len(),
{
    if l1.len() == 0 {
        if l2.len() > 0 {
            assert(seq_has(l2, l2[0]));
        }
        assert(l1 =~= l2);
    } else if l2.len() == 0 {
        assert(seq_has(l1, l1[0]));
    } else {
        let a = l1[0];
        let b = l2[0];
        assert(seq_has(l1, a));
        assert(seq_has(l2, b));
        if a != b {
            assert(seq_has(l2, a));
            assert(seq_has(l1, b));
            let j = choose|j: int| 0 <= j < l2.len() && l2[j] == a;
            let k = choose|k: int| 0 <= k < l1.len() && l1[k] == b;
            assert(seq_lt(b, a));
            assert(seq_lt(a, b));
            lemma_lt_transitive(a, b, a);
            lemma_lt_irreflexive(a);
        }
        let s2 = s.remove(a);
        let t1 = l1.drop_first();
        let t2 = l2.drop_first();
        assert forall|x: Seq<char>| seq_has(t1, x) <==> s2.contains(x) by {
            if seq_has(t1, x) {
                let i = choose|i: int| 0 <= i < t1.len() && t1[i] == x;
                assert(l1[i + 1] == x);
                assert(seq_has(l1, x));
                assert(seq_lt(a, x));
                lemma_lt_irreflexive(a);
            }
            if s2.contains(x) {
                assert(seq_has(l1, x));
                let i = choose|i: int| 0 <= i < l1.len() && l1[i] == x;
                assert(t1[i - 1] == x);
            }
        }
        assert forall|x: Seq<char>| seq_has(t2, x) <==> s2.contains(x) by {
            if seq_has(t2, x) {
                let i = choose|i: int| 0 <= i < t2.len() && t2[i] == x;
                assert(l2[i + 1] == x);
                assert(seq_has(l2, x));
                assert(seq_lt(a, x));
                lemma_lt_irreflexive(a);
            }
            if s2.contains(x) {
                assert(seq_has(l2, x));
                let i = choose|i: int| 0 <= i < l2.len() && l2[i] == x;
                assert(t2[i - 1] == x);
            }
        }
        assert forall|i: int, j: int| 0 <= i < j < t1.len() implies seq_lt(t1[i], t1[j]) by {
            assert(t1[i] == l1[i + 1] && t1[j] == l1[j + 1]);
        }
        assert forall|i: int, j: int| 0 <= i < j < t2.len() implies seq_lt(t2[i], t2[j]) by {
            assert(t2[i] == l2[i + 1] && t2[j] == l2[j + 1]);
        }
        lemma_sorted_set_unique(t1, t2, s2);
        assert(l1 =~= l2) by {
            assert forall|i: int| 0 <= i < l1.len() implies l1[i] == l2[i] by {
                if i > 0 {
                    assert(t1[i - 1] == t2[i - 1]);
                }
            }
        }
    }
}

/// A strictly increasing list of a set's members is the set's sorted list.
pub proof fn lemma_sorted_list(l: Seq<Seq<char>>, s: Set<Seq<char>>)
    requires
        sorted_set_of(l, s),
    ensures
        sorted_list(s) == l,
{
    lemma_sorted_set_unique(sorted_list(s), l, s);
}

/// Two key-sorted sequences that describe the same map are the same.
pub proof fn lemma_keyed_unique<T: Keyed>(a: Seq<T>, b: Seq<T>)
    requires
        keys_sorted(a),
        keys_sorted(b),
        keyed_map(a) == keyed_map(b),
    ensures
        a == b,
{
    lemma_keyed_map(a);
    lemma_keyed_map(b);
    let s = keyed_map(a).dom();
    let ka = keys_of(a);
    let kb = keys_of(b);
    assert forall|x: Seq<char>| seq_has(ka, x) <==> s.contains(x) by {
        if seq_has(ka, x) {
            let i = choose|i: int| 0 <= i < ka.len() && ka[i] == x;
            assert(a[i].key_spec() == x);
            assert(keyed_map(a).contains_key(x));
        }
        if s.contains(x) {
            assert(keyed_map(a).contains_key(x));
            let i = choose|i: int| 0 <= i < a.len() && a[i].key_spec() == x;
            assert(ka[i] == x);
        }
    }
    assert forall|x: Seq<char>| seq_has(kb, x) <==> s.contains(x) by {
        if seq_has(kb, x) {
            let i = choose|i: int| 0 <= i < kb.len() && kb[i] == x;
            assert(b[i].key_spec() == x);
            assert(keyed_map(b).contains_key(x));
        }
        if s.contains(x) {
            assert(keyed_map(b).contains_key(x));
            let i = choose|i: int| 0 <= i < b.len() && b[i].key_spec() == x;
            assert(kb[i] == x);
        }
    }
    lemma_sorted_set_unique(ka, kb, s);
    assert(a.len() == ka.len() && b.len() == kb.len());
    assert forall|i: int| 0 <= i < a.len() implies a[i] == b[i] by {
        assert(ka[i] == kb[i]);
        assert(keyed_map(a)[a[i].key_spec()] == a[i]);
        assert(keyed_map(b)[b[i].key_spec()] == b[i]);
    }
    assert(a =~= b);
}

/// The key-sorted sequence that describes the same map as `s`.
pub open spec fn key_index<T: Keyed>(s: Seq<T>) -> Seq<T> {
    choose|t: Seq<T>| keys_sorted(t) && keyed_map(t) == keyed_map(s)
}

/// The elements of `items` by key, sorted by key, a later element with the
/// same key replacing an earlier one.
pub fn index_by_key<T: Keyed>(items: Vec<T>) -> (r: Vec<T>)
    ensures
        keys_sorted(r@),
        keyed_map(r@) == keyed_map(items@),
        r@ == key_index(items@),
{
    let ghost all = items@;
    let mut input = items;
    let mut out: Vec<T> = Vec::new();
    proof {
        assert(all.take(0) =~= Seq::<T>::empty());
        assert(keyed_map(out@) =~= keyed_map(all.take(0)));
        assert(input@ =~= all.skip(0));
    }
    while input.len() > 0
        invariant
            keys_sorted(out@),
            input@.len() <= all.len(),
            input@ == all.skip(all.len() - input@.len()),
            keyed_map(out@) == keyed_map(all.take(all.len() - input@.len())),
        decreases input@.len(),
    {
        let ghost done = all.len() - input@.len();
        let ghost before = out@;
        let x = input.remove(0);
        proof {
            assert(x == all[done]);
            assert(input@ =~= all.skip(done + 1));
            assert(all.take(done + 1).drop_last() =~= all.take(done));
            assert(all.take(done + 1).last() == x);
        }
        match locate(&out, x.key()) {
            Ok(k) => {
                proof {
                    lemma_keyed_map_update(before, k as int, x);
                }
                out.set(k, x);
                assert(out@ =~= before.update(k as int, x));
            },
            Err(k) => {
                proof {
                    lemma_insert_sorted(before, k as int, x);
                    lemma_keyed_map_insert(before, k as int, x);
                }
                out.insert(k, x);
            },
        }
    }
    assert(all.take(all.len() as int) =~= all);
    proof {
        assert(keys_sorted(out@) && keyed_map(out@) == keyed_map(all));
        lemma_keyed_unique(out@, key_index(all));
    }
    out
}

/// Where a stable insertion puts `x` into `s`: just after the last element
/// that `le` places at or before `x`, or at the front when there is none.
pub open spec fn insertion_point<A>(s: Seq<A>, x: A, le: spec_fn(A, A) -> bool) -> nat
    decreases s.len(),
{
    if s.len() == 0 || le(s.last(), x) {
        s.len()
    } else {
        insertion_point(s.drop_last(), x, le)
    }
}

/// `s` sorted stably by `le`: each element in turn is inserted after the
/// elements already placed that `le` puts at or before it, so elements
/// that `le` ranks level keep their order.
pub open spec fn stable_sort_by<A>(s: Seq<A>, le: spec_fn(A, A) -> bool) -> Seq<A>
    decreases s.len(),
{
    if s.len() == 0 {
        Seq::empty()
    } else {
        let sorted = stable_sort_by(s.drop_last(), le);
        sorted.insert(insertion_point(sorted, s.last(), le) as int, s.last())
    }
}

/// Whether `le` orders every two elements of `s` by their positions.
pub open spec fn sorted_by<A>(s: Seq<A>, le: spec_fn(A, A) -> bool) -> bool {
    forall|i: int, j: int| 0 <= i < j < s.len() ==> le(s[i], s[j])
}

/// Whether `le` is a total preorder: any two elements compare, and it is
/// transitive.
pub open spec fn total_preorder<A>(le: spec_fn(A, A) -> bool) -> bool {
    &&& forall|a: A, b: A| #[trigger] le(a, b) || le(b, a)
    &&& forall|a: A, b: A, c: A| #[trigger] le(a, b) && #[trigger] le(b, c) ==> le(a, c)
}

/// In a sorted sequence, the insertion point of `x` splits the elements
/// that `le` places at or before `x` from the others.
pub proof fn lemma_insertion_point<A>(s: Seq<A>, x: A, le: spec_fn(A, A) -> bool)
    requires
        total_preorder(le),
        sorted_by(s, le),
    ensures
        insertion_point(s, x, le) <= s.len(),
        forall|j: int| 0 <= j < insertion_point(s, x, le) ==> le(#[trigger] s[j], x),
        forall|j: int| insertion_point(s, x, le) <= j < s.len() ==> !le(#[trigger] s[j], x),
    decreases s.len(),
{
    if s.len() == 0 {
    } else if le(s.last(), x) {
        assert forall|j: int| 0 <= j < s.len() implies le(#[trigger] s[j], x) by {
            if j < s.len() - 1 {
                assert(le(s[j], s[s.len() - 1]));
            }
        }
    } else {
        let d = s.drop_last();
        lemma_insertion_point(d, x, le);
        assert forall|j: int| 0 <= j < insertion_point(s, x, le) implies le(#[trigger] s[j], x) by {
            assert(s[j] == d[j]);
        }
        assert forall|j: int| insertion_point(s, x, le) <= j < s.len() implies !le(#[trigger] s[j], x) by {
            if j < s.len() - 1 {
                assert(s[j] == d[j]);
            }
        }
    }
}

/// A stable sort by a total preorder gives a sorted sequence of the same
/// length.
pub proof fn lemma_stable_sort_sorted<A>(s: Seq<A>, le: spec_fn(A, A) -> bool)
    requires
        total_preorder(le),
    ensures
        stable_sort_by(s, le).len() == s.len(),
        sorted_by(stable_sort_by(s, le), le),
    decreases s.len(),
{
    if s.len() > 0 {
        let d = stable_sort_by(s.drop_last(), le);
        lemma_stable_sort_sorted(s.drop_last(), le);
        let x = s.last();
        lemma_insertion_point(d, x, le);
        let p = insertion_point(d, x, le) as int;
        let r = d.insert(p, x);
        assert forall|i: int, j: int| 0 <= i < j < r.len() implies le(r[i], r[j]) by {
            if j < p {
                assert(r[i] == d[i] && r[j] == d[j]);
            } else if j == p {
                assert(r[i] == d[i]);
            } else if i < p {
                assert(r[i] == d[i] && r[j] == d[j - 1]);
            } else if i == p {
                assert(r[j] == d[j - 1]);
                assert(!le(d[j - 1], x));
                assert(le(x, d[j - 1]) || le(d[j - 1], x));
            } else {
                assert(r[i] == d[i - 1] && r[j] == d[j - 1]);
            }
        }
    }
}

/// A stable sort leaves an already sorted sequence as it is.
pub proof fn lemma_stable_sort_of_sorted<A>(s: Seq<A>, le: spec_fn(A, A) -> bool)
    requires
        sorted_by(s, le),
    ensures
        stable_sort_by(s, le) == s,
    decreases s.len(),
{
    if s.len() > 0 {
        let d = s.drop_last();
        assert(sorted_by(d, le)) by {
            assert forall|i: int, j: int| 0 <= i < j < d.len() implies le(d[i], d[j]) by {
                assert(d[i] == s[i] && d[j] == s[j]);
            }
        }
        lemma_stable_sort_of_sorted(d, le);
        if d.len() > 0 {
            assert(le(s[d.len() - 1], s[s.len() - 1]));
            assert(d.last() == s[d.len() - 1]);
        }
        assert(insertion_point(d, s.last(), le) == d.len());
        assert(d.insert(d.len() as int, s.last()) =~= s);
    }
}

/// A copy of a list of strings.
pub fn clone_texts(v: &Vec<String>) -> (r: Vec<String>)
    ensures
        texts(r@) == texts(v@),
{
    let mut out: Vec<String> = Vec::new();
    let mut i: usize = 0;
    while i < v.len()
        invariant
            i <= v@.len(),
            out@.len() == i,
            forall|j: int| 0 <= j < i ==> #[trigger] out@[j]@ == v@[j]@,
        decreases v@.len() - i,
    {
        out.push(v[i].clone());
        i += 1;
    }
    assert(texts(out@) =~= texts(v@));
    out
}

} // verus!
