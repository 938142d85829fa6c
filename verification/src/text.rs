//! Character-level string operations with contracts over `Seq<char>`.
use vstd::prelude::*;
use vstd::string::*;

verus! {

/// Appends one character to a string.
///
/// Wraps `String::push`, which std documents as appending the given `char`
/// to the end of the string; the contract says exactly that.
#[verifier::external_body]
pub(crate) fn push_char(s: &mut String, c: char)
    ensures
        final(s)@ == old(s)@.push(c),
{
    s.push(c);
}

/// The result of replacing every character of `s` that occurs in `targets` by `replacement`.
pub open spec fn replace_chars_spec(s: Seq<char>, targets: Seq<char>, replacement: char) -> Seq<
    char,
> {
    Seq::new(s.len(), |i: int| if targets.contains(s[i]) { replacement } else { s[i] })
}

/// Whether `c` occurs in `chars`.
pub fn contains_char(chars: &[char], c: char) -> (found: bool)
    ensures
        found == chars@.contains(c),
{
    let mut i: usize = 0;
    while i < chars.len()
        invariant
            i <= chars@.len(),
            forall|j: int| 0 <= j < i ==> chars@[j] != c,
        decreases chars@.len() - i,
    {
        if chars[i] == c {
            return true;
        }
        i += 1;
    }
    false
}

/// Replaces every character of `value` found in `targets` by `replacement`.
pub fn replace_chars(value: &str, targets: &[char], replacement: char) -> (out: String)
    ensures
        out@ == replace_chars_spec(value@, targets@, replacement),
{
    let n = value.unicode_len();
    let mut out = String::new();
    let mut i: usize = 0;
    while i < n
        invariant
            n == value@.len(),
            i <= n,
            out@.len() == i,
            forall|j: int|
                0 <= j < i ==> out@[j] == (if targets@.contains(value@[j]) {
                    replacement
                } else {
                    value@[j]
                }),
        decreases n - i,
    {
        let c = value.get_char(i);
        if contains_char(targets, c) {
            push_char(&mut out, replacement);
        } else {
            push_char(&mut out, c);
        }
        i += 1;
    }
    assert(out@ =~= replace_chars_spec(value@, targets@, replacement));
    out
}

/// Whether two strings hold the same characters.
pub fn str_eq(a: &str, b: &str) -> (same: bool)
    ensures
        same == (a@ == b@),
{
    let n = a.unicode_len();
    let m = b.unicode_len();
    if n != m {
        return false;
    }
    let mut i: usize = 0;
    while i < n
        invariant
            n == a@.len(),
            m == b@.len(),
            n == m,
            i <= n,
            forall|j: int| 0 <= j < i ==> a@[j] == b@[j],
        decreases n - i,
    {
        if a.get_char(i) != b.get_char(i) {
            return false;
        }
        i += 1;
    }
    assert(a@ =~= b@);
    true
}

/// Whether `s` begins with `prefix`.
pub open spec fn starts_with_spec(s: Seq<char>, prefix: Seq<char>) -> bool {
    prefix.len() <= s.len() && s.subrange(0, prefix.len() as int) == prefix
}

/// Whether `s` begins with `prefix`.
pub fn starts_with(s: &str, prefix: &str) -> (r: bool)
    ensures
        r == starts_with_spec(s@, prefix@),
{
    let n = s.unicode_len();
    let m = prefix.unicode_len();
    if m > n {
        return false;
    }
    let mut i: usize = 0;
    while i < m
        invariant
            n == s@.len(),
            m == prefix@.len(),
            m <= n,
            i <= m,
            forall|j: int| 0 <= j < i ==> s@[j] == prefix@[j],
        decreases m - i,
    {
        if s.get_char(i) != prefix.get_char(i) {
            assert(s@.subrange(0, m as int)[i as int] != prefix@[i as int]);
            return false;
        }
        i += 1;
    }
    assert(s@.subrange(0, m as int) =~= prefix@);
    true
}

/// Whether `needle` occurs in `haystack` as a contiguous run of characters.
pub open spec fn contains_seq(haystack: Seq<char>, needle: Seq<char>) -> bool {
    exists|i: int|
        0 <= i && i + needle.len() <= haystack.len() && #[trigger] haystack.subrange(
            i,
            i + needle.len(),
        ) == needle
}

/// Whether `needle` occurs at position `at` of `haystack`.
fn matches_at(haystack: &str, n: usize, needle: &str, m: usize, at: usize) -> (r: bool)
    requires
        n == haystack@.len(),
        m == needle@.len(),
        at + m <= n,
    ensures
        r == (haystack@.subrange(at as int, at + m) == needle@),
{
    let mut j: usize = 0;
    while j < m
        invariant
            n == haystack@.len(),
            m == needle@.len(),
            at + m <= n,
            j <= m,
            forall|k: int| 0 <= k < j ==> haystack@[at + k] == needle@[k],
        decreases m - j,
    {
        if haystack.get_char(at + j) != needle.get_char(j) {
            assert(haystack@.subrange(at as int, at + m)[j as int] != needle@[j as int]);
            return false;
        }
        j += 1;
    }
    assert(haystack@.subrange(at as int, at + m) =~= needle@);
    true
}

/// Whether `needle` occurs somewhere in `haystack`.
pub fn contains_str(haystack: &str, needle: &str) -> (r: bool)
    ensures
        r == contains_seq(haystack@, needle@),
{
    let n = haystack.unicode_len();
    let m = needle.unicode_len();
    if m > n {
        return false;
    }
    let limit = n - m;
    let mut at: usize = 0;
    loop
        invariant
            n == haystack@.len(),
            m == needle@.len(),
            limit == n - m,
            at <= limit,
            forall|i: int|
                0 <= i < at ==> #[trigger] haystack@.subrange(i, i + needle@.len()) != needle@,
        decreases limit - at,
    {
        if matches_at(haystack, n, needle, m, at) {
            return true;
        }
        if at == limit {
            return false;
        }
        at += 1;
    }
}

/// Whether `c` is a Unicode `White_Space` character, which is what
/// `char::is_whitespace` tests.
pub open spec fn is_whitespace_spec(c: char) -> bool {
    let u = c as u32;
    ||| 0x09 <= u <= 0x0d
    ||| u == 0x20
    ||| u == 0x85
    ||| u == 0xa0
    ||| u == 0x1680
    ||| 0x2000 <= u <= 0x200a
    ||| u == 0x2028
    ||| u == 0x2029
    ||| u == 0x202f
    ||| u == 0x205f
    ||| u == 0x3000
}

/// Whether `c` is whitespace.
pub fn is_whitespace(c: char) -> (r: bool)
    ensures
        r == is_whitespace_spec(c),
{
    let u = c as u32;
    (0x09 <= u && u <= 0x0d) || u == 0x20 || u == 0x85 || u == 0xa0 || u == 0x1680 || (0x2000 <= u
        && u <= 0x200a) || u == 0x2028 || u == 0x2029 || u == 0x202f || u == 0x205f || u == 0x3000
}

/// `s` without its leading whitespace.
pub open spec fn trim_start_spec(s: Seq<char>) -> Seq<char>
    decreases s.len(),
{
    if s.len() > 0 && is_whitespace_spec(s[0]) {
        trim_start_spec(s.drop_first())
    } else {
        s
    }
}

/// `s` without its trailing whitespace.
pub open spec fn trim_end_spec(s: Seq<char>) -> Seq<char>
    decreases s.len(),
{
    if s.len() > 0 && is_whitespace_spec(s.last()) {
        trim_end_spec(s.drop_last())
    } else {
        s
    }
}

/// `s` without leading and trailing whitespace, as `str::trim` gives it.
pub open spec fn trim_spec(s: Seq<char>) -> Seq<char> {
    trim_end_spec(trim_start_spec(s))
}

proof fn lemma_trim_start_skip(s: Seq<char>, k: int)
    requires
        0 <= k <= s.len(),
        forall|j: int| 0 <= j < k ==> is_whitespace_spec(s[j]),
        k == s.len() || !is_whitespace_spec(s[k]),
    ensures
        trim_start_spec(s) == s.subrange(k, s.len() as int),
    decreases k,
{
    if k == 0 {
        assert(s.subrange(0, s.len() as int) =~= s);
    } else {
        let t = s.drop_first();
        assert forall|j: int| 0 <= j < k - 1 implies is_whitespace_spec(t[j]) by {
            assert(t[j] == s[j + 1]);
        }
        if k - 1 < t.len() {
            assert(t[k - 1] == s[k]);
        }
        lemma_trim_start_skip(t, k - 1);
        assert(t.subrange(k - 1, t.len() as int) =~= s.subrange(k, s.len() as int));
    }
}

proof fn lemma_trim_end_take(s: Seq<char>, e: int)
    requires
        0 <= e <= s.len(),
        forall|j: int| e <= j < s.len() ==> is_whitespace_spec(s[j]),
        e == 0 || !is_whitespace_spec(s[e - 1]),
    ensures
        trim_end_spec(s) == s.subrange(0, e),
    decreases s.len() - e,
{
    if e == s.len() {
        assert(s.subrange(0, e) =~= s);
    } else {
        let t = s.drop_last();
        assert forall|j: int| e <= j < t.len() implies is_whitespace_spec(t[j]) by {
            assert(t[j] == s[j]);
        }
        if e > 0 {
            assert(t[e - 1] == s[e - 1]);
        }
        lemma_trim_end_take(t, e);
        assert(t.subrange(0, e) =~= s.subrange(0, e));
    }
}

/// Removes leading and trailing whitespace.
pub fn trim(s: &str) -> (out: String)
    ensures
        out@ == trim_spec(s@),
{
    let n = s.unicode_len();
    let mut start: usize = 0;
    while start < n && is_whitespace(s.get_char(start))
        invariant
            n == s@.len(),
            start <= n,
            forall|j: int| 0 <= j < start ==> is_whitespace_spec(s@[j]),
        decreases n - start,
    {
        start += 1;
    }
    proof {
        lemma_trim_start_skip(s@, start as int);
    }
    let ghost rest = s@.subrange(start as int, n as int);
    let mut end: usize = n;
    while end > start && is_whitespace(s.get_char(end - 1))
        invariant
            n == s@.len(),
            start <= end <= n,
            rest == s@.subrange(start as int, n as int),
            forall|j: int| end <= j < n ==> is_whitespace_spec(s@[j]),
        decreases end - start,
    {
        end -= 1;
    }
    proof {
        let e = end - start;
        assert forall|j: int| e <= j < rest.len() implies is_whitespace_spec(rest[j]) by {
            assert(rest[j] == s@[start + j]);
        }
        if e > 0 {
            assert(rest[e - 1] == s@[end - 1]);
        }
        lemma_trim_end_take(rest, e);
        assert(rest.subrange(0, e) =~= s@.subrange(start as int, end as int));
    }
    let sub = s.substring_char(start, end);
    sub.to_owned()
}

/// The index of the first `c` in `s`, or `s.len()` when `s` holds none.
pub open spec fn first_index(s: Seq<char>, c: char) -> int
    decreases s.len(),
{
    if s.len() == 0 {
        0
    } else if s[0] == c {
        0
    } else {
        1 + first_index(s.drop_first(), c)
    }
}

/// `first_index` is the position of the first `c`, or the length when there is none.
pub proof fn lemma_first_index(s: Seq<char>, c: char)
    ensures
        0 <= first_index(s, c) <= s.len(),
        forall|j: int| 0 <= j < first_index(s, c) ==> s[j] != c,
        first_index(s, c) < s.len() ==> s[first_index(s, c)] == c,
    decreases s.len(),
{
    if s.len() > 0 && s[0] != c {
        let t = s.drop_first();
        lemma_first_index(t, c);
        assert forall|j: int| 0 <= j < first_index(s, c) implies s[j] != c by {
            if j > 0 {
                assert(s[j] == t[j - 1]);
            }
        }
    }
}

pub proof fn lemma_first_index_at(s: Seq<char>, c: char, k: int)
    requires
        0 <= k <= s.len(),
        forall|j: int| 0 <= j < k ==> s[j] != c,
        k == s.len() || s[k] == c,
    ensures
        first_index(s, c) == k,
    decreases k,
{
    if k > 0 {
        let t = s.drop_first();
        assert forall|j: int| 0 <= j < k - 1 implies t[j] != c by {
            assert(t[j] == s[j + 1]);
        }
        if k < s.len() {
            assert(t[k - 1] == s[k]);
        }
        lemma_first_index_at(t, c, k - 1);
    }
}

/// The index of the first `c` in `s`, or the length of `s` when it holds none.
pub fn find_char(s: &str, c: char) -> (r: usize)
    ensures
        r == first_index(s@, c),
{
    let n = s.unicode_len();
    let mut i: usize = 0;
    while i < n && s.get_char(i) != c
        invariant
            n == s@.len(),
            i <= n,
            forall|j: int| 0 <= j < i ==> s@[j] != c,
        decreases n - i,
    {
        i += 1;
    }
    proof {
        lemma_first_index_at(s@, c, i as int);
    }
    i
}

/// Whether `c` occurs in `s`.
pub fn str_has_char(s: &str, c: char) -> (r: bool)
    ensures
        r == s@.contains(c),
{
    let k = find_char(s, c);
    proof {
        lemma_first_index(s@, c);
    }
    k < s.unicode_len()
}

/// The text before and after the first `c`, when `s` holds one.
pub open spec fn split_once_spec(s: Seq<char>, c: char) -> Option<(Seq<char>, Seq<char>)> {
    let k = first_index(s, c);
    if k < s.len() {
        Some((s.take(k), s.skip(k + 1)))
    } else {
        None
    }
}

/// Splits `s` at its first `c`.
pub fn split_once(s: &str, c: char) -> (r: Option<(String, String)>)
    ensures
        match r {
            Some(parts) => split_once_spec(s@, c) == Some((parts.0@, parts.1@)),
            None => split_once_spec(s@, c) is None,
        },
{
    let n = s.unicode_len();
    let k = find_char(s, c);
    proof {
        lemma_first_index(s@, c);
    }
    if k < n {
        let head = s.substring_char(0, k).to_owned();
        let tail = s.substring_char(k + 1, n).to_owned();
        assert(head@ =~= s@.take(k as int));
        assert(tail@ =~= s@.skip(k + 1));
        Some((head, tail))
    } else {
        None
    }
}

/// At most `n` pieces of `s` split at `c`; the last piece keeps the rest of
/// the text, as `str::splitn` does.
pub open spec fn split_n_spec(s: Seq<char>, c: char, n: nat) -> Seq<Seq<char>>
    decreases n,
{
    if n <= 1 {
        seq![s]
    } else {
        let k = first_index(s, c);
        if k < s.len() {
            seq![s.take(k)] + split_n_spec(s.skip(k + 1), c, (n - 1) as nat)
        } else {
            seq![s]
        }
    }
}

/// How many times `c` occurs in `s`.
pub open spec fn count_char(s: Seq<char>, c: char) -> nat
    decreases s.len(),
{
    if s.len() == 0 {
        0
    } else {
        count_char(s.drop_last(), c) + if s.last() == c {
            1nat
        } else {
            0nat
        }
    }
}

/// Occurrences in a concatenation add up.
pub proof fn lemma_count_concat(a: Seq<char>, b: Seq<char>, c: char)
    ensures
        count_char(a + b, c) == count_char(a, c) + count_char(b, c),
    decreases b.len(),
{
    if b.len() == 0 {
        assert(a + b =~= a);
    } else {
        lemma_count_concat(a, b.drop_last(), c);
        assert((a + b).drop_last() =~= a + b.drop_last());
    }
}

/// A text without `c` holds it no times.
pub proof fn lemma_count_none(s: Seq<char>, c: char)
    requires
        forall|j: int| 0 <= j < s.len() ==> s[j] != c,
    ensures
        count_char(s, c) == 0,
    decreases s.len(),
{
    if s.len() > 0 {
        lemma_count_none(s.drop_last(), c);
    }
}

/// `splitn` gives one piece more than there are separators, at most `n`.
pub proof fn lemma_split_n_len(s: Seq<char>, c: char, n: nat)
    requires
        n >= 1,
    ensures
        split_n_spec(s, c, n).len() == if count_char(s, c) + 1 < n {
            count_char(s, c) + 1
        } else {
            n
        },
    decreases n,
{
    lemma_first_index(s, c);
    let k = first_index(s, c);
    if n > 1 {
        if k < s.len() {
            let head = s.take(k);
            let rest = s.skip(k + 1);
            assert(s =~= head + seq![c] + rest);
            lemma_count_none(head, c);
            lemma_count_concat(head + seq![c], rest, c);
            lemma_count_concat(head, seq![c], c);
            assert(seq![c].drop_last() =~= Seq::<char>::empty());
            assert(count_char(seq![c], c) == 1) by {
                reveal_with_fuel(count_char, 2);
            }
            assert(count_char(s, c) == 1 + count_char(rest, c));
            lemma_split_n_len(rest, c, (n - 1) as nat);
            assert(split_n_spec(s, c, n) == seq![head] + split_n_spec(rest, c, (n - 1) as nat));
        } else {
            lemma_count_none(s, c);
            assert(split_n_spec(s, c, n) == seq![s]);
        }
    }
}

/// Splits `s` at `c` into at most `n` pieces, the last one holding the rest.
pub fn split_n(s: &str, c: char, n: usize) -> (r: Vec<String>)
    ensures
        r.deep_view() == split_n_spec(s@, c, n as nat),
    decreases n,
{
    if n <= 1 {
        return vec![s.to_owned()];
    }
    let len = s.unicode_len();
    let k = find_char(s, c);
    proof {
        lemma_first_index(s@, c);
    }
    if k < len {
        let head = s.substring_char(0, k).to_owned();
        let tail = s.substring_char(k + 1, len);
        let mut rest = split_n(tail, c, n - 1);
        assert(head@ =~= s@.take(k as int));
        assert(tail@ =~= s@.skip(k + 1));
        rest.insert(0, head);
        assert(rest.deep_view() =~= seq![s@.take(k as int)] + split_n_spec(
            s@.skip(k + 1),
            c,
            (n - 1) as nat,
        ));
        rest
    } else {
        let r = vec![s.to_owned()];
        assert(r.deep_view() =~= seq![s@]);
        r
    }
}

/// All the pieces of `s` between occurrences of `c`, as `str::split` yields them.
pub open spec fn split_all_spec(s: Seq<char>, c: char) -> Seq<Seq<char>>
    decreases s.len(),
{
    let k = first_index(s, c);
    if 0 <= k < s.len() {
        seq![s.take(k)] + split_all_spec(s.skip(k + 1), c)
    } else {
        seq![s]
    }
}

/// Splits `s` at every `c`.
pub fn split_all(s: &str, c: char) -> (r: Vec<String>)
    ensures
        r.deep_view() == split_all_spec(s@, c),
    decreases s@.len(),
{
    let len = s.unicode_len();
    let k = find_char(s, c);
    proof {
        lemma_first_index(s@, c);
    }
    if k < len {
        let head = s.substring_char(0, k).to_owned();
        let tail = s.substring_char(k + 1, len);
        assert(head@ =~= s@.take(k as int));
        assert(tail@ =~= s@.skip(k + 1));
        let mut rest = split_all(tail, c);
        rest.insert(0, head);
        assert(rest.deep_view() =~= seq![s@.take(k as int)] + split_all_spec(s@.skip(k + 1), c));
        rest
    } else {
        let r = vec![s.to_owned()];
        assert(r.deep_view() =~= seq![s@]);
        r
    }
}

/// `parts` joined with `separator` between consecutive parts.
pub open spec fn join_spec(parts: Seq<Seq<char>>, separator: Seq<char>) -> Seq<char>
    decreases parts.len(),
{
    if parts.len() == 0 {
        Seq::empty()
    } else if parts.len() == 1 {
        parts[0]
    } else {
        join_spec(parts.drop_last(), separator) + separator + parts.last()
    }
}

/// Joins `parts` with `separator` between consecutive parts.
pub fn join(parts: &Vec<String>, separator: &str) -> (r: String)
    ensures
        r@ == join_spec(parts.deep_view(), separator@),
{
    let ghost dv = parts.deep_view();
    let mut out = String::new();
    let mut i: usize = 0;
    while i < parts.len()
        invariant
            i <= parts@.len(),
            dv == parts.deep_view(),
            out@ == join_spec(dv.take(i as int), separator@),
        decreases parts@.len() - i,
    {
        assert(dv.take(i + 1).drop_last() =~= dv.take(i as int));
        assert(dv.take(i + 1).last() == parts@[i as int]@);
        if i > 0 {
            out.append(separator);
        } else {
            assert(out@ =~= Seq::<char>::empty());
        }
        out.append(parts[i].as_str());
        i += 1;
    }
    assert(dv.take(i as int) =~= dv);
    out
}

/// The code of `c` with ASCII upper-case letters taken to lower case.
pub open spec fn ascii_lower_code(c: char) -> u32 {
    if 65 <= (c as u32) <= 90 {
        (c as u32 + 32) as u32
    } else {
        c as u32
    }
}

/// Whether `a` and `b` are equal ignoring ASCII case, as `str::eq_ignore_ascii_case` decides.
pub open spec fn eq_ignore_ascii_case_spec(a: Seq<char>, b: Seq<char>) -> bool {
    a.len() == b.len() && forall|i: int| 0 <= i < a.len() ==> ascii_lower_code(a[i]) == ascii_lower_code(b[i])
}

fn lower_code(c: char) -> (r: u32)
    ensures
        r == ascii_lower_code(c),
{
    let u = c as u32;
    if 65 <= u && u <= 90 {
        u + 32
    } else {
        u
    }
}

/// Whether `a` and `b` are equal ignoring ASCII case.
pub fn eq_ignore_ascii_case(a: &str, b: &str) -> (r: bool)
    ensures
        r == eq_ignore_ascii_case_spec(a@, b@),
{
    let n = a.unicode_len();
    if n != b.unicode_len() {
        return false;
    }
    let mut i: usize = 0;
    while i < n
        invariant
            n == a@.len(),
            n == b@.len(),
            i <= n,
            forall|j: int| 0 <= j < i ==> ascii_lower_code(a@[j]) == ascii_lower_code(b@[j]),
        decreases n - i,
    {
        if lower_code(a.get_char(i)) != lower_code(b.get_char(i)) {
            return false;
        }
        i += 1;
    }
    true
}

/// The Unicode lower-case form of a text, as `str::to_lowercase` gives it.
pub uninterp spec fn lowercase_text(s: Seq<char>) -> Seq<char>;

/// Lower-cases a text.
///
/// Wraps `str::to_lowercase`; its result is named `lowercase_text` of the
/// input characters, the full Unicode case mapping not being restated here.
#[verifier::external_body]
pub(crate) fn to_lowercase(s: &str) -> (r: String)
    ensures
        r@ == lowercase_text(s@),
{
    s.to_lowercase()
}

/// Whether `c` has the Unicode `Uppercase` property, as `char::is_uppercase` decides.
pub uninterp spec fn char_is_uppercase(c: char) -> bool;

/// Whether a character is upper case.
///
/// Wraps `char::is_uppercase`; its result is named `char_is_uppercase`.
#[verifier::external_body]
pub(crate) fn is_uppercase(c: char) -> (r: bool)
    ensures
        r == char_is_uppercase(c),
{
    c.is_uppercase()
}

/// The Unicode lower-case mapping of one character, as `char::to_lowercase` yields it.
pub uninterp spec fn char_lowercase(c: char) -> Seq<char>;

/// The lower-case form of one character.
///
/// Wraps `char::to_lowercase`, collecting the characters it yields; the
/// result is named `char_lowercase`.
#[verifier::external_body]
pub(crate) fn char_to_lowercase(c: char) -> (r: String)
    ensures
        r@ == char_lowercase(c),
{
    c.to_lowercase().collect()
}

/// The decimal digit character for `d`.
pub open spec fn digit_spec(d: int) -> char {
    (d + 48) as char
}

/// The decimal representation of `n`, without leading zeros.
pub open spec fn decimal_spec(n: nat) -> Seq<char>
    decreases n,
{
    if n < 10 {
        seq![digit_spec(n as int)]
    } else {
        decimal_spec(n / 10).push(digit_spec((n % 10) as int))
    }
}

/// `n` in decimal, left-padded with zeros to at least `width` digits.
pub open spec fn zero_padded_spec(n: nat, width: nat) -> Seq<char> {
    let digits = decimal_spec(n);
    if digits.len() >= width {
        digits
    } else {
        Seq::new((width - digits.len()) as nat, |i: int| '0') + digits
    }
}

fn digit_char(d: u64) -> (c: char)
    requires
        d < 10,
    ensures
        c == digit_spec(d as int),
{
    let b: u8 = (d as u8) + 48;
    b as char
}

/// Appends `n` in decimal to `out`.
pub fn push_decimal(out: &mut String, n: u64)
    ensures
        final(out)@ == old(out)@ + decimal_spec(n as nat),
    decreases n,
{
    if n < 10 {
        push_char(out, digit_char(n));
        assert(old(out)@.push(digit_spec(n as int)) =~= old(out)@ + decimal_spec(n as nat));
    } else {
        push_decimal(out, n / 10);
        push_char(out, digit_char(n % 10));
        assert(final(out)@ =~= old(out)@ + decimal_spec(n as nat));
    }
}

/// `n` in decimal.
pub fn decimal(n: u64) -> (r: String)
    ensures
        r@ == decimal_spec(n as nat),
{
    let mut out = String::new();
    push_decimal(&mut out, n);
    assert(out@ =~= decimal_spec(n as nat));
    out
}

proof fn lemma_decimal_len(n: nat)
    ensures
        decimal_spec(n).len() >= 1,
        n < 10 ==> decimal_spec(n).len() == 1,
        n >= 10 ==> decimal_spec(n).len() >= 2,
    decreases n,
{
    if n >= 10 {
        lemma_decimal_len(n / 10);
    }
}

/// Appends `n` in decimal, left-padded with zeros to two digits.
pub fn push_two_digits(out: &mut String, n: u64)
    ensures
        final(out)@ == old(out)@ + zero_padded_spec(n as nat, 2),
{
    proof {
        lemma_decimal_len(n as nat);
    }
    if n < 10 {
        push_char(out, '0');
    }
    push_decimal(out, n);
    proof {
        if n < 10 {
            assert(Seq::new(1, |i: int| '0') =~= seq!['0']);
        }
    }
    assert(final(out)@ =~= old(out)@ + zero_padded_spec(n as nat, 2));
}

} // verus!
