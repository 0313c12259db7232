//! Character-level text primitives with their mathematical meaning.
//!
//! Text is modelled as `Seq<char>`, the view of `str` and `String`.
use vstd::prelude::*;
use vstd::utf8::{decode_utf8, valid_utf8};

verus! {

// ---------------------------------------------------------------------------
// Conversions
// ---------------------------------------------------------------------------

/// The characters of `s`, in order.
pub fn chars_of(s: &str) -> (out: Vec<char>)
    ensures
        out@ == s@,
{
    let mut out: Vec<char> = Vec::new();
    for c in it: s.chars()
        invariant
            it.seq() == s@,
            out@ == it.seq().take(it.index() as int),
    {
        out.push(c);
    }
    out
}

/// `String::from_utf8_lossy`: the text of `bytes`, each invalid sequence
/// replaced by U+FFFD. Where the bytes are valid UTF-8, std documents the
/// text as their decoding; the replacement rule itself is left to the name.
pub uninterp spec fn utf8_lossy(bytes: Seq<u8>) -> Seq<char>;

/// `String::from_utf8_lossy`, made owned.
#[verifier::external_body]
pub(crate) fn string_from_utf8_lossy(bytes: &[u8]) -> (s: String)
    ensures
        s@ == utf8_lossy(bytes@),
        valid_utf8(bytes@) ==> s@ == decode_utf8(bytes@),
{
    String::from_utf8_lossy(bytes).into_owned()
}

/// `String: FromIterator<&char>`: collects the characters into a new string.
#[verifier::external_body]
pub(crate) fn string_from_chars(v: &Vec<char>) -> (s: String)
    ensures
        s@ == v@,
{
    v.iter().collect()
}

/// Appends the characters of `s` to `out`.
pub fn push_str(out: &mut Vec<char>, s: &str)
    ensures
        final(out)@ == old(out)@ + s@,
{
    let ghost start = out@;
    for c in it: s.chars()
        invariant
            it.seq() == s@,
            out@ == start + it.seq().take(it.index() as int),
    {
        out.push(c);
        proof {
            assert(it.seq().take(it.index() + 1) =~= it.seq().take(it.index() as int).push(c));
        }
    }
    assert(s@.take(s@.len() as int) =~= s@);
}

/// Appends the characters of `s` to `out`.
pub fn push_chars(out: &mut Vec<char>, s: &Vec<char>)
    ensures
        final(out)@ == old(out)@ + s@,
{
    let ghost start = out@;
    let mut i: usize = 0;
    while i < s.len()
        invariant
            i <= s.len(),
            out@ == start + s@.take(i as int),
        decreases s.len() - i,
    {
        out.push(s[i]);
        i = i + 1;
        assert(s@.take(i as int) =~= s@.take(i - 1).push(s@[i - 1]));
    }
    assert(s@.take(s@.len() as int) =~= s@);
}

/// The characters `s[a..b]` as a new vector.
pub fn sub_chars(s: &Vec<char>, a: usize, b: usize) -> (out: Vec<char>)
    requires
        a <= b <= s.len(),
    ensures
        out@ == s@.subrange(a as int, b as int),
{
    let mut out: Vec<char> = Vec::new();
    let mut i: usize = a;
    while i < b
        invariant
            a <= i <= b <= s.len(),
            out@ == s@.subrange(a as int, i as int),
        decreases b - i,
    {
        out.push(s[i]);
        i = i + 1;
        assert(s@.subrange(a as int, i as int) =~= s@.subrange(a as int, i - 1).push(s@[i - 1]));
    }
    out
}

/// A string holding the characters `s[a..b]`.
pub fn sub_string(s: &Vec<char>, a: usize, b: usize) -> (out: String)
    requires
        a <= b <= s.len(),
    ensures
        out@ == s@.subrange(a as int, b as int),
{
    let v = sub_chars(s, a, b);
    string_from_chars(&v)
}

/// An owned copy of `s`.
pub fn to_owned(s: &str) -> (out: String)
    ensures
        out@ == s@,
{
    s.to_owned()
}

/// Whether two strings hold the same characters.
pub fn str_eq(a: &str, b: &str) -> (r: bool)
    ensures
        r == (a@ == b@),
{
    let x = chars_of(a);
    let y = chars_of(b);
    chars_eq(&x, &y)
}

/// Whether two character vectors are equal.
pub fn chars_eq(a: &Vec<char>, b: &Vec<char>) -> (r: bool)
    ensures
        r == (a@ == b@),
{
    if a.len() != b.len() {
        return false;
    }
    let mut i: usize = 0;
    while i < a.len()
        invariant
            a.len() == b.len(),
            i <= a.len(),
            forall|j: int| 0 <= j < i ==> a@[j] == b@[j],
        decreases a.len() - i,
    {
        if a[i] != b[i] {
            return false;
        }
        i = i + 1;
    }
    assert(a@ =~= b@);
    true
}

// ---------------------------------------------------------------------------
// Lower-casing (Unicode, as `str::to_lowercase`)
// ---------------------------------------------------------------------------

/// The result of `str::to_lowercase` on a string with these characters.
pub uninterp spec fn lowercase(s: Seq<char>) -> Seq<char>;

/// `str::to_lowercase`: the Unicode lower-case mapping of every character.
/// Its tables are not restated here; the result is named [`lowercase`].
/// On ASCII text it maps `A`..`Z` to `a`..`z` and keeps every other
/// character.
#[verifier::external_body]
pub(crate) fn to_lowercase(s: &str) -> (r: String)
    ensures
        r@ == lowercase(s@),
        is_ascii_text(s@) ==> r@ == s@.map_values(|c: char| ascii_lower(c)),
{
    s.to_lowercase()
}

/// Every character is ASCII.
pub open spec fn is_ascii_text(s: Seq<char>) -> bool {
    forall|i: int| 0 <= i < s.len() ==> (s[i] as u32) < 128
}

/// The text lower-cased as `str::to_lowercase` does: ASCII text letter by
/// letter, other text by Unicode's tables.
pub open spec fn lowered(s: Seq<char>) -> Seq<char> {
    if is_ascii_text(s) {
        s.map_values(|c: char| ascii_lower(c))
    } else {
        lowercase(s)
    }
}

// ---------------------------------------------------------------------------
// ASCII case folding
// ---------------------------------------------------------------------------

pub open spec fn ascii_lower(c: char) -> char {
    if 'A' <= c && c <= 'Z' {
        (((c as u8) + 32) as u8) as char
    } else {
        c
    }
}

/// `char::to_ascii_lowercase`.
pub fn to_ascii_lower(c: char) -> (r: char)
    ensures
        r == ascii_lower(c),
{
    if 'A' <= c && c <= 'Z' {
        ((c as u8) + 32) as char
    } else {
        c
    }
}

/// `str::eq_ignore_ascii_case`: equal once both sides are ASCII lower-cased.
pub open spec fn eq_ignore_ascii_case(a: Seq<char>, b: Seq<char>) -> bool {
    a.len() == b.len() && forall|i: int| 0 <= i < a.len() ==> ascii_lower(a[i]) == ascii_lower(b[i])
}

pub fn chars_eq_ignore_ascii_case(a: &Vec<char>, b: &Vec<char>) -> (r: bool)
    ensures
        r == eq_ignore_ascii_case(a@, b@),
{
    if a.len() != b.len() {
        return false;
    }
    let mut i: usize = 0;
    while i < a.len()
        invariant
            a.len() == b.len(),
            i <= a.len(),
            forall|j: int| 0 <= j < i ==> ascii_lower(a@[j]) == ascii_lower(b@[j]),
        decreases a.len() - i,
    {
        if to_ascii_lower(a[i]) != to_ascii_lower(b[i]) {
            return false;
        }
        i = i + 1;
    }
    true
}

// ---------------------------------------------------------------------------
// Whitespace and trimming (Unicode White_Space, as `char::is_whitespace`)
// ---------------------------------------------------------------------------

/// The Unicode `White_Space` property.
pub open spec fn is_ws(c: char) -> bool {
    let u = c as u32;
    ||| 0x09 <= u <= 0x0D
    ||| u == 0x20
    ||| u == 0x85
    ||| u == 0xA0
    ||| u == 0x1680
    ||| 0x2000 <= u <= 0x200A
    ||| u == 0x2028
    ||| u == 0x2029
    ||| u == 0x202F
    ||| u == 0x205F
    ||| u == 0x3000
}

/// `char::is_whitespace`.
pub fn is_whitespace(c: char) -> (r: bool)
    ensures
        r == is_ws(c),
{
    let u = c as u32;
    (0x09 <= u && u <= 0x0D) || u == 0x20 || u == 0x85 || u == 0xA0 || u == 0x1680 || (0x2000
        <= u && u <= 0x200A) || u == 0x2028 || u == 0x2029 || u == 0x202F || u == 0x205F || u
        == 0x3000
}

/// `str::trim_start`.
pub open spec fn trim_start(s: Seq<char>) -> Seq<char>
    decreases s.len(),
{
    if s.len() > 0 && is_ws(s[0]) {
        trim_start(s.drop_first())
    } else {
        s
    }
}

/// `str::trim_end`.
pub open spec fn trim_end(s: Seq<char>) -> Seq<char>
    decreases s.len(),
{
    if s.len() > 0 && is_ws(s.last()) {
        trim_end(s.drop_last())
    } else {
        s
    }
}

/// `str::trim`.
pub open spec fn trim(s: Seq<char>) -> Seq<char> {
    trim_end(trim_start(s))
}

proof fn lemma_trim_start_skip(s: Seq<char>, i: int)
    requires
        0 <= i < s.len(),
        is_ws(s[i]),
    ensures
        trim_start(s.skip(i)) == trim_start(s.skip(i + 1)),
{
    assert(s.skip(i).drop_first() =~= s.skip(i + 1));
}

proof fn lemma_trim_end_take(s: Seq<char>, j: int)
    requires
        0 < j <= s.len(),
        is_ws(s[j - 1]),
    ensures
        trim_end(s.take(j)) == trim_end(s.take(j - 1)),
{
    assert(s.take(j).drop_last() =~= s.take(j - 1));
}

/// Index bounds `(a, b)` such that `s[a..b]` is `s` trimmed.
pub fn trim_bounds(s: &Vec<char>) -> (r: (usize, usize))
    ensures
        r.0 <= r.1 <= s.len(),
        s@.subrange(r.0 as int, r.1 as int) == trim(s@),
        trim_start(s@) == s@.skip(r.0 as int),
{
    let mut a: usize = 0;
    assert(s@.skip(0) =~= s@);
    while a < s.len() && is_whitespace(s[a])
        invariant
            a <= s.len(),
            trim_start(s@) == trim_start(s@.skip(a as int)),
        decreases s.len() - a,
    {
        proof {
            lemma_trim_start_skip(s@, a as int);
        }
        a = a + 1;
    }
    assert(trim_start(s@.skip(a as int)) == s@.skip(a as int));
    let ghost t = s@.skip(a as int);
    let mut b: usize = s.len();
    assert(t.take(b - a) =~= t);
    while b > a && is_whitespace(s[b - 1])
        invariant
            a <= b <= s.len(),
            t == s@.skip(a as int),
            trim_end(t) == trim_end(t.take(b - a)),
        decreases b,
    {
        proof {
            lemma_trim_end_take(t, (b - a) as int);
            assert(t.take(b - a - 1) =~= t.take((b - 1 - a) as int));
        }
        b = b - 1;
    }
    assert(trim_end(t.take(b - a)) == t.take(b - a));
    assert(t.take(b - a) =~= s@.subrange(a as int, b as int));
    (a, b)
}

/// `str::trim`, as characters.
pub fn trim_chars(s: &Vec<char>) -> (out: Vec<char>)
    ensures
        out@ == trim(s@),
{
    let (a, b) = trim_bounds(s);
    sub_chars(s, a, b)
}

/// `str::trim`, as characters.
pub fn trimmed(s: &str) -> (out: Vec<char>)
    ensures
        out@ == trim(s@),
{
    let v = chars_of(s);
    trim_chars(&v)
}

/// Whether `s` is empty once trimmed.
pub fn is_blank(s: &str) -> (r: bool)
    ensures
        r == (trim(s@).len() == 0),
{
    let t = trimmed(s);
    t.len() == 0
}

// ---------------------------------------------------------------------------
// Searching
// ---------------------------------------------------------------------------

/// `n` occurs in `s` starting at index `i`.
pub open spec fn occurs_at(s: Seq<char>, n: Seq<char>, i: int) -> bool {
    0 <= i && i + n.len() <= s.len() && s.subrange(i, i + n.len()) == n
}

/// `str::contains` with a string pattern.
pub open spec fn contains(s: Seq<char>, n: Seq<char>) -> bool {
    exists|i: int| occurs_at(s, n, i)
}

/// The first index at or after `i` where `n` occurs in `s`.
pub open spec fn find_from(s: Seq<char>, n: Seq<char>, i: int) -> Option<int>
    decreases s.len() + 1 - i,
{
    if i < 0 || i + n.len() > s.len() {
        None
    } else if s.subrange(i, i + n.len()) == n {
        Some(i)
    } else {
        find_from(s, n, i + 1)
    }
}

/// `str::find` with a string pattern.
pub open spec fn find(s: Seq<char>, n: Seq<char>) -> Option<int> {
    find_from(s, n, 0)
}

pub proof fn lemma_find_from(s: Seq<char>, n: Seq<char>, i: int)
    requires
        0 <= i,
    ensures
        match find_from(s, n, i) {
            Some(k) => i <= k && occurs_at(s, n, k) && forall|j: int|
                i <= j < k ==> !occurs_at(s, n, j),
            None => forall|j: int| i <= j ==> !occurs_at(s, n, j),
        },
    decreases s.len() + 1 - i,
{
    if i + n.len() > s.len() {
    } else if s.subrange(i, i + n.len()) == n {
    } else {
        lemma_find_from(s, n, i + 1);
    }
}

/// `find` gives the first occurrence, and there is none exactly when `contains` fails.
pub proof fn lemma_find(s: Seq<char>, n: Seq<char>)
    ensures
        match find(s, n) {
            Some(k) => occurs_at(s, n, k) && forall|j: int| 0 <= j < k ==> !occurs_at(s, n, j),
            None => !contains(s, n),
        },
        find(s, n) is Some <==> contains(s, n),
{
    lemma_find_from(s, n, 0);
}

/// Whether `n` occurs in `s` at index `i`.
pub fn occurs_at_exec(s: &Vec<char>, n: &Vec<char>, i: usize) -> (r: bool)
    ensures
        r == occurs_at(s@, n@, i as int),
{
    if n.len() > s.len() || i > s.len() - n.len() {
        return false;
    }
    let mut k: usize = 0;
    while k < n.len()
        invariant
            i + n.len() <= s.len(),
            k <= n.len(),
            forall|j: int| 0 <= j < k ==> s@[i + j] == n@[j],
        decreases n.len() - k,
    {
        if s[i + k] != n[k] {
            assert(s@.subrange(i as int, i + n.len())[k as int] != n@[k as int]);
            return false;
        }
        k = k + 1;
    }
    assert(s@.subrange(i as int, i + n.len()) =~= n@);
    true
}

/// The first index at or after `start` where `n` occurs in `s`.
pub fn find_chars_from(s: &Vec<char>, n: &Vec<char>, start: usize) -> (r: Option<usize>)
    ensures
        r matches Some(k) ==> find_from(s@, n@, start as int) == Some(k as int),
        r is None ==> find_from(s@, n@, start as int) is None,
{
    if n.len() > s.len() || start > s.len() - n.len() {
        return None;
    }
    let last = s.len() - n.len();
    let mut i: usize = start;
    loop
        invariant
            n.len() <= s.len(),
            last == s.len() - n.len(),
            start <= i <= last,
            find_from(s@, n@, start as int) == find_from(s@, n@, i as int),
        decreases last - i,
    {
        if occurs_at_exec(s, n, i) {
            return Some(i);
        }
        if i == last {
            assert(find_from(s@, n@, i + 1) is None);
            return None;
        }
        i = i + 1;
    }
}

/// `str::find` on characters.
pub fn find_chars(s: &Vec<char>, n: &Vec<char>) -> (r: Option<usize>)
    ensures
        r matches Some(k) ==> find(s@, n@) == Some(k as int),
        r is None ==> find(s@, n@) is None,
{
    find_chars_from(s, n, 0)
}

/// `str::contains` on characters.
pub fn contains_chars(s: &Vec<char>, n: &Vec<char>) -> (r: bool)
    ensures
        r == contains(s@, n@),
{
    proof {
        lemma_find(s@, n@);
    }
    find_chars(s, n).is_some()
}

/// Whether `n` occurs in the characters `s`.
pub fn contains_str(s: &Vec<char>, n: &str) -> (r: bool)
    ensures
        r == contains(s@, n@),
{
    let nv = chars_of(n);
    contains_chars(s, &nv)
}

/// `str::starts_with`.
pub fn starts_with_str(s: &Vec<char>, p: &str) -> (r: bool)
    ensures
        r == p@.is_prefix_of(s@),
{
    let pv = chars_of(p);
    let r = occurs_at_exec(s, &pv, 0);
    proof {
        if r {
            assert(s@.take(p@.len() as int) =~= s@.subrange(0, p@.len() as int));
        }
        if p@.is_prefix_of(s@) {
            assert(s@.take(p@.len() as int) =~= s@.subrange(0, p@.len() as int));
        }
    }
    r
}

/// `str::ends_with`.
pub fn ends_with_str(s: &Vec<char>, p: &str) -> (r: bool)
    ensures
        r == p@.is_suffix_of(s@),
{
    let pv = chars_of(p);
    if pv.len() > s.len() {
        return false;
    }
    let r = occurs_at_exec(s, &pv, s.len() - pv.len());
    proof {
        if r || p@.is_suffix_of(s@) {
            assert(s@.skip(s@.len() - p@.len()) =~= s@.subrange(
                s@.len() - p@.len(),
                s@.len() as int,
            ));
        }
    }
    r
}

// ---------------------------------------------------------------------------
// Splitting and stripping
// ---------------------------------------------------------------------------

/// `str::split_once` with a string pattern.
pub open spec fn split_once(s: Seq<char>, sep: Seq<char>) -> Option<(Seq<char>, Seq<char>)> {
    match find(s, sep) {
        Some(i) => Some((s.take(i), s.skip(i + sep.len()))),
        None => None,
    }
}

/// The first item of `str::split` with a string pattern: the text before the
/// first occurrence of `sep`, or all of `s`.
pub open spec fn first_piece(s: Seq<char>, sep: Seq<char>) -> Seq<char> {
    match split_once(s, sep) {
        Some((a, _)) => a,
        None => s,
    }
}

/// The second item of `str::split` with a string pattern, if there is one.
pub open spec fn second_piece(s: Seq<char>, sep: Seq<char>) -> Option<Seq<char>> {
    match split_once(s, sep) {
        Some((_, rest)) => Some(first_piece(rest, sep)),
        None => None,
    }
}

/// `str::trim_end_matches` with a non-empty string pattern.
pub open spec fn trim_end_matches(s: Seq<char>, pat: Seq<char>) -> Seq<char>
    decreases s.len(),
{
    if pat.len() > 0 && pat.is_suffix_of(s) {
        trim_end_matches(s.take(s.len() - pat.len()), pat)
    } else {
        s
    }
}

/// `str::strip_prefix`.
pub open spec fn strip_prefix(s: Seq<char>, p: Seq<char>) -> Option<Seq<char>> {
    if p.is_prefix_of(s) {
        Some(s.skip(p.len() as int))
    } else {
        None
    }
}

/// `str::split_once`, on characters.
pub fn split_once_chars(s: &Vec<char>, sep: &Vec<char>) -> (r: Option<(Vec<char>, Vec<char>)>)
    ensures
        match r {
            Some((a, b)) => split_once(s@, sep@) == Some((a@, b@)),
            None => split_once(s@, sep@) is None,
        },
{
    proof {
        lemma_find(s@, sep@);
    }
    match find_chars(s, sep) {
        Some(i) => {
            assert(occurs_at(s@, sep@, i as int));
            assert(i + sep@.len() <= s@.len());
            assert(i + sep.len() <= s.len());
            let a = sub_chars(s, 0, i);
            let b = sub_chars(s, i + sep.len(), s.len());
            assert(a@ =~= s@.take(i as int));
            assert(b@ =~= s@.skip(i + sep@.len()));
            Some((a, b))
        },
        None => None,
    }
}

/// The first item of `str::split`, on characters.
pub fn first_piece_chars(s: &Vec<char>, sep: &str) -> (r: Vec<char>)
    ensures
        r@ == first_piece(s@, sep@),
{
    let sv = chars_of(sep);
    match split_once_chars(s, &sv) {
        Some((a, _)) => a,
        None => s.clone(),
    }
}

/// The second item of `str::split`, on characters.
pub fn second_piece_chars(s: &Vec<char>, sep: &str) -> (r: Option<Vec<char>>)
    ensures
        match r {
            Some(v) => second_piece(s@, sep@) == Some(v@),
            None => second_piece(s@, sep@) is None,
        },
{
    let sv = chars_of(sep);
    match split_once_chars(s, &sv) {
        Some((_, rest)) => Some(first_piece_chars(&rest, sep)),
        None => None,
    }
}

/// `str::trim_end_matches` with a string pattern, on characters.
pub fn trim_end_matches_chars(s: &Vec<char>, pat: &str) -> (r: Vec<char>)
    ensures
        r@ == trim_end_matches(s@, pat@),
{
    let pv = chars_of(pat);
    if pv.len() == 0 {
        return s.clone();
    }
    let mut e: usize = s.len();
    assert(s@.take(e as int) =~= s@);
    loop
        invariant
            e <= s.len(),
            pv@ == pat@,
            pv.len() > 0,
            trim_end_matches(s@, pat@) == trim_end_matches(s@.take(e as int), pat@),
        decreases e,
    {
        let cur = sub_chars(s, 0, e);
        assert(cur@ =~= s@.take(e as int));
        if pv.len() <= e && occurs_at_exec(&cur, &pv, e - pv.len()) {
            assert(pat@.is_suffix_of(cur@)) by {
                assert(cur@.subrange(e - pv.len(), e as int) =~= cur@.subrange(
                    (cur@.len() - pat@.len()) as int,
                    cur@.len() as int,
                ));
            }
            assert(cur@.take(e - pv.len()) =~= s@.take(e - pv.len()));
            e = e - pv.len();
        } else {
            assert(!pat@.is_suffix_of(cur@)) by {
                if pat@.is_suffix_of(cur@) {
                    assert(cur@.subrange(e - pv.len(), e as int) =~= pat@);
                }
            }
            return cur;
        }
    }
}

/// `str::strip_prefix`, on characters.
pub fn strip_prefix_chars(s: &Vec<char>, p: &str) -> (r: Option<Vec<char>>)
    ensures
        match r {
            Some(v) => strip_prefix(s@, p@) == Some(v@),
            None => strip_prefix(s@, p@) is None,
        },
{
    let pv = chars_of(p);
    if starts_with_str(s, p) {
        let v = sub_chars(s, pv.len(), s.len());
        assert(v@ =~= s@.skip(p@.len() as int));
        Some(v)
    } else {
        None
    }
}

// ---------------------------------------------------------------------------
// Replacing
// ---------------------------------------------------------------------------

/// `s[i..]` with every non-overlapping occurrence of `from` (scanning left to
/// right) replaced by `to`.
pub open spec fn replace_from(s: Seq<char>, from: Seq<char>, to: Seq<char>, i: int) -> Seq<char>
    decreases s.len() - i,
{
    if i < 0 || i >= s.len() {
        Seq::empty()
    } else if from.len() > 0 && occurs_at(s, from, i) {
        to + replace_from(s, from, to, i + from.len())
    } else {
        seq![s[i]] + replace_from(s, from, to, i + 1)
    }
}

/// `str::replace` with a non-empty pattern.
pub open spec fn replace_all(s: Seq<char>, from: Seq<char>, to: Seq<char>) -> Seq<char> {
    replace_from(s, from, to, 0)
}

/// `str::replace` with a non-empty pattern, on characters.
pub fn replace_chars(s: &Vec<char>, from: &str, to: &str) -> (r: Vec<char>)
    requires
        from@.len() > 0,
    ensures
        r@ == replace_all(s@, from@, to@),
{
    let fv = chars_of(from);
    let mut out: Vec<char> = Vec::new();
    let mut i: usize = 0;
    while i < s.len()
        invariant
            fv@ == from@,
            from@.len() > 0,
            i <= s.len(),
            out@ + replace_from(s@, from@, to@, i as int) == replace_all(s@, from@, to@),
        decreases s.len() - i,
    {
        let ghost before = out@;
        if occurs_at_exec(s, &fv, i) {
            push_str(&mut out, to);
            assert(out@ + replace_from(s@, from@, to@, i + from@.len()) =~= before + (to@
                + replace_from(s@, from@, to@, i + from@.len())));
            i = i + fv.len();
        } else {
            out.push(s[i]);
            assert(out@ + replace_from(s@, from@, to@, i + 1) =~= before + (seq![s@[i as int]]
                + replace_from(s@, from@, to@, i + 1)));
            i = i + 1;
        }
    }
    assert(out@ + replace_from(s@, from@, to@, i as int) =~= out@);
    out
}

// ---------------------------------------------------------------------------
// Splitting on a character and joining
// ---------------------------------------------------------------------------

/// `str::split` with a `char` pattern: every piece between occurrences of `c`,
/// empty pieces included.
pub open spec fn split_char(s: Seq<char>, c: char) -> Seq<Seq<char>>
    decreases s.len(),
{
    if s.len() == 0 {
        seq![Seq::empty()]
    } else {
        let p = split_char(s.drop_last(), c);
        if s.last() == c {
            p.push(Seq::empty())
        } else {
            p.update(p.len() - 1, p.last().push(s.last()))
        }
    }
}

pub proof fn lemma_split_char_len(s: Seq<char>, c: char)
    ensures
        split_char(s, c).len() >= 1,
    decreases s.len(),
{
    if s.len() > 0 {
        lemma_split_char_len(s.drop_last(), c);
    }
}

/// `[String]::join`.
pub open spec fn join(parts: Seq<Seq<char>>, sep: Seq<char>) -> Seq<char>
    decreases parts.len(),
{
    if parts.len() == 0 {
        Seq::empty()
    } else if parts.len() == 1 {
        parts[0]
    } else {
        join(parts.drop_last(), sep) + sep + parts.last()
    }
}

/// The character sequences held by a vector of character vectors.
pub open spec fn pieces(v: Seq<Vec<char>>) -> Seq<Seq<char>> {
    v.map_values(|x: Vec<char>| x@)
}

/// `str::split` with a `char` pattern, on characters.
pub fn split_char_chars(s: &Vec<char>, c: char) -> (out: Vec<Vec<char>>)
    ensures
        pieces(out@) == split_char(s@, c),
{
    let mut out: Vec<Vec<char>> = Vec::new();
    let mut cur: Vec<char> = Vec::new();
    let mut i: usize = 0;
    assert(s@.take(0) =~= Seq::<char>::empty());
    while i < s.len()
        invariant
            i <= s.len(),
            pieces(out@).push(cur@) == split_char(s@.take(i as int), c),
        decreases s.len() - i,
    {
        let ghost prev = split_char(s@.take(i as int), c);
        assert(s@.take(i + 1).drop_last() =~= s@.take(i as int));
        assert(s@.take(i + 1).last() == s@[i as int]);
        if s[i] == c {
            let done = cur;
            out.push(done);
            cur = Vec::new();
            assert(pieces(out@).push(cur@) =~= prev.push(Seq::empty()));
        } else {
            cur.push(s[i]);
            assert(pieces(out@).push(cur@) =~= prev.update(
                prev.len() - 1,
                prev.last().push(s@[i as int]),
            ));
        }
        i = i + 1;
    }
    assert(s@.take(s@.len() as int) =~= s@);
    out.push(cur);
    out
}

/// `[String]::join`, producing characters.
pub fn join_chars(parts: &Vec<Vec<char>>, sep: &str) -> (out: Vec<char>)
    ensures
        out@ == join(pieces(parts@), sep@),
{
    let mut out: Vec<char> = Vec::new();
    let mut i: usize = 0;
    while i < parts.len()
        invariant
            i <= parts.len(),
            out@ == join(pieces(parts@).take(i as int), sep@),
        decreases parts.len() - i,
    {
        let ghost t = pieces(parts@).take(i + 1);
        assert(t.drop_last() =~= pieces(parts@).take(i as int));
        if i > 0 {
            push_str(&mut out, sep);
        }
        push_chars(&mut out, &parts[i]);
        proof {
            if i == 0 {
                assert(out@ =~= t[0]);
            } else {
                assert(out@ =~= join(t.drop_last(), sep@) + sep@ + t.last());
            }
        }
        i = i + 1;
    }
    assert(pieces(parts@).take(parts@.len() as int) =~= pieces(parts@));
    out
}

/// Whether `x` is one of `parts`.
pub fn contains_piece(parts: &Vec<Vec<char>>, x: &Vec<char>) -> (r: bool)
    ensures
        r == pieces(parts@).contains(x@),
{
    let mut i: usize = 0;
    while i < parts.len()
        invariant
            i <= parts.len(),
            forall|j: int| 0 <= j < i ==> pieces(parts@)[j] != x@,
        decreases parts.len() - i,
    {
        if chars_eq(&parts[i], x) {
            assert(pieces(parts@)[i as int] == x@);
            return true;
        }
        assert(pieces(parts@)[i as int] == parts@[i as int]@);
        i = i + 1;
    }
    false
}

// ---------------------------------------------------------------------------
// Lines and whitespace-separated words
// ---------------------------------------------------------------------------

/// A line without its trailing carriage return.
pub open spec fn strip_cr(l: Seq<char>) -> Seq<char> {
    if l.len() > 0 && l.last() == '\r' {
        l.drop_last()
    } else {
        l
    }
}

/// `str::lines`: pieces split at `\n`, each without a `\r` before the `\n`;
/// a final line ending adds no empty line.
pub open spec fn lines(s: Seq<char>) -> Seq<Seq<char>> {
    let parts = split_char(s, '\n');
    parts.drop_last().map_values(|l: Seq<char>| strip_cr(l)) + (if parts.last().len() > 0 {
        seq![parts.last()]
    } else {
        Seq::empty()
    })
}

fn strip_cr_chars(l: &Vec<char>) -> (r: Vec<char>)
    ensures
        r@ == strip_cr(l@),
{
    if l.len() > 0 && l[l.len() - 1] == '\r' {
        let r = sub_chars(l, 0, l.len() - 1);
        assert(r@ =~= l@.drop_last());
        r
    } else {
        l.clone()
    }
}

/// `str::lines`, on characters.
pub fn lines_chars(s: &Vec<char>) -> (out: Vec<Vec<char>>)
    ensures
        pieces(out@) == lines(s@),
{
    let parts = split_char_chars(s, '\n');
    proof {
        lemma_split_char_len(s@, '\n');
    }
    let ghost ps = pieces(parts@);
    let mut out: Vec<Vec<char>> = Vec::new();
    let mut i: usize = 0;
    while i < parts.len() - 1
        invariant
            ps == pieces(parts@),
            parts@.len() >= 1,
            i + 1 <= parts@.len(),
            pieces(out@) == ps.drop_last().take(i as int).map_values(|l: Seq<char>| strip_cr(l)),
        decreases parts.len() - i,
    {
        let l = strip_cr_chars(&parts[i]);
        let ghost before = pieces(out@);
        out.push(l);
        assert(pieces(out@) =~= before.push(strip_cr(ps[i as int])));
        assert(ps.drop_last().take(i + 1) =~= ps.drop_last().take(i as int).push(ps[i as int]));
        assert(pieces(out@) =~= ps.drop_last().take(i + 1).map_values(
            |l: Seq<char>| strip_cr(l),
        ));
        i = i + 1;
    }
    assert(ps.drop_last().take(i as int) =~= ps.drop_last());
    let last = parts.len() - 1;
    if parts[last].len() > 0 {
        let ghost before = pieces(out@);
        let l = parts[last].clone();
        out.push(l);
        assert(pieces(out@) =~= before + seq![ps.last()]);
    } else {
        assert(pieces(out@) =~= pieces(out@) + Seq::<Seq<char>>::empty());
    }
    out
}

/// The words of `str::split_whitespace`: maximal runs of non-whitespace.
pub open spec fn words(s: Seq<char>) -> Seq<Seq<char>>
    decreases s.len(),
{
    if s.len() == 0 {
        Seq::empty()
    } else {
        let w = words(s.drop_last());
        if is_ws(s.last()) {
            w
        } else if s.len() >= 2 && !is_ws(s[s.len() - 2]) && w.len() > 0 {
            w.update(w.len() - 1, w.last().push(s.last()))
        } else {
            w.push(seq![s.last()])
        }
    }
}

proof fn lemma_words_nonempty(s: Seq<char>)
    ensures
        s.len() > 0 && !is_ws(s.last()) ==> words(s).len() > 0,
    decreases s.len(),
{
    if s.len() > 0 {
        lemma_words_nonempty(s.drop_last());
    }
}

/// `str::split_whitespace`, on characters.
pub fn words_chars(s: &Vec<char>) -> (out: Vec<Vec<char>>)
    ensures
        pieces(out@) == words(s@),
{
    let mut out: Vec<Vec<char>> = Vec::new();
    let mut cur: Vec<char> = Vec::new();
    let mut i: usize = 0;
    assert(s@.take(0) =~= Seq::<char>::empty());
    while i < s.len()
        invariant
            i <= s.len(),
            cur@.len() > 0 ==> i > 0 && !is_ws(s@[i - 1]),
            cur@.len() == 0 ==> i == 0 || is_ws(s@[i - 1]),
            (if cur@.len() > 0 {
                pieces(out@).push(cur@)
            } else {
                pieces(out@)
            }) == words(s@.take(i as int)),
        decreases s.len() - i,
    {
        let ghost t = s@.take(i + 1);
        assert(t.drop_last() =~= s@.take(i as int));
        assert(t.last() == s@[i as int]);
        proof {
            if i >= 1 {
                assert(t[t.len() - 2] == s@[i - 1]);
            }
            lemma_words_nonempty(s@.take(i as int));
            if i >= 1 {
                assert(s@.take(i as int).last() == s@[i - 1]);
            }
        }
        if is_whitespace(s[i]) {
            if cur.len() > 0 {
                let done = cur;
                out.push(done);
                cur = Vec::new();
            }
        } else {
            let ghost before = pieces(out@);
            let ghost had = cur@.len() > 0;
            let ghost oc = cur@;
            cur.push(s[i]);
            proof {
                if had {
                    assert(before.push(oc).last() == oc);
                    assert(before.push(cur@) =~= before.push(oc).update(
                        before.len() as int,
                        oc.push(s@[i as int]),
                    ));
                } else {
                    assert(cur@ =~= seq![s@[i as int]]);
                }
            }
        }
        i = i + 1;
    }
    assert(s@.take(s@.len() as int) =~= s@);
    if cur.len() > 0 {
        out.push(cur);
    }
    out
}

// ---------------------------------------------------------------------------
// Decimal numbers
// ---------------------------------------------------------------------------

pub open spec fn is_digit(c: char) -> bool {
    '0' <= c && c <= '9'
}

pub open spec fn digit_value(c: char) -> int {
    (c as u32) - ('0' as u32)
}

/// The number written by a string of decimal digits.
pub open spec fn decimal_value(d: Seq<char>) -> int
    decreases d.len(),
{
    if d.len() == 0 {
        0
    } else {
        10 * decimal_value(d.drop_last()) + digit_value(d.last())
    }
}

pub open spec fn all_digits(d: Seq<char>) -> bool {
    forall|i: int| 0 <= i < d.len() ==> is_digit(#[trigger] d[i])
}

/// `u64::from_str`: an optional `+`, then at least one decimal digit, and a
/// value that fits.
pub open spec fn parse_u64(s: Seq<char>) -> Option<u64> {
    let d = if s.len() > 0 && s[0] == '+' {
        s.skip(1)
    } else {
        s
    };
    if d.len() > 0 && all_digits(d) && decimal_value(d) <= u64::MAX {
        Some(decimal_value(d) as u64)
    } else {
        None
    }
}

proof fn lemma_decimal_value_nonneg(d: Seq<char>)
    requires
        all_digits(d),
    ensures
        decimal_value(d) >= 0,
    decreases d.len(),
{
    if d.len() > 0 {
        assert(all_digits(d.drop_last())) by {
            assert forall|i: int| 0 <= i < d.drop_last().len() implies is_digit(
                #[trigger] d.drop_last()[i],
            ) by {
                assert(d.drop_last()[i] == d[i]);
            }
        }
        lemma_decimal_value_nonneg(d.drop_last());
        assert(is_digit(d[d.len() - 1]));
    }
}

proof fn lemma_decimal_value_mono(d: Seq<char>, k: int)
    requires
        all_digits(d),
        0 <= k <= d.len(),
    ensures
        decimal_value(d.take(k)) <= decimal_value(d),
    decreases d.len() - k,
{
    if k < d.len() {
        lemma_decimal_value_mono(d, k + 1);
        let t = d.take(k + 1);
        assert(t.drop_last() =~= d.take(k));
        assert(all_digits(d.take(k))) by {
            assert forall|i: int| 0 <= i < d.take(k).len() implies is_digit(#[trigger] d.take(k)[i]) by {
                assert(d.take(k)[i] == d[i]);
            }
        }
        lemma_decimal_value_nonneg(d.take(k));
        assert(is_digit(d[k]));
        assert(t.last() == d[k]);
    } else {
        assert(d.take(k) =~= d);
    }
}

/// `u64::from_str` on characters.
pub fn parse_u64_chars(s: &Vec<char>) -> (r: Option<u64>)
    ensures
        r == parse_u64(s@),
{
    let start: usize = if s.len() > 0 && s[0] == '+' {
        1
    } else {
        0
    };
    let d = sub_chars(s, start, s.len());
    assert(d@ =~= (if s@.len() > 0 && s@[0] == '+' {
        s@.skip(1)
    } else {
        s@
    }));
    if d.len() == 0 {
        return None;
    }
    let mut i: usize = 0;
    while i < d.len()
        invariant
            i <= d.len(),
            d@ == (if s@.len() > 0 && s@[0] == '+' {
                s@.skip(1)
            } else {
                s@
            }),
            d@.len() > 0,
            forall|j: int| 0 <= j < i ==> is_digit(#[trigger] d@[j]),
        decreases d.len() - i,
    {
        if !('0' <= d[i] && d[i] <= '9') {
            assert(!is_digit(d@[i as int]));
            assert(!all_digits(d@));
            return None;
        }
        i = i + 1;
    }
    assert(all_digits(d@));
    let mut acc: u64 = 0;
    let mut i: usize = 0;
    assert(d@.take(0) =~= Seq::<char>::empty());
    while i < d.len()
        invariant
            i <= d.len(),
            d@ == (if s@.len() > 0 && s@[0] == '+' {
                s@.skip(1)
            } else {
                s@
            }),
            d@.len() > 0,
            all_digits(d@),
            acc as int == decimal_value(d@.take(i as int)),
        decreases d.len() - i,
    {
        assert(d@.take(i + 1).drop_last() =~= d@.take(i as int));
        assert(d@.take(i + 1).last() == d@[i as int]);
        assert(is_digit(d@[i as int]));
        let dv: u64 = ((d[i] as u32) - ('0' as u32)) as u64;
        assert(dv as int == digit_value(d@[i as int]));
        assert(decimal_value(d@.take(i + 1)) == 10 * (acc as int) + dv);
        match acc.checked_mul(10) {
            Some(m) => match m.checked_add(dv) {
                Some(n) => {
                    acc = n;
                },
                None => {
                    proof {
                        lemma_decimal_value_mono(d@, i + 1);
                    }
                    return None;
                },
            },
            None => {
                proof {
                    lemma_decimal_value_mono(d@, i + 1);
                    lemma_decimal_value_nonneg(d@.take(i as int));
                }
                return None;
            },
        }
        i = i + 1;
    }
    assert(d@.take(d@.len() as int) =~= d@);
    Some(acc)
}

/// The decimal digit for `n < 10`.
pub open spec fn digit_char(n: int) -> char {
    (('0' as u32) + n) as char
}

/// The decimal representation of `n`, without leading zeros.
pub open spec fn decimal(n: nat) -> Seq<char>
    decreases n,
{
    if n < 10 {
        seq![digit_char(n as int)]
    } else {
        decimal(n / 10) + seq![digit_char((n % 10) as int)]
    }
}

/// Appends the decimal representation of `n`.
pub fn push_decimal(out: &mut Vec<char>, n: u64)
    ensures
        final(out)@ == old(out)@ + decimal(n as nat),
    decreases n,
{
    if n >= 10 {
        push_decimal(out, n / 10);
    }
    let d: u8 = (n % 10) as u8;
    let c: char = (48u8 + d) as char;
    assert(c == digit_char((n % 10) as int)) by {
        assert(d < 10);
    }
    out.push(c);
}

} // verus!
