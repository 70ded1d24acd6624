//! Character-level helpers for reading command lines: Unicode whitespace,
//! trimming, ASCII case-insensitive keyword prefixes and searching.
use vstd::prelude::*;

verus! {

/// Unicode `White_Space`, the set that `char::is_whitespace` and `str::trim` use.
pub open spec fn is_ws(c: char) -> bool {
    let u = c as u32;
    ||| 0x09 <= u <= 0x0d
    ||| u == 0x20
    ||| u == 0x85
    ||| u == 0xa0
    ||| u == 0x1680
    ||| 0x2000 <= u <= 0x200a
    ||| u == 0x2028
    ||| u == 0x2029
    ||| u == 0x202f
    ||| u == 0x205f
    ||| u == 0x3000
}

/// `s` without its leading whitespace.
pub open spec fn trim_start(s: Seq<char>) -> Seq<char>
    decreases s.len(),
{
    if s.len() > 0 && is_ws(s[0]) {
        trim_start(s.drop_first())
    } else {
        s
    }
}

/// `s` without its trailing whitespace.
pub open spec fn trim_end(s: Seq<char>) -> Seq<char>
    decreases s.len(),
{
    if s.len() > 0 && is_ws(s.last()) {
        trim_end(s.drop_last())
    } else {
        s
    }
}

/// `s` without leading and trailing whitespace.
pub open spec fn trim(s: Seq<char>) -> Seq<char> {
    trim_end(trim_start(s))
}

pub open spec fn is_upper(c: char) -> bool {
    'A' <= c <= 'Z'
}

pub open spec fn is_lower(c: char) -> bool {
    'a' <= c <= 'z'
}

/// `c` matches the keyword character `k`, ignoring ASCII case.
pub open spec fn matches_ignoring_case(c: char, k: char) -> bool {
    c == k || (is_upper(k) && c as u32 == k as u32 + 32)
}

/// Two characters that are equal up to ASCII case.
pub open spec fn same_up_to_case(a: char, b: char) -> bool {
    ||| a == b
    ||| is_upper(a) && is_lower(b) && b as u32 == a as u32 + 32
    ||| is_lower(a) && is_upper(b) && a as u32 == b as u32 + 32
}

/// Two lines that are equal up to ASCII case, character by character.
pub open spec fn equal_up_to_case(a: Seq<char>, b: Seq<char>) -> bool {
    &&& a.len() == b.len()
    &&& forall|i: int| 0 <= i < a.len() ==> same_up_to_case(#[trigger] a[i], b[i])
}

/// `s` begins with the keyword `kw`, ignoring ASCII case.
pub open spec fn starts_with_keyword(s: Seq<char>, kw: Seq<char>) -> bool {
    &&& kw.len() <= s.len()
    &&& forall|i: int| 0 <= i < kw.len() ==> matches_ignoring_case(#[trigger] s[i], kw[i])
}

/// The index of the last `c` in `s`, or -1 where there is none.
pub open spec fn last_index_of(s: Seq<char>, c: char) -> int
    decreases s.len(),
{
    if s.len() == 0 {
        -1
    } else if s.last() == c {
        s.len() - 1
    } else {
        last_index_of(s.drop_last(), c)
    }
}

pub proof fn lemma_last_index_of_bounds(s: Seq<char>, c: char)
    ensures
        -1 <= last_index_of(s, c) < s.len(),
        last_index_of(s, c) >= 0 ==> s[last_index_of(s, c)] == c,
    decreases s.len(),
{
    if s.len() > 0 && s.last() != c {
        lemma_last_index_of_bounds(s.drop_last(), c);
    }
}

/// A keyword written without lower-case letters.
pub open spec fn is_keyword(kw: Seq<char>) -> bool {
    forall|i: int| 0 <= i < kw.len() ==> !is_lower(#[trigger] kw[i])
}

pub proof fn lemma_keyword_ignores_case(a: Seq<char>, b: Seq<char>, kw: Seq<char>)
    requires
        equal_up_to_case(a, b),
        is_keyword(kw),
    ensures
        starts_with_keyword(a, kw) == starts_with_keyword(b, kw),
{
    if starts_with_keyword(a, kw) {
        assert forall|i: int| 0 <= i < kw.len() implies matches_ignoring_case(
            #[trigger] b[i],
            kw[i],
        ) by {
            assert(matches_ignoring_case(a[i], kw[i]));
            assert(same_up_to_case(a[i], b[i]));
            assert(!is_lower(kw[i]));
        }
    }
    if starts_with_keyword(b, kw) {
        assert forall|i: int| 0 <= i < kw.len() implies matches_ignoring_case(
            #[trigger] a[i],
            kw[i],
        ) by {
            assert(matches_ignoring_case(b[i], kw[i]));
            assert(same_up_to_case(a[i], b[i]));
            assert(!is_lower(kw[i]));
        }
    }
}

pub proof fn lemma_suffix_ignores_case(a: Seq<char>, b: Seq<char>, n: int)
    requires
        equal_up_to_case(a, b),
        0 <= n <= a.len(),
    ensures
        equal_up_to_case(a.skip(n), b.skip(n)),
{
    assert forall|i: int| 0 <= i < a.skip(n).len() implies same_up_to_case(
        #[trigger] a.skip(n)[i],
        b.skip(n)[i],
    ) by {
        assert(same_up_to_case(a[n + i], b[n + i]));
    }
}

pub proof fn lemma_trim_start_ignores_case(a: Seq<char>, b: Seq<char>)
    requires
        equal_up_to_case(a, b),
    ensures
        equal_up_to_case(trim_start(a), trim_start(b)),
    decreases a.len(),
{
    if a.len() > 0 {
        assert(same_up_to_case(a[0], b[0]));
        if is_ws(a[0]) || is_ws(b[0]) {
            assert(a[0] == b[0]);
            lemma_suffix_ignores_case(a, b, 1);
            assert(a.drop_first() =~= a.skip(1));
            assert(b.drop_first() =~= b.skip(1));
            lemma_trim_start_ignores_case(a.drop_first(), b.drop_first());
        }
    }
}

pub proof fn lemma_last_index_ignores_case(a: Seq<char>, b: Seq<char>, c: char)
    requires
        equal_up_to_case(a, b),
        !is_upper(c),
        !is_lower(c),
    ensures
        last_index_of(a, c) == last_index_of(b, c),
    decreases a.len(),
{
    if a.len() > 0 {
        assert(same_up_to_case(a[a.len() - 1], b[b.len() - 1]));
        let (x, y) = (a.drop_last(), b.drop_last());
        assert forall|i: int| 0 <= i < x.len() implies same_up_to_case(#[trigger] x[i], y[i]) by {
            assert(same_up_to_case(a[i], b[i]));
        }
        lemma_last_index_ignores_case(x, y, c);
    }
}

/// Every character of `w` is whitespace.
pub open spec fn all_whitespace(w: Seq<char>) -> bool {
    forall|i: int| 0 <= i < w.len() ==> is_ws(#[trigger] w[i])
}

/// `x` has no whitespace at either end.
pub open spec fn is_trimmed(x: Seq<char>) -> bool {
    x.len() == 0 || (!is_ws(x[0]) && !is_ws(x.last()))
}

pub proof fn lemma_trim_start_skips(w: Seq<char>, t: Seq<char>)
    requires
        all_whitespace(w),
    ensures
        trim_start(w + t) == trim_start(t),
    decreases w.len(),
{
    if w.len() > 0 {
        assert((w + t)[0] == w[0]);
        assert((w + t).drop_first() =~= w.drop_first() + t);
        lemma_trim_start_skips(w.drop_first(), t);
    } else {
        assert(w + t =~= t);
    }
}

pub proof fn lemma_trim_end_skips(t: Seq<char>, w: Seq<char>)
    requires
        all_whitespace(w),
    ensures
        trim_end(t + w) == trim_end(t),
    decreases w.len(),
{
    if w.len() > 0 {
        assert((t + w).last() == w.last());
        assert((t + w).drop_last() =~= t + w.drop_last());
        lemma_trim_end_skips(t, w.drop_last());
    } else {
        assert(t + w =~= t);
    }
}

/// Trimming whitespace from around an already trimmed text gives the text.
pub proof fn lemma_trim_padded(w1: Seq<char>, x: Seq<char>, w2: Seq<char>)
    requires
        all_whitespace(w1),
        all_whitespace(w2),
        is_trimmed(x),
    ensures
        trim(w1 + x + w2) == x,
{
    assert(w1 + x + w2 =~= w1 + (x + w2));
    lemma_trim_start_skips(w1, x + w2);
    if x.len() > 0 {
        assert((x + w2)[0] == x[0]);
        assert(trim_start(x + w2) == x + w2);
        lemma_trim_end_skips(x, w2);
    } else {
        assert(x + w2 =~= w2);
        assert(w2 =~= Seq::<char>::empty() + w2);
        lemma_trim_start_skips(w2, Seq::<char>::empty());
        assert(trim_start(Seq::<char>::empty()) == Seq::<char>::empty());
        assert(trim_end(Seq::<char>::empty()) =~= x);
    }
}

/// Whether `c` is whitespace, as `char::is_whitespace` decides.
pub fn is_whitespace(c: char) -> (r: bool)
    ensures
        r == is_ws(c),
{
    let u = c as u32;
    (0x09 <= u && u <= 0x0d) || u == 0x20 || u == 0x85 || u == 0xa0 || u == 0x1680 || (0x2000
        <= u && u <= 0x200a) || u == 0x2028 || u == 0x2029 || u == 0x202f || u == 0x205f || u
        == 0x3000
}

/// The characters of `s`, in order.
pub fn chars_of(s: &str) -> (r: Vec<char>)
    ensures
        r@ == s@,
{
    let mut r: Vec<char> = Vec::new();
    for c in it: s.chars()
        invariant
            r@ == it.seq().take(it.index() as int),
            it.seq() == s@,
    {
        r.push(c);
    }
    r
}

/// The first index at or after `from` that holds no whitespace, or `to`.
pub fn skip_whitespace(v: &Vec<char>, from: usize, to: usize) -> (r: usize)
    requires
        from <= to <= v@.len(),
    ensures
        from <= r <= to,
        v@.subrange(r as int, to as int) == trim_start(v@.subrange(from as int, to as int)),
{
    let mut i = from;
    while i < to && is_whitespace(v[i])
        invariant
            from <= i <= to <= v@.len(),
            trim_start(v@.subrange(i as int, to as int)) == trim_start(
                v@.subrange(from as int, to as int),
            ),
        decreases to - i,
    {
        assert(v@.subrange(i as int, to as int).drop_first() =~= v@.subrange(
            i + 1,
            to as int,
        ));
        i = i + 1;
    }
    i
}

/// The end of `v[from..to]` once its trailing whitespace is left off.
pub fn trim_end_index(v: &Vec<char>, from: usize, to: usize) -> (r: usize)
    requires
        from <= to <= v@.len(),
    ensures
        from <= r <= to,
        v@.subrange(from as int, r as int) == trim_end(v@.subrange(from as int, to as int)),
{
    let mut j = to;
    while j > from && is_whitespace(v[j - 1])
        invariant
            from <= j <= to <= v@.len(),
            trim_end(v@.subrange(from as int, j as int)) == trim_end(
                v@.subrange(from as int, to as int),
            ),
        decreases j - from,
    {
        assert(v@.subrange(from as int, j as int).drop_last() =~= v@.subrange(
            from as int,
            j - 1,
        ));
        j = j - 1;
    }
    j
}

/// The bounds of `v[from..to]` once trimmed of whitespace at both ends.
pub fn trim_bounds(v: &Vec<char>, from: usize, to: usize) -> (r: (usize, usize))
    requires
        from <= to <= v@.len(),
    ensures
        from <= r.0 <= r.1 <= to,
        v@.subrange(r.0 as int, r.1 as int) == trim(v@.subrange(from as int, to as int)),
{
    let lo = skip_whitespace(v, from, to);
    let hi = trim_end_index(v, lo, to);
    (lo, hi)
}

/// Whether `v` begins with the keyword `kw`, ignoring ASCII case.
pub fn has_keyword(v: &Vec<char>, kw: &[char]) -> (r: bool)
    ensures
        r == starts_with_keyword(v@, kw@),
{
    if kw.len() > v.len() {
        return false;
    }
    let mut i: usize = 0;
    while i < kw.len()
        invariant
            kw@.len() <= v@.len(),
            i <= kw@.len(),
            forall|j: int| 0 <= j < i ==> matches_ignoring_case(#[trigger] v@[j], kw@[j]),
        decreases kw@.len() - i,
    {
        let c = v[i];
        let k = kw[i];
        if !(c == k || ('A' <= k && k <= 'Z' && (c as u32) == (k as u32) + 32)) {
            return false;
        }
        i = i + 1;
    }
    true
}

/// The index of the last `c` in `v[from..]`, counted from the start of `v`.
pub fn find_last(v: &Vec<char>, from: usize, c: char) -> (r: Option<usize>)
    requires
        from <= v@.len(),
    ensures
        match r {
            Some(j) => from <= j < v@.len() && j - from == last_index_of(v@.skip(from as int), c),
            None => last_index_of(v@.skip(from as int), c) == -1,
        },
{
    let mut j = v.len();
    while j > from
        invariant
            from <= j <= v@.len(),
            last_index_of(v@.subrange(from as int, j as int), c) == last_index_of(
                v@.skip(from as int),
                c,
            ),
        decreases j - from,
    {
        assert(v@.subrange(from as int, j as int).drop_last() =~= v@.subrange(
            from as int,
            j - 1,
        ));
        if v[j - 1] == c {
            return Some(j - 1);
        }
        j = j - 1;
    }
    None
}

/// The characters `s[from..to]` as a new string.
pub fn substring(s: &str, from: usize, to: usize) -> (r: String)
    requires
        from <= to <= s@.len(),
    ensures
        r@ == s@.subrange(from as int, to as int),
{
    s.substring_char(from, to).to_owned()
}

} // verus!
