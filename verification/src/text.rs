//! Character-level text operations with their mathematical meaning.
//!
//! Every string is modelled as the sequence of its Unicode scalar values.
//! The functions here mirror the `str` operations that the automation rules
//! rely on (trimming, ASCII case folding, line splitting, searching and
//! replacing), each stated over `Seq<char>`.
use vstd::prelude::*;

verus! {

/// Appends one character to a string.
pub assume_specification[ String::push ](s: &mut String, ch: char)
    ensures
        final(s)@ == old(s)@.push(ch),
;

// ---------------------------------------------------------------------
// Character classes
// ---------------------------------------------------------------------
/// Unicode `White_Space`, the class that `char::is_whitespace` tests.
pub open spec fn is_space(c: char) -> bool {
    let n = c as u32;
    ||| 0x9 <= n <= 0xD
    ||| n == 0x20
    ||| n == 0x85
    ||| n == 0xA0
    ||| n == 0x1680
    ||| 0x2000 <= n <= 0x200A
    ||| n == 0x2028
    ||| n == 0x2029
    ||| n == 0x202F
    ||| n == 0x205F
    ||| n == 0x3000
}

/// The code point of `c` with ASCII upper case letters folded to lower case.
pub open spec fn fold(c: char) -> u32 {
    let n = c as u32;
    if 0x41 <= n <= 0x5A {
        (n + 32) as u32
    } else {
        n
    }
}

/// Equality of two texts when ASCII letters are compared without case.
pub open spec fn eq_ic(a: Seq<char>, b: Seq<char>) -> bool {
    &&& a.len() == b.len()
    &&& forall|i: int| 0 <= i < a.len() ==> #[trigger] fold(a[i]) == fold(b[i])
}

pub fn is_whitespace(c: char) -> (b: bool)
    ensures
        b == is_space(c),
{
    let n = c as u32;
    (0x9 <= n && n <= 0xD) || n == 0x20 || n == 0x85 || n == 0xA0 || n == 0x1680 || (0x2000 <= n
        && n <= 0x200A) || n == 0x2028 || n == 0x2029 || n == 0x202F || n == 0x205F || n == 0x3000
}

/// ASCII-case-insensitive equality of two characters.
pub fn same_ascii_char(left: char, right: char) -> (b: bool)
    ensures
        b == (fold(left) == fold(right)),
{
    let l = left as u32;
    let r = right as u32;
    let lf = if 0x41 <= l && l <= 0x5A {
        l + 32
    } else {
        l
    };
    let rf = if 0x41 <= r && r <= 0x5A {
        r + 32
    } else {
        r
    };
    lf == rf
}

// ---------------------------------------------------------------------
// Conversions
// ---------------------------------------------------------------------
/// The characters of a string slice, in order.
pub fn chars_of(s: &str) -> (v: Vec<char>)
    ensures
        v@ == s@,
{
    let mut v: Vec<char> = Vec::new();
    for c in it: s.chars()
        invariant
            v@ == it.seq().take(it.index() as int),
    {
        v.push(c);
    }
    v
}

/// A string holding the given characters.
pub fn string_of(v: &[char]) -> (s: String)
    ensures
        s@ == v@,
{
    let mut s = String::new();
    let mut i: usize = 0;
    while i < v.len()
        invariant
            i <= v@.len(),
            s@ == v@.take(i as int),
        decreases v@.len() - i,
    {
        s.push(v[i]);
        i = i + 1;
        assert(v@.take(i as int) == v@.take((i - 1) as int).push(v@[i - 1]));
    }
    assert(v@.take(v@.len() as int) == v@);
    s
}

/// The characters `v[from..to]`.
pub fn slice(v: &[char], from: usize, to: usize) -> (r: Vec<char>)
    requires
        from <= to <= v@.len(),
    ensures
        r@ == v@.subrange(from as int, to as int),
{
    let mut r: Vec<char> = Vec::new();
    let mut i = from;
    while i < to
        invariant
            from <= i <= to <= v@.len(),
            r@ == v@.subrange(from as int, i as int),
        decreases to - i,
    {
        r.push(v[i]);
        i = i + 1;
        assert(v@.subrange(from as int, i as int) == v@.subrange(from as int, i - 1).push(
            v@[i - 1],
        ));
    }
    r
}

/// `a` followed by `b`.
pub fn concat(a: &[char], b: &[char]) -> (r: Vec<char>)
    ensures
        r@ == a@ + b@,
{
    let mut r = slice(a, 0, a.len());
    assert(a@.subrange(0, a@.len() as int) == a@);
    let mut i: usize = 0;
    while i < b.len()
        invariant
            i <= b@.len(),
            r@ == a@ + b@.take(i as int),
        decreases b@.len() - i,
    {
        r.push(b[i]);
        i = i + 1;
        assert(a@ + b@.take(i as int) == (a@ + b@.take((i - 1) as int)).push(b@[i - 1]));
    }
    assert(b@.take(b@.len() as int) == b@);
    r
}

/// Character-wise equality.
pub fn same_chars(a: &[char], b: &[char]) -> (r: bool)
    ensures
        r == (a@ == b@),
{
    if a.len() != b.len() {
        return false;
    }
    let mut i: usize = 0;
    while i < a.len()
        invariant
            a@.len() == b@.len(),
            i <= a@.len(),
            forall|j: int| 0 <= j < i ==> a@[j] == b@[j],
        decreases a@.len() - i,
    {
        if a[i] != b[i] {
            return false;
        }
        i = i + 1;
    }
    assert(a@ =~= b@);
    true
}

/// Whether the characters are exactly those of the literal `word`.
pub fn is_word(v: &[char], word: &str) -> (r: bool)
    ensures
        r == (v@ == word@),
{
    let w = chars_of(word);
    same_chars(v, w.as_slice())
}

// ---------------------------------------------------------------------
// Case-insensitive comparison
// ---------------------------------------------------------------------
/// ASCII-case-insensitive equality of two texts.
pub fn eq_ignore_ascii_case(a: &[char], b: &[char]) -> (r: bool)
    ensures
        r == eq_ic(a@, b@),
{
    if a.len() != b.len() {
        return false;
    }
    let mut i: usize = 0;
    while i < a.len()
        invariant
            a@.len() == b@.len(),
            i <= a@.len(),
            forall|j: int| 0 <= j < i ==> #[trigger] fold(a@[j]) == fold(b@[j]),
        decreases a@.len() - i,
    {
        if !same_ascii_char(a[i], b[i]) {
            return false;
        }
        i = i + 1;
    }
    true
}

pub proof fn lemma_eq_ic_refl(a: Seq<char>)
    ensures
        eq_ic(a, a),
{
}

pub proof fn lemma_eq_ic_symm(a: Seq<char>, b: Seq<char>)
    requires
        eq_ic(a, b),
    ensures
        eq_ic(b, a),
{
    assert forall|i: int| 0 <= i < b.len() implies #[trigger] fold(b[i]) == fold(a[i]) by {
        assert(fold(a[i]) == fold(b[i]));
    }
}

pub proof fn lemma_eq_ic_trans(a: Seq<char>, b: Seq<char>, c: Seq<char>)
    requires
        eq_ic(a, b),
        eq_ic(b, c),
    ensures
        eq_ic(a, c),
{
    assert forall|i: int| 0 <= i < a.len() implies #[trigger] fold(a[i]) == fold(c[i]) by {
        assert(fold(a[i]) == fold(b[i]));
        assert(fold(b[i]) == fold(c[i]));
    }
}

// ---------------------------------------------------------------------
// Trimming
// ---------------------------------------------------------------------
/// The text without its leading white space.
pub open spec fn trim_start(s: Seq<char>) -> Seq<char>
    decreases s.len(),
{
    if s.len() > 0 && is_space(s[0]) {
        trim_start(s.drop_first())
    } else {
        s
    }
}

/// The text without its trailing white space.
pub open spec fn trim_end(s: Seq<char>) -> Seq<char>
    decreases s.len(),
{
    if s.len() > 0 && is_space(s.last()) {
        trim_end(s.drop_last())
    } else {
        s
    }
}

/// The text without leading and trailing white space (`str::trim`).
pub open spec fn trim(s: Seq<char>) -> Seq<char> {
    trim_end(trim_start(s))
}

/// The number of leading white space characters.
pub open spec fn lead_space(s: Seq<char>) -> nat
    decreases s.len(),
{
    if s.len() > 0 && is_space(s[0]) {
        1 + lead_space(s.drop_first())
    } else {
        0
    }
}

pub proof fn lemma_lead_space(s: Seq<char>)
    ensures
        lead_space(s) <= s.len(),
        trim_start(s) == s.skip(lead_space(s) as int),
        forall|j: int| 0 <= j < lead_space(s) ==> is_space(#[trigger] s[j]),
        lead_space(s) < s.len() ==> !is_space(s[lead_space(s) as int]),
    decreases s.len(),
{
    if s.len() > 0 && is_space(s[0]) {
        lemma_lead_space(s.drop_first());
        assert(s.skip(lead_space(s) as int) == s.drop_first().skip(
            lead_space(s.drop_first()) as int,
        ));
        assert forall|j: int| 0 <= j < lead_space(s) implies is_space(#[trigger] s[j]) by {
            if j > 0 {
                assert(s[j] == s.drop_first()[j - 1]);
            }
        }
        if lead_space(s) < s.len() {
            assert(s[lead_space(s) as int] == s.drop_first()[lead_space(s.drop_first()) as int]);
        }
    } else {
        assert(s.skip(0) == s);
    }
}

/// The number of trailing white space characters.
pub open spec fn trail_space(s: Seq<char>) -> nat
    decreases s.len(),
{
    if s.len() > 0 && is_space(s.last()) {
        1 + trail_space(s.drop_last())
    } else {
        0
    }
}

pub proof fn lemma_trail_space(s: Seq<char>)
    ensures
        trail_space(s) <= s.len(),
        trim_end(s) == s.take(s.len() - trail_space(s)),
        forall|j: int| s.len() - trail_space(s) <= j < s.len() ==> is_space(#[trigger] s[j]),
        trail_space(s) < s.len() ==> !is_space(s[s.len() - trail_space(s) - 1]),
    decreases s.len(),
{
    if s.len() > 0 && is_space(s.last()) {
        lemma_trail_space(s.drop_last());
        assert(s.take(s.len() - trail_space(s)) == s.drop_last().take(
            s.drop_last().len() - trail_space(s.drop_last()),
        ));
        assert forall|j: int| s.len() - trail_space(s) <= j < s.len() implies is_space(
            #[trigger] s[j],
        ) by {
            if j < s.len() - 1 {
                assert(s[j] == s.drop_last()[j]);
            }
        }
        if trail_space(s) < s.len() {
            assert(s[s.len() - trail_space(s) - 1] == s.drop_last()[s.drop_last().len()
                - trail_space(s.drop_last()) - 1]);
        }
    } else {
        assert(s.take(s.len() as int) == s);
    }
}

/// `trim(s)` is the part of `s` between its white space margins.
pub proof fn lemma_trim(s: Seq<char>)
    ensures
        trim(s) == s.subrange(
            lead_space(s) as int,
            s.len() - trail_space(s.skip(lead_space(s) as int)),
        ),
        lead_space(s) + trail_space(s.skip(lead_space(s) as int)) <= s.len(),
{
    lemma_lead_space(s);
    let t = s.skip(lead_space(s) as int);
    lemma_trail_space(t);
    assert(t.take(t.len() - trail_space(t)) == s.subrange(
        lead_space(s) as int,
        s.len() - trail_space(t),
    ));
}

/// A trimmed text neither starts nor ends with white space.
pub proof fn lemma_trim_margins(s: Seq<char>)
    ensures
        trim(s).len() > 0 ==> !is_space(trim(s)[0]) && !is_space(trim(s).last()),
        trim(s).len() <= s.len(),
{
    lemma_trim(s);
    lemma_lead_space(s);
    let t = s.skip(lead_space(s) as int);
    lemma_trail_space(t);
    if trim(s).len() > 0 {
        assert(trim(s)[0] == t[0]);
        assert(trim(s).last() == t[t.len() - trail_space(t) - 1]);
    }
}

/// Trimming twice is trimming once.
pub proof fn lemma_trim_idempotent(s: Seq<char>)
    ensures
        trim(trim(s)) == trim(s),
{
    let t = trim(s);
    lemma_trim_margins(s);
    lemma_lead_space(t);
    lemma_trim(t);
    if t.len() > 0 {
        assert(lead_space(t) == 0);
        assert(t.skip(0) == t);
        lemma_trail_space(t);
        assert(trail_space(t) == 0) by {
            if trail_space(t) > 0 {
                assert(is_space(t[t.len() - 1]));
            }
        }
        assert(t.subrange(0, t.len() as int) == t);
    } else {
        assert(t.subrange(0, 0) =~= t);
    }
}

/// The bounds of `v` without its white space margins.
pub fn trim_bounds(v: &[char]) -> (r: (usize, usize))
    ensures
        r.0 <= r.1 <= v@.len(),
        v@.subrange(r.0 as int, r.1 as int) == trim(v@),
{
    proof {
        lemma_trim(v@);
        lemma_lead_space(v@);
        lemma_trail_space(v@.skip(lead_space(v@) as int));
    }
    let mut start: usize = 0;
    while start < v.len() && is_whitespace(v[start])
        invariant
            start <= v@.len(),
            start <= lead_space(v@),
            forall|j: int| 0 <= j < start ==> is_space(#[trigger] v@[j]),
            lead_space(v@) <= v@.len(),
            forall|j: int| 0 <= j < lead_space(v@) ==> is_space(#[trigger] v@[j]),
            lead_space(v@) < v@.len() ==> !is_space(v@[lead_space(v@) as int]),
        decreases v@.len() - start,
    {
        start = start + 1;
    }
    assert(start == lead_space(v@));
    let ghost t = v@.skip(start as int);
    let mut end: usize = v.len();
    while end > start && is_whitespace(v[end - 1])
        invariant
            start <= end <= v@.len(),
            t == v@.skip(start as int),
            v@.len() - end <= trail_space(t),
            trail_space(t) <= t.len(),
            forall|j: int| t.len() - trail_space(t) <= j < t.len() ==> is_space(#[trigger] t[j]),
            trail_space(t) < t.len() ==> !is_space(t[t.len() - trail_space(t) - 1]),
        decreases end,
    {
        assert(v@[end - 1] == t[end - 1 - start]);
        end = end - 1;
    }
    assert(v@.len() - end == trail_space(t)) by {
        if v@.len() - end < trail_space(t) && end > start {
            assert(v@[end - 1] == t[end - 1 - start]);
        }
    }
    (start, end)
}

/// `str::trim` on characters.
pub fn trim_chars(v: &[char]) -> (r: Vec<char>)
    ensures
        r@ == trim(v@),
{
    let (a, b) = trim_bounds(v);
    slice(v, a, b)
}

// ---------------------------------------------------------------------
// Lines
// ---------------------------------------------------------------------
/// The pieces of `s` between `'\n'` characters (`str::split('\n')`).
pub open spec fn pieces(s: Seq<char>) -> Seq<Seq<char>>
    decreases s.len(),
{
    if s.len() == 0 {
        seq![Seq::<char>::empty()]
    } else {
        let p = pieces(s.drop_last());
        if s.last() == '\n' {
            p.push(Seq::<char>::empty())
        } else {
            p.update(p.len() - 1, p.last().push(s.last()))
        }
    }
}

pub proof fn lemma_pieces_nonempty(s: Seq<char>)
    ensures
        pieces(s).len() >= 1,
    decreases s.len(),
{
    if s.len() > 0 {
        lemma_pieces_nonempty(s.drop_last());
    }
}

/// The trimmed pieces that are not empty, in order.
pub open spec fn kept(ps: Seq<Seq<char>>) -> Seq<Seq<char>>
    decreases ps.len(),
{
    if ps.len() == 0 {
        Seq::empty()
    } else {
        let k = kept(ps.drop_last());
        let t = trim(ps.last());
        if t.len() > 0 {
            k.push(t)
        } else {
            k
        }
    }
}

/// The non-blank lines of `s`, each trimmed
/// (`s.lines().map(str::trim).filter(|l| !l.is_empty())`).
pub open spec fn text_lines(s: Seq<char>) -> Seq<Seq<char>> {
    kept(pieces(s))
}

pub proof fn lemma_kept_push(ps: Seq<Seq<char>>, x: Seq<char>)
    ensures
        kept(ps.push(x)) == (if trim(x).len() > 0 {
            kept(ps).push(trim(x))
        } else {
            kept(ps)
        }),
{
    assert(ps.push(x).drop_last() == ps);
}

pub proof fn lemma_kept_items(ps: Seq<Seq<char>>)
    ensures
        forall|i: int| 0 <= i < kept(ps).len() ==> (#[trigger] kept(ps)[i]).len() > 0 && trim(
            kept(ps)[i],
        ) == kept(ps)[i],
    decreases ps.len(),
{
    if ps.len() > 0 {
        let k = kept(ps.drop_last());
        let t = trim(ps.last());
        lemma_kept_items(ps.drop_last());
        lemma_trim_idempotent(ps.last());
        if t.len() > 0 {
            assert forall|i: int| 0 <= i < kept(ps).len() implies (#[trigger] kept(ps)[i]).len()
                > 0 && trim(kept(ps)[i]) == kept(ps)[i] by {
                if i < k.len() {
                    assert(kept(ps)[i] == k[i]);
                } else {
                    assert(kept(ps)[i] == t);
                }
            }
        }
    }
}

/// The non-blank trimmed lines of the text.
pub fn lines_of(v: &[char]) -> (r: Vec<Vec<char>>)
    ensures
        r.deep_view() == text_lines(v@),
{
    let mut out: Vec<Vec<char>> = Vec::new();
    let mut cur: Vec<char> = Vec::new();
    let mut i: usize = 0;
    proof {
        assert(v@.take(0) =~= Seq::<char>::empty());
        assert(pieces(v@.take(0)).drop_last() =~= Seq::<Seq<char>>::empty());
    }
    while i < v.len()
        invariant
            i <= v@.len(),
            pieces(v@.take(i as int)).len() >= 1,
            cur@ == pieces(v@.take(i as int)).last(),
            out.deep_view() == kept(pieces(v@.take(i as int)).drop_last()),
        decreases v@.len() - i,
    {
        let ghost before = v@.take(i as int);
        let ghost after = v@.take(i + 1);
        assert(after.drop_last() == before);
        assert(after.last() == v@[i as int]);
        if v[i] == '\n' {
            let t = trim_chars(cur.as_slice());
            proof {
                lemma_kept_push(pieces(before).drop_last(), cur@);
                assert(pieces(after) == pieces(before).push(Seq::<char>::empty()));
                assert(pieces(after).drop_last() == pieces(before));
                assert(pieces(before).drop_last().push(cur@) == pieces(before));
            }
            if t.len() > 0 {
                let ghost prev = out.deep_view();
                out.push(t);
                assert(t.deep_view() =~= t@);
        assert(out.deep_view() =~~= prev.push(trim(cur@)));
            }
            cur = Vec::new();
        } else {
            proof {
                let p = pieces(before);
                assert(pieces(after) == p.update(p.len() - 1, p.last().push(v@[i as int])));
                assert(pieces(after).drop_last() =~= p.drop_last());
            }
            cur.push(v[i]);
        }
        i = i + 1;
    }
    proof {
        assert(v@.take(v@.len() as int) == v@);
    }
    let t = trim_chars(cur.as_slice());
    if t.len() > 0 {
        let ghost prev = out.deep_view();
        out.push(t);
        assert(t.deep_view() =~= t@);
        assert(out.deep_view() =~~= prev.push(trim(cur@)));
    }
    proof {
        let p = pieces(v@);
        lemma_kept_push(p.drop_last(), cur@);
        assert(p.drop_last().push(cur@) == p);
    }
    out
}

} // verus!

verus! {

// ---------------------------------------------------------------------
// Exact search and replacement
// ---------------------------------------------------------------------
/// `pat` occurs in `s` starting at `k`.
pub open spec fn occurs_at(s: Seq<char>, pat: Seq<char>, k: int) -> bool {
    0 <= k && k + pat.len() <= s.len() && s.subrange(k, k + pat.len()) == pat
}

/// The first position at or after `k` where `pat` occurs.
pub open spec fn find_from(s: Seq<char>, pat: Seq<char>, k: int) -> Option<int>
    decreases s.len() + 1 - k,
{
    if k < 0 || k + pat.len() > s.len() {
        None
    } else if occurs_at(s, pat, k) {
        Some(k)
    } else {
        find_from(s, pat, k + 1)
    }
}

/// `str::contains` for a text pattern.
pub open spec fn contains(s: Seq<char>, pat: Seq<char>) -> bool {
    find_from(s, pat, 0) is Some
}

pub proof fn lemma_find_from(s: Seq<char>, pat: Seq<char>, k: int)
    requires
        0 <= k,
    ensures
        match find_from(s, pat, k) {
            Some(p) => k <= p && occurs_at(s, pat, p) && forall|j: int|
                k <= j < p ==> !occurs_at(s, pat, j),
            None => forall|j: int| k <= j ==> !occurs_at(s, pat, j),
        },
    decreases s.len() + 1 - k,
{
    if k + pat.len() > s.len() {
    } else if occurs_at(s, pat, k) {
    } else {
        lemma_find_from(s, pat, k + 1);
    }
}

/// Whether `pat` occurs in `s` at position `k`.
pub fn occurs_at_exec(s: &[char], pat: &[char], k: usize) -> (r: bool)
    ensures
        r == occurs_at(s@, pat@, k as int),
{
    if k > s.len() || pat.len() > s.len() - k {
        return false;
    }
    let mut j: usize = 0;
    while j < pat.len()
        invariant
            k + pat@.len() <= s.len(),
            j <= pat@.len(),
            forall|i: int| 0 <= i < j ==> s@[k + i] == pat@[i],
        decreases pat@.len() - j,
    {
        if s[k + j] != pat[j] {
            assert(s@.subrange(k as int, k + pat@.len())[j as int] != pat@[j as int]);
            return false;
        }
        j = j + 1;
    }
    assert(s@.subrange(k as int, k + pat@.len()) =~= pat@);
    true
}

/// The first position at or after `from` where `pat` occurs.
pub fn find_exec(s: &[char], pat: &[char], from: usize) -> (r: Option<usize>)
    ensures
        r matches Some(p) ==> find_from(s@, pat@, from as int) == Some(p as int),
        r is None ==> find_from(s@, pat@, from as int) is None,
{
    let mut k = from;
    if pat.len() > s.len() {
        return None;
    }
    let last = s.len() - pat.len();
    while k <= last
        invariant
            pat@.len() <= s@.len(),
            last == s@.len() - pat@.len(),
            from <= k,
            find_from(s@, pat@, from as int) == find_from(s@, pat@, k as int),
        decreases last - k,
    {
        if occurs_at_exec(s, pat, k) {
            return Some(k);
        }
        if k == last {
            assert(find_from(s@, pat@, k + 1) is None);
            return None;
        }
        k = k + 1;
    }
    None
}

/// `str::contains` for a text pattern.
pub fn contains_exec(s: &[char], pat: &[char]) -> (r: bool)
    ensures
        r == contains(s@, pat@),
{
    find_exec(s, pat, 0).is_some()
}

/// Every occurrence of `pat` replaced by `rep`, scanning from the left
/// (`str::replace`).
pub open spec fn replace_all(s: Seq<char>, pat: Seq<char>, rep: Seq<char>) -> Seq<char>
    decreases s.len(),
{
    if s.len() == 0 {
        s
    } else if pat.len() > 0 && occurs_at(s, pat, 0) {
        rep + replace_all(s.skip(pat.len() as int), pat, rep)
    } else {
        seq![s[0]] + replace_all(s.skip(1), pat, rep)
    }
}

/// `str::replace` on characters.
pub fn replace_exec(s: &[char], pat: &[char], rep: &[char]) -> (r: Vec<char>)
    ensures
        r@ == replace_all(s@, pat@, rep@),
{
    let mut out: Vec<char> = Vec::new();
    let mut i: usize = 0;
    assert(s@.skip(0) == s@);
    while i < s.len()
        invariant
            i <= s@.len(),
            replace_all(s@, pat@, rep@) == out@ + replace_all(s@.skip(i as int), pat@, rep@),
        decreases s@.len() - i,
    {
        let ghost rest = s@.skip(i as int);
        if pat.len() > 0 && occurs_at_exec(s, pat, i) {
            assert(occurs_at(rest, pat@, 0)) by {
                assert(rest.subrange(0, pat@.len() as int) == s@.subrange(
                    i as int,
                    i + pat@.len(),
                ));
            }
            let mut j: usize = 0;
            let ghost before = out@;
            while j < rep.len()
                invariant
                    j <= rep@.len(),
                    out@ == before + rep@.take(j as int),
                decreases rep@.len() - j,
            {
                out.push(rep[j]);
                j = j + 1;
                assert(before + rep@.take(j as int) == (before + rep@.take((j - 1) as int)).push(
                    rep@[j - 1],
                ));
            }
            assert(rep@.take(rep@.len() as int) == rep@);
            assert(rest.skip(pat@.len() as int) == s@.skip(i + pat@.len()));
            i = i + pat.len();
        } else {
            proof {
                if pat@.len() > 0 {
                    assert(!occurs_at(rest, pat@, 0)) by {
                        if occurs_at(rest, pat@, 0) {
                            assert(rest.subrange(0, pat@.len() as int) == s@.subrange(
                                i as int,
                                i + pat@.len(),
                            ));
                        }
                    }
                }
                assert(rest.skip(1) == s@.skip(i + 1));
                assert(rest[0] == s@[i as int]);
            }
            out.push(s[i]);
            i = i + 1;
        }
    }
    proof {
        assert(s@.skip(i as int).len() == 0);
        assert(out@ + Seq::<char>::empty() == out@);
    }
    out
}

/// Replacing a pattern that does not occur leaves the text unchanged.
pub proof fn lemma_replace_absent(s: Seq<char>, pat: Seq<char>, rep: Seq<char>)
    requires
        forall|k: int| !occurs_at(s, pat, k),
    ensures
        replace_all(s, pat, rep) == s,
    decreases s.len(),
{
    if s.len() > 0 {
        let t = s.skip(1);
        assert forall|k: int| !occurs_at(t, pat, k) by {
            if occurs_at(t, pat, k) {
                assert(t.subrange(k, k + pat.len()) == s.subrange(k + 1, k + 1 + pat.len()));
                assert(occurs_at(s, pat, k + 1));
            }
        }
        lemma_replace_absent(t, pat, rep);
        assert(seq![s[0]] + t == s);
    }
}

} // verus!

verus! {

/// Whether the string is exactly `word`.
pub fn str_is(s: &str, word: &str) -> (r: bool)
    ensures
        r == (s@ == word@),
{
    let a = chars_of(s);
    let b = chars_of(word);
    same_chars(a.as_slice(), b.as_slice())
}

/// A string that starts as `first` and continues with `rest`.
pub fn str_cat(first: &str, rest: &str) -> (r: String)
    ensures
        r@ == first@ + rest@,
{
    let mut s = String::from_str(first);
    s.append(rest);
    s
}

/// The string trimmed, with `None` for a blank one
/// (`.map(str::trim).filter(|v| !v.is_empty())`).
pub fn non_blank(value: &Option<String>) -> (r: Option<String>)
    ensures
        match value {
            Some(v) => if trim(v@).len() > 0 {
                r matches Some(t) && t@ == trim(v@)
            } else {
                r is None
            },
            None => r is None,
        },
{
    match value {
        Some(v) => {
            let t = trim_chars(chars_of(v.as_str()).as_slice());
            if t.len() > 0 {
                Some(string_of(t.as_slice()))
            } else {
                None
            }
        },
        None => None,
    }
}

/// The spec form of `non_blank`.
pub open spec fn spec_non_blank(value: Option<Seq<char>>) -> Option<Seq<char>> {
    match value {
        Some(v) => if trim(v).len() > 0 {
            Some(trim(v))
        } else {
            None
        },
        None => None,
    }
}

pub open spec fn opt_view(o: Option<String>) -> Option<Seq<char>> {
    match o {
        Some(s) => Some(s@),
        None => None,
    }
}

} // verus!

verus! {

// ---------------------------------------------------------------------
// Decimal numbers
// ---------------------------------------------------------------------
/// The decimal digits of a natural number, most significant first.
pub open spec fn decimal(n: nat) -> Seq<char>
    decreases n,
{
    if n < 10 {
        seq![digit_char(n)]
    } else {
        decimal(n / 10).push(digit_char(n % 10))
    }
}

pub open spec fn digit_char(d: nat) -> char {
    if d == 0 {
        '0'
    } else if d == 1 {
        '1'
    } else if d == 2 {
        '2'
    } else if d == 3 {
        '3'
    } else if d == 4 {
        '4'
    } else if d == 5 {
        '5'
    } else if d == 6 {
        '6'
    } else if d == 7 {
        '7'
    } else if d == 8 {
        '8'
    } else {
        '9'
    }
}

/// The decimal text of an integer, with `-` before a negative one.
pub open spec fn signed_decimal(n: int) -> Seq<char> {
    if n < 0 {
        seq!['-'] + decimal((-n) as nat)
    } else {
        decimal(n as nat)
    }
}

fn digit_exec(d: u64) -> (c: char)
    requires
        d < 10,
    ensures
        c == digit_char(d as nat),
{
    if d == 0 {
        '0'
    } else if d == 1 {
        '1'
    } else if d == 2 {
        '2'
    } else if d == 3 {
        '3'
    } else if d == 4 {
        '4'
    } else if d == 5 {
        '5'
    } else if d == 6 {
        '6'
    } else if d == 7 {
        '7'
    } else if d == 8 {
        '8'
    } else {
        '9'
    }
}

/// The decimal digits of `n`.
pub fn decimal_chars(n: u64) -> (r: Vec<char>)
    ensures
        r@ == decimal(n as nat),
    decreases n,
{
    if n < 10 {
        vec![digit_exec(n)]
    } else {
        let mut r = decimal_chars(n / 10);
        r.push(digit_exec(n % 10));
        r
    }
}

/// `i64` as `Display` writes it.
pub fn signed_decimal_string(n: i64) -> (r: String)
    ensures
        r@ == signed_decimal(n as int),
{
    if n < 0 {
        let m: u64 = if n == i64::MIN {
            0x8000_0000_0000_0000
        } else {
            (-n) as u64
        };
        let digits = decimal_chars(m);
        let mut r = String::from_str("-");
        r.append(string_of(digits.as_slice()).as_str());
        proof {
            reveal_strlit("-");
            assert("-"@ =~= seq!['-']);
        }
        r
    } else {
        string_of(decimal_chars(n as u64).as_slice())
    }
}

/// Lexicographic order by code point, which is the order of `String`.
pub open spec fn lex_lt(a: Seq<char>, b: Seq<char>) -> bool
    decreases a.len(),
{
    if a.len() == 0 {
        b.len() > 0
    } else if b.len() == 0 {
        false
    } else if a[0] != b[0] {
        a[0] < b[0]
    } else {
        lex_lt(a.drop_first(), b.drop_first())
    }
}

pub proof fn lemma_lex_irreflexive(a: Seq<char>)
    ensures
        !lex_lt(a, a),
    decreases a.len(),
{
    if a.len() > 0 {
        lemma_lex_irreflexive(a.drop_first());
    }
}

pub proof fn lemma_lex_total(a: Seq<char>, b: Seq<char>)
    ensures
        a == b || lex_lt(a, b) || lex_lt(b, a),
        !(lex_lt(a, b) && lex_lt(b, a)),
    decreases a.len(),
{
    if a.len() > 0 && b.len() > 0 && a[0] == b[0] {
        lemma_lex_total(a.drop_first(), b.drop_first());
        if a.drop_first() == b.drop_first() {
            assert(a =~= seq![a[0]] + a.drop_first());
            assert(b =~= seq![b[0]] + b.drop_first());
        }
    } else if a.len() == 0 && b.len() == 0 {
        assert(a =~= b);
    }
}

pub proof fn lemma_lex_trans(a: Seq<char>, b: Seq<char>, c: Seq<char>)
    requires
        lex_lt(a, b),
        lex_lt(b, c),
    ensures
        lex_lt(a, c),
    decreases a.len(),
{
    if a.len() > 0 && b.len() > 0 && c.len() > 0 && a[0] == b[0] && b[0] == c[0] {
        lemma_lex_trans(a.drop_first(), b.drop_first(), c.drop_first());
    }
}

/// Compares two texts in code point order.
pub fn lex_less(a: &str, b: &str) -> (r: bool)
    ensures
        r == lex_lt(a@, b@),
{
    let x = chars_of(a);
    let y = chars_of(b);
    let mut i: usize = 0;
    assert(x@.skip(0) == x@ && y@.skip(0) == y@);
    while i < x.len() && i < y.len() && x[i] == y[i]
        invariant
            i <= x@.len(),
            i <= y@.len(),
            lex_lt(x@, y@) == lex_lt(x@.skip(i as int), y@.skip(i as int)),
        decreases x@.len() - i,
    {
        assert(x@.skip(i as int).drop_first() == x@.skip(i + 1));
        assert(y@.skip(i as int).drop_first() == y@.skip(i + 1));
        i = i + 1;
    }
    if i == x.len() {
        i < y.len()
    } else if i == y.len() {
        false
    } else {
        x[i] < y[i]
    }
}

} // verus!

verus! {

// ---------------------------------------------------------------------
// Affixes
// ---------------------------------------------------------------------
/// `s` starts with `p`.
pub open spec fn starts_with(s: Seq<char>, p: Seq<char>) -> bool {
    p.len() <= s.len() && s.take(p.len() as int) == p
}

/// `s` ends with `p`.
pub open spec fn ends_with(s: Seq<char>, p: Seq<char>) -> bool {
    p.len() <= s.len() && s.skip(s.len() - p.len()) == p
}

pub fn starts_with_exec(s: &[char], p: &[char]) -> (r: bool)
    ensures
        r == starts_with(s@, p@),
{
    if p.len() > s.len() {
        return false;
    }
    let r = occurs_at_exec(s, p, 0);
    assert(s@.subrange(0, p@.len() as int) == s@.take(p@.len() as int));
    r
}

pub fn ends_with_exec(s: &[char], p: &[char]) -> (r: bool)
    ensures
        r == ends_with(s@, p@),
{
    if p.len() > s.len() {
        return false;
    }
    let k = s.len() - p.len();
    let r = occurs_at_exec(s, p, k);
    assert(s@.subrange(k as int, k + p@.len()) == s@.skip(k as int));
    r
}

/// The text without its leading `c` characters.
pub open spec fn strip_start(s: Seq<char>, c: char) -> Seq<char>
    decreases s.len(),
{
    if s.len() > 0 && s[0] == c {
        strip_start(s.drop_first(), c)
    } else {
        s
    }
}

/// The text without its trailing `c` characters (`str::trim_end_matches`).
pub open spec fn strip_end(s: Seq<char>, c: char) -> Seq<char>
    decreases s.len(),
{
    if s.len() > 0 && s.last() == c {
        strip_end(s.drop_last(), c)
    } else {
        s
    }
}

/// The text without leading and trailing `c` characters (`str::trim_matches`).
pub open spec fn strip_both(s: Seq<char>, c: char) -> Seq<char> {
    strip_end(strip_start(s, c), c)
}

/// `str::trim_end_matches(c)` on characters.
pub fn strip_end_exec(s: &[char], c: char) -> (r: Vec<char>)
    ensures
        r@ == strip_end(s@, c),
{
    let mut j = s.len();
    assert(s@.take(j as int) == s@);
    while j > 0 && s[j - 1] == c
        invariant
            j <= s@.len(),
            strip_end(s@, c) == strip_end(s@.take(j as int), c),
        decreases j,
    {
        assert(s@.take(j as int).drop_last() == s@.take(j - 1));
        j = j - 1;
    }
    let r = slice(s, 0, j);
    assert(r@ == s@.take(j as int));
    r
}

/// `trim_start_matches(c)`
pub fn strip_start_exec(s: &[char], c: char) -> (r: Vec<char>)
    ensures
        r@ == strip_start(s@, c),
{
    let mut i: usize = 0;
    assert(s@.skip(0) == s@);
    while i < s.len() && s[i] == c
        invariant
            i <= s@.len(),
            strip_start(s@, c) == strip_start(s@.skip(i as int), c),
        decreases s@.len() - i,
    {
        assert(s@.skip(i as int).drop_first() == s@.skip(i + 1));
        i = i + 1;
    }
    let r = slice(s, i, s.len());
    r
}

/// `str::trim_matches(c)` on characters.
pub fn strip_both_exec(s: &[char], c: char) -> (r: Vec<char>)
    ensures
        r@ == strip_both(s@, c),
{
    let a = strip_start_exec(s, c);
    strip_end_exec(a.as_slice(), c)
}

/// The texts joined with `sep` between them (`join`).
pub open spec fn join(parts: Seq<Seq<char>>, sep: Seq<char>) -> Seq<char>
    decreases parts.len(),
{
    if parts.len() == 0 {
        Seq::empty()
    } else if parts.len() == 1 {
        parts[0]
    } else {
        join(parts.drop_last(), sep) + sep + parts.last()
    }
}

/// `[String]::join`
pub fn join_exec(parts: &Vec<String>, sep: &str) -> (r: String)
    ensures
        r@ == join(parts.deep_view(), sep@),
{
    let ghost pv = parts.deep_view();
    let mut out = String::new();
    let mut i: usize = 0;
    assert(pv.take(0) =~= Seq::<Seq<char>>::empty());
    while i < parts.len()
        invariant
            i <= parts@.len(),
            pv == parts.deep_view(),
            out@ == join(pv.take(i as int), sep@),
        decreases parts@.len() - i,
    {
        assert(pv.take(i + 1).drop_last() == pv.take(i as int));
        assert(pv.take(i + 1).last() == parts@[i as int]@);
        if i > 0 {
            out.append(sep);
        } else {
            assert(out@ =~= Seq::<char>::empty());
        }
        out.append(parts[i].as_str());
        i = i + 1;
    }
    assert(pv.take(pv.len() as int) == pv);
    out
}

/// Replacing a pattern by a shorter text shortens a text that holds it.
pub proof fn lemma_replace_shorter(s: Seq<char>, pat: Seq<char>, rep: Seq<char>)
    requires
        rep.len() <= pat.len(),
        pat.len() > 0,
    ensures
        replace_all(s, pat, rep).len() <= s.len(),
        rep.len() < pat.len() && (exists|k: int| occurs_at(s, pat, k)) ==> replace_all(
            s,
            pat,
            rep,
        ).len() < s.len(),
    decreases s.len(),
{
    if s.len() > 0 {
        if occurs_at(s, pat, 0) {
            lemma_replace_shorter(s.skip(pat.len() as int), pat, rep);
        } else {
            let t = s.skip(1);
            lemma_replace_shorter(t, pat, rep);
            if rep.len() < pat.len() && (exists|k: int| occurs_at(s, pat, k)) {
                let k = choose|k: int| occurs_at(s, pat, k);
                assert(k != 0);
                assert(t.subrange(k - 1, k - 1 + pat.len()) == s.subrange(k, k + pat.len()));
                assert(occurs_at(t, pat, k - 1));
            }
        }
    } else {
        if rep.len() < pat.len() && (exists|k: int| occurs_at(s, pat, k)) {
            let k = choose|k: int| occurs_at(s, pat, k);
            assert(false);
        }
    }
}

} // verus!
