//! Character-level string utilities.
//!
//! All string logic in this crate runs over `Vec<char>` so that it can be
//! verified against `Seq<char>` views; these helpers convert between `String`
//! and `Vec<char>` and provide the trimming and case-folding primitives the
//! protocol logic needs.

use vstd::prelude::*;

verus! {

/// Relies on String::push: appends exactly one character at the end.
#[verifier::external_body]
fn push_char(s: &mut String, c: char)
    ensures
        final(s)@ == old(s)@.push(c),
{
    s.push(c);
}

/// The characters this crate treats as trimmable whitespace.
pub open spec fn is_space_char(c: char) -> bool {
    c == ' ' || c == '\t' || c == '\r' || c == '\n'
}

/// Executable form of `is_space_char`.
pub fn is_space(c: char) -> (r: bool)
    ensures
        r == is_space_char(c),
{
    c == ' ' || c == '\t' || c == '\r' || c == '\n'
}

pub open spec fn trim_start_spec(s: Seq<char>) -> Seq<char>
    decreases s.len(),
{
    if s.len() > 0 && is_space_char(s[0]) {
        trim_start_spec(s.drop_first())
    } else {
        s
    }
}

pub open spec fn trim_end_spec(s: Seq<char>) -> Seq<char>
    decreases s.len(),
{
    if s.len() > 0 && is_space_char(s[s.len() - 1]) {
        trim_end_spec(s.drop_last())
    } else {
        s
    }
}

/// What trimming a string means: spaces removed from both ends.
pub open spec fn trim_spec(s: Seq<char>) -> Seq<char> {
    trim_end_spec(trim_start_spec(s))
}

proof fn lemma_trim_start_prefix(s: Seq<char>, i: int)
    requires
        0 <= i <= s.len(),
        forall|j: int| 0 <= j < i ==> is_space_char(s[j]),
    ensures
        trim_start_spec(s) == trim_start_spec(s.subrange(i, s.len() as int)),
    decreases i,
{
    if i > 0 {
        assert(s.len() > 0 && is_space_char(s[0]));
        assert(trim_start_spec(s) == trim_start_spec(s.drop_first()));
        let t = s.drop_first();
        lemma_trim_start_prefix(t, i - 1);
        assert(t.subrange(i - 1, t.len() as int) =~= s.subrange(i, s.len() as int));
    } else {
        assert(s.subrange(0, s.len() as int) =~= s);
    }
}

proof fn lemma_trim_end_suffix(s: Seq<char>, i: int)
    requires
        0 <= i <= s.len(),
        forall|j: int| i <= j < s.len() ==> is_space_char(s[j]),
    ensures
        trim_end_spec(s) == trim_end_spec(s.subrange(0, i)),
    decreases s.len() - i,
{
    if i < s.len() {
        assert(is_space_char(s[s.len() - 1]));
        assert(trim_end_spec(s) == trim_end_spec(s.drop_last()));
        let t = s.drop_last();
        lemma_trim_end_suffix(t, i);
        assert(t.subrange(0, i) =~= s.subrange(0, i));
    } else {
        assert(s.subrange(0, s.len() as int) =~= s);
    }
}

/// Converts a string slice into the vector of its characters.
pub fn chars_of(s: &str) -> (r: Vec<char>)
    ensures
        r@ == s@,
{
    let n = s.unicode_len();
    let mut r: Vec<char> = Vec::new();
    for i in 0..n
        invariant
            n == s@.len(),
            r@ =~= s@.subrange(0, i as int),
    {
        r.push(s.get_char(i));
        assert(r@ =~= s@.subrange(0, i + 1 as int));
    }
    assert(r@ =~= s@);
    r
}

/// Builds a `String` whose characters are exactly the given vector.
pub fn string_of(cs: &Vec<char>) -> (r: String)
    ensures
        r@ == cs@,
{
    let mut r = String::new();
    for i in 0..cs.len()
        invariant
            r@ =~= cs@.subrange(0, i as int),
    {
        push_char(&mut r, cs[i]);
        assert(r@ =~= cs@.subrange(0, i + 1 as int));
    }
    assert(r@ =~= cs@);
    r
}

/// Removes leading and trailing whitespace characters.
pub fn trim_chars(v: &Vec<char>) -> (r: Vec<char>)
    ensures
        r@ == trim_spec(v@),
{
    let n = v.len();
    let mut start: usize = 0;
    while start < n && is_space(v[start])
        invariant
            n == v@.len(),
            0 <= start <= n,
            forall|j: int| 0 <= j < start ==> is_space_char(v@[j]),
        decreases n - start,
    {
        start = start + 1;
    }
    proof {
        lemma_trim_start_prefix(v@, start as int);
    }
    let ghost stripped = v@.subrange(start as int, n as int);
    assert(trim_start_spec(v@) == trim_start_spec(stripped));
    assert(start < n ==> !is_space_char(stripped[0]));
    assert(trim_start_spec(stripped) == stripped);

    let mut end: usize = n;
    while end > start && is_space(v[end - 1])
        invariant
            n == v@.len(),
            start <= end <= n,
            forall|j: int| end <= j < n ==> is_space_char(v@[j]),
        decreases end,
    {
        end = end - 1;
    }
    proof {
        let shifted = Seq::new((end - start) as nat, |j: int| v@[start + j]);
        assert(stripped =~= shifted + v@.subrange(end as int, n as int));
        lemma_trim_end_suffix(stripped, end - start);
        assert(stripped.subrange(0, end - start) =~= v@.subrange(start as int, end as int));
    }

    let mut r: Vec<char> = Vec::new();
    for i in start..end
        invariant
            start <= end <= n,
            n == v@.len(),
            r@ =~= v@.subrange(start as int, i as int),
    {
        r.push(v[i]);
        assert(r@ =~= v@.subrange(start as int, i + 1 as int));
    }
    assert(r@ =~= v@.subrange(start as int, end as int));
    assert(end > start ==> !is_space_char(v@.subrange(start as int, end as int).last()));
    assert(trim_end_spec(v@.subrange(start as int, end as int)) == v@.subrange(
        start as int,
        end as int,
    ));
    r
}

/// Removes leading whitespace characters only.
pub fn trim_start_chars(v: &Vec<char>) -> (r: Vec<char>)
    ensures
        r@ == trim_start_spec(v@),
{
    let n = v.len();
    let mut start: usize = 0;
    while start < n && is_space(v[start])
        invariant
            n == v@.len(),
            0 <= start <= n,
            forall|j: int| 0 <= j < start ==> is_space_char(v@[j]),
        decreases n - start,
    {
        start = start + 1;
    }
    proof {
        lemma_trim_start_prefix(v@, start as int);
    }
    let r = suffix_chars(v, start);
    assert(start < n ==> !is_space_char(v@.subrange(start as int, n as int)[0]));
    r
}

/// Removes leading and trailing whitespace from a string.
pub fn trim_spaces(s: &String) -> (r: String)
    ensures
        r@ == trim_spec(s@),
{
    let cs = chars_of(s.as_str());
    let trimmed = trim_chars(&cs);
    string_of(&trimmed)
}

/// ASCII lower-casing of one character.
pub open spec fn ascii_lower(c: char) -> char {
    if 'A' <= c && c <= 'Z' {
        ((c as u32) + 32) as char
    } else {
        c
    }
}

/// ASCII lower-casing of a character sequence.
pub open spec fn to_lower_spec(s: Seq<char>) -> Seq<char> {
    s.map_values(|c: char| ascii_lower(c))
}

fn chars_eq_ignore_case(a: char, b: char) -> (r: bool)
    ensures
        r == (ascii_lower(a) == ascii_lower(b)),
{
    let ua = a as u32;
    let ub = b as u32;
    let la = if 'A' <= a && a <= 'Z' {
        ua + 32
    } else {
        ua
    };
    let lb = if 'A' <= b && b <= 'Z' {
        ub + 32
    } else {
        ub
    };
    assert(la == ascii_lower(a) as u32);
    assert(lb == ascii_lower(b) as u32);
    la == lb
}

/// Compares two strings up to ASCII case.
pub fn eq_ignore_ascii_case(a: &String, b: &String) -> (r: bool)
    ensures
        r == (to_lower_spec(a@) == to_lower_spec(b@)),
{
    let ca = chars_of(a.as_str());
    let cb = chars_of(b.as_str());
    if ca.len() != cb.len() {
        assert(to_lower_spec(a@).len() != to_lower_spec(b@).len());
        return false;
    }
    for i in 0..ca.len()
        invariant
            ca@ == a@,
            cb@ == b@,
            ca@.len() == cb@.len(),
            forall|j: int| 0 <= j < i ==> ascii_lower(a@[j]) == ascii_lower(b@[j]),
    {
        if !chars_eq_ignore_case(ca[i], cb[i]) {
            assert(to_lower_spec(a@)[i as int] != to_lower_spec(b@)[i as int]);
            return false;
        }
    }
    assert(to_lower_spec(a@) =~= to_lower_spec(b@));
    true
}

/// Concatenates two strings.
pub fn concat_str(a: &String, b: &String) -> (r: String)
    ensures
        r@ == a@ + b@,
{
    let mut r = String::new();
    r.append(a.as_str());
    r.append(b.as_str());
    assert(r@ =~= a@ + b@);
    r
}

/// Whether `p` is a prefix of `s`.
pub open spec fn starts_with_spec(s: Seq<char>, p: Seq<char>) -> bool {
    p.len() <= s.len() && s.subrange(0, p.len() as int) == p
}

/// Executable prefix test over character vectors.
pub fn starts_with_chars(v: &Vec<char>, p: &Vec<char>) -> (r: bool)
    ensures
        r == starts_with_spec(v@, p@),
{
    let np = p.len();
    if np > v.len() {
        return false;
    }
    for i in 0..np
        invariant
            np == p@.len(),
            np <= v@.len(),
            forall|j: int| 0 <= j < i ==> v@[j] == p@[j],
    {
        if v[i] != p[i] {
            assert(v@.subrange(0, np as int) != p@) by {
                if v@.subrange(0, np as int) == p@ {
                    assert(v@.subrange(0, np as int)[i as int] == p@[i as int]);
                }
            }
            return false;
        }
    }
    assert(v@.subrange(0, np as int) =~= p@);
    true
}

/// The sequence with every trailing `c` removed.
pub open spec fn strip_trailing_spec(s: Seq<char>, c: char) -> Seq<char>
    decreases s.len(),
{
    if s.len() > 0 && s.last() == c {
        strip_trailing_spec(s.drop_last(), c)
    } else {
        s
    }
}

/// The sequence with every leading `c` removed.
pub open spec fn strip_leading_spec(s: Seq<char>, c: char) -> Seq<char>
    decreases s.len(),
{
    if s.len() > 0 && s[0] == c {
        strip_leading_spec(s.drop_first(), c)
    } else {
        s
    }
}

proof fn lemma_strip_trailing_suffix(s: Seq<char>, c: char, i: int)
    requires
        0 <= i <= s.len(),
        forall|j: int| i <= j < s.len() ==> s[j] == c,
    ensures
        strip_trailing_spec(s, c) == strip_trailing_spec(s.subrange(0, i), c),
    decreases s.len() - i,
{
    if i < s.len() {
        assert(s.last() == c);
        let t = s.drop_last();
        lemma_strip_trailing_suffix(t, c, i);
        assert(t.subrange(0, i) =~= s.subrange(0, i));
    } else {
        assert(s.subrange(0, s.len() as int) =~= s);
    }
}

proof fn lemma_strip_leading_prefix(s: Seq<char>, c: char, i: int)
    requires
        0 <= i <= s.len(),
        forall|j: int| 0 <= j < i ==> s[j] == c,
    ensures
        strip_leading_spec(s, c) == strip_leading_spec(s.subrange(i, s.len() as int), c),
    decreases i,
{
    if i > 0 {
        assert(s.len() > 0 && s[0] == c);
        let t = s.drop_first();
        lemma_strip_leading_prefix(t, c, i - 1);
        assert(t.subrange(i - 1, t.len() as int) =~= s.subrange(i, s.len() as int));
    } else {
        assert(s.subrange(0, s.len() as int) =~= s);
    }
}

/// Copies the suffix of `v` starting at `k`.
pub fn suffix_chars(v: &Vec<char>, k: usize) -> (r: Vec<char>)
    requires
        k <= v@.len(),
    ensures
        r@ == v@.subrange(k as int, v@.len() as int),
{
    let n = v.len();
    let mut r: Vec<char> = Vec::new();
    for i in k..n
        invariant
            k <= n,
            n == v@.len(),
            r@ =~= v@.subrange(k as int, i as int),
    {
        r.push(v[i]);
        assert(r@ =~= v@.subrange(k as int, i + 1 as int));
    }
    assert(r@ =~= v@.subrange(k as int, n as int));
    r
}

/// Copies the characters of `v` between `a` and `b`.
pub fn sub_chars(v: &Vec<char>, a: usize, b: usize) -> (r: Vec<char>)
    requires
        a <= b <= v@.len(),
    ensures
        r@ == v@.subrange(a as int, b as int),
{
    let mut r: Vec<char> = Vec::new();
    for i in a..b
        invariant
            a <= b <= v@.len(),
            r@ =~= v@.subrange(a as int, i as int),
    {
        r.push(v[i]);
        assert(r@ =~= v@.subrange(a as int, i + 1 as int));
    }
    assert(r@ =~= v@.subrange(a as int, b as int));
    r
}

/// Removes every trailing `c`.
pub fn strip_trailing_chars(v: &Vec<char>, c: char) -> (r: Vec<char>)
    ensures
        r@ == strip_trailing_spec(v@, c),
{
    let n = v.len();
    let mut end: usize = n;
    while end > 0 && v[end - 1] == c
        invariant
            n == v@.len(),
            end <= n,
            forall|j: int| end <= j < n ==> v@[j] == c,
        decreases end,
    {
        end = end - 1;
    }
    proof {
        lemma_strip_trailing_suffix(v@, c, end as int);
    }
    let mut r: Vec<char> = Vec::new();
    for i in 0..end
        invariant
            end <= n,
            n == v@.len(),
            r@ =~= v@.subrange(0, i as int),
    {
        r.push(v[i]);
        assert(r@ =~= v@.subrange(0, i + 1 as int));
    }
    assert(r@ =~= v@.subrange(0, end as int));
    assert(end > 0 ==> v@.subrange(0, end as int).last() != c);
    r
}

/// Removes every leading `c`.
pub fn strip_leading_chars(v: &Vec<char>, c: char) -> (r: Vec<char>)
    ensures
        r@ == strip_leading_spec(v@, c),
{
    let n = v.len();
    let mut start: usize = 0;
    while start < n && v[start] == c
        invariant
            n == v@.len(),
            start <= n,
            forall|j: int| 0 <= j < start ==> v@[j] == c,
        decreases n - start,
    {
        start = start + 1;
    }
    proof {
        lemma_strip_leading_prefix(v@, c, start as int);
    }
    let r = suffix_chars(v, start);
    assert(start < n ==> v@.subrange(start as int, n as int)[0] != c);
    r
}

/// Left-to-right, non-overlapping replacement of `pat` by `rep`.
pub open spec fn replace_spec(s: Seq<char>, pat: Seq<char>, rep: Seq<char>) -> Seq<char>
    decreases s.len(),
    when pat.len() > 0
{
    if s.len() < pat.len() {
        s
    } else if s.subrange(0, pat.len() as int) == pat {
        rep + replace_spec(s.subrange(pat.len() as int, s.len() as int), pat, rep)
    } else {
        seq![s[0]] + replace_spec(s.drop_first(), pat, rep)
    }
}

fn pat_matches_at(v: &Vec<char>, pat: &Vec<char>, i: usize) -> (r: bool)
    requires
        i + pat@.len() <= v@.len(),
    ensures
        r == (v@.subrange(i as int, i + pat@.len()) == pat@),
{
    let np = pat.len();
    let n = v.len();
    for j in 0..np
        invariant
            np == pat@.len(),
            i + np <= n,
            n == v@.len(),
            forall|k: int| 0 <= k < j ==> v@[i + k] == pat@[k],
    {
        if v[i + j] != pat[j] {
            assert(v@.subrange(i as int, i + np) != pat@) by {
                if v@.subrange(i as int, i + np) == pat@ {
                    assert(v@.subrange(i as int, i + np)[j as int] == pat@[j as int]);
                }
            }
            return false;
        }
    }
    assert(v@.subrange(i as int, i + np) =~= pat@);
    true
}

/// Appends every character of `add` to `out`.
pub fn append_chars(out: &mut Vec<char>, add: &Vec<char>)
    ensures
        final(out)@ == old(out)@ + add@,
{
    let na = add.len();
    for k in 0..na
        invariant
            na == add@.len(),
            out@ =~= old(out)@ + add@.subrange(0, k as int),
    {
        out.push(add[k]);
        assert(out@ =~= old(out)@ + add@.subrange(0, k + 1 as int));
    }
    assert(out@ =~= old(out)@ + add@);
}

/// Replaces every non-overlapping occurrence of `pat`, scanning left to right.
pub fn replace_chars(v: &Vec<char>, pat: &Vec<char>, rep: &Vec<char>) -> (r: Vec<char>)
    requires
        pat@.len() > 0,
    ensures
        r@ == replace_spec(v@, pat@, rep@),
{
    let n = v.len();
    let np = pat.len();
    let mut out: Vec<char> = Vec::new();
    let mut i: usize = 0;
    assert(v@.subrange(0, n as int) =~= v@);
    while i < n
        invariant
            n == v@.len(),
            np == pat@.len(),
            np > 0,
            i <= n,
            replace_spec(v@, pat@, rep@) == out@ + replace_spec(
                v@.subrange(i as int, n as int),
                pat@,
                rep@,
            ),
        decreases n - i,
    {
        let ghost rem = v@.subrange(i as int, n as int);
        if np <= n - i && pat_matches_at(v, pat, i) {
            proof {
                assert(rem.subrange(0, np as int) =~= v@.subrange(i as int, i + np));
                assert(rem.subrange(np as int, rem.len() as int) =~= v@.subrange(i + np, n as int));
                assert(replace_spec(rem, pat@, rep@) == rep@ + replace_spec(
                    v@.subrange(i + np, n as int),
                    pat@,
                    rep@,
                ));
            }
            append_chars(&mut out, rep);
            i = i + np;
        } else {
            proof {
                if rem.len() >= np {
                    assert(rem.subrange(0, np as int) =~= v@.subrange(i as int, i + np));
                }
                assert(rem.drop_first() =~= v@.subrange(i + 1, n as int));
                assert(replace_spec(rem, pat@, rep@) == seq![rem[0]] + replace_spec(
                    v@.subrange(i + 1, n as int),
                    pat@,
                    rep@,
                ));
            }
            out.push(v[i]);
            i = i + 1;
        }
    }
    assert(v@.subrange(n as int, n as int) =~= Seq::<char>::empty());
    out
}

/// Concatenates two character vectors.
pub fn concat_chars(a: &Vec<char>, b: &Vec<char>) -> (r: Vec<char>)
    ensures
        r@ == a@ + b@,
{
    let mut r: Vec<char> = Vec::new();
    let na = a.len();
    let nb = b.len();
    for i in 0..na
        invariant
            na == a@.len(),
            r@ =~= a@.subrange(0, i as int),
    {
        r.push(a[i]);
        assert(r@ =~= a@.subrange(0, i + 1 as int));
    }
    assert(r@ =~= a@);
    for i in 0..nb
        invariant
            nb == b@.len(),
            r@ =~= a@ + b@.subrange(0, i as int),
    {
        r.push(b[i]);
        assert(r@ =~= a@ + b@.subrange(0, i + 1 as int));
    }
    assert(r@ =~= a@ + b@);
    r
}

} // verus!
