use vstd::prelude::*;

verus! {

// ---------------------------------------------------------------------------
// Character-sequence toolkit: searching, trimming, splitting and joining over
// `Seq<char>`, together with executable counterparts on `Vec<char>`.  All
// parsing and serialization in this crate is specified over these functions.
// ---------------------------------------------------------------------------

pub open spec fn is_space(c: char) -> bool {
    c == ' ' || c == '\t' || c == '\n' || c == '\r'
}

pub open spec fn leading_spaces(s: Seq<char>) -> nat
    decreases s.len(),
{
    if s.len() > 0 && is_space(s[0]) {
        1 + leading_spaces(s.skip(1))
    } else {
        0
    }
}

pub open spec fn trailing_spaces(s: Seq<char>) -> nat
    decreases s.len(),
{
    if s.len() > 0 && is_space(s[s.len() - 1]) {
        1 + trailing_spaces(s.take(s.len() - 1))
    } else {
        0
    }
}

/// The sequence with all leading and trailing whitespace removed.
pub open spec fn spec_trim(s: Seq<char>) -> Seq<char> {
    if leading_spaces(s) == s.len() {
        Seq::empty()
    } else {
        s.subrange(leading_spaces(s) as int, s.len() - trailing_spaces(s))
    }
}

/// `pat` occurs in `s` starting exactly at position `i`.
pub open spec fn matches_at(s: Seq<char>, i: int, pat: Seq<char>) -> bool {
    &&& 0 <= i
    &&& i + pat.len() <= s.len()
    &&& s.subrange(i, i + pat.len()) == pat
}

/// Position of the first occurrence of the non-empty pattern `pat` at or
/// after `from`, if any.
pub open spec fn find_at(s: Seq<char>, from: int, pat: Seq<char>) -> Option<int>
    decreases s.len() - from,
{
    if from < 0 || pat.len() == 0 || from + pat.len() > s.len() {
        Option::None
    } else if matches_at(s, from, pat) {
        Option::Some(from)
    } else {
        find_at(s, from + 1, pat)
    }
}

/// Position of the first occurrence of the character `c` at or after `from`.
pub open spec fn find_char(s: Seq<char>, from: int, c: char) -> Option<int>
    decreases s.len() - from,
{
    if from < 0 || from >= s.len() {
        Option::None
    } else if s[from] == c {
        Option::Some(from)
    } else {
        find_char(s, from + 1, c)
    }
}

/// Split at every occurrence of `c`; a sequence with no separator yields a
/// single part, so splitting the empty sequence yields one empty part.
pub open spec fn split_char(s: Seq<char>, c: char) -> Seq<Seq<char>>
    decreases s.len(),
{
    match find_char(s, 0, c) {
        Option::None => seq![s],
        Option::Some(i) => if 0 <= i < s.len() {
            seq![s.take(i)] + split_char(s.skip(i + 1), c)
        } else {
            seq![s]
        },
    }
}

/// Every part trimmed, order kept.
pub open spec fn trim_all(parts: Seq<Seq<char>>) -> Seq<Seq<char>> {
    parts.map_values(|p: Seq<char>| spec_trim(p))
}

/// Parts joined with the separator between consecutive parts.
pub open spec fn join_with(parts: Seq<Seq<char>>, sep: Seq<char>) -> Seq<char>
    decreases parts.len(),
{
    if parts.len() == 0 {
        Seq::empty()
    } else if parts.len() == 1 {
        parts[0]
    } else {
        parts[0] + sep + join_with(parts.skip(1), sep)
    }
}

pub open spec fn is_digit(c: char) -> bool {
    48 <= c as u32 <= 57
}

pub open spec fn is_alpha(c: char) -> bool {
    (65 <= c as u32 <= 90) || (97 <= c as u32 <= 122)
}

/// A word character of the diagram mini-language: letter, digit or
/// underscore.
pub open spec fn is_word_char(c: char) -> bool {
    is_alpha(c) || is_digit(c) || c == '_'
}

// ---------------------------------------------------------------------------
// Supporting lemmas.
// ---------------------------------------------------------------------------

/// Scanning forward over positions where the pattern does not match does not
/// change the search result.
pub proof fn lemma_find_at_skip(s: Seq<char>, from: int, i: int, pat: Seq<char>)
    requires
        0 <= from <= i,
        forall|j: int| from <= j < i ==> !matches_at(s, j, pat),
    ensures
        find_at(s, from, pat) == find_at(s, i, pat),
    decreases i - from,
{
    if from < i {
        lemma_find_at_skip(s, from + 1, i, pat);
    }
}

/// Scanning forward over characters that differ from `c` does not change the
/// search result.
pub proof fn lemma_find_char_skip(s: Seq<char>, from: int, i: int, c: char)
    requires
        0 <= from <= i,
        forall|j: int| from <= j < i && j < s.len() ==> s[j] != c,
    ensures
        find_char(s, from, c) == find_char(s, i, c),
    decreases i - from,
{
    if from < i {
        lemma_find_char_skip(s, from + 1, i, c);
    }
}

/// If a prefix of `s` consists of spaces and the next character (if any) is
/// not a space, that prefix length is exactly `leading_spaces`.
pub proof fn lemma_leading_spaces(s: Seq<char>, k: int)
    requires
        0 <= k <= s.len(),
        forall|j: int| 0 <= j < k ==> is_space(s[j]),
        k < s.len() ==> !is_space(s[k]),
    ensures
        leading_spaces(s) == k,
    decreases k,
{
    if k == 0 {
    } else {
        lemma_leading_spaces(s.skip(1), k - 1);
    }
}

/// The mirror statement for `trailing_spaces`.
pub proof fn lemma_trailing_spaces(s: Seq<char>, k: int)
    requires
        0 <= k <= s.len(),
        forall|j: int| s.len() - k <= j < s.len() ==> is_space(s[j]),
        k < s.len() ==> !is_space(s[s.len() - k - 1]),
    ensures
        trailing_spaces(s) == k,
    decreases k,
{
    if k == 0 {
    } else {
        lemma_trailing_spaces(s.take(s.len() - 1), k - 1);
    }
}

// ---------------------------------------------------------------------------
// Executable counterparts.
// ---------------------------------------------------------------------------

/// The characters of a string slice, in order.
pub fn str_to_chars(s: &str) -> (r: Vec<char>)
    ensures
        r@ == s@,
{
    let n = s.unicode_len();
    let mut r: Vec<char> = Vec::new();
    let mut i: usize = 0;
    while i < n
        invariant
            n == s@.len(),
            i <= n,
            r@ == s@.subrange(0, i as int),
        decreases n - i,
    {
        r.push(s.get_char(i));
        i = i + 1;
        proof {
            assert(r@ =~= s@.subrange(0, i as int));
        }
    }
    proof {
        assert(r@ =~= s@);
    }
    r
}

/// Relies on `String`'s `FromIterator<char>` implementation: collecting an
/// iterator of characters builds the string holding exactly those characters
/// in order.
#[verifier::external_body]
pub fn string_from_chars(v: &Vec<char>) -> (r: String)
    ensures
        r@ == v@,
{
    v.iter().collect()
}

/// Copy of `v[a..b]`.
pub fn subvec(v: &Vec<char>, a: usize, b: usize) -> (r: Vec<char>)
    requires
        a <= b <= v@.len(),
    ensures
        r@ == v@.subrange(a as int, b as int),
{
    let mut r: Vec<char> = Vec::new();
    let mut i: usize = a;
    while i < b
        invariant
            a <= i <= b <= v@.len(),
            r@ == v@.subrange(a as int, i as int),
        decreases b - i,
    {
        r.push(v[i]);
        i = i + 1;
        proof {
            assert(r@ =~= v@.subrange(a as int, i as int));
        }
    }
    r
}

/// Does `pat` occur in `v` starting at `i`?
pub fn matches_at_exec(v: &Vec<char>, i: usize, pat: &Vec<char>) -> (r: bool)
    ensures
        r == matches_at(v@, i as int, pat@),
{
    let n = v.len();
    if i > n || pat.len() > n - i {
        proof {
            assert(!matches_at(v@, i as int, pat@));
        }
        return false;
    }
    let mut j: usize = 0;
    while j < pat.len()
        invariant
            n == v@.len(),
            i + pat@.len() <= n,
            j <= pat@.len(),
            v@.subrange(i as int, i + j) == pat@.subrange(0, j as int),
        decreases pat@.len() - j,
    {
        if v[i + j] != pat[j] {
            proof {
                assert(v@.subrange(i as int, i + pat@.len())[j as int] != pat@[j as int]);
            }
            return false;
        }
        j = j + 1;
        proof {
            assert(v@.subrange(i as int, i + j) =~= pat@.subrange(0, j as int));
        }
    }
    proof {
        assert(pat@.subrange(0, pat@.len() as int) =~= pat@);
        assert(v@.subrange(i as int, i + pat@.len()) =~= pat@);
    }
    true
}

/// First occurrence of the non-empty pattern at or after `from`.
pub fn find_pat(v: &Vec<char>, from: usize, pat: &Vec<char>) -> (r: Option<usize>)
    requires
        pat@.len() > 0,
    ensures
        match r {
            Option::Some(i) => find_at(v@, from as int, pat@) == Option::Some(i as int) && from
                <= i && i + pat@.len() <= v@.len() && matches_at(v@, i as int, pat@),
            Option::None => find_at(v@, from as int, pat@) is None,
        },
{
    let mut i: usize = from;
    loop
        invariant
            from <= i,
            pat@.len() > 0,
            forall|j: int| from <= j < i ==> !matches_at(v@, j, pat@),
        decreases v@.len() + pat@.len() - i,
    {
        if i > v.len() || pat.len() > v.len() - i {
            proof {
                lemma_find_at_skip(v@, from as int, i as int, pat@);
            }
            return Option::None;
        }
        if matches_at_exec(v, i, pat) {
            proof {
                lemma_find_at_skip(v@, from as int, i as int, pat@);
            }
            return Option::Some(i);
        }
        i = i + 1;
    }
}

/// First occurrence of the character `c` at or after `from`.
pub fn find_ch(v: &Vec<char>, from: usize, c: char) -> (r: Option<usize>)
    ensures
        match r {
            Option::Some(i) => find_char(v@, from as int, c) == Option::Some(i as int) && from <= i
                && i < v@.len() && v@[i as int] == c,
            Option::None => find_char(v@, from as int, c) is None,
        },
{
    let mut i: usize = from;
    loop
        invariant
            from <= i,
            forall|j: int| from <= j < i && j < v@.len() ==> v@[j] != c,
        decreases v@.len() - i,
    {
        if i >= v.len() {
            proof {
                lemma_find_char_skip(v@, from as int, i as int, c);
            }
            return Option::None;
        }
        if v[i] == c {
            proof {
                lemma_find_char_skip(v@, from as int, i as int, c);
            }
            return Option::Some(i);
        }
        i = i + 1;
    }
}

/// The trimmed copy of `v`.
pub fn trim_vec(v: &Vec<char>) -> (r: Vec<char>)
    ensures
        r@ == spec_trim(v@),
{
    let mut a: usize = 0;
    while a < v.len() && (v[a] == ' ' || v[a] == '\t' || v[a] == '\n' || v[a] == '\r')
        invariant
            a <= v@.len(),
            forall|j: int| 0 <= j < a ==> is_space(v@[j]),
        decreases v@.len() - a,
    {
        a = a + 1;
    }
    if a == v.len() {
        proof {
            lemma_leading_spaces(v@, a as int);
        }
        return Vec::new();
    }
    proof {
        lemma_leading_spaces(v@, a as int);
    }
    let mut b: usize = v.len();
    while b > a && (v[b - 1] == ' ' || v[b - 1] == '\t' || v[b - 1] == '\n' || v[b - 1] == '\r')
        invariant
            a <= b <= v@.len(),
            forall|j: int| b <= j < v@.len() ==> is_space(v@[j]),
        decreases b,
    {
        b = b - 1;
    }
    proof {
        lemma_trailing_spaces(v@, v@.len() - b);
    }
    subvec(v, a, b)
}

/// Is `v` exactly the characters of `pat`?
pub fn eq_str(v: &Vec<char>, pat: &str) -> (r: bool)
    ensures
        r == (v@ == pat@),
{
    let p = str_to_chars(pat);
    if v.len() != p.len() {
        return false;
    }
    let r = matches_at_exec(v, 0, &p);
    proof {
        if r {
            assert(v@.subrange(0, v@.len() as int) =~= v@);
        }
        if v@ == pat@ {
            assert(v@.subrange(0, pat@.len() as int) =~= pat@);
        }
    }
    r
}

/// Append every character of `s` to `out`.
pub fn push_str_chars(out: &mut Vec<char>, s: &str)
    ensures
        final(out)@ == old(out)@ + s@,
{
    let n = s.unicode_len();
    let mut i: usize = 0;
    while i < n
        invariant
            n == s@.len(),
            i <= n,
            out@ == old(out)@ + s@.subrange(0, i as int),
        decreases n - i,
    {
        out.push(s.get_char(i));
        i = i + 1;
        proof {
            assert(out@ =~= old(out)@ + s@.subrange(0, i as int));
        }
    }
    proof {
        assert(old(out)@ + s@.subrange(0, s@.len() as int) =~= old(out)@ + s@);
    }
}

/// Append every character of `v` to `out`.
pub fn push_vec_chars(out: &mut Vec<char>, v: &Vec<char>)
    ensures
        final(out)@ == old(out)@ + v@,
{
    let mut i: usize = 0;
    while i < v.len()
        invariant
            i <= v@.len(),
            out@ == old(out)@ + v@.subrange(0, i as int),
        decreases v@.len() - i,
    {
        out.push(v[i]);
        i = i + 1;
        proof {
            assert(out@ =~= old(out)@ + v@.subrange(0, i as int));
        }
    }
    proof {
        assert(old(out)@ + v@.subrange(0, v@.len() as int) =~= old(out)@ + v@);
    }
}

} // verus!

verus! {

/// Are two string slices equal character for character?
pub fn str_eq(a: &str, b: &str) -> (r: bool)
    ensures
        r == (a@ == b@),
{
    eq_str(&str_to_chars(a), b)
}

/// Split at commas and trim every part.
pub fn split_trim_commas(t: &str) -> (r: Vec<String>)
    ensures
        r.deep_view() == trim_all(split_char(t@, ',')),
{
    let mut out: Vec<String> = Vec::new();
    let mut cur = str_to_chars(t);
    loop
        invariant
            trim_all(split_char(t@, ',')) == out.deep_view() + trim_all(split_char(cur@, ',')),
        decreases cur@.len(),
    {
        let ghost pre = out.deep_view();
        match find_ch(&cur, 0, ',') {
            Option::Some(i) => {
                let part = trim_vec(&subvec(&cur, 0, i));
                out.push(string_from_chars(&part));
                proof {
                    assert(cur@.take(i as int) =~= cur@.subrange(0, i as int));
                    assert(out.deep_view() =~= pre.push(spec_trim(cur@.take(i as int))));
                }
                let n = cur.len();
                proof {
                    assert(i < n);
                }
                let rest = subvec(&cur, i + 1, n);
                proof {
                    assert(rest@ =~= cur@.skip(i + 1));
                    assert(trim_all(seq![cur@.take(i as int)] + split_char(cur@.skip(i + 1), ','))
                        =~= seq![spec_trim(cur@.take(i as int))] + trim_all(
                        split_char(cur@.skip(i + 1), ','),
                    ));
                    assert(out.deep_view() + trim_all(split_char(rest@, ',')) =~= pre + trim_all(
                        split_char(cur@, ','),
                    ));
                }
                cur = rest;
            },
            Option::None => {
                let part = trim_vec(&cur);
                out.push(string_from_chars(&part));
                proof {
                    assert(trim_all(seq![cur@]) =~= seq![spec_trim(cur@)]);
                    assert(out.deep_view() =~= pre + trim_all(split_char(cur@, ',')));
                    assert(out.deep_view() + Seq::<Seq<char>>::empty() =~= out.deep_view());
                }
                return out;
            },
        }
    }
}

} // verus!
