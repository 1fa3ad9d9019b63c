//! String helpers shared by the naming transform and the token-substitution
//! pass: conversions between `String` and `Vec<char>`, UTF-8 decoding, string
//! equality, and left-to-right literal substring replacement.

use vstd::prelude::*;
use vstd::string::StrSliceExecFns;
use vstd::string::StringExecFns;
use vstd::utf8::decode_utf8;
use vstd::utf8::valid_utf8;

verus! {

/// Relies on `String::push`: appends one character to the string.
#[verifier::external_body]
pub fn push_char(s: &mut String, c: char)
    ensures
        final(s)@ == old(s)@.push(c),
{
    s.push(c)
}

/// Relies on `String::from_utf8`: returns the decoded string exactly when the
/// bytes are valid UTF-8, and an error otherwise.
#[verifier::external_body]
pub fn decode_text(bytes: &Vec<u8>) -> (r: Option<String>)
    ensures
        r is Some <==> valid_utf8(bytes@),
        r matches Some(s) ==> s@ == decode_utf8(bytes@),
{
    String::from_utf8(bytes.clone()).ok()
}

/// The characters of a string slice, in order.
pub fn str_chars(s: &str) -> (r: Vec<char>)
    ensures
        r@ == s@,
{
    let n: usize = s.unicode_len();
    let mut r: Vec<char> = Vec::new();
    let mut i: usize = 0;
    while i < n
        invariant
            n == s@.len(),
            i <= n,
            r@ == s@.take(i as int),
        decreases n - i,
    {
        r.push(s.get_char(i));
        proof {
            assert(s@.take((i + 1) as int) =~= s@.take(i as int).push(s@[i as int]));
        }
        i = i + 1;
    }
    proof {
        assert(s@.take(n as int) =~= s@);
    }
    r
}

/// The string holding exactly the given characters.
pub fn chars_to_string(cs: &Vec<char>) -> (r: String)
    ensures
        r@ == cs@,
{
    let mut r = String::new();
    let mut i: usize = 0;
    while i < cs.len()
        invariant
            i <= cs.len(),
            r@ == cs@.take(i as int),
        decreases cs.len() - i,
    {
        push_char(&mut r, cs[i]);
        proof {
            assert(cs@.take((i + 1) as int) =~= cs@.take(i as int).push(cs@[i as int]));
        }
        i = i + 1;
    }
    proof {
        assert(cs@.take(cs.len() as int) =~= cs@);
    }
    r
}

/// Whether two string slices hold the same characters.
pub fn str_eq(a: &str, b: &str) -> (r: bool)
    ensures
        r == (a@ == b@),
{
    let na: usize = a.unicode_len();
    let nb: usize = b.unicode_len();
    if na != nb {
        return false;
    }
    let mut i: usize = 0;
    while i < na
        invariant
            na == a@.len(),
            na == b@.len(),
            i <= na,
            forall|j: int| 0 <= j < i ==> a@[j] == b@[j],
        decreases na - i,
    {
        if a.get_char(i) != b.get_char(i) {
            return false;
        }
        i = i + 1;
    }
    proof {
        assert(a@ =~= b@);
    }
    true
}

/// Whether any string in the vector holds exactly the characters of `s`.
pub fn contains_str(v: &Vec<String>, s: &str) -> (r: bool)
    ensures
        r == v.deep_view().contains(s@),
{
    let mut i: usize = 0;
    while i < v.len()
        invariant
            i <= v.len(),
            forall|k: int| 0 <= k < i ==> v.deep_view()[k] != s@,
        decreases v.len() - i,
    {
        if str_eq(v[i].as_str(), s) {
            assert(v.deep_view()[i as int] == s@);
            return true;
        }
        i = i + 1;
    }
    assert(!v.deep_view().contains(s@));
    false
}

/// A copy of a vector of strings, character for character.
pub fn clone_strings(v: &Vec<String>) -> (r: Vec<String>)
    ensures
        r.deep_view() == v.deep_view(),
{
    let mut r: Vec<String> = Vec::new();
    let mut i: usize = 0;
    while i < v.len()
        invariant
            i <= v.len(),
            r.len() == i,
            forall|k: int| 0 <= k < i ==> r.deep_view()[k] == v.deep_view()[k],
        decreases v.len() - i,
    {
        let ghost pre = r.deep_view();
        r.push(v[i].clone());
        proof {
            assert(r.deep_view() =~= pre.push(v@[i as int]@));
        }
        i = i + 1;
    }
    proof {
        assert(r.deep_view() =~= v.deep_view());
    }
    r
}

/// The first position at or after `i` where `s` holds the character `c`, or
/// the length of `s` if there is none.
pub open spec fn char_pos(s: Seq<char>, c: char, i: int) -> int
    decreases s.len() - i,
{
    if i < 0 || i >= s.len() {
        s.len() as int
    } else if s[i] == c {
        i
    } else {
        char_pos(s, c, i + 1)
    }
}

pub proof fn lemma_char_pos_bounds(s: Seq<char>, c: char, i: int)
    requires
        0 <= i <= s.len(),
    ensures
        i <= char_pos(s, c, i) <= s.len(),
        forall|k: int| i <= k < char_pos(s, c, i) ==> s[k] != c,
        char_pos(s, c, i) < s.len() ==> s[char_pos(s, c, i)] == c,
    decreases s.len() - i,
{
    if i < s.len() && s[i] != c {
        lemma_char_pos_bounds(s, c, i + 1);
    }
}

proof fn lemma_char_pos_at(s: Seq<char>, c: char, i: int, p: int)
    requires
        0 <= i <= p <= s.len(),
        forall|k: int| i <= k < p ==> s[k] != c,
        p == s.len() || s[p] == c,
    ensures
        char_pos(s, c, i) == p,
    decreases p - i,
{
    if i < p {
        lemma_char_pos_at(s, c, i + 1, p);
    }
}

/// The first position at or after `from` where `cs` holds `c`.
pub fn find_char(cs: &Vec<char>, c: char, from: usize) -> (p: usize)
    requires
        from <= cs.len(),
    ensures
        p == char_pos(cs@, c, from as int),
        from <= p <= cs.len(),
{
    proof {
        lemma_char_pos_bounds(cs@, c, from as int);
    }
    let mut p: usize = from;
    while p < cs.len()
        invariant
            from <= p <= cs.len(),
            forall|k: int| from <= k < p ==> cs@[k] != c,
        decreases cs.len() - p,
    {
        if cs[p] == c {
            proof {
                lemma_char_pos_at(cs@, c, from as int, p as int);
            }
            return p;
        }
        p = p + 1;
    }
    proof {
        lemma_char_pos_at(cs@, c, from as int, p as int);
    }
    p
}

/// The string holding the characters `cs[a..b]`.
pub fn chars_range_to_string(cs: &Vec<char>, a: usize, b: usize) -> (r: String)
    requires
        a <= b <= cs.len(),
    ensures
        r@ == cs@.subrange(a as int, b as int),
{
    let mut r = String::new();
    let mut k: usize = a;
    while k < b
        invariant
            a <= k <= b <= cs.len(),
            r@ == cs@.subrange(a as int, k as int),
        decreases b - k,
    {
        push_char(&mut r, cs[k]);
        proof {
            assert(cs@.subrange(a as int, k + 1) =~= cs@.subrange(a as int, k as int).push(
                cs@[k as int],
            ));
        }
        k = k + 1;
    }
    r
}

/// Whether the characters of `s` starting at `i` begin with `pat`.
pub fn matches_at(s: &Vec<char>, i: usize, pat: &Vec<char>) -> (r: bool)
    requires
        i <= s.len(),
    ensures
        r == (i + pat.len() <= s.len() && s@.subrange(i as int, i + pat.len()) == pat@),
{
    if s.len() - i < pat.len() {
        return false;
    }
    let mut j: usize = 0;
    while j < pat.len()
        invariant
            i + pat.len() <= s.len(),
            j <= pat.len(),
            forall|k: int| 0 <= k < j ==> s@[i + k] == pat@[k],
        decreases pat.len() - j,
    {
        if s[i + j] != pat[j] {
            proof {
                assert(s@.subrange(i as int, i + pat.len())[j as int] == s@[i + j]);
            }
            return false;
        }
        j = j + 1;
    }
    proof {
        assert(s@.subrange(i as int, i + pat.len()) =~= pat@);
    }
    true
}

/// The string `s` with every occurrence of `pat` replaced by `to`, scanning
/// left to right and never rescanning replaced text, as `str::replace` does.
/// An empty pattern matches nowhere and leaves the string unchanged.
pub open spec fn replace_str(s: Seq<char>, pat: Seq<char>, to: Seq<char>) -> Seq<char>
    decreases s.len(),
{
    if pat.len() == 0 || s.len() < pat.len() {
        s
    } else if s.take(pat.len() as int) == pat {
        to + replace_str(s.skip(pat.len() as int), pat, to)
    } else {
        seq![s[0]] + replace_str(s.skip(1), pat, to)
    }
}

/// Replacement distributes over the first match or first character, which
/// lets a scanning loop peel the input one step at a time.
proof fn lemma_replace_step(s: Seq<char>, pat: Seq<char>, to: Seq<char>, i: int)
    requires
        pat.len() > 0,
        0 <= i < s.len(),
    ensures
        i + pat.len() <= s.len() && s.subrange(i, i + pat.len() as int) == pat ==> replace_str(
            s.skip(i),
            pat,
            to,
        ) == to + replace_str(s.skip(i + pat.len()), pat, to),
        !(i + pat.len() <= s.len() && s.subrange(i, i + pat.len() as int) == pat) ==> replace_str(
            s.skip(i),
            pat,
            to,
        ) == seq![s[i]] + replace_str(s.skip(i + 1), pat, to),
{
    let t = s.skip(i);
    if i + pat.len() <= s.len() && s.subrange(i, i + pat.len() as int) == pat {
        assert(t.take(pat.len() as int) =~= s.subrange(i, i + pat.len() as int));
        assert(t.skip(pat.len() as int) =~= s.skip(i + pat.len()));
    } else if t.len() < pat.len() {
        assert(t =~= seq![s[i]] + s.skip(i + 1));
        assert(replace_str(s.skip(i + 1), pat, to) == s.skip(i + 1));
    } else {
        assert(t.take(pat.len() as int) =~= s.subrange(i, i + pat.len() as int));
        assert(t[0] == s[i]);
        assert(t.skip(1) =~= s.skip(i + 1));
    }
}

/// The characters of `s` with every occurrence of `pat` replaced by `to`.
pub fn replace_chars(s: &Vec<char>, pat: &Vec<char>, to: &Vec<char>) -> (r: Vec<char>)
    requires
        pat.len() > 0,
    ensures
        r@ == replace_str(s@, pat@, to@),
{
    let mut r: Vec<char> = Vec::new();
    let mut i: usize = 0;
    proof {
        assert(s@.skip(0) =~= s@);
    }
    while i < s.len()
        invariant
            pat.len() > 0,
            i <= s.len(),
            replace_str(s@, pat@, to@) == r@ + replace_str(s@.skip(i as int), pat@, to@),
        decreases s.len() - i,
    {
        let ghost r_pre = r@;
        if matches_at(s, i, pat) {
            let mut j: usize = 0;
            while j < to.len()
                invariant
                    j <= to.len(),
                    r@ == r_pre + to@.take(j as int),
                decreases to.len() - j,
            {
                r.push(to[j]);
                proof {
                    assert(to@.take((j + 1) as int) =~= to@.take(j as int).push(to@[j as int]));
                }
                j = j + 1;
            }
            proof {
                assert(to@.take(to.len() as int) =~= to@);
                lemma_replace_step(s@, pat@, to@, i as int);
            }
            i = i + pat.len();
        } else {
            r.push(s[i]);
            proof {
                lemma_replace_step(s@, pat@, to@, i as int);
            }
            i = i + 1;
        }
    }
    proof {
        assert(s@.skip(s.len() as int) =~= Seq::<char>::empty());
        assert(replace_str(s@.skip(s.len() as int), pat@, to@) == Seq::<char>::empty());
        assert(r@ + Seq::<char>::empty() =~= r@);
    }
    r
}

} // verus!
