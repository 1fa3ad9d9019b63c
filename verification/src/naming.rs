//! The naming transform: splitting an identifier into lowercase word parts
//! and re-joining the parts under the kebab, snake, Pascal and camel
//! conventions.
//!
//! An identifier is cut immediately before every ASCII uppercase letter and
//! every `-` or `_`; empty leading segments are dropped, every segment is
//! lowercased, and a leading delimiter is stripped from each segment.

use crate::chars::is_lower_char;
use crate::chars::is_split_char;
use crate::chars::is_upper_char;
use crate::chars::lower_char;
use crate::chars::upper_char;
use crate::strutil::push_char;
use crate::strutil::str_chars;
use vstd::prelude::*;

verus! {

/// The first position at or after `i` holding a split character, or the
/// length of the string if there is none.
pub open spec fn next_split(s: Seq<char>, i: int) -> int
    decreases s.len() - i,
{
    if i < 0 || i >= s.len() {
        s.len() as int
    } else if is_split_char(s[i]) {
        i
    } else {
        next_split(s, i + 1)
    }
}

pub proof fn lemma_next_split_bounds(s: Seq<char>, i: int)
    requires
        0 <= i <= s.len(),
    ensures
        i <= next_split(s, i) <= s.len(),
        forall|k: int| i <= k < next_split(s, i) ==> !is_split_char(s[k]),
        next_split(s, i) < s.len() ==> is_split_char(s[next_split(s, i)]),
    decreases s.len() - i,
{
    if i < s.len() && !is_split_char(s[i]) {
        lemma_next_split_bounds(s, i + 1);
    }
}

/// The exact position of the next split character determines `next_split`.
pub proof fn lemma_next_split_at(s: Seq<char>, i: int, p: int)
    requires
        0 <= i <= p <= s.len(),
        forall|k: int| i <= k < p ==> !is_split_char(s[k]),
        p == s.len() || is_split_char(s[p]),
    ensures
        next_split(s, i) == p,
    decreases p - i,
{
    if i < p {
        lemma_next_split_at(s, i + 1, p);
    }
}

/// The raw segments of a non-empty identifier: maximal chunks that start at
/// the beginning of the string or at a split character.
pub open spec fn split_rest(s: Seq<char>) -> Seq<Seq<char>>
    decreases s.len(),
    via split_rest_decreases
{
    if s.len() == 0 {
        seq![]
    } else {
        let j = next_split(s, 1);
        seq![s.take(j)] + split_rest(s.skip(j))
    }
}

#[via_fn]
proof fn split_rest_decreases(s: Seq<char>) {
    if s.len() > 0 {
        lemma_next_split_bounds(s, 1);
    }
}

/// Lowercasing of every character of a segment.
pub open spec fn lower_seq(p: Seq<char>) -> Seq<char> {
    p.map_values(|c: char| lower_char(c))
}

/// A segment with a leading `-` removed, if present.
pub open spec fn strip_dash(p: Seq<char>) -> Seq<char> {
    if p.len() > 0 && p[0] == '-' {
        p.drop_first()
    } else {
        p
    }
}

/// A segment with a leading `_` removed, if present.
pub open spec fn strip_underscore(p: Seq<char>) -> Seq<char> {
    if p.len() > 0 && p[0] == '_' {
        p.drop_first()
    } else {
        p
    }
}

/// A raw segment turned into a word part: lowercased, then rid of a leading
/// delimiter.
pub open spec fn clean_part(p: Seq<char>) -> Seq<char> {
    strip_underscore(strip_dash(lower_seq(p)))
}

/// Every raw segment of a sequence turned into a word part.
pub open spec fn clean_all(ps: Seq<Seq<char>>) -> Seq<Seq<char>> {
    ps.map_values(|p: Seq<char>| clean_part(p))
}

pub proof fn lemma_clean_all(ps: Seq<Seq<char>>)
    ensures
        clean_all(ps).len() == ps.len(),
        forall|i: int| 0 <= i < ps.len() ==> clean_all(ps)[i] == clean_part(ps[i]),
{
}

pub proof fn lemma_clean_all_add(a: Seq<Seq<char>>, b: Seq<Seq<char>>)
    ensures
        clean_all(a + b) == clean_all(a) + clean_all(b),
{
    lemma_clean_all(a);
    lemma_clean_all(b);
    lemma_clean_all(a + b);
    assert forall|k: int| 0 <= k < a.len() + b.len() implies clean_all(a + b)[k] == (clean_all(a)
        + clean_all(b))[k] by {
        if k < a.len() {
            assert((a + b)[k] == a[k]);
        } else {
            assert((a + b)[k] == b[k - a.len()]);
        }
    }
    assert(clean_all(a + b) =~= clean_all(a) + clean_all(b));
}

/// The ordered word parts of an identifier. The empty identifier yields a
/// single empty part.
pub open spec fn split_parts(s: Seq<char>) -> Seq<Seq<char>> {
    if s.len() == 0 {
        seq![Seq::<char>::empty()]
    } else {
        clean_all(split_rest(s))
    }
}

/// Word parts joined with a separator between consecutive parts.
pub open spec fn join_parts(ps: Seq<Seq<char>>, sep: Seq<char>) -> Seq<char>
    decreases ps.len(),
{
    if ps.len() == 0 {
        Seq::<char>::empty()
    } else if ps.len() == 1 {
        ps[0]
    } else {
        ps[0] + sep + join_parts(ps.drop_first(), sep)
    }
}

/// A word part with its first character uppercased.
pub open spec fn cap_part(p: Seq<char>) -> Seq<char> {
    if p.len() == 0 {
        p
    } else {
        seq![upper_char(p[0])] + p.drop_first()
    }
}

/// The concatenation of a sequence of segments.
pub open spec fn concat_all(ps: Seq<Seq<char>>) -> Seq<char>
    decreases ps.len(),
{
    if ps.len() == 0 {
        Seq::<char>::empty()
    } else {
        ps[0] + concat_all(ps.drop_first())
    }
}

/// A string with its first character lowercased.
pub open spec fn lower_first(t: Seq<char>) -> Seq<char> {
    if t.len() == 0 {
        t
    } else {
        seq![lower_char(t[0])] + t.drop_first()
    }
}

/// The kebab-case rendering of an identifier.
pub open spec fn kebab_of(s: Seq<char>) -> Seq<char> {
    join_parts(split_parts(s), seq!['-'])
}

/// The snake_case rendering of an identifier.
pub open spec fn snake_of(s: Seq<char>) -> Seq<char> {
    join_parts(split_parts(s), seq!['_'])
}

/// The PascalCase rendering of an identifier.
pub open spec fn pascal_of(s: Seq<char>) -> Seq<char> {
    concat_all(cap_all(split_parts(s)))
}

/// The camelCase rendering of an identifier.
pub open spec fn camel_of(s: Seq<char>) -> Seq<char> {
    lower_first(pascal_of(s))
}

/// A chunk of a raw identifier: non-empty, with no split character after its
/// first position. `split_rest` cuts a string exactly into such chunks.
pub open spec fn chunk(c: Seq<char>) -> bool {
    c.len() > 0 && forall|k: int| 1 <= k < c.len() ==> !is_split_char(c[k])
}

/// A word as the naming laws use it: non-empty, starting with an ASCII
/// lowercase letter, containing no split character.
pub open spec fn lc_word(w: Seq<char>) -> bool {
    w.len() > 0 && is_lower_char(w[0]) && forall|k: int| 0 <= k < w.len() ==> !is_split_char(w[k])
}

/// Each word prefixed with the separator character.
pub open spec fn sep_chunks(ws: Seq<Seq<char>>, sep: char) -> Seq<Seq<char>> {
    ws.map_values(|w: Seq<char>| seq![sep] + w)
}

pub proof fn lemma_sep_chunks(ws: Seq<Seq<char>>, sep: char)
    ensures
        sep_chunks(ws, sep).len() == ws.len(),
        forall|i: int| 0 <= i < ws.len() ==> sep_chunks(ws, sep)[i] == seq![sep] + ws[i],
{
}

/// Each word with its first character uppercased.
pub open spec fn cap_all(ws: Seq<Seq<char>>) -> Seq<Seq<char>> {
    ws.map_values(|w: Seq<char>| cap_part(w))
}

pub proof fn lemma_cap_all(ws: Seq<Seq<char>>)
    ensures
        cap_all(ws).len() == ws.len(),
        forall|i: int| 0 <= i < ws.len() ==> cap_all(ws)[i] == cap_part(ws[i]),
{
}

/// Splitting the concatenation of chunks recovers exactly the chunks,
/// provided every chunk after the first opens with a split character.
proof fn lemma_split_chunks(cs: Seq<Seq<char>>)
    requires
        cs.len() > 0,
        forall|i: int| 0 <= i < cs.len() ==> chunk(#[trigger] cs[i]),
        forall|i: int| 1 <= i < cs.len() ==> is_split_char(#[trigger] cs[i][0]),
    ensures
        split_rest(concat_all(cs)) == cs,
    decreases cs.len(),
{
    let s = concat_all(cs);
    let c0 = cs[0];
    if cs.len() == 1 {
        assert(cs.drop_first() =~= Seq::<Seq<char>>::empty());
        assert(concat_all(cs.drop_first()) == Seq::<char>::empty());
        assert(s =~= c0);
        lemma_next_split_at(s, 1, s.len() as int);
        assert(split_rest(s) == seq![s.take(s.len() as int)] + split_rest(
            s.skip(s.len() as int),
        ));
        assert(s.take(s.len() as int) =~= c0);
        assert(s.skip(s.len() as int) =~= Seq::<char>::empty());
        assert(seq![c0] + Seq::<Seq<char>>::empty() =~= cs);
    } else {
        let rest = concat_all(cs.drop_first());
        assert(s == c0 + rest);
        assert(cs.drop_first()[0] == cs[1]);
        assert(rest == cs[1] + concat_all(cs.drop_first().drop_first()));
        assert(rest.len() > 0);
        assert(rest[0] == cs[1][0]);
        assert forall|k: int| 1 <= k < c0.len() implies !is_split_char(s[k]) by {
            assert(s[k] == c0[k]);
        }
        assert(s[c0.len() as int] == rest[0]);
        lemma_next_split_at(s, 1, c0.len() as int);
        assert(split_rest(s) == seq![s.take(c0.len() as int)] + split_rest(
            s.skip(c0.len() as int),
        ));
        assert(s.take(c0.len() as int) =~= c0);
        assert(s.skip(c0.len() as int) =~= rest);
        assert forall|i: int| 0 <= i < cs.drop_first().len() implies chunk(
            #[trigger] cs.drop_first()[i],
        ) by {
            assert(cs.drop_first()[i] == cs[i + 1]);
        }
        assert forall|i: int| 1 <= i < cs.drop_first().len() implies is_split_char(
            #[trigger] cs.drop_first()[i][0],
        ) by {
            assert(cs.drop_first()[i] == cs[i + 1]);
        }
        lemma_split_chunks(cs.drop_first());
        assert(seq![c0] + cs.drop_first() =~= cs);
    }
}

/// Cleaning fixes a word that holds no split characters.
proof fn lemma_clean_word(w: Seq<char>)
    requires
        forall|k: int| 0 <= k < w.len() ==> !is_split_char(#[trigger] w[k]),
    ensures
        clean_part(w) == w,
{
    assert(lower_seq(w) =~= w);
}

/// Cleaning strips a leading separator and fixes the word after it.
proof fn lemma_clean_sep_word(sep: char, w: Seq<char>)
    requires
        sep == '-' || sep == '_',
        forall|k: int| 0 <= k < w.len() ==> !is_split_char(#[trigger] w[k]),
    ensures
        clean_part(seq![sep] + w) == w,
{
    let p = seq![sep] + w;
    assert(lower_seq(p) =~= p);
    if sep == '-' {
        assert(strip_dash(p) =~= w);
        assert(strip_underscore(w) == w);
    } else {
        assert(strip_dash(p) == p);
        assert(strip_underscore(p) =~= w);
    }
}

/// Cleaning undoes capitalization of a word that holds no split characters.
proof fn lemma_clean_cap(w: Seq<char>)
    requires
        w.len() > 0,
        forall|k: int| 0 <= k < w.len() ==> !is_split_char(#[trigger] w[k]),
    ensures
        clean_part(cap_part(w)) == w,
{
    let c = cap_part(w);
    crate::chars::lemma_case_roundtrip(w[0]);
    assert(lower_seq(c) =~= w);
    assert(strip_dash(w) == w);
    assert(strip_underscore(w) == w);
}

/// Joining words with a separator concatenates the first word with the
/// remaining words, each prefixed by the separator.
proof fn lemma_join_is_concat(ws: Seq<Seq<char>>, sep: char)
    requires
        ws.len() > 0,
    ensures
        join_parts(ws, seq![sep]) == concat_all(seq![ws[0]] + sep_chunks(ws.drop_first(), sep)),
    decreases ws.len(),
{
    lemma_sep_chunks(ws.drop_first(), sep);
    if ws.len() == 1 {
        assert(sep_chunks(ws.drop_first(), sep) =~= Seq::<Seq<char>>::empty());
        assert(seq![ws[0]] + Seq::<Seq<char>>::empty() =~= seq![ws[0]]);
        assert(seq![ws[0]].drop_first() =~= Seq::<Seq<char>>::empty());
        assert(concat_all(seq![ws[0]]) == ws[0] + concat_all(Seq::<Seq<char>>::empty()));
        assert(ws[0] + Seq::<char>::empty() =~= ws[0]);
    } else {
        let tail = ws.drop_first();
        lemma_join_is_concat(tail, sep);
        lemma_sep_chunks(tail.drop_first(), sep);
        let c = concat_all(sep_chunks(tail.drop_first(), sep));
        // Unfold the right-hand side of the induction hypothesis.
        let ihc = seq![tail[0]] + sep_chunks(tail.drop_first(), sep);
        assert(ihc[0] == tail[0]);
        assert(ihc.drop_first() =~= sep_chunks(tail.drop_first(), sep));
        assert(join_parts(tail, seq![sep]) == tail[0] + c);
        // Unfold the right-hand side of the conclusion.
        let cc = seq![ws[0]] + sep_chunks(tail, sep);
        assert(cc[0] == ws[0]);
        assert(cc.drop_first() =~= sep_chunks(tail, sep));
        assert(concat_all(cc) == ws[0] + concat_all(sep_chunks(tail, sep)));
        assert(sep_chunks(tail, sep)[0] == seq![sep] + tail[0]);
        assert(sep_chunks(tail, sep).drop_first() =~= sep_chunks(tail.drop_first(), sep));
        assert(concat_all(sep_chunks(tail, sep)) == (seq![sep] + tail[0]) + c);
        assert(ws[0] + ((seq![sep] + tail[0]) + c) =~= (ws[0] + seq![sep] + (tail[0] + c)));
    }
}

/// The chunks of a mixed-convention identifier built from the given words:
/// the first word stands plain, and each later word is preceded by `-`,
/// preceded by `_`, or capitalized — independently per word.
pub open spec fn mixed_chunks(ws: Seq<Seq<char>>, cs: Seq<Seq<char>>) -> bool {
    &&& cs.len() == ws.len()
    &&& cs.len() > 0
    &&& cs[0] == ws[0]
    &&& forall|i: int|
        1 <= i < ws.len() ==> (#[trigger] cs[i] == seq!['-'] + ws[i] || cs[i] == seq!['_'] + ws[i]
            || cs[i] == cap_part(ws[i]))
}

/// Splitting recovers the words of an identifier assembled from lowercase
/// words under any mixture of the delimiter and capitalization joins.
pub proof fn lemma_split_recovers_mixed(ws: Seq<Seq<char>>, cs: Seq<Seq<char>>)
    requires
        forall|i: int| 0 <= i < ws.len() ==> lc_word(#[trigger] ws[i]),
        mixed_chunks(ws, cs),
    ensures
        split_parts(concat_all(cs)) == ws,
{
    let s = concat_all(cs);
    assert forall|i: int| 0 <= i < cs.len() implies chunk(#[trigger] cs[i]) by {
        assert(lc_word(ws[i]));
        if i == 0 {
            assert(cs[0] == ws[0]);
        } else if cs[i] == seq!['-'] + ws[i] || cs[i] == seq!['_'] + ws[i] {
            assert forall|k: int| 1 <= k < cs[i].len() implies !is_split_char(cs[i][k]) by {
                assert(cs[i][k] == ws[i][k - 1]);
            }
        } else {
            assert(cs[i] == cap_part(ws[i]));
            assert forall|k: int| 1 <= k < cs[i].len() implies !is_split_char(cs[i][k]) by {
                assert(cs[i][k] == ws[i][k]);
            }
        }
    }
    assert forall|i: int| 1 <= i < cs.len() implies is_split_char(#[trigger] cs[i][0]) by {
        assert(lc_word(ws[i]));
        if cs[i] == seq!['-'] + ws[i] {
            assert(cs[i][0] == '-');
        } else if cs[i] == seq!['_'] + ws[i] {
            assert(cs[i][0] == '_');
        } else {
            assert(cs[i] == cap_part(ws[i]));
            crate::chars::lemma_case_roundtrip(ws[i][0]);
            assert(cs[i][0] == upper_char(ws[i][0]));
        }
    }
    lemma_split_chunks(cs);
    assert(s.len() >= cs[0].len());
    assert(s.len() > 0);
    lemma_clean_all(cs);
    assert forall|i: int| 0 <= i < cs.len() implies clean_all(cs)[i] == ws[i] by {
        assert(lc_word(ws[i]));
        if i == 0 {
            lemma_clean_word(ws[0]);
        } else if cs[i] == seq!['-'] + ws[i] {
            lemma_clean_sep_word('-', ws[i]);
        } else if cs[i] == seq!['_'] + ws[i] {
            lemma_clean_sep_word('_', ws[i]);
        } else {
            assert(cs[i] == cap_part(ws[i]));
            lemma_clean_cap(ws[i]);
        }
    }
    assert(split_parts(s) =~= ws);
}

/// Splitting recovers the words of an identifier assembled from lowercase
/// words by kebab-case, snake_case, PascalCase or camelCase joining, and the
/// camelCase rendering of such words leaves the first word uncapitalized.
pub proof fn lemma_split_recovers_words(ws: Seq<Seq<char>>)
    requires
        ws.len() > 0,
        forall|i: int| 0 <= i < ws.len() ==> lc_word(#[trigger] ws[i]),
    ensures
        split_parts(join_parts(ws, seq!['-'])) == ws,
        split_parts(join_parts(ws, seq!['_'])) == ws,
        split_parts(concat_all(cap_all(ws))) == ws,
        lower_first(concat_all(cap_all(ws))) == concat_all(seq![ws[0]] + cap_all(ws.drop_first())),
        split_parts(concat_all(seq![ws[0]] + cap_all(ws.drop_first()))) == ws,
{
    lemma_split_recovers_join(ws, '-');
    lemma_split_recovers_join(ws, '_');
    lemma_split_recovers_pascal(ws);
    lemma_split_recovers_camel(ws);
}

/// The kebab and snake halves of the word-recovery law.
proof fn lemma_split_recovers_join(ws: Seq<Seq<char>>, sep: char)
    requires
        ws.len() > 0,
        sep == '-' || sep == '_',
        forall|i: int| 0 <= i < ws.len() ==> lc_word(#[trigger] ws[i]),
    ensures
        split_parts(join_parts(ws, seq![sep])) == ws,
{
    let chunks = seq![ws[0]] + sep_chunks(ws.drop_first(), sep);
    let s = join_parts(ws, seq![sep]);
    lemma_join_is_concat(ws, sep);
    lemma_sep_chunks(ws.drop_first(), sep);
    assert forall|i: int| 0 <= i < chunks.len() implies chunk(#[trigger] chunks[i]) by {
        if i == 0 {
            assert(chunks[0] == ws[0]);
        } else {
            assert(chunks[i] == seq![sep] + ws[i]);
            assert forall|k: int| 1 <= k < chunks[i].len() implies !is_split_char(
                chunks[i][k],
            ) by {
                assert(chunks[i][k] == ws[i][k - 1]);
            }
        }
    }
    assert forall|i: int| 1 <= i < chunks.len() implies is_split_char(#[trigger] chunks[i][0]) by {
        assert(chunks[i] == seq![sep] + ws[i]);
        assert(chunks[i][0] == sep);
    }
    lemma_split_chunks(chunks);
    assert(s == concat_all(chunks));
    assert(s.len() >= ws[0].len());
    assert(s.len() > 0);
    lemma_clean_all(chunks);
    assert forall|i: int| 0 <= i < chunks.len() implies clean_all(chunks)[i] == ws[i] by {
        if i == 0 {
            lemma_clean_word(ws[0]);
        } else {
            assert(chunks[i] == seq![sep] + ws[i]);
            lemma_clean_sep_word(sep, ws[i]);
        }
    }
    assert(split_parts(s) =~= ws);
}

/// The PascalCase half of the word-recovery law.
proof fn lemma_split_recovers_pascal(ws: Seq<Seq<char>>)
    requires
        ws.len() > 0,
        forall|i: int| 0 <= i < ws.len() ==> lc_word(#[trigger] ws[i]),
    ensures
        split_parts(concat_all(cap_all(ws))) == ws,
{
    let chunks = cap_all(ws);
    let s = concat_all(chunks);
    lemma_cap_all(ws);
    assert forall|i: int| 0 <= i < chunks.len() implies chunk(#[trigger] chunks[i]) by {
        assert(chunks[i] == cap_part(ws[i]));
        assert forall|k: int| 1 <= k < chunks[i].len() implies !is_split_char(chunks[i][k]) by {
            assert(chunks[i][k] == ws[i][k]);
        }
    }
    assert forall|i: int| 1 <= i < chunks.len() implies is_split_char(#[trigger] chunks[i][0]) by {
        assert(chunks[i] == cap_part(ws[i]));
        crate::chars::lemma_case_roundtrip(ws[i][0]);
        assert(chunks[i][0] == upper_char(ws[i][0]));
    }
    lemma_split_chunks(chunks);
    assert(chunks[0].len() == ws[0].len());
    assert(s.len() >= chunks[0].len());
    assert(s.len() > 0);
    lemma_clean_all(chunks);
    assert forall|i: int| 0 <= i < chunks.len() implies clean_all(chunks)[i] == ws[i] by {
        assert(chunks[i] == cap_part(ws[i]));
        lemma_clean_cap(ws[i]);
    }
    assert(split_parts(s) =~= ws);
}

/// The camelCase half of the word-recovery law.
proof fn lemma_split_recovers_camel(ws: Seq<Seq<char>>)
    requires
        ws.len() > 0,
        forall|i: int| 0 <= i < ws.len() ==> lc_word(#[trigger] ws[i]),
    ensures
        lower_first(concat_all(cap_all(ws))) == concat_all(seq![ws[0]] + cap_all(ws.drop_first())),
        split_parts(concat_all(seq![ws[0]] + cap_all(ws.drop_first()))) == ws,
{
    let chunks = seq![ws[0]] + cap_all(ws.drop_first());
    let s = concat_all(chunks);
    lemma_cap_all(ws.drop_first());
    lemma_cap_all(ws);
    assert forall|i: int| 0 <= i < chunks.len() implies chunk(#[trigger] chunks[i]) by {
        if i == 0 {
            assert(chunks[0] == ws[0]);
        } else {
            assert(chunks[i] == cap_part(ws[i]));
            assert forall|k: int| 1 <= k < chunks[i].len() implies !is_split_char(
                chunks[i][k],
            ) by {
                assert(chunks[i][k] == ws[i][k]);
            }
        }
    }
    assert forall|i: int| 1 <= i < chunks.len() implies is_split_char(#[trigger] chunks[i][0]) by {
        assert(chunks[i] == cap_part(ws[i]));
        crate::chars::lemma_case_roundtrip(ws[i][0]);
        assert(chunks[i][0] == upper_char(ws[i][0]));
    }
    lemma_split_chunks(chunks);
    assert(s.len() >= ws[0].len());
    assert(s.len() > 0);
    lemma_clean_all(chunks);
    assert forall|i: int| 0 <= i < chunks.len() implies clean_all(chunks)[i] == ws[i] by {
        if i == 0 {
            lemma_clean_word(ws[0]);
        } else {
            assert(chunks[i] == cap_part(ws[i]));
            lemma_clean_cap(ws[i]);
        }
    }
    assert(split_parts(s) =~= ws);
    // The camelCase string is the PascalCase string with its head lowercased.
    let pchunks = cap_all(ws);
    let p = concat_all(pchunks);
    assert(pchunks[0] == cap_part(ws[0]));
    assert(p == cap_part(ws[0]) + concat_all(pchunks.drop_first()));
    assert(pchunks.drop_first() =~= cap_all(ws.drop_first()));
    assert(chunks[0] == ws[0]);
    assert(chunks.drop_first() =~= cap_all(ws.drop_first()));
    assert(s == ws[0] + concat_all(cap_all(ws.drop_first())));
    crate::chars::lemma_case_roundtrip(ws[0][0]);
    assert(p[0] == upper_char(ws[0][0]));
    assert(lower_first(p) =~= s);
}

/// Splitting the PascalCase rendering of an identifier gives back the
/// identifier's word parts, whenever no part is empty and every part after
/// the first opens with an ASCII lowercase letter.
pub proof fn lemma_pascal_resplit(s: Seq<char>)
    requires
        forall|i: int| 0 <= i < split_parts(s).len() ==> #[trigger] split_parts(s)[i].len() > 0,
        forall|i: int| 1 <= i < split_parts(s).len() ==> is_lower_char(
            #[trigger] split_parts(s)[i][0],
        ),
    ensures
        split_parts(pascal_of(s)) == split_parts(s),
{
    let ps = split_parts(s);
    lemma_split_parts_plain(s);
    let chunks = cap_all(ps);
    lemma_cap_all(ps);
    assert forall|i: int| 0 <= i < chunks.len() implies chunk(#[trigger] chunks[i]) by {
        assert(chunks[i] == cap_part(ps[i]));
        assert forall|k: int| 1 <= k < chunks[i].len() implies !is_split_char(chunks[i][k]) by {
            assert(chunks[i][k] == ps[i][k]);
        }
    }
    assert forall|i: int| 1 <= i < chunks.len() implies is_split_char(#[trigger] chunks[i][0]) by {
        assert(chunks[i] == cap_part(ps[i]));
        crate::chars::lemma_case_roundtrip(ps[i][0]);
        assert(chunks[i][0] == upper_char(ps[i][0]));
    }
    assert(ps.len() > 0) by {
        lemma_split_parts_len(s);
    }
    lemma_split_chunks(chunks);
    let t = concat_all(chunks);
    assert(t.len() >= chunks[0].len());
    assert(chunks[0].len() == ps[0].len());
    assert(t.len() > 0);
    lemma_clean_all(chunks);
    assert forall|i: int| 0 <= i < chunks.len() implies clean_all(chunks)[i] == ps[i] by {
        assert(chunks[i] == cap_part(ps[i]));
        lemma_clean_cap(ps[i]);
    }
    assert(split_parts(t) =~= ps);
}

/// An identifier always has at least one word part.
pub proof fn lemma_split_parts_len(s: Seq<char>)
    ensures
        split_parts(s).len() >= 1,
{
    if s.len() > 0 {
        lemma_clean_all(split_rest(s));
    }
}

/// No word part of an identifier contains a split character.
pub proof fn lemma_split_parts_plain(s: Seq<char>)
    ensures
        forall|i: int, k: int|
            0 <= i < split_parts(s).len() && 0 <= k < split_parts(s)[i].len() ==> !is_split_char(
                #[trigger] split_parts(s)[i][k],
            ),
{
    if s.len() == 0 {
    } else {
        lemma_split_rest_chunks(s);
        lemma_clean_all(split_rest(s));
        assert forall|i: int, k: int|
            0 <= i < split_parts(s).len() && 0 <= k < split_parts(s)[i].len() implies !is_split_char(
            split_parts(s)[i][k],
        ) by {
            assert(split_parts(s)[i] == clean_part(split_rest(s)[i]));
            lemma_clean_chunk_plain(split_rest(s)[i]);
        }
    }
}

/// Every raw segment of a non-empty identifier is a chunk.
proof fn lemma_split_rest_chunks(s: Seq<char>)
    requires
        s.len() > 0,
    ensures
        forall|i: int| 0 <= i < split_rest(s).len() ==> chunk(#[trigger] split_rest(s)[i]),
    decreases s.len(),
{
    lemma_next_split_bounds(s, 1);
    let j = next_split(s, 1);
    let head = s.take(j);
    let rest = s.skip(j);
    assert(chunk(head)) by {
        assert forall|k: int| 1 <= k < head.len() implies !is_split_char(head[k]) by {
            assert(head[k] == s[k]);
        }
    }
    if rest.len() > 0 {
        lemma_split_rest_chunks(rest);
    }
    assert forall|i: int| 0 <= i < split_rest(s).len() implies chunk(#[trigger] split_rest(s)[i]) by {
        if i == 0 {
            assert(split_rest(s)[0] == head);
        } else {
            assert(split_rest(s)[i] == split_rest(rest)[i - 1]);
        }
    }
}

/// A cleaned chunk contains no split characters.
proof fn lemma_clean_chunk_plain(c: Seq<char>)
    requires
        chunk(c),
    ensures
        forall|k: int| 0 <= k < clean_part(c).len() ==> !is_split_char(#[trigger] clean_part(c)[k]),
{
    let l = lower_seq(c);
    assert(l.len() == c.len());
    assert forall|k: int| 1 <= k < l.len() implies !is_split_char(l[k]) by {
        assert(l[k] == lower_char(c[k]));
    }
    assert(!is_upper_char(l[0])) by {
        assert(l[0] == lower_char(c[0]));
    }
    let d = strip_dash(l);
    let u = strip_underscore(d);
    if l[0] == '-' {
        assert(d =~= l.drop_first());
        assert(forall|k: int| 0 <= k < d.len() ==> !is_split_char(#[trigger] d[k]));
        assert(u == d);
    } else if l[0] == '_' {
        assert(d == l);
        assert(u =~= l.drop_first());
        assert(forall|k: int| 0 <= k < u.len() ==> !is_split_char(#[trigger] u[k]));
    } else {
        assert(d == l);
        assert(u == l);
        assert(forall|k: int| 0 <= k < u.len() ==> !is_split_char(#[trigger] u[k]));
    }
}


/// The ASCII lowercasing of a whole string.
pub fn lower_string(s: &str) -> (r: String)
    ensures
        r@ == lower_seq(s@),
{
    let cs = str_chars(s);
    let mut r = String::new();
    let mut k: usize = 0;
    while k < cs.len()
        invariant
            cs@ == s@,
            k <= cs.len(),
            r@ == lower_seq(s@).take(k as int),
        decreases cs.len() - k,
    {
        let c = cs[k];
        if 'A' <= c && c <= 'Z' {
            push_char(&mut r, ((c as u8) + 32) as char);
        } else {
            push_char(&mut r, c);
        }
        proof {
            assert(lower_seq(s@).take(k + 1) =~= lower_seq(s@).take(k as int).push(
                lower_char(s@[k as int]),
            ));
        }
        k = k + 1;
    }
    proof {
        assert(lower_seq(s@).take(cs.len() as int) =~= lower_seq(s@));
    }
    r
}

/// The first position at or after `from` in `cs` holding a split character.
fn find_next_split(cs: &Vec<char>, from: usize) -> (j: usize)
    requires
        from <= cs.len(),
    ensures
        j == next_split(cs@, from as int),
        from <= j <= cs.len(),
{
    proof {
        lemma_next_split_bounds(cs@, from as int);
    }
    let mut j: usize = from;
    while j < cs.len()
        invariant
            from <= j <= cs.len(),
            forall|k: int| from <= k < j ==> !is_split_char(cs@[k]),
        decreases cs.len() - j,
    {
        let c = cs[j];
        if c == '-' || c == '_' || ('A' <= c && c <= 'Z') {
            proof {
                lemma_next_split_at(cs@, from as int, j as int);
            }
            return j;
        }
        j = j + 1;
    }
    proof {
        lemma_next_split_at(cs@, from as int, j as int);
    }
    j
}

/// The word part for the raw segment `cs[i..j]`: lowercased, with a leading
/// delimiter stripped.
fn clean_segment(cs: &Vec<char>, i: usize, j: usize) -> (part: String)
    requires
        i <= j <= cs.len(),
    ensures
        part@ == clean_part(cs@.subrange(i as int, j as int)),
{
    let ghost seg = cs@.subrange(i as int, j as int);
    let mut lowered: Vec<char> = Vec::new();
    let mut k: usize = i;
    while k < j
        invariant
            i <= k <= j <= cs.len(),
            seg == cs@.subrange(i as int, j as int),
            lowered@ == lower_seq(seg).take(k - i),
        decreases j - k,
    {
        let c = cs[k];
        if 'A' <= c && c <= 'Z' {
            lowered.push(((c as u8) + 32) as char);
        } else {
            lowered.push(c);
        }
        proof {
            assert(lower_seq(seg).take(k + 1 - i) =~= lower_seq(seg).take(k - i).push(
                lower_char(seg[k - i]),
            ));
        }
        k = k + 1;
    }
    proof {
        assert(lower_seq(seg).take(j - i) =~= lower_seq(seg));
    }
    let mut start: usize = 0;
    if lowered.len() > 0 && lowered[0] == '-' {
        start = 1;
    }
    proof {
        assert(lowered@.skip(start as int) =~= strip_dash(lowered@));
    }
    let ghost stripped = strip_dash(lowered@);
    if lowered.len() > start && lowered[start] == '_' {
        proof {
            assert(stripped[0] == '_');
        }
        start = start + 1;
    }
    proof {
        assert(lowered@.skip(start as int) =~= strip_underscore(stripped));
    }
    let mut out = String::new();
    let mut k2: usize = start;
    while k2 < lowered.len()
        invariant
            start <= k2 <= lowered.len(),
            out@ == lowered@.subrange(start as int, k2 as int),
        decreases lowered.len() - k2,
    {
        push_char(&mut out, lowered[k2]);
        proof {
            assert(lowered@.subrange(start as int, k2 + 1) =~= lowered@.subrange(
                start as int,
                k2 as int,
            ).push(lowered@[k2 as int]));
        }
        k2 = k2 + 1;
    }
    proof {
        assert(lowered@.subrange(start as int, lowered@.len() as int) =~= lowered@.skip(
            start as int,
        ));
    }
    out
}

/// The ordered word parts of an identifier, as strings.
pub fn split_identifier(s: &str) -> (r: Vec<String>)
    ensures
        r.deep_view() == split_parts(s@),
{
    let cs = str_chars(s);
    let mut r: Vec<String> = Vec::new();
    if cs.len() == 0 {
        r.push(String::new());
        proof {
            assert(r.deep_view() =~= split_parts(s@));
        }
        return r;
    }
    let mut i: usize = 0;
    proof {
        assert(s@.skip(0) =~= s@);
    }
    while i < cs.len()
        invariant
            cs@ == s@,
            i <= cs.len(),
            cs.len() > 0,
            clean_all(split_rest(s@)) == r.deep_view() + clean_all(split_rest(s@.skip(i as int))),
        decreases cs.len() - i,
    {
        let j = find_next_split(&cs, i + 1);
        let part = clean_segment(&cs, i, j);
        let ghost r_pre = r.deep_view();
        r.push(part);
        proof {
            let t = s@.skip(i as int);
            lemma_next_split_bounds(s@, i + 1);
            assert forall|k: int| 1 <= k < j - i implies !is_split_char(t[k]) by {
                assert(t[k] == s@[i + k]);
            }
            if j < s@.len() {
                assert(is_split_char(t[j - i]));
            }
            lemma_next_split_at(t, 1, j - i);
            assert(split_rest(t) == seq![t.take(j - i)] + split_rest(t.skip(j - i)));
            assert(t.take(j - i) =~= s@.subrange(i as int, j as int));
            assert(t.skip(j - i) =~= s@.skip(j as int));
            lemma_clean_all_add(seq![t.take(j - i)], split_rest(t.skip(j - i)));
            lemma_clean_all(seq![t.take(j - i)]);
            assert(clean_all(seq![t.take(j - i)]) =~= seq![
                clean_part(s@.subrange(i as int, j as int)),
            ]);
            assert(r.deep_view() =~= r_pre.push(part@));
            assert(r.deep_view() + clean_all(split_rest(s@.skip(j as int))) =~= r_pre + clean_all(
                split_rest(t),
            ));
        }
        i = j;
    }
    proof {
        assert(s@.skip(cs.len() as int) =~= Seq::<char>::empty());
        assert(clean_all(split_rest(s@.skip(cs.len() as int))) =~= Seq::<Seq<char>>::empty());
        assert(r.deep_view() + Seq::<Seq<char>>::empty() =~= r.deep_view());
    }
    r
}

/// Joining distributes over adding a part at the end.
proof fn lemma_join_snoc(ps: Seq<Seq<char>>, sep: Seq<char>)
    requires
        ps.len() >= 2,
    ensures
        join_parts(ps, sep) == join_parts(ps.drop_last(), sep) + sep + ps.last(),
    decreases ps.len(),
{
    if ps.len() == 2 {
        assert(ps.drop_first().len() == 1);
        assert(ps.drop_first()[0] == ps[1]);
        assert(join_parts(ps.drop_first(), sep) == ps[1]);
        assert(ps.drop_last() =~= seq![ps[0]]);
        assert(join_parts(ps.drop_last(), sep) == ps[0]);
        assert(ps.last() == ps[1]);
    } else {
        lemma_join_snoc(ps.drop_first(), sep);
        assert(ps.drop_first().drop_last() =~= ps.drop_last().drop_first());
        assert(ps.drop_last()[0] == ps[0]);
        assert(ps.drop_first().last() == ps.last());
        assert(join_parts(ps.drop_last(), sep) == ps[0] + sep + join_parts(
            ps.drop_last().drop_first(),
            sep,
        ));
        assert((ps[0] + sep + join_parts(ps.drop_first().drop_last(), sep)) + sep + ps.last() =~= ps[0]
            + sep + (join_parts(ps.drop_first().drop_last(), sep) + sep + ps.last()));
    }
}

/// Concatenation distributes over adding a segment at the end.
proof fn lemma_concat_snoc(ps: Seq<Seq<char>>)
    requires
        ps.len() >= 1,
    ensures
        concat_all(ps) == concat_all(ps.drop_last()) + ps.last(),
    decreases ps.len(),
{
    if ps.len() == 1 {
        assert(ps.drop_last() =~= Seq::<Seq<char>>::empty());
        assert(concat_all(ps.drop_last()) + ps.last() =~= ps[0]);
        assert(ps.drop_first() =~= Seq::<Seq<char>>::empty());
        assert(concat_all(ps) =~= ps[0]);
    } else {
        lemma_concat_snoc(ps.drop_first());
        assert(ps.drop_first().drop_last() =~= ps.drop_last().drop_first());
        assert(ps.drop_last()[0] == ps[0]);
        assert(ps.drop_first().last() == ps.last());
        assert((ps[0] + concat_all(ps.drop_last().drop_first())) + ps.last() =~= ps[0] + (concat_all(
            ps.drop_last().drop_first(),
        ) + ps.last()));
    }
}

/// Word parts joined with the separator character between them.
pub fn join_with(parts: &Vec<String>, sep: char) -> (r: String)
    ensures
        r@ == join_parts(parts.deep_view(), seq![sep]),
{
    let ghost ps = parts.deep_view();
    let mut r = String::new();
    if parts.len() == 0 {
        return r;
    }
    let mut i: usize = 0;
    while i < parts.len()
        invariant
            ps == parts.deep_view(),
            ps.len() == parts.len() > 0,
            i <= parts.len(),
            i > 0 ==> r@ == join_parts(ps.take(i as int), seq![sep]),
            i == 0 ==> r@ == Seq::<char>::empty(),
        decreases parts.len() - i,
    {
        if i > 0 {
            push_char(&mut r, sep);
        }
        let ghost r_mid = r@;
        r.append(parts[i].as_str());
        proof {
            assert(parts[i as int]@ == ps[i as int]);
            if i == 0 {
                assert(ps.take(1) =~= seq![ps[0]]);
                assert(r@ =~= join_parts(ps.take(1), seq![sep]));
            } else {
                lemma_join_snoc(ps.take(i + 1), seq![sep]);
                assert(ps.take(i + 1).drop_last() =~= ps.take(i as int));
                assert(ps.take(i + 1).last() == ps[i as int]);
                assert(r@ =~= join_parts(ps.take(i as int), seq![sep]) + seq![sep] + ps[i as int]);
            }
        }
        i = i + 1;
    }
    proof {
        assert(ps.take(parts.len() as int) =~= ps);
    }
    r
}

/// Word parts capitalized and concatenated.
pub fn concat_capitalized(parts: &Vec<String>) -> (r: String)
    ensures
        r@ == concat_all(cap_all(parts.deep_view())),
{
    let ghost caps = cap_all(parts.deep_view());
    let mut r = String::new();
    let mut i: usize = 0;
    proof {
        lemma_cap_all(parts.deep_view());
        assert(caps.take(0) =~= Seq::<Seq<char>>::empty());
    }
    while i < parts.len()
        invariant
            caps == cap_all(parts.deep_view()),
            caps.len() == parts.len(),
            i <= parts.len(),
            r@ == concat_all(caps.take(i as int)),
        decreases parts.len() - i,
    {
        let cs = str_chars(parts[i].as_str());
        let ghost r_pre = r@;
        if cs.len() > 0 {
            let c = cs[0];
            if 'a' <= c && c <= 'z' {
                push_char(&mut r, ((c as u8) - 32) as char);
            } else {
                push_char(&mut r, c);
            }
            let mut k: usize = 1;
            while k < cs.len()
                invariant
                    1 <= k <= cs.len(),
                    r@ == r_pre + seq![upper_char(cs@[0])] + cs@.subrange(1, k as int),
                decreases cs.len() - k,
            {
                push_char(&mut r, cs[k]);
                proof {
                    assert(cs@.subrange(1, k + 1) =~= cs@.subrange(1, k as int).push(
                        cs@[k as int],
                    ));
                }
                k = k + 1;
            }
            proof {
                assert(cs@.subrange(1, cs@.len() as int) =~= cs@.drop_first());
                assert(r@ =~= r_pre + cap_part(cs@));
            }
        } else {
            proof {
                assert(r@ =~= r_pre + cap_part(cs@));
            }
        }
        proof {
            lemma_cap_all(parts.deep_view());
            assert(caps[i as int] == cap_part(parts.deep_view()[i as int]));
            lemma_concat_snoc(caps.take(i + 1));
            assert(caps.take(i + 1).drop_last() =~= caps.take(i as int));
            assert(caps.take(i + 1).last() == caps[i as int]);
        }
        i = i + 1;
    }
    proof {
        assert(caps.take(parts.len() as int) =~= caps);
    }
    r
}

/// A string with its first character lowercased.
pub fn lowercase_first(s: &str) -> (r: String)
    ensures
        r@ == lower_first(s@),
{
    let cs = str_chars(s);
    let mut r = String::new();
    if cs.len() == 0 {
        return r;
    }
    let c = cs[0];
    if 'A' <= c && c <= 'Z' {
        push_char(&mut r, ((c as u8) + 32) as char);
    } else {
        push_char(&mut r, c);
    }
    let mut k: usize = 1;
    while k < cs.len()
        invariant
            cs@ == s@,
            cs.len() > 0,
            1 <= k <= cs.len(),
            r@ == seq![lower_char(cs@[0])] + cs@.subrange(1, k as int),
        decreases cs.len() - k,
    {
        push_char(&mut r, cs[k]);
        proof {
            assert(cs@.subrange(1, k + 1) =~= cs@.subrange(1, k as int).push(cs@[k as int]));
        }
        k = k + 1;
    }
    proof {
        assert(cs@.subrange(1, cs@.len() as int) =~= cs@.drop_first());
        assert(r@ =~= lower_first(s@));
    }
    r
}

/// A string with its first character uppercased.
pub fn capitalize_first(s: &str) -> (r: String)
    ensures
        r@ == cap_part(s@),
{
    let cs = str_chars(s);
    let mut r = String::new();
    if cs.len() == 0 {
        return r;
    }
    let c = cs[0];
    if 'a' <= c && c <= 'z' {
        push_char(&mut r, ((c as u8) - 32) as char);
    } else {
        push_char(&mut r, c);
    }
    let mut k: usize = 1;
    while k < cs.len()
        invariant
            cs@ == s@,
            cs.len() > 0,
            1 <= k <= cs.len(),
            r@ == seq![upper_char(cs@[0])] + cs@.subrange(1, k as int),
        decreases cs.len() - k,
    {
        push_char(&mut r, cs[k]);
        proof {
            assert(cs@.subrange(1, k + 1) =~= cs@.subrange(1, k as int).push(cs@[k as int]));
        }
        k = k + 1;
    }
    proof {
        assert(cs@.subrange(1, cs@.len() as int) =~= cs@.drop_first());
        assert(r@ =~= cap_part(s@));
    }
    r
}

} // verus!
