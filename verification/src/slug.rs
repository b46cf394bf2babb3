//! URL slugs for news titles: the first ten words, transliterated to ASCII,
//! lower-cased, with every run of other characters turned into one dash.

use vstd::prelude::*;
use crate::text::{chars_of, push_char};

verus! {

/// Number of words of a title that go into its slug.
pub const SLUG_WORD_LIMIT: usize = 10;

/// The transliteration that `deunicode::deunicode_char` gives for a character,
/// as bytes, or `None` where its table has none.
pub uninterp spec fn transliteration(c: char) -> Option<Seq<u8>>;

/// `deunicode::deunicode_char`: the ASCII transliteration of one character.
/// Claimed: the bytes returned are exactly those of the crate's answer for `c`,
/// and `None` exactly where the crate answers `None`.
#[verifier::external_body]
fn deunicode_char_bytes(c: char) -> (r: Option<Vec<u8>>)
    ensures
        match r {
            Some(v) => transliteration(c) == Some(v@),
            None => transliteration(c) is None,
        },
{
    deunicode::deunicode_char(c).map(|s| s.as_bytes().to_vec())
}

pub open spec fn dash() -> u8 {
    45u8
}

pub open spec fn is_lower_alnum(b: u8) -> bool {
    (97 <= b <= 122) || (48 <= b <= 57)
}

pub open spec fn is_upper(b: u8) -> bool {
    65 <= b <= 90
}

/// Number of spaces in `s`.
pub open spec fn count_spaces(s: Seq<char>) -> nat
    decreases s.len(),
{
    if s.len() == 0 {
        0
    } else {
        count_spaces(s.drop_last()) + if s.last() == ' ' { 1nat } else { 0nat }
    }
}

/// Length of the part of `s` before its tenth space (all of `s` when it has fewer):
/// splitting on `' '` and joining the first ten words again gives exactly that part.
pub open spec fn word_cut(s: Seq<char>) -> nat
    decreases s.len(),
{
    if s.len() == 0 {
        0
    } else {
        let prev = word_cut(s.drop_last());
        if prev < s.len() - 1 {
            prev
        } else if s.last() == ' ' && count_spaces(s.drop_last()) + 1 >= SLUG_WORD_LIMIT {
            (s.len() - 1) as nat
        } else {
            s.len()
        }
    }
}

pub open spec fn first_words(s: Seq<char>) -> Seq<char> {
    s.take(word_cut(s) as int)
}

/// One step of the slug builder: `st.0` is the slug so far, `st.1` whether it
/// may not take another dash (at the start, or right after a dash).
pub open spec fn push_byte(st: (Seq<u8>, bool), b: u8) -> (Seq<u8>, bool) {
    if is_lower_alnum(b) {
        (st.0.push(b), false)
    } else if is_upper(b) {
        (st.0.push((b + 32) as u8), false)
    } else if !st.1 {
        (st.0.push(dash()), true)
    } else {
        st
    }
}

pub open spec fn push_bytes(st: (Seq<u8>, bool), bs: Seq<u8>) -> (Seq<u8>, bool)
    decreases bs.len(),
{
    if bs.len() == 0 {
        st
    } else {
        push_byte(push_bytes(st, bs.drop_last()), bs.last())
    }
}

/// The bytes a character contributes: itself when ASCII, else its transliteration,
/// else a lone dash.
pub open spec fn char_bytes(c: char) -> Seq<u8> {
    if (c as u32) < 128 {
        seq![c as u8]
    } else {
        match transliteration(c) {
            Some(b) => b,
            None => seq![dash()],
        }
    }
}

pub open spec fn slug_state(cs: Seq<char>) -> (Seq<u8>, bool)
    decreases cs.len(),
{
    if cs.len() == 0 {
        (Seq::empty(), true)
    } else {
        push_bytes(slug_state(cs.drop_last()), char_bytes(cs.last()))
    }
}

pub open spec fn strip_trailing_dash(b: Seq<u8>) -> Seq<u8> {
    if b.len() > 0 && b.last() == dash() {
        b.drop_last()
    } else {
        b
    }
}

pub open spec fn bytes_as_chars(b: Seq<u8>) -> Seq<char> {
    b.map_values(|x: u8| x as char)
}

/// The slug of a title.
pub open spec fn slug_of(s: Seq<char>) -> Seq<char> {
    bytes_as_chars(strip_trailing_dash(slug_state(first_words(s)).0))
}

pub open spec fn is_slug_char(c: char) -> bool {
    ('a' <= c <= 'z') || ('0' <= c <= '9') || c == '-'
}

/// A well-formed slug: lower-case letters, digits and single dashes between them.
pub open spec fn is_slug(t: Seq<char>) -> bool {
    &&& forall|i: int| 0 <= i < t.len() ==> is_slug_char(#[trigger] t[i])
    &&& t.len() > 0 ==> t[0] != '-' && t.last() != '-'
    &&& forall|i: int| 0 <= i < t.len() - 1 ==> !(#[trigger] t[i] == '-' && t[i + 1] == '-')
}

fn push_slug_byte(slug: &mut Vec<u8>, prev_is_dash: &mut bool, x: u8)
    ensures
        (final(slug)@, *final(prev_is_dash)) == push_byte((old(slug)@, *old(prev_is_dash)), x),
{
    if (97 <= x && x <= 122) || (48 <= x && x <= 57) {
        *prev_is_dash = false;
        slug.push(x);
    } else if 65 <= x && x <= 90 {
        *prev_is_dash = false;
        slug.push(x - 65 + 97);
    } else {
        if !*prev_is_dash {
            slug.push(45);
            *prev_is_dash = true;
        }
    }
}

proof fn lemma_push_bytes_take(st: (Seq<u8>, bool), bs: Seq<u8>, j: int)
    requires
        0 <= j < bs.len(),
    ensures
        push_bytes(st, bs.take(j + 1)) == push_byte(push_bytes(st, bs.take(j)), bs[j]),
{
    assert(bs.take(j + 1).drop_last() =~= bs.take(j));
}

proof fn lemma_push_single(st: (Seq<u8>, bool), b: u8)
    ensures
        push_bytes(st, seq![b]) == push_byte(st, b),
{
    assert(seq![b].drop_last() =~= Seq::<u8>::empty());
    assert(push_bytes(st, Seq::<u8>::empty()) == st);
}

/// Position of the tenth space of `cs`, or its length.
fn first_words_len(cs: &Vec<char>) -> (n: usize)
    ensures
        n == word_cut(cs@),
{
    let mut i: usize = 0;
    let mut spaces: usize = 0;
    while i < cs.len()
        invariant
            i <= cs.len(),
            word_cut(cs@.take(i as int)) == i,
            spaces == count_spaces(cs@.take(i as int)),
            spaces < SLUG_WORD_LIMIT,
        decreases cs.len() - i,
    {
        assert(cs@.take(i + 1).drop_last() =~= cs@.take(i as int));
        if cs[i] == ' ' {
            if spaces + 1 >= SLUG_WORD_LIMIT {
                proof {
                    lemma_word_cut_stays(cs@, (i + 1) as int);
                }
                return i;
            }
            spaces = spaces + 1;
        }
        i = i + 1;
    }
    assert(cs@.take(i as int) =~= cs@);
    i
}

/// Once cut, extending the text does not move the cut.
proof fn lemma_word_cut_stays(s: Seq<char>, k: int)
    requires
        0 < k <= s.len(),
        word_cut(s.take(k)) < k,
    ensures
        word_cut(s) == word_cut(s.take(k)),
    decreases s.len() - k,
{
    if k == s.len() {
        assert(s.take(k) =~= s);
    } else {
        assert(s.take(k + 1).drop_last() =~= s.take(k));
        lemma_word_cut_stays(s, k + 1);
    }
}

/// Turns a title into its URL slug.
pub fn slugify(s: &str) -> (slug: String)
    ensures
        slug@ == slug_of(s@),
{
    let cs = chars_of(s);
    let cut = first_words_len(&cs);
    let ghost words = first_words(s@);
    let mut slug: Vec<u8> = Vec::new();
    let mut prev_is_dash = true;
    let mut i: usize = 0;
    while i < cut
        invariant
            cut == word_cut(cs@),
            cs@ == s@,
            words == cs@.take(cut as int),
            cut <= cs@.len(),
            i <= cut,
            (slug@, prev_is_dash) == slug_state(words.take(i as int)),
        decreases cut - i,
    {
        assert(words.take(i + 1).drop_last() =~= words.take(i as int));
        let c = cs[i];
        let ghost before = (slug@, prev_is_dash);
        assert(words.take(i + 1).last() == c);
        assert(slug_state(words.take(i + 1)) == push_bytes(before, char_bytes(c)));
        if (c as u32) < 128 {
            push_slug_byte(&mut slug, &mut prev_is_dash, c as u8);
            assert(char_bytes(c) =~= seq![c as u8]);
            proof {
                lemma_push_single(before, c as u8);
            }
        } else {
            match deunicode_char_bytes(c) {
                Some(bytes) => {
                    let mut j: usize = 0;
                    while j < bytes.len()
                        invariant
                            j <= bytes.len(),
                            (slug@, prev_is_dash) == push_bytes(before, bytes@.take(j as int)),
                        decreases bytes.len() - j,
                    {
                        proof {
                            lemma_push_bytes_take(before, bytes@, j as int);
                        }
                        push_slug_byte(&mut slug, &mut prev_is_dash, bytes[j]);
                        j = j + 1;
                    }
                    assert(bytes@.take(j as int) =~= bytes@);
                },
                None => {
                    push_slug_byte(&mut slug, &mut prev_is_dash, 45);
                    proof {
                        lemma_push_single(before, dash());
                    }
                },
            }
        }
        i = i + 1;
    }
    assert(words.take(cut as int) =~= words);
    let ghost full = slug@;
    if slug.len() > 0 && slug[slug.len() - 1] == 45 {
        slug.pop();
        assert(slug@ =~= full.drop_last());
    }
    let mut out = String::new();
    let mut k: usize = 0;
    while k < slug.len()
        invariant
            k <= slug.len(),
            out@ == bytes_as_chars(slug@.take(k as int)),
        decreases slug.len() - k,
    {
        let b = slug[k];
        push_char(&mut out, b as char);
        assert(bytes_as_chars(slug@.take(k + 1)) =~= bytes_as_chars(slug@.take(k as int)).push(
            b as char,
        ));
        k = k + 1;
    }
    assert(slug@.take(k as int) =~= slug@);
    out
}


pub open spec fn is_slug_byte(b: u8) -> bool {
    is_lower_alnum(b) || b == dash()
}

/// Invariant of the slug builder's state.
pub open spec fn wf_state(st: (Seq<u8>, bool)) -> bool {
    &&& forall|i: int| 0 <= i < st.0.len() ==> is_slug_byte(#[trigger] st.0[i])
    &&& st.1 == (st.0.len() == 0 || st.0.last() == dash())
    &&& st.0.len() > 0 ==> st.0[0] != dash()
    &&& forall|i: int|
        0 <= i < st.0.len() - 1 ==> !(#[trigger] st.0[i] == dash() && st.0[i + 1] == dash())
}

proof fn lemma_push_byte_wf(st: (Seq<u8>, bool), b: u8)
    requires
        wf_state(st),
    ensures
        wf_state(push_byte(st, b)),
{
    let r = push_byte(st, b);
    assert forall|i: int| 0 <= i < r.0.len() implies is_slug_byte(#[trigger] r.0[i]) by {
        if i < st.0.len() {
            assert(r.0[i] == st.0[i]);
        }
    }
    assert forall|i: int| 0 <= i < r.0.len() - 1 implies !(#[trigger] r.0[i] == dash() && r.0[i
        + 1] == dash()) by {
        if i + 1 < st.0.len() {
            assert(r.0[i] == st.0[i] && r.0[i + 1] == st.0[i + 1]);
        } else if r.0.len() > st.0.len() {
            assert(r.0[i] == st.0[i]);
        }
    }
}

proof fn lemma_push_bytes_wf(st: (Seq<u8>, bool), bs: Seq<u8>)
    requires
        wf_state(st),
    ensures
        wf_state(push_bytes(st, bs)),
    decreases bs.len(),
{
    if bs.len() > 0 {
        lemma_push_bytes_wf(st, bs.drop_last());
        lemma_push_byte_wf(push_bytes(st, bs.drop_last()), bs.last());
    }
}

proof fn lemma_slug_state_wf(cs: Seq<char>)
    ensures
        wf_state(slug_state(cs)),
    decreases cs.len(),
{
    if cs.len() > 0 {
        lemma_slug_state_wf(cs.drop_last());
        lemma_push_bytes_wf(slug_state(cs.drop_last()), char_bytes(cs.last()));
    }
}

/// Law: every slug is well formed: only lower-case ASCII letters, digits and
/// dashes, never a dash at either end, never two dashes in a row.
pub proof fn lemma_slug_is_well_formed(s: Seq<char>)
    ensures
        is_slug(slug_of(s)),
{
    let st = slug_state(first_words(s));
    lemma_slug_state_wf(first_words(s));
    let b = strip_trailing_dash(st.0);
    let t = slug_of(s);
    assert(t.len() == b.len());
    assert forall|i: int| 0 <= i < b.len() implies is_slug_byte(#[trigger] b[i]) by {
        assert(b[i] == st.0[i]);
    }
    assert forall|i: int| 0 <= i < t.len() implies is_slug_char(#[trigger] t[i]) by {
        assert(t[i] == b[i] as char);
        assert(is_slug_byte(b[i]));
    }
    if t.len() > 0 {
        assert(t[0] == b[0] as char);
        assert(b[0] == st.0[0]);
        assert(t.last() == b.last() as char);
        if st.0.len() > 0 && st.0.last() == dash() {
            assert(b.last() == st.0[st.0.len() - 2]);
        }
    }
    assert forall|i: int| 0 <= i < t.len() - 1 implies !(#[trigger] t[i] == '-' && t[i + 1]
        == '-') by {
        assert(t[i] == b[i] as char && t[i + 1] == b[i + 1] as char);
        assert(b[i] == st.0[i] && b[i + 1] == st.0[i + 1]);
    }
}

proof fn lemma_no_space_cut(t: Seq<char>, k: int)
    requires
        0 <= k <= t.len(),
        forall|i: int| 0 <= i < t.len() ==> is_slug_char(#[trigger] t[i]),
    ensures
        word_cut(t.take(k)) == k,
        count_spaces(t.take(k)) == 0,
    decreases k,
{
    if k > 0 {
        assert(t.take(k).drop_last() =~= t.take(k - 1));
        lemma_no_space_cut(t, k - 1);
        assert(is_slug_char(t[k - 1]));
    }
}

proof fn lemma_slug_state_of_slug(t: Seq<char>, k: int)
    requires
        0 <= k <= t.len(),
        is_slug(t),
    ensures
        slug_state(t.take(k)) == (t.take(k).map_values(|c: char| c as u8), k == 0 || t[k - 1]
            == '-'),
    decreases k,
{
    if k > 0 {
        assert(t.take(k).drop_last() =~= t.take(k - 1));
        lemma_slug_state_of_slug(t, k - 1);
        let c = t[k - 1];
        assert(is_slug_char(c));
        assert(t.take(k).last() == c);
        lemma_push_single(slug_state(t.take(k - 1)), c as u8);
        assert(char_bytes(c) == seq![c as u8]);
        if c == '-' {
            assert(k - 1 > 0);
            assert(!(t[k - 2] == '-' && t[k - 1] == '-'));
        }
        assert(t.take(k).map_values(|c: char| c as u8) =~= t.take(k - 1).map_values(
            |c: char| c as u8,
        ).push(c as u8));
    }
}

/// Law: a slug is its own slug, so slugifying twice gives the same result as once.
pub proof fn lemma_slugify_idempotent(s: Seq<char>)
    ensures
        slug_of(slug_of(s)) == slug_of(s),
{
    let t = slug_of(s);
    lemma_slug_is_well_formed(s);
    lemma_no_space_cut(t, t.len() as int);
    assert(t.take(t.len() as int) =~= t);
    assert(first_words(t) =~= t);
    lemma_slug_state_of_slug(t, t.len() as int);
    let bs = t.map_values(|c: char| c as u8);
    if t.len() > 0 {
        assert(bs.last() == t.last() as u8);
    }
    assert(strip_trailing_dash(bs) == bs);
    assert(bytes_as_chars(bs) =~= t) by {
        assert forall|i: int| 0 <= i < t.len() implies #[trigger] bytes_as_chars(bs)[i] == t[i] by {
            assert(is_slug_char(t[i]));
        }
    }
}

} // verus!
