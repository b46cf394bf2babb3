//! Starter pack addresses: from a web link to the `at://` URI of the pack.

use vstd::prelude::*;
use crate::json::str_equal;
use crate::text::{chars_of, owned, push_char, starts_with};

verus! {

broadcast use vstd::string::group_string_axioms;

/// A starter pack a seed names: an `at://` URI already, or the owner and
/// record key of a web link.
#[derive(Debug)]
pub enum StarterPackTarget {
    AtUri(String),
    Pack { owner: String, rkey: String },
}

/// What is wrong with a starter pack link.
#[derive(Debug, PartialEq, Eq, Structural, Clone, Copy)]
pub enum StarterPackUrlError {
    /// No `starter-pack` segment followed by an owner and a key.
    Invalid,
    /// The record key is empty.
    MissingRkey,
}

/// The view of a target: its texts.
pub enum StarterPackTargetView {
    AtUri(Seq<char>),
    Pack(Seq<char>, Seq<char>),
}

pub open spec fn target_view(t: StarterPackTarget) -> StarterPackTargetView {
    match t {
        StarterPackTarget::AtUri(u) => StarterPackTargetView::AtUri(u@),
        StarterPackTarget::Pack { owner, rkey } => StarterPackTargetView::Pack(owner@, rkey@),
    }
}

/// `s` without its trailing `c` characters.
pub open spec fn trim_end_char(s: Seq<char>, c: char) -> Seq<char>
    decreases s.len(),
{
    if s.len() > 0 && s.last() == c {
        trim_end_char(s.drop_last(), c)
    } else {
        s
    }
}

/// The pieces of `s` between the `sep` characters, as `str::split` gives them.
pub open spec fn split_on(s: Seq<char>, sep: char) -> Seq<Seq<char>>
    decreases s.len(),
{
    if s.len() == 0 {
        seq![Seq::empty()]
    } else {
        let prev = split_on(s.drop_last(), sep);
        if s.last() == sep {
            prev.push(Seq::empty())
        } else {
            prev.update(prev.len() - 1, prev.last().push(s.last()))
        }
    }
}

/// Position of the first element of `parts` equal to `target`.
pub open spec fn position_of(parts: Seq<Seq<char>>, target: Seq<char>) -> Option<int>
    decreases parts.len(),
{
    if parts.len() == 0 {
        None
    } else if parts[0] == target {
        Some(0)
    } else {
        match position_of(parts.drop_first(), target) {
            Some(k) => Some(k + 1),
            None => None,
        }
    }
}

/// The part of `s` before its first `c`.
pub open spec fn before_char(s: Seq<char>, c: char) -> Seq<char>
    decreases s.len(),
{
    if s.len() == 0 || s[0] == c {
        Seq::empty()
    } else {
        seq![s[0]] + before_char(s.drop_first(), c)
    }
}

pub open spec fn has_prefix(s: Seq<char>, p: Seq<char>) -> bool {
    p.len() <= s.len() && s.subrange(0, p.len() as int) == p
}

/// What a starter pack link names.
pub open spec fn starter_pack_target_spec(url: Seq<char>) -> Result<StarterPackTargetView, StarterPackUrlError> {
    if has_prefix(url, "at://"@) {
        Ok(StarterPackTargetView::AtUri(url))
    } else {
        let parts = split_on(trim_end_char(url, '/'), '/');
        match position_of(parts, "starter-pack"@) {
            None => Err(StarterPackUrlError::Invalid),
            Some(k) => if k + 2 >= parts.len() {
                Err(StarterPackUrlError::Invalid)
            } else {
                let rkey = before_char(parts[k + 2], '?');
                if rkey.len() == 0 {
                    Err(StarterPackUrlError::MissingRkey)
                } else {
                    Ok(StarterPackTargetView::Pack(parts[k + 1], rkey))
                }
            },
        }
    }
}

pub open spec fn strings_view(v: Seq<String>) -> Seq<Seq<char>> {
    v.map_values(|s: String| s@)
}

/// Length of `s` without its trailing `c` characters.
fn trimmed_len(s: &Vec<char>, c: char) -> (n: usize)
    ensures
        n <= s.len(),
        s@.take(n as int) == trim_end_char(s@, c),
{
    let mut n = s.len();
    assert(s@.take(n as int) =~= s@);
    while n > 0 && s[n - 1] == c
        invariant
            n <= s.len(),
            trim_end_char(s@.take(n as int), c) == trim_end_char(s@, c),
        decreases n,
    {
        assert(s@.take(n as int).drop_last() =~= s@.take(n - 1));
        n = n - 1;
    }
    n
}

/// The pieces of the first `n` characters of `s` between the `sep` characters.
fn split_prefix(s: &Vec<char>, n: usize, sep: char) -> (parts: Vec<String>)
    requires
        n <= s.len(),
    ensures
        strings_view(parts@) == split_on(s@.take(n as int), sep),
{
    let mut parts: Vec<String> = Vec::new();
    let mut current = String::new();
    let mut i: usize = 0;
    assert(strings_view(parts@).push(current@) =~= split_on(s@.take(0), sep));
    while i < n
        invariant
            n <= s.len(),
            i <= n,
            strings_view(parts@).push(current@) == split_on(s@.take(i as int), sep),
        decreases n - i,
    {
        assert(s@.take(i + 1).drop_last() =~= s@.take(i as int));
        let ghost prev = split_on(s@.take(i as int), sep);
        let c = s[i];
        if c == sep {
            parts.push(current);
            current = String::new();
            assert(strings_view(parts@).push(current@) =~= prev.push(Seq::empty()));
        } else {
            let ghost before = current@;
            push_char(&mut current, c);
            assert(strings_view(parts@).push(current@) =~= prev.update(prev.len() - 1, before.push(c)));
        }
        i = i + 1;
    }
    parts.push(current);
    assert(strings_view(parts@) =~= split_on(s@.take(n as int), sep));
    parts
}

/// Position of the first piece equal to `target`.
fn position_exec(parts: &Vec<String>, target: &str) -> (r: Option<usize>)
    ensures
        match r {
            Some(k) => position_of(strings_view(parts@), target@) == Some(k as int),
            None => position_of(strings_view(parts@), target@) is None,
        },
{
    let ghost v = strings_view(parts@);
    let mut i: usize = 0;
    assert(v.subrange(0, v.len() as int) =~= v);
    while i < parts.len()
        invariant
            v == strings_view(parts@),
            i <= parts.len(),
            position_of(v, target@) == match position_of(v.subrange(i as int, v.len() as int), target@) {
                Some(k) => Some(k + i),
                None => None::<int>,
            },
        decreases parts.len() - i,
    {
        let ghost rest = v.subrange(i as int, v.len() as int);
        assert(rest.drop_first() =~= v.subrange(i + 1, v.len() as int));
        assert(rest[0] == parts@[i as int]@);
        if str_equal(parts[i].as_str(), target) {
            return Some(i);
        }
        i = i + 1;
    }
    assert(v.subrange(i as int, v.len() as int) =~= Seq::<Seq<char>>::empty());
    None
}

/// The part of `s` before its first `c`.
fn before_char_exec(s: &str, c: char) -> (r: String)
    ensures
        r@ == before_char(s@, c),
{
    let v = chars_of(s);
    let mut r = String::new();
    let mut i: usize = 0;
    assert(v@.subrange(0, v.len() as int) =~= v@);
    assert(r@ + before_char(s@, c) =~= before_char(s@, c));
    while i < v.len() && v[i] != c
        invariant
            v@ == s@,
            i <= v.len(),
            r@ + before_char(v@.subrange(i as int, v.len() as int), c) == before_char(s@, c),
        decreases v.len() - i,
    {
        let ghost rest = v@.subrange(i as int, v.len() as int);
        assert(rest.drop_first() =~= v@.subrange(i + 1, v.len() as int));
        let ghost before = r@;
        push_char(&mut r, v[i]);
        assert(before + before_char(rest, c) =~= r@ + before_char(v@.subrange(i + 1, v.len() as int), c));
        i = i + 1;
    }
    assert(before_char(v@.subrange(i as int, v.len() as int), c) =~= Seq::<char>::empty());
    assert(r@ + Seq::<char>::empty() =~= r@);
    r
}

/// What a starter pack link names: an `at://` URI as it is, or the owner and
/// record key that follow the `starter-pack` segment of a web link.
pub fn parse_starter_pack_url(starter_pack_url: &str) -> (r: Result<StarterPackTarget, StarterPackUrlError>)
    ensures
        match r {
            Ok(t) => starter_pack_target_spec(starter_pack_url@) == Ok::<StarterPackTargetView, StarterPackUrlError>(target_view(t)),
            Err(e) => starter_pack_target_spec(starter_pack_url@) == Err::<StarterPackTargetView, StarterPackUrlError>(e),
        },
{
    if starts_with(starter_pack_url, "at://") {
        return Ok(StarterPackTarget::AtUri(owned(starter_pack_url)));
    }
    let chars = chars_of(starter_pack_url);
    let n = trimmed_len(&chars, '/');
    let parts = split_prefix(&chars, n, '/');
    let ghost pv = strings_view(parts@);
    match position_exec(&parts, "starter-pack") {
        None => Err(StarterPackUrlError::Invalid),
        Some(k) => {
            if k >= parts.len() || parts.len() - k <= 2 {
                return Err(StarterPackUrlError::Invalid);
            }
            assert(pv[k + 2] == parts@[k + 2]@);
            assert(pv[k + 1] == parts@[k + 1]@);
            let rkey = before_char_exec(parts[k + 2].as_str(), '?');
            if rkey.as_str().is_empty() {
                return Err(StarterPackUrlError::MissingRkey);
            }
            Ok(StarterPackTarget::Pack { owner: parts[k + 1].clone(), rkey })
        },
    }
}

/// Whether an owner is a DID already rather than a handle to resolve.
pub fn owner_is_did(owner: &str) -> (r: bool)
    ensures
        r == has_prefix(owner@, "did:"@),
{
    starts_with(owner, "did:")
}

/// The `at://` URI of the starter pack `rkey` of the account `owner_did`.
pub fn starter_pack_at_uri(owner_did: &str, rkey: &str) -> (uri: String)
    ensures
        uri@ == "at://"@ + owner_did@ + "/app.bsky.graph.starterpack/"@ + rkey@,
{
    let mut uri = owned("at://");
    uri.append(owner_did);
    uri.append("/app.bsky.graph.starterpack/");
    uri.append(rkey);
    uri
}

/// A starter pack whose members the service follows.
#[derive(Debug, Clone, Copy)]
pub struct BskyStarterPackSeed {
    pub starter_pack_url: &'static str,
    pub label: &'static str,
}

/// The starter packs whose members the service follows.
pub fn bsky_starter_pack_seeds() -> (seeds: Vec<BskyStarterPackSeed>)
    ensures
        seeds@.len() == 1,
        seeds@[0].starter_pack_url@ == "https://bsky.app/starter-pack/katharinehayhoe.com/3l3nzhaktgx2s"@,
        seeds@[0].label@ == "scientists who do climate"@,
{
    let mut seeds: Vec<BskyStarterPackSeed> = Vec::new();
    seeds.push(BskyStarterPackSeed {
        starter_pack_url: "https://bsky.app/starter-pack/katharinehayhoe.com/3l3nzhaktgx2s",
        label: "scientists who do climate",
    });
    seeds
}

/// Law: the `at://` URI built for a pack is taken back as it is.
pub proof fn lemma_at_uri_is_kept(owner_did: Seq<char>, rkey: Seq<char>)
    ensures
        starter_pack_target_spec("at://"@ + owner_did + "/app.bsky.graph.starterpack/"@ + rkey)
            == Ok::<StarterPackTargetView, StarterPackUrlError>(StarterPackTargetView::AtUri(
            "at://"@ + owner_did + "/app.bsky.graph.starterpack/"@ + rkey,
        )),
{
    let uri = "at://"@ + owner_did + "/app.bsky.graph.starterpack/"@ + rkey;
    reveal_strlit("at://");
    assert(uri.subrange(0, 5) =~= "at://"@);
}

} // verus!
