//! Shared links: parsing with the `url` crate, the host shown for a link,
//! and the canonical form under which a link is stored.

use vstd::prelude::*;
use crate::json::str_equal;
use crate::text::{chars_of, owned, push_char};

verus! {

broadcast use vstd::string::group_string_axioms;

#[verifier::external_type_specification]
#[verifier::external_body]
pub struct ExUrl(url::Url);

/// A URL parsed by the `url` crate, with its serialization.
pub struct ParsedUrl {
    url: url::Url,
    text: String,
}

/// What `url::Url::parse` gives for a text: the serialization of the URL,
/// or `None` where the text is no absolute URL.
pub uninterp spec fn url_parse_result(input: Seq<char>) -> Option<Seq<char>>;

/// What `host_str` gives for the URL with this serialization.
pub uninterp spec fn url_host_of(serialization: Seq<char>) -> Option<Seq<char>>;

/// The serialization of the URL with this serialization after `set_query(query)`.
pub uninterp spec fn url_with_query(serialization: Seq<char>, query: Option<Seq<char>>) -> Seq<char>;

/// The decoded name and value pairs that `query_pairs` gives for the URL with
/// this serialization, in order.
pub uninterp spec fn url_query_pairs_of(serialization: Seq<char>) -> Seq<(Seq<char>, Seq<char>)>;

pub open spec fn opt_str_view(o: Option<&str>) -> Option<Seq<char>> {
    match o {
        Some(s) => Some(s@),
        None => None,
    }
}

impl ParsedUrl {
    /// The serialization of the URL.
    pub closed spec fn serialization(&self) -> Seq<char> {
        self.text@
    }

    /// `url::Url::parse(input)`. Claimed: the result is the crate's answer for
    /// this text, carried with its serialization (`as_str`).
    #[verifier::external_body]
    pub(crate) fn parse_text(input: &str) -> (r: Option<ParsedUrl>)
        ensures
            match r {
                Some(u) => url_parse_result(input@) == Some(u.serialization()),
                None => url_parse_result(input@) is None,
            },
    {
        match url::Url::parse(input) {
            Ok(url) => {
                let text = url.as_str().to_string();
                Some(ParsedUrl { url, text })
            },
            Err(_) => None,
        }
    }

    /// `url::Url::host_str`. Claimed: the crate's answer for this URL.
    #[verifier::external_body]
    pub(crate) fn host_str(&self) -> (r: Option<String>)
        ensures
            match r {
                Some(h) => url_host_of(self.serialization()) == Some(h@),
                None => url_host_of(self.serialization()) is None,
            },
    {
        self.url.host_str().map(|h| h.to_string())
    }

    /// `url::Url::set_query`. Claimed: the URL becomes the crate's answer for
    /// this URL and query.
    #[verifier::external_body]
    pub(crate) fn set_query(&mut self, query: Option<&str>)
        ensures
            final(self).serialization() == url_with_query(old(self).serialization(), opt_str_view(query)),
    {
        self.url.set_query(query);
        self.text = self.url.as_str().to_string();
    }

    /// `url::Url::query_pairs`, each pair owned. Claimed: the crate's pairs for this URL.
    #[verifier::external_body]
    pub(crate) fn query_pairs(&self) -> (r: Vec<(String, String)>)
        ensures
            r@.map_values(|p: (String, String)| (p.0@, p.1@)) == url_query_pairs_of(self.serialization()),
    {
        self.url.query_pairs().into_owned().collect()
    }

    /// `url::Url::clone`. Claimed: the copy has the same serialization (the
    /// crate derives `Clone` for `Url`, whose serialization is a field).
    #[verifier::external_body]
    pub(crate) fn duplicate(&self) -> (r: ParsedUrl)
        ensures
            r.serialization() == self.serialization(),
    {
        ParsedUrl { url: self.url.clone(), text: self.text.clone() }
    }

    /// The URL written in `input`; none where it is no absolute URL.
    pub fn parse(input: &str) -> (r: Option<ParsedUrl>)
        ensures
            match r {
                Some(u) => url_parse_result(input@) == Some(u.serialization()),
                None => url_parse_result(input@) is None,
            },
    {
        ParsedUrl::parse_text(input)
    }

    /// The serialization of the URL, as `to_string` gives it.
    pub fn as_string(&self) -> (s: String)
        ensures
            s@ == self.serialization(),
    {
        self.text.clone()
    }
}

/// Whether `p` occurs in `s` at position `i`.
pub open spec fn occurs_at(s: Seq<char>, p: Seq<char>, i: int) -> bool {
    0 <= i && i + p.len() <= s.len() && s.subrange(i, i + p.len()) == p
}

/// Whether `p` occurs in `s`.
pub open spec fn contains_seq(s: Seq<char>, p: Seq<char>) -> bool {
    exists|i: int| occurs_at(s, p, i)
}

/// `s` with every occurrence of a non-empty `p` removed, scanning from the
/// left as `str::replace(s, p, "")` does.
pub open spec fn remove_all(s: Seq<char>, p: Seq<char>) -> Seq<char>
    decreases s.len(),
{
    if s.len() == 0 || p.len() == 0 {
        s
    } else if occurs_at(s, p, 0) {
        remove_all(s.subrange(p.len() as int, s.len() as int), p)
    } else {
        seq![s[0]] + remove_all(s.subrange(1, s.len() as int), p)
    }
}

fn occurs_at_exec(s: &Vec<char>, p: &Vec<char>, i: usize) -> (r: bool)
    ensures
        r == occurs_at(s@, p@, i as int),
{
    if i > s.len() || s.len() - i < p.len() {
        return false;
    }
    let mut j: usize = 0;
    while j < p.len()
        invariant
            i + p.len() <= s.len(),
            j <= p.len(),
            forall|k: int| 0 <= k < j ==> s@[i + k] == p@[k],
        decreases p.len() - j,
    {
        if s[i + j] != p[j] {
            assert(s@.subrange(i as int, i + p.len())[j as int] != p@[j as int]);
            return false;
        }
        j = j + 1;
    }
    assert(s@.subrange(i as int, i + p.len()) =~= p@);
    true
}

/// Whether `pat` occurs in `s`.
pub fn str_contains(s: &str, pat: &str) -> (r: bool)
    ensures
        r == contains_seq(s@, pat@),
{
    let sv = chars_of(s);
    let pv = chars_of(pat);
    if pv.len() == 0 {
        assert(s@.subrange(0, 0) =~= pat@);
        assert(occurs_at(s@, pat@, 0));
        return true;
    }
    let mut i: usize = 0;
    while i < sv.len()
        invariant
            sv@ == s@,
            pv@ == pat@,
            pv.len() > 0,
            i <= sv.len(),
            forall|k: int| 0 <= k < i ==> !occurs_at(s@, pat@, k),
        decreases sv.len() - i,
    {
        if occurs_at_exec(&sv, &pv, i) {
            return true;
        }
        i = i + 1;
    }
    assert forall|k: int| !occurs_at(s@, pat@, k) by {
        if 0 <= k < i {
        }
    }
    false
}

/// `s` with every occurrence of `pat` removed (`str::replace(s, pat, "")`).
pub fn remove_all_str(s: &str, pat: &str) -> (r: String)
    requires
        pat@.len() > 0,
    ensures
        r@ == remove_all(s@, pat@),
{
    let sv = chars_of(s);
    let pv = chars_of(pat);
    let mut out = String::new();
    let mut i: usize = 0;
    assert(sv@.subrange(0, sv@.len() as int) =~= sv@);
    assert(out@ + remove_all(s@, pat@) =~= remove_all(s@, pat@));
    while i < sv.len()
        invariant
            sv@ == s@,
            pv@ == pat@,
            pat@.len() > 0,
            i <= sv.len(),
            out@ + remove_all(sv@.subrange(i as int, sv@.len() as int), pv@) == remove_all(s@, pat@),
        decreases sv.len() - i,
    {
        let ghost rest = sv@.subrange(i as int, sv@.len() as int);
        if occurs_at_exec(&sv, &pv, i) {
            assert(rest.subrange(0, pv@.len() as int) =~= sv@.subrange(i as int, i + pv@.len()));
            assert(occurs_at(rest, pv@, 0));
            assert(rest.subrange(pv@.len() as int, rest.len() as int) =~= sv@.subrange(i + pv@.len(), sv@.len() as int));
            i = i + pv.len();
        } else {
            assert(!occurs_at(rest, pv@, 0)) by {
                if occurs_at(rest, pv@, 0) {
                    assert(rest.subrange(0, pv@.len() as int) =~= sv@.subrange(i as int, i + pv@.len()));
                }
            }
            assert(rest.subrange(1, rest.len() as int) =~= sv@.subrange(i + 1, sv@.len() as int));
            let ghost before = out@;
            push_char(&mut out, sv[i]);
            assert(before + (seq![rest[0]] + remove_all(rest.subrange(1, rest.len() as int), pv@)) =~= out@
                + remove_all(rest.subrange(1, rest.len() as int), pv@));
            i = i + 1;
        }
    }
    assert(remove_all(sv@.subrange(i as int, sv@.len() as int), pv@) =~= Seq::<char>::empty());
    assert(out@ + Seq::<char>::empty() =~= out@);
    out
}

/// The value of the last pair named `key`: what collecting the pairs into a
/// map keeps for it.
pub open spec fn last_value(pairs: Seq<(Seq<char>, Seq<char>)>, key: Seq<char>) -> Option<Seq<char>>
    decreases pairs.len(),
{
    if pairs.len() == 0 {
        None
    } else if pairs.last().0 == key {
        Some(pairs.last().1)
    } else {
        last_value(pairs.drop_last(), key)
    }
}

fn last_value_exec(pairs: &Vec<(String, String)>, key: &str) -> (r: Option<String>)
    ensures
        match r {
            Some(v) => last_value(pairs@.map_values(|p: (String, String)| (p.0@, p.1@)), key@) == Some(v@),
            None => last_value(pairs@.map_values(|p: (String, String)| (p.0@, p.1@)), key@) is None,
        },
{
    let ghost pv = pairs@.map_values(|p: (String, String)| (p.0@, p.1@));
    let mut i: usize = pairs.len();
    assert(pv.take(i as int) =~= pv);
    while i > 0
        invariant
            pv == pairs@.map_values(|p: (String, String)| (p.0@, p.1@)),
            i <= pairs.len(),
            last_value(pv, key@) == last_value(pv.take(i as int), key@),
        decreases i,
    {
        assert(pv.take(i as int).drop_last() =~= pv.take(i - 1));
        assert(pv.take(i as int).last() == pv[i - 1]);
        if str_equal(pairs[i - 1].0.as_str(), key) {
            return Some(pairs[i - 1].1.clone());
        }
        i = i - 1;
    }
    None
}

/// The stored form of a link of host `host`: its URL without query, except
/// that a YouTube link keeps its video (`v`), or else its playlist (`list`).
pub open spec fn expanded_url_parsed_spec(url: Seq<char>, host: Seq<char>) -> Seq<char> {
    let bare = url_with_query(url, None);
    if contains_seq(host, "youtube.com"@) {
        let pairs = url_query_pairs_of(url);
        let with_v = match last_value(pairs, "v"@) {
            Some(v) => url_with_query(bare, Some("v="@ + v)),
            None => bare,
        };
        match last_value(pairs, "list"@) {
            Some(l) => url_with_query(with_v, Some("list="@ + l)),
            None => with_v,
        }
    } else {
        bare
    }
}

/// The stored form of a link: the URL without its query, except that a
/// YouTube link keeps its video, or else its playlist.
pub fn get_expanded_url_parsed(expanded_url: &ParsedUrl) -> (r: String)
    requires
        url_host_of(expanded_url.serialization()) is Some,
    ensures
        r@ == expanded_url_parsed_spec(expanded_url.serialization(), url_host_of(expanded_url.serialization())->0),
{
    let mut expanded_url_parsed = expanded_url.duplicate();
    expanded_url_parsed.set_query(None);
    let host = match expanded_url.host_str() {
        Some(h) => h,
        None => {
            return expanded_url_parsed.as_string();
        },
    };
    if str_contains(host.as_str(), "youtube.com") {
        let pairs = expanded_url.query_pairs();
        match last_value_exec(&pairs, "v") {
            Some(v_param) => {
                let mut q = owned("v=");
                q.append(v_param.as_str());
                expanded_url_parsed.set_query(Some(q.as_str()));
            },
            None => {},
        }
        match last_value_exec(&pairs, "list") {
            Some(list_param) => {
                let mut q = owned("list=");
                q.append(list_param.as_str());
                expanded_url_parsed.set_query(Some(q.as_str()));
            },
            None => {},
        }
    }
    expanded_url_parsed.as_string()
}

} // verus!
