//! Metadata of a linked page read from its HTML: the title, and the content
//! of `<meta>` tags. Tags are searched in the lowercased text and cut from
//! the page itself at the same byte offsets.

use vstd::prelude::*;
use vstd::utf8::{decode_utf8, encode_utf8, is_char_boundary, valid_utf8};
use vstd::string::StringSliceAdditionalSpecFns;
use crate::text::{chars_of, push_char};

verus! {

broadcast use {vstd::string::group_string_axioms, vstd::utf8::group_utf8_lib};

/// What `str::to_lowercase` gives for a text.
pub uninterp spec fn lowercase_of(text: Seq<char>) -> Seq<char>;

/// `str::to_lowercase`. Claimed: the result is std's lowercase of this text.
#[verifier::external_body]
fn to_lowercase(text: &str) -> (r: String)
    ensures
        r@ == lowercase_of(text@),
{
    text.to_lowercase()
}

/// Where `text` cannot be cut as the scan asks: an offset found in the
/// lowercased text is no character boundary of the text it is applied to,
/// or lies beyond it, or a scan would not advance.
#[derive(Debug, Clone, Copy, PartialEq, Eq, Structural)]
pub enum LowercaseShift {
    Shifted,
}

/// White space as `str::trim` removes it: the Unicode `White_Space` characters.
pub open spec fn is_white_space(c: char) -> bool {
    let u = c as u32;
    (0x9 <= u <= 0xD) || u == 0x20 || u == 0x85 || u == 0xA0 || u == 0x1680 || (0x2000 <= u
        <= 0x200A) || u == 0x2028 || u == 0x2029 || u == 0x202F || u == 0x205F || u == 0x3000
}

/// Position of the first character at or after `i` that is no white space.
pub open spec fn first_non_space(s: Seq<char>, i: int) -> int
    decreases s.len() - i,
{
    if i >= s.len() || i < 0 || !is_white_space(s[i]) {
        i
    } else {
        first_non_space(s, i + 1)
    }
}

/// Position after the last character before `j` that is no white space.
pub open spec fn end_non_space(s: Seq<char>, j: int) -> int
    decreases j,
{
    if j <= 0 || j > s.len() || !is_white_space(s[j - 1]) {
        j
    } else {
        end_non_space(s, j - 1)
    }
}

/// `s` without white space at either end (`str::trim`).
pub open spec fn trim_spaces(s: Seq<char>) -> Seq<char> {
    let a = first_non_space(s, 0);
    let b = end_non_space(s, s.len() as int);
    if a >= b {
        Seq::empty()
    } else {
        s.subrange(a, b)
    }
}

fn is_white_space_exec(c: char) -> (r: bool)
    ensures
        r == is_white_space(c),
{
    let u = c as u32;
    (0x9 <= u && u <= 0xD) || u == 0x20 || u == 0x85 || u == 0xA0 || u == 0x1680 || (0x2000 <= u
        && u <= 0x200A) || u == 0x2028 || u == 0x2029 || u == 0x202F || u == 0x205F || u == 0x3000
}

/// `s` without white space at either end.
pub fn trim_text(s: &str) -> (r: String)
    ensures
        r@ == trim_spaces(s@),
{
    let v = chars_of(s);
    let mut a: usize = 0;
    while a < v.len() && is_white_space_exec(v[a])
        invariant
            v@ == s@,
            a <= v.len(),
            first_non_space(s@, a as int) == first_non_space(s@, 0),
        decreases v.len() - a,
    {
        a = a + 1;
    }
    let mut b: usize = v.len();
    while b > 0 && is_white_space_exec(v[b - 1])
        invariant
            v@ == s@,
            b <= v.len(),
            end_non_space(s@, b as int) == end_non_space(s@, s@.len() as int),
        decreases b,
    {
        b = b - 1;
    }
    let mut r = String::new();
    if a < b {
        let mut i = a;
        while i < b
            invariant
                v@ == s@,
                a <= i <= b <= v.len(),
                r@ == s@.subrange(a as int, i as int),
            decreases b - i,
        {
            push_char(&mut r, v[i]);
            assert(r@ =~= s@.subrange(a as int, i + 1));
            i = i + 1;
        }
    }
    assert(a < b ==> r@ =~= s@.subrange(a as int, b as int));
    r
}

/// Position of the first occurrence of `pat` in `hay` at or after `from`.
pub open spec fn find_from(hay: Seq<u8>, pat: Seq<u8>, from: int) -> Option<int>
    decreases hay.len() + 1 - from,
{
    if from < 0 || from + pat.len() > hay.len() {
        None
    } else if hay.subrange(from, from + pat.len()) == pat {
        Some(from)
    } else {
        find_from(hay, pat, from + 1)
    }
}

proof fn lemma_find_from(hay: Seq<u8>, pat: Seq<u8>, from: int)
    ensures
        find_from(hay, pat, from) matches Some(i) ==> from <= i && i + pat.len() <= hay.len()
            && hay.subrange(i, i + pat.len()) == pat,
    decreases hay.len() + 1 - from,
{
    if !(from < 0 || from + pat.len() > hay.len()) && hay.subrange(from, from + pat.len()) != pat {
        lemma_find_from(hay, pat, from + 1);
    }
}

/// Position of the first occurrence of `pat` in `hay` at or after `from`.
pub fn find_bytes(hay: &[u8], pat: &[u8], from: usize) -> (r: Option<usize>)
    ensures
        match r {
            Some(i) => find_from(hay@, pat@, from as int) == Some(i as int),
            None => find_from(hay@, pat@, from as int) is None,
        },
        r matches Some(i) ==> from <= i && i + pat@.len() <= hay@.len(),
{
    proof {
        lemma_find_from(hay@, pat@, from as int);
    }
    if from > hay.len() || hay.len() - from < pat.len() {
        return None;
    }
    let mut i = from;
    while i <= hay.len() - pat.len()
        invariant
            from <= i,
            pat.len() <= hay.len(),
            i <= hay.len(),
            find_from(hay@, pat@, from as int) == find_from(hay@, pat@, i as int),
        decreases hay.len() - i,
    {
        let mut j: usize = 0;
        let mut same = true;
        while j < pat.len()
            invariant
                i + pat.len() <= hay.len(),
                j <= pat.len(),
                same == (forall|k: int| 0 <= k < j ==> hay@[i + k] == pat@[k]),
            decreases pat.len() - j,
        {
            if hay[i + j] != pat[j] {
                same = false;
            }
            j = j + 1;
        }
        if same {
            assert(hay@.subrange(i as int, i + pat.len()) =~= pat@);
            return Some(i);
        }
        proof {
            let k = choose|k: int| 0 <= k < pat.len() && hay@[i + k] != pat@[k];
            assert(hay@.subrange(i as int, i + pat.len())[k] != pat@[k]);
        }
        i = i + 1;
    }
    None
}

/// The text of `bytes` from `a` to `b`, where both are character boundaries.
pub open spec fn text_between(bytes: Seq<u8>, a: int, b: int) -> Option<Seq<char>> {
    if 0 <= a <= b <= bytes.len() && is_char_boundary(bytes, a) && is_char_boundary(bytes, b) {
        Some(decode_utf8(bytes.subrange(a, b)))
    } else {
        None
    }
}

proof fn lemma_boundary_after_split(bytes: Seq<u8>, a: int, b: int)
    requires
        valid_utf8(bytes),
        0 <= a <= b <= bytes.len(),
        is_char_boundary(bytes, a),
    ensures
        is_char_boundary(bytes.subrange(a, bytes.len() as int), b - a) == is_char_boundary(bytes, b),
{
    let tail = bytes.subrange(a, bytes.len() as int);
    assert(valid_utf8(tail));
    if b < bytes.len() {
        assert(tail[b - a] == bytes[b]);
        assert(is_char_boundary(tail, b - a) <==> !vstd::utf8::is_continuation_byte(tail[b - a]));
        assert(is_char_boundary(bytes, b) <==> !vstd::utf8::is_continuation_byte(bytes[b]));
    } else {
        assert(is_char_boundary(tail, tail.len() as int));
        assert(is_char_boundary(bytes, bytes.len() as int));
    }
}

/// The text of `s` between byte offsets `a` and `b`; none where they are no
/// character boundaries of `s`.
fn text_between_exec(s: &str, a: usize, b: usize) -> (r: Option<String>)
    ensures
        match r {
            Some(t) => text_between(encode_utf8(s@), a as int, b as int) == Some(t@),
            None => text_between(encode_utf8(s@), a as int, b as int) is None,
        },
{
    let ghost sb = encode_utf8(s@);
    if a > b || !s.is_char_boundary(a) || !s.is_char_boundary(b) {
        return None;
    }
    assert(b <= sb.len());
    let (_, tail) = s.split_at(a);
    proof {
        lemma_boundary_after_split(sb, a as int, b as int);
    }
    let (mid, _) = tail.split_at(b - a);
    assert(mid.spec_bytes() =~= sb.subrange(a as int, b as int));
    assert(decode_utf8(encode_utf8(mid@)) == mid@);
    Some(mid.to_string())
}

/// `<title`, as bytes.
pub open spec fn title_open() -> Seq<u8> {
    seq![60u8, 116u8, 105u8, 116u8, 108u8, 101u8]
}

/// `</title>`, as bytes.
pub open spec fn title_close() -> Seq<u8> {
    seq![60u8, 47u8, 116u8, 105u8, 116u8, 108u8, 101u8, 62u8]
}

/// `<meta`, as bytes.
pub open spec fn meta_open() -> Seq<u8> {
    seq![60u8, 109u8, 101u8, 116u8, 97u8]
}

/// `>`, as bytes.
pub open spec fn tag_close() -> Seq<u8> {
    seq![62u8]
}

fn title_open_bytes() -> (v: Vec<u8>)
    ensures
        v@ == title_open(),
{
    let mut v: Vec<u8> = Vec::new();
    v.push(60);
    v.push(116);
    v.push(105);
    v.push(116);
    v.push(108);
    v.push(101);
    assert(v@ =~= title_open());
    v
}

fn title_close_bytes() -> (v: Vec<u8>)
    ensures
        v@ == title_close(),
{
    let mut v: Vec<u8> = Vec::new();
    v.push(60);
    v.push(47);
    v.push(116);
    v.push(105);
    v.push(116);
    v.push(108);
    v.push(101);
    v.push(62);
    assert(v@ =~= title_close());
    v
}

fn meta_open_bytes() -> (v: Vec<u8>)
    ensures
        v@ == meta_open(),
{
    let mut v: Vec<u8> = Vec::new();
    v.push(60);
    v.push(109);
    v.push(101);
    v.push(116);
    v.push(97);
    assert(v@ =~= meta_open());
    v
}

fn single_byte(b: u8) -> (v: Vec<u8>)
    ensures
        v@ == seq![b],
{
    let mut v: Vec<u8> = Vec::new();
    v.push(b);
    assert(v@ =~= seq![b]);
    v
}

/// The title of a page: the text between the first `<title...>` and the
/// next `</title>`, found in the lowercased page, trimmed; none where it is
/// empty or missing. `Err` where the offsets do not fall on characters of
/// the page.
pub open spec fn title_scan(html: Seq<char>) -> Result<Option<Seq<char>>, LowercaseShift> {
    title_scan_bytes(encode_utf8(html), encode_utf8(lowercase_of(html)))
}

/// The title scan of `title_scan` on a page given by its bytes `hb` and the
/// bytes `lb` of its lowercased text.
pub open spec fn title_scan_bytes(hb: Seq<u8>, lb: Seq<u8>) -> Result<Option<Seq<char>>, LowercaseShift> {
    match find_from(lb, title_open(), 0) {
        None => Ok(None),
        Some(start) => match find_from(lb, tag_close(), start) {
            None => Ok(None),
            Some(g) => match find_from(lb, title_close(), g + 1) {
                None => Ok(None),
                Some(end) => match text_between(hb, g + 1, end) {
                    None => Err(LowercaseShift::Shifted),
                    Some(t) => {
                        let title = trim_spaces(t);
                        Ok(if title.len() == 0 { None } else { Some(title) })
                    },
                },
            },
        },
    }
}

pub open spec fn opt_string_view(o: Option<String>) -> Option<Seq<char>> {
    match o {
        Some(s) => Some(s@),
        None => None,
    }
}

pub open spec fn scan_result_view(r: Result<Option<String>, LowercaseShift>) -> Result<Option<Seq<char>>, LowercaseShift> {
    match r {
        Ok(o) => Ok(opt_string_view(o)),
        Err(e) => Err(e),
    }
}

/// The title of a page given with its lowercased text `lower`, or where the
/// offsets found in `lower` do not fall on characters of the page.
pub fn title_from_lowered(html: &str, lower: &str) -> (r: Result<Option<String>, LowercaseShift>)
    ensures
        scan_result_view(r) == title_scan_bytes(encode_utf8(html@), encode_utf8(lower@)),
{
    let lb = lower.as_bytes();
    let lb_len = lb.len();
    let open = title_open_bytes();
    let close = title_close_bytes();
    let gt_byte = single_byte(62);
    let start = match find_bytes(lb, open.as_slice(), 0) {
        Some(s) => s,
        None => return Ok(None),
    };
    let g = match find_bytes(lb, gt_byte.as_slice(), start) {
        Some(g) => g,
        None => return Ok(None),
    };
    assert(gt_byte@.len() == 1);
    assert(g + 1 <= lb@.len());
    let end = match find_bytes(lb, close.as_slice(), g + 1) {
        Some(e) => e,
        None => return Ok(None),
    };
    match text_between_exec(html, g + 1, end) {
        None => Err(LowercaseShift::Shifted),
        Some(t) => {
            let title = trim_text(t.as_str());
            if title.as_str().is_empty() {
                Ok(None)
            } else {
                Ok(Some(title))
            }
        },
    }
}

/// The title of a page, or where lowercasing moved the offsets in the page.
pub fn title_in_page(html: &str) -> (r: Result<Option<String>, LowercaseShift>)
    ensures
        scan_result_view(r) == title_scan(html@),
{
    let lower = to_lowercase(html);
    title_from_lowered(html, lower.as_str())
}

/// The title of a page: the trimmed text of its `<title>` tag, none where
/// empty or missing.
pub fn extract_title(html: &str) -> (r: Option<String>)
    requires
        title_scan(html@) is Ok,
    ensures
        Ok::<Option<Seq<char>>, LowercaseShift>(opt_string_view(r)) == title_scan(html@),
{
    match title_in_page(html) {
        Ok(t) => t,
        Err(_) => None,
    }
}

/// The value of attribute `attr` of a tag: the first `attr=` in the
/// lowercased tag (`pattern` is the lowercased attribute followed by `=`)
/// whose value, quoted with `"` or `'`, is not empty once trimmed. The
/// value starts `attr_len` bytes and one after the found name, counted with
/// the byte length of the attribute as given.
pub open spec fn attr_scan(tb: Seq<u8>, tl: Seq<u8>, pattern: Seq<u8>, attr_len: int, pos: int) -> Result<Option<Seq<char>>, LowercaseShift>
    decreases tb.len() - pos,
{
    if !(0 <= pos <= tl.len() && is_char_boundary(tl, pos)) {
        Err(LowercaseShift::Shifted)
    } else {
        match find_from(tl, pattern, pos) {
            None => Ok(None),
            Some(m) => {
                let start = m + attr_len + 1;
                if !(start <= tb.len() && is_char_boundary(tb, start)) || start <= pos {
                    Err(LowercaseShift::Shifted)
                } else if start < tb.len() && (tb[start] == 34u8 || tb[start] == 39u8) {
                    let quote = tb[start];
                    match find_from(tb, seq![quote], start + 1) {
                        None => Ok(None),
                        Some(e) => match text_between(tb, start + 1, e) {
                            None => Err(LowercaseShift::Shifted),
                            Some(t) => {
                                let value = trim_spaces(t);
                                if value.len() == 0 {
                                    attr_scan(tb, tl, pattern, attr_len, start)
                                } else {
                                    Ok(Some(value))
                                }
                            },
                        },
                    }
                } else {
                    attr_scan(tb, tl, pattern, attr_len, start)
                }
            },
        }
    }
}

/// The lowercased attribute name followed by `=`, as bytes.
pub open spec fn attr_pattern(attr: Seq<char>) -> Seq<u8> {
    encode_utf8(lowercase_of(attr)) + seq![61u8]
}

/// The value of attribute `attr` of `tag`, by the scan of `attr_scan`.
pub open spec fn attr_content_scan(tag: Seq<char>, attr: Seq<char>) -> Result<Option<Seq<char>>, LowercaseShift> {
    attr_scan_lowered(tag, lowercase_of(tag), attr, lowercase_of(attr))
}

/// The attribute scan of `attr_scan` on a tag and attribute given with their
/// lowercased texts.
pub open spec fn attr_scan_lowered(tag: Seq<char>, tag_lower: Seq<char>, attr: Seq<char>, attr_lower: Seq<char>) -> Result<Option<Seq<char>>, LowercaseShift> {
    attr_scan(encode_utf8(tag), encode_utf8(tag_lower), encode_utf8(attr_lower) + seq![61u8], encode_utf8(attr).len() as int, 0)
}

fn append_bytes(v: &mut Vec<u8>, s: &[u8])
    ensures
        final(v)@ == old(v)@ + s@,
{
    let mut i: usize = 0;
    let ghost start = v@;
    while i < s.len()
        invariant
            i <= s.len(),
            v@ == start + s@.subrange(0, i as int),
        decreases s.len() - i,
    {
        v.push(s[i]);
        assert(v@ =~= start + s@.subrange(0, i + 1));
        i = i + 1;
    }
    assert(s@.subrange(0, i as int) =~= s@);
}

/// The value of attribute `attr` of `tag`, given with their lowercased texts
/// `tag_lower` and `attr_lower`, or where the offsets found in `tag_lower`
/// do not fall on characters of the tag.
pub fn attr_content_from_lowered(tag: &str, tag_lower: &str, attr: &str, attr_lower: &str) -> (r: Result<Option<String>, LowercaseShift>)
    ensures
        scan_result_view(r) == attr_scan_lowered(tag@, tag_lower@, attr@, attr_lower@),
{
    let tl = tag_lower.as_bytes();
    let tb = tag.as_bytes();
    let mut pattern: Vec<u8> = Vec::new();
    append_bytes(&mut pattern, attr_lower.as_bytes());
    pattern.push(61);
    assert(pattern@ =~= encode_utf8(attr_lower@) + seq![61u8]);
    let attr_len = attr.as_bytes().len();
    let ghost goal = attr_scan_lowered(tag@, tag_lower@, attr@, attr_lower@);
    assert(tb@ == encode_utf8(tag@));
    assert(tl@ == encode_utf8(tag_lower@));
    assert(attr_len == encode_utf8(attr@).len());
    assert(goal == attr_scan(tb@, tl@, pattern@, attr_len as int, 0));
    let mut pos: usize = 0;
    loop
        invariant
            pos <= tb@.len(),
            tb@ == encode_utf8(tag@),
            tl@ == encode_utf8(tag_lower@),
            pattern@ == encode_utf8(attr_lower@) + seq![61u8],
            attr_len == encode_utf8(attr@).len(),
            goal == attr_scan_lowered(tag@, tag_lower@, attr@, attr_lower@),
            goal == attr_scan(tb@, tl@, pattern@, attr_len as int, pos as int),
        decreases tb@.len() - pos,
    {
        if pos > tl.len() || !tag_lower.is_char_boundary(pos) {
            return Err(LowercaseShift::Shifted);
        }
        let m = match find_bytes(tl, pattern.as_slice(), pos) {
            Some(m) => m,
            None => return Ok(None),
        };
        assert(m + pattern@.len() <= tl@.len());
        if attr_len >= tb.len() || m >= tb.len() - attr_len {
            return Err(LowercaseShift::Shifted);
        }
        let start = m + attr_len + 1;
        if !tag.is_char_boundary(start) || start <= pos {
            return Err(LowercaseShift::Shifted);
        }
        if start < tb.len() && (tb[start] == 34 || tb[start] == 39) {
            let quote = tb[start];
            let quote_pat = single_byte(quote);
            let e = match find_bytes(tb, quote_pat.as_slice(), start + 1) {
                Some(e) => e,
                None => return Ok(None),
            };
            match text_between_exec(tag, start + 1, e) {
                None => return Err(LowercaseShift::Shifted),
                Some(t) => {
                    let value = trim_text(t.as_str());
                    if !value.as_str().is_empty() {
                        return Ok(Some(value));
                    }
                },
            }
        }
        pos = start;
    }
}

/// The value of an attribute of a tag, or where lowercasing moved the offsets.
pub fn attr_content_in_tag(tag: &str, attr: &str) -> (r: Result<Option<String>, LowercaseShift>)
    ensures
        scan_result_view(r) == attr_content_scan(tag@, attr@),
{
    let tag_lower = to_lowercase(tag);
    let attr_lower = to_lowercase(attr);
    attr_content_from_lowered(tag, tag_lower.as_str(), attr, attr_lower.as_str())
}

/// The value of attribute `attr` of `tag`: the first non-empty quoted value
/// given to it, trimmed.
pub fn extract_attr_content(tag: &str, attr: &str) -> (r: Option<String>)
    requires
        attr_content_scan(tag@, attr@) is Ok,
    ensures
        Ok::<Option<Seq<char>>, LowercaseShift>(opt_string_view(r)) == attr_content_scan(tag@, attr@),
{
    match attr_content_in_tag(tag, attr) {
        Ok(t) => t,
        Err(_) => None,
    }
}

/// The content of the first `<meta>` tag, in the scan from `pos`, whose
/// lowercased text holds `key="value"` (`double`) or `key='value'` (`single`)
/// and which gives `content` a non-empty value. A tag runs from `<meta` to the
/// next `>`, or to the end of the page; the scan goes on after it.
pub open spec fn meta_scan(lb: Seq<u8>, hb: Seq<u8>, double: Seq<u8>, single: Seq<u8>, pos: int) -> Result<Option<Seq<char>>, LowercaseShift>
    decreases lb.len() + 1 - pos,
{
    match find_from(lb, meta_open(), pos) {
        None => Ok(None),
        Some(bs) => {
            let be = match find_from(lb, tag_close(), bs) {
                Some(e) => e,
                None => hb.len() as int,
            };
            if !(pos <= bs < be && be <= lb.len() && is_char_boundary(lb, be)) {
                Err(LowercaseShift::Shifted)
            } else {
                let block = lb.subrange(bs, be);
                if find_from(block, double, 0) is Some || find_from(block, single, 0) is Some {
                    match text_between(hb, bs, be) {
                        None => Err(LowercaseShift::Shifted),
                        Some(tag) => match attr_content_scan(tag, "content"@) {
                            Err(e) => Err(e),
                            Ok(Some(c)) => Ok(Some(c)),
                            Ok(None) => meta_scan(lb, hb, double, single, be),
                        },
                    }
                } else {
                    meta_scan(lb, hb, double, single, be)
                }
            }
        },
    }
}

/// One step of the `<meta>` scan from `pos`: the next tag's start and end,
/// and whether its lowercased text holds one of the patterns; none where no
/// tag is left. `Err` where the tag's end found in the lowercased text is no
/// character boundary there, or the scan would not advance.
pub open spec fn meta_step(lb: Seq<u8>, hb: Seq<u8>, double: Seq<u8>, single: Seq<u8>, pos: int) -> Result<Option<(int, int, bool)>, LowercaseShift> {
    match find_from(lb, meta_open(), pos) {
        None => Ok(None),
        Some(bs) => {
            let be = match find_from(lb, tag_close(), bs) {
                Some(e) => e,
                None => hb.len() as int,
            };
            if !(pos <= bs < be && be <= lb.len() && is_char_boundary(lb, be)) {
                Err(LowercaseShift::Shifted)
            } else {
                let block = lb.subrange(bs, be);
                Ok(Some((bs, be, find_from(block, double, 0) is Some || find_from(block, single, 0) is Some)))
            }
        },
    }
}

/// The next `<meta>` tag of a page given with its lowercased text `html_lower`,
/// from byte `pos`, as `meta_step` finds it.
pub fn next_meta_tag(html: &str, html_lower: &str, double: &[u8], single: &[u8], pos: usize) -> (r: Result<Option<(usize, usize, bool)>, LowercaseShift>)
    ensures
        match r {
            Ok(Some(t)) => meta_step(encode_utf8(html_lower@), encode_utf8(html@), double@, single@, pos as int)
                == Ok::<Option<(int, int, bool)>, LowercaseShift>(Some((t.0 as int, t.1 as int, t.2))),
            Ok(None) => meta_step(encode_utf8(html_lower@), encode_utf8(html@), double@, single@, pos as int)
                == Ok::<Option<(int, int, bool)>, LowercaseShift>(None),
            Err(e) => meta_step(encode_utf8(html_lower@), encode_utf8(html@), double@, single@, pos as int)
                == Err::<Option<(int, int, bool)>, LowercaseShift>(e),
        },
{
    let lb = html_lower.as_bytes();
    let hb = html.as_bytes();
    let open = meta_open_bytes();
    let gt_byte = single_byte(62);
    let bs = match find_bytes(lb, open.as_slice(), pos) {
        Some(b) => b,
        None => return Ok(None),
    };
    let be = match find_bytes(lb, gt_byte.as_slice(), bs) {
        Some(e) => e,
        None => hb.len(),
    };
    if !(pos <= bs && bs < be && be <= lb.len() && html_lower.is_char_boundary(be)) {
        return Err(LowercaseShift::Shifted);
    }
    let block = &lb[bs..be];
    let hit_double = find_bytes(block, double, 0).is_some();
    let hit_single = find_bytes(block, single, 0).is_some();
    Ok(Some((bs, be, hit_double || hit_single)))
}

/// `key="value"` in lowercase, as bytes, with `quote` as the quote.
pub open spec fn key_value_pattern(key: Seq<char>, value: Seq<char>, quote: u8) -> Seq<u8> {
    encode_utf8(lowercase_of(key)) + seq![61u8, quote] + encode_utf8(lowercase_of(value)) + seq![quote]
}

/// The content of the first `<meta>` tag of a page naming `key="value"`.
pub open spec fn meta_content_scan(html: Seq<char>, key: Seq<char>, value: Seq<char>) -> Result<Option<Seq<char>>, LowercaseShift> {
    meta_scan(
        encode_utf8(lowercase_of(html)),
        encode_utf8(html),
        key_value_pattern(key, value, 34u8),
        key_value_pattern(key, value, 39u8),
        0,
    )
}

/// `key="value"` with `quote` as the quote, as bytes.
pub fn key_value_bytes(key_lower: &str, value_lower: &str, quote: u8) -> (v: Vec<u8>)
    ensures
        v@ == encode_utf8(key_lower@) + seq![61u8, quote] + encode_utf8(value_lower@) + seq![quote],
{
    let mut v: Vec<u8> = Vec::new();
    append_bytes(&mut v, key_lower.as_bytes());
    v.push(61);
    v.push(quote);
    append_bytes(&mut v, value_lower.as_bytes());
    v.push(quote);
    assert(v@ =~= encode_utf8(key_lower@) + seq![61u8, quote] + encode_utf8(value_lower@) + seq![quote]);
    v
}

/// The content of the first `<meta>` tag of a page naming `key="value"`, or
/// where lowercasing moved the offsets.
pub fn meta_content_in_page(html: &str, key: &str, value: &str) -> (r: Result<Option<String>, LowercaseShift>)
    ensures
        scan_result_view(r) == meta_content_scan(html@, key@, value@),
{
    let html_lower = to_lowercase(html);
    let key_lower = to_lowercase(key);
    let value_lower = to_lowercase(value);
    let double = key_value_bytes(key_lower.as_str(), value_lower.as_str(), 34);
    let single = key_value_bytes(key_lower.as_str(), value_lower.as_str(), 39);
    let lb = html_lower.as_str().as_bytes();
    let hb = html.as_bytes();
    let ghost goal = meta_content_scan(html@, key@, value@);
    let mut pos: usize = 0;
    loop
        invariant
            pos <= lb@.len(),
            lb@ == encode_utf8(lowercase_of(html@)),
            html_lower@ == lowercase_of(html@),
            hb@ == encode_utf8(html@),
            double@ == key_value_pattern(key@, value@, 34u8),
            single@ == key_value_pattern(key@, value@, 39u8),
            goal == meta_content_scan(html@, key@, value@),
            goal == meta_scan(lb@, hb@, double@, single@, pos as int),
        decreases lb@.len() + 1 - pos,
    {
        let (bs, be, hit) = match next_meta_tag(html, html_lower.as_str(), double.as_slice(), single.as_slice(), pos) {
            Err(e) => return Err(e),
            Ok(None) => return Ok(None),
            Ok(Some(t)) => t,
        };
        if hit {
            match text_between_exec(html, bs, be) {
                None => return Err(LowercaseShift::Shifted),
                Some(tag) => match attr_content_in_tag(tag.as_str(), "content") {
                    Err(e) => return Err(e),
                    Ok(Some(c)) => return Ok(Some(c)),
                    Ok(None) => {},
                },
            }
        }
        pos = be;
    }
}

/// The content of the first `<meta>` tag of a page whose lowercased text
/// holds `key="value"` or `key='value'` and which has a non-empty `content`.
pub fn meta_content_by_key(html: &str, key: &str, value: &str) -> (r: Option<String>)
    requires
        meta_content_scan(html@, key@, value@) is Ok,
    ensures
        Ok::<Option<Seq<char>>, LowercaseShift>(opt_string_view(r)) == meta_content_scan(html@, key@, value@),
{
    match meta_content_in_page(html, key, value) {
        Ok(t) => t,
        Err(_) => None,
    }
}

/// The metadata of a linked page.
#[derive(Debug)]
pub struct UrlMetadata {
    pub title: Option<String>,
    pub description: Option<String>,
    pub preview_image_url: Option<String>,
}

/// The metadata of a page: its title (else its `og:title`), its description
/// (else its `og:description`) and its `og:image`; none where it has none of
/// them. `Err` where lowercasing moved the offsets the scans cut at.
pub open spec fn metadata_scan(html: Seq<char>) -> Result<Option<(Option<Seq<char>>, Option<Seq<char>>, Option<Seq<char>>)>, LowercaseShift> {
    let title = match title_scan(html) {
        Err(e) => Err(e),
        Ok(Some(t)) => Ok(Some(t)),
        Ok(None) => meta_content_scan(html, "property"@, "og:title"@),
    };
    let description = match meta_content_scan(html, "name"@, "description"@) {
        Err(e) => Err(e),
        Ok(Some(d)) => Ok(Some(d)),
        Ok(None) => meta_content_scan(html, "property"@, "og:description"@),
    };
    let image = meta_content_scan(html, "property"@, "og:image"@);
    match (title, description, image) {
        (Ok(t), Ok(d), Ok(i)) => if t is None && d is None && i is None {
            Ok(None)
        } else {
            Ok(Some((t, d, i)))
        },
        _ => Err(LowercaseShift::Shifted),
    }
}

/// Law: where every scan of a page succeeds, its metadata takes the title
/// from `<title>` and else from `og:title`, the description from
/// `name="description"` and else from `og:description`, and the image from
/// `og:image`; and it is none exactly when the page gives none of the three.
pub proof fn lemma_metadata_fallbacks(html: Seq<char>)
    requires
        title_scan(html) is Ok,
        meta_content_scan(html, "property"@, "og:title"@) is Ok,
        meta_content_scan(html, "name"@, "description"@) is Ok,
        meta_content_scan(html, "property"@, "og:description"@) is Ok,
        meta_content_scan(html, "property"@, "og:image"@) is Ok,
    ensures
        metadata_scan(html) is Ok,
        forall|t: Seq<char>| title_scan(html) == Ok::<Option<Seq<char>>, LowercaseShift>(Some(t))
            ==> (metadata_scan(html) matches Ok(Some(m)) && m.0 == Some(t)),
        forall|t: Seq<char>| title_scan(html) == Ok::<Option<Seq<char>>, LowercaseShift>(None)
            && meta_content_scan(html, "property"@, "og:title"@) == Ok::<Option<Seq<char>>, LowercaseShift>(Some(t))
            ==> (metadata_scan(html) matches Ok(Some(m)) && m.0 == Some(t)),
        forall|d: Seq<char>| meta_content_scan(html, "name"@, "description"@) == Ok::<Option<Seq<char>>, LowercaseShift>(Some(d))
            ==> (metadata_scan(html) matches Ok(Some(m)) && m.1 == Some(d)),
        forall|d: Seq<char>| meta_content_scan(html, "name"@, "description"@) == Ok::<Option<Seq<char>>, LowercaseShift>(None)
            && meta_content_scan(html, "property"@, "og:description"@) == Ok::<Option<Seq<char>>, LowercaseShift>(Some(d))
            ==> (metadata_scan(html) matches Ok(Some(m)) && m.1 == Some(d)),
        forall|i: Seq<char>| meta_content_scan(html, "property"@, "og:image"@) == Ok::<Option<Seq<char>>, LowercaseShift>(Some(i))
            ==> (metadata_scan(html) matches Ok(Some(m)) && m.2 == Some(i)),
        metadata_scan(html) == Ok::<Option<(Option<Seq<char>>, Option<Seq<char>>, Option<Seq<char>>)>, LowercaseShift>(None) <==> (
            title_scan(html) == Ok::<Option<Seq<char>>, LowercaseShift>(None)
            && meta_content_scan(html, "property"@, "og:title"@) == Ok::<Option<Seq<char>>, LowercaseShift>(None)
            && meta_content_scan(html, "name"@, "description"@) == Ok::<Option<Seq<char>>, LowercaseShift>(None)
            && meta_content_scan(html, "property"@, "og:description"@) == Ok::<Option<Seq<char>>, LowercaseShift>(None)
            && meta_content_scan(html, "property"@, "og:image"@) == Ok::<Option<Seq<char>>, LowercaseShift>(None)),
{
}

pub open spec fn metadata_view(m: UrlMetadata) -> (Option<Seq<char>>, Option<Seq<char>>, Option<Seq<char>>) {
    (opt_string_view(m.title), opt_string_view(m.description), opt_string_view(m.preview_image_url))
}

/// The metadata of a page, or where lowercasing moved the offsets.
pub fn url_metadata_from_html(html: &str) -> (r: Result<Option<UrlMetadata>, LowercaseShift>)
    ensures
        match r {
            Ok(Some(m)) => metadata_scan(html@) == Ok::<Option<(Option<Seq<char>>, Option<Seq<char>>, Option<Seq<char>>)>, LowercaseShift>(Some(metadata_view(m))),
            Ok(None) => metadata_scan(html@) == Ok::<Option<(Option<Seq<char>>, Option<Seq<char>>, Option<Seq<char>>)>, LowercaseShift>(None),
            Err(e) => metadata_scan(html@) == Err::<Option<(Option<Seq<char>>, Option<Seq<char>>, Option<Seq<char>>)>, LowercaseShift>(e),
        },
{
    let title = match title_in_page(html) {
        Err(e) => return Err(e),
        Ok(Some(t)) => Some(t),
        Ok(None) => match meta_content_in_page(html, "property", "og:title") {
            Err(e) => return Err(e),
            Ok(t) => t,
        },
    };
    let description = match meta_content_in_page(html, "name", "description") {
        Err(e) => return Err(e),
        Ok(Some(d)) => Some(d),
        Ok(None) => match meta_content_in_page(html, "property", "og:description") {
            Err(e) => return Err(e),
            Ok(d) => d,
        },
    };
    let preview_image_url = match meta_content_in_page(html, "property", "og:image") {
        Err(e) => return Err(e),
        Ok(i) => i,
    };
    if title.is_none() && description.is_none() && preview_image_url.is_none() {
        return Ok(None);
    }
    Ok(Some(UrlMetadata { title, description, preview_image_url }))
}

} // verus!
