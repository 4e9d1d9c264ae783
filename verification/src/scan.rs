//! Scanning HTML text for occurrences of the recognized component tags.
//!
//! The scanner works on a sequence of characters and recognizes a small,
//! explicit element grammar, documented on `spec_match_at`: a recognized
//! element is either self-closing (`<name a="v"/>`) or a start tag followed
//! by arbitrary content up to the first matching end tag
//! (`<name a="v">...</name>`). Names match case-sensitively, attribute
//! values must be double-quoted, and the first matching end tag closes a
//! container element, so nested tags are not re-expanded. Anything that does
//! not fit the grammar is left for the surrounding text and is never touched
//! by expansion.

use vstd::prelude::*;

verus! {

/// The fixed set of component tags the expander recognizes.
#[derive(Clone, Copy, PartialEq, Eq, Structural, Debug)]
pub enum TagKind {
    InfoCard,
    ProjectTeaser,
}

/// One attribute of a matched component tag, as written in the source text.
pub struct Attr {
    pub name: Vec<char>,
    pub value: Vec<char>,
}

/// Mathematical model of an attribute.
pub struct SpecAttr {
    pub name: Seq<char>,
    pub value: Seq<char>,
}

impl View for Attr {
    type V = SpecAttr;

    open spec fn view(&self) -> SpecAttr {
        SpecAttr { name: self.name@, value: self.value@ }
    }
}

pub open spec fn attrs_view(v: Seq<Attr>) -> Seq<SpecAttr> {
    v.map_values(|a: Attr| a@)
}

/// One occurrence of a recognized component tag: its kind, its attributes in
/// source order, and the half-open span `[start, end)` of the whole element
/// in the scanned text.
pub struct Occurrence {
    pub kind: TagKind,
    pub attrs: Vec<Attr>,
    pub start: usize,
    pub end: usize,
}

/// Mathematical model of an occurrence.
pub struct SpecOcc {
    pub kind: TagKind,
    pub attrs: Seq<SpecAttr>,
    pub start: int,
    pub end: int,
}

impl View for Occurrence {
    type V = SpecOcc;

    open spec fn view(&self) -> SpecOcc {
        SpecOcc {
            kind: self.kind,
            attrs: attrs_view(self.attrs@),
            start: self.start as int,
            end: self.end as int,
        }
    }
}

pub open spec fn occs_view(v: Seq<Occurrence>) -> Seq<SpecOcc> {
    v.map_values(|o: Occurrence| o@)
}

/// The source name of a recognized tag.
pub open spec fn spec_tag_name(k: TagKind) -> Seq<char> {
    match k {
        TagKind::InfoCard => seq!['i', 'n', 'f', 'o', '-', 'c', 'a', 'r', 'd'],
        TagKind::ProjectTeaser => seq![
            'p', 'r', 'o', 'j', 'e', 'c', 't', '-', 't', 'e', 'a', 's', 'e', 'r',
        ],
    }
}

/// The end-tag text `</name>` of a recognized tag.
pub open spec fn spec_close_pat(k: TagKind) -> Seq<char> {
    seq!['<', '/'] + spec_tag_name(k) + seq!['>']
}

pub open spec fn is_space(c: char) -> bool {
    c == ' ' || c == '\t' || c == '\n' || c == '\r'
}

/// Characters allowed in an attribute name.
pub open spec fn is_name_char(c: char) -> bool {
    !is_space(c) && c != '=' && c != '"' && c != '/' && c != '>' && c != '<'
}

/// `pat` occurs in `s` starting exactly at index `i`.
pub open spec fn matches_at(s: Seq<char>, i: int, pat: Seq<char>) -> bool {
    0 <= i && i + pat.len() <= s.len() && s.subrange(i, i + pat.len()) == pat
}

/// Index of the first non-space character at or after `i`.
pub open spec fn skip_spaces(s: Seq<char>, i: int) -> int
    decreases s.len() - i,
{
    if 0 <= i && i < s.len() && is_space(s[i]) {
        skip_spaces(s, i + 1)
    } else {
        i
    }
}

/// Index just past the run of name characters starting at `i`.
pub open spec fn name_end(s: Seq<char>, i: int) -> int
    decreases s.len() - i,
{
    if 0 <= i && i < s.len() && is_name_char(s[i]) {
        name_end(s, i + 1)
    } else {
        i
    }
}

/// Index of the first `"` at or after `i`, or `s.len()` if there is none.
pub open spec fn quote_end(s: Seq<char>, i: int) -> int
    decreases s.len() - i,
{
    if 0 <= i && i < s.len() {
        if s[i] == '"' {
            i
        } else {
            quote_end(s, i + 1)
        }
    } else {
        s.len() as int
    }
}

/// Index of the first occurrence of `pat` at or after `i`, or `-1` if none.
pub open spec fn find_from(s: Seq<char>, i: int, pat: Seq<char>) -> int
    decreases s.len() - i,
{
    if 0 <= i && pat.len() > 0 && i + pat.len() <= s.len() {
        if matches_at(s, i, pat) {
            i
        } else {
            find_from(s, i + 1, pat)
        }
    } else {
        -1
    }
}

/// One attribute starting at `i` (which must be the first name character):
/// a non-empty name, `=`, then a double-quoted value. Returns the attribute
/// and the index just past the closing quote.
pub open spec fn parse_attr_at(s: Seq<char>, i: int) -> Option<(SpecAttr, int)> {
    let j = name_end(s, i);
    if j == i {
        None
    } else if j + 1 < s.len() && s[j] == '=' && s[j + 1] == '"' {
        let q = quote_end(s, j + 2);
        if q < s.len() {
            Some((SpecAttr { name: s.subrange(i, j), value: s.subrange(j + 2, q) }, q + 1))
        } else {
            None
        }
    } else {
        None
    }
}

/// The attribute list following a tag name, each attribute preceded by at
/// least one space. Returns the attributes and the index of the terminator,
/// which is either `>` or the `/` of a final `/>`. `None` when the tag is
/// not terminated or an attribute is malformed.
pub open spec fn parse_attrs(s: Seq<char>, i: int) -> Option<(Seq<SpecAttr>, int)>
    decreases s.len() - i,
{
    let j = skip_spaces(s, i);
    if j >= s.len() || j < 0 {
        None
    } else if s[j] == '>' {
        Some((Seq::empty(), j))
    } else if s[j] == '/' {
        if j + 1 < s.len() && s[j + 1] == '>' {
            Some((Seq::empty(), j))
        } else {
            None
        }
    } else if j == i {
        None
    } else {
        match parse_attr_at(s, j) {
            Some((a, n)) => {
                if n > i {
                    match parse_attrs(s, n) {
                        Some((rest, t)) => Some((seq![a] + rest, t)),
                        None => None,
                    }
                } else {
                    None
                }
            },
            None => None,
        }
    }
}

/// A recognized element of kind `k` starting at `i`: `<`, the tag name, a
/// delimiter, a well-formed attribute list, and either `/>` or a `>` with a
/// matching end tag somewhere later. The span covers the whole element, end
/// tag included; for a non-self-closing element the first matching end tag
/// closes it, so inner content is never re-scanned.
pub open spec fn match_tag_at(s: Seq<char>, i: int, k: TagKind) -> Option<SpecOcc> {
    let name = spec_tag_name(k);
    let p = i + 1 + name.len();
    if 0 <= i && i < s.len() && s[i] == '<' && matches_at(s, i + 1, name) && p < s.len()
        && (is_space(s[p]) || s[p] == '/' || s[p] == '>') {
        match parse_attrs(s, p) {
            Some((attrs, t)) => {
                if s[t] == '>' {
                    let c = find_from(s, t + 1, spec_close_pat(k));
                    if c >= 0 {
                        Some(
                            SpecOcc {
                                kind: k,
                                attrs,
                                start: i,
                                end: c + spec_close_pat(k).len(),
                            },
                        )
                    } else {
                        None
                    }
                } else {
                    Some(SpecOcc { kind: k, attrs, start: i, end: t + 2 })
                }
            },
            None => None,
        }
    } else {
        None
    }
}

/// The occurrence, if any, of a recognized component tag starting at `i`.
pub open spec fn spec_match_at(s: Seq<char>, i: int) -> Option<SpecOcc> {
    if match_tag_at(s, i, TagKind::InfoCard) is Some {
        match_tag_at(s, i, TagKind::InfoCard)
    } else {
        match_tag_at(s, i, TagKind::ProjectTeaser)
    }
}

fn is_space_x(c: char) -> (r: bool)
    ensures
        r == is_space(c),
{
    c == ' ' || c == '\t' || c == '\n' || c == '\r'
}

fn is_name_char_x(c: char) -> (r: bool)
    ensures
        r == is_name_char(c),
{
    !is_space_x(c) && c != '=' && c != '"' && c != '/' && c != '>' && c != '<'
}

/// The source name of a recognized tag, as character data.
pub fn tag_name(k: TagKind) -> (r: Vec<char>)
    ensures
        r@ == spec_tag_name(k),
{
    match k {
        TagKind::InfoCard => {
            let v = vec!['i', 'n', 'f', 'o', '-', 'c', 'a', 'r', 'd'];
            proof {
                assert(v@ =~= spec_tag_name(TagKind::InfoCard));
            }
            v
        },
        TagKind::ProjectTeaser => {
            let v = vec!['p', 'r', 'o', 'j', 'e', 'c', 't', '-', 't', 'e', 'a', 's', 'e', 'r'];
            proof {
                assert(v@ =~= spec_tag_name(TagKind::ProjectTeaser));
            }
            v
        },
    }
}

fn close_pat_x(k: TagKind) -> (r: Vec<char>)
    ensures
        r@ == spec_close_pat(k),
{
    let mut v: Vec<char> = Vec::new();
    v.push('<');
    v.push('/');
    let mut name = tag_name(k);
    v.append(&mut name);
    v.push('>');
    proof {
        assert(v@ =~= spec_close_pat(k));
    }
    v
}

fn matches_prefix(s: &Vec<char>, i: usize, pat: &Vec<char>) -> (r: bool)
    requires
        i <= s@.len(),
    ensures
        r == matches_at(s@, i as int, pat@),
{
    if pat.len() > s.len() - i {
        return false;
    }
    let mut j: usize = 0;
    while j < pat.len()
        invariant
            0 <= j <= pat@.len(),
            i + pat@.len() <= s@.len() <= usize::MAX,
            forall|t: int| 0 <= t < j ==> s@[i + t] == pat@[t],
        decreases pat@.len() - j,
    {
        if s[i + j] != pat[j] {
            proof {
                assert(s@.subrange(i as int, i + pat@.len())[j as int] != pat@[j as int]);
            }
            return false;
        }
        j = j + 1;
    }
    proof {
        assert(s@.subrange(i as int, i + pat@.len()) =~= pat@);
    }
    true
}

fn skip_spaces_x(s: &Vec<char>, i: usize) -> (r: usize)
    requires
        i <= s@.len(),
    ensures
        r as int == skip_spaces(s@, i as int),
        i <= r <= s@.len(),
{
    let mut j: usize = i;
    while j < s.len() && is_space_x(s[j])
        invariant
            i <= j <= s@.len(),
            skip_spaces(s@, i as int) == skip_spaces(s@, j as int),
        decreases s@.len() - j,
    {
        j = j + 1;
    }
    j
}

fn name_end_x(s: &Vec<char>, i: usize) -> (r: usize)
    requires
        i <= s@.len(),
    ensures
        r as int == name_end(s@, i as int),
        i <= r <= s@.len(),
{
    let mut j: usize = i;
    while j < s.len() && is_name_char_x(s[j])
        invariant
            i <= j <= s@.len(),
            name_end(s@, i as int) == name_end(s@, j as int),
        decreases s@.len() - j,
    {
        j = j + 1;
    }
    j
}

fn quote_end_x(s: &Vec<char>, i: usize) -> (r: usize)
    requires
        i <= s@.len(),
    ensures
        r as int == quote_end(s@, i as int),
        i <= r <= s@.len(),
{
    let mut j: usize = i;
    while j < s.len() && s[j] != '"'
        invariant
            i <= j <= s@.len(),
            quote_end(s@, i as int) == quote_end(s@, j as int),
        decreases s@.len() - j,
    {
        j = j + 1;
    }
    j
}

fn find_from_x(s: &Vec<char>, i: usize, pat: &Vec<char>) -> (r: Option<usize>)
    requires
        i <= s@.len(),
        pat@.len() > 0,
    ensures
        (match r {
            Some(c) => find_from(s@, i as int, pat@) == c as int && i <= c && c + pat@.len()
                <= s@.len() && matches_at(s@, c as int, pat@),
            None => find_from(s@, i as int, pat@) == -1,
        }),
{
    let mut j: usize = i;
    while j < s.len() && pat.len() <= s.len() - j
        invariant
            i <= j <= s@.len(),
            pat@.len() > 0,
            find_from(s@, i as int, pat@) == find_from(s@, j as int, pat@),
        decreases s@.len() - j,
    {
        if matches_prefix(s, j, pat) {
            return Some(j);
        }
        j = j + 1;
    }
    None
}

fn copy_range(s: &Vec<char>, a: usize, b: usize) -> (r: Vec<char>)
    requires
        a <= b <= s@.len(),
    ensures
        r@ == s@.subrange(a as int, b as int),
{
    let mut out: Vec<char> = Vec::new();
    let mut j: usize = a;
    while j < b
        invariant
            a <= j <= b <= s@.len(),
            out@ == s@.subrange(a as int, j as int),
        decreases b - j,
    {
        out.push(s[j]);
        proof {
            assert(out@ =~= s@.subrange(a as int, j + 1));
        }
        j = j + 1;
    }
    out
}

fn parse_attr_at_x(s: &Vec<char>, i: usize) -> (r: Option<(Attr, usize)>)
    requires
        i <= s@.len(),
    ensures
        (match r {
            Some(p) => parse_attr_at(s@, i as int) == Some((p.0@, p.1 as int)) && i < p.1 <= s@.len(),
            None => parse_attr_at(s@, i as int) is None,
        }),
{
    let j = name_end_x(s, i);
    if j == i {
        return None;
    }
    if j < s.len() && s[j] == '=' && j + 1 < s.len() && s[j + 1] == '"' {
        let q = quote_end_x(s, j + 2);
        if q < s.len() {
            let name = copy_range(s, i, j);
            let value = copy_range(s, j + 2, q);
            Some((Attr { name, value }, q + 1))
        } else {
            None
        }
    } else {
        None
    }
}

fn parse_attrs_x(s: &Vec<char>, i: usize) -> (r: Option<(Vec<Attr>, usize)>)
    requires
        i <= s@.len(),
    ensures
        (match r {
            Some(p) => parse_attrs(s@, i as int) == Some((attrs_view(p.0@), p.1 as int)) && i
                <= p.1 && p.1 < s@.len() && (s@[p.1 as int] == '>' || (s@[p.1 as int] == '/' && p.1
                + 2 <= s@.len() && s@[p.1 + 1] == '>')),
            None => parse_attrs(s@, i as int) is None,
        }),
    decreases s@.len() - i,
{
    let j = skip_spaces_x(s, i);
    if j >= s.len() {
        return None;
    }
    if s[j] == '>' {
        let empty: Vec<Attr> = Vec::new();
        proof {
            assert(attrs_view(empty@) =~= Seq::<SpecAttr>::empty());
        }
        return Some((empty, j));
    }
    if s[j] == '/' {
        if j + 1 < s.len() && s[j + 1] == '>' {
            let empty: Vec<Attr> = Vec::new();
            proof {
                assert(attrs_view(empty@) =~= Seq::<SpecAttr>::empty());
            }
            return Some((empty, j));
        }
        return None;
    }
    if j == i {
        return None;
    }
    match parse_attr_at_x(s, j) {
        Some((a, n)) => {
            match parse_attrs_x(s, n) {
                Some((mut rest, t)) => {
                    let ghost old_rest = rest@;
                    rest.insert(0, a);
                    proof {
                        assert(attrs_view(rest@) =~= seq![a@] + attrs_view(old_rest));
                    }
                    Some((rest, t))
                },
                None => None,
            }
        },
        None => None,
    }
}

fn match_tag_at_x(s: &Vec<char>, i: usize, k: TagKind) -> (r: Option<Occurrence>)
    requires
        i < s@.len(),
    ensures
        (match r {
            Some(o) => match_tag_at(s@, i as int, k) == Some(o@) && i < o.end && o.end <= s@.len()
                && o.start == i,
            None => match_tag_at(s@, i as int, k) is None,
        }),
{
    let slen = s.len();
    if s[i] != '<' {
        return None;
    }
    let name = tag_name(k);
    if !matches_prefix(s, i + 1, &name) {
        return None;
    }
    proof {
        assert(i + 1 + name@.len() <= s@.len());
    }
    let p = i + 1 + name.len();
    if p >= slen {
        return None;
    }
    if !(is_space_x(s[p]) || s[p] == '/' || s[p] == '>') {
        return None;
    }
    match parse_attrs_x(s, p) {
        Some((attrs, t)) => {
            if s[t] == '>' {
                let close = close_pat_x(k);
                match find_from_x(s, t + 1, &close) {
                    Some(c) => Some(
                        Occurrence { kind: k, attrs, start: i, end: c + close.len() },
                    ),
                    None => None,
                }
            } else {
                Some(Occurrence { kind: k, attrs, start: i, end: t + 2 })
            }
        },
        None => None,
    }
}

fn match_at_x(s: &Vec<char>, i: usize) -> (r: Option<Occurrence>)
    requires
        i < s@.len(),
    ensures
        (match r {
            Some(o) => spec_match_at(s@, i as int) == Some(o@) && i < o.end && o.end <= s@.len(),
            None => spec_match_at(s@, i as int) is None,
        }),
{
    match match_tag_at_x(s, i, TagKind::InfoCard) {
        Some(o) => Some(o),
        None => match_tag_at_x(s, i, TagKind::ProjectTeaser),
    }
}

/// All recognized occurrences from `i` on, in text order: the scan advances
/// one character at a time and, on a match, jumps past the whole element,
/// so occurrences never overlap.
pub open spec fn spec_scan(s: Seq<char>, i: int) -> Seq<SpecOcc>
    decreases s.len() - i,
{
    if i < 0 || i >= s.len() {
        Seq::empty()
    } else {
        match spec_match_at(s, i) {
            Some(o) => {
                if i < o.end && o.end <= s.len() {
                    seq![o] + spec_scan(s, o.end)
                } else {
                    spec_scan(s, i + 1)
                }
            },
            None => spec_scan(s, i + 1),
        }
    }
}

/// Scan a document for all recognized component tag occurrences, in order.
pub fn scan_components(html: &Vec<char>) -> (r: Vec<Occurrence>)
    ensures
        occs_view(r@) == spec_scan(html@, 0),
{
    let mut out: Vec<Occurrence> = Vec::new();
    let mut i: usize = 0;
    proof {
        assert(spec_scan(html@, 0) =~= occs_view(out@) + spec_scan(html@, 0));
    }
    while i < html.len()
        invariant
            i <= html@.len(),
            spec_scan(html@, 0) == occs_view(out@) + spec_scan(html@, i as int),
        decreases html@.len() - i,
    {
        match match_at_x(html, i) {
            Some(o) => {
                let e = o.end;
                proof {
                    assert(spec_scan(html@, i as int) == seq![o@] + spec_scan(html@, e as int));
                    assert(occs_view(out@.push(o)) =~= occs_view(out@) + seq![o@]);
                    assert(occs_view(out@.push(o)) + spec_scan(html@, e as int) =~= occs_view(out@)
                        + spec_scan(html@, i as int));
                }
                out.push(o);
                i = e;
            },
            None => {
                proof {
                    assert(spec_scan(html@, i as int) == spec_scan(html@, i + 1));
                }
                i = i + 1;
            },
        }
    }
    proof {
        assert(occs_view(out@) + spec_scan(html@, i as int) =~= occs_view(out@));
    }
    out
}

} // verus!
