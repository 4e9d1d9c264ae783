//! The substitution policy: replacing each recognized tag occurrence with a
//! rendered fragment. This is deliberately separate from the scanner, so the
//! policy can be stated (and tested) over any well-formed occurrence list.

use vstd::prelude::*;

use crate::scan::Occurrence;
use crate::scan::SpecOcc;
use crate::scan::TagKind;
use crate::scan::matches_at;
use crate::scan::occs_view;
use crate::scan::spec_match_at;
use crate::scan::spec_scan;
use crate::scan::spec_tag_name;

verus! {

/// The occurrence list `occs[k..]` is ordered and in bounds: each span starts
/// no earlier than `from`, is well formed, ends within the text, and the next
/// span starts no earlier than this one ends.
pub open spec fn occs_wf_from(s: Seq<char>, occs: Seq<SpecOcc>, k: int, from: int) -> bool
    decreases occs.len() - k,
{
    if k < 0 || k >= occs.len() {
        true
    } else {
        from <= occs[k].start && occs[k].start <= occs[k].end && occs[k].end <= s.len()
            && occs_wf_from(s, occs, k + 1, occs[k].end)
    }
}

pub open spec fn frags_view(v: Seq<Vec<char>>) -> Seq<Seq<char>> {
    v.map_values(|x: Vec<char>| x@)
}

/// The text obtained from `s[from..]` by replacing, for each `j >= k`, the
/// span of `occs[j]` with `frags[j]`.
pub open spec fn spec_splice_from(
    s: Seq<char>,
    occs: Seq<SpecOcc>,
    frags: Seq<Seq<char>>,
    k: int,
    from: int,
) -> Seq<char>
    decreases occs.len() - k,
{
    if k < 0 || k >= occs.len() {
        s.subrange(from, s.len() as int)
    } else {
        s.subrange(from, occs[k].start) + frags[k] + spec_splice_from(
            s,
            occs,
            frags,
            k + 1,
            occs[k].end,
        )
    }
}

proof fn lemma_wf_cons(s: Seq<char>, o: SpecOcc, rest: Seq<SpecOcc>, k: int, from: int)
    requires
        0 <= k,
    ensures
        occs_wf_from(s, seq![o] + rest, k + 1, from) == occs_wf_from(s, rest, k, from),
    decreases rest.len() - k,
{
    let cat = seq![o] + rest;
    if k < rest.len() {
        assert(cat[k + 1] == rest[k]);
        lemma_wf_cons(s, o, rest, k + 1, rest[k].end);
    }
}

proof fn lemma_wf_weaken(s: Seq<char>, occs: Seq<SpecOcc>, k: int, from1: int, from2: int)
    requires
        occs_wf_from(s, occs, k, from1),
        from2 <= from1,
    ensures
        occs_wf_from(s, occs, k, from2),
{
}

/// Everything the scanner reports is well formed: occurrences come in text
/// order, never overlap, and lie within the scanned text.
pub proof fn lemma_scan_wf(s: Seq<char>, i: int)
    ensures
        occs_wf_from(s, spec_scan(s, i), 0, i),
    decreases s.len() - i,
{
    if 0 <= i && i < s.len() {
        match spec_match_at(s, i) {
            Some(o) => {
                if i < o.end && o.end <= s.len() {
                    lemma_scan_wf(s, o.end);
                    let rest = spec_scan(s, o.end);
                    assert(o.start == i);
                    lemma_wf_cons(s, o, rest, 0, o.end);
                } else {
                    lemma_scan_wf(s, i + 1);
                    lemma_wf_weaken(s, spec_scan(s, i + 1), 0, i + 1, i);
                }
            },
            None => {
                lemma_scan_wf(s, i + 1);
                lemma_wf_weaken(s, spec_scan(s, i + 1), 0, i + 1, i);
            },
        }
    }
}

fn copy_range_into(out: &mut Vec<char>, s: &Vec<char>, a: usize, b: usize)
    requires
        a <= b <= s@.len(),
    ensures
        final(out)@ == old(out)@ + s@.subrange(a as int, b as int),
{
    let mut j: usize = a;
    proof {
        assert(out@ =~= out@ + s@.subrange(a as int, a as int));
    }
    while j < b
        invariant
            a <= j <= b <= s@.len(),
            out@ == old(out)@ + s@.subrange(a as int, j as int),
        decreases b - j,
    {
        out.push(s[j]);
        proof {
            assert(out@ =~= old(out)@ + s@.subrange(a as int, j + 1));
        }
        j = j + 1;
    }
}

fn splice_rec(
    s: &Vec<char>,
    occs: &Vec<Occurrence>,
    frags: &Vec<Vec<char>>,
    k: usize,
    from: usize,
) -> (r: Vec<char>)
    requires
        occs_wf_from(s@, occs_view(occs@), k as int, from as int),
        frags@.len() == occs@.len(),
        k <= occs@.len(),
        from <= s@.len(),
    ensures
        r@ == spec_splice_from(s@, occs_view(occs@), frags_view(frags@), k as int, from as int),
    decreases occs@.len() - k,
{
    let mut out: Vec<char> = Vec::new();
    if k == occs.len() {
        copy_range_into(&mut out, s, from, s.len());
        return out;
    }
    let start = occs[k].start;
    let end = occs[k].end;
    proof {
        assert(occs_view(occs@)[k as int] == occs@[k as int]@);
        assert(from <= start && start <= end && end <= s@.len());
    }
    copy_range_into(&mut out, s, from, start);
    let mut j: usize = 0;
    let flen = frags[k].len();
    proof {
        assert(frags_view(frags@)[k as int] == frags@[k as int]@);
        assert(out@ =~= s@.subrange(from as int, start as int) + frags@[k as int]@.subrange(0, 0));
    }
    while j < flen
        invariant
            0 <= j <= flen,
            k < frags@.len(),
            flen == frags@[k as int]@.len(),
            out@ == s@.subrange(from as int, start as int) + frags@[k as int]@.subrange(
                0,
                j as int,
            ),
        decreases flen - j,
    {
        let c = frags[k][j];
        out.push(c);
        proof {
            assert(out@ =~= s@.subrange(from as int, start as int) + frags@[k as int]@.subrange(
                0,
                j + 1,
            ));
        }
        j = j + 1;
    }
    proof {
        assert(frags@[k as int]@.subrange(0, flen as int) =~= frags@[k as int]@);
    }
    let mut rest = splice_rec(s, occs, frags, k + 1, end);
    out.append(&mut rest);
    proof {
        assert(out@ =~= spec_splice_from(
            s@,
            occs_view(occs@),
            frags_view(frags@),
            k as int,
            from as int,
        ));
    }
    out
}

/// Replace each occurrence's span in `s` with the matching fragment, in one
/// left-to-right pass. The occurrence list must be ordered, non-overlapping
/// and in bounds, as the scanner guarantees of its output.
pub fn splice_fragments(s: &Vec<char>, occs: &Vec<Occurrence>, frags: &Vec<Vec<char>>) -> (r: Vec<
    char,
>)
    requires
        occs_wf_from(s@, occs_view(occs@), 0, 0),
        frags@.len() == occs@.len(),
    ensures
        r@ == spec_splice_from(s@, occs_view(occs@), frags_view(frags@), 0, 0),
{
    splice_rec(s, occs, frags, 0, 0)
}

/// A text in which the scanner recognizes nothing is left untouched by
/// splicing, whatever the fragment list.
pub proof fn lemma_no_occurrences_untouched(s: Seq<char>, frags: Seq<Seq<char>>)
    requires
        spec_scan(s, 0).len() == 0,
    ensures
        spec_splice_from(s, spec_scan(s, 0), frags, 0, 0) == s,
{
    assert(spec_splice_from(s, spec_scan(s, 0), frags, 0, 0) =~= s);
}

/// Only the two recognized tag names ever produce an occurrence: a match at
/// `i` means the text at `i + 1` spells `info-card` or `project-teaser`.
/// Any other custom tag is invisible to the scanner.
pub proof fn lemma_only_known_tags_match(s: Seq<char>, i: int)
    ensures
        spec_match_at(s, i) is Some ==> matches_at(s, i + 1, spec_tag_name(TagKind::InfoCard))
            || matches_at(s, i + 1, spec_tag_name(TagKind::ProjectTeaser)),
{
}

/// Expanding a document whose only recognized occurrence is `o` yields
/// exactly the text before the element, then the rendered fragment, then the
/// text after the element: the element itself is gone from the output.
pub proof fn lemma_single_occurrence_spliced(s: Seq<char>, o: SpecOcc, frags: Seq<Seq<char>>)
    requires
        spec_scan(s, 0) == seq![o],
        frags.len() == 1,
    ensures
        spec_splice_from(s, spec_scan(s, 0), frags, 0, 0) == s.subrange(0, o.start) + frags[0]
            + s.subrange(o.end, s.len() as int),
        spec_splice_from(s, spec_scan(s, 0), frags, 0, 0).subrange(
            o.start,
            o.start + frags[0].len(),
        ) == frags[0],
{
    lemma_scan_wf(s, 0);
    assert(seq![o][0] == o);
    assert(spec_splice_from(s, seq![o], frags, 1, o.end) =~= s.subrange(o.end, s.len() as int));
    assert(spec_splice_from(s, seq![o], frags, 0, 0) == s.subrange(0, o.start) + frags[0]
        + spec_splice_from(s, seq![o], frags, 1, o.end));
    let res = spec_splice_from(s, spec_scan(s, 0), frags, 0, 0);
    assert(s.subrange(0, o.start).len() == o.start);
    assert(res.subrange(o.start, o.start + frags[0].len()) =~= frags[0]);
}

} // verus!
