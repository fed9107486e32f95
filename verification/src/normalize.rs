//! The response normalizer: turns a backend's raw reply text into canonical
//! annotations, or falls back to the raw text unchanged.
//!
//! Steps, in order: try the whole text as an annotation array; otherwise
//! look for the first `[` and the last `]` and try the enclosed substring
//! (to recover an array embedded in surrounding prose); apply the provider's
//! axis correction to every parsed point; if nothing parses, hand the
//! original text back untouched.  The bracket search is documented
//! best-effort behavior, not a guarantee: prose that itself contains
//! brackets can defeat it.

use vstd::prelude::*;
use crate::model::{DetectionPoint, Provider, SpecAnnotation, spec_swaps_axes, swaps_axes};
use crate::parse::{spec_parse_document, parse_document_chars, str_chars, views_of};

verus! {

/// The outcome of normalization: either structured annotations, or the raw
/// reply text when no annotation array could be recovered.  An empty
/// annotation list is a valid success ("no detections"), distinct from the
/// raw-text fallback.
pub enum NormalizeOutcome {
    Annotations(Vec<DetectionPoint>),
    RawText(String),
}

/// The index of the first `[` at or after `i`, if any.
pub open spec fn spec_first_lbracket(s: Seq<char>, i: int) -> Option<int>
    decreases s.len() - i,
{
    if i < 0 || i >= s.len() {
        None
    } else if s[i] == '[' {
        Some(i)
    } else {
        spec_first_lbracket(s, i + 1)
    }
}

/// The index of the last `]` strictly before `i`, if any.
pub open spec fn spec_last_rbracket(s: Seq<char>, i: int) -> Option<int>
    decreases i,
{
    if i <= 0 || i > s.len() {
        None
    } else if s[i - 1] == ']' {
        Some(i - 1)
    } else {
        spec_last_rbracket(s, i - 1)
    }
}

/// Swapping the two point components of every annotation, for providers that
/// emit `(column, row)` order.
pub open spec fn spec_swap_all(a: Seq<SpecAnnotation>) -> Seq<SpecAnnotation> {
    a.map_values(
        |x: SpecAnnotation| SpecAnnotation { row: x.col, col: x.row, label: x.label },
    )
}

/// The annotations a provider's reply denotes before axis correction: the
/// direct parse if the whole text is an array, else the parse of the
/// substring between the first `[` and the last `]`.
pub open spec fn spec_extracted(s: Seq<char>) -> Option<Seq<SpecAnnotation>> {
    match spec_parse_document(s) {
        Some(v) => Some(v),
        None => match (spec_first_lbracket(s, 0), spec_last_rbracket(s, s.len() as int)) {
            (Some(lo), Some(hi)) => if lo <= hi {
                spec_parse_document(s.subrange(lo, hi + 1))
            } else {
                None
            },
            _ => None,
        },
    }
}

/// What `normalize` returns on reply text `s` from provider `p`, when an
/// array is recoverable.
pub open spec fn spec_normalize(s: Seq<char>, p: Provider) -> Option<Seq<SpecAnnotation>> {
    match spec_extracted(s) {
        Some(a) => Some(if spec_swaps_axes(p) { spec_swap_all(a) } else { a }),
        None => None,
    }
}

/// The full postcondition of normalization: structured annotations exactly
/// when the text denotes some, the original text unchanged otherwise.
pub open spec fn is_normalized(r: NormalizeOutcome, s: Seq<char>, p: Provider) -> bool {
    match spec_normalize(s, p) {
        Some(a) => r matches NormalizeOutcome::Annotations(v) && views_of(v@) == a,
        None => r matches NormalizeOutcome::RawText(t) && t@ == s,
    }
}

fn first_lbracket(s: &Vec<char>) -> (r: Option<usize>)
    ensures
        match r {
            Some(lo) => spec_first_lbracket(s@, 0) == Some(lo as int) && lo < s.len(),
            None => spec_first_lbracket(s@, 0) is None,
        },
{
    let mut i: usize = 0;
    while i < s.len()
        invariant
            i <= s.len(),
            spec_first_lbracket(s@, 0) == spec_first_lbracket(s@, i as int),
        decreases s.len() - i,
    {
        if s[i] == '[' {
            return Some(i);
        }
        i = i + 1;
    }
    None
}

fn last_rbracket(s: &Vec<char>) -> (r: Option<usize>)
    ensures
        match r {
            Some(hi) => spec_last_rbracket(s@, s@.len() as int) == Some(hi as int) && hi < s.len(),
            None => spec_last_rbracket(s@, s@.len() as int) is None,
        },
{
    let mut i: usize = s.len();
    while i > 0
        invariant
            i <= s.len(),
            spec_last_rbracket(s@, s@.len() as int) == spec_last_rbracket(s@, i as int),
        decreases i,
    {
        if s[i - 1] == ']' {
            return Some(i - 1);
        }
        i = i - 1;
    }
    None
}

fn subvec(s: &Vec<char>, lo: usize, hi: usize) -> (r: Vec<char>)
    requires
        lo <= hi <= s.len(),
    ensures
        r@ == s@.subrange(lo as int, hi as int),
{
    let mut r: Vec<char> = Vec::new();
    let mut i: usize = lo;
    while i < hi
        invariant
            lo <= i <= hi <= s.len(),
            r@ == s@.subrange(lo as int, i as int),
        decreases hi - i,
    {
        r.push(s[i]);
        i = i + 1;
        proof {
            assert(r@ =~= s@.subrange(lo as int, i as int));
        }
    }
    r
}

/// Applies the provider's axis correction to every parsed point.
fn apply_axis_correction(p: Provider, v: Vec<DetectionPoint>) -> (r: Vec<DetectionPoint>)
    ensures
        views_of(r@) == if spec_swaps_axes(p) {
            spec_swap_all(views_of(v@))
        } else {
            views_of(v@)
        },
{
    if !swaps_axes(p) {
        return v;
    }
    let mut r: Vec<DetectionPoint> = Vec::new();
    let mut i: usize = 0;
    while i < v.len()
        invariant
            i <= v.len(),
            views_of(r@) == spec_swap_all(views_of(v@.subrange(0, i as int))),
        decreases v.len() - i,
    {
        let ghost prev: int = i as int;
        let row = v[i].point[0];
        let col = v[i].point[1];
        let lab = v[i].label.clone();
        let d = DetectionPoint { point: [col, row], label: lab };
        proof {
            assert(d@ == (SpecAnnotation { row: col, col: row, label: v@[prev].label@ }));
            assert(d@ == spec_swap_all(views_of(v@)).index(prev));
        }
        let ghost r0: Seq<DetectionPoint> = r@;
        r.push(d);
        i = i + 1;
        proof {
            assert(views_of(r0).len() == r0.len());
            assert(spec_swap_all(views_of(v@.subrange(0, prev))).len() == prev);
            assert(r0.len() == prev);
            assert(v@.subrange(0, prev + 1) =~= v@.subrange(0, prev).push(v@[prev]));
            assert(views_of(v@.subrange(0, prev + 1)) =~= views_of(v@.subrange(0, prev)).push(
                v@[prev]@,
            ));
            assert forall|k: int| 0 <= k < r@.len() implies views_of(r@)[k] == spec_swap_all(
                views_of(v@.subrange(0, i as int)),
            )[k] by {
                assert(views_of(r@)[k] == r@[k]@);
                if k < prev {
                    assert(r@[k] == r0[k]);
                    assert(views_of(r0)[k] == r0[k]@);
                    assert(views_of(r0)[k] == spec_swap_all(views_of(v@.subrange(0, prev)))[k]);
                } else {
                    assert(r@[k] == d);
                }
            }
            assert(views_of(r@) =~= spec_swap_all(views_of(v@.subrange(0, i as int))));
        }
    }
    proof {
        assert(v@.subrange(0, v@.len() as int) =~= v@);
    }
    r
}

/// Normalizes a backend's reply text for provider `p`.
///
/// Returns structured annotations exactly when the text denotes an
/// annotation array (directly, or embedded between the outermost brackets),
/// with the provider's axis correction applied; otherwise returns the
/// original text unchanged.
pub fn normalize(text: &str, p: Provider) -> (r: NormalizeOutcome)
    ensures
        is_normalized(r, text@, p),
{
    let chars = str_chars(text);
    if let Some(v) = parse_document_chars(&chars) {
        return NormalizeOutcome::Annotations(apply_axis_correction(p, v));
    }
    if let Some(lo) = first_lbracket(&chars) {
        if let Some(hi) = last_rbracket(&chars) {
            if lo <= hi {
                let sub = subvec(&chars, lo, hi + 1);
                if let Some(v) = parse_document_chars(&sub) {
                    return NormalizeOutcome::Annotations(apply_axis_correction(p, v));
                }
            }
        }
    }
    NormalizeOutcome::RawText(text.to_owned())
}

/// LAW — direct parse round trip.  Whenever the reply text as a whole is a
/// well-formed annotation array, normalization yields exactly the
/// annotations that text denotes, after the provider's mandated axis swap
/// (the identity for providers that already use `(row, column)` order).
pub proof fn lemma_direct_parse_round_trip(s: Seq<char>, p: Provider)
    requires
        spec_parse_document(s) is Some,
    ensures
        spec_normalize(s, p) == Some(
            if spec_swaps_axes(p) {
                spec_swap_all(spec_parse_document(s).unwrap())
            } else {
                spec_parse_document(s).unwrap()
            },
        ),
{
}

/// LAW — embedded-array recovery.  Whenever the text is not itself an
/// annotation array but the substring between its first `[` and its last
/// `]` is one, normalization recovers exactly the annotations that
/// substring denotes, after the provider's axis swap.
pub proof fn lemma_embedded_recovery(s: Seq<char>, p: Provider, lo: int, hi: int)
    requires
        spec_parse_document(s) is None,
        spec_first_lbracket(s, 0) == Some(lo),
        spec_last_rbracket(s, s.len() as int) == Some(hi),
        lo <= hi,
        spec_parse_document(s.subrange(lo, hi + 1)) is Some,
    ensures
        spec_normalize(s, p) == Some(
            if spec_swaps_axes(p) {
                spec_swap_all(spec_parse_document(s.subrange(lo, hi + 1)).unwrap())
            } else {
                spec_parse_document(s.subrange(lo, hi + 1)).unwrap()
            },
        ),
{
}

proof fn lemma_first_lbracket_skip(s: Seq<char>, i: int, j: int)
    requires
        0 <= i <= j <= s.len(),
        forall|k: int| i <= k < j ==> s[k] != '[',
    ensures
        spec_first_lbracket(s, i) == spec_first_lbracket(s, j),
    decreases j - i,
{
    if i < j {
        lemma_first_lbracket_skip(s, i + 1, j);
    }
}

proof fn lemma_last_rbracket_skip(s: Seq<char>, i: int, j: int)
    requires
        0 <= i <= j <= s.len(),
        forall|k: int| i <= k < j ==> s[k] != ']',
    ensures
        spec_last_rbracket(s, j) == spec_last_rbracket(s, i),
    decreases j - i,
{
    if i < j {
        lemma_last_rbracket_skip(s, i, j - 1);
    }
}

/// LAW — prose-wrapped recovery.  For any text built from a well-formed
/// annotation array `mid` with arbitrary prose around it — any prefix free
/// of `[` and any suffix free of `]` — that is not itself a well-formed
/// array (as any non-blank prose makes it), normalization recovers exactly
/// the annotations `mid` denotes, after the provider's axis swap.
pub proof fn lemma_prose_wrapped_recovery(
    pre: Seq<char>,
    mid: Seq<char>,
    post: Seq<char>,
    p: Provider,
)
    requires
        forall|k: int| 0 <= k < pre.len() ==> pre[k] != '[',
        forall|k: int| 0 <= k < post.len() ==> post[k] != ']',
        mid.len() > 0,
        mid[0] == '[',
        mid[mid.len() - 1] == ']',
        spec_parse_document(mid) is Some,
        spec_parse_document(pre + mid + post) is None,
    ensures
        spec_normalize(pre + mid + post, p) == Some(
            if spec_swaps_axes(p) {
                spec_swap_all(spec_parse_document(mid).unwrap())
            } else {
                spec_parse_document(mid).unwrap()
            },
        ),
{
    let s: Seq<char> = pre + mid + post;
    let lo: int = pre.len() as int;
    let hi: int = pre.len() + mid.len() - 1;
    assert(s[lo] == '[');
    assert(s[hi] == ']');
    lemma_first_lbracket_skip(s, 0, lo);
    assert(spec_first_lbracket(s, lo) == Some(lo));
    lemma_last_rbracket_skip(s, hi + 1, s.len() as int);
    assert(spec_last_rbracket(s, hi + 1) == Some(hi));
    assert(s.subrange(lo, hi + 1) =~= mid);
}

/// LAW — raw-text fallback.  When neither the whole text nor the outermost
/// bracket substring parses as an annotation array, normalization returns
/// the original text unchanged (and, being verified, never panics).
pub proof fn lemma_raw_text_fallback(s: Seq<char>, p: Provider)
    requires
        spec_extracted(s) is None,
    ensures
        spec_normalize(s, p) is None,
        forall|r: NormalizeOutcome|
            is_normalized(r, s, p) ==> (r matches NormalizeOutcome::RawText(t) && t@ == s),
{
}

} // verus!
