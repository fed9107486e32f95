//! A verified parser for the annotation arrays the backends emit: a JSON
//! array of objects of the shape `{"point": [r, c], "label": "text"}`.
//!
//! The grammar is the library's own definition of a well-formed annotation
//! reply: arbitrary whitespace between tokens, the two object members in
//! either order, decimal point coordinates that must fit in `u32`, and labels
//! as JSON strings with the single-character escapes (`\" \\ \/ \b \f \n \r
//! \t`).  Anything else fails the parse, and the caller falls back to raw
//! text.

use vstd::prelude::*;
use crate::model::{DetectionPoint, SpecAnnotation};

verus! {

pub open spec fn is_ws(c: char) -> bool {
    c == ' ' || c == '\t' || c == '\n' || c == '\r'
}

pub open spec fn is_digit(c: char) -> bool {
    '0' <= c && c <= '9'
}

pub open spec fn digit_val(c: char) -> int {
    (c as u32) as int - ('0' as u32) as int
}

pub open spec fn digit_char(d: int) -> char {
    ((48 + d) as u8) as char
}

/// The decimal digits of a non-negative number, most significant first.
pub open spec fn spec_decimal(n: int) -> Seq<char>
    decreases n,
{
    if n < 10 {
        seq![digit_char(n)]
    } else {
        spec_decimal(n / 10).push(digit_char(n % 10))
    }
}

/// The index of the first non-whitespace character at or after `i`.
pub open spec fn spec_skip_ws(s: Seq<char>, i: int) -> int
    decreases s.len() - i,
{
    if 0 <= i < s.len() && is_ws(s[i]) {
        spec_skip_ws(s, i + 1)
    } else {
        i
    }
}

/// The numeric value of the digit run `s[i..e)`.
pub open spec fn spec_digits_val(s: Seq<char>, i: int, e: int) -> int
    decreases e - i,
{
    if i >= e {
        0
    } else {
        spec_digits_val(s, i, e - 1) * 10 + digit_val(s[e - 1])
    }
}

pub open spec fn all_digits(s: Seq<char>, i: int, e: int) -> bool {
    forall|k: int| i <= k < e ==> is_digit(s[k])
}

/// The end of the digit run starting at `i`.
pub open spec fn spec_digit_end(s: Seq<char>, i: int) -> int
    decreases s.len() - i,
{
    if 0 <= i < s.len() && is_digit(s[i]) {
        spec_digit_end(s, i + 1)
    } else {
        i
    }
}

pub proof fn lemma_digit_end_bounds(s: Seq<char>, i: int)
    requires
        0 <= i <= s.len(),
    ensures
        i <= spec_digit_end(s, i) <= s.len(),
        all_digits(s, i, spec_digit_end(s, i)),
        spec_digit_end(s, i) < s.len() ==> !is_digit(s[spec_digit_end(s, i)]),
    decreases s.len() - i,
{
    if i < s.len() && is_digit(s[i]) {
        lemma_digit_end_bounds(s, i + 1);
    }
}

pub proof fn lemma_digits_val_nonneg(s: Seq<char>, i: int, e: int)
    requires
        all_digits(s, i, e),
    ensures
        spec_digits_val(s, i, e) >= 0,
    decreases e - i,
{
    if i < e {
        lemma_digits_val_nonneg(s, i, e - 1);
    }
}

/// Appending digits never shrinks the value: the value of a digit run is at
/// least the value of any of its prefixes.
pub proof fn lemma_digits_val_monotone(s: Seq<char>, i: int, j: int, e: int)
    requires
        i <= j <= e,
        all_digits(s, i, e),
    ensures
        spec_digits_val(s, i, j) <= spec_digits_val(s, i, e),
    decreases e - j,
{
    if j < e {
        lemma_digits_val_monotone(s, i, j, e - 1);
        lemma_digits_val_nonneg(s, i, e - 1);
    }
}

/// Parses a decimal `u32` at `i`: at least one digit, value within `u32`.
/// Returns the value and the index just past the digit run.
pub open spec fn spec_parse_u32(s: Seq<char>, i: int) -> Option<(u32, int)> {
    let e = spec_digit_end(s, i);
    if e == i {
        None
    } else if spec_digits_val(s, i, e) > u32::MAX {
        None
    } else {
        Some((spec_digits_val(s, i, e) as u32, e))
    }
}

/// Parses the body of a JSON string (the opening quote already consumed),
/// accumulating decoded characters; returns the content and the index just
/// past the closing quote.
pub open spec fn spec_string_body(s: Seq<char>, i: int, acc: Seq<char>) -> Option<(Seq<char>, int)>
    decreases s.len() - i,
{
    if i < 0 || i >= s.len() {
        None
    } else if s[i] == '"' {
        Some((acc, i + 1))
    } else if s[i] == '\\' {
        if i + 1 < s.len() {
            let c = s[i + 1];
            if c == '"' {
                spec_string_body(s, i + 2, acc.push('"'))
            } else if c == '\\' {
                spec_string_body(s, i + 2, acc.push('\\'))
            } else if c == '/' {
                spec_string_body(s, i + 2, acc.push('/'))
            } else if c == 'n' {
                spec_string_body(s, i + 2, acc.push('\n'))
            } else if c == 'r' {
                spec_string_body(s, i + 2, acc.push('\r'))
            } else if c == 't' {
                spec_string_body(s, i + 2, acc.push('\t'))
            } else if c == 'b' {
                spec_string_body(s, i + 2, acc.push('\u{0008}'))
            } else if c == 'f' {
                spec_string_body(s, i + 2, acc.push('\u{000C}'))
            } else {
                None
            }
        } else {
            None
        }
    } else if (s[i] as u32) < 32 {
        None
    } else {
        spec_string_body(s, i + 1, acc.push(s[i]))
    }
}

/// Parses a JSON string starting at the opening quote at `i`.
pub open spec fn spec_parse_string(s: Seq<char>, i: int) -> Option<(Seq<char>, int)> {
    if 0 <= i < s.len() && s[i] == '"' {
        spec_string_body(s, i + 1, Seq::empty())
    } else {
        None
    }
}

pub open spec fn point_key() -> Seq<char> {
    seq!['p', 'o', 'i', 'n', 't']
}

pub open spec fn label_key() -> Seq<char> {
    seq!['l', 'a', 'b', 'e', 'l']
}

/// One member of an annotation object, spec level.
pub ghost enum SpecMember {
    PointM(u32, u32),
    LabelM(Seq<char>),
}

/// Parses `"point": [r, c]` or `"label": "text"`, the key starting at `i`.
pub open spec fn spec_parse_member(s: Seq<char>, i: int) -> Option<(SpecMember, int)> {
    match spec_parse_string(s, i) {
        None => None,
        Some((key, k)) => {
            let l = spec_skip_ws(s, k);
            if !(l < s.len() && s[l] == ':') {
                None
            } else {
                let m = spec_skip_ws(s, l + 1);
                if key == point_key() {
                    if !(m < s.len() && s[m] == '[') {
                        None
                    } else {
                        let a = spec_skip_ws(s, m + 1);
                        match spec_parse_u32(s, a) {
                            None => None,
                            Some((n1, b)) => {
                                let c = spec_skip_ws(s, b);
                                if !(c < s.len() && s[c] == ',') {
                                    None
                                } else {
                                    let d = spec_skip_ws(s, c + 1);
                                    match spec_parse_u32(s, d) {
                                        None => None,
                                        Some((n2, e)) => {
                                            let f = spec_skip_ws(s, e);
                                            if f < s.len() && s[f] == ']' {
                                                Some((SpecMember::PointM(n1, n2), f + 1))
                                            } else {
                                                None
                                            }
                                        },
                                    }
                                }
                            },
                        }
                    }
                } else if key == label_key() {
                    match spec_parse_string(s, m) {
                        None => None,
                        Some((lab, e)) => Some((SpecMember::LabelM(lab), e)),
                    }
                } else {
                    None
                }
            }
        },
    }
}

/// Parses one annotation object starting at the `{` at `i`: exactly one
/// `point` member and one `label` member, in either order.
pub open spec fn spec_parse_obj(s: Seq<char>, i: int) -> Option<(SpecAnnotation, int)> {
    if !(0 <= i < s.len() && s[i] == '{') {
        None
    } else {
        let j = spec_skip_ws(s, i + 1);
        match spec_parse_member(s, j) {
            None => None,
            Some((m1, k)) => {
                let l = spec_skip_ws(s, k);
                if !(l < s.len() && s[l] == ',') {
                    None
                } else {
                    let p = spec_skip_ws(s, l + 1);
                    match spec_parse_member(s, p) {
                        None => None,
                        Some((m2, q)) => {
                            let r = spec_skip_ws(s, q);
                            if !(r < s.len() && s[r] == '}') {
                                None
                            } else {
                                match (m1, m2) {
                                    (SpecMember::PointM(n1, n2), SpecMember::LabelM(lab)) => Some(
                                        (SpecAnnotation { row: n1, col: n2, label: lab }, r + 1),
                                    ),
                                    (SpecMember::LabelM(lab), SpecMember::PointM(n1, n2)) => Some(
                                        (SpecAnnotation { row: n1, col: n2, label: lab }, r + 1),
                                    ),
                                    _ => None,
                                }
                            }
                        },
                    }
                }
            },
        }
    }
}

/// Parses the items of a non-empty array: objects separated by commas, ending
/// at the closing `]`; returns all items parsed so far appended to `acc` and
/// the index just past the `]`.
pub open spec fn spec_parse_items(s: Seq<char>, i: int, acc: Seq<SpecAnnotation>) -> Option<
    (Seq<SpecAnnotation>, int),
>
    decreases s.len() - i,
{
    let j = spec_skip_ws(s, i);
    match spec_parse_obj(s, j) {
        None => None,
        Some((a, k)) => {
            let m = spec_skip_ws(s, k);
            if m < s.len() && s[m] == ',' {
                if i < m + 1 <= s.len() {
                    spec_parse_items(s, m + 1, acc.push(a))
                } else {
                    None
                }
            } else if m < s.len() && s[m] == ']' {
                Some((acc.push(a), m + 1))
            } else {
                None
            }
        },
    }
}

/// Parses a whole array starting at the `[` at `i`.
pub open spec fn spec_parse_arr(s: Seq<char>, i: int) -> Option<(Seq<SpecAnnotation>, int)> {
    if !(0 <= i < s.len() && s[i] == '[') {
        None
    } else {
        let j = spec_skip_ws(s, i + 1);
        if j < s.len() && s[j] == ']' {
            Some((Seq::empty(), j + 1))
        } else {
            spec_parse_items(s, i + 1, Seq::empty())
        }
    }
}

/// Parses a complete text as one annotation array: leading whitespace, the
/// array, trailing whitespace, end of input.
pub open spec fn spec_parse_document(s: Seq<char>) -> Option<Seq<SpecAnnotation>> {
    let i = spec_skip_ws(s, 0);
    match spec_parse_arr(s, i) {
        None => None,
        Some((v, j)) => if 0 <= j <= s.len() && spec_skip_ws(s, j) == s.len() {
            Some(v)
        } else {
            None
        },
    }
}

// ---------------------------------------------------------------------------
// Exec side
// ---------------------------------------------------------------------------

/// Relies on `String`'s `FromIterator<char>` impl: collecting characters
/// yields a string holding exactly those characters in order.
#[verifier::external_body]
pub fn chars_to_string(v: &Vec<char>) -> (s: String)
    ensures
        s@ == v@,
{
    v.iter().collect()
}

/// The characters of a string slice, as a vector.
pub fn str_chars(s: &str) -> (v: Vec<char>)
    ensures
        v@ == s@,
{
    let n = s.unicode_len();
    let mut v: Vec<char> = Vec::new();
    let mut i: usize = 0;
    while i < n
        invariant
            i <= n,
            n == s@.len(),
            v@ == s@.subrange(0, i as int),
        decreases n - i,
    {
        let c = s.get_char(i);
        v.push(c);
        i = i + 1;
        proof {
            assert(v@ =~= s@.subrange(0, i as int));
        }
    }
    proof {
        assert(v@ =~= s@);
    }
    v
}

fn skip_ws(s: &Vec<char>, i: usize) -> (j: usize)
    requires
        i <= s.len(),
    ensures
        j == spec_skip_ws(s@, i as int),
        i <= j <= s.len(),
{
    let mut j: usize = i;
    while j < s.len() && (s[j] == ' ' || s[j] == '\t' || s[j] == '\n' || s[j] == '\r')
        invariant
            i <= j <= s.len(),
            spec_skip_ws(s@, i as int) == spec_skip_ws(s@, j as int),
        decreases s.len() - j,
    {
        j = j + 1;
    }
    j
}

/// Parses a decimal `u32` at `i`, exec mirror of [`spec_parse_u32`].
pub fn parse_u32(s: &Vec<char>, i: usize) -> (r: Option<(u32, usize)>)
    requires
        i <= s.len(),
    ensures
        r is Some <==> spec_parse_u32(s@, i as int) is Some,
        r is Some ==> {
            let (v, e) = r.unwrap();
            spec_parse_u32(s@, i as int) == Some((v, e as int)) && i < e <= s.len()
        },
{
    proof {
        lemma_digit_end_bounds(s@, i as int);
    }
    let ghost ge: int = spec_digit_end(s@, i as int);
    // find the end of the digit run
    let mut e: usize = i;
    while e < s.len() && '0' <= s[e] && s[e] <= '9'
        invariant
            i <= e <= s.len(),
            spec_digit_end(s@, i as int) == spec_digit_end(s@, e as int),
            all_digits(s@, i as int, e as int),
        decreases s.len() - e,
    {
        e = e + 1;
    }
    proof {
        assert(spec_digit_end(s@, e as int) == e as int);
    }
    if e == i {
        return None;
    }
    // fold the digits, watching for overflow
    let mut val: u64 = 0;
    let mut j: usize = i;
    while j < e
        invariant
            i <= j <= e <= s.len(),
            e as int == spec_digit_end(s@, i as int),
            all_digits(s@, i as int, e as int),
            val == spec_digits_val(s@, i as int, j as int),
            val <= u32::MAX,
        decreases e - j,
    {
        let c = s[j];
        let d: u64 = (c as u64) - ('0' as u64);
        proof {
            assert(is_digit(s@[j as int]));
            assert(d == digit_val(s@[j as int]));
        }
        let next: u64 = val * 10 + d;
        proof {
            assert(next == spec_digits_val(s@, i as int, j as int + 1));
        }
        if next > u32::MAX as u64 {
            proof {
                lemma_digits_val_monotone(s@, i as int, j as int + 1, e as int);
            }
            return None;
        }
        val = next;
        j = j + 1;
    }
    Some((val as u32, e))
}

fn parse_string_chars(s: &Vec<char>, i: usize) -> (r: Option<(Vec<char>, usize)>)
    requires
        i <= s.len(),
    ensures
        r is Some <==> spec_parse_string(s@, i as int) is Some,
        r is Some ==> {
            let (v, e) = r.unwrap();
            spec_parse_string(s@, i as int) == Some((v@, e as int)) && i < e <= s.len()
        },
{
    if !(i < s.len() && s[i] == '"') {
        return None;
    }
    let mut acc: Vec<char> = Vec::new();
    let mut j: usize = i + 1;
    loop
        invariant
            i + 1 <= j <= s.len(),
            spec_parse_string(s@, i as int) == spec_string_body(s@, j as int, acc@),
        decreases s.len() - j,
    {
        if j >= s.len() {
            return None;
        }
        let c = s[j];
        if c == '"' {
            return Some((acc, j + 1));
        } else if c == '\\' {
            if j + 1 >= s.len() {
                return None;
            }
            let n = s[j + 1];
            if n == '"' {
                acc.push('"');
            } else if n == '\\' {
                acc.push('\\');
            } else if n == '/' {
                acc.push('/');
            } else if n == 'n' {
                acc.push('\n');
            } else if n == 'r' {
                acc.push('\r');
            } else if n == 't' {
                acc.push('\t');
            } else if n == 'b' {
                acc.push('\u{0008}');
            } else if n == 'f' {
                acc.push('\u{000C}');
            } else {
                return None;
            }
            j = j + 2;
        } else if (c as u32) < 32 {
            return None;
        } else {
            acc.push(c);
            j = j + 1;
        }
    }
}

/// One member of an annotation object, exec level.
pub enum Member {
    PointM(u32, u32),
    LabelM(String),
}

impl View for Member {
    type V = SpecMember;

    open spec fn view(&self) -> SpecMember {
        match self {
            Member::PointM(a, b) => SpecMember::PointM(*a, *b),
            Member::LabelM(s) => SpecMember::LabelM(s@),
        }
    }
}

fn key_is(v: &Vec<char>, k0: char, k1: char, k2: char, k3: char, k4: char) -> (r: bool)
    ensures
        r == (v@ == seq![k0, k1, k2, k3, k4]),
{
    if v.len() == 5 && v[0] == k0 && v[1] == k1 && v[2] == k2 && v[3] == k3 && v[4] == k4 {
        proof {
            assert(v@ =~= seq![k0, k1, k2, k3, k4]);
        }
        true
    } else {
        proof {
            if v@ == seq![k0, k1, k2, k3, k4] {
                assert(v@.len() == 5);
            }
        }
        false
    }
}

fn parse_member(s: &Vec<char>, i: usize) -> (r: Option<(Member, usize)>)
    requires
        i <= s.len(),
    ensures
        r is Some <==> spec_parse_member(s@, i as int) is Some,
        r is Some ==> {
            let (m, e) = r.unwrap();
            spec_parse_member(s@, i as int) == Some((m@, e as int)) && i < e <= s.len()
        },
{
    let key = match parse_string_chars(s, i) {
        None => { return None; },
        Some(ke) => ke,
    };
    let (kv, k) = key;
    let l = skip_ws(s, k);
    if !(l < s.len() && s[l] == ':') {
        return None;
    }
    let m = skip_ws(s, l + 1);
    if key_is(&kv, 'p', 'o', 'i', 'n', 't') {
        if !(m < s.len() && s[m] == '[') {
            return None;
        }
        let a = skip_ws(s, m + 1);
        let (n1, b) = match parse_u32(s, a) {
            None => { return None; },
            Some(x) => x,
        };
        let c = skip_ws(s, b);
        if !(c < s.len() && s[c] == ',') {
            return None;
        }
        let d = skip_ws(s, c + 1);
        let (n2, e) = match parse_u32(s, d) {
            None => { return None; },
            Some(x) => x,
        };
        let f = skip_ws(s, e);
        if f < s.len() && s[f] == ']' {
            Some((Member::PointM(n1, n2), f + 1))
        } else {
            None
        }
    } else if key_is(&kv, 'l', 'a', 'b', 'e', 'l') {
        let (lab, e) = match parse_string_chars(s, m) {
            None => { return None; },
            Some(x) => x,
        };
        let lab_s = chars_to_string(&lab);
        Some((Member::LabelM(lab_s), e))
    } else {
        None
    }
}

fn parse_obj(s: &Vec<char>, i: usize) -> (r: Option<(DetectionPoint, usize)>)
    requires
        i <= s.len(),
    ensures
        r is Some <==> spec_parse_obj(s@, i as int) is Some,
        r is Some ==> {
            let (a, e) = r.unwrap();
            spec_parse_obj(s@, i as int) == Some((a@, e as int)) && i < e <= s.len()
        },
{
    if !(i < s.len() && s[i] == '{') {
        return None;
    }
    let j = skip_ws(s, i + 1);
    let (m1, k) = match parse_member(s, j) {
        None => { return None; },
        Some(x) => x,
    };
    let l = skip_ws(s, k);
    if !(l < s.len() && s[l] == ',') {
        return None;
    }
    let p = skip_ws(s, l + 1);
    let (m2, q) = match parse_member(s, p) {
        None => { return None; },
        Some(x) => x,
    };
    let r = skip_ws(s, q);
    if !(r < s.len() && s[r] == '}') {
        return None;
    }
    match (m1, m2) {
        (Member::PointM(n1, n2), Member::LabelM(lab)) => Some(
            (DetectionPoint { point: [n1, n2], label: lab }, r + 1),
        ),
        (Member::LabelM(lab), Member::PointM(n1, n2)) => Some(
            (DetectionPoint { point: [n1, n2], label: lab }, r + 1),
        ),
        _ => None,
    }
}

/// The views of a vector of detection points.
pub open spec fn views_of(v: Seq<DetectionPoint>) -> Seq<SpecAnnotation> {
    v.map_values(|d: DetectionPoint| d@)
}

fn parse_items(s: &Vec<char>, start: usize) -> (r: Option<(Vec<DetectionPoint>, usize)>)
    requires
        start <= s.len(),
    ensures
        r is Some <==> spec_parse_items(s@, start as int, Seq::empty()) is Some,
        r is Some ==> {
            let (v, e) = r.unwrap();
            spec_parse_items(s@, start as int, Seq::empty()) == Some((views_of(v@), e as int))
                && e <= s.len()
        },
{
    let mut acc: Vec<DetectionPoint> = Vec::new();
    let mut i: usize = start;
    proof {
        assert(views_of(acc@) =~= Seq::<SpecAnnotation>::empty());
    }
    loop
        invariant
            i <= s.len(),
            spec_parse_items(s@, start as int, Seq::empty()) == spec_parse_items(
                s@,
                i as int,
                views_of(acc@),
            ),
        decreases s.len() - i,
    {
        let ghost prev_i: int = i as int;
        let ghost prev_views: Seq<SpecAnnotation> = views_of(acc@);
        let j = skip_ws(s, i);
        let (a, k) = match parse_obj(s, j) {
            None => { return None; },
            Some(x) => x,
        };
        let m = skip_ws(s, k);
        if m < s.len() && s[m] == ',' {
            if !(i < m + 1 && m + 1 <= s.len()) {
                return None;
            }
            acc.push(a);
            proof {
                assert(views_of(acc@) =~= prev_views.push(a@));
                assert(spec_parse_items(s@, prev_i, prev_views) == spec_parse_items(
                    s@,
                    m as int + 1,
                    prev_views.push(a@),
                ));
            }
            i = m + 1;
        } else if m < s.len() && s[m] == ']' {
            acc.push(a);
            proof {
                assert(views_of(acc@) =~= prev_views.push(a@));
                assert(spec_parse_items(s@, prev_i, prev_views) == Some(
                    (prev_views.push(a@), m as int + 1),
                ));
            }
            return Some((acc, m + 1));
        } else {
            return None;
        }
    }
}

fn parse_arr(s: &Vec<char>, i: usize) -> (r: Option<(Vec<DetectionPoint>, usize)>)
    requires
        i <= s.len(),
    ensures
        r is Some <==> spec_parse_arr(s@, i as int) is Some,
        r is Some ==> {
            let (v, e) = r.unwrap();
            spec_parse_arr(s@, i as int) == Some((views_of(v@), e as int)) && e <= s.len()
        },
{
    if !(i < s.len() && s[i] == '[') {
        return None;
    }
    let j = skip_ws(s, i + 1);
    if j < s.len() && s[j] == ']' {
        let v: Vec<DetectionPoint> = Vec::new();
        proof {
            assert(views_of(v@) =~= Seq::<SpecAnnotation>::empty());
        }
        Some((v, j + 1))
    } else {
        parse_items(s, i + 1)
    }
}

/// Parses a complete character sequence as one annotation array.
///
/// Returns `Some` exactly when the text is a well-formed annotation array
/// under this library's grammar, and then returns precisely the annotations
/// the text denotes.
pub fn parse_document_chars(s: &Vec<char>) -> (r: Option<Vec<DetectionPoint>>)
    ensures
        r is Some <==> spec_parse_document(s@) is Some,
        r is Some ==> spec_parse_document(s@) == Some(views_of(r.unwrap()@)),
{
    let i = skip_ws(s, 0);
    let (v, j) = match parse_arr(s, i) {
        None => { return None; },
        Some(x) => x,
    };
    let k = skip_ws(s, j);
    if k == s.len() {
        Some(v)
    } else {
        None
    }
}

/// Parses a string slice as one annotation array.
pub fn parse_annotations(text: &str) -> (r: Option<Vec<DetectionPoint>>)
    ensures
        r is Some <==> spec_parse_document(text@) is Some,
        r is Some ==> spec_parse_document(text@) == Some(views_of(r.unwrap()@)),
{
    let v = str_chars(text);
    parse_document_chars(&v)
}

} // verus!
