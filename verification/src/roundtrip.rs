//! The grammar's round trip: the canonical serialization of any annotation
//! list is a well-formed annotation reply, and parsing it back yields
//! exactly the same list.
//!
//! This ties the parser to an independent description of the format: for
//! every annotation list (with labels free of characters that would need
//! escaping), `[{"point":[r,c],"label":"..."}, ...]` parses to the list it
//! was built from.

use vstd::prelude::*;
use crate::model::SpecAnnotation;
use crate::parse::{
    all_digits, digit_char, digit_val, is_digit, is_ws, spec_decimal, spec_digit_end,
    spec_digits_val, spec_parse_string, spec_parse_u32, spec_skip_ws, spec_string_body,
};

verus! {

/// A label character that serializes as itself: not a quote, not a
/// backslash, not a control character.
pub open spec fn plain_char(c: char) -> bool {
    c != '"' && c != '\\' && (c as u32) >= 32
}

pub open spec fn plain_label(l: Seq<char>) -> bool {
    forall|k: int| 0 <= k < l.len() ==> plain_char(l[k])
}

proof fn lemma_decimal_digits(n: int)
    requires
        n >= 0,
    ensures
        spec_decimal(n).len() >= 1,
        forall|k: int| 0 <= k < spec_decimal(n).len() ==> is_digit(#[trigger] spec_decimal(n)[k]),
    decreases n,
{
    assert forall|d: int| 0 <= d < 10 implies is_digit(digit_char(d)) by {
        assert((digit_char(d) as u32) == 48 + d);
    }
    if n >= 10 {
        lemma_decimal_digits(n / 10);
        assert forall|k: int| 0 <= k < spec_decimal(n).len() implies is_digit(
            #[trigger] spec_decimal(n)[k],
        ) by {
            if k < spec_decimal(n / 10).len() {
                assert(spec_decimal(n)[k] == spec_decimal(n / 10)[k]);
            } else {
                assert(spec_decimal(n)[k] == digit_char(n % 10));
            }
        }
    } else {
        assert(spec_decimal(n)[0] == digit_char(n));
    }
}

proof fn lemma_digit_end_at(s: Seq<char>, i: int, j: int)
    requires
        0 <= i <= j <= s.len(),
        all_digits(s, i, j),
        j == s.len() || !is_digit(s[j]),
    ensures
        spec_digit_end(s, i) == j,
    decreases j - i,
{
    if i < j {
        lemma_digit_end_at(s, i + 1, j);
    }
}

proof fn lemma_decimal_value(s: Seq<char>, i: int, j: int, n: int)
    requires
        n >= 0,
        0 <= i <= j <= s.len(),
        s.subrange(i, j) == spec_decimal(n),
    ensures
        spec_digits_val(s, i, j) == n,
    decreases n,
{
    lemma_decimal_digits(n);
    if n < 10 {
        assert(j == i + 1);
        assert(s[i] == spec_decimal(n)[0]) by {
            assert(s.subrange(i, j)[0] == s[i]);
        }
        assert(digit_val(digit_char(n)) == n) by {
            assert((digit_char(n) as u32) == 48 + n);
        }
        assert(spec_digits_val(s, i, j) == spec_digits_val(s, i, i) * 10 + digit_val(s[i]));
    } else {
        let m: int = spec_decimal(n / 10).len() as int;
        assert(j - i == m + 1);
        assert(s.subrange(i, j - 1) =~= spec_decimal(n / 10)) by {
            assert forall|k: int| 0 <= k < m implies #[trigger] s.subrange(i, j - 1)[k]
                == spec_decimal(n / 10)[k] by {
                assert(s.subrange(i, j)[k] == spec_decimal(n)[k]);
                assert(spec_decimal(n)[k] == spec_decimal(n / 10)[k]);
            }
        }
        lemma_decimal_value(s, i, j - 1, n / 10);
        assert(s[j - 1] == spec_decimal(n)[m]) by {
            assert(s.subrange(i, j)[m] == s[i + m]);
        }
        assert(digit_val(digit_char(n % 10)) == n % 10) by {
            assert((digit_char(n % 10) as u32) == 48 + n % 10);
        }
        assert(spec_digits_val(s, i, j) == (n / 10) * 10 + n % 10);
    }
}

proof fn lemma_parse_u32_at(s: Seq<char>, i: int, j: int, n: u32)
    requires
        0 <= i <= j <= s.len(),
        s.subrange(i, j) == spec_decimal(n as int),
        j == s.len() || !is_digit(s[j]),
    ensures
        spec_parse_u32(s, i) == Some((n, j)),
{
    lemma_decimal_digits(n as int);
    assert(all_digits(s, i, j)) by {
        assert forall|k: int| i <= k < j implies is_digit(s[k]) by {
            assert(s.subrange(i, j)[k - i] == s[k]);
            assert(is_digit(spec_decimal(n as int)[k - i]));
        }
    }
    lemma_digit_end_at(s, i, j);
    lemma_decimal_value(s, i, j, n as int);
    assert(j > i);
}

proof fn lemma_skip_ws_noop(s: Seq<char>, i: int)
    requires
        0 <= i,
        i >= s.len() || !is_ws(s[i]),
    ensures
        spec_skip_ws(s, i) == i,
{
}

proof fn lemma_string_body_plain(s: Seq<char>, i: int, j: int, acc: Seq<char>)
    requires
        0 <= i <= j < s.len(),
        forall|k: int| i <= k < j ==> plain_char(s[k]),
        s[j] == '"',
    ensures
        spec_string_body(s, i, acc) == Some((acc + s.subrange(i, j), j + 1)),
    decreases j - i,
{
    if i == j {
        assert(acc + s.subrange(i, j) =~= acc);
    } else {
        lemma_string_body_plain(s, i + 1, j, acc.push(s[i]));
        assert(acc.push(s[i]) + s.subrange(i + 1, j) =~= acc + s.subrange(i, j));
    }
}

proof fn lemma_parse_string_at(s: Seq<char>, i: int, j: int)
    requires
        0 <= i < j < s.len(),
        s[i] == '"',
        s[j] == '"',
        forall|k: int| i + 1 <= k < j ==> plain_char(s[k]),
    ensures
        spec_parse_string(s, i) == Some((s.subrange(i + 1, j), j + 1)),
{
    lemma_string_body_plain(s, i + 1, j, Seq::empty());
    assert(Seq::empty() + s.subrange(i + 1, j) =~= s.subrange(i + 1, j));
}

/// Splitting one subrange equality over a concatenation into its two parts.
proof fn lemma_peel(s: Seq<char>, i: int, x: Seq<char>, y: Seq<char>)
    requires
        0 <= i,
        i + x.len() + y.len() <= s.len(),
        s.subrange(i, i + x.len() + y.len()) == x + y,
    ensures
        s.subrange(i, i + x.len() as int) == x,
        s.subrange(i + x.len() as int, i + x.len() + y.len()) == y,
{
    assert forall|k: int| 0 <= k < x.len() implies #[trigger] s.subrange(i, i + x.len() as int)[k]
        == x[k] by {
        assert(s.subrange(i, i + x.len() + y.len())[k] == s[i + k]);
    }
    assert(s.subrange(i, i + x.len() as int) =~= x);
    assert forall|k: int| 0 <= k < y.len() implies #[trigger] s.subrange(
        i + x.len() as int,
        i + x.len() + y.len(),
    )[k] == y[k] by {
        assert(s.subrange(i, i + x.len() + y.len())[x.len() + k] == s[i + x.len() + k]);
    }
    assert(s.subrange(i + x.len() as int, i + x.len() + y.len()) =~= y);
}

pub open spec fn point_prefix() -> Seq<char> {
    seq!['"', 'p', 'o', 'i', 'n', 't', '"', ':', '[']
}

pub open spec fn label_prefix() -> Seq<char> {
    seq!['"', 'l', 'a', 'b', 'e', 'l', '"', ':', '"']
}

/// The canonical serialization of one annotation:
/// `{"point":[<row>,<col>],"label":"<label>"}`.
pub open spec fn spec_ser_item(a: SpecAnnotation) -> Seq<char> {
    seq!['{'] + (point_prefix() + (spec_decimal(a.row as int) + (seq![','] + (spec_decimal(
        a.col as int,
    ) + (seq![']', ','] + (label_prefix() + (a.label + seq!['"', '}'])))))))
}

/// The serialization of a non-empty list's items, separated by commas, with
/// the closing bracket.
pub open spec fn spec_ser_rest(v: Seq<SpecAnnotation>) -> Seq<char>
    decreases v.len(),
{
    if v.len() <= 1 {
        spec_ser_item(v[0]) + seq![']']
    } else {
        spec_ser_item(v[0]) + (seq![','] + spec_ser_rest(v.drop_first()))
    }
}

/// The canonical serialization of an annotation list.
pub open spec fn spec_ser(v: Seq<SpecAnnotation>) -> Seq<char> {
    if v.len() == 0 {
        seq!['[', ']']
    } else {
        seq!['['] + spec_ser_rest(v)
    }
}

proof fn lemma_member_point_at(s: Seq<char>, i: int, m1: int, m2: int, row: u32, col: u32)
    requires
        0 <= i,
        i + 9 <= m1,
        m1 + 1 <= m2,
        m2 < s.len(),
        s.subrange(i, i + 9) == point_prefix(),
        s.subrange(i + 9, m1) == spec_decimal(row as int),
        s[m1] == ',',
        s.subrange(m1 + 1, m2) == spec_decimal(col as int),
        s[m2] == ']',
    ensures
        crate::parse::spec_parse_member(s, i) == Some(
            (crate::parse::SpecMember::PointM(row, col), m2 + 1),
        ),
{
    assert forall|t: int| 0 <= t < 9 implies s[i + t] == point_prefix()[t] by {
        assert(s.subrange(i, i + 9)[t] == s[i + t]);
    }
    assert(s[i] == '"');
    assert(s[i + 6] == '"');
    assert(s[i + 7] == ':');
    assert(s[i + 8] == '[');
    assert forall|k: int| i + 1 <= k < i + 6 implies plain_char(s[k]) by {
        assert(s[k] == point_prefix()[k - i]);
    }
    lemma_parse_string_at(s, i, i + 6);
    assert(s.subrange(i + 1, i + 6) =~= crate::parse::point_key()) by {
        assert forall|t: int| 0 <= t < 5 implies #[trigger] s.subrange(i + 1, i + 6)[t]
            == crate::parse::point_key()[t] by {
            assert(s.subrange(i + 1, i + 6)[t] == s[i + 1 + t]);
        }
    }
    lemma_skip_ws_noop(s, i + 7);
    lemma_skip_ws_noop(s, i + 8);
    lemma_decimal_digits(row as int);
    lemma_decimal_digits(col as int);
    assert(s[i + 9] == spec_decimal(row as int)[0]) by {
        assert(s.subrange(i + 9, m1)[0] == s[i + 9]);
    }
    assert(is_digit(s[i + 9]));
    assert(!is_ws(s[i + 9]));
    lemma_skip_ws_noop(s, i + 9);
    lemma_parse_u32_at(s, i + 9, m1, row);
    lemma_skip_ws_noop(s, m1);
    assert(s[m1 + 1] == spec_decimal(col as int)[0]) by {
        assert(s.subrange(m1 + 1, m2)[0] == s[m1 + 1]);
    }
    assert(is_digit(s[m1 + 1]));
    assert(!is_ws(s[m1 + 1]));
    lemma_skip_ws_noop(s, m1 + 1);
    lemma_parse_u32_at(s, m1 + 1, m2, col);
    lemma_skip_ws_noop(s, m2);
}

proof fn lemma_member_label_at(s: Seq<char>, i: int, j: int, lab: Seq<char>)
    requires
        0 <= i,
        i + 9 <= j,
        j < s.len(),
        s.subrange(i, i + 9) == label_prefix(),
        s.subrange(i + 9, j) == lab,
        plain_label(lab),
        s[j] == '"',
    ensures
        crate::parse::spec_parse_member(s, i) == Some(
            (crate::parse::SpecMember::LabelM(lab), j + 1),
        ),
{
    assert forall|t: int| 0 <= t < 9 implies s[i + t] == label_prefix()[t] by {
        assert(s.subrange(i, i + 9)[t] == s[i + t]);
    }
    assert(s[i] == '"');
    assert(s[i + 6] == '"');
    assert(s[i + 7] == ':');
    assert(s[i + 8] == '"');
    assert forall|k: int| i + 1 <= k < i + 6 implies plain_char(s[k]) by {
        assert(s[k] == label_prefix()[k - i]);
    }
    lemma_parse_string_at(s, i, i + 6);
    assert(s.subrange(i + 1, i + 6) =~= crate::parse::label_key()) by {
        assert forall|t: int| 0 <= t < 5 implies #[trigger] s.subrange(i + 1, i + 6)[t]
            == crate::parse::label_key()[t] by {
            assert(s.subrange(i + 1, i + 6)[t] == s[i + 1 + t]);
        }
    }
    assert(s.subrange(i + 1, i + 6) != crate::parse::point_key()) by {
        assert(crate::parse::label_key()[0] != crate::parse::point_key()[0]);
    }
    lemma_skip_ws_noop(s, i + 7);
    lemma_skip_ws_noop(s, i + 8);
    assert forall|k: int| i + 9 <= k < j implies plain_char(s[k]) by {
        assert(s.subrange(i + 9, j)[k - (i + 9)] == s[k]);
        assert(lab[k - (i + 9)] == s[k]);
    }
    lemma_parse_string_at(s, i + 8, j);
    assert(s.subrange(i + 9, j) == lab);
}

proof fn lemma_parse_obj_at(s: Seq<char>, i: int, q: int, r: int, a: SpecAnnotation)
    requires
        0 <= i,
        i + 1 < s.len(),
        i + 1 < q,
        q + 1 < r,
        s[i] == '{',
        s[i + 1] == '"',
        crate::parse::spec_parse_member(s, i + 1) == Some(
            (crate::parse::SpecMember::PointM(a.row, a.col), q),
        ),
        q + 1 < s.len(),
        s[q] == ',',
        s[q + 1] == '"',
        crate::parse::spec_parse_member(s, q + 1) == Some(
            (crate::parse::SpecMember::LabelM(a.label), r),
        ),
        r < s.len(),
        s[r] == '}',
    ensures
        crate::parse::spec_parse_obj(s, i) == Some((a, r + 1)),
{
    lemma_skip_ws_noop(s, i + 1);
    lemma_skip_ws_noop(s, q);
    lemma_skip_ws_noop(s, q + 1);
    lemma_skip_ws_noop(s, r);
    assert(a == (SpecAnnotation { row: a.row, col: a.col, label: a.label }));
}

/// The canonical item serialization at `i` parses as one object, to exactly
/// the annotation it was built from.
proof fn lemma_parse_item_at(s: Seq<char>, i: int, a: SpecAnnotation)
    requires
        plain_label(a.label),
        0 <= i,
        i + spec_ser_item(a).len() <= s.len(),
        s.subrange(i, i + spec_ser_item(a).len() as int) == spec_ser_item(a),
    ensures
        crate::parse::spec_parse_obj(s, i) == Some((a, i + spec_ser_item(a).len() as int)),
{
    let dr: Seq<char> = spec_decimal(a.row as int);
    let dc: Seq<char> = spec_decimal(a.col as int);
    let lab: Seq<char> = a.label;
    let t7: Seq<char> = lab + seq!['"', '}'];
    let t6: Seq<char> = label_prefix() + t7;
    let t5: Seq<char> = seq![']', ','] + t6;
    let t4: Seq<char> = dc + t5;
    let t3: Seq<char> = seq![','] + t4;
    let t2: Seq<char> = dr + t3;
    let t1: Seq<char> = point_prefix() + t2;
    assert(spec_ser_item(a) == seq!['{'] + t1);
    lemma_peel(s, i, seq!['{'], t1);
    let o1: int = i + 1;
    lemma_peel(s, o1, point_prefix(), t2);
    let o2: int = o1 + 9;
    lemma_peel(s, o2, dr, t3);
    let o3: int = o2 + dr.len() as int;
    lemma_peel(s, o3, seq![','], t4);
    let o4: int = o3 + 1;
    lemma_peel(s, o4, dc, t5);
    let o5: int = o4 + dc.len() as int;
    lemma_peel(s, o5, seq![']', ','], t6);
    let o6: int = o5 + 2;
    lemma_peel(s, o6, label_prefix(), t7);
    let o7: int = o6 + 9;
    lemma_peel(s, o7, lab, seq!['"', '}']);
    let o8: int = o7 + lab.len() as int;
    // single characters out of the small pieces
    assert(s[i] == '{') by {
        assert(s.subrange(i, i + 1)[0] == s[i]);
    }
    assert(s[o3] == ',') by {
        assert(s.subrange(o3, o3 + 1)[0] == s[o3]);
    }
    assert(s[o5] == ']') by {
        assert(s.subrange(o5, o5 + 2)[0] == s[o5]);
    }
    assert(s[o5 + 1] == ',') by {
        assert(s.subrange(o5, o5 + 2)[1] == s[o5 + 1]);
    }
    assert(s[o8] == '"') by {
        assert(s.subrange(o8, o8 + 2)[0] == s[o8]);
    }
    assert(s[o8 + 1] == '}') by {
        assert(s.subrange(o8, o8 + 2)[1] == s[o8 + 1]);
    }
    assert(s[o1] == '"') by {
        assert(s.subrange(o1, o1 + 9)[0] == s[o1]);
    }
    assert(s[o6] == '"') by {
        assert(s.subrange(o6, o6 + 9)[0] == s[o6]);
    }
    lemma_member_point_at(s, o1, o3, o5, a.row, a.col);
    lemma_member_label_at(s, o6, o8, lab);
    lemma_parse_obj_at(s, i, o5 + 1, o8 + 1, a);
    assert(i + spec_ser_item(a).len() as int == o8 + 2);
}

/// The serialized items of a non-empty list, starting at `i`, parse to
/// exactly that list appended to whatever was accumulated so far.
proof fn lemma_parse_items_at(
    s: Seq<char>,
    i: int,
    v: Seq<SpecAnnotation>,
    acc: Seq<SpecAnnotation>,
)
    requires
        v.len() >= 1,
        forall|k: int| 0 <= k < v.len() ==> plain_label(#[trigger] v[k].label),
        0 <= i,
        i + spec_ser_rest(v).len() <= s.len(),
        s.subrange(i, i + spec_ser_rest(v).len() as int) == spec_ser_rest(v),
    ensures
        crate::parse::spec_parse_items(s, i, acc) == Some(
            (acc + v, i + spec_ser_rest(v).len() as int),
        ),
    decreases v.len(),
{
    let item: Seq<char> = spec_ser_item(v[0]);
    let l: int = item.len() as int;
    assert(plain_label(v[0].label));
    if v.len() == 1 {
        lemma_peel(s, i, item, seq![']']);
        lemma_parse_item_at(s, i, v[0]);
        assert(s[i] == '{') by {
            assert(s.subrange(i, i + l)[0] == s[i]);
        }
        lemma_skip_ws_noop(s, i);
        assert(s[i + l] == ']') by {
            assert(s.subrange(i + l, i + l + 1)[0] == s[i + l]);
        }
        lemma_skip_ws_noop(s, i + l);
        assert(acc.push(v[0]) =~= acc + v);
    } else {
        let rest: Seq<SpecAnnotation> = v.drop_first();
        lemma_peel(s, i, item, seq![','] + spec_ser_rest(rest));
        let o: int = i + l;
        lemma_peel(s, o, seq![','], spec_ser_rest(rest));
        lemma_parse_item_at(s, i, v[0]);
        assert(s[i] == '{') by {
            assert(s.subrange(i, i + l)[0] == s[i]);
        }
        lemma_skip_ws_noop(s, i);
        assert(s[o] == ',') by {
            assert(s.subrange(o, o + 1)[0] == s[o]);
        }
        lemma_skip_ws_noop(s, o);
        assert forall|k: int| 0 <= k < rest.len() implies plain_label(
            #[trigger] rest[k].label,
        ) by {
            assert(rest[k] == v[k + 1]);
        }
        lemma_parse_items_at(s, o + 1, rest, acc.push(v[0]));
        assert(acc.push(v[0]) + rest =~= acc + v);
    }
}

/// LAW — serialization round trip.  For every annotation list whose labels
/// need no escaping, the canonical serialization
/// `[{"point":[r,c],"label":"..."}, ...]` is a well-formed annotation reply,
/// and parsing it back yields exactly the original list.
#[verifier::rlimit(100)]
pub proof fn lemma_serialization_round_trip(v: Seq<SpecAnnotation>)
    requires
        forall|k: int| 0 <= k < v.len() ==> plain_label(#[trigger] v[k].label),
    ensures
        crate::parse::spec_parse_document(spec_ser(v)) == Some(v),
{
    let s: Seq<char> = spec_ser(v);
    if v.len() == 0 {
        assert(s == seq!['[', ']']);
        assert(s[0] == '[');
        assert(s[1] == ']');
        lemma_skip_ws_noop(s, 0);
        lemma_skip_ws_noop(s, 1);
        assert(Seq::<SpecAnnotation>::empty() =~= v);
    } else {
        let r: Seq<char> = spec_ser_rest(v);
        assert(s == seq!['['] + r);
        assert(s[0] == '[');
        lemma_skip_ws_noop(s, 0);
        assert(s.subrange(1, 1 + r.len() as int) =~= r);
        assert(r[0] == spec_ser_item(v[0])[0]);
        assert(spec_ser_item(v[0])[0] == '{');
        assert(s[1] == '{');
        lemma_skip_ws_noop(s, 1);
        lemma_parse_items_at(s, 1, v, Seq::empty());
        assert(Seq::<SpecAnnotation>::empty() + v =~= v);
    }
}

/// LAW — normalization of a serialized list.  Normalizing the canonical
/// serialization of any annotation list gives back that list, after the
/// provider's mandated axis swap.
pub proof fn lemma_ser_normalize(v: Seq<SpecAnnotation>, p: crate::model::Provider)
    requires
        forall|k: int| 0 <= k < v.len() ==> plain_label(#[trigger] v[k].label),
    ensures
        crate::normalize::spec_normalize(spec_ser(v), p) == Some(
            if crate::model::spec_swaps_axes(p) {
                crate::normalize::spec_swap_all(v)
            } else {
                v
            },
        ),
{
    lemma_serialization_round_trip(v);
    crate::normalize::lemma_direct_parse_round_trip(spec_ser(v), p);
}

} // verus!
