//! Naming for persisted uploads: choosing a file extension from the
//! declared content type, and building the stored file's name from a
//! millisecond timestamp.

use vstd::prelude::*;
use crate::parse::{chars_to_string, spec_decimal, str_chars};

verus! {

/// Whether `pat` occurs as a contiguous subsequence of `s`.
pub open spec fn spec_contains(s: Seq<char>, pat: Seq<char>) -> bool {
    exists|k: int|
        0 <= k && k + pat.len() <= s.len() && #[trigger] s.subrange(k, k + pat.len() as int)
            == pat
}

fn match_at(hay: &Vec<char>, needle: &Vec<char>, k: usize) -> (r: bool)
    requires
        k + needle.len() <= hay.len(),
    ensures
        r == (hay@.subrange(k as int, k as int + needle@.len() as int) == needle@),
{
    let mut j: usize = 0;
    while j < needle.len()
        invariant
            j <= needle.len(),
            k + needle.len() <= hay.len(),
            forall|t: int| 0 <= t < j ==> hay@[k + t] == needle@[t],
        decreases needle.len() - j,
    {
        if hay[k + j] != needle[j] {
            proof {
                assert(hay@.subrange(k as int, k as int + needle@.len() as int)[j as int] == hay@[k
                    + j]);
            }
            return false;
        }
        j = j + 1;
    }
    proof {
        assert(hay@.subrange(k as int, k as int + needle@.len() as int) =~= needle@);
    }
    true
}

/// Exec mirror of [`spec_contains`].
pub fn contains_sub(hay: &Vec<char>, needle: &Vec<char>) -> (r: bool)
    ensures
        r == spec_contains(hay@, needle@),
{
    if needle.len() > hay.len() {
        return false;
    }
    if needle.len() == 0 {
        proof {
            assert(hay@.subrange(0, 0 + needle@.len() as int) =~= needle@);
        }
        return true;
    }
    let mut k: usize = 0;
    while k <= hay.len() - needle.len()
        invariant
            1 <= needle.len() <= hay.len(),
            k <= hay.len() - needle.len() + 1,
            forall|t: int|
                0 <= t < k ==> #[trigger] hay@.subrange(t, t + needle@.len() as int) != needle@,
        decreases hay.len() - k,
    {
        if match_at(hay, needle, k) {
            return true;
        }
        k = k + 1;
    }
    false
}

/// The extension chosen for a declared content type: `png`, `jpg` (for
/// either `jpeg` or `jpg`), `gif`, or `bin` when none of those occur.
pub open spec fn spec_extension_for(ct: Seq<char>) -> Seq<char> {
    if spec_contains(ct, seq!['p', 'n', 'g']) {
        "png"@
    } else if spec_contains(ct, seq!['j', 'p', 'e', 'g']) || spec_contains(
        ct,
        seq!['j', 'p', 'g'],
    ) {
        "jpg"@
    } else if spec_contains(ct, seq!['g', 'i', 'f']) {
        "gif"@
    } else {
        "bin"@
    }
}

fn needle3(a: char, b: char, c: char) -> (v: Vec<char>)
    ensures
        v@ == seq![a, b, c],
{
    let mut v: Vec<char> = Vec::new();
    v.push(a);
    v.push(b);
    v.push(c);
    proof {
        assert(v@ =~= seq![a, b, c]);
    }
    v
}

/// Exec mirror of [`spec_extension_for`].
pub fn extension_for(content_type: &str) -> (r: String)
    ensures
        r@ == spec_extension_for(content_type@),
{
    let ct = str_chars(content_type);
    if contains_sub(&ct, &needle3('p', 'n', 'g')) {
        return String::from_str("png");
    }
    let mut jpeg: Vec<char> = Vec::new();
    jpeg.push('j');
    jpeg.push('p');
    jpeg.push('e');
    jpeg.push('g');
    proof {
        assert(jpeg@ =~= seq!['j', 'p', 'e', 'g']);
    }
    if contains_sub(&ct, &jpeg) || contains_sub(&ct, &needle3('j', 'p', 'g')) {
        return String::from_str("jpg");
    }
    if contains_sub(&ct, &needle3('g', 'i', 'f')) {
        return String::from_str("gif");
    }
    String::from_str("bin")
}

fn push_decimal(n: u64, out: &mut Vec<char>)
    ensures
        final(out)@ == old(out)@ + spec_decimal(n as int),
    decreases n,
{
    if n < 10 {
        out.push((48 + n as u8) as char);
        proof {
            assert(out@ =~= old(out)@ + spec_decimal(n as int));
        }
    } else {
        push_decimal(n / 10, out);
        out.push((48 + (n % 10) as u8) as char);
        proof {
            assert(out@ =~= old(out)@ + spec_decimal(n as int));
        }
    }
}

/// The stored name of an upload received at millisecond timestamp `ts` with
/// the chosen extension: `upload_<ts>.<ext>`.
pub fn upload_filename(ts: u64, ext: &str) -> (r: String)
    ensures
        r@ == "upload_"@ + spec_decimal(ts as int) + "."@ + ext@,
{
    let mut digits: Vec<char> = Vec::new();
    push_decimal(ts, &mut digits);
    let ds = chars_to_string(&digits);
    let mut r = String::from_str("upload_");
    r.append(ds.as_str());
    r.append(".");
    r.append(ext);
    r
}

} // verus!
