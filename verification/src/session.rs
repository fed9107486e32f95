//! Session-numbering for log files: given the names already in the log
//! directory and the current time prefix, pick the next session number.
//!
//! A name counts when it starts with the prefix and ends in `.log`, and the
//! characters between the separator position and the suffix form a decimal
//! number that fits in `u32`; the next session is one past the largest such
//! number (saturating at `u32::MAX` instead of overflowing).

use vstd::prelude::*;
use crate::parse::{spec_parse_u32, str_chars};

verus! {

pub open spec fn spec_starts_with(name: Seq<char>, prefix: Seq<char>) -> bool {
    name.len() >= prefix.len() && name.subrange(0, prefix.len() as int) == prefix
}

pub open spec fn spec_ends_with_log(name: Seq<char>) -> bool {
    name.len() >= 4 && name[name.len() - 4] == '.' && name[name.len() - 3] == 'l' && name[name.len()
        - 2] == 'o' && name[name.len() - 1] == 'g'
}

/// The session number a log-file name carries for the given prefix, if any:
/// the decimal run between `prefix` plus one separator character and the
/// `.log` suffix.
pub open spec fn spec_session_num(name: Seq<char>, prefix: Seq<char>) -> Option<u32> {
    let start = prefix.len() + 1;
    let end = name.len() - 4;
    if spec_starts_with(name, prefix) && spec_ends_with_log(name) && start < name.len() && end
        > start {
        match spec_parse_u32(name, start as int) {
            Some((v, e)) => if e == end {
                Some(v)
            } else {
                None
            },
            None => None,
        }
    } else {
        None
    }
}

/// The largest session number any of the names carries, 0 when none does.
pub open spec fn spec_max_session(names: Seq<String>, prefix: Seq<char>) -> u32
    decreases names.len(),
{
    if names.len() == 0 {
        0
    } else {
        let m = spec_max_session(names.drop_last(), prefix);
        match spec_session_num(names.last()@, prefix) {
            Some(v) => if v > m {
                v
            } else {
                m
            },
            None => m,
        }
    }
}

/// One past the largest session number, saturating at `u32::MAX`.
pub open spec fn spec_next_session(names: Seq<String>, prefix: Seq<char>) -> u32 {
    let m = spec_max_session(names, prefix);
    if m == u32::MAX {
        u32::MAX
    } else {
        (m + 1) as u32
    }
}

fn has_prefix(name: &Vec<char>, prefix: &Vec<char>) -> (r: bool)
    ensures
        r == spec_starts_with(name@, prefix@),
{
    if name.len() < prefix.len() {
        return false;
    }
    let mut i: usize = 0;
    while i < prefix.len()
        invariant
            i <= prefix.len() <= name.len(),
            forall|k: int| 0 <= k < i ==> name@[k] == prefix@[k],
        decreases prefix.len() - i,
    {
        if name[i] != prefix[i] {
            proof {
                assert(name@.subrange(0, prefix@.len() as int)[i as int] == name@[i as int]);
            }
            return false;
        }
        i = i + 1;
    }
    proof {
        assert(name@.subrange(0, prefix@.len() as int) =~= prefix@);
    }
    true
}

/// Exec mirror of [`spec_session_num`].
pub fn session_num_of(name: &str, prefix: &str) -> (r: Option<u32>)
    ensures
        r == spec_session_num(name@, prefix@),
{
    let nv = str_chars(name);
    let pv = str_chars(prefix);
    if !has_prefix(&nv, &pv) {
        return None;
    }
    if nv.len() < 4 {
        return None;
    }
    let l = nv.len();
    if !(nv[l - 4] == '.' && nv[l - 3] == 'l' && nv[l - 2] == 'o' && nv[l - 1] == 'g') {
        return None;
    }
    if pv.len() >= l || pv.len() + 1 >= l {
        return None;
    }
    let start = pv.len() + 1;
    let end = l - 4;
    if end <= start {
        return None;
    }
    match crate::parse::parse_u32(&nv, start) {
        Some((v, e)) => if e == end {
            Some(v)
        } else {
            None
        },
        None => None,
    }
}

/// The next session number for the given directory listing and time prefix.
///
/// Scans every name, keeps the largest session number carried by one that
/// matches the prefix, and returns one past it (1 when none matches),
/// saturating at `u32::MAX`.
pub fn next_session_num(names: &Vec<String>, prefix: &str) -> (n: u32)
    ensures
        n == spec_next_session(names@, prefix@),
{
    let mut max: u32 = 0;
    let mut i: usize = 0;
    proof {
        assert(names@.subrange(0, 0) =~= Seq::<String>::empty());
    }
    while i < names.len()
        invariant
            i <= names.len(),
            max == spec_max_session(names@.subrange(0, i as int), prefix@),
        decreases names.len() - i,
    {
        let ghost prev: int = i as int;
        match session_num_of(names[i].as_str(), prefix) {
            Some(v) => if v > max {
                max = v;
            },
            None => {},
        }
        i = i + 1;
        proof {
            assert(names@.subrange(0, prev + 1).drop_last() =~= names@.subrange(0, prev));
            assert(names@.subrange(0, prev + 1).last() == names@[prev]);
        }
    }
    proof {
        assert(names@.subrange(0, names@.len() as int) =~= names@);
    }
    if max == u32::MAX {
        u32::MAX
    } else {
        max + 1
    }
}

} // verus!
