//! Release version strings ("v1.2.3") and which of two is newer.
use crate::text::{chars_of, parse_u32, parse_u32_spec, pieces, split_chars};
use vstd::prelude::*;

verus! {

/// `s` without its leading `v` characters.
pub open spec fn strip_v(s: Seq<char>) -> Seq<char>
    decreases s.len(),
{
    if s.len() > 0 && s[0] == 'v' {
        strip_v(s.drop_first())
    } else {
        s
    }
}

/// A piece of a version as a number: its decimal value, 0 when it is not one.
pub open spec fn piece_value(p: Seq<char>) -> u32 {
    match parse_u32_spec(p) {
        Some(n) => n,
        None => 0,
    }
}

/// The numbers of a version string: leading `v`s dropped, split at `.`,
/// each piece read as a number (0 when it is not one).
pub open spec fn version_numbers(v: Seq<char>) -> Seq<u32> {
    pieces(strip_v(v), '.').map_values(|p: Seq<char>| piece_value(p))
}

/// The `i`th number of a version, 0 past its end.
pub open spec fn number_at(s: Seq<u32>, i: int) -> u32 {
    if 0 <= i < s.len() {
        s[i]
    } else {
        0
    }
}

/// `latest` is newer than `current`: at the first position where they differ
/// (missing numbers count as 0), `latest` has the larger number.
pub open spec fn newer(current: Seq<u32>, latest: Seq<u32>) -> bool {
    exists|i: int|
        #![trigger number_at(latest, i), number_at(current, i)]
        0 <= i && number_at(latest, i) > number_at(current, i) && forall|j: int|
            0 <= j < i ==> number_at(latest, j) == number_at(current, j)
}

/// The numbers of a version string such as "v1.2.3".
pub fn parse_version(v: &str) -> (r: Vec<u32>)
    ensures
        r@ == version_numbers(v@),
{
    let cs = chars_of(v);
    let mut start: usize = 0;
    assert(cs@.skip(0) =~= cs@);
    while start < cs.len() && cs[start] == 'v'
        invariant
            start <= cs.len(),
            strip_v(cs@) == strip_v(cs@.skip(start as int)),
        decreases cs.len() - start,
    {
        proof {
            assert(cs@.skip(start as int).drop_first() =~= cs@.skip(start + 1));
        }
        start = start + 1;
    }
    let ghost rest = cs@.skip(start as int);
    let mut tail: Vec<char> = Vec::new();
    let mut k: usize = start;
    while k < cs.len()
        invariant
            start <= k <= cs.len(),
            rest == cs@.skip(start as int),
            tail@ == rest.take(k - start),
        decreases cs.len() - k,
    {
        tail.push(cs[k]);
        assert(rest.take(k - start + 1) =~= rest.take(k - start).push(cs@[k as int]));
        k = k + 1;
    }
    assert(rest.take(cs.len() - start) =~= rest);
    let parts = split_chars(&tail, '.');
    let ghost ps = parts@.map_values(|p: Vec<char>| p@);
    let mut out: Vec<u32> = Vec::new();
    let mut i: usize = 0;
    while i < parts.len()
        invariant
            i <= parts.len(),
            ps == parts@.map_values(|p: Vec<char>| p@),
            out@ == ps.take(i as int).map_values(|p: Seq<char>| piece_value(p)),
        decreases parts.len() - i,
    {
        let n = match parse_u32(&parts[i]) {
            Some(n) => n,
            None => 0,
        };
        out.push(n);
        assert(ps.take(i + 1).map_values(|p: Seq<char>| piece_value(p)) =~= ps.take(
            i as int,
        ).map_values(|p: Seq<char>| piece_value(p)).push(n));
        i = i + 1;
    }
    assert(ps.take(ps.len() as int) =~= ps);
    out
}

/// Whether `latest` is a newer version than `current`.
pub fn is_newer_version(current: &str, latest: &str) -> (r: bool)
    ensures
        r == newer(version_numbers(current@), version_numbers(latest@)),
{
    let curr = parse_version(current);
    let late = parse_version(latest);
    let max_len = if curr.len() > late.len() {
        curr.len()
    } else {
        late.len()
    };
    let mut i: usize = 0;
    while i < max_len
        invariant
            i <= max_len,
            curr@ == version_numbers(current@),
            late@ == version_numbers(latest@),
            max_len == if curr@.len() > late@.len() {
                curr@.len()
            } else {
                late@.len()
            },
            forall|j: int| 0 <= j < i ==> number_at(late@, j) == number_at(curr@, j),
        decreases max_len - i,
    {
        let c: u32 = if i < curr.len() {
            curr[i]
        } else {
            0
        };
        let l: u32 = if i < late.len() {
            late[i]
        } else {
            0
        };
        if l > c {
            assert(number_at(late@, i as int) > number_at(curr@, i as int));
            assert(newer(curr@, late@));
            return true;
        }
        if c > l {
            proof {
                assert forall|k: int|
                    0 <= k && number_at(late@, k) > number_at(curr@, k) implies !(forall|j: int|
                    0 <= j < k ==> number_at(late@, j) == number_at(curr@, j)) by {
                    if k > i {
                        assert(number_at(late@, i as int) != number_at(curr@, i as int));
                    }
                    if k < i {
                        assert(number_at(late@, k) == number_at(curr@, k));
                    }
                }
                assert(!newer(curr@, late@));
            }
            return false;
        }
        i = i + 1;
    }
    proof {
        assert forall|k: int|
            0 <= k && number_at(late@, k) > number_at(curr@, k) implies !(forall|j: int|
            0 <= j < k ==> number_at(late@, j) == number_at(curr@, j)) by {
            if k < i {
                assert(number_at(late@, k) == number_at(curr@, k));
            }
        }
    }
    false
}

/// The answer of an update check once the latest release's version is
/// known: that version when it is newer than the running one, else nothing.
pub fn update_check_outcome(current: &str, latest: String) -> (r: Option<String>)
    ensures
        match r {
            Some(v) => v@ == latest@ && newer(version_numbers(current@), version_numbers(latest@)),
            None => !newer(version_numbers(current@), version_numbers(latest@)),
        },
{
    if is_newer_version(current, latest.as_str()) {
        Some(latest)
    } else {
        None
    }
}

/// No version is newer than itself.
pub proof fn law_newer_irreflexive(v: Seq<u32>)
    ensures
        !newer(v, v),
{
}

/// Of two versions, at most one is newer than the other.
pub proof fn law_newer_asymmetric(a: Seq<u32>, b: Seq<u32>)
    ensures
        !(newer(a, b) && newer(b, a)),
{
    if newer(a, b) && newer(b, a) {
        let i = choose|i: int|
            0 <= i && number_at(b, i) > number_at(a, i) && forall|j: int|
                0 <= j < i ==> number_at(b, j) == number_at(a, j);
        let k = choose|k: int|
            0 <= k && number_at(a, k) > number_at(b, k) && forall|j: int|
                0 <= j < k ==> number_at(a, j) == number_at(b, j);
        if i < k {
            assert(number_at(a, i) == number_at(b, i));
        } else if k < i {
            assert(number_at(b, k) == number_at(a, k));
        }
    }
}

/// If `b` is newer than `a` and `c` newer than `b`, then `c` is newer than `a`.
pub proof fn law_newer_transitive(a: Seq<u32>, b: Seq<u32>, c: Seq<u32>)
    requires
        newer(a, b),
        newer(b, c),
    ensures
        newer(a, c),
{
    let i = choose|i: int|
        0 <= i && number_at(b, i) > number_at(a, i) && forall|j: int|
            0 <= j < i ==> number_at(b, j) == number_at(a, j);
    let k = choose|k: int|
        0 <= k && number_at(c, k) > number_at(b, k) && forall|j: int|
            0 <= j < k ==> number_at(c, j) == number_at(b, j);
    let m = if i < k {
        i
    } else {
        k
    };
    assert(number_at(c, m) > number_at(a, m));
    assert(forall|j: int| 0 <= j < m ==> number_at(c, j) == number_at(a, j));
}

} // verus!
