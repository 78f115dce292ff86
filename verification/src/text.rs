//! Character-level text helpers: trimming, substring search, ordering,
//! decimal parsing and the lower-casing that the library's searches use.
use vstd::prelude::*;
use vstd::string::*;

verus! {

/// The characters of `s`, in order.
pub fn chars_of(s: &str) -> (r: Vec<char>)
    ensures
        r@ == s@,
{
    let mut out: Vec<char> = Vec::new();
    for c in it: s.chars()
        invariant
            out@ == it.seq().take(it.index()),
            it.seq() == s@,
    {
        out.push(c);
    }
    out
}

/// Builds a `String` from a sequence of characters
/// (std's `FromIterator<char> for String`, which appends each character in turn).
#[verifier::external_body]
pub(crate) fn string_from_chars(v: &Vec<char>) -> (r: String)
    ensures
        r@ == v@,
{
    v.iter().collect::<String>()
}

/// Name for what std's `str::to_lowercase` returns: the text lower-cased by
/// Unicode's rules (character by character, but for a final capital sigma,
/// whose lower case depends on the characters around it).
pub uninterp spec fn lowercase_of(s: Seq<char>) -> Seq<char>;

/// Lower-cases `s` with std's `str::to_lowercase`.
/// Trusted: the result is `lowercase_of` applied to the characters of `s`;
/// nothing more of the Unicode mapping is stated.
#[verifier::external_body]
pub(crate) fn to_lowercase(s: &str) -> (r: String)
    ensures
        r@ == lowercase_of(s@),
{
    s.to_lowercase()
}

/// Whether two character sequences are equal, element by element.
pub fn chars_equal(a: &Vec<char>, b: &Vec<char>) -> (r: bool)
    ensures
        r == (a@ == b@),
{
    if a.len() != b.len() {
        return false;
    }
    let mut i: usize = 0;
    while i < a.len()
        invariant
            a.len() == b.len(),
            i <= a.len(),
            forall|j: int| 0 <= j < i ==> a@[j] == b@[j],
        decreases a.len() - i,
    {
        if a[i] != b[i] {
            return false;
        }
        i = i + 1;
    }
    assert(a@ =~= b@);
    true
}

/// Whether two string slices hold the same characters.
pub fn str_equal(a: &str, b: &str) -> (r: bool)
    ensures
        r == (a@ == b@),
{
    let ca = chars_of(a);
    let cb = chars_of(b);
    chars_equal(&ca, &cb)
}

/// `needle` occurs in `hay` starting at position `i`.
pub open spec fn occurs_at(hay: Seq<char>, needle: Seq<char>, i: int) -> bool {
    0 <= i && i + needle.len() <= hay.len() && hay.subrange(i, i + needle.len()) == needle
}

/// `needle` occurs somewhere in `hay` (the empty sequence occurs everywhere).
pub open spec fn contains_chars(hay: Seq<char>, needle: Seq<char>) -> bool {
    exists|i: int| #[trigger] occurs_at(hay, needle, i)
}

fn occurs_at_exec(hay: &Vec<char>, needle: &Vec<char>, i: usize) -> (r: bool)
    requires
        i + needle.len() <= hay.len(),
    ensures
        r == occurs_at(hay@, needle@, i as int),
{
    let mut k: usize = 0;
    while k < needle.len()
        invariant
            i + needle.len() <= hay.len(),
            k <= needle.len(),
            forall|j: int| 0 <= j < k ==> hay@[i + j] == needle@[j],
        decreases needle.len() - k,
    {
        if hay[i + k] != needle[k] {
            assert(hay@.subrange(i as int, i + needle.len())[k as int] != needle@[k as int]);
            return false;
        }
        k = k + 1;
    }
    assert(hay@.subrange(i as int, i + needle.len()) =~= needle@);
    true
}

/// Substring search on characters.
pub fn chars_contain(hay: &Vec<char>, needle: &Vec<char>) -> (r: bool)
    ensures
        r == contains_chars(hay@, needle@),
{
    if needle.len() > hay.len() {
        assert forall|i: int| !occurs_at(hay@, needle@, i) by {}
        return false;
    }
    let last = hay.len() - needle.len();
    let mut i: usize = 0;
    while i <= last
        invariant
            last + needle.len() == hay.len(),
            forall|j: int| 0 <= j < i ==> !occurs_at(hay@, needle@, j),
        decreases last + 1 - i,
    {
        if occurs_at_exec(hay, needle, i) {
            assert(occurs_at(hay@, needle@, i as int));
            return true;
        }
        if i == last {
            assert forall|j: int| !occurs_at(hay@, needle@, j) by {
                if 0 <= j <= last {
                } else {
                }
            }
            return false;
        }
        i = i + 1;
    }
    false
}

/// The characters that std's `char::is_whitespace` accepts: those with the
/// Unicode `White_Space` property.
pub open spec fn is_white_space(c: char) -> bool {
    ||| ('\u{9}' <= c && c <= '\u{d}')
    ||| c == ' '
    ||| c == '\u{85}'
    ||| c == '\u{a0}'
    ||| c == '\u{1680}'
    ||| ('\u{2000}' <= c && c <= '\u{200a}')
    ||| c == '\u{2028}'
    ||| c == '\u{2029}'
    ||| c == '\u{202f}'
    ||| c == '\u{205f}'
    ||| c == '\u{3000}'
}

/// Whether `c` is Unicode white space.
pub fn is_whitespace(c: char) -> (r: bool)
    ensures
        r == is_white_space(c),
{
    ('\u{9}' <= c && c <= '\u{d}') || c == ' ' || c == '\u{85}' || c == '\u{a0}' || c
        == '\u{1680}' || ('\u{2000}' <= c && c <= '\u{200a}') || c == '\u{2028}' || c
        == '\u{2029}' || c == '\u{202f}' || c == '\u{205f}' || c == '\u{3000}'
}

/// `s` with its leading and trailing white space removed (what `str::trim` keeps).
#[verifier::opaque]
pub open spec fn trimmed(s: Seq<char>) -> Seq<char> {
    if forall|i: int| 0 <= i < s.len() ==> is_white_space(#[trigger] s[i]) {
        Seq::empty()
    } else {
        let a = choose|a: int|
            0 <= a < s.len() && !is_white_space(#[trigger] s[a]) && forall|j: int|
                0 <= j < a ==> is_white_space(#[trigger] s[j]);
        let b = choose|b: int|
            0 <= b < s.len() && !is_white_space(#[trigger] s[b]) && forall|j: int|
                b < j < s.len() ==> is_white_space(#[trigger] s[j]);
        s.subrange(a, b + 1)
    }
}

/// Characterisation of `trimmed` by its bounds: `s[a..b]` with only white space
/// outside it and non-white-space at both of its ends.
pub proof fn lemma_trimmed_bounds(s: Seq<char>, a: int, b: int)
    requires
        0 <= a <= b <= s.len(),
        forall|j: int| 0 <= j < a ==> is_white_space(#[trigger] s[j]),
        forall|j: int| b <= j < s.len() ==> is_white_space(#[trigger] s[j]),
        a < b ==> !is_white_space(s[a]) && !is_white_space(s[b - 1]),
        a == b ==> forall|j: int| 0 <= j < s.len() ==> is_white_space(#[trigger] s[j]),
    ensures
        trimmed(s) == s.subrange(a, b),
{
    reveal(trimmed);
    if forall|i: int| 0 <= i < s.len() ==> is_white_space(#[trigger] s[i]) {
        if a < b {
            assert(is_white_space(s[a]));
        }
        assert(s.subrange(a, b) =~= Seq::<char>::empty());
    } else {
        assert(a < b);
        let x = choose|x: int|
            0 <= x < s.len() && !is_white_space(#[trigger] s[x]) && forall|j: int|
                0 <= j < x ==> is_white_space(#[trigger] s[j]);
        assert(0 <= a < s.len() && !is_white_space(s[a]) && forall|j: int|
            0 <= j < a ==> is_white_space(#[trigger] s[j]));
        if x < a {
            assert(is_white_space(s[x]));
        }
        if a < x {
            assert(is_white_space(s[a]));
        }
        let y = choose|y: int|
            0 <= y < s.len() && !is_white_space(#[trigger] s[y]) && forall|j: int|
                y < j < s.len() ==> is_white_space(#[trigger] s[j]);
        assert(0 <= b - 1 < s.len() && !is_white_space(s[b - 1]) && forall|j: int|
            b - 1 < j < s.len() ==> is_white_space(#[trigger] s[j]));
        if y < b - 1 {
            assert(is_white_space(s[b - 1]));
        }
        if b - 1 < y {
            assert(is_white_space(s[y]));
        }
    }
}

/// The first position from `i` on that is not white space (`s.len()` if none).
proof fn first_non_white(s: Seq<char>, i: int) -> (a: int)
    requires
        0 <= i <= s.len(),
        forall|j: int| 0 <= j < i ==> is_white_space(#[trigger] s[j]),
    ensures
        i <= a <= s.len(),
        forall|j: int| 0 <= j < a ==> is_white_space(#[trigger] s[j]),
        a < s.len() ==> !is_white_space(s[a]),
    decreases s.len() - i,
{
    if i == s.len() || !is_white_space(s[i]) {
        i
    } else {
        first_non_white(s, i + 1)
    }
}

/// The end of the last stretch that is not white space, looking down from
/// `b` but not below `a`.
proof fn last_non_white(s: Seq<char>, a: int, b: int) -> (e: int)
    requires
        0 <= a <= b <= s.len(),
        forall|j: int| b <= j < s.len() ==> is_white_space(#[trigger] s[j]),
    ensures
        a <= e <= b,
        forall|j: int| e <= j < s.len() ==> is_white_space(#[trigger] s[j]),
        a < e ==> !is_white_space(s[e - 1]),
    decreases b - a,
{
    if b == a || !is_white_space(s[b - 1]) {
        b
    } else {
        last_non_white(s, a, b - 1)
    }
}

/// Trimming leaves nothing exactly when the text is all white space.
pub proof fn lemma_trimmed_empty(s: Seq<char>)
    ensures
        trimmed(s).len() == 0 <==> forall|i: int| 0 <= i < s.len() ==> is_white_space(#[trigger] s[i]),
{
    let a = first_non_white(s, 0);
    let b = last_non_white(s, a, s.len() as int);
    if a == b {
        assert forall|j: int| 0 <= j < s.len() implies is_white_space(#[trigger] s[j]) by {
            if j >= a {
            }
        }
    }
    lemma_trimmed_bounds(s, a, b);
}

/// Trimming twice is trimming once.
pub proof fn lemma_trimmed_idempotent(s: Seq<char>)
    ensures
        trimmed(trimmed(s)) == trimmed(s),
{
    let a = first_non_white(s, 0);
    let b = last_non_white(s, a, s.len() as int);
    if a == b {
        assert forall|j: int| 0 <= j < s.len() implies is_white_space(#[trigger] s[j]) by {
            if j >= a {
            }
        }
    }
    lemma_trimmed_bounds(s, a, b);
    let t = s.subrange(a, b);
    if a < b {
        lemma_trimmed_bounds(t, 0, t.len() as int);
        assert(t.subrange(0, t.len() as int) =~= t);
    } else {
        lemma_trimmed_bounds(t, 0, 0);
        assert(t.subrange(0, 0) =~= t);
    }
}

/// `s` without leading and trailing white space.
pub fn trim_chars(s: &Vec<char>) -> (r: Vec<char>)
    ensures
        r@ == trimmed(s@),
{
    let mut a: usize = 0;
    while a < s.len() && is_whitespace(s[a])
        invariant
            a <= s.len(),
            forall|j: int| 0 <= j < a ==> is_white_space(#[trigger] s@[j]),
        decreases s.len() - a,
    {
        a = a + 1;
    }
    let mut b: usize = s.len();
    while b > a && is_whitespace(s[b - 1])
        invariant
            a <= b <= s.len(),
            forall|j: int| b <= j < s.len() ==> is_white_space(#[trigger] s@[j]),
        decreases b,
    {
        b = b - 1;
    }
    let mut out: Vec<char> = Vec::new();
    let mut i: usize = a;
    while i < b
        invariant
            a <= i <= b <= s.len(),
            out@ == s@.subrange(a as int, i as int),
        decreases b - i,
    {
        out.push(s[i]);
        assert(s@.subrange(a as int, i + 1) =~= s@.subrange(a as int, i as int).push(s@[i as int]));
        i = i + 1;
    }
    proof {
        if a == b {
            assert forall|j: int| 0 <= j < s@.len() implies is_white_space(#[trigger] s@[j]) by {
                if j < a {
                } else {
                }
            }
        }
        lemma_trimmed_bounds(s@, a as int, b as int);
    }
    out
}

/// The ASCII digit for a value below ten.
pub open spec fn digit_char(d: nat) -> char {
    ('0' as nat + d) as char
}

/// The decimal digits of `n`, most significant first, without leading zeros
/// (what `Display` writes for an unsigned integer).
pub open spec fn decimal_of(n: nat) -> Seq<char>
    decreases n,
{
    if n < 10 {
        seq![digit_char(n)]
    } else {
        decimal_of(n / 10).push(digit_char(n % 10))
    }
}

/// The decimal text of `n` is a non-empty run of digits that spells `n`.
pub proof fn lemma_decimal_digits(n: nat)
    ensures
        decimal_of(n).len() > 0,
        forall|i: int| 0 <= i < decimal_of(n).len() ==> is_digit(#[trigger] decimal_of(n)[i]),
        digits_value(decimal_of(n)) == n,
    decreases n,
{
    if n >= 10 {
        lemma_decimal_digits(n / 10);
        let s = decimal_of(n / 10);
        let t = s.push(digit_char(n % 10));
        assert(t.drop_last() =~= s);
        assert(digit_value(digit_char(n % 10)) == n % 10);
        assert((n / 10) * 10 + n % 10 == n) by (nonlinear_arith);
        assert(t == decimal_of(n));
        assert(t.last() == digit_char(n % 10));
        assert(digits_value(t) == digits_value(s) * 10 + digit_value(digit_char(n % 10)));
        assert forall|i: int| 0 <= i < t.len() implies is_digit(#[trigger] t[i]) by {
            if i < s.len() {
                assert(t[i] == s[i]);
            }
        }
    } else {
        let t = decimal_of(n);
        assert(t.drop_last() =~= Seq::<char>::empty());
        assert(digit_value(digit_char(n)) == n);
        assert(digits_value(t) == digits_value(t.drop_last()) * 10 + digit_value(t.last()));
    }
}

/// The ASCII digit for `d`.
fn digit_to_char(d: u64) -> (c: char)
    requires
        d < 10,
    ensures
        c == digit_char(d as nat),
{
    match d {
        0 => '0',
        1 => '1',
        2 => '2',
        3 => '3',
        4 => '4',
        5 => '5',
        6 => '6',
        7 => '7',
        8 => '8',
        _ => '9',
    }
}

/// Appends the decimal digits of `n` to `out`.
fn push_decimal(n: u64, out: &mut Vec<char>)
    ensures
        final(out)@ == old(out)@ + decimal_of(n as nat),
    decreases n,
{
    if n >= 10 {
        push_decimal(n / 10, out);
    }
    out.push(digit_to_char(n % 10));
}

/// The decimal text of `n`.
pub fn decimal(n: u64) -> (r: String)
    ensures
        r@ == decimal_of(n as nat),
{
    let mut out: Vec<char> = Vec::new();
    push_decimal(n, &mut out);
    assert(out@ =~= decimal_of(n as nat));
    string_from_chars(&out)
}

/// `s` without leading and trailing white space, as a new string.
pub fn trim_string(s: &str) -> (r: String)
    ensures
        r@ == trimmed(s@),
{
    string_from_chars(&trim_chars(&chars_of(s)))
}

/// Strict lexicographic order on character sequences (the order of `String`'s `Ord`,
/// since UTF-8 keeps the order of code points).
pub open spec fn lex_lt(a: Seq<char>, b: Seq<char>) -> bool
    decreases a.len(),
{
    if b.len() == 0 {
        false
    } else if a.len() == 0 {
        true
    } else if a[0] != b[0] {
        a[0] < b[0]
    } else {
        lex_lt(a.drop_first(), b.drop_first())
    }
}

pub proof fn lemma_lex_lt_irreflexive(a: Seq<char>)
    ensures
        !lex_lt(a, a),
    decreases a.len(),
{
    if a.len() > 0 {
        lemma_lex_lt_irreflexive(a.drop_first());
    }
}

pub proof fn lemma_lex_lt_total(a: Seq<char>, b: Seq<char>)
    ensures
        lex_lt(a, b) || lex_lt(b, a) || a == b,
    decreases a.len(),
{
    if a.len() > 0 && b.len() > 0 && a[0] == b[0] {
        lemma_lex_lt_total(a.drop_first(), b.drop_first());
        if a.drop_first() == b.drop_first() {
            assert(a =~= seq![a[0]] + a.drop_first());
            assert(b =~= seq![b[0]] + b.drop_first());
        }
    } else if a.len() == 0 && b.len() == 0 {
        assert(a =~= b);
    }
}

pub proof fn lemma_lex_lt_asymmetric(a: Seq<char>, b: Seq<char>)
    ensures
        !(lex_lt(a, b) && lex_lt(b, a)),
    decreases a.len(),
{
    if a.len() > 0 && b.len() > 0 && a[0] == b[0] {
        lemma_lex_lt_asymmetric(a.drop_first(), b.drop_first());
    }
}

pub proof fn lemma_lex_lt_transitive(a: Seq<char>, b: Seq<char>, c: Seq<char>)
    requires
        lex_lt(a, b),
        lex_lt(b, c),
    ensures
        lex_lt(a, c),
    decreases a.len(),
{
    if a.len() > 0 && b.len() > 0 && c.len() > 0 && a[0] == b[0] && b[0] == c[0] {
        lemma_lex_lt_transitive(a.drop_first(), b.drop_first(), c.drop_first());
    }
}

/// Lexicographic "less than" on character sequences.
pub fn chars_less(a: &Vec<char>, b: &Vec<char>) -> (r: bool)
    ensures
        r == lex_lt(a@, b@),
{
    let mut i: usize = 0;
    assert(a@.skip(0) =~= a@);
    assert(b@.skip(0) =~= b@);
    while i < a.len() && i < b.len() && a[i] == b[i]
        invariant
            i <= a.len(),
            i <= b.len(),
            forall|j: int| 0 <= j < i ==> a@[j] == b@[j],
            lex_lt(a@, b@) == lex_lt(a@.skip(i as int), b@.skip(i as int)),
        decreases a.len() - i,
    {
        proof {
            let sa = a@.skip(i as int);
            let sb = b@.skip(i as int);
            assert(sa.drop_first() =~= a@.skip(i + 1));
            assert(sb.drop_first() =~= b@.skip(i + 1));
        }
        i = i + 1;
    }
    if i == b.len() {
        false
    } else if i == a.len() {
        true
    } else {
        a[i] < b[i]
    }
}

/// Whether `c` is an ASCII decimal digit.
pub open spec fn is_digit(c: char) -> bool {
    '0' <= c && c <= '9'
}

/// The value of an ASCII digit.
pub open spec fn digit_value(c: char) -> nat {
    (c as nat - '0' as nat) as nat
}

/// The number that a sequence of decimal digits spells, most significant first.
pub open spec fn digits_value(s: Seq<char>) -> nat
    decreases s.len(),
{
    if s.len() == 0 {
        0
    } else {
        digits_value(s.drop_last()) * 10 + digit_value(s.last())
    }
}

/// The part of `s` after an optional leading `+`.
pub open spec fn unsigned_digits(s: Seq<char>) -> Seq<char> {
    if s.len() > 0 && s[0] == '+' {
        s.drop_first()
    } else {
        s
    }
}

/// What std's `u32::from_str` gives: an optional `+` sign, then one or more
/// ASCII digits whose value fits in a `u32`; anything else is an error.
pub open spec fn parse_u32_spec(s: Seq<char>) -> Option<u32> {
    let d = unsigned_digits(s);
    if d.len() == 0 || !(forall|i: int| 0 <= i < d.len() ==> is_digit(#[trigger] d[i])) {
        None
    } else if digits_value(d) > u32::MAX {
        None
    } else {
        Some(digits_value(d) as u32)
    }
}

/// What std's `u64::from_str` gives: an optional `+` sign, then one or more
/// ASCII digits whose value fits in a `u64`; anything else is an error.
pub open spec fn parse_u64_spec(s: Seq<char>) -> Option<u64> {
    let d = unsigned_digits(s);
    if d.len() == 0 || !(forall|i: int| 0 <= i < d.len() ==> is_digit(#[trigger] d[i])) {
        None
    } else if digits_value(d) > u64::MAX {
        None
    } else {
        Some(digits_value(d) as u64)
    }
}

proof fn lemma_digits_value_grows(s: Seq<char>, k: int)
    requires
        0 <= k <= s.len(),
    ensures
        digits_value(s.take(k)) <= digits_value(s),
    decreases s.len() - k,
{
    if k < s.len() {
        lemma_digits_value_grows(s, k + 1);
        let t = s.take(k + 1);
        assert(t.drop_last() =~= s.take(k));
    } else {
        assert(s.take(k) =~= s);
    }
}

/// Parses a decimal `u32` as std's `str::parse::<u32>` does.
pub fn parse_u32(s: &Vec<char>) -> (r: Option<u32>)
    ensures
        r == parse_u32_spec(s@),
{
    let ghost d = unsigned_digits(s@);
    let start: usize = if s.len() > 0 && s[0] == '+' {
        1
    } else {
        0
    };
    assert(d =~= s@.skip(start as int));
    if start == s.len() {
        return None;
    }
    let mut value: u32 = 0;
    let mut i: usize = start;
    while i < s.len()
        invariant
            start <= i <= s.len(),
            d == s@.skip(start as int),
            d == unsigned_digits(s@),
            forall|j: int| 0 <= j < i - start ==> is_digit(#[trigger] d[j]),
            value as nat == digits_value(d.take(i - start)),
        decreases s.len() - i,
    {
        let c = s[i];
        assert(d[i - start] == c);
        if !('0' <= c && c <= '9') {
            assert(!is_digit(d[i - start]));
            assert(!(forall|j: int| 0 <= j < d.len() ==> is_digit(#[trigger] d[j])));
            return None;
        }
        let dv: u32 = (c as u32) - ('0' as u32);
        proof {
            let t = d.take(i - start + 1);
            assert(t.drop_last() =~= d.take(i - start));
            assert(t.last() == c);
        }
        if value > 429496729 || (value == 429496729 && dv > 5) {
            proof {
                let t = d.take(i - start + 1);
                assert(digits_value(t) > u32::MAX) by (nonlinear_arith)
                    requires
                        digits_value(t) == value * 10 + dv,
                        value > 429496729 || (value == 429496729 && dv > 5),
                ;
                lemma_digits_value_grows(d, i - start + 1);
                assert(d.len() > 0);
                if forall|j: int| 0 <= j < d.len() ==> is_digit(#[trigger] d[j]) {
                    assert(digits_value(d) > u32::MAX);
                }
            }
            return None;
        }
        value = value * 10 + dv;
        i = i + 1;
    }
    assert(d.take(d.len() as int) =~= d);
    Some(value)
}

/// Parses a decimal `u64` as std's `str::parse::<u64>` does.
pub fn parse_u64(s: &Vec<char>) -> (r: Option<u64>)
    ensures
        r == parse_u64_spec(s@),
{
    let ghost d = unsigned_digits(s@);
    let start: usize = if s.len() > 0 && s[0] == '+' {
        1
    } else {
        0
    };
    assert(d =~= s@.skip(start as int));
    if start == s.len() {
        return None;
    }
    let mut value: u64 = 0;
    let mut i: usize = start;
    while i < s.len()
        invariant
            start <= i <= s.len(),
            d == s@.skip(start as int),
            d == unsigned_digits(s@),
            forall|j: int| 0 <= j < i - start ==> is_digit(#[trigger] d[j]),
            value as nat == digits_value(d.take(i - start)),
        decreases s.len() - i,
    {
        let c = s[i];
        assert(d[i - start] == c);
        if !('0' <= c && c <= '9') {
            assert(!is_digit(d[i - start]));
            assert(!(forall|j: int| 0 <= j < d.len() ==> is_digit(#[trigger] d[j])));
            return None;
        }
        let dv: u64 = (c as u64) - ('0' as u64);
        proof {
            let t = d.take(i - start + 1);
            assert(t.drop_last() =~= d.take(i - start));
            assert(t.last() == c);
        }
        if value > 1844674407370955161 || (value == 1844674407370955161 && dv > 5) {
            proof {
                let t = d.take(i - start + 1);
                assert(digits_value(t) > u64::MAX) by (nonlinear_arith)
                    requires
                        digits_value(t) == value * 10 + dv,
                        value > 1844674407370955161 || (value == 1844674407370955161 && dv > 5),
                ;
                lemma_digits_value_grows(d, i - start + 1);
                assert(d.len() > 0);
                if forall|j: int| 0 <= j < d.len() ==> is_digit(#[trigger] d[j]) {
                    assert(digits_value(d) > u64::MAX);
                }
            }
            return None;
        }
        value = value * 10 + dv;
        i = i + 1;
    }
    assert(d.take(d.len() as int) =~= d);
    Some(value)
}

/// The pieces of `s` between the `sep` characters, as `str::split` gives them:
/// empty pieces included, and the empty text is one empty piece.
pub open spec fn pieces(s: Seq<char>, sep: char) -> Seq<Seq<char>>
    decreases s.len(),
{
    if s.len() == 0 {
        seq![Seq::empty()]
    } else {
        let p = pieces(s.drop_last(), sep);
        if s.last() == sep {
            p.push(Seq::empty())
        } else {
            p.update(p.len() - 1, p.last().push(s.last()))
        }
    }
}

/// Splits `s` at every `sep`.
pub fn split_chars(s: &Vec<char>, sep: char) -> (r: Vec<Vec<char>>)
    ensures
        r@.map_values(|p: Vec<char>| p@) == pieces(s@, sep),
{
    let mut done: Vec<Vec<char>> = Vec::new();
    let mut piece: Vec<char> = Vec::new();
    let mut i: usize = 0;
    proof {
        assert(s@.take(0) =~= Seq::<char>::empty());
        assert(pieces(s@.take(0), sep) =~= done@.map_values(|p: Vec<char>| p@).push(piece@));
    }
    while i < s.len()
        invariant
            i <= s.len(),
            pieces(s@.take(i as int), sep) == done@.map_values(|p: Vec<char>| p@).push(piece@),
        decreases s.len() - i,
    {
        let c = s[i];
        proof {
            let t = s@.take(i + 1);
            assert(t.drop_last() =~= s@.take(i as int));
            assert(t.last() == c);
        }
        let ghost old_done = done@.map_values(|p: Vec<char>| p@);
        let ghost old_piece = piece@;
        if c == sep {
            done.push(piece);
            piece = Vec::new();
            proof {
                assert(done@.map_values(|p: Vec<char>| p@) =~= old_done.push(old_piece));
                assert(done@.map_values(|p: Vec<char>| p@).push(piece@) =~= old_done.push(
                    old_piece,
                ).push(Seq::empty()));
            }
        } else {
            piece.push(c);
            proof {
                let p = old_done.push(old_piece);
                assert(p.update(p.len() - 1, p.last().push(c)) =~= old_done.push(piece@));
            }
        }
        i = i + 1;
    }
    let ghost d = done@.map_values(|p: Vec<char>| p@);
    done.push(piece);
    proof {
        assert(s@.take(s@.len() as int) =~= s@);
        assert(done@.map_values(|p: Vec<char>| p@) =~= d.push(piece@));
    }
    done
}

} // verus!
