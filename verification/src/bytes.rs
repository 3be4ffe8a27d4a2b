//! Byte-level text utilities shared by the rule-file loader and the
//! key-combination parser.  All specifications speak about `Seq<u8>`, the view
//! of the byte slices the executable code works on.

use vstd::prelude::*;

verus! {

/// ASCII whitespace, as trimmed from configuration text: space, tab, line
/// feed, vertical tab, form feed, carriage return.
pub open spec fn is_space(b: u8) -> bool {
    b == 32 || (9 <= b && b <= 13)
}

pub fn byte_is_space(b: u8) -> (r: bool)
    ensures
        r == is_space(b),
{
    b == 32 || (9 <= b && b <= 13)
}

/// The sequence with leading whitespace removed.
pub open spec fn trim_start(s: Seq<u8>) -> Seq<u8>
    decreases s.len(),
{
    if s.len() > 0 && is_space(s[0]) {
        trim_start(s.subrange(1, s.len() as int))
    } else {
        s
    }
}

/// The sequence with trailing whitespace removed.
pub open spec fn trim_end(s: Seq<u8>) -> Seq<u8>
    decreases s.len(),
{
    if s.len() > 0 && is_space(s.last()) {
        trim_end(s.drop_last())
    } else {
        s
    }
}

/// The sequence with both leading and trailing whitespace removed.
pub open spec fn spec_trim(s: Seq<u8>) -> Seq<u8> {
    trim_end(trim_start(s))
}

proof fn lemma_trim_start_subrange(s: Seq<u8>, i: int)
    requires
        0 <= i <= s.len(),
        forall|j: int| 0 <= j < i ==> is_space(s[j]),
        i == s.len() || !is_space(s[i]),
    ensures
        trim_start(s) == s.subrange(i, s.len() as int),
    decreases i,
{
    if i == 0 {
        assert(s.subrange(0, s.len() as int) =~= s);
    } else {
        let s1 = s.subrange(1, s.len() as int);
        lemma_trim_start_subrange(s1, i - 1);
        assert(s1.subrange(i - 1, s1.len() as int) =~= s.subrange(i, s.len() as int));
    }
}

proof fn lemma_trim_end_subrange(s: Seq<u8>, j: int)
    requires
        0 <= j <= s.len(),
        forall|k: int| j <= k < s.len() ==> is_space(s[k]),
        j == 0 || !is_space(s[j - 1]),
    ensures
        trim_end(s) == s.subrange(0, j),
    decreases s.len() - j,
{
    if j == s.len() {
        if s.len() > 0 && is_space(s.last()) {
            lemma_trim_end_subrange(s.drop_last(), j - 1);
            assert(s.drop_last().subrange(0, j - 1) =~= s.subrange(0, j - 1));
            assert(j - 1 == s.drop_last().len());
            assert(s.drop_last() =~= s.subrange(0, j - 1));
        } else {
            assert(s.subrange(0, j) =~= s);
        }
    } else {
        assert(is_space(s.last()));
        lemma_trim_end_subrange(s.drop_last(), j);
        assert(s.drop_last().subrange(0, j) =~= s.subrange(0, j));
    }
}

/// Trim ASCII whitespace from both ends of a byte slice.
pub fn trim_bytes<'a>(s: &'a [u8]) -> (r: &'a [u8])
    ensures
        r@ == spec_trim(s@),
{
    let mut i: usize = 0;
    while i < s.len() && byte_is_space(s[i])
        invariant
            i <= s@.len(),
            forall|j: int| 0 <= j < i ==> is_space(s@[j]),
        decreases s@.len() - i,
    {
        i += 1;
    }
    proof {
        lemma_trim_start_subrange(s@, i as int);
    }
    let mut j: usize = s.len();
    while j > i && byte_is_space(s[j - 1])
        invariant
            i <= j <= s@.len(),
            forall|k: int| j <= k < s@.len() ==> is_space(s@[k]),
        decreases j,
    {
        j -= 1;
    }
    proof {
        let t = s@.subrange(i as int, s@.len() as int);
        lemma_trim_end_subrange(t, j - i);
        assert(t.subrange(0, j - i) =~= s@.subrange(i as int, j as int));
    }
    vstd::slice::slice_subrange(s, i, j)
}


pub proof fn lemma_spec_find_bounds(s: Seq<u8>, b: u8)
    ensures
        match spec_find(s, b) {
            Some(i) => 0 <= i < s.len() && s[i] == b,
            None => true,
        },
    decreases s.len(),
{
    if s.len() > 0 && s[0] != b {
        lemma_spec_find_bounds(s.subrange(1, s.len() as int), b);
    }
}

proof fn lemma_trim_start_shorter(s: Seq<u8>)
    ensures
        trim_start(s).len() <= s.len(),
    decreases s.len(),
{
    if s.len() > 0 && is_space(s[0]) {
        lemma_trim_start_shorter(s.subrange(1, s.len() as int));
    }
}

proof fn lemma_trim_end_shorter(s: Seq<u8>)
    ensures
        trim_end(s).len() <= s.len(),
    decreases s.len(),
{
    if s.len() > 0 && is_space(s.last()) {
        lemma_trim_end_shorter(s.drop_last());
    }
}

pub proof fn lemma_trim_shorter(s: Seq<u8>)
    ensures
        spec_trim(s).len() <= s.len(),
{
    lemma_trim_start_shorter(s);
    lemma_trim_end_shorter(trim_start(s));
}

/// Whether two byte slices hold the same bytes.
pub fn bytes_eq(a: &[u8], b: &[u8]) -> (r: bool)
    ensures
        r == (a@ == b@),
{
    if a.len() != b.len() {
        assert(a@ != b@);
        return false;
    }
    let mut i: usize = 0;
    while i < a.len()
        invariant
            a@.len() == b@.len(),
            i <= a@.len(),
            forall|j: int| 0 <= j < i ==> a@[j] == b@[j],
        decreases a@.len() - i,
    {
        if a[i] != b[i] {
            assert(a@ != b@);
            return false;
        }
        i += 1;
    }
    assert(a@ =~= b@);
    true
}

/// Whether `p` is a prefix of `s`.
pub open spec fn has_prefix(s: Seq<u8>, p: Seq<u8>) -> bool {
    s.len() >= p.len() && s.subrange(0, p.len() as int) == p
}

/// If `p` is a prefix of `s`, the remainder of `s` after it.
pub fn strip_prefix_bytes<'a>(s: &'a [u8], p: &[u8]) -> (r: Option<&'a [u8]>)
    ensures
        match r {
            Some(rest) => has_prefix(s@, p@) && rest@ == s@.subrange(
                p@.len() as int,
                s@.len() as int,
            ),
            None => !has_prefix(s@, p@),
        },
{
    if s.len() < p.len() {
        return None;
    }
    let head = vstd::slice::slice_subrange(s, 0, p.len());
    if bytes_eq(head, p) {
        Some(vstd::slice::slice_subrange(s, p.len(), s.len()))
    } else {
        None
    }
}

/// Index of the first occurrence of `b` in `s`, if any.
pub open spec fn spec_find(s: Seq<u8>, b: u8) -> Option<int>
    decreases s.len(),
{
    if s.len() == 0 {
        None
    } else if s[0] == b {
        Some(0)
    } else {
        match spec_find(s.subrange(1, s.len() as int), b) {
            Some(i) => Some(i + 1),
            None => None,
        }
    }
}

proof fn lemma_find_characterization(s: Seq<u8>, b: u8, i: int)
    requires
        0 <= i <= s.len(),
        forall|j: int| 0 <= j < i ==> s[j] != b,
        i == s.len() || s[i] == b,
    ensures
        if i == s.len() {
            spec_find(s, b) is None
        } else {
            spec_find(s, b) == Some(i)
        },
    decreases i,
{
    if s.len() == 0 {
    } else if i == 0 {
    } else {
        let s1 = s.subrange(1, s.len() as int);
        lemma_find_characterization(s1, b, i - 1);
    }
}

/// Find the first occurrence of `b` in `s`.
pub fn find_byte(s: &[u8], b: u8) -> (r: Option<usize>)
    ensures
        match r {
            Some(i) => spec_find(s@, b) == Some(i as int) && i < s@.len() && s@[i as int] == b,
            None => spec_find(s@, b) is None,
        },
{
    let mut i: usize = 0;
    while i < s.len()
        invariant
            i <= s@.len(),
            forall|j: int| 0 <= j < i ==> s@[j] != b,
        decreases s@.len() - i,
    {
        if s[i] == b {
            proof {
                lemma_find_characterization(s@, b, i as int);
            }
            return Some(i);
        }
        i += 1;
    }
    proof {
        lemma_find_characterization(s@, b, s@.len() as int);
    }
    None
}

/// Index of the last occurrence of the two-byte pattern `a b` in `s`, if any.
pub open spec fn spec_rfind2(s: Seq<u8>, a: u8, b: u8) -> Option<int>
    decreases s.len(),
{
    if s.len() < 2 {
        None
    } else if s[s.len() - 2] == a && s[s.len() - 1] == b {
        Some(s.len() - 2)
    } else {
        spec_rfind2(s.drop_last(), a, b)
    }
}

proof fn lemma_rfind2_characterization(s: Seq<u8>, a: u8, b: u8, i: int)
    requires
        0 <= i,
        i + 2 <= s.len(),
        s[i] == a && s[i + 1] == b,
        forall|j: int| i < j && j + 2 <= s.len() ==> !(#[trigger] s[j] == a && s[j + 1] == b),
    ensures
        spec_rfind2(s, a, b) == Some(i),
    decreases s.len(),
{
    if i + 2 == s.len() {
    } else {
        lemma_rfind2_characterization(s.drop_last(), a, b, i);
    }
}

proof fn lemma_rfind2_none(s: Seq<u8>, a: u8, b: u8)
    requires
        forall|j: int| 0 <= j && j + 2 <= s.len() ==> !(#[trigger] s[j] == a && s[j + 1] == b),
    ensures
        spec_rfind2(s, a, b) is None,
    decreases s.len(),
{
    if s.len() >= 2 {
        lemma_rfind2_none(s.drop_last(), a, b);
    }
}

/// Find the last occurrence of the two-byte pattern `a b` in `s`.
pub fn rfind_pair(s: &[u8], a: u8, b: u8) -> (r: Option<usize>)
    ensures
        match r {
            Some(i) => spec_rfind2(s@, a, b) == Some(i as int) && i + 2 <= s@.len(),
            None => spec_rfind2(s@, a, b) is None,
        },
{
    if s.len() < 2 {
        proof {
            lemma_rfind2_none(s@, a, b);
        }
        return None;
    }
    let mut i: usize = s.len() - 1;
    while i > 0
        invariant
            i + 1 <= s@.len(),
            forall|j: int| i <= j && j + 2 <= s@.len() ==> !(#[trigger] s@[j] == a && s@[j + 1] == b),
        decreases i,
    {
        i -= 1;
        if s[i] == a && s[i + 1] == b {
            proof {
                lemma_rfind2_characterization(s@, a, b, i as int);
            }
            return Some(i);
        }
    }
    proof {
        lemma_rfind2_none(s@, a, b);
    }
    None
}

/// A byte mapped to its ASCII upper-case form.
pub open spec fn upper_byte(b: u8) -> u8 {
    if 97 <= b && b <= 122 {
        (b - 32) as u8
    } else {
        b
    }
}

/// A byte sequence mapped to its ASCII upper-case form.
pub open spec fn spec_upper(s: Seq<u8>) -> Seq<u8> {
    s.map_values(|b: u8| upper_byte(b))
}

/// ASCII upper-case copy of a byte slice.
pub fn to_upper_bytes(s: &[u8]) -> (r: Vec<u8>)
    ensures
        r@ == spec_upper(s@),
{
    let mut r: Vec<u8> = Vec::new();
    let mut i: usize = 0;
    while i < s.len()
        invariant
            i <= s@.len(),
            r@ == s@.subrange(0, i as int).map_values(|b: u8| upper_byte(b)),
        decreases s@.len() - i,
    {
        let b = s[i];
        if 97 <= b && b <= 122 {
            r.push(b - 32);
        } else {
            r.push(b);
        }
        proof {
            assert(s@.subrange(0, i + 1).map_values(|b: u8| upper_byte(b)) =~= s@.subrange(
                0,
                i as int,
            ).map_values(|b: u8| upper_byte(b)).push(upper_byte(s@[i as int])));
        }
        i += 1;
    }
    proof {
        assert(s@.subrange(0, s@.len() as int) =~= s@);
    }
    r
}

/// A copy of a byte slice as an owned vector.
pub fn bytes_to_vec(s: &[u8]) -> (r: Vec<u8>)
    ensures
        r@ == s@,
{
    let mut r: Vec<u8> = Vec::new();
    let mut i: usize = 0;
    while i < s.len()
        invariant
            i <= s@.len(),
            r@ == s@.subrange(0, i as int),
        decreases s@.len() - i,
    {
        r.push(s[i]);
        proof {
            assert(s@.subrange(0, i + 1) =~= s@.subrange(0, i as int).push(s@[i as int]));
        }
        i += 1;
    }
    proof {
        assert(s@.subrange(0, s@.len() as int) =~= s@);
    }
    r
}

/// Whether `b` is an ASCII decimal digit.
pub open spec fn is_digit(b: u8) -> bool {
    48 <= b && b <= 57
}

/// The numeric value of a sequence of ASCII digits.
pub open spec fn digits_val(s: Seq<u8>) -> nat
    decreases s.len(),
{
    if s.len() == 0 {
        0
    } else {
        digits_val(s.drop_last()) * 10 + (s.last() - 48) as nat
    }
}

/// The digit portion of a decimal literal: everything after an optional
/// leading plus sign.
pub open spec fn spec_digits(s: Seq<u8>) -> Seq<u8> {
    if s.len() >= 1 && s[0] == 43 {
        s.subrange(1, s.len() as int)
    } else {
        s
    }
}

/// Whether `d` is a nonempty run of digits whose value fits in 32 bits.
pub open spec fn digits_ok(d: Seq<u8>) -> bool {
    d.len() >= 1 && (forall|i: int| 0 <= i < d.len() ==> is_digit(d[i])) && digits_val(d)
        < 0x1_0000_0000
}

/// The value a decimal unsigned-integer literal parses to: an optional leading
/// plus sign, then at least one digit, with a value below 2^32.
pub open spec fn spec_parse_u32(s: Seq<u8>) -> Option<u32> {
    if digits_ok(spec_digits(s)) {
        Some(digits_val(spec_digits(s)) as u32)
    } else {
        None
    }
}

proof fn lemma_digits_val_prefix_bound(s: Seq<u8>, j: int)
    requires
        0 <= j <= s.len(),
    ensures
        digits_val(s) >= digits_val(s.subrange(0, j)),
    decreases s.len() - j,
{
    if j == s.len() {
        assert(s.subrange(0, j) =~= s);
    } else {
        lemma_digits_val_prefix_bound(s, j + 1);
        assert(s.subrange(0, j + 1).drop_last() =~= s.subrange(0, j));
        assert(digits_val(s.subrange(0, j + 1)) >= digits_val(s.subrange(0, j)));
    }
}

/// Parse an unsigned decimal integer as `str::parse::<u32>` does: an optional
/// leading `+`, then one or more digits, rejecting overflow.
#[verifier::loop_isolation(false)]
pub fn parse_u32_bytes(s: &[u8]) -> (r: Option<u32>)
    ensures
        r == spec_parse_u32(s@),
{
    let d: &[u8] = if s.len() >= 1 && s[0] == 43 {
        vstd::slice::slice_subrange(s, 1, s.len())
    } else {
        s
    };
    proof {
        assert(spec_digits(s@) == d@);
    }
    if d.len() == 0 {
        return None;
    }
    let mut acc: u32 = 0;
    let mut i: usize = 0;
    while i < d.len()
        invariant
            i <= d@.len(),
            d@.len() >= 1,
            forall|j: int| 0 <= j < i ==> is_digit(d@[j]),
            acc == digits_val(d@.subrange(0, i as int)),
        decreases d@.len() - i,
    {
        let b = d[i];
        if b < 48 || b > 57 {
            proof {
                assert(spec_digits(s@) == d@);
                assert(!digits_ok(d@)) by {
                    assert((i as int) < d@.len() && !is_digit(d@[i as int]));
                }
            }
            return None;
        }
        let digit: u32 = (b - 48) as u32;
        if acc > (u32::MAX - digit) / 10 {
            proof {
                assert(spec_digits(s@) == d@);
                assert(digits_val(d@.subrange(0, i + 1)) == acc * 10 + digit) by {
                    assert(d@.subrange(0, i + 1).drop_last() =~= d@.subrange(0, i as int));
                };
                assert(acc * 10 + digit > u32::MAX);
                lemma_digits_val_prefix_bound(d@, i + 1);
                assert(!digits_ok(d@));
            }
            return None;
        }
        acc = acc * 10 + digit;
        proof {
            assert(d@.subrange(0, i + 1).drop_last() =~= d@.subrange(0, i as int));
        }
        i += 1;
    }
    proof {
        assert(d@.subrange(0, d@.len() as int) =~= d@);
    }
    Some(acc)
}

} // verus!
