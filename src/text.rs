use vstd::prelude::*;

verus! {

/// The character of a digit below sixteen, lower case.
pub open spec fn digit_char(d: nat) -> char {
    if d == 0 {
        '0'
    } else if d == 1 {
        '1'
    } else if d == 2 {
        '2'
    } else if d == 3 {
        '3'
    } else if d == 4 {
        '4'
    } else if d == 5 {
        '5'
    } else if d == 6 {
        '6'
    } else if d == 7 {
        '7'
    } else if d == 8 {
        '8'
    } else if d == 9 {
        '9'
    } else if d == 10 {
        'a'
    } else if d == 11 {
        'b'
    } else if d == 12 {
        'c'
    } else if d == 13 {
        'd'
    } else if d == 14 {
        'e'
    } else {
        'f'
    }
}

/// The decimal digits of `n`, most significant first, without leading zeros.
pub open spec fn decimal_digits(n: nat) -> Seq<char>
    decreases n,
{
    if n < 10 {
        seq![digit_char(n)]
    } else {
        decimal_digits(n / 10).push(digit_char(n % 10))
    }
}

/// The lower-case hexadecimal digits of `n`, most significant first, without
/// leading zeros.
pub open spec fn hex_digits(n: nat) -> Seq<char>
    decreases n,
{
    if n < 16 {
        seq![digit_char(n)]
    } else {
        hex_digits(n / 16).push(digit_char(n % 16))
    }
}

/// Relies on the standard library's `Display` for `u64`: decimal digits,
/// without sign or padding.
#[verifier::external_body]
pub(crate) fn decimal_text(n: u64) -> (r: String)
    ensures
        r@ == decimal_digits(n as nat),
{
    n.to_string()
}

/// Relies on the standard library's `LowerHex` for `u64`: lower-case
/// hexadecimal digits, without prefix or padding.
#[verifier::external_body]
pub(crate) fn hex_text(n: u64) -> (r: String)
    ensures
        r@ == hex_digits(n as nat),
{
    format!("{:x}", n)
}

/// The ASCII lower case of a byte.
pub open spec fn ascii_lower(b: u8) -> u8 {
    if 65 <= b <= 90 {
        (b + 32) as u8
    } else {
        b
    }
}

/// Two byte strings are equal but for ASCII case.
pub open spec fn eq_ignore_case(a: Seq<u8>, b: Seq<u8>) -> bool {
    a.len() == b.len() && forall|i: int| 0 <= i < a.len() ==> ascii_lower(a[i]) == ascii_lower(b[i])
}

/// `needle` occurs in `haystack`, ignoring ASCII case.
pub open spec fn contains_ignore_case(haystack: Seq<u8>, needle: Seq<u8>) -> bool {
    exists|i: int|
        0 <= i && i + needle.len() <= haystack.len() && #[trigger] eq_ignore_case(
            haystack.subrange(i, i + needle.len()),
            needle,
        )
}

/// Returns the ASCII lower case of a byte.
fn to_ascii_lower(b: u8) -> (r: u8)
    ensures
        r == ascii_lower(b),
{
    if 65 <= b && b <= 90 {
        b + 32
    } else {
        b
    }
}

/// Compares `a[start..start + b.len()]` with `b`, ignoring ASCII case.
fn eq_ignore_case_at(a: &[u8], start: usize, b: &[u8]) -> (r: bool)
    requires
        start + b@.len() <= a@.len(),
    ensures
        r == eq_ignore_case(a@.subrange(start as int, start + b@.len()), b@),
{
    let _ = a.len();
    let mut i: usize = 0;
    while i < b.len()
        invariant
            i <= b@.len(),
            start + b@.len() <= a@.len(),
            a@.len() <= usize::MAX,
            forall|k: int| 0 <= k < i ==> ascii_lower(a@[start + k]) == ascii_lower(b@[k]),
        decreases b@.len() - i,
    {
        if to_ascii_lower(a[start + i]) != to_ascii_lower(b[i]) {
            assert(ascii_lower(a@.subrange(start as int, start + b@.len())[i as int]) != ascii_lower(
                b@[i as int],
            ));
            return false;
        }
        i = i + 1;
    }
    true
}

/// Returns whether `a` and `b` are equal but for ASCII case.
pub fn eq_ignore_ascii_case(a: &[u8], b: &[u8]) -> (r: bool)
    ensures
        r == eq_ignore_case(a@, b@),
{
    if a.len() != b.len() {
        return false;
    }
    let r = eq_ignore_case_at(a, 0, b);
    assert(a@.subrange(0, b@.len() as int) =~= a@);
    r
}

/// Returns whether `needle` occurs in `haystack`, ignoring ASCII case.
pub fn contains_ignore_ascii_case(haystack: &[u8], needle: &[u8]) -> (r: bool)
    ensures
        r == contains_ignore_case(haystack@, needle@),
{
    if needle.len() == 0 {
        assert(eq_ignore_case(haystack@.subrange(0int, 0int + needle@.len()), needle@));
        return true;
    }
    if haystack.len() < needle.len() {
        return false;
    }
    let last = haystack.len() - needle.len();
    let mut i: usize = 0;
    while i <= last
        invariant
            i <= last + 1,
            needle@.len() >= 1,
            haystack@.len() <= usize::MAX,
            last + needle@.len() == haystack@.len(),
            forall|k: int|
                0 <= k < i ==> !#[trigger] eq_ignore_case(
                    haystack@.subrange(k, k + needle@.len()),
                    needle@,
                ),
        decreases last + 1 - i,
    {
        if eq_ignore_case_at(haystack, i, needle) {
            assert(eq_ignore_case(haystack@.subrange(i as int, i + needle@.len()), needle@));
            return true;
        }
        i = i + 1;
    }
    false
}

} // verus!
