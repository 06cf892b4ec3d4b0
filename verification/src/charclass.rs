use vstd::prelude::*;

verus! {

/// An ASCII letter byte: `A..=Z` or `a..=z`.
pub open spec fn is_letter_byte(b: u8) -> bool {
    (0x41 <= b && b <= 0x5A) || (0x61 <= b && b <= 0x7A)
}

/// An ASCII digit byte: `0..=9`.
pub open spec fn is_digit_byte(b: u8) -> bool {
    0x30 <= b && b <= 0x39
}

/// The low byte of a character's code point: what `c as u8` yields.
pub open spec fn low_byte(c: char) -> u8 {
    #[verifier::truncate]
    (c as u8)
}

/// `nom::character::is_alphabetic`: true exactly for the ASCII letter bytes.
#[verifier::external_body]
fn nom_is_alphabetic(b: u8) -> (r: bool)
    ensures
        r == is_letter_byte(b),
{
    nom::character::is_alphabetic(b)
}

/// `nom::character::is_digit`: true exactly for the ASCII digit bytes.
#[verifier::external_body]
fn nom_is_digit(b: u8) -> (r: bool)
    ensures
        r == is_digit_byte(b),
{
    nom::character::is_digit(b)
}

/// Whether a character counts as a letter: its low byte is an ASCII letter.
pub(crate) fn letter_char(c: char) -> (r: bool)
    ensures
        r == is_letter_byte(low_byte(c)),
{
    let b: u8 = #[verifier::truncate] (c as u8);
    nom_is_alphabetic(b)
}

/// Whether a character counts as a digit: its low byte is an ASCII digit.
pub(crate) fn digit_char(c: char) -> (r: bool)
    ensures
        r == is_digit_byte(low_byte(c)),
{
    let b: u8 = #[verifier::truncate] (c as u8);
    nom_is_digit(b)
}

/// The position of the first `c` in `s` at or after `i`, or the length of
/// `s` when there is none.
pub open spec fn first_index_from(s: Seq<char>, i: int, c: char) -> nat
    decreases s.len() - i,
{
    if i < 0 || i >= s.len() {
        s.len()
    } else if s[i] == c {
        i as nat
    } else {
        first_index_from(s, i + 1, c)
    }
}

pub(crate) proof fn lemma_first_index(s: Seq<char>, i: int, c: char)
    requires
        0 <= i <= s.len(),
    ensures
        i <= first_index_from(s, i, c) <= s.len(),
        first_index_from(s, i, c) < s.len() ==> s[first_index_from(s, i, c) as int] == c,
        forall|k: int| i <= k < first_index_from(s, i, c) ==> s[k] != c,
    decreases s.len() - i,
{
    if i < s.len() && s[i] != c {
        lemma_first_index(s, i + 1, c);
    }
}

/// The position of the first `c` in `s` at or after `from`, or the length
/// of `s` when there is none.
pub(crate) fn find_char(s: &str, from: usize, c: char) -> (r: usize)
    requires
        from <= s@.len(),
    ensures
        r == first_index_from(s@, from as int, c),
{
    let n = s.unicode_len();
    let mut i = from;
    while i < n
        invariant
            n == s@.len(),
            from <= i <= n,
            first_index_from(s@, i as int, c) == first_index_from(s@, from as int, c),
        decreases n - i,
    {
        if s.get_char(i) == c {
            return i;
        }
        i = i + 1;
    }
    n
}

} // verus!
