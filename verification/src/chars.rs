//! Character classes, digit runs and numeric values over sequences of
//! characters. Classification is ASCII-only: a non-ASCII character is never a
//! digit, a letter or whitespace here.

use vstd::prelude::*;

verus! {

/// Decimal digit `0`..=`9`.
pub open spec fn is_digit(c: char) -> bool {
    48 <= c as u32 && c as u32 <= 57
}

/// ASCII letter.
pub open spec fn is_alpha(c: char) -> bool {
    (65 <= c as u32 && c as u32 <= 90) || (97 <= c as u32 && c as u32 <= 122)
}

/// Word character, as used for boundary checks: ASCII letter, digit or `_`.
pub open spec fn is_word(c: char) -> bool {
    is_digit(c) || is_alpha(c) || c == '_'
}

/// ASCII whitespace.
pub open spec fn is_space(c: char) -> bool {
    c == ' ' || c == '\t' || c == '\n' || c == '\r' || c as u32 == 11 || c as u32 == 12
}

/// Separator that may stand between the components of a date.
pub open spec fn is_date_sep(c: char) -> bool {
    c == '-' || c == '/' || c == '.'
}

/// Separator that must follow a leading number.
pub open spec fn is_lead_sep(c: char) -> bool {
    c == '-' || c == '_' || c == '.'
}

/// Separator between a leading alphabetic prefix and the number after it.
pub open spec fn is_prefix_sep(c: char) -> bool {
    is_space(c) || c == '-' || c == '_'
}

/// Separator inside a number-number pair such as `19-37` or `01/12`.
pub open spec fn is_pair_sep(c: char) -> bool {
    c == '-' || c == '/' || c == '_'
}

/// Separator before a trailing delimited number.
pub open spec fn is_tail_sep(c: char) -> bool {
    c == '-' || c == '_'
}

/// Code of `c` with an ASCII upper-case letter folded to lower case.
pub open spec fn lower_code(c: char) -> u32 {
    if 65 <= c as u32 && c as u32 <= 90 {
        (c as u32 + 32) as u32
    } else {
        c as u32
    }
}

/// A word boundary lies immediately before position `i`.
pub open spec fn boundary_before(s: Seq<char>, i: int) -> bool {
    i == 0 || !is_word(s[i - 1])
}

/// A word boundary lies at position `e`, seen as the exclusive end of a word.
pub open spec fn boundary_after(s: Seq<char>, e: int) -> bool {
    e == s.len() || !is_word(s[e])
}

/// Exclusive end of the run of decimal digits that starts at `i`.
pub open spec fn digit_run_end(s: Seq<char>, i: int) -> int
    decreases s.len() - i,
{
    if 0 <= i < s.len() && is_digit(s[i]) {
        digit_run_end(s, i + 1)
    } else {
        i
    }
}

/// Exclusive end of the run of whitespace that starts at `i`.
pub open spec fn space_run_end(s: Seq<char>, i: int) -> int
    decreases s.len() - i,
{
    if 0 <= i < s.len() && is_space(s[i]) {
        space_run_end(s, i + 1)
    } else {
        i
    }
}

/// Exclusive end of the run of ASCII letters that starts at `i`.
pub open spec fn alpha_run_end(s: Seq<char>, i: int) -> int
    decreases s.len() - i,
{
    if 0 <= i < s.len() && is_alpha(s[i]) {
        alpha_run_end(s, i + 1)
    } else {
        i
    }
}

/// Exclusive end of the run of prefix separators that starts at `i`.
pub open spec fn prefix_sep_run_end(s: Seq<char>, i: int) -> int
    decreases s.len() - i,
{
    if 0 <= i < s.len() && is_prefix_sep(s[i]) {
        prefix_sep_run_end(s, i + 1)
    } else {
        i
    }
}

pub proof fn lemma_digit_run_end(s: Seq<char>, i: int)
    requires
        0 <= i <= s.len(),
    ensures
        i <= digit_run_end(s, i) <= s.len(),
        forall|k: int| i <= k < digit_run_end(s, i) ==> is_digit(#[trigger] s[k]),
        digit_run_end(s, i) < s.len() ==> !is_digit(s[digit_run_end(s, i)]),
    decreases s.len() - i,
{
    if i < s.len() && is_digit(s[i]) {
        lemma_digit_run_end(s, i + 1);
    }
}

/// Value of the decimal digits `s[i..j)`, read left to right.
pub open spec fn digits_val(s: Seq<char>, i: int, j: int) -> int
    decreases j - i,
{
    if i < j {
        digits_val(s, i, j - 1) * 10 + (s[j - 1] as u32 - 48)
    } else {
        0
    }
}

pub proof fn lemma_digits_val_nonneg(s: Seq<char>, i: int, j: int)
    requires
        forall|k: int| i <= k < j ==> is_digit(#[trigger] s[k]),
    ensures
        digits_val(s, i, j) >= 0,
    decreases j - i,
{
    if i < j {
        lemma_digits_val_nonneg(s, i, j - 1);
    }
}

/// A longer digit string never has a smaller value.
pub proof fn lemma_digits_val_mono(s: Seq<char>, i: int, j: int, k: int)
    requires
        i <= j <= k,
        forall|m: int| i <= m < k ==> is_digit(#[trigger] s[m]),
    ensures
        digits_val(s, i, j) <= digits_val(s, i, k),
    decreases k - j,
{
    if j < k {
        lemma_digits_val_mono(s, i, j, k - 1);
        lemma_digits_val_nonneg(s, i, k - 1);
    }
}

/// `n` decimal digits are worth less than `10^n`.
pub open spec fn pow10(n: int) -> int
    decreases n,
{
    if n <= 0 {
        1
    } else {
        10 * pow10(n - 1)
    }
}

pub proof fn lemma_digits_val_upper(s: Seq<char>, i: int, j: int)
    requires
        i <= j,
        forall|k: int| i <= k < j ==> is_digit(#[trigger] s[k]),
    ensures
        digits_val(s, i, j) < pow10(j - i),
    decreases j - i,
{
    if i < j {
        lemma_digits_val_upper(s, i, j - 1);
    }
}

/// At most four decimal digits always fit the bounded ordinal range.
pub proof fn lemma_digits_val_fits(s: Seq<char>, i: int, j: int)
    requires
        i <= j,
        j - i <= 4,
        forall|k: int| i <= k < j ==> is_digit(#[trigger] s[k]),
    ensures
        0 <= digits_val(s, i, j) <= 9999,
{
    lemma_digits_val_nonneg(s, i, j);
    lemma_digits_val_upper(s, i, j);
    reveal_with_fuel(pow10, 5);
    assert(pow10(0) == 1);
    assert(pow10(1) == 10);
    assert(pow10(2) == 100);
    assert(pow10(3) == 1000);
    assert(pow10(4) == 10000);
}

/// Executable mirror of `is_digit`.
pub fn digit_ch(c: char) -> (b: bool)
    ensures
        b == is_digit(c),
{
    let u = c as u32;
    48 <= u && u <= 57
}

/// Executable mirror of `is_alpha`.
pub fn alpha_ch(c: char) -> (b: bool)
    ensures
        b == is_alpha(c),
{
    let u = c as u32;
    (65 <= u && u <= 90) || (97 <= u && u <= 122)
}

/// Executable mirror of `is_word`.
pub fn word_ch(c: char) -> (b: bool)
    ensures
        b == is_word(c),
{
    digit_ch(c) || alpha_ch(c) || c == '_'
}

/// Executable mirror of `is_space`.
pub fn space_ch(c: char) -> (b: bool)
    ensures
        b == is_space(c),
{
    let u = c as u32;
    c == ' ' || c == '\t' || c == '\n' || c == '\r' || u == 11 || u == 12
}

/// Executable mirror of `is_date_sep`.
pub fn date_sep_ch(c: char) -> (b: bool)
    ensures
        b == is_date_sep(c),
{
    c == '-' || c == '/' || c == '.'
}

/// Executable mirror of `is_lead_sep`.
pub fn lead_sep_ch(c: char) -> (b: bool)
    ensures
        b == is_lead_sep(c),
{
    c == '-' || c == '_' || c == '.'
}

/// Executable mirror of `is_prefix_sep`.
pub fn prefix_sep_ch(c: char) -> (b: bool)
    ensures
        b == is_prefix_sep(c),
{
    space_ch(c) || c == '-' || c == '_'
}

/// Executable mirror of `is_pair_sep`.
pub fn pair_sep_ch(c: char) -> (b: bool)
    ensures
        b == is_pair_sep(c),
{
    c == '-' || c == '/' || c == '_'
}

/// Executable mirror of `is_tail_sep`.
pub fn tail_sep_ch(c: char) -> (b: bool)
    ensures
        b == is_tail_sep(c),
{
    c == '-' || c == '_'
}

/// Executable mirror of `lower_code`.
pub fn lower_code_ch(c: char) -> (u: u32)
    ensures
        u == lower_code(c),
{
    let v = c as u32;
    if 65 <= v && v <= 90 {
        v + 32
    } else {
        v
    }
}

/// The characters of `s`, as a vector indexed by character position.
pub fn chars_of(s: &str) -> (v: Vec<char>)
    ensures
        v@ == s@,
{
    let n = s.unicode_len();
    let mut v: Vec<char> = Vec::new();
    let mut i: usize = 0;
    while i < n
        invariant
            n == s@.len(),
            i <= n,
            v@ == s@.take(i as int),
        decreases n - i,
    {
        v.push(s.get_char(i));
        proof {
            assert(v@ =~= s@.take(i + 1));
        }
        i = i + 1;
    }
    proof {
        assert(s@.take(n as int) =~= s@);
    }
    v
}

/// End of the digit run starting at `i`, executably.
pub fn run_end(s: &Vec<char>, i: usize) -> (e: usize)
    requires
        i <= s.len(),
    ensures
        e == digit_run_end(s@, i as int),
        i <= e <= s.len(),
{
    let mut e = i;
    while e < s.len() && digit_ch(s[e])
        invariant
            i <= e <= s.len(),
            digit_run_end(s@, i as int) == digit_run_end(s@, e as int),
        decreases s.len() - e,
    {
        e = e + 1;
    }
    e
}

} // verus!
