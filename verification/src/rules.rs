//! The individual pattern rules of the number-inference cascade. Each rule is
//! a spec-level predicate over a sequence of characters together with a
//! verified executable recognizer, so that rule ordering itself — the cascade
//! policy — stays an explicit, separately testable artifact.

use vstd::prelude::*;
use crate::chars::{
    alpha_ch, alpha_run_end, boundary_after, boundary_before, date_sep_ch, digit_ch,
    digit_run_end, digits_val, is_alpha, is_date_sep, is_digit, is_lead_sep, is_pair_sep,
    is_space, is_tail_sep, lead_sep_ch, lower_code, lower_code_ch, pair_sep_ch,
    prefix_sep_run_end, prefix_sep_ch, run_end, space_ch, space_run_end, tail_sep_ch,
    word_ch,
};

verus! {

// ---------------------------------------------------------------------------
// Shared pieces
// ---------------------------------------------------------------------------

/// End of a keyword gap: optional whitespace, an optional `#`, then optional
/// whitespace, as in `Book #3` or `section7`.
pub open spec fn gap_end(s: Seq<char>, j: int) -> int {
    let a = space_run_end(s, j);
    if a < s.len() && s[a] == '#' {
        space_run_end(s, a + 1)
    } else {
        a
    }
}

/// Executable mirror of `space_run_end`.
pub fn space_end_x(s: &Vec<char>, i: usize) -> (e: usize)
    requires
        i <= s.len(),
    ensures
        e == space_run_end(s@, i as int),
        i <= e <= s.len(),
    decreases s.len() - i,
{
    let mut e = i;
    while e < s.len() && space_ch(s[e])
        invariant
            i <= e <= s.len(),
            space_run_end(s@, i as int) == space_run_end(s@, e as int),
        decreases s.len() - e,
    {
        e = e + 1;
    }
    e
}

/// Executable mirror of `alpha_run_end`.
pub fn alpha_end_x(s: &Vec<char>, i: usize) -> (e: usize)
    requires
        i <= s.len(),
    ensures
        e == alpha_run_end(s@, i as int),
        i <= e <= s.len(),
{
    let mut e = i;
    while e < s.len() && alpha_ch(s[e])
        invariant
            i <= e <= s.len(),
            alpha_run_end(s@, i as int) == alpha_run_end(s@, e as int),
        decreases s.len() - e,
    {
        e = e + 1;
    }
    e
}

/// Executable mirror of `prefix_sep_run_end`.
pub fn prefix_sep_end_x(s: &Vec<char>, i: usize) -> (e: usize)
    requires
        i <= s.len(),
    ensures
        e == prefix_sep_run_end(s@, i as int),
        i <= e <= s.len(),
{
    let mut e = i;
    while e < s.len() && prefix_sep_ch(s[e])
        invariant
            i <= e <= s.len(),
            prefix_sep_run_end(s@, i as int) == prefix_sep_run_end(s@, e as int),
        decreases s.len() - e,
    {
        e = e + 1;
    }
    e
}

/// Executable mirror of `gap_end`.
pub fn gap_end_x(s: &Vec<char>, j: usize) -> (k: usize)
    requires
        j <= s.len(),
    ensures
        k == gap_end(s@, j as int),
        j <= k <= s.len(),
{
    let a = space_end_x(s, j);
    if a < s.len() && s[a] == '#' {
        space_end_x(s, a + 1)
    } else {
        a
    }
}

/// Executable mirror of `boundary_before`.
pub fn boundary_before_x(s: &Vec<char>, i: usize) -> (b: bool)
    requires
        i <= s.len(),
    ensures
        b == boundary_before(s@, i as int),
{
    i == 0 || !word_ch(s[i - 1])
}

/// Executable mirror of `boundary_after`.
pub fn boundary_after_x(s: &Vec<char>, e: usize) -> (b: bool)
    requires
        e <= s.len(),
    ensures
        b == boundary_after(s@, e as int),
{
    e == s.len() || !word_ch(s[e])
}

/// Parse the digits `s[a..b)` as a bounded ordinal; a value over 65535 is
/// reported as an overflow (`None`).
pub fn parse_val(s: &Vec<char>, a: usize, b: usize) -> (r: Option<u16>)
    requires
        a <= b <= s.len(),
        forall|k: int| a <= k < b ==> is_digit(#[trigger] s@[k]),
    ensures
        match r {
            Some(v) => v as int == digits_val(s@, a as int, b as int),
            None => digits_val(s@, a as int, b as int) > 65535,
        },
{
    let mut acc: u32 = 0;
    let mut j: usize = a;
    while j < b
        invariant
            a <= j <= b <= s.len(),
            forall|k: int| a <= k < b ==> is_digit(#[trigger] s@[k]),
            acc <= 65535,
            acc as int == digits_val(s@, a as int, j as int),
        decreases b - j,
    {
        let c = s[j];
        assert(is_digit(s@[j as int]));
        let d = c as u32 - 48;
        let nacc = acc * 10 + d;
        j = j + 1;
        if nacc > 65535 {
            proof {
                crate::chars::lemma_digits_val_mono(s@, a as int, j as int, b as int);
            }
            return None;
        }
        acc = nacc;
    }
    Some(acc as u16)
}

/// Membership in a plain vector of ordinals.
pub fn contains_u16(v: &Vec<u16>, x: u16) -> (b: bool)
    ensures
        b == v@.contains(x),
{
    let mut i: usize = 0;
    while i < v.len()
        invariant
            i <= v.len(),
            forall|k: int| 0 <= k < i ==> v@[k] != x,
        decreases v.len() - i,
    {
        if v[i] == x {
            assert(v@.contains(x)) by {
                assert(v@[i as int] == x);
            }
            return true;
        }
        i = i + 1;
    }
    false
}

// ---------------------------------------------------------------------------
// Keywords
// ---------------------------------------------------------------------------

/// `book`, case-insensitively, at position `i`.
pub open spec fn book_kw_at(s: Seq<char>, i: int) -> bool {
    i + 4 <= s.len() && lower_code(s[i]) == 98 && lower_code(s[i + 1]) == 111 && lower_code(
        s[i + 2],
    ) == 111 && lower_code(s[i + 3]) == 107
}

pub fn book_kw_at_x(s: &Vec<char>, i: usize) -> (b: bool)
    requires
        i <= s.len(),
    ensures
        b == book_kw_at(s@, i as int),
{
    s.len() - i >= 4 && lower_code_ch(s[i]) == 98 && lower_code_ch(s[i + 1]) == 111
        && lower_code_ch(s[i + 2]) == 111 && lower_code_ch(s[i + 3]) == 107
}

/// `section`, case-insensitively, at position `i`.
pub open spec fn section_kw_at(s: Seq<char>, i: int) -> bool {
    i + 7 <= s.len() && lower_code(s[i]) == 115 && lower_code(s[i + 1]) == 101 && lower_code(
        s[i + 2],
    ) == 99 && lower_code(s[i + 3]) == 116 && lower_code(s[i + 4]) == 105 && lower_code(
        s[i + 5],
    ) == 111 && lower_code(s[i + 6]) == 110
}

pub fn section_kw_at_x(s: &Vec<char>, i: usize) -> (b: bool)
    requires
        i <= s.len(),
    ensures
        b == section_kw_at(s@, i as int),
{
    s.len() - i >= 7 && lower_code_ch(s[i]) == 115 && lower_code_ch(s[i + 1]) == 101
        && lower_code_ch(s[i + 2]) == 99 && lower_code_ch(s[i + 3]) == 116 && lower_code_ch(
        s[i + 4],
    ) == 105 && lower_code_ch(s[i + 5]) == 111 && lower_code_ch(s[i + 6]) == 110
}

/// `chapter`, case-insensitively, at position `i`.
pub open spec fn chapter_kw_at(s: Seq<char>, i: int) -> bool {
    i + 7 <= s.len() && lower_code(s[i]) == 99 && lower_code(s[i + 1]) == 104 && lower_code(
        s[i + 2],
    ) == 97 && lower_code(s[i + 3]) == 112 && lower_code(s[i + 4]) == 116 && lower_code(
        s[i + 5],
    ) == 101 && lower_code(s[i + 6]) == 114
}

pub fn chapter_kw_at_x(s: &Vec<char>, i: usize) -> (b: bool)
    requires
        i <= s.len(),
    ensures
        b == chapter_kw_at(s@, i as int),
{
    s.len() - i >= 7 && lower_code_ch(s[i]) == 99 && lower_code_ch(s[i + 1]) == 104
        && lower_code_ch(s[i + 2]) == 97 && lower_code_ch(s[i + 3]) == 112 && lower_code_ch(
        s[i + 4],
    ) == 116 && lower_code_ch(s[i + 5]) == 101 && lower_code_ch(s[i + 6]) == 114
}

/// `part`, case-insensitively, at position `i`.
pub open spec fn part_kw_at(s: Seq<char>, i: int) -> bool {
    i + 4 <= s.len() && lower_code(s[i]) == 112 && lower_code(s[i + 1]) == 97 && lower_code(
        s[i + 2],
    ) == 114 && lower_code(s[i + 3]) == 116
}

pub fn part_kw_at_x(s: &Vec<char>, i: usize) -> (b: bool)
    requires
        i <= s.len(),
    ensures
        b == part_kw_at(s@, i as int),
{
    s.len() - i >= 4 && lower_code_ch(s[i]) == 112 && lower_code_ch(s[i + 1]) == 97
        && lower_code_ch(s[i + 2]) == 114 && lower_code_ch(s[i + 3]) == 116
}

/// `track`, case-insensitively, at position `i`.
pub open spec fn track_kw_at(s: Seq<char>, i: int) -> bool {
    i + 5 <= s.len() && lower_code(s[i]) == 116 && lower_code(s[i + 1]) == 114 && lower_code(
        s[i + 2],
    ) == 97 && lower_code(s[i + 3]) == 99 && lower_code(s[i + 4]) == 107
}

pub fn track_kw_at_x(s: &Vec<char>, i: usize) -> (b: bool)
    requires
        i <= s.len(),
    ensures
        b == track_kw_at(s@, i as int),
{
    s.len() - i >= 5 && lower_code_ch(s[i]) == 116 && lower_code_ch(s[i + 1]) == 114
        && lower_code_ch(s[i + 2]) == 97 && lower_code_ch(s[i + 3]) == 99 && lower_code_ch(
        s[i + 4],
    ) == 107
}

/// Length of the explicit-context keyword found at `i`, if any.
pub open spec fn ctx_kw_len(s: Seq<char>, i: int) -> Option<int> {
    if section_kw_at(s, i) {
        Some(7)
    } else if chapter_kw_at(s, i) {
        Some(7)
    } else if part_kw_at(s, i) {
        Some(4)
    } else if track_kw_at(s, i) {
        Some(5)
    } else {
        None
    }
}

pub fn ctx_kw_len_x(s: &Vec<char>, i: usize) -> (r: Option<usize>)
    requires
        i <= s.len(),
    ensures
        match r {
            Some(l) => ctx_kw_len(s@, i as int) == Some(l as int) && i + l <= s.len(),
            None => ctx_kw_len(s@, i as int) == None::<int>,
        },
{
    if section_kw_at_x(s, i) {
        Some(7)
    } else if chapter_kw_at_x(s, i) {
        Some(7)
    } else if part_kw_at_x(s, i) {
        Some(4)
    } else if track_kw_at_x(s, i) {
        Some(5)
    } else {
        None
    }
}

// ---------------------------------------------------------------------------
// Ignore-evidence rules: volume marker and dates
// ---------------------------------------------------------------------------

/// A `book N` volume marker starts at `i`: the keyword on a word boundary, a
/// gap, then digits ending on a word boundary.
pub open spec fn book_at(s: Seq<char>, i: int) -> bool {
    boundary_before(s, i) && book_kw_at(s, i) && {
        let k = gap_end(s, i + 4);
        k < s.len() && is_digit(s[k]) && boundary_after(s, digit_run_end(s, k))
    }
}

/// The number carried by a volume marker starting at `i`.
pub open spec fn book_val(s: Seq<char>, i: int) -> int {
    let k = gap_end(s, i + 4);
    digits_val(s, k, digit_run_end(s, k))
}

pub fn book_at_x(s: &Vec<char>, i: usize) -> (b: bool)
    requires
        i <= s.len(),
    ensures
        b == book_at(s@, i as int),
{
    if !(boundary_before_x(s, i) && book_kw_at_x(s, i)) {
        return false;
    }
    let k = gap_end_x(s, i + 4);
    k < s.len() && digit_ch(s[k]) && {
        let e = run_end(s, k);
        boundary_after_x(s, e)
    }
}

/// An ISO-form date `YYYY sep D[D] sep D[D]` starts at `i`; the digit groups
/// must be complete digit runs and the whole lies between word boundaries.
pub open spec fn iso_at(s: Seq<char>, i: int) -> bool {
    boundary_before(s, i) && 0 <= i && i + 4 < s.len() && is_digit(s[i]) && digit_run_end(s, i)
        == i + 4 && is_date_sep(s[i + 4]) && {
        let e1 = digit_run_end(s, i + 5);
        1 <= e1 - (i + 5) <= 2 && e1 < s.len() && is_date_sep(s[e1]) && {
            let e2 = digit_run_end(s, e1 + 1);
            1 <= e2 - (e1 + 1) <= 2 && boundary_after(s, e2)
        }
    }
}

/// Exclusive end of the ISO date starting at `i`.
pub open spec fn iso_end(s: Seq<char>, i: int) -> int {
    digit_run_end(s, digit_run_end(s, i + 5) + 1)
}

pub fn iso_at_x(s: &Vec<char>, i: usize) -> (b: bool)
    requires
        i <= s.len(),
    ensures
        b == iso_at(s@, i as int),
{
    if !boundary_before_x(s, i) {
        return false;
    }
    if s.len() - i < 5 {
        return false;
    }
    if !digit_ch(s[i]) {
        return false;
    }
    let e0 = run_end(s, i);
    if !(e0 == i + 4 && date_sep_ch(s[i + 4])) {
        return false;
    }
    let e1 = run_end(s, i + 5);
    if !(e1 - (i + 5) >= 1 && e1 - (i + 5) <= 2 && e1 < s.len() && date_sep_ch(s[e1])) {
        return false;
    }
    let e2 = run_end(s, e1 + 1);
    e2 - (e1 + 1) >= 1 && e2 - (e1 + 1) <= 2 && boundary_after_x(s, e2)
}

/// A common-form date `D[D] sep D[D] sep YYYY` starts at `i`.
pub open spec fn common_at(s: Seq<char>, i: int) -> bool {
    boundary_before(s, i) && 0 <= i < s.len() && is_digit(s[i]) && {
        let e1 = digit_run_end(s, i);
        1 <= e1 - i <= 2 && e1 < s.len() && is_date_sep(s[e1]) && {
            let e2 = digit_run_end(s, e1 + 1);
            1 <= e2 - (e1 + 1) <= 2 && e2 < s.len() && is_date_sep(s[e2]) && digit_run_end(
                s,
                e2 + 1,
            ) == e2 + 5 && boundary_after(s, e2 + 5)
        }
    }
}

/// Exclusive end of the common-form date starting at `i`.
pub open spec fn common_end(s: Seq<char>, i: int) -> int {
    digit_run_end(s, digit_run_end(s, i) + 1) + 5
}

pub fn common_at_x(s: &Vec<char>, i: usize) -> (b: bool)
    requires
        i <= s.len(),
    ensures
        b == common_at(s@, i as int),
{
    if !(boundary_before_x(s, i) && i < s.len() && digit_ch(s[i])) {
        return false;
    }
    let e1 = run_end(s, i);
    if !(e1 - i >= 1 && e1 - i <= 2 && e1 < s.len() && date_sep_ch(s[e1])) {
        return false;
    }
    let e2 = run_end(s, e1 + 1);
    if !(e2 - (e1 + 1) >= 1 && e2 - (e1 + 1) <= 2 && e2 < s.len() && date_sep_ch(s[e2])) {
        return false;
    }
    let e3 = run_end(s, e2 + 1);
    e3 - e2 == 5 && boundary_after_x(s, e3)
}

/// A short-form date `D[D] sep D[D] sep YY` starts at `i`.
pub open spec fn short_at(s: Seq<char>, i: int) -> bool {
    boundary_before(s, i) && 0 <= i < s.len() && is_digit(s[i]) && {
        let e1 = digit_run_end(s, i);
        1 <= e1 - i <= 2 && e1 < s.len() && is_date_sep(s[e1]) && {
            let e2 = digit_run_end(s, e1 + 1);
            1 <= e2 - (e1 + 1) <= 2 && e2 < s.len() && is_date_sep(s[e2]) && digit_run_end(
                s,
                e2 + 1,
            ) == e2 + 3 && boundary_after(s, e2 + 3)
        }
    }
}

/// Exclusive end of the short-form date starting at `i`.
pub open spec fn short_end(s: Seq<char>, i: int) -> int {
    digit_run_end(s, digit_run_end(s, i) + 1) + 3
}

pub fn short_at_x(s: &Vec<char>, i: usize) -> (b: bool)
    requires
        i <= s.len(),
    ensures
        b == short_at(s@, i as int),
{
    if !(boundary_before_x(s, i) && i < s.len() && digit_ch(s[i])) {
        return false;
    }
    let e1 = run_end(s, i);
    if !(e1 - i >= 1 && e1 - i <= 2 && e1 < s.len() && date_sep_ch(s[e1])) {
        return false;
    }
    let e2 = run_end(s, e1 + 1);
    if !(e2 - (e1 + 1) >= 1 && e2 - (e1 + 1) <= 2 && e2 < s.len() && date_sep_ch(s[e2])) {
        return false;
    }
    let e3 = run_end(s, e2 + 1);
    e3 - e2 == 3 && boundary_after_x(s, e3)
}

// ---------------------------------------------------------------------------
// Candidate rules
// ---------------------------------------------------------------------------

/// An explicit-context match (`section 7`, `chapter#2`, ...) starts at `i`.
pub open spec fn ctx_at(s: Seq<char>, i: int) -> bool {
    boundary_before(s, i) && match ctx_kw_len(s, i) {
        Some(l) => {
            let k = gap_end(s, i + l);
            k < s.len() && is_digit(s[k]) && boundary_after(s, digit_run_end(s, k))
        },
        None => false,
    }
}

/// The number carried by the explicit-context match starting at `i`.
pub open spec fn ctx_val(s: Seq<char>, i: int) -> int {
    match ctx_kw_len(s, i) {
        Some(l) => {
            let k = gap_end(s, i + l);
            digits_val(s, k, digit_run_end(s, k))
        },
        None => 0,
    }
}

pub fn ctx_at_x(s: &Vec<char>, i: usize) -> (b: bool)
    requires
        i <= s.len(),
    ensures
        b == ctx_at(s@, i as int),
{
    if !boundary_before_x(s, i) {
        return false;
    }
    match ctx_kw_len_x(s, i) {
        Some(l) => {
            let k = gap_end_x(s, i + l);
            k < s.len() && digit_ch(s[k]) && {
                let e = run_end(s, k);
                boundary_after_x(s, e)
            }
        },
        None => false,
    }
}

/// An `N of M` match starts at `i`: digits on a word boundary, optional
/// whitespace, `of`, optional whitespace, then at least one digit.
pub open spec fn of_at(s: Seq<char>, i: int) -> bool {
    boundary_before(s, i) && 0 <= i < s.len() && is_digit(s[i]) && {
        let j = space_run_end(s, digit_run_end(s, i));
        j + 2 <= s.len() && lower_code(s[j]) == 111 && lower_code(s[j + 1]) == 102 && {
            let k = space_run_end(s, j + 2);
            k < s.len() && is_digit(s[k])
        }
    }
}

/// The first number of the `N of M` match starting at `i`.
pub open spec fn of_val(s: Seq<char>, i: int) -> int {
    digits_val(s, i, digit_run_end(s, i))
}

pub fn of_at_x(s: &Vec<char>, i: usize) -> (b: bool)
    requires
        i <= s.len(),
    ensures
        b == of_at(s@, i as int),
{
    if !(boundary_before_x(s, i) && i < s.len() && digit_ch(s[i])) {
        return false;
    }
    let e = run_end(s, i);
    let j = space_end_x(s, e);
    if !(s.len() - j >= 2 && lower_code_ch(s[j]) == 111 && lower_code_ch(s[j + 1]) == 102) {
        return false;
    }
    let k = space_end_x(s, j + 2);
    k < s.len() && digit_ch(s[k])
}

/// Start of the digit group of the leading-number rule: after an optional
/// alphabetic prefix and its separators, else at the very front.
pub open spec fn start_pos(s: Seq<char>) -> int {
    if s.len() > 0 && is_alpha(s[0]) {
        prefix_sep_run_end(s, alpha_run_end(s, 0))
    } else {
        0
    }
}

/// The leading-number rule matches: a 1-3 digit complete run at `start_pos`,
/// optional whitespace, then a `-`, `_` or `.` separator.
pub open spec fn start_match(s: Seq<char>) -> bool {
    let p = start_pos(s);
    p < s.len() && is_digit(s[p]) && {
        let e = digit_run_end(s, p);
        e - p <= 3 && {
            let q = space_run_end(s, e);
            q < s.len() && is_lead_sep(s[q])
        }
    }
}

/// The number carried by the leading-number rule.
pub open spec fn start_val(s: Seq<char>) -> int {
    digits_val(s, start_pos(s), digit_run_end(s, start_pos(s)))
}

/// Executable check of the leading-number rule; on a match, returns the span
/// of its digits.
pub fn check_start(s: &Vec<char>) -> (r: Option<(usize, usize)>)
    ensures
        match r {
            Some(p) => start_match(s@) && p.0 as int == start_pos(s@) && p.1 as int
                == digit_run_end(s@, p.0 as int) && p.0 <= p.1 <= s.len(),
            None => !start_match(s@),
        },
{
    let p: usize = if s.len() > 0 && alpha_ch(s[0]) {
        let a = alpha_end_x(s, 0);
        prefix_sep_end_x(s, a)
    } else {
        0
    };
    if !(p < s.len() && digit_ch(s[p])) {
        return None;
    }
    let e = run_end(s, p);
    if e - p > 3 {
        return None;
    }
    let q = space_end_x(s, e);
    if q < s.len() && lead_sep_ch(s[q]) {
        Some((p, e))
    } else {
        None
    }
}

/// A number-number pair such as `19-37` starts at `i`: a complete 1-3 digit
/// run on a word boundary, a pair separator, then digits ending on a word
/// boundary.
pub open spec fn pair_at(s: Seq<char>, i: int) -> bool {
    boundary_before(s, i) && 0 <= i < s.len() && is_digit(s[i]) && {
        let e = digit_run_end(s, i);
        e - i <= 3 && e < s.len() && is_pair_sep(s[e]) && e + 1 < s.len() && is_digit(s[e + 1])
            && boundary_after(s, digit_run_end(s, e + 1))
    }
}

/// The first number of the pair starting at `i`.
pub open spec fn pair_val(s: Seq<char>, i: int) -> int {
    digits_val(s, i, digit_run_end(s, i))
}

pub fn pair_at_x(s: &Vec<char>, i: usize) -> (b: bool)
    requires
        i <= s.len(),
    ensures
        b == pair_at(s@, i as int),
{
    if !(boundary_before_x(s, i) && i < s.len() && digit_ch(s[i])) {
        return false;
    }
    let e = run_end(s, i);
    if !(e - i <= 3 && e < s.len() && pair_sep_ch(s[e])) {
        return false;
    }
    if !(e + 1 < s.len() && digit_ch(s[e + 1])) {
        return false;
    }
    let e2 = run_end(s, e + 1);
    boundary_after_x(s, e2)
}

/// Start of the digit run that ends at `j` (exclusive), scanning backwards.
pub open spec fn rev_digit_run_start(s: Seq<char>, j: int) -> int
    decreases j,
{
    if 0 < j <= s.len() && is_digit(s[j - 1]) {
        rev_digit_run_start(s, j - 1)
    } else {
        j
    }
}

pub proof fn lemma_rev_digit_run_start(s: Seq<char>, j: int)
    requires
        0 <= j <= s.len(),
    ensures
        0 <= rev_digit_run_start(s, j) <= j,
        forall|k: int| rev_digit_run_start(s, j) <= k < j ==> is_digit(#[trigger] s[k]),
    decreases j,
{
    if 0 < j && is_digit(s[j - 1]) {
        lemma_rev_digit_run_start(s, j - 1);
    }
}

/// Start of the whitespace run that ends at `j` (exclusive), scanning
/// backwards.
pub open spec fn rev_space_run_start(s: Seq<char>, j: int) -> int
    decreases j,
{
    if 0 < j <= s.len() && is_space(s[j - 1]) {
        rev_space_run_start(s, j - 1)
    } else {
        j
    }
}

/// The trailing delimited suffix rule matches: the string ends in digits,
/// preceded by optional whitespace and a `-` or `_`.
pub open spec fn suffix_match(s: Seq<char>) -> bool {
    let k = rev_digit_run_start(s, s.len() as int);
    k < s.len() && {
        let w = rev_space_run_start(s, k);
        w > 0 && is_tail_sep(s[w - 1])
    }
}

/// The number carried by the trailing suffix.
pub open spec fn suffix_val(s: Seq<char>) -> int {
    digits_val(s, rev_digit_run_start(s, s.len() as int), s.len() as int)
}

/// Executable mirror of `rev_digit_run_start`.
pub fn rev_run_start_x(s: &Vec<char>, j: usize) -> (k: usize)
    requires
        j <= s.len(),
    ensures
        k == rev_digit_run_start(s@, j as int),
        k <= j,
{
    let mut k = j;
    while k > 0 && digit_ch(s[k - 1])
        invariant
            k <= j <= s.len(),
            rev_digit_run_start(s@, j as int) == rev_digit_run_start(s@, k as int),
        decreases k,
    {
        k = k - 1;
    }
    k
}

/// Executable mirror of `rev_space_run_start`.
pub fn rev_space_start_x(s: &Vec<char>, j: usize) -> (k: usize)
    requires
        j <= s.len(),
    ensures
        k == rev_space_run_start(s@, j as int),
        k <= j,
{
    let mut k = j;
    while k > 0 && space_ch(s[k - 1])
        invariant
            k <= j <= s.len(),
            rev_space_run_start(s@, j as int) == rev_space_run_start(s@, k as int),
        decreases k,
    {
        k = k - 1;
    }
    k
}

/// Executable check of the trailing-suffix rule; on a match, returns the span
/// of its digits.
pub fn check_suffix(s: &Vec<char>) -> (r: Option<(usize, usize)>)
    ensures
        match r {
            Some(p) => suffix_match(s@) && p.0 as int == rev_digit_run_start(s@, s@.len() as int)
                && p.1 == s.len() && p.0 <= p.1,
            None => !suffix_match(s@),
        },
{
    let k = rev_run_start_x(s, s.len());
    if !(k < s.len()) {
        return None;
    }
    let w = rev_space_start_x(s, k);
    if w > 0 && tail_sep_ch(s[w - 1]) {
        Some((k, s.len()))
    } else {
        None
    }
}

/// The solo-number rule matches: the whole string is whitespace, one digit
/// run, then whitespace.
pub open spec fn solo_match(s: Seq<char>) -> bool {
    let a = space_run_end(s, 0);
    a < s.len() && is_digit(s[a]) && space_run_end(s, digit_run_end(s, a)) == s.len()
}

/// The number carried by the solo-number rule.
pub open spec fn solo_val(s: Seq<char>) -> int {
    digits_val(s, space_run_end(s, 0), digit_run_end(s, space_run_end(s, 0)))
}

/// Executable check of the solo-number rule; on a match, returns the span of
/// its digits.
pub fn check_solo(s: &Vec<char>) -> (r: Option<(usize, usize)>)
    ensures
        match r {
            Some(p) => solo_match(s@) && p.0 as int == space_run_end(s@, 0) && p.1 as int
                == digit_run_end(s@, p.0 as int) && p.0 <= p.1 <= s.len(),
            None => !solo_match(s@),
        },
{
    let a = space_end_x(s, 0);
    if !(a < s.len() && digit_ch(s[a])) {
        return None;
    }
    let e = run_end(s, a);
    let q = space_end_x(s, e);
    if q == s.len() {
        Some((a, e))
    } else {
        None
    }
}

} // verus!
