//! The number-inference engine: derive a file's ordinal position from an
//! optional embedded tag number and a free-form filename.
//!
//! The cascade policy is canonical and global: first, evidence is collected
//! into a transient ignore set (a `book N` volume marker, and every numeric
//! component of any recognizable date); an explicit-context match (`section`,
//! `chapter`, `part`, `track`) then wins unconditionally, and the remaining
//! rules fire in a fixed order, each accepting its number only when the
//! ignore set does not hold it.

use vstd::prelude::*;
use crate::chars::{
    chars_of, digit_run_end, digits_val, lemma_digit_run_end, lemma_digits_val_fits, run_end,
};
use crate::rules::{
    book_at, book_at_x, book_val, common_at, common_at_x, common_end, contains_u16, ctx_at,
    ctx_at_x, ctx_kw_len_x, ctx_val, gap_end_x, iso_at, iso_at_x, iso_end, of_at, of_at_x,
    of_val, pair_at, pair_at_x, pair_val, parse_val, check_solo, check_start, check_suffix,
    short_at, short_at_x, short_end, solo_match, solo_val, start_match, start_val, suffix_match,
    suffix_val,
};

verus! {

// ---------------------------------------------------------------------------
// Leftmost matches
// ---------------------------------------------------------------------------

/// Position of the leftmost volume-marker match at or after `i`.
pub open spec fn first_book_from(s: Seq<char>, i: int) -> Option<int>
    decreases s.len() - i,
{
    if i >= s.len() {
        None
    } else if book_at(s, i) {
        Some(i)
    } else {
        first_book_from(s, i + 1)
    }
}

/// Position of the leftmost explicit-context match at or after `i`.
pub open spec fn first_ctx_from(s: Seq<char>, i: int) -> Option<int>
    decreases s.len() - i,
{
    if i >= s.len() {
        None
    } else if ctx_at(s, i) {
        Some(i)
    } else {
        first_ctx_from(s, i + 1)
    }
}

/// Position of the leftmost `N of M` match at or after `i`.
pub open spec fn first_of_from(s: Seq<char>, i: int) -> Option<int>
    decreases s.len() - i,
{
    if i >= s.len() {
        None
    } else if of_at(s, i) {
        Some(i)
    } else {
        first_of_from(s, i + 1)
    }
}

/// Position of the leftmost number-number pair match at or after `i`.
pub open spec fn first_pair_from(s: Seq<char>, i: int) -> Option<int>
    decreases s.len() - i,
{
    if i >= s.len() {
        None
    } else if pair_at(s, i) {
        Some(i)
    } else {
        first_pair_from(s, i + 1)
    }
}

pub fn find_book(s: &Vec<char>) -> (r: Option<usize>)
    ensures
        match r {
            Some(i) => i < s.len() && book_at(s@, i as int) && first_book_from(s@, 0) == Some(
                i as int,
            ),
            None => first_book_from(s@, 0) == None::<int>,
        },
{
    let mut i: usize = 0;
    while i < s.len()
        invariant
            i <= s.len(),
            first_book_from(s@, 0) == first_book_from(s@, i as int),
        decreases s.len() - i,
    {
        if book_at_x(s, i) {
            return Some(i);
        }
        i = i + 1;
    }
    None
}

pub fn find_ctx(s: &Vec<char>) -> (r: Option<usize>)
    ensures
        match r {
            Some(i) => i < s.len() && ctx_at(s@, i as int) && first_ctx_from(s@, 0) == Some(
                i as int,
            ),
            None => first_ctx_from(s@, 0) == None::<int>,
        },
{
    let mut i: usize = 0;
    while i < s.len()
        invariant
            i <= s.len(),
            first_ctx_from(s@, 0) == first_ctx_from(s@, i as int),
        decreases s.len() - i,
    {
        if ctx_at_x(s, i) {
            return Some(i);
        }
        i = i + 1;
    }
    None
}

pub fn find_of(s: &Vec<char>) -> (r: Option<usize>)
    ensures
        match r {
            Some(i) => i < s.len() && of_at(s@, i as int) && first_of_from(s@, 0) == Some(
                i as int,
            ),
            None => first_of_from(s@, 0) == None::<int>,
        },
{
    let mut i: usize = 0;
    while i < s.len()
        invariant
            i <= s.len(),
            first_of_from(s@, 0) == first_of_from(s@, i as int),
        decreases s.len() - i,
    {
        if of_at_x(s, i) {
            return Some(i);
        }
        i = i + 1;
    }
    None
}

pub fn find_pair(s: &Vec<char>) -> (r: Option<usize>)
    ensures
        match r {
            Some(i) => i < s.len() && pair_at(s@, i as int) && first_pair_from(s@, 0) == Some(
                i as int,
            ),
            None => first_pair_from(s@, 0) == None::<int>,
        },
{
    let mut i: usize = 0;
    while i < s.len()
        invariant
            i <= s.len(),
            first_pair_from(s@, 0) == first_pair_from(s@, i as int),
        decreases s.len() - i,
    {
        if pair_at_x(s, i) {
            return Some(i);
        }
        i = i + 1;
    }
    None
}

// ---------------------------------------------------------------------------
// The ignore set
// ---------------------------------------------------------------------------

/// First date component of an ISO-form match at `i` (the 4-digit group).
pub open spec fn iso_y(s: Seq<char>, i: int) -> u16 {
    digits_val(s, i, i + 4) as u16
}

/// Second date component of an ISO-form match at `i`.
pub open spec fn iso_c1(s: Seq<char>, i: int) -> u16 {
    digits_val(s, i + 5, digit_run_end(s, i + 5)) as u16
}

/// Third date component of an ISO-form match at `i`.
pub open spec fn iso_c2(s: Seq<char>, i: int) -> u16 {
    digits_val(s, digit_run_end(s, i + 5) + 1, iso_end(s, i)) as u16
}

/// First component of a common- or short-form date match at `i`.
pub open spec fn common_c1(s: Seq<char>, i: int) -> u16 {
    digits_val(s, i, digit_run_end(s, i)) as u16
}

/// Second component of a common- or short-form date match at `i`.
pub open spec fn common_c2(s: Seq<char>, i: int) -> u16 {
    digits_val(s, digit_run_end(s, i) + 1, digit_run_end(s, digit_run_end(s, i) + 1)) as u16
}

/// Third component (the 4-digit group) of a common-form date match at `i`.
pub open spec fn common_y(s: Seq<char>, i: int) -> u16 {
    digits_val(s, common_end(s, i) - 4, common_end(s, i)) as u16
}

/// Third component (the 2-digit group) of a short-form date match at `i`.
pub open spec fn short_y(s: Seq<char>, i: int) -> u16 {
    digits_val(s, short_end(s, i) - 2, short_end(s, i)) as u16
}

/// Components of every ISO-form date, collected left to right without
/// overlap: after a match, scanning continues at its end.
pub open spec fn iso_ignores_from(s: Seq<char>, i: int, lo: int) -> Set<u16>
    decreases s.len() - i,
{
    if i >= s.len() {
        Set::empty()
    } else if i >= lo && iso_at(s, i) {
        iso_ignores_from(s, i + 1, iso_end(s, i)).insert(iso_y(s, i)).insert(iso_c1(s, i)).insert(
            iso_c2(s, i),
        )
    } else {
        iso_ignores_from(s, i + 1, lo)
    }
}

/// Components of every common-form date, collected without overlap.
pub open spec fn common_ignores_from(s: Seq<char>, i: int, lo: int) -> Set<u16>
    decreases s.len() - i,
{
    if i >= s.len() {
        Set::empty()
    } else if i >= lo && common_at(s, i) {
        common_ignores_from(s, i + 1, common_end(s, i)).insert(common_c1(s, i)).insert(
            common_c2(s, i),
        ).insert(common_y(s, i))
    } else {
        common_ignores_from(s, i + 1, lo)
    }
}

/// Components of every short-form date, collected without overlap.
pub open spec fn short_ignores_from(s: Seq<char>, i: int, lo: int) -> Set<u16>
    decreases s.len() - i,
{
    if i >= s.len() {
        Set::empty()
    } else if i >= lo && short_at(s, i) {
        short_ignores_from(s, i + 1, short_end(s, i)).insert(common_c1(s, i)).insert(
            common_c2(s, i),
        ).insert(short_y(s, i))
    } else {
        short_ignores_from(s, i + 1, lo)
    }
}

/// The number of the leftmost volume marker, when it fits the ordinal range.
pub open spec fn book_ignore(s: Seq<char>) -> Set<u16> {
    match first_book_from(s, 0) {
        Some(i) => if 0 <= book_val(s, i) <= 65535 {
            Set::empty().insert(book_val(s, i) as u16)
        } else {
            Set::empty()
        },
        None => Set::empty(),
    }
}

/// The per-invocation ignore set: integers known from contextual evidence
/// (a volume marker, date components) not to be the ordinal sought.
pub open spec fn ignore_evidence(s: Seq<char>) -> Set<u16> {
    book_ignore(s).union(iso_ignores_from(s, 0, 0)).union(common_ignores_from(s, 0, 0)).union(
        short_ignores_from(s, 0, 0),
    )
}

/// Build the ignore set of `s` as a plain vector.
pub fn build_ignores(s: &Vec<char>) -> (ig: Vec<u16>)
    ensures
        ig@.to_set() == ignore_evidence(s@),
{
    let mut ig: Vec<u16> = Vec::new();

    // The leftmost volume marker.
    if let Some(b) = find_book(s) {
        let k = gap_end_x(s, b + 4);
        let e = run_end(s, k);
        proof {
            lemma_digit_run_end(s@, k as int);
        }
        if let Some(v) = parse_val(s, k, e) {
            proof {
                Seq::<u16>::empty().lemma_push_to_set_commute(v);
                assert(Seq::<u16>::empty().to_set() =~= Set::<u16>::empty());
            }
            ig.push(v);
        }
    }
    assert(ig@.to_set() == book_ignore(s@)) by {
        assert(Seq::<u16>::empty().to_set() =~= Set::<u16>::empty());
    }

    // ISO-form dates.
    let mut i: usize = 0;
    let mut lo: usize = 0;
    while i < s.len()
        invariant
            i <= s.len(),
            ig@.to_set().union(iso_ignores_from(s@, i as int, lo as int)) == book_ignore(
                s@,
            ).union(iso_ignores_from(s@, 0, 0)),
        decreases s.len() - i,
    {
        let ghost ig0 = ig@;
        let ghost i0 = i as int;
        let ghost lo0 = lo as int;
        if i >= lo && iso_at_x(s, i) {
            let e1 = run_end(s, i + 5);
            let e2 = run_end(s, e1 + 1);
            proof {
                lemma_digit_run_end(s@, i as int);
                lemma_digit_run_end(s@, (i + 5) as int);
                lemma_digit_run_end(s@, (e1 + 1) as int);
                lemma_digits_val_fits(s@, i as int, (i + 4) as int);
                lemma_digits_val_fits(s@, (i + 5) as int, e1 as int);
                lemma_digits_val_fits(s@, (e1 + 1) as int, e2 as int);
            }
            let y = parse_val(s, i, i + 4).unwrap();
            let c1 = parse_val(s, i + 5, e1).unwrap();
            let c2 = parse_val(s, e1 + 1, e2).unwrap();
            ig.push(y);
            ig.push(c1);
            ig.push(c2);
            lo = e2;
            i = i + 1;
            proof {
                assert(iso_ignores_from(s@, i0, lo0) == iso_ignores_from(
                    s@,
                    i0 + 1,
                    iso_end(s@, i0),
                ).insert(iso_y(s@, i0)).insert(iso_c1(s@, i0)).insert(iso_c2(s@, i0)));
                assert(iso_y(s@, i0) == y && iso_c1(s@, i0) == c1 && iso_c2(s@, i0) == c2);
                ig0.lemma_push_to_set_commute(y);
                ig0.push(y).lemma_push_to_set_commute(c1);
                ig0.push(y).push(c1).lemma_push_to_set_commute(c2);
                assert(ig@.to_set() == ig0.to_set().insert(y).insert(c1).insert(c2));
                assert(ig@.to_set().union(iso_ignores_from(s@, i as int, lo as int))
                    =~= ig0.to_set().union(iso_ignores_from(s@, i0, lo0)));
            }
        } else {
            i = i + 1;
            proof {
                assert(iso_ignores_from(s@, i0, lo0) == iso_ignores_from(s@, i0 + 1, lo0));
            }
        }
    }
    assert(ig@.to_set() == book_ignore(s@).union(iso_ignores_from(s@, 0, 0))) by {
        assert(ig@.to_set().union(iso_ignores_from(s@, s@.len() as int, lo as int)) =~= ig@.to_set());
    }

    // Common-form dates.
    let ghost base_c = book_ignore(s@).union(iso_ignores_from(s@, 0, 0));
    let mut i: usize = 0;
    let mut lo: usize = 0;
    while i < s.len()
        invariant
            i <= s.len(),
            ig@.to_set().union(common_ignores_from(s@, i as int, lo as int)) == base_c.union(
                common_ignores_from(s@, 0, 0),
            ),
            base_c == book_ignore(s@).union(iso_ignores_from(s@, 0, 0)),
        decreases s.len() - i,
    {
        let ghost ig0 = ig@;
        let ghost i0 = i as int;
        let ghost lo0 = lo as int;
        if i >= lo && common_at_x(s, i) {
            let e1 = run_end(s, i);
            let e2 = run_end(s, e1 + 1);
            let e3 = run_end(s, e2 + 1);
            proof {
                lemma_digit_run_end(s@, i as int);
                lemma_digit_run_end(s@, (e1 + 1) as int);
                lemma_digit_run_end(s@, (e2 + 1) as int);
                lemma_digits_val_fits(s@, i as int, e1 as int);
                lemma_digits_val_fits(s@, (e1 + 1) as int, e2 as int);
                lemma_digits_val_fits(s@, (e2 + 1) as int, e3 as int);
            }
            let c1 = parse_val(s, i, e1).unwrap();
            let c2 = parse_val(s, e1 + 1, e2).unwrap();
            let y = parse_val(s, e2 + 1, e3).unwrap();
            ig.push(c1);
            ig.push(c2);
            ig.push(y);
            lo = e3;
            i = i + 1;
            proof {
                assert(common_ignores_from(s@, i0, lo0) == common_ignores_from(
                    s@,
                    i0 + 1,
                    common_end(s@, i0),
                ).insert(common_c1(s@, i0)).insert(common_c2(s@, i0)).insert(common_y(s@, i0)));
                assert(common_c1(s@, i0) == c1 && common_c2(s@, i0) == c2 && common_y(s@, i0)
                    == y);
                ig0.lemma_push_to_set_commute(c1);
                ig0.push(c1).lemma_push_to_set_commute(c2);
                ig0.push(c1).push(c2).lemma_push_to_set_commute(y);
                assert(ig@.to_set() == ig0.to_set().insert(c1).insert(c2).insert(y));
                assert(ig@.to_set().union(common_ignores_from(s@, i as int, lo as int))
                    =~= ig0.to_set().union(common_ignores_from(s@, i0, lo0)));
            }
        } else {
            i = i + 1;
            proof {
                assert(common_ignores_from(s@, i0, lo0) == common_ignores_from(s@, i0 + 1, lo0));
            }
        }
    }
    assert(ig@.to_set() == base_c.union(common_ignores_from(s@, 0, 0))) by {
        assert(ig@.to_set().union(common_ignores_from(s@, s@.len() as int, lo as int))
            =~= ig@.to_set());
    }

    // Short-form dates.
    let ghost base_s = base_c.union(common_ignores_from(s@, 0, 0));
    let mut i: usize = 0;
    let mut lo: usize = 0;
    while i < s.len()
        invariant
            i <= s.len(),
            ig@.to_set().union(short_ignores_from(s@, i as int, lo as int)) == base_s.union(
                short_ignores_from(s@, 0, 0),
            ),
            base_s == book_ignore(s@).union(iso_ignores_from(s@, 0, 0)).union(
                common_ignores_from(s@, 0, 0),
            ),
        decreases s.len() - i,
    {
        let ghost ig0 = ig@;
        let ghost i0 = i as int;
        let ghost lo0 = lo as int;
        if i >= lo && short_at_x(s, i) {
            let e1 = run_end(s, i);
            let e2 = run_end(s, e1 + 1);
            let e3 = run_end(s, e2 + 1);
            proof {
                lemma_digit_run_end(s@, i as int);
                lemma_digit_run_end(s@, (e1 + 1) as int);
                lemma_digit_run_end(s@, (e2 + 1) as int);
                lemma_digits_val_fits(s@, i as int, e1 as int);
                lemma_digits_val_fits(s@, (e1 + 1) as int, e2 as int);
                lemma_digits_val_fits(s@, (e2 + 1) as int, e3 as int);
            }
            let c1 = parse_val(s, i, e1).unwrap();
            let c2 = parse_val(s, e1 + 1, e2).unwrap();
            let y = parse_val(s, e2 + 1, e3).unwrap();
            ig.push(c1);
            ig.push(c2);
            ig.push(y);
            lo = e3;
            i = i + 1;
            proof {
                assert(short_ignores_from(s@, i0, lo0) == short_ignores_from(
                    s@,
                    i0 + 1,
                    short_end(s@, i0),
                ).insert(common_c1(s@, i0)).insert(common_c2(s@, i0)).insert(short_y(s@, i0)));
                assert(common_c1(s@, i0) == c1 && common_c2(s@, i0) == c2 && short_y(s@, i0)
                    == y);
                ig0.lemma_push_to_set_commute(c1);
                ig0.push(c1).lemma_push_to_set_commute(c2);
                ig0.push(c1).push(c2).lemma_push_to_set_commute(y);
                assert(ig@.to_set() == ig0.to_set().insert(c1).insert(c2).insert(y));
                assert(ig@.to_set().union(short_ignores_from(s@, i as int, lo as int))
                    =~= ig0.to_set().union(short_ignores_from(s@, i0, lo0)));
            }
        } else {
            i = i + 1;
            proof {
                assert(short_ignores_from(s@, i0, lo0) == short_ignores_from(s@, i0 + 1, lo0));
            }
        }
    }
    assert(ig@.to_set() == ignore_evidence(s@)) by {
        assert(ig@.to_set().union(short_ignores_from(s@, s@.len() as int, lo as int))
            =~= ig@.to_set());
    }

    ig
}

// ---------------------------------------------------------------------------
// The cascade
// ---------------------------------------------------------------------------

/// Number of the leftmost explicit-context match, if any.
pub open spec fn ctx_candidate(s: Seq<char>) -> Option<int> {
    match first_ctx_from(s, 0) {
        Some(i) => Some(ctx_val(s, i)),
        None => None,
    }
}

/// First number of the leftmost `N of M` match, if any.
pub open spec fn of_candidate(s: Seq<char>) -> Option<int> {
    match first_of_from(s, 0) {
        Some(i) => Some(of_val(s, i)),
        None => None,
    }
}

/// Number of the leading-number rule, if it matches.
pub open spec fn start_candidate(s: Seq<char>) -> Option<int> {
    if start_match(s) {
        Some(start_val(s))
    } else {
        None
    }
}

/// First number of the leftmost number-number pair, if any.
pub open spec fn pair_candidate(s: Seq<char>) -> Option<int> {
    match first_pair_from(s, 0) {
        Some(i) => Some(pair_val(s, i)),
        None => None,
    }
}

/// Number of the trailing delimited suffix, if it matches.
pub open spec fn suffix_candidate(s: Seq<char>) -> Option<int> {
    if suffix_match(s) {
        Some(suffix_val(s))
    } else {
        None
    }
}

/// Number of the solo-number rule, if it matches.
pub open spec fn solo_candidate(s: Seq<char>) -> Option<int> {
    if solo_match(s) {
        Some(solo_val(s))
    } else {
        None
    }
}

/// A rule's candidate becomes the result only when it fits the bounded
/// ordinal range and the ignore set does not hold it.
pub open spec fn accepts(c: Option<int>, ig: Set<u16>) -> Option<u16> {
    match c {
        Some(v) => if 0 <= v <= 65535 && !ig.contains(v as u16) {
            Some(v as u16)
        } else {
            None
        },
        None => None,
    }
}

/// First-match-wins combination of two rule outcomes.
pub open spec fn or_else(a: Option<u16>, b: Option<u16>) -> Option<u16> {
    match a {
        Some(v) => Some(v),
        None => b,
    }
}

/// The rules tried after the explicit-context rule, in cascade order.
pub open spec fn cascade_after_ctx(s: Seq<char>) -> Option<u16> {
    let ig = ignore_evidence(s);
    or_else(
        accepts(of_candidate(s), ig),
        or_else(
            accepts(start_candidate(s), ig),
            or_else(
                accepts(pair_candidate(s), ig),
                or_else(accepts(suffix_candidate(s), ig), accepts(solo_candidate(s), ig)),
            ),
        ),
    )
}

/// The ordinal inferred from a filename alone: an explicit-context number
/// that fits wins unconditionally; otherwise the remaining rules fire in
/// order, each vetoed by the ignore set.
pub open spec fn from_filename_spec(s: Seq<char>) -> Option<u16> {
    match ctx_candidate(s) {
        Some(v) => if 0 <= v <= 65535 {
            Some(v as u16)
        } else {
            cascade_after_ctx(s)
        },
        None => cascade_after_ctx(s),
    }
}

/// How an optional tag number and a filename resolve to a final ordinal.
pub open spec fn resolve_spec(tag: Option<u16>, s: Seq<char>) -> Option<u16> {
    match tag {
        Some(t) => if t > 0 {
            Some(t)
        } else {
            from_filename_spec(s)
        },
        None => from_filename_spec(s),
    }
}

/// Extract the file ordinal from a file name (without extension), by the
/// priority-ordered rule cascade; the first matching rule wins.
pub fn parse_from_filename(file_name: &str) -> (r: Option<u16>)
    ensures
        r == from_filename_spec(file_name@),
{
    let s = chars_of(file_name);
    let ig = build_ignores(&s);

    // Explicit context: wins regardless of the ignore set.
    if let Some(i) = find_ctx(&s) {
        let l = ctx_kw_len_x(&s, i).unwrap();
        let k = gap_end_x(&s, i + l);
        let e = run_end(&s, k);
        proof {
            lemma_digit_run_end(s@, k as int);
        }
        if let Some(v) = parse_val(&s, k, e) {
            return Some(v);
        }
    }

    // `N of M`.
    if let Some(i) = find_of(&s) {
        let e = run_end(&s, i);
        proof {
            lemma_digit_run_end(s@, i as int);
        }
        if let Some(v) = parse_val(&s, i, e) {
            if !contains_u16(&ig, v) {
                return Some(v);
            }
        }
    }

    // Leading number.
    if let Some(p) = check_start(&s) {
        proof {
            lemma_digit_run_end(s@, p.0 as int);
        }
        if let Some(v) = parse_val(&s, p.0, p.1) {
            if !contains_u16(&ig, v) {
                return Some(v);
            }
        }
    }

    // Number-number pair.
    if let Some(i) = find_pair(&s) {
        let e = run_end(&s, i);
        proof {
            lemma_digit_run_end(s@, i as int);
        }
        if let Some(v) = parse_val(&s, i, e) {
            if !contains_u16(&ig, v) {
                return Some(v);
            }
        }
    }

    // Trailing delimited suffix.
    if let Some(p) = check_suffix(&s) {
        proof {
            crate::rules::lemma_rev_digit_run_start(s@, s@.len() as int);
        }
        if let Some(v) = parse_val(&s, p.0, p.1) {
            if !contains_u16(&ig, v) {
                return Some(v);
            }
        }
    }

    // Solo number.
    if let Some(p) = check_solo(&s) {
        proof {
            lemma_digit_run_end(s@, p.0 as int);
        }
        if let Some(v) = parse_val(&s, p.0, p.1) {
            if !contains_u16(&ig, v) {
                return Some(v);
            }
        }
    }

    None
}

/// Resolve the final ordinal for one file: an embedded tag number greater
/// than zero is authoritative; the sentinel zero counts as absent, and the
/// filename cascade decides.
pub fn resolve(tag_number: Option<u16>, file_name: &str) -> (r: Option<u16>)
    ensures
        r == resolve_spec(tag_number, file_name@),
{
    match tag_number {
        Some(t) => if t > 0 {
            Some(t)
        } else {
            parse_from_filename(file_name)
        },
        None => parse_from_filename(file_name),
    }
}

} // verus!
