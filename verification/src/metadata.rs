//! The metadata record of an audiobook and its construction from raw,
//! just-parsed metadata.

use vstd::prelude::*;
use crate::chars::{chars_of, digits_val};
use crate::rules::{
    lemma_rev_digit_run_start, parse_val, rev_digit_run_start, rev_run_start_x,
    rev_space_run_start, rev_space_start_x,
};

verus! {

/// The processed metadata record for an audiobook. The derived
/// `..._with_zeros` fields are never authoritative: they are regenerated
/// from their integer source immediately before each render.
#[derive(Debug, Clone)]
pub struct Metadata {
    pub title: String,
    pub subtitle: Option<String>,
    pub series: Option<String>,
    pub book_number: Option<u16>,
    pub book_number_with_zeros: Option<String>,
    pub author: Option<String>,
    pub published_year: Option<String>,
    pub published_date: Option<String>,
    pub genre: Option<String>,
    pub language: Option<String>,
    pub abridged: Option<bool>,
    pub file_number: Option<u16>,
    pub file_number_with_zeros: Option<String>,
}

impl Default for Metadata {
    /// An empty record: an empty title and every optional field absent.
    fn default() -> (m: Metadata)
        ensures
            m.title@ == Seq::<char>::empty(),
            m.subtitle is None,
            m.series is None,
            m.book_number is None,
            m.book_number_with_zeros is None,
            m.author is None,
            m.published_year is None,
            m.published_date is None,
            m.genre is None,
            m.language is None,
            m.abridged is None,
            m.file_number is None,
            m.file_number_with_zeros is None,
    {
        Metadata {
            title: String::new(),
            subtitle: None,
            series: None,
            book_number: None,
            book_number_with_zeros: None,
            author: None,
            published_year: None,
            published_date: None,
            genre: None,
            language: None,
            abridged: None,
            file_number: None,
            file_number_with_zeros: None,
        }
    }
}

/// The raw metadata shape as parsed from a metadata file, before processing.
#[derive(Debug, Clone)]
pub struct RawMetadata {
    pub title: String,
    pub subtitle: Option<String>,
    pub series: Option<Vec<String>>,
    pub authors: Option<Vec<String>>,
    pub published_year: Option<String>,
    pub published_date: Option<String>,
    pub genres: Option<Vec<String>>,
    pub language: Option<String>,
    pub abridged: Option<bool>,
}

/// View of an optional string.
pub open spec fn opt_str_view(o: Option<String>) -> Option<Seq<char>> {
    match o {
        Some(x) => Some(x@),
        None => None,
    }
}

/// View of the first element of an optional list of strings.
pub open spec fn first_view(v: Option<Vec<String>>) -> Option<Seq<char>> {
    match v {
        Some(items) => if items@.len() > 0 {
            Some(items@[0]@)
        } else {
            None
        },
        None => None,
    }
}

// ---------------------------------------------------------------------------
// The series designator: `NAME N` or `NAME #N`
// ---------------------------------------------------------------------------

/// Start of the trailing digit run of `s`.
pub open spec fn series_digits_start(s: Seq<char>) -> int {
    rev_digit_run_start(s, s.len() as int)
}

/// Start of the optional `#` just before the trailing digits.
pub open spec fn series_hash_start(s: Seq<char>) -> int {
    let k = series_digits_start(s);
    if k > 0 && s[k - 1] == '#' {
        k - 1
    } else {
        k
    }
}

/// End of the series name: the whitespace before the number is not part of
/// it.
pub open spec fn series_name_end(s: Seq<char>) -> int {
    rev_space_run_start(s, series_hash_start(s))
}

/// Whether `s` has the series-designator shape: a nonempty name, at least
/// one whitespace character, an optional `#`, then trailing digits.
pub open spec fn series_matches(s: Seq<char>) -> bool {
    series_digits_start(s) < s.len() && series_name_end(s) < series_hash_start(s)
        && series_name_end(s) > 0
}

/// The number at the tail of the series designator.
pub open spec fn series_number(s: Seq<char>) -> int {
    digits_val(s, series_digits_start(s), s.len() as int)
}

/// Split a series designator into its name and its number. A designator
/// without the `NAME N` shape yields neither; a number beyond the ordinal
/// range yields the name alone.
pub fn split_series(s: &str) -> (r: (Option<String>, Option<u16>))
    ensures
        match r.0 {
            Some(name) => series_matches(s@) && name@ == s@.subrange(0, series_name_end(s@)),
            None => !series_matches(s@),
        },
        match r.1 {
            Some(v) => series_matches(s@) && v as int == series_number(s@),
            None => !series_matches(s@) || series_number(s@) > 65535,
        },
{
    let cs = chars_of(s);
    let k = rev_run_start_x(&cs, cs.len());
    if k >= cs.len() {
        return (None, None);
    }
    let h = if k > 0 && cs[k - 1] == '#' {
        k - 1
    } else {
        k
    };
    let w = rev_space_start_x(&cs, h);
    if !(w < h && w > 0) {
        return (None, None);
    }
    let name = s.substring_char(0, w).to_owned();
    proof {
        lemma_rev_digit_run_start(s@, s@.len() as int);
    }
    let num = parse_val(&cs, k, cs.len());
    (Some(name), num)
}

// ---------------------------------------------------------------------------
// Raw metadata conversion
// ---------------------------------------------------------------------------

/// First element of an optional list, cloned.
fn first_item(v: &Option<Vec<String>>) -> (r: Option<String>)
    ensures
        opt_str_view(r) == first_view(*v),
{
    match v {
        Some(items) => if items.len() > 0 {
            Some(items[0].clone())
        } else {
            None
        },
        None => None,
    }
}

/// Build the processed record from raw metadata: the first author, genre and
/// series entry are taken; the series designator is split into the series
/// name and the book number; the per-file fields start out absent.
pub fn from_raw(raw: RawMetadata) -> (m: Metadata)
    ensures
        m.title == raw.title,
        m.subtitle == raw.subtitle,
        opt_str_view(m.author) == first_view(raw.authors),
        opt_str_view(m.genre) == first_view(raw.genres),
        m.published_year == raw.published_year,
        m.published_date == raw.published_date,
        m.language == raw.language,
        m.abridged == raw.abridged,
        m.book_number_with_zeros is None,
        m.file_number is None,
        m.file_number_with_zeros is None,
        match first_view(raw.series) {
            Some(sv) => (match m.series {
                Some(name) => series_matches(sv) && name@ == sv.subrange(
                    0,
                    series_name_end(sv),
                ),
                None => !series_matches(sv),
            }) && (match m.book_number {
                Some(v) => series_matches(sv) && v as int == series_number(sv),
                None => !series_matches(sv) || series_number(sv) > 65535,
            }),
            None => m.series is None && m.book_number is None,
        },
{
    let author = first_item(&raw.authors);
    let genre = first_item(&raw.genres);
    let (series, book_number) = match &raw.series {
        Some(items) => if items.len() > 0 {
            split_series(items[0].as_str())
        } else {
            (None, None)
        },
        None => (None, None),
    };
    Metadata {
        title: raw.title,
        subtitle: raw.subtitle,
        series,
        book_number,
        book_number_with_zeros: None,
        author,
        published_year: raw.published_year,
        published_date: raw.published_date,
        genre,
        language: raw.language,
        abridged: raw.abridged,
        file_number: None,
        file_number_with_zeros: None,
    }
}

} // verus!
