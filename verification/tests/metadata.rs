use audiobook_organizer::metadata::{from_raw, split_series, Metadata, RawMetadata};

fn raw() -> RawMetadata {
    RawMetadata {
        title: "Title".to_string(),
        subtitle: Some("Subtitle".to_string()),
        series: Some(vec!["The Expanse #1".to_string()]),
        authors: Some(vec!["First Author".to_string(), "Second Author".to_string()]),
        published_year: Some("2001".to_string()),
        published_date: None,
        genres: Some(vec!["Science Fiction".to_string()]),
        language: Some("english".to_string()),
        abridged: Some(false),
    }
}

#[test]
fn split_series_with_hash() {
    let (name, number) = split_series("The Expanse #1");
    assert_eq!(name.as_deref(), Some("The Expanse"));
    assert_eq!(number, Some(1));
}

#[test]
fn split_series_without_hash() {
    let (name, number) = split_series("Saga 12");
    assert_eq!(name.as_deref(), Some("Saga"));
    assert_eq!(number, Some(12));
}

#[test]
fn split_series_keeps_embedded_numbers_in_the_name() {
    let (name, number) = split_series("Area 51 Files 3");
    assert_eq!(name.as_deref(), Some("Area 51 Files"));
    assert_eq!(number, Some(3));
}

#[test]
fn split_series_without_number_yields_neither() {
    assert_eq!(split_series("Standalone"), (None, None));
    assert_eq!(split_series(""), (None, None));
    assert_eq!(split_series(" 3"), (None, None));
    assert_eq!(split_series("#3"), (None, None));
}

#[test]
fn split_series_overflow_keeps_the_name() {
    let (name, number) = split_series("Saga 99999");
    assert_eq!(name.as_deref(), Some("Saga"));
    assert_eq!(number, None);
}

#[test]
fn from_raw_picks_first_entries() {
    let m = from_raw(raw());
    assert_eq!(m.title, "Title");
    assert_eq!(m.subtitle.as_deref(), Some("Subtitle"));
    assert_eq!(m.author.as_deref(), Some("First Author"));
    assert_eq!(m.genre.as_deref(), Some("Science Fiction"));
    assert_eq!(m.series.as_deref(), Some("The Expanse"));
    assert_eq!(m.book_number, Some(1));
    assert_eq!(m.published_year.as_deref(), Some("2001"));
    assert_eq!(m.published_date, None);
    assert_eq!(m.language.as_deref(), Some("english"));
    assert_eq!(m.abridged, Some(false));
    assert_eq!(m.book_number_with_zeros, None);
    assert_eq!(m.file_number, None);
    assert_eq!(m.file_number_with_zeros, None);
}

#[test]
fn from_raw_with_empty_lists() {
    let mut r = raw();
    r.series = Some(vec![]);
    r.authors = None;
    r.genres = Some(vec![]);
    let m = from_raw(r);
    assert_eq!(m.series, None);
    assert_eq!(m.book_number, None);
    assert_eq!(m.author, None);
    assert_eq!(m.genre, None);
}

#[test]
fn from_raw_series_without_number() {
    let mut r = raw();
    r.series = Some(vec!["Standalone Series".to_string()]);
    let m = from_raw(r);
    // A designator without a trailing number carries neither name nor number.
    assert_eq!(m.series, None);
    assert_eq!(m.book_number, None);
}

#[test]
fn default_record_is_empty() {
    let m = Metadata::default();
    assert_eq!(m.title, "");
    assert_eq!(m.subtitle, None);
    assert_eq!(m.book_number, None);
    assert_eq!(m.file_number, None);
}
