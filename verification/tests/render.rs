use audiobook_organizer::metadata::Metadata;
use audiobook_organizer::numfmt::{pad2, pad3, u16_to_dec};
use audiobook_organizer::schema::Schema;
use audiobook_organizer::template::{check_template, render};

fn record() -> Metadata {
    Metadata {
        title: "Title".to_string(),
        subtitle: None,
        series: None,
        book_number: None,
        book_number_with_zeros: None,
        author: Some("Author".to_string()),
        published_year: None,
        published_date: None,
        genre: None,
        language: None,
        abridged: None,
        file_number: None,
        file_number_with_zeros: None,
    }
}

#[test]
fn absent_conditional_block_leaves_no_artifact() {
    let m = record();
    let out = render("{{author}}/{{#if series}}{{series}}/{{/if}}{{title}}", &m);
    assert_eq!(out.unwrap(), "Author/Title");
}

#[test]
fn present_conditional_block_is_included() {
    let mut m = record();
    m.series = Some("Series".to_string());
    let out = render("{{author}}/{{#if series}}{{series}}/{{/if}}{{title}}", &m);
    assert_eq!(out.unwrap(), "Author/Series/Title");
}

#[test]
fn missing_field_error_names_the_field() {
    let mut m = record();
    m.author = None;
    let template = "{{author}}/{{title}}";
    let err = render(template, &m).unwrap_err();
    assert_eq!(err.missing_field, "author");
    assert_eq!(err.template, template);
}

#[test]
fn unknown_field_is_a_missing_field() {
    let m = record();
    let err = render("{{narrator}}", &m).unwrap_err();
    assert_eq!(err.missing_field, "narrator");
}

#[test]
fn missing_field_inside_skipped_block_is_no_error() {
    let m = record();
    // `series` is absent, so the block and its bad reference are never
    // evaluated.
    let out = render("{{#if series}}{{narrator}}{{/if}}{{title}}", &m);
    assert_eq!(out.unwrap(), "Title");
}

#[test]
fn numeric_and_boolean_fields_render() {
    let mut m = record();
    m.book_number = Some(3);
    m.file_number = Some(150);
    m.abridged = Some(true);
    assert_eq!(render("{{book_number}}", &m).unwrap(), "3");
    assert_eq!(render("{{file_number}}", &m).unwrap(), "150");
    assert_eq!(render("{{abridged}}", &m).unwrap(), "true");
    m.abridged = Some(false);
    assert_eq!(render("{{abridged}}", &m).unwrap(), "false");
}

#[test]
fn rendering_is_idempotent() {
    let mut m = record();
    m.series = Some("Series".to_string());
    m.book_number_with_zeros = Some("03".to_string());
    let template = "{{#if series}}{{series}} - {{/if}}{{title}} {{book_number_with_zeros}}";
    let first = render(template, &m).unwrap();
    let second = render(template, &m).unwrap();
    assert_eq!(first, second);
    assert_eq!(first, "Series - Title 03");
}

#[test]
fn zero_padding_widths() {
    assert_eq!(pad2(3), "03");
    assert_eq!(pad2(10), "10");
    assert_eq!(pad2(150), "150");
    assert_eq!(pad3(3), "003");
    assert_eq!(pad3(42), "042");
    assert_eq!(pad3(150), "150");
    assert_eq!(pad3(65535), "65535");
    assert_eq!(u16_to_dec(0), "0");
    assert_eq!(u16_to_dec(65535), "65535");
}

#[test]
fn template_grammar_check() {
    assert!(check_template("{{author}}/{{#if series}}{{series}}/{{/if}}{{title}}"));
    assert!(check_template("plain text, no fields"));
    assert!(check_template(""));
    assert!(!check_template("{{unclosed"));
    assert!(!check_template("{{bad name}}"));
    assert!(!check_template("{{a{{b}}"));
    assert!(!check_template("{{/if}}"));
    assert!(!check_template("{{#if a}}no close"));
    assert!(!check_template("{{#if a}}{{#if b}}x{{/if}}{{/if}}"));
}

#[test]
fn fmt_path_regenerates_book_pad() {
    let schema = Schema::new(
        "{{author}}/{{#if series}}{{series}}/{{/if}}{{title}}{{#if book_number_with_zeros}} - Book {{book_number_with_zeros}}{{/if}}".to_string(),
        "{{title}}".to_string(),
    );
    let mut m = record();
    m.series = Some("Series".to_string());
    m.book_number = Some(3);
    // A stale derived field must be overwritten before rendering.
    m.book_number_with_zeros = Some("99".to_string());
    let out = schema.fmt_path(&mut m).unwrap();
    assert_eq!(out, "Author/Series/Title - Book 03");
    assert_eq!(m.book_number_with_zeros.as_deref(), Some("03"));

    m.book_number = Some(150);
    let out = schema.fmt_path(&mut m).unwrap();
    assert_eq!(out, "Author/Series/Title - Book 150");

    m.book_number = None;
    let out = schema.fmt_path(&mut m).unwrap();
    assert_eq!(out, "Author/Series/Title");
    assert_eq!(m.book_number_with_zeros, None);
}

#[test]
fn fmt_path_reports_missing_required_field() {
    let schema = Schema::new("{{author}} - {{title}}".to_string(), "{{title}}".to_string());
    let mut m = record();
    m.author = None;
    let err = schema.fmt_path(&mut m).unwrap_err();
    assert_eq!(err.missing_field, "author");
    assert_eq!(err.template, "{{author}} - {{title}}");
}

#[test]
fn fmt_file_resolves_and_pads_the_ordinal() {
    let schema = Schema::new(
        "{{title}}".to_string(),
        "{{#if series}}{{series}} - {{/if}}{{title}}{{#if file_number_with_zeros}} ({{file_number_with_zeros}}){{/if}}".to_string(),
    );
    let types: Vec<String> = vec!["m4b".to_string(), "mp3".to_string()];
    let mut m = record();
    m.series = Some("Series".to_string());
    let out = schema.fmt_file(&mut m, None, "02 - intro", "m4b", &types).unwrap();
    assert_eq!(out, "Series - Title (002).m4b");
    assert_eq!(m.file_number, Some(2));
    assert_eq!(m.file_number_with_zeros.as_deref(), Some("002"));
}

#[test]
fn fmt_file_prefers_the_tag_number() {
    let schema = Schema::new(
        "{{title}}".to_string(),
        "{{title}}{{#if file_number_with_zeros}} ({{file_number_with_zeros}}){{/if}}".to_string(),
    );
    let types: Vec<String> = vec!["mp3".to_string()];
    let mut m = record();
    let out = schema.fmt_file(&mut m, Some(7), "02 - intro", "mp3", &types).unwrap();
    assert_eq!(out, "Title (007).mp3");
    assert_eq!(m.file_number, Some(7));
}

#[test]
fn fmt_file_without_ordinal_omits_the_block() {
    let schema = Schema::new(
        "{{title}}".to_string(),
        "{{title}}{{#if file_number_with_zeros}} ({{file_number_with_zeros}}){{/if}}".to_string(),
    );
    let types: Vec<String> = vec!["mp3".to_string()];
    let mut m = record();
    let out = schema.fmt_file(&mut m, None, "no ordinal here", "mp3", &types).unwrap();
    assert_eq!(out, "Title.mp3");
    assert_eq!(m.file_number, None);
    assert_eq!(m.file_number_with_zeros, None);
}

#[test]
fn fmt_file_leaves_other_file_types_alone() {
    let schema = Schema::new("{{title}}".to_string(), "{{title}}".to_string());
    let types: Vec<String> = vec!["mp3".to_string()];
    let mut m = record();
    let out = schema.fmt_file(&mut m, None, "cover", "jpg", &types).unwrap();
    assert_eq!(out, "cover.jpg");
    assert_eq!(m.file_number, None);
}
