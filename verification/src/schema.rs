//! The schema used for formatting destination directory paths and file
//! names from a metadata record.

use vstd::prelude::*;
use crate::metadata::{opt_str_view, Metadata};
use crate::numfmt::{pad2, pad2_str, pad3, pad3_str};
use crate::template::{render, render_spec, wf_template, RenderError};
use crate::track::{resolve, resolve_spec};

verus! {

/// An immutable pair of templates in the field-substitution language:
/// one for the destination directory path, one for the file name.
#[derive(Debug, Clone)]
pub struct Schema {
    pub path_template: String,
    pub file_template: String,
}

/// The derived zero-padded view of an optional book number (width 2).
pub open spec fn book_pad_view(n: Option<u16>) -> Option<Seq<char>> {
    match n {
        Some(v) => Some(pad2_str(v as int)),
        None => None,
    }
}

/// The derived zero-padded view of an optional file number (width 3).
pub open spec fn file_pad_view(n: Option<u16>) -> Option<Seq<char>> {
    match n {
        Some(v) => Some(pad3_str(v as int)),
        None => None,
    }
}

/// `extension` is one of the handled audio file types.
pub open spec fn has_ext(types: Seq<String>, extension: Seq<char>) -> bool {
    exists|k: int| 0 <= k < types.len() && types[k]@ == extension
}

/// The file-name outcome: the rendered file template with `.extension`
/// appended, or the rendering failure unchanged.
pub open spec fn file_result_view(t: Seq<char>, m: Metadata, extension: Seq<char>) -> Result<
    Seq<char>,
    Seq<char>,
> {
    match render_spec(t, m) {
        Ok(body) => Ok(body + seq!['.'] + extension),
        Err(e) => Err(e),
    }
}

/// Membership of `x` among the handled file types.
fn contains_str(types: &Vec<String>, x: &str) -> (b: bool)
    ensures
        b == has_ext(types@, x@),
{
    let needle = x.to_owned();
    let mut i: usize = 0;
    while i < types.len()
        invariant
            i <= types.len(),
            needle@ == x@,
            forall|k: int| 0 <= k < i ==> types@[k]@ != x@,
        decreases types.len() - i,
    {
        if types[i] == needle {
            assert(has_ext(types@, x@)) by {
                assert(types@[i as int]@ == x@);
            }
            return true;
        }
        i = i + 1;
    }
    false
}

impl Schema {
    /// A schema from its path template and its file template.
    pub fn new(path: String, file: String) -> (s: Self)
        ensures
            s.path_template == path,
            s.file_template == file,
    {
        Schema { path_template: path, file_template: file }
    }

    /// Format the destination directory path for `metadata`: the derived
    /// zero-padded book number is regenerated from its integer source, then
    /// the path template is rendered in strict mode.
    pub fn fmt_path(&self, metadata: &mut Metadata) -> (r: Result<String, RenderError>)
        requires
            wf_template(self.path_template@),
        ensures
            final(metadata).title == old(metadata).title,
            final(metadata).subtitle == old(metadata).subtitle,
            final(metadata).series == old(metadata).series,
            final(metadata).book_number == old(metadata).book_number,
            final(metadata).author == old(metadata).author,
            final(metadata).published_year == old(metadata).published_year,
            final(metadata).published_date == old(metadata).published_date,
            final(metadata).genre == old(metadata).genre,
            final(metadata).language == old(metadata).language,
            final(metadata).abridged == old(metadata).abridged,
            final(metadata).file_number == old(metadata).file_number,
            final(metadata).file_number_with_zeros == old(metadata).file_number_with_zeros,
            opt_str_view(final(metadata).book_number_with_zeros) == book_pad_view(
                old(metadata).book_number,
            ),
            match r {
                Ok(s) => render_spec(self.path_template@, *final(metadata)) == Ok::<
                    Seq<char>,
                    Seq<char>,
                >(s@),
                Err(e) => render_spec(self.path_template@, *final(metadata)) == Err::<
                    Seq<char>,
                    Seq<char>,
                >(e.missing_field@) && e.template@ == self.path_template@,
            },
    {
        metadata.book_number_with_zeros = match metadata.book_number {
            Some(n) => Some(pad2(n)),
            None => None,
        };
        render(self.path_template.as_str(), metadata)
    }

    /// Format the destination file name for one file. For a handled audio
    /// extension the file ordinal is resolved from the tag number and the
    /// file stem, the derived zero-padded field is regenerated, and the file
    /// template is rendered with the extension appended; any other file
    /// keeps its full original name, and the record is left untouched.
    pub fn fmt_file(
        &self,
        metadata: &mut Metadata,
        tag_number: Option<u16>,
        file_stem: &str,
        extension: &str,
        file_types: &Vec<String>,
    ) -> (r: Result<String, RenderError>)
        requires
            wf_template(self.file_template@),
        ensures
            final(metadata).title == old(metadata).title,
            final(metadata).subtitle == old(metadata).subtitle,
            final(metadata).series == old(metadata).series,
            final(metadata).book_number == old(metadata).book_number,
            final(metadata).book_number_with_zeros == old(metadata).book_number_with_zeros,
            final(metadata).author == old(metadata).author,
            final(metadata).published_year == old(metadata).published_year,
            final(metadata).published_date == old(metadata).published_date,
            final(metadata).genre == old(metadata).genre,
            final(metadata).language == old(metadata).language,
            final(metadata).abridged == old(metadata).abridged,
            has_ext(file_types@, extension@) ==> final(metadata).file_number == resolve_spec(
                tag_number,
                file_stem@,
            ) && opt_str_view(final(metadata).file_number_with_zeros) == file_pad_view(
                resolve_spec(tag_number, file_stem@),
            ),
            !has_ext(file_types@, extension@) ==> *final(metadata) == *old(metadata),
            match r {
                Ok(s) => if has_ext(file_types@, extension@) {
                    file_result_view(self.file_template@, *final(metadata), extension@) == Ok::<
                        Seq<char>,
                        Seq<char>,
                    >(s@)
                } else {
                    s@ == file_stem@ + seq!['.'] + extension@
                },
                Err(e) => has_ext(file_types@, extension@) && file_result_view(
                    self.file_template@,
                    *final(metadata),
                    extension@,
                ) == Err::<Seq<char>, Seq<char>>(e.missing_field@) && e.template@
                    == self.file_template@,
            },
    {
        if contains_str(file_types, extension) {
            let file_number = resolve(tag_number, file_stem);
            metadata.file_number = file_number;
            metadata.file_number_with_zeros = match file_number {
                Some(n) => Some(pad3(n)),
                None => None,
            };
            match render(self.file_template.as_str(), metadata) {
                Ok(body) => {
                    let mut out = body;
                    out.append(".");
                    out.append(extension);
                    proof {
                        reveal_strlit(".");
                        assert("."@ =~= seq!['.']);
                    }
                    Ok(out)
                },
                Err(e) => Err(e),
            }
        } else {
            let mut out = file_stem.to_owned();
            out.append(".");
            out.append(extension);
            proof {
                reveal_strlit(".");
                assert("."@ =~= seq!['.']);
            }
            Ok(out)
        }
    }
}

} // verus!
