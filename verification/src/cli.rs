//! The decisions of the command-line converter that follow the matching of its
//! arguments: which output formats take several inputs, whether image data is kept, how
//! an exported id is looked up, and how the page size is given.

use vstd::prelude::*;
use vstd::string::StrSliceExecFns;

use crate::strings::concat;

verus! {

/// The output formats of the converter.
#[derive(Debug, Clone, Copy, PartialEq, Eq, Structural)]
pub enum Format {
    Png,
    Pdf,
    Ps,
    Eps,
    Svg,
}

/// Whether `format` is a document format, with pages: PDF, PostScript or EPS.
pub open spec fn is_paged(format: Format) -> bool {
    matches!(format, Format::Ps | Format::Eps | Format::Pdf)
}

/// The message for several inputs to a format that takes one.
pub open spec fn multiple_inputs_message() -> Seq<char> {
    "Multiple SVG files are only allowed for PDF and (E)PS output."@
}

/// The message for a page width without a page height, or the other way round.
pub open spec fn page_size_message() -> Seq<char> {
    "Please specify both the --page-width and --page-height options together."@
}

/// Whether original image data is kept in the output: by default for the paged formats,
/// unless `--no-keep-image-data` is given; for the others only with
/// `--keep-image-data`.
pub fn keep_image_data(format: Format, keep_flag: bool, no_keep_flag: bool) -> (r: bool)
    ensures
        r == if is_paged(format) {
            !no_keep_flag
        } else {
            keep_flag
        },
{
    match format {
        Format::Ps | Format::Eps | Format::Pdf => !no_keep_flag,
        _ => keep_flag,
    }
}

/// The id to look an exported object up by: ids are looked up with a `#` before them, so
/// that they could name objects in other files too; one is added where the user did not
/// write it.
pub fn lookup_id(id: String) -> (r: String)
    ensures
        id@.len() > 0 && id@[0] == '#' ==> r@ == id@,
        !(id@.len() > 0 && id@[0] == '#') ==> r@ == seq!['#'] + id@,
{
    proof {
        reveal_strlit("#");
    }
    let text = id.as_str();
    let starts_with_hash = text.unicode_len() > 0 && text.get_char(0) == '#';
    if starts_with_hash {
        id
    } else {
        concat("#", id.as_str())
    }
}

/// The page size, from the page width and height options: both or neither must be given.
pub fn page_size<W, H>(width: Option<W>, height: Option<H>) -> (r: Result<Option<(W, H)>, String>)
    ensures
        match (width, height) {
            (None, None) => r == Ok::<Option<(W, H)>, String>(None),
            (Some(w), Some(h)) => r == Ok::<Option<(W, H)>, String>(Some((w, h))),
            _ => (r matches Err(m) && m@ == page_size_message()),
        },
{
    match (width, height) {
        (None, None) => Ok(None),
        (Some(w), Some(h)) => Ok(Some((w, h))),
        _ => {
            proof {
                reveal_strlit("Please specify both the --page-width and --page-height options together.");
            }
            Err("Please specify both the --page-width and --page-height options together.".to_owned())
        },
    }
}

/// Checks the number of input files: only the paged formats take more than one.
pub fn check_input_count(num_inputs: usize, format: Format) -> (r: Result<(), String>)
    ensures
        num_inputs <= 1 || is_paged(format) ==> r is Ok,
        num_inputs > 1 && !is_paged(format) ==> (r matches Err(m) && m@ == multiple_inputs_message()),
{
    if num_inputs > 1 && !matches!(format, Format::Ps | Format::Eps | Format::Pdf) {
        proof {
            reveal_strlit("Multiple SVG files are only allowed for PDF and (E)PS output.");
        }
        Err("Multiple SVG files are only allowed for PDF and (E)PS output.".to_owned())
    } else {
        Ok(())
    }
}

} // verus!
