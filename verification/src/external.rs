//! Calls into the standard library and outside crates whose results are taken on trust.

use vstd::prelude::*;

use crate::extraction::ZipStage;
use crate::text::has_suffix;

verus! {

/// A lower-case hexadecimal digit.
pub open spec fn is_lower_hex_digit(c: char) -> bool {
    ('0' <= c && c <= '9') || ('a' <= c && c <= 'f')
}

/// The hyphenated lower-case form of a UUID: 36 characters, hyphens at positions 8, 13, 18
/// and 23, hexadecimal digits elsewhere.
pub open spec fn is_hyphenated_uuid(s: Seq<char>) -> bool {
    &&& s.len() == 36
    &&& forall|i: int| 0 <= i < 36 ==> if i == 8 || i == 13 || i == 18 || i == 23 {
        #[trigger] s[i] == '-'
    } else {
        is_lower_hex_digit(s[i])
    }
}

/// A fresh identifier for a newly registered mod: `uuid::Uuid::new_v4()` written with
/// `Display`, which gives the hyphenated lower-case form. Which digits come out is random and
/// not stated.
#[verifier::external_body]
pub(crate) fn new_mod_id() -> (r: String)
    ensures
        is_hyphenated_uuid(r@),
{
    uuid::Uuid::new_v4().to_string()
}

/// The current time as an RFC 3339 text: `chrono::Utc::now().to_rfc3339()`. The offset of
/// UTC is written as `+00:00`, so the text ends with it; the date and time come from the
/// system clock and are not stated.
#[verifier::external_body]
pub(crate) fn current_timestamp() -> (r: String)
    ensures
        has_suffix(r@, "+00:00"@),
{
    chrono::Utc::now().to_rfc3339()
}

/// The text that `str::to_lowercase` makes of `s` (Unicode lower case, which can change the
/// number of characters).
pub uninterp spec fn lowercase(s: Seq<char>) -> Seq<char>;

/// `str::to_lowercase`: the result is the lower-case form of `s`, named `lowercase`.
#[verifier::external_body]
pub(crate) fn to_lowercase(s: &str) -> (r: String)
    ensures
        r@ == lowercase(s@),
{
    s.to_lowercase()
}

/// The last component of a path as `std::path::Path::file_name` gives it: `None` when the
/// path ends in `..` or has no component.
pub uninterp spec fn path_file_name(p: Seq<char>) -> Option<Seq<char>>;

/// `std::path::Path::file_name` of the path `p`, as text (a component of a path made from
/// text is itself text, so nothing is lost).
#[verifier::external_body]
pub(crate) fn file_name_of(p: &str) -> (r: Option<String>)
    ensures
        r.deep_view() == path_file_name(p@),
{
    match std::path::Path::new(p).file_name() {
        Some(f) => Some(f.to_string_lossy().into_owned()),
        None => None,
    }
}

/// The path that `std::path::Path::join` makes of `base` and `part`.
pub uninterp spec fn joined_path(base: Seq<char>, part: Seq<char>) -> Seq<char>;

/// `std::path::Path::join` of `part` onto `base`, as text (both are text, so the joined path
/// is too).
#[verifier::external_body]
pub(crate) fn join_path(base: &str, part: &str) -> (r: String)
    ensures
        r@ == joined_path(base@, part@),
{
    std::path::Path::new(base).join(part).to_string_lossy().into_owned()
}

/// The text that `http::StatusCode`'s `Display` (re-exported by `reqwest` as
/// `reqwest::StatusCode`) writes for a status code: the number and its canonical reason
/// phrase.
pub uninterp spec fn status_text(code: u16) -> Seq<char>;

/// `http::StatusCode::from_u16(code)` (through `reqwest`'s re-export) written with
/// `Display`. Codes outside 100..=999 are not status codes and are not passed.
#[verifier::external_body]
pub(crate) fn status_display(code: u16) -> (r: String)
    requires
        100 <= code <= 999,
    ensures
        r@ == status_text(code),
{
    match reqwest::StatusCode::from_u16(code) {
        Ok(s) => s.to_string(),
        Err(e) => e.to_string(),
    }
}

/// The entries of a zip archive, as `zip::ZipArchive` reads them from these bytes: each
/// entry's name and contents, in the archive's order, or where reading failed and the
/// error's text.
pub uninterp spec fn zip_entries(archive: Seq<u8>) -> Result<Seq<(Seq<char>, Seq<u8>)>, (ZipStage, Seq<char>)>;

/// Reads every entry of a zip archive with `zip::ZipArchive::new` and `by_index`: the names
/// and bytes are those that `zip_entries` names; a failure gives its stage and text.
#[verifier::external_body]
pub(crate) fn read_zip(archive: &[u8]) -> (r: Result<Vec<(String, Vec<u8>)>, (ZipStage, String)>)
    ensures
        match r {
            Ok(v) => zip_entries(archive@) matches Ok(es) && v.len() == es.len()
                && forall|i: int| 0 <= i < v.len() ==> #[trigger] v[i].0@ == es[i].0 && v[i].1@ == es[i].1,
            Err((stage, e)) => zip_entries(archive@) == Err::<Seq<(Seq<char>, Seq<u8>)>, (ZipStage, Seq<char>)>((stage, e@)),
        },
{
    let mut zip = zip::ZipArchive::new(std::io::Cursor::new(archive))
        .map_err(|e| (ZipStage::OpenArchive, e.to_string()))?;
    let mut entries = Vec::new();
    for i in 0..zip.len() {
        let mut file = zip.by_index(i).map_err(|e| (ZipStage::OpenEntry, e.to_string()))?;
        let mut bytes = Vec::new();
        std::io::Read::read_to_end(&mut file, &mut bytes).map_err(|e| (ZipStage::ReadEntry, e.to_string()))?;
        entries.push((file.name().to_string(), bytes));
    }
    Ok(entries)
}

} // verus!
