//! Ranking of file-search hits by name match and extension.
use crate::text::{contains_str, has_infix, has_prefix, lower_of, lowercase, starts_with};
use vstd::prelude::*;

verus! {

pub open spec fn is_image_ext(e: Seq<char>) -> bool {
    e == "png"@ || e == "jpg"@ || e == "jpeg"@ || e == "webp"@ || e == "gif"@ || e == "svg"@ || e
        == "bmp"@ || e == "tiff"@
}

pub open spec fn is_video_ext(e: Seq<char>) -> bool {
    e == "mp4"@ || e == "mkv"@ || e == "avi"@ || e == "mov"@ || e == "webm"@ || e == "flv"@ || e
        == "wmv"@
}

pub open spec fn is_document_ext(e: Seq<char>) -> bool {
    e == "rs"@ || e == "js"@ || e == "ts"@ || e == "vue"@ || e == "py"@ || e == "html"@ || e
        == "css"@ || e == "json"@ || e == "md"@ || e == "txt"@ || e == "pdf"@ || e == "csv"@ || e
        == "docx"@ || e == "xlsx"@
}

/// The bonus for a lowercase extension: images first, then videos, then
/// documents and code.
pub open spec fn ext_bonus(e: Seq<char>) -> int {
    if is_image_ext(e) {
        40
    } else if is_video_ext(e) {
        30
    } else if is_document_ext(e) {
        20
    } else {
        0
    }
}

/// The score of a file from its lowercase name, extension and query: 100
/// for a name equal to the query, else 50 for one that starts with it, plus
/// the extension's bonus.
pub open spec fn file_score(name: Seq<char>, ext: Option<Seq<char>>, query: Seq<char>) -> int {
    (if name == query {
        100int
    } else if has_prefix(name, query) {
        50int
    } else {
        0int
    }) + match ext {
        Some(e) => ext_bonus(e),
        None => 0,
    }
}

pub open spec fn lowered(o: Option<&str>) -> Option<Seq<char>> {
    match o {
        Some(e) => Some(lower_of(e@)),
        None => None,
    }
}

pub open spec fn opt_seq(o: Option<&str>) -> Option<Seq<char>> {
    match o {
        Some(e) => Some(e@),
        None => None,
    }
}

fn same(a: &str, b: &str) -> (r: bool)
    ensures
        r == (a@ == b@),
{
    a.to_string() == b.to_string()
}

/// The bonus of an extension already in lowercase.
pub fn extension_bonus(e: &str) -> (r: i32)
    ensures
        r == ext_bonus(e@),
{
    if same(e, "png") || same(e, "jpg") || same(e, "jpeg") || same(e, "webp") || same(e, "gif")
        || same(e, "svg") || same(e, "bmp") || same(e, "tiff") {
        40
    } else if same(e, "mp4") || same(e, "mkv") || same(e, "avi") || same(e, "mov") || same(
        e,
        "webm",
    ) || same(e, "flv") || same(e, "wmv") {
        30
    } else if same(e, "rs") || same(e, "js") || same(e, "ts") || same(e, "vue") || same(e, "py")
        || same(e, "html") || same(e, "css") || same(e, "json") || same(e, "md") || same(e, "txt")
        || same(e, "pdf") || same(e, "csv") || same(e, "docx") || same(e, "xlsx") {
        20
    } else {
        0
    }
}

/// The score from a name, extension and query that are already lowercase.
pub fn score_lowered(name: &str, ext: Option<&str>, query: &str) -> (r: i32)
    ensures
        r == file_score(name@, opt_seq(ext), query@),
{
    let base: i32 = if same(name, query) {
        100
    } else if starts_with(name, query) {
        50
    } else {
        0
    };
    let bonus: i32 = match ext {
        Some(e) => extension_bonus(e),
        None => 0,
    };
    base + bonus
}

/// The score of a file for a query, case-insensitively.
pub fn calculate_file_score(name: &str, ext: Option<&str>, query: &str) -> (r: i32)
    ensures
        r == file_score(lower_of(name@), lowered(ext), lower_of(query@)),
{
    let lower_name = lowercase(name);
    let lower_query = lowercase(query);
    match ext {
        Some(e) => {
            let lower_ext = lowercase(e);
            score_lowered(lower_name.as_str(), Some(lower_ext.as_str()), lower_query.as_str())
        },
        None => score_lowered(lower_name.as_str(), None, lower_query.as_str()),
    }
}

/// Whether a path is a hit for a query: the query occurs in it, ignoring
/// case.
pub fn path_matches(path: &str, query: &str) -> (r: bool)
    ensures
        r == has_infix(lower_of(path@), lower_of(query@)),
{
    let lower_path = lowercase(path);
    let lower_query = lowercase(query);
    contains_str(lower_path.as_str(), lower_query.as_str())
}

} // verus!
