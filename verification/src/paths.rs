//! File names and paths as text. A path is a run of components separated by
//! `/`; paths are compared letter by letter.

use crate::model::{image_extension, image_extensions, IMAGE_EXTENSION_COUNT};
use crate::text::{
    ascii_lower, chars_of, decimal, ends_with, find_last, has_prefix, has_suffix, last_index,
    lowercase, push_all, push_decimal, slice_of, starts_with, string_of,
};
use vstd::prelude::*;

verus! {

/// Whether `path` is a web address rather than a local path.
pub open spec fn is_url_text(path: Seq<char>) -> bool {
    has_prefix(path, "http://"@) || has_prefix(path, "https://"@)
}

/// Whether `path` is a web address rather than a local path.
pub fn is_url(path: &str) -> (r: bool)
    ensures
        r == is_url_text(path@),
{
    let p = chars_of(path);
    starts_with(&p, &chars_of("http://")) || starts_with(&p, &chars_of("https://"))
}

/// Whether `name` ends in `zip`, whatever the case of its letters.
pub open spec fn is_zip_name(name: Seq<char>) -> bool {
    has_suffix(ascii_lower(name), "zip"@)
}

/// Whether `filename` names an archive.
pub fn is_zip_file(filename: &str) -> (r: bool)
    ensures
        r == is_zip_name(filename@),
{
    let lower = lowercase(&chars_of(filename));
    ends_with(&lower, &chars_of("zip"))
}

/// Whether `name` ends in one of the image extensions, whatever the case of
/// its letters.
pub open spec fn is_image_name(name: Seq<char>) -> bool {
    exists|i: int|
        0 <= i < image_extensions().len() && has_suffix(
            ascii_lower(name),
            #[trigger] image_extensions()[i],
        )
}

/// Whether `filename` names an image.
pub fn is_image_file(filename: &str) -> (r: bool)
    ensures
        r == is_image_name(filename@),
{
    let lower = lowercase(&chars_of(filename));
    let mut i: usize = 0;
    while i < IMAGE_EXTENSION_COUNT
        invariant
            i <= IMAGE_EXTENSION_COUNT,
            lower@ == ascii_lower(filename@),
            image_extensions().len() == IMAGE_EXTENSION_COUNT,
            forall|j: int| 0 <= j < i ==> !has_suffix(lower@, #[trigger] image_extensions()[j]),
        decreases IMAGE_EXTENSION_COUNT - i,
    {
        if ends_with(&lower, &chars_of(image_extension(i))) {
            return true;
        }
        i += 1;
    }
    false
}

/// `s` after its last `c`; all of `s` if it holds none.
pub open spec fn after_last(s: Seq<char>, c: char) -> Seq<char> {
    match last_index(s, c) {
        Some(i) => s.skip(i + 1),
        None => s,
    }
}

/// `path` without what trails its last name: separators, and components
/// that are a single dot.
pub open spec fn trimmed(path: Seq<char>) -> Seq<char>
    decreases path.len(),
{
    if path.len() == 0 {
        path
    } else if path.last() == '/' {
        trimmed(path.drop_last())
    } else if path.last() == '.' && (path.len() == 1 || path[path.len() - 2] == '/') {
        trimmed(path.drop_last())
    } else {
        path
    }
}

/// The last component of `path`, unless the path ends in the root, in `..`,
/// or is empty.
pub open spec fn file_name(path: Seq<char>) -> Option<Seq<char>> {
    let t = trimmed(path);
    let name = after_last(t, '/');
    if t.len() == 0 || name == seq!['.', '.'] {
        None
    } else {
        Some(name)
    }
}

/// Where the extension of `name` begins: after its last dot, unless that
/// dot is the first character.
pub open spec fn extension_dot(name: Seq<char>) -> Option<int> {
    match last_index(name, '.') {
        Some(i) => if i > 0 {
            Some(i)
        } else {
            None
        },
        None => None,
    }
}

/// `name` without its extension.
pub open spec fn stem_of(name: Seq<char>) -> Seq<char> {
    match extension_dot(name) {
        Some(i) => name.take(i),
        None => name,
    }
}

/// The extension of `name`, without the dot.
pub open spec fn extension_of(name: Seq<char>) -> Option<Seq<char>> {
    match extension_dot(name) {
        Some(i) => Some(name.skip(i + 1)),
        None => None,
    }
}

/// `path` up to and including the separator before its last component.
pub open spec fn dir_part(path: Seq<char>) -> Seq<char> {
    let t = trimmed(path);
    match last_index(t, '/') {
        Some(i) => t.take(i + 1),
        None => Seq::empty(),
    }
}

/// The length of `path` without what trails its last name.
fn trimmed_len(path: &Vec<char>) -> (end: usize)
    ensures
        end <= path.len(),
        trimmed(path@) == path@.take(end as int),
{
    let mut end: usize = path.len();
    assert(path@.take(end as int) == path@);
    while end > 0 && (path[end - 1] == '/' || (path[end - 1] == '.' && (end == 1 || path[end - 2]
        == '/')))
        invariant
            end <= path.len(),
            trimmed(path@) == trimmed(path@.take(end as int)),
        decreases end,
    {
        assert(path@.take(end as int).drop_last() == path@.take(end - 1));
        end -= 1;
    }
    end
}

/// A path split before its last component.
pub struct PathParts {
    /// The path up to and including the last separator.
    pub dir: Vec<char>,
    /// The last component.
    pub name: Vec<char>,
}

/// Splits `path` into its directory part and its last component.
pub fn split_path(path: &Vec<char>) -> (r: Option<PathParts>)
    ensures
        match r {
            Some(parts) => file_name(path@) == Some(parts.name@) && parts.dir@ == dir_part(path@),
            None => file_name(path@) is None,
        },
{
    let end = trimmed_len(path);
    let t = slice_of(path, 0, end);
    assert(t@ == trimmed(path@));
    let start: usize = match find_last(&t, '/') {
        Some(i) => i + 1,
        None => 0,
    };
    let name = slice_of(&t, start, t.len());
    assert(name@ == after_last(t@, '/'));
    if t.len() == 0 || (name.len() == 2 && name[0] == '.' && name[1] == '.') {
        assert(name.len() == 2 && name[0] == '.' && name[1] == '.' ==> name@ == seq!['.', '.']);
        return None;
    }
    let dir = slice_of(&t, 0, start);
    Some(PathParts { dir, name })
}

/// Splits `name` at the dot of its extension.
pub fn split_extension(name: &Vec<char>) -> (r: Option<(Vec<char>, Vec<char>)>)
    ensures
        match r {
            Some((stem, ext)) => stem@ == stem_of(name@) && extension_of(name@) == Some(ext@),
            None => extension_of(name@) is None && stem_of(name@) == name@,
        },
{
    match find_last(name, '.') {
        Some(i) => {
            if i > 0 {
                let stem = slice_of(name, 0, i);
                let ext = slice_of(name, i + 1, name.len());
                Some((stem, ext))
            } else {
                None
            }
        },
        None => None,
    }
}

/// The name that an export goes by: the last component of its path,
/// without the extension. For a web address the last component is what
/// follows the final separator. Empty where the path has no last component.
pub open spec fn export_name(json_path: Seq<char>) -> Seq<char> {
    let last_segment = if is_url_text(json_path) {
        after_last(json_path, '/')
    } else {
        json_path
    };
    match file_name(last_segment) {
        Some(name) => stem_of(name),
        None => Seq::empty(),
    }
}

/// The name that an export goes by.
pub fn extract_export_name(json_path: &str) -> (r: String)
    ensures
        r@ == export_name(json_path@),
{
    let path = chars_of(json_path);
    let last_segment = if is_url(json_path) {
        match find_last(&path, '/') {
            Some(i) => slice_of(&path, i + 1, path.len()),
            None => path,
        }
    } else {
        path
    };
    match split_path(&last_segment) {
        Some(parts) => match split_extension(&parts.name) {
            Some((stem, _)) => string_of(&stem),
            None => string_of(&parts.name),
        },
        None => String::new(),
    }
}

/// `i` in decimal, with zeros in front up to three digits.
pub open spec fn padded3(i: nat) -> Seq<char> {
    if i < 10 {
        seq!['0', '0'] + decimal(i)
    } else if i < 100 {
        seq!['0'] + decimal(i)
    } else {
        decimal(i)
    }
}

/// The name of the numbered duplicate `i` of a file: `<stem>_NNN.<ext>`.
pub open spec fn variant_name(stem: Seq<char>, ext: Seq<char>, i: nat) -> Seq<char> {
    stem + seq!['_'] + padded3(i) + seq!['.'] + ext
}

/// The numbered duplicate `i` of the file at `path`, as its path and its
/// name: a sibling in the same directory. A file without an extension has
/// none.
pub open spec fn variant_of(path: Seq<char>, i: nat) -> Option<(Seq<char>, Seq<char>)> {
    match file_name(path) {
        None => None,
        Some(name) => match extension_of(name) {
            None => None,
            Some(ext) => {
                let v = variant_name(stem_of(name), ext, i);
                Some((dir_part(path) + v, v))
            },
        },
    }
}

/// Builds the name of the numbered duplicate `i`.
pub fn make_variant_name(stem: &Vec<char>, ext: &Vec<char>, i: u64) -> (r: Vec<char>)
    ensures
        r@ == variant_name(stem@, ext@, i as nat),
{
    let mut out: Vec<char> = Vec::new();
    push_all(&mut out, stem);
    out.push('_');
    if i < 10 {
        out.push('0');
        out.push('0');
    } else if i < 100 {
        out.push('0');
    }
    assert(out@ + decimal(i as nat) == stem@ + seq!['_'] + padded3(i as nat));
    push_decimal(&mut out, i);
    out.push('.');
    push_all(&mut out, ext);
    out
}

} // verus!
