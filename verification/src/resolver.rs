//! From a requested path to the path of a file below the document root.

use crate::config::{Config, ConfigView};
use crate::text::{chars_of, slash, text_of};
use vstd::prelude::*;

verus! {

/// The path names a directory: its last character is a slash.
pub open spec fn ends_in_slash(path: Seq<char>) -> bool {
    path.len() > 0 && path.last() == '/'
}

/// The path with the index file behind it where it names a directory.
pub open spec fn with_index(path: Seq<char>, index_file: Seq<char>) -> Seq<char> {
    if ends_in_slash(path) {
        path + index_file
    } else {
        path
    }
}

/// The directory without the slashes at its end.
pub open spec fn without_trailing_slashes(directory: Seq<char>) -> Seq<char>
    decreases directory.len(),
{
    if ends_in_slash(directory) {
        without_trailing_slashes(directory.drop_last())
    } else {
        directory
    }
}

/// The place of `path` below `directory`: the directory without the slashes
/// at its end, a slash, and the path as it stands.
pub open spec fn below(directory: Seq<char>, path: Seq<char>) -> Seq<char> {
    without_trailing_slashes(directory) + slash() + path
}

/// The file that answers a requested path: the index rule first, then the
/// place below the document root. Nothing in the path is normalised or refused.
pub open spec fn resolved(path: Seq<char>, config: ConfigView) -> Seq<char> {
    below(config.directory, with_index(path, config.index_file))
}

/// The file that is sent when a resource is missing.
pub open spec fn not_found_document(config: ConfigView) -> Seq<char> {
    below(config.directory, config.not_found_uri)
}

/// Whether the last character of `path` is a slash.
pub fn names_directory(path: &str) -> (directory: bool)
    ensures
        directory == ends_in_slash(path@),
{
    let length = path.unicode_len();
    length > 0 && path.get_char(length - 1) == '/'
}

/// Puts the index file behind a path that names a directory and leaves any
/// other path as it is.
pub fn apply_index(path: String, config: &Config) -> (rewritten: String)
    ensures
        rewritten@ == with_index(path@, config@.index_file),
{
    if names_directory(path.as_str()) {
        let mut rewritten = path;
        rewritten.append(config.index_file.as_str());
        rewritten
    } else {
        path
    }
}

/// The place of `path` below `directory`.
pub fn place_below(directory: &str, path: &str) -> (place: String)
    ensures
        place@ == below(directory@, path@),
{
    let chars = chars_of(directory);
    let mut end: usize = chars.len();
    assert(chars@.take(end as int) =~= chars@);
    while end > 0 && chars[end - 1] == '/'
        invariant
            end <= chars.len(),
            without_trailing_slashes(chars@) == without_trailing_slashes(chars@.take(end as int)),
        decreases end,
    {
        assert(chars@.take(end as int).drop_last() =~= chars@.take(end - 1));
        end -= 1;
    }
    let mut place = text_of(&chars, 0, end);
    proof {
        reveal_strlit("/");
    }
    place.append("/");
    place.append(path);
    place
}

/// The file that answers a requested path.
pub fn resolve(path: &str, config: &Config) -> (file: String)
    ensures
        file@ == resolved(path@, config@),
{
    let rewritten = apply_index(path.to_owned(), config);
    place_below(config.directory.as_str(), rewritten.as_str())
}

/// The file that is sent when a resource is missing.
pub fn not_found_path(config: &Config) -> (file: String)
    ensures
        file@ == not_found_document(config@),
{
    place_below(config.directory.as_str(), config.not_found_uri.as_str())
}

/// A directory is answered by its index file: a path that ends in a slash
/// resolves to the same file as that path with the index file written out,
/// whenever the index file does not itself end in a slash.
pub proof fn lemma_directory_resolves_to_index(path: Seq<char>, config: ConfigView)
    requires
        ends_in_slash(path),
        !ends_in_slash(config.index_file),
    ensures
        resolved(path, config) == resolved(path + config.index_file, config),
{
}

/// The index rule needs to be applied once only: a rewritten path is left as
/// it is, whenever the index file does not end in a slash.
pub proof fn lemma_index_applies_once(path: Seq<char>, index_file: Seq<char>)
    requires
        !ends_in_slash(index_file),
    ensures
        with_index(with_index(path, index_file), index_file) == with_index(path, index_file),
{
}

} // verus!
