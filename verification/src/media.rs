//! The media type under which a file is sent.

use crate::text::optional_text;
use vstd::prelude::*;

verus! {

/// The media type that `mime_guess` has on record for the extension of a
/// path, if it has one.
pub uninterp spec fn guessed_media_type(path: Seq<char>) -> Option<Seq<char>>;

/// The media type that a guess stands for: the guessed one, or that of
/// arbitrary bytes where there is none.
pub open spec fn guess_or_bytes(guess: Option<Seq<char>>) -> Seq<char> {
    match guess {
        Some(media) => media,
        None => "application/octet-stream"@,
    }
}

/// The media type of the file at `path`: the recorded one, or that of
/// arbitrary bytes where none is on record.
pub open spec fn media_type(path: Seq<char>) -> Seq<char> {
    guess_or_bytes(guessed_media_type(path))
}

/// Calls `mime_guess::from_path`, takes the first media type of the guess with
/// `MimeGuess::first` and writes it out with `to_string`. The guess goes by
/// the extension of the path, looked up in a fixed table, and reads no file:
/// the contract gives the result a name that depends on the path alone, and
/// claims nothing more. Where the path has no extension, or one that the
/// table lacks, the guess is empty and nothing is returned. Every entry of
/// the table is a well-formed media type, so `first` does not panic.
#[verifier::external_body]
fn guess_media_type(path: &str) -> (guess: Option<String>)
    ensures
        optional_text(guess) == guessed_media_type(path@),
{
    mime_guess::from_path(path).first().map(|media| media.to_string())
}

/// The media type that a guess stands for.
pub fn media_type_from(guess: Option<String>) -> (media: String)
    ensures
        media@ == guess_or_bytes(optional_text(guess)),
{
    match guess {
        Some(media) => media,
        None => "application/octet-stream".to_owned(),
    }
}

/// The media type under which the file at `path` is sent.
pub fn media_type_of(path: &str) -> (media: String)
    ensures
        media@ == media_type(path@),
{
    media_type_from(guess_media_type(path))
}

} // verus!
