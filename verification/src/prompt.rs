//! The data of one prompt: its text and the media attached to it.

use base64::Engine;
use vstd::prelude::*;

verus! {

/// One attached file: its media type and its content in base64.
#[derive(Debug, Clone, PartialEq, Eq)]
pub struct Media {
    pub mime_type: String,
    pub data: String,
}

/// A prompt: text, and the media attached to it in the order given.
#[derive(Debug, Clone, PartialEq, Eq)]
pub struct PromptData {
    pub text: String,
    pub media: Vec<Media>,
}

/// A file to attach: its path and what it holds.
#[derive(Debug, Clone, PartialEq, Eq)]
pub struct AttachedFile {
    pub path: String,
    pub content: Vec<u8>,
}

/// Why a prompt could not be made.
#[derive(Debug, Clone, Copy, PartialEq, Eq, Structural)]
pub enum PromptError {
    /// A file is too large for its base64 text to be held.
    FileTooLarge,
}

/// The media type that the extension of the path `path` stands for, and
/// `application/octet-stream` where it stands for none.
pub uninterp spec fn mime_type_of(path: Seq<char>) -> Seq<char>;

/// The base64 text of `bytes`, in the standard alphabet and padded.
pub uninterp spec fn base64_of(bytes: Seq<u8>) -> Seq<char>;

/// The length of the padded base64 text of `n` bytes: four characters for
/// every three bytes, begun or complete.
pub open spec fn base64_len(n: nat) -> nat {
    4 * ((n + 2) / 3)
}

/// Guesses the media type of a path with `mime_guess::from_path` and takes
/// the first guess, or `application/octet-stream` where there is none
/// (`MimeGuess::first_or_octet_stream`). The guess goes by the extension of the
/// path alone; no file is read.
#[verifier::external_body]
fn guess_mime_type(path: &str) -> (mime: String)
    ensures
        mime@ == mime_type_of(path@),
{
    mime_guess::from_path(path).first_or_octet_stream().to_string()
}

/// Encodes bytes with `Engine::encode` of `base64`'s `STANDARD` engine. The
/// text depends on the bytes alone, and is as long as `encoded_len` of that
/// crate says for padded text. The call panics where that length overflows,
/// which the precondition rules out.
#[verifier::external_body]
fn encode_base64(bytes: &Vec<u8>) -> (text: String)
    requires
        base64_len(bytes@.len()) <= usize::MAX,
    ensures
        text@ == base64_of(bytes@),
        text@.len() == base64_len(bytes@.len()),
{
    base64::engine::general_purpose::STANDARD.encode(bytes)
}

/// Whether the base64 text of `n` bytes can be held.
pub fn fits_base64(n: usize) -> (fits: bool)
    ensures
        fits == (base64_len(n as nat) <= usize::MAX),
{
    let chunks: usize = n / 3;
    let begun: usize = if n % 3 > 0 {
        1
    } else {
        0
    };
    chunks <= usize::MAX / 4 - begun
}

impl PromptData {
    /// Whether `media` is what is attached for `file`: the media type that
    /// its path stands for, and its content in base64.
    pub open spec fn attaches(media: Media, file: AttachedFile) -> bool {
        media.mime_type@ == mime_type_of(file.path@) && media.data@ == base64_of(file.content@)
    }

    /// The prompt with the text `text` and, attached in order, the files
    /// `files`. Fails where a file is too large, and only there.
    pub fn new(text: String, files: &Vec<AttachedFile>) -> (prompt: Result<PromptData, PromptError>)
        ensures
            prompt is Ok <==> forall|i: int|
                0 <= i < files.len() ==> base64_len(#[trigger] files[i].content@.len())
                    <= usize::MAX,
            prompt matches Ok(p) ==> p.text == text && p.media.len() == files.len() && forall|
                i: int,
            | 0 <= i < files.len() ==> PromptData::attaches(#[trigger] p.media[i], files[i]),
    {
        let mut media: Vec<Media> = Vec::new();
        let mut i: usize = 0;
        while i < files.len()
            invariant
                i <= files.len(),
                media.len() == i,
                forall|k: int|
                    0 <= k < i ==> base64_len(#[trigger] files[k].content@.len()) <= usize::MAX,
                forall|k: int| 0 <= k < i ==> PromptData::attaches(#[trigger] media[k], files[k]),
            decreases files.len() - i,
        {
            let file = &files[i];
            if !fits_base64(file.content.len()) {
                return Err(PromptError::FileTooLarge);
            }
            let mime_type = guess_mime_type(file.path.as_str());
            let data = encode_base64(&file.content);
            media.push(Media { mime_type, data });
            i += 1;
        }
        Ok(PromptData { text, media })
    }
}

} // verus!
