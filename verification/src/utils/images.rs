//! Where the pixels of an image come from: a `data:` URI carries them, an
//! address has them fetched, anything else is a path in the file system.
use base64::Engine;
use sha2::Digest;
use vstd::prelude::*;

use crate::output::{ImageSource, ImageSourceView};
use crate::text::{chars_of, find, find_char, find_from, push_str, slice_chars, starts_with, string_of};

verus! {

/// The error of `base64`'s decoder. Nothing is read from it.
#[verifier::external_type_specification]
#[verifier::external_body]
pub struct ExDecodeError(base64::DecodeError);

/// The bytes that the standard base64 alphabet with padding decodes `data`
/// to, where `data` is valid in it.
pub uninterp spec fn base64_decoded(data: Seq<char>) -> Option<Seq<u8>>;

/// Whether `url::Url::parse` accepts `text` as an absolute URL.
pub uninterp spec fn parses_as_url(text: Seq<char>) -> bool;

/// The SHA-256 digest of `bytes`, written as lower-case hexadecimal digits.
pub uninterp spec fn sha256_hex(bytes: Seq<u8>) -> Seq<char>;

/// Decodes `data` with `base64`'s `STANDARD` engine. The contract names the
/// bytes that come out, and says that an error comes exactly where the
/// engine finds `data` invalid.
#[verifier::external_body]
fn decode_base64(data: &str) -> (r: Result<Vec<u8>, base64::DecodeError>)
    ensures
        match r {
            Ok(bytes) => base64_decoded(data@) == Some(bytes@),
            Err(_) => base64_decoded(data@).is_none(),
        },
{
    base64::engine::general_purpose::STANDARD.decode(data)
}

/// Asks `url::Url::parse` whether `text` is an absolute URL. The contract
/// gives the answer its name.
#[verifier::external_body]
fn is_url(text: &str) -> (b: bool)
    ensures
        b == parses_as_url(text@),
{
    url::Url::parse(text).is_ok()
}

/// Hashes `bytes` with `sha2::Sha256` and writes the digest in lower-case
/// hexadecimal. The contract gives that text its name.
#[verifier::external_body]
fn hash_hex(bytes: &[u8]) -> (s: String)
    ensures
        s@ == sha256_hex(bytes@),
{
    format!("{:x}", sha2::Sha256::digest(bytes))
}

/// The name of the file that a fetched image is kept in: the hash of its
/// bytes, so that the same image is kept once.
pub fn image_file_name(content: &Vec<u8>) -> (name: String)
    ensures
        name@ == sha256_hex(content@) + ".jpg"@,
{
    let mut name: Vec<char> = Vec::new();
    push_str(&mut name, hash_hex(content.as_slice()).as_str());
    push_str(&mut name, ".jpg");
    string_of(&name)
}

/// The payload of a `data:` URI: what follows its comma, where it has
/// exactly one.
pub open spec fn data_payload(url: Seq<char>) -> Option<Seq<char>> {
    match find(url, ',') {
        Some(comma) => {
            if 0 <= comma < url.len() && find_from(url, ',', comma + 1).is_none() {
                Some(url.skip(comma + 1))
            } else {
                None
            }
        },
        None => None,
    }
}

/// What stands for a path or address: an address where it parses as one, else
/// a local path.
pub open spec fn file_source_of(path: Seq<char>, is_url: bool) -> ImageSourceView {
    if is_url {
        ImageSourceView::Remote(path)
    } else {
        ImageSourceView::Local(path)
    }
}

/// The source of the image at `url`, where `decoded` is what the payload of
/// a `data:` URI decodes to and `is_url` says whether `url` is an address.
/// A `data:` URI without a payload that decodes has no source.
pub open spec fn image_source_of(url: Seq<char>, decoded: Option<Seq<u8>>, is_url: bool) -> Option<
    ImageSourceView,
> {
    if "data:image"@.is_prefix_of(url) {
        match decoded {
            Some(bytes) => Some(ImageSourceView::Inline(bytes)),
            None => None,
        }
    } else {
        Some(file_source_of(url, is_url))
    }
}

/// The source of the image at `url`.
pub open spec fn image_source(url: Seq<char>) -> Option<ImageSourceView> {
    image_source_of(
        url,
        match data_payload(url) {
            Some(payload) => base64_decoded(payload),
            None => None,
        },
        parses_as_url(url),
    )
}

/// The view of an optional image source.
pub open spec fn opt_source_view(o: Option<ImageSource>) -> Option<ImageSourceView> {
    match o {
        Some(source) => Some(source@),
        None => None,
    }
}

/// The payload of the `data:` URI `url`.
pub fn payload_of(url: &Vec<char>) -> (r: Option<Vec<char>>)
    ensures
        match r {
            Some(payload) => data_payload(url@) == Some(payload@),
            None => data_payload(url@).is_none(),
        },
{
    match find_char(url, ',', 0) {
        Some(comma) => {
            match find_char(url, ',', comma + 1) {
                Some(_) => None,
                None => Some(slice_chars(url, comma + 1, url.len())),
            }
        },
        None => None,
    }
}

/// What stands for `path`: an address where `is_url` says so, else a local
/// path.
pub fn classify_path(path: &str, is_url: bool) -> (source: ImageSource)
    ensures
        source@ == file_source_of(path@, is_url),
{
    if is_url {
        ImageSource::Remote(String::from_str(path))
    } else {
        ImageSource::Local(String::from_str(path))
    }
}

/// The source of an image given by a path or an address.
pub fn file_source(path: &str) -> (source: ImageSource)
    ensures
        source@ == file_source_of(path@, parses_as_url(path@)),
{
    classify_path(path, is_url(path))
}

/// The image that a decoded payload holds: none where decoding failed.
pub fn inline_source(decoded: Result<Vec<u8>, base64::DecodeError>) -> (r: Option<ImageSource>)
    ensures
        match decoded {
            Ok(bytes) => opt_source_view(r) == Some(ImageSourceView::Inline(bytes@)),
            Err(_) => r.is_none(),
        },
{
    match decoded {
        Ok(bytes) => Some(ImageSource::Inline(bytes)),
        Err(_) => None,
    }
}

/// The source of the image at `url`: the decoded payload of a URI that
/// begins with `data:image`, else the address or path that `url` is. A
/// `data:` URI that has not exactly one comma, or whose payload is not valid
/// base64, has no source.
pub fn resolve_image(url: &str) -> (r: Option<ImageSource>)
    ensures
        opt_source_view(r) == image_source(url@),
{
    let chars = chars_of(url);
    let scheme = chars_of("data:image");
    if starts_with(&chars, &scheme) {
        match payload_of(&chars) {
            Some(payload) => inline_source(decode_base64(string_of(&payload).as_str())),
            None => None,
        }
    } else {
        Some(file_source(url))
    }
}

} // verus!
