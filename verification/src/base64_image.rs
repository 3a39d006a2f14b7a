use vstd::prelude::*;
use vstd::string::StringExecFns;
use base64::Engine;

verus! {

/// Why a text was not accepted as an image.
#[derive(Clone, Copy, Debug, PartialEq, Eq, Structural)]
pub enum ImageError {
    /// The text is empty.
    Empty,
    /// The text is not standard base64.
    InvalidData,
    /// The bytes are neither a PNG nor a JPEG image.
    UnsupportedType,
}

/// An image as a data URL: `data:<mime type>;base64,<text>`.
#[derive(Clone, Debug)]
pub struct Base64Image(String);

/// The bytes that the standard base64 alphabet with padding decodes `text`
/// to, or `None` where `text` is not such an encoding.
pub uninterp spec fn base64_standard_decoding(text: Seq<char>) -> Option<Seq<u8>>;

/// The MIME type that the leading bytes of `bytes` give away, or `None`
/// where no known signature matches.
pub uninterp spec fn sniffed_mime_type(bytes: Seq<u8>) -> Option<Seq<char>>;

/// `base64::engine::general_purpose::STANDARD.decode`: the decoded bytes, or
/// `None` where the engine reports a decode error. The contract only names
/// the result; it depends on the text alone.
#[verifier::external_body]
fn decode_standard(text: &str) -> (bytes: Option<Vec<u8>>)
    ensures
        bytes matches Some(decoded) ==> base64_standard_decoding(text@) == Some(decoded@),
        bytes is None ==> base64_standard_decoding(text@) is None,
{
    base64::engine::general_purpose::STANDARD.decode(text).ok()
}

/// `infer::get` followed by `Type::mime_type`: the MIME type of the first
/// signature that matches the bytes, or `None` where none does. The
/// contract only names the result; it depends on the bytes alone.
#[verifier::external_body]
fn sniff_mime_type(bytes: &Vec<u8>) -> (mime_type: Option<String>)
    ensures
        mime_type matches Some(found) ==> sniffed_mime_type(bytes@) == Some(found@),
        mime_type is None ==> sniffed_mime_type(bytes@) is None,
{
    match infer::get(bytes.as_slice()) {
        Some(kind) => Some(kind.mime_type().to_string()),
        None => None,
    }
}

/// The MIME types of the images that are accepted.
pub open spec fn is_supported(mime_type: Seq<char>) -> bool {
    mime_type == "image/png"@ || mime_type == "image/jpeg"@
}

/// The data URL of the base64 text `data` of an image of type `mime_type`.
pub open spec fn data_url(mime_type: Seq<char>, data: Seq<char>) -> Seq<char> {
    "data:"@ + mime_type + ";base64,"@ + data
}

/// What becomes of the base64 text `data` once the type of its bytes is
/// known: a data URL for a PNG or a JPEG image, a refusal for anything else.
pub open spec fn labelled(data: Seq<char>, mime_type: Option<Seq<char>>) -> Result<
    Seq<char>,
    ImageError,
> {
    match mime_type {
        Some(found) => if is_supported(found) {
            Ok(data_url(found, data))
        } else {
            Err(ImageError::UnsupportedType)
        },
        None => Err(ImageError::UnsupportedType),
    }
}

/// What becomes of the text `data`: empty text and text that is not base64
/// are refused; the rest goes by the type of the decoded bytes.
pub open spec fn image_of(data: Seq<char>) -> Result<Seq<char>, ImageError> {
    if data.len() == 0 {
        Err(ImageError::Empty)
    } else {
        match base64_standard_decoding(data) {
            None => Err(ImageError::InvalidData),
            Some(bytes) => labelled(data, sniffed_mime_type(bytes)),
        }
    }
}

impl View for Base64Image {
    type V = Seq<char>;

    closed spec fn view(&self) -> Seq<char> {
        self.0@
    }
}

impl Base64Image {
    /// Labels the base64 text `data` with the MIME type found for its bytes.
    /// Only PNG and JPEG images are accepted.
    pub fn with_mime_type(data: String, mime_type: Option<String>) -> (image: Result<
        Base64Image,
        ImageError,
    >)
        ensures
            match labelled(
                data@,
                match mime_type {
                    Some(found) => Some(found@),
                    None => None,
                },
            ) {
                Ok(url) => image matches Ok(made) && made@ == url,
                Err(e) => image matches Err(refusal) && refusal == e,
            },
    {
        match mime_type {
            Some(found) => {
                if found == String::from_str("image/png") || found == String::from_str(
                    "image/jpeg",
                ) {
                    let mut url = String::from_str("data:");
                    url.append(found.as_str());
                    url.append(";base64,");
                    url.append(data.as_str());
                    Ok(Base64Image(url))
                } else {
                    Err(ImageError::UnsupportedType)
                }
            },
            None => Err(ImageError::UnsupportedType),
        }
    }

    /// Accepts the base64 text of a PNG or JPEG image and turns it into a
    /// data URL. Empty text, text that is not base64, and bytes of any other
    /// type are refused.
    pub fn new(data: String) -> (image: Result<Base64Image, ImageError>)
        ensures
            match image_of(data@) {
                Ok(url) => image matches Ok(made) && made@ == url,
                Err(e) => image matches Err(refusal) && refusal == e,
            },
    {
        if data.as_str().is_empty() {
            return Err(ImageError::Empty);
        }
        let bytes = match decode_standard(data.as_str()) {
            Some(bytes) => bytes,
            None => {
                return Err(ImageError::InvalidData);
            },
        };
        let mime_type = sniff_mime_type(&bytes);
        Self::with_mime_type(data, mime_type)
    }

    /// The data URL.
    pub fn into_inner(self) -> (url: String)
        ensures
            url@ == self@,
    {
        self.0
    }
}

} // verus!
