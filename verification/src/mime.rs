//! Media types of the pictures that come with a resource pack.
use vstd::prelude::*;
use crate::text::{ends_with, has_suffix};

verus! {

/// Why a file name has no known media type.
#[derive(Debug)]
pub enum MimeError {
    /// The name ends with none of the known picture extensions; the name is kept.
    UnknownExtension(String),
}

impl MimeError {
    /// The message of the error: `unknow extension ` followed by the name.
    pub fn to_string(&self) -> (r: String)
        ensures
            match self {
                MimeError::UnknownExtension(name) => r@ == "unknow extension "@ + name@,
            },
    {
        match self {
            MimeError::UnknownExtension(name) => {
                let mut r = String::from_str("unknow extension ");
                r.append(name.as_str());
                r
            },
        }
    }
}

/// File names that denote JPEG pictures.
pub open spec fn is_jpeg_name(name: Seq<char>) -> bool {
    has_suffix(name, ".jpg"@) || has_suffix(name, ".JPG"@) || has_suffix(name, ".jpeg"@)
}

/// File names that denote PNG pictures.
pub open spec fn is_png_name(name: Seq<char>) -> bool {
    has_suffix(name, ".png"@)
}

/// Any name followed by `.jpg`, `.JPG` or `.jpeg` is a JPEG name, and any name
/// followed by `.png` is a PNG name.
pub proof fn lemma_extension_names(name: Seq<char>)
    ensures
        is_jpeg_name(name + ".jpg"@),
        is_jpeg_name(name + ".JPG"@),
        is_jpeg_name(name + ".jpeg"@),
        is_png_name(name + ".png"@),
{
    assert((name + ".jpg"@).skip((name + ".jpg"@).len() - ".jpg"@.len()) =~= ".jpg"@);
    assert((name + ".JPG"@).skip((name + ".JPG"@).len() - ".JPG"@.len()) =~= ".JPG"@);
    assert((name + ".jpeg"@).skip((name + ".jpeg"@).len() - ".jpeg"@.len()) =~= ".jpeg"@);
    assert((name + ".png"@).skip((name + ".png"@).len() - ".png"@.len()) =~= ".png"@);
}

/// The media type of a picture from its file name: `image/jpeg` for names ending
/// in `.jpg`, `.JPG` or `.jpeg`, otherwise `image/png` for names ending in
/// `.png`, and an error that keeps the name for any other name.
pub fn get_mime_type(ty: &str) -> (r: Result<String, MimeError>)
    ensures
        is_jpeg_name(ty@) ==> (r matches Ok(m) && m@ == "image/jpeg"@),
        !is_jpeg_name(ty@) && is_png_name(ty@) ==> (r matches Ok(m) && m@ == "image/png"@),
        !is_jpeg_name(ty@) && !is_png_name(ty@) ==> (r matches Err(
            MimeError::UnknownExtension(name),
        ) && name@ == ty@),
{
    if ends_with(ty, ".jpg") || ends_with(ty, ".JPG") || ends_with(ty, ".jpeg") {
        Ok(String::from_str("image/jpeg"))
    } else if ends_with(ty, ".png") {
        Ok(String::from_str("image/png"))
    } else {
        Err(MimeError::UnknownExtension(String::from_str(ty)))
    }
}

} // verus!
