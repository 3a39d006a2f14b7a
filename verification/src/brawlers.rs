use vstd::prelude::*;
use vstd::string::StringExecFns;
use crate::base64_image::{image_of, Base64Image, ImageError};
use crate::cloudinary::UploadImageOptions;
use crate::text::{signed, signed_text};

verus! {

/// The brawler use case: how an avatar is handed to the image store.
pub struct BrawlersUseCase {}

/// The options under which the avatar of `user_id` is kept: in the folder
/// of avatars, under the id of the brawler, scaled to 256 pixels in width.
pub open spec fn is_avatar_upload(option: UploadImageOptions, user_id: i32) -> bool {
    &&& option.folder matches Some(folder) && folder@ == "avatars"@
    &&& option.public_id matches Some(public_id) && public_id@ == signed_text(user_id as int)
    &&& option.transformation matches Some(transformation) && transformation@
        == "c_scale,w_256"@
}

impl BrawlersUseCase {
    pub fn new() -> (use_case: BrawlersUseCase) {
        BrawlersUseCase {}
    }

    /// The options under which the avatar of `user_id` is uploaded.
    pub fn avatar_options(&self, user_id: i32) -> (option: UploadImageOptions)
        ensures
            is_avatar_upload(option, user_id),
    {
        UploadImageOptions {
            folder: Some(String::from_str("avatars")),
            public_id: Some(signed(user_id as i64)),
            transformation: Some(String::from_str("c_scale,w_256")),
        }
    }

    /// Prepares the upload of an avatar: the text must be the base64 of a
    /// PNG or JPEG image, and goes to the image store as a data URL with the
    /// options of an avatar.
    pub fn upload_base64image(&self, user_id: i32, base64_image: String) -> (upload: Result<
        (Base64Image, UploadImageOptions),
        ImageError,
    >)
        ensures
            match image_of(base64_image@) {
                Ok(url) => upload matches Ok((image, option)) && image@ == url && is_avatar_upload(
                    option,
                    user_id,
                ),
                Err(e) => upload matches Err(refusal) && refusal == e,
            },
    {
        let option = self.avatar_options(user_id);
        match Base64Image::new(base64_image) {
            Ok(image) => Ok((image, option)),
            Err(e) => Err(e),
        }
    }
}

} // verus!
