//! The picture that is served for an author.

use vstd::prelude::*;
use vstd::string::StringExecFns;
use vstd::string::StringSliceAdditionalSpecFns;
use crate::config::config::ConfigAvatar;
use crate::helpers::avatar::{
    fallback_data, Avatar, AvatarBytesSize, AvatarView, FALLBACK_MIME, FALLBACK_SVG,
};
use crate::helpers::status::Status;

verus! {

/// A picture as it is served.
pub struct ImageBytes {
    pub data: Vec<u8>,
    pub mime: String,
    pub size: u16,
}

impl View for ImageBytes {
    type V = AvatarView;

    open spec fn view(&self) -> AvatarView {
        AvatarView { data: self.data@, mime: self.mime@, size: self.size }
    }
}

/// The picture that stands for an author without avatar.
pub open spec fn fallback_image() -> AvatarView {
    AvatarView {
        data: FALLBACK_SVG.spec_bytes(),
        mime: FALLBACK_MIME@,
        size: FALLBACK_SVG.spec_bytes().len() as AvatarBytesSize,
    }
}

/// Checks that avatars are served at all.
pub fn check_avatars_enabled(config: &ConfigAvatar) -> (checked: Result<(), Status>)
    ensures
        checked == if config.gravatar {
            Ok::<(), Status>(())
        } else {
            Err::<(), Status>(Status::Gone)
        },
{
    if !config.gravatar {
        return Err(Status::Gone);
    }
    Ok(())
}

/// The picture that is served for an author: the avatar that was
/// acquired, or the fallback picture where the author has none.
pub fn get_avatar(acquired: Option<Avatar>) -> (image: ImageBytes)
    ensures
        image@ == match acquired {
            Some(avatar) => avatar@,
            None => fallback_image(),
        },
{
    let avatar = match acquired {
        Some(avatar) => avatar,
        None => {
            let data = fallback_data();
            Avatar {
                size: data.len() as AvatarBytesSize,
                data,
                mime: String::from_str(FALLBACK_MIME),
            }
        },
    };
    ImageBytes { data: avatar.data, mime: avatar.mime, size: avatar.size }
}

} // verus!
