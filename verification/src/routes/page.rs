//! What the page of comments is told besides the comments themselves.

use vstd::prelude::*;
use vstd::string::StringExecFns;
use crate::config::config::{ConfigAvatar, ConfigSite};

verus! {

/// Where and how large avatars are shown.
pub struct CommentsOptionsAvatar {
    pub avatar_endpoint: String,
    pub size_image: u16,
}

/// The address under which avatars are served.
pub open spec fn avatar_endpoint(comments_url: Seq<char>) -> Seq<char> {
    comments_url + "/image/avatar"@
}

/// What the page is told of avatars: nothing where they are switched off,
/// and else where they are served and how large they are shown.
pub fn comments_options_avatar(avatar: &ConfigAvatar, site: &ConfigSite) -> (options: Option<
    CommentsOptionsAvatar,
>)
    ensures
        options is Some == avatar.gravatar,
        options is Some ==> options->0.avatar_endpoint@ == avatar_endpoint(site.comments_url@)
            && options->0.size_image == avatar.size_pixels,
{
    if avatar.gravatar {
        let mut avatar_endpoint = site.comments_url.clone();
        avatar_endpoint.append("/image/avatar");
        Some(CommentsOptionsAvatar { avatar_endpoint, size_image: avatar.size_pixels })
    } else {
        None
    }
}

} // verus!
