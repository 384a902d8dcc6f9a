//! Avatars of comment authors: what to make of a cached avatar, of the
//! answer of the avatar service, and which avatar to keep. Fetching and
//! storing are left to the caller.

use vstd::prelude::*;
use vstd::string::StringExecFns;
use vstd::string::StrSliceExecFns;
use vstd::string::StringSliceAdditionalSpecFns;
use super::text::{
    chars_of, decimal, decimal_string, lowercase, parse_unsigned, parsed_unsigned, starts_with,
    to_lowercase,
};
use crate::config::config::ConfigAvatar;

verus! {

pub type AvatarData = Vec<u8>;

pub type AvatarMIME = String;

pub type AvatarBytesSize = u16;

pub type AvatarPixelsSize = u16;

/// The picture shown for an author without avatar, as SVG text.
pub const FALLBACK_SVG: &'static str =
    "<svg height=\"500\" viewBox=\"0 0 500 500\" width=\"500\" xmlns=\"http://www.w3.org/2000/svg\"><g fill=\"none\" fill-rule=\"evenodd\"><path d=\"m0 0h500v500h-500z\" fill=\"#c4c4c4\"/><g fill=\"#fbfbfb\"><circle cx=\"250\" cy=\"204.115842\" r=\"113\"/><ellipse cx=\"250\" cy=\"509.115842\" rx=\"187\" ry=\"215\"/></g></g></svg>";

/// Media type of the fallback picture.
pub const FALLBACK_MIME: &'static str = "image/svg+xml";

/// Where avatars are fetched from.
pub const GRAVATAR_ENDPOINT: &'static str = "https://gravatar.com";

/// What the media type of a picture starts with.
pub const IMAGE_MIME_PREFIX: &'static str = "image/";

/// Seconds after which an avatar that was fetched is fetched again: 31
/// days.
pub const REFRESH_AFTER_SUCCESS: u64 = 2678400;

/// Seconds after which an avatar that could not be fetched is tried
/// again: one day.
pub const REFRESH_AFTER_ERRORED: u64 = 86400;

/// HTTP status of an answer that carries the avatar.
pub const STATUS_OK: u16 = 200;

/// HTTP status of the answer for an author without avatar.
pub const STATUS_NOT_FOUND: u16 = 404;

/// What a cached avatar is worth.
#[derive(Clone, Copy, Debug, PartialEq, Eq, Structural)]
pub enum CacheStatus {
    /// It can be served as it is.
    Valid,
    /// It was made for another size and cannot be served.
    Invalid,
    /// It can be served but is due to be fetched again.
    Stale,
    /// There is none.
    Missing,
}

/// An avatar.
#[derive(Clone)]
pub struct Avatar {
    pub data: AvatarData,
    pub mime: AvatarMIME,
    pub size: AvatarBytesSize,
}

/// An avatar as it is stored, where the author may have none.
pub struct AvatarMaybe {
    pub data: Option<AvatarData>,
    pub mime: Option<AvatarMIME>,
    pub size: AvatarBytesSize,
}

/// A stored avatar with the size it was fetched for and the time, in
/// seconds since the epoch, at which it is due to be fetched again.
pub struct CachedAvatar {
    pub avatar: AvatarMaybe,
    pub pixels_size: AvatarPixelsSize,
    pub refresh_at: Option<i64>,
}

/// What the headers of an answer say of the avatar that follows.
pub struct AvatarHead {
    pub mime: AvatarMIME,
    pub size: AvatarBytesSize,
}

/// An avatar, in specifications.
pub ghost struct AvatarView {
    pub data: Seq<u8>,
    pub mime: Seq<char>,
    pub size: AvatarBytesSize,
}

impl View for Avatar {
    type V = AvatarView;

    open spec fn view(&self) -> AvatarView {
        AvatarView { data: self.data@, mime: self.mime@, size: self.size }
    }
}

/// The view of an avatar that may be missing.
pub open spec fn avatar_view(avatar: Option<Avatar>) -> Option<AvatarView> {
    match avatar {
        Some(avatar) => Some(avatar@),
        None => None,
    }
}

/// The avatar that a stored record holds: one where both the data and the
/// media type are there.
pub open spec fn stored_avatar(stored: AvatarMaybe) -> Option<AvatarView> {
    match (stored.mime, stored.data) {
        (Some(mime), Some(data)) => Some(
            AvatarView { data: data@, mime: mime@, size: stored.size },
        ),
        _ => None,
    }
}

/// What a cached avatar is worth at the time `now` for avatars of
/// `size_full` pixels.
pub open spec fn cache_status(
    avatar_cache: Option<CachedAvatar>,
    size_full: AvatarPixelsSize,
    now: i64,
) -> CacheStatus {
    match avatar_cache {
        Some(cached) => {
            if cached.pixels_size != size_full {
                CacheStatus::Invalid
            } else if cached.refresh_at is Some && now >= cached.refresh_at->0 {
                CacheStatus::Stale
            } else {
                CacheStatus::Valid
            }
        },
        None => CacheStatus::Missing,
    }
}

/// The address at which the avatar for an email hash is fetched.
pub open spec fn gravatar_address(email_hash: Seq<char>, size_full: AvatarPixelsSize) -> Seq<
    char,
> {
    GRAVATAR_ENDPOINT@ + "/avatar/"@ + lowercase(email_hash) + "?s="@ + decimal(size_full as nat)
        + "&r=g&d=404"@
}

/// The size in bytes that a `Content-Length` header announces, or zero
/// where it announces none that can be read.
pub open spec fn announced_length(content_length: Seq<char>) -> nat {
    match parsed_unsigned(content_length, u32::MAX as nat) {
        Some(length) => length as nat,
        None => 0,
    }
}

/// Whether the headers announce a picture that can be kept: a media type
/// of pictures and a size of at least one byte that an avatar can have.
pub open spec fn is_acceptable_head(content_type: Seq<char>, content_length: Seq<char>) -> bool {
    &&& IMAGE_MIME_PREFIX@.is_prefix_of(content_type)
    &&& 0 < announced_length(content_length) <= AvatarBytesSize::MAX
}

/// The side in pixels of the avatars that are fetched: the side shown
/// times the scale factor.
pub fn avatar_size_full(config: &ConfigAvatar) -> (size_full: AvatarPixelsSize)
    requires
        config.size_pixels * config.scale_factor <= AvatarPixelsSize::MAX,
    ensures
        size_full == config.size_pixels * config.scale_factor,
{
    config.size_pixels * (config.scale_factor as AvatarPixelsSize)
}

/// The bytes of the fallback picture.
pub fn fallback_data() -> (data: AvatarData)
    ensures
        data@ == FALLBACK_SVG.spec_bytes(),
{
    FALLBACK_SVG.as_bytes_vec()
}

/// Judges what was found in the cache for an author. A record made for
/// another size is invalid and its avatar is not used; one whose refresh
/// time has come is stale; any other is valid. A record without refresh
/// time is valid.
pub fn pull_cache(avatar_cache: Option<CachedAvatar>, size_full: AvatarPixelsSize, now: i64) -> (pulled:
    (Option<Avatar>, CacheStatus))
    ensures
        pulled.1 == cache_status(avatar_cache, size_full, now),
        avatar_view(pulled.0) == match avatar_cache {
            Some(cached) => if cached.pixels_size != size_full {
                None
            } else {
                stored_avatar(cached.avatar)
            },
            None => None,
        },
{
    match avatar_cache {
        Some(cached) => {
            let CachedAvatar { avatar: avatar_maybe, pixels_size, refresh_at } = cached;
            let AvatarMaybe { data, mime, size } = avatar_maybe;
            let avatar = match (mime, data) {
                (Some(mime), Some(data)) => Some(Avatar { mime, data, size }),
                _ => None,
            };
            if pixels_size != size_full {
                return (None, CacheStatus::Invalid);
            }
            match refresh_at {
                Some(refresh_at) => {
                    if now >= refresh_at {
                        return (avatar, CacheStatus::Stale);
                    }
                },
                None => {},
            }
            (avatar, CacheStatus::Valid)
        },
        None => (None, CacheStatus::Missing),
    }
}

/// The address at which the avatar for an email hash is fetched. The
/// service answers with status 404 where there is none.
pub fn gravatar_url(email_hash: &str, size_full: AvatarPixelsSize) -> (url: String)
    ensures
        url@ == gravatar_address(email_hash@, size_full),
{
    let gravatar_hash = to_lowercase(email_hash);
    let size = decimal_string(size_full as u64);
    let mut url = String::from_str(GRAVATAR_ENDPOINT);
    url.append("/avatar/");
    url.append(gravatar_hash.as_str());
    url.append("?s=");
    url.append(size.as_str());
    url.append("&r=g&d=404");
    assert(url@ =~= gravatar_address(email_hash@, size_full));
    url
}

/// Reads the status and the headers of the answer of the avatar service.
/// Status 200 with acceptable headers announces an avatar; status 404
/// says that the author has none, which is no error; anything else is an
/// error.
pub fn read_avatar_head(status: u16, content_type: Option<&str>, content_length: Option<&str>) -> (head:
    Result<Option<AvatarHead>, ()>)
    ensures
        head is Ok == (status == STATUS_NOT_FOUND || (status == STATUS_OK && content_type is Some
            && content_length is Some && is_acceptable_head(
            content_type->0@,
            content_length->0@,
        ))),
        head is Ok ==> (head->Ok_0 is Some == (status == STATUS_OK)),
        head is Ok && head->Ok_0 is Some ==> head->Ok_0->0.mime@ == content_type->0@
            && head->Ok_0->0.size == announced_length(content_length->0@),
{
    if status == STATUS_OK {
        match (content_type, content_length) {
            (Some(content_type), Some(content_length)) => {
                let length_chars = chars_of(content_length);
                let length = match parse_unsigned(length_chars.as_slice(), u32::MAX as u64) {
                    Some(length) => length,
                    None => 0,
                };
                let type_chars = chars_of(content_type);
                let prefix_chars = chars_of(IMAGE_MIME_PREFIX);
                if !starts_with(type_chars.as_slice(), prefix_chars.as_slice()) {
                    return Err(());
                }
                if length == 0 || length > AvatarBytesSize::MAX as u64 {
                    return Err(());
                }
                Ok(
                    Some(
                        AvatarHead {
                            mime: String::from_str(content_type),
                            size: length as AvatarBytesSize,
                        },
                    ),
                )
            },
            _ => Err(()),
        }
    } else if status == STATUS_NOT_FOUND {
        Ok(None)
    } else {
        Err(())
    }
}

/// Makes the avatar from its announced head and the bytes that were
/// received, which must be as many as were announced.
pub fn accept_avatar_body(head: AvatarHead, data: AvatarData) -> (avatar: Result<Avatar, ()>)
    ensures
        avatar is Ok == (data@.len() == head.size),
        avatar is Ok ==> avatar->Ok_0@ == (AvatarView {
            data: data@,
            mime: head.mime@,
            size: head.size,
        }),
{
    if data.len() != head.size as usize {
        return Err(());
    }
    Ok(Avatar { data, mime: head.mime, size: head.size })
}

/// Chooses the avatar to store and serve once the service was asked, and
/// the seconds until it is asked again: what the service gave, be it an
/// avatar or none, for the long delay; or, where asking failed, what the
/// cache had, for the short delay.
pub fn select_refreshed(avatar_cache: Option<Avatar>, pulled: Result<Option<Avatar>, ()>) -> (selected:
    (Option<Avatar>, u64))
    ensures
        selected.0 == match pulled {
            Ok(avatar) => avatar,
            Err(_) => avatar_cache,
        },
        selected.1 == if pulled is Ok {
            REFRESH_AFTER_SUCCESS
        } else {
            REFRESH_AFTER_ERRORED
        },
{
    match pulled {
        Ok(avatar) => (avatar, REFRESH_AFTER_SUCCESS),
        Err(_) => (avatar_cache, REFRESH_AFTER_ERRORED),
    }
}

} // verus!
