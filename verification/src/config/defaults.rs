//! The values that settings take when the configuration leaves them out.

use vstd::prelude::*;
use vstd::string::StringExecFns;
use crate::helpers::digest::{hex_chars, hex_encode};
use crate::helpers::mint::{MintDifficulty, MintSolutions};

verus! {

/// Log level when the settings name none.
pub fn server_log_level() -> (value: String)
    ensures
        value@ == "error"@,
{
    String::from_str("error")
}

/// Address and port to listen on when the settings name none, in text form.
pub fn server_inet() -> (value: String)
    ensures
        value@ == "[::1]:8080"@,
{
    String::from_str("[::1]:8080")
}

/// Directory of the assets when the settings name none, in text form.
pub fn assets_path() -> (value: String)
    ensures
        value@ == "./res/assets/"@,
{
    String::from_str("./res/assets/")
}

/// Port of the SMTP server when the settings name none.
pub fn email_smtp_server_port() -> (value: u16)
    ensures
        value == 587,
{
    587
}

/// Whether STARTTLS is used when the settings do not say.
pub fn email_smtp_server_starttls() -> (value: bool)
    ensures
        value == true,
{
    true
}

/// Whether TLS is used from the start when the settings do not say.
pub fn email_smtp_server_tls() -> (value: bool)
    ensures
        value == false,
{
    false
}

/// Name that emails are sent under when the settings name none.
pub fn email_identity_from_name() -> (value: String)
    ensures
        value@ == "Comments"@,
{
    String::from_str("Comments")
}

/// Whether a page must be found over HTTP before it is recorded, when the settings do not say.
pub fn security_check_pages_exist() -> (value: bool)
    ensures
        value == false,
{
    false
}

/// Difficulty of a problem when the settings name none.
pub fn antispam_difficulty() -> (value: MintDifficulty)
    ensures
        value == 17,
{
    17
}

/// Number of problems in a challenge when the settings name none.
pub fn antispam_problems_parallel() -> (value: MintSolutions)
    ensures
        value == 10,
{
    10
}

/// Number of problems that must be solved when the settings name none.
pub fn antispam_solutions_require() -> (value: MintSolutions)
    ensures
        value == 6,
{
    6
}

/// Whether avatars are fetched when the settings do not say.
pub fn avatar_gravatar() -> (value: bool)
    ensures
        value == false,
{
    false
}

/// Side of an avatar in pixels when the settings name none.
pub fn avatar_size_pixels() -> (value: u16)
    ensures
        value == 20,
{
    20
}

/// Factor by which avatars are fetched larger than shown, when the settings name none.
pub fn avatar_scale_factor() -> (value: u8)
    ensures
        value == 3,
{
    3
}

/// Placeholder of the comment field.
pub fn i18n_field_write_your_comment() -> (value: String)
    ensures
        value@ == "Write your comment..."@,
{
    String::from_str("Write your comment...")
}

/// Placeholder of the name field.
pub fn i18n_field_whats_your_name() -> (value: String)
    ensures
        value@ == "What's your name?"@,
{
    String::from_str("What's your name?")
}

/// Placeholder of the email field.
pub fn i18n_field_whats_your_email() -> (value: String)
    ensures
        value@ == "Enter your email"@,
{
    String::from_str("Enter your email")
}

/// Label of the button that posts a comment.
pub fn i18n_button_post_comment() -> (value: String)
    ensures
        value@ == "Post comment"@,
{
    String::from_str("Post comment")
}

/// Label of the button that replies to a comment.
pub fn i18n_button_reply() -> (value: String)
    ensures
        value@ == "Reply"@,
{
    String::from_str("Reply")
}

/// Heading of the comment form.
pub fn i18n_label_leave_a_comment() -> (value: String)
    ensures
        value@ == "Leave a comment:"@,
{
    String::from_str("Leave a comment:")
}

/// Label of the box that asks for reply notices.
pub fn i18n_label_subscribe_replies() -> (value: String)
    ensures
        value@ == "I want to get notified over email when the site owner replies."@,
{
    String::from_str("I want to get notified over email when the site owner replies.")
}

/// Notice shown before a comment is sent.
pub fn i18n_banner_presubmit() -> (value: String)
    ensures
        value@ == "Your email is only stored if you opt-in to receive replies to your comment."@,
{
    String::from_str("Your email is only stored if you opt-in to receive replies to your comment.")
}

/// Notice shown while a comment is sent.
pub fn i18n_banner_submitting() -> (value: String)
    ensures
        value@ == "Sending and proving you are not a bot. This might take a few seconds..."@,
{
    String::from_str("Sending and proving you are not a bot. This might take a few seconds...")
}

/// First line of the notice shown once a comment was sent.
pub fn i18n_banner_submitted_important() -> (value: String)
    ensures
        value@ == "Your comment has been submitted."@,
{
    String::from_str("Your comment has been submitted.")
}

/// Second line of the notice shown once a comment was sent.
pub fn i18n_banner_submitted_notice() -> (value: String)
    ensures
        value@ == "It will appear here after it gets accepted by moderation."@,
{
    String::from_str("It will appear here after it gets accepted by moderation.")
}

/// Notice shown when a comment could not be sent.
pub fn i18n_banner_submiterror() -> (value: String)
    ensures
        value@ == "Your comment could not be submitted. Mind try again?"@,
{
    String::from_str("Your comment could not be submitted. Mind try again?")
}

/// Number of random bytes that a generated secret key is made from.
pub const GENERATED_KEY_BYTES: usize = 16;

/// Draws the bytes of a random version 4 UUID with `Uuid::new_v4` and
/// `as_bytes`. Each call gives other bytes, so only their number is stated.
#[verifier::external_body]
fn random_uuid_bytes() -> (bytes: Vec<u8>)
    ensures
        bytes@.len() == GENERATED_KEY_BYTES,
{
    uuid::Uuid::new_v4().as_bytes().to_vec()
}

/// The secret key that is made from the given random bytes: their
/// hexadecimal text.
pub fn secret_key_from_bytes(bytes: &[u8]) -> (key: String)
    ensures
        key@ == hex_chars(bytes@, false),
        key@.len() == 2 * bytes@.len(),
{
    hex_encode(bytes)
}

/// A fresh random secret key, for when the settings name none: signatures
/// made under it are void once the process ends.
pub fn security_secret_key() -> (key: String)
    ensures
        key@.len() == 2 * GENERATED_KEY_BYTES,
        exists|bytes: Seq<u8>|
            bytes.len() == GENERATED_KEY_BYTES && key@ == #[trigger] hex_chars(bytes, false),
{
    let bytes = random_uuid_bytes();
    secret_key_from_bytes(bytes.as_slice())
}

} // verus!
