//! What the service answers to its callers, as far as it can be decided
//! without the database: whether a comment may be taken, the challenge
//! that is handed out, and what a moderation link does.

use vstd::prelude::*;
use vstd::string::StringExecFns;
use vstd::string::StrSliceExecFns;
use crate::config::config::ConfigAntispam;
use crate::helpers::authentication::{
    attestation, generate_challenge_attestation, is_admin_signature_of, is_attestation_of,
    verify_admin_comment_signature, verify_challenge_attestation,
};
use crate::helpers::mint;
use crate::helpers::normalize::is_page;
use crate::helpers::notifier::MODERATE_ACTION;
use crate::helpers::status::Status;
use crate::helpers::text::{same_text, texts_of};

verus! {

/// A comment as it is handed in.
pub struct CommentData {
    pub comment_id: String,
    pub attestation: String,
    pub name: String,
    pub email: String,
    pub text: String,
    pub mints: Vec<String>,
    pub reply_to: Option<String>,
}

/// The frame of every answer.
pub struct BaseResponse<D> {
    pub reason: &'static str,
    pub data: D,
}

/// The challenge that is handed out for a future comment.
pub struct ChallengeResponseData {
    pub comment_id: String,
    pub attestation: String,
    pub problems: Vec<String>,
    pub difficulty_expect: mint::MintDifficulty,
    pub solutions_expect: mint::MintSolutions,
}

/// The parts of a comment that are stored, with the space around them
/// taken off.
pub struct CleanComment {
    pub email: String,
    pub name: String,
    pub text: String,
}

/// Number of characters of a comment identifier.
pub const COMMENT_ID_LENGTH: usize = 36;

/// Number of characters of an attestation.
pub const ATTESTATION_LENGTH: usize = 64;

/// Whether `email` is an email address in the eyes of
/// `ValidateEmail::validate_email` of the `validator` crate.
pub uninterp spec fn is_email(email: Seq<char>) -> bool;

/// `text` without the white space at its start and at its end, as
/// `str::trim` of std gives it.
pub uninterp spec fn trimmed(text: Seq<char>) -> Seq<char>;

/// Calls `ValidateEmail::validate_email`. The answer is claimed to depend
/// on the text alone.
#[verifier::external_body]
fn validate_email(email: &str) -> (valid: bool)
    ensures
        valid == is_email(email@),
{
    validator::ValidateEmail::validate_email(&email)
}

/// Calls `str::trim`.
#[verifier::external_body]
fn trim<'a>(text: &'a str) -> (inner: &'a str)
    ensures
        inner@ == trimmed(text@),
{
    text.trim()
}

/// Whether a comment has the form that is asked for: an identifier and an
/// attestation of the right lengths, a name and a text of at least one
/// character, and an email address.
pub open spec fn is_well_formed(comment: CommentData) -> bool {
    &&& comment.comment_id@.len() == COMMENT_ID_LENGTH
    &&& comment.attestation@.len() == ATTESTATION_LENGTH
    &&& comment.name@.len() >= 1
    &&& is_email(comment.email@)
    &&& comment.text@.len() >= 1
}

/// Whether something is left of the name, the email address and the text
/// of a comment once the space around them is taken off.
pub open spec fn has_content(comment: CommentData) -> bool {
    trimmed(comment.email@).len() > 0 && trimmed(comment.name@).len() > 0 && trimmed(
        comment.text@,
    ).len() > 0
}

/// Why a comment is turned down, if it is. The checks are made in this
/// order: its form, its content, its attestation for the page, and the
/// solutions to its challenge.
pub open spec fn comment_refusal(
    secret_key: Seq<char>,
    antispam: ConfigAntispam,
    now: mint::MintTimestamp,
    page: Seq<char>,
    comment: CommentData,
) -> Option<Status> {
    if !is_well_formed(comment) {
        Some(Status::UnprocessableEntity)
    } else if !has_content(comment) {
        Some(Status::BadRequest)
    } else if !is_attestation_of(secret_key, page, comment.comment_id@, comment.attestation@) {
        Some(Status::Unauthorized)
    } else if !mint::is_verified(
        secret_key,
        now,
        comment.comment_id@,
        texts_of(comment.mints@),
        antispam.solutions_require,
    ) {
        Some(Status::PaymentRequired)
    } else {
        None
    }
}

/// The answer to a caller that asks for nothing.
pub fn get_base() -> (response: Result<BaseResponse<()>, Status>)
    ensures
        response is Ok,
        response->Ok_0.reason@ == "welcome"@,
{
    Ok(BaseResponse { reason: "welcome", data: () })
}

/// Whether a comment has the form that is asked for.
pub fn validate_comment(comment: &CommentData) -> (valid: bool)
    ensures
        valid == is_well_formed(*comment),
{
    comment.comment_id.as_str().unicode_len() == COMMENT_ID_LENGTH
        && comment.attestation.as_str().unicode_len() == ATTESTATION_LENGTH
        && comment.name.as_str().unicode_len() >= 1 && validate_email(comment.email.as_str())
        && comment.text.as_str().unicode_len() >= 1
}

/// Decides whether a comment handed in for `page` at the time `now` is
/// taken. A comment that is taken comes back with the space around its
/// name, email address and text taken off; it is then for the caller to
/// store it.
pub fn post_comment(
    secret_key: &str,
    antispam: &ConfigAntispam,
    now: mint::MintTimestamp,
    page: &str,
    comment: &CommentData,
) -> (taken: Result<CleanComment, Status>)
    ensures
        match comment_refusal(secret_key@, *antispam, now, page@, *comment) {
            Some(status) => taken == Err::<CleanComment, Status>(status),
            None => taken is Ok && taken->Ok_0.email@ == trimmed(comment.email@)
                && taken->Ok_0.name@ == trimmed(comment.name@) && taken->Ok_0.text@ == trimmed(
                comment.text@,
            ),
        },
{
    if !validate_comment(comment) {
        return Err(Status::UnprocessableEntity);
    }
    let comment_id = comment.comment_id.as_str();
    let attestation = comment.attestation.as_str();
    let email = trim(comment.email.as_str());
    let name = trim(comment.name.as_str());
    let text = trim(comment.text.as_str());
    if email.unicode_len() == 0 || name.unicode_len() == 0 || text.unicode_len() == 0 {
        return Err(Status::BadRequest);
    }
    if !verify_challenge_attestation(secret_key, page, comment_id, attestation) {
        return Err(Status::Unauthorized);
    }
    let is_mint_verified = match mint::verify(
        secret_key,
        antispam,
        now,
        comment_id,
        comment.mints.as_slice(),
    ) {
        Ok(is_mint_verified) => is_mint_verified,
        Err(_) => {
            return Err(Status::InternalServerError);
        },
    };
    if !is_mint_verified {
        return Err(Status::PaymentRequired);
    }
    Ok(
        CleanComment {
            email: String::from_str(email),
            name: String::from_str(name),
            text: String::from_str(text),
        },
    )
}

/// Why no challenge is made, if none is: the address names no page, or
/// the problems would expire beyond what a timestamp can hold.
pub open spec fn challenge_refusal(now: mint::MintTimestamp, page: Seq<char>) -> Option<Status> {
    if !is_page(page) {
        Some(Status::BadRequest)
    } else if now + mint::VALIDITY > mint::MintTimestamp::MAX {
        Some(Status::InternalServerError)
    } else {
        None
    }
}

/// Makes the challenge for a future comment on `page`: the identifier that
/// the comment will have, attested for the page, and the problems to
/// solve.
pub fn post_challenge(
    secret_key: &str,
    antispam: &ConfigAntispam,
    now: mint::MintTimestamp,
    page: &str,
    comment_id: String,
) -> (response: Result<BaseResponse<ChallengeResponseData>, Status>)
    ensures
        response is Ok == (challenge_refusal(now, page@) is None),
        response is Err ==> challenge_refusal(now, page@) == Some(response->Err_0),
        response is Ok ==> {
            let data = response->Ok_0.data;
            &&& response->Ok_0.reason@ == "generated"@
            &&& data.comment_id == comment_id
            &&& data.attestation@ == attestation(secret_key@, page@, comment_id@)
            &&& data.problems@.len() == antispam.problems_parallel
            &&& forall|i: int|
                0 <= i < data.problems@.len() ==> (#[trigger] data.problems@[i])@ == mint::problem(
                    secret_key@,
                    antispam.difficulty,
                    i as mint::MintIndex,
                    comment_id@,
                    (now + mint::VALIDITY) as mint::MintTimestamp,
                )
            &&& data.difficulty_expect == antispam.difficulty
            &&& data.solutions_expect == antispam.solutions_require
        },
{
    let attestation = match generate_challenge_attestation(secret_key, page, comment_id.as_str()) {
        Ok(attestation) => attestation,
        Err(status) => {
            return Err(status);
        },
    };
    match mint::challenge(secret_key, antispam, now, comment_id.as_str()) {
        Ok((problems, difficulty_expect, solutions_expect)) => Ok(
            BaseResponse {
                reason: "generated",
                data: ChallengeResponseData {
                    comment_id,
                    attestation,
                    problems,
                    difficulty_expect,
                    solutions_expect,
                },
            },
        ),
        Err(_) => Err(Status::InternalServerError),
    }
}

/// What a moderation link does to a comment.
#[derive(Clone, Copy, Debug, PartialEq, Eq, Structural)]
pub enum Moderation {
    /// Nothing: the comment was approved before.
    AlreadyApproved,
    /// The comment is marked as approved.
    Approve,
    /// The comment is removed.
    Reject,
    /// Nothing: the comment is not there any more.
    Missing,
}

impl Moderation {
    /// What the administrator is told.
    pub fn message(&self) -> (message: &'static str)
        ensures
            message@ == (match *self {
                Moderation::AlreadyApproved => "Comment has already been approved."@,
                Moderation::Approve => "Comment approved."@,
                Moderation::Reject => "Comment rejected."@,
                Moderation::Missing => "Comment does not exist anymore."@,
            }),
    {
        match self {
            Moderation::AlreadyApproved => "Comment has already been approved.",
            Moderation::Approve => "Comment approved.",
            Moderation::Reject => "Comment rejected.",
            Moderation::Missing => "Comment does not exist anymore.",
        }
    }
}

/// Checks the signature of a moderation link before anything else is
/// done: it must be the one that was signed for moderating the comment.
/// It holds for both actions and does not expire.
pub fn authorize_moderation(secret_key: &str, comment_id: &str, signature: &str) -> (authorized:
    Result<(), Status>)
    ensures
        authorized == if is_admin_signature_of(
            secret_key@,
            MODERATE_ACTION@,
            comment_id@,
            signature@,
        ) {
            Ok::<(), Status>(())
        } else {
            Err::<(), Status>(Status::Unauthorized)
        },
{
    if !verify_admin_comment_signature(secret_key, MODERATE_ACTION, comment_id, signature) {
        return Err(Status::Unauthorized);
    }
    Ok(())
}

/// What a moderation link with the given action does to a comment whose
/// state was looked up: `comment_status` is nothing where the comment is
/// not there, and else whether it is approved.
pub open spec fn moderation(comment_status: Option<bool>, action: Seq<char>) -> Result<
    Moderation,
    Status,
> {
    match comment_status {
        Some(approved) => if action == "approve"@ {
            if approved {
                Ok(Moderation::AlreadyApproved)
            } else {
                Ok(Moderation::Approve)
            }
        } else if action == "reject"@ {
            Ok(Moderation::Reject)
        } else {
            Err(Status::BadRequest)
        },
        None => Ok(Moderation::Missing),
    }
}

/// Decides what a moderation link does. Using a link again does no harm:
/// approving an approved comment and moderating a comment that is gone
/// change nothing.
pub fn get_admin_moderate_comment(comment_status: Option<bool>, action: &str) -> (step: Result<
    Moderation,
    Status,
>)
    ensures
        step == moderation(comment_status, action@),
{
    match comment_status {
        Some(approved) => {
            if same_text(action, "approve") {
                if approved {
                    Ok(Moderation::AlreadyApproved)
                } else {
                    Ok(Moderation::Approve)
                }
            } else if same_text(action, "reject") {
                Ok(Moderation::Reject)
            } else {
                Err(Status::BadRequest)
            }
        },
        None => Ok(Moderation::Missing),
    }
}

} // verus!
