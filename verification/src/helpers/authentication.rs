//! Signing with the shared secret, and the two capabilities built on it:
//! the attestation that binds a future comment to its page, and the
//! signature that lets an administrator moderate one comment.

use vstd::prelude::*;
use vstd::string::StringExecFns;
use vstd::utf8::encode_utf8;
use super::digest::{hex_chars, hex_encode, hmac_sha256, hmac_sha256_code, DIGEST_LENGTH};
use super::normalize::{email_hash, hashed_email, is_page, normalized_page, page_url};
use super::status::Status;
use super::text::same_text;

verus! {

/// The authentication code of `payload` under the secret key.
pub open spec fn signature_bytes(secret_key: Seq<char>, payload: Seq<char>) -> Seq<u8> {
    hmac_sha256(encode_utf8(secret_key), encode_utf8(payload))
}

/// The signature of `payload` under the secret key, as hexadecimal text.
pub open spec fn signature(secret_key: Seq<char>, payload: Seq<char>) -> Seq<char> {
    hex_chars(signature_bytes(secret_key, payload), false)
}

/// What is signed to attest that a comment belongs to a page: the canonical
/// page address, a separator, and the comment identifier.
pub open spec fn attestation_payload(page: Seq<char>, comment_id: Seq<char>) -> Seq<char> {
    normalized_page(page) + seq!['/'] + comment_id
}

/// What is signed to permit a moderation action on a comment.
pub open spec fn admin_payload(action: Seq<char>, comment_id: Seq<char>) -> Seq<char> {
    seq!['a', 'd', 'm', 'i', 'n', '/'] + action + seq!['/'] + comment_id
}

/// The attestation of a comment identifier for a page.
pub open spec fn attestation(secret_key: Seq<char>, page: Seq<char>, comment_id: Seq<char>) -> Seq<
    char,
> {
    signature(secret_key, attestation_payload(page, comment_id))
}

/// The signature that permits `action` on a comment.
pub open spec fn admin_signature(
    secret_key: Seq<char>,
    action: Seq<char>,
    comment_id: Seq<char>,
) -> Seq<char> {
    signature(secret_key, admin_payload(action, comment_id))
}

/// Whether `candidate` is accepted as the signature of `payload`: it is,
/// character for character, the signature computed anew.
pub open spec fn is_signature_of(
    secret_key: Seq<char>,
    payload: Seq<char>,
    candidate: Seq<char>,
) -> bool {
    candidate == signature(secret_key, payload)
}

/// Whether `candidate` is accepted as the attestation of a comment
/// identifier for a page. Nothing is accepted for an address that names no
/// page.
pub open spec fn is_attestation_of(
    secret_key: Seq<char>,
    page: Seq<char>,
    comment_id: Seq<char>,
    candidate: Seq<char>,
) -> bool {
    is_page(page) && candidate == attestation(secret_key, page, comment_id)
}

/// Whether `candidate` is accepted as the permission for `action` on a
/// comment.
pub open spec fn is_admin_signature_of(
    secret_key: Seq<char>,
    action: Seq<char>,
    comment_id: Seq<char>,
    candidate: Seq<char>,
) -> bool {
    candidate == admin_signature(secret_key, action, comment_id)
}

/// What signing gives is accepted on verification, and nothing else is:
/// for one key and payload there is one accepted signature. It has two
/// characters for each byte of the code.
pub proof fn lemma_sign_then_verify(secret_key: Seq<char>, payload: Seq<char>)
    ensures
        is_signature_of(secret_key, payload, signature(secret_key, payload)),
        forall|candidate: Seq<char>| #[trigger]
            is_signature_of(secret_key, payload, candidate) ==> candidate == signature(
                secret_key,
                payload,
            ),
        signature(secret_key, payload).len() == 2 * signature_bytes(secret_key, payload).len(),
{
}

/// The attestation made for a page and a comment identifier is accepted
/// for them, and for every address of a page with the same canonical
/// form. For an address that names no page none is made and none is
/// accepted.
pub proof fn lemma_attestation_round_trip(
    secret_key: Seq<char>,
    page: Seq<char>,
    other_page: Seq<char>,
    comment_id: Seq<char>,
)
    ensures
        is_page(page) ==> is_attestation_of(
            secret_key,
            page,
            comment_id,
            attestation(secret_key, page, comment_id),
        ),
        is_page(other_page) && normalized_page(other_page) == normalized_page(page)
            ==> is_attestation_of(
            secret_key,
            other_page,
            comment_id,
            attestation(secret_key, page, comment_id),
        ),
        !is_page(page) ==> forall|candidate: Seq<char>| !#[trigger]
            is_attestation_of(secret_key, page, comment_id, candidate),
{
}

/// The permission made for an action on a comment is accepted for them.
pub proof fn lemma_admin_signature_round_trip(
    secret_key: Seq<char>,
    action: Seq<char>,
    comment_id: Seq<char>,
)
    ensures
        is_admin_signature_of(
            secret_key,
            action,
            comment_id,
            admin_signature(secret_key, action, comment_id),
        ),
{
}

/// An attestation binds the page and the comment: where the comment
/// identifiers hold no `/`, two attestations are signatures of the same
/// text only if the pages have the same canonical form and the comment
/// identifiers are the same.
pub proof fn lemma_attestation_payload_binds(
    page: Seq<char>,
    comment_id: Seq<char>,
    other_page: Seq<char>,
    other_comment_id: Seq<char>,
)
    requires
        !comment_id.contains('/'),
        !other_comment_id.contains('/'),
        attestation_payload(page, comment_id) == attestation_payload(
            other_page,
            other_comment_id,
        ),
    ensures
        normalized_page(page) == normalized_page(other_page),
        comment_id == other_comment_id,
{
    super::text::lemma_joined_parts_by_end(
        normalized_page(page),
        comment_id,
        normalized_page(other_page),
        other_comment_id,
        '/',
    );
}

/// A permission binds the action and the comment: where the actions hold
/// no `/`, two permissions are signatures of the same text only if the
/// actions and the comment identifiers are the same.
pub proof fn lemma_admin_payload_binds(
    action: Seq<char>,
    comment_id: Seq<char>,
    other_action: Seq<char>,
    other_comment_id: Seq<char>,
)
    requires
        !action.contains('/'),
        !other_action.contains('/'),
        admin_payload(action, comment_id) == admin_payload(other_action, other_comment_id),
    ensures
        action == other_action,
        comment_id == other_comment_id,
{
    let lead = seq!['a', 'd', 'm', 'i', 'n', '/'];
    let rest = action + seq!['/'] + comment_id;
    let other_rest = other_action + seq!['/'] + other_comment_id;
    assert(admin_payload(action, comment_id) =~= lead + rest);
    assert(admin_payload(other_action, other_comment_id) =~= lead + other_rest);
    assert(rest =~= (lead + rest).skip(6));
    assert(other_rest =~= (lead + other_rest).skip(6));
    super::text::lemma_joined_parts_by_start(
        action,
        comment_id,
        other_action,
        other_comment_id,
        '/',
    );
}

/// The keys under which the administrators' email addresses are known.
pub fn admin_email_hashes(admin_emails: &Vec<String>) -> (hashes: Vec<String>)
    ensures
        hashes@.len() == admin_emails@.len(),
        forall|i: int|
            0 <= i < hashes@.len() ==> (#[trigger] hashes@[i])@ == hashed_email(admin_emails@[i]@),
{
    let mut hashes: Vec<String> = Vec::new();
    let mut i: usize = 0;
    while i < admin_emails.len()
        invariant
            0 <= i <= admin_emails@.len(),
            hashes@.len() == i,
            forall|j: int|
                0 <= j < i ==> (#[trigger] hashes@[j])@ == hashed_email(admin_emails@[j]@),
        decreases admin_emails@.len() - i,
    {
        hashes.push(email_hash(admin_emails[i].as_str()));
        i = i + 1;
    }
    hashes
}

/// Whether an email hash is that of an administrator.
pub fn check_email_hash_is_admin(admin_hashes: &Vec<String>, email_hash: &String) -> (is_admin:
    bool)
    ensures
        is_admin == exists|i: int|
            0 <= i < admin_hashes@.len() && (#[trigger] admin_hashes@[i])@ == email_hash@,
{
    let mut i: usize = 0;
    while i < admin_hashes.len()
        invariant
            0 <= i <= admin_hashes@.len(),
            forall|j: int| 0 <= j < i ==> (#[trigger] admin_hashes@[j])@ != email_hash@,
        decreases admin_hashes@.len() - i,
    {
        if admin_hashes[i] == *email_hash {
            return true;
        }
        i = i + 1;
    }
    false
}

/// Signs `payload` with the secret key and gives the raw code. The result
/// depends on the key and the payload alone, and signing never fails.
pub fn sign_payload_bytes(secret_key: &str, payload: &str) -> (code: Result<Vec<u8>, ()>)
    ensures
        code is Ok,
        code->Ok_0@ == signature_bytes(secret_key@, payload@),
        code->Ok_0@.len() == DIGEST_LENGTH,
{
    hmac_sha256_code(secret_key.as_bytes(), payload.as_bytes())
}

/// Signs `payload` with the secret key and gives the code as hexadecimal
/// text.
pub fn sign_payload(secret_key: &str, payload: &str) -> (signed: Result<String, ()>)
    ensures
        signed is Ok,
        signed->Ok_0@ == signature(secret_key@, payload@),
        signed->Ok_0@.len() == 2 * DIGEST_LENGTH,
{
    match sign_payload_bytes(secret_key, payload) {
        Ok(code) => Ok(hex_encode(code.as_slice())),
        Err(_) => Err(()),
    }
}

/// Whether `signature` is the signature of `payload` under the secret key.
/// The signature is computed anew and compared in full.
pub fn verify_payload(secret_key: &str, payload: &str, signature: &str) -> (valid: bool)
    ensures
        valid == is_signature_of(secret_key@, payload@, signature@),
{
    match sign_payload(secret_key, payload) {
        Ok(reference_signature) => same_text(reference_signature.as_str(), signature),
        Err(_) => false,
    }
}

/// Attests that `comment_id` was handed out for `page`. Fails for an
/// address that names no page, and for no other.
pub fn generate_challenge_attestation(secret_key: &str, page: &str, comment_id: &str) -> (signed:
    Result<String, Status>)
    ensures
        signed is Ok == is_page(page@),
        signed is Ok ==> signed->Ok_0@ == attestation(secret_key@, page@, comment_id@)
            && signed->Ok_0@.len() == 2 * DIGEST_LENGTH,
        signed is Err ==> signed->Err_0 == Status::BadRequest,
{
    let page_url = match page_url(page) {
        Ok(page_url) => page_url,
        Err(status) => {
            return Err(status);
        },
    };
    let mut payload = page_url;
    proof {
        reveal_strlit("/");
    }
    payload.append("/");
    payload.append(comment_id);
    assert(payload@ =~= attestation_payload(page@, comment_id@));
    match sign_payload(secret_key, payload.as_str()) {
        Ok(signed) => Ok(signed),
        Err(_) => Err(Status::UnprocessableEntity),
    }
}

/// Whether `attestation` is the attestation of `comment_id` for `page`.
pub fn verify_challenge_attestation(
    secret_key: &str,
    page: &str,
    comment_id: &str,
    attestation: &str,
) -> (valid: bool)
    ensures
        valid == is_attestation_of(secret_key@, page@, comment_id@, attestation@),
{
    match generate_challenge_attestation(secret_key, page, comment_id) {
        Ok(reference_attestation) => same_text(reference_attestation.as_str(), attestation),
        Err(_) => false,
    }
}

/// Signs the permission to carry out `action` on a comment.
pub fn generate_admin_comment_signature(secret_key: &str, action: &str, comment_id: &str) -> (signed:
    Result<String, Status>)
    ensures
        signed is Ok,
        signed->Ok_0@ == admin_signature(secret_key@, action@, comment_id@),
        signed->Ok_0@.len() == 2 * DIGEST_LENGTH,
{
    proof {
        reveal_strlit("admin/");
        reveal_strlit("/");
    }
    let mut payload = String::from_str("admin/");
    payload.append(action);
    payload.append("/");
    payload.append(comment_id);
    assert(payload@ =~= admin_payload(action@, comment_id@));
    match sign_payload(secret_key, payload.as_str()) {
        Ok(signed) => Ok(signed),
        Err(_) => Err(Status::UnprocessableEntity),
    }
}

/// Whether `signature` permits `action` on the comment.
pub fn verify_admin_comment_signature(
    secret_key: &str,
    action: &str,
    comment_id: &str,
    signature: &str,
) -> (valid: bool)
    ensures
        valid == is_admin_signature_of(secret_key@, action@, comment_id@, signature@),
{
    match generate_admin_comment_signature(secret_key, action, comment_id) {
        Ok(reference_signature) => same_text(reference_signature.as_str(), signature),
        Err(_) => false,
    }
}

} // verus!
