use bandurria::config::config::ConfigAntispam;
use bandurria::helpers::authentication::{generate_admin_comment_signature, generate_challenge_attestation};
use bandurria::helpers::mint::make_problem;
use bandurria::helpers::status::Status;
use bandurria::routes::api::{
    authorize_moderation, get_admin_moderate_comment, get_base, post_challenge, post_comment,
    validate_comment, CommentData, Moderation,
};

const KEY: &str = "test-secret";
const COMMENT_ID: &str = "3f2b8c1e-7a4d-4e2a-9b1c-5d6e7f8a9b0c";
const ATTESTATION: &str = "33833adea88fa2ecdb695fe79412cb2c0f1e3f67b334a395986b8a8a8e55a40e";
const ISSUED_AT: u64 = 1700000000;

fn antispam() -> ConfigAntispam {
    ConfigAntispam {
        difficulty: 17,
        problems_parallel: 10,
        solutions_require: 6,
    }
}

fn solved_problems() -> Vec<String> {
    vec![
        "H:17:1700000300:3f2b8c1e-7a4d-4e2a-9b1c-5d6e7f8a9b0c/0:_-a3lHBByRBWdlWBbRGJ5DnSmKR-_5fz4Efx-6mvyro:SHA-256:186762".to_string(),
        "H:17:1700000300:3f2b8c1e-7a4d-4e2a-9b1c-5d6e7f8a9b0c/1:883zekZU8isU4IMsF-GRwQs-op5bsLxAxp_85rs8Kik:SHA-256:42573".to_string(),
        "H:17:1700000300:3f2b8c1e-7a4d-4e2a-9b1c-5d6e7f8a9b0c/2:HWAEjIr1F2QTDTYU0ZpnvUuBOq1DDTMvXILL1okuKuY:SHA-256:269232".to_string(),
        "H:17:1700000300:3f2b8c1e-7a4d-4e2a-9b1c-5d6e7f8a9b0c/3:F4-WJgVSpw0wjakfDQswYGHGDqP8UzHdQps2uEou3KM:SHA-256:347416".to_string(),
        "H:17:1700000300:3f2b8c1e-7a4d-4e2a-9b1c-5d6e7f8a9b0c/4:PkntsrCFaWOv1ER0gqo3aURtGHwpnAcgdaF7YU27BAo:SHA-256:15678".to_string(),
        "H:17:1700000300:3f2b8c1e-7a4d-4e2a-9b1c-5d6e7f8a9b0c/5:scGg8mzh6G6iW2MA2kW45m0RWMtRLk_c_o3LHXj8uI8:SHA-256:35359".to_string(),
    ]
}

fn comment() -> CommentData {
    CommentData {
        comment_id: COMMENT_ID.to_string(),
        attestation: ATTESTATION.to_string(),
        name: " John Doe ".to_string(),
        email: "john.doe@example.org".to_string(),
        text: "\n Hello, world! \n".to_string(),
        mints: solved_problems(),
        reply_to: None,
    }
}

fn refusal(comment: &CommentData, page: &str, now: u64) -> Option<Status> {
    post_comment(KEY, &antispam(), now, page, comment).err()
}

#[test]
fn the_attestation_of_the_tests_is_that_of_the_page() {
    assert_eq!(
        generate_challenge_attestation(KEY, "/blog/post/", COMMENT_ID).unwrap(),
        ATTESTATION
    );
}

#[test]
fn get_base_welcomes() {
    let response = get_base().unwrap();
    assert_eq!(response.reason, "welcome");
    assert_eq!(response.data, ());
}

#[test]
fn validate_comment_checks_the_form() {
    assert!(validate_comment(&comment()));
    let mut changed = comment();
    changed.comment_id.pop();
    assert!(!validate_comment(&changed));
    let mut changed = comment();
    changed.comment_id.push('0');
    assert!(!validate_comment(&changed));
    let mut changed = comment();
    changed.attestation.pop();
    assert!(!validate_comment(&changed));
    let mut changed = comment();
    changed.name = String::new();
    assert!(!validate_comment(&changed));
    let mut changed = comment();
    changed.text = String::new();
    assert!(!validate_comment(&changed));
    let mut changed = comment();
    changed.email = "john.doe".to_string();
    assert!(!validate_comment(&changed));
    let mut changed = comment();
    changed.email = String::new();
    assert!(!validate_comment(&changed));
}

#[test]
fn validate_comment_counts_characters() {
    let mut changed = comment();
    changed.comment_id = "é".repeat(36);
    assert!(validate_comment(&changed));
    changed.comment_id = "é".repeat(18);
    assert!(!validate_comment(&changed));
    let mut changed = comment();
    changed.name = " ".to_string();
    assert!(validate_comment(&changed));
}

#[test]
fn post_comment_takes_a_comment_with_attestation_and_solutions() {
    let taken = post_comment(KEY, &antispam(), ISSUED_AT, "/blog/post/", &comment())
        .ok()
        .unwrap();
    assert_eq!(taken.email, "john.doe@example.org");
    assert_eq!(taken.name, "John Doe");
    assert_eq!(taken.text, "Hello, world!");
}

#[test]
fn post_comment_takes_every_form_of_the_page() {
    assert_eq!(refusal(&comment(), "Blog//Post?x=1", ISSUED_AT), None);
}

#[test]
fn post_comment_turns_down_a_malformed_comment() {
    let mut changed = comment();
    changed.email = "nobody".to_string();
    assert_eq!(
        refusal(&changed, "/blog/post/", ISSUED_AT),
        Some(Status::UnprocessableEntity)
    );
    let mut changed = comment();
    changed.attestation = "00".to_string();
    assert_eq!(
        refusal(&changed, "/blog/post/", ISSUED_AT),
        Some(Status::UnprocessableEntity)
    );
}

#[test]
fn post_comment_turns_down_an_empty_comment() {
    let mut changed = comment();
    changed.text = " \n\t ".to_string();
    assert_eq!(refusal(&changed, "/blog/post/", ISSUED_AT), Some(Status::BadRequest));
    let mut changed = comment();
    changed.name = "  ".to_string();
    assert_eq!(refusal(&changed, "/blog/post/", ISSUED_AT), Some(Status::BadRequest));
}

#[test]
fn post_comment_turns_down_a_comment_without_attestation() {
    assert_eq!(
        refusal(&comment(), "/blog/other/", ISSUED_AT),
        Some(Status::Unauthorized)
    );
    let mut changed = comment();
    changed.attestation = "0".repeat(64);
    assert_eq!(
        refusal(&changed, "/blog/post/", ISSUED_AT),
        Some(Status::Unauthorized)
    );
    assert_eq!(
        post_comment("other-secret", &antispam(), ISSUED_AT, "/blog/post/", &comment()).err(),
        Some(Status::Unauthorized)
    );
}

#[test]
fn post_comment_turns_down_a_comment_without_enough_solutions() {
    let mut changed = comment();
    changed.mints.pop();
    assert_eq!(
        refusal(&changed, "/blog/post/", ISSUED_AT),
        Some(Status::PaymentRequired)
    );
    let mut changed = comment();
    changed.mints = Vec::new();
    assert_eq!(
        refusal(&changed, "/blog/post/", ISSUED_AT),
        Some(Status::PaymentRequired)
    );
    assert_eq!(
        refusal(&comment(), "/blog/post/", ISSUED_AT + 300),
        Some(Status::PaymentRequired)
    );
}

#[test]
fn post_comment_checks_the_form_first_and_the_solutions_last() {
    let mut changed = comment();
    changed.email = "nobody".to_string();
    changed.text = "  ".to_string();
    changed.mints = Vec::new();
    assert_eq!(
        refusal(&changed, "/blog/other/", ISSUED_AT),
        Some(Status::UnprocessableEntity)
    );
    let mut changed = comment();
    changed.text = "  ".to_string();
    changed.mints = Vec::new();
    assert_eq!(refusal(&changed, "/blog/other/", ISSUED_AT), Some(Status::BadRequest));
    let mut changed = comment();
    changed.mints = Vec::new();
    assert_eq!(refusal(&changed, "/blog/other/", ISSUED_AT), Some(Status::Unauthorized));
}

#[test]
fn post_challenge_hands_out_the_attestation_and_the_problems() {
    let response = post_challenge(
        KEY,
        &antispam(),
        ISSUED_AT,
        "/Blog/Post",
        COMMENT_ID.to_string(),
    )
    .ok()
    .unwrap();
    assert_eq!(response.reason, "generated");
    assert_eq!(response.data.comment_id, COMMENT_ID);
    assert_eq!(response.data.attestation, ATTESTATION);
    assert_eq!(response.data.difficulty_expect, 17);
    assert_eq!(response.data.solutions_expect, 6);
    assert_eq!(response.data.problems.len(), 10);
    assert_eq!(
        response.data.problems[4],
        make_problem(KEY, 17, 4, COMMENT_ID, ISSUED_AT + 300).unwrap()
    );
}

#[test]
fn post_challenge_turns_down_an_address_that_names_no_page() {
    for page in ["", "/", "//", "?a=1"] {
        let response = post_challenge(KEY, &antispam(), ISSUED_AT, page, COMMENT_ID.to_string());
        assert_eq!(response.err(), Some(Status::BadRequest));
    }
    let response = post_challenge(KEY, &antispam(), u64::MAX, "", COMMENT_ID.to_string());
    assert_eq!(response.err(), Some(Status::BadRequest));
}

#[test]
fn post_comment_turns_down_an_address_that_names_no_page() {
    for page in ["", "/", "?a=1"] {
        assert_eq!(refusal(&comment(), page, ISSUED_AT), Some(Status::Unauthorized));
    }
}

#[test]
fn post_challenge_fails_when_the_expiry_overflows() {
    let response = post_challenge(KEY, &antispam(), u64::MAX, "/blog/post/", COMMENT_ID.to_string());
    assert_eq!(response.err(), Some(Status::InternalServerError));
}

#[test]
fn a_moderation_link_is_signed_for_moderating_the_comment() {
    let signature = generate_admin_comment_signature(KEY, "moderate", "c1").unwrap();
    assert_eq!(
        signature,
        "37861744754a3a51689038b543602e8aead258e70fb1f364256c16b89f187c6f"
    );
    assert_eq!(authorize_moderation(KEY, "c1", &signature), Ok(()));
    assert_eq!(authorize_moderation(KEY, "c2", &signature), Err(Status::Unauthorized));
    assert_eq!(
        authorize_moderation("other-secret", "c1", &signature),
        Err(Status::Unauthorized)
    );
    assert_eq!(authorize_moderation(KEY, "c1", ""), Err(Status::Unauthorized));
    let approve = generate_admin_comment_signature(KEY, "approve", "c1").unwrap();
    assert_eq!(authorize_moderation(KEY, "c1", &approve), Err(Status::Unauthorized));
}

#[test]
fn a_moderation_link_approves_or_rejects() {
    assert_eq!(get_admin_moderate_comment(Some(false), "approve"), Ok(Moderation::Approve));
    assert_eq!(
        get_admin_moderate_comment(Some(true), "approve"),
        Ok(Moderation::AlreadyApproved)
    );
    assert_eq!(get_admin_moderate_comment(Some(false), "reject"), Ok(Moderation::Reject));
    assert_eq!(get_admin_moderate_comment(Some(true), "reject"), Ok(Moderation::Reject));
}

#[test]
fn a_moderation_link_for_a_comment_that_is_gone_does_nothing() {
    assert_eq!(get_admin_moderate_comment(None, "approve"), Ok(Moderation::Missing));
    assert_eq!(get_admin_moderate_comment(None, "reject"), Ok(Moderation::Missing));
    assert_eq!(get_admin_moderate_comment(None, "other"), Ok(Moderation::Missing));
}

#[test]
fn a_moderation_link_with_another_action_is_turned_down() {
    assert_eq!(get_admin_moderate_comment(Some(false), "other"), Err(Status::BadRequest));
    assert_eq!(get_admin_moderate_comment(Some(true), ""), Err(Status::BadRequest));
    assert_eq!(get_admin_moderate_comment(Some(true), "Approve"), Err(Status::BadRequest));
    assert_eq!(get_admin_moderate_comment(Some(true), "moderate"), Err(Status::BadRequest));
}

#[test]
fn moderation_messages() {
    assert_eq!(
        Moderation::AlreadyApproved.message(),
        "Comment has already been approved."
    );
    assert_eq!(Moderation::Approve.message(), "Comment approved.");
    assert_eq!(Moderation::Reject.message(), "Comment rejected.");
    assert_eq!(Moderation::Missing.message(), "Comment does not exist anymore.");
}
