//! The emails that tell administrators of a new comment and authors of a
//! reply. The emails are written here; sending them is left to the caller.

use vstd::prelude::*;
use vstd::string::StringExecFns;
use super::authentication::{
    admin_signature, check_email_hash_is_admin, generate_admin_comment_signature,
};
use super::status::Status;
use crate::config::config::ConfigSite;

verus! {

/// An email that is to be sent.
pub struct OutgoingEmail {
    pub to: String,
    pub subject: String,
    pub body: String,
}

/// An email that is to be sent, in specifications.
pub ghost struct OutgoingEmailView {
    pub to: Seq<char>,
    pub subject: Seq<char>,
    pub body: Seq<char>,
}

impl View for OutgoingEmail {
    type V = OutgoingEmailView;

    open spec fn view(&self) -> OutgoingEmailView {
        OutgoingEmailView { to: self.to@, subject: self.subject@, body: self.body@ }
    }
}

/// What is known of the author of a comment.
pub struct CommentAuthor {
    pub email_hash: String,
    /// The address, where the author asked to be told of replies.
    pub email: Option<String>,
    pub name: String,
}

/// The page that a comment stands on, and its text.
pub struct CommentPageText {
    pub page: String,
    pub text: String,
}

/// The action that the links sent to administrators are signed for.
pub const MODERATE_ACTION: &'static str = "moderate";

/// The address under which a comment is moderated.
pub open spec fn moderation_address(comments_url: Seq<char>, comment_id: Seq<char>) -> Seq<char> {
    comments_url + "/api/admin/moderate/"@ + comment_id + "/"@
}

/// The lines that offer to approve or to reject a comment.
pub open spec fn moderation_links(moderation_url: Seq<char>, moderation_signature: Seq<char>) -> Seq<
    char,
> {
    "You can approve this comment:\n\n✅ "@ + moderation_url + "?signature="@
        + moderation_signature + "&action=approve\n\nOr reject it (this will remove the comment):\n\n❌ "@
        + moderation_url + "?signature="@ + moderation_signature + "&action=reject"@
}

/// The address at which a comment is shown on its page.
pub open spec fn comment_address(site_url: Seq<char>, page: Seq<char>, comment_id: Seq<char>) -> Seq<
    char,
> {
    site_url + page + "#comment-"@ + comment_id
}

/// The subject of the email on a new comment.
pub open spec fn new_comment_subject(site_name: Seq<char>) -> Seq<char> {
    "💬 New comment on "@ + site_name
}

/// The body of the email on a new comment.
pub open spec fn new_comment_body(
    site_url: Seq<char>,
    comments_url: Seq<char>,
    comment_id: Seq<char>,
    page: Seq<char>,
    name: Seq<char>,
    email: Seq<char>,
    text: Seq<char>,
    moderation_signature: Seq<char>,
) -> Seq<char> {
    name + " ("@ + email + ") said:\n\n"@ + text + "\n\n"@ + comment_address(
        site_url,
        page,
        comment_id,
    ) + "\n\n—\n\n"@ + moderation_links(
        moderation_address(comments_url, comment_id),
        moderation_signature,
    )
}

/// The subject of the email on a reply.
pub open spec fn reply_subject(site_name: Seq<char>) -> Seq<char> {
    "↪️ New reply on "@ + site_name
}

/// The body of the email on a reply.
pub open spec fn reply_body(
    site_url: Seq<char>,
    reply_comment_id: Seq<char>,
    page: Seq<char>,
    reply_name: Seq<char>,
    reply_text: Seq<char>,
) -> Seq<char> {
    reply_name + " replied to your comment and said:\n\n"@ + reply_text + "\n\n"@
        + comment_address(site_url, page, reply_comment_id)
}

/// The email on a new comment, for one administrator.
pub open spec fn new_comment_email(
    secret_key: Seq<char>,
    site: ConfigSite,
    to: Seq<char>,
    comment_id: Seq<char>,
    page: Seq<char>,
    name: Seq<char>,
    email: Seq<char>,
    text: Seq<char>,
) -> OutgoingEmailView {
    OutgoingEmailView {
        to,
        subject: new_comment_subject(site.name@),
        body: new_comment_body(
            site.site_url@,
            site.comments_url@,
            comment_id,
            page,
            name,
            email,
            text,
            admin_signature(secret_key, MODERATE_ACTION@, comment_id),
        ),
    }
}

/// The email on a reply, for the author of the comment replied to.
pub open spec fn reply_email(
    site: ConfigSite,
    reply_comment_id: Seq<char>,
    parent_email: Seq<char>,
    page: Seq<char>,
    reply_name: Seq<char>,
    reply_text: Seq<char>,
) -> OutgoingEmailView {
    OutgoingEmailView {
        to: parent_email,
        subject: reply_subject(site.name@),
        body: reply_body(site.site_url@, reply_comment_id, page, reply_name, reply_text),
    }
}

/// Writes the emails that tell the administrators of a new comment: one
/// for each of them, with signed links to approve or to reject it.
pub fn alert_of_new_comment_to_admins(
    secret_key: &str,
    site: &ConfigSite,
    comment_id: &str,
    page: &str,
    name: &str,
    email: &str,
    text: &str,
) -> (emails: Vec<OutgoingEmail>)
    ensures
        emails@.len() == site.admin_emails@.len(),
        forall|i: int|
            0 <= i < emails@.len() ==> (#[trigger] emails@[i])@ == new_comment_email(
                secret_key@,
                *site,
                site.admin_emails@[i]@,
                comment_id@,
                page@,
                name@,
                email@,
                text@,
            ),
{
    let mut moderation_url = site.comments_url.clone();
    moderation_url.append("/api/admin/moderate/");
    moderation_url.append(comment_id);
    moderation_url.append("/");
    let moderation_signature = match generate_admin_comment_signature(
        secret_key,
        MODERATE_ACTION,
        comment_id,
    ) {
        Ok(moderation_signature) => moderation_signature,
        Err(_) => String::new(),
    };
    let mut moderation_links = String::from_str("You can approve this comment:\n\n✅ ");
    moderation_links.append(moderation_url.as_str());
    moderation_links.append("?signature=");
    moderation_links.append(moderation_signature.as_str());
    moderation_links.append(
        "&action=approve\n\nOr reject it (this will remove the comment):\n\n❌ ",
    );
    moderation_links.append(moderation_url.as_str());
    moderation_links.append("?signature=");
    moderation_links.append(moderation_signature.as_str());
    moderation_links.append("&action=reject");
    let mut email_subject = String::from_str("💬 New comment on ");
    email_subject.append(site.name.as_str());
    let mut email_body = String::from_str(name);
    email_body.append(" (");
    email_body.append(email);
    email_body.append(") said:\n\n");
    email_body.append(text);
    email_body.append("\n\n");
    email_body.append(site.site_url.as_str());
    email_body.append(page);
    email_body.append("#comment-");
    email_body.append(comment_id);
    email_body.append("\n\n—\n\n");
    email_body.append(moderation_links.as_str());
    assert(moderation_url@ =~= moderation_address(site.comments_url@, comment_id@));
    assert(moderation_links@ =~= self::moderation_links(
        moderation_url@,
        moderation_signature@,
    ));
    assert(email_subject@ =~= new_comment_subject(site.name@));
    assert(email_body@ =~= new_comment_body(
        site.site_url@,
        site.comments_url@,
        comment_id@,
        page@,
        name@,
        email@,
        text@,
        moderation_signature@,
    ));
    let mut emails: Vec<OutgoingEmail> = Vec::new();
    let mut i: usize = 0;
    while i < site.admin_emails.len()
        invariant
            0 <= i <= site.admin_emails@.len(),
            emails@.len() == i,
            email_subject@ == new_comment_subject(site.name@),
            email_body@ == new_comment_body(
                site.site_url@,
                site.comments_url@,
                comment_id@,
                page@,
                name@,
                email@,
                text@,
                admin_signature(secret_key@, MODERATE_ACTION@, comment_id@),
            ),
            forall|j: int|
                0 <= j < i ==> (#[trigger] emails@[j])@ == new_comment_email(
                    secret_key@,
                    *site,
                    site.admin_emails@[j]@,
                    comment_id@,
                    page@,
                    name@,
                    email@,
                    text@,
                ),
        decreases site.admin_emails@.len() - i,
    {
        emails.push(
            OutgoingEmail {
                to: site.admin_emails[i].clone(),
                subject: email_subject.clone(),
                body: email_body.clone(),
            },
        );
        i = i + 1;
    }
    emails
}

/// Writes the email that tells the author of a comment of a reply to it.
pub fn alert_of_reply_comment_from_admin(
    site: &ConfigSite,
    reply_comment_id: &str,
    parent_email: &str,
    page: &str,
    reply_name: &str,
    reply_text: &str,
) -> (email: OutgoingEmail)
    ensures
        email@ == reply_email(
            *site,
            reply_comment_id@,
            parent_email@,
            page@,
            reply_name@,
            reply_text@,
        ),
{
    let mut email_subject = String::from_str("↪️ New reply on ");
    email_subject.append(site.name.as_str());
    let mut email_body = String::from_str(reply_name);
    email_body.append(" replied to your comment and said:\n\n");
    email_body.append(reply_text);
    email_body.append("\n\n");
    email_body.append(site.site_url.as_str());
    email_body.append(page);
    email_body.append("#comment-");
    email_body.append(reply_comment_id);
    assert(email_subject@ =~= reply_subject(site.name@));
    assert(email_body@ =~= reply_body(
        site.site_url@,
        reply_comment_id@,
        page@,
        reply_name@,
        reply_text@,
    ));
    OutgoingEmail { to: String::from_str(parent_email), subject: email_subject, body: email_body }
}

/// Whether the author of a comment is told of a reply: what is needed is
/// known of both comments, the author of the comment replied to left an
/// address, and the reply is from an administrator.
pub open spec fn is_reply_alert_due(
    admin_hashes: Seq<String>,
    parent_author: Result<Option<CommentAuthor>, Status>,
    reply_author: Result<Option<CommentAuthor>, Status>,
    reply_page_and_text: Result<Option<CommentPageText>, Status>,
) -> bool {
    &&& parent_author is Ok && parent_author->Ok_0 is Some
    &&& reply_author is Ok && reply_author->Ok_0 is Some
    &&& reply_page_and_text is Ok && reply_page_and_text->Ok_0 is Some
    &&& parent_author->Ok_0->0.email is Some
    &&& exists|i: int|
        0 <= i < admin_hashes.len() && (#[trigger] admin_hashes[i])@
            == reply_author->Ok_0->0.email_hash@
}

/// Writes the email that tells the author of a comment of a reply to it,
/// where one is due, from what was found of the two comments.
pub fn alert_of_reply_comment_from_admin_if_needed(
    site: &ConfigSite,
    admin_hashes: &Vec<String>,
    reply_comment_id: &str,
    parent_author: Result<Option<CommentAuthor>, Status>,
    reply_author: Result<Option<CommentAuthor>, Status>,
    reply_page_and_text: Result<Option<CommentPageText>, Status>,
) -> (alert: Option<OutgoingEmail>)
    ensures
        alert is Some == is_reply_alert_due(
            admin_hashes@,
            parent_author,
            reply_author,
            reply_page_and_text,
        ),
        alert is Some ==> alert->0@ == reply_email(
            *site,
            reply_comment_id@,
            parent_author->Ok_0->0.email->0@,
            reply_page_and_text->Ok_0->0.page@,
            reply_author->Ok_0->0.name@,
            reply_page_and_text->Ok_0->0.text@,
        ),
{
    match (parent_author, reply_author, reply_page_and_text) {
        (Ok(Some(parent_author)), Ok(Some(reply_author)), Ok(Some(reply_page_and_text))) => {
            match parent_author.email {
                Some(parent_email) => {
                    // Only replies from administrators are told of.
                    if check_email_hash_is_admin(admin_hashes, &reply_author.email_hash) {
                        Some(
                            alert_of_reply_comment_from_admin(
                                site,
                                reply_comment_id,
                                parent_email.as_str(),
                                reply_page_and_text.page.as_str(),
                                reply_author.name.as_str(),
                                reply_page_and_text.text.as_str(),
                            ),
                        )
                    } else {
                        None
                    }
                },
                None => None,
            }
        },
        _ => None,
    }
}

} // verus!
