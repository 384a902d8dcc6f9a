//! The settings of the service, as plain values. Reading them from a file
//! is left to the program that embeds the library.

use vstd::prelude::*;
use crate::helpers::mint::{MintDifficulty, MintSolutions};

verus! {

pub struct Config {
    pub server: ConfigServer,
    pub assets: ConfigAssets,
    pub database: ConfigDatabase,
    pub email: ConfigEmail,
    pub site: ConfigSite,
    pub security: ConfigSecurity,
    pub antispam: ConfigAntispam,
    pub avatar: ConfigAvatar,
    pub i18n: ConfigI18N,
}

pub struct ConfigServer {
    pub log_level: String,
    /// Address and port to listen on, in text form.
    pub inet: String,
}

pub struct ConfigAssets {
    /// Directory of the assets, in text form.
    pub path: String,
}

pub struct ConfigDatabase {
    pub mysql: ConfigDatabaseMySQL,
}

pub struct ConfigDatabaseMySQL {
    pub uri: String,
}

pub struct ConfigEmail {
    pub smtp: ConfigEmailSMTP,
    pub identity: ConfigEmailIdentity,
}

pub struct ConfigEmailSMTP {
    pub server_host: String,
    pub server_port: u16,
    pub server_starttls: bool,
    pub server_tls: bool,
    pub auth_user: Option<String>,
    pub auth_password: Option<String>,
}

pub struct ConfigEmailIdentity {
    pub from_name: String,
    pub from_email: String,
}

pub struct ConfigSite {
    pub name: String,
    pub site_url: String,
    pub comments_url: String,
    pub admin_emails: Vec<String>,
    pub show_imprint: bool,
}

pub struct ConfigSecurity {
    pub secret_key: String,
    pub check_pages_exist: bool,
}

pub struct ConfigAntispam {
    /// Leading zero bits that the digest of a solution must have.
    pub difficulty: MintDifficulty,
    /// Number of problems in a challenge.
    pub problems_parallel: MintSolutions,
    /// Number of problems that must be solved.
    pub solutions_require: MintSolutions,
}

pub struct ConfigAvatar {
    pub gravatar: bool,
    pub size_pixels: u16,
    pub scale_factor: u8,
}

pub struct ConfigI18N {
    pub field_write_your_comment: String,
    pub field_whats_your_name: String,
    pub field_whats_your_email: String,
    pub button_post_comment: String,
    pub button_reply: String,
    pub label_leave_a_comment: String,
    pub label_subscribe_replies: String,
    pub label_comments_by: String,
    pub banner_presubmit: String,
    pub banner_submitting: String,
    pub banner_submitted_important: String,
    pub banner_submitted_notice: String,
    pub banner_submiterror: String,
}

} // verus!
