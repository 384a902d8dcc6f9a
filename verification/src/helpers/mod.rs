pub mod authentication;
pub mod avatar;
pub mod checker;
pub mod digest;
pub mod formatter;
pub mod mint;
pub mod normalize;
pub mod notifier;
pub mod query;
pub mod status;
pub mod text;
pub mod time;
