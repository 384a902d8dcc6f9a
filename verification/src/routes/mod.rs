pub mod api;
pub mod image;
pub mod page;
