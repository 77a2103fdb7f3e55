//! Verified core of a terminal client that searches anime and movie
//! catalogues, lists episodes and picks stream links.

pub mod text;
pub mod models;
pub mod bindings;
pub mod json;
pub mod cache;
pub mod request;
pub mod util;
pub mod ext;
pub mod animeku;
