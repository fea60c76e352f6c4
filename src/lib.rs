//! Presentation core of a screenshot gallery: fitting previews into cards,
//! the texture cache, the hover tracker and the per-frame gallery plan.
pub mod layout;
pub mod messages;
pub mod shots;
pub mod cache;
pub mod hover;
pub mod decode;
pub mod gallery;
