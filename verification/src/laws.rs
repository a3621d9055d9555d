//! What holds of the library as a whole.
//!
//! Each proof function here states one law over the same models that the
//! contracts of the operations use.

pub mod display;
pub mod exchange;
pub mod trust;
pub mod install;
pub mod lifecycle;
pub mod number;
pub mod path;
pub mod remote;
pub mod replies;
pub mod status;
pub mod text;
pub mod words;
