//! Building blocks of the documentation pages: an HTML tree model and the
//! formatters that turn C++ entities into page fragments.

pub mod html;
pub mod seqs;
pub mod model;
pub mod types;
pub mod text;
pub mod format;
pub mod order;
pub mod output;
pub mod annotation;
pub mod autolink;
pub mod emoji;
pub mod logging;
