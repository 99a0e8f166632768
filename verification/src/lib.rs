//! Status-line formatter for an AI coding CLI: the data it reads, the
//! fixed-layout shared-memory cache it exchanges between processes, the
//! refresh decisions, and the layout of the rendered rows.

pub mod text;
pub mod types;
pub mod shared;
pub mod seqlock;
pub mod refresh;
pub mod render;
pub mod layout;
pub mod credential;
