//! Verified core of a Chaoxing course-platform client: response parsing,
//! request-parameter building, signing, session bookkeeping and the
//! course-brushing scheduler, each stated against a mathematical model.
pub mod text;
pub mod json;
pub mod client;
pub mod courses;
pub mod markup;
pub mod urlenc;
pub mod digest;
pub mod chapters;
pub mod clock;
pub mod pattern;
pub mod attachment;
pub mod document;
pub mod video;
pub mod runner;
pub mod brush;
pub mod batch;
pub mod crypto;
pub mod login;
pub mod html;
pub mod qr;
pub mod weblink;
pub mod exams;
pub mod homework;
pub mod sessions;
pub mod commands;
