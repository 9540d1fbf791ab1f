//! Verified core of a terminal client for a Moodle site.
pub mod text;
pub mod types;
pub mod api;
pub mod dom;
pub mod pattern;
pub mod unicode;
pub mod html2text;
pub mod assignment;
pub mod assign_flow;
pub mod quiz;
pub mod quiz_flow;
pub mod auth;
pub mod login_flow;
pub mod resource;
pub mod ui;
