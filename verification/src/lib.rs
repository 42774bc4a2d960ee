//! Verified core logic of the MortgageTrack payment-schedule tracker.

pub mod text;
pub mod next;
pub mod csrf;
pub mod dates;
pub mod error;
pub mod users;
pub mod view;
pub mod schedule;
pub mod export;
pub mod auth;
pub mod rate_limit;
pub mod sharing;
pub mod dashboard;
pub mod settings;
pub mod summary;
pub mod page;
pub mod templates;
pub mod admin;
pub mod mail;
pub mod database;
pub mod identity;
pub mod identicon;
pub mod passwords;
pub mod session;
