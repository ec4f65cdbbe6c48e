//! Core of a terminal browser for the Mandrill (Mailchimp Transactional)
//! API: configuration rules, the API data model, list ordering, labels,
//! and the application state machine that the terminal front end drives.

pub mod text;
pub mod mandrill;
pub mod sort;
pub mod config;
pub mod app;
pub mod ui;
pub mod keys;
