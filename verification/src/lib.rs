//! The core of an interactive fuzzy file finder: queries and their match
//! patterns, the incremental result set, the event queues, and the decisions
//! of the scanner and of the terminal session.

pub mod pattern;
pub mod result_set;
pub mod search_phrase;
pub mod results_view;
pub mod event_service;
pub mod directory_scanner;
pub mod terminal;
pub mod file_finder;
