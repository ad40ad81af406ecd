//! Local-first domain core of the TM desktop app and CLI: validation rules,
//! ledgers, schedules and screens, each stated and proved with Verus.

pub mod error;
pub mod stock_screen;
pub mod text;
pub mod calendar;
pub mod model;
pub mod memory;
pub mod mutation;
pub mod expense_types;
pub mod expense;
pub mod recurring;
pub mod allocation;
pub mod tally;
pub mod month_summary;
pub mod import;
pub mod normalize;
pub mod stock_watchlist;
pub mod nyse;
pub mod scheduler;
pub mod mail;
pub mod home;
pub mod hashing;
pub mod migration;
pub mod export;
pub mod task_report;
pub mod stock_results;
pub mod expense_commands;
pub mod expense_aggregate;
pub mod expense_attempts;
pub mod expense_refresh;
pub mod import_digest;
pub mod occurrences;
pub mod month_reports;
pub mod mail_states;
pub mod ledger_rules;
pub mod preview_json;
pub mod universe_listing;
pub mod watchlist_order;
