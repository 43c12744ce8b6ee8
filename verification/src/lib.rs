//! In-memory stores behind an administrative backend: news articles, users,
//! log entries, file nodes, a terminal session, server settings and dashboard
//! figures, each with its query and mutation operations.

pub mod clock;
pub mod collection;
pub mod dashboard;
pub mod decimal;
pub mod files;
pub mod fresh;
pub mod ident;
pub mod journal;
pub mod logs;
pub mod news;
pub mod query;
pub mod settings;
pub mod status;
pub mod terminal;
pub mod text;
pub mod users;
pub mod walk;
