//! Flow Notes: the verified core of a local-first notes utility.
//!
//! The library holds the notes store on SQLite, the settings, reminders,
//! JSON backups and the decisions of the desktop shell, each with a contract.
pub mod text;
pub mod settings;
pub mod clock;
pub mod backup;
pub mod notes;
pub mod db;
pub mod store;
pub mod reminders;
pub mod desktop;
