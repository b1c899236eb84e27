//! The rules of a daily scrum poll and of the coin ledger that rewards it.
//!
//! Every function here works on plain values. The tables of [`storage::Storage`]
//! and the messages of [`channel::Channel`] stand for the relational store and
//! the chat channel; a host program that talks to the real ones takes its
//! decisions from the same functions.
//!
//! - [`scrum`] holds the poll of a day: how it is opened, tallied and closed,
//!   what its outcome is and what it pays.
//! - [`scrum_resp`] keeps the answers on record.
//! - [`ugocoin`] is the ledger: amounts, accounts, transfers and their log.
//! - [`user`] holds the users and their streaks.
//! - [`bot`] says what happens on a tick of the timer and on a reaction.
//! - [`command`] answers the commands.
//! - [`invariants`] proves what holds of the store whatever the bot does.

pub mod bot;
pub mod channel;
pub mod command;
pub mod datetime;
pub mod error;
pub mod invariants;
pub mod model;
pub mod scrum;
pub mod scrum_resp;
pub mod storage;
pub mod text;
pub mod ugocoin;
pub mod user;
