//! Booking assistant for clubs on the `MonClub` platform.

#![allow(unused_imports)]

pub mod attempts;
pub mod booking;
pub mod cli;
pub mod client;
pub mod comparison;
pub mod complete;
pub mod config;
pub mod detail;
pub mod discord;
pub mod json;
pub mod listing;
pub mod message;
pub mod number;
pub mod order;
pub mod replies;
pub mod schedule;
pub mod session;
pub mod targets;
pub mod text;
pub mod watch;
pub mod when;
