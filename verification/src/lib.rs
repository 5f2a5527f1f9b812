//! Protocol core of a Pro DJ Link client.
//!
//! A Pro DJ Link network joins DJ players and mixers. This library decides everything that
//! a client on such a network decides: which packets to send and when, what to make of
//! those that come in, which tracks to ask the players about, and what to report. It does
//! no input or output of its own, and reads no clock: events and times are handed in, and
//! what to do next is handed out.
//!
//! - [`client`] holds what is known; [`state`] is its mathematical model.
//! - [`listener`] runs the two UDP ports, and [`fetch`] a conversation with a player's
//!   database server: each is a state machine whose steps name the next action.
//! - [`packet`] and [`dbserver`] build and read what travels over the network, out of the
//!   parts in [`bytes`] and [`text`].
//! - [`cache`] keeps what was learned about tracks.
//! - [`laws`] states and proves what holds of the whole.
#![allow(unused_imports)]

pub mod bytes;
pub mod cache;
pub mod client;
pub mod dbserver;
pub mod fetch;
pub mod laws;
pub mod listener;
pub mod model;
pub mod packet;
pub mod state;
pub mod text;

pub use client::{ProDjLinkClient, ProDjLinkSource};
pub use model::{CdjDeviceInfo, TrackChangeRecord, TrackInfo};
