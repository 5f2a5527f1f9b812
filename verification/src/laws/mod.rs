//! What holds of the library as a whole, proved over the models that its contracts use.

pub mod client;
pub mod dialogue;
pub mod events;
pub mod fetch;
pub mod listener;
pub mod packets;
pub mod reports;
pub mod rounds;
pub mod text;
pub mod wire;
