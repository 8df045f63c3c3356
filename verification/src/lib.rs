//! Verified core of the Miogenes music server and its clients.

pub mod pushbuf;
pub mod reseeker;
pub mod error;
pub mod text;
pub mod ids;
pub mod env;
pub mod paths;
pub mod msgstructs;
pub mod retstructs;
pub mod folders;
pub mod confinement;
pub mod listing;
pub mod upload;
pub mod player;
pub mod decoding;
pub mod metadata;
pub mod auth;
pub mod accounts;
pub mod client;
pub mod queue;
pub mod server;
pub mod control;
pub mod thread;
pub mod albums;
pub mod scrape;
pub mod laws;
